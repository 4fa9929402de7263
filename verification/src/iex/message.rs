//! DEEP price level update messages.
use crate::bytes::{le_u32_at, le_u64_at, read_u32_le, read_u64_le};
use crate::text::push_char;
use vstd::prelude::*;

verus! {

/// A DEEP message with its position in the feed.
#[derive(Debug, Clone, PartialEq)]
pub struct IexDeepMessage {
    pub message_type: u8,
    pub message_subtype: u8,
    pub timestamp: u64,
    pub body: IexDeepMessageImpl,
    pub packet_number: u64,
    pub message_sequence_number: u64,
}

/// The kinds of DEEP message that are decoded.
#[derive(Debug, Clone, PartialEq)]
pub enum IexDeepMessageImpl {
    PriceLevelUpdate(PriceLevelUpdateMessage),
}

/// A price level update on one side of a symbol's book.
#[derive(Debug, Clone, PartialEq)]
pub struct PriceLevelUpdateMessage {
    pub symbol: MessageSymbol,
    pub size: u32,
    pub price: u64,
    pub event_flags: PriceLevelUpdateEventFlags,
}

/// A symbol as sent on the wire: eight characters, padded with spaces.
pub type MessageSymbol = [char; 8];

/// The event flags of a price level update.
#[derive(Debug, Clone, PartialEq)]
pub enum PriceLevelUpdateEventFlags {
    OrderBookIsProcessingAnEvent,
    EventProcessingComplete,
}

/// A decoded message and the size of the decoded update.
#[derive(Debug, Clone, PartialEq)]
pub struct ParseMessageResponse {
    pub parsed_message: IexDeepMessage,
    pub consumed_bytes: usize,
}

/// The event flags that the byte `b` encodes: 0 and 1 are the only ones.
pub open spec fn event_flags_of(b: u8) -> Option<PriceLevelUpdateEventFlags> {
    if b == 0 {
        Some(PriceLevelUpdateEventFlags::OrderBookIsProcessingAnEvent)
    } else if b == 1 {
        Some(PriceLevelUpdateEventFlags::EventProcessingComplete)
    } else {
        None
    }
}

/// The message types of a price level update: `'8'` (buy side) and `'5'` (sell side).
pub open spec fn is_price_level_update_type(t: u8) -> bool {
    t == 0x38 || t == 0x35
}

/// The message at the start of `b` is a price level update with valid event flags.
pub open spec fn is_price_level_update(b: Seq<u8>) -> bool {
    is_price_level_update_type(b[0]) && event_flags_of(b[1]) is Some
}

/// The bytes that decoding the message at the start of `b` reads are all there:
/// the type, flags and timestamp always, and the rest of a price level update.
pub open spec fn message_in_bounds(b: Seq<u8>) -> bool {
    &&& 10 <= b.len()
    &&& is_price_level_update(b) ==> 30 <= b.len()
}

/// Whether the message at the start of `bytes` holds all that decoding it reads.
pub fn message_fits(bytes: &[u8]) -> (r: bool)
    ensures
        r == message_in_bounds(bytes@),
{
    if bytes.len() < 10 {
        false
    } else if (bytes[0] == 0x38 || bytes[0] == 0x35) && bytes[1] <= 1 {
        bytes.len() >= 30
    } else {
        true
    }
}

/// The symbol field: the eight bytes at offset 10, each read as a character.
pub open spec fn symbol_field(b: Seq<u8>) -> MessageSymbol {
    [
        b[10] as char,
        b[11] as char,
        b[12] as char,
        b[13] as char,
        b[14] as char,
        b[15] as char,
        b[16] as char,
        b[17] as char,
    ]
}

/// The message that the bytes at the start of `b` encode, if they encode one that is decoded.
pub open spec fn message_of(b: Seq<u8>, packet_num: u64, message_seq_num: u64) -> Option<
    IexDeepMessage,
> {
    if is_price_level_update(b) {
        Some(
            IexDeepMessage {
                message_type: b[0],
                message_subtype: b[1],
                timestamp: le_u64_at(b, 2),
                body: IexDeepMessageImpl::PriceLevelUpdate(
                    PriceLevelUpdateMessage {
                        symbol: symbol_field(b),
                        size: le_u32_at(b, 18),
                        price: le_u64_at(b, 22),
                        event_flags: event_flags_of(b[1])->0,
                    },
                ),
                packet_number: packet_num,
                message_sequence_number: message_seq_num,
            },
        )
    } else {
        None
    }
}

/// The characters of `s` other than spaces, in order.
pub open spec fn without_spaces(s: Seq<char>) -> Seq<char> {
    s.filter(|c: char| c != ' ')
}

/// The symbol with its padding spaces taken out.
pub open spec fn trimmed_symbol(symbol: MessageSymbol) -> Seq<char> {
    without_spaces(symbol@)
}

/// A message is decoded exactly when it is a price level update (type `'8'`
/// or `'5'`, flags 0 or 1), and then each field is read from its bytes: the
/// type and flags bytes as they are, the timestamp, size and price as the
/// little-endian integers of all of their bytes (offsets 2, 18 and 22, the
/// byte at `off + k` weighing `2^(8k)`), the symbol as the eight bytes from
/// offset 10, and the packet and sequence numbers as given.
pub proof fn law_message_fields_are_little_endian(b: Seq<u8>, packet_num: u64, seq: u64)
    requires
        message_in_bounds(b),
    ensures
        message_of(b, packet_num, seq) is Some <==> ((b[0] == 0x38 || b[0] == 0x35) && b[1] <= 1),
        message_of(b, packet_num, seq) matches Some(m) ==> {
            &&& m.message_type == b[0]
            &&& m.message_subtype == b[1]
            &&& m.packet_number == packet_num
            &&& m.message_sequence_number == seq
            &&& m.timestamp == b[2] + 0x100 * b[3] + 0x1_0000 * b[4] + 0x100_0000 * b[5]
                + 0x1_0000_0000 * b[6] + 0x100_0000_0000 * b[7] + 0x1_0000_0000_0000 * b[8]
                + 0x100_0000_0000_0000 * b[9]
            &&& m.body matches IexDeepMessageImpl::PriceLevelUpdate(u) && {
                &&& u.size == b[18] + 0x100 * b[19] + 0x1_0000 * b[20] + 0x100_0000 * b[21]
                &&& u.price == b[22] + 0x100 * b[23] + 0x1_0000 * b[24] + 0x100_0000 * b[25]
                    + 0x1_0000_0000 * b[26] + 0x100_0000_0000 * b[27] + 0x1_0000_0000_0000
                    * b[28] + 0x100_0000_0000_0000 * b[29]
                &&& forall|i: int| 0 <= i < 8 ==> #[trigger] u.symbol@[i] == b[10 + i] as char
                &&& (b[1] == 0 ==> u.event_flags == PriceLevelUpdateEventFlags::OrderBookIsProcessingAnEvent)
                &&& (b[1] == 1 ==> u.event_flags == PriceLevelUpdateEventFlags::EventProcessingComplete)
            }
        },
{
    if let Some(m) = message_of(b, packet_num, seq) {
        let IexDeepMessageImpl::PriceLevelUpdate(u) = m.body;
        assert forall|i: int| 0 <= i < 8 implies #[trigger] u.symbol@[i] == b[10 + i] as char by {
            assert(u.symbol == symbol_field(b));
        }
    }
}

/// A trimmed symbol holds no space and at most eight characters.
pub proof fn law_trimmed_symbol_is_short_and_unpadded(symbol: MessageSymbol)
    ensures
        trimmed_symbol(symbol).len() <= 8,
        !trimmed_symbol(symbol).contains(' '),
{
    let pred = |c: char| c != ' ';
    symbol@.lemma_filter_len(pred);
    if trimmed_symbol(symbol).contains(' ') {
        let i = choose|i: int| 0 <= i < trimmed_symbol(symbol).len() && trimmed_symbol(symbol)[i] == ' ';
        symbol@.lemma_filter_pred(pred, i);
    }
}

proof fn lemma_without_spaces_push(s: Seq<char>, c: char)
    ensures
        without_spaces(s.push(c)) == if c == ' ' {
            without_spaces(s)
        } else {
            without_spaces(s).push(c)
        },
{
    reveal(Seq::filter);
    assert(s.push(c).drop_last() == s);
}

impl IexDeepMessage {
    /// The message's symbol without spaces.
    pub fn symbol(&self) -> (r: Option<String>)
        ensures
            r matches Some(s) && match self.body {
                IexDeepMessageImpl::PriceLevelUpdate(m) => s@ == trimmed_symbol(m.symbol),
            },
    {
        match &self.body {
            IexDeepMessageImpl::PriceLevelUpdate(m) => {
                let mut out = String::new();
                for i in 0..8
                    invariant
                        out@ == without_spaces(m.symbol@.take(i as int)),
                {
                    let c = m.symbol[i];
                    proof {
                        assert(m.symbol@.take(i + 1) == m.symbol@.take(i as int).push(c));
                        lemma_without_spaces_push(m.symbol@.take(i as int), c);
                    }
                    if c != ' ' {
                        push_char(&mut out, c);
                    }
                }
                proof {
                    assert(m.symbol@.take(8) == m.symbol@);
                }
                Some(out)
            },
        }
    }
}

impl PriceLevelUpdateEventFlags {
    /// The event flags that `byte` encodes.
    pub fn from_u8(byte: u8) -> (r: Option<PriceLevelUpdateEventFlags>)
        ensures
            r == event_flags_of(byte),
    {
        match byte {
            0x0 => Some(PriceLevelUpdateEventFlags::OrderBookIsProcessingAnEvent),
            0x1 => Some(PriceLevelUpdateEventFlags::EventProcessingComplete),
            _ => None,
        }
    }
}

/// Decodes the message at the start of `bytes`.
///
/// Price level updates (types `'8'` and `'5'`) with valid event flags are
/// decoded; every other message gives `None`.
pub fn parse_message(bytes: &[u8], packet_num: u64, message_seq_num: u64) -> (r: Option<
    ParseMessageResponse,
>)
    requires
        message_in_bounds(bytes@),
    ensures
        r is Some <==> is_price_level_update(bytes@),
        r matches Some(resp) ==> {
            &&& Some(resp.parsed_message) == message_of(bytes@, packet_num, message_seq_num)
            &&& resp.consumed_bytes == vstd::layout::size_of::<PriceLevelUpdateMessage>()
        },
{
    let message_type = bytes[0];
    let message_subtype = bytes[1];
    let timestamp = read_u64_le(bytes, 2);

    if message_type == 0x38 || message_type == 0x35 {
        match PriceLevelUpdateEventFlags::from_u8(message_subtype) {
            Some(event_flags) => {
                let message = PriceLevelUpdateMessage {
                    event_flags,
                    symbol: [
                        bytes[10] as char,
                        bytes[11] as char,
                        bytes[12] as char,
                        bytes[13] as char,
                        bytes[14] as char,
                        bytes[15] as char,
                        bytes[16] as char,
                        bytes[17] as char,
                    ],
                    size: read_u32_le(bytes, 18),
                    price: read_u64_le(bytes, 22),
                };
                let consumed_bytes = core::mem::size_of::<PriceLevelUpdateMessage>();
                let body = IexDeepMessageImpl::PriceLevelUpdate(message);
                Some(
                    ParseMessageResponse {
                        parsed_message: IexDeepMessage {
                            message_type,
                            message_subtype,
                            timestamp,
                            body,
                            packet_number: packet_num,
                            message_sequence_number: message_seq_num,
                        },
                        consumed_bytes,
                    },
                )
            },
            None => None,
        }
    } else {
        None
    }
}

} // verus!
