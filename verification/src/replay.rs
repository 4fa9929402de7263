//! Replaying captured packets into the order book of one symbol, up to a
//! point in time.
use crate::fs::{date_text, TradeDate};
use crate::iex::body::{body_decodable, body_is_decodable, body_messages, parse_body};
use crate::iex::body::{
    decoded_frames, framed, frames_fit, frames_in_bounds, law_body_messages_are_numbered_updates,
    law_body_walks_message_by_message,
};
use crate::iex::header::law_header_fields_are_little_endian;
use crate::iex::header::{header_of, parse_header, IEX_TP_HEADER_LEN};
use crate::iex::message::{
    is_price_level_update_type, trimmed_symbol, IexDeepMessage, IexDeepMessageImpl,
};
use crate::order_book::side::Side;
use crate::order_book::{book_after_limit, law_sizes_stay_positive, sizes_positive, BookLevels, OrderBook};
use crate::text::push_char;
use chrono::TimeZone;
use vstd::prelude::*;
use vstd::slice::slice_subrange;

verus! {

/// etherparse's error for a frame it cannot slice, carried through without looking inside.
#[verifier::external_type_specification]
#[verifier::external_body]
pub struct ExEtherparseReadError(etherparse::ReadError);

/// The payload that etherparse's `SlicedPacket::from_ethernet` finds in the
/// Ethernet II frame `frame`, or `None` where it reports an error.
pub uninterp spec fn ethernet_payload_of(frame: Seq<u8>) -> Option<Seq<u8>>;

/// The nanoseconds since the epoch of the US/Eastern local time that chrono's
/// `TimeZone::datetime_from_str` reads from `text` with the format `fmt`:
/// `None` where it reports an error, `Some(None)` where the instant does not
/// fit in `i64` nanoseconds.
pub uninterp spec fn eastern_nanos(text: Seq<char>, fmt: Seq<char>) -> Option<Option<i64>>;

/// Slices the payload out of an Ethernet II frame.
///
/// Calls `etherparse::SlicedPacket::from_ethernet` and hands back the
/// `payload` field of the result, or the error. The contract ties the payload
/// to the frame through the name `ethernet_payload_of`; which headers
/// etherparse strips is not stated.
#[verifier::external_body]
fn ethernet_payload(frame: &[u8]) -> (r: Result<&[u8], etherparse::ReadError>)
    ensures
        r is Ok <==> ethernet_payload_of(frame@) is Some,
        r matches Ok(p) ==> ethernet_payload_of(frame@) == Some(p@),
{
    etherparse::SlicedPacket::from_ethernet(frame).map(|packet| packet.payload)
}

/// Reads a US/Eastern local time.
///
/// Calls `chrono_tz::US::Eastern.datetime_from_str(text, fmt)` and then
/// `DateTime::timestamp_nanos_opt` on the result, or hands back the parse
/// error. The contract ties the outcome to `text` and `fmt` through the name
/// `eastern_nanos`; how chrono reads the text and which offset the time zone
/// database gives are not stated.
#[verifier::external_body]
#[allow(deprecated)]
fn eastern_timestamp_nanos(text: &str, fmt: &str) -> (r: Result<Option<i64>, chrono::ParseError>)
    ensures
        r is Ok <==> eastern_nanos(text@, fmt@) is Some,
        r matches Ok(n) ==> eastern_nanos(text@, fmt@) == Some(n),
{
    match chrono_tz::US::Eastern.datetime_from_str(text, fmt) {
        Ok(t) => Ok(t.timestamp_nanos_opt()),
        Err(e) => Err(e),
    }
}

/// Why no booking time could be computed.
#[derive(Debug, PartialEq, Eq, Structural)]
pub enum BookingTimeError {
    /// The date and time do not read as a US/Eastern local time.
    InvalidTime,
    /// The instant lies outside what `i64` nanoseconds since the epoch hold.
    OutOfRange,
}

/// The format of a booking time: the trade date, a space, and the time of day
/// with fractional seconds.
pub open spec fn booking_format() -> Seq<char> {
    seq!['%', 'Y', '-', '%', 'm', '-', '%', 'd', ' ', '%', 'H', ':', '%', 'M', ':', '%', 'S', '%', '.', '6', 'f']
}

/// The text of a booking time: the date as `YYYY-MM-DD`, a space, and the time of day.
pub open spec fn booking_text(date: TradeDate, time: Seq<char>) -> Seq<char> {
    date_text(date) + seq![' '] + time
}

/// The booking time of `date` at `time` of day.
pub open spec fn booking_time_of(date: TradeDate, time: Seq<char>) -> Result<i64, BookingTimeError> {
    match eastern_nanos(booking_text(date, time), booking_format()) {
        None => Err(BookingTimeError::InvalidTime),
        Some(None) => Err(BookingTimeError::OutOfRange),
        Some(Some(n)) => Ok(n),
    }
}

/// The instant, in nanoseconds since the epoch, of `time` (`H:M:S.fraction`)
/// US/Eastern on `trade_date`: the point up to which a book is replayed.
pub fn booking_time(trade_date: &TradeDate, time: &str) -> (r: Result<i64, BookingTimeError>)
    ensures
        r == booking_time_of(*trade_date, time@),
{
    let mut text = trade_date.to_string();
    push_char(&mut text, ' ');
    let ghost start = text@;
    for c in it: time.chars()
        invariant
            text@ == start + it.seq().take(it.index() as int),
            it.seq() == time@,
    {
        assert(it.seq().take(it.index() + 1) == it.seq().take(it.index() as int).push(c));
        push_char(&mut text, c);
    }
    let fmt = "%Y-%m-%d %H:%M:%S%.6f";
    proof {
        reveal_strlit("%Y-%m-%d %H:%M:%S%.6f");
        assert(fmt@ =~= booking_format());
        assert(text@ =~= booking_text(*trade_date, time@));
    }
    match eastern_timestamp_nanos(text.as_str(), fmt) {
        Ok(Some(n)) => Ok(n),
        Ok(None) => Err(BookingTimeError::OutOfRange),
        Err(_) => Err(BookingTimeError::InvalidTime),
    }
}

/// The side of the book that a price level update of type `t` updates:
/// `'8'` updates the buy side, `'5'` the sell side.
pub open spec fn side_of_type(t: u8) -> Side {
    if t == 0x38 {
        Side::Buy
    } else {
        Side::Sell
    }
}

/// The book after one message: an update for `symbol` updates its level, any
/// other message leaves the book as it is.
pub open spec fn book_after_message(book: BookLevels, m: IexDeepMessage, symbol: Seq<char>) -> BookLevels {
    match m.body {
        IexDeepMessageImpl::PriceLevelUpdate(u) => if trimmed_symbol(u.symbol) == symbol {
            book_after_limit(book, side_of_type(m.message_type), u.size, u.price)
        } else {
            book
        },
    }
}

/// The book after the messages `msgs`, in order.
pub open spec fn book_after_messages(book: BookLevels, msgs: Seq<IexDeepMessage>, symbol: Seq<char>) -> BookLevels
    decreases msgs.len(),
{
    if msgs.len() == 0 {
        book
    } else {
        book_after_message(book_after_messages(book, msgs.drop_last(), symbol), msgs.last(), symbol)
    }
}

/// What the replay knows: the book, the symbol and time it is built for, the
/// time of the last message seen and the number of packets replayed.
#[verifier::ext_equal]
pub struct ReplayState {
    pub book: BookLevels,
    pub symbol_to_book: Seq<char>,
    pub time_to_book: i64,
    pub last_tick_time: u64,
    pub packet_counter: u64,
}

/// The replay of a capture into the book of one symbol.
pub struct BookReplay {
    pub order_book: OrderBook,
    pub symbol_to_book: String,
    pub time_to_book: i64,
    pub last_tick_time: u64,
    pub packet_counter: u64,
}

impl View for BookReplay {
    type V = ReplayState;

    open spec fn view(&self) -> ReplayState {
        ReplayState {
            book: self.order_book@,
            symbol_to_book: self.symbol_to_book@,
            time_to_book: self.time_to_book,
            last_tick_time: self.last_tick_time,
            packet_counter: self.packet_counter,
        }
    }
}

/// Whether the replay goes on after a packet.
#[derive(Debug, Copy, Clone, PartialEq, Eq, Structural)]
pub enum ReplayStep {
    /// The last message seen is older than the booking time.
    Continue,
    /// The last message seen is at or after the booking time.
    TimeReached,
}

/// Why a packet could not be replayed.
#[derive(Debug)]
pub enum ReplayError {
    /// The frame is not an Ethernet II frame that etherparse can slice.
    Ethernet(etherparse::ReadError),
    /// The payload is shorter than an IEX-TP header.
    HeaderTooShort,
    /// The header carries a version other than 1.
    UnexpectedVersion(u8),
    /// The header carries a message protocol other than DEEP (0x8004).
    UnexpectedProtocol(u16),
    /// A message in the block is shorter than what decoding it reads, or the
    /// message numbering runs past `u64`.
    TruncatedMessage,
}

/// The outcome of replaying the packet payload `payload` in the state `s`: the
/// new state and whether the replay goes on, or why the payload is refused.
pub open spec fn replay_outcome(s: ReplayState, payload: Seq<u8>) -> Result<(ReplayState, ReplayStep), ReplayError> {
    if payload.len() < IEX_TP_HEADER_LEN {
        Err(ReplayError::HeaderTooShort)
    } else {
        let h = header_of(payload);
        if h.version != 1 {
            Err(ReplayError::UnexpectedVersion(h.version))
        } else if h.message_protocol_id != 0x8004 {
            Err(ReplayError::UnexpectedProtocol(h.message_protocol_id))
        } else {
            let block = payload.subrange(IEX_TP_HEADER_LEN as int, payload.len() as int);
            if !body_decodable(block, h.first_message_sequence_number) {
                Err(ReplayError::TruncatedMessage)
            } else {
                let msgs = body_messages(block, s.packet_counter, h.first_message_sequence_number);
                let after = ReplayState {
                    book: book_after_messages(s.book, msgs, s.symbol_to_book),
                    last_tick_time: if msgs.len() > 0 {
                        msgs.last().timestamp
                    } else {
                        s.last_tick_time
                    },
                    packet_counter: (s.packet_counter + 1) as u64,
                    ..s
                };
                let step = if after.last_tick_time < (s.time_to_book as u64) {
                    ReplayStep::Continue
                } else {
                    ReplayStep::TimeReached
                };
                Ok((after, step))
            }
        }
    }
}

/// The replay went from `before` to `after` with result `r` as `outcome` says;
/// a refused packet leaves the state as it was.
pub open spec fn follows_outcome(
    before: ReplayState,
    after: ReplayState,
    r: Result<ReplayStep, ReplayError>,
    outcome: Result<(ReplayState, ReplayStep), ReplayError>,
) -> bool {
    match outcome {
        Ok((s, step)) => r == Ok::<ReplayStep, ReplayError>(step) && after == s,
        Err(e) => r == Err::<ReplayStep, ReplayError>(e) && after == before,
    }
}

proof fn lemma_messages_keep_sizes_positive(book: BookLevels, msgs: Seq<IexDeepMessage>, symbol: Seq<char>)
    requires
        sizes_positive(book),
    ensures
        sizes_positive(book_after_messages(book, msgs, symbol)),
    decreases msgs.len(),
{
    if msgs.len() > 0 {
        let before = book_after_messages(book, msgs.drop_last(), symbol);
        lemma_messages_keep_sizes_positive(book, msgs.drop_last(), symbol);
        let m = msgs.last();
        match m.body {
            IexDeepMessageImpl::PriceLevelUpdate(u) => {
                law_sizes_stay_positive(before, side_of_type(m.message_type), u.size, u.price);
            },
        }
    }
}

/// Replaying a packet never leaves a level of size zero in the book.
pub proof fn law_replay_keeps_sizes_positive(s: ReplayState, payload: Seq<u8>)
    requires
        sizes_positive(s.book),
    ensures
        replay_outcome(s, payload) matches Ok((after, _)) ==> sizes_positive(after.book),
{
    if payload.len() >= IEX_TP_HEADER_LEN {
        let h = header_of(payload);
        let block = payload.subrange(IEX_TP_HEADER_LEN as int, payload.len() as int);
        let msgs = body_messages(block, s.packet_counter, h.first_message_sequence_number);
        lemma_messages_keep_sizes_positive(s.book, msgs, s.symbol_to_book);
    }
}

/// Every price level update for the booked symbol is applied, whatever its
/// event flags: a `'8'` update sets the level of the buy side, a `'5'` update
/// that of the sell side, as `add_limit` does with the update's size and price.
/// Two updates that differ only in their flags leave the same book.
pub proof fn law_matching_updates_apply_whatever_their_flags(
    book: BookLevels,
    m: IexDeepMessage,
    symbol: Seq<char>,
    flags: crate::iex::message::PriceLevelUpdateEventFlags,
)
    requires
        m.body matches IexDeepMessageImpl::PriceLevelUpdate(u) && trimmed_symbol(u.symbol) == symbol,
        m.message_type == 0x38 || m.message_type == 0x35,
    ensures
        ({
            let IexDeepMessageImpl::PriceLevelUpdate(u) = m.body;
            let side = if m.message_type == 0x38 {
                Side::Buy
            } else {
                Side::Sell
            };
            let after = book_after_message(book, m, symbol);
            let other = IexDeepMessage {
                body: IexDeepMessageImpl::PriceLevelUpdate(
                    crate::iex::message::PriceLevelUpdateMessage { event_flags: flags, ..u },
                ),
                ..m
            };
            &&& after == book_after_limit(book, side, u.size, u.price)
            &&& book_after_message(book, other, symbol) == after
            &&& (m.message_type == 0x38 && u.size > 0 && !book.buys.contains_key(u.price))
                ==> after.buys.contains_key(u.price) && after.buys[u.price] == u.size
                && after.sells == book.sells
            &&& (m.message_type == 0x35 && u.size > 0 && !book.sells.contains_key(u.price))
                ==> after.sells.contains_key(u.price) && after.sells[u.price] == u.size
                && after.buys == book.buys
            &&& u.size == 0 && m.message_type == 0x38 ==> !after.buys.contains_key(u.price)
            &&& u.size == 0 && m.message_type == 0x35 ==> !after.sells.contains_key(u.price)
        }),
{
}

/// Replaying a payload made of a 40-byte header and a block of framed
/// messages: the payload is refused when the header's version byte is not 1,
/// or its protocol bytes are not `04 80` (0x8004 little-endian), or a message
/// is shorter than what decoding it reads. Otherwise the book takes the
/// decodable messages in order, numbered from the header's first sequence
/// number (bytes 24 to 32); the last tick time becomes the timestamp of the
/// last of them (or stays when there is none); one more packet is counted;
/// and the replay stops exactly when that time has reached the booking time.
pub proof fn law_replay_of_framed_payload(s: ReplayState, h: Seq<u8>, ms: Seq<Seq<u8>>)
    requires
        h.len() == IEX_TP_HEADER_LEN,
        frames_fit(ms),
        s.packet_counter < u64::MAX,
    ensures
        ({
            let outcome = replay_outcome(s, h + framed(ms));
            let first = header_of(h).first_message_sequence_number;
            let msgs = decoded_frames(ms, s.packet_counter, first as int);
            &&& h[0] != 1 ==> outcome == Err::<(ReplayState, ReplayStep), ReplayError>(
                ReplayError::UnexpectedVersion(h[0]),
            )
            &&& h[0] == 1 && !(h[2] == 0x04 && h[3] == 0x80) ==> match outcome {
                Err(ReplayError::UnexpectedProtocol(_)) => true,
                _ => false,
            }
            &&& h[0] == 1 && h[2] == 0x04 && h[3] == 0x80 ==> {
                &&& !(frames_in_bounds(ms) && first + ms.len() <= u64::MAX) ==> match outcome {
                    Err(ReplayError::TruncatedMessage) => true,
                    _ => false,
                }
                &&& frames_in_bounds(ms) && first + ms.len() <= u64::MAX ==> match outcome {
                    Ok((after, step)) => {
                    &&& after.book == book_after_messages(s.book, msgs, s.symbol_to_book)
                    &&& after.last_tick_time == if msgs.len() > 0 {
                        msgs[msgs.len() - 1].timestamp
                    } else {
                        s.last_tick_time
                    }
                    &&& after.packet_counter == s.packet_counter + 1
                    &&& after.symbol_to_book == s.symbol_to_book
                    &&& after.time_to_book == s.time_to_book
                    &&& (step == ReplayStep::TimeReached <==> after.last_tick_time >= (
                    s.time_to_book as u64))
                    },
                    Err(_) => false,
                }
            }
        }),
{
    let p = h + framed(ms);
    assert(p.subrange(0, IEX_TP_HEADER_LEN as int) == h);
    law_header_fields_are_little_endian(p);
    law_header_fields_are_little_endian(h);
    assert forall|i: int| 0 <= i < IEX_TP_HEADER_LEN implies p[i] == h[i] by {}
    let first = header_of(p).first_message_sequence_number;
    assert(header_of(p) == header_of(h));
    assert(p.subrange(IEX_TP_HEADER_LEN as int, p.len() as int) =~= framed(ms));
    law_body_walks_message_by_message(ms, s.packet_counter, first);
}

/// Messages for other symbols leave the book as it is.
pub proof fn law_other_symbols_leave_book(book: BookLevels, msgs: Seq<IexDeepMessage>, symbol: Seq<char>)
    requires
        forall|i: int|
            0 <= i < msgs.len() ==> match (#[trigger] msgs[i]).body {
                IexDeepMessageImpl::PriceLevelUpdate(u) => trimmed_symbol(u.symbol) != symbol,
            },
    ensures
        book_after_messages(book, msgs, symbol) == book,
    decreases msgs.len(),
{
    if msgs.len() > 0 {
        assert forall|i: int| 0 <= i < msgs.drop_last().len() implies match (
        #[trigger] msgs.drop_last()[i]).body {
            IexDeepMessageImpl::PriceLevelUpdate(u) => trimmed_symbol(u.symbol) != symbol,
        } by {
            assert(msgs.drop_last()[i] == msgs[i]);
        }
        law_other_symbols_leave_book(book, msgs.drop_last(), symbol);
        assert(msgs.last() == msgs[msgs.len() - 1]);
    }
}

/// Each replayed packet counts one packet, keeps the symbol and booking time,
/// and tells whether the last message seen has reached the booking time.
pub proof fn law_replay_counts_packets(s: ReplayState, payload: Seq<u8>)
    requires
        s.packet_counter < u64::MAX,
    ensures
        replay_outcome(s, payload) matches Ok((after, step)) ==> {
            &&& after.packet_counter == s.packet_counter + 1
            &&& after.symbol_to_book == s.symbol_to_book
            &&& after.time_to_book == s.time_to_book
            &&& (step == ReplayStep::TimeReached <==> after.last_tick_time >= (s.time_to_book as u64))
        },
{
}

impl BookReplay {
    /// A replay for `symbol_to_book` up to `time_to_book` (nanoseconds since the
    /// epoch), with an empty book and no packet seen.
    pub fn new(symbol_to_book: String, time_to_book: i64) -> (r: Self)
        ensures
            r@.book.buys == Map::<u64, u32>::empty(),
            r@.book.sells == Map::<u64, u32>::empty(),
            r@.symbol_to_book == symbol_to_book@,
            r@.time_to_book == time_to_book,
            r@.last_tick_time == 0,
            r@.packet_counter == 0,
    {
        BookReplay {
            order_book: OrderBook::new(),
            symbol_to_book,
            time_to_book,
            last_tick_time: 0,
            packet_counter: 0,
        }
    }

    /// Replays the IEX-TP payload of one packet: checks the header, decodes the
    /// message block, applies the updates for the booked symbol to the book and
    /// notes the time of the last message.
    pub fn replay_payload(&mut self, payload: &[u8]) -> (r: Result<ReplayStep, ReplayError>)
        requires
            old(self).packet_counter < u64::MAX,
        ensures
            follows_outcome(old(self)@, final(self)@, r, replay_outcome(old(self)@, payload@)),
    {
        let iex_header = match parse_header(payload) {
            Some(hdr) => hdr,
            None => return Err(ReplayError::HeaderTooShort),
        };
        if iex_header.version != 1 {
            return Err(ReplayError::UnexpectedVersion(iex_header.version));
        }
        if iex_header.message_protocol_id != 0x8004 {
            return Err(ReplayError::UnexpectedProtocol(iex_header.message_protocol_id));
        }
        let block = slice_subrange(payload, IEX_TP_HEADER_LEN, payload.len());
        if !body_is_decodable(block, iex_header.first_message_sequence_number) {
            return Err(ReplayError::TruncatedMessage);
        }
        let messages = parse_body(block, self.packet_counter, iex_header.first_message_sequence_number);
        proof {
            law_body_messages_are_numbered_updates(
                block@,
                self.packet_counter,
                iex_header.first_message_sequence_number,
            );
        }
        let ghost before = self@;
        let mut i: usize = 0;
        while i < messages.len()
            invariant
                i <= messages@.len(),
                messages@ == body_messages(block@, before.packet_counter, iex_header.first_message_sequence_number),
                forall|j: int| 0 <= j < messages@.len() ==> is_price_level_update_type(#[trigger] messages@[j].message_type),
                self@.book == book_after_messages(before.book, messages@.take(i as int), before.symbol_to_book),
                self@.last_tick_time == if i == 0 {
                    before.last_tick_time
                } else {
                    messages@[i - 1].timestamp
                },
                self@.symbol_to_book == before.symbol_to_book,
                self@.time_to_book == before.time_to_book,
                self@.packet_counter == before.packet_counter,
            decreases messages@.len() - i,
        {
            let message = &messages[i];
            proof {
                assert(messages@.take(i + 1).drop_last() == messages@.take(i as int));
                assert(messages@.take(i + 1).last() == messages@[i as int]);
                assert(is_price_level_update_type(messages@[i as int].message_type));
            }
            let symbol = message.symbol().unwrap();
            if symbol == self.symbol_to_book {
                let side = if message.message_type == 0x38 {
                    Side::Buy
                } else {
                    Side::Sell
                };
                match &message.body {
                    IexDeepMessageImpl::PriceLevelUpdate(m) => {
                        self.order_book.add_limit(side, m.size, m.price);
                    },
                }
            }
            self.last_tick_time = message.timestamp;
            i = i + 1;
        }
        proof {
            assert(messages@.take(messages@.len() as int) == messages@);
        }
        self.packet_counter = self.packet_counter + 1;
        if self.last_tick_time < (self.time_to_book as u64) {
            Ok(ReplayStep::Continue)
        } else {
            Ok(ReplayStep::TimeReached)
        }
    }

    /// Replays one captured Ethernet II frame: slices out its payload with
    /// etherparse and replays that.
    pub fn replay_packet(&mut self, frame: &[u8]) -> (r: Result<ReplayStep, ReplayError>)
        requires
            old(self).packet_counter < u64::MAX,
        ensures
            match ethernet_payload_of(frame@) {
                None => r matches Err(ReplayError::Ethernet(_)) && final(self)@ == old(self)@,
                Some(p) => follows_outcome(old(self)@, final(self)@, r, replay_outcome(old(self)@, p)),
            },
    {
        match ethernet_payload(frame) {
            Ok(payload) => self.replay_payload(payload),
            Err(e) => Err(ReplayError::Ethernet(e)),
        }
    }
}

} // verus!
