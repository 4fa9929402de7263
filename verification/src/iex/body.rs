//! The message block of an IEX-TP packet.
use crate::bytes::{le_u16_at, read_u16_le};
use crate::iex::message::{
    is_price_level_update_type, message_fits, message_in_bounds, message_of, parse_message, IexDeepMessage,
};
use vstd::prelude::*;
use vstd::slice::slice_subrange;

verus! {

/// How many bytes of `b` lie at or after `offset`.
pub open spec fn remaining_after(b: Seq<u8>, offset: int) -> nat {
    if 0 <= offset && offset <= b.len() {
        (b.len() - offset) as nat
    } else {
        0
    }
}

/// The messages decoded from the message block `b`, from the length prefix at
/// `offset` on, numbering them from `seq`.
///
/// Each message is a two-byte little-endian length followed by that many bytes.
/// A zero length ends the block; so does the end of `b`. Every message that is
/// walked takes a sequence number, also the ones that are not decoded.
pub open spec fn body_messages_from(b: Seq<u8>, offset: int, packet_num: u64, seq: int) -> Seq<
    IexDeepMessage,
>
    decreases remaining_after(b, offset),
{
    if 0 <= offset && offset + 2 < b.len() {
        let len = le_u16_at(b, offset);
        if len == 0 {
            seq![]
        } else {
            let rest = body_messages_from(b, offset + 2 + len, packet_num, seq + 1);
            match message_of(b.subrange(offset + 2, b.len() as int), packet_num, seq as u64) {
                Some(m) => seq![m] + rest,
                None => rest,
            }
        }
    } else {
        seq![]
    }
}

/// The number of messages walked in `b` from the length prefix at `offset` on.
pub open spec fn body_steps_from(b: Seq<u8>, offset: int) -> nat
    decreases remaining_after(b, offset),
{
    if 0 <= offset && offset + 2 < b.len() {
        let len = le_u16_at(b, offset);
        if len == 0 {
            0
        } else {
            1 + body_steps_from(b, offset + 2 + len)
        }
    } else {
        0
    }
}

/// Every message walked in `b` from `offset` on holds the bytes that its decoding reads.
pub open spec fn body_in_bounds_from(b: Seq<u8>, offset: int) -> bool
    decreases remaining_after(b, offset),
{
    if 0 <= offset && offset + 2 < b.len() {
        let len = le_u16_at(b, offset);
        if len == 0 {
            true
        } else {
            message_in_bounds(b.subrange(offset + 2, b.len() as int)) && body_in_bounds_from(
                b,
                offset + 2 + len,
            )
        }
    } else {
        true
    }
}

/// The messages of the block `b`, numbered from `seq`.
pub open spec fn body_messages(b: Seq<u8>, packet_num: u64, seq: u64) -> Seq<IexDeepMessage> {
    body_messages_from(b, 0, packet_num, seq as int)
}

/// The block `b` can be decoded with numbers from `seq` on: every message holds
/// what its decoding reads and the numbering stays within `u64`.
pub open spec fn body_decodable(b: Seq<u8>, seq: u64) -> bool {
    &&& body_in_bounds_from(b, 0)
    &&& seq + body_steps_from(b, 0) <= u64::MAX
}

proof fn lemma_body_past_end(b: Seq<u8>, offset: int, packet_num: u64, seq: int)
    requires
        offset + 2 >= b.len(),
    ensures
        body_messages_from(b, offset, packet_num, seq) == Seq::<IexDeepMessage>::empty(),
        body_steps_from(b, offset) == 0,
        body_in_bounds_from(b, offset),
{
}

/// Decodes the price level updates in the message block `bytes`, numbering the
/// messages from `message_seq_num_start`.
pub fn parse_body(bytes: &[u8], packet_num: u64, message_seq_num_start: u64) -> (r: Vec<
    IexDeepMessage,
>)
    requires
        body_decodable(bytes@, message_seq_num_start),
    ensures
        r@ == body_messages(bytes@, packet_num, message_seq_num_start),
{
    let mut messages: Vec<IexDeepMessage> = Vec::new();
    let mut offset: usize = 0;
    let mut message_seq_num: u64 = message_seq_num_start;
    let mut done: bool = false;
    while !done && offset < bytes.len() && bytes.len() - offset > 2
        invariant
            offset <= bytes@.len(),
            messages@ + (if done {
                seq![]
            } else {
                body_messages_from(bytes@, offset as int, packet_num, message_seq_num as int)
            }) == body_messages(bytes@, packet_num, message_seq_num_start),
            !done ==> message_seq_num + body_steps_from(bytes@, offset as int) <= u64::MAX,
            !done ==> body_in_bounds_from(bytes@, offset as int),
        decreases bytes@.len() - offset + (if done {
            0int
        } else {
            1int
        }),
    {
        let ghost at = offset as int;
        let ghost seq_here = message_seq_num as int;
        let message_length = read_u16_le(bytes, offset);
        offset = offset + 2;
        if message_length == 0 {
            done = true;
        } else {
            let rest = slice_subrange(bytes, offset, bytes.len());
            match parse_message(rest, packet_num, message_seq_num) {
                Some(response) => {
                    messages.push(response.parsed_message);
                },
                None => {},
            }
            if (message_length as usize) < bytes.len() - offset {
                offset = offset + message_length as usize;
            } else {
                offset = bytes.len();
                proof {
                    lemma_body_past_end(bytes@, at + 2 + message_length, packet_num, seq_here + 1);
                }
            }
            message_seq_num = message_seq_num + 1;
        }
    }
    proof {
        if !done {
            lemma_body_past_end(bytes@, offset as int, packet_num, message_seq_num as int);
        }
    }
    messages
}

/// Whether `bytes` can be decoded by [`parse_body`] with numbers from `message_seq_num_start` on.
pub fn body_is_decodable(bytes: &[u8], message_seq_num_start: u64) -> (r: bool)
    ensures
        r == body_decodable(bytes@, message_seq_num_start),
{
    let mut offset: usize = 0;
    let mut message_seq_num: u64 = message_seq_num_start;
    while offset < bytes.len() && bytes.len() - offset > 2
        invariant
            offset <= bytes@.len(),
            body_decodable(bytes@, message_seq_num_start) == (body_in_bounds_from(
                bytes@,
                offset as int,
            ) && message_seq_num + body_steps_from(bytes@, offset as int) <= u64::MAX),
        decreases bytes@.len() - offset,
    {
        let ghost at = offset as int;
        let message_length = read_u16_le(bytes, offset);
        offset = offset + 2;
        if message_length == 0 {
            return true;
        }
        let rest = slice_subrange(bytes, offset, bytes.len());
        if !message_fits(rest) {
            return false;
        }
        if message_seq_num == u64::MAX {
            return false;
        }
        if (message_length as usize) < bytes.len() - offset {
            offset = offset + message_length as usize;
        } else {
            offset = bytes.len();
            proof {
                lemma_body_past_end(bytes@, at + 2 + message_length, 0, 0);
            }
        }
        message_seq_num = message_seq_num + 1;
    }
    proof {
        lemma_body_past_end(bytes@, offset as int, 0, 0);
    }
    true
}

/// One message with its two-byte little-endian length prefix.
pub open spec fn frame(m: Seq<u8>) -> Seq<u8> {
    seq![(m.len() % 0x100) as u8, (m.len() / 0x100) as u8] + m
}

/// The messages `ms`, each with its length prefix, one after the other.
pub open spec fn framed(ms: Seq<Seq<u8>>) -> Seq<u8>
    decreases ms.len(),
{
    if ms.len() == 0 {
        seq![]
    } else {
        frame(ms[0]) + framed(ms.drop_first())
    }
}

/// Every message is non-empty and its length fits the two-byte prefix.
pub open spec fn frames_fit(ms: Seq<Seq<u8>>) -> bool {
    forall|i: int| 0 <= i < ms.len() ==> 1 <= #[trigger] ms[i].len() <= 0xffff
}

/// The decodable ones among the framed messages `ms`, numbered by position
/// from `seq`; each message is decoded from its own bytes and those after it.
pub open spec fn decoded_frames(ms: Seq<Seq<u8>>, packet_num: u64, seq: int) -> Seq<IexDeepMessage>
    decreases ms.len(),
{
    if ms.len() == 0 {
        seq![]
    } else {
        let rest = decoded_frames(ms.drop_first(), packet_num, seq + 1);
        match message_of(ms[0] + framed(ms.drop_first()), packet_num, seq as u64) {
            Some(m) => seq![m] + rest,
            None => rest,
        }
    }
}

/// Every framed message holds, with the bytes after it, what its decoding reads.
pub open spec fn frames_in_bounds(ms: Seq<Seq<u8>>) -> bool
    decreases ms.len(),
{
    ms.len() == 0 || (message_in_bounds(ms[0] + framed(ms.drop_first())) && frames_in_bounds(
        ms.drop_first(),
    ))
}

proof fn lemma_framed_walk(p: Seq<u8>, ms: Seq<Seq<u8>>, packet_num: u64, seq: int)
    requires
        frames_fit(ms),
    ensures
        body_messages_from(p + framed(ms), p.len() as int, packet_num, seq) == decoded_frames(
            ms,
            packet_num,
            seq,
        ),
        body_steps_from(p + framed(ms), p.len() as int) == ms.len(),
        body_in_bounds_from(p + framed(ms), p.len() as int) == frames_in_bounds(ms),
    decreases ms.len(),
{
    let b = p + framed(ms);
    let off = p.len() as int;
    if ms.len() == 0 {
        assert(b == p);
    } else {
        let m = ms[0];
        let rest = ms.drop_first();
        assert(framed(ms) == frame(m) + framed(rest));
        assert(1 <= m.len() <= 0xffff);
        let lo = (m.len() % 0x100) as u8;
        let hi = (m.len() / 0x100) as u8;
        assert(b[off] == lo);
        assert(b[off + 1] == hi);
        assert(lo + 0x100 * hi == m.len());
        assert(le_u16_at(b, off) == m.len());
        assert(b.subrange(off + 2, b.len() as int) =~= m + framed(rest));
        let p2 = p + frame(m);
        assert(b =~= p2 + framed(rest));
        assert(off + 2 + m.len() == p2.len());
        assert(frames_fit(rest)) by {
            assert forall|i: int| 0 <= i < rest.len() implies 1 <= #[trigger] rest[i].len() <= 0xffff by {
                assert(rest[i] == ms[i + 1]);
            }
        }
        lemma_framed_walk(p2, rest, packet_num, seq + 1);
    }
}

/// A block made of messages, each after its own length prefix, yields exactly
/// the decodable ones among those messages, in order, numbered by position
/// from `seq`: the walk goes from each message to the next by its length,
/// whatever the lengths are. Every message is walked, and the block decodes
/// within bounds exactly when every message does.
pub proof fn law_body_walks_message_by_message(ms: Seq<Seq<u8>>, packet_num: u64, seq: u64)
    requires
        frames_fit(ms),
    ensures
        body_messages(framed(ms), packet_num, seq) == decoded_frames(ms, packet_num, seq as int),
        body_steps_from(framed(ms), 0) == ms.len(),
        body_in_bounds_from(framed(ms), 0) == frames_in_bounds(ms),
        body_decodable(framed(ms), seq) <==> frames_in_bounds(ms) && seq + ms.len() <= u64::MAX,
{
    lemma_framed_walk(Seq::empty(), ms, packet_num, seq as int);
    assert(Seq::<u8>::empty() + framed(ms) == framed(ms));
}

/// Every message that a block yields is a price level update of the given
/// packet, and the messages come with strictly increasing sequence numbers, none
/// below the first number.
pub proof fn law_body_messages_are_numbered_updates(b: Seq<u8>, packet_num: u64, seq: u64)
    requires
        body_decodable(b, seq),
    ensures
        forall|i: int|
            0 <= i < body_messages(b, packet_num, seq).len() ==> {
                let m = #[trigger] body_messages(b, packet_num, seq)[i];
                &&& is_price_level_update_type(m.message_type)
                &&& m.packet_number == packet_num
                &&& seq <= m.message_sequence_number
            },
        forall|i: int, j: int|
            0 <= i < j < body_messages(b, packet_num, seq).len() ==> body_messages(
                b,
                packet_num,
                seq,
            )[i].message_sequence_number < body_messages(b, packet_num, seq)[j].message_sequence_number,
{
    lemma_body_numbering(b, 0, packet_num, seq as int);
}

proof fn lemma_body_numbering(b: Seq<u8>, offset: int, packet_num: u64, seq: int)
    requires
        0 <= seq,
        seq + body_steps_from(b, offset) <= u64::MAX,
    ensures
        ({
            let ms = body_messages_from(b, offset, packet_num, seq);
            &&& forall|i: int|
                0 <= i < ms.len() ==> {
                    &&& is_price_level_update_type((#[trigger] ms[i]).message_type)
                    &&& ms[i].packet_number == packet_num
                    &&& seq <= ms[i].message_sequence_number < seq + body_steps_from(b, offset)
                }
            &&& forall|i: int, j: int|
                0 <= i < j < ms.len() ==> #[trigger] ms[i].message_sequence_number
                    < #[trigger] ms[j].message_sequence_number
        }),
    decreases remaining_after(b, offset),
{
    if 0 <= offset && offset + 2 < b.len() {
        let len = le_u16_at(b, offset);
        if len != 0 {
            lemma_body_numbering(b, offset + 2 + len, packet_num, seq + 1);
            let rest = body_messages_from(b, offset + 2 + len, packet_num, seq + 1);
            let ms = body_messages_from(b, offset, packet_num, seq);
            match message_of(b.subrange(offset + 2, b.len() as int), packet_num, seq as u64) {
                Some(m) => {
                    assert(ms == seq![m] + rest);
                    assert(m.message_sequence_number == seq);
                    assert(is_price_level_update_type(m.message_type));
                    assert forall|i: int| 0 < i < ms.len() implies ms[i] == rest[i - 1] by {}
                    assert forall|i: int, j: int|
                        0 <= i < j < ms.len() implies #[trigger] ms[i].message_sequence_number
                        < #[trigger] ms[j].message_sequence_number by {
                        if i > 0 {
                            assert(ms[i] == rest[i - 1]);
                        }
                        assert(ms[j] == rest[j - 1]);
                    }
                },
                None => {
                    assert(ms == rest);
                },
            }
        }
    }
}

} // verus!
