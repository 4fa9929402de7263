//! The IEX-TP transport header that starts every packet payload.
use crate::bytes::{le_u16_at, le_u32_at, le_u64_at, read_u16_le, read_u32_le, read_u64_le};
use crate::iex::dt::UtcNs;
use vstd::prelude::*;

verus! {

/// The IEX-TP header: the first 40 bytes of a packet payload.
#[derive(Debug, Clone, PartialEq)]
pub struct IexTpHeader {
    pub version: u8,
    pub reserved: u8,
    pub message_protocol_id: u16,
    pub channel_id: u32,
    pub session_id: u32,
    pub payload_length: u16,
    pub message_count: u16,
    pub stream_offset: u64,
    pub first_message_sequence_number: u64,
    pub send_time: UtcNs,
}

/// The length of an IEX-TP header in bytes.
pub const IEX_TP_HEADER_LEN: usize = 40;

/// The header that the first 40 bytes of `b` encode, all fields little-endian.
pub open spec fn header_of(b: Seq<u8>) -> IexTpHeader {
    IexTpHeader {
        version: b[0],
        reserved: b[1],
        message_protocol_id: le_u16_at(b, 2),
        channel_id: le_u32_at(b, 4),
        session_id: le_u32_at(b, 8),
        payload_length: le_u16_at(b, 12),
        message_count: le_u16_at(b, 14),
        stream_offset: le_u64_at(b, 16),
        first_message_sequence_number: le_u64_at(b, 24),
        send_time: le_u64_at(b, 32),
    }
}

/// Decodes the header at the start of `bytes`; `None` when fewer than 40 bytes are given.
pub fn parse_header(bytes: &[u8]) -> (r: Option<IexTpHeader>)
    ensures
        r is None <==> bytes@.len() < IEX_TP_HEADER_LEN,
        r matches Some(h) ==> h == header_of(bytes@),
{
    let iex_header_length = IEX_TP_HEADER_LEN;
    if bytes.len() < iex_header_length {
        return None;
    }
    Some(
        IexTpHeader {
            version: bytes[0],
            reserved: bytes[1],
            message_protocol_id: read_u16_le(bytes, 2),
            channel_id: read_u32_le(bytes, 4),
            session_id: read_u32_le(bytes, 8),
            payload_length: read_u16_le(bytes, 12),
            message_count: read_u16_le(bytes, 14),
            stream_offset: read_u64_le(bytes, 16),
            first_message_sequence_number: read_u64_le(bytes, 24),
            send_time: read_u64_le(bytes, 32),
        },
    )
}

/// Each header field is the little-endian integer of all of its bytes: the
/// byte at offset `off + k` weighs `2^(8k)`.
pub proof fn law_header_fields_are_little_endian(b: Seq<u8>)
    requires
        b.len() >= IEX_TP_HEADER_LEN,
    ensures
        ({
            let h = header_of(b);
            &&& h.version == b[0]
            &&& h.reserved == b[1]
            &&& h.message_protocol_id == b[2] + 0x100 * b[3]
            &&& h.channel_id == b[4] + 0x100 * b[5] + 0x1_0000 * b[6] + 0x100_0000 * b[7]
            &&& h.session_id == b[8] + 0x100 * b[9] + 0x1_0000 * b[10] + 0x100_0000 * b[11]
            &&& h.payload_length == b[12] + 0x100 * b[13]
            &&& h.message_count == b[14] + 0x100 * b[15]
            &&& h.stream_offset == b[16] + 0x100 * b[17] + 0x1_0000 * b[18] + 0x100_0000 * b[19]
                + 0x1_0000_0000 * b[20] + 0x100_0000_0000 * b[21] + 0x1_0000_0000_0000 * b[22]
                + 0x100_0000_0000_0000 * b[23]
            &&& h.first_message_sequence_number == b[24] + 0x100 * b[25] + 0x1_0000 * b[26]
                + 0x100_0000 * b[27] + 0x1_0000_0000 * b[28] + 0x100_0000_0000 * b[29]
                + 0x1_0000_0000_0000 * b[30] + 0x100_0000_0000_0000 * b[31]
            &&& h.send_time == b[32] + 0x100 * b[33] + 0x1_0000 * b[34] + 0x100_0000 * b[35]
                + 0x1_0000_0000 * b[36] + 0x100_0000_0000 * b[37] + 0x1_0000_0000_0000 * b[38]
                + 0x100_0000_0000_0000 * b[39]
        }),
{
}

/// The header depends on the first 40 bytes alone: bytes after them never change it.
pub proof fn law_header_reads_only_its_prefix(b1: Seq<u8>, b2: Seq<u8>)
    requires
        b1.len() >= IEX_TP_HEADER_LEN,
        b2.len() >= IEX_TP_HEADER_LEN,
        b1.take(IEX_TP_HEADER_LEN as int) == b2.take(IEX_TP_HEADER_LEN as int),
    ensures
        header_of(b1) == header_of(b2),
{
    assert forall|i: int| 0 <= i < IEX_TP_HEADER_LEN implies b1[i] == b2[i] by {
        assert(b1[i] == b1.take(IEX_TP_HEADER_LEN as int)[i]);
        assert(b2[i] == b2.take(IEX_TP_HEADER_LEN as int)[i]);
    }
}

} // verus!
