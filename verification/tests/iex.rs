use iex_book::iex::body::{body_is_decodable, parse_body};
use iex_book::iex::header::parse_header;
use iex_book::iex::message::{
    message_fits, parse_message, IexDeepMessageImpl, PriceLevelUpdateEventFlags,
    PriceLevelUpdateMessage,
};

fn price_level_update(message_type: u8, flags: u8, timestamp: u64, symbol: &str, size: u32, price: u64) -> Vec<u8> {
    let mut m = vec![message_type, flags];
    m.extend_from_slice(&timestamp.to_le_bytes());
    let mut sym = [b' '; 8];
    sym[..symbol.len()].copy_from_slice(symbol.as_bytes());
    m.extend_from_slice(&sym);
    m.extend_from_slice(&size.to_le_bytes());
    m.extend_from_slice(&price.to_le_bytes());
    m
}

fn block(messages: &[Vec<u8>]) -> Vec<u8> {
    let mut b = Vec::new();
    for m in messages {
        b.extend_from_slice(&(m.len() as u16).to_le_bytes());
        b.extend_from_slice(m);
    }
    b
}

fn header_bytes() -> Vec<u8> {
    let mut h = vec![1u8, 0];
    h.extend_from_slice(&0x8004u16.to_le_bytes());
    h.extend_from_slice(&1u32.to_le_bytes());
    h.extend_from_slice(&0x0102_0304u32.to_le_bytes());
    h.extend_from_slice(&60u16.to_le_bytes());
    h.extend_from_slice(&2u16.to_le_bytes());
    h.extend_from_slice(&0x1122_3344_5566_7788u64.to_le_bytes());
    h.extend_from_slice(&42u64.to_le_bytes());
    h.extend_from_slice(&1_626_096_667_398_847_000u64.to_le_bytes());
    h
}

#[test]
fn parse_header_reads_little_endian_fields() {
    let mut bytes = header_bytes();
    bytes.extend_from_slice(&[9, 9, 9]);
    let header = parse_header(&bytes).unwrap();
    assert!(header.version == 0x1);
    assert!(header.message_protocol_id == 0x8004);
    assert_eq!(header.reserved, 0);
    assert_eq!(header.channel_id, 1);
    assert_eq!(header.session_id, 0x0102_0304);
    assert_eq!(header.payload_length, 60);
    assert_eq!(header.message_count, 2);
    assert_eq!(header.stream_offset, 0x1122_3344_5566_7788);
    assert_eq!(header.first_message_sequence_number, 42);
    assert_eq!(header.send_time, 1_626_096_667_398_847_000);
}

#[test]
fn parse_header_ignores_bytes_after_header() {
    let bytes = header_bytes();
    let mut longer = bytes.clone();
    longer.extend_from_slice(&[0xff; 16]);
    assert_eq!(parse_header(&bytes), parse_header(&longer));
}

#[test]
fn parse_header_needs_forty_bytes() {
    let bytes = header_bytes();
    assert!(parse_header(&bytes[..39]).is_none());
    assert!(parse_header(&bytes[..40]).is_some());
    assert!(parse_header(&[]).is_none());
}

#[test]
fn event_flags_from_byte() {
    assert_eq!(PriceLevelUpdateEventFlags::from_u8(0), Some(PriceLevelUpdateEventFlags::OrderBookIsProcessingAnEvent));
    assert_eq!(PriceLevelUpdateEventFlags::from_u8(1), Some(PriceLevelUpdateEventFlags::EventProcessingComplete));
    assert_eq!(PriceLevelUpdateEventFlags::from_u8(2), None);
    assert_eq!(PriceLevelUpdateEventFlags::from_u8(0xff), None);
}

#[test]
fn parse_message_decodes_buy_update() {
    let m = price_level_update(b'8', 1, 0x0102_0304_0506_0708, "NET", 300, 1_112_000);
    let response = parse_message(&m, 7, 99).unwrap();
    let message = response.parsed_message;
    assert_eq!(message.message_type, b'8');
    assert_eq!(message.message_subtype, 1);
    assert_eq!(message.timestamp, 0x0102_0304_0506_0708);
    assert_eq!(message.packet_number, 7);
    assert_eq!(message.message_sequence_number, 99);
    let IexDeepMessageImpl::PriceLevelUpdate(update) = message.body.clone();
    assert_eq!(update.symbol, ['N', 'E', 'T', ' ', ' ', ' ', ' ', ' ']);
    assert_eq!(update.size, 300);
    assert_eq!(update.price, 1_112_000);
    assert_eq!(update.event_flags, PriceLevelUpdateEventFlags::EventProcessingComplete);
    assert_eq!(response.consumed_bytes, std::mem::size_of::<PriceLevelUpdateMessage>());
    assert_eq!(message.symbol().unwrap(), "NET");
}

#[test]
fn parse_message_decodes_sell_update() {
    let m = price_level_update(b'5', 0, 5, "ZVZZT", 100, 1_168_700);
    let message = parse_message(&m, 0, 0).unwrap().parsed_message;
    assert_eq!(message.message_type, b'5');
    assert_eq!(message.symbol().unwrap(), "ZVZZT");
    let IexDeepMessageImpl::PriceLevelUpdate(update) = message.body;
    assert_eq!(update.event_flags, PriceLevelUpdateEventFlags::OrderBookIsProcessingAnEvent);
}

#[test]
fn parse_message_skips_other_types() {
    let mut m = price_level_update(b'8', 1, 5, "NET", 1, 1);
    m[0] = b'T';
    assert!(parse_message(&m, 0, 0).is_none());
    assert!(parse_message(&m[..10], 0, 0).is_none());
}

#[test]
fn parse_message_skips_unknown_event_flags() {
    let m = price_level_update(b'8', 2, 5, "NET", 1, 1);
    assert!(parse_message(&m[..10], 0, 0).is_none());
    assert!(parse_message(&m, 0, 0).is_none());
}

#[test]
fn message_fits_checks_read_extent() {
    let m = price_level_update(b'8', 1, 5, "NET", 1, 1);
    assert!(message_fits(&m));
    assert!(!message_fits(&m[..29]));
    assert!(!message_fits(&m[..9]));
    let mut other = m.clone();
    other[0] = b'T';
    assert!(message_fits(&other[..10]));
}

#[test]
fn symbol_drops_all_spaces() {
    let m = price_level_update(b'8', 1, 5, "A B", 1, 1);
    let message = parse_message(&m, 0, 0).unwrap().parsed_message;
    assert_eq!(message.symbol().unwrap(), "AB");
}

#[test]
fn parse_body_numbers_every_walked_message() {
    let b = block(&[
        price_level_update(b'8', 1, 10, "NET", 300, 1_112_000),
        vec![b'T'; 30],
        price_level_update(b'5', 1, 11, "NET", 100, 1_168_700),
    ]);
    assert!(body_is_decodable(&b, 42));
    let messages = parse_body(&b, 3, 42);
    assert_eq!(messages.len(), 2);
    assert_eq!(messages[0].message_sequence_number, 42);
    assert_eq!(messages[1].message_sequence_number, 44);
    assert_eq!(messages[0].packet_number, 3);
    assert_eq!(messages[1].packet_number, 3);
    assert_eq!(messages[0].symbol().unwrap(), "NET");
    assert_eq!(messages[1].timestamp, 11);
}

#[test]
fn parse_body_stops_at_zero_length() {
    let mut b = block(&[price_level_update(b'8', 1, 10, "NET", 300, 1_112_000)]);
    b.extend_from_slice(&[0, 0]);
    b.extend_from_slice(&block(&[price_level_update(b'8', 1, 12, "NET", 1, 1)]));
    let messages = parse_body(&b, 0, 0);
    assert_eq!(messages.len(), 1);
    assert_eq!(messages[0].timestamp, 10);
}

#[test]
fn parse_body_of_short_block_is_empty() {
    assert!(parse_body(&[], 0, 0).is_empty());
    assert!(parse_body(&[30, 0], 0, 0).is_empty());
}

#[test]
fn body_is_decodable_detects_truncation() {
    let b = block(&[price_level_update(b'8', 1, 10, "NET", 300, 1_112_000)]);
    assert!(body_is_decodable(&b, 0));
    assert!(!body_is_decodable(&b[..25], 0));
    assert!(!body_is_decodable(&b, u64::MAX));
    assert!(body_is_decodable(&b, u64::MAX - 1));
}
