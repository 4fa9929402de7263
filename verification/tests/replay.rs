use iex_book::fs::TradeDate;
use iex_book::order_book::side::Side;
use iex_book::replay::{booking_time, BookReplay, BookingTimeError, ReplayError, ReplayStep};

fn price_level_update(message_type: u8, timestamp: u64, symbol: &str, size: u32, price: u64) -> Vec<u8> {
    let mut m = vec![message_type, 1];
    m.extend_from_slice(&timestamp.to_le_bytes());
    let mut sym = [b' '; 8];
    sym[..symbol.len()].copy_from_slice(symbol.as_bytes());
    m.extend_from_slice(&sym);
    m.extend_from_slice(&size.to_le_bytes());
    m.extend_from_slice(&price.to_le_bytes());
    m
}

fn payload(version: u8, protocol: u16, first_seq: u64, messages: &[Vec<u8>]) -> Vec<u8> {
    let mut p = vec![version, 0];
    p.extend_from_slice(&protocol.to_le_bytes());
    p.extend_from_slice(&[0u8; 20]);
    p.extend_from_slice(&first_seq.to_le_bytes());
    p.extend_from_slice(&0u64.to_le_bytes());
    for m in messages {
        p.extend_from_slice(&(m.len() as u16).to_le_bytes());
        p.extend_from_slice(m);
    }
    p
}

fn udp_frame(payload: &[u8]) -> Vec<u8> {
    let mut f = vec![0x01, 0x00, 0x5e, 0x57, 0x15, 0x04, 0x00, 0x1c, 0x73, 0x00, 0x00, 0x99, 0x08, 0x00];
    let total = (20 + 8 + payload.len()) as u16;
    f.extend_from_slice(&[0x45, 0x00]);
    f.extend_from_slice(&total.to_be_bytes());
    f.extend_from_slice(&[0x00, 0x00, 0x40, 0x00, 0x40, 17, 0x00, 0x00]);
    f.extend_from_slice(&[10, 0, 0, 1, 233, 215, 21, 4]);
    f.extend_from_slice(&10378u16.to_be_bytes());
    f.extend_from_slice(&10378u16.to_be_bytes());
    f.extend_from_slice(&((8 + payload.len()) as u16).to_be_bytes());
    f.extend_from_slice(&[0x00, 0x00]);
    f.extend_from_slice(payload);
    f
}

#[test]
fn booking_time_of_readme_example() {
    let date = TradeDate { year: 2021, month: 7, day: 12 };
    assert_eq!(booking_time(&date, "9:31:7.398847"), Ok(1_626_096_667_398_847_000));
}

#[test]
fn booking_time_rejects_bad_time() {
    let date = TradeDate { year: 2021, month: 7, day: 12 };
    assert_eq!(booking_time(&date, "not a time"), Err(BookingTimeError::InvalidTime));
}

#[test]
fn replay_applies_updates_for_symbol() {
    let mut replay = BookReplay::new("NET".to_string(), 1_000);
    let p = payload(1, 0x8004, 5, &[
        price_level_update(b'8', 10, "NET", 300, 1_112_000),
        price_level_update(b'5', 11, "NET", 100, 1_168_700),
        price_level_update(b'8', 12, "AAPL", 50, 9_999_999),
    ]);
    assert_eq!(replay.replay_payload(&p).unwrap(), ReplayStep::Continue);
    assert_eq!(replay.order_book.max_buy(), Some(1_112_000));
    assert_eq!(replay.order_book.min_sell(), Some(1_168_700));
    assert_eq!(replay.order_book.spread(), Some(56_700));
    assert_eq!(replay.order_book.buys.len(), 1);
    assert_eq!(replay.last_tick_time, 12);
    assert_eq!(replay.packet_counter, 1);
}

#[test]
fn replay_stops_at_booking_time() {
    let mut replay = BookReplay::new("NET".to_string(), 20);
    let p = payload(1, 0x8004, 0, &[price_level_update(b'8', 20, "NET", 1, 1)]);
    assert_eq!(replay.replay_payload(&p).unwrap(), ReplayStep::TimeReached);
    let q = payload(1, 0x8004, 1, &[price_level_update(b'8', 19, "NET", 1, 2)]);
    assert_eq!(replay.replay_payload(&q).unwrap(), ReplayStep::Continue);
    assert_eq!(replay.packet_counter, 2);
}

#[test]
fn replay_of_empty_block_keeps_last_tick() {
    let mut replay = BookReplay::new("NET".to_string(), 0);
    let p = payload(1, 0x8004, 0, &[]);
    assert_eq!(replay.replay_payload(&p).unwrap(), ReplayStep::TimeReached);
    assert_eq!(replay.last_tick_time, 0);
    assert_eq!(replay.packet_counter, 1);
}

#[test]
fn replay_refuses_bad_headers() {
    let mut replay = BookReplay::new("NET".to_string(), 1_000);
    let p = payload(2, 0x8004, 0, &[]);
    assert!(matches!(replay.replay_payload(&p), Err(ReplayError::UnexpectedVersion(2))));
    let p = payload(1, 0x8003, 0, &[]);
    assert!(matches!(replay.replay_payload(&p), Err(ReplayError::UnexpectedProtocol(0x8003))));
    assert!(matches!(replay.replay_payload(&[1, 0, 4]), Err(ReplayError::HeaderTooShort)));
    let mut p = payload(1, 0x8004, 0, &[price_level_update(b'8', 1, "NET", 1, 1)]);
    p.truncate(p.len() - 4);
    assert!(matches!(replay.replay_payload(&p), Err(ReplayError::TruncatedMessage)));
    assert_eq!(replay.packet_counter, 0);
    assert!(replay.order_book.buys.is_empty());
}

#[test]
fn replay_packet_reads_udp_frame() {
    let mut replay = BookReplay::new("NET".to_string(), 1_000);
    let p = payload(1, 0x8004, 0, &[price_level_update(b'5', 3, "NET", 100, 1_168_700)]);
    let frame = udp_frame(&p);
    assert_eq!(replay.replay_packet(&frame).unwrap(), ReplayStep::Continue);
    assert_eq!(replay.order_book.min_sell(), Some(1_168_700));
    assert_eq!(replay.order_book.sells.get(&1_168_700), Some(&100));
}

#[test]
fn replay_packet_refuses_short_frame() {
    let mut replay = BookReplay::new("NET".to_string(), 1_000);
    assert!(matches!(replay.replay_packet(&[0, 1, 2]), Err(ReplayError::Ethernet(_))));
    assert_eq!(replay.packet_counter, 0);
}

#[test]
fn replay_zero_size_removes_level() {
    let mut replay = BookReplay::new("NET".to_string(), 1_000);
    let p = payload(1, 0x8004, 0, &[
        price_level_update(b'8', 1, "NET", 300, 1_112_000),
        price_level_update(b'8', 2, "NET", 0, 1_112_000),
    ]);
    replay.replay_payload(&p).unwrap();
    assert!(replay.order_book.buys.is_empty());
    replay.order_book.add_limit(Side::Sell, 1, 1);
    assert_eq!(replay.order_book.min_sell(), Some(1));
}
