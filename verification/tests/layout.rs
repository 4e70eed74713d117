use shm_logger::logger::types::{
    BalanceLogs, Category, HoldingsLogs, Logs, OrderBookSnapShot, OrderLogs, PriceLevel,
    TradeLogs, BOOK_DEPTH,
};
use shm_logger::shm::layout::{
    decode_balance, decode_holding, decode_order, decode_record, decode_snapshot, decode_trade,
    encode_balance, encode_holding, encode_order, encode_snapshot, encode_trade, parse_header,
    record_size, segment_size, slot_offset, write_header, BALANCE_RECORD_SIZE,
    HOLDING_RECORD_SIZE, ORDER_RECORD_SIZE, SNAPSHOT_RECORD_SIZE, TRADE_RECORD_SIZE,
};
use shm_logger::shm::ring::{RingBufferHeader, HEADER_SIZE};

fn order() -> OrderLogs {
    OrderLogs {
        event_id: 0x0102030405060708,
        order_id: 2,
        user_id: 3,
        price: 100,
        timestamp: 1_700_000_000_000_000_000,
        symbol: 7,
        shares_qty: 10,
        side: 1,
        order_event_type: 2,
        severity: 0,
    }
}

fn snapshot() -> OrderBookSnapShot {
    let mut bids = [PriceLevel { price: 0, quantity: 0 }; 20];
    let mut asks = [PriceLevel { price: 0, quantity: 0 }; 20];
    for i in 0..20 {
        bids[i] = PriceLevel { price: 1000 - i as u64, quantity: 1 + i as u64 };
        asks[i] = PriceLevel { price: 1001 + i as u64, quantity: 50 + i as u64 };
    }
    OrderBookSnapShot { event_id: 9, timestamp: 55, symbol: 3, bids, asks }
}

#[test]
fn header_is_three_little_endian_words() {
    let header = RingBufferHeader { capacity: 8, record_size: 56, write_sequence: 0x0102 };
    let bytes = write_header(&header);
    assert_eq!(
        bytes,
        vec![8, 0, 0, 0, 0, 0, 0, 0, 56, 0, 0, 0, 0, 0, 0, 0, 2, 1, 0, 0, 0, 0, 0, 0]
    );
    assert_eq!(bytes.len() as u64, HEADER_SIZE);
    assert_eq!(parse_header(&bytes), Some(header));
}

#[test]
fn header_is_read_from_the_start_of_a_longer_segment() {
    let header = RingBufferHeader { capacity: 4, record_size: 48, write_sequence: u64::MAX };
    let mut bytes = write_header(&header);
    bytes.extend_from_slice(&[0xaa; 100]);
    assert_eq!(parse_header(&bytes), Some(header));
}

#[test]
fn short_header_is_refused() {
    assert_eq!(parse_header(&[0u8; 23]), None);
    assert_eq!(parse_header(&[]), None);
}

#[test]
fn slot_offsets() {
    assert_eq!(slot_offset(56, 0), Some(24));
    assert_eq!(slot_offset(56, 1), Some(80));
    assert_eq!(slot_offset(664, 7), Some(24 + 7 * 664));
    assert_eq!(slot_offset(u64::MAX, 2), None);
    assert_eq!(slot_offset(1, u64::MAX - 23), None);
    assert_eq!(slot_offset(1, u64::MAX - 24), Some(u64::MAX));
    assert_eq!(segment_size(32768, 56), Some(24 + 32768 * 56));
    assert_eq!(segment_size(u64::MAX, 56), None);
}

#[test]
fn record_sizes() {
    assert_eq!(ORDER_RECORD_SIZE, 56);
    assert_eq!(BALANCE_RECORD_SIZE, 56);
    assert_eq!(HOLDING_RECORD_SIZE, 56);
    assert_eq!(TRADE_RECORD_SIZE, 48);
    assert_eq!(SNAPSHOT_RECORD_SIZE, 664);
    assert_eq!(SNAPSHOT_RECORD_SIZE, 24 + 2 * 16 * BOOK_DEPTH as u64);
    assert_eq!(record_size(Category::Order), 56);
    assert_eq!(record_size(Category::Balance), 56);
    assert_eq!(record_size(Category::Holding), 56);
    assert_eq!(record_size(Category::Trade), 48);
    assert_eq!(record_size(Category::Snapshot), 664);
}

#[test]
fn a_slot_is_read_as_the_record_of_its_ring() {
    let bytes = encode_order(&order());
    assert_eq!(decode_record(Category::Order, &bytes), Some(Logs::OrderLogs(order())));
    assert_eq!(decode_record(Category::Trade, &bytes), None);
    assert_eq!(decode_record(Category::Snapshot, &bytes), None);
    let balance = decode_balance(&bytes).unwrap();
    assert_eq!(decode_record(Category::Balance, &bytes), Some(Logs::BalanceLogs(balance)));
    let holding = decode_holding(&bytes).unwrap();
    assert_eq!(decode_record(Category::Holding, &bytes), Some(Logs::HoldingsLogs(holding)));
    let snapshot_bytes = encode_snapshot(&snapshot());
    assert_eq!(
        decode_record(Category::Snapshot, &snapshot_bytes),
        Some(Logs::OrderBookSnapShot(snapshot()))
    );
    let trade_bytes = vec![0u8; 48];
    assert_eq!(
        decode_record(Category::Trade, &trade_bytes),
        decode_trade(&trade_bytes).map(Logs::TradeLogs)
    );
}

#[test]
fn order_slot_bytes() {
    let bytes = encode_order(&order());
    let mut expected = vec![8u8, 7, 6, 5, 4, 3, 2, 1];
    expected.extend_from_slice(&2u64.to_le_bytes());
    expected.extend_from_slice(&3u64.to_le_bytes());
    expected.extend_from_slice(&100u64.to_le_bytes());
    expected.extend_from_slice(&1_700_000_000_000_000_000i64.to_le_bytes());
    expected.extend_from_slice(&7u32.to_le_bytes());
    expected.extend_from_slice(&10u32.to_le_bytes());
    expected.extend_from_slice(&[1, 2, 0, 0, 0, 0, 0, 0]);
    assert_eq!(bytes, expected);
    assert_eq!(decode_order(&bytes), Some(order()));
}

#[test]
fn order_of_the_wrong_size_is_refused() {
    assert_eq!(decode_order(&[0u8; 55]), None);
    assert_eq!(decode_order(&[0u8; 57]), None);
}

#[test]
fn order_with_every_bit_set_round_trips() {
    let log = OrderLogs {
        event_id: u64::MAX,
        order_id: u64::MAX,
        user_id: u64::MAX,
        price: u64::MAX,
        timestamp: i64::MIN,
        symbol: u32::MAX,
        shares_qty: u32::MAX,
        side: 255,
        order_event_type: 255,
        severity: 255,
    };
    assert_eq!(decode_order(&encode_order(&log)), Some(log));
}

#[test]
fn balance_round_trips() {
    let log = BalanceLogs {
        event_id: 11,
        user_id: 12,
        order_id: 13,
        delta_available: -500,
        delta_reserved: 500,
        timestamp: 1,
        reason: 0,
        severity: 2,
    };
    let bytes = encode_balance(&log);
    assert_eq!(bytes.len(), 56);
    assert_eq!(&bytes[24..32], &(-500i64).to_le_bytes());
    assert_eq!(&bytes[32..40], &500i64.to_le_bytes());
    assert_eq!(&bytes[48..56], &[0, 2, 0, 0, 0, 0, 0, 0]);
    assert_eq!(decode_balance(&bytes), Some(log));
    assert_eq!(decode_balance(&bytes[..48]), None);
}

#[test]
fn holding_round_trips() {
    let log = HoldingsLogs {
        event_id: 21,
        user_id: 22,
        order_id: 23,
        delta_available: i64::MAX,
        delta_reserved: i64::MIN,
        timestamp: 99,
        symbol: 0xdeadbeef,
        reason: 1,
        severity: 1,
    };
    let bytes = encode_holding(&log);
    assert_eq!(bytes.len(), 56);
    assert_eq!(&bytes[48..52], &0xdeadbeefu32.to_le_bytes());
    assert_eq!(&bytes[52..56], &[1, 1, 0, 0]);
    assert_eq!(decode_holding(&bytes), Some(log));
    assert_eq!(decode_holding(&[0u8; 48]), None);
}

#[test]
fn trade_round_trips() {
    let log = TradeLogs {
        buyer_order_id: 31,
        seller_order_id: 32,
        price: 33,
        quantity: 34,
        timestamp: 35,
        symbol: 36,
        is_buyer_maker: true,
    };
    let bytes = encode_trade(&log);
    assert_eq!(bytes.len(), 48);
    assert_eq!(&bytes[40..48], &[36, 0, 0, 0, 1, 0, 0, 0]);
    assert_eq!(decode_trade(&bytes), Some(log));
    let taker = TradeLogs { is_buyer_maker: false, ..log };
    assert_eq!(decode_trade(&encode_trade(&taker)), Some(taker));
    assert_eq!(decode_trade(&[0u8; 56]), None);
}

#[test]
fn any_non_zero_flag_byte_reads_as_true() {
    let mut bytes = vec![0u8; 48];
    bytes[44] = 0x80;
    assert_eq!(decode_trade(&bytes).map(|t| t.is_buyer_maker), Some(true));
}

#[test]
fn snapshot_round_trips() {
    let log = snapshot();
    let bytes = encode_snapshot(&log);
    assert_eq!(bytes.len(), 664);
    assert_eq!(&bytes[0..8], &9u64.to_le_bytes());
    assert_eq!(&bytes[8..16], &55i64.to_le_bytes());
    assert_eq!(&bytes[16..24], &[3, 0, 0, 0, 0, 0, 0, 0]);
    assert_eq!(&bytes[24..32], &1000u64.to_le_bytes());
    assert_eq!(&bytes[32..40], &1u64.to_le_bytes());
    assert_eq!(&bytes[344..352], &1001u64.to_le_bytes());
    assert_eq!(&bytes[656..664], &69u64.to_le_bytes());
    assert_eq!(decode_snapshot(&bytes), Some(log));
    assert_eq!(decode_snapshot(&bytes[..663]), None);
}
