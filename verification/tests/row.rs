use shm_logger::logger::row::{
    balance_reason_name, balance_row, decimal_string, holding_reason_name, holding_row,
    order_event_name, order_row, render_levels, row_of, severity_name, side_name, snapshot_row,
    trade_row, Field, FieldValue, Row, Tag,
};
use shm_logger::logger::types::{
    to_signed, to_unsigned, BalanceLogs, Category, HoldingsLogs, Logs, OrderBookSnapShot,
    OrderLogs, PriceLevel, TradeLogs,
};

fn tag(name: &str, value: &str) -> Tag {
    Tag { name: name.to_string(), value: value.to_string() }
}

fn integer(name: &str, value: i64) -> Field {
    Field { name: name.to_string(), value: FieldValue::Integer(value) }
}

fn order() -> OrderLogs {
    OrderLogs {
        event_id: 1,
        order_id: 2,
        user_id: 3,
        price: 100,
        timestamp: 1_700_000_000_000_000_000,
        symbol: 7,
        shares_qty: 10,
        side: 0,
        order_event_type: 1,
        severity: 0,
    }
}

fn levels(count: usize) -> [PriceLevel; 20] {
    let mut out = [PriceLevel { price: 0, quantity: 0 }; 20];
    for i in 0..count {
        out[i] = PriceLevel { price: 100 + i as u64, quantity: 5 * (i as u64 + 1) };
    }
    out
}

#[test]
fn decimal_notation() {
    assert_eq!(decimal_string(0), "0");
    assert_eq!(decimal_string(7), "7");
    assert_eq!(decimal_string(10), "10");
    assert_eq!(decimal_string(1234567890), "1234567890");
    assert_eq!(decimal_string(u64::MAX), "18446744073709551615");
}

#[test]
fn unsigned_fields_keep_their_bits() {
    assert_eq!(to_signed(0), 0);
    assert_eq!(to_signed(i64::MAX as u64), i64::MAX);
    assert_eq!(to_signed(1u64 << 63), i64::MIN);
    assert_eq!(to_signed(u64::MAX), -1);
}

#[test]
fn signed_bits_read_as_unsigned() {
    assert_eq!(to_unsigned(0), 0);
    assert_eq!(to_unsigned(-1), u64::MAX);
    assert_eq!(to_unsigned(i64::MIN), 1u64 << 63);
    assert_eq!(to_unsigned(i64::MAX), (1u64 << 63) - 1);
    for x in [0i64, 1, -1, 42, -42, i64::MIN, i64::MAX] {
        assert_eq!(to_signed(to_unsigned(x)), x);
    }
}

#[test]
fn vocabulary() {
    assert_eq!(side_name(0), "bid");
    assert_eq!(side_name(1), "ask");
    assert_eq!(side_name(2), "unknown");
    assert_eq!(order_event_name(0), "received");
    assert_eq!(order_event_name(1), "matched");
    assert_eq!(order_event_name(2), "canceled");
    assert_eq!(order_event_name(3), "unknown");
    assert_eq!(severity_name(0), "info");
    assert_eq!(severity_name(1), "error");
    assert_eq!(severity_name(2), "debug");
    assert_eq!(severity_name(255), "unknown");
    assert_eq!(balance_reason_name(0), "lock");
    assert_eq!(balance_reason_name(1), "update");
    assert_eq!(balance_reason_name(9), "unknown");
    assert_eq!(holding_reason_name(0), "lock");
    assert_eq!(holding_reason_name(1), "fill");
    assert_eq!(holding_reason_name(9), "unknown");
}

#[test]
fn order_event_row() {
    let row = order_row(&order());
    let expected = Row {
        table: "order_logs".to_string(),
        tags: vec![
            tag("instrument", "7"),
            tag("side", "bid"),
            tag("event_type", "matched"),
            tag("severity", "info"),
        ],
        fields: vec![
            integer("event_id", 1),
            integer("order_id", 2),
            integer("user_id", 3),
            integer("price", 100),
            integer("shares_qty", 10),
        ],
        timestamp: 1_700_000_000_000_000_000,
    };
    assert_eq!(row, expected);
}

#[test]
fn unmapped_codes_render_as_unknown() {
    let log = OrderLogs { side: 9, order_event_type: 9, severity: 9, ..order() };
    let row = order_row(&log);
    assert_eq!(row.tags[1], tag("side", "unknown"));
    assert_eq!(row.tags[2], tag("event_type", "unknown"));
    assert_eq!(row.tags[3], tag("severity", "unknown"));
}

#[test]
fn balance_change_row() {
    let log = BalanceLogs {
        event_id: 5,
        user_id: 6,
        order_id: u64::MAX,
        delta_available: -250,
        delta_reserved: 250,
        timestamp: 42,
        reason: 1,
        severity: 1,
    };
    let expected = Row {
        table: "balance_logs".to_string(),
        tags: vec![tag("reason", "update"), tag("severity", "error")],
        fields: vec![
            integer("event_id", 5),
            integer("user_id", 6),
            integer("order_id", -1),
            integer("delta_reserved_balance", 250),
            integer("delta_available_balance", -250),
        ],
        timestamp: 42,
    };
    assert_eq!(balance_row(&log), expected);
}

#[test]
fn holding_change_row() {
    let log = HoldingsLogs {
        event_id: 5,
        user_id: 6,
        order_id: 7,
        delta_available: 30,
        delta_reserved: -30,
        timestamp: 43,
        symbol: 4294967295,
        reason: 1,
        severity: 2,
    };
    let expected = Row {
        table: "holding_logs".to_string(),
        tags: vec![
            tag("instrument", "4294967295"),
            tag("reason", "fill"),
            tag("severity", "debug"),
        ],
        fields: vec![
            integer("event_id", 5),
            integer("user_id", 6),
            integer("order_id", 7),
            integer("delta_reserved_holding", -30),
            integer("delta_available_holding", 30),
        ],
        timestamp: 43,
    };
    assert_eq!(holding_row(&log), expected);
}

#[test]
fn trade_row_has_a_boolean_field() {
    let log = TradeLogs {
        buyer_order_id: 1,
        seller_order_id: 2,
        price: 3,
        quantity: 4,
        timestamp: 5,
        symbol: 6,
        is_buyer_maker: true,
    };
    let expected = Row {
        table: "trade_logs".to_string(),
        tags: vec![tag("instrument", "6")],
        fields: vec![
            integer("buyer_order_id", 1),
            integer("seller_order_id", 2),
            integer("price", 3),
            integer("quantity", 4),
            Field { name: "is_buyer_maker".to_string(), value: FieldValue::Boolean(true) },
        ],
        timestamp: 5,
    };
    assert_eq!(trade_row(&log), expected);
}

#[test]
fn book_side_as_text() {
    let mut two = [PriceLevel { price: 0, quantity: 0 }; 20];
    two[0] = PriceLevel { price: 101, quantity: 5 };
    two[1] = PriceLevel { price: 100, quantity: 12 };
    assert_eq!(
        render_levels(&two),
        "101:5,100:12,0:0,0:0,0:0,0:0,0:0,0:0,0:0,0:0,0:0,0:0,0:0,0:0,0:0,0:0,0:0,0:0,0:0,0:0"
    );
}

#[test]
fn snapshot_row_carries_both_sides_as_text() {
    let log = OrderBookSnapShot {
        event_id: 77,
        timestamp: 1000,
        symbol: 2,
        bids: levels(20),
        asks: levels(0),
    };
    let row = snapshot_row(&log);
    assert_eq!(row.table, "orderbook_snapshots");
    assert_eq!(row.tags, vec![tag("instrument", "2")]);
    assert_eq!(row.fields.len(), 3);
    assert_eq!(row.fields[0], integer("event_id", 77));
    assert_eq!(row.fields[1].name, "bids");
    assert_eq!(
        row.fields[1].value,
        FieldValue::Text(
            "100:5,101:10,102:15,103:20,104:25,105:30,106:35,107:40,108:45,109:50,\
             110:55,111:60,112:65,113:70,114:75,115:80,116:85,117:90,118:95,119:100"
                .to_string()
        )
    );
    assert_eq!(row.fields[2].name, "asks");
    assert_eq!(row.timestamp, 1000);
}

#[test]
fn a_record_encodes_to_the_same_row_every_time() {
    let log = Logs::OrderLogs(order());
    assert_eq!(row_of(&log), row_of(&log));
    assert_eq!(row_of(&log), order_row(&order()));
}

#[test]
fn categories_and_times_of_records() {
    let log = Logs::OrderLogs(order());
    assert_eq!(log.category(), Category::Order);
    assert_eq!(log.timestamp(), 1_700_000_000_000_000_000);
    let snap = Logs::OrderBookSnapShot(OrderBookSnapShot {
        event_id: 1,
        timestamp: -5,
        symbol: 2,
        bids: levels(0),
        asks: levels(0),
    });
    assert_eq!(snap.category(), Category::Snapshot);
    assert_eq!(snap.timestamp(), -5);
}
