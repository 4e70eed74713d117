//! Table rows: what a record looks like at the sink.
//!
//! A row names its table, carries tag columns (low-cardinality text), typed
//! field columns, and the nanosecond timestamp of the record it came from.

use vstd::prelude::*;
use vstd::string::StringExecFns;
use crate::logger::types::{
    as_signed, to_signed, BalanceLogs, HoldingsLogs, Logs, OrderBookSnapShot, OrderLogs,
    PriceLevel, TradeLogs,
};

verus! {

/// A tag column: a name and a categorical value.
#[derive(Clone, Debug, PartialEq, Eq)]
pub struct Tag {
    pub name: String,
    pub value: String,
}

/// The value of a field column.
#[derive(Clone, Debug, PartialEq, Eq)]
pub enum FieldValue {
    Integer(i64),
    Boolean(bool),
    Text(String),
}

/// A field column: a name and a typed value.
#[derive(Clone, Debug, PartialEq, Eq)]
pub struct Field {
    pub name: String,
    pub value: FieldValue,
}

/// One row bound for the sink.
#[derive(Clone, Debug, PartialEq, Eq)]
pub struct Row {
    pub table: String,
    pub tags: Vec<Tag>,
    pub fields: Vec<Field>,
    pub timestamp: i64,
}

/// Mathematical value of a tag.
pub struct TagView {
    pub name: Seq<char>,
    pub value: Seq<char>,
}

/// Mathematical value of a field's value.
pub enum FieldValueView {
    Integer(i64),
    Boolean(bool),
    Text(Seq<char>),
}

/// Mathematical value of a field.
pub struct FieldView {
    pub name: Seq<char>,
    pub value: FieldValueView,
}

/// Mathematical value of a row.
pub struct RowView {
    pub table: Seq<char>,
    pub tags: Seq<TagView>,
    pub fields: Seq<FieldView>,
    pub timestamp: i64,
}

impl View for Tag {
    type V = TagView;

    open spec fn view(&self) -> TagView {
        TagView { name: self.name@, value: self.value@ }
    }
}

impl View for FieldValue {
    type V = FieldValueView;

    open spec fn view(&self) -> FieldValueView {
        match self {
            FieldValue::Integer(i) => FieldValueView::Integer(*i),
            FieldValue::Boolean(b) => FieldValueView::Boolean(*b),
            FieldValue::Text(s) => FieldValueView::Text(s@),
        }
    }
}

impl View for Field {
    type V = FieldView;

    open spec fn view(&self) -> FieldView {
        FieldView { name: self.name@, value: self.value@ }
    }
}

impl View for Row {
    type V = RowView;

    open spec fn view(&self) -> RowView {
        RowView {
            table: self.table@,
            tags: self.tags@.map_values(|t: Tag| t@),
            fields: self.fields@.map_values(|f: Field| f@),
            timestamp: self.timestamp,
        }
    }
}

/// The decimal digit `d`.
pub open spec fn digit_char(d: nat) -> char {
    if d == 0 {
        '0'
    } else if d == 1 {
        '1'
    } else if d == 2 {
        '2'
    } else if d == 3 {
        '3'
    } else if d == 4 {
        '4'
    } else if d == 5 {
        '5'
    } else if d == 6 {
        '6'
    } else if d == 7 {
        '7'
    } else if d == 8 {
        '8'
    } else {
        '9'
    }
}

/// `n` in decimal notation, without leading zeros.
pub open spec fn decimal(n: nat) -> Seq<char>
    decreases n,
{
    if n < 10 {
        seq![digit_char(n)]
    } else {
        decimal(n / 10).push(digit_char(n % 10))
    }
}

/// Tag value of a side code.
pub open spec fn side_label(code: u8) -> Seq<char> {
    if code == 0 {
        "bid"@
    } else if code == 1 {
        "ask"@
    } else {
        "unknown"@
    }
}

/// Tag value of an order event code.
pub open spec fn order_event_label(code: u8) -> Seq<char> {
    if code == 0 {
        "received"@
    } else if code == 1 {
        "matched"@
    } else if code == 2 {
        "canceled"@
    } else {
        "unknown"@
    }
}

/// Tag value of a severity code.
pub open spec fn severity_label(code: u8) -> Seq<char> {
    if code == 0 {
        "info"@
    } else if code == 1 {
        "error"@
    } else if code == 2 {
        "debug"@
    } else {
        "unknown"@
    }
}

/// Tag value of the reason code of a balance change.
pub open spec fn balance_reason_label(code: u8) -> Seq<char> {
    if code == 0 {
        "lock"@
    } else if code == 1 {
        "update"@
    } else {
        "unknown"@
    }
}

/// Tag value of the reason code of a holding change.
pub open spec fn holding_reason_label(code: u8) -> Seq<char> {
    if code == 0 {
        "lock"@
    } else if code == 1 {
        "fill"@
    } else {
        "unknown"@
    }
}

/// One level as text: price, a colon, quantity.
pub open spec fn level_text(level: PriceLevel) -> Seq<char> {
    decimal(level.price as nat).push(':') + decimal(level.quantity as nat)
}

/// One side of a book as text: its levels in order, separated by commas.
pub open spec fn levels_text(levels: Seq<PriceLevel>) -> Seq<char>
    decreases levels.len(),
{
    if levels.len() == 0 {
        Seq::empty()
    } else if levels.len() == 1 {
        level_text(levels[0])
    } else {
        levels_text(levels.drop_last()).push(',') + level_text(levels.last())
    }
}

pub open spec fn tag_view(name: Seq<char>, value: Seq<char>) -> TagView {
    TagView { name, value }
}

pub open spec fn integer_field(name: Seq<char>, value: i64) -> FieldView {
    FieldView { name, value: FieldValueView::Integer(value) }
}

pub open spec fn boolean_field(name: Seq<char>, value: bool) -> FieldView {
    FieldView { name, value: FieldValueView::Boolean(value) }
}

pub open spec fn text_field(name: Seq<char>, value: Seq<char>) -> FieldView {
    FieldView { name, value: FieldValueView::Text(value) }
}

/// The row of an order event.
pub open spec fn order_row_view(log: OrderLogs) -> RowView {
    RowView {
        table: "order_logs"@,
        tags: seq![
            tag_view("instrument"@, decimal(log.symbol as nat)),
            tag_view("side"@, side_label(log.side)),
            tag_view("event_type"@, order_event_label(log.order_event_type)),
            tag_view("severity"@, severity_label(log.severity)),
        ],
        fields: seq![
            integer_field("event_id"@, as_signed(log.event_id)),
            integer_field("order_id"@, as_signed(log.order_id)),
            integer_field("user_id"@, as_signed(log.user_id)),
            integer_field("price"@, as_signed(log.price)),
            integer_field("shares_qty"@, log.shares_qty as i64),
        ],
        timestamp: log.timestamp,
    }
}

/// The row of a balance change.
pub open spec fn balance_row_view(log: BalanceLogs) -> RowView {
    RowView {
        table: "balance_logs"@,
        tags: seq![
            tag_view("reason"@, balance_reason_label(log.reason)),
            tag_view("severity"@, severity_label(log.severity)),
        ],
        fields: seq![
            integer_field("event_id"@, as_signed(log.event_id)),
            integer_field("user_id"@, as_signed(log.user_id)),
            integer_field("order_id"@, as_signed(log.order_id)),
            integer_field("delta_reserved_balance"@, log.delta_reserved),
            integer_field("delta_available_balance"@, log.delta_available),
        ],
        timestamp: log.timestamp,
    }
}

/// The row of a holding change.
pub open spec fn holding_row_view(log: HoldingsLogs) -> RowView {
    RowView {
        table: "holding_logs"@,
        tags: seq![
            tag_view("instrument"@, decimal(log.symbol as nat)),
            tag_view("reason"@, holding_reason_label(log.reason)),
            tag_view("severity"@, severity_label(log.severity)),
        ],
        fields: seq![
            integer_field("event_id"@, as_signed(log.event_id)),
            integer_field("user_id"@, as_signed(log.user_id)),
            integer_field("order_id"@, as_signed(log.order_id)),
            integer_field("delta_reserved_holding"@, log.delta_reserved),
            integer_field("delta_available_holding"@, log.delta_available),
        ],
        timestamp: log.timestamp,
    }
}

/// The row of a trade.
pub open spec fn trade_row_view(log: TradeLogs) -> RowView {
    RowView {
        table: "trade_logs"@,
        tags: seq![tag_view("instrument"@, decimal(log.symbol as nat))],
        fields: seq![
            integer_field("buyer_order_id"@, as_signed(log.buyer_order_id)),
            integer_field("seller_order_id"@, as_signed(log.seller_order_id)),
            integer_field("price"@, as_signed(log.price)),
            integer_field("quantity"@, as_signed(log.quantity)),
            boolean_field("is_buyer_maker"@, log.is_buyer_maker),
        ],
        timestamp: log.timestamp,
    }
}

/// The row of an order-book snapshot.
pub open spec fn snapshot_row_view(log: OrderBookSnapShot) -> RowView {
    RowView {
        table: "orderbook_snapshots"@,
        tags: seq![tag_view("instrument"@, decimal(log.symbol as nat))],
        fields: seq![
            integer_field("event_id"@, as_signed(log.event_id)),
            text_field("bids"@, levels_text(log.bids@)),
            text_field("asks"@, levels_text(log.asks@)),
        ],
        timestamp: log.timestamp,
    }
}

/// The row of any record.
pub open spec fn row_view_of(log: Logs) -> RowView {
    match log {
        Logs::OrderLogs(l) => order_row_view(l),
        Logs::BalanceLogs(l) => balance_row_view(l),
        Logs::HoldingsLogs(l) => holding_row_view(l),
        Logs::TradeLogs(l) => trade_row_view(l),
        Logs::OrderBookSnapShot(l) => snapshot_row_view(l),
    }
}

fn digit_str(d: u64) -> (r: &'static str)
    requires
        d < 10,
    ensures
        r@ == seq![digit_char(d as nat)],
{
    proof {
        reveal_strlit("0");
        reveal_strlit("1");
        reveal_strlit("2");
        reveal_strlit("3");
        reveal_strlit("4");
        reveal_strlit("5");
        reveal_strlit("6");
        reveal_strlit("7");
        reveal_strlit("8");
        reveal_strlit("9");
    }
    let r = if d == 0 {
        "0"
    } else if d == 1 {
        "1"
    } else if d == 2 {
        "2"
    } else if d == 3 {
        "3"
    } else if d == 4 {
        "4"
    } else if d == 5 {
        "5"
    } else if d == 6 {
        "6"
    } else if d == 7 {
        "7"
    } else if d == 8 {
        "8"
    } else {
        "9"
    };
    assert(r@ =~= seq![digit_char(d as nat)]);
    r
}

/// `n` in decimal notation.
pub fn decimal_string(n: u64) -> (r: String)
    ensures
        r@ == decimal(n as nat),
    decreases n,
{
    if n < 10 {
        String::from_str(digit_str(n))
    } else {
        let head = decimal_string(n / 10);
        let r = head.concat(digit_str(n % 10));
        assert(r@ =~= decimal(n as nat));
        r
    }
}

/// Tag value of a side code.
pub fn side_name(code: u8) -> (r: &'static str)
    ensures
        r@ == side_label(code),
{
    if code == 0 {
        "bid"
    } else if code == 1 {
        "ask"
    } else {
        "unknown"
    }
}

/// Tag value of an order event code.
pub fn order_event_name(code: u8) -> (r: &'static str)
    ensures
        r@ == order_event_label(code),
{
    if code == 0 {
        "received"
    } else if code == 1 {
        "matched"
    } else if code == 2 {
        "canceled"
    } else {
        "unknown"
    }
}

/// Tag value of a severity code.
pub fn severity_name(code: u8) -> (r: &'static str)
    ensures
        r@ == severity_label(code),
{
    if code == 0 {
        "info"
    } else if code == 1 {
        "error"
    } else if code == 2 {
        "debug"
    } else {
        "unknown"
    }
}

/// Tag value of the reason code of a balance change.
pub fn balance_reason_name(code: u8) -> (r: &'static str)
    ensures
        r@ == balance_reason_label(code),
{
    if code == 0 {
        "lock"
    } else if code == 1 {
        "update"
    } else {
        "unknown"
    }
}

/// Tag value of the reason code of a holding change.
pub fn holding_reason_name(code: u8) -> (r: &'static str)
    ensures
        r@ == holding_reason_label(code),
{
    if code == 0 {
        "lock"
    } else if code == 1 {
        "fill"
    } else {
        "unknown"
    }
}

fn tag(name: &str, value: String) -> (r: Tag)
    ensures
        r@ == tag_view(name@, value@),
{
    Tag { name: String::from_str(name), value }
}

fn label_tag(name: &str, value: &str) -> (r: Tag)
    ensures
        r@ == tag_view(name@, value@),
{
    Tag { name: String::from_str(name), value: String::from_str(value) }
}

fn integer(name: &str, value: i64) -> (r: Field)
    ensures
        r@ == integer_field(name@, value),
{
    Field { name: String::from_str(name), value: FieldValue::Integer(value) }
}

fn boolean(name: &str, value: bool) -> (r: Field)
    ensures
        r@ == boolean_field(name@, value),
{
    Field { name: String::from_str(name), value: FieldValue::Boolean(value) }
}

fn text(name: &str, value: String) -> (r: Field)
    ensures
        r@ == text_field(name@, value@),
{
    Field { name: String::from_str(name), value: FieldValue::Text(value) }
}

/// One side of a book as text.
pub fn render_levels(levels: &[PriceLevel; 20]) -> (r: String)
    ensures
        r@ == levels_text(levels@),
{
    let mut out = String::new();
    let mut i: usize = 0;
    while i < 20
        invariant
            i <= 20,
            levels@.len() == 20,
            out@ == levels_text(levels@.take(i as int)),
        decreases 20 - i,
    {
        let level = levels[i];
        let ghost before = out@;
        if i > 0 {
            out.append(",");
        }
        let price = decimal_string(level.price);
        out.append(price.as_str());
        out.append(":");
        let quantity = decimal_string(level.quantity);
        out.append(quantity.as_str());
        proof {
            reveal_strlit(",");
            reveal_strlit(":");
            let prefix = levels@.take(i as int + 1);
            assert(prefix.drop_last() =~= levels@.take(i as int));
            assert(prefix.last() == level);
            assert(","@ =~= seq![',']);
            assert(":"@ =~= seq![':']);
            if i == 0 {
                assert(before =~= Seq::<char>::empty());
                assert(prefix[0] == level);
                assert(out@ =~= level_text(level));
            } else {
                assert(out@ =~= before.push(',') + level_text(level));
            }
        }
        i = i + 1;
    }
    proof {
        assert(levels@.take(20) =~= levels@);
    }
    out
}

/// The row of an order event.
pub fn order_row(log: &OrderLogs) -> (row: Row)
    ensures
        row@ == order_row_view(*log),
{
    let mut tags: Vec<Tag> = Vec::new();
    tags.push(tag("instrument", decimal_string(log.symbol as u64)));
    tags.push(label_tag("side", side_name(log.side)));
    tags.push(label_tag("event_type", order_event_name(log.order_event_type)));
    tags.push(label_tag("severity", severity_name(log.severity)));
    let mut fields: Vec<Field> = Vec::new();
    fields.push(integer("event_id", to_signed(log.event_id)));
    fields.push(integer("order_id", to_signed(log.order_id)));
    fields.push(integer("user_id", to_signed(log.user_id)));
    fields.push(integer("price", to_signed(log.price)));
    fields.push(integer("shares_qty", log.shares_qty as i64));
    let row = Row { table: String::from_str("order_logs"), tags, fields, timestamp: log.timestamp };
    proof {
        assert(row@.tags =~= order_row_view(*log).tags);
        assert(row@.fields =~= order_row_view(*log).fields);
    }
    row
}

/// The row of a balance change.
pub fn balance_row(log: &BalanceLogs) -> (row: Row)
    ensures
        row@ == balance_row_view(*log),
{
    let mut tags: Vec<Tag> = Vec::new();
    tags.push(label_tag("reason", balance_reason_name(log.reason)));
    tags.push(label_tag("severity", severity_name(log.severity)));
    let mut fields: Vec<Field> = Vec::new();
    fields.push(integer("event_id", to_signed(log.event_id)));
    fields.push(integer("user_id", to_signed(log.user_id)));
    fields.push(integer("order_id", to_signed(log.order_id)));
    fields.push(integer("delta_reserved_balance", log.delta_reserved));
    fields.push(integer("delta_available_balance", log.delta_available));
    let row = Row {
        table: String::from_str("balance_logs"),
        tags,
        fields,
        timestamp: log.timestamp,
    };
    proof {
        assert(row@.tags =~= balance_row_view(*log).tags);
        assert(row@.fields =~= balance_row_view(*log).fields);
    }
    row
}

/// The row of a holding change.
pub fn holding_row(log: &HoldingsLogs) -> (row: Row)
    ensures
        row@ == holding_row_view(*log),
{
    let mut tags: Vec<Tag> = Vec::new();
    tags.push(tag("instrument", decimal_string(log.symbol as u64)));
    tags.push(label_tag("reason", holding_reason_name(log.reason)));
    tags.push(label_tag("severity", severity_name(log.severity)));
    let mut fields: Vec<Field> = Vec::new();
    fields.push(integer("event_id", to_signed(log.event_id)));
    fields.push(integer("user_id", to_signed(log.user_id)));
    fields.push(integer("order_id", to_signed(log.order_id)));
    fields.push(integer("delta_reserved_holding", log.delta_reserved));
    fields.push(integer("delta_available_holding", log.delta_available));
    let row = Row {
        table: String::from_str("holding_logs"),
        tags,
        fields,
        timestamp: log.timestamp,
    };
    proof {
        assert(row@.tags =~= holding_row_view(*log).tags);
        assert(row@.fields =~= holding_row_view(*log).fields);
    }
    row
}

/// The row of a trade.
pub fn trade_row(log: &TradeLogs) -> (row: Row)
    ensures
        row@ == trade_row_view(*log),
{
    let mut tags: Vec<Tag> = Vec::new();
    tags.push(tag("instrument", decimal_string(log.symbol as u64)));
    let mut fields: Vec<Field> = Vec::new();
    fields.push(integer("buyer_order_id", to_signed(log.buyer_order_id)));
    fields.push(integer("seller_order_id", to_signed(log.seller_order_id)));
    fields.push(integer("price", to_signed(log.price)));
    fields.push(integer("quantity", to_signed(log.quantity)));
    fields.push(boolean("is_buyer_maker", log.is_buyer_maker));
    let row = Row { table: String::from_str("trade_logs"), tags, fields, timestamp: log.timestamp };
    proof {
        assert(row@.tags =~= trade_row_view(*log).tags);
        assert(row@.fields =~= trade_row_view(*log).fields);
    }
    row
}

/// The row of an order-book snapshot.
pub fn snapshot_row(log: &OrderBookSnapShot) -> (row: Row)
    ensures
        row@ == snapshot_row_view(*log),
{
    let mut tags: Vec<Tag> = Vec::new();
    tags.push(tag("instrument", decimal_string(log.symbol as u64)));
    let mut fields: Vec<Field> = Vec::new();
    fields.push(integer("event_id", to_signed(log.event_id)));
    fields.push(text("bids", render_levels(&log.bids)));
    fields.push(text("asks", render_levels(&log.asks)));
    let row = Row {
        table: String::from_str("orderbook_snapshots"),
        tags,
        fields,
        timestamp: log.timestamp,
    };
    proof {
        assert(row@.tags =~= snapshot_row_view(*log).tags);
        assert(row@.fields =~= snapshot_row_view(*log).fields);
    }
    row
}

/// The row of any record.
pub fn row_of(log: &Logs) -> (row: Row)
    ensures
        row@ == row_view_of(*log),
{
    match log {
        Logs::OrderLogs(l) => order_row(l),
        Logs::BalanceLogs(l) => balance_row(l),
        Logs::HoldingsLogs(l) => holding_row(l),
        Logs::TradeLogs(l) => trade_row(l),
        Logs::OrderBookSnapShot(l) => snapshot_row(l),
    }
}

} // verus!
