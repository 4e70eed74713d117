//! Byte layout of a segment and of the records in its slots.
//!
//! A segment starts with a header of three 64-bit fields (capacity, record
//! size, write sequence) and continues with `capacity` slots of
//! `record_size` bytes. All integers are little-endian. A record's fields lie
//! at ascending offsets in the order of their declaration, each at a
//! multiple of its own size, and the record is padded to a multiple of eight.

use vstd::prelude::*;
use vstd::bytes::{
    lemma_auto_spec_u32_to_from_le_bytes, lemma_auto_spec_u64_to_from_le_bytes,
    spec_u32_from_le_bytes, spec_u32_to_le_bytes, spec_u64_from_le_bytes, spec_u64_to_le_bytes,
    u32_from_le_bytes, u32_to_le_bytes, u64_from_le_bytes, u64_to_le_bytes,
};
use vstd::slice::slice_subrange;
use crate::logger::types::{
    as_signed, as_unsigned, to_signed, to_unsigned, BalanceLogs, Category, HoldingsLogs, Logs,
    OrderBookSnapShot, OrderLogs, PriceLevel, TradeLogs,
};
use crate::shm::ring::{RingBufferHeader, HEADER_SIZE};

verus! {

/// Bytes of an order event in a slot.
pub const ORDER_RECORD_SIZE: u64 = 56;

/// Bytes of a balance change in a slot.
pub const BALANCE_RECORD_SIZE: u64 = 56;

/// Bytes of a holding change in a slot.
pub const HOLDING_RECORD_SIZE: u64 = 56;

/// Bytes of a trade in a slot.
pub const TRADE_RECORD_SIZE: u64 = 48;

/// Bytes of an order-book snapshot in a slot.
pub const SNAPSHOT_RECORD_SIZE: u64 = 664;

/// The unsigned 64-bit integer at `offset`.
pub open spec fn u64_at(bytes: Seq<u8>, offset: int) -> u64 {
    spec_u64_from_le_bytes(bytes.subrange(offset, offset + 8))
}

/// The unsigned 32-bit integer at `offset`.
pub open spec fn u32_at(bytes: Seq<u8>, offset: int) -> u32 {
    spec_u32_from_le_bytes(bytes.subrange(offset, offset + 4))
}

/// The signed 64-bit integer at `offset`, in two's complement.
pub open spec fn i64_at(bytes: Seq<u8>, offset: int) -> i64 {
    as_signed(u64_at(bytes, offset))
}

/// `n` zero bytes.
pub open spec fn padding(n: nat) -> Seq<u8> {
    Seq::new(n, |i: int| 0u8)
}

/// The header at the start of `bytes`.
pub open spec fn header_of(bytes: Seq<u8>) -> RingBufferHeader {
    RingBufferHeader {
        capacity: u64_at(bytes, 0),
        record_size: u64_at(bytes, 8),
        write_sequence: u64_at(bytes, 16),
    }
}

/// The bytes of a header.
pub open spec fn header_bytes(header: RingBufferHeader) -> Seq<u8> {
    spec_u64_to_le_bytes(header.capacity) + spec_u64_to_le_bytes(header.record_size)
        + spec_u64_to_le_bytes(header.write_sequence)
}

/// Offset of slot `index` from the start of a segment.
pub open spec fn slot_offset_of(record_size: u64, index: u64) -> int {
    HEADER_SIZE + index * record_size
}

/// The order event in a slot.
pub open spec fn order_of(bytes: Seq<u8>) -> OrderLogs {
    OrderLogs {
        event_id: u64_at(bytes, 0),
        order_id: u64_at(bytes, 8),
        user_id: u64_at(bytes, 16),
        price: u64_at(bytes, 24),
        timestamp: i64_at(bytes, 32),
        symbol: u32_at(bytes, 40),
        shares_qty: u32_at(bytes, 44),
        side: bytes[48],
        order_event_type: bytes[49],
        severity: bytes[50],
    }
}

/// The slot of an order event.
pub open spec fn order_bytes(log: OrderLogs) -> Seq<u8> {
    spec_u64_to_le_bytes(log.event_id) + spec_u64_to_le_bytes(log.order_id)
        + spec_u64_to_le_bytes(log.user_id) + spec_u64_to_le_bytes(log.price)
        + spec_u64_to_le_bytes(as_unsigned(log.timestamp)) + spec_u32_to_le_bytes(log.symbol)
        + spec_u32_to_le_bytes(log.shares_qty) + seq![log.side, log.order_event_type, log.severity]
        + padding(5)
}

/// The balance change in a slot.
pub open spec fn balance_of(bytes: Seq<u8>) -> BalanceLogs {
    BalanceLogs {
        event_id: u64_at(bytes, 0),
        user_id: u64_at(bytes, 8),
        order_id: u64_at(bytes, 16),
        delta_available: i64_at(bytes, 24),
        delta_reserved: i64_at(bytes, 32),
        timestamp: i64_at(bytes, 40),
        reason: bytes[48],
        severity: bytes[49],
    }
}

/// The slot of a balance change.
pub open spec fn balance_bytes(log: BalanceLogs) -> Seq<u8> {
    spec_u64_to_le_bytes(log.event_id) + spec_u64_to_le_bytes(log.user_id)
        + spec_u64_to_le_bytes(log.order_id) + spec_u64_to_le_bytes(
        as_unsigned(log.delta_available),
    ) + spec_u64_to_le_bytes(as_unsigned(log.delta_reserved)) + spec_u64_to_le_bytes(
        as_unsigned(log.timestamp),
    ) + seq![log.reason, log.severity] + padding(6)
}

/// The holding change in a slot.
pub open spec fn holding_of(bytes: Seq<u8>) -> HoldingsLogs {
    HoldingsLogs {
        event_id: u64_at(bytes, 0),
        user_id: u64_at(bytes, 8),
        order_id: u64_at(bytes, 16),
        delta_available: i64_at(bytes, 24),
        delta_reserved: i64_at(bytes, 32),
        timestamp: i64_at(bytes, 40),
        symbol: u32_at(bytes, 48),
        reason: bytes[52],
        severity: bytes[53],
    }
}

/// The slot of a holding change.
pub open spec fn holding_bytes(log: HoldingsLogs) -> Seq<u8> {
    spec_u64_to_le_bytes(log.event_id) + spec_u64_to_le_bytes(log.user_id)
        + spec_u64_to_le_bytes(log.order_id) + spec_u64_to_le_bytes(
        as_unsigned(log.delta_available),
    ) + spec_u64_to_le_bytes(as_unsigned(log.delta_reserved)) + spec_u64_to_le_bytes(
        as_unsigned(log.timestamp),
    ) + spec_u32_to_le_bytes(log.symbol) + seq![log.reason, log.severity] + padding(2)
}

/// The trade in a slot. Any non-zero byte stands for a maker on the buying side.
pub open spec fn trade_of(bytes: Seq<u8>) -> TradeLogs {
    TradeLogs {
        buyer_order_id: u64_at(bytes, 0),
        seller_order_id: u64_at(bytes, 8),
        price: u64_at(bytes, 16),
        quantity: u64_at(bytes, 24),
        timestamp: i64_at(bytes, 32),
        symbol: u32_at(bytes, 40),
        is_buyer_maker: bytes[44] != 0,
    }
}

/// The byte of a flag.
pub open spec fn flag_byte(flag: bool) -> u8 {
    if flag {
        1
    } else {
        0
    }
}

/// The slot of a trade.
pub open spec fn trade_bytes(log: TradeLogs) -> Seq<u8> {
    spec_u64_to_le_bytes(log.buyer_order_id) + spec_u64_to_le_bytes(log.seller_order_id)
        + spec_u64_to_le_bytes(log.price) + spec_u64_to_le_bytes(log.quantity)
        + spec_u64_to_le_bytes(as_unsigned(log.timestamp)) + spec_u32_to_le_bytes(log.symbol)
        + seq![flag_byte(log.is_buyer_maker)] + padding(3)
}

/// The price level at `offset`: price, then quantity.
pub open spec fn level_at(bytes: Seq<u8>, offset: int) -> PriceLevel {
    PriceLevel { price: u64_at(bytes, offset), quantity: u64_at(bytes, offset + 8) }
}

/// The twenty price levels that start at `offset`.
pub open spec fn levels_at(bytes: Seq<u8>, offset: int) -> Seq<PriceLevel> {
    Seq::new(20, |i: int| level_at(bytes, offset + 16 * i))
}

/// The bytes of one price level.
pub open spec fn level_bytes(level: PriceLevel) -> Seq<u8> {
    spec_u64_to_le_bytes(level.price) + spec_u64_to_le_bytes(level.quantity)
}

/// The bytes of a run of price levels.
pub open spec fn levels_bytes(levels: Seq<PriceLevel>) -> Seq<u8>
    decreases levels.len(),
{
    if levels.len() == 0 {
        Seq::empty()
    } else {
        levels_bytes(levels.drop_last()) + level_bytes(levels.last())
    }
}

/// `log` is the snapshot in the slot `bytes`.
pub open spec fn is_snapshot_of(log: OrderBookSnapShot, bytes: Seq<u8>) -> bool {
    &&& log.event_id == u64_at(bytes, 0)
    &&& log.timestamp == i64_at(bytes, 8)
    &&& log.symbol == u32_at(bytes, 16)
    &&& log.bids@ == levels_at(bytes, 24)
    &&& log.asks@ == levels_at(bytes, 344)
}

/// The slot of a snapshot.
pub open spec fn snapshot_bytes(log: OrderBookSnapShot) -> Seq<u8> {
    spec_u64_to_le_bytes(log.event_id) + spec_u64_to_le_bytes(as_unsigned(log.timestamp))
        + spec_u32_to_le_bytes(log.symbol) + padding(4) + levels_bytes(log.bids@) + levels_bytes(
        log.asks@,
    )
}

fn read_u64(bytes: &[u8], offset: usize) -> (r: u64)
    requires
        offset + 8 <= bytes@.len(),
    ensures
        r == u64_at(bytes@, offset as int),
{
    let len = bytes.len();
    assert(offset + 8 <= len);
    u64_from_le_bytes(slice_subrange(bytes, offset, offset + 8))
}

fn read_u32(bytes: &[u8], offset: usize) -> (r: u32)
    requires
        offset + 4 <= bytes@.len(),
    ensures
        r == u32_at(bytes@, offset as int),
{
    let len = bytes.len();
    assert(offset + 4 <= len);
    u32_from_le_bytes(slice_subrange(bytes, offset, offset + 4))
}

fn read_i64(bytes: &[u8], offset: usize) -> (r: i64)
    requires
        offset + 8 <= bytes@.len(),
    ensures
        r == i64_at(bytes@, offset as int),
{
    to_signed(read_u64(bytes, offset))
}

fn write_u64(out: &mut Vec<u8>, x: u64)
    ensures
        final(out)@ == old(out)@ + spec_u64_to_le_bytes(x),
{
    let mut piece = u64_to_le_bytes(x);
    out.append(&mut piece);
}

fn write_u32(out: &mut Vec<u8>, x: u32)
    ensures
        final(out)@ == old(out)@ + spec_u32_to_le_bytes(x),
{
    let mut piece = u32_to_le_bytes(x);
    out.append(&mut piece);
}

fn write_padding(out: &mut Vec<u8>, n: usize)
    ensures
        final(out)@ == old(out)@ + padding(n as nat),
{
    let mut i: usize = 0;
    while i < n
        invariant
            i <= n,
            out@ == old(out)@ + padding(i as nat),
        decreases n - i,
    {
        out.push(0u8);
        proof {
            assert(out@ =~= old(out)@ + padding((i + 1) as nat));
        }
        i = i + 1;
    }
}

/// Reads the header at the start of a segment; `None` if there are fewer
/// than `HEADER_SIZE` bytes.
pub fn parse_header(bytes: &[u8]) -> (r: Option<RingBufferHeader>)
    ensures
        bytes@.len() < HEADER_SIZE ==> r is None,
        bytes@.len() >= HEADER_SIZE ==> r == Some(header_of(bytes@)),
{
    if bytes.len() < 24 {
        return None;
    }
    Some(
        RingBufferHeader {
            capacity: read_u64(bytes, 0),
            record_size: read_u64(bytes, 8),
            write_sequence: read_u64(bytes, 16),
        },
    )
}

/// The bytes of a header.
pub fn write_header(header: &RingBufferHeader) -> (r: Vec<u8>)
    ensures
        r@ == header_bytes(*header),
        r@.len() == HEADER_SIZE,
{
    let mut out: Vec<u8> = Vec::new();
    write_u64(&mut out, header.capacity);
    write_u64(&mut out, header.record_size);
    write_u64(&mut out, header.write_sequence);
    proof {
        lemma_auto_spec_u64_to_from_le_bytes();
        assert(out@ =~= header_bytes(*header));
    }
    out
}

/// Offset of slot `index` from the start of a segment; `None` if it does
/// not fit in 64 bits.
pub fn slot_offset(record_size: u64, index: u64) -> (r: Option<u64>)
    ensures
        slot_offset_of(record_size, index) <= u64::MAX ==> r == Some(
            slot_offset_of(record_size, index) as u64,
        ),
        slot_offset_of(record_size, index) > u64::MAX ==> r is None,
{
    match index.checked_mul(record_size) {
        None => None,
        Some(span) => span.checked_add(24),
    }
}

/// Bytes of a whole segment of `capacity` slots; `None` if it does not fit in 64 bits.
pub fn segment_size(capacity: u64, record_size: u64) -> (r: Option<u64>)
    ensures
        slot_offset_of(record_size, capacity) <= u64::MAX ==> r == Some(
            slot_offset_of(record_size, capacity) as u64,
        ),
        slot_offset_of(record_size, capacity) > u64::MAX ==> r is None,
{
    slot_offset(record_size, capacity)
}

/// Reads an order event from its slot; `None` unless the slot has `ORDER_RECORD_SIZE` bytes.
pub fn decode_order(bytes: &[u8]) -> (r: Option<OrderLogs>)
    ensures
        bytes@.len() != ORDER_RECORD_SIZE ==> r is None,
        bytes@.len() == ORDER_RECORD_SIZE ==> r == Some(order_of(bytes@)),
{
    if bytes.len() != 56 {
        return None;
    }
    Some(
        OrderLogs {
            event_id: read_u64(bytes, 0),
            order_id: read_u64(bytes, 8),
            user_id: read_u64(bytes, 16),
            price: read_u64(bytes, 24),
            timestamp: read_i64(bytes, 32),
            symbol: read_u32(bytes, 40),
            shares_qty: read_u32(bytes, 44),
            side: bytes[48],
            order_event_type: bytes[49],
            severity: bytes[50],
        },
    )
}

/// The slot of an order event.
pub fn encode_order(log: &OrderLogs) -> (r: Vec<u8>)
    ensures
        r@ == order_bytes(*log),
        r@.len() == ORDER_RECORD_SIZE,
{
    let mut out: Vec<u8> = Vec::new();
    write_u64(&mut out, log.event_id);
    write_u64(&mut out, log.order_id);
    write_u64(&mut out, log.user_id);
    write_u64(&mut out, log.price);
    write_u64(&mut out, to_unsigned(log.timestamp));
    write_u32(&mut out, log.symbol);
    write_u32(&mut out, log.shares_qty);
    let ghost head = out@;
    out.push(log.side);
    out.push(log.order_event_type);
    out.push(log.severity);
    proof {
        assert(out@ =~= head + seq![log.side, log.order_event_type, log.severity]);
    }
    write_padding(&mut out, 5);
    proof {
        lemma_auto_spec_u64_to_from_le_bytes();
        lemma_auto_spec_u32_to_from_le_bytes();
    }
    out
}

/// Reads a balance change from its slot; `None` unless the slot has `BALANCE_RECORD_SIZE` bytes.
pub fn decode_balance(bytes: &[u8]) -> (r: Option<BalanceLogs>)
    ensures
        bytes@.len() != BALANCE_RECORD_SIZE ==> r is None,
        bytes@.len() == BALANCE_RECORD_SIZE ==> r == Some(balance_of(bytes@)),
{
    if bytes.len() != 56 {
        return None;
    }
    Some(
        BalanceLogs {
            event_id: read_u64(bytes, 0),
            user_id: read_u64(bytes, 8),
            order_id: read_u64(bytes, 16),
            delta_available: read_i64(bytes, 24),
            delta_reserved: read_i64(bytes, 32),
            timestamp: read_i64(bytes, 40),
            reason: bytes[48],
            severity: bytes[49],
        },
    )
}

/// The slot of a balance change.
pub fn encode_balance(log: &BalanceLogs) -> (r: Vec<u8>)
    ensures
        r@ == balance_bytes(*log),
        r@.len() == BALANCE_RECORD_SIZE,
{
    let mut out: Vec<u8> = Vec::new();
    write_u64(&mut out, log.event_id);
    write_u64(&mut out, log.user_id);
    write_u64(&mut out, log.order_id);
    write_u64(&mut out, to_unsigned(log.delta_available));
    write_u64(&mut out, to_unsigned(log.delta_reserved));
    write_u64(&mut out, to_unsigned(log.timestamp));
    let ghost head = out@;
    out.push(log.reason);
    out.push(log.severity);
    proof {
        assert(out@ =~= head + seq![log.reason, log.severity]);
    }
    write_padding(&mut out, 6);
    proof {
        lemma_auto_spec_u64_to_from_le_bytes();
    }
    out
}

/// Reads a holding change from its slot; `None` unless the slot has `HOLDING_RECORD_SIZE` bytes.
pub fn decode_holding(bytes: &[u8]) -> (r: Option<HoldingsLogs>)
    ensures
        bytes@.len() != HOLDING_RECORD_SIZE ==> r is None,
        bytes@.len() == HOLDING_RECORD_SIZE ==> r == Some(holding_of(bytes@)),
{
    if bytes.len() != 56 {
        return None;
    }
    Some(
        HoldingsLogs {
            event_id: read_u64(bytes, 0),
            user_id: read_u64(bytes, 8),
            order_id: read_u64(bytes, 16),
            delta_available: read_i64(bytes, 24),
            delta_reserved: read_i64(bytes, 32),
            timestamp: read_i64(bytes, 40),
            symbol: read_u32(bytes, 48),
            reason: bytes[52],
            severity: bytes[53],
        },
    )
}

/// The slot of a holding change.
pub fn encode_holding(log: &HoldingsLogs) -> (r: Vec<u8>)
    ensures
        r@ == holding_bytes(*log),
        r@.len() == HOLDING_RECORD_SIZE,
{
    let mut out: Vec<u8> = Vec::new();
    write_u64(&mut out, log.event_id);
    write_u64(&mut out, log.user_id);
    write_u64(&mut out, log.order_id);
    write_u64(&mut out, to_unsigned(log.delta_available));
    write_u64(&mut out, to_unsigned(log.delta_reserved));
    write_u64(&mut out, to_unsigned(log.timestamp));
    write_u32(&mut out, log.symbol);
    let ghost head = out@;
    out.push(log.reason);
    out.push(log.severity);
    proof {
        assert(out@ =~= head + seq![log.reason, log.severity]);
    }
    write_padding(&mut out, 2);
    proof {
        lemma_auto_spec_u64_to_from_le_bytes();
        lemma_auto_spec_u32_to_from_le_bytes();
    }
    out
}

/// Reads a trade from its slot; `None` unless the slot has `TRADE_RECORD_SIZE` bytes.
pub fn decode_trade(bytes: &[u8]) -> (r: Option<TradeLogs>)
    ensures
        bytes@.len() != TRADE_RECORD_SIZE ==> r is None,
        bytes@.len() == TRADE_RECORD_SIZE ==> r == Some(trade_of(bytes@)),
{
    if bytes.len() != 48 {
        return None;
    }
    Some(
        TradeLogs {
            buyer_order_id: read_u64(bytes, 0),
            seller_order_id: read_u64(bytes, 8),
            price: read_u64(bytes, 16),
            quantity: read_u64(bytes, 24),
            timestamp: read_i64(bytes, 32),
            symbol: read_u32(bytes, 40),
            is_buyer_maker: bytes[44] != 0,
        },
    )
}

/// The slot of a trade.
pub fn encode_trade(log: &TradeLogs) -> (r: Vec<u8>)
    ensures
        r@ == trade_bytes(*log),
        r@.len() == TRADE_RECORD_SIZE,
{
    let mut out: Vec<u8> = Vec::new();
    write_u64(&mut out, log.buyer_order_id);
    write_u64(&mut out, log.seller_order_id);
    write_u64(&mut out, log.price);
    write_u64(&mut out, log.quantity);
    write_u64(&mut out, to_unsigned(log.timestamp));
    write_u32(&mut out, log.symbol);
    let ghost head = out@;
    let flag: u8 = if log.is_buyer_maker {
        1
    } else {
        0
    };
    out.push(flag);
    proof {
        assert(out@ =~= head + seq![flag_byte(log.is_buyer_maker)]);
    }
    write_padding(&mut out, 3);
    proof {
        lemma_auto_spec_u64_to_from_le_bytes();
        lemma_auto_spec_u32_to_from_le_bytes();
    }
    out
}

fn read_level(bytes: &[u8], offset: usize) -> (r: PriceLevel)
    requires
        offset + 16 <= bytes@.len(),
    ensures
        r == level_at(bytes@, offset as int),
{
    let len = bytes.len();
    assert(offset + 16 <= len);
    PriceLevel { price: read_u64(bytes, offset), quantity: read_u64(bytes, offset + 8) }
}

fn read_levels(bytes: &[u8], offset: usize) -> (r: [PriceLevel; 20])
    requires
        offset + 320 <= bytes@.len(),
    ensures
        r@ == levels_at(bytes@, offset as int),
{
    let len = bytes.len();
    assert(offset + 320 <= len);
    let mut levels = [PriceLevel { price: 0, quantity: 0 };20];
    let mut i: usize = 0;
    while i < 20
        invariant
            i <= 20,
            offset + 320 <= bytes@.len(),
            offset + 320 <= usize::MAX,
            levels@.len() == 20,
            forall|k: int| 0 <= k < i ==> levels@[k] == level_at(bytes@, offset + 16 * k),
        decreases 20 - i,
    {
        let level = read_level(bytes, offset + 16 * i);
        levels[i] = level;
        i = i + 1;
    }
    proof {
        assert(levels@ =~= levels_at(bytes@, offset as int));
    }
    levels
}

fn write_levels(out: &mut Vec<u8>, levels: &[PriceLevel; 20])
    ensures
        final(out)@ == old(out)@ + levels_bytes(levels@),
{
    let mut i: usize = 0;
    proof {
        assert(out@ =~= old(out)@ + levels_bytes(levels@.take(0)));
    }
    while i < 20
        invariant
            i <= 20,
            levels@.len() == 20,
            out@ == old(out)@ + levels_bytes(levels@.take(i as int)),
        decreases 20 - i,
    {
        let level = levels[i];
        let ghost before = out@;
        write_u64(out, level.price);
        write_u64(out, level.quantity);
        proof {
            let prefix = levels@.take(i as int + 1);
            assert(prefix.drop_last() =~= levels@.take(i as int));
            assert(prefix.last() == level);
            assert(out@ =~= before + level_bytes(level));
            assert(out@ =~= old(out)@ + levels_bytes(prefix));
        }
        i = i + 1;
    }
    proof {
        assert(levels@.take(20) =~= levels@);
    }
}

/// Reads a snapshot from its slot; `None` unless the slot has `SNAPSHOT_RECORD_SIZE` bytes.
pub fn decode_snapshot(bytes: &[u8]) -> (r: Option<OrderBookSnapShot>)
    ensures
        bytes@.len() != SNAPSHOT_RECORD_SIZE ==> r is None,
        bytes@.len() == SNAPSHOT_RECORD_SIZE ==> r is Some && is_snapshot_of(r->Some_0, bytes@),
{
    if bytes.len() != 664 {
        return None;
    }
    Some(
        OrderBookSnapShot {
            event_id: read_u64(bytes, 0),
            timestamp: read_i64(bytes, 8),
            symbol: read_u32(bytes, 16),
            bids: read_levels(bytes, 24),
            asks: read_levels(bytes, 344),
        },
    )
}

/// The slot of a snapshot.
pub fn encode_snapshot(log: &OrderBookSnapShot) -> (r: Vec<u8>)
    ensures
        r@ == snapshot_bytes(*log),
        r@.len() == SNAPSHOT_RECORD_SIZE,
{
    let mut out: Vec<u8> = Vec::new();
    write_u64(&mut out, log.event_id);
    write_u64(&mut out, to_unsigned(log.timestamp));
    write_u32(&mut out, log.symbol);
    write_padding(&mut out, 4);
    write_levels(&mut out, &log.bids);
    write_levels(&mut out, &log.asks);
    proof {
        lemma_auto_spec_u64_to_from_le_bytes();
        lemma_auto_spec_u32_to_from_le_bytes();
        lemma_levels_bytes(log.bids@, 20);
        lemma_levels_bytes(log.asks@, 20);
    }
    out
}

/// Bytes of a record of `category` in a slot.
pub open spec fn record_size_of(category: Category) -> u64 {
    match category {
        Category::Balance => BALANCE_RECORD_SIZE,
        Category::Holding => HOLDING_RECORD_SIZE,
        Category::Order => ORDER_RECORD_SIZE,
        Category::Trade => TRADE_RECORD_SIZE,
        Category::Snapshot => SNAPSHOT_RECORD_SIZE,
    }
}

/// Bytes of a record of `category` in a slot.
pub fn record_size(category: Category) -> (r: u64)
    ensures
        r == record_size_of(category),
{
    match category {
        Category::Balance => BALANCE_RECORD_SIZE,
        Category::Holding => HOLDING_RECORD_SIZE,
        Category::Order => ORDER_RECORD_SIZE,
        Category::Trade => TRADE_RECORD_SIZE,
        Category::Snapshot => SNAPSHOT_RECORD_SIZE,
    }
}

/// `log` is the record of `category` in the slot `bytes`.
pub open spec fn is_record_of(log: Logs, category: Category, bytes: Seq<u8>) -> bool {
    match category {
        Category::Balance => log == Logs::BalanceLogs(balance_of(bytes)),
        Category::Holding => log == Logs::HoldingsLogs(holding_of(bytes)),
        Category::Order => log == Logs::OrderLogs(order_of(bytes)),
        Category::Trade => log == Logs::TradeLogs(trade_of(bytes)),
        Category::Snapshot => log matches Logs::OrderBookSnapShot(snapshot) && is_snapshot_of(
            snapshot,
            bytes,
        ),
    }
}

/// Reads the record of `category` from its slot; `None` unless the slot has
/// the size of that category's records.
pub fn decode_record(category: Category, bytes: &[u8]) -> (r: Option<Logs>)
    ensures
        bytes@.len() != record_size_of(category) ==> r is None,
        bytes@.len() == record_size_of(category) ==> r is Some && is_record_of(
            r->Some_0,
            category,
            bytes@,
        ),
{
    match category {
        Category::Balance => match decode_balance(bytes) {
            Some(log) => Some(Logs::BalanceLogs(log)),
            None => None,
        },
        Category::Holding => match decode_holding(bytes) {
            Some(log) => Some(Logs::HoldingsLogs(log)),
            None => None,
        },
        Category::Order => match decode_order(bytes) {
            Some(log) => Some(Logs::OrderLogs(log)),
            None => None,
        },
        Category::Trade => match decode_trade(bytes) {
            Some(log) => Some(Logs::TradeLogs(log)),
            None => None,
        },
        Category::Snapshot => match decode_snapshot(bytes) {
            Some(log) => Some(Logs::OrderBookSnapShot(log)),
            None => None,
        },
    }
}

/// A run of levels takes sixteen bytes per level, and level `k` starts at byte `16 * k`.
pub proof fn lemma_levels_bytes(levels: Seq<PriceLevel>, n: nat)
    requires
        levels.len() == n,
    ensures
        levels_bytes(levels).len() == 16 * n,
        forall|k: int|
            0 <= k < n ==> levels_bytes(levels).subrange(16 * k, 16 * k + 16) == level_bytes(
                #[trigger] levels[k],
            ),
    decreases n,
{
    lemma_auto_spec_u64_to_from_le_bytes();
    if n > 0 {
        let head = levels.drop_last();
        lemma_levels_bytes(head, (n - 1) as nat);
        assert forall|k: int| 0 <= k < n implies levels_bytes(levels).subrange(
            16 * k,
            16 * k + 16,
        ) == level_bytes(#[trigger] levels[k]) by {
            if k < n - 1 {
                assert(levels_bytes(levels).subrange(16 * k, 16 * k + 16) =~= levels_bytes(
                    head,
                ).subrange(16 * k, 16 * k + 16));
                assert(head[k] == levels[k]);
            } else {
                assert(levels_bytes(levels).subrange(16 * k, 16 * k + 16) =~= level_bytes(
                    levels.last(),
                ));
            }
        }
    }
}

/// A header written and read back is the same header.
pub proof fn lemma_header_round_trip(header: RingBufferHeader)
    ensures
        header_bytes(header).len() == HEADER_SIZE,
        header_of(header_bytes(header)) == header,
{
    lemma_auto_spec_u64_to_from_le_bytes();
    let bytes = header_bytes(header);
    assert(bytes.subrange(0, 8) =~= spec_u64_to_le_bytes(header.capacity));
    assert(bytes.subrange(8, 16) =~= spec_u64_to_le_bytes(header.record_size));
    assert(bytes.subrange(16, 24) =~= spec_u64_to_le_bytes(header.write_sequence));
}

/// An order event written to a slot and read back is the same event.
pub proof fn lemma_order_round_trip(log: OrderLogs)
    ensures
        order_bytes(log).len() == ORDER_RECORD_SIZE,
        order_of(order_bytes(log)) == log,
{
    lemma_auto_spec_u64_to_from_le_bytes();
    lemma_auto_spec_u32_to_from_le_bytes();
    let bytes = order_bytes(log);
    assert(bytes.subrange(0, 8) =~= spec_u64_to_le_bytes(log.event_id));
    assert(bytes.subrange(8, 16) =~= spec_u64_to_le_bytes(log.order_id));
    assert(bytes.subrange(16, 24) =~= spec_u64_to_le_bytes(log.user_id));
    assert(bytes.subrange(24, 32) =~= spec_u64_to_le_bytes(log.price));
    assert(bytes.subrange(32, 40) =~= spec_u64_to_le_bytes(as_unsigned(log.timestamp)));
    assert(bytes.subrange(40, 44) =~= spec_u32_to_le_bytes(log.symbol));
    assert(bytes.subrange(44, 48) =~= spec_u32_to_le_bytes(log.shares_qty));
}

/// A balance change written to a slot and read back is the same change.
pub proof fn lemma_balance_round_trip(log: BalanceLogs)
    ensures
        balance_bytes(log).len() == BALANCE_RECORD_SIZE,
        balance_of(balance_bytes(log)) == log,
{
    lemma_auto_spec_u64_to_from_le_bytes();
    let bytes = balance_bytes(log);
    assert(bytes.subrange(0, 8) =~= spec_u64_to_le_bytes(log.event_id));
    assert(bytes.subrange(8, 16) =~= spec_u64_to_le_bytes(log.user_id));
    assert(bytes.subrange(16, 24) =~= spec_u64_to_le_bytes(log.order_id));
    assert(bytes.subrange(24, 32) =~= spec_u64_to_le_bytes(as_unsigned(log.delta_available)));
    assert(bytes.subrange(32, 40) =~= spec_u64_to_le_bytes(as_unsigned(log.delta_reserved)));
    assert(bytes.subrange(40, 48) =~= spec_u64_to_le_bytes(as_unsigned(log.timestamp)));
}

/// A holding change written to a slot and read back is the same change.
pub proof fn lemma_holding_round_trip(log: HoldingsLogs)
    ensures
        holding_bytes(log).len() == HOLDING_RECORD_SIZE,
        holding_of(holding_bytes(log)) == log,
{
    lemma_auto_spec_u64_to_from_le_bytes();
    lemma_auto_spec_u32_to_from_le_bytes();
    let bytes = holding_bytes(log);
    assert(bytes.subrange(0, 8) =~= spec_u64_to_le_bytes(log.event_id));
    assert(bytes.subrange(8, 16) =~= spec_u64_to_le_bytes(log.user_id));
    assert(bytes.subrange(16, 24) =~= spec_u64_to_le_bytes(log.order_id));
    assert(bytes.subrange(24, 32) =~= spec_u64_to_le_bytes(as_unsigned(log.delta_available)));
    assert(bytes.subrange(32, 40) =~= spec_u64_to_le_bytes(as_unsigned(log.delta_reserved)));
    assert(bytes.subrange(40, 48) =~= spec_u64_to_le_bytes(as_unsigned(log.timestamp)));
    assert(bytes.subrange(48, 52) =~= spec_u32_to_le_bytes(log.symbol));
}

/// A trade written to a slot and read back is the same trade.
pub proof fn lemma_trade_round_trip(log: TradeLogs)
    ensures
        trade_bytes(log).len() == TRADE_RECORD_SIZE,
        trade_of(trade_bytes(log)) == log,
{
    lemma_auto_spec_u64_to_from_le_bytes();
    lemma_auto_spec_u32_to_from_le_bytes();
    let bytes = trade_bytes(log);
    assert(bytes.subrange(0, 8) =~= spec_u64_to_le_bytes(log.buyer_order_id));
    assert(bytes.subrange(8, 16) =~= spec_u64_to_le_bytes(log.seller_order_id));
    assert(bytes.subrange(16, 24) =~= spec_u64_to_le_bytes(log.price));
    assert(bytes.subrange(24, 32) =~= spec_u64_to_le_bytes(log.quantity));
    assert(bytes.subrange(32, 40) =~= spec_u64_to_le_bytes(as_unsigned(log.timestamp)));
    assert(bytes.subrange(40, 44) =~= spec_u32_to_le_bytes(log.symbol));
}

/// A snapshot written to a slot and read back is the same snapshot.
pub proof fn lemma_snapshot_round_trip(log: OrderBookSnapShot)
    ensures
        snapshot_bytes(log).len() == SNAPSHOT_RECORD_SIZE,
        is_snapshot_of(log, snapshot_bytes(log)),
{
    lemma_auto_spec_u64_to_from_le_bytes();
    lemma_auto_spec_u32_to_from_le_bytes();
    lemma_levels_bytes(log.bids@, 20);
    lemma_levels_bytes(log.asks@, 20);
    let bytes = snapshot_bytes(log);
    let bids = levels_bytes(log.bids@);
    let asks = levels_bytes(log.asks@);
    assert(bytes.subrange(0, 8) =~= spec_u64_to_le_bytes(log.event_id));
    assert(bytes.subrange(8, 16) =~= spec_u64_to_le_bytes(as_unsigned(log.timestamp)));
    assert(bytes.subrange(16, 20) =~= spec_u32_to_le_bytes(log.symbol));
    assert(bytes.subrange(24, 344) =~= bids);
    assert(bytes.subrange(344, 664) =~= asks);
    assert forall|k: int| 0 <= k < 20 implies log.bids@[k] == #[trigger] levels_at(bytes, 24)[k] by {
        lemma_level_in_run(bytes, 24, bids, log.bids@, k);
    }
    assert forall|k: int| 0 <= k < 20 implies log.asks@[k] == #[trigger] levels_at(bytes, 344)[k] by {
        lemma_level_in_run(bytes, 344, asks, log.asks@, k);
    }
    assert(log.bids@ =~= levels_at(bytes, 24));
    assert(log.asks@ =~= levels_at(bytes, 344));
}

/// Level `k` of a run of twenty that lies at `offset` reads back as written.
proof fn lemma_level_in_run(
    bytes: Seq<u8>,
    offset: int,
    run: Seq<u8>,
    levels: Seq<PriceLevel>,
    k: int,
)
    requires
        0 <= offset,
        offset + 320 <= bytes.len(),
        levels.len() == 20,
        run == levels_bytes(levels),
        bytes.subrange(offset, offset + 320) == run,
        0 <= k < 20,
    ensures
        level_at(bytes, offset + 16 * k) == levels[k],
{
    lemma_auto_spec_u64_to_from_le_bytes();
    lemma_levels_bytes(levels, 20);
    let piece = run.subrange(16 * k, 16 * k + 16);
    assert(piece == level_bytes(levels[k]));
    assert(bytes.subrange(offset + 16 * k, offset + 16 * k + 8) =~= piece.subrange(0, 8));
    assert(bytes.subrange(offset + 16 * k + 8, offset + 16 * k + 16) =~= piece.subrange(8, 16));
    assert(piece.subrange(0, 8) =~= spec_u64_to_le_bytes(levels[k].price));
    assert(piece.subrange(8, 16) =~= spec_u64_to_le_bytes(levels[k].quantity));
}

} // verus!
