//! The fixed-size records that travel from the rings to the flusher.
//!
//! Which kind a record is follows from the ring it came from, not from a tag
//! inside it. Every `timestamp` counts nanoseconds since the Unix epoch.

use vstd::prelude::*;

verus! {

/// Number of price levels on each side of an order-book snapshot.
pub const BOOK_DEPTH: usize = 20;

/// An order event. `side`: 0 bid, 1 ask. `order_event_type`: 0 received,
/// 1 matched, 2 canceled. `severity`: 0 info, 1 error, 2 debug.
#[derive(Clone, Copy, Debug, PartialEq, Eq, Structural)]
pub struct OrderLogs {
    pub event_id: u64,
    pub order_id: u64,
    pub user_id: u64,
    pub price: u64,
    pub timestamp: i64,
    pub symbol: u32,
    pub shares_qty: u32,
    pub side: u8,
    pub order_event_type: u8,
    pub severity: u8,
}

/// A change of a user's balance. `reason`: 0 lock, 1 update.
#[derive(Clone, Copy, Debug, PartialEq, Eq, Structural)]
pub struct BalanceLogs {
    pub event_id: u64,
    pub user_id: u64,
    pub order_id: u64,
    pub delta_available: i64,
    pub delta_reserved: i64,
    pub timestamp: i64,
    pub reason: u8,
    pub severity: u8,
}

/// A change of a user's holding of one instrument. `reason`: 0 lock, 1 fill.
#[derive(Clone, Copy, Debug, PartialEq, Eq, Structural)]
pub struct HoldingsLogs {
    pub event_id: u64,
    pub user_id: u64,
    pub order_id: u64,
    pub delta_available: i64,
    pub delta_reserved: i64,
    pub timestamp: i64,
    pub symbol: u32,
    pub reason: u8,
    pub severity: u8,
}

/// A trade between a buying and a selling order.
#[derive(Clone, Copy, Debug, PartialEq, Eq, Structural)]
pub struct TradeLogs {
    pub buyer_order_id: u64,
    pub seller_order_id: u64,
    pub price: u64,
    pub quantity: u64,
    pub timestamp: i64,
    pub symbol: u32,
    pub is_buyer_maker: bool,
}

/// One level of an order book.
#[derive(Clone, Copy, Debug, PartialEq, Eq, Structural)]
pub struct PriceLevel {
    pub price: u64,
    pub quantity: u64,
}

/// The best `BOOK_DEPTH` levels of both sides of one instrument's book.
#[derive(Clone, Copy, Debug, PartialEq, Eq)]
pub struct OrderBookSnapShot {
    pub event_id: u64,
    pub timestamp: i64,
    pub symbol: u32,
    pub bids: [PriceLevel; 20],
    pub asks: [PriceLevel; 20],
}

/// A record of any category.
#[derive(Clone, Copy, Debug, PartialEq, Eq)]
pub enum Logs {
    OrderLogs(OrderLogs),
    BalanceLogs(BalanceLogs),
    HoldingsLogs(HoldingsLogs),
    TradeLogs(TradeLogs),
    OrderBookSnapShot(OrderBookSnapShot),
}

/// The five independent streams, in the order in which they are served.
#[derive(Clone, Copy, Debug, PartialEq, Eq, Structural)]
pub enum Category {
    Balance,
    Holding,
    Order,
    Trade,
    Snapshot,
}

impl Logs {
    /// The stream a record belongs to.
    pub open spec fn category_of(self) -> Category {
        match self {
            Logs::OrderLogs(_) => Category::Order,
            Logs::BalanceLogs(_) => Category::Balance,
            Logs::HoldingsLogs(_) => Category::Holding,
            Logs::TradeLogs(_) => Category::Trade,
            Logs::OrderBookSnapShot(_) => Category::Snapshot,
        }
    }

    /// The stream a record belongs to.
    pub fn category(&self) -> (r: Category)
        ensures
            r == self.category_of(),
    {
        match self {
            Logs::OrderLogs(_) => Category::Order,
            Logs::BalanceLogs(_) => Category::Balance,
            Logs::HoldingsLogs(_) => Category::Holding,
            Logs::TradeLogs(_) => Category::Trade,
            Logs::OrderBookSnapShot(_) => Category::Snapshot,
        }
    }

    /// The record's time, in nanoseconds since the Unix epoch.
    pub open spec fn timestamp_of(self) -> i64 {
        match self {
            Logs::OrderLogs(l) => l.timestamp,
            Logs::BalanceLogs(l) => l.timestamp,
            Logs::HoldingsLogs(l) => l.timestamp,
            Logs::TradeLogs(l) => l.timestamp,
            Logs::OrderBookSnapShot(l) => l.timestamp,
        }
    }

    /// The record's time, in nanoseconds since the Unix epoch.
    pub fn timestamp(&self) -> (r: i64)
        ensures
            r == self.timestamp_of(),
    {
        match self {
            Logs::OrderLogs(l) => l.timestamp,
            Logs::BalanceLogs(l) => l.timestamp,
            Logs::HoldingsLogs(l) => l.timestamp,
            Logs::TradeLogs(l) => l.timestamp,
            Logs::OrderBookSnapShot(l) => l.timestamp,
        }
    }
}

/// An unsigned 64-bit value read as signed: the same 64 bits in two's complement.
pub open spec fn as_signed(x: u64) -> i64 {
    if x <= i64::MAX {
        x as i64
    } else {
        (x - 0x1_0000_0000_0000_0000) as i64
    }
}

/// The bits of a signed 64-bit integer, read as unsigned.
pub open spec fn as_unsigned(x: i64) -> u64 {
    if x >= 0 {
        x as u64
    } else {
        (x + 0x1_0000_0000_0000_0000) as u64
    }
}

/// An unsigned 64-bit value read as signed.
pub fn to_signed(x: u64) -> (r: i64)
    ensures
        r == as_signed(x),
{
    if x <= 0x7fff_ffff_ffff_ffff {
        x as i64
    } else {
        ((x - 0x8000_0000_0000_0000) as i64) + i64::MIN
    }
}

/// The bits of a signed 64-bit integer, read as unsigned.
pub fn to_unsigned(x: i64) -> (r: u64)
    ensures
        r == as_unsigned(x),
{
    if x >= 0 {
        x as u64
    } else {
        ((x - i64::MIN) as u64) + 0x8000_0000_0000_0000
    }
}

/// Reading a signed integer's bits as unsigned and back gives the integer, and the other way round.
pub proof fn lemma_signed_round_trip(x: i64)
    ensures
        as_signed(as_unsigned(x)) == x,
        forall|y: u64| as_unsigned(#[trigger] as_signed(y)) == y,
{
}

} // verus!
