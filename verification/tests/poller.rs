use crossbeam::channel::{bounded, Receiver};
use shm_logger::channel::SendOutcome;
use shm_logger::logger::types::{
    BalanceLogs, Category, HoldingsLogs, Logs, OrderBookSnapShot, OrderLogs, PriceLevel, TradeLogs,
};
use shm_logger::shm::image::SegmentImage;
use shm_logger::shm::layout::{
    encode_balance, encode_holding, encode_order, encode_snapshot, encode_trade, record_size,
};
use shm_logger::shm::poller::{
    CategoryQueues, CategorySegments, CategorySenders, DropCounts, LogPoller,
};
use shm_logger::shm::ring::{AttachError, RingBufferHeader, ShmRingQueue};

struct Outlets {
    balance: Receiver<BalanceLogs>,
    holding: Receiver<HoldingsLogs>,
    order: Receiver<OrderLogs>,
    trade: Receiver<TradeLogs>,
    snapshot: Receiver<OrderBookSnapShot>,
}

fn attach(capacity: u64, category: Category) -> ShmRingQueue {
    let size = record_size(category);
    let header = RingBufferHeader { capacity, record_size: size, write_sequence: 0 };
    ShmRingQueue::open(Some(header), capacity, size).unwrap()
}

fn queues(capacity: u64) -> CategoryQueues {
    CategoryQueues {
        balance: attach(capacity, Category::Balance),
        holding: attach(capacity, Category::Holding),
        order: attach(capacity, Category::Order),
        trade: attach(capacity, Category::Trade),
        snapshot: attach(capacity, Category::Snapshot),
    }
}

fn poller(ring_capacity: u64, channel_capacity: usize) -> (LogPoller, Outlets) {
    let (balance, balance_rx) = bounded(channel_capacity);
    let (holding, holding_rx) = bounded(channel_capacity);
    let (order, order_rx) = bounded(channel_capacity);
    let (trade, trade_rx) = bounded(channel_capacity);
    let (snapshot, snapshot_rx) = bounded(channel_capacity);
    let queues = queues(ring_capacity);
    let senders = CategorySenders { balance, holding, order, trade, snapshot };
    let outlets = Outlets {
        balance: balance_rx,
        holding: holding_rx,
        order: order_rx,
        trade: trade_rx,
        snapshot: snapshot_rx,
    };
    (LogPoller::new(queues, senders).ok().unwrap(), outlets)
}

fn order(event_id: u64) -> OrderLogs {
    OrderLogs {
        event_id,
        order_id: 0,
        user_id: 0,
        price: 0,
        timestamp: 0,
        symbol: 0,
        shares_qty: 0,
        side: 0,
        order_event_type: 0,
        severity: 0,
    }
}

fn balance(event_id: u64) -> BalanceLogs {
    BalanceLogs {
        event_id,
        user_id: 0,
        order_id: 0,
        delta_available: 0,
        delta_reserved: 0,
        timestamp: 0,
        reason: 0,
        severity: 0,
    }
}

fn holding(event_id: u64) -> HoldingsLogs {
    HoldingsLogs {
        event_id,
        user_id: 0,
        order_id: 0,
        delta_available: 0,
        delta_reserved: 0,
        timestamp: 0,
        symbol: 0,
        reason: 0,
        severity: 0,
    }
}

fn trade(price: u64) -> TradeLogs {
    TradeLogs {
        buyer_order_id: 0,
        seller_order_id: 0,
        price,
        quantity: 0,
        timestamp: 0,
        symbol: 0,
        is_buyer_maker: false,
    }
}

fn snapshot(event_id: u64) -> OrderBookSnapShot {
    let level = PriceLevel { price: 0, quantity: 0 };
    OrderBookSnapShot { event_id, timestamp: 0, symbol: 0, bids: [level; 20], asks: [level; 20] }
}

struct Rings {
    balance: SegmentImage,
    holding: SegmentImage,
    order: SegmentImage,
    trade: SegmentImage,
    snapshot: SegmentImage,
}

impl Rings {
    fn segments(&self) -> CategorySegments<'_> {
        CategorySegments {
            balance: self.balance.bytes(),
            holding: self.holding.bytes(),
            order: self.order.bytes(),
            trade: self.trade.bytes(),
            snapshot: self.snapshot.bytes(),
        }
    }
}

fn rings(capacity: u64) -> Rings {
    Rings {
        balance: SegmentImage::new(capacity, record_size(Category::Balance)).unwrap(),
        holding: SegmentImage::new(capacity, record_size(Category::Holding)).unwrap(),
        order: SegmentImage::new(capacity, record_size(Category::Order)).unwrap(),
        trade: SegmentImage::new(capacity, record_size(Category::Trade)).unwrap(),
        snapshot: SegmentImage::new(capacity, record_size(Category::Snapshot)).unwrap(),
    }
}

const NO_DROPS: DropCounts = DropCounts { balance: 0, holding: 0, order: 0, trade: 0, snapshot: 0 };

#[test]
fn a_full_channel_drops_the_record_and_counts_it() {
    let (mut poller, outlets) = poller(8, 1);
    assert_eq!(poller.forward(Logs::OrderLogs(order(1))), SendOutcome::Sent);
    assert_eq!(poller.forward(Logs::OrderLogs(order(2))), SendOutcome::Full);
    assert_eq!(poller.forward(Logs::OrderLogs(order(3))), SendOutcome::Full);
    assert_eq!(poller.dropped(), DropCounts { order: 2, ..NO_DROPS });
    assert_eq!(outlets.order.try_recv(), Ok(order(1)));
    assert!(outlets.order.try_recv().is_err());
    assert_eq!(poller.forward(Logs::OrderLogs(order(4))), SendOutcome::Sent);
    assert_eq!(outlets.order.try_recv(), Ok(order(4)));
    assert!(outlets.order.try_recv().is_err());
}

#[test]
fn a_dropped_record_is_not_delivered_later() {
    let (mut poller, outlets) = poller(8, 1);
    let mut rings = rings(8);
    for i in 1..=3 {
        assert!(rings.order.publish(&encode_order(&order(i))));
    }
    assert_eq!(poller.run_poller(&rings.segments()), 1);
    assert_eq!(poller.run_poller(&rings.segments()), 0);
    assert_eq!(poller.dropped(), DropCounts { order: 1, ..NO_DROPS });
    assert_eq!(poller.queue(Category::Order).read_cursor(), 2);
    assert_eq!(outlets.order.try_recv(), Ok(order(1)));
    assert_eq!(poller.run_poller(&rings.segments()), 1);
    assert_eq!(outlets.order.try_recv(), Ok(order(3)));
    assert_eq!(poller.run_poller(&rings.segments()), 0);
    assert!(outlets.order.try_recv().is_err());
    assert_eq!(poller.dropped(), DropCounts { order: 1, ..NO_DROPS });
}

#[test]
fn each_record_goes_to_the_channel_of_its_category() {
    let (mut poller, outlets) = poller(8, 4);
    assert_eq!(poller.forward(Logs::BalanceLogs(balance(1))), SendOutcome::Sent);
    assert_eq!(poller.forward(Logs::HoldingsLogs(holding(2))), SendOutcome::Sent);
    assert_eq!(poller.forward(Logs::OrderLogs(order(3))), SendOutcome::Sent);
    assert_eq!(poller.forward(Logs::TradeLogs(trade(4))), SendOutcome::Sent);
    assert_eq!(poller.forward(Logs::OrderBookSnapShot(snapshot(5))), SendOutcome::Sent);
    assert_eq!(outlets.balance.try_recv(), Ok(balance(1)));
    assert_eq!(outlets.holding.try_recv(), Ok(holding(2)));
    assert_eq!(outlets.order.try_recv(), Ok(order(3)));
    assert_eq!(outlets.trade.try_recv(), Ok(trade(4)));
    assert_eq!(outlets.snapshot.try_recv(), Ok(snapshot(5)));
    assert_eq!(poller.dropped(), NO_DROPS);
}

#[test]
fn a_closed_channel_counts_as_a_drop() {
    let (mut poller, outlets) = poller(8, 4);
    drop(outlets.trade);
    assert_eq!(poller.forward(Logs::TradeLogs(trade(1))), SendOutcome::Disconnected);
    assert_eq!(poller.dropped(), DropCounts { trade: 1, ..NO_DROPS });
}

#[test]
fn one_cycle_takes_one_record_from_each_ring() {
    let (mut poller, outlets) = poller(8, 16);
    let mut rings = rings(8);
    for i in 1..=2 {
        assert!(rings.balance.publish(&encode_balance(&balance(i))));
        assert!(rings.holding.publish(&encode_holding(&holding(i))));
        assert!(rings.order.publish(&encode_order(&order(i))));
        assert!(rings.snapshot.publish(&encode_snapshot(&snapshot(i))));
    }
    assert_eq!(poller.run_poller(&rings.segments()), 4);
    assert_eq!(outlets.balance.try_recv(), Ok(balance(1)));
    assert_eq!(outlets.holding.try_recv(), Ok(holding(1)));
    assert_eq!(outlets.order.try_recv(), Ok(order(1)));
    assert_eq!(outlets.snapshot.try_recv(), Ok(snapshot(1)));
    assert!(outlets.trade.try_recv().is_err());
    assert!(outlets.order.try_recv().is_err());
    assert_eq!(poller.queue(Category::Trade).read_cursor(), 0);
    assert_eq!(poller.queue(Category::Balance).read_cursor(), 1);
    assert_eq!(poller.run_poller(&rings.segments()), 4);
    assert_eq!(poller.run_poller(&rings.segments()), 0);
    assert_eq!(outlets.order.try_recv(), Ok(order(2)));
}

#[test]
fn a_lapped_ring_resumes_at_the_oldest_record() {
    let (mut poller, outlets) = poller(8, 16);
    let mut rings = rings(8);
    for i in 0..20 {
        assert!(rings.trade.publish(&encode_trade(&trade(i))));
    }
    assert_eq!(poller.run_poller(&rings.segments()), 1);
    assert_eq!(outlets.trade.try_recv(), Ok(trade(12)));
    assert_eq!(poller.queue(Category::Trade).skipped(), 12);
    assert_eq!(poller.dropped(), NO_DROPS);
}

#[test]
fn a_ring_of_another_size_is_left_alone() {
    let (mut poller, outlets) = poller(8, 16);
    let mut rings = rings(4);
    assert!(rings.order.publish(&encode_order(&order(1))));
    assert_eq!(poller.run_poller(&rings.segments()), 0);
    assert_eq!(poller.queue(Category::Order).read_cursor(), 0);
    assert!(outlets.order.try_recv().is_err());
}

#[test]
fn readers_of_the_wrong_record_size_are_refused() {
    let (balance, _b) = bounded(1);
    let (holding, _h) = bounded(1);
    let (order, _o) = bounded(1);
    let (trade, _t) = bounded(1);
    let (snapshot, _s) = bounded(1);
    let mut mixed = queues(8);
    mixed.trade = attach(8, Category::Order);
    let senders = CategorySenders { balance, holding, order, trade, snapshot };
    assert_eq!(LogPoller::new(mixed, senders).err(), Some(AttachError::RecordSizeMismatch));
}

#[test]
fn outcomes_are_booked_by_category() {
    let (mut poller, _outlets) = poller(8, 16);
    poller.note_outcome(Category::Balance, SendOutcome::Sent);
    poller.note_outcome(Category::Balance, SendOutcome::Full);
    poller.note_outcome(Category::Snapshot, SendOutcome::Disconnected);
    poller.note_outcome(Category::Snapshot, SendOutcome::Full);
    assert_eq!(poller.dropped(), DropCounts { balance: 1, snapshot: 2, ..NO_DROPS });
}

#[test]
fn polling_a_ring_hands_out_the_decoded_record() {
    let (mut poller, outlets) = poller(8, 16);
    let mut rings = rings(8);
    assert_eq!(poller.poll_ring(Category::Holding, rings.holding.bytes()), None);
    assert!(rings.holding.publish(&encode_holding(&holding(7))));
    assert!(rings.holding.publish(&encode_holding(&holding(8))));
    assert_eq!(
        poller.poll_ring(Category::Holding, rings.holding.bytes()),
        Some(Logs::HoldingsLogs(holding(7)))
    );
    assert_eq!(poller.queue(Category::Holding).read_cursor(), 1);
    assert_eq!(poller.poll_ring(Category::Holding, rings.order.bytes()), None);
    assert_eq!(poller.poll_ring(Category::Holding, &[]), None);
    assert_eq!(poller.queue(Category::Holding).read_cursor(), 1);
    assert_eq!(
        poller.poll_ring(Category::Holding, rings.holding.bytes()),
        Some(Logs::HoldingsLogs(holding(8)))
    );
    assert_eq!(poller.poll_ring(Category::Holding, rings.holding.bytes()), None);
    assert_eq!(poller.queue(Category::Order).read_cursor(), 0);
    assert_eq!(poller.dropped(), NO_DROPS);
    assert!(outlets.holding.try_recv().is_err());
}
