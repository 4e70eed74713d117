//! The poller: one non-blocking dequeue attempt per ring and cycle, each
//! record handed to its category's channel without ever waiting.
//!
//! A record that finds its channel full is dropped and counted; the ring's
//! cursor has moved past it by then, so it is never delivered later.

use vstd::prelude::*;
use crossbeam::channel::Sender;
use crate::channel::{try_send, SendOutcome};
use crate::logger::types::{
    BalanceLogs, Category, HoldingsLogs, Logs, OrderBookSnapShot, OrderLogs, TradeLogs,
};
use crate::shm::layout::{decode_record, header_of, is_record_of, record_size, record_size_of};
use crate::shm::ring::{
    dequeue_from, dequeue_from_state, dequeue_outcome, AttachError, ReaderView, ShmRingQueue,
};

verus! {

/// The readers of the five rings.
pub struct CategoryQueues {
    pub balance: ShmRingQueue,
    pub holding: ShmRingQueue,
    pub order: ShmRingQueue,
    pub trade: ShmRingQueue,
    pub snapshot: ShmRingQueue,
}

/// The sending ends of the five channels.
pub struct CategorySenders {
    pub balance: Sender<BalanceLogs>,
    pub holding: Sender<HoldingsLogs>,
    pub order: Sender<OrderLogs>,
    pub trade: Sender<TradeLogs>,
    pub snapshot: Sender<OrderBookSnapShot>,
}

/// The bytes of the five segments, as last seen.
pub struct CategorySegments<'a> {
    pub balance: &'a [u8],
    pub holding: &'a [u8],
    pub order: &'a [u8],
    pub trade: &'a [u8],
    pub snapshot: &'a [u8],
}

/// Records dropped so far, by category.
#[derive(Clone, Copy, Debug, PartialEq, Eq, Structural)]
pub struct DropCounts {
    pub balance: u64,
    pub holding: u64,
    pub order: u64,
    pub trade: u64,
    pub snapshot: u64,
}

/// Mathematical state of a poller.
pub struct PollerView {
    pub balance: ReaderView,
    pub holding: ReaderView,
    pub order: ReaderView,
    pub trade: ReaderView,
    pub snapshot: ReaderView,
    pub dropped: DropCounts,
}

/// A count one higher, stopping at the largest value.
pub open spec fn one_more(count: u64) -> u64 {
    if count < u64::MAX {
        (count + 1) as u64
    } else {
        count
    }
}

impl DropCounts {
    /// The count of one category.
    pub open spec fn of(self, category: Category) -> u64 {
        match category {
            Category::Balance => self.balance,
            Category::Holding => self.holding,
            Category::Order => self.order,
            Category::Trade => self.trade,
            Category::Snapshot => self.snapshot,
        }
    }

    /// The counts after one more drop in `category`; a count at its largest value stays.
    pub open spec fn bump(self, category: Category) -> DropCounts {
        match category {
            Category::Balance => DropCounts { balance: one_more(self.balance), ..self },
            Category::Holding => DropCounts { holding: one_more(self.holding), ..self },
            Category::Order => DropCounts { order: one_more(self.order), ..self },
            Category::Trade => DropCounts { trade: one_more(self.trade), ..self },
            Category::Snapshot => DropCounts { snapshot: one_more(self.snapshot), ..self },
        }
    }

    /// The counts after an attempt to send a record of `category` ended in `outcome`.
    pub open spec fn after(self, category: Category, outcome: SendOutcome) -> DropCounts {
        if outcome == SendOutcome::Sent {
            self
        } else {
            self.bump(category)
        }
    }
}

impl PollerView {
    /// The reader of one category.
    pub open spec fn queue(self, category: Category) -> ReaderView {
        match category {
            Category::Balance => self.balance,
            Category::Holding => self.holding,
            Category::Order => self.order,
            Category::Trade => self.trade,
            Category::Snapshot => self.snapshot,
        }
    }

    /// This state with the reader of one category replaced.
    pub open spec fn with_queue(self, category: Category, queue: ReaderView) -> PollerView {
        match category {
            Category::Balance => PollerView { balance: queue, ..self },
            Category::Holding => PollerView { holding: queue, ..self },
            Category::Order => PollerView { order: queue, ..self },
            Category::Trade => PollerView { trade: queue, ..self },
            Category::Snapshot => PollerView { snapshot: queue, ..self },
        }
    }

    /// Every reader reads records of the size of its category.
    pub open spec fn sized(self) -> bool {
        &&& self.balance.record_size == record_size_of(Category::Balance)
        &&& self.holding.record_size == record_size_of(Category::Holding)
        &&& self.order.record_size == record_size_of(Category::Order)
        &&& self.trade.record_size == record_size_of(Category::Trade)
        &&& self.snapshot.record_size == record_size_of(Category::Snapshot)
    }
}

impl<'a> CategorySegments<'a> {
    /// The bytes of one category's segment.
    pub open spec fn of(self, category: Category) -> Seq<u8> {
        match category {
            Category::Balance => self.balance@,
            Category::Holding => self.holding@,
            Category::Order => self.order@,
            Category::Trade => self.trade@,
            Category::Snapshot => self.snapshot@,
        }
    }
}

/// A record is due: the segment can be read and holds something the reader
/// has not passed yet.
pub open spec fn record_due(before: ReaderView, bytes: Seq<u8>) -> bool {
    dequeue_from(before, bytes) matches Ok(Some(_))
}

/// One if a record is due, else zero.
pub open spec fn due_one(before: ReaderView, bytes: Seq<u8>) -> nat {
    if record_due(before, bytes) {
        1
    } else {
        0
    }
}

/// How many of the five rings have a record due for a poller in state `v`.
pub open spec fn due_count(v: PollerView, segments: CategorySegments) -> nat {
    due_one(v.balance, segments.balance@) + due_one(v.holding, segments.holding@) + due_one(
        v.order,
        segments.order@,
    ) + due_one(v.trade, segments.trade@) + due_one(v.snapshot, segments.snapshot@)
}

/// One category's share of a cycle: the reader has made its attempt, and the
/// drop count has moved by one only if a record was due.
pub open spec fn served(
    before: PollerView,
    category: Category,
    bytes: Seq<u8>,
    after: PollerView,
) -> bool {
    &&& after.queue(category) == dequeue_from_state(before.queue(category), bytes)
    &&& after.dropped.of(category) == before.dropped.of(category) || (record_due(
        before.queue(category),
        bytes,
    ) && after.dropped.of(category) == one_more(before.dropped.of(category)))
}

/// One category's step of a cycle: its reader has made its attempt, the
/// other readers are as before, and the only count that can have moved is
/// this category's, by one, and only if a record was due.
pub open spec fn stepped(
    before: PollerView,
    category: Category,
    bytes: Seq<u8>,
    after: PollerView,
) -> bool {
    &&& after == (PollerView {
        dropped: after.dropped,
        ..before.with_queue(category, dequeue_from_state(before.queue(category), bytes))
    })
    &&& after.dropped == before.dropped || (record_due(before.queue(category), bytes)
        && after.dropped == before.dropped.bump(category))
}

/// The poller's state: a reader per ring, a sending end per channel, and the drop counts.
pub struct LogPoller {
    queues: CategoryQueues,
    senders: CategorySenders,
    dropped: DropCounts,
}

impl View for LogPoller {
    type V = PollerView;

    closed spec fn view(&self) -> PollerView {
        PollerView {
            balance: self.queues.balance@,
            holding: self.queues.holding@,
            order: self.queues.order@,
            trade: self.queues.trade@,
            snapshot: self.queues.snapshot@,
            dropped: self.dropped,
        }
    }
}

/// The state of a poller that has just been put together from `queues`.
pub open spec fn fresh_poller(queues: CategoryQueues) -> PollerView {
    PollerView {
        balance: queues.balance@,
        holding: queues.holding@,
        order: queues.order@,
        trade: queues.trade@,
        snapshot: queues.snapshot@,
        dropped: DropCounts { balance: 0, holding: 0, order: 0, trade: 0, snapshot: 0 },
    }
}

impl LogPoller {
    /// A poller over attached readers and the channels' sending ends, with
    /// no drops counted. Refused when a reader was attached with a record
    /// size that is not its category's.
    pub fn new(queues: CategoryQueues, senders: CategorySenders) -> (r: Result<
        LogPoller,
        AttachError,
    >)
        ensures
            fresh_poller(queues).sized() ==> r is Ok && r->Ok_0@ == fresh_poller(queues),
            !fresh_poller(queues).sized() ==> r == Err::<LogPoller, AttachError>(
                AttachError::RecordSizeMismatch,
            ),
    {
        if queues.balance.record_size() != record_size(Category::Balance)
            || queues.holding.record_size() != record_size(Category::Holding)
            || queues.order.record_size() != record_size(Category::Order)
            || queues.trade.record_size() != record_size(Category::Trade)
            || queues.snapshot.record_size() != record_size(Category::Snapshot) {
            return Err(AttachError::RecordSizeMismatch);
        }
        Ok(
            LogPoller {
                queues,
                senders,
                dropped: DropCounts { balance: 0, holding: 0, order: 0, trade: 0, snapshot: 0 },
            },
        )
    }

    /// Records dropped so far, by category.
    pub fn dropped(&self) -> (r: DropCounts)
        ensures
            r == self@.dropped,
    {
        self.dropped
    }

    /// The reader of one category.
    pub fn queue(&self, category: Category) -> (r: &ShmRingQueue)
        ensures
            r@ == self@.queue(category),
    {
        match category {
            Category::Balance => &self.queues.balance,
            Category::Holding => &self.queues.holding,
            Category::Order => &self.queues.order,
            Category::Trade => &self.queues.trade,
            Category::Snapshot => &self.queues.snapshot,
        }
    }

    /// Books the end of an attempt to send a record of `category`: anything
    /// but `Sent` is one more drop in that category.
    pub fn note_outcome(&mut self, category: Category, outcome: SendOutcome)
        ensures
            final(self)@ == (PollerView {
                dropped: old(self)@.dropped.after(category, outcome),
                ..old(self)@
            }),
    {
        if outcome != SendOutcome::Sent {
            match category {
                Category::Balance => {
                    if self.dropped.balance < u64::MAX {
                        self.dropped.balance = self.dropped.balance + 1;
                    }
                },
                Category::Holding => {
                    if self.dropped.holding < u64::MAX {
                        self.dropped.holding = self.dropped.holding + 1;
                    }
                },
                Category::Order => {
                    if self.dropped.order < u64::MAX {
                        self.dropped.order = self.dropped.order + 1;
                    }
                },
                Category::Trade => {
                    if self.dropped.trade < u64::MAX {
                        self.dropped.trade = self.dropped.trade + 1;
                    }
                },
                Category::Snapshot => {
                    if self.dropped.snapshot < u64::MAX {
                        self.dropped.snapshot = self.dropped.snapshot + 1;
                    }
                },
            }
        }
    }

    /// Hands `record` to the channel of its category without waiting, and
    /// books how that ended. The record is gone either way: nothing of it
    /// stays with the poller.
    pub fn forward(&mut self, record: Logs) -> (r: SendOutcome)
        ensures
            final(self)@ == (PollerView {
                dropped: old(self)@.dropped.after(record.category_of(), r),
                ..old(self)@
            }),
    {
        let outcome = match record {
            Logs::BalanceLogs(l) => try_send(&self.senders.balance, l),
            Logs::HoldingsLogs(l) => try_send(&self.senders.holding, l),
            Logs::OrderLogs(l) => try_send(&self.senders.order, l),
            Logs::TradeLogs(l) => try_send(&self.senders.trade, l),
            Logs::OrderBookSnapShot(l) => try_send(&self.senders.snapshot, l),
        };
        self.note_outcome(record.category(), outcome);
        outcome
    }
}

/// A step serves its own category and leaves what the others were served untouched.
pub proof fn lemma_step_keeps_served(
    start: PollerView,
    before: PollerView,
    after: PollerView,
    category: Category,
    bytes: Seq<u8>,
)
    requires
        stepped(before, category, bytes, after),
    ensures
        before.queue(category) == start.queue(category) && before.dropped.of(category)
            == start.dropped.of(category) ==> served(start, category, bytes, after),
        forall|other: Category, b: Seq<u8>|
            other != category && #[trigger] served(start, other, b, before) ==> served(
                start,
                other,
                b,
                after,
            ),
        forall|other: Category|
            other != category ==> after.queue(other) == before.queue(other)
                && #[trigger] after.dropped.of(other) == before.dropped.of(other),
{
}

/// A drop is final: once a step has found a record due, the reader stands
/// just behind that record however the send ended, and no later attempt
/// settles on that record or an older one.
pub proof fn lemma_dropped_record_not_redelivered(
    before: PollerView,
    category: Category,
    bytes: Seq<u8>,
    after: PollerView,
    later: nat,
)
    requires
        stepped(before, category, bytes, after),
        record_due(before.queue(category), bytes),
        before.queue(category).capacity > 0,
        header_of(bytes).write_sequence <= later <= u64::MAX,
    ensures
        dequeue_outcome(before.queue(category), header_of(bytes).write_sequence as nat) matches Ok(
            Some(read),
        ) && after.queue(category).read_cursor == read.sequence + 1 && (dequeue_outcome(
            after.queue(category),
            later,
        ) matches Ok(Some(next)) ==> next.sequence > read.sequence),
{
}

impl LogPoller {
    /// One dequeue attempt on the segment of `category`: the record in the
    /// slot the attempt settles on, if one is due. A segment that cannot be
    /// read counts as nothing to read and leaves the reader as it was.
    pub fn poll_ring(&mut self, category: Category, segment: &[u8]) -> (r: Option<Logs>)
        requires
            old(self)@.sized(),
        ensures
            final(self)@ == old(self)@.with_queue(
                category,
                dequeue_from_state(old(self)@.queue(category), segment@),
            ),
            r is Some <==> record_due(old(self)@.queue(category), segment@),
            r matches Some(record) ==> record.category_of() == category && is_record_of(
                record,
                category,
                dequeue_from(old(self)@.queue(category), segment@)->Ok_0->Some_0,
            ),
    {
        let found = match category {
            Category::Balance => self.queues.balance.dequeue(segment),
            Category::Holding => self.queues.holding.dequeue(segment),
            Category::Order => self.queues.order.dequeue(segment),
            Category::Trade => self.queues.trade.dequeue(segment),
            Category::Snapshot => self.queues.snapshot.dequeue(segment),
        };
        match found {
            Ok(Some(slot)) => decode_record(category, slot),
            _ => None,
        }
    }

    /// One category's step of a cycle: a dequeue attempt and, if it found a
    /// record, the attempt to send it. Answers whether a record reached its channel.
    fn step(&mut self, category: Category, segment: &[u8]) -> (sent: bool)
        requires
            old(self)@.sized(),
        ensures
            final(self)@.sized(),
            stepped(old(self)@, category, segment@, final(self)@),
            sent ==> record_due(old(self)@.queue(category), segment@),
    {
        match self.poll_ring(category, segment) {
            Some(record) => self.forward(record) == SendOutcome::Sent,
            None => false,
        }
    }

    /// One cycle: one dequeue attempt per ring, in the order balance,
    /// holding, order, trade, snapshot, each record found handed straight to
    /// its channel. Answers how many records reached a channel.
    pub fn run_poller(&mut self, segments: &CategorySegments) -> (sent: usize)
        requires
            old(self)@.sized(),
        ensures
            final(self)@.sized(),
            sent <= due_count(old(self)@, *segments),
            served(old(self)@, Category::Balance, segments.balance@, final(self)@),
            served(old(self)@, Category::Holding, segments.holding@, final(self)@),
            served(old(self)@, Category::Order, segments.order@, final(self)@),
            served(old(self)@, Category::Trade, segments.trade@, final(self)@),
            served(old(self)@, Category::Snapshot, segments.snapshot@, final(self)@),
    {
        let ghost start = self@;
        let mut sent: usize = 0;
        if self.step(Category::Balance, segments.balance) {
            sent = sent + 1;
        }
        let ghost s1 = self@;
        proof {
            lemma_step_keeps_served(start, start, s1, Category::Balance, segments.balance@);
        }
        if self.step(Category::Holding, segments.holding) {
            sent = sent + 1;
        }
        let ghost s2 = self@;
        proof {
            lemma_step_keeps_served(start, s1, s2, Category::Holding, segments.holding@);
        }
        if self.step(Category::Order, segments.order) {
            sent = sent + 1;
        }
        let ghost s3 = self@;
        proof {
            lemma_step_keeps_served(start, s2, s3, Category::Order, segments.order@);
        }
        if self.step(Category::Trade, segments.trade) {
            sent = sent + 1;
        }
        let ghost s4 = self@;
        proof {
            lemma_step_keeps_served(start, s3, s4, Category::Trade, segments.trade@);
        }
        if self.step(Category::Snapshot, segments.snapshot) {
            sent = sent + 1;
        }
        proof {
            lemma_step_keeps_served(start, s4, self@, Category::Snapshot, segments.snapshot@);
        }
        sent
    }
}

} // verus!
