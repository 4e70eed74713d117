//! The flusher: drains the category channels, encodes what arrives into rows,
//! and says when the rows are to be sent.
//!
//! Rows of order, balance, holding and trade records wait in a batch that is
//! sent once it holds `row_limit` rows or once `flush_interval_ns` has passed
//! since the last send. A snapshot never joins the batch: it waits alone and
//! is sent before anything else happens, and its channel is looked at before
//! every decision to send the batch.
//!
//! Sending is the caller's part. `run` answers what to do next; the caller
//! does it and reports how it ended with `batch_flushed` or
//! `snapshot_flushed`. Rows leave a buffer only when they were delivered or
//! when the sink has refused them for good.

use vstd::prelude::*;
use crossbeam::channel::Receiver;
use questdb::ingress::Buffer;
use crate::channel::{try_recv, Received};
use crate::logger::row::{
    balance_row, balance_row_view, holding_row, holding_row_view, order_row, order_row_view,
    row_view_of, snapshot_row, snapshot_row_view, trade_row, trade_row_view, Row, RowView,
};
use crate::logger::sink::{
    append_outcome, buffer_ops, lemma_record_rows_accepted, row_accepted, rows_ops, EncodeError,
    LineProtocol, RowBuffer,
};
use crate::logger::types::{
    BalanceLogs, Category, HoldingsLogs, Logs, OrderBookSnapShot, OrderLogs, TradeLogs,
};

verus! {

/// When to send and how much to take in.
#[derive(Clone, Copy, Debug, PartialEq, Eq, Structural)]
pub struct FlushPolicy {
    /// Rows at which the batch is sent.
    pub row_limit: usize,
    /// Nanoseconds after the last send at which the batch is sent.
    pub flush_interval_ns: u64,
    /// Most records taken from one channel in one cycle.
    pub drain_ceiling: usize,
    /// Nanoseconds to pause after a cycle that produced no row.
    pub idle_backoff_ns: u64,
    /// Rows the batch may hold while the sink is out of reach; further records are turned away.
    pub max_buffered_rows: usize,
}

/// What the caller is to do next.
#[derive(Clone, Copy, Debug, PartialEq, Eq, Structural)]
pub enum FlusherAction {
    /// Send the snapshot buffer, alone, now.
    FlushSnapshot,
    /// Send the batch now.
    FlushBatch,
    /// Nothing to send; run the next cycle.
    Continue,
    /// The cycle produced no row; pause for the idle backoff, then run the next cycle.
    Idle,
}

/// How a send ended, as the caller reports it.
#[derive(Clone, Copy, Debug, PartialEq, Eq, Structural)]
pub enum FlushReport {
    /// The sink has the rows.
    Delivered,
    /// The rows did not reach the sink; the same rows may be sent again.
    Failed,
    /// The sink will never accept these rows.
    Refused,
}

/// Mathematical state of a flusher.
pub struct FlusherView {
    pub policy: FlushPolicy,
    /// Rows waiting in the batch, oldest first.
    pub batch: Seq<RowView>,
    /// Snapshot rows waiting to be sent on their own.
    pub snapshot: Seq<RowView>,
    /// Time of the last send of the batch.
    pub last_flush: u64,
    /// Records that could not be turned into a buffered row.
    pub encode_failures: u64,
    /// Rows thrown away because the sink refused them.
    pub rows_discarded: u64,
}

/// The rows still waiting after a send of `rows` ended as reported: only a
/// failed send keeps them.
pub open spec fn after_send(rows: Seq<RowView>, report: FlushReport) -> Seq<RowView> {
    if report == FlushReport::Failed {
        rows
    } else {
        Seq::empty()
    }
}

/// The count of discarded rows after a send of `rows` ended as reported,
/// stopping at the largest value.
pub open spec fn discarded_after(count: u64, rows: Seq<RowView>, report: FlushReport) -> u64 {
    if report != FlushReport::Refused {
        count
    } else if count + rows.len() <= u64::MAX {
        (count + rows.len()) as u64
    } else {
        u64::MAX
    }
}

/// Nanoseconds from `last` to `now`; zero if the clock reads earlier than `last`.
pub open spec fn elapsed_since(last: u64, now: u64) -> nat {
    if now >= last {
        (now - last) as nat
    } else {
        0
    }
}

/// The batch is to be sent: it has reached the row limit, or the interval has passed.
pub open spec fn flush_due(policy: FlushPolicy, rows: nat, elapsed: nat) -> bool {
    rows >= policy.row_limit || elapsed >= policy.flush_interval_ns
}

/// The action owed in a state, given that the cycle's intake is over:
/// a waiting snapshot goes first, then a due batch.
pub open spec fn action_owed(v: FlusherView, now: u64, produced: bool) -> FlusherAction {
    if v.snapshot.len() > 0 {
        FlusherAction::FlushSnapshot
    } else if flush_due(v.policy, v.batch.len(), elapsed_since(v.last_flush, now)) {
        FlusherAction::FlushBatch
    } else if produced {
        FlusherAction::Continue
    } else {
        FlusherAction::Idle
    }
}

/// The batch of a flusher is due at `now`.
pub open spec fn batch_due(v: FlusherView, now: u64) -> bool {
    flush_due(v.policy, v.batch.len(), elapsed_since(v.last_flush, now))
}

/// A failure count one higher, stopping at the largest value.
pub open spec fn bumped(count: u64) -> u64 {
    if count < u64::MAX {
        (count + 1) as u64
    } else {
        count
    }
}

/// The most rows a buffer may hold: the batch is capped by the policy, the
/// snapshot buffer only by what can be counted.
pub open spec fn row_ceiling(v: FlusherView, is_snapshot: bool) -> nat {
    if is_snapshot {
        usize::MAX as nat
    } else {
        v.policy.max_buffered_rows as nat
    }
}

/// The rows waiting in the buffer a record of the given kind goes to.
pub open spec fn rows_waiting(v: FlusherView, is_snapshot: bool) -> Seq<RowView> {
    if is_snapshot {
        v.snapshot
    } else {
        v.batch
    }
}

/// What taking in a row answers: a negative timestamp is refused first,
/// then a buffer at its ceiling, then a row the encoder does not accept.
pub open spec fn absorb_result(v: FlusherView, is_snapshot: bool, row: RowView) -> Result<
    (),
    EncodeError,
> {
    if row.timestamp < 0 {
        Err(EncodeError::NegativeTimestamp)
    } else if rows_waiting(v, is_snapshot).len() >= row_ceiling(v, is_snapshot) {
        Err(EncodeError::Full)
    } else if !row_accepted(row) {
        Err(EncodeError::Rejected)
    } else {
        Ok(())
    }
}

/// What taking in a record answers. The rows of records are always
/// accepted by the encoder, so only the timestamp and the ceiling decide.
pub open spec fn record_result(v: FlusherView, is_snapshot: bool, timestamp: i64) -> Result<
    (),
    EncodeError,
> {
    if timestamp < 0 {
        Err(EncodeError::NegativeTimestamp)
    } else if rows_waiting(v, is_snapshot).len() >= row_ceiling(v, is_snapshot) {
        Err(EncodeError::Full)
    } else {
        Ok(())
    }
}

/// How a flusher changes when taking in a row has answered `r`.
///
/// A snapshot's row goes to the snapshot buffer and leaves the batch alone;
/// any other row goes to the batch and leaves the snapshot buffer alone. A
/// row that is refused changes neither, and is counted.
pub open spec fn absorbed(
    before: FlusherView,
    is_snapshot: bool,
    row: RowView,
    r: Result<(), EncodeError>,
    after: FlusherView,
) -> bool {
    &&& after.policy == before.policy
    &&& after.last_flush == before.last_flush
    &&& after.rows_discarded == before.rows_discarded
    &&& after.encode_failures == if r is Ok {
        before.encode_failures
    } else {
        bumped(before.encode_failures)
    }
    &&& if is_snapshot {
        &&& after.batch == before.batch
        &&& append_outcome(before.snapshot, row, r, after.snapshot)
    } else {
        &&& after.snapshot == before.snapshot
        &&& append_outcome(before.batch, row, r, after.batch)
    }
}

impl FlushPolicy {
    /// The policy used in production: 256 rows or 10 ms, at most 256 records
    /// per channel and cycle, 50 ms of idle backoff, and at most 65536 rows held.
    pub fn standard() -> (r: FlushPolicy)
        ensures
            r == (FlushPolicy {
                row_limit: 256,
                flush_interval_ns: 10_000_000,
                drain_ceiling: 256,
                idle_backoff_ns: 50_000_000,
                max_buffered_rows: 65536,
            }),
    {
        FlushPolicy {
            row_limit: 256,
            flush_interval_ns: 10_000_000,
            drain_ceiling: 256,
            idle_backoff_ns: 50_000_000,
            max_buffered_rows: 65536,
        }
    }

    /// Whether a batch of `rows` rows, last sent `elapsed_ns` ago, is to be sent.
    pub fn is_due(&self, rows: usize, elapsed_ns: u64) -> (r: bool)
        ensures
            r == flush_due(*self, rows as nat, elapsed_ns as nat),
    {
        rows >= self.row_limit || elapsed_ns >= self.flush_interval_ns
    }
}

/// The flusher's state: the receiving ends of the five channels, the two
/// buffers, and the time of the last send.
pub struct LogFlusher {
    order_log_receiver: Receiver<OrderLogs>,
    balance_log_receiver: Receiver<BalanceLogs>,
    holding_log_receiver: Receiver<HoldingsLogs>,
    trade_log_receiver: Receiver<TradeLogs>,
    snapshot_receiver: Receiver<OrderBookSnapShot>,
    batch: RowBuffer,
    snapshot: RowBuffer,
    policy: FlushPolicy,
    last_flush: u64,
    encode_failures: u64,
    rows_discarded: u64,
}

impl View for LogFlusher {
    type V = FlusherView;

    closed spec fn view(&self) -> FlusherView {
        FlusherView {
            policy: self.policy,
            batch: self.batch@,
            snapshot: self.snapshot@,
            last_flush: self.last_flush,
            encode_failures: self.encode_failures,
            rows_discarded: self.rows_discarded,
        }
    }
}

impl LogFlusher {
    /// Both buffers hold whole rows only.
    pub closed spec fn wf(&self) -> bool {
        self.batch.wf() && self.snapshot.wf()
    }

    /// A flusher with empty buffers whose flush timer starts at `now`.
    pub fn new(
        order_log_receiver: Receiver<OrderLogs>,
        balance_log_receiver: Receiver<BalanceLogs>,
        holding_log_receiver: Receiver<HoldingsLogs>,
        trade_log_receiver: Receiver<TradeLogs>,
        snapshot_receiver: Receiver<OrderBookSnapShot>,
        version: LineProtocol,
        policy: FlushPolicy,
        now: u64,
    ) -> (r: LogFlusher)
        ensures
            r.wf(),
            r@ == (FlusherView {
                policy,
                batch: Seq::empty(),
                snapshot: Seq::empty(),
                last_flush: now,
                encode_failures: 0,
                rows_discarded: 0,
            }),
    {
        LogFlusher {
            order_log_receiver,
            balance_log_receiver,
            holding_log_receiver,
            trade_log_receiver,
            snapshot_receiver,
            batch: RowBuffer::new(version),
            snapshot: RowBuffer::new(version),
            policy,
            last_flush: now,
            encode_failures: 0,
            rows_discarded: 0,
        }
    }

    /// The policy this flusher follows.
    pub fn policy(&self) -> (r: FlushPolicy)
        ensures
            r == self@.policy,
    {
        self.policy
    }

    /// Rows waiting in the batch.
    pub fn rows_buffered(&self) -> (r: usize)
        requires
            self.wf(),
        ensures
            r == self@.batch.len(),
    {
        self.batch.len()
    }

    /// Whether a snapshot waits to be sent.
    pub fn snapshot_pending(&self) -> (r: bool)
        requires
            self.wf(),
        ensures
            r == (self@.snapshot.len() > 0),
    {
        self.snapshot.len() > 0
    }

    /// Time of the last send of the batch.
    pub fn last_flush(&self) -> (r: u64)
        ensures
            r == self@.last_flush,
    {
        self.last_flush
    }

    /// Records that could not be turned into a buffered row so far.
    pub fn encode_failures(&self) -> (r: u64)
        ensures
            r == self@.encode_failures,
    {
        self.encode_failures
    }

    /// Rows thrown away so far because the sink refused them.
    pub fn rows_discarded(&self) -> (r: u64)
        ensures
            r == self@.rows_discarded,
    {
        self.rows_discarded
    }

    /// The encoder's buffer that holds the batch, for handing to a sender.
    pub fn batch_buffer(&self) -> (r: &Buffer)
        requires
            self.wf(),
        ensures
            buffer_ops(*r) == rows_ops(self@.batch),
    {
        self.batch.inner()
    }

    /// The encoder's buffer that holds the waiting snapshot, for handing to a sender.
    pub fn snapshot_buffer(&self) -> (r: &Buffer)
        requires
            self.wf(),
        ensures
            buffer_ops(*r) == rows_ops(self@.snapshot),
    {
        self.snapshot.inner()
    }

    fn count_failure(&mut self)
        ensures
            final(self).wf() == old(self).wf(),
            final(self)@ == (FlusherView {
                encode_failures: bumped(old(self)@.encode_failures),
                ..old(self)@
            }),
    {
        if self.encode_failures < u64::MAX {
            self.encode_failures = self.encode_failures + 1;
        }
    }

    /// Adds a row to the batch, unless the batch is at its ceiling.
    fn push_batch(&mut self, row: &Row) -> (r: Result<(), EncodeError>)
        requires
            old(self).wf(),
        ensures
            final(self).wf(),
            r == absorb_result(old(self)@, false, row@),
            absorbed(old(self)@, false, row@, r, final(self)@),
    {
        let r = if row.timestamp >= 0 && self.batch.len() >= self.policy.max_buffered_rows {
            Err(EncodeError::Full)
        } else {
            self.batch.append(row)
        };
        if r.is_err() {
            self.count_failure();
        }
        r
    }

    /// Adds a row to the snapshot buffer.
    fn push_snapshot(&mut self, row: &Row) -> (r: Result<(), EncodeError>)
        requires
            old(self).wf(),
        ensures
            final(self).wf(),
            r == absorb_result(old(self)@, true, row@),
            absorbed(old(self)@, true, row@, r, final(self)@),
    {
        let r = self.snapshot.append(row);
        if r.is_err() {
            self.count_failure();
        }
        r
    }

    /// Encodes an order event into the batch.
    pub fn encode_order_log(&mut self, log: OrderLogs) -> (r: Result<(), EncodeError>)
        requires
            old(self).wf(),
        ensures
            final(self).wf(),
            r == record_result(old(self)@, false, log.timestamp),
            absorbed(old(self)@, false, order_row_view(log), r, final(self)@),
    {
        let row = order_row(&log);
        proof {
            lemma_record_rows_accepted(Logs::OrderLogs(log));
        }
        self.push_batch(&row)
    }

    /// Encodes a balance change into the batch.
    pub fn encode_balance_log(&mut self, log: BalanceLogs) -> (r: Result<(), EncodeError>)
        requires
            old(self).wf(),
        ensures
            final(self).wf(),
            r == record_result(old(self)@, false, log.timestamp),
            absorbed(old(self)@, false, balance_row_view(log), r, final(self)@),
    {
        let row = balance_row(&log);
        proof {
            lemma_record_rows_accepted(Logs::BalanceLogs(log));
        }
        self.push_batch(&row)
    }

    /// Encodes a holding change into the batch.
    pub fn encode_holding_logs(&mut self, log: HoldingsLogs) -> (r: Result<(), EncodeError>)
        requires
            old(self).wf(),
        ensures
            final(self).wf(),
            r == record_result(old(self)@, false, log.timestamp),
            absorbed(old(self)@, false, holding_row_view(log), r, final(self)@),
    {
        let row = holding_row(&log);
        proof {
            lemma_record_rows_accepted(Logs::HoldingsLogs(log));
        }
        self.push_batch(&row)
    }

    /// Encodes a trade into the batch.
    pub fn encode_trade_log(&mut self, log: TradeLogs) -> (r: Result<(), EncodeError>)
        requires
            old(self).wf(),
        ensures
            final(self).wf(),
            r == record_result(old(self)@, false, log.timestamp),
            absorbed(old(self)@, false, trade_row_view(log), r, final(self)@),
    {
        let row = trade_row(&log);
        proof {
            lemma_record_rows_accepted(Logs::TradeLogs(log));
        }
        self.push_batch(&row)
    }

    /// Encodes a snapshot into the snapshot buffer, apart from the batch.
    pub fn encode_snapshot(&mut self, log: OrderBookSnapShot) -> (r: Result<(), EncodeError>)
        requires
            old(self).wf(),
        ensures
            final(self).wf(),
            r == record_result(old(self)@, true, log.timestamp),
            absorbed(old(self)@, true, snapshot_row_view(log), r, final(self)@),
    {
        let row = snapshot_row(&log);
        proof {
            lemma_record_rows_accepted(Logs::OrderBookSnapShot(log));
        }
        self.push_snapshot(&row)
    }

    /// Takes in one record of any category.
    pub fn absorb(&mut self, log: Logs) -> (r: Result<(), EncodeError>)
        requires
            old(self).wf(),
        ensures
            final(self).wf(),
            r == record_result(
                old(self)@,
                log.category_of() == Category::Snapshot,
                log.timestamp_of(),
            ),
            absorbed(
                old(self)@,
                log.category_of() == Category::Snapshot,
                row_view_of(log),
                r,
                final(self)@,
            ),
    {
        match log {
            Logs::OrderLogs(l) => self.encode_order_log(l),
            Logs::BalanceLogs(l) => self.encode_balance_log(l),
            Logs::HoldingsLogs(l) => self.encode_holding_logs(l),
            Logs::TradeLogs(l) => self.encode_trade_log(l),
            Logs::OrderBookSnapShot(l) => self.encode_snapshot(l),
        }
    }

    fn count_discarded(&mut self, rows: usize)
        ensures
            final(self).wf() == old(self).wf(),
            final(self)@ == (FlusherView {
                rows_discarded: if old(self)@.rows_discarded + rows <= u64::MAX {
                    (old(self)@.rows_discarded + rows) as u64
                } else {
                    u64::MAX
                },
                ..old(self)@
            }),
    {
        let rows = rows as u64;
        self.rows_discarded = if rows <= u64::MAX - self.rows_discarded {
            self.rows_discarded + rows
        } else {
            u64::MAX
        };
    }

    /// The caller's report on a send of the batch. The flush timer restarts
    /// at `now` whatever the report. Delivered rows leave the batch; rows of
    /// a failed send stay, to be sent again; refused rows are thrown away
    /// and counted.
    pub fn batch_flushed(&mut self, report: FlushReport, now: u64)
        requires
            old(self).wf(),
        ensures
            final(self).wf(),
            final(self)@ == (FlusherView {
                batch: after_send(old(self)@.batch, report),
                last_flush: now,
                rows_discarded: discarded_after(
                    old(self)@.rows_discarded,
                    old(self)@.batch,
                    report,
                ),
                ..old(self)@
            }),
    {
        match report {
            FlushReport::Delivered => {
                self.batch.clear();
            },
            FlushReport::Failed => {},
            FlushReport::Refused => {
                let rows = self.batch.len();
                self.count_discarded(rows);
                self.batch.clear();
            },
        }
        self.last_flush = now;
    }

    /// The caller's report on a send of the snapshot buffer: a delivered
    /// snapshot leaves it, one whose send failed stays, a refused one is
    /// thrown away and counted. The batch and its timer are not touched.
    pub fn snapshot_flushed(&mut self, report: FlushReport)
        requires
            old(self).wf(),
        ensures
            final(self).wf(),
            final(self)@ == (FlusherView {
                snapshot: after_send(old(self)@.snapshot, report),
                rows_discarded: discarded_after(
                    old(self)@.rows_discarded,
                    old(self)@.snapshot,
                    report,
                ),
                ..old(self)@
            }),
    {
        match report {
            FlushReport::Delivered => {
                self.snapshot.clear();
            },
            FlushReport::Failed => {},
            FlushReport::Refused => {
                let rows = self.snapshot.len();
                self.count_discarded(rows);
                self.snapshot.clear();
            },
        }
    }

    /// Nanoseconds since the last send of the batch, as of `now`.
    pub fn elapsed(&self, now: u64) -> (r: u64)
        ensures
            r == elapsed_since(self@.last_flush, now),
    {
        if now >= self.last_flush {
            now - self.last_flush
        } else {
            0
        }
    }

    /// Answers whether a snapshot waits to be sent. If none does, the
    /// snapshot channel is asked for records, at most `drain_ceiling` times,
    /// until one has been encoded or nothing more is there.
    fn snapshot_waiting(&mut self) -> (waiting: bool)
        requires
            old(self).wf(),
        ensures
            final(self).wf(),
            waiting == (final(self)@.snapshot.len() > 0),
            final(self)@.policy == old(self)@.policy,
            final(self)@.last_flush == old(self)@.last_flush,
            final(self)@.rows_discarded == old(self)@.rows_discarded,
            final(self)@.batch == old(self)@.batch,
            old(self)@.snapshot.len() > 0 ==> final(self)@ == old(self)@,
            old(self)@.snapshot.is_prefix_of(final(self)@.snapshot),
            final(self)@.snapshot.len() <= old(self)@.snapshot.len() + 1,
            final(self)@.encode_failures >= old(self)@.encode_failures,
    {
        if self.snapshot.len() > 0 {
            return true;
        }
        let mut taken: usize = 0;
        let mut more = true;
        while more && taken < self.policy.drain_ceiling
            invariant
                self.wf(),
                self@.policy == old(self)@.policy,
                self@.last_flush == old(self)@.last_flush,
                self@.rows_discarded == old(self)@.rows_discarded,
                self@.batch == old(self)@.batch,
                self@.snapshot.len() == 0,
                old(self)@.snapshot.len() == 0,
                self@.encode_failures >= old(self)@.encode_failures,
                taken <= self.policy.drain_ceiling,
            decreases
                    if more {
                        1nat
                    } else {
                        0nat
                    },
                    self.policy.drain_ceiling - taken,
        {
            match self.receive(Category::Snapshot) {
                None => {
                    more = false;
                },
                Some(log) => {
                    taken = taken + 1;
                    if self.absorb(log).is_ok() {
                        return true;
                    }
                },
            }
        }
        false
    }

    /// One cycle: snapshots first, then what is owed, else intake for the batch.
    ///
    /// A snapshot that waits, or one found in its channel, is answered at
    /// once. Next, a batch that is due is answered without taking anything
    /// in. Otherwise the order, balance, holding and trade channels are
    /// drained in turn of at most `drain_ceiling` records each, and the cycle
    /// ends early once the batch has reached the row limit: the snapshot
    /// channel is looked at once more, and then the batch is to be sent. The
    /// answer is always the action owed in the state the cycle ends in; a
    /// cycle counts as productive when it has added a row to the batch.
    pub fn run(&mut self, now: u64) -> (r: FlusherAction)
        requires
            old(self).wf(),
        ensures
            final(self).wf(),
            final(self)@.policy == old(self)@.policy,
            final(self)@.last_flush == old(self)@.last_flush,
            final(self)@.rows_discarded == old(self)@.rows_discarded,
            r == action_owed(
                final(self)@,
                now,
                final(self)@.batch.len() > old(self)@.batch.len(),
            ),
            old(self)@.snapshot.len() > 0 ==> final(self)@ == old(self)@,
            batch_due(old(self)@, now) ==> final(self)@.batch == old(self)@.batch,
            !batch_due(old(self)@, now) ==> final(self)@.batch.len() <= old(
                self,
            )@.policy.row_limit,
            old(self)@.batch.is_prefix_of(final(self)@.batch),
            old(self)@.snapshot.is_prefix_of(final(self)@.snapshot),
            final(self)@.snapshot.len() <= old(self)@.snapshot.len() + 1,
            final(self)@.encode_failures >= old(self)@.encode_failures,
    {
        if self.snapshot_waiting() {
            return FlusherAction::FlushSnapshot;
        }
        if self.policy.is_due(self.batch.len(), self.elapsed(now)) {
            return FlusherAction::FlushBatch;
        }
        let mut produced = false;
        let mut channel: usize = 1;
        while channel < 5
            invariant
                1 <= channel <= 5,
                self.wf(),
                self@.policy == old(self)@.policy,
                self@.last_flush == old(self)@.last_flush,
                self@.rows_discarded == old(self)@.rows_discarded,
                self@.snapshot.len() == 0,
                old(self)@.snapshot.len() == 0,
                !batch_due(old(self)@, now),
                !flush_due(self@.policy, self@.batch.len(), elapsed_since(self@.last_flush, now)),
                old(self)@.batch.is_prefix_of(self@.batch),
                produced <==> self@.batch.len() > old(self)@.batch.len(),
                self@.encode_failures >= old(self)@.encode_failures,
            decreases 5 - channel,
        {
            let category = drained_at(channel);
            let mut taken: usize = 0;
            let mut more = true;
            while more && taken < self.policy.drain_ceiling
                invariant
                    1 <= channel < 5,
                    category == drain_order()[channel as int],
                    self.wf(),
                    self@.policy == old(self)@.policy,
                    self@.last_flush == old(self)@.last_flush,
                    self@.rows_discarded == old(self)@.rows_discarded,
                    self@.snapshot.len() == 0,
                    old(self)@.snapshot.len() == 0,
                    !batch_due(old(self)@, now),
                    !flush_due(
                        self@.policy,
                        self@.batch.len(),
                        elapsed_since(self@.last_flush, now),
                    ),
                    old(self)@.batch.is_prefix_of(self@.batch),
                    produced <==> self@.batch.len() > old(self)@.batch.len(),
                    self@.encode_failures >= old(self)@.encode_failures,
                    taken <= self.policy.drain_ceiling,
                decreases
                        if more {
                            1nat
                        } else {
                            0nat
                        },
                        self.policy.drain_ceiling - taken,
            {
                match self.receive(category) {
                    None => {
                        more = false;
                    },
                    Some(log) => {
                        taken = taken + 1;
                        if self.absorb(log).is_ok() {
                            produced = true;
                        }
                        if self.batch.len() >= self.policy.row_limit {
                            if self.snapshot_waiting() {
                                return FlusherAction::FlushSnapshot;
                            }
                            return FlusherAction::FlushBatch;
                        }
                    },
                }
            }
            channel = channel + 1;
        }
        if produced {
            FlusherAction::Continue
        } else {
            FlusherAction::Idle
        }
    }

    /// One non-blocking attempt on the channel of `category`.
    fn receive(&self, category: Category) -> (r: Option<Logs>)
        ensures
            r matches Some(log) ==> log.category_of() == category,
    {
        match category {
            Category::Order => match try_recv(&self.order_log_receiver) {
                Received::Item(l) => Some(Logs::OrderLogs(l)),
                _ => None,
            },
            Category::Balance => match try_recv(&self.balance_log_receiver) {
                Received::Item(l) => Some(Logs::BalanceLogs(l)),
                _ => None,
            },
            Category::Holding => match try_recv(&self.holding_log_receiver) {
                Received::Item(l) => Some(Logs::HoldingsLogs(l)),
                _ => None,
            },
            Category::Trade => match try_recv(&self.trade_log_receiver) {
                Received::Item(l) => Some(Logs::TradeLogs(l)),
                _ => None,
            },
            Category::Snapshot => match try_recv(&self.snapshot_receiver) {
                Received::Item(l) => Some(Logs::OrderBookSnapShot(l)),
                _ => None,
            },
        }
    }
}

/// The channels in the order in which a cycle looks at them: snapshots
/// first, then the four whose rows are batched.
pub open spec fn drain_order() -> Seq<Category> {
    seq![
        Category::Snapshot,
        Category::Order,
        Category::Balance,
        Category::Holding,
        Category::Trade,
    ]
}

/// The `index`-th channel of a cycle, counting from zero; the last one for any larger index.
pub fn drained_at(index: usize) -> (r: Category)
    ensures
        index < 5 ==> r == drain_order()[index as int],
        index >= 5 ==> r == Category::Trade,
{
    if index == 0 {
        Category::Snapshot
    } else if index == 1 {
        Category::Order
    } else if index == 2 {
        Category::Balance
    } else if index == 3 {
        Category::Holding
    } else {
        Category::Trade
    }
}

} // verus!
