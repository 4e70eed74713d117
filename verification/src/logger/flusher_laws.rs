//! What holds of the flusher in every state.

use vstd::prelude::*;
use crate::logger::log_flusher::{
    absorbed, action_owed, after_send, elapsed_since, FlushReport, FlusherAction, FlusherView,
};
use crate::logger::row::{row_view_of, RowView};
use crate::logger::sink::{row_ops, EncodeError};
use crate::logger::types::{Category, Logs};

verus! {

/// The flush trigger: with no snapshot waiting, the batch is to be sent
/// exactly when it holds `row_limit` rows or more, or `flush_interval_ns` or
/// more have passed since the last send.
pub proof fn lemma_flush_trigger(v: FlusherView, now: u64, produced: bool)
    requires
        v.snapshot.len() == 0,
    ensures
        action_owed(v, now, produced) == FlusherAction::FlushBatch <==> v.batch.len()
            >= v.policy.row_limit || elapsed_since(v.last_flush, now)
            >= v.policy.flush_interval_ns,
{
}

/// Below the row limit nothing is sent before the interval has passed, and
/// once it has passed the batch is sent whatever it holds.
pub proof fn lemma_flush_waits_for_interval(v: FlusherView, now: u64, produced: bool)
    requires
        v.snapshot.len() == 0,
        v.batch.len() < v.policy.row_limit,
        now >= v.last_flush,
    ensures
        now - v.last_flush < v.policy.flush_interval_ns ==> action_owed(v, now, produced)
            != FlusherAction::FlushBatch,
        now - v.last_flush >= v.policy.flush_interval_ns ==> action_owed(v, now, produced)
            == FlusherAction::FlushBatch,
{
}

/// A snapshot goes first: while one waits, the action owed is to send it,
/// whatever the batch holds and however long ago it was last sent.
pub proof fn lemma_snapshot_goes_first(v: FlusherView, now: u64, produced: bool)
    requires
        v.snapshot.len() > 0,
    ensures
        action_owed(v, now, produced) == FlusherAction::FlushSnapshot,
{
}

/// A snapshot never joins the batch: taking one in leaves the batch exactly
/// as it was, and taking in any other record leaves the snapshot buffer as it was.
pub proof fn lemma_snapshot_kept_apart(
    before: FlusherView,
    log: Logs,
    r: Result<(), EncodeError>,
    after: FlusherView,
)
    requires
        absorbed(before, log.category_of() == Category::Snapshot, row_view_of(log), r, after),
    ensures
        log.category_of() == Category::Snapshot ==> after.batch == before.batch,
        log.category_of() != Category::Snapshot ==> after.snapshot == before.snapshot,
        r is Ok && log.category_of() == Category::Snapshot ==> after.snapshot
            == before.snapshot.push(row_view_of(log)),
        r is Ok && log.category_of() != Category::Snapshot ==> after.batch == before.batch.push(
            row_view_of(log),
        ),
{
}

/// Encoding is a function of the record: two rows made from the same record
/// are equal, and so are the operations that write them.
pub proof fn lemma_encoding_repeatable(log: Logs, first: RowView, second: RowView)
    requires
        first == row_view_of(log),
        second == row_view_of(log),
    ensures
        first == second,
        row_ops(first) == row_ops(second),
{
}

/// A failed send loses nothing: the rows that waited still wait, in order,
/// and the batch stays due for as long as it holds `row_limit` rows. Rows
/// leave a buffer only on a send that was delivered or refused.
pub proof fn lemma_failed_send_retains_rows(before: FlusherView, after: FlusherView, now: u64)
    requires
        after == (FlusherView {
            batch: after_send(before.batch, FlushReport::Failed),
            last_flush: now,
            ..before
        }),
        before.snapshot.len() == 0,
        before.batch.len() >= before.policy.row_limit,
    ensures
        after.batch == before.batch,
        action_owed(after, now, false) == FlusherAction::FlushBatch,
        forall|report: FlushReport|
            #[trigger] after_send(before.batch, report) != before.batch ==> report
                != FlushReport::Failed,
{
}

} // verus!
