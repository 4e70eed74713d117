//! What holds of a ring over whole runs of publishes and dequeues.

use vstd::prelude::*;
use crate::shm::ring::{
    dequeue_outcome, dequeue_record, dequeue_state, overrun, retained, ReaderView,
};

verus! {

/// One step of a run: the writer publishes a record, or the reader attempts a dequeue.
pub enum RingEvent<T> {
    Publish(T),
    Dequeue,
}

/// Where a run stands: what was published, the reader, what it was handed,
/// and whether the writer ever got more than `capacity` records ahead.
pub struct RingTrace<T> {
    pub written: Seq<T>,
    pub reader: ReaderView,
    pub delivered: Seq<T>,
    pub lapped: bool,
}

/// A reader that has just attached to an empty ring.
pub open spec fn fresh_reader(capacity: nat, record_size: nat) -> ReaderView {
    ReaderView { capacity, record_size, read_cursor: 0, skipped: 0 }
}

/// The run of `events` on a ring of `capacity` slots, from an empty ring and a fresh reader.
pub open spec fn replay<T>(capacity: nat, events: Seq<RingEvent<T>>) -> RingTrace<T>
    decreases events.len(),
{
    if events.len() == 0 {
        RingTrace {
            written: Seq::empty(),
            reader: fresh_reader(capacity, 0),
            delivered: Seq::empty(),
            lapped: false,
        }
    } else {
        let before = replay(capacity, events.drop_last());
        match events.last() {
            RingEvent::Publish(record) => {
                let written = before.written.push(record);
                RingTrace {
                    written,
                    lapped: before.lapped || overrun(before.reader, written.len()),
                    ..before
                }
            },
            RingEvent::Dequeue => RingTrace {
                reader: dequeue_state(before.reader, before.written.len()),
                delivered: match dequeue_record(before.reader, before.written) {
                    Ok(Some(record)) => before.delivered.push(record),
                    _ => before.delivered,
                },
                ..before
            },
        }
    }
}

/// First in, first out: in a run where the writer never laps the reader,
/// the records handed out are exactly the first `read_cursor` records
/// published, in the order of publication, each once, and none is skipped.
pub proof fn lemma_fifo_without_overrun<T>(capacity: nat, events: Seq<RingEvent<T>>)
    requires
        capacity > 0,
        events.len() <= u64::MAX,
        !replay(capacity, events).lapped,
    ensures
        replay(capacity, events).reader.read_cursor <= replay(capacity, events).written.len(),
        replay(capacity, events).delivered == replay(capacity, events).written.take(
            replay(capacity, events).reader.read_cursor as int,
        ),
        replay(capacity, events).reader.skipped == 0,
    decreases events.len(),
{
    lemma_replay_shape(capacity, events);
    if events.len() > 0 {
        let before = replay(capacity, events.drop_last());
        let after = replay(capacity, events);
        lemma_replay_shape(capacity, events.drop_last());
        lemma_fifo_without_overrun(capacity, events.drop_last());
        match events.last() {
            RingEvent::Publish(record) => {
                assert(after.written.take(after.reader.read_cursor as int)
                    =~= before.written.take(before.reader.read_cursor as int));
            },
            RingEvent::Dequeue => {
                let cursor = before.reader.read_cursor as int;
                if before.written.len() > before.reader.read_cursor {
                    assert(!overrun(before.reader, before.written.len()));
                    assert(after.written.take(cursor + 1) =~= before.written.take(cursor).push(
                        before.written[cursor],
                    ));
                }
            },
        }
    }
}

/// In every run the reader keeps the ring's size, never gets ahead of the
/// writer, and, unless lapped, is at most `capacity` records behind.
pub proof fn lemma_replay_shape<T>(capacity: nat, events: Seq<RingEvent<T>>)
    requires
        capacity > 0,
    ensures
        replay(capacity, events).reader.capacity == capacity,
        replay(capacity, events).written.len() <= events.len(),
        replay(capacity, events).reader.read_cursor <= replay(capacity, events).written.len(),
        !replay(capacity, events).lapped ==> !overrun(
            replay(capacity, events).reader,
            replay(capacity, events).written.len(),
        ),
    decreases events.len(),
{
    if events.len() > 0 {
        lemma_replay_shape(capacity, events.drop_last());
    }
}

/// Resynchronisation: a dequeue that finds the writer more than `capacity`
/// records ahead hands out the oldest record still retained, number
/// `write_sequence - capacity`, leaves the cursor just behind it, and
/// reports exactly the records between the old cursor and that one as skipped.
pub proof fn lemma_overrun_resync<T>(v: ReaderView, written: Seq<T>)
    requires
        v.capacity > 0,
        written.len() <= u64::MAX,
        overrun(v, written.len()),
    ensures
        dequeue_record(v, written) == Ok::<Option<T>, crate::shm::ring::ReadError>(
            Some(written[written.len() - v.capacity]),
        ),
        dequeue_outcome(v, written.len())->Ok_0->Some_0.skipped == written.len() - v.capacity
            - v.read_cursor,
        dequeue_state(v, written.len()).read_cursor == written.len() - v.capacity + 1,
        dequeue_state(v, written.len()).skipped == v.skipped + (written.len() - v.capacity
            - v.read_cursor),
        retained(v.capacity, written.len(), written.len() - v.capacity),
{
}

/// No redelivery: a dequeue that hands out a record leaves the cursor
/// beyond that record's number, so no later attempt can settle on it again.
pub proof fn lemma_no_redelivery(v: ReaderView, first: nat, later: nat)
    requires
        v.capacity > 0,
        first <= later <= u64::MAX,
    ensures
        dequeue_outcome(v, first) matches Ok(Some(read)) ==> dequeue_state(v, first).read_cursor
            == read.sequence + 1 && (dequeue_outcome(dequeue_state(v, first), later) matches Ok(
            Some(next),
        ) ==> next.sequence > read.sequence),
{
}

} // verus!
