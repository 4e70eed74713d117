//! In-process image of a segment, with the writer's side of the protocol.
//!
//! The writer stores record number `n` in slot `n % capacity` and then
//! raises the write sequence in the header to `n + 1`. An image says, beside
//! its bytes, which records were ever published, so that what a reader is
//! handed can be held against what was written.

use vstd::prelude::*;
use vstd::bytes::{lemma_auto_spec_u64_to_from_le_bytes, u64_to_le_bytes};
use crate::shm::layout::{
    header_of, lemma_header_round_trip, segment_size, slot_offset_of, write_header,
};
use crate::shm::ring::{
    dequeue_from, dequeue_from_state, dequeue_record, dequeue_state, lemma_distinct_slots,
    lemma_read_within_window, lemma_slot_inside, retained, segment_len, slot_at, unreadable,
    ReaderView, RingBufferHeader, HEADER_SIZE,
};

verus! {

/// Mathematical state of a segment: its geometry and every record ever published.
pub struct SegmentView {
    pub capacity: nat,
    pub record_size: nat,
    pub written: Seq<Seq<u8>>,
}

/// `bytes` is a segment in state `v`: the header says so, and every record
/// the ring still retains sits in the slot of its sequence number.
pub open spec fn image_of(bytes: Seq<u8>, v: SegmentView) -> bool {
    &&& 0 < v.capacity <= u64::MAX
    &&& v.record_size <= u64::MAX
    &&& v.written.len() <= u64::MAX
    &&& bytes.len() == segment_len(v.capacity, v.record_size)
    &&& header_of(bytes) == (RingBufferHeader {
        capacity: v.capacity as u64,
        record_size: v.record_size as u64,
        write_sequence: v.written.len() as u64,
    })
    &&& forall|k: int|
        retained(v.capacity, v.written.len(), k) ==> slot_at(
            bytes,
            v.record_size,
            (k % v.capacity as int) as nat,
        ) == #[trigger] v.written[k]
}

/// `bytes` with `data` written over it from `start` on.
pub open spec fn patched(bytes: Seq<u8>, start: int, data: Seq<u8>) -> Seq<u8> {
    Seq::new(
        bytes.len(),
        |i: int|
            if start <= i < start + data.len() {
                data[i - start]
            } else {
                bytes[i]
            },
    )
}

fn overwrite(bytes: &mut Vec<u8>, start: usize, data: &[u8])
    requires
        start + data@.len() <= old(bytes)@.len(),
    ensures
        final(bytes)@ == patched(old(bytes)@, start as int, data@),
{
    let n = data.len();
    let len = bytes.len();
    let mut i: usize = 0;
    while i < n
        invariant
            i <= n,
            n == data@.len(),
            start + n <= len,
            bytes@.len() == len,
            bytes@.len() == old(bytes)@.len(),
            bytes@ == patched(old(bytes)@, start as int, data@.take(i as int)),
        decreases n - i,
    {
        bytes.set(start + i, data[i]);
        proof {
            assert(bytes@ =~= patched(old(bytes)@, start as int, data@.take(i as int + 1)));
        }
        i = i + 1;
    }
    proof {
        assert(data@.take(n as int) =~= data@);
        assert(bytes@ =~= patched(old(bytes)@, start as int, data@));
    }
}

/// An in-process segment: a header, `capacity` slots of `record_size` bytes,
/// and the writer's step.
pub struct SegmentImage {
    bytes: Vec<u8>,
    capacity: u64,
    record_size: u64,
    write_sequence: u64,
    written: Ghost<Seq<Seq<u8>>>,
}

impl View for SegmentImage {
    type V = SegmentView;

    closed spec fn view(&self) -> SegmentView {
        SegmentView {
            capacity: self.capacity as nat,
            record_size: self.record_size as nat,
            written: self.written@,
        }
    }
}

impl SegmentImage {
    /// The bytes are a segment in the state of the view.
    pub closed spec fn wf(&self) -> bool {
        &&& image_of(self.bytes@, self@)
        &&& self.write_sequence == self.written@.len()
    }

    /// The bytes of the image.
    pub closed spec fn contents(&self) -> Seq<u8> {
        self.bytes@
    }

    /// A segment of `capacity` slots of `record_size` zero bytes each, with
    /// nothing published. `None` when `capacity` is zero or the segment
    /// would not fit in memory.
    pub fn new(capacity: u64, record_size: u64) -> (r: Option<SegmentImage>)
        ensures
            capacity == 0 || segment_len(capacity as nat, record_size as nat) > usize::MAX <==> r
                is None,
            r matches Some(image) ==> image.wf() && image@ == (SegmentView {
                capacity: capacity as nat,
                record_size: record_size as nat,
                written: Seq::empty(),
            }),
    {
        if capacity == 0 {
            return None;
        }
        assert(segment_len(capacity as nat, record_size as nat) == slot_offset_of(
            record_size,
            capacity,
        ));
        let total: u64 = match segment_size(capacity, record_size) {
            None => {
                return None;
            },
            Some(total) => total,
        };
        if total > usize::MAX as u64 {
            return None;
        }
        let header = RingBufferHeader { capacity, record_size, write_sequence: 0 };
        let mut bytes = write_header(&header);
        let ghost head = bytes@;
        while bytes.len() < total as usize
            invariant
                24 <= bytes@.len() <= total,
                total <= usize::MAX,
                head.len() == 24,
                bytes@.subrange(0, 24) == head,
            decreases total - bytes@.len(),
        {
            bytes.push(0u8);
            proof {
                assert(bytes@.subrange(0, 24) =~= head);
            }
        }
        proof {
            lemma_header_round_trip(header);
            assert(bytes@.subrange(0, 8) =~= head.subrange(0, 8));
            assert(bytes@.subrange(8, 16) =~= head.subrange(8, 16));
            assert(bytes@.subrange(16, 24) =~= head.subrange(16, 24));
        }
        Some(
            SegmentImage {
                bytes,
                capacity,
                record_size,
                write_sequence: 0,
                written: Ghost(Seq::empty()),
            },
        )
    }

    /// The bytes of the segment, as a reader would see them.
    pub fn bytes(&self) -> (r: &[u8])
        requires
            self.wf(),
        ensures
            r@ == self.contents(),
            image_of(r@, self@),
    {
        self.bytes.as_slice()
    }

    /// Number of records published so far.
    pub fn write_sequence(&self) -> (r: u64)
        requires
            self.wf(),
        ensures
            r == self@.written.len(),
    {
        self.write_sequence
    }

    /// The writer's step: stores `record` in the slot of the next sequence
    /// number and then raises the write sequence. Answers `false`, changing
    /// nothing, for a record of the wrong size and once the sequence counter
    /// cannot count any further.
    pub fn publish(&mut self, record: &[u8]) -> (r: bool)
        requires
            old(self).wf(),
        ensures
            final(self).wf(),
            r == (record@.len() == old(self)@.record_size && old(self)@.written.len() < u64::MAX),
            r ==> final(self)@ == (SegmentView {
                written: old(self)@.written.push(record@),
                ..old(self)@
            }),
            !r ==> final(self)@ == old(self)@ && final(self).contents() == old(self).contents(),
    {
        if record.len() as u64 != self.record_size || self.write_sequence == u64::MAX {
            return false;
        }
        let len = self.bytes.len();
        let index: u64 = self.write_sequence % self.capacity;
        proof {
            lemma_slot_inside(self.capacity as nat, self.record_size as nat, index as nat);
            assert(index * self.record_size >= 0) by (nonlinear_arith);
        }
        let start: u64 = 24 + index * self.record_size;
        let ghost b0 = self.bytes@;
        let ghost before = self.written@;
        let ghost after = before.push(record@);
        let ghost cap = self.capacity as int;
        let ghost size = self.record_size as nat;
        overwrite(&mut self.bytes, start as usize, record);
        let ghost b1 = self.bytes@;
        let sequence = u64_to_le_bytes(self.write_sequence + 1);
        overwrite(&mut self.bytes, 16, sequence.as_slice());
        let ghost b2 = self.bytes@;
        self.write_sequence = self.write_sequence + 1;
        self.written = Ghost(after);
        proof {
            lemma_auto_spec_u64_to_from_le_bytes();
            assert(b2.subrange(0, 8) =~= b0.subrange(0, 8));
            assert(b2.subrange(8, 16) =~= b0.subrange(8, 16));
            assert(b2.subrange(16, 24) =~= sequence@);
            assert(slot_at(b2, size, index as nat) =~= record@);
            assert forall|k: int| retained(cap as nat, after.len(), k) implies slot_at(
                b2,
                size,
                (k % cap) as nat,
            ) == #[trigger] after[k] by {
                if k != before.len() {
                    assert(retained(cap as nat, before.len(), k));
                    assert(before[k] == after[k]);
                    lemma_distinct_slots(cap, k, before.len() as int);
                    let other = (k % cap) as nat;
                    lemma_slot_inside(cap as nat, size, other);
                    lemma_slots_apart(size, other, index as nat);
                    assert(slot_at(b2, size, other) =~= slot_at(b0, size, other));
                }
            }
        }
        true
    }
}

/// Two different slots do not overlap.
pub proof fn lemma_slots_apart(record_size: nat, a: nat, b: nat)
    requires
        a != b,
    ensures
        a * record_size + record_size <= b * record_size || b * record_size + record_size <= a
            * record_size,
{
    if a < b {
        assert(a * record_size + record_size <= b * record_size) by (nonlinear_arith)
            requires
                a < b,
        ;
    } else {
        assert(b * record_size + record_size <= a * record_size) by (nonlinear_arith)
            requires
                b < a,
        ;
    }
}

/// Reading an image: a dequeue on the bytes of a segment hands out exactly
/// the record that was published under the sequence number it settles on.
pub proof fn lemma_dequeue_reads_written(v: ReaderView, bytes: Seq<u8>, s: SegmentView)
    requires
        image_of(bytes, s),
        v.capacity == s.capacity,
        v.record_size == s.record_size,
    ensures
        unreadable(v, bytes) is None,
        dequeue_from(v, bytes) == dequeue_record(v, s.written),
        dequeue_from_state(v, bytes) == dequeue_state(v, s.written.len()),
{
    lemma_read_within_window(v, s.written.len());
    assert(bytes.len() >= HEADER_SIZE) by {
        assert(s.capacity * s.record_size >= 0) by (nonlinear_arith);
    }
}

} // verus!
