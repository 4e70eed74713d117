//! Single-writer / single-reader ring of fixed-size records.
//!
//! The writer publishes record number `n` into slot `n % capacity` and then
//! raises `write_sequence` to `n + 1`. The reader keeps a private cursor and
//! never trusts a slot whose record lies outside the last `capacity` records.

use vstd::prelude::*;
use vstd::slice::slice_subrange;
use crate::shm::barrier::acquire;
use crate::shm::layout::{header_of, parse_header, segment_size, slot_offset_of};

verus! {

/// Bytes taken by the header at the start of a segment: three 64-bit fields.
pub const HEADER_SIZE: u64 = 24;

/// Header found at the start of every segment.
#[derive(Clone, Copy, Debug, PartialEq, Eq, Structural)]
pub struct RingBufferHeader {
    /// Number of record slots.
    pub capacity: u64,
    /// Size of one record in bytes.
    pub record_size: u64,
    /// Number of records the writer has published so far.
    pub write_sequence: u64,
}

/// Why a reader could not attach to a segment.
#[derive(Clone, Copy, Debug, PartialEq, Eq, Structural)]
pub enum AttachError {
    /// No segment exists under the given name.
    SegmentMissing,
    /// The header's record size is not the one this category uses.
    RecordSizeMismatch,
    /// The header's capacity is not the one this category uses.
    CapacityMismatch,
    /// The capacity is zero or not a power of two.
    InvalidCapacity,
}

/// Why a dequeue attempt could not be served.
#[derive(Clone, Copy, Debug, PartialEq, Eq, Structural)]
pub enum ReadError {
    /// The observed write sequence lies behind the reader's cursor.
    SequenceRegressed,
    /// The segment is too short for its header or for its slots.
    Truncated,
    /// The header no longer carries the capacity and record size the reader attached with.
    HeaderChanged,
}

/// The slot a dequeue attempt settled on.
#[derive(Clone, Copy, Debug, PartialEq, Eq, Structural)]
pub struct SlotRead {
    /// Sequence number of the record to copy.
    pub sequence: u64,
    /// Index of the slot that holds it.
    pub index: u64,
    /// Records passed over by this attempt because the writer had lapped the reader.
    pub skipped: u64,
}

/// Mathematical state of a reader.
pub struct ReaderView {
    pub capacity: nat,
    pub record_size: nat,
    pub read_cursor: nat,
    pub skipped: nat,
}

/// `n` is a power of two.
pub open spec fn is_power_of_two(n: nat) -> bool
    decreases n,
{
    n == 1 || (n > 1 && n % 2 == 0 && is_power_of_two(n / 2))
}

/// The writer has overwritten records the reader has not consumed yet.
pub open spec fn overrun(v: ReaderView, write_sequence: nat) -> bool {
    write_sequence - v.read_cursor > v.capacity
}

/// Sequence number of the record the next dequeue hands out, given that one is due.
pub open spec fn resume_sequence(v: ReaderView, write_sequence: nat) -> nat {
    if overrun(v, write_sequence) {
        (write_sequence - v.capacity) as nat
    } else {
        v.read_cursor
    }
}

/// What a dequeue attempt answers when it observes `write_sequence`.
pub open spec fn dequeue_outcome(v: ReaderView, write_sequence: nat) -> Result<
    Option<SlotRead>,
    ReadError,
> {
    if write_sequence < v.read_cursor {
        Err(ReadError::SequenceRegressed)
    } else if write_sequence == v.read_cursor {
        Ok(None)
    } else {
        let sequence = resume_sequence(v, write_sequence);
        Ok(
            Some(
                SlotRead {
                    sequence: sequence as u64,
                    index: (sequence % v.capacity) as u64,
                    skipped: (sequence - v.read_cursor) as u64,
                },
            ),
        )
    }
}

/// The reader's state after a dequeue attempt that observed `write_sequence`.
pub open spec fn dequeue_state(v: ReaderView, write_sequence: nat) -> ReaderView {
    if write_sequence <= v.read_cursor {
        v
    } else {
        let sequence = resume_sequence(v, write_sequence);
        ReaderView {
            read_cursor: sequence + 1,
            skipped: v.skipped + (sequence - v.read_cursor) as nat,
            ..v
        }
    }
}

/// Whether a reader may attach, and if not, why.
pub open spec fn attach_outcome(
    header: Option<RingBufferHeader>,
    expected_capacity: u64,
    expected_record_size: u64,
) -> Result<(), AttachError> {
    match header {
        None => Err(AttachError::SegmentMissing),
        Some(h) => if h.record_size != expected_record_size {
            Err(AttachError::RecordSizeMismatch)
        } else if h.capacity != expected_capacity {
            Err(AttachError::CapacityMismatch)
        } else if !is_power_of_two(h.capacity as nat) {
            Err(AttachError::InvalidCapacity)
        } else {
            Ok(())
        },
    }
}

/// Reader's handle on one ring: the geometry it attached with and its cursor.
pub struct ShmRingQueue {
    capacity: u64,
    record_size: u64,
    read_cursor: u64,
    skipped: u64,
}

impl View for ShmRingQueue {
    type V = ReaderView;

    closed spec fn view(&self) -> ReaderView {
        ReaderView {
            capacity: self.capacity as nat,
            record_size: self.record_size as nat,
            read_cursor: self.read_cursor as nat,
            skipped: self.skipped as nat,
        }
    }
}

/// Whether `n` is a power of two.
pub fn check_power_of_two(n: u64) -> (r: bool)
    ensures
        r == is_power_of_two(n as nat),
{
    if n == 0 {
        return false;
    }
    let mut m: u64 = n;
    while m % 2 == 0
        invariant
            m > 0,
            is_power_of_two(m as nat) == is_power_of_two(n as nat),
        decreases m,
    {
        m = m / 2;
    }
    m == 1
}

impl ShmRingQueue {
    #[verifier::type_invariant]
    spec fn inv(self) -> bool {
        self.capacity > 0 && self.skipped <= self.read_cursor
    }

    /// Attaches to a segment whose header was read as `header` (`None` when
    /// no segment exists). The header must carry the record size and capacity
    /// expected for the category, and the capacity must be a power of two.
    /// A fresh reader starts at sequence 0 with nothing skipped.
    pub fn open(
        header: Option<RingBufferHeader>,
        expected_capacity: u64,
        expected_record_size: u64,
    ) -> (r: Result<ShmRingQueue, AttachError>)
        ensures
            attach_outcome(header, expected_capacity, expected_record_size) matches Err(e) ==> r
                == Err::<ShmRingQueue, AttachError>(e),
            attach_outcome(header, expected_capacity, expected_record_size) is Ok ==> r is Ok
                && r->Ok_0@ == (ReaderView {
                capacity: expected_capacity as nat,
                record_size: expected_record_size as nat,
                read_cursor: 0,
                skipped: 0,
            }),
    {
        match header {
            None => Err(AttachError::SegmentMissing),
            Some(h) => {
                if h.record_size != expected_record_size {
                    Err(AttachError::RecordSizeMismatch)
                } else if h.capacity != expected_capacity {
                    Err(AttachError::CapacityMismatch)
                } else if !check_power_of_two(h.capacity) {
                    Err(AttachError::InvalidCapacity)
                } else {
                    Ok(
                        ShmRingQueue {
                            capacity: h.capacity,
                            record_size: h.record_size,
                            read_cursor: 0,
                            skipped: 0,
                        },
                    )
                }
            },
        }
    }

    /// Number of slots in the ring this reader attached to.
    pub fn capacity(&self) -> (r: u64)
        ensures
            r == self@.capacity,
            r > 0,
    {
        proof {
            use_type_invariant(self);
        }
        self.capacity
    }

    /// Size in bytes of one record of this ring.
    pub fn record_size(&self) -> (r: u64)
        ensures
            r == self@.record_size,
    {
        self.record_size
    }

    /// Sequence number of the next record this reader expects.
    pub fn read_cursor(&self) -> (r: u64)
        ensures
            r == self@.read_cursor,
    {
        self.read_cursor
    }

    /// Total number of records this reader had to pass over.
    pub fn skipped(&self) -> (r: u64)
        ensures
            r == self@.skipped,
            r <= self@.read_cursor,
    {
        proof {
            use_type_invariant(self);
        }
        self.skipped
    }

    /// One non-blocking dequeue attempt against an observed `write_sequence`.
    ///
    /// Answers which slot to copy, if any, and moves the cursor past it. When
    /// the writer is more than `capacity` records ahead, the cursor first jumps
    /// to the oldest record still retained and the jump is added to `skipped`.
    pub fn advance(&mut self, write_sequence: u64) -> (r: Result<Option<SlotRead>, ReadError>)
        ensures
            r == dequeue_outcome(old(self)@, write_sequence as nat),
            final(self)@ == dequeue_state(old(self)@, write_sequence as nat),
    {
        proof {
            use_type_invariant(&*self);
        }
        if write_sequence < self.read_cursor {
            return Err(ReadError::SequenceRegressed);
        }
        if write_sequence == self.read_cursor {
            return Ok(None);
        }
        let behind: u64 = write_sequence - self.read_cursor;
        let sequence: u64 = if behind > self.capacity {
            write_sequence - self.capacity
        } else {
            self.read_cursor
        };
        let jumped: u64 = sequence - self.read_cursor;
        let read = SlotRead { sequence, index: sequence % self.capacity, skipped: jumped };
        self.read_cursor = sequence + 1;
        self.skipped = self.skipped + jumped;
        Ok(Some(read))
    }
}

/// Bytes of a whole segment: the header and `capacity` slots.
pub open spec fn segment_len(capacity: nat, record_size: nat) -> nat {
    HEADER_SIZE as nat + capacity * record_size
}

/// The bytes of slot `index`.
pub open spec fn slot_at(bytes: Seq<u8>, record_size: nat, index: nat) -> Seq<u8> {
    bytes.subrange(
        HEADER_SIZE + index * record_size,
        HEADER_SIZE + index * record_size + record_size,
    )
}

/// Why a reader cannot read a segment, if it cannot: the segment must hold a
/// header with the reader's capacity and record size, and all of its slots.
pub open spec fn unreadable(v: ReaderView, bytes: Seq<u8>) -> Option<ReadError> {
    if bytes.len() < HEADER_SIZE {
        Some(ReadError::Truncated)
    } else if header_of(bytes).capacity != v.capacity || header_of(bytes).record_size
        != v.record_size {
        Some(ReadError::HeaderChanged)
    } else if bytes.len() < segment_len(v.capacity, v.record_size) {
        Some(ReadError::Truncated)
    } else {
        None
    }
}

/// What a dequeue on the segment `bytes` answers: the bytes of the slot
/// the attempt settles on, if a record is due.
pub open spec fn dequeue_from(v: ReaderView, bytes: Seq<u8>) -> Result<Option<Seq<u8>>, ReadError> {
    match unreadable(v, bytes) {
        Some(e) => Err(e),
        None => match dequeue_outcome(v, header_of(bytes).write_sequence as nat) {
            Err(e) => Err(e),
            Ok(None) => Ok(None),
            Ok(Some(read)) => Ok(Some(slot_at(bytes, v.record_size, read.index as nat))),
        },
    }
}

/// The reader's state after a dequeue on the segment `bytes`.
pub open spec fn dequeue_from_state(v: ReaderView, bytes: Seq<u8>) -> ReaderView {
    match unreadable(v, bytes) {
        Some(_) => v,
        None => dequeue_state(v, header_of(bytes).write_sequence as nat),
    }
}

/// `slot` is what a dequeue that was owed `expected` has answered.
pub open spec fn answers(
    r: Result<Option<&[u8]>, ReadError>,
    expected: Result<Option<Seq<u8>>, ReadError>,
) -> bool {
    match (r, expected) {
        (Ok(Some(slot)), Ok(Some(bytes))) => slot@ == bytes,
        (Ok(None), Ok(None)) => true,
        (Err(e), Err(f)) => e == f,
        _ => false,
    }
}

impl ShmRingQueue {
    /// One non-blocking dequeue on a segment: reads the header, settles on a
    /// slot as `advance` does, and hands out that slot's bytes. The write
    /// sequence is read before anything of the slot is. Nothing is copied
    /// and nothing is allocated. A segment that cannot be read leaves the
    /// reader as it was.
    pub fn dequeue<'a>(&mut self, segment: &'a [u8]) -> (r: Result<Option<&'a [u8]>, ReadError>)
        ensures
            answers(r, dequeue_from(old(self)@, segment@)),
            final(self)@ == dequeue_from_state(old(self)@, segment@),
            r matches Ok(Some(slot)) ==> slot@.len() == old(self)@.record_size,
    {
        proof {
            use_type_invariant(&*self);
        }
        let header = match parse_header(segment) {
            None => {
                return Err(ReadError::Truncated);
            },
            Some(header) => header,
        };
        acquire();
        if header.capacity != self.capacity || header.record_size != self.record_size {
            return Err(ReadError::HeaderChanged);
        }
        let len = segment.len();
        assert(segment_len(self@.capacity, self@.record_size) == slot_offset_of(
            self.record_size,
            self.capacity,
        ));
        let needed = match segment_size(self.capacity, self.record_size) {
            None => {
                return Err(ReadError::Truncated);
            },
            Some(needed) => needed,
        };
        if (len as u64) < needed {
            return Err(ReadError::Truncated);
        }
        let ghost before = self@;
        let record_size = self.record_size;
        let capacity = self.capacity;
        match self.advance(header.write_sequence) {
            Err(e) => Err(e),
            Ok(None) => Ok(None),
            Ok(Some(read)) => {
                proof {
                    lemma_read_within_window(before, header.write_sequence as nat);
                    lemma_slot_inside(capacity as nat, record_size as nat, read.index as nat);
                }
                let start: u64 = 24 + read.index * record_size;
                let end: u64 = start + record_size;
                Ok(Some(slice_subrange(segment, start as usize, end as usize)))
            },
        }
    }
}

/// Slot `index` of a segment of `capacity` slots ends within the segment.
pub proof fn lemma_slot_inside(capacity: nat, record_size: nat, index: nat)
    requires
        index < capacity,
    ensures
        index * record_size + record_size <= capacity * record_size,
        HEADER_SIZE + index * record_size + record_size <= segment_len(capacity, record_size),
{
    assert(index * record_size + record_size <= capacity * record_size) by (nonlinear_arith)
        requires
            index < capacity,
    ;
}

/// Two record numbers less than `capacity` apart never share a slot.
pub proof fn lemma_distinct_slots(capacity: int, a: int, b: int)
    requires
        capacity > 0,
        0 <= a < b,
        b - a < capacity,
    ensures
        a % capacity != b % capacity,
{
    if a % capacity == b % capacity {
        vstd::arithmetic::div_mod::lemma_fundamental_div_mod(a, capacity);
        vstd::arithmetic::div_mod::lemma_fundamental_div_mod(b, capacity);
        let qa = a / capacity;
        let qb = b / capacity;
        assert(b - a == capacity * qb - capacity * qa);
        assert(capacity * qb - capacity * qa == capacity * (qb - qa)) by (nonlinear_arith);
        assert(0 < capacity * (qb - qa) < capacity);
        assert(false) by (nonlinear_arith)
            requires
                capacity > 0,
                0 < capacity * (qb - qa) < capacity,
        ;
    }
}

/// A dequeue only ever settles on a record the ring still retains, and on
/// the slot that holds it.
pub proof fn lemma_read_within_window(v: ReaderView, write_sequence: nat)
    requires
        v.capacity > 0,
        write_sequence <= u64::MAX,
    ensures
        dequeue_outcome(v, write_sequence) matches Ok(Some(read)) ==> retained(
            v.capacity,
            write_sequence,
            read.sequence as int,
        ) && read.sequence >= v.read_cursor && read.index == read.sequence as int
            % v.capacity as int && read.index < v.capacity,
{
    if write_sequence > v.read_cursor {
        let sequence = resume_sequence(v, write_sequence);
        assert(0 <= sequence < write_sequence);
        assert(0 <= (sequence as int) % (v.capacity as int) < (v.capacity as int));
        vstd::arithmetic::div_mod::lemma_mod_decreases(sequence, v.capacity);
    }
}

/// Record number `k` is still held by a ring of `capacity` slots after `published` records.
pub open spec fn retained(capacity: nat, published: nat, k: int) -> bool {
    0 <= k < published && published - k <= capacity
}

/// What a dequeue hands out when the writer has published `written`.
pub open spec fn dequeue_record<T>(v: ReaderView, written: Seq<T>) -> Result<
    Option<T>,
    ReadError,
> {
    match dequeue_outcome(v, written.len()) {
        Err(e) => Err(e),
        Ok(None) => Ok(None),
        Ok(Some(read)) => Ok(Some(written[read.sequence as int])),
    }
}

} // verus!
