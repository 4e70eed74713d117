use shm_logger::shm::image::SegmentImage;
use shm_logger::shm::layout::write_header;
use shm_logger::shm::ring::{
    check_power_of_two, AttachError, ReadError, RingBufferHeader, ShmRingQueue, SlotRead,
};

fn header(capacity: u64, record_size: u64) -> RingBufferHeader {
    RingBufferHeader { capacity, record_size, write_sequence: 0 }
}

fn attach(capacity: u64) -> ShmRingQueue {
    ShmRingQueue::open(Some(header(capacity, 8)), capacity, 8).unwrap()
}

fn segment_with(capacity: u64, published: u64) -> SegmentImage {
    let mut segment = SegmentImage::new(capacity, 8).unwrap();
    for sequence in 0..published {
        assert!(segment.publish(&sequence.to_le_bytes()));
    }
    segment
}

fn dequeue(queue: &mut ShmRingQueue, segment: &SegmentImage) -> Result<Option<u64>, ReadError> {
    queue
        .dequeue(segment.bytes())
        .map(|slot| slot.map(|bytes| u64::from_le_bytes(bytes.try_into().unwrap())))
}

#[test]
fn overrun_skips_to_oldest_retained_record() {
    let segment = segment_with(8, 20);
    let mut queue = attach(8);
    assert_eq!(dequeue(&mut queue, &segment), Ok(Some(12)));
    assert_eq!(queue.skipped(), 12);
    assert_eq!(queue.read_cursor(), 13);
}

#[test]
fn after_resync_the_retained_window_drains_in_order() {
    let segment = segment_with(8, 20);
    let mut queue = attach(8);
    for expected in 12..20u64 {
        assert_eq!(dequeue(&mut queue, &segment), Ok(Some(expected)));
    }
    assert_eq!(dequeue(&mut queue, &segment), Ok(None));
    assert_eq!(queue.skipped(), 12);
    assert_eq!(queue.read_cursor(), 20);
}

#[test]
fn records_come_out_in_write_order_once_each() {
    let mut segment = SegmentImage::new(4, 8).unwrap();
    let mut queue = attach(4);
    let mut next_written = 100u64;
    let mut next_expected = 100u64;
    for round in 0..10 {
        let burst = (round % 4) + 1;
        for _ in 0..burst {
            assert!(segment.publish(&next_written.to_le_bytes()));
            next_written += 1;
        }
        for _ in 0..burst {
            assert_eq!(dequeue(&mut queue, &segment), Ok(Some(next_expected)));
            next_expected += 1;
        }
        assert_eq!(dequeue(&mut queue, &segment), Ok(None));
    }
    assert_eq!(queue.skipped(), 0);
    assert_eq!(queue.read_cursor(), segment.write_sequence());
}

#[test]
fn a_full_ring_is_not_an_overrun() {
    let segment = segment_with(8, 8);
    let mut queue = attach(8);
    assert_eq!(dequeue(&mut queue, &segment), Ok(Some(0)));
    assert_eq!(queue.skipped(), 0);
}

#[test]
fn one_record_past_capacity_skips_one() {
    let segment = segment_with(8, 9);
    let mut queue = attach(8);
    assert_eq!(dequeue(&mut queue, &segment), Ok(Some(1)));
    assert_eq!(queue.skipped(), 1);
    assert_eq!(queue.read_cursor(), 2);
}

#[test]
fn empty_ring_has_nothing() {
    let segment = segment_with(8, 0);
    let mut queue = attach(8);
    assert_eq!(dequeue(&mut queue, &segment), Ok(None));
    assert_eq!(queue.read_cursor(), 0);
    assert_eq!(queue.skipped(), 0);
}

#[test]
fn dequeue_does_not_repeat_after_catching_up() {
    let mut segment = segment_with(2, 1);
    let mut queue = attach(2);
    assert_eq!(dequeue(&mut queue, &segment), Ok(Some(0)));
    assert_eq!(dequeue(&mut queue, &segment), Ok(None));
    assert_eq!(dequeue(&mut queue, &segment), Ok(None));
    assert!(segment.publish(&41u64.to_le_bytes()));
    assert_eq!(dequeue(&mut queue, &segment), Ok(Some(41)));
}

#[test]
fn advance_names_the_slot_to_copy() {
    let mut queue = attach(8);
    assert_eq!(queue.advance(0), Ok(None));
    assert_eq!(queue.advance(3), Ok(Some(SlotRead { sequence: 0, index: 0, skipped: 0 })));
    assert_eq!(queue.advance(3), Ok(Some(SlotRead { sequence: 1, index: 1, skipped: 0 })));
    assert_eq!(queue.advance(20), Ok(Some(SlotRead { sequence: 12, index: 4, skipped: 10 })));
    assert_eq!(queue.read_cursor(), 13);
    assert_eq!(queue.skipped(), 10);
    assert_eq!(queue.advance(21), Ok(Some(SlotRead { sequence: 13, index: 5, skipped: 0 })));
}

#[test]
fn advance_at_the_top_of_the_counter() {
    let mut queue = attach(8);
    assert_eq!(
        queue.advance(u64::MAX),
        Ok(Some(SlotRead { sequence: u64::MAX - 8, index: (u64::MAX - 8) % 8, skipped: u64::MAX - 8 }))
    );
    assert_eq!(queue.read_cursor(), u64::MAX - 7);
    assert_eq!(queue.skipped(), u64::MAX - 8);
}

#[test]
fn a_write_sequence_behind_the_cursor_is_an_error() {
    let mut queue = attach(8);
    assert!(queue.advance(5).is_ok());
    assert!(queue.advance(5).is_ok());
    assert_eq!(queue.read_cursor(), 2);
    assert_eq!(queue.advance(1), Err(ReadError::SequenceRegressed));
    assert_eq!(queue.read_cursor(), 2);
    assert_eq!(queue.skipped(), 0);
}

#[test]
fn a_segment_of_another_geometry_is_refused() {
    let smaller = segment_with(4, 3);
    let mut queue = attach(8);
    assert_eq!(dequeue(&mut queue, &smaller), Err(ReadError::HeaderChanged));
    let mut wider = SegmentImage::new(8, 16).unwrap();
    assert!(wider.publish(&[7u8; 16]));
    assert_eq!(queue.dequeue(wider.bytes()), Err(ReadError::HeaderChanged));
    assert_eq!(queue.read_cursor(), 0);
}

#[test]
fn a_segment_cut_short_is_refused() {
    let segment = segment_with(8, 3);
    let bytes = segment.bytes();
    let mut queue = attach(8);
    assert_eq!(queue.dequeue(&bytes[..23]), Err(ReadError::Truncated));
    assert_eq!(queue.dequeue(&bytes[..24]), Err(ReadError::Truncated));
    assert_eq!(queue.dequeue(&bytes[..bytes.len() - 1]), Err(ReadError::Truncated));
    assert_eq!(queue.read_cursor(), 0);
    assert_eq!(queue.dequeue(bytes), Ok(Some(&0u64.to_le_bytes()[..])));
}

#[test]
fn a_write_sequence_that_went_back_is_an_error() {
    let mut queue = attach(8);
    let ahead = segment_with(8, 5);
    assert_eq!(dequeue(&mut queue, &ahead), Ok(Some(0)));
    assert_eq!(dequeue(&mut queue, &ahead), Ok(Some(1)));
    let behind = segment_with(8, 1);
    assert_eq!(dequeue(&mut queue, &behind), Err(ReadError::SequenceRegressed));
    assert_eq!(queue.read_cursor(), 2);
}

#[test]
fn the_slot_handed_out_lies_behind_the_header() {
    let segment = segment_with(4, 6);
    let bytes = segment.bytes();
    assert_eq!(bytes.len(), 24 + 4 * 8);
    let header = RingBufferHeader { capacity: 4, record_size: 8, write_sequence: 6 };
    assert_eq!(&bytes[..24], &write_header(&header)[..]);
    assert_eq!(&bytes[24..32], &4u64.to_le_bytes());
    assert_eq!(&bytes[32..40], &5u64.to_le_bytes());
    assert_eq!(&bytes[40..48], &2u64.to_le_bytes());
    assert_eq!(&bytes[48..56], &3u64.to_le_bytes());
    let mut queue = attach(4);
    let slot = queue.dequeue(bytes).unwrap().unwrap();
    assert_eq!(slot, &bytes[40..48]);
    assert_eq!(queue.skipped(), 2);
}

#[test]
fn open_reports_a_missing_segment() {
    assert_eq!(ShmRingQueue::open(None, 8, 56).err(), Some(AttachError::SegmentMissing));
}

#[test]
fn open_reports_a_record_size_mismatch() {
    assert_eq!(
        ShmRingQueue::open(Some(header(8, 48)), 8, 56).err(),
        Some(AttachError::RecordSizeMismatch)
    );
}

#[test]
fn open_reports_a_capacity_mismatch() {
    assert_eq!(
        ShmRingQueue::open(Some(header(16, 56)), 8, 56).err(),
        Some(AttachError::CapacityMismatch)
    );
}

#[test]
fn open_reports_a_capacity_that_is_no_power_of_two() {
    assert_eq!(
        ShmRingQueue::open(Some(header(12, 56)), 12, 56).err(),
        Some(AttachError::InvalidCapacity)
    );
    assert_eq!(
        ShmRingQueue::open(Some(header(0, 56)), 0, 56).err(),
        Some(AttachError::InvalidCapacity)
    );
}

#[test]
fn record_size_is_checked_before_capacity() {
    assert_eq!(
        ShmRingQueue::open(Some(header(16, 48)), 8, 56).err(),
        Some(AttachError::RecordSizeMismatch)
    );
}

#[test]
fn open_starts_at_sequence_zero() {
    let started = RingBufferHeader { capacity: 32, record_size: 56, write_sequence: 1000 };
    let queue = ShmRingQueue::open(Some(started), 32, 56).unwrap();
    assert_eq!(queue.capacity(), 32);
    assert_eq!(queue.record_size(), 56);
    assert_eq!(queue.read_cursor(), 0);
    assert_eq!(queue.skipped(), 0);
}

#[test]
fn powers_of_two() {
    assert!(!check_power_of_two(0));
    assert!(check_power_of_two(1));
    assert!(check_power_of_two(2));
    assert!(!check_power_of_two(3));
    assert!(check_power_of_two(32768));
    assert!(!check_power_of_two(32769));
    assert!(check_power_of_two(1u64 << 63));
    assert!(!check_power_of_two(u64::MAX));
}

#[test]
fn an_image_needs_a_slot_and_memory() {
    assert!(SegmentImage::new(0, 8).is_none());
    assert!(SegmentImage::new(u64::MAX, 8).is_none());
    assert!(SegmentImage::new(1 << 40, 1 << 40).is_none());
    let empty = SegmentImage::new(2, 0).unwrap();
    assert_eq!(empty.bytes().len(), 24);
}

#[test]
fn an_image_takes_only_records_of_its_size() {
    let mut segment = SegmentImage::new(4, 8).unwrap();
    assert!(!segment.publish(&[0u8; 7]));
    assert!(!segment.publish(&[0u8; 9]));
    assert_eq!(segment.write_sequence(), 0);
    assert!(segment.publish(&[1u8; 8]));
    assert_eq!(segment.write_sequence(), 1);
}
