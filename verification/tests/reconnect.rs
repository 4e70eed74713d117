use shm_logger::logger::reconnect::Backoff;

fn delays(backoff: &mut Backoff, count: usize) -> Vec<u64> {
    (0..count).map(|_| backoff.next_delay()).collect()
}

#[test]
fn pauses_double_up_to_the_ceiling() {
    let mut backoff = Backoff::new(100, 1000);
    assert_eq!(delays(&mut backoff, 7), vec![100, 200, 400, 800, 1000, 1000, 1000]);
}

#[test]
fn a_success_starts_over() {
    let mut backoff = Backoff::new(100, 1000);
    assert_eq!(delays(&mut backoff, 3), vec![100, 200, 400]);
    backoff.reset();
    assert_eq!(delays(&mut backoff, 2), vec![100, 200]);
}

#[test]
fn a_base_above_the_ceiling_is_cut_down() {
    let mut backoff = Backoff::new(50, 20);
    assert_eq!(delays(&mut backoff, 3), vec![20, 20, 20]);
    backoff.reset();
    assert_eq!(backoff.next_delay(), 20);
}

#[test]
fn no_pause_at_all() {
    let mut backoff = Backoff::new(0, 1000);
    assert_eq!(delays(&mut backoff, 3), vec![0, 0, 0]);
    let mut none = Backoff::new(5, 0);
    assert_eq!(delays(&mut none, 2), vec![0, 0]);
}

#[test]
fn doubling_does_not_wrap() {
    let mut backoff = Backoff::new(1 << 62, u64::MAX);
    assert_eq!(delays(&mut backoff, 4), vec![1 << 62, 1 << 63, u64::MAX, u64::MAX]);
    let mut odd = Backoff::new(3, 7);
    assert_eq!(delays(&mut odd, 4), vec![3, 6, 7, 7]);
}

#[test]
fn standard_backoff() {
    let mut backoff = Backoff::standard();
    assert_eq!(
        delays(&mut backoff, 8),
        vec![
            100_000_000,
            200_000_000,
            400_000_000,
            800_000_000,
            1_600_000_000,
            3_200_000_000,
            5_000_000_000,
            5_000_000_000
        ]
    );
}
