use cooldown_buffer::debouncer::Debouncer;

#[test]
fn a_new_debouncer_holds_nothing() {
    let debouncer: Debouncer<u32> = Debouncer::new(100);
    assert_eq!(debouncer.cooldown(), 100);
    assert!(debouncer.is_empty());
    assert_eq!(debouncer.len(), 0);
    assert!(!debouncer.is_due(u64::MAX));
}

#[test]
fn nothing_leaves_before_the_cooldown_has_passed() {
    let mut debouncer = Debouncer::new(100);
    assert_eq!(debouncer.send(1u32, 1000), None);
    assert_eq!(debouncer.poll(1000), None);
    assert_eq!(debouncer.poll(1099), None);
    assert!(!debouncer.is_due(1099));
    assert_eq!(debouncer.len(), 1);
}

#[test]
fn the_batch_leaves_exactly_at_the_deadline() {
    let mut debouncer = Debouncer::new(100);
    assert_eq!(debouncer.send(1u32, 1000), None);
    assert!(debouncer.is_due(1100));
    assert_eq!(debouncer.poll(1100), Some(vec![1]));
    assert!(debouncer.is_empty());
    assert_eq!(debouncer.poll(5000), None);
}

#[test]
fn every_item_moves_the_deadline() {
    let mut debouncer = Debouncer::new(100);
    assert_eq!(debouncer.send(1u32, 0), None);
    assert_eq!(debouncer.send(2u32, 90), None);
    assert_eq!(debouncer.poll(100), None);
    assert_eq!(debouncer.send(3u32, 180), None);
    assert_eq!(debouncer.poll(279), None);
    assert_eq!(debouncer.poll(280), Some(vec![1, 2, 3]));
}

#[test]
fn an_item_after_the_deadline_starts_the_next_batch() {
    let mut debouncer = Debouncer::new(100);
    assert_eq!(debouncer.send(1u32, 0), None);
    assert_eq!(debouncer.send(2u32, 50), None);
    assert_eq!(debouncer.send(3u32, 150), Some(vec![1, 2]));
    assert_eq!(debouncer.len(), 1);
    assert_eq!(debouncer.poll(250), Some(vec![3]));
}

#[test]
fn a_clock_that_runs_backwards_never_flushes() {
    let mut debouncer = Debouncer::new(100);
    assert_eq!(debouncer.send(1u32, 500), None);
    assert_eq!(debouncer.poll(0), None);
    assert_eq!(debouncer.send(2u32, 10), None);
    assert_eq!(debouncer.poll(109), None);
    assert_eq!(debouncer.poll(110), Some(vec![1, 2]));
}

#[test]
fn the_deadline_never_wraps_around() {
    let mut debouncer = Debouncer::new(u64::MAX);
    assert_eq!(debouncer.send(1u32, 1), None);
    assert_eq!(debouncer.poll(u64::MAX - 1), None);
    assert_eq!(debouncer.poll(u64::MAX), None);
    let mut from_zero = Debouncer::new(u64::MAX);
    assert_eq!(from_zero.send(1u32, 0), None);
    assert_eq!(from_zero.poll(u64::MAX), Some(vec![1]));
}

#[test]
fn a_zero_cooldown_flushes_at_once() {
    let mut debouncer = Debouncer::new(0);
    assert_eq!(debouncer.send(1u32, 5), None);
    assert_eq!(debouncer.send(2u32, 5), Some(vec![1]));
    assert_eq!(debouncer.poll(5), Some(vec![2]));
}

#[test]
fn into_pending_is_what_was_not_yet_due() {
    let mut debouncer = Debouncer::new(100);
    assert_eq!(debouncer.send(1u32, 0), None);
    assert_eq!(debouncer.send(2u32, 200), Some(vec![1]));
    assert_eq!(debouncer.send(3u32, 250), None);
    assert_eq!(debouncer.into_pending(), vec![2, 3]);
}
