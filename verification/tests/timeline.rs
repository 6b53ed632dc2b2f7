use cooldown_buffer::timeline::{replay, Arrival};

fn schedule(sends: &[(u64, u32)]) -> Vec<Arrival<u32>> {
    let mut arrivals = Vec::new();
    for &(at, item) in sends {
        arrivals.push(Arrival { at, item });
    }
    arrivals
}

#[test]
fn a_burst_followed_by_silence_is_one_batch() {
    let outcome = replay(100, schedule(&[(0, 0), (90, 1), (180, 2)]), 180 + 110);
    assert_eq!(outcome.batches, vec![vec![0, 1, 2]]);
    assert!(outcome.held.is_empty());
}

#[test]
fn two_sends_a_cooldown_apart_are_two_batches() {
    let outcome = replay(100, schedule(&[(0, 10), (110, 20)]), 220);
    assert_eq!(outcome.batches, vec![vec![10], vec![20]]);
    assert!(outcome.held.is_empty());
}

#[test]
fn three_batches_and_a_fourth_not_yet_available() {
    let sends = [(0, 1), (90, 2), (180, 3), (290, 4), (400, 5), (490, 6), (600, 7), (600, 8)];
    let outcome = replay(100, schedule(&sends), 600);
    assert_eq!(outcome.batches, vec![vec![1, 2, 3], vec![4], vec![5, 6]]);
    assert_eq!(outcome.batches.len(), 3);
    assert_eq!(outcome.held, vec![7, 8]);
}

#[test]
fn an_empty_schedule_emits_nothing() {
    let outcome = replay(100, schedule(&[]), 1_000_000);
    assert!(outcome.batches.is_empty());
    assert!(outcome.held.is_empty());
}

#[test]
fn a_gap_of_exactly_the_cooldown_separates() {
    let outcome = replay(100, schedule(&[(0, 1), (100, 2)]), 100);
    assert_eq!(outcome.batches, vec![vec![1]]);
    assert_eq!(outcome.held, vec![2]);
}

#[test]
fn a_gap_one_tick_short_of_the_cooldown_coalesces() {
    let outcome = replay(100, schedule(&[(0, 1), (99, 2)]), 199);
    assert_eq!(outcome.batches, vec![vec![1, 2]]);
    assert!(outcome.held.is_empty());
}

#[test]
fn nothing_is_emitted_one_tick_before_the_deadline() {
    let outcome = replay(100, schedule(&[(0, 1), (50, 2)]), 149);
    assert!(outcome.batches.is_empty());
    assert_eq!(outcome.held, vec![1, 2]);
}

#[test]
fn batches_and_held_items_add_up_to_what_was_sent() {
    let sends = [(5, 11), (6, 12), (300, 13), (301, 14), (302, 15), (900, 16), (950, 17)];
    let outcome = replay(100, schedule(&sends), 960);
    assert_eq!(outcome.batches, vec![vec![11, 12], vec![13, 14, 15]]);
    assert_eq!(outcome.held, vec![16, 17]);
    let mut all: Vec<u32> = Vec::new();
    for batch in &outcome.batches {
        assert!(!batch.is_empty());
        all.extend(batch.iter().copied());
    }
    all.extend(outcome.held.iter().copied());
    assert_eq!(all, vec![11, 12, 13, 14, 15, 16, 17]);
}

#[test]
fn equal_items_are_kept_apart() {
    let outcome = replay(10, schedule(&[(0, 7), (1, 7), (50, 7)]), 100);
    assert_eq!(outcome.batches, vec![vec![7, 7], vec![7]]);
}

#[test]
fn with_no_cooldown_every_item_is_its_own_batch() {
    let outcome = replay(0, schedule(&[(3, 1), (3, 2), (4, 3)]), 4);
    assert_eq!(outcome.batches, vec![vec![1], vec![2], vec![3]]);
    assert!(outcome.held.is_empty());
}

#[test]
fn arrivals_out_of_time_order_stay_in_submission_order() {
    let outcome = replay(100, schedule(&[(500, 1), (20, 2), (119, 3), (219, 4)]), 319);
    assert_eq!(outcome.batches, vec![vec![1, 2, 3], vec![4]]);
    assert!(outcome.held.is_empty());
}
