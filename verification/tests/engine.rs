use cooldown_buffer::controller::{Command, Phase};
use cooldown_buffer::engine::{Engine, SendFailure};

#[test]
fn a_new_engine_is_empty_idle_and_open() {
    let engine: Engine<u32> = Engine::new();
    assert!(engine.is_empty());
    assert_eq!(engine.len(), 0);
    assert_eq!(engine.phase(), Phase::Idle);
    assert!(engine.is_open());
}

#[test]
fn accept_appends_and_asks_for_a_rearm() {
    let mut engine = Engine::new();
    assert!(matches!(engine.accept(7u32), Ok(Command::Rearm)));
    assert_eq!(engine.len(), 1);
    assert_eq!(engine.phase(), Phase::Armed);
    assert!(matches!(engine.accept(8u32), Ok(Command::Rearm)));
    assert_eq!(engine.len(), 2);
    assert_eq!(engine.phase(), Phase::Armed);
}

#[test]
fn elapse_hands_over_everything_in_submission_order() {
    let mut engine = Engine::new();
    for item in [3u32, 1, 2] {
        assert!(engine.accept(item).is_ok());
    }
    assert_eq!(engine.elapse(), Some(vec![3, 1, 2]));
    assert!(engine.is_empty());
    assert_eq!(engine.phase(), Phase::Idle);
}

#[test]
fn elapse_on_an_empty_accumulator_emits_nothing() {
    let mut engine: Engine<u32> = Engine::new();
    assert_eq!(engine.elapse(), None);
    assert!(engine.is_empty());
    assert_eq!(engine.phase(), Phase::Idle);
}

#[test]
fn a_second_elapse_emits_nothing() {
    let mut engine = Engine::new();
    assert!(engine.accept(1u32).is_ok());
    assert_eq!(engine.elapse(), Some(vec![1]));
    assert_eq!(engine.elapse(), None);
}

#[test]
fn the_next_batch_starts_empty() {
    let mut engine = Engine::new();
    assert!(engine.accept(1u32).is_ok());
    assert!(engine.accept(2u32).is_ok());
    assert_eq!(engine.elapse(), Some(vec![1, 2]));
    assert!(engine.accept(3u32).is_ok());
    assert_eq!(engine.phase(), Phase::Armed);
    assert_eq!(engine.elapse(), Some(vec![3]));
}

#[test]
fn a_closed_engine_hands_the_item_back() {
    let mut engine = Engine::new();
    assert!(engine.accept(1u32).is_ok());
    engine.close();
    assert!(!engine.is_open());
    match engine.accept(2u32) {
        Err(SendFailure(item)) => assert_eq!(item, 2),
        Ok(_) => panic!("a closed engine accepted an item"),
    }
    assert_eq!(engine.len(), 1);
    assert_eq!(engine.phase(), Phase::Armed);
}

#[test]
fn close_keeps_what_is_accumulated() {
    let mut engine = Engine::new();
    assert!(engine.accept(1u32).is_ok());
    assert!(engine.accept(2u32).is_ok());
    engine.close();
    assert_eq!(engine.elapse(), Some(vec![1, 2]));
    assert!(!engine.is_open());
}

#[test]
fn into_pending_gives_what_was_never_flushed() {
    let mut engine = Engine::new();
    assert!(engine.accept(5u32).is_ok());
    assert_eq!(engine.elapse(), Some(vec![5]));
    assert!(engine.accept(6u32).is_ok());
    assert!(engine.accept(7u32).is_ok());
    assert_eq!(engine.into_pending(), vec![6, 7]);
}
