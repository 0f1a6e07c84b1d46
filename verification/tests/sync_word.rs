use double_buffer::strategy::sync::{
    enter, finish_wakes, leave_wakes, reader_must_wait, swap_must_wait, wake_filter, Attempt, SyncStrategy, ONE_READER, PENDING_READERS,
    PENDING_SWAP, READ_TOKEN, SWAP_HANDOFF, SWAP_TOKEN, UNPARK_ALL,
};
use parking_lot_core::{FilterOp, ParkToken, SpinWait};

#[test]
fn lock_word_layout() {
    assert_eq!(PENDING_SWAP, 1);
    assert_eq!(PENDING_READERS, 2);
    assert_eq!(ONE_READER, 4);
    assert_eq!(SWAP_TOKEN, 0);
    assert_eq!(READ_TOKEN, 1);
    assert_eq!(SWAP_HANDOFF, 0);
    assert_eq!(UNPARK_ALL, 1);
}

#[test]
fn a_reader_enters_unless_the_writer_waits() {
    assert_eq!(enter(0), Some(4));
    assert_eq!(enter(4), Some(8));
    assert_eq!(enter(2), Some(6));
    assert_eq!(enter(1), None);
    assert_eq!(enter(5), None);
    assert_eq!(enter(7), None);
}

#[test]
fn a_reader_does_not_enter_past_the_limit() {
    assert_eq!(enter(usize::MAX - 3), None);
    assert_eq!(enter(usize::MAX - 5), Some(usize::MAX - 1));
    assert_eq!(enter(usize::MAX - 1), None);
    assert_eq!(enter(usize::MAX - 7), Some(usize::MAX - 3));
}

#[test]
fn who_is_to_park() {
    assert!(!reader_must_wait(0));
    assert!(reader_must_wait(1));
    assert!(!reader_must_wait(4));
    assert!(reader_must_wait(5));
    assert!(!swap_must_wait(0));
    assert!(!swap_must_wait(1));
    assert!(swap_must_wait(2));
    assert!(swap_must_wait(4));
    assert!(swap_must_wait(5));
}

#[test]
fn who_is_to_wake() {
    assert!(!leave_wakes(5));
    assert!(leave_wakes(4));
    assert!(leave_wakes(9));
    assert!(leave_wakes(0));
    assert!(!finish_wakes(0));
    assert!(finish_wakes(1));
    assert!(finish_wakes(4));
}

#[test]
fn the_scan_wakes_the_writer_and_stops_after_it() {
    let tokens = [1, 1, 0, 1, 0];
    let mut found = false;
    let mut steps = Vec::new();
    for token in tokens {
        let (next, step) = wake_filter(found, ParkToken(token));
        found = next;
        steps.push(step);
        if step == FilterOp::Stop {
            break;
        }
    }
    assert_eq!(steps, [FilterOp::Skip, FilterOp::Skip, FilterOp::Unpark, FilterOp::Stop]);
    assert_eq!(wake_filter(true, ParkToken(SWAP_TOKEN)), (true, FilterOp::Unpark));
    assert_eq!(wake_filter(false, ParkToken(READ_TOKEN)), (false, FilterOp::Skip));
}

#[test]
fn a_pause_shuts_the_fast_way_and_opens_it_again() {
    let mut strategy = SyncStrategy::new();
    assert!(!strategy.begin_pause());
    let mut spin = SpinWait::new();
    let mut spun = 0;
    loop {
        match strategy.begin_guard_slow(&mut spin) {
            (Attempt::Spun, None) => spun += 1,
            (Attempt::Park, None) => break,
            _ => panic!("a reader entered while the writer waited"),
        }
    }
    assert_eq!(spun, 10);
    strategy.end_pause();
    let (attempt, guard) = strategy.begin_guard_slow(&mut spin);
    assert_eq!(attempt, Attempt::Entered);
    assert!(guard.is_some());
    assert!(strategy.begin_pause());
    strategy.end_pause();
}
