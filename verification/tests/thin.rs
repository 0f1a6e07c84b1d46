use double_buffer::athin::{Athin, AthinInner, MAX_SHARES};
use double_buffer::strategy::hazard::queue::Queue;
use double_buffer::thin::{Thin, ThinInner};

#[test]
fn thin_counts_the_shares_beside_the_owner() {
    let mut thin = Thin::new(5);
    assert_eq!(thin.strong_count(), 0);
    assert_eq!(*thin.get(), 5);
    thin.acquire();
    thin.acquire();
    assert_eq!(thin.strong_count(), 2);
    thin.release();
    assert_eq!(thin.strong_count(), 1);
    thin.set(6);
    assert_eq!(*thin.get(), 6);
    assert_eq!(thin.strong_count(), 1);
}

#[test]
fn thin_takes_over_a_boxed_inner() {
    let thin = Thin::from_box(Box::new(ThinInner::new("x")));
    assert_eq!(thin.strong_count(), 0);
    assert_eq!(*thin.get(), "x");
}

#[test]
fn athin_counts_the_shares_beside_the_owner() {
    let mut thin = Athin::new(5);
    assert_eq!(thin.strong_count(), 0);
    thin.acquire();
    assert_eq!(thin.strong_count(), 1);
    thin.release();
    assert_eq!(thin.strong_count(), 0);
    assert_eq!(*thin.get(), 5);
    let thin = Athin::from_box(Box::new(AthinInner::new(7u8)));
    assert_eq!(*thin.get(), 7);
}

#[test]
fn dangling_athin_is_always_shared() {
    let thin = Athin::dangling();
    assert_eq!(thin.strong_count(), 1);
    assert_eq!(*thin.get(), 0);
    assert_eq!(MAX_SHARES, isize::MAX as usize);
}

#[test]
fn queue_makes_a_slot_when_none_is_free() {
    let mut queue = Queue::<u32, true>::new();
    let first = queue.allocate(1);
    let second = queue.allocate(2);
    assert_eq!(*queue.get(&first), 1);
    assert_eq!(*queue.get(&second), 2);
    queue.set(&first, 10);
    assert_eq!(*queue.get(&first), 10);
    assert_eq!(*queue.get(&second), 2);
}

#[test]
fn queue_hands_out_a_free_slot_with_what_was_left_in_it() {
    let mut queue = Queue::<u32, true>::new();
    let first = queue.allocate(1);
    let second = queue.allocate(2);
    let third = queue.allocate(3);
    queue.release(first);
    queue.release(third);
    let again = queue.allocate(9);
    assert_eq!(*queue.get(&again), 3);
    let again = queue.allocate(9);
    assert_eq!(*queue.get(&again), 1);
    let fresh = queue.allocate(9);
    assert_eq!(*queue.get(&fresh), 9);
    assert_eq!(*queue.get(&second), 2);
}

#[test]
fn queue_looks_at_claimed_slots_only() {
    let mut queue = Queue::<u32, false>::new();
    assert!(!queue.any(|_| true));
    let first = queue.allocate(1);
    let _second = queue.allocate(2);
    assert!(queue.any(|value| *value == 1));
    assert!(!queue.any(|value| *value == 3));
    queue.release(first);
    assert!(!queue.any(|value| *value == 1));
    assert!(queue.any(|value| *value == 2));
}
