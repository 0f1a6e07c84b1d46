use double_buffer::base::{Inner, Reader, Writer};
use double_buffer::deferred::DeferredWriter;
use double_buffer::imp_alloc::UpgradeError;
use double_buffer::strategy::atomic::AtomicStrategy;
use double_buffer::strategy::hazard::{HazardStrategy, Pause, Spinner, Waiter, WAIT_MICROS};
use double_buffer::strategy::local::LocalStrategy;
use double_buffer::strategy::local_saving::LocalSavingStrategy;
use double_buffer::strategy::lock::LockStrategy;
use double_buffer::strategy::saving::park::SavingParkStrategy;
use double_buffer::strategy::saving::SavingStrategy;
use double_buffer::strategy::sync::park::ParkStrategy;
use double_buffer::strategy::sync::SyncStrategy;
use double_buffer::traits::Strategy;

fn pair<S: Strategy>(strategy: S) -> (Inner<[u32; 2], S>, Writer<S>, Reader<S>) {
    let mut inner = Inner::new(strategy, 0, 1);
    let (writer, reader) = double_buffer::base::new(&mut inner);
    (inner, writer, reader)
}

/// A swap with nobody reading is complete at once, and the sides change
/// places.
fn swaps_at_once<S: Strategy>(strategy: S) {
    let (mut inner, mut w, mut r) = pair(strategy);
    assert_eq!(*w.get(&inner), 0);
    let guard = r.get(&mut inner);
    assert_eq!(*guard.get(&inner), 1);
    guard.release(&mut inner);
    assert!(w.swap_buffers(&mut inner).is_none());
    assert_eq!(*w.get(&inner), 1);
    let guard = r.get(&mut inner);
    assert_eq!(*guard.get(&inner), 0);
    guard.release(&mut inner);
}

/// A swap that starts while a reader is inside stays unfinished until that
/// reader has left; the reader goes on seeing its buffer.
fn waits_for_the_reader<S: Strategy>(strategy: S) {
    let (mut inner, mut w, mut r) = pair(strategy);
    let guard = r.get(&mut inner);
    let mut swap = w.start_buffer_swap(&mut inner);
    assert_eq!(*w.get(&inner), 1);
    assert_eq!(*guard.get(&inner), 1);
    assert!(!w.is_swap_complete(&mut inner, &mut swap));
    let swap = w.finish_buffer_swap(&mut inner, swap);
    assert!(swap.is_some());
    let mut swap = swap.unwrap();
    guard.release(&mut inner);
    assert!(w.is_swap_complete(&mut inner, &mut swap));
    assert!(w.finish_buffer_swap(&mut inner, swap).is_none());
    *w.get_mut(&mut inner) = 7;
    let guard = r.get(&mut inner);
    assert_eq!(*guard.get(&inner), 0);
    guard.release(&mut inner);
}

/// A reader that comes after the flip looks at the new side and is not waited
/// for by strategies that tell readers apart.
fn lets_new_readers_be<S: Strategy>(strategy: S) {
    let (mut inner, mut w, mut r) = pair(strategy);
    let mut other = w.reader(&mut inner);
    let old = r.get(&mut inner);
    let swap = w.start_buffer_swap(&mut inner);
    let new = other.get(&mut inner);
    assert_eq!(*old.get(&inner), 1);
    assert_eq!(*new.get(&inner), 0);
    let swap = w.finish_buffer_swap(&mut inner, swap).expect("the old reader is inside");
    old.release(&mut inner);
    assert!(w.finish_buffer_swap(&mut inner, swap).is_none());
    assert_eq!(*new.get(&inner), 0);
    new.release(&mut inner);
}

#[test]
fn local_swaps_at_once() {
    swaps_at_once(LocalStrategy::default());
}

#[test]
fn atomic_swaps_at_once() {
    swaps_at_once(AtomicStrategy::default());
}

#[test]
fn atomic_refuses_a_swap_while_a_reader_is_inside() {
    let (mut inner, mut w, mut r) = pair(AtomicStrategy::new());
    let guard = r.get(&mut inner);
    assert!(w.try_swap_buffers(&mut inner).is_err());
    assert!(w.try_start_buffer_swap(&mut inner).is_err());
    guard.release(&mut inner);
    assert!(w.try_start_buffer_swap(&mut inner).is_ok());
}

#[test]
fn saving_swaps_at_once() {
    swaps_at_once(SavingStrategy::<2>::default());
}

#[test]
fn saving_waits_for_the_reader() {
    waits_for_the_reader(SavingStrategy::<2>::new());
}

#[test]
fn saving_lets_new_readers_be() {
    lets_new_readers_be(SavingStrategy::<1>::new());
}

#[test]
fn saving_takes_a_reader_that_came_back_for_gone() {
    let (mut inner, mut w, mut r) = pair(SavingStrategy::<2>::new());
    let guard = r.get(&mut inner);
    let swap = w.start_buffer_swap(&mut inner);
    guard.release(&mut inner);
    let guard = r.get(&mut inner);
    assert_eq!(*guard.get(&inner), 0);
    assert!(w.finish_buffer_swap(&mut inner, swap).is_none());
    guard.release(&mut inner);
}

#[test]
fn saving_forgets_readers_that_were_given_up() {
    let (mut inner, mut w, r) = pair(SavingStrategy::<1>::new());
    let mut readers = Vec::new();
    for _ in 0..5 {
        readers.push(w.reader(&mut inner));
    }
    r.release(&mut inner);
    for reader in readers {
        assert!(w.swap_buffers(&mut inner).is_none());
        reader.release(&mut inner);
    }
    let mut last = w.reader(&mut inner);
    let guard = last.get(&mut inner);
    assert!(w.swap_buffers(&mut inner).is_some());
    guard.release(&mut inner);
}

#[test]
fn local_saving_waits_for_the_reader() {
    swaps_at_once(LocalSavingStrategy::default());
    waits_for_the_reader(LocalSavingStrategy::new());
    lets_new_readers_be(LocalSavingStrategy::new());
}

#[test]
fn saving_park_waits_for_the_reader() {
    swaps_at_once(SavingParkStrategy::<4>::default());
    waits_for_the_reader(SavingParkStrategy::<4>::new());
    lets_new_readers_be(SavingParkStrategy::<4>::new());
}

#[test]
fn saving_park_sleeps_once_spinning_is_over() {
    let (mut inner, mut w, mut r) = pair(SavingParkStrategy::<4>::new());
    let guard = r.get(&mut inner);
    let mut swap = w.start_buffer_swap(&mut inner);
    for _ in 0..12 {
        swap = w.finish_buffer_swap(&mut inner, swap).expect("the reader is inside");
    }
    guard.release(&mut inner);
    assert!(w.finish_buffer_swap(&mut inner, swap).is_none());
}

#[test]
fn hazard_smoke() {
    let (mut inner, mut w, mut r) = pair(HazardStrategy::new());
    let guard = r.get(&mut inner);
    guard.release(&mut inner);
    assert!(w.swap_buffers(&mut inner).is_none());
}

#[test]
fn hazard_waits_for_the_reader() {
    swaps_at_once(HazardStrategy::default());
    waits_for_the_reader(HazardStrategy::new());
    lets_new_readers_be(HazardStrategy::new());
    waits_for_the_reader(HazardStrategy::spinner());
    lets_new_readers_be(HazardStrategy::spinner());
}

#[test]
fn hazard_counts_on_across_many_swaps() {
    let (mut inner, mut w, mut r) = pair(HazardStrategy::spinner());
    let mut other = w.reader(&mut inner);
    for round in 0..6u32 {
        let old = r.get(&mut inner);
        let swap = w.start_buffer_swap(&mut inner);
        let new = other.get(&mut inner);
        let swap = w.finish_buffer_swap(&mut inner, swap).expect("the old reader is inside");
        old.release(&mut inner);
        assert!(w.finish_buffer_swap(&mut inner, swap).is_none());
        *w.get_mut(&mut inner) = round;
        new.release(&mut inner);
    }
}

#[test]
fn waiter_wakes_up_by_itself() {
    assert_eq!(WAIT_MICROS, 100);
    let waiter = Waiter::new();
    waiter.notify();
    waiter.pause();
    Spinner.pause();
    Spinner.notify();
}

#[test]
fn lock_waits_for_every_reader() {
    swaps_at_once(LockStrategy::default());
    waits_for_the_reader(LockStrategy::new());
    let (mut inner, mut w, mut r) = pair(LockStrategy::new());
    let mut other = w.reader(&mut inner);
    let old = r.get(&mut inner);
    let swap = w.start_buffer_swap(&mut inner);
    let new = other.get(&mut inner);
    old.release(&mut inner);
    let swap = w.finish_buffer_swap(&mut inner, swap).expect("a reader holds the lock");
    new.release(&mut inner);
    assert!(w.finish_buffer_swap(&mut inner, swap).is_none());
}

#[test]
fn sync_waits_for_every_reader() {
    swaps_at_once(SyncStrategy::default());
    waits_for_the_reader(SyncStrategy::new());
    swaps_at_once(ParkStrategy::default());
    waits_for_the_reader(ParkStrategy::new());
}

#[test]
fn two_swaps_put_the_buffers_back() {
    let (mut inner, mut w, _r) = pair(LocalStrategy::new());
    *w.get_mut(&mut inner) = 5;
    assert!(w.swap_buffers(&mut inner).is_none());
    assert!(w.swap_buffers(&mut inner).is_none());
    assert_eq!(*w.get(&inner), 5);
    let sides = w.split(&inner);
    assert_eq!((*sides.writer, *sides.reader), (5, 1));
}

#[test]
fn split_mut_changes_the_writer_side_only() {
    let (mut inner, mut w, mut r) = pair(SavingStrategy::<2>::new());
    let guard = r.get(&mut inner);
    {
        let sides = w.split_mut(&mut inner);
        assert_eq!(*sides.reader, 1);
        *sides.writer = 9;
    }
    assert_eq!(*guard.get(&inner), 1);
    assert_eq!(*w.get(&inner), 9);
    guard.release(&mut inner);
}

#[test]
fn swap_with_callback_calls_it_only_while_readers_are_left() {
    let calls = std::cell::Cell::new(0);
    let (mut inner, mut w, mut r) = pair(SavingStrategy::<2>::new());
    assert!(w.swap_buffers_with(&mut inner, |_| calls.set(calls.get() + 1)).is_none());
    assert_eq!(calls.get(), 0);
    let guard = r.get(&mut inner);
    let swap = w.swap_buffers_with(&mut inner, |_| calls.set(calls.get() + 1)).expect("the reader is inside");
    assert_eq!(calls.get(), 1);
    let swap = w.finish_buffer_swap_with(&mut inner, swap, |_| calls.set(calls.get() + 1)).expect("the reader is inside");
    assert_eq!(calls.get(), 2);
    guard.release(&mut inner);
    assert!(w.finish_buffer_swap_with(&mut inner, swap, |_| calls.set(calls.get() + 1)).is_none());
    assert_eq!(calls.get(), 2);
    assert!(matches!(w.try_swap_buffers_with(&mut inner, |_| calls.set(calls.get() + 1)), Ok(None)));
    assert_eq!(calls.get(), 2);
}

#[test]
fn readers_dangle_once_every_owner_is_gone() {
    let (mut inner, w, mut r) = pair(LocalStrategy::new());
    assert_eq!(inner.strong(), 1);
    assert!(!r.is_dangling(&inner));
    let guard = r.get(&mut inner);
    assert_eq!(inner.strong(), 2);
    w.release(&mut inner);
    assert!(!r.is_dangling(&inner));
    let other = r.try_clone(&mut inner);
    assert!(other.is_ok());
    guard.release(&mut inner);
    assert_eq!(inner.strong(), 0);
    assert!(r.is_dangling(&inner));
    assert!(matches!(r.try_get(&mut inner), Err(UpgradeError)));
    assert!(matches!(r.try_clone(&mut inner), Err(UpgradeError)));
}

#[test]
fn try_get_gives_a_guard_while_the_writer_lives() {
    let (mut inner, w, mut r) = pair(AtomicStrategy::new());
    let guard = r.try_get(&mut inner).ok().expect("the writer is an owner");
    assert_eq!(*guard.get(&inner), 1);
    assert!(std::ptr::eq(w.strategy(&inner), inner.strategy()));
    guard.release(&mut inner);
}

#[test]
fn a_reader_with_a_tag_to_copy_reads_without_being_changed() {
    let (mut inner, mut w, r) = pair(AtomicStrategy::new());
    let first = r.shared_get(&mut inner);
    let second = r.shared_get(&mut inner);
    assert_eq!(*first.get(&inner), 1);
    assert_eq!(*second.get(&inner), 1);
    assert!(std::ptr::eq(double_buffer::base::ReaderGuard::strategy(&first, &inner), inner.strategy()));
    first.release(&mut inner);
    assert!(w.try_swap_buffers(&mut inner).is_err());
    second.release(&mut inner);
    assert!(w.swap_buffers(&mut inner).is_none());
}

#[test]
fn a_deferred_writer_is_made_from_a_writer() {
    let (mut inner, w, _r) = pair(LocalSavingStrategy::new());
    let mut w = DeferredWriter::from(w);
    assert!(w.finish_swap(&mut inner));
    w.start_swap(&mut inner);
    assert_eq!(*w.as_writer().get(&inner), 1);
    assert!(w.finish_swap(&mut inner));
    *w.writer_mut().get_mut(&mut inner) = 4;
    assert_eq!(*w.get(&inner), 4);
}

#[test]
fn finish_swap_without_a_swap_changes_nothing() {
    let (mut inner, w, mut r) = pair(SavingStrategy::<2>::new());
    let mut w = DeferredWriter::new(w);
    assert!(w.finish_swap(&mut inner));
    assert!(w.finish_swap(&mut inner));
    assert_eq!(*w.get(&inner), 0);
    let guard = r.get(&mut inner);
    assert_eq!(*guard.get(&inner), 1);
    assert!(w.finish_swap_with(&mut inner, |_| panic!("no reader is waited for")));
    guard.release(&mut inner);
}

#[test]
fn deferred_writer_puts_the_wait_off() {
    let (mut inner, w, mut r) = pair(SavingStrategy::<2>::new());
    let mut w = DeferredWriter::new_unchecked(w);
    let guard = r.get(&mut inner);
    w.start_swap(&mut inner);
    assert_eq!(*w.get(&inner), 1);
    assert!(!w.finish_swap(&mut inner));
    let w = match w.into_inner(&mut inner) {
        Ok(_) => panic!("the reader is inside"),
        Err(w) => w,
    };
    guard.release(&mut inner);
    let mut other = w.reader(&mut inner);
    let mut w = match w.into_inner(&mut inner) {
        Ok(w) => w,
        Err(_) => panic!("the reader has left"),
    };
    *w.get_mut(&mut inner) = 3;
    let guard = other.get(&mut inner);
    assert_eq!(*guard.get(&inner), 0);
    guard.release(&mut inner);
}

#[test]
fn factories_make_a_pair_with_its_buffers() {
    let (mut inner, mut w, mut r) = double_buffer::strategy::atomic::from_buffers(1u8, 2u8);
    assert_eq!(*w.get(&inner), 1);
    let guard = r.get(&mut inner);
    assert_eq!(*guard.get(&inner), 2);
    guard.release(&mut inner);
    assert!(w.swap_buffers(&mut inner).is_none());

    let (inner, w, _r) = double_buffer::strategy::atomic::new::<u8>();
    assert_eq!(*w.get(&inner), 0);
    let (inner, w, _r) = double_buffer::strategy::local_saving::from_buffers("a", "b");
    assert_eq!(*w.get(&inner), "a");
    let (inner, w, _r) = double_buffer::strategy::local_saving::new::<String>();
    assert_eq!(*w.get(&inner), "");
    let (inner, w, _r) = double_buffer::strategy::saving::park::from_buffers::<_, 2>(1.5f32, 2.5f32);
    assert_eq!(*w.get(&inner), 1.5);
    let (inner, w, _r) = double_buffer::strategy::saving::park::new::<i8, 2>();
    assert_eq!(*w.get(&inner), 0);
}
