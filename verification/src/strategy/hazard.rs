use vstd::prelude::*;
use parking_lot::{Condvar, Mutex, RawMutex};
use crate::traits::Strategy;

pub mod queue;

use queue::{Queue, QueueNode};

verus! {

/// How long a wait for readers lasts at most, in microseconds.
pub const WAIT_MICROS: u64 = 100;

/// `parking_lot::Condvar`: a condition variable. Nothing of its state is seen
/// here.
#[verifier::external_type_specification]
#[verifier::external_body]
pub struct ExCondvar(Condvar);

/// `parking_lot::RawMutex`: the lock inside a `parking_lot::Mutex`.
#[verifier::external_type_specification]
#[verifier::external_body]
pub struct ExRawMutex(RawMutex);

/// `lock_api::Mutex`, which `parking_lot::Mutex` is an alias of: a value behind
/// a lock. Nothing of its state is seen here.
#[verifier::external_type_specification]
#[verifier::external_body]
#[verifier::reject_recursive_types(R)]
#[verifier::reject_recursive_types(T)]
pub struct ExMutex<R, T: ?Sized>(parking_lot::lock_api::Mutex<R, T>);

/// `Mutex::new`, with nothing to guard.
#[verifier::external_body]
fn new_mutex() -> Mutex<()> {
    Mutex::new(())
}

/// `Condvar::new`.
#[verifier::external_body]
fn new_condvar() -> Condvar {
    Condvar::new()
}

/// `Condvar::wait_for` on the guard that `Mutex::lock` gives: sleeps until the
/// condition variable is notified or `micros` microseconds are over, whichever
/// comes first. The lock is free again on return.
#[verifier::external_body]
fn wait_for(cv: &Condvar, mx: &Mutex<()>, micros: u64) {
    cv.wait_for(&mut mx.lock(), core::time::Duration::from_micros(micros));
}

/// `Condvar::notify_one`: wakes one thread that waits on the condition
/// variable, if there is one.
#[verifier::external_body]
fn notify_one(cv: &Condvar) {
    cv.notify_one();
}

/// How the writer waits for readers, and how readers tell it that one of them
/// has left.
pub trait Pause {
    fn pause(&self);

    fn notify(&self);
}

/// Does not wait: the writer asks again at once.
pub struct Spinner;

/// Waits on a condition variable, for [`WAIT_MICROS`] at most.
pub struct Waiter {
    mx: Mutex<()>,
    cv: Condvar,
}

impl Waiter {
    pub fn new() -> Self {
        Self { mx: new_mutex(), cv: new_condvar() }
    }
}

impl Pause for Spinner {
    fn pause(&self) {
    }

    fn notify(&self) {
    }
}

impl Pause for Waiter {
    fn pause(&self) {
        wait_for(&self.cv, &self.mx, WAIT_MICROS)
    }

    fn notify(&self) {
        notify_one(&self.cv)
    }
}

/// Numbers the swaps. A reader claims a slot and writes the number of the
/// current swap into it; a capture takes that number and moves on to the next;
/// it is drained once no claimed slot holds the number it took.
pub struct HazardStrategy<W = Waiter> {
    count: u32,
    queue: Queue<u32, true>,
    waiter: W,
    sections: Ghost<Seq<nat>>,
    live: Ghost<Set<nat>>,
    issued: Ghost<nat>,
    registered: Ghost<nat>,
}

pub struct ReaderTag {
    id: Ghost<nat>,
}

pub struct WriterTag(());

pub struct RawGuard {
    node: QueueNode<u32, true>,
    section: Ghost<nat>,
}

pub struct FastCapture(());

/// The number of the swap that the capture belongs to.
pub struct Capture(u32);

impl HazardStrategy<Waiter> {
    pub fn new() -> (strategy: Self)
        ensures
            strategy.wf(),
            strategy.settled(),
            strategy.can_register(),
            strategy.has_room(),
            strategy.can_capture(),
            strategy.issued() == 0,
            strategy.registered() == 0,
            strategy.active() == Set::<nat>::empty(),
    {
        Self::with_waiter(Waiter::new())
    }
}

impl Default for HazardStrategy<Waiter> {
    fn default() -> (strategy: Self)
        ensures
            strategy.wf(),
            strategy.settled(),
            strategy.can_register(),
            strategy.has_room(),
            strategy.can_capture(),
            strategy.issued() == 0,
            strategy.registered() == 0,
            strategy.active() == Set::<nat>::empty(),
    {
        Self::new()
    }
}

impl HazardStrategy<Spinner> {
    pub fn spinner() -> (strategy: Self)
        ensures
            strategy.wf(),
            strategy.settled(),
            strategy.can_register(),
            strategy.has_room(),
            strategy.can_capture(),
            strategy.issued() == 0,
            strategy.registered() == 0,
            strategy.active() == Set::<nat>::empty(),
    {
        Self::with_waiter(Spinner)
    }
}

/// The number after `count`, which is zero after the last one.
pub open spec fn next_count(count: u32) -> u32 {
    if count == u32::MAX {
        0
    } else {
        (count + 1) as u32
    }
}

impl<W: Pause> HazardStrategy<W> {
    fn with_waiter(waiter: W) -> (strategy: Self)
        ensures
            strategy.wf(),
            strategy.settled(),
            strategy.can_register(),
            strategy.has_room(),
            strategy.can_capture(),
            strategy.issued() == 0,
            strategy.registered() == 0,
            strategy.active() == Set::<nat>::empty(),
    {
        Self { count: 0, queue: Queue::new(), waiter, sections: Ghost(Seq::empty()), live: Ghost(Set::empty()), issued: Ghost(0), registered: Ghost(0) }
    }

    /// The number of the swap that is current.
    pub closed spec fn count(&self) -> u32 {
        self.count
    }

    /// The slot at `i` is claimed by a reader that is inside section `id`.
    spec fn reads_at(&self, i: int, id: nat) -> bool {
        0 <= i < self.queue.len() && self.queue.claimed(i) && self.sections@[i] == id
    }

    /// The slot at `i` is claimed by a reader that is inside section `id` and
    /// wrote `count` into it.
    spec fn waits_at(&self, i: int, id: nat, count: u32) -> bool {
        self.reads_at(i, id) && self.queue.value(i) == count
    }
}

impl<W: Pause> Strategy for HazardStrategy<W> {
    type ReaderTag = ReaderTag;

    type WriterTag = WriterTag;

    type RawGuard = RawGuard;

    type FastCapture = FastCapture;

    type CaptureError = core::convert::Infallible;

    type Capture = Capture;

    closed spec fn wf(&self) -> bool {
        &&& self.sections@.len() == self.queue.len()
        &&& self.live@.finite()
        &&& forall|id: nat| self.live@.contains(id) ==> id < self.issued@
        &&& forall|i: int| 0 <= i < self.queue.len() && #[trigger] self.queue.claimed(i) ==> self.live@.contains(self.sections@[i])
        &&& forall|i: int, j: int|
            0 <= i < j < self.queue.len() && #[trigger] self.queue.claimed(i) && #[trigger] self.queue.claimed(j) ==> self.sections@[i]
                != self.sections@[j]
        &&& forall|id: nat| self.live@.contains(id) ==> exists|i: int| #[trigger] self.reads_at(i, id)
    }

    closed spec fn issued(&self) -> nat {
        self.issued@
    }

    closed spec fn registered(&self) -> nat {
        self.registered@
    }

    closed spec fn active(&self) -> Set<nat> {
        self.live@
    }

    closed spec fn settled(&self) -> bool {
        forall|i: int| 0 <= i < self.queue.len() && #[trigger] self.queue.claimed(i) ==> self.queue.value(i) == self.count
    }

    open spec fn can_register(&self) -> bool {
        true
    }

    open spec fn has_room(&self) -> bool {
        true
    }

    closed spec fn tag_id(tag: &ReaderTag) -> nat {
        tag.id@
    }

    closed spec fn guard_id(guard: &RawGuard) -> nat {
        guard.section@
    }

    closed spec fn inside(&self, tag: &ReaderTag, guard: &RawGuard) -> bool {
        self.guard_open(guard)
    }

    open spec fn tag_ready(&self, tag: &ReaderTag) -> bool {
        true
    }

    closed spec fn guard_open(&self, guard: &RawGuard) -> bool {
        self.reads_at(guard.node.index(), guard.section@)
    }

    open spec fn can_capture(&self) -> bool {
        true
    }

    open spec fn admits(&self, fast: &FastCapture) -> bool {
        true
    }

    closed spec fn covers(&self, capture: &Capture, sections: Set<nat>) -> bool {
        &&& self.count == next_count(capture.0)
        &&& forall|i: int|
            0 <= i < self.queue.len() && #[trigger] self.queue.claimed(i) ==> self.queue.value(i) == capture.0 || self.queue.value(i)
                == self.count
        &&& forall|id: nat|
            sections.contains(id) ==> id < self.issued@ && (self.live@.contains(id) ==> exists|i: int| #[trigger]
                self.waits_at(i, id, capture.0))
    }

    closed spec fn drained(&self, capture: &Capture) -> bool {
        forall|i: int| 0 <= i < self.queue.len() && #[trigger] self.queue.claimed(i) ==> self.queue.value(i) != capture.0
    }

    proof fn lemma_sections(&self) {
    }

    proof fn lemma_can_register(&self) {
    }

    proof fn lemma_guard_open(&self, guard: &RawGuard) {
    }

    proof fn lemma_covers_none(&self, capture: &Capture, sections: Set<nat>) {
    }

    proof fn lemma_quiet(&self, capture: &Capture, sections: Set<nat>) {
        assert forall|i: int| 0 <= i < self.queue.len() && #[trigger] self.queue.claimed(i) implies false by {
            assert(self.live@.contains(self.sections@[i]));
        }
    }

    proof fn lemma_drained(&self, capture: &Capture, sections: Set<nat>) {
        assert forall|id: nat| sections.contains(id) implies !self.live@.contains(id) by {
            if self.live@.contains(id) {
                let i = choose|i: int| #[trigger] self.waits_at(i, id, capture.0);
                assert(self.queue.claimed(i));
            }
        }
    }

    fn reader_tag(&mut self) -> (tag: ReaderTag) {
        let ghost id = self.registered@;
        proof {
            self.registered@ = self.registered@ + 1;
            assert forall|id: nat| self.live@.contains(id) implies exists|i: int| #[trigger] self.reads_at(i, id) by {
                let i = choose|i: int| #[trigger] old(self).reads_at(i, id);
                assert(self.reads_at(i, id));
            }
            assert forall|c: Capture, s: Set<nat>| old(self).covers(&c, s) implies #[trigger] self.covers(&c, s) by {
                assert forall|id: nat| s.contains(id) && self.live@.contains(id) implies exists|i: int| #[trigger]
                    self.waits_at(i, id, c.0) by {
                    let i = choose|i: int| #[trigger] old(self).waits_at(i, id, c.0);
                    assert(self.waits_at(i, id, c.0));
                }
            }
            assert forall|g: RawGuard| old(self).guard_open(&g) implies #[trigger] self.guard_open(&g) by {
                assert(self.reads_at(g.node.index(), g.section@));
            }
        }
        ReaderTag { id: Ghost(id) }
    }

    fn writer_tag(&mut self) -> (tag: WriterTag) {
        WriterTag(())
    }

    fn release_tag(&mut self, tag: ReaderTag) {
    }

    fn try_capture_readers(&mut self, tag: &mut WriterTag) -> (fast: Result<FastCapture, core::convert::Infallible>) {
        Ok(FastCapture(()))
    }

    fn finish_capture_readers(&mut self, tag: &mut WriterTag, fast: FastCapture) -> (capture: Capture) {
        let capture = Capture(self.count);
        self.count = self.count.wrapping_add(1);
        proof {
            assert(self.count == next_count(capture.0));
            assert forall|id: nat| self.live@.contains(id) implies exists|i: int| #[trigger] self.waits_at(i, id, capture.0) by {
                let i = choose|i: int| #[trigger] old(self).reads_at(i, id);
                assert(self.queue.claimed(i));
                assert(self.waits_at(i, id, capture.0));
            }
            assert forall|id: nat| self.live@.contains(id) implies exists|i: int| #[trigger] self.reads_at(i, id) by {
                let i = choose|i: int| #[trigger] old(self).reads_at(i, id);
                assert(self.reads_at(i, id));
            }
            if self.live@ == Set::<nat>::empty() {
                assert forall|i: int| 0 <= i < self.queue.len() && #[trigger] self.queue.claimed(i) implies false by {
                    assert(self.live@.contains(self.sections@[i]));
                }
            } else {
                if forall|id: nat| !self.live@.contains(id) {
                    assert(self.live@ =~= Set::<nat>::empty());
                }
                let id = choose|id: nat| self.live@.contains(id);
                let i = choose|i: int| #[trigger] self.waits_at(i, id, capture.0);
                assert(self.queue.claimed(i));
            }
            assert forall|g: RawGuard| old(self).guard_open(&g) implies #[trigger] self.guard_open(&g) by {
                assert(self.reads_at(g.node.index(), g.section@));
            }
        }
        capture
    }

    fn readers_have_exited(&mut self, capture: &mut Capture) -> (done: bool) {
        let count: u32 = capture.0;
        let holds = |held: &u32| -> (same: bool)
            ensures
                same == (*held == count),
            { *held == count };
        let found = self.queue.any(holds);
        proof {
            if found {
                let i = choose|i: int| 0 <= i < self.queue.len() && self.queue.claimed(i) && call_ensures(holds, (&#[trigger] self.queue.value(i),), true);
                assert(self.queue.value(i) == count);
            } else {
                assert forall|i: int| 0 <= i < self.queue.len() && #[trigger] self.queue.claimed(i) implies self.queue.value(i) != count by {
                    assert(call_ensures(holds, (&self.queue.value(i),), false));
                }
            }
        }
        !found
    }

    fn pause(&mut self, capture: &mut Capture)
        ensures
            *final(self) == *old(self),
            *final(capture) == *old(capture),
    {
        self.waiter.pause()
    }

    fn begin_guard(&mut self, tag: &mut ReaderTag) -> (guard: RawGuard) {
        let ghost id = self.issued@;
        let ghost before = self.queue;
        let node = self.queue.allocate(0);
        let ghost claimed = self.queue;
        let count: u32 = self.count;
        self.queue.set(&node, count);
        proof {
            let at = node.index();
            self.sections@ = if at < before.len() {
                self.sections@.update(at, id)
            } else {
                self.sections@.push(id)
            };
            self.live@ = self.live@.insert(id);
            self.issued@ = id + 1;
            assert(self.reads_at(at, id));
            assert forall|i: int| 0 <= i < before.len() && i != at implies self.queue.claimed(i) == before.claimed(i) && self.queue.value(i)
                == before.value(i) && self.sections@[i] == old(self).sections@[i] by {
                assert(claimed.claimed(i) == before.claimed(i));
            }
            assert forall|sid: nat| self.live@.contains(sid) implies exists|i: int| #[trigger] self.reads_at(i, sid) by {
                if sid != id {
                    let i = choose|i: int| #[trigger] old(self).reads_at(i, sid);
                    assert(before.claimed(i));
                    assert(self.reads_at(i, sid));
                }
            }
            assert forall|g: RawGuard| old(self).guard_open(&g) implies #[trigger] self.guard_open(&g) by {
                assert(before.claimed(g.node.index()));
                assert(self.reads_at(g.node.index(), g.section@));
            }
            assert forall|c: Capture, s: Set<nat>| old(self).covers(&c, s) implies #[trigger] self.covers(&c, s) by {
                assert forall|sid: nat| s.contains(sid) && self.live@.contains(sid) implies exists|i: int| #[trigger]
                    self.waits_at(i, sid, c.0) by {
                    let i = choose|i: int| #[trigger] old(self).waits_at(i, sid, c.0);
                    assert(before.claimed(i));
                    assert(self.waits_at(i, sid, c.0));
                }
            }
        }
        RawGuard { node, section: Ghost(id) }
    }

    fn end_guard(&mut self, guard: RawGuard) {
        let ghost before = self.queue;
        let ghost at = guard.node.index();
        self.queue.release(guard.node);
        self.waiter.notify();
        proof {
            self.live@ = self.live@.remove(guard.section@);
            assert forall|sid: nat| self.live@.contains(sid) implies exists|i: int| #[trigger] self.reads_at(i, sid) by {
                let i = choose|i: int| #[trigger] old(self).reads_at(i, sid);
                assert(before.claimed(i) && before.claimed(at));
                assert(self.reads_at(i, sid));
            }
            assert forall|g: RawGuard|
                old(self).guard_open(&g) && Self::guard_id(&g) != Self::guard_id(&guard) implies #[trigger] self.guard_open(&g) by {
                assert(self.reads_at(g.node.index(), g.section@));
            }
            assert forall|t: ReaderTag, g: RawGuard|
                old(self).inside(&t, &g) && Self::guard_id(&g) != Self::guard_id(&guard) implies #[trigger] self.inside(&t, &g) by {
                assert(self.reads_at(g.node.index(), g.section@));
            }
            assert forall|c: Capture, s: Set<nat>| old(self).covers(&c, s) implies #[trigger] self.covers(&c, s) by {
                assert forall|sid: nat| s.contains(sid) && self.live@.contains(sid) implies exists|i: int| #[trigger]
                    self.waits_at(i, sid, c.0) by {
                    let i = choose|i: int| #[trigger] old(self).waits_at(i, sid, c.0);
                    assert(before.claimed(i) && before.claimed(at));
                    assert(self.waits_at(i, sid, c.0));
                }
            }
        }
    }
}

} // verus!
