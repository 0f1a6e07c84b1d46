use vstd::prelude::*;
use parking_lot_core::{FilterOp, ParkToken, SpinWait};
use crate::traits::Strategy;

pub mod park;

verus! {

/// `parking_lot_core::FilterOp`: what is to be done with one parked thread
/// while the list of parked threads is scanned.
#[verifier::external_type_specification]
pub struct ExFilterOp(FilterOp);

/// `parking_lot_core::ParkToken`: the number that a thread leaves when it
/// parks.
#[verifier::external_type_specification]
pub struct ExParkToken(ParkToken);

/// The number that the writer leaves when it parks.
pub const SWAP_TOKEN: usize = 0;

/// The number that a reader leaves when it parks.
pub const READ_TOKEN: usize = 1;

/// The number that the writer is woken with by the reader that leaves.
pub const SWAP_HANDOFF: usize = 0;

/// The number that readers are woken with when a swap is over.
pub const UNPARK_ALL: usize = 1;

/// What one reader adds to the lock word.
pub const ONE_READER: usize = 0b100;

/// The bit of the lock word that is set while the writer waits.
pub const PENDING_SWAP: usize = 0b01;

/// The bit of the lock word that is set while readers wait.
pub const PENDING_READERS: usize = 0b10;

/// How many readers the lock word counts.
pub open spec fn readers_in(lock: usize) -> nat {
    (lock / 4) as nat
}

/// The lock word says that the writer waits.
pub open spec fn swap_pending_in(lock: usize) -> bool {
    lock % 2 == 1
}

/// The lock word after one more reader has entered, if one may: none may
/// while the writer waits, nor when the count is at its limit.
pub open spec fn entered(lock: usize) -> Option<usize> {
    if swap_pending_in(lock) || lock + ONE_READER > usize::MAX {
        None
    } else {
        Some((lock + ONE_READER) as usize)
    }
}

/// What a reader does with the lock word to enter.
pub fn enter(lock: usize) -> (next: Option<usize>)
    ensures
        next == entered(lock),
{
    assert((lock & 1usize == 0usize) <==> lock % 2 == 0) by (bit_vector);
    if lock & PENDING_SWAP != 0 {
        return None;
    }
    lock.checked_add(ONE_READER)
}

/// Says whether a reader that cannot enter is to park: it is while the writer
/// waits.
pub fn reader_must_wait(lock: usize) -> (wait: bool)
    ensures
        wait == swap_pending_in(lock),
{
    assert((lock & 1usize == 0usize) <==> lock % 2 == 0) by (bit_vector);
    lock & PENDING_SWAP != 0
}

/// Says whether the writer is to park: it is while the lock word holds
/// anything beside its own bit.
pub fn swap_must_wait(lock: usize) -> (wait: bool)
    ensures
        wait == (lock / 2 != 0),
{
    assert((lock & !1usize != 0usize) <==> lock / 2 != 0) by (bit_vector);
    lock & !PENDING_SWAP != 0
}

/// Says whether a reader that leaves looks for a parked writer to wake. `old`
/// is the lock word as the reader found it. It does not look when it was the
/// only reader and the writer waited.
pub fn leave_wakes(old: usize) -> (wake: bool)
    ensures
        wake == (old != 5),
{
    assert(1usize | 4usize == 5usize) by (bit_vector);
    old != PENDING_SWAP | ONE_READER
}

/// Says whether the writer wakes the parked readers at the end of a swap.
/// `old` is the lock word as the writer found it.
pub fn finish_wakes(old: usize) -> (wake: bool)
    ensures
        wake == (old != 0),
{
    old != 0
}

/// What a reader that leaves does with one parked thread, where `found_swap`
/// says whether it has come upon the writer already: the writer is woken,
/// readers before it are passed over, and the scan stops at the first thread
/// after it.
pub fn wake_filter(found_swap: bool, token: ParkToken) -> (step: (bool, FilterOp))
    ensures
        token.0 == SWAP_TOKEN ==> step == (true, FilterOp::Unpark),
        token.0 != SWAP_TOKEN && found_swap ==> step == (true, FilterOp::Stop),
        token.0 != SWAP_TOKEN && !found_swap ==> step == (false, FilterOp::Skip),
{
    if token.0 == SWAP_TOKEN {
        (true, FilterOp::Unpark)
    } else if found_swap {
        (found_swap, FilterOp::Stop)
    } else {
        (found_swap, FilterOp::Skip)
    }
}

/// How one try of a reader that found the fast way shut has ended.
#[derive(Clone, Copy, Debug, PartialEq, Eq, Structural)]
pub enum Attempt {
    /// The reader is inside its read section.
    Entered,
    /// The reader has spun for a moment and is to try again.
    Spun,
    /// Spinning pays no more: the reader is to park, and to try again when it
    /// wakes.
    Park,
}

/// Counts the readers in a lock word that also holds a bit for a writer that
/// waits. The writer's swap is complete when the word is zero; while it waits
/// no reader enters.
pub struct SyncStrategy {
    lock: usize,
    live: Ghost<Set<nat>>,
    issued: Ghost<nat>,
    registered: Ghost<nat>,
}

pub struct ReaderTag {
    id: Ghost<nat>,
}

pub struct WriterTag(());

pub struct RawGuard {
    section: Ghost<nat>,
}

pub struct Capture(());

impl SyncStrategy {
    /// The lock word.
    pub closed spec fn lock(&self) -> usize {
        self.lock
    }

    pub fn new() -> (strategy: Self)
        ensures
            strategy.wf(),
            strategy.settled(),
            strategy.can_register(),
            strategy.has_room(),
            strategy.can_capture(),
            strategy.lock() == 0,
            strategy.issued() == 0,
            strategy.registered() == 0,
            strategy.active() == Set::<nat>::empty(),
    {
        Self { lock: 0, live: Ghost(Set::empty()), issued: Ghost(0), registered: Ghost(0) }
    }

    /// The lock word counts the open sections.
    pub proof fn lemma_lock(&self)
        requires
            self.wf(),
        ensures
            readers_in(self.lock()) == self.active().len(),
            self.settled() <==> self.lock() % 4 == 0,
            self.has_room() <==> entered(self.lock()) is Some,
            forall|t: ReaderTag| self.tag_ready(&t) <==> entered(self.lock()) is Some,
    {
    }

    /// Sets the writer's bit, and says whether the writer is to park. After
    /// the pause, [`SyncStrategy::end_pause`] takes the bit back.
    pub fn begin_pause(&mut self) -> (park: bool)
        requires
            old(self).wf(),
        ensures
            final(self).wf(),
            swap_pending_in(final(self).lock()),
            final(self).lock() / 4 == old(self).lock() / 4,
            final(self).lock() / 2 == old(self).lock() / 2,
            park == (old(self).lock() / 2 != 0),
            final(self).issued() == old(self).issued(),
            final(self).registered() == old(self).registered(),
            final(self).active() == old(self).active(),
    {
        let lock: usize = self.lock;
        assert((lock | 1usize) / 4 == lock / 4 && (lock | 1usize) / 2 == lock / 2 && (lock | 1usize) % 2 == 1) by (bit_vector);
        self.lock = lock | PENDING_SWAP;
        swap_must_wait(self.lock)
    }

    /// Takes the writer's bit back.
    pub fn end_pause(&mut self)
        requires
            old(self).wf(),
        ensures
            final(self).wf(),
            !swap_pending_in(final(self).lock()),
            final(self).lock() / 4 == old(self).lock() / 4,
            final(self).lock() / 2 == old(self).lock() / 2,
            final(self).issued() == old(self).issued(),
            final(self).registered() == old(self).registered(),
            final(self).active() == old(self).active(),
    {
        let lock: usize = self.lock;
        assert((lock & !1usize) / 4 == lock / 4 && (lock & !1usize) / 2 == lock / 2 && (lock & !1usize) % 2 == 0) by (bit_vector);
        self.lock = lock & !PENDING_SWAP;
    }

    /// One try to enter for a reader that found the fast way shut. The reader
    /// enters if it may now. If not it spins for a moment, or is told to park
    /// once spinning pays no more.
    pub fn begin_guard_slow(&mut self, spin: &mut SpinWait) -> (outcome: (Attempt, Option<RawGuard>))
        requires
            old(self).wf(),
        ensures
            final(self).wf(),
            outcome.0 == Attempt::Entered <==> entered(old(self).lock()) is Some,
            outcome.1 is Some <==> outcome.0 == Attempt::Entered,
            outcome.0 != Attempt::Entered ==> *final(self) == *old(self),
            outcome.1 matches Some(guard) ==> {
                &&& Some(final(self).lock()) == entered(old(self).lock())
                &&& Self::guard_id(&guard) == old(self).issued()
                &&& final(self).guard_open(&guard)
                &&& final(self).issued() == old(self).issued() + 1
                &&& final(self).registered() == old(self).registered()
                &&& final(self).active() == old(self).active().insert(old(self).issued())
            },
    {
        match enter(self.lock) {
            Some(next) => {
                let ghost id = self.issued@;
                self.lock = next;
                proof {
                    self.live@ = self.live@.insert(id);
                    self.issued@ = id + 1;
                }
                (Attempt::Entered, Some(RawGuard { section: Ghost(id) }))
            },
            None => {
                if spin.spin() {
                    (Attempt::Spun, None)
                } else {
                    spin.reset();
                    (Attempt::Park, None)
                }
            },
        }
    }
}

impl Default for SyncStrategy {
    fn default() -> (strategy: Self)
        ensures
            strategy.wf(),
            strategy.settled(),
            strategy.can_register(),
            strategy.has_room(),
            strategy.can_capture(),
            strategy.lock() == 0,
            strategy.issued() == 0,
            strategy.registered() == 0,
            strategy.active() == Set::<nat>::empty(),
    {
        Self::new()
    }
}

impl Strategy for SyncStrategy {
    type ReaderTag = ReaderTag;

    type WriterTag = WriterTag;

    type RawGuard = RawGuard;

    type FastCapture = Capture;

    type CaptureError = core::convert::Infallible;

    type Capture = Capture;

    closed spec fn wf(&self) -> bool {
        &&& self.live@.finite()
        &&& self.live@.len() == self.lock / 4
        &&& self.lock % 4 < 2
        &&& forall|id: nat| self.live@.contains(id) ==> id < self.issued@
    }

    closed spec fn issued(&self) -> nat {
        self.issued@
    }

    closed spec fn registered(&self) -> nat {
        self.registered@
    }

    closed spec fn active(&self) -> Set<nat> {
        self.live@
    }

    closed spec fn settled(&self) -> bool {
        self.lock % 4 == 0
    }

    open spec fn can_register(&self) -> bool {
        true
    }

    closed spec fn has_room(&self) -> bool {
        entered(self.lock) is Some
    }

    closed spec fn tag_id(tag: &ReaderTag) -> nat {
        tag.id@
    }

    closed spec fn guard_id(guard: &RawGuard) -> nat {
        guard.section@
    }

    closed spec fn inside(&self, tag: &ReaderTag, guard: &RawGuard) -> bool {
        self.live@.contains(guard.section@) && !swap_pending_in(self.lock)
    }

    closed spec fn tag_ready(&self, tag: &ReaderTag) -> bool {
        entered(self.lock) is Some
    }

    closed spec fn guard_open(&self, guard: &RawGuard) -> bool {
        self.live@.contains(guard.section@)
    }

    open spec fn can_capture(&self) -> bool {
        true
    }

    open spec fn admits(&self, fast: &Capture) -> bool {
        true
    }

    closed spec fn covers(&self, capture: &Capture, sections: Set<nat>) -> bool {
        &&& !swap_pending_in(self.lock)
        &&& forall|id: nat| sections.contains(id) ==> id < self.issued@
    }

    closed spec fn drained(&self, capture: &Capture) -> bool {
        self.lock == 0
    }

    proof fn lemma_sections(&self) {
    }

    proof fn lemma_can_register(&self) {
    }

    proof fn lemma_guard_open(&self, guard: &RawGuard) {
    }

    proof fn lemma_covers_none(&self, capture: &Capture, sections: Set<nat>) {
    }

    proof fn lemma_quiet(&self, capture: &Capture, sections: Set<nat>) {
    }

    proof fn lemma_drained(&self, capture: &Capture, sections: Set<nat>) {
        assert(self.live@.len() == 0);
        assert(self.live@ =~= Set::<nat>::empty());
    }

    fn reader_tag(&mut self) -> (tag: ReaderTag) {
        let ghost id = self.registered@;
        proof {
            self.registered@ = self.registered@ + 1;
        }
        ReaderTag { id: Ghost(id) }
    }

    fn writer_tag(&mut self) -> (tag: WriterTag) {
        WriterTag(())
    }

    fn release_tag(&mut self, tag: ReaderTag) {
    }

    fn try_capture_readers(&mut self, tag: &mut WriterTag) -> (fast: Result<Capture, core::convert::Infallible>) {
        Ok(Capture(()))
    }

    fn finish_capture_readers(&mut self, tag: &mut WriterTag, fast: Capture) -> (capture: Capture) {
        proof {
            if self.live@.len() == 0 {
                assert(self.live@ =~= Set::<nat>::empty());
            }
        }
        Capture(())
    }

    fn readers_have_exited(&mut self, capture: &mut Capture) -> (done: bool) {
        self.lock == 0
    }

    fn finish_capture(&mut self, tag: &WriterTag, capture: Capture)
        ensures
            final(self).lock() == old(self).lock(),
    {
        let lock: usize = self.lock;
        assert(lock % 4 < 2 ==> (lock & !2usize) == lock) by (bit_vector);
        self.lock = lock & !PENDING_READERS;
    }

    fn pause(&mut self, capture: &mut Capture)
        ensures
            final(self).lock() == old(self).lock(),
    {
        let _ = self.begin_pause();
        self.end_pause();
        assert(self.lock == old(self).lock);
    }

    fn begin_guard(&mut self, tag: &mut ReaderTag) -> (guard: RawGuard) {
        let ghost id = self.issued@;
        match enter(self.lock) {
            Some(next) => {
                self.lock = next;
            },
            None => {},
        }
        proof {
            self.live@ = self.live@.insert(id);
            self.issued@ = id + 1;
        }
        RawGuard { section: Ghost(id) }
    }

    fn end_guard(&mut self, guard: RawGuard) {
        self.lock = self.lock - ONE_READER;
        proof {
            self.live@ = self.live@.remove(guard.section@);
        }
    }
}

} // verus!
