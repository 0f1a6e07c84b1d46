use vstd::prelude::*;
use crate::traits::Strategy;

verus! {

/// Tracks readers with a read-write lock: a reader holds the lock shared for
/// as long as its read section is open, and the writer's swap is complete once
/// it has had the lock to itself for a moment.
///
/// The lock is kept as the count of those who hold it shared. The writer gets
/// it only while that count is zero; it asks for it each time it looks at its
/// capture, and gives it back at once.
pub struct LockStrategy {
    wait_to_swap: bool,
    shared: usize,
    live: Ghost<Set<nat>>,
    issued: Ghost<nat>,
    registered: Ghost<nat>,
}

pub struct ReaderTag {
    id: Ghost<nat>,
}

pub struct WriterTag(());

pub struct RawGuard {
    section: Ghost<nat>,
}

pub struct FastCapture(());

pub struct Capture(());

impl LockStrategy {
    /// How many hold the lock shared.
    pub closed spec fn shared(&self) -> nat {
        self.shared as nat
    }

    /// The writer waits for the lock.
    pub closed spec fn wait_to_swap(&self) -> bool {
        self.wait_to_swap
    }

    pub fn new() -> (strategy: Self)
        ensures
            strategy.wf(),
            strategy.settled(),
            strategy.can_register(),
            strategy.has_room(),
            strategy.can_capture(),
            strategy.shared() == 0,
            !strategy.wait_to_swap(),
            strategy.issued() == 0,
            strategy.registered() == 0,
            strategy.active() == Set::<nat>::empty(),
    {
        Self { wait_to_swap: false, shared: 0, live: Ghost(Set::empty()), issued: Ghost(0), registered: Ghost(0) }
    }

    /// The lock is held shared once for each open section.
    pub proof fn lemma_shared(&self)
        requires
            self.wf(),
        ensures
            self.shared() == self.active().len(),
            self.has_room() <==> self.shared() < usize::MAX,
            forall|t: ReaderTag| self.tag_ready(&t) <==> self.has_room(),
    {
    }

    /// Takes the lock for the writer alone, if nobody holds it.
    fn try_lock_exclusive(&self) -> (locked: bool)
        ensures
            locked == (self.shared() == 0),
    {
        self.shared == 0
    }

    /// Gives up one shared hold.
    fn unlock_shared(&mut self)
        requires
            old(self).shared() > 0,
        ensures
            final(self).shared() == old(self).shared() - 1,
            final(self).wait_to_swap() == old(self).wait_to_swap(),
            final(self).live == old(self).live,
            final(self).issued == old(self).issued,
            final(self).registered == old(self).registered,
    {
        self.shared = self.shared - 1;
    }

    /// Gives up one shared hold, and lets a writer that waits go first.
    fn unlock_shared_fair(&mut self)
        requires
            old(self).shared() > 0,
        ensures
            final(self).shared() == old(self).shared() - 1,
            final(self).wait_to_swap() == old(self).wait_to_swap(),
            final(self).live == old(self).live,
            final(self).issued == old(self).issued,
            final(self).registered == old(self).registered,
    {
        self.shared = self.shared - 1;
    }
}

impl Default for LockStrategy {
    fn default() -> (strategy: Self)
        ensures
            strategy.wf(),
            strategy.settled(),
            strategy.can_register(),
            strategy.has_room(),
            strategy.can_capture(),
            strategy.shared() == 0,
            !strategy.wait_to_swap(),
            strategy.issued() == 0,
            strategy.registered() == 0,
            strategy.active() == Set::<nat>::empty(),
    {
        Self::new()
    }
}

impl Strategy for LockStrategy {
    type ReaderTag = ReaderTag;

    type WriterTag = WriterTag;

    type RawGuard = RawGuard;

    type FastCapture = FastCapture;

    type CaptureError = core::convert::Infallible;

    type Capture = Capture;

    closed spec fn wf(&self) -> bool {
        &&& self.live@.finite()
        &&& self.live@.len() == self.shared
        &&& forall|id: nat| self.live@.contains(id) ==> id < self.issued@
    }

    closed spec fn issued(&self) -> nat {
        self.issued@
    }

    closed spec fn registered(&self) -> nat {
        self.registered@
    }

    closed spec fn active(&self) -> Set<nat> {
        self.live@
    }

    open spec fn settled(&self) -> bool {
        true
    }

    open spec fn can_register(&self) -> bool {
        true
    }

    closed spec fn has_room(&self) -> bool {
        self.shared < usize::MAX
    }

    closed spec fn tag_id(tag: &ReaderTag) -> nat {
        tag.id@
    }

    closed spec fn guard_id(guard: &RawGuard) -> nat {
        guard.section@
    }

    closed spec fn inside(&self, tag: &ReaderTag, guard: &RawGuard) -> bool {
        self.live@.contains(guard.section@)
    }

    closed spec fn tag_ready(&self, tag: &ReaderTag) -> bool {
        self.shared < usize::MAX
    }

    closed spec fn guard_open(&self, guard: &RawGuard) -> bool {
        self.live@.contains(guard.section@)
    }

    open spec fn can_capture(&self) -> bool {
        true
    }

    open spec fn admits(&self, fast: &FastCapture) -> bool {
        true
    }

    closed spec fn covers(&self, capture: &Capture, sections: Set<nat>) -> bool {
        forall|id: nat| sections.contains(id) ==> id < self.issued@
    }

    closed spec fn drained(&self, capture: &Capture) -> bool {
        self.shared == 0
    }

    proof fn lemma_sections(&self) {
    }

    proof fn lemma_can_register(&self) {
    }

    proof fn lemma_guard_open(&self, guard: &RawGuard) {
    }

    proof fn lemma_covers_none(&self, capture: &Capture, sections: Set<nat>) {
    }

    proof fn lemma_quiet(&self, capture: &Capture, sections: Set<nat>) {
    }

    proof fn lemma_drained(&self, capture: &Capture, sections: Set<nat>) {
        assert(self.live@.len() == 0);
        assert(self.live@ =~= Set::<nat>::empty());
    }

    fn reader_tag(&mut self) -> (tag: ReaderTag) {
        let ghost id = self.registered@;
        proof {
            self.registered@ = self.registered@ + 1;
        }
        ReaderTag { id: Ghost(id) }
    }

    fn writer_tag(&mut self) -> (tag: WriterTag) {
        WriterTag(())
    }

    fn release_tag(&mut self, tag: ReaderTag) {
    }

    fn try_capture_readers(&mut self, tag: &mut WriterTag) -> (fast: Result<FastCapture, core::convert::Infallible>) {
        Ok(FastCapture(()))
    }

    fn finish_capture_readers(&mut self, tag: &mut WriterTag, fast: FastCapture) -> (capture: Capture) {
        self.wait_to_swap = true;
        proof {
            if self.live@.len() == 0 {
                assert(self.live@ =~= Set::<nat>::empty());
            }
        }
        Capture(())
    }

    fn readers_have_exited(&mut self, capture: &mut Capture) -> (done: bool) {
        if self.try_lock_exclusive() {
            self.wait_to_swap = false;
            true
        } else {
            false
        }
    }

    fn begin_guard(&mut self, tag: &mut ReaderTag) -> (guard: RawGuard) {
        let ghost id = self.issued@;
        self.shared = self.shared + 1;
        proof {
            self.live@ = self.live@.insert(id);
            self.issued@ = id + 1;
        }
        RawGuard { section: Ghost(id) }
    }

    fn end_guard(&mut self, guard: RawGuard) {
        if self.wait_to_swap {
            self.unlock_shared_fair();
        } else {
            self.unlock_shared();
        }
        proof {
            self.live@ = self.live@.remove(guard.section@);
        }
    }
}

} // verus!
