use vstd::prelude::*;
use crate::base::{Inner, Reader, Writer};
use crate::traits::Strategy;

verus! {

/// Counts the readers that are inside a read section, in one word that
/// threads may share. A swap can start only while the count is zero, and is
/// then complete at once.
pub struct AtomicStrategy {
    readers: usize,
    live: Ghost<Set<nat>>,
    issued: Ghost<nat>,
    registered: Ghost<nat>,
}

#[derive(Clone, Copy)]
pub struct ReaderTag {
    id: Ghost<nat>,
}

pub struct WriterTag(());

pub struct RawGuard {
    section: Ghost<nat>,
}

pub struct Capture(());

/// A swap was asked for while a read section was open.
#[derive(Debug)]
pub struct CaptureError(());

impl AtomicStrategy {
    /// How many read sections are open.
    pub closed spec fn readers(&self) -> nat {
        self.readers as nat
    }

    pub fn new() -> (strategy: Self)
        ensures
            strategy.wf(),
            strategy.settled(),
            strategy.can_register(),
            strategy.has_room(),
            strategy.can_capture(),
            strategy.readers() == 0,
            strategy.issued() == 0,
            strategy.registered() == 0,
            strategy.active() == Set::<nat>::empty(),
    {
        Self { readers: 0, live: Ghost(Set::empty()), issued: Ghost(0), registered: Ghost(0) }
    }

    /// The count is the number of open sections.
    pub proof fn lemma_readers(&self)
        requires
            self.wf(),
        ensures
            self.readers() == self.active().len(),
            self.can_capture() <==> self.active() == Set::<nat>::empty(),
            self.has_room() <==> self.readers() < usize::MAX,
            forall|t: ReaderTag| self.tag_ready(&t) <==> self.has_room(),
    {
        if self.live@.len() == 0 {
            assert(self.live@ =~= Set::<nat>::empty());
        }
    }
}

impl Default for AtomicStrategy {
    fn default() -> (strategy: Self)
        ensures
            strategy.wf(),
            strategy.settled(),
            strategy.can_register(),
            strategy.has_room(),
            strategy.can_capture(),
            strategy.readers() == 0,
            strategy.issued() == 0,
            strategy.registered() == 0,
            strategy.active() == Set::<nat>::empty(),
    {
        Self::new()
    }
}

impl Strategy for AtomicStrategy {
    type ReaderTag = ReaderTag;

    type WriterTag = WriterTag;

    type RawGuard = RawGuard;

    type FastCapture = Capture;

    type CaptureError = CaptureError;

    type Capture = Capture;

    closed spec fn wf(&self) -> bool {
        &&& self.live@.finite()
        &&& self.live@.len() == self.readers
        &&& forall|id: nat| self.live@.contains(id) ==> id < self.issued@
    }

    closed spec fn issued(&self) -> nat {
        self.issued@
    }

    closed spec fn registered(&self) -> nat {
        self.registered@
    }

    closed spec fn active(&self) -> Set<nat> {
        self.live@
    }

    open spec fn settled(&self) -> bool {
        true
    }

    open spec fn can_register(&self) -> bool {
        true
    }

    closed spec fn has_room(&self) -> bool {
        self.readers < usize::MAX
    }

    closed spec fn tag_id(tag: &ReaderTag) -> nat {
        tag.id@
    }

    closed spec fn guard_id(guard: &RawGuard) -> nat {
        guard.section@
    }

    closed spec fn inside(&self, tag: &ReaderTag, guard: &RawGuard) -> bool {
        self.live@.contains(guard.section@)
    }

    closed spec fn tag_ready(&self, tag: &ReaderTag) -> bool {
        self.readers < usize::MAX
    }

    closed spec fn guard_open(&self, guard: &RawGuard) -> bool {
        self.live@.contains(guard.section@)
    }

    closed spec fn can_capture(&self) -> bool {
        self.readers == 0
    }

    closed spec fn admits(&self, fast: &Capture) -> bool {
        self.readers == 0
    }

    closed spec fn covers(&self, capture: &Capture, sections: Set<nat>) -> bool {
        forall|id: nat| sections.contains(id) ==> id < self.issued@ && !self.live@.contains(id)
    }

    open spec fn drained(&self, capture: &Capture) -> bool {
        true
    }

    proof fn lemma_sections(&self) {
    }

    proof fn lemma_can_register(&self) {
    }

    proof fn lemma_guard_open(&self, guard: &RawGuard) {
    }

    proof fn lemma_covers_none(&self, capture: &Capture, sections: Set<nat>) {
    }

    proof fn lemma_quiet(&self, capture: &Capture, sections: Set<nat>) {
    }

    proof fn lemma_drained(&self, capture: &Capture, sections: Set<nat>) {
    }

    fn reader_tag(&mut self) -> (tag: ReaderTag) {
        let ghost id = self.registered@;
        proof {
            self.registered@ = self.registered@ + 1;
        }
        ReaderTag { id: Ghost(id) }
    }

    fn writer_tag(&mut self) -> (tag: WriterTag) {
        WriterTag(())
    }

    fn release_tag(&mut self, tag: ReaderTag) {
    }

    fn try_capture_readers(&mut self, tag: &mut WriterTag) -> (fast: Result<Capture, CaptureError>) {
        if self.readers == 0 {
            Ok(Capture(()))
        } else {
            Err(CaptureError(()))
        }
    }

    fn finish_capture_readers(&mut self, tag: &mut WriterTag, fast: Capture) -> (capture: Capture) {
        proof {
            assert(self.live@ =~= Set::<nat>::empty());
        }
        fast
    }

    fn readers_have_exited(&mut self, capture: &mut Capture) -> (done: bool) {
        true
    }

    fn begin_guard(&mut self, tag: &mut ReaderTag) -> (guard: RawGuard) {
        let ghost id = self.issued@;
        self.readers = self.readers + 1;
        proof {
            self.live@ = self.live@.insert(id);
            self.issued@ = id + 1;
        }
        RawGuard { section: Ghost(id) }
    }

    fn end_guard(&mut self, guard: RawGuard) {
        self.readers = self.readers - 1;
        proof {
            self.live@ = self.live@.remove(guard.section@);
        }
    }
}

/// Two buffers with a strategy of their own, their writer and a first reader.
/// The first buffer is the writer's to begin with.
pub fn from_buffers<B>(front: B, back: B) -> (parts: (
    Inner<[B; 2], AtomicStrategy>,
    Writer<AtomicStrategy>,
    Reader<AtomicStrategy>,
))
    ensures
        parts.0.wf(),
        parts.0.has_writer(),
        parts.0.strong_count() == 1,
        !parts.0.which(),
        !parts.0.swap_pending(),
        parts.0.writer_side() == front,
        parts.0.reader_side() == back,
        parts.0.strategy_view().active() == Set::<nat>::empty(),
        parts.0.strategy_view().tag_ready(&parts.2.tag()),
{
    let mut inner = Inner::new(<AtomicStrategy>::new(), front, back);
    let (writer, reader) = crate::base::new(&mut inner);
    (inner, writer, reader)
}

/// Two buffers made by `B::default`, with a strategy of their own, their
/// writer and a first reader.
pub fn new<B: Default>() -> (parts: (
    Inner<[B; 2], AtomicStrategy>,
    Writer<AtomicStrategy>,
    Reader<AtomicStrategy>,
))
    ensures
        parts.0.wf(),
        parts.0.has_writer(),
        parts.0.strong_count() == 1,
        !parts.0.which(),
        !parts.0.swap_pending(),
        B::default.ensures((), parts.0.writer_side()),
        B::default.ensures((), parts.0.reader_side()),
        parts.0.strategy_view().active() == Set::<nat>::empty(),
        parts.0.strategy_view().tag_ready(&parts.2.tag()),
{
    from_buffers(B::default(), B::default())
}

} // verus!
