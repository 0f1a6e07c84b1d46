use vstd::prelude::*;
use crate::strategy::saving::{RawGuard as RawRawGuard, ReaderTag as RawReaderTag, SavingStrategy, WriterTag as RawWriterTag};
use crate::base::{Inner, Reader, Writer};
use crate::traits::Strategy;

verus! {

/// The saving strategy for use on one thread: every reader has a counter that
/// is odd while the reader is inside a read section, and a capture waits for the
/// counters that were odd at the flip to move on. The registry of counters has
/// no room in place: it lives on the heap.
pub struct LocalSavingStrategy {
    raw: SavingStrategy<0>,
}

pub struct FastCapture(crate::strategy::saving::FastCapture);

pub struct Capture(crate::strategy::saving::Capture<0>);

pub struct ReaderTag(RawReaderTag);

pub struct WriterTag(RawWriterTag);

pub struct RawGuard(RawRawGuard);

impl LocalSavingStrategy {
    /// The strategy that does the work.
    pub closed spec fn raw(&self) -> SavingStrategy<0> {
        self.raw
    }

    /// What holds of this strategy is what holds of the one that does the
    /// work.
    pub proof fn lemma_raw(&self)
        ensures
            self.wf() == self.raw().wf(),
            self.issued() == self.raw().issued(),
            self.registered() == self.raw().registered(),
            self.active() == self.raw().active(),
            self.settled() == self.raw().settled(),
            self.can_register() == self.raw().can_register(),
            self.has_room() == self.raw().has_room(),
            self.can_capture() == self.raw().can_capture(),
    {
    }

    pub fn new() -> (strategy: Self)
        ensures
            strategy.wf(),
            strategy.settled(),
            strategy.can_register(),
            strategy.has_room(),
            strategy.can_capture(),
            strategy.issued() == 0,
            strategy.registered() == 0,
            strategy.active() == Set::<nat>::empty(),
    {
        Self { raw: <SavingStrategy<0>>::new() }
    }
}

impl Default for LocalSavingStrategy {
    fn default() -> (strategy: Self)
        ensures
            strategy.wf(),
            strategy.settled(),
            strategy.can_register(),
            strategy.has_room(),
            strategy.can_capture(),
            strategy.issued() == 0,
            strategy.registered() == 0,
            strategy.active() == Set::<nat>::empty(),
    {
        Self::new()
    }
}

impl Strategy for LocalSavingStrategy {
    type ReaderTag = ReaderTag;

    type WriterTag = WriterTag;

    type RawGuard = RawGuard;

    type FastCapture = FastCapture;

    type CaptureError = core::convert::Infallible;

    type Capture = Capture;

    closed spec fn wf(&self) -> bool {
        self.raw.wf()
    }

    closed spec fn issued(&self) -> nat {
        self.raw.issued()
    }

    closed spec fn registered(&self) -> nat {
        self.raw.registered()
    }

    closed spec fn active(&self) -> Set<nat> {
        self.raw.active()
    }

    closed spec fn settled(&self) -> bool {
        self.raw.settled()
    }

    closed spec fn can_register(&self) -> bool {
        self.raw.can_register()
    }

    closed spec fn has_room(&self) -> bool {
        self.raw.has_room()
    }

    closed spec fn tag_id(tag: &ReaderTag) -> nat {
        <SavingStrategy<0>>::tag_id(&tag.0)
    }

    closed spec fn guard_id(guard: &RawGuard) -> nat {
        <SavingStrategy<0>>::guard_id(&guard.0)
    }

    closed spec fn inside(&self, tag: &ReaderTag, guard: &RawGuard) -> bool {
        self.raw.inside(&tag.0, &guard.0)
    }

    closed spec fn tag_ready(&self, tag: &ReaderTag) -> bool {
        self.raw.tag_ready(&tag.0)
    }

    closed spec fn guard_open(&self, guard: &RawGuard) -> bool {
        self.raw.guard_open(&guard.0)
    }

    closed spec fn can_capture(&self) -> bool {
        self.raw.can_capture()
    }

    closed spec fn admits(&self, fast: &FastCapture) -> bool {
        self.raw.admits(&fast.0)
    }

    closed spec fn covers(&self, capture: &Capture, sections: Set<nat>) -> bool {
        self.raw.covers(&capture.0, sections)
    }

    closed spec fn drained(&self, capture: &Capture) -> bool {
        self.raw.drained(&capture.0)
    }

    proof fn lemma_sections(&self) {
        self.raw.lemma_sections();
    }

    proof fn lemma_can_register(&self) {
        self.raw.lemma_can_register();
    }

    proof fn lemma_guard_open(&self, guard: &RawGuard) {
        self.raw.lemma_guard_open(&guard.0);
    }

    proof fn lemma_covers_none(&self, capture: &Capture, sections: Set<nat>) {
        self.raw.lemma_covers_none(&capture.0, sections);
    }

    proof fn lemma_quiet(&self, capture: &Capture, sections: Set<nat>) {
        self.raw.lemma_quiet(&capture.0, sections);
    }

    proof fn lemma_drained(&self, capture: &Capture, sections: Set<nat>) {
        self.raw.lemma_drained(&capture.0, sections);
    }

    fn reader_tag(&mut self) -> (tag: ReaderTag) {
        ReaderTag(self.raw.reader_tag())
    }

    fn writer_tag(&mut self) -> (tag: WriterTag) {
        WriterTag(self.raw.writer_tag())
    }

    fn release_tag(&mut self, tag: ReaderTag)
        ensures
            !final(self).tag_ready(&tag),
            forall|g: RawGuard| !final(self).inside(&tag, &g),
    {
        self.raw.release_tag(tag.0)
    }

    fn try_capture_readers(&mut self, tag: &mut WriterTag) -> (fast: Result<FastCapture, core::convert::Infallible>) {
        match self.raw.try_capture_readers(&mut tag.0) {
            Ok(fast) => Ok(FastCapture(fast)),
            Err(error) => Err(error),
        }
    }

    fn finish_capture_readers(&mut self, tag: &mut WriterTag, fast: FastCapture) -> (capture: Capture) {
        Capture(self.raw.finish_capture_readers(&mut tag.0, fast.0))
    }

    fn readers_have_exited(&mut self, capture: &mut Capture) -> (done: bool) {
        self.raw.readers_have_exited(&mut capture.0)
    }

    fn finish_capture(&mut self, tag: &WriterTag, capture: Capture) {
        self.raw.finish_capture(&tag.0, capture.0)
    }

    fn begin_guard(&mut self, tag: &mut ReaderTag) -> (guard: RawGuard) {
        RawGuard(self.raw.begin_guard(&mut tag.0))
    }

    fn end_guard(&mut self, guard: RawGuard) {
        self.raw.end_guard(guard.0)
    }
}

/// Two buffers with a strategy of their own, their writer and a first reader.
/// The first buffer is the writer's to begin with.
pub fn from_buffers<B>(front: B, back: B) -> (parts: (
    Inner<[B; 2], LocalSavingStrategy>,
    Writer<LocalSavingStrategy>,
    Reader<LocalSavingStrategy>,
))
    ensures
        parts.0.wf(),
        parts.0.has_writer(),
        parts.0.strong_count() == 1,
        !parts.0.which(),
        !parts.0.swap_pending(),
        parts.0.writer_side() == front,
        parts.0.reader_side() == back,
        parts.0.strategy_view().active() == Set::<nat>::empty(),
        parts.0.strategy_view().tag_ready(&parts.2.tag()),
{
    let mut inner = Inner::new(<LocalSavingStrategy>::new(), front, back);
    let (writer, reader) = crate::base::new(&mut inner);
    (inner, writer, reader)
}

/// Two buffers made by `B::default`, with a strategy of their own, their
/// writer and a first reader.
pub fn new<B: Default>() -> (parts: (
    Inner<[B; 2], LocalSavingStrategy>,
    Writer<LocalSavingStrategy>,
    Reader<LocalSavingStrategy>,
))
    ensures
        parts.0.wf(),
        parts.0.has_writer(),
        parts.0.strong_count() == 1,
        !parts.0.which(),
        !parts.0.swap_pending(),
        B::default.ensures((), parts.0.writer_side()),
        B::default.ensures((), parts.0.reader_side()),
        parts.0.strategy_view().active() == Set::<nat>::empty(),
        parts.0.strategy_view().tag_ready(&parts.2.tag()),
{
    from_buffers(B::default(), B::default())
}

} // verus!
