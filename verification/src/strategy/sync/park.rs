use vstd::prelude::*;
use crate::strategy::hazard::{Pause, Waiter};
use crate::strategy::sync::{Capture as RawCapture, RawGuard as RawRawGuard, ReaderTag as RawReaderTag, SyncStrategy, WriterTag as RawWriterTag};
use crate::traits::Strategy;

verus! {

/// The lock word strategy with a writer that goes to sleep: a wait for readers
/// is a short sleep on a condition variable.
pub struct ParkStrategy {
    raw: SyncStrategy,
    waiter: Waiter,
}

pub struct FastCapture(RawCapture);

pub struct Capture(RawCapture);

pub struct ReaderTag(RawReaderTag);

pub struct WriterTag(RawWriterTag);

pub struct RawGuard(RawRawGuard);

impl ParkStrategy {
    /// The strategy that does the work.
    pub closed spec fn raw(&self) -> SyncStrategy {
        self.raw
    }

    /// Sleeps for a moment.
    fn park(&self) {
        self.waiter.pause()
    }

    /// What holds of this strategy is what holds of the one that does the
    /// work.
    pub proof fn lemma_raw(&self)
        ensures
            self.wf() == self.raw().wf(),
            self.issued() == self.raw().issued(),
            self.registered() == self.raw().registered(),
            self.active() == self.raw().active(),
            self.settled() == self.raw().settled(),
            self.can_register() == self.raw().can_register(),
            self.has_room() == self.raw().has_room(),
            self.can_capture() == self.raw().can_capture(),
    {
    }

    pub fn new() -> (strategy: Self)
        ensures
            strategy.wf(),
            strategy.settled(),
            strategy.can_register(),
            strategy.has_room(),
            strategy.can_capture(),
            strategy.issued() == 0,
            strategy.registered() == 0,
            strategy.active() == Set::<nat>::empty(),
    {
        Self { raw: <SyncStrategy>::new(), waiter: Waiter::new() }
    }
}

impl Default for ParkStrategy {
    fn default() -> (strategy: Self)
        ensures
            strategy.wf(),
            strategy.settled(),
            strategy.can_register(),
            strategy.has_room(),
            strategy.can_capture(),
            strategy.issued() == 0,
            strategy.registered() == 0,
            strategy.active() == Set::<nat>::empty(),
    {
        Self::new()
    }
}

impl Strategy for ParkStrategy {
    type ReaderTag = ReaderTag;

    type WriterTag = WriterTag;

    type RawGuard = RawGuard;

    type FastCapture = FastCapture;

    type CaptureError = core::convert::Infallible;

    type Capture = Capture;

    closed spec fn wf(&self) -> bool {
        self.raw.wf()
    }

    closed spec fn issued(&self) -> nat {
        self.raw.issued()
    }

    closed spec fn registered(&self) -> nat {
        self.raw.registered()
    }

    closed spec fn active(&self) -> Set<nat> {
        self.raw.active()
    }

    closed spec fn settled(&self) -> bool {
        self.raw.settled()
    }

    closed spec fn can_register(&self) -> bool {
        self.raw.can_register()
    }

    closed spec fn has_room(&self) -> bool {
        self.raw.has_room()
    }

    closed spec fn tag_id(tag: &ReaderTag) -> nat {
        <SyncStrategy>::tag_id(&tag.0)
    }

    closed spec fn guard_id(guard: &RawGuard) -> nat {
        <SyncStrategy>::guard_id(&guard.0)
    }

    closed spec fn inside(&self, tag: &ReaderTag, guard: &RawGuard) -> bool {
        self.raw.inside(&tag.0, &guard.0)
    }

    closed spec fn tag_ready(&self, tag: &ReaderTag) -> bool {
        self.raw.tag_ready(&tag.0)
    }

    closed spec fn guard_open(&self, guard: &RawGuard) -> bool {
        self.raw.guard_open(&guard.0)
    }

    closed spec fn can_capture(&self) -> bool {
        self.raw.can_capture()
    }

    closed spec fn admits(&self, fast: &FastCapture) -> bool {
        self.raw.admits(&fast.0)
    }

    closed spec fn covers(&self, capture: &Capture, sections: Set<nat>) -> bool {
        self.raw.covers(&capture.0, sections)
    }

    closed spec fn drained(&self, capture: &Capture) -> bool {
        self.raw.drained(&capture.0)
    }

    proof fn lemma_sections(&self) {
        self.raw.lemma_sections();
    }

    proof fn lemma_can_register(&self) {
        self.raw.lemma_can_register();
    }

    proof fn lemma_guard_open(&self, guard: &RawGuard) {
        self.raw.lemma_guard_open(&guard.0);
    }

    proof fn lemma_covers_none(&self, capture: &Capture, sections: Set<nat>) {
        self.raw.lemma_covers_none(&capture.0, sections);
    }

    proof fn lemma_quiet(&self, capture: &Capture, sections: Set<nat>) {
        self.raw.lemma_quiet(&capture.0, sections);
    }

    proof fn lemma_drained(&self, capture: &Capture, sections: Set<nat>) {
        self.raw.lemma_drained(&capture.0, sections);
    }

    fn reader_tag(&mut self) -> (tag: ReaderTag) {
        ReaderTag(self.raw.reader_tag())
    }

    fn writer_tag(&mut self) -> (tag: WriterTag) {
        WriterTag(self.raw.writer_tag())
    }

    fn release_tag(&mut self, tag: ReaderTag) {
        self.raw.release_tag(tag.0)
    }

    fn try_capture_readers(&mut self, tag: &mut WriterTag) -> (fast: Result<FastCapture, core::convert::Infallible>) {
        match self.raw.try_capture_readers(&mut tag.0) {
            Ok(fast) => Ok(FastCapture(fast)),
            Err(error) => Err(error),
        }
    }

    fn finish_capture_readers(&mut self, tag: &mut WriterTag, fast: FastCapture) -> (capture: Capture) {
        Capture(self.raw.finish_capture_readers(&mut tag.0, fast.0))
    }

    fn readers_have_exited(&mut self, capture: &mut Capture) -> (done: bool) {
        self.raw.readers_have_exited(&mut capture.0)
    }

    fn finish_capture(&mut self, tag: &WriterTag, capture: Capture)
        ensures
            final(self).raw().lock() == old(self).raw().lock(),
    {
        self.raw.finish_capture(&tag.0, capture.0)
    }

    fn pause(&mut self, capture: &mut Capture)
        ensures
            final(self).raw().lock() == old(self).raw().lock(),
    {
        self.raw.pause(&mut capture.0);
        self.park();
    }

    fn begin_guard(&mut self, tag: &mut ReaderTag) -> (guard: RawGuard) {
        RawGuard(self.raw.begin_guard(&mut tag.0))
    }

    fn end_guard(&mut self, guard: RawGuard) {
        self.raw.end_guard(guard.0)
    }
}

} // verus!
