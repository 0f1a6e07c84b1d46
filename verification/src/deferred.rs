use vstd::prelude::*;
use crate::base::{Inner, Reader, ReaderGuard, Swap, Writer};
use crate::strategy::hazard::{HazardStrategy, Pause};
use crate::strategy::local_saving::LocalSavingStrategy;
use crate::strategy::saving::park::SavingParkStrategy;
use crate::strategy::saving::SavingStrategy;
use crate::strategy::sync::park::ParkStrategy;
use crate::traits::{RawDoubleBuffer, Strategy};

verus! {

/// A writer that starts a swap and leaves the wait for the readers for later:
/// the swap is finished when the writer's buffer is wanted again.
pub struct DeferredWriter<S: Strategy> {
    swap: Option<Swap<S::Capture>>,
    writer: Writer<S>,
}

/// A strategy that lets every swap start, and whose wait for readers is worth
/// putting off.
pub trait WaitingStrategy: Strategy {
    /// A capture never fails.
    proof fn lemma_can_capture(&self)
        requires
            self.wf(),
        ensures
            self.can_capture(),
    ;
}

impl<const THREAD_COUNT: usize> WaitingStrategy for SavingStrategy<THREAD_COUNT> {
    proof fn lemma_can_capture(&self) {
    }
}

impl WaitingStrategy for LocalSavingStrategy {
    proof fn lemma_can_capture(&self) {
        self.lemma_raw();
    }
}

impl<const THREAD_COUNT: usize> WaitingStrategy for SavingParkStrategy<THREAD_COUNT> {
    proof fn lemma_can_capture(&self) {
        self.lemma_raw();
    }
}

impl<W: Pause> WaitingStrategy for HazardStrategy<W> {
    proof fn lemma_can_capture(&self) {
    }
}

impl WaitingStrategy for ParkStrategy {
    proof fn lemma_can_capture(&self) {
        self.lemma_raw();
    }
}

impl<S: Strategy> DeferredWriter<S> {
    /// The swap that is left to finish, if there is one.
    pub closed spec fn pending(&self) -> Option<Swap<S::Capture>> {
        self.swap
    }

    /// The writer inside.
    pub closed spec fn writer(&self) -> Writer<S> {
        self.writer
    }

    /// The writer keeps the swap that `inner` has under way, or none where
    /// none is under way.
    pub open spec fn wf<R: RawDoubleBuffer>(&self, inner: &Inner<R, S>) -> bool {
        match self.pending() {
            Some(swap) => inner.awaits(&swap),
            None => !inner.swap_pending(),
        }
    }

    /// The deferred writer that wraps `writer` and has no swap left.
    pub closed spec fn fresh(writer: Writer<S>) -> Self {
        DeferredWriter { swap: None, writer }
    }

    /// What [`DeferredWriter::fresh`] is made of.
    pub proof fn lemma_fresh(writer: Writer<S>)
        ensures
            Self::fresh(writer).pending() is None,
            Self::fresh(writer).writer() == writer,
    {
    }

    /// Wraps a writer that has no swap under way, whatever its strategy.
    pub fn new_unchecked(writer: Writer<S>) -> (deferred: Self)
        ensures
            deferred == Self::fresh(writer),
            deferred.pending() is None,
            deferred.writer() == writer,
    {
        Self { swap: None, writer }
    }

    /// A new reader of the buffers.
    pub fn reader<R: RawDoubleBuffer>(&self, inner: &mut Inner<R, S>) -> (reader: Reader<S>)
        requires
            old(inner).wf(),
            old(inner).strategy_view().can_register(),
        ensures
            final(inner).wf(),
            reader.id() == old(inner).strategy_view().registered(),
            old(inner).strategy_view().has_room() ==> final(inner).strategy_view().tag_ready(&reader.tag()),
            final(inner).registered_by(*old(inner)),
            forall|g: ReaderGuard<S>| old(inner).holds(&g) ==> #[trigger] final(inner).holds(&g),
            forall|t: S::ReaderTag| old(inner).strategy_view().tag_ready(&t) ==> #[trigger] final(inner).strategy_view().tag_ready(&t),
            forall|s: Swap<S::Capture>| old(inner).awaits(&s) ==> #[trigger] final(inner).awaits(&s),
    {
        self.writer.reader(inner)
    }

    /// The writer's buffer.
    pub fn get<'a, R: RawDoubleBuffer>(&self, inner: &'a Inner<R, S>) -> (buffer: &'a R::Buffer)
        ensures
            *buffer == inner.writer_side(),
    {
        self.writer.get(inner)
    }

    /// Finishes the swap that is left, if its readers are gone, and says
    /// whether the writer's buffer may be changed now. Where no swap is left
    /// nothing is done.
    pub fn finish_swap<R: RawDoubleBuffer>(&mut self, inner: &mut Inner<R, S>) -> (free: bool)
        requires
            old(inner).wf(),
            old(self).wf(old(inner)),
        ensures
            final(inner).wf(),
            final(self).wf(final(inner)),
            final(self).writer() == old(self).writer(),
            old(self).pending() is None ==> free && *final(self) == *old(self) && *final(inner) == *old(inner),
            old(self).pending() matches Some(swap) ==> {
                &&& free == old(inner).strategy_view().drained(&swap.capture())
                &&& free ==> swap.sections().disjoint(final(inner).strategy_view().active())
                &&& !free ==> (final(self).pending() matches Some(left) && left.sections() == swap.sections())
            },
            free <==> final(self).pending() is None,
            final(inner).finishing(*old(inner)),
            forall|g: ReaderGuard<S>| old(inner).holds(&g) ==> #[trigger] final(inner).holds(&g),
            forall|t: S::ReaderTag| old(inner).strategy_view().tag_ready(&t) ==> #[trigger] final(inner).strategy_view().tag_ready(&t),
    {
        match self.swap.take() {
            Some(swap) => {
                self.swap = self.writer.finish_buffer_swap(inner, swap);
                self.swap.is_none()
            },
            None => true,
        }
    }

    /// As [`DeferredWriter::finish_swap`]; where readers are left, `f` is
    /// called once with the writer.
    pub fn finish_swap_with<R: RawDoubleBuffer, F: Fn(&Writer<S>)>(&mut self, inner: &mut Inner<R, S>, f: F) -> (free: bool)
        requires
            old(inner).wf(),
            old(self).wf(old(inner)),
            forall|w: Writer<S>| call_requires(f, (&w,)),
        ensures
            final(inner).wf(),
            final(self).wf(final(inner)),
            final(self).writer() == old(self).writer(),
            old(self).pending() is None ==> free && *final(self) == *old(self) && *final(inner) == *old(inner),
            old(self).pending() matches Some(swap) ==> {
                &&& free == old(inner).strategy_view().drained(&swap.capture())
                &&& free ==> swap.sections().disjoint(final(inner).strategy_view().active())
                &&& !free ==> (final(self).pending() matches Some(left) && left.sections() == swap.sections())
            },
            free <==> final(self).pending() is None,
            !free ==> call_ensures(f, (&old(self).writer(),), ()),
            final(inner).finishing(*old(inner)),
            forall|g: ReaderGuard<S>| old(inner).holds(&g) ==> #[trigger] final(inner).holds(&g),
            forall|t: S::ReaderTag| old(inner).strategy_view().tag_ready(&t) ==> #[trigger] final(inner).strategy_view().tag_ready(&t),
    {
        match self.swap.take() {
            Some(swap) => {
                self.swap = self.writer.finish_buffer_swap_with(inner, swap, f);
                self.swap.is_none()
            },
            None => true,
        }
    }

    /// The writer, to look at.
    pub fn as_writer(&self) -> (writer: &Writer<S>)
        ensures
            *writer == self.writer(),
    {
        &self.writer
    }

    /// The writer, for work on its buffer. No swap may be left to finish.
    pub fn writer_mut(&mut self) -> (writer: &mut Writer<S>)
        requires
            old(self).pending() is None,
        ensures
            *writer == old(self).writer(),
            final(self).writer() == *final(writer),
            final(self).pending() is None,
    {
        &mut self.writer
    }

    /// Starts a swap and keeps it. No swap may be left to finish, and the
    /// strategy must let the swap start.
    pub fn start_swap<R: RawDoubleBuffer>(&mut self, inner: &mut Inner<R, S>)
        requires
            old(inner).wf(),
            old(self).wf(old(inner)),
            old(self).pending() is None,
            old(inner).strategy_view().can_capture(),
        ensures
            final(inner).wf(),
            final(self).wf(final(inner)),
            final(self).pending() matches Some(swap) && final(inner).flipped_by(*old(inner), &swap),
            forall|g: ReaderGuard<S>| old(inner).holds(&g) ==> #[trigger] final(inner).holds(&g),
            forall|t: S::ReaderTag| old(inner).strategy_view().tag_ready(&t) ==> #[trigger] final(inner).strategy_view().tag_ready(&t),
    {
        self.swap = Some(self.writer.start_buffer_swap(inner));
    }

    /// Finishes the swap that is left and hands out the writer. Where readers
    /// are left the deferred writer comes back as it is.
    pub fn into_inner<R: RawDoubleBuffer>(self, inner: &mut Inner<R, S>) -> (writer: Result<Writer<S>, Self>)
        requires
            old(inner).wf(),
            self.wf(old(inner)),
        ensures
            final(inner).wf(),
            writer matches Ok(w) ==> w == self.writer() && !final(inner).swap_pending(),
            writer matches Err(d) ==> d.wf(final(inner)) && d.pending() is Some && d.writer() == self.writer(),
            self.pending() is None ==> writer is Ok && *final(inner) == *old(inner),
            self.pending() matches Some(swap) ==> (writer is Ok <==> old(inner).strategy_view().drained(&swap.capture())),
            final(inner).finishing(*old(inner)),
    {
        let mut this = self;
        if this.finish_swap(inner) {
            Ok(this.writer)
        } else {
            Err(this)
        }
    }
}

impl<S: WaitingStrategy> From<Writer<S>> for DeferredWriter<S> {
    fn from(writer: Writer<S>) -> (deferred: Self) {
        Self::new(writer)
    }
}

impl<S: WaitingStrategy> vstd::std_specs::convert::FromSpecImpl<Writer<S>> for DeferredWriter<S> {
    open spec fn obeys_from_spec() -> bool {
        true
    }

    open spec fn from_spec(writer: Writer<S>) -> Self {
        Self::fresh(writer)
    }
}

impl<S: WaitingStrategy> DeferredWriter<S> {
    /// Wraps a writer that has no swap under way.
    pub fn new(writer: Writer<S>) -> (deferred: Self)
        ensures
            deferred == Self::fresh(writer),
            deferred.pending() is None,
            deferred.writer() == writer,
    {
        Self::new_unchecked(writer)
    }
}

} // verus!
