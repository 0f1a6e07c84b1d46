use vstd::prelude::*;
use crate::base::{Inner, Reader, ReaderGuard};
use crate::traits::{RawDoubleBuffer, Strategy};

verus! {

/// The handle through which the writer's buffer is changed and the buffers
/// are swapped. There is one writer for a pair of buffers.
pub struct Writer<S: Strategy> {
    tag: S::WriterTag,
}

/// A swap that was started and is not finished: the selector is flipped, and
/// the capture stands for the read sections that were open at that moment.
pub struct Swap<C> {
    capture: C,
    sections: Ghost<Set<nat>>,
}

/// Both buffers, to look at.
pub struct Split<'a, B> {
    pub writer: &'a B,
    pub reader: &'a B,
}

/// Both buffers, the writer's open to change.
pub struct SplitMut<'a, B> {
    pub writer: &'a mut B,
    pub reader: &'a B,
}

impl<C> Swap<C> {
    /// The strategy's capture.
    pub closed spec fn capture(&self) -> C {
        self.capture
    }

    /// The read sections that were open when the selector was flipped.
    pub closed spec fn sections(&self) -> Set<nat> {
        self.sections@
    }

    pub(crate) fn from_raw_parts(capture: C, sections: Ghost<Set<nat>>) -> (swap: Self)
        ensures
            swap.capture() == capture,
            swap.sections() == sections@,
    {
        Self { capture, sections }
    }

    pub(crate) fn capture_mut(&mut self) -> (capture: &mut C)
        ensures
            *capture == old(self).capture(),
            final(self).capture() == *final(capture),
            final(self).sections() == old(self).sections(),
    {
        &mut self.capture
    }

    pub(crate) fn into_capture(self) -> (capture: C)
        ensures
            capture == self.capture(),
    {
        self.capture
    }
}

impl<S: Strategy> Writer<S> {
    /// The tag that the strategy gave to the writer.
    pub closed spec fn tag(&self) -> S::WriterTag {
        self.tag
    }

    pub(crate) fn from_raw_parts(tag: S::WriterTag) -> (writer: Self)
        ensures
            writer.tag() == tag,
    {
        Self { tag }
    }

    /// A new reader of the buffers.
    pub fn reader<R: RawDoubleBuffer>(&self, inner: &mut Inner<R, S>) -> (reader: Reader<S>)
        requires
            old(inner).wf(),
            old(inner).strategy_view().can_register(),
        ensures
            final(inner).wf(),
            reader.id() == old(inner).strategy_view().registered(),
            old(inner).strategy_view().has_room() ==> final(inner).strategy_view().tag_ready(&reader.tag()),
            final(inner).registered_by(*old(inner)),
            forall|g: ReaderGuard<S>| old(inner).holds(&g) ==> #[trigger] final(inner).holds(&g),
            forall|t: S::ReaderTag, g: S::RawGuard|
                old(inner).strategy_view().inside(&t, &g) ==> #[trigger] final(inner).strategy_view().inside(&t, &g),
            forall|t: S::ReaderTag| old(inner).strategy_view().tag_ready(&t) ==> #[trigger] final(inner).strategy_view().tag_ready(&t),
            forall|s: Swap<S::Capture>| old(inner).awaits(&s) ==> #[trigger] final(inner).awaits(&s),
    {
        Reader::from_raw_parts(inner.register())
    }

    pub fn strategy<'a, R: RawDoubleBuffer>(&self, inner: &'a Inner<R, S>) -> (strategy: &'a S)
        ensures
            *strategy == inner.strategy_view(),
    {
        inner.strategy()
    }

    /// The writer's buffer.
    pub fn get<'a, R: RawDoubleBuffer>(&self, inner: &'a Inner<R, S>) -> (buffer: &'a R::Buffer)
        ensures
            *buffer == inner.writer_side(),
    {
        inner.sides().0
    }

    /// The writer's buffer, open to change. No swap may be under way: until
    /// it is finished, readers may still look at this buffer. What readers
    /// look at is left as it is.
    pub fn get_mut<'a, R: RawDoubleBuffer>(&mut self, inner: &'a mut Inner<R, S>) -> (buffer: &'a mut R::Buffer)
        requires
            old(inner).wf(),
            !old(inner).swap_pending(),
        ensures
            *buffer == old(inner).writer_side(),
            final(inner).writer_side() == *final(buffer),
            final(inner).changed_by_writer(*old(inner)),
            final(self).tag() == old(self).tag(),
    {
        inner.sides_mut().0
    }

    /// Both buffers, to look at.
    pub fn split<'a, R: RawDoubleBuffer>(&self, inner: &'a Inner<R, S>) -> (sides: Split<'a, R::Buffer>)
        ensures
            *sides.writer == inner.writer_side(),
            *sides.reader == inner.reader_side(),
    {
        let (writer, reader) = inner.sides();
        Split { writer, reader }
    }

    /// Both buffers, the writer's open to change. No swap may be under way.
    pub fn split_mut<'a, R: RawDoubleBuffer>(&mut self, inner: &'a mut Inner<R, S>) -> (sides: SplitMut<'a, R::Buffer>)
        requires
            old(inner).wf(),
            !old(inner).swap_pending(),
        ensures
            *sides.writer == old(inner).writer_side(),
            *sides.reader == old(inner).reader_side(),
            final(inner).writer_side() == *final(sides.writer),
            final(inner).changed_by_writer(*old(inner)),
            final(self).tag() == old(self).tag(),
    {
        let (writer, reader) = inner.sides_mut();
        SplitMut { writer, reader }
    }

    /// Starts a swap if the strategy lets it start, and finishes it if the
    /// readers of the old side are gone already. Where they are not, the swap
    /// is handed back, to be finished later.
    pub fn try_swap_buffers<R: RawDoubleBuffer>(&mut self, inner: &mut Inner<R, S>) -> (left: Result<Option<Swap<S::Capture>>, S::CaptureError>)
        requires
            old(inner).wf(),
            !old(inner).swap_pending(),
        ensures
            final(inner).wf(),
            left is Ok <==> old(inner).strategy_view().can_capture(),
            left is Err ==> *final(inner) == *old(inner),
            left is Ok ==> final(inner).swapped_from(*old(inner)),
            left matches Ok(None) <==> old(inner).strategy_view().can_capture() && old(inner).strategy_view().active() == Set::<nat>::empty(),
            left matches Ok(None) ==> !final(inner).swap_pending() && old(inner).strategy_view().active().disjoint(
                final(inner).strategy_view().active(),
            ),
            left matches Ok(Some(s)) ==> final(inner).awaits(&s) && s.sections() == old(inner).strategy_view().active(),
            forall|g: ReaderGuard<S>| old(inner).holds(&g) ==> #[trigger] final(inner).holds(&g),
            forall|t: S::ReaderTag, g: S::RawGuard|
                old(inner).strategy_view().inside(&t, &g) ==> #[trigger] final(inner).strategy_view().inside(&t, &g),
            forall|t: S::ReaderTag| old(inner).strategy_view().tag_ready(&t) ==> #[trigger] final(inner).strategy_view().tag_ready(&t),
    {
        match self.try_start_buffer_swap(inner) {
            Ok(swap) => Ok(self.finish_buffer_swap(inner, swap)),
            Err(error) => Err(error),
        }
    }

    /// Starts a swap and finishes it if the readers of the old side are gone
    /// already; where they are not, the swap is handed back. The strategy
    /// must let the swap start.
    pub fn swap_buffers<R: RawDoubleBuffer>(&mut self, inner: &mut Inner<R, S>) -> (left: Option<Swap<S::Capture>>)
        requires
            old(inner).wf(),
            !old(inner).swap_pending(),
            old(inner).strategy_view().can_capture(),
        ensures
            final(inner).wf(),
            final(inner).swapped_from(*old(inner)),
            left is None <==> old(inner).strategy_view().active() == Set::<nat>::empty(),
            left is None ==> !final(inner).swap_pending() && old(inner).strategy_view().active().disjoint(
                final(inner).strategy_view().active(),
            ),
            left matches Some(s) ==> final(inner).awaits(&s) && s.sections() == old(inner).strategy_view().active(),
            forall|g: ReaderGuard<S>| old(inner).holds(&g) ==> #[trigger] final(inner).holds(&g),
            forall|t: S::ReaderTag, g: S::RawGuard|
                old(inner).strategy_view().inside(&t, &g) ==> #[trigger] final(inner).strategy_view().inside(&t, &g),
            forall|t: S::ReaderTag| old(inner).strategy_view().tag_ready(&t) ==> #[trigger] final(inner).strategy_view().tag_ready(&t),
    {
        let swap = self.start_buffer_swap(inner);
        self.finish_buffer_swap(inner, swap)
    }

    /// As [`Writer::try_swap_buffers`]; where readers are left, `f` is called
    /// once with the writer before the swap is handed back.
    pub fn try_swap_buffers_with<R: RawDoubleBuffer, F: Fn(&Self)>(&mut self, inner: &mut Inner<R, S>, f: F) -> (left: Result<Option<Swap<S::Capture>>, S::CaptureError>)
        requires
            old(inner).wf(),
            !old(inner).swap_pending(),
            forall|w: Self| call_requires(f, (&w,)),
        ensures
            final(inner).wf(),
            left is Ok <==> old(inner).strategy_view().can_capture(),
            left is Err ==> *final(inner) == *old(inner),
            left is Ok ==> final(inner).swapped_from(*old(inner)),
            left matches Ok(None) <==> old(inner).strategy_view().can_capture() && old(inner).strategy_view().active() == Set::<nat>::empty(),
            left matches Ok(None) ==> !final(inner).swap_pending() && old(inner).strategy_view().active().disjoint(
                final(inner).strategy_view().active(),
            ),
            left matches Ok(Some(s)) ==> final(inner).awaits(&s) && s.sections() == old(inner).strategy_view().active(),
            left matches Ok(Some(s)) ==> call_ensures(f, (&*final(self),), ()),
            forall|g: ReaderGuard<S>| old(inner).holds(&g) ==> #[trigger] final(inner).holds(&g),
            forall|t: S::ReaderTag, g: S::RawGuard|
                old(inner).strategy_view().inside(&t, &g) ==> #[trigger] final(inner).strategy_view().inside(&t, &g),
            forall|t: S::ReaderTag| old(inner).strategy_view().tag_ready(&t) ==> #[trigger] final(inner).strategy_view().tag_ready(&t),
    {
        match self.try_start_buffer_swap(inner) {
            Ok(swap) => Ok(self.finish_buffer_swap_with(inner, swap, f)),
            Err(error) => Err(error),
        }
    }

    /// As [`Writer::swap_buffers`]; where readers are left, `f` is called once
    /// with the writer before the swap is handed back.
    pub fn swap_buffers_with<R: RawDoubleBuffer, F: Fn(&Self)>(&mut self, inner: &mut Inner<R, S>, f: F) -> (left: Option<Swap<S::Capture>>)
        requires
            old(inner).wf(),
            !old(inner).swap_pending(),
            old(inner).strategy_view().can_capture(),
            forall|w: Self| call_requires(f, (&w,)),
        ensures
            final(inner).wf(),
            final(inner).swapped_from(*old(inner)),
            left is None <==> old(inner).strategy_view().active() == Set::<nat>::empty(),
            left is None ==> !final(inner).swap_pending() && old(inner).strategy_view().active().disjoint(
                final(inner).strategy_view().active(),
            ),
            left matches Some(s) ==> final(inner).awaits(&s) && s.sections() == old(inner).strategy_view().active(),
            left is Some ==> call_ensures(f, (&*final(self),), ()),
            forall|g: ReaderGuard<S>| old(inner).holds(&g) ==> #[trigger] final(inner).holds(&g),
            forall|t: S::ReaderTag, g: S::RawGuard|
                old(inner).strategy_view().inside(&t, &g) ==> #[trigger] final(inner).strategy_view().inside(&t, &g),
            forall|t: S::ReaderTag| old(inner).strategy_view().tag_ready(&t) ==> #[trigger] final(inner).strategy_view().tag_ready(&t),
    {
        let swap = self.start_buffer_swap(inner);
        self.finish_buffer_swap_with(inner, swap, f)
    }

    /// Starts a swap if the strategy lets it start: the sides change places.
    /// Until the swap is finished the writer's buffer must not be changed.
    pub fn try_start_buffer_swap<R: RawDoubleBuffer>(&mut self, inner: &mut Inner<R, S>) -> (swap: Result<Swap<S::Capture>, S::CaptureError>)
        requires
            old(inner).wf(),
            !old(inner).swap_pending(),
        ensures
            final(inner).wf(),
            swap is Ok <==> old(inner).strategy_view().can_capture(),
            swap is Err ==> *final(inner) == *old(inner),
            swap matches Ok(s) ==> final(inner).flipped_by(*old(inner), &s),
            forall|g: ReaderGuard<S>| old(inner).holds(&g) ==> #[trigger] final(inner).holds(&g),
            forall|t: S::ReaderTag, g: S::RawGuard|
                old(inner).strategy_view().inside(&t, &g) ==> #[trigger] final(inner).strategy_view().inside(&t, &g),
            forall|t: S::ReaderTag| old(inner).strategy_view().tag_ready(&t) ==> #[trigger] final(inner).strategy_view().tag_ready(&t),
    {
        inner.flip(&mut self.tag)
    }

    /// Starts a swap. The strategy must let it start.
    pub fn start_buffer_swap<R: RawDoubleBuffer>(&mut self, inner: &mut Inner<R, S>) -> (swap: Swap<S::Capture>)
        requires
            old(inner).wf(),
            !old(inner).swap_pending(),
            old(inner).strategy_view().can_capture(),
        ensures
            final(inner).wf(),
            final(inner).flipped_by(*old(inner), &swap),
            forall|g: ReaderGuard<S>| old(inner).holds(&g) ==> #[trigger] final(inner).holds(&g),
            forall|t: S::ReaderTag, g: S::RawGuard|
                old(inner).strategy_view().inside(&t, &g) ==> #[trigger] final(inner).strategy_view().inside(&t, &g),
            forall|t: S::ReaderTag| old(inner).strategy_view().tag_ready(&t) ==> #[trigger] final(inner).strategy_view().tag_ready(&t),
    {
        match inner.flip(&mut self.tag) {
            Ok(swap) => swap,
            Err(_) => vstd::pervasive::unreached(),
        }
    }

    /// Says whether the readers that `swap` waits for are gone.
    pub fn is_swap_complete<R: RawDoubleBuffer>(&self, inner: &mut Inner<R, S>, swap: &mut Swap<S::Capture>) -> (done: bool)
        requires
            old(inner).wf(),
            old(inner).awaits(old(swap)),
        ensures
            final(inner).wf(),
            final(inner).awaits(final(swap)),
            final(swap).sections() == old(swap).sections(),
            done == old(inner).strategy_view().drained(&old(swap).capture()),
            done == final(inner).strategy_view().drained(&final(swap).capture()),
            done ==> final(swap).sections().disjoint(final(inner).strategy_view().active()),
            final(inner).same_sections(*old(inner)),
            forall|g: ReaderGuard<S>| old(inner).holds(&g) ==> #[trigger] final(inner).holds(&g),
            forall|t: S::ReaderTag, g: S::RawGuard|
                old(inner).strategy_view().inside(&t, &g) ==> #[trigger] final(inner).strategy_view().inside(&t, &g),
            forall|t: S::ReaderTag| old(inner).strategy_view().tag_ready(&t) ==> #[trigger] final(inner).strategy_view().tag_ready(&t),
    {
        inner.poll(swap)
    }

    /// Finishes `swap` if the readers that it waits for are gone: none of the
    /// sections that were open at the flip is open then. Where some are, the
    /// strategy's pause is taken and the swap is handed back.
    pub fn finish_buffer_swap<R: RawDoubleBuffer>(&self, inner: &mut Inner<R, S>, swap: Swap<S::Capture>) -> (left: Option<Swap<S::Capture>>)
        requires
            old(inner).wf(),
            old(inner).awaits(&swap),
        ensures
            final(inner).wf(),
            left is None <==> old(inner).strategy_view().drained(&swap.capture()),
            left is None ==> !final(inner).swap_pending() && swap.sections().disjoint(final(inner).strategy_view().active()),
            left matches Some(s) ==> final(inner).awaits(&s) && s.sections() == swap.sections(),
            final(inner).finishing(*old(inner)),
            forall|g: ReaderGuard<S>| old(inner).holds(&g) ==> #[trigger] final(inner).holds(&g),
            forall|t: S::ReaderTag, g: S::RawGuard|
                old(inner).strategy_view().inside(&t, &g) ==> #[trigger] final(inner).strategy_view().inside(&t, &g),
            forall|t: S::ReaderTag| old(inner).strategy_view().tag_ready(&t) ==> #[trigger] final(inner).strategy_view().tag_ready(&t),
    {
        let mut swap = swap;
        if inner.poll(&mut swap) {
            inner.settle(&self.tag, swap);
            None
        } else {
            inner.wait(&mut swap);
            Some(swap)
        }
    }

    /// As [`Writer::finish_buffer_swap`]; where readers are left, `f` is
    /// called once before the pause.
    pub fn finish_buffer_swap_with<R: RawDoubleBuffer, F: Fn(&Self)>(&self, inner: &mut Inner<R, S>, swap: Swap<S::Capture>, f: F) -> (left: Option<Swap<S::Capture>>)
        requires
            old(inner).wf(),
            old(inner).awaits(&swap),
            forall|w: Self| call_requires(f, (&w,)),
        ensures
            final(inner).wf(),
            left is None <==> old(inner).strategy_view().drained(&swap.capture()),
            left is None ==> !final(inner).swap_pending() && swap.sections().disjoint(final(inner).strategy_view().active()),
            left matches Some(s) ==> final(inner).awaits(&s) && s.sections() == swap.sections(),
            left is Some ==> call_ensures(f, (self,), ()),
            final(inner).finishing(*old(inner)),
            forall|g: ReaderGuard<S>| old(inner).holds(&g) ==> #[trigger] final(inner).holds(&g),
            forall|t: S::ReaderTag, g: S::RawGuard|
                old(inner).strategy_view().inside(&t, &g) ==> #[trigger] final(inner).strategy_view().inside(&t, &g),
            forall|t: S::ReaderTag| old(inner).strategy_view().tag_ready(&t) ==> #[trigger] final(inner).strategy_view().tag_ready(&t),
    {
        let mut swap = swap;
        if inner.poll(&mut swap) {
            inner.settle(&self.tag, swap);
            None
        } else {
            f(self);
            inner.wait(&mut swap);
            Some(swap)
        }
    }

    /// Gives the writer up. Readers go on as long as a read section is open.
    pub fn release<R: RawDoubleBuffer>(self, inner: &mut Inner<R, S>)
        requires
            old(inner).wf(),
            old(inner).has_writer(),
        ensures
            final(inner).wf(),
            !final(inner).has_writer(),
            final(inner).strong_count() == old(inner).strong_count() - 1,
            final(inner).which() == old(inner).which(),
            final(inner).buffers() == old(inner).buffers(),
            final(inner).awaited() == old(inner).awaited(),
            final(inner).observed() == old(inner).observed(),
            final(inner).strategy_view() == old(inner).strategy_view(),
    {
        inner.orphan()
    }
}

} // verus!
