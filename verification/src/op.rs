use vstd::prelude::*;
use crate::base::{Inner, ReaderGuard, Writer};
use crate::deferred::{DeferredWriter, WaitingStrategy};
use crate::op_list::{OpList, POISON_BIT};
use crate::traits::{replay_buffer, Operation, RawDoubleBuffer, Strategy};

verus! {

/// A writer that records its writes as operations and replays them, so that
/// both buffers see every write: an operation is replayed on the writer's
/// buffer right before a swap, and once more, for good, on the other buffer
/// right before the swap after that. No read section ever sees its buffer
/// change.
pub struct OpWriter<S: Strategy, O> {
    writer: DeferredWriter<S>,
    ops: OpList<O>,
}

/// The log of an [`OpWriter`], open for more operations.
pub struct Operations<'a, O> {
    pub list: &'a mut OpList<O>,
}

impl<S: Strategy, O> OpWriter<S, O> {
    /// The writer inside.
    pub closed spec fn writer(&self) -> DeferredWriter<S> {
        self.writer
    }

    /// The log.
    pub closed spec fn log(&self) -> OpList<O> {
        self.ops
    }

    /// The writer keeps what `inner` has under way, the log is in order, and
    /// it is short enough to be replayed.
    pub open spec fn wf<R: RawDoubleBuffer>(&self, inner: &Inner<R, S>) -> bool {
        &&& self.writer().wf(inner)
        &&& self.log().wf()
        &&& self.log().ops().len() < POISON_BIT
    }

    pub fn new(writer: DeferredWriter<S>) -> (op_writer: Self)
        ensures
            op_writer.writer() == writer,
            op_writer.log().ops() == Seq::<O>::empty(),
            op_writer.log().word() == 0,
    {
        Self { writer, ops: OpList::new() }
    }

    /// The writer, to look at, and the log, to add to.
    pub fn as_mut_parts(&mut self) -> (parts: (&Writer<S>, Operations<'_, O>))
        ensures
            *parts.0 == old(self).writer().writer(),
            parts.1.log() == old(self).log(),
            final(self).writer() == old(self).writer(),
            final(self).log() == *final(parts.1.list),
    {
        (self.writer.as_writer(), Operations { list: &mut self.ops })
    }

    pub fn applied(&self) -> (word: usize)
        ensures
            word == self.log().word(),
    {
        self.ops.applied()
    }

    pub fn reserve(&mut self, additional: usize)
        ensures
            final(self).writer() == old(self).writer(),
            final(self).log().ops() == old(self).log().ops(),
            final(self).log().word() == old(self).log().word(),
    {
        self.ops.reserve(additional)
    }

    /// Records `op`. It is replayed with the next swap.
    pub fn push(&mut self, op: O)
        ensures
            final(self).writer() == old(self).writer(),
            final(self).log().ops() == old(self).log().ops().push(op),
            final(self).log().word() == old(self).log().word(),
    {
        self.ops.push(op)
    }

    /// Records every operation of `ops`, in their order.
    pub fn extend(&mut self, ops: Vec<O>)
        ensures
            final(self).writer() == old(self).writer(),
            final(self).log().ops() == old(self).log().ops() + ops@,
            final(self).log().word() == old(self).log().word(),
    {
        self.ops.extend(ops)
    }

    /// The recorded operations, oldest first.
    pub fn ops(&self) -> (ops: &[O])
        ensures
            ops@ == self.log().ops(),
    {
        &self.ops
    }

    pub fn into_raw_parts(self) -> (parts: (DeferredWriter<S>, OpList<O>))
        ensures
            parts.0 == self.writer(),
            parts.1 == self.log(),
    {
        (self.writer, self.ops)
    }
}

impl<S: WaitingStrategy, O> OpWriter<S, O> {
    /// Wraps a writer that has no swap under way, with an empty log.
    pub fn from(writer: Writer<S>) -> (op_writer: Self)
        ensures
            op_writer.writer().pending() is None,
            op_writer.writer().writer() == writer,
            op_writer.log().ops() == Seq::<O>::empty(),
            op_writer.log().word() == 0,
    {
        Self::new(DeferredWriter::new(writer))
    }

    /// Finishes the swap that is left, replays the log on the writer's buffer,
    /// and starts the next swap, so that readers see the buffer with every
    /// recorded write. Says `false`, and leaves log and buffers alone, where
    /// readers of the swap that is left are not gone yet.
    pub fn swap_buffers<R: RawDoubleBuffer>(&mut self, inner: &mut Inner<R, S>) -> (swapped: bool) where O: Operation<R::Buffer>
        requires
            old(inner).wf(),
            old(self).wf(old(inner)),
        ensures
            final(inner).wf(),
            final(self).wf(final(inner)),
            swapped <==> match old(self).writer().pending() {
                Some(swap) => old(inner).strategy_view().drained(&swap.capture()),
                None => true,
            },
            swapped ==> {
                &&& final(inner).which() == !old(inner).which()
                &&& final(inner).reader_side() == old(self).log().replayed_buffer(old(inner).writer_side())
                &&& !old(self).log().is_poisoned() ==> final(inner).reader_side() == replay_buffer(
                    old(self).log().ops(),
                    old(inner).writer_side(),
                )
                &&& final(inner).writer_side() == old(inner).reader_side()
                &&& final(self).log().ops() == old(self).log().replayed_ops(old(inner).writer_side())
                &&& final(self).log().word() == final(self).log().ops().len()
                &&& final(self).writer().pending() is Some
            },
            !swapped ==> {
                &&& final(inner).finishing(*old(inner))
                &&& final(self).log() == old(self).log()
                &&& final(self).writer().pending() is Some
            },
            final(inner).strategy_view().issued() == old(inner).strategy_view().issued(),
            final(inner).strategy_view().registered() == old(inner).strategy_view().registered(),
            final(inner).strategy_view().active() == old(inner).strategy_view().active(),
            final(inner).strong_count() == old(inner).strong_count(),
            forall|g: ReaderGuard<S>| #[trigger] old(inner).holds(&g) ==> final(inner).seen_by(&g) == old(inner).seen_by(&g),
            forall|g: ReaderGuard<S>| old(inner).holds(&g) ==> #[trigger] final(inner).holds(&g),
            forall|t: S::ReaderTag| old(inner).strategy_view().tag_ready(&t) ==> #[trigger] final(inner).strategy_view().tag_ready(&t),
    {
        if !self.writer.finish_swap(inner) {
            return false;
        }
        let ghost free = *inner;
        self.ops.apply(self.writer.writer_mut().get_mut(inner));
        proof {
            inner.strategy_view().lemma_can_capture();
            assert forall|g: ReaderGuard<S>| old(inner).holds(&g) implies inner.holds(&g) && inner.seen_by(&g) == old(inner).seen_by(&g) by {
                assert(free.holds(&g));
            }
        }
        self.writer.start_swap(inner);
        true
    }

    /// As [`OpWriter::swap_buffers`]; where readers are left, `f` is called
    /// once with the writer, and the operations that it returns are recorded.
    pub fn swap_buffers_with<R: RawDoubleBuffer, F: Fn(&Writer<S>) -> Vec<O>>(&mut self, inner: &mut Inner<R, S>, f: F) -> (swapped: bool) where
        O: Operation<R::Buffer>,

        requires
            old(inner).wf(),
            old(self).wf(old(inner)),
            forall|w: Writer<S>| call_requires(f, (&w,)),
            forall|w: Writer<S>, more: Vec<O>| call_ensures(f, (&w,), more) ==> old(self).log().ops().len() + more@.len() < POISON_BIT,
        ensures
            final(inner).wf(),
            final(self).wf(final(inner)),
            swapped <==> match old(self).writer().pending() {
                Some(swap) => old(inner).strategy_view().drained(&swap.capture()),
                None => true,
            },
            swapped ==> {
                &&& final(inner).which() == !old(inner).which()
                &&& final(inner).reader_side() == old(self).log().replayed_buffer(old(inner).writer_side())
                &&& !old(self).log().is_poisoned() ==> final(inner).reader_side() == replay_buffer(
                    old(self).log().ops(),
                    old(inner).writer_side(),
                )
                &&& final(inner).writer_side() == old(inner).reader_side()
                &&& final(self).log().ops() == old(self).log().replayed_ops(old(inner).writer_side())
                &&& final(self).log().word() == final(self).log().ops().len()
                &&& final(self).writer().pending() is Some
            },
            !swapped ==> {
                &&& final(inner).finishing(*old(inner))
                &&& exists|more: Vec<O>|
                    call_ensures(f, (&old(self).writer().writer(),), more) && final(self).log().ops() == old(self).log().ops() + more@
                &&& final(self).log().word() == old(self).log().word()
                &&& final(self).writer().pending() is Some
            },
            final(inner).strategy_view().issued() == old(inner).strategy_view().issued(),
            final(inner).strategy_view().registered() == old(inner).strategy_view().registered(),
            final(inner).strategy_view().active() == old(inner).strategy_view().active(),
            final(inner).strong_count() == old(inner).strong_count(),
            forall|g: ReaderGuard<S>| #[trigger] old(inner).holds(&g) ==> final(inner).seen_by(&g) == old(inner).seen_by(&g),
            forall|g: ReaderGuard<S>| old(inner).holds(&g) ==> #[trigger] final(inner).holds(&g),
            forall|t: S::ReaderTag| old(inner).strategy_view().tag_ready(&t) ==> #[trigger] final(inner).strategy_view().tag_ready(&t),
    {
        if !self.finish_swap_with(inner, f) {
            return false;
        }
        let ghost free = *inner;
        self.ops.apply(self.writer.writer_mut().get_mut(inner));
        proof {
            inner.strategy_view().lemma_can_capture();
            assert forall|g: ReaderGuard<S>| old(inner).holds(&g) implies inner.holds(&g) && inner.seen_by(&g) == old(inner).seen_by(&g) by {
                assert(free.holds(&g));
            }
        }
        self.writer.start_swap(inner);
        true
    }

    /// Finishes the swap that is left, if its readers are gone, and says
    /// whether the writer's buffer may be changed now.
    pub fn finish_swap<R: RawDoubleBuffer>(&mut self, inner: &mut Inner<R, S>) -> (free: bool)
        requires
            old(inner).wf(),
            old(self).wf(old(inner)),
        ensures
            final(inner).wf(),
            final(self).wf(final(inner)),
            final(self).log() == old(self).log(),
            final(self).writer().writer() == old(self).writer().writer(),
            old(self).writer().pending() is None ==> free && *final(self) == *old(self) && *final(inner) == *old(inner),
            old(self).writer().pending() matches Some(swap) ==> {
                &&& free == old(inner).strategy_view().drained(&swap.capture())
                &&& free ==> swap.sections().disjoint(final(inner).strategy_view().active())
            },
            free <==> final(self).writer().pending() is None,
            final(inner).finishing(*old(inner)),
            forall|g: ReaderGuard<S>| old(inner).holds(&g) ==> #[trigger] final(inner).holds(&g),
            forall|t: S::ReaderTag| old(inner).strategy_view().tag_ready(&t) ==> #[trigger] final(inner).strategy_view().tag_ready(&t),
    {
        self.writer.finish_swap(inner)
    }

    /// As [`OpWriter::finish_swap`]; where readers are left, `f` is called
    /// once with the writer, and the operations that it returns are recorded.
    pub fn finish_swap_with<R: RawDoubleBuffer, F: Fn(&Writer<S>) -> Vec<O>>(&mut self, inner: &mut Inner<R, S>, f: F) -> (free: bool)
        requires
            old(inner).wf(),
            old(self).wf(old(inner)),
            forall|w: Writer<S>| call_requires(f, (&w,)),
            forall|w: Writer<S>, more: Vec<O>| call_ensures(f, (&w,), more) ==> old(self).log().ops().len() + more@.len() < POISON_BIT,
        ensures
            final(inner).wf(),
            final(self).wf(final(inner)),
            final(self).writer().writer() == old(self).writer().writer(),
            old(self).writer().pending() is None ==> free && *final(self) == *old(self) && *final(inner) == *old(inner),
            old(self).writer().pending() matches Some(swap) ==> {
                &&& free == old(inner).strategy_view().drained(&swap.capture())
                &&& free ==> swap.sections().disjoint(final(inner).strategy_view().active())
            },
            free ==> final(self).log() == old(self).log(),
            !free ==> {
                &&& exists|more: Vec<O>|
                    call_ensures(f, (&old(self).writer().writer(),), more) && final(self).log().ops() == old(self).log().ops() + more@
                &&& final(self).log().word() == old(self).log().word()
            },
            free <==> final(self).writer().pending() is None,
            final(inner).finishing(*old(inner)),
            forall|g: ReaderGuard<S>| old(inner).holds(&g) ==> #[trigger] final(inner).holds(&g),
            forall|t: S::ReaderTag| old(inner).strategy_view().tag_ready(&t) ==> #[trigger] final(inner).strategy_view().tag_ready(&t),
    {
        if self.writer.finish_swap(inner) {
            true
        } else {
            let more = f(self.writer.as_writer());
            self.ops.extend(more);
            false
        }
    }

    /// Starts a swap. No swap may be left to finish.
    pub fn start_swap<R: RawDoubleBuffer>(&mut self, inner: &mut Inner<R, S>)
        requires
            old(inner).wf(),
            old(self).wf(old(inner)),
            old(self).writer().pending() is None,
        ensures
            final(inner).wf(),
            final(self).wf(final(inner)),
            final(self).log() == old(self).log(),
            final(self).writer().pending() matches Some(swap) && final(inner).flipped_by(*old(inner), &swap),
            forall|g: ReaderGuard<S>| old(inner).holds(&g) ==> #[trigger] final(inner).holds(&g),
            forall|t: S::ReaderTag| old(inner).strategy_view().tag_ready(&t) ==> #[trigger] final(inner).strategy_view().tag_ready(&t),
    {
        proof {
            inner.strategy_view().lemma_can_capture();
        }
        self.writer.start_swap(inner)
    }
}

impl<'a, O> Operations<'a, O> {
    /// The log.
    pub open spec fn log(&self) -> OpList<O> {
        *self.list
    }

    pub fn applied(&self) -> (word: usize)
        ensures
            word == self.log().word(),
    {
        self.list.applied()
    }

    pub fn push(&mut self, op: O)
        ensures
            final(self).log().ops() == old(self).log().ops().push(op),
            final(self).log().word() == old(self).log().word(),
    {
        self.list.push(op);
    }

    pub fn reserve(&mut self, additional: usize)
        ensures
            final(self).log().ops() == old(self).log().ops(),
            final(self).log().word() == old(self).log().word(),
    {
        self.list.reserve(additional)
    }

    /// Records every operation of `ops`, in their order.
    pub fn extend(&mut self, ops: Vec<O>)
        ensures
            final(self).log().ops() == old(self).log().ops() + ops@,
            final(self).log().word() == old(self).log().word(),
    {
        self.list.extend(ops)
    }

    /// The same log, borrowed for a shorter while.
    pub fn by_ref(&mut self) -> (again: Operations<'_, O>)
        ensures
            again.log() == old(self).log(),
            final(self).log() == *final(again.list),
    {
        Operations { list: &mut *self.list }
    }

    /// The recorded operations, oldest first.
    pub fn ops(&self) -> (ops: &[O])
        ensures
            ops@ == self.log().ops(),
    {
        &*self.list
    }
}

} // verus!
