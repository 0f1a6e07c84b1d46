use vstd::prelude::*;
use crate::base::Inner;
use crate::imp_alloc::UpgradeError;
use crate::traits::{RawDoubleBuffer, Strategy};

verus! {

/// A handle through which the readers' buffer is looked at.
///
/// A reader owns nothing but its tag. It does not keep the buffers alive: once
/// the writer and every guard are gone, it is dangling.
pub struct Reader<S: Strategy> {
    tag: S::ReaderTag,
}

/// An open read section, together with the share in the buffers that keeps
/// them alive for as long as it is open.
pub struct RawGuard<S: Strategy> {
    raw: S::RawGuard,
}

/// A look at one buffer: the one that was the readers' when the guard was
/// made. It stays that buffer, and nobody changes it, until the guard is
/// released.
pub struct ReaderGuard<S: Strategy> {
    which: bool,
    raw: RawGuard<S>,
}

impl<S: Strategy> RawGuard<S> {
    /// The strategy's own guard.
    pub closed spec fn view(&self) -> S::RawGuard {
        self.raw
    }
}

impl<S: Strategy> ReaderGuard<S> {
    /// The selector as it was when the guard was made.
    pub closed spec fn observed(&self) -> bool {
        self.which
    }

    /// The strategy's own guard.
    pub closed spec fn raw_view(&self) -> S::RawGuard {
        self.raw@
    }

    /// The number of the read section.
    pub open spec fn id(&self) -> nat {
        S::guard_id(&self.raw_view())
    }

    pub(crate) fn from_raw_parts(which: bool, raw: S::RawGuard) -> (guard: Self)
        ensures
            guard.observed() == which,
            guard.raw_view() == raw,
    {
        Self { which, raw: RawGuard { raw } }
    }

    pub(crate) fn into_raw_parts(self) -> (parts: (bool, S::RawGuard))
        ensures
            parts.0 == self.observed(),
            parts.1 == self.raw_view(),
    {
        (self.which, self.raw.raw)
    }

    pub(crate) fn which(&self) -> (which: bool)
        ensures
            which == self.observed(),
    {
        self.which
    }

    /// The strategy that keeps track of this guard.
    pub fn strategy<'a, R: RawDoubleBuffer>(this: &Self, inner: &'a Inner<R, S>) -> (strategy: &'a S)
        ensures
            *strategy == inner.strategy_view(),
    {
        inner.strategy()
    }

    /// The buffer that the guard looks at.
    pub fn get<'a, R: RawDoubleBuffer>(&self, inner: &'a Inner<R, S>) -> (buffer: &'a R::Buffer)
        ensures
            *buffer == inner.seen_by(self),
    {
        inner.read(self)
    }

    /// Ends the look at the buffer.
    pub fn release<R: RawDoubleBuffer>(self, inner: &mut Inner<R, S>)
        requires
            old(inner).wf(),
            old(inner).holds(&self),
        ensures
            final(inner).wf(),
            final(inner).left_by(*old(inner), self.id()),
            forall|g: ReaderGuard<S>| old(inner).holds(&g) && g.id() != self.id() ==> #[trigger] final(inner).holds(&g),
            forall|t: S::ReaderTag, g: S::RawGuard|
                old(inner).strategy_view().inside(&t, &g) && S::guard_id(&g) != self.id()
                    ==> #[trigger] final(inner).strategy_view().inside(&t, &g),
            forall|t: S::ReaderTag|
                old(inner).strategy_view().inside(&t, &self.raw_view()) || old(inner).strategy_view().tag_ready(&t)
                    ==> #[trigger] final(inner).strategy_view().tag_ready(&t),
            forall|s: crate::base::Swap<S::Capture>| old(inner).awaits(&s) ==> #[trigger] final(inner).awaits(&s),
    {
        inner.leave(self)
    }
}

impl<S: Strategy> Reader<S> {
    /// The tag that the strategy gave to this reader.
    pub closed spec fn tag(&self) -> S::ReaderTag {
        self.tag
    }

    /// The number of the reader: readers are numbered as they are made.
    pub open spec fn id(&self) -> nat {
        S::tag_id(&self.tag())
    }

    /// A section can be begun with this reader on `inner`.
    pub open spec fn ready<R: RawDoubleBuffer>(&self, inner: &Inner<R, S>) -> bool {
        &&& inner.strategy_view().tag_ready(&self.tag())
        &&& inner.strong_count() < usize::MAX
    }

    pub(crate) fn from_raw_parts(tag: S::ReaderTag) -> (reader: Self)
        ensures
            reader.tag() == tag,
    {
        Self { tag }
    }

    /// Another reader of the same buffers, with a tag of its own. There is
    /// none to be had once the buffers have no owner.
    pub fn try_clone<R: RawDoubleBuffer>(&self, inner: &mut Inner<R, S>) -> (reader: Result<Self, UpgradeError>)
        requires
            old(inner).wf(),
            old(inner).strategy_view().can_register(),
        ensures
            final(inner).wf(),
            reader is Err <==> old(inner).is_dangling(),
            reader is Err ==> *final(inner) == *old(inner),
            reader matches Ok(r) ==> r.id() == old(inner).strategy_view().registered(),
            reader matches Ok(r) ==> (old(inner).strategy_view().has_room() ==> final(inner).strategy_view().tag_ready(&r.tag())),
            reader is Ok ==> final(inner).registered_by(*old(inner)),
            forall|g: ReaderGuard<S>| old(inner).holds(&g) ==> #[trigger] final(inner).holds(&g),
            forall|t: S::ReaderTag, g: S::RawGuard|
                old(inner).strategy_view().inside(&t, &g) ==> #[trigger] final(inner).strategy_view().inside(&t, &g),
            forall|t: S::ReaderTag| old(inner).strategy_view().tag_ready(&t) ==> #[trigger] final(inner).strategy_view().tag_ready(&t),
            forall|s: crate::base::Swap<S::Capture>| old(inner).awaits(&s) ==> #[trigger] final(inner).awaits(&s),
    {
        if inner.strong() == 0 {
            Err(UpgradeError)
        } else {
            Ok(Self { tag: inner.register() })
        }
    }

    /// The buffers have no owner left.
    pub fn is_dangling<R: RawDoubleBuffer>(&self, inner: &Inner<R, S>) -> (dangling: bool)
        ensures
            dangling == inner.is_dangling(),
    {
        inner.strong() == 0
    }

    /// Begins a look at the readers' buffer with a copy of the reader's tag,
    /// for strategies whose tags can be copied. The buffers must have an
    /// owner.
    pub fn shared_get<R: RawDoubleBuffer>(&self, inner: &mut Inner<R, S>) -> (guard: ReaderGuard<S>) where S::ReaderTag: Copy
        requires
            old(inner).wf(),
            !old(inner).is_dangling(),
            self.ready(old(inner)),
        ensures
            final(inner).wf(),
            final(inner).entered_by(*old(inner), &guard),
            final(inner).strategy_view().inside(&self.tag(), &guard.raw_view()),
            forall|t: S::ReaderTag|
                old(inner).strategy_view().tag_ready(&t) && S::tag_id(&t) != self.id() && final(inner).strategy_view().has_room()
                    ==> #[trigger] final(inner).strategy_view().tag_ready(&t),
            forall|g: ReaderGuard<S>| old(inner).holds(&g) ==> #[trigger] final(inner).holds(&g),
            forall|t: S::ReaderTag, g: S::RawGuard|
                old(inner).strategy_view().inside(&t, &g) ==> #[trigger] final(inner).strategy_view().inside(&t, &g),
            forall|s: crate::base::Swap<S::Capture>| old(inner).awaits(&s) ==> #[trigger] final(inner).awaits(&s),
    {
        let mut tag = self.tag;
        match inner.enter(&mut tag) {
            Ok(guard) => guard,
            Err(_) => vstd::pervasive::unreached(),
        }
    }

    /// Begins a look at the readers' buffer.
    pub fn get<R: RawDoubleBuffer>(&mut self, inner: &mut Inner<R, S>) -> (guard: ReaderGuard<S>)
        requires
            old(inner).wf(),
            !old(inner).is_dangling(),
            old(self).ready(old(inner)),
        ensures
            final(inner).wf(),
            final(self).tag() == old(self).tag(),
            final(inner).entered_by(*old(inner), &guard),
            final(inner).strategy_view().inside(&old(self).tag(), &guard.raw_view()),
            forall|t: S::ReaderTag|
                old(inner).strategy_view().tag_ready(&t) && S::tag_id(&t) != old(self).id() && final(inner).strategy_view().has_room()
                    ==> #[trigger] final(inner).strategy_view().tag_ready(&t),
            forall|g: ReaderGuard<S>| old(inner).holds(&g) ==> #[trigger] final(inner).holds(&g),
            forall|t: S::ReaderTag, g: S::RawGuard|
                old(inner).strategy_view().inside(&t, &g) ==> #[trigger] final(inner).strategy_view().inside(&t, &g),
            forall|s: crate::base::Swap<S::Capture>| old(inner).awaits(&s) ==> #[trigger] final(inner).awaits(&s),
    {
        match inner.enter(&mut self.tag) {
            Ok(guard) => guard,
            Err(_) => vstd::pervasive::unreached(),
        }
    }

    /// Begins a look at the readers' buffer, if the buffers still have an owner.
    pub fn try_get<R: RawDoubleBuffer>(&mut self, inner: &mut Inner<R, S>) -> (guard: Result<ReaderGuard<S>, UpgradeError>)
        requires
            old(inner).wf(),
            !old(inner).is_dangling() ==> old(self).ready(old(inner)),
        ensures
            final(inner).wf(),
            final(self).tag() == old(self).tag(),
            guard is Err <==> old(inner).is_dangling(),
            guard is Err ==> *final(inner) == *old(inner),
            guard matches Ok(g) ==> final(inner).entered_by(*old(inner), &g) && final(inner).strategy_view().inside(
                &old(self).tag(),
                &g.raw_view(),
            ),
            forall|t: S::ReaderTag|
                old(inner).strategy_view().tag_ready(&t) && S::tag_id(&t) != old(self).id() && final(inner).strategy_view().has_room()
                    ==> #[trigger] final(inner).strategy_view().tag_ready(&t),
            forall|g: ReaderGuard<S>| old(inner).holds(&g) ==> #[trigger] final(inner).holds(&g),
            forall|t: S::ReaderTag, g: S::RawGuard|
                old(inner).strategy_view().inside(&t, &g) ==> #[trigger] final(inner).strategy_view().inside(&t, &g),
            forall|s: crate::base::Swap<S::Capture>| old(inner).awaits(&s) ==> #[trigger] final(inner).awaits(&s),
    {
        inner.enter(&mut self.tag)
    }

    /// Gives the reader up. Every other reader is left as it was, and so is
    /// every read section, this reader's own among them.
    pub fn release<R: RawDoubleBuffer>(self, inner: &mut Inner<R, S>)
        requires
            old(inner).wf(),
        ensures
            final(inner).wf(),
            final(inner).same_sections(*old(inner)),
            forall|t: S::ReaderTag|
                old(inner).strategy_view().tag_ready(&t) && S::tag_id(&t) != self.id() ==> #[trigger] final(inner).strategy_view().tag_ready(&t),
            forall|t: S::ReaderTag, g: S::RawGuard|
                old(inner).strategy_view().inside(&t, &g) && S::tag_id(&t) != self.id() ==> #[trigger] final(inner).strategy_view().inside(
                    &t,
                    &g,
                ),
            forall|g: ReaderGuard<S>| old(inner).holds(&g) ==> #[trigger] final(inner).holds(&g),
            forall|s: crate::base::Swap<S::Capture>| old(inner).awaits(&s) ==> #[trigger] final(inner).awaits(&s),
    {
        inner.unregister(self.tag)
    }
}

} // verus!
