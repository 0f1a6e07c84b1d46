use vstd::prelude::*;
use crate::imp_alloc::UpgradeError;
use crate::traits::{RawDoubleBuffer, Strategy};

pub mod raw_buffers;
pub mod reader;
pub mod writer;

pub use raw_buffers::RawBuffers;
pub use reader::{RawGuard, Reader, ReaderGuard};
pub use writer::{Split, SplitMut, Swap, Writer};

verus! {

/// What a writer and its readers share: the two buffers, the selector, and
/// the strategy that keeps track of the readers.
///
/// The buffer with the selector's index is the writer's side, the other one
/// the readers'. Beside them the value counts its owners (the writer, and
/// every open read section), remembers which selector each open section saw,
/// and knows whether a swap is under way and for which sections it waits.
pub struct Inner<R, S> {
    which: bool,
    strategy: S,
    raw: RawBuffers<R>,
    strong: usize,
    writer: Ghost<bool>,
    observed: Ghost<Map<nat, bool>>,
    awaited: Ghost<Option<Set<nat>>>,
}

impl<R: RawDoubleBuffer, S: Strategy> Inner<R, S> {
    /// The selector: the index of the writer's buffer.
    pub closed spec fn which(&self) -> bool {
        self.which
    }

    /// The strategy as it stands.
    pub closed spec fn strategy_view(&self) -> S {
        self.strategy
    }

    /// The storage of the two buffers.
    pub closed spec fn buffers(&self) -> R {
        self.raw@
    }

    /// How many owners the buffers have: the writer, if there is one, and
    /// every open read section.
    pub closed spec fn strong_count(&self) -> nat {
        self.strong as nat
    }

    /// A writer has been made for these buffers and has not been given up.
    pub closed spec fn has_writer(&self) -> bool {
        self.writer@
    }

    /// For each read section, the selector that it saw when it began.
    pub closed spec fn observed(&self) -> Map<nat, bool> {
        self.observed@
    }

    /// The sections that the swap under way waits for, if there is one.
    pub closed spec fn awaited(&self) -> Option<Set<nat>> {
        self.awaited@
    }

    pub open spec fn writer_side(&self) -> R::Buffer {
        self.buffers().side(self.which())
    }

    pub open spec fn reader_side(&self) -> R::Buffer {
        self.buffers().side(!self.which())
    }

    /// The selector was flipped, and the readers of the old side have not
    /// been seen off yet.
    pub open spec fn swap_pending(&self) -> bool {
        self.awaited() is Some
    }

    /// No owner is left, so no reader can begin a section.
    pub open spec fn is_dangling(&self) -> bool {
        self.strong_count() == 0
    }

    /// The owner count is exact.
    pub open spec fn counted(&self) -> bool {
        self.strong_count() == (if self.has_writer() { 1nat } else { 0nat }) + self.strategy_view().active().len()
    }

    /// Every open section looks at the readers' side, but for those that a
    /// swap under way waits for: they look at what is now the writer's side.
    pub open spec fn sides_kept(&self) -> bool {
        forall|id: nat| #[trigger]
            self.strategy_view().active().contains(id) ==> {
                &&& self.observed().contains_key(id)
                &&& self.observed()[id] == self.which() || (self.awaited() matches Some(s) && s.contains(id))
            }
    }

    pub open spec fn wf(&self) -> bool {
        &&& self.strategy_view().wf()
        &&& self.counted()
        &&& self.sides_kept()
        &&& !self.swap_pending() ==> self.strategy_view().settled()
    }

    /// `guard` stands for a section that is open here.
    pub open spec fn holds(&self, guard: &ReaderGuard<S>) -> bool {
        &&& self.strategy_view().guard_open(&guard.raw_view())
        &&& self.observed().contains_key(guard.id())
        &&& self.observed()[guard.id()] == guard.observed()
    }

    /// The buffer that `guard` looks at.
    pub open spec fn seen_by(&self, guard: &ReaderGuard<S>) -> R::Buffer {
        self.buffers().side(!guard.observed())
    }

    /// `swap` is the swap under way, and its capture accounts for every
    /// section that it waits for.
    pub open spec fn awaits(&self, swap: &Swap<S::Capture>) -> bool {
        &&& self.awaited() == Some(swap.sections())
        &&& self.strategy_view().covers(&swap.capture(), swap.sections())
    }

    /// Selector, buffers and owners are those of `pre`.
    pub open spec fn same_frame(&self, pre: Self) -> bool {
        &&& self.which() == pre.which()
        &&& self.buffers() == pre.buffers()
        &&& self.has_writer() == pre.has_writer()
        &&& self.awaited() == pre.awaited()
    }

    /// Nothing differs from `pre` but what the strategy keeps to itself.
    pub open spec fn same_sections(&self, pre: Self) -> bool {
        &&& self.same_frame(pre)
        &&& self.strong_count() == pre.strong_count()
        &&& self.observed() == pre.observed()
        &&& self.strategy_view().issued() == pre.strategy_view().issued()
        &&& self.strategy_view().registered() == pre.strategy_view().registered()
        &&& self.strategy_view().active() == pre.strategy_view().active()
    }

    /// A reader was registered on `pre`, which gave this value: nothing else
    /// differs but what the strategy keeps to itself.
    pub open spec fn registered_by(&self, pre: Self) -> bool {
        &&& self.same_frame(pre)
        &&& self.strong_count() == pre.strong_count()
        &&& self.observed() == pre.observed()
        &&& self.strategy_view().issued() == pre.strategy_view().issued()
        &&& self.strategy_view().registered() == pre.strategy_view().registered() + 1
        &&& self.strategy_view().active() == pre.strategy_view().active()
    }

    /// `guard` was begun on `pre`, which gave this value.
    pub open spec fn entered_by(&self, pre: Self, guard: &ReaderGuard<S>) -> bool {
        &&& self.same_frame(pre)
        &&& guard.observed() == pre.which()
        &&& guard.id() == pre.strategy_view().issued()
        &&& self.holds(guard)
        &&& self.seen_by(guard) == pre.reader_side()
        &&& self.strong_count() == pre.strong_count() + 1
        &&& self.strategy_view().issued() == pre.strategy_view().issued() + 1
        &&& self.strategy_view().registered() == pre.strategy_view().registered()
        &&& self.strategy_view().active() == pre.strategy_view().active().insert(guard.id())
    }

    /// The section `id` was ended on `pre`, which gave this value.
    pub open spec fn left_by(&self, pre: Self, id: nat) -> bool {
        &&& self.same_frame(pre)
        &&& self.strong_count() == pre.strong_count() - 1
        &&& self.strategy_view().issued() == pre.strategy_view().issued()
        &&& self.strategy_view().registered() == pre.strategy_view().registered()
        &&& self.strategy_view().active() == pre.strategy_view().active().remove(id)
    }

    /// A swap was started on `pre`, which gave this value: the sides have
    /// changed places, and `swap` waits for the sections that were open.
    pub open spec fn flipped_by(&self, pre: Self, swap: &Swap<S::Capture>) -> bool {
        &&& self.which() == !pre.which()
        &&& self.buffers() == pre.buffers()
        &&& self.has_writer() == pre.has_writer()
        &&& self.strong_count() == pre.strong_count()
        &&& self.observed() == pre.observed()
        &&& self.strategy_view().issued() == pre.strategy_view().issued()
        &&& self.strategy_view().registered() == pre.strategy_view().registered()
        &&& self.strategy_view().active() == pre.strategy_view().active()
        &&& swap.sections() == pre.strategy_view().active()
        &&& self.awaits(swap)
        &&& self.strategy_view().drained(&swap.capture()) <==> pre.strategy_view().active() == Set::<nat>::empty()
    }

    /// The writer changed its buffer on `pre`, which gave this value: nothing
    /// else is different, and every open section looks at what it looked at.
    pub open spec fn changed_by_writer(&self, pre: Self) -> bool {
        &&& self.wf()
        &&& self.which() == pre.which()
        &&& self.reader_side() == pre.reader_side()
        &&& self.strategy_view() == pre.strategy_view()
        &&& self.has_writer() == pre.has_writer()
        &&& self.strong_count() == pre.strong_count()
        &&& self.observed() == pre.observed()
        &&& self.awaited() == pre.awaited()
        &&& forall|g: ReaderGuard<S>| #[trigger] pre.holds(&g) ==> self.holds(&g) && self.seen_by(&g) == pre.seen_by(&g)
    }

    /// The sides of `pre` have changed places, and nothing else that is seen
    /// from outside the strategy is different.
    pub open spec fn swapped_from(&self, pre: Self) -> bool {
        &&& self.which() == !pre.which()
        &&& self.buffers() == pre.buffers()
        &&& self.has_writer() == pre.has_writer()
        &&& self.strong_count() == pre.strong_count()
        &&& self.observed() == pre.observed()
        &&& self.strategy_view().issued() == pre.strategy_view().issued()
        &&& self.strategy_view().registered() == pre.strategy_view().registered()
        &&& self.strategy_view().active() == pre.strategy_view().active()
    }

    /// A step towards the end of a swap was taken on `pre`: selector, buffers,
    /// owners and sections are the same.
    pub open spec fn finishing(&self, pre: Self) -> bool {
        &&& self.which() == pre.which()
        &&& self.buffers() == pre.buffers()
        &&& self.has_writer() == pre.has_writer()
        &&& self.strong_count() == pre.strong_count()
        &&& self.observed() == pre.observed()
        &&& self.strategy_view().issued() == pre.strategy_view().issued()
        &&& self.strategy_view().registered() == pre.strategy_view().registered()
        &&& self.strategy_view().active() == pre.strategy_view().active()
    }

    pub fn from_raw_parts(strategy: S, buffers: R) -> (inner: Self)
        requires
            strategy.wf(),
            strategy.settled(),
            strategy.active() == Set::<nat>::empty(),
        ensures
            inner.wf(),
            !inner.which(),
            inner.buffers() == buffers,
            inner.strategy_view() == strategy,
            inner.strong_count() == 0,
            !inner.has_writer(),
            !inner.swap_pending(),
    {
        Self {
            which: false,
            strategy,
            raw: RawBuffers::new(buffers),
            strong: 0,
            writer: Ghost(false),
            observed: Ghost(Map::empty()),
            awaited: Ghost(None),
        }
    }

    pub fn strategy(&self) -> (strategy: &S)
        ensures
            *strategy == self.strategy_view(),
    {
        &self.strategy
    }

    /// The owner count.
    pub fn strong(&self) -> (count: usize)
        ensures
            count == self.strong_count(),
    {
        self.strong
    }

    /// Makes the one writer: it becomes an owner.
    pub(crate) fn adopt(&mut self) -> (tag: S::WriterTag)
        requires
            old(self).wf(),
            !old(self).has_writer(),
            old(self).strong_count() < usize::MAX,
        ensures
            final(self).wf(),
            final(self).has_writer(),
            final(self).strong_count() == old(self).strong_count() + 1,
            final(self).which() == old(self).which(),
            final(self).buffers() == old(self).buffers(),
            final(self).awaited() == old(self).awaited(),
            final(self).observed() == old(self).observed(),
            final(self).strategy_view() == old(self).strategy_view(),
    {
        let tag = self.strategy.writer_tag();
        self.strong = self.strong + 1;
        proof {
            self.writer@ = true;
        }
        tag
    }

    /// Gives the writer up: it is an owner no more.
    pub(crate) fn orphan(&mut self)
        requires
            old(self).wf(),
            old(self).has_writer(),
        ensures
            final(self).wf(),
            !final(self).has_writer(),
            final(self).strong_count() == old(self).strong_count() - 1,
            final(self).which() == old(self).which(),
            final(self).buffers() == old(self).buffers(),
            final(self).awaited() == old(self).awaited(),
            final(self).observed() == old(self).observed(),
            final(self).strategy_view() == old(self).strategy_view(),
    {
        self.strong = self.strong - 1;
        proof {
            self.writer@ = false;
        }
    }

    /// Registers a reader with the strategy.
    pub(crate) fn register(&mut self) -> (tag: S::ReaderTag)
        requires
            old(self).wf(),
            old(self).strategy_view().can_register(),
        ensures
            final(self).wf(),
            S::tag_id(&tag) == old(self).strategy_view().registered(),
            old(self).strategy_view().has_room() ==> final(self).strategy_view().tag_ready(&tag),
            final(self).registered_by(*old(self)),
            forall|g: ReaderGuard<S>| old(self).holds(&g) ==> #[trigger] final(self).holds(&g),
            forall|t: S::ReaderTag, g: S::RawGuard|
                old(self).strategy_view().inside(&t, &g) ==> #[trigger] final(self).strategy_view().inside(&t, &g),
            forall|t: S::ReaderTag| old(self).strategy_view().tag_ready(&t) ==> #[trigger] final(self).strategy_view().tag_ready(&t),
            forall|s: Swap<S::Capture>| old(self).awaits(&s) ==> #[trigger] final(self).awaits(&s),
    {
        self.strategy.reader_tag()
    }

    /// Takes a reader off the strategy's books. Every other reader is left as
    /// it was.
    pub(crate) fn unregister(&mut self, tag: S::ReaderTag)
        requires
            old(self).wf(),
        ensures
            final(self).wf(),
            final(self).same_sections(*old(self)),
            forall|t: S::ReaderTag|
                old(self).strategy_view().tag_ready(&t) && S::tag_id(&t) != S::tag_id(&tag) ==> #[trigger] final(self).strategy_view().tag_ready(
                    &t,
                ),
            forall|t: S::ReaderTag, g: S::RawGuard|
                old(self).strategy_view().inside(&t, &g) && S::tag_id(&t) != S::tag_id(&tag) ==> #[trigger] final(self).strategy_view().inside(
                    &t,
                    &g,
                ),
            forall|g: ReaderGuard<S>| old(self).holds(&g) ==> #[trigger] final(self).holds(&g),
            forall|s: Swap<S::Capture>| old(self).awaits(&s) ==> #[trigger] final(self).awaits(&s),
    {
        self.strategy.release_tag(tag)
    }

    /// Begins a read section, unless no owner is left. The section becomes an
    /// owner, and it looks at the side that is the readers' now.
    pub(crate) fn enter(&mut self, tag: &mut S::ReaderTag) -> (guard: Result<ReaderGuard<S>, UpgradeError>)
        requires
            old(self).wf(),
            !old(self).is_dangling() ==> old(self).strategy_view().tag_ready(old(tag)) && old(self).strong_count() < usize::MAX,
        ensures
            final(self).wf(),
            *final(tag) == *old(tag),
            guard is Err <==> old(self).is_dangling(),
            guard is Err ==> *final(self) == *old(self),
            guard matches Ok(g) ==> final(self).entered_by(*old(self), &g) && final(self).strategy_view().inside(old(tag), &g.raw_view()),
            forall|t: S::ReaderTag|
                old(self).strategy_view().tag_ready(&t) && S::tag_id(&t) != S::tag_id(old(tag)) && final(self).strategy_view().has_room()
                    ==> #[trigger] final(self).strategy_view().tag_ready(&t),
            forall|g: ReaderGuard<S>| old(self).holds(&g) ==> #[trigger] final(self).holds(&g),
            forall|t: S::ReaderTag, g: S::RawGuard|
                old(self).strategy_view().inside(&t, &g) ==> #[trigger] final(self).strategy_view().inside(&t, &g),
            forall|s: Swap<S::Capture>| old(self).awaits(&s) ==> #[trigger] final(self).awaits(&s),
    {
        if self.strong == 0 {
            return Err(UpgradeError);
        }
        proof {
            self.strategy.lemma_sections();
            assert forall|g: ReaderGuard<S>| old(self).holds(&g) implies g.id() != self.strategy.issued() by {
                self.strategy.lemma_guard_open(&g.raw_view());
            }
        }
        self.strong = self.strong + 1;
        let raw = self.strategy.begin_guard(tag);
        let which = self.which;
        proof {
            self.observed@ = self.observed@.insert(S::guard_id(&raw), which);
        }
        Ok(ReaderGuard::from_raw_parts(which, raw))
    }

    /// Ends a read section. It is an owner no more.
    pub(crate) fn leave(&mut self, guard: ReaderGuard<S>)
        requires
            old(self).wf(),
            old(self).holds(&guard),
        ensures
            final(self).wf(),
            final(self).left_by(*old(self), guard.id()),
            forall|g: ReaderGuard<S>| old(self).holds(&g) && g.id() != guard.id() ==> #[trigger] final(self).holds(&g),
            forall|t: S::ReaderTag, g: S::RawGuard|
                old(self).strategy_view().inside(&t, &g) && S::guard_id(&g) != guard.id()
                    ==> #[trigger] final(self).strategy_view().inside(&t, &g),
            forall|t: S::ReaderTag|
                old(self).strategy_view().inside(&t, &guard.raw_view()) || old(self).strategy_view().tag_ready(&t)
                    ==> #[trigger] final(self).strategy_view().tag_ready(&t),
            forall|s: Swap<S::Capture>| old(self).awaits(&s) ==> #[trigger] final(self).awaits(&s),
    {
        proof {
            self.strategy.lemma_sections();
            self.strategy.lemma_guard_open(&guard.raw_view());
        }
        let (_, raw) = guard.into_raw_parts();
        self.strategy.end_guard(raw);
        self.strong = self.strong - 1;
    }

    /// The buffer that `guard` looks at.
    pub(crate) fn read(&self, guard: &ReaderGuard<S>) -> (buffer: &R::Buffer)
        ensures
            *buffer == self.seen_by(guard),
    {
        self.raw.read(guard.which())
    }

    /// The writer's buffer and the readers'.
    pub(crate) fn sides(&self) -> (sides: (&R::Buffer, &R::Buffer))
        ensures
            *sides.0 == self.writer_side(),
            *sides.1 == self.reader_side(),
    {
        self.raw.split(self.which)
    }

    /// The writer's buffer, open to change, and the readers'. No open section
    /// looks at the writer's buffer, as no swap is under way.
    pub(crate) fn sides_mut(&mut self) -> (sides: (&mut R::Buffer, &R::Buffer))
        requires
            old(self).wf(),
            !old(self).swap_pending(),
        ensures
            *sides.0 == old(self).writer_side(),
            *sides.1 == old(self).reader_side(),
            final(self).writer_side() == *final(sides.0),
            final(self).reader_side() == old(self).reader_side(),
            final(self).wf(),
            final(self).which() == old(self).which(),
            final(self).strategy_view() == old(self).strategy_view(),
            final(self).has_writer() == old(self).has_writer(),
            final(self).strong_count() == old(self).strong_count(),
            final(self).observed() == old(self).observed(),
            final(self).awaited() == old(self).awaited(),
            final(self).changed_by_writer(*old(self)),
    {
        proof {
            assert forall|g: ReaderGuard<S>| old(self).holds(&g) implies g.observed() == old(self).which() by {
                self.strategy.lemma_guard_open(&g.raw_view());
            }
        }
        self.raw.split_mut(self.which)
    }

    /// Starts a swap: asks the strategy, flips the selector, and has the
    /// strategy take note of the sections that are open.
    pub(crate) fn flip(&mut self, tag: &mut S::WriterTag) -> (swap: Result<Swap<S::Capture>, S::CaptureError>)
        requires
            old(self).wf(),
            !old(self).swap_pending(),
        ensures
            final(self).wf(),
            swap is Ok <==> old(self).strategy_view().can_capture(),
            swap is Err ==> *final(self) == *old(self),
            swap matches Ok(s) ==> final(self).flipped_by(*old(self), &s),
            forall|g: ReaderGuard<S>| old(self).holds(&g) ==> #[trigger] final(self).holds(&g),
            forall|t: S::ReaderTag, g: S::RawGuard|
                old(self).strategy_view().inside(&t, &g) ==> #[trigger] final(self).strategy_view().inside(&t, &g),
            forall|t: S::ReaderTag| old(self).strategy_view().tag_ready(&t) ==> #[trigger] final(self).strategy_view().tag_ready(&t),
    {
        let fast = match self.strategy.try_capture_readers(tag) {
            Ok(fast) => fast,
            Err(error) => {
                return Err(error);
            },
        };
        let ghost sections = self.strategy.active();
        self.which = !self.which;
        let capture = self.strategy.finish_capture_readers(tag, fast);
        proof {
            self.awaited@ = Some(sections);
        }
        Ok(Swap::from_raw_parts(capture, Ghost(sections)))
    }

    /// Asks the strategy whether the swap under way has seen its readers off.
    pub(crate) fn poll(&mut self, swap: &mut Swap<S::Capture>) -> (done: bool)
        requires
            old(self).wf(),
            old(self).awaits(old(swap)),
        ensures
            final(self).wf(),
            final(self).awaits(final(swap)),
            final(swap).sections() == old(swap).sections(),
            done == old(self).strategy_view().drained(&old(swap).capture()),
            done == final(self).strategy_view().drained(&final(swap).capture()),
            done ==> final(swap).sections().disjoint(final(self).strategy_view().active()),
            final(self).same_sections(*old(self)),
            forall|g: ReaderGuard<S>| old(self).holds(&g) ==> #[trigger] final(self).holds(&g),
            forall|t: S::ReaderTag, g: S::RawGuard|
                old(self).strategy_view().inside(&t, &g) ==> #[trigger] final(self).strategy_view().inside(&t, &g),
            forall|t: S::ReaderTag| old(self).strategy_view().tag_ready(&t) ==> #[trigger] final(self).strategy_view().tag_ready(&t),
    {
        proof {
            self.strategy.lemma_covers_none(&swap.capture(), swap.sections());
        }
        let done = self.strategy.readers_have_exited(swap.capture_mut());
        proof {
            if done {
                self.strategy.lemma_drained(&swap.capture(), swap.sections());
            }
        }
        done
    }

    /// Lets the strategy wait a little for the readers of the swap under way.
    pub(crate) fn wait(&mut self, swap: &mut Swap<S::Capture>)
        requires
            old(self).wf(),
            old(self).awaits(old(swap)),
        ensures
            final(self).wf(),
            final(self).awaits(final(swap)),
            final(swap).sections() == old(swap).sections(),
            final(self).strategy_view().drained(&final(swap).capture()) == old(self).strategy_view().drained(&old(swap).capture()),
            final(self).same_sections(*old(self)),
            forall|g: ReaderGuard<S>| old(self).holds(&g) ==> #[trigger] final(self).holds(&g),
            forall|t: S::ReaderTag, g: S::RawGuard|
                old(self).strategy_view().inside(&t, &g) ==> #[trigger] final(self).strategy_view().inside(&t, &g),
            forall|t: S::ReaderTag| old(self).strategy_view().tag_ready(&t) ==> #[trigger] final(self).strategy_view().tag_ready(&t),
    {
        proof {
            self.strategy.lemma_covers_none(&swap.capture(), swap.sections());
        }
        self.strategy.pause(swap.capture_mut());
    }

    /// Ends the swap under way, whose readers are gone: every open section
    /// looks at the readers' side again.
    pub(crate) fn settle(&mut self, tag: &S::WriterTag, swap: Swap<S::Capture>)
        requires
            old(self).wf(),
            old(self).awaits(&swap),
            old(self).strategy_view().drained(&swap.capture()),
        ensures
            final(self).wf(),
            !final(self).swap_pending(),
            swap.sections().disjoint(final(self).strategy_view().active()),
            final(self).which() == old(self).which(),
            final(self).buffers() == old(self).buffers(),
            final(self).has_writer() == old(self).has_writer(),
            final(self).strong_count() == old(self).strong_count(),
            final(self).observed() == old(self).observed(),
            final(self).strategy_view().issued() == old(self).strategy_view().issued(),
            final(self).strategy_view().registered() == old(self).strategy_view().registered(),
            final(self).strategy_view().active() == old(self).strategy_view().active(),
            forall|g: ReaderGuard<S>| old(self).holds(&g) ==> #[trigger] final(self).holds(&g),
            forall|t: S::ReaderTag, g: S::RawGuard|
                old(self).strategy_view().inside(&t, &g) ==> #[trigger] final(self).strategy_view().inside(&t, &g),
            forall|t: S::ReaderTag| old(self).strategy_view().tag_ready(&t) ==> #[trigger] final(self).strategy_view().tag_ready(&t),
    {
        proof {
            self.strategy.lemma_drained(&swap.capture(), swap.sections());
        }
        let capture = swap.into_capture();
        self.strategy.finish_capture(tag, capture);
        proof {
            self.awaited@ = None;
        }
    }
}

impl<S: Strategy, B> Inner<[B; 2], S> {
    /// Two buffers for a strategy that has seen no reader yet. The first one
    /// is the writer's to begin with, the second one the readers'.
    pub fn new(strategy: S, front: B, back: B) -> (inner: Self)
        requires
            strategy.wf(),
            strategy.settled(),
            strategy.active() == Set::<nat>::empty(),
        ensures
            inner.wf(),
            !inner.which(),
            inner.writer_side() == front,
            inner.reader_side() == back,
            inner.strategy_view() == strategy,
            inner.strong_count() == 0,
            !inner.has_writer(),
            !inner.swap_pending(),
    {
        Self::from_raw_parts(strategy, [front, back])
    }
}

/// While no swap is under way, every open section looks at the readers' side:
/// the buffer that the writer may change is looked at by nobody.
pub proof fn lemma_guards_see_reader_side<R: RawDoubleBuffer, S: Strategy>(inner: Inner<R, S>, guard: ReaderGuard<S>)
    requires
        inner.wf(),
        !inner.swap_pending(),
        inner.holds(&guard),
    ensures
        guard.observed() == inner.which(),
        inner.seen_by(&guard) == inner.reader_side(),
{
    inner.strategy_view().lemma_guard_open(&guard.raw_view());
}

/// The owners are counted: the count is one for the writer, if there is one,
/// and one for every open read section, so it is never below the number of
/// open sections, and nothing dangles while one is open.
pub proof fn lemma_owners_counted<R: RawDoubleBuffer, S: Strategy>(inner: Inner<R, S>)
    requires
        inner.wf(),
    ensures
        inner.strong_count() == (if inner.has_writer() { 1nat } else { 0nat }) + inner.strategy_view().active().len(),
        inner.strong_count() >= inner.strategy_view().active().len(),
        inner.is_dangling() ==> !inner.has_writer() && inner.strategy_view().active() == Set::<nat>::empty(),
{
    inner.strategy_view().lemma_sections();
    if inner.strategy_view().active().len() == 0 {
        assert(inner.strategy_view().active() =~= Set::<nat>::empty());
    }
}

/// Two swaps in a row, with no reader coming or going in between, put each
/// buffer back on the side where it was.
pub proof fn lemma_swap_round_trip<R: RawDoubleBuffer, S: Strategy>(start: Inner<R, S>, once: Inner<R, S>, twice: Inner<R, S>)
    requires
        once.swapped_from(start),
        twice.swapped_from(once),
    ensures
        twice.which() == start.which(),
        twice.writer_side() == start.writer_side(),
        twice.reader_side() == start.reader_side(),
        twice.strategy_view().active() == start.strategy_view().active(),
{
}

/// The writer and a first reader for buffers that have none yet.
pub fn new<R: RawDoubleBuffer, S: Strategy>(inner: &mut Inner<R, S>) -> (pair: (Writer<S>, Reader<S>))
    requires
        old(inner).wf(),
        old(inner).is_dangling(),
        old(inner).strategy_view().can_register(),
    ensures
        final(inner).wf(),
        final(inner).has_writer(),
        final(inner).strong_count() == 1,
        final(inner).which() == old(inner).which(),
        final(inner).buffers() == old(inner).buffers(),
        final(inner).awaited() == old(inner).awaited(),
        final(inner).strategy_view().active() == old(inner).strategy_view().active(),
        final(inner).strategy_view().issued() == old(inner).strategy_view().issued(),
        final(inner).strategy_view().registered() == old(inner).strategy_view().registered() + 1,
        pair.1.id() == old(inner).strategy_view().registered(),
        old(inner).strategy_view().has_room() ==> final(inner).strategy_view().tag_ready(&pair.1.tag()),
        forall|t: S::ReaderTag| old(inner).strategy_view().tag_ready(&t) ==> #[trigger] final(inner).strategy_view().tag_ready(&t),
{
    proof {
        old(inner).strategy_view().lemma_sections();
    }
    let writer_tag = inner.adopt();
    let reader_tag = inner.register();
    (Writer::from_raw_parts(writer_tag), Reader::from_raw_parts(reader_tag))
}

} // verus!
