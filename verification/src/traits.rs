use vstd::prelude::*;

verus! {

/// A write that can be recorded and replayed on a buffer of type `B`.
///
/// An operation is replayed once on each of the two buffers: first with
/// [`Operation::apply`], which may leave a note in the operation itself, later
/// with [`Operation::apply_final`], which consumes it. Both calls act on the
/// buffer in the same way, which is what `replayed` describes.
pub trait Operation<B>: Sized {
    /// The operation and the buffer as one replay leaves them. An operation
    /// that is to be reasoned about says here what [`Operation::apply`] does.
    open spec fn replayed(self, buffer: B) -> (Self, B) {
        arbitrary()
    }

    fn apply(&mut self, buffer: &mut B)
        ensures
            (*final(self), *final(buffer)) == old(self).replayed(*old(buffer)),
    ;

    fn apply_final(self, buffer: &mut B)
        ensures
            *final(buffer) == self.replayed(*old(buffer)).1,
    {
        let mut this = self;
        this.apply(buffer)
    }
}

/// The buffer after `ops` were replayed on it one after the other, first to last.
pub open spec fn replay_buffer<B, O: Operation<B>>(ops: Seq<O>, buffer: B) -> B
    decreases ops.len(),
{
    if ops.len() == 0 {
        buffer
    } else {
        ops.last().replayed(replay_buffer(ops.drop_last(), buffer)).1
    }
}

/// The operations themselves after that replay: each one as its own replay left it.
pub open spec fn replay_ops<B, O: Operation<B>>(ops: Seq<O>, buffer: B) -> Seq<O> {
    Seq::new(ops.len(), |i: int| ops[i].replayed(replay_buffer(ops.take(i), buffer)).0)
}

/// Replaying a log in two parts is replaying the whole log.
pub proof fn lemma_replay_split<B, O: Operation<B>>(ops: Seq<O>, k: int, buffer: B)
    requires
        0 <= k <= ops.len(),
    ensures
        replay_buffer(ops.skip(k), replay_buffer(ops.take(k), buffer)) == replay_buffer(ops, buffer),
    decreases ops.len() - k,
{
    if k == ops.len() {
        assert(ops.skip(k).len() == 0);
        assert(ops.take(k) == ops);
    } else {
        let front = ops.drop_last();
        lemma_replay_split(front, k, buffer);
        assert(front.take(k) == ops.take(k));
        assert(ops.skip(k).drop_last() == front.skip(k));
        assert(ops.skip(k).last() == ops.last());
    }
}

/// Storage for two buffers that can be told apart by one bit.
pub trait RawDoubleBuffer: Sized {
    type Buffer;

    /// The buffer with the given index.
    spec fn side(&self, index: bool) -> Self::Buffer;

    /// The buffer that the writer uses under selector `which`, and the other
    /// one, which readers use.
    fn split(&self, which: bool) -> (sides: (&Self::Buffer, &Self::Buffer))
        ensures
            *sides.0 == self.side(which),
            *sides.1 == self.side(!which),
    ;

    /// The same two buffers, the writer's open to change. The readers' buffer
    /// is not touched, whatever is done through the first reference.
    fn split_mut(&mut self, which: bool) -> (sides: (&mut Self::Buffer, &Self::Buffer))
        ensures
            *sides.0 == old(self).side(which),
            *sides.1 == old(self).side(!which),
            final(self).side(which) == *final(sides.0),
            final(self).side(!which) == old(self).side(!which),
    ;
}

/// A protocol by which a writer learns that the readers of a buffer are gone.
///
/// A strategy hands out tags to readers and to the writer. A reader brackets
/// every look at its buffer with [`Strategy::begin_guard`] and
/// [`Strategy::end_guard`]; each such read section gets a serial number, and
/// `active()` is the set of sections that are open. A writer that is about to
/// flip the selector calls [`Strategy::try_capture_readers`], flips, calls
/// [`Strategy::finish_capture_readers`], and then asks
/// [`Strategy::readers_have_exited`] until the answer is yes. The capture
/// stands for the sections that were open at the flip: `covers(capture, s)`
/// says that the capture still accounts for every section of `s` that is open.
/// What every strategy owes is [`Strategy::lemma_drained`]: once a capture is
/// drained, none of the sections it covers is open.
pub trait Strategy: Sized {
    type ReaderTag;

    type WriterTag;

    type RawGuard;

    type FastCapture;

    type CaptureError;

    type Capture;

    /// The strategy's own bookkeeping is consistent.
    spec fn wf(&self) -> bool;

    /// How many read sections were ever begun. Section numbers are below it.
    spec fn issued(&self) -> nat;

    /// The read sections that are open.
    spec fn active(&self) -> Set<nat>;

    /// No open section is older than the last flip whose readers were waited
    /// for. A new capture starts from here.
    spec fn settled(&self) -> bool;

    /// How many readers were ever registered.
    spec fn registered(&self) -> nat;

    /// One more reader can be registered.
    spec fn can_register(&self) -> bool;

    /// One more read section can be counted.
    spec fn has_room(&self) -> bool;

    /// The number of the reader that `tag` was made for: readers are numbered
    /// as they are registered.
    spec fn tag_id(tag: &Self::ReaderTag) -> nat;

    /// The number of the section that `guard` stands for.
    spec fn guard_id(guard: &Self::RawGuard) -> nat;

    /// The reader of `tag` is inside the section of `guard`, and is ready for
    /// another one as soon as that section is closed.
    spec fn inside(&self, tag: &Self::ReaderTag, guard: &Self::RawGuard) -> bool;

    /// A section can be begun with `tag`: it is known here, it has no section
    /// open, and no counter is at its limit.
    spec fn tag_ready(&self, tag: &Self::ReaderTag) -> bool;

    /// The section of `guard` is open here.
    spec fn guard_open(&self, guard: &Self::RawGuard) -> bool;

    /// A capture started now succeeds.
    spec fn can_capture(&self) -> bool;

    /// `fast` was handed out by [`Strategy::try_capture_readers`] in this state.
    spec fn admits(&self, fast: &Self::FastCapture) -> bool;

    /// `capture` is a capture of this strategy, and it accounts for every
    /// section of `sections` that is still open.
    spec fn covers(&self, capture: &Self::Capture, sections: Set<nat>) -> bool;

    /// `capture` waits for no section any more.
    spec fn drained(&self, capture: &Self::Capture) -> bool;

    /// Open sections are finitely many and were all issued.
    proof fn lemma_sections(&self)
        requires
            self.wf(),
        ensures
            self.active().finite(),
            forall|id: nat| self.active().contains(id) ==> id < self.issued(),
    ;

    /// There is room for a reader as long as fewer were registered than a
    /// word can count.
    proof fn lemma_can_register(&self)
        requires
            self.wf(),
            self.registered() < usize::MAX,
        ensures
            self.can_register(),
    ;

    /// An open guard stands for an open section.
    proof fn lemma_guard_open(&self, guard: &Self::RawGuard)
        requires
            self.wf(),
            self.guard_open(guard),
        ensures
            self.active().contains(Self::guard_id(guard)),
    ;

    /// A capture that covers some sections covers none as well.
    proof fn lemma_covers_none(&self, capture: &Self::Capture, sections: Set<nat>)
        requires
            self.covers(capture, sections),
        ensures
            self.covers(capture, Set::empty()),
    ;

    /// Progress: once no section is open at all, a capture is drained.
    proof fn lemma_quiet(&self, capture: &Self::Capture, sections: Set<nat>)
        requires
            self.wf(),
            self.covers(capture, sections),
            self.active() == Set::<nat>::empty(),
        ensures
            self.drained(capture),
    ;

    /// Safety: a drained capture leaves none of its sections open, and the
    /// strategy is settled again.
    proof fn lemma_drained(&self, capture: &Self::Capture, sections: Set<nat>)
        requires
            self.wf(),
            self.covers(capture, sections),
            self.drained(capture),
        ensures
            sections.disjoint(self.active()),
            self.settled(),
    ;

    /// Registers a reader.
    fn reader_tag(&mut self) -> (tag: Self::ReaderTag)
        requires
            old(self).wf(),
            old(self).can_register(),
        ensures
            final(self).wf(),
            Self::tag_id(&tag) == old(self).registered(),
            old(self).has_room() ==> final(self).tag_ready(&tag),
            final(self).issued() == old(self).issued(),
            final(self).registered() == old(self).registered() + 1,
            final(self).active() == old(self).active(),
            old(self).settled() ==> final(self).settled(),
            forall|t: Self::ReaderTag| old(self).tag_ready(&t) ==> #[trigger] final(self).tag_ready(&t),
            forall|g: Self::RawGuard| old(self).guard_open(&g) ==> #[trigger] final(self).guard_open(&g),
            forall|t: Self::ReaderTag, g: Self::RawGuard| old(self).inside(&t, &g) ==> #[trigger] final(self).inside(&t, &g),
            forall|c: Self::Capture, s: Set<nat>| old(self).covers(&c, s) ==> #[trigger] final(self).covers(&c, s),
    ;

    /// The tag of the one writer.
    fn writer_tag(&mut self) -> (tag: Self::WriterTag)
        requires
            old(self).wf(),
        ensures
            *final(self) == *old(self),
    ;

    /// Forgets a reader. A section that it has open stays open, and every
    /// other reader is left as it was: ready if it was ready, and inside its
    /// section if it was inside.
    fn release_tag(&mut self, tag: Self::ReaderTag)
        requires
            old(self).wf(),
        ensures
            final(self).wf(),
            final(self).issued() == old(self).issued(),
            final(self).registered() == old(self).registered(),
            final(self).active() == old(self).active(),
            old(self).settled() ==> final(self).settled(),
            forall|t: Self::ReaderTag|
                old(self).tag_ready(&t) && Self::tag_id(&t) != Self::tag_id(&tag) ==> #[trigger] final(self).tag_ready(&t),
            forall|t: Self::ReaderTag, g: Self::RawGuard|
                old(self).inside(&t, &g) && Self::tag_id(&t) != Self::tag_id(&tag) ==> #[trigger] final(self).inside(&t, &g),
            forall|g: Self::RawGuard| old(self).guard_open(&g) ==> #[trigger] final(self).guard_open(&g),
            forall|c: Self::Capture, s: Set<nat>| old(self).covers(&c, s) ==> #[trigger] final(self).covers(&c, s),
    ;

    /// Asks whether the selector may be flipped now. The strategy is left as
    /// it was.
    fn try_capture_readers(&mut self, tag: &mut Self::WriterTag) -> (fast: Result<Self::FastCapture, Self::CaptureError>)
        requires
            old(self).wf(),
        ensures
            *final(self) == *old(self),
            fast is Ok <==> old(self).can_capture(),
            fast matches Ok(f) ==> final(self).admits(&f),
    ;

    /// Takes note of the sections that are open, right after the flip. The
    /// capture is drained from the start if none is open.
    fn finish_capture_readers(&mut self, tag: &mut Self::WriterTag, fast: Self::FastCapture) -> (capture: Self::Capture)
        requires
            old(self).wf(),
            old(self).settled(),
            old(self).admits(&fast),
        ensures
            final(self).wf(),
            final(self).covers(&capture, old(self).active()),
            final(self).drained(&capture) <==> old(self).active() == Set::<nat>::empty(),
            final(self).issued() == old(self).issued(),
            final(self).registered() == old(self).registered(),
            final(self).active() == old(self).active(),
            forall|t: Self::ReaderTag| old(self).tag_ready(&t) ==> #[trigger] final(self).tag_ready(&t),
            forall|g: Self::RawGuard| old(self).guard_open(&g) ==> #[trigger] final(self).guard_open(&g),
            forall|t: Self::ReaderTag, g: Self::RawGuard| old(self).inside(&t, &g) ==> #[trigger] final(self).inside(&t, &g),
    ;

    /// Says whether `capture` is drained, and drops from it what it need not
    /// wait for any more.
    fn readers_have_exited(&mut self, capture: &mut Self::Capture) -> (done: bool)
        requires
            old(self).wf(),
            old(self).covers(old(capture), Set::empty()),
        ensures
            final(self).wf(),
            done == old(self).drained(old(capture)),
            done == final(self).drained(final(capture)),
            forall|s: Set<nat>| old(self).covers(old(capture), s) ==> #[trigger] final(self).covers(final(capture), s),
            final(self).issued() == old(self).issued(),
            final(self).registered() == old(self).registered(),
            final(self).active() == old(self).active(),
            old(self).settled() ==> final(self).settled(),
            forall|t: Self::ReaderTag| old(self).tag_ready(&t) ==> #[trigger] final(self).tag_ready(&t),
            forall|g: Self::RawGuard| old(self).guard_open(&g) ==> #[trigger] final(self).guard_open(&g),
            forall|t: Self::ReaderTag, g: Self::RawGuard| old(self).inside(&t, &g) ==> #[trigger] final(self).inside(&t, &g),
    ;

    /// Ends a capture that is drained. Most strategies have nothing to do here.
    fn finish_capture(&mut self, tag: &Self::WriterTag, capture: Self::Capture)
        requires
            old(self).wf(),
        ensures
            final(self).wf(),
            final(self).issued() == old(self).issued(),
            final(self).registered() == old(self).registered(),
            final(self).active() == old(self).active(),
            old(self).settled() ==> final(self).settled(),
            forall|t: Self::ReaderTag| old(self).tag_ready(&t) ==> #[trigger] final(self).tag_ready(&t),
            forall|g: Self::RawGuard| old(self).guard_open(&g) ==> #[trigger] final(self).guard_open(&g),
            forall|t: Self::ReaderTag, g: Self::RawGuard| old(self).inside(&t, &g) ==> #[trigger] final(self).inside(&t, &g),
    {
    }

    /// What the writer does between two looks at a capture that is not
    /// drained. A strategy that cannot wait does nothing.
    fn pause(&mut self, capture: &mut Self::Capture)
        requires
            old(self).wf(),
            old(self).covers(old(capture), Set::empty()),
        ensures
            final(self).wf(),
            final(self).drained(final(capture)) == old(self).drained(old(capture)),
            forall|s: Set<nat>| old(self).covers(old(capture), s) ==> #[trigger] final(self).covers(final(capture), s),
            final(self).issued() == old(self).issued(),
            final(self).registered() == old(self).registered(),
            final(self).active() == old(self).active(),
            old(self).settled() ==> final(self).settled(),
            forall|t: Self::ReaderTag| old(self).tag_ready(&t) ==> #[trigger] final(self).tag_ready(&t),
            forall|g: Self::RawGuard| old(self).guard_open(&g) ==> #[trigger] final(self).guard_open(&g),
            forall|t: Self::ReaderTag, g: Self::RawGuard| old(self).inside(&t, &g) ==> #[trigger] final(self).inside(&t, &g),
    {
    }

    /// Opens a read section. It gets the next serial number.
    fn begin_guard(&mut self, tag: &mut Self::ReaderTag) -> (guard: Self::RawGuard)
        requires
            old(self).wf(),
            old(self).tag_ready(old(tag)),
        ensures
            final(self).wf(),
            *final(tag) == *old(tag),
            Self::guard_id(&guard) == old(self).issued(),
            final(self).inside(old(tag), &guard),
            final(self).guard_open(&guard),
            final(self).issued() == old(self).issued() + 1,
            final(self).registered() == old(self).registered(),
            final(self).active() == old(self).active().insert(old(self).issued()),
            old(self).settled() ==> final(self).settled(),
            forall|t: Self::ReaderTag|
                old(self).tag_ready(&t) && Self::tag_id(&t) != Self::tag_id(old(tag)) && final(self).has_room()
                    ==> #[trigger] final(self).tag_ready(&t),
            forall|g: Self::RawGuard| old(self).guard_open(&g) ==> #[trigger] final(self).guard_open(&g),
            forall|t: Self::ReaderTag, g: Self::RawGuard| old(self).inside(&t, &g) ==> #[trigger] final(self).inside(&t, &g),
            forall|c: Self::Capture, s: Set<nat>| old(self).covers(&c, s) ==> #[trigger] final(self).covers(&c, s),
    ;

    /// Closes the read section of `guard`.
    fn end_guard(&mut self, guard: Self::RawGuard)
        requires
            old(self).wf(),
            old(self).guard_open(&guard),
        ensures
            final(self).wf(),
            final(self).issued() == old(self).issued(),
            final(self).registered() == old(self).registered(),
            final(self).active() == old(self).active().remove(Self::guard_id(&guard)),
            old(self).settled() ==> final(self).settled(),
            forall|t: Self::ReaderTag| old(self).inside(&t, &guard) || old(self).tag_ready(&t) ==> #[trigger] final(self).tag_ready(&t),
            forall|t: Self::ReaderTag, g: Self::RawGuard|
                old(self).inside(&t, &g) && Self::guard_id(&g) != Self::guard_id(&guard) ==> #[trigger] final(self).inside(&t, &g),
            forall|g: Self::RawGuard|
                old(self).guard_open(&g) && Self::guard_id(&g) != Self::guard_id(&guard) ==> #[trigger] final(self).guard_open(&g),
            forall|c: Self::Capture, s: Set<nat>| old(self).covers(&c, s) ==> #[trigger] final(self).covers(&c, s),
    ;
}

} // verus!
