use vstd::prelude::*;
use parking_lot_core::SpinWait;
use crate::smallvec::{kept, lemma_kept_from, lemma_kept_has, lemma_kept_order, SmallVec};
use crate::thin::Thin;
use crate::traits::Strategy;

pub mod park;

verus! {

/// `parking_lot_core::SpinWait`: the counter of a backoff in a spin loop.
/// Nothing of its state is seen here.
#[verifier::external_type_specification]
#[verifier::external_body]
pub struct ExSpinWait(SpinWait);

/// `SpinWait::new`: a backoff that has not spun yet.
pub assume_specification[ SpinWait::new ]() -> SpinWait;

/// `SpinWait::spin`: spins or yields for a moment and says `true`, or says
/// `false` at once when it has done so often enough that sleeping is better.
pub assume_specification[ SpinWait::spin ](wait: &mut SpinWait) -> bool;

/// `SpinWait::reset`: starts the backoff over.
pub assume_specification[ SpinWait::reset ](wait: &mut SpinWait);

/// What the registry knows of one reader: the counter that the reader steps
/// on entering and on leaving a read section, shared between the registry, the
/// reader and its guard, and the number of the section entered last.
struct Slot {
    id: usize,
    cell: Thin<usize>,
    section: Ghost<nat>,
}

/// Gives every reader a counter. A counter is odd while its reader is inside
/// a read section. A capture notes the odd counters with their values; it is
/// drained once each of them has moved on.
///
/// The registry keeps room for `THREAD_COUNT` readers in place.
pub struct SavingStrategy<const THREAD_COUNT: usize> {
    tag_list: SmallVec<Slot, THREAD_COUNT>,
    next: usize,
    live: Ghost<Set<nat>>,
    issued: Ghost<nat>,
}

pub struct RawGuard {
    tag: usize,
    section: Ghost<nat>,
}

pub struct FastCapture(());

/// The counters that were odd at the flip, each with the value it had.
pub struct Capture<const THREAD_COUNT: usize> {
    active: SmallVec<(usize, usize), THREAD_COUNT>,
    backoff: SpinWait,
}

pub struct ReaderTag(usize);

pub struct WriterTag(());

impl Slot {
    /// The reader is inside a read section.
    spec fn reads(&self) -> bool {
        self.cell@ % 2 == 1
    }

    /// What a capture notes of the slot.
    spec fn entry(&self) -> (usize, usize) {
        (self.cell@, self.id)
    }
}

impl<const THREAD_COUNT: usize> Capture<THREAD_COUNT> {
    /// The noted counters: value, then reader.
    pub closed spec fn entries(&self) -> Seq<(usize, usize)> {
        self.active@
    }

    /// The list is in order, and every noted value is odd.
    pub closed spec fn wf(&self) -> bool {
        &&& self.active.wf()
        &&& forall|k: int| 0 <= k < self.active@.len() ==> (#[trigger] self.active@[k]).0 % 2 == 1
    }
}

impl<const THREAD_COUNT: usize> SavingStrategy<THREAD_COUNT> {
    spec fn slots(&self) -> Seq<Slot> {
        self.tag_list@
    }

    /// The slot at `i` is that of reader `id`.
    spec fn slot_of(&self, id: usize, i: int) -> bool {
        0 <= i < self.slots().len() && self.slots()[i].id == id
    }

    /// The counter that `entry` noted stands where it stood.
    spec fn waits_for(&self, entry: (usize, usize)) -> bool {
        exists|i: int| #[trigger] self.slot_of(entry.1, i) && self.slots()[i].cell@ == entry.0
    }

    /// A slot before place `bound` is inside a read section, and `entry` is
    /// its note.
    spec fn noted_below(&self, entry: (usize, usize), bound: int) -> bool {
        exists|i: int| 0 <= i < bound && (#[trigger] self.slots()[i]).reads() && self.slots()[i].entry() == entry
    }

    /// The registry's own rules, apart from the container's.
    spec fn slots_wf(slots: Seq<Slot>, next: usize, live: Set<nat>) -> bool {
        &&& forall|i: int| 0 <= i < slots.len() ==> (#[trigger] slots[i]).id < next
        &&& forall|i: int, j: int| 0 <= i < j < slots.len() ==> (#[trigger] slots[i]).id != (#[trigger] slots[j]).id
        &&& forall|i: int|
            0 <= i < slots.len() && (#[trigger] slots[i]).reads() ==> live.contains(slots[i].section@) && slots[i].cell.shares() >= 1
        &&& forall|i: int| 0 <= i < slots.len() ==> (#[trigger] slots[i]).cell.shares() <= (if slots[i].reads() { 2int } else { 1int })
        &&& forall|i: int, j: int|
            0 <= i < j < slots.len() && (#[trigger] slots[i]).reads() && (#[trigger] slots[j]).reads() ==> slots[i].section@
                != slots[j].section@
        &&& forall|id: nat|
            live.contains(id) ==> exists|i: int| 0 <= i < slots.len() && (#[trigger] slots[i]).reads() && slots[i].section@ == id
    }

    pub fn new() -> (strategy: Self)
        ensures
            THREAD_COUNT <= usize::MAX / 2 ==> strategy.wf(),
            strategy.settled(),
            strategy.can_register(),
            strategy.has_room(),
            strategy.can_capture(),
            strategy.issued() == 0,
            strategy.registered() == 0,
            strategy.active() == Set::<nat>::empty(),
    {
        Self { tag_list: SmallVec::new(), next: 0, live: Ghost(Set::empty()), issued: Ghost(0) }
    }

    /// Where the slot of reader `id` is.
    fn find(&self, id: usize) -> (at: Option<usize>)
        requires
            self.tag_list.wf(),
        ensures
            at matches Some(i) ==> self.slot_of(id, i as int),
            at is None ==> forall|i: int| !self.slot_of(id, i),
    {
        let n: usize = self.tag_list.len();
        let mut i: usize = 0;
        while i < n
            invariant
                self.tag_list.wf(),
                n == self.slots().len(),
                i <= n,
                forall|j: int| 0 <= j < i ==> !self.slot_of(id, j),
            decreases n - i,
        {
            if self.tag_list.get(i).id == id {
                return Some(i);
            }
            i += 1;
        }
        None
    }

    /// Says whether the counter that `entry` noted stands where it stood.
    fn still_reading(&self, entry: &(usize, usize)) -> (waits: bool)
        requires
            self.wf(),
        ensures
            waits == self.waits_for(*entry),
    {
        match self.find(entry.1) {
            Some(i) => {
                let waits = *self.tag_list.get(i).cell.get() == entry.0;
                proof {
                    if self.waits_for(*entry) {
                        let j = choose|j: int| #[trigger] self.slot_of(entry.1, j) && self.slots()[j].cell@ == entry.0;
                        assert(self.slots()[j].id == self.slots()[i as int].id);
                        assert(j == i);
                    }
                    assert(self.slot_of(entry.1, i as int));
                }
                waits
            },
            None => false,
        }
    }

    /// Notes every counter that is odd.
    fn collect(&self) -> (active: SmallVec<(usize, usize), THREAD_COUNT>)
        requires
            self.wf(),
        ensures
            active.wf(),
            forall|i: int| 0 <= i < self.slots().len() && (#[trigger] self.slots()[i]).reads() ==> active@.contains(self.slots()[i].entry()),
            forall|k: int| 0 <= k < active@.len() ==> self.noted_below(#[trigger] active@[k], self.slots().len() as int),
    {
        let mut active: SmallVec<(usize, usize), THREAD_COUNT> = SmallVec::new();
        let n: usize = self.tag_list.len();
        let mut i: usize = 0;
        while i < n
            invariant
                self.wf(),
                active.wf(),
                n == self.slots().len(),
                i <= n,
                forall|j: int| 0 <= j < i && (#[trigger] self.slots()[j]).reads() ==> active@.contains(self.slots()[j].entry()),
                forall|k: int| 0 <= k < active@.len() ==> self.noted_below(#[trigger] active@[k], i as int),
            decreases n - i,
        {
            let slot = self.tag_list.get(i);
            let value: usize = *slot.cell.get();
            if slot.cell.strong_count() != 0 && value % 2 == 1 {
                let ghost before = active@;
                active.push((value, slot.id));
                proof {
                    assert(active@[before.len() as int] == self.slots()[i as int].entry());
                    assert forall|j: int| 0 <= j < i && (#[trigger] self.slots()[j]).reads() implies active@.contains(
                        self.slots()[j].entry(),
                    ) by {
                        let k = choose|k: int| 0 <= k < before.len() && before[k] == self.slots()[j].entry();
                        assert(active@[k] == self.slots()[j].entry());
                    }
                    assert forall|k: int| 0 <= k < active@.len() implies self.noted_below(#[trigger] active@[k], i + 1) by {
                        if k < before.len() {
                            assert(active@[k] == before[k]);
                            assert(self.noted_below(before[k], i as int));
                            let j = choose|j: int| 0 <= j < i && (#[trigger] self.slots()[j]).reads() && self.slots()[j].entry() == before[k];
                            assert(self.slots()[j].reads());
                        } else {
                            assert(self.slots()[i as int].reads());
                        }
                    }
                }
            } else {
                proof {
                    assert forall|k: int| 0 <= k < active@.len() implies self.noted_below(#[trigger] active@[k], i + 1) by {
                        assert(self.noted_below(active@[k], i as int));
                        let j = choose|j: int| 0 <= j < i && (#[trigger] self.slots()[j]).reads() && self.slots()[j].entry() == active@[k];
                        assert(self.slots()[j].reads());
                    }
                }
            }
            i += 1;
        }
        active
    }

    /// The slots at `a` and `b` of `post` stood in `pre`, in the same order.
    spec fn in_order(pre: Seq<Slot>, post: Seq<Slot>, a: int, b: int) -> bool {
        exists|i: int, j: int| 0 <= i < j < pre.len() && #[trigger] pre[i] == post[a] && #[trigger] pre[j] == post[b]
    }

    /// Drops the counters that nobody but the registry holds, and keeps the
    /// others in their order.
    fn sweep(&mut self)
        requires
            old(self).wf(),
        ensures
            final(self).wf(),
            final(self).next == old(self).next,
            final(self).live == old(self).live,
            final(self).issued == old(self).issued,
            forall|i: int|
                0 <= i < old(self).slots().len() && (#[trigger] old(self).slots()[i]).cell.shares() != 0
                    ==> final(self).slots().contains(old(self).slots()[i]),
            forall|j: int| 0 <= j < final(self).slots().len() ==> old(self).slots().contains(#[trigger] final(self).slots()[j]),
            forall|j: int| 0 <= j < final(self).slots().len() ==> (#[trigger] final(self).slots()[j]).cell.shares() != 0,
            forall|a: int, b: int| 0 <= a < b < final(self).slots().len() ==> #[trigger] Self::in_order(old(self).slots(), final(self).slots(), a, b),
    {
        let ghost slots = self.slots();
        let alive = |slot: &Slot| -> (alive: bool)
            ensures
                alive == (slot.cell.shares() != 0),
            { slot.cell.strong_count() != 0 };
        self.tag_list.retain(alive);
        proof {
            let keep = choose|keep: Seq<bool>|
                {
                    &&& keep.len() == slots.len()
                    &&& forall|i: int| 0 <= i < keep.len() ==> call_ensures(alive, (&slots[i],), #[trigger] keep[i])
                    &&& self.slots() == kept(slots, keep)
                };
            let after = self.slots();
            assert forall|i: int| 0 <= i < slots.len() implies keep[i] == ((#[trigger] slots[i]).cell.shares() != 0) by {
                assert(call_ensures(alive, (&slots[i],), keep[i]));
            }
            assert forall|i: int| 0 <= i < slots.len() && (#[trigger] slots[i]).cell.shares() != 0 implies after.contains(slots[i]) by {
                let j = lemma_kept_has(slots, keep, i);
            }
            assert forall|j: int| 0 <= j < after.len() implies slots.contains(#[trigger] after[j]) && after[j].cell.shares() != 0 by {
                let i = lemma_kept_from(slots, keep, j);
                assert(keep[i] == (slots[i].cell.shares() != 0));
            }
            assert forall|a: int, b: int| 0 <= a < b < after.len() implies #[trigger] Self::in_order(slots, after, a, b) by {
                let at = lemma_kept_order(slots, keep, a, b);
                assert(slots[at.0] == after[a] && slots[at.1] == after[b]);
            }
            assert forall|j: int| 0 <= j < after.len() implies (#[trigger] after[j]).id < self.next by {
                let i = lemma_kept_from(slots, keep, j);
            }
            assert forall|a: int, b: int| 0 <= a < b < after.len() implies (#[trigger] after[a]).id != (#[trigger] after[b]).id by {
                let at = lemma_kept_order(slots, keep, a, b);
            }
            assert forall|j: int| 0 <= j < after.len() && (#[trigger] after[j]).reads() implies self.live@.contains(after[j].section@)
                && after[j].cell.shares() >= 1 by {
                let i = lemma_kept_from(slots, keep, j);
            }
            assert forall|a: int, b: int|
                0 <= a < b < after.len() && (#[trigger] after[a]).reads() && (#[trigger] after[b]).reads() implies after[a].section@
                != after[b].section@ by {
                let at = lemma_kept_order(slots, keep, a, b);
            }
            assert forall|id: nat| self.live@.contains(id) implies exists|j: int|
                0 <= j < after.len() && (#[trigger] after[j]).reads() && after[j].section@ == id by {
                let i = choose|i: int| 0 <= i < slots.len() && (#[trigger] slots[i]).reads() && slots[i].section@ == id;
                let j = lemma_kept_has(slots, keep, i);
                assert(after[j].reads());
            }
        }
    }

    /// Lets `capture` go of the counters that have moved on, and says whether
    /// none is left.
    fn drain(&self, capture: &mut Capture<THREAD_COUNT>) -> (done: bool)
        requires
            self.wf(),
            old(capture).wf(),
        ensures
            final(capture).wf(),
            done == self.drained(old(capture)),
            done == self.drained(final(capture)),
            forall|s: Set<nat>| self.covers(old(capture), s) ==> #[trigger] self.covers(final(capture), s),
    {
        let ghost entries = capture.active@;
        let waits = |entry: &(usize, usize)| -> (waits: bool)
            requires
                self.wf(),
            ensures
                waits == self.waits_for(*entry),
            { self.still_reading(entry) };
        capture.active.retain(waits);
        let done = capture.active.is_empty();
        proof {
            let keep = choose|keep: Seq<bool>|
                {
                    &&& keep.len() == entries.len()
                    &&& forall|i: int| 0 <= i < keep.len() ==> call_ensures(waits, (&entries[i],), #[trigger] keep[i])
                    &&& capture.active@ == kept(entries, keep)
                };
            let after = capture.active@;
            assert forall|k: int| 0 <= k < entries.len() implies keep[k] == self.waits_for(#[trigger] entries[k]) by {
                assert(call_ensures(waits, (&entries[k],), keep[k]));
            }
            assert forall|k: int| 0 <= k < after.len() implies self.waits_for(#[trigger] after[k]) && after[k].0 % 2 == 1 by {
                let i = lemma_kept_from(entries, keep, k);
                assert(entries[i].0 % 2 == 1);
            }
            assert(old(capture).entries() == entries);
            assert(capture.entries() == after);
            if done {
                assert forall|k: int| 0 <= k < entries.len() implies !self.waits_for(#[trigger] entries[k]) by {
                    if self.waits_for(entries[k]) {
                        let j = lemma_kept_has(entries, keep, k);
                    }
                }
            } else {
                let i = lemma_kept_from(entries, keep, 0);
                assert(self.waits_for(entries[i]));
                assert(self.waits_for(after[0]));
            }
            assert forall|s: Set<nat>| self.covers(old(capture), s) implies #[trigger] self.covers(final(capture), s) by {
                assert forall|id: nat| s.contains(id) && self.live@.contains(id) implies self.accounts(after, id) by {
                    assert(self.accounts(entries, id));
                    let (k, i) = choose|k: int, i: int| self.accounted_at(entries, id, k, i);
                    assert(self.slot_of(entries[k].1, i));
                    let j = lemma_kept_has(entries, keep, k);
                    assert(self.accounted_at(after, id, j, i));
                }
            }
        }
        done
    }

    /// How many shares are out in the counter of the reader of `tag`: one
    /// for the reader, if it has not been given up, and one for a guard, if
    /// the reader is inside a read section. None where the registry has no
    /// such counter.
    pub closed spec fn shares(&self, tag: &ReaderTag) -> int {
        self.shares_of(tag.0)
    }

    /// How many of these shares are a guard's: one while the reader is inside
    /// a read section.
    pub closed spec fn guard_shares(&self, tag: &ReaderTag) -> int {
        self.guards_of(tag.0)
    }

    spec fn shares_of(&self, id: usize) -> int {
        if exists|i: int| self.slot_of(id, i) {
            self.slots()[choose|i: int| self.slot_of(id, i)].cell.shares() as int
        } else {
            0
        }
    }

    spec fn guards_of(&self, id: usize) -> int {
        if exists|i: int| self.slot_of(id, i) {
            if self.slots()[choose|i: int| self.slot_of(id, i)].reads() {
                1
            } else {
                0
            }
        } else {
            0
        }
    }

    /// A reader's counter stands at one place.
    proof fn lemma_shares_at(&self, id: usize, i: int)
        requires
            self.wf(),
            self.slot_of(id, i),
        ensures
            self.shares_of(id) == self.slots()[i].cell.shares(),
            self.guards_of(id) == (if self.slots()[i].reads() { 1int } else { 0int }),
    {
        let j = choose|j: int| self.slot_of(id, j);
        assert(self.slots()[j].id == self.slots()[i].id);
        assert(j == i);
    }

    /// Where no counter is known for a reader, no share is out.
    proof fn lemma_shares_of(&self, id: usize)
        ensures
            (forall|i: int| !self.slot_of(id, i)) ==> self.shares_of(id) == 0 && self.guards_of(id) == 0,
    {
    }

    /// What was done to the slot at `changed` did nothing to the shares of
    /// another reader.
    proof fn lemma_shares_same(&self, pre: Self, id: usize, changed: int)
        requires
            self.wf(),
            pre.wf(),
            self.slots().len() == pre.slots().len(),
            0 <= changed < pre.slots().len(),
            pre.slots()[changed].id != id,
            forall|j: int| 0 <= j < pre.slots().len() ==> (#[trigger] self.slots()[j]).id == pre.slots()[j].id,
            forall|j: int| 0 <= j < pre.slots().len() && j != changed ==> #[trigger] self.slots()[j] == pre.slots()[j],
        ensures
            self.shares_of(id) == pre.shares_of(id),
    {
        if exists|i: int| pre.slot_of(id, i) {
            let i = choose|i: int| pre.slot_of(id, i);
            assert(self.slot_of(id, i));
            self.lemma_shares_at(id, i);
            pre.lemma_shares_at(id, i);
        } else {
            assert forall|i: int| !self.slot_of(id, i) by {
                if self.slot_of(id, i) {
                    assert(pre.slot_of(id, i));
                }
            }
        }
    }

    /// The slot at `i` is outside any read section, its reader holds a share,
    /// and there is room for a guard's.
    spec fn idle_at(&self, i: int) -> bool {
        &&& !self.slots()[i].reads()
        &&& self.slots()[i].cell.shares() >= 1
        &&& self.slots()[i].cell.shares() < usize::MAX
    }

    /// The slot at `i` is inside the section of `guard`, and its reader holds
    /// a share beside the guard's.
    spec fn reading_at(&self, i: int, guard: &RawGuard) -> bool {
        &&& self.slot_of(guard.tag, i)
        &&& self.slots()[i].reads()
        &&& self.slots()[i].section@ == guard.section@
        &&& self.slots()[i].cell.shares() >= 2
    }

    /// Takes one turn of the backoff of `capture`, and says whether it was
    /// worth it: after some turns sleeping is better than spinning.
    pub(crate) fn spin(&self, capture: &mut Capture<THREAD_COUNT>) -> (spun: bool)
        ensures
            final(capture).entries() == old(capture).entries(),
            final(capture).wf() == old(capture).wf(),
            self.drained(final(capture)) == self.drained(old(capture)),
            forall|s: Set<nat>| self.covers(old(capture), s) ==> #[trigger] self.covers(final(capture), s),
    {
        let spun = capture.backoff.spin();
        proof {
            assert(capture.entries() == old(capture).entries());
            assert forall|s: Set<nat>| self.covers(old(capture), s) implies #[trigger] self.covers(capture, s) by {}
        }
        spun
    }

    /// Entry `k` is the note of slot `i`, which is inside section `id`, and
    /// the slot's counter stands where it stood.
    spec fn accounted_at(&self, entries: Seq<(usize, usize)>, id: nat, k: int, i: int) -> bool {
        &&& 0 <= k < entries.len()
        &&& 0 <= i < self.slots().len()
        &&& self.slots()[i].entry() == entries[k]
        &&& self.slots()[i].reads()
        &&& self.slots()[i].section@ == id
    }

    /// Some entry accounts for section `id`.
    spec fn accounts(&self, entries: Seq<(usize, usize)>, id: nat) -> bool {
        exists|k: int, i: int| #[trigger] self.accounted_at(entries, id, k, i)
    }
}

impl<const THREAD_COUNT: usize> Default for SavingStrategy<THREAD_COUNT> {
    fn default() -> (strategy: Self)
        ensures
            THREAD_COUNT <= usize::MAX / 2 ==> strategy.wf(),
            strategy.settled(),
            strategy.can_register(),
            strategy.has_room(),
            strategy.can_capture(),
            strategy.issued() == 0,
            strategy.registered() == 0,
            strategy.active() == Set::<nat>::empty(),
    {
        Self::new()
    }
}

impl<const THREAD_COUNT: usize> Strategy for SavingStrategy<THREAD_COUNT> {
    type ReaderTag = ReaderTag;

    type WriterTag = WriterTag;

    type RawGuard = RawGuard;

    type FastCapture = FastCapture;

    type CaptureError = core::convert::Infallible;

    type Capture = Capture<THREAD_COUNT>;

    closed spec fn wf(&self) -> bool {
        &&& THREAD_COUNT <= usize::MAX / 2
        &&& self.tag_list.wf()
        &&& self.live@.finite()
        &&& forall|id: nat| self.live@.contains(id) ==> id < self.issued@
        &&& Self::slots_wf(self.slots(), self.next, self.live@)
    }

    closed spec fn issued(&self) -> nat {
        self.issued@
    }

    closed spec fn registered(&self) -> nat {
        self.next as nat
    }

    closed spec fn active(&self) -> Set<nat> {
        self.live@
    }

    open spec fn settled(&self) -> bool {
        true
    }

    closed spec fn can_register(&self) -> bool {
        self.next < usize::MAX
    }

    open spec fn has_room(&self) -> bool {
        true
    }

    closed spec fn tag_id(tag: &ReaderTag) -> nat {
        tag.0 as nat
    }

    closed spec fn guard_id(guard: &RawGuard) -> nat {
        guard.section@
    }

    closed spec fn inside(&self, tag: &ReaderTag, guard: &RawGuard) -> bool {
        exists|i: int| #[trigger] self.slot_of(tag.0, i) && self.reading_at(i, guard)
    }

    closed spec fn tag_ready(&self, tag: &ReaderTag) -> bool {
        exists|i: int| #[trigger] self.slot_of(tag.0, i) && self.idle_at(i)
    }

    closed spec fn guard_open(&self, guard: &RawGuard) -> bool {
        exists|i: int| #[trigger] self.slot_of(guard.tag, i) && self.slots()[i].reads() && self.slots()[i].section@ == guard.section@
    }

    open spec fn can_capture(&self) -> bool {
        true
    }

    open spec fn admits(&self, fast: &FastCapture) -> bool {
        true
    }

    closed spec fn covers(&self, capture: &Capture<THREAD_COUNT>, sections: Set<nat>) -> bool {
        &&& capture.wf()
        &&& forall|id: nat|
            sections.contains(id) ==> id < self.issued@ && (self.live@.contains(id) ==> self.accounts(capture.entries(), id))
    }

    closed spec fn drained(&self, capture: &Capture<THREAD_COUNT>) -> bool {
        forall|k: int| 0 <= k < capture.entries().len() ==> !self.waits_for(#[trigger] capture.entries()[k])
    }

    proof fn lemma_sections(&self) {
    }

    proof fn lemma_can_register(&self) {
    }

    proof fn lemma_guard_open(&self, guard: &RawGuard) {
        let i = choose|i: int| #[trigger] self.slot_of(guard.tag, i) && self.slots()[i].reads() && self.slots()[i].section@ == guard.section@;
        assert(self.slots()[i].reads());
    }

    proof fn lemma_covers_none(&self, capture: &Capture<THREAD_COUNT>, sections: Set<nat>) {
    }

    proof fn lemma_quiet(&self, capture: &Capture<THREAD_COUNT>, sections: Set<nat>) {
        assert forall|k: int| 0 <= k < capture.entries().len() implies !self.waits_for(#[trigger] capture.entries()[k]) by {
            if self.waits_for(capture.entries()[k]) {
                let i = choose|i: int| #[trigger] self.slot_of(capture.entries()[k].1, i) && self.slots()[i].cell@ == capture.entries()[k].0;
                assert(self.slots()[i].reads());
                assert(self.live@.contains(self.slots()[i].section@));
            }
        }
    }

    proof fn lemma_drained(&self, capture: &Capture<THREAD_COUNT>, sections: Set<nat>) {
        assert forall|id: nat| sections.contains(id) implies !self.live@.contains(id) by {
            if self.live@.contains(id) {
                let (k, i) = choose|k: int, i: int| self.accounted_at(capture.entries(), id, k, i);
                assert(self.slot_of(capture.entries()[k].1, i));
                assert(self.waits_for(capture.entries()[k]));
            }
        }
    }

    fn reader_tag(&mut self) -> (tag: ReaderTag) {
        let id: usize = self.next;
        self.next = id + 1;
        let mut cell = Thin::new(0usize);
        cell.acquire();
        let ghost before = self.slots();
        self.tag_list.push(Slot { id, cell, section: Ghost(0) });
        proof {
            let after = self.slots();
            assert forall|i: int| 0 <= i < before.len() implies after[i] == before[i] by {}
            assert(self.slot_of(id, before.len() as int));
            assert(!after[before.len() as int].reads());
            assert(after[before.len() as int].cell.shares() == 1);
            assert(self.idle_at(before.len() as int));
            assert(self.slot_of(ReaderTag(id).0, before.len() as int));
            assert forall|t: ReaderTag, g: RawGuard| old(self).inside(&t, &g) implies #[trigger] self.inside(&t, &g) by {
                let i = choose|i: int| #[trigger] old(self).slot_of(t.0, i) && old(self).reading_at(i, &g);
                assert(self.slot_of(t.0, i) && self.reading_at(i, &g));
            }
            assert forall|t: ReaderTag| old(self).tag_ready(&t) implies #[trigger] self.tag_ready(&t) by {
                let i = choose|i: int| #[trigger] old(self).slot_of(t.0, i) && old(self).idle_at(i);
                assert(self.slot_of(t.0, i));
            }
            assert forall|g: RawGuard| old(self).guard_open(&g) implies #[trigger] self.guard_open(&g) by {
                let i = choose|i: int| #[trigger] old(self).slot_of(g.tag, i) && before[i].reads() && before[i].section@ == g.section@;
                assert(self.slot_of(g.tag, i));
            }
            assert forall|c: Capture<THREAD_COUNT>, s: Set<nat>| old(self).covers(&c, s) implies #[trigger] self.covers(&c, s) by {
                assert forall|id: nat| s.contains(id) && self.live@.contains(id) implies self.accounts(c.entries(), id) by {
                    let (k, i) = choose|k: int, i: int| old(self).accounted_at(c.entries(), id, k, i);
                    assert(self.accounted_at(c.entries(), id, k, i));
                }
            }
            assert forall|id: nat| self.live@.contains(id) implies exists|i: int|
                0 <= i < after.len() && (#[trigger] after[i]).reads() && after[i].section@ == id by {
                let i = choose|i: int| 0 <= i < before.len() && (#[trigger] before[i]).reads() && before[i].section@ == id;
                assert(after[i].reads());
            }
        }
        ReaderTag(id)
    }

    fn writer_tag(&mut self) -> (tag: WriterTag) {
        WriterTag(())
    }

    /// Takes back the share that the reader holds in its counter, if it still
    /// holds one. The share of a guard stays out. A counter with no share out
    /// goes with the next capture.
    fn release_tag(&mut self, tag: ReaderTag)
        ensures
            !final(self).tag_ready(&tag),
            forall|g: RawGuard| !final(self).inside(&tag, &g),
            final(self).shares(&tag) == (if old(self).shares(&tag) > old(self).guard_shares(&tag) {
                old(self).shares(&tag) - 1
            } else {
                old(self).shares(&tag)
            }),
            final(self).guard_shares(&tag) == old(self).guard_shares(&tag),
            forall|t: ReaderTag| Self::tag_id(&t) != Self::tag_id(&tag) ==> #[trigger] final(self).shares(&t) == old(self).shares(&t),
    {
        proof {
            self.lemma_shares_of(tag.0);
        }
        match self.find(tag.0) {
            Some(i) => {
                let ghost before = self.slots();
                let slot = self.tag_list.get_mut(i);
                let shares: usize = slot.cell.strong_count();
                let inside: bool = *slot.cell.get() % 2 == 1;
                if (inside && shares >= 2) || (!inside && shares >= 1) {
                    slot.cell.release();
                }
                proof {
                    let after = self.slots();
                    assert forall|j: int| 0 <= j < after.len() implies (#[trigger] after[j]).id == before[j].id && after[j].reads()
                        == before[j].reads() && after[j].section == before[j].section && after[j].cell@ == before[j].cell@ by {}
                    assert forall|j: int| 0 <= j < after.len() && j != i implies #[trigger] after[j] == before[j] by {}
                    assert forall|g: RawGuard| old(self).guard_open(&g) implies #[trigger] self.guard_open(&g) by {
                        let j = choose|j: int| #[trigger] old(self).slot_of(g.tag, j) && before[j].reads() && before[j].section@ == g.section@;
                        assert(self.slot_of(g.tag, j));
                    }
                    assert forall|c: Capture<THREAD_COUNT>, s: Set<nat>| old(self).covers(&c, s) implies #[trigger] self.covers(&c, s) by {
                        assert forall|id: nat| s.contains(id) && self.live@.contains(id) implies self.accounts(c.entries(), id) by {
                            let (k, j) = choose|k: int, j: int| old(self).accounted_at(c.entries(), id, k, j);
                            assert(self.accounted_at(c.entries(), id, k, j));
                        }
                    }
                    assert forall|id: nat| self.live@.contains(id) implies exists|j: int|
                        0 <= j < after.len() && (#[trigger] after[j]).reads() && after[j].section@ == id by {
                        let j = choose|j: int| 0 <= j < before.len() && (#[trigger] before[j]).reads() && before[j].section@ == id;
                        assert(after[j].reads());
                    }
                    assert forall|t: ReaderTag| old(self).tag_ready(&t) && Self::tag_id(&t) != Self::tag_id(&tag) implies #[trigger]
                        self.tag_ready(&t) by {
                        let j = choose|j: int| #[trigger] old(self).slot_of(t.0, j) && old(self).idle_at(j);
                        assert(j != i);
                        assert(self.slot_of(t.0, j) && self.idle_at(j));
                    }
                    assert forall|t: ReaderTag, g: RawGuard|
                        old(self).inside(&t, &g) && Self::tag_id(&t) != Self::tag_id(&tag) implies #[trigger] self.inside(&t, &g) by {
                        let j = choose|j: int| #[trigger] old(self).slot_of(t.0, j) && old(self).reading_at(j, &g);
                        assert(j != i);
                        assert(self.slot_of(t.0, j) && self.reading_at(j, &g));
                    }
                    assert(!self.tag_ready(&tag)) by {
                        if self.tag_ready(&tag) {
                            let j = choose|j: int| #[trigger] self.slot_of(tag.0, j) && self.idle_at(j);
                            assert(after[j].id == after[i as int].id);
                            assert(j == i);
                        }
                    }
                    assert forall|g: RawGuard| !self.inside(&tag, &g) by {
                        if self.inside(&tag, &g) {
                            let j = choose|j: int| #[trigger] self.slot_of(tag.0, j) && self.reading_at(j, &g);
                            assert(after[j].id == after[i as int].id);
                            assert(j == i);
                        }
                    }
                    self.lemma_shares_at(tag.0, i as int);
                    old(self).lemma_shares_at(tag.0, i as int);
                    assert forall|t: ReaderTag| Self::tag_id(&t) != Self::tag_id(&tag) implies #[trigger] self.shares(&t) == old(
                        self,
                    ).shares(&t) by {
                        self.lemma_shares_same(*old(self), t.0, i as int);
                    }
                }
            },
            None => {
                proof {
                    assert(!self.tag_ready(&tag)) by {
                        if self.tag_ready(&tag) {
                            let j = choose|j: int| #[trigger] self.slot_of(tag.0, j) && self.idle_at(j);
                        }
                    }
                    assert forall|g: RawGuard| !self.inside(&tag, &g) by {
                        if self.inside(&tag, &g) {
                            let j = choose|j: int| #[trigger] self.slot_of(tag.0, j) && self.reading_at(j, &g);
                        }
                    }
                }
            },
        }
    }

    fn try_capture_readers(&mut self, tag: &mut WriterTag) -> (fast: Result<FastCapture, core::convert::Infallible>) {
        Ok(FastCapture(()))
    }

    fn finish_capture_readers(&mut self, tag: &mut WriterTag, fast: FastCapture) -> (capture: Capture<THREAD_COUNT>) {
        let active = self.collect();
        let ghost before = self.slots();
        self.sweep();
        let capture = Capture { active, backoff: SpinWait::new() };
        proof {
            let after = self.slots();
            assert forall|t: ReaderTag| old(self).tag_ready(&t) implies #[trigger] self.tag_ready(&t) by {
                let i = choose|i: int| #[trigger] old(self).slot_of(t.0, i) && old(self).idle_at(i);
                assert(before[i].cell.shares() != 0);
                let j = choose|j: int| 0 <= j < after.len() && after[j] == before[i];
                assert(self.slot_of(t.0, j));
            }
            assert forall|g: RawGuard| old(self).guard_open(&g) implies #[trigger] self.guard_open(&g) by {
                let i = choose|i: int| #[trigger] old(self).slot_of(g.tag, i) && before[i].reads() && before[i].section@ == g.section@;
                assert(before[i].reads());
                let j = choose|j: int| 0 <= j < after.len() && after[j] == before[i];
                assert(self.slot_of(g.tag, j));
            }
            assert forall|t: ReaderTag, g: RawGuard| old(self).inside(&t, &g) implies #[trigger] self.inside(&t, &g) by {
                let i = choose|i: int| #[trigger] old(self).slot_of(t.0, i) && old(self).reading_at(i, &g);
                assert(before[i].cell.shares() != 0);
                let j = choose|j: int| 0 <= j < after.len() && after[j] == before[i];
                assert(self.slot_of(t.0, j) && self.reading_at(j, &g));
            }
            assert forall|id: nat| self.live@.contains(id) implies self.accounts(capture.entries(), id) by {
                let i = choose|i: int| 0 <= i < before.len() && (#[trigger] before[i]).reads() && before[i].section@ == id;
                assert(before[i].reads());
                let k = choose|k: int| 0 <= k < active@.len() && active@[k] == before[i].entry();
                let j = choose|j: int| 0 <= j < after.len() && after[j] == before[i];
                assert(self.accounted_at(capture.entries(), id, k, j));
            }
            if self.live@ == Set::<nat>::empty() {
                if active@.len() > 0 {
                    assert(old(self).noted_below(active@[0], before.len() as int));
                    let i = choose|i: int| 0 <= i < before.len() && (#[trigger] before[i]).reads() && before[i].entry() == active@[0];
                    assert(before[i].reads());
                }
            } else {
                let id = choose|id: nat| self.live@.contains(id);
                assert(self.live@.contains(id)) by {
                    if forall|id: nat| !self.live@.contains(id) {
                        assert(self.live@ =~= Set::<nat>::empty());
                    }
                }
                let (k, j) = choose|k: int, j: int| self.accounted_at(capture.entries(), id, k, j);
                assert(self.slot_of(capture.entries()[k].1, j));
                assert(self.waits_for(capture.entries()[k]));
            }
        }
        capture
    }

    fn readers_have_exited(&mut self, capture: &mut Capture<THREAD_COUNT>) -> (done: bool) {
        self.drain(capture)
    }

    fn pause(&mut self, capture: &mut Capture<THREAD_COUNT>)
        ensures
            *final(self) == *old(self),
            final(capture).entries() == old(capture).entries(),
    {
        if !capture.backoff.spin() {
            capture.backoff.reset()
        }
        proof {
            assert(capture.entries() == old(capture).entries());
            assert forall|s: Set<nat>| self.covers(old(capture), s) implies #[trigger] self.covers(capture, s) by {}
        }
    }

    fn begin_guard(&mut self, tag: &mut ReaderTag) -> (guard: RawGuard) {
        let ghost before = self.slots();
        let ghost id = self.issued@;
        let ghost ready = choose|i: int| #[trigger] self.slot_of(tag.0, i) && self.idle_at(i);
        let at = self.find(tag.0);
        let i: usize = match at {
            Some(i) => i,
            None => {
                proof {
                    assert(self.slot_of(tag.0, ready));
                }
                vstd::pervasive::unreached()
            },
        };
        assert(i == ready);
        let slot = self.tag_list.get_mut(i);
        let value: usize = *slot.cell.get();
        slot.cell.set(value + 1);
        slot.cell.acquire();
        slot.section = Ghost(id);
        proof {
            self.live@ = self.live@.insert(id);
            self.issued@ = id + 1;
            let after = self.slots();
            assert(after[i as int].reads());
            assert(self.slot_of(tag.0, i as int));
            assert forall|j: int| 0 <= j < after.len() && j != i implies #[trigger] after[j] == before[j] by {}
            let made = RawGuard { tag: tag.0, section: Ghost(id) };
            assert(self.reading_at(i as int, &made));
            assert forall|t: ReaderTag, g: RawGuard| old(self).inside(&t, &g) implies #[trigger] self.inside(&t, &g) by {
                let j = choose|j: int| #[trigger] old(self).slot_of(t.0, j) && old(self).reading_at(j, &g);
                assert(self.slot_of(t.0, j) && self.reading_at(j, &g));
            }
            assert forall|t: ReaderTag| old(self).tag_ready(&t) && Self::tag_id(&t) != Self::tag_id(old(tag)) implies #[trigger]
                self.tag_ready(&t) by {
                let j = choose|j: int| #[trigger] old(self).slot_of(t.0, j) && old(self).idle_at(j);
                assert(j != i);
                assert(after[j] == before[j]);
                assert(self.slot_of(t.0, j) && self.idle_at(j));
            }
            assert forall|g: RawGuard| old(self).guard_open(&g) implies #[trigger] self.guard_open(&g) by {
                let j = choose|j: int| #[trigger] old(self).slot_of(g.tag, j) && before[j].reads() && before[j].section@ == g.section@;
                assert(self.slot_of(g.tag, j));
            }
            assert forall|c: Capture<THREAD_COUNT>, s: Set<nat>| old(self).covers(&c, s) implies #[trigger] self.covers(&c, s) by {
                assert forall|sid: nat| s.contains(sid) && self.live@.contains(sid) implies self.accounts(c.entries(), sid) by {
                    let (k, j) = choose|k: int, j: int| old(self).accounted_at(c.entries(), sid, k, j);
                    assert(self.accounted_at(c.entries(), sid, k, j));
                }
            }
            assert forall|sid: nat| self.live@.contains(sid) implies exists|j: int|
                0 <= j < after.len() && (#[trigger] after[j]).reads() && after[j].section@ == sid by {
                if sid == id {
                    assert(after[i as int].reads());
                } else {
                    let j = choose|j: int| 0 <= j < before.len() && (#[trigger] before[j]).reads() && before[j].section@ == sid;
                    assert(after[j].reads());
                }
            }
        }
        RawGuard { tag: tag.0, section: Ghost(id) }
    }

    fn end_guard(&mut self, guard: RawGuard) {
        let ghost before = self.slots();
        let ghost open = choose|i: int| #[trigger] self.slot_of(guard.tag, i) && before[i].reads() && before[i].section@ == guard.section@;
        let at = self.find(guard.tag);
        let i: usize = match at {
            Some(i) => i,
            None => {
                proof {
                    assert(self.slot_of(guard.tag, open));
                }
                vstd::pervasive::unreached()
            },
        };
        assert(i == open);
        assert(before[open].reads());
        let slot = self.tag_list.get_mut(i);
        let value: usize = *slot.cell.get();
        slot.cell.set(value.wrapping_add(1));
        slot.cell.release();
        proof {
            self.live@ = self.live@.remove(guard.section@);
            let after = self.slots();
            assert(!after[i as int].reads());
            assert(self.slot_of(guard.tag, i as int));
            assert forall|j: int| 0 <= j < after.len() && j != i implies #[trigger] after[j] == before[j] by {}
            assert forall|t: ReaderTag, g: RawGuard|
                old(self).inside(&t, &g) && Self::guard_id(&g) != Self::guard_id(&guard) implies #[trigger] self.inside(&t, &g) by {
                let j = choose|j: int| #[trigger] old(self).slot_of(t.0, j) && old(self).reading_at(j, &g);
                assert(before[j].reads());
                assert(self.slot_of(t.0, j) && self.reading_at(j, &g));
            }
            assert forall|t: ReaderTag| old(self).inside(&t, &guard) || old(self).tag_ready(&t) implies #[trigger] self.tag_ready(&t) by {
                if old(self).inside(&t, &guard) {
                    let j = choose|j: int| #[trigger] old(self).slot_of(t.0, j) && old(self).reading_at(j, &guard);
                    assert(before[j].reads());
                    assert(old(self).slot_of(guard.tag, j));
                    assert(before[j].id == before[i as int].id);
                    assert(j == i);
                    assert(self.slot_of(t.0, i as int));
                    assert(self.idle_at(i as int));
                } else {
                    let j = choose|j: int| #[trigger] old(self).slot_of(t.0, j) && old(self).idle_at(j);
                    assert(j != i);
                    assert(after[j] == before[j]);
                    assert(self.slot_of(t.0, j) && self.idle_at(j));
                }
            }
            assert forall|g: RawGuard|
                old(self).guard_open(&g) && Self::guard_id(&g) != Self::guard_id(&guard) implies #[trigger] self.guard_open(&g) by {
                let j = choose|j: int| #[trigger] old(self).slot_of(g.tag, j) && before[j].reads() && before[j].section@ == g.section@;
                assert(before[j].reads());
                assert(self.slot_of(g.tag, j));
            }
            assert forall|c: Capture<THREAD_COUNT>, s: Set<nat>| old(self).covers(&c, s) implies #[trigger] self.covers(&c, s) by {
                assert forall|sid: nat| s.contains(sid) && self.live@.contains(sid) implies self.accounts(c.entries(), sid) by {
                    let (k, j) = choose|k: int, j: int| old(self).accounted_at(c.entries(), sid, k, j);
                    assert(before[j].reads());
                    assert(self.accounted_at(c.entries(), sid, k, j));
                }
            }
            assert forall|sid: nat| self.live@.contains(sid) implies exists|j: int|
                0 <= j < after.len() && (#[trigger] after[j]).reads() && after[j].section@ == sid by {
                let j = choose|j: int| 0 <= j < before.len() && (#[trigger] before[j]).reads() && before[j].section@ == sid;
                assert(before[j].reads());
                assert(after[j].reads());
            }
        }
    }
}

} // verus!
