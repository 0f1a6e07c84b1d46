use vstd::prelude::*;
use crate::traits::{lemma_replay_split, replay_buffer, replay_ops, Operation};

verus! {

/// The mark that `applied` carries while a replay is under way: the top bit of
/// the word. Counts stay below it.
pub const POISON_BIT: usize = usize::MAX / 2 + 1;

/// A log of operations that is replayed once on each of two buffers.
///
/// The first `applied_count()` entries have been replayed once already, on the
/// buffer that was the writer's side at that time. The next [`OpList::apply`]
/// consumes them on the other buffer and replays the rest on it.
pub struct OpList<O> {
    operations: Vec<O>,
    applied: usize,
}

impl<O> OpList<O> {
    /// The recorded operations, oldest first.
    pub closed spec fn ops(&self) -> Seq<O> {
        self.operations@
    }

    /// The raw counter word: the count, with the mark added while poisoned.
    pub closed spec fn word(&self) -> usize {
        self.applied
    }

    /// A replay was cut short, and `applied` cannot be trusted to name entries
    /// that the other buffer has seen.
    pub open spec fn is_poisoned(&self) -> bool {
        self.word() >= POISON_BIT
    }

    /// How many entries at the front have been replayed once.
    pub open spec fn applied_count(&self) -> nat {
        if self.is_poisoned() {
            (self.word() - POISON_BIT) as nat
        } else {
            self.word() as nat
        }
    }

    /// The count never names more entries than the log holds.
    pub open spec fn wf(&self) -> bool {
        self.applied_count() <= self.ops().len()
    }

    /// How many entries at the front the next [`OpList::apply`] consumes: the
    /// applied ones, or none while poisoned.
    pub open spec fn due(&self) -> int {
        if self.is_poisoned() {
            0
        } else {
            self.applied_count() as int
        }
    }

    pub fn new() -> (list: Self)
        ensures
            list.ops() == Seq::<O>::empty(),
            list.word() == 0,
            list.wf(),
    {
        Self { operations: Vec::new(), applied: 0 }
    }

    pub fn applied(&self) -> (word: usize)
        ensures
            word == self.word(),
    {
        self.applied
    }

    /// The buffer after [`OpList::apply`]: the entries that are due are
    /// replayed for good, and those that no replay has counted are replayed.
    pub open spec fn replayed_buffer<B>(&self, buffer: B) -> B where O: Operation<B> {
        replay_buffer(self.ops().skip(self.applied_count() as int), replay_buffer(self.ops().take(self.due()), buffer))
    }

    /// The log after [`OpList::apply`]: the entries that were due are gone,
    /// those that a replay that was cut short has counted stay as they are,
    /// and the others stay as their replay left them.
    pub open spec fn replayed_ops<B>(&self, buffer: B) -> Seq<O> where O: Operation<B> {
        self.ops().subrange(self.due(), self.applied_count() as int) + replay_ops(
            self.ops().skip(self.applied_count() as int),
            replay_buffer(self.ops().take(self.due()), buffer),
        )
    }

    /// Brings the writer's buffer up to date with the log.
    ///
    /// The entries that were replayed before are consumed on `buffer`, oldest
    /// first; then every entry that is left is replayed on it and counted. So
    /// the buffer has seen the whole log, in order.
    ///
    /// A poisoned list was in the middle of a replay on this very buffer when
    /// an operation unwound. Nothing is consumed then, and the replay goes on
    /// after the entries that it had counted, the one that unwound among them:
    /// no entry is replayed twice on one buffer, and none is left out.
    pub fn apply<B>(&mut self, buffer: &mut B) where O: Operation<B>
        requires
            old(self).wf(),
            old(self).ops().len() < POISON_BIT,
        ensures
            final(self).ops() == old(self).replayed_ops(*old(buffer)),
            *final(buffer) == old(self).replayed_buffer(*old(buffer)),
            !old(self).is_poisoned() ==> *final(buffer) == replay_buffer(old(self).ops(), *old(buffer)),
            final(self).ops().len() == old(self).ops().len() - old(self).due(),
            final(self).word() == final(self).ops().len(),
            !final(self).is_poisoned(),
            final(self).wf(),
    {
        let start: usize = if self.applied < POISON_BIT {
            self.apply_final(buffer);
            0
        } else {
            self.applied - POISON_BIT
        };
        self.applied = POISON_BIT + start;
        let ghost rest = self.operations@;
        let ghost mid = *buffer;
        let n: usize = self.operations.len();
        let mut i: usize = start;
        while i < n
            invariant
                start <= i <= n,
                n == rest.len(),
                n < POISON_BIT,
                self.operations@.len() == n,
                self.applied == POISON_BIT + i,
                *buffer == replay_buffer(rest.subrange(start as int, i as int), mid),
                forall|j: int| 0 <= j < start ==> self.operations@[j] == rest[j],
                forall|j: int| start <= j < i ==> self.operations@[j] == #[trigger] replay_ops(rest.skip(start as int), mid)[j - start],
                forall|j: int| i <= j < n ==> self.operations@[j] == rest[j],
            decreases n - i,
        {
            self.applied = POISON_BIT + (i + 1);
            self.operations[i].apply(buffer);
            proof {
                assert(rest.subrange(start as int, i + 1).drop_last() == rest.subrange(start as int, i as int));
                assert(rest.subrange(start as int, i + 1).last() == rest[i as int]);
                assert(rest.skip(start as int).take(i - start) == rest.subrange(start as int, i as int));
            }
            i += 1;
        }
        self.applied = n;
        proof {
            assert(rest.subrange(start as int, n as int) == rest.skip(start as int));
            assert(self.operations@ =~= rest.take(start as int) + replay_ops(rest.skip(start as int), mid));
            if old(self).is_poisoned() {
                assert(old(self).ops().take(0) =~= Seq::<O>::empty());
                assert(rest.take(start as int) == old(self).ops().subrange(0, start as int));
            } else {
                assert(rest.take(0) =~= Seq::<O>::empty());
                assert(old(self).ops().subrange(old(self).due(), old(self).due()) =~= Seq::<O>::empty());
                assert(rest.skip(0) == rest);
                lemma_replay_split(old(self).ops(), old(self).due(), *old(buffer));
            }
        }
    }

    /// Forgets that a replay was cut short: the count is taken at its word.
    pub fn assume_no_panic(&mut self)
        ensures
            final(self).ops() == old(self).ops(),
            final(self).word() == old(self).applied_count(),
            !final(self).is_poisoned(),
    {
        if self.applied >= POISON_BIT {
            self.applied = self.applied - POISON_BIT;
        }
    }

    /// Consumes the applied entries on `buffer`, oldest first. The log keeps the
    /// rest, and the count goes down with each entry, so the list is in order at
    /// every call of an operation.
    fn apply_final<B>(&mut self, buffer: &mut B) where O: Operation<B>
        requires
            old(self).wf(),
            !old(self).is_poisoned(),
        ensures
            final(self).ops() == old(self).ops().skip(old(self).word() as int),
            *final(buffer) == replay_buffer(old(self).ops().take(old(self).word() as int), *old(buffer)),
            final(self).word() == 0,
    {
        let ghost all = self.operations@;
        let ghost start = *buffer;
        let ghost k = self.applied;
        while self.applied != 0
            invariant
                self.applied <= k,
                k <= all.len(),
                self.operations@ == all.skip(k - self.applied),
                *buffer == replay_buffer(all.take(k - self.applied), start),
            decreases self.applied,
        {
            let ghost done = k - self.applied;
            let op = self.operations.remove(0);
            self.applied = self.applied - 1;
            op.apply_final(buffer);
            proof {
                assert(op == all[done]);
                assert(all.take(done + 1).drop_last() == all.take(done));
                assert(all.take(done + 1).last() == all[done]);
                assert(self.operations@ == all.skip(done + 1));
            }
        }
    }

    pub fn push(&mut self, op: O)
        ensures
            final(self).ops() == old(self).ops().push(op),
            final(self).word() == old(self).word(),
    {
        self.operations.push(op);
    }

    pub fn reserve(&mut self, additional: usize)
        ensures
            final(self).ops() == old(self).ops(),
            final(self).word() == old(self).word(),
    {
        self.operations.reserve(additional)
    }

    /// Records every operation of `ops`, in their order.
    pub fn extend(&mut self, ops: Vec<O>)
        ensures
            final(self).ops() == old(self).ops() + ops@,
            final(self).word() == old(self).word(),
    {
        let mut ops = ops;
        self.operations.append(&mut ops);
    }
}

impl<O> core::ops::Deref for OpList<O> {
    type Target = [O];

    fn deref(&self) -> (ops: &[O])
        ensures
            ops@ == self.ops(),
    {
        self.operations.as_slice()
    }
}

} // verus!
