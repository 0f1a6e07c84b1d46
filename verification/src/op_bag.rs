use vstd::prelude::*;
use crate::traits::{lemma_replay_split, replay_buffer, replay_ops, Operation};

verus! {

/// A log of operations that is replayed once on each of two buffers, without
/// the bookkeeping that lets [`crate::op_list::OpList`] survive an operation
/// that unwinds.
pub struct OpBag<O> {
    operations: Vec<O>,
    applied: usize,
}

impl<O> OpBag<O> {
    /// The recorded operations, oldest first.
    pub closed spec fn ops(&self) -> Seq<O> {
        self.operations@
    }

    /// How many entries at the front have been replayed once.
    pub closed spec fn applied_count(&self) -> nat {
        self.applied as nat
    }

    pub open spec fn wf(&self) -> bool {
        self.applied_count() <= self.ops().len()
    }

    pub fn new() -> (bag: Self)
        ensures
            bag.ops() == Seq::<O>::empty(),
            bag.applied_count() == 0,
            bag.wf(),
    {
        Self { operations: Vec::new(), applied: 0 }
    }

    pub fn applied(&self) -> (count: usize)
        ensures
            count == self.applied_count(),
    {
        self.applied
    }

    /// Consumes the applied entries on `buffer`, oldest first, then replays
    /// every entry that is left on it and counts it.
    pub fn apply<B>(&mut self, buffer: &mut B) where O: Operation<B>
        requires
            old(self).wf(),
        ensures
            final(self).ops() == replay_ops(
                old(self).ops().skip(old(self).applied_count() as int),
                replay_buffer(old(self).ops().take(old(self).applied_count() as int), *old(buffer)),
            ),
            *final(buffer) == replay_buffer(
                old(self).ops().skip(old(self).applied_count() as int),
                replay_buffer(old(self).ops().take(old(self).applied_count() as int), *old(buffer)),
            ),
            *final(buffer) == replay_buffer(old(self).ops(), *old(buffer)),
            final(self).ops().len() == old(self).ops().len() - old(self).applied_count(),
            final(self).applied_count() == final(self).ops().len(),
            final(self).wf(),
    {
        let ghost all = self.operations@;
        let ghost start = *buffer;
        let ghost k = self.applied;
        while self.applied != 0
            invariant
                self.applied <= k,
                k <= all.len(),
                self.operations@ == all.skip(k - self.applied),
                *buffer == replay_buffer(all.take(k - self.applied), start),
            decreases self.applied,
        {
            let ghost done = k - self.applied;
            let op = self.operations.remove(0);
            self.applied = self.applied - 1;
            op.apply_final(buffer);
            proof {
                assert(op == all[done]);
                assert(all.take(done + 1).drop_last() == all.take(done));
                assert(all.take(done + 1).last() == all[done]);
                assert(self.operations@ == all.skip(done + 1));
            }
        }
        let ghost rest = self.operations@;
        let ghost mid = *buffer;
        let n: usize = self.operations.len();
        while self.applied < n
            invariant
                self.applied <= n,
                n == rest.len(),
                self.operations@.len() == n,
                *buffer == replay_buffer(rest.take(self.applied as int), mid),
                forall|j: int| 0 <= j < self.applied ==> self.operations@[j] == #[trigger] replay_ops(rest, mid)[j],
                forall|j: int| self.applied <= j < n ==> self.operations@[j] == rest[j],
            decreases n - self.applied,
        {
            let i: usize = self.applied;
            self.applied = i + 1;
            self.operations[i].apply(buffer);
            proof {
                assert(rest.take(i + 1).drop_last() == rest.take(i as int));
                assert(rest.take(i + 1).last() == rest[i as int]);
            }
        }
        proof {
            assert(rest.take(n as int) == rest);
            assert(self.operations@ =~= replay_ops(rest, mid));
            lemma_replay_split(old(self).ops(), old(self).applied_count() as int, *old(buffer));
        }
    }

    pub fn push(&mut self, op: O)
        ensures
            final(self).ops() == old(self).ops().push(op),
            final(self).applied_count() == old(self).applied_count(),
    {
        self.operations.push(op);
    }

    pub fn reserve(&mut self, additional: usize)
        ensures
            final(self).ops() == old(self).ops(),
            final(self).applied_count() == old(self).applied_count(),
    {
        self.operations.reserve(additional)
    }
}

impl<O> core::ops::Deref for OpBag<O> {
    type Target = [O];

    fn deref(&self) -> (ops: &[O])
        ensures
            ops@ == self.ops(),
    {
        self.operations.as_slice()
    }
}

} // verus!
