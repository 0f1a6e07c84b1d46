use vstd::prelude::*;

verus! {

/// One slot of a [`Queue`]: a value, and whether a [`QueueNode`] holds it.
struct QueueNodeInner<T> {
    has_both: bool,
    value: T,
}

/// A list of slots that only grows. A slot is claimed by one [`QueueNode`] at
/// a time; a slot that was given back is claimed again before a new one is
/// made. The slot made last is the head of the list, and the list is walked
/// from the head.
///
/// With `SHOULD_DROP` the slots are freed with the queue.
pub struct Queue<T, const SHOULD_DROP: bool> {
    nodes: Vec<QueueNodeInner<T>>,
}

/// The claim on one slot of a [`Queue`].
pub struct QueueNode<T, const SHOULD_DROP: bool> {
    index: usize,
    mark: core::marker::PhantomData<T>,
}

impl<T, const SHOULD_DROP: bool> QueueNode<T, SHOULD_DROP> {
    /// The place of the slot, counted from the oldest.
    pub closed spec fn index(&self) -> int {
        self.index as int
    }
}

impl<T, const SHOULD_DROP: bool> Queue<T, SHOULD_DROP> {
    /// How many slots there are.
    pub closed spec fn len(&self) -> int {
        self.nodes@.len() as int
    }

    /// The slot at `i` is claimed.
    pub closed spec fn claimed(&self, i: int) -> bool {
        self.nodes@[i].has_both
    }

    /// The value in the slot at `i`.
    pub closed spec fn value(&self, i: int) -> T {
        self.nodes@[i].value
    }

    /// `node` is the claim on a slot of this queue.
    pub open spec fn owns(&self, node: &QueueNode<T, SHOULD_DROP>) -> bool {
        0 <= node.index() < self.len() && self.claimed(node.index())
    }

    /// The slot nearest to the head that is not claimed, or `len()` if every
    /// slot is claimed.
    pub open spec fn first_free(&self) -> int
        decreases self.len(),
    {
        self.first_free_below(self.len())
    }

    /// The same among the slots before place `bound`.
    pub open spec fn first_free_below(&self, bound: int) -> int
        decreases bound,
    {
        if bound <= 0 {
            self.len()
        } else if !self.claimed(bound - 1) {
            bound - 1
        } else {
            self.first_free_below(bound - 1)
        }
    }

    /// `post` is this queue but for the slot at `i`, which is claimed or not as
    /// `claimed` says and holds `value`.
    pub open spec fn differs_at(&self, post: &Self, i: int, claimed: bool, value: T) -> bool {
        &&& post.len() == self.len()
        &&& post.claimed(i) == claimed
        &&& post.value(i) == value
        &&& forall|j: int| 0 <= j < self.len() && j != i ==> post.claimed(j) == self.claimed(j) && post.value(j) == self.value(j)
    }

    /// `post` is this queue with one more slot at the head, which is claimed
    /// and holds `value`.
    pub open spec fn grown_by(&self, post: &Self, value: T) -> bool {
        &&& post.len() == self.len() + 1
        &&& post.claimed(self.len())
        &&& post.value(self.len()) == value
        &&& forall|j: int| 0 <= j < self.len() ==> post.claimed(j) == self.claimed(j) && post.value(j) == self.value(j)
    }

    /// What [`Queue::first_free_below`] names: a free slot before `bound` with
    /// none but claimed slots between it and `bound`, or `len()` where every
    /// slot before `bound` is claimed.
    pub proof fn lemma_first_free(&self, bound: int)
        requires
            0 <= bound <= self.len(),
        ensures
            self.first_free_below(bound) == self.len() || 0 <= self.first_free_below(bound) < bound,
            self.first_free_below(bound) < bound ==> !self.claimed(self.first_free_below(bound)),
            forall|j: int| 0 <= j < bound && self.first_free_below(bound) < j ==> self.claimed(j),
            self.first_free_below(bound) == self.len() ==> forall|j: int| 0 <= j < bound ==> self.claimed(j),
        decreases bound,
    {
        if bound > 0 && self.claimed(bound - 1) {
            self.lemma_first_free(bound - 1);
        }
    }

    pub fn new() -> (queue: Self)
        ensures
            queue.len() == 0,
    {
        Self { nodes: Vec::new() }
    }

    /// Makes a slot at the head for `default` and claims it.
    fn alloc_slow(&mut self, default: T) -> (node: QueueNode<T, SHOULD_DROP>)
        ensures
            node.index() == old(self).len(),
            old(self).grown_by(final(self), default),
            final(self).owns(&node),
    {
        let index: usize = self.nodes.len();
        self.nodes.push(QueueNodeInner { has_both: true, value: default });
        QueueNode { index, mark: core::marker::PhantomData }
    }

    /// Claims a slot: the one nearest to the head that is free, with the value
    /// that was left in it, or else a new slot that holds `default`.
    pub fn allocate(&mut self, default: T) -> (node: QueueNode<T, SHOULD_DROP>)
        ensures
            node.index() == old(self).first_free(),
            0 <= node.index() <= old(self).len(),
            final(self).owns(&node),
            node.index() < old(self).len() ==> !old(self).claimed(node.index()) && old(self).differs_at(
                final(self),
                node.index(),
                true,
                old(self).value(node.index()),
            ),
            node.index() == old(self).len() ==> old(self).grown_by(final(self), default),
    {
        proof {
            self.lemma_first_free(self.len());
        }
        let mut head: usize = self.nodes.len();
        while head != 0
            invariant
                head <= self.nodes@.len(),
                *self == *old(self),
                self.first_free() == self.first_free_below(head as int),
            decreases head,
        {
            head = head - 1;
            if !self.nodes[head].has_both {
                self.nodes[head].has_both = true;
                return QueueNode { index: head, mark: core::marker::PhantomData };
            }
        }
        self.alloc_slow(default)
    }

    /// Says whether `finder` holds of the value of some claimed slot. The
    /// slots are tried from the head on, up to the first for which it holds.
    pub fn any<F: Fn(&T) -> bool>(&self, finder: F) -> (found: bool)
        requires
            forall|i: int| 0 <= i < self.len() && self.claimed(i) ==> call_requires(finder, (&#[trigger] self.value(i),)),
        ensures
            found ==> exists|i: int| 0 <= i < self.len() && self.claimed(i) && call_ensures(finder, (&#[trigger] self.value(i),), true),
            !found ==> forall|i: int| 0 <= i < self.len() && self.claimed(i) ==> call_ensures(finder, (&#[trigger] self.value(i),), false),
    {
        let mut head: usize = self.nodes.len();
        while head != 0
            invariant
                head <= self.nodes@.len(),
                forall|i: int| 0 <= i < self.len() && self.claimed(i) ==> call_requires(finder, (&#[trigger] self.value(i),)),
                forall|i: int| head <= i < self.len() && self.claimed(i) ==> call_ensures(finder, (&#[trigger] self.value(i),), false),
            decreases head,
        {
            head = head - 1;
            if self.nodes[head].has_both {
                assert(self.claimed(head as int));
                if finder(&self.nodes[head].value) {
                    assert(call_ensures(finder, (&self.value(head as int),), true));
                    return true;
                }
            }
        }
        false
    }

    /// The value in the slot of `node`.
    pub fn get(&self, node: &QueueNode<T, SHOULD_DROP>) -> (value: &T)
        requires
            self.owns(node),
        ensures
            *value == self.value(node.index()),
    {
        &self.nodes[node.index].value
    }

    /// Puts `value` into the slot of `node`.
    pub fn set(&mut self, node: &QueueNode<T, SHOULD_DROP>, value: T)
        requires
            old(self).owns(node),
        ensures
            old(self).differs_at(final(self), node.index(), true, value),
    {
        self.nodes[node.index].value = value;
    }

    /// Gives the slot of `node` back. Its value stays in it.
    pub fn release(&mut self, node: QueueNode<T, SHOULD_DROP>)
        requires
            old(self).owns(&node),
        ensures
            old(self).differs_at(final(self), node.index(), false, old(self).value(node.index())),
    {
        self.nodes[node.index].has_both = false;
    }
}

} // verus!
