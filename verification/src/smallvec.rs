use vstd::prelude::*;

verus! {

/// Where the items of a [`SmallVec`] are: in the value itself, or on the heap.
enum Storage<T, const N: usize> {
    Array { len: usize, items: [Option<T>; N] },
    Heap(Vec<T>),
}

/// A vector that keeps up to `N` items in place and moves to the heap with the
/// item after that. Once on the heap it stays there.
pub struct SmallVec<T, const N: usize> {
    storage: Storage<T, N>,
}

/// The items of `items` whose entry in `keep` is set, in their order.
pub open spec fn kept<T>(items: Seq<T>, keep: Seq<bool>) -> Seq<T>
    recommends
        items.len() == keep.len(),
    decreases items.len(),
{
    if items.len() == 0 {
        Seq::empty()
    } else if keep.last() {
        kept(items.drop_last(), keep.drop_last()).push(items.last())
    } else {
        kept(items.drop_last(), keep.drop_last())
    }
}

/// Nothing more is kept than there was.
pub proof fn lemma_kept_len<T>(items: Seq<T>, keep: Seq<bool>)
    requires
        items.len() == keep.len(),
    ensures
        kept(items, keep).len() <= items.len(),
    decreases items.len(),
{
    if items.len() > 0 {
        lemma_kept_len(items.drop_last(), keep.drop_last());
    }
}

/// Every item that was kept is an item that was marked.
pub proof fn lemma_kept_from<T>(items: Seq<T>, keep: Seq<bool>, j: int) -> (i: int)
    requires
        items.len() == keep.len(),
        0 <= j < kept(items, keep).len(),
    ensures
        0 <= i < items.len(),
        keep[i],
        items[i] == kept(items, keep)[j],
    decreases items.len(),
{
    let front = kept(items.drop_last(), keep.drop_last());
    if keep.last() && j == front.len() {
        items.len() - 1
    } else {
        lemma_kept_from(items.drop_last(), keep.drop_last(), j)
    }
}

/// Every item that was marked is kept.
pub proof fn lemma_kept_has<T>(items: Seq<T>, keep: Seq<bool>, i: int) -> (j: int)
    requires
        items.len() == keep.len(),
        0 <= i < items.len(),
        keep[i],
    ensures
        0 <= j < kept(items, keep).len(),
        kept(items, keep)[j] == items[i],
    decreases items.len(),
{
    let front = kept(items.drop_last(), keep.drop_last());
    if i == items.len() - 1 {
        front.len() as int
    } else {
        lemma_kept_has(items.drop_last(), keep.drop_last(), i)
    }
}

/// Two items that were kept stood at two places before, in the same order.
pub proof fn lemma_kept_order<T>(items: Seq<T>, keep: Seq<bool>, a: int, b: int) -> (at: (int, int))
    requires
        items.len() == keep.len(),
        0 <= a < b < kept(items, keep).len(),
    ensures
        0 <= at.0 < at.1 < items.len(),
        keep[at.0],
        keep[at.1],
        items[at.0] == kept(items, keep)[a],
        items[at.1] == kept(items, keep)[b],
    decreases items.len(),
{
    let front = kept(items.drop_last(), keep.drop_last());
    if keep.last() && b == front.len() {
        lemma_kept_len(items.drop_last(), keep.drop_last());
        let i = lemma_kept_from(items.drop_last(), keep.drop_last(), a);
        (i, items.len() - 1)
    } else {
        lemma_kept_order(items.drop_last(), keep.drop_last(), a, b)
    }
}

/// What one more item adds to what was kept of the items before it.
proof fn lemma_kept_step<T>(items: Seq<T>, keep: Seq<bool>, i: int, stays: bool)
    requires
        0 <= i < items.len(),
        keep.len() == i,
    ensures
        kept(items.take(i + 1), keep.push(stays)) == if stays {
            kept(items.take(i), keep).push(items[i])
        } else {
            kept(items.take(i), keep)
        },
{
    assert(items.take(i + 1).drop_last() == items.take(i));
    assert(keep.push(stays).drop_last() == keep);
}

fn vacant<T>(index: usize) -> (slot: Option<T>)
    ensures
        slot is None,
{
    None
}

/// `core::array::from_fn`, which builds an array by calling its argument once
/// with each index. With [`vacant`] as the argument every slot is `None`.
#[verifier::external_body]
fn vacant_slots<T, const N: usize>() -> (slots: [Option<T>; N])
    ensures
        forall|i: int| 0 <= i < N ==> (#[trigger] slots@[i]) is None,
{
    core::array::from_fn(vacant)
}

impl<T, const N: usize> SmallVec<T, N> {
    /// The items, in the order in which they were pushed.
    pub closed spec fn view(&self) -> Seq<T> {
        match self.storage {
            Storage::Array { len, items } => Seq::new(len as nat, |i: int| items@[i]->0),
            Storage::Heap(vec) => vec@,
        }
    }

    /// The items have left the value for the heap.
    pub closed spec fn spilled(&self) -> bool {
        self.storage is Heap
    }

    pub closed spec fn wf(&self) -> bool {
        match self.storage {
            Storage::Array { len, items } => {
                &&& len <= N
                &&& forall|i: int| 0 <= i < len ==> (#[trigger] items@[i]) is Some
                &&& forall|i: int| len <= i < N ==> (#[trigger] items@[i]) is None
            },
            Storage::Heap(vec) => true,
        }
    }

    pub fn new() -> (vec: Self)
        ensures
            vec.wf(),
            vec@ == Seq::<T>::empty(),
            !vec.spilled(),
    {
        let vec = Self { storage: Storage::Array { len: 0, items: vacant_slots() } };
        assert(vec@ =~= Seq::<T>::empty());
        vec
    }

    pub fn len(&self) -> (len: usize)
        requires
            self.wf(),
        ensures
            len == self@.len(),
            !self.spilled() ==> len <= N,
    {
        match &self.storage {
            Storage::Array { len, .. } => *len,
            Storage::Heap(vec) => vec.len(),
        }
    }

    pub fn is_empty(&self) -> (empty: bool)
        requires
            self.wf(),
        ensures
            empty == (self@.len() == 0),
    {
        self.len() == 0
    }

    /// The item at `index`.
    pub fn get(&self, index: usize) -> (item: &T)
        requires
            self.wf(),
            index < self@.len(),
        ensures
            *item == self@[index as int],
    {
        match &self.storage {
            Storage::Array { items, .. } => {
                match &items[index] {
                    Some(item) => item,
                    None => vstd::pervasive::unreached(),
                }
            },
            Storage::Heap(vec) => &vec[index],
        }
    }

    /// The item at `index`, open to change.
    pub fn get_mut(&mut self, index: usize) -> (item: &mut T)
        requires
            old(self).wf(),
            index < old(self)@.len(),
        ensures
            *item == old(self)@[index as int],
            final(self).wf(),
            final(self)@ == old(self)@.update(index as int, *final(item)),
            final(self).spilled() == old(self).spilled(),
    {
        match &mut self.storage {
            Storage::Array { items, .. } => {
                match &mut items[index] {
                    Some(item) => item,
                    None => vstd::pervasive::unreached(),
                }
            },
            Storage::Heap(vec) => &mut vec[index],
        }
    }

    /// Puts `item` in the place of the item at `index`.
    pub fn set(&mut self, index: usize, item: T)
        requires
            old(self).wf(),
            index < old(self)@.len(),
        ensures
            final(self).wf(),
            final(self)@ == old(self)@.update(index as int, item),
            final(self).spilled() == old(self).spilled(),
    {
        match &mut self.storage {
            Storage::Array { items, .. } => {
                items[index] = Some(item);
            },
            Storage::Heap(vec) => {
                vec[index] = item;
            },
        }
        assert(self@ =~= old(self)@.update(index as int, item));
    }

    /// Makes room for one more item: a full array moves to the heap, with
    /// twice its room, which must be a number that can be counted.
    fn reserve_one(&mut self)
        requires
            old(self).wf(),
            !old(self).spilled() && old(self)@.len() == N ==> N <= usize::MAX / 2,
        ensures
            final(self).wf(),
            final(self)@ == old(self)@,
            final(self).spilled() == (old(self).spilled() || old(self)@.len() == N),
    {
        let moved = match &mut self.storage {
            Storage::Array { len, items } => {
                if *len == N {
                    let mut vec: Vec<T> = Vec::with_capacity(N * 2);
                    let mut i: usize = 0;
                    while i < N
                        invariant
                            i <= N,
                            *len == N,
                            vec@.len() == i,
                            forall|j: int| 0 <= j < i ==> vec@[j] == (#[trigger] old(self)@[j]),
                            forall|j: int| i <= j < N ==> (#[trigger] items@[j]) is Some && items@[j]->0 == old(self)@[j],
                        decreases N - i,
                    {
                        match items[i].take() {
                            Some(item) => vec.push(item),
                            None => {},
                        }
                        i += 1;
                    }
                    Some(vec)
                } else {
                    None
                }
            },
            Storage::Heap(vec) => {
                vec.reserve(1);
                None
            },
        };
        match moved {
            Some(vec) => {
                assert(vec@ =~= old(self)@);
                self.storage = Storage::Heap(vec);
            },
            None => {
                assert(self@ =~= old(self)@);
            },
        }
    }

    pub fn push(&mut self, value: T)
        requires
            old(self).wf(),
            !old(self).spilled() && old(self)@.len() == N ==> N <= usize::MAX / 2,
        ensures
            final(self).wf(),
            final(self)@ == old(self)@.push(value),
            final(self).spilled() == (old(self).spilled() || old(self)@.len() == N),
    {
        self.reserve_one();
        let ghost before = self@;
        match &mut self.storage {
            Storage::Array { len, items } => {
                items[*len] = Some(value);
                *len = *len + 1;
            },
            Storage::Heap(vec) => {
                vec.push(value);
            },
        }
        assert(self@ =~= before.push(value));
    }

    /// Keeps the items for which `f` returns `true`, in their order, and drops
    /// the others. `f` is called once with each item, first to last.
    pub fn retain<F: Fn(&T) -> bool>(&mut self, f: F)
        requires
            old(self).wf(),
            forall|i: int| 0 <= i < old(self)@.len() ==> call_requires(f, (&#[trigger] old(self)@[i],)),
        ensures
            final(self).wf(),
            final(self).spilled() == old(self).spilled(),
            exists|keep: Seq<bool>|
                {
                    &&& keep.len() == old(self)@.len()
                    &&& forall|i: int| 0 <= i < keep.len() ==> call_ensures(f, (&old(self)@[i],), #[trigger] keep[i])
                    &&& final(self)@ == kept(old(self)@, keep)
                },
    {
        let ghost all = self@;
        let ghost mut keep: Seq<bool> = Seq::empty();
        match &mut self.storage {
            Storage::Array { len, items } => {
                let n: usize = *len;
                let mut live: usize = 0;
                let mut i: usize = 0;
                while i < n
                    invariant
                        live <= i <= n <= N,
                        n == all.len(),
                        keep.len() == i,
                        forall|j: int| 0 <= j < i ==> call_ensures(f, (&all[j],), #[trigger] keep[j]),
                        forall|j: int| i <= j < n ==> call_requires(f, (&#[trigger] all[j],)),
                        kept(all.take(i as int), keep).len() == live,
                        forall|j: int| 0 <= j < live ==> (#[trigger] items@[j]) is Some && items@[j]->0 == kept(all.take(i as int), keep)[j],
                        forall|j: int| live <= j < i ==> (#[trigger] items@[j]) is None,
                        forall|j: int| i <= j < n ==> (#[trigger] items@[j]) is Some && items@[j]->0 == all[j],
                        forall|j: int| n <= j < N ==> (#[trigger] items@[j]) is None,
                    decreases n - i,
                {
                    match items[i].take() {
                        Some(item) => {
                            let stays = f(&item);
                            proof {
                                assert(item == all[i as int]);
                                let earlier = keep;
                                keep = earlier.push(stays);
                                lemma_kept_step(all, earlier, i as int, stays);
                            }
                            if stays {
                                items[live] = Some(item);
                                live += 1;
                            }
                        },
                        None => {},
                    }
                    i += 1;
                }
                *len = live;
                proof {
                    assert(all.take(n as int) == all);
                }
            },
            Storage::Heap(vec) => {
                let mut kept_items: Vec<T> = Vec::new();
                let mut items: Vec<T> = Vec::new();
                core::mem::swap(vec, &mut items);
                for item in iter: items
                    invariant
                        iter.seq() == all,
                        keep.len() == iter.index(),
                        forall|j: int| 0 <= j < keep.len() ==> call_ensures(f, (&all[j],), #[trigger] keep[j]),
                        forall|j: int| 0 <= j < all.len() ==> call_requires(f, (&#[trigger] all[j],)),
                        kept_items@ == kept(all.take(iter.index() as int), keep),
                {
                    let stays = f(&item);
                    proof {
                        let earlier = keep;
                        keep = earlier.push(stays);
                        lemma_kept_step(all, earlier, iter.index() as int, stays);
                    }
                    if stays {
                        kept_items.push(item);
                    }
                }
                proof {
                    assert(all.take(all.len() as int) == all);
                }
                *vec = kept_items;
            },
        }
        assert(self@ =~= kept(all, keep));
    }

    /// A copy of the items, in their order.
    pub fn to_vec(&self) -> (vec: Vec<T>) where T: Copy
        requires
            self.wf(),
        ensures
            vec@ == self@,
    {
        let n: usize = self.len();
        let mut vec: Vec<T> = Vec::with_capacity(n);
        let mut i: usize = 0;
        while i < n
            invariant
                self.wf(),
                i <= n,
                n == self@.len(),
                vec@ == self@.take(i as int),
            decreases n - i,
        {
            vec.push(*self.get(i));
            assert(self@.take(i + 1) == self@.take(i as int).push(self@[i as int]));
            i += 1;
        }
        assert(self@.take(n as int) == self@);
        vec
    }
}

impl<T, const N: usize> Default for SmallVec<T, N> {
    fn default() -> (vec: Self)
        ensures
            vec.wf(),
            vec@ == Seq::<T>::empty(),
            !vec.spilled(),
    {
        Self::new()
    }
}

} // verus!
