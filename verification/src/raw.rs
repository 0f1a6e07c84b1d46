use vstd::prelude::*;
use crate::traits::RawDoubleBuffer;

verus! {

/// The index that a selector bit stands for.
pub open spec fn side_index(which: bool) -> int {
    if which {
        1
    } else {
        0
    }
}

impl<B> RawDoubleBuffer for [B; 2] {
    type Buffer = B;

    open spec fn side(&self, index: bool) -> B {
        self@[side_index(index)]
    }

    fn split(&self, which: bool) -> (sides: (&B, &B)) {
        if which {
            (&self[1], &self[0])
        } else {
            (&self[0], &self[1])
        }
    }

    fn split_mut(&mut self, which: bool) -> (sides: (&mut B, &B)) {
        let both: &mut [B] = self;
        let (low, high) = both.split_at_mut(1);
        if which {
            (&mut high[0], &low[0])
        } else {
            (&mut low[0], &high[0])
        }
    }
}

/// The two halves of a slice: the writer's under selector `which`, then the
/// readers'. The first half is `[0, n)` and the second `[n, 2n)`, where `n` is
/// half the length, rounded down; an odd item at the end belongs to neither.
pub fn split<B>(buffers: &[B], which: bool) -> (sides: (&[B], &[B]))
    ensures
        sides.0@ == half(buffers@, which),
        sides.1@ == half(buffers@, !which),
{
    let n: usize = buffers.len() / 2;
    let (low, rest) = buffers.split_at(n);
    let (high, _) = rest.split_at(n);
    proof {
        assert(low@ =~= half(buffers@, false));
        assert(high@ =~= half(buffers@, true));
    }
    if which {
        (high, low)
    } else {
        (low, high)
    }
}

/// The two halves of a slice, as [`split`] gives them, the writer's open to
/// change. Whatever is done through the first reference, the readers' half and
/// the length stay as they are.
pub fn split_mut<B>(buffers: &mut [B], which: bool) -> (sides: (&mut [B], &[B]))
    ensures
        sides.0@ == half(old(buffers)@, which),
        sides.1@ == half(old(buffers)@, !which),
        final(sides.0)@.len() == sides.0@.len() ==> {
            &&& final(buffers)@.len() == old(buffers)@.len()
            &&& half(final(buffers)@, which) =~= final(sides.0)@
            &&& half(final(buffers)@, !which) =~= half(old(buffers)@, !which)
        },
{
    let n: usize = buffers.len() / 2;
    let (low, rest) = buffers.split_at_mut(n);
    let (high, tail) = rest.split_at_mut(n);
    proof {
        assert(low@ =~= half(old(buffers)@, false));
        assert(high@ =~= half(old(buffers)@, true));
    }
    if which {
        (high, &*low)
    } else {
        (low, &*high)
    }
}

/// The half of `buffers` with the given index.
pub open spec fn half<B>(buffers: Seq<B>, index: bool) -> Seq<B> {
    let n = buffers.len() as int / 2;
    if index {
        buffers.subrange(n, 2 * n)
    } else {
        buffers.subrange(0, n)
    }
}

} // verus!
