use vstd::prelude::*;
use crate::traits::RawDoubleBuffer;

verus! {

/// The storage of the two buffers, reached only through a selector.
pub struct RawBuffers<R>(R);

impl<R> RawBuffers<R> {
    /// The storage itself.
    pub closed spec fn view(&self) -> R {
        self.0
    }

    pub fn new(buffers: R) -> (raw: Self)
        ensures
            raw@ == buffers,
    {
        Self(buffers)
    }
}

impl<R: RawDoubleBuffer> RawBuffers<R> {
    /// The buffer that readers use under selector `which`.
    pub fn read(&self, which: bool) -> (buffer: &R::Buffer)
        ensures
            *buffer == self@.side(!which),
    {
        self.0.split(which).1
    }

    pub fn split(&self, which: bool) -> (sides: (&R::Buffer, &R::Buffer))
        ensures
            *sides.0 == self@.side(which),
            *sides.1 == self@.side(!which),
    {
        self.0.split(which)
    }

    pub fn split_mut(&mut self, which: bool) -> (sides: (&mut R::Buffer, &R::Buffer))
        ensures
            *sides.0 == old(self)@.side(which),
            *sides.1 == old(self)@.side(!which),
            final(self)@.side(which) == *final(sides.0),
            final(self)@.side(!which) == old(self)@.side(!which),
    {
        self.0.split_mut(which)
    }
}

} // verus!
