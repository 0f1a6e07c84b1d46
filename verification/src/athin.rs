use vstd::prelude::*;

verus! {

/// The most shares that an [`Athin`] hands out: a count beyond it is taken
/// for a leak, and the program is not to go on.
pub const MAX_SHARES: usize = isize::MAX as usize;

/// A value together with the count of those who share it, in one allocation.
///
/// The count is kept one below the number of handles: it is zero while the
/// value has a single owner.
pub struct AthinInner<T> {
    count: usize,
    value: T,
}

/// A reference-counted value whose count may be shared among threads.
///
/// An `Athin` owns the allocation. Others take a share in it with
/// [`Athin::acquire`] and give it back with [`Athin::release`]; the count says
/// how many shares are out.
pub struct Athin<T> {
    inner: Box<AthinInner<T>>,
}

impl<T> AthinInner<T> {
    /// How many share the value beside its owner.
    pub closed spec fn count(&self) -> usize {
        self.count
    }

    pub closed spec fn value(&self) -> T {
        self.value
    }

    pub fn new(value: T) -> (inner: Self)
        ensures
            inner.count() == 0,
            inner.value() == value,
    {
        Self { count: 0, value }
    }
}

impl Athin<usize> {
    /// The stand-in for a tag that no strategy has given out yet: a zero that
    /// is always shared once, so that it is never taken for unused.
    pub fn dangling() -> (thin: Self)
        ensures
            thin.shares() == 1,
            thin@ == 0,
    {
        Self { inner: Box::new(AthinInner { count: 1, value: 0 }) }
    }
}

impl<T> Athin<T> {
    /// How many share the value beside its owner.
    pub closed spec fn shares(&self) -> usize {
        self.inner.count()
    }

    /// The value itself.
    pub closed spec fn view(&self) -> T {
        self.inner.value()
    }

    pub fn new(value: T) -> (thin: Self)
        ensures
            thin.shares() == 0,
            thin@ == value,
    {
        Self::from_box(Box::new(AthinInner::new(value)))
    }

    /// Takes over an allocation as it is.
    pub fn from_box(inner: Box<AthinInner<T>>) -> (thin: Self)
        ensures
            thin.shares() == inner.count(),
            thin@ == inner.value(),
    {
        Self { inner }
    }

    pub fn strong_count(&self) -> (count: usize)
        ensures
            count == self.shares(),
    {
        self.inner.count
    }

    /// Hands out one more share. The count must be below [`MAX_SHARES`].
    pub fn acquire(&mut self)
        requires
            old(self).shares() < MAX_SHARES,
        ensures
            final(self).shares() == old(self).shares() + 1,
            final(self)@ == old(self)@,
    {
        self.inner.count = self.inner.count + 1;
    }

    /// Takes one share back.
    pub fn release(&mut self)
        requires
            old(self).shares() > 0,
        ensures
            final(self).shares() == old(self).shares() - 1,
            final(self)@ == old(self)@,
    {
        self.inner.count = self.inner.count - 1;
    }

    pub fn get(&self) -> (value: &T)
        ensures
            *value == self@,
    {
        &self.inner.value
    }
}

} // verus!
