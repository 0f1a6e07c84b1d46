use vstd::prelude::*;

verus! {

/// A value together with the count of those who share it, in one allocation.
///
/// The count is kept one below the number of handles: it is zero while the
/// value has a single owner.
pub struct ThinInner<T> {
    count: usize,
    value: T,
}

/// A reference-counted value for use on one thread.
///
/// A `Thin` owns the allocation. Others take a share in it with
/// [`Thin::acquire`] and give it back with [`Thin::release`]; the count says
/// how many shares are out.
pub struct Thin<T> {
    inner: Box<ThinInner<T>>,
}

impl<T> ThinInner<T> {
    /// How many share the value beside its owner.
    pub closed spec fn count(&self) -> usize {
        self.count
    }

    pub closed spec fn value(&self) -> T {
        self.value
    }

    pub fn new(value: T) -> (inner: Self)
        ensures
            inner.count() == 0,
            inner.value() == value,
    {
        Self { count: 0, value }
    }
}

impl<T> Thin<T> {
    /// How many share the value beside its owner.
    pub closed spec fn shares(&self) -> usize {
        self.inner.count()
    }

    /// The value itself.
    pub closed spec fn view(&self) -> T {
        self.inner.value()
    }

    pub fn new(value: T) -> (thin: Self)
        ensures
            thin.shares() == 0,
            thin@ == value,
    {
        Self::from_box(Box::new(ThinInner::new(value)))
    }

    /// Takes over an allocation as it is.
    pub fn from_box(inner: Box<ThinInner<T>>) -> (thin: Self)
        ensures
            thin.shares() == inner.count(),
            thin@ == inner.value(),
    {
        Self { inner }
    }

    pub fn strong_count(&self) -> (count: usize)
        ensures
            count == self.shares(),
    {
        self.inner.count
    }

    /// Hands out one more share. The count must have room for it.
    pub fn acquire(&mut self)
        requires
            old(self).shares() < usize::MAX,
        ensures
            final(self).shares() == old(self).shares() + 1,
            final(self)@ == old(self)@,
    {
        self.inner.count = self.inner.count + 1;
    }

    /// Takes one share back.
    pub fn release(&mut self)
        requires
            old(self).shares() > 0,
        ensures
            final(self).shares() == old(self).shares() - 1,
            final(self)@ == old(self)@,
    {
        self.inner.count = self.inner.count - 1;
    }

    pub fn get(&self) -> (value: &T)
        ensures
            *value == self@,
    {
        &self.inner.value
    }

    /// Puts `value` in the place of the shared value.
    pub fn set(&mut self, value: T)
        ensures
            final(self)@ == value,
            final(self).shares() == old(self).shares(),
    {
        self.inner.value = value;
    }
}

} // verus!
