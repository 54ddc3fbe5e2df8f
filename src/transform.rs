use vstd::prelude::*;

use crate::container::Container;

verus! {

/// A capability that consumes its receiver and yields a container of `T`.
///
/// Calls are resolved from the receiver's static type, so a caller that
/// knows that type is held to the implementation's own `transformed`.
pub trait Transform<T>: Sized {
    /// The container that `transform` yields for `self`.
    spec fn transformed(self) -> Container<T>;

    /// Consumes `self` and builds a new container from it.
    fn transform(self) -> (r: Container<T>)
        ensures
            r == self.transformed(),
    ;
}

/// A plain generic wrapper around one value.
pub struct Wrapper<T> {
    pub value: T,
}

impl<T> Wrapper<T> {
    /// Wraps `value`.
    pub fn new(value: T) -> (r: Self)
        ensures
            r.value == value,
    {
        Wrapper { value }
    }

    /// Consumes the wrapper and hands back what it held.
    pub fn get(self) -> (r: T)
        ensures
            r == self.value,
    {
        self.value
    }
}

impl<T> Transform<T> for Container<T> {
    /// A container transforms into a container of the same variant holding
    /// the same value.
    open spec fn transformed(self) -> Container<T> {
        self
    }

    fn transform(self) -> (r: Container<T>) {
        match self {
            Container::Present(v) => Container::Present(v),
            Container::Absent => Container::Absent,
        }
    }
}

impl<T> Transform<T> for Wrapper<T> {
    /// A wrapper transforms into a present container of what it held.
    open spec fn transformed(self) -> Container<T> {
        Container::Present(self.value)
    }

    fn transform(self) -> (r: Container<T>) {
        Container::Present(self.value)
    }
}

/// Transforming a present container gives back a present container of the
/// same value, and transforming an absent one gives an absent one.
pub proof fn lemma_transform_keeps_present<T>(v: T)
    ensures
        Container::Present(v).transformed() == Container::Present(v),
        Container::Present(v).transformed().contents() == Some(v),
        Container::<T>::Absent.transformed() == Container::<T>::Absent,
{
}

} // verus!
