use vstd::prelude::*;

verus! {

/// A value that is either present, holding one `T`, or absent.
///
/// Exactly one variant is active at any time. The type is not `Copy` or
/// `Clone`: handing a container on moves it, and a duplicate is made only
/// through [`Container::duplicate`], where `T` is itself `Copy`.
pub enum Container<T> {
    Present(T),
    Absent,
}

impl<T> Container<T> {
    /// The held value, if any: the mathematical content of a container.
    pub open spec fn contents(self) -> Option<T> {
        match self {
            Container::Present(v) => Some(v),
            Container::Absent => None,
        }
    }

    /// Builds a container that holds `value`.
    pub fn construct_present(value: T) -> (r: Self)
        ensures
            r == Container::Present(value),
            r.contents() == Some(value),
    {
        Container::Present(value)
    }

    /// Builds an empty container.
    pub fn construct_absent() -> (r: Self)
        ensures
            r == Container::<T>::Absent,
            r.contents() == None::<T>,
    {
        Container::Absent
    }

    /// Consumes the container and reports which variant it was: `Some(v)`
    /// for the present branch bound to `v`, `None` for the absent branch.
    pub fn match_on(self) -> (r: Option<T>)
        ensures
            r == self.contents(),
            self is Present <==> r is Some,
            self is Present ==> r == Some(self->Present_0),
    {
        match self {
            Container::Present(v) => Some(v),
            Container::Absent => None,
        }
    }

    /// Whether a value is held, read through a shared borrow.
    pub fn is_present(&self) -> (r: bool)
        ensures
            r == (*self is Present),
    {
        match self {
            Container::Present(_) => true,
            Container::Absent => false,
        }
    }

    /// A shared borrow of the held value, if any. The container stays usable
    /// by its owner once the borrow ends.
    pub fn peek(&self) -> (r: Option<&T>)
        ensures
            r is Some <==> *self is Present,
            r is Some ==> *r->Some_0 == self->Present_0,
    {
        match self {
            Container::Present(v) => Some(v),
            Container::Absent => None,
        }
    }

    /// An exclusive borrow of the held value, if any. Whatever is written
    /// through it is what the container holds once the borrow ends.
    pub fn present_mut(&mut self) -> (r: Option<&mut T>)
        ensures
            r is Some <==> *old(self) is Present,
            (match *old(self) {
                Container::Present(v) => *r->Some_0 == v && *final(self) == Container::Present(
                    *final(r->Some_0),
                ),
                Container::Absent => *final(self) == Container::<T>::Absent,
            }),
    {
        match self {
            Container::Present(v) => Some(v),
            Container::Absent => None,
        }
    }

    /// An explicit duplicate, offered only where the held type is `Copy`.
    pub fn duplicate(&self) -> (r: Self)
        where
            T: Copy,
        ensures
            r == *self,
    {
        match self {
            Container::Present(v) => Container::Present(*v),
            Container::Absent => Container::Absent,
        }
    }
}

impl Container<i32> {
    /// Adds `delta` to the held integer in place; an absent container is
    /// left as it is.
    pub fn add_in_place(&mut self, delta: i32)
        requires
            *old(self) is Present ==> i32::MIN <= old(self)->Present_0 + delta <= i32::MAX,
        ensures
            *final(self) == (match *old(self) {
                Container::Present(v) => Container::Present((v + delta) as i32),
                Container::Absent => Container::Absent,
            }),
    {
        match self {
            Container::Present(v) => {
                *v = crate::arith::add(*v, delta);
            },
            Container::Absent => {},
        }
    }
}

/// Matching on a container built present yields the present branch, bound
/// to the very value it was built from, and never the absent branch.
pub proof fn lemma_match_present<T>(v: T)
    ensures
        Container::Present(v).contents() == Some(v),
        Container::Present(v).contents() != None::<T>,
{
}

/// Matching on a container built absent yields the absent branch, with no
/// value bound.
pub proof fn lemma_match_absent<T>()
    ensures
        Container::<T>::Absent.contents() == None::<T>,
{
}

} // verus!
