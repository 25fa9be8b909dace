//! An ordered, growable output sequence.
use vstd::prelude::*;

verus! {

/// The elements that a traversal produced, in order.
#[derive(Debug)]
pub struct Sequence<T> {
    items: Vec<T>,
}

impl<T> View for Sequence<T> {
    type V = Seq<T>;

    closed spec fn view(&self) -> Seq<T> {
        self.items@
    }
}

impl<T> Sequence<T> {
    /// The sequence of one element.
    pub fn once(t: T) -> (r: Self)
        ensures
            r@ == seq![t],
    {
        Sequence { items: vec![t] }
    }

    pub fn new() -> (r: Self)
        ensures
            r@ == Seq::<T>::empty(),
    {
        Sequence { items: Vec::new() }
    }

    /// Moves the elements of `other` to the end of this sequence.
    pub fn append(&mut self, other: Sequence<T>)
        ensures
            final(self)@ == old(self)@ + other@,
    {
        let mut v = other.items;
        self.items.append(&mut v);
    }

    pub fn as_slice(&self) -> (r: &[T])
        ensures
            r@ == self@,
    {
        self.items.as_slice()
    }

    pub fn into_vec(self) -> (r: Vec<T>)
        ensures
            r@ == self@,
    {
        self.items
    }
}

impl<T> From<Vec<T>> for Sequence<T> {
    fn from(items: Vec<T>) -> (r: Sequence<T>) {
        Sequence { items }
    }
}

impl<T> vstd::std_specs::convert::FromSpecImpl<Vec<T>> for Sequence<T> {
    open spec fn obeys_from_spec() -> bool {
        true
    }

    closed spec fn from_spec(items: Vec<T>) -> Sequence<T> {
        Sequence { items }
    }
}

/// The sequence made from a vector holds the vector's elements, in order.
pub proof fn lemma_from_vec<T>(items: Vec<T>)
    ensures
        <Sequence<T> as vstd::std_specs::convert::FromSpec<Vec<T>>>::from_spec(items)@
            == items@,
{
}

} // verus!
