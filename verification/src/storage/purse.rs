//! A persistent array: every write hands back a new array and leaves the
//! old one as it was. Slots are shared between versions, never copied.

use std::sync::Arc;
use vstd::prelude::*;

verus! {

/// `Arc::clone` of std: a second handle to the allocation behind `handle`.
/// The contract claims that both handles hold the same value; nothing is
/// said of the reference count.
#[verifier::external_body]
pub(crate) fn share<T>(handle: &Arc<T>) -> (other: Arc<T>)
    ensures
        other == *handle,
{
    Arc::clone(handle)
}

/// Persistent array. Its view is the sequence of its elements.
pub struct Purse<T> {
    contents: Vec<Arc<T>>,
}

impl<T> View for Purse<T> {
    type V = Seq<T>;

    closed spec fn view(&self) -> Seq<T> {
        Seq::new(self.contents@.len(), |i: int| *self.contents@[i])
    }
}

impl<T> Purse<T> {
    /// An empty array.
    pub fn new() -> (purse: Purse<T>)
        ensures
            purse@ == Seq::<T>::empty(),
    {
        let purse = Purse { contents: Vec::new() };
        purse
    }

    /// An array of `length` slots that all share the one `element`.
    pub fn new_filled(length: usize, element: T) -> (purse: Purse<T>)
        ensures
            purse@ == Seq::new(length as nat, |i: int| element),
    {
        let element = Arc::new(element);
        let mut contents: Vec<Arc<T>> = Vec::new();
        let mut filled: usize = 0;
        while filled < length
            invariant
                filled <= length,
                contents@.len() == filled,
                forall|i: int| 0 <= i < filled ==> contents@[i] == element,
            decreases length - filled,
        {
            contents.push(share(&element));
            filled = filled + 1;
        }
        let purse = Purse { contents };
        purse
    }

    /// The number of slots.
    pub fn len(&self) -> (length: usize)
        ensures
            length == self@.len(),
    {
        self.contents.len()
    }

    /// The element in slot `index`.
    pub fn index(&self, index: usize) -> (element: &T)
        requires
            index < self@.len(),
        ensures
            *element == self@[index as int],
    {
        &self.contents[index]
    }

    /// A new array that holds `element` in slot `index` and shares every
    /// other slot with `self`.
    pub fn set(&self, index: usize, element: T) -> (purse: Purse<T>)
        requires
            index < self@.len(),
        ensures
            purse@ == self@.update(index as int, element),
    {
        let mut purse = self.clone();
        purse.contents.set(index, Arc::new(element));
        purse
    }

    /// A new array with `element` behind the slots of `self`, which it
    /// shares.
    pub fn push(&self, element: T) -> (purse: Purse<T>)
        ensures
            purse@ == self@.push(element),
    {
        let mut purse = self.clone();
        purse.contents.push(Arc::new(element));
        purse
    }
}

impl<T> Clone for Purse<T> {
    /// A second array over the same slots.
    fn clone(&self) -> (purse: Purse<T>)
        ensures
            purse@ == self@,
    {
        let mut contents: Vec<Arc<T>> = Vec::new();
        let mut copied: usize = 0;
        while copied < self.contents.len()
            invariant
                copied <= self.contents@.len(),
                contents@.len() == copied,
                forall|i: int| 0 <= i < copied ==> contents@[i] == self.contents@[i],
            decreases self.contents@.len() - copied,
        {
            contents.push(share(&self.contents[copied]));
            copied = copied + 1;
        }
        let purse = Purse { contents };
        purse
    }
}

impl<T> Purse<T> {
    /// A walk over the elements, from the first slot on.
    pub fn into_iter(&self) -> (iter: PurseIter<'_, T>)
        ensures
            iter.elements() == self@,
            iter.position() == 0,
    {
        PurseIter { purse: self, index: 0 }
    }
}

/// A walk over the elements of a `Purse`, front to back.
pub struct PurseIter<'a, T: 'a> {
    purse: &'a Purse<T>,
    index: usize,
}

impl<'a, T> PurseIter<'a, T> {
    /// The elements of the array that is walked.
    pub closed spec fn elements(self) -> Seq<T> {
        self.purse@
    }

    /// The number of elements that were handed out.
    pub closed spec fn position(self) -> nat {
        self.index as nat
    }

    /// The next element, or `None` once all were handed out.
    pub fn next(&mut self) -> (element: Option<&'a T>)
        ensures
            final(self).elements() == old(self).elements(),
            match element {
                Some(found) => old(self).position() < old(self).elements().len() && *found == old(
                    self,
                ).elements()[old(self).position() as int] && final(self).position() == old(
                    self,
                ).position() + 1,
                None => old(self).position() >= old(self).elements().len() && final(self).position()
                    == old(self).position(),
            },
    {
        if self.index >= self.purse.len() {
            None
        } else {
            let next = self.purse.index(self.index);
            self.index = self.index + 1;
            Some(next)
        }
    }
}

} // verus!
