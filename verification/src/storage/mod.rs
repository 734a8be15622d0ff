//! Persistent containers: old versions stay valid after every write.

pub mod cuboid;
pub mod purse;
pub mod slice;

use crate::storage::purse::share;
use std::sync::Arc;
use vstd::prelude::*;

verus! {

/// A persistent singly linked list. Its view is the sequence of its
/// elements, the head first.
pub enum AList<T> {
    Node(Arc<T>, Arc<AList<T>>),
    End,
}

impl<T> View for AList<T> {
    type V = Seq<T>;

    open spec fn view(&self) -> Seq<T>
        decreases self,
    {
        match self {
            AList::Node(element, next) => seq![**element] + (**next).view(),
            AList::End => Seq::empty(),
        }
    }
}

impl<T> AList<T> {
    /// The empty list.
    pub fn new() -> (list: AList<T>)
        ensures
            list@ == Seq::<T>::empty(),
    {
        AList::End
    }

    /// A list with `element` in front of `self`, which it shares.
    pub fn push(&self, element: T) -> (list: AList<T>)
        ensures
            list@ == seq![element] + self@,
    {
        let prev = self.clone();
        AList::Node(Arc::new(element), Arc::new(prev))
    }

    /// Moves the head one element on. An empty list stays empty.
    fn self_next(&mut self)
        ensures
            final(self)@ == if old(self)@.len() == 0 {
                old(self)@
            } else {
                old(self)@.drop_first()
            },
    {
        let rest = match self {
            AList::Node(_element, next) => Some((**next).clone()),
            AList::End => None,
        };
        if let Some(rest) = rest {
            assert(old(self)@.drop_first() =~= rest@);
            *self = rest;
        }
    }

    /// Takes the first element off the list and hands it out; `None` on an
    /// empty list, which stays as it is.
    pub fn pop(&mut self) -> (head: Option<Arc<T>>)
        ensures
            match head {
                Some(element) => old(self)@.len() > 0 && *element == old(self)@[0] && final(self)@
                    == old(self)@.drop_first(),
                None => old(self)@.len() == 0 && final(self)@ == old(self)@,
            },
    {
        let head = match self {
            AList::Node(element, next) => {
                assert(old(self)@ == seq![**element] + (**next)@);
                Some(share(element))
            },
            AList::End => {
                assert(old(self)@.len() == 0);
                None
            },
        };
        self.self_next();
        head
    }
}

impl<T> Clone for AList<T> {
    /// A second list over the same elements.
    fn clone(&self) -> (list: AList<T>)
        ensures
            list == *self,
    {
        match self {
            AList::End => AList::End,
            AList::Node(element, next) => AList::Node(share(element), share(next)),
        }
    }
}

} // verus!
