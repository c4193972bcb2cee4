//! The container itself: an ordered sequence whose last element is the top.

use vstd::prelude::*;
use vstd::std_specs::iter::IteratorSpec;

verus! {

/// The element that a pop hands out of a stack whose contents are `s`:
/// the last one, or nothing where `s` is empty.
pub open spec fn top<T>(s: Seq<T>) -> Option<T> {
    if s.len() > 0 {
        Some(s.last())
    } else {
        None
    }
}

/// The contents that a pop leaves behind: `s` without its last element,
/// or `s` itself where it is empty.
pub open spec fn below_top<T>(s: Seq<T>) -> Seq<T> {
    if s.len() > 0 {
        s.drop_last()
    } else {
        s
    }
}

/// A last-in-first-out container. Its view is the sequence of its elements
/// in the order in which they were pushed: index 0 is the bottom, the last
/// index is the top.
pub struct Stack<T> {
    data: Vec<T>,
}

impl<T> View for Stack<T> {
    type V = Seq<T>;

    closed spec fn view(&self) -> Seq<T> {
        self.data@
    }
}

impl<T> Stack<T> {
    /// An empty stack.
    pub fn new() -> (s: Self)
        ensures
            s@ == Seq::<T>::empty(),
    {
        Stack { data: Vec::new() }
    }

    /// Puts `value` on top; everything below stays as it was.
    pub fn push(&mut self, value: T)
        ensures
            final(self)@ == old(self)@.push(value),
    {
        self.data.push(value);
    }

    /// Takes the top element off and returns it. On an empty stack nothing
    /// is returned and the stack is unchanged.
    pub fn pop(&mut self) -> (r: Option<T>)
        ensures
            r == top(old(self)@),
            final(self)@ == below_top(old(self)@),
    {
        self.data.pop()
    }

    /// The number of elements.
    pub(crate) fn len(&self) -> (n: usize)
        ensures
            n == self@.len(),
        no_unwind
    {
        self.data.len()
    }

    /// The element at index `i`, counted from the bottom.
    pub(crate) fn get(&self, i: usize) -> (x: &T)
        requires
            i < self@.len(),
        ensures
            *x == self@[i as int],
        no_unwind
    {
        &self.data[i]
    }
}

impl<T> IntoIterator for Stack<T> {
    type Item = T;

    type IntoIter = std::vec::IntoIter<T>;

    /// Hands every element out by value, bottom first.
    fn into_iter(self) -> (iter: std::vec::IntoIter<T>)
        ensures
            iter.remaining() == self@,
            iter.decrease() is Some,
            iter.initial_value_relation(&iter),
    {
        self.data.into_iter()
    }
}

impl<'a, T> IntoIterator for &'a Stack<T> {
    type Item = &'a T;

    type IntoIter = std::slice::Iter<'a, T>;

    /// Hands out a reference to every element, bottom first.
    fn into_iter(self) -> (iter: std::slice::Iter<'a, T>)
        ensures
            iter.remaining().unref() == self@,
            iter.decrease() is Some,
            iter.initial_value_relation(&iter),
    {
        self.data.iter()
    }
}

} // verus!
