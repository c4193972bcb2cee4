//! A forward-only cursor over a stack: the caller asks for the next element,
//! one at a time, and may hold any number of cursors over the same stack.

use vstd::prelude::*;
use crate::stack::Stack;

verus! {

/// What a cursor is, mathematically: the contents of the stack it walks,
/// bottom first, and the number of elements it has already handed out.
pub struct CursorView<T> {
    pub elements: Seq<T>,
    pub position: nat,
}

impl<T> CursorView<T> {
    /// The cursor that stands before the bottom element of `elements`.
    pub open spec fn fresh(elements: Seq<T>) -> Self {
        CursorView { elements, position: 0 }
    }

    /// A cursor never stands past the end of its stack.
    pub open spec fn wf(self) -> bool {
        self.position <= self.elements.len()
    }

    /// The element that the next request yields, if there is one.
    pub open spec fn peek(self) -> Option<T> {
        if self.position < self.elements.len() {
            Some(self.elements[self.position as int])
        } else {
            None
        }
    }

    /// The cursor after one request: one step further, or unchanged once it
    /// is exhausted.
    pub open spec fn advance(self) -> Self {
        if self.position < self.elements.len() {
            CursorView { elements: self.elements, position: self.position + 1 }
        } else {
            self
        }
    }

    /// The cursor after `n` requests.
    pub open spec fn advanced(self, n: nat) -> Self
        decreases n,
    {
        if n == 0 {
            self
        } else {
            self.advance().advanced((n - 1) as nat)
        }
    }

    /// Everything that the cursor yields from here until it is exhausted,
    /// in the order in which it yields it.
    pub open spec fn yields(self) -> Seq<T>
        decreases self.elements.len() - self.position,
    {
        match self.peek() {
            Some(x) => seq![x] + self.advance().yields(),
            None => Seq::empty(),
        }
    }
}

/// A cursor over a stack. It borrows the stack, so the stack cannot change
/// while a cursor lives, and it owns nothing but its position.
pub struct StackIter<'a, T> {
    stack: &'a Stack<T>,
    index: usize,
}

impl<'a, T> View for StackIter<'a, T> {
    type V = CursorView<T>;

    closed spec fn view(&self) -> CursorView<T> {
        CursorView { elements: self.stack@, position: self.index as nat }
    }
}

impl<'a, T> StackIter<'a, T> {
    /// Holds of every cursor that a program can have in hand.
    #[verifier::type_invariant]
    pub open spec fn in_bounds(self) -> bool {
        self@.wf()
    }

    /// Yields a reference to the element at the cursor's position and moves
    /// one step up. Once past the top it yields nothing and stays where it
    /// is, however often it is asked.
    pub fn next(&mut self) -> (r: Option<&'a T>)
        ensures
            match r {
                Some(x) => old(self)@.peek() == Some(*x),
                None => old(self)@.peek() is None,
            },
            final(self)@ == old(self)@.advance(),
            final(self)@.wf(),
        no_unwind
    {
        proof {
            use_type_invariant(&*self);
        }
        if self.index >= self.stack.len() {
            None
        } else {
            let item = self.stack.get(self.index);
            self.index += 1;
            Some(item)
        }
    }
}

impl<T> Stack<T> {
    /// A new cursor before the bottom element. Every call gives a cursor of
    /// its own; none of them changes the stack.
    pub fn iter(&self) -> (c: StackIter<'_, T>)
        ensures
            c@ == CursorView::fresh(self@),
    {
        StackIter { stack: self, index: 0 }
    }
}

} // verus!
