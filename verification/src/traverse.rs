//! Traversals built on cursors: neighbouring pairs, read with two cursors
//! one step apart, and a lazy filter over a cursor.

use vstd::prelude::*;
use crate::cursor::{CursorView, StackIter};
use crate::stack::Stack;

verus! {

/// The neighbouring pairs of `s`, bottom first: the pair at index `i` holds
/// the elements at `i` and `i + 1`. A sequence of `n` elements has
/// `n - 1` of them, and none where `n` is 0.
pub open spec fn adjacent<T>(s: Seq<T>) -> Seq<(T, T)> {
    Seq::new(
        if s.len() > 0 {
            (s.len() - 1) as nat
        } else {
            0
        },
        |i: int| (s[i], s[i + 1]),
    )
}

/// Every element of the stack together with the one pushed right after it,
/// bottom first. Two cursors walk the stack, the second one step ahead of
/// the first; the walk ends as soon as either has nothing left.
pub fn pairwise<'a, T>(stack: &'a Stack<T>) -> (out: Vec<(&'a T, &'a T)>)
    ensures
        out@.len() == adjacent(stack@).len(),
        forall|i: int|
            0 <= i < out@.len() ==> (*(#[trigger] out@[i]).0, *out@[i].1) == adjacent(stack@)[i],
        stack@.len() <= 1 ==> out@.len() == 0,
{
    let mut current = stack.iter();
    let mut ahead = stack.iter();
    let _ = ahead.next();
    let mut out: Vec<(&'a T, &'a T)> = Vec::new();
    loop
        invariant
            current@.elements == stack@,
            ahead@.elements == stack@,
            ahead@.wf(),
            out@.len() == current@.position,
            current@.position <= adjacent(stack@).len(),
            ahead@.position == if current@.position < stack@.len() {
                current@.position + 1
            } else {
                current@.position
            },
            forall|i: int|
                0 <= i < out@.len() ==> (*(#[trigger] out@[i]).0, *out@[i].1) == adjacent(
                    stack@,
                )[i],
        decreases stack@.len() - current@.position,
    {
        let below = match current.next() {
            Some(x) => x,
            None => {
                return out;
            },
        };
        let above = match ahead.next() {
            Some(x) => x,
            None => {
                return out;
            },
        };
        out.push((below, above));
    }
}

/// `keep` says yes to `x`.
pub open spec fn accepts<T, P: Fn(&T) -> bool>(keep: P, x: T) -> bool {
    call_ensures(keep, (&x,), true)
}

/// `keep` says no to `x`.
pub open spec fn rejects<T, P: Fn(&T) -> bool>(keep: P, x: T) -> bool {
    call_ensures(keep, (&x,), false)
}

/// `keep` may be asked about every element that `cursor` has yet to yield.
pub open spec fn askable<T, P: Fn(&T) -> bool>(keep: P, cursor: CursorView<T>) -> bool {
    forall|i: int|
        cursor.position <= i < cursor.elements.len() ==> call_requires(
            keep,
            (&#[trigger] cursor.elements[i],),
        )
}

/// One request to a filtering cursor that stood at `before`: it ends at
/// `after` and yields `r`. What is yielded is the first element at or after
/// the position of `before` to which `keep` said yes, and the cursor ends
/// just past it; every element skipped on the way got a no. Where nothing is
/// yielded every element that was left got a no, and the cursor ends past
/// the top.
pub open spec fn filter_step<T, P: Fn(&T) -> bool>(
    keep: P,
    before: CursorView<T>,
    after: CursorView<T>,
    r: Option<T>,
) -> bool {
    &&& before.wf()
    &&& after.elements == before.elements
    &&& match r {
        Some(x) => {
            let found = after.position - 1;
            &&& before.position <= found < before.elements.len()
            &&& x == before.elements[found]
            &&& accepts(keep, x)
            &&& forall|k: int|
                before.position <= k < found ==> rejects(keep, #[trigger] before.elements[k])
        },
        None => {
            &&& after.position == before.elements.len()
            &&& forall|k: int|
                before.position <= k < before.elements.len() ==> rejects(
                    keep,
                    #[trigger] before.elements[k],
                )
        },
    }
}

/// `keep` answers as `wanted` says: whatever it returns for an element is
/// the value of `wanted` there.
pub open spec fn decides<T, P: Fn(&T) -> bool>(keep: P, wanted: spec_fn(T) -> bool) -> bool {
    forall|x: T, b: bool| #[trigger] call_ensures(keep, (&x,), b) ==> b == wanted(x)
}

/// The cursor `c` moved up to the first element that is `wanted`, or past
/// the top where none is left.
pub open spec fn seek<T>(c: CursorView<T>, wanted: spec_fn(T) -> bool) -> CursorView<T>
    decreases c.elements.len() - c.position,
{
    match c.peek() {
        Some(x) => if wanted(x) {
            c
        } else {
            seek(c.advance(), wanted)
        },
        None => c,
    }
}

/// A cursor that yields only the elements to which a predicate says yes.
/// It is lazy: it asks the predicate about an element when a request
/// reaches that element, and keeps no collection of its own.
pub struct Filtered<'a, T, P: Fn(&T) -> bool> {
    cursor: StackIter<'a, T>,
    keep: P,
}

impl<'a, T, P: Fn(&T) -> bool> Filtered<'a, T, P> {
    /// The cursor underneath: where the filter stands in the stack.
    pub closed spec fn cursor(&self) -> CursorView<T> {
        self.cursor@
    }

    /// The predicate that decides which elements are yielded.
    pub closed spec fn predicate(&self) -> P {
        self.keep
    }

    #[verifier::type_invariant]
    spec fn can_ask(self) -> bool {
        self.cursor@.wf() && askable(self.keep, self.cursor@)
    }

    /// Yields the first element at or after the cursor's position to which
    /// the predicate says yes, and moves just past it. Where no element is
    /// left that gets a yes, nothing is yielded, now and ever after.
    pub fn next(&mut self) -> (r: Option<&'a T>)
        ensures
            final(self).predicate() == old(self).predicate(),
            filter_step(
                old(self).predicate(),
                old(self).cursor(),
                final(self).cursor(),
                match r {
                    Some(x) => Some(*x),
                    None => None,
                },
            ),
    {
        proof {
            use_type_invariant(&*self);
        }
        loop
            invariant
                self.keep == old(self).keep,
                self.cursor@.elements == old(self).cursor@.elements,
                self.cursor@.wf(),
                old(self).cursor@.position <= self.cursor@.position,
                askable(self.keep, self.cursor@),
                forall|k: int|
                    old(self).cursor@.position <= k < self.cursor@.position ==> rejects(
                        self.keep,
                        #[trigger] self.cursor@.elements[k],
                    ),
            decreases self.cursor@.elements.len() - self.cursor@.position,
        {
            match self.cursor.next() {
                None => {
                    return None;
                },
                Some(x) => {
                    if (self.keep)(x) {
                        return Some(x);
                    }
                },
            }
        }
    }
}

impl<'a, T> StackIter<'a, T> {
    /// Turns the cursor into one that yields only the elements to which
    /// `keep` says yes. Nothing is asked of `keep` yet.
    pub fn filter<P: Fn(&T) -> bool>(self, keep: P) -> (f: Filtered<'a, T, P>)
        requires
            askable(keep, self@),
        ensures
            f.cursor() == self@,
            f.predicate() == keep,
    {
        proof {
            use_type_invariant(&self);
        }
        Filtered { cursor: self, keep }
    }
}

} // verus!
