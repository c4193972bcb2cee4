//! What holds of every stack and every cursor, over whole runs of calls.
//! Each statement is a proof function: it speaks of the same views and spec
//! functions as the contracts of the operations it is about.

use vstd::prelude::*;
use crate::cursor::CursorView;
use crate::stack::{below_top, top};
use crate::traverse::{decides, filter_step, seek};

verus! {

/// The contents of a stack that held `s` after `items` were pushed one by
/// one, `items[0]` first.
pub open spec fn push_all<T>(s: Seq<T>, items: Seq<T>) -> Seq<T>
    decreases items.len(),
{
    if items.len() == 0 {
        s
    } else {
        push_all(s.push(items[0]), items.drop_first())
    }
}

/// The contents of a stack that held `s` after `n` pops.
pub open spec fn pop_n<T>(s: Seq<T>, n: nat) -> Seq<T>
    decreases n,
{
    if n == 0 {
        s
    } else {
        pop_n(below_top(s), (n - 1) as nat)
    }
}

/// How many entries of `turns` are `who`.
pub open spec fn turns_of(turns: Seq<bool>, who: bool) -> nat
    decreases turns.len(),
{
    if turns.len() == 0 {
        0
    } else {
        turns_of(turns.drop_last(), who) + if turns.last() == who {
            1nat
        } else {
            0nat
        }
    }
}

/// Two cursors after a run of requests in which each entry of `turns` says
/// whose turn it is: `true` asks `a`, `false` asks `b`.
pub open spec fn interleaved<T>(a: CursorView<T>, b: CursorView<T>, turns: Seq<bool>) -> (
    CursorView<T>,
    CursorView<T>,
)
    decreases turns.len(),
{
    if turns.len() == 0 {
        (a, b)
    } else {
        let before = interleaved(a, b, turns.drop_last());
        if turns.last() {
            (before.0.advance(), before.1)
        } else {
            (before.0, before.1.advance())
        }
    }
}

/// Pushing `items` one by one appends them, in their order, above what the
/// stack held.
pub proof fn lemma_push_all_appends<T>(s: Seq<T>, items: Seq<T>)
    ensures
        push_all(s, items) == s + items,
    decreases items.len(),
{
    if items.len() == 0 {
        assert(s + items =~= s);
    } else {
        lemma_push_all_appends(s.push(items[0]), items.drop_first());
        assert(s.push(items[0]) + items.drop_first() =~= s + items);
    }
}

/// Popping `n` times removes the `n` topmost elements, or all of them where
/// there are fewer.
pub proof fn lemma_pop_n_truncates<T>(s: Seq<T>, n: nat)
    ensures
        pop_n(s, n) == if n <= s.len() {
            s.take(s.len() - n)
        } else {
            Seq::empty()
        },
    decreases n,
{
    if n == 0 {
        assert(s.take(s.len() as int) =~= s);
    } else if s.len() == 0 {
        lemma_pop_n_truncates(s, (n - 1) as nat);
        assert(s =~= Seq::empty());
    } else {
        lemma_pop_n_truncates(s.drop_last(), (n - 1) as nat);
        if n <= s.len() {
            assert(s.drop_last().take(s.len() - n) =~= s.take(s.len() - n));
        }
    }
}

/// Last in, first out: after `items` have been pushed onto a stack, the
/// pops return them in reverse, the one pushed last first, and after as many
/// pops as there were pushes the stack holds what it held before. Where it
/// was empty before, one more pop returns nothing.
pub proof fn law_pops_reverse_pushes<T>(base: Seq<T>, items: Seq<T>)
    ensures
        forall|k: nat|
            k < items.len() ==> top(#[trigger] pop_n(push_all(base, items), k)) == Some(
                items[items.len() - 1 - k],
            ),
        pop_n(push_all(base, items), items.len()) == base,
        base.len() == 0 ==> top(pop_n(push_all(base, items), items.len())) is None,
{
    let full = push_all(base, items);
    lemma_push_all_appends(base, items);
    assert forall|k: nat| k < items.len() implies top(#[trigger] pop_n(full, k)) == Some(
        items[items.len() - 1 - k],
    ) by {
        lemma_pop_n_truncates(full, k);
    }
    lemma_pop_n_truncates(full, items.len());
    assert(full.take(base.len() as int) =~= base);
}

/// A cursor that stands within its stack yields, from there on, exactly the
/// elements at and above its position, bottom first.
pub proof fn lemma_yields_rest<T>(c: CursorView<T>)
    requires
        c.wf(),
    ensures
        c.yields() == c.elements.skip(c.position as int),
    decreases c.elements.len() - c.position,
{
    if c.position < c.elements.len() {
        lemma_yields_rest(c.advance());
        assert(seq![c.elements[c.position as int]] + c.elements.skip(c.position as int + 1)
            =~= c.elements.skip(c.position as int));
    } else {
        assert(c.elements.skip(c.position as int) =~= Seq::empty());
    }
}

/// Traversal follows the order of the pushes: a stack built from nothing by
/// pushing `items` holds exactly `items`, bottom first, which is what either
/// traversal of the whole stack yields, and a fresh cursor driven until it is
/// exhausted yields the same.
pub proof fn law_traversal_follows_pushes<T>(items: Seq<T>)
    ensures
        push_all(Seq::empty(), items) == items,
        CursorView::fresh(push_all(Seq::empty(), items)).yields() == items,
{
    lemma_push_all_appends(Seq::empty(), items);
    assert(Seq::<T>::empty() + items =~= items);
    lemma_yields_rest(CursorView::fresh(items));
    assert(items.skip(0) =~= items);
}

/// Every fresh cursor over a stack, driven until it is exhausted, yields the
/// whole contents of the stack, bottom first. So any two of them yield the
/// same, and the same as a traversal of the whole stack.
pub proof fn law_fresh_cursors_agree<T>(s: Seq<T>)
    ensures
        CursorView::fresh(s).yields() == s,
{
    lemma_yields_rest(CursorView::fresh(s));
    assert(s.skip(0) =~= s);
}

/// One more request after `n` is the same as `n` requests after one.
pub proof fn lemma_advance_commutes<T>(c: CursorView<T>, n: nat)
    ensures
        c.advanced(n).advance() == c.advance().advanced(n),
    decreases n,
{
    if n > 0 {
        lemma_advance_commutes(c.advance(), (n - 1) as nat);
    }
}

/// After `n` requests a cursor stands `n` elements further, or past the top
/// where fewer were left, and still walks the same stack.
pub proof fn lemma_advanced_position<T>(c: CursorView<T>, n: nat)
    requires
        c.wf(),
    ensures
        c.advanced(n).elements == c.elements,
        c.advanced(n).position == if c.position + n <= c.elements.len() {
            c.position + n
        } else {
            c.elements.len()
        },
    decreases n,
{
    if n > 0 {
        lemma_advanced_position(c.advance(), (n - 1) as nat);
    }
}

/// Exhaustion is final: once a cursor has been asked at least as often as it
/// had elements left, it stands past the top, and every further request
/// yields nothing and leaves it there.
pub proof fn law_exhaustion_is_final<T>(c: CursorView<T>, n: nat)
    requires
        c.wf(),
        c.position + n >= c.elements.len(),
    ensures
        c.advanced(n).peek() is None,
        c.advanced(n).advance() == c.advanced(n),
        c.advanced(n).position == c.elements.len(),
{
    lemma_advanced_position(c, n);
}

/// Cursors are independent: however the requests to two cursors are
/// interleaved, each ends where its own requests alone would have taken it.
pub proof fn law_cursors_independent<T>(a: CursorView<T>, b: CursorView<T>, turns: Seq<bool>)
    ensures
        interleaved(a, b, turns) == (
            a.advanced(turns_of(turns, true)),
            b.advanced(turns_of(turns, false)),
        ),
    decreases turns.len(),
{
    if turns.len() > 0 {
        let earlier = turns.drop_last();
        law_cursors_independent(a, b, earlier);
        if turns.last() {
            lemma_advance_commutes(a, turns_of(earlier, true));
        } else {
            lemma_advance_commutes(b, turns_of(earlier, false));
        }
    }
}

/// Skipping elements that are not wanted does not change where a search
/// for the first wanted one ends.
pub proof fn lemma_seek_skips_unwanted<T>(c: CursorView<T>, wanted: spec_fn(T) -> bool, to: nat)
    requires
        c.position <= to <= c.elements.len(),
        forall|k: int| c.position <= k < to ==> !wanted(#[trigger] c.elements[k]),
    ensures
        seek(c, wanted) == seek(CursorView { elements: c.elements, position: to }, wanted),
    decreases to - c.position,
{
    if c.position < to {
        assert(!wanted(c.elements[c.position as int]));
        lemma_seek_skips_unwanted(c.advance(), wanted, to);
    }
}

/// A filtering cursor yields exactly what a plain cursor yields once it has
/// been moved to the first wanted element, and ends where that cursor ends:
/// for a predicate that answers as `wanted` says, one request to the filter
/// is a search for the first wanted element followed by one plain request.
pub proof fn law_filter_yields_first_wanted<T, P: Fn(&T) -> bool>(
    keep: P,
    wanted: spec_fn(T) -> bool,
    before: CursorView<T>,
    after: CursorView<T>,
    r: Option<T>,
)
    requires
        decides(keep, wanted),
        filter_step(keep, before, after, r),
    ensures
        r == seek(before, wanted).peek(),
        after == seek(before, wanted).advance(),
{
    let stop: nat = match r {
        Some(_) => (after.position - 1) as nat,
        None => before.elements.len(),
    };
    assert forall|k: int| before.position <= k < stop implies !wanted(
        #[trigger] before.elements[k],
    ) by {
        assert(call_ensures(keep, (&before.elements[k],), false));
    }
    lemma_seek_skips_unwanted(before, wanted, stop);
    if r is Some {
        assert(call_ensures(keep, (&before.elements[stop as int],), true));
    }
}

} // verus!
