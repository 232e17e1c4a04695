use vstd::prelude::*;

use crate::list::LinkedListIterator;

verus! {

/// The value `peek` is bound to hand back by a cursor whose tracked
/// position is `pos` over the items `items`: the item at the tracked
/// index, or nothing while the cursor is off the list. The `peek` of
/// either cursor kind pins its result to exactly this.
pub open spec fn peeked<T>(pos: Option<usize>, items: Seq<T>) -> Option<T> {
    match pos {
        Some(i) => Some(items[i as int]),
        None => None,
    }
}

/// Read-only peeks are idempotent: `peek`'s contract makes its result a
/// function of the cursor's state alone, and peeking mutates nothing, so
/// two peeks of one cursor with no mutation between them hand back the
/// same value.
pub proof fn lemma_peek_idempotent<T>(
    pos: Option<usize>,
    items: Seq<T>,
    r1: Option<T>,
    r2: Option<T>,
)
    requires
        r1 == peeked(pos, items),
        r2 == peeked(pos, items),
    ensures
        r1 == r2,
{
}

/// Round-trip at the tail: `push_tail(x)` turns the view `s` into
/// `s.push(x)`; `pop_tail` then hands back the last item — `x` — and
/// leaves `s`, restoring the prior length.
pub proof fn lemma_push_pop_tail<T>(s: Seq<T>, x: T)
    ensures
        s.push(x).len() == s.len() + 1,
        s.push(x).last() == x,
        s.push(x).drop_last() == s,
{
    assert(s.push(x).drop_last() =~= s);
}

/// Round-trip at the head: `push_head(x)` turns the view `s` into
/// `seq![x] + s`; `pop_head` then hands back the first item — `x` — and
/// leaves `s`, restoring the prior length.
pub proof fn lemma_push_pop_head<T>(s: Seq<T>, x: T)
    ensures
        (seq![x] + s).len() == s.len() + 1,
        (seq![x] + s)[0] == x,
        (seq![x] + s).drop_first() == s,
{
    assert((seq![x] + s).drop_first() =~= s);
}

/// Cursor/list agreement: with the cursor on index `i` of view `s`,
/// `insert_after(x)` turns the view into `s.insert(i + 1, x)` and keeps
/// the cursor at `i`; `next` then lands on `i + 1`, which is a valid
/// index, and `peek` hands back the item standing there — `x`.
pub proof fn lemma_insert_after_then_next_peeks_inserted<T>(s: Seq<T>, i: int, x: T)
    requires
        0 <= i < s.len(),
    ensures
        i + 1 < s.insert(i + 1, x).len(),
        s.insert(i + 1, x)[i + 1] == x,
{
    s.insert_ensures(i + 1, x);
}

/// A fresh iterator spans the whole list: the forward pass will yield
/// exactly the items of the list — as many yields as `len()` — and the
/// backward pass will yield exactly their reverse.
pub proof fn lemma_fresh_iterator_spans_list<T>(it: LinkedListIterator<T>)
    requires
        it.wf(),
        it.front_pos() == 0,
        it.back_pos() == it.list_view().len() - 1,
    ensures
        it.front_remaining() == it.list_view(),
        it.front_remaining().len() == it.list_view().len(),
        it.back_remaining() == it.list_view().reverse(),
{
    assert(it.front_remaining() =~= it.list_view());
    assert(it.list_view().subrange(0, it.back_pos() + 1) =~= it.list_view());
}

/// Each forward step peels the first of what remains: the yielded item
/// heads the remaining-forward sequence, and afterwards that sequence has
/// lost exactly its first item. With `lemma_fresh_iterator_spans_list`
/// this pins a full forward pass to the list's items in order.
pub proof fn lemma_forward_step_peels_first<T>(
    pre: LinkedListIterator<T>,
    post: LinkedListIterator<T>,
    x: T,
)
    requires
        pre.front_pos() >= 0,
        pre.front_pos() < pre.list_view().len(),
        post.list_view() == pre.list_view(),
        post.front_pos() == pre.front_pos() + 1,
        x == pre.list_view()[pre.front_pos()],
    ensures
        pre.front_remaining().len() > 0,
        pre.front_remaining()[0] == x,
        post.front_remaining() == pre.front_remaining().drop_first(),
{
    assert(post.front_remaining() =~= pre.front_remaining().drop_first());
}

/// Each backward step peels the first of what remains on that side: the
/// yielded item heads the remaining-backward sequence, and afterwards
/// that sequence has lost exactly its first item. With
/// `lemma_fresh_iterator_spans_list` this pins a full backward pass to
/// the reverse of the list's items.
pub proof fn lemma_backward_step_peels_first<T>(
    pre: LinkedListIterator<T>,
    post: LinkedListIterator<T>,
    x: T,
)
    requires
        pre.back_pos() >= 0,
        pre.back_pos() < pre.list_view().len(),
        post.list_view() == pre.list_view(),
        post.back_pos() == pre.back_pos() - 1,
        x == pre.list_view()[pre.back_pos()],
    ensures
        pre.back_remaining().len() > 0,
        pre.back_remaining()[0] == x,
        post.back_remaining() == pre.back_remaining().drop_first(),
{
    assert(pre.back_remaining()[0] == x);
    assert(post.back_remaining() =~= pre.back_remaining().drop_first());
}

} // verus!
