//! The focus manager: one cursor into a sibling sequence, with cyclic
//! next/previous traversal that skips non-focusable children.

use vstd::prelude::*;
use crate::view::TView;
use crate::view::cursor_ok;
use crate::view::focusable;
use crate::view::sets_focus_to;

verus! {

pub struct FocusManager {
    pub index: usize,
}

/// Where the cursor lands after up to `fuel` forward steps: it advances
/// cyclically and stops at the first focusable child; with no focusable
/// child it completes all steps and comes back around.
pub open spec fn next_from(children: Seq<TView>, idx: int, fuel: nat) -> int
    decreases fuel,
{
    if children.len() == 0 || fuel == 0 {
        idx
    } else {
        let j = (idx + 1) % (children.len() as int);
        if focusable(children[j]) {
            j
        } else {
            next_from(children, j, (fuel - 1) as nat)
        }
    }
}

/// Where the cursor lands after up to `fuel` backward steps, symmetric to
/// `next_from`.
pub open spec fn prev_from(children: Seq<TView>, idx: int, fuel: nat) -> int
    decreases fuel,
{
    if children.len() == 0 || fuel == 0 {
        idx
    } else {
        let j = if idx == 0 {
            children.len() - 1
        } else {
            idx - 1
        };
        if focusable(children[j]) {
            j
        } else {
            prev_from(children, j, (fuel - 1) as nat)
        }
    }
}

/// A traversal's effect on the children: focus cleared on the child at the
/// old cursor, then set on the child at the new one.
pub open spec fn traverses_to(pre: Seq<TView>, i0: int, j: int, post: Seq<TView>) -> bool {
    exists|c1: TView, c2: TView|
        {
            &&& sets_focus_to(pre[i0], c1, false)
            &&& sets_focus_to(pre.update(i0, c1)[j], c2, true)
            &&& post == #[trigger] pre.update(i0, c1).update(j, c2)
        }
}

/// What `focus_next` does: nothing on an empty list, else the cursor moves
/// to the cyclic successor (skipping non-focusable children) and the focus
/// flags follow it.
pub open spec fn focus_next_rel(
    pre: Seq<TView>,
    pre_fm: FocusManager,
    post: Seq<TView>,
    post_fm: FocusManager,
) -> bool {
    if pre.len() == 0 {
        post == pre && post_fm == pre_fm
    } else {
        let j = next_from(pre, pre_fm.index as int, pre.len());
        post_fm.index == j && traverses_to(pre, pre_fm.index as int, j, post)
    }
}

/// What `focus_prev` does, symmetric to `focus_next_rel`.
pub open spec fn focus_prev_rel(
    pre: Seq<TView>,
    pre_fm: FocusManager,
    post: Seq<TView>,
    post_fm: FocusManager,
) -> bool {
    if pre.len() == 0 {
        post == pre && post_fm == pre_fm
    } else {
        let j = prev_from(pre, pre_fm.index as int, pre.len());
        post_fm.index == j && traverses_to(pre, pre_fm.index as int, j, post)
    }
}

/// What `set_focus` does: on a focusable in-range target, the cursor moves
/// there and the focus flags follow; otherwise the call is a complete
/// no-op — cursor unchanged, no focus flag toggled anywhere.
pub open spec fn set_focus_rel(
    pre: Seq<TView>,
    pre_fm: FocusManager,
    post: Seq<TView>,
    post_fm: FocusManager,
    target: int,
) -> bool {
    if 0 <= target < pre.len() && focusable(pre[target]) {
        post_fm.index == target && traverses_to(pre, pre_fm.index as int, target, post)
    } else {
        post == pre && post_fm == pre_fm
    }
}

/// The landing point of a forward traversal stays inside the child list.
pub proof fn lemma_next_from_in_range(children: Seq<TView>, idx: int, fuel: nat)
    requires
        children.len() > 0,
        0 <= idx < children.len(),
    ensures
        0 <= next_from(children, idx, fuel) < children.len(),
    decreases fuel,
{
    if fuel > 0 {
        let j = (idx + 1) % (children.len() as int);
        vstd::arithmetic::div_mod::lemma_mod_pos_bound(idx + 1, children.len() as int);
        if !focusable(children[j]) {
            lemma_next_from_in_range(children, j, (fuel - 1) as nat);
        }
    }
}

/// The landing point of a backward traversal stays inside the child list.
pub proof fn lemma_prev_from_in_range(children: Seq<TView>, idx: int, fuel: nat)
    requires
        children.len() > 0,
        0 <= idx < children.len(),
    ensures
        0 <= prev_from(children, idx, fuel) < children.len(),
    decreases fuel,
{
    if fuel > 0 {
        let j = if idx == 0 {
            children.len() - 1
        } else {
            idx - 1
        };
        if !focusable(children[j]) {
            lemma_prev_from_in_range(children, j, (fuel - 1) as nat);
        }
    }
}

/// A traversal keeps every child well formed, keeps the list's length, and
/// changes no child's focusability.
pub proof fn lemma_traverse_wf(pre: Seq<TView>, i0: int, j: int, post: Seq<TView>)
    requires
        traverses_to(pre, i0, j, post),
        0 <= i0 < pre.len(),
        0 <= j < pre.len(),
        forall|i: int| 0 <= i < pre.len() ==> crate::view::view_wf(#[trigger] pre[i]),
    ensures
        post.len() == pre.len(),
        forall|i: int| 0 <= i < post.len() ==> crate::view::view_wf(#[trigger] post[i]),
        forall|i: int| 0 <= i < post.len() ==> focusable(#[trigger] post[i]) == focusable(pre[i]),
{
    let (c1, c2) = choose|c1: TView, c2: TView|
        {
            &&& sets_focus_to(pre[i0], c1, false)
            &&& sets_focus_to(pre.update(i0, c1)[j], c2, true)
            &&& post == #[trigger] pre.update(i0, c1).update(j, c2)
        };
    let s1 = pre.update(i0, c1);
    crate::view::lemma_sets_focus_wf(pre[i0], c1, false);
    crate::view::lemma_sets_focus_wf(s1[j], c2, true);
    assert forall|i: int| 0 <= i < post.len() implies crate::view::view_wf(#[trigger] post[i])
        && focusable(post[i]) == focusable(pre[i]) by {
        if i != j && i != i0 {
            assert(post[i] == pre[i]);
        }
    }
}

/// Focus request law: asking to focus an out-of-range or non-focusable
/// child leaves the cursor and every child — so every focus flag —
/// exactly as they were.
pub proof fn lemma_set_focus_noop(
    pre: Seq<TView>,
    pre_fm: FocusManager,
    post: Seq<TView>,
    post_fm: FocusManager,
    target: int,
)
    requires
        set_focus_rel(pre, pre_fm, post, post_fm, target),
        !(0 <= target < pre.len() && focusable(pre[target])),
    ensures
        post == pre,
        post_fm == pre_fm,
{
}


/// The number of focusable children in a sibling list.
pub open spec fn count_focusable(s: Seq<TView>) -> int
    decreases s.len(),
{
    if s.len() == 0 {
        0
    } else {
        count_focusable(s.drop_last()) + if focusable(s.last()) {
            1int
        } else {
            0int
        }
    }
}

/// The cursor position after `m` forward traversals.
pub open spec fn iter_next(s: Seq<TView>, i: int, m: nat) -> int
    decreases m,
{
    if m == 0 {
        i
    } else {
        iter_next(s, next_from(s, i, s.len()), (m - 1) as nat)
    }
}

/// The number of focusable children met within the first `d` cyclic steps
/// after position `i`.
spec fn cntw(s: Seq<TView>, i: int, d: int) -> int
    decreases d,
{
    if d <= 0 {
        0
    } else {
        cntw(s, i, d - 1) + if focusable(s[(i + d) % (s.len() as int)]) {
            1int
        } else {
            0int
        }
    }
}

/// Stepping a start point by its own remainder does not change where the
/// following steps land.
proof fn lemma_mod_shift(a: int, b: int, n: int)
    requires
        n > 0,
    ensures
        (a % n + b) % n == (a + b) % n,
{
    vstd::arithmetic::div_mod::lemma_add_mod_noop(a, b, n);
    vstd::arithmetic::div_mod::lemma_add_mod_noop(a % n, b, n);
    vstd::arithmetic::div_mod::lemma_mod_twice(a, n);
}

proof fn lemma_cntw_nonneg(s: Seq<TView>, i: int, d: int)
    ensures
        cntw(s, i, d) >= 0,
    decreases d,
{
    if d > 0 {
        lemma_cntw_nonneg(s, i, d - 1);
    }
}

/// An empty window holds no focusable child at any of its steps.
proof fn lemma_cntw_zero(s: Seq<TView>, i: int, d: int)
    requires
        cntw(s, i, d) == 0,
    ensures
        forall|e: int|
            1 <= e <= d ==> !(#[trigger] focusable(s[(i + e) % (s.len() as int)])),
    decreases d,
{
    if d > 0 {
        lemma_cntw_nonneg(s, i, d - 1);
        lemma_cntw_zero(s, i, d - 1);
    }
}

/// Window counts add up across a split point.
proof fn lemma_cntw_split(s: Seq<TView>, i: int, d1: int, d2: int)
    requires
        s.len() > 0,
        d1 >= 0,
        d2 >= 0,
    ensures
        cntw(s, i, d1 + d2) == cntw(s, i, d1) + cntw(s, (i + d1) % (s.len() as int), d2),
    decreases d2,
{
    let n = s.len() as int;
    if d2 > 0 {
        lemma_cntw_split(s, i, d1, d2 - 1);
        lemma_mod_shift(i + d1, d2, n);
    }
}

/// A window count can also be peeled from the front.
proof fn lemma_cntw_front(s: Seq<TView>, i: int, d: int)
    requires
        s.len() > 0,
        d >= 1,
    ensures
        cntw(s, i, d) == (if focusable(s[(i + 1) % (s.len() as int)]) {
            1int
        } else {
            0int
        }) + cntw(s, (i + 1) % (s.len() as int), d - 1),
    decreases d,
{
    let n = s.len() as int;
    let i1 = (i + 1) % n;
    if d == 1 {
        assert(cntw(s, i, 1) == cntw(s, i, 0) + if focusable(s[i1]) {
            1int
        } else {
            0int
        });
        assert(cntw(s, i1, 0) == 0);
    } else {
        lemma_cntw_front(s, i, d - 1);
        lemma_mod_shift(i + 1, d - 1, n);
        assert(cntw(s, i, d) == cntw(s, i, d - 1) + if focusable(s[(i + d) % n]) {
            1int
        } else {
            0int
        });
        assert(cntw(s, i1, d - 1) == cntw(s, i1, d - 2) + if focusable(s[(i1 + (d - 1)) % n]) {
            1int
        } else {
            0int
        });
        assert((i1 + (d - 1)) % n == (i + d) % n);
    }
}

/// Counting one full cycle from the last position walks the list front to
/// back.
proof fn lemma_cntw_take(s: Seq<TView>, d: int)
    requires
        s.len() > 0,
        0 <= d <= s.len(),
    ensures
        cntw(s, s.len() - 1, d) == count_focusable(s.take(d)),
    decreases d,
{
    let n = s.len() as int;
    if d > 0 {
        lemma_cntw_take(s, d - 1);
        vstd::arithmetic::div_mod::lemma_fundamental_div_mod_converse(n - 1 + d, n, 1, d - 1);
        assert(s.take(d).drop_last() =~= s.take(d - 1));
        assert(s.take(d).last() == s[d - 1]);
    }
}

/// One full cycle counts every focusable child, wherever it starts.
proof fn lemma_cntw_rotate(s: Seq<TView>, i: int)
    requires
        s.len() > 0,
        0 <= i < s.len(),
    ensures
        cntw(s, i, s.len() as int) == count_focusable(s),
    decreases s.len() - i,
{
    let n = s.len() as int;
    if i == n - 1 {
        lemma_cntw_take(s, n);
        assert(s.take(n) =~= s);
    } else {
        lemma_cntw_rotate(s, i + 1);
        lemma_cntw_front(s, i, n);
        vstd::arithmetic::div_mod::lemma_small_mod((i + 1) as nat, n as nat);
        vstd::arithmetic::div_mod::lemma_fundamental_div_mod_converse(i + 1 + n, n, 1, i + 1);
    }
}

/// The first focusable child within a non-empty window: its distance, the
/// silence before it, and that it alone accounts for the window up to it.
proof fn lemma_first_hit(s: Seq<TView>, j: int, r: int) -> (d: int)
    requires
        s.len() > 0,
        r >= 1,
        cntw(s, j, r) >= 1,
    ensures
        1 <= d <= r,
        focusable(s[(j + d) % (s.len() as int)]),
        forall|e: int| 1 <= e < d ==> !(#[trigger] focusable(s[(j + e) % (s.len() as int)])),
        cntw(s, j, d) == 1,
    decreases r,
{
    let n = s.len() as int;
    lemma_cntw_nonneg(s, j, r - 1);
    if cntw(s, j, r - 1) >= 1 {
        let d = lemma_first_hit(s, j, r - 1);
        d
    } else {
        lemma_cntw_zero(s, j, r - 1);
        r
    }
}

/// The traversal search lands on the first focusable child: `d` forward
/// steps away, with none before it.
proof fn lemma_next_from_first(s: Seq<TView>, j: int, d: int, fuel: nat)
    requires
        s.len() > 0,
        0 <= j < s.len(),
        1 <= d <= fuel,
        focusable(s[(j + d) % (s.len() as int)]),
        forall|e: int| 1 <= e < d ==> !(#[trigger] focusable(s[(j + e) % (s.len() as int)])),
    ensures
        next_from(s, j, fuel) == (j + d) % (s.len() as int),
    decreases d,
{
    let n = s.len() as int;
    let j1 = (j + 1) % n;
    vstd::arithmetic::div_mod::lemma_mod_pos_bound(j + 1, n);
    if d == 1 {
    } else {
        assert(!focusable(s[(j + 1) % n]));
        assert forall|e: int| 1 <= e < d - 1 implies !(#[trigger] focusable(s[(j1 + e) % n])) by {
            lemma_mod_shift(j + 1, e, n);
            assert(!focusable(s[(j + (e + 1)) % n]));
        }
        lemma_mod_shift(j + 1, d - 1, n);
        lemma_next_from_first(s, j1, d - 1, (fuel - 1) as nat);
    }
}

/// Walking `m` traversal steps through a window that holds exactly `m`
/// focusable children, the last of them at the window's far end, lands on
/// that last child.
proof fn lemma_walk(s: Seq<TView>, j: int, m: int, r: int, t: int)
    requires
        s.len() > 0,
        0 <= j < s.len(),
        1 <= m,
        1 <= r <= s.len(),
        cntw(s, j, r) == m,
        (j + r) % (s.len() as int) == t,
        focusable(s[t]),
    ensures
        iter_next(s, j, m as nat) == t,
    decreases m,
{
    let n = s.len() as int;
    let d = lemma_first_hit(s, j, r);
    lemma_next_from_first(s, j, d, s.len());
    let j1 = (j + d) % n;
    vstd::arithmetic::div_mod::lemma_mod_pos_bound(j + d, n);
    lemma_cntw_split(s, j, d, r - d);
    lemma_mod_shift(j + d, r - d, n);
    assert(next_from(s, j, s.len()) == j1);
    assert(iter_next(s, j, m as nat) == iter_next(s, j1, (m - 1) as nat));
    if m == 1 {
        if r > d {
            lemma_cntw_zero(s, j1, r - d);
            assert(!focusable(s[(j1 + (r - d)) % n]));
            assert(false);
        }
        assert(t == j1);
        assert(iter_next(s, j1, 0) == j1);
    } else {
        assert(cntw(s, j1, r - d) == m - 1);
        assert(cntw(s, j1, 0) == 0);
        assert(r - d >= 1);
        lemma_walk(s, j1, m - 1, r - d, t);
    }
}

/// Focus traversal cycle law: with the cursor on a focusable child,
/// advancing it exactly as many times as there are focusable children
/// brings it back to its original position.
pub proof fn lemma_focus_cycle(s: Seq<TView>, i0: int)
    requires
        s.len() > 0,
        0 <= i0 < s.len(),
        focusable(s[i0]),
    ensures
        count_focusable(s) >= 1,
        iter_next(s, i0, count_focusable(s) as nat) == i0,
{
    let n = s.len() as int;
    lemma_cntw_rotate(s, i0);
    vstd::arithmetic::div_mod::lemma_fundamental_div_mod_converse(i0 + n, n, 1, i0);
    lemma_cntw_nonneg(s, i0, n - 1);
    lemma_walk(s, i0, count_focusable(s), n, i0);
}

/// The traversal search reads only which children are focusable, so two
/// lists focusable at the same positions traverse identically; combined
/// with `lemma_traverse_wf`, the cycle law carries across the child
/// mutations that each traversal makes.
pub proof fn lemma_next_from_congruent(a: Seq<TView>, b: Seq<TView>, idx: int, fuel: nat)
    requires
        a.len() == b.len(),
        0 <= idx,
        forall|i: int| 0 <= i < a.len() ==> focusable(#[trigger] a[i]) == focusable(b[i]),
    ensures
        next_from(a, idx, fuel) == next_from(b, idx, fuel),
    decreases fuel,
{
    let n = a.len() as int;
    if a.len() > 0 && fuel > 0 {
        let j = (idx + 1) % n;
        vstd::arithmetic::div_mod::lemma_mod_pos_bound(idx + 1, n);
        if !focusable(a[j]) {
            lemma_next_from_congruent(a, b, j, (fuel - 1) as nat);
        }
    }
}

/// Two lists focusable at the same positions hold the same number of
/// focusable children.
pub proof fn lemma_count_congruent(a: Seq<TView>, b: Seq<TView>)
    requires
        a.len() == b.len(),
        forall|i: int| 0 <= i < a.len() ==> focusable(#[trigger] a[i]) == focusable(b[i]),
    ensures
        count_focusable(a) == count_focusable(b),
    decreases a.len(),
{
    if a.len() > 0 {
        assert(focusable(a.last()) == focusable(b.last()));
        assert forall|i: int| 0 <= i < a.drop_last().len() implies focusable(
            #[trigger] a.drop_last()[i],
        ) == focusable(b.drop_last()[i]) by {
            assert(a.drop_last()[i] == a[i]);
            assert(b.drop_last()[i] == b[i]);
        }
        lemma_count_congruent(a.drop_last(), b.drop_last());
    }
}

/// Across one focus traversal the focusable pattern is unchanged: the
/// cursor lands on the cyclic successor computed on the original children,
/// every later traversal target is computed on the same pattern, and the
/// focusable count stays the same. Together with `lemma_focus_cycle`, a
/// run of `focus_next` calls as long as the focusable count returns the
/// cursor to its starting point.
pub proof fn lemma_traverse_keeps_pattern(
    pre: Seq<TView>,
    pre_fm: FocusManager,
    post: Seq<TView>,
    post_fm: FocusManager,
)
    requires
        focus_next_rel(pre, pre_fm, post, post_fm),
        pre.len() > 0,
        0 <= pre_fm.index < pre.len(),
        forall|i: int| 0 <= i < pre.len() ==> crate::view::view_wf(#[trigger] pre[i]),
    ensures
        post.len() == pre.len(),
        post_fm.index == next_from(pre, pre_fm.index as int, pre.len()),
        forall|i: int| 0 <= i < post.len() ==> focusable(#[trigger] post[i]) == focusable(pre[i]),
        count_focusable(post) == count_focusable(pre),
        forall|idx: int, fuel: nat|
            0 <= idx ==> #[trigger] next_from(post, idx, fuel) == next_from(pre, idx, fuel),
{
    let i0 = pre_fm.index as int;
    let j = next_from(pre, i0, pre.len());
    lemma_next_from_in_range(pre, i0, pre.len());
    lemma_traverse_wf(pre, i0, j, post);
    lemma_count_congruent(post, pre);
    assert forall|idx: int, fuel: nat| 0 <= idx implies #[trigger] next_from(post, idx, fuel)
        == next_from(pre, idx, fuel) by {
        lemma_next_from_congruent(post, pre, idx, fuel);
    }
}

/// The cyclic successor search, run without touching the children.
fn advance_next(children: &Vec<TView>, start: usize) -> (j: usize)
    requires
        children@.len() > 0,
        start < children@.len(),
    ensures
        j as int == next_from(children@, start as int, children@.len()),
        j < children@.len(),
{
    let len = children.len();
    let mut idx = start;
    let mut k: usize = 0;
    while k < len
        invariant
            len == children@.len(),
            0 < len,
            idx < len,
            k <= len,
            next_from(children@, start as int, len as nat) == next_from(
                children@,
                idx as int,
                (len - k) as nat,
            ),
        decreases len - k,
    {
        idx = (idx + 1) % len;
        if children[idx].is_focusable() {
            return idx;
        }
        k = k + 1;
    }
    idx
}

/// The cyclic predecessor search, run without touching the children.
fn advance_prev(children: &Vec<TView>, start: usize) -> (j: usize)
    requires
        children@.len() > 0,
        start < children@.len(),
    ensures
        j as int == prev_from(children@, start as int, children@.len()),
        j < children@.len(),
{
    let len = children.len();
    let mut idx = start;
    let mut k: usize = 0;
    while k < len
        invariant
            len == children@.len(),
            0 < len,
            idx < len,
            k <= len,
            prev_from(children@, start as int, len as nat) == prev_from(
                children@,
                idx as int,
                (len - k) as nat,
            ),
        decreases len - k,
    {
        idx = if idx == 0 {
            len - 1
        } else {
            idx - 1
        };
        if children[idx].is_focusable() {
            return idx;
        }
        k = k + 1;
    }
    idx
}

impl FocusManager {
    pub fn new() -> (r: Self)
        ensures
            r.index == 0,
    {
        Self { index: 0 }
    }

    /// Puts the cursor back at the start.
    pub fn reset(&mut self)
        ensures
            final(self).index == 0,
    {
        self.index = 0;
    }

    /// Advances the cursor cyclically without reading any child.
    pub fn focus_next_raw(&mut self, max: usize)
        requires
            old(self).index < usize::MAX,
        ensures
            final(self).index as int == if max == 0 {
                old(self).index as int
            } else {
                (old(self).index + 1) as int % (max as int)
            },
    {
        if max == 0 {
            return ;
        }
        self.index = (self.index + 1) % max;
    }

    /// Retreats the cursor cyclically without reading any child.
    pub fn focus_prev_raw(&mut self, max: usize)
        ensures
            final(self).index as int == if max == 0 {
                old(self).index as int
            } else if old(self).index == 0 {
                max - 1
            } else {
                old(self).index - 1
            },
    {
        if max == 0 {
            return ;
        }
        if self.index == 0 {
            self.index = max - 1;
        } else {
            self.index = self.index - 1;
        }
    }

    /// Moves focus to the next focusable child in cyclic order: clears
    /// focus at the cursor, advances (skipping non-focusable children,
    /// possibly all the way around), and sets focus at the landing point —
    /// even when nothing there is focusable, which a non-focusable view
    /// ignores harmlessly.
    pub fn focus_next(&mut self, children: &mut Vec<TView>)
        requires
            cursor_ok(old(self).index as int, old(children)@.len() as int),
        ensures
            focus_next_rel(old(children)@, *old(self), final(children)@, *final(self)),
    {
        let len = children.len();
        if len == 0 {
            return ;
        }
        let i0 = self.index;
        let j = advance_next(children, i0);
        children[i0].set_focus(false);
        let ghost c1 = children@[i0 as int];
        let ghost s1 = children@;
        self.index = j;
        children[j].set_focus(true);
        let ghost c2 = children@[j as int];
        proof {
            assert(s1 =~= old(children)@.update(i0 as int, c1));
            assert(children@ =~= s1.update(j as int, c2));
            assert(sets_focus_to(s1[j as int], c2, true));
            assert(traverses_to(old(children)@, i0 as int, j as int, children@));
        }
    }

    /// Moves focus to the previous focusable child in cyclic order,
    /// symmetric to `focus_next`.
    pub fn focus_prev(&mut self, children: &mut Vec<TView>)
        requires
            cursor_ok(old(self).index as int, old(children)@.len() as int),
        ensures
            focus_prev_rel(old(children)@, *old(self), final(children)@, *final(self)),
    {
        let len = children.len();
        if len == 0 {
            return ;
        }
        let i0 = self.index;
        let j = advance_prev(children, i0);
        children[i0].set_focus(false);
        let ghost c1 = children@[i0 as int];
        let ghost s1 = children@;
        self.index = j;
        children[j].set_focus(true);
        let ghost c2 = children@[j as int];
        proof {
            assert(s1 =~= old(children)@.update(i0 as int, c1));
            assert(children@ =~= s1.update(j as int, c2));
            assert(sets_focus_to(s1[j as int], c2, true));
            assert(traverses_to(old(children)@, i0 as int, j as int, children@));
        }
    }

    /// Moves the cursor to `index` if that child exists and is focusable,
    /// toggling the focus flags; otherwise a complete no-op.
    pub fn set_focus(&mut self, children: &mut Vec<TView>, index: usize)
        requires
            cursor_ok(old(self).index as int, old(children)@.len() as int),
        ensures
            set_focus_rel(old(children)@, *old(self), final(children)@, *final(self), index as int),
    {
        if index < children.len() && children[index].is_focusable() {
            let i0 = self.index;
            children[i0].set_focus(false);
            let ghost c1 = children@[i0 as int];
            let ghost s1 = children@;
            self.index = index;
            children[index].set_focus(true);
            let ghost c2 = children@[index as int];
            proof {
                assert(s1 =~= old(children)@.update(i0 as int, c1));
                assert(children@ =~= s1.update(index as int, c2));
                assert(sets_focus_to(s1[index as int], c2, true));
                assert(traverses_to(old(children)@, i0 as int, index as int, children@));
            }
        }
    }

    /// The child at the cursor, or `None` when the cursor is out of range.
    pub fn current<'a>(&self, children: &'a Vec<TView>) -> (r: Option<&'a TView>)
        ensures
            (self.index as int) < children@.len() ==> (r matches Some(v) && *v == children@[
                self.index as int
            ]),
            (self.index as int) >= children@.len() ==> r is None,
    {
        if self.index < children.len() {
            Some(&children[self.index])
        } else {
            None
        }
    }

    /// The child at the cursor, mutably, or `None` when the cursor is out
    /// of range.
    pub fn current_mut<'a>(&self, children: &'a mut Vec<TView>) -> (r: Option<&'a mut TView>)
        ensures
            (self.index as int) >= old(children)@.len() ==> r is None && final(children)@ == old(
                children,
            )@,
            (self.index as int) < old(children)@.len() ==> (r matches Some(element) && *element
                == old(children)@[self.index as int] && final(children)@ == old(
                children,
            )@.update(self.index as int, *final(element))),
    {
        if self.index < children.len() {
            Some(&mut children[self.index])
        } else {
            None
        }
    }
}

} // verus!
