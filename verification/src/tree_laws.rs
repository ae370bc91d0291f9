//! Laws of the split tree: what splitting, closing and rebalancing keep, and
//! what one of them undoes.
use crate::ratio::Ratio;
use crate::tree::Node;
use vstd::prelude::*;

verus! {

pub proof fn lemma_distinct_add(s: Seq<u64>, t: Seq<u64>)
    ensures
        (s + t).no_duplicates() == (s.no_duplicates() && t.no_duplicates() && forall|x: u64|
            #![trigger s.contains(x)]
            #![trigger t.contains(x)]
            !(s.contains(x) && t.contains(x))),
{
    let u = s + t;
    if u.no_duplicates() {
        assert forall|i: int, j: int| 0 <= i < s.len() && 0 <= j < s.len() && i != j implies s[i]
            != s[j] by {
            assert(u[i] == s[i] && u[j] == s[j]);
        }
        assert forall|i: int, j: int| 0 <= i < t.len() && 0 <= j < t.len() && i != j implies t[i]
            != t[j] by {
            assert(u[s.len() + i] == t[i] && u[s.len() + j] == t[j]);
        }
        assert forall|x: u64|
            #![trigger s.contains(x)]
            #![trigger t.contains(x)]
            !(s.contains(x) && t.contains(x)) by {
            if s.contains(x) && t.contains(x) {
                let i = choose|i: int| 0 <= i < s.len() && s[i] == x;
                let j = choose|j: int| 0 <= j < t.len() && t[j] == x;
                assert(u[i] == u[s.len() + j]);
            }
        }
    } else {
        if s.no_duplicates() && t.no_duplicates() && forall|x: u64|
            !(#[trigger] s.contains(x) && t.contains(x)) {
            assert forall|i: int, j: int| 0 <= i < u.len() && 0 <= j < u.len() && i != j implies u[i]
                != u[j] by {
                if i < s.len() && j >= s.len() {
                    assert(s.contains(s[i]));
                    assert(t.contains(t[j - s.len()]));
                } else if j < s.len() && i >= s.len() {
                    assert(s.contains(s[j]));
                    assert(t.contains(t[i - s.len()]));
                }
            }
        }
    }
}

/// Where in `s + t` an element of one of them stands.
proof fn lemma_index_add(s: Seq<u64>, t: Seq<u64>, x: u64)
    requires
        (s + t).no_duplicates(),
    ensures
        s.contains(x) ==> (s + t).index_of(x) == s.index_of(x) && 0 <= s.index_of(x) < s.len()
            && s[s.index_of(x)] == x,
        t.contains(x) ==> (s + t).index_of(x) == s.len() + t.index_of(x) && 0 <= t.index_of(x)
            < t.len() && t[t.index_of(x)] == x,
{
    if s.contains(x) {
        let i = s.index_of(x);
        assert((s + t)[i] == x);
        crate::tree::lemma_index_is(s + t, i);
    }
    if t.contains(x) {
        let i = t.index_of(x);
        assert((s + t)[s.len() + i] == x);
        crate::tree::lemma_index_is(s + t, s.len() + i);
    }
}

/// Exchanging a leaf for a subtree puts the panes of the subtree in its place
/// and keeps every other pane, in order.
pub proof fn law_replace_in_place(n: Node, id: u64, new: Node)
    requires
        n.leaves().no_duplicates(),
        n.leaves().contains(id),
    ensures
        ({
            let k = n.leaves().index_of(id);
            n.replaced(id, new).leaves() == n.leaves().take(k) + new.leaves() + n.leaves().skip(
                k + 1,
            )
        }),
    decreases n,
{
    let s = n.leaves();
    match n {
        Node::Empty => {},
        Node::Leaf(i) => {
            assert(s[0] == i);
            crate::tree::lemma_index_is(s, 0);
            assert(s.take(0) + new.leaves() + s.skip(1) =~= new.leaves());
        },
        Node::Split { a, b, .. } => {
            lemma_distinct_add(a.leaves(), b.leaves());
            crate::tree::lemma_contains_add(a.leaves(), b.leaves(), id);
            lemma_index_add(a.leaves(), b.leaves(), id);
            crate::tree::lemma_leaf_contains(*a, id);
            crate::tree::lemma_leaf_contains(*b, id);
            let k = s.index_of(id);
            if a.leaves().contains(id) {
                law_replace_in_place(*a, id, new);
                assert(s.take(k) =~= a.leaves().take(k));
                assert(s.skip(k + 1) =~= a.leaves().skip(k + 1) + b.leaves());
                assert(a.leaves().take(k) + new.leaves() + (a.leaves().skip(k + 1) + b.leaves())
                    =~= a.leaves().take(k) + new.leaves() + a.leaves().skip(k + 1) + b.leaves());
            } else {
                law_replace_in_place(*b, id, new);
                let j = b.leaves().index_of(id);
                assert(s.take(k) =~= a.leaves() + b.leaves().take(j));
                assert(s.skip(k + 1) =~= b.leaves().skip(j + 1));
                assert(a.leaves() + b.leaves().take(j) + new.leaves() + b.leaves().skip(j + 1)
                    =~= a.leaves() + (b.leaves().take(j) + new.leaves() + b.leaves().skip(j + 1)));
            }
        },
    }
}

/// Exactly the panes that some split holds can be removed.
pub proof fn law_removable(n: Node, id: u64)
    ensures
        n.removed(id) is Some <==> n is Split && n.leaves().contains(id),
    decreases n,
{
    match n {
        Node::Split { a, b, .. } => {
            crate::tree::lemma_contains_add(a.leaves(), b.leaves(), id);
            crate::tree::lemma_leaf_contains(*a, id);
            crate::tree::lemma_leaf_contains(*b, id);
            law_removable(*a, id);
            law_removable(*b, id);
        },
        _ => {},
    }
}

/// Removing a pane keeps every other pane, in order.
pub proof fn law_remove_keeps_others(n: Node, id: u64)
    requires
        n is Split,
        n.leaves().no_duplicates(),
        n.leaves().contains(id),
    ensures
        n.removed(id) is Some,
        n.removed(id)->0.leaves() == n.leaves().remove(n.leaves().index_of(id)),
    decreases n,
{
    law_removable(n, id);
    let s = n.leaves();
    if let Node::Split { a, b, .. } = n {
        lemma_distinct_add(a.leaves(), b.leaves());
        crate::tree::lemma_contains_add(a.leaves(), b.leaves(), id);
        lemma_index_add(a.leaves(), b.leaves(), id);
        crate::tree::lemma_leaf_contains(*a, id);
        crate::tree::lemma_leaf_contains(*b, id);
        law_removable(*a, id);
        law_removable(*b, id);
        let k = s.index_of(id);
        if a.is_leaf_of(id) {
            assert(s.remove(k) =~= b.leaves());
        } else if b.is_leaf_of(id) {
            assert(s.remove(k) =~= a.leaves());
        } else if a.leaves().contains(id) {
            if *a is Split {
                law_remove_keeps_others(*a, id);
                assert(s.remove(k) =~= a.leaves().remove(k) + b.leaves());
            }
        } else {
            if *b is Split {
                law_remove_keeps_others(*b, id);
                assert(s.remove(k) =~= a.leaves() + b.leaves().remove(k - a.leaves().len()));
            }
        }
    }
}

/// Closing the pane that a split opened restores the tree as it was, shares
/// and dividers with it.
pub proof fn law_close_undoes_split(n: Node, id: u64, new: u64, divider: u64, vertical: bool, ratio: Ratio)
    requires
        n.leaves().no_duplicates(),
        n.leaves().contains(id),
        !n.leaves().contains(new),
    ensures
        n.replaced(
            id,
            (Node::Split {
                id: divider,
                vertical,
                ratio,
                a: Box::new(Node::Leaf(id)),
                b: Box::new(Node::Leaf(new)),
            }),
        ).removed(new) == Some(n),
    decreases n,
{
    let sub = Node::Split {
        id: divider,
        vertical,
        ratio,
        a: Box::new(Node::Leaf(id)),
        b: Box::new(Node::Leaf(new)),
    };
    match n {
        Node::Empty => {},
        Node::Leaf(i) => {
            assert(n.leaves()[0] == i);
            assert(id != new);
        },
        Node::Split { a, b, .. } => {
            lemma_distinct_add(a.leaves(), b.leaves());
            crate::tree::lemma_contains_add(a.leaves(), b.leaves(), id);
            crate::tree::lemma_contains_add(a.leaves(), b.leaves(), new);
            crate::tree::lemma_leaf_contains(*a, id);
            crate::tree::lemma_leaf_contains(*b, id);
            crate::tree::lemma_leaf_contains(*a, new);
            crate::tree::lemma_leaf_contains(*b, new);
            if a.leaves().contains(id) {
                law_close_undoes_split(*a, id, new, divider, vertical, ratio);
                lemma_replaced_not_leaf(*a, id, sub);
            } else {
                law_close_undoes_split(*b, id, new, divider, vertical, ratio);
                lemma_replaced_not_leaf(*b, id, sub);
                law_removable(*a, new);
            }
        },
    }
}

proof fn lemma_replaced_not_leaf(n: Node, id: u64, sub: Node)
    requires
        sub is Split,
        n.leaves().contains(id),
    ensures
        n.replaced(id, sub) is Split,
{
    crate::tree::lemma_leaf_contains(n, id);
}

/// In a tree without empty places the first leaf is the first pane.
pub proof fn law_first_is_first(n: Node)
    requires
        n.filled(),
    ensures
        n.leaves().len() > 0,
        n.first() == Some(n.leaves()[0]),
    decreases n,
{
    if let Node::Split { a, b, .. } = n {
        law_first_is_first(*a);
        law_first_is_first(*b);
    }
}

/// When a pane of a split closes, the focus has somewhere to go: to another
/// pane of the tree, which is still there once the pane is gone.
pub proof fn law_focus_after_close(n: Node, id: u64)
    requires
        n is Split,
        n.filled(),
        n.leaves().no_duplicates(),
        n.leaves().contains(id),
    ensures
        n.sibling_of(id) is Some,
        n.sibling_of(id)->0 != id,
        n.leaves().contains(n.sibling_of(id)->0),
        n.removed(id)->0.leaves().contains(n.sibling_of(id)->0),
    decreases n,
{
    lemma_sibling(n, id);
    law_remove_keeps_others(n, id);
    let s = n.leaves();
    let x = n.sibling_of(id)->0;
    let k = s.index_of(id);
    let j = s.index_of(x);
    assert(0 <= k < s.len() && s[k] == id);
    assert(0 <= j < s.len() && s[j] == x);
    if j < k {
        assert(s.remove(k)[j] == x);
    } else {
        assert(s.remove(k)[j - 1] == x);
    }
}

proof fn lemma_sibling(n: Node, id: u64)
    requires
        n.filled(),
        n.leaves().no_duplicates(),
    ensures
        n.sibling_of(id) is Some <==> n is Split && n.leaves().contains(id),
        n.sibling_of(id) matches Some(x) ==> x != id && n.leaves().contains(x),
    decreases n,
{
    if let Node::Split { a, b, .. } = n {
        lemma_distinct_add(a.leaves(), b.leaves());
        crate::tree::lemma_contains_add(a.leaves(), b.leaves(), id);
        crate::tree::lemma_leaf_contains(*a, id);
        crate::tree::lemma_leaf_contains(*b, id);
        law_first_is_first(*a);
        law_first_is_first(*b);
        lemma_sibling(*a, id);
        lemma_sibling(*b, id);
        assert(a.leaves().contains(a.leaves()[0]));
        assert(b.leaves().contains(b.leaves()[0]));
        if n.sibling_of(id) is Some {
            crate::tree::lemma_contains_add(a.leaves(), b.leaves(), n.sibling_of(id)->0);
        }
    }
}

/// A pane that some split holds has an axis, and only such a pane.
pub proof fn law_axis(n: Node, id: u64)
    ensures
        n.axis_of(id) is Some <==> n is Split && n.leaves().contains(id),
    decreases n,
{
    if let Node::Split { a, b, .. } = n {
        crate::tree::lemma_contains_add(a.leaves(), b.leaves(), id);
        crate::tree::lemma_leaf_contains(*a, id);
        crate::tree::lemma_leaf_contains(*b, id);
        law_axis(*a, id);
        law_axis(*b, id);
    }
}

/// Rebalancing moves dividers and nothing else: same panes in the same order,
/// same dividers, same slots.
pub proof fn law_equalize_keeps_tree(n: Node, vertical: bool, after: Node)
    requires
        n.equalized(vertical, after),
    ensures
        after.leaves() == n.leaves(),
        after.divider_ids() == n.divider_ids(),
        after.filled() == n.filled(),
        after.size() == n.size(),
        after.depth() == n.depth(),
        after is Split == n is Split,
        forall|v: bool| #[trigger] after.units(v) == n.units(v),
        n.shares_ok() ==> after.shares_ok(),
    decreases n,
{
    if let Node::Split { a, b, .. } = n {
        if let Node::Split { a: a2, b: b2, .. } = after {
            law_equalize_keeps_tree(*a, vertical, *a2);
            law_equalize_keeps_tree(*b, vertical, *b2);
            assert forall|v: bool| #[trigger] after.units(v) == n.units(v) by {
                assert(a2.units(v) == a.units(v));
                assert(b2.units(v) == b.units(v));
            }
        }
    }
}

/// Rebalancing an axis a second time changes nothing any more.
pub proof fn law_equalize_settles(n: Node, vertical: bool, once: Node, twice: Node)
    requires
        n.equalized(vertical, once),
        once.equalized(vertical, twice),
    ensures
        twice == once,
    decreases n,
{
    if let Node::Split { vertical: v, a, b, .. } = n {
        if let Node::Split { ratio: r1, a: a1, b: b1, .. } = once {
            if let Node::Split { ratio: r2, a: a2, b: b2, .. } = twice {
                law_equalize_keeps_tree(*a, vertical, *a1);
                law_equalize_keeps_tree(*b, vertical, *b1);
                law_equalize_settles(*a, vertical, *a1, *a2);
                law_equalize_settles(*b, vertical, *b1, *b2);
                let total = a.units(vertical) + b.units(vertical);
                assert(a1.units(vertical) + b1.units(vertical) == total);
                if v == vertical && total > 0 {
                    crate::ratio::lemma_quotient_unique(r1, r2, a.units(vertical) as int, total as int);
                }
            }
        }
    }
}

/// Splitting and closing keep a tree without empty places and with proper
/// shares.
pub proof fn law_surgery_keeps_shape(n: Node, id: u64, new: Node)
    ensures
        n.filled() && new.filled() ==> n.replaced(id, new).filled(),
        n.shares_ok() && new.shares_ok() ==> n.replaced(id, new).shares_ok(),
        n.filled() && n.removed(id) is Some ==> n.removed(id)->0.filled(),
        n.shares_ok() && n.removed(id) is Some ==> n.removed(id)->0.shares_ok(),
        n.removed(id) is Some ==> n.removed(id)->0.size() < n.size(),
        n.replaced(id, new).size() <= n.size() + new.size(),
    decreases n,
{
    if let Node::Split { a, b, .. } = n {
        law_surgery_keeps_shape(*a, id, new);
        law_surgery_keeps_shape(*b, id, new);
        reveal_with_fuel(Node::size, 2);
    }
}

/// Dividers of a tree after a leaf became a split of its own.
pub proof fn law_split_adds_divider(n: Node, id: u64, new: Node)
    requires
        n.divider_ids().no_duplicates(),
        new.divider_ids().no_duplicates(),
        forall|d: u64| #[trigger]
            new.divider_ids().contains(d) ==> !n.divider_ids().contains(d),
        n.leaves().contains(id),
    ensures
        n.replaced(id, new).divider_ids().no_duplicates(),
        forall|d: u64| #[trigger]
            n.replaced(id, new).divider_ids().contains(d) <==> n.divider_ids().contains(d)
                || new.divider_ids().contains(d),
    decreases n,
{
    match n {
        Node::Split { id: d0, a, b, .. } => {
            let (sa, sb) = (a.divider_ids(), b.divider_ids());
            crate::tree::lemma_contains_add(a.leaves(), b.leaves(), id);
            crate::tree::lemma_leaf_contains(*a, id);
            crate::tree::lemma_leaf_contains(*b, id);
            lemma_three(d0, sa, sb);
            if a.is_leaf_of(id) || (!b.is_leaf_of(id) && a.leaves().contains(id)) {
                law_split_adds_divider(*a, id, new);
                let s = a.replaced(id, new).divider_ids();
                lemma_three(d0, s, sb);
            } else {
                law_split_adds_divider(*b, id, new);
                let s = b.replaced(id, new).divider_ids();
                lemma_three(d0, sa, s);
            }
        },
        _ => {
            crate::tree::lemma_leaf_contains(n, id);
        },
    }
}

/// Closing a pane removes a divider and brings none.
pub proof fn law_close_keeps_dividers(n: Node, id: u64)
    requires
        n.divider_ids().no_duplicates(),
        n.removed(id) is Some,
    ensures
        n.removed(id)->0.divider_ids().no_duplicates(),
        forall|d: u64| #[trigger]
            n.removed(id)->0.divider_ids().contains(d) ==> n.divider_ids().contains(d),
    decreases n,
{
    if let Node::Split { id: d0, a, b, .. } = n {
        let (sa, sb) = (a.divider_ids(), b.divider_ids());
        lemma_three(d0, sa, sb);
        if a.is_leaf_of(id) || b.is_leaf_of(id) {
        } else if a.removed(id) is Some {
            law_close_keeps_dividers(*a, id);
            lemma_three(d0, a.removed(id)->0.divider_ids(), sb);
        } else {
            law_close_keeps_dividers(*b, id);
            lemma_three(d0, sa, b.removed(id)->0.divider_ids());
        }
    }
}

pub proof fn lemma_three(d0: u64, s: Seq<u64>, t: Seq<u64>)
    ensures
        (seq![d0] + s + t).no_duplicates() == (s.no_duplicates() && t.no_duplicates() && !s.contains(
            d0,
        ) && !t.contains(d0) && forall|x: u64|
            #![trigger s.contains(x)]
            #![trigger t.contains(x)]
            !(s.contains(x) && t.contains(x))),
        forall|x: u64| #[trigger]
            (seq![d0] + s + t).contains(x) <==> x == d0 || s.contains(x) || t.contains(x),
{
    let one = seq![d0];
    assert(one[0] == d0);
    lemma_distinct_add(one + s, t);
    lemma_distinct_add(one, s);
    assert(one.contains(d0));
    crate::tree::lemma_contains_add(one, s, d0);
    assert forall|x: u64| #[trigger]
        (seq![d0] + s + t).contains(x) <==> x == d0 || s.contains(x) || t.contains(x) by {
        crate::tree::lemma_contains_add(one + s, t, x);
        crate::tree::lemma_contains_add(one, s, x);
    }
    assert forall|x: u64| (#[trigger] (one + s).contains(x)) <==> x == d0 || s.contains(x) by {
        crate::tree::lemma_contains_add(one, s, x);
    }
    if (one + s + t).no_duplicates() {
        assert forall|x: u64|
            #![trigger s.contains(x)]
            #![trigger t.contains(x)]
            !(s.contains(x) && t.contains(x)) by {
            assert(!((one + s).contains(x) && t.contains(x)));
        }
    }
}

/// Setting the share of a divider keeps the tree but for that share.
pub proof fn law_drag_keeps_tree(n: Node, id: u64, share: Ratio)
    ensures
        n.with_share(id, share).leaves() == n.leaves(),
        n.with_share(id, share).divider_ids() == n.divider_ids(),
        n.with_share(id, share).filled() == n.filled(),
        n.with_share(id, share).size() == n.size(),
        n.with_share(id, share).depth() == n.depth(),
        n.with_share(id, share) is Split == n is Split,
        n.shares_ok() && share.wf() ==> n.with_share(id, share).shares_ok(),
    decreases n,
{
    if let Node::Split { a, b, .. } = n {
        law_drag_keeps_tree(*a, id, share);
        law_drag_keeps_tree(*b, id, share);
    }
}

/// What was rebalanced is balanced.
pub proof fn law_rebalanced_is_balanced(n: Node, vertical: bool, after: Node)
    requires
        n.equalized(vertical, after),
    ensures
        after.equalized(vertical, after),
    decreases n,
{
    if let Node::Split { a, b, .. } = n {
        if let Node::Split { a: a2, b: b2, .. } = after {
            law_rebalanced_is_balanced(*a, vertical, *a2);
            law_rebalanced_is_balanced(*b, vertical, *b2);
            law_equalize_keeps_tree(*a, vertical, *a2);
            law_equalize_keeps_tree(*b, vertical, *b2);
            assert(a2.units(vertical) == a.units(vertical));
            assert(b2.units(vertical) == b.units(vertical));
        }
    }
}

/// The same tree but for the shares of the dividers of one axis.
pub open spec fn same_but_shares(n: Node, m: Node, vertical: bool) -> bool
    decreases n,
{
    match (n, m) {
        (
            Node::Split { id: d, vertical: v, ratio: r, a, b },
            Node::Split { id: d2, vertical: v2, ratio: r2, a: a2, b: b2 },
        ) => {
            &&& d2 == d
            &&& v2 == v
            &&& v != vertical ==> r2 == r
            &&& same_but_shares(*a, *a2, vertical)
            &&& same_but_shares(*b, *b2, vertical)
        },
        (Node::Split { .. }, _) => false,
        _ => m == n,
    }
}

pub proof fn lemma_rebalancing_moves_shares(n: Node, vertical: bool, after: Node)
    requires
        n.equalized(vertical, after),
    ensures
        same_but_shares(n, after, vertical),
    decreases n,
{
    if let Node::Split { a, b, .. } = n {
        if let Node::Split { a: a2, b: b2, .. } = after {
            lemma_rebalancing_moves_shares(*a, vertical, *a2);
            lemma_rebalancing_moves_shares(*b, vertical, *b2);
        }
    }
}

/// Every split along the axis, at any depth, shares its space in proportion to
/// the slots on its two sides.
pub open spec fn balanced(n: Node, vertical: bool) -> bool
    decreases n,
{
    match n {
        Node::Split { vertical: v, ratio, a, b, .. } => {
            &&& v == vertical ==> ratio.is_quotient(
                a.units(vertical) as int,
                (a.units(vertical) + b.units(vertical)) as int,
            )
            &&& balanced(*a, vertical)
            &&& balanced(*b, vertical)
        },
        _ => true,
    }
}

/// Rebalancing sets every share along the axis to its slots' quotient, keeps
/// every share along the other, the shape, the dividers and the panes in order,
/// and doing it again changes nothing.
pub proof fn law_rebalancing(n: Node, vertical: bool, after: Node, again: Node)
    requires
        n.filled(),
        n.equalized(vertical, after),
        after.equalized(vertical, again),
    ensures
        balanced(after, vertical),
        same_but_shares(n, after, vertical),
        after.leaves() == n.leaves(),
        after.divider_ids() == n.divider_ids(),
        again == after,
{
    lemma_balanced(n, vertical, after);
    lemma_rebalancing_moves_shares(n, vertical, after);
    law_equalize_keeps_tree(n, vertical, after);
    law_equalize_settles(n, vertical, after, again);
}

proof fn lemma_balanced(n: Node, vertical: bool, after: Node)
    requires
        n.filled(),
        n.equalized(vertical, after),
    ensures
        balanced(after, vertical),
    decreases n,
{
    if let Node::Split { a, b, .. } = n {
        if let Node::Split { a: a2, b: b2, .. } = after {
            lemma_balanced(*a, vertical, *a2);
            lemma_balanced(*b, vertical, *b2);
            law_equalize_keeps_tree(*a, vertical, *a2);
            law_equalize_keeps_tree(*b, vertical, *b2);
            lemma_filled_units(*a, vertical);
            assert(a2.units(vertical) == a.units(vertical));
            assert(b2.units(vertical) == b.units(vertical));
        }
    }
}

/// Shares of one axis do not matter to what a tree holds, to where the focus
/// goes, to closing a pane, nor to rebalancing along that axis.
pub proof fn lemma_shares_do_not_matter(n: Node, m: Node, vertical: bool, id: u64)
    requires
        same_but_shares(n, m, vertical),
    ensures
        m.leaves() == n.leaves(),
        m.is_leaf_of(id) == n.is_leaf_of(id),
        m.first() == n.first(),
        m.sibling_of(id) == n.sibling_of(id),
        m.axis_of(id) == n.axis_of(id),
        m.units(vertical) == n.units(vertical),
        m.removed(id) is Some == n.removed(id) is Some,
        n.removed(id) is Some ==> same_but_shares(
            n.removed(id)->Some_0,
            m.removed(id)->Some_0,
            vertical,
        ),
    decreases n,
{
    if let Node::Split { a, b, .. } = n {
        if let Node::Split { a: a2, b: b2, .. } = m {
            lemma_shares_do_not_matter(*a, *a2, vertical, id);
            lemma_shares_do_not_matter(*b, *b2, vertical, id);
        }
    }
}

pub proof fn lemma_rebalance_from(n: Node, m: Node, vertical: bool, after: Node)
    requires
        same_but_shares(n, m, vertical),
        m.equalized(vertical, after),
    ensures
        n.filled() ==> n.equalized(vertical, after),
    decreases n,
{
    if let Node::Split { vertical: v, a, b, .. } = n {
        if let Node::Split { a: a2, b: b2, .. } = m {
            if let Node::Split { a: a3, b: b3, .. } = after {
                lemma_rebalance_from(*a, *a2, vertical, *a3);
                lemma_rebalance_from(*b, *b2, vertical, *b3);
                lemma_shares_do_not_matter(*a, *a2, vertical, 0);
                lemma_shares_do_not_matter(*b, *b2, vertical, 0);
                if n.filled() && v == vertical {
                    lemma_filled_units(*a, vertical);
                }
            }
        }
    }
}

/// What is filled has a slot.
pub proof fn lemma_filled_units(n: Node, vertical: bool)
    requires
        n.filled(),
    ensures
        n.units(vertical) >= 1,
    decreases n,
{
    if let Node::Split { a, b, .. } = n {
        lemma_filled_units(*a, vertical);
        lemma_filled_units(*b, vertical);
    }
}

/// After a pane was split, its split is the new pane's, and the pane is the new
/// one's neighbour in it.
pub proof fn lemma_new_pane_place(n: Node, id: u64, new: u64, divider: u64, vertical: bool, ratio: Ratio)
    requires
        n.leaves().no_duplicates(),
        n.leaves().contains(id),
        !n.leaves().contains(new),
    ensures
        ({
            let m = n.replaced(
                id,
                (Node::Split {
                    id: divider,
                    vertical,
                    ratio,
                    a: Box::new(Node::Leaf(id)),
                    b: Box::new(Node::Leaf(new)),
                }),
            );
            m.sibling_of(new) == Some(id) && m.axis_of(new) == Some(vertical)
        }),
    decreases n,
{
    let sub = Node::Split {
        id: divider,
        vertical,
        ratio,
        a: Box::new(Node::Leaf(id)),
        b: Box::new(Node::Leaf(new)),
    };
    reveal_with_fuel(Node::sibling_of, 3);
    reveal_with_fuel(Node::axis_of, 3);
    reveal_with_fuel(Node::replaced, 2);
    match n {
        Node::Empty => {},
        Node::Leaf(i) => {
            assert(n.leaves()[0] == i);
            crate::tree::lemma_leaf_contains(n, id);
        },
        Node::Split { a, b, .. } => {
            crate::tree::lemma_contains_add(a.leaves(), b.leaves(), id);
            crate::tree::lemma_contains_add(a.leaves(), b.leaves(), new);
            lemma_distinct_add(a.leaves(), b.leaves());
            crate::tree::lemma_leaf_contains(*a, id);
            crate::tree::lemma_leaf_contains(*b, id);
            crate::tree::lemma_leaf_contains(*a, new);
            crate::tree::lemma_leaf_contains(*b, new);
            lemma_absent(*a, new);
            if a.is_leaf_of(id) || (!b.is_leaf_of(id) && a.leaves().contains(id)) {
                lemma_new_pane_place(*a, id, new, divider, vertical, ratio);
                lemma_not_a_leaf(*a, id, sub, new);
            } else {
                lemma_new_pane_place(*b, id, new, divider, vertical, ratio);
                lemma_not_a_leaf(*b, id, sub, new);
            }
        },
    }
}

/// A tree that a pane was split in is no single leaf.
proof fn lemma_not_a_leaf(n: Node, id: u64, sub: Node, x: u64)
    requires
        sub is Split,
        n.leaves().contains(id),
    ensures
        !n.replaced(id, sub).is_leaf_of(x),
{
    if let Node::Leaf(i) = n {
        assert(n.leaves()[0] == i);
        crate::tree::lemma_leaf_contains(n, id);
    }
}

/// A pane that a tree does not hold has no place in it.
pub proof fn lemma_absent(n: Node, id: u64)
    requires
        !n.leaves().contains(id),
    ensures
        n.sibling_of(id) is None,
        n.axis_of(id) is None,
    decreases n,
{
    if let Node::Split { a, b, .. } = n {
        crate::tree::lemma_contains_add(a.leaves(), b.leaves(), id);
        crate::tree::lemma_leaf_contains(*a, id);
        crate::tree::lemma_leaf_contains(*b, id);
        lemma_absent(*a, id);
        lemma_absent(*b, id);
    }
}

} // verus!
