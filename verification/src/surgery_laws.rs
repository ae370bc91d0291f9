//! What an operation on a split tree does at one place of it, and that it does
//! nothing anywhere else.
use crate::geometry::Rect;
use crate::ratio::Ratio;
use crate::session::App;
use crate::tab::Pane;
use crate::tab::Tab;
use crate::tree::Node;
use vstd::prelude::*;

verus! {

/// `s` is the tree `n` or a part of it.
pub open spec fn within(n: Node, s: Node) -> bool
    decreases n,
{
    n == s || match n {
        Node::Split { a, b, .. } => within(*a, s) || within(*b, s),
        _ => false,
    }
}

/// The tree `n` with the part `s` taken out and `t` put there.
pub open spec fn exchanged(n: Node, s: Node, t: Node) -> Node
    decreases n,
{
    if n == s {
        t
    } else {
        match n {
            Node::Split { id, vertical, ratio, a, b } => Node::Split {
                id,
                vertical,
                ratio,
                a: Box::new(exchanged(*a, s, t)),
                b: Box::new(exchanged(*b, s, t)),
            },
            _ => n,
        }
    }
}

/// Every split of the tree has this axis.
pub open spec fn all_along(n: Node, vertical: bool) -> bool
    decreases n,
{
    match n {
        Node::Split { vertical: v, a, b, .. } => v == vertical && all_along(*a, vertical)
            && all_along(*b, vertical),
        _ => true,
    }
}

/// A part's panes are panes of the tree.
proof fn lemma_within(n: Node, s: Node, id: u64)
    requires
        within(n, s),
        s.leaves().contains(id),
    ensures
        n.leaves().contains(id),
    decreases n,
{
    if n != s {
        if let Node::Split { a, b, .. } = n {
            crate::tree::lemma_contains_add(a.leaves(), b.leaves(), id);
            if within(*a, s) {
                lemma_within(*a, s, id);
            } else {
                lemma_within(*b, s, id);
            }
        }
    }
}

/// A part's dividers are dividers of the tree.
proof fn lemma_within_dividers(n: Node, s: Node, d: u64)
    requires
        within(n, s),
        s.divider_ids().contains(d),
    ensures
        n.divider_ids().contains(d),
    decreases n,
{
    if n != s {
        if let Node::Split { id, a, b, .. } = n {
            crate::tree_laws::lemma_three(id, a.divider_ids(), b.divider_ids());
            if within(*a, s) {
                lemma_within_dividers(*a, s, d);
            } else {
                lemma_within_dividers(*b, s, d);
            }
        }
    }
}

/// A part's own divider is a divider of the tree.
pub proof fn lemma_own_divider(n: Node, s: Node, d: u64)
    requires
        within(n, s),
        s matches Node::Split { id, .. } && id == d,
    ensures
        n.divider_ids().contains(d),
{
    if let Node::Split { a, b, .. } = s {
        crate::tree_laws::lemma_three(d, a.divider_ids(), b.divider_ids());
        lemma_within_dividers(n, s, d);
    }
}

/// Where a pane of the part is missing, there is nothing to exchange.
proof fn lemma_exchange_absent(n: Node, s: Node, t: Node, id: u64)
    requires
        s.leaves().contains(id),
        !n.leaves().contains(id),
    ensures
        exchanged(n, s, t) == n,
    decreases n,
{
    if let Node::Split { a, b, .. } = n {
        crate::tree::lemma_contains_add(a.leaves(), b.leaves(), id);
        lemma_exchange_absent(*a, s, t, id);
        lemma_exchange_absent(*b, s, t, id);
    }
}

/// Where a divider of the part is missing, there is nothing to exchange.
proof fn lemma_exchange_no_divider(n: Node, s: Node, t: Node, d: u64)
    requires
        s.divider_ids().contains(d),
        !n.divider_ids().contains(d),
    ensures
        exchanged(n, s, t) == n,
    decreases n,
{
    if let Node::Split { id, a, b, .. } = n {
        crate::tree_laws::lemma_three(id, a.divider_ids(), b.divider_ids());
        lemma_exchange_no_divider(*a, s, t, d);
        lemma_exchange_no_divider(*b, s, t, d);
    }
}

/// Both sides of a split that holds `id`, and which of them does.
proof fn lemma_sides(n: Node, s: Node, id: u64)
    requires
        n.leaves().no_duplicates(),
        within(n, s),
        n != s,
        s.leaves().contains(id),
    ensures
        n matches Node::Split { a, b, .. } ==> {
            &&& a.leaves().no_duplicates()
            &&& b.leaves().no_duplicates()
            &&& within(*a, s) ==> a.leaves().contains(id) && !b.leaves().contains(id)
            &&& within(*b, s) ==> b.leaves().contains(id) && !a.leaves().contains(id)
        },
{
    if let Node::Split { a, b, .. } = n {
        crate::tree_laws::lemma_distinct_add(a.leaves(), b.leaves());
        if within(*a, s) {
            lemma_within(*a, s, id);
        }
        if within(*b, s) {
            lemma_within(*b, s, id);
        }
    }
}

/// Exchanging a pane for a subtree changes the pane's place and nothing else in
/// the tree: no other pane, divider, axis or share.
pub proof fn law_replace_at_one_place(n: Node, id: u64, new: Node)
    requires
        n.leaves().no_duplicates(),
    ensures
        n.replaced(id, new) == exchanged(n, Node::Leaf(id), new),
    decreases n,
{
    let leaf = Node::Leaf(id);
    assert(leaf.leaves()[0] == id);
    assert(leaf.leaves().contains(id));
    if let Node::Split { a, b, .. } = n {
        crate::tree_laws::lemma_distinct_add(a.leaves(), b.leaves());
        crate::tree::lemma_contains_add(a.leaves(), b.leaves(), id);
        crate::tree::lemma_leaf_contains(*a, id);
        crate::tree::lemma_leaf_contains(*b, id);
        law_replace_at_one_place(*a, id, new);
        law_replace_at_one_place(*b, id, new);
        if !a.leaves().contains(id) {
            lemma_exchange_absent(*a, leaf, new, id);
        }
        if !b.leaves().contains(id) {
            lemma_exchange_absent(*b, leaf, new, id);
        }
    }
}

/// Closing a pane puts the other side of its split in the place of the split,
/// whichever side the pane is on, and changes nothing else in the tree.
pub proof fn law_close_at_one_place(n: Node, s: Node, id: u64)
    requires
        n.leaves().no_duplicates(),
        within(n, s),
    ensures
        s matches Node::Split { a, b, .. } ==> {
            &&& *a == Node::Leaf(id) ==> n.removed(id) == Some(exchanged(n, s, *b))
            &&& *b == Node::Leaf(id) ==> n.removed(id) == Some(exchanged(n, s, *a))
        },
    decreases n,
{
    if let Node::Split { a: sa, b: sb, .. } = s {
        if *sa == Node::Leaf(id) || *sb == Node::Leaf(id) {
            lemma_holds(s, id);
            if n == s {
                crate::tree_laws::lemma_distinct_add(sa.leaves(), sb.leaves());
                crate::tree::lemma_leaf_contains(*sa, id);
                crate::tree::lemma_leaf_contains(*sb, id);
            } else if let Node::Split { a, b, .. } = n {
                lemma_sides(n, s, id);
                crate::tree::lemma_leaf_contains(*a, id);
                crate::tree::lemma_leaf_contains(*b, id);
                crate::tree_laws::law_removable(*a, id);
                if within(*a, s) {
                    law_close_at_one_place(*a, s, id);
                    lemma_exchange_absent(*b, s, *sa, id);
                    lemma_exchange_absent(*b, s, *sb, id);
                } else {
                    law_close_at_one_place(*b, s, id);
                    lemma_exchange_absent(*a, s, *sa, id);
                    lemma_exchange_absent(*a, s, *sb, id);
                }
            }
        }
    }
}

proof fn lemma_holds(s: Node, id: u64)
    requires
        s matches Node::Split { a, b, .. } && (*a == Node::Leaf(id) || *b == Node::Leaf(id)),
    ensures
        s.leaves().contains(id),
{
    if let Node::Split { a, b, .. } = s {
        crate::tree::lemma_contains_add(a.leaves(), b.leaves(), id);
        crate::tree::lemma_leaf_contains(*a, id);
        crate::tree::lemma_leaf_contains(*b, id);
    }
}

/// The axis that is rebalanced after a pane closes is that of the split that
/// holds the pane, whichever of its two sides the pane is; and the focus goes to
/// the first pane of the other side.
pub proof fn law_axis_of_either_side(n: Node, s: Node, id: u64)
    requires
        n.leaves().no_duplicates(),
        n.filled(),
        within(n, s),
    ensures
        s matches Node::Split { vertical, a, b, .. } ==> {
            &&& *a == Node::Leaf(id) || *b == Node::Leaf(id) ==> n.axis_of(id) == Some(vertical)
            &&& *a == Node::Leaf(id) ==> n.sibling_of(id) == Some(b.leaves()[0])
            &&& *b == Node::Leaf(id) ==> n.sibling_of(id) == Some(a.leaves()[0])
        },
    decreases n,
{
    if let Node::Split { a: sa, b: sb, .. } = s {
        if *sa == Node::Leaf(id) || *sb == Node::Leaf(id) {
            lemma_holds(s, id);
            if n == s {
                crate::tree_laws::lemma_distinct_add(sa.leaves(), sb.leaves());
                crate::tree::lemma_leaf_contains(*sa, id);
                crate::tree::lemma_leaf_contains(*sb, id);
                crate::tree_laws::law_first_is_first(*sa);
                crate::tree_laws::law_first_is_first(*sb);
            } else if let Node::Split { a, b, .. } = n {
                lemma_sides(n, s, id);
                crate::tree::lemma_leaf_contains(*a, id);
                crate::tree::lemma_leaf_contains(*b, id);
                if within(*a, s) {
                    law_axis_of_either_side(*a, s, id);
                } else {
                    law_axis_of_either_side(*b, s, id);
                    crate::tree_laws::lemma_absent(*a, id);
                }
            }
        }
    }
}

/// Setting a divider's share changes that share and nothing else in the tree.
pub proof fn law_share_at_one_place(n: Node, s: Node, share: Ratio)
    requires
        n.divider_ids().no_duplicates(),
        within(n, s),
    ensures
        s matches Node::Split { id, vertical, a, b, .. } ==> n.with_share(id, share) == exchanged(
            n,
            s,
            (Node::Split { id, vertical, ratio: share, a, b }),
        ),
    decreases n,
{
    if let Node::Split { id: d, vertical, a: sa, b: sb, .. } = s {
        let t = Node::Split { id: d, vertical, ratio: share, a: sa, b: sb };
        crate::tree_laws::lemma_three(d, sa.divider_ids(), sb.divider_ids());
        assert(s.divider_ids().contains(d));
        if n != s {
            if let Node::Split { id, a, b, .. } = n {
                crate::tree_laws::lemma_three(id, a.divider_ids(), b.divider_ids());
                if within(*a, s) {
                    lemma_within_dividers(*a, s, d);
                    law_share_at_one_place(*a, s, share);
                    lemma_exchange_no_divider(*b, s, t, d);
                } else {
                    lemma_within_dividers(*b, s, d);
                    law_share_at_one_place(*b, s, share);
                    lemma_exchange_no_divider(*a, s, t, d);
                }
            }
        }
    }
}

/// In a tree of one axis every pane is a slot of its own along that axis, as
/// wide as the slot.
pub proof fn law_panes_are_slots(n: Node, vertical: bool, r: Rect)
    requires
        n.filled(),
        all_along(n, vertical),
    ensures
        n.units(vertical) == n.leaves().len(),
        crate::geometry_laws::slots(n, vertical, r).len() == n.layout(r).len(),
        forall|i: int|
            0 <= i < n.layout(r).len() ==> #[trigger] crate::geometry_laws::slots(n, vertical, r)[i]
                == crate::geometry_laws::extent(vertical, n.layout(r)[i].1),
    decreases n,
{
    if let Node::Split { vertical: v, ratio, a, b, .. } = n {
        let (ra, rb, _) = crate::geometry::split_rects(v, ratio, r);
        law_panes_are_slots(*a, vertical, ra);
        law_panes_are_slots(*b, vertical, rb);
        let (sa, sb) = (
            crate::geometry_laws::slots(*a, vertical, ra),
            crate::geometry_laws::slots(*b, vertical, rb),
        );
        assert forall|i: int| 0 <= i < n.layout(r).len() implies #[trigger] crate::geometry_laws::slots(
            n,
            vertical,
            r,
        )[i] == crate::geometry_laws::extent(vertical, n.layout(r)[i].1) by {
            if i < sa.len() {
                assert(sa[i] == crate::geometry_laws::extent(vertical, a.layout(ra)[i].1));
            } else {
                assert(sb[i - sa.len()] == crate::geometry_laws::extent(
                    vertical,
                    b.layout(rb)[i - sa.len()].1,
                ));
            }
        }
    }
}

/// Closing and rebalancing keep the axis of a tree of one axis.
proof fn lemma_all_along(n: Node, vertical: bool, id: u64, axis: bool, after: Node)
    requires
        all_along(n, vertical),
    ensures
        n.axis_of(id) matches Some(v) ==> v == vertical,
        n.removed(id) matches Some(m) ==> all_along(m, vertical),
        n.equalized(axis, after) ==> all_along(after, vertical),
    decreases n,
{
    if let Node::Split { a, b, .. } = n {
        let (a2, b2) = match after {
            Node::Split { a: a2, b: b2, .. } => (*a2, *b2),
            _ => (after, after),
        };
        lemma_all_along(*a, vertical, id, axis, a2);
        lemma_all_along(*b, vertical, id, axis, b2);
    }
}

/// Closing a pane of a tab whose splits all have one axis leaves the other panes
/// as equal slots of the whole space along that axis, be it the one or the
/// other, and whichever pane it was: each of `N` panes has an `N`th, but for at
/// most three pixels less and two more per split on the way to it.
pub proof fn law_close_shares_the_space(
    before: Tab,
    after: Tab,
    id: u64,
    vertical: bool,
    r: Rect,
    i: int,
)
    requires
        before.wf(),
        all_along(before.tree, vertical),
        crate::tab::is_closed_tab(before, after, id),
        crate::geometry::fits(after.tree.depth(), r),
        0 <= crate::geometry_laws::extent(vertical, r),
        (before.tree.leaves().len() - 1) * crate::geometry_laws::extent(vertical, r)
            <= 0x8_0000_0000_0000,
        0 <= i < before.tree.leaves().len() - 1,
    ensures
        after.tree.layout(r).len() == before.tree.leaves().len() - 1,
        ({
            let n = before.tree.leaves().len() - 1;
            let pane = crate::geometry_laws::extent(vertical, after.tree.layout(r)[i].1);
            let whole = crate::geometry_laws::extent(vertical, r);
            &&& n * (pane + 3 * after.tree.depth()) >= whole
            &&& n * (pane - 2 * after.tree.depth()) <= whole
        }),
{
    let n = before.tree;
    let v = n.axis_of(id)->Some_0;
    let mid = n.removed(id)->Some_0;
    crate::tree_laws::law_removable(n, id);
    crate::tree_laws::law_remove_keeps_others(n, id);
    crate::tree_laws::law_surgery_keeps_shape(n, id, n);
    crate::tree_laws::law_equalize_keeps_tree(mid, v, after.tree);
    crate::tree_laws::law_rebalanced_is_balanced(mid, v, after.tree);
    lemma_all_along(n, vertical, id, v, after.tree);
    lemma_all_along(mid, vertical, id, v, after.tree);
    law_panes_are_slots(after.tree, vertical, r);
    crate::geometry_laws::law_layout_has_the_panes(after.tree, r);
    assert(n.leaves().contains(id));
    let k = n.leaves().index_of(id);
    assert(0 <= k < n.leaves().len());
    crate::geometry_laws::law_equal_slots(after.tree, vertical, r, i);
    assert(crate::geometry_laws::slots(after.tree, vertical, r)[i]
        == crate::geometry_laws::extent(vertical, after.tree.layout(r)[i].1));
}


/// What stands in the place of a part is a part.
proof fn lemma_exchanged_within(n: Node, s: Node, t: Node)
    requires
        within(n, s),
    ensures
        within(exchanged(n, s, t), t),
    decreases n,
{
    if n != s {
        if let Node::Split { a, b, .. } = n {
            if within(*a, s) {
                lemma_exchanged_within(*a, s, t);
            } else {
                lemma_exchanged_within(*b, s, t);
            }
        }
    }
}

/// A pane of the tree is a part of it.
proof fn lemma_pane_within(n: Node, id: u64)
    requires
        n.leaves().contains(id),
    ensures
        within(n, Node::Leaf(id)),
    decreases n,
{
    crate::tree::lemma_leaf_contains(n, id);
    if let Node::Split { a, b, .. } = n {
        crate::tree::lemma_contains_add(a.leaves(), b.leaves(), id);
        if a.leaves().contains(id) {
            lemma_pane_within(*a, id);
        } else {
            lemma_pane_within(*b, id);
        }
    } else if let Node::Leaf(i) = n {
        assert(n.leaves()[0] == i);
    }
}

/// Two panes with the divider `d` of the given axis between them, the first one
/// left of it or above.
pub open spec fn side_by_side(n: Node, d: u64, vertical: bool, first: u64, second: u64) -> bool {
    exists|ratio: Ratio| #[trigger] within(n, pair(d, vertical, ratio, first, second))
}

pub open spec fn pair(d: u64, vertical: bool, ratio: Ratio, first: u64, second: u64) -> Node {
    Node::Split {
        id: d,
        vertical,
        ratio,
        a: Box::new(Node::Leaf(first)),
        b: Box::new(Node::Leaf(second)),
    }
}

/// Rebalancing keeps panes side by side.
proof fn lemma_still_side_by_side(
    n: Node,
    axis: bool,
    after: Node,
    d: u64,
    vertical: bool,
    ratio: Ratio,
    first: u64,
    second: u64,
)
    requires
        n.equalized(axis, after),
        within(n, pair(d, vertical, ratio, first, second)),
    ensures
        side_by_side(after, d, vertical, first, second),
    decreases n,
{
    let s = pair(d, vertical, ratio, first, second);
    if let Node::Split { a, b, .. } = n {
        if let Node::Split { ratio: r2, a: a2, b: b2, .. } = after {
            if n == s {
                reveal_with_fuel(Node::equalized, 2);
                assert(*a2 == Node::Leaf(first));
                assert(*b2 == Node::Leaf(second));
                assert(within(after, pair(d, vertical, r2, first, second)));
            } else if within(*a, s) {
                lemma_still_side_by_side(*a, axis, *a2, d, vertical, ratio, first, second);
                let q = choose|q: Ratio| #[trigger] within(*a2, pair(d, vertical, q, first, second));
                assert(within(after, pair(d, vertical, q, first, second)));
            } else {
                lemma_still_side_by_side(*b, axis, *b2, d, vertical, ratio, first, second);
                let q = choose|q: Ratio| #[trigger] within(*b2, pair(d, vertical, q, first, second));
                assert(within(after, pair(d, vertical, q, first, second)));
            }
        }
    }
}

/// A new pane comes right after the one that was split, with a divider of the
/// asked axis between the two, and it has the focus; the other panes keep their
/// order.
pub proof fn law_new_pane_is_next(
    before: Tab,
    after: Tab,
    id: u64,
    vertical: bool,
    new: Pane,
    divider: u64,
)
    requires
        before.wf(),
        before.has(id),
        !before.has(new.id),
        crate::tab::is_split_tab(before, after, id, vertical, new, divider),
    ensures
        after.tree.leaves() == before.tree.leaves().insert(
            before.tree.leaves().index_of(id) + 1,
            new.id,
        ),
        side_by_side(after.tree, divider, vertical, id, new.id),
        after.active_pane == new.id,
        after.panes@.len() == before.panes@.len() + 1,
        after.panes@.drop_last() == before.panes@,
        after.panes@.last() == new,
{
    assert(before.panes@.push(new).drop_last() =~= before.panes@);
    let n = before.tree;
    let sub = choose|sub: Node| #[trigger]
        crate::tab::is_half_split(sub, divider, vertical, id, new.id) && n.replaced(
            id,
            sub,
        ).equalized(vertical, after.tree);
    let mid = n.replaced(id, sub);
    assert(n.leaves().contains(id));
    if let Node::Split { ratio, .. } = sub {
        assert(sub == pair(divider, vertical, ratio, id, new.id));
        lemma_pane_within(n, id);
        law_replace_at_one_place(n, id, sub);
        lemma_exchanged_within(n, Node::Leaf(id), sub);
        lemma_still_side_by_side(
            mid,
            vertical,
            after.tree,
            divider,
            vertical,
            ratio,
            id,
            new.id,
        );
        crate::tree_laws::law_replace_in_place(n, id, sub);
        crate::tree_laws::law_equalize_keeps_tree(mid, vertical, after.tree);
        let k = n.leaves().index_of(id);
        assert(0 <= k < n.leaves().len() && n.leaves()[k] == id);
        reveal_with_fuel(Node::leaves, 3);
        assert(sub.leaves() =~= seq![id, new.id]);
        assert(n.leaves().take(k) + sub.leaves() + n.leaves().skip(k + 1) =~= n.leaves().insert(
            k + 1,
            new.id,
        ));
    }
}

/// Splitting a pane of a tab along the one axis that its splits have leaves all
/// panes, the new one among them, as equal slots of the whole space.
pub proof fn law_split_shares_the_space(
    before: Tab,
    after: Tab,
    id: u64,
    vertical: bool,
    new: Pane,
    divider: u64,
    r: Rect,
    i: int,
)
    requires
        before.wf(),
        before.has(id),
        !before.has(new.id),
        all_along(before.tree, vertical),
        crate::tab::is_split_tab(before, after, id, vertical, new, divider),
        crate::geometry::fits(after.tree.depth(), r),
        0 <= crate::geometry_laws::extent(vertical, r),
        (before.tree.leaves().len() + 1) * crate::geometry_laws::extent(vertical, r)
            <= 0x8_0000_0000_0000,
        0 <= i < before.tree.leaves().len() + 1,
    ensures
        after.tree.layout(r).len() == before.tree.leaves().len() + 1,
        ({
            let n = before.tree.leaves().len() + 1;
            let pane = crate::geometry_laws::extent(vertical, after.tree.layout(r)[i].1);
            let whole = crate::geometry_laws::extent(vertical, r);
            &&& n * (pane + 3 * after.tree.depth()) >= whole
            &&& n * (pane - 2 * after.tree.depth()) <= whole
        }),
{
    let n = before.tree;
    let sub = choose|sub: Node| #[trigger]
        crate::tab::is_half_split(sub, divider, vertical, id, new.id) && n.replaced(
            id,
            sub,
        ).equalized(vertical, after.tree);
    let mid = n.replaced(id, sub);
    law_new_pane_is_next(before, after, id, vertical, new, divider);
    assert(n.leaves().contains(id));
    assert(0 <= n.leaves().index_of(id) < n.leaves().len());
    reveal_with_fuel(Node::filled, 2);
    reveal_with_fuel(Node::shares_ok, 2);
    reveal_with_fuel(all_along, 2);
    crate::tree_laws::law_surgery_keeps_shape(n, id, sub);
    crate::tree_laws::law_equalize_keeps_tree(mid, vertical, after.tree);
    crate::tree_laws::law_rebalanced_is_balanced(mid, vertical, after.tree);
    lemma_replaced_along(n, vertical, id, sub);
    lemma_all_along(mid, vertical, id, vertical, after.tree);
    law_panes_are_slots(after.tree, vertical, r);
    crate::geometry_laws::law_layout_has_the_panes(after.tree, r);
    crate::geometry_laws::law_equal_slots(after.tree, vertical, r, i);
    assert(crate::geometry_laws::slots(after.tree, vertical, r)[i]
        == crate::geometry_laws::extent(vertical, after.tree.layout(r)[i].1));
}

proof fn lemma_replaced_along(n: Node, vertical: bool, id: u64, sub: Node)
    requires
        all_along(n, vertical),
        all_along(sub, vertical),
    ensures
        all_along(n.replaced(id, sub), vertical),
    decreases n,
{
    if let Node::Split { a, b, .. } = n {
        lemma_replaced_along(*a, vertical, id, sub);
        lemma_replaced_along(*b, vertical, id, sub);
    }
}

/// Closing a pane that is not the active one leaves the focus where it is;
/// closing the active one gives it to the first pane on the other side of its
/// split, whichever side the pane was on.
pub proof fn law_focus_after_closing(before: Tab, after: Tab, id: u64, s: Node)
    requires
        before.wf(),
        crate::tab::is_closed_tab(before, after, id),
        within(before.tree, s),
    ensures
        before.active_pane != id ==> after.active_pane == before.active_pane,
        before.active_pane == id ==> (s matches Node::Split { a, b, .. } ==> {
            &&& *a == Node::Leaf(id) ==> after.active_pane == b.leaves()[0]
            &&& *b == Node::Leaf(id) ==> after.active_pane == a.leaves()[0]
        }),
{
    law_axis_of_either_side(before.tree, s, id);
}

/// Closing a pane closes that pane alone: the others keep their order, in the
/// tree and in the list, and the pane is in neither.
pub proof fn law_close_takes_one_pane(before: Tab, after: Tab, id: u64, k: int, j: int)
    requires
        before.wf(),
        crate::tab::is_closed_tab(before, after, id),
        0 <= k < before.tree.leaves().len(),
        before.tree.leaves()[k] == id,
        0 <= j < before.panes@.len(),
        before.panes@[j].id == id,
    ensures
        after.tree.leaves() == before.tree.leaves().take(k) + before.tree.leaves().skip(k + 1),
        after.panes@ == before.panes@.take(j) + before.panes@.skip(j + 1),
        !after.tree.leaves().contains(id),
        !after.has(id),
{
    let n = before.tree;
    let l = n.leaves();
    let p = crate::tab::pane_ids(before.panes@);
    assert(l.contains(id));
    crate::tree_laws::law_removable(n, id);
    crate::tree_laws::law_remove_keeps_others(n, id);
    crate::tree_laws::law_equalize_keeps_tree(
        n.removed(id)->Some_0,
        n.axis_of(id)->Some_0,
        after.tree,
    );
    crate::tree::lemma_index_is(l, k);
    assert(l.remove(k) =~= l.take(k) + l.skip(k + 1));
    crate::tab::lemma_remove_distinct(l, k);
    assert(p[j] == id);
    crate::tree::lemma_index_is(p, j);
    crate::tab::lemma_removed_ids(before.panes@, j);
    crate::tab::lemma_remove_distinct(p, j);
    assert(before.panes@.remove(j) =~= before.panes@.take(j) + before.panes@.skip(j + 1));
}

/// When a shell of a tab with others is gone, its tab loses that pane and no other
/// tab changes; the focus is given on exactly where the pane had it.
pub proof fn law_other_tabs_stay(
    before: App,
    after: App,
    id: u64,
    tab: int,
    focus: Option<u64>,
    i: int,
)
    requires
        before.wf(),
        crate::session::is_pane_closed(before, after, id, tab, focus),
        0 <= i < before.tabs@.len(),
    ensures
        after.active == before.active,
        after.tabs@.len() == before.tabs@.len(),
        !before.tabs@[i].has(id) ==> after.tabs@[i] == before.tabs@[i],
        before.tabs@[i].has(id) ==> !after.tabs@[i].has(id),
        before.tabs@[i].has(id) && before.tabs@[i].active_pane == id ==> focus == Some(
            after.tabs@[i].active_pane,
        ),
        before.tabs@[i].has(id) && before.tabs@[i].active_pane != id ==> focus is None
            && after.tabs@[i].active_pane == before.tabs@[i].active_pane,
{
    let t = before.tabs@[i];
    assert(t.wf());
    if t.has(id) {
        assert(crate::session::is_tab_of(before.tabs@, id, i));
        assert(crate::session::is_tab_of(before.tabs@, id, tab));
        assert(i == tab);
        let p = crate::tab::pane_ids(t.panes@);
        let j = p.index_of(id);
        assert(0 <= j < p.len() && p[j] == id);
        assert(t.tree.leaves().contains(id));
        let k = t.tree.leaves().index_of(id);
        law_close_takes_one_pane(t, after.tabs@[i], id, k, j);
    } else {
        assert(i != tab);
    }
}

} // verus!
