//! A tab: the panes that it is split into, and which of them has the focus.
use vstd::prelude::*;
use crate::ratio::Ratio;
use crate::tree::Node;
use crate::tree::equalize_axis;
use crate::tree::focus_fallback;
use crate::tree::parent_axis;
use crate::tree::remove_leaf;
use crate::tree::replace_leaf;

verus! {

/// A pane: one shell.
#[derive(Debug)]
pub struct Pane {
    pub id: u64,
    /// Process of the shell; 0 where it is not known.
    pub pid: u32,
    /// The title that the shell has set, if it has.
    pub title: Option<String>,
}

/// A tab: panes in a split tree.
#[derive(Debug)]
pub struct Tab {
    pub tree: Node,
    /// The panes in the order in which they were opened.
    pub panes: Vec<Pane>,
    /// The pane that has the focus when the tab is shown.
    pub active_pane: u64,
}

/// The ids of some panes.
pub open spec fn pane_ids(panes: Seq<Pane>) -> Seq<u64> {
    panes.map_values(|p: Pane| p.id)
}

impl Tab {
    /// Whether the tab has the pane `id`.
    pub open spec fn has(self, id: u64) -> bool {
        pane_ids(self.panes@).contains(id)
    }

    /// The tree holds the tab's panes, each once, and nothing else; dividers
    /// have ids of their own; the active pane is one of the tab's.
    pub open spec fn wf(self) -> bool {
        &&& self.tree.filled()
        &&& self.tree.shares_ok()
        &&& self.tree.leaves().no_duplicates()
        &&& self.tree.divider_ids().no_duplicates()
        &&& pane_ids(self.panes@).no_duplicates()
        &&& forall|id: u64|
            #![trigger self.tree.leaves().contains(id)]
            #![trigger self.has(id)]
            self.tree.leaves().contains(id) <==> self.has(id)
        &&& self.has(self.active_pane)
    }
}

/// Position of a pane.
pub(crate) fn find_pane(panes: &Vec<Pane>, id: u64) -> (r: Option<usize>)
    ensures
        r is Some <==> pane_ids(panes@).contains(id),
        r is Some ==> r->Some_0 < panes@.len() && panes@[r->Some_0 as int].id == id,
        r is Some ==> forall|j: int| 0 <= j < r->Some_0 ==> (#[trigger] panes@[j]).id != id,
{
    for i in 0..panes.len()
        invariant
            forall|j: int| 0 <= j < i ==> (#[trigger] panes@[j]).id != id,
    {
        if panes[i].id == id {
            assert(pane_ids(panes@)[i as int] == id);
            return Some(i);
        }
    }
    assert forall|j: int| 0 <= j < panes@.len() implies pane_ids(panes@)[j] != id by {
        assert(panes@[j].id != id);
    }
    None
}

impl Tab {
    /// A tab of one pane.
    pub fn new(id: u64, pid: u32) -> (t: Tab)
        ensures
            t.wf(),
            t.tree == Node::Leaf(id),
            t.panes@ == seq![(Pane { id, pid, title: None })],
            t.active_pane == id,
    {
        let t: Tab = Tab {
            tree: Node::Leaf(id),
            panes: vec![Pane { id, pid, title: None }],
            active_pane: id,
        };
        proof {
            assert(pane_ids(t.panes@)[0] == id);
            assert(t.tree.leaves()[0] == id);
        }
        t
    }

    /// `p` is the first pane in the list with the id `id`.
    pub open spec fn is_first_pane(self, id: u64, p: Pane) -> bool {
        exists|i: int|
            0 <= i < self.panes@.len() && (#[trigger] self.panes@[i]) == p && p.id == id
                && forall|j: int| 0 <= j < i ==> (#[trigger] self.panes@[j]).id != id
    }

    /// The pane `id`, the first one in the list.
    pub fn pane(&self, id: u64) -> (p: &Pane)
        requires
            self.has(id),
        ensures
            self.is_first_pane(id, *p),
            p.id == id,
            self.panes@.contains(*p),
    {
        match find_pane(&self.panes, id) {
            Some(i) => &self.panes[i],
            None => vstd::pervasive::unreached(),
        }
    }

    /// The pane that has the focus when the tab is shown.
    pub fn active(&self) -> (p: &Pane)
        requires
            self.wf(),
        ensures
            self.is_first_pane(self.active_pane, *p),
            p.id == self.active_pane,
            self.panes@.contains(*p),
    {
        self.pane(self.active_pane)
    }
}

// ---- splitting and closing a pane ----

/// A split of the pane `id` with a new one, half and half.
pub open spec fn is_half_split(n: Node, divider: u64, vertical: bool, id: u64, new: u64) -> bool {
    n matches Node::Split { id: d, vertical: v, ratio, a, b } && d == divider && v == vertical
        && ratio.is_quotient(1, 2) && ratio.wf() && *a == Node::Leaf(id) && *b == Node::Leaf(new)
}

/// What splitting pane `id` makes of a tab: its leaf becomes a split with the
/// new pane, then every strip along that axis is rebalanced; the new pane comes
/// last in the list and is active.
pub open spec fn is_split_tab(
    before: Tab,
    after: Tab,
    id: u64,
    vertical: bool,
    new: Pane,
    divider: u64,
) -> bool {
    &&& exists|sub: Node| #[trigger]
        is_half_split(sub, divider, vertical, id, new.id) && before.tree.replaced(
            id,
            sub,
        ).equalized(vertical, after.tree)
    &&& after.panes@ == before.panes@.push(new)
    &&& after.active_pane == new.id
}

/// What closing pane `id` makes of a tab that has other panes: the pane's split
/// collapses into the other side, every strip along that axis is rebalanced,
/// and the first pane of that other side takes over the focus.
pub open spec fn is_closed_tab(before: Tab, after: Tab, id: u64) -> bool {
    &&& before.tree.removed(id) is Some
    &&& before.tree.axis_of(id) is Some
    &&& before.tree.removed(id)->Some_0.equalized(before.tree.axis_of(id)->Some_0, after.tree)
    &&& after.panes@ == before.panes@.remove(pane_ids(before.panes@).index_of(id))
    &&& after.active_pane == if before.active_pane == id {
        before.tree.sibling_of(id)->Some_0
    } else {
        before.active_pane
    }
}

pub proof fn lemma_tree_of_one(t: Tab)
    requires
        t.wf(),
    ensures
        t.panes@.len() >= 1,
        t.panes@.len() > 1 <==> t.tree is Split,
{
    let (l, p) = (t.tree.leaves(), pane_ids(t.panes@));
    assert(l.to_set() =~= p.to_set()) by {
        assert forall|x: u64| l.to_set().contains(x) == p.to_set().contains(x) by {
            assert(t.tree.leaves().contains(x) <==> t.has(x));
        }
    }
    l.unique_seq_to_set();
    p.unique_seq_to_set();
    match t.tree {
        Node::Split { a, b, .. } => {
            crate::tree_laws::law_first_is_first(*a);
            crate::tree_laws::law_first_is_first(*b);
        },
        _ => {},
    }
}

proof fn lemma_pushed_ids(panes: Seq<Pane>, p: Pane)
    ensures
        pane_ids(panes.push(p)) == pane_ids(panes).push(p.id),
{
    assert(pane_ids(panes.push(p)) =~= pane_ids(panes).push(p.id));
}

pub proof fn lemma_removed_ids(panes: Seq<Pane>, k: int)
    requires
        0 <= k < panes.len(),
    ensures
        pane_ids(panes.remove(k)) == pane_ids(panes).remove(k),
{
    assert(pane_ids(panes.remove(k)) =~= pane_ids(panes).remove(k));
}

/// What is left of distinct values when one goes.
pub proof fn lemma_remove_distinct(s: Seq<u64>, k: int)
    requires
        s.no_duplicates(),
        0 <= k < s.len(),
    ensures
        s.remove(k).no_duplicates(),
        forall|x: u64| #[trigger] s.remove(k).contains(x) <==> s.contains(x) && x != s[k],
{
    let r = s.remove(k);
    assert forall|x: u64| #[trigger] r.contains(x) <==> s.contains(x) && x != s[k] by {
        if r.contains(x) {
            let i = r.index_of(x);
            let j = if i < k {
                i
            } else {
                i + 1
            };
            assert(s[j] == x);
        }
        if s.contains(x) && x != s[k] {
            let j = s.index_of(x);
            let i = if j < k {
                j
            } else {
                j - 1
            };
            assert(r[i] == x);
        }
    }
}

/// Splitting keeps a tab's order.
proof fn lemma_split_wf(before: Tab, after: Tab, id: u64, vertical: bool, new: Pane, divider: u64)
    requires
        before.wf(),
        before.has(id),
        !before.has(new.id),
        !before.tree.divider_ids().contains(divider),
        is_split_tab(before, after, id, vertical, new, divider),
    ensures
        after.wf(),
        after.tree.size() <= before.tree.size() + 3,
        forall|x: u64| #[trigger] after.has(x) <==> before.has(x) || x == new.id,
        forall|d: u64| #[trigger]
            after.tree.divider_ids().contains(d) <==> before.tree.divider_ids().contains(d) || d
                == divider,
{
    let sub = choose|sub: Node| #[trigger]
        is_half_split(sub, divider, vertical, id, new.id) && before.tree.replaced(
            id,
            sub,
        ).equalized(vertical, after.tree);
    let mid = before.tree.replaced(id, sub);
    let s = before.tree.leaves();
    assert(before.tree.leaves().contains(id));
    assert(!before.tree.leaves().contains(new.id));
    lemma_half_split(sub, divider, vertical, id, new.id);
    crate::tree_laws::law_replace_in_place(before.tree, id, sub);
    crate::tree_laws::law_surgery_keeps_shape(before.tree, id, sub);
    crate::tree_laws::law_split_adds_divider(before.tree, id, sub);
    crate::tree_laws::law_equalize_keeps_tree(mid, vertical, after.tree);
    let k = s.index_of(id);
    assert(0 <= k < s.len() && s[k] == id);
    let m = mid.leaves();
    assert(m =~= s.insert(k + 1, new.id));
    lemma_insert_distinct(s, k + 1, new.id);
    let p = pane_ids(before.panes@);
    lemma_pushed_ids(before.panes@, new);
    assert(p.push(new.id) =~= p.insert(p.len() as int, new.id));
    lemma_insert_distinct(p, p.len() as int, new.id);
    assert forall|x: u64| #[trigger] after.has(x) <==> before.has(x) || x == new.id by {
        assert(p.insert(p.len() as int, new.id).contains(x) <==> p.contains(x) || x == new.id);
    }
    assert forall|x: u64|
        #![trigger after.tree.leaves().contains(x)]
        #![trigger after.has(x)]
        after.tree.leaves().contains(x) <==> after.has(x) by {
        assert(before.tree.leaves().contains(x) <==> before.has(x));
        assert(m.contains(x) <==> s.contains(x) || x == new.id);
        assert(after.has(x) <==> before.has(x) || x == new.id);
    }
    assert(after.has(new.id));
}

/// What a split of two panes holds.
proof fn lemma_half_split(sub: Node, divider: u64, vertical: bool, id: u64, new: u64)
    requires
        is_half_split(sub, divider, vertical, id, new),
    ensures
        sub.leaves() == seq![id, new],
        sub.divider_ids() == seq![divider],
        sub.divider_ids().no_duplicates(),
        forall|d: u64| #[trigger] sub.divider_ids().contains(d) <==> d == divider,
        sub.filled(),
        sub.shares_ok(),
        sub.size() == 3,
{
    reveal_with_fuel(Node::leaves, 2);
    reveal_with_fuel(Node::divider_ids, 2);
    reveal_with_fuel(Node::filled, 2);
    reveal_with_fuel(Node::shares_ok, 2);
    reveal_with_fuel(Node::size, 2);
    assert(sub.leaves() =~= seq![id, new]);
    assert(sub.divider_ids() =~= seq![divider]);
    assert(sub.divider_ids()[0] == divider);
}

/// What distinct values are when another one comes.
proof fn lemma_insert_distinct(s: Seq<u64>, k: int, v: u64)
    requires
        s.no_duplicates(),
        !s.contains(v),
        0 <= k <= s.len(),
    ensures
        s.insert(k, v).no_duplicates(),
        forall|x: u64| #[trigger] s.insert(k, v).contains(x) <==> s.contains(x) || x == v,
{
    let m = s.insert(k, v);
    assert forall|i: int, j: int| 0 <= i < m.len() && 0 <= j < m.len() && i != j implies m[i]
        != m[j] by {
        let i2 = if i < k {
            i
        } else {
            i - 1
        };
        let j2 = if j < k {
            j
        } else {
            j - 1
        };
        if i == k {
            assert(s.contains(s[j2]));
        } else if j == k {
            assert(s.contains(s[i2]));
        } else {
            assert(m[i] == s[i2] && m[j] == s[j2]);
        }
    }
    assert forall|x: u64| #[trigger] m.contains(x) <==> s.contains(x) || x == v by {
        if m.contains(x) {
            let i = m.index_of(x);
            if i < k {
                assert(s[i] == x);
            } else if i > k {
                assert(s[i - 1] == x);
            }
        }
        if s.contains(x) {
            let i = s.index_of(x);
            if i < k {
                assert(m[i] == x);
            } else {
                assert(m[i + 1] == x);
            }
        }
        assert(m[k] == v);
    }
}

/// Closing keeps a tab's order.
proof fn lemma_close_wf(before: Tab, after: Tab, id: u64)
    requires
        before.wf(),
        before.has(id),
        before.tree is Split,
        is_closed_tab(before, after, id),
    ensures
        after.wf(),
        after.tree.size() <= before.tree.size(),
        forall|x: u64| #[trigger] after.has(x) <==> before.has(x) && x != id,
        forall|d: u64| #[trigger]
            after.tree.divider_ids().contains(d) ==> before.tree.divider_ids().contains(d),
{
    let s = before.tree.leaves();
    let p = pane_ids(before.panes@);
    let axis = before.tree.axis_of(id)->Some_0;
    let mid = before.tree.removed(id)->Some_0;
    assert(before.tree.leaves().contains(id));
    crate::tree_laws::law_remove_keeps_others(before.tree, id);
    crate::tree_laws::law_surgery_keeps_shape(before.tree, id, Node::Empty);
    crate::tree_laws::law_close_keeps_dividers(before.tree, id);
    crate::tree_laws::law_focus_after_close(before.tree, id);
    crate::tree_laws::law_equalize_keeps_tree(mid, axis, after.tree);
    let (k, j) = (s.index_of(id), p.index_of(id));
    lemma_remove_distinct(s, k);
    lemma_remove_distinct(p, j);
    lemma_removed_ids(before.panes@, j);
    assert forall|x: u64| #[trigger] after.has(x) <==> before.has(x) && x != id by {
        assert(p.remove(j).contains(x) <==> p.contains(x) && x != p[j]);
    }
    assert forall|x: u64|
        #![trigger after.tree.leaves().contains(x)]
        #![trigger after.has(x)]
        after.tree.leaves().contains(x) <==> after.has(x) by {
        assert(before.tree.leaves().contains(x) <==> before.has(x));
        assert(s.remove(k).contains(x) <==> s.contains(x) && x != s[k]);
        assert(p.remove(j).contains(x) <==> p.contains(x) && x != p[j]);
    }
    let f = before.tree.sibling_of(id)->Some_0;
    assert(before.tree.leaves().contains(f));
    assert(before.has(f));
    assert(after.has(after.active_pane));
}

impl Tab {
    /// Split the pane `id` with a new one.
    pub(crate) fn split(&mut self, id: u64, vertical: bool, new: u64, divider: u64, pid: u32)
        requires
            old(self).wf(),
            old(self).has(id),
            !old(self).has(new),
            !old(self).tree.divider_ids().contains(divider),
            old(self).tree.size() + 3 <= crate::ratio::HIGH,
        ensures
            is_split_tab(
                *old(self),
                *final(self),
                id,
                vertical,
                Pane { id: new, pid, title: None },
                divider,
            ),
            final(self).wf(),
            final(self).tree.size() <= old(self).tree.size() + 3,
            forall|x: u64| #[trigger] final(self).has(x) <==> old(self).has(x) || x == new,
            forall|d: u64| #[trigger]
                final(self).tree.divider_ids().contains(d) <==> old(
                    self,
                ).tree.divider_ids().contains(d) || d == divider,
    {
        let sub: Node = Node::Split {
            id: divider,
            vertical,
            ratio: Ratio::half(),
            a: Box::new(Node::Leaf(id)),
            b: Box::new(Node::Leaf(new)),
        };
        let ghost node = sub;
        proof {
            assert(is_half_split(node, divider, vertical, id, new));
            crate::tree_laws::law_surgery_keeps_shape(self.tree, id, node);
            reveal_with_fuel(Node::size, 3);
        }
        replace_leaf(&mut self.tree, id, sub);
        equalize_axis(&mut self.tree, vertical);
        self.panes.push(Pane { id: new, pid, title: None });
        self.active_pane = new;
        proof {
            let pane = Pane { id: new, pid, title: None };
            assert(is_half_split(node, divider, vertical, id, pane.id));
            assert(is_split_tab(*old(self), *self, id, vertical, pane, divider));
            lemma_split_wf(*old(self), *self, id, vertical, pane, divider);
        }
    }

    /// Close the pane `id`. The pane that takes over the focus, where the
    /// closed pane had it.
    pub(crate) fn close(&mut self, id: u64) -> (focus: Option<u64>)
        requires
            old(self).wf(),
            old(self).has(id),
            old(self).panes@.len() > 1,
            old(self).tree.size() <= crate::ratio::HIGH,
        ensures
            is_closed_tab(*old(self), *final(self), id),
            final(self).wf(),
            final(self).tree.size() <= old(self).tree.size(),
            forall|x: u64| #[trigger] final(self).has(x) <==> old(self).has(x) && x != id,
            forall|d: u64| #[trigger]
                final(self).tree.divider_ids().contains(d) ==> old(
                    self,
                ).tree.divider_ids().contains(d),
            focus == if old(self).active_pane == id {
                Some(final(self).active_pane)
            } else {
                None
            },
    {
        proof {
            lemma_tree_of_one(*self);
            assert(self.tree.leaves().contains(id));
            crate::tree_laws::law_removable(self.tree, id);
            crate::tree_laws::law_axis(self.tree, id);
            crate::tree_laws::law_focus_after_close(self.tree, id);
            crate::tree_laws::law_surgery_keeps_shape(self.tree, id, Node::Empty);
        }
        let fallback: Option<u64> = focus_fallback(&self.tree, id);
        let axis: Option<bool> = parent_axis(&self.tree, id);
        remove_leaf(&mut self.tree, id);
        if let Some(v) = axis {
            equalize_axis(&mut self.tree, v);
        }
        if let Some(i) = find_pane(&self.panes, id) {
            proof {
                assert(pane_ids(self.panes@)[i as int] == id);
                crate::tree::lemma_index_is(pane_ids(self.panes@), i as int);
            }
            self.panes.remove(i);
        }
        let mut focus: Option<u64> = None;
        if self.active_pane == id {
            if let Some(n) = fallback {
                self.active_pane = n;
                focus = Some(n);
            }
        }
        proof {
            lemma_close_wf(*old(self), *self, id);
        }
        focus
    }
}

} // verus!
