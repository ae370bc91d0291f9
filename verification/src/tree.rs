//! The split tree of a tab: which panes it holds, in which order, and how the
//! tree changes when a pane is split, closed or rebalanced.
use crate::ratio::{Ratio, HIGH};
use vstd::prelude::*;

verus! {

/// Split tree; a leaf holds a pane id.
#[derive(Debug)]
pub enum Node {
    /// No pane at all.
    Empty,
    Leaf(u64),
    /// `vertical` is a vertical divider with `a` left and `b` right; otherwise
    /// `a` is on top and `b` below. `ratio` is the share of space for `a`; `id`
    /// names the divider.
    Split { id: u64, vertical: bool, ratio: Ratio, a: Box<Node>, b: Box<Node> },
}

impl Node {
    /// Pane ids in visual order: left to right, top to bottom.
    pub open spec fn leaves(self) -> Seq<u64>
        decreases self,
    {
        match self {
            Node::Empty => seq![],
            Node::Leaf(id) => seq![id],
            Node::Split { a, b, .. } => a.leaves() + b.leaves(),
        }
    }

    /// Divider ids, each before those of the subtrees it separates.
    pub open spec fn divider_ids(self) -> Seq<u64>
        decreases self,
    {
        match self {
            Node::Split { id, a, b, .. } => seq![id] + a.divider_ids() + b.divider_ids(),
            _ => seq![],
        }
    }

    /// Every place in the tree holds a pane or a split.
    pub open spec fn filled(self) -> bool
        decreases self,
    {
        match self {
            Node::Empty => false,
            Node::Leaf(_) => true,
            Node::Split { a, b, .. } => a.filled() && b.filled(),
        }
    }

    /// Every share in the tree is a share.
    pub open spec fn shares_ok(self) -> bool
        decreases self,
    {
        match self {
            Node::Split { ratio, a, b, .. } => ratio.wf() && a.shares_ok() && b.shares_ok(),
            _ => true,
        }
    }

    /// Number of nodes.
    pub open spec fn size(self) -> nat
        decreases self,
    {
        match self {
            Node::Split { a, b, .. } => 1 + a.size() + b.size(),
            _ => 1,
        }
    }

    /// Number of splits on the longest path.
    pub open spec fn depth(self) -> nat
        decreases self,
    {
        match self {
            Node::Split { a, b, .. } => 1 + if a.depth() >= b.depth() {
                a.depth()
            } else {
                b.depth()
            },
            _ => 0,
        }
    }

    pub open spec fn is_leaf_of(self, id: u64) -> bool {
        self matches Node::Leaf(i) && i == id
    }

    /// The leaf reached by always taking the left or upper side.
    pub open spec fn first(self) -> Option<u64>
        decreases self,
    {
        match self {
            Node::Empty => None,
            Node::Leaf(id) => Some(id),
            Node::Split { a, .. } => a.first(),
        }
    }

    /// The tree with leaf `id` exchanged for `new`.
    pub open spec fn replaced(self, id: u64, new: Node) -> Node
        decreases self,
    {
        match self {
            Node::Empty => self,
            Node::Leaf(i) => if i == id {
                new
            } else {
                self
            },
            Node::Split { id: d, vertical, ratio, a, b } => if a.is_leaf_of(id) || (!b.is_leaf_of(id)
                && a.leaves().contains(id)) {
                Node::Split { id: d, vertical, ratio, a: Box::new(a.replaced(id, new)), b }
            } else {
                Node::Split { id: d, vertical, ratio, a, b: Box::new(b.replaced(id, new)) }
            },
        }
    }

    /// The tree without leaf `id`: its split is collapsed into the other side.
    /// `None` where no split holds that leaf.
    pub open spec fn removed(self, id: u64) -> Option<Node>
        decreases self,
    {
        match self {
            Node::Split { id: d, vertical, ratio, a, b } => if a.is_leaf_of(id) {
                Some(*b)
            } else if b.is_leaf_of(id) {
                Some(*a)
            } else {
                match a.removed(id) {
                    Some(x) => Some(Node::Split { id: d, vertical, ratio, a: Box::new(x), b }),
                    None => match b.removed(id) {
                        Some(y) => Some(
                            Node::Split { id: d, vertical, ratio, a, b: Box::new(y) },
                        ),
                        None => None,
                    },
                }
            },
            _ => None,
        }
    }

    /// Equal-share slots along an axis: a split on that axis has the slots of
    /// both sides, anything else that holds panes is one slot.
    pub open spec fn units(self, vertical: bool) -> nat
        decreases self,
    {
        match self {
            Node::Split { vertical: v, a, b, .. } => if v == vertical {
                a.units(vertical) + b.units(vertical)
            } else {
                1
            },
            Node::Empty => 0,
            Node::Leaf(_) => 1,
        }
    }

    /// `after` is this tree with every split along the axis sharing its space
    /// in proportion to the slots on its two sides, and nothing else changed.
    pub open spec fn equalized(self, vertical: bool, after: Node) -> bool
        decreases self,
    {
        match (self, after) {
            (
                Node::Split { id: d, vertical: v, ratio: r, a, b },
                Node::Split { id: d2, vertical: v2, ratio: r2, a: a2, b: b2 },
            ) => {
                let total = a.units(vertical) + b.units(vertical);
                &&& d2 == d
                &&& v2 == v
                &&& if v == vertical && total > 0 {
                    r2.is_quotient(a.units(vertical) as int, total as int) && r2.wf()
                } else {
                    r2 == r
                }
                &&& a.equalized(vertical, *a2)
                &&& b.equalized(vertical, *b2)
            },
            (Node::Split { .. }, _) => false,
            _ => after == self,
        }
    }

    /// The axis of the split that holds leaf `id` directly.
    pub open spec fn axis_of(self, id: u64) -> Option<bool>
        decreases self,
    {
        match self {
            Node::Split { vertical, a, b, .. } => if a.is_leaf_of(id) || b.is_leaf_of(id) {
                Some(vertical)
            } else if a.axis_of(id) is Some {
                a.axis_of(id)
            } else {
                b.axis_of(id)
            },
            _ => None,
        }
    }

    /// The first leaf on the other side of the split that holds leaf `id`.
    pub open spec fn sibling_of(self, id: u64) -> Option<u64>
        decreases self,
    {
        match self {
            Node::Split { a, b, .. } => if a.is_leaf_of(id) {
                b.first()
            } else if b.is_leaf_of(id) {
                a.first()
            } else if a.sibling_of(id) is Some {
                a.sibling_of(id)
            } else {
                b.sibling_of(id)
            },
            _ => None,
        }
    }

    /// The tree with the share of divider `id` set (the first of that id in
    /// divider order).
    pub open spec fn with_share(self, id: u64, share: Ratio) -> Node
        decreases self,
    {
        match self {
            Node::Split { id: d, vertical, ratio, a, b } => if d == id {
                Node::Split { id: d, vertical, ratio: share, a, b }
            } else if a.divider_ids().contains(id) {
                Node::Split { id: d, vertical, ratio, a: Box::new(a.with_share(id, share)), b }
            } else {
                Node::Split { id: d, vertical, ratio, a, b: Box::new(b.with_share(id, share)) }
            },
            _ => self,
        }
    }
}

fn is_leaf(node: &Node, id: u64) -> (r: bool)
    ensures
        r == node.is_leaf_of(id),
{
    match node {
        Node::Leaf(i) => *i == id,
        _ => false,
    }
}

/// Whether the tree holds pane `id`.
pub fn has_leaf(node: &Node, id: u64) -> (r: bool)
    ensures
        r == node.leaves().contains(id),
    decreases node,
{
    match node {
        Node::Empty => false,
        Node::Leaf(i) => {
            assert(node.leaves()[0] == *i);
            *i == id
        },
        Node::Split { a, b, .. } => {
            proof {
                lemma_contains_add(a.leaves(), b.leaves(), id);
            }
            has_leaf(a, id) || has_leaf(b, id)
        },
    }
}

/// First pane of the tree: the one reached by always taking the left or upper
/// side.
pub fn first_leaf(node: &Node) -> (r: Option<u64>)
    ensures
        r == node.first(),
    decreases node,
{
    match node {
        Node::Empty => None,
        Node::Leaf(id) => Some(*id),
        Node::Split { a, .. } => first_leaf(a),
    }
}

/// Swap leaf `id` for a subtree; false if the tree does not hold it.
pub fn replace_leaf(node: &mut Node, id: u64, new: Node) -> (r: bool)
    ensures
        r == old(node).leaves().contains(id),
        *final(node) == old(node).replaced(id, new),
    decreases *old(node),
{
    match node {
        Node::Leaf(i) => {
            proof {
                assert(seq![*i][0] == *i);
            }
            if *i == id {
                *node = new;
                true
            } else {
                false
            }
        },
        Node::Split { a, b, .. } => {
            proof {
                lemma_contains_add(a.leaves(), b.leaves(), id);
                lemma_leaf_contains(**a, id);
                lemma_leaf_contains(**b, id);
                reveal_with_fuel(Node::replaced, 2);
            }
            if is_leaf(a, id) {
                **a = new;
                true
            } else if is_leaf(b, id) {
                **b = new;
                true
            } else if has_leaf(a, id) {
                replace_leaf(a, id, new)
            } else {
                replace_leaf(b, id, new)
            }
        },
        Node::Empty => false,
    }
}

/// Remove leaf `id`, collapsing its split into the other side. False, and no
/// change, where no split holds it: a tab of one pane goes away as a whole.
pub fn remove_leaf(node: &mut Node, id: u64) -> (r: bool)
    ensures
        r == (old(node).removed(id) is Some),
        match old(node).removed(id) {
            Some(t) => *final(node) == t,
            None => *final(node) == *old(node),
        },
    decreases *old(node),
{
    let mut taken: Node = Node::Empty;
    match node {
        Node::Split { a, b, .. } => {
            if is_leaf(a, id) {
                std::mem::swap(&mut **b, &mut taken);
            } else if is_leaf(b, id) {
                std::mem::swap(&mut **a, &mut taken);
            } else {
                return remove_leaf(a, id) || remove_leaf(b, id);
            }
        },
        _ => {
            return false;
        },
    }
    *node = taken;
    true
}

/// Append the pane ids of the tree in visual order.
pub fn leaf_ids(node: &Node, out: &mut Vec<u64>)
    ensures
        final(out)@ == old(out)@ + node.leaves(),
    decreases node,
{
    match node {
        Node::Leaf(id) => {
            out.push(*id);
            assert(out@ =~= old(out)@ + node.leaves());
        },
        Node::Split { a, b, .. } => {
            leaf_ids(a, out);
            leaf_ids(b, out);
            assert(out@ =~= old(out)@ + (a.leaves() + b.leaves()));
        },
        Node::Empty => {
            assert(out@ =~= old(out)@ + node.leaves());
        },
    }
}

/// Equal-share slots along axis `vertical`: a same-axis split flattens into the
/// slots of its sides; anything else that holds panes is one slot, so a column
/// inside a strip takes exactly one place of that strip.
pub fn axis_units(node: &Node, vertical: bool) -> (r: u64)
    requires
        node.size() <= HIGH,
    ensures
        r == node.units(vertical),
        r <= node.size(),
    decreases node,
{
    match node {
        Node::Split { vertical: v, a, b, .. } => {
            if *v == vertical {
                axis_units(a, vertical) + axis_units(b, vertical)
            } else {
                1
            }
        },
        Node::Empty => 0,
        Node::Leaf(_) => 1,
    }
}

/// Reset shares so that every same-axis strip gives each of its slots the same
/// space: N panes along one axis get 1/N each.
pub fn equalize_axis(node: &mut Node, vertical: bool)
    requires
        old(node).size() <= HIGH,
    ensures
        old(node).equalized(vertical, *final(node)),
    decreases *old(node),
{
    match node {
        Node::Split { vertical: v, ratio, a, b, .. } => {
            if *v == vertical {
                let ua: u64 = axis_units(a, vertical);
                let ub: u64 = axis_units(b, vertical);
                let total: u64 = ua + ub;
                if total > 0 {
                    *ratio = Ratio::of(ua, total);
                }
            }
            equalize_axis(a, vertical);
            equalize_axis(b, vertical);
        },
        _ => {},
    }
}

/// Axis of the split that holds leaf `id` directly.
pub fn parent_axis(node: &Node, id: u64) -> (r: Option<bool>)
    ensures
        r == node.axis_of(id),
    decreases node,
{
    match node {
        Node::Split { vertical, a, b, .. } => {
            if is_leaf(a, id) || is_leaf(b, id) {
                return Some(*vertical);
            }
            let in_a: Option<bool> = parent_axis(a, id);
            if in_a.is_some() {
                in_a
            } else {
                parent_axis(b, id)
            }
        },
        _ => None,
    }
}

/// The pane that takes the focus when pane `id` closes: the first one on the
/// other side of its split.
pub fn focus_fallback(node: &Node, id: u64) -> (r: Option<u64>)
    ensures
        r == node.sibling_of(id),
    decreases node,
{
    match node {
        Node::Split { a, b, .. } => {
            if is_leaf(a, id) {
                return first_leaf(b);
            }
            if is_leaf(b, id) {
                return first_leaf(a);
            }
            let in_a: Option<u64> = focus_fallback(a, id);
            if in_a.is_some() {
                in_a
            } else {
                focus_fallback(b, id)
            }
        },
        _ => None,
    }
}

/// Set the share of divider `id`; false if the tree has no such divider.
pub fn set_share(node: &mut Node, id: u64, share: Ratio) -> (r: bool)
    ensures
        r == old(node).divider_ids().contains(id),
        *final(node) == old(node).with_share(id, share),
    decreases *old(node),
{
    match node {
        Node::Split { id: d, ratio, a, b, .. } => {
            proof {
                lemma_contains_add(seq![*d] + a.divider_ids(), b.divider_ids(), id);
                lemma_contains_add(seq![*d], a.divider_ids(), id);
                assert(seq![*d][0] == *d);
            }
            if *d == id {
                *ratio = share;
                true
            } else if has_divider(a, id) {
                set_share(a, id, share)
            } else {
                set_share(b, id, share)
            }
        },
        _ => false,
    }
}

/// Whether the tree has divider `id`.
pub fn has_divider(node: &Node, id: u64) -> (r: bool)
    ensures
        r == node.divider_ids().contains(id),
    decreases node,
{
    match node {
        Node::Split { id: d, a, b, .. } => {
            proof {
                lemma_contains_add(seq![*d] + a.divider_ids(), b.divider_ids(), id);
                lemma_contains_add(seq![*d], a.divider_ids(), id);
                assert(seq![*d][0] == *d);
            }
            *d == id || has_divider(a, id) || has_divider(b, id)
        },
        _ => false,
    }
}

pub proof fn lemma_contains_add(s: Seq<u64>, t: Seq<u64>, x: u64)
    ensures
        (s + t).contains(x) == (s.contains(x) || t.contains(x)),
{
    if s.contains(x) {
        let k = choose|k: int| 0 <= k < s.len() && s[k] == x;
        assert((s + t)[k] == x);
    }
    if t.contains(x) {
        let k = choose|k: int| 0 <= k < t.len() && t[k] == x;
        assert((s + t)[s.len() + k] == x);
    }
}

/// Where a value is among distinct ones.
pub proof fn lemma_index_is(s: Seq<u64>, k: int)
    requires
        s.no_duplicates(),
        0 <= k < s.len(),
    ensures
        s.index_of(s[k]) == k,
{
    let j = s.index_of(s[k]);
    assert(s.contains(s[k]));
    assert(0 <= j < s.len() && s[j] == s[k]);
}

/// A single leaf holds its own pane.
pub proof fn lemma_leaf_contains(n: Node, id: u64)
    ensures
        n.is_leaf_of(id) ==> n.leaves().contains(id) && n.leaves() == seq![id],
        (n is Leaf) && n.leaves().contains(id) ==> n.is_leaf_of(id),
{
    if n.is_leaf_of(id) {
        assert(n.leaves()[0] == id);
    }
}

} // verus!
