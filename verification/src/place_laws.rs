//! Which way one pane lies from another, where the sides of a split lie, and
//! where a divider goes that is dragged.
use crate::dividers::DividerOutcome;
use crate::geometry::{Divider, Rect, DIV};
use crate::mouse::MouseEvent;
use crate::ratio::{Ratio, LOW};
use crate::session::App;
use crate::tab::Tab;
use crate::tree::Node;
use vstd::prelude::*;

verus! {

/// The rectangle with x and y exchanged.
pub open spec fn turned(r: Rect) -> Rect {
    (r.1, r.0, r.3, r.2)
}

/// The tree with every vertical divider horizontal and the other way round.
pub open spec fn turned_tree(n: Node) -> Node
    decreases n,
{
    match n {
        Node::Split { id, vertical, ratio, a, b } => Node::Split {
            id,
            vertical: !vertical,
            ratio,
            a: Box::new(turned_tree(*a)),
            b: Box::new(turned_tree(*b)),
        },
        _ => n,
    }
}

/// Directions know no preferred axis: with x and y exchanged throughout, a pane
/// lies the same way from another.
pub proof fn law_directions_turn(a: Rect, b: Rect, dx: int, dy: int)
    ensures
        crate::geometry::lies_towards(turned(a), turned(b), dy, dx)
            == crate::geometry::lies_towards(a, b, dx, dy),
        crate::geometry::distance2(turned(a), turned(b)) == crate::geometry::distance2(a, b),
{
}

/// A pane lies right of another where it begins at or past the other's right
/// edge and its center is further to the right than it is up or down; left,
/// below and above likewise, and nowhere else.
pub proof fn law_ahead_rather_than_aside(a: Rect, b: Rect)
    requires
        0 <= a.2,
        0 <= a.3,
        0 <= b.2,
        0 <= b.3,
    ensures
        ({
            let x = (b.0 + b.2 / 2) - (a.0 + a.2 / 2);
            let y = (b.1 + b.3 / 2) - (a.1 + a.3 / 2);
            &&& crate::geometry::lies_towards(a, b, 1, 0) <==> a.0 + a.2 <= b.0 && -x < y < x
            &&& crate::geometry::lies_towards(a, b, -1, 0) <==> b.0 + b.2 <= a.0 && x < y < -x
            &&& crate::geometry::lies_towards(a, b, 0, 1) <==> a.1 + a.3 <= b.1 && -y < x < y
            &&& crate::geometry::lies_towards(a, b, 0, -1) <==> b.1 + b.3 <= a.1 && y < x < -y
        }),
{
}

/// A pane lies in no more than one of the four directions from another.
pub proof fn law_one_direction(a: Rect, b: Rect, dx: int, dy: int, ex: int, ey: int)
    requires
        crate::geometry::lies_towards(a, b, dx, dy),
        crate::geometry::lies_towards(a, b, ex, ey),
    ensures
        dx == ex,
        dy == ey,
{
}

/// Panes of one row that begin one after the other lie right of each other, and
/// panes of one column below each other.
pub proof fn law_rows_and_columns(a: Rect, b: Rect)
    requires
        0 < a.2,
        0 < a.3,
        2 <= b.2,
        2 <= b.3,
    ensures
        a.1 == b.1 && a.3 == b.3 && a.0 + a.2 <= b.0 ==> crate::geometry::lies_towards(a, b, 1, 0)
            && crate::geometry::lies_towards(b, a, -1, 0),
        a.0 == b.0 && a.2 == b.2 && a.1 + a.3 <= b.1 ==> crate::geometry::lies_towards(a, b, 0, 1)
            && crate::geometry::lies_towards(b, a, 0, -1),
{
}

/// The distance of two panes is that of their centers, the same both ways: the
/// square of how far it is across and the square of how far it is down.
pub proof fn law_distance(a: Rect, b: Rect, x: int, y: int)
    requires
        0 <= a.2,
        0 <= a.3,
        0 <= b.2,
        0 <= b.3,
        x == (b.0 + b.2 / 2) - (a.0 + a.2 / 2),
        y == (b.1 + b.3 / 2) - (a.1 + a.3 / 2),
    ensures
        crate::geometry::distance2(a, b) == x * x + y * y,
        crate::geometry::distance2(b, a) == crate::geometry::distance2(a, b),
{
    assert((-x) * (-x) == x * x && (-y) * (-y) == y * y) by (nonlinear_arith);
}

/// Where the focus goes in a direction: to a pane that lies there, past which no
/// nearer one does, and of equally near ones to the first in visual order; and it
/// stays only where no pane lies there at all.
pub proof fn law_focus_goes_to_the_nearest(
    t: Tab,
    w: i32,
    h: i32,
    dx: int,
    dy: int,
    r: Option<u64>,
    from: Rect,
    j: int,
)
    requires
        t.wf(),
        crate::session::is_neighbour(t, w, h, dx, dy, r),
        t.tree.rect_of(t.active_pane, (0, 0, w, h)) == Some(from),
        0 <= j < t.tree.leaves().len(),
    ensures
        ({
            let panes = t.tree.layout((0, 0, w, h));
            &&& r is None ==> t.tree.leaves()[j] == t.active_pane
                || !crate::geometry::lies_towards(from, panes[j].1, dx, dy)
            &&& r matches Some(id) ==> id != t.active_pane && t.tree.leaves().contains(id) && (
            t.tree.rect_of(id, (0, 0, w, h)) matches Some(to) && crate::geometry::lies_towards(
                from,
                to,
                dx,
                dy,
            ) && (t.tree.leaves()[j] != t.active_pane && crate::geometry::lies_towards(
                from,
                panes[j].1,
                dx,
                dy,
            ) ==> crate::geometry::distance2(from, to) <= crate::geometry::distance2(
                from,
                panes[j].1,
            ) && (j < t.tree.leaves().index_of(id) ==> crate::geometry::distance2(from, to)
                < crate::geometry::distance2(from, panes[j].1))))
        }),
{
    let whole = (0i32, 0i32, w, h);
    let panes = t.tree.layout(whole);
    crate::geometry_laws::law_layout_has_the_panes(t.tree, whole);
    assert(t.tree.rect_of(t.active_pane, whole)->Some_0 == from);
    if r is None {
        assert(forall|i: int|
            !#[trigger] crate::geometry::is_candidate(panes, t.active_pane, from, dx, dy, i));
        assert(!crate::geometry::is_candidate(panes, t.active_pane, from, dx, dy, j));
    } else {
        let id = r->Some_0;
        let i = choose|i: int| #[trigger]
            crate::geometry::is_nearest_candidate(panes, t.active_pane, from, dx, dy, i) && id
                == panes[i].0;
        assert(crate::geometry::is_candidate(panes, t.active_pane, from, dx, dy, i));
        crate::geometry_laws::law_rect_is_layout(t.tree, whole, i);
        assert(t.tree.leaves()[i] == id);
        crate::tree::lemma_index_is(t.tree.leaves(), i);
        if t.tree.leaves()[j] != t.active_pane && crate::geometry::lies_towards(
            from,
            panes[j].1,
            dx,
            dy,
        ) {
            assert(crate::geometry::is_candidate(panes, t.active_pane, from, dx, dy, j));
        }
    }
}

/// The sides of a split and its divider lie in a row, or for a horizontal
/// divider in a column, from one end of the split to the other, each over the
/// split's whole height or width.
pub proof fn law_sides_in_a_row(vertical: bool, ratio: Ratio, r: Rect)
    requires
        ratio.wf(),
        crate::geometry::fits(1, r),
        2 <= r.2,
        2 <= r.3,
    ensures
        ({
            let (a, b, band) = crate::geometry::split_rects(vertical, ratio, r);
            &&& vertical ==> {
                &&& a.1 == r.1 && b.1 == r.1 && band.1 == r.1
                &&& a.3 == r.3 && b.3 == r.3 && band.3 == r.3
                &&& a.0 == r.0 && band.0 == a.0 + a.2 && b.0 == band.0 + 2 && band.2 == 2
                &&& b.0 + b.2 == r.0 + r.2
                &&& 0 <= a.2 && 0 <= b.2
            }
            &&& !vertical ==> {
                &&& a.0 == r.0 && b.0 == r.0 && band.0 == r.0
                &&& a.2 == r.2 && b.2 == r.2 && band.2 == r.2
                &&& a.1 == r.1 && band.1 == a.1 + a.3 && b.1 == band.1 + 2 && band.3 == 2
                &&& b.1 + b.3 == r.1 + r.3
                &&& 0 <= a.3 && 0 <= b.3
            }
        }),
{
    crate::ratio::lemma_share_of_pixels(ratio, r.2 - 2);
    crate::ratio::lemma_share_of_pixels(ratio, r.3 - 2);
}

/// Nothing in the layout prefers an axis: a tree with its dividers turned, laid
/// out in the turned box, has its panes and dividers where they were, turned.
pub proof fn law_layout_turns(n: Node, r: Rect)
    ensures
        n.layout(r).len() == turned_tree(n).layout(turned(r)).len(),
        forall|i: int|
            0 <= i < n.layout(r).len() ==> #[trigger] turned_tree(n).layout(turned(r))[i] == (
                n.layout(r)[i].0,
                turned(n.layout(r)[i].1),
            ),
        n.dividers(r).len() == turned_tree(n).dividers(turned(r)).len(),
        forall|i: int|
            0 <= i < n.dividers(r).len() ==> {
                let d = n.dividers(r)[i];
                #[trigger] turned_tree(n).dividers(turned(r))[i] == (
                    d.0,
                    !d.1,
                    turned(d.2),
                    turned(d.3),
                )
            },
    decreases n,
{
    if let Node::Split { id, vertical, ratio, a, b } = n {
        let m = turned_tree(n);
        let s = turned(r);
        let (ra, rb, band) = crate::geometry::split_rects(vertical, ratio, r);
        let (sa, sb, sband) = crate::geometry::split_rects(!vertical, ratio, s);
        assert(sa == turned(ra) && sb == turned(rb) && sband == turned(band));
        law_layout_turns(*a, ra);
        law_layout_turns(*b, rb);
        let k = a.layout(ra).len();
        assert forall|i: int| 0 <= i < n.layout(r).len() implies #[trigger] m.layout(s)[i] == (
            n.layout(r)[i].0,
            turned(n.layout(r)[i].1),
        ) by {
            if i < k {
                assert(m.layout(s)[i] == turned_tree(*a).layout(sa)[i]);
            } else {
                assert(m.layout(s)[i] == turned_tree(*b).layout(sb)[i - k]);
            }
        }
        let q = a.dividers(ra).len();
        assert forall|i: int| 0 <= i < n.dividers(r).len() implies ({
            let d = n.dividers(r)[i];
            #[trigger] m.dividers(s)[i] == (d.0, !d.1, turned(d.2), turned(d.3))
        }) by {
            if i == 0 {
            } else if i < 1 + q {
                assert(m.dividers(s)[i] == turned_tree(*a).dividers(sa)[i - 1]);
            } else {
                assert(m.dividers(s)[i] == turned_tree(*b).dividers(sb)[i - 1 - q]);
            }
        }
    }
}

/// Every split has room for its divider.
pub open spec fn roomy(n: Node, r: Rect) -> bool
    decreases n,
{
    match n {
        Node::Split { vertical, ratio, a, b, .. } => {
            let (ra, rb, _) = crate::geometry::split_rects(vertical, ratio, r);
            &&& 2 <= crate::geometry_laws::extent(vertical, r)
            &&& roomy(*a, ra)
            &&& roomy(*b, rb)
        },
        _ => true,
    }
}

/// Divider bands stay inside the box.
pub proof fn law_bands_inside(n: Node, r: Rect, i: int, px: int, py: int)
    requires
        n.shares_ok(),
        crate::geometry::fits(n.depth(), r),
        roomy(n, r),
        0 <= i < n.dividers(r).len(),
        crate::geometry_laws::pixel_in(n.dividers(r)[i].3, px, py),
    ensures
        crate::geometry_laws::pixel_in(r, px, py),
    decreases n,
{
    crate::geometry_laws::lemma_sides_fit(n, r);
    if let Node::Split { vertical, ratio, a, b, .. } = n {
        let (ra, rb, _) = crate::geometry::split_rects(vertical, ratio, r);
        crate::geometry_laws::law_split_tiles(vertical, ratio, r, px, py);
        let free = crate::geometry_laws::extent(vertical, r) - DIV;
        crate::ratio::lemma_share_of_pixels(ratio, free);
        let q = a.dividers(ra).len();
        if 1 <= i < 1 + q {
            law_bands_inside(*a, ra, i - 1, px, py);
        } else if i >= 1 + q {
            law_bands_inside(*b, rb, i - 1 - q, px, py);
        }
    }
}

/// No pixel of a divider band belongs to a pane.
pub proof fn law_bands_between_panes(n: Node, r: Rect, i: int, j: int, px: int, py: int)
    requires
        n.shares_ok(),
        crate::geometry::fits(n.depth(), r),
        roomy(n, r),
        0 <= i < n.dividers(r).len(),
        0 <= j < n.layout(r).len(),
        crate::geometry_laws::pixel_in(n.dividers(r)[i].3, px, py),
    ensures
        !crate::geometry_laws::pixel_in(n.layout(r)[j].1, px, py),
    decreases n,
{
    crate::geometry_laws::lemma_sides_fit(n, r);
    if let Node::Split { vertical, ratio, a, b, .. } = n {
        let (ra, rb, _) = crate::geometry::split_rects(vertical, ratio, r);
        crate::geometry_laws::law_split_tiles(vertical, ratio, r, px, py);
        let k = a.layout(ra).len();
        let q = a.dividers(ra).len();
        if 1 <= i < 1 + q {
            law_bands_inside(*a, ra, i - 1, px, py);
        } else if i >= 1 + q {
            law_bands_inside(*b, rb, i - 1 - q, px, py);
        }
        if crate::geometry_laws::pixel_in(n.layout(r)[j].1, px, py) {
            if j < k {
                crate::geometry_laws::law_panes_inside(*a, ra, j, px, py);
                if 1 <= i < 1 + q {
                    law_bands_between_panes(*a, ra, i - 1, j, px, py);
                }
            } else {
                crate::geometry_laws::law_panes_inside(*b, rb, j - k, px, py);
                if i >= 1 + q {
                    law_bands_between_panes(*b, rb, i - 1 - q, j - k, px, py);
                }
            }
        }
    }
}

/// A point touches a divider exactly where some pixel of the divider's band is
/// no more than three pixels away from it across and down.
pub proof fn law_touching(d: Divider, x: int, y: int)
    requires
        0 < d.3.2,
        0 < d.3.3,
    ensures
        crate::dividers::touches(d, x, y) <==> exists|px: int, py: int| #[trigger]
            crate::geometry_laws::pixel_in(d.3, px, py) && px - 3 <= x <= px + 3 && py - 3 <= y
                <= py + 3,
{
    let b = d.3;
    let px = if x < b.0 {
        b.0 as int
    } else if x >= b.0 + b.2 {
        b.0 + b.2 - 1
    } else {
        x
    };
    let py = if y < b.1 {
        b.1 as int
    } else if y >= b.1 + b.3 {
        b.1 + b.3 - 1
    } else {
        y
    };
    assert(crate::geometry_laws::pixel_in(b, px, py));
}

/// A point that touches some divider touches the first such one of the list, and
/// only then a divider is touched.
pub proof fn law_first_touched(ds: Seq<Divider>, x: int, y: int)
    ensures
        match crate::dividers::touched(ds, x, y) {
            None => forall|i: int|
                0 <= i < ds.len() ==> !crate::dividers::touches(#[trigger] ds[i], x, y),
            Some((id, vertical)) => exists|i: int|
                0 <= i < ds.len() && (#[trigger] ds[i]).0 == id && ds[i].1 == vertical
                    && crate::dividers::touches(ds[i], x, y) && forall|j: int|
                    0 <= j < i ==> !crate::dividers::touches(#[trigger] ds[j], x, y),
        },
    decreases ds.len(),
{
    if ds.len() > 0 && !crate::dividers::touches(ds[0], x, y) {
        let rest = ds.skip(1);
        law_first_touched(rest, x, y);
        match crate::dividers::touched(rest, x, y) {
            None => {
                assert forall|i: int| 0 <= i < ds.len() implies !crate::dividers::touches(
                    #[trigger] ds[i],
                    x,
                    y,
                ) by {
                    if i > 0 {
                        assert(rest[i - 1] == ds[i]);
                    }
                }
            },
            Some((id, vertical)) => {
                let i = choose|i: int|
                    0 <= i < rest.len() && (#[trigger] rest[i]).0 == id && rest[i].1 == vertical
                        && crate::dividers::touches(rest[i], x, y) && forall|j: int|
                        0 <= j < i ==> !crate::dividers::touches(#[trigger] rest[j], x, y);
                assert(ds[i + 1] == rest[i]);
                assert forall|j: int| 0 <= j < i + 1 implies !crate::dividers::touches(
                    #[trigger] ds[j],
                    x,
                    y,
                ) by {
                    if j > 0 {
                        assert(rest[j - 1] == ds[j]);
                    }
                }
            },
        }
    }
}

/// A vertical divider shows the cursor for moving sideways, a horizontal one
/// that for moving up and down.
pub proof fn law_resize_cursors()
    ensures
        crate::dividers::resize_cursor(true) == 6,
        crate::dividers::resize_cursor(false) == 5,
{
}

/// A share `a / t` of the `t` pixels it was taken of is `a` pixels, or one less
/// where rounding falls short.
pub proof fn law_share_of_its_own_space(share: Ratio, a: int, t: int)
    requires
        share.wf(),
        share.is_quotient(a, t),
        0 < a <= t <= 0x8000_0000,
    ensures
        a - 1 <= share.of_pixels(t) <= a,
{
    let mant = share.mant() as int;
    let unit = share.unit() as int;
    let p = t * mant;
    let u = crate::ratio::ulp(p as nat) as int;
    let v = crate::ratio::round53(p as nat);
    assert(0 <= p <= t * unit) by (nonlinear_arith)
        requires
            p == t * mant,
            0 < t,
            0 <= mant <= unit,
    ;
    crate::ratio::lemma_ulp(p as nat);
    crate::ratio::lemma_nearest_error(a * unit, t);
    crate::ratio::lemma_nearest_error(p, u);
    assert(unit >= LOW) by (nonlinear_arith)
        requires
            t * LOW <= a * unit,
            0 < a <= t,
    ;
    assert(p == mant * t) by (nonlinear_arith)
        requires
            p == t * mant,
    ;
    assert(-t <= 2 * (p - a * unit) <= t);
    assert(v == crate::ratio::nearest(p, u) * u);
    assert(-u <= 2 * (v - p) <= u);
    assert(4 * u <= unit) by {
        if u > 1 {
            assert(LOW * u <= t * unit);
            assert(t * unit <= 0x8000_0000 * unit) by (nonlinear_arith)
                requires
                    t <= 0x8000_0000,
                    0 < unit,
            ;
        }
    }
    assert(-unit < v - a * unit < unit);
    let w = v / unit;
    let wr = v % unit;
    vstd::arithmetic::div_mod::lemma_fundamental_div_mod(v, unit);
    assert(a - 1 <= w <= a) by (nonlinear_arith)
        requires
            -unit < v - a * unit < unit,
            v == unit * w + wr,
            0 <= wr < unit,
    ;
}

/// The divider found by its id is the one in the list, and setting its share
/// moves its band inside the same split.
proof fn lemma_divider_entry(n: Node, r: Rect, i: int, share: Ratio)
    requires
        n.divider_ids().no_duplicates(),
        0 <= i < n.dividers(r).len(),
    ensures
        ({
            let d = n.dividers(r)[i];
            let m = n.with_share(d.0, share);
            &&& n.divider(d.0, r) == Some((d.1, d.2))
            &&& m.dividers(r).len() == n.dividers(r).len()
            &&& m.dividers(r)[i] == (
                d.0,
                d.1,
                d.2,
                crate::geometry::split_rects(d.1, share, d.2).2,
            )
        }),
    decreases n,
{
    if let Node::Split { id: d0, vertical, ratio, a, b } = n {
        let (ra, rb, _) = crate::geometry::split_rects(vertical, ratio, r);
        let id = n.dividers(r)[i].0;
        let m = n.with_share(id, share);
        let (sa, sb) = (a.divider_ids(), b.divider_ids());
        crate::tree_laws::lemma_three(d0, sa, sb);
        crate::geometry_laws::law_dividers_of_tree(*a, ra);
        crate::geometry_laws::law_dividers_of_tree(*b, rb);
        crate::geometry_laws::law_dividers_of_tree(n, r);
        crate::tree_laws::law_drag_keeps_tree(n, id, share);
        crate::geometry_laws::law_dividers_of_tree(m, r);
        let q = a.dividers(ra).len();
        if 1 <= i < 1 + q {
            assert(a.dividers(ra)[i - 1] == n.dividers(r)[i]);
            assert(sa[i - 1] == id);
            assert(sa.contains(id));
            lemma_divider_entry(*a, ra, i - 1, share);
            assert(m.dividers(r)[i] == a.with_share(id, share).dividers(ra)[i - 1]);
        } else if i >= 1 + q {
            assert(b.dividers(rb)[i - 1 - q] == n.dividers(r)[i]);
            assert(sb[i - 1 - q] == id);
            assert(sb.contains(id));
            assert(!sa.contains(id));
            assert(a.divider(id, ra) is None);
            lemma_divider_entry(*b, rb, i - 1 - q, share);
            assert(m.dividers(r)[i] == b.with_share(id, share).dividers(rb)[i - 1 - q]);
        }
    }
}

/// A divider's split is a rectangle of the pixel range.
proof fn lemma_split_in_range(n: Node, r: Rect, i: int)
    requires
        n.shares_ok(),
        crate::geometry::fits(n.depth(), r),
        0 <= i < n.dividers(r).len(),
    ensures
        crate::geometry::fits(1, n.dividers(r)[i].2),
    decreases n,
{
    crate::geometry_laws::lemma_sides_fit(n, r);
    if let Node::Split { vertical, ratio, a, b, .. } = n {
        let (ra, rb, _) = crate::geometry::split_rects(vertical, ratio, r);
        let q = a.dividers(ra).len();
        if 1 <= i < 1 + q {
            lemma_split_in_range(*a, ra, i - 1);
        } else if i >= 1 + q {
            lemma_split_in_range(*b, rb, i - 1 - q);
        }
    }
}

/// A dragged divider goes to the mouse: its band then begins at the point, or one
/// pixel before it, along the divider's own axis, x for a vertical divider and y
/// for a horizontal one. From a point that is nearer to an end of the space than
/// a twentieth of it, the divider stays a twentieth, or a pixel less, away from
/// that end.
pub proof fn law_divider_follows_the_mouse(
    before: Tab,
    after: Tab,
    id: u64,
    x: int,
    y: int,
    w: i32,
    h: i32,
    i: int,
)
    requires
        before.wf(),
        crate::geometry::fits(before.tree.depth(), (0, 0, w, h)),
        crate::dividers::is_dragged(before, after, id, x, y, w, h),
        0 <= i < before.tree.dividers((0, 0, w, h)).len(),
        before.tree.dividers((0, 0, w, h))[i].0 == id,
    ensures
        after.tree.dividers((0, 0, w, h)).len() == before.tree.dividers((0, 0, w, h)).len(),
        ({
            let d = before.tree.dividers((0, 0, w, h))[i];
            let e = after.tree.dividers((0, 0, w, h))[i];
            let (left, top, wide, high) = (d.2.0, d.2.1, d.2.2 - 2, d.2.3 - 2);
            &&& e.0 == id && e.1 == d.1 && e.2 == d.2
            &&& d.1 && 0 < wide ==> {
                &&& wide <= 20 * (x - left) <= 19 * wide ==> x - 1 <= e.3.0 <= x
                &&& 20 * (x - left) < wide ==> wide / 20 - 1 <= e.3.0 - left <= wide / 20
                &&& 20 * (x - left) > 19 * wide ==> wide * 19 / 20 - 1 <= e.3.0 - left <= wide * 19
                    / 20
            }
            &&& !d.1 && 0 < high ==> {
                &&& high <= 20 * (y - top) <= 19 * high ==> y - 1 <= e.3.1 <= y
                &&& 20 * (y - top) < high ==> high / 20 - 1 <= e.3.1 - top <= high / 20
                &&& 20 * (y - top) > 19 * high ==> high * 19 / 20 - 1 <= e.3.1 - top <= high * 19
                    / 20
            }
        }),
{
    let whole = (0i32, 0i32, w, h);
    let d = before.tree.dividers(whole)[i];
    lemma_divider_entry(before.tree, whole, i, arbitrary());
    lemma_split_in_range(before.tree, whole, i);
    let n = crate::dividers::drag_offset(d.1, d.2, x, y);
    let len = crate::dividers::drag_length(d.1, d.2);
    let share = choose|share: Ratio| #[trigger]
        share.is_drag_share(n, len) && share.wf() && after.tree == before.tree.with_share(id, share);
    lemma_divider_entry(before.tree, whole, i, share);
    let free = if d.1 {
        d.2.2 - 2
    } else {
        d.2.3 - 2
    };
    let off = if d.1 {
        x - d.2.0
    } else {
        y - d.2.1
    };
    if 0 < free {
        assert(n == off && len == free);
        crate::ratio::lemma_share_of_pixels(share, free);
        if 20 * off <= free {
            crate::geometry_laws::law_share_is_fair(share, 1, 20, free);
        } else if 20 * off >= 19 * free {
            crate::geometry_laws::law_share_is_fair(share, 19, 20, free);
        } else {
            law_share_of_its_own_space(share, off, free);
        }
        assert(after.tree.dividers(whole)[i].3 == crate::geometry::split_rects(d.1, share, d.2).2);
    }
}

/// Dragging a divider changes its own share and nothing else in the tab.
pub proof fn law_drag_moves_one_divider(
    before: Tab,
    after: Tab,
    id: u64,
    x: int,
    y: int,
    w: i32,
    h: i32,
    s: Node,
)
    requires
        before.wf(),
        crate::dividers::is_dragged(before, after, id, x, y, w, h),
        crate::surgery_laws::within(before.tree, s),
        s matches Node::Split { id: d, .. } && d == id,
    ensures
        after.panes@ == before.panes@,
        after.active_pane == before.active_pane,
        s matches Node::Split { vertical, a, b, .. } ==> exists|share: Ratio|
            #![trigger share.wf()]
            share.wf() && after.tree == crate::surgery_laws::exchanged(
                before.tree,
                s,
                (Node::Split { id, vertical, ratio: share, a, b }),
            ),
{
    if let Node::Split { vertical, ratio, a, b, .. } = s {
        let share = match before.tree.divider(id, (0, 0, w, h)) {
            Some((v, r)) => choose|share: Ratio| #[trigger]
                share.is_drag_share(
                    crate::dividers::drag_offset(v, r, x, y),
                    crate::dividers::drag_length(v, r),
                ) && share.wf() && after.tree == before.tree.with_share(id, share),
            None => ratio,
        };
        crate::surgery_laws::law_share_at_one_place(before.tree, s, share);
        crate::geometry_laws::law_dividers_of_tree(before.tree, (0, 0, w, h));
        crate::surgery_laws::lemma_own_divider(before.tree, s, id);
        assert(before.tree.divider(id, (0, 0, w, h)) is Some);
        assert(share.wf());
    }
}

/// A left press near a divider takes hold of it and moves it to the mouse, under
/// the cursor of its axis; while it is held every movement moves it; a release
/// lets go, gives the focus back to the active pane and shows the arrow. What
/// concerns no divider is left alone.
pub proof fn law_divider_presses(
    before: App,
    after: App,
    drag: Option<u64>,
    dragged: Option<u64>,
    m: MouseEvent,
    w: i32,
    h: i32,
    r: DividerOutcome,
)
    requires
        crate::dividers::divider_answer(before, after, drag, dragged, m, w, h, r),
    ensures
        ({
            let t = before.tabs@[before.active as int];
            let u = after.tabs@[before.active as int];
            let (x, y) = (m.x as int, m.y as int);
            let near = crate::dividers::touched(t.tree.dividers((0, 0, w, h)), x, y);
            &&& m.kind is Press && m.button == 1 && near is Some ==> {
                &&& dragged == Some(near->Some_0.0)
                &&& r.consumed && r.moved
                &&& r.cursor == Some(
                    if near->Some_0.1 {
                        6i32
                    } else {
                        5i32
                    },
                )
                &&& crate::dividers::is_dragged(t, u, near->Some_0.0, x, y, w, h)
            }
            &&& m.kind is Move && drag is Some ==> {
                &&& dragged == drag
                &&& r.consumed && r.moved
                &&& crate::dividers::is_dragged(t, u, drag->Some_0, x, y, w, h)
            }
            &&& m.kind is Release && drag is Some ==> {
                &&& dragged is None
                &&& r.consumed && !r.moved
                &&& r.focus == Some(t.active_pane) && r.cursor == Some(0i32)
            }
            &&& m.kind is Release ==> dragged is None || dragged == drag
            &&& !(m.kind is Move || m.kind is Release) && (m.button != 1 || near is None || !(
            m.kind is Press)) || (!(m.kind is Press) && drag is None) ==> {
                &&& !r.consumed && !r.moved && r.focus is None && r.cursor is None
                &&& dragged == drag && after.tabs@ == before.tabs@
            }
        }),
{
}

} // verus!
