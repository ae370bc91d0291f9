//! Laws of the pane layout: panes and dividers tile the box, a pane has one
//! place, and shares come out as the pixels they stand for.
use crate::geometry::{Divider, Rect, DIV};
use crate::ratio::{Ratio, HIGH, LOW};
use crate::tree::Node;
use vstd::prelude::*;

verus! {

/// Pixel (px, py) belongs to `r`.
pub open spec fn pixel_in(r: Rect, px: int, py: int) -> bool {
    r.0 <= px < r.0 + r.2 && r.1 <= py < r.1 + r.3
}

/// The two sides of a split lie inside it and share no pixel, and each of its
/// pixels belongs to a side or to the divider.
pub proof fn law_split_tiles(vertical: bool, ratio: Ratio, r: Rect, px: int, py: int)
    requires
        ratio.wf(),
        crate::geometry::fits(1, r),
    ensures
        ({
            let (a, b, band) = crate::geometry::split_rects(vertical, ratio, r);
            &&& pixel_in(a, px, py) ==> pixel_in(r, px, py)
            &&& pixel_in(b, px, py) ==> pixel_in(r, px, py)
            &&& !(pixel_in(a, px, py) && pixel_in(b, px, py))
            &&& !(pixel_in(a, px, py) && pixel_in(band, px, py))
            &&& !(pixel_in(b, px, py) && pixel_in(band, px, py))
            &&& pixel_in(r, px, py) ==> pixel_in(a, px, py) || pixel_in(band, px, py) || pixel_in(
                b,
                px,
                py,
            )
        }),
{
    let along = if vertical {
        r.2 - DIV
    } else {
        r.3 - DIV
    };
    let free = crate::geometry::at_least_0(along);
    crate::ratio::lemma_share_of_pixels(ratio, free);
}

pub proof fn lemma_sides_fit(n: Node, r: Rect)
    requires
        n.shares_ok(),
        crate::geometry::fits(n.depth(), r),
    ensures
        n matches Node::Split { vertical, ratio, a, b, .. } ==> {
            let (ra, rb, _) = crate::geometry::split_rects(vertical, ratio, r);
            &&& crate::geometry::fits(1, r)
            &&& crate::geometry::fits(a.depth(), ra)
            &&& crate::geometry::fits(b.depth(), rb)
        },
{
    if let Node::Split { vertical, ratio, a, b, .. } = n {
        let along = if vertical {
            r.2 - DIV
        } else {
            r.3 - DIV
        };
        crate::ratio::lemma_share_of_pixels(ratio, crate::geometry::at_least_0(along));
    }
}

/// Panes stay inside the box.
pub proof fn law_panes_inside(n: Node, r: Rect, i: int, px: int, py: int)
    requires
        n.shares_ok(),
        crate::geometry::fits(n.depth(), r),
        0 <= i < n.layout(r).len(),
        pixel_in(n.layout(r)[i].1, px, py),
    ensures
        pixel_in(r, px, py),
    decreases n,
{
    lemma_sides_fit(n, r);
    if let Node::Split { vertical, ratio, a, b, .. } = n {
        let (ra, rb, _) = crate::geometry::split_rects(vertical, ratio, r);
        law_split_tiles(vertical, ratio, r, px, py);
        if i < a.layout(ra).len() {
            law_panes_inside(*a, ra, i, px, py);
        } else {
            law_panes_inside(*b, rb, i - a.layout(ra).len(), px, py);
        }
    }
}

/// No pixel belongs to two panes.
pub proof fn law_panes_disjoint(n: Node, r: Rect, i: int, j: int, px: int, py: int)
    requires
        n.shares_ok(),
        crate::geometry::fits(n.depth(), r),
        0 <= i < n.layout(r).len(),
        0 <= j < n.layout(r).len(),
        pixel_in(n.layout(r)[i].1, px, py),
        pixel_in(n.layout(r)[j].1, px, py),
    ensures
        i == j,
    decreases n,
{
    lemma_sides_fit(n, r);
    if let Node::Split { vertical, ratio, a, b, .. } = n {
        let (ra, rb, _) = crate::geometry::split_rects(vertical, ratio, r);
        law_split_tiles(vertical, ratio, r, px, py);
        let k = a.layout(ra).len();
        if i < k {
            law_panes_inside(*a, ra, i, px, py);
        } else {
            law_panes_inside(*b, rb, i - k, px, py);
        }
        if j < k {
            law_panes_inside(*a, ra, j, px, py);
        } else {
            law_panes_inside(*b, rb, j - k, px, py);
        }
        if i < k && j < k {
            law_panes_disjoint(*a, ra, i, j, px, py);
        } else if i >= k && j >= k {
            law_panes_disjoint(*b, rb, i - k, j - k, px, py);
        }
    }
}

/// Pixel (px, py) belongs to a pane or to a divider band.
pub open spec fn covered(panes: Seq<(u64, Rect)>, dividers: Seq<Divider>, px: int, py: int) -> bool {
    ||| exists|i: int| 0 <= i < panes.len() && pixel_in((#[trigger] panes[i]).1, px, py)
    ||| exists|i: int| 0 <= i < dividers.len() && pixel_in((#[trigger] dividers[i]).3, px, py)
}

/// Panes and divider bands together leave no pixel of the box out.
pub proof fn law_box_covered(n: Node, r: Rect, px: int, py: int)
    requires
        n.filled(),
        n.shares_ok(),
        crate::geometry::fits(n.depth(), r),
        pixel_in(r, px, py),
    ensures
        covered(n.layout(r), n.dividers(r), px, py),
    decreases n,
{
    lemma_sides_fit(n, r);
    match n {
        Node::Empty => {},
        Node::Leaf(_) => {
            assert(n.layout(r)[0].1 == r);
        },
        Node::Split { id, vertical, ratio, a, b } => {
            let (ra, rb, band) = crate::geometry::split_rects(vertical, ratio, r);
            law_split_tiles(vertical, ratio, r, px, py);
            let (la, lb) = (a.layout(ra), b.layout(rb));
            let (da, db) = (a.dividers(ra), b.dividers(rb));
            let all = n.dividers(r);
            if pixel_in(band, px, py) {
                assert(all[0].3 == band);
            } else if pixel_in(ra, px, py) {
                law_box_covered(*a, ra, px, py);
                if exists|i: int| 0 <= i < la.len() && pixel_in((#[trigger] la[i]).1, px, py) {
                    let i = choose|i: int|
                        0 <= i < la.len() && pixel_in((#[trigger] la[i]).1, px, py);
                    assert(n.layout(r)[i] == la[i]);
                } else {
                    let i = choose|i: int|
                        0 <= i < da.len() && pixel_in((#[trigger] da[i]).3, px, py);
                    assert(all[1 + i] == da[i]);
                }
            } else {
                law_box_covered(*b, rb, px, py);
                if exists|i: int| 0 <= i < lb.len() && pixel_in((#[trigger] lb[i]).1, px, py) {
                    let i = choose|i: int|
                        0 <= i < lb.len() && pixel_in((#[trigger] lb[i]).1, px, py);
                    assert(n.layout(r)[la.len() + i] == lb[i]);
                } else {
                    let i = choose|i: int|
                        0 <= i < db.len() && pixel_in((#[trigger] db[i]).3, px, py);
                    assert(all[1 + da.len() + i] == db[i]);
                }
            }
        },
    }
}

/// The layout has exactly the panes of the tree, in visual order.
pub proof fn law_layout_has_the_panes(n: Node, r: Rect)
    ensures
        n.layout(r).len() == n.leaves().len(),
        forall|i: int|
            0 <= i < n.leaves().len() ==> (#[trigger] n.layout(r)[i]).0 == n.leaves()[i],
    decreases n,
{
    if let Node::Split { vertical, ratio, a, b, .. } = n {
        let (ra, rb, _) = crate::geometry::split_rects(vertical, ratio, r);
        law_layout_has_the_panes(*a, ra);
        law_layout_has_the_panes(*b, rb);
    }
}

/// A pane has a rectangle exactly when the tree holds it.
pub proof fn law_rect_iff_pane(n: Node, id: u64, r: Rect)
    ensures
        n.rect_of(id, r) is Some <==> n.leaves().contains(id),
    decreases n,
{
    match n {
        Node::Empty => {},
        Node::Leaf(i) => {
            assert(n.leaves()[0] == i);
        },
        Node::Split { vertical, ratio, a, b, .. } => {
            let (ra, rb, _) = crate::geometry::split_rects(vertical, ratio, r);
            crate::tree::lemma_contains_add(a.leaves(), b.leaves(), id);
            law_rect_iff_pane(*a, id, ra);
            law_rect_iff_pane(*b, id, rb);
        },
    }
}

/// The rectangle found for one pane is the one that laying out all panes gives
/// it.
pub proof fn law_rect_is_layout(n: Node, r: Rect, i: int)
    requires
        n.leaves().no_duplicates(),
        0 <= i < n.leaves().len(),
    ensures
        n.rect_of(n.leaves()[i], r) == Some(n.layout(r)[i].1),
    decreases n,
{
    law_layout_has_the_panes(n, r);
    if let Node::Split { vertical, ratio, a, b, .. } = n {
        let (ra, rb, _) = crate::geometry::split_rects(vertical, ratio, r);
        let (sa, sb) = (a.leaves(), b.leaves());
        law_layout_has_the_panes(*a, ra);
        law_layout_has_the_panes(*b, rb);
        law_rect_iff_pane(*a, n.leaves()[i], ra);
        assert(sa.no_duplicates()) by {
            assert forall|x: int, y: int| 0 <= x < sa.len() && 0 <= y < sa.len() && x != y implies sa[x]
                != sa[y] by {
                assert((sa + sb)[x] == sa[x] && (sa + sb)[y] == sa[y]);
            }
        }
        assert(sb.no_duplicates()) by {
            assert forall|x: int, y: int| 0 <= x < sb.len() && 0 <= y < sb.len() && x != y implies sb[x]
                != sb[y] by {
                assert((sa + sb)[sa.len() + x] == sb[x] && (sa + sb)[sa.len() + y] == sb[y]);
            }
        }
        if i < sa.len() {
            law_rect_is_layout(*a, ra, i);
            assert(sa.contains(sa[i]));
        } else {
            law_rect_is_layout(*b, rb, i - sa.len());
            if sa.contains(n.leaves()[i]) {
                let k = choose|k: int| 0 <= k < sa.len() && sa[k] == n.leaves()[i];
                assert((sa + sb)[k] == (sa + sb)[i]);
            }
        }
    }
}

/// The dividers laid out are those of the tree, in order, and each can be
/// found by its id.
pub proof fn law_dividers_of_tree(n: Node, r: Rect)
    ensures
        n.dividers(r).len() == n.divider_ids().len(),
        forall|i: int|
            0 <= i < n.divider_ids().len() ==> (#[trigger] n.dividers(r)[i]).0
                == n.divider_ids()[i],
        forall|id: u64| #[trigger] n.divider(id, r) is Some <==> n.divider_ids().contains(id),
    decreases n,
{
    if let Node::Split { id: d, vertical, ratio, a, b } = n {
        let (ra, rb, _) = crate::geometry::split_rects(vertical, ratio, r);
        law_dividers_of_tree(*a, ra);
        law_dividers_of_tree(*b, rb);
        assert forall|id: u64| #[trigger] n.divider(id, r) is Some <==> n.divider_ids().contains(
            id,
        ) by {
            crate::tree::lemma_contains_add(seq![d] + a.divider_ids(), b.divider_ids(), id);
            crate::tree::lemma_contains_add(seq![d], a.divider_ids(), id);
            assert(seq![d][0] == d);
            assert(a.divider(id, ra) is Some <==> a.divider_ids().contains(id));
            assert(b.divider(id, rb) is Some <==> b.divider_ids().contains(id));
        }
    }
}

/// A share `a / t` of `px` pixels comes out as the whole part of `px * a / t`,
/// or one pixel less where rounding falls short of an exact division.
pub proof fn law_share_is_fair(r: Ratio, a: int, t: int, px: int)
    requires
        r.wf(),
        0 < a <= t,
        0 <= px,
        px * t <= 0x8_0000_0000_0000,
        r.is_quotient(a, t),
    ensures
        px * a / t - 1 <= r.of_pixels(px) <= px * a / t,
{
    let mant = r.mant() as int;
    let unit = r.unit() as int;
    let p = px * mant;
    let x = px * a;
    assert(0 <= p <= px * unit) by (nonlinear_arith)
        requires
            p == px * mant,
            0 <= px,
            0 <= mant <= unit,
    ;
    let u = crate::ratio::ulp(p as nat) as int;
    let v = crate::ratio::round53(p as nat);
    crate::ratio::lemma_ulp(p as nat);
    crate::ratio::lemma_nearest_error(a * unit, t);
    crate::ratio::lemma_nearest_error(p, u);
    // unit is at least 2^52
    assert(unit >= LOW) by (nonlinear_arith)
        requires
            t * LOW <= a * unit,
            0 < a <= t,
    ;
    // 2 * |mant * t - a * unit| <= t, scaled by px
    assert(-(px * t) <= 2 * (p * t - x * unit) <= px * t) by (nonlinear_arith)
        requires
            p == px * mant,
            x == px * a,
            0 <= px,
            -t <= 2 * (mant * t - a * unit) <= t,
    ;
    // 2 * |v - p| <= u, scaled by t
    assert(v == crate::ratio::nearest(p, u) * u);
    assert(-(t * u) <= 2 * (v * t - p * t) <= t * u) by (nonlinear_arith)
        requires
            -u <= 2 * (v - p) <= u,
            0 < t,
    ;
    // both errors together stay below unit
    assert(2 * (px * t) <= unit);
    assert(px > 0 ==> 2 * (t * u) <= unit) by {
        if u > 1 {
            assert(LOW * u <= px * unit);
            assert(LOW * (t * u) <= (px * t) * unit) by (nonlinear_arith)
                requires
                    LOW * u <= px * unit,
                    0 < t,
            ;
            assert(2 * (px * t) * unit <= LOW * unit) by (nonlinear_arith)
                requires
                    2 * (px * t) <= LOW,
                    0 < unit,
            ;
            assert(2 * (t * u) <= unit) by (nonlinear_arith)
                requires
                    LOW * (t * u) <= (px * t) * unit,
                    2 * (px * t) * unit <= LOW * unit,
            ;
        } else if px > 0 {
            assert(t * u == t) by (nonlinear_arith)
                requires
                    u == 1,
            ;
            assert(t <= px * t) by (nonlinear_arith)
                requires
                    0 < px,
                    0 < t,
            ;
        }
    }
    if px == 0 {
        assert(p == 0) by (nonlinear_arith)
            requires
                p == px * mant,
                px == 0,
        ;
        assert(v == 0);
        assert(x == 0) by (nonlinear_arith)
            requires
                x == px * a,
                px == 0,
        ;
        assert(0int / unit == 0) by (nonlinear_arith)
            requires
                unit > 0,
        ;
        assert(0int / t == 0) by (nonlinear_arith)
            requires
                t > 0,
        ;
    } else {
        assert(-unit <= 2 * (v * t - x * unit) <= unit);
        let q = x / t;
        let rem = x % t;
        vstd::arithmetic::div_mod::lemma_fundamental_div_mod(x, t);
        let w = v / unit;
        let wr = v % unit;
        vstd::arithmetic::div_mod::lemma_fundamental_div_mod(v, unit);
        assert(w <= q) by (nonlinear_arith)
            requires
                2 * (v * t - x * unit) <= unit,
                v == unit * w + wr,
                0 <= wr,
                x == t * q + rem,
                0 <= rem < t,
                0 < unit,
                0 < t,
        ;
        assert(q - 1 <= w) by (nonlinear_arith)
            requires
                -unit <= 2 * (v * t - x * unit),
                v == unit * w + wr,
                0 <= wr < unit,
                x == t * q + rem,
                0 <= rem,
                0 < unit,
                0 < t,
        ;
    }
}

/// Extent of a rectangle across dividers of an axis.
pub open spec fn extent(vertical: bool, r: Rect) -> int {
    if vertical {
        r.2 as int
    } else {
        r.3 as int
    }
}

/// The extents of the slots of a strip: of its panes and of whatever is split
/// along the other axis, in order.
pub open spec fn slots(n: Node, vertical: bool, r: Rect) -> Seq<int>
    decreases n,
{
    match n {
        Node::Empty => seq![],
        Node::Leaf(_) => seq![extent(vertical, r)],
        Node::Split { vertical: v, ratio, a, b, .. } => if v == vertical {
            let (ra, rb, _) = crate::geometry::split_rects(v, ratio, r);
            slots(*a, vertical, ra) + slots(*b, vertical, rb)
        } else {
            seq![extent(vertical, r)]
        },
    }
}

/// The slots of a balanced strip share its space equally: each of `N` slots has
/// an `N`th of the space, but for at most three pixels less and two pixels more
/// per split on the way to it, which dividers and whole pixels cost.
pub proof fn law_equal_slots(n: Node, vertical: bool, r: Rect, i: int)
    requires
        n.filled(),
        n.shares_ok(),
        n.equalized(vertical, n),
        crate::geometry::fits(n.depth(), r),
        0 <= extent(vertical, r),
        n.units(vertical) * extent(vertical, r) <= 0x8_0000_0000_0000,
        0 <= i < slots(n, vertical, r).len(),
    ensures
        slots(n, vertical, r).len() == n.units(vertical),
        n.units(vertical) * (slots(n, vertical, r)[i] + 3 * n.depth()) >= extent(vertical, r),
        n.units(vertical) * (slots(n, vertical, r)[i] - 2 * n.depth()) <= extent(vertical, r),
{
    lemma_equal_slots(n, vertical, r);
}

proof fn lemma_equal_slots(n: Node, vertical: bool, r: Rect)
    requires
        n.filled(),
        n.shares_ok(),
        n.equalized(vertical, n),
        crate::geometry::fits(n.depth(), r),
        0 <= extent(vertical, r),
        n.units(vertical) * extent(vertical, r) <= 0x8_0000_0000_0000,
    ensures
        n.units(vertical) >= 1,
        slots(n, vertical, r).len() == n.units(vertical),
        forall|i: int|
            0 <= i < slots(n, vertical, r).len() ==> {
                let e = #[trigger] slots(n, vertical, r)[i];
                &&& n.units(vertical) * (e + 3 * n.depth()) >= extent(vertical, r)
                &&& n.units(vertical) * (e - 2 * n.depth()) <= extent(vertical, r)
            },
    decreases n,
{
    let x = extent(vertical, r);
    match n {
        Node::Empty => {},
        Node::Leaf(_) => {
            assert(slots(n, vertical, r) =~= seq![x]);
            lemma_one_slot(n.units(vertical) as int, x, n.depth() as int);
        },
        Node::Split { vertical: v, ratio, a, b, .. } => {
            if v == vertical {
                let (ra, rb, _) = crate::geometry::split_rects(v, ratio, r);
                crate::tree_laws::lemma_filled_units(*a, vertical);
                crate::tree_laws::lemma_filled_units(*b, vertical);
                let (ua, ub) = (a.units(vertical) as int, b.units(vertical) as int);
                let u = ua + ub;
                let f = crate::geometry::at_least_0(x - DIV);
                let (xa, xb) = (extent(vertical, ra), extent(vertical, rb));
                assert(f * u <= 0x8_0000_0000_0000) by (nonlinear_arith)
                    requires
                        0 <= f <= x,
                        u * x <= 0x8_0000_0000_0000,
                        u > 0,
                ;
                crate::ratio::lemma_share_of_pixels(ratio, f);
                law_share_is_fair(ratio, ua, u, f);
                lemma_sides_fit(n, r);
                assert(xa == ratio.of_pixels(f));
                assert(xb == f - xa);
                vstd::arithmetic::div_mod::lemma_fundamental_div_mod(f * ua, u);
                let q = f * ua / u;
                let rem = f * ua % u;
                assert(f * ua - 2 * u + 1 <= u * xa <= f * ua) by (nonlinear_arith)
                    requires
                        f * ua == u * q + rem,
                        0 <= rem < u,
                        q - 1 <= xa <= q,
                        0 < u,
                ;
                assert(f * ub <= u * xb <= f * ub + 2 * u - 1) by (nonlinear_arith)
                    requires
                        f * ua - 2 * u + 1 <= u * xa <= f * ua,
                        xb == f - xa,
                        u == ua + ub,
                ;
                assert(ua * xa <= 0x8_0000_0000_0000 && ub * xb <= 0x8_0000_0000_0000)
                    by (nonlinear_arith)
                    requires
                        0 <= xa <= f,
                        0 <= xb <= f,
                        0 < ua < u,
                        0 < ub < u,
                        f * u <= 0x8_0000_0000_0000,
                ;
                lemma_equal_slots(*a, vertical, ra);
                lemma_equal_slots(*b, vertical, rb);
                let d = n.depth() as int;
                let (da, db) = (a.depth() as int, b.depth() as int);
                let (sa, sb) = (slots(*a, vertical, ra), slots(*b, vertical, rb));
                assert forall|i: int| 0 <= i < slots(n, vertical, r).len() implies ({
                    let e = #[trigger] slots(n, vertical, r)[i];
                    &&& u * (e + 3 * d) >= x
                    &&& u * (e - 2 * d) <= x
                }) by {
                    let e = slots(n, vertical, r)[i];
                    if i < sa.len() {
                        assert(e == sa[i]);
                        lemma_slot_bounds(e, x, f, xa, ua, u, da, d);
                    } else {
                        assert(e == sb[i - sa.len()]);
                        lemma_slot_bounds(e, x, f, xb, ub, u, db, d);
                    }
                }
            } else {
                assert(slots(n, vertical, r) =~= seq![x]);
                lemma_one_slot(n.units(vertical) as int, x, n.depth() as int);
            }
        },
    }
}

proof fn lemma_one_slot(u: int, x: int, d: int)
    requires
        u == 1,
        0 <= d,
    ensures
        u * (x + 3 * d) >= x,
        u * (x - 2 * d) <= x,
{
}

/// One step of the way down to a slot of extent `e`: from a space `x` of `u`
/// slots, of which `f` is left after the divider, to a space `xs` of `us`.
proof fn lemma_slot_bounds(e: int, x: int, f: int, xs: int, us: int, u: int, ds: int, d: int)
    requires
        0 <= x,
        x - 2 <= f <= x,
        0 < us < u,
        0 <= ds < d,
        us * (e + 3 * ds) >= xs,
        us * (e - 2 * ds) <= xs,
        f * us - 2 * u + 1 <= u * xs <= f * us + 2 * u - 1,
    ensures
        u * (e + 3 * d) >= x,
        u * (e - 2 * d) <= x,
{
    let lo = e + 3 * ds;
    let hi = e - 2 * ds;
    assert(us * (u * lo) >= f * us - 2 * u + 1) by (nonlinear_arith)
        requires
            us * lo >= xs,
            u * xs >= f * us - 2 * u + 1,
            0 < u,
    ;
    assert(us * (u * hi) <= f * us + 2 * u - 1) by (nonlinear_arith)
        requires
            us * hi <= xs,
            u * xs <= f * us + 2 * u - 1,
            0 < u,
    ;
    // a slot more of slack per level covers the divider and the rounding
    assert(3 * (u * us) >= 2 * us + 2 * u) by (nonlinear_arith)
        requires
            0 < us < u,
    ;
    assert(us * (u * (lo + 3)) >= us * x) by (nonlinear_arith)
        requires
            us * (u * lo) >= f * us - 2 * u + 1,
            3 * (u * us) >= 2 * us + 2 * u,
            x - 2 <= f,
            0 < us,
    ;
    assert(us * (u * (hi - 2)) <= us * x) by (nonlinear_arith)
        requires
            us * (u * hi) <= f * us + 2 * u - 1,
            f <= x,
            0 < us < u,
    ;
    assert(u * (lo + 3) >= x) by (nonlinear_arith)
        requires
            us * (u * (lo + 3)) >= us * x,
            0 < us,
    ;
    assert(u * (hi - 2) <= x) by (nonlinear_arith)
        requires
            us * (u * (hi - 2)) <= us * x,
            0 < us,
    ;
    assert(u * (e + 3 * d) >= u * (lo + 3)) by (nonlinear_arith)
        requires
            lo == e + 3 * ds,
            ds + 1 <= d,
            0 < u,
    ;
    assert(u * (e - 2 * d) <= u * (hi - 2)) by (nonlinear_arith)
        requires
            hi == e - 2 * ds,
            ds + 1 <= d,
            0 < u,
    ;
}

/// A pane lies to the right of another exactly where the other lies to its left,
/// and the same holds of below and above; what lies that way starts past the
/// other's edge.
pub proof fn law_directions_mirror(a: Rect, b: Rect)
    ensures
        crate::geometry::lies_towards(a, b, 1, 0) == crate::geometry::lies_towards(b, a, -1, 0),
        crate::geometry::lies_towards(a, b, 0, 1) == crate::geometry::lies_towards(b, a, 0, -1),
        crate::geometry::lies_towards(a, b, 1, 0) ==> a.0 + a.2 <= b.0,
        crate::geometry::lies_towards(a, b, 0, 1) ==> a.1 + a.3 <= b.1,
{
}

} // verus!
