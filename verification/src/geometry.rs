//! Where the panes and dividers of a split tree lie, and which of them a point
//! or a direction leads to.
use crate::ratio::Ratio;
use crate::tree::Node;
use vstd::prelude::*;

verus! {

/// Pixel rectangle: x, y, width, height.
pub type Rect = (i32, i32, i32, i32);

/// Divider thickness in pixels.
pub const DIV: i32 = 2;

/// Extra pixels on each side of a divider that still hit it.
pub const HIT_SLACK: i32 = 3;

/// A divider: its id, whether it is vertical, the rectangle of its split, and
/// the band that it covers.
pub type Divider = (u64, bool, Rect, Rect);

pub open spec fn at_least_0(v: int) -> int {
    if v < 0 {
        0
    } else {
        v
    }
}

/// Both sides of a split and the divider band between them.
pub open spec fn split_rects(vertical: bool, ratio: Ratio, r: Rect) -> (Rect, Rect, Rect) {
    let (x, y, w, h) = r;
    if vertical {
        let aw = ratio.of_pixels(at_least_0(w - DIV));
        (
            (x, y, aw as i32, h),
            ((x + aw + DIV) as i32, y, at_least_0(w - DIV - aw) as i32, h),
            ((x + aw) as i32, y, DIV, h),
        )
    } else {
        let ah = ratio.of_pixels(at_least_0(h - DIV));
        (
            (x, y, w, ah as i32),
            (x, (y + ah + DIV) as i32, w, at_least_0(h - DIV - ah) as i32),
            (x, (y + ah) as i32, w, DIV),
        )
    }
}

/// Laying out this many nested splits in `r` stays within the pixel range.
pub open spec fn fits(depth: nat, r: Rect) -> bool {
    let (x, y, w, h) = r;
    &&& i32::MIN + DIV <= w
    &&& i32::MIN + DIV <= h
    &&& x + at_least_0(w as int) + DIV * depth <= i32::MAX
    &&& y + at_least_0(h as int) + DIV * depth <= i32::MAX
}

impl Node {
    /// Every pane with its rectangle, in visual order.
    pub open spec fn layout(self, r: Rect) -> Seq<(u64, Rect)>
        decreases self,
    {
        match self {
            Node::Empty => seq![],
            Node::Leaf(id) => seq![(id, r)],
            Node::Split { vertical, ratio, a, b, .. } => {
                let (ra, rb, _) = split_rects(vertical, ratio, r);
                a.layout(ra) + b.layout(rb)
            },
        }
    }

    /// The rectangle of pane `id`.
    pub open spec fn rect_of(self, id: u64, r: Rect) -> Option<Rect>
        decreases self,
    {
        match self {
            Node::Empty => None,
            Node::Leaf(i) => if i == id {
                Some(r)
            } else {
                None
            },
            Node::Split { vertical, ratio, a, b, .. } => {
                let (ra, rb, _) = split_rects(vertical, ratio, r);
                if a.rect_of(id, ra) is Some {
                    a.rect_of(id, ra)
                } else {
                    b.rect_of(id, rb)
                }
            },
        }
    }

    /// Every divider, each before those of the sides that it separates.
    pub open spec fn dividers(self, r: Rect) -> Seq<Divider>
        decreases self,
    {
        match self {
            Node::Split { id, vertical, ratio, a, b } => {
                let (ra, rb, band) = split_rects(vertical, ratio, r);
                seq![(id, vertical, r, band)] + a.dividers(ra) + b.dividers(rb)
            },
            _ => seq![],
        }
    }

    /// Axis and split rectangle of divider `id`.
    pub open spec fn divider(self, id: u64, r: Rect) -> Option<(bool, Rect)>
        decreases self,
    {
        match self {
            Node::Split { id: d, vertical, ratio, a, b } => {
                let (ra, rb, _) = split_rects(vertical, ratio, r);
                if d == id {
                    Some((vertical, r))
                } else if a.divider(id, ra) is Some {
                    a.divider(id, ra)
                } else {
                    b.divider(id, rb)
                }
            },
            _ => None,
        }
    }
}

/// Child rectangles and divider band for a split that occupies (x, y, w, h).
pub fn split_geometry(vertical: bool, ratio: Ratio, x: i32, y: i32, w: i32, h: i32) -> (r: (
    Rect,
    Rect,
    Rect,
))
    requires
        fits(1, (x, y, w, h)),
    ensures
        r == split_rects(vertical, ratio, (x, y, w, h)),
        forall|depth: nat| #[trigger]
            fits(depth + 1, (x, y, w, h)) ==> fits(depth, r.0) && fits(depth, r.1),
        ratio.wf(),
{
    if vertical {
        let free: i32 = if w - DIV < 0 {
            0
        } else {
            w - DIV
        };
        let aw: i32 = ratio.pixels(free);
        let bw: i32 = if w - DIV - aw < 0 {
            0
        } else {
            w - DIV - aw
        };
        ((x, y, aw, h), (x + aw + DIV, y, bw, h), (x + aw, y, DIV, h))
    } else {
        let free: i32 = if h - DIV < 0 {
            0
        } else {
            h - DIV
        };
        let ah: i32 = ratio.pixels(free);
        let bh: i32 = if h - DIV - ah < 0 {
            0
        } else {
            h - DIV - ah
        };
        ((x, y, w, ah), (x, y + ah + DIV, w, bh), (x, y + ah, w, DIV))
    }
}

/// A layout that fits does so for any shallower tree.
proof fn lemma_fits_less(depth: nat, less: nat, r: Rect)
    requires
        fits(depth, r),
        less <= depth,
    ensures
        fits(less, r),
{
}

/// Pixel rectangle of pane `id` within the box (x, y, w, h).
pub fn rect_of(node: &Node, id: u64, x: i32, y: i32, w: i32, h: i32) -> (r: Option<Rect>)
    requires
        fits(node.depth(), (x, y, w, h)),
    ensures
        r == node.rect_of(id, (x, y, w, h)),
    decreases node,
{
    match node {
        Node::Leaf(i) => {
            if *i == id {
                Some((x, y, w, h))
            } else {
                None
            }
        },
        Node::Split { vertical, ratio, a, b, .. } => {
            let (ra, rb, _) = split_geometry(*vertical, *ratio, x, y, w, h);
            proof {
                lemma_child_fits(*node, (x, y, w, h), ra, rb);
            }
            let in_a: Option<Rect> = rect_of(a, id, ra.0, ra.1, ra.2, ra.3);
            if in_a.is_some() {
                in_a
            } else {
                rect_of(b, id, rb.0, rb.1, rb.2, rb.3)
            }
        },
        Node::Empty => None,
    }
}

proof fn lemma_child_fits(node: Node, r: Rect, ra: Rect, rb: Rect)
    requires
        node is Split,
        fits(node.depth(), r),
        forall|depth: nat| #[trigger] fits(depth + 1, r) ==> fits(depth, ra) && fits(depth, rb),
    ensures
        node matches Node::Split { a, b, .. } ==> fits(a.depth(), ra) && fits(b.depth(), rb),
{
    if let Node::Split { a, b, .. } = node {
        let d = (node.depth() - 1) as nat;
        assert(fits(d + 1, r));
        lemma_fits_less(d, a.depth(), ra);
        lemma_fits_less(d, b.depth(), rb);
    }
}

/// Append every divider of the tree: id, axis, split rectangle, band.
pub fn dividers_of(node: &Node, x: i32, y: i32, w: i32, h: i32, out: &mut Vec<Divider>)
    requires
        fits(node.depth(), (x, y, w, h)),
    ensures
        final(out)@ == old(out)@ + node.dividers((x, y, w, h)),
    decreases node,
{
    match node {
        Node::Split { id, vertical, ratio, a, b } => {
            let (ra, rb, band) = split_geometry(*vertical, *ratio, x, y, w, h);
            proof {
                lemma_child_fits(*node, (x, y, w, h), ra, rb);
            }
            out.push((*id, *vertical, (x, y, w, h), band));
            dividers_of(a, ra.0, ra.1, ra.2, ra.3, out);
            dividers_of(b, rb.0, rb.1, rb.2, rb.3, out);
            assert(out@ =~= old(out)@ + node.dividers((x, y, w, h)));
        },
        _ => {
            assert(out@ =~= old(out)@ + node.dividers((x, y, w, h)));
        },
    }
}

/// Axis and split rectangle of divider `id`.
pub fn find_divider(node: &Node, id: u64, x: i32, y: i32, w: i32, h: i32) -> (r: Option<
    (bool, Rect),
>)
    requires
        fits(node.depth(), (x, y, w, h)),
    ensures
        r == node.divider(id, (x, y, w, h)),
    decreases node,
{
    match node {
        Node::Split { id: d, vertical, ratio, a, b } => {
            let (ra, rb, _) = split_geometry(*vertical, *ratio, x, y, w, h);
            proof {
                lemma_child_fits(*node, (x, y, w, h), ra, rb);
            }
            if *d == id {
                Some((*vertical, (x, y, w, h)))
            } else {
                let in_a: Option<(bool, Rect)> = find_divider(a, id, ra.0, ra.1, ra.2, ra.3);
                if in_a.is_some() {
                    in_a
                } else {
                    find_divider(b, id, rb.0, rb.1, rb.2, rb.3)
                }
            }
        },
        _ => None,
    }
}

/// Append every pane with its rectangle, in visual order.
pub fn layout_tree(node: &Node, x: i32, y: i32, w: i32, h: i32, out: &mut Vec<(u64, Rect)>)
    requires
        fits(node.depth(), (x, y, w, h)),
    ensures
        final(out)@ == old(out)@ + node.layout((x, y, w, h)),
    decreases node,
{
    match node {
        Node::Leaf(id) => {
            out.push((*id, (x, y, w, h)));
            assert(out@ =~= old(out)@ + node.layout((x, y, w, h)));
        },
        Node::Split { vertical, ratio, a, b, .. } => {
            let (ra, rb, _) = split_geometry(*vertical, *ratio, x, y, w, h);
            proof {
                lemma_child_fits(*node, (x, y, w, h), ra, rb);
            }
            layout_tree(a, ra.0, ra.1, ra.2, ra.3, out);
            layout_tree(b, rb.0, rb.1, rb.2, rb.3, out);
            assert(out@ =~= old(out)@ + node.layout((x, y, w, h)));
        },
        Node::Empty => {
            assert(out@ =~= old(out)@ + node.layout((x, y, w, h)));
        },
    }
}

/// Whether laying the tree out in the box (x, y, w, h) stays within the pixel
/// range.
pub fn layout_fits(node: &Node, x: i32, y: i32, w: i32, h: i32) -> (r: bool)
    requires
        node.size() <= crate::ratio::HIGH,
    ensures
        r == fits(node.depth(), (x, y, w, h)),
{
    let d: i128 = depth_of(node) as i128;
    let far_x: i128 = x as i128 + (if w < 0 {
        0i128
    } else {
        w as i128
    }) + 2 * d;
    let far_y: i128 = y as i128 + (if h < 0 {
        0i128
    } else {
        h as i128
    }) + 2 * d;
    i32::MIN + DIV <= w && i32::MIN + DIV <= h && far_x <= i32::MAX as i128 && far_y
        <= i32::MAX as i128
}

fn depth_of(node: &Node) -> (r: u64)
    requires
        node.size() <= crate::ratio::HIGH,
    ensures
        r == node.depth(),
        r < node.size(),
    decreases node,
{
    match node {
        Node::Split { a, b, .. } => {
            let da: u64 = depth_of(a);
            let db: u64 = depth_of(b);
            if da >= db {
                da + 1
            } else {
                db + 1
            }
        },
        _ => 0,
    }
}

/// Whether (x, y) lies in `r` grown by `slack` on every side.
pub fn point_in(r: Rect, x: i32, y: i32, slack: i32) -> (b: bool)
    ensures
        b == (r.0 - slack <= x < r.0 + r.2 + slack && r.1 - slack <= y < r.1 + r.3 + slack),
{
    let s: i64 = slack as i64;
    let (rx, ry, rw, rh): (i64, i64, i64, i64) = (r.0 as i64, r.1 as i64, r.2 as i64, r.3 as i64);
    let px: i64 = x as i64;
    let py: i64 = y as i64;
    px >= rx - s && px < rx + rw + s && py >= ry - s && py < ry + rh + s
}

// ---- directional focus ----

/// A length halved, towards zero.
pub open spec fn half(v: int) -> int {
    if v >= 0 {
        v / 2
    } else {
        -((-v) / 2)
    }
}

pub open spec fn center(r: Rect) -> (int, int) {
    (r.0 + half(r.2 as int), r.1 + half(r.3 as int))
}

pub open spec fn magnitude(v: int) -> int {
    if v < 0 {
        -v
    } else {
        v
    }
}

/// `to` lies in direction (dx, dy) from `from`: past its edge on that side, and
/// its center further along that axis than across it.
pub open spec fn lies_towards(from: Rect, to: Rect, dx: int, dy: int) -> bool {
    let x = center(to).0 - center(from).0;
    let y = center(to).1 - center(from).1;
    ||| dx == 1 && dy == 0 && to.0 >= from.0 + from.2 && x > 0 && magnitude(y) < x
    ||| dx == -1 && dy == 0 && to.0 + to.2 <= from.0 && x < 0 && magnitude(y) < -x
    ||| dx == 0 && dy == 1 && to.1 >= from.1 + from.3 && y > 0 && magnitude(x) < y
    ||| dx == 0 && dy == -1 && to.1 + to.3 <= from.1 && y < 0 && magnitude(x) < -y
}

/// Square of the distance between two centers.
pub open spec fn distance2(from: Rect, to: Rect) -> int {
    let x = center(to).0 - center(from).0;
    let y = center(to).1 - center(from).1;
    x * x + y * y
}

/// `i` is the first entry of pane `id`.
pub open spec fn first_entry(rects: Seq<(u64, Rect)>, id: u64, i: int) -> bool {
    &&& 0 <= i < rects.len()
    &&& rects[i].0 == id
    &&& forall|j: int| 0 <= j < i ==> (#[trigger] rects[j]).0 != id
}

/// Entry `i` is a pane other than `cur` in direction (dx, dy) from `from`.
pub open spec fn is_candidate(
    rects: Seq<(u64, Rect)>,
    cur: u64,
    from: Rect,
    dx: int,
    dy: int,
    i: int,
) -> bool {
    &&& 0 <= i < rects.len()
    &&& rects[i].0 != cur
    &&& lies_towards(from, rects[i].1, dx, dy)
}

/// Entry `i` is the nearest candidate, the first of equally near ones.
pub open spec fn is_nearest_candidate(
    rects: Seq<(u64, Rect)>,
    cur: u64,
    from: Rect,
    dx: int,
    dy: int,
    i: int,
) -> bool {
    &&& is_candidate(rects, cur, from, dx, dy, i)
    &&& forall|j: int| #[trigger]
        is_candidate(rects, cur, from, dx, dy, j) ==> distance2(from, rects[i].1) <= distance2(
            from,
            rects[j].1,
        ) && (j < i ==> distance2(from, rects[i].1) < distance2(from, rects[j].1))
}

/// What [`dir_target`] finds: the nearest pane in a direction, or none where no
/// pane lies there.
pub open spec fn is_target(
    rects: Seq<(u64, Rect)>,
    cur: u64,
    dx: int,
    dy: int,
    r: Option<u64>,
) -> bool {
    match r {
        Some(id) => exists|c: int, i: int|
            #![trigger first_entry(rects, cur, c), rects[i]]
            first_entry(rects, cur, c) && is_nearest_candidate(
                rects,
                cur,
                rects[c].1,
                dx,
                dy,
                i,
            ) && id == rects[i].0,
        None => forall|c: int, i: int|
            #![trigger first_entry(rects, cur, c), rects[i]]
            first_entry(rects, cur, c) ==> !is_candidate(
                rects,
                cur,
                rects[c].1,
                dx,
                dy,
                i,
            ),
    }
}

fn center_of(r: Rect) -> (c: (i128, i128))
    ensures
        c.0 == center(r).0,
        c.1 == center(r).1,
        -0x1_0000_0000 <= c.0 <= 0x1_0000_0000,
        -0x1_0000_0000 <= c.1 <= 0x1_0000_0000,
{
    let hw: i32 = r.2 / 2;
    let hh: i32 = r.3 / 2;
    (r.0 as i128 + hw as i128, r.1 as i128 + hh as i128)
}

/// Nearest pane past the edge of pane `cur` in direction (dx, dy), by the
/// distance of the centers; the first of equally near ones.
pub fn dir_target(rects: &Vec<(u64, Rect)>, cur: u64, dx: i32, dy: i32) -> (r: Option<u64>)
    ensures
        is_target(rects@, cur, dx as int, dy as int, r),
{
    let mut c: usize = 0;
    while c < rects.len() && rects[c].0 != cur
        invariant
            c <= rects.len(),
            forall|j: int| 0 <= j < c ==> (#[trigger] rects@[j]).0 != cur,
        decreases rects.len() - c,
    {
        c += 1;
    }
    if c == rects.len() {
        return None;
    }
    let from: Rect = rects[c].1;
    let (cx, cy): (i128, i128) = center_of(from);
    let mut best: Option<(i128, usize)> = None;
    let mut i: usize = 0;
    proof {
        assert(first_entry(rects@, cur, c as int));
    }
    while i < rects.len()
        invariant
            i <= rects.len(),
            c < rects.len(),
            from == rects@[c as int].1,
            first_entry(rects@, cur, c as int),
            cx == center(from).0,
            cy == center(from).1,
            -0x1_0000_0000 <= cx <= 0x1_0000_0000,
            -0x1_0000_0000 <= cy <= 0x1_0000_0000,
            match best {
                Some((d, k)) => {
                    &&& k < i
                    &&& is_candidate(rects@, cur, from, dx as int, dy as int, k as int)
                    &&& d == distance2(from, rects@[k as int].1)
                    &&& forall|j: int|
                        j < i && #[trigger] is_candidate(
                            rects@,
                            cur,
                            from,
                            dx as int,
                            dy as int,
                            j,
                        ) ==> d <= distance2(from, rects@[j].1) && (j < k ==> d < distance2(
                            from,
                            rects@[j].1,
                        ))
                },
                None => forall|j: int|
                    j < i ==> !(#[trigger] is_candidate(
                        rects@,
                        cur,
                        from,
                        dx as int,
                        dy as int,
                        j,
                    )),
            },
        decreases rects.len() - i,
    {
        let (id, to): (u64, Rect) = rects[i];
        let (tx, ty): (i128, i128) = center_of(to);
        let x: i128 = tx - cx;
        let y: i128 = ty - cy;
        let ax: i128 = if x < 0 {
            -x
        } else {
            x
        };
        let ay: i128 = if y < 0 {
            -y
        } else {
            y
        };
        let right: bool = to.0 as i64 >= from.0 as i64 + from.2 as i64 && x > 0 && ay < x;
        let left: bool = to.0 as i64 + to.2 as i64 <= from.0 as i64 && x < 0 && ay < -x;
        let down: bool = to.1 as i64 >= from.1 as i64 + from.3 as i64 && y > 0 && ax < y;
        let up: bool = to.1 as i64 + to.3 as i64 <= from.1 as i64 && y < 0 && ax < -y;
        let ok: bool = id != cur && ((dx == 1 && dy == 0 && right) || (dx == -1 && dy == 0 && left)
            || (dx == 0 && dy == 1 && down) || (dx == 0 && dy == -1 && up));
        assert(ok == is_candidate(rects@, cur, from, dx as int, dy as int, i as int));
        if ok {
            assert(0 <= x * x <= 0x2_0000_0000 * 0x2_0000_0000) by (nonlinear_arith)
                requires
                    -0x2_0000_0000 <= x <= 0x2_0000_0000,
            ;
            assert(0 <= y * y <= 0x2_0000_0000 * 0x2_0000_0000) by (nonlinear_arith)
                requires
                    -0x2_0000_0000 <= y <= 0x2_0000_0000,
            ;
            let d: i128 = x * x + y * y;
            let better: bool = match best {
                Some((bd, _)) => d < bd,
                None => true,
            };
            if better {
                best = Some((d, i));
            }
        }
        i += 1;
    }
    match best {
        Some((_, k)) => {
            proof {
                assert(is_nearest_candidate(
                    rects@,
                    cur,
                    rects@[c as int].1,
                    dx as int,
                    dy as int,
                    k as int,
                ));
            }
            Some(rects[k].0)
        },
        None => {
            proof {
                assert forall|c2: int, j: int|
                    #![trigger first_entry(rects@, cur, c2), rects@[j]]
                    first_entry(rects@, cur, c2) implies !is_candidate(
                    rects@,
                    cur,
                    rects@[c2].1,
                    dx as int,
                    dy as int,
                    j,
                ) by {
                    assert(c2 == c) by {
                        if c2 < c {
                            assert(rects@[c2].0 != cur);
                        } else if c < c2 {
                            assert(rects@[c as int].0 != cur);
                        }
                    }
                }
            }
            None
        },
    }
}

} // verus!
