//! How many cells a pane has, when it can be split, and what the operating system
//! is told of its size.
use vstd::prelude::*;
use crate::render::GridGeom;
use crate::session::App;

verus! {

/// As many whole cells as fit, and one where none does.
pub proof fn law_cells_that_fit(px: int, cell: int)
    requires
        cell > 0,
    ensures
        ({
            let n = crate::session::cells_in(px, cell);
            &&& px >= cell ==> n * cell <= px < (n + 1) * cell
            &&& px < cell ==> n == 1
        }),
{
    let n = px / cell;
    vstd::arithmetic::div_mod::lemma_fundamental_div_mod(px, cell);
    vstd::arithmetic::div_mod::lemma_mod_bound(px, cell);
    assert(cell * n == n * cell && (n + 1) * cell == n * cell + cell) by (nonlinear_arith);
    assert(px >= cell ==> n >= 1) by (nonlinear_arith)
        requires
            px < n * cell + cell,
            cell > 0,
    ;
    assert(px < cell ==> n < 1) by (nonlinear_arith)
        requires
            n * cell <= px,
            cell > 0,
    ;
}

/// A split takes half of the pane across its divider, all of it along.
pub proof fn law_half_of_a_pane(vertical: bool, w: int, h: int)
    requires
        0 <= w,
        0 <= h,
    ensures
        ({
            let (nw, nh) = crate::session::half_of(vertical, w, h);
            &&& vertical ==> 2 * nw <= w < 2 * nw + 2 && nh == h
            &&& !vertical ==> 2 * nh <= h < 2 * nh + 2 && nw == w
        }),
        crate::session::half_of(!vertical, h, w) == (
            crate::session::half_of(vertical, w, h).1,
            crate::session::half_of(vertical, w, h).0,
        ),
{
}

/// A pane can be split where it has room for two cells across the divider and
/// for one along it.
pub proof fn law_splittable(app: App, i: int, id: u64, g: GridGeom, w: i32, h: i32)
    requires
        g.wf(),
    ensures
        match app.tabs@[i].tree.rect_of(id, (0, 0, w, h)) {
            Some(r) => 0 <= r.2 && 0 <= r.3 ==> {
                &&& app.splittable(i, id, true, g, w, h) <==> 2 * g.cell_w <= r.2 && g.cell_h <= r.3
                &&& app.splittable(i, id, false, g, w, h) <==> g.cell_w <= r.2 && 2 * g.cell_h
                    <= r.3
            },
            None => !app.splittable(i, id, true, g, w, h) && !app.splittable(
                i,
                id,
                false,
                g,
                w,
                h,
            ),
        },
{
}

/// Sixteen bits of a number are the number itself where it has no more, and
/// differ from it by a multiple of 65536 elsewhere.
pub proof fn law_sixteen_bits(n: int, k: int)
    ensures
        0 <= n < 65536 ==> crate::pane_view::low16(n) == n,
        crate::pane_view::low16(n + 65536 * k) == crate::pane_view::low16(n),
        (n - crate::pane_view::low16(n)) % 65536 == 0,
{
    assert((n + 65536 * k) % 65536 == n % 65536);
}

} // verus!
