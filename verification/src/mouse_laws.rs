//! What a program is told of the mouse, and what the mouse and the wheel do where
//! no program asked for them.
use vstd::prelude::*;
use crate::cells::Modes;
use crate::mouse::MouseEvent;
use crate::mouse::Screen;
use crate::render::GridGeom;

verus! {

// ---- cells ----

/// Pixels before the first cell belong to the first, pixels behind the last to
/// the last, and along the way cells come in order.
pub proof fn law_cells_in_order(p: int, q: int, size: int, n: int)
    requires
        size > 0,
        n >= 1,
    ensures
        p < size ==> crate::mouse::cell_at(p, size, n) == 0,
        p >= (n - 1) * size ==> crate::mouse::cell_at(p, size, n) == n - 1,
        p <= q ==> crate::mouse::cell_at(p, size, n) <= crate::mouse::cell_at(q, size, n),
        0 <= p < n * size ==> {
            let c = crate::mouse::cell_at(p, size, n);
            c * size <= p < (c + 1) * size
        },
{
    let c = p / size;
    vstd::arithmetic::div_mod::lemma_fundamental_div_mod(p, size);
    vstd::arithmetic::div_mod::lemma_mod_bound(p, size);
    assert(size * c <= p < size * c + size);
    assert(p < size ==> c <= 0) by (nonlinear_arith)
        requires
            size * c <= p,
            size > 0,
    ;
    assert(p >= (n - 1) * size ==> c >= n - 1) by (nonlinear_arith)
        requires
            p < size * c + size,
            size > 0,
    ;
    assert(0 <= p ==> 0 <= c) by (nonlinear_arith)
        requires
            p < size * c + size,
            size > 0,
    ;
    assert(p < n * size ==> c < n) by (nonlinear_arith)
        requires
            size * c <= p,
            size > 0,
    ;
    assert(c * size == size * c && (c + 1) * size == size * c + size) by (nonlinear_arith);
    if p <= q {
        vstd::arithmetic::div_mod::lemma_div_is_ordered(p, q, size);
    }
}

/// The first half of a cell's pixels, rounded down, is its left half, the rest
/// its right half, in every cell alike.
pub proof fn law_halves(cell: int, at: int, size: int)
    requires
        0 <= cell,
        0 <= at < size,
    ensures
        crate::mouse::side_at(cell * size + at, size) is Left <==> at < size / 2,
{
    assert(cell * size >= 0) by (nonlinear_arith)
        requires
            cell >= 0,
            size > 0,
    ;
    vstd::arithmetic::div_mod::lemma_fundamental_div_mod_converse(
        cell * size + at,
        size,
        cell,
        at,
    );
}

// ---- reports ----

/// The number that ASCII digits spell.
pub open spec fn number_of(s: Seq<u8>) -> int
    decreases s.len(),
{
    if s.len() == 0 {
        0
    } else {
        number_of(s.drop_last()) * 10 + (s.last() - 48)
    }
}

/// A number in decimal reads as that number, and is digits without a zero in
/// front.
pub proof fn law_decimal_reads_back(n: int)
    requires
        0 <= n,
    ensures
        number_of(crate::text::decimal_bytes(n)) == n,
        forall|i: int|
            0 <= i < crate::text::decimal_bytes(n).len() ==> 48 <= #[trigger] crate::text::decimal_bytes(n)[i]
                <= 57,
        n > 0 ==> crate::text::decimal_bytes(n)[0] != 48,
        crate::text::decimal_bytes(n).len() > 0,
    decreases n,
{
    let s = crate::text::decimal_bytes(n);
    let d = n % 10;
    assert(crate::text::digit(d) as u8 == 48 + d);
    if n < 10 {
        assert(s =~= seq![(48 + d) as u8]);
        assert(s.drop_last() =~= seq![]);
        assert(number_of(s.drop_last()) == 0);
    } else {
        law_decimal_reads_back(n / 10);
        let t = crate::text::decimal_bytes(n / 10);
        assert(s =~= t.push((48 + d) as u8));
        assert(s.drop_last() =~= t);
        assert(s[0] == t[0]);
    }
}

/// The report in the SGR form: `ESC [ <`, the three numbers in decimal with
/// semicolons between them, and `M` for a press, `m` for a release.
pub proof fn law_sgr_reports(b: int, x: int, y: int, press: bool)
    requires
        0 <= b,
        0 <= x,
        0 <= y,
    ensures
        ({
            let r = crate::mouse::report(true, b, x, y, press);
            let i = 3 + crate::text::decimal_bytes(b).len() as int;
            let j = i + 1 + crate::text::decimal_bytes(x).len() as int;
            let n = r.len();
            &&& r[0] == 27 && r[1] == 91 && r[2] == 60
            &&& r[i] == 59 && r[j] == 59
            &&& number_of(r.subrange(3, i)) == b
            &&& number_of(r.subrange(i + 1, j)) == x
            &&& number_of(r.subrange(j + 1, n - 1)) == y
            &&& r[n - 1] == if press {
                77u8
            } else {
                109u8
            }
        }),
{
    let r = crate::mouse::report(true, b, x, y, press);
    let (db, dx, dy) = (
        crate::text::decimal_bytes(b),
        crate::text::decimal_bytes(x),
        crate::text::decimal_bytes(y),
    );
    law_decimal_reads_back(b);
    law_decimal_reads_back(x);
    law_decimal_reads_back(y);
    let i = 3 + db.len() as int;
    let j = i + 1 + dx.len() as int;
    assert(r.len() == j + 1 + dy.len() + 1);
    assert(r.subrange(3, i) =~= db);
    assert(r.subrange(i + 1, j) =~= dx);
    assert(r.subrange(j + 1, r.len() - 1) =~= dy);
}

/// The report in the X10 form: `ESC [ M` and one byte per number, 32 above it; a
/// release has the number 3, a number above 223 is written as 223.
pub proof fn law_x10_reports(b: int, x: int, y: int, press: bool)
    requires
        0 <= b <= 223,
        0 <= x,
        0 <= y,
    ensures
        ({
            let r = crate::mouse::report(false, b, x, y, press);
            &&& r.len() == 6
            &&& r[0] == 27 && r[1] == 91 && r[2] == 77
            &&& press ==> r[3] - 32 == b
            &&& !press ==> r[3] - 32 == 3
            &&& x <= 223 ==> r[4] - 32 == x
            &&& x > 223 ==> r[4] == 255
            &&& y <= 223 ==> r[5] - 32 == y
            &&& y > 223 ==> r[5] == 255
        }),
{
}

/// What a program is told of an event: a press, unless it is a release, of the
/// button's number (0 left, 1 middle, 2 right, 3 none), with 32 more for a
/// movement and 4, 8 and 16 more for Shift, Alt and Ctrl, at the cell, counted
/// from 1, that the pixel is in.
pub proof fn law_event_reports(modes: Modes, m: MouseEvent, g: GridGeom, s: Screen, col: int, row: int)
    requires
        g.wf(),
        s.wf(),
        1 <= col <= s.cols,
        1 <= row <= s.lines,
        (col - 1) * g.cell_w <= m.x < col * g.cell_w,
        (row - 1) * g.cell_h <= m.y < row * g.cell_h,
    ensures
        crate::mouse::event_report(modes, m, g, s) == crate::mouse::report(
            modes.sgr_mouse,
            (if m.button == 1 {
                0int
            } else if m.button == 4 {
                1
            } else if m.button == 2 {
                2
            } else {
                3
            }) + shift_alt_ctrl(m.mods) + (if m.kind is Move {
                32int
            } else {
                0
            }),
            col,
            row,
            !(m.kind is Release),
        ),
{
    crate::mouse::law_pixels_of_a_cell(col - 1, m.x as int, g.cell_w as int, s.cols as int);
    crate::mouse::law_pixels_of_a_cell(row - 1, m.y as int, g.cell_h as int, s.lines as int);
}

/// What the modifiers add to a button's number.
pub open spec fn shift_alt_ctrl(mods: i32) -> int {
    (if mods & 0x0200_0000 != 0 {
        4int
    } else {
        0
    }) + (if mods & 0x0800_0000 != 0 {
        8int
    } else {
        0
    }) + (if mods & 0x0400_0000 != 0 {
        16int
    } else {
        0
    })
}

/// A program is told of presses and releases in any mouse mode, of movement with
/// a button held in two of them, of movement without one in one of these, and of
/// nothing else.
pub proof fn law_told_in_modes(bits: u32, m: MouseEvent)
    ensures
        ({
            let told = crate::mouse::is_reported(crate::cells::modes_of(bits), m);
            let any = bits & 0x2048 != 0;
            &&& (m.kind is Press || m.kind is DoubleClick || m.kind is Release) ==> told == any
            &&& m.kind is Move && m.button != 0 ==> told == (any && (bits & 0x40 == 0x40 || bits
                & 0x2000 == 0x2000))
            &&& m.kind is Move && m.button == 0 ==> told == (any && bits & 0x40 == 0x40)
            &&& m.kind is Other ==> !told
        }),
{
}

// ---- the wheel ----

/// Three lines per notch of 120, the same both ways, more for more, and none for
/// less than a third of a notch.
pub proof fn law_wheel_lines(dy: int, more: int, k: int)
    requires
        0 <= dy <= more,
    ensures
        crate::mouse::wheel_lines(120 * k) == 3 * k,
        crate::mouse::wheel_lines(-dy) == -crate::mouse::wheel_lines(dy),
        crate::mouse::wheel_lines(dy) <= crate::mouse::wheel_lines(more),
        40 * crate::mouse::wheel_lines(dy) <= dy < 40 * crate::mouse::wheel_lines(dy) + 40,
{
}

/// A program is told of the wheel as of presses of button 64 upwards and 65
/// downwards, with the modifiers as for a button, at the cell under the mouse:
/// once for each whole notch, and once for a turn of less.
pub proof fn law_wheel_reports(
    modes: Modes,
    dy: int,
    x: int,
    y: int,
    mods: i32,
    g: GridGeom,
    s: Screen,
    col: int,
    row: int,
    n: int,
    i: int,
)
    requires
        g.wf(),
        s.wf(),
        1 <= col <= s.cols,
        1 <= row <= s.lines,
        (col - 1) * g.cell_w <= x < col * g.cell_w,
        (row - 1) * g.cell_h <= y < row * g.cell_h,
        n >= 1,
        120 * n <= dy < 120 * n + 120 || 120 * n <= -dy < 120 * n + 120 || (n == 1 && -120 < dy
            < 120),
        0 <= i,
    ensures
        ({
            let all = crate::mouse::wheel_report(modes, dy, x, y, mods, g, s);
            let one = crate::mouse::report(
                modes.sgr_mouse,
                (if dy < 0 {
                    65int
                } else {
                    64
                }) + shift_alt_ctrl(mods),
                col,
                row,
                true,
            );
            &&& one.len() > 0
            &&& all.len() == n * one.len()
            &&& i < all.len() ==> all[i] == one[i % one.len() as int]
        }),
{
    crate::mouse::law_pixels_of_a_cell(col - 1, x, g.cell_w as int, s.cols as int);
    crate::mouse::law_pixels_of_a_cell(row - 1, y, g.cell_h as int, s.lines as int);
    let b = 64 + crate::mouse::report_mods(mods) + (if dy < 0 {
        1int
    } else {
        0
    });
    let one = crate::mouse::report(modes.sgr_mouse, b, col, row, true);
    assert(crate::mouse::notches(dy) == n);
    assert(one.len() > 0);
    lemma_repeated(one, n, i);
}

proof fn lemma_repeated(s: Seq<u8>, n: int, i: int)
    requires
        s.len() > 0,
        n >= 0,
        0 <= i,
    ensures
        crate::mouse::repeated(s, n).len() == n * s.len(),
        i < n * s.len() ==> crate::mouse::repeated(s, n)[i] == s[i % s.len() as int],
    decreases n,
{
    let l = s.len() as int;
    if n > 0 {
        lemma_repeated(s, n - 1, i);
        assert(n * l == (n - 1) * l + l) by (nonlinear_arith);
        let k = (n - 1) * l;
        if k <= i < n * l {
            vstd::arithmetic::div_mod::lemma_fundamental_div_mod_converse(i, l, n - 1, i - k);
            assert(i == (n - 1) * l + (i - k));
        }
    } else {
        assert(0 * l == 0);
    }
}

} // verus!
