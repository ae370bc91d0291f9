//! A pane on the screen: what is painted, its scroll bar and its size.
use vstd::prelude::*;
use crate::cells::GridSnap;
use crate::color::Rgb;
use crate::config::State;
use crate::mouse::Screen;
use crate::render::Frame;
use crate::render::GridGeom;
use crate::render::PaintOp;
use crate::render::render;
use crate::session::grid_size;
use crate::url::url_at;

verus! {

// ---- painting ----

/// The underline of the link under the mouse, if there is one.
pub open spec fn link_underline(
    f: Frame,
    s: GridSnap,
    hover: Option<(i32, usize)>,
) -> Option<crate::render::Drawn> {
    match hover {
        Some((row, col)) => match crate::url::link_at(s, row, col as int) {
            Some((from, to)) => Some(
                crate::render::Drawn::Fill {
                    x: from * f.geom.cell_w,
                    y: row * f.geom.cell_h + f.geom.ascent + 1,
                    w: (to - from) * f.geom.cell_w,
                    h: crate::render::at_least_1((f.geom.cell_h / 12) as int),
                    color: crate::render::opaque(f.scheme.fg),
                },
            ),
            None => None,
        },
        None => None,
    }
}

proof fn lemma_row_length(cells: Seq<crate::cells::CellSnap>, row: i32)
    ensures
        crate::url::row_text(cells, row).len() <= cells.len(),
    decreases cells.len(),
{
    if cells.len() > 0 {
        lemma_row_length(cells.drop_last(), row);
    }
}

fn underline_link(snap: &GridSnap, f: &Frame, row: i32, col: usize) -> (r: Option<PaintOp>)
    requires
        f.geom.wf(),
        snap.cells@.len() <= 0xffff_ffff,
    ensures
        r is Some == link_underline(*f, *snap, Some((row, col))) is Some,
        r is Some ==> r->Some_0@ == link_underline(*f, *snap, Some((row, col)))->Some_0,
{
    match url_at(snap, row, col) {
        Some((_, from, to)) => {
            let g: GridGeom = f.geom;
            proof {
                lemma_row_length(snap.cells@, row);
                crate::url::law_link_found(
                    crate::url::row_text(snap.cells@, row),
                    col as int,
                );
                assert(0 <= from * g.cell_w <= 0xffff_ffff * 0x7fff_ffff) by (nonlinear_arith)
                    requires
                        0 <= from <= 0xffff_ffff,
                        0 < g.cell_w <= 0x7fff_ffff,
                ;
                assert(0 <= (to - from) * g.cell_w <= 0xffff_ffff * 0x7fff_ffff)
                    by (nonlinear_arith)
                    requires
                        0 <= to - from <= 0xffff_ffff,
                        0 < g.cell_w <= 0x7fff_ffff,
                ;
                assert(-0x8000_0000 * 0x7fff_ffff <= row * g.cell_h <= 0x7fff_ffff * 0x7fff_ffff)
                    by (nonlinear_arith)
                    requires
                        -0x8000_0000 <= row <= 0x7fff_ffff,
                        0 < g.cell_h <= 0x7fff_ffff,
                ;
            }
            let thickness: i64 = if g.cell_h / 12 < 1 {
                1
            } else {
                (g.cell_h / 12) as i64
            };
            let c: Rgb = f.scheme.fg;
            Some(
                PaintOp::Fill {
                    x: from as i64 * g.cell_w as i64,
                    y: row as i64 * g.cell_h as i64 + g.ascent as i64 + 1,
                    w: (to - from) as i64 * g.cell_w as i64,
                    h: thickness,
                    color: (c.0, c.1, c.2, 255),
                },
            )
        },
        None => None,
    }
}

/// Paint a pane: its terminal, then the underline of the link under the mouse.
pub fn paint_pane(snap: &GridSnap, f: &Frame, hover: Option<(i32, usize)>) -> (out: Vec<PaintOp>)
    requires
        f.geom.wf(),
        snap.cells@.len() <= 0xffff_ffff,
    ensures
        crate::render::drawn(out@) == match link_underline(*f, *snap, hover) {
            Some(d) => crate::render::rendered(*f, *snap).push(d),
            None => crate::render::rendered(*f, *snap),
        },
{
    let mut out: Vec<PaintOp> = render(snap, f);
    let ghost before = out@;
    if let Some((row, col)) = hover {
        if let Some(op) = underline_link(snap, f, row, col) {
            out.push(op);
            assert(crate::render::drawn(out@) =~= crate::render::drawn(before).push(op@));
        }
    }
    out
}

/// The cell (x, y, width, height) that an input method's window stays at: that
/// of the text cursor, where its row is not above the screen.
pub fn ime_rect(snap: &GridSnap, g: &GridGeom) -> (r: Option<(i64, i64, i64, i64)>)
    requires
        g.wf(),
    ensures
        r is Some <==> snap.cursor_line + snap.offset >= 0,
        r matches Some(b) ==> b.0 == snap.cursor_col * g.cell_w && b.1 == (snap.cursor_line
            + snap.offset) * g.cell_h && b.2 == g.cell_w && b.3 == g.cell_h,
{
    let row: i64 = snap.cursor_line as i64 + snap.offset as i64;
    if row < 0 {
        return None;
    }
    proof {
        let col = snap.cursor_col;
        assert(0 <= col * g.cell_w <= 0xffff_ffff * 0x7fff_ffff) by (nonlinear_arith)
            requires
                0 <= col <= 0xffff_ffff,
                0 < g.cell_w <= 0x7fff_ffff,
        ;
        assert(0 <= row * g.cell_h <= 0xffff_ffff * 0x7fff_ffff) by (nonlinear_arith)
            requires
                0 <= row <= 0xffff_ffff,
                0 < g.cell_h <= 0x7fff_ffff,
        ;
    }
    Some(
        (
            snap.cursor_col as i64 * g.cell_w as i64,
            row * g.cell_h as i64,
            g.cell_w as i64,
            g.cell_h as i64,
        ),
    )
}

// ---- the scroll bar ----

/// Width of the scroll bar in pixels.
pub const BAR_WIDTH: i32 = 14;

/// A scroll bar from 0 to `max`, at `value`.
#[derive(Clone, Copy, Debug, PartialEq, Eq, Structural)]
pub struct Bar {
    pub max: i32,
    pub page: i32,
    pub value: i32,
}

/// The scroll bar of a terminal: all of its history, at the bottom when it is
/// not scrolled back.
pub open spec fn bar(s: Screen) -> Bar {
    Bar { max: s.history, page: s.lines, value: (s.history - s.offset) as i32 }
}

pub fn sync_scrollbar(s: &Screen) -> (b: Bar)
    requires
        s.wf(),
    ensures
        b == bar(*s),
{
    Bar { max: s.history, page: s.lines, value: s.history - s.offset }
}

/// How far to scroll back when the bar is put at `v`.
pub open spec fn bar_delta(s: Screen, v: int) -> int {
    s.history - v - s.offset
}

/// The bar was put at `v`: how many lines to scroll back, if any. Nothing where
/// the bar itself was being brought up to date.
pub fn scrollbar_moved(s: &Screen, v: i32, syncing: bool) -> (r: Option<i64>)
    requires
        s.wf(),
    ensures
        r == if syncing || bar_delta(*s, v as int) == 0 {
            None
        } else {
            Some(bar_delta(*s, v as int) as i64)
        },
{
    if syncing {
        return None;
    }
    let d: i64 = s.history as i64 - v as i64 - s.offset as i64;
    if d != 0 {
        Some(d)
    } else {
        None
    }
}

/// Wherever the bar is put, the terminal is then scrolled back to where the bar
/// stands for, and the bar's own position moves nothing.
pub proof fn law_bar_follows(s: Screen, v: int)
    requires
        s.wf(),
        0 <= v <= s.history,
    ensures
        ({
            let after = Screen { offset: (s.offset + bar_delta(s, v)) as i32, ..s };
            after.wf() && bar(after).value == v
        }),
        bar_delta(s, bar(s).value as int) == 0,
        bar(s).max == s.history && bar(s).page == s.lines,
        s.offset == 0 ==> bar(s).value == bar(s).max,
        s.offset == s.history ==> bar(s).value == 0,
{
}

// ---- sizes ----

/// What a pane's size comes down to.
#[derive(Clone, Copy, Debug, PartialEq, Eq, Structural)]
pub struct PaneSize {
    pub cols: usize,
    pub lines: usize,
    /// Left edge of the scroll bar.
    pub bar_x: i64,
    pub pty: PtyDims,
}

/// A size as the operating system is told it, in sixteen bits each.
#[derive(Clone, Copy, Debug, PartialEq, Eq, Structural)]
pub struct PtyDims {
    pub rows: u16,
    pub cols: u16,
    pub pixel_width: u16,
    pub pixel_height: u16,
}

/// The lowest sixteen bits of a number.
pub open spec fn low16(n: int) -> u16 {
    (n % 0x1_0000) as u16
}

fn low16_of(n: i64) -> (r: u16)
    requires
        -0x1_0000_0000 <= n,
        n <= 0x1_0000_0000,
    ensures
        r == low16(n as int),
{
    // A multiple of 2^16 on top makes the number positive and keeps its low bits.
    ((n + 0x1_0000_0000) % 0x1_0000) as u16
}

/// The size of a new shell's terminal.
pub fn pty_size(cols: usize, lines: usize) -> (d: PtyDims)
    requires
        cols <= 0x7fff_ffff,
        lines <= 0x7fff_ffff,
    ensures
        d == (PtyDims {
            rows: low16(lines as int),
            cols: low16(cols as int),
            pixel_width: 0,
            pixel_height: 0,
        }),
{
    PtyDims {
        rows: low16_of(lines as i64),
        cols: low16_of(cols as i64),
        pixel_width: 0,
        pixel_height: 0,
    }
}

/// What a pane of `w` by `h` pixels comes down to.
pub fn pane_resized(w: i32, h: i32, g: &GridGeom) -> (r: PaneSize)
    requires
        g.wf(),
    ensures
        r.cols == crate::session::cells_in(w as int, g.cell_w as int),
        r.lines == crate::session::cells_in(h as int, g.cell_h as int),
        r.bar_x == w - BAR_WIDTH,
        r.pty == (PtyDims {
            rows: low16(r.lines as int),
            cols: low16(r.cols as int),
            pixel_width: low16(w as int),
            pixel_height: low16(h as int),
        }),
{
    let (cols, lines): (usize, usize) = grid_size(w, h, g);
    PaneSize {
        cols,
        lines,
        bar_x: w as i64 - BAR_WIDTH as i64,
        pty: PtyDims {
            rows: low16_of(lines as i64),
            cols: low16_of(cols as i64),
            pixel_width: low16_of(w as i64),
            pixel_height: low16_of(h as i64),
        },
    }
}

/// The window's size at the start: the remembered one, else 80 columns and 24
/// lines.
pub fn window_size(st: &State, g: &GridGeom) -> (r: (i64, i64))
    ensures
        r.0 == (match st.window_width {
            Some(w) => w as int,
            None => 80 * g.cell_w,
        }),
        r.1 == (match st.window_height {
            Some(h) => h as int,
            None => 24 * g.cell_h,
        }),
{
    let w: i64 = match st.window_width {
        Some(w) => w as i64,
        None => 80 * g.cell_w as i64,
    };
    let h: i64 = match st.window_height {
        Some(h) => h as i64,
        None => 24 * g.cell_h as i64,
    };
    (w, h)
}

} // verus!
