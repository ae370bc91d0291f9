//! Painting a terminal: from its cells to a list of drawing operations.
use vstd::prelude::*;
use crate::cells::Attrs;
use crate::cells::CellSnap;
use crate::cells::Deco;
use crate::cells::GridCell;
use crate::cells::GridSnap;
use crate::cells::cell_attrs;
use crate::cells::selection_contains;
use crate::color::Color;
use crate::color::NamedColor;
use crate::color::Rgb;
use crate::color::Scheme;
use crate::color::cell_colors;
use crate::color::contrast_of;
use crate::color::dim;
use crate::color::rgb_of;
use crate::config::CursorShape;

verus! {

/// Size of a cell in pixels, and how far its baseline is from its top.
#[derive(Clone, Copy, Debug)]
pub struct GridGeom {
    pub cell_w: i32,
    pub cell_h: i32,
    pub ascent: i32,
}

impl GridGeom {
    /// Cells are not empty.
    pub open spec fn wf(self) -> bool {
        self.cell_w > 0 && self.cell_h > 0
    }

    /// The geometry of a font's cells, if they are not empty.
    pub fn new(cell_w: i32, cell_h: i32, ascent: i32) -> (r: Option<GridGeom>)
        ensures
            r is Some <==> cell_w > 0 && cell_h > 0,
            r is Some ==> r->Some_0.wf() && r->Some_0 == (GridGeom { cell_w, cell_h, ascent }),
    {
        if cell_w > 0 && cell_h > 0 {
            Some(GridGeom { cell_w, cell_h, ascent })
        } else {
            None
        }
    }
}

/// How the text cursor is shown: as configured in the focused pane, as a hollow
/// block in the others.
#[derive(Clone, Copy, Debug, PartialEq, Eq, Structural)]
pub struct Cursor {
    pub shape: CursorShape,
    pub focused: bool,
}

/// Where and how a pane is painted.
#[derive(Clone, Copy, Debug)]
pub struct Frame {
    pub geom: GridGeom,
    /// Size of the pane.
    pub width: i32,
    pub height: i32,
    /// Where the first row begins.
    pub y_off: i32,
    pub cursor: Cursor,
    pub scheme: Scheme,
}

/// Red, green, blue and opacity.
pub type Rgba = (u8, u8, u8, u8);

/// A drawing operation.
#[derive(Debug)]
pub enum PaintOp {
    Font { bold: bool, italic: bool },
    Pen { rgb: Rgb },
    Fill { x: i64, y: i64, w: i64, h: i64, color: Rgba },
    /// Text with its first baseline point.
    Text { x: i64, y: i64, text: String },
    /// A wave around the height `y`, with the given amplitude and period, in the
    /// pen's color.
    Wave { x: i64, y: i64, w: i64, amplitude: i64, period: i64 },
    /// Draw only inside a rectangle, up to the matching `Unclip`.
    Clip { x: i64, y: i64, w: i64, h: i64 },
    Unclip,
}

/// A drawing operation over mathematical values.
#[verifier::ext_equal]
pub enum Drawn {
    Font { bold: bool, italic: bool },
    Pen { rgb: Rgb },
    Fill { x: int, y: int, w: int, h: int, color: Rgba },
    Text { x: int, y: int, text: Seq<char> },
    Wave { x: int, y: int, w: int, amplitude: int, period: int },
    Clip { x: int, y: int, w: int, h: int },
    Unclip,
}

impl View for PaintOp {
    type V = Drawn;

    open spec fn view(&self) -> Drawn {
        match *self {
            PaintOp::Font { bold, italic } => Drawn::Font { bold, italic },
            PaintOp::Pen { rgb } => Drawn::Pen { rgb },
            PaintOp::Fill { x, y, w, h, color } => Drawn::Fill {
                x: x as int,
                y: y as int,
                w: w as int,
                h: h as int,
                color,
            },
            PaintOp::Text { x, y, text } => Drawn::Text { x: x as int, y: y as int, text: text@ },
            PaintOp::Wave { x, y, w, amplitude, period } => Drawn::Wave {
                x: x as int,
                y: y as int,
                w: w as int,
                amplitude: amplitude as int,
                period: period as int,
            },
            PaintOp::Clip { x, y, w, h } => Drawn::Clip {
                x: x as int,
                y: y as int,
                w: w as int,
                h: h as int,
            },
            PaintOp::Unclip => Drawn::Unclip,
        }
    }
}

/// A list of drawing operations by their views.
pub open spec fn drawn(ops: Seq<PaintOp>) -> Seq<Drawn> {
    ops.map_values(|o: PaintOp| o@)
}

fn emit(out: &mut Vec<PaintOp>, op: PaintOp)
    ensures
        drawn(final(out)@) == drawn(old(out)@).push(op@),
{
    let ghost before = out@;
    out.push(op);
    assert(drawn(out@) =~= drawn(before).push(op@));
}

// ---- the cursor ----

pub open spec fn at_least_1(n: int) -> int {
    if n < 1 {
        1
    } else {
        n
    }
}

/// The rectangles that show the cursor over a box of `w` by `h` pixels, in the
/// box: all of it for a block, its left edge for a beam, its bottom for an
/// underline, its outline where the pane is not focused.
pub open spec fn cursor_boxes(cur: Cursor, w: int, h: int) -> Seq<(int, int, int, int)> {
    let t = at_least_1(h / 8);
    if !cur.focused {
        seq![(0, 0, w, t), (0, h - t, w, t), (0, 0, t, h), (w - t, 0, t, h)]
    } else {
        match cur.shape {
            CursorShape::Block => seq![(0, 0, w, h)],
            CursorShape::Beam => seq![(0, 0, t, h)],
            CursorShape::Underline => seq![(0, h - t, w, t)],
        }
    }
}

fn at_least_one(n: i64) -> (r: i64)
    ensures
        r == at_least_1(n as int),
{
    if n < 1 {
        1
    } else {
        n
    }
}

/// The rectangles (x, y, width, height) that show the cursor over a box of `cw`
/// by `ch` pixels.
pub fn cursor_rects(cur: Cursor, cw: i64, ch: i64) -> (v: Vec<(i64, i64, i64, i64)>)
    requires
        -0x1_0000_0000 <= cw <= 0x1_0000_0000,
        -0x1_0000_0000 <= ch <= 0x1_0000_0000,
    ensures
        v@.map_values(
            |r: (i64, i64, i64, i64)| (r.0 as int, r.1 as int, r.2 as int, r.3 as int),
        ) == cursor_boxes(cur, cw as int, ch as int),
        v@.len() <= 4,
{
    let t: i64 = at_least_one(ch / 8);
    let bottom: i64 = ch - t;
    let right: i64 = cw - t;
    let v: Vec<(i64, i64, i64, i64)> = if !cur.focused {
        vec![(0, 0, cw, t), (0, bottom, cw, t), (0, 0, t, ch), (right, 0, t, ch)]
    } else {
        match cur.shape {
            CursorShape::Block => vec![(0, 0, cw, ch)],
            CursorShape::Beam => vec![(0, 0, t, ch)],
            CursorShape::Underline => vec![(0, bottom, cw, t)],
        }
    };
    assert(v@.map_values(
        |r: (i64, i64, i64, i64)| (r.0 as int, r.1 as int, r.2 as int, r.3 as int),
    ) =~= cursor_boxes(cur, cw as int, ch as int));
    v
}

// ---- runs of text ----

/// What must be the same for cells to be drawn in one run.
#[derive(Clone, Copy, Debug, PartialEq, Eq, Structural)]
pub struct RunStyle {
    pub fg: Color,
    pub bold: bool,
    pub italic: bool,
    pub dim: bool,
    pub deco: Deco,
    /// Color of underlines, where it is not that of the text.
    pub uline: Option<Color>,
}

/// The style of a cell with foreground `fg`.
pub open spec fn style_of(a: Attrs, uline: Option<Color>, fg: Color) -> RunStyle {
    RunStyle { fg, bold: a.bold, italic: a.italic, dim: a.dim, deco: a.deco, uline }
}

impl RunStyle {
    /// The style of a cell with foreground `fg`.
    pub fn of(a: &Attrs, uline: Option<Color>, fg: Color) -> (s: RunStyle)
        ensures
            s == style_of(*a, uline, fg),
    {
        RunStyle { fg, bold: a.bold, italic: a.italic, dim: a.dim, deco: a.deco, uline }
    }
}

fn same_style(a: &RunStyle, b: &RunStyle) -> (r: bool)
    ensures
        r == (*a == *b),
{
    *a == *b
}

/// A color without transparency.
pub open spec fn opaque(c: Rgb) -> Rgba {
    (c.0, c.1, c.2, 255)
}

/// Marks of `w` by `h` pixels from `x` up to `end`, one every `step` pixels.
pub open spec fn marks(x: int, end: int, step: int, y: int, w: int, h: int, color: Rgba) -> Seq<
    Drawn,
>
    decreases crate::geometry::at_least_0(end - x),
{
    if x < end && step > 0 {
        seq![Drawn::Fill { x, y, w, h, color }] + marks(x + step, end, step, y, w, h, color)
    } else {
        seq![]
    }
}

/// The list itself where `b` holds, else nothing.
pub open spec fn only_if(b: bool, s: Seq<Drawn>) -> Seq<Drawn> {
    if b {
        s
    } else {
        seq![]
    }
}

/// Two thin lines, where `b` holds.
pub open spec fn doubled(b: bool, x: int, y: int, w: int, color: Rgba) -> Seq<Drawn> {
    only_if(
        b,
        seq![Drawn::Fill { x, y, w, h: 1, color }, Drawn::Fill { x, y: y + 2, w, h: 1, color }],
    )
}

/// A wave, where `b` holds.
pub open spec fn curled(
    b: bool,
    x: int,
    y: int,
    w: int,
    amplitude: int,
    period: int,
    rgb: Rgb,
) -> Seq<Drawn> {
    only_if(b, seq![Drawn::Pen { rgb }, Drawn::Wave { x, y, w, amplitude, period }])
}

/// The lines under and through a run of `w` pixels whose cells begin at
/// (`x`, `y`).
pub open spec fn decorations(g: GridGeom, st: RunStyle, sc: Scheme, x: int, y: int, w: int) -> Seq<
    Drawn,
> {
    let c = crate::color::resolved(
        match st.uline {
            Some(u) => u,
            None => st.fg,
        },
        sc,
    );
    let color = opaque(c);
    let lw = at_least_1((g.cell_h / 12) as int);
    let uy = y + g.ascent + 1;
    only_if(st.deco.underline, seq![Drawn::Fill { x, y: uy, w, h: lw, color }]) + doubled(
        st.deco.double,
        x,
        uy,
        w,
        color,
    ) + only_if(st.deco.dotted, marks(x, x + w, lw * 3, uy, lw, lw, color)) + only_if(
        st.deco.dashed,
        marks(x, x + w, lw * 5, uy, lw * 3, lw, color),
    ) + curled(st.deco.curl, x, uy + lw, w, lw, g.cell_w as int, c) + only_if(
        st.deco.strikeout,
        seq![Drawn::Fill { x, y: y + crate::geometry::half(g.cell_h as int), w, h: lw, color }],
    )
}

/// A run of text: the row and column of its first cell, its style and its
/// characters, one per column.
#[verifier::ext_equal]
pub struct Run {
    pub row: int,
    pub col: int,
    pub style: RunStyle,
    pub text: Seq<char>,
}

/// How a run is drawn: its text in one piece, then its lines.
pub open spec fn run_drawn(f: Frame, r: Run) -> Seq<Drawn> {
    let x = r.col * f.geom.cell_w;
    let y = f.y_off + r.row * f.geom.cell_h;
    let c = crate::color::resolved(r.style.fg, f.scheme);
    seq![
        Drawn::Font { bold: r.style.bold, italic: r.style.italic },
        Drawn::Pen {
            rgb: if r.style.dim {
                crate::color::dimmed(c)
            } else {
                c
            },
        },
        Drawn::Text { x, y: y + f.geom.ascent, text: r.text },
    ] + decorations(f.geom, r.style, f.scheme, x, y, r.text.len() * f.geom.cell_w)
}

/// How a run is drawn, if there is one.
pub open spec fn flushed(f: Frame, r: Option<Run>) -> Seq<Drawn> {
    match r {
        Some(run) => run_drawn(f, run),
        None => seq![],
    }
}

fn draw_marks(
    out: &mut Vec<PaintOp>,
    x: i64,
    end: i64,
    step: i64,
    y: i64,
    w: i64,
    h: i64,
    color: Rgba,
)
    requires
        step > 0,
        end + step <= i64::MAX,
    ensures
        drawn(final(out)@) == drawn(old(out)@) + marks(
            x as int,
            end as int,
            step as int,
            y as int,
            w as int,
            h as int,
            color,
        ),
{
    let mut dx: i64 = x;
    let ghost all = drawn(out@) + marks(
        x as int,
        end as int,
        step as int,
        y as int,
        w as int,
        h as int,
        color,
    );
    while dx < end
        invariant
            step > 0,
            end + step <= i64::MAX,
            all == drawn(out@) + marks(
                dx as int,
                end as int,
                step as int,
                y as int,
                w as int,
                h as int,
                color,
            ),
        decreases crate::geometry::at_least_0(end - dx),
    {
        let ghost before = drawn(out@);
        emit(out, PaintOp::Fill { x: dx, y, w, h, color });
        proof {
            let rest = marks(
                dx + step,
                end as int,
                step as int,
                y as int,
                w as int,
                h as int,
                color,
            );
            assert(before + marks(
                dx as int,
                end as int,
                step as int,
                y as int,
                w as int,
                h as int,
                color,
            ) =~= drawn(out@) + rest);
        }
        dx += step;
    }
    assert(all =~= drawn(out@));
}

/// Left edge of a column.
fn column_x(g: &GridGeom, col: u32) -> (x: i64)
    requires
        g.wf(),
    ensures
        x == col * g.cell_w,
        0 <= x <= 0xffff_ffff * 0x7fff_ffff,
{
    assert(0 <= col * g.cell_w <= 0xffff_ffff * 0x7fff_ffff) by (nonlinear_arith)
        requires
            0 <= col <= 0xffff_ffff,
            0 < g.cell_w <= 0x7fff_ffff,
    ;
    col as i64 * g.cell_w as i64
}

/// Top edge of a row.
fn row_y(g: &GridGeom, y_off: i32, row: u32) -> (y: i64)
    requires
        g.wf(),
    ensures
        y == y_off + row * g.cell_h,
        -0x8000_0000 <= y <= 0xffff_ffff * 0x7fff_ffff + 0x7fff_ffff,
{
    assert(0 <= row * g.cell_h <= 0xffff_ffff * 0x7fff_ffff) by (nonlinear_arith)
        requires
            0 <= row <= 0xffff_ffff,
            0 < g.cell_h <= 0x7fff_ffff,
    ;
    y_off as i64 + row as i64 * g.cell_h as i64
}

fn fill_if(out: &mut Vec<PaintOp>, b: bool, x: i64, y: i64, w: i64, h: i64, color: Rgba)
    ensures
        drawn(final(out)@) == drawn(old(out)@) + only_if(
            b,
            seq![Drawn::Fill { x: x as int, y: y as int, w: w as int, h: h as int, color }],
        ),
{
    let ghost before = drawn(out@);
    if b {
        emit(out, PaintOp::Fill { x, y, w, h, color });
    } else {
        assert(before =~= before + only_if(b, seq![]));
    }
}

fn draw_double(out: &mut Vec<PaintOp>, b: bool, x: i64, y: i64, w: i64, color: Rgba)
    requires
        y + 2 <= i64::MAX,
    ensures
        drawn(final(out)@) == drawn(old(out)@) + doubled(b, x as int, y as int, w as int, color),
{
    let ghost before = drawn(out@);
    if b {
        emit(out, PaintOp::Fill { x, y, w, h: 1, color });
        emit(out, PaintOp::Fill { x, y: y + 2, w, h: 1, color });
    }
    assert(drawn(out@) =~= before + doubled(b, x as int, y as int, w as int, color));
}

fn draw_curl(
    out: &mut Vec<PaintOp>,
    b: bool,
    x: i64,
    y: i64,
    w: i64,
    amplitude: i64,
    period: i64,
    rgb: Rgb,
)
    ensures
        drawn(final(out)@) == drawn(old(out)@) + curled(
            b,
            x as int,
            y as int,
            w as int,
            amplitude as int,
            period as int,
            rgb,
        ),
{
    let ghost before = drawn(out@);
    if b {
        emit(out, PaintOp::Pen { rgb });
        emit(out, PaintOp::Wave { x, y, w, amplitude, period });
    }
    assert(drawn(out@) =~= before + curled(
        b,
        x as int,
        y as int,
        w as int,
        amplitude as int,
        period as int,
        rgb,
    ));
}

fn marks_if(
    out: &mut Vec<PaintOp>,
    b: bool,
    x: i64,
    end: i64,
    step: i64,
    y: i64,
    w: i64,
    h: i64,
    color: Rgba,
)
    requires
        step > 0,
        end + step <= i64::MAX,
    ensures
        drawn(final(out)@) == drawn(old(out)@) + only_if(
            b,
            marks(x as int, end as int, step as int, y as int, w as int, h as int, color),
        ),
{
    let ghost before = drawn(out@);
    if b {
        draw_marks(out, x, end, step, y, w, h, color);
    } else {
        assert(before =~= before + only_if(b, seq![]));
    }
}

proof fn lemma_six_more(
    d: Seq<Drawn>,
    a: Seq<Drawn>,
    b: Seq<Drawn>,
    c: Seq<Drawn>,
    e: Seq<Drawn>,
    f: Seq<Drawn>,
    g: Seq<Drawn>,
)
    ensures
        d + a + b + c + e + f + g == d + (a + b + c + e + f + g),
{
    assert(d + a + b + c + e + f + g =~= d + (a + b + c + e + f + g));
}

fn draw_decorations(
    out: &mut Vec<PaintOp>,
    g: &GridGeom,
    st: &RunStyle,
    sc: &Scheme,
    x: i64,
    y: i64,
    w: i64,
)
    requires
        g.wf(),
        -0x8000_0000 <= y <= 0xffff_ffff * 0x7fff_ffff + 0x7fff_ffff,
        0 <= x,
        0 <= w,
        x + w <= 0x1_0000_0000 * 0x7fff_ffff,
    ensures
        drawn(final(out)@) == drawn(old(out)@) + decorations(
            *g,
            *st,
            *sc,
            x as int,
            y as int,
            w as int,
        ),
{
    let line: Color = match st.uline {
        Some(u) => u,
        None => st.fg,
    };
    let c: Rgb = rgb_of(line, sc);
    let color: Rgba = (c.0, c.1, c.2, 255);
    let lw: i64 = at_least_one(g.cell_h as i64 / 12);
    let uy: i64 = y + g.ascent as i64 + 1;
    fill_if(out, st.deco.underline, x, uy, w, lw, color);
    draw_double(out, st.deco.double, x, uy, w, color);
    marks_if(out, st.deco.dotted, x, x + w, lw * 3, uy, lw, lw, color);
    marks_if(out, st.deco.dashed, x, x + w, lw * 5, uy, lw * 3, lw, color);
    draw_curl(out, st.deco.curl, x, uy + lw, w, lw, g.cell_w as i64, c);
    fill_if(out, st.deco.strikeout, x, y + (g.cell_h / 2) as i64, w, lw, color);
    proof {
        let (x, y, w, uy, lw) = (x as int, y as int, w as int, uy as int, lw as int);
        let h = crate::geometry::half(g.cell_h as int);
        lemma_six_more(
            drawn(old(out)@),
            only_if(st.deco.underline, seq![Drawn::Fill { x, y: uy, w, h: lw, color }]),
            doubled(st.deco.double, x, uy, w, color),
            only_if(st.deco.dotted, marks(x, x + w, lw * 3, uy, lw, lw, color)),
            only_if(st.deco.dashed, marks(x, x + w, lw * 5, uy, lw * 3, lw, color)),
            curled(st.deco.curl, x, uy + lw, w, lw, g.cell_w as int, c),
            only_if(st.deco.strikeout, seq![Drawn::Fill { x, y: y + h, w, h: lw, color }]),
        );
    }
}

/// Draw a run of `n` characters that begins in a cell.
fn flush_run(
    out: &mut Vec<PaintOp>,
    f: &Frame,
    text: String,
    n: u64,
    row: u32,
    col: u32,
    st: &RunStyle,
)
    requires
        f.geom.wf(),
        n == text@.len(),
        col + n <= 0x1_0000_0000,
    ensures
        drawn(final(out)@) == drawn(old(out)@) + run_drawn(
            *f,
            Run { row: row as int, col: col as int, style: *st, text: text@ },
        ),
{
    let ghost before = drawn(out@);
    let ghost run = Run { row: row as int, col: col as int, style: *st, text: text@ };
    let g: GridGeom = f.geom;
    emit(out, PaintOp::Font { bold: st.bold, italic: st.italic });
    let c: Rgb = rgb_of(st.fg, &f.scheme);
    let pen: Rgb = if st.dim {
        dim(c)
    } else {
        c
    };
    emit(out, PaintOp::Pen { rgb: pen });
    let x: i64 = column_x(&g, col);
    let y: i64 = row_y(&g, f.y_off, row);
    emit(out, PaintOp::Text { x, y: y + g.ascent as i64, text });
    assert(0 <= n * g.cell_w <= 0x1_0000_0000 * 0x7fff_ffff && col * g.cell_w + n * g.cell_w
        <= 0x1_0000_0000 * 0x7fff_ffff) by (nonlinear_arith)
        requires
            0 <= col,
            0 <= n,
            col + n <= 0x1_0000_0000,
            0 < g.cell_w <= 0x7fff_ffff,
    ;
    let w: i64 = n as i64 * g.cell_w as i64;
    draw_decorations(out, &g, st, &f.scheme, x, y, w);
    assert(drawn(out@) =~= before + run_drawn(*f, run));
}

// ---- cells ----

/// A cell's colors after its attributes.
pub open spec fn colors_of(c: GridCell) -> (Color, Color) {
    let a = crate::cells::attrs_of(c.flags);
    crate::color::effective_colors(c.fg, c.bg, a.inverse, a.bold)
}

/// How many columns a cell's character takes.
pub open spec fn columns_of(c: GridCell) -> int {
    if crate::cells::attrs_of(c.flags).wide {
        2
    } else {
        1
    }
}

/// Whether the cursor is on a cell, or on the second column of its wide
/// character. Scrolled back, the cursor is not shown.
pub open spec fn holds_cursor(s: GridSnap, cs: CellSnap) -> bool {
    s.offset == 0 && s.cursor_line == cs.row && cs.cell.col <= s.cursor_col < cs.cell.col
        + columns_of(cs.cell)
}

/// Whether a cell is selected.
pub open spec fn cell_selected(s: GridSnap, cs: CellSnap) -> bool {
    s.sel is Some && crate::cells::is_selected(s.sel->Some_0, cs.cell.line, cs.cell.col)
}

/// Left edge of a cell.
pub open spec fn cell_x(f: Frame, cs: CellSnap) -> int {
    cs.cell.col * f.geom.cell_w
}

/// Top edge of a cell.
pub open spec fn cell_y(f: Frame, cs: CellSnap) -> int {
    f.y_off + cs.row * f.geom.cell_h
}

/// The cursor over a cell.
pub open spec fn cursor_drawn(f: Frame, cs: CellSnap) -> Seq<Drawn> {
    let c = f.scheme.cursor;
    cursor_boxes(
        f.cursor,
        columns_of(cs.cell) * f.geom.cell_w,
        f.geom.cell_h as int,
    ).map_values(
        |r: (int, int, int, int)|
            Drawn::Fill {
                x: cell_x(f, cs) + r.0,
                y: cell_y(f, cs) + r.1,
                w: r.2,
                h: r.3,
                color: (c.0, c.1, c.2, 110u8),
            },
    )
}

/// What lies behind a cell's character: the cursor, else the tint of a
/// selection, else a background that is not the default one.
pub open spec fn backdrop(f: Frame, s: GridSnap, cs: CellSnap) -> Seq<Drawn> {
    let bg = colors_of(cs.cell).1;
    let x = cell_x(f, cs);
    let y = cell_y(f, cs);
    let w = columns_of(cs.cell) * f.geom.cell_w;
    let h = f.geom.cell_h as int;
    let tint = crate::color::contrast(f.scheme.dark);
    if holds_cursor(s, cs) {
        cursor_drawn(f, cs)
    } else if cell_selected(s, cs) {
        seq![Drawn::Fill { x, y, w, h, color: (tint.0, tint.1, tint.2, 60) }]
    } else if bg != Color::Named(NamedColor::Background) {
        seq![Drawn::Fill { x, y, w, h, color: opaque(crate::color::resolved(bg, f.scheme)) }]
    } else {
        seq![]
    }
}

/// The character that a cell shows: a blank where it is hidden.
pub open spec fn shown_char(c: GridCell) -> char {
    if crate::cells::attrs_of(c.flags).hidden {
        ' '
    } else {
        c.c
    }
}

/// The style of a cell.
pub open spec fn cell_style(c: GridCell) -> RunStyle {
    style_of(crate::cells::attrs_of(c.flags), c.underline, colors_of(c).0)
}

/// A character drawn for itself, pinned and clipped to its cell.
pub open spec fn glyph_drawn(f: Frame, cs: CellSnap) -> Seq<Drawn> {
    let st = cell_style(cs.cell);
    let x = cell_x(f, cs);
    let y = cell_y(f, cs);
    seq![
        Drawn::Font { bold: st.bold, italic: st.italic },
        Drawn::Pen { rgb: crate::color::resolved(st.fg, f.scheme) },
        Drawn::Clip {
            x,
            y,
            w: columns_of(cs.cell) * f.geom.cell_w,
            h: f.geom.cell_h as int,
        },
        Drawn::Text { x, y: y + f.geom.ascent, text: seq![shown_char(cs.cell)] },
        Drawn::Unclip,
    ]
}

pub open spec fn is_ascii_char(c: char) -> bool {
    c < '\u{80}'
}

/// Whether a cell goes on where a run ends, in the same style.
pub open spec fn goes_on(r: Option<Run>, cs: CellSnap) -> bool {
    r is Some && r->Some_0.row == cs.row && r->Some_0.col + r->Some_0.text.len() == cs.cell.col
        && r->Some_0.style == cell_style(cs.cell)
}

/// What painting a cell adds to the drawing, and the run that is then open.
/// The second column of a wide character adds nothing, an empty cell only what
/// lies behind it; a character outside ASCII ends the run and is drawn for
/// itself; any other joins the run or, after that is drawn, begins one.
pub open spec fn cell_painted(f: Frame, s: GridSnap, open: Option<Run>, cs: CellSnap) -> (
    Seq<Drawn>,
    Option<Run>,
) {
    let c = shown_char(cs.cell);
    let back = backdrop(f, s, cs);
    if crate::cells::attrs_of(cs.cell.flags).spacer {
        (seq![], open)
    } else if cs.cell.c == '\0' {
        (back, open)
    } else if !is_ascii_char(c) {
        (back + flushed(f, open) + glyph_drawn(f, cs), None)
    } else if goes_on(open, cs) {
        let r = open->Some_0;
        (back, Some(Run { row: r.row, col: r.col, style: r.style, text: r.text.push(c) }))
    } else {
        (
            back + flushed(f, open),
            Some(
                Run {
                    row: cs.row as int,
                    col: cs.cell.col as int,
                    style: cell_style(cs.cell),
                    text: seq![c],
                },
            ),
        )
    }
}

/// What painting some cells in order draws, and the run that is then open.
pub open spec fn painted(f: Frame, s: GridSnap, cells: Seq<CellSnap>) -> (Seq<Drawn>, Option<Run>)
    decreases cells.len(),
{
    if cells.len() == 0 {
        (seq![], None)
    } else {
        let (d, open) = painted(f, s, cells.drop_last());
        let (more, next) = cell_painted(f, s, open, cells.last());
        (d + more, next)
    }
}

/// The whole drawing: the background, then the cells, then the last run.
pub open spec fn rendered(f: Frame, s: GridSnap) -> Seq<Drawn> {
    let (d, open) = painted(f, s, s.cells@);
    seq![
        Drawn::Font { bold: false, italic: false },
        Drawn::Fill {
            x: 0,
            y: f.y_off as int,
            w: f.width as int,
            h: f.height - f.y_off,
            color: opaque(f.scheme.bg),
        },
    ] + d + flushed(f, open)
}

fn draw_cursor(out: &mut Vec<PaintOp>, f: &Frame, cs: &CellSnap, wide: bool)
    requires
        f.geom.wf(),
        wide == crate::cells::attrs_of(cs.cell.flags).wide,
    ensures
        drawn(final(out)@) == drawn(old(out)@) + cursor_drawn(*f, *cs),
{
    let g: GridGeom = f.geom;
    let x: i64 = column_x(&g, cs.cell.col);
    let y: i64 = row_y(&g, f.y_off, cs.row);
    let w: i64 = if wide {
        2 * g.cell_w as i64
    } else {
        g.cell_w as i64
    };
    let c: Rgb = f.scheme.cursor;
    let boxes: Vec<(i64, i64, i64, i64)> = cursor_rects(f.cursor, w, g.cell_h as i64);
    let ghost before = drawn(out@);
    let ghost all = cursor_drawn(*f, *cs);
    let ghost ints = boxes@.map_values(
        |r: (i64, i64, i64, i64)| (r.0 as int, r.1 as int, r.2 as int, r.3 as int),
    );
    assert(all.take(0) =~= seq![]);
    assert(before =~= before + all.take(0));
    for i in 0..boxes.len()
        invariant
            ints == boxes@.map_values(
                |r: (i64, i64, i64, i64)| (r.0 as int, r.1 as int, r.2 as int, r.3 as int),
            ),
            ints == cursor_boxes(f.cursor, columns_of(cs.cell) * g.cell_w, g.cell_h as int),
            w == columns_of(cs.cell) * g.cell_w,
            g == f.geom,
            g.wf(),
            c == f.scheme.cursor,
            x == cell_x(*f, *cs),
            y == cell_y(*f, *cs),
            0 <= x <= 0xffff_ffff * 0x7fff_ffff,
            -0x8000_0000 <= y <= 0xffff_ffff * 0x7fff_ffff + 0x7fff_ffff,
            all == cursor_drawn(*f, *cs),
            all.len() == boxes@.len(),
            drawn(out@) == before + all.take(i as int),
    {
        let r: (i64, i64, i64, i64) = boxes[i];
        assert(ints[i as int] == (r.0 as int, r.1 as int, r.2 as int, r.3 as int));
        emit(
            out,
            PaintOp::Fill { x: x + r.0, y: y + r.1, w: r.2, h: r.3, color: (c.0, c.1, c.2, 110) },
        );
        assert(all.take(i as int + 1) =~= all.take(i as int).push(all[i as int]));
        assert(drawn(out@) =~= before + all.take(i as int + 1));
    }
    assert(all.take(boxes@.len() as int) =~= all);
}

fn draw_backdrop(out: &mut Vec<PaintOp>, f: &Frame, s: &GridSnap, cs: &CellSnap, a: &Attrs)
    requires
        f.geom.wf(),
        *a == crate::cells::attrs_of(cs.cell.flags),
    ensures
        drawn(final(out)@) == drawn(old(out)@) + backdrop(*f, *s, *cs),
{
    let g: GridGeom = f.geom;
    let x: i64 = column_x(&g, cs.cell.col);
    let y: i64 = row_y(&g, f.y_off, cs.row);
    let w: i64 = if a.wide {
        2 * g.cell_w as i64
    } else {
        g.cell_w as i64
    };
    let h: i64 = g.cell_h as i64;
    let col: u64 = cs.cell.col as u64;
    let cursor_col: u64 = s.cursor_col as u64;
    let here: bool = cursor_col == col || (a.wide && cursor_col == col + 1);
    let ghost before = drawn(out@);
    if s.offset == 0 && s.cursor_line as i64 == cs.row as i64 && here {
        draw_cursor(out, f, cs, a.wide);
        return ;
    }
    let selected: bool = match &s.sel {
        Some(r) => selection_contains(r, cs.cell.line, cs.cell.col),
        None => false,
    };
    let (_, bg): (Color, Color) = cell_colors(cs.cell.fg, cs.cell.bg, a.inverse, a.bold);
    if selected {
        let t: Rgb = contrast_of(f.scheme.dark);
        emit(out, PaintOp::Fill { x, y, w, h, color: (t.0, t.1, t.2, 60) });
    } else if bg != Color::Named(NamedColor::Background) {
        let c: Rgb = rgb_of(bg, &f.scheme);
        emit(out, PaintOp::Fill { x, y, w, h, color: (c.0, c.1, c.2, 255) });
    } else {
        assert(before =~= before + seq![]);
    }
}

fn draw_glyph(
    out: &mut Vec<PaintOp>,
    f: &Frame,
    cs: &CellSnap,
    a: &Attrs,
    st: &RunStyle,
    c: char,
)
    requires
        f.geom.wf(),
        *a == crate::cells::attrs_of(cs.cell.flags),
        *st == cell_style(cs.cell),
        c == shown_char(cs.cell),
    ensures
        drawn(final(out)@) == drawn(old(out)@) + glyph_drawn(*f, *cs),
{
    let g: GridGeom = f.geom;
    let x: i64 = column_x(&g, cs.cell.col);
    let y: i64 = row_y(&g, f.y_off, cs.row);
    let w: i64 = if a.wide {
        2 * g.cell_w as i64
    } else {
        g.cell_w as i64
    };
    let mut text: String = String::new();
    text.push(c);
    assert(text@ =~= seq![c]);
    let ghost before = drawn(out@);
    emit(out, PaintOp::Font { bold: st.bold, italic: st.italic });
    emit(out, PaintOp::Pen { rgb: rgb_of(st.fg, &f.scheme) });
    emit(out, PaintOp::Clip { x, y, w, h: g.cell_h as i64 });
    emit(out, PaintOp::Text { x, y: y + g.ascent as i64, text });
    emit(out, PaintOp::Unclip);
    assert(drawn(out@) =~= before + glyph_drawn(*f, *cs));
}

/// A run that is being collected.
struct OpenRun {
    row: u32,
    col: u32,
    style: RunStyle,
    text: String,
    n: u64,
}

impl OpenRun {
    spec fn run(self) -> Run {
        Run {
            row: self.row as int,
            col: self.col as int,
            style: self.style,
            text: self.text@,
        }
    }

    spec fn wf(self) -> bool {
        self.n == self.text@.len() && self.col + self.n <= 0x1_0000_0000
    }
}

spec fn run_in(r: Option<OpenRun>) -> Option<Run> {
    match r {
        Some(o) => Some(o.run()),
        None => None,
    }
}

fn flush_open(out: &mut Vec<PaintOp>, f: &Frame, open: Option<OpenRun>)
    requires
        f.geom.wf(),
        open is Some ==> open->Some_0.wf(),
    ensures
        drawn(final(out)@) == drawn(old(out)@) + flushed(*f, run_in(open)),
{
    let ghost before = drawn(out@);
    match open {
        Some(r) => flush_run(out, f, r.text, r.n, r.row, r.col, &r.style),
        None => {
            assert(before =~= before + seq![]);
        },
    }
}

fn paint_cell(
    out: &mut Vec<PaintOp>,
    f: &Frame,
    s: &GridSnap,
    open: Option<OpenRun>,
    cs: &CellSnap,
) -> (next: Option<OpenRun>)
    requires
        f.geom.wf(),
        open is Some ==> open->Some_0.wf(),
    ensures
        next is Some ==> next->Some_0.wf(),
        drawn(final(out)@) == drawn(old(out)@) + cell_painted(*f, *s, run_in(open), *cs).0,
        run_in(next) == cell_painted(*f, *s, run_in(open), *cs).1,
{
    let a: Attrs = cell_attrs(cs.cell.flags);
    let ghost before = drawn(out@);
    if a.spacer {
        assert(before =~= before + seq![]);
        return open;
    }
    draw_backdrop(out, f, s, cs, &a);
    if cs.cell.c == '\0' {
        return open;
    }
    let (fg, _): (Color, Color) = cell_colors(cs.cell.fg, cs.cell.bg, a.inverse, a.bold);
    let st: RunStyle = RunStyle::of(&a, cs.cell.underline, fg);
    let c: char = if a.hidden {
        ' '
    } else {
        cs.cell.c
    };
    let ghost model = cell_painted(*f, *s, run_in(open), *cs);
    if c >= '\u{80}' {
        flush_open(out, f, open);
        draw_glyph(out, f, cs, &a, &st, c);
        assert(drawn(out@) =~= before + model.0);
        return None;
    }
    let joins: bool = match &open {
        Some(r) => r.row == cs.row && r.col as u64 + r.n == cs.cell.col as u64 && same_style(
            &r.style,
            &st,
        ),
        None => false,
    };
    if joins {
        if let Some(r) = open {
            let mut r: OpenRun = r;
            r.text.push(c);
            r.n += 1;
            return Some(r);
        }
    }
    flush_open(out, f, open);
    assert(drawn(out@) =~= before + model.0);
    let mut text: String = String::new();
    text.push(c);
    assert(text@ =~= seq![c]);
    Some(OpenRun { row: cs.row, col: cs.cell.col, style: st, text, n: 1 })
}

/// Paint a terminal.
pub fn render(snap: &GridSnap, f: &Frame) -> (out: Vec<PaintOp>)
    requires
        f.geom.wf(),
    ensures
        drawn(out@) == rendered(*f, *snap),
{
    let mut out: Vec<PaintOp> = Vec::new();
    emit(&mut out, PaintOp::Font { bold: false, italic: false });
    let bg: Rgb = rgb_of(Color::Named(NamedColor::Background), &f.scheme);
    emit(
        &mut out,
        PaintOp::Fill {
            x: 0,
            y: f.y_off as i64,
            w: f.width as i64,
            h: f.height as i64 - f.y_off as i64,
            color: (bg.0, bg.1, bg.2, 255),
        },
    );
    let ghost head = drawn(out@);
    let mut open: Option<OpenRun> = None;
    assert(head =~= head + painted(*f, *snap, snap.cells@.take(0)).0);
    for i in 0..snap.cells.len()
        invariant
            f.geom.wf(),
            open is Some ==> open->Some_0.wf(),
            drawn(out@) == head + painted(*f, *snap, snap.cells@.take(i as int)).0,
            run_in(open) == painted(*f, *snap, snap.cells@.take(i as int)).1,
    {
        assert(snap.cells@.take(i as int + 1).drop_last() =~= snap.cells@.take(i as int));
        let cs: CellSnap = snap.cells[i];
        open = paint_cell(&mut out, f, snap, open, &cs);
        assert(drawn(out@) =~= head + painted(*f, *snap, snap.cells@.take(i as int + 1)).0);
    }
    assert(snap.cells@.take(snap.cells@.len() as int) =~= snap.cells@);
    flush_open(&mut out, f, open);
    assert(head =~= seq![
        Drawn::Font { bold: false, italic: false },
        Drawn::Fill {
            x: 0,
            y: f.y_off as int,
            w: f.width as int,
            h: f.height - f.y_off,
            color: opaque(f.scheme.bg),
        },
    ]);
    out
}

} // verus!
