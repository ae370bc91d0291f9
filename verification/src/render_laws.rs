//! What holds of the drawing of a terminal as a whole.
use vstd::prelude::*;
use crate::cells::CellSnap;
use crate::cells::GridSnap;
use crate::config::CursorShape;
use crate::render::Cursor;
use crate::render::Drawn;
use crate::render::Frame;
use crate::render::GridGeom;
use crate::render::Run;
use crate::render::RunStyle;
use crate::color::Scheme;
use crate::render::Rgba;

verus! {

/// A character and the point where it is drawn.
pub type Glyph = (int, int, char);

/// The characters that an operation draws, each a cell's width after the one
/// before.
pub open spec fn glyphs_of(g: GridGeom, d: Drawn) -> Seq<Glyph> {
    match d {
        Drawn::Text { x, y, text } => Seq::new(
            text.len(),
            |k: int| (x + k * g.cell_w, y, text[k]),
        ),
        _ => seq![],
    }
}

/// The characters that some operations draw, in order.
pub open spec fn glyphs(g: GridGeom, ds: Seq<Drawn>) -> Seq<Glyph>
    decreases ds.len(),
{
    if ds.len() == 0 {
        seq![]
    } else {
        glyphs(g, ds.drop_last()) + glyphs_of(g, ds.last())
    }
}

/// Whether a cell has a character to show.
pub open spec fn shows(cs: CellSnap) -> bool {
    !crate::cells::attrs_of(cs.cell.flags).spacer && cs.cell.c != '\0'
}

/// The characters that some cells show, each on the baseline at the left edge of
/// its own cell.
pub open spec fn shown(f: Frame, cells: Seq<CellSnap>) -> Seq<Glyph>
    decreases cells.len(),
{
    if cells.len() == 0 {
        seq![]
    } else {
        let rest = shown(f, cells.drop_last());
        let cs = cells.last();
        if shows(cs) {
            rest.push(
                (
                    crate::render::cell_x(f, cs),
                    crate::render::cell_y(f, cs) + f.geom.ascent,
                    crate::render::shown_char(cs.cell),
                ),
            )
        } else {
            rest
        }
    }
}

/// Every character is drawn once, in its own cell and in the order of the cells,
/// however the cells are gathered into runs.
pub proof fn law_glyphs_in_their_cells(f: Frame, s: GridSnap)
    ensures
        glyphs(f.geom, crate::render::rendered(f, s)) == shown(f, s.cells@),
{
    let (d, open) = crate::render::painted(f, s, s.cells@);
    lemma_painted(f, s, s.cells@);
    let head = seq![
        Drawn::Font { bold: false, italic: false },
        Drawn::Fill {
            x: 0,
            y: f.y_off as int,
            w: f.width as int,
            h: f.height - f.y_off,
            color: crate::render::opaque(f.scheme.bg),
        },
    ];
    lemma_no_text(f.geom, head);
    lemma_concat(f.geom, head, d);
    lemma_concat(f.geom, head + d, crate::render::flushed(f, open));
    lemma_flushed(f, open);
    assert(glyphs(f.geom, crate::render::rendered(f, s)) =~= shown(f, s.cells@));
}

/// Neighbouring cells of one row and one style, all with ASCII characters, are
/// drawn in one piece.
pub proof fn law_one_run(f: Frame, s: GridSnap, cells: Seq<CellSnap>)
    requires
        cells.len() > 0,
        forall|i: int| 0 <= i < cells.len() ==> shows(#[trigger] cells[i]),
        forall|i: int|
            0 <= i < cells.len() ==> crate::render::is_ascii_char(
                crate::render::shown_char((#[trigger] cells[i]).cell),
            ),
        forall|i: int|
            0 <= i < cells.len() ==> (#[trigger] cells[i]).row == cells[0].row && cells[i].cell.col
                == cells[0].cell.col + i && crate::render::cell_style(cells[i].cell)
                == crate::render::cell_style(cells[0].cell),
    ensures
        crate::render::painted(f, s, cells).1 == Some(
            Run {
                row: cells[0].row as int,
                col: cells[0].cell.col as int,
                style: crate::render::cell_style(cells[0].cell),
                text: cells.map_values(|cs: CellSnap| crate::render::shown_char(cs.cell)),
            },
        ),
        glyphs(f.geom, crate::render::painted(f, s, cells).0) == Seq::<Glyph>::empty(),
    decreases cells.len(),
{
    let text = cells.map_values(|cs: CellSnap| crate::render::shown_char(cs.cell));
    let before = cells.drop_last();
    let last = cells.last();
    let d = crate::render::painted(f, s, before).0;
    lemma_backdrop(f, s, last);
    if cells.len() == 1 {
        assert(before =~= seq![]);
        reveal_with_fuel(crate::render::painted, 2);
        assert(text =~= seq![crate::render::shown_char(last.cell)]);
        assert(d =~= seq![]);
        let back = crate::render::backdrop(f, s, last);
        assert(back + crate::render::flushed(f, None) =~= back);
        assert(d + back =~= back);
    } else {
        assert(before[0] == cells[0]);
        law_one_run(f, s, before);
        assert(text =~= before.map_values(
            |cs: CellSnap| crate::render::shown_char(cs.cell),
        ).push(crate::render::shown_char(last.cell)));
        lemma_concat(f.geom, d, crate::render::backdrop(f, s, last));
    }
    assert(glyphs(f.geom, crate::render::painted(f, s, cells).0) =~= seq![]);
}

/// Where a pane is not focused, the cursor looks the same whatever shape is
/// configured.
pub proof fn law_unfocused_cursor(a: CursorShape, b: CursorShape, w: int, h: int)
    ensures
        crate::render::cursor_boxes((Cursor { shape: a, focused: false }), w, h)
            == crate::render::cursor_boxes((Cursor { shape: b, focused: false }), w, h),
{
}

/// Scrolled back, the cursor is on no cell.
pub proof fn law_no_cursor_in_history(s: GridSnap, cs: CellSnap)
    requires
        s.offset != 0,
    ensures
        !crate::render::holds_cursor(s, cs),
{
}

// ---- proofs ----

proof fn lemma_concat(g: GridGeom, a: Seq<Drawn>, b: Seq<Drawn>)
    ensures
        glyphs(g, a + b) == glyphs(g, a) + glyphs(g, b),
    decreases b.len(),
{
    if b.len() == 0 {
        assert(a + b =~= a);
        assert(glyphs(g, a) + glyphs(g, b) =~= glyphs(g, a));
    } else {
        assert((a + b).drop_last() =~= a + b.drop_last());
        lemma_concat(g, a, b.drop_last());
        assert(glyphs(g, a + b) =~= glyphs(g, a) + glyphs(g, b));
    }
}

proof fn lemma_no_text(g: GridGeom, ds: Seq<Drawn>)
    requires
        forall|i: int| 0 <= i < ds.len() ==> !((#[trigger] ds[i]) is Text),
    ensures
        glyphs(g, ds) == Seq::<Glyph>::empty(),
    decreases ds.len(),
{
    if ds.len() > 0 {
        lemma_no_text(g, ds.drop_last());
        assert(!(ds[ds.len() - 1] is Text));
        assert(glyphs(g, ds) =~= seq![]);
    }
}

proof fn lemma_marks(x: int, end: int, step: int, y: int, w: int, h: int, color: Rgba)
    ensures
        forall|i: int|
            0 <= i < crate::render::marks(x, end, step, y, w, h, color).len() ==> !((
            #[trigger] crate::render::marks(x, end, step, y, w, h, color)[i]) is Text),
    decreases crate::geometry::at_least_0(end - x),
{
    if x < end && step > 0 {
        lemma_marks(x + step, end, step, y, w, h, color);
    }
}

proof fn lemma_decorations(g: GridGeom, st: RunStyle, sc: Scheme, x: int, y: int, w: int)
    ensures
        forall|i: int|
            0 <= i < crate::render::decorations(g, st, sc, x, y, w).len() ==> !((
            #[trigger] crate::render::decorations(g, st, sc, x, y, w)[i]) is Text),
{
    let c = crate::color::resolved(
        match st.uline {
            Some(u) => u,
            None => st.fg,
        },
        sc,
    );
    let lw = crate::render::at_least_1((g.cell_h / 12) as int);
    let uy = y + g.ascent + 1;
    lemma_marks(x, x + w, lw * 3, uy, lw, lw, crate::render::opaque(c));
    lemma_marks(x, x + w, lw * 5, uy, lw * 3, lw, crate::render::opaque(c));
}

/// The characters of a run.
spec fn run_glyphs(f: Frame, r: Run) -> Seq<Glyph> {
    Seq::new(
        r.text.len(),
        |k: int|
            (
                r.col * f.geom.cell_w + k * f.geom.cell_w,
                f.y_off + r.row * f.geom.cell_h + f.geom.ascent,
                r.text[k],
            ),
    )
}

spec fn open_glyphs(f: Frame, r: Option<Run>) -> Seq<Glyph> {
    match r {
        Some(run) => run_glyphs(f, run),
        None => seq![],
    }
}

proof fn lemma_flushed(f: Frame, r: Option<Run>)
    ensures
        glyphs(f.geom, crate::render::flushed(f, r)) == open_glyphs(f, r),
{
    if let Some(run) = r {
        let x = run.col * f.geom.cell_w;
        let y = f.y_off + run.row * f.geom.cell_h;
        let c = crate::color::resolved(run.style.fg, f.scheme);
        let w = run.text.len() * f.geom.cell_w;
        let head = seq![
            Drawn::Font { bold: run.style.bold, italic: run.style.italic },
            Drawn::Pen {
                rgb: if run.style.dim {
                    crate::color::dimmed(c)
                } else {
                    c
                },
            },
        ];
        let text = Drawn::Text { x, y: y + f.geom.ascent, text: run.text };
        let tail = crate::render::decorations(f.geom, run.style, f.scheme, x, y, w);
        lemma_no_text(f.geom, head);
        lemma_decorations(f.geom, run.style, f.scheme, x, y, w);
        lemma_no_text(f.geom, tail);
        assert(head.push(text).drop_last() =~= head);
        lemma_concat(f.geom, head.push(text), tail);
        assert(crate::render::run_drawn(f, run) =~= head.push(text) + tail);
        assert(glyphs(f.geom, crate::render::run_drawn(f, run)) =~= run_glyphs(f, run));
    }
}

proof fn lemma_backdrop(f: Frame, s: GridSnap, cs: CellSnap)
    ensures
        glyphs(f.geom, crate::render::backdrop(f, s, cs)) == Seq::<Glyph>::empty(),
{
    lemma_no_text(f.geom, crate::render::backdrop(f, s, cs));
}

proof fn lemma_glyph(f: Frame, cs: CellSnap)
    ensures
        glyphs(f.geom, crate::render::glyph_drawn(f, cs)) == seq![
            (
                crate::render::cell_x(f, cs),
                crate::render::cell_y(f, cs) + f.geom.ascent,
                crate::render::shown_char(cs.cell),
            ),
        ],
{
    let all = crate::render::glyph_drawn(f, cs);
    let a = all.take(3);
    let b = all.skip(4);
    assert(all =~= a.push(all[3]) + b);
    lemma_concat(f.geom, a.push(all[3]), b);
    lemma_no_text(f.geom, a);
    lemma_no_text(f.geom, b);
    assert(a.push(all[3]).drop_last() =~= a);
    assert(glyphs(f.geom, all) =~= glyphs_of(f.geom, all[3]));
    assert(glyphs(f.geom, all) =~= seq![
        (
            crate::render::cell_x(f, cs),
            crate::render::cell_y(f, cs) + f.geom.ascent,
            crate::render::shown_char(cs.cell),
        ),
    ]);
}

proof fn lemma_painted(f: Frame, s: GridSnap, cells: Seq<CellSnap>)
    ensures
        ({
            let (d, open) = crate::render::painted(f, s, cells);
            glyphs(f.geom, d) + open_glyphs(f, open) == shown(f, cells)
        }),
    decreases cells.len(),
{
    if cells.len() > 0 {
        let before = cells.drop_last();
        let cs = cells.last();
        let (d, open) = crate::render::painted(f, s, before);
        let (more, next) = crate::render::cell_painted(f, s, open, cs);
        let back = crate::render::backdrop(f, s, cs);
        let flush = crate::render::flushed(f, open);
        lemma_painted(f, s, before);
        lemma_concat(f.geom, d, more);
        lemma_backdrop(f, s, cs);
        lemma_flushed(f, open);
        lemma_concat(f.geom, back, flush);
        lemma_concat(f.geom, back + flush, crate::render::glyph_drawn(f, cs));
        lemma_glyph(f, cs);
        let g = (
            crate::render::cell_x(f, cs),
            crate::render::cell_y(f, cs) + f.geom.ascent,
            crate::render::shown_char(cs.cell),
        );
        let old_glyphs = glyphs(f.geom, d) + open_glyphs(f, open);
        if crate::cells::attrs_of(cs.cell.flags).spacer {
            assert(d + more =~= d);
        } else if cs.cell.c == '\0' {
            assert(glyphs(f.geom, d + more) =~= glyphs(f.geom, d));
        } else if !crate::render::is_ascii_char(crate::render::shown_char(cs.cell)) {
            assert(glyphs(f.geom, more) =~= open_glyphs(f, open).push(g));
            assert(glyphs(f.geom, d + more) + open_glyphs(f, next) =~= old_glyphs.push(g));
        } else if crate::render::goes_on(open, cs) {
            let r = open->Some_0;
            assert(r.col * f.geom.cell_w + r.text.len() * f.geom.cell_w == cs.cell.col
                * f.geom.cell_w) by (nonlinear_arith)
                requires
                    r.col + r.text.len() == cs.cell.col,
            ;
            assert(open_glyphs(f, next) =~= open_glyphs(f, open).push(g));
            assert(glyphs(f.geom, d + more) + open_glyphs(f, next) =~= old_glyphs.push(g));
        } else {
            assert(open_glyphs(f, next) =~= seq![g]);
            assert(glyphs(f.geom, more) =~= open_glyphs(f, open));
            assert(glyphs(f.geom, d + more) + open_glyphs(f, next) =~= old_glyphs.push(g));
        }
        assert(glyphs(f.geom, d + more) + open_glyphs(f, next) =~= shown(f, cells));
    } else {
        assert(shown(f, cells) =~= seq![]);
    }
}

} // verus!
