//! What ends up on each pixel of a drawn terminal: lines under and through text,
//! what lies behind the cells, and the color and font of every character.
use vstd::prelude::*;
use crate::cells::CellSnap;
use crate::cells::Deco;
use crate::cells::GridCell;
use crate::cells::GridSnap;
use crate::color::Color;
use crate::color::NamedColor;
use crate::color::Rgb;
use crate::color::Scheme;
use crate::config::CursorShape;
use crate::render::Cursor;
use crate::render::Drawn;
use crate::render::Frame;
use crate::render::GridGeom;
use crate::render::Rgba;
use crate::render::Run;
use crate::render::RunStyle;

verus! {

/// An operation fills the pixel (px, py) with a color.
pub open spec fn fills(d: Drawn, px: int, py: int, color: Rgba) -> bool {
    d matches Drawn::Fill { x, y, w, h, color: c } && c == color && x <= px < x + w && y <= py < y
        + h
}

/// Some operation of the list fills the pixel (px, py) with a color.
pub open spec fn filled_at(ds: Seq<Drawn>, px: int, py: int, color: Rgba) -> bool {
    exists|i: int| 0 <= i < ds.len() && fills(#[trigger] ds[i], px, py, color)
}

/// An operation draws a wave over the column of pixels px, up and down a line's
/// thickness around the height `y`, once per cell.
pub open spec fn waves(d: Drawn, g: GridGeom, px: int, y: int) -> bool {
    d matches Drawn::Wave { x, y: at, w, amplitude, period } && x <= px < x + w && at == y
        && amplitude == thickness(g) && period == g.cell_w
}

/// Some such wave of the list is drawn with a pen of the color.
pub open spec fn waved_at(ds: Seq<Drawn>, g: GridGeom, px: int, y: int, color: Rgba) -> bool {
    exists|i: int|
        1 <= i < ds.len() && waves(#[trigger] ds[i], g, px, y) && ds[i - 1] == (Drawn::Pen {
            rgb: (color.0, color.1, color.2),
        })
}

/// How thick the lines under and through text are: a twelfth of a cell's height,
/// and not less than a pixel.
pub open spec fn thickness(g: GridGeom) -> int {
    if g.cell_h < 24 {
        1
    } else {
        g.cell_h as int / 12
    }
}

/// The column of pixels px has every unbroken line that `d` asks for, in a cell
/// whose top edge is at `top`: an underline just below the baseline, two thin
/// ones with a pixel between them, a line through the middle, a wave.
pub open spec fn lined(ds: Seq<Drawn>, d: Deco, g: GridGeom, px: int, top: int, color: Rgba) -> bool {
    let base = top + g.ascent;
    &&& d.underline ==> forall|py: int|
        base + 1 <= py < base + 1 + thickness(g) ==> #[trigger] filled_at(ds, px, py, color)
    &&& d.double ==> filled_at(ds, px, base + 1, color) && filled_at(ds, px, base + 3, color)
    &&& d.strikeout ==> forall|py: int|
        top + g.cell_h as int / 2 <= py < top + g.cell_h as int / 2 + thickness(g) ==> #[trigger]
            filled_at(ds, px, py, color)
    &&& d.curl ==> waved_at(ds, g, px, base + 1 + thickness(g), color)
}

/// The color of a cell's lines: the one set for underlines, else the text's.
pub open spec fn line_color(c: GridCell, sc: Scheme) -> Rgba {
    let rgb = crate::color::resolved(
        match c.underline {
            Some(u) => u,
            None => crate::render::colors_of(c).0,
        },
        sc,
    );
    (rgb.0, rgb.1, rgb.2, 255)
}

proof fn lemma_filled_concat(a: Seq<Drawn>, b: Seq<Drawn>, px: int, py: int, color: Rgba)
    ensures
        filled_at(a + b, px, py, color) == (filled_at(a, px, py, color) || filled_at(
            b,
            px,
            py,
            color,
        )),
{
    let ab = a + b;
    if filled_at(a, px, py, color) {
        let i = choose|i: int| 0 <= i < a.len() && fills(#[trigger] a[i], px, py, color);
        assert(fills(ab[i], px, py, color));
    }
    if filled_at(b, px, py, color) {
        let i = choose|i: int| 0 <= i < b.len() && fills(#[trigger] b[i], px, py, color);
        assert(ab[a.len() + i] == b[i]);
        assert(fills(ab[a.len() + i], px, py, color));
    }
    if filled_at(ab, px, py, color) {
        let i = choose|i: int| 0 <= i < ab.len() && fills(#[trigger] ab[i], px, py, color);
        if i < a.len() {
            assert(fills(a[i], px, py, color));
        } else {
            assert(fills(b[i - a.len()], px, py, color));
        }
    }
}

proof fn lemma_waved_concat(
    a: Seq<Drawn>,
    b: Seq<Drawn>,
    g: GridGeom,
    px: int,
    y: int,
    color: Rgba,
)
    ensures
        waved_at(a, g, px, y, color) || waved_at(b, g, px, y, color) ==> waved_at(
            a + b,
            g,
            px,
            y,
            color,
        ),
{
    let ab = a + b;
    let pen = Drawn::Pen { rgb: (color.0, color.1, color.2) };
    if waved_at(a, g, px, y, color) {
        let i = choose|i: int|
            1 <= i < a.len() && waves(#[trigger] a[i], g, px, y) && a[i - 1] == pen;
        assert(waves(ab[i], g, px, y) && ab[i - 1] == pen);
    } else if waved_at(b, g, px, y, color) {
        let i = choose|i: int|
            1 <= i < b.len() && waves(#[trigger] b[i], g, px, y) && b[i - 1] == pen;
        assert(ab[a.len() + i] == b[i]);
        assert(ab[a.len() + i - 1] == b[i - 1]);
        assert(waves(ab[a.len() + i], g, px, y));
    }
}

/// Lines stay when more is drawn before or after.
proof fn lemma_lined_concat(
    a: Seq<Drawn>,
    b: Seq<Drawn>,
    d: Deco,
    g: GridGeom,
    px: int,
    top: int,
    color: Rgba,
)
    ensures
        lined(a, d, g, px, top, color) || lined(b, d, g, px, top, color) ==> lined(
            a + b,
            d,
            g,
            px,
            top,
            color,
        ),
{
    lemma_waved_concat(a, b, g, px, top + g.ascent + 1 + thickness(g), color);
    assert forall|py: int| #[trigger]
        filled_at(a + b, px, py, color) == (filled_at(a, px, py, color) || filled_at(
            b,
            px,
            py,
            color,
        )) by {
        lemma_filled_concat(a, b, px, py, color);
    }
}

/// The lines of a run reach from its first cell to the end of its last one: every
/// column of pixels of it has them.
pub proof fn law_lines_span_the_run(
    g: GridGeom,
    st: RunStyle,
    sc: Scheme,
    x: int,
    y: int,
    w: int,
    px: int,
)
    requires
        g.wf(),
        x <= px < x + w,
    ensures
        ({
            let rgb = crate::color::resolved(
                match st.uline {
                    Some(u) => u,
                    None => st.fg,
                },
                sc,
            );
            lined(
                crate::render::decorations(g, st, sc, x, y, w),
                st.deco,
                g,
                px,
                y,
                (rgb.0, rgb.1, rgb.2, 255),
            )
        }),
{
    let rgb = crate::color::resolved(
        match st.uline {
            Some(u) => u,
            None => st.fg,
        },
        sc,
    );
    let color: Rgba = (rgb.0, rgb.1, rgb.2, 255);
    let all = crate::render::decorations(g, st, sc, x, y, w);
    let lw = thickness(g);
    let uy = y + g.ascent + 1;
    let p1 = crate::render::only_if(
        st.deco.underline,
        seq![Drawn::Fill { x, y: uy, w, h: lw, color }],
    );
    let p2 = crate::render::doubled(st.deco.double, x, uy, w, color);
    let p3 = crate::render::only_if(
        st.deco.dotted,
        crate::render::marks(x, x + w, lw * 3, uy, lw, lw, color),
    );
    let p4 = crate::render::only_if(
        st.deco.dashed,
        crate::render::marks(x, x + w, lw * 5, uy, lw * 3, lw, color),
    );
    let p5 = crate::render::curled(st.deco.curl, x, uy + lw, w, lw, g.cell_w as int, rgb);
    let p6 = crate::render::only_if(
        st.deco.strikeout,
        seq![Drawn::Fill { x, y: y + g.cell_h as int / 2, w, h: lw, color }],
    );
    assert(all == p1 + p2 + p3 + p4 + p5 + p6);
    if st.deco.underline {
        assert forall|py: int| uy <= py < uy + lw implies #[trigger] filled_at(
            all,
            px,
            py,
            color,
        ) by {
            assert(fills(p1[0], px, py, color));
            lemma_six(p1, p2, p3, p4, p5, p6, px, py, color);
        }
    }
    if st.deco.double {
        assert(fills(p2[0], px, uy, color));
        assert(fills(p2[1], px, uy + 2, color));
        lemma_six(p1, p2, p3, p4, p5, p6, px, uy, color);
        lemma_six(p1, p2, p3, p4, p5, p6, px, uy + 2, color);
    }
    if st.deco.strikeout {
        assert forall|py: int|
            y + g.cell_h as int / 2 <= py < y + g.cell_h as int / 2 + lw implies #[trigger] filled_at(
            all,
            px,
            py,
            color,
        ) by {
            assert(fills(p6[0], px, py, color));
            lemma_six(p1, p2, p3, p4, p5, p6, px, py, color);
        }
    }
    if st.deco.curl {
        assert(waves(p5[1], g, px, uy + lw) && p5[0] == (Drawn::Pen { rgb }));
        lemma_waved_concat(p1 + p2 + p3 + p4, p5, g, px, uy + lw, color);
        lemma_waved_concat(p1 + p2 + p3 + p4 + p5, p6, g, px, uy + lw, color);
    }
}

/// What six lists fill one after the other.
proof fn lemma_six(
    p1: Seq<Drawn>,
    p2: Seq<Drawn>,
    p3: Seq<Drawn>,
    p4: Seq<Drawn>,
    p5: Seq<Drawn>,
    p6: Seq<Drawn>,
    px: int,
    py: int,
    color: Rgba,
)
    ensures
        filled_at(p1 + p2 + p3 + p4 + p5 + p6, px, py, color) == (filled_at(p1, px, py, color)
            || filled_at(p2, px, py, color) || filled_at(p3, px, py, color) || filled_at(
            p4,
            px,
            py,
            color,
        ) || filled_at(p5, px, py, color) || filled_at(p6, px, py, color)),
{
    lemma_filled_concat(p1, p2, px, py, color);
    lemma_filled_concat(p1 + p2, p3, px, py, color);
    lemma_filled_concat(p1 + p2 + p3, p4, px, py, color);
    lemma_filled_concat(p1 + p2 + p3 + p4, p5, px, py, color);
    lemma_filled_concat(p1 + p2 + p3 + p4 + p5, p6, px, py, color);
}

/// A cell is one of a run.
spec fn in_run(open: Option<Run>, cs: CellSnap) -> bool {
    open matches Some(r) && r.row == cs.row && r.col <= cs.cell.col < r.col + r.text.len()
        && r.style == crate::render::cell_style(cs.cell)
}

/// Drawing a run draws the lines of each of its cells.
proof fn lemma_run_lines(f: Frame, r: Run, cs: CellSnap, px: int)
    requires
        f.geom.wf(),
        in_run(Some(r), cs),
        cs.cell.col * f.geom.cell_w <= px < (cs.cell.col + 1) * f.geom.cell_w,
    ensures
        lined(
            crate::render::run_drawn(f, r),
            crate::cells::attrs_of(cs.cell.flags).deco,
            f.geom,
            px,
            f.y_off + cs.row * f.geom.cell_h,
            line_color(cs.cell, f.scheme),
        ),
{
    let cw = f.geom.cell_w as int;
    let x = r.col * f.geom.cell_w;
    let y = f.y_off + r.row * f.geom.cell_h;
    let w = r.text.len() * f.geom.cell_w;
    assert(x <= px < x + w) by (nonlinear_arith)
        requires
            x == r.col * cw,
            w == r.text.len() * cw,
            cs.cell.col * cw <= px < (cs.cell.col + 1) * cw,
            r.col <= cs.cell.col < r.col + r.text.len(),
            cw > 0,
    ;
    law_lines_span_the_run(f.geom, r.style, f.scheme, x, y, w, px);
    let all = crate::render::run_drawn(f, r);
    let tail = crate::render::decorations(f.geom, r.style, f.scheme, x, y, w);
    assert(all =~= all.take(3) + tail);
    lemma_lined_concat(
        all.take(3),
        tail,
        r.style.deco,
        f.geom,
        px,
        y,
        line_color(cs.cell, f.scheme),
    );
}

proof fn lemma_lined_so_far(f: Frame, s: GridSnap, cells: Seq<CellSnap>, i: int, px: int)
    requires
        f.geom.wf(),
        0 <= i < cells.len(),
        crate::render_laws::shows(cells[i]),
        crate::render::is_ascii_char(crate::render::shown_char(cells[i].cell)),
        cells[i].cell.col * f.geom.cell_w <= px < (cells[i].cell.col + 1) * f.geom.cell_w,
    ensures
        ({
            let (d, open) = crate::render::painted(f, s, cells);
            in_run(open, cells[i]) || lined(
                d,
                crate::cells::attrs_of(cells[i].cell.flags).deco,
                f.geom,
                px,
                f.y_off + cells[i].row * f.geom.cell_h,
                line_color(cells[i].cell, f.scheme),
            )
        }),
    decreases cells.len(),
{
    let before = cells.drop_last();
    let (d, open) = crate::render::painted(f, s, before);
    let (more, next) = crate::render::cell_painted(f, s, open, cells.last());
    if i < before.len() {
        lemma_lined_so_far(f, s, before, i, px);
        let cs = cells[i];
        let deco = crate::cells::attrs_of(cs.cell.flags).deco;
        let top = f.y_off + cs.row * f.geom.cell_h;
        let color = line_color(cs.cell, f.scheme);
        lemma_lined_concat(d, more, deco, f.geom, px, top, color);
        if in_run(open, cs) && !in_run(next, cs) {
            let back = crate::render::backdrop(f, s, cells.last());
            let flush = crate::render::flushed(f, open);
            let glyph = crate::render::glyph_drawn(f, cells.last());
            lemma_run_lines(f, open->Some_0, cs, px);
            lemma_lined_concat(back, flush, deco, f.geom, px, top, color);
            lemma_lined_concat(back + flush, glyph, deco, f.geom, px, top, color);
        }
    }
}

/// Every character that is drawn with its neighbours has the unbroken lines that
/// its cell asks for over the whole width of the cell, wherever in a run it is.
pub proof fn law_cells_are_lined(f: Frame, s: GridSnap, i: int, px: int)
    requires
        f.geom.wf(),
        0 <= i < s.cells@.len(),
        crate::render_laws::shows(s.cells@[i]),
        crate::render::is_ascii_char(crate::render::shown_char(s.cells@[i].cell)),
        s.cells@[i].cell.col * f.geom.cell_w <= px < (s.cells@[i].cell.col + 1) * f.geom.cell_w,
    ensures
        lined(
            crate::render::rendered(f, s),
            crate::cells::attrs_of(s.cells@[i].cell.flags).deco,
            f.geom,
            px,
            f.y_off + s.cells@[i].row * f.geom.cell_h,
            line_color(s.cells@[i].cell, f.scheme),
        ),
{
    let cs = s.cells@[i];
    let deco = crate::cells::attrs_of(cs.cell.flags).deco;
    let top = f.y_off + cs.row * f.geom.cell_h;
    let color = line_color(cs.cell, f.scheme);
    let (d, open) = crate::render::painted(f, s, s.cells@);
    let all = crate::render::rendered(f, s);
    let head = all.take(2);
    let flush = crate::render::flushed(f, open);
    assert(all =~= head + d + flush);
    lemma_lined_so_far(f, s, s.cells@, i, px);
    if in_run(open, cs) {
        lemma_run_lines(f, open->Some_0, cs, px);
    }
    lemma_lined_concat(head, d, deco, f.geom, px, top, color);
    lemma_lined_concat(head + d, flush, deco, f.geom, px, top, color);
}

/// Marks stand one every `step` pixels from `x` on, up to `end`, and nothing is
/// filled between them.
pub proof fn law_marks_and_gaps(
    x: int,
    end: int,
    step: int,
    y: int,
    w: int,
    h: int,
    color: Rgba,
    px: int,
    py: int,
)
    requires
        0 < w <= step,
        x <= px < end,
    ensures
        filled_at(crate::render::marks(x, end, step, y, w, h, color), px, py, color) <==> (px - x)
            % step < w && y <= py < y + h,
    decreases end - x,
{
    let one = seq![Drawn::Fill { x, y, w, h, color }];
    let rest = crate::render::marks(x + step, end, step, y, w, h, color);
    lemma_filled_concat(one, rest, px, py, color);
    assert(filled_at(one, px, py, color) == fills(one[0], px, py, color));
    if px < x + step {
        vstd::arithmetic::div_mod::lemma_small_mod((px - x) as nat, step as nat);
        lemma_marks_ahead(x + step, end, step, y, w, h, color, px, py);
    } else {
        law_marks_and_gaps(x + step, end, step, y, w, h, color, px, py);
        vstd::arithmetic::div_mod::lemma_mod_sub_multiples_vanish(px - x, step);
    }
}

/// Marks fill nothing before the first of them.
proof fn lemma_marks_ahead(
    x: int,
    end: int,
    step: int,
    y: int,
    w: int,
    h: int,
    color: Rgba,
    px: int,
    py: int,
)
    requires
        px < x,
    ensures
        !filled_at(crate::render::marks(x, end, step, y, w, h, color), px, py, color),
    decreases crate::geometry::at_least_0(end - x),
{
    if x < end && step > 0 {
        let one = seq![Drawn::Fill { x, y, w, h, color }];
        let rest = crate::render::marks(x + step, end, step, y, w, h, color);
        lemma_filled_concat(one, rest, px, py, color);
        lemma_marks_ahead(x + step, end, step, y, w, h, color, px, py);
    }
}

/// A dotted line has a square dot, as wide as a line is thick, at every third
/// place of a run, a dashed one dashes of three places with two left out between
/// them, both just below the baseline.
pub proof fn law_dots_and_dashes(
    g: GridGeom,
    st: RunStyle,
    sc: Scheme,
    x: int,
    y: int,
    w: int,
    px: int,
    py: int,
)
    requires
        g.wf(),
        x <= px < x + w,
        st.uline is None,
        !st.deco.underline && !st.deco.double && !st.deco.strikeout && !st.deco.curl,
        st.deco.dotted != st.deco.dashed,
    ensures
        ({
            let t = thickness(g);
            let at = px - x;
            let rgb = crate::color::resolved(st.fg, sc);
            let under = y + g.ascent + 1;
            filled_at(
                crate::render::decorations(g, st, sc, x, y, w),
                px,
                py,
                (rgb.0, rgb.1, rgb.2, 255),
            ) <==> under <= py < under + t && (if st.deco.dotted {
                at % (3 * t) < t
            } else {
                at % (5 * t) < 3 * t
            })
        }),
{
    let t = thickness(g);
    let rgb = crate::color::resolved(st.fg, sc);
    let color: Rgba = (rgb.0, rgb.1, rgb.2, 255);
    let under = y + g.ascent + 1;
    let all = crate::render::decorations(g, st, sc, x, y, w);
    if st.deco.dotted {
        assert(all =~= crate::render::marks(x, x + w, t * 3, under, t, t, color));
        law_marks_and_gaps(x, x + w, t * 3, under, t, t, color, px, py);
    } else {
        assert(all =~= crate::render::marks(x, x + w, t * 5, under, t * 3, t, color));
        law_marks_and_gaps(x, x + w, t * 5, under, t * 3, t, color, px, py);
    }
}

/// Unbroken lines fill nothing but what they are: no pixel beside the run, none
/// at another height, and none at all where the style asks for no line.
pub proof fn law_nothing_but_lines(
    g: GridGeom,
    st: RunStyle,
    sc: Scheme,
    x: int,
    y: int,
    w: int,
    px: int,
    py: int,
    color: Rgba,
)
    requires
        g.wf(),
        !st.deco.dotted && !st.deco.dashed,
        filled_at(crate::render::decorations(g, st, sc, x, y, w), px, py, color),
    ensures
        x <= px < x + w,
        ({
            let base = y + g.ascent;
            let middle = y + g.cell_h as int / 2;
            ||| st.deco.underline && base + 1 <= py < base + 1 + thickness(g)
            ||| st.deco.double && (py == base + 1 || py == base + 3)
            ||| st.deco.strikeout && middle <= py < middle + thickness(g)
        }),
{
    let all = crate::render::decorations(g, st, sc, x, y, w);
    let i = choose|i: int| 0 <= i < all.len() && fills(#[trigger] all[i], px, py, color);
    assert(fills(all[i], px, py, color));
}

// ---- behind the characters ----

/// Whether the cursor over a box of `w` by `h` pixels covers the pixel (dx, dy)
/// of the box: all of them for a block, those at the left edge for a beam, those
/// at the bottom for an underline, those at any edge where the pane is not
/// focused. The edges are an eighth of the height thick, at least a pixel.
pub open spec fn cursor_covers(cur: Cursor, w: int, h: int, dx: int, dy: int) -> bool {
    let t = if h < 16 {
        1
    } else {
        h / 8
    };
    if !cur.focused {
        dx < t || dx >= w - t || dy < t || dy >= h - t
    } else {
        match cur.shape {
            CursorShape::Block => true,
            CursorShape::Beam => dx < t,
            CursorShape::Underline => dy >= h - t,
        }
    }
}

/// What lies behind the character of a cell at the pixel (dx, dy) of the cell.
pub open spec fn behind(f: Frame, s: GridSnap, cs: CellSnap, dx: int, dy: int) -> Option<Rgba> {
    let wide = cs.cell.flags & 0x0020 == 0x0020;
    let inverse = cs.cell.flags & 0x0001 == 0x0001;
    let on_cursor = s.offset == 0 && s.cursor_line == cs.row && (s.cursor_col == cs.cell.col || (
    wide && s.cursor_col == cs.cell.col + 1));
    let bg = if inverse {
        cs.cell.fg
    } else {
        cs.cell.bg
    };
    if on_cursor {
        let c = f.scheme.cursor;
        if cursor_covers(
            f.cursor,
            if wide {
                2 * f.geom.cell_w
            } else {
                f.geom.cell_w as int
            },
            f.geom.cell_h as int,
            dx,
            dy,
        ) {
            Some((c.0, c.1, c.2, 110u8))
        } else {
            None
        }
    } else if s.sel matches Some(sel) && crate::cells::is_selected(sel, cs.cell.line, cs.cell.col) {
        if f.scheme.dark {
            Some((255u8, 255u8, 255u8, 60u8))
        } else {
            Some((0u8, 0u8, 0u8, 60u8))
        }
    } else if bg == Color::Named(NamedColor::Background) {
        None
    } else {
        let c = crate::color::resolved(bg, f.scheme);
        Some((c.0, c.1, c.2, 255u8))
    }
}

/// How wide a cell is drawn: two columns for a wide character.
pub open spec fn cell_width(f: Frame, cs: CellSnap) -> int {
    if cs.cell.flags & 0x0020 == 0x0020 {
        2 * f.geom.cell_w
    } else {
        f.geom.cell_w as int
    }
}

proof fn lemma_width(f: Frame, cs: CellSnap)
    ensures
        crate::render::columns_of(cs.cell) * f.geom.cell_w == cell_width(f, cs),
{
    let n = crate::render::columns_of(cs.cell);
    let w = f.geom.cell_w as int;
    assert(n == 1 ==> n * w == w) by (nonlinear_arith);
    assert(n == 2 ==> n * w == 2 * w) by (nonlinear_arith);
}

/// Every pixel of a cell, both columns of a wide one, gets what belongs behind
/// its character: the cursor, else the tint of a selection, else the cell's
/// background where it is not the default one; and nothing else.
pub proof fn law_behind_a_cell(f: Frame, s: GridSnap, cs: CellSnap, dx: int, dy: int, color: Rgba)
    requires
        f.geom.wf(),
        0 <= dx < cell_width(f, cs),
        0 <= dy < f.geom.cell_h,
    ensures
        filled_at(
            crate::render::backdrop(f, s, cs),
            cs.cell.col * f.geom.cell_w + dx,
            f.y_off + cs.row * f.geom.cell_h + dy,
            color,
        ) <==> behind(f, s, cs, dx, dy) == Some(color),
{
    let ds = crate::render::backdrop(f, s, cs);
    let x = cs.cell.col * f.geom.cell_w;
    let y = f.y_off + cs.row * f.geom.cell_h;
    let (px, py) = (x + dx, y + dy);
    lemma_width(f, cs);
    if crate::render::holds_cursor(s, cs) {
        let w = cell_width(f, cs);
        let h = f.geom.cell_h as int;
        let boxes = crate::render::cursor_boxes(f.cursor, w, h);
        assert(ds.len() == boxes.len());
        assert forall|i: int| 0 <= i < boxes.len() implies fills(#[trigger] ds[i], px, py, color)
            == (color == (f.scheme.cursor.0, f.scheme.cursor.1, f.scheme.cursor.2, 110u8)
            && boxes[i].0 <= dx < boxes[i].0 + boxes[i].2 && boxes[i].1 <= dy < boxes[i].1
            + boxes[i].3) by {
            assert(ds[i] == Drawn::Fill {
                x: x + boxes[i].0,
                y: y + boxes[i].1,
                w: boxes[i].2,
                h: boxes[i].3,
                color: (f.scheme.cursor.0, f.scheme.cursor.1, f.scheme.cursor.2, 110u8),
            });
        }
        if behind(f, s, cs, dx, dy) == Some(color) {
            if f.cursor.focused {
                assert(fills(ds[0], px, py, color));
            } else {
                assert(fills(ds[0], px, py, color) || fills(ds[1], px, py, color) || fills(
                    ds[2],
                    px,
                    py,
                    color,
                ) || fills(ds[3], px, py, color));
            }
        }
    } else {
        if behind(f, s, cs, dx, dy) == Some(color) {
            assert(fills(ds[0], px, py, color));
        }
    }
}

/// What is filled for a cell stays in what is filled in the end.
proof fn lemma_behind_so_far(f: Frame, s: GridSnap, cells: Seq<CellSnap>, i: int, px: int, py: int, color: Rgba)
    requires
        0 <= i < cells.len(),
        !crate::cells::attrs_of(cells[i].cell.flags).spacer,
        filled_at(crate::render::backdrop(f, s, cells[i]), px, py, color),
    ensures
        filled_at(crate::render::painted(f, s, cells).0, px, py, color),
    decreases cells.len(),
{
    let before = cells.drop_last();
    let (d, open) = crate::render::painted(f, s, before);
    let (more, next) = crate::render::cell_painted(f, s, open, cells.last());
    lemma_filled_concat(d, more, px, py, color);
    if i < before.len() {
        lemma_behind_so_far(f, s, before, i, px, py, color);
    } else {
        let back = crate::render::backdrop(f, s, cells.last());
        let flush = crate::render::flushed(f, open);
        let glyph = crate::render::glyph_drawn(f, cells.last());
        lemma_filled_concat(back, flush, px, py, color);
        lemma_filled_concat(back + flush, glyph, px, py, color);
    }
}

/// The drawing fills every pixel of every cell with what belongs behind its
/// character, over the pane's own background, which it fills first, from where
/// the rows begin down to the end of the pane.
pub proof fn law_all_is_filled(f: Frame, s: GridSnap, i: int, dx: int, dy: int, px: int, py: int)
    requires
        f.geom.wf(),
        0 <= i < s.cells@.len(),
        s.cells@[i].cell.flags & 0x0040 != 0x0040,
        0 <= dx < cell_width(f, s.cells@[i]),
        0 <= dy < f.geom.cell_h,
    ensures
        behind(f, s, s.cells@[i], dx, dy) matches Some(color) ==> filled_at(
            crate::render::rendered(f, s),
            s.cells@[i].cell.col * f.geom.cell_w + dx,
            f.y_off + s.cells@[i].row * f.geom.cell_h + dy,
            color,
        ),
        0 <= px < f.width && f.y_off <= py < f.height ==> fills(
            crate::render::rendered(f, s)[1],
            px,
            py,
            (f.scheme.bg.0, f.scheme.bg.1, f.scheme.bg.2, 255u8),
        ),
{
    let cs = s.cells@[i];
    let (d, open) = crate::render::painted(f, s, s.cells@);
    let all = crate::render::rendered(f, s);
    let head = all.take(2);
    let flush = crate::render::flushed(f, open);
    assert(all =~= head + d + flush);
    if let Some(color) = behind(f, s, cs, dx, dy) {
        let x = cs.cell.col * f.geom.cell_w + dx;
        let y = f.y_off + cs.row * f.geom.cell_h + dy;
        law_behind_a_cell(f, s, cs, dx, dy, color);
        lemma_behind_so_far(f, s, s.cells@, i, x, y, color);
        lemma_filled_concat(head, d, x, y, color);
        lemma_filled_concat(head + d, flush, x, y, color);
    }
}

// ---- the characters ----

/// The state that characters are drawn in.
pub struct Ink {
    pub bold: bool,
    pub italic: bool,
    pub rgb: Rgb,
    pub clip: Option<(int, int, int, int)>,
}

/// A character on the screen: where it is and how it looks.
pub struct Stroke {
    pub x: int,
    pub y: int,
    pub c: char,
    pub ink: Ink,
}

/// The state after an operation.
pub open spec fn ink_step(k: Ink, d: Drawn) -> Ink {
    match d {
        Drawn::Font { bold, italic } => Ink { bold, italic, rgb: k.rgb, clip: k.clip },
        Drawn::Pen { rgb } => Ink { bold: k.bold, italic: k.italic, rgb, clip: k.clip },
        Drawn::Clip { x, y, w, h } => Ink {
            bold: k.bold,
            italic: k.italic,
            rgb: k.rgb,
            clip: Some((x, y, w, h)),
        },
        Drawn::Unclip => Ink { bold: k.bold, italic: k.italic, rgb: k.rgb, clip: None },
        _ => k,
    }
}

/// The state after some operations.
pub open spec fn ink_after(k: Ink, ds: Seq<Drawn>) -> Ink
    decreases ds.len(),
{
    if ds.len() == 0 {
        k
    } else {
        ink_step(ink_after(k, ds.drop_last()), ds.last())
    }
}

/// Text on the screen, each character a cell's width after the one before.
pub open spec fn written(g: GridGeom, k: Ink, x: int, y: int, text: Seq<char>) -> Seq<Stroke>
    decreases text.len(),
{
    if text.len() == 0 {
        seq![]
    } else {
        written(g, k, x, y, text.drop_last()).push(
            Stroke { x: x + (text.len() - 1) * g.cell_w, y, c: text.last(), ink: k },
        )
    }
}

/// The characters that an operation puts on the screen.
pub open spec fn strokes_of(g: GridGeom, k: Ink, d: Drawn) -> Seq<Stroke> {
    match d {
        Drawn::Text { x, y, text } => written(g, k, x, y, text),
        _ => seq![],
    }
}

/// The characters that some operations put on the screen, in order.
pub open spec fn strokes(g: GridGeom, k: Ink, ds: Seq<Drawn>) -> Seq<Stroke>
    decreases ds.len(),
{
    if ds.len() == 0 {
        seq![]
    } else {
        strokes(g, k, ds.drop_last()) + strokes_of(g, ink_after(k, ds.drop_last()), ds.last())
    }
}

/// How the character of a cell belongs on the screen: at the cell's left edge on
/// its baseline, bold, italic and colored as the cell says, dim where it is an
/// ASCII character that asks for it; any other is kept inside its cell.
pub open spec fn stroke(f: Frame, cs: CellSnap) -> Stroke {
    let bits = cs.cell.flags;
    let bold = bits & 0x0002 == 0x0002;
    let (x, y) = (cs.cell.col * f.geom.cell_w, f.y_off + cs.row * f.geom.cell_h);
    let color = if bits & 0x0001 == 0x0001 {
        cs.cell.bg
    } else {
        cs.cell.fg
    };
    let rgb = crate::color::resolved(
        if bold {
            crate::color::brightened(color)
        } else {
            color
        },
        f.scheme,
    );
    let c = if bits & 0x0100 == 0x0100 {
        ' '
    } else {
        cs.cell.c
    };
    let ascii = c < '\u{80}';
    Stroke {
        x,
        y: y + f.geom.ascent,
        c,
        ink: Ink {
            bold,
            italic: bits & 0x0004 == 0x0004,
            rgb: if ascii && bits & 0x0080 == 0x0080 {
                crate::color::dimmed(rgb)
            } else {
                rgb
            },
            clip: if ascii {
                None
            } else {
                Some((x, y, cell_width(f, cs), f.geom.cell_h as int))
            },
        },
    }
}

/// The characters of some cells, in order.
pub open spec fn strokes_owed(f: Frame, cells: Seq<CellSnap>) -> Seq<Stroke>
    decreases cells.len(),
{
    if cells.len() == 0 {
        seq![]
    } else {
        let rest = strokes_owed(f, cells.drop_last());
        let cs = cells.last();
        if cs.cell.flags & 0x0040 == 0x0040 || cs.cell.c == '\0' {
            rest
        } else {
            rest.push(stroke(f, cs))
        }
    }
}

/// Every character is drawn once, in the order of the cells, in its own place,
/// font and color, however the cells are gathered into runs and whatever was
/// drawn before.
pub proof fn law_characters_look_as_their_cells_say(f: Frame, s: GridSnap, k: Ink)
    requires
        k.clip is None,
    ensures
        strokes(f.geom, k, crate::render::rendered(f, s)) == strokes_owed(f, s.cells@),
{
    let (d, open) = crate::render::painted(f, s, s.cells@);
    let all = crate::render::rendered(f, s);
    let head = all.take(2);
    let flush = crate::render::flushed(f, open);
    assert(all =~= head + d + flush);
    lemma_plain(f.geom, k, head);
    let k1 = ink_after(k, head);
    lemma_strokes_concat(f.geom, k, head, d);
    lemma_strokes_painted(f, s, s.cells@, k1);
    lemma_strokes_concat(f.geom, k, head + d, flush);
    lemma_strokes_flushed(f, open, ink_after(k1, d));
    assert(strokes(f.geom, k, all) =~= strokes_owed(f, s.cells@));
}

proof fn lemma_strokes_concat(g: GridGeom, k: Ink, a: Seq<Drawn>, b: Seq<Drawn>)
    ensures
        ink_after(k, a + b) == ink_after(ink_after(k, a), b),
        strokes(g, k, a + b) == strokes(g, k, a) + strokes(g, ink_after(k, a), b),
    decreases b.len(),
{
    if b.len() == 0 {
        assert(a + b =~= a);
        assert(strokes(g, k, a) + strokes(g, ink_after(k, a), b) =~= strokes(g, k, a));
    } else {
        assert((a + b).drop_last() =~= a + b.drop_last());
        lemma_strokes_concat(g, k, a, b.drop_last());
        assert(strokes(g, k, a + b) =~= strokes(g, k, a) + strokes(g, ink_after(k, a), b));
    }
}

/// Operations that neither write nor clip.
spec fn plain(ds: Seq<Drawn>) -> bool {
    forall|i: int|
        0 <= i < ds.len() ==> !((#[trigger] ds[i]) is Text) && !(ds[i] is Clip) && !(
        ds[i] is Unclip)
}

proof fn lemma_plain(g: GridGeom, k: Ink, ds: Seq<Drawn>)
    requires
        plain(ds),
    ensures
        strokes(g, k, ds) == Seq::<Stroke>::empty(),
        ink_after(k, ds).clip == k.clip,
    decreases ds.len(),
{
    if ds.len() > 0 {
        lemma_plain(g, k, ds.drop_last());
        assert(!(ds[ds.len() - 1] is Text));
        assert(strokes(g, k, ds) =~= seq![]);
    }
}

proof fn lemma_marks_plain(x: int, end: int, step: int, y: int, w: int, h: int, color: Rgba)
    ensures
        plain(crate::render::marks(x, end, step, y, w, h, color)),
    decreases crate::geometry::at_least_0(end - x),
{
    if x < end && step > 0 {
        lemma_marks_plain(x + step, end, step, y, w, h, color);
    }
}

proof fn lemma_decorations_plain(g: GridGeom, st: RunStyle, sc: Scheme, x: int, y: int, w: int)
    ensures
        plain(crate::render::decorations(g, st, sc, x, y, w)),
{
    let c = crate::color::resolved(
        match st.uline {
            Some(u) => u,
            None => st.fg,
        },
        sc,
    );
    let lw = crate::render::at_least_1((g.cell_h / 12) as int);
    let uy = y + g.ascent + 1;
    lemma_marks_plain(x, x + w, lw * 3, uy, lw, lw, crate::render::opaque(c));
    lemma_marks_plain(x, x + w, lw * 5, uy, lw * 3, lw, crate::render::opaque(c));
}

/// The characters of a run that is not drawn yet.
spec fn open_strokes(f: Frame, open: Option<Run>) -> Seq<Stroke> {
    match open {
        Some(r) => {
            let c = crate::color::resolved(r.style.fg, f.scheme);
            written(
                f.geom,
                Ink {
                    bold: r.style.bold,
                    italic: r.style.italic,
                    rgb: if r.style.dim {
                        crate::color::dimmed(c)
                    } else {
                        c
                    },
                    clip: None,
                },
                r.col * f.geom.cell_w,
                f.y_off + r.row * f.geom.cell_h + f.geom.ascent,
                r.text,
            )
        },
        None => seq![],
    }
}

proof fn lemma_strokes_flushed(f: Frame, open: Option<Run>, k: Ink)
    requires
        k.clip is None,
    ensures
        strokes(f.geom, k, crate::render::flushed(f, open)) == open_strokes(f, open),
        ink_after(k, crate::render::flushed(f, open)).clip is None,
{
    if let Some(r) = open {
        let x = r.col * f.geom.cell_w;
        let y = f.y_off + r.row * f.geom.cell_h;
        let w = r.text.len() * f.geom.cell_w;
        let all = crate::render::run_drawn(f, r);
        let font = all.take(1);
        let head = all.take(2);
        let three = all.take(3);
        let tail = crate::render::decorations(f.geom, r.style, f.scheme, x, y, w);
        assert(font.drop_last() =~= seq![]);
        assert(head.drop_last() =~= font);
        assert(three.drop_last() =~= head);
        assert(all =~= three + tail);
        reveal_with_fuel(ink_after, 4);
        lemma_plain(f.geom, k, head);
        lemma_decorations_plain(f.geom, r.style, f.scheme, x, y, w);
        lemma_strokes_concat(f.geom, k, three, tail);
        lemma_plain(f.geom, ink_after(k, three), tail);
        assert(strokes(f.geom, k, three) =~= open_strokes(f, open));
        assert(strokes(f.geom, k, all) =~= open_strokes(f, open));
    }
}

proof fn lemma_strokes_glyph(f: Frame, cs: CellSnap, k: Ink)
    requires
        !crate::render::is_ascii_char(crate::render::shown_char(cs.cell)),
    ensures
        strokes(f.geom, k, crate::render::glyph_drawn(f, cs)) == seq![stroke(f, cs)],
        ink_after(k, crate::render::glyph_drawn(f, cs)).clip is None,
{
    let all = crate::render::glyph_drawn(f, cs);
    lemma_width(f, cs);
    let (a1, a2, a3, a4) = (all.take(1), all.take(2), all.take(3), all.take(4));
    assert(a1.drop_last() =~= seq![]);
    assert(a2.drop_last() =~= a1);
    assert(a3.drop_last() =~= a2);
    assert(a4.drop_last() =~= a3);
    assert(all.drop_last() =~= a4);
    reveal_with_fuel(ink_after, 6);
    reveal_with_fuel(strokes, 6);
    let ink = ink_after(k, a3);
    assert(ink == stroke(f, cs).ink);
    assert(strokes(f.geom, k, a3) =~= seq![]);
    let t = seq![crate::render::shown_char(cs.cell)];
    assert(t.drop_last() =~= seq![]);
    assert((t.len() - 1) * f.geom.cell_w == 0) by (nonlinear_arith)
        requires
            t.len() == 1,
    ;
    reveal_with_fuel(written, 2);
    assert(strokes_of(f.geom, ink, all[3]) =~= seq![stroke(f, cs)]);
    assert(strokes(f.geom, k, a4) =~= seq![stroke(f, cs)]);
    assert(strokes(f.geom, k, all) =~= seq![stroke(f, cs)]);
}

/// A cell that joins a run adds its character.
proof fn lemma_run_grows(f: Frame, r: Run, n: Run, cs: CellSnap)
    requires
        crate::render::goes_on(Some(r), cs),
        crate::render::is_ascii_char(crate::render::shown_char(cs.cell)),
        n == (Run {
            row: r.row,
            col: r.col,
            style: r.style,
            text: r.text.push(crate::render::shown_char(cs.cell)),
        }),
    ensures
        open_strokes(f, Some(n)) == open_strokes(f, Some(r)).push(stroke(f, cs)),
{
    assert(n.text.drop_last() =~= r.text);
    assert(r.col * f.geom.cell_w + r.text.len() * f.geom.cell_w == cs.cell.col * f.geom.cell_w)
        by (nonlinear_arith)
        requires
            r.col + r.text.len() == cs.cell.col,
    ;
    assert(n.text.len() - 1 == r.text.len());
}

/// A run that a cell begins holds its character.
proof fn lemma_run_begins(f: Frame, n: Run, cs: CellSnap)
    requires
        crate::render::is_ascii_char(crate::render::shown_char(cs.cell)),
        n == (Run {
            row: cs.row as int,
            col: cs.cell.col as int,
            style: crate::render::cell_style(cs.cell),
            text: seq![crate::render::shown_char(cs.cell)],
        }),
    ensures
        open_strokes(f, Some(n)) == seq![stroke(f, cs)],
{
    assert(n.text.drop_last() =~= seq![]);
    assert((n.text.len() - 1) * f.geom.cell_w == 0) by (nonlinear_arith)
        requires
            n.text.len() == 1,
    ;
    reveal_with_fuel(written, 2);
    assert(open_strokes(f, Some(n)) =~= seq![stroke(f, cs)]);
}

proof fn lemma_strokes_painted(f: Frame, s: GridSnap, cells: Seq<CellSnap>, k: Ink)
    requires
        k.clip is None,
    ensures
        ({
            let (d, open) = crate::render::painted(f, s, cells);
            &&& strokes(f.geom, k, d) + open_strokes(f, open) == strokes_owed(f, cells)
            &&& ink_after(k, d).clip is None
        }),
    decreases cells.len(),
{
    if cells.len() == 0 {
        assert(strokes_owed(f, cells) =~= seq![]);
    } else {
        let before = cells.drop_last();
        let cs = cells.last();
        let (d, open) = crate::render::painted(f, s, before);
        let (more, next) = crate::render::cell_painted(f, s, open, cs);
        let back = crate::render::backdrop(f, s, cs);
        let flush = crate::render::flushed(f, open);
        let glyph = crate::render::glyph_drawn(f, cs);
        lemma_strokes_painted(f, s, before, k);
        let k1 = ink_after(k, d);
        assert(plain(back));
        lemma_plain(f.geom, k1, back);
        let k2 = ink_after(k1, back);
        lemma_strokes_flushed(f, open, k2);
        let k3 = ink_after(k2, flush);
        lemma_strokes_concat(f.geom, k, d, more);
        lemma_strokes_concat(f.geom, k1, back, flush);
        lemma_strokes_concat(f.geom, k1, back + flush, glyph);
        let had = strokes(f.geom, k, d) + open_strokes(f, open);
        let now = strokes(f.geom, k, d + more) + open_strokes(f, next);
        if crate::cells::attrs_of(cs.cell.flags).spacer {
            assert(d + more =~= d);
            assert(now =~= had);
        } else if cs.cell.c == '\0' {
            assert(now =~= had);
        } else if !crate::render::is_ascii_char(crate::render::shown_char(cs.cell)) {
            lemma_strokes_glyph(f, cs, k3);
            assert(now =~= had.push(stroke(f, cs)));
        } else if crate::render::goes_on(open, cs) {
            lemma_run_grows(f, open->Some_0, next->Some_0, cs);
            assert(now =~= had.push(stroke(f, cs)));
        } else {
            lemma_run_begins(f, next->Some_0, cs);
            assert(now =~= had.push(stroke(f, cs)));
        }
        assert(now =~= strokes_owed(f, cells));
    }
}

// ---- what is drawn first ----

/// At some point of the drawing the pixel (px, py) is filled with the color, and
/// the character is written only after it.
pub open spec fn written_over(
    g: GridGeom,
    k: Ink,
    ds: Seq<Drawn>,
    n: int,
    px: int,
    py: int,
    color: Rgba,
    c: Stroke,
) -> bool {
    &&& 0 <= n <= ds.len()
    &&& filled_at(ds.take(n), px, py, color)
    &&& strokes(g, ink_after(k, ds.take(n)), ds.skip(n)).contains(c)
}

/// Characters are written over what lies behind their cells, never under it.
pub proof fn law_text_over_backdrop(f: Frame, s: GridSnap, k: Ink, i: int, dx: int, dy: int)
    requires
        f.geom.wf(),
        k.clip is None,
        0 <= i < s.cells@.len(),
        s.cells@[i].cell.flags & 0x0040 != 0x0040,
        s.cells@[i].cell.c != '\0',
        0 <= dx < cell_width(f, s.cells@[i]),
        0 <= dy < f.geom.cell_h,
    ensures
        behind(f, s, s.cells@[i], dx, dy) matches Some(color) ==> exists|n: int| #[trigger]
            written_over(
                f.geom,
                k,
                crate::render::rendered(f, s),
                n,
                s.cells@[i].cell.col * f.geom.cell_w + dx,
                f.y_off + s.cells@[i].row * f.geom.cell_h + dy,
                color,
                stroke(f, s.cells@[i]),
            ),
{
    if let Some(color) = behind(f, s, s.cells@[i], dx, dy) {
        let all = s.cells@;
        let cs = all[i];
        let (px, py) = (
            cs.cell.col * f.geom.cell_w + dx,
            f.y_off + cs.row * f.geom.cell_h + dy,
        );
        let ds = crate::render::rendered(f, s);
        let head = ds.take(2);
        let before = all.take(i);
        let upto = all.take(i + 1);
        let (d0, open0) = crate::render::painted(f, s, before);
        let (d, open) = crate::render::painted(f, s, all);
        let d1 = crate::render::painted(f, s, upto).0;
        let back = crate::render::backdrop(f, s, cs);
        let first = head + d0 + back;
        assert(upto.drop_last() =~= before);
        assert(upto.last() == cs);
        assert(all.take(all.len() as int) =~= all);
        lemma_painted_grows(f, s, all, i + 1, all.len() as int);
        assert(d.take(d1.len() as int) == d1);
        assert(d1.take((d0 + back).len() as int) =~= d0 + back);
        assert(ds =~= head + d + crate::render::flushed(f, open));
        let n = first.len() as int;
        assert(ds.take(n) =~= first) by {
            assert forall|j: int| 0 <= j < n implies ds[j] == first[j] by {
                if j >= 2 {
                    assert(d.take(d1.len() as int)[j - 2] == d[j - 2]);
                    assert(d1.take((d0 + back).len() as int)[j - 2] == d1[j - 2]);
                }
            }
        }
        law_behind_a_cell(f, s, cs, dx, dy, color);
        lemma_filled_concat(head + d0, back, px, py, color);
        // what is written up to there are characters of earlier cells alone
        lemma_plain(f.geom, k, head);
        let k1 = ink_after(k, head);
        lemma_strokes_concat(f.geom, k, head, d0);
        lemma_strokes_painted(f, s, before, k1);
        let k2 = ink_after(k1, d0);
        assert(plain(back));
        lemma_plain(f.geom, k2, back);
        lemma_strokes_concat(f.geom, k, head + d0, back);
        let rest = ds.skip(n);
        assert(ds =~= first + rest);
        lemma_strokes_concat(f.geom, k, first, rest);
        law_characters_look_as_their_cells_say(f, s, k);
        let earlier = strokes(f.geom, k, first);
        let later = strokes(f.geom, ink_after(k, first), rest);
        let owed = strokes_owed(f, before);
        assert(earlier =~= strokes(f.geom, k1, d0));
        assert(earlier.len() <= owed.len());
        lemma_owed_grows(f, all, i + 1, all.len() as int);
        assert(strokes_owed(f, upto) == owed.push(stroke(f, cs)));
        assert(strokes_owed(f, all)[owed.len() as int] == stroke(f, cs)) by {
            assert(strokes_owed(f, all).take(owed.len() as int + 1)[owed.len() as int]
                == owed.push(stroke(f, cs))[owed.len() as int]);
        }
        assert((earlier + later)[owed.len() as int] == stroke(f, cs));
        assert(later[owed.len() - earlier.len()] == stroke(f, cs));
        assert(written_over(f.geom, k, ds, n, px, py, color, stroke(f, cs)));
    }
}

/// Painting more cells adds to what is drawn.
proof fn lemma_painted_grows(f: Frame, s: GridSnap, cells: Seq<CellSnap>, i: int, j: int)
    requires
        0 <= i <= j <= cells.len(),
    ensures
        ({
            let a = crate::render::painted(f, s, cells.take(i)).0;
            let b = crate::render::painted(f, s, cells.take(j)).0;
            a.len() <= b.len() && b.take(a.len() as int) == a
        }),
    decreases j - i,
{
    let a = crate::render::painted(f, s, cells.take(i)).0;
    if i == j {
        assert(a.take(a.len() as int) =~= a);
    } else {
        lemma_painted_grows(f, s, cells, i, j - 1);
        assert(cells.take(j).drop_last() =~= cells.take(j - 1));
        let c = crate::render::painted(f, s, cells.take(j - 1)).0;
        let b = crate::render::painted(f, s, cells.take(j)).0;
        assert(b.take(a.len() as int) =~= c.take(a.len() as int));
    }
}

/// More cells have more characters.
proof fn lemma_owed_grows(f: Frame, cells: Seq<CellSnap>, i: int, j: int)
    requires
        0 <= i <= j <= cells.len(),
    ensures
        ({
            let a = strokes_owed(f, cells.take(i));
            let b = strokes_owed(f, cells.take(j));
            a.len() <= b.len() && b.take(a.len() as int) == a
        }),
    decreases j - i,
{
    let a = strokes_owed(f, cells.take(i));
    if i == j {
        assert(a.take(a.len() as int) =~= a);
    } else {
        lemma_owed_grows(f, cells, i, j - 1);
        assert(cells.take(j).drop_last() =~= cells.take(j - 1));
        let c = strokes_owed(f, cells.take(j - 1));
        let b = strokes_owed(f, cells.take(j));
        assert(b.take(a.len() as int) =~= c.take(a.len() as int));
    }
}

} // verus!
