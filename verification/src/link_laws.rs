//! Which cells are on the screen and selected, which text is a link, and which
//! cells are its cells.
use vstd::prelude::*;
use crate::cells::CellSnap;
use crate::cells::GridCell;
use crate::cells::GridSnap;
use crate::cells::SelRange;
use crate::ink_laws::fills;
use crate::render::Frame;

verus! {

/// `http://` or `https://` stands at `i`.
pub open spec fn scheme_at(t: Seq<char>, i: int) -> bool {
    &&& 0 <= i
    &&& i + 7 <= t.len()
    &&& t[i] == 'h' && t[i + 1] == 't' && t[i + 2] == 't' && t[i + 3] == 'p'
    &&& {
        ||| t[i + 4] == ':' && t[i + 5] == '/' && t[i + 6] == '/'
        ||| i + 8 <= t.len() && t[i + 4] == 's' && t[i + 5] == ':' && t[i + 6] == '/' && t[i + 7]
            == '/'
    }
}

/// A blank, a quote or a bracket of some kind, or a bar.
pub open spec fn breaks(c: char) -> bool {
    ||| c == ' ' || c == '\t'
    ||| c == '\'' || c == '"' || c == '`'
    ||| c == '<' || c == '(' || c == '[' || c == '{'
    ||| c == '>' || c == ')' || c == ']' || c == '}'
    ||| c == '|'
}

/// A scheme stands at `i`, and from there up to and with `col` nothing ends a
/// link.
pub open spec fn reaches(t: Seq<char>, i: int, col: int) -> bool {
    &&& scheme_at(t, i)
    &&& i <= col < t.len()
    &&& forall|j: int| i <= j <= col ==> !breaks(#[trigger] t[j])
}

proof fn lemma_scheme_at(t: Seq<char>, i: int)
    requires
        0 <= i <= t.len(),
    ensures
        scheme_at(t, i) <==> crate::url::scheme_len(t, i) > 0,
{
    reveal_strlit("https://");
    reveal_strlit("http://");
    let r = t.skip(i);
    let (s, p) = ("https://"@, "http://"@);
    if crate::text::begins_with(r, s) {
        assert forall|k: int| 0 <= k < 8 implies #[trigger] t[i + k] == s[k] by {
            assert(r.take(8)[k] == s[k]);
        }
        assert(t[i + 0] == s[0] && t[i + 1] == s[1] && t[i + 2] == s[2] && t[i + 3] == s[3] && t[i
            + 4] == s[4] && t[i + 5] == s[5] && t[i + 6] == s[6] && t[i + 7] == s[7]);
    } else if crate::text::begins_with(r, p) {
        assert forall|k: int| 0 <= k < 7 implies #[trigger] t[i + k] == p[k] by {
            assert(r.take(7)[k] == p[k]);
        }
        assert(t[i + 0] == p[0] && t[i + 1] == p[1] && t[i + 2] == p[2] && t[i + 3] == p[3] && t[i
            + 4] == p[4] && t[i + 5] == p[5] && t[i + 6] == p[6]);
    }
    if scheme_at(t, i) {
        if t[i + 4] == ':' {
            assert(r.take(7) =~= p);
        } else {
            assert(r.take(8) =~= s);
        }
    }
}

/// A position is on a link exactly where a scheme stands at it or before it with
/// nothing between the two that ends a link. The link begins at the first such
/// scheme, and goes on up to the first character that ends a link, or to the end
/// of the text.
pub proof fn law_links(t: Seq<char>, col: int)
    ensures
        match crate::url::link_span(t, 0, col) {
            Some((s, e)) => {
                &&& reaches(t, s, col)
                &&& forall|i: int| 0 <= i < s ==> !#[trigger] reaches(t, i, col)
                &&& col < e <= t.len()
                &&& forall|j: int| s <= j < e ==> !breaks(#[trigger] t[j])
                &&& e < t.len() ==> breaks(t[e])
            },
            None => forall|i: int| !#[trigger] reaches(t, i, col),
        },
{
    crate::url::law_link_found(t, col);
    match crate::url::link_span(t, 0, col) {
        Some((s, e)) => {
            lemma_scheme_at(t, s);
            assert forall|j: int| s <= j < e implies !breaks(#[trigger] t[j]) by {
                assert(!crate::url::is_delimiter(t[j]));
            }
            assert forall|i: int| 0 <= i < s implies !#[trigger] reaches(t, i, col) by {
                lemma_first(t, 0, i, col);
            }
        },
        None => {
            assert forall|i: int| !#[trigger] reaches(t, i, col) by {
                if reaches(t, i, col) {
                    lemma_scheme_at(t, i);
                    crate::url::lemma_scheme(t, i);
                    lemma_end_past(t, i, i + crate::url::scheme_len(t, i), col);
                    crate::url::law_no_link_missed(t, i, col);
                }
            }
        },
    }
}

/// What ends no link is part of it.
proof fn lemma_end_past(t: Seq<char>, i: int, e: int, col: int)
    requires
        reaches(t, i, col),
        i <= e <= t.len(),
    ensures
        crate::url::delimited(t, e) > col,
    decreases t.len() - e,
{
    if e < t.len() && !crate::url::is_delimiter(t[e]) {
        if e <= col {
            assert(!breaks(t[e]));
        }
        if e + 1 <= t.len() {
            lemma_end_past(t, i, e + 1, col);
        }
    } else if e <= col {
        assert(!breaks(t[e]));
    }
}

proof fn lemma_first(t: Seq<char>, from: int, i: int, col: int)
    requires
        0 <= from <= i,
        crate::url::link_span(t, from, col) matches Some((s, e)) && i < s,
    ensures
        !reaches(t, i, col),
    decreases t.len() - from,
{
    if reaches(t, i, col) {
        lemma_scheme_at(t, from);
        lemma_scheme_at(t, i);
        if crate::url::scheme_len(t, from) > 0 {
            let e = crate::url::link_end(t, from);
            crate::url::lemma_delimited(t, from + crate::url::scheme_len(t, from));
            crate::url::lemma_scheme(t, from);
            if from <= col < e {
            } else if i < e {
                if e <= col {
                    assert(crate::url::is_delimiter(t[e]));
                    assert(!breaks(t[e]));
                }
            } else {
                lemma_first(t, e, i, col);
            }
        } else if i > from {
            lemma_first(t, from + 1, i, col);
        }
    }
}

/// A row's text is that of its cells in order, one character each: blanks for
/// empty cells and for the second columns of wide characters.
pub proof fn law_row_text(cells: Seq<CellSnap>, row: i32)
    ensures
        crate::url::row_text(cells, row) == cells.filter(
            |cs: CellSnap| cs.row == row,
        ).map_values(
            |cs: CellSnap|
                if cs.cell.c == '\0' || cs.cell.flags & 0x0040 == 0x0040 {
                    ' '
                } else {
                    cs.cell.c
                },
        ),
    decreases cells.len(),
{
    let here = |cs: CellSnap| cs.row == row;
    let shown = |cs: CellSnap|
        if cs.cell.c == '\0' || cs.cell.flags & 0x0040 == 0x0040 {
            ' '
        } else {
            cs.cell.c
        };
    reveal(Seq::filter);
    if cells.len() > 0 {
        law_row_text(cells.drop_last(), row);
        let rest = cells.drop_last().filter(here);
        if here(cells.last()) {
            assert(rest.push(cells.last()).map_values(shown) =~= rest.map_values(shown).push(
                shown(cells.last()),
            ));
        }
    }
    assert(crate::url::row_text(cells, row) =~= cells.filter(here).map_values(shown));
}

/// The cells on the screen are those whose line, moved down by how far the
/// terminal is scrolled back, is not above its top; that is their row. They keep
/// their order.
pub proof fn law_cells_on_screen(cells: Seq<GridCell>, offset: i32)
    requires
        forall|i: int| 0 <= i < cells.len() ==> (#[trigger] cells[i]).line + offset <= u32::MAX,
    ensures
        ({
            let on = cells.filter(|c: GridCell| c.line + offset >= 0);
            let snap = crate::cells::on_screen(cells, offset);
            &&& snap.len() == on.len()
            &&& forall|i: int|
                0 <= i < snap.len() ==> (#[trigger] snap[i]).cell == on[i] && snap[i].row
                    == on[i].line + offset
        }),
    decreases cells.len(),
{
    reveal(Seq::filter);
    if cells.len() > 0 {
        let before = cells.drop_last();
        assert forall|i: int| 0 <= i < before.len() implies (#[trigger] before[i]).line + offset
            <= u32::MAX by {
            assert(before[i] == cells[i]);
        }
        law_cells_on_screen(before, offset);
        assert(cells.last() == cells[cells.len() - 1]);
    }
}

/// The link under the mouse is underlined over the whole width of each of its
/// cells, just below the baseline, and over no other cell.
pub proof fn law_link_is_underlined(f: Frame, s: GridSnap, row: i32, col: usize, k: int, px: int, py: int)
    requires
        f.geom.wf(),
        k * f.geom.cell_w <= px < (k + 1) * f.geom.cell_w,
        ({
            let under = row * f.geom.cell_h + f.geom.ascent + 1;
            under <= py < under + crate::ink_laws::thickness(f.geom)
        }),
    ensures
        ({
            let c = f.scheme.fg;
            match crate::url::link_at(s, row, col as int) {
                Some((from, to)) => crate::pane_view::link_underline(f, s, Some((row, col)))
                    matches Some(d) && (fills(d, px, py, (c.0, c.1, c.2, 255u8)) <==> from <= k < to),
                None => crate::pane_view::link_underline(f, s, Some((row, col))) is None,
            }
        }),
        crate::pane_view::link_underline(f, s, None) is None,
{
    if let Some((from, to)) = crate::url::link_at(s, row, col as int) {
        let cw = f.geom.cell_w as int;
        let x = from * cw;
        let w = (to - from) * cw;
        assert((x <= px < x + w) <==> from <= k < to) by (nonlinear_arith)
            requires
                x == from * cw,
                w == (to - from) * cw,
                k * cw <= px < (k + 1) * cw,
                cw > 0,
        ;
    }
}

/// A selection that is no block goes in reading order from its first cell to its
/// last; a block has the same columns on each of its lines.
pub proof fn law_selections(s: SelRange, line: i32, col: u32)
    requires
        s.start_line < s.end_line || (s.start_line == s.end_line && s.start_col <= s.end_col),
    ensures
        !s.is_block ==> (crate::cells::is_selected(s, line, col) <==> {
            &&& s.start_line < line || (s.start_line == line && s.start_col <= col)
            &&& line < s.end_line || (line == s.end_line && col <= s.end_col)
        }),
        s.is_block ==> (crate::cells::is_selected(s, line, col) <==> s.start_line <= line
            <= s.end_line && s.start_col <= col <= s.end_col),
{
}

} // verus!
