//! Terminal cells and modes as plain values.
use vstd::prelude::*;
use alacritty_terminal::index::Column;
use alacritty_terminal::index::Line;
use alacritty_terminal::index::Point;
use alacritty_terminal::selection::SelectionRange;
use alacritty_terminal::term::TermMode;
use alacritty_terminal::term::cell::Flags;
use crate::color::Color;

verus! {

/// A cell's attributes.
#[derive(Clone, Copy, Debug, PartialEq, Eq, Structural)]
pub struct Attrs {
    pub inverse: bool,
    pub bold: bool,
    pub italic: bool,
    pub dim: bool,
    pub hidden: bool,
    /// The cell's character takes two columns.
    pub wide: bool,
    /// The second column of a wide character.
    pub spacer: bool,
    pub deco: Deco,
}

/// Lines drawn under or through text.
#[derive(Clone, Copy, Debug, PartialEq, Eq, Structural)]
pub struct Deco {
    pub underline: bool,
    pub double: bool,
    pub curl: bool,
    pub dotted: bool,
    pub dashed: bool,
    pub strikeout: bool,
}

/// The attributes of flag bits.
pub open spec fn attrs_of(bits: u16) -> Attrs {
    Attrs {
        inverse: bits & 0x0001 == 0x0001,
        bold: bits & 0x0002 == 0x0002,
        italic: bits & 0x0004 == 0x0004,
        dim: bits & 0x0080 == 0x0080,
        hidden: bits & 0x0100 == 0x0100,
        wide: bits & 0x0020 == 0x0020,
        spacer: bits & 0x0040 == 0x0040,
        deco: Deco {
            underline: bits & 0x0008 == 0x0008,
            double: bits & 0x0800 == 0x0800,
            curl: bits & 0x1000 == 0x1000,
            dotted: bits & 0x2000 == 0x2000,
            dashed: bits & 0x4000 == 0x4000,
            strikeout: bits & 0x0200 == 0x0200,
        },
    }
}

/// `Flags::contains` of `alacritty_terminal`, once for each attribute: an
/// attribute is set where its bit is.
#[verifier::external_body]
pub(crate) fn cell_attrs(bits: u16) -> (a: Attrs)
    ensures
        a == attrs_of(bits),
{
    let f = Flags::from_bits_retain(bits);
    let deco = Deco {
        underline: f.contains(Flags::UNDERLINE), double: f.contains(Flags::DOUBLE_UNDERLINE),
        curl: f.contains(Flags::UNDERCURL), dotted: f.contains(Flags::DOTTED_UNDERLINE),
        dashed: f.contains(Flags::DASHED_UNDERLINE), strikeout: f.contains(Flags::STRIKEOUT),
    };
    Attrs {
        inverse: f.contains(Flags::INVERSE), bold: f.contains(Flags::BOLD),
        italic: f.contains(Flags::ITALIC), dim: f.contains(Flags::DIM),
        hidden: f.contains(Flags::HIDDEN), wide: f.contains(Flags::WIDE_CHAR),
        spacer: f.contains(Flags::WIDE_CHAR_SPACER), deco,
    }
}

/// The terminal modes that decide what input is sent.
#[derive(Clone, Copy, Debug, PartialEq, Eq, Structural)]
pub struct Modes {
    pub app_cursor: bool,
    /// Some kind of mouse reporting is on.
    pub mouse: bool,
    /// Movement is reported whether or not a button is held.
    pub mouse_motion: bool,
    /// Movement with a button held is reported.
    pub mouse_drag: bool,
    pub sgr_mouse: bool,
    pub bracketed_paste: bool,
}

/// The modes of mode bits.
pub open spec fn modes_of(bits: u32) -> Modes {
    Modes {
        app_cursor: bits & 0x02 == 0x02,
        mouse: bits & 0x2048 != 0,
        mouse_motion: bits & 0x40 == 0x40,
        mouse_drag: bits & 0x2000 == 0x2000,
        sgr_mouse: bits & 0x20 == 0x20,
        bracketed_paste: bits & 0x10 == 0x10,
    }
}

/// `TermMode::contains` of `alacritty_terminal`, once for each mode, and
/// `TermMode::intersects` for mouse reporting of any kind: a mode is on where
/// its bit is set, mouse reporting where any of its three bits is.
#[verifier::external_body]
pub(crate) fn term_modes(bits: u32) -> (m: Modes)
    ensures
        m == modes_of(bits),
{
    let t = TermMode::from_bits_retain(bits);
    Modes {
        app_cursor: t.contains(TermMode::APP_CURSOR),
        mouse: t.intersects(TermMode::MOUSE_MODE),
        mouse_motion: t.contains(TermMode::MOUSE_MOTION),
        mouse_drag: t.contains(TermMode::MOUSE_DRAG),
        sgr_mouse: t.contains(TermMode::SGR_MOUSE),
        bracketed_paste: t.contains(TermMode::BRACKETED_PASTE),
    }
}

/// A selected part of the grid, from its first cell to its last.
#[derive(Clone, Copy, Debug, PartialEq, Eq, Structural)]
pub struct SelRange {
    pub start_line: i32,
    pub start_col: u32,
    pub end_line: i32,
    pub end_col: u32,
    /// Whether only the columns between the two cells are selected on each line.
    pub is_block: bool,
}

/// Whether a cell is selected: its line is between the first and the last, and
/// so is its column, which counts on every line of a block, else on the first
/// line for the start and on the last line for the end.
pub open spec fn is_selected(s: SelRange, line: i32, col: u32) -> bool {
    &&& s.start_line <= line <= s.end_line
    &&& s.start_col <= col || (s.start_line != line && !s.is_block)
    &&& col <= s.end_col || (s.end_line != line && !s.is_block)
}

/// `SelectionRange::contains` of `alacritty_terminal`: whether the point is in
/// the range.
#[verifier::external_body]
pub(crate) fn selection_contains(s: &SelRange, line: i32, col: u32) -> (r: bool)
    ensures
        r == is_selected(*s, line, col),
{
    let range = SelectionRange {
        start: Point::new(Line(s.start_line), Column(s.start_col as usize)),
        end: Point::new(Line(s.end_line), Column(s.end_col as usize)),
        is_block: s.is_block,
    };
    range.contains(Point::new(Line(line), Column(col as usize)))
}

/// A cell of the terminal's grid. Lines count from 0 at the top of the screen
/// when it is not scrolled back; history has negative lines.
#[derive(Clone, Copy, Debug)]
pub struct GridCell {
    pub line: i32,
    pub col: u32,
    pub c: char,
    pub fg: Color,
    pub bg: Color,
    /// Flag bits.
    pub flags: u16,
    /// Color of underlines, where it is not that of the text.
    pub underline: Option<Color>,
}

/// What the terminal shows: its displayed cells in order, the cursor, how far
/// it is scrolled back and what is selected.
#[derive(Debug)]
pub struct GridView {
    pub cells: Vec<GridCell>,
    pub cursor_line: i32,
    pub cursor_col: u32,
    pub offset: i32,
    pub sel: Option<SelRange>,
}

/// A displayed cell and the screen row that it is on.
#[derive(Clone, Copy, Debug)]
pub struct CellSnap {
    pub row: u32,
    pub cell: GridCell,
}

/// The displayed cells by screen rows.
#[derive(Debug)]
pub struct GridSnap {
    pub cells: Vec<CellSnap>,
    pub cursor_line: i32,
    pub cursor_col: u32,
    pub offset: i32,
    pub sel: Option<SelRange>,
}

/// The cells that are on the screen, in order, each with its row.
pub open spec fn on_screen(cells: Seq<GridCell>, offset: i32) -> Seq<CellSnap>
    decreases cells.len(),
{
    if cells.len() == 0 {
        seq![]
    } else {
        let rest = on_screen(cells.drop_last(), offset);
        let c = cells.last();
        if c.line + offset >= 0 {
            rest.push(CellSnap { row: (c.line + offset) as u32, cell: c })
        } else {
            rest
        }
    }
}

/// A snapshot of what the terminal shows.
pub fn snapshot_grid(view: &GridView) -> (s: GridSnap)
    ensures
        s.cells@ == on_screen(view.cells@, view.offset),
        s.cursor_line == view.cursor_line,
        s.cursor_col == view.cursor_col,
        s.offset == view.offset,
        s.sel == view.sel,
{
    let mut cells: Vec<CellSnap> = Vec::new();
    for i in 0..view.cells.len()
        invariant
            cells@ == on_screen(view.cells@.take(i as int), view.offset),
    {
        let c: GridCell = view.cells[i];
        assert(view.cells@.take(i as int + 1).drop_last() =~= view.cells@.take(i as int));
        let row: i64 = c.line as i64 + view.offset as i64;
        if row >= 0 {
            cells.push(CellSnap { row: row as u32, cell: c });
        }
    }
    assert(view.cells@.take(view.cells@.len() as int) =~= view.cells@);
    GridSnap {
        cells,
        cursor_line: view.cursor_line,
        cursor_col: view.cursor_col,
        offset: view.offset,
        sel: view.sel,
    }
}

/// The text of the cells on the screen, in order.
pub fn grid_text(view: &GridView) -> (s: String)
    ensures
        s@ == on_screen(view.cells@, view.offset).map_values(|c: CellSnap| c.cell.c),
{
    let snap: GridSnap = snapshot_grid(view);
    let mut s: String = String::new();
    let ghost all = snap.cells@.map_values(|c: CellSnap| c.cell.c);
    for i in 0..snap.cells.len()
        invariant
            all == snap.cells@.map_values(|c: CellSnap| c.cell.c),
            s@ == all.take(i as int),
    {
        s.push(snap.cells[i].cell.c);
    }
    assert(all.take(snap.cells@.len() as int) =~= all);
    s
}

} // verus!
