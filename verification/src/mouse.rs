//! The mouse: which cell it is over and what a program that asked for mouse
//! events is told.
use vstd::prelude::*;
use crate::cells::Modes;
use crate::cells::term_modes;
use crate::keys::ESC;
use crate::qt::modifier;
use crate::qt::mouse_button;
use crate::render::GridGeom;
use crate::text::push_decimal;

verus! {

/// Size of a terminal in cells, and how far it is scrolled back into how much
/// history.
#[derive(Clone, Copy, Debug, PartialEq, Eq, Structural)]
pub struct Screen {
    pub cols: i32,
    pub lines: i32,
    pub offset: i32,
    pub history: i32,
}

impl Screen {
    /// There is a cell, and the terminal is scrolled back no further than its
    /// history goes.
    pub open spec fn wf(self) -> bool {
        1 <= self.cols && 1 <= self.lines && 0 <= self.offset <= self.history
    }

    /// The screen of a terminal, if it has a cell and is scrolled back no
    /// further than its history goes.
    pub fn new(cols: i32, lines: i32, offset: i32, history: i32) -> (r: Option<Screen>)
        ensures
            r is Some <==> 1 <= cols && 1 <= lines && 0 <= offset <= history,
            r is Some ==> r->Some_0.wf() && r->Some_0 == (Screen { cols, lines, offset, history }),
    {
        if 1 <= cols && 1 <= lines && 0 <= offset && offset <= history {
            Some(Screen { cols, lines, offset, history })
        } else {
            None
        }
    }
}

#[derive(Clone, Copy, Debug, PartialEq, Eq, Structural)]
pub enum MouseKind {
    Press,
    DoubleClick,
    Release,
    Move,
    Other,
}

/// A mouse event, in pixels of the pane.
#[derive(Clone, Copy, Debug, PartialEq, Eq, Structural)]
pub struct MouseEvent {
    pub kind: MouseKind,
    pub button: i32,
    pub x: i32,
    pub y: i32,
    /// Modifier bits.
    pub mods: i32,
}

/// The half of a cell.
#[derive(Clone, Copy, Debug, PartialEq, Eq, Structural)]
pub enum Side {
    Left,
    Right,
}

// ---- cells under the mouse ----

/// The cell of `n` that the pixel `p` is in, cells being `size` pixels; the
/// first or the last for a pixel outside.
pub open spec fn cell_at(p: int, size: int, n: int) -> int {
    if p / size < 0 {
        0
    } else if p / size >= n {
        n - 1
    } else {
        p / size
    }
}

fn cell_of(p: i32, size: i32, n: i32) -> (c: i32)
    requires
        size > 0,
        n >= 1,
    ensures
        c == cell_at(p as int, size as int, n as int),
        0 <= c < n,
{
    if p < 0 {
        proof {
            assert(p / size < 0) by (nonlinear_arith)
                requires
                    p < 0,
                    size > 0,
            ;
        }
        return 0;
    }
    let c: i32 = p / size;
    if c >= n {
        n - 1
    } else {
        c
    }
}

/// Screen row and column under the mouse.
pub fn cell_under(x: i32, y: i32, g: &GridGeom, s: &Screen) -> (r: (i32, usize))
    requires
        g.wf(),
        s.wf(),
    ensures
        r.0 == cell_at(y as int, g.cell_h as int, s.lines as int),
        r.1 == cell_at(x as int, g.cell_w as int, s.cols as int),
        0 <= r.0 < s.lines,
        0 <= r.1 < s.cols,
{
    let col: i32 = cell_of(x, g.cell_w, s.cols);
    let row: i32 = cell_of(y, g.cell_h, s.lines);
    (row, col as usize)
}

/// The half of a cell that the pixel `x` is in. A cell of one pixel is all
/// right half; left of the first cell is left.
pub open spec fn side_at(x: int, cell_w: int) -> Side {
    if (x >= 0 && x % cell_w < cell_w / 2) || (x < 0 && cell_w >= 2) {
        Side::Left
    } else {
        Side::Right
    }
}

/// The grid line, the column and the half of the cell under the mouse: the
/// anchor of a selection.
pub fn mouse_point(x: i32, y: i32, g: &GridGeom, s: &Screen) -> (r: (i32, usize, Side))
    requires
        g.wf(),
        s.wf(),
    ensures
        r.0 == cell_at(y as int, g.cell_h as int, s.lines as int) - s.offset,
        r.1 == cell_at(x as int, g.cell_w as int, s.cols as int),
        r.2 == side_at(x as int, g.cell_w as int),
{
    let (row, col): (i32, usize) = cell_under(x, y, g, s);
    let left: bool = if x >= 0 {
        x % g.cell_w < g.cell_w / 2
    } else {
        g.cell_w >= 2
    };
    let side: Side = if left {
        Side::Left
    } else {
        Side::Right
    };
    (row - s.offset, col, side)
}

// ---- mouse reports ----

/// The modifiers in a mouse report: 4 for Shift, 8 for Alt, 16 for Ctrl.
pub open spec fn report_mods(mods: i32) -> int {
    (if crate::keys::has_shift(mods) {
        4int
    } else {
        0
    }) + (if crate::keys::has_alt(mods) {
        8int
    } else {
        0
    }) + (if crate::keys::has_ctrl(mods) {
        16int
    } else {
        0
    })
}

pub fn mouse_mods(mods: i32) -> (r: i32)
    ensures
        r == report_mods(mods),
        0 <= r <= 28,
{
    let mut r: i32 = 0;
    if mods & modifier::SHIFT != 0 {
        r += 4;
    }
    if mods & modifier::ALT != 0 {
        r += 8;
    }
    if mods & modifier::CONTROL != 0 {
        r += 16;
    }
    r
}

/// A number as one byte, cut off at both ends.
pub open spec fn clipped(n: int) -> u8 {
    if n < 0 {
        0
    } else if n > 255 {
        255
    } else {
        n as u8
    }
}

/// A mouse report for button code `b` at the cell (`x`, `y`), counted from 1:
/// in the SGR form with decimal numbers, else in the X10 form with one byte per
/// number, where a release has no button.
pub open spec fn report(sgr: bool, b: int, x: int, y: int, press: bool) -> Seq<u8> {
    if sgr {
        seq![ESC, 91u8, 60u8] + crate::text::decimal_bytes(b) + seq![59u8]
            + crate::text::decimal_bytes(x) + seq![59u8] + crate::text::decimal_bytes(y) + seq![
            if press {
                77u8
            } else {
                109u8
            },
        ]
    } else {
        seq![
            ESC,
            91u8,
            77u8,
            if press {
                clipped(32 + b)
            } else {
                35u8
            },
            clipped(32 + x),
            clipped(32 + y),
        ]
    }
}

fn clip(n: i64) -> (r: u8)
    ensures
        r == clipped(n as int),
{
    if n < 0 {
        0
    } else if n > 255 {
        255
    } else {
        n as u8
    }
}

/// A mouse report for button code `b` at a screen cell.
pub fn mouse_report(sgr: bool, b: i32, col: u32, row: i32, press: bool) -> (v: Vec<u8>)
    ensures
        v@ == report(sgr, b as int, col + 1, row + 1, press),
{
    let x: i64 = col as i64 + 1;
    let y: i64 = row as i64 + 1;
    if sgr {
        let mut v: Vec<u8> = vec![ESC, 91u8, 60u8];
        push_decimal(&mut v, b as i64);
        v.push(59);
        push_decimal(&mut v, x);
        v.push(59);
        push_decimal(&mut v, y);
        v.push(
            if press {
                77
            } else {
                109
            },
        );
        assert(v@ =~= report(sgr, b as int, col + 1, row + 1, press));
        v
    } else {
        let first: u8 = if press {
            clip(32 + b as i64)
        } else {
            35
        };
        vec![ESC, 91u8, 77u8, first, clip(32 + x), clip(32 + y)]
    }
}

/// The number of a button in a report; 3 is no button.
pub open spec fn button_number(button: i32) -> int {
    if button == mouse_button::LEFT {
        0
    } else if button == mouse_button::MIDDLE {
        1
    } else if button == mouse_button::RIGHT {
        2
    } else {
        3
    }
}

/// Whether a program in the given modes is told of an event: of clicks when it
/// asked for any, of movement when it asked for that, or for movement with a
/// button held and one is.
pub open spec fn is_reported(modes: Modes, m: MouseEvent) -> bool {
    modes.mouse && match m.kind {
        MouseKind::Press | MouseKind::DoubleClick | MouseKind::Release => true,
        MouseKind::Move => modes.mouse_motion || (modes.mouse_drag && m.button != 0),
        MouseKind::Other => false,
    }
}

/// What a program is told of an event.
pub open spec fn event_report(modes: Modes, m: MouseEvent, g: GridGeom, s: Screen) -> Seq<u8> {
    report(
        modes.sgr_mouse,
        button_number(m.button) + report_mods(m.mods) + (if m.kind is Move {
            32int
        } else {
            0
        }),
        cell_at(m.x as int, g.cell_w as int, s.cols as int) + 1,
        cell_at(m.y as int, g.cell_h as int, s.lines as int) + 1,
        !(m.kind is Release),
    )
}

fn button_of(button: i32) -> (r: i32)
    ensures
        r == button_number(button),
        0 <= r <= 3,
{
    if button == mouse_button::LEFT {
        0
    } else if button == mouse_button::MIDDLE {
        1
    } else if button == mouse_button::RIGHT {
        2
    } else {
        3
    }
}

/// The report of a mouse event for a program in the modes `mode_bits`; `None`
/// where it has not asked for the event, which is then the terminal's.
pub fn try_report_mouse(mode_bits: u32, m: &MouseEvent, g: &GridGeom, s: &Screen) -> (r: Option<
    Vec<u8>,
>)
    requires
        g.wf(),
        s.wf(),
    ensures
        r is Some <==> is_reported(crate::cells::modes_of(mode_bits), *m),
        r is Some ==> r->Some_0@ == event_report(
            crate::cells::modes_of(mode_bits),
            *m,
            *g,
            *s,
        ),
{
    let modes: Modes = term_modes(mode_bits);
    if !modes.mouse {
        return None;
    }
    let (row, col): (i32, usize) = cell_under(m.x, m.y, g, s);
    let b: i32 = button_of(m.button) + mouse_mods(m.mods);
    match m.kind {
        MouseKind::Press | MouseKind::DoubleClick => Some(
            mouse_report(modes.sgr_mouse, b, col as u32, row, true),
        ),
        MouseKind::Release => Some(mouse_report(modes.sgr_mouse, b, col as u32, row, false)),
        MouseKind::Move => {
            if modes.mouse_motion || (modes.mouse_drag && m.button != 0) {
                Some(mouse_report(modes.sgr_mouse, b + 32, col as u32, row, true))
            } else {
                None
            }
        },
        MouseKind::Other => None,
    }
}

// ---- the wheel ----

/// What turning the wheel does.
#[derive(Debug)]
pub enum WheelOutcome {
    /// The program is told.
    Report(Vec<u8>),
    /// The terminal scrolls by so many lines, up into the history where there
    /// are more than 0.
    Scroll(i64),
    Nothing,
}

/// A turn of 120 is a notch; a program is told once per notch, at least once.
pub open spec fn notches(dy: int) -> int {
    let n = crate::geometry::magnitude(dy) / 120;
    if n < 1 {
        1
    } else {
        n
    }
}

/// `s` written `n` times.
pub open spec fn repeated(s: Seq<u8>, n: int) -> Seq<u8>
    decreases n,
{
    if n <= 0 {
        seq![]
    } else {
        repeated(s, n - 1) + s
    }
}

/// Lines to scroll for a turn: three per notch, towards zero.
pub open spec fn wheel_lines(dy: int) -> int {
    if dy >= 0 {
        dy * 3 / 120
    } else {
        -(-dy * 3 / 120)
    }
}

/// What a program is told of a turn of the wheel: presses of button 64 upwards,
/// 65 downwards, one per notch.
pub open spec fn wheel_report(
    modes: Modes,
    dy: int,
    x: int,
    y: int,
    mods: i32,
    g: GridGeom,
    s: Screen,
) -> Seq<u8> {
    repeated(
        report(
            modes.sgr_mouse,
            64 + report_mods(mods) + (if dy < 0 {
                1int
            } else {
                0
            }),
            cell_at(x, g.cell_w as int, s.cols as int) + 1,
            cell_at(y, g.cell_h as int, s.lines as int) + 1,
            true,
        ),
        notches(dy),
    )
}

/// What turning the wheel by `dy` over a pixel does.
pub fn wheel(
    mode_bits: u32,
    dy: i32,
    x: i32,
    y: i32,
    mods: i32,
    g: &GridGeom,
    s: &Screen,
) -> (r: WheelOutcome)
    requires
        g.wf(),
        s.wf(),
    ensures
        ({
            let modes = crate::cells::modes_of(mode_bits);
            match r {
                WheelOutcome::Report(v) => modes.mouse && v@ == wheel_report(
                    modes,
                    dy as int,
                    x as int,
                    y as int,
                    mods,
                    *g,
                    *s,
                ),
                WheelOutcome::Scroll(n) => !modes.mouse && n == wheel_lines(dy as int) && n != 0,
                WheelOutcome::Nothing => !modes.mouse && wheel_lines(dy as int) == 0,
            }
        }),
{
    let modes: Modes = term_modes(mode_bits);
    if modes.mouse {
        let (row, col): (i32, usize) = cell_under(x, y, g, s);
        let b: i32 = 64 + mouse_mods(mods) + (if dy < 0 {
            1i32
        } else {
            0i32
        });
        let size: i64 = if dy < 0 {
            -(dy as i64)
        } else {
            dy as i64
        };
        let n: i64 = if size / 120 < 1 {
            1
        } else {
            size / 120
        };
        let one: Vec<u8> = mouse_report(modes.sgr_mouse, b, col as u32, row, true);
        let mut out: Vec<u8> = Vec::new();
        assert(out@ =~= repeated(one@, 0));
        for i in 0..n
            invariant
                out@ == repeated(one@, i as int),
        {
            out.extend_from_slice(one.as_slice());
        }
        return WheelOutcome::Report(out);
    }
    let lines: i64 = if dy >= 0 {
        dy as i64 * 3 / 120
    } else {
        -(-(dy as i64) * 3 / 120)
    };
    if lines != 0 {
        WheelOutcome::Scroll(lines)
    } else {
        WheelOutcome::Nothing
    }
}

// ---- laws ----

/// The mouse is always over a cell of the screen.
pub proof fn law_cell_on_screen(p: int, size: int, n: int)
    requires
        size > 0,
        n >= 1,
    ensures
        0 <= cell_at(p, size, n) < n,
{
}

/// A pixel of a cell on the screen is in that cell.
pub proof fn law_pixels_of_a_cell(cell: int, p: int, size: int, n: int)
    requires
        size > 0,
        0 <= cell < n,
        cell * size <= p < (cell + 1) * size,
    ensures
        cell_at(p, size, n) == cell,
{
    assert(p / size == cell) by (nonlinear_arith)
        requires
            size > 0,
            cell * size <= p < (cell + 1) * size,
    ;
}

/// An X10 report is six bytes long wherever the mouse is.
pub proof fn law_x10_report(b: int, x: int, y: int, press: bool)
    ensures
        report(false, b, x, y, press).len() == 6,
{
}

/// An event goes either to the program or to the terminal: a program that has
/// not asked for mouse events is told of none, one that asked for all movement
/// is told of every click and every movement.
pub proof fn law_who_gets_the_mouse(modes: Modes, m: MouseEvent)
    ensures
        !modes.mouse ==> !is_reported(modes, m),
        modes.mouse && modes.mouse_motion && !(m.kind is Other) ==> is_reported(modes, m),
{
}

} // verus!
