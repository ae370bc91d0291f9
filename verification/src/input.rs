//! What keys and the mouse do in a pane.
use vstd::prelude::*;
use crate::cells::GridSnap;
use crate::cells::Modes;
use crate::cells::term_modes;
use crate::config::Action;
use crate::config::Config;
use crate::config::match_action;
use crate::keys::KeyEvent;
use crate::keys::key_bytes;
use crate::mouse::MouseEvent;
use crate::mouse::MouseKind;
use crate::mouse::Screen;
use crate::mouse::Side;
use crate::mouse::cell_under;
use crate::mouse::mouse_point;
use crate::mouse::try_report_mouse;
use crate::qt::cursor;
use crate::qt::key;
use crate::qt::modifier;
use crate::qt::mouse_button;
use crate::render::GridGeom;
use crate::session::App;
use crate::dividers::resize_shape;
use crate::text::chars_of;
use crate::url::url_at;

verus! {

// ---- keys ----

/// What a key event does.
#[derive(Debug)]
pub enum KeyOutcome {
    Nothing,
    /// The Ctrl key went down or up: a link under the mouse may change the
    /// cursor.
    Hover { ctrl: bool },
    /// A binding: the shell does not see the key.
    Act(Action),
    /// The shell gets the bytes, if there are any, and the terminal scrolls
    /// down to the prompt then.
    Type { clear_selection: bool, bytes: Option<Vec<u8>> },
}

/// Whether a key event that no binding takes clears the selection: typing does,
/// and Escape.
pub open spec fn clears_selection(k: KeyEvent) -> bool {
    k.key == key::ESCAPE || (!crate::keys::has_ctrl(k.mods) && k.text@.len() > 0)
}

/// What a key event does in a terminal with the modes `mode_bits`.
pub fn on_key(cfg: &Config, k: &KeyEvent, mode_bits: u32) -> (r: KeyOutcome)
    ensures
        ({
            let bound = crate::config::bound_action(
                crate::config::listed(cfg.key_bindings@),
                k.key,
                k.mods,
            );
            let sent = crate::keys::sequence(
                k.key,
                k.mods,
                vstd::utf8::encode_utf8(k.text@),
                crate::cells::modes_of(mode_bits).app_cursor,
            );
            if k.key == key::CONTROL {
                r == (KeyOutcome::Hover { ctrl: k.press })
            } else if !k.press {
                r == KeyOutcome::Nothing
            } else if bound is Some {
                r == KeyOutcome::Act(bound->Some_0)
            } else {
                r matches KeyOutcome::Type { clear_selection, bytes } && clear_selection
                    == clears_selection(*k) && bytes is Some == sent is Some && (bytes is Some
                    ==> bytes->Some_0@ == sent->Some_0)
            }
        }),
{
    if k.key == key::CONTROL {
        return KeyOutcome::Hover { ctrl: k.press };
    }
    if !k.press {
        return KeyOutcome::Nothing;
    }
    if let Some(a) = match_action(cfg, k.key, k.mods) {
        return KeyOutcome::Act(a);
    }
    let typed: bool = chars_of(k.text.as_str()).len() > 0;
    let ctrl: bool = k.mods & modifier::CONTROL != 0;
    let modes: Modes = term_modes(mode_bits);
    KeyOutcome::Type {
        clear_selection: k.key == key::ESCAPE || (!ctrl && typed),
        bytes: key_bytes(k, modes.app_cursor),
    }
}

// ---- the mouse ----

/// The last click: when, in nanoseconds, on which cell, and its number in a
/// quick succession of clicks.
#[derive(Clone, Copy, Debug, PartialEq, Eq, Structural)]
pub struct Streak {
    pub when: u64,
    pub line: i32,
    pub col: usize,
    pub count: u8,
}

/// How a selection grows.
#[derive(Clone, Copy, Debug, PartialEq, Eq, Structural)]
pub enum SelectKind {
    Simple,
    /// By words.
    Semantic,
    /// By lines.
    Lines,
}

/// Where the mouse is in what it does in a pane.
#[derive(Clone, Copy, Debug)]
pub struct PaneInput {
    /// A selection is being dragged.
    pub selecting: bool,
    /// Screen row and column under the mouse.
    pub hover: Option<(i32, usize)>,
    /// Last position, in pixels of the pane.
    pub mouse: (i32, i32),
    /// Cursor shown over the pane.
    pub shape: i32,
    pub streak: Option<Streak>,
    /// The divider that is being dragged.
    pub drag: Option<u64>,
}

/// What a pane is when a mouse event arrives.
#[derive(Clone, Copy, Debug)]
pub struct PaneCtx {
    pub geom: GridGeom,
    pub screen: Screen,
    /// Modes of the terminal.
    pub mode_bits: u32,
    /// Where the pane begins in its tab.
    pub origin: (i32, i32),
    /// Size of the tab.
    pub width: i32,
    pub height: i32,
    /// The time, in nanoseconds.
    pub now: u64,
}

/// What a mouse event does.
#[derive(Debug)]
pub enum MouseOutcome {
    Nothing,
    /// The program gets the bytes.
    Report(Vec<u8>),
    /// The context menu opens.
    Menu,
    /// A divider is taken hold of, and has moved.
    Grab { shape: i32 },
    /// A divider has moved.
    Drag,
    /// The pane gets the focus and the link opens.
    Open { url: String },
    /// A selection begins; with `focus` the pane gets the focus.
    Select { kind: SelectKind, line: i32, col: usize, side: Side, focus: bool },
    /// The selection goes on to a point.
    Extend { line: i32, col: usize, side: Side },
    /// The selection is done; it goes away where it is empty.
    EndSelect,
    /// The cursor changes, where one is given, and the pane is painted anew.
    Point { cursor: Option<i32>, repaint: bool },
}

/// Clicks within this time are a quick succession.
pub const STREAK_NS: u64 = 500_000_000;

/// Whether a click goes on a quick succession: soon after the last one and on
/// the same cell.
pub open spec fn goes_on(s: Option<Streak>, now: u64, line: int, col: int) -> bool {
    s is Some && now - s->Some_0.when < STREAK_NS && s->Some_0.line == line && s->Some_0.col == col
}

/// The kind of selection that a press begins, and the press's number: right
/// after an even number of clicks whole lines, else a plain one.
pub open spec fn press_streak(s: Option<Streak>, now: u64, line: int, col: int) -> (
    SelectKind,
    int,
) {
    if goes_on(s, now, line, col) && s->Some_0.count % 2 == 0 {
        (SelectKind::Lines, s->Some_0.count + 1)
    } else {
        (SelectKind::Simple, 1)
    }
}

/// The number of a double click; after 255 it starts again at 0.
pub open spec fn double_streak(s: Option<Streak>, now: u64, line: int, col: int) -> int {
    if !goes_on(s, now, line, col) {
        2
    } else if s->Some_0.count == 255 {
        0
    } else {
        s->Some_0.count + 1
    }
}

/// A coordinate of a pane as one of its tab, within the range of coordinates.
pub open spec fn in_tab(origin: int, v: int) -> int {
    if origin + v > i32::MAX {
        i32::MAX as int
    } else if origin + v < i32::MIN {
        i32::MIN as int
    } else {
        origin + v
    }
}

fn to_tab(origin: i32, v: i32) -> (r: i32)
    ensures
        r == in_tab(origin as int, v as int),
{
    let s: i64 = origin as i64 + v as i64;
    if s > i32::MAX as i64 {
        i32::MAX
    } else if s < i32::MIN as i64 {
        i32::MIN
    } else {
        s as i32
    }
}

impl PaneCtx {
    pub open spec fn wf(self) -> bool {
        self.geom.wf() && self.screen.wf()
    }

    /// Screen row under a pixel.
    pub open spec fn row(self, y: int) -> int {
        crate::mouse::cell_at(y, self.geom.cell_h as int, self.screen.lines as int)
    }

    /// Column under a pixel.
    pub open spec fn col(self, x: int) -> int {
        crate::mouse::cell_at(x, self.geom.cell_w as int, self.screen.cols as int)
    }

    /// Half of a cell under a pixel.
    pub open spec fn side(self, x: int) -> Side {
        crate::mouse::side_at(x, self.geom.cell_w as int)
    }
}

fn continues(s: &Option<Streak>, now: u64, line: i32, col: usize) -> (r: Option<u8>)
    ensures
        r is Some == goes_on(*s, now, line as int, col as int),
        r is Some ==> r->Some_0 == s->Some_0.count,
{
    match s {
        Some(p) => {
            let soon: bool = now < p.when || now - p.when < STREAK_NS;
            if soon && p.line == line && p.col == col {
                Some(p.count)
            } else {
                None
            }
        },
        None => None,
    }
}

impl PaneInput {
    pub fn new() -> (p: PaneInput)
        ensures
            p == (PaneInput {
                selecting: false,
                hover: None,
                mouse: (0, 0),
                shape: cursor::IBEAM,
                streak: None,
                drag: None,
            }),
    {
        PaneInput {
            selecting: false,
            hover: None,
            mouse: (0, 0),
            shape: cursor::IBEAM,
            streak: None,
            drag: None,
        }
    }

    /// What hovering over a pixel leaves: the cell under it is noted, and the
    /// cursor is a hand where there is a link and Ctrl is held, else a beam.
    pub open spec fn hovered(self, ctx: PaneCtx, snap: GridSnap, x: int, y: int, ctrl: bool) -> PaneInput {
        let (row, col) = (ctx.row(y) as i32, ctx.col(x) as usize);
        PaneInput {
            hover: Some((row, col)),
            shape: if ctrl && crate::url::link_at(snap, row, col as int) is Some {
                cursor::POINTING_HAND
            } else {
                cursor::IBEAM
            },
            ..self
        }
    }

    /// The outcome of going from one state to the next by hovering: the cursor
    /// where it changes, and whether another cell is under the mouse.
    pub open spec fn hover_outcome(self, next: PaneInput) -> MouseOutcome {
        MouseOutcome::Point {
            cursor: if next.shape != self.shape {
                Some(next.shape)
            } else {
                None
            },
            repaint: next.hover != self.hover,
        }
    }

    /// The mouse hovers over a pixel, with or without Ctrl.
    pub fn update_hover(&mut self, ctx: &PaneCtx, snap: &GridSnap, x: i32, y: i32, ctrl: bool) -> (r:
        MouseOutcome)
        requires
            ctx.wf(),
        ensures
            *final(self) == old(self).hovered(*ctx, *snap, x as int, y as int, ctrl),
            r == old(self).hover_outcome(*final(self)),
    {
        let (row, col): (i32, usize) = cell_under(x, y, &ctx.geom, &ctx.screen);
        let over: bool = url_at(snap, row, col).is_some();
        let shape: i32 = if over && ctrl {
            cursor::POINTING_HAND
        } else {
            cursor::IBEAM
        };
        let cursor: Option<i32> = if shape != self.shape {
            Some(shape)
        } else {
            None
        };
        let repaint: bool = match self.hover {
            Some(p) => p.0 != row || p.1 != col,
            None => true,
        };
        self.shape = shape;
        self.hover = Some((row, col));
        MouseOutcome::Point { cursor, repaint }
    }
}

/// The event in coordinates of the tab.
pub open spec fn tab_event(ctx: PaneCtx, m: MouseEvent) -> MouseEvent {
    MouseEvent {
        x: in_tab(ctx.origin.0 as int, m.x as int) as i32,
        y: in_tab(ctx.origin.1 as int, m.y as int) as i32,
        ..m
    }
}

/// The divider of the shown tab under an event.
pub open spec fn divider_under(app: App, ctx: PaneCtx, m: MouseEvent) -> Option<(u64, bool)> {
    let at = tab_event(ctx, m);
    crate::dividers::touched(
        app.tabs@[app.active as int].tree.dividers((0, 0, ctx.width, ctx.height)),
        at.x as int,
        at.y as int,
    )
}

/// The shown tab's divider `id` follows an event; the rest of the session is as
/// it was.
pub open spec fn divider_follows(
    before: App,
    after: App,
    id: u64,
    ctx: PaneCtx,
    m: MouseEvent,
) -> bool {
    let a = before.active as int;
    let at = tab_event(ctx, m);
    &&& after.active == before.active
    &&& after.next_id == before.next_id
    &&& after.tabs@ == before.tabs@.update(a, after.tabs@[a])
    &&& crate::dividers::is_dragged(
        before.tabs@[a],
        after.tabs@[a],
        id,
        at.x as int,
        at.y as int,
        ctx.width,
        ctx.height,
    )
}

/// A left press that takes hold of no divider: with Ctrl on a link it opens
/// that, else it begins a selection.
pub open spec fn pressed(
    before: PaneInput,
    after: PaneInput,
    ctx: PaneCtx,
    snap: GridSnap,
    m: MouseEvent,
    r: MouseOutcome,
) -> bool {
    let (row, col) = (ctx.row(m.y as int), ctx.col(m.x as int));
    let line = row - ctx.screen.offset;
    let link = crate::url::link_at(snap, row as i32, col);
    if crate::keys::has_ctrl(m.mods) && link is Some {
        &&& r matches MouseOutcome::Open { url } && url@ == crate::url::row_text(
            snap.cells@,
            row as i32,
        ).subrange(link->Some_0.0, link->Some_0.1)
        &&& after == before
    } else {
        let (kind, count) = press_streak(before.streak, ctx.now, line, col);
        &&& r == (MouseOutcome::Select {
            kind,
            line: line as i32,
            col: col as usize,
            side: ctx.side(m.x as int),
            focus: true,
        })
        &&& after == (PaneInput {
            selecting: true,
            streak: Some(
                Streak {
                    when: ctx.now,
                    line: line as i32,
                    col: col as usize,
                    count: count as u8,
                },
            ),
            ..before
        })
    }
}

/// A left double click selects the word under it.
pub open spec fn double_clicked(
    before: PaneInput,
    after: PaneInput,
    ctx: PaneCtx,
    m: MouseEvent,
    r: MouseOutcome,
) -> bool {
    let (line, col) = (ctx.row(m.y as int) - ctx.screen.offset, ctx.col(m.x as int));
    &&& r == (MouseOutcome::Select {
        kind: SelectKind::Semantic,
        line: line as i32,
        col: col as usize,
        side: Side::Left,
        focus: false,
    })
    &&& after == (PaneInput {
        selecting: true,
        streak: Some(
            Streak {
                when: ctx.now,
                line: line as i32,
                col: col as usize,
                count: double_streak(before.streak, ctx.now, line, col) as u8,
            },
        ),
        ..before
    })
}

/// Free movement: near a divider the cursor says so, elsewhere the mouse
/// hovers.
pub open spec fn moved(
    before: PaneInput,
    after: PaneInput,
    app: App,
    ctx: PaneCtx,
    snap: GridSnap,
    m: MouseEvent,
    r: MouseOutcome,
) -> bool {
    let at = PaneInput { mouse: (m.x, m.y), ..before };
    match divider_under(app, ctx, m) {
        Some((_, vertical)) => {
            &&& after == (PaneInput { shape: crate::dividers::resize_cursor(vertical), ..at })
            &&& r == at.hover_outcome(after)
        },
        None => {
            &&& after == at.hovered(
                ctx,
                snap,
                m.x as int,
                m.y as int,
                crate::keys::has_ctrl(m.mods),
            )
            &&& r == at.hover_outcome(after)
        },
    }
}

/// What a mouse event that the program is not told of does in a pane.
pub open spec fn answered(
    before: PaneInput,
    after: PaneInput,
    app_before: App,
    app_after: App,
    ctx: PaneCtx,
    snap: GridSnap,
    m: MouseEvent,
    r: MouseOutcome,
) -> bool {
    let hit = divider_under(app_before, ctx, m);
    if m.kind is Press && m.button == mouse_button::RIGHT {
        r == MouseOutcome::Menu && after == before && app_after == app_before
    } else if m.kind is Press && m.button == mouse_button::LEFT && hit is Some {
        &&& r == (MouseOutcome::Grab { shape: crate::dividers::resize_cursor(hit->Some_0.1) })
        &&& after == (PaneInput { drag: Some(hit->Some_0.0), ..before })
        &&& divider_follows(app_before, app_after, hit->Some_0.0, ctx, m)
    } else if m.kind is Press && m.button == mouse_button::LEFT {
        pressed(before, after, ctx, snap, m, r) && app_after == app_before
    } else if m.kind is DoubleClick && m.button == mouse_button::LEFT {
        double_clicked(before, after, ctx, m, r) && app_after == app_before
    } else if m.kind is Move && before.drag is Some {
        &&& r == MouseOutcome::Drag
        &&& after == before
        &&& divider_follows(app_before, app_after, before.drag->Some_0, ctx, m)
    } else if m.kind is Move && before.selecting {
        &&& r == (MouseOutcome::Extend {
            line: (ctx.row(m.y as int) - ctx.screen.offset) as i32,
            col: ctx.col(m.x as int) as usize,
            side: ctx.side(m.x as int),
        })
        &&& after == before
        &&& app_after == app_before
    } else if m.kind is Move {
        moved(before, after, app_before, ctx, snap, m, r) && app_after == app_before
    } else if m.kind is Release && m.button == mouse_button::LEFT && before.drag is Some {
        &&& r == MouseOutcome::Nothing
        &&& after == (PaneInput { drag: None, ..before })
        &&& app_after == app_before
    } else if m.kind is Release && m.button == mouse_button::LEFT {
        &&& r == MouseOutcome::EndSelect
        &&& after == (PaneInput { selecting: false, ..before })
        &&& app_after == app_before
    } else {
        r == MouseOutcome::Nothing && after == before && app_after == app_before
    }
}

impl PaneInput {
    fn press(&mut self, ctx: &PaneCtx, snap: &GridSnap, m: &MouseEvent) -> (r: MouseOutcome)
        requires
            ctx.wf(),
        ensures
            pressed(*old(self), *final(self), *ctx, *snap, *m, r),
    {
        if m.mods & modifier::CONTROL != 0 {
            let (row, c): (i32, usize) = cell_under(m.x, m.y, &ctx.geom, &ctx.screen);
            if let Some((url, _, _)) = url_at(snap, row, c) {
                return MouseOutcome::Open { url };
            }
        }
        let (line, col, side): (i32, usize, Side) = mouse_point(m.x, m.y, &ctx.geom, &ctx.screen);
        let mut kind: SelectKind = SelectKind::Simple;
        let mut count: u8 = 1;
        if let Some(n) = continues(&self.streak, ctx.now, line, col) {
            if n % 2 == 0 {
                kind = SelectKind::Lines;
                count = n + 1;
            }
        }
        self.selecting = true;
        self.streak = Some(Streak { when: ctx.now, line, col, count });
        MouseOutcome::Select { kind, line, col, side, focus: true }
    }

    fn double_click(&mut self, ctx: &PaneCtx, m: &MouseEvent) -> (r: MouseOutcome)
        requires
            ctx.wf(),
        ensures
            double_clicked(*old(self), *final(self), *ctx, *m, r),
    {
        let (line, col, _): (i32, usize, Side) = mouse_point(m.x, m.y, &ctx.geom, &ctx.screen);
        let count: u8 = match continues(&self.streak, ctx.now, line, col) {
            Some(n) => if n == 255 {
                0
            } else {
                n + 1
            },
            None => 2,
        };
        self.selecting = true;
        self.streak = Some(Streak { when: ctx.now, line, col, count });
        MouseOutcome::Select { kind: SelectKind::Semantic, line, col, side: Side::Left, focus: false }
    }

    fn free_move(&mut self, app: &App, ctx: &PaneCtx, snap: &GridSnap, m: &MouseEvent) -> (r:
        MouseOutcome)
        requires
            ctx.wf(),
            app.wf(),
            app.tabs@.len() > 0,
            app.fits(ctx.width, ctx.height),
        ensures
            moved(*old(self), *final(self), *app, *ctx, *snap, *m, r),
    {
        self.mouse = (m.x, m.y);
        let x: i32 = to_tab(ctx.origin.0, m.x);
        let y: i32 = to_tab(ctx.origin.1, m.y);
        match app.divider_at(x, y, ctx.width, ctx.height) {
            Some((_, vertical)) => {
                let shape: i32 = resize_shape(vertical);
                let cursor: Option<i32> = if shape != self.shape {
                    Some(shape)
                } else {
                    None
                };
                self.shape = shape;
                MouseOutcome::Point { cursor, repaint: false }
            },
            None => self.update_hover(ctx, snap, m.x, m.y, m.mods & modifier::CONTROL != 0),
        }
    }

    /// A mouse event in a pane: the program in the terminal is told of it where
    /// it asked for it; else it is the terminal's own.
    pub fn on_mouse(&mut self, app: &mut App, ctx: &PaneCtx, snap: &GridSnap, m: &MouseEvent) -> (r:
        MouseOutcome)
        requires
            ctx.wf(),
            old(app).wf(),
            old(app).tabs@.len() > 0,
            old(app).fits(ctx.width, ctx.height),
        ensures
            final(app).wf(),
            final(app).fits(ctx.width, ctx.height),
            ({
                let modes = crate::cells::modes_of(ctx.mode_bits);
                if crate::mouse::is_reported(modes, *m) {
                    &&& r matches MouseOutcome::Report(v) && v@ == crate::mouse::event_report(
                        modes,
                        *m,
                        ctx.geom,
                        ctx.screen,
                    )
                    &&& *final(self) == *old(self)
                    &&& *final(app) == *old(app)
                } else {
                    answered(*old(self), *final(self), *old(app), *final(app), *ctx, *snap, *m, r)
                }
            }),
    {
        if let Some(v) = try_report_mouse(ctx.mode_bits, m, &ctx.geom, &ctx.screen) {
            return MouseOutcome::Report(v);
        }
        let at: MouseEvent = MouseEvent {
            kind: m.kind,
            button: m.button,
            x: to_tab(ctx.origin.0, m.x),
            y: to_tab(ctx.origin.1, m.y),
            mods: m.mods,
        };
        match m.kind {
            MouseKind::Press => {
                if m.button == mouse_button::RIGHT {
                    return MouseOutcome::Menu;
                }
                if m.button != mouse_button::LEFT {
                    return MouseOutcome::Nothing;
                }
                let mut drag: Option<u64> = self.drag;
                let hit: Option<(u64, bool)> = app.divider_at(at.x, at.y, ctx.width, ctx.height);
                if let Some((_, vertical)) = hit {
                    app.divider_mouse(&mut drag, &at, ctx.width, ctx.height);
                    self.drag = drag;
                    return MouseOutcome::Grab { shape: resize_shape(vertical) };
                }
                self.press(ctx, snap, m)
            },
            MouseKind::DoubleClick => {
                if m.button == mouse_button::LEFT {
                    self.double_click(ctx, m)
                } else {
                    MouseOutcome::Nothing
                }
            },
            MouseKind::Move => {
                if let Some(id) = self.drag {
                    app.divider_drag(id, at.x, at.y, ctx.width, ctx.height);
                    return MouseOutcome::Drag;
                }
                if self.selecting {
                    let (line, col, side): (i32, usize, Side) = mouse_point(
                        m.x,
                        m.y,
                        &ctx.geom,
                        &ctx.screen,
                    );
                    return MouseOutcome::Extend { line, col, side };
                }
                self.free_move(app, ctx, snap, m)
            },
            MouseKind::Release => {
                if m.button != mouse_button::LEFT {
                    return MouseOutcome::Nothing;
                }
                if self.drag.is_some() {
                    self.drag = None;
                    return MouseOutcome::Nothing;
                }
                self.selecting = false;
                MouseOutcome::EndSelect
            },
            MouseKind::Other => MouseOutcome::Nothing,
        }
    }
}

} // verus!
