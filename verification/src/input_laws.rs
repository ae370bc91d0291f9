//! What the mouse and the keys do in a pane, from one event to the next.
use vstd::prelude::*;
use crate::cells::GridSnap;
use crate::config::Config;
use crate::input::KeyOutcome;
use crate::input::MouseOutcome;
use crate::input::PaneCtx;
use crate::input::PaneInput;
use crate::keys::KeyEvent;
use crate::mouse::MouseEvent;
use crate::mouse::Side;
use crate::session::App;

verus! {

/// The pixel (x, y) of a pane is in this screen row and column.
pub open spec fn in_cell(ctx: PaneCtx, x: int, y: int, row: int, col: int) -> bool {
    &&& 0 <= row < ctx.screen.lines
    &&& 0 <= col < ctx.screen.cols
    &&& row * ctx.geom.cell_h <= y < (row + 1) * ctx.geom.cell_h
    &&& col * ctx.geom.cell_w <= x < (col + 1) * ctx.geom.cell_w
}

/// The half of its cell that the pixel x is in.
pub open spec fn half_at(ctx: PaneCtx, x: int, col: int) -> Side {
    if x - col * ctx.geom.cell_w < ctx.geom.cell_w as int / 2 {
        Side::Left
    } else {
        Side::Right
    }
}

proof fn lemma_in_cell(ctx: PaneCtx, x: int, y: int, row: int, col: int)
    requires
        ctx.wf(),
        in_cell(ctx, x, y, row, col),
    ensures
        ctx.row(y) == row,
        ctx.col(x) == col,
        ctx.side(x) == half_at(ctx, x, col),
{
    crate::mouse::law_pixels_of_a_cell(row, y, ctx.geom.cell_h as int, ctx.screen.lines as int);
    crate::mouse::law_pixels_of_a_cell(col, x, ctx.geom.cell_w as int, ctx.screen.cols as int);
    assert((col + 1) * ctx.geom.cell_w == col * ctx.geom.cell_w + ctx.geom.cell_w)
        by (nonlinear_arith);
    crate::mouse_laws::law_halves(col, x - col * ctx.geom.cell_w, ctx.geom.cell_w as int);
}

/// A left press away from dividers and links begins a selection in the half cell
/// under the mouse and gives the pane the focus. It selects whole lines where it
/// comes less than half a second after an even number of clicks on the same
/// cell.
pub proof fn law_press_begins_a_selection(
    before: PaneInput,
    after: PaneInput,
    app: App,
    app_after: App,
    ctx: PaneCtx,
    snap: GridSnap,
    m: MouseEvent,
    r: MouseOutcome,
    row: int,
    col: int,
)
    requires
        ctx.wf(),
        in_cell(ctx, m.x as int, m.y as int, row, col),
        crate::input::answered(before, after, app, app_after, ctx, snap, m, r),
        m.kind is Press,
        m.button == 1,
        crate::input::divider_under(app, ctx, m) is None,
        m.mods & 0x0400_0000 == 0 || crate::url::link_at(snap, row as i32, col) is None,
    ensures
        app_after == app,
        after.selecting,
        after.drag == before.drag,
        r matches MouseOutcome::Select { kind, line, col: c, side, focus } && {
            &&& line == row - ctx.screen.offset
            &&& c == col
            &&& side == half_at(ctx, m.x as int, col)
            &&& focus
            &&& kind is Lines <==> (before.streak matches Some(s) && ctx.now < s.when + 500_000_000
                && s.line == line && s.col == col && s.count % 2 == 0)
            &&& !(kind is Semantic)
            &&& after.streak matches Some(n) && n.when == ctx.now && n.line == line && n.col == col
                && n.count == if kind is Lines {
                before.streak->Some_0.count + 1
            } else {
                1
            }
        },
{
    lemma_in_cell(ctx, m.x as int, m.y as int, row, col);
}

/// Clicks that follow each other within half a second on one cell select first
/// from the point, then by words, then by lines.
pub proof fn law_three_clicks(
    p0: PaneInput,
    p1: PaneInput,
    p2: PaneInput,
    p3: PaneInput,
    c1: PaneCtx,
    c2: PaneCtx,
    c3: PaneCtx,
    snap: GridSnap,
    m1: MouseEvent,
    m2: MouseEvent,
    m3: MouseEvent,
    r1: MouseOutcome,
    r2: MouseOutcome,
    r3: MouseOutcome,
)
    requires
        p0.streak is None,
        crate::input::pressed(p0, p1, c1, snap, m1, r1),
        crate::input::double_clicked(p1, p2, c2, m2, r2),
        crate::input::pressed(p2, p3, c3, snap, m3, r3),
        m1.mods & 0x0400_0000 == 0,
        m3.mods & 0x0400_0000 == 0,
        c1.wf(),
        c2.geom == c1.geom && c2.screen == c1.screen,
        c3.geom == c1.geom && c3.screen == c1.screen,
        c1.col(m1.x as int) == c1.col(m2.x as int) == c1.col(m3.x as int),
        c1.row(m1.y as int) == c1.row(m2.y as int) == c1.row(m3.y as int),
        c1.now <= c2.now < c1.now + 500_000_000,
        c2.now <= c3.now < c2.now + 500_000_000,
    ensures
        r1 matches MouseOutcome::Select { kind, .. } && kind is Simple,
        r2 matches MouseOutcome::Select { kind, .. } && kind is Semantic,
        r3 matches MouseOutcome::Select { kind, .. } && kind is Lines,
{
    crate::mouse::law_cell_on_screen(
        m1.y as int,
        c1.geom.cell_h as int,
        c1.screen.lines as int,
    );
    crate::mouse::law_cell_on_screen(m1.x as int, c1.geom.cell_w as int, c1.screen.cols as int);
}

/// A left double click selects by words from the cell under the mouse. Of clicks
/// in quick succession on one cell it is one more, and else the second.
pub proof fn law_double_click_selects_words(
    before: PaneInput,
    after: PaneInput,
    app: App,
    app_after: App,
    ctx: PaneCtx,
    snap: GridSnap,
    m: MouseEvent,
    r: MouseOutcome,
    row: int,
    col: int,
)
    requires
        ctx.wf(),
        in_cell(ctx, m.x as int, m.y as int, row, col),
        crate::input::answered(before, after, app, app_after, ctx, snap, m, r),
        m.kind is DoubleClick,
        m.button == 1,
    ensures
        app_after == app,
        after.selecting,
        r matches MouseOutcome::Select { kind, line, col: c, side, focus } && kind is Semantic
            && line == row - ctx.screen.offset && c == col && side is Left && !focus,
        after.streak matches Some(n) && n.when == ctx.now && n.line == row - ctx.screen.offset
            && n.col == col && n.count == (match before.streak {
            Some(s) => if ctx.now < s.when + 500_000_000 && s.line == row - ctx.screen.offset
                && s.col == col {
                (s.count + 1) % 256
            } else {
                2
            },
            None => 2,
        }),
{
    lemma_in_cell(ctx, m.x as int, m.y as int, row, col);
}

/// Movement extends the selection that is being dragged to the half cell under
/// the mouse; letting go of the left button ends it, and from then on movement
/// extends nothing.
pub proof fn law_drag_and_release(
    before: PaneInput,
    moved: PaneInput,
    released: PaneInput,
    app: App,
    app_moved: App,
    app_released: App,
    ctx: PaneCtx,
    snap: GridSnap,
    m: MouseEvent,
    up: MouseEvent,
    r: MouseOutcome,
    r_up: MouseOutcome,
    row: int,
    col: int,
)
    requires
        ctx.wf(),
        in_cell(ctx, m.x as int, m.y as int, row, col),
        before.selecting,
        before.drag is None,
        m.kind is Move,
        up.kind is Release,
        up.button == 1,
        crate::input::answered(before, moved, app, app_moved, ctx, snap, m, r),
        crate::input::answered(moved, released, app_moved, app_released, ctx, snap, up, r_up),
    ensures
        r matches MouseOutcome::Extend { line, col: c, side } && line == row - ctx.screen.offset
            && c == col && side == half_at(ctx, m.x as int, col),
        r_up == MouseOutcome::EndSelect,
        moved.selecting,
        !released.selecting,
        app_released == app,
{
    lemma_in_cell(ctx, m.x as int, m.y as int, row, col);
}

/// A left press with Ctrl on a link, away from dividers, opens the link's text
/// and changes nothing else.
pub proof fn law_ctrl_press_opens_links(
    before: PaneInput,
    after: PaneInput,
    app: App,
    app_after: App,
    ctx: PaneCtx,
    snap: GridSnap,
    m: MouseEvent,
    r: MouseOutcome,
    row: int,
    col: int,
)
    requires
        ctx.wf(),
        in_cell(ctx, m.x as int, m.y as int, row, col),
        crate::input::answered(before, after, app, app_after, ctx, snap, m, r),
        m.kind is Press,
        m.button == 1,
        m.mods & 0x0400_0000 != 0,
        crate::input::divider_under(app, ctx, m) is None,
        crate::url::link_at(snap, row as i32, col) is Some,
    ensures
        after == before,
        app_after == app,
        ({
            let (from, to) = crate::url::link_at(snap, row as i32, col)->Some_0;
            let text = crate::url::row_text(snap.cells@, row as i32);
            &&& from <= col < to <= text.len()
            &&& r matches MouseOutcome::Open { url } && url@ == text.subrange(from, to)
        }),
{
    lemma_in_cell(ctx, m.x as int, m.y as int, row, col);
    crate::url::law_link_found(crate::url::row_text(snap.cells@, row as i32), col);
}

/// A right press opens the menu, wherever it is, and changes nothing.
pub proof fn law_right_press_opens_the_menu(
    before: PaneInput,
    after: PaneInput,
    app: App,
    app_after: App,
    ctx: PaneCtx,
    snap: GridSnap,
    m: MouseEvent,
    r: MouseOutcome,
)
    requires
        crate::input::answered(before, after, app, app_after, ctx, snap, m, r),
        m.kind is Press,
        m.button == 2,
    ensures
        r == MouseOutcome::Menu,
        after == before,
        app_after == app,
{
}

/// A divider is looked for at the pane's place in its tab. A left press on one
/// takes hold of it, movement then moves it and no other, and letting go of the
/// left button lets go of it; a selection is neither begun nor ended by that.
pub proof fn law_hold_of_a_divider(
    before: PaneInput,
    held: PaneInput,
    released: PaneInput,
    app: App,
    app_held: App,
    app_released: App,
    ctx: PaneCtx,
    snap: GridSnap,
    m: MouseEvent,
    up: MouseEvent,
    r: MouseOutcome,
    r_up: MouseOutcome,
)
    requires
        m.kind is Press,
        m.button == 1,
        up.kind is Release,
        up.button == 1,
        i32::MIN <= ctx.origin.0 + m.x <= i32::MAX,
        i32::MIN <= ctx.origin.1 + m.y <= i32::MAX,
        crate::dividers::touched(
            app.tabs@[app.active as int].tree.dividers((0, 0, ctx.width, ctx.height)),
            ctx.origin.0 + m.x,
            ctx.origin.1 + m.y,
        ) is Some,
        crate::input::answered(before, held, app, app_held, ctx, snap, m, r),
        crate::input::answered(held, released, app_held, app_released, ctx, snap, up, r_up),
    ensures
        ({
            let (id, vertical) = crate::dividers::touched(
                app.tabs@[app.active as int].tree.dividers((0, 0, ctx.width, ctx.height)),
                ctx.origin.0 + m.x,
                ctx.origin.1 + m.y,
            )->Some_0;
            let (t, u) = (app.tabs@[app.active as int], app_held.tabs@[app.active as int]);
            &&& held.drag == Some(id)
            &&& held.selecting == before.selecting
            &&& r matches MouseOutcome::Grab { shape } && shape == if vertical {
                6i32
            } else {
                5i32
            }
            &&& crate::dividers::is_dragged(
                t,
                u,
                id,
                ctx.origin.0 + m.x,
                ctx.origin.1 + m.y,
                ctx.width,
                ctx.height,
            )
            &&& released.drag is None
            &&& released.selecting == before.selecting
            &&& app_released == app_held
            &&& r_up == MouseOutcome::Nothing
        }),
{
}

/// A held divider follows every movement, whatever is under the mouse.
pub proof fn law_held_divider_moves(
    before: PaneInput,
    after: PaneInput,
    app: App,
    app_after: App,
    ctx: PaneCtx,
    snap: GridSnap,
    m: MouseEvent,
    r: MouseOutcome,
)
    requires
        m.kind is Move,
        before.drag is Some,
        i32::MIN <= ctx.origin.0 + m.x <= i32::MAX,
        i32::MIN <= ctx.origin.1 + m.y <= i32::MAX,
        crate::input::answered(before, after, app, app_after, ctx, snap, m, r),
    ensures
        r == MouseOutcome::Drag,
        after == before,
        crate::dividers::is_dragged(
            app.tabs@[app.active as int],
            app_after.tabs@[app.active as int],
            before.drag->Some_0,
            ctx.origin.0 + m.x,
            ctx.origin.1 + m.y,
            ctx.width,
            ctx.height,
        ),
{
}

/// Free movement shows a hand over a link with Ctrl held, the arrows of a divider
/// near one, and a beam elsewhere; the pane is painted anew where another cell is
/// under the mouse, and the cursor is set where it changes.
pub proof fn law_cursor_over_a_pane(
    before: PaneInput,
    after: PaneInput,
    app: App,
    app_after: App,
    ctx: PaneCtx,
    snap: GridSnap,
    m: MouseEvent,
    r: MouseOutcome,
    row: int,
    col: int,
)
    requires
        ctx.wf(),
        in_cell(ctx, m.x as int, m.y as int, row, col),
        m.kind is Move,
        before.drag is None,
        !before.selecting,
        crate::input::answered(before, after, app, app_after, ctx, snap, m, r),
    ensures
        app_after == app,
        after.mouse == (m.x, m.y),
        !after.selecting,
        after.drag is None,
        match crate::input::divider_under(app, ctx, m) {
            Some((_, vertical)) => after.hover == before.hover && after.shape == if vertical {
                6i32
            } else {
                5i32
            },
            None => after.hover == Some((row as i32, col as usize)) && after.shape == if m.mods
                & 0x0400_0000 != 0 && crate::url::link_at(snap, row as i32, col) is Some {
                13i32
            } else {
                4i32
            },
        },
        r matches MouseOutcome::Point { cursor, repaint } && repaint == (after.hover
            != before.hover) && cursor == if after.shape != before.shape {
            Some(after.shape)
        } else {
            None
        },
{
    lemma_in_cell(ctx, m.x as int, m.y as int, row, col);
}

/// Other presses and releases do nothing: of the middle button and of buttons
/// further on.
pub proof fn law_other_buttons(
    before: PaneInput,
    after: PaneInput,
    app: App,
    app_after: App,
    ctx: PaneCtx,
    snap: GridSnap,
    m: MouseEvent,
    r: MouseOutcome,
)
    requires
        crate::input::answered(before, after, app, app_after, ctx, snap, m, r),
        !(m.kind is Move),
        m.button != 1,
        m.button != 2,
    ensures
        r == MouseOutcome::Nothing,
        after == before,
        app_after == app,
{
}

/// Typing clears the selection, and so does Escape; a key held with Ctrl does
/// not, nor one that types nothing.
pub proof fn law_typing_clears_the_selection(k: KeyEvent)
    ensures
        k.key == 0x0100_0000 ==> crate::input::clears_selection(k),
        k.key != 0x0100_0000 && k.text@.len() == 0 ==> !crate::input::clears_selection(k),
        k.key != 0x0100_0000 && k.mods & 0x0400_0000 != 0 ==> !crate::input::clears_selection(k),
        k.text@.len() > 0 && k.mods & 0x0400_0000 == 0 ==> crate::input::clears_selection(k),
{
}

/// A key that is bound does what it is bound to and the shell does not see it;
/// any other sends its bytes, if it has some. Keys going up do nothing, and Ctrl
/// going down or up does no more than change the cursor over a link.
pub proof fn law_keys_act_or_type(cfg: Config, k: KeyEvent, bits: u32, r: KeyOutcome)
    requires
        call_ensures(crate::input::on_key, (&cfg, &k, bits), r),
    ensures
        ({
            let bound = crate::config::bound_action(
                crate::config::listed(cfg.key_bindings@),
                k.key,
                k.mods,
            );
            let sent = crate::keys::sequence(
                k.key,
                k.mods,
                vstd::utf8::encode_utf8(k.text@),
                bits & 0x02 == 0x02,
            );
            &&& k.key == 0x0100_0021 <==> r is Hover
            &&& k.key == 0x0100_0021 ==> r == (KeyOutcome::Hover { ctrl: k.press })
            &&& k.key != 0x0100_0021 && !k.press <==> r is Nothing
            &&& k.key != 0x0100_0021 && k.press && bound is Some ==> r == KeyOutcome::Act(
                bound->Some_0,
            )
            &&& k.key != 0x0100_0021 && k.press && bound is None ==> (
            r matches KeyOutcome::Type { clear_selection, bytes } && clear_selection
                == crate::input::clears_selection(k) && match sent {
                Some(t) => bytes matches Some(v) && v@ == t,
                None => bytes is None,
            })
        }),
{
}

} // verus!
