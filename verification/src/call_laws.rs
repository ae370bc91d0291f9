//! What comes back from calls of the library's functions, whatever they are called
//! with.
use vstd::prelude::*;
use crate::cells::GridSnap;
use crate::config::State;
use crate::geometry::Rect;
use crate::keys::KeyEvent;
use crate::mouse::MouseEvent;
use crate::mouse::Screen;
use crate::mouse::Side;
use crate::mouse::WheelOutcome;
use crate::pane_view::Bar;
use crate::pane_view::PaneSize;
use crate::render::Frame;
use crate::render::GridGeom;
use crate::render::PaintOp;
use crate::session::App;
use crate::session::SplitPlan;
use crate::tab::Pane;
use crate::tree::Node;

verus! {

/// An ASCII character is one byte of text.
proof fn lemma_ascii(c: char)
    requires
        c < '\u{80}',
    ensures
        vstd::utf8::encode_utf8(seq![c]) == seq![c as u8],
{
    let s = seq![c];
    let u = c as u32;
    assert(s.drop_first() =~= seq![]);
    reveal_with_fuel(vstd::utf8::encode_utf8, 2);
    assert(u & 0x7f == u) by (bit_vector)
        requires
            u < 0x80,
    ;
    assert(vstd::utf8::encode_utf8(s) =~= seq![c as u8]);
}

/// Every letter A to Z with Ctrl sends the one byte that is its number in the
/// alphabet, whether the event's text is the letter in either case or the control
/// byte itself; with Alt too and the control byte as text, `ESC` comes first.
pub proof fn law_ctrl_letter_keys(k: KeyEvent, app_cursor: bool, r: Option<Vec<u8>>, n: u8)
    requires
        call_ensures(crate::keys::key_bytes, (&k, app_cursor), r),
        1 <= n <= 26,
        k.mods & 0x0400_0000 != 0,
        k.text@ == seq![n as char] || k.text@ == seq![(n + 64) as u8 as char] || k.text@ == seq![
            (n + 96) as u8 as char,
        ],
    ensures
        k.mods & 0x0800_0000 == 0 || k.text@ != seq![n as char] ==> (r matches Some(v) && v@
            == seq![n]),
        k.mods & 0x0800_0000 != 0 && k.text@ == seq![n as char] ==> (r matches Some(v) && v@
            == seq![27u8, n]),
{
    let none = Seq::<u8>::empty();
    lemma_ascii(n as char);
    lemma_ascii((n + 64) as u8 as char);
    lemma_ascii((n + 96) as u8 as char);
    crate::keys_laws::law_ctrl_letters(n, k.key, k.mods, none, app_cursor);
    assert(seq![n] + none =~= seq![n]);
    assert(seq![(n + 64) as u8] + none =~= seq![(n + 64) as u8]);
    assert(seq![(n + 96) as u8] + none =~= seq![(n + 96) as u8]);
    assert(seq![n as char][0] != seq![(n + 64) as u8 as char][0]);
    assert(seq![n as char][0] != seq![(n + 96) as u8 as char][0]);
}

/// Typed text without Ctrl and Alt reaches the shell as it is.
pub proof fn law_typed_text(k: KeyEvent, app_cursor: bool, r: Option<Vec<u8>>)
    requires
        call_ensures(crate::keys::key_bytes, (&k, app_cursor), r),
        k.text@.len() > 0,
        k.mods & 0x0400_0000 == 0,
        k.mods & 0x0800_0000 == 0,
    ensures
        r matches Some(v) && v@ == vstd::utf8::encode_utf8(k.text@),
{
    vstd::utf8::encode_utf8_first_scalar(k.text@);
    let t = vstd::utf8::encode_utf8(k.text@);
    assert(t.len() > 0);
    crate::keys_laws::law_plain_text(k.key, k.mods, t, app_cursor);
}

/// A pane that begins at or past the lower edge of the current one and whose
/// center is further down than it is across is enough for the focus to go down,
/// and likewise for the other directions; it goes to a pane that lies there, and
/// to none that is further away than this one.
pub proof fn law_focus_has_a_target(
    rects: Vec<(u64, Rect)>,
    cur: u64,
    dx: i32,
    dy: i32,
    r: Option<u64>,
    c: int,
    j: int,
)
    requires
        call_ensures(crate::geometry::dir_target, (&rects, cur, dx, dy), r),
        crate::geometry::first_entry(rects@, cur, c),
        0 <= j < rects@.len(),
        rects@[j].0 != cur,
        ({
            let (a, b) = (rects@[c].1, rects@[j].1);
            let x = (b.0 + b.2 / 2) - (a.0 + a.2 / 2);
            let y = (b.1 + b.3 / 2) - (a.1 + a.3 / 2);
            &&& 0 <= a.2 && 0 <= a.3 && 0 <= b.2 && 0 <= b.3
            &&& {
                ||| dx == 1 && dy == 0 && a.0 + a.2 <= b.0 && -x < y < x
                ||| dx == -1 && dy == 0 && b.0 + b.2 <= a.0 && x < y < -x
                ||| dx == 0 && dy == 1 && a.1 + a.3 <= b.1 && -y < x < y
                ||| dx == 0 && dy == -1 && b.1 + b.3 <= a.1 && y < x < -y
            }
        }),
    ensures
        r matches Some(id) && exists|i: int|
            0 <= i < rects@.len() && (#[trigger] rects@[i]).0 == id && id != cur
                && crate::geometry::lies_towards(rects@[c].1, rects@[i].1, dx as int, dy as int)
                && crate::geometry::distance2(rects@[c].1, rects@[i].1)
                <= crate::geometry::distance2(rects@[c].1, rects@[j].1),
{
    let s = rects@;
    crate::place_laws::law_ahead_rather_than_aside(s[c].1, s[j].1);
    assert(crate::geometry::is_candidate(s, cur, s[c].1, dx as int, dy as int, j));
    if let Some(id) = r {
        let (c2, i) = choose|c2: int, i: int|
            #![trigger crate::geometry::first_entry(s, cur, c2), s[i]]
            crate::geometry::first_entry(s, cur, c2) && crate::geometry::is_nearest_candidate(
                s,
                cur,
                s[c2].1,
                dx as int,
                dy as int,
                i,
            ) && id == s[i].0;
        assert(c2 == c) by {
            if c2 < c {
                assert(s[c2].0 != cur);
            } else if c < c2 {
                assert(s[c].0 != cur);
            }
        }
        assert(s[i].0 == id);
    } else {
        assert(crate::geometry::first_entry(s, cur, c));
        assert(s[j].0 != cur);
    }
}

/// Whichever side of its split a pane is, the axis found for it is the split's,
/// and the pane to focus when it closes is the first one of the other side.
pub proof fn law_either_side_of_a_split(
    n: Node,
    s: Node,
    id: u64,
    axis: Option<bool>,
    next: Option<u64>,
)
    requires
        call_ensures(crate::tree::parent_axis, (&n, id), axis),
        call_ensures(crate::tree::focus_fallback, (&n, id), next),
        n.leaves().no_duplicates(),
        n.filled(),
        crate::surgery_laws::within(n, s),
    ensures
        s matches Node::Split { vertical, a, b, .. } ==> {
            &&& *a == Node::Leaf(id) || *b == Node::Leaf(id) ==> axis == Some(vertical)
            &&& *a == Node::Leaf(id) ==> next == Some(b.leaves()[0])
            &&& *b == Node::Leaf(id) ==> next == Some(a.leaves()[0])
        },
{
    crate::surgery_laws::law_axis_of_either_side(n, s, id);
}

/// Rendering draws the lines of every ASCII character over the whole width of its
/// cell.
pub proof fn law_rendered_lines(f: Frame, s: GridSnap, out: Vec<PaintOp>, i: int, px: int)
    requires
        call_ensures(crate::render::render, (&s, &f), out),
        f.geom.wf(),
        0 <= i < s.cells@.len(),
        s.cells@[i].cell.flags & 0x0040 != 0x0040,
        s.cells@[i].cell.flags & 0x0100 != 0x0100,
        '\0' < s.cells@[i].cell.c < '\u{80}',
        s.cells@[i].cell.col * f.geom.cell_w <= px < (s.cells@[i].cell.col + 1) * f.geom.cell_w,
    ensures
        ({
            let cs = s.cells@[i];
            let ops = crate::render::drawn(out@);
            let top = f.y_off + cs.row * f.geom.cell_h;
            let color = crate::ink_laws::line_color(cs.cell, f.scheme);
            let under = top + f.geom.ascent + 1;
            let middle = top + f.geom.cell_h as int / 2;
            &&& cs.cell.flags & 0x0008 == 0x0008 ==> crate::ink_laws::filled_at(
                ops,
                px,
                under,
                color,
            )
            &&& cs.cell.flags & 0x0800 == 0x0800 ==> crate::ink_laws::filled_at(
                ops,
                px,
                under,
                color,
            ) && crate::ink_laws::filled_at(ops, px, under + 2, color)
            &&& cs.cell.flags & 0x0200 == 0x0200 ==> crate::ink_laws::filled_at(
                ops,
                px,
                middle,
                color,
            )
        }),
{
    crate::ink_laws::law_cells_are_lined(f, s, i, px);
}

/// The wheel is the program's in any mouse mode. Else it scrolls: three lines per
/// notch of 120, up for a turn away from the user, down for one towards them, and
/// not at all for less than a line.
pub proof fn law_wheel_scrolls_or_reports(
    bits: u32,
    dy: i32,
    x: i32,
    y: i32,
    mods: i32,
    g: GridGeom,
    s: Screen,
    r: WheelOutcome,
)
    requires
        call_ensures(crate::mouse::wheel, (bits, dy, x, y, mods, &g, &s), r),
    ensures
        bits & 0x2048 != 0 <==> r is Report,
        bits & 0x2048 == 0 && -40 < dy < 40 <==> r is Nothing,
        r matches WheelOutcome::Scroll(n) ==> {
            &&& dy > 0 ==> 40 * n <= dy < 40 * n + 40 && n > 0
            &&& dy < 0 ==> 40 * n - 40 < dy <= 40 * n && n < 0
        },
{
}

/// The point under the mouse: the grid line is the screen row less how far the
/// terminal is scrolled back.
pub proof fn law_point_under_the_mouse(
    x: i32,
    y: i32,
    g: GridGeom,
    s: Screen,
    r: (i32, usize, Side),
    row: int,
    col: int,
)
    requires
        call_ensures(crate::mouse::mouse_point, (x, y, &g, &s), r),
        g.wf(),
        s.wf(),
        0 <= row < s.lines,
        0 <= col < s.cols,
        row * g.cell_h <= y < (row + 1) * g.cell_h,
        col * g.cell_w <= x < (col + 1) * g.cell_w,
    ensures
        r.0 == row - s.offset,
        r.1 == col,
        r.2 is Left <==> x - col * g.cell_w < g.cell_w as int / 2,
{
    crate::mouse::law_pixels_of_a_cell(row, y as int, g.cell_h as int, s.lines as int);
    crate::mouse::law_pixels_of_a_cell(col, x as int, g.cell_w as int, s.cols as int);
    assert((col + 1) * g.cell_w == col * g.cell_w + g.cell_w) by (nonlinear_arith);
    crate::mouse_laws::law_halves(col, x - col * g.cell_w, g.cell_w as int);
}

/// An event is reported exactly in the modes that ask for it.
pub proof fn law_reported_in_modes(
    bits: u32,
    m: MouseEvent,
    g: GridGeom,
    s: Screen,
    r: Option<Vec<u8>>,
)
    requires
        call_ensures(crate::mouse::try_report_mouse, (bits, &m, &g, &s), r),
    ensures
        r is Some <==> bits & 0x2048 != 0 && match m.kind {
            crate::mouse::MouseKind::Other => false,
            crate::mouse::MouseKind::Move => bits & 0x40 == 0x40 || (bits & 0x2000 == 0x2000
                && m.button != 0),
            _ => true,
        },
{
}

/// A pane's terminal has as many whole columns and lines as fit, at least one of
/// each; the scroll bar is 14 pixels wide, at the right edge.
pub proof fn law_pane_sizes(w: i32, h: i32, g: GridGeom, r: PaneSize)
    requires
        call_ensures(crate::pane_view::pane_resized, (w, h, &g), r),
        g.wf(),
    ensures
        w >= g.cell_w ==> r.cols * g.cell_w <= w < (r.cols + 1) * g.cell_w,
        w < g.cell_w ==> r.cols == 1,
        h >= g.cell_h ==> r.lines * g.cell_h <= h < (r.lines + 1) * g.cell_h,
        h < g.cell_h ==> r.lines == 1,
        r.bar_x + 14 == w,
        0 <= w < 65536 ==> r.pty.pixel_width == w,
        0 <= h < 65536 ==> r.pty.pixel_height == h,
        r.cols < 65536 ==> r.pty.cols == r.cols,
        r.lines < 65536 ==> r.pty.rows == r.lines,
{
    crate::pane_laws::law_cells_that_fit(w as int, g.cell_w as int);
    crate::pane_laws::law_cells_that_fit(h as int, g.cell_h as int);
}

/// The scroll bar's own update moves nothing, nor does putting it where it is;
/// else the terminal scrolls back to where the bar stands for.
pub proof fn law_scrollbar(s: Screen, v: i32, syncing: bool, r: Option<i64>, bar: Bar)
    requires
        call_ensures(crate::pane_view::scrollbar_moved, (&s, v, syncing), r),
        call_ensures(crate::pane_view::sync_scrollbar, (&s,), bar),
        s.wf(),
    ensures
        r is None <==> syncing || v == bar.value,
        r matches Some(n) ==> n == bar.value - v && s.offset + n == s.history - v,
        bar.max == s.history && bar.page == s.lines && bar.value + s.offset == s.history,
{
}

/// The window starts in the remembered size, and in 80 columns and 24 lines where
/// none is.
pub proof fn law_window_sizes(st: State, g: GridGeom, r: (i64, i64))
    requires
        call_ensures(crate::pane_view::window_size, (&st, &g), r),
    ensures
        st.window_width matches Some(w) ==> r.0 == w,
        st.window_width is None ==> r.0 == 80 * g.cell_w,
        st.window_height matches Some(h) ==> r.1 == h,
        st.window_height is None ==> r.1 == 24 * g.cell_h,
{
}

/// The tab that a number stands for counts round the tabs: with as many more it
/// is the same one.
pub proof fn law_tab_numbers_go_round(app: App, i: usize, j: usize, r: Option<usize>, q: Option<usize>)
    requires
        call_ensures(crate::session::switch_tab, (&app, i), r),
        call_ensures(crate::session::switch_tab, (&app, j), q),
        j == i + app.tabs@.len(),
    ensures
        r == q,
        i < app.tabs@.len() ==> r == Some(i),
        app.tabs@.len() == 0 ==> r is None,
{
    let n = app.tabs@.len() as int;
    if n > 0 {
        vstd::arithmetic::div_mod::lemma_mod_add_multiples_vanish(i as int, n);
        if i < n {
            vstd::arithmetic::div_mod::lemma_small_mod(i as nat, n as nat);
        }
    }
}

/// Going through the panes as many steps as there are comes back to the active
/// one; one step on goes to the next in visual order.
pub proof fn law_steps_through_panes(app: App, step: i32, r: Option<u64>, k: int)
    requires
        call_ensures(crate::session::cycle_pane, (&app, step), r),
        app.wf(),
        app.tabs@.len() > 0,
        ({
            let t = app.tabs@[app.active as int];
            0 <= k < t.tree.leaves().len() && t.tree.leaves()[k] == t.active_pane
        }),
    ensures
        ({
            let t = app.tabs@[app.active as int];
            let n = t.tree.leaves().len() as int;
            &&& r is Some <==> n >= 2
            &&& n >= 2 && step == n ==> r == Some(t.active_pane)
            &&& n >= 2 && step == 1 && k + 1 < n ==> r == Some(t.tree.leaves()[k + 1])
            &&& n >= 2 && step == -1 && 0 < k ==> r == Some(t.tree.leaves()[k - 1])
        }),
{
    let t = app.tabs@[app.active as int];
    let ids = t.tree.leaves();
    let n = ids.len() as int;
    assert(t.wf());
    crate::tree::lemma_index_is(ids, k);
    vstd::arithmetic::div_mod::lemma_mod_add_multiples_vanish(k, n);
    vstd::arithmetic::div_mod::lemma_small_mod(k as nat, n as nat);
    if step == 1 && k + 1 < n {
        vstd::arithmetic::div_mod::lemma_small_mod((k + 1) as nat, n as nat);
    }
    if step == -1 && 0 < k {
        vstd::arithmetic::div_mod::lemma_small_mod((k - 1) as nat, n as nat);
    }
}

/// A pane takes a lost focus back only where no menu is open, its tab is shown and
/// it is that tab's active one.
pub proof fn law_focus_taken_back(app: App, id: u64, popup: bool, r: bool)
    requires
        call_ensures(App::takes_focus_back, (&app, id, popup), r),
        app.wf(),
    ensures
        r ==> !popup && app.tabs@[app.active as int].active_pane == id,
        !r ==> popup || app.tabs@.len() == 0 || app.tabs@[app.active as int].active_pane != id,
{
    if app.tabs@.len() > 0 {
        let t = app.tabs@[app.active as int];
        assert(t.wf());
        assert(t.has(t.active_pane));
    }
}

/// A tab's label is the title of its active pane, and the shell's name where that
/// pane has none, whatever titles its other panes have.
pub proof fn law_labels(app: App, i: usize, shell: &str, s: String, k: int)
    requires
        call_ensures(App::tab_label, (&app, i, shell), s),
        app.wf(),
        i < app.tabs@.len(),
        0 <= k < app.tabs@[i as int].panes@.len(),
        app.tabs@[i as int].panes@[k].id == app.tabs@[i as int].active_pane,
    ensures
        match app.tabs@[i as int].panes@[k].title {
            Some(title) => s@ == title@,
            None => s@ == shell@,
        },
{
    let t = app.tabs@[i as int];
    assert(t.wf());
    let ids = crate::tab::pane_ids(t.panes@);
    assert(ids[k] == t.active_pane);
    crate::tree::lemma_index_is(ids, k);
}

/// Texts are Chinese where the first variable that is set begins with `zh`, and
/// English elsewhere.
pub proof fn law_locales(
    lc_all: Option<&str>,
    lc_messages: Option<&str>,
    lang: Option<&str>,
    r: &'static str,
    x: Seq<char>,
)
    requires
        call_ensures(crate::shell::detect_locale, (lc_all, lc_messages, lang), r),
        match (lc_all, lc_messages, lang) {
            (Some(s), _, _) => s@ == x,
            (None, Some(s), _) => s@ == x,
            (None, None, Some(s)) => s@ == x,
            (None, None, None) => x.len() == 0,
        },
    ensures
        r@ == if x.len() >= 2 && x[0] == 'z' && x[1] == 'h' {
            seq!['z', 'h', '-', 'C', 'N']
        } else {
            seq!['e', 'n']
        },
{
    reveal_strlit("zh");
    reveal_strlit("zh-CN");
    reveal_strlit("en");
    reveal_strlit("");
    assert("zh-CN"@ =~= seq!['z', 'h', '-', 'C', 'N']);
    assert("en"@ =~= seq!['e', 'n']);
    let y = crate::shell::asked_language(
        crate::shell::chars_at(lc_all),
        crate::shell::chars_at(lc_messages),
        crate::shell::chars_at(lang),
    );
    assert(y =~= x);
    if x.len() >= 2 && x[0] == 'z' && x[1] == 'h' {
        assert(x.take(2) =~= "zh"@);
    } else if crate::text::begins_with(x, "zh"@) {
        assert(x.take(2)[0] == 'z' && x.take(2)[1] == 'h');
    }
}

/// An input method's window stays at the cell of the text cursor, which moves down
/// as the terminal is scrolled back; with the cursor above the screen it has no
/// place.
pub proof fn law_input_method_place(s: GridSnap, g: GridGeom, r: Option<(i64, i64, i64, i64)>, row: int)
    requires
        call_ensures(crate::pane_view::ime_rect, (&s, &g), r),
        row == s.cursor_line + s.offset,
    ensures
        row < 0 ==> r is None,
        row >= 0 ==> (r matches Some(b) && b.0 == s.cursor_col * g.cell_w && b.1 == row * g.cell_h
            && b.2 == g.cell_w && b.3 == g.cell_h),
{
}

/// A split is planned where the pane has room for two cells across the divider and
/// one along it, and nowhere else; the new terminal has what fits into half of
/// the pane, and its shell starts where the pane's shell is.
pub proof fn law_planned_splits(
    app: App,
    i: int,
    k: int,
    vertical: bool,
    g: GridGeom,
    w: i32,
    h: i32,
    r: Option<SplitPlan>,
    rect: Rect,
)
    requires
        app.wf(),
        app.fits(w, h),
        g.wf(),
        0 <= i < app.tabs@.len(),
        0 <= k < app.tabs@[i].panes@.len(),
        app.tabs@[i].tree.rect_of(app.tabs@[i].panes@[k].id, (0, 0, w, h)) == Some(rect),
        0 <= rect.2,
        0 <= rect.3,
        call_ensures(App::plan_split, (&app, app.tabs@[i].panes@[k].id, vertical, &g, w, h), r),
    ensures
        vertical ==> (r is Some <==> 2 * g.cell_w <= rect.2 && g.cell_h <= rect.3),
        !vertical ==> (r is Some <==> g.cell_w <= rect.2 && 2 * g.cell_h <= rect.3),
        r matches Some(p) ==> {
            &&& p.tab == i
            &&& p.pid == app.tabs@[i].panes@[k].pid
            &&& vertical ==> p.cols == crate::session::cells_in(rect.2 as int / 2, g.cell_w as int)
                && p.lines == crate::session::cells_in(rect.3 as int, g.cell_h as int)
            &&& !vertical ==> p.cols == crate::session::cells_in(rect.2 as int, g.cell_w as int)
                && p.lines == crate::session::cells_in(rect.3 as int / 2, g.cell_h as int)
        },
{
    let t = app.tabs@[i];
    let id = t.panes@[k].id;
    let ids = crate::tab::pane_ids(t.panes@);
    assert(t.wf());
    assert(ids[k] == id);
    assert(ids.contains(id));
    assert(crate::session::is_tab_of(app.tabs@, id, i));
    crate::pane_laws::law_splittable(app, i, id, g, w, h);
    if let Some(p) = r {
        assert(crate::session::is_tab_of(app.tabs@, id, p.tab as int));
        assert(p.tab == i);
        let q = choose|q: Pane| #[trigger] t.panes@.contains(q) && q.id == id && q.pid == p.pid;
        let j = t.panes@.index_of(q);
        assert(ids[j] == id);
        assert(j == k);
    }
}

/// A painted pane is its drawn terminal and, over a link, one underline more.
pub proof fn law_painted_panes(
    s: GridSnap,
    f: Frame,
    hover: Option<(i32, usize)>,
    out: Vec<PaintOp>,
    plain: Vec<PaintOp>,
)
    requires
        call_ensures(crate::pane_view::paint_pane, (&s, &f, hover), out),
        call_ensures(crate::render::render, (&s, &f), plain),
    ensures
        ({
            let over = hover matches Some((row, col)) && crate::url::link_at(s, row, col as int) is Some;
            let (a, b) = (crate::render::drawn(out@), crate::render::drawn(plain@));
            &&& !over ==> a == b
            &&& over ==> a.len() == b.len() + 1 && a.drop_last() == b && a.last() is Fill
        }),
{
    let b = crate::render::drawn(plain@);
    if let Some(d) = crate::pane_view::link_underline(f, s, hover) {
        assert(b.push(d).drop_last() =~= b);
    }
}

} // verus!
