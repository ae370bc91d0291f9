//! What the actions of the user come down to in a session.
use vstd::prelude::*;
use crate::command::Command;
use crate::command::MenuEntry;
use crate::config::Action;
use crate::session::App;
use crate::tab::Pane;

verus! {

/// The next tab is the one after, the previous one the one before, each round
/// the end; with all tabs gone through, the shown one comes again.
pub proof fn law_tabs_go_round(i: int, n: int)
    requires
        0 <= i < n,
    ensures
        crate::session::following(i, n) == (i + 1) % n,
        crate::session::preceding(i, n) == (i + n - 1) % n,
{
    if i + 1 < n {
        vstd::arithmetic::div_mod::lemma_small_mod((i + 1) as nat, n as nat);
    } else {
        vstd::arithmetic::div_mod::lemma_mod_self_0(n);
    }
    if i > 0 {
        vstd::arithmetic::div_mod::lemma_fundamental_div_mod_converse(i + n - 1, n, 1, i - 1);
    } else {
        vstd::arithmetic::div_mod::lemma_small_mod((n - 1) as nat, n as nat);
    }
}

/// The next pane is the one after the active one in visual order, the previous
/// one the one before, each round the end; a single pane keeps the focus.
pub proof fn law_panes_go_round(app: App, k: int)
    requires
        app.wf(),
        app.tabs@.len() > 0,
        ({
            let t = app.tabs@[app.active as int];
            0 <= k < t.tree.leaves().len() && t.tree.leaves()[k] == t.active_pane
        }),
    ensures
        ({
            let ids = app.tabs@[app.active as int].tree.leaves();
            let n = ids.len() as int;
            &&& n == 1 ==> crate::command::cycled(app, 1) == Command::Nothing
                && crate::command::cycled(app, -1) == Command::Nothing
            &&& n > 1 ==> crate::command::cycled(app, 1) == Command::Focus(
                if k + 1 < n {
                    ids[k + 1]
                } else {
                    ids[0]
                },
            )
            &&& n > 1 ==> crate::command::cycled(app, -1) == Command::Focus(
                if k > 0 {
                    ids[k - 1]
                } else {
                    ids[n - 1]
                },
            )
        }),
{
    let t = app.tabs@[app.active as int];
    let ids = t.tree.leaves();
    let n = ids.len() as int;
    assert(t.wf());
    crate::tree::lemma_index_is(ids, k);
    if k + 1 < n {
        vstd::arithmetic::div_mod::lemma_small_mod((k + 1) as nat, n as nat);
    } else {
        vstd::arithmetic::div_mod::lemma_mod_self_0(n);
    }
    if k > 0 {
        vstd::arithmetic::div_mod::lemma_small_mod((k - 1) as nat, n as nat);
    } else {
        vstd::arithmetic::div_mod::lemma_fundamental_div_mod_converse(-1, n, -1, n - 1);
    }
}

/// The four focus actions go the way they are called: the pane that gets the
/// focus ends above, begins below, ends left or begins right of the active one.
pub proof fn law_focus_goes_that_way(app: App, a: Action, id: u64, w: i32, h: i32, target: u64)
    requires
        app.wf(),
        app.tabs@.len() > 0,
        crate::command::is_command(app, a, id, w, h, Command::Focus(target)),
    ensures
        ({
            let t = app.tabs@[app.active as int];
            let from = t.tree.rect_of(t.active_pane, (0, 0, w, h));
            let to = t.tree.rect_of(target, (0, 0, w, h));
            &&& t.tree.leaves().contains(target)
            &&& from is Some && to is Some
            &&& a is FocusPaneUp ==> to->Some_0.1 + to->Some_0.3 <= from->Some_0.1
            &&& a is FocusPaneDown ==> from->Some_0.1 + from->Some_0.3 <= to->Some_0.1
            &&& a is FocusPaneLeft ==> to->Some_0.0 + to->Some_0.2 <= from->Some_0.0
            &&& a is FocusPaneRight ==> from->Some_0.0 + from->Some_0.2 <= to->Some_0.0
        }),
{
    let t = app.tabs@[app.active as int];
    let whole = (0i32, 0i32, w, h);
    assert(t.wf());
    assert(t.tree.leaves().contains(t.active_pane));
    crate::geometry_laws::law_rect_iff_pane(t.tree, t.active_pane, whole);
    crate::geometry_laws::law_rect_iff_pane(t.tree, target, whole);
    let from = t.tree.rect_of(t.active_pane, whole)->Some_0;
    let d: (int, int) = match a {
        Action::FocusPaneUp => (0int, -1int),
        Action::FocusPaneDown => (0int, 1int),
        Action::FocusPaneLeft => (-1int, 0int),
        _ => (1int, 0int),
    };
    if a is NextPane || a is PrevPane {
        let ids = t.tree.leaves();
        let n = ids.len() as int;
        let step = if a is NextPane {
            1int
        } else {
            -1int
        };
        let k = (ids.index_of(t.active_pane) + step) % n;
        vstd::arithmetic::div_mod::lemma_mod_bound(ids.index_of(t.active_pane) + step, n);
        assert(ids[k] == target);
    } else {
        crate::place_laws::law_focus_goes_to_the_nearest(
            t,
            w,
            h,
            d.0,
            d.1,
            Some(target),
            from,
            0,
        );
    }
}

/// The focus stays only where nothing lies that way: no pane of the tab that ends
/// at or above the active one's top edge has its center further up than aside,
/// and likewise for the other directions.
pub proof fn law_focus_stays_only_at_the_edge(app: App, a: Action, id: u64, w: i32, h: i32, j: int)
    requires
        app.wf(),
        app.tabs@.len() > 0,
        crate::command::is_command(app, a, id, w, h, Command::Nothing),
        0 <= j < app.tabs@[app.active as int].tree.leaves().len(),
        ({
            let t = app.tabs@[app.active as int];
            t.tree.leaves()[j] != t.active_pane
        }),
    ensures
        ({
            let t = app.tabs@[app.active as int];
            let from = t.tree.rect_of(t.active_pane, (0, 0, w, h))->Some_0;
            let to = t.tree.rect_of(t.tree.leaves()[j], (0, 0, w, h))->Some_0;
            let x = (to.0 + to.2 / 2) - (from.0 + from.2 / 2);
            let y = (to.1 + to.3 / 2) - (from.1 + from.3 / 2);
            0 <= from.2 && 0 <= from.3 && 0 <= to.2 && 0 <= to.3 ==> {
                &&& a is FocusPaneUp ==> !(to.1 + to.3 <= from.1 && y < x < -y)
                &&& a is FocusPaneDown ==> !(from.1 + from.3 <= to.1 && -y < x < y)
                &&& a is FocusPaneLeft ==> !(to.0 + to.2 <= from.0 && x < y < -x)
                &&& a is FocusPaneRight ==> !(from.0 + from.2 <= to.0 && -x < y < x)
            }
        }),
{
    let t = app.tabs@[app.active as int];
    let whole = (0i32, 0i32, w, h);
    assert(t.wf());
    assert(t.tree.leaves().contains(t.active_pane));
    crate::geometry_laws::law_rect_iff_pane(t.tree, t.active_pane, whole);
    crate::geometry_laws::law_rect_is_layout(t.tree, whole, j);
    let from = t.tree.rect_of(t.active_pane, whole)->Some_0;
    let to = t.tree.rect_of(t.tree.leaves()[j], whole)->Some_0;
    let d: (int, int) = match a {
        Action::FocusPaneUp => (0int, -1int),
        Action::FocusPaneDown => (0int, 1int),
        Action::FocusPaneLeft => (-1int, 0int),
        _ => (1int, 0int),
    };
    if a is FocusPaneUp || a is FocusPaneDown || a is FocusPaneLeft || a is FocusPaneRight {
        crate::place_laws::law_focus_goes_to_the_nearest(t, w, h, d.0, d.1, None, from, j);
        if 0 <= from.2 && 0 <= from.3 && 0 <= to.2 && 0 <= to.3 {
            crate::place_laws::law_ahead_rather_than_aside(from, to);
        }
    }
}

/// Closing a tab hangs up on the shells of its panes in the order in which they
/// were opened, those whose processes are known, and on no other.
pub proof fn law_shells_of_a_tab(panes: Seq<Pane>)
    ensures
        crate::session::known_pids(panes) == panes.map_values(|p: Pane| p.pid).filter(
            |pid: u32| pid != 0,
        ),
    decreases panes.len(),
{
    reveal(Seq::filter);
    let pids = panes.map_values(|p: Pane| p.pid);
    if panes.len() > 0 {
        law_shells_of_a_tab(panes.drop_last());
        assert(pids.drop_last() =~= panes.drop_last().map_values(|p: Pane| p.pid));
        assert(pids.last() == panes.last().pid);
    }
    assert(crate::session::known_pids(panes) =~= pids.filter(|pid: u32| pid != 0));
}

/// A command that has to do with one pane has to do with that pane's shell.
pub proof fn law_the_panes_own_shell(app: App, i: int, k: int, id: u64, pid: u32)
    requires
        app.wf(),
        0 <= i < app.tabs@.len(),
        0 <= k < app.tabs@[i].panes@.len(),
        app.tabs@[i].panes@[k].id == id,
        crate::command::is_pid_of(app, id, pid),
    ensures
        pid == app.tabs@[i].panes@[k].pid,
{
    let t = app.tabs@[i];
    let ids = crate::tab::pane_ids(t.panes@);
    assert(t.wf());
    assert(ids[k] == id);
    assert(ids.contains(id));
    assert(crate::session::is_tab_of(app.tabs@, id, i));
    crate::tree::lemma_index_is(ids, k);
    let j = choose|j: int| #[trigger]
        crate::session::is_tab_of(app.tabs@, id, j) && app.tabs@[j].panes@[crate::tab::pane_ids(
            app.tabs@[j].panes@,
        ).index_of(id)].pid == pid;
    assert(j == i);
}

/// When a tab's last shell is gone, the other tabs keep their order, and the tab
/// that is shown is the one at the same place, or the last one where there is
/// none.
pub proof fn law_shown_after_a_tab_is_gone(before: App, after: App, id: u64, index: int)
    requires
        before.wf(),
        crate::session::is_tab_closed(before, after, id, index),
        after.tabs@.len() > 0,
    ensures
        after.tabs@ == before.tabs@.take(index) + before.tabs@.skip(index + 1),
        before.active + 1 < before.tabs@.len() ==> after.active == before.active,
        before.active + 1 == before.tabs@.len() ==> after.active == before.active - 1,
{
    assert(before.tabs@.remove(index) =~= before.tabs@.take(index) + before.tabs@.skip(index + 1));
}

/// Each action does what it is called after.
pub proof fn law_actions(app: App, a: Action, id: u64, w: i32, h: i32, c: Command)
    requires
        app.wf(),
        app.tabs@.len() > 0,
        crate::command::is_command(app, a, id, w, h, c),
    ensures
        ({
            let n = app.tabs@.len() as int;
            &&& a is Copy <==> c is Copy
            &&& a is Paste <==> c is Paste
            &&& a is NewTab <==> c is NewTab
            &&& (a is CloseTab || a is CloseWorkspace) <==> c is HangUp
            &&& a is SplitVertical ==> c == (Command::Split { vertical: true })
            &&& a is SplitHorizontal ==> c == (Command::Split { vertical: false })
            &&& a is NextTab ==> c == Command::Show(((app.active + 1) % n) as usize)
            &&& a is PrevTab ==> c == Command::Show(((app.active + n - 1) % n) as usize)
        }),
{
    law_tabs_go_round(app.active as int, app.tabs@.len() as int);
}

/// Closing a tab hangs up on the shells of all its panes, closing a pane on its
/// own shell alone.
pub proof fn law_who_is_hung_up(app: App, i: int, k: int, w: i32, h: i32, c: Command)
    requires
        app.wf(),
        0 <= i < app.tabs@.len(),
        0 <= k < app.tabs@[i].panes@.len(),
    ensures
        ({
            let p = app.tabs@[i].panes@[k];
            &&& crate::command::is_command(app, Action::CloseTab, p.id, w, h, c) ==> (
            c matches Command::HangUp(v) && v@ == crate::session::known_pids(app.tabs@[i].panes@))
            &&& crate::command::is_command(app, Action::CloseWorkspace, p.id, w, h, c) ==> (
            c matches Command::HangUp(v) && v@ == if p.pid == 0 {
                seq![]
            } else {
                seq![p.pid]
            })
            &&& crate::command::is_command(app, Action::NewTab, p.id, w, h, c) ==> (
            c matches Command::NewTab { pid } && pid == p.pid)
        }),
{
    let t = app.tabs@[i];
    let p = t.panes@[k];
    assert(t.wf());
    assert(crate::tab::pane_ids(t.panes@)[k] == p.id);
    assert(crate::session::is_tab_of(app.tabs@, p.id, i));
    if crate::command::is_command(app, Action::CloseTab, p.id, w, h, c) {
        let v = c->HangUp_0;
        let j = choose|j: int| #[trigger]
            crate::session::is_tab_of(app.tabs@, p.id, j) && v@ == crate::session::known_pids(
                app.tabs@[j].panes@,
            );
        assert(crate::session::is_tab_of(app.tabs@, p.id, j));
        assert(j == i);
    }
    if crate::command::is_command(app, Action::CloseWorkspace, p.id, w, h, c) {
        let v = c->HangUp_0;
        let pid = choose|pid: u32| #[trigger]
            crate::command::is_pid_of(app, p.id, pid) && v@ == if pid == 0 {
                seq![]
            } else {
                seq![pid]
            };
        law_the_panes_own_shell(app, i, k, p.id, pid);
    }
    if crate::command::is_command(app, Action::NewTab, p.id, w, h, c) {
        law_the_panes_own_shell(app, i, k, p.id, c->NewTab_pid);
    }
}

/// A line of the menu does what the action of its name does in that pane; a new
/// tab starts where the active pane's shell is, and a separator does nothing.
pub proof fn law_menu_does_what_actions_do(app: App, e: MenuEntry, id: u64, w: i32, h: i32, c: Command)
    requires
        crate::command::is_menu_command(app, e, id, c),
    ensures
        e is Copy ==> crate::command::is_command(app, Action::Copy, id, w, h, c),
        e is Paste ==> crate::command::is_command(app, Action::Paste, id, w, h, c),
        e is SplitHorizontal ==> crate::command::is_command(
            app,
            Action::SplitHorizontal,
            id,
            w,
            h,
            c,
        ),
        e is SplitVertical ==> crate::command::is_command(app, Action::SplitVertical, id, w, h, c),
        e is CloseWorkspace ==> crate::command::is_command(
            app,
            Action::CloseWorkspace,
            id,
            w,
            h,
            c,
        ),
        e is NewTab ==> crate::command::is_command(
            app,
            Action::NewTab,
            app.tabs@[app.active as int].active_pane,
            w,
            h,
            c,
        ),
        e is OpenInFileManager ==> (c matches Command::OpenDir { pid } && crate::command::is_pid_of(
            app,
            id,
            pid,
        )),
        e is Separator <==> c is Nothing,
{
}

} // verus!
