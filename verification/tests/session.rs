use deptty::command::{Command, MenuEntry};
use deptty::config::{Action, Config};
use deptty::input::{on_key, KeyOutcome, MouseOutcome, PaneCtx, PaneInput, SelectKind};
use deptty::cells::{snapshot_grid, GridCell, GridSnap, GridView};
use deptty::color::{Color, NamedColor};
use deptty::keys::KeyEvent;
use deptty::mouse::{MouseEvent, MouseKind, Screen, Side};
use deptty::notify::Poke;
use deptty::qt::{cursor, key, modifier, mouse_button};
use deptty::session::Exit;
use deptty::title::TitleSlot;
use deptty::{
    close_tab, context_menu, cycle_pane, focus_pane_dir, spawn_tab, split_pane, switch_tab, App,
    GridGeom, Node, Pane,
};

const W: i32 = 800;
const H: i32 = 480;

fn geom() -> GridGeom {
    GridGeom::new(10, 20, 15).unwrap()
}

fn ids(app: &App, tab: usize) -> Vec<u64> {
    app.layout_tab(tab, W, H).iter().map(|(id, _)| *id).collect()
}

/// One tab with panes 1, 2 and 4 side by side.
fn three_panes() -> App {
    let mut app = App::new();
    assert_eq!(spawn_tab(&mut app, 11), 1);
    assert_eq!(split_pane(&mut app, 1, true, 12), Some(2));
    assert_eq!(split_pane(&mut app, 2, true, 14), Some(4));
    assert!(app.layout_fits(W, H));
    app
}

#[test]
fn tabs_open_at_the_end_and_are_shown() {
    let mut app = App::new();
    assert_eq!(switch_tab(&app, 0), None);
    let a = spawn_tab(&mut app, 7);
    let b = spawn_tab(&mut app, 8);
    assert_ne!(a, b);
    assert_eq!(app.active, 1);
    assert_eq!(app.tabs.len(), 2);
    assert_eq!(app.tabs[1].active().id, b);
    assert_eq!(app.tabs[1].pane(b).pid, 8);
    assert!(app.id_left() && app.ids_left());
}

#[test]
fn the_first_pane_of_an_id_is_the_pane() {
    let mut app = App::new();
    let id = spawn_tab(&mut app, 7);
    let mut tab = app.tabs.remove(0);
    tab.panes.push(Pane {
        id,
        pid: 8,
        title: None,
    });
    assert_eq!(tab.pane(id).pid, 7);
}

#[test]
fn splits_share_the_space_equally() {
    let app = three_panes();
    assert_eq!(ids(&app, 0), [1, 2, 4]);
    let widths: Vec<i32> = app.layout_tab(0, W, H).iter().map(|(_, r)| r.2).collect();
    assert_eq!(widths, [266, 265, 265]);
    assert_eq!(app.tabs[0].active_pane, 4);
}

#[test]
fn no_split_without_room() {
    let app = three_panes();
    let plan = app.plan_split(4, true, &geom(), W, H).unwrap();
    assert_eq!((plan.tab, plan.cols, plan.lines, plan.pid), (0, 13, 24, 14));
    let plan = app.plan_split(1, false, &geom(), W, H).unwrap();
    assert_eq!((plan.cols, plan.lines, plan.pid), (26, 12, 11));
    assert_eq!(app.plan_split(4, true, &geom(), 60, H), None);
    assert_eq!(app.plan_split(4, false, &geom(), W, 39), None);
    assert_eq!(app.plan_split(77, true, &geom(), W, H), None);
    let mut app = app;
    assert_eq!(split_pane(&mut app, 77, true, 1), None);
}

#[test]
fn closing_a_third_leaves_halves() {
    let mut app = three_panes();
    assert_eq!(app.pane_exited(2), Exit::PaneClosed { tab: 0, focus: None });
    let widths: Vec<i32> = app.layout_tab(0, W, H).iter().map(|(_, r)| r.2).collect();
    assert_eq!(widths, [399, 399]);
    assert_eq!(app.pane_exited(4), Exit::PaneClosed { tab: 0, focus: Some(1) });
    assert_eq!(app.tabs[0].active_pane, 1);
    assert_eq!(app.pane_exited(4), Exit::Unknown);
    assert_eq!(app.pane_exited(1), Exit::TabClosed { index: 0 });
    assert!(app.tabs.is_empty());
    assert_eq!(app.active, 0);
}

#[test]
fn closing_the_new_pane_undoes_a_split() {
    let mut app = three_panes();
    let before = format!("{:?}", app.tabs[0].tree);
    let new = split_pane(&mut app, 1, true, 9).unwrap();
    assert_eq!(ids(&app, 0), [1, new, 2, 4]);
    assert_eq!(app.pane_exited(new), Exit::PaneClosed { tab: 0, focus: Some(1) });
    assert_eq!(format!("{:?}", app.tabs[0].tree), before);
}

#[test]
fn a_closed_tab_leaves_its_place_to_the_next() {
    let mut app = App::new();
    for pid in 1..=3 {
        spawn_tab(&mut app, pid);
    }
    assert_eq!(app.pane_exited(3), Exit::TabClosed { index: 2 });
    assert_eq!(app.active, 1);
    assert_eq!(app.pane_exited(1), Exit::TabClosed { index: 0 });
    assert_eq!(app.active, 0);
    assert_eq!(app.tabs[0].active_pane, 2);
}

#[test]
fn a_tab_goes_with_its_shells() {
    for order in [[1, 2, 4], [4, 1, 2], [2, 4, 1]] {
        let mut app = three_panes();
        spawn_tab(&mut app, 9);
        for id in order {
            app.pane_exited(id);
        }
        assert_eq!(app.tabs.len(), 1);
        assert_eq!(ids(&app, 0), [6]);
        assert_eq!(app.active, 0);
    }
}

#[test]
fn hanging_up() {
    let mut app = App::new();
    spawn_tab(&mut app, 5);
    split_pane(&mut app, 1, false, 0);
    split_pane(&mut app, 1, false, 6);
    assert_eq!(close_tab(&app, 0), [5, 6]);
    assert_eq!(app.tab_close_requested(0), [5, 6]);
    assert!(app.tab_close_requested(1).is_empty());
    assert!(app.tab_close_requested(-1).is_empty());
}

#[test]
fn counting_tabs_goes_round() {
    let mut app = App::new();
    for pid in 1..=3 {
        spawn_tab(&mut app, pid);
    }
    assert_eq!(switch_tab(&app, 4), Some(1));
    assert_eq!(app.next_tab(), Some(0));
    assert_eq!(app.prev_tab(), Some(1));
    assert_eq!(app.current_changed(0), Some(1));
    assert_eq!(app.active, 0);
    assert_eq!(app.prev_tab(), Some(2));
    assert_eq!(app.current_changed(3), None);
    assert_eq!(app.current_changed(-1), None);
    assert_eq!(app.active, 0);
}

#[test]
fn a_moved_tab_takes_its_place_and_the_shown_one_stays_shown() {
    for shown in 0..4i32 {
        for from in 0..4i32 {
            for to in 0..4i32 {
                let mut app = App::new();
                for pid in 1..=4 {
                    spawn_tab(&mut app, pid);
                }
                app.current_changed(shown);
                let pane = app.tabs[shown as usize].active_pane;
                let r = app.move_tab(from, to);
                let order = |app: &App| app.tabs.iter().map(|t| t.active_pane).collect::<Vec<_>>();
                if from == to {
                    assert_eq!(r, None);
                    assert_eq!(order(&app), [1, 2, 3, 4]);
                } else {
                    assert_eq!(r, Some(pane));
                    let mut expected = vec![1, 2, 3, 4];
                    let moved = expected.remove(from as usize);
                    expected.insert(to as usize, moved);
                    assert_eq!(order(&app), expected);
                    app.move_tab(to, from);
                    assert_eq!(order(&app), [1, 2, 3, 4]);
                }
                assert_eq!(app.tabs[app.active].active_pane, pane);
                assert_eq!(app.move_tab(4, 0), None);
                assert_eq!(app.move_tab(0, -1), None);
            }
        }
    }
}

#[test]
fn focus_goes_round_the_panes() {
    let mut app = three_panes();
    assert_eq!(cycle_pane(&app, 1), Some(1));
    assert_eq!(cycle_pane(&app, -1), Some(2));
    assert_eq!(cycle_pane(&app, 7), Some(1));
    assert_eq!(cycle_pane(&app, -6), Some(4));
    assert_eq!(app.focus_gained(1), Some(0));
    assert_eq!(cycle_pane(&app, i32::MIN), Some(2));
    spawn_tab(&mut app, 3);
    assert_eq!(cycle_pane(&app, 1), None);
}

#[test]
fn focus_goes_in_a_direction() {
    let mut app = three_panes();
    let below = split_pane(&mut app, 4, false, 1).unwrap();
    assert_eq!(focus_pane_dir(&app, 0, -1, W, H), Some(4));
    assert_eq!(focus_pane_dir(&app, 0, 1, W, H), None);
    assert_eq!(focus_pane_dir(&app, -1, 0, W, H), Some(2));
    app.focus_gained(2);
    // the lower pane's center is a pixel nearer
    assert_eq!(focus_pane_dir(&app, 1, 0, W, H), Some(below));
    app.focus_gained(4);
    assert_eq!(focus_pane_dir(&app, 0, 1, W, H), Some(below));
}

#[test]
fn who_takes_the_focus_back() {
    let mut app = three_panes();
    assert!(app.takes_focus_back(4, false));
    assert!(!app.takes_focus_back(4, true));
    assert!(!app.takes_focus_back(2, false));
    assert!(!app.takes_focus_back(77, false));
    spawn_tab(&mut app, 1);
    assert!(!app.takes_focus_back(4, false));
    assert!(app.focused(4));
    assert_eq!(app.focus_gained(77), None);
}

#[test]
fn labels_follow_the_focused_pane() {
    let mut app = three_panes();
    assert_eq!(app.tab_label(0, "bash"), "bash");
    assert_eq!(app.set_title(4, "vim".to_string()), Some(0));
    assert_eq!(app.tab_label(0, "bash"), "vim");
    assert_eq!(app.set_title(2, "htop".to_string()), None);
    assert_eq!(app.tab_label(0, "bash"), "vim");
    app.focus_gained(2);
    assert_eq!(app.tab_label(0, "bash"), "htop");
    app.focus_gained(1);
    assert_eq!(app.tab_label(0, "bash"), "bash");
    assert_eq!(app.set_title(99, "x".to_string()), None);
}

#[test]
fn dividers_under_the_mouse() {
    let app = three_panes();
    // panes of 266, 265 and 265 pixels with dividers of 2 between them
    assert_eq!(app.divider_at(267, 100, W, H), Some((3, true)));
    assert_eq!(app.divider_at(263, 100, W, H), Some((3, true)));
    assert_eq!(app.divider_at(262, 100, W, H), None);
    assert_eq!(app.divider_at(534, 100, W, H), Some((5, true)));
    assert_eq!(app.divider_at(10, 10, W, H), None);
}

#[test]
fn dragging_a_divider() {
    let mut app = three_panes();
    app.divider_drag(3, 399, 0, W, H);
    let widths: Vec<i32> = app.layout_tab(0, W, H).iter().map(|(_, r)| r.2).collect();
    assert_eq!(widths, [399, 198, 199]);
    app.divider_drag(3, -500, 0, W, H);
    assert_eq!(app.layout_tab(0, W, H)[0].1 .2, 39);
    app.divider_drag(3, i32::MAX, 0, W, H);
    assert_eq!(app.layout_tab(0, W, H)[0].1 .2, 758);
    let before = format!("{app:?}");
    app.divider_drag(77, 5, 5, W, H);
    assert_eq!(format!("{app:?}"), before);
}

fn mouse(kind: MouseKind, button: i32, x: i32, y: i32) -> MouseEvent {
    MouseEvent {
        kind,
        button,
        x,
        y,
        mods: 0,
    }
}

#[test]
fn the_mouse_on_a_divider() {
    let mut app = three_panes();
    let mut drag = None;
    let r = app.divider_mouse(&mut drag, &mouse(MouseKind::Move, 0, 267, 9), W, H);
    assert!(!r.consumed);
    let press = mouse(MouseKind::Press, mouse_button::LEFT, 267, 9);
    let r = app.divider_mouse(&mut drag, &press, W, H);
    assert!(r.consumed && r.moved);
    assert_eq!(r.cursor, Some(cursor::SIZE_HOR));
    assert_eq!(drag, Some(3));
    let r = app.divider_mouse(&mut drag, &mouse(MouseKind::Move, 1, 400, 9), W, H);
    assert!(r.consumed && r.moved);
    assert_eq!(app.layout_tab(0, W, H)[0].1 .2, 400);
    let r = app.divider_mouse(&mut drag, &mouse(MouseKind::Release, 1, 400, 9), W, H);
    assert!(r.consumed && !r.moved);
    assert_eq!((r.cursor, r.focus), (Some(cursor::ARROW), Some(4)));
    assert_eq!(drag, None);
    let away = mouse(MouseKind::Press, mouse_button::LEFT, 5, 5);
    assert!(!app.divider_mouse(&mut drag, &away, W, H).consumed);
    let right = mouse(MouseKind::Press, mouse_button::RIGHT, 401, 5);
    assert!(!app.divider_mouse(&mut drag, &right, W, H).consumed);
}

#[test]
fn commands_of_actions() {
    let mut app = three_panes();
    spawn_tab(&mut app, 21);
    let c = |app: &App, a: Action, id: u64| format!("{:?}", app.command(a, id, W, H));
    let is = |c: Command| format!("{c:?}");
    assert_eq!(c(&app, Action::Copy, 6), is(Command::Copy));
    assert_eq!(c(&app, Action::Paste, 6), is(Command::Paste));
    assert_eq!(c(&app, Action::NewTab, 4), is(Command::NewTab { pid: 14 }));
    assert_eq!(c(&app, Action::CloseTab, 2), is(Command::HangUp(vec![11, 12, 14])));
    assert_eq!(c(&app, Action::CloseWorkspace, 2), is(Command::HangUp(vec![12])));
    assert_eq!(c(&app, Action::CloseWorkspace, 99), is(Command::HangUp(vec![])));
    assert_eq!(c(&app, Action::CloseTab, 99), is(Command::HangUp(vec![])));
    assert_eq!(c(&app, Action::NextTab, 6), is(Command::Show(0)));
    assert_eq!(c(&app, Action::PrevTab, 6), is(Command::Show(0)));
    assert_eq!(c(&app, Action::SplitHorizontal, 6), is(Command::Split { vertical: false }));
    assert_eq!(c(&app, Action::SplitVertical, 6), is(Command::Split { vertical: true }));
    assert_eq!(c(&app, Action::NextPane, 6), is(Command::Nothing));
    app.current_changed(0);
    assert_eq!(c(&app, Action::NextPane, 4), is(Command::Focus(1)));
    assert_eq!(c(&app, Action::PrevPane, 4), is(Command::Focus(2)));
    assert_eq!(c(&app, Action::FocusPaneLeft, 4), is(Command::Focus(2)));
    assert_eq!(c(&app, Action::FocusPaneRight, 4), is(Command::Nothing));
    assert_eq!(c(&app, Action::FocusPaneUp, 4), is(Command::Nothing));
    assert_eq!(c(&app, Action::FocusPaneDown, 4), is(Command::Nothing));
    assert_eq!(format!("{:?}", app.tab_add_requested()), is(Command::NewTab { pid: 14 }));
    assert_eq!(app.pid_of(99), 0);
}

#[test]
fn the_context_menu() {
    let app = three_panes();
    assert!(context_menu(&app, 99).is_none());
    let menu = context_menu(&app, 2).unwrap();
    let keys: Vec<Option<&str>> = menu.iter().map(|e| e.key()).collect();
    assert_eq!(
        keys,
        [
            Some("menu.copy"),
            Some("menu.paste"),
            Some("menu.open_in_file_manager"),
            None,
            Some("menu.split_horizontal"),
            Some("menu.split_vertical"),
            None,
            Some("menu.new_tab"),
            Some("menu.close_workspace"),
        ]
    );
    let c = |e: MenuEntry| format!("{:?}", app.menu_command(e, 2));
    let is = |c: Command| format!("{c:?}");
    assert_eq!(c(MenuEntry::Copy), is(Command::Copy));
    assert_eq!(c(MenuEntry::Paste), is(Command::Paste));
    assert_eq!(c(MenuEntry::OpenInFileManager), is(Command::OpenDir { pid: 12 }));
    assert_eq!(c(MenuEntry::Separator), is(Command::Nothing));
    assert_eq!(c(MenuEntry::SplitHorizontal), is(Command::Split { vertical: false }));
    assert_eq!(c(MenuEntry::SplitVertical), is(Command::Split { vertical: true }));
    assert_eq!(c(MenuEntry::NewTab), is(Command::NewTab { pid: 14 }));
    assert_eq!(c(MenuEntry::CloseWorkspace), is(Command::HangUp(vec![12])));
}

#[test]
fn what_readers_say() {
    let mut app = three_panes();
    let mut slot = TitleSlot::new();
    assert_eq!(app.poked(99, &b"x".to_vec(), &mut slot), Poke::Ignored);
    assert_eq!(
        app.poked(2, &b"x".to_vec(), &mut slot),
        Poke::Output { repaint: true, start_timer: false }
    );
    slot.offer("top".to_string());
    assert_eq!(
        app.poked(4, &b"xx".to_vec(), &mut slot),
        Poke::Output { repaint: true, start_timer: true }
    );
    assert_eq!(app.title_due(4, &mut slot), Some(0));
    assert_eq!(app.tab_label(0, "sh"), "top");
    assert_eq!(app.title_due(4, &mut slot), None);
    spawn_tab(&mut app, 1);
    assert_eq!(
        app.poked(2, &b"x".to_vec(), &mut slot),
        Poke::Output { repaint: false, start_timer: false }
    );
    assert_eq!(
        app.poked(4, &b"xq".to_vec(), &mut slot),
        Poke::Gone(Exit::PaneClosed { tab: 0, focus: Some(2) })
    );
    assert_eq!(app.poked(4, &b"q".to_vec(), &mut slot), Poke::Ignored);
}

// ---- keys and the mouse in a pane ----

fn kev(k: i32, mods: i32, text: &str, press: bool) -> KeyEvent {
    KeyEvent {
        key: k,
        mods,
        text: text.into(),
        press,
        autorepeat: false,
    }
}

#[test]
fn keys_in_a_pane() {
    let cfg = Config::default();
    let app_cursor = 1 << 1;
    let both = modifier::CONTROL | modifier::SHIFT;
    assert!(matches!(
        on_key(&cfg, &kev(key::CONTROL, 0, "", true), 0),
        KeyOutcome::Hover { ctrl: true }
    ));
    assert!(matches!(
        on_key(&cfg, &kev(key::CONTROL, 0, "", false), 0),
        KeyOutcome::Hover { ctrl: false }
    ));
    assert!(matches!(on_key(&cfg, &kev('a' as i32, 0, "a", false), 0), KeyOutcome::Nothing));
    assert!(matches!(
        on_key(&cfg, &kev('T' as i32, both, "T", true), 0),
        KeyOutcome::Act(Action::NewTab)
    ));
    match on_key(&cfg, &kev(key::UP, 0, "", true), app_cursor) {
        KeyOutcome::Type { clear_selection, bytes } => {
            assert!(!clear_selection);
            assert_eq!(bytes, Some(b"\x1bOA".to_vec()));
        }
        other => panic!("{other:?}"),
    }
    match on_key(&cfg, &kev(key::ESCAPE, 0, "", true), 0) {
        KeyOutcome::Type { clear_selection, bytes } => {
            assert!(clear_selection);
            assert_eq!(bytes, Some(vec![0x1b]));
        }
        other => panic!("{other:?}"),
    }
    match on_key(&cfg, &kev(0x0100_0020, 0, "", true), 0) {
        KeyOutcome::Type { clear_selection, bytes } => {
            assert!(!clear_selection);
            assert_eq!(bytes, None);
        }
        other => panic!("{other:?}"),
    }
}

fn ctx(now_ms: u64) -> PaneCtx {
    PaneCtx {
        geom: geom(),
        screen: Screen::new(26, 24, 2, 50).unwrap(),
        mode_bits: 0,
        origin: (268, 0),
        width: W,
        height: H,
        now: now_ms * 1_000_000,
    }
}

fn link_snap() -> GridSnap {
    let cells = "at http://a.b ok"
        .chars()
        .enumerate()
        .map(|(i, c)| GridCell {
            line: -2,
            col: i as u32,
            c,
            fg: Color::Named(NamedColor::Foreground),
            bg: Color::Named(NamedColor::Background),
            flags: 0,
            underline: None,
        })
        .collect();
    snapshot_grid(&GridView {
        cells,
        cursor_line: 0,
        cursor_col: 0,
        offset: 2,
        sel: None,
    })
}

fn is(o: MouseOutcome) -> String {
    format!("{o:?}")
}

#[test]
fn clicks_select_by_characters_words_and_lines() {
    let mut app = three_panes();
    let mut p = PaneInput::new();
    let s = link_snap();
    let press = mouse(MouseKind::Press, mouse_button::LEFT, 154, 65);
    let double = mouse(MouseKind::DoubleClick, mouse_button::LEFT, 154, 65);
    let select = |kind, side, focus| {
        is(MouseOutcome::Select {
            kind,
            line: 1,
            col: 15,
            side,
            focus,
        })
    };
    let mut at = |ms: u64, m: &MouseEvent| is(p.on_mouse(&mut app, &ctx(ms), &s, m));
    assert_eq!(at(0, &press), select(SelectKind::Simple, Side::Left, true));
    assert_eq!(at(100, &double), select(SelectKind::Semantic, Side::Left, false));
    assert_eq!(at(200, &press), select(SelectKind::Lines, Side::Left, true));
    assert_eq!(at(300, &double), select(SelectKind::Semantic, Side::Left, false));
    assert_eq!(at(800, &press), select(SelectKind::Simple, Side::Left, true));
    let extend = is(MouseOutcome::Extend {
        line: -2,
        col: 1,
        side: Side::Right,
    });
    assert_eq!(at(900, &mouse(MouseKind::Move, 1, 17, 0)), extend);
    let release = mouse(MouseKind::Release, mouse_button::LEFT, 17, 0);
    assert_eq!(at(950, &release), is(MouseOutcome::EndSelect));
    assert!(!p.selecting);
}

#[test]
fn the_program_gets_the_mouse_first() {
    let mut app = three_panes();
    let mut p = PaneInput::new();
    let mut c = ctx(0);
    c.mode_bits = 1 << 3 | 1 << 5;
    let press = mouse(MouseKind::Press, mouse_button::RIGHT, 0, 0);
    assert_eq!(
        is(p.on_mouse(&mut app, &c, &link_snap(), &press)),
        is(MouseOutcome::Report(b"\x1b[<2;1;1M".to_vec()))
    );
    assert_eq!(
        is(p.on_mouse(&mut app, &ctx(0), &link_snap(), &press)),
        is(MouseOutcome::Menu)
    );
}

#[test]
fn links_open_with_ctrl() {
    let mut app = three_panes();
    let mut p = PaneInput::new();
    let mut press = mouse(MouseKind::Press, mouse_button::LEFT, 55, 5);
    press.mods = modifier::CONTROL;
    assert_eq!(
        is(p.on_mouse(&mut app, &ctx(0), &link_snap(), &press)),
        is(MouseOutcome::Open { url: "http://a.b".to_string() })
    );
    assert!(!p.selecting);
    let hover = mouse(MouseKind::Move, 0, 55, 5);
    assert_eq!(
        is(p.on_mouse(&mut app, &ctx(0), &link_snap(), &hover)),
        is(MouseOutcome::Point { cursor: None, repaint: true })
    );
    assert_eq!(p.hover, Some((0, 5)));
    // pressing Ctrl over the link shows that it can be clicked
    let (x, y) = p.mouse;
    assert_eq!(
        is(p.update_hover(&ctx(0), &link_snap(), x, y, true)),
        is(MouseOutcome::Point {
            cursor: Some(cursor::POINTING_HAND),
            repaint: false
        })
    );
    assert_eq!(
        is(p.update_hover(&ctx(0), &link_snap(), x, y, false)),
        is(MouseOutcome::Point {
            cursor: Some(cursor::IBEAM),
            repaint: false
        })
    );
}

#[test]
fn dividers_are_dragged_from_the_pane_beside_them() {
    let mut app = three_panes();
    let mut p = PaneInput::new();
    let s = link_snap();
    // the pane begins right of the divider, which is at 266 and 267
    let hover = mouse(MouseKind::Move, 0, 1, 5);
    assert_eq!(
        is(p.on_mouse(&mut app, &ctx(0), &s, &hover)),
        is(MouseOutcome::Point {
            cursor: Some(cursor::SIZE_HOR),
            repaint: false
        })
    );
    let press = mouse(MouseKind::Press, mouse_button::LEFT, 1, 5);
    assert_eq!(
        is(p.on_mouse(&mut app, &ctx(0), &s, &press)),
        is(MouseOutcome::Grab { shape: cursor::SIZE_HOR })
    );
    assert_eq!(p.drag, Some(3));
    let pull = mouse(MouseKind::Move, mouse_button::LEFT, 132, 5);
    assert_eq!(is(p.on_mouse(&mut app, &ctx(0), &s, &pull)), is(MouseOutcome::Drag));
    assert_eq!(app.layout_tab(0, W, H)[0].1 .2, 400);
    let release = mouse(MouseKind::Release, mouse_button::LEFT, 132, 5);
    assert_eq!(is(p.on_mouse(&mut app, &ctx(0), &s, &release)), is(MouseOutcome::Nothing));
    assert_eq!(p.drag, None);
    assert!(matches!(app.tabs[0].tree, Node::Split { .. }));
}

#[test]
fn a_long_session_stays_in_order() {
    let mut app = App::new();
    let mut seed = 12345u64;
    let mut next = |n: usize| {
        seed = seed.wrapping_mul(6364136223846793005).wrapping_add(1442695040888963407);
        (seed >> 33) as usize % n
    };
    for step in 0..3000 {
        let panes: Vec<u64> = app.tabs.iter().flat_map(|t| t.panes.iter().map(|p| p.id)).collect();
        if panes.is_empty() || next(12) == 0 {
            let id = spawn_tab(&mut app, step);
            assert!(!panes.contains(&id));
        } else {
            let id = panes[next(panes.len())];
            match next(6) {
                0 | 1 => {
                    let new = split_pane(&mut app, id, next(2) == 0, step).unwrap();
                    assert!(!panes.contains(&new));
                }
                2 | 3 => assert_ne!(app.pane_exited(id), Exit::Unknown),
                4 => assert!(app.focus_gained(id).is_some()),
                _ => {
                    let n = app.tabs.len();
                    app.move_tab(next(n) as i32, next(n) as i32);
                    app.current_changed(next(n) as i32);
                }
            }
        }
        assert!(app.layout_fits(W, H));
        let mut seen = Vec::new();
        for (i, t) in app.tabs.iter().enumerate() {
            let mut tree = ids(&app, i);
            let mut list: Vec<u64> = t.panes.iter().map(|p| p.id).collect();
            tree.sort_unstable();
            list.sort_unstable();
            assert_eq!(tree, list);
            assert!(list.contains(&t.active_pane));
            seen.extend(list);
        }
        seen.sort_unstable();
        let n = seen.len();
        seen.dedup();
        assert_eq!(seen.len(), n);
        assert!(app.tabs.is_empty() || app.active < app.tabs.len());
    }
}
