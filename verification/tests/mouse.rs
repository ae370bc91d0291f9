use deptty::mouse::{
    cell_under, mouse_mods, mouse_point, mouse_report, try_report_mouse, wheel, MouseEvent,
    MouseKind, Screen, Side, WheelOutcome,
};
use deptty::qt::{modifier, mouse_button};
use deptty::GridGeom;

const CLICK: u32 = 1 << 3;
const SGR: u32 = 1 << 5;
const MOTION: u32 = 1 << 6;
const DRAG: u32 = 1 << 13;

fn geom() -> GridGeom {
    GridGeom::new(10, 20, 15).unwrap()
}

fn screen() -> Screen {
    Screen::new(80, 24, 3, 100).unwrap()
}

fn event(kind: MouseKind, button: i32, x: i32, y: i32, mods: i32) -> MouseEvent {
    MouseEvent {
        kind,
        button,
        x,
        y,
        mods,
    }
}

#[test]
fn cells_under_the_mouse() {
    assert_eq!(cell_under(0, 0, &geom(), &screen()), (0, 0));
    assert_eq!(cell_under(25, 45, &geom(), &screen()), (2, 2));
    assert_eq!(cell_under(-7, -1, &geom(), &screen()), (0, 0));
    assert_eq!(cell_under(9999, 9999, &geom(), &screen()), (23, 79));
}

#[test]
fn selection_anchors() {
    assert_eq!(mouse_point(24, 45, &geom(), &screen()), (-1, 2, Side::Left));
    assert_eq!(mouse_point(25, 0, &geom(), &screen()), (-3, 2, Side::Right));
    assert_eq!(mouse_point(-5, 0, &geom(), &screen()), (-3, 0, Side::Left));
}

#[test]
fn impossible_sizes() {
    assert!(GridGeom::new(0, 20, 1).is_none());
    assert!(GridGeom::new(10, -1, 1).is_none());
    assert!(Screen::new(0, 24, 0, 0).is_none());
    assert!(Screen::new(80, 0, 0, 0).is_none());
    assert!(Screen::new(80, 24, 2, 1).is_none());
    assert!(Screen::new(80, 24, -1, 1).is_none());
}

#[test]
fn report_modifiers() {
    assert_eq!(mouse_mods(0), 0);
    assert_eq!(mouse_mods(modifier::SHIFT), 4);
    assert_eq!(mouse_mods(modifier::ALT), 8);
    assert_eq!(mouse_mods(modifier::CONTROL), 16);
    assert_eq!(mouse_mods(modifier::CONTROL | modifier::SHIFT | modifier::ALT), 28);
}

#[test]
fn report_forms() {
    assert_eq!(mouse_report(true, 0, 4, 9, true), b"\x1b[<0;5;10M");
    assert_eq!(mouse_report(true, 18, 199, 0, false), b"\x1b[<18;200;1m");
    assert_eq!(mouse_report(true, -3, 0, -5, true), b"\x1b[<-3;1;-4M");
    assert_eq!(mouse_report(false, 0, 4, 9, true), [27, 91, 77, 32, 37, 42]);
    // a release has no button; far columns are clipped
    assert_eq!(mouse_report(false, 2, 4, 9, false), [27, 91, 77, 35, 37, 42]);
    assert_eq!(mouse_report(false, 1, 500, 222, true), [27, 91, 77, 33, 255, 255]);
}

#[test]
fn clicks_are_reported_when_asked_for() {
    let press = event(MouseKind::Press, mouse_button::LEFT, 25, 45, 0);
    assert_eq!(try_report_mouse(0, &press, &geom(), &screen()), None);
    assert_eq!(try_report_mouse(SGR, &press, &geom(), &screen()), None);
    assert_eq!(
        try_report_mouse(CLICK | SGR, &press, &geom(), &screen()),
        Some(b"\x1b[<0;3;3M".to_vec())
    );
    let double = event(MouseKind::DoubleClick, mouse_button::MIDDLE, 0, 0, modifier::ALT);
    assert_eq!(
        try_report_mouse(CLICK | SGR, &double, &geom(), &screen()),
        Some(b"\x1b[<9;1;1M".to_vec())
    );
    let release = event(MouseKind::Release, mouse_button::RIGHT, 0, 0, 0);
    assert_eq!(
        try_report_mouse(CLICK, &release, &geom(), &screen()),
        Some(vec![27, 91, 77, 35, 33, 33])
    );
    let other = event(MouseKind::Other, 0, 0, 0, 0);
    assert_eq!(try_report_mouse(CLICK | MOTION, &other, &geom(), &screen()), None);
}

#[test]
fn movement_is_reported_when_asked_for() {
    let free = event(MouseKind::Move, mouse_button::NONE, 0, 0, 0);
    let held = event(MouseKind::Move, mouse_button::LEFT, 0, 0, 0);
    assert_eq!(try_report_mouse(CLICK | SGR, &held, &geom(), &screen()), None);
    assert_eq!(try_report_mouse(DRAG | SGR, &free, &geom(), &screen()), None);
    assert_eq!(
        try_report_mouse(DRAG | SGR, &held, &geom(), &screen()),
        Some(b"\x1b[<32;1;1M".to_vec())
    );
    assert_eq!(
        try_report_mouse(MOTION | SGR, &free, &geom(), &screen()),
        Some(b"\x1b[<35;1;1M".to_vec())
    );
}

#[test]
fn the_wheel() {
    let turn = |bits: u32, dy: i32| wheel(bits, dy, 25, 45, 0, &geom(), &screen());
    assert!(matches!(turn(0, 120), WheelOutcome::Scroll(3)));
    assert!(matches!(turn(0, -240), WheelOutcome::Scroll(-6)));
    assert!(matches!(turn(0, 39), WheelOutcome::Nothing));
    assert!(matches!(turn(0, -39), WheelOutcome::Nothing));
    assert!(matches!(turn(0, -40), WheelOutcome::Scroll(-1)));
    match turn(CLICK | SGR, 240) {
        WheelOutcome::Report(v) => assert_eq!(v, b"\x1b[<64;3;3M\x1b[<64;3;3M"),
        other => panic!("{other:?}"),
    }
    match turn(CLICK | SGR, -1) {
        WheelOutcome::Report(v) => assert_eq!(v, b"\x1b[<65;3;3M"),
        other => panic!("{other:?}"),
    }
    match wheel(CLICK, i32::MIN / 1000, 0, 0, modifier::SHIFT, &geom(), &screen()) {
        WheelOutcome::Report(v) => {
            assert_eq!(v.len(), 6 * 17_895);
            assert_eq!(v[3], 32 + 69);
        }
        other => panic!("{other:?}"),
    }
}
