use deptty::keys::{key_bytes, KeyEvent};
use deptty::qt::{key, modifier};

fn kev(k: i32, mods: i32, text: &str) -> KeyEvent {
    KeyEvent {
        key: k,
        mods,
        text: text.into(),
        press: true,
        autorepeat: false,
    }
}

fn modifiers() {
    assert_eq!(
        key_bytes(&kev(key::LEFT, 0, ""), false),
        Some(b"\x1b[D".to_vec())
    );
    assert_eq!(
        key_bytes(&kev(key::LEFT, modifier::ALT, ""), false),
        Some(b"\x1b[1;3D".to_vec())
    );
    assert_eq!(
        key_bytes(&kev(key::RIGHT, modifier::ALT | modifier::SHIFT, ""), false),
        Some(b"\x1b[1;4C".to_vec())
    );
    assert_eq!(
        key_bytes(&kev(key::BACKSPACE, 0, ""), false),
        Some(b"\x7f".to_vec())
    );
    assert_eq!(
        key_bytes(&kev(key::BACKSPACE, modifier::ALT, ""), false),
        Some(b"\x1b\x7f".to_vec())
    );
    assert_eq!(
        key_bytes(&kev(i32::from(b'L'), modifier::CONTROL, "\x0c"), false),
        Some(vec![0x0c])
    );
    assert_eq!(
        key_bytes(&kev(i32::from(b'F'), modifier::ALT, "f"), false),
        Some(b"\x1bf".to_vec())
    );
}

#[test]
fn lib_modifiers() {
    modifiers();
}

#[test]
fn main_modifiers() {
    modifiers();
}

fn app_cursor_keys() {
    assert_eq!(
        key_bytes(&kev(key::UP, 0, ""), true),
        Some(b"\x1bOA".to_vec())
    );
    assert_eq!(
        key_bytes(&kev(key::DOWN, 0, ""), true),
        Some(b"\x1bOB".to_vec())
    );
    assert_eq!(
        key_bytes(&kev(key::UP, 0, ""), false),
        Some(b"\x1b[A".to_vec())
    );
    assert_eq!(
        key_bytes(&kev(key::UP, modifier::SHIFT, ""), true),
        Some(b"\x1b[1;2A".to_vec())
    );
}

#[test]
fn lib_app_cursor_keys() {
    app_cursor_keys();
}

#[test]
fn main_app_cursor_keys() {
    app_cursor_keys();
}

fn shift_tab_is_csi_z() {
    assert_eq!(
        key_bytes(&kev(key::BACKTAB, modifier::SHIFT, ""), false),
        Some(b"\x1b[Z".to_vec())
    );
}

#[test]
fn lib_shift_tab_is_csi_z() {
    shift_tab_is_csi_z();
}

#[test]
fn main_shift_tab_is_csi_z() {
    shift_tab_is_csi_z();
}

#[test]
fn named_keys() {
    let plain = |k: i32| key_bytes(&kev(k, 0, ""), false).unwrap();
    assert_eq!(plain(key::RETURN), b"\r");
    assert_eq!(plain(key::ENTER), b"\r");
    assert_eq!(plain(key::TAB), b"\t");
    assert_eq!(plain(key::ESCAPE), b"\x1b");
    assert_eq!(plain(key::UP), b"\x1b[A");
    assert_eq!(plain(key::DOWN), b"\x1b[B");
    assert_eq!(plain(key::RIGHT), b"\x1b[C");
    assert_eq!(plain(key::HOME), b"\x1b[H");
    assert_eq!(plain(key::END), b"\x1b[F");
    assert_eq!(plain(key::INSERT), b"\x1b[2~");
    assert_eq!(plain(key::DELETE), b"\x1b[3~");
    assert_eq!(plain(key::PAGE_UP), b"\x1b[5~");
    assert_eq!(plain(key::PAGE_DOWN), b"\x1b[6~");
    assert_eq!(key_bytes(&kev(key::CONTROL, 0, ""), false), None);
}

#[test]
fn modified_editing_keys() {
    let all = modifier::CONTROL | modifier::SHIFT | modifier::ALT;
    assert_eq!(
        key_bytes(&kev(key::DELETE, modifier::CONTROL, ""), false),
        Some(b"\x1b[3;5~".to_vec())
    );
    assert_eq!(
        key_bytes(&kev(key::PAGE_UP, all, ""), true),
        Some(b"\x1b[5;8~".to_vec())
    );
    assert_eq!(
        key_bytes(&kev(key::HOME, 0, ""), true),
        Some(b"\x1bOH".to_vec())
    );
    assert_eq!(
        key_bytes(&kev(key::END, 0, ""), true),
        Some(b"\x1bOF".to_vec())
    );
    assert_eq!(
        key_bytes(&kev(key::BACKSPACE, modifier::CONTROL, ""), false),
        Some(vec![8])
    );
}

#[test]
fn typed_text() {
    assert_eq!(key_bytes(&kev(0, 0, "é"), false), Some(vec![0xc3, 0xa9]));
    assert_eq!(
        key_bytes(&kev(0, modifier::ALT, "é"), false),
        Some(vec![0x1b, 0xc3, 0xa9])
    );
    assert_eq!(
        key_bytes(&kev(0, modifier::SHIFT, "Q"), false),
        Some(b"Q".to_vec())
    );
}

#[test]
fn control_keys() {
    let c = modifier::CONTROL;
    assert_eq!(key_bytes(&kev('A' as i32, c, "a"), false), Some(vec![1]));
    assert_eq!(key_bytes(&kev('Z' as i32, c, "Z"), false), Some(vec![26]));
    assert_eq!(
        key_bytes(&kev('A' as i32, c | modifier::ALT, "\x01"), false),
        Some(vec![0x1b, 1])
    );
    // other text with Ctrl leaves the decision to the key
    assert_eq!(key_bytes(&kev('1' as i32, c, "1"), false), None);
    assert_eq!(key_bytes(&kev(key::UP, c, "é"), false), Some(b"\x1b[1;5A".to_vec()));
}
