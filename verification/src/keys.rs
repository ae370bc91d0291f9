//! Key presses as the bytes that a terminal sends for them.
use vstd::prelude::*;
use crate::qt::key;
use crate::qt::modifier;
use crate::text::push_decimal;

verus! {

/// A key event.
#[derive(Debug)]
pub struct KeyEvent {
    /// The key's code.
    pub key: i32,
    /// Modifier bits.
    pub mods: i32,
    /// What the key types.
    pub text: String,
    /// Whether the key went down.
    pub press: bool,
    /// Whether holding the key down made the event.
    pub autorepeat: bool,
}

// ---- modifiers ----

pub open spec fn has_shift(mods: i32) -> bool {
    mods & modifier::SHIFT != 0
}

pub open spec fn has_alt(mods: i32) -> bool {
    mods & modifier::ALT != 0
}

pub open spec fn has_ctrl(mods: i32) -> bool {
    mods & modifier::CONTROL != 0
}

/// xterm's number for a set of modifiers: 1 plus 1 for Shift, 2 for Alt and 4
/// for Ctrl.
pub open spec fn xterm_modifiers(mods: i32) -> int {
    1 + (if has_shift(mods) {
        1int
    } else {
        0
    }) + (if has_alt(mods) {
        2int
    } else {
        0
    }) + (if has_ctrl(mods) {
        4int
    } else {
        0
    })
}

// ---- escape sequences ----

pub const ESC: u8 = 0x1b;

/// `ESC [`, the number `n`, `;`, the number `m` and a final byte.
pub open spec fn csi2(n: int, m: int, last: u8) -> Seq<u8> {
    seq![ESC, 91u8] + crate::text::decimal_bytes(n) + seq![59u8] + crate::text::decimal_bytes(m)
        + seq![last]
}

/// The final byte of a cursor key's sequence.
pub open spec fn cursor_final(k: i32) -> Option<u8> {
    if k == key::UP {
        Some(65u8)
    } else if k == key::DOWN {
        Some(66u8)
    } else if k == key::RIGHT {
        Some(67u8)
    } else if k == key::LEFT {
        Some(68u8)
    } else if k == key::HOME {
        Some(72u8)
    } else if k == key::END {
        Some(70u8)
    } else {
        None
    }
}

/// The number in an editing key's sequence.
pub open spec fn editing_number(k: i32) -> Option<int> {
    if k == key::INSERT {
        Some(2int)
    } else if k == key::DELETE {
        Some(3int)
    } else if k == key::PAGE_UP {
        Some(5int)
    } else if k == key::PAGE_DOWN {
        Some(6int)
    } else {
        None
    }
}

/// What a cursor key sends: with modifiers `CSI 1;m` and its final byte, else
/// `SS3` or `CSI` and its final byte, as application cursor mode is on or off.
pub open spec fn cursor_sequence(mods: i32, last: u8, app_cursor: bool) -> Seq<u8> {
    if xterm_modifiers(mods) != 1 {
        csi2(1, xterm_modifiers(mods), last)
    } else if app_cursor {
        seq![ESC, 79u8, last]
    } else {
        seq![ESC, 91u8, last]
    }
}

/// What an editing key sends: `CSI n ~`, or `CSI n;m ~` with modifiers.
pub open spec fn editing_sequence(mods: i32, n: int) -> Seq<u8> {
    if xterm_modifiers(mods) != 1 {
        csi2(n, xterm_modifiers(mods), 126)
    } else {
        seq![ESC, 91u8] + crate::text::decimal_bytes(n) + seq![126u8]
    }
}

/// What a key that types nothing sends.
pub open spec fn named_sequence(k: i32, mods: i32, app_cursor: bool) -> Option<Seq<u8>> {
    if cursor_final(k) is Some {
        Some(cursor_sequence(mods, cursor_final(k)->Some_0, app_cursor))
    } else if editing_number(k) is Some {
        Some(editing_sequence(mods, editing_number(k)->Some_0))
    } else if k == key::RETURN || k == key::ENTER {
        Some(seq![13u8])
    } else if k == key::BACKSPACE {
        Some(
            if has_ctrl(mods) {
                seq![8u8]
            } else if has_alt(mods) {
                seq![ESC, 127u8]
            } else {
                seq![127u8]
            },
        )
    } else if k == key::TAB {
        Some(seq![9u8])
    } else if k == key::ESCAPE {
        Some(seq![ESC])
    } else if k == key::BACKTAB {
        Some(seq![ESC, 91u8, 90u8])
    } else {
        None
    }
}

/// ASCII letters.
pub open spec fn is_letter(b: u8) -> bool {
    65 <= b <= 90 || 97 <= b <= 122
}

/// The control byte of a letter: 1 for A up to 26 for Z.
pub open spec fn control_byte(b: u8) -> u8 {
    if b <= 90 {
        (b - 64) as u8
    } else {
        (b - 96) as u8
    }
}

/// What the shell receives for a key that types `t` (as UTF-8), if anything:
/// without Ctrl the text itself, after `ESC` where Alt is down; with Ctrl the
/// control byte that the text begins with, or that of the letter it begins
/// with; in every other case what the key itself stands for.
pub open spec fn sequence(k: i32, mods: i32, t: Seq<u8>, app_cursor: bool) -> Option<Seq<u8>> {
    if has_ctrl(mods) && t.len() > 0 && t[0] < 32 {
        Some(
            if has_alt(mods) {
                seq![ESC, t[0]]
            } else {
                seq![t[0]]
            },
        )
    } else if has_ctrl(mods) && t.len() > 0 && is_letter(t[0]) {
        Some(seq![control_byte(t[0])])
    } else if !has_ctrl(mods) && t.len() > 0 {
        Some(
            if has_alt(mods) {
                seq![ESC] + t
            } else {
                t
            },
        )
    } else {
        named_sequence(k, mods, app_cursor)
    }
}

fn modifier_number(mods: i32) -> (m: i64)
    ensures
        m == xterm_modifiers(mods),
        1 <= m <= 8,
{
    let mut m: i64 = 1;
    if mods & modifier::SHIFT != 0 {
        m += 1;
    }
    if mods & modifier::ALT != 0 {
        m += 2;
    }
    if mods & modifier::CONTROL != 0 {
        m += 4;
    }
    m
}

fn csi2_bytes(n: i64, m: i64, last: u8) -> (v: Vec<u8>)
    requires
        n > i64::MIN,
        m > i64::MIN,
    ensures
        v@ == csi2(n as int, m as int, last),
{
    let mut v: Vec<u8> = vec![ESC, 91u8];
    push_decimal(&mut v, n);
    v.push(59);
    push_decimal(&mut v, m);
    v.push(last);
    assert(v@ =~= csi2(n as int, m as int, last));
    v
}

fn cursor_final_of(k: i32) -> (r: Option<u8>)
    ensures
        r == cursor_final(k),
{
    if k == key::UP {
        Some(65)
    } else if k == key::DOWN {
        Some(66)
    } else if k == key::RIGHT {
        Some(67)
    } else if k == key::LEFT {
        Some(68)
    } else if k == key::HOME {
        Some(72)
    } else if k == key::END {
        Some(70)
    } else {
        None
    }
}

fn editing_number_of(k: i32) -> (r: Option<i64>)
    ensures
        r is Some == editing_number(k) is Some,
        r is Some ==> r->Some_0 == editing_number(k)->Some_0 && 0 <= r->Some_0 < 10,
{
    if k == key::INSERT {
        Some(2)
    } else if k == key::DELETE {
        Some(3)
    } else if k == key::PAGE_UP {
        Some(5)
    } else if k == key::PAGE_DOWN {
        Some(6)
    } else {
        None
    }
}

fn named_bytes(k: i32, mods: i32, app_cursor: bool) -> (r: Option<Vec<u8>>)
    ensures
        r is Some == named_sequence(k, mods, app_cursor) is Some,
        r is Some ==> r->Some_0@ == named_sequence(k, mods, app_cursor)->Some_0,
{
    let m: i64 = modifier_number(mods);
    if let Some(last) = cursor_final_of(k) {
        if m != 1 {
            return Some(csi2_bytes(1, m, last));
        }
        let second: u8 = if app_cursor {
            79
        } else {
            91
        };
        return Some(vec![ESC, second, last]);
    }
    if let Some(n) = editing_number_of(k) {
        if m != 1 {
            return Some(csi2_bytes(n, m, 126));
        }
        let mut v: Vec<u8> = vec![ESC, 91u8];
        push_decimal(&mut v, n);
        v.push(126);
        assert(v@ =~= editing_sequence(mods, n as int));
        return Some(v);
    }
    if k == key::RETURN || k == key::ENTER {
        Some(vec![13u8])
    } else if k == key::BACKSPACE {
        if mods & modifier::CONTROL != 0 {
            Some(vec![8u8])
        } else if mods & modifier::ALT != 0 {
            Some(vec![ESC, 127u8])
        } else {
            Some(vec![127u8])
        }
    } else if k == key::TAB {
        Some(vec![9u8])
    } else if k == key::ESCAPE {
        Some(vec![ESC])
    } else if k == key::BACKTAB {
        Some(vec![ESC, 91u8, 90u8])
    } else {
        None
    }
}

/// The bytes that a key event sends to the shell, if it sends any.
pub fn key_bytes(k: &KeyEvent, app_cursor: bool) -> (r: Option<Vec<u8>>)
    ensures
        ({
            let s = sequence(k.key, k.mods, vstd::utf8::encode_utf8(k.text@), app_cursor);
            r is Some == s is Some && (r is Some ==> r->Some_0@ == s->Some_0)
        }),
{
    let t: &[u8] = k.text.as_str().as_bytes();
    let ctrl: bool = k.mods & modifier::CONTROL != 0;
    let alt: bool = k.mods & modifier::ALT != 0;
    if t.len() > 0 {
        let b: u8 = t[0];
        if ctrl {
            if b < 32 {
                return Some(
                    if alt {
                        vec![ESC, b]
                    } else {
                        vec![b]
                    },
                );
            }
            if 65 <= b && b <= 90 {
                return Some(vec![b - 64]);
            }
            if 97 <= b && b <= 122 {
                return Some(vec![b - 96]);
            }
        } else {
            let mut v: Vec<u8> = Vec::new();
            if alt {
                v.push(ESC);
            }
            v.extend_from_slice(t);
            return Some(v);
        }
    }
    named_bytes(k.key, k.mods, app_cursor)
}

// ---- laws ----

/// What a key sends is never empty.
pub proof fn law_something_is_sent(k: i32, mods: i32, t: Seq<u8>, app_cursor: bool)
    ensures
        sequence(k, mods, t, app_cursor) is Some ==> sequence(
            k,
            mods,
            t,
            app_cursor,
        )->Some_0.len() > 0,
{
}

/// Typed text reaches the shell as it is, and with Alt held after an `ESC`.
pub proof fn law_text_goes_through(k: i32, mods: i32, t: Seq<u8>, app_cursor: bool)
    requires
        !has_ctrl(mods),
        t.len() > 0,
    ensures
        !has_alt(mods) ==> sequence(k, mods, t, app_cursor) == Some(t),
        has_alt(mods) ==> sequence(k, mods, t, app_cursor) == Some(seq![ESC] + t),
{
}

/// Application cursor mode changes what the cursor keys send without modifiers,
/// and nothing else.
pub proof fn law_application_mode(k: i32, mods: i32, t: Seq<u8>)
    ensures
        sequence(k, mods, t, true) != sequence(k, mods, t, false) <==> t.len() == 0 && cursor_final(
            k,
        ) is Some && xterm_modifiers(mods) == 1,
{
    if t.len() == 0 && cursor_final(k) is Some && xterm_modifiers(mods) == 1 {
        assert(sequence(k, mods, t, true)->Some_0[1] == 79);
        assert(sequence(k, mods, t, false)->Some_0[1] == 91);
    }
}

/// Shift+Tab sends `CSI Z`, whatever the modifiers and the mode.
pub proof fn law_backtab(mods: i32, app_cursor: bool)
    ensures
        sequence(key::BACKTAB, mods, seq![], app_cursor) == Some(seq![ESC, 91u8, 90u8]),
{
}

} // verus!
