//! What keys send, whatever the modifiers, the text and the mode.
use vstd::prelude::*;

verus! {

/// Shift, Alt and Ctrl as xterm counts them: 1 plus 1, 2 and 4.
pub open spec fn modifier_count(shift: bool, alt: bool, ctrl: bool) -> int {
    1 + shift as int + 2 * (alt as int) + 4 * (ctrl as int)
}

/// Ctrl with the letter number `n` of the alphabet sends the byte `n`, whether
/// the event's text is that control byte, the capital or the small letter; with
/// Alt and the control byte as text, `ESC` and the byte. The key's code, the
/// mode and further text do not matter.
pub proof fn law_ctrl_letters(n: u8, k: i32, mods: i32, more: Seq<u8>, app_cursor: bool)
    requires
        1 <= n <= 26,
        mods & 0x0400_0000 != 0,
    ensures
        mods & 0x0800_0000 == 0 ==> crate::keys::sequence(k, mods, seq![n] + more, app_cursor)
            == Some(seq![n]),
        mods & 0x0800_0000 != 0 ==> crate::keys::sequence(k, mods, seq![n] + more, app_cursor)
            == Some(seq![27u8, n]),
        crate::keys::sequence(k, mods, seq![(n + 64) as u8] + more, app_cursor) == Some(seq![n]),
        crate::keys::sequence(k, mods, seq![(n + 96) as u8] + more, app_cursor) == Some(seq![n]),
{
    assert((seq![n] + more)[0] == n);
    assert((seq![(n + 64) as u8] + more)[0] == n + 64);
    assert((seq![(n + 96) as u8] + more)[0] == n + 96);
}

/// Ctrl with any control byte as text sends that byte, after `ESC` with Alt.
pub proof fn law_control_bytes(b: u8, k: i32, mods: i32, more: Seq<u8>, app_cursor: bool)
    requires
        b < 32,
        mods & 0x0400_0000 != 0,
    ensures
        crate::keys::sequence(k, mods, seq![b] + more, app_cursor) == Some(
            if mods & 0x0800_0000 != 0 {
                seq![27u8, b]
            } else {
                seq![b]
            },
        ),
{
    assert((seq![b] + more)[0] == b);
}

/// Without Ctrl, text is sent whole and unchanged, and with Alt after one
/// `ESC`; neither the key's code, nor Shift, nor the mode matter.
pub proof fn law_plain_text(k: i32, mods: i32, t: Seq<u8>, app_cursor: bool)
    requires
        mods & 0x0400_0000 == 0,
        t.len() > 0,
    ensures
        ({
            let s = crate::keys::sequence(k, mods, t, app_cursor);
            &&& s is Some
            &&& mods & 0x0800_0000 == 0 ==> s->Some_0 == t
            &&& mods & 0x0800_0000 != 0 ==> s->Some_0.len() == t.len() + 1 && s->Some_0[0] == 27
                && s->Some_0.skip(1) == t
        }),
{
    assert((seq![27u8] + t).skip(1) =~= t);
}

/// Text that begins with another byte, under Ctrl, changes nothing: the key
/// sends what it sends without text.
pub proof fn law_ctrl_other_text(k: i32, mods: i32, t: Seq<u8>, app_cursor: bool)
    requires
        mods & 0x0400_0000 != 0,
        t.len() > 0,
        32 <= t[0],
        !(65 <= t[0] <= 90),
        !(97 <= t[0] <= 122),
    ensures
        crate::keys::sequence(k, mods, t, app_cursor) == crate::keys::sequence(
            k,
            mods,
            seq![],
            app_cursor,
        ),
{
}

/// A cursor key without modifiers sends `ESC`, `O` in application mode or `[`
/// outside it, and its letter; with modifiers `ESC [ 1 ;`, their count and the
/// letter, in either mode. The letters are A to D for up, down, right and left,
/// H for Home and F for End.
pub proof fn law_cursor_keys(mods: i32, app_cursor: bool)
    ensures
        ({
            let m = modifier_count(
                mods & 0x0200_0000 != 0,
                mods & 0x0800_0000 != 0,
                mods & 0x0400_0000 != 0,
            );
            let sent = |last: u8|
                Some(
                    if m != 1 {
                        seq![27u8, 91u8, 49u8, 59u8, (48 + m) as u8, last]
                    } else if app_cursor {
                        seq![27u8, 79u8, last]
                    } else {
                        seq![27u8, 91u8, last]
                    },
                );
            &&& crate::keys::sequence(0x0100_0013, mods, seq![], app_cursor) == sent(65u8)
            &&& crate::keys::sequence(0x0100_0015, mods, seq![], app_cursor) == sent(66u8)
            &&& crate::keys::sequence(0x0100_0014, mods, seq![], app_cursor) == sent(67u8)
            &&& crate::keys::sequence(0x0100_0012, mods, seq![], app_cursor) == sent(68u8)
            &&& crate::keys::sequence(0x0100_0010, mods, seq![], app_cursor) == sent(72u8)
            &&& crate::keys::sequence(0x0100_0011, mods, seq![], app_cursor) == sent(70u8)
        }),
{
    let m = modifier_count(
        mods & 0x0200_0000 != 0,
        mods & 0x0800_0000 != 0,
        mods & 0x0400_0000 != 0,
    );
    assert(crate::keys::xterm_modifiers(mods) == m);
    lemma_one_digit(1);
    lemma_one_digit(m);
    assert forall|last: u8| #[trigger] crate::keys::csi2(1, m, last) == seq![
        27u8,
        91u8,
        49u8,
        59u8,
        (48 + m) as u8,
        last,
    ] by {
        assert(crate::keys::csi2(1, m, last) =~= seq![
            27u8,
            91u8,
            49u8,
            59u8,
            (48 + m) as u8,
            last,
        ]);
    }
}

/// An editing key sends `ESC [`, its number and `~`, with `;` and the count of
/// the modifiers between where there are any; the mode does not matter. The
/// numbers are 2 for Insert, 3 for Delete, 5 for PageUp and 6 for PageDown.
pub proof fn law_editing_keys(mods: i32, app_cursor: bool)
    ensures
        ({
            let m = modifier_count(
                mods & 0x0200_0000 != 0,
                mods & 0x0800_0000 != 0,
                mods & 0x0400_0000 != 0,
            );
            let sent = |n: int|
                Some(
                    if m != 1 {
                        seq![27u8, 91u8, (48 + n) as u8, 59u8, (48 + m) as u8, 126u8]
                    } else {
                        seq![27u8, 91u8, (48 + n) as u8, 126u8]
                    },
                );
            &&& crate::keys::sequence(0x0100_0006, mods, seq![], app_cursor) == sent(2)
            &&& crate::keys::sequence(0x0100_0007, mods, seq![], app_cursor) == sent(3)
            &&& crate::keys::sequence(0x0100_0016, mods, seq![], app_cursor) == sent(5)
            &&& crate::keys::sequence(0x0100_0017, mods, seq![], app_cursor) == sent(6)
        }),
{
    let m = modifier_count(
        mods & 0x0200_0000 != 0,
        mods & 0x0800_0000 != 0,
        mods & 0x0400_0000 != 0,
    );
    assert(crate::keys::xterm_modifiers(mods) == m);
    lemma_one_digit(m);
    lemma_editing(mods, 2, m);
    lemma_editing(mods, 3, m);
    lemma_editing(mods, 5, m);
    lemma_editing(mods, 6, m);
}

proof fn lemma_editing(mods: i32, n: int, m: int)
    requires
        0 <= n <= 9,
        1 <= m <= 8,
        m == crate::keys::xterm_modifiers(mods),
    ensures
        crate::keys::editing_sequence(mods, n) == if m != 1 {
            seq![27u8, 91u8, (48 + n) as u8, 59u8, (48 + m) as u8, 126u8]
        } else {
            seq![27u8, 91u8, (48 + n) as u8, 126u8]
        },
{
    lemma_one_digit(n);
    lemma_one_digit(m);
    assert(crate::keys::csi2(n, m, 126) =~= seq![
        27u8,
        91u8,
        (48 + n) as u8,
        59u8,
        (48 + m) as u8,
        126u8,
    ]);
    assert(seq![27u8, 91u8] + crate::text::decimal_bytes(n) + seq![126u8] =~= seq![
        27u8,
        91u8,
        (48 + n) as u8,
        126u8,
    ]);
}

/// Return and the keypad's Enter send a carriage return, Tab a tab, Escape
/// `ESC` and Shift+Tab `ESC [ Z`, whatever the modifiers and the mode; Backspace
/// sends DEL, with Alt after `ESC`, and a backspace with Ctrl.
pub proof fn law_other_keys(mods: i32, app_cursor: bool)
    ensures
        crate::keys::sequence(0x0100_0004, mods, seq![], app_cursor) == Some(seq![13u8]),
        crate::keys::sequence(0x0100_0005, mods, seq![], app_cursor) == Some(seq![13u8]),
        crate::keys::sequence(0x0100_0001, mods, seq![], app_cursor) == Some(seq![9u8]),
        crate::keys::sequence(0x0100_0000, mods, seq![], app_cursor) == Some(seq![27u8]),
        crate::keys::sequence(0x0100_0002, mods, seq![], app_cursor) == Some(
            seq![27u8, 91u8, 90u8],
        ),
        crate::keys::sequence(0x0100_0003, mods, seq![], app_cursor) == Some(
            if mods & 0x0400_0000 != 0 {
                seq![8u8]
            } else if mods & 0x0800_0000 != 0 {
                seq![27u8, 127u8]
            } else {
                seq![127u8]
            },
        ),
{
}

/// A key that is none of these and types nothing sends nothing.
pub proof fn law_silent_keys(k: i32, mods: i32, app_cursor: bool)
    requires
        !(0x0100_0000 <= k <= 0x0100_0007),
        !(0x0100_0010 <= k <= 0x0100_0017),
    ensures
        crate::keys::sequence(k, mods, seq![], app_cursor) is None,
{
}

proof fn lemma_one_digit(n: int)
    requires
        0 <= n <= 9,
    ensures
        crate::text::decimal_bytes(n) == seq![(48 + n) as u8],
{
    assert(crate::text::decimal(n as nat) =~= seq![crate::text::digit(n)]);
    assert(crate::text::digit(n) as u8 == 48 + n);
    assert(crate::text::decimal_bytes(n) =~= seq![(48 + n) as u8]);
}

} // verus!
