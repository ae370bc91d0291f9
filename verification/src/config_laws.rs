//! What the names in a configuration stand for, and what keys do without one.
use vstd::prelude::*;
use crate::config::Action;
use crate::config::Binding;
use crate::config::Config;
use crate::config::RawBinding;
use crate::config::RawConfig;

verus! {

/// A key named by one character is that character, a small ASCII letter its
/// capital.
pub proof fn law_one_character_keys(c: char)
    ensures
        'a' <= c <= 'z' ==> crate::config::code_of(seq![c]) == Some((c as int - 32) as i32),
        !('a' <= c <= 'z') ==> crate::config::code_of(seq![c]) == Some(c as i32),
{
}

/// Keys by their names, in any case of letters.
pub proof fn law_key_names(s: Seq<char>)
    ensures
        crate::text::lowered(s) == "escape"@ ==> crate::config::code_of(s) == Some(0x0100_0000i32),
        crate::text::lowered(s) == "esc"@ ==> crate::config::code_of(s) == Some(0x0100_0000i32),
        crate::text::lowered(s) == "tab"@ ==> crate::config::code_of(s) == Some(0x0100_0001i32),
        crate::text::lowered(s) == "backtab"@ ==> crate::config::code_of(s) == Some(0x0100_0002i32),
        crate::text::lowered(s) == "backspace"@ ==> crate::config::code_of(s) == Some(0x0100_0003i32),
        crate::text::lowered(s) == "return"@ ==> crate::config::code_of(s) == Some(0x0100_0004i32),
        crate::text::lowered(s) == "enter"@ ==> crate::config::code_of(s) == Some(0x0100_0004i32),
        crate::text::lowered(s) == "left"@ ==> crate::config::code_of(s) == Some(0x0100_0012i32),
        crate::text::lowered(s) == "right"@ ==> crate::config::code_of(s) == Some(0x0100_0014i32),
        crate::text::lowered(s) == "up"@ ==> crate::config::code_of(s) == Some(0x0100_0013i32),
        crate::text::lowered(s) == "down"@ ==> crate::config::code_of(s) == Some(0x0100_0015i32),
        crate::text::lowered(s) == "home"@ ==> crate::config::code_of(s) == Some(0x0100_0010i32),
        crate::text::lowered(s) == "end"@ ==> crate::config::code_of(s) == Some(0x0100_0011i32),
        crate::text::lowered(s) == "delete"@ ==> crate::config::code_of(s) == Some(0x0100_0007i32),
        crate::text::lowered(s) == "insert"@ ==> crate::config::code_of(s) == Some(0x0100_0006i32),
        crate::text::lowered(s) == "pageup"@ ==> crate::config::code_of(s) == Some(0x0100_0016i32),
        crate::text::lowered(s) == "pagedown"@ ==> crate::config::code_of(s) == Some(0x0100_0017i32),
{
    assert(crate::text::lowered(s).len() == s.len());
    reveal_strlit("escape");
    reveal_strlit("esc");
    reveal_strlit("tab");
    reveal_strlit("backtab");
    reveal_strlit("backspace");
    reveal_strlit("return");
    reveal_strlit("enter");
    reveal_strlit("left");
    reveal_strlit("right");
    reveal_strlit("up");
    reveal_strlit("down");
    reveal_strlit("home");
    reveal_strlit("end");
    reveal_strlit("delete");
    reveal_strlit("insert");
    reveal_strlit("pageup");
    reveal_strlit("pagedown");
    assert("escape"@[0] != "return"@[0]);
    assert("escape"@[0] != "delete"@[0]);
    assert("escape"@[0] != "insert"@[0]);
    assert("escape"@[0] != "pageup"@[0]);
    assert("esc"@[0] != "tab"@[0]);
    assert("esc"@[1] != "end"@[1]);
    assert("tab"@[0] != "end"@[0]);
    assert("return"@[0] != "delete"@[0]);
    assert("return"@[0] != "insert"@[0]);
    assert("return"@[0] != "pageup"@[0]);
    assert("enter"@[0] != "right"@[0]);
    assert("left"@[0] != "down"@[0]);
    assert("left"@[0] != "home"@[0]);
    assert("down"@[0] != "home"@[0]);
    assert("delete"@[0] != "insert"@[0]);
    assert("delete"@[0] != "pageup"@[0]);
    assert("insert"@[0] != "pageup"@[0]);
}

/// A part without a plus sign is the only part.
proof fn lemma_one_part(s: Seq<char>)
    requires
        !s.contains('+'),
    ensures
        crate::config::parts(s, '+') == seq![s],
    decreases s.len(),
{
    if s.len() > 0 {
        assert(s.contains(s.last()));
        assert forall|i: int| 0 <= i < s.drop_last().len() implies s.drop_last()[i] != '+' by {
            assert(s.contains(s[i]));
        }
        lemma_one_part(s.drop_last());
        assert(s.drop_last().push(s.last()) =~= s);
        assert(crate::config::parts(s, '+') =~= seq![s]);
    } else {
        assert(s =~= seq![]);
        assert(crate::config::parts(s, '+') =~= seq![s]);
    }
}

/// Modifiers by their names, in any case of letters, with blanks around them or
/// not; any other name stands for none.
pub proof fn law_one_modifier(s: Seq<char>)
    requires
        !s.contains('+'),
    ensures
        ({
            let name = crate::text::lowered(crate::text::trimmed(s));
            crate::config::mask_of(s) == if name == "ctrl"@ || name == "control"@ {
                0x0400_0000
            } else if name == "shift"@ {
                0x0200_0000
            } else if name == "alt"@ {
                0x0800_0000
            } else {
                0int
            }
        }),
{
    lemma_one_part(s);
    let p = crate::config::parts(s, '+');
    assert(p[0] == s);
    reveal_strlit("ctrl");
    reveal_strlit("control");
    reveal_strlit("shift");
    reveal_strlit("alt");
    assert forall|m: i32| #[trigger]
        crate::config::names_modifier(s, m) == (crate::config::modifier_named(s) == Some(m)) by {
        if crate::config::modifier_named(s) == Some(m) {
            assert(crate::config::modifier_named(p[0]) == Some(m));
        }
    }
}

/// Modifiers joined by a plus sign are held together.
pub proof fn law_modifiers_together(a: Seq<char>, b: Seq<char>, m: i32)
    ensures
        crate::config::names_modifier(a.push('+') + b, m) == (crate::config::names_modifier(a, m)
            || crate::config::names_modifier(b, m)),
        !crate::config::names_modifier(b, 0x0200_0000) && !crate::config::names_modifier(
            b,
            0x0400_0000,
        ) && !crate::config::names_modifier(b, 0x0800_0000) ==> crate::config::mask_of(
            a.push('+') + b,
        ) == crate::config::mask_of(a),
{
    crate::config::lemma_names_either(a, b, m);
    crate::config::lemma_names_either(a, b, 0x0200_0000);
    crate::config::lemma_names_either(a, b, 0x0400_0000);
    crate::config::lemma_names_either(a, b, 0x0800_0000);
}

/// A binding answers where its key comes with exactly its own of Ctrl, Shift and
/// Alt; other modifiers do not count.
pub proof fn law_exact_modifiers(b: Binding, k: i32, mods: i32)
    ensures
        crate::config::answers(b, k, mods) <==> crate::config::code_of(b.0) == Some(k) && (mods
            & 0x0e00_0000) as int == crate::config::mask_of(b.1),
{
}

/// What a key does where the configuration binds nothing, `held` being which of
/// Shift, Ctrl and Alt are.
pub open spec fn default_action(k: int, held: int) -> Option<Action> {
    if k == 67 && held == 0x0600_0000 {
        Some(Action::Copy)
    } else if k == 86 && held == 0x0600_0000 {
        Some(Action::Paste)
    } else if k == 84 && held == 0x0600_0000 {
        Some(Action::NewTab)
    } else if k == 87 && held == 0x0600_0000 {
        Some(Action::CloseTab)
    } else if k == 0x0100_0014 && held == 0x0200_0000 {
        Some(Action::NextTab)
    } else if k == 0x0100_0012 && held == 0x0200_0000 {
        Some(Action::PrevTab)
    } else if k == 40 && held == 0x0600_0000 {
        Some(Action::SplitVertical)
    } else if k == 41 && held == 0x0600_0000 {
        Some(Action::SplitHorizontal)
    } else if k == 0x0100_0001 && held == 0x0400_0000 {
        Some(Action::NextPane)
    } else if k == 0x0100_0002 && held == 0x0600_0000 {
        Some(Action::PrevPane)
    } else if k == 0x0100_0013 && held == 0x0600_0000 {
        Some(Action::FocusPaneUp)
    } else if k == 0x0100_0015 && held == 0x0600_0000 {
        Some(Action::FocusPaneDown)
    } else if k == 0x0100_0012 && held == 0x0600_0000 {
        Some(Action::FocusPaneLeft)
    } else if k == 0x0100_0014 && held == 0x0600_0000 {
        Some(Action::FocusPaneRight)
    } else {
        None
    }
}

proof fn lemma_default_modifiers()
    ensures
        crate::config::mask_of("Ctrl"@) == 0x0400_0000,
        crate::config::mask_of("Shift"@) == 0x0200_0000,
        crate::config::mask_of("Ctrl+Shift"@) == 0x0600_0000,
{
    reveal_strlit("Ctrl");
    reveal_strlit("Shift");
    reveal_strlit("Ctrl+Shift");
    reveal_strlit("ctrl");
    reveal_strlit("shift");
    reveal_strlit("alt");
    reveal_strlit("control");
    let (c, s) = ("Ctrl"@, "Shift"@);
    assert(crate::text::lowered(c) =~= "ctrl"@);
    assert(crate::text::lowered(s) =~= "shift"@);
    law_one_modifier(c);
    law_one_modifier(s);
    assert("Ctrl+Shift"@ =~= c.push('+') + s);
    crate::config::lemma_names_either(c, s, 0x0200_0000);
    crate::config::lemma_names_either(c, s, 0x0400_0000);
    crate::config::lemma_names_either(c, s, 0x0800_0000);
}

proof fn lemma_default_codes()
    ensures
        crate::config::code_of(crate::config::default_bindings()[0].0) == Some(67i32),
        crate::config::mask_of(crate::config::default_bindings()[0].1) == 0x0600_0000,
        crate::config::code_of(crate::config::default_bindings()[1].0) == Some(86i32),
        crate::config::mask_of(crate::config::default_bindings()[1].1) == 0x0600_0000,
        crate::config::code_of(crate::config::default_bindings()[2].0) == Some(84i32),
        crate::config::mask_of(crate::config::default_bindings()[2].1) == 0x0600_0000,
        crate::config::code_of(crate::config::default_bindings()[3].0) == Some(87i32),
        crate::config::mask_of(crate::config::default_bindings()[3].1) == 0x0600_0000,
        crate::config::code_of(crate::config::default_bindings()[4].0) == Some(0x0100_0014i32),
        crate::config::mask_of(crate::config::default_bindings()[4].1) == 0x0200_0000,
        crate::config::code_of(crate::config::default_bindings()[5].0) == Some(0x0100_0012i32),
        crate::config::mask_of(crate::config::default_bindings()[5].1) == 0x0200_0000,
        crate::config::code_of(crate::config::default_bindings()[6].0) == Some(40i32),
        crate::config::mask_of(crate::config::default_bindings()[6].1) == 0x0600_0000,
        crate::config::code_of(crate::config::default_bindings()[7].0) == Some(41i32),
        crate::config::mask_of(crate::config::default_bindings()[7].1) == 0x0600_0000,
        crate::config::code_of(crate::config::default_bindings()[8].0) == Some(0x0100_0001i32),
        crate::config::mask_of(crate::config::default_bindings()[8].1) == 0x0400_0000,
        crate::config::code_of(crate::config::default_bindings()[9].0) == Some(0x0100_0002i32),
        crate::config::mask_of(crate::config::default_bindings()[9].1) == 0x0600_0000,
        crate::config::code_of(crate::config::default_bindings()[10].0) == Some(0x0100_0013i32),
        crate::config::mask_of(crate::config::default_bindings()[10].1) == 0x0600_0000,
        crate::config::code_of(crate::config::default_bindings()[11].0) == Some(0x0100_0015i32),
        crate::config::mask_of(crate::config::default_bindings()[11].1) == 0x0600_0000,
        crate::config::code_of(crate::config::default_bindings()[12].0) == Some(0x0100_0012i32),
        crate::config::mask_of(crate::config::default_bindings()[12].1) == 0x0600_0000,
        crate::config::code_of(crate::config::default_bindings()[13].0) == Some(0x0100_0014i32),
        crate::config::mask_of(crate::config::default_bindings()[13].1) == 0x0600_0000,
{
    lemma_default_modifiers();
    reveal_strlit("C");
    reveal_strlit("V");
    reveal_strlit("T");
    reveal_strlit("W");
    reveal_strlit("Right");
    reveal_strlit("right");
    assert(crate::text::lowered("Right"@) =~= "right"@);
    law_key_names("Right"@);
    reveal_strlit("Left");
    reveal_strlit("left");
    assert(crate::text::lowered("Left"@) =~= "left"@);
    law_key_names("Left"@);
    reveal_strlit("(");
    reveal_strlit(")");
    reveal_strlit("Tab");
    reveal_strlit("tab");
    assert(crate::text::lowered("Tab"@) =~= "tab"@);
    law_key_names("Tab"@);
    reveal_strlit("Backtab");
    reveal_strlit("backtab");
    assert(crate::text::lowered("Backtab"@) =~= "backtab"@);
    law_key_names("Backtab"@);
    reveal_strlit("Up");
    reveal_strlit("up");
    assert(crate::text::lowered("Up"@) =~= "up"@);
    law_key_names("Up"@);
    reveal_strlit("Down");
    reveal_strlit("down");
    assert(crate::text::lowered("Down"@) =~= "down"@);
    law_key_names("Down"@);
}

/// Without a configuration Ctrl and Shift with C, V, T and W copy, paste, open and
/// close a tab, with a bracket split, and with the arrows move the focus that
/// way; Shift with left and right goes through the tabs, Ctrl with Tab, back with
/// Shift, through the panes; nothing else is bound.
pub proof fn law_default_keys(k: i32, mods: i32)
    ensures
        crate::config::bound_action(crate::config::default_bindings(), k, mods) == default_action(
            k as int,
            (mods & 0x0e00_0000) as int,
        ),
{
    let d = crate::config::default_bindings();
    let held = (mods & 0x0e00_0000) as int;
    lemma_default_codes();
    crate::config::law_first_match_wins(d, k, mods);
    assert(d.len() == 14);
    if let Some(a) = crate::config::bound_action(d, k, mods) {
        let i = choose|i: int|
            0 <= i < d.len() && #[trigger] crate::config::answers(d[i], k, mods) && d[i].2 == a
                && forall|j: int| 0 <= j < i ==> !#[trigger] crate::config::answers(d[j], k, mods);
        assert(crate::config::answers(d[i], k, mods));
        assert(i == 0 || i == 1 || i == 2 || i == 3 || i == 4 || i == 5 || i == 6 || i == 7 || i
            == 8 || i == 9 || i == 10 || i == 11 || i == 12 || i == 13);
    } else {
        assert(!crate::config::answers(d[0], k, mods));
        assert(!crate::config::answers(d[1], k, mods));
        assert(!crate::config::answers(d[2], k, mods));
        assert(!crate::config::answers(d[3], k, mods));
        assert(!crate::config::answers(d[4], k, mods));
        assert(!crate::config::answers(d[5], k, mods));
        assert(!crate::config::answers(d[6], k, mods));
        assert(!crate::config::answers(d[7], k, mods));
        assert(!crate::config::answers(d[8], k, mods));
        assert(!crate::config::answers(d[9], k, mods));
        assert(!crate::config::answers(d[10], k, mods));
        assert(!crate::config::answers(d[11], k, mods));
        assert(!crate::config::answers(d[12], k, mods));
        assert(!crate::config::answers(d[13], k, mods));
    }
}

/// What a file sets counts, and what it leaves out is as without a file: 12
/// points, 10000 lines of history, a block for a cursor. A key that the file
/// binds does what the first such line of it says, any other what it does
/// without a file.
pub proof fn law_file_and_defaults(c: Config, raw: RawConfig, k: i32, mods: i32)
    requires
        crate::config::is_set_by(c, raw),
        crate::config::names_known(raw),
    ensures
        raw.font_size matches Some(n) ==> c.font_size == n,
        raw.font_size is None ==> c.font_size == 12,
        raw.scrollback matches Some(n) ==> c.scrollback == n,
        raw.scrollback is None ==> c.scrollback == 10_000,
        raw.cursor_shape is None ==> c.cursor_shape is Block,
        raw.cursor_shape matches Some(s) ==> (s@ == "beam"@ ==> c.cursor_shape is Beam),
        raw.cursor_shape matches Some(s) ==> (s@ == "underline"@ ==> c.cursor_shape is Underline),
        raw.cursor_shape matches Some(s) ==> (s@ == "block"@ ==> c.cursor_shape is Block),
        c.shell == raw.shell,
        c.font_family == raw.font_family,
        c.theme == raw.theme,
        crate::config::bound_action(crate::config::listed(c.key_bindings@), k, mods) == match
            crate::config::bound_action(crate::config::bindings_of(raw.key_bindings@), k, mods) {
            Some(a) => Some(a),
            None => default_action(k as int, (mods & 0x0e00_0000) as int),
        },
{
    reveal_strlit("block");
    reveal_strlit("beam");
    reveal_strlit("underline");
    assert("block"@[1] != "beam"@[1]);
    law_default_keys(k, mods);
    crate::config::law_user_bindings_first(
        crate::config::bindings_of(raw.key_bindings@),
        k,
        mods,
    );
}

/// A path's name in a directory is that name, whether or not the directory is
/// written with a slash at its end.
pub proof fn law_names_in_directories(dir: Seq<char>, name: Seq<char>)
    requires
        !name.contains('/'),
        dir.len() > 0,
    ensures
        crate::theme::base_name(crate::config::joined(dir, name)) == name,
        crate::text::begins_with(crate::config::joined(dir, name), dir),
        dir.last() != '/' ==> crate::config::joined(dir.push('/'), name)
            == crate::config::joined(dir, name),
{
    let d = if dir.last() == '/' {
        dir
    } else {
        dir.push('/')
    };
    assert(crate::config::joined(dir, name) == d + name);
    assert((d + name).take(dir.len() as int) =~= dir);
    lemma_base_name(d, name);
}

/// What stands behind the last slash is the name.
pub proof fn lemma_base_name(d: Seq<char>, name: Seq<char>)
    requires
        d.len() > 0,
        d.last() == '/',
        !name.contains('/'),
    ensures
        crate::theme::base_name(d + name) == name,
    decreases name.len(),
{
    let p = d + name;
    if name.len() == 0 {
        assert(p =~= d);
        assert(name =~= seq![]);
    } else {
        assert(name.contains(name.last()));
        assert forall|i: int| 0 <= i < name.drop_last().len() implies name.drop_last()[i]
            != '/' by {
            assert(name.contains(name[i]));
        }
        assert(p.drop_last() =~= d + name.drop_last());
        lemma_base_name(d, name.drop_last());
        assert(name.drop_last().push(name.last()) =~= name);
    }
}

/// A file's binding has the modifiers that it names, and none where it names none.
pub proof fn law_binding_modifiers(b: RawBinding)
    ensures
        b.mods is None ==> crate::config::mask_of(crate::config::binding_of(b).1) == 0,
        b.mods matches Some(m) ==> crate::config::binding_of(b).1 == m@,
        crate::config::binding_of(b).0 == b.key@,
        Some(crate::config::binding_of(b).2) == crate::config::action_named(b.action@)
            || crate::config::action_named(b.action@) is None,
{
    let none = ""@;
    reveal_strlit("");
    reveal_strlit("ctrl");
    reveal_strlit("control");
    reveal_strlit("shift");
    reveal_strlit("alt");
    assert(!none.contains('+'));
    law_one_modifier(none);
    let name = crate::text::lowered(crate::text::trimmed(none));
    assert(name.len() == 0);
    assert("ctrl"@.len() == 4 && "control"@.len() == 7 && "shift"@.len() == 5 && "alt"@.len() == 3);
}

/// The configuration is in `deptty` of the configuration directory, which is
/// `.config` of the home directory where no other is set.
pub proof fn law_configuration_directory(dir: Seq<char>, home: Option<Seq<char>>)
    requires
        dir.len() > 0,
        dir.last() != '/',
    ensures
        crate::config::config_path(Some(dir), home) == dir + seq![
            '/',
            'd',
            'e',
            'p',
            't',
            't',
            'y',
        ],
        crate::config::config_path(None, Some(dir)) == dir + seq![
            '/',
            '.',
            'c',
            'o',
            'n',
            'f',
            'i',
            'g',
        ] + seq!['/', 'd', 'e', 'p', 't', 't', 'y'],
        crate::config::config_path(None, None) == crate::config::config_path(None, Some("~"@)),
        crate::config::joined(seq![], dir) == dir,
{
    reveal_strlit("deptty");
    reveal_strlit(".config");
    assert(crate::config::config_path(Some(dir), home) =~= dir + seq![
        '/',
        'd',
        'e',
        'p',
        't',
        't',
        'y',
    ]);
    let base = crate::config::joined(dir, ".config"@);
    assert(base =~= dir + seq!['/', '.', 'c', 'o', 'n', 'f', 'i', 'g']);
    assert(base.last() == 'g');
    assert(crate::config::joined(base, "deptty"@) =~= base + seq![
        '/',
        'd',
        'e',
        'p',
        't',
        't',
        'y',
    ]);
    assert(crate::config::joined(seq![], dir) =~= dir);
}

} // verus!
