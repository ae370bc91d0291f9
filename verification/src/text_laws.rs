//! Letters and blanks, and what the surroundings say: arguments, variables, the
//! clipboard and the remembered sizes.
use vstd::prelude::*;
use crate::config::Config;

verus! {

/// The characters from `from` up to `to` are blanks.
pub open spec fn blanks(s: Seq<char>, from: int, to: int) -> bool {
    forall|k: int| from <= k < to ==> crate::text::is_white(#[trigger] s[k])
}

/// `t` is the piece of `s` from `i` up to `j`, with blanks alone around it and none
/// at its own ends.
pub open spec fn between_blanks(s: Seq<char>, t: Seq<char>, i: int, j: int) -> bool {
    &&& 0 <= i <= j <= s.len()
    &&& t == s.subrange(i, j)
    &&& blanks(s, 0, i)
    &&& blanks(s, j, s.len() as int)
    &&& i < j ==> !crate::text::is_white(s[i]) && !crate::text::is_white(s[j - 1])
}

/// Trimming takes blanks from both ends and nothing else.
pub proof fn law_trimming(s: Seq<char>)
    ensures
        exists|i: int, j: int| #[trigger] between_blanks(s, crate::text::trimmed(s), i, j),
    decreases s.len(),
{
    let r = crate::text::trimmed(s);
    if s.len() > 0 && crate::text::is_white(s[0]) {
        let t = s.skip(1);
        law_trimming(t);
        let (i, j) = choose|i: int, j: int| #[trigger] between_blanks(t, r, i, j);
        assert(t.subrange(i, j) =~= s.subrange(i + 1, j + 1));
        assert forall|k: int| 0 <= k < i + 1 implies crate::text::is_white(#[trigger] s[k]) by {
            if k > 0 {
                assert(s[k] == t[k - 1]);
            }
        }
        assert forall|k: int| j + 1 <= k < s.len() implies crate::text::is_white(
            #[trigger] s[k],
        ) by {
            assert(s[k] == t[k - 1]);
        }
        assert(between_blanks(s, r, i + 1, j + 1));
    } else if s.len() > 0 && crate::text::is_white(s.last()) {
        let t = s.drop_last();
        law_trimming(t);
        let (i, j) = choose|i: int, j: int| #[trigger] between_blanks(t, r, i, j);
        assert(t.subrange(i, j) =~= s.subrange(i, j));
        assert forall|k: int| 0 <= k < i implies crate::text::is_white(#[trigger] s[k]) by {
            assert(s[k] == t[k]);
        }
        assert forall|k: int| j <= k < s.len() implies crate::text::is_white(#[trigger] s[k]) by {
            if k < t.len() {
                assert(s[k] == t[k]);
            }
        }
        assert(between_blanks(s, r, i, j));
    } else {
        assert(s.subrange(0, s.len() as int) =~= s);
        assert(between_blanks(s, r, 0, s.len() as int));
    }
}

/// The blanks of ASCII: the space and what moves the print position. No
/// other ASCII character is one.
pub proof fn law_ascii_blanks(c: char)
    requires
        c < '\u{80}',
    ensures
        crate::text::is_white(c) <==> c == ' ' || c == '\t' || c == '\n' || c == '\r' || c
            == '\u{b}' || c == '\u{c}',
{
}

/// The 26 letters in both cases, 32 apart; nothing else changes with the case.
pub proof fn law_letters(c: char)
    ensures
        'A' <= c <= 'Z' ==> crate::text::lower(c) as int == c as int + 32,
        'a' <= c <= 'z' ==> crate::text::upper(c) as int == c as int - 32,
        !('A' <= c <= 'Z') ==> crate::text::lower(c) == c,
        !('a' <= c <= 'z') ==> crate::text::upper(c) == c,
        crate::text::lower(crate::text::upper(c)) == crate::text::lower(c),
{
}

/// A directory asked for with `-w` or `--work-directory` is the next argument,
/// with `--work-directory=` the rest of this one; an argument that is a directory
/// asks for itself, without a leading `file://`. Options and arguments that are
/// no directories are passed over.
pub proof fn law_asked_directory(dir: Seq<char>, a: Seq<char>, args: Seq<Seq<char>>, is: Seq<bool>, it_is: bool)
    requires
        args.len() == is.len(),
    ensures
        crate::shell::asked_dir(seq!["-w"@, dir] + args, seq![it_is, it_is] + is) == Some(dir),
        crate::shell::asked_dir(
            seq!["--work-directory"@, dir] + args,
            seq![it_is, it_is] + is,
        ) == Some(dir),
        crate::shell::asked_dir(seq!["--work-directory="@ + dir] + args, seq![it_is] + is) == Some(
            dir,
        ),
        dir.len() > 0 && dir[0] == '/' ==> crate::shell::asked_dir(
            seq![dir] + args,
            seq![true] + is,
        ) == Some(dir),
        dir.len() > 0 && dir[0] == '/' ==> crate::shell::asked_dir(
            seq!["file://"@ + dir] + args,
            seq![true] + is,
        ) == Some(dir),
        a.len() > 0 && a[0] != '-' ==> crate::shell::asked_dir(seq![a] + args, seq![false] + is)
            == crate::shell::asked_dir(args, is),
        a.len() > 0 && a[0] == '-' && a != "-w"@ && a != "--work-directory"@
            && !crate::text::begins_with(a, "--work-directory="@) ==> crate::shell::asked_dir(
            seq![a] + args,
            seq![it_is] + is,
        ) == crate::shell::asked_dir(args, is),
        crate::shell::asked_dir(seq![], seq![]) is None,
{
    reveal_strlit("-w");
    reveal_strlit("-");
    reveal_strlit("--work-directory");
    reveal_strlit("--work-directory=");
    reveal_strlit("file://");
    let long = "--work-directory="@ + dir;
    assert((seq!["-w"@, dir] + args)[0] == "-w"@);
    assert((seq!["-w"@, dir] + args)[1] == dir);
    assert((seq!["--work-directory"@, dir] + args)[0] == "--work-directory"@);
    assert((seq!["--work-directory"@, dir] + args)[1] == dir);
    assert((seq![long] + args)[0] == long);
    assert(long.take(17) =~= "--work-directory="@);
    assert(long.skip(17) =~= dir);
    let file = "file://"@ + dir;
    assert((seq![file] + args)[0] == file);
    assert((seq![dir] + args)[0] == dir);
    assert((seq![a] + args)[0] == a);
    assert((seq![true] + is)[0] == true);
    assert((seq![false] + is)[0] == false);
    assert((seq![it_is] + is)[0] == it_is);
    assert((seq![a] + args).skip(1) =~= args);
    assert((seq![false] + is).skip(1) =~= is);
    assert((seq![it_is] + is).skip(1) =~= is);
    assert(file.take(7) =~= "file://"@);
    assert(file.skip(7) =~= dir);
    lemma_first_char(file, "-"@);
    lemma_first_char(file, "-w"@);
    lemma_first_char(file, "--work-directory="@);
    lemma_first_char(file, "--work-directory"@);
    lemma_first_char(dir, "-"@);
    lemma_first_char(dir, "-w"@);
    lemma_first_char(dir, "--work-directory"@);
    lemma_first_char(dir, "--work-directory="@);
    lemma_first_char(dir, "file://"@);
    lemma_first_char(a, "-w"@);
    lemma_first_char(a, "--work-directory"@);
    lemma_first_char(a, "--work-directory="@);
    lemma_first_char(long, "-w"@);
    assert(long.len() >= 17);
    assert(long[1] == '-');
    assert("-w"@[1] == 'w');
    if a.len() > 0 && a[0] == '-' {
        assert(a.take(1) =~= "-"@);
    }
}

proof fn lemma_first_char(a: Seq<char>, p: Seq<char>)
    requires
        p.len() > 0,
    ensures
        crate::text::begins_with(a, p) ==> a.len() > 0 && a[0] == p[0],
        a == p ==> a[0] == p[0],
{
    if crate::text::begins_with(a, p) {
        assert(a.take(p.len() as int)[0] == a[0]);
    }
}

/// Pasted text is sent as it is, and where the program asked for it between
/// `ESC [ 200 ~` and `ESC [ 201 ~`; no text is sent as nothing.
pub proof fn law_pasting(text: Seq<char>)
    ensures
        text.len() > 0 ==> {
            let p = crate::shell::pasted(text, true);
            let n = p.len() as int;
            &&& n == crate::shell::pasted(text, false).len() + 12
            &&& p.take(6) == seq![27u8, 91u8, 50u8, 48u8, 48u8, 126u8]
            &&& p.subrange(6, n - 6) == crate::shell::pasted(text, false)
            &&& p.skip(n - 6) == seq![27u8, 91u8, 50u8, 48u8, 49u8, 126u8]
        },
        crate::shell::pasted(text, false) == vstd::utf8::encode_utf8(text),
        text.len() == 0 ==> crate::shell::pasted(text, true).len() == 0,
{
    let t = vstd::utf8::encode_utf8(text);
    if text.len() > 0 {
        let p = crate::shell::pasted(text, true);
        let n = p.len() as int;
        assert(p.take(6) =~= seq![27u8, 91u8, 50u8, 48u8, 48u8, 126u8]);
        assert(p.subrange(6, n - 6) =~= t);
        assert(p.skip(n - 6) =~= seq![27u8, 91u8, 50u8, 48u8, 49u8, 126u8]);
    } else {
        crate::shell::law_paste_keeps_text(text, false);
    }
}

/// Of the variables that ask for a language, `LC_ALL` counts before `LC_MESSAGES`
/// and that before `LANG`; the first that is set decides, even if it is empty.
pub proof fn law_language_order(m: Option<Seq<char>>, l: Option<Seq<char>>, x: Seq<char>)
    ensures
        crate::shell::asked_language(Some(x), m, l) == x,
        crate::shell::asked_language(None, Some(x), l) == x,
        crate::shell::asked_language(None, None, Some(x)) == x,
        crate::shell::asked_language(None, None, None).len() == 0,
{
    reveal_strlit("");
}

/// The configured shell counts before the environment's, that before bash.
pub proof fn law_shell_order(cfg: Config, env: Option<Seq<char>>, e: Seq<char>)
    ensures
        cfg.shell matches Some(s) ==> crate::shell::shell_of(cfg, env) == s@,
        cfg.shell is None ==> crate::shell::shell_of(cfg, Some(e)) == e,
        cfg.shell is None ==> crate::shell::shell_of(cfg, None) == seq![
            '/',
            'b',
            'i',
            'n',
            '/',
            'b',
            'a',
            's',
            'h',
        ],
{
    reveal_strlit("/bin/bash");
    assert("/bin/bash"@ =~= seq!['/', 'b', 'i', 'n', '/', 'b', 'a', 's', 'h']);
}

/// A remembered size that is no integer of 32 bits spoils the whole memory; sizes
/// that are such integers, or missing, are remembered each for itself.
pub proof fn law_remembered_sizes(t: Map<Seq<char>, Option<i64>>)
    ensures
        ({
            let (w, h) = ("window_width"@, "window_height"@);
            let good = |k: Seq<char>|
                !t.contains_key(k) || (t[k] is Some && -0x8000_0000 <= t[k]->Some_0 <= 0x7fff_ffff);
            let s = crate::state::state_in(t);
            &&& !good(w) || !good(h) ==> s.window_width is None && s.window_height is None
            &&& good(w) && good(h) ==> {
                &&& t.contains_key(w) ==> (s.window_width matches Some(n) && Some(n as i64) == t[w])
                &&& t.contains_key(h) ==> (s.window_height matches Some(n) && Some(n as i64)
                    == t[h])
                &&& !t.contains_key(w) ==> s.window_width is None
                &&& !t.contains_key(h) ==> s.window_height is None
            }
        }),
{
}

} // verus!
