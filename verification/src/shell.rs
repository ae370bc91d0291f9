//! Shells: which one to run, where, and what is sent to it.
use vstd::prelude::*;
use portable_pty::CommandBuilder;
use crate::cells::Modes;
use crate::cells::term_modes;
use crate::config::Config;
use crate::text::chars_of;
use crate::text::decimal_of;
use crate::text::found_at;
use crate::text::same;
use crate::text::slice_of;
use crate::text::string_of;
use crate::theme::base_name_of;

verus! {

/// A string reference by its characters.
pub open spec fn chars_at(s: Option<&str>) -> Option<Seq<char>> {
    match s {
        Some(t) => Some(t@),
        None => None,
    }
}

// ---- which shell ----

/// The shell to run: the configured one, else `$SHELL`, else bash.
pub open spec fn shell_of(cfg: Config, env: Option<Seq<char>>) -> Seq<char> {
    match cfg.shell {
        Some(s) => s@,
        None => match env {
            Some(e) => e,
            None => "/bin/bash"@,
        },
    }
}

/// The shell to run, `env` being `$SHELL`.
pub fn shell_path(cfg: &Config, env: Option<&str>) -> (r: String)
    ensures
        r@ == shell_of(*cfg, chars_at(env)),
{
    match &cfg.shell {
        Some(s) => s.as_str().to_owned(),
        None => match env {
            Some(e) => e.to_owned(),
            None => "/bin/bash".to_owned(),
        },
    }
}

/// The label of a tab whose shell has set no title: the shell's name.
pub fn default_title(cfg: &Config, env: Option<&str>) -> (r: String)
    ensures
        r@ == crate::theme::base_name(shell_of(*cfg, chars_at(env))),
{
    let path: String = shell_path(cfg, env);
    string_of(&base_name_of(&chars_of(path.as_str())))
}

/// A command to be run in a terminal: arguments, environment and directory.
#[verifier::external_type_specification]
#[verifier::external_body]
pub struct ExCommandBuilder(CommandBuilder);

/// The arguments that a command holds, the program first.
pub uninterp spec fn command_argv(c: CommandBuilder) -> Seq<Seq<char>>;

/// The environment variables that were set on a command, over those that it has
/// from its surroundings.
pub uninterp spec fn command_vars(c: CommandBuilder) -> Map<Seq<char>, Seq<char>>;

/// The directory that was set on a command.
pub uninterp spec fn command_dir(c: CommandBuilder) -> Option<Seq<char>>;

/// `CommandBuilder::new` of `portable_pty`: a command with the program as its
/// only argument, no variable set over the surrounding environment, and no
/// directory.
#[verifier::external_body]
fn command_of(program: &str) -> (c: CommandBuilder)
    ensures
        command_argv(c) == seq![program@],
        command_vars(c).dom() == Set::<Seq<char>>::empty(),
        command_dir(c) is None,
{
    CommandBuilder::new(program)
}

/// `CommandBuilder::env` of `portable_pty`: sets the variable, whatever it was
/// before, and nothing else.
#[verifier::external_body]
fn set_command_var(c: &mut CommandBuilder, key: &str, value: &str)
    ensures
        command_argv(*final(c)) == command_argv(*old(c)),
        command_vars(*final(c)) == command_vars(*old(c)).insert(key@, value@),
        command_dir(*final(c)) == command_dir(*old(c)),
{
    c.env(key, value)
}

/// `CommandBuilder::cwd` of `portable_pty`: sets the directory, whatever it was
/// before, and nothing else.
#[verifier::external_body]
fn set_command_dir(c: &mut CommandBuilder, dir: &str)
    ensures
        command_argv(*final(c)) == command_argv(*old(c)),
        command_vars(*final(c)) == command_vars(*old(c)),
        command_dir(*final(c)) == Some(dir@),
{
    c.cwd(dir)
}

/// The command of a new pane's shell, `env` being `$SHELL`: without a directory
/// it starts in the home directory.
pub fn shell_cmd(cfg: &Config, env: Option<&str>, cwd: Option<&str>) -> (c: CommandBuilder)
    ensures
        command_argv(c) == seq![shell_of(*cfg, chars_at(env))],
        command_vars(c) == map!["TERM"@ => "xterm-256color"@],
        command_dir(c) == chars_at(cwd),
{
    let path: String = shell_path(cfg, env);
    let mut c: CommandBuilder = command_of(path.as_str());
    set_command_var(&mut c, "TERM", "xterm-256color");
    if let Some(dir) = cwd {
        set_command_dir(&mut c, dir);
    }
    assert(command_vars(c) =~= map!["TERM"@ => "xterm-256color"@]);
    c
}

// ---- where it starts ----

/// An argument as the path of a directory: a `file://` in front is left out.
pub open spec fn as_path(a: Seq<char>) -> Seq<char> {
    if crate::text::begins_with(a, "file://"@) {
        a.skip(7)
    } else {
        a
    }
}

/// The path that an argument names, unless it is an option.
pub fn dir_candidate(arg: &str) -> (r: Option<String>)
    ensures
        r is Some <==> !crate::text::begins_with(arg@, "-"@),
        r is Some ==> r->Some_0@ == as_path(arg@),
{
    let v: Vec<char> = chars_of(arg);
    assert(v@.skip(0) =~= v@);
    if found_at(&v, 0, "-") {
        return None;
    }
    if found_at(&v, 0, "file://") {
        proof {
            reveal_strlit("file://");
        }
        assert(v@.subrange(7, v@.len() as int) =~= v@.skip(7));
        return Some(string_of(&slice_of(&v, 7, v.len())));
    }
    Some(string_of(&v))
}

/// The directory that the arguments ask for: what follows `-w` or
/// `--work-directory`, what `--work-directory=` holds, or the first argument
/// that is no option and names a directory. `is_dir` says which arguments do.
pub open spec fn asked_dir(args: Seq<Seq<char>>, is_dir: Seq<bool>) -> Option<Seq<char>>
    decreases args.len(),
{
    if args.len() == 0 {
        None
    } else if args[0] == "-w"@ || args[0] == "--work-directory"@ {
        if args.len() > 1 {
            Some(args[1])
        } else {
            None
        }
    } else if crate::text::begins_with(args[0], "--work-directory="@) {
        Some(args[0].skip(17))
    } else if !crate::text::begins_with(args[0], "-"@) && is_dir[0] {
        Some(as_path(args[0]))
    } else {
        asked_dir(args.skip(1), is_dir.skip(1))
    }
}

/// The characters of some strings.
pub open spec fn texts(v: Seq<String>) -> Seq<Seq<char>> {
    v.map_values(|s: String| s@)
}

/// The directory that the arguments ask for, if any.
pub fn work_dir_arg(args: &Vec<String>, is_dir: &Vec<bool>) -> (r: Option<String>)
    requires
        args@.len() == is_dir@.len(),
    ensures
        crate::config::chars_in(r) == asked_dir(texts(args@), is_dir@),
{
    let ghost all = texts(args@);
    assert(all.skip(0) =~= all);
    assert(is_dir@.skip(0) =~= is_dir@);
    for i in 0..args.len()
        invariant
            all == texts(args@),
            args@.len() == is_dir@.len(),
            asked_dir(all, is_dir@) == asked_dir(all.skip(i as int), is_dir@.skip(i as int)),
    {
        let a: &str = args[i].as_str();
        proof {
            let rest = all.skip(i as int);
            assert(rest[0] == a@);
            assert(is_dir@.skip(i as int)[0] == is_dir@[i as int]);
            assert(rest.skip(1) =~= all.skip(i as int + 1));
            assert(is_dir@.skip(i as int).skip(1) =~= is_dir@.skip(i as int + 1));
        }
        if same(a, "-w") || same(a, "--work-directory") {
            if i + 1 < args.len() {
                assert(all.skip(i as int)[1] == args@[i + 1]@);
                return Some(args[i + 1].as_str().to_owned());
            }
            return None;
        }
        let v: Vec<char> = chars_of(a);
        assert(v@.skip(0) =~= v@);
        if found_at(&v, 0, "--work-directory=") {
            proof {
                reveal_strlit("--work-directory=");
            }
            assert(v@.subrange(17, v@.len() as int) =~= v@.skip(17));
            return Some(string_of(&slice_of(&v, 17, v.len())));
        }
        if let Some(p) = dir_candidate(a) {
            if is_dir[i] {
                return Some(p);
            }
        }
    }
    None
}

/// The directory that the first shell starts in: the one asked for, else the
/// one that the program was started in.
pub fn start_dir(asked: Option<String>, cwd: Option<String>) -> (r: Option<String>)
    ensures
        r == if asked is Some {
            asked
        } else {
            cwd
        },
{
    if asked.is_some() {
        asked
    } else {
        cwd
    }
}

/// The link to the directory that a process is in; none for an unknown process.
pub fn cwd_link(pid: u32) -> (r: Option<String>)
    ensures
        r is Some <==> pid != 0,
        r is Some ==> r->Some_0@ == "/proc/"@ + crate::text::decimal(pid as nat) + "/cwd"@,
{
    if pid == 0 {
        return None;
    }
    let mut s: String = "/proc/".to_owned();
    let n: String = string_of(&decimal_of(pid as u64));
    s.append(n.as_str());
    s.append("/cwd");
    Some(s)
}

// ---- language ----

/// The language that the environment asks for: that of the first variable that
/// is set.
pub open spec fn asked_language(
    lc_all: Option<Seq<char>>,
    lc_messages: Option<Seq<char>>,
    lang: Option<Seq<char>>,
) -> Seq<char> {
    if lc_all is Some {
        lc_all->Some_0
    } else if lc_messages is Some {
        lc_messages->Some_0
    } else if lang is Some {
        lang->Some_0
    } else {
        ""@
    }
}

/// The locale of the texts: Chinese where the environment asks for it, else
/// English.
pub fn detect_locale(lc_all: Option<&str>, lc_messages: Option<&str>, lang: Option<&str>) -> (r:
    &'static str)
    ensures
        r@ == if crate::text::begins_with(
            asked_language(chars_at(lc_all), chars_at(lc_messages), chars_at(lang)),
            "zh"@,
        ) {
            "zh-CN"@
        } else {
            "en"@
        },
{
    let l: &str = match lc_all {
        Some(s) => s,
        None => match lc_messages {
            Some(s) => s,
            None => match lang {
                Some(s) => s,
                None => "",
            },
        },
    };
    let v: Vec<char> = chars_of(l);
    assert(v@.skip(0) =~= v@);
    if found_at(&v, 0, "zh") {
        "zh-CN"
    } else {
        "en"
    }
}

// ---- what is sent ----

/// `ESC [ 200 ~`, which begins a bracketed paste.
pub open spec fn paste_begin() -> Seq<u8> {
    seq![0x1bu8, 91, 50, 48, 48, 126]
}

/// `ESC [ 201 ~`, which ends it.
pub open spec fn paste_end() -> Seq<u8> {
    seq![0x1bu8, 91, 50, 48, 49, 126]
}

/// What pasting some text sends: the text, in brackets where the program asked
/// for them; nothing where there is no text.
pub open spec fn pasted(text: Seq<char>, bracketed: bool) -> Seq<u8> {
    let t = vstd::utf8::encode_utf8(text);
    if text.len() == 0 {
        seq![]
    } else if bracketed {
        paste_begin() + t + paste_end()
    } else {
        t
    }
}

/// What pasting some text sends to a terminal with the modes `mode_bits`.
pub fn paste_bytes(text: &str, mode_bits: u32) -> (v: Vec<u8>)
    ensures
        v@ == pasted(text@, crate::cells::modes_of(mode_bits).bracketed_paste),
{
    let mut v: Vec<u8> = Vec::new();
    if chars_of(text).len() == 0 {
        return v;
    }
    let modes: Modes = term_modes(mode_bits);
    if modes.bracketed_paste {
        v = vec![0x1bu8, 91, 50, 48, 48, 126];
    }
    let ghost head = v@;
    v.extend_from_slice(text.as_bytes());
    if modes.bracketed_paste {
        let end: Vec<u8> = vec![0x1bu8, 91, 50, 48, 49, 126];
        v.extend_from_slice(end.as_slice());
    }
    assert(v@ =~= pasted(text@, modes.bracketed_paste));
    v
}

// ---- what a shell's reader says ----

/// The reader's message that there was output.
pub const OUTPUT: u8 = 120;

/// The reader's message that the shell is gone.
pub const GONE: u8 = 113;

/// Whether the reader's messages say that the shell is gone.
pub fn says_gone(messages: &Vec<u8>) -> (r: bool)
    ensures
        r == messages@.contains(GONE),
{
    for i in 0..messages.len()
        invariant
            forall|j: int| 0 <= j < i ==> messages@[j] != GONE,
    {
        if messages[i] == GONE {
            return true;
        }
    }
    false
}

// ---- laws ----

/// What is pasted without brackets reaches the shell as it is, and in brackets
/// it stands whole between them.
pub proof fn law_paste_keeps_text(text: Seq<char>, bracketed: bool)
    ensures
        ({
            let t = vstd::utf8::encode_utf8(text);
            let p = pasted(text, bracketed);
            &&& !bracketed ==> p == t
            &&& bracketed && text.len() > 0 ==> p.subrange(6, p.len() - 6) == t
        }),
{
    let t = vstd::utf8::encode_utf8(text);
    let p = pasted(text, bracketed);
    if text.len() == 0 {
        assert(t =~= seq![]);
    } else if bracketed {
        assert(p.subrange(6, p.len() - 6) =~= t);
    }
}

} // verus!
