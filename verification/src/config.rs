//! What the user configures: options and key bindings.
use vstd::prelude::*;
use crate::qt::key;
use crate::qt::modifier;
use crate::text::chars_are;
use crate::text::chars_of;
use crate::text::lowered_of;
use crate::text::same;
use crate::text::trimmed_of;
use crate::text::upper_of;
pub use crate::state::State;
pub use crate::theme::Palette;
pub use crate::theme::SYSTEM_THEMES_DIR;
pub use crate::theme::Theme;
pub use crate::theme::parse_hex;

verus! {

/// Shape of the text cursor in the focused pane.
#[derive(Clone, Copy, Debug, PartialEq, Eq, Structural)]
pub enum CursorShape {
    Block,
    Beam,
    Underline,
}

/// What a key binding does.
#[derive(Clone, Copy, Debug, PartialEq, Eq, Structural)]
pub enum Action {
    Copy,
    Paste,
    NewTab,
    /// Close the whole tab.
    CloseTab,
    /// Close the focused pane.
    CloseWorkspace,
    NextTab,
    PrevTab,
    /// Panes one above the other.
    SplitHorizontal,
    /// Panes side by side.
    SplitVertical,
    /// Focus the next pane in leaf order.
    NextPane,
    PrevPane,
    FocusPaneUp,
    FocusPaneDown,
    FocusPaneLeft,
    FocusPaneRight,
}

/// A key with modifiers, and what it does.
#[derive(Debug)]
pub struct KeyBinding {
    /// A single character or a key's name.
    pub key: String,
    /// Names of modifiers, joined by `+`.
    pub mods: String,
    pub action: Action,
}

/// The options.
#[derive(Debug)]
pub struct Config {
    /// Point size of the font.
    pub font_size: i32,
    /// Lines of history.
    pub scrollback: usize,
    /// Shell to run; without one `$SHELL` or `/bin/bash`.
    pub shell: Option<String>,
    /// Font; without one the system's monospace font.
    pub font_family: Option<String>,
    /// Looked up in order: the first that matches wins.
    pub key_bindings: Vec<KeyBinding>,
    pub cursor_shape: CursorShape,
    /// A theme's name or the path of its file.
    pub theme: Option<String>,
}

/// A key binding as the file gives it.
#[derive(Debug)]
pub struct RawBinding {
    pub key: String,
    pub mods: Option<String>,
    pub action: String,
}

/// The options that a file sets.
#[derive(Debug)]
pub struct RawConfig {
    pub font_size: Option<i32>,
    pub scrollback: Option<usize>,
    pub shell: Option<String>,
    pub font_family: Option<String>,
    pub key_bindings: Vec<RawBinding>,
    pub cursor_shape: Option<String>,
    pub theme: Option<String>,
}

/// What became of reading the configuration file.
#[derive(Debug)]
pub enum ConfigFile {
    /// There is none, or it cannot be read.
    Missing,
    /// It is no valid configuration.
    Bad,
    Parsed(RawConfig),
}

// ---- cursor shapes ----

/// The cursor shape of a name.
pub open spec fn shape_named(s: Seq<char>) -> Option<CursorShape> {
    if s == "block"@ {
        Some(CursorShape::Block)
    } else if s == "beam"@ {
        Some(CursorShape::Beam)
    } else if s == "underline"@ {
        Some(CursorShape::Underline)
    } else {
        None
    }
}

impl CursorShape {
    pub fn from_name(s: &str) -> (r: Option<CursorShape>)
        ensures
            r == shape_named(s@),
    {
        if same(s, "block") {
            Some(CursorShape::Block)
        } else if same(s, "beam") {
            Some(CursorShape::Beam)
        } else if same(s, "underline") {
            Some(CursorShape::Underline)
        } else {
            None
        }
    }
}

impl Default for CursorShape {
    fn default() -> (r: CursorShape)
        ensures
            r == CursorShape::Block,
    {
        CursorShape::Block
    }
}

// ---- actions ----

/// The action of a name.
pub open spec fn action_named(s: Seq<char>) -> Option<Action> {
    if s == "copy"@ {
        Some(Action::Copy)
    } else if s == "paste"@ {
        Some(Action::Paste)
    } else if s == "new_tab"@ {
        Some(Action::NewTab)
    } else if s == "close_tab"@ {
        Some(Action::CloseTab)
    } else if s == "close_workspace"@ {
        Some(Action::CloseWorkspace)
    } else if s == "next_tab"@ {
        Some(Action::NextTab)
    } else if s == "prev_tab"@ {
        Some(Action::PrevTab)
    } else if s == "split_horizontal"@ {
        Some(Action::SplitHorizontal)
    } else if s == "split_vertical"@ {
        Some(Action::SplitVertical)
    } else if s == "next_pane"@ {
        Some(Action::NextPane)
    } else if s == "prev_pane"@ {
        Some(Action::PrevPane)
    } else if s == "focus_pane_up"@ {
        Some(Action::FocusPaneUp)
    } else if s == "focus_pane_down"@ {
        Some(Action::FocusPaneDown)
    } else if s == "focus_pane_left"@ {
        Some(Action::FocusPaneLeft)
    } else if s == "focus_pane_right"@ {
        Some(Action::FocusPaneRight)
    } else {
        None
    }
}

impl Action {
    pub fn from_name(s: &str) -> (r: Option<Action>)
        ensures
            r == action_named(s@),
    {
        if same(s, "copy") {
            Some(Action::Copy)
        } else if same(s, "paste") {
            Some(Action::Paste)
        } else if same(s, "new_tab") {
            Some(Action::NewTab)
        } else if same(s, "close_tab") {
            Some(Action::CloseTab)
        } else if same(s, "close_workspace") {
            Some(Action::CloseWorkspace)
        } else if same(s, "next_tab") {
            Some(Action::NextTab)
        } else if same(s, "prev_tab") {
            Some(Action::PrevTab)
        } else if same(s, "split_horizontal") {
            Some(Action::SplitHorizontal)
        } else if same(s, "split_vertical") {
            Some(Action::SplitVertical)
        } else if same(s, "next_pane") {
            Some(Action::NextPane)
        } else if same(s, "prev_pane") {
            Some(Action::PrevPane)
        } else if same(s, "focus_pane_up") {
            Some(Action::FocusPaneUp)
        } else if same(s, "focus_pane_down") {
            Some(Action::FocusPaneDown)
        } else if same(s, "focus_pane_left") {
            Some(Action::FocusPaneLeft)
        } else if same(s, "focus_pane_right") {
            Some(Action::FocusPaneRight)
        } else {
            None
        }
    }
}

// ---- key bindings ----

/// The key code of a key's name in lower case.
pub open spec fn named_key(s: Seq<char>) -> Option<i32> {
    if s == "escape"@ || s == "esc"@ {
        Some(key::ESCAPE)
    } else if s == "tab"@ {
        Some(key::TAB)
    } else if s == "backtab"@ {
        Some(key::BACKTAB)
    } else if s == "backspace"@ {
        Some(key::BACKSPACE)
    } else if s == "return"@ || s == "enter"@ {
        Some(key::RETURN)
    } else if s == "left"@ {
        Some(key::LEFT)
    } else if s == "right"@ {
        Some(key::RIGHT)
    } else if s == "up"@ {
        Some(key::UP)
    } else if s == "down"@ {
        Some(key::DOWN)
    } else if s == "home"@ {
        Some(key::HOME)
    } else if s == "end"@ {
        Some(key::END)
    } else if s == "delete"@ {
        Some(key::DELETE)
    } else if s == "insert"@ {
        Some(key::INSERT)
    } else if s == "pageup"@ {
        Some(key::PAGE_UP)
    } else if s == "pagedown"@ {
        Some(key::PAGE_DOWN)
    } else {
        None
    }
}

/// The key code that a binding's `key` stands for: of a single character the
/// character itself, a small ASCII letter as its capital; else that of the
/// name, in any case.
pub open spec fn code_of(s: Seq<char>) -> Option<i32> {
    if s.len() == 1 {
        Some(crate::text::upper(s[0]) as i32)
    } else {
        named_key(crate::text::lowered(s))
    }
}

/// The parts of `s` between separators.
pub open spec fn parts(s: Seq<char>, sep: char) -> Seq<Seq<char>>
    decreases s.len(),
{
    if s.len() == 0 {
        seq![seq![]]
    } else if s.last() == sep {
        parts(s.drop_last(), sep).push(seq![])
    } else {
        let p = parts(s.drop_last(), sep);
        p.drop_last().push(p.last().push(s.last()))
    }
}

/// The modifier that one part of a binding's `mods` names, if any.
pub open spec fn modifier_named(s: Seq<char>) -> Option<i32> {
    let n = crate::text::lowered(crate::text::trimmed(s));
    if n == "ctrl"@ || n == "control"@ {
        Some(modifier::CONTROL)
    } else if n == "shift"@ {
        Some(modifier::SHIFT)
    } else if n == "alt"@ {
        Some(modifier::ALT)
    } else {
        None
    }
}

/// Whether a binding's `mods` names the modifier `m`.
pub open spec fn names_modifier(mods: Seq<char>, m: i32) -> bool {
    exists|i: int|
        0 <= i < parts(mods, '+').len() && #[trigger] modifier_named(parts(mods, '+')[i]) == Some(m)
}

/// The modifier bits that a binding's `mods` stands for.
pub open spec fn mask_of(mods: Seq<char>) -> int {
    (if names_modifier(mods, modifier::SHIFT) {
        modifier::SHIFT as int
    } else {
        0
    }) + (if names_modifier(mods, modifier::CONTROL) {
        modifier::CONTROL as int
    } else {
        0
    }) + (if names_modifier(mods, modifier::ALT) {
        modifier::ALT as int
    } else {
        0
    })
}

fn named_key_of(v: &Vec<char>) -> (r: Option<i32>)
    ensures
        r == named_key(v@),
{
    if chars_are(v, "escape") || chars_are(v, "esc") {
        Some(key::ESCAPE)
    } else if chars_are(v, "tab") {
        Some(key::TAB)
    } else if chars_are(v, "backtab") {
        Some(key::BACKTAB)
    } else if chars_are(v, "backspace") {
        Some(key::BACKSPACE)
    } else if chars_are(v, "return") || chars_are(v, "enter") {
        Some(key::RETURN)
    } else if chars_are(v, "left") {
        Some(key::LEFT)
    } else if chars_are(v, "right") {
        Some(key::RIGHT)
    } else if chars_are(v, "up") {
        Some(key::UP)
    } else if chars_are(v, "down") {
        Some(key::DOWN)
    } else if chars_are(v, "home") {
        Some(key::HOME)
    } else if chars_are(v, "end") {
        Some(key::END)
    } else if chars_are(v, "delete") {
        Some(key::DELETE)
    } else if chars_are(v, "insert") {
        Some(key::INSERT)
    } else if chars_are(v, "pageup") {
        Some(key::PAGE_UP)
    } else if chars_are(v, "pagedown") {
        Some(key::PAGE_DOWN)
    } else {
        None
    }
}

fn modifier_of(part: &Vec<char>) -> (r: Option<i32>)
    ensures
        r == modifier_named(part@),
{
    let n: Vec<char> = lowered_of(&trimmed_of(part));
    if chars_are(&n, "ctrl") || chars_are(&n, "control") {
        Some(modifier::CONTROL)
    } else if chars_are(&n, "shift") {
        Some(modifier::SHIFT)
    } else if chars_are(&n, "alt") {
        Some(modifier::ALT)
    } else {
        None
    }
}

/// The parts of `v` between separators.
fn parts_of(v: &Vec<char>, sep: char) -> (out: Vec<Vec<char>>)
    ensures
        out@.len() == parts(v@, sep).len(),
        forall|i: int| 0 <= i < out@.len() ==> (#[trigger] out@[i])@ == parts(v@, sep)[i],
{
    let mut out: Vec<Vec<char>> = Vec::new();
    let mut cur: Vec<char> = Vec::new();
    for i in 0..v.len()
        invariant
            out@.len() + 1 == parts(v@.take(i as int), sep).len(),
            forall|j: int|
                0 <= j < out@.len() ==> (#[trigger] out@[j])@ == parts(v@.take(i as int), sep)[j],
            cur@ == parts(v@.take(i as int), sep).last(),
    {
        let c: char = v[i];
        assert(v@.take(i as int + 1).drop_last() =~= v@.take(i as int));
        if c == sep {
            out.push(cur);
            cur = Vec::new();
            assert(cur@ =~= seq![]);
        } else {
            cur.push(c);
        }
    }
    assert(v@.take(v@.len() as int) =~= v@);
    out.push(cur);
    out
}

impl KeyBinding {
    /// The modifier bits of the binding.
    pub fn mod_mask(&self) -> (r: i32)
        ensures
            r == mask_of(self.mods@),
    {
        let v: Vec<char> = chars_of(self.mods.as_str());
        let p: Vec<Vec<char>> = parts_of(&v, '+');
        let mut shift: bool = false;
        let mut ctrl: bool = false;
        let mut alt: bool = false;
        let ghost all = parts(self.mods@, '+');
        for i in 0..p.len()
            invariant
                all == parts(self.mods@, '+'),
                p@.len() == all.len(),
                forall|j: int| 0 <= j < all.len() ==> (#[trigger] p@[j])@ == all[j],
                shift == (exists|j: int|
                    0 <= j < i && #[trigger] modifier_named(all[j]) == Some(modifier::SHIFT)),
                ctrl == (exists|j: int|
                    0 <= j < i && #[trigger] modifier_named(all[j]) == Some(modifier::CONTROL)),
                alt == (exists|j: int|
                    0 <= j < i && #[trigger] modifier_named(all[j]) == Some(modifier::ALT)),
        {
            let m: Option<i32> = modifier_of(&p[i]);
            assert(m == modifier_named(all[i as int]));
            if let Some(b) = m {
                if b == modifier::SHIFT {
                    shift = true;
                } else if b == modifier::CONTROL {
                    ctrl = true;
                } else {
                    alt = true;
                }
            }
        }
        let mut mask: i32 = 0;
        if shift {
            mask += modifier::SHIFT;
        }
        if ctrl {
            mask += modifier::CONTROL;
        }
        if alt {
            mask += modifier::ALT;
        }
        mask
    }

    /// The key code of the binding, if its key is known.
    pub fn key_code(&self) -> (r: Option<i32>)
        ensures
            r == code_of(self.key@),
    {
        let v: Vec<char> = chars_of(self.key.as_str());
        if v.len() == 1 {
            let c: char = upper_of(v[0]);
            return Some(c as i32);
        }
        named_key_of(&lowered_of(&v))
    }
}

/// A binding's key, modifiers and action.
pub type Binding = (Seq<char>, Seq<char>, Action);

impl View for KeyBinding {
    type V = Binding;

    open spec fn view(&self) -> Binding {
        (self.key@, self.mods@, self.action)
    }
}

/// A list of bindings by their views.
pub open spec fn listed(bindings: Seq<KeyBinding>) -> Seq<Binding> {
    bindings.map_values(|b: KeyBinding| b@)
}

/// Whether a binding answers to a key code with modifier bits: the key is the
/// same, and of Ctrl, Shift and Alt exactly the binding's are held.
pub open spec fn answers(b: Binding, k: i32, mods: i32) -> bool {
    code_of(b.0) == Some(k) && mods & modifier::MASK == mask_of(b.1)
}

/// What the first binding that answers does.
pub open spec fn bound_action(bindings: Seq<Binding>, k: i32, mods: i32) -> Option<Action>
    decreases bindings.len(),
{
    if bindings.len() == 0 {
        None
    } else if answers(bindings[0], k, mods) {
        Some(bindings[0].2)
    } else {
        bound_action(bindings.skip(1), k, mods)
    }
}

/// The action bound to a key with modifiers, if any.
pub fn match_action(cfg: &Config, key: i32, mods: i32) -> (r: Option<Action>)
    ensures
        r == bound_action(listed(cfg.key_bindings@), key, mods),
{
    let all: &Vec<KeyBinding> = &cfg.key_bindings;
    let ghost list = listed(all@);
    assert(list.skip(0) =~= list);
    for i in 0..all.len()
        invariant
            list == listed(cfg.key_bindings@),
            all@ == cfg.key_bindings@,
            bound_action(list, key, mods) == bound_action(list.skip(i as int), key, mods),
    {
        let b: &KeyBinding = &all[i];
        assert(list.skip(i as int)[0] == b@);
        assert(list.skip(i as int).skip(1) =~= list.skip(i as int + 1));
        let code: Option<i32> = b.key_code();
        if let Some(c) = code {
            if c == key && mods & modifier::MASK == b.mod_mask() {
                return Some(b.action);
            }
        }
    }
    None
}

/// The bindings that are always there.
pub open spec fn default_bindings() -> Seq<Binding> {
    seq![
        ("C"@, "Ctrl+Shift"@, Action::Copy),
        ("V"@, "Ctrl+Shift"@, Action::Paste),
        ("T"@, "Ctrl+Shift"@, Action::NewTab),
        ("W"@, "Ctrl+Shift"@, Action::CloseTab),
        ("Right"@, "Shift"@, Action::NextTab),
        ("Left"@, "Shift"@, Action::PrevTab),
        ("("@, "Ctrl+Shift"@, Action::SplitVertical),
        (")"@, "Ctrl+Shift"@, Action::SplitHorizontal),
        ("Tab"@, "Ctrl"@, Action::NextPane),
        ("Backtab"@, "Ctrl+Shift"@, Action::PrevPane),
        ("Up"@, "Ctrl+Shift"@, Action::FocusPaneUp),
        ("Down"@, "Ctrl+Shift"@, Action::FocusPaneDown),
        ("Left"@, "Ctrl+Shift"@, Action::FocusPaneLeft),
        ("Right"@, "Ctrl+Shift"@, Action::FocusPaneRight),
    ]
}

fn binding(key: &str, mods: &str, action: Action) -> (b: KeyBinding)
    ensures
        b@ == (key@, mods@, action),
{
    KeyBinding { key: key.to_owned(), mods: mods.to_owned(), action }
}

pub fn default_key_bindings() -> (v: Vec<KeyBinding>)
    ensures
        listed(v@) == default_bindings(),
{
    let v: Vec<KeyBinding> = vec![
        binding("C", "Ctrl+Shift", Action::Copy),
        binding("V", "Ctrl+Shift", Action::Paste),
        binding("T", "Ctrl+Shift", Action::NewTab),
        binding("W", "Ctrl+Shift", Action::CloseTab),
        binding("Right", "Shift", Action::NextTab),
        binding("Left", "Shift", Action::PrevTab),
        binding("(", "Ctrl+Shift", Action::SplitVertical),
        binding(")", "Ctrl+Shift", Action::SplitHorizontal),
        binding("Tab", "Ctrl", Action::NextPane),
        binding("Backtab", "Ctrl+Shift", Action::PrevPane),
        binding("Up", "Ctrl+Shift", Action::FocusPaneUp),
        binding("Down", "Ctrl+Shift", Action::FocusPaneDown),
        binding("Left", "Ctrl+Shift", Action::FocusPaneLeft),
        binding("Right", "Ctrl+Shift", Action::FocusPaneRight),
    ];
    assert(listed(v@) =~= default_bindings());
    v
}

// ---- the options ----

/// An optional string by its characters.
pub open spec fn chars_in(s: Option<String>) -> Option<Seq<char>> {
    match s {
        Some(t) => Some(t@),
        None => None,
    }
}

/// The options when nothing is configured.
pub open spec fn is_default(c: Config) -> bool {
    &&& c.font_size == 12
    &&& c.scrollback == 10_000
    &&& c.shell is None
    &&& c.font_family is None
    &&& listed(c.key_bindings@) == default_bindings()
    &&& c.cursor_shape == CursorShape::Block
    &&& c.theme is None
}

/// Whether every name that a file gives is known.
pub open spec fn names_known(raw: RawConfig) -> bool {
    &&& raw.cursor_shape is Some ==> shape_named(raw.cursor_shape->Some_0@) is Some
    &&& forall|i: int|
        0 <= i < raw.key_bindings@.len() ==> action_named(
            (#[trigger] raw.key_bindings@[i]).action@,
        ) is Some
}

/// A file's binding: `mods` may be left out, the action goes by its name.
pub open spec fn binding_of(b: RawBinding) -> Binding {
    (
        b.key@,
        match b.mods {
            Some(m) => m@,
            None => ""@,
        },
        action_named(b.action@)->Some_0,
    )
}

/// A file's bindings, in its order.
pub open spec fn bindings_of(v: Seq<RawBinding>) -> Seq<Binding> {
    v.map_values(|b: RawBinding| binding_of(b))
}

/// The options that a file sets, each other one at its default; the file's
/// bindings come before the default ones.
pub open spec fn is_set_by(c: Config, raw: RawConfig) -> bool {
    &&& c.font_size == (match raw.font_size {
        Some(n) => n,
        None => 12,
    })
    &&& c.scrollback == (match raw.scrollback {
        Some(n) => n,
        None => 10_000,
    })
    &&& c.shell == raw.shell
    &&& c.font_family == raw.font_family
    &&& listed(c.key_bindings@) == bindings_of(raw.key_bindings@) + default_bindings()
    &&& c.cursor_shape == (match raw.cursor_shape {
        Some(s) => shape_named(s@)->Some_0,
        None => CursorShape::Block,
    })
    &&& c.theme == raw.theme
}

impl Default for Config {
    fn default() -> (c: Config)
        ensures
            is_default(c),
    {
        Config {
            font_size: 12,
            scrollback: 10_000,
            shell: None,
            font_family: None,
            key_bindings: default_key_bindings(),
            cursor_shape: CursorShape::Block,
            theme: None,
        }
    }
}

/// The bindings of a file; `None` where one has an unknown action.
fn file_bindings(raw: Vec<RawBinding>) -> (r: Option<Vec<KeyBinding>>)
    ensures
        r is Some <==> (forall|i: int|
            0 <= i < raw@.len() ==> action_named((#[trigger] raw@[i]).action@) is Some),
        r is Some ==> listed(r->Some_0@) == bindings_of(raw@),
{
    let mut out: Vec<KeyBinding> = Vec::new();
    for i in 0..raw.len()
        invariant
            listed(out@) == bindings_of(raw@.take(i as int)),
            forall|j: int| 0 <= j < i ==> action_named((#[trigger] raw@[j]).action@) is Some,
    {
        let b: &RawBinding = &raw[i];
        let action: Option<Action> = Action::from_name(b.action.as_str());
        match action {
            Some(a) => {
                let mods: &str = match &b.mods {
                    Some(m) => m.as_str(),
                    None => "",
                };
                let k: KeyBinding = binding(b.key.as_str(), mods, a);
                assert(k@ == binding_of(raw@[i as int]));
                let ghost before = out@;
                out.push(k);
                assert(listed(out@) =~= listed(before).push(k@));
                assert(bindings_of(raw@.take(i as int + 1)) =~= bindings_of(
                    raw@.take(i as int),
                ).push(k@));
            },
            None => {
                assert(action_named(raw@[i as int].action@) is None);
                return None;
            },
        }
    }
    assert(raw@.take(raw@.len() as int) =~= raw@);
    Some(out)
}

impl Config {
    /// The options that a file sets; `None` where it names an action or a
    /// cursor shape that does not exist.
    pub fn from_raw(raw: RawConfig) -> (r: Option<Config>)
        ensures
            r is Some <==> names_known(raw),
            r is Some ==> is_set_by(r->Some_0, raw),
    {
        let cursor_shape: CursorShape = match &raw.cursor_shape {
            Some(s) => match CursorShape::from_name(s.as_str()) {
                Some(c) => c,
                None => return None,
            },
            None => CursorShape::Block,
        };
        let mut key_bindings: Vec<KeyBinding> = match file_bindings(raw.key_bindings) {
            Some(v) => v,
            None => return None,
        };
        let ghost own = key_bindings@;
        let mut rest: Vec<KeyBinding> = default_key_bindings();
        let ghost defaults = rest@;
        key_bindings.append(&mut rest);
        assert(listed(key_bindings@) =~= listed(own) + listed(defaults));
        Some(
            Config {
                font_size: match raw.font_size {
                    Some(n) => n,
                    None => 12,
                },
                scrollback: match raw.scrollback {
                    Some(n) => n,
                    None => 10_000,
                },
                shell: raw.shell,
                font_family: raw.font_family,
                key_bindings,
                cursor_shape,
                theme: raw.theme,
            },
        )
    }

    /// The options after reading the configuration file: those of a valid file,
    /// the defaults where there is none or it is not valid.
    pub fn load(file: ConfigFile) -> (c: Config)
        ensures
            match file {
                ConfigFile::Parsed(raw) => if names_known(raw) {
                    is_set_by(c, raw)
                } else {
                    is_default(c)
                },
                _ => is_default(c),
            },
    {
        match file {
            ConfigFile::Parsed(raw) => match Config::from_raw(raw) {
                Some(c) => c,
                None => Config::default(),
            },
            _ => Config::default(),
        }
    }
}

// ---- where the files are ----

/// `name` in the directory `dir`.
pub open spec fn joined(dir: Seq<char>, name: Seq<char>) -> Seq<char> {
    if dir.len() == 0 || dir.last() == '/' {
        dir + name
    } else {
        dir.push('/') + name
    }
}

pub fn join(dir: &str, name: &str) -> (r: String)
    ensures
        r@ == joined(dir@, name@),
{
    let v: Vec<char> = chars_of(dir);
    let mut r: String = dir.to_owned();
    if v.len() > 0 && v[v.len() - 1] != '/' {
        r.push('/');
    }
    r.append(name);
    r
}

/// The configuration directory: `deptty` in `$XDG_CONFIG_HOME`, which without
/// that variable is `.config` in the home directory.
pub open spec fn config_path(xdg: Option<Seq<char>>, home: Option<Seq<char>>) -> Seq<char> {
    let base = match xdg {
        Some(x) => x,
        None => joined(
            match home {
                Some(h) => h,
                None => "~"@,
            },
            ".config"@,
        ),
    };
    joined(base, "deptty"@)
}

/// The configuration directory, from `$XDG_CONFIG_HOME` and the home directory.
pub fn config_dir(xdg: Option<&str>, home: Option<&str>) -> (r: String)
    ensures
        r@ == config_path(
            match xdg {
                Some(x) => Some(x@),
                None => None,
            },
            match home {
                Some(h) => Some(h@),
                None => None,
            },
        ),
{
    match xdg {
        Some(x) => join(x, "deptty"),
        None => {
            let h: &str = match home {
                Some(h) => h,
                None => "~",
            };
            let base: String = join(h, ".config");
            join(base.as_str(), "deptty")
        },
    }
}

// ---- laws ----

/// A binding of the user's overrides the default ones, and a key that the user
/// has not bound does what it does by default.
pub proof fn law_user_bindings_first(user: Seq<Binding>, k: i32, mods: i32)
    ensures
        bound_action(user + default_bindings(), k, mods) == match bound_action(user, k, mods) {
            Some(a) => Some(a),
            None => bound_action(default_bindings(), k, mods),
        },
{
    lemma_first_list_wins(user, default_bindings(), k, mods);
}

proof fn lemma_first_list_wins(a: Seq<Binding>, b: Seq<Binding>, k: i32, mods: i32)
    ensures
        bound_action(a + b, k, mods) == match bound_action(a, k, mods) {
            Some(x) => Some(x),
            None => bound_action(b, k, mods),
        },
    decreases a.len(),
{
    if a.len() == 0 {
        assert(a + b =~= b);
    } else {
        assert((a + b).skip(1) =~= a.skip(1) + b);
        lemma_first_list_wins(a.skip(1), b, k, mods);
    }
}

/// Bindings are looked up in order: the action found is that of the first one
/// that answers, and none is found only where none answers.
pub proof fn law_first_match_wins(bindings: Seq<Binding>, k: i32, mods: i32)
    ensures
        match bound_action(bindings, k, mods) {
            Some(a) => exists|i: int|
                0 <= i < bindings.len() && #[trigger] answers(bindings[i], k, mods)
                    && bindings[i].2 == a && forall|j: int|
                    0 <= j < i ==> !#[trigger] answers(bindings[j], k, mods),
            None => forall|i: int|
                0 <= i < bindings.len() ==> !#[trigger] answers(bindings[i], k, mods),
        },
    decreases bindings.len(),
{
    if bindings.len() > 0 && !answers(bindings[0], k, mods) {
        let rest = bindings.skip(1);
        law_first_match_wins(rest, k, mods);
        match bound_action(rest, k, mods) {
            Some(a) => {
                let i = choose|i: int|
                    0 <= i < rest.len() && #[trigger] answers(rest[i], k, mods) && rest[i].2 == a
                        && forall|j: int| 0 <= j < i ==> !#[trigger] answers(rest[j], k, mods);
                assert(answers(bindings[i + 1], k, mods));
                assert forall|j: int| 0 <= j < i + 1 implies !#[trigger] answers(
                    bindings[j],
                    k,
                    mods,
                ) by {
                    if j > 0 {
                        assert(rest[j - 1] == bindings[j]);
                    }
                }
            },
            None => {
                assert forall|i: int| 0 <= i < bindings.len() implies !#[trigger] answers(
                    bindings[i],
                    k,
                    mods,
                ) by {
                    if i > 0 {
                        assert(rest[i - 1] == bindings[i]);
                    }
                }
            },
        }
    }
}

/// The order in which modifiers are named does not matter.
pub proof fn law_modifier_order(a: Seq<char>, b: Seq<char>)
    ensures
        mask_of(a.push('+') + b) == mask_of(b.push('+') + a),
{
    lemma_parts_join(a, b);
    lemma_parts_join(b, a);
    assert forall|m: i32| #[trigger] names_modifier(a.push('+') + b, m) == names_modifier(
        b.push('+') + a,
        m,
    ) by {
        lemma_names_either(a, b, m);
        lemma_names_either(b, a, m);
    }
}

pub proof fn lemma_names_either(a: Seq<char>, b: Seq<char>, m: i32)
    ensures
        names_modifier(a.push('+') + b, m) == (names_modifier(a, m) || names_modifier(b, m)),
{
    lemma_parts_join(a, b);
    let (p, q, pq) = (parts(a, '+'), parts(b, '+'), parts(a.push('+') + b, '+'));
    if names_modifier(a, m) {
        let i = choose|i: int| 0 <= i < p.len() && #[trigger] modifier_named(p[i]) == Some(m);
        assert(modifier_named(pq[i]) == Some(m));
    }
    if names_modifier(b, m) {
        let i = choose|i: int| 0 <= i < q.len() && #[trigger] modifier_named(q[i]) == Some(m);
        assert(modifier_named(pq[i + p.len()]) == Some(m));
    }
    if names_modifier(a.push('+') + b, m) {
        let i = choose|i: int| 0 <= i < pq.len() && #[trigger] modifier_named(pq[i]) == Some(m);
        if i < p.len() {
            assert(modifier_named(p[i]) == Some(m));
        } else {
            assert(modifier_named(q[i - p.len()]) == Some(m));
        }
    }
}

proof fn lemma_parts_join(a: Seq<char>, b: Seq<char>)
    ensures
        parts(a.push('+') + b, '+') == parts(a, '+') + parts(b, '+'),
        parts(b, '+').len() > 0,
    decreases b.len(),
{
    let ab = a.push('+') + b;
    if b.len() == 0 {
        assert(ab.drop_last() =~= a);
        assert(parts(ab, '+') =~= parts(a, '+') + parts(b, '+'));
    } else {
        assert(ab.drop_last() =~= a.push('+') + b.drop_last());
        lemma_parts_join(a, b.drop_last());
        assert(parts(ab, '+') =~= parts(a, '+') + parts(b, '+'));
    }
}

/// A key is found whatever the case of its ASCII letters.
pub proof fn law_key_names_ignore_case(s: Seq<char>)
    ensures
        code_of(crate::text::lowered(s)) == code_of(s),
{
    let l = crate::text::lowered(s);
    assert(crate::text::lowered(l) =~= l) by {
        assert forall|i: int| 0 <= i < l.len() implies crate::text::lower(#[trigger] l[i])
            == l[i] by {
            let c = s[i];
            assert(l[i] == crate::text::lower(c));
        }
    }
}

} // verus!
