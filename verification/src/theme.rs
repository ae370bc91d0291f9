//! Color themes: where their files are found and what they say.
use vstd::prelude::*;
use crate::color::Rgb;
use crate::config::join;
use crate::text::chars_are;
use crate::text::chars_of;
use crate::text::decimal_of;
use crate::text::found_at;
use crate::text::same;
use crate::text::slice_of;
use crate::text::string_of;

verus! {

/// The user's themes, in the configuration directory.
pub fn themes_dir(config_dir: &str) -> (r: String)
    ensures
        r@ == crate::config::joined(config_dir@, "themes"@),
{
    join(config_dir, "themes")
}

/// Where packages install themes.
pub const SYSTEM_THEMES_DIR: &'static str = "/usr/share/deptty/themes";

/// The 16 ANSI colors of a theme.
#[derive(Debug)]
pub enum Palette {
    /// One entry per color.
    List(Vec<String>),
    /// Entries by number, each number at most once (`wf`).
    Table(Vec<(String, String)>),
}

/// A color theme.
#[derive(Debug)]
pub struct Theme {
    /// The file's name without directories and `.toml`; `<builtin>` for the
    /// theme that needs no file.
    pub name: String,
    pub background: Option<String>,
    pub foreground: Option<String>,
    pub cursor_color: Option<String>,
    pub palette: Option<Palette>,
    /// Accepted, without effect.
    pub selection_background: Option<String>,
    /// Accepted, without effect.
    pub selection_foreground: Option<String>,
    /// Accepted, without effect.
    pub cursor_text: Option<String>,
}

/// What stands where a theme's file may be.
#[derive(Debug)]
pub enum ThemeFile {
    /// No file.
    Missing,
    /// A file that cannot be read or is no theme.
    Bad,
    Parsed(Theme),
}

// ---- hex colors ----

/// The value of a hexadecimal digit.
pub open spec fn hex_digit(c: char) -> Option<int> {
    if '0' <= c <= '9' {
        Some(c as int - '0' as int)
    } else if 'a' <= c <= 'f' {
        Some(c as int - 'a' as int + 10)
    } else if 'A' <= c <= 'F' {
        Some(c as int - 'A' as int + 10)
    } else {
        None
    }
}

/// The value of two hexadecimal digits.
pub open spec fn hex_byte(a: char, b: char) -> u8 {
    (16 * hex_digit(a)->Some_0 + hex_digit(b)->Some_0) as u8
}

/// The six digits of `#rrggbb` or `rrggbb`.
pub open spec fn hex_digits(s: Seq<char>) -> Seq<char> {
    if s.len() > 0 && s[0] == '#' {
        s.skip(1)
    } else {
        s
    }
}

/// The color that `#rrggbb` or `rrggbb` stands for; no other text is a color.
pub open spec fn hex_color(s: Seq<char>) -> Option<Rgb> {
    let h = hex_digits(s);
    if h.len() == 6 && forall|i: int| 0 <= i < 6 ==> hex_digit(#[trigger] h[i]) is Some {
        Some((hex_byte(h[0], h[1]), hex_byte(h[2], h[3]), hex_byte(h[4], h[5])))
    } else {
        None
    }
}

fn digit_value(c: char) -> (r: Option<u8>)
    ensures
        r is Some == hex_digit(c) is Some,
        r is Some ==> r->Some_0 == hex_digit(c)->Some_0 && r->Some_0 < 16,
{
    if '0' <= c && c <= '9' {
        Some(c as u8 - 48)
    } else if 'a' <= c && c <= 'f' {
        Some(c as u8 - 87)
    } else if 'A' <= c && c <= 'F' {
        Some(c as u8 - 55)
    } else {
        None
    }
}

fn byte_value(a: char, b: char) -> (r: Option<u8>)
    ensures
        r is Some == (hex_digit(a) is Some && hex_digit(b) is Some),
        r is Some ==> r->Some_0 == hex_byte(a, b),
{
    match (digit_value(a), digit_value(b)) {
        (Some(x), Some(y)) => Some(16 * x + y),
        _ => None,
    }
}

/// The color that `#rrggbb` or `rrggbb` stands for.
pub fn parse_hex(s: &str) -> (r: Option<Rgb>)
    ensures
        r == hex_color(s@),
{
    let v: Vec<char> = chars_of(s);
    let from: usize = if v.len() > 0 && v[0] == '#' {
        1
    } else {
        0
    };
    let ghost h = hex_digits(s@);
    if v.len() - from != 6 {
        return None;
    }
    let r: Option<u8> = byte_value(v[from], v[from + 1]);
    let g: Option<u8> = byte_value(v[from + 2], v[from + 3]);
    let b: Option<u8> = byte_value(v[from + 4], v[from + 5]);
    assert(forall|i: int| 0 <= i < 6 ==> #[trigger] h[i] == v@[from + i]);
    match (r, g, b) {
        (Some(r), Some(g), Some(b)) => {
            assert forall|i: int| 0 <= i < 6 implies hex_digit(#[trigger] h[i]) is Some by {
                assert(i == 0 || i == 1 || i == 2 || i == 3 || i == 4 || i == 5);
            }
            Some((r, g, b))
        },
        _ => {
            assert(hex_digit(h[0]) is None || hex_digit(h[1]) is None || hex_digit(h[2]) is None
                || hex_digit(h[3]) is None || hex_digit(h[4]) is None || hex_digit(h[5]) is None);
            None
        },
    }
}

// ---- palettes ----

/// The value of the first pair with a key.
pub open spec fn lookup(pairs: Seq<(String, String)>, k: Seq<char>) -> Option<Seq<char>>
    decreases pairs.len(),
{
    if pairs.len() == 0 {
        None
    } else if pairs[0].0@ == k {
        Some(pairs[0].1@)
    } else {
        lookup(pairs.skip(1), k)
    }
}

/// No key occurs twice.
pub open spec fn distinct_keys(pairs: Seq<(String, String)>) -> bool {
    forall|i: int, j: int|
        0 <= i < j < pairs.len() ==> (#[trigger] pairs[i]).0@ != (#[trigger] pairs[j]).0@
}

impl Palette {
    /// A table has each number at most once.
    pub open spec fn wf(self) -> bool {
        self matches Palette::Table(m) ==> distinct_keys(m@)
    }

    /// The palette of a table's pairs, if no key occurs twice.
    pub fn from_pairs(pairs: Vec<(String, String)>) -> (r: Option<Palette>)
        ensures
            r is Some <==> distinct_keys(pairs@),
            r is Some ==> r->Some_0 == Palette::Table(pairs) && r->Some_0.wf(),
    {
        for i in 0..pairs.len()
            invariant
                forall|a: int, b: int|
                    0 <= a < b < i ==> (#[trigger] pairs@[a]).0@ != (#[trigger] pairs@[b]).0@,
        {
            for j in 0..i
                invariant
                    i < pairs@.len(),
                    forall|a: int| 0 <= a < j ==> (#[trigger] pairs@[a]).0@ != pairs@[i as int].0@,
            {
                if same(pairs[j].0.as_str(), pairs[i].0.as_str()) {
                    assert(pairs@[j as int].0@ == pairs@[i as int].0@);
                    return None;
                }
            }
        }
        Some(Palette::Table(pairs))
    }

    /// The entry of a number, if there is one: by position in a list, by the
    /// number in decimal in a map.
    pub open spec fn entry(self, i: nat) -> Option<Seq<char>> {
        match self {
            Palette::List(v) => if i < v@.len() {
                Some(v@[i as int]@)
            } else {
                None
            },
            Palette::Table(m) => lookup(m@, crate::text::decimal(i)),
        }
    }

    pub fn get(&self, i: usize) -> (r: Option<&str>)
        ensures
            r is Some == self.entry(i as nat) is Some,
            r is Some ==> r->Some_0@ == self.entry(i as nat)->Some_0,
    {
        match self {
            Palette::List(v) => if i < v.len() {
                Some(v[i].as_str())
            } else {
                None
            },
            Palette::Table(m) => {
                let k: Vec<char> = decimal_of(i as u64);
                assert(m@.skip(0) =~= m@);
                for j in 0..m.len()
                    invariant
                        k@ == crate::text::decimal(i as nat),
                        *self == Palette::Table(*m),
                        lookup(m@, k@) == lookup(m@.skip(j as int), k@),
                {
                    assert(m@.skip(j as int)[0] == m@[j as int]);
                    assert(m@.skip(j as int).skip(1) =~= m@.skip(j as int + 1));
                    if chars_are(&k, m[j].0.as_str()) {
                        return Some(m[j].1.as_str());
                    }
                }
                None
            },
        }
    }
}

// ---- a theme's colors ----

/// The color that an optional text stands for.
pub open spec fn color_in(s: Option<String>) -> Option<Rgb> {
    match s {
        Some(t) => hex_color(t@),
        None => None,
    }
}

fn color_of(s: &Option<String>) -> (r: Option<Rgb>)
    ensures
        r == color_in(*s),
{
    match s {
        Some(t) => parse_hex(t.as_str()),
        None => None,
    }
}

impl Palette {
    /// The color of a number, if it has a valid one.
    pub open spec fn color(self, i: nat) -> Option<Rgb> {
        match self.entry(i) {
            Some(s) => hex_color(s),
            None => None,
        }
    }

    fn color_at(&self, i: usize) -> (r: Option<Rgb>)
        ensures
            r == self.color(i as nat),
    {
        match self.get(i) {
            Some(s) => parse_hex(s),
            None => None,
        }
    }
}

impl Theme {
    /// Whether the theme gives all 16 ANSI colors.
    pub open spec fn has_palette(self) -> bool {
        self.palette is Some && forall|i: nat|
            i < 16 ==> (#[trigger] self.palette->Some_0.color(i)) is Some
    }

    /// The background color, if the theme gives a valid one.
    pub fn bg(&self) -> (r: Option<Rgb>)
        ensures
            r == color_in(self.background),
    {
        color_of(&self.background)
    }

    /// The text color, if the theme gives a valid one.
    pub fn fg(&self) -> (r: Option<Rgb>)
        ensures
            r == color_in(self.foreground),
    {
        color_of(&self.foreground)
    }

    /// The cursor color, if the theme gives a valid one.
    pub fn cursor(&self) -> (r: Option<Rgb>)
        ensures
            r == color_in(self.cursor_color),
    {
        color_of(&self.cursor_color)
    }

    /// The 16 ANSI colors, if the theme gives all of them.
    pub fn palette16(&self) -> (r: Option<[Rgb; 16]>)
        ensures
            r is Some <==> self.has_palette(),
            r is Some ==> forall|i: int|
                0 <= i < 16 ==> (#[trigger] r->Some_0@[i]) == self.palette->Some_0.color(
                    i as nat,
                )->Some_0,
    {
        match &self.palette {
            Some(p) => {
                let mut out: [Rgb; 16] = [(0u8, 0u8, 0u8);16];
                for i in 0usize..16
                    invariant
                        self.palette == Some(*p),
                        forall|j: nat| j < i ==> (#[trigger] p.color(j)) is Some,
                        forall|j: int|
                            0 <= j < i ==> (#[trigger] out@[j]) == p.color(j as nat)->Some_0,
                {
                    match p.color_at(i) {
                        Some(c) => {
                            out[i] = c;
                        },
                        None => {
                            assert(p.color(i as nat) is None);
                            return None;
                        },
                    }
                }
                Some(out)
            },
            None => None,
        }
    }
}

// ---- finding a theme ----

/// Whether a theme is named by its file: the name holds a `/` or ends in
/// `.toml`.
pub open spec fn is_file_path(name: Seq<char>) -> bool {
    name.contains('/') || crate::text::ends_with(name, ".toml"@)
}

/// A path with a leading `~/` taken to the home directory, where that is known.
pub open spec fn expanded(path: Seq<char>, home: Option<Seq<char>>) -> Seq<char> {
    if home is Some && crate::text::begins_with(path, "~/"@) {
        crate::config::joined(home->Some_0, path.skip(2))
    } else {
        path
    }
}

/// The files that a theme may be in, in the order of the search: a path names
/// its file; a name stands for `<name>.toml` in the user's directory, then in
/// the system's.
pub open spec fn search_paths(
    name: Seq<char>,
    home: Option<Seq<char>>,
    user_dir: Seq<char>,
    system_dir: Seq<char>,
) -> Seq<Seq<char>> {
    if is_file_path(name) {
        seq![expanded(name, home)]
    } else {
        seq![
            crate::config::joined(user_dir, name + ".toml"@),
            crate::config::joined(system_dir, name + ".toml"@),
        ]
    }
}

/// What stands at the first place that is not empty.
pub open spec fn first_found(files: Seq<ThemeFile>) -> ThemeFile
    decreases files.len(),
{
    if files.len() == 0 {
        ThemeFile::Missing
    } else if files[0] is Missing {
        first_found(files.skip(1))
    } else {
        files[0]
    }
}

/// A path without its directories.
pub open spec fn base_name(path: Seq<char>) -> Seq<char>
    decreases path.len(),
{
    if path.len() == 0 {
        path
    } else if path.last() == '/' {
        seq![]
    } else {
        base_name(path.drop_last()).push(path.last())
    }
}

/// The name that a theme goes by: without directories and `.toml`.
pub open spec fn theme_name(name: Seq<char>) -> Seq<char> {
    let b = base_name(name);
    if crate::text::ends_with(b, ".toml"@) {
        b.take(b.len() - 5)
    } else {
        b
    }
}

/// The built-in theme's ANSI colors.
pub open spec fn breeze_palette() -> Seq<Seq<char>> {
    seq![
        "#232627"@,
        "#ed1515"@,
        "#11d116"@,
        "#f67400"@,
        "#1d99f3"@,
        "#9b59b6"@,
        "#1abc9c"@,
        "#fcfcfc"@,
        "#7f8c8d"@,
        "#c0392b"@,
        "#1cdc9a"@,
        "#fdbc4b"@,
        "#3daee9"@,
        "#8e44ad"@,
        "#16a085"@,
        "#ffffff"@,
    ]
}

/// The built-in theme.
pub open spec fn is_breeze(t: Theme) -> bool {
    &&& t.name@ == "<builtin>"@
    &&& crate::config::chars_in(t.background) == Some("#232627"@)
    &&& crate::config::chars_in(t.foreground) == Some("#fcfcfc"@)
    &&& crate::config::chars_in(t.cursor_color) == Some("#eff0f1"@)
    &&& t.palette matches Some(Palette::List(v)) && v@.map_values(|s: String| s@)
        == breeze_palette()
    &&& t.selection_background is None
    &&& t.selection_foreground is None
    &&& t.cursor_text is None
}

/// The theme `t` of a file, under the name by which it was asked for.
pub open spec fn is_renamed(r: Theme, t: Theme, name: Seq<char>) -> bool {
    &&& r.name@ == theme_name(name)
    &&& r.background == t.background
    &&& r.foreground == t.foreground
    &&& r.cursor_color == t.cursor_color
    &&& r.palette == t.palette
    &&& r.selection_background == t.selection_background
    &&& r.selection_foreground == t.selection_foreground
    &&& r.cursor_text == t.cursor_text
}

/// What loading a theme gives, from what the search found: the file's theme; the
/// built-in theme where there is no file and `breeze` was asked for; else none.
pub open spec fn is_loaded(r: Option<Theme>, name: Seq<char>, found: ThemeFile) -> bool {
    match found {
        ThemeFile::Parsed(t) => r is Some && is_renamed(r->Some_0, t, name),
        ThemeFile::Bad => r is None,
        ThemeFile::Missing => if name == "breeze"@ {
            r is Some && is_breeze(r->Some_0)
        } else {
            r is None
        },
    }
}

fn has_separator(v: &Vec<char>) -> (r: bool)
    ensures
        r == v@.contains('/'),
{
    for i in 0..v.len()
        invariant
            forall|j: int| 0 <= j < i ==> v@[j] != '/',
    {
        if v[i] == '/' {
            return true;
        }
    }
    false
}

fn has_toml_suffix(v: &Vec<char>) -> (r: bool)
    ensures
        r == crate::text::ends_with(v@, ".toml"@),
{
    proof {
        reveal_strlit(".toml");
    }
    if v.len() < 5 {
        return false;
    }
    let r: bool = found_at(v, v.len() - 5, ".toml");
    assert(v@.skip(v@.len() - 5).take(5) =~= v@.skip(v@.len() - 5));
    r
}

pub(crate) fn base_name_of(v: &Vec<char>) -> (r: Vec<char>)
    ensures
        r@ == base_name(v@),
{
    let mut r: Vec<char> = Vec::new();
    for i in 0..v.len()
        invariant
            r@ == base_name(v@.take(i as int)),
    {
        assert(v@.take(i as int + 1).drop_last() =~= v@.take(i as int));
        if v[i] == '/' {
            r = Vec::new();
            assert(r@ =~= seq![]);
        } else {
            r.push(v[i]);
        }
    }
    assert(v@.take(v@.len() as int) =~= v@);
    r
}

fn theme_name_of(name: &str) -> (r: String)
    ensures
        r@ == theme_name(name@),
{
    let b: Vec<char> = base_name_of(&chars_of(name));
    if has_toml_suffix(&b) {
        proof {
            reveal_strlit(".toml");
        }
        assert(b@.subrange(0, b@.len() - 5) =~= b@.take(b@.len() - 5));
        string_of(&slice_of(&b, 0, b.len() - 5))
    } else {
        string_of(&b)
    }
}

fn expand(path: &str, home: Option<&str>) -> (r: String)
    ensures
        r@ == expanded(
            path@,
            match home {
                Some(h) => Some(h@),
                None => None,
            },
        ),
{
    let v: Vec<char> = chars_of(path);
    if let Some(h) = home {
        assert(v@.skip(0) =~= v@);
        if found_at(&v, 0, "~/") {
            proof {
                reveal_strlit("~/");
            }
            assert(v@.subrange(2, v@.len() as int) =~= v@.skip(2));
            let rest: String = string_of(&slice_of(&v, 2, v.len()));
            return join(h, rest.as_str());
        }
    }
    path.to_owned()
}

/// The theme that needs no file.
fn breeze() -> (t: Theme)
    ensures
        is_breeze(t),
{
    let v: Vec<String> = vec![
        "#232627".to_owned(),
        "#ed1515".to_owned(),
        "#11d116".to_owned(),
        "#f67400".to_owned(),
        "#1d99f3".to_owned(),
        "#9b59b6".to_owned(),
        "#1abc9c".to_owned(),
        "#fcfcfc".to_owned(),
        "#7f8c8d".to_owned(),
        "#c0392b".to_owned(),
        "#1cdc9a".to_owned(),
        "#fdbc4b".to_owned(),
        "#3daee9".to_owned(),
        "#8e44ad".to_owned(),
        "#16a085".to_owned(),
        "#ffffff".to_owned(),
    ];
    assert(v@.map_values(|s: String| s@) =~= breeze_palette());
    Theme {
        name: "<builtin>".to_owned(),
        background: Some("#232627".to_owned()),
        foreground: Some("#fcfcfc".to_owned()),
        cursor_color: Some("#eff0f1".to_owned()),
        palette: Some(Palette::List(v)),
        selection_background: None,
        selection_foreground: None,
        cursor_text: None,
    }
}

impl Default for Theme {
    fn default() -> (t: Theme)
        ensures
            t.name@ == ""@,
            t.background is None,
            t.foreground is None,
            t.cursor_color is None,
            t.palette is None,
            t.selection_background is None,
            t.selection_foreground is None,
            t.cursor_text is None,
    {
        Theme {
            name: "".to_owned(),
            background: None,
            foreground: None,
            cursor_color: None,
            palette: None,
            selection_background: None,
            selection_foreground: None,
            cursor_text: None,
        }
    }
}

impl Theme {
    /// The files that a theme may be in, in the order of the search.
    pub fn search_path(name: &str, home: Option<&str>, user_dir: &str, system_dir: &str) -> (r: Vec<
        String,
    >)
        ensures
            r@.map_values(|s: String| s@) == search_paths(
                name@,
                match home {
                    Some(h) => Some(h@),
                    None => None,
                },
                user_dir@,
                system_dir@,
            ),
    {
        let v: Vec<char> = chars_of(name);
        let direct: bool = has_separator(&v) || has_toml_suffix(&v);
        let mut r: Vec<String> = Vec::new();
        if direct {
            r.push(expand(name, home));
        } else {
            let mut file: String = name.to_owned();
            file.append(".toml");
            r.push(join(user_dir, file.as_str()));
            r.push(join(system_dir, file.as_str()));
        }
        assert(r@.map_values(|s: String| s@) =~= search_paths(
            name@,
            match home {
                Some(h) => Some(h@),
                None => None,
            },
            user_dir@,
            system_dir@,
        ));
        r
    }

    /// What stands at the first of the places searched that is not empty.
    pub fn find_file(files: Vec<ThemeFile>) -> (r: ThemeFile)
        ensures
            r == first_found(files@),
    {
        let mut rest: Vec<ThemeFile> = files;
        let mut i: usize = 0;
        assert(files@.skip(0) =~= files@);
        while i < rest.len()
            invariant
                rest@ == files@,
                i <= rest.len(),
                first_found(files@) == first_found(files@.skip(i as int)),
            decreases rest.len() - i,
        {
            assert(files@.skip(i as int)[0] == files@[i as int]);
            assert(files@.skip(i as int).skip(1) =~= files@.skip(i as int + 1));
            let found: bool = match &rest[i] {
                ThemeFile::Missing => false,
                _ => true,
            };
            if found {
                return rest.swap_remove(i);
            }
            i += 1;
        }
        ThemeFile::Missing
    }

    /// The theme `name`, from what the search for its file found.
    pub fn load_from(name: &str, found: ThemeFile) -> (r: Option<Theme>)
        ensures
            is_loaded(r, name@, found),
    {
        match found {
            ThemeFile::Parsed(t) => {
                let mut t: Theme = t;
                t.name = theme_name_of(name);
                Some(t)
            },
            ThemeFile::Bad => None,
            ThemeFile::Missing => if same(name, "breeze") {
                Some(breeze())
            } else {
                None
            },
        }
    }

    /// The theme `name`, from what stands at each place of its search path.
    pub fn load(name: &str, files: Vec<ThemeFile>) -> (r: Option<Theme>)
        ensures
            is_loaded(r, name@, first_found(files@)),
    {
        Theme::load_from(name, Theme::find_file(files))
    }
}

// ---- laws ----

/// In a table that has each key at most once, what is found under a key is the
/// value of the only pair with that key, and nothing is found only where no
/// pair has it.
pub proof fn law_only_entry(pairs: Seq<(String, String)>, k: Seq<char>)
    requires
        distinct_keys(pairs),
    ensures
        match lookup(pairs, k) {
            Some(v) => exists|i: int|
                0 <= i < pairs.len() && (#[trigger] pairs[i]).0@ == k && pairs[i].1@ == v
                    && forall|j: int| 0 <= j < pairs.len() && j != i ==> (#[trigger] pairs[j]).0@ != k,
            None => forall|j: int| 0 <= j < pairs.len() ==> (#[trigger] pairs[j]).0@ != k,
        },
    decreases pairs.len(),
{
    if pairs.len() > 0 {
        let rest = pairs.skip(1);
        if pairs[0].0@ == k {
            assert forall|j: int| 0 <= j < pairs.len() && j != 0 implies (#[trigger] pairs[j]).0@
                != k by {
                assert(pairs[0].0@ != pairs[j].0@);
            }
        } else {
            assert(distinct_keys(rest)) by {
                assert forall|i: int, j: int| 0 <= i < j < rest.len() implies (
                #[trigger] rest[i]).0@ != (#[trigger] rest[j]).0@ by {
                    assert(pairs[i + 1].0@ != pairs[j + 1].0@);
                }
            }
            law_only_entry(rest, k);
            if lookup(rest, k) is Some {
                let v = lookup(rest, k)->Some_0;
                let i = choose|i: int|
                    0 <= i < rest.len() && (#[trigger] rest[i]).0@ == k && rest[i].1@ == v
                        && forall|j: int|
                        0 <= j < rest.len() && j != i ==> (#[trigger] rest[j]).0@ != k;
                assert(pairs[i + 1] == rest[i]);
                assert forall|j: int| 0 <= j < pairs.len() && j != i + 1 implies (
                #[trigger] pairs[j]).0@ != k by {
                    if j > 0 {
                        assert(rest[j - 1] == pairs[j]);
                    }
                }
            } else {
                assert forall|j: int| 0 <= j < pairs.len() implies (#[trigger] pairs[j]).0@
                    != k by {
                    if j > 0 {
                        assert(rest[j - 1] == pairs[j]);
                    }
                }
            }
        }
    }
}

/// A theme of the user's wins over one of the system's with the same name.
pub proof fn law_user_theme_wins(r: Option<Theme>, name: Seq<char>, user: Theme, system: ThemeFile)
    requires
        is_loaded(r, name, first_found(seq![ThemeFile::Parsed(user), system])),
    ensures
        r is Some,
        is_renamed(r->Some_0, user, name),
{
}

/// A theme that only the system has is the system's.
pub proof fn law_system_theme_found(r: Option<Theme>, name: Seq<char>, system: Theme)
    requires
        is_loaded(
            r,
            name,
            first_found(seq![ThemeFile::Missing, ThemeFile::Parsed(system)]),
        ),
    ensures
        r is Some,
        is_renamed(r->Some_0, system, name),
{
    let files = seq![ThemeFile::Missing, ThemeFile::Parsed(system)];
    assert(files.skip(1)[0] == files[1]);
    reveal_with_fuel(first_found, 3);
}

/// A name that nothing stands for loads nothing; `breeze` always loads, and
/// with all its colors.
pub proof fn law_breeze_always_loads(r: Option<Theme>, name: Seq<char>)
    requires
        is_loaded(r, name, first_found(seq![ThemeFile::Missing, ThemeFile::Missing])),
    ensures
        r is Some <==> name == "breeze"@,
        r is Some ==> color_in(r->Some_0.background) == Some((0x23u8, 0x26u8, 0x27u8)),
        r is Some ==> color_in(r->Some_0.foreground) == Some((0xfcu8, 0xfcu8, 0xfcu8)),
        r is Some ==> color_in(r->Some_0.cursor_color) == Some((0xefu8, 0xf0u8, 0xf1u8)),
        r is Some ==> r->Some_0.has_palette(),
{
    let files = seq![ThemeFile::Missing, ThemeFile::Missing];
    assert(files.skip(1).skip(1) =~= seq![]);
    assert(files.skip(1)[0] == files[1]);
    reveal_with_fuel(first_found, 3);
    lemma_breeze_colors();
    if r is Some {
        let t = r->Some_0;
        let v = t.palette->Some_0->List_0;
        assert(v@.map_values(|s: String| s@).len() == 16);
        assert forall|i: nat| i < 16 implies (#[trigger] t.palette->Some_0.color(i)) is Some by {
            assert(v@.map_values(|s: String| s@)[i as int] == v@[i as int]@);
            assert(hex_color(breeze_palette()[i as int]) is Some);
        }
    }
}

proof fn lemma_breeze_colors()
    ensures
        hex_color("#232627"@) == Some((0x23u8, 0x26u8, 0x27u8)),
        hex_color("#fcfcfc"@) == Some((0xfcu8, 0xfcu8, 0xfcu8)),
        hex_color("#eff0f1"@) == Some((0xefu8, 0xf0u8, 0xf1u8)),
        forall|i: int| 0 <= i < 16 ==> hex_color(#[trigger] breeze_palette()[i]) is Some,
{
    reveal_strlit("#11d116");
    reveal_strlit("#16a085");
    reveal_strlit("#1abc9c");
    reveal_strlit("#1cdc9a");
    reveal_strlit("#1d99f3");
    reveal_strlit("#232627");
    reveal_strlit("#3daee9");
    reveal_strlit("#7f8c8d");
    reveal_strlit("#8e44ad");
    reveal_strlit("#9b59b6");
    reveal_strlit("#c0392b");
    reveal_strlit("#ed1515");
    reveal_strlit("#eff0f1");
    reveal_strlit("#f67400");
    reveal_strlit("#fcfcfc");
    reveal_strlit("#fdbc4b");
    reveal_strlit("#ffffff");
}

} // verus!
