//! What the colors and the names of themes stand for.
use vstd::prelude::*;
use crate::color::Rgb;
use crate::theme::Palette;
use crate::theme::Theme;
use crate::theme::ThemeFile;

verus! {

/// The hexadecimal digit of a value, as a capital or a small letter.
pub open spec fn hex_char(d: int, capital: bool) -> char {
    if d < 10 {
        (48 + d) as u8 as char
    } else if capital {
        (55 + d) as u8 as char
    } else {
        (87 + d) as u8 as char
    }
}

/// A color written as six hexadecimal digits, each as a capital or a small letter
/// as `capital` says, with or without a hash sign.
pub open spec fn hex_text(c: Rgb, hash: bool, capital: Seq<bool>) -> Seq<char> {
    let digits = seq![
        hex_char(c.0 as int / 16, capital[0]),
        hex_char(c.0 as int % 16, capital[1]),
        hex_char(c.1 as int / 16, capital[2]),
        hex_char(c.1 as int % 16, capital[3]),
        hex_char(c.2 as int / 16, capital[4]),
        hex_char(c.2 as int % 16, capital[5]),
    ];
    if hash {
        seq!['#'] + digits
    } else {
        digits
    }
}

/// Every color is read back as it was written, with a hash sign or without, in
/// capitals or small letters.
pub proof fn law_colors_read_back(c: Rgb, hash: bool, capital: Seq<bool>)
    ensures
        crate::theme::hex_color(hex_text(c, hash, capital)) == Some(c),
{
    let s = hex_text(c, hash, capital);
    let h = crate::theme::hex_digits(s);
    if hash {
        assert(s[0] == '#');
        assert(h =~= s.skip(1));
    } else {
        assert(s[0] != '#');
    }
    assert(h.len() == 6);
    lemma_hex_char(c.0 as int / 16, capital[0]);
    lemma_hex_char(c.0 as int % 16, capital[1]);
    lemma_hex_char(c.1 as int / 16, capital[2]);
    lemma_hex_char(c.1 as int % 16, capital[3]);
    lemma_hex_char(c.2 as int / 16, capital[4]);
    lemma_hex_char(c.2 as int % 16, capital[5]);
    assert(h[0] == hex_char(c.0 as int / 16, capital[0]));
    assert(h[1] == hex_char(c.0 as int % 16, capital[1]));
    assert(h[2] == hex_char(c.1 as int / 16, capital[2]));
    assert(h[3] == hex_char(c.1 as int % 16, capital[3]));
    assert(h[4] == hex_char(c.2 as int / 16, capital[4]));
    assert(h[5] == hex_char(c.2 as int % 16, capital[5]));
    assert forall|i: int| 0 <= i < 6 implies crate::theme::hex_digit(#[trigger] h[i]) is Some by {
        assert(i == 0 || i == 1 || i == 2 || i == 3 || i == 4 || i == 5);
    }
}

proof fn lemma_hex_char(d: int, capital: bool)
    requires
        0 <= d < 16,
    ensures
        crate::theme::hex_digit(hex_char(d, capital)) == Some(d),
        hex_char(d, capital) != '#',
{
}

/// Nothing but such a text is a color.
pub proof fn law_only_such_texts_are_colors(s: Seq<char>)
    requires
        crate::theme::hex_color(s) is Some,
    ensures
        exists|hash: bool, capital: Seq<bool>| #[trigger]
            hex_text(crate::theme::hex_color(s)->Some_0, hash, capital) == s,
{
    let c = crate::theme::hex_color(s)->Some_0;
    let h = crate::theme::hex_digits(s);
    let hash = s.len() > 0 && s[0] == '#';
    let up = |i: int| 'A' <= h[i] <= 'F';
    let capital = seq![up(0), up(1), up(2), up(3), up(4), up(5)];
    assert(crate::theme::hex_digit(h[0]) is Some && crate::theme::hex_digit(h[1]) is Some);
    assert(crate::theme::hex_digit(h[2]) is Some && crate::theme::hex_digit(h[3]) is Some);
    assert(crate::theme::hex_digit(h[4]) is Some && crate::theme::hex_digit(h[5]) is Some);
    lemma_digit_of(h[0]);
    lemma_digit_of(h[1]);
    lemma_digit_of(h[2]);
    lemma_digit_of(h[3]);
    lemma_digit_of(h[4]);
    lemma_digit_of(h[5]);
    assert(hex_text(c, hash, capital) =~= s);
}

proof fn lemma_digit_of(c: char)
    requires
        crate::theme::hex_digit(c) is Some,
    ensures
        0 <= crate::theme::hex_digit(c)->Some_0 < 16,
        hex_char(crate::theme::hex_digit(c)->Some_0, 'A' <= c <= 'F') == c,
{
}

/// A theme's name is that of its file, without directories and without `.toml`.
pub proof fn law_theme_names(dir: Seq<char>, name: Seq<char>)
    requires
        !name.contains('/'),
        dir.len() > 0,
        dir.last() == '/',
    ensures
        crate::theme::theme_name(dir + name) == crate::theme::theme_name(name),
        crate::theme::theme_name(name + ".toml"@) == name,
        !crate::text::ends_with(name, ".toml"@) ==> crate::theme::theme_name(name) == name,
{
    reveal_strlit(".toml");
    crate::config_laws::lemma_base_name(dir, name);
    lemma_no_directory(name);
    let file = name + ".toml"@;
    assert forall|i: int| 0 <= i < file.len() implies file[i] != '/' by {
        if i < name.len() {
            assert(name.contains(name[i]));
        }
    }
    lemma_no_directory(file);
    assert(file.skip(file.len() - 5) =~= ".toml"@);
    assert(file.take(file.len() - 5) =~= name);
}

proof fn lemma_no_directory(name: Seq<char>)
    requires
        !name.contains('/'),
    ensures
        crate::theme::base_name(name) == name,
    decreases name.len(),
{
    if name.len() > 0 {
        assert(name.contains(name.last()));
        assert forall|i: int| 0 <= i < name.drop_last().len() implies name.drop_last()[i]
            != '/' by {
            assert(name.contains(name[i]));
        }
        lemma_no_directory(name.drop_last());
        assert(name.drop_last().push(name.last()) =~= name);
    }
}

/// A theme that goes by a plain name is looked for as a file of that name and
/// `.toml`, first among the user's themes and then among the system's; one that
/// goes by a path only there, a leading `~/` being the home directory.
pub proof fn law_where_themes_are(
    name: Seq<char>,
    home: Seq<char>,
    rest: Seq<char>,
    user_dir: Seq<char>,
    system_dir: Seq<char>,
)
    requires
        user_dir.len() > 0,
        system_dir.len() > 0,
    ensures
        !name.contains('/') && !crate::text::ends_with(name, ".toml"@) ==> {
            let p = crate::theme::search_paths(name, Some(home), user_dir, system_dir);
            &&& p.len() == 2
            &&& crate::theme::base_name(p[0]) == name + ".toml"@
            &&& crate::theme::base_name(p[1]) == name + ".toml"@
            &&& crate::text::begins_with(p[0], user_dir)
            &&& crate::text::begins_with(p[1], system_dir)
        },
        crate::theme::search_paths("~/"@ + rest, Some(home), user_dir, system_dir) == seq![
            crate::config::joined(home, rest),
        ],
        name.contains('/') && name[0] != '~' ==> crate::theme::search_paths(
            name,
            Some(home),
            user_dir,
            system_dir,
        ) == seq![name],
        name.contains('/') ==> crate::theme::search_paths(name, None, user_dir, system_dir) == seq![
            name,
        ],
{
    reveal_strlit(".toml");
    reveal_strlit("~/");
    let file = name + ".toml"@;
    if !name.contains('/') {
        assert forall|i: int| 0 <= i < file.len() implies file[i] != '/' by {
            if i < name.len() {
                assert(name.contains(name[i]));
            }
        }
        crate::config_laws::law_names_in_directories(user_dir, file);
        crate::config_laws::law_names_in_directories(system_dir, file);
    }
    let path = "~/"@ + rest;
    assert(path[1] == '/');
    assert(path.contains('/'));
    assert(path.take(2) =~= "~/"@);
    assert(path.skip(2) =~= rest);
    if name.contains('/') && name[0] != '~' {
        if crate::text::begins_with(name, "~/"@) {
            assert(name.take(2)[0] == '~');
        }
    }
}

/// What is found is the first file of the search path that is there, a bad one
/// too; nothing is found only where no file is there.
pub proof fn law_first_file(files: Seq<ThemeFile>, i: int)
    requires
        0 <= i < files.len(),
        !(files[i] is Missing),
        forall|j: int| 0 <= j < i ==> (#[trigger] files[j]) is Missing,
    ensures
        crate::theme::first_found(files) == files[i],
    decreases files.len(),
{
    if i > 0 {
        assert(files[0] is Missing);
        let rest = files.skip(1);
        assert(rest[i - 1] == files[i]);
        assert forall|j: int| 0 <= j < i - 1 implies (#[trigger] rest[j]) is Missing by {
            assert(rest[j] == files[j + 1]);
        }
        law_first_file(rest, i - 1);
    }
}

/// The ANSI colors of the theme that needs no file.
pub open spec fn breeze_colors() -> Seq<Rgb> {
    seq![
        (0x23u8, 0x26u8, 0x27u8),
        (0xedu8, 0x15u8, 0x15u8),
        (0x11u8, 0xd1u8, 0x16u8),
        (0xf6u8, 0x74u8, 0x00u8),
        (0x1du8, 0x99u8, 0xf3u8),
        (0x9bu8, 0x59u8, 0xb6u8),
        (0x1au8, 0xbcu8, 0x9cu8),
        (0xfcu8, 0xfcu8, 0xfcu8),
        (0x7fu8, 0x8cu8, 0x8du8),
        (0xc0u8, 0x39u8, 0x2bu8),
        (0x1cu8, 0xdcu8, 0x9au8),
        (0xfdu8, 0xbcu8, 0x4bu8),
        (0x3du8, 0xaeu8, 0xe9u8),
        (0x8eu8, 0x44u8, 0xadu8),
        (0x16u8, 0xa0u8, 0x85u8),
        (0xffu8, 0xffu8, 0xffu8),
    ]
}

/// The theme that needs no file has its 16 colors.
pub proof fn law_breeze_colors(t: Theme, i: int)
    requires
        crate::theme::is_breeze(t),
        0 <= i < 16,
    ensures
        t.palette matches Some(p) && p.color(i as nat) == Some(breeze_colors()[i]),
{
    let v = t.palette->Some_0->List_0;
    let texts = v@.map_values(|s: String| s@);
    assert(texts == crate::theme::breeze_palette());
    assert(texts.len() == 16 && v@.len() == 16);
    assert(texts[i] == v@[i]@);
    reveal_strlit("#232627");
    reveal_strlit("#ed1515");
    reveal_strlit("#11d116");
    reveal_strlit("#f67400");
    reveal_strlit("#1d99f3");
    reveal_strlit("#9b59b6");
    reveal_strlit("#1abc9c");
    reveal_strlit("#fcfcfc");
    reveal_strlit("#7f8c8d");
    reveal_strlit("#c0392b");
    reveal_strlit("#1cdc9a");
    reveal_strlit("#fdbc4b");
    reveal_strlit("#3daee9");
    reveal_strlit("#8e44ad");
    reveal_strlit("#16a085");
    reveal_strlit("#ffffff");
    assert(crate::theme::hex_color("#232627"@) == Some(breeze_colors()[0]));
    assert(crate::theme::hex_color("#ed1515"@) == Some(breeze_colors()[1]));
    assert(crate::theme::hex_color("#11d116"@) == Some(breeze_colors()[2]));
    assert(crate::theme::hex_color("#f67400"@) == Some(breeze_colors()[3]));
    assert(crate::theme::hex_color("#1d99f3"@) == Some(breeze_colors()[4]));
    assert(crate::theme::hex_color("#9b59b6"@) == Some(breeze_colors()[5]));
    assert(crate::theme::hex_color("#1abc9c"@) == Some(breeze_colors()[6]));
    assert(crate::theme::hex_color("#fcfcfc"@) == Some(breeze_colors()[7]));
    assert(crate::theme::hex_color("#7f8c8d"@) == Some(breeze_colors()[8]));
    assert(crate::theme::hex_color("#c0392b"@) == Some(breeze_colors()[9]));
    assert(crate::theme::hex_color("#1cdc9a"@) == Some(breeze_colors()[10]));
    assert(crate::theme::hex_color("#fdbc4b"@) == Some(breeze_colors()[11]));
    assert(crate::theme::hex_color("#3daee9"@) == Some(breeze_colors()[12]));
    assert(crate::theme::hex_color("#8e44ad"@) == Some(breeze_colors()[13]));
    assert(crate::theme::hex_color("#16a085"@) == Some(breeze_colors()[14]));
    assert(crate::theme::hex_color("#ffffff"@) == Some(breeze_colors()[15]));
    assert(i == 0 || i == 1 || i == 2 || i == 3 || i == 4 || i == 5 || i == 6 || i == 7 || i == 8 || i == 9 || i == 10 || i == 11 || i == 12 || i == 13 || i == 14 || i == 15);
}

/// A list gives its colors by position, a table by the decimal number alone: the
/// order of its pairs does not matter.
pub proof fn law_palette_entries(v: Vec<String>, m: Vec<(String, String)>, i: nat, k: int)
    requires
        crate::theme::distinct_keys(m@),
    ensures
        i < v@.len() ==> Palette::List(v).entry(i) == Some(v@[i as int]@),
        i >= v@.len() ==> Palette::List(v).entry(i) is None,
        0 <= k < m@.len() && m@[k].0@ == crate::text::decimal(i) ==> Palette::Table(m).entry(i)
            == Some(m@[k].1@),
        (forall|j: int| 0 <= j < m@.len() ==> (#[trigger] m@[j]).0@ != crate::text::decimal(i))
            ==> Palette::Table(m).entry(i) is None,
{
    let key = crate::text::decimal(i);
    crate::theme::law_only_entry(m@, key);
    if 0 <= k < m@.len() && m@[k].0@ == key {
        match crate::theme::lookup(m@, key) {
            Some(x) => {
                let q = choose|q: int|
                    0 <= q < m@.len() && (#[trigger] m@[q]).0@ == key && m@[q].1@ == x
                        && forall|j: int|
                        0 <= j < m@.len() && j != q ==> (#[trigger] m@[j]).0@ != key;
                assert(q == k);
            },
            None => {},
        }
    }
}

/// A theme from a file has every color that the file gives, and its own name; a bad
/// file is no theme, whatever it is called.
pub proof fn law_loaded_as_written(r: Option<Theme>, name: Seq<char>, t: Theme)
    ensures
        crate::theme::is_loaded(r, name, ThemeFile::Parsed(t)) ==> (r matches Some(u) && {
            &&& u.name@ == crate::theme::theme_name(name)
            &&& u.background == t.background && u.foreground == t.foreground
            &&& u.cursor_color == t.cursor_color && u.palette == t.palette
            &&& u.selection_background == t.selection_background
            &&& u.selection_foreground == t.selection_foreground && u.cursor_text
                == t.cursor_text
        }),
        crate::theme::is_loaded(r, name, ThemeFile::Bad) ==> r is None,
        crate::theme::is_loaded(r, name, ThemeFile::Missing) && r is Some ==> name == "breeze"@,
{
}

} // verus!
