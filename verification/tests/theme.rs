use deptty::color::{scheme, scheme_for, DARK_COLORS, LIGHT_COLORS};
use deptty::config::{parse_hex, Palette, Theme, SYSTEM_THEMES_DIR};
use deptty::theme::{themes_dir, ThemeFile};

/// The theme that a file's text holds.
fn parse(source: &str) -> Option<Theme> {
    let t: toml::Table = source.parse().ok()?;
    let text = |k: &str| t.get(k).and_then(|v| v.as_str()).map(|s| s.to_string());
    let palette = match t.get("palette") {
        Some(toml::Value::Array(a)) => Some(Palette::List(
            a.iter().map(|v| v.as_str().unwrap().to_string()).collect(),
        )),
        Some(toml::Value::Table(m)) => Palette::from_pairs(
            m.iter()
                .map(|(k, v)| (k.clone(), v.as_str().unwrap().to_string()))
                .collect(),
        ),
        _ => None,
    };
    Some(Theme {
        name: String::new(),
        background: text("background"),
        foreground: text("foreground"),
        cursor_color: text("cursor-color"),
        palette,
        selection_background: text("selection-background"),
        selection_foreground: text("selection-foreground"),
        cursor_text: text("cursor-text"),
    })
}

/// Load a theme where the given files exist.
fn load_from(name: &str, files: &[(&str, &str)]) -> Option<Theme> {
    let found = Theme::search_path(name, Some("/home/me"), "/user", "/system")
        .iter()
        .map(|p| match files.iter().find(|(f, _)| f == p) {
            Some((_, text)) => match parse(text) {
                Some(t) => ThemeFile::Parsed(t),
                None => ThemeFile::Bad,
            },
            None => ThemeFile::Missing,
        })
        .collect();
    Theme::load(name, found)
}

fn theme_text(bg: &str) -> String {
    format!("background = \"{bg}\"\nforeground = \"#fcfcfc\"\n")
}

#[test]
fn theme_user_overrides_system() {
    let t = load_from(
        "x",
        &[
            ("/system/x.toml", &theme_text("#010101")),
            ("/user/x.toml", &theme_text("#020202")),
        ],
    )
    .unwrap();
    assert_eq!(t.bg(), Some((2, 2, 2)));
}

#[test]
fn theme_system_only_and_unknown() {
    let files = [("/system/x.toml", &*theme_text("#010101"))];
    let t = load_from("x", &files).unwrap();
    assert_eq!(t.bg(), Some((1, 1, 1)));
    assert!(load_from("nope", &files).is_none());
}

#[test]
fn theme_breeze_builtin_always_resolves() {
    let t = load_from("breeze", &[]).unwrap();
    assert_eq!(t.bg(), Some((0x23, 0x26, 0x27)));
    assert_eq!(t.fg(), Some((0xfc, 0xfc, 0xfc)));
    let p = t.palette16().unwrap();
    assert_eq!(p[1], (0xed, 0x15, 0x15));
    assert_eq!(p[8], (0x7f, 0x8c, 0x8d));
    assert_eq!(t.cursor(), Some((0xef, 0xf0, 0xf1)));
    assert_eq!(t.name, "<builtin>");
}

#[test]
fn theme_palette_forms_and_hex() {
    assert_eq!(parse_hex("#23A6b7"), Some((0x23, 0xa6, 0xb7)));
    assert_eq!(parse_hex("ffffff"), Some((0xff, 0xff, 0xff)));
    assert_eq!(parse_hex("#fff"), None);
    assert_eq!(parse_hex("nope"), None);
    // array form (all 16)
    let t: Theme = parse(
        "palette = [\"#010203\", \"#040506\", \"#000000\", \"#000000\", \"#000000\", \"#000000\", \"#000000\", \"#000000\", \"#000000\", \"#000000\", \"#000000\", \"#000000\", \"#000000\", \"#000000\", \"#000000\", \"#000000\"]",
    )
    .unwrap();
    assert_eq!(
        t.palette16().map(|p| (p[0], p[1])),
        Some(((1, 2, 3), (4, 5, 6)))
    );
    // table form (all 16)
    let t: Theme = parse(
        "palette = { 1 = \"#040506\", 0 = \"#010203\", 2 = \"#000000\", 3 = \"#000000\", 4 = \"#000000\", 5 = \"#000000\", 6 = \"#000000\", 7 = \"#000000\", 8 = \"#000000\", 9 = \"#000000\", 10 = \"#000000\", 11 = \"#000000\", 12 = \"#000000\", 13 = \"#000000\", 14 = \"#000000\", 15 = \"#000000\" }",
    )
    .unwrap();
    assert_eq!(
        t.palette16().map(|p| (p[0], p[1])),
        Some(((1, 2, 3), (4, 5, 6)))
    );
}

#[test]
fn hex_colors_are_six_digits_and_nothing_else() {
    assert_eq!(parse_hex("#0a0B0c"), Some((10, 11, 12)));
    for bad in ["", "#", "12345", "1234567", "##123456", " 123456", "123456 ", "+12345", "#12345g", "é12345"] {
        assert_eq!(parse_hex(bad), None, "{bad:?}");
    }
}

#[test]
fn a_palette_counts_only_with_all_sixteen() {
    let mut list: Vec<String> = vec!["#102030".to_string(); 15];
    let with = |l: &[String]| Theme {
        palette: Some(Palette::List(l.to_vec())),
        ..Theme::default()
    };
    assert_eq!(with(&list).palette16(), None);
    list.push("#zzzzzz".to_string());
    assert_eq!(with(&list).palette16(), None);
    list[15] = "aabbcc".to_string();
    let p = with(&list).palette16().unwrap();
    assert_eq!(p[14], (0x10, 0x20, 0x30));
    assert_eq!(p[15], (0xaa, 0xbb, 0xcc));
    list.push("ignored".to_string());
    assert!(with(&list).palette16().is_some());
    assert_eq!(Theme::default().palette16(), None);
}

#[test]
fn palette_entries() {
    let t = Palette::Table(vec![
        ("10".to_string(), "#aaaaaa".to_string()),
        ("1".to_string(), "#bbbbbb".to_string()),
    ]);
    assert_eq!(t.get(1), Some("#bbbbbb"));
    assert_eq!(t.get(10), Some("#aaaaaa"));
    assert_eq!(t.get(0), None);
}

#[test]
fn a_table_has_each_key_once() {
    let pair = |k: &str, v: &str| (k.to_string(), v.to_string());
    assert!(Palette::from_pairs(vec![pair("0", "a"), pair("1", "b"), pair("0", "c")]).is_none());
    let p = Palette::from_pairs(vec![pair("0", "a"), pair("1", "b")]).unwrap();
    assert_eq!((p.get(0), p.get(1), p.get(2)), (Some("a"), Some("b"), None));
}

#[test]
fn search_path() {
    let path = |name: &str| Theme::search_path(name, Some("/home/me"), "/user", "/system");
    assert_eq!(path("nord"), ["/user/nord.toml", "/system/nord.toml"]);
    assert_eq!(path("my.theme"), ["/user/my.theme.toml", "/system/my.theme.toml"]);
    assert_eq!(path("x.toml"), ["x.toml"]);
    assert_eq!(path("/a/b"), ["/a/b"]);
    assert_eq!(path("~/t/g.toml"), ["/home/me/t/g.toml"]);
    assert_eq!(Theme::search_path("~/g.toml", None, "/u", "/s"), ["~/g.toml"]);
    assert_eq!(themes_dir("/home/me/.config/deptty"), "/home/me/.config/deptty/themes");
    assert_eq!(SYSTEM_THEMES_DIR, "/usr/share/deptty/themes");
}

#[test]
fn themes_are_named_after_their_files() {
    let t = load_from("/a/dark.toml", &[("/a/dark.toml", &theme_text("#000000"))]).unwrap();
    assert_eq!(t.name, "dark");
    let t = load_from("x", &[("/user/x.toml", &theme_text("#000000"))]).unwrap();
    assert_eq!(t.name, "x");
}

#[test]
fn a_bad_file_is_no_theme() {
    assert!(load_from("breeze", &[("/user/breeze.toml", "background = ")]).is_none());
    assert!(load_from("/no/such.toml", &[]).is_none());
    let own = load_from("breeze", &[("/user/breeze.toml", &theme_text("#123456"))]).unwrap();
    assert_eq!(own.bg(), Some((0x12, 0x34, 0x56)));
}

#[test]
fn default_schemes() {
    let dark = scheme((37, 37, 37));
    assert!(dark.dark);
    assert_eq!(dark.fg, (0, 205, 0));
    assert_eq!(dark.bg, (37, 37, 37));
    assert_eq!(dark.colors, DARK_COLORS);
    assert_eq!(dark.cursor, (255, 255, 255));
    let light = scheme((248, 248, 248));
    assert!(!light.dark);
    assert_eq!(light.fg, (0, 0, 0));
    assert_eq!(light.bg, (248, 248, 248));
    assert_eq!(light.colors, LIGHT_COLORS);
    // luminance 128 counts as light, 127 as dark
    assert!(!scheme((128, 128, 128)).dark);
    assert!(scheme((127, 127, 127)).dark);
}

#[test]
fn a_theme_sets_the_scheme() {
    let breeze = load_from("breeze", &[]).unwrap();
    let s = scheme_for((248, 248, 248), Some(&breeze));
    assert!(s.dark);
    assert_eq!(s.bg, (0x23, 0x26, 0x27));
    assert_eq!(s.fg, (0xfc, 0xfc, 0xfc));
    assert_eq!(s.cursor, (0xef, 0xf0, 0xf1));
    assert_eq!(s.colors[15], (255, 255, 255));
    // what a theme leaves out stays as it was, an incomplete palette too
    let t = Theme {
        background: Some("#ffffff".to_string()),
        palette: Some(Palette::List(vec!["#000000".to_string()])),
        ..Theme::default()
    };
    let s = scheme_for((0, 0, 0), Some(&t));
    assert!(!s.dark);
    assert_eq!(s.bg, (255, 255, 255));
    assert_eq!(s.fg, (0, 205, 0));
    assert_eq!(s.cursor, (0, 0, 0));
    assert_eq!(s.colors, DARK_COLORS);
    assert_eq!(scheme_for((0, 0, 0), None).colors, DARK_COLORS);
}

#[test]
fn a_theme_that_sets_nothing_changes_nothing() {
    for window in [(0, 0, 0), (250, 250, 250)] {
        let (a, b) = (scheme(window), scheme_for(window, Some(&Theme::default())));
        assert_eq!((a.dark, a.fg, a.bg, a.cursor, a.colors), (b.dark, b.fg, b.bg, b.cursor, b.colors));
    }
}
