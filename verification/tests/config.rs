use deptty::config::{
    config_dir, default_key_bindings, Action, Config, ConfigFile, CursorShape, KeyBinding,
    RawBinding, RawConfig,
};
use deptty::match_action;
use deptty::qt::{key, modifier};

fn text(t: &toml::Table, k: &str) -> Option<String> {
    t.get(k).and_then(|v| v.as_str()).map(|s| s.to_string())
}

/// The options that a configuration file's text sets.
fn parsed(source: &str) -> ConfigFile {
    let t: toml::Table = match source.parse() {
        Ok(t) => t,
        Err(_) => return ConfigFile::Bad,
    };
    let mut key_bindings = Vec::new();
    if let Some(list) = t.get("key_bindings").and_then(|v| v.as_array()) {
        for b in list {
            let b = b.as_table().unwrap();
            key_bindings.push(RawBinding {
                key: text(b, "key").unwrap(),
                mods: text(b, "mods"),
                action: text(b, "action").unwrap(),
            });
        }
    }
    ConfigFile::Parsed(RawConfig {
        font_size: t.get("font_size").and_then(|v| v.as_integer()).map(|n| n as i32),
        scrollback: t.get("scrollback").and_then(|v| v.as_integer()).map(|n| n as usize),
        shell: text(&t, "shell"),
        font_family: text(&t, "font_family"),
        key_bindings,
        cursor_shape: text(&t, "cursor_shape"),
        theme: text(&t, "theme"),
    })
}

#[test]
fn cursor_shape_defaults_to_block() {
    let cfg = Config::load(parsed(""));
    assert_eq!(cfg.cursor_shape, CursorShape::Block);
    let cfg = Config::load(parsed("cursor_shape = \"beam\""));
    assert_eq!(cfg.cursor_shape, CursorShape::Beam);
    let cfg = Config::load(parsed("cursor_shape = \"underline\""));
    assert_eq!(cfg.cursor_shape, CursorShape::Underline);
    assert_eq!(CursorShape::default(), CursorShape::Block);
}

#[test]
fn theme_key_parses() {
    let cfg = Config::load(parsed("theme = \"breeze\""));
    assert_eq!(cfg.theme.as_deref(), Some("breeze"));
    let cfg = Config::load(parsed(""));
    assert_eq!(cfg.theme, None);
}

#[test]
fn pane_navigation_bindings_present() {
    let cfg = Config::default();
    let has = |key: &str, mods: &str, action: Action| {
        cfg.key_bindings
            .iter()
            .any(|b| b.key == key && b.mods == mods && b.action == action)
    };
    assert!(has("Tab", "Ctrl", Action::NextPane));
    assert!(has("Backtab", "Ctrl+Shift", Action::PrevPane));
    assert!(has("Up", "Ctrl+Shift", Action::FocusPaneUp));
    assert!(has("Down", "Ctrl+Shift", Action::FocusPaneDown));
    assert!(has("Left", "Ctrl+Shift", Action::FocusPaneLeft));
    assert!(has("Right", "Ctrl+Shift", Action::FocusPaneRight));
    assert!(has("Left", "Shift", Action::PrevTab));
    assert!(has("Right", "Shift", Action::NextTab));
    assert!(cfg.key_bindings.iter().all(|b| b.mods != "Alt"));
}

#[test]
fn pane_key_matching() {
    let cfg = Config::default();
    assert_eq!(
        match_action(&cfg, key::TAB, modifier::CONTROL),
        Some(Action::NextPane)
    );
    assert_eq!(
        match_action(&cfg, key::BACKTAB, modifier::CONTROL | modifier::SHIFT),
        Some(Action::PrevPane)
    );
    assert_eq!(match_action(&cfg, key::TAB, 0), None);
    assert_eq!(match_action(&cfg, key::BACKTAB, modifier::SHIFT), None);
}

#[test]
fn every_default_binding_answers() {
    let cfg = Config::default();
    assert_eq!(cfg.key_bindings.len(), 14);
    for b in default_key_bindings() {
        let code = b.key_code().unwrap();
        assert_eq!(match_action(&cfg, code, b.mod_mask()), Some(b.action));
    }
    let both = modifier::CONTROL | modifier::SHIFT;
    assert_eq!(match_action(&cfg, 'C' as i32, both), Some(Action::Copy));
    assert_eq!(match_action(&cfg, '(' as i32, both), Some(Action::SplitVertical));
    assert_eq!(match_action(&cfg, ')' as i32, both), Some(Action::SplitHorizontal));
}

#[test]
fn modifiers_outside_the_mask_do_not_count() {
    let cfg = Config::default();
    let keypad = 0x2000_0000;
    assert_eq!(
        match_action(&cfg, key::LEFT, modifier::SHIFT | keypad),
        Some(Action::PrevTab)
    );
    assert_eq!(match_action(&cfg, key::LEFT, modifier::SHIFT | modifier::ALT), None);
}

#[test]
fn defaults() {
    let cfg = Config::default();
    assert_eq!(cfg.font_size, 12);
    assert_eq!(cfg.scrollback, 10_000);
    assert_eq!(cfg.shell, None);
    assert_eq!(cfg.font_family, None);
    assert_eq!(cfg.theme, None);
}

#[test]
fn a_file_sets_what_it_names() {
    let cfg = Config::load(parsed(
        "font_family = \"Fira Code\"\nfont_size = 13\nscrollback = 20000\nshell = \"/bin/zsh\"\nunknown = 1\n",
    ));
    assert_eq!(cfg.font_family.as_deref(), Some("Fira Code"));
    assert_eq!(cfg.font_size, 13);
    assert_eq!(cfg.scrollback, 20000);
    assert_eq!(cfg.shell.as_deref(), Some("/bin/zsh"));
    assert_eq!(cfg.cursor_shape, CursorShape::Block);
    assert_eq!(cfg.key_bindings.len(), 14);
}

#[test]
fn missing_and_bad_files_give_defaults() {
    for file in [
        ConfigFile::Missing,
        ConfigFile::Bad,
        parsed("font_size = "),
        parsed("font_size = 30\ncursor_shape = \"round\""),
        parsed("font_size = 30\n[[key_bindings]]\nkey = \"T\"\naction = \"fly\""),
    ] {
        let cfg = Config::load(file);
        assert_eq!(cfg.font_size, 12);
        assert_eq!(cfg.cursor_shape, CursorShape::Block);
        assert_eq!(cfg.key_bindings.len(), 14);
    }
}

#[test]
fn user_bindings_come_first_and_defaults_stay() {
    let cfg = Config::load(parsed(
        "[[key_bindings]]\nkey = \"t\"\nmods = \"Shift+Ctrl\"\naction = \"close_workspace\"\n\
         [[key_bindings]]\nkey = \"1\"\nmods = \"Alt\"\naction = \"prev_tab\"\n\
         [[key_bindings]]\nkey = \"PageUp\"\naction = \"next_pane\"\n",
    ));
    let both = modifier::CONTROL | modifier::SHIFT;
    assert_eq!(match_action(&cfg, 'T' as i32, both), Some(Action::CloseWorkspace));
    assert_eq!(match_action(&cfg, '1' as i32, modifier::ALT), Some(Action::PrevTab));
    assert_eq!(match_action(&cfg, key::PAGE_UP, 0), Some(Action::NextPane));
    assert_eq!(match_action(&cfg, 'C' as i32, both), Some(Action::Copy));
    assert_eq!(cfg.key_bindings.len(), 17);
}

#[test]
fn the_first_of_two_user_bindings_wins() {
    let cfg = Config::load(parsed(
        "[[key_bindings]]\nkey = \"x\"\nmods = \"Alt\"\naction = \"copy\"\n\
         [[key_bindings]]\nkey = \"X\"\nmods = \"alt\"\naction = \"paste\"\n",
    ));
    assert_eq!(match_action(&cfg, 'X' as i32, modifier::ALT), Some(Action::Copy));
}

fn binding(key: &str, mods: &str) -> KeyBinding {
    KeyBinding {
        key: key.to_string(),
        mods: mods.to_string(),
        action: Action::Copy,
    }
}

#[test]
fn key_names() {
    let code = |s: &str| binding(s, "").key_code();
    assert_eq!(code("t"), Some('T' as i32));
    assert_eq!(code("T"), Some('T' as i32));
    assert_eq!(code(";"), Some(';' as i32));
    assert_eq!(code("é"), Some('é' as i32));
    assert_eq!(code("Esc"), Some(key::ESCAPE));
    assert_eq!(code("ESCAPE"), Some(key::ESCAPE));
    assert_eq!(code("tab"), Some(key::TAB));
    assert_eq!(code("BackTab"), Some(key::BACKTAB));
    assert_eq!(code("Backspace"), Some(key::BACKSPACE));
    assert_eq!(code("Return"), Some(key::RETURN));
    assert_eq!(code("Enter"), Some(key::RETURN));
    assert_eq!(code("Left"), Some(key::LEFT));
    assert_eq!(code("Right"), Some(key::RIGHT));
    assert_eq!(code("Up"), Some(key::UP));
    assert_eq!(code("Down"), Some(key::DOWN));
    assert_eq!(code("Home"), Some(key::HOME));
    assert_eq!(code("End"), Some(key::END));
    assert_eq!(code("Delete"), Some(key::DELETE));
    assert_eq!(code("Insert"), Some(key::INSERT));
    assert_eq!(code("PageUp"), Some(key::PAGE_UP));
    assert_eq!(code("pagedown"), Some(key::PAGE_DOWN));
    assert_eq!(code("F5"), None);
    assert_eq!(code(""), None);
}

#[test]
fn modifier_names() {
    let mask = |s: &str| binding("T", s).mod_mask();
    assert_eq!(mask(""), 0);
    assert_eq!(mask("Ctrl"), modifier::CONTROL);
    assert_eq!(mask("control"), modifier::CONTROL);
    assert_eq!(mask("Ctrl+Shift"), modifier::CONTROL | modifier::SHIFT);
    assert_eq!(mask("shift + CTRL"), modifier::CONTROL | modifier::SHIFT);
    assert_eq!(mask("Alt+Alt+Alt"), modifier::ALT);
    assert_eq!(mask("Ctrl+Super+Alt"), modifier::CONTROL | modifier::ALT);
    assert_eq!(modifier::MASK, modifier::CONTROL | modifier::SHIFT | modifier::ALT);
}

#[test]
fn action_names() {
    let all = [
        ("copy", Action::Copy),
        ("paste", Action::Paste),
        ("new_tab", Action::NewTab),
        ("close_tab", Action::CloseTab),
        ("close_workspace", Action::CloseWorkspace),
        ("next_tab", Action::NextTab),
        ("prev_tab", Action::PrevTab),
        ("split_horizontal", Action::SplitHorizontal),
        ("split_vertical", Action::SplitVertical),
        ("next_pane", Action::NextPane),
        ("prev_pane", Action::PrevPane),
        ("focus_pane_up", Action::FocusPaneUp),
        ("focus_pane_down", Action::FocusPaneDown),
        ("focus_pane_left", Action::FocusPaneLeft),
        ("focus_pane_right", Action::FocusPaneRight),
    ];
    for (name, action) in all {
        assert_eq!(Action::from_name(name), Some(action));
    }
    assert_eq!(Action::from_name("Copy"), None);
    assert_eq!(Action::from_name(""), None);
}

#[test]
fn configuration_directory() {
    assert_eq!(config_dir(Some("/x/cfg"), Some("/home/me")), "/x/cfg/deptty");
    assert_eq!(config_dir(None, Some("/home/me")), "/home/me/.config/deptty");
    assert_eq!(config_dir(None, None), "~/.config/deptty");
    assert_eq!(config_dir(Some("/x/"), None), "/x/deptty");
    assert_eq!(config_dir(Some(""), None), "deptty");
}
