use deptty::config::State;

fn state(w: Option<i32>, h: Option<i32>) -> State {
    State {
        window_width: w,
        window_height: h,
    }
}

/// The entries of a text's table, if it is TOML.
fn entries(text: &str) -> Option<Vec<(String, Option<i64>)>> {
    let t: toml::Table = text.parse().ok()?;
    Some(t.into_iter().map(|(k, v)| (k, v.as_integer())).collect())
}

fn read(text: &str) -> State {
    State::load(entries(text))
}

#[test]
fn what_was_saved_is_read() {
    let sizes = [None, Some(0), Some(1280), Some(-7), Some(i32::MAX), Some(i32::MIN)];
    let mut texts = Vec::new();
    for w in sizes {
        for h in sizes {
            let s = state(w, h);
            let text = s.save();
            assert_eq!(read(&text), s);
            assert!(!texts.contains(&text));
            texts.push(text);
        }
    }
}

#[test]
fn the_text_has_the_width_first() {
    assert_eq!(
        state(Some(1280), Some(800)).save(),
        "window_width = 1280\nwindow_height = 800\n"
    );
    assert_eq!(state(Some(-3), None).save(), "window_width = -3\n");
    assert_eq!(state(None, Some(5)).save(), "window_height = 5\n");
    assert_eq!(state(None, None).save(), "");
}

#[test]
fn files_are_read() {
    assert_eq!(
        read("# size\nwindow_height = 800\nwindow_width = 1280\n"),
        state(Some(1280), Some(800))
    );
    assert_eq!(read("window_width = 5\nzoom = \"big\"\n"), state(Some(5), None));
    assert_eq!(read(""), state(None, None));
}

#[test]
fn missing_and_bad_files_hold_nothing() {
    assert_eq!(State::load(None), State::default());
    for text in [
        "window_width = ",
        "window_width = 5\nwindow_width = 6\n",
        "window_width = \"5\"\nwindow_height = 800\n",
        "window_width = 1.5\n",
        "window_width = 5\nwindow_height = 2147483648\n",
    ] {
        assert_eq!(read(text), state(None, None), "{text:?}");
    }
}

#[test]
fn entries_of_a_table() {
    let both = [
        ("window_height".to_string(), Some(4)),
        ("other".to_string(), None),
        ("window_width".to_string(), Some(3)),
    ];
    assert_eq!(State::from_entries(&both.to_vec()), state(Some(3), Some(4)));
    assert_eq!(
        State::from_entries(&vec![("window_width".to_string(), None)]),
        state(None, None)
    );
}
