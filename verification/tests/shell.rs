use deptty::config::{Config, State};
use deptty::mouse::Screen;
use deptty::pane_view::{
    pane_resized, pty_size, scrollbar_moved, sync_scrollbar, window_size, Bar, PtyDims,
};
use deptty::shell::{
    cwd_link, default_title, detect_locale, dir_candidate, paste_bytes, says_gone, shell_cmd,
    shell_path, start_dir, work_dir_arg,
};
use deptty::title::TitleSlot;
use deptty::GridGeom;

fn with_shell(shell: Option<&str>) -> Config {
    Config {
        shell: shell.map(|s| s.to_string()),
        ..Config::default()
    }
}

#[test]
fn which_shell() {
    assert_eq!(shell_path(&with_shell(Some("/usr/bin/fish")), Some("/bin/zsh")), "/usr/bin/fish");
    assert_eq!(shell_path(&with_shell(None), Some("/bin/zsh")), "/bin/zsh");
    assert_eq!(shell_path(&with_shell(None), None), "/bin/bash");
}

#[test]
fn tabs_are_first_named_after_the_shell() {
    assert_eq!(default_title(&with_shell(None), Some("/usr/bin/zsh")), "zsh");
    assert_eq!(default_title(&with_shell(Some("fish")), None), "fish");
    assert_eq!(default_title(&with_shell(Some("/odd/")), None), "");
}

#[test]
fn how_a_shell_starts() {
    let c = shell_cmd(&with_shell(None), None, Some("/tmp"));
    assert_eq!(c.get_argv().len(), 1);
    assert_eq!(c.get_argv()[0], "/bin/bash");
    assert_eq!(c.get_env("TERM").unwrap(), "xterm-256color");
    assert_eq!(c.get_cwd().unwrap(), "/tmp");
    let c = shell_cmd(&with_shell(Some("/usr/bin/fish")), Some("/bin/zsh"), None);
    assert_eq!(c.get_argv()[0], "/usr/bin/fish");
    assert_eq!(c.get_cwd(), None);
}

fn asked(args: &[&str], dirs: &[&str]) -> Option<String> {
    let args: Vec<String> = args.iter().map(|a| a.to_string()).collect();
    let is_dir = args
        .iter()
        .map(|a| dir_candidate(a).is_some_and(|p| dirs.contains(&p.as_str())))
        .collect();
    work_dir_arg(&args, &is_dir)
}

#[test]
fn where_a_shell_starts() {
    let dirs = ["/tmp", "/home"];
    assert_eq!(asked(&["-w", "/tmp"], &dirs).as_deref(), Some("/tmp"));
    assert_eq!(asked(&["--work-directory", "/x"], &dirs).as_deref(), Some("/x"));
    assert_eq!(asked(&["--work-directory=/y"], &dirs).as_deref(), Some("/y"));
    assert_eq!(asked(&["/tmp"], &dirs).as_deref(), Some("/tmp"));
    assert_eq!(asked(&["file:///tmp"], &dirs).as_deref(), Some("/tmp"));
    assert_eq!(asked(&["-x", "/nope", "/home", "/tmp"], &dirs).as_deref(), Some("/home"));
    assert_eq!(asked(&["-w"], &dirs), None);
    assert_eq!(asked(&[], &dirs), None);
    assert_eq!(asked(&["-/tmp"], &dirs), None);
    let cwd = || Some("/cwd".to_string());
    assert_eq!(start_dir(Some("/a".to_string()), cwd()).as_deref(), Some("/a"));
    assert_eq!(start_dir(None, cwd()).as_deref(), Some("/cwd"));
}

#[test]
fn links_to_directories() {
    assert_eq!(cwd_link(0), None);
    assert_eq!(cwd_link(7).as_deref(), Some("/proc/7/cwd"));
    assert_eq!(cwd_link(u32::MAX).as_deref(), Some("/proc/4294967295/cwd"));
}

#[test]
fn languages() {
    assert_eq!(detect_locale(None, None, None), "en");
    assert_eq!(detect_locale(None, None, Some("zh_CN.UTF-8")), "zh-CN");
    assert_eq!(detect_locale(None, Some("zh_TW"), Some("en_US")), "zh-CN");
    assert_eq!(detect_locale(Some("de_DE"), Some("zh_TW"), Some("zh_CN")), "en");
    assert_eq!(detect_locale(Some(""), None, Some("zh_CN")), "en");
}

#[test]
fn pasting() {
    let bracketed = 1 << 4;
    assert_eq!(paste_bytes("", bracketed), b"");
    assert_eq!(paste_bytes("a\né", 0), "a\né".as_bytes());
    assert_eq!(paste_bytes("hi", bracketed), b"\x1b[200~hi\x1b[201~");
}

#[test]
fn reader_messages() {
    assert!(!says_gone(&b"xxx".to_vec()));
    assert!(says_gone(&b"xxqx".to_vec()));
    assert!(!says_gone(&Vec::new()));
}

#[test]
fn titles_are_gathered() {
    let mut s = TitleSlot::new();
    assert!(!s.poke());
    s.offer("one".to_string());
    assert!(s.poke());
    s.offer(String::new());
    s.offer("two".to_string());
    assert!(!s.poke());
    assert_eq!(s.expire().as_deref(), Some("two"));
    assert_eq!(s.expire(), None);
    assert!(!s.poke());
    s.offer("three".to_string());
    assert!(s.poke());
}

#[test]
fn scroll_bar() {
    let s = Screen::new(80, 24, 30, 100).unwrap();
    assert_eq!(
        sync_scrollbar(&s),
        Bar {
            max: 100,
            page: 24,
            value: 70
        }
    );
    assert_eq!(scrollbar_moved(&s, 70, false), None);
    assert_eq!(scrollbar_moved(&s, 100, false), Some(-30));
    assert_eq!(scrollbar_moved(&s, 0, false), Some(70));
    assert_eq!(scrollbar_moved(&s, 0, true), None);
}

#[test]
fn pane_sizes() {
    let g = GridGeom::new(10, 20, 15).unwrap();
    let r = pane_resized(805, 479, &g);
    assert_eq!((r.cols, r.lines, r.bar_x), (80, 23, 791));
    assert_eq!(
        r.pty,
        PtyDims {
            rows: 23,
            cols: 80,
            pixel_width: 805,
            pixel_height: 479
        }
    );
    let r = pane_resized(-5, 0, &g);
    assert_eq!((r.cols, r.lines), (1, 1));
    assert_eq!(r.pty.pixel_width, 65531);
    assert_eq!(pty_size(65537, 3).cols, 1);
    assert_eq!(pty_size(65537, 3).pixel_width, 0);
}

#[test]
fn window_at_the_start() {
    let g = GridGeom::new(10, 20, 15).unwrap();
    assert_eq!(window_size(&State::default(), &g), (800, 480));
    let st = State {
        window_width: Some(1280),
        window_height: None,
    };
    assert_eq!(window_size(&st, &g), (1280, 480));
}
