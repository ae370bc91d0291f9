use deptty::cells::{snapshot_grid, GridCell, GridSnap, GridView};
use deptty::color::{Color, NamedColor};
use deptty::url::{find_url_span, url_at};

fn url_spans() {
    let t = "see https://example.com/a?b=1 end";
    assert_eq!(find_url_span(t, 5), Some((4, 29)));
    assert_eq!(find_url_span(t, 4), Some((4, 29)));
    assert_eq!(find_url_span(t, 29), None); // trailing space: off the link
    assert_eq!(find_url_span(t, 0), None);
    assert_eq!(find_url_span("no link at all", 3), None);
    assert_eq!(find_url_span("http://a.b", 0), Some((0, 10)));
    assert_eq!(find_url_span("(https://x.y)", 2), Some((1, 12))); // stops at ')'
    assert_eq!(
        find_url_span("see http://x and https://y.z", 20),
        Some((17, 28))
    );
}

#[test]
fn lib_url_spans() {
    url_spans();
}

#[test]
fn main_url_spans() {
    url_spans();
}

#[test]
fn link_edges() {
    assert_eq!(find_url_span("", 0), None);
    assert_eq!(find_url_span("http://", 3), Some((0, 7)));
    assert_eq!(find_url_span("http:/", 0), None);
    assert_eq!(find_url_span("https://", 7), Some((0, 8)));
    // a link inside a link belongs to the outer one
    assert_eq!(find_url_span("http://a/http://b", 12), Some((0, 17)));
    assert_eq!(find_url_span("éé http://é.fr", 5), Some((3, 14)));
    for d in [' ', '\t', '"', '\'', '<', '>', '`', '|', '(', ')', '[', ']', '{', '}'] {
        let t = format!("http://a{d}b");
        assert_eq!(find_url_span(&t, 7), Some((0, 8)), "{d:?}");
        assert_eq!(find_url_span(&t, 8), None, "{d:?}");
    }
}

fn cell(line: i32, col: u32, c: char, flags: u16) -> GridCell {
    GridCell {
        line,
        col,
        c,
        fg: Color::Named(NamedColor::Foreground),
        bg: Color::Named(NamedColor::Background),
        flags,
        underline: None,
    }
}

fn snap(rows: &[&str], offset: i32) -> GridSnap {
    let mut cells = Vec::new();
    for (r, text) in rows.iter().enumerate() {
        for (c, ch) in text.chars().enumerate() {
            cells.push(cell(r as i32 - offset, c as u32, ch, 0));
        }
    }
    snapshot_grid(&GridView {
        cells,
        cursor_line: 0,
        cursor_col: 0,
        offset,
        sel: None,
    })
}

#[test]
fn links_in_a_grid() {
    let s = snap(&["nothing", "at http://a.b ok"], 0);
    assert_eq!(url_at(&s, 1, 5), Some(("http://a.b".to_string(), 3, 13)));
    assert_eq!(url_at(&s, 0, 5), None);
    assert_eq!(url_at(&s, 1, 14), None);
    assert_eq!(url_at(&s, 7, 0), None);
    // scrolled back, rows count from the top of what is shown
    let s = snap(&["nothing", "at http://a.b ok"], 5);
    assert_eq!(url_at(&s, 1, 3), Some(("http://a.b".to_string(), 3, 13)));
}

#[test]
fn empty_cells_and_spacers_are_blanks() {
    let spacer = 0x40;
    let mut cells: Vec<GridCell> = "http://ab"
        .chars()
        .enumerate()
        .map(|(i, c)| cell(0, i as u32, c, 0))
        .collect();
    cells[8] = cell(0, 8, 'x', spacer);
    let view = |cells: Vec<GridCell>| GridView {
        cells,
        cursor_line: 0,
        cursor_col: 0,
        offset: 0,
        sel: None,
    };
    let s = snapshot_grid(&view(cells.clone()));
    assert_eq!(url_at(&s, 0, 0), Some(("http://a".to_string(), 0, 8)));
    cells[8] = cell(0, 8, '\0', 0);
    let s = snapshot_grid(&view(cells));
    assert_eq!(url_at(&s, 0, 0), Some(("http://a".to_string(), 0, 8)));
}
