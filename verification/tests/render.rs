use deptty::cells::{snapshot_grid, GridCell, GridSnap, GridView, SelRange};
use deptty::color::{
    cell_colors, dim, named_rgb, rgb_of, scheme, Color, NamedColor, Scheme, NAMED16,
};
use deptty::config::CursorShape;
use deptty::config::CursorShape::{Beam, Block, Underline};
use deptty::pane_view::{ime_rect, paint_pane};
use deptty::render::{cursor_rects, render, Frame, PaintOp};
use deptty::{grid_text, Cursor, GridGeom};

const INVERSE: u16 = 0x0001;
const BOLD: u16 = 0x0002;
const ITALIC: u16 = 0x0004;
const UNDERLINE: u16 = 0x0008;
const WIDE: u16 = 0x0020;
const SPACER: u16 = 0x0040;
const DIM: u16 = 0x0080;
const HIDDEN: u16 = 0x0100;
const STRIKEOUT: u16 = 0x0200;
const DOUBLE: u16 = 0x0800;
const CURL: u16 = 0x1000;
const DOTTED: u16 = 0x2000;
const DASHED: u16 = 0x4000;

#[test]
fn cursor_shapes() {
    let solid = |shape| {
        cursor_rects(
            Cursor {
                shape,
                focused: true,
            },
            10,
            20,
        )
    };
    let hollow = |shape| {
        cursor_rects(
            Cursor {
                shape,
                focused: false,
            },
            10,
            20,
        )
    };
    assert_eq!(solid(Block), vec![(0, 0, 10, 20)]);
    // beam: thin bar on the left edge; underline: thin bar at the bottom
    assert_eq!(solid(Beam), vec![(0, 0, 2, 20)]);
    assert_eq!(solid(Underline), vec![(0, 18, 10, 2)]);
    // unfocused pane: hollow block outline, whatever the configured shape
    for shape in [Block, Beam, Underline] {
        assert_eq!(
            hollow(shape),
            vec![(0, 0, 10, 2), (0, 18, 10, 2), (0, 0, 2, 20), (8, 0, 2, 20)]
        );
    }
}

fn dark() -> Scheme {
    scheme((0, 0, 0))
}

fn frame() -> Frame {
    Frame {
        geom: GridGeom::new(10, 24, 18).unwrap(),
        width: 800,
        height: 480,
        y_off: 0,
        cursor: Cursor {
            shape: CursorShape::Block,
            focused: true,
        },
        scheme: dark(),
    }
}

fn cell(line: i32, col: u32, c: char, flags: u16) -> GridCell {
    GridCell {
        line,
        col,
        c,
        fg: Color::Named(NamedColor::Foreground),
        bg: Color::Named(NamedColor::Background),
        flags,
        underline: None,
    }
}

fn view(cells: Vec<GridCell>) -> GridView {
    GridView {
        cells,
        cursor_line: 99,
        cursor_col: 0,
        offset: 0,
        sel: None,
    }
}

fn snap(cells: Vec<GridCell>) -> GridSnap {
    snapshot_grid(&view(cells))
}

/// The operations after the font and the background of the whole pane.
fn painted(s: &GridSnap, f: &Frame) -> Vec<String> {
    let ops = render(s, f);
    assert!(matches!(ops[0], PaintOp::Font { bold: false, italic: false }));
    ops[2..].iter().map(|o| format!("{o:?}")).collect()
}

fn text(x: i64, y: i64, s: &str) -> String {
    format!("{:?}", PaintOp::Text { x, y, text: s.to_string() })
}

fn fill(x: i64, y: i64, w: i64, h: i64, color: (u8, u8, u8, u8)) -> String {
    format!("{:?}", PaintOp::Fill { x, y, w, h, color })
}

fn pen(rgb: (u8, u8, u8)) -> String {
    format!("{:?}", PaintOp::Pen { rgb })
}

fn font(bold: bool, italic: bool) -> String {
    format!("{:?}", PaintOp::Font { bold, italic })
}

#[test]
fn an_empty_terminal_is_background() {
    let mut f = frame();
    f.y_off = 30;
    let ops = render(&snap(Vec::new()), &f);
    assert_eq!(ops.len(), 2);
    assert_eq!(format!("{:?}", ops[1]), fill(0, 30, 800, 450, (37, 37, 37, 255)));
}

#[test]
fn neighbours_of_one_style_are_one_run() {
    let s = snap(vec![
        cell(0, 3, 'a', 0),
        cell(0, 4, ' ', 0),
        cell(0, 5, 'b', 0),
        cell(1, 6, 'c', 0),
    ]);
    let green = (0, 205, 0);
    assert_eq!(
        painted(&s, &frame()),
        [
            font(false, false),
            pen(green),
            text(30, 18, "a b"),
            font(false, false),
            pen(green),
            text(60, 42, "c"),
        ]
    );
}

#[test]
fn gaps_and_styles_end_a_run() {
    let s = snap(vec![
        cell(0, 0, 'a', 0),
        cell(0, 2, 'b', 0),
        cell(0, 3, 'c', BOLD),
        cell(0, 4, 'd', BOLD | ITALIC),
        cell(0, 5, '\0', 0),
        cell(0, 6, 'e', BOLD | ITALIC),
    ]);
    let runs: Vec<String> = painted(&s, &frame())
        .into_iter()
        .filter(|o| o.starts_with("Text"))
        .collect();
    assert_eq!(
        runs,
        [
            text(0, 18, "a"),
            text(20, 18, "b"),
            text(30, 18, "c"),
            text(40, 18, "d"),
            text(60, 18, "e"),
        ]
    );
}

#[test]
fn other_characters_are_pinned_to_their_cells() {
    let s = snap(vec![
        cell(0, 0, 'a', 0),
        cell(0, 1, '中', WIDE),
        cell(0, 2, ' ', SPACER),
        cell(0, 3, 'b', 0),
    ]);
    let green = (0, 205, 0);
    assert_eq!(
        painted(&s, &frame()),
        [
            font(false, false),
            pen(green),
            text(0, 18, "a"),
            font(false, false),
            pen(green),
            format!("{:?}", PaintOp::Clip { x: 10, y: 0, w: 20, h: 24 }),
            text(10, 18, "中"),
            format!("{:?}", PaintOp::Unclip),
            font(false, false),
            pen(green),
            text(30, 18, "b"),
        ]
    );
}

#[test]
fn hidden_cells_are_blanks() {
    let s = snap(vec![cell(0, 0, 'x', HIDDEN), cell(0, 1, '中', HIDDEN)]);
    assert!(painted(&s, &frame()).contains(&text(0, 18, "  ")));
}

#[test]
fn dim_text_has_two_thirds_of_its_color() {
    assert_eq!(dim((255, 128, 1)), (170, 85, 0));
    let s = snap(vec![cell(0, 0, 'a', DIM)]);
    assert_eq!(painted(&s, &frame())[1], pen((0, 136, 0)));
}

#[test]
fn lines_under_and_through_text() {
    let only = |flags: u16| painted(&snap(vec![cell(0, 0, 'a', flags)]), &frame())[3..].to_vec();
    let c = (0, 205, 0, 255);
    assert_eq!(only(UNDERLINE), [fill(0, 19, 10, 2, c)]);
    assert_eq!(only(DOUBLE), [fill(0, 19, 10, 1, c), fill(0, 21, 10, 1, c)]);
    assert_eq!(only(DOTTED), [fill(0, 19, 2, 2, c), fill(6, 19, 2, 2, c)]);
    assert_eq!(only(DASHED), [fill(0, 19, 6, 2, c)]);
    assert_eq!(only(STRIKEOUT), [fill(0, 12, 10, 2, c)]);
    assert_eq!(
        only(CURL),
        [
            pen((0, 205, 0)),
            format!(
                "{:?}",
                PaintOp::Wave { x: 0, y: 21, w: 10, amplitude: 2, period: 10 }
            ),
        ]
    );
    assert_eq!(only(UNDERLINE | STRIKEOUT), [fill(0, 19, 10, 2, c), fill(0, 12, 10, 2, c)]);
}

#[test]
fn underlines_can_have_a_color() {
    let mut red = cell(0, 0, 'a', UNDERLINE);
    red.underline = Some(Color::Spec(200, 1, 2));
    let s = snap(vec![red]);
    assert_eq!(painted(&s, &frame())[3], fill(0, 19, 10, 2, (200, 1, 2, 255)));
}

#[test]
fn backgrounds_selection_and_cursor() {
    let mut blue = cell(0, 1, ' ', 0);
    blue.bg = Color::Named(NamedColor::Blue);
    let cells = vec![cell(0, 0, ' ', 0), blue, cell(0, 2, ' ', 0)];
    let mut v = view(cells);
    v.sel = Some(SelRange {
        start_line: 0,
        start_col: 2,
        end_line: 0,
        end_col: 9,
        is_block: false,
    });
    let fills: Vec<String> = painted(&snapshot_grid(&v), &frame())
        .into_iter()
        .filter(|o| o.starts_with("Fill"))
        .collect();
    assert_eq!(
        fills,
        [
            fill(10, 0, 10, 24, (52, 101, 164, 255)),
            fill(20, 0, 10, 24, (255, 255, 255, 60)),
        ]
    );
    // the cursor covers a selection
    v.cursor_line = 0;
    v.cursor_col = 2;
    let with_cursor = painted(&snapshot_grid(&v), &frame());
    assert!(with_cursor.contains(&fill(20, 0, 10, 24, (255, 255, 255, 110))));
    assert!(!with_cursor.contains(&fill(20, 0, 10, 24, (255, 255, 255, 60))));
}

#[test]
fn selections_by_lines_and_blocks() {
    let cells: Vec<GridCell> = (0..3)
        .flat_map(|l| (0..3).map(move |c| cell(l, c, ' ', 0)))
        .collect();
    let selected = |is_block: bool| {
        let mut v = view(cells.clone());
        v.sel = Some(SelRange {
            start_line: 0,
            start_col: 1,
            end_line: 2,
            end_col: 1,
            is_block,
        });
        painted(&snapshot_grid(&v), &frame())
            .into_iter()
            .filter(|o| o.starts_with("Fill"))
            .count()
    };
    assert_eq!(selected(false), 2 + 3 + 2);
    assert_eq!(selected(true), 3);
}

#[test]
fn the_cursor_covers_both_columns_of_a_wide_character() {
    for col in [4, 5] {
        let mut v = view(vec![cell(0, 4, '中', WIDE), cell(0, 5, ' ', SPACER)]);
        v.cursor_line = 0;
        v.cursor_col = col;
        assert!(painted(&snapshot_grid(&v), &frame())
            .contains(&fill(40, 0, 20, 24, (255, 255, 255, 110))));
        // scrolled back, it is not shown
        v.offset = 1;
        v.cursor_line = 1;
        assert!(!painted(&snapshot_grid(&v), &frame()).iter().any(|o| o.contains("110")));
    }
}

#[test]
fn every_character_is_drawn_in_its_cell() {
    let styles = [0, 0, BOLD, UNDERLINE, HIDDEN, DIM];
    let chars = ['a', 'b', ' ', 'é', '\0', '中', 'z'];
    let mut cells = Vec::new();
    let mut expected = Vec::new();
    for line in 0..4 {
        for col in 0..20u32 {
            let k = line as usize * 20 + col as usize;
            let flags = styles[k % styles.len()];
            let c = chars[k * 5 % chars.len()];
            cells.push(cell(line, col, c, flags));
            if c != '\0' {
                let shown = if flags == HIDDEN { ' ' } else { c };
                expected.push((i64::from(col) * 10, i64::from(line) * 24 + 18, shown));
            }
        }
    }
    let mut drawn = Vec::new();
    for op in render(&snap(cells), &frame()) {
        if let PaintOp::Text { x, y, text } = op {
            for (k, c) in text.chars().enumerate() {
                drawn.push((x + k as i64 * 10, y, c));
            }
        }
    }
    assert_eq!(drawn, expected);
}

#[test]
fn only_shown_lines_are_in_a_snapshot() {
    let mut v = view(vec![cell(-3, 0, 'x', 0), cell(-2, 0, 'a', 0), cell(5, 0, 'b', 0)]);
    v.offset = 2;
    let s = snapshot_grid(&v);
    let rows: Vec<(u32, char)> = s.cells.iter().map(|c| (c.row, c.cell.c)).collect();
    assert_eq!(rows, [(0, 'a'), (7, 'b')]);
    assert_eq!(grid_text(&v), "ab");
}

#[test]
fn named_colors() {
    let sc = dark();
    assert_eq!(named_rgb(NamedColor::Foreground, &sc), sc.fg);
    assert_eq!(named_rgb(NamedColor::BrightForeground, &sc), sc.fg);
    assert_eq!(named_rgb(NamedColor::DimForeground, &sc), sc.fg);
    assert_eq!(named_rgb(NamedColor::Cursor, &sc), sc.fg);
    assert_eq!(named_rgb(NamedColor::Background, &sc), sc.bg);
    assert_eq!(named_rgb(NamedColor::DimRed, &sc), sc.colors[1]);
    for (i, n) in NAMED16.iter().enumerate() {
        assert_eq!(named_rgb(*n, &sc), sc.colors[i]);
        assert_eq!(rgb_of(Color::Indexed(i as u8), &sc), sc.colors[i]);
    }
}

#[test]
fn indexed_colors() {
    let sc = dark();
    assert_eq!(rgb_of(Color::Indexed(16), &sc), (0, 0, 0));
    assert_eq!(rgb_of(Color::Indexed(21), &sc), (0, 0, 255));
    assert_eq!(rgb_of(Color::Indexed(16 + 36 * 2 + 6 * 3 + 4), &sc), (135, 175, 215));
    assert_eq!(rgb_of(Color::Indexed(231), &sc), (255, 255, 255));
    assert_eq!(rgb_of(Color::Indexed(232), &sc), (8, 8, 8));
    assert_eq!(rgb_of(Color::Indexed(255), &sc), (238, 238, 238));
    assert_eq!(rgb_of(Color::Spec(1, 2, 3), &sc), (1, 2, 3));
}

#[test]
fn attributes_change_colors() {
    let (red, blue) = (Color::Named(NamedColor::Red), Color::Indexed(4));
    assert_eq!(cell_colors(red, blue, false, false), (red, blue));
    assert_eq!(cell_colors(red, blue, true, false), (blue, red));
    assert_eq!(
        cell_colors(red, blue, false, true),
        (Color::Named(NamedColor::BrightRed), blue)
    );
    assert_eq!(cell_colors(red, blue, true, true), (Color::Indexed(12), red));
    let plain = Color::Spec(1, 2, 3);
    assert_eq!(cell_colors(plain, blue, false, true), (plain, blue));
    let s = snap(vec![cell(0, 0, 'a', INVERSE)]);
    assert_eq!(
        painted(&s, &frame())[..3],
        [fill(0, 0, 10, 24, (0, 205, 0, 255)), font(false, false), pen((37, 37, 37))]
    );
}

#[test]
fn the_link_under_the_mouse_is_underlined() {
    let cells = "go http://a.b"
        .chars()
        .enumerate()
        .map(|(i, c)| cell(2, i as u32, c, 0))
        .collect();
    let s = snap(cells);
    let n = render(&s, &frame()).len();
    assert_eq!(paint_pane(&s, &frame(), None).len(), n);
    assert_eq!(paint_pane(&s, &frame(), Some((2, 0))).len(), n);
    let ops = paint_pane(&s, &frame(), Some((2, 8)));
    assert_eq!(ops.len(), n + 1);
    assert_eq!(format!("{:?}", ops[n]), fill(30, 67, 100, 2, (0, 205, 0, 255)));
}

#[test]
fn input_methods_follow_the_cursor() {
    let mut v = view(Vec::new());
    v.cursor_line = -2;
    v.cursor_col = 3;
    let g = frame().geom;
    assert_eq!(ime_rect(&snapshot_grid(&v), &g), None);
    v.offset = 4;
    assert_eq!(ime_rect(&snapshot_grid(&v), &g), Some((30, 48, 10, 24)));
}
