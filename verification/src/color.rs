//! Terminal colors and the palettes that resolve them.
use vstd::prelude::*;
use crate::theme::Theme;

verus! {

/// Red, green and blue.
pub type Rgb = (u8, u8, u8);

/// The colors that a terminal knows by name.
#[derive(Clone, Copy, Debug, PartialEq, Eq, Structural)]
pub enum NamedColor {
    Black,
    Red,
    Green,
    Yellow,
    Blue,
    Magenta,
    Cyan,
    White,
    BrightBlack,
    BrightRed,
    BrightGreen,
    BrightYellow,
    BrightBlue,
    BrightMagenta,
    BrightCyan,
    BrightWhite,
    Foreground,
    Background,
    Cursor,
    DimBlack,
    DimRed,
    DimGreen,
    DimYellow,
    DimBlue,
    DimMagenta,
    DimCyan,
    DimWhite,
    BrightForeground,
    DimForeground,
}

/// A cell's color as the terminal stores it.
#[derive(Clone, Copy, Debug, PartialEq, Eq, Structural)]
pub enum Color {
    Named(NamedColor),
    /// A color given directly.
    Spec(u8, u8, u8),
    /// One of the 256 indexed colors.
    Indexed(u8),
}

/// What the named colors look like.
#[derive(Clone, Copy, Debug)]
pub struct Scheme {
    /// Whether overlays are light on a dark background.
    pub dark: bool,
    pub fg: Rgb,
    pub bg: Rgb,
    /// Tint of the text cursor.
    pub cursor: Rgb,
    /// The 16 ANSI colors: 0 to 7 normal, 8 to 15 bright.
    pub colors: [Rgb; 16],
}

/// The 16 ANSI colors in order.
pub const NAMED16: [NamedColor; 16] = [
    NamedColor::Black,
    NamedColor::Red,
    NamedColor::Green,
    NamedColor::Yellow,
    NamedColor::Blue,
    NamedColor::Magenta,
    NamedColor::Cyan,
    NamedColor::White,
    NamedColor::BrightBlack,
    NamedColor::BrightRed,
    NamedColor::BrightGreen,
    NamedColor::BrightYellow,
    NamedColor::BrightBlue,
    NamedColor::BrightMagenta,
    NamedColor::BrightCyan,
    NamedColor::BrightWhite,
];

/// The light default palette.
pub const LIGHT_COLORS: [Rgb; 16] = [
    (0, 0, 0),
    (178, 24, 24),
    (24, 178, 24),
    (178, 104, 24),
    (24, 24, 178),
    (225, 30, 225),
    (24, 178, 178),
    (238, 232, 213),
    (104, 104, 104),
    (255, 84, 84),
    (133, 153, 0),
    (233, 233, 79),
    (52, 101, 164),
    (30, 144, 255),
    (24, 178, 178),
    (238, 232, 213),
];

/// The dark default palette.
pub const DARK_COLORS: [Rgb; 16] = [
    (0, 0, 0),
    (178, 24, 24),
    (24, 178, 24),
    (178, 104, 24),
    (52, 101, 164),
    (225, 30, 225),
    (24, 178, 178),
    (238, 232, 213),
    (104, 104, 104),
    (255, 84, 84),
    (133, 153, 0),
    (255, 255, 84),
    (52, 101, 164),
    (30, 144, 255),
    (253, 246, 227),
    (255, 255, 255),
];

// ---- palettes ----

/// Whether a color counts as light: its luminance is at least 128.
pub open spec fn is_light(c: Rgb) -> bool {
    (c.0 * 299 + c.1 * 587 + c.2 * 114) / 1000 >= 128
}

pub fn light(c: Rgb) -> (r: bool)
    ensures
        r == is_light(c),
{
    (c.0 as u32 * 299 + c.1 as u32 * 587 + c.2 as u32 * 114) / 1000 >= 128
}

/// White on dark, black on light.
pub open spec fn contrast(dark: bool) -> Rgb {
    if dark {
        (255, 255, 255)
    } else {
        (0, 0, 0)
    }
}

pub fn contrast_of(dark: bool) -> (r: Rgb)
    ensures
        r == contrast(dark),
{
    if dark {
        (255, 255, 255)
    } else {
        (0, 0, 0)
    }
}

/// The default palette: dark or light as the window's color is.
pub open spec fn default_scheme(window: Rgb) -> Scheme {
    if is_light(window) {
        Scheme {
            dark: false,
            fg: (0, 0, 0),
            bg: (248, 248, 248),
            cursor: (0, 0, 0),
            colors: LIGHT_COLORS,
        }
    } else {
        Scheme {
            dark: true,
            fg: (0, 205, 0),
            bg: (37, 37, 37),
            cursor: (255, 255, 255),
            colors: DARK_COLORS,
        }
    }
}

/// The default palette for a window color.
pub fn scheme(window: Rgb) -> (s: Scheme)
    ensures
        s == default_scheme(window),
{
    if light(window) {
        Scheme {
            dark: false,
            fg: (0, 0, 0),
            bg: (248, 248, 248),
            cursor: (0, 0, 0),
            colors: LIGHT_COLORS,
        }
    } else {
        Scheme {
            dark: true,
            fg: (0, 205, 0),
            bg: (37, 37, 37),
            cursor: (255, 255, 255),
            colors: DARK_COLORS,
        }
    }
}

/// The palette that a theme gives, over the default one: a background also says
/// whether the palette is dark, and with that, where the theme sets no cursor
/// color, the cursor's tint; the 16 ANSI colors count only if all are there.
pub open spec fn is_themed(s: Scheme, window: Rgb, t: Theme) -> bool {
    let base = default_scheme(window);
    &&& s.dark == (match crate::theme::color_in(t.background) {
        Some(c) => !is_light(c),
        None => base.dark,
    })
    &&& s.bg == (match crate::theme::color_in(t.background) {
        Some(c) => c,
        None => base.bg,
    })
    &&& s.fg == (match crate::theme::color_in(t.foreground) {
        Some(c) => c,
        None => base.fg,
    })
    &&& s.cursor == (match crate::theme::color_in(t.cursor_color) {
        Some(c) => c,
        None => contrast(s.dark),
    })
    &&& forall|i: int|
        0 <= i < 16 ==> (#[trigger] s.colors@[i]) == if t.has_palette() {
            t.palette->Some_0.color(i as nat)->Some_0
        } else {
            base.colors@[i]
        }
}

/// The palette for a window color and a theme, if one was found.
pub fn scheme_for(window: Rgb, theme: Option<&Theme>) -> (s: Scheme)
    ensures
        match theme {
            Some(t) => is_themed(s, window, *t),
            None => s == default_scheme(window),
        },
{
    let mut s: Scheme = scheme(window);
    if let Some(t) = theme {
        if let Some(c) = t.bg() {
            s.bg = c;
            s.dark = !light(c);
        }
        if let Some(c) = t.fg() {
            s.fg = c;
        }
        s.cursor = match t.cursor() {
            Some(c) => c,
            None => contrast_of(s.dark),
        };
        if let Some(p) = t.palette16() {
            s.colors = p;
        }
    }
    s
}

// ---- resolving a color ----

/// The ANSI number of a named color, if it has one: the dim colors share the
/// numbers of the normal ones.
pub open spec fn ansi_number(c: NamedColor) -> Option<int> {
    match c {
        NamedColor::Black | NamedColor::DimBlack => Some(0int),
        NamedColor::Red | NamedColor::DimRed => Some(1int),
        NamedColor::Green | NamedColor::DimGreen => Some(2int),
        NamedColor::Yellow | NamedColor::DimYellow => Some(3int),
        NamedColor::Blue | NamedColor::DimBlue => Some(4int),
        NamedColor::Magenta | NamedColor::DimMagenta => Some(5int),
        NamedColor::Cyan | NamedColor::DimCyan => Some(6int),
        NamedColor::White | NamedColor::DimWhite => Some(7int),
        NamedColor::BrightBlack => Some(8int),
        NamedColor::BrightRed => Some(9int),
        NamedColor::BrightGreen => Some(10int),
        NamedColor::BrightYellow => Some(11int),
        NamedColor::BrightBlue => Some(12int),
        NamedColor::BrightMagenta => Some(13int),
        NamedColor::BrightCyan => Some(14int),
        NamedColor::BrightWhite => Some(15int),
        _ => None,
    }
}

/// A named color in a palette.
pub open spec fn named(c: NamedColor, sc: Scheme) -> Rgb {
    match ansi_number(c) {
        Some(i) => sc.colors@[i],
        None => if c is Background {
            sc.bg
        } else {
            sc.fg
        },
    }
}

pub fn named_rgb(c: NamedColor, sc: &Scheme) -> (r: Rgb)
    ensures
        r == named(c, *sc),
{
    match c {
        NamedColor::Background => sc.bg,
        NamedColor::Black | NamedColor::DimBlack => sc.colors[0],
        NamedColor::Red | NamedColor::DimRed => sc.colors[1],
        NamedColor::Green | NamedColor::DimGreen => sc.colors[2],
        NamedColor::Yellow | NamedColor::DimYellow => sc.colors[3],
        NamedColor::Blue | NamedColor::DimBlue => sc.colors[4],
        NamedColor::Magenta | NamedColor::DimMagenta => sc.colors[5],
        NamedColor::Cyan | NamedColor::DimCyan => sc.colors[6],
        NamedColor::White | NamedColor::DimWhite => sc.colors[7],
        NamedColor::BrightBlack => sc.colors[8],
        NamedColor::BrightRed => sc.colors[9],
        NamedColor::BrightGreen => sc.colors[10],
        NamedColor::BrightYellow => sc.colors[11],
        NamedColor::BrightBlue => sc.colors[12],
        NamedColor::BrightMagenta => sc.colors[13],
        NamedColor::BrightCyan => sc.colors[14],
        NamedColor::BrightWhite => sc.colors[15],
        _ => sc.fg,
    }
}

/// One step of the 6x6x6 color cube.
pub open spec fn cube_level(v: int) -> u8 {
    if v == 0 {
        0
    } else {
        (55 + 40 * v) as u8
    }
}

/// A color in a palette: the first 16 indexes are the ANSI colors, the next 216
/// a color cube, the last 24 a ramp of grays.
pub open spec fn resolved(c: Color, sc: Scheme) -> Rgb {
    match c {
        Color::Named(n) => named(n, sc),
        Color::Spec(r, g, b) => (r, g, b),
        Color::Indexed(i) => if i < 16 {
            sc.colors@[i as int]
        } else if i < 232 {
            (
                cube_level((i - 16) / 36),
                cube_level((i - 16) / 6 % 6),
                cube_level((i - 16) % 6),
            )
        } else {
            let g = (8 + 10 * (i - 232)) as u8;
            (g, g, g)
        },
    }
}

fn level(v: u8) -> (r: u8)
    requires
        v < 6,
    ensures
        r == cube_level(v as int),
{
    if v == 0 {
        0
    } else {
        55 + 40 * v
    }
}

pub fn rgb_of(c: Color, sc: &Scheme) -> (r: Rgb)
    ensures
        r == resolved(c, *sc),
{
    match c {
        Color::Named(n) => named_rgb(n, sc),
        Color::Spec(r, g, b) => (r, g, b),
        Color::Indexed(i) => {
            if i < 16 {
                named_rgb(NAMED16[i as usize], sc)
            } else if i < 232 {
                let j: u8 = i - 16;
                (level(j / 36), level(j / 6 % 6), level(j % 6))
            } else {
                let g: u8 = 8 + 10 * (i - 232);
                (g, g, g)
            }
        },
    }
}

/// A color at two thirds of its intensity.
pub open spec fn dimmed(c: Rgb) -> Rgb {
    ((c.0 * 2 / 3) as u8, (c.1 * 2 / 3) as u8, (c.2 * 2 / 3) as u8)
}

pub fn dim(c: Rgb) -> (r: Rgb)
    ensures
        r == dimmed(c),
{
    ((c.0 as u16 * 2 / 3) as u8, (c.1 as u16 * 2 / 3) as u8, (c.2 as u16 * 2 / 3) as u8)
}

// ---- video attributes ----

/// The bright version of a color: of a normal ANSI color its bright one, of any
/// other color itself.
pub open spec fn brightened(c: Color) -> Color {
    match c {
        Color::Named(NamedColor::Black) => Color::Named(NamedColor::BrightBlack),
        Color::Named(NamedColor::Red) => Color::Named(NamedColor::BrightRed),
        Color::Named(NamedColor::Green) => Color::Named(NamedColor::BrightGreen),
        Color::Named(NamedColor::Yellow) => Color::Named(NamedColor::BrightYellow),
        Color::Named(NamedColor::Blue) => Color::Named(NamedColor::BrightBlue),
        Color::Named(NamedColor::Magenta) => Color::Named(NamedColor::BrightMagenta),
        Color::Named(NamedColor::Cyan) => Color::Named(NamedColor::BrightCyan),
        Color::Named(NamedColor::White) => Color::Named(NamedColor::BrightWhite),
        Color::Indexed(i) => if i < 8 {
            Color::Indexed((i + 8) as u8)
        } else {
            c
        },
        _ => c,
    }
}

fn brighten(c: Color) -> (r: Color)
    ensures
        r == brightened(c),
{
    match c {
        Color::Named(n) => Color::Named(
            match n {
                NamedColor::Black => NamedColor::BrightBlack,
                NamedColor::Red => NamedColor::BrightRed,
                NamedColor::Green => NamedColor::BrightGreen,
                NamedColor::Yellow => NamedColor::BrightYellow,
                NamedColor::Blue => NamedColor::BrightBlue,
                NamedColor::Magenta => NamedColor::BrightMagenta,
                NamedColor::Cyan => NamedColor::BrightCyan,
                NamedColor::White => NamedColor::BrightWhite,
                other => other,
            },
        ),
        Color::Indexed(i) => if i < 8 {
            Color::Indexed(i + 8)
        } else {
            c
        },
        _ => c,
    }
}

/// Foreground and background after the video attributes: inverse swaps them,
/// then bold brightens the foreground.
pub open spec fn effective_colors(fg: Color, bg: Color, inverse: bool, bold: bool) -> (
    Color,
    Color,
) {
    let (f, b) = if inverse {
        (bg, fg)
    } else {
        (fg, bg)
    };
    if bold {
        (brightened(f), b)
    } else {
        (f, b)
    }
}

pub fn cell_colors(fg: Color, bg: Color, inverse: bool, bold: bool) -> (r: (Color, Color))
    ensures
        r == effective_colors(fg, bg, inverse, bold),
{
    let (f, b): (Color, Color) = if inverse {
        (bg, fg)
    } else {
        (fg, bg)
    };
    if bold {
        (brighten(f), b)
    } else {
        (f, b)
    }
}

// ---- laws ----

/// A theme that sets nothing changes nothing.
pub proof fn law_empty_theme(s: Scheme, window: Rgb, t: Theme)
    requires
        is_themed(s, window, t),
        t.background is None,
        t.foreground is None,
        t.cursor_color is None,
        t.palette is None,
    ensures
        ({
            let d = default_scheme(window);
            s.dark == d.dark && s.fg == d.fg && s.bg == d.bg && s.cursor == d.cursor && s.colors@
                == d.colors@
        }),
{
    assert(s.colors@ =~= default_scheme(window).colors@);
}

/// A theme's background decides by itself whether overlays are light or dark.
pub proof fn law_background_decides(s: Scheme, window: Rgb, t: Theme)
    requires
        is_themed(s, window, t),
        crate::theme::color_in(t.background) is Some,
    ensures
        s.bg == crate::theme::color_in(t.background)->Some_0,
        s.dark == !is_light(s.bg),
{
}

/// The indexes 0 to 15 are the ANSI colors: each looks like the color of its
/// name.
pub proof fn law_first_sixteen(i: u8, sc: Scheme)
    requires
        i < 16,
    ensures
        resolved(Color::Indexed(i), sc) == resolved(Color::Named(NAMED16@[i as int]), sc),
{
}

/// Bold brightens a normal ANSI color to the color eight further on, by name as
/// by index.
pub proof fn law_bold_is_bright(i: u8, sc: Scheme)
    requires
        i < 8,
    ensures
        resolved(brightened(Color::Indexed(i)), sc) == sc.colors@[i + 8],
        resolved(brightened(Color::Named(NAMED16@[i as int])), sc) == sc.colors@[i + 8],
{
}

/// A brightened color is as bright as it gets.
pub proof fn law_brightened_once(c: Color)
    ensures
        brightened(brightened(c)) == brightened(c),
{
}

/// Inverse twice is no inverse: the colors without attributes come back.
pub proof fn law_inverse_swaps(fg: Color, bg: Color)
    ensures
        ({
            let (f, b) = effective_colors(fg, bg, true, false);
            effective_colors(f, b, true, false) == (fg, bg)
        }),
{
}

} // verus!
