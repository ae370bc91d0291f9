//! What each color of a terminal looks like.
use vstd::prelude::*;
use crate::color::Color;
use crate::color::NamedColor;
use crate::color::Rgb;
use crate::color::Scheme;
use crate::theme::Theme;

verus! {

/// The color cube: index 16 and 36, 6 and 1 per step of red, green and blue have
/// the steps 0, 95, 135, 175, 215 and 255.
pub proof fn law_color_cube(r: int, g: int, b: int, sc: Scheme)
    requires
        0 <= r < 6,
        0 <= g < 6,
        0 <= b < 6,
    ensures
        ({
            let step = seq![0u8, 95u8, 135u8, 175u8, 215u8, 255u8];
            crate::color::resolved(Color::Indexed((16 + 36 * r + 6 * g + b) as u8), sc) == (
                step[r],
                step[g],
                step[b],
            )
        }),
{
    let j = 36 * r + 6 * g + b;
    assert(j / 36 == r && j / 6 % 6 == g && j % 6 == b);
}

/// The last 24 indexes are grays from 8 on, ten apart.
pub proof fn law_gray_ramp(i: int, sc: Scheme)
    requires
        0 <= i < 24,
    ensures
        ({
            let c = crate::color::resolved(Color::Indexed((232 + i) as u8), sc);
            c.0 == 8 + 10 * i && c.1 == c.0 && c.2 == c.0
        }),
{
}

/// The 16 ANSI colors and their dim versions by name, in the order of the
/// palette; every other name is the foreground, but for the background.
pub proof fn law_names(sc: Scheme)
    ensures
        ({
            let of = |c: NamedColor| crate::color::resolved(Color::Named(c), sc);
            &&& of(NamedColor::Black) == sc.colors@[0] && of(NamedColor::DimBlack) == sc.colors@[0]
            &&& of(NamedColor::Red) == sc.colors@[1] && of(NamedColor::DimRed) == sc.colors@[1]
            &&& of(NamedColor::Green) == sc.colors@[2] && of(NamedColor::DimGreen) == sc.colors@[2]
            &&& of(NamedColor::Yellow) == sc.colors@[3] && of(NamedColor::DimYellow)
                == sc.colors@[3]
            &&& of(NamedColor::Blue) == sc.colors@[4] && of(NamedColor::DimBlue) == sc.colors@[4]
            &&& of(NamedColor::Magenta) == sc.colors@[5] && of(NamedColor::DimMagenta)
                == sc.colors@[5]
            &&& of(NamedColor::Cyan) == sc.colors@[6] && of(NamedColor::DimCyan) == sc.colors@[6]
            &&& of(NamedColor::White) == sc.colors@[7] && of(NamedColor::DimWhite) == sc.colors@[7]
            &&& of(NamedColor::BrightBlack) == sc.colors@[8]
            &&& of(NamedColor::BrightRed) == sc.colors@[9]
            &&& of(NamedColor::BrightGreen) == sc.colors@[10]
            &&& of(NamedColor::BrightYellow) == sc.colors@[11]
            &&& of(NamedColor::BrightBlue) == sc.colors@[12]
            &&& of(NamedColor::BrightMagenta) == sc.colors@[13]
            &&& of(NamedColor::BrightCyan) == sc.colors@[14]
            &&& of(NamedColor::BrightWhite) == sc.colors@[15]
            &&& of(NamedColor::Background) == sc.bg
            &&& of(NamedColor::Foreground) == sc.fg
            &&& of(NamedColor::BrightForeground) == sc.fg
            &&& of(NamedColor::DimForeground) == sc.fg
            &&& of(NamedColor::Cursor) == sc.fg
        }),
{
}

/// The first 16 indexes are the palette in its order, and a color given directly
/// is itself, in every palette.
pub proof fn law_indexes_and_direct_colors(i: u8, r: u8, g: u8, b: u8, sc: Scheme)
    ensures
        i < 16 ==> crate::color::resolved(Color::Indexed(i), sc) == sc.colors@[i as int],
        crate::color::resolved(Color::Spec(r, g, b), sc) == (r, g, b),
{
}

/// A dim color has two thirds of each part, rounded down.
pub proof fn law_dim_is_two_thirds(c: Rgb)
    ensures
        ({
            let d = crate::color::dimmed(c);
            &&& 3 * d.0 <= 2 * c.0 < 3 * d.0 + 3
            &&& 3 * d.1 <= 2 * c.1 < 3 * d.1 + 3
            &&& 3 * d.2 <= 2 * c.2 < 3 * d.2 + 3
        }),
{
}

/// Lightness weighs red, green and blue by 299, 587 and 114 parts of a thousand:
/// a color is light from half of the whole range on, so a gray from 128 on, and a
/// color no darker than a light one in any part is light.
pub proof fn law_lightness(c: Rgb, d: Rgb, v: u8)
    ensures
        crate::color::is_light(c) <==> 299 * c.0 + 587 * c.1 + 114 * c.2 >= 128000,
        crate::color::is_light((v, v, v)) <==> v >= 128,
        crate::color::is_light(c) && c.0 <= d.0 && c.1 <= d.1 && c.2 <= d.2
            ==> crate::color::is_light(d),
{
}

/// A default palette fits its window and itself: its background is dark where
/// the window is, it says so, and overlays and the cursor contrast with it.
pub proof fn law_default_palette_fits(window: Rgb)
    ensures
        ({
            let s = crate::color::default_scheme(window);
            &&& s.dark == !crate::color::is_light(window)
            &&& s.dark == !crate::color::is_light(s.bg)
            &&& s.cursor == crate::color::contrast(s.dark)
            &&& crate::color::is_light(s.cursor) == s.dark
            &&& s.dark ==> s.bg == (37u8, 37u8, 37u8) && s.fg == (0u8, 205u8, 0u8)
            &&& !s.dark ==> s.bg == (248u8, 248u8, 248u8) && s.fg == (0u8, 0u8, 0u8)
        }),
{
}

/// The two default palettes, color by color; they differ in blue, bright yellow,
/// bright cyan and bright white alone.
pub proof fn law_default_palettes(dark: Rgb, light: Rgb)
    requires
        !crate::color::is_light(dark),
        crate::color::is_light(light),
    ensures
        ({
            let d = crate::color::default_scheme(dark).colors@;
            let l = crate::color::default_scheme(light).colors@;
            &&& d == seq![
                (0u8, 0u8, 0u8),
                (178u8, 24u8, 24u8),
                (24u8, 178u8, 24u8),
                (178u8, 104u8, 24u8),
                (52u8, 101u8, 164u8),
                (225u8, 30u8, 225u8),
                (24u8, 178u8, 178u8),
                (238u8, 232u8, 213u8),
                (104u8, 104u8, 104u8),
                (255u8, 84u8, 84u8),
                (133u8, 153u8, 0u8),
                (255u8, 255u8, 84u8),
                (52u8, 101u8, 164u8),
                (30u8, 144u8, 255u8),
                (253u8, 246u8, 227u8),
                (255u8, 255u8, 255u8),
            ]
            &&& l == d.update(4, (24u8, 24u8, 178u8)).update(11, (233u8, 233u8, 79u8)).update(
                14,
                (24u8, 178u8, 178u8),
            ).update(15, (238u8, 232u8, 213u8))
        }),
{
    let d = crate::color::default_scheme(dark).colors@;
    let l = crate::color::default_scheme(light).colors@;
    assert(d =~= seq![
        (0u8, 0u8, 0u8),
        (178u8, 24u8, 24u8),
        (24u8, 178u8, 24u8),
        (178u8, 104u8, 24u8),
        (52u8, 101u8, 164u8),
        (225u8, 30u8, 225u8),
        (24u8, 178u8, 178u8),
        (238u8, 232u8, 213u8),
        (104u8, 104u8, 104u8),
        (255u8, 84u8, 84u8),
        (133u8, 153u8, 0u8),
        (255u8, 255u8, 84u8),
        (52u8, 101u8, 164u8),
        (30u8, 144u8, 255u8),
        (253u8, 246u8, 227u8),
        (255u8, 255u8, 255u8),
    ]);
    assert(l =~= d.update(4, (24u8, 24u8, 178u8)).update(11, (233u8, 233u8, 79u8)).update(
        14,
        (24u8, 178u8, 178u8),
    ).update(15, (238u8, 232u8, 213u8)));
}

/// Inverse swaps the two colors; bold changes the foreground alone, to the bright
/// version of a normal ANSI color and of no other.
pub proof fn law_attributes(fg: Color, bg: Color, inverse: bool, bold: bool, sc: Scheme)
    ensures
        ({
            let (f, b) = crate::color::effective_colors(fg, bg, inverse, bold);
            let front = if inverse {
                bg
            } else {
                fg
            };
            &&& b == if inverse {
                fg
            } else {
                bg
            }
            &&& !bold ==> f == front
            &&& bold ==> match front {
                Color::Spec(_, _, _) => f == front,
                Color::Indexed(i) => if i < 8 {
                    f == Color::Indexed((i + 8) as u8)
                } else {
                    f == front
                },
                Color::Named(_) => {
                    ||| f == front && forall|k: int|
                        0 <= k < 8 ==> front != Color::Named(
                            #[trigger] crate::color::NAMED16@[k],
                        )
                    ||| exists|k: int|
                        0 <= k < 8 && front == Color::Named(#[trigger] crate::color::NAMED16@[k])
                            && crate::color::resolved(f, sc) == sc.colors@[k + 8]
                },
            }
        }),
{
    let (f, _) = crate::color::effective_colors(fg, bg, inverse, bold);
    let front = if inverse {
        bg
    } else {
        fg
    };
    if bold && front is Named {
        let s = crate::color::NAMED16@;
        assert(s[0] is Black && s[1] is Red && s[2] is Green && s[3] is Yellow && s[4] is Blue
            && s[5] is Magenta && s[6] is Cyan && s[7] is White);
        match front {
            Color::Named(NamedColor::Black) => assert(front == Color::Named(s[0])),
            Color::Named(NamedColor::Red) => assert(front == Color::Named(s[1])),
            Color::Named(NamedColor::Green) => assert(front == Color::Named(s[2])),
            Color::Named(NamedColor::Yellow) => assert(front == Color::Named(s[3])),
            Color::Named(NamedColor::Blue) => assert(front == Color::Named(s[4])),
            Color::Named(NamedColor::Magenta) => assert(front == Color::Named(s[5])),
            Color::Named(NamedColor::Cyan) => assert(front == Color::Named(s[6])),
            Color::Named(NamedColor::White) => assert(front == Color::Named(s[7])),
            _ => {},
        }
    }
}

/// Each color that a theme sets replaces that color of the default palette, and
/// one that it does not set leaves it; of the cursor's tint, without a color set
/// for it, the resulting background decides.
pub proof fn law_theme_color_by_color(s: Scheme, window: Rgb, t: Theme, i: int)
    requires
        crate::color::is_themed(s, window, t),
        0 <= i < 16,
    ensures
        ({
            let d = crate::color::default_scheme(window);
            &&& crate::theme::color_in(t.foreground) matches Some(c) ==> s.fg == c
            &&& crate::theme::color_in(t.foreground) is None ==> s.fg == d.fg
            &&& crate::theme::color_in(t.background) matches Some(c) ==> s.bg == c
            &&& crate::theme::color_in(t.background) is None ==> s.bg == d.bg
            &&& s.dark == !crate::color::is_light(s.bg)
            &&& crate::theme::color_in(t.cursor_color) matches Some(c) ==> s.cursor == c
            &&& crate::theme::color_in(t.cursor_color) is None ==> s.cursor == if s.dark {
                (255u8, 255u8, 255u8)
            } else {
                (0u8, 0u8, 0u8)
            }
            &&& t.has_palette() ==> Some(s.colors@[i]) == t.palette->Some_0.color(i as nat)
            &&& !t.has_palette() ==> s.colors@[i] == d.colors@[i]
        }),
{
    if t.has_palette() {
        assert(t.palette->Some_0.color(i as nat) is Some);
    }
}

} // verus!
