//! Colors, text attributes, and the SGR (Select Graphic Rendition) rules.
//!
//! A terminal style is a foreground and background color together with an
//! attribute set.  SGR parameter lists mutate a style; the executable
//! update function is proved equal to the specification `apply_sgr`.

use vstd::prelude::*;

verus! {

/// A terminal color: the default for the channel, one of the 256 indexed
/// palette entries, or a direct RGB triple.
#[derive(Clone, Copy, PartialEq, Eq, Structural, Debug)]
pub enum Color {
    Default,
    Indexed(u8),
    Rgb(u8, u8, u8),
}

/// The graphic rendition applied to written cells: colors plus attributes.
#[derive(Clone, Copy, PartialEq, Eq, Structural, Debug)]
pub struct Style {
    pub fg: Color,
    pub bg: Color,
    pub bold: bool,
    pub dim: bool,
    pub italic: bool,
    pub underline: bool,
    pub reverse: bool,
}

impl Style {
    /// The default style: default colors, no attributes.
    pub open spec fn default_spec() -> Style {
        Style {
            fg: Color::Default,
            bg: Color::Default,
            bold: false,
            dim: false,
            italic: false,
            underline: false,
            reverse: false,
        }
    }

    /// Build the default style.
    pub fn plain() -> (r: Style)
        ensures
            r == Style::default_spec(),
    {
        Style {
            fg: Color::Default,
            bg: Color::Default,
            bold: false,
            dim: false,
            italic: false,
            underline: false,
            reverse: false,
        }
    }
}

/// Replace the foreground (when `fg` is true) or background color.
pub open spec fn with_color(st: Style, fg: bool, c: Color) -> Style {
    if fg {
        Style { fg: c, ..st }
    } else {
        Style { bg: c, ..st }
    }
}

/// The effect of a single SGR parameter that stands on its own (everything
/// but the extended-color introducers 38 and 48).  Unrecognized parameters
/// leave the style unchanged.
pub open spec fn apply_sgr_code(st: Style, c: u16) -> Style {
    if c == 0 {
        Style::default_spec()
    } else if c == 1 {
        Style { bold: true, ..st }
    } else if c == 2 {
        Style { dim: true, ..st }
    } else if c == 3 {
        Style { italic: true, ..st }
    } else if c == 4 {
        Style { underline: true, ..st }
    } else if c == 7 {
        Style { reverse: true, ..st }
    } else if c == 22 {
        Style { bold: false, dim: false, ..st }
    } else if c == 23 {
        Style { italic: false, ..st }
    } else if c == 24 {
        Style { underline: false, ..st }
    } else if c == 27 {
        Style { reverse: false, ..st }
    } else if 30 <= c && c <= 37 {
        with_color(st, true, Color::Indexed((c - 30) as u8))
    } else if c == 39 {
        with_color(st, true, Color::Default)
    } else if 90 <= c && c <= 97 {
        with_color(st, true, Color::Indexed((c - 90 + 8) as u8))
    } else if 40 <= c && c <= 47 {
        with_color(st, false, Color::Indexed((c - 40) as u8))
    } else if c == 49 {
        with_color(st, false, Color::Default)
    } else if 100 <= c && c <= 107 {
        with_color(st, false, Color::Indexed((c - 100 + 8) as u8))
    } else {
        st
    }
}

/// The effect of a whole SGR parameter list, applied left to right.
/// 38 and 48 select an extended color and consume `;5;N` (indexed) or
/// `;2;R;G;B` (true color); a truncated or out-of-range extended selection
/// drops the rest of the list, which mirrors common terminal tolerance.
pub open spec fn apply_sgr(st: Style, codes: Seq<u16>) -> Style
    decreases codes.len(),
{
    if codes.len() == 0 {
        st
    } else {
        let c = codes[0];
        if c == 38 || c == 48 {
            if codes.len() >= 3 && codes[1] == 5 && codes[2] <= 255 {
                apply_sgr(with_color(st, c == 38, Color::Indexed(codes[2] as u8)), codes.skip(3))
            } else if codes.len() >= 5 && codes[1] == 2 && codes[2] <= 255 && codes[3] <= 255
                && codes[4] <= 255 {
                apply_sgr(
                    with_color(st, c == 38, Color::Rgb(codes[2] as u8, codes[3] as u8, codes[4] as u8)),
                    codes.skip(5),
                )
            } else {
                st
            }
        } else {
            apply_sgr(apply_sgr_code(st, c), codes.skip(1))
        }
    }
}

/// Apply one standalone SGR parameter.
fn apply_one(st: Style, c: u16) -> (r: Style)
    ensures
        r == apply_sgr_code(st, c),
{
    if c == 0 {
        Style::plain()
    } else if c == 1 {
        Style { bold: true, ..st }
    } else if c == 2 {
        Style { dim: true, ..st }
    } else if c == 3 {
        Style { italic: true, ..st }
    } else if c == 4 {
        Style { underline: true, ..st }
    } else if c == 7 {
        Style { reverse: true, ..st }
    } else if c == 22 {
        Style { bold: false, dim: false, ..st }
    } else if c == 23 {
        Style { italic: false, ..st }
    } else if c == 24 {
        Style { underline: false, ..st }
    } else if c == 27 {
        Style { reverse: false, ..st }
    } else if 30 <= c && c <= 37 {
        Style { fg: Color::Indexed((c - 30) as u8), ..st }
    } else if c == 39 {
        Style { fg: Color::Default, ..st }
    } else if 90 <= c && c <= 97 {
        Style { fg: Color::Indexed((c - 90 + 8) as u8), ..st }
    } else if 40 <= c && c <= 47 {
        Style { bg: Color::Indexed((c - 40) as u8), ..st }
    } else if c == 49 {
        Style { bg: Color::Default, ..st }
    } else if 100 <= c && c <= 107 {
        Style { bg: Color::Indexed((c - 100 + 8) as u8), ..st }
    } else {
        st
    }
}

/// Apply a full SGR parameter list to a style.
pub fn sgr_update(start: Style, codes: &Vec<u16>) -> (r: Style)
    ensures
        r == apply_sgr(start, codes@),
{
    let mut st = start;
    let mut i: usize = 0;
    proof {
        assert(codes@.skip(0) =~= codes@);
    }
    while i < codes.len()
        invariant
            i <= codes.len(),
            apply_sgr(start, codes@) == apply_sgr(st, codes@.skip(i as int)),
        decreases codes.len() - i,
    {
        let c = codes[i];
        if c == 38 || c == 48 {
            if codes.len() - i > 2 && codes[i + 1] == 5 && codes[i + 2] <= 255 {
                proof {
                    assert(codes@.skip(i as int).skip(3) =~= codes@.skip(i as int + 3));
                }
                st = if c == 38 {
                    Style { fg: Color::Indexed(codes[i + 2] as u8), ..st }
                } else {
                    Style { bg: Color::Indexed(codes[i + 2] as u8), ..st }
                };
                i = i + 3;
            } else if codes.len() - i > 4 && codes[i + 1] == 2 && codes[i + 2] <= 255
                && codes[i + 3] <= 255 && codes[i + 4] <= 255 {
                proof {
                    assert(codes@.skip(i as int).skip(5) =~= codes@.skip(i as int + 5));
                }
                let rgb = Color::Rgb(codes[i + 2] as u8, codes[i + 3] as u8, codes[i + 4] as u8);
                st = if c == 38 {
                    Style { fg: rgb, ..st }
                } else {
                    Style { bg: rgb, ..st }
                };
                i = i + 5;
            } else {
                return st;
            }
        } else {
            proof {
                assert(codes@.skip(i as int).skip(1) =~= codes@.skip(i as int + 1));
            }
            st = apply_one(st, c);
            i = i + 1;
        }
    }
    proof {
        assert(codes@.skip(i as int) =~= Seq::<u16>::empty());
    }
    st
}

} // verus!
