//! Colours of the app.
use vstd::prelude::*;

verus! {

/// An opaque colour.
#[derive(Clone, Copy, Debug, PartialEq, Eq, Structural)]
pub struct Color {
    pub red: u8,
    pub green: u8,
    pub blue: u8,
}

/// The accent colour where the system gives none: red 75, green 125, blue 245.
pub const FALLBACK_ACCENT_COLOR: u32 = 0xff4b_7df5;

/// The grey of a given brightness.
pub open spec fn gray_of(value: u8) -> Color {
    Color { red: value, green: value, blue: value }
}

/// The grey of a given brightness.
pub fn gray(value: u8) -> (color: Color)
    ensures
        color == gray_of(value),
{
    Color { red: value, green: value, blue: value }
}

/// The colour that Windows gives as a number, whose bytes are opacity, red, green and blue.
pub fn color_from_windows_argb(value: u32) -> (color: Color)
    ensures
        color.red == value / 0x1_0000 % 256,
        color.green == value / 0x100 % 256,
        color.blue == value % 256,
{
    Color {
        red: (value / 0x1_0000 % 256) as u8,
        green: (value / 0x100 % 256) as u8,
        blue: (value % 256) as u8,
    }
}

/// The accent colour: that of the system, where it gives one.
pub fn accent_color(system: Option<u32>) -> (color: Color)
    ensures
        match system {
            Some(value) => {
                &&& color.red == value / 0x1_0000 % 256
                &&& color.green == value / 0x100 % 256
                &&& color.blue == value % 256
            },
            None => color == (Color { red: 75, green: 125, blue: 245 }),
        },
{
    match system {
        Some(value) => color_from_windows_argb(value),
        None => color_from_windows_argb(FALLBACK_ACCENT_COLOR),
    }
}

/// The colour of text that matters less.
pub fn muted_text_color(dark_mode: bool) -> (color: Color)
    ensures
        color == if dark_mode {
            gray_of(205)
        } else {
            gray_of(70)
        },
{
    if dark_mode {
        gray(205)
    } else {
        gray(70)
    }
}

/// The colour of text.
pub fn main_text_color(dark_mode: bool) -> (color: Color)
    ensures
        color == if dark_mode {
            gray_of(235)
        } else {
            gray_of(30)
        },
{
    if dark_mode {
        gray(235)
    } else {
        gray(30)
    }
}

/// The colour of text that tells of trouble.
pub fn error_text_color(dark_mode: bool) -> (color: Color)
    ensures
        color == if dark_mode {
            (Color { red: 245, green: 115, blue: 105 })
        } else {
            (Color { red: 170, green: 40, blue: 35 })
        },
{
    if dark_mode {
        Color { red: 245, green: 115, blue: 105 }
    } else {
        Color { red: 170, green: 40, blue: 35 }
    }
}

/// The colours of text and lines in one of the two themes.
#[derive(Clone, Copy, Debug, PartialEq, Eq, Structural)]
pub struct StyleColors {
    pub text: Color,
    pub hovered_text: Color,
    pub weak_text: Color,
    pub selection: Color,
    pub hyperlink: Color,
    pub hovered_outline: Color,
}

/// The colours of text and lines in one of the two themes.
pub fn style_colors(dark_mode: bool, accent: Color) -> (colors: StyleColors)
    ensures
        colors == (StyleColors {
            text: if dark_mode {
                gray_of(235)
            } else {
                gray_of(30)
            },
            hovered_text: if dark_mode {
                gray_of(255)
            } else {
                gray_of(0)
            },
            weak_text: if dark_mode {
                gray_of(205)
            } else {
                gray_of(70)
            },
            selection: accent,
            hyperlink: accent,
            hovered_outline: accent,
        }),
{
    StyleColors {
        text: main_text_color(dark_mode),
        hovered_text: if dark_mode {
            gray(255)
        } else {
            gray(0)
        },
        weak_text: muted_text_color(dark_mode),
        selection: accent,
        hyperlink: accent,
        hovered_outline: accent,
    }
}

/// The colours of a field to type in.
#[derive(Clone, Copy, Debug, PartialEq, Eq, Structural)]
pub struct InputColors {
    pub inactive_fill: Color,
    pub inactive_stroke: Color,
    pub hovered_fill: Color,
    pub hovered_stroke: Color,
    pub active_fill: Color,
}

/// The colours of a field to type in.
pub fn input_colors(dark_mode: bool) -> (colors: InputColors)
    ensures
        colors == if dark_mode {
            (InputColors {
                inactive_fill: gray_of(28),
                inactive_stroke: gray_of(95),
                hovered_fill: gray_of(36),
                hovered_stroke: gray_of(155),
                active_fill: gray_of(40),
            })
        } else {
            (InputColors {
                inactive_fill: gray_of(250),
                inactive_stroke: gray_of(165),
                hovered_fill: gray_of(245),
                hovered_stroke: gray_of(95),
                active_fill: gray_of(255),
            })
        },
{
    if dark_mode {
        InputColors {
            inactive_fill: gray(28),
            inactive_stroke: gray(95),
            hovered_fill: gray(36),
            hovered_stroke: gray(155),
            active_fill: gray(40),
        }
    } else {
        InputColors {
            inactive_fill: gray(250),
            inactive_stroke: gray(165),
            hovered_fill: gray(245),
            hovered_stroke: gray(95),
            active_fill: gray(255),
        }
    }
}

} // verus!
