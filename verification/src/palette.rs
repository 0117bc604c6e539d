//! Color themes for the controller shell.
use crate::render_data::Color;
use vstd::prelude::*;

verus! {

/// One theme's colors.
#[derive(Clone, Copy, Debug, PartialEq, Eq, Structural)]
pub struct ColorPalette {
    pub accent: Color,
    pub window_bg: Color,
    pub panel_bg: Color,
    pub text_area_bg: Color,
    pub text_fg: Color,
    pub select_fg: Color,
    pub entry_bg: Color,
}

/// The available theme names.
#[derive(Clone, Copy, Debug, PartialEq, Eq, Structural)]
pub enum PaletteName {
    Cute,
    Default,
    Night,
}

/// An opaque color from byte channels.
pub open spec fn spec_rgb(r: u8, g: u8, b: u8) -> Color {
    (Color { r, g, b, a: 255 })
}

/// The colors of each theme.
pub open spec fn spec_palette(name: PaletteName) -> ColorPalette {
    match name {
        PaletteName::Cute => (ColorPalette {
            accent: spec_rgb(0xe9, 0x1e, 0x63),
            window_bg: spec_rgb(0xff, 0xf5, 0xf8),
            panel_bg: spec_rgb(0xf8, 0xbb, 0xdd),
            text_area_bg: spec_rgb(0xfc, 0xe4, 0xec),
            text_fg: spec_rgb(0x2d, 0x2d, 0x2d),
            select_fg: spec_rgb(0xff, 0xff, 0xff),
            entry_bg: spec_rgb(0xfc, 0xe4, 0xec),
        }),
        PaletteName::Default => (ColorPalette {
            accent: spec_rgb(0x15, 0x65, 0xc0),
            window_bg: spec_rgb(0xe8, 0xea, 0xf0),
            panel_bg: spec_rgb(0xd0, 0xd4, 0xe0),
            text_area_bg: spec_rgb(0xff, 0xff, 0xff),
            text_fg: spec_rgb(0x1a, 0x1a, 0x2e),
            select_fg: spec_rgb(0xff, 0xff, 0xff),
            entry_bg: spec_rgb(0xff, 0xff, 0xff),
        }),
        PaletteName::Night => (ColorPalette {
            accent: spec_rgb(0xad, 0x70, 0xf7),
            window_bg: spec_rgb(0x12, 0x12, 0x12),
            panel_bg: spec_rgb(0x1e, 0x1e, 0x1e),
            text_area_bg: spec_rgb(0x2d, 0x2d, 0x2d),
            text_fg: spec_rgb(0xe0, 0xe0, 0xe0),
            select_fg: spec_rgb(0x12, 0x12, 0x12),
            entry_bg: spec_rgb(0x3a, 0x3a, 0x3a),
        }),
    }
}

/// An opaque color from byte channels.
pub fn rgb(r: u8, g: u8, b: u8) -> (c: Color)
    ensures
        c == spec_rgb(r, g, b),
{
    Color { r, g, b, a: 255 }
}

impl PaletteName {
    /// The colors of this theme.
    pub fn palette(&self) -> (p: ColorPalette)
        ensures
            p == spec_palette(*self),
    {
        match self {
            PaletteName::Cute => ColorPalette {
                accent: rgb(0xe9, 0x1e, 0x63),
                window_bg: rgb(0xff, 0xf5, 0xf8),
                panel_bg: rgb(0xf8, 0xbb, 0xdd),
                text_area_bg: rgb(0xfc, 0xe4, 0xec),
                text_fg: rgb(0x2d, 0x2d, 0x2d),
                select_fg: rgb(0xff, 0xff, 0xff),
                entry_bg: rgb(0xfc, 0xe4, 0xec),
            },
            PaletteName::Default => ColorPalette {
                accent: rgb(0x15, 0x65, 0xc0),
                window_bg: rgb(0xe8, 0xea, 0xf0),
                panel_bg: rgb(0xd0, 0xd4, 0xe0),
                text_area_bg: rgb(0xff, 0xff, 0xff),
                text_fg: rgb(0x1a, 0x1a, 0x2e),
                select_fg: rgb(0xff, 0xff, 0xff),
                entry_bg: rgb(0xff, 0xff, 0xff),
            },
            PaletteName::Night => ColorPalette {
                accent: rgb(0xad, 0x70, 0xf7),
                window_bg: rgb(0x12, 0x12, 0x12),
                panel_bg: rgb(0x1e, 0x1e, 0x1e),
                text_area_bg: rgb(0x2d, 0x2d, 0x2d),
                text_fg: rgb(0xe0, 0xe0, 0xe0),
                select_fg: rgb(0x12, 0x12, 0x12),
                entry_bg: rgb(0x3a, 0x3a, 0x3a),
            },
        }
    }

    /// The theme's display label.
    pub fn label(&self) -> (l: &'static str)
        ensures
            l@ == match *self {
                PaletteName::Cute => "cute"@,
                PaletteName::Default => "default"@,
                PaletteName::Night => "night"@,
            },
    {
        match self {
            PaletteName::Cute => "cute",
            PaletteName::Default => "default",
            PaletteName::Night => "night",
        }
    }
}

} // verus!
