//! The Radium brand palette and how it is rendered on terminals that
//! support 16 colors, 256 colors or true color.
use vstd::prelude::*;

verus! {

/// How many colors the terminal can show.
#[derive(Debug, Clone, Copy, PartialEq, Eq)]
pub enum ColorSupport {
    /// The 16 ANSI colors.
    Color16,
    /// The 256-color palette.
    Color256,
    /// 24-bit color.
    Truecolor,
}

/// A terminal color: one of the 16 ANSI colors, or an RGB value.
#[derive(Debug, Clone, Copy, PartialEq, Eq)]
pub enum BrandColor {
    Black,
    Red,
    Green,
    Yellow,
    Blue,
    Magenta,
    Cyan,
    White,
    BrightBlack,
    BrightRed,
    BrightGreen,
    BrightYellow,
    BrightBlue,
    BrightMagenta,
    BrightCyan,
    BrightWhite,
    /// A 24-bit color.
    TrueColor { r: u8, g: u8, b: u8 },
}

/// Primary brand color: cyan `#00D9FF`.
pub const PRIMARY_RGB: (u8, u8, u8) = (0, 217, 255);

/// Secondary brand color: purple `#A78BFA`.
pub const SECONDARY_RGB: (u8, u8, u8) = (167, 139, 250);

/// Purple accent color `#6250D0`.
pub const PURPLE_RGB: (u8, u8, u8) = (98, 80, 208);

/// Success color: green `#10B981`.
pub const SUCCESS_RGB: (u8, u8, u8) = (16, 185, 129);

/// Warning color: yellow `#F59E0B`.
pub const WARNING_RGB: (u8, u8, u8) = (245, 158, 11);

/// Error color: red `#EF4444`.
pub const ERROR_RGB: (u8, u8, u8) = (239, 68, 68);

/// Info color: blue `#06B6D4`.
pub const INFO_RGB: (u8, u8, u8) = (6, 182, 212);

/// The ANSI color with index `i`: 0 to 7 the standard colors, 8 to 15 the
/// bright ones; an index beyond 15 falls back to bright cyan.
pub open spec fn ansi_color(i: u8) -> BrandColor {
    if i == 0 {
        BrandColor::Black
    } else if i == 1 {
        BrandColor::Red
    } else if i == 2 {
        BrandColor::Green
    } else if i == 3 {
        BrandColor::Yellow
    } else if i == 4 {
        BrandColor::Blue
    } else if i == 5 {
        BrandColor::Magenta
    } else if i == 6 {
        BrandColor::Cyan
    } else if i == 7 {
        BrandColor::White
    } else if i == 8 {
        BrandColor::BrightBlack
    } else if i == 9 {
        BrandColor::BrightRed
    } else if i == 10 {
        BrandColor::BrightGreen
    } else if i == 11 {
        BrandColor::BrightYellow
    } else if i == 12 {
        BrandColor::BrightBlue
    } else if i == 13 {
        BrandColor::BrightMagenta
    } else if i == 14 {
        BrandColor::BrightCyan
    } else if i == 15 {
        BrandColor::BrightWhite
    } else {
        BrandColor::BrightCyan
    }
}

/// How a brand color is rendered: as true color on terminals with 256 or
/// more colors, as the ANSI color of index `ansi16` (the terminal layer's
/// closest match) on 16-color terminals.
pub open spec fn rendered(support: ColorSupport, rgb: (u8, u8, u8), ansi16: u8) -> BrandColor {
    match support {
        ColorSupport::Color16 => ansi_color(ansi16),
        _ => BrandColor::TrueColor { r: rgb.0, g: rgb.1, b: rgb.2 },
    }
}

/// Terminals with 256 colors and with true color show a brand color alike,
/// whatever the closest ANSI color is.
pub proof fn lemma_wide_terminals_agree(rgb: (u8, u8, u8), a: u8, b: u8)
    ensures
        rendered(ColorSupport::Color256, rgb, a) == rendered(ColorSupport::Truecolor, rgb, b),
{
}

/// The brand palette for a terminal.
#[derive(Debug, Clone, Copy, PartialEq, Eq)]
pub struct RadiumBrandColors {
    color_support: ColorSupport,
}

impl RadiumBrandColors {
    /// The terminal's color support.
    pub closed spec fn support(self) -> ColorSupport {
        self.color_support
    }

    /// The palette for a terminal with the given color support.
    pub fn with_support(support: ColorSupport) -> (r: Self)
        ensures
            r.support() == support,
    {
        RadiumBrandColors { color_support: support }
    }

    /// The terminal color support this palette was made for.
    pub fn color_support(&self) -> (r: ColorSupport)
        ensures
            r == self.support(),
    {
        self.color_support
    }

    /// The terminal color for `rgb`, given `ansi16`, the index of the ANSI
    /// color closest to it.
    pub fn rgb_to_color(&self, rgb: (u8, u8, u8), ansi16: u8) -> (r: BrandColor)
        ensures
            r == rendered(self.support(), rgb, ansi16),
    {
        match self.color_support {
            ColorSupport::Truecolor => BrandColor::TrueColor { r: rgb.0, g: rgb.1, b: rgb.2 },
            ColorSupport::Color256 => BrandColor::TrueColor { r: rgb.0, g: rgb.1, b: rgb.2 },
            ColorSupport::Color16 => {
                if ansi16 < 8 {
                    match ansi16 {
                        0 => BrandColor::Black,
                        1 => BrandColor::Red,
                        2 => BrandColor::Green,
                        3 => BrandColor::Yellow,
                        4 => BrandColor::Blue,
                        5 => BrandColor::Magenta,
                        6 => BrandColor::Cyan,
                        7 => BrandColor::White,
                        _ => BrandColor::Cyan,
                    }
                } else {
                    match ansi16 {
                        8 => BrandColor::BrightBlack,
                        9 => BrandColor::BrightRed,
                        10 => BrandColor::BrightGreen,
                        11 => BrandColor::BrightYellow,
                        12 => BrandColor::BrightBlue,
                        13 => BrandColor::BrightMagenta,
                        14 => BrandColor::BrightCyan,
                        15 => BrandColor::BrightWhite,
                        _ => BrandColor::BrightCyan,
                    }
                }
            },
        }
    }

    /// The primary brand color (cyan), `ansi16` being its closest ANSI color.
    pub fn primary(&self, ansi16: u8) -> (r: BrandColor)
        ensures
            r == rendered(self.support(), PRIMARY_RGB, ansi16),
    {
        self.rgb_to_color(PRIMARY_RGB, ansi16)
    }

    /// The secondary brand color (purple).
    pub fn secondary(&self, ansi16: u8) -> (r: BrandColor)
        ensures
            r == rendered(self.support(), SECONDARY_RGB, ansi16),
    {
        self.rgb_to_color(SECONDARY_RGB, ansi16)
    }

    /// The purple accent color.
    pub fn purple(&self, ansi16: u8) -> (r: BrandColor)
        ensures
            r == rendered(self.support(), PURPLE_RGB, ansi16),
    {
        self.rgb_to_color(PURPLE_RGB, ansi16)
    }

    /// The success color (green).
    pub fn success(&self, ansi16: u8) -> (r: BrandColor)
        ensures
            r == rendered(self.support(), SUCCESS_RGB, ansi16),
    {
        self.rgb_to_color(SUCCESS_RGB, ansi16)
    }

    /// The warning color (yellow).
    pub fn warning(&self, ansi16: u8) -> (r: BrandColor)
        ensures
            r == rendered(self.support(), WARNING_RGB, ansi16),
    {
        self.rgb_to_color(WARNING_RGB, ansi16)
    }

    /// The error color (red).
    pub fn error(&self, ansi16: u8) -> (r: BrandColor)
        ensures
            r == rendered(self.support(), ERROR_RGB, ansi16),
    {
        self.rgb_to_color(ERROR_RGB, ansi16)
    }

    /// The info color (blue).
    pub fn info(&self, ansi16: u8) -> (r: BrandColor)
        ensures
            r == rendered(self.support(), INFO_RGB, ansi16),
    {
        self.rgb_to_color(INFO_RGB, ansi16)
    }
    /// The primary color, under the name that replaced `.cyan()`.
    pub fn primary_color(&self, ansi16: u8) -> (r: BrandColor)
        ensures
            r == rendered(self.support(), PRIMARY_RGB, ansi16),
    {
        self.primary(ansi16)
    }

    /// The success color, under the name that replaced `.green()`.
    pub fn success_color(&self, ansi16: u8) -> (r: BrandColor)
        ensures
            r == rendered(self.support(), SUCCESS_RGB, ansi16),
    {
        self.success(ansi16)
    }

    /// The error color, under the name that replaced `.red()`.
    pub fn error_color(&self, ansi16: u8) -> (r: BrandColor)
        ensures
            r == rendered(self.support(), ERROR_RGB, ansi16),
    {
        self.error(ansi16)
    }

    /// The warning color, under the name that replaced `.yellow()`.
    pub fn warning_color(&self, ansi16: u8) -> (r: BrandColor)
        ensures
            r == rendered(self.support(), WARNING_RGB, ansi16),
    {
        self.warning(ansi16)
    }

    /// The info color, under the name that replaced `.blue()`.
    pub fn info_color(&self, ansi16: u8) -> (r: BrandColor)
        ensures
            r == rendered(self.support(), INFO_RGB, ansi16),
    {
        self.info(ansi16)
    }
}

} // verus!
