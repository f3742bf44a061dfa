use vstd::prelude::*;

verus! {

/// The named colours of the interface; `rgb` gives each one's red, green and blue.
#[derive(Clone, Copy, Debug, PartialEq, Eq, Structural)]
pub enum Palette {
    Background,
    Surface,
    Surface2,
    Surface3,
    Border,
    BorderLight,
    Amber,
    Sky,
    Mint,
    Lavender,
    Coral,
    Peach,
    Text,
    TextDim,
    TextMid,
    TextBright,
    TableControl,
    TableDigit,
    TableUpper,
    TableLower,
    TablePunct,
    TableSpecial,
}

impl Palette {
    pub open spec fn spec_rgb(self) -> (u8, u8, u8) {
        match self {
            Palette::Background => (18, 20, 26),
            Palette::Surface => (26, 29, 38),
            Palette::Surface2 => (34, 37, 50),
            Palette::Surface3 => (44, 48, 64),
            Palette::Border => (62, 68, 92),
            Palette::BorderLight => (80, 88, 115),
            Palette::Amber => (230, 185, 110),
            Palette::Sky => (110, 195, 235),
            Palette::Mint => (100, 210, 160),
            Palette::Lavender => (175, 145, 235),
            Palette::Coral => (235, 130, 120),
            Palette::Peach => (235, 165, 100),
            Palette::Text => (200, 205, 220),
            Palette::TextDim => (105, 112, 140),
            Palette::TextMid => (150, 158, 185),
            Palette::TextBright => (235, 238, 248),
            Palette::TableControl => (200, 130, 130),
            Palette::TableDigit => (230, 185, 110),
            Palette::TableUpper => (110, 195, 235),
            Palette::TableLower => (100, 210, 160),
            Palette::TablePunct => (175, 145, 235),
            Palette::TableSpecial => (160, 165, 185),
        }
    }

    /// The colour's red, green and blue components.
    pub fn rgb(&self) -> (r: (u8, u8, u8))
        ensures
            r == self.spec_rgb(),
    {
        match self {
            Palette::Background => (18, 20, 26),
            Palette::Surface => (26, 29, 38),
            Palette::Surface2 => (34, 37, 50),
            Palette::Surface3 => (44, 48, 64),
            Palette::Border => (62, 68, 92),
            Palette::BorderLight => (80, 88, 115),
            Palette::Amber => (230, 185, 110),
            Palette::Sky => (110, 195, 235),
            Palette::Mint => (100, 210, 160),
            Palette::Lavender => (175, 145, 235),
            Palette::Coral => (235, 130, 120),
            Palette::Peach => (235, 165, 100),
            Palette::Text => (200, 205, 220),
            Palette::TextDim => (105, 112, 140),
            Palette::TextMid => (150, 158, 185),
            Palette::TextBright => (235, 238, 248),
            Palette::TableControl => (200, 130, 130),
            Palette::TableDigit => (230, 185, 110),
            Palette::TableUpper => (110, 195, 235),
            Palette::TableLower => (100, 210, 160),
            Palette::TablePunct => (175, 145, 235),
            Palette::TableSpecial => (160, 165, 185),
        }
    }
}

} // verus!
