use vstd::prelude::*;
use crate::palette::Palette;

verus! {

/// The four conversions the converter offers, in the order the tabs show them.
#[derive(Clone, Copy, Debug, PartialEq, Eq, Structural)]
pub enum Mode {
    TextToDecimal,
    TextToHex,
    DecimalToText,
    HexToText,
}

impl Mode {
    /// Position of the mode among the tabs.
    pub open spec fn spec_index(self) -> nat {
        match self {
            Mode::TextToDecimal => 0,
            Mode::TextToHex => 1,
            Mode::DecimalToText => 2,
            Mode::HexToText => 3,
        }
    }

    /// The mode at a tab position; every position from 3 on names the last tab.
    pub open spec fn spec_from_index(i: nat) -> Mode {
        if i == 0 {
            Mode::TextToDecimal
        } else if i == 1 {
            Mode::TextToHex
        } else if i == 2 {
            Mode::DecimalToText
        } else {
            Mode::HexToText
        }
    }

    pub fn index(&self) -> (r: usize)
        ensures
            r == self.spec_index(),
            r < 4,
    {
        match self {
            Mode::TextToDecimal => 0,
            Mode::TextToHex => 1,
            Mode::DecimalToText => 2,
            Mode::HexToText => 3,
        }
    }

    pub fn from_index(i: usize) -> (m: Mode)
        ensures
            m == Mode::spec_from_index(i as nat),
    {
        match i {
            0 => Mode::TextToDecimal,
            1 => Mode::TextToHex,
            2 => Mode::DecimalToText,
            _ => Mode::HexToText,
        }
    }
}

} // verus!

verus! {

impl Mode {
    pub open spec fn spec_label(self) -> Seq<char> {
        match self {
            Mode::TextToDecimal => "Text  →  Decimal"@,
            Mode::TextToHex => "Text  →  Hex"@,
            Mode::DecimalToText => "Decimal  →  Text"@,
            Mode::HexToText => "Hex  →  Text"@,
        }
    }

    /// The title of the mode's tab.
    pub fn label(&self) -> (r: &'static str)
        ensures
            r@ == self.spec_label(),
    {
        match self {
            Mode::TextToDecimal => "Text  →  Decimal",
            Mode::TextToHex => "Text  →  Hex",
            Mode::DecimalToText => "Decimal  →  Text",
            Mode::HexToText => "Hex  →  Text",
        }
    }

    pub open spec fn spec_input_hint(self) -> Seq<char> {
        match self {
            Mode::TextToDecimal | Mode::TextToHex => "Type any text…"@,
            Mode::DecimalToText => "e.g.  72 101 108  or  72,101,108"@,
            Mode::HexToText => "e.g.  48 65 6C  or  48,65,6C"@,
        }
    }

    /// What the empty input box suggests typing.
    pub fn input_hint(&self) -> (r: &'static str)
        ensures
            r@ == self.spec_input_hint(),
    {
        match self {
            Mode::TextToDecimal | Mode::TextToHex => "Type any text…",
            Mode::DecimalToText => "e.g.  72 101 108  or  72,101,108",
            Mode::HexToText => "e.g.  48 65 6C  or  48,65,6C",
        }
    }

    pub open spec fn spec_accent(self) -> Palette {
        match self {
            Mode::TextToDecimal => Palette::Amber,
            Mode::TextToHex => Palette::Sky,
            Mode::DecimalToText => Palette::Mint,
            Mode::HexToText => Palette::Lavender,
        }
    }

    /// The colour that marks the mode.
    pub fn accent(&self) -> (r: Palette)
        ensures
            r == self.spec_accent(),
    {
        match self {
            Mode::TextToDecimal => Palette::Amber,
            Mode::TextToHex => Palette::Sky,
            Mode::DecimalToText => Palette::Mint,
            Mode::HexToText => Palette::Lavender,
        }
    }

    pub open spec fn spec_icon(self) -> Seq<char> {
        match self {
            Mode::TextToDecimal => "◆"@,
            Mode::TextToHex => "◈"@,
            Mode::DecimalToText => "◉"@,
            Mode::HexToText => "◎"@,
        }
    }

    /// The symbol in front of the mode's label.
    pub fn icon(&self) -> (r: &'static str)
        ensures
            r@ == self.spec_icon(),
    {
        match self {
            Mode::TextToDecimal => "◆",
            Mode::TextToHex => "◈",
            Mode::DecimalToText => "◉",
            Mode::HexToText => "◎",
        }
    }

    /// All modes in tab order.
    pub fn all() -> (r: [Mode; 4])
        ensures
            r@ == seq![Mode::TextToDecimal, Mode::TextToHex, Mode::DecimalToText, Mode::HexToText],
            forall|i: int| 0 <= i < 4 ==> (#[trigger] r@[i]).spec_index() == i,
    {
        let r = [Mode::TextToDecimal, Mode::TextToHex, Mode::DecimalToText, Mode::HexToText];
        assert(r@ =~= seq![Mode::TextToDecimal, Mode::TextToHex, Mode::DecimalToText, Mode::HexToText]);
        r
    }

    /// The mode after this one, the last wrapping round to the first.
    pub open spec fn spec_next(self) -> Mode {
        Mode::spec_from_index((self.spec_index() + 1) % 4)
    }

    /// The mode before this one, the first wrapping round to the last.
    pub open spec fn spec_prev(self) -> Mode {
        Mode::spec_from_index(((self.spec_index() + 4 - 1) % 4) as nat)
    }
}

/// How the codes written from text are separated.
#[derive(Clone, Copy, Debug, PartialEq, Eq, Structural)]
pub enum Separator {
    Space,
    Comma,
    Newline,
}

impl Separator {
    pub open spec fn spec_label(self) -> Seq<char> {
        match self {
            Separator::Space => "Space"@,
            Separator::Comma => "Comma"@,
            Separator::Newline => "Newline"@,
        }
    }

    /// The separator's name.
    pub fn label(&self) -> (r: &'static str)
        ensures
            r@ == self.spec_label(),
    {
        match self {
            Separator::Space => "Space",
            Separator::Comma => "Comma",
            Separator::Newline => "Newline",
        }
    }

    pub open spec fn spec_next(self) -> Separator {
        match self {
            Separator::Space => Separator::Comma,
            Separator::Comma => Separator::Newline,
            Separator::Newline => Separator::Space,
        }
    }

    /// The separator that follows this one: Space, Comma, Newline, and round again.
    pub fn next(&self) -> (r: Separator)
        ensures
            r == self.spec_next(),
    {
        match self {
            Separator::Space => Separator::Comma,
            Separator::Comma => Separator::Newline,
            Separator::Newline => Separator::Space,
        }
    }

    /// The one character placed between codes.
    pub open spec fn spec_char(self) -> char {
        match self {
            Separator::Space => ' ',
            Separator::Comma => ',',
            Separator::Newline => '\n',
        }
    }

    /// The text placed between codes.
    pub fn char(&self) -> (r: &'static str)
        ensures
            r@ == seq![self.spec_char()],
    {
        proof {
            reveal_strlit(" ");
            reveal_strlit(",");
            reveal_strlit("\n");
        }
        match self {
            Separator::Space => " ",
            Separator::Comma => ",",
            Separator::Newline => "\n",
        }
    }
}

} // verus!
