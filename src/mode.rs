//! The display modes and the flags that choose one.

use vstd::prelude::*;

verus! {

/// How the words of a row are encoded.
#[derive(Clone, Copy, Debug, PartialEq, Eq, Structural)]
pub enum DisplayMode {
    /// One byte per word, three octal digits.
    OneByteOctal,
    /// One byte per word, shown as the character itself.
    OneByteChar,
    /// One byte per word, two hexadecimal digits.
    CanonicalHex,
    /// Two bytes per word, five decimal digits.
    TwoByteDecimal,
    /// Two bytes per word, six octal digits.
    TwoByteOctal,
    /// Two bytes per word, four hexadecimal digits.
    TwoByteHex,
}

impl DisplayMode {
    /// Bytes per word: 1 or 2.
    pub open spec fn spec_word_bytes(self) -> nat {
        match self {
            DisplayMode::OneByteOctal | DisplayMode::OneByteChar | DisplayMode::CanonicalHex => 1,
            _ => 2,
        }
    }

    /// Width in characters of one word's column, used to align a short row.
    pub open spec fn spec_column_width(self) -> nat {
        match self {
            DisplayMode::OneByteOctal | DisplayMode::OneByteChar => 4,
            DisplayMode::CanonicalHex => 3,
            DisplayMode::TwoByteHex => 5,
            DisplayMode::TwoByteDecimal | DisplayMode::TwoByteOctal => 8,
        }
    }

    pub fn word_bytes(&self) -> (r: usize)
        ensures
            r == self.spec_word_bytes(),
            r == 1 || r == 2,
    {
        match self {
            DisplayMode::OneByteOctal | DisplayMode::OneByteChar | DisplayMode::CanonicalHex => 1,
            _ => 2,
        }
    }

    pub fn column_width(&self) -> (r: usize)
        ensures
            r == self.spec_column_width(),
    {
        match self {
            DisplayMode::OneByteOctal | DisplayMode::OneByteChar => 4,
            DisplayMode::CanonicalHex => 3,
            DisplayMode::TwoByteHex => 5,
            DisplayMode::TwoByteDecimal | DisplayMode::TwoByteOctal => 8,
        }
    }
}

/// The mode that a set of flags chooses: the first set flag in the order
/// one-byte octal, one-byte char, canonical hex, two-byte decimal, two-byte
/// octal; two-byte hex when none of these is set.
pub open spec fn mode_of_flags(
    one_byte_octal: bool,
    one_byte_char: bool,
    canonical_hex: bool,
    two_byte_dec: bool,
    two_byte_octal: bool,
) -> DisplayMode {
    if one_byte_octal {
        DisplayMode::OneByteOctal
    } else if one_byte_char {
        DisplayMode::OneByteChar
    } else if canonical_hex {
        DisplayMode::CanonicalHex
    } else if two_byte_dec {
        DisplayMode::TwoByteDecimal
    } else if two_byte_octal {
        DisplayMode::TwoByteOctal
    } else {
        DisplayMode::TwoByteHex
    }
}

/// Chooses the display mode from the command-line flags. Conflicting flags
/// are no error: the first in priority order wins. The two-byte-hex flag
/// names the default and so never changes the outcome.
pub fn select_mode(
    one_byte_octal: bool,
    one_byte_char: bool,
    canonical_hex: bool,
    two_byte_hex: bool,
    two_byte_dec: bool,
    two_byte_octal: bool,
) -> (r: DisplayMode)
    ensures
        r == mode_of_flags(one_byte_octal, one_byte_char, canonical_hex, two_byte_dec, two_byte_octal),
{
    if one_byte_octal {
        DisplayMode::OneByteOctal
    } else if one_byte_char {
        DisplayMode::OneByteChar
    } else if canonical_hex {
        DisplayMode::CanonicalHex
    } else if two_byte_dec {
        DisplayMode::TwoByteDecimal
    } else if two_byte_octal {
        DisplayMode::TwoByteOctal
    } else if two_byte_hex {
        DisplayMode::TwoByteHex
    } else {
        DisplayMode::TwoByteHex
    }
}

} // verus!
