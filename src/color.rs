//! ANSI colouring of text, done by `ansi_term`, and the turning of
//! characters into a `String`.

use ansi_term::Colour;
use vstd::prelude::*;

verus! {

/// The colours this library paints with: a named terminal colour, or an
/// entry of the 256-colour palette.
#[derive(Clone, Copy, Debug, PartialEq, Eq, Structural)]
pub enum Accent {
    Blue,
    Fixed(u8),
}

/// The colour of the address digits.
pub const ADDRESS_ACCENT: Accent = Accent::Blue;

/// The palette entry of the printable characters.
pub const TEXT_PALETTE_ENTRY: u8 = 202;

/// The escape sequence that switches `accent` on as foreground colour.
pub open spec fn accent_prefix(accent: Accent) -> Seq<char> {
    match accent {
        Accent::Blue => seq!['\x1b', '[', '3', '4', 'm'],
        Accent::Fixed(n) => seq!['\x1b', '[', '3', '8', ';', '5', ';'] + crate::radix::digits(
            n as nat,
            10,
        ) + seq!['m'],
    }
}

/// The escape sequence that resets all styles.
pub open spec fn reset_suffix() -> Seq<char> {
    seq!['\x1b', '[', '0', 'm']
}

/// `s` painted in `accent`.
pub open spec fn painted(accent: Accent, s: Seq<char>) -> Seq<char> {
    accent_prefix(accent) + s + reset_suffix()
}

/// Relies on ansi_term's `Colour::paint` and the `Display` of the painted
/// string: the foreground style's prefix, the text, then the reset sequence.
#[verifier::external_body]
pub(crate) fn paint(accent: Accent, s: &Vec<char>) -> (r: Vec<char>)
    ensures
        r@ == painted(accent, s@),
{
    let colour = match accent {
        Accent::Blue => Colour::Blue,
        Accent::Fixed(n) => Colour::Fixed(n),
    };
    let text: String = s.iter().collect();
    colour.paint(text).to_string().chars().collect()
}

/// Relies on `String`'s `FromIterator<&char>`: the string holds the
/// characters in order.
#[verifier::external_body]
pub(crate) fn string_of(cs: &Vec<char>) -> (r: String)
    ensures
        r@ == cs@,
{
    cs.iter().collect()
}

} // verus!
