//! One row of the dump: address column, word column, alignment and
//! character column.

use crate::color::{paint, painted, string_of, Accent, ADDRESS_ACCENT, TEXT_PALETTE_ENTRY};
use crate::mode::DisplayMode;
use crate::radix::{push_radix, radix_text};
use vstd::prelude::*;

verus! {

/// Bytes per row.
pub const ROW_BYTES: usize = 16;

/// A byte that, read as the Unicode scalar of the same value, is a control
/// character: `0x00`-`0x1f` and `0x7f`-`0x9f`.
pub open spec fn is_control_byte(b: u8) -> bool {
    b <= 0x1f || (0x7f <= b && b <= 0x9f)
}

/// Whether `b` is a control byte.
pub fn is_control(b: u8) -> (r: bool)
    ensures
        r == is_control_byte(b),
{
    b <= 0x1f || (0x7f <= b && b <= 0x9f)
}

/// The character whose scalar value is the byte.
pub open spec fn char_of(b: u8) -> char {
    b as char
}

/// Number of words that `n` bytes make at `w` bytes per word, a partial
/// word at the end counting as one.
pub open spec fn word_count(n: nat, w: nat) -> nat {
    if n % w == 0 {
        n / w
    } else {
        n / w + 1
    }
}

/// Word `i` of a row: the byte itself at one byte per word; at two, the
/// big-endian value of bytes `2i` and `2i+1`, where a missing second byte
/// counts as zero, so that a lone final byte lands in the high position.
pub open spec fn word_at(line: Seq<u8>, w: nat, i: nat) -> nat {
    if w == 1 {
        line[i as int] as nat
    } else if 2 * i + 1 < line.len() {
        line[2 * i as int] as nat * 256 + line[2 * i as int + 1] as nat
    } else {
        line[2 * i as int] as nat * 256
    }
}

/// The text of one word in `mode`.
pub open spec fn word_text(mode: DisplayMode, word: nat) -> Seq<char> {
    match mode {
        DisplayMode::OneByteOctal => seq![' '] + radix_text(word, 8, 3),
        DisplayMode::OneByteChar => if is_control_byte(word as u8) {
            seq![' ']
        } else {
            seq![' ', char_of(word as u8), ' ', ' ']
        },
        DisplayMode::CanonicalHex => seq![' '] + radix_text(word, 16, 2),
        DisplayMode::TwoByteDecimal => seq![' ', ' '] + radix_text(word, 10, 5) + seq![' '],
        DisplayMode::TwoByteOctal => seq![' '] + radix_text(word, 8, 6) + seq![' '],
        DisplayMode::TwoByteHex => seq![' '] + radix_text(word, 16, 4),
    }
}

/// The texts of the first `k` words of a row.
pub open spec fn words_text(line: Seq<u8>, mode: DisplayMode, k: nat) -> Seq<char>
    decreases k,
{
    if k == 0 {
        Seq::empty()
    } else {
        words_text(line, mode, (k - 1) as nat) + word_text(
            mode,
            word_at(line, mode.spec_word_bytes(), (k - 1) as nat),
        )
    }
}

/// The whole word column of a row.
pub open spec fn word_column(line: Seq<u8>, mode: DisplayMode) -> Seq<char> {
    words_text(line, mode, word_count(line.len(), mode.spec_word_bytes()))
}

pub open spec fn spaces(k: nat) -> Seq<char> {
    Seq::new(k, |_i: int| ' ')
}

/// The blanks after the words of a short row (one of 1 to 15 bytes) that
/// stand for its missing words.
pub open spec fn padding_text(n: nat, mode: DisplayMode) -> Seq<char> {
    if 0 < n < 16 {
        spaces(mode.spec_column_width() * ((16 - n) as nat / mode.spec_word_bytes()))
    } else {
        Seq::empty()
    }
}

/// One cell of the character column: `.` for a control byte, else the
/// character, painted when `color` is on.
pub open spec fn char_cell(b: u8, color: bool) -> Seq<char> {
    if is_control_byte(b) {
        seq!['.']
    } else if color {
        painted(Accent::Fixed(TEXT_PALETTE_ENTRY), seq![char_of(b)])
    } else {
        seq![char_of(b)]
    }
}

/// The cells of the first `k` bytes of a row.
pub open spec fn chars_text(line: Seq<u8>, color: bool, k: nat) -> Seq<char>
    decreases k,
{
    if k == 0 {
        Seq::empty()
    } else {
        chars_text(line, color, (k - 1) as nat) + char_cell(line[k - 1], color)
    }
}

/// The address in eight or more lowercase hexadecimal digits, then `:`;
/// with `color` the digits alone are painted.
pub open spec fn address_text(address: nat, color: bool) -> Seq<char> {
    if color {
        painted(ADDRESS_ACCENT, radix_text(address, 16, 8)) + seq![':']
    } else {
        radix_text(address, 16, 8) + seq![':']
    }
}

/// Everything after the word column: nothing in one-byte-char mode, else
/// the alignment blanks, two spaces and the character column.
pub open spec fn tail_text(line: Seq<u8>, mode: DisplayMode, color: bool) -> Seq<char> {
    if mode == DisplayMode::OneByteChar {
        Seq::empty()
    } else {
        padding_text(line.len(), mode) + seq![' ', ' '] + chars_text(line, color, line.len())
    }
}

/// A whole row, led by the newline that separates it from what came before.
pub open spec fn line_text(line: Seq<u8>, address: nat, mode: DisplayMode, color: bool) -> Seq<
    char,
> {
    seq!['\n'] + address_text(address, color) + word_column(line, mode) + tail_text(
        line,
        mode,
        color,
    )
}

/// Word `i` of `line` at `w` bytes per word.
pub fn word_value(line: &[u8], w: usize, i: usize) -> (r: u16)
    requires
        w == 1 || w == 2,
        i < word_count(line@.len(), w as nat),
    ensures
        r as nat == word_at(line@, w as nat, i as nat),
{
    if w == 1 {
        line[i] as u16
    } else if i >= line.len() / 2 {
        (line[2 * i] as u16) * 256
    } else if 2 * i + 1 < line.len() {
        (line[2 * i] as u16) * 256 + line[2 * i + 1] as u16
    } else {
        (line[2 * i] as u16) * 256
    }
}

/// Appends the text of one word.
pub fn push_word(out: &mut Vec<char>, mode: DisplayMode, word: u16)
    requires
        mode.spec_word_bytes() == 1 ==> word < 256,
    ensures
        final(out)@ == old(out)@ + word_text(mode, word as nat),
{
    let ghost start = out@;
    let w = word as u64;
    match mode {
        DisplayMode::OneByteOctal => {
            out.push(' ');
            push_radix(out, w, 8, 3);
        },
        DisplayMode::OneByteChar => {
            let b = word as u8;
            if is_control(b) {
                out.push(' ');
            } else {
                out.push(' ');
                out.push(b as char);
                out.push(' ');
                out.push(' ');
            }
        },
        DisplayMode::CanonicalHex => {
            out.push(' ');
            push_radix(out, w, 16, 2);
        },
        DisplayMode::TwoByteDecimal => {
            out.push(' ');
            out.push(' ');
            push_radix(out, w, 10, 5);
            out.push(' ');
        },
        DisplayMode::TwoByteOctal => {
            out.push(' ');
            push_radix(out, w, 8, 6);
            out.push(' ');
        },
        DisplayMode::TwoByteHex => {
            out.push(' ');
            push_radix(out, w, 16, 4);
        },
    }
    assert(out@ =~= start + word_text(mode, word as nat));
}

/// Appends the address column.
fn push_address(out: &mut Vec<char>, address: usize, color: bool)
    ensures
        final(out)@ == old(out)@ + address_text(address as nat, color),
{
    let mut addr: Vec<char> = Vec::new();
    push_radix(&mut addr, address as u64, 16, 8);
    if color {
        let mut p = paint(ADDRESS_ACCENT, &addr);
        out.append(&mut p);
    } else {
        out.append(&mut addr);
    }
    out.push(':');
    assert(final(out)@ =~= old(out)@ + address_text(address as nat, color));
}

/// Appends the word column.
fn push_words(out: &mut Vec<char>, line: &[u8], mode: DisplayMode)
    ensures
        final(out)@ == old(out)@ + word_column(line@, mode),
{
    let ghost head = out@;
    let wb = mode.word_bytes();
    let n = line.len();
    let words = if n % wb == 0 {
        n / wb
    } else {
        n / wb + 1
    };
    let mut b: usize = 0;
    while b < words
        invariant
            b <= words,
            words == word_count(n as nat, wb as nat),
            wb == mode.spec_word_bytes(),
            wb == 1 || wb == 2,
            n == line@.len(),
            out@ == head + words_text(line@, mode, b as nat),
        decreases words - b,
    {
        let w = word_value(line, wb, b);
        push_word(out, mode, w);
        assert(out@ =~= head + words_text(line@, mode, (b + 1) as nat));
        b = b + 1;
    }
}

/// Appends the alignment blanks of a row of `n` bytes.
fn push_padding(out: &mut Vec<char>, n: usize, mode: DisplayMode)
    requires
        n <= 16,
    ensures
        final(out)@ == old(out)@ + padding_text(n as nat, mode),
{
    let ghost body = out@;
    if n % ROW_BYTES > 0 {
        let cw = mode.column_width();
        let q = (ROW_BYTES - n) / mode.word_bytes();
        assert(cw * q <= 128) by (nonlinear_arith)
            requires
                cw <= 8,
                q <= 16,
        ;
        let k = cw * q;
        let mut j: usize = 0;
        while j < k
            invariant
                j <= k,
                out@ == body + spaces(j as nat),
            decreases k - j,
        {
            out.push(' ');
            assert(out@ =~= body + spaces((j + 1) as nat));
            j = j + 1;
        }
    }
    assert(out@ =~= body + padding_text(n as nat, mode));
}

/// Appends the character column.
fn push_chars(out: &mut Vec<char>, line: &[u8], color: bool)
    ensures
        final(out)@ == old(out)@ + chars_text(line@, color, line@.len()),
{
    let ghost cols = out@;
    let n = line.len();
    let mut i: usize = 0;
    while i < n
        invariant
            i <= n,
            n == line@.len(),
            out@ == cols + chars_text(line@, color, i as nat),
        decreases n - i,
    {
        let c = line[i];
        if is_control(c) {
            out.push('.');
        } else if color {
            let mut cell: Vec<char> = Vec::new();
            cell.push(c as char);
            let mut p = paint(Accent::Fixed(TEXT_PALETTE_ENTRY), &cell);
            out.append(&mut p);
        } else {
            out.push(c as char);
        }
        assert(out@ =~= cols + chars_text(line@, color, (i + 1) as nat));
        i = i + 1;
    }
}

/// Renders one row of at most sixteen bytes that starts at `address`.
pub fn render_line(line: &[u8], address: usize, mode: DisplayMode, color: bool) -> (r: String)
    requires
        line@.len() <= 16,
    ensures
        r@ == line_text(line@, address as nat, mode, color),
{
    let mut out: Vec<char> = Vec::new();
    out.push('\n');
    push_address(&mut out, address, color);
    push_words(&mut out, line, mode);
    if mode != DisplayMode::OneByteChar {
        push_padding(&mut out, line.len(), mode);
        out.push(' ');
        out.push(' ');
        push_chars(&mut out, line, color);
    }
    assert(out@ =~= line_text(line@, address as nat, mode, color));
    string_of(&out)
}

/// In one-byte-char mode a control byte's word is a lone blank, and the
/// row is the address and the words alone: it has no character column.
pub proof fn lemma_char_mode_control(line: Seq<u8>, address: nat, color: bool, i: nat)
    requires
        i < line.len(),
        is_control_byte(line[i as int]),
    ensures
        word_text(DisplayMode::OneByteChar, word_at(line, 1, i)) == seq![' '],
        line_text(line, address, DisplayMode::OneByteChar, color) == seq!['\n'] + address_text(
            address,
            color,
        ) + word_column(line, DisplayMode::OneByteChar),
{
    let b = line[i as int];
    assert((b as nat) as u8 == b);
    assert(line_text(line, address, DisplayMode::OneByteChar, color) =~= seq!['\n']
        + address_text(address, color) + word_column(line, DisplayMode::OneByteChar));
}

/// In a two-byte mode a lone final byte of a row takes the high half of its
/// word, the low half being zero.
pub proof fn lemma_odd_trailing_byte(line: Seq<u8>)
    requires
        line.len() % 2 == 1,
    ensures
        word_count(line.len(), 2) == line.len() / 2 + 1,
        word_at(line, 2, line.len() / 2) == line.last() as nat * 256,
{
}

} // verus!
