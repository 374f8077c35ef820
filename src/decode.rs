//! Reading a word column back into bytes, for the modes that lose nothing.

use crate::line::{word_at, word_column, word_count, word_text, words_text};
use crate::mode::DisplayMode;
use crate::radix::{lemma_radix_round_trip, radix_text, value_of};
use vstd::arithmetic::power::pow;
use vstd::prelude::*;

verus! {

/// The modes whose word column can be read back: one-byte octal,
/// canonical hex and two-byte hex.
pub open spec fn is_lossless(mode: DisplayMode) -> bool {
    mode == DisplayMode::OneByteOctal || mode == DisplayMode::CanonicalHex || mode
        == DisplayMode::TwoByteHex
}

/// The radix of the digits of a lossless mode.
pub open spec fn base_of(mode: DisplayMode) -> nat {
    if mode == DisplayMode::OneByteOctal {
        8
    } else {
        16
    }
}

/// The numbers of the first `k` fields of a text made of fields of `width`
/// characters, each a blank and then digits in `base`.
pub open spec fn decode_fields(text: Seq<char>, width: nat, base: nat, k: nat) -> Seq<nat> {
    Seq::new(
        k,
        |i: int| value_of(text.subrange(i * width + 1, i * width + width), base),
    )
}

/// The `n` bytes that a list of words of `w` bytes each stands for, high
/// byte first.
pub open spec fn bytes_of_words(words: Seq<nat>, w: nat, n: nat) -> Seq<u8> {
    Seq::new(
        n,
        |i: int|
            if w == 1 {
                words[i] as u8
            } else if i % 2 == 0 {
                (words[i / 2] / 256) as u8
            } else {
                (words[i / 2] % 256) as u8
            },
    )
}

/// The `n` bytes that a word column of a lossless mode stands for.
pub open spec fn decode_column(text: Seq<char>, mode: DisplayMode, n: nat) -> Seq<u8> {
    bytes_of_words(
        decode_fields(
            text,
            mode.spec_column_width(),
            base_of(mode),
            word_count(n, mode.spec_word_bytes()),
        ),
        mode.spec_word_bytes(),
        n,
    )
}

/// In a lossless mode a word's text is a blank and its digits, exactly as
/// wide as the mode's column, and the digits read back give the word.
proof fn lemma_word_field(mode: DisplayMode, word: nat)
    requires
        is_lossless(mode),
        mode.spec_word_bytes() == 1 ==> word < 256,
        word < 65536,
    ensures
        word_text(mode, word).len() == mode.spec_column_width(),
        value_of(word_text(mode, word).subrange(1, mode.spec_column_width() as int), base_of(mode))
            == word,
{
    reveal(pow);
    assert(pow(8, 0) == 1);
    assert(pow(8, 1) == 8);
    assert(pow(8, 2) == 64);
    assert(pow(8, 3) == 512);
    assert(pow(16, 0) == 1);
    assert(pow(16, 1) == 16);
    assert(pow(16, 2) == 256);
    assert(pow(16, 3) == 4096);
    assert(pow(16, 4) == 65536);
    let t = word_text(mode, word);
    match mode {
        DisplayMode::OneByteOctal => {
            lemma_radix_round_trip(word, 8, 3);
            assert(t.subrange(1, 4) =~= radix_text(word, 8, 3));
        },
        DisplayMode::CanonicalHex => {
            lemma_radix_round_trip(word, 16, 2);
            assert(t.subrange(1, 3) =~= radix_text(word, 16, 2));
        },
        _ => {
            lemma_radix_round_trip(word, 16, 4);
            assert(t.subrange(1, 5) =~= radix_text(word, 16, 4));
        },
    }
}

/// The first `k` words of a row in a lossless mode lie side by side in
/// fields of the column's width.
proof fn lemma_words_fields(line: Seq<u8>, mode: DisplayMode, k: nat)
    requires
        is_lossless(mode),
        k <= word_count(line.len(), mode.spec_word_bytes()),
    ensures
        words_text(line, mode, k).len() == k * mode.spec_column_width(),
        forall|i: int|
            0 <= i < k ==> #[trigger] words_text(line, mode, k).subrange(
                i * mode.spec_column_width(),
                i * mode.spec_column_width() + mode.spec_column_width(),
            ) == word_text(mode, word_at(line, mode.spec_word_bytes(), i as nat)),
    decreases k,
{
    let w = mode.spec_word_bytes();
    let c = mode.spec_column_width();
    if k > 0 {
        let j = (k - 1) as nat;
        lemma_words_fields(line, mode, j);
        let word = word_at(line, w, j);
        if w == 2 {
            assert(2 * j < line.len());
        }
        lemma_word_field(mode, word);
        let prev = words_text(line, mode, j);
        let t = words_text(line, mode, k);
        assert(t == prev + word_text(mode, word));
        assert(j * c + c == k * c) by (nonlinear_arith)
            requires
                k == j + 1,
        ;
        assert forall|i: int| 0 <= i < k implies #[trigger] t.subrange(i * c, i * c + c)
            == word_text(mode, word_at(line, w, i as nat)) by {
            if i < j {
                assert(i * c + c <= j * c) by (nonlinear_arith)
                    requires
                        i < j,
                        c >= 0,
                ;
                assert(t.subrange(i * c, i * c + c) =~= prev.subrange(i * c, i * c + c));
            } else {
                assert(t.subrange(i * c, i * c + c) =~= word_text(mode, word));
            }
        }
    }
}

/// In the one-byte octal, canonical hex and two-byte hex modes, reading the
/// word column of a row back gives the row's bytes exactly.
pub proof fn lemma_round_trip(line: Seq<u8>, mode: DisplayMode)
    requires
        is_lossless(mode),
    ensures
        decode_column(word_column(line, mode), mode, line.len()) == line,
{
    let w = mode.spec_word_bytes();
    let c = mode.spec_column_width();
    let k = word_count(line.len(), w);
    let text = word_column(line, mode);
    lemma_words_fields(line, mode, k);
    let words = decode_fields(text, c, base_of(mode), k);
    assert forall|i: int| 0 <= i < k implies #[trigger] words[i] == word_at(line, w, i as nat) by {
        let word = word_at(line, w, i as nat);
        if w == 2 {
            assert(2 * i < line.len());
        }
        lemma_word_field(mode, word);
        let f = text.subrange(i * c, i * c + c);
        assert(f == word_text(mode, word));
        assert(text.subrange(i * c + 1, i * c + c) =~= f.subrange(1, c as int));
    }
    let out = decode_column(text, mode, line.len());
    assert forall|i: int| 0 <= i < line.len() implies #[trigger] out[i] == line[i] by {
        if w == 1 {
            assert(words[i] == line[i] as nat);
        } else {
            let h = i / 2;
            assert(h < k);
            let word = words[h];
            if i % 2 == 0 {
                assert(word / 256 == line[i] as nat);
            } else {
                assert(2 * h + 1 == i);
                assert(word == line[i - 1] as nat * 256 + line[i] as nat);
                assert(word % 256 == line[i] as nat);
            }
        }
    }
    assert(out =~= line);
}

} // verus!
