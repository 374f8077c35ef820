//! Unsigned integers written out in base 8, 10 or 16, and read back.

use vstd::arithmetic::power::pow;
use vstd::prelude::*;

verus! {

/// The digit character for `d` (`0`-`9`, then lowercase `a`-`f`).
pub open spec fn digit_char(d: nat) -> char {
    if d < 10 {
        (('0' as nat) + d) as char
    } else {
        (('a' as nat) + d - 10) as char
    }
}

/// The value of a digit character; anything that is not a digit counts as 0.
pub open spec fn digit_value(c: char) -> nat {
    if '0' <= c && c <= '9' {
        (c as nat - '0' as nat) as nat
    } else if 'a' <= c && c <= 'f' {
        (c as nat - 'a' as nat + 10) as nat
    } else {
        0
    }
}

/// A supported radix.
pub open spec fn valid_base(base: nat) -> bool {
    2 <= base <= 16
}

/// The shortest digit string for `n` in `base` (`"0"` for zero).
pub open spec fn digits(n: nat, base: nat) -> Seq<char>
    decreases n,
    via digits_decreases
{
    if base < 2 || n < base {
        seq![digit_char(n)]
    } else {
        digits(n / base, base).push(digit_char(n % base))
    }
}

#[via_fn]
proof fn digits_decreases(n: nat, base: nat) {
    if !(base < 2 || n < base) {
        assert(n / base < n) by (nonlinear_arith)
            requires
                base >= 2,
                n >= base,
        ;
    }
}

/// `s` filled on the left with `fill` up to `width` characters.
pub open spec fn pad_left(s: Seq<char>, width: nat, fill: char) -> Seq<char> {
    if s.len() >= width {
        s
    } else {
        Seq::new((width - s.len()) as nat, |_i: int| fill) + s
    }
}

/// `n` in `base`, zero-filled to at least `width` digits.
pub open spec fn radix_text(n: nat, base: nat, width: nat) -> Seq<char> {
    pad_left(digits(n, base), width, '0')
}

/// The number that a digit string denotes in `base`.
pub open spec fn value_of(s: Seq<char>, base: nat) -> nat
    decreases s.len(),
{
    if s.len() == 0 {
        0
    } else {
        value_of(s.drop_last(), base) * base + digit_value(s.last())
    }
}

pub proof fn lemma_digit_round_trip(d: nat)
    requires
        d < 16,
    ensures
        digit_value(digit_char(d)) == d,
{
}

/// Reading back the digits of `n` gives `n`.
pub proof fn lemma_digits_value(n: nat, base: nat)
    requires
        valid_base(base),
    ensures
        value_of(digits(n, base), base) == n,
        digits(n, base).len() >= 1,
    decreases n,
{
    if n < base {
        lemma_digit_round_trip(n);
        let s = digits(n, base);
        assert(s == seq![digit_char(n)]);
        assert(s.drop_last() =~= Seq::<char>::empty());
        assert(s.last() == digit_char(n));
        assert(value_of(s.drop_last(), base) == 0);
        assert(value_of(s, base) == value_of(s.drop_last(), base) * base + digit_value(s.last()));
    } else {
        assert(n / base < n) by (nonlinear_arith)
            requires
                base >= 2,
                n >= base,
        ;
        lemma_digits_value(n / base, base);
        assert(n % base < base) by (nonlinear_arith)
            requires
                base >= 2,
        ;
        lemma_digit_round_trip(n % base);
        let s = digits(n, base);
        assert(s.drop_last() =~= digits(n / base, base));
        assert(n == (n / base) * base + n % base) by (nonlinear_arith)
            requires
                base >= 2,
        ;
        assert(s.last() == digit_char(n % base));
        assert(value_of(s, base) == value_of(s.drop_last(), base) * base + digit_value(s.last()));
    }
}

/// Leading zeros do not change the value of a digit string.
pub proof fn lemma_leading_zeros(k: nat, s: Seq<char>, base: nat)
    ensures
        value_of(Seq::new(k, |_i: int| '0') + s, base) == value_of(s, base),
    decreases s.len(),
{
    let z = Seq::new(k, |_i: int| '0');
    if s.len() == 0 {
        assert(z + s =~= z);
        lemma_zeros_value(k, base);
    } else {
        assert((z + s).drop_last() =~= z + s.drop_last());
        lemma_leading_zeros(k, s.drop_last(), base);
    }
}

proof fn lemma_zeros_value(k: nat, base: nat)
    ensures
        value_of(Seq::new(k, |_i: int| '0'), base) == 0,
    decreases k,
{
    let z = Seq::new(k, |_i: int| '0');
    if k > 0 {
        assert(z.drop_last() =~= Seq::new((k - 1) as nat, |_i: int| '0'));
        lemma_zeros_value((k - 1) as nat, base);
        assert(z.last() == '0');
        assert(digit_value('0') == 0);
        assert(value_of(z, base) == value_of(z.drop_last(), base) * base + digit_value(z.last()));
    } else {
        assert(z.len() == 0);
    }
}

/// A number below `base` to the power `width` has at most `width` digits.
pub proof fn lemma_digits_len(n: nat, base: nat, width: nat)
    requires
        valid_base(base),
        width >= 1,
        n < pow(base as int, width),
    ensures
        digits(n, base).len() <= width,
    decreases n,
{
    reveal(pow);
    if n >= base {
        let p = pow(base as int, (width - 1) as nat);
        if width == 1 {
            assert(pow(base as int, 0) == 1);
            assert(pow(base as int, 1) == base * pow(base as int, 0));
        } else {
            assert(pow(base as int, width) == base * p);
            assert(n / base < p) by (nonlinear_arith)
                requires
                    base >= 2,
                    n < base * p,
            ;
            assert(n / base < n) by (nonlinear_arith)
                requires
                    base >= 2,
                    n >= base,
            ;
            lemma_digits_len(n / base, base, (width - 1) as nat);
        }
    }
}

/// Reading back a zero-filled field of `width` digits gives `n`, and the
/// field is exactly `width` long, when `n` fits in that many digits.
pub proof fn lemma_radix_round_trip(n: nat, base: nat, width: nat)
    requires
        valid_base(base),
        width >= 1,
        n < pow(base as int, width),
    ensures
        radix_text(n, base, width).len() == width,
        value_of(radix_text(n, base, width), base) == n,
{
    lemma_digits_len(n, base, width);
    lemma_digits_value(n, base);
    let d = digits(n, base);
    if d.len() < width {
        lemma_leading_zeros((width - d.len()) as nat, d, base);
    }
}

/// The digit character for `d`.
fn digit_of(d: u64) -> (c: char)
    requires
        d < 16,
    ensures
        c == digit_char(d as nat),
{
    if d < 10 {
        let b: u8 = 48u8 + d as u8;
        b as char
    } else {
        let b: u8 = 97u8 + (d as u8 - 10);
        b as char
    }
}

/// Appends the shortest digit string of `n` in `base`.
fn push_digits(out: &mut Vec<char>, n: u64, base: u64)
    requires
        valid_base(base as nat),
    ensures
        final(out)@ == old(out)@ + digits(n as nat, base as nat),
    decreases n,
{
    if n < base {
        out.push(digit_of(n));
    } else {
        assert(n / base < n) by (nonlinear_arith)
            requires
                base >= 2,
                n >= base,
        ;
        push_digits(out, n / base, base);
        out.push(digit_of(n % base));
    }
}

/// Appends `n` in `base`, zero-filled to at least `width` digits.
pub fn push_radix(out: &mut Vec<char>, n: u64, base: u64, width: usize)
    requires
        valid_base(base as nat),
    ensures
        final(out)@ == old(out)@ + radix_text(n as nat, base as nat, width as nat),
{
    let mut ds: Vec<char> = Vec::new();
    push_digits(&mut ds, n, base);
    assert(ds@ =~= digits(n as nat, base as nat));
    if ds.len() < width {
        let k: usize = width - ds.len();
        let mut i: usize = 0;
        while i < k
            invariant
                i <= k,
                out@ == old(out)@ + Seq::new(i as nat, |_j: int| '0'),
            decreases k - i,
        {
            out.push('0');
            assert(out@ =~= old(out)@ + Seq::new((i + 1) as nat, |_j: int| '0'));
            i = i + 1;
        }
    }
    let ghost before = out@;
    let mut j: usize = 0;
    while j < ds.len()
        invariant
            j <= ds.len(),
            out@ == before + ds@.subrange(0, j as int),
        decreases ds.len() - j,
    {
        out.push(ds[j]);
        assert(out@ =~= before + ds@.subrange(0, (j + 1) as int));
        j = j + 1;
    }
    assert(ds@.subrange(0, ds.len() as int) =~= ds@);
    assert(out@ =~= old(out)@ + radix_text(n as nat, base as nat, width as nat));
}

} // verus!
