use vstd::prelude::*;
use vstd::string::StringSliceAdditionalSpecFns;

use crate::bstr::push_all;

verus! {

/// ASCII code of the decimal digit `d`.
pub open spec fn digit_byte(d: int) -> u8 {
    (0x30 + d) as u8
}

/// Decimal digits of `v`, most significant first, without leading zeros.
pub open spec fn decimal(v: nat) -> Seq<u8>
    decreases v,
{
    if v < 10 {
        seq![digit_byte(v as int)]
    } else {
        decimal(v / 10).push(digit_byte((v % 10) as int))
    }
}

/// Lower-case hexadecimal digit for `n` in `0..16`.
pub open spec fn hex_digit_byte(n: int) -> u8 {
    if n < 10 {
        (0x30 + n) as u8
    } else {
        (0x61 + n - 10) as u8
    }
}

/// The `width` lowest hexadecimal digits of `v`, most significant first, zero padded.
pub open spec fn hex_fixed(v: nat, width: nat) -> Seq<u8>
    decreases width,
{
    if width == 0 {
        Seq::empty()
    } else {
        hex_fixed(v / 16, (width - 1) as nat).push(hex_digit_byte((v % 16) as int))
    }
}

/// The bytes of `yes` or `no`.
pub open spec fn yes_no_bytes(b: bool) -> Seq<u8> {
    if b {
        seq![0x79u8, 0x65, 0x73]
    } else {
        seq![0x6eu8, 0x6f]
    }
}

/// Appends the UTF-8 bytes of `s`.
pub fn push_str(out: &mut Vec<u8>, s: &str)
    ensures
        final(out)@ == old(out)@ + s.spec_bytes(),
{
    push_all(out, s.as_bytes());
}

/// Appends a line feed.
pub fn push_newline(out: &mut Vec<u8>)
    ensures
        final(out)@ == old(out)@.push(0x0a),
{
    out.push(0x0a);
}

/// The decimal digits of `v`.
pub fn decimal_bytes(v: u64) -> (digits: Vec<u8>)
    ensures
        digits@ == decimal(v as nat),
{
    let mut reversed: Vec<u8> = Vec::new();
    let mut n = v;
    let ghost mut rest: Seq<u8> = Seq::empty();
    // Invariant: decimal(v) == decimal(n) + reversed-in-reverse, built least significant first.
    while n >= 10
        invariant
            decimal(v as nat) == decimal(n as nat) + reversed@.reverse(),
        decreases n,
    {
        let d = (n % 10) as u8;
        proof {
            assert(decimal(n as nat) == decimal((n / 10) as nat).push(digit_byte((n % 10) as int)));
            assert(reversed@.push((0x30 + d) as u8).reverse() =~= seq![(0x30 + d) as u8] + reversed@.reverse());
        }
        reversed.push(0x30 + d);
        n = n / 10;
    }
    reversed.push(0x30 + (n as u8));
    proof {
        assert(reversed@.reverse() =~= seq![(0x30 + n) as u8] + reversed@.drop_last().reverse());
    }
    let mut digits: Vec<u8> = Vec::new();
    let mut i: usize = reversed.len();
    while i > 0
        invariant
            i <= reversed@.len(),
            digits@ == reversed@.subrange(i as int, reversed@.len() as int).reverse(),
        decreases i,
    {
        i = i - 1;
        digits.push(reversed[i]);
        proof {
            assert(reversed@.subrange(i as int, reversed@.len() as int).reverse() =~= reversed@.subrange(
                (i + 1) as int,
                reversed@.len() as int,
            ).reverse().push(reversed@[i as int]));
        }
    }
    proof {
        assert(reversed@.subrange(0, reversed@.len() as int) =~= reversed@);
    }
    digits
}

/// Appends the decimal digits of `v`.
pub fn push_decimal(out: &mut Vec<u8>, v: u64)
    ensures
        final(out)@ == old(out)@ + decimal(v as nat),
{
    let digits = decimal_bytes(v);
    push_all(out, digits.as_slice());
}

/// Lower-case hexadecimal digit for a nibble.
pub fn hex_digit(n: u8) -> (b: u8)
    requires
        n < 16,
    ensures
        b == hex_digit_byte(n as int),
{
    if n < 10 {
        0x30 + n
    } else {
        0x61 + (n - 10)
    }
}

/// Appends the two lower-case hexadecimal digits of a byte.
pub fn push_hex_byte(out: &mut Vec<u8>, byte: u8)
    ensures
        final(out)@ == old(out)@ + hex_fixed(byte as nat, 2),
{
    let hi = hex_digit(byte / 16);
    let lo = hex_digit(byte % 16);
    out.push(hi);
    out.push(lo);
    proof {
        let b = byte as nat;
        assert(b / 16 < 16);
        assert((b / 16) % 16 == b / 16);
        assert(hex_fixed(b / 16, 1) =~= hex_fixed((b / 16) / 16, 0).push(hex_digit_byte(((b / 16) % 16) as int)));
        assert(hex_fixed(b / 16, 1) =~= seq![hi]);
        assert(hex_fixed(b, 2) =~= hex_fixed(b / 16, 1).push(hex_digit_byte((b % 16) as int)));
        assert(hex_fixed(b, 2) =~= seq![hi, lo]);
    }
}

/// The `width` lowest hexadecimal digits of `v`, most significant first.
pub fn hex_digits(v: u64, width: usize) -> (digits: Vec<u8>)
    requires
        width <= 16,
    ensures
        digits@ == hex_fixed(v as nat, width as nat),
{
    let mut digits: Vec<u8> = Vec::new();
    let mut n = v;
    let mut j: usize = 0;
    while j < width
        invariant
            j <= width <= 16,
            hex_fixed(v as nat, width as nat) == hex_fixed(n as nat, (width - j) as nat) + digits@,
        decreases width - j,
    {
        let d = hex_digit((n % 16) as u8);
        proof {
            assert(hex_fixed(n as nat, (width - j) as nat) == hex_fixed((n / 16) as nat, (width - j - 1) as nat).push(
                hex_digit_byte((n % 16) as int),
            ));
            assert(hex_fixed(n as nat, (width - j) as nat) + digits@ =~= hex_fixed((n / 16) as nat, (width - j - 1) as nat)
                + seq![d].add(digits@));
        }
        digits.insert(0, d);
        n = n / 16;
        j = j + 1;
    }
    assert(hex_fixed(n as nat, 0) + digits@ =~= digits@);
    digits
}

/// Appends `yes` or `no`.
pub fn push_yes_no(out: &mut Vec<u8>, value: bool)
    ensures
        final(out)@ == old(out)@ + yes_no_bytes(value),
{
    if value {
        out.push(0x79);
        out.push(0x65);
        out.push(0x73);
        assert(final(out)@ =~= old(out)@ + yes_no_bytes(value));
    } else {
        out.push(0x6e);
        out.push(0x6f);
        assert(final(out)@ =~= old(out)@ + yes_no_bytes(value));
    }
}

} // verus!

verus! {

/// One `label value` line.
pub open spec fn line(label: Seq<u8>, value: Seq<u8>) -> Seq<u8> {
    label + value + seq![0x0au8]
}

/// Appends `label`, the decimal digits of `value` and a line feed.
pub fn push_line_decimal(out: &mut Vec<u8>, label: &str, value: u64)
    ensures
        final(out)@ == old(out)@ + line(label.spec_bytes(), decimal(value as nat)),
{
    push_str(out, label);
    push_decimal(out, value);
    out.push(0x0a);
    assert(final(out)@ =~= old(out)@ + line(label.spec_bytes(), decimal(value as nat)));
}

/// Appends `label`, `value` and a line feed.
pub fn push_line_bytes(out: &mut Vec<u8>, label: &str, value: &[u8])
    ensures
        final(out)@ == old(out)@ + line(label.spec_bytes(), value@),
{
    push_str(out, label);
    push_all(out, value);
    out.push(0x0a);
    assert(final(out)@ =~= old(out)@ + line(label.spec_bytes(), value@));
}

/// Appends `label`, `yes` or `no`, and a line feed.
pub fn push_line_yes_no(out: &mut Vec<u8>, label: &str, value: bool)
    ensures
        final(out)@ == old(out)@ + line(label.spec_bytes(), yes_no_bytes(value)),
{
    push_str(out, label);
    push_yes_no(out, value);
    out.push(0x0a);
    assert(final(out)@ =~= old(out)@ + line(label.spec_bytes(), yes_no_bytes(value)));
}

/// Appends `label`, the text `value` and a line feed.
pub fn push_line_str(out: &mut Vec<u8>, label: &str, value: &str)
    ensures
        final(out)@ == old(out)@ + line(label.spec_bytes(), value.spec_bytes()),
{
    push_str(out, label);
    push_str(out, value);
    out.push(0x0a);
    assert(final(out)@ =~= old(out)@ + line(label.spec_bytes(), value.spec_bytes()));
}


/// The number a string of decimal digits denotes, most significant first.
pub open spec fn digits_value(s: Seq<u8>) -> int
    decreases s.len(),
{
    if s.len() == 0 {
        0
    } else {
        digits_value(s.drop_last()) * 10 + (s.last() - 0x30)
    }
}

/// Every byte of `s` is a decimal digit.
pub open spec fn all_digits(s: Seq<u8>) -> bool {
    forall|i: int| 0 <= i < s.len() ==> 0x30 <= #[trigger] s[i] <= 0x39
}

spec fn ten_pow(n: nat) -> nat
    decreases n,
{
    if n == 0 {
        1
    } else {
        10 * ten_pow((n - 1) as nat)
    }
}

/// The decimal digits of `v` are digits, at least one, and denote `v`.
pub proof fn lemma_decimal_reads_back(v: nat)
    ensures
        decimal(v).len() >= 1,
        all_digits(decimal(v)),
        digits_value(decimal(v)) == v,
    decreases v,
{
    let d = decimal(v);
    if v >= 10 {
        lemma_decimal_reads_back(v / 10);
        assert(d.drop_last() =~= decimal(v / 10));
        assert(d.last() == digit_byte((v % 10) as int));
        assert(digit_byte((v % 10) as int) == 0x30 + v % 10);
        assert((v / 10) * 10 + v % 10 == v) by (nonlinear_arith);
        assert(digits_value(d) == digits_value(d.drop_last()) * 10 + (d.last() - 0x30));
    } else {
        assert(d.drop_last() =~= Seq::<u8>::empty());
        assert(digit_byte(v as int) == 0x30 + v);
        assert(digits_value(d) == digits_value(d.drop_last()) * 10 + (d.last() - 0x30));
    }
}

proof fn lemma_decimal_len(v: nat, n: nat)
    requires
        n >= 1,
        v < ten_pow(n),
    ensures
        decimal(v).len() <= n,
    decreases n,
{
    if v >= 10 {
        assert(v / 10 < ten_pow((n - 1) as nat)) by (nonlinear_arith)
            requires
                v < 10 * ten_pow((n - 1) as nat),
        ;
        if n == 1 {
            assert(ten_pow(0) == 1);
        } else {
            lemma_decimal_len(v / 10, (n - 1) as nat);
        }
    }
}

/// A number below a billion has at most nine decimal digits.
pub proof fn lemma_decimal_below_billion(v: nat)
    requires
        v < 1_000_000_000,
    ensures
        decimal(v).len() <= 9,
{
    reveal_with_fuel(ten_pow, 10);
    lemma_decimal_len(v, 9);
}

/// Zeros in front of a string of digits do not change the number it denotes.
pub proof fn lemma_leading_zeros(k: nat, s: Seq<u8>)
    ensures
        digits_value(Seq::new(k, |i: int| 0x30u8) + s) == digits_value(s),
    decreases s.len(), k,
{
    let z = Seq::new(k, |i: int| 0x30u8);
    if s.len() == 0 {
        assert(z + s =~= z);
        if k > 0 {
            assert(z.drop_last() =~= Seq::new((k - 1) as nat, |i: int| 0x30u8));
            lemma_leading_zeros((k - 1) as nat, s);
            assert(Seq::new((k - 1) as nat, |i: int| 0x30u8) + s =~= Seq::new((k - 1) as nat, |i: int| 0x30u8));
        }
    } else {
        assert((z + s).drop_last() =~= z + s.drop_last());
        lemma_leading_zeros(k, s.drop_last());
    }
}

} // verus!
