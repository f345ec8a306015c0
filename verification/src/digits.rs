//! Decimal digits: what a string of digits denotes, how a number is written
//! in digits, and reading a small unsigned number.

use crate::text::push_char;
use vstd::prelude::*;

verus! {

/// An ASCII decimal digit.
pub open spec fn is_digit(c: char) -> bool {
    '0' <= c <= '9'
}

/// Every character of `s` is a decimal digit.
pub open spec fn all_digits(s: Seq<char>) -> bool {
    forall|i: int| 0 <= i < s.len() ==> is_digit(#[trigger] s[i])
}

/// The number a digit stands for.
pub open spec fn digit_value(c: char) -> nat {
    (c as int - '0' as int) as nat
}

/// The number that a string of decimal digits denotes, most significant
/// digit first. The empty string denotes zero.
pub open spec fn decimal_value(s: Seq<char>) -> nat
    decreases s.len(),
{
    if s.len() == 0 {
        0
    } else {
        decimal_value(s.drop_last()) * 10 + digit_value(s.last())
    }
}

/// Ten to the power `n`.
pub open spec fn pow10(n: nat) -> nat
    decreases n,
{
    if n == 0 {
        1
    } else {
        10 * pow10((n - 1) as nat)
    }
}

/// What a piece of text denotes when read as an unsigned 8-bit number: an
/// optional `+`, then one or more decimal digits whose value is at most 255.
pub open spec fn u8_text_value(s: Seq<char>) -> Option<u8> {
    let digits = if s.len() > 0 && s.first() == '+' {
        s.drop_first()
    } else {
        s
    };
    if digits.len() > 0 && all_digits(digits) && decimal_value(digits) <= 255 {
        Some(decimal_value(digits) as u8)
    } else {
        None
    }
}

/// The character that shows the digit `d`.
pub open spec fn digit_char(d: nat) -> char {
    (d + '0' as nat) as char
}

/// `n` in decimal notation, without leading zeros.
pub open spec fn decimal_text(n: nat) -> Seq<char>
    decreases n,
{
    if n < 10 {
        seq![digit_char(n)]
    } else {
        decimal_text(n / 10).push(digit_char(n % 10))
    }
}

/// The last `width` decimal digits of `n`, with leading zeros.
pub open spec fn padded_text(n: nat, width: nat) -> Seq<char>
    decreases width,
{
    if width == 0 {
        Seq::empty()
    } else {
        padded_text(n / 10, (width - 1) as nat).push(digit_char(n % 10))
    }
}

/// Any part of a digit string is a digit string.
pub proof fn lemma_all_digits_subrange(s: Seq<char>, from: int, to: int)
    requires
        all_digits(s),
        0 <= from <= to <= s.len(),
    ensures
        all_digits(s.subrange(from, to)),
{
    assert forall|i: int| 0 <= i < s.subrange(from, to).len() implies is_digit(
        #[trigger] s.subrange(from, to)[i],
    ) by {
        assert(s.subrange(from, to)[i] == s[from + i]);
    }
}

/// Appending one digit multiplies the value by ten and adds the digit.
pub proof fn lemma_decimal_value_push(s: Seq<char>, c: char)
    ensures
        decimal_value(s.push(c)) == decimal_value(s) * 10 + digit_value(c),
{
    assert(s.push(c).drop_last() =~= s);
}

/// A longer digit string never denotes less than one of its prefixes.
pub proof fn lemma_decimal_value_prefix(s: Seq<char>, n: int)
    requires
        0 <= n <= s.len(),
    ensures
        decimal_value(s.take(n)) <= decimal_value(s),
    decreases s.len(),
{
    if n == s.len() {
        assert(s.take(n) =~= s);
    } else {
        assert(s.drop_last().take(n) =~= s.take(n));
        lemma_decimal_value_prefix(s.drop_last(), n);
    }
}

/// The value of two digit strings written one after the other.
pub proof fn lemma_decimal_value_concat(a: Seq<char>, b: Seq<char>)
    ensures
        decimal_value(a + b) == decimal_value(a) * pow10(b.len()) + decimal_value(b),
    decreases b.len(),
{
    if b.len() == 0 {
        assert(a + b =~= a);
        assert(pow10(0) == 1);
        assert(decimal_value(a) * 1 == decimal_value(a));
    } else {
        assert((a + b).drop_last() =~= a + b.drop_last());
        assert((a + b).last() == b.last());
        lemma_decimal_value_concat(a, b.drop_last());
        let x = decimal_value(a) as int;
        let p = pow10(b.drop_last().len()) as int;
        let y = decimal_value(b.drop_last()) as int;
        assert(pow10(b.len()) == 10 * p);
        assert((x * p + y) * 10 == x * (10 * p) + y * 10) by (nonlinear_arith);
    }
}

/// A string of `n` digits denotes a number below `10^n`.
pub proof fn lemma_decimal_value_bound(s: Seq<char>)
    requires
        all_digits(s),
    ensures
        decimal_value(s) < pow10(s.len()),
    decreases s.len(),
{
    if s.len() > 0 {
        lemma_all_digits_subrange(s, 0, s.len() - 1);
        assert(s.subrange(0, s.len() - 1) =~= s.drop_last());
        lemma_decimal_value_bound(s.drop_last());
        assert(is_digit(s[s.len() - 1]));
    }
}

/// Powers of ten are positive.
pub proof fn lemma_pow10_positive(n: nat)
    ensures
        pow10(n) > 0,
    decreases n,
{
    if n > 0 {
        lemma_pow10_positive((n - 1) as nat);
    }
}

/// Powers of ten multiply as their exponents add.
pub proof fn lemma_pow10_add(a: nat, b: nat)
    ensures
        pow10(a + b) == pow10(a) * pow10(b),
    decreases a,
{
    if a == 0 {
        assert(pow10(0) == 1);
        assert(a + b == b);
    } else {
        lemma_pow10_add((a - 1) as nat, b);
        assert(pow10(a + b) == 10 * pow10((a - 1 + b) as nat));
        assert(10 * (pow10((a - 1) as nat) * pow10(b)) == (10 * pow10((a - 1) as nat)) * pow10(b))
            by (nonlinear_arith);
    }
}

/// Powers of ten grow with the exponent.
pub proof fn lemma_pow10_monotonic(a: nat, b: nat)
    requires
        a <= b,
    ensures
        pow10(a) <= pow10(b),
    decreases b,
{
    if a < b {
        lemma_pow10_monotonic(a, (b - 1) as nat);
    }
}

/// Ten to the ninth is a billion.
pub proof fn lemma_pow10_nine()
    ensures
        pow10(9) == 1_000_000_000,
{
    reveal_with_fuel(pow10, 10);
}

/// `decimal_text` writes digits that denote the number written.
pub proof fn lemma_decimal_text(n: nat)
    ensures
        decimal_text(n).len() >= 1,
        all_digits(decimal_text(n)),
        decimal_value(decimal_text(n)) == n,
    decreases n,
{
    assert(is_digit(digit_char(n % 10)));
    assert(digit_value(digit_char(n % 10)) == n % 10);
    if n < 10 {
        assert(decimal_text(n) =~= Seq::<char>::empty().push(digit_char(n)));
        lemma_decimal_value_push(Seq::<char>::empty(), digit_char(n));
    } else {
        lemma_decimal_text(n / 10);
        lemma_decimal_value_push(decimal_text(n / 10), digit_char(n % 10));
    }
}

/// A number is written without leading zero: only the numbers below ten
/// take one digit, and a longer text does not begin with `0`.
pub proof fn lemma_decimal_text_first(n: nat)
    ensures
        is_digit(decimal_text(n).first()),
        n < 10 <==> decimal_text(n).len() == 1,
        n >= 10 ==> decimal_text(n).first() != '0',
    decreases n,
{
    lemma_decimal_text(n);
    if n >= 10 {
        lemma_decimal_text_first(n / 10);
        lemma_decimal_text(n / 10);
        assert(decimal_text(n).first() == decimal_text(n / 10).first());
        if n / 10 < 10 {
            assert(decimal_text(n / 10).first() == digit_char(n / 10));
        }
    } else {
        assert(decimal_text(n).first() == digit_char(n));
    }
}

/// `padded_text` gives `width` digits.
pub proof fn lemma_padded_text(n: nat, width: nat)
    ensures
        padded_text(n, width).len() == width,
        all_digits(padded_text(n, width)),
    decreases width,
{
    if width > 0 {
        lemma_padded_text(n / 10, (width - 1) as nat);
        assert(is_digit(digit_char(n % 10)));
    }
}

/// Padding with zeros in front leaves the value as it is.
pub proof fn lemma_padded_value(n: nat, width: nat)
    requires
        n < pow10(width),
    ensures
        decimal_value(padded_text(n, width)) == n,
    decreases width,
{
    if width > 0 {
        lemma_padded_value(n / 10, (width - 1) as nat);
        lemma_decimal_value_push(padded_text(n / 10, (width - 1) as nat), digit_char(n % 10));
        assert(digit_value(digit_char(n % 10)) == n % 10);
    }
}

/// Tells whether `chars[from..to]` holds decimal digits only.
pub(crate) fn digits_only(chars: &Vec<char>, from: usize, to: usize) -> (r: bool)
    requires
        from <= to <= chars.len(),
    ensures
        r == all_digits(chars@.subrange(from as int, to as int)),
{
    let ghost piece = chars@.subrange(from as int, to as int);
    let mut i: usize = from;
    while i < to
        invariant
            from <= i <= to <= chars.len(),
            piece == chars@.subrange(from as int, to as int),
            forall|j: int| 0 <= j < i - from ==> is_digit(#[trigger] piece[j]),
        decreases to - i,
    {
        let c: char = chars[i];
        if !('0' <= c && c <= '9') {
            assert(!is_digit(piece[i - from]));
            return false;
        }
        i += 1;
    }
    true
}

/// Reads `chars[from..to]` as an unsigned 8-bit number.
pub fn parse_u8(chars: &Vec<char>, from: usize, to: usize) -> (r: Option<u8>)
    requires
        from <= to <= chars.len(),
    ensures
        r == u8_text_value(chars@.subrange(from as int, to as int)),
{
    let ghost piece = chars@.subrange(from as int, to as int);
    let mut i: usize = from;
    if i < to && chars[i] == '+' {
        i += 1;
    }
    let first: usize = i;
    let ghost digits = chars@.subrange(first as int, to as int);
    assert(digits =~= if piece.len() > 0 && piece.first() == '+' {
        piece.drop_first()
    } else {
        piece
    });
    if first == to {
        return None;
    }
    let mut value: u32 = 0;
    while i < to
        invariant
            from <= first <= i <= to <= chars.len(),
            piece == chars@.subrange(from as int, to as int),
            digits == chars@.subrange(first as int, to as int),
            digits == if piece.len() > 0 && piece.first() == '+' {
                piece.drop_first()
            } else {
                piece
            },
            all_digits(digits.take(i - first)),
            value == decimal_value(digits.take(i - first)),
            value <= 255,
        decreases to - i,
    {
        let c: char = chars[i];
        if !('0' <= c && c <= '9') {
            assert(!is_digit(digits[i - first]));
            return None;
        }
        let d: u32 = c as u32 - '0' as u32;
        proof {
            assert(digits.take(i - first + 1) =~= digits.take(i - first).push(c));
            lemma_decimal_value_push(digits.take(i - first), c);
            lemma_decimal_value_prefix(digits, i - first + 1);
        }
        value = value * 10 + d;
        if value > 255 {
            return None;
        }
        i += 1;
    }
    assert(digits.take(to - first) =~= digits);
    Some(value as u8)
}

/// The character for a digit.
pub(crate) fn digit(d: u8) -> (c: char)
    requires
        d < 10,
    ensures
        c == digit_char(d as nat),
        is_digit(c),
        digit_value(c) == d,
{
    (d + 48u8) as char
}

/// Appends `n` in decimal notation.
pub(crate) fn push_decimal(out: &mut String, n: u64)
    ensures
        final(out)@ == old(out)@ + decimal_text(n as nat),
    decreases n,
{
    if n >= 10 {
        push_decimal(out, n / 10);
    }
    push_char(out, digit((n % 10) as u8));
}

/// Appends the last `width` digits of `n`.
pub(crate) fn push_padded(out: &mut String, n: u64, width: usize)
    ensures
        final(out)@ == old(out)@ + padded_text(n as nat, width as nat),
    decreases width,
{
    if width > 0 {
        push_padded(out, n / 10, width - 1);
        push_char(out, digit((n % 10) as u8));
    }
}

} // verus!
