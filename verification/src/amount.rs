//! Amounts: decimal text in display units, and whole numbers of base units.
//!
//! One display unit is `10^9` base units. Text is converted by truncating
//! toward zero: digits past the ninth fractional place are dropped, so the
//! result never exceeds what was asked for.

use crate::digits::{
    all_digits, decimal_text, decimal_value, digit_char, digits_only, is_digit,
    lemma_all_digits_subrange, lemma_decimal_text, lemma_decimal_value_bound,
    lemma_decimal_value_concat, lemma_decimal_value_prefix, lemma_decimal_value_push,
    lemma_padded_text, lemma_padded_value, lemma_pow10_add, lemma_pow10_monotonic,
    lemma_pow10_nine, lemma_pow10_positive, padded_text, pow10, push_decimal, push_padded,
};
use crate::text::{chars_of, find_char, first_index_of, push_char};
use vstd::arithmetic::div_mod::{
    lemma_fundamental_div_mod, lemma_fundamental_div_mod_converse, lemma_mod_bound,
};
use vstd::prelude::*;

verus! {

/// Base units in one display unit.
pub const LAMPORTS_PER_SOL: u64 = 1_000_000_000;

/// Fractional decimal places that a base unit resolves.
pub const SCALE_DIGITS: usize = 9;

/// The largest number of whole display units whose base units fit in 64 bits.
pub const MAX_WHOLE_UNITS: u64 = 18_446_744_073;

/// An amount text without its optional leading `+`.
pub open spec fn unsigned_part(s: Seq<char>) -> Seq<char> {
    if s.len() > 0 && s.first() == '+' {
        s.drop_first()
    } else {
        s
    }
}

/// What stands before the decimal point.
pub open spec fn whole_digits(s: Seq<char>) -> Seq<char> {
    unsigned_part(s).take(first_index_of(unsigned_part(s), '.'))
}

/// What stands after the decimal point; empty if there is no point.
pub open spec fn fraction_digits(s: Seq<char>) -> Seq<char> {
    let body = unsigned_part(s);
    let dot = first_index_of(body, '.');
    if dot < body.len() {
        body.skip(dot + 1)
    } else {
        Seq::empty()
    }
}

/// Plain decimal notation: an optional `+`, digits, and at most one decimal
/// point, with a digit on at least one side of it. No blanks, no minus sign,
/// and no exponent: an amount of money is written out in full, so `1e3` is
/// no amount, and neither are `inf` and `NaN`.
pub open spec fn is_decimal_text(s: Seq<char>) -> bool {
    &&& all_digits(whole_digits(s))
    &&& all_digits(fraction_digits(s))
    &&& whole_digits(s).len() + fraction_digits(s).len() > 0
}

/// The amount `whole.fraction`, in base units, rounded toward zero.
pub open spec fn base_units(whole: Seq<char>, fraction: Seq<char>) -> nat {
    (decimal_value(whole + fraction) * pow10(SCALE_DIGITS as nat)) / pow10(fraction.len())
}

/// The base units that an amount text asks for: defined for decimal texts
/// that denote at least one base unit and no more than 64 bits hold.
pub open spec fn amount_lamports(s: Seq<char>) -> Option<u64> {
    if is_decimal_text(s) && 0 < base_units(whole_digits(s), fraction_digits(s)) <= u64::MAX {
        Some(base_units(whole_digits(s), fraction_digits(s)) as u64)
    } else {
        None
    }
}

/// The fractional digits as a count of base units: the first nine places,
/// with missing places read as zero.
pub open spec fn fraction_units(fraction: Seq<char>) -> nat {
    if fraction.len() <= SCALE_DIGITS {
        decimal_value(fraction) * pow10((SCALE_DIGITS - fraction.len()) as nat)
    } else {
        decimal_value(fraction.take(SCALE_DIGITS as int))
    }
}

/// `s` without its trailing zeros; the first character always stays.
pub open spec fn without_trailing_zeros(s: Seq<char>) -> Seq<char>
    decreases s.len(),
{
    if s.len() > 1 && s.last() == '0' {
        without_trailing_zeros(s.drop_last())
    } else {
        s
    }
}

/// An amount of base units written in display units: the whole units, a
/// decimal point, and the fractional places up to the last one that is not
/// zero (at least one place).
pub open spec fn amount_text(lamports: u64) -> Seq<char> {
    decimal_text((lamports / LAMPORTS_PER_SOL) as nat) + seq!['.'] + without_trailing_zeros(
        padded_text((lamports % LAMPORTS_PER_SOL) as nat, SCALE_DIGITS as nat),
    )
}

/// An amount of base units as a balance is shown: like `amount_text`, but a
/// whole number of display units is written without decimal point.
pub open spec fn balance_text(lamports: u64) -> Seq<char> {
    if lamports % LAMPORTS_PER_SOL == 0 {
        decimal_text((lamports / LAMPORTS_PER_SOL) as nat)
    } else {
        amount_text(lamports)
    }
}

/// The value of the digits `chars[from..to]`, or `None` when it is above
/// `MAX_WHOLE_UNITS`.
fn read_whole_units(chars: &Vec<char>, from: usize, to: usize) -> (r: Option<u64>)
    requires
        from <= to <= chars.len(),
        all_digits(chars@.subrange(from as int, to as int)),
    ensures
        r is Some <==> decimal_value(chars@.subrange(from as int, to as int)) <= MAX_WHOLE_UNITS,
        r matches Some(v) ==> v == decimal_value(chars@.subrange(from as int, to as int)),
{
    let ghost digits = chars@.subrange(from as int, to as int);
    let mut whole: u64 = 0;
    let mut i: usize = from;
    assert(digits.take(0) =~= Seq::<char>::empty());
    while i < to
        invariant
            from <= i <= to <= chars.len(),
            digits == chars@.subrange(from as int, to as int),
            all_digits(digits),
            whole == decimal_value(digits.take(i - from)),
            whole <= MAX_WHOLE_UNITS,
        decreases to - i,
    {
        let c: char = chars[i];
        assert(is_digit(digits[i - from]));
        let d: u64 = (c as u32 - '0' as u32) as u64;
        proof {
            assert(digits.take(i - from + 1) =~= digits.take(i - from).push(c));
            lemma_decimal_value_push(digits.take(i - from), c);
            lemma_decimal_value_prefix(digits, i - from + 1);
        }
        whole = whole * 10 + d;
        if whole > MAX_WHOLE_UNITS {
            return None;
        }
        i += 1;
    }
    assert(digits.take(to - from) =~= digits);
    Some(whole)
}

/// The fractional digits `chars[from..to]` as base units: the first nine
/// places, missing places read as zero.
fn read_fraction_units(chars: &Vec<char>, from: usize, to: usize) -> (frac: u64)
    requires
        from <= to <= chars.len(),
        all_digits(chars@.subrange(from as int, to as int)),
    ensures
        frac == fraction_units(chars@.subrange(from as int, to as int)),
        frac < LAMPORTS_PER_SOL,
{
    let ghost digits = chars@.subrange(from as int, to as int);
    let shown: usize = if to - from < SCALE_DIGITS {
        to - from
    } else {
        SCALE_DIGITS
    };
    let mut frac: u64 = 0;
    let mut places: usize = 0;
    assert(digits.take(0) =~= Seq::<char>::empty());
    proof {
        lemma_pow10_nine();
    }
    while places < shown
        invariant
            places <= shown <= SCALE_DIGITS,
            shown <= to - from,
            from <= to <= chars.len(),
            digits == chars@.subrange(from as int, to as int),
            all_digits(digits),
            frac == decimal_value(digits.take(places as int)),
            frac < pow10(places as nat),
            pow10(9) == 1_000_000_000,
        decreases shown - places,
    {
        let c: char = chars[from + places];
        assert(is_digit(digits[places as int]));
        let d: u64 = (c as u32 - '0' as u32) as u64;
        proof {
            assert(digits.take(places + 1) =~= digits.take(places as int).push(c));
            lemma_decimal_value_push(digits.take(places as int), c);
            lemma_all_digits_subrange(digits, 0, places + 1);
            assert(digits.subrange(0, places + 1) =~= digits.take(places + 1));
            lemma_decimal_value_bound(digits.take(places + 1));
            lemma_pow10_monotonic(places as nat, 9);
        }
        frac = frac * 10 + d;
        places += 1;
    }
    if to - from > SCALE_DIGITS {
        proof {
            lemma_pow10_monotonic(places as nat, 9);
        }
        return frac;
    }
    assert(digits.take(shown as int) =~= digits);
    assert(decimal_value(digits) * pow10(0) == decimal_value(digits)) by (nonlinear_arith)
        requires
            pow10(0) == 1,
    ;
    while places < SCALE_DIGITS
        invariant
            shown == digits.len(),
            shown <= places <= SCALE_DIGITS,
            frac == decimal_value(digits) * pow10((places - shown) as nat),
            frac < pow10(places as nat),
            pow10(9) == 1_000_000_000,
        decreases SCALE_DIGITS - places,
    {
        proof {
            lemma_pow10_monotonic(places as nat, 9);
            assert(decimal_value(digits) * pow10((places - shown) as nat) * 10 == decimal_value(
                digits,
            ) * (10 * pow10((places - shown) as nat))) by (nonlinear_arith);
        }
        frac = frac * 10;
        places += 1;
    }
    frac
}

/// Reads an amount in display units and returns it in base units, rounded
/// toward zero. `None` when the text is not plain decimal notation, when it
/// denotes less than one base unit, or more than 64 bits hold.
///
/// Exponent notation is left out on purpose. `1e3` is refused, not read as
/// a thousand units: a slip of one digit in an exponent is a factor of ten
/// in the money sent, and nothing shorter than the digits themselves is
/// worth that.
pub fn parse_amount(text: &str) -> (r: Option<u64>)
    ensures
        r == amount_lamports(text@),
{
    let chars = chars_of(text);
    let n: usize = chars.len();
    let start: usize = if n > 0 && chars[0] == '+' {
        1
    } else {
        0
    };
    assert(unsigned_part(text@) =~= chars@.skip(start as int));
    let dot: usize = find_char(&chars, start, '.');
    let frac_start: usize = if dot < n {
        dot + 1
    } else {
        n
    };
    let ghost whole_seq = chars@.subrange(start as int, dot as int);
    let ghost frac_seq = chars@.subrange(frac_start as int, n as int);
    assert(whole_digits(text@) =~= whole_seq);
    assert(fraction_digits(text@) =~= frac_seq);
    if !digits_only(&chars, start, dot) || !digits_only(&chars, frac_start, n) {
        return None;
    }
    if dot == start && frac_start == n {
        return None;
    }
    proof {
        lemma_base_units_split(whole_seq, frac_seq);
    }
    let frac: u64 = read_fraction_units(&chars, frac_start, n);
    match read_whole_units(&chars, start, dot) {
        None => None,
        Some(whole) => {
            let total: u128 = (whole as u128) * (LAMPORTS_PER_SOL as u128) + (frac as u128);
            if total == 0 || total > u64::MAX as u128 {
                None
            } else {
                Some(total as u64)
            }
        },
    }
}

/// Writes an amount of base units in display units.
pub fn format_amount(lamports: u64) -> (out: String)
    ensures
        out@ == amount_text(lamports),
{
    let mut out = String::new();
    push_decimal(&mut out, lamports / LAMPORTS_PER_SOL);
    push_char(&mut out, '.');
    let ghost full = padded_text((lamports % LAMPORTS_PER_SOL) as nat, SCALE_DIGITS as nat);
    let ghost head = out@;
    let mut rest: u64 = lamports % LAMPORTS_PER_SOL;
    let mut width: usize = SCALE_DIGITS;
    while width > 1 && rest % 10 == 0
        invariant
            1 <= width <= SCALE_DIGITS,
            out@ == head,
            without_trailing_zeros(full) == without_trailing_zeros(
                padded_text(rest as nat, width as nat),
            ),
        decreases width,
    {
        assert(padded_text(rest as nat, width as nat).drop_last() =~= padded_text(
            (rest / 10) as nat,
            (width - 1) as nat,
        ));
        assert(padded_text(rest as nat, width as nat).last() == '0');
        rest = rest / 10;
        width -= 1;
    }
    assert(without_trailing_zeros(padded_text(rest as nat, width as nat)) == padded_text(
        rest as nat,
        width as nat,
    )) by {
        lemma_padded_text(rest as nat, width as nat);
        if width > 1 {
            assert(padded_text(rest as nat, width as nat).last() == digit_char(
                (rest % 10) as nat,
            ));
            assert(digit_char((rest % 10) as nat) != '0');
        }
    }
    push_padded(&mut out, rest, width);
    out
}

/// Writes an amount of base units in display units as a balance is shown:
/// five whole units are `5`, two and a half are `2.5`.
pub fn format_balance(lamports: u64) -> (out: String)
    ensures
        out@ == balance_text(lamports),
{
    if lamports % LAMPORTS_PER_SOL == 0 {
        let mut out = String::new();
        push_decimal(&mut out, lamports / LAMPORTS_PER_SOL);
        out
    } else {
        format_amount(lamports)
    }
}

/// Rounding toward zero keeps the whole units and the first nine fractional
/// places, and nothing else.
pub proof fn lemma_base_units_split(whole: Seq<char>, fraction: Seq<char>)
    requires
        all_digits(fraction),
    ensures
        base_units(whole, fraction) == decimal_value(whole) * 1_000_000_000 + fraction_units(
            fraction,
        ),
        fraction_units(fraction) < 1_000_000_000,
{
    let w = decimal_value(whole) as int;
    let f = decimal_value(fraction) as int;
    let k = fraction.len();
    let n = decimal_value(whole + fraction) as int;
    let pk = pow10(k) as int;
    lemma_pow10_nine();
    lemma_pow10_positive(k);
    lemma_decimal_value_concat(whole, fraction);
    lemma_decimal_value_bound(fraction);
    assert(n == w * pk + f);
    if k <= 9 {
        let rest = pow10((9 - k) as nat) as int;
        lemma_pow10_add(k, (9 - k) as nat);
        assert(pk * rest == 1_000_000_000);
        assert(n * 1_000_000_000 == (w * 1_000_000_000 + f * rest) * pk + 0) by (nonlinear_arith)
            requires
                n == w * pk + f,
                pk * rest == 1_000_000_000,
        ;
        lemma_fundamental_div_mod_converse(
            n * 1_000_000_000,
            pk,
            w * 1_000_000_000 + f * rest,
            0,
        );
        lemma_pow10_positive((9 - k) as nat);
        assert(f * rest < 1_000_000_000) by (nonlinear_arith)
            requires
                0 <= f < pk,
                pk * rest == 1_000_000_000,
                rest > 0,
        ;
    } else {
        let head = fraction.take(9);
        let tail = fraction.skip(9);
        assert(fraction =~= head + tail);
        lemma_decimal_value_concat(head, tail);
        lemma_all_digits_subrange(fraction, 0, 9);
        lemma_all_digits_subrange(fraction, 9, fraction.len() as int);
        lemma_decimal_value_bound(tail);
        lemma_decimal_value_bound(head);
        let h = decimal_value(head) as int;
        let t = decimal_value(tail) as int;
        let pt = pow10(tail.len()) as int;
        lemma_pow10_add(9, tail.len());
        assert(pk == 1_000_000_000 * pt);
        assert(f == h * pt + t);
        assert(n * 1_000_000_000 == (w * 1_000_000_000 + h) * pk + t * 1_000_000_000)
            by (nonlinear_arith)
            requires
                n == w * pk + f,
                f == h * pt + t,
                pk == 1_000_000_000 * pt,
        ;
        assert(t * 1_000_000_000 < pk) by (nonlinear_arith)
            requires
                0 <= t < pt,
                pk == 1_000_000_000 * pt,
        ;
        lemma_fundamental_div_mod_converse(
            n * 1_000_000_000,
            pk,
            w * 1_000_000_000 + h,
            t * 1_000_000_000,
        );
    }
}

/// Each trailing zero that is dropped divides the value by ten.
pub proof fn lemma_without_trailing_zeros(s: Seq<char>)
    requires
        all_digits(s),
        s.len() >= 1,
    ensures
        all_digits(without_trailing_zeros(s)),
        1 <= without_trailing_zeros(s).len() <= s.len(),
        decimal_value(without_trailing_zeros(s)) * pow10(
            (s.len() - without_trailing_zeros(s).len()) as nat,
        ) == decimal_value(s),
    decreases s.len(),
{
    if s.len() > 1 && s.last() == '0' {
        lemma_all_digits_subrange(s, 0, s.len() - 1);
        assert(s.subrange(0, s.len() - 1) =~= s.drop_last());
        lemma_without_trailing_zeros(s.drop_last());
        let t = without_trailing_zeros(s);
        let v = decimal_value(t) as int;
        let p = pow10((s.len() - 1 - t.len()) as nat) as int;
        assert(pow10((s.len() - t.len()) as nat) == 10 * p);
        assert(v * (10 * p) == (v * p) * 10) by (nonlinear_arith);
    } else {
        assert(pow10(0) == 1);
        assert(decimal_value(s) * 1 == decimal_value(s));
    }
}

/// In digits followed by a decimal point, the point is the first one.
pub proof fn lemma_first_point_after_digits(digits: Seq<char>, rest: Seq<char>)
    requires
        all_digits(digits),
    ensures
        first_index_of(digits + seq!['.'] + rest, '.') == digits.len(),
    decreases digits.len(),
{
    let s = digits + seq!['.'] + rest;
    if digits.len() == 0 {
        assert(s.first() == '.');
    } else {
        assert(is_digit(digits[0]));
        assert(s.first() == digits[0]);
        lemma_all_digits_subrange(digits, 1, digits.len() as int);
        assert(digits.subrange(1, digits.len() as int) =~= digits.drop_first());
        assert(s.drop_first() =~= digits.drop_first() + seq!['.'] + rest);
        lemma_first_point_after_digits(digits.drop_first(), rest);
    }
}

/// In digits alone there is no decimal point.
pub proof fn lemma_no_point_in_digits(digits: Seq<char>)
    requires
        all_digits(digits),
    ensures
        first_index_of(digits, '.') == digits.len(),
    decreases digits.len(),
{
    if digits.len() > 0 {
        assert(is_digit(digits[0]));
        lemma_all_digits_subrange(digits, 1, digits.len() as int);
        assert(digits.subrange(1, digits.len() as int) =~= digits.drop_first());
        lemma_no_point_in_digits(digits.drop_first());
    }
}

/// A balance written out and read back is the same number of base units.
pub proof fn law_balance_round_trip(lamports: u64)
    requires
        lamports > 0,
    ensures
        amount_lamports(balance_text(lamports)) == Some(lamports),
{
    if lamports % LAMPORTS_PER_SOL == 0 {
        let q = (lamports / LAMPORTS_PER_SOL) as nat;
        let text = decimal_text(q);
        lemma_decimal_text(q);
        lemma_no_point_in_digits(text);
        assert(is_digit(text[0]));
        assert(unsigned_part(text) == text);
        assert(whole_digits(text) =~= text);
        assert(fraction_digits(text) =~= Seq::<char>::empty());
        lemma_base_units_split(text, Seq::<char>::empty());
        lemma_pow10_nine();
        assert(decimal_value(Seq::<char>::empty()) == 0);
    } else {
        lemma_format_then_parse(lamports);
    }
}

/// Base units written out and read back are the same base units.
pub proof fn lemma_format_then_parse(lamports: u64)
    requires
        lamports > 0,
    ensures
        amount_lamports(amount_text(lamports)) == Some(lamports),
{
    let q = (lamports / LAMPORTS_PER_SOL) as nat;
    let r = (lamports % LAMPORTS_PER_SOL) as nat;
    let whole = decimal_text(q);
    let full = padded_text(r, 9);
    let shown = without_trailing_zeros(full);
    let text = amount_text(lamports);
    lemma_decimal_text(q);
    lemma_pow10_nine();
    lemma_padded_text(r, 9);
    lemma_padded_value(r, 9);
    lemma_without_trailing_zeros(full);
    lemma_first_point_after_digits(whole, shown);
    assert(is_digit(whole[0]));
    assert(text.first() == whole[0]);
    assert(unsigned_part(text) == text);
    assert(whole_digits(text) =~= whole);
    assert(fraction_digits(text) =~= shown);
    lemma_base_units_split(whole, shown);
}

/// Reading an amount rounds toward zero by less than one base unit, and the
/// base units that were read survive the way back to text exactly. For a
/// decimal text that denotes `n / 10^k` display units and comes to `l` base
/// units, `l <= n * 10^9 / 10^k < l + 1`; and where `l` is an amount, `l`
/// written out reads as `l` again.
pub proof fn law_amount_round_trip(text: Seq<char>)
    requires
        is_decimal_text(text),
    ensures
        ({
            let l = base_units(whole_digits(text), fraction_digits(text)) as int;
            let n = decimal_value(whole_digits(text) + fraction_digits(text)) as int;
            let scale = pow10(fraction_digits(text).len()) as int;
            &&& l * scale <= n * 1_000_000_000
            &&& n * 1_000_000_000 < (l + 1) * scale
        }),
        amount_lamports(text) matches Some(lamports) ==> lamports == base_units(
            whole_digits(text),
            fraction_digits(text),
        ) && amount_lamports(amount_text(lamports)) == Some(lamports),
{
    let l = base_units(whole_digits(text), fraction_digits(text)) as int;
    let n = decimal_value(whole_digits(text) + fraction_digits(text)) as int;
    let scale = pow10(fraction_digits(text).len()) as int;
    lemma_pow10_nine();
    lemma_pow10_positive(fraction_digits(text).len());
    lemma_fundamental_div_mod(n * 1_000_000_000, scale);
    lemma_mod_bound(n * 1_000_000_000, scale);
    assert(l == (n * 1_000_000_000) / scale);
    assert(scale * l == l * scale) by (nonlinear_arith);
    assert((l + 1) * scale == l * scale + scale) by (nonlinear_arith);
    if amount_lamports(text) is Some {
        lemma_format_then_parse(amount_lamports(text).unwrap());
    }
}

} // verus!
