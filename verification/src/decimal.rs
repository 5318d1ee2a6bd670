//! Decimal numbers of the feed, read as scaled integers.

use crate::text::{
    chars_of, find, first_occurrence, lemma_first_occurrence_found, occurs_at, slice_of,
};
use vstd::prelude::*;

verus! {

/// The most digits that a decimal may have, padding to its scale included.
pub const MAX_DIGITS: usize = 18;

/// Whether `c` is one of the digits 0 to 9.
pub open spec fn is_digit(c: char) -> bool {
    '0' <= c <= '9'
}

/// Whether `digits` holds digits only.
pub open spec fn all_digits(digits: Seq<char>) -> bool {
    forall|i: int| 0 <= i < digits.len() ==> is_digit(#[trigger] digits[i])
}

/// The number that `digits` writes in base ten; 0 for no digits.
pub open spec fn digits_value(digits: Seq<char>) -> int
    decreases digits.len(),
{
    if digits.len() == 0 {
        0
    } else {
        10 * digits_value(digits.drop_last()) + (digits.last() as int - '0' as int)
    }
}

/// Ten to the power `n`.
pub open spec fn pow10(n: nat) -> int
    decreases n,
{
    if n == 0 {
        1
    } else {
        10 * pow10((n - 1) as nat)
    }
}

/// The decimal point.
pub open spec fn point() -> Seq<char> {
    seq!['.']
}

/// The digits before the decimal point of `text`.
pub open spec fn whole_part(text: Seq<char>) -> Seq<char> {
    match first_occurrence(text, point()) {
        Some(at) => text.take(at),
        None => text,
    }
}

/// The digits behind the decimal point of `text`; none where it has no point.
pub open spec fn fraction_part(text: Seq<char>) -> Seq<char> {
    match first_occurrence(text, point()) {
        Some(at) => text.skip(at + 1),
        None => Seq::empty(),
    }
}

/// Whether `text` writes a decimal without sign that `scale` fraction digits can hold:
/// digits, then at most a point with digits behind it, no more of those than `scale`, and
/// in all no more than `MAX_DIGITS` digits once the fraction is padded to `scale`.
pub open spec fn is_unsigned_decimal(text: Seq<char>, scale: nat) -> bool {
    &&& whole_part(text).len() > 0
    &&& all_digits(whole_part(text))
    &&& all_digits(fraction_part(text))
    &&& first_occurrence(text, point()) is Some ==> fraction_part(text).len() > 0
    &&& fraction_part(text).len() <= scale
    &&& whole_part(text).len() + scale <= MAX_DIGITS
}

/// The number that `text` writes, in units of ten to the power minus `scale`.
pub open spec fn unsigned_decimal(text: Seq<char>, scale: nat) -> Option<int> {
    if is_unsigned_decimal(text, scale) {
        Some(
            digits_value(whole_part(text) + fraction_part(text)) * pow10(
                (scale - fraction_part(text).len()) as nat,
            ),
        )
    } else {
        None
    }
}

/// The number that `text` writes, with a minus sign before it or none, in units of ten to
/// the power minus `scale`; `None` where `text` writes no such number.
pub open spec fn decimal(text: Seq<char>, scale: nat) -> Option<int> {
    if text.len() > 0 && text[0] == '-' {
        match unsigned_decimal(text.skip(1), scale) {
            Some(value) => Some(-value),
            None => None,
        }
    } else {
        unsigned_decimal(text, scale)
    }
}

proof fn lemma_pow10_positive(n: nat)
    ensures
        pow10(n) > 0,
    decreases n,
{
    if n > 0 {
        lemma_pow10_positive((n - 1) as nat);
    }
}

proof fn lemma_pow10_increases(a: nat, b: nat)
    requires
        a <= b,
    ensures
        pow10(a) <= pow10(b),
    decreases b,
{
    if a < b {
        lemma_pow10_increases(a, (b - 1) as nat);
        lemma_pow10_positive((b - 1) as nat);
    }
}

proof fn lemma_pow10_max()
    ensures
        pow10(MAX_DIGITS as nat) == 1_000_000_000_000_000_000,
{
    reveal_with_fuel(pow10, 19);
}

proof fn lemma_digits_value_bound(digits: Seq<char>)
    requires
        all_digits(digits),
    ensures
        0 <= digits_value(digits) < pow10(digits.len()),
    decreases digits.len(),
{
    if digits.len() > 0 {
        lemma_digits_value_bound(digits.drop_last());
        assert(is_digit(digits[digits.len() - 1]));
    }
}

/// The number that `digits` writes, where they are digits.
fn number_of(digits: &Vec<char>) -> (number: Option<u64>)
    requires
        digits.len() <= MAX_DIGITS,
    ensures
        number is Some <==> all_digits(digits@),
        number matches Some(value) ==> value == digits_value(digits@),
{
    let mut value: u64 = 0;
    let mut i: usize = 0;
    assert(digits@.take(0) =~= Seq::<char>::empty());
    while i < digits.len()
        invariant
            i <= digits.len() <= MAX_DIGITS,
            all_digits(digits@.take(i as int)),
            value == digits_value(digits@.take(i as int)),
        decreases digits.len() - i,
    {
        let c = digits[i];
        if c < '0' || c > '9' {
            return None;
        }
        proof {
            let longer = digits@.take(i + 1);
            assert(longer.drop_last() =~= digits@.take(i as int));
            assert forall|j: int| 0 <= j < longer.len() implies is_digit(#[trigger] longer[j]) by {
                if j < i {
                    assert(is_digit(digits@.take(i as int)[j]));
                }
            }
            lemma_digits_value_bound(longer);
            lemma_pow10_increases((i + 1) as nat, MAX_DIGITS as nat);
            lemma_pow10_max();
        }
        value = 10 * value + (c as u64 - '0' as u64);
        i += 1;
    }
    assert(digits@.take(digits@.len() as int) =~= digits@);
    Some(value)
}

/// `value` times ten to the power `pad`.
fn padded(value: u64, pad: usize) -> (product: u64)
    requires
        value * pow10(pad as nat) <= u64::MAX,
    ensures
        product == value * pow10(pad as nat),
{
    let mut product = value;
    let mut done: usize = 0;
    while done < pad
        invariant
            done <= pad,
            product == value * pow10(done as nat),
            value * pow10(pad as nat) <= u64::MAX,
        decreases pad - done,
    {
        proof {
            lemma_pow10_increases((done + 1) as nat, pad as nat);
            assert(value * pow10((done + 1) as nat) <= value * pow10(pad as nat))
                by (nonlinear_arith)
                requires
                    pow10((done + 1) as nat) <= pow10(pad as nat),
                    value >= 0,
            ;
            assert(value * pow10((done + 1) as nat) == 10 * (value * pow10(done as nat)))
                by (nonlinear_arith)
                requires
                    pow10((done + 1) as nat) == 10 * pow10(done as nat),
            ;
        }
        product = 10 * product;
        done += 1;
    }
    product
}

proof fn lemma_pow10_adds(a: nat, b: nat)
    ensures
        pow10(a + b) == pow10(a) * pow10(b),
    decreases a,
{
    if a > 0 {
        lemma_pow10_adds((a - 1) as nat, b);
        assert(10 * (pow10((a - 1) as nat) * pow10(b)) == (10 * pow10((a - 1) as nat)) * pow10(b))
            by (nonlinear_arith);
    }
}

proof fn lemma_all_digits_concat(a: Seq<char>, b: Seq<char>)
    ensures
        all_digits(a + b) <==> all_digits(a) && all_digits(b),
{
    if all_digits(a + b) {
        assert forall|i: int| 0 <= i < a.len() implies is_digit(#[trigger] a[i]) by {
            assert((a + b)[i] == a[i]);
        }
        assert forall|i: int| 0 <= i < b.len() implies is_digit(#[trigger] b[i]) by {
            assert((a + b)[a.len() + i] == b[i]);
        }
    }
}

/// Reads a decimal without sign.
fn parse_unsigned(text: &Vec<char>, scale: usize) -> (number: Option<u64>)
    ensures
        number matches Some(value) ==> unsigned_decimal(text@, scale as nat) == Some(value as int),
        number is None ==> unsigned_decimal(text@, scale as nat) is None,
{
    let dot = vec!['.'];
    assert(dot@ =~= point());
    let found = find(text, &dot);
    proof {
        lemma_first_occurrence_found(text@, point());
    }
    let (whole_len, fraction_start) = match found {
        Some(at) => {
            assert(occurs_at(text@, point(), at as int) && point().len() == 1);
            assert(at + 1 <= text.len());
            (at, at + 1)
        },
        None => (text.len(), text.len()),
    };
    let fraction_len = text.len() - fraction_start;
    if whole_len == 0 || (found.is_some() && fraction_len == 0) || fraction_len > scale || scale
        > MAX_DIGITS || whole_len > MAX_DIGITS - scale {
        return None;
    }
    let mut digits = slice_of(text, 0, whole_len);
    let mut fraction = slice_of(text, fraction_start, text.len());
    let ghost whole = whole_part(text@);
    let ghost rest = fraction_part(text@);
    assert(digits@ =~= whole);
    assert(fraction@ =~= rest);
    digits.append(&mut fraction);
    assert(digits@ =~= whole + rest);
    proof {
        lemma_all_digits_concat(whole, rest);
    }
    match number_of(&digits) {
        Some(value) => {
            let pad = scale - fraction_len;
            proof {
                lemma_digits_value_bound(whole + rest);
                lemma_pow10_adds((whole + rest).len(), pad as nat);
                lemma_pow10_increases((whole_len + scale) as nat, MAX_DIGITS as nat);
                lemma_pow10_max();
                lemma_pow10_positive(pad as nat);
                assert(value * pow10(pad as nat) <= pow10((whole + rest).len()) * pow10(pad as nat))
                    by (nonlinear_arith)
                    requires
                        0 <= value < pow10((whole + rest).len()),
                        pow10(pad as nat) > 0,
                ;
            }
            Some(padded(value, pad))
        },
        None => None,
    }
}

/// Reads a decimal of the feed as a whole number of units of ten to the power minus
/// `scale`: `"60"` with scale 2 is 6000, `"-94.639999"` with scale 6 is -94639999.
pub fn parse_decimal(text: &str, scale: usize) -> (number: Option<i64>)
    ensures
        number matches Some(value) ==> decimal(text@, scale as nat) == Some(value as int),
        number is None ==> decimal(text@, scale as nat) is None,
{
    let chars = chars_of(text);
    let negative = chars.len() > 0 && chars[0] == '-';
    let body = if negative {
        let body = slice_of(&chars, 1, chars.len());
        assert(body@ =~= text@.skip(1));
        body
    } else {
        chars
    };
    match parse_unsigned(&body, scale) {
        Some(value) => {
            proof {
                lemma_decimal_bound(body@, scale as nat);
            }
            if negative {
                Some(-(value as i64))
            } else {
                Some(value as i64)
            }
        },
        None => None,
    }
}

/// A decimal has no more than `MAX_DIGITS` digits.
pub proof fn lemma_decimal_bound(text: Seq<char>, scale: nat)
    ensures
        unsigned_decimal(text, scale) matches Some(value) ==> 0 <= value
            < 1_000_000_000_000_000_000,
{
    if is_unsigned_decimal(text, scale) {
        let digits = whole_part(text) + fraction_part(text);
        let pad = (scale - fraction_part(text).len()) as nat;
        lemma_all_digits_concat(whole_part(text), fraction_part(text));
        lemma_digits_value_bound(digits);
        lemma_pow10_adds(digits.len(), pad);
        lemma_pow10_increases(digits.len() + pad, MAX_DIGITS as nat);
        lemma_pow10_max();
        lemma_pow10_positive(pad);
        assert(0 <= digits_value(digits) * pow10(pad) < pow10(digits.len()) * pow10(pad))
            by (nonlinear_arith)
            requires
                0 <= digits_value(digits) < pow10(digits.len()),
                pow10(pad) > 0,
        ;
    }
}

/// A decimal, with its sign, fits in 64 bits.
pub proof fn lemma_decimal_fits(text: Seq<char>, scale: nat)
    ensures
        decimal(text, scale) matches Some(value) ==> i64::MIN <= value <= i64::MAX,
{
    lemma_decimal_bound(text, scale);
    lemma_decimal_bound(text.skip(1), scale);
}

} // verus!
