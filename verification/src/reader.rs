//! Reading a decimal number from text.
//!
//! The grammar is that of decimal floating-point literals:
//!
//! ```text
//! Number   ::= Sign? ( Word | Mantissa Exponent? )
//! Word     ::= 'inf' | 'infinity' | 'nan'          in either case
//! Mantissa ::= Digit+ | Digit+ '.' Digit* | Digit* '.' Digit+
//! Exponent ::= ( 'e' | 'E' ) Sign? Digit+
//! Sign     ::= '+' | '-'
//! ```
//!
//! The whole text has to be a number: nothing may stand before or after it.

use crate::decimal::Decimal;
use crate::decimal::DecimalView;
use crate::text::after;
use crate::text::all_digits;
use crate::text::chars_of;
use crate::text::copy_after;
use crate::text::copy_range;
use crate::text::digit_values;
use crate::text::find_mark;
use crate::text::first_mark;
use crate::text::lemma_first_mark;
use crate::text::push_digit_values;
use crate::text::Mark;
use vstd::prelude::*;

verus! {

/// A plus or a minus sign.
pub open spec fn is_sign(c: char) -> bool {
    c == '+' || c == '-'
}

/// Whether the text starts with a minus sign.
pub open spec fn starts_with_minus(s: Seq<char>) -> bool {
    s.len() > 0 && s[0] == '-'
}

/// The text without its leading sign, if it has one.
pub open spec fn unsigned(s: Seq<char>) -> Seq<char> {
    if s.len() > 0 && is_sign(s[0]) {
        s.skip(1)
    } else {
        s
    }
}

/// Whether `s` is a word, letter by letter, each letter in either case. The
/// word is given twice: in small letters and in capitals.
pub open spec fn spells(s: Seq<char>, small: Seq<char>, capital: Seq<char>) -> bool {
    &&& s.len() == small.len()
    &&& s.len() == capital.len()
    &&& forall|i: int| 0 <= i < s.len() ==> #[trigger] s[i] == small[i] || s[i] == capital[i]
}

/// What an unsigned text reads as, if it is a mantissa with or without an
/// exponent.
///
/// The text divides at its first exponent letter into mantissa and exponent,
/// the mantissa at its first point into whole part and fraction. Whole part,
/// fraction and exponent hold digits only; whole part and fraction together
/// hold one at least, and so does the exponent if its letter is there.
pub open spec fn reading_of_digits(negative: bool, body: Seq<char>) -> Option<DecimalView> {
    let cut = first_mark(body, Mark::Exponent);
    let mantissa = body.take(cut);
    let tail = after(body, cut);
    let dot = first_mark(mantissa, Mark::Point);
    let whole = mantissa.take(dot);
    let fraction = after(mantissa, dot);
    let power = unsigned(tail);
    if all_digits(whole) && all_digits(fraction) && whole.len() + fraction.len() > 0 && all_digits(
        power,
    ) && (cut < body.len() ==> power.len() > 0) {
        Some(
            DecimalView::Finite {
                negative,
                digits: digit_values(whole) + digit_values(fraction),
                decimals: fraction.len(),
                exponent_negative: starts_with_minus(tail),
                exponent: digit_values(power),
            },
        )
    } else {
        None
    }
}

/// What a text reads as: a number, if the whole of it follows the grammar.
pub open spec fn reading(s: Seq<char>) -> Option<DecimalView> {
    let body = unsigned(s);
    if spells(body, "inf"@, "INF"@) || spells(body, "infinity"@, "INFINITY"@) {
        Some(DecimalView::Infinite { negative: starts_with_minus(s) })
    } else if spells(body, "nan"@, "NAN"@) {
        Some(DecimalView::NotANumber)
    } else {
        reading_of_digits(starts_with_minus(s), body)
    }
}

/// Whatever is read is well formed.
pub proof fn lemma_reading_wf(s: Seq<char>)
    ensures
        reading(s) matches Some(d) ==> d.wf(),
{
    let body = unsigned(s);
    let cut = first_mark(body, Mark::Exponent);
    let mantissa = body.take(cut);
    lemma_first_mark(body, Mark::Exponent);
    lemma_first_mark(mantissa, Mark::Point);
}

fn char_is_sign(c: char) -> (b: bool)
    ensures
        b == is_sign(c),
{
    c == '+' || c == '-'
}

fn begins_with_minus(text: &Vec<char>) -> (b: bool)
    ensures
        b == starts_with_minus(text@),
{
    text.len() > 0 && text[0] == '-'
}

fn without_sign(text: &Vec<char>) -> (body: Vec<char>)
    ensures
        body@ == unsigned(text@),
{
    if text.len() > 0 && char_is_sign(text[0]) {
        copy_range(text, 1, text.len())
    } else {
        copy_range(text, 0, text.len())
    }
}

fn is_word(text: &Vec<char>, small: &str, capital: &str) -> (b: bool)
    ensures
        b == spells(text@, small@, capital@),
{
    let lower = chars_of(small);
    let upper = chars_of(capital);
    if text.len() != lower.len() || text.len() != upper.len() {
        return false;
    }
    let mut i: usize = 0;
    while i < text.len()
        invariant
            i <= text.len(),
            text.len() == lower.len(),
            text.len() == upper.len(),
            lower@ == small@,
            upper@ == capital@,
            forall|j: int| 0 <= j < i ==> #[trigger] text@[j] == lower@[j] || text@[j] == upper@[j],
        decreases text.len() - i,
    {
        let c: char = text[i];
        if c != lower[i] && c != upper[i] {
            return false;
        }
        i = i + 1;
    }
    true
}

/// Reads a number from its characters.
pub(crate) fn read_chars(text: &Vec<char>) -> (r: Option<Decimal>)
    ensures
        match r {
            Some(d) => reading(text@) == Some(d@) && d.wf(),
            None => reading(text@) is None,
        },
{
    proof {
        lemma_reading_wf(text@);
    }
    let negative = begins_with_minus(text);
    let body = without_sign(text);
    if is_word(&body, "inf", "INF") || is_word(&body, "infinity", "INFINITY") {
        return Some(Decimal::Infinite { negative });
    }
    if is_word(&body, "nan", "NAN") {
        return Some(Decimal::NotANumber);
    }
    let cut = find_mark(&body, Mark::Exponent);
    let mantissa = copy_range(&body, 0, cut);
    let tail = copy_after(&body, cut);
    let dot = find_mark(&mantissa, Mark::Point);
    let whole = copy_range(&mantissa, 0, dot);
    let fraction = copy_after(&mantissa, dot);
    let power = without_sign(&tail);
    let mut digits: Vec<u8> = Vec::new();
    let mut exponent: Vec<u8> = Vec::new();
    if !push_digit_values(&mut digits, &whole) {
        return None;
    }
    if !push_digit_values(&mut digits, &fraction) {
        return None;
    }
    if digits.len() == 0 {
        return None;
    }
    if !push_digit_values(&mut exponent, &power) {
        return None;
    }
    if cut < body.len() && power.len() == 0 {
        return None;
    }
    Some(
        Decimal::Finite {
            negative,
            digits,
            decimals: fraction.len(),
            exponent_negative: begins_with_minus(&tail),
            exponent,
        },
    )
}

/// Reads a number from text.
pub fn read_decimal(text: &str) -> (r: Option<Decimal>)
    ensures
        match r {
            Some(d) => reading(text@) == Some(d@) && d.wf(),
            None => reading(text@) is None,
        },
{
    let chars = chars_of(text);
    read_chars(&chars)
}

} // verus!
