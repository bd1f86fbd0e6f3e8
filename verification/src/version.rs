//! Finding a runtime's version in free text, and holding it against the
//! minimum that the application needs.
//!
//! The text is typically what a runtime prints when asked for its version. It
//! is scanned character by character. Digits are collected wherever they
//! stand; the first decimal point is collected too; a second point, or white
//! space after the first point, ends the scan. So `openjdk 21.0.1 2023-10-17`
//! yields `21.0`, and `17` yields `17`. What was collected is then read as a
//! decimal number.

use crate::decimal::lemma_pow10_adds;
use crate::decimal::lemma_pow10_positive;
use crate::decimal::number_of;
use crate::decimal::pow10;
use crate::decimal::Decimal;
use crate::decimal::DecimalView;
use crate::reader::read_chars;
use crate::reader::reading;
use crate::reader::unsigned;
use crate::text::after;
use crate::text::all_digits;
use crate::text::char_is_digit;
use crate::text::char_is_mark;
use crate::text::chars_of;
use crate::text::digit_values;
use crate::text::digits_in;
use crate::text::first_mark;
use crate::text::is_digit;
use crate::text::is_mark;
use crate::text::lemma_digits_in;
use crate::text::lemma_first_mark;
use crate::text::lemma_first_mark_is;
use crate::text::Mark;
use vstd::prelude::*;

verus! {

/// The version that the application is built for.
pub const NOMINAL_MINIMUM: u128 = 11;

/// The least version that is accepted, as a count of units of 10⁻²¹.
///
/// It is the nominal minimum less a margin of 2⁻²¹, which is half the distance
/// between neighbouring single-precision numbers just below eleven. A version
/// text that a single-precision reader would take for eleven is accepted, and
/// eleven itself is never turned away by a rounding error.
pub const MINIMUM_SCALED: u128 = 10_999_999_523_162_841_796_875;

/// The count of decimals in [`MINIMUM_SCALED`].
pub const MINIMUM_DECIMALS: usize = 21;

/// What a [`ParsedVersion`] stands for.
pub enum ParsedVersionView {
    Unparseable,
    Number(DecimalView),
}

impl ParsedVersionView {
    pub open spec fn wf(self) -> bool {
        match self {
            ParsedVersionView::Unparseable => true,
            ParsedVersionView::Number(d) => d.wf(),
        }
    }

    /// Whether the version is at least the accepted minimum. No version at all
    /// is below every minimum.
    pub open spec fn meets_minimum(self) -> bool {
        match self {
            ParsedVersionView::Unparseable => false,
            ParsedVersionView::Number(d) => d.at_least(
                MINIMUM_SCALED as nat,
                MINIMUM_DECIMALS as nat,
            ),
        }
    }
}

/// A version found in text, or the finding that the text holds none.
#[derive(Debug, PartialEq, Eq)]
pub enum ParsedVersion {
    /// The text held nothing that reads as a number.
    Unparseable,
    /// The number that the text held.
    Number(Decimal),
}

impl View for ParsedVersion {
    type V = ParsedVersionView;

    open spec fn view(&self) -> ParsedVersionView {
        match self {
            ParsedVersion::Unparseable => ParsedVersionView::Unparseable,
            ParsedVersion::Number(d) => ParsedVersionView::Number(d@),
        }
    }
}

/// The outcome of a scan: the version, and the collected text if there was
/// some and it did not read as a number.
#[derive(Debug, PartialEq, Eq)]
pub struct VersionScan {
    pub version: ParsedVersion,
    pub unread: Option<String>,
}

/// What a scan collects from `s`.
///
/// With no point in `s`, these are all its digits. Otherwise they are the
/// digits before the first point, the point, and the digits that follow up to
/// the next point or white space.
pub open spec fn collected(s: Seq<char>) -> Seq<char> {
    let point = first_mark(s, Mark::Point);
    if point == s.len() {
        digits_in(s)
    } else {
        let rest = after(s, point);
        let end = first_mark(rest, Mark::Break);
        digits_in(s.take(point)) + seq!['.'] + digits_in(rest.take(end))
    }
}

/// The version that `s` holds: what the collected text reads as.
pub open spec fn version_of(s: Seq<char>) -> ParsedVersionView {
    match reading(collected(s)) {
        Some(d) => ParsedVersionView::Number(d),
        None => ParsedVersionView::Unparseable,
    }
}

/// The collected text, if there is some and it does not read as a number.
pub open spec fn unread_of(s: Seq<char>) -> Option<Seq<char>> {
    if collected(s).len() > 0 && reading(collected(s)) is None {
        Some(collected(s))
    } else {
        None
    }
}

/// Digits, with or without a point among them, read as the number they spell:
/// the digits before the point and after it, and as many decimals as stand
/// after it. Without any digit they do not read as a number.
pub proof fn lemma_reading_plain(whole: Seq<char>, fraction: Seq<char>, pointed: bool)
    requires
        all_digits(whole),
        all_digits(fraction),
        !pointed ==> fraction.len() == 0,
    ensures
        ({
            let s = if pointed {
                whole + seq!['.'] + fraction
            } else {
                whole
            };
            reading(s) == if whole.len() + fraction.len() > 0 {
                Some(
                    DecimalView::Finite {
                        negative: false,
                        digits: digit_values(whole) + digit_values(fraction),
                        decimals: fraction.len(),
                        exponent_negative: false,
                        exponent: Seq::<u8>::empty(),
                    },
                )
            } else {
                None
            }
        }),
{
    let s = if pointed {
        whole + seq!['.'] + fraction
    } else {
        whole
    };
    reveal_strlit("inf");
    reveal_strlit("INF");
    reveal_strlit("infinity");
    reveal_strlit("INFINITY");
    reveal_strlit("nan");
    reveal_strlit("NAN");
    lemma_first_mark_is(s, Mark::Exponent, s.len() as int);
    assert(s.take(s.len() as int) == s);
    lemma_first_mark_is(s, Mark::Point, whole.len() as int);
    assert(s.take(whole.len() as int) == whole);
    assert(after(s, whole.len() as int) == fraction);
    assert(digit_values(unsigned(Seq::<char>::empty())) == Seq::<u8>::empty());
}

/// What a scan collected reads as a number unless it is empty or a lone
/// point: that is, if and only if there is a digit in it. The number is
/// finite and not negative, and has no exponent.
pub proof fn lemma_collected(s: Seq<char>)
    ensures
        reading(collected(s)) is None <==> (collected(s).len() == 0 || collected(s) == seq!['.']),
        reading(collected(s)) matches Some(d) ==> (d matches DecimalView::Finite {
            negative,
            exponent,
            ..
        } && !negative && exponent.len() == 0),
{
    let point = first_mark(s, Mark::Point);
    lemma_first_mark(s, Mark::Point);
    if point == s.len() {
        lemma_digits_in(s);
        lemma_reading_plain(digits_in(s), Seq::empty(), false);
    } else {
        let rest = after(s, point);
        let end = first_mark(rest, Mark::Break);
        lemma_first_mark(rest, Mark::Break);
        let whole = digits_in(s.take(point));
        let fraction = digits_in(rest.take(end));
        lemma_digits_in(s.take(point));
        lemma_digits_in(rest.take(end));
        lemma_reading_plain(whole, fraction, true);
    }
}

/// A text without a digit holds no version, and no version is below the minimum.
pub proof fn lemma_no_digit_is_unparseable(s: Seq<char>)
    requires
        forall|i: int| 0 <= i < s.len() ==> !is_digit(#[trigger] s[i]),
    ensures
        version_of(s) == ParsedVersionView::Unparseable,
        !version_of(s).meets_minimum(),
{
    let point = first_mark(s, Mark::Point);
    lemma_first_mark(s, Mark::Point);
    lemma_collected(s);
    if point == s.len() {
        lemma_digits_in(s);
    } else {
        let rest = after(s, point);
        let end = first_mark(rest, Mark::Break);
        lemma_first_mark(rest, Mark::Break);
        lemma_digits_in(s.take(point));
        lemma_digits_in(rest.take(end));
    }
}

/// The accepted minimum is the nominal minimum less 2⁻²¹.
pub proof fn lemma_minimum_is_nominal_less_margin()
    ensures
        MINIMUM_SCALED * 2_097_152 + pow10(MINIMUM_DECIMALS as nat) == NOMINAL_MINIMUM * 2_097_152
            * pow10(MINIMUM_DECIMALS as nat),
{
    assert(pow10(21) == 1_000_000_000_000_000_000_000) by {
        reveal_with_fuel(pow10, 22);
    }
}

/// A number that is at least the nominal minimum meets the accepted minimum:
/// the margin turns no such version away.
pub proof fn lemma_nominal_minimum_is_accepted(d: DecimalView)
    requires
        d.at_least(NOMINAL_MINIMUM as nat, 0),
    ensures
        ParsedVersionView::Number(d).meets_minimum(),
{
    match d {
        DecimalView::Finite { negative, digits, .. } => {
            let m = number_of(digits);
            let shift = d.scale();
            let up = shift + 21;
            assert(pow10(21) == 1_000_000_000_000_000_000_000) by {
                reveal_with_fuel(pow10, 22);
            }
            if shift >= 0 {
                lemma_pow10_adds(shift as nat, 21);
                let p = pow10(shift as nat);
                let q = pow10(21);
                assert(m * (p * q) >= 11 * q) by (nonlinear_arith)
                    requires
                        m * p >= 11,
                        q >= 0,
                ;
            } else if up >= 0 {
                lemma_pow10_adds((-shift) as nat, up as nat);
                let p = pow10((-shift) as nat);
                let q = pow10(up as nat);
                assert(m * q >= 11 * (p * q)) by (nonlinear_arith)
                    requires
                        m >= 11 * p,
                        q >= 0,
                ;
            } else {
                lemma_pow10_adds(21, (-up) as nat);
                lemma_pow10_positive((-up) as nat);
                let q = pow10(21);
                let r = pow10((-up) as nat);
                assert(11 * (q * r) >= 10_999_999_523_162_841_796_875 * r) by (nonlinear_arith)
                    requires
                        q == 1_000_000_000_000_000_000_000,
                        r >= 0,
                ;
            }
        },
        _ => {},
    }
}

/// Collects from `text` what may spell a version.
pub(crate) fn collect(text: &Vec<char>) -> (kept: Vec<char>)
    ensures
        kept@ == collected(text@),
{
    let n: usize = text.len();
    let mut kept: Vec<char> = Vec::new();
    let mut point: Option<usize> = None;
    let mut done: bool = false;
    let mut i: usize = 0;
    while i < n && !done
        invariant
            i <= n == text.len(),
            match point {
                None => {
                    &&& !done
                    &&& forall|j: int| 0 <= j < i ==> !is_mark(Mark::Point, #[trigger] text@[j])
                    &&& kept@ == digits_in(text@.take(i as int))
                },
                Some(p) => {
                    &&& p < i
                    &&& is_mark(Mark::Point, text@[p as int])
                    &&& forall|j: int| 0 <= j < p ==> !is_mark(Mark::Point, #[trigger] text@[j])
                    &&& forall|j: int| p < j < i ==> !is_mark(Mark::Break, #[trigger] text@[j])
                    &&& kept@ == digits_in(text@.take(p as int)) + seq!['.'] + digits_in(
                        text@.subrange(p + 1, i as int),
                    )
                    &&& done ==> i < n && is_mark(Mark::Break, text@[i as int])
                },
            },
        decreases n - i, if done { 0int } else { 1int },
    {
        let c: char = text[i];
        match point {
            None => {
                proof {
                    assert(text@.take(i + 1).drop_last() == text@.take(i as int));
                }
                if char_is_digit(c) {
                    kept.push(c);
                } else if char_is_mark(Mark::Point, c) {
                    kept.push(c);
                    point = Some(i);
                    proof {
                        assert(kept@ == digits_in(text@.take(i as int)) + seq!['.'] + digits_in(
                            text@.subrange(i + 1, i + 1),
                        ));
                    }
                }
                i = i + 1;
            },
            Some(p) => {
                if char_is_mark(Mark::Break, c) {
                    done = true;
                } else {
                    proof {
                        assert(text@.subrange(p + 1, i + 1).drop_last() == text@.subrange(
                            p + 1,
                            i as int,
                        ));
                    }
                    if char_is_digit(c) {
                        kept.push(c);
                    }
                    i = i + 1;
                }
            },
        }
    }
    proof {
        match point {
            None => {
                lemma_first_mark_is(text@, Mark::Point, n as int);
                assert(text@.take(n as int) == text@);
            },
            Some(p) => {
                lemma_first_mark_is(text@, Mark::Point, p as int);
                let rest = after(text@, p as int);
                lemma_first_mark_is(rest, Mark::Break, i - p - 1);
                assert(rest.take(i - p - 1) == text@.subrange(p + 1, i as int));
            },
        }
    }
    kept
}

/// Looks for a version in `text`, and says what it collected if that did not
/// read as a number.
pub fn scan_version(text: &str) -> (scan: VersionScan)
    ensures
        scan.version@ == version_of(text@),
        scan.version.wf(),
        match scan.unread {
            Some(t) => unread_of(text@) == Some(t@),
            None => unread_of(text@) is None,
        },
{
    let chars = chars_of(text);
    let kept = collect(&chars);
    proof {
        lemma_collected(text@);
    }
    if kept.len() == 0 {
        return VersionScan { version: ParsedVersion::Unparseable, unread: None };
    }
    match read_chars(&kept) {
        Some(d) => VersionScan { version: ParsedVersion::Number(d), unread: None },
        None => {
            proof {
                reveal_strlit(".");
            }
            VersionScan { version: ParsedVersion::Unparseable, unread: Some(String::from_str(".")) }
        },
    }
}

/// Looks for a version in `text`.
pub fn parse_version(text: &str) -> (version: ParsedVersion)
    ensures
        version@ == version_of(text@),
        version.wf(),
{
    scan_version(text).version
}

impl ParsedVersion {
    /// See [`ParsedVersionView::wf`].
    pub open spec fn wf(&self) -> bool {
        self@.wf()
    }

    /// Whether no version was found.
    pub fn is_unparseable(&self) -> (b: bool)
        ensures
            b == (self@ is Unparseable),
    {
        match self {
            ParsedVersion::Unparseable => true,
            ParsedVersion::Number(_) => false,
        }
    }

    /// Whether the version is at least the accepted minimum.
    pub fn meets_minimum(&self) -> (b: bool)
        requires
            self.wf(),
        ensures
            b == self@.meets_minimum(),
    {
        match self {
            ParsedVersion::Unparseable => false,
            ParsedVersion::Number(d) => d.at_least(MINIMUM_SCALED, MINIMUM_DECIMALS),
        }
    }
}

/// What a runtime printed when asked for its version, as one text: what it
/// wrote to its standard output, followed by what it wrote to its standard
/// error. A version on standard output is therefore found first, and one on
/// standard error is found where standard output holds none.
pub fn combined_output(standard_output: &str, standard_error: &str) -> (text: String)
    ensures
        text@ == standard_output@ + standard_error@,
{
    let mut text = String::from_str(standard_output);
    text.append(standard_error);
    text
}

/// Whether the text that a runtime printed about its version shows that the
/// runtime is recent enough.
pub fn validate(output: &str) -> (recent: bool)
    ensures
        recent == version_of(output@).meets_minimum(),
{
    parse_version(output).meets_minimum()
}

} // verus!
