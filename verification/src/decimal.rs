//! Decimal numbers as they are written: a sign, digits, a decimal point and a
//! power of ten. A number is kept exactly, digit by digit, so that comparing it
//! with a bound involves no rounding.

use vstd::prelude::*;

verus! {

/// Ten to the power `n`.
pub open spec fn pow10(n: nat) -> nat
    decreases n,
{
    if n == 0 {
        1
    } else {
        10 * pow10((n - 1) as nat)
    }
}

/// The natural number that a sequence of digit values spells, most significant
/// digit first. The empty sequence spells zero.
pub open spec fn number_of(digits: Seq<u8>) -> nat
    decreases digits.len(),
{
    if digits.len() == 0 {
        0
    } else {
        10 * number_of(digits.drop_last()) + digits.last() as nat
    }
}

/// Every element is a digit value, `0` to `9`.
pub open spec fn all_below_ten(digits: Seq<u8>) -> bool {
    forall|i: int| 0 <= i < digits.len() ==> digits[i] < 10
}

/// Whether `m · 10^shift >= bound`, for a shift of either sign.
pub open spec fn scaled_at_least(m: nat, shift: int, bound: nat) -> bool {
    if shift >= 0 {
        m * pow10(shift as nat) >= bound
    } else {
        m >= bound * pow10((-shift) as nat)
    }
}

/// What a [`Decimal`] stands for.
pub enum DecimalView {
    NotANumber,
    Infinite { negative: bool },
    Finite {
        negative: bool,
        digits: Seq<u8>,
        decimals: nat,
        exponent_negative: bool,
        exponent: Seq<u8>,
    },
}

impl DecimalView {
    /// A finite number has at least one digit, no more decimals than digits,
    /// and digit values throughout.
    pub open spec fn wf(self) -> bool {
        match self {
            DecimalView::Finite { digits, decimals, exponent, .. } => {
                &&& digits.len() >= 1
                &&& decimals <= digits.len()
                &&& all_below_ten(digits)
                &&& all_below_ten(exponent)
            },
            _ => true,
        }
    }

    /// The power of ten by which the number spelled by the digits is scaled:
    /// the written exponent, less the count of decimals.
    pub open spec fn scale(self) -> int {
        match self {
            DecimalView::Finite { decimals, exponent_negative, exponent, .. } => {
                if exponent_negative {
                    -(number_of(exponent) as int) - decimals
                } else {
                    number_of(exponent) as int - decimals
                }
            },
            _ => 0,
        }
    }

    /// Whether the value is at least `bound / 10^bound_decimals`. Nothing that
    /// is not a number reaches a bound; a negative number reaches at most the
    /// bound zero, and only if it is zero itself.
    pub open spec fn at_least(self, bound: nat, bound_decimals: nat) -> bool {
        match self {
            DecimalView::NotANumber => false,
            DecimalView::Infinite { negative } => !negative,
            DecimalView::Finite { negative, digits, .. } => {
                if negative {
                    bound == 0 && number_of(digits) == 0
                } else {
                    scaled_at_least(number_of(digits), self.scale() + bound_decimals, bound)
                }
            },
        }
    }
}

/// A decimal number, or one of the two words that stand for no finite number.
///
/// `digits` holds the digit values before and after the decimal point, in the
/// order written; `decimals` says how many of them stand after the point. The
/// exponent is kept as written, by its sign and its digit values; no digits
/// mean no exponent.
#[derive(Debug, PartialEq, Eq)]
pub enum Decimal {
    NotANumber,
    Infinite { negative: bool },
    Finite {
        negative: bool,
        digits: Vec<u8>,
        decimals: usize,
        exponent_negative: bool,
        exponent: Vec<u8>,
    },
}

impl View for Decimal {
    type V = DecimalView;

    open spec fn view(&self) -> DecimalView {
        match self {
            Decimal::NotANumber => DecimalView::NotANumber,
            Decimal::Infinite { negative } => DecimalView::Infinite { negative: *negative },
            Decimal::Finite { negative, digits, decimals, exponent_negative, exponent } => {
                DecimalView::Finite {
                    negative: *negative,
                    digits: digits@,
                    decimals: *decimals as nat,
                    exponent_negative: *exponent_negative,
                    exponent: exponent@,
                }
            },
        }
    }
}

/// A power of ten is at least one.
pub proof fn lemma_pow10_positive(n: nat)
    ensures
        pow10(n) >= 1,
    decreases n,
{
    if n > 0 {
        lemma_pow10_positive((n - 1) as nat);
    }
}

/// Exponents add where powers of ten are multiplied.
pub proof fn lemma_pow10_adds(a: nat, b: nat)
    ensures
        pow10(a + b) == pow10(a) * pow10(b),
    decreases a,
{
    if a > 0 {
        lemma_pow10_adds((a - 1) as nat, b);
        let x = pow10((a - 1) as nat);
        let y = pow10(b);
        assert(10 * (x * y) == (10 * x) * y) by (nonlinear_arith);
    } else {
        assert(1 * pow10(b) == pow10(b));
    }
}

/// A greater exponent gives no smaller a power of ten.
pub proof fn lemma_pow10_monotone(a: nat, b: nat)
    requires
        a <= b,
    ensures
        pow10(a) <= pow10(b),
{
    lemma_pow10_adds(a, (b - a) as nat);
    lemma_pow10_positive((b - a) as nat);
    let x = pow10(a);
    let y = pow10((b - a) as nat);
    assert(x <= x * y) by (nonlinear_arith)
        requires
            y >= 1,
            x >= 0,
    ;
}

/// A number splits at any place into what its leading digits spell, scaled,
/// and what the others spell.
pub proof fn lemma_number_split(digits: Seq<u8>, n: int)
    requires
        0 <= n <= digits.len(),
    ensures
        number_of(digits) == number_of(digits.take(n)) * pow10((digits.len() - n) as nat)
            + number_of(digits.skip(n)),
    decreases digits.len(),
{
    if n == digits.len() {
        assert(digits.take(n) == digits);
        assert(number_of(digits) * 1 == number_of(digits));
    } else {
        let front = digits.drop_last();
        lemma_number_split(front, n);
        assert(front.take(n) == digits.take(n));
        assert(front.skip(n) == digits.skip(n).drop_last());
        let a = number_of(digits.take(n));
        let p = pow10((front.len() - n) as nat);
        let b = number_of(front.skip(n));
        assert(10 * (a * p + b) == a * (10 * p) + 10 * b) by (nonlinear_arith);
    }
}

/// Digits spell a number below ten to the power of their count.
pub proof fn lemma_number_below(digits: Seq<u8>)
    requires
        all_below_ten(digits),
    ensures
        number_of(digits) < pow10(digits.len()),
    decreases digits.len(),
{
    if digits.len() > 0 {
        lemma_number_below(digits.drop_last());
    }
}

/// A longer run of leading digits spells no smaller a number.
pub proof fn lemma_prefix_monotone(digits: Seq<u8>, i: int, n: int)
    requires
        0 <= i <= n <= digits.len(),
    ensures
        number_of(digits.take(i)) <= number_of(digits.take(n)),
{
    let head = digits.take(n);
    lemma_number_split(head, i);
    assert(head.take(i) == digits.take(i));
    lemma_pow10_positive((n - i) as nat);
    let a = number_of(digits.take(i));
    let p = pow10((n - i) as nat);
    assert(a <= a * p) by (nonlinear_arith)
        requires
            p >= 1,
            a >= 0,
    ;
}

/// With a positive bound, a number scaled so far down that none of its digits
/// stays before the point does not reach it.
pub proof fn lemma_scaled_far_down(digits: Seq<u8>, shift: int, bound: nat)
    requires
        all_below_ten(digits),
        shift <= -(digits.len() as int),
        bound >= 1,
    ensures
        !scaled_at_least(number_of(digits), shift, bound),
{
    if shift < 0 {
        let j = (-shift) as nat;
        lemma_number_below(digits);
        lemma_pow10_monotone(digits.len(), j);
        let p = pow10(j);
        assert(p <= bound * p) by (nonlinear_arith)
            requires
                bound >= 1,
                p >= 0,
        ;
    } else {
        let m = number_of(digits);
        assert(m * pow10(0) == 0) by (nonlinear_arith)
            requires
                m == 0,
        ;
    }
}

/// Scaled up by thirty-nine places or more, any number but zero reaches every
/// bound that sixteen bytes can hold.
pub proof fn lemma_scaled_far_up(m: nat, shift: int, bound: nat)
    requires
        shift >= 39,
        1 <= bound <= u128::MAX,
    ensures
        scaled_at_least(m, shift, bound) == (m >= 1),
{
    lemma_pow10_monotone(39, shift as nat);
    assert(pow10(39) == 1_000_000_000_000_000_000_000_000_000_000_000_000_000) by {
        reveal_with_fuel(pow10, 40);
    }
    let p = pow10(shift as nat);
    if m >= 1 {
        assert(m * p >= p) by (nonlinear_arith)
            requires
                m >= 1,
                p >= 0,
        ;
    } else {
        assert(m * p == 0) by (nonlinear_arith)
            requires
                m == 0,
        ;
    }
}

/// The number that the first `n` digits spell, unless it is above `limit`.
fn number_up_to(digits: &Vec<u8>, n: usize, limit: u128) -> (r: Option<u128>)
    requires
        n <= digits.len(),
    ensures
        match r {
            Some(v) => v == number_of(digits@.take(n as int)) && v <= limit,
            None => number_of(digits@.take(n as int)) > limit,
        },
{
    let mut acc: u128 = 0;
    let mut i: usize = 0;
    while i < n
        invariant
            i <= n <= digits.len(),
            acc == number_of(digits@.take(i as int)),
            acc <= limit,
        decreases n - i,
    {
        let d: u8 = digits[i];
        let next: Option<u128> = match acc.checked_mul(10) {
            Some(t) => t.checked_add(d as u128),
            None => None,
        };
        proof {
            assert(digits@.take(i + 1).drop_last() == digits@.take(i as int));
            lemma_prefix_monotone(digits@, i + 1, n as int);
        }
        match next {
            Some(v) => {
                if v > limit {
                    return None;
                }
                acc = v;
            },
            None => {
                return None;
            },
        }
        i = i + 1;
    }
    Some(acc)
}

/// Whether the number spelled by `digits`, scaled by `10^shift`, reaches `bound`.
fn reaches(digits: &Vec<u8>, shift: i128, bound: u128) -> (b: bool)
    requires
        all_below_ten(digits@),
        bound >= 1,
    ensures
        b == scaled_at_least(number_of(digits@), shift as int, bound as nat),
{
    let len: usize = digits.len();
    let ghost m = number_of(digits@);
    proof {
        assert(digits@.take(len as int) == digits@);
    }
    if shift >= 0 {
        let start: u128 = match number_up_to(digits, len, bound - 1) {
            Some(v) => v,
            None => {
                proof {
                    lemma_pow10_positive(shift as nat);
                    let p = pow10(shift as nat);
                    assert(m * p >= m) by (nonlinear_arith)
                        requires
                            p >= 1,
                            m >= 0,
                    ;
                }
                return true;
            },
        };
        if start == 0 {
            proof {
                assert(m * pow10(shift as nat) == 0) by (nonlinear_arith)
                    requires
                        m == 0,
                ;
            }
            return false;
        }
        let mut acc: u128 = start;
        let mut k: i128 = 0;
        proof {
            assert(m * pow10(0) == m) by (nonlinear_arith)
                requires
                    pow10(0) == 1,
            ;
        }
        while k < shift
            invariant
                0 <= k <= shift,
                m == number_of(digits@),
                acc == m * pow10(k as nat),
                1 <= acc < bound,
            decreases shift - k,
        {
            let ghost p = pow10(k as nat);
            proof {
                assert(m * (10 * p) == 10 * (m * p)) by (nonlinear_arith);
            }
            let grown: Option<u128> = acc.checked_mul(10);
            let stop: bool = match grown {
                Some(t) => t >= bound,
                None => true,
            };
            if stop {
                proof {
                    lemma_pow10_monotone((k + 1) as nat, shift as nat);
                    let q = pow10((k + 1) as nat);
                    let r = pow10(shift as nat);
                    assert(m * q <= m * r) by (nonlinear_arith)
                        requires
                            q <= r,
                            m >= 0,
                    ;
                }
                return true;
            }
            acc = grown.unwrap();
            k = k + 1;
        }
        false
    } else {
        if shift <= -(len as i128) {
            proof {
                lemma_scaled_far_down(digits@, shift as int, bound as nat);
            }
            return false;
        }
        let kept: usize = (len as i128 + shift) as usize;
        let ghost p = pow10((-shift) as nat);
        let ghost head = number_of(digits@.take(kept as int));
        proof {
            lemma_number_split(digits@, kept as int);
            lemma_number_below(digits@.skip(kept as int));
        }
        match number_up_to(digits, kept, bound - 1) {
            Some(_) => {
                proof {
                    assert(head * p + p <= bound * p) by (nonlinear_arith)
                        requires
                            head + 1 <= bound,
                            p >= 0,
                    ;
                }
                false
            },
            None => {
                proof {
                    assert(head * p >= bound * p) by (nonlinear_arith)
                        requires
                            head >= bound,
                            p >= 0,
                    ;
                }
                true
            },
        }
    }
}

/// Exponents above this, which is 2¹⁰⁰, are told apart no further: every one
/// of them moves the point past all the digits that a vector can hold.
pub const EXPONENT_LIMIT: u128 = 1_267_650_600_228_229_401_496_703_205_376;

impl Decimal {
    /// See [`DecimalView::wf`].
    pub open spec fn wf(&self) -> bool {
        self@.wf()
    }

    /// Whether the number is at least `bound / 10^bound_decimals`.
    ///
    /// The decision is exact, whatever the count of digits and the size of the
    /// exponent.
    pub fn at_least(&self, bound: u128, bound_decimals: usize) -> (b: bool)
        requires
            self.wf(),
        ensures
            b == self@.at_least(bound as nat, bound_decimals as nat),
    {
        match self {
            Decimal::NotANumber => false,
            Decimal::Infinite { negative } => !*negative,
            Decimal::Finite { negative, digits, decimals, exponent_negative, exponent } => {
                let len: usize = digits.len();
                proof {
                    assert(digits@.take(len as int) == digits@);
                    assert(exponent@.take(exponent.len() as int) == exponent@);
                }
                if *negative {
                    return bound == 0 && number_up_to(digits, len, 0).is_some();
                }
                if bound == 0 {
                    return true;
                }
                match number_up_to(exponent, exponent.len(), EXPONENT_LIMIT) {
                    Some(e) => {
                        let written: i128 = if *exponent_negative {
                            -(e as i128)
                        } else {
                            e as i128
                        };
                        let shift: i128 = written - (*decimals as i128) + (bound_decimals as i128);
                        reaches(digits, shift, bound)
                    },
                    None => {
                        let ghost shift = self@.scale() + bound_decimals;
                        if *exponent_negative {
                            proof {
                                lemma_scaled_far_down(digits@, shift, bound as nat);
                            }
                            false
                        } else {
                            proof {
                                lemma_scaled_far_up(number_of(digits@), shift, bound as nat);
                            }
                            number_up_to(digits, len, 0).is_none()
                        }
                    },
                }
            },
        }
    }
}

} // verus!
