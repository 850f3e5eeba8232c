//! Decimal numerals and the scores that they denote, in millionths.
//!
//! A numeral is an optional sign, digits with an optional point among them,
//! and an optional exponent: `7`, `8.2`, `.5`, `+1e1`, `9.75E-0`. Scores are
//! read off the digits, so a numeral of any length is handled exactly.

use vstd::prelude::*;
use crate::text::{
    digit_of, digit_value, prefix_len, scan_forward, slice_of, CharClass,
};

verus! {

/// The lowest score, one, in millionths.
pub const SCORE_MIN: u32 = 1_000_000;

/// The highest score, ten, in millionths.
pub const SCORE_MAX: u32 = 10_000_000;

/// Exponents are followed exactly up to this size; beyond it a numeral is
/// far outside every range of interest, whatever its digits.
pub const EXPONENT_CAP: i128 = 1_000_000_000_000_000_000_000_000_000_000;

/// The number that a sequence of decimal digits denotes.
pub open spec fn digits_value(s: Seq<char>) -> nat
    decreases s.len(),
{
    if s.len() == 0 {
        0
    } else {
        digits_value(s.drop_last()) * 10 + digit_value(s.last())
    }
}

/// Whether `t` begins with a sign.
pub open spec fn has_sign(t: Seq<char>) -> bool {
    t.len() > 0 && (t[0] == '+' || t[0] == '-')
}

/// The exponent written by `t`, the part of a numeral after its digits:
/// zero if `t` is empty, else `e` or `E`, an optional sign and at least one
/// digit.
pub open spec fn exponent_of(t: Seq<char>) -> Option<int> {
    if t.len() == 0 {
        Some(0)
    } else if t[0] != 'e' && t[0] != 'E' {
        None
    } else {
        let body = t.skip(1);
        let digits = if has_sign(body) {
            body.skip(1)
        } else {
            body
        };
        if digits.len() == 0 || prefix_len(digits, CharClass::Digit) != digits.len() {
            None
        } else if has_sign(body) && body[0] == '-' {
            Some(-(digits_value(digits) as int))
        } else {
            Some(digits_value(digits) as int)
        }
    }
}

/// A decimal numeral, taken apart.
pub ghost struct Numeral {
    /// Whether the numeral begins with a minus sign.
    pub negative: bool,
    /// The digits of the integer part, then those of the fraction.
    pub digits: Seq<char>,
    /// How many of the digits stand before the point.
    pub integer_len: nat,
    /// The exponent; zero if none is written.
    pub exponent: int,
}

/// The numeral that `token` writes, if it writes one: an optional sign,
/// digits with at most one point among them and at least one digit in all,
/// and an optional exponent.
pub open spec fn numeral_of(token: Seq<char>) -> Option<Numeral> {
    let body = if has_sign(token) {
        token.skip(1)
    } else {
        token
    };
    let a = prefix_len(body, CharClass::Digit);
    let after_integer = body.skip(a as int);
    let pointed = after_integer.len() > 0 && after_integer[0] == '.';
    let after_point = if pointed {
        after_integer.skip(1)
    } else {
        after_integer
    };
    let b = if pointed {
        prefix_len(after_point, CharClass::Digit)
    } else {
        0
    };
    if a + b == 0 {
        None
    } else {
        match exponent_of(after_point.skip(b as int)) {
            None => None,
            Some(exponent) => Some(
                Numeral {
                    negative: has_sign(token) && token[0] == '-',
                    digits: body.take(a as int) + after_point.take(b as int),
                    integer_len: a,
                    exponent,
                },
            ),
        }
    }
}

impl Numeral {
    /// The number of zeros that the digits begin with.
    pub open spec fn leading_zeros(self) -> nat {
        prefix_len(self.digits, CharClass::Only('0'))
    }

    /// The digits from the first that is not zero; empty if the numeral
    /// denotes zero.
    pub open spec fn significant(self) -> Seq<char> {
        self.digits.skip(self.leading_zeros() as int)
    }

    /// The power of ten just above the numeral's absolute value: with
    /// significant digits `d1 d2 d3 ..` the value is `0.d1d2d3.. × 10^m`.
    pub open spec fn magnitude(self) -> int {
        self.integer_len - self.leading_zeros() + self.exponent
    }

    /// The first seven significant digits as a number, with zeros for
    /// missing digits: the millionths of `d1.d2d3d4d5d6d7`, rounded down.
    pub open spec fn leading_millionths(self) -> nat {
        let s = self.significant();
        digits_value(
            Seq::new(
                7,
                |i: int|
                    if i < s.len() {
                        s[i]
                    } else {
                        '0'
                    },
            ),
        )
    }

    /// Whether the significant digits are a one followed by zeros only.
    pub open spec fn is_power_of_ten(self) -> bool {
        let s = self.significant();
        s.len() > 0 && s[0] == '1' && prefix_len(s.skip(1), CharClass::Only('0')) == s.len() - 1
    }

    /// The score that the numeral denotes, in millionths and rounded down,
    /// if its value is at least one and at most ten.
    pub open spec fn score_in_range(self) -> Option<u32> {
        if self.negative || self.significant().len() == 0 {
            None
        } else if self.magnitude() == 1 {
            Some(self.leading_millionths() as u32)
        } else if self.magnitude() == 2 && self.is_power_of_ten() {
            Some(SCORE_MAX)
        } else {
            None
        }
    }

    /// The score that the numeral denotes, in millionths and rounded down,
    /// after its value was raised to one or lowered to ten where it lies
    /// outside.
    pub open spec fn score_clamped(self) -> u32 {
        if self.negative || self.significant().len() == 0 || self.magnitude() <= 0 {
            SCORE_MIN
        } else if self.magnitude() == 1 {
            self.leading_millionths() as u32
        } else {
            SCORE_MAX
        }
    }
}

/// The score that `token` denotes if it is a numeral between one and ten.
pub open spec fn token_score(token: Seq<char>) -> Option<u32> {
    match numeral_of(token) {
        Some(n) => n.score_in_range(),
        None => None,
    }
}

/// The clamped score that `text` denotes if it is a numeral.
pub open spec fn clamped_score(text: Seq<char>) -> Option<u32> {
    match numeral_of(text) {
        Some(n) => Some(n.score_clamped()),
        None => None,
    }
}

/// Ten to the power of `k`.
pub open spec fn pow10(k: nat) -> nat
    decreases k,
{
    if k == 0 {
        1
    } else {
        10 * pow10((k - 1) as nat)
    }
}

/// `n × 10^k`, rounded down to a whole number.
pub open spec fn scaled(n: nat, k: int) -> nat {
    if k >= 0 {
        n * pow10(k as nat)
    } else {
        n / pow10((-k) as nat)
    }
}

/// Whether `n × 10^k` is at least `bound`.
pub open spec fn reaches(n: nat, k: int, bound: nat) -> bool {
    if k >= 0 {
        n * pow10(k as nat) >= bound
    } else {
        n >= bound * pow10((-k) as nat)
    }
}

/// Whether `n × 10^k` is more than `bound`.
pub open spec fn exceeds(n: nat, k: int, bound: nat) -> bool {
    if k >= 0 {
        n * pow10(k as nat) > bound
    } else {
        n > bound * pow10((-k) as nat)
    }
}

impl Numeral {
    /// Whether the parts of the numeral fit together: every digit is a
    /// decimal digit, and the integer part is among the digits.
    pub open spec fn well_formed(self) -> bool {
        &&& self.integer_len <= self.digits.len()
        &&& forall|i: int| 0 <= i < self.digits.len() ==> digit_value(#[trigger] self.digits[i]) < 10
    }

    /// The number that the digits write when the point is left out.
    pub open spec fn number(self) -> nat {
        digits_value(self.digits)
    }

    /// The power of ten by which [`Self::number`] is to be multiplied for
    /// the absolute value of the numeral in millionths: the exponent, less
    /// the number of digits after the point, plus six.
    pub open spec fn shift(self) -> int {
        self.exponent - (self.digits.len() - self.integer_len) + 6
    }

    /// The absolute value of the numeral in millionths, rounded down.
    pub open spec fn millionths(self) -> nat {
        scaled(self.number(), self.shift())
    }

    /// Whether the absolute value of the numeral is at least one.
    pub open spec fn at_least_one(self) -> bool {
        reaches(self.number(), self.shift(), 1_000_000)
    }

    /// Whether the absolute value of the numeral is at most ten.
    pub open spec fn at_most_ten(self) -> bool {
        !exceeds(self.number(), self.shift(), 10_000_000)
    }
}

/// Powers of ten are positive.
pub proof fn lemma_pow10_positive(k: nat)
    ensures
        pow10(k) > 0,
    decreases k,
{
    if k > 0 {
        lemma_pow10_positive((k - 1) as nat);
    }
}

/// Ten to a sum is the product of the powers.
pub proof fn lemma_pow10_add(a: nat, b: nat)
    ensures
        pow10(a + b) == pow10(a) * pow10(b),
    decreases b,
{
    if b == 0 {
        assert(pow10(a) * 1 == pow10(a)) by (nonlinear_arith);
    } else {
        lemma_pow10_add(a, (b - 1) as nat);
        let x = pow10(a);
        let y = pow10((b - 1) as nat);
        assert(pow10(a + b) == 10 * pow10((a + b - 1) as nat));
        assert(10 * (x * y) == x * (10 * y)) by (nonlinear_arith);
    }
}

/// A larger power of ten is no smaller.
pub proof fn lemma_pow10_grows(a: nat, b: nat)
    requires
        a <= b,
    ensures
        pow10(a) <= pow10(b),
    decreases b,
{
    if a < b {
        lemma_pow10_grows(a, (b - 1) as nat);
        lemma_pow10_positive((b - 1) as nat);
    }
}

/// The powers of ten around a million.
pub proof fn lemma_pow10_million()
    ensures
        pow10(6) == 1_000_000,
        pow10(7) == 10_000_000,
        pow10(8) == 100_000_000,
{
    reveal_with_fuel(pow10, 10);
}

/// The number written by two runs of digits one after the other.
pub proof fn lemma_value_of_concat(a: Seq<char>, b: Seq<char>)
    ensures
        digits_value(a + b) == digits_value(a) * pow10(b.len()) + digits_value(b),
    decreases b.len(),
{
    if b.len() == 0 {
        assert(a + b =~= a);
        assert(digits_value(a) * 1 == digits_value(a)) by (nonlinear_arith);
    } else {
        let shorter = b.drop_last();
        lemma_value_of_concat(a, shorter);
        assert((a + b).drop_last() =~= a + shorter);
        assert((a + b).last() == b.last());
        let x = digits_value(a);
        let p = pow10(shorter.len());
        let y = digits_value(shorter);
        let d = digit_value(b.last());
        assert(pow10(b.len()) == 10 * p);
        assert((x * p + y) * 10 + d == x * (10 * p) + (y * 10 + d)) by (nonlinear_arith);
    }
}

/// A number of `len` digits is below ten to the `len`.
pub proof fn lemma_value_is_below(s: Seq<char>)
    requires
        forall|i: int| 0 <= i < s.len() ==> digit_value(#[trigger] s[i]) < 10,
    ensures
        digits_value(s) < pow10(s.len()),
    decreases s.len(),
{
    if s.len() > 0 {
        let shorter = s.drop_last();
        assert forall|i: int| 0 <= i < shorter.len() implies digit_value(#[trigger] shorter[i])
            < 10 by {
            assert(shorter[i] == s[i]);
        }
        lemma_value_is_below(shorter);
        assert(digit_value(s.last()) < 10) by {
            assert(s.last() == s[s.len() - 1]);
        }
    }
}

/// Zeros write zero, and digits that write zero are all zeros.
pub proof fn lemma_value_is_zero(s: Seq<char>)
    requires
        forall|i: int| 0 <= i < s.len() ==> digit_value(#[trigger] s[i]) < 10,
    ensures
        digits_value(s) == 0 <==> (forall|i: int| 0 <= i < s.len() ==> #[trigger] s[i] == '0'),
    decreases s.len(),
{
    if s.len() > 0 {
        let shorter = s.drop_last();
        assert forall|i: int| 0 <= i < shorter.len() implies digit_value(#[trigger] shorter[i])
            < 10 by {
            assert(shorter[i] == s[i]);
        }
        lemma_value_is_zero(shorter);
        assert(s.last() == s[s.len() - 1]);
        if digits_value(s) == 0 {
            assert forall|i: int| 0 <= i < s.len() implies #[trigger] s[i] == '0' by {
                if i < shorter.len() {
                    assert(shorter[i] == s[i]);
                }
            }
        }
        if forall|i: int| 0 <= i < s.len() ==> #[trigger] s[i] == '0' {
            assert forall|i: int| 0 <= i < shorter.len() implies #[trigger] shorter[i] == '0' by {
                assert(shorter[i] == s[i]);
            }
        }
    }
}

/// Digits that begin with a digit other than zero write a number of
/// exactly as many digits: it is at least ten to the length less one. It is
/// that power of ten just when the digits are a one and zeros.
pub proof fn lemma_value_of_significant(s: Seq<char>)
    requires
        s.len() > 0,
        forall|i: int| 0 <= i < s.len() ==> digit_value(#[trigger] s[i]) < 10,
        s[0] != '0',
    ensures
        pow10((s.len() - 1) as nat) <= digits_value(s) < pow10(s.len()),
        digits_value(s) == pow10((s.len() - 1) as nat) <==> (s[0] == '1' && forall|i: int|
            1 <= i < s.len() ==> #[trigger] s[i] == '0'),
{
    let head = s.take(1);
    let rest = s.skip(1);
    assert(s =~= head + rest);
    lemma_value_of_concat(head, rest);
    assert(digits_value(head) == digit_value(s[0])) by {
        reveal_with_fuel(digits_value, 2);
        assert(head.last() == s[0]);
        assert(head.drop_last().len() == 0);
    }
    assert forall|i: int| 0 <= i < rest.len() implies digit_value(#[trigger] rest[i]) < 10 by {
        assert(rest[i] == s[i + 1]);
    }
    lemma_value_is_below(rest);
    lemma_value_is_zero(rest);
    lemma_value_is_below(s);
    let d = digit_value(s[0]);
    let p = pow10(rest.len());
    lemma_pow10_positive(rest.len());
    assert(d * p >= p) by (nonlinear_arith)
        requires
            d >= 1,
            p > 0,
    ;
    if d >= 2 {
        assert(d * p >= 2 * p) by (nonlinear_arith)
            requires
                d >= 2,
                p > 0,
        ;
    } else {
        assert(d * p == p) by (nonlinear_arith)
            requires
                d == 1,
        ;
    }
    if forall|i: int| 1 <= i < s.len() ==> #[trigger] s[i] == '0' {
        assert forall|i: int| 0 <= i < rest.len() implies #[trigger] rest[i] == '0' by {
            assert(rest[i] == s[i + 1]);
        }
    }
    if forall|i: int| 0 <= i < rest.len() ==> #[trigger] rest[i] == '0' {
        assert forall|i: int| 1 <= i < s.len() implies #[trigger] s[i] == '0' by {
            assert(s[i] == rest[i - 1]);
        }
    }
}

/// Where `n` has exactly `len` digits, the size of `n × 10^k` is known
/// from `len + k` alone, but for the numbers from ten million to a hundred
/// million, of which only ten million itself does not exceed ten million.
pub proof fn lemma_band(n: nat, len: nat, k: int)
    requires
        len >= 1,
        pow10((len - 1) as nat) <= n < pow10(len),
    ensures
        len + k <= 6 ==> !reaches(n, k, 1_000_000),
        len + k >= 7 ==> reaches(n, k, 1_000_000),
        len + k <= 7 ==> !exceeds(n, k, 10_000_000),
        len + k >= 9 ==> exceeds(n, k, 10_000_000),
        len + k == 8 ==> (exceeds(n, k, 10_000_000) <==> n != pow10((len - 1) as nat)),
        len + k == 8 && n == pow10((len - 1) as nat) ==> scaled(n, k) == 10_000_000,
{
    lemma_pow10_million();
    let low = pow10((len - 1) as nat);
    let high = pow10(len);
    lemma_pow10_positive((len - 1) as nat);
    if k >= 0 {
        let p = pow10(k as nat);
        lemma_pow10_positive(k as nat);
        lemma_pow10_add((len - 1) as nat, k as nat);
        lemma_pow10_add(len, k as nat);
        assert(low * p <= n * p) by (nonlinear_arith)
            requires
                low <= n,
                p > 0,
        ;
        assert(n * p < high * p) by (nonlinear_arith)
            requires
                n < high,
                p > 0,
        ;
        if len + k <= 6 {
            lemma_pow10_grows(len + k as nat, 6);
        }
        if len + k >= 7 {
            lemma_pow10_grows(6, (len - 1 + k) as nat);
        }
        if len + k <= 7 {
            lemma_pow10_grows(len + k as nat, 7);
        }
        if len + k >= 9 {
            lemma_pow10_grows(8, (len - 1 + k) as nat);
        }
        if len + k == 8 {
            if n != low {
                assert(n * p >= (low + 1) * p) by (nonlinear_arith)
                    requires
                        n >= low + 1,
                        p > 0,
                ;
                assert((low + 1) * p == low * p + p) by (nonlinear_arith);
            }
        }
    } else {
        let q = pow10((-k) as nat);
        lemma_pow10_positive((-k) as nat);
        if len + k <= 6 {
            // n < 10^len <= 10^(6 - k)
            lemma_pow10_add(6, (-k) as nat);
            lemma_pow10_grows(len, (6 - k) as nat);
        }
        if len + k >= 7 {
            lemma_pow10_add(6, (-k) as nat);
            lemma_pow10_grows((6 - k) as nat, (len - 1) as nat);
        }
        if len + k <= 7 {
            lemma_pow10_add(7, (-k) as nat);
            lemma_pow10_grows(len, (7 - k) as nat);
        }
        if len + k >= 9 {
            lemma_pow10_add(7, (-k) as nat);
            lemma_pow10_grows((7 - k) as nat, (len - 2) as nat);
            lemma_pow10_positive((len - 2) as nat);
            assert(pow10((len - 1) as nat) == 10 * pow10((len - 2) as nat));
        }
        if len + k == 8 {
            lemma_pow10_add(7, (-k) as nat);
            assert(10_000_000 * q == low);
            if n == low {
                assert((10_000_000 * q) / q == 10_000_000) by (nonlinear_arith)
                    requires
                        q > 0,
                ;
            }
        }
    }
}

/// The first seven digits of a number, with zeros for missing digits,
/// write the number scaled to seven digits.
pub proof fn lemma_seven_leading(s: Seq<char>)
    requires
        s.len() > 0,
        forall|i: int| 0 <= i < s.len() ==> digit_value(#[trigger] s[i]) < 10,
    ensures
        digits_value(
            Seq::new(
                7,
                |i: int|
                    if i < s.len() {
                        s[i]
                    } else {
                        '0'
                    },
            ),
        ) == scaled(digits_value(s), 7 - s.len()),
{
    let seven = Seq::new(
        7,
        |i: int|
            if i < s.len() {
                s[i]
            } else {
                '0'
            },
    );
    if s.len() <= 7 {
        let zeros = Seq::new((7 - s.len()) as nat, |i: int| '0');
        assert(seven =~= s + zeros);
        lemma_value_of_concat(s, zeros);
        lemma_value_is_zero(zeros);
    } else {
        let head = s.take(7);
        let tail = s.skip(7);
        assert(seven =~= head);
        assert(s =~= head + tail);
        lemma_value_of_concat(head, tail);
        assert forall|i: int| 0 <= i < tail.len() implies digit_value(#[trigger] tail[i]) < 10 by {
            assert(tail[i] == s[i + 7]);
        }
        lemma_value_is_below(tail);
        let a = digits_value(head);
        let p = pow10(tail.len());
        let r = digits_value(tail);
        lemma_pow10_positive(tail.len());
        assert((a * p + r) / p == a) by (nonlinear_arith)
            requires
                0 <= r < p,
                a >= 0,
        ;
    }
}

/// Where a run of a class covers the whole text, every character is of the
/// class; and the other way round.
pub proof fn lemma_full_run(s: Seq<char>, class: CharClass)
    ensures
        prefix_len(s, class) == s.len() <==> (forall|i: int|
            0 <= i < s.len() ==> crate::text::in_class(#[trigger] s[i], class)),
    decreases s.len(),
{
    crate::text::lemma_prefix_len_bound(s, class);
    if s.len() > 0 {
        let rest = s.drop_first();
        lemma_full_run(rest, class);
        crate::text::lemma_prefix_len_bound(rest, class);
        if prefix_len(s, class) == s.len() {
            assert forall|i: int| 0 <= i < s.len() implies crate::text::in_class(
                #[trigger] s[i],
                class,
            ) by {
                if i > 0 {
                    assert(s[i] == rest[i - 1]);
                }
            }
        }
        if forall|i: int| 0 <= i < s.len() ==> crate::text::in_class(#[trigger] s[i], class) {
            assert forall|i: int| 0 <= i < rest.len() implies crate::text::in_class(
                #[trigger] rest[i],
                class,
            ) by {
                assert(rest[i] == s[i + 1]);
            }
        }
    }
}

/// Every numeral that a token writes is well formed.
pub proof fn law_written_numerals_are_well_formed(token: Seq<char>)
    ensures
        numeral_of(token) matches Some(n) ==> n.well_formed(),
{
    if let Some(n) = numeral_of(token) {
        let body = if has_sign(token) {
            token.skip(1)
        } else {
            token
        };
        let a = prefix_len(body, CharClass::Digit);
        crate::text::lemma_prefix_len_bound(body, CharClass::Digit);
        let after_integer = body.skip(a as int);
        let pointed = after_integer.len() > 0 && after_integer[0] == '.';
        let after_point = if pointed {
            after_integer.skip(1)
        } else {
            after_integer
        };
        let b = if pointed {
            prefix_len(after_point, CharClass::Digit)
        } else {
            0
        };
        crate::text::lemma_prefix_len_bound(after_point, CharClass::Digit);
        assert forall|i: int| 0 <= i < n.digits.len() implies digit_value(
            #[trigger] n.digits[i],
        ) < 10 by {
            if i < a {
                lemma_run_holds(body, CharClass::Digit, i);
                assert(n.digits[i] == body[i]);
            } else {
                lemma_run_holds(after_point, CharClass::Digit, i - a);
                assert(n.digits[i] == after_point[i - a]);
            }
        }
    }
}

/// The scores read off the digits of a numeral are those of its value:
/// the score of a numeral between one and ten is its value in millionths,
/// rounded down, and no other numeral has a score in range; the clamped
/// score is one below that range and ten above it.
pub proof fn law_scores_follow_the_value(n: Numeral)
    requires
        n.well_formed(),
    ensures
        n.score_in_range() == (if !n.negative && n.at_least_one() && n.at_most_ten() {
            Some(n.millionths() as u32)
        } else {
            None
        }),
        n.score_clamped() == (if n.negative || !n.at_least_one() {
            SCORE_MIN
        } else if !n.at_most_ten() {
            SCORE_MAX
        } else {
            n.millionths() as u32
        }),
        n.at_least_one() && n.at_most_ten() ==> SCORE_MIN <= n.millionths() <= SCORE_MAX,
{
    let z = n.leading_zeros();
    let s = n.significant();
    crate::text::lemma_prefix_len_bound(n.digits, CharClass::Only('0'));
    let zeros = n.digits.take(z as int);
    assert(n.digits =~= zeros + s);
    lemma_value_of_concat(zeros, s);
    assert(digits_value(zeros) == 0) by {
        lemma_full_run(zeros, CharClass::Only('0'));
        assert forall|i: int| 0 <= i < zeros.len() implies #[trigger] zeros[i] == '0' by {
            lemma_run_holds(n.digits, CharClass::Only('0'), i);
            assert(zeros[i] == n.digits[i]);
        }
        assert forall|i: int| 0 <= i < zeros.len() implies digit_value(#[trigger] zeros[i])
            < 10 by {}
        lemma_value_is_zero(zeros);
    }
    lemma_pow10_positive(s.len());
    assert(0 * pow10(s.len()) == 0) by (nonlinear_arith);
    assert(n.number() == digits_value(s));
    lemma_pow10_million();
    let k = n.shift();
    if s.len() == 0 {
        assert(digits_value(s) == 0);
        if k >= 0 {
            assert(0 * pow10(k as nat) == 0) by (nonlinear_arith);
        } else {
            lemma_pow10_positive((-k) as nat);
            assert(1_000_000 * pow10((-k) as nat) > 0) by (nonlinear_arith)
                requires
                    pow10((-k) as nat) > 0,
            ;
        }
    } else {
        assert forall|i: int| 0 <= i < s.len() implies digit_value(#[trigger] s[i]) < 10 by {
            assert(s[i] == n.digits[i + z]);
        }
        assert(s[0] != '0') by {
            lemma_run_ends(n.digits, CharClass::Only('0'));
            assert(s[0] == n.digits[z as int]);
        }
        lemma_value_of_significant(s);
        lemma_band(digits_value(s), s.len(), k);
        assert(s.len() + k == n.magnitude() + 6);
        lemma_seven_leading(s);
        assert(n.is_power_of_ten() <==> digits_value(s) == pow10((s.len() - 1) as nat)) by {
            let rest = s.skip(1);
            lemma_full_run(rest, CharClass::Only('0'));
            if forall|i: int| 0 <= i < rest.len() ==> #[trigger] rest[i] == '0' {
                assert forall|i: int| 1 <= i < s.len() implies #[trigger] s[i] == '0' by {
                    assert(s[i] == rest[i - 1]);
                }
            }
            if forall|i: int| 1 <= i < s.len() ==> #[trigger] s[i] == '0' {
                assert forall|i: int| 0 <= i < rest.len() implies #[trigger] rest[i] == '0' by {
                    assert(rest[i] == s[i + 1]);
                }
            }
        }
        if n.magnitude() == 1 {
            assert(k == 7 - s.len());
            let seven = Seq::new(
                7,
                |i: int|
                    if i < s.len() {
                        s[i]
                    } else {
                        '0'
                    },
            );
            assert forall|i: int| 0 <= i < 7 implies digit_value(#[trigger] seven[i]) < 10 by {}
            assert(seven[0] == s[0]);
            lemma_seven_digits(seven);
        }
    }
}

/// Every character within the leading run of a class is of the class.
pub proof fn lemma_run_holds(s: Seq<char>, class: CharClass, i: int)
    requires
        0 <= i < prefix_len(s, class),
    ensures
        i < s.len(),
        crate::text::in_class(s[i], class),
    decreases i,
{
    if i > 0 {
        lemma_run_holds(s.drop_first(), class, i - 1);
    }
}

/// A number of seven digits, the first of which is not zero, lies between
/// one and ten million.
proof fn lemma_seven_digits(s: Seq<char>)
    requires
        s.len() == 7,
        forall|i: int| 0 <= i < 7 ==> digit_value(#[trigger] s[i]) < 10,
        digit_value(s[0]) > 0,
    ensures
        1_000_000 <= digits_value(s) < 10_000_000,
{
    reveal_with_fuel(digits_value, 8);
    let s6 = s.drop_last();
    let s5 = s6.drop_last();
    let s4 = s5.drop_last();
    let s3 = s4.drop_last();
    let s2 = s3.drop_last();
    let s1 = s2.drop_last();
    assert(s.last() == s[6]);
    assert(s6.last() == s[5]);
    assert(s5.last() == s[4]);
    assert(s4.last() == s[3]);
    assert(s3.last() == s[2]);
    assert(s2.last() == s[1]);
    assert(s1.last() == s[0]);
    assert(s1.drop_last().len() == 0);
}

/// What was read of a numeral: the digits as they stand, and the exponent
/// up to the cap.
struct Reading {
    negative: bool,
    digits: Vec<char>,
    integer_len: usize,
    exponent: i128,
}

impl Reading {
    /// Whether the reading is that of `n`.
    spec fn reads(&self, n: Numeral) -> bool {
        &&& self.negative == n.negative
        &&& self.digits@ == n.digits
        &&& self.integer_len == n.integer_len
        &&& forall|i: int| 0 <= i < n.digits.len() ==> digit_value(#[trigger] n.digits[i]) < 10
        &&& self.exponent == (if n.exponent > EXPONENT_CAP {
            EXPONENT_CAP as int
        } else if n.exponent < -EXPONENT_CAP {
            -EXPONENT_CAP as int
        } else {
            n.exponent
        })
    }
}

/// Reads the exponent that stands at `start`.
fn read_exponent(token: &Vec<char>, start: usize) -> (r: Option<i128>)
    requires
        start <= token.len(),
    ensures
        match r {
            Some(e) => exponent_of(token@.skip(start as int)) matches Some(x) && e == (if x
                > EXPONENT_CAP {
                EXPONENT_CAP as int
            } else if x < -EXPONENT_CAP {
                -EXPONENT_CAP as int
            } else {
                x
            }),
            None => exponent_of(token@.skip(start as int)) is None,
        },
{
    let ghost t = token@.skip(start as int);
    if start == token.len() {
        return Some(0);
    }
    proof {
        assert(t[0] == token@[start as int]);
    }
    if token[start] != 'e' && token[start] != 'E' {
        return None;
    }
    let ghost body = t.skip(1);
    proof {
        assert(body == token@.skip(start + 1));
    }
    let mut at: usize = start + 1;
    let mut negative = false;
    if at < token.len() && (token[at] == '+' || token[at] == '-') {
        proof {
            assert(body[0] == token@[at as int]);
        }
        negative = token[at] == '-';
        at += 1;
    } else {
        proof {
            if at < token.len() {
                assert(body[0] == token@[at as int]);
            }
        }
    }
    let ghost digits = token@.skip(at as int);
    proof {
        if has_sign(body) {
            assert(body.skip(1) == digits);
        }
    }
    let end = scan_forward(token, at, CharClass::Digit);
    if at == token.len() || end != token.len() {
        return None;
    }
    let mut value: i128 = 0;
    let mut i: usize = at;
    proof {
        assert(digits.take(0).len() == 0);
    }
    while i < token.len()
        invariant
            at <= i <= token.len(),
            digits == token@.skip(at as int),
            prefix_len(digits, CharClass::Digit) == digits.len(),
            0 <= value <= EXPONENT_CAP,
            value == (if digits_value(digits.take(i - at)) > EXPONENT_CAP {
                EXPONENT_CAP as int
            } else {
                digits_value(digits.take(i - at)) as int
            }),
        decreases token.len() - i,
    {
        proof {
            lemma_all_digits(digits, i - at);
            let next = digits.take(i - at + 1);
            assert(next.drop_last() == digits.take(i - at));
            assert(next.last() == token@[i as int]);
        }
        let d = match digit_of(token[i]) {
            Some(d) => d,
            None => 0,
        };
        value = value * 10 + d as i128;
        if value > EXPONENT_CAP {
            value = EXPONENT_CAP;
        }
        i += 1;
    }
    proof {
        assert(digits.take(digits.len() as int) == digits);
    }
    if negative {
        Some(-value)
    } else {
        Some(value)
    }
}

/// Where a run of digits covers the whole text, every character is a digit.
proof fn lemma_all_digits(s: Seq<char>, i: int)
    requires
        prefix_len(s, CharClass::Digit) == s.len(),
        0 <= i < s.len(),
    ensures
        digit_value(s[i]) < 10,
    decreases i,
{
    crate::text::lemma_prefix_len_bound(s.drop_first(), CharClass::Digit);
    if i > 0 {
        lemma_all_digits(s.drop_first(), i - 1);
    }
}

/// Every character within a run of digits is a digit.
proof fn lemma_run_digits(s: Seq<char>, i: int)
    requires
        0 <= i < prefix_len(s, CharClass::Digit),
    ensures
        i < s.len(),
        digit_value(s[i]) < 10,
    decreases i,
{
    if i > 0 {
        lemma_run_digits(s.drop_first(), i - 1);
    }
}

/// Reads `token` as a numeral.
fn read_numeral(token: &Vec<char>) -> (r: Option<Reading>)
    ensures
        match r {
            Some(reading) => numeral_of(token@) matches Some(n) && reading.reads(n),
            None => numeral_of(token@) is None,
        },
{
    let mut at: usize = 0;
    let mut negative = false;
    if token.len() > 0 && (token[0] == '+' || token[0] == '-') {
        negative = token[0] == '-';
        at = 1;
    }
    let ghost body = token@.skip(at as int);
    proof {
        assert(token@.skip(0) == token@);
    }
    let int_end = scan_forward(token, at, CharClass::Digit);
    let ghost after_integer = body.skip(int_end - at);
    proof {
        assert(after_integer == token@.skip(int_end as int));
        if int_end < token.len() {
            assert(after_integer[0] == token@[int_end as int]);
        }
    }
    let pointed = int_end < token.len() && token[int_end] == '.';
    let frac_start = if pointed {
        int_end + 1
    } else {
        int_end
    };
    let ghost after_point = token@.skip(frac_start as int);
    proof {
        if pointed {
            assert(after_integer.skip(1) == after_point);
        }
    }
    let frac_end = if pointed {
        scan_forward(token, frac_start, CharClass::Digit)
    } else {
        frac_start
    };
    if (int_end - at) + (frac_end - frac_start) == 0 {
        return None;
    }
    proof {
        assert(after_point.skip(frac_end - frac_start) == token@.skip(frac_end as int));
    }
    let exponent = match read_exponent(token, frac_end) {
        Some(e) => e,
        None => {
            return None;
        },
    };
    let mut digits = slice_of(token, at, int_end);
    let fraction = slice_of(token, frac_start, frac_end);
    crate::text::push_chars(&mut digits, &fraction);
    proof {
        let n = numeral_of(token@)->0;
        assert(body.take(int_end - at) == token@.subrange(at as int, int_end as int));
        assert(after_point.take(frac_end - frac_start) == token@.subrange(
            frac_start as int,
            frac_end as int,
        ));
        assert(digits@ == n.digits);
        assert forall|i: int| 0 <= i < n.digits.len() implies digit_value(
            #[trigger] n.digits[i],
        ) < 10 by {
            if i < int_end - at {
                lemma_run_digits(body, i);
                assert(n.digits[i] == body[i]);
            } else {
                lemma_run_digits(after_point, i - (int_end - at));
                assert(n.digits[i] == after_point[i - (int_end - at)]);
            }
        }
    }
    Some(Reading { negative, digits, integer_len: int_end - at, exponent })
}

/// What a reading comes to: the place of its first significant digit, the
/// power of ten above its value where that is small, and its first seven
/// significant digits.
struct Gauge {
    zero: bool,
    magnitude: i128,
    millionths: u32,
    power_of_ten: bool,
}

/// Measures a reading.
fn measure(reading: &Reading, Ghost(n): Ghost<Numeral>) -> (g: Gauge)
    requires
        reading.reads(n),
    ensures
        g.zero == (n.significant().len() == 0),
        !g.zero ==> {
            &&& g.millionths == n.leading_millionths()
            &&& SCORE_MIN <= g.millionths < SCORE_MAX
            &&& g.power_of_ten == n.is_power_of_ten()
            &&& (g.magnitude == 1) == (n.magnitude() == 1)
            &&& (g.magnitude == 2) == (n.magnitude() == 2)
            &&& (g.magnitude <= 0) == (n.magnitude() <= 0)
        },
{
    let digits = &reading.digits;
    let first = scan_forward(digits, 0, CharClass::Only('0'));
    proof {
        assert(digits@.skip(0) == digits@);
    }
    if first == digits.len() {
        return Gauge { zero: true, magnitude: 0, millionths: 0, power_of_ten: false };
    }
    let ghost s = n.significant();
    let ghost seven = Seq::new(
        7,
        |i: int|
            if i < s.len() {
                s[i]
            } else {
                '0'
            },
    );
    let mut millionths: u32 = 0;
    let mut k: usize = 0;
    proof {
        assert(seven.take(0).len() == 0);
        assert(!crate::text::in_class(digits@[first as int], CharClass::Only('0'))) by {
            crate::text::lemma_prefix_len_bound(digits@, CharClass::Only('0'));
            lemma_run_ends(digits@, CharClass::Only('0'));
        }
    }
    while k < 7
        invariant
            k <= 7,
            first < digits.len(),
            s == digits@.skip(first as int),
            seven == Seq::new(
                7,
                |i: int|
                    if i < s.len() {
                        s[i]
                    } else {
                        '0'
                    },
            ),
            forall|i: int| 0 <= i < digits@.len() ==> digit_value(#[trigger] digits@[i]) < 10,
            millionths == digits_value(seven.take(k as int)),
            millionths < 10_000_000,
            digits_value(seven.take(k as int)) * 10 + 9 < 100_000_000 || k == 7,
            k < 7 ==> millionths < 1_000_000,
        decreases 7 - k,
    {
        let c = if k < digits.len() - first {
            digits[first + k]
        } else {
            '0'
        };
        proof {
            let next = seven.take(k + 1);
            assert(next.drop_last() == seven.take(k as int));
            assert(next.last() == seven[k as int]);
            if k < digits.len() - first {
                assert(s[k as int] == digits@[first + k]);
            }
            assert(seven[k as int] == c);
            lemma_digits_bound(seven.take(k as int), k as nat);
        }
        let d = match digit_of(c) {
            Some(d) => d,
            None => 0,
        };
        millionths = millionths * 10 + d as u32;
        k += 1;
    }
    proof {
        assert(seven.take(7) == seven);
        assert forall|i: int| 0 <= i < 7 implies digit_value(#[trigger] seven[i]) < 10 by {
            if i < s.len() {
                assert(s[i] == digits@[first + i]);
            }
        }
        assert(seven[0] == digits@[first as int]);
        lemma_seven_digits(seven);
    }
    let rest = scan_forward(digits, first + 1, CharClass::Only('0'));
    proof {
        assert(s.skip(1) == digits@.skip(first + 1));
        assert(s[0] == digits@[first as int]);
    }
    let power_of_ten = digits[first] == '1' && rest == digits.len();
    let magnitude = reading.integer_len as i128 - first as i128 + reading.exponent;
    Gauge { zero: false, magnitude, millionths, power_of_ten }
}

/// A run of a class that ends inside the text ends at a character outside
/// the class.
proof fn lemma_run_ends(s: Seq<char>, class: CharClass)
    requires
        prefix_len(s, class) < s.len(),
    ensures
        !crate::text::in_class(s[prefix_len(s, class) as int], class),
    decreases s.len(),
{
    if s.len() > 0 && crate::text::in_class(s[0], class) {
        lemma_run_ends(s.drop_first(), class);
        assert(s.drop_first()[prefix_len(s.drop_first(), class) as int] == s[prefix_len(
            s,
            class,
        ) as int]);
    }
}

/// A number of `k` digits is below ten to the `k`.
proof fn lemma_digits_bound(s: Seq<char>, k: nat)
    requires
        s.len() == k,
        k <= 7,
        forall|i: int| 0 <= i < k ==> digit_value(#[trigger] s[i]) < 10,
    ensures
        k == 0 ==> digits_value(s) == 0,
        k == 1 ==> digits_value(s) < 10,
        k == 2 ==> digits_value(s) < 100,
        k == 3 ==> digits_value(s) < 1_000,
        k == 4 ==> digits_value(s) < 10_000,
        k == 5 ==> digits_value(s) < 100_000,
        k == 6 ==> digits_value(s) < 1_000_000,
        k == 7 ==> digits_value(s) < 10_000_000,
    decreases k,
{
    if k > 0 {
        let t = s.drop_last();
        assert forall|i: int| 0 <= i < k - 1 implies digit_value(#[trigger] t[i]) < 10 by {
            assert(t[i] == s[i]);
        }
        lemma_digits_bound(t, (k - 1) as nat);
        assert(digit_value(s.last()) < 10) by {
            assert(s.last() == s[k - 1]);
        }
    }
}

/// The score that `token` denotes if it is a numeral between one and ten.
pub fn score_of_token(token: &Vec<char>) -> (r: Option<u32>)
    ensures
        r == token_score(token@),
        r matches Some(score) ==> SCORE_MIN <= score <= SCORE_MAX,
{
    match read_numeral(token) {
        None => None,
        Some(reading) => {
            let ghost n = numeral_of(token@)->0;
            let g = measure(&reading, Ghost(n));
            if reading.negative || g.zero {
                None
            } else if g.magnitude == 1 {
                Some(g.millionths)
            } else if g.magnitude == 2 && g.power_of_ten {
                Some(SCORE_MAX)
            } else {
                None
            }
        },
    }
}

/// The clamped score that `text` denotes if it is a numeral.
pub fn clamped_score_of(text: &Vec<char>) -> (r: Option<u32>)
    ensures
        r == clamped_score(text@),
        r matches Some(score) ==> SCORE_MIN <= score <= SCORE_MAX,
{
    match read_numeral(text) {
        None => None,
        Some(reading) => {
            let ghost n = numeral_of(text@)->0;
            let g = measure(&reading, Ghost(n));
            if reading.negative || g.zero || g.magnitude <= 0 {
                Some(SCORE_MIN)
            } else if g.magnitude == 1 {
                Some(g.millionths)
            } else {
                Some(SCORE_MAX)
            }
        },
    }
}

} // verus!
