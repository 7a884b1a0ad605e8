//! Exact decimal magnitudes.
//!
//! A bulletin writes a temperature as a short run of decimal digits, at most
//! with a fraction. A `Decimal` keeps such a number exactly, as an integer
//! count of units of `10^-scale`.
use vstd::prelude::*;
use vstd::arithmetic::div_mod::{lemma_basic_div, lemma_div_denominator, lemma_small_mod};
use vstd::string::StringExecFns;
use crate::text::{digit_value, is_digit};

verus! {

/// The most digits, whole and fractional together, that a written magnitude
/// may have.
pub const MAX_DIGITS: usize = 18;

/// The number `unscaled / 10^scale`.
#[derive(Debug, Copy, Clone, PartialEq, Eq, Structural)]
pub struct Decimal {
    pub unscaled: i64,
    pub scale: u8,
}

/// Ten to the power `n`.
pub open spec fn pow10(n: nat) -> nat
    decreases n,
{
    if n == 0 {
        1
    } else {
        10 * pow10((n - 1) as nat)
    }
}

/// The number that a sequence of digits denotes in base ten; the empty
/// sequence denotes zero.
pub open spec fn digits_value(digits: Seq<char>) -> nat
    decreases digits.len(),
{
    if digits.len() == 0 {
        0
    } else {
        10 * digits_value(digits.drop_last()) + digit_value(digits.last())
    }
}

/// Every element of the sequence is a digit.
pub open spec fn all_digits(digits: Seq<char>) -> bool {
    forall|i: int| 0 <= i < digits.len() ==> is_digit(#[trigger] digits[i])
}

impl Decimal {
    /// A decimal within the range of what can be written with `MAX_DIGITS`
    /// digits, one of them before the point.
    pub open spec fn is_moderate(self) -> bool {
        &&& self.scale < MAX_DIGITS
        &&& -pow10(MAX_DIGITS as nat) < self.unscaled < pow10(MAX_DIGITS as nat)
    }

    /// Twice the number plus thirty can be represented with the scale of the
    /// number.
    pub open spec fn is_convertible(self) -> bool {
        i64::MIN <= 2 * self.unscaled + 30 * pow10(self.scale as nat) <= i64::MAX
    }

    /// The decimal with the same magnitude and the opposite sign.
    pub open spec fn negated(self) -> Decimal {
        Decimal { unscaled: (-self.unscaled) as i64, scale: self.scale }
    }

    /// Twice the number, plus thirty.
    pub open spec fn doubled_plus_thirty(self) -> Decimal {
        Decimal {
            unscaled: (2 * self.unscaled + 30 * pow10(self.scale as nat)) as i64,
            scale: self.scale,
        }
    }

    /// Whether twice the number plus thirty can be represented with the
    /// scale of the number.
    pub fn convertible(self) -> (b: bool)
        ensures
            b == self.is_convertible(),
    {
        if self.scale >= 18 {
            proof {
                lemma_pow10_increases(MAX_DIGITS as nat, self.scale as nat);
                lemma_pow10_values();
            }
            return false;
        }
        let unit = power_of_ten(self.scale);
        proof {
            lemma_pow10_increases(self.scale as nat, (MAX_DIGITS - 1) as nat);
            lemma_pow10_values();
        }
        let sum: i128 = 2 * (self.unscaled as i128) + 30 * (unit as i128);
        -9_223_372_036_854_775_808 <= sum && sum <= 9_223_372_036_854_775_807
    }

    /// The number zero, written without a fraction.
    pub fn zero() -> (d: Decimal)
        ensures
            d == (Decimal { unscaled: 0, scale: 0 }),
    {
        Decimal { unscaled: 0, scale: 0 }
    }

    /// The number with the opposite sign.
    pub fn negate(self) -> (d: Decimal)
        requires
            self.unscaled > i64::MIN,
        ensures
            d == self.negated(),
    {
        Decimal { unscaled: -self.unscaled, scale: self.scale }
    }

    /// Twice the number, plus thirty, computed exactly.
    pub fn double_plus_thirty(self) -> (d: Decimal)
        requires
            self.is_convertible(),
        ensures
            d == self.doubled_plus_thirty(),
            d.unscaled == 2 * self.unscaled + 30 * pow10(self.scale as nat),
            d.scale == self.scale,
    {
        proof {
            lemma_convertible_scale(self);
            lemma_pow10_increases(self.scale as nat, (MAX_DIGITS - 1) as nat);
            lemma_pow10_values();
        }
        let unit = power_of_ten(self.scale);
        let sum: i128 = 2 * (self.unscaled as i128) + 30 * (unit as i128);
        Decimal { unscaled: sum as i64, scale: self.scale }
    }
}

/// A number with `MAX_DIGITS` decimal places or more is too small a unit
/// for thirty: twice the number plus thirty cannot be represented.
pub proof fn lemma_convertible_scale(d: Decimal)
    requires
        d.is_convertible(),
    ensures
        d.scale < MAX_DIGITS,
{
    if d.scale >= MAX_DIGITS {
        lemma_pow10_increases(MAX_DIGITS as nat, d.scale as nat);
        lemma_pow10_values();
    }
}

/// Every moderate number can be doubled and have thirty added to it.
pub proof fn lemma_moderate_is_convertible(d: Decimal)
    requires
        d.is_moderate(),
    ensures
        d.is_convertible(),
{
    lemma_pow10_increases(d.scale as nat, (MAX_DIGITS - 1) as nat);
    lemma_pow10_values();
}

/// The powers of ten that the representation reaches.
pub proof fn lemma_pow10_values()
    ensures
        pow10(0) == 1,
        pow10(1) == 10,
        pow10((MAX_DIGITS - 1) as nat) == 100_000_000_000_000_000,
        pow10(MAX_DIGITS as nat) == 1_000_000_000_000_000_000,
{
    reveal_with_fuel(pow10, 20);
}

/// A larger exponent gives a larger or equal power of ten.
pub proof fn lemma_pow10_increases(m: nat, n: nat)
    requires
        m <= n,
    ensures
        1 <= pow10(m) <= pow10(n),
    decreases n,
{
    if m < n {
        lemma_pow10_increases(m, (n - 1) as nat);
    } else if n > 0 {
        lemma_pow10_increases((m - 1) as nat, (n - 1) as nat);
    }
}

/// A sequence of `n` digits denotes a number below `10^n`.
pub proof fn lemma_digits_value_bound(digits: Seq<char>)
    requires
        all_digits(digits),
    ensures
        digits_value(digits) < pow10(digits.len()),
    decreases digits.len(),
{
    if digits.len() > 0 {
        lemma_digits_value_bound(digits.drop_last());
    }
}

/// Ten to the power `n`, for an exponent within the representation.
pub fn power_of_ten(n: u8) -> (p: i64)
    requires
        n < MAX_DIGITS,
    ensures
        p == pow10(n as nat),
{
    let mut p: i64 = 1;
    let mut i: u8 = 0;
    while i < n
        invariant
            i <= n < MAX_DIGITS,
            p == pow10(i as nat),
        decreases n - i,
    {
        proof {
            lemma_pow10_increases((i + 1) as nat, (MAX_DIGITS - 1) as nat);
            lemma_pow10_values();
        }
        p = p * 10;
        i += 1;
    }
    p
}

/// The value of a digit character.
pub fn digit_of(c: char) -> (d: u8)
    requires
        is_digit(c),
    ensures
        d == digit_value(c),
        d <= 9,
{
    ((c as u32) - ('0' as u32)) as u8
}

/// Adds the digits `s[from..to]` to the right of the number `start`.
pub(crate) fn append_digits(start: i64, s: &[char], from: usize, to: usize, Ghost(read): Ghost<
    Seq<char>,
>) -> (value: i64)
    requires
        from <= to <= s@.len(),
        all_digits(read),
        all_digits(s@.subrange(from as int, to as int)),
        start == digits_value(read),
        read.len() + (to - from) <= MAX_DIGITS,
    ensures
        value == digits_value(read + s@.subrange(from as int, to as int)),
        0 <= value < pow10(MAX_DIGITS as nat),
{
    let mut value: i64 = start;
    let mut i: usize = from;
    let ghost part = s@.subrange(from as int, to as int);
    while i < to
        invariant
            from <= i <= to <= s@.len(),
            part == s@.subrange(from as int, to as int),
            all_digits(read),
            all_digits(part),
            read.len() + (to - from) <= MAX_DIGITS,
            value == digits_value(read + s@.subrange(from as int, i as int)),
        decreases to - i,
    {
        let ghost before = read + s@.subrange(from as int, i as int);
        let ghost after = read + s@.subrange(from as int, i + 1);
        proof {
            assert(after.drop_last() =~= before);
            assert forall|k: int| 0 <= k < after.len() implies is_digit(#[trigger] after[k]) by {}
            lemma_digits_value_bound(after);
            lemma_pow10_increases(after.len(), MAX_DIGITS as nat);
            lemma_pow10_values();
        }
        let d = digit_of(s[i]);
        value = value * 10 + d as i64;
        i += 1;
    }
    proof {
        let all = read + part;
        assert forall|k: int| 0 <= k < all.len() implies is_digit(#[trigger] all[k]) by {}
        lemma_digits_value_bound(all);
        lemma_pow10_increases(all.len(), MAX_DIGITS as nat);
    }
    value
}

/// The character that stands for a digit.
pub open spec fn digit_char(d: nat) -> char
    recommends
        d < 10,
{
    ('0' as nat + d) as char
}

/// A natural number written in base ten, without leading zeros.
pub open spec fn nat_text(n: nat) -> Seq<char>
    decreases n,
{
    if n < 10 {
        seq![digit_char(n)]
    } else {
        nat_text(n / 10).push(digit_char(n % 10))
    }
}

/// The `width` lowest digits of a natural number in base ten, the highest
/// of them first.
pub open spec fn low_digits(n: nat, width: nat) -> Seq<char>
    decreases width,
{
    if width == 0 {
        Seq::empty()
    } else {
        low_digits(n / 10, (width - 1) as nat).push(digit_char(n % 10))
    }
}

/// The fraction `n / 10^scale` with as small a scale as it can be written
/// with: the pair of the new numerator and the new scale.
pub open spec fn lowest_terms(n: nat, scale: nat) -> (nat, nat)
    decreases scale,
{
    if scale > 0 && n % 10 == 0 {
        lowest_terms(n / 10, (scale - 1) as nat)
    } else {
        (n, scale)
    }
}

impl Decimal {
    /// The number without its sign, in units of `10^-scale`.
    pub open spec fn magnitude(self) -> nat {
        if self.unscaled < 0 {
            (-self.unscaled) as nat
        } else {
            self.unscaled as nat
        }
    }

    /// The sign as it is written: `-` for a number below zero, nothing
    /// otherwise.
    pub open spec fn sign_text(self) -> Seq<char> {
        if self.unscaled < 0 {
            "-"@
        } else {
            Seq::empty()
        }
    }

    /// The number written in full: the sign, the whole part, and, where the
    /// number is not whole, a point and the digits of the fraction up to
    /// the last one that is not zero.
    pub open spec fn text(self) -> Seq<char> {
        let (n, scale) = lowest_terms(self.magnitude(), self.scale as nat);
        let whole = nat_text(n / pow10(scale));
        if scale > 0 {
            self.sign_text() + whole + "."@ + low_digits(n, scale)
        } else {
            self.sign_text() + whole
        }
    }

    /// The whole number nearest to the magnitude; of two equally near, the
    /// even one.
    pub open spec fn rounded(self) -> nat {
        let unit = pow10(self.scale as nat);
        let whole = self.magnitude() / unit;
        let rest = self.magnitude() % unit;
        if 2 * rest > unit || (2 * rest == unit && whole % 2 == 1) {
            whole + 1
        } else {
            whole
        }
    }

    /// The number written as the nearest whole number: a minus sign where
    /// the number is below zero and does not round to zero, and the rounded
    /// magnitude.
    pub open spec fn rounded_text(self) -> Seq<char> {
        if self.unscaled < 0 && self.rounded() > 0 {
            "-"@ + nat_text(self.rounded())
        } else {
            nat_text(self.rounded())
        }
    }

    /// The number without its sign, in units of `10^-scale`.
    pub fn unsigned(self) -> (n: u64)
        ensures
            n == self.magnitude(),
    {
        if self.unscaled >= 0 {
            self.unscaled as u64
        } else if self.unscaled == i64::MIN {
            9_223_372_036_854_775_808u64
        } else {
            (-self.unscaled) as u64
        }
    }

    /// Writes the number in full.
    pub fn to_text(self) -> (text: String)
        ensures
            text@ == self.text(),
    {
        let mut n = self.unsigned();
        let mut scale = self.scale;
        while scale > 0 && n % 10 == 0
            invariant
                lowest_terms(n as nat, scale as nat) == lowest_terms(
                    self.magnitude(),
                    self.scale as nat,
                ),
            decreases scale,
        {
            n = n / 10;
            scale = scale - 1;
        }
        let mut whole = n;
        let mut dropped: u8 = 0;
        assert(pow10(0) == 1);
        while dropped < scale
            invariant
                dropped <= scale,
                whole == n as nat / pow10(dropped as nat),
            decreases scale - dropped,
        {
            proof {
                lemma_pow10_increases(0, dropped as nat);
                lemma_div_denominator(n as int, pow10(dropped as nat) as int, 10);
            }
            whole = whole / 10;
            dropped = dropped + 1;
        }
        let mut text = String::new();
        if self.unscaled < 0 {
            text.append("-");
        }
        push_nat(&mut text, whole);
        if scale > 0 {
            text.append(".");
            push_low_digits(&mut text, n, scale);
        }
        text
    }

    /// Rounds the magnitude to the nearest whole number, and a tie to the
    /// even one.
    pub fn round(self) -> (n: u64)
        ensures
            n == self.rounded(),
    {
        let magnitude = self.unsigned();
        if self.scale >= 20 {
            proof {
                lemma_pow10_increases(20, self.scale as nat);
                assert(pow10(20) == 100_000_000_000_000_000_000) by {
                    reveal_with_fuel(pow10, 21);
                }
                lemma_basic_div(magnitude as int, pow10(self.scale as nat) as int);
                lemma_small_mod(magnitude as nat, pow10(self.scale as nat));
            }
            return 0;
        }
        let mut unit: u128 = 1;
        let mut i: u8 = 0;
        while i < self.scale
            invariant
                i <= self.scale < 20,
                unit == pow10(i as nat),
                1 <= unit <= 10_000_000_000_000_000_000,
            decreases self.scale - i,
        {
            proof {
                lemma_pow10_increases((i + 1) as nat, 19);
                assert(pow10(19) == 10_000_000_000_000_000_000) by {
                    reveal_with_fuel(pow10, 20);
                }
            }
            unit = unit * 10;
            i = i + 1;
        }
        let whole = magnitude as u128 / unit;
        let rest = magnitude as u128 % unit;
        if 2 * rest > unit || (2 * rest == unit && whole % 2 == 1) {
            (whole + 1) as u64
        } else {
            whole as u64
        }
    }

    /// Writes the number as the nearest whole number.
    pub fn to_rounded_text(self) -> (text: String)
        ensures
            text@ == self.rounded_text(),
    {
        let rounded = self.round();
        let mut text = String::new();
        if self.unscaled < 0 && rounded > 0 {
            text.append("-");
        }
        push_nat(&mut text, rounded);
        text
    }
}

/// What `rounded` gives is a whole number nearest to the magnitude: the two
/// differ by half a unit at most, and where they differ by just that, so
/// that another whole number is as near, the one given is even.
pub proof fn lemma_rounded_is_nearest(d: Decimal)
    ensures
        ({
            let unit = pow10(d.scale as nat) as int;
            let distance = d.rounded() * unit - d.magnitude();
            &&& -unit <= 2 * distance <= unit
            &&& (2 * distance == unit || 2 * distance == -unit) ==> d.rounded() % 2 == 0
        }),
{
    let unit = pow10(d.scale as nat) as int;
    let magnitude = d.magnitude() as int;
    let whole = magnitude / unit;
    let rest = magnitude % unit;
    lemma_pow10_increases(0, d.scale as nat);
    vstd::arithmetic::div_mod::lemma_fundamental_div_mod(magnitude, unit);
    assert(whole * unit == unit * whole && (whole + 1) * unit == unit * whole + unit)
        by (nonlinear_arith);
}

/// The `width` lowest digits of a number are `width` digits, and denote
/// what is left of the number when it is divided by `10^width`.
pub proof fn lemma_low_digits(n: nat, width: nat)
    ensures
        low_digits(n, width).len() == width,
        all_digits(low_digits(n, width)),
        digits_value(low_digits(n, width)) == n % pow10(width),
    decreases width,
{
    if width > 0 {
        let front = low_digits(n / 10, (width - 1) as nat);
        let last = digit_char(n % 10);
        lemma_low_digits(n / 10, (width - 1) as nat);
        lemma_pow10_increases(0, (width - 1) as nat);
        assert(is_digit(last) && digit_value(last) == n % 10);
        assert(front.push(last).drop_last() =~= front);
        vstd::arithmetic::div_mod::lemma_mod_breakdown(
            n as int,
            10,
            pow10((width - 1) as nat) as int,
        );
    } else {
        assert(pow10(0) == 1);
    }
}

/// A fraction in lowest terms is the same number as before: its scale is
/// no larger, its numerator is the old one without the zeros that were
/// dropped, and it ends in no further zero that could be dropped.
pub proof fn lemma_lowest_terms(n: nat, scale: nat)
    ensures
        ({
            let (m, least) = lowest_terms(n, scale);
            &&& least <= scale
            &&& m * pow10((scale - least) as nat) == n
            &&& least > 0 ==> m % 10 != 0
        }),
    decreases scale,
{
    if scale > 0 && n % 10 == 0 {
        let (m, least) = lowest_terms(n / 10, (scale - 1) as nat);
        lemma_lowest_terms(n / 10, (scale - 1) as nat);
        let unit = pow10((scale - 1 - least) as nat);
        assert(pow10((scale - least) as nat) == 10 * unit);
        assert(m * (10 * unit) == (m * unit) * 10) by (nonlinear_arith);
    } else {
        assert(pow10(0) == 1);
        assert(n * 1 == n);
    }
}

/// The text of one digit.
fn digit_str(d: u64) -> (text: &'static str)
    requires
        d < 10,
    ensures
        text@ == seq![digit_char(d as nat)],
{
    proof {
        reveal_strlit("0");
        reveal_strlit("1");
        reveal_strlit("2");
        reveal_strlit("3");
        reveal_strlit("4");
        reveal_strlit("5");
        reveal_strlit("6");
        reveal_strlit("7");
        reveal_strlit("8");
        reveal_strlit("9");
    }
    if d == 0 {
        "0"
    } else if d == 1 {
        "1"
    } else if d == 2 {
        "2"
    } else if d == 3 {
        "3"
    } else if d == 4 {
        "4"
    } else if d == 5 {
        "5"
    } else if d == 6 {
        "6"
    } else if d == 7 {
        "7"
    } else if d == 8 {
        "8"
    } else {
        "9"
    }
}

/// Writes a natural number at the end of `text`.
pub fn push_nat(text: &mut String, n: u64)
    ensures
        final(text)@ == old(text)@ + nat_text(n as nat),
    decreases n,
{
    if n >= 10 {
        push_nat(text, n / 10);
    }
    text.append(digit_str(n % 10));
}

/// Writes the `width` lowest digits of a natural number at the end of
/// `text`.
pub fn push_low_digits(text: &mut String, n: u64, width: u8)
    ensures
        final(text)@ == old(text)@ + low_digits(n as nat, width as nat),
    decreases width,
{
    if width > 0 {
        push_low_digits(text, n / 10, width - 1);
        text.append(digit_str(n % 10));
    }
}

} // verus!
