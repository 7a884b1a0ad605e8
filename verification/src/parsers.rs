//! The grammars of the bulletin's titles.
//!
//! Each grammar is stated twice: as a specification over a sequence of
//! characters and a position in it, and as an executable function proved to
//! compute exactly what the specification says.
use vstd::prelude::*;
use vstd::string::StrSliceExecFns;
use std::marker::PhantomData;
use crate::decimal::{
    all_digits, append_digits, digits_value, lemma_moderate_is_convertible, lemma_pow10_values,
    Decimal, MAX_DIGITS,
};
use crate::forecast::{
    CurrentFailure, CurrentForecast, CurrentForecastError, CurrentForecastView, DayNight,
    DayOfWeek, Forecast, ForecastView, NumberParseError, TemperaturePhraseError, TitleFailure,
    TitleParseError,
};
use crate::temperature::{fahrenheit_of, Celsius, Temperature};
use crate::text::{
    blank_run, chars_of, count_blanks, count_digits, digit_run, find, find_from,
    lemma_digit_run_bounds, matches_at, occurs_at, trim_bounds, trimmed,
};

verus! {

/// A word that may stand in front of the digits of a number.
#[derive(Debug, Copy, Clone, PartialEq, Eq, Structural)]
pub enum SignWord {
    Minus,
    Plus,
    Zero,
}

impl SignWord {
    /// The word as it is written.
    pub open spec fn text(self) -> Seq<char> {
        match self {
            SignWord::Minus => "minus"@,
            SignWord::Plus => "plus"@,
            SignWord::Zero => "zero"@,
        }
    }
}

/// The sign word that `s` holds at position `at`, if any.
#[verifier::opaque]
pub open spec fn sign_word_at(s: Seq<char>, at: int) -> Option<SignWord> {
    if matches_at(s, at, SignWord::Minus.text()) {
        Some(SignWord::Minus)
    } else if matches_at(s, at, SignWord::Plus.text()) {
        Some(SignWord::Plus)
    } else if matches_at(s, at, SignWord::Zero.text()) {
        Some(SignWord::Zero)
    } else {
        None
    }
}

/// The number of characters that an optional sign word takes.
pub open spec fn sign_word_len(word: Option<SignWord>) -> nat {
    match word {
        Some(w) => w.text().len(),
        None => 0,
    }
}

/// The number of digits in the fraction of the magnitude written at `at`:
/// the digits that follow a `.` directly after the whole part. Zero where
/// there is no whole part, no `.`, or no digit after it.
pub open spec fn fraction_len(s: Seq<char>, at: int) -> nat {
    let dot = at + digit_run(s, at);
    if digit_run(s, at) > 0 && dot < s.len() && s[dot] == '.' {
        digit_run(s, dot + 1)
    } else {
        0
    }
}

/// The position after the magnitude written at `at`.
pub open spec fn magnitude_end(s: Seq<char>, at: int) -> int {
    let dot = at + digit_run(s, at);
    if fraction_len(s, at) > 0 {
        dot + 1 + fraction_len(s, at)
    } else {
        dot
    }
}

/// The digits of the magnitude written at `at`: those of the whole part,
/// then those of the fraction.
pub open spec fn magnitude_digits(s: Seq<char>, at: int) -> Seq<char> {
    let dot = at + digit_run(s, at);
    if fraction_len(s, at) > 0 {
        s.subrange(at, dot) + s.subrange(dot + 1, dot + 1 + fraction_len(s, at))
    } else {
        s.subrange(at, dot)
    }
}

/// The magnitude written at `at`, a run of digits with an optional fraction,
/// and the position after it.
#[verifier::opaque]
pub open spec fn magnitude_at(s: Seq<char>, at: int) -> Result<(Decimal, int), NumberParseError> {
    if digit_run(s, at) == 0 {
        Err(NumberParseError::MissingDigits)
    } else if magnitude_digits(s, at).len() > MAX_DIGITS {
        Err(NumberParseError::TooManyDigits)
    } else {
        Ok(
            (
                Decimal {
                    unscaled: digits_value(magnitude_digits(s, at)) as i64,
                    scale: fraction_len(s, at) as u8,
                },
                magnitude_end(s, at),
            ),
        )
    }
}

/// The number written at `at` in words: an optional `minus`, `plus` or
/// `zero`, optional blanks, and a magnitude.
///
/// `zero` denotes zero whatever follows it; a magnitude after it is passed
/// over. `minus` negates the magnitude. Without `zero`, the magnitude is
/// required.
#[verifier::opaque]
pub open spec fn number_at(s: Seq<char>, at: int) -> Result<(Decimal, int), NumberParseError> {
    let word = sign_word_at(s, at);
    let after_word = at + sign_word_len(word);
    let digits_at = after_word + blank_run(s, after_word);
    if word == Some(SignWord::Zero) {
        Ok(
            (
                Decimal { unscaled: 0, scale: 0 },
                if digit_run(s, digits_at) > 0 {
                    magnitude_end(s, digits_at)
                } else {
                    after_word
                },
            ),
        )
    } else {
        match magnitude_at(s, digits_at) {
            Ok((d, end)) => Ok(
                (
                    if word == Some(SignWord::Minus) {
                        d.negated()
                    } else {
                        d
                    },
                    end,
                ),
            ),
            Err(e) => Err(e),
        }
    }
}

/// The number written at `at` in figures: optional blanks, an optional `-`,
/// a magnitude, and optional blanks.
#[verifier::opaque]
pub open spec fn signed_number_at(s: Seq<char>, at: int) -> Result<
    (Decimal, int),
    NumberParseError,
> {
    let sign_at = at + blank_run(s, at);
    let negative = sign_at < s.len() && s[sign_at] == '-';
    let digits_at = if negative {
        sign_at + 1
    } else {
        sign_at
    };
    match magnitude_at(s, digits_at) {
        Ok((d, end)) => Ok(
            (
                if negative {
                    d.negated()
                } else {
                    d
                },
                end + blank_run(s, end),
            ),
        ),
        Err(e) => Err(e),
    }
}

/// The extent of the magnitude written at `at`: the end of its whole part
/// and the number of digits in its fraction.
fn measure_magnitude(s: &[char], at: usize) -> (extent: (usize, usize))
    requires
        at <= s@.len(),
    ensures
        extent.0 == at + digit_run(s@, at as int),
        extent.1 == fraction_len(s@, at as int),
        magnitude_end(s@, at as int) <= s@.len() <= usize::MAX,
        all_digits(magnitude_digits(s@, at as int)),
        magnitude_digits(s@, at as int).len() == digit_run(s@, at as int) + extent.1,
{
    let len = s.len();
    let whole = count_digits(s, at);
    let dot = at + whole;
    let fraction = if whole > 0 && dot < len && s[dot] == '.' {
        count_digits(s, dot + 1)
    } else {
        0
    };
    proof {
        lemma_digit_run_bounds(s@, at as int);
        if fraction > 0 {
            lemma_digit_run_bounds(s@, dot + 1);
        }
    }
    (dot, fraction)
}

/// Reads the magnitude written at `at`.
pub fn read_magnitude(s: &[char], at: usize) -> (r: Result<(Decimal, usize), NumberParseError>)
    requires
        at <= s@.len(),
    ensures
        match r {
            Ok((d, end)) => {
                &&& magnitude_at(s@, at as int) == Ok::<(Decimal, int), NumberParseError>(
                    (d, end as int),
                )
                &&& end <= s@.len()
                &&& 0 <= d.unscaled
                &&& d.is_moderate()
            },
            Err(e) => magnitude_at(s@, at as int) == Err::<(Decimal, int), NumberParseError>(e),
        },
{
    proof {
        reveal(magnitude_at);
    }
    let (dot, fraction) = measure_magnitude(s, at);
    if dot == at {
        return Err(NumberParseError::MissingDigits);
    }
    if dot - at > MAX_DIGITS || fraction > MAX_DIGITS - (dot - at) {
        return Err(NumberParseError::TooManyDigits);
    }
    proof {
        if fraction > 0 {
            let whole = s@.subrange(at as int, dot as int);
            let part = s@.subrange(dot + 1, dot + 1 + fraction);
            assert(all_digits(whole)) by {
                assert forall|k: int| 0 <= k < whole.len() implies crate::text::is_digit(
                    #[trigger] whole[k],
                ) by {
                    assert(whole[k] == (whole + part)[k]);
                }
            }
            assert(all_digits(part)) by {
                assert forall|k: int| 0 <= k < part.len() implies crate::text::is_digit(
                    #[trigger] part[k],
                ) by {
                    assert(part[k] == (whole + part)[whole.len() + k]);
                }
            }
        }
    }
    let whole = append_digits(0, s, at, dot, Ghost(Seq::empty()));
    let (unscaled, end) = if fraction > 0 {
        (
            append_digits(whole, s, dot + 1, dot + 1 + fraction, Ghost(s@.subrange(
                at as int,
                dot as int,
            ))),
            dot + 1 + fraction,
        )
    } else {
        (whole, dot)
    };
    Ok((Decimal { unscaled, scale: fraction as u8 }, end))
}

/// Reads the sign word written at `at`, if there is one.
fn read_sign_word(s: &[char], at: usize) -> (r: (Option<SignWord>, usize))
    requires
        at <= s@.len(),
    ensures
        r.0 == sign_word_at(s@, at as int),
        r.1 == at + sign_word_len(r.0),
        r.1 <= s@.len(),
{
    proof {
        reveal(sign_word_at);
        reveal_strlit("minus");
        reveal_strlit("plus");
        reveal_strlit("zero");
    }
    if occurs_at(s, at, "minus") {
        (Some(SignWord::Minus), at + 5)
    } else if occurs_at(s, at, "plus") {
        (Some(SignWord::Plus), at + 4)
    } else if occurs_at(s, at, "zero") {
        (Some(SignWord::Zero), at + 4)
    } else {
        (None, at)
    }
}

/// Reads the number written in words at `at`.
pub fn read_number(s: &[char], at: usize) -> (r: Result<(Decimal, usize), NumberParseError>)
    requires
        at <= s@.len(),
    ensures
        match r {
            Ok((d, end)) => {
                &&& number_at(s@, at as int) == Ok::<(Decimal, int), NumberParseError>(
                    (d, end as int),
                )
                &&& end <= s@.len()
                &&& d.is_moderate()
            },
            Err(e) => number_at(s@, at as int) == Err::<(Decimal, int), NumberParseError>(e),
        },
{
    proof {
        reveal(number_at);
    }
    let (word, after_word) = read_sign_word(s, at);
    let digits_at = after_word + count_blanks(s, after_word);
    match word {
        Some(SignWord::Zero) => {
            let (dot, fraction) = measure_magnitude(s, digits_at);
            let end = if dot == digits_at {
                after_word
            } else if fraction > 0 {
                dot + 1 + fraction
            } else {
                dot
            };
            proof {
                lemma_pow10_values();
            }
            Ok((Decimal::zero(), end))
        },
        Some(SignWord::Minus) => {
            match read_magnitude(s, digits_at) {
                Ok((d, end)) => Ok((d.negate(), end)),
                Err(e) => Err(e),
            }
        },
        _ => read_magnitude(s, digits_at),
    }
}

/// Reads the number written in figures at `at`.
pub fn read_signed_number(s: &[char], at: usize) -> (r: Result<
    (Decimal, usize),
    NumberParseError,
>)
    requires
        at <= s@.len(),
    ensures
        match r {
            Ok((d, end)) => {
                &&& signed_number_at(s@, at as int) == Ok::<(Decimal, int), NumberParseError>(
                    (d, end as int),
                )
                &&& end <= s@.len()
                &&& d.is_moderate()
            },
            Err(e) => signed_number_at(s@, at as int) == Err::<(Decimal, int), NumberParseError>(
                e,
            ),
        },
{
    proof {
        reveal(signed_number_at);
    }
    let sign_at = at + count_blanks(s, at);
    let negative = sign_at < s.len() && s[sign_at] == '-';
    let digits_at = if negative {
        sign_at + 1
    } else {
        sign_at
    };
    match read_magnitude(s, digits_at) {
        Ok((d, end)) => {
            let end = end + count_blanks(s, end);
            if negative {
                Ok((d.negate(), end))
            } else {
                Ok((d, end))
            }
        },
        Err(e) => Err(e),
    }
}

/// The part of `input` from position `from` on.
fn rest_of<'a>(input: &'a str, from: usize) -> (rest: &'a str)
    requires
        from <= input@.len(),
    ensures
        rest@ == input@.skip(from as int),
{
    input.substring_char(from, input.unicode_len())
}

/// Parses a number written in words at the start of `input`, and returns it
/// with the rest of the input.
pub fn parse_number(input: &str) -> (r: Result<(&str, Decimal), NumberParseError>)
    ensures
        match number_at(input@, 0) {
            Ok((d, end)) => r matches Ok((rest, value)) && value == d && rest@ == input@.skip(end),
            Err(e) => r matches Err(failure) && failure == e,
        },
{
    let chars = chars_of(input);
    match read_number(chars.as_slice(), 0) {
        Ok((value, end)) => Ok((rest_of(input, end), value)),
        Err(e) => Err(e),
    }
}

/// Parses a number written in figures at the start of `input`, and returns
/// it with the rest of the input.
pub fn parse_signed_number(input: &str) -> (r: Result<(&str, Decimal), NumberParseError>)
    ensures
        match signed_number_at(input@, 0) {
            Ok((d, end)) => r matches Ok((rest, value)) && value == d && rest@ == input@.skip(end),
            Err(e) => r matches Err(failure) && failure == e,
        },
{
    let chars = chars_of(input);
    match read_signed_number(chars.as_slice(), 0) {
        Ok((value, end)) => Ok((rest_of(input, end), value)),
        Err(e) => Err(e),
    }
}

/// A phrase that announces a temperature.
#[derive(Debug, Copy, Clone, PartialEq, Eq, Structural)]
pub enum LeadIn {
    High,
    SteadyNear,
    RisingTo,
    Low,
    FallingTo,
}

impl LeadIn {
    /// The phrase as it is written.
    pub open spec fn text(self) -> Seq<char> {
        match self {
            LeadIn::High => "High"@,
            LeadIn::SteadyNear => "Temperature steady near"@,
            LeadIn::RisingTo => "Temperature rising to"@,
            LeadIn::Low => "Low"@,
            LeadIn::FallingTo => "Temperature falling to"@,
        }
    }

    /// Whether the phrase announces the high of the period rather than its
    /// low.
    pub open spec fn announces_high(self) -> bool {
        self == LeadIn::High || self == LeadIn::SteadyNear || self == LeadIn::RisingTo
    }
}

/// The lead-in that `s` holds at position `at`, if any.
#[verifier::opaque]
pub open spec fn lead_in_at(s: Seq<char>, at: int) -> Option<LeadIn> {
    if matches_at(s, at, LeadIn::High.text()) {
        Some(LeadIn::High)
    } else if matches_at(s, at, LeadIn::SteadyNear.text()) {
        Some(LeadIn::SteadyNear)
    } else if matches_at(s, at, LeadIn::RisingTo.text()) {
        Some(LeadIn::RisingTo)
    } else if matches_at(s, at, LeadIn::Low.text()) {
        Some(LeadIn::Low)
    } else if matches_at(s, at, LeadIn::FallingTo.text()) {
        Some(LeadIn::FallingTo)
    } else {
        None
    }
}

/// The temperature phrase written at `at`: a lead-in, optional blanks, and a
/// number in words. The lead-in decides whether the number is a high or a
/// low.
#[verifier::opaque]
pub open spec fn temperature_at<Unit>(s: Seq<char>, at: int) -> Result<
    (Temperature<Unit>, int),
    TemperaturePhraseError,
> {
    match lead_in_at(s, at) {
        None => Err(TemperaturePhraseError::MissingLeadIn),
        Some(lead) => {
            let after_lead = at + lead.text().len();
            match number_at(s, after_lead + blank_run(s, after_lead)) {
                Err(e) => Err(TemperaturePhraseError::Number(e)),
                Ok((d, end)) => Ok(
                    (
                        if lead.announces_high() {
                            Temperature::High(d, PhantomData)
                        } else {
                            Temperature::Low(d, PhantomData)
                        },
                        end,
                    ),
                ),
            }
        },
    }
}

/// The first position at or after `from` where `s` holds a lead-in.
pub open spec fn find_lead_in(s: Seq<char>, from: int) -> Option<int>
    decreases s.len() - from,
{
    if from < 0 || from >= s.len() {
        None
    } else if lead_in_at(s, from) is Some {
        Some(from)
    } else {
        find_lead_in(s, from + 1)
    }
}

/// The weekday whose name `s` holds at position `at`, if any.
#[verifier::opaque]
pub open spec fn weekday_at(s: Seq<char>, at: int) -> Option<DayOfWeek> {
    if matches_at(s, at, DayOfWeek::Monday.name()) {
        Some(DayOfWeek::Monday)
    } else if matches_at(s, at, DayOfWeek::Tuesday.name()) {
        Some(DayOfWeek::Tuesday)
    } else if matches_at(s, at, DayOfWeek::Wednesday.name()) {
        Some(DayOfWeek::Wednesday)
    } else if matches_at(s, at, DayOfWeek::Thursday.name()) {
        Some(DayOfWeek::Thursday)
    } else if matches_at(s, at, DayOfWeek::Friday.name()) {
        Some(DayOfWeek::Friday)
    } else if matches_at(s, at, DayOfWeek::Saturday.name()) {
        Some(DayOfWeek::Saturday)
    } else if matches_at(s, at, DayOfWeek::Sunday.name()) {
        Some(DayOfWeek::Sunday)
    } else {
        None
    }
}

/// The marker written at `at`, and the position after it: `:` marks the
/// day; `night:`, after optional blanks, marks the night.
#[verifier::opaque]
pub open spec fn day_night_at(s: Seq<char>, at: int) -> Option<(DayNight, int)> {
    let word_at = at + blank_run(s, at);
    if matches_at(s, at, ":"@) {
        Some((DayNight::Day, at + 1))
    } else if matches_at(s, word_at, "night:"@) {
        Some((DayNight::Night, word_at + "night:"@.len()))
    } else {
        None
    }
}

/// The forecast that a title states, and the position after its temperature
/// phrase.
///
/// A title is a weekday, a day or night marker, a description, and a
/// temperature phrase. The description runs up to the first lead-in after
/// the marker and is trimmed; the temperature phrase must stand at that
/// lead-in. What follows the phrase is not looked at.
pub open spec fn title_forecast(s: Seq<char>) -> Result<(ForecastView, int), TitleParseError> {
    match weekday_at(s, 0) {
        None => Err(TitleParseError(TitleFailure::Weekday)),
        Some(day_of_week) => match day_night_at(s, day_of_week.name().len() as int) {
            None => Err(TitleParseError(TitleFailure::DayNight)),
            Some((day, body)) => match find_lead_in(s, body) {
                None => Err(TitleParseError(TitleFailure::Description)),
                Some(phrase) => match temperature_at::<Celsius>(s, phrase) {
                    Err(e) => Err(TitleParseError(TitleFailure::Temperature(e))),
                    Ok((celsius, end)) => Ok(
                        (
                            ForecastView {
                                celsius,
                                fahrenheit: fahrenheit_of(celsius),
                                description: trimmed(s, body, phrase),
                                day,
                                day_of_week,
                            },
                            end,
                        ),
                    ),
                },
            },
        },
    }
}

/// The words that open a report of the current conditions.
pub open spec fn current_prefix() -> Seq<char> {
    "Current Conditions: "@
}

/// The current conditions that a title reports, and the position after the
/// temperature.
///
/// Such a title is the prefix, a description that runs up to the first
/// `, `, and a number in figures, which is the temperature in Celsius. What
/// follows the number is not looked at.
pub open spec fn current_conditions(s: Seq<char>) -> Result<
    (CurrentForecastView, int),
    CurrentForecastError,
> {
    let body = current_prefix().len() as int;
    if !matches_at(s, 0, current_prefix()) {
        Err(CurrentForecastError(CurrentFailure::Prefix))
    } else {
        match find_from(s, body, ", "@) {
            None => Err(CurrentForecastError(CurrentFailure::Separator)),
            Some(comma) => match signed_number_at(s, comma + ", "@.len()) {
                Err(e) => Err(CurrentForecastError(CurrentFailure::Number(e))),
                Ok((d, end)) => Ok(
                    (
                        CurrentForecastView {
                            celsius: Temperature::Current(d, PhantomData),
                            fahrenheit: fahrenheit_of(Temperature::Current(d, PhantomData)),
                            description: s.subrange(body, comma),
                        },
                        end,
                    ),
                ),
            },
        }
    }
}

/// Reads the lead-in written at `at`, and gives the position after it.
pub fn read_lead_in(s: &[char], at: usize) -> (r: Option<(LeadIn, usize)>)
    requires
        at <= s@.len(),
    ensures
        match r {
            Some((lead, end)) => {
                &&& lead_in_at(s@, at as int) == Some(lead)
                &&& end == at + lead.text().len()
                &&& at < end <= s@.len()
            },
            None => lead_in_at(s@, at as int) is None,
        },
{
    proof {
        reveal(lead_in_at);
        reveal_strlit("High");
        reveal_strlit("Temperature steady near");
        reveal_strlit("Temperature rising to");
        reveal_strlit("Low");
        reveal_strlit("Temperature falling to");
    }
    if occurs_at(s, at, "High") {
        Some((LeadIn::High, at + 4))
    } else if occurs_at(s, at, "Temperature steady near") {
        Some((LeadIn::SteadyNear, at + 23))
    } else if occurs_at(s, at, "Temperature rising to") {
        Some((LeadIn::RisingTo, at + 21))
    } else if occurs_at(s, at, "Low") {
        Some((LeadIn::Low, at + 3))
    } else if occurs_at(s, at, "Temperature falling to") {
        Some((LeadIn::FallingTo, at + 22))
    } else {
        None
    }
}

/// Reads the temperature phrase written at `at`.
pub fn read_temperature<Unit>(s: &[char], at: usize) -> (r: Result<
    (Temperature<Unit>, usize),
    TemperaturePhraseError,
>)
    requires
        at <= s@.len(),
    ensures
        match r {
            Ok((t, end)) => {
                &&& temperature_at::<Unit>(s@, at as int) == Ok::<
                    (Temperature<Unit>, int),
                    TemperaturePhraseError,
                >((t, end as int))
                &&& end <= s@.len()
                &&& t.value().is_moderate()
            },
            Err(e) => temperature_at::<Unit>(s@, at as int) == Err::<
                (Temperature<Unit>, int),
                TemperaturePhraseError,
            >(e),
        },
{
    proof {
        reveal(temperature_at);
    }
    match read_lead_in(s, at) {
        None => Err(TemperaturePhraseError::MissingLeadIn),
        Some((lead, after_lead)) => {
            let number_start = after_lead + count_blanks(s, after_lead);
            match read_number(s, number_start) {
                Err(e) => Err(TemperaturePhraseError::Number(e)),
                Ok((d, end)) => {
                    let t = match lead {
                        LeadIn::High | LeadIn::SteadyNear | LeadIn::RisingTo => Temperature::High(
                            d,
                            PhantomData,
                        ),
                        LeadIn::Low | LeadIn::FallingTo => Temperature::Low(d, PhantomData),
                    };
                    Ok((t, end))
                },
            }
        },
    }
}

/// Searches for the first lead-in at or after `from`.
pub fn seek_lead_in(s: &[char], from: usize) -> (found: Option<usize>)
    requires
        from <= s@.len(),
    ensures
        match found {
            Some(at) => find_lead_in(s@, from as int) == Some(at as int) && from <= at < s@.len(),
            None => find_lead_in(s@, from as int) is None,
        },
{
    let mut at: usize = from;
    while at < s.len()
        invariant
            from <= at <= s@.len(),
            find_lead_in(s@, from as int) == find_lead_in(s@, at as int),
        decreases s@.len() - at,
    {
        if read_lead_in(s, at).is_some() {
            return Some(at);
        }
        at += 1;
    }
    None
}

/// Reads the weekday whose name is written at `at`, and gives the position
/// after it.
pub fn read_weekday(s: &[char], at: usize) -> (r: Option<(DayOfWeek, usize)>)
    requires
        at <= s@.len(),
    ensures
        match r {
            Some((day, end)) => {
                &&& weekday_at(s@, at as int) == Some(day)
                &&& end == at + day.name().len()
                &&& end <= s@.len()
            },
            None => weekday_at(s@, at as int) is None,
        },
{
    proof {
        reveal(weekday_at);
        reveal_strlit("Monday");
        reveal_strlit("Tuesday");
        reveal_strlit("Wednesday");
        reveal_strlit("Thursday");
        reveal_strlit("Friday");
        reveal_strlit("Saturday");
        reveal_strlit("Sunday");
    }
    if occurs_at(s, at, "Monday") {
        Some((DayOfWeek::Monday, at + 6))
    } else if occurs_at(s, at, "Tuesday") {
        Some((DayOfWeek::Tuesday, at + 7))
    } else if occurs_at(s, at, "Wednesday") {
        Some((DayOfWeek::Wednesday, at + 9))
    } else if occurs_at(s, at, "Thursday") {
        Some((DayOfWeek::Thursday, at + 8))
    } else if occurs_at(s, at, "Friday") {
        Some((DayOfWeek::Friday, at + 6))
    } else if occurs_at(s, at, "Saturday") {
        Some((DayOfWeek::Saturday, at + 8))
    } else if occurs_at(s, at, "Sunday") {
        Some((DayOfWeek::Sunday, at + 6))
    } else {
        None
    }
}

/// Reads the day or night marker written at `at`, and gives the position
/// after it.
pub fn read_day_night(s: &[char], at: usize) -> (r: Option<(DayNight, usize)>)
    requires
        at <= s@.len(),
    ensures
        match r {
            Some((day, end)) => day_night_at(s@, at as int) == Some((day, end as int)) && end
                <= s@.len(),
            None => day_night_at(s@, at as int) is None,
        },
{
    proof {
        reveal(day_night_at);
        reveal_strlit(":");
        reveal_strlit("night:");
    }
    if occurs_at(s, at, ":") {
        return Some((DayNight::Day, at + 1));
    }
    let word_at = at + count_blanks(s, at);
    if occurs_at(s, word_at, "night:") {
        Some((DayNight::Night, word_at + 6))
    } else {
        None
    }
}

/// Parses a temperature phrase at the start of `input`, and returns the
/// temperature with the rest of the input.
pub fn parse_temp<Unit>(input: &str) -> (r: Result<
    (&str, Temperature<Unit>),
    TemperaturePhraseError,
>)
    ensures
        match temperature_at::<Unit>(input@, 0) {
            Ok((t, end)) => r matches Ok((rest, value)) && value == t && rest@ == input@.skip(end),
            Err(e) => r matches Err(failure) && failure == e,
        },
{
    let chars = chars_of(input);
    match read_temperature(chars.as_slice(), 0) {
        Ok((value, end)) => Ok((rest_of(input, end), value)),
        Err(e) => Err(e),
    }
}

/// Parses a description at the start of `input`: the text up to the first
/// lead-in, trimmed. Returns the input from the lead-in on, and the
/// description. Fails where the input holds no lead-in.
pub fn parse_description(input: &str) -> (r: Result<(&str, &str), TitleFailure>)
    ensures
        match find_lead_in(input@, 0) {
            Some(phrase) => r matches Ok((rest, description)) && rest@ == input@.skip(phrase)
                && description@ == trimmed(input@, 0, phrase),
            None => r matches Err(failure) && failure == TitleFailure::Description,
        },
{
    let chars = chars_of(input);
    match seek_lead_in(chars.as_slice(), 0) {
        Some(phrase) => {
            let (start, end) = trim_bounds(chars.as_slice(), 0, phrase);
            Ok((rest_of(input, phrase), input.substring_char(start, end)))
        },
        None => Err(TitleFailure::Description),
    }
}

/// Parses a day or night marker at the start of `input`, and returns it with
/// the rest of the input.
pub fn parse_day_night(input: &str) -> (r: Result<(&str, DayNight), TitleFailure>)
    ensures
        match day_night_at(input@, 0) {
            Some((day, end)) => r matches Ok((rest, value)) && value == day && rest@
                == input@.skip(end),
            None => r matches Err(failure) && failure == TitleFailure::DayNight,
        },
{
    let chars = chars_of(input);
    match read_day_night(chars.as_slice(), 0) {
        Some((day, end)) => Ok((rest_of(input, end), day)),
        None => Err(TitleFailure::DayNight),
    }
}

/// Parses the name of a weekday at the start of `input`, and returns the
/// weekday with the rest of the input.
pub fn parse_day_of_week(input: &str) -> (r: Result<(&str, DayOfWeek), TitleFailure>)
    ensures
        match weekday_at(input@, 0) {
            Some(day) => r matches Ok((rest, value)) && value == day && rest@ == input@.skip(
                day.name().len() as int,
            ),
            None => r matches Err(failure) && failure == TitleFailure::Weekday,
        },
{
    let chars = chars_of(input);
    match read_weekday(chars.as_slice(), 0) {
        Some((day, end)) => Ok((rest_of(input, end), day)),
        None => Err(TitleFailure::Weekday),
    }
}

/// Parses the title of a forecast entry, and returns the forecast with what
/// follows the temperature phrase.
pub fn parse_forecast<Unit>(input: &str) -> (r: Result<(&str, Forecast), TitleParseError>)
    ensures
        match title_forecast(input@) {
            Ok((forecast, end)) => r matches Ok((rest, value)) && value@ == forecast && rest@
                == input@.skip(end),
            Err(e) => r matches Err(failure) && failure == e,
        },
{
    let chars = chars_of(input);
    let s = chars.as_slice();
    let (day_of_week, after_name) = match read_weekday(s, 0) {
        Some(found) => found,
        None => {
            return Err(TitleParseError(TitleFailure::Weekday));
        },
    };
    let (day, body) = match read_day_night(s, after_name) {
        Some(found) => found,
        None => {
            return Err(TitleParseError(TitleFailure::DayNight));
        },
    };
    let phrase = match seek_lead_in(s, body) {
        Some(found) => found,
        None => {
            return Err(TitleParseError(TitleFailure::Description));
        },
    };
    let (celsius, end) = match read_temperature::<Celsius>(s, phrase) {
        Ok(found) => found,
        Err(e) => {
            return Err(TitleParseError(TitleFailure::Temperature(e)));
        },
    };
    let (start, stop) = trim_bounds(s, body, phrase);
    proof {
        lemma_moderate_is_convertible(celsius.value());
    }
    let forecast = Forecast {
        celsius,
        fahrenheit: celsius.to_fahrenheit(),
        description: input.substring_char(start, stop).to_owned(),
        day,
        day_of_week,
    };
    Ok((rest_of(input, end), forecast))
}

/// Parses the title of a current-conditions entry, and returns the
/// conditions with what follows the temperature.
pub fn parse_current_forecast(input: &str) -> (r: Result<
    (&str, CurrentForecast),
    CurrentForecastError,
>)
    ensures
        match current_conditions(input@) {
            Ok((current, end)) => r matches Ok((rest, value)) && value@ == current && rest@
                == input@.skip(end),
            Err(e) => r matches Err(failure) && failure == e,
        },
{
    proof {
        reveal_strlit("Current Conditions: ");
        reveal_strlit(", ");
    }
    let chars = chars_of(input);
    let s = chars.as_slice();
    if !occurs_at(s, 0, "Current Conditions: ") {
        return Err(CurrentForecastError(CurrentFailure::Prefix));
    }
    let body: usize = 20;
    let comma = match find(s, body, ", ") {
        Some(found) => found,
        None => {
            return Err(CurrentForecastError(CurrentFailure::Separator));
        },
    };
    proof {
        crate::text::lemma_find_from_is_first(s@, body as int, ", "@);
    }
    let (d, end) = match read_signed_number(s, comma + 2) {
        Ok(found) => found,
        Err(e) => {
            return Err(CurrentForecastError(CurrentFailure::Number(e)));
        },
    };
    let celsius: Temperature<Celsius> = Temperature::Current(d, PhantomData);
    proof {
        lemma_moderate_is_convertible(d);
    }
    let current = CurrentForecast {
        celsius,
        fahrenheit: celsius.to_fahrenheit(),
        description: input.substring_char(body, comma).to_owned(),
    };
    Ok((rest_of(input, end), current))
}

impl std::str::FromStr for Forecast {
    type Err = TitleParseError;

    /// The forecast that a title states.
    fn from_str(s: &str) -> (r: Result<Self, Self::Err>)
        ensures
            match title_forecast(s@) {
                Ok((forecast, _)) => r matches Ok(value) && value@ == forecast,
                Err(e) => r matches Err(failure) && failure == e,
            },
    {
        match parse_forecast::<Celsius>(s) {
            Ok((_, forecast)) => Ok(forecast),
            Err(e) => Err(e),
        }
    }
}

impl std::str::FromStr for CurrentForecast {
    type Err = CurrentForecastError;

    /// The current conditions that a title reports.
    fn from_str(s: &str) -> (r: Result<Self, Self::Err>)
        ensures
            match current_conditions(s@) {
                Ok((current, _)) => r matches Ok(value) && value@ == current,
                Err(e) => r matches Err(failure) && failure == e,
            },
    {
        match parse_current_forecast(s) {
            Ok((_, current)) => Ok(current),
            Err(e) => Err(e),
        }
    }
}

} // verus!
