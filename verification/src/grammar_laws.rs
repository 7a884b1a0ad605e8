//! What holds of the grammars on every text: what is read stays within the
//! range of the representation, reading does not depend on what stands
//! before, and what is written by the rules of the title grammar is read
//! back as it was meant.
use vstd::prelude::*;
use std::marker::PhantomData;
use crate::decimal::{
    all_digits, digit_char, digits_value, lemma_digits_value_bound,
    lemma_moderate_is_convertible, lemma_pow10_increases, lemma_pow10_values, nat_text, pow10,
    Decimal, MAX_DIGITS,
};
use crate::forecast::{
    DayNight, DayOfWeek, ForecastView, NumberParseError, TemperaturePhraseError, TitleFailure,
    TitleParseError,
};
use crate::parsers::{
    current_conditions, day_night_at, find_lead_in, fraction_len, lead_in_at, magnitude_at,
    magnitude_digits, magnitude_end, number_at, sign_word_at, sign_word_len, signed_number_at,
    temperature_at, title_forecast, weekday_at, LeadIn, SignWord,
};
use crate::temperature::{fahrenheit_of, Celsius, Temperature};
use crate::text::{
    blank_run, digit_run, digit_value, is_blank, is_digit, is_whitespace, matches_at, trim_end,
    trim_start, trimmed,
};

verus! {

/// Every magnitude that is read is the number that its digits denote, with
/// as many decimal places as its fraction has digits, and is moderate.
pub proof fn lemma_magnitude_is_moderate(s: Seq<char>, at: int)
    ensures
        magnitude_at(s, at) matches Ok((d, end)) ==> {
            &&& d.unscaled == digits_value(magnitude_digits(s, at))
            &&& d.scale == fraction_len(s, at)
            &&& d.is_moderate()
            &&& at < end <= s.len()
        },
{
    reveal(magnitude_at);
    if magnitude_at(s, at) is Ok {
        let whole = digit_run(s, at) as int;
        let dot = at + whole;
        let fraction = fraction_len(s, at) as int;
        let digits = magnitude_digits(s, at);
        crate::text::lemma_digit_run_bounds(s, at);
        if fraction > 0 {
            crate::text::lemma_digit_run_bounds(s, dot + 1);
        }
        assert(all_digits(digits)) by {
            assert forall|k: int| 0 <= k < digits.len() implies is_digit(#[trigger] digits[k]) by {
                if k < whole {
                    assert(digits[k] == s[at + k]);
                } else {
                    assert(digits[k] == s[dot + 1 + (k - whole)]);
                }
            }
        }
        lemma_digits_value_bound(digits);
        lemma_pow10_increases(digits.len(), MAX_DIGITS as nat);
        lemma_pow10_values();
    }
}

/// Every number that is read, in words or in figures, is moderate: twice
/// the number plus thirty can be represented.
pub proof fn lemma_number_is_moderate(s: Seq<char>, at: int)
    ensures
        number_at(s, at) matches Ok((d, _)) ==> d.is_moderate(),
        signed_number_at(s, at) matches Ok((d, _)) ==> d.is_moderate(),
{
    reveal(number_at);
    reveal(signed_number_at);
    lemma_pow10_values();
    let after_word = at + sign_word_len(sign_word_at(s, at));
    lemma_magnitude_is_moderate(s, after_word + blank_run(s, after_word));
    let sign_at = at + blank_run(s, at);
    lemma_magnitude_is_moderate(s, sign_at);
    lemma_magnitude_is_moderate(s, sign_at + 1);
}

/// In every forecast that is read from a title, the reading in Fahrenheit
/// has the role and the scale of the reading in Celsius, and in units of
/// that scale it is exactly twice the reading in Celsius plus thirty.
pub proof fn lemma_forecast_units_agree(s: Seq<char>)
    ensures
        title_forecast(s) matches Ok((f, _)) ==> {
            &&& f.is_consistent()
            &&& f.celsius.value().is_moderate()
            &&& f.fahrenheit.value().scale == f.celsius.value().scale
            &&& f.fahrenheit.value().unscaled == 2 * f.celsius.value().unscaled + 30 * pow10(
                f.celsius.value().scale as nat,
            )
            &&& (f.celsius is High) == (f.fahrenheit is High)
            &&& (f.celsius is Low) == (f.fahrenheit is Low)
            &&& !(f.celsius is Current) && !(f.fahrenheit is Current)
        },
{
    reveal(temperature_at);
    match title_forecast(s) {
        Ok((f, _)) => {
            let name = weekday_at(s, 0)->0.name();
            let (_, body) = day_night_at(s, name.len() as int)->0;
            let phrase = find_lead_in(s, body)->0;
            let lead = lead_in_at(s, phrase)->0;
            let after_lead = phrase + lead.text().len();
            lemma_number_is_moderate(s, after_lead + blank_run(s, after_lead));
            lemma_moderate_is_convertible(f.celsius.value());
            lemma_doubling_is_exact(f.celsius.value());
        },
        Err(_) => {},
    }
}

/// In every report of the current conditions that is read from a title,
/// the reading in Fahrenheit has the scale of the reading in Celsius, and in
/// units of that scale it is exactly twice the reading in Celsius plus
/// thirty.
pub proof fn lemma_current_units_agree(s: Seq<char>)
    ensures
        current_conditions(s) matches Ok((c, _)) ==> {
            &&& c.is_consistent()
            &&& c.celsius.value().is_moderate()
            &&& c.fahrenheit.value().scale == c.celsius.value().scale
            &&& c.fahrenheit.value().unscaled == 2 * c.celsius.value().unscaled + 30 * pow10(
                c.celsius.value().scale as nat,
            )
            &&& c.celsius is Current && c.fahrenheit is Current
        },
{
    match current_conditions(s) {
        Ok((c, _)) => {
            let body = crate::parsers::current_prefix().len() as int;
            let comma = crate::text::find_from(s, body, ", "@)->0;
            lemma_number_is_moderate(s, comma + ", "@.len());
            lemma_moderate_is_convertible(c.celsius.value());
            lemma_doubling_is_exact(c.celsius.value());
        },
        Err(_) => {},
    }
}

/// Where twice a number plus thirty can be represented, the decimal that
/// stands for it holds exactly that number.
pub proof fn lemma_doubling_is_exact(d: Decimal)
    requires
        d.is_convertible(),
    ensures
        d.doubled_plus_thirty().scale == d.scale,
        d.doubled_plus_thirty().unscaled == 2 * d.unscaled + 30 * pow10(d.scale as nat),
{
}

/// A result of reading, with its end position moved on by `by`.
pub open spec fn advanced<T, E>(r: Result<(T, int), E>, by: int) -> Result<(T, int), E> {
    match r {
        Ok((value, end)) => Ok((value, end + by)),
        Err(e) => Err(e),
    }
}

/// A pattern occurs behind a prefix where it occurs in the text alone.
pub proof fn lemma_matches_after(p: Seq<char>, b: Seq<char>, i: int, pat: Seq<char>)
    requires
        0 <= i,
    ensures
        matches_at(p + b, p.len() + i, pat) == matches_at(b, i, pat),
{
    if i + pat.len() <= b.len() {
        assert((p + b).subrange(p.len() + i, p.len() + i + pat.len()) =~= b.subrange(
            i,
            i + pat.len(),
        ));
    }
}

/// A pattern does not occur where one of its characters differs from the
/// text.
pub proof fn lemma_mismatch(s: Seq<char>, at: int, pat: Seq<char>, i: int)
    requires
        0 <= at,
        0 <= i < pat.len(),
        at + i < s.len() ==> s[at + i] != pat[i],
    ensures
        !matches_at(s, at, pat),
{
    if at + pat.len() <= s.len() {
        assert(s.subrange(at, at + pat.len())[i] == s[at + i]);
    }
}

/// A run of digits behind a prefix is as long as in the text alone.
pub proof fn lemma_digit_run_after(p: Seq<char>, b: Seq<char>, i: int)
    requires
        0 <= i,
    ensures
        digit_run(p + b, p.len() + i) == digit_run(b, i),
    decreases b.len() - i,
{
    if i < b.len() {
        assert((p + b)[p.len() + i] == b[i]);
        if is_digit(b[i]) {
            lemma_digit_run_after(p, b, i + 1);
        }
    }
}

/// A run of blanks behind a prefix is as long as in the text alone.
pub proof fn lemma_blank_run_after(p: Seq<char>, b: Seq<char>, i: int)
    requires
        0 <= i,
    ensures
        blank_run(p + b, p.len() + i) == blank_run(b, i),
    decreases b.len() - i,
{
    if i < b.len() {
        assert((p + b)[p.len() + i] == b[i]);
        if is_blank(b[i]) {
            lemma_blank_run_after(p, b, i + 1);
        }
    }
}

/// A magnitude behind a prefix is read as in the text alone.
pub proof fn lemma_magnitude_after(p: Seq<char>, b: Seq<char>, i: int)
    requires
        0 <= i,
    ensures
        magnitude_at(p + b, p.len() + i) == advanced(magnitude_at(b, i), p.len() as int),
        digit_run(p + b, p.len() + i) == digit_run(b, i),
        magnitude_end(p + b, p.len() + i) == magnitude_end(b, i) + p.len(),
{
    reveal(magnitude_at);
    let s = p + b;
    let n = p.len() as int;
    lemma_digit_run_after(p, b, i);
    let whole = digit_run(b, i) as int;
    if i <= b.len() {
        crate::text::lemma_digit_run_bounds(b, i);
        let dot = i + whole;
        if dot < b.len() {
            assert(s[n + dot] == b[dot]);
            lemma_digit_run_after(p, b, dot + 1);
            crate::text::lemma_digit_run_bounds(b, dot + 1);
        }
        assert(fraction_len(s, n + i) == fraction_len(b, i));
        let fraction = fraction_len(b, i) as int;
        assert(s.subrange(n + i, n + dot) =~= b.subrange(i, dot));
        if fraction > 0 {
            assert(s.subrange(n + dot + 1, n + dot + 1 + fraction) =~= b.subrange(
                dot + 1,
                dot + 1 + fraction,
            ));
        }
        assert(magnitude_digits(s, n + i) == magnitude_digits(b, i));
    } else {
        assert(digit_run(b, i) == 0);
    }
}

/// A sign word stands behind a prefix where it stands in the text alone.
pub proof fn lemma_sign_word_after(p: Seq<char>, b: Seq<char>, i: int)
    requires
        0 <= i,
    ensures
        sign_word_at(p + b, p.len() + i) == sign_word_at(b, i),
{
    reveal(sign_word_at);
    lemma_matches_after(p, b, i, SignWord::Minus.text());
    lemma_matches_after(p, b, i, SignWord::Plus.text());
    lemma_matches_after(p, b, i, SignWord::Zero.text());
}

/// A number in words behind a prefix is read as in the text alone.
pub proof fn lemma_number_after(p: Seq<char>, b: Seq<char>, i: int)
    requires
        0 <= i,
    ensures
        number_at(p + b, p.len() + i) == advanced(number_at(b, i), p.len() as int),
{
    reveal(number_at);
    let n = p.len() as int;
    lemma_sign_word_after(p, b, i);
    let after_word = i + sign_word_len(sign_word_at(b, i));
    lemma_blank_run_after(p, b, after_word);
    let digits_at = after_word + blank_run(b, after_word);
    lemma_magnitude_after(p, b, digits_at);
}

/// A lead-in stands behind a prefix where it stands in the text alone.
pub proof fn lemma_lead_in_after(p: Seq<char>, b: Seq<char>, i: int)
    requires
        0 <= i,
    ensures
        lead_in_at(p + b, p.len() + i) == lead_in_at(b, i),
{
    reveal(lead_in_at);
    lemma_matches_after(p, b, i, LeadIn::High.text());
    lemma_matches_after(p, b, i, LeadIn::SteadyNear.text());
    lemma_matches_after(p, b, i, LeadIn::RisingTo.text());
    lemma_matches_after(p, b, i, LeadIn::Low.text());
    lemma_matches_after(p, b, i, LeadIn::FallingTo.text());
}

/// A temperature phrase behind a prefix is read as in the text alone.
pub proof fn lemma_temperature_after<Unit>(p: Seq<char>, b: Seq<char>, i: int)
    requires
        0 <= i,
    ensures
        temperature_at::<Unit>(p + b, p.len() + i) == advanced(
            temperature_at::<Unit>(b, i),
            p.len() as int,
        ),
{
    reveal(temperature_at);
    lemma_lead_in_after(p, b, i);
    match lead_in_at(b, i) {
        Some(lead) => {
            let after_lead = i + lead.text().len();
            lemma_blank_run_after(p, b, after_lead);
            lemma_number_after(p, b, after_lead + blank_run(b, after_lead));
        },
        None => {},
    }
}

/// The first lead-in behind a prefix is the first lead-in of the text
/// alone.
pub proof fn lemma_find_lead_in_after(p: Seq<char>, b: Seq<char>, i: int)
    requires
        0 <= i,
    ensures
        find_lead_in(p + b, p.len() + i) == match find_lead_in(b, i) {
            Some(at) => Some(at + p.len()),
            None => None,
        },
    decreases b.len() - i,
{
    if i < b.len() {
        lemma_lead_in_after(p, b, i);
        if lead_in_at(b, i) is None {
            lemma_find_lead_in_after(p, b, i + 1);
        }
    }
}

/// A stretch behind a prefix is trimmed as in the text alone.
pub proof fn lemma_trimmed_after(p: Seq<char>, b: Seq<char>, lo: int, hi: int)
    requires
        0 <= lo <= hi <= b.len(),
    ensures
        trimmed(p + b, p.len() + lo, p.len() + hi) == trimmed(b, lo, hi),
{
    let n = p.len() as int;
    lemma_trim_start_after(p, b, lo, hi);
    let start = trim_start(b, lo, hi);
    crate::text::lemma_trim_bounds(b, lo, hi);
    lemma_trim_end_after(p, b, start, hi);
    let end = trim_end(b, start, hi);
    assert((p + b).subrange(n + start, n + end) =~= b.subrange(start, end));
}

/// Leading whitespace behind a prefix ends where it ends in the text alone.
proof fn lemma_trim_start_after(p: Seq<char>, b: Seq<char>, lo: int, hi: int)
    requires
        0 <= lo <= hi <= b.len(),
    ensures
        trim_start(p + b, p.len() + lo, p.len() + hi) == p.len() + trim_start(b, lo, hi),
    decreases hi - lo,
{
    if lo < hi {
        assert((p + b)[p.len() + lo] == b[lo]);
        if is_whitespace(b[lo]) {
            lemma_trim_start_after(p, b, lo + 1, hi);
        }
    }
}

/// Trailing whitespace behind a prefix begins where it begins in the text
/// alone.
proof fn lemma_trim_end_after(p: Seq<char>, b: Seq<char>, lo: int, hi: int)
    requires
        0 <= lo <= hi <= b.len(),
    ensures
        trim_end(p + b, p.len() + lo, p.len() + hi) == p.len() + trim_end(b, lo, hi),
    decreases hi - lo,
{
    if lo < hi {
        assert((p + b)[p.len() + hi - 1] == b[hi - 1]);
        if is_whitespace(b[hi - 1]) {
            lemma_trim_end_after(p, b, lo, hi - 1);
        }
    }
}

/// How the marker of a half of the day is written.
pub open spec fn marker_text(day: DayNight) -> Seq<char> {
    match day {
        DayNight::Day => ":"@,
        DayNight::Night => " night:"@,
    }
}

/// A text that begins with the name of a weekday is read as that weekday.
pub proof fn lemma_weekday_is_read(day_of_week: DayOfWeek, rest: Seq<char>)
    ensures
        weekday_at(day_of_week.name() + rest, 0) == Some(day_of_week),
{
    reveal(weekday_at);
    let s = day_of_week.name() + rest;
    reveal_strlit("Monday");
    reveal_strlit("Tuesday");
    reveal_strlit("Wednesday");
    reveal_strlit("Thursday");
    reveal_strlit("Friday");
    reveal_strlit("Saturday");
    reveal_strlit("Sunday");
    assert(s.subrange(0, day_of_week.name().len() as int) =~= day_of_week.name());
    assert(s[0] == day_of_week.name()[0]);
    assert(s[1] == day_of_week.name()[1]);
    if day_of_week != DayOfWeek::Monday {
        lemma_mismatch(s, 0, DayOfWeek::Monday.name(), 0);
    }
    if day_of_week != DayOfWeek::Tuesday {
        lemma_mismatch(s, 0, DayOfWeek::Tuesday.name(), if day_of_week == DayOfWeek::Thursday {
            1
        } else {
            0
        });
    }
    if day_of_week != DayOfWeek::Wednesday {
        lemma_mismatch(s, 0, DayOfWeek::Wednesday.name(), 0);
    }
    if day_of_week != DayOfWeek::Thursday {
        lemma_mismatch(s, 0, DayOfWeek::Thursday.name(), if day_of_week == DayOfWeek::Tuesday {
            1
        } else {
            0
        });
    }
    if day_of_week != DayOfWeek::Friday {
        lemma_mismatch(s, 0, DayOfWeek::Friday.name(), 0);
    }
    if day_of_week != DayOfWeek::Saturday {
        lemma_mismatch(s, 0, DayOfWeek::Saturday.name(), if day_of_week == DayOfWeek::Sunday {
            1
        } else {
            0
        });
    }
}

/// A text that begins with the marker of a half of the day is read as that
/// half.
pub proof fn lemma_marker_is_read(day: DayNight, rest: Seq<char>)
    ensures
        day_night_at(marker_text(day) + rest, 0) == Some((day, marker_text(day).len() as int)),
{
    reveal(day_night_at);
    let s = marker_text(day) + rest;
    reveal_strlit(":");
    reveal_strlit(" night:");
    reveal_strlit("night:");
    match day {
        DayNight::Day => {
            assert(s.subrange(0, 1) =~= ":"@);
        },
        DayNight::Night => {
            lemma_mismatch(s, 0, ":"@, 0);
            assert(s[0] == ' ');
            assert(s[1] == 'n');
            assert(blank_run(s, 1) == 0);
            assert(blank_run(s, 0) == 1);
            assert(s.subrange(1, 7) =~= "night:"@);
        },
    }
}

/// A title written as the name of a weekday, the marker of a half of the
/// day, and a body is read as a forecast for that weekday and that half,
/// with the description and the temperature that the body states; and it is
/// refused exactly where the body states none.
pub proof fn lemma_title_round_trip(day_of_week: DayOfWeek, day: DayNight, body: Seq<char>)
    ensures
        title_forecast(day_of_week.name() + marker_text(day) + body) == (match find_lead_in(
            body,
            0,
        ) {
            None => Err(TitleParseError(TitleFailure::Description)),
            Some(phrase) => match temperature_at::<Celsius>(body, phrase) {
                Err(e) => Err(TitleParseError(TitleFailure::Temperature(e))),
                Ok((celsius, end)) => Ok(
                    (
                        ForecastView {
                            celsius,
                            fahrenheit: fahrenheit_of(celsius),
                            description: trimmed(body, 0, phrase),
                            day,
                            day_of_week,
                        },
                        day_of_week.name().len() + marker_text(day).len() + end,
                    ),
                ),
            },
        }),
{
    let name = day_of_week.name();
    let marker = marker_text(day);
    let head = name + marker;
    let s = head + body;
    let n = head.len() as int;
    assert(weekday_at(s, 0) == Some(day_of_week)) by {
        assert(s =~= name + (marker + body));
        lemma_weekday_is_read(day_of_week, marker + body);
    }
    assert(day_night_at(s, name.len() as int) == Some((day, n))) by {
        assert(s =~= name + (marker + body));
        lemma_marker_is_read(day, body);
        lemma_day_night_after(name, marker + body);
    }
    lemma_find_lead_in_after(head, body, 0);
    match find_lead_in(body, 0) {
        Some(phrase) => {
            lemma_find_lead_in_bounds(body, 0);
            assert(find_lead_in(s, n) == Some(n + phrase));
            assert(temperature_at::<Celsius>(s, n + phrase) == advanced(
                temperature_at::<Celsius>(body, phrase),
                n,
            )) by {
                lemma_temperature_after::<Celsius>(head, body, phrase);
            }
            assert(trimmed(s, n, n + phrase) == trimmed(body, 0, phrase)) by {
                lemma_trimmed_after(head, body, 0, phrase);
            }
        },
        None => {
            assert(find_lead_in(s, n) is None);
        },
    }
}

/// A marker behind a prefix is read as in the text alone.
pub proof fn lemma_day_night_after(p: Seq<char>, b: Seq<char>)
    ensures
        day_night_at(p + b, p.len() as int) == match day_night_at(b, 0) {
            Some((day, end)) => Some((day, end + p.len())),
            None => None,
        },
{
    reveal(day_night_at);
    lemma_matches_after(p, b, 0, ":"@);
    lemma_blank_run_after(p, b, 0);
    lemma_matches_after(p, b, blank_run(b, 0) as int, "night:"@);
}

/// The first lead-in, where there is one, stands inside the text.
proof fn lemma_find_lead_in_bounds(s: Seq<char>, from: int)
    requires
        0 <= from,
    ensures
        find_lead_in(s, from) matches Some(at) ==> from <= at < s.len() && lead_in_at(s, at)
            is Some,
    decreases s.len() - from,
{
    if from < s.len() && lead_in_at(s, from) is None {
        lemma_find_lead_in_bounds(s, from + 1);
    }
}

/// A natural number as it is written is a run of at least one digit that
/// denotes the number.
pub proof fn lemma_nat_text(n: nat)
    ensures
        nat_text(n).len() >= 1,
        all_digits(nat_text(n)),
        digits_value(nat_text(n)) == n,
    decreases n,
{
    let last = digit_char(n % 10);
    assert(is_digit(last) && digit_value(last) == n % 10);
    if n < 10 {
        assert(seq![last].drop_last() =~= Seq::<char>::empty());
        assert(digits_value(Seq::<char>::empty()) == 0);
    } else {
        lemma_nat_text(n / 10);
        let front = nat_text(n / 10);
        assert(front.push(last).drop_last() =~= front);
    }
}

/// A natural number below `10^k` is written with at most `k` digits.
pub proof fn lemma_nat_text_len(n: nat, k: nat)
    requires
        k >= 1,
        n < pow10(k),
    ensures
        nat_text(n).len() <= k,
    decreases k,
{
    if n >= 10 {
        assert(pow10(1) == 10) by {
            lemma_pow10_values();
        }
        if k == 1 {
            assert(false);
        }
        lemma_nat_text_len(n / 10, (k - 1) as nat);
    }
}

/// A number can be told from what follows it: what follows neither begins
/// with a digit nor with a point and a digit.
pub open spec fn ends_number(rest: Seq<char>) -> bool {
    &&& rest.len() >= 1 ==> !is_digit(rest[0])
    &&& rest.len() >= 2 && rest[0] == '.' ==> !is_digit(rest[1])
}

/// A run of digits followed by something else is as long as it is written.
pub proof fn lemma_digit_run_of(digits: Seq<char>, rest: Seq<char>, i: int)
    requires
        all_digits(digits),
        rest.len() >= 1 ==> !is_digit(rest[0]),
        0 <= i <= digits.len(),
    ensures
        digit_run(digits + rest, i) == digits.len() - i,
    decreases digits.len() - i,
{
    let s = digits + rest;
    if i < digits.len() {
        assert(s[i] == digits[i]);
        lemma_digit_run_of(digits, rest, i + 1);
    } else if rest.len() >= 1 {
        assert(s[i] == rest[0]);
    }
}

/// A whole number written in figures, with something else behind it, is
/// read as the number.
pub proof fn lemma_figures_are_read(n: nat, rest: Seq<char>)
    requires
        n < pow10(MAX_DIGITS as nat),
        ends_number(rest),
    ensures
        magnitude_at(nat_text(n) + rest, 0) == Ok::<(Decimal, int), NumberParseError>(
            (Decimal { unscaled: n as i64, scale: 0 }, nat_text(n).len() as int),
        ),
        sign_word_at(nat_text(n) + rest, 0) is None,
        blank_run(nat_text(n) + rest, 0) == 0,
        digit_run(nat_text(n) + rest, 0) == nat_text(n).len() > 0,
        magnitude_end(nat_text(n) + rest, 0) == nat_text(n).len(),
{
    reveal(magnitude_at);
    reveal(sign_word_at);
    let digits = nat_text(n);
    let s = digits + rest;
    lemma_nat_text(n);
    lemma_nat_text_len(n, MAX_DIGITS as nat);
    lemma_pow10_values();
    lemma_digit_run_of(digits, rest, 0);
    let dot = digits.len() as int;
    if rest.len() >= 1 {
        assert(s[dot] == rest[0]);
        if rest[0] == '.' {
            if rest.len() >= 2 {
                assert(s[dot + 1] == rest[1]);
            }
            assert(digit_run(s, dot + 1) == 0);
        }
    }
    assert(fraction_len(s, 0) == 0);
    assert(s.subrange(0, dot) =~= digits);
    assert(s[0] == digits[0]);
    assert(is_digit(s[0]));
    reveal_strlit("minus");
    reveal_strlit("plus");
    reveal_strlit("zero");
    lemma_mismatch(s, 0, SignWord::Minus.text(), 0);
    lemma_mismatch(s, 0, SignWord::Plus.text(), 0);
    lemma_mismatch(s, 0, SignWord::Zero.text(), 0);
}

/// How a whole number is written in words: in figures, behind `minus` or
/// `plus` and a blank where it has a sign.
pub open spec fn number_words(word: Option<SignWord>, n: nat) -> Seq<char> {
    match word {
        Some(w) => w.text() + " "@ + nat_text(n),
        None => nat_text(n),
    }
}

/// The number that such words are meant to denote.
pub open spec fn number_meant(word: Option<SignWord>, n: nat) -> Decimal {
    match word {
        Some(SignWord::Minus) => Decimal { unscaled: (-n) as i64, scale: 0 },
        Some(SignWord::Zero) => Decimal { unscaled: 0, scale: 0 },
        _ => Decimal { unscaled: n as i64, scale: 0 },
    }
}

/// A text that begins with a sign word is read as beginning with that word.
pub proof fn lemma_sign_word_is_read(word: SignWord, rest: Seq<char>)
    ensures
        sign_word_at(word.text() + rest, 0) == Some(word),
{
    reveal(sign_word_at);
    let s = word.text() + rest;
    reveal_strlit("minus");
    reveal_strlit("plus");
    reveal_strlit("zero");
    assert(s.subrange(0, word.text().len() as int) =~= word.text());
    assert(s[0] == word.text()[0]);
    if word != SignWord::Minus {
        lemma_mismatch(s, 0, SignWord::Minus.text(), 0);
    }
    if word != SignWord::Plus {
        lemma_mismatch(s, 0, SignWord::Plus.text(), 0);
    }
}

/// A whole number written in words, with something else behind it, is read
/// as the number that was meant.
pub proof fn lemma_number_round_trip(word: Option<SignWord>, n: nat, rest: Seq<char>)
    requires
        n < pow10(MAX_DIGITS as nat),
        ends_number(rest),
    ensures
        number_at(number_words(word, n) + rest, 0) == Ok::<(Decimal, int), NumberParseError>(
            (number_meant(word, n), number_words(word, n).len() as int),
        ),
{
    reveal(number_at);
    let figures = nat_text(n) + rest;
    lemma_figures_are_read(n, rest);
    lemma_nat_text(n);
    lemma_pow10_values();
    match word {
        None => {},
        Some(w) => {
            let head = w.text() + " "@;
            let s = number_words(word, n) + rest;
            reveal_strlit(" ");
            reveal_strlit("minus");
            reveal_strlit("plus");
            reveal_strlit("zero");
            assert(s =~= head + figures);
            assert(s =~= w.text() + (" "@ + figures));
            lemma_sign_word_is_read(w, " "@ + figures);
            let after_word = w.text().len() as int;
            assert(s[after_word] == ' ');
            assert(s[after_word + 1] == figures[0]);
            assert(figures[0] == nat_text(n)[0]);
            assert(blank_run(s, after_word + 1) == 0);
            assert(blank_run(s, after_word) == 1);
            lemma_magnitude_after(head, figures, 0);
            assert(magnitude_at(s, after_word + 1) == advanced(
                magnitude_at(figures, 0),
                head.len() as int,
            ));
        },
    }
}

/// A text that begins with a lead-in is read as beginning with that
/// lead-in.
pub proof fn lemma_lead_in_is_read(lead: LeadIn, rest: Seq<char>)
    ensures
        lead_in_at(lead.text() + rest, 0) == Some(lead),
{
    reveal(lead_in_at);
    let s = lead.text() + rest;
    reveal_strlit("High");
    reveal_strlit("Temperature steady near");
    reveal_strlit("Temperature rising to");
    reveal_strlit("Low");
    reveal_strlit("Temperature falling to");
    assert(s.subrange(0, lead.text().len() as int) =~= lead.text());
    assert(s[0] == lead.text()[0]);
    if lead != LeadIn::High && lead != LeadIn::Low {
        assert(s[12] == lead.text()[12]);
    }
    if lead != LeadIn::High {
        lemma_mismatch(s, 0, LeadIn::High.text(), 0);
    }
    if lead != LeadIn::SteadyNear {
        lemma_mismatch(s, 0, LeadIn::SteadyNear.text(), if lead == LeadIn::High || lead
            == LeadIn::Low {
            0
        } else {
            12
        });
    }
    if lead != LeadIn::RisingTo {
        lemma_mismatch(s, 0, LeadIn::RisingTo.text(), if lead == LeadIn::High || lead
            == LeadIn::Low {
            0
        } else {
            12
        });
    }
    if lead != LeadIn::Low {
        lemma_mismatch(s, 0, LeadIn::Low.text(), 0);
    }
}

/// How a temperature phrase is written: the lead-in, a blank, and the
/// number in words.
pub open spec fn phrase_text(lead: LeadIn, word: Option<SignWord>, n: nat) -> Seq<char> {
    lead.text() + " "@ + number_words(word, n)
}

/// The temperature that such a phrase is meant to state.
pub open spec fn phrase_meant<Unit>(lead: LeadIn, word: Option<SignWord>, n: nat) -> Temperature<
    Unit,
> {
    if lead.announces_high() {
        Temperature::High(number_meant(word, n), PhantomData)
    } else {
        Temperature::Low(number_meant(word, n), PhantomData)
    }
}

/// A temperature phrase written with any lead-in and any whole number in
/// words, with something else behind it, is read as the temperature that
/// was meant.
pub proof fn lemma_phrase_round_trip<Unit>(
    lead: LeadIn,
    word: Option<SignWord>,
    n: nat,
    rest: Seq<char>,
)
    requires
        n < pow10(MAX_DIGITS as nat),
        ends_number(rest),
    ensures
        temperature_at::<Unit>(phrase_text(lead, word, n) + rest, 0) == Ok::<
            (Temperature<Unit>, int),
            TemperaturePhraseError,
        >((phrase_meant::<Unit>(lead, word, n), phrase_text(lead, word, n).len() as int)),
{
    reveal(temperature_at);
    let number = number_words(word, n) + rest;
    let head = lead.text() + " "@;
    let s = phrase_text(lead, word, n) + rest;
    let after_lead = lead.text().len() as int;
    assert(s == head + number) by {
        assert(s =~= head + number);
    }
    assert(head.len() == after_lead + 1) by {
        reveal_strlit(" ");
    }
    assert(lead_in_at(s, 0) == Some(lead)) by {
        assert(s =~= lead.text() + (" "@ + number));
        lemma_lead_in_is_read(lead, " "@ + number);
    }
    assert(number.len() > 0 && !is_blank(number[0])) by {
        lemma_nat_text(n);
        reveal_strlit("minus");
        reveal_strlit("plus");
        reveal_strlit("zero");
        match word {
            Some(w) => {
                assert(number[0] == w.text()[0]);
            },
            None => {
                assert(number[0] == nat_text(n)[0]);
            },
        }
    }
    assert(blank_run(s, after_lead) == 1) by {
        reveal_strlit(" ");
        assert(s[after_lead] == ' ');
        assert(s[after_lead + 1] == number[0]);
        assert(blank_run(s, after_lead + 1) == 0);
    }
    assert(number_at(s, after_lead + 1) == Ok::<(Decimal, int), NumberParseError>(
        (number_meant(word, n), after_lead + 1 + number_words(word, n).len()),
    )) by {
        lemma_number_round_trip(word, n, rest);
        lemma_number_after(head, number, 0);
    }
    assert(phrase_text(lead, word, n).len() == after_lead + 1 + number_words(word, n).len());
}

/// How a title is written: the name of the weekday, the marker of the half
/// of the day, a blank, the description, a blank, and the temperature
/// phrase.
pub open spec fn title_text(
    day_of_week: DayOfWeek,
    day: DayNight,
    description: Seq<char>,
    lead: LeadIn,
    word: Option<SignWord>,
    n: nat,
) -> Seq<char> {
    day_of_week.name() + marker_text(day) + " "@ + description + " "@ + phrase_text(lead, word, n)
}

/// A description that can be written into a title and read back: it
/// neither begins nor ends with whitespace, and no lead-in begins in it,
/// nor in the blanks around it, whatever phrase follows.
pub open spec fn is_plain_description(description: Seq<char>, phrase: Seq<char>) -> bool {
    &&& description.len() > 0 ==> !is_whitespace(description.first()) && !is_whitespace(
        description.last(),
    )
    &&& forall|i: int|
        0 <= i < description.len() + 2 ==> lead_in_at(" "@ + description + " "@ + phrase, i)
            is None
}

/// Every title written by the rules, for any weekday, either half of the
/// day, any plain description, any lead-in and any whole number in words,
/// is read as the forecast that was meant. What stands behind the title
/// changes nothing, as long as it does not continue the number.
pub proof fn lemma_written_title_is_read(
    day_of_week: DayOfWeek,
    day: DayNight,
    description: Seq<char>,
    lead: LeadIn,
    word: Option<SignWord>,
    n: nat,
    rest: Seq<char>,
)
    requires
        n < pow10(MAX_DIGITS as nat),
        ends_number(rest),
        is_plain_description(description, phrase_text(lead, word, n) + rest),
    ensures
        title_forecast(title_text(day_of_week, day, description, lead, word, n) + rest) == Ok::<
            (ForecastView, int),
            TitleParseError,
        >(
            (
                ForecastView {
                    celsius: phrase_meant::<Celsius>(lead, word, n),
                    fahrenheit: fahrenheit_of(phrase_meant::<Celsius>(lead, word, n)),
                    description,
                    day,
                    day_of_week,
                },
                title_text(day_of_week, day, description, lead, word, n).len() as int,
            ),
        ),
{
    let phrase = phrase_text(lead, word, n) + rest;
    let opening = " "@ + description + " "@;
    let written = title_text(day_of_week, day, description, lead, word, n);
    assert(written + rest == day_of_week.name() + marker_text(day) + (opening + phrase)) by {
        assert(written + rest =~= day_of_week.name() + marker_text(day) + (opening + phrase));
    }
    assert(written.len() == day_of_week.name().len() + marker_text(day).len() + opening.len()
        + phrase_text(lead, word, n).len());
    lemma_written_body_is_read(day_of_week, day, description, lead, word, n, rest);
}

/// The same, with the title taken apart into its head and its body.
proof fn lemma_written_body_is_read(
    day_of_week: DayOfWeek,
    day: DayNight,
    description: Seq<char>,
    lead: LeadIn,
    word: Option<SignWord>,
    n: nat,
    rest: Seq<char>,
)
    requires
        n < pow10(MAX_DIGITS as nat),
        ends_number(rest),
        is_plain_description(description, phrase_text(lead, word, n) + rest),
    ensures
        title_forecast(
            day_of_week.name() + marker_text(day) + (" "@ + description + " "@ + (phrase_text(
                lead,
                word,
                n,
            ) + rest)),
        ) == Ok::<(ForecastView, int), TitleParseError>(
            (
                ForecastView {
                    celsius: phrase_meant::<Celsius>(lead, word, n),
                    fahrenheit: fahrenheit_of(phrase_meant::<Celsius>(lead, word, n)),
                    description,
                    day,
                    day_of_week,
                },
                (day_of_week.name().len() + marker_text(day).len() + (" "@ + description
                    + " "@).len() + phrase_text(lead, word, n).len()) as int,
            ),
        ),
{
    let phrase = phrase_text(lead, word, n) + rest;
    let opening = " "@ + description + " "@;
    let body = opening + phrase;
    let at = opening.len() as int;
    let meant = phrase_meant::<Celsius>(lead, word, n);
    let end = at + phrase_text(lead, word, n).len();
    assert(find_lead_in(body, 0) == Some(at)) by {
        lemma_phrase_is_found(description, lead, word, n, rest);
    }
    assert(temperature_at::<Celsius>(body, at) == Ok::<
        (Temperature<Celsius>, int),
        TemperaturePhraseError,
    >((meant, end))) by {
        lemma_phrase_round_trip::<Celsius>(lead, word, n, rest);
        lemma_temperature_after::<Celsius>(opening, phrase, 0);
    }
    assert(trimmed(body, 0, at) == description) by {
        lemma_description_is_trimmed(description, phrase);
    }
    lemma_body_is_read(day_of_week, day, body, at, meant, end);
}

/// A title whose body has its first lead-in at `at`, and there a
/// well-formed temperature phrase, is read as the forecast that the body
/// states.
proof fn lemma_body_is_read(
    day_of_week: DayOfWeek,
    day: DayNight,
    body: Seq<char>,
    at: int,
    celsius: Temperature<Celsius>,
    end: int,
)
    requires
        find_lead_in(body, 0) == Some(at),
        temperature_at::<Celsius>(body, at) == Ok::<
            (Temperature<Celsius>, int),
            TemperaturePhraseError,
        >((celsius, end)),
    ensures
        title_forecast(day_of_week.name() + marker_text(day) + body) == Ok::<
            (ForecastView, int),
            TitleParseError,
        >(
            (
                ForecastView {
                    celsius,
                    fahrenheit: fahrenheit_of(celsius),
                    description: trimmed(body, 0, at),
                    day,
                    day_of_week,
                },
                day_of_week.name().len() + marker_text(day).len() + end,
            ),
        ),
{
    lemma_title_round_trip(day_of_week, day, body);
}

/// In a body written by the rules, the first lead-in is that of the
/// temperature phrase.
proof fn lemma_phrase_is_found(
    description: Seq<char>,
    lead: LeadIn,
    word: Option<SignWord>,
    n: nat,
    rest: Seq<char>,
)
    requires
        is_plain_description(description, phrase_text(lead, word, n) + rest),
    ensures
        find_lead_in(" "@ + description + " "@ + (phrase_text(lead, word, n) + rest), 0) == Some(
            (" "@ + description + " "@).len() as int,
        ),
{
    let phrase = phrase_text(lead, word, n) + rest;
    let opening = " "@ + description + " "@;
    let body = opening + phrase;
    let at = opening.len() as int;
    assert(at == description.len() + 2) by {
        reveal_strlit(" ");
    }
    assert(phrase.len() > 0 && lead_in_at(phrase, 0) is Some) by {
        assert(phrase =~= lead.text() + (" "@ + number_words(word, n) + rest));
        lemma_lead_in_is_read(lead, " "@ + number_words(word, n) + rest);
        reveal_strlit("High");
        reveal_strlit("Temperature steady near");
        reveal_strlit("Temperature rising to");
        reveal_strlit("Low");
        reveal_strlit("Temperature falling to");
    }
    lemma_lead_in_after(opening, phrase, 0);
    lemma_find_lead_in_skips(body, 0, at);
}

/// A description that neither begins nor ends with whitespace, written
/// between two blanks, is what trimming leaves of the text up to the
/// second blank.
proof fn lemma_description_is_trimmed(description: Seq<char>, phrase: Seq<char>)
    requires
        description.len() > 0 ==> !is_whitespace(description.first()) && !is_whitespace(
            description.last(),
        ),
    ensures
        trimmed(
            " "@ + description + " "@ + phrase,
            0,
            (" "@ + description + " "@).len() as int,
        ) == description,
{
    let body = " "@ + description + " "@ + phrase;
    let at = (" "@ + description + " "@).len() as int;
    reveal_strlit(" ");
    assert(body[0] == ' ');
    assert(body[at - 1] == ' ');
    if description.len() > 0 {
        assert(body[1] == description.first());
        assert(body[at - 2] == description.last());
        assert(trim_start(body, 1, at) == 1);
        assert(trim_start(body, 0, at) == 1);
        assert(trim_end(body, 1, at - 1) == at - 1);
        assert(trim_end(body, 1, at) == at - 1);
        assert(body.subrange(1, at - 1) =~= description);
    } else {
        assert(body[1] == ' ');
        assert(trim_start(body, 2, 2) == 2);
        assert(trim_start(body, 1, 2) == 2);
        assert(trim_start(body, 0, 2) == 2);
        assert(trim_end(body, 2, 2) == 2);
        assert(body.subrange(2, 2) =~= description);
    }
}

/// Where no lead-in stands from `from` up to `at`, and one stands at `at`,
/// the first lead-in from `from` on is the one at `at`.
proof fn lemma_find_lead_in_skips(s: Seq<char>, from: int, at: int)
    requires
        0 <= from <= at < s.len(),
        forall|i: int| from <= i < at ==> lead_in_at(s, i) is None,
        lead_in_at(s, at) is Some,
    ensures
        find_lead_in(s, from) == Some(at),
    decreases at - from,
{
    if from < at {
        lemma_find_lead_in_skips(s, from + 1, at);
    }
}

} // verus!
