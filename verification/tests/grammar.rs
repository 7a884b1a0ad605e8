use my_weather::parsers::{
    parse_current_forecast, parse_description, parse_day_night, parse_day_of_week,
    parse_forecast, parse_number, parse_signed_number, parse_temp,
};
use my_weather::types::{
    Celsius, CurrentFailure, CurrentForecast, CurrentForecastError, DayNight, DayOfWeek, Decimal,
    Fahrenheit, Forecast, NumberParseError, Temperature, TemperaturePhraseError, TitleFailure,
    TitleParseError,
};
use std::marker::PhantomData;
use std::str::FromStr;

fn dec(unscaled: i64, scale: u8) -> Decimal {
    Decimal { unscaled, scale }
}

#[test]
fn number_in_words_gives_value_and_rest() {
    assert_eq!(parse_number("minus 9."), Ok((".", dec(-9, 0))));
    assert_eq!(parse_number("plus 2."), Ok((".", dec(2, 0))));
    assert_eq!(parse_number("6. POP 40%"), Ok((". POP 40%", dec(6, 0))));
    assert_eq!(parse_number("minus   12 in the afternoon"), Ok((" in the afternoon", dec(-12, 0))));
    assert_eq!(parse_number("minus\t7"), Ok(("", dec(-7, 0))));
    assert_eq!(parse_number("  5"), Ok(("", dec(5, 0))));
    assert_eq!(parse_number("007"), Ok(("", dec(7, 0))));
}

#[test]
fn number_in_words_may_have_a_fraction() {
    assert_eq!(parse_number("minus 3.5."), Ok((".", dec(-35, 1))));
    assert_eq!(parse_number("12.25 rest"), Ok((" rest", dec(1225, 2))));
    assert_eq!(parse_number("3.40"), Ok(("", dec(340, 2))));
    // A point with no digit after it ends the number before the point.
    assert_eq!(parse_number("3.x"), Ok((".x", dec(3, 0))));
    assert_eq!(parse_number("3."), Ok((".", dec(3, 0))));
}

#[test]
fn zero_is_zero_whatever_follows() {
    assert_eq!(parse_number("zero."), Ok((".", dec(0, 0))));
    assert_eq!(parse_number("zero by morning."), Ok((" by morning.", dec(0, 0))));
    assert_eq!(parse_number("zero 5 left"), Ok((" left", dec(0, 0))));
    assert_eq!(parse_number("zero5.25!"), Ok(("!", dec(0, 0))));
    assert_eq!(parse_number("zero 12345678901234567890123"), Ok(("", dec(0, 0))));
    assert_eq!(parse_number("zero"), Ok(("", dec(0, 0))));
}

#[test]
fn number_without_digits_is_refused() {
    assert_eq!(parse_number("minus."), Err(NumberParseError::MissingDigits));
    assert_eq!(parse_number("plus"), Err(NumberParseError::MissingDigits));
    assert_eq!(parse_number(""), Err(NumberParseError::MissingDigits));
    assert_eq!(parse_number("near 5"), Err(NumberParseError::MissingDigits));
    assert_eq!(parse_number(" minus 5"), Err(NumberParseError::MissingDigits));
    assert_eq!(parse_number("-5"), Err(NumberParseError::MissingDigits));
    assert_eq!(parse_number("Minus 5"), Err(NumberParseError::MissingDigits));
}

#[test]
fn number_with_too_many_digits_is_refused() {
    assert_eq!(parse_number("123456789012345678"), Ok(("", dec(123456789012345678, 0))));
    assert_eq!(parse_number("minus 999999999999999999"), Ok(("", dec(-999999999999999999, 0))));
    assert_eq!(parse_number("1234567890123456789"), Err(NumberParseError::TooManyDigits));
    assert_eq!(parse_number("1.234567890123456789"), Err(NumberParseError::TooManyDigits));
    assert_eq!(parse_number("1.23456789012345678"), Ok(("", dec(123456789012345678, 17))));
    assert_eq!(parse_number("000000000000000000000001"), Err(NumberParseError::TooManyDigits));
    assert_eq!(parse_signed_number("-1234567890123456789"), Err(NumberParseError::TooManyDigits));
}

#[test]
fn number_in_figures_gives_value_and_rest() {
    assert_eq!(parse_signed_number("-3.4°C"), Ok(("°C", dec(-34, 1))));
    assert_eq!(parse_signed_number("12°C"), Ok(("°C", dec(12, 0))));
    assert_eq!(parse_signed_number("  -7  °C"), Ok(("°C", dec(-7, 0))));
    assert_eq!(parse_signed_number("0.5"), Ok(("", dec(5, 1))));
    assert_eq!(parse_signed_number("-0"), Ok(("", dec(0, 0))));
    assert_eq!(parse_signed_number("4. "), Ok((". ", dec(4, 0))));
}

#[test]
fn number_in_figures_without_digits_is_refused() {
    assert_eq!(parse_signed_number("°C"), Err(NumberParseError::MissingDigits));
    assert_eq!(parse_signed_number("--3"), Err(NumberParseError::MissingDigits));
    assert_eq!(parse_signed_number("- 3"), Err(NumberParseError::MissingDigits));
    assert_eq!(parse_signed_number("minus 3"), Err(NumberParseError::MissingDigits));
    assert_eq!(parse_signed_number(".5"), Err(NumberParseError::MissingDigits));
    assert_eq!(parse_signed_number(""), Err(NumberParseError::MissingDigits));
}

#[test]
fn each_lead_in_gives_its_role() {
    let high = |n| Temperature::<Celsius>::High(dec(n, 0), PhantomData);
    let low = |n| Temperature::<Celsius>::Low(dec(n, 0), PhantomData);
    assert_eq!(parse_temp::<Celsius>("High 6."), Ok((".", high(6))));
    assert_eq!(parse_temp::<Celsius>("Temperature steady near minus 1."), Ok((".", high(-1))));
    assert_eq!(parse_temp::<Celsius>("Temperature rising to zero by morning."), Ok((" by morning.", high(0))));
    assert_eq!(parse_temp::<Celsius>("Low minus 9."), Ok((".", low(-9))));
    assert_eq!(parse_temp::<Celsius>("Temperature falling to minus 3 in the afternoon."), Ok((" in the afternoon.", low(-3))));
    assert_eq!(
        parse_temp::<Fahrenheit>("High 40."),
        Ok((".", Temperature::<Fahrenheit>::High(dec(40, 0), PhantomData)))
    );
}

#[test]
fn blanks_between_lead_in_and_number_are_optional() {
    let high = |n| Temperature::<Celsius>::High(dec(n, 0), PhantomData);
    assert_eq!(parse_temp::<Celsius>("High6"), Ok(("", high(6))));
    assert_eq!(parse_temp::<Celsius>("High   minus 6"), Ok(("", high(-6))));
    assert_eq!(parse_temp::<Celsius>("High \t plus  6"), Ok(("", high(6))));
}

#[test]
fn temperature_phrase_errors() {
    assert_eq!(parse_temp::<Celsius>("Sunny. High 6."), Err(TemperaturePhraseError::MissingLeadIn));
    assert_eq!(parse_temp::<Celsius>("high 6."), Err(TemperaturePhraseError::MissingLeadIn));
    assert_eq!(parse_temp::<Celsius>("Temperature steady 6."), Err(TemperaturePhraseError::MissingLeadIn));
    assert_eq!(parse_temp::<Celsius>(""), Err(TemperaturePhraseError::MissingLeadIn));
    assert_eq!(
        parse_temp::<Celsius>("High near 6."),
        Err(TemperaturePhraseError::Number(NumberParseError::MissingDigits))
    );
    assert_eq!(
        parse_temp::<Celsius>("Low 1234567890123456789"),
        Err(TemperaturePhraseError::Number(NumberParseError::TooManyDigits))
    );
}

#[test]
fn weekday_names_are_matched_exactly() {
    assert_eq!(parse_day_of_week("Tuesday night:"), Ok((" night:", DayOfWeek::Tuesday)));
    assert_eq!(parse_day_of_week("Wednesday"), Ok(("", DayOfWeek::Wednesday)));
    assert_eq!(parse_day_of_week("Thursday:"), Ok((":", DayOfWeek::Thursday)));
    assert_eq!(parse_day_of_week("Friday!"), Ok(("!", DayOfWeek::Friday)));
    assert_eq!(parse_day_of_week("Saturday"), Ok(("", DayOfWeek::Saturday)));
    assert_eq!(parse_day_of_week("Sundays"), Ok(("s", DayOfWeek::Sunday)));
    assert_eq!(parse_day_of_week("monday:"), Err(TitleFailure::Weekday));
    assert_eq!(parse_day_of_week(" Monday:"), Err(TitleFailure::Weekday));
    assert_eq!(parse_day_of_week("Mon"), Err(TitleFailure::Weekday));
    assert_eq!(parse_day_of_week(""), Err(TitleFailure::Weekday));
}

#[test]
fn weekday_as_str_names_the_day() {
    let days = [
        (DayOfWeek::Monday, "Monday"),
        (DayOfWeek::Tuesday, "Tuesday"),
        (DayOfWeek::Wednesday, "Wednesday"),
        (DayOfWeek::Thursday, "Thursday"),
        (DayOfWeek::Friday, "Friday"),
        (DayOfWeek::Saturday, "Saturday"),
        (DayOfWeek::Sunday, "Sunday"),
    ];
    for (day, name) in days {
        assert_eq!(day.as_str(), name);
        assert_eq!(parse_day_of_week(day.as_str()), Ok(("", day)));
    }
}

#[test]
fn day_and_night_markers() {
    assert_eq!(parse_day_night(": Sunny"), Ok((" Sunny", DayNight::Day)));
    assert_eq!(parse_day_night(" night: Clear"), Ok((" Clear", DayNight::Night)));
    assert_eq!(parse_day_night("night: Clear"), Ok((" Clear", DayNight::Night)));
    assert_eq!(parse_day_night("  \tnight:"), Ok(("", DayNight::Night)));
    assert_eq!(parse_day_night(" : Sunny"), Err(TitleFailure::DayNight));
    assert_eq!(parse_day_night(" Night:"), Err(TitleFailure::DayNight));
    assert_eq!(parse_day_night(" night"), Err(TitleFailure::DayNight));
    assert_eq!(parse_day_night(""), Err(TitleFailure::DayNight));
}

#[test]
fn description_runs_to_the_first_lead_in_and_is_trimmed() {
    assert_eq!(parse_description(" Sunny. High zero."), Ok(("High zero.", "Sunny.")));
    assert_eq!(
        parse_description(" \t Chance of flurries.\u{a0}\n Temperature rising to minus 2"),
        Ok(("Temperature rising to minus 2", "Chance of flurries."))
    );
    assert_eq!(parse_description("Low 3"), Ok(("Low 3", "")));
    assert_eq!(parse_description("   Low 3"), Ok(("Low 3", "")));
    // The first lead-in counts, whichever it is.
    assert_eq!(parse_description("Windy. High 3. Low 1."), Ok(("High 3. Low 1.", "Windy.")));
    assert_eq!(parse_description("Windy. Low 1. High 3."), Ok(("Low 1. High 3.", "Windy.")));
    assert_eq!(parse_description("Sunny. Temperature 5."), Err(TitleFailure::Description));
    assert_eq!(parse_description(""), Err(TitleFailure::Description));
}

#[test]
fn title_gives_forecast_with_both_units() {
    let (rest, forecast) = parse_forecast::<Celsius>("Saturday: Chance of flurries. High minus 3. POP 60%").unwrap();
    assert_eq!(rest, ". POP 60%");
    assert_eq!(forecast.day_of_week, DayOfWeek::Saturday);
    assert_eq!(forecast.day, DayNight::Day);
    assert_eq!(forecast.description, "Chance of flurries.");
    assert_eq!(forecast.celsius, Temperature::High(dec(-3, 0), PhantomData));
    assert_eq!(forecast.fahrenheit, Temperature::High(dec(24, 0), PhantomData));

    let forecast = Forecast::from_str("Sunday night: Cloudy periods. Low minus 9.").unwrap();
    assert_eq!(forecast.day_of_week, DayOfWeek::Sunday);
    assert_eq!(forecast.day, DayNight::Night);
    assert_eq!(forecast.description, "Cloudy periods.");
    assert_eq!(forecast.celsius, Temperature::Low(dec(-9, 0), PhantomData));
    assert_eq!(forecast.fahrenheit, Temperature::Low(dec(12, 0), PhantomData));
}

#[test]
fn title_with_a_lead_in_inside_the_description_fails_at_that_lead_in() {
    // "Highway" holds the first lead-in, and no number follows it.
    assert_eq!(
        Forecast::from_str("Monday: Highway closed. Low 3.").unwrap_err(),
        TitleParseError(TitleFailure::Temperature(TemperaturePhraseError::Number(
            NumberParseError::MissingDigits
        )))
    );
    // "Lows" holds the first lead-in; the description before it is empty.
    let forecast = Forecast::from_str("Monday: Low 3 then High 5.").unwrap();
    assert_eq!(forecast.description, "");
    assert_eq!(forecast.celsius, Temperature::Low(dec(3, 0), PhantomData));
}

#[test]
fn title_errors_name_the_failed_step() {
    assert_eq!(
        Forecast::from_str("Someday: Sunny. High 3.").unwrap_err(),
        TitleParseError(TitleFailure::Weekday)
    );
    assert_eq!(
        Forecast::from_str("Monday Sunny. High 3.").unwrap_err(),
        TitleParseError(TitleFailure::DayNight)
    );
    assert_eq!(
        Forecast::from_str("Monday: Sunny.").unwrap_err(),
        TitleParseError(TitleFailure::Description)
    );
    assert_eq!(
        Forecast::from_str("Monday: Sunny. High unknown.").unwrap_err(),
        TitleParseError(TitleFailure::Temperature(TemperaturePhraseError::Number(
            NumberParseError::MissingDigits
        )))
    );
    assert_eq!(
        Forecast::from_str("Monday: Sunny. High 12345678901234567890.").unwrap_err(),
        TitleParseError(TitleFailure::Temperature(TemperaturePhraseError::Number(
            NumberParseError::TooManyDigits
        )))
    );
    assert_eq!(
        parse_forecast::<Celsius>("").unwrap_err(),
        TitleParseError(TitleFailure::Weekday)
    );
}

#[test]
fn current_conditions_give_description_and_temperature() {
    let (rest, current) = parse_current_forecast("Current Conditions: Light Snow, -3.4°C").unwrap();
    assert_eq!(rest, "°C");
    assert_eq!(current.description, "Light Snow");
    assert_eq!(current.celsius, Temperature::Current(dec(-34, 1), PhantomData));
    assert_eq!(current.fahrenheit, Temperature::Current(dec(232, 1), PhantomData));

    // The description ends at the first ", ".
    let current = CurrentForecast::from_str("Current Conditions: Mostly Cloudy, 12, 13°C").unwrap();
    assert_eq!(current.description, "Mostly Cloudy");
    assert_eq!(current.celsius, Temperature::Current(dec(12, 0), PhantomData));
    assert_eq!(current.fahrenheit, Temperature::Current(dec(54, 0), PhantomData));
}

#[test]
fn current_conditions_description_is_not_trimmed_and_may_be_empty() {
    let current = CurrentForecast::from_str("Current Conditions:  Fog , 1.0°C").unwrap();
    assert_eq!(current.description, " Fog ");
    assert_eq!(current.celsius, Temperature::Current(dec(10, 1), PhantomData));
    let current = CurrentForecast::from_str("Current Conditions: , 7").unwrap();
    assert_eq!(current.description, "");
    assert_eq!(current.celsius, Temperature::Current(dec(7, 0), PhantomData));
}

#[test]
fn current_conditions_errors_name_the_failed_step() {
    assert_eq!(
        CurrentForecast::from_str("Conditions: Light Snow, -3.4°C").unwrap_err(),
        CurrentForecastError(CurrentFailure::Prefix)
    );
    assert_eq!(
        CurrentForecast::from_str("Current Conditions:Light Snow, -3.4°C").unwrap_err(),
        CurrentForecastError(CurrentFailure::Prefix)
    );
    assert_eq!(
        CurrentForecast::from_str("Current Conditions: Light Snow -3.4°C").unwrap_err(),
        CurrentForecastError(CurrentFailure::Separator)
    );
    assert_eq!(
        CurrentForecast::from_str("Current Conditions: Light Snow, cold").unwrap_err(),
        CurrentForecastError(CurrentFailure::Number(NumberParseError::MissingDigits))
    );
    assert_eq!(
        CurrentForecast::from_str("Current Conditions: Light Snow, windy, 12°C").unwrap_err(),
        CurrentForecastError(CurrentFailure::Number(NumberParseError::MissingDigits))
    );
    assert_eq!(
        CurrentForecast::from_str("Current Conditions: Hot, 1234567890123456789").unwrap_err(),
        CurrentForecastError(CurrentFailure::Number(NumberParseError::TooManyDigits))
    );
}

#[test]
fn written_titles_are_read_back() {
    let days = [
        DayOfWeek::Monday,
        DayOfWeek::Tuesday,
        DayOfWeek::Wednesday,
        DayOfWeek::Thursday,
        DayOfWeek::Friday,
        DayOfWeek::Saturday,
        DayOfWeek::Sunday,
    ];
    let markers = [(DayNight::Day, ":"), (DayNight::Night, " night:")];
    let leads = [
        ("High", true),
        ("Temperature steady near", true),
        ("Temperature rising to", true),
        ("Low", false),
        ("Temperature falling to", false),
    ];
    let words = [("", 1), ("plus ", 1), ("minus ", -1)];
    let numbers = [0i64, 1, 9, 10, 25, 100, 999_999_999_999_999_999];
    let descriptions = ["Sunny.", "A mix of sun and cloud.", "", "Chance of flurries. POP 40%"];
    for day_of_week in days {
        for (day, marker) in markers {
            for (lead, is_high) in leads {
                for (word, sign) in words {
                    for n in numbers {
                        for description in descriptions {
                            let title = format!(
                                "{} {description} {lead} {word}{n}. Wind up to 15 km/h.",
                                format!("{}{marker}", day_of_week.as_str())
                            );
                            let (rest, forecast) = parse_forecast::<Celsius>(&title).unwrap();
                            assert_eq!(rest, ". Wind up to 15 km/h.");
                            assert_eq!(forecast.day_of_week, day_of_week);
                            assert_eq!(forecast.day, day);
                            assert_eq!(forecast.description, description);
                            let c = dec(sign * n, 0);
                            let f = dec(2 * sign * n + 30, 0);
                            if is_high {
                                assert_eq!(forecast.celsius, Temperature::High(c, PhantomData));
                                assert_eq!(forecast.fahrenheit, Temperature::High(f, PhantomData));
                            } else {
                                assert_eq!(forecast.celsius, Temperature::Low(c, PhantomData));
                                assert_eq!(forecast.fahrenheit, Temperature::Low(f, PhantomData));
                            }
                        }
                    }
                }
            }
        }
    }
}

#[test]
fn titles_are_parsed_from_strings() {
    let forecast: Forecast = "Monday: Sunny. High zero.".parse().unwrap();
    assert_eq!(forecast.description, "Sunny.");
    assert_eq!(forecast.celsius, Temperature::High(dec(0, 0), PhantomData));
    assert_eq!(forecast.fahrenheit, Temperature::High(dec(30, 0), PhantomData));
    let current: CurrentForecast = "Current Conditions: Light Snow, -3.4°C".parse().unwrap();
    assert_eq!(current.description, "Light Snow");
    assert_eq!(
        "Monday".parse::<Forecast>().unwrap_err(),
        TitleParseError(TitleFailure::DayNight)
    );
    assert_eq!(
        "Monday".parse::<CurrentForecast>().unwrap_err(),
        CurrentForecastError(CurrentFailure::Prefix)
    );
}
