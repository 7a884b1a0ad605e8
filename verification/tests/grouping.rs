use my_weather::grouping::{parse_future_forecast, read_day_key};
use my_weather::types::{
    to_forecast, DayNight, DayOfWeek, Decimal, ForecastEntry, Temperature, UnrecognizedDayKey,
};
use my_weather::{Category, Entry, Term};
use std::marker::PhantomData;

fn entry(term: Term, title: &str) -> Entry {
    Entry {
        title: title.to_string(),
        category: Category { term },
        summary: format!("Summary of {title}"),
    }
}

fn forecast(title: &str) -> Entry {
    entry(Term::ForeCast, title)
}

/// The sequence, the title behind the day slot and the title behind the night slot.
fn future(entry: &ForecastEntry) -> (usize, Option<String>, Option<String>) {
    match entry {
        ForecastEntry::Future { sequence, day, night } => (
            *sequence,
            day.as_ref().map(|d| d.entry.title.clone()),
            night.as_ref().map(|n| n.entry.title.clone()),
        ),
        other => panic!("not the record of a day: {other:?}"),
    }
}

#[test]
fn empty_feed_gives_nothing() {
    assert!(to_forecast(vec![]).is_empty());
}

#[test]
fn day_then_night_share_one_record() {
    let out = to_forecast(vec![
        forecast("Monday: Sunny. High 3."),
        forecast("Monday night: Clear. Low minus 9."),
    ]);
    assert_eq!(out.len(), 1);
    assert_eq!(
        future(&out[0]),
        (
            0,
            Some("Monday: Sunny. High 3.".to_string()),
            Some("Monday night: Clear. Low minus 9.".to_string())
        )
    );
    assert_eq!(out[0].day_of_week(), Some(DayOfWeek::Monday));
}

#[test]
fn night_then_day_share_one_record() {
    let out = to_forecast(vec![
        forecast("Monday night: Clear. Low minus 9."),
        forecast("Monday: Sunny. High 3."),
    ]);
    assert_eq!(out.len(), 1);
    assert_eq!(
        future(&out[0]),
        (
            0,
            Some("Monday: Sunny. High 3.".to_string()),
            Some("Monday night: Clear. Low minus 9.".to_string())
        )
    );
}

#[test]
fn record_is_filed_where_its_weekday_was_first_seen() {
    let out = to_forecast(vec![
        entry(Term::Warnings, "SNOWFALL WARNING"),
        forecast("Tuesday night: Clear. Low minus 9."),
        forecast("Wednesday: Sunny. High 3."),
        entry(Term::Current, "Current Conditions: Light Snow, -3.4°C"),
        forecast("Wednesday night: Cloudy. Low 1."),
        forecast("Tuesday: Sunny. High 3."),
    ]);
    assert_eq!(out.len(), 4);
    assert!(matches!(&out[0], ForecastEntry::Warning(e) if e.title == "SNOWFALL WARNING"));
    assert!(matches!(&out[1], ForecastEntry::Current(c) if c.current.description == "Light Snow"));
    assert_eq!(
        future(&out[2]),
        (
            1,
            Some("Tuesday: Sunny. High 3.".to_string()),
            Some("Tuesday night: Clear. Low minus 9.".to_string())
        )
    );
    assert_eq!(
        future(&out[3]),
        (
            2,
            Some("Wednesday: Sunny. High 3.".to_string()),
            Some("Wednesday night: Cloudy. Low 1.".to_string())
        )
    );
}

#[test]
fn warnings_and_current_conditions_come_before_the_days() {
    let out = to_forecast(vec![
        forecast("Friday: Snow. High minus 3."),
        entry(Term::Warnings, "FROST ADVISORY"),
        forecast("Thursday: Snow. High plus 2."),
        entry(Term::Current, "Current Conditions: Mist, 2°C"),
        forecast("Sunday night: Rain. Low 5."),
        entry(Term::Warnings, "WIND WARNING"),
        forecast("Friday night: Clear. Low minus 20."),
    ]);
    let kinds: Vec<&str> = out
        .iter()
        .map(|e| match e {
            ForecastEntry::Warning(_) => "warning",
            ForecastEntry::Current(_) => "current",
            ForecastEntry::Future { .. } => "future",
        })
        .collect();
    assert_eq!(kinds, vec!["warning", "current", "warning", "future", "future", "future"]);
    let sequences: Vec<usize> = out[3..].iter().map(|e| future(e).0).collect();
    assert_eq!(sequences, vec![0, 2, 4]);
    let days: Vec<Option<DayOfWeek>> = out.iter().map(|e| e.day_of_week()).collect();
    assert_eq!(
        days,
        vec![
            None,
            None,
            None,
            Some(DayOfWeek::Friday),
            Some(DayOfWeek::Thursday),
            Some(DayOfWeek::Sunday)
        ]
    );
    assert_eq!(
        future(&out[5]),
        (4, None, Some("Sunday night: Rain. Low 5.".to_string()))
    );
}

#[test]
fn a_later_forecast_for_the_same_slot_replaces_the_earlier() {
    let out = to_forecast(vec![
        forecast("Monday: Sunny. High 3."),
        forecast("Tuesday: Rain. High 8."),
        forecast("Monday: Cloudy. High 4."),
    ]);
    assert_eq!(out.len(), 2);
    assert_eq!(future(&out[0]), (0, Some("Monday: Cloudy. High 4.".to_string()), None));
    assert_eq!(future(&out[1]), (1, Some("Tuesday: Rain. High 8.".to_string()), None));
    match &out[0] {
        ForecastEntry::Future { day: Some(day), .. } => {
            assert_eq!(day.forecast.description, "Cloudy.");
            assert_eq!(day.forecast.day, DayNight::Day);
            assert_eq!(
                day.forecast.celsius,
                Temperature::High(Decimal { unscaled: 4, scale: 0 }, PhantomData)
            );
            assert_eq!(day.entry.summary, "Summary of Monday: Cloudy. High 4.");
        }
        other => panic!("unexpected {other:?}"),
    }
}

#[test]
fn malformed_entries_are_left_out_and_change_nothing_else() {
    let good = vec![
        entry(Term::Warnings, "SNOWFALL WARNING"),
        forecast("Monday: Sunny. High 3."),
        entry(Term::Current, "Current Conditions: Light Snow, -3.4°C"),
        forecast("Monday night: Clear. Low minus 9."),
        forecast("Tuesday: Rain. High 8."),
    ];
    let expected = to_forecast(good.clone());
    for bad in [
        forecast("Someday: Sunny. High 3."),
        forecast("monday: Sunny. High 3."),
        forecast("Monday: Sunny. High unknown."),
        forecast("Monday: Sunny."),
        forecast("Monday Sunny. High 3."),
        forecast(""),
        entry(Term::Current, "Current Conditions: Light Snow"),
        entry(Term::Current, "Monday: Sunny. High 3."),
    ] {
        for at in 0..=good.len() {
            let mut feed = good.clone();
            feed.insert(at, bad.clone());
            let out = to_forecast(feed);
            assert_eq!(out.len(), expected.len());
            for (got, want) in out.iter().zip(expected.iter()) {
                match (got, want) {
                    (ForecastEntry::Warning(a), ForecastEntry::Warning(b)) => {
                        assert_eq!(a.title, b.title)
                    }
                    (ForecastEntry::Current(a), ForecastEntry::Current(b)) => {
                        assert_eq!(a.entry.title, b.entry.title)
                    }
                    (ForecastEntry::Future { .. }, ForecastEntry::Future { .. }) => {
                        let (sequence, day, night) = future(want);
                        let moved = if sequence >= at { sequence + 1 } else { sequence };
                        assert_eq!(future(got), (moved, day, night));
                    }
                    _ => panic!("{got:?} where {want:?} was expected"),
                }
            }
        }
    }
}

#[test]
fn a_feed_of_malformed_entries_gives_nothing() {
    let out = to_forecast(vec![
        forecast("Someday: Sunny. High 3."),
        entry(Term::Current, "Nothing current"),
        forecast("Monday: Sunny. High."),
    ]);
    assert!(out.is_empty());
}

#[test]
fn warning_is_kept_whatever_its_title() {
    let out = to_forecast(vec![entry(Term::Warnings, "Monday: Sunny. High 3."), entry(Term::Warnings, "")]);
    assert_eq!(out.len(), 2);
    assert!(matches!(&out[0], ForecastEntry::Warning(e) if e.title == "Monday: Sunny. High 3."));
    assert!(matches!(&out[1], ForecastEntry::Warning(e) if e.title.is_empty()));
}

#[test]
fn forecast_titles_under_other_categories_open_no_day() {
    let out = to_forecast(vec![
        entry(Term::Current, "Monday: Sunny. High 3."),
        forecast("Current Conditions: Light Snow, -3.4°C"),
    ]);
    assert!(out.is_empty());
}

#[test]
fn all_seven_days_keep_their_order() {
    let titles = [
        "Thursday night: Clear. Low 1.",
        "Friday: Sunny. High 2.",
        "Friday night: Clear. Low 3.",
        "Saturday: Sunny. High 4.",
        "Saturday night: Clear. Low 5.",
        "Sunday: Sunny. High 6.",
        "Sunday night: Clear. Low 7.",
        "Monday: Sunny. High 8.",
        "Monday night: Clear. Low 9.",
        "Tuesday: Sunny. High 10.",
        "Tuesday night: Clear. Low 11.",
        "Wednesday: Sunny. High 12.",
    ];
    let out = to_forecast(titles.iter().map(|t| forecast(t)).collect());
    let got: Vec<(usize, Option<DayOfWeek>)> =
        out.iter().map(|e| (future(e).0, e.day_of_week())).collect();
    assert_eq!(
        got,
        vec![
            (0, Some(DayOfWeek::Thursday)),
            (1, Some(DayOfWeek::Friday)),
            (3, Some(DayOfWeek::Saturday)),
            (5, Some(DayOfWeek::Sunday)),
            (7, Some(DayOfWeek::Monday)),
            (9, Some(DayOfWeek::Tuesday)),
            (11, Some(DayOfWeek::Wednesday)),
        ]
    );
    assert_eq!(future(&out[0]).1, None);
    assert_eq!(future(&out[6]).2, None);
}

#[test]
fn day_key_is_the_weekday_of_a_forecast_entry() {
    assert_eq!(read_day_key(&forecast("Monday: Sunny. High 3.")), Ok(DayOfWeek::Monday));
    assert_eq!(read_day_key(&forecast("Sunday and nothing else")), Ok(DayOfWeek::Sunday));
    assert_eq!(read_day_key(&forecast("A Monday")), Err(UnrecognizedDayKey));
    assert_eq!(read_day_key(&forecast("")), Err(UnrecognizedDayKey));
    assert_eq!(
        read_day_key(&entry(Term::Current, "Monday: Sunny. High 3.")),
        Err(UnrecognizedDayKey)
    );
    assert_eq!(
        read_day_key(&entry(Term::Warnings, "Monday: Sunny. High 3.")),
        Err(UnrecognizedDayKey)
    );
}

#[test]
fn future_forecast_needs_a_key_and_a_forecast_line() {
    let (key, forecast_read) = parse_future_forecast(&forecast("Friday night: Clear. Low minus 20.")).unwrap();
    assert_eq!(key, DayOfWeek::Friday);
    assert_eq!(forecast_read.day_of_week, DayOfWeek::Friday);
    assert_eq!(forecast_read.day, DayNight::Night);
    assert!(parse_future_forecast(&forecast("Friday night: Clear.")).is_none());
    assert!(parse_future_forecast(&forecast("Clear. Low minus 20.")).is_none());
    assert!(parse_future_forecast(&entry(Term::Current, "Friday night: Clear. Low minus 20.")).is_none());
}

#[test]
fn record_without_forecasts_is_about_no_day() {
    let empty = ForecastEntry::Future { sequence: 3, day: None, night: None };
    assert_eq!(empty.day_of_week(), None);
    assert_eq!(ForecastEntry::Warning(entry(Term::Warnings, "x")).day_of_week(), None);
}
