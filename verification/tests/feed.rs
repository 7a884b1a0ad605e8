use my_weather::{truncate_summary, Category, Entry, ForeCast, Term};

fn entry(term: Term, title: &str) -> Entry {
    Entry { title: title.to_string(), category: Category { term }, summary: String::new() }
}

fn titles(entries: &[Entry]) -> Vec<&str> {
    entries.iter().map(|e| e.title.as_str()).collect()
}

#[test]
fn summary_is_cut_at_the_last_time_of_issue() {
    assert_eq!(
        truncate_summary("Sunny. High 3. Forecast issued 3:45 PM EST Friday 06 January 2023"),
        "Sunny. High 3."
    );
    assert_eq!(
        truncate_summary("  A. Forecast issued early. B.  \n Forecast issued late"),
        "A. Forecast issued early. B."
    );
    assert_eq!(truncate_summary("Forecast issued now"), "");
    assert_eq!(truncate_summary(" \t Forecast issued"), "");
}

#[test]
fn summary_without_time_of_issue_is_kept_whole() {
    assert_eq!(truncate_summary("  Sunny. High 3.  "), "  Sunny. High 3.  ");
    assert_eq!(truncate_summary("forecast issued 3:45"), "forecast issued 3:45");
    assert_eq!(truncate_summary(""), "");
}

#[test]
fn placeholder_for_no_warnings_is_left_out() {
    let forecast = ForeCast::new(vec![
        entry(Term::Warnings, "No watches or warnings in effect, Montréal"),
        entry(Term::Current, "Current Conditions: Light Snow, -3.4°C"),
        entry(Term::Warnings, "SNOWFALL WARNING, Montréal"),
        entry(Term::ForeCast, "No watches or warnings in effect"),
        entry(Term::Warnings, "No watches or warnings in effect"),
        entry(Term::Warnings, " No watches or warnings in effect"),
        entry(Term::ForeCast, "Monday: Sunny. High 3."),
    ]);
    let entries = forecast.entries();
    assert_eq!(
        titles(&entries),
        vec![
            "Current Conditions: Light Snow, -3.4°C",
            "SNOWFALL WARNING, Montréal",
            "No watches or warnings in effect",
            " No watches or warnings in effect",
            "Monday: Sunny. High 3.",
        ]
    );
    assert_eq!(entries[2].category.term, Term::ForeCast);
}

#[test]
fn placeholder_is_told_by_category_and_title() {
    assert!(entry(Term::Warnings, "No watches or warnings in effect.").is_placeholder());
    assert!(!entry(Term::Warnings, "No watches or warnings").is_placeholder());
    assert!(!entry(Term::Current, "No watches or warnings in effect.").is_placeholder());
    assert!(!entry(Term::Warnings, "").is_placeholder());
}

#[test]
fn current_forecast_keeps_current_conditions_and_warnings() {
    let forecast = ForeCast::new(vec![
        entry(Term::ForeCast, "Monday: Sunny. High 3."),
        entry(Term::Warnings, "SNOWFALL WARNING"),
        entry(Term::ForeCast, "Monday night: Clear. Low minus 9."),
        entry(Term::Current, "Current Conditions: Light Snow, -3.4°C"),
    ]);
    let current = forecast.current_forecast();
    let got: Vec<&str> = current.iter().map(|e| e.title.as_str()).collect();
    assert_eq!(got, vec!["SNOWFALL WARNING", "Current Conditions: Light Snow, -3.4°C"]);
    assert_eq!(ForeCast::new(vec![]).current_forecast().len(), 0);
}

#[test]
fn entries_are_classified_by_their_term() {
    assert!(entry(Term::Warnings, "x").is_warning());
    assert!(!entry(Term::Current, "x").is_warning());
    assert!(!entry(Term::ForeCast, "x").is_warning());
    assert!(entry(Term::Warnings, "x").is_current());
    assert!(entry(Term::Current, "x").is_current());
    assert!(!entry(Term::ForeCast, "x").is_current());
}

#[test]
fn forecast_lists_its_titles_one_on_each_line() {
    let forecast = ForeCast::new(vec![
        entry(Term::Current, "Current Conditions: Light Snow, -3.4°C"),
        entry(Term::ForeCast, "Monday: Sunny. High 3."),
    ]);
    assert_eq!(
        forecast.to_string(),
        "Current Conditions: Light Snow, -3.4°C\nMonday: Sunny. High 3.\n"
    );
    assert_eq!(ForeCast::new(vec![]).to_string(), "");
    assert_eq!(entry(Term::ForeCast, "Monday: Sunny. High 3.").to_string(), "Monday: Sunny. High 3.");
}
