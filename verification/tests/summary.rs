use my_weather::summary::remap_html;
use my_weather::text::{chars_of, find, occurs_at, replace_all, rfind, trim_bounds};
use my_weather::types::{to_forecast, ForecastEntry};
use my_weather::{Category, Entry, Term};

fn entry(term: Term, title: &str, summary: &str) -> Entry {
    Entry { title: title.to_string(), category: Category { term }, summary: summary.to_string() }
}

#[test]
fn markup_of_the_feed_is_taken_out() {
    assert_eq!(
        remap_html("Sunny. High minus 3&deg;C. Wind chill plus 2. <br/>Low zero.<br/>"),
        "Sunny.\nHigh -3°C.\nWind chill 2.\nLow zero."
    );
    assert_eq!(remap_html(""), "");
    assert_eq!(remap_html("Nothing to do"), "Nothing to do");
    // Each replacement sees the result of the one before.
    assert_eq!(remap_html("a.<br/> b"), "a.\nb");
    assert_eq!(remap_html("pl<br/>us 5"), "5");
    assert_eq!(remap_html("&de<br/>g;"), "&deg;");
}

#[test]
fn replacement_takes_occurrences_from_the_left() {
    assert_eq!(replace_all("aaaa", "aa", "b"), "bb");
    assert_eq!(replace_all("aaa", "aa", "b"), "ba");
    assert_eq!(replace_all("abcabc", "bc", ""), "aa");
    assert_eq!(replace_all("abc", "abc", "abcabc"), "abcabc");
    assert_eq!(replace_all("abc", "x", "y"), "abc");
    assert_eq!(replace_all("", "x", "y"), "");
    assert_eq!(replace_all("°é°", "°", "deg"), "degédeg");
    assert_eq!(replace_all("abc", "", "y"), "abc");
    assert_eq!(replace_all("ab", "abc", "y"), "ab");
}

#[test]
fn summaries_of_each_kind_of_entry() {
    let out = to_forecast(vec![
        entry(Term::Warnings, "WARNING", "Snow. Heavy at times.<br/>"),
        entry(Term::Current, "Current Conditions: Light Snow, -3.4°C", "Temperature: -3.4&deg;C"),
        entry(Term::ForeCast, "Monday: Sunny. High 3.", "Sunny. High plus 3."),
        entry(Term::ForeCast, "Monday night: Clear. Low minus 9.", "Clear. Low minus 9."),
        entry(Term::ForeCast, "Tuesday: Rain. High 8.", "Rain. High 8."),
        entry(Term::ForeCast, "Wednesday night: Rain. Low 2.", "Rain. Low 2."),
    ]);
    let got: Vec<String> = out.iter().map(|e| e.summary()).collect();
    assert_eq!(
        got,
        vec![
            "Snow.\nHeavy at times.",
            "Temperature: -3.4°C",
            "<b>Day:</b>\nSunny.\nHigh 3.\n\n<b>Night:</b>\nClear.\nLow -9.",
            "<b>Day:</b>\nRain.\nHigh 8.",
            "<b>Night:</b>\nRain.\nLow 2.",
        ]
    );
    assert_eq!(ForecastEntry::Future { sequence: 0, day: None, night: None }.summary(), "");
}

#[test]
fn searching_text() {
    let text = chars_of("a, b, c");
    assert_eq!(text, vec!['a', ',', ' ', 'b', ',', ' ', 'c']);
    assert!(occurs_at(&text, 1, ", "));
    assert!(!occurs_at(&text, 0, ", "));
    assert!(!occurs_at(&text, 6, "c "));
    assert!(occurs_at(&text, 7, ""));
    assert_eq!(find(&text, 0, ", "), Some(1));
    assert_eq!(find(&text, 2, ", "), Some(4));
    assert_eq!(find(&text, 5, ", "), None);
    assert_eq!(find(&text, 7, ""), Some(7));
    assert_eq!(rfind(&text, ", "), Some(4));
    assert_eq!(rfind(&text, "a"), Some(0));
    assert_eq!(rfind(&text, "d"), None);
    assert_eq!(rfind(&text, ""), Some(7));
}

#[test]
fn trimming_drops_unicode_whitespace() {
    let text = chars_of(" \t\n\u{a0}\u{2003}x y\u{3000}\r ");
    assert_eq!(trim_bounds(&text, 0, text.len()), (5, 8));
    assert_eq!(trim_bounds(&text, 6, text.len()), (7, 8));
    assert_eq!(trim_bounds(&text, 0, 5), (5, 5));
    assert_eq!(trim_bounds(&text, 8, 8), (8, 8));
    let untouched = chars_of("\u{200b}x\u{feff}");
    assert_eq!(trim_bounds(&untouched, 0, 3), (0, 3));
    for c in 0..=0x10ffffu32 {
        if let Some(c) = char::from_u32(c) {
            let one = [c];
            assert_eq!(trim_bounds(&one, 0, 1) == (1, 1), c.is_whitespace(), "{c:?}");
        }
    }
}
