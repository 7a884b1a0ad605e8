//! Grouping the entries of a feed into one record per day.
//!
//! Entries that report the current conditions or a warning are kept as they
//! come. The forecasts for the day and the night of one weekday are merged
//! into a single record, which stands where the weekday was first seen
//! among the forecasts; all such records follow the other entries.
use vstd::prelude::*;
use std::str::FromStr;
use crate::feed::{Entry, EntryView, Term};
use crate::forecast::{
    CurrentForecast, CurrentForecastView, DayNight, DayOfWeek, Forecast, ForecastView,
};
use crate::grouping_laws::{lemma_futures_step, lemma_immediates_step, lemma_record_of};
use crate::parsers::{current_conditions, read_weekday, title_forecast, weekday_at};
use crate::text::chars_of;

verus! {

/// A forecast together with the entry that it was read from.
#[derive(Debug, Clone)]
pub struct ForecastWithEntry {
    pub forecast: Forecast,
    pub entry: Entry,
}

/// What a `ForecastWithEntry` holds, with its texts as sequences.
pub struct ForecastWithEntryView {
    pub forecast: ForecastView,
    pub entry: EntryView,
}

impl View for ForecastWithEntry {
    type V = ForecastWithEntryView;

    open spec fn view(&self) -> ForecastWithEntryView {
        ForecastWithEntryView { forecast: self.forecast@, entry: self.entry@ }
    }
}

impl DeepView for ForecastWithEntry {
    type V = ForecastWithEntryView;

    open spec fn deep_view(&self) -> ForecastWithEntryView {
        self@
    }
}

/// The current conditions together with the entry that they were read from.
#[derive(Debug, Clone)]
pub struct CurrentForecastWithEntry {
    pub current: CurrentForecast,
    pub entry: Entry,
}

/// What a `CurrentForecastWithEntry` holds, with its texts as sequences.
pub struct CurrentForecastWithEntryView {
    pub current: CurrentForecastView,
    pub entry: EntryView,
}

impl View for CurrentForecastWithEntry {
    type V = CurrentForecastWithEntryView;

    open spec fn view(&self) -> CurrentForecastWithEntryView {
        CurrentForecastWithEntryView { current: self.current@, entry: self.entry@ }
    }
}

impl DeepView for CurrentForecastWithEntry {
    type V = CurrentForecastWithEntryView;

    open spec fn deep_view(&self) -> CurrentForecastWithEntryView {
        self@
    }
}

/// One item of the grouped forecast.
#[derive(Debug, Clone)]
pub enum ForecastEntry {
    /// A warning or watch, as the feed carries it.
    Warning(Entry),
    /// The conditions observed at the time of the bulletin.
    Current(CurrentForecastWithEntry),
    /// The forecast for one weekday. `sequence` is the position in the feed
    /// of the first forecast for that weekday.
    Future { sequence: usize, day: Option<ForecastWithEntry>, night: Option<ForecastWithEntry> },
}

/// What a `ForecastEntry` holds, with its texts as sequences.
pub enum ForecastEntryView {
    Warning(EntryView),
    Current(CurrentForecastWithEntryView),
    Future { sequence: int, day: Option<ForecastWithEntryView>, night: Option<ForecastWithEntryView> },
}

impl View for ForecastEntry {
    type V = ForecastEntryView;

    open spec fn view(&self) -> ForecastEntryView {
        match self {
            ForecastEntry::Warning(entry) => ForecastEntryView::Warning(entry@),
            ForecastEntry::Current(current) => ForecastEntryView::Current(current@),
            ForecastEntry::Future { sequence, day, night } => ForecastEntryView::Future {
                sequence: *sequence as int,
                day: day.deep_view(),
                night: night.deep_view(),
            },
        }
    }
}

impl DeepView for ForecastEntry {
    type V = ForecastEntryView;

    open spec fn deep_view(&self) -> ForecastEntryView {
        self@
    }
}

impl ForecastEntryView {
    /// The weekday that a record for a day is about: that of its day
    /// forecast, or else that of its night forecast.
    pub open spec fn day_of_week(self) -> Option<DayOfWeek> {
        match self {
            ForecastEntryView::Future { day: Some(d), .. } => Some(d.forecast.day_of_week),
            ForecastEntryView::Future { day: None, night: Some(n), .. } => Some(
                n.forecast.day_of_week,
            ),
            _ => None,
        }
    }

    /// The record with `slot` put in the place that its forecast is for,
    /// the day or the night, instead of what was there.
    pub open spec fn filled(self, slot: ForecastWithEntryView) -> ForecastEntryView {
        match self {
            ForecastEntryView::Future { sequence, day, night } => {
                if slot.forecast.day == DayNight::Day {
                    ForecastEntryView::Future { sequence, day: Some(slot), night }
                } else {
                    ForecastEntryView::Future { sequence, day, night: Some(slot) }
                }
            },
            other => other,
        }
    }

    /// The record for a day that holds nothing but `slot`.
    pub open spec fn opening(sequence: int, slot: ForecastWithEntryView) -> ForecastEntryView {
        (ForecastEntryView::Future { sequence, day: None, night: None }).filled(slot)
    }
}

/// The key that the forecasts of one day are grouped under: the weekday that
/// the title of a forecast entry begins with.
pub open spec fn day_key(e: EntryView) -> Option<DayOfWeek> {
    if e.term == Term::ForeCast {
        weekday_at(e.title, 0)
    } else {
        None
    }
}

/// The forecast that an entry adds to the record of its day: that of its
/// title, where the entry is filed under forecasts, has a day key, and its
/// title is a forecast line.
pub open spec fn future_forecast(e: EntryView) -> Option<ForecastView> {
    match (day_key(e), title_forecast(e.title)) {
        (Some(_), Ok((forecast, _))) => Some(forecast),
        _ => None,
    }
}

/// The entry adds a forecast to the record of the given weekday.
pub open spec fn is_for(e: EntryView, day_of_week: DayOfWeek) -> bool {
    future_forecast(e) matches Some(f) && f.day_of_week == day_of_week
}

/// The entry adds a forecast for the given half of the given weekday.
pub open spec fn fills(e: EntryView, day_of_week: DayOfWeek, day: DayNight) -> bool {
    future_forecast(e) matches Some(f) && f.day_of_week == day_of_week && f.day == day
}

/// The entry at position `i` is the first that adds a forecast for its
/// weekday.
pub open spec fn opens_day(entries: Seq<EntryView>, i: int) -> bool {
    &&& 0 <= i < entries.len()
    &&& future_forecast(entries[i]) is Some
    &&& forall|j: int|
        0 <= j < i ==> !is_for(#[trigger] entries[j], future_forecast(entries[i])->0.day_of_week)
}

/// The last of the entries that adds a forecast for the given half of the
/// given weekday, with that forecast.
pub open spec fn latest(entries: Seq<EntryView>, day_of_week: DayOfWeek, day: DayNight) -> Option<
    ForecastWithEntryView,
>
    decreases entries.len(),
{
    if entries.len() == 0 {
        None
    } else if fills(entries.last(), day_of_week, day) {
        Some(
            ForecastWithEntryView {
                forecast: future_forecast(entries.last())->0,
                entry: entries.last(),
            },
        )
    } else {
        latest(entries.drop_last(), day_of_week, day)
    }
}

/// The record for the weekday that the entry at position `i` is about: it
/// is filed at `i`, and holds the latest day and night forecasts for that
/// weekday.
pub open spec fn day_record(entries: Seq<EntryView>, i: int) -> ForecastEntryView {
    let day_of_week = future_forecast(entries[i])->0.day_of_week;
    ForecastEntryView::Future {
        sequence: i,
        day: latest(entries, day_of_week, DayNight::Day),
        night: latest(entries, day_of_week, DayNight::Night),
    }
}

/// The records for the weekdays first seen before position `n`, in the order
/// in which the weekdays were first seen.
pub open spec fn futures_before(entries: Seq<EntryView>, n: int) -> Seq<ForecastEntryView>
    decreases n,
{
    if n <= 0 {
        Seq::empty()
    } else if opens_day(entries, n - 1) {
        futures_before(entries, n - 1).push(day_record(entries, n - 1))
    } else {
        futures_before(entries, n - 1)
    }
}

/// One record for each weekday that the entries hold a forecast for, in the
/// order in which the weekdays were first seen.
pub open spec fn futures(entries: Seq<EntryView>) -> Seq<ForecastEntryView> {
    futures_before(entries, entries.len() as int)
}

/// What an entry adds to the output right away: a warning always, the
/// current conditions where its title reports them, a forecast never.
pub open spec fn immediate(e: EntryView) -> Option<ForecastEntryView> {
    match e.term {
        Term::Warnings => Some(ForecastEntryView::Warning(e)),
        Term::Current => match current_conditions(e.title) {
            Ok((current, _)) => Some(
                ForecastEntryView::Current(CurrentForecastWithEntryView { current, entry: e }),
            ),
            Err(_) => None,
        },
        Term::ForeCast => None,
    }
}

/// The warnings and current conditions among the entries, in the order of
/// the feed.
pub open spec fn immediates(entries: Seq<EntryView>) -> Seq<ForecastEntryView> {
    entries.filter_map(|e: EntryView| immediate(e))
}

/// The grouped forecast of a feed: the warnings and current conditions in
/// the order of the feed, then the records of the days.
pub open spec fn grouped(entries: Seq<EntryView>) -> Seq<ForecastEntryView> {
    immediates(entries) + futures(entries)
}

/// The position of the first record for the given weekday, if there is one.
pub open spec fn record_of(records: Seq<ForecastEntryView>, day_of_week: DayOfWeek) -> Option<int>
    decreases records.len(),
{
    if records.len() == 0 {
        None
    } else {
        match record_of(records.drop_last(), day_of_week) {
            Some(k) => Some(k),
            None => if records.last().day_of_week() == Some(day_of_week) {
                Some(records.len() - 1)
            } else {
                None
            },
        }
    }
}

/// The records of the days with one more forecast merged in: put into the
/// record of its weekday, in place of what that record held for the same
/// half of the day; or, where no record is about that weekday, in a new
/// record at the end, filed at position `index`.
pub open spec fn merged(records: Seq<ForecastEntryView>, slot: ForecastWithEntryView, index: int)
    -> Seq<ForecastEntryView> {
    match record_of(records, slot.forecast.day_of_week) {
        Some(k) => records.update(k, records[k].filled(slot)),
        None => records.push(ForecastEntryView::opening(index, slot)),
    }
}

/// The records of the days after one more entry, which stands at position
/// `index` of the feed, has been taken in: unchanged where the entry adds no
/// forecast, and with its forecast merged in where it adds one.
pub open spec fn absorbed(records: Seq<ForecastEntryView>, e: EntryView, index: int) -> Seq<
    ForecastEntryView,
> {
    match future_forecast(e) {
        None => records,
        Some(forecast) => merged(records, ForecastWithEntryView { forecast, entry: e }, index),
    }
}

/// An entry that no day can be told from: it is not filed under forecasts,
/// or its title does not begin with the name of a weekday.
#[derive(Debug, Copy, Clone, PartialEq, Eq, Structural)]
pub struct UnrecognizedDayKey;

/// Tells the day that a forecast entry is to be grouped under.
pub fn read_day_key(entry: &Entry) -> (r: Result<DayOfWeek, UnrecognizedDayKey>)
    ensures
        match day_key(entry@) {
            Some(day_of_week) => r == Ok::<DayOfWeek, UnrecognizedDayKey>(day_of_week),
            None => r is Err,
        },
{
    match entry.category.term {
        Term::ForeCast => {
            let chars = chars_of(entry.title.as_str());
            match read_weekday(chars.as_slice(), 0) {
                Some((day_of_week, _)) => Ok(day_of_week),
                None => Err(UnrecognizedDayKey),
            }
        },
        _ => Err(UnrecognizedDayKey),
    }
}

/// Reads the forecast that an entry adds to the record of a day, with the
/// key of that day. Gives nothing for an entry without a day key, and for
/// one whose title is not a forecast line.
pub fn parse_future_forecast(entry: &Entry) -> (r: Option<(DayOfWeek, Forecast)>)
    ensures
        match future_forecast(entry@) {
            Some(forecast) => r matches Some((key, value)) && value@ == forecast && key
                == forecast.day_of_week,
            None => r is None,
        },
{
    let day_key = match read_day_key(entry) {
        Ok(key) => key,
        Err(_) => {
            return None;
        },
    };
    match Forecast::from_str(entry.title.as_str()) {
        Ok(forecast) => Some((day_key, forecast)),
        Err(_) => None,
    }
}

impl ForecastEntry {
    /// The weekday that a record for a day is about; nothing for a warning,
    /// for the current conditions, and for a record that holds no forecast.
    pub fn day_of_week(&self) -> (d: Option<DayOfWeek>)
        ensures
            d == self@.day_of_week(),
    {
        match self {
            ForecastEntry::Future { day: Some(d), .. } => Some(d.forecast.day_of_week),
            ForecastEntry::Future { day: None, night: Some(n), .. } => Some(
                n.forecast.day_of_week,
            ),
            _ => None,
        }
    }
}

/// Finds the first record about the given weekday.
fn find_record(records: &Vec<ForecastEntry>, day_of_week: DayOfWeek) -> (found: Option<usize>)
    ensures
        match found {
            Some(k) => record_of(records.deep_view(), day_of_week) == Some(k as int) && k
                < records.len(),
            None => record_of(records.deep_view(), day_of_week) is None,
        },
{
    let mut k: usize = 0;
    while k < records.len()
        invariant
            k <= records.len(),
            forall|j: int|
                0 <= j < k ==> (#[trigger] records.deep_view()[j]).day_of_week() != Some(
                    day_of_week,
                ),
        decreases records.len() - k,
    {
        assert(records.deep_view()[k as int] == records[k as int]@);
        match records[k].day_of_week() {
            Some(d) if d == day_of_week => {
                proof {
                    lemma_record_of(records.deep_view(), day_of_week);
                }
                return Some(k);
            },
            _ => {},
        }
        k += 1;
    }
    proof {
        lemma_record_of(records.deep_view(), day_of_week);
    }
    None
}

/// Merges one more forecast, read from the entry at position `index` of the
/// feed, into the records of the days.
fn merge(records: &mut Vec<ForecastEntry>, slot: ForecastWithEntry, index: usize)
    ensures
        final(records).deep_view() == merged(old(records).deep_view(), slot@, index as int),
{
    let is_day = slot.forecast.day == DayNight::Day;
    match find_record(records, slot.forecast.day_of_week) {
        Some(k) => {
            match &mut records[k] {
                ForecastEntry::Future { day, night, .. } => {
                    if is_day {
                        *day = Some(slot);
                    } else {
                        *night = Some(slot);
                    }
                },
                _ => {},
            }
        },
        None => {
            let (day, night) = if is_day {
                (Some(slot), None)
            } else {
                (None, Some(slot))
            };
            records.push(ForecastEntry::Future { sequence: index, day, night });
        },
    }
}

/// Groups the entries of a feed: the warnings and current conditions first,
/// in the order of the feed, then one record for each weekday that has a
/// forecast, in the order in which the weekdays first appear.
///
/// An entry whose title cannot be read is left out, and the rest is grouped
/// as if it stood in the feed without a forecast of its own.
pub fn to_forecast(entries: Vec<Entry>) -> (out: Vec<ForecastEntry>)
    ensures
        out.deep_view() == grouped(entries.deep_view()),
{
    let ghost all = entries.deep_view();
    let mut result: Vec<ForecastEntry> = Vec::new();
    let mut days: Vec<ForecastEntry> = Vec::new();
    let mut index: usize = 0;
    proof {
        assert(all.len() == entries.len());
    }
    for entry in it: entries.into_iter()
        invariant
            it.seq().len() == all.len() <= usize::MAX,
            forall|i: int| 0 <= i < all.len() ==> (#[trigger] it.seq()[i])@ == all[i],
            index == it.index(),
            result.deep_view() == immediates(all.take(index as int)),
            days.deep_view() == futures(all.take(index as int)),
    {
        proof {
            let seen = all.take(index as int);
            assert(all.take(index + 1) =~= seen.push(entry@));
            lemma_immediates_step(seen, entry@);
            lemma_futures_step(seen, entry@);
        }
        match entry.category.term {
            Term::Current => {
                match CurrentForecast::from_str(entry.title.as_str()) {
                    Ok(current) => {
                        result.push(
                            ForecastEntry::Current(CurrentForecastWithEntry { current, entry }),
                        );
                    },
                    Err(_) => {},
                }
            },
            Term::Warnings => {
                result.push(ForecastEntry::Warning(entry));
            },
            Term::ForeCast => {
                match parse_future_forecast(&entry) {
                    Some((_, forecast)) => {
                        merge(&mut days, ForecastWithEntry { forecast, entry }, index);
                    },
                    None => {},
                }
            },
        }
        index += 1;
    }
    proof {
        assert(all.take(all.len() as int) =~= all);
    }
    result.append(&mut days);
    result
}

} // verus!
