//! What holds of the grouped forecast of every feed.
use vstd::prelude::*;
use crate::feed::EntryView;
use crate::forecast::{DayNight, DayOfWeek};
use crate::grouping::{
    absorbed, day_record, fills, future_forecast, futures, futures_before, grouped, immediate,
    immediates, is_for, latest, opens_day, record_of, ForecastEntryView, ForecastWithEntryView,
};

verus! {

/// The position in the feed that a record for a day is filed at; `-1` for
/// the other kinds of record.
pub open spec fn sequence_of(record: ForecastEntryView) -> int {
    match record {
        ForecastEntryView::Future { sequence, .. } => sequence,
        _ => -1,
    }
}

/// One more entry at the end of the feed adds what it shows right away, if
/// anything, at the end of what the feed showed before.
pub proof fn lemma_immediates_step(entries: Seq<EntryView>, e: EntryView)
    ensures
        immediates(entries.push(e)) == match immediate(e) {
            Some(shown) => immediates(entries).push(shown),
            None => immediates(entries),
        },
{
    assert(entries.push(e).drop_last() =~= entries);
}

/// The latest forecast for one half of a weekday is for that half of that
/// weekday, and there is one exactly if some entry adds one.
pub proof fn lemma_latest(entries: Seq<EntryView>, day_of_week: DayOfWeek, day: DayNight)
    ensures
        match latest(entries, day_of_week, day) {
            Some(slot) => {
                &&& slot.forecast.day_of_week == day_of_week
                &&& slot.forecast.day == day
                &&& future_forecast(slot.entry) == Some(slot.forecast)
                &&& entries.contains(slot.entry)
            },
            None => forall|j: int|
                0 <= j < entries.len() ==> !fills(#[trigger] entries[j], day_of_week, day),
        },
    decreases entries.len(),
{
    if entries.len() > 0 {
        if fills(entries.last(), day_of_week, day) {
            assert(entries[entries.len() - 1] == entries.last());
        } else {
            let rest = entries.drop_last();
            lemma_latest(rest, day_of_week, day);
            match latest(rest, day_of_week, day) {
                Some(slot) => {
                    let j = choose|j: int| 0 <= j < rest.len() && rest[j] == slot.entry;
                    assert(entries[j] == slot.entry);
                },
                None => {
                    assert forall|j: int| 0 <= j < entries.len() implies !fills(
                        #[trigger] entries[j],
                        day_of_week,
                        day,
                    ) by {
                        if j < rest.len() {
                            assert(rest[j] == entries[j]);
                        }
                    }
                },
            }
        }
    }
}

/// The record that an entry opens is about the weekday of that entry.
pub proof fn lemma_record_day(entries: Seq<EntryView>, i: int)
    requires
        0 <= i < entries.len(),
        future_forecast(entries[i]) is Some,
    ensures
        day_record(entries, i).day_of_week() == Some(future_forecast(entries[i])->0.day_of_week),
{
    let f = future_forecast(entries[i])->0;
    lemma_latest(entries, f.day_of_week, DayNight::Day);
    lemma_latest(entries, f.day_of_week, DayNight::Night);
    assert(fills(entries[i], f.day_of_week, f.day));
}

/// Before the first entry for a weekday stands no other; so among the
/// entries up to any entry for a weekday, one opens that weekday.
pub proof fn lemma_first_opener(entries: Seq<EntryView>, day_of_week: DayOfWeek, j: int) -> (i:
    int)
    requires
        0 <= j < entries.len(),
        is_for(entries[j], day_of_week),
    ensures
        0 <= i <= j,
        opens_day(entries, i),
        is_for(entries[i], day_of_week),
    decreases j,
{
    if exists|k: int| 0 <= k < j && is_for(#[trigger] entries[k], day_of_week) {
        let k = choose|k: int| 0 <= k < j && is_for(#[trigger] entries[k], day_of_week);
        lemma_first_opener(entries, day_of_week, k)
    } else {
        j
    }
}

/// The records of the days are those of the entries that open a weekday,
/// each filed at the position of its entry, in the order of the feed.
pub proof fn lemma_futures_shape(entries: Seq<EntryView>, n: int)
    requires
        0 <= n <= entries.len(),
    ensures
        forall|k: int|
            0 <= k < futures_before(entries, n).len() ==> {
                let record = #[trigger] futures_before(entries, n)[k];
                &&& record is Future
                &&& 0 <= sequence_of(record) < n
                &&& opens_day(entries, sequence_of(record))
                &&& record == day_record(entries, sequence_of(record))
            },
        forall|k1: int, k2: int|
            0 <= k1 < k2 < futures_before(entries, n).len() ==> sequence_of(
                #[trigger] futures_before(entries, n)[k1],
            ) < sequence_of(#[trigger] futures_before(entries, n)[k2]),
        forall|i: int|
            0 <= i < n && opens_day(entries, i) ==> exists|k: int|
                0 <= k < futures_before(entries, n).len() && sequence_of(
                    #[trigger] futures_before(entries, n)[k],
                ) == i,
    decreases n,
{
    if n > 0 {
        lemma_futures_shape(entries, n - 1);
        let shorter = futures_before(entries, n - 1);
        let longer = futures_before(entries, n);
        assert forall|i: int| 0 <= i < n && opens_day(entries, i) implies exists|k: int|
            0 <= k < longer.len() && sequence_of(#[trigger] longer[k]) == i by {
            if i < n - 1 {
                let k = choose|k: int|
                    0 <= k < shorter.len() && sequence_of(#[trigger] shorter[k]) == i;
                assert(longer[k] == shorter[k]);
            } else {
                assert(sequence_of(longer[longer.len() - 1]) == i);
            }
        }
    }
}

/// No two records of the days are about the same weekday.
pub proof fn lemma_one_record_per_day(entries: Seq<EntryView>, k1: int, k2: int)
    requires
        0 <= k1 < futures(entries).len(),
        0 <= k2 < futures(entries).len(),
        futures(entries)[k1].day_of_week() == futures(entries)[k2].day_of_week(),
    ensures
        k1 == k2,
{
    let records = futures(entries);
    lemma_futures_shape(entries, entries.len() as int);
    let i1 = sequence_of(records[k1]);
    let i2 = sequence_of(records[k2]);
    lemma_record_day(entries, i1);
    lemma_record_day(entries, i2);
    let d = future_forecast(entries[i1])->0.day_of_week;
    if k1 < k2 {
        assert(is_for(entries[i1], d));
        assert(i1 < i2);
    } else if k2 < k1 {
        assert(is_for(entries[i2], d));
        assert(i2 < i1);
    }
}

/// Some record of the days is about a weekday exactly if some entry adds a
/// forecast for it.
pub proof fn lemma_record_exists(entries: Seq<EntryView>, day_of_week: DayOfWeek)
    ensures
        (exists|k: int|
            0 <= k < futures(entries).len() && (#[trigger] futures(entries)[k]).day_of_week()
                == Some(day_of_week)) <==> (exists|j: int|
            0 <= j < entries.len() && is_for(#[trigger] entries[j], day_of_week)),
{
    let records = futures(entries);
    lemma_futures_shape(entries, entries.len() as int);
    if exists|j: int| 0 <= j < entries.len() && is_for(#[trigger] entries[j], day_of_week) {
        let j = choose|j: int| 0 <= j < entries.len() && is_for(#[trigger] entries[j], day_of_week);
        let i = lemma_first_opener(entries, day_of_week, j);
        let k = choose|k: int| 0 <= k < records.len() && sequence_of(#[trigger] records[k]) == i;
        lemma_record_day(entries, i);
        assert(records[k].day_of_week() == Some(day_of_week));
    }
    if exists|k: int|
        0 <= k < records.len() && (#[trigger] records[k]).day_of_week() == Some(day_of_week) {
        let k = choose|k: int|
            0 <= k < records.len() && (#[trigger] records[k]).day_of_week() == Some(day_of_week);
        let i = sequence_of(records[k]);
        lemma_record_day(entries, i);
        assert(is_for(entries[i], day_of_week));
    }
}

/// What `record_of` returns is the position of the first record about the
/// weekday.
pub proof fn lemma_record_of(records: Seq<ForecastEntryView>, day_of_week: DayOfWeek)
    ensures
        match record_of(records, day_of_week) {
            Some(k) => {
                &&& 0 <= k < records.len()
                &&& records[k].day_of_week() == Some(day_of_week)
                &&& forall|j: int|
                    0 <= j < k ==> (#[trigger] records[j]).day_of_week() != Some(day_of_week)
            },
            None => forall|j: int|
                0 <= j < records.len() ==> (#[trigger] records[j]).day_of_week() != Some(
                    day_of_week,
                ),
        },
    decreases records.len(),
{
    if records.len() > 0 {
        let rest = records.drop_last();
        lemma_record_of(rest, day_of_week);
        match record_of(rest, day_of_week) {
            Some(k) => {
                assert(rest[k] == records[k]);
                assert forall|j: int| 0 <= j < k implies (#[trigger] records[j]).day_of_week()
                    != Some(day_of_week) by {
                    assert(rest[j] == records[j]);
                }
            },
            None => {
                assert forall|j: int| 0 <= j < records.len() - 1 implies (
                #[trigger] records[j]).day_of_week() != Some(day_of_week) by {
                    assert(rest[j] == records[j]);
                }
            },
        }
    }
}

/// The record with a later forecast taken in: filled with it where the record
/// is about the weekday of that forecast, and unchanged otherwise.
pub open spec fn refreshed(record: ForecastEntryView, e: EntryView) -> ForecastEntryView {
    match future_forecast(e) {
        Some(forecast) if record.day_of_week() == Some(forecast.day_of_week) => record.filled(
            ForecastWithEntryView { forecast, entry: e },
        ),
        _ => record,
    }
}

/// One more entry at the end of the feed changes no record that was opened
/// before it, except that it fills its place in the record of its weekday.
proof fn lemma_futures_refreshed(entries: Seq<EntryView>, e: EntryView, n: int)
    requires
        0 <= n <= entries.len(),
    ensures
        futures_before(entries.push(e), n).len() == futures_before(entries, n).len(),
        forall|k: int|
            0 <= k < futures_before(entries, n).len() ==> #[trigger] futures_before(
                entries.push(e),
                n,
            )[k] == refreshed(futures_before(entries, n)[k], e),
    decreases n,
{
    let longer = entries.push(e);
    if n > 0 {
        lemma_futures_refreshed(entries, e, n - 1);
        let i = n - 1;
        assert(longer[i] == entries[i]);
        assert(opens_day(longer, i) == opens_day(entries, i)) by {
            if future_forecast(entries[i]) is Some {
                let d = future_forecast(entries[i])->0.day_of_week;
                if opens_day(entries, i) {
                    assert forall|j: int| 0 <= j < i implies !is_for(#[trigger] longer[j], d) by {
                        assert(longer[j] == entries[j]);
                    }
                }
                if opens_day(longer, i) {
                    assert forall|j: int| 0 <= j < i implies !is_for(#[trigger] entries[j], d) by {
                        assert(longer[j] == entries[j]);
                    }
                }
            }
        }
        if opens_day(entries, i) {
            let d = future_forecast(entries[i])->0.day_of_week;
            lemma_record_day(entries, i);
            assert(longer.drop_last() =~= entries);
            assert(longer.last() == e);
            assert(day_record(longer, i) == refreshed(day_record(entries, i), e));
        }
    }
}

/// Taking in one more entry at the end of the feed does to the records of
/// the days what `absorbed` says.
pub proof fn lemma_futures_step(entries: Seq<EntryView>, e: EntryView)
    ensures
        futures(entries.push(e)) == absorbed(futures(entries), e, entries.len() as int),
{
    let n = entries.len() as int;
    let longer = entries.push(e);
    let before = futures(entries);
    let after = futures(longer);
    lemma_futures_refreshed(entries, e, n);
    lemma_futures_shape(entries, n);
    assert(longer[n] == e);
    assert(longer.drop_last() =~= entries);
    match future_forecast(e) {
        None => {
            assert(!opens_day(longer, n));
            assert(after =~= before);
        },
        Some(forecast) => {
            let d = forecast.day_of_week;
            let slot = ForecastWithEntryView { forecast, entry: e };
            lemma_record_of(before, d);
            lemma_record_exists(entries, d);
            match record_of(before, d) {
                Some(k) => {
                    let j = choose|j: int| 0 <= j < entries.len() && is_for(
                        #[trigger] entries[j],
                        d,
                    );
                    assert(longer[j] == entries[j]);
                    assert(!opens_day(longer, n));
                    assert forall|k2: int| 0 <= k2 < before.len() implies #[trigger] after[k2]
                        == before.update(k, before[k].filled(slot))[k2] by {
                        if k2 != k && before[k2].day_of_week() == Some(d) {
                            lemma_one_record_per_day(entries, k, k2);
                        }
                    }
                    assert(after =~= before.update(k, before[k].filled(slot)));
                },
                None => {
                    assert(opens_day(longer, n)) by {
                        assert forall|j: int| 0 <= j < n implies !is_for(#[trigger] longer[j], d) by {
                            assert(longer[j] == entries[j]);
                        }
                    }
                    lemma_latest(entries, d, DayNight::Day);
                    lemma_latest(entries, d, DayNight::Night);
                    assert(latest(entries, d, DayNight::Day) is None) by {
                        if latest(entries, d, DayNight::Day) is Some {
                            let x = latest(entries, d, DayNight::Day)->0;
                            let j = choose|j: int| 0 <= j < entries.len() && entries[j] == x.entry;
                            assert(is_for(entries[j], d));
                        }
                    }
                    assert(latest(entries, d, DayNight::Night) is None) by {
                        if latest(entries, d, DayNight::Night) is Some {
                            let x = latest(entries, d, DayNight::Night)->0;
                            let j = choose|j: int| 0 <= j < entries.len() && entries[j] == x.entry;
                            assert(is_for(entries[j], d));
                        }
                    }
                    assert(day_record(longer, n) == ForecastEntryView::opening(n, slot));
                    assert(after =~= before.push(ForecastEntryView::opening(n, slot)));
                },
            }
        },
    }
}

/// What the feed shows right away is a warning or the current conditions,
/// never the record of a day.
pub proof fn lemma_immediates_kind(entries: Seq<EntryView>)
    ensures
        forall|k: int|
            0 <= k < immediates(entries).len() ==> !(#[trigger] immediates(entries)[k] is Future),
    decreases entries.len(),
{
    if entries.len() > 0 {
        let rest = entries.drop_last();
        lemma_immediates_kind(rest);
        lemma_immediates_step(rest, entries.last());
        assert(rest.push(entries.last()) =~= entries);
    }
}

/// In the grouped forecast of any feed, every warning and every report of
/// the current conditions stands before every record of a day, and the
/// records of the days stand in the order of the positions at which their
/// weekdays were first seen.
pub proof fn lemma_ordering(entries: Seq<EntryView>)
    ensures
        forall|i: int, j: int|
            0 <= i < grouped(entries).len() && 0 <= j < grouped(entries).len() && !(
            #[trigger] grouped(entries)[i] is Future) && #[trigger] grouped(entries)[j] is Future
                ==> i < j,
        forall|i: int, j: int|
            0 <= i < j < grouped(entries).len() && #[trigger] grouped(entries)[i] is Future
                && #[trigger] grouped(entries)[j] is Future ==> sequence_of(grouped(entries)[i])
                < sequence_of(grouped(entries)[j]),
        forall|i: int|
            0 <= i < grouped(entries).len() && #[trigger] grouped(entries)[i] is Future
                ==> opens_day(entries, sequence_of(grouped(entries)[i])),
{
    lemma_immediates_kind(entries);
    lemma_futures_shape(entries, entries.len() as int);
    let shown = immediates(entries);
    let records = futures(entries);
    let out = grouped(entries);
    assert forall|i: int| 0 <= i < out.len() implies (#[trigger] out[i] is Future) == (i
        >= shown.len()) by {
        if i >= shown.len() {
            assert(out[i] == records[i - shown.len()]);
        } else {
            assert(out[i] == shown[i]);
        }
    }
    assert forall|i: int, j: int|
        0 <= i < j < out.len() && #[trigger] out[i] is Future
            && #[trigger] out[j] is Future implies sequence_of(out[i]) < sequence_of(out[j]) by {
        assert(out[i] == records[i - shown.len()]);
        assert(out[j] == records[j - shown.len()]);
    }
    assert forall|i: int| 0 <= i < out.len() && #[trigger] out[i] is Future implies opens_day(
        entries,
        sequence_of(out[i]),
    ) by {
        assert(out[i] == records[i - shown.len()]);
    }
}

/// Where a feed holds a day forecast and a night forecast for one weekday,
/// in whatever order and with whatever between them, exactly one record is
/// about that weekday. It holds both, and it is filed at the position of
/// the first entry that adds a forecast for that weekday.
pub proof fn lemma_day_and_night_share_a_record(
    entries: Seq<EntryView>,
    day_of_week: DayOfWeek,
    i: int,
    j: int,
) -> (k: int)
    requires
        0 <= i < entries.len(),
        0 <= j < entries.len(),
        fills(entries[i], day_of_week, DayNight::Day),
        fills(entries[j], day_of_week, DayNight::Night),
    ensures
        0 <= k < futures(entries).len(),
        futures(entries)[k] matches ForecastEntryView::Future { sequence, day, night }
            && day is Some && night is Some && sequence <= i && sequence <= j && opens_day(
            entries,
            sequence,
        ) && is_for(entries[sequence], day_of_week),
        forall|k2: int|
            0 <= k2 < futures(entries).len() && (#[trigger] futures(entries)[k2]).day_of_week()
                == Some(day_of_week) ==> k2 == k,
{
    let records = futures(entries);
    lemma_futures_shape(entries, entries.len() as int);
    let first = lemma_first_opener(entries, day_of_week, if i <= j {
        i
    } else {
        j
    });
    let k = choose|k: int| 0 <= k < records.len() && sequence_of(#[trigger] records[k]) == first;
    lemma_record_day(entries, first);
    lemma_latest(entries, day_of_week, DayNight::Day);
    lemma_latest(entries, day_of_week, DayNight::Night);
    assert forall|k2: int|
        0 <= k2 < records.len() && (#[trigger] records[k2]).day_of_week() == Some(
            day_of_week,
        ) implies k2 == k by {
        lemma_one_record_per_day(entries, k, k2);
    }
    k
}

/// A feed of two entries, one the day forecast and one the night forecast
/// of the same weekday, gives a single record, whichever of the two comes
/// first: it is filed at position zero and holds both.
pub proof fn lemma_pair_of_day_and_night(first: EntryView, second: EntryView)
    requires
        future_forecast(first) is Some,
        future_forecast(second) is Some,
        future_forecast(first)->0.day_of_week == future_forecast(second)->0.day_of_week,
        future_forecast(first)->0.day != future_forecast(second)->0.day,
    ensures
        grouped(seq![first, second]) == seq![
            (ForecastEntryView::Future { sequence: 0, day: None, night: None }).filled(
                ForecastWithEntryView { forecast: future_forecast(first)->0, entry: first },
            ).filled(
                ForecastWithEntryView { forecast: future_forecast(second)->0, entry: second },
            ),
        ],
{
    let none = Seq::<EntryView>::empty();
    let one = seq![first];
    let both = seq![first, second];
    let slot1 = ForecastWithEntryView { forecast: future_forecast(first)->0, entry: first };
    let slot2 = ForecastWithEntryView { forecast: future_forecast(second)->0, entry: second };
    assert(none.push(first) =~= one);
    assert(one.push(second) =~= both);
    lemma_immediates_step(none, first);
    lemma_immediates_step(one, second);
    assert(immediates(none) =~= Seq::<ForecastEntryView>::empty());
    lemma_futures_step(none, first);
    lemma_futures_step(one, second);
    assert(futures(none) =~= Seq::<ForecastEntryView>::empty());
    let opened = ForecastEntryView::opening(0, slot1);
    assert(futures(one) =~= seq![opened]);
    lemma_record_of(seq![opened], slot2.forecast.day_of_week);
    assert(futures(both) =~= seq![opened.filled(slot2)]);
    assert(grouped(both) =~= seq![opened.filled(slot2)]);
}

/// The entry adds nothing to the output: it shows nothing right away and
/// adds no forecast to the record of any day.
pub open spec fn is_dropped(e: EntryView) -> bool {
    immediate(e) is None && future_forecast(e) is None
}

/// The record as it stands once one more entry has been put into the feed
/// at position `at`: a record for a day that was filed at or after that
/// position is filed one position further on.
pub open spec fn shifted(record: ForecastEntryView, at: int) -> ForecastEntryView {
    match record {
        ForecastEntryView::Future { sequence, day, night } => ForecastEntryView::Future {
            sequence: if sequence >= at {
                sequence + 1
            } else {
                sequence
            },
            day,
            night,
        },
        other => other,
    }
}

/// What a feed made of two parts shows right away is what the first part
/// shows, then what the second part shows.
pub proof fn lemma_immediates_concat(a: Seq<EntryView>, b: Seq<EntryView>)
    ensures
        immediates(a + b) == immediates(a) + immediates(b),
    decreases b.len(),
{
    if b.len() == 0 {
        assert(a + b =~= a);
        assert(immediates(b) =~= Seq::<ForecastEntryView>::empty());
        assert(immediates(a) + immediates(b) =~= immediates(a));
    } else {
        let rest = b.drop_last();
        lemma_immediates_concat(a, rest);
        lemma_immediates_step(a + rest, b.last());
        lemma_immediates_step(rest, b.last());
        assert((a + rest).push(b.last()) =~= a + b);
        assert(rest.push(b.last()) =~= b);
        match immediate(b.last()) {
            Some(shown) => {
                assert((immediates(a) + immediates(rest)).push(shown) =~= immediates(a)
                    + immediates(rest).push(shown));
            },
            None => {},
        }
    }
}

/// An entry that adds no forecast, put anywhere into the feed, changes the
/// latest forecast for no half of any weekday.
proof fn lemma_latest_insert(
    entries: Seq<EntryView>,
    at: int,
    e: EntryView,
    day_of_week: DayOfWeek,
    day: DayNight,
)
    requires
        0 <= at <= entries.len(),
        future_forecast(e) is None,
    ensures
        latest(entries.insert(at, e), day_of_week, day) == latest(entries, day_of_week, day),
    decreases entries.len(),
{
    let longer = entries.insert(at, e);
    if at == entries.len() {
        assert(longer.last() == e);
        assert(longer.drop_last() =~= entries);
    } else {
        assert(longer.last() == entries.last());
        assert(longer.drop_last() =~= entries.drop_last().insert(at, e));
        lemma_latest_insert(entries.drop_last(), at, e, day_of_week, day);
    }
}

/// The position that the entry at position `i` takes once one more entry
/// has been put into the feed at position `at`.
pub open spec fn moved(i: int, at: int) -> int {
    if i >= at {
        i + 1
    } else {
        i
    }
}

/// An entry that adds no forecast, put anywhere into the feed, leaves the
/// same entries opening their weekdays.
proof fn lemma_opens_day_insert(entries: Seq<EntryView>, at: int, e: EntryView, i: int)
    requires
        0 <= at <= entries.len(),
        0 <= i < entries.len(),
        future_forecast(e) is None,
    ensures
        entries.insert(at, e)[moved(i, at)] == entries[i],
        opens_day(entries.insert(at, e), moved(i, at)) == opens_day(entries, i),
{
    let longer = entries.insert(at, e);
    assert(longer[moved(i, at)] == entries[i]);
    if future_forecast(entries[i]) is Some {
        let d = future_forecast(entries[i])->0.day_of_week;
        if opens_day(entries, i) {
            assert forall|j: int| 0 <= j < moved(i, at) implies !is_for(#[trigger] longer[j], d) by {
                if j < at {
                    assert(longer[j] == entries[j]);
                } else if j > at {
                    assert(longer[j] == entries[j - 1]);
                } else {
                    assert(longer[j] == e);
                }
            }
        }
        if opens_day(longer, moved(i, at)) {
            assert forall|j: int| 0 <= j < i implies !is_for(#[trigger] entries[j], d) by {
                assert(longer[moved(j, at)] == entries[j]);
            }
        }
    }
}

/// An entry that adds no forecast, put into the feed at position `at`,
/// changes nothing in the records of the days but the positions at which
/// those after it are filed.
proof fn lemma_futures_insert(entries: Seq<EntryView>, at: int, e: EntryView, n: int)
    requires
        0 <= at <= entries.len(),
        0 <= n <= entries.len(),
        future_forecast(e) is None,
    ensures
        futures_before(entries.insert(at, e), moved(n, at + 1)) == futures_before(
            entries,
            n,
        ).map_values(|r: ForecastEntryView| shifted(r, at)),
    decreases n,
{
    let longer = entries.insert(at, e);
    let shift = |r: ForecastEntryView| shifted(r, at);
    if n == 0 {
        assert(futures_before(longer, 0) =~= futures_before(entries, 0).map_values(shift));
    } else {
        let i = n - 1;
        lemma_futures_insert(entries, at, e, i);
        lemma_opens_day_insert(entries, at, e, i);
        // The records before position `i` of the old feed are those before
        // position `moved(i, at)` of the new one.
        assert(futures_before(longer, moved(i, at)) == futures_before(longer, moved(i, at + 1)))
            by {
            if i == at {
                assert(longer[at] == e);
                assert(!opens_day(longer, at));
            }
        }
        assert(moved(n, at + 1) == moved(i, at) + 1);
        if opens_day(entries, i) {
            let d = future_forecast(entries[i])->0.day_of_week;
            lemma_latest_insert(entries, at, e, d, DayNight::Day);
            lemma_latest_insert(entries, at, e, d, DayNight::Night);
            assert(day_record(longer, moved(i, at)) == shifted(day_record(entries, i), at));
            assert(futures_before(longer, moved(n, at + 1)) =~= futures_before(
                entries,
                n,
            ).map_values(shift));
        } else {
            assert(futures_before(longer, moved(n, at + 1)) =~= futures_before(
                entries,
                n,
            ).map_values(shift));
        }
    }
}

/// An entry that is dropped has no effect on what the other entries give:
/// with it put anywhere into a feed, the grouped forecast is that of the
/// feed without it, except that the records of the days first seen after it
/// are filed one position further on, as their entries now stand there.
///
/// Dropped are, among others, the entries filed under forecasts whose title
/// does not begin with a weekday or has no well-formed temperature phrase.
pub proof fn lemma_dropped_entry(entries: Seq<EntryView>, at: int, e: EntryView)
    requires
        0 <= at <= entries.len(),
        is_dropped(e),
    ensures
        grouped(entries.insert(at, e)) == grouped(entries).map_values(
            |r: ForecastEntryView| shifted(r, at),
        ),
{
    let longer = entries.insert(at, e);
    let shift = |r: ForecastEntryView| shifted(r, at);
    let head = entries.subrange(0, at);
    let tail = entries.subrange(at, entries.len() as int);
    assert(longer =~= head + seq![e] + tail);
    assert(entries =~= head + tail);
    lemma_immediates_concat(head, seq![e]);
    lemma_immediates_concat(head + seq![e], tail);
    lemma_immediates_concat(head, tail);
    assert(immediates(seq![e]) =~= Seq::<ForecastEntryView>::empty()) by {
        lemma_immediates_step(Seq::<EntryView>::empty(), e);
        assert(Seq::<EntryView>::empty().push(e) =~= seq![e]);
        assert(immediates(Seq::<EntryView>::empty()) =~= Seq::<ForecastEntryView>::empty());
    }
    assert(immediates(longer) =~= immediates(entries));
    lemma_immediates_kind(entries);
    lemma_futures_insert(entries, at, e, entries.len() as int);
    assert(futures(longer) == futures(entries).map_values(shift)) by {
        if at == entries.len() {
            assert(longer[at] == e);
            assert(!opens_day(longer, at));
        }
    }
    assert(grouped(longer) =~= grouped(entries).map_values(shift));
}

/// An entry filed under forecasts whose title is not a forecast line, be it
/// for its weekday or for its temperature phrase, is dropped.
pub proof fn lemma_malformed_forecast_is_dropped(e: EntryView)
    requires
        e.term == crate::feed::Term::ForeCast,
        crate::parsers::title_forecast(e.title) is Err,
    ensures
        is_dropped(e),
{
}

} // verus!
