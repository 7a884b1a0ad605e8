//! The entries of a bulletin feed as they arrive, before any title is read.
use vstd::prelude::*;
use vstd::string::StrSliceExecFns;
use vstd::string::StringExecFns;
use crate::text::{
    chars_of, last_occurrence, matches_at, occurs_at, rfind, trim_bounds, trimmed,
};

verus! {

/// The category that the feed files an entry under.
#[derive(Debug, Copy, Clone, PartialEq, Eq, Structural)]
pub enum Term {
    Current,
    ForeCast,
    Warnings,
}

/// The category element of an entry.
#[derive(Debug, Copy, Clone, PartialEq, Eq, Structural)]
pub struct Category {
    pub term: Term,
}

/// One entry of the feed.
#[derive(Debug, Clone)]
pub struct Entry {
    pub title: String,
    pub category: Category,
    pub summary: String,
}

/// What an `Entry` holds, with its texts as sequences of characters.
pub struct EntryView {
    pub title: Seq<char>,
    pub term: Term,
    pub summary: Seq<char>,
}

impl View for Entry {
    type V = EntryView;

    open spec fn view(&self) -> EntryView {
        EntryView { title: self.title@, term: self.category.term, summary: self.summary@ }
    }
}

impl DeepView for Entry {
    type V = EntryView;

    open spec fn deep_view(&self) -> EntryView {
        self@
    }
}

impl EntryView {
    /// The entry is filed under warnings and watches.
    pub open spec fn is_warning(self) -> bool {
        self.term == Term::Warnings
    }

    /// The entry reports something in effect now: the current conditions, or
    /// a warning.
    pub open spec fn is_current(self) -> bool {
        self.term == Term::Current || self.term == Term::Warnings
    }

    /// The entry is the placeholder that the feed carries while no warning
    /// is in effect.
    pub open spec fn is_placeholder(self) -> bool {
        self.term == Term::Warnings && matches_at(self.title, 0, placeholder_title())
    }
}

/// How the title of the placeholder for "no warnings" begins.
pub open spec fn placeholder_title() -> Seq<char> {
    "No watches or warnings in effect"@
}

/// The words that introduce the time of issue at the end of a summary.
pub open spec fn issue_marker() -> Seq<char> {
    "Forecast issued"@
}

/// A summary without its time of issue: the text before the last
/// occurrence of the issue marker, trimmed; or the whole summary where the
/// marker does not occur.
pub open spec fn summary_body(s: Seq<char>) -> Seq<char> {
    match last_occurrence(s, issue_marker()) {
        Some(at) => trimmed(s, 0, at),
        None => s,
    }
}

/// Cuts the time of issue off a summary.
pub fn truncate_summary(summary: &str) -> (body: String)
    ensures
        body@ == summary_body(summary@),
{
    let chars = chars_of(summary);
    match rfind(chars.as_slice(), "Forecast issued") {
        Some(at) => {
            let (start, end) = trim_bounds(chars.as_slice(), 0, at);
            summary.substring_char(start, end).to_owned()
        },
        None => summary.to_owned(),
    }
}

impl Entry {
    /// Whether the entry is filed under warnings and watches.
    pub fn is_warning(&self) -> (b: bool)
        ensures
            b == self@.is_warning(),
    {
        matches!(self.category.term, Term::Warnings)
    }

    /// Whether the entry reports something in effect now.
    pub fn is_current(&self) -> (b: bool)
        ensures
            b == self@.is_current(),
    {
        matches!(self.category.term, Term::Current | Term::Warnings)
    }

    /// The entry as it is listed: its title.
    pub fn to_string(&self) -> (text: String)
        ensures
            text@ == self@.title,
    {
        self.title.clone()
    }

    /// Whether the entry is the placeholder for "no warnings".
    pub fn is_placeholder(&self) -> (b: bool)
        ensures
            b == self@.is_placeholder(),
    {
        if !self.is_warning() {
            return false;
        }
        let chars = chars_of(self.title.as_str());
        occurs_at(chars.as_slice(), 0, "No watches or warnings in effect")
    }
}

/// The entries of one snapshot of the feed.
struct Feed {
    entries: Vec<Entry>,
}

/// A weather forecast as the feed delivers it.
pub struct ForeCast(Feed);

/// The text that lists the titles of the entries, one on each line.
pub open spec fn title_lines(entries: Seq<EntryView>) -> Seq<char>
    decreases entries.len(),
{
    if entries.len() == 0 {
        Seq::empty()
    } else {
        title_lines(entries.drop_last()) + entries.last().title + "\n"@
    }
}

impl View for ForeCast {
    type V = Seq<EntryView>;

    closed spec fn view(&self) -> Seq<EntryView> {
        self.0.entries.deep_view()
    }
}

impl ForeCast {
    /// Makes a forecast of the entries of a snapshot, leaving out the
    /// placeholder for "no warnings" wherever it stands.
    pub fn new(entries: Vec<Entry>) -> (forecast: ForeCast)
        ensures
            forecast@ == entries.deep_view().filter(|e: EntryView| !e.is_placeholder()),
    {
        let ghost all = entries.deep_view();
        let ghost keep = |e: EntryView| !e.is_placeholder();
        let mut kept: Vec<Entry> = Vec::new();
        for entry in it: entries.into_iter()
            invariant
                it.seq().len() == all.len(),
                forall|i: int| 0 <= i < all.len() ==> (#[trigger] it.seq()[i])@ == all[i],
                keep == |e: EntryView| !e.is_placeholder(),
                kept.deep_view() == all.take(it.index() as int).filter(keep),
        {
            proof {
                assert(all.take(it.index() + 1).drop_last() =~= all.take(it.index() as int));
                reveal(Seq::filter);
            }
            if !entry.is_placeholder() {
                kept.push(entry);
            }
        }
        proof {
            assert(all.take(all.len() as int) =~= all);
        }
        ForeCast(Feed { entries: kept })
    }

    /// The entries that report something in effect now: the current
    /// conditions and the warnings, in the order of the feed.
    pub fn current_forecast(&self) -> (current: Vec<&Entry>)
        ensures
            current.deep_view() == self@.filter(|e: EntryView| e.is_current()),
    {
        let ghost all = self@;
        let ghost keep = |e: EntryView| e.is_current();
        let mut current: Vec<&Entry> = Vec::new();
        let mut i: usize = 0;
        proof {
            assert(all.take(0).filter(keep) =~= Seq::<EntryView>::empty());
        }
        while i < self.0.entries.len()
            invariant
                i <= self.0.entries.len(),
                all == self@,
                keep == |e: EntryView| e.is_current(),
                current.deep_view() == all.take(i as int).filter(keep),
            decreases self.0.entries.len() - i,
        {
            let entry = &self.0.entries[i];
            proof {
                assert(all.take(i + 1).drop_last() =~= all.take(i as int));
                reveal(Seq::filter);
            }
            if entry.is_current() {
                current.push(entry);
            }
            i += 1;
        }
        proof {
            assert(all.take(all.len() as int) =~= all);
        }
        current
    }

    /// All the entries, in the order of the feed.
    pub fn entries(self) -> (entries: Vec<Entry>)
        ensures
            entries.deep_view() == self@,
    {
        self.0.entries
    }

    /// The titles of the entries, one on each line.
    pub fn to_string(&self) -> (text: String)
        ensures
            text@ == title_lines(self@),
    {
        let ghost all = self@;
        let mut text = String::new();
        let mut i: usize = 0;
        while i < self.0.entries.len()
            invariant
                i <= self.0.entries.len(),
                all == self@,
                text@ == title_lines(all.take(i as int)),
            decreases self.0.entries.len() - i,
        {
            proof {
                assert(all.take(i + 1).drop_last() =~= all.take(i as int));
            }
            text.append(self.0.entries[i].title.as_str());
            text.append("\n");
            i += 1;
        }
        proof {
            assert(all.take(all.len() as int) =~= all);
        }
        text
    }
}

} // verus!
