//! The summary of a grouped entry, turned from the markup of the feed into
//! the markup that a tooltip shows.
use vstd::prelude::*;
use vstd::string::StringExecFns;
use crate::grouping::{ForecastEntry, ForecastEntryView};
use crate::text::{replace_all, replaced};

verus! {

/// A summary with the markup of the feed taken out: the entity for the
/// degree sign becomes the sign, line break tags go, each sentence starts a
/// new line, `minus ` becomes a minus sign and `plus ` goes. The
/// replacements are made one after the other, in this order, each on the
/// result of the one before.
pub open spec fn remapped(summary: Seq<char>) -> Seq<char> {
    let degrees = replaced(summary, "&deg;"@, "°"@);
    let unbroken = replaced(degrees, "<br/>"@, ""@);
    let lines = replaced(unbroken, ". "@, ".\n"@);
    let negative = replaced(lines, "minus "@, "-"@);
    replaced(negative, "plus "@, ""@)
}

/// The text that describes a grouped entry: the remapped summary of its
/// entry; for the record of a day, those of its day and of its night, each
/// under a heading, as far as the record holds them.
pub open spec fn summary_text(entry: ForecastEntryView) -> Seq<char> {
    match entry {
        ForecastEntryView::Warning(e) => remapped(e.summary),
        ForecastEntryView::Current(c) => remapped(c.entry.summary),
        ForecastEntryView::Future { day: Some(d), night: Some(n), .. } => "<b>Day:</b>\n"@
            + remapped(d.entry.summary) + "\n\n<b>Night:</b>\n"@ + remapped(n.entry.summary),
        ForecastEntryView::Future { day: Some(d), night: None, .. } => "<b>Day:</b>\n"@
            + remapped(d.entry.summary),
        ForecastEntryView::Future { day: None, night: Some(n), .. } => "<b>Night:</b>\n"@
            + remapped(n.entry.summary),
        ForecastEntryView::Future { day: None, night: None, .. } => Seq::empty(),
    }
}

/// Takes the markup of the feed out of a summary.
pub fn remap_html(input: &str) -> (out: String)
    ensures
        out@ == remapped(input@),
{
    let degrees = replace_all(input, "&deg;", "°");
    let unbroken = replace_all(degrees.as_str(), "<br/>", "");
    let lines = replace_all(unbroken.as_str(), ". ", ".\n");
    let negative = replace_all(lines.as_str(), "minus ", "-");
    replace_all(negative.as_str(), "plus ", "")
}

impl ForecastEntry {
    /// The text that describes the entry, ready for display.
    pub fn summary(&self) -> (text: String)
        ensures
            text@ == summary_text(self@),
    {
        match self {
            Self::Warning(entry) => remap_html(entry.summary.as_str()),
            Self::Current(current) => remap_html(current.entry.summary.as_str()),
            Self::Future { day, night, .. } => match (day, night) {
                (Some(d), Some(n)) => {
                    let mut text = String::from_str("<b>Day:</b>\n");
                    text.append(remap_html(d.entry.summary.as_str()).as_str());
                    text.append("\n\n<b>Night:</b>\n");
                    text.append(remap_html(n.entry.summary.as_str()).as_str());
                    text
                },
                (Some(d), None) => {
                    let mut text = String::from_str("<b>Day:</b>\n");
                    text.append(remap_html(d.entry.summary.as_str()).as_str());
                    text
                },
                (None, Some(n)) => {
                    let mut text = String::from_str("<b>Night:</b>\n");
                    text.append(remap_html(n.entry.summary.as_str()).as_str());
                    text
                },
                (None, None) => String::new(),
            },
        }
    }
}

} // verus!
