//! Turns the titles and summaries of a weather bulletin feed into typed
//! forecast records, and groups the day and night entries of each weekday
//! into one record.
//!
//! The grammars of the titles are in [`parsers`] and the grouping in
//! [`grouping`]. What is proved of every title and of every feed, beyond
//! the contracts of the functions, is in [`grammar_laws`] and
//! [`grouping_laws`].
pub mod decimal;
pub mod feed;
pub mod forecast;
pub mod grammar_laws;
pub mod grouping;
pub mod grouping_laws;
pub mod parsers;
pub mod summary;
pub mod temperature;
pub mod text;
pub mod types;

pub use feed::{truncate_summary, Category, Entry, ForeCast, Term};
