//! The data model in one place: the records that the grammars and the
//! grouping produce.
pub use crate::decimal::Decimal;
pub use crate::forecast::{
    CurrentFailure, CurrentForecast, CurrentForecastError, DayNight, DayOfWeek, Forecast,
    NumberParseError, TemperaturePhraseError, TitleFailure, TitleParseError,
};
pub use crate::grouping::{
    to_forecast, CurrentForecastWithEntry, ForecastEntry, ForecastWithEntry, UnrecognizedDayKey,
};
pub use crate::temperature::{Celsius, Fahrenheit, TempUnit, Temperature};
