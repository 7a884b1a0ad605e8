//! The records that the grammars produce, and the ways they can fail.
use vstd::prelude::*;
use crate::temperature::{
    celsius_text, fahrenheit_of, fahrenheit_text, Celsius, Fahrenheit, TempUnit, Temperature,
};

verus! {

/// The half of the day that a forecast covers.
#[derive(Debug, Copy, Clone, PartialEq, Eq, Structural)]
pub enum DayNight {
    Day,
    Night,
}

/// A day of the week.
#[derive(Debug, Copy, Clone, PartialEq, Eq, Structural)]
pub enum DayOfWeek {
    Monday,
    Tuesday,
    Wednesday,
    Thursday,
    Friday,
    Saturday,
    Sunday,
}

impl DayOfWeek {
    /// The English name of the day, capitalised.
    pub open spec fn name(self) -> Seq<char> {
        match self {
            DayOfWeek::Monday => "Monday"@,
            DayOfWeek::Tuesday => "Tuesday"@,
            DayOfWeek::Wednesday => "Wednesday"@,
            DayOfWeek::Thursday => "Thursday"@,
            DayOfWeek::Friday => "Friday"@,
            DayOfWeek::Saturday => "Saturday"@,
            DayOfWeek::Sunday => "Sunday"@,
        }
    }

    /// The English name of the day, capitalised.
    pub fn as_str(&self) -> (name: &str)
        ensures
            name@ == self.name(),
    {
        match self {
            Self::Monday => "Monday",
            Self::Tuesday => "Tuesday",
            Self::Wednesday => "Wednesday",
            Self::Thursday => "Thursday",
            Self::Friday => "Friday",
            Self::Saturday => "Saturday",
            Self::Sunday => "Sunday",
        }
    }
}

/// The forecast for one half of one day.
#[derive(Debug, Clone)]
pub struct Forecast {
    pub celsius: Temperature<Celsius>,
    pub fahrenheit: Temperature<Fahrenheit>,
    pub description: String,
    pub day: DayNight,
    pub day_of_week: DayOfWeek,
}

/// What a `Forecast` holds, with its text as a sequence of characters.
pub struct ForecastView {
    pub celsius: Temperature<Celsius>,
    pub fahrenheit: Temperature<Fahrenheit>,
    pub description: Seq<char>,
    pub day: DayNight,
    pub day_of_week: DayOfWeek,
}

impl View for Forecast {
    type V = ForecastView;

    open spec fn view(&self) -> ForecastView {
        ForecastView {
            celsius: self.celsius,
            fahrenheit: self.fahrenheit,
            description: self.description@,
            day: self.day,
            day_of_week: self.day_of_week,
        }
    }
}

impl DeepView for Forecast {
    type V = ForecastView;

    open spec fn deep_view(&self) -> ForecastView {
        self@
    }
}

impl ForecastView {
    /// The Fahrenheit reading is the one derived from the Celsius reading.
    pub open spec fn is_consistent(self) -> bool {
        self.fahrenheit == fahrenheit_of(self.celsius)
    }

    /// The temperature as it is displayed in the given unit.
    pub open spec fn temperature_text(self, unit: TempUnit) -> Seq<char> {
        match unit {
            TempUnit::Celsius => celsius_text(self.celsius),
            TempUnit::Fahrenheit => fahrenheit_text(self.fahrenheit),
        }
    }
}

impl Forecast {
    /// The temperature as it is displayed in the given unit.
    pub fn temperature_text(&self, unit: TempUnit) -> (text: String)
        ensures
            text@ == self@.temperature_text(unit),
    {
        match unit {
            TempUnit::Celsius => self.celsius.to_string(),
            TempUnit::Fahrenheit => self.fahrenheit.to_string(),
        }
    }
}

/// The conditions observed at the time of the bulletin.
#[derive(Debug, Clone)]
pub struct CurrentForecast {
    pub celsius: Temperature<Celsius>,
    pub fahrenheit: Temperature<Fahrenheit>,
    pub description: String,
}

/// What a `CurrentForecast` holds, with its text as a sequence of characters.
pub struct CurrentForecastView {
    pub celsius: Temperature<Celsius>,
    pub fahrenheit: Temperature<Fahrenheit>,
    pub description: Seq<char>,
}

impl View for CurrentForecast {
    type V = CurrentForecastView;

    open spec fn view(&self) -> CurrentForecastView {
        CurrentForecastView {
            celsius: self.celsius,
            fahrenheit: self.fahrenheit,
            description: self.description@,
        }
    }
}

impl DeepView for CurrentForecast {
    type V = CurrentForecastView;

    open spec fn deep_view(&self) -> CurrentForecastView {
        self@
    }
}

impl CurrentForecastView {
    /// The Fahrenheit reading is the one derived from the Celsius reading.
    pub open spec fn is_consistent(self) -> bool {
        self.fahrenheit == fahrenheit_of(self.celsius)
    }

    /// The temperature as it is displayed in the given unit.
    pub open spec fn temperature_text(self, unit: TempUnit) -> Seq<char> {
        match unit {
            TempUnit::Celsius => celsius_text(self.celsius),
            TempUnit::Fahrenheit => fahrenheit_text(self.fahrenheit),
        }
    }
}

impl CurrentForecast {
    /// The temperature as it is displayed in the given unit.
    pub fn temperature_text(&self, unit: TempUnit) -> (text: String)
        ensures
            text@ == self@.temperature_text(unit),
    {
        match unit {
            TempUnit::Celsius => self.celsius.to_string(),
            TempUnit::Fahrenheit => self.fahrenheit.to_string(),
        }
    }
}

/// Why a piece of text is not a number.
#[derive(Debug, Copy, Clone, PartialEq, Eq, Structural)]
pub enum NumberParseError {
    /// No digit stands where the number should begin.
    MissingDigits,
    /// The number has more digits than a magnitude can hold.
    TooManyDigits,
}

/// Why a piece of text is not a temperature phrase.
#[derive(Debug, Copy, Clone, PartialEq, Eq, Structural)]
pub enum TemperaturePhraseError {
    /// The text does not begin with one of the lead-in phrases.
    MissingLeadIn,
    /// The lead-in is not followed by a number.
    Number(NumberParseError),
}

/// The step of the title grammar that failed.
#[derive(Debug, Copy, Clone, PartialEq, Eq, Structural)]
pub enum TitleFailure {
    /// The title does not begin with the name of a weekday.
    Weekday,
    /// The weekday is followed neither by `:` nor by `night:`.
    DayNight,
    /// No lead-in phrase follows the marker, so the description has no end.
    Description,
    /// The temperature phrase after the description is malformed.
    Temperature(TemperaturePhraseError),
}

/// A title that is not a forecast line.
#[derive(Debug, Copy, Clone, PartialEq, Eq, Structural)]
pub struct TitleParseError(pub TitleFailure);

/// The step of the current-conditions grammar that failed.
#[derive(Debug, Copy, Clone, PartialEq, Eq, Structural)]
pub enum CurrentFailure {
    /// The title does not begin with `Current Conditions: `.
    Prefix,
    /// No `, ` ends the description.
    Separator,
    /// The text after the description is not a number.
    Number(NumberParseError),
}

/// A title that does not report the current conditions.
#[derive(Debug, Copy, Clone, PartialEq, Eq, Structural)]
pub struct CurrentForecastError(pub CurrentFailure);

} // verus!
