//! Temperatures tagged with the unit they are measured in.
use vstd::prelude::*;
use vstd::string::StringExecFns;
use std::marker::PhantomData;
use crate::decimal::{pow10, Decimal};

verus! {

/// Marks a temperature measured in degrees Celsius.
#[derive(Debug, Copy, Clone, PartialEq, Eq)]
pub enum Celsius {
    Degrees,
}

/// Marks a temperature measured in degrees Fahrenheit.
#[derive(Debug, Copy, Clone, PartialEq, Eq)]
pub enum Fahrenheit {
    Degrees,
}

/// A temperature reading and the role it plays in a forecast. The unit is
/// part of the type only: a reading in one unit cannot stand where the other
/// is expected.
#[derive(Debug, PartialEq, Eq)]
pub enum Temperature<Unit> {
    High(Decimal, PhantomData<Unit>),
    Low(Decimal, PhantomData<Unit>),
    Current(Decimal, PhantomData<Unit>),
}

impl<Unit> Copy for Temperature<Unit> {}

impl<Unit> Clone for Temperature<Unit> {
    fn clone(&self) -> (copy: Self)
        ensures
            copy == *self,
    {
        *self
    }
}

impl<Unit> Temperature<Unit> {
    /// The magnitude of the reading.
    pub open spec fn value(self) -> Decimal {
        match self {
            Temperature::High(d, _) => d,
            Temperature::Low(d, _) => d,
            Temperature::Current(d, _) => d,
        }
    }

    /// The magnitude of the reading.
    pub fn degrees(&self) -> (d: Decimal)
        ensures
            d == self.value(),
    {
        match self {
            Temperature::High(d, _) => *d,
            Temperature::Low(d, _) => *d,
            Temperature::Current(d, _) => *d,
        }
    }
}

/// The reading in Fahrenheit that stands for a reading in Celsius: the same
/// role, and twice the magnitude plus thirty.
pub open spec fn fahrenheit_of(c: Temperature<Celsius>) -> Temperature<Fahrenheit> {
    match c {
        Temperature::High(d, _) => Temperature::High(d.doubled_plus_thirty(), PhantomData),
        Temperature::Low(d, _) => Temperature::Low(d.doubled_plus_thirty(), PhantomData),
        Temperature::Current(d, _) => Temperature::Current(d.doubled_plus_thirty(), PhantomData),
    }
}

/// A reading in Celsius as it is displayed: the magnitude in full, and the
/// unit.
pub open spec fn celsius_text(t: Temperature<Celsius>) -> Seq<char> {
    t.value().text() + "°C"@
}

/// A reading in Fahrenheit as it is displayed: the magnitude rounded to a
/// whole number, and the unit.
pub open spec fn fahrenheit_text(t: Temperature<Fahrenheit>) -> Seq<char> {
    t.value().rounded_text() + "°F"@
}

impl Temperature<Celsius> {
    /// Converts to Fahrenheit by the rule of thumb `f = 2c + 30`, which is
    /// exact in the decimal representation: the result has the scale of
    /// `c`, and in units of that scale it is twice `c` plus thirty. The
    /// reading keeps its role.
    pub fn to_fahrenheit(self) -> (f: Temperature<Fahrenheit>)
        requires
            self.value().is_convertible(),
        ensures
            f == fahrenheit_of(self),
            f.value().scale == self.value().scale,
            f.value().unscaled == 2 * self.value().unscaled + 30 * pow10(
                self.value().scale as nat,
            ),
            (self is High) == (f is High),
            (self is Low) == (f is Low),
            (self is Current) == (f is Current),
    {
        match self {
            Temperature::High(d, _) => Temperature::High(d.double_plus_thirty(), PhantomData),
            Temperature::Low(d, _) => Temperature::Low(d.double_plus_thirty(), PhantomData),
            Temperature::Current(d, _) => Temperature::Current(d.double_plus_thirty(), PhantomData),
        }
    }

    /// Converts to Fahrenheit where the result can be represented, and
    /// gives nothing where it cannot.
    pub fn checked_to_fahrenheit(self) -> (f: Option<Temperature<Fahrenheit>>)
        ensures
            self.value().is_convertible() ==> f == Some(fahrenheit_of(self)),
            !self.value().is_convertible() ==> f is None,
    {
        if self.degrees().convertible() {
            Some(self.to_fahrenheit())
        } else {
            None
        }
    }

    /// The reading as it is displayed.
    pub fn to_string(&self) -> (text: String)
        ensures
            text@ == celsius_text(*self),
    {
        let mut text = self.degrees().to_text();
        text.append("°C");
        text
    }
}

impl Temperature<Fahrenheit> {
    /// The reading as it is displayed.
    pub fn to_string(&self) -> (text: String)
        ensures
            text@ == fahrenheit_text(*self),
    {
        let mut text = self.degrees().to_rounded_text();
        text.append("°F");
        text
    }
}

/// The unit that temperatures are displayed in.
#[derive(Debug, Copy, Clone, PartialEq, Eq, Structural)]
pub enum TempUnit {
    Fahrenheit,
    Celsius,
}

impl Default for TempUnit {
    fn default() -> (unit: TempUnit)
        ensures
            unit == TempUnit::Celsius,
    {
        TempUnit::Celsius
    }
}

} // verus!
