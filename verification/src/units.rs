//! Temperature units: a reading may carry degrees Celsius, degrees
//! Fahrenheit, both or neither, and is resolved to both scales.

use crate::measure::{Decimal, DecimalView, Ratio};
use vstd::prelude::*;

verus! {

/// Degrees Fahrenheit for a temperature given in degrees Celsius.
pub open spec fn fahrenheit_of(celsius: real) -> real {
    celsius * (9real / 5real) + 32real
}

/// Degrees Celsius for a temperature given in degrees Fahrenheit.
pub open spec fn celsius_of(fahrenheit: real) -> real {
    (fahrenheit - 32real) * (5real / 9real)
}

/// The temperature in degrees Celsius that a reading with the reported
/// values `c` (Celsius) and `f` (Fahrenheit) resolves to: the reported
/// Celsius value where there is one, else the reported Fahrenheit value
/// converted, else none.
pub open spec fn resolved_celsius(c: Option<DecimalView>, f: Option<DecimalView>) -> Option<real> {
    match (c, f) {
        (Some(c), _) => Some(c.value()),
        (None, Some(f)) => Some(celsius_of(f.value())),
        (None, None) => None,
    }
}

/// The temperature in degrees Fahrenheit that a reading with the reported
/// values `c` (Celsius) and `f` (Fahrenheit) resolves to: the reported
/// Fahrenheit value where there is one, else the reported Celsius value
/// converted, else none.
pub open spec fn resolved_fahrenheit(c: Option<DecimalView>, f: Option<DecimalView>) -> Option<
    real,
> {
    match (c, f) {
        (_, Some(f)) => Some(f.value()),
        (Some(c), None) => Some(fahrenheit_of(c.value())),
        (None, None) => None,
    }
}

/// Converting a temperature to the other scale and back gives the same
/// temperature.
pub proof fn lemma_conversion_round_trip(x: real)
    ensures
        celsius_of(fahrenheit_of(x)) == x,
        fahrenheit_of(celsius_of(x)) == x,
{
}

/// Where both temperatures are reported, each stands as reported, whether
/// or not the two agree.
pub proof fn lemma_reported_values_stand(c: DecimalView, f: DecimalView)
    ensures
        resolved_celsius(Some(c), Some(f)) == Some(c.value()),
        resolved_fahrenheit(Some(c), Some(f)) == Some(f.value()),
{
}

/// What a fraction, if there is one, denotes.
pub open spec fn value_of(r: Option<Ratio>) -> Option<real> {
    match r {
        Some(r) => Some(r.value()),
        None => None,
    }
}

/// The mathematical content of a decimal, if there is one.
pub open spec fn decimal_view(d: Option<Decimal>) -> Option<DecimalView> {
    match d {
        Some(d) => Some(d@),
        None => None,
    }
}

/// Converts degrees Celsius to degrees Fahrenheit, exactly.
pub fn celsius_to_fahrenheit(celsius: &Decimal) -> (r: Ratio)
    ensures
        r.value() == fahrenheit_of(celsius@.value()),
{
    celsius.affine(9, 160, 5)
}

/// Converts degrees Fahrenheit to degrees Celsius, exactly.
pub fn fahrenheit_to_celsius(fahrenheit: &Decimal) -> (r: Ratio)
    ensures
        r.value() == celsius_of(fahrenheit@.value()),
{
    fahrenheit.affine(5, -160, 9)
}

/// Resolves the reported temperatures of one reading to both scales,
/// Celsius first. A reported value is never changed, whatever the other
/// says; a missing one is converted from the other.
pub fn reconcile(c: Option<Decimal>, f: Option<Decimal>) -> (r: (Option<Ratio>, Option<Ratio>))
    ensures
        value_of(r.0) == resolved_celsius(decimal_view(c), decimal_view(f)),
        value_of(r.1) == resolved_fahrenheit(decimal_view(c), decimal_view(f)),
{
    match (c, f) {
        (Some(c), Some(f)) => (Some(c.to_ratio()), Some(f.to_ratio())),
        (Some(c), None) => (Some(c.to_ratio()), Some(celsius_to_fahrenheit(&c))),
        (None, Some(f)) => (Some(fahrenheit_to_celsius(&f)), Some(f.to_ratio())),
        (None, None) => (None, None),
    }
}

} // verus!
