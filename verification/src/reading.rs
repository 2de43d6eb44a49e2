//! One decoded sensor observation and the identity of the device behind it.

use crate::measure::{Decimal, DecimalView, Ratio};
use crate::units::{decimal_view, reconcile, resolved_celsius, resolved_fahrenheit, value_of};
use vstd::prelude::*;

verus! {

/// The mathematical content of a [`SampleKey`].
pub struct SampleKeyView {
    pub model: Seq<char>,
    pub id: Option<u32>,
}

/// The identity of a device: its model and, where the protocol has one, the
/// number of the instance. A missing number is not the number zero.
#[derive(Debug, PartialEq, Eq, Hash)]
pub struct SampleKey {
    pub model: String,
    pub id: Option<u32>,
}

impl View for SampleKey {
    type V = SampleKeyView;

    open spec fn view(&self) -> SampleKeyView {
        SampleKeyView { model: self.model@, id: self.id }
    }
}

impl Clone for SampleKey {
    fn clone(&self) -> (r: SampleKey)
        ensures
            r@ == self@,
    {
        SampleKey { model: self.model.clone(), id: self.id }
    }
}

impl SampleKey {
    /// Whether the two keys name the same device.
    pub fn same_device(&self, other: &SampleKey) -> (r: bool)
        ensures
            r == (self@ == other@),
    {
        self.model == other.model && same_id(self.id, other.id)
    }
}

/// Whether two instance numbers are the same; a missing number equals only a
/// missing number.
fn same_id(a: Option<u32>, b: Option<u32>) -> (r: bool)
    ensures
        r == (a == b),
{
    match (a, b) {
        (Some(x), Some(y)) => x == y,
        (None, None) => true,
        _ => false,
    }
}

/// The mathematical content of a [`Sample`].
pub struct SampleView {
    /// When the reading was taken in, in milliseconds since the epoch.
    pub ts: u128,
    pub model: Seq<char>,
    pub id: Option<u32>,
    /// The reported temperature in degrees Celsius.
    pub temp_c: Option<DecimalView>,
    /// The reported temperature in degrees Fahrenheit.
    pub temp_f: Option<DecimalView>,
    /// The reported relative humidity in percent.
    pub humidity: Option<DecimalView>,
}

impl SampleView {
    /// The device that the reading comes from.
    pub open spec fn key(self) -> SampleKeyView {
        SampleKeyView { model: self.model, id: self.id }
    }

    /// The temperature in degrees Celsius, reported or converted.
    pub open spec fn celsius(self) -> Option<real> {
        resolved_celsius(self.temp_c, self.temp_f)
    }

    /// The temperature in degrees Fahrenheit, reported or converted.
    pub open spec fn fahrenheit(self) -> Option<real> {
        resolved_fahrenheit(self.temp_c, self.temp_f)
    }

    /// The relative humidity in percent.
    pub open spec fn humidity_value(self) -> Option<real> {
        match self.humidity {
            Some(h) => Some(h.value()),
            None => None,
        }
    }

    /// The same reading, taken in at `ts`.
    pub open spec fn stamped(self, ts: u128) -> SampleView {
        SampleView { ts, ..self }
    }
}

/// One reading of one device. The model is never empty.
#[derive(Debug)]
pub struct Sample {
    ts: u128,
    model: String,
    id: Option<u32>,
    temp_c: Option<Decimal>,
    temp_f: Option<Decimal>,
    humidity: Option<Decimal>,
}

impl View for Sample {
    type V = SampleView;

    closed spec fn view(&self) -> SampleView {
        SampleView {
            ts: self.ts,
            model: self.model@,
            id: self.id,
            temp_c: decimal_view(self.temp_c),
            temp_f: decimal_view(self.temp_f),
            humidity: decimal_view(self.humidity),
        }
    }
}

impl DeepView for Sample {
    type V = SampleView;

    open spec fn deep_view(&self) -> SampleView {
        self@
    }
}

impl Clone for Sample {
    fn clone(&self) -> (r: Sample)
        ensures
            r@ == self@,
    {
        proof {
            use_type_invariant(self);
        }
        Sample {
            ts: self.ts,
            model: self.model.clone(),
            id: self.id,
            temp_c: self.temp_c,
            temp_f: self.temp_f,
            humidity: self.humidity,
        }
    }
}

impl Sample {
    #[verifier::type_invariant]
    spec fn well_formed(self) -> bool {
        self.model@.len() > 0
    }

    /// A reading of the device `(model, id)` with the reported values, taken
    /// in at `ts`.
    pub fn new(
        model: String,
        id: Option<u32>,
        temp_c: Option<Decimal>,
        temp_f: Option<Decimal>,
        humidity: Option<Decimal>,
        ts: u128,
    ) -> (r: Sample)
        requires
            model@.len() > 0,
        ensures
            r@ == (SampleView {
                ts,
                model: model@,
                id,
                temp_c: decimal_view(temp_c),
                temp_f: decimal_view(temp_f),
                humidity: decimal_view(humidity),
            }),
    {
        Sample { ts, model, id, temp_c, temp_f, humidity }
    }

    /// The same reading, taken in at `ts`.
    pub fn stamped(self, ts: u128) -> (r: Sample)
        ensures
            r@ == self@.stamped(ts),
    {
        proof {
            use_type_invariant(&self);
        }
        Sample {
            ts,
            model: self.model,
            id: self.id,
            temp_c: self.temp_c,
            temp_f: self.temp_f,
            humidity: self.humidity,
        }
    }

    /// The device that the reading comes from.
    pub fn key(&self) -> (r: SampleKey)
        ensures
            r@ == self@.key(),
    {
        SampleKey { model: self.model.clone(), id: self.id }
    }

    /// Whether the reading comes from the device `(model, id)`.
    pub fn is_device(&self, model: &String, id: Option<u32>) -> (r: bool)
        ensures
            r == (self@.key() == (SampleKeyView { model: model@, id })),
    {
        self.model == *model && same_id(self.id, id)
    }

    /// The temperature in degrees Celsius: the reported one or, where only
    /// degrees Fahrenheit were reported, their conversion.
    pub fn temp_c(&self) -> (r: Option<Ratio>)
        ensures
            value_of(r) == self@.celsius(),
    {
        reconcile(self.temp_c, self.temp_f).0
    }

    /// The temperature in degrees Fahrenheit: the reported one or, where
    /// only degrees Celsius were reported, their conversion.
    pub fn temp_f(&self) -> (r: Option<Ratio>)
        ensures
            value_of(r) == self@.fahrenheit(),
    {
        reconcile(self.temp_c, self.temp_f).1
    }

    /// The relative humidity in percent, where one was reported.
    pub fn humidity(&self) -> (r: Option<Ratio>)
        ensures
            value_of(r) == self@.humidity_value(),
    {
        match self.humidity {
            Some(h) => Some(h.to_ratio()),
            None => None,
        }
    }

    /// The model of the device, which is not empty.
    pub fn model(&self) -> (r: &String)
        ensures
            r@ == self@.model,
            r@.len() > 0,
    {
        proof {
            use_type_invariant(self);
        }
        &self.model
    }

    /// The number of the instance, where the protocol has one.
    pub fn id(&self) -> (r: Option<u32>)
        ensures
            r == self@.id,
    {
        self.id
    }

    /// When the reading was taken in, in milliseconds since the epoch.
    pub fn ts(&self) -> (r: u128)
        ensures
            r == self@.ts,
    {
        self.ts
    }
}

} // verus!
