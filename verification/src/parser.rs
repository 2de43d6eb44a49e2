//! From one line of the decoder's output to a reading.
//!
//! A line is one JSON object. Its member `model` is required and is a
//! string that is not empty; `id` is an unsigned integer; `temperature_C`,
//! `temperature_F` and `humidity` are numbers. The last four may be missing
//! or `null`. Every other member is ignored.

use crate::json::{decode, is_object, member};
use crate::json::{json_decoding, member_view, Member, MemberView};
use crate::measure::{Decimal, DecimalView};
use crate::numeral::{decimal_of_text, parse_decimal, parse_u32, u32_of_text};
use crate::reading::{Sample, SampleView};
use crate::units::decimal_view;
use vstd::prelude::*;

verus! {

/// The members of a line that a reading is made of.
#[derive(Debug, Clone, Copy, PartialEq, Eq, Structural)]
pub enum Field {
    Model,
    Id,
    TemperatureC,
    TemperatureF,
    Humidity,
}

/// Why a line gave no reading.
#[derive(Debug, Clone, Copy, PartialEq, Eq, Structural)]
pub enum Rejection {
    /// The line is not one JSON document.
    Malformed,
    /// The line is a JSON document, but not an object.
    NotAnObject,
    /// The object has no member `model`.
    MissingModel,
    /// The member is there, but is not what a reading can hold: not of the
    /// kind that the member must have, a model that is empty, or a number
    /// outside the limits.
    Invalid(Field),
}

/// The name under which a line holds the field.
pub open spec fn field_name(field: Field) -> Seq<char> {
    match field {
        Field::Model => "model"@,
        Field::Id => "id"@,
        Field::TemperatureC => "temperature_C"@,
        Field::TemperatureF => "temperature_F"@,
        Field::Humidity => "humidity"@,
    }
}

/// The model that the member gives.
pub open spec fn model_of(m: Option<MemberView>) -> Result<Seq<char>, Rejection> {
    match m {
        None => Err(Rejection::MissingModel),
        Some(MemberView::Text(t)) => if t.len() > 0 {
            Ok(t)
        } else {
            Err(Rejection::Invalid(Field::Model))
        },
        Some(_) => Err(Rejection::Invalid(Field::Model)),
    }
}

/// The instance number that the member gives; a missing member and `null`
/// give none.
pub open spec fn id_of(m: Option<MemberView>) -> Result<Option<u32>, Rejection> {
    match m {
        None => Ok(None),
        Some(MemberView::Null) => Ok(None),
        Some(MemberView::Number(t)) => match u32_of_text(t) {
            Some(id) => Ok(Some(id)),
            None => Err(Rejection::Invalid(Field::Id)),
        },
        Some(_) => Err(Rejection::Invalid(Field::Id)),
    }
}

/// The measured value that the member gives for `field`; a missing member
/// and `null` give none.
pub open spec fn measure_of(m: Option<MemberView>, field: Field) -> Result<
    Option<DecimalView>,
    Rejection,
> {
    match m {
        None => Ok(None),
        Some(MemberView::Null) => Ok(None),
        Some(MemberView::Number(t)) => match decimal_of_text(t) {
            Some(d) => Ok(Some(d)),
            None => Err(Rejection::Invalid(field)),
        },
        Some(_) => Err(Rejection::Invalid(field)),
    }
}

/// The reading that the five members give, not yet taken in (its time is
/// zero), or the first fault among them in the order model, id, Celsius,
/// Fahrenheit, humidity.
pub open spec fn reading_of_members(
    model: Option<MemberView>,
    id: Option<MemberView>,
    temp_c: Option<MemberView>,
    temp_f: Option<MemberView>,
    humidity: Option<MemberView>,
) -> Result<SampleView, Rejection> {
    match model_of(model) {
        Err(e) => Err(e),
        Ok(model) => match id_of(id) {
            Err(e) => Err(e),
            Ok(id) => match measure_of(temp_c, Field::TemperatureC) {
                Err(e) => Err(e),
                Ok(temp_c) => match measure_of(temp_f, Field::TemperatureF) {
                    Err(e) => Err(e),
                    Ok(temp_f) => match measure_of(humidity, Field::Humidity) {
                        Err(e) => Err(e),
                        Ok(humidity) => Ok(
                            SampleView { ts: 0, model, id, temp_c, temp_f, humidity },
                        ),
                    },
                },
            },
        },
    }
}

/// The reading that a line gives, or why it gives none.
pub open spec fn reading_of_line(line: Seq<char>) -> Result<SampleView, Rejection> {
    match json_decoding(line) {
        None => Err(Rejection::Malformed),
        Some(doc) => if !doc.is_object {
            Err(Rejection::NotAnObject)
        } else {
            reading_of_members(
                doc.member(field_name(Field::Model)),
                doc.member(field_name(Field::Id)),
                doc.member(field_name(Field::TemperatureC)),
                doc.member(field_name(Field::TemperatureF)),
                doc.member(field_name(Field::Humidity)),
            )
        },
    }
}

/// Whether `r` is the reading or the rejection that `expected` names.
pub open spec fn gives(r: Result<Sample, Rejection>, expected: Result<SampleView, Rejection>) -> bool {
    match expected {
        Ok(v) => r is Ok && r.unwrap()@ == v,
        Err(e) => r == Err::<Sample, Rejection>(e),
    }
}

impl Rejection {
    /// The reason in words, for a log.
    pub fn describe(&self) -> (r: &'static str)
        ensures
            r@ == self.description(),
    {
        match self {
            Rejection::Malformed => "not a JSON document",
            Rejection::NotAnObject => "not a JSON object",
            Rejection::MissingModel => "missing field `model`",
            Rejection::Invalid(Field::Model) => "field `model` is not a string that names a model",
            Rejection::Invalid(Field::Id) => "field `id` is not an unsigned 32-bit integer",
            Rejection::Invalid(Field::TemperatureC) => "field `temperature_C` is not a supported number",
            Rejection::Invalid(Field::TemperatureF) => "field `temperature_F` is not a supported number",
            Rejection::Invalid(Field::Humidity) => "field `humidity` is not a supported number",
        }
    }

    /// The reason in words.
    pub open spec fn description(self) -> Seq<char> {
        match self {
            Rejection::Malformed => "not a JSON document"@,
            Rejection::NotAnObject => "not a JSON object"@,
            Rejection::MissingModel => "missing field `model`"@,
            Rejection::Invalid(Field::Model) => "field `model` is not a string that names a model"@,
            Rejection::Invalid(Field::Id) => "field `id` is not an unsigned 32-bit integer"@,
            Rejection::Invalid(Field::TemperatureC) => "field `temperature_C` is not a supported number"@,
            Rejection::Invalid(Field::TemperatureF) => "field `temperature_F` is not a supported number"@,
            Rejection::Invalid(Field::Humidity) => "field `humidity` is not a supported number"@,
        }
    }
}

/// The model that the member gives.
fn read_model(m: Option<Member>) -> (r: Result<String, Rejection>)
    ensures
        match model_of(member_view(m)) {
            Ok(t) => r is Ok && r.unwrap()@ == t,
            Err(e) => r == Err::<String, Rejection>(e),
        },
{
    match m {
        None => Err(Rejection::MissingModel),
        Some(Member::Text(t)) => if !t.as_str().is_empty() {
            Ok(t)
        } else {
            Err(Rejection::Invalid(Field::Model))
        },
        Some(_) => Err(Rejection::Invalid(Field::Model)),
    }
}

/// The instance number that the member gives.
fn read_id(m: &Option<Member>) -> (r: Result<Option<u32>, Rejection>)
    ensures
        r == id_of(member_view(*m)),
{
    match m {
        None => Ok(None),
        Some(Member::Null) => Ok(None),
        Some(Member::Number(t)) => match parse_u32(t.as_str()) {
            Some(id) => Ok(Some(id)),
            None => Err(Rejection::Invalid(Field::Id)),
        },
        Some(_) => Err(Rejection::Invalid(Field::Id)),
    }
}

/// The measured value that the member gives for `field`.
fn read_measure(m: &Option<Member>, field: Field) -> (r: Result<Option<Decimal>, Rejection>)
    ensures
        match measure_of(member_view(*m), field) {
            Ok(d) => r is Ok && decimal_view(r.unwrap()) == d,
            Err(e) => r == Err::<Option<Decimal>, Rejection>(e),
        },
{
    match m {
        None => Ok(None),
        Some(Member::Null) => Ok(None),
        Some(Member::Number(t)) => match parse_decimal(t.as_str()) {
            Some(d) => Ok(Some(d)),
            None => Err(Rejection::Invalid(field)),
        },
        Some(_) => Err(Rejection::Invalid(field)),
    }
}

/// Makes a reading of the five members that a line holds under `model`,
/// `id`, `temperature_C`, `temperature_F` and `humidity`. The reading is
/// not yet taken in: its time is zero.
pub fn reading_from_members(
    model: Option<Member>,
    id: Option<Member>,
    temp_c: Option<Member>,
    temp_f: Option<Member>,
    humidity: Option<Member>,
) -> (r: Result<Sample, Rejection>)
    ensures
        gives(
            r,
            reading_of_members(
                member_view(model),
                member_view(id),
                member_view(temp_c),
                member_view(temp_f),
                member_view(humidity),
            ),
        ),
{
    let model = match read_model(model) {
        Ok(model) => model,
        Err(e) => {
            return Err(e);
        },
    };
    let id = match read_id(&id) {
        Ok(id) => id,
        Err(e) => {
            return Err(e);
        },
    };
    let temp_c = match read_measure(&temp_c, Field::TemperatureC) {
        Ok(d) => d,
        Err(e) => {
            return Err(e);
        },
    };
    let temp_f = match read_measure(&temp_f, Field::TemperatureF) {
        Ok(d) => d,
        Err(e) => {
            return Err(e);
        },
    };
    let humidity = match read_measure(&humidity, Field::Humidity) {
        Ok(d) => d,
        Err(e) => {
            return Err(e);
        },
    };
    Ok(Sample::new(model, id, temp_c, temp_f, humidity, 0))
}

/// Reads one line of the decoder's output. The reading is not yet taken
/// in: its time is zero.
pub fn parse_line(line: &str) -> (r: Result<Sample, Rejection>)
    ensures
        gives(r, reading_of_line(line@)),
{
    let doc = match decode(line) {
        Ok(doc) => doc,
        Err(_) => {
            return Err(Rejection::Malformed);
        },
    };
    if !is_object(&doc) {
        return Err(Rejection::NotAnObject);
    }
    reading_from_members(
        member(&doc, "model"),
        member(&doc, "id"),
        member(&doc, "temperature_C"),
        member(&doc, "temperature_F"),
        member(&doc, "humidity"),
    )
}

} // verus!
