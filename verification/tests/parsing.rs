use rtl433_metrics::json::Member;
use rtl433_metrics::parser::{parse_line, reading_from_members, Field, Rejection};
use rtl433_metrics::reading::Sample;

fn text(s: &str) -> Option<Member> {
    Some(Member::Text(String::from(s)))
}

fn number(s: &str) -> Option<Member> {
    Some(Member::Number(String::from(s)))
}

fn rejection(r: Result<Sample, Rejection>) -> Rejection {
    match r {
        Ok(s) => panic!("accepted: {:?}", s),
        Err(e) => e,
    }
}

#[test]
fn line_with_every_field() {
    let s = parse_line(
        "{\"model\":\"Acurite-Tower\",\"id\":1234,\"temperature_C\":21.3,\"temperature_F\":70.34,\"humidity\":45}",
    )
    .unwrap();
    assert_eq!(s.model(), "Acurite-Tower");
    assert_eq!(s.id(), Some(1234));
    assert_eq!(s.ts(), 0);
    assert_eq!(s.temp_c().unwrap().tenths(), 213);
    assert_eq!(s.temp_f().unwrap().tenths(), 703);
    assert_eq!(s.humidity().unwrap().tenths(), 450);
}

#[test]
fn line_with_model_only() {
    let s = parse_line("{\"model\":\"Doorbell\"}").unwrap();
    assert_eq!(s.model(), "Doorbell");
    assert_eq!(s.id(), None);
    assert!(s.temp_c().is_none());
    assert!(s.temp_f().is_none());
    assert!(s.humidity().is_none());
}

#[test]
fn line_may_have_space_around_it() {
    let s = parse_line("  {\"model\" : \"X\" , \"id\" : 2 }\r\n").unwrap();
    assert_eq!(s.model(), "X");
    assert_eq!(s.id(), Some(2));
}

#[test]
fn other_members_are_ignored() {
    let s = parse_line(
        "{\"time\":\"2024-01-01 00:00:00\",\"model\":\"X\",\"channel\":3,\"battery_ok\":1,\"mic\":\"CRC\",\"extra\":{\"id\":9},\"list\":[1,2],\"id\":5}",
    )
    .unwrap();
    assert_eq!(s.model(), "X");
    assert_eq!(s.id(), Some(5));
    assert_eq!(s.ts(), 0);
}

#[test]
fn members_are_found_by_their_own_names() {
    let s = parse_line("{\"model\":\"X\",\"id\":1,\"temperature_C\":2,\"temperature_F\":3,\"humidity\":4}").unwrap();
    assert_eq!(s.id(), Some(1));
    assert_eq!(s.temp_c().unwrap().tenths(), 20);
    assert_eq!(s.temp_f().unwrap().tenths(), 30);
    assert_eq!(s.humidity().unwrap().tenths(), 40);
    let s = parse_line("{\"model\":\"X\",\"temperature_c\":2,\"Temperature_F\":3,\"Humidity\":4,\"ID\":1}").unwrap();
    assert_eq!(s.id(), None);
    assert!(s.temp_c().is_none());
    assert!(s.temp_f().is_none());
    assert!(s.humidity().is_none());
}

#[test]
fn model_may_hold_any_text() {
    let s = parse_line("{\"model\":\"Th\\u00e9rm\\\"o\\\\\"}").unwrap();
    assert_eq!(s.model(), "Th\u{e9}rm\"o\\");
}

#[test]
fn truncated_line_is_malformed() {
    assert_eq!(rejection(parse_line("{\"model\":\"X\",\"id\":1,\"temperatu")), Rejection::Malformed);
    assert_eq!(rejection(parse_line("{\"model\":\"X\"")), Rejection::Malformed);
    assert_eq!(rejection(parse_line("{")), Rejection::Malformed);
    assert_eq!(rejection(parse_line("")), Rejection::Malformed);
    assert_eq!(rejection(parse_line("   ")), Rejection::Malformed);
}

#[test]
fn text_that_is_no_json_is_malformed() {
    assert_eq!(rejection(parse_line("rtl_433 version 22.11")), Rejection::Malformed);
    assert_eq!(rejection(parse_line("{model:\"X\"}")), Rejection::Malformed);
    assert_eq!(rejection(parse_line("{\"model\":\"X\"} trailing")), Rejection::Malformed);
    assert_eq!(rejection(parse_line("{\"model\":\"X\"}{\"model\":\"Y\"}")), Rejection::Malformed);
    assert_eq!(rejection(parse_line("{\"model\":\"X\",}")), Rejection::Malformed);
    assert_eq!(rejection(parse_line("{\"model\":\"X\",\"id\":01}")), Rejection::Malformed);
}

#[test]
fn document_that_is_no_object_is_rejected() {
    assert_eq!(rejection(parse_line("[\"X\",1,20.0,68.0,50.0]")), Rejection::NotAnObject);
    assert_eq!(rejection(parse_line("[]")), Rejection::NotAnObject);
    assert_eq!(rejection(parse_line("\"model\"")), Rejection::NotAnObject);
    assert_eq!(rejection(parse_line("42")), Rejection::NotAnObject);
    assert_eq!(rejection(parse_line("null")), Rejection::NotAnObject);
    assert_eq!(rejection(parse_line("true")), Rejection::NotAnObject);
}

#[test]
fn object_without_model_is_rejected() {
    assert_eq!(rejection(parse_line("{}")), Rejection::MissingModel);
    assert_eq!(rejection(parse_line("{\"id\":1,\"temperature_C\":20.0}")), Rejection::MissingModel);
    assert_eq!(rejection(parse_line("{\"Model\":\"X\"}")), Rejection::MissingModel);
}

#[test]
fn model_must_be_a_string_that_is_not_empty() {
    assert_eq!(rejection(parse_line("{\"model\":null}")), Rejection::Invalid(Field::Model));
    assert_eq!(rejection(parse_line("{\"model\":5}")), Rejection::Invalid(Field::Model));
    assert_eq!(rejection(parse_line("{\"model\":true}")), Rejection::Invalid(Field::Model));
    assert_eq!(rejection(parse_line("{\"model\":[\"X\"]}")), Rejection::Invalid(Field::Model));
    assert_eq!(rejection(parse_line("{\"model\":{\"name\":\"X\"}}")), Rejection::Invalid(Field::Model));
    assert_eq!(rejection(parse_line("{\"model\":\"\"}")), Rejection::Invalid(Field::Model));
    assert_eq!(parse_line("{\"model\":\" \"}").unwrap().model(), " ");
}

#[test]
fn id_may_be_missing_or_null() {
    assert_eq!(parse_line("{\"model\":\"X\"}").unwrap().id(), None);
    assert_eq!(parse_line("{\"model\":\"X\",\"id\":null}").unwrap().id(), None);
    assert_eq!(parse_line("{\"model\":\"X\",\"id\":0}").unwrap().id(), Some(0));
    assert_eq!(parse_line("{\"model\":\"X\",\"id\":4294967295}").unwrap().id(), Some(u32::MAX));
}

#[test]
fn id_must_be_an_unsigned_integer_of_32_bits() {
    let bad = Rejection::Invalid(Field::Id);
    assert_eq!(rejection(parse_line("{\"model\":\"X\",\"id\":4294967296}")), bad);
    assert_eq!(rejection(parse_line("{\"model\":\"X\",\"id\":-1}")), bad);
    assert_eq!(rejection(parse_line("{\"model\":\"X\",\"id\":1.0}")), bad);
    assert_eq!(rejection(parse_line("{\"model\":\"X\",\"id\":1.5}")), bad);
    assert_eq!(rejection(parse_line("{\"model\":\"X\",\"id\":1e2}")), bad);
    assert_eq!(rejection(parse_line("{\"model\":\"X\",\"id\":\"1\"}")), bad);
    assert_eq!(rejection(parse_line("{\"model\":\"X\",\"id\":true}")), bad);
    assert_eq!(rejection(parse_line("{\"model\":\"X\",\"id\":[1]}")), bad);
    assert_eq!(rejection(parse_line("{\"model\":\"X\",\"id\":{}}")), bad);
    assert_eq!(rejection(parse_line("{\"model\":\"X\",\"id\":18446744073709551616}")), bad);
}

#[test]
fn measures_may_be_missing_or_null() {
    let s = parse_line("{\"model\":\"X\",\"temperature_C\":null,\"temperature_F\":null,\"humidity\":null}").unwrap();
    assert!(s.temp_c().is_none());
    assert!(s.temp_f().is_none());
    assert!(s.humidity().is_none());
}

#[test]
fn measures_may_be_written_in_any_json_form() {
    let s = parse_line("{\"model\":\"X\",\"temperature_C\":-7,\"temperature_F\":1.94e1,\"humidity\":99.5}").unwrap();
    assert_eq!(s.temp_c().unwrap().tenths(), -70);
    assert_eq!(s.temp_f().unwrap().tenths(), 194);
    assert_eq!(s.humidity().unwrap().tenths(), 995);
    let s = parse_line("{\"model\":\"X\",\"temperature_C\":2E1,\"humidity\":0.05}").unwrap();
    assert_eq!(s.temp_c().unwrap().tenths(), 200);
    assert_eq!(s.temp_f().unwrap().tenths(), 680);
    assert_eq!(s.humidity().unwrap().tenths(), 0);
    let s = parse_line("{\"model\":\"X\",\"temperature_C\":-0.0,\"humidity\":1e-7}").unwrap();
    assert_eq!(s.temp_c().unwrap().tenths(), 0);
    assert_eq!(s.temp_f().unwrap().tenths(), 320);
    assert_eq!(s.humidity().unwrap().tenths(), 0);
}

#[test]
fn measures_must_be_numbers() {
    assert_eq!(
        rejection(parse_line("{\"model\":\"X\",\"temperature_C\":\"20.0\"}")),
        Rejection::Invalid(Field::TemperatureC)
    );
    assert_eq!(
        rejection(parse_line("{\"model\":\"X\",\"temperature_F\":true}")),
        Rejection::Invalid(Field::TemperatureF)
    );
    assert_eq!(
        rejection(parse_line("{\"model\":\"X\",\"humidity\":[45]}")),
        Rejection::Invalid(Field::Humidity)
    );
    assert_eq!(
        rejection(parse_line("{\"model\":\"X\",\"humidity\":{\"value\":45}}")),
        Rejection::Invalid(Field::Humidity)
    );
}

#[test]
fn measures_must_be_within_the_limits() {
    assert_eq!(
        rejection(parse_line("{\"model\":\"X\",\"temperature_C\":1e30}")),
        Rejection::Invalid(Field::TemperatureC)
    );
    assert_eq!(
        rejection(parse_line("{\"model\":\"X\",\"temperature_F\":1e-30}")),
        Rejection::Invalid(Field::TemperatureF)
    );
    assert_eq!(
        rejection(parse_line("{\"model\":\"X\",\"humidity\":18446744073709551615}")),
        Rejection::Invalid(Field::Humidity)
    );
    assert_eq!(parse_line("{\"model\":\"X\",\"humidity\":9223372036854775807}").unwrap().humidity().unwrap().tenths(), 92233720368547758070);
}

#[test]
fn first_fault_in_field_order_is_reported() {
    assert_eq!(
        rejection(parse_line("{\"id\":\"a\",\"temperature_C\":\"b\",\"humidity\":\"c\"}")),
        Rejection::MissingModel
    );
    assert_eq!(
        rejection(parse_line("{\"humidity\":\"c\",\"temperature_F\":\"b\",\"id\":\"a\",\"model\":7}")),
        Rejection::Invalid(Field::Model)
    );
    assert_eq!(
        rejection(parse_line("{\"humidity\":\"c\",\"temperature_F\":\"b\",\"temperature_C\":\"b\",\"id\":\"a\",\"model\":\"X\"}")),
        Rejection::Invalid(Field::Id)
    );
    assert_eq!(
        rejection(parse_line("{\"humidity\":\"c\",\"temperature_F\":\"b\",\"temperature_C\":\"b\",\"model\":\"X\"}")),
        Rejection::Invalid(Field::TemperatureC)
    );
    assert_eq!(
        rejection(parse_line("{\"humidity\":\"c\",\"temperature_F\":\"b\",\"model\":\"X\"}")),
        Rejection::Invalid(Field::TemperatureF)
    );
    assert_eq!(
        rejection(parse_line("{\"humidity\":\"c\",\"model\":\"X\"}")),
        Rejection::Invalid(Field::Humidity)
    );
}

#[test]
fn reading_from_members_given_by_hand() {
    let s = reading_from_members(text("X"), number("12"), number("-1.5"), None, Some(Member::Null)).unwrap();
    assert_eq!(s.model(), "X");
    assert_eq!(s.id(), Some(12));
    assert_eq!(s.ts(), 0);
    assert_eq!(s.temp_c().unwrap().tenths(), -15);
    assert_eq!(s.temp_f().unwrap().tenths(), 293);
    assert!(s.humidity().is_none());
}

#[test]
fn reading_from_members_rejects_each_fault() {
    assert_eq!(rejection(reading_from_members(None, None, None, None, None)), Rejection::MissingModel);
    assert_eq!(
        rejection(reading_from_members(text(""), None, None, None, None)),
        Rejection::Invalid(Field::Model)
    );
    assert_eq!(
        rejection(reading_from_members(number("1"), None, None, None, None)),
        Rejection::Invalid(Field::Model)
    );
    assert_eq!(
        rejection(reading_from_members(Some(Member::Null), None, None, None, None)),
        Rejection::Invalid(Field::Model)
    );
    assert_eq!(
        rejection(reading_from_members(text("X"), text("1"), None, None, None)),
        Rejection::Invalid(Field::Id)
    );
    assert_eq!(
        rejection(reading_from_members(text("X"), number("one"), None, None, None)),
        Rejection::Invalid(Field::Id)
    );
    assert_eq!(
        rejection(reading_from_members(text("X"), Some(Member::Bool(false)), None, None, None)),
        Rejection::Invalid(Field::Id)
    );
    assert_eq!(
        rejection(reading_from_members(text("X"), None, Some(Member::Array), None, None)),
        Rejection::Invalid(Field::TemperatureC)
    );
    assert_eq!(
        rejection(reading_from_members(text("X"), None, None, number("1.2.3"), None)),
        Rejection::Invalid(Field::TemperatureF)
    );
    assert_eq!(
        rejection(reading_from_members(text("X"), None, None, None, Some(Member::Object))),
        Rejection::Invalid(Field::Humidity)
    );
}

#[test]
fn rejections_say_why() {
    assert_eq!(Rejection::Malformed.describe(), "not a JSON document");
    assert_eq!(Rejection::NotAnObject.describe(), "not a JSON object");
    assert_eq!(Rejection::MissingModel.describe(), "missing field `model`");
    assert_eq!(Rejection::Invalid(Field::Model).describe(), "field `model` is not a string that names a model");
    assert_eq!(Rejection::Invalid(Field::Id).describe(), "field `id` is not an unsigned 32-bit integer");
    assert_eq!(Rejection::Invalid(Field::TemperatureC).describe(), "field `temperature_C` is not a supported number");
    assert_eq!(Rejection::Invalid(Field::TemperatureF).describe(), "field `temperature_F` is not a supported number");
    assert_eq!(Rejection::Invalid(Field::Humidity).describe(), "field `humidity` is not a supported number");
}
