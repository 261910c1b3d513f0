use gql_client::calendar::Month;
use gql_client::json::JsonScalar;
use gql_client::types::{Boolean, Date, DateTime, Int, Time, ID};
use gql_client::Error;

/// The member `value` of a JSON object, as far as a scalar type reads it.
fn member(text: &str) -> Option<JsonScalar> {
    let object: serde_json::Value = serde_json::from_str(text).ok()?;
    Some(match object.get("value")? {
        serde_json::Value::Null => JsonScalar::Null,
        serde_json::Value::Bool(b) => JsonScalar::Bool(*b),
        serde_json::Value::Number(n) => {
            if let Some(u) = n.as_u64() {
                JsonScalar::Unsigned(u)
            } else if let Some(i) = n.as_i64() {
                JsonScalar::Signed(i)
            } else {
                JsonScalar::Float
            }
        }
        serde_json::Value::String(s) => JsonScalar::String(s.clone()),
        serde_json::Value::Array(_) => JsonScalar::Array,
        serde_json::Value::Object(_) => JsonScalar::Object,
    })
}

/// The JSON object with the one member `value`.
fn object(value: JsonScalar) -> String {
    let value = match value {
        JsonScalar::Bool(b) => serde_json::Value::from(b),
        JsonScalar::Unsigned(u) => serde_json::Value::from(u),
        JsonScalar::Signed(i) => serde_json::Value::from(i),
        JsonScalar::String(s) => serde_json::Value::from(s),
        _ => serde_json::Value::Null,
    };
    let mut object = serde_json::Map::new();
    object.insert(String::from("value"), value);
    serde_json::to_string(&object).unwrap()
}

fn month(number: u8) -> Month {
    Month::from_number(number).unwrap()
}

fn expect_str_error(s: &str) {
    let result = Boolean::from_str(s);
    if let Ok(_) = result {
        panic!("Expecting error for {}", s);
    }
}

#[test]
fn boolean_test_from_str() {
    assert_eq!(Boolean::from_str("true").unwrap().0, true);
    assert_eq!(Boolean::from_str("false").unwrap().0, false);

    expect_str_error("maybe");
    expect_str_error("\"maybe\"");
    expect_str_error("2");
    expect_str_error("[true]");
}

fn expect_boolean(s: &str, expect: bool) {
    match member(s).map(|v| Boolean::from_json(&v)) {
        Some(Ok(value)) => assert_eq!(value.0, expect),
        _ => panic!("Expecting {:?} for {}", expect, s),
    }
}

fn expect_boolean_error(s: &str) {
    if let Some(Ok(_)) = member(s).map(|v| Boolean::from_json(&v)) {
        panic!("Expecting error for {}", s);
    }
}

#[test]
fn boolean_test_parse() {
    expect_boolean(r#"{ "value": true }"#, true);
    expect_boolean(r#"{ "value": false }"#, false);

    expect_boolean_error(r#"{ "value": 123 }"#);
    expect_boolean_error(r#"{ "value": [1,2,3]] }"#);
    expect_boolean_error(r#"{ "value": {} }"#);
}

#[test]
fn boolean_test_serialize() {
    assert_eq!(object(Boolean(true).to_json()), "{\"value\":true}");
}

#[test]
fn boolean_round_trip() {
    for v in [true, false] {
        assert_eq!(Boolean(v).to_string(), format!("{}", v));
        assert_eq!(Boolean::from_str(&Boolean(v).to_string()).unwrap().0, v);
        assert_eq!(Boolean::from_json(&Boolean(v).to_json()).unwrap().0, v);
    }
}

#[test]
fn boolean_traits() {
    assert_eq!(Boolean::default(), Boolean(false));
    assert_eq!(Boolean::from(true), Boolean(true));
    assert_eq!(*Boolean(true), true);
    assert!(Boolean(false) < Boolean(true));
    assert!(Boolean(true) >= Boolean(true));
}

#[test]
fn boolean_refuses_other_json() {
    for v in [
        JsonScalar::Null,
        JsonScalar::Unsigned(1),
        JsonScalar::Signed(-1),
        JsonScalar::Float,
        JsonScalar::String(String::from("true")),
        JsonScalar::Array,
        JsonScalar::Object,
    ] {
        assert!(matches!(Boolean::from_json(&v), Err(Error::DecodeError(t)) if t == "a bool value"));
    }
}

#[test]
fn id_test_from_str() {
    let expected = String::from("IdValue");
    let value = ID::from_str(&expected).unwrap();

    assert_eq!(value.0, expected);
}

fn expect_id(s: &str, value: &str) {
    let expect = String::from(value);
    match member(s).map(|v| ID::from_json(&v)) {
        Some(Ok(id)) => assert_eq!(id.0, expect),
        _ => panic!("Expecting {:?} for {}", expect, s),
    }
}

fn expect_id_error(s: &str) {
    if let Some(Ok(_)) = member(s).map(|v| ID::from_json(&v)) {
        panic!("Expecting error for {}", s);
    }
}

#[test]
fn id_test_parse() {
    expect_id(r#"{ "value": "2024-04-05" }"#, "2024-04-05");

    expect_id_error(r#"{ "value": 123 }"#);
    expect_id_error(r#"{ "value": [1,2,3]] }"#);
    expect_id_error(r#"{ "value": {} }"#);
}

#[test]
fn id_test_serialize() {
    assert_eq!(
        object(ID(String::from("King Richard the Third")).to_json()),
        "{\"value\":\"King Richard the Third\"}"
    );
}

#[test]
fn id_order_is_the_order_of_strings() {
    let texts = ["", "a", "A", "ab", "abc", "b", "ä", "z", "é", "日本", "a\u{10000}", "a\u{ffff}"];
    for a in texts {
        for b in texts {
            let x = ID::new(String::from(a));
            let y = ID::new(String::from(b));
            assert_eq!(x.partial_cmp(&y), a.partial_cmp(b), "{:?} {:?}", a, b);
            assert_eq!(x == y, a == b);
        }
    }
    assert_eq!(ID::new(String::from("x")).len(), 1);
    assert_eq!(ID::new(String::from("x")).to_string(), "x");
}

#[test]
fn int_test_from_str() {
    let expected = 42;
    let value = Int::from_str("42").unwrap();

    assert_eq!(value.0, expected);
}

fn expect_int(s: &str, expect: i32) {
    match member(s).map(|v| Int::from_json(&v)) {
        Some(Ok(value)) => assert_eq!(value.0, expect),
        _ => panic!("Expecting {:?} for {}", expect, s),
    }
}

fn expect_int_error(s: &str) {
    if let Some(Ok(_)) = member(s).map(|v| Int::from_json(&v)) {
        panic!("Expecting error for {}", s);
    }
}

#[test]
fn int_test_parse() {
    expect_int(r#"{ "value": 42 }"#, 42);
    expect_int(r#"{ "value": -42 }"#, -42);

    expect_int(r#"{ "value": 32000 }"#, 32000);
    expect_int(r#"{ "value": -32000 }"#, -32000);

    expect_int(r#"{ "value": 66000 }"#, 66000);
    expect_int(r#"{ "value": -66000 }"#, -66000);

    expect_int_error(r#"{ "value": [1,2,3]] }"#);
    expect_int_error(r#"{ "value": {} }"#);
}

#[test]
fn int_test_serialize() {
    assert_eq!(object(Int(42).to_json()), "{\"value\":42}");
}

#[test]
fn int_decode_takes_what_32_bits_hold() {
    expect_int(r#"{ "value": 2147483647 }"#, i32::MAX);
    expect_int(r#"{ "value": -2147483648 }"#, i32::MIN);
    expect_int(r#"{ "value": 0 }"#, 0);
    for text in [
        r#"{ "value": 2147483648 }"#,
        r#"{ "value": -2147483649 }"#,
        r#"{ "value": 4294967296 }"#,
        r#"{ "value": 18446744073709551615 }"#,
        r#"{ "value": 1e30 }"#,
        r#"{ "value": 1.5 }"#,
        r#"{ "value": "42" }"#,
        r#"{ "value": true }"#,
        r#"{ "value": null }"#,
        r#"{ "value": [42] }"#,
        r#"{ "value": {"value": 42} }"#,
    ] {
        let scalar = member(text).unwrap();
        assert!(
            matches!(Int::from_json(&scalar), Err(Error::DecodeError(t)) if t == "an i32 value"),
            "{}",
            text
        );
    }
    assert_eq!(Int::from_json(&JsonScalar::Signed(7)).unwrap().0, 7);
    assert!(Int::from_json(&JsonScalar::Signed(i64::MAX)).is_err());
    assert!(Int::from_json(&JsonScalar::Signed(i64::MIN)).is_err());
    for v in [0, 1, -1, 66000, -66000, i32::MAX, i32::MIN] {
        assert_eq!(Int::from_json(&Int(v).to_json()).unwrap().0, v);
    }
    assert!(matches!(Int(5).to_json(), JsonScalar::Unsigned(5)));
    assert!(matches!(Int(-5).to_json(), JsonScalar::Signed(-5)));
}

#[test]
fn test_as_decimal() {
    assert_eq!(Int(1).as_decimal(2), "0.01");
    assert_eq!(Int(12).as_decimal(2), "0.12");
    assert_eq!(Int(4212).as_decimal(2), "42.12");
}

#[test]
fn as_decimal_at_the_edges() {
    assert_eq!(Int(42).as_decimal(0), "42.");
    assert_eq!(Int(0).as_decimal(0), "0.");
    assert_eq!(Int(0).as_decimal(3), "0.000");
    assert_eq!(Int(123).as_decimal(3), "0.123");
    assert_eq!(Int(1234).as_decimal(3), "1.234");
    assert_eq!(Int(-5).as_decimal(1), "-.5");
    assert_eq!(Int(-5).as_decimal(2), "0.-5");
    assert_eq!(Int(i32::MAX).as_decimal(9), "2.147483647");
}

#[test]
fn int_from_str_agrees_with_std() {
    let texts = [
        "0", "-0", "+0", "7", "+7", "-7", "007", "-007", "2147483647", "2147483648",
        "-2147483648", "-2147483649", "99999999999999999999999999", "", "+", "-", "--1", "+-1",
        "1 ", " 1", "1_000", "0x10", "1.0", "١٢٣", "12a", "a12", "00000000000000000000000012",
    ];
    for text in texts {
        let expected = text.parse::<i32>().ok();
        let read = Int::from_str(text).ok().map(|v| v.0);
        assert_eq!(read, expected, "{:?}", text);
    }
}

#[test]
fn refusal_hands_the_text_back() {
    assert!(matches!(Int::from_str("12a"), Err(Error::InvalidInputError(t)) if t == "12a"));
    assert!(matches!(Boolean::from_str("yes"), Err(Error::InvalidInputError(t)) if t == "yes"));
    assert!(matches!(Date::from_str("444."), Err(Error::InvalidInputError(t)) if t == "444."));
    assert!(matches!(DateTime::from_str("now"), Err(Error::InvalidInputError(t)) if t == "now"));
}

#[test]
fn int_to_string_agrees_with_std() {
    for v in [0, 1, -1, 9, 10, -10, 42, 66000, -66000, i32::MAX, i32::MIN] {
        assert_eq!(Int(v).to_string(), format!("{}", v));
        assert_eq!(Int::from_str(&Int(v).to_string()).unwrap().0, v);
    }
}

#[test]
fn int_with_a_plus_sign_is_not_written_back() {
    let read = Int::from_str("+5").unwrap();
    assert_eq!(read.to_string(), "5");
    assert_eq!(Int::from_str("007").unwrap().to_string(), "7");
}

#[test]
fn int_arithmetic() {
    assert_eq!(Int(40) + Int(2), Int(42));
    assert_eq!(Int(40) - Int(42), Int(-2));
    assert_eq!(Int(6) * Int(-7), Int(-42));
    assert_eq!(Int(7) / Int(2), Int(3));
    assert_eq!(Int(-7) / Int(2), Int(-3));
    assert_eq!(Int(7) / Int(-2), Int(-3));
    assert_eq!(Int(-7) / Int(-2), Int(3));
    assert_eq!(Int(i32::MIN) / Int(1), Int(i32::MIN));
    assert_eq!(Int(i32::MIN) / Int(2), Int(i32::MIN / 2));
    let mut v = Int(1);
    v += Int(2);
    assert_eq!(v, Int(3));
    assert_eq!(*v, 3);
    assert!(Int(-1) < Int(0));
    assert!(Int(3) > Int(2));
    assert_eq!(Int::new(9).0, 9);
}

#[test]
fn date_test_from_str() {
    let expected = time::Date::from_calendar_date(2024, time::Month::April, 5).unwrap();
    let value = Date::from_str("2024-04-05").unwrap();

    assert_eq!(value.year(), expected.year());
    assert_eq!(value.month().number(), u8::from(expected.month()));
    assert_eq!(value.day(), expected.day());
}

#[test]
fn date_test_display() {
    let date = Date::from_str("2024-04-05").unwrap();
    let value = date.to_string().unwrap();

    assert_eq!(value, "2024-04-05");
}

fn expect_date(s: &str, year: i32, month: Month, day: u8) {
    let expect = Date::from_calendar_date(year, month, day).unwrap();
    match member(s).map(|v| Date::from_json(&v)) {
        Some(Ok(date)) => assert_eq!(date, expect),
        _ => panic!("Expecting {:?} for {}", expect, s),
    }
}

fn expect_date_error(s: &str) {
    if let Some(Ok(_)) = member(s).map(|v| Date::from_json(&v)) {
        panic!("Expecting error for {}", s);
    }
}

#[test]
fn date_test_parse() {
    expect_date(r#"{ "value": "2024-04-05" }"#, 2024, Month::April, 5);

    expect_date_error(r#"{ "value": "444." }"#);
    expect_date_error(r#"{ "value": "1/2/2022" }"#);
}

#[test]
fn date_test_serialize() {
    let value = Date::from_calendar_date(1944, Month::June, 6).unwrap();
    assert_eq!(object(value.to_json().unwrap()), "{\"value\":\"1944-06-06\"}");
}

#[test]
fn date_round_trips() {
    let value = Date::from_str("1944-06-06").unwrap();
    assert_eq!(value.to_calendar_date(), (1944, Month::June, 6));
    assert_eq!(value.to_string().unwrap(), "1944-06-06");
    assert_eq!(Date::from_json(&value.to_json().unwrap()).unwrap(), value);
}

#[test]
fn date_refuses_what_is_not_a_day() {
    for text in [
        "", "444.", "1/2/2022", "2024-4-5", "2024-04-5", "24-04-05", "2024-04-05 ", " 2024-04-05",
        "2024/04/05", "2024-04-05T00:00:00Z", "+2024-04-05", "-0000-01-01", "-0044-03-15",
        "-9999-01-01", "-2024-04-05", "+024-04-05", "-024-04-05", "2024-00-10",
        "2024-13-10", "2024-01-00", "2024-01-32", "2023-02-29", "1900-02-29", "2024-04-31",
        "２０２４-04-05", "2024-04-0５", "20240-4-05", "--024-04-05", "2024-04--5",
    ] {
        assert!(matches!(Date::from_str(text), Err(Error::InvalidInputError(_))), "{:?}", text);
        assert!(
            matches!(
                Date::from_json(&JsonScalar::String(String::from(text))),
                Err(Error::DecodeError(t)) if t == "a date value YYYY-MM-DD"
            ),
            "{:?}",
            text
        );
    }
    for v in [JsonScalar::Null, JsonScalar::Unsigned(20240405), JsonScalar::Array] {
        assert!(matches!(Date::from_json(&v), Err(Error::DecodeError(_))));
    }
    assert!(Date::from_str("2024-02-29").is_ok());
    assert!(Date::from_str("2000-02-29").is_ok());
    assert!(Date::from_str("0000-01-01").is_ok());
    assert!(Date::from_str("9999-12-31").is_ok());
}

#[test]
fn a_day_before_the_year_0_is_held_and_not_written() {
    let ides = Date::from_calendar_date(-44, Month::March, 15).unwrap();
    assert_eq!(ides.to_calendar_date(), (-44, Month::March, 15));
    assert_eq!(ides.to_string(), None);
    assert!(matches!(
        ides.to_json(),
        Err(Error::SerializationError(t)) if t == "Can't format Date"
    ));
    assert!(ides < Date::from_calendar_date(0, Month::January, 1).unwrap());
    let first = Date::from_calendar_date(0, Month::January, 1).unwrap();
    assert_eq!(first.to_string().unwrap(), "0000-01-01");
}

fn days_in(year: i32, month: u8) -> u8 {
    match month {
        2 if year % 4 == 0 && (year % 100 != 0 || year % 400 == 0) => 29,
        2 => 28,
        4 | 6 | 9 | 11 => 30,
        _ => 31,
    }
}

#[test]
fn the_days_that_exist_are_those_of_the_calendar() {
    for year in (-10001..=10001).step_by(7).chain([-10000, -9999, -400, -100, -4, -1, 0, 1, 4, 100, 400, 1900, 2000, 2024, 9999, 10000]) {
        for number in 1..=12u8 {
            for day in [0u8, 1, 28, 29, 30, 31, 32, 255] {
                let expect = -9999 <= year && year <= 9999 && 1 <= day && day <= days_in(year, number);
                let made = Date::from_calendar_date(year, month(number), day);
                assert_eq!(made.is_ok(), expect, "{} {} {}", year, number, day);
                if let Ok(date) = made {
                    assert_eq!((date.year(), date.month().number(), date.day()), (year, number, day));
                } else {
                    assert!(matches!(made, Err(Error::InvalidInputError(t)) if t == "date"));
                }
            }
        }
    }
}

#[test]
fn dates_are_written_as_the_time_crate_writes_them() {
    let format = time::format_description::parse("[year]-[month]-[day]").unwrap();
    for (year, number, day) in [
        (2024, 4, 5), (1944, 6, 6), (0, 1, 1), (5, 12, 31), (9999, 12, 31), (1970, 1, 1),
        (10, 10, 10), (999, 9, 9), (2000, 2, 29),
    ] {
        let ours = Date::from_calendar_date(year, month(number), day).unwrap();
        let theirs =
            time::Date::from_calendar_date(year, time::Month::try_from(number).unwrap(), day)
                .unwrap();
        let text = theirs.format(&format).unwrap();
        assert_eq!(ours.to_string().unwrap(), text);
        assert_eq!(Date::from_str(&text).unwrap(), ours);
        assert_eq!(time::Date::parse(&ours.to_string().unwrap(), &format).unwrap(), theirs);
    }
}

#[test]
fn dates_are_in_the_order_of_time() {
    let days = [
        Date::from_calendar_date(-1, Month::December, 31).unwrap(),
        Date::from_calendar_date(0, Month::January, 1).unwrap(),
        Date::from_calendar_date(2023, Month::December, 31).unwrap(),
        Date::from_calendar_date(2024, Month::January, 30).unwrap(),
        Date::from_calendar_date(2024, Month::February, 1).unwrap(),
        Date::from_calendar_date(2024, Month::February, 2).unwrap(),
    ];
    for (i, a) in days.iter().enumerate() {
        for (j, b) in days.iter().enumerate() {
            assert_eq!(a.partial_cmp(b), i.partial_cmp(&j));
            assert_eq!(a.cmp(b), i.cmp(&j));
            assert_eq!(a == b, i == j);
        }
    }
}

#[test]
fn datetime_test_from_str() {
    let expected = time::OffsetDateTime::from_unix_timestamp(0).unwrap();
    let value = DateTime::from_str("1970-01-01T00:00:00.0Z").unwrap();

    assert_eq!(value.unix_timestamp_nanos(), expected.unix_timestamp_nanos());
    assert_eq!(value.offset_whole_seconds(), expected.offset().whole_seconds());
}

#[test]
fn datetime_test_display() {
    let date = DateTime::from_str("1944-06-06T00:06:00Z").unwrap();
    let value = date.to_string().unwrap();

    assert_eq!(value, "1944-06-06T00:06:00Z");
}

fn expect_date_time(s: &str, timestamp: i64) {
    let expect = time::OffsetDateTime::from_unix_timestamp(timestamp).unwrap();
    match member(s).map(|v| DateTime::from_json(&v)) {
        Some(Ok(value)) => assert_eq!(value.unix_timestamp_nanos(), expect.unix_timestamp_nanos()),
        _ => panic!("Expecting {:?} for {}", expect, s),
    }
}

fn expect_date_time_error(s: &str) {
    if let Some(Ok(_)) = member(s).map(|v| DateTime::from_json(&v)) {
        panic!("Expecting error for {}", s);
    }
}

#[test]
fn datetime_test_parse() {
    expect_date_time(r#"{ "value": "1944-06-06T00:06:00Z" }"#, -806975640);

    expect_date_time_error(r#"{ "value": "444." }"#);
    expect_date_time_error(r#"{ "value": "1/2/2022" }"#);
}

#[test]
fn datetime_test_serialize() {
    let value = DateTime::from_unix_timestamp(-806975640).unwrap();
    assert_eq!(object(value.to_json().unwrap()), "{\"value\":\"1944-06-06T00:06:00Z\"}");
}

#[test]
fn date_time_text_is_not_always_written_back() {
    let value = DateTime::from_str("1970-01-01T00:00:00.0Z").unwrap();
    assert_eq!(value.to_string().unwrap(), "1970-01-01T00:00:00Z");
}

#[test]
fn date_time_keeps_its_clock() {
    let value = DateTime::from_str("2024-04-05T23:30:00.25-02:30").unwrap();
    let theirs = time::OffsetDateTime::parse(
        "2024-04-05T23:30:00.25-02:30",
        &time::format_description::well_known::Rfc3339,
    )
    .unwrap();
    assert_eq!(value.offset_whole_seconds(), -9000);
    assert_eq!(value.unix_timestamp_nanos(), theirs.unix_timestamp_nanos());
    assert_eq!(value.to_string().unwrap(), "2024-04-05T23:30:00.25-02:30");
    assert_eq!(value.to_date(), Date::from_calendar_date(2024, Month::April, 5).unwrap());

    let utc = DateTime::from_str("2024-04-06T02:00:00.25Z").unwrap();
    assert_eq!(utc, value);
    assert_eq!(utc.partial_cmp(&value), Some(std::cmp::Ordering::Equal));
    assert_eq!(utc.to_date(), Date::from_calendar_date(2024, Month::April, 6).unwrap());
    assert!(DateTime::from_str("2024-04-06T02:00:00.24Z").unwrap() < value);
    assert!(DateTime::from_str("2024-04-06T02:00:01+00:00").unwrap() > value);
}

#[test]
fn date_time_constructors_agree_with_the_time_crate() {
    for (y, m, d, h, mi, s) in [
        (1970, 1, 1, 0, 0, 0), (1944, 6, 6, 0, 6, 0), (2024, 2, 29, 23, 59, 59),
        (-9999, 1, 1, 0, 0, 0), (9999, 12, 31, 23, 59, 59), (0, 1, 1, 12, 0, 0),
    ] {
        let date = time::Date::from_calendar_date(y, time::Month::try_from(m).unwrap(), d).unwrap();
        let theirs = time::OffsetDateTime::new_utc(date, time::Time::from_hms(h, mi, s).unwrap());
        let ours = DateTime::from_calendar_date_time(y, month(m), d, h, mi, s).unwrap();
        assert_eq!(ours.unix_timestamp_nanos(), theirs.unix_timestamp_nanos());
        assert_eq!(ours.offset_whole_seconds(), 0);
        assert_eq!(ours.to_date(), Date::from_calendar_date(y, month(m), d).unwrap());

        let day = Date::from_calendar_date(y, month(m), d).unwrap();
        assert_eq!(DateTime::from_date_hms(day, h, mi, s).unwrap(), ours);
        assert_eq!(DateTime::from_date_time(day, Time::from_hms(h, mi, s).unwrap()), ours);
        assert_eq!(DateTime::from_unix_timestamp(theirs.unix_timestamp()).unwrap(), ours);
        assert_eq!(
            DateTime::from_unix_timestamp_nanos(theirs.unix_timestamp_nanos()).unwrap(),
            ours
        );
        let midnight = DateTime::from_calendar_date(y, month(m), d).unwrap();
        assert_eq!(
            midnight.unix_timestamp_nanos(),
            time::OffsetDateTime::new_utc(date, time::Time::MIDNIGHT).unix_timestamp_nanos()
        );
    }
    let late = DateTime::from_date_time(
        Date::from_calendar_date(2024, Month::April, 5).unwrap(),
        Time::from_hms_nano(1, 2, 3, 4).unwrap(),
    );
    assert_eq!(late.to_string().unwrap(), "2024-04-05T01:02:03.000000004Z");
    assert_eq!(Time::from_hms_nano(1, 2, 3, 4).unwrap().as_hms_nano(), (1, 2, 3, 4));
}

#[test]
fn date_time_constructors_refuse_what_the_time_crate_refuses() {
    for ts in [
        i64::MIN, -377705116801, -377705116800, -1, 0, 1, 253402300799, 253402300800, i64::MAX,
    ] {
        let theirs = time::OffsetDateTime::from_unix_timestamp(ts);
        let ours = DateTime::from_unix_timestamp(ts);
        assert_eq!(ours.is_ok(), theirs.is_ok(), "{}", ts);
        if ours.is_err() {
            assert!(matches!(ours, Err(Error::InvalidInputError(t)) if t == "timestamp"));
        }
    }
    for ns in [
        i128::MIN,
        -377705116800000000001,
        -377705116800000000000,
        -1,
        0,
        253402300799999999999,
        253402300800000000000,
        i128::MAX,
    ] {
        let theirs = time::OffsetDateTime::from_unix_timestamp_nanos(ns);
        let ours = DateTime::from_unix_timestamp_nanos(ns);
        assert_eq!(ours.is_ok(), theirs.is_ok(), "{}", ns);
        if let Ok(ours) = ours {
            assert_eq!(ours.unix_timestamp_nanos(), ns);
        }
    }
    assert!(matches!(
        DateTime::from_calendar_date(2023, Month::February, 29),
        Err(Error::InvalidInputError(t)) if t == "date"
    ));
    assert!(matches!(
        DateTime::from_calendar_date_time(2023, Month::February, 29, 24, 0, 0),
        Err(Error::InvalidInputError(t)) if t == "date"
    ));
    assert!(matches!(
        DateTime::from_calendar_date_time(2023, Month::February, 28, 24, 0, 0),
        Err(Error::InvalidInputError(t)) if t == "time"
    ));
    let day = Date::from_calendar_date(2023, Month::February, 28).unwrap();
    for (h, mi, s) in [(24, 0, 0), (0, 60, 0), (0, 0, 60), (255, 255, 255)] {
        assert!(time::Time::from_hms(h, mi, s).is_err());
        assert!(matches!(Time::from_hms(h, mi, s), Err(Error::InvalidInputError(t)) if t == "time"));
        assert!(matches!(
            DateTime::from_date_hms(day, h, mi, s),
            Err(Error::InvalidInputError(t)) if t == "time"
        ));
    }
    assert!(Time::from_hms_nano(0, 0, 0, 1_000_000_000).is_err());
    assert!(Time::from_hms(23, 59, 59).is_ok());
}

#[test]
fn date_time_that_rfc_3339_cannot_write() {
    let early = DateTime::from_calendar_date(-1, Month::January, 1).unwrap();
    assert_eq!(early.to_string(), None);
    assert!(matches!(
        early.to_json(),
        Err(Error::SerializationError(t)) if t == "Can't format OffsetDateTime"
    ));
    assert_eq!(early.to_date(), Date::from_calendar_date(-1, Month::January, 1).unwrap());
    let first = DateTime::from_calendar_date(0, Month::January, 1).unwrap();
    assert_eq!(first.to_string().unwrap(), "0000-01-01T00:00:00Z");
    let last = DateTime::from_calendar_date_time(9999, Month::December, 31, 23, 59, 59).unwrap();
    assert_eq!(last.to_string().unwrap(), "9999-12-31T23:59:59Z");
}

#[test]
fn date_time_at_the_edge_of_the_years() {
    let value = DateTime::from_str("9999-12-31T23:59:59-23:59").unwrap();
    assert_eq!(value.to_string().unwrap(), "9999-12-31T23:59:59-23:59");
    assert_eq!(value.to_date(), Date::from_calendar_date(9999, Month::December, 31).unwrap());
    let value = DateTime::from_str("0000-01-01T00:00:00+23:59").unwrap();
    assert_eq!(value.to_string().unwrap(), "0000-01-01T00:00:00+23:59");
    assert_eq!(value.to_date(), Date::from_calendar_date(0, Month::January, 1).unwrap());
    assert!(value < DateTime::from_str("0000-01-01T00:00:00Z").unwrap());
}

#[test]
fn month_numbers() {
    for number in 0..=255u8 {
        match Month::from_number(number) {
            Some(m) => {
                assert!((1..=12).contains(&number));
                assert_eq!(m.number(), number);
                assert_eq!(u8::from(time::Month::try_from(number).unwrap()), m.number());
            }
            None => assert!(time::Month::try_from(number).is_err()),
        }
    }
    assert_eq!(Month::June.number(), 6);
}

#[test]
fn date_time_reads_what_the_time_crate_reads() {
    let format = time::format_description::well_known::Rfc3339;
    for text in [
        "1970-01-01T00:00:00Z",
        "1970-01-01t00:00:00z",
        "1970-01-01 00:00:00Z",
        "2016-12-31T23:59:60Z",
        "2016-12-31T23:59:60+01:00",
        "2017-01-01T00:59:60+01:00",
        "9999-12-31T23:59:60-01:00",
        "9999-12-31T23:59:59.999999999-23:59",
        "0000-01-01T00:00:00+23:59",
        "2024-04-05T10:20:30.123456789123+05:30",
        "2024-04-05T10:20:30+24:00",
        "2024-04-05T10:20:30+05:60",
        "2024-02-30T10:20:30Z",
        "2024-04-05T24:00:00Z",
        "2024-04-05T10:20:30",
        "2024-04-05",
        "2024-04-05T10:20:30Z ",
        "20240405T102030Z",
        "",
        "日本",
    ] {
        let theirs = time::OffsetDateTime::parse(text, &format).ok();
        let ours = DateTime::from_str(text).ok();
        assert_eq!(ours.is_some(), theirs.is_some(), "{:?}", text);
        if let (Some(ours), Some(theirs)) = (ours, theirs) {
            assert_eq!(ours.unix_timestamp_nanos(), theirs.unix_timestamp_nanos(), "{:?}", text);
            assert_eq!(ours.offset_whole_seconds(), theirs.offset().whole_seconds());
            assert_eq!(ours.to_string(), theirs.format(&format).ok(), "{:?}", text);
            let date = theirs.date();
            assert_eq!(
                ours.to_date().to_calendar_date(),
                (date.year(), month(u8::from(date.month())), date.day())
            );
        }
    }
}

/// The days from 1970-01-01 to the given day, counted as the library
/// states it: 365 days a year, one more in a leap year, month by month.
fn day_number(year: i64, number: u8, day: u8) -> i64 {
    let before = |y: i64| {
        365 * y + (y + 3).div_euclid(4) - (y + 99).div_euclid(100) + (y + 399).div_euclid(400)
    };
    let in_year: i64 = (1..number).map(|m| i64::from(days_in(year as i32, m))).sum();
    before(year) - before(1970) + in_year + i64::from(day) - 1
}

#[test]
fn day_numbers_are_those_of_the_time_crate() {
    assert_eq!(day_number(1970, 1, 1), 0);
    for year in (-9999..=9999).step_by(13).chain([-9999, -401, -400, -100, -4, -1, 0, 1, 1900, 1970, 2000, 2024, 9999]) {
        for number in 1..=12u8 {
            for day in [1, 15, days_in(year, number)] {
                let theirs = time::OffsetDateTime::new_utc(
                    time::Date::from_calendar_date(year, time::Month::try_from(number).unwrap(), day)
                        .unwrap(),
                    time::Time::MIDNIGHT,
                );
                let number_of_day = day_number(i64::from(year), number, day);
                assert_eq!(theirs.unix_timestamp(), number_of_day * 86400);
                let ours = DateTime::from_calendar_date(year, month(number), day).unwrap();
                assert_eq!(ours.unix_timestamp_nanos(), i128::from(number_of_day) * 86_400_000_000_000);
                let last = DateTime::from_calendar_date_time(year, month(number), day, 23, 59, 59)
                    .unwrap();
                assert_eq!(
                    last.unix_timestamp_nanos(),
                    i128::from(number_of_day * 86400 + 86399) * 1_000_000_000
                );
                assert_eq!(last.to_date().to_calendar_date(), (year, month(number), day));
            }
        }
    }
}

#[test]
fn the_day_of_a_moment_is_the_one_of_the_time_crate() {
    let mut ts: i64 = -377705116800;
    while ts <= 253402300799 {
        let theirs = time::OffsetDateTime::from_unix_timestamp(ts).unwrap().date();
        let ours = DateTime::from_unix_timestamp(ts).unwrap().to_date();
        assert_eq!(
            (ours.year(), ours.month().number(), ours.day()),
            (theirs.year(), u8::from(theirs.month()), theirs.day())
        );
        assert_eq!(
            day_number(i64::from(ours.year()), ours.month().number(), ours.day()),
            ts.div_euclid(86400)
        );
        ts += 86400 * 211 + 40271;
    }
}

#[test]
fn rfc_3339_writes_the_years_from_0() {
    let first = DateTime::from_unix_timestamp(day_number(0, 1, 1) * 86400).unwrap();
    assert_eq!(first.to_string().unwrap(), "0000-01-01T00:00:00Z");
    let before = DateTime::from_unix_timestamp(day_number(0, 1, 1) * 86400 - 1).unwrap();
    assert_eq!(before.to_string(), None);
    assert_eq!(before.to_date().to_calendar_date(), (-1, Month::December, 31));
}
