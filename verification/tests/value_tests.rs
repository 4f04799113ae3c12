use kirin::{Float, Timestamp, Value, ValueType};

#[test]
fn value_type_of_each_value() {
    assert_eq!(ValueType::from(&Value::Text("x".into())), ValueType::Text);
    assert_eq!(ValueType::from(&Value::Bool(true)), ValueType::Bool);
    assert_eq!(ValueType::from(&Value::Int(1)), ValueType::Int);
    assert_eq!(
        ValueType::from(&Value::Float(Float::parse("1.5").unwrap())),
        ValueType::Float
    );
    assert_eq!(
        ValueType::from(&Value::DateTime(Timestamp::new(0, 0).unwrap())),
        ValueType::DateTime
    );
}

#[test]
fn value_type_names() {
    assert_eq!(ValueType::Text.to_string(), "Text");
    assert_eq!(ValueType::Bool.to_string(), "Boolean");
    assert_eq!(ValueType::Int.to_string(), "Integer");
    assert_eq!(ValueType::Float.to_string(), "Float");
    assert_eq!(ValueType::DateTime.to_string(), "Date/Time");
    assert_eq!(ValueType::Int.name(), "Integer");
}

#[test]
fn values_are_shown_as_their_text() {
    assert_eq!(Value::Text("Alice".into()).to_string(), "Alice");
    assert_eq!(Value::Text("".into()).to_string(), "");
    assert_eq!(Value::Bool(true).to_string(), "true");
    assert_eq!(Value::Bool(false).to_string(), "false");
    assert_eq!(Value::Int(0).to_string(), "0");
    assert_eq!(Value::Int(-15).to_string(), "-15");
    assert_eq!(Value::Int(i64::MIN).to_string(), "-9223372036854775808");
    assert_eq!(Value::Float(Float::parse("170.5").unwrap()).to_string(), "170.5");
}

#[test]
fn a_timestamp_is_shown_in_rfc3339_form() {
    let instant = Timestamp::new(1431648000, 0).unwrap();
    assert_eq!(instant.to_rfc3339(), "2015-05-15T00:00:00+00:00");
    assert_eq!(Value::DateTime(instant).to_string(), "2015-05-15T00:00:00+00:00");
    let start = Timestamp::new(0, 0).unwrap();
    assert_eq!(start.to_rfc3339(), "1970-01-01T00:00:00+00:00");
    let fraction = Timestamp::new(1, 500_000_000).unwrap();
    assert_eq!(fraction.to_rfc3339(), "1970-01-01T00:00:01.500+00:00");
    let before = Timestamp::new(-1, 0).unwrap();
    assert_eq!(before.to_rfc3339(), "1969-12-31T23:59:59+00:00");
}

#[test]
fn a_timestamp_agrees_with_chrono() {
    for (secs, nanos) in [(0i64, 0u32), (1431648000, 0), (1_700_000_000, 123_456_789), (-86_400, 1)]
    {
        let instant = Timestamp::new(secs, nanos).unwrap();
        assert_eq!(instant.seconds(), secs);
        assert_eq!(instant.nanoseconds(), nanos);
        let expected = chrono::DateTime::from_timestamp(secs, nanos).unwrap().to_rfc3339();
        assert_eq!(instant.to_rfc3339(), expected);
    }
}

#[test]
fn a_timestamp_that_chrono_cannot_hold_is_refused() {
    assert!(Timestamp::new(i64::MAX, 0).is_none());
    assert!(Timestamp::new(i64::MIN, 0).is_none());
    assert!(Timestamp::new(0, 2_000_000_000).is_none());
    assert!(Timestamp::new(0, 1_500_000_000).is_none());
    assert!(Timestamp::new(59, 1_500_000_000).is_some());
}

#[test]
fn a_float_keeps_its_literal() {
    let float = Float::parse("1.50").unwrap();
    assert_eq!(float.as_str(), "1.50");
    assert_eq!(float.clone(), float);
    assert!(Float::parse("abc").is_none());
    assert!(Float::parse("").is_none());
    assert!(Float::parse("NaN").is_some());
    assert!(Float::parse("-inf").is_some());
    assert!(Float::parse("1e").is_none());
}
