use openai_bridge::json::{Fields, Json};

fn value(text: &str) -> serde_json::Value {
    serde_json::from_str(text).unwrap()
}

#[test]
fn values_pass_through_json_unchanged() {
    let text = r#"{"a":[null,true,-1,18446744073709551615,1.5,"x"],"b":{"c":{}}}"#;
    let json = Json::from_value(value(text));
    assert_eq!(json.to_value(), value(text));
    assert_eq!(json.to_text(), text);
}

#[test]
fn numbers_are_told_apart() {
    assert_eq!(Json::from_value(value("7")), Json::Int(7));
    assert_eq!(Json::from_value(value("-7")), Json::Int(-7));
    assert_eq!(Json::from_value(value("9223372036854775807")), Json::Int(i64::MAX));
    assert_eq!(Json::from_value(value("9223372036854775808")), Json::UInt(9223372036854775808));
    let half = serde_json::Number::from_f64(0.5).unwrap();
    assert_eq!(Json::from_value(value("0.5")), Json::Float(half));
}

#[test]
fn integers_are_read_where_they_fit() {
    assert_eq!(Json::Int(-3).as_i64(), Some(-3));
    assert_eq!(Json::UInt(3).as_i64(), Some(3));
    assert_eq!(Json::UInt(9223372036854775808).as_i64(), None);
    assert_eq!(Json::Float(serde_json::Number::from_f64(2.0).unwrap()).as_i64(), None);
    assert_eq!(Json::Float(serde_json::Number::from(2)).as_i64(), Some(2));
    assert_eq!(Json::text("3").as_i64(), None);
}

#[test]
fn last_field_of_a_key_counts() {
    let json = Fields::new()
        .with("k", Json::Int(1))
        .with("l", Json::Int(2))
        .with("k", Json::Int(3))
        .object();
    assert_eq!(json.get("k"), Some(&Json::Int(3)));
    assert_eq!(json.get_i64("l"), Some(2));
    assert_eq!(json.get("m"), None);
    assert_eq!(json.to_text(), r#"{"k":3,"l":2}"#);
}

#[test]
fn fields_of_fields_are_found() {
    let json = Json::parse(r#"{"a":{"s":"x","n":4},"b":[1]}"#).unwrap();
    assert_eq!(json.get2_str("a", "s"), Some("x"));
    assert_eq!(json.get2_i64("a", "n"), Some(4));
    assert_eq!(json.get2_str("a", "n"), None);
    assert_eq!(json.get2_str("b", "s"), None);
    assert_eq!(json.get2_str("z", "s"), None);
    assert_eq!(json.get("b").unwrap().get("s"), None);
    assert_eq!(json.get_str("a"), None);
}

#[test]
fn a_copy_is_equal() {
    let json = Json::parse(r#"{"a":[1,2.5,{"b":"c"}],"d":false}"#).unwrap();
    assert_eq!(json.clone(), json);
}

#[test]
fn text_is_one_line_and_reads_back() {
    let json = Fields::new().with_str("a\nb", "c\r\n\u{7}\"\\é").with("n", Json::Int(-2)).object();
    let text = json.to_text();
    assert!(!text.contains('\n'));
    assert!(!text.contains('\r'));
    assert_eq!(Json::parse(&text), Some(json));
}

#[test]
fn fields_are_written_by_key() {
    let json = Fields::new().with("b", Json::Int(1)).with("a", Json::Null).object();
    assert_eq!(json.to_text(), r#"{"a":null,"b":1}"#);
}

#[test]
fn nesting_beyond_the_limit_is_not_read_back() {
    let mut fits = Json::Array(vec![]);
    for _ in 0..126 {
        fits = Json::Array(vec![fits]);
    }
    assert_eq!(Json::parse(&fits.to_text()), Some(fits.clone()));
    let deeper = Json::Array(vec![fits]);
    assert_eq!(Json::parse(&deeper.to_text()), None);
}

#[test]
fn the_reserved_key_is_not_read_back_in_front() {
    let reserved = "$serde_json::private::RawValue";
    let object = Fields::new().with_str(reserved, "[1]").object();
    assert_eq!(object.to_text(), r#"{"$serde_json::private::RawValue":"[1]"}"#);
    assert_eq!(Json::parse(&object.to_text()), Some(Json::Array(vec![Json::Int(1)])));
    let object = Fields::new().with(reserved, Json::Int(1)).object();
    assert_eq!(Json::parse(&object.to_text()), None);
    for smaller in ["", "!", "$", "$serde_json", "$serde_json::private::Raw"] {
        let object = Fields::new().with_str(reserved, "[1]").with_str(smaller, "x").object();
        let object = Json::from_value(object.to_value());
        assert_eq!(Json::parse(&object.to_text()), Some(object));
    }
    for larger in ["%", "a", "$serde_json::private::RawValue2", "é"] {
        let object = Fields::new().with_str(reserved, "[1]").with_str(larger, "x").object();
        assert_eq!(Json::parse(&object.to_text()), None);
    }
    let object = Fields::new().with_str("$serde_json", "[1]").object();
    assert_eq!(Json::parse(&object.to_text()), Some(object));
}

#[test]
fn objects_stand_in_curly_brackets() {
    assert_eq!(Fields::new().object().to_text(), "{}");
    assert_eq!(Fields::new().with_str("}", "]").object().to_text(), r#"{"}":"]"}"#);
}

#[test]
fn broken_text_denotes_nothing() {
    assert_eq!(Json::parse("{"), None);
    assert_eq!(Json::parse(""), None);
    assert_eq!(Json::parse_bytes(b"[1]"), Ok(Json::Array(vec![Json::Int(1)])));
    assert_eq!(
        Json::parse_bytes(b"x"),
        Err("expected value at line 1 column 1".to_string())
    );
}
