use gas_codex::json::{
    export_value, import_value, object_of_one, parse_bytes, parse_text, write_text, Json,
};
use serde_json::{Number, Value};

fn text(s: &str) -> Json {
    Json::Text(s.to_string())
}

fn sample_text() -> &'static str {
    r#"{"a":[null,true,-3,"x\ny"],"b":{"c":1.5},"z":""}"#
}

fn sample() -> Json {
    Json::Object(vec![
        (
            "a".to_string(),
            Json::Array(vec![
                Json::Null,
                Json::Bool(true),
                Json::Number(Number::from(-3)),
                text("x\ny"),
            ]),
        ),
        (
            "b".to_string(),
            Json::Object(vec![(
                "c".to_string(),
                Json::Number(Number::from_f64(1.5).unwrap()),
            )]),
        ),
        ("z".to_string(), text("")),
    ])
}

#[test]
fn reading_text() {
    assert_eq!(parse_text(sample_text()), Some(sample()));
    assert_eq!(parse_text(" 7 "), Some(Json::Number(Number::from(7u64))));
}

#[test]
fn reading_bytes() {
    assert_eq!(parse_bytes(sample_text().as_bytes()), Some(sample()));
    assert_eq!(parse_bytes(&[0xff, 0xfe]), None);
}

#[test]
fn what_is_not_json_is_not_read() {
    assert_eq!(parse_text(""), None);
    assert_eq!(parse_text("panic: oops"), None);
    assert_eq!(parse_text("{\"a\":1} trailing"), None);
}

#[test]
fn writing_text() {
    assert_eq!(write_text(sample()), sample_text());
    assert_eq!(write_text(Json::Null), "null");
}

#[test]
fn written_text_is_one_line() {
    assert!(!write_text(sample()).contains('\n'));
    assert!(!write_text(text("a\nb\r\nc")).contains('\n'));
}

#[test]
fn what_was_written_is_read_back() {
    assert_eq!(parse_text(&write_text(sample())), Some(sample()));
}

#[test]
fn values_in_and_out() {
    let value: Value = serde_json::from_str(sample_text()).unwrap();
    assert_eq!(import_value(value.clone()), sample());
    assert_eq!(export_value(sample()), value);
}

#[test]
fn the_later_field_counts() {
    let twice = Json::Object(vec![
        ("id".to_string(), text("first")),
        ("id".to_string(), text("second")),
    ]);
    assert_eq!(twice.field("id"), Some(&text("second")));
    assert_eq!(write_text(twice), r#"{"id":"second"}"#);
}

#[test]
fn fields_of_what_is_no_object() {
    assert_eq!(sample().field("missing"), None);
    assert_eq!(Json::Null.field("a"), None);
    assert_eq!(Json::Array(vec![sample()]).field("a"), None);
}

#[test]
fn objects_of_one_field() {
    assert_eq!(write_text(object_of_one("started", Json::Bool(true))), r#"{"started":true}"#);
}

fn nested(depth: usize) -> Json {
    let mut json = Json::Array(vec![]);
    for _ in 1..depth {
        json = Json::Array(vec![json]);
    }
    json
}

#[test]
fn nesting_is_read_back_up_to_the_limit() {
    let limit = gas_codex::json::DEPTH_LIMIT as usize;
    assert_eq!(parse_text(&write_text(nested(limit))), Some(nested(limit)));
    assert_eq!(parse_text(&write_text(nested(limit + 1))), None);
}

#[test]
fn integers_and_texts_are_read_back() {
    for n in [0, 7, u64::MAX] {
        let json = Json::Object(vec![
            ("n".to_string(), Json::Number(Number::from(n))),
            ("t".to_string(), text("\u{0}\"\\/\n\u{2028}键")),
        ]);
        let line = write_text(json);
        let read = parse_text(&line).unwrap();
        assert_eq!(read.field("n"), Some(&Json::Number(Number::from(n))));
        assert_eq!(read.field("t"), Some(&text("\u{0}\"\\/\n\u{2028}键")));
    }
}
