use pkglock_lib::codec::{from_value, parse_document, render_document, to_value};
use pkglock_lib::json::Json;
use serde_json::{Number, Value};

fn text(s: &str) -> Json {
    Json::String(s.to_string())
}

fn object(entries: Vec<(&str, Json)>) -> Json {
    Json::Object(entries.into_iter().map(|(k, v)| (k.to_string(), v)).collect())
}

#[test]
fn parse_document_reads_every_kind_of_value() {
    let doc = parse_document(
        r#"{"s": "text", "n": 12, "neg": -3, "f": 1.5, "t": true, "z": null, "a": [1, "x", {}], "o": {"k": []}}"#,
    )
    .unwrap();
    assert_eq!(
        doc,
        object(vec![
            ("s", text("text")),
            ("n", Json::Number(Number::from(12u64))),
            ("neg", Json::Number(Number::from(-3i64))),
            ("f", Json::Number(Number::from_f64(1.5).unwrap())),
            ("t", Json::Bool(true)),
            ("z", Json::Null),
            (
                "a",
                Json::Array(vec![Json::Number(Number::from(1u64)), text("x"), object(vec![])]),
            ),
            ("o", object(vec![("k", Json::Array(vec![]))])),
        ])
    );
    assert!(doc.is_well_formed());
}

#[test]
fn parse_document_keeps_the_order_of_keys() {
    let doc = parse_document(r#"{"zeta": 1, "alpha": 2, "mid": 3}"#).unwrap();
    match doc {
        Json::Object(entries) => {
            let keys: Vec<&str> = entries.iter().map(|(k, _)| k.as_str()).collect();
            assert_eq!(keys, vec!["zeta", "alpha", "mid"]);
        }
        _ => panic!("the document is an object"),
    }
}

#[test]
fn parse_document_reads_a_document_that_is_no_object() {
    assert_eq!(parse_document("null"), Some(Json::Null));
    assert_eq!(parse_document(" \"s\" "), Some(text("s")));
    assert_eq!(parse_document("[]"), Some(Json::Array(vec![])));
    assert_eq!(parse_document(r#""aé\n""#), Some(text("a\u{e9}\n")));
}

#[test]
fn parse_document_refuses_what_is_no_json() {
    for bad in ["", "{", "{\"a\": }", "[1, 2", "{'a': 1}", "nul", "{\"a\": 1} x", "{\"a\" 1}"] {
        assert_eq!(parse_document(bad), None);
    }
}

#[test]
fn parse_document_gives_a_well_formed_document_for_a_repeated_key() {
    let doc = parse_document(r#"{"a": 1, "b": 2, "a": 3}"#).unwrap();
    assert!(doc.is_well_formed());
    assert_eq!(doc.get("a"), Some(&Json::Number(Number::from(3u64))));
}

#[test]
fn render_document_prints_with_two_spaces() {
    let doc = object(vec![
        ("name", text("p")),
        ("list", Json::Array(vec![Json::Number(Number::from(1u64)), Json::Null])),
        ("inner", object(vec![("resolved", text("http://l/x"))])),
        ("empty", object(vec![])),
    ]);
    assert_eq!(
        render_document(&doc).unwrap(),
        "{\n  \"name\": \"p\",\n  \"list\": [\n    1,\n    null\n  ],\n  \"inner\": {\n    \"resolved\": \"http://l/x\"\n  },\n  \"empty\": {}\n}"
    );
}

#[test]
fn render_document_prints_scalars() {
    assert_eq!(render_document(&Json::Null).unwrap(), "null");
    assert_eq!(render_document(&Json::Bool(false)).unwrap(), "false");
    assert_eq!(render_document(&text("a\"b")).unwrap(), "\"a\\\"b\"");
    assert_eq!(
        render_document(&Json::Number(Number::from_f64(2.5).unwrap())).unwrap(),
        "2.5"
    );
}

#[test]
fn render_then_parse_gives_the_document_back() {
    let doc = object(vec![
        ("b", Json::Array(vec![object(vec![("resolved", text("https://a/b"))])])),
        ("a", Json::Number(Number::from(-9i64))),
    ]);
    let printed = render_document(&doc).unwrap();
    assert_eq!(parse_document(&printed), Some(doc));
}

#[test]
fn from_value_holds_what_the_value_held() {
    let inner = Value::Object(
        vec![("resolved".to_string(), Value::String("https://a/b".to_string()))]
            .into_iter()
            .collect(),
    );
    let outer = Value::Object(
        vec![
            ("z".to_string(), inner),
            ("a".to_string(), Value::Array(vec![Value::Bool(true), Value::Null])),
            ("n".to_string(), Value::Number(Number::from(4u64))),
        ]
        .into_iter()
        .collect(),
    );
    let doc = from_value(outer);
    assert_eq!(
        doc,
        object(vec![
            ("z", object(vec![("resolved", text("https://a/b"))])),
            ("a", Json::Array(vec![Json::Bool(true), Json::Null])),
            ("n", Json::Number(Number::from(4u64))),
        ])
    );
}

#[test]
fn to_value_holds_what_the_document_held() {
    let doc = object(vec![
        ("z", object(vec![("resolved", text("https://a/b"))])),
        ("a", Json::Array(vec![Json::Bool(true), Json::Null])),
        ("n", Json::Number(Number::from(4u64))),
    ]);
    let value = to_value(&doc);
    let inner = Value::Object(
        vec![("resolved".to_string(), Value::String("https://a/b".to_string()))]
            .into_iter()
            .collect(),
    );
    let outer = Value::Object(
        vec![
            ("z".to_string(), inner),
            ("a".to_string(), Value::Array(vec![Value::Bool(true), Value::Null])),
            ("n".to_string(), Value::Number(Number::from(4u64))),
        ]
        .into_iter()
        .collect(),
    );
    assert_eq!(value, outer);
    let keys: Vec<&String> = value.as_object().unwrap().keys().collect();
    assert_eq!(keys, vec!["z", "a", "n"]);
    assert_eq!(from_value(value), doc);
}
