use sio_session::json::{parse_json, Json};

#[test]
fn parse_reads_every_kind_of_value() {
    assert_eq!(parse_json("null"), Some(Json::Null));
    assert_eq!(parse_json("true"), Some(Json::Bool(true)));
    assert_eq!(parse_json("false"), Some(Json::Bool(false)));
    assert_eq!(parse_json("17"), Some(Json::Number(serde_json::Number::from(17u64))));
    assert_eq!(parse_json("-4"), Some(Json::Number(serde_json::Number::from(-4i64))));
    assert_eq!(parse_json("\"a\\nb\""), Some(Json::Text("a\nb".to_string())));
    assert_eq!(parse_json("[]"), Some(Json::Array(vec![])));
    assert_eq!(parse_json("{}"), Some(Json::Object(vec![])));
}

#[test]
fn parse_reads_a_fraction() {
    assert_eq!(
        parse_json("1.5"),
        Some(Json::Number(serde_json::Number::from_f64(1.5).unwrap()))
    );
}

#[test]
fn parse_keeps_the_order_of_an_array() {
    assert_eq!(
        parse_json("[\"a\", [true, null], \"b\"]"),
        Some(Json::Array(vec![
            Json::Text("a".to_string()),
            Json::Array(vec![Json::Bool(true), Json::Null]),
            Json::Text("b".to_string()),
        ]))
    );
}

#[test]
fn parse_rebuilds_nested_objects() {
    assert_eq!(
        parse_json("{\"a\":{\"b\":[1,{\"c\":null}]}}"),
        Some(Json::Object(vec![(
            "a".to_string(),
            Json::Object(vec![(
                "b".to_string(),
                Json::Array(vec![
                    Json::Number(serde_json::Number::from(1u64)),
                    Json::Object(vec![("c".to_string(), Json::Null)]),
                ]),
            )]),
        )]))
    );
}

#[test]
fn parse_gives_the_members_in_the_order_of_the_map() {
    assert_eq!(
        parse_json("{\"b\":1,\"a\":2}"),
        Some(Json::Object(vec![
            ("a".to_string(), Json::Number(serde_json::Number::from(2u64))),
            ("b".to_string(), Json::Number(serde_json::Number::from(1u64))),
        ]))
    );
}

#[test]
fn parse_keeps_the_last_of_two_equal_keys() {
    assert_eq!(
        parse_json("{\"a\":1,\"a\":2}"),
        Some(Json::Object(vec![("a".to_string(), Json::Number(serde_json::Number::from(2u64)))]))
    );
}

#[test]
fn parse_rejects_what_is_no_document() {
    assert_eq!(parse_json(""), None);
    assert_eq!(parse_json("garbage"), None);
    assert_eq!(parse_json("[1,"), None);
    assert_eq!(parse_json("{\"a\"}"), None);
    assert_eq!(parse_json("[] x"), None);
}

#[test]
fn parse_allows_space_around_the_document() {
    assert_eq!(parse_json("  [ ]  "), Some(Json::Array(vec![])));
}
