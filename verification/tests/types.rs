use naori_ai::json::parse_json_text;
use naori_ai::{Json, TokenUsage};

#[test]
fn new_usage_knows_no_count() {
    let usage = TokenUsage::new();
    assert_eq!(usage.prompt_tokens, None);
    assert_eq!(usage.completion_tokens, None);
    assert_eq!(usage.total_tokens, None);
}

#[test]
fn total_is_the_sum_of_the_two_counts() {
    let usage = TokenUsage::with_tokens(5, 2);
    assert_eq!(usage.prompt_tokens, Some(5));
    assert_eq!(usage.completion_tokens, Some(2));
    assert_eq!(usage.total_tokens, Some(7));
    let large = TokenUsage::with_tokens(u32::MAX, u32::MAX);
    assert_eq!(large.total_tokens, Some(8589934590));
}

#[test]
fn parsed_value_is_the_tree_that_the_text_denotes() {
    let parsed = parse_json_text(" {\"b\": [1, -2, 3.5, 1e3], \"a\": {\"t\": true, \"n\": null, \"s\": \"x\\ny\"}} ");
    assert_eq!(
        parsed,
        Some(Json::Object(vec![
            (
                "a".to_string(),
                Json::Object(vec![
                    ("n".to_string(), Json::Null),
                    ("s".to_string(), Json::Str("x\ny".to_string())),
                    ("t".to_string(), Json::Bool(true)),
                ]),
            ),
            (
                "b".to_string(),
                Json::Array(vec![
                    Json::Number("1".to_string()),
                    Json::Number("-2".to_string()),
                    Json::Number("3.5".to_string()),
                    Json::Number("1000.0".to_string()),
                ]),
            ),
        ]))
    );
    assert_eq!(parse_json_text(""), None);
    assert_eq!(parse_json_text("{\"a\":"), None);
    assert_eq!(parse_json_text("{} {}"), None);
}

#[test]
fn members_and_numbers_are_read_as_stated() {
    let object = parse_json_text("{\"n\":42,\"big\":4294967296,\"huge\":18446744073709551616,\"neg\":-1,\"f\":1.0,\"s\":\"7\",\"b\":false}").unwrap();
    assert_eq!(object.get_u32("n"), Some(42));
    assert_eq!(object.get_u32("big"), None);
    assert_eq!(object.get("big").unwrap().as_u64(), Some(4294967296));
    assert_eq!(object.get("huge").unwrap().as_u64(), None);
    assert_eq!(object.get_u32("neg"), None);
    assert_eq!(object.get_u32("f"), None);
    assert_eq!(object.get_u32("s"), None);
    assert_eq!(object.get_str("s"), Some(&"7".to_string()));
    assert_eq!(object.get_bool("b"), Some(false));
    assert_eq!(object.get("missing"), None);
    assert_eq!(Json::Number("18446744073709551615".to_string()).as_u64(), Some(u64::MAX));
    assert_eq!(Json::Number("".to_string()).as_u64(), None);
    assert_eq!(Json::Number("007".to_string()).as_u32(), Some(7));
    assert_eq!(Json::Null.get("a"), None);
}

#[test]
fn value_is_written_as_compact_text() {
    let value = Json::Object(vec![
        ("b".to_string(), Json::Array(vec![Json::Number("1".to_string()), Json::Null])),
        ("a".to_string(), Json::Str("q\"".to_string())),
    ]);
    assert_eq!(value.to_text(), "{\"a\":\"q\\\"\",\"b\":[1,null]}");
    assert_eq!(value.clone(), value);
}

#[test]
fn number_that_is_no_number_is_written_as_null() {
    assert_eq!(Json::Number("12.50".to_string()).to_text(), "12.5");
    assert_eq!(Json::Number("-7".to_string()).to_text(), "-7");
    assert_eq!(Json::Number("[1]".to_string()).to_text(), "null");
    assert_eq!(Json::Number("true".to_string()).to_text(), "null");
    assert_eq!(Json::Number("".to_string()).to_text(), "null");
    assert_eq!(
        Json::Object(vec![
            ("k".to_string(), Json::Number("1".to_string())),
            ("k".to_string(), Json::Number("2".to_string())),
        ])
        .to_text(),
        "{\"k\":2}"
    );
}
