use naori_ai::accumulator::ToolCallAccumulator;
use naori_ai::{Function, Json, ToolCall};

fn call(id: &str, name: &str, arguments: Json) -> ToolCall {
    ToolCall {
        id: Some(id.to_string()),
        function: Function { name: name.to_string(), arguments },
    }
}

#[test]
fn fragments_add_up_in_order_of_arrival_whatever_the_grouping() {
    let text = "{\"city\":\"New York\",\"days\":[1,2,3]}";
    let expected = vec![call(
        "t1",
        "forecast",
        Json::Object(vec![
            ("city".to_string(), Json::Str("New York".to_string())),
            (
                "days".to_string(),
                Json::Array(vec![
                    Json::Number("1".to_string()),
                    Json::Number("2".to_string()),
                    Json::Number("3".to_string()),
                ]),
            ),
        ]),
    )];
    for first in 0..=text.len() {
        for second in first..=text.len() {
            let mut accumulator = ToolCallAccumulator::new();
            accumulator.open_slot("t1", "forecast");
            accumulator.append_to_latest(&text[..first]);
            accumulator.append_to_latest(&text[first..second]);
            accumulator.append_to_latest(&text[second..]);
            assert_eq!(accumulator.complete(), expected);
            assert!(accumulator.is_empty());
        }
    }
}

#[test]
fn malformed_concatenation_gives_no_call_and_spares_the_others() {
    let mut accumulator = ToolCallAccumulator::new();
    accumulator.open_slot("a", "first");
    accumulator.append_to_latest("{\"x\":");
    accumulator.open_slot("b", "second");
    accumulator.append_to_latest("{}");
    accumulator.open_slot("c", "third");
    assert_eq!(accumulator.complete(), vec![call("b", "second", Json::Object(vec![]))]);
    assert_eq!(accumulator.complete(), Vec::new());
}

#[test]
fn closed_slot_takes_no_fragment_that_names_no_slot() {
    let mut accumulator = ToolCallAccumulator::new();
    accumulator.open_slot("a", "first");
    accumulator.append_to_latest("1");
    accumulator.close_open_slots();
    accumulator.append_to_latest("2");
    accumulator.open_slot("b", "second");
    accumulator.append_to_latest("3");
    assert_eq!(
        accumulator.complete(),
        vec![
            call("a", "first", Json::Number("1".to_string())),
            call("b", "second", Json::Number("3".to_string())),
        ]
    );
}

#[test]
fn fragment_without_any_open_slot_is_dropped() {
    let mut accumulator = ToolCallAccumulator::new();
    accumulator.append_to_latest("{}");
    assert!(accumulator.is_empty());
    assert_eq!(accumulator.complete(), Vec::new());
}

#[test]
fn reopening_an_id_starts_the_call_afresh_at_the_end() {
    let mut accumulator = ToolCallAccumulator::new();
    accumulator.open_slot("a", "first");
    accumulator.append_to_latest("[");
    accumulator.open_slot("b", "second");
    accumulator.append_to_latest("2");
    accumulator.open_slot("a", "again");
    accumulator.append_to_latest("1");
    assert_eq!(
        accumulator.complete(),
        vec![
            call("b", "second", Json::Number("2".to_string())),
            call("a", "again", Json::Number("1".to_string())),
        ]
    );
}

#[test]
fn indexed_fragments_update_id_and_name_and_add_arguments() {
    let id = "call_1".to_string();
    let name = "lookup".to_string();
    let empty = String::new();
    let one = "{\"q\":".to_string();
    let two = "\"x\"}".to_string();
    let mut accumulator = ToolCallAccumulator::new();
    accumulator.merge_indexed(3, None, None, Some(&one));
    accumulator.merge_indexed(3, Some(&id), Some(&name), None);
    accumulator.merge_indexed(3, Some(&empty), Some(&empty), Some(&two));
    assert_eq!(
        accumulator.complete(),
        vec![call(
            "call_1",
            "lookup",
            Json::Object(vec![("q".to_string(), Json::Str("x".to_string()))])
        )]
    );
}

#[test]
fn fragment_goes_to_the_last_slot_that_is_open_not_to_an_earlier_one() {
    let mut accumulator = ToolCallAccumulator::new();
    accumulator.open_slot("a", "first");
    accumulator.open_slot("b", "second");
    accumulator.open_slot("c", "third");
    accumulator.append_to_latest("3");
    accumulator.append_to_latest("3");
    assert_eq!(
        accumulator.complete(),
        vec![call("c", "third", Json::Number("33".to_string()))]
    );
}
