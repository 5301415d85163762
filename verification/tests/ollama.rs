use naori_ai::OllamaStreamProcessor;
use naori_ai::{ChatStreamItem, Function, Json, TokenUsage, ToolCall};

fn text_item(content: &str) -> ChatStreamItem {
    ChatStreamItem { content: content.to_string(), tool_calls: None, done: false, usage: None }
}

#[test]
fn three_lines_give_three_items_and_the_last_carries_the_usage() {
    let mut processor = OllamaStreamProcessor::new(false, false);
    let mut items = processor.push_chunk(
        b"{\"content\":\"Hel\"}\n{\"content\":\"lo\"}\n{\"done\":true,\"prompt_eval_count\":5,\"eval_count\":2}\n",
    );
    items.extend(processor.finish());
    assert_eq!(
        items,
        vec![
            text_item("Hel"),
            text_item("lo"),
            ChatStreamItem {
                content: String::new(),
                tool_calls: None,
                done: true,
                usage: Some(TokenUsage {
                    prompt_tokens: Some(5),
                    completion_tokens: Some(2),
                    total_tokens: Some(7),
                }),
            },
        ]
    );
}

fn fallback_stream() -> Vec<u8> {
    let mut stream = String::new();
    stream.push_str("{\"model\":\"m\",\"message\":{\"role\":\"assistant\",\"content\":\"I will look it up. <tool_\"},\"done\":false}\n");
    stream.push_str("{\"model\":\"m\",\"message\":{\"role\":\"assistant\",\"content\":\"call>{\\\"name\\\": \\\"get_weather\\\", \"},\"done\":false}\n");
    stream.push_str("not json at all\n");
    stream.push_str("\n");
    stream.push_str("{\"model\":\"m\",\"message\":{\"role\":\"assistant\",\"content\":\"\\\"arguments\\\": {\\\"loc\\\": \\\"NYC\\\"}}</tool_call> Done\"},\"done\":false}\n");
    stream.push_str("{\"model\":\"m\",\"message\":{\"role\":\"assistant\",\"content\":\".\"},\"done\":true,\"prompt_eval_count\":40,\"eval_count\":9}\n");
    stream.into_bytes()
}

fn weather_call() -> ToolCall {
    ToolCall {
        id: None,
        function: Function {
            name: "get_weather".to_string(),
            arguments: Json::Object(vec![("loc".to_string(), Json::Str("NYC".to_string()))]),
        },
    }
}

fn fallback_items() -> Vec<ChatStreamItem> {
    vec![
        text_item("I will look it up. "),
        text_item(""),
        text_item(" Done"),
        ChatStreamItem {
            content: ".".to_string(),
            tool_calls: Some(vec![weather_call()]),
            done: true,
            usage: Some(TokenUsage {
                prompt_tokens: Some(40),
                completion_tokens: Some(9),
                total_tokens: Some(49),
            }),
        },
    ]
}

#[test]
fn embedded_call_is_hidden_while_streaming_and_read_at_the_end() {
    let mut processor = OllamaStreamProcessor::new(true, false);
    let mut items = processor.push_chunk(&fallback_stream());
    items.extend(processor.finish());
    assert_eq!(items, fallback_items());
}

#[test]
fn every_split_of_the_line_stream_gives_the_same_items() {
    let stream = fallback_stream();
    for cut in 0..=stream.len() {
        let mut processor = OllamaStreamProcessor::new(true, false);
        let mut items = processor.push_chunk(&stream[..cut]);
        items.extend(processor.push_chunk(&stream[cut..]));
        items.extend(processor.finish());
        assert_eq!(items, fallback_items(), "cut at {}", cut);
    }
}

#[test]
fn split_inside_a_character_of_several_bytes_changes_nothing() {
    let stream = "{\"content\":\"gr\u{00fc}\u{00df}e \u{1f600}\"}\n{\"done\":true}\n".as_bytes().to_vec();
    let mut whole = OllamaStreamProcessor::new(false, false);
    let expected = whole.push_chunk(&stream);
    assert_eq!(expected[0].content, "gr\u{00fc}\u{00df}e \u{1f600}");
    for cut in 0..=stream.len() {
        let mut processor = OllamaStreamProcessor::new(false, false);
        let mut items = processor.push_chunk(&stream[..cut]);
        items.extend(processor.push_chunk(&stream[cut..]));
        assert_eq!(items, expected);
    }
}

#[test]
fn without_fallback_the_raw_text_is_not_read_for_calls() {
    let mut processor = OllamaStreamProcessor::new(false, false);
    let items = processor.push_chunk(&fallback_stream());
    assert_eq!(items.len(), 4);
    assert_eq!(items[3].tool_calls, None);
    assert_eq!(items[3].content, ".");
}

#[test]
fn debug_mode_shows_the_markers() {
    let mut processor = OllamaStreamProcessor::new(true, true);
    let items = processor.push_chunk(&fallback_stream());
    assert_eq!(items[0].content, "I will look it up. <tool_");
    assert_eq!(items[1].content, "call>{\"name\": \"get_weather\", ");
    assert_eq!(items[3].tool_calls, Some(vec![weather_call()]));
}

#[test]
fn native_tool_calls_travel_on_the_item_of_their_frame() {
    let mut processor = OllamaStreamProcessor::new(true, false);
    let items = processor.push_chunk(
        b"{\"message\":{\"content\":\"\",\"tool_calls\":[{\"function\":{\"name\":\"add\",\"arguments\":{\"a\":1,\"b\":-2.5}}},{\"oops\":1}]},\"done\":false}\n{\"message\":{\"content\":\"\"},\"done\":true}\n",
    );
    assert_eq!(
        items[0].tool_calls,
        Some(vec![ToolCall {
            id: None,
            function: Function {
                name: "add".to_string(),
                arguments: Json::Object(vec![
                    ("a".to_string(), Json::Number("1".to_string())),
                    ("b".to_string(), Json::Number("-2.5".to_string())),
                ]),
            },
        }])
    );
    assert!(!items[0].done);
    assert!(items[1].done);
    assert_eq!(items[1].tool_calls, None);
}

#[test]
fn partial_marker_held_at_the_end_is_shown_with_the_terminal_item() {
    let mut processor = OllamaStreamProcessor::new(true, false);
    let items = processor.push_chunk(b"{\"content\":\"a <tool\"}\n{\"content\":\"\",\"done\":true}\n");
    assert_eq!(items[0].content, "a ");
    assert_eq!(items[1].content, "<tool");
    assert!(items[1].done);
}

#[test]
fn stream_without_a_last_frame_is_closed_by_finish() {
    let mut processor = OllamaStreamProcessor::new(false, false);
    let mut items = processor.push_chunk(b"{\"content\":\"one\"}\n{\"content\":\"two\"}");
    assert_eq!(items, vec![text_item("one")]);
    items.extend(processor.finish());
    assert_eq!(
        items,
        vec![
            text_item("one"),
            text_item("two"),
            ChatStreamItem { content: String::new(), tool_calls: None, done: true, usage: None },
        ]
    );
}

#[test]
fn frames_after_the_last_one_are_discarded() {
    let mut processor = OllamaStreamProcessor::new(false, false);
    let items = processor.push_chunk(b"{\"done\":true}\n{\"content\":\"late\"}\n{\"done\":true}\n");
    assert_eq!(items.len(), 1);
    assert_eq!(processor.push_chunk(b"{\"content\":\"later\"}\n"), Vec::new());
    assert_eq!(processor.finish(), Vec::new());
}

#[test]
fn count_that_does_not_fit_is_no_count() {
    let mut processor = OllamaStreamProcessor::new(false, false);
    let items = processor.push_chunk(b"{\"done\":true,\"prompt_eval_count\":4294967296,\"eval_count\":2}\n");
    assert_eq!(items[0].usage, None);
    let mut processor = OllamaStreamProcessor::new(false, false);
    let items = processor.push_chunk(b"{\"done\":true,\"prompt_eval_count\":4294967295,\"eval_count\":4294967295}\n");
    assert_eq!(
        items[0].usage,
        Some(TokenUsage {
            prompt_tokens: Some(4294967295),
            completion_tokens: Some(4294967295),
            total_tokens: Some(8589934590),
        })
    );
}

#[test]
fn failure_of_the_transport_ends_the_items() {
    let mut processor = OllamaStreamProcessor::new(true, false);
    assert_eq!(processor.push_chunk(b"{\"content\":\"a\"}\n{\"cont").len(), 1);
    processor.fail();
    assert_eq!(processor.push_chunk(b"ent\":\"b\"}\n"), Vec::new());
    assert_eq!(processor.finish(), Vec::new());
}
