use naori_ai::AnthropicStreamProcessor;
use naori_ai::{ChatStreamItem, Function, Json, TokenUsage, ToolCall};

fn weather_stream() -> Vec<u8> {
    let mut stream = String::new();
    stream.push_str("event: message_start\ndata: {\"type\":\"message_start\",\"message\":{\"id\":\"m1\"}}\n\n");
    stream.push_str("event: content_block_start\ndata: {\"type\":\"content_block_start\",\"index\":0,\"content_block\":{\"type\":\"text\",\"text\":\"\"}}\n\n");
    stream.push_str("event: content_block_delta\ndata: {\"type\":\"content_block_delta\",\"index\":0,\"delta\":{\"type\":\"text_delta\",\"text\":\"Let me check.\"}}\n\n");
    stream.push_str("event: content_block_stop\ndata: {\"type\":\"content_block_stop\",\"index\":0}\n\n");
    stream.push_str("event: content_block_start\ndata: {\"type\":\"content_block_start\",\"index\":1,\"content_block\":{\"type\":\"tool_use\",\"id\":\"t1\",\"name\":\"get_weather\",\"input\":{}}}\n\n");
    stream.push_str("event: content_block_delta\ndata: {\"type\":\"content_block_delta\",\"index\":1,\"delta\":{\"type\":\"input_json_delta\",\"partial_json\":\"{\\\"loc\"}}\n\n");
    stream.push_str("event: ping\ndata: {\"type\":\"ping\"}\n\n");
    stream.push_str("event: content_block_delta\ndata: {\"type\":\"content_block_delta\",\"index\":1,\"delta\":{\"type\":\"input_json_delta\",\"partial_json\":\"\\\":\\\"NYC\\\"}\"}}\n\n");
    stream.push_str("event: content_block_stop\ndata: {\"type\":\"content_block_stop\",\"index\":1}\n\n");
    stream.push_str("event: message_delta\ndata: {\"type\":\"message_delta\",\"delta\":{\"stop_reason\":\"tool_use\"},\"usage\":{\"input_tokens\":12,\"output_tokens\":30}}\n\n");
    stream.push_str("event: message_stop\ndata: {\"type\":\"message_stop\"}\n\n");
    stream.into_bytes()
}

fn weather_call() -> ToolCall {
    ToolCall {
        id: Some("t1".to_string()),
        function: Function {
            name: "get_weather".to_string(),
            arguments: Json::Object(vec![("loc".to_string(), Json::Str("NYC".to_string()))]),
        },
    }
}

fn expected_items() -> Vec<ChatStreamItem> {
    vec![
        ChatStreamItem {
            content: "Let me check.".to_string(),
            tool_calls: None,
            done: false,
            usage: None,
        },
        ChatStreamItem {
            content: String::new(),
            tool_calls: Some(vec![weather_call()]),
            done: true,
            usage: Some(TokenUsage {
                prompt_tokens: Some(12),
                completion_tokens: Some(30),
                total_tokens: Some(42),
            }),
        },
    ]
}

#[test]
fn tool_use_block_with_two_fragments_completes_to_one_call() {
    let mut processor = AnthropicStreamProcessor::new();
    let mut items = processor.push_chunk(&weather_stream());
    items.extend(processor.finish());
    assert_eq!(items, expected_items());
}

#[test]
fn every_split_of_the_event_stream_gives_the_same_items() {
    let stream = weather_stream();
    for cut in 0..=stream.len() {
        let mut processor = AnthropicStreamProcessor::new();
        let mut items = processor.push_chunk(&stream[..cut]);
        items.extend(processor.push_chunk(&stream[cut..]));
        items.extend(processor.finish());
        assert_eq!(items, expected_items(), "cut at {}", cut);
    }
}

#[test]
fn byte_by_byte_delivery_gives_the_same_items() {
    let stream = weather_stream();
    let mut processor = AnthropicStreamProcessor::new();
    let mut items = Vec::new();
    for byte in stream.iter() {
        items.extend(processor.push_chunk(&[*byte]));
    }
    items.extend(processor.finish());
    assert_eq!(items, expected_items());
}

#[test]
fn stream_that_ends_without_a_stop_event_still_gets_its_terminal_item() {
    let mut processor = AnthropicStreamProcessor::new();
    let mut items = processor.push_chunk(
        b"data: {\"type\":\"content_block_start\",\"content_block\":{\"type\":\"tool_use\",\"id\":\"t1\",\"name\":\"get_weather\"}}\n\ndata: {\"type\":\"content_block_delta\",\"delta\":{\"type\":\"input_json_delta\",\"partial_json\":\"{\\\"loc\\\":\\\"NYC\\\"}\"}}",
    );
    assert_eq!(items, Vec::new());
    items.extend(processor.finish());
    assert_eq!(
        items,
        vec![ChatStreamItem {
            content: String::new(),
            tool_calls: Some(vec![weather_call()]),
            done: true,
            usage: None,
        }]
    );
    assert_eq!(processor.finish(), Vec::new());
}

#[test]
fn malformed_arguments_drop_that_call_only() {
    let mut processor = AnthropicStreamProcessor::new();
    let mut stream = String::new();
    stream.push_str("data: {\"type\":\"content_block_start\",\"content_block\":{\"type\":\"tool_use\",\"id\":\"bad\",\"name\":\"broken\"}}\n\n");
    stream.push_str("data: {\"type\":\"content_block_delta\",\"delta\":{\"type\":\"input_json_delta\",\"partial_json\":\"{\\\"a\\\":\"}}\n\n");
    stream.push_str("data: {\"type\":\"content_block_stop\"}\n\n");
    stream.push_str("data: {\"type\":\"content_block_start\",\"content_block\":{\"type\":\"tool_use\",\"id\":\"t1\",\"name\":\"get_weather\"}}\n\n");
    stream.push_str("data: {\"type\":\"content_block_delta\",\"delta\":{\"type\":\"input_json_delta\",\"partial_json\":\"{\\\"loc\\\":\\\"NYC\\\"}\"}}\n\n");
    stream.push_str("data: {\"type\":\"message_stop\"}\n\n");
    let items = processor.push_chunk(stream.as_bytes());
    assert_eq!(items.len(), 1);
    assert!(items[0].done);
    assert_eq!(items[0].tool_calls, Some(vec![weather_call()]));
}

#[test]
fn fragment_without_a_slot_goes_to_the_slot_opened_last() {
    let mut processor = AnthropicStreamProcessor::new();
    let mut stream = String::new();
    stream.push_str("data: {\"type\":\"content_block_start\",\"content_block\":{\"type\":\"tool_use\",\"id\":\"a\",\"name\":\"first\"}}\n\n");
    stream.push_str("data: {\"type\":\"content_block_start\",\"content_block\":{\"type\":\"tool_use\",\"id\":\"b\",\"name\":\"second\"}}\n\n");
    stream.push_str("data: {\"type\":\"content_block_delta\",\"delta\":{\"type\":\"input_json_delta\",\"partial_json\":\"[1]\"}}\n\n");
    stream.push_str("data: [DONE]\n\n");
    let items = processor.push_chunk(stream.as_bytes());
    assert_eq!(
        items,
        vec![ChatStreamItem {
            content: String::new(),
            tool_calls: Some(vec![ToolCall {
                id: Some("b".to_string()),
                function: Function {
                    name: "second".to_string(),
                    arguments: Json::Array(vec![Json::Number("1".to_string())]),
                },
            }]),
            done: true,
            usage: None,
        }]
    );
}

#[test]
fn nothing_is_given_after_the_terminal_item() {
    let mut processor = AnthropicStreamProcessor::new();
    let first = processor.push_chunk(b"data: {\"type\":\"message_stop\"}\n\ndata: {\"type\":\"content_block_delta\",\"delta\":{\"type\":\"text_delta\",\"text\":\"late\"}}\n\n");
    assert_eq!(first.len(), 1);
    assert!(first[0].done);
    assert_eq!(processor.push_chunk(b"data: [DONE]\n\ndata: {\"type\":\"message_stop\"}\n\n"), Vec::new());
    assert_eq!(processor.finish(), Vec::new());
}

#[test]
fn unparsable_event_is_skipped_and_the_stream_goes_on() {
    let mut processor = AnthropicStreamProcessor::new();
    let items = processor.push_chunk(b"data: {not json\n\ndata: {\"type\":\"content_block_delta\",\"delta\":{\"type\":\"text_delta\",\"text\":\"ok\"}}\n\n");
    assert_eq!(
        items,
        vec![ChatStreamItem { content: "ok".to_string(), tool_calls: None, done: false, usage: None }]
    );
}

#[test]
fn items_end_with_a_failure_of_the_transport() {
    let mut processor = AnthropicStreamProcessor::new();
    processor.fail();
    assert_eq!(processor.push_chunk(b"data: {\"type\":\"message_stop\"}\n\n"), Vec::new());
    assert_eq!(processor.finish(), Vec::new());
}

#[test]
fn usage_is_read_from_the_delta_where_the_event_has_none() {
    let mut processor = AnthropicStreamProcessor::new();
    let items = processor.push_chunk(
        b"data: {\"type\":\"message_delta\",\"delta\":{\"usage\":{\"input_tokens\":3,\"output_tokens\":4}}}\n\ndata: {\"type\":\"message_delta\",\"usage\":{\"output_tokens\":9}}\n\ndata: [DONE]\n\n",
    );
    assert_eq!(items.len(), 1);
    assert_eq!(
        items[0].usage,
        Some(TokenUsage {
            prompt_tokens: Some(3),
            completion_tokens: Some(4),
            total_tokens: Some(7),
        })
    );
}
