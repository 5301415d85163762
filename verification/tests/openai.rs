use naori_ai::OpenAIStreamProcessor;
use naori_ai::{ChatStreamItem, Function, Json, TokenUsage, ToolCall};

fn text_item(content: &str) -> ChatStreamItem {
    ChatStreamItem { content: content.to_string(), tool_calls: None, done: false, usage: None }
}

fn call_stream() -> Vec<u8> {
    let mut stream = String::new();
    stream.push_str("data: {\"choices\":[{\"index\":0,\"delta\":{\"role\":\"assistant\",\"content\":\"\"}}]}\n\n");
    stream.push_str("data: {\"choices\":[{\"index\":0,\"delta\":{\"content\":\"Check\"}}]}\n\n");
    stream.push_str("data: {\"choices\":[{\"index\":0,\"delta\":{\"content\":\"ing\"}}]}\n\n");
    stream.push_str("data: {\"choices\":[{\"index\":0,\"delta\":{\"tool_calls\":[{\"index\":0,\"id\":\"call_a\",\"type\":\"function\",\"function\":{\"name\":\"get_weather\",\"arguments\":\"\"}}]}}]}\n\n");
    stream.push_str("data: {\"choices\":[{\"index\":0,\"delta\":{\"tool_calls\":[{\"index\":0,\"function\":{\"arguments\":\"{\\\"loc\"}}]}}]}\n\n");
    stream.push_str("data: {\"choices\":[{\"index\":0,\"delta\":{\"tool_calls\":[{\"index\":1,\"id\":\"call_b\",\"type\":\"function\",\"function\":{\"name\":\"get_time\",\"arguments\":\"{\\\"zone\\\":\"}}]}}]}\n\n");
    stream.push_str("data: {\"choices\":[{\"index\":0,\"delta\":{\"tool_calls\":[{\"index\":0,\"function\":{\"arguments\":\"\\\":\\\"NYC\\\"}\"}}]}}]}\n\n");
    stream.push_str("data: {\"choices\":[{\"index\":0,\"delta\":{\"tool_calls\":[{\"index\":1,\"function\":{\"arguments\":\"\\\"EST\\\"}\"}}]}}]}\n\n");
    stream.push_str("data: {\"choices\":[],\"usage\":{\"prompt_tokens\":20,\"completion_tokens\":15,\"total_tokens\":999}}\n\n");
    stream.push_str("data: [DONE]\n\n");
    stream.into_bytes()
}

fn expected_calls() -> Vec<ToolCall> {
    vec![
        ToolCall {
            id: Some("call_a".to_string()),
            function: Function {
                name: "get_weather".to_string(),
                arguments: Json::Object(vec![("loc".to_string(), Json::Str("NYC".to_string()))]),
            },
        },
        ToolCall {
            id: Some("call_b".to_string()),
            function: Function {
                name: "get_time".to_string(),
                arguments: Json::Object(vec![("zone".to_string(), Json::Str("EST".to_string()))]),
            },
        },
    ]
}

fn expected_items() -> Vec<ChatStreamItem> {
    vec![
        text_item("Check"),
        text_item("ing"),
        text_item(""),
        text_item(""),
        text_item(""),
        text_item(""),
        text_item(""),
        ChatStreamItem {
            content: String::new(),
            tool_calls: Some(expected_calls()),
            done: true,
            usage: Some(TokenUsage {
                prompt_tokens: Some(20),
                completion_tokens: Some(15),
                total_tokens: Some(35),
            }),
        },
    ]
}

#[test]
fn interleaved_fragments_of_two_calls_complete_to_two_calls() {
    let mut processor = OpenAIStreamProcessor::new();
    let mut items = processor.push_chunk(&call_stream());
    items.extend(processor.finish());
    assert_eq!(items, expected_items());
}

#[test]
fn every_split_of_the_chunk_stream_gives_the_same_items() {
    let stream = call_stream();
    for cut in 0..=stream.len() {
        let mut processor = OpenAIStreamProcessor::new();
        let mut items = processor.push_chunk(&stream[..cut]);
        items.extend(processor.push_chunk(&stream[cut..]));
        items.extend(processor.finish());
        assert_eq!(items, expected_items(), "cut at {}", cut);
    }
}

#[test]
fn three_way_splits_give_the_same_content_and_calls() {
    let stream = call_stream();
    let mut cut = 0;
    while cut + 37 <= stream.len() {
        let mut processor = OpenAIStreamProcessor::new();
        let mut items = processor.push_chunk(&stream[..cut]);
        items.extend(processor.push_chunk(&stream[cut..cut + 37]));
        items.extend(processor.push_chunk(&stream[cut + 37..]));
        items.extend(processor.finish());
        let content: String = items.iter().map(|item| item.content.clone()).collect();
        assert_eq!(content, "Checking");
        assert_eq!(items.last().unwrap().tool_calls, Some(expected_calls()));
        cut += 11;
    }
}

#[test]
fn end_of_input_without_the_sentinel_gives_the_terminal_item() {
    let mut processor = OpenAIStreamProcessor::new();
    let mut items = processor.push_chunk(
        b"data: {\"choices\":[{\"delta\":{\"content\":\"Hi\"}}]}\n\ndata: {\"choices\":[{\"delta\":{\"content\":\"!\"}}]}",
    );
    assert_eq!(items, vec![text_item("Hi")]);
    items.extend(processor.finish());
    assert_eq!(
        items,
        vec![
            text_item("Hi"),
            text_item("!"),
            ChatStreamItem { content: String::new(), tool_calls: None, done: true, usage: None },
        ]
    );
}

#[test]
fn sentinel_ends_the_stream_whatever_follows() {
    let mut processor = OpenAIStreamProcessor::new();
    let items = processor.push_chunk(
        b"data: [DONE]\ndata: {\"choices\":[{\"delta\":{\"content\":\"late\"}}]}\n\ndata: {\"choices\":[{\"delta\":{\"content\":\"later\"}}]}\n\n",
    );
    assert_eq!(
        items,
        vec![ChatStreamItem { content: String::new(), tool_calls: None, done: true, usage: None }]
    );
    assert_eq!(processor.finish(), Vec::new());
}

#[test]
fn call_with_malformed_arguments_is_dropped() {
    let mut processor = OpenAIStreamProcessor::new();
    let items = processor.push_chunk(
        b"data: {\"choices\":[{\"delta\":{\"tool_calls\":[{\"index\":0,\"id\":\"x\",\"function\":{\"name\":\"f\",\"arguments\":\"{\\\"a\\\":\"}}]}}]}\n\ndata: [DONE]\n\n",
    );
    assert_eq!(items.len(), 2);
    assert_eq!(items[1].tool_calls, None);
    assert!(items[1].done);
}

#[test]
fn fragments_without_an_index_are_told_apart_by_position() {
    let mut processor = OpenAIStreamProcessor::new();
    let items = processor.push_chunk(
        b"data: {\"choices\":[{\"delta\":{\"tool_calls\":[{\"id\":\"a\",\"function\":{\"name\":\"f\",\"arguments\":\"[1\"}},{\"id\":\"b\",\"function\":{\"name\":\"g\",\"arguments\":\"[2\"}}]}}]}\n\ndata: {\"choices\":[{\"delta\":{\"tool_calls\":[{\"function\":{\"arguments\":\"]\"}},{\"function\":{\"arguments\":\",3]\"}}]}}]}\n\ndata: [DONE]\n\n",
    );
    let calls = items.last().unwrap().tool_calls.clone().unwrap();
    assert_eq!(calls.len(), 2);
    assert_eq!(calls[0].function.arguments, Json::Array(vec![Json::Number("1".to_string())]));
    assert_eq!(
        calls[1].function.arguments,
        Json::Array(vec![Json::Number("2".to_string()), Json::Number("3".to_string())])
    );
    assert_eq!(calls[1].id, Some("b".to_string()));
}

#[test]
fn nothing_follows_a_failure_of_the_transport() {
    let mut processor = OpenAIStreamProcessor::new();
    let items = processor.push_chunk(b"data: {\"choices\":[{\"delta\":{\"content\":\"Hi\"}}]}\n\ndata: {\"cho");
    assert_eq!(items, vec![text_item("Hi")]);
    processor.fail();
    assert_eq!(
        processor.push_chunk(b"ices\":[{\"delta\":{\"content\":\"!\"}}]}\n\ndata: [DONE]\n\n"),
        Vec::new()
    );
    assert_eq!(processor.finish(), Vec::new());
}
