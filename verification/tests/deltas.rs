use naori_ai::items::{CallCore, Delta, ToolCallDelta};
use naori_ai::json::parse_json_text;
use naori_ai::providers::anthropic::stream::AnthropicInterpreter;
use naori_ai::providers::ollama::stream::{LineDelta, OllamaInterpreter};
use naori_ai::providers::openai::stream::OpenAIInterpreter;
use naori_ai::{ChatStreamItem, Function, Json, TokenUsage, ToolCall};

fn event(text: &str) -> Json {
    parse_json_text(text).unwrap()
}

#[test]
fn events_are_read_as_deltas_by_their_kind() {
    assert_eq!(
        AnthropicInterpreter::interpret_event(&event(
            "{\"type\":\"content_block_delta\",\"delta\":{\"type\":\"text_delta\",\"text\":\"Hi\"}}"
        )),
        Some(Delta::Text("Hi".to_string()))
    );
    assert_eq!(
        AnthropicInterpreter::interpret_event(&event(
            "{\"type\":\"content_block_delta\",\"delta\":{\"type\":\"input_json_delta\",\"partial_json\":\"{\\\"a\"}}"
        )),
        Some(Delta::ToolCall(ToolCallDelta::Unnamed { arguments: "{\"a".to_string() }))
    );
    assert_eq!(
        AnthropicInterpreter::interpret_event(&event(
            "{\"type\":\"content_block_start\",\"content_block\":{\"type\":\"tool_use\",\"id\":\"t1\",\"name\":\"f\"}}"
        )),
        Some(Delta::ToolCall(ToolCallDelta::Opened { id: "t1".to_string(), name: "f".to_string() }))
    );
    assert_eq!(
        AnthropicInterpreter::interpret_event(&event(
            "{\"type\":\"content_block_start\",\"content_block\":{\"type\":\"text\",\"text\":\"\"}}"
        )),
        None
    );
    assert_eq!(
        AnthropicInterpreter::interpret_event(&event("{\"type\":\"content_block_stop\"}")),
        Some(Delta::ToolCall(ToolCallDelta::Closed))
    );
    assert_eq!(
        AnthropicInterpreter::interpret_event(&event(
            "{\"type\":\"message_delta\",\"usage\":{\"input_tokens\":1,\"output_tokens\":2}}"
        )),
        Some(Delta::Usage(TokenUsage::with_tokens(1, 2)))
    );
    assert_eq!(
        AnthropicInterpreter::interpret_event(&event("{\"type\":\"message_delta\",\"delta\":{}}")),
        None
    );
    assert_eq!(
        AnthropicInterpreter::interpret_event(&event("{\"type\":\"message_stop\"}")),
        Some(Delta::Completion)
    );
    assert_eq!(AnthropicInterpreter::interpret_event(&event("{\"type\":\"ping\"}")), None);
    assert_eq!(AnthropicInterpreter::interpret_event(&event("{\"kind\":\"message_stop\"}")), None);
    assert_eq!(AnthropicInterpreter::interpret_event(&event("[1,2]")), None);
}

#[test]
fn chunk_gives_usage_text_and_fragments_in_this_order() {
    let deltas = OpenAIInterpreter::interpret_chunk(&event(
        "{\"usage\":{\"prompt_tokens\":3,\"completion_tokens\":4},\"choices\":[{\"delta\":{\"content\":\"a\",\"tool_calls\":[{\"index\":2,\"id\":\"x\",\"function\":{\"name\":\"f\"}},{\"function\":{\"arguments\":\"{}\"}}]}},{\"delta\":{\"content\":\"second choice\"}}]}",
    ));
    assert_eq!(
        deltas,
        vec![
            Delta::Usage(TokenUsage::with_tokens(3, 4)),
            Delta::Text("a".to_string()),
            Delta::ToolCall(ToolCallDelta::Indexed {
                index: 2,
                id: Some("x".to_string()),
                name: Some("f".to_string()),
                arguments: None,
            }),
            Delta::ToolCall(ToolCallDelta::Indexed {
                index: 1,
                id: None,
                name: None,
                arguments: Some("{}".to_string()),
            }),
        ]
    );
    assert_eq!(
        OpenAIInterpreter::interpret_chunk(&event("{\"choices\":[{\"delta\":{\"content\":\"\"}}]}")),
        Vec::new()
    );
    assert_eq!(
        OpenAIInterpreter::interpret_chunk(&event("{\"choices\":[{\"delta\":{\"tool_calls\":[]}}]}")),
        vec![Delta::Text(String::new())]
    );
    assert_eq!(OpenAIInterpreter::interpret_chunk(&event("{\"choices\":[]}")), Vec::new());
    assert_eq!(
        OpenAIInterpreter::interpret_chunk(&event("{\"usage\":{\"prompt_tokens\":3}}")),
        Vec::new()
    );
}

#[test]
fn line_says_all_kinds_at_once() {
    let delta = OllamaInterpreter::interpret_response(&event(
        "{\"message\":{\"content\":\"x\",\"tool_calls\":[{\"id\":\"c\",\"function\":{\"name\":\"f\"}}]},\"content\":\"ignored\",\"done\":true,\"prompt_eval_count\":1,\"eval_count\":1}",
    ));
    assert_eq!(
        delta,
        LineDelta {
            content: "x".to_string(),
            tool_calls: Some(vec![ToolCall {
                id: Some("c".to_string()),
                function: Function { name: "f".to_string(), arguments: Json::Null },
            }]),
            done: true,
            usage: Some(TokenUsage::with_tokens(1, 1)),
        }
    );
    assert_eq!(
        OllamaInterpreter::interpret_response(&event("{\"done\":\"yes\",\"message\":{}}")),
        LineDelta { content: String::new(), tool_calls: None, done: false, usage: None }
    );
}

#[test]
fn deltas_are_applied_one_after_the_other() {
    let mut core = CallCore::new();
    let items = core.apply_all(vec![
        Delta::Text("a".to_string()),
        Delta::ToolCall(ToolCallDelta::Opened { id: "t".to_string(), name: "f".to_string() }),
        Delta::ToolCall(ToolCallDelta::Unnamed { arguments: "[".to_string() }),
        Delta::Usage(TokenUsage::with_tokens(2, 3)),
        Delta::ToolCall(ToolCallDelta::Unnamed { arguments: "]".to_string() }),
        Delta::Text("b".to_string()),
        Delta::Completion,
    ]);
    assert_eq!(
        items,
        vec![
            ChatStreamItem { content: "a".to_string(), tool_calls: None, done: false, usage: None },
            ChatStreamItem { content: "b".to_string(), tool_calls: None, done: false, usage: None },
            ChatStreamItem {
                content: String::new(),
                tool_calls: Some(vec![ToolCall {
                    id: Some("t".to_string()),
                    function: Function { name: "f".to_string(), arguments: Json::Array(vec![]) },
                }]),
                done: true,
                usage: Some(TokenUsage::with_tokens(2, 3)),
            },
        ]
    );
}
