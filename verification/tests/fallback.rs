use naori_ai::fallback::{FallbackEvent, FallbackPhase, FallbackToolHandler, CATALOG_INTRO};
use naori_ai::{Function, Json, Message, Tool, ToolCall};

fn message(role: &str, content: &str) -> Message {
    Message { role: role.to_string(), content: content.to_string(), images: None, tool_calls: None }
}

#[test]
fn template_with_the_tools_variable_supports_tools() {
    assert!(FallbackToolHandler::template_supports_tools("{{ if .Tools }}tools{{ end }}"));
    assert!(FallbackToolHandler::template_supports_tools("{{ range .tools }}"));
    assert!(!FallbackToolHandler::template_supports_tools("{{ .Prompt }} Tools"));
    assert!(!FallbackToolHandler::template_supports_tools(""));
}

#[test]
fn fallback_is_used_only_with_tools_and_without_native_support() {
    assert!(FallbackToolHandler::is_fallback_mode(true, false));
    assert!(!FallbackToolHandler::is_fallback_mode(true, true));
    assert!(!FallbackToolHandler::is_fallback_mode(false, false));
    assert!(!FallbackToolHandler::is_fallback_mode(false, true));
}

#[test]
fn embedded_calls_are_read_in_order_and_malformed_blocks_are_ignored() {
    let raw = "a<tool_call>{\"name\":\"one\",\"arguments\":{\"x\":1}}</tool_call>b<tool_call>nonsense</tool_call><tool_call>{\"name\":\"no arguments\"}</tool_call><tool_call> {\"name\":\"two\",\"arguments\":[true,null]} </tool_call><tool_call>{\"name\":\"open\",\"arguments\":{}}";
    let calls = FallbackToolHandler::parse_fallback_tool_calls(raw);
    assert_eq!(
        calls,
        Some(vec![
            ToolCall {
                id: None,
                function: Function {
                    name: "one".to_string(),
                    arguments: Json::Object(vec![("x".to_string(), Json::Number("1".to_string()))]),
                },
            },
            ToolCall {
                id: None,
                function: Function {
                    name: "two".to_string(),
                    arguments: Json::Array(vec![Json::Bool(true), Json::Null]),
                },
            },
        ])
    );
}

#[test]
fn text_without_a_complete_block_embeds_no_call() {
    assert_eq!(FallbackToolHandler::parse_fallback_tool_calls("plain text"), None);
    assert_eq!(FallbackToolHandler::parse_fallback_tool_calls("<tool_call>{\"name\":\"x\""), None);
    assert_eq!(FallbackToolHandler::parse_fallback_tool_calls("</tool_call><tool_call>"), None);
}

#[test]
fn complete_response_is_cleaned_and_read() {
    let (shown, calls) = FallbackToolHandler::process_fallback_response(
        "Sure.<tool_call>{\"name\":\"f\",\"arguments\":{}}</tool_call> Bye",
    );
    assert_eq!(shown, "Sure. Bye");
    assert_eq!(
        calls,
        Some(vec![ToolCall {
            id: None,
            function: Function { name: "f".to_string(), arguments: Json::Object(vec![]) },
        }])
    );
    let (shown, calls) = FallbackToolHandler::process_fallback_response("no call <tool");
    assert_eq!(shown, "no call <tool");
    assert_eq!(calls, None);
}

#[test]
fn catalog_lists_every_tool_with_its_schema() {
    let tools = vec![
        Tool {
            name: "get_weather".to_string(),
            description: "Looks up the weather.".to_string(),
            parameters: Json::Object(vec![
                ("type".to_string(), Json::Str("object".to_string())),
                (
                    "required".to_string(),
                    Json::Array(vec![Json::Str("loc".to_string())]),
                ),
            ]),
        },
        Tool {
            name: "now".to_string(),
            description: "Tells the time.".to_string(),
            parameters: Json::Null,
        },
    ];
    let context = FallbackToolHandler::generate_tool_context(&tools);
    let expected = format!(
        "{}- get_weather: Looks up the weather. Parameters: {{\"required\":[\"loc\"],\"type\":\"object\"}}\n- now: Tells the time. Parameters: null\n",
        CATALOG_INTRO
    );
    assert_eq!(context, expected);
    assert_eq!(FallbackToolHandler::generate_tool_context(&[]), CATALOG_INTRO);
}

#[test]
fn catalog_goes_to_the_first_system_message() {
    let mut messages =
        vec![message("user", "hi"), message("system", "Be brief."), message("system", "Second.")];
    FallbackToolHandler::inject_tool_context(&mut messages, " TOOLS");
    assert_eq!(
        messages,
        vec![message("user", "hi"), message("system", "Be brief. TOOLS"), message("system", "Second.")]
    );
}

#[test]
fn system_message_is_made_up_when_there_is_none() {
    let mut messages = vec![message("user", "hi")];
    FallbackToolHandler::inject_tool_context(&mut messages, " TOOLS");
    assert_eq!(
        messages,
        vec![message("system", "You are a helpful assistant. TOOLS"), message("user", "hi")]
    );
    let mut empty: Vec<Message> = Vec::new();
    FallbackToolHandler::inject_tool_context(&mut empty, "!");
    assert_eq!(empty, vec![message("system", "You are a helpful assistant.!")]);
}

#[test]
fn phases_follow_each_other_in_the_course_of_a_request() {
    let start = FallbackPhase::Disabled;
    let probing = start.after(FallbackEvent::ToolsRegistered);
    assert_eq!(probing, FallbackPhase::ProbeCapability);
    assert_eq!(probing.after(FallbackEvent::Probed { supports_tools: true }), FallbackPhase::Disabled);
    let injecting = probing.after(FallbackEvent::Probed { supports_tools: false });
    assert_eq!(injecting, FallbackPhase::Injecting);
    let streaming = injecting.after(FallbackEvent::Injected);
    assert_eq!(streaming, FallbackPhase::Streaming);
    assert!(streaming.filters());
    assert!(!injecting.filters());
    let reconstructing = streaming.after(FallbackEvent::TerminalFrame);
    assert_eq!(reconstructing, FallbackPhase::Reconstructing);
    assert_eq!(reconstructing.after(FallbackEvent::Reconstructed), FallbackPhase::Disabled);
    assert_eq!(start.after(FallbackEvent::TerminalFrame), FallbackPhase::Disabled);
    assert_eq!(streaming.after(FallbackEvent::ToolsRegistered), FallbackPhase::Streaming);
    assert_eq!(injecting.after(FallbackEvent::Reconstructed), FallbackPhase::Injecting);
}
