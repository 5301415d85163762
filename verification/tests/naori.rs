use naori_ai::collect::ResponseCollector;
use naori_ai::images::{attach_images, encode_image_data};
use naori_ai::naori::client::{ManagementOperation, ModelListing};
use naori_ai::providers::openai::OpenAIModel;
use naori_ai::schema::{rust_type_to_json_type, tool_description, tool_parameters_schema};
use naori_ai::tools::{decode_tool_result, encode_tool_result};
use naori_ai::{ChatStreamItem, Function, Json, Message, ModelInfo, NaoriAI, Tool, ToolCall};

fn message(role: &str, content: &str) -> Message {
    Message { role: role.to_string(), content: content.to_string(), images: None, tool_calls: None }
}

fn tool() -> Tool {
    Tool { name: "now".to_string(), description: "Tells the time.".to_string(), parameters: Json::Null }
}

fn info(template: &str) -> ModelInfo {
    ModelInfo {
        license: String::new(),
        modelfile: String::new(),
        parameters: String::new(),
        template: template.to_string(),
    }
}

#[test]
fn each_constructor_makes_a_client_of_its_back_end() {
    let local = NaoriAI::ollama("http://localhost:11434".to_string(), "llama".to_string());
    assert_eq!(local.model(), "llama");
    assert_eq!(local.as_ollama().unwrap().endpoint, "http://localhost:11434");
    assert!(local.as_anthropic().is_none());
    let hosted = NaoriAI::anthropic("key".to_string(), "large-model".to_string());
    assert_eq!(hosted.model(), "large-model");
    assert_eq!(hosted.as_anthropic().unwrap().api_key(), "key");
    assert!(hosted.as_ollama().is_none());
    let open = NaoriAI::openai("key".to_string(), "gpt".to_string());
    assert_eq!(open.model(), "gpt");
    assert!(open.as_ollama().is_none());
    assert!(open.as_anthropic().is_none());
    let relay = NaoriAI::openrouter("key".to_string(), "any".to_string());
    match relay.provider() {
        naori_ai::naori::Provider::OpenAI(client) => {
            assert_eq!(client.base_url(), "https://openrouter.ai/api/v1")
        }
        _ => panic!("the relay speaks the protocol with choices and deltas"),
    }
    let custom = NaoriAI::openai_custom("k".to_string(), "m".to_string(), "http://v/v1".to_string());
    match custom.provider() {
        naori_ai::naori::Provider::OpenAI(client) => assert_eq!(client.base_url(), "http://v/v1"),
        _ => panic!("a custom address speaks the protocol with choices and deltas"),
    }
}

#[test]
fn fallback_and_debug_mode_exist_for_local_models_only() {
    let mut local = NaoriAI::ollama("e".to_string(), "m".to_string());
    let mut hosted = NaoriAI::anthropic("k".to_string(), "m".to_string());
    let mut open = NaoriAI::openai("k".to_string(), "m".to_string());
    local.add_tool(tool());
    hosted.add_tool(tool());
    open.add_tool(tool());
    assert!(local.is_fallback_mode(Some(&info("plain"))));
    assert!(local.is_fallback_mode(None));
    assert!(!local.is_fallback_mode(Some(&info(".Tools"))));
    assert!(!hosted.is_fallback_mode(None));
    assert!(!open.is_fallback_mode(Some(&info("plain"))));
    assert!(!local.supports_tool_calls(None));
    assert!(hosted.supports_tool_calls(None));
    assert!(open.capabilities(None).supports_tools);
    assert!(hosted.capabilities(None).supports_vision);
    local.set_debug_mode(true);
    hosted.set_debug_mode(true);
    open.set_debug_mode(true);
    assert!(local.debug_mode());
    assert!(!hosted.debug_mode());
    assert!(!open.debug_mode());
    local.as_ollama_mut().unwrap().set_debug_mode(false);
    assert!(!local.debug_mode());
    assert!(hosted.as_ollama_mut().is_none());
    hosted.as_anthropic_mut().unwrap().add_tool(tool());
    assert_eq!(hosted.as_anthropic().unwrap().tools().len(), 2);
    assert_eq!(
        local.process_fallback_response("x<tool_call>y</tool_call>", None),
        ("x".to_string(), None)
    );
    assert_eq!(
        open.process_fallback_response("x<tool_call>y</tool_call>", None),
        ("x<tool_call>y</tool_call>".to_string(), None)
    );
}

#[test]
fn operations_on_models_are_refused_by_hosted_back_ends() {
    let local = NaoriAI::ollama("e".to_string(), "m".to_string());
    let hosted = NaoriAI::anthropic("k".to_string(), "m".to_string());
    let open = NaoriAI::openai("k".to_string(), "m".to_string());
    assert_eq!(local.management_refusal(ManagementOperation::PullModel), None);
    assert_eq!(local.management_refusal(ManagementOperation::ListLocalModels), None);
    assert_eq!(
        hosted.management_refusal(ManagementOperation::ListLocalModels),
        Some("list_local_models is only supported for Ollama provider".to_string())
    );
    assert_eq!(
        open.management_refusal(ManagementOperation::ListLocalModels),
        Some("list_local_models is only supported for Ollama provider".to_string())
    );
    assert_eq!(
        hosted.management_refusal(ManagementOperation::ShowModelInfo),
        Some("show_model_info is not supported for Anthropic provider".to_string())
    );
    assert_eq!(
        open.management_refusal(ManagementOperation::PullModel),
        Some("pull_model is not supported for OpenAI provider".to_string())
    );
    assert_eq!(
        open.management_refusal(ManagementOperation::PullModelStream),
        Some("pull_model_stream is not supported for OpenAI provider".to_string())
    );
}

#[test]
fn stream_of_each_back_end_reads_its_protocol() {
    let mut local = NaoriAI::ollama("e".to_string(), "m".to_string());
    local.add_tool(tool());
    let mut stream = local.stream_processor(None);
    let mut items = stream.push_chunk(
        b"{\"message\":{\"content\":\"<tool_call>{\\\"name\\\":\\\"now\\\",\\\"arguments\\\":{}}</tool_call>ok\"},\"done\":true}\n",
    );
    items.extend(stream.finish());
    assert_eq!(
        items,
        vec![ChatStreamItem {
            content: "ok".to_string(),
            tool_calls: Some(vec![ToolCall {
                id: None,
                function: Function { name: "now".to_string(), arguments: Json::Object(vec![]) },
            }]),
            done: true,
            usage: None,
        }]
    );
    let mut stream = NaoriAI::anthropic("k".to_string(), "m".to_string()).stream_processor(None);
    let items = stream.push_chunk(b"data: {\"type\":\"message_stop\"}\n\n");
    assert_eq!(items.len(), 1);
    assert!(items[0].done);
    let mut stream = NaoriAI::openai("k".to_string(), "m".to_string()).stream_processor(None);
    let items = stream.push_chunk(b"data: {\"choices\":[{\"delta\":{\"content\":\"x\"}}]}\n\n");
    assert_eq!(items.len(), 1);
    assert_eq!(items[0].content, "x");
    assert_eq!(stream.finish().len(), 1);
}

#[test]
fn prompt_becomes_one_user_message_and_models_are_listed_in_order() {
    assert_eq!(NaoriAI::prompt_messages("Say hi"), vec![message("user", "Say hi")]);
    let models = NaoriAI::get_available_models(ModelListing::OpenAI(vec![
        OpenAIModel { id: "a".to_string(), created: 1 },
        OpenAIModel { id: "b".to_string(), created: 2 },
    ]));
    assert_eq!(models.len(), 2);
    assert_eq!(models[0].id, "a");
    assert_eq!(models[1].name, "b");
    assert_eq!(models[1].created, Some(2));
    assert_eq!(NaoriAI::get_available_models(ModelListing::Ollama(vec![])), Vec::new());
}

#[test]
fn image_bytes_become_base64_text_on_the_last_message() {
    assert_eq!(encode_image_data(b"hello"), Some("aGVsbG8=".to_string()));
    assert_eq!(encode_image_data(b""), Some(String::new()));
    assert_eq!(encode_image_data(&[0xff, 0xfe, 0xfd]), Some("//79".to_string()));
    let client = NaoriAI::openai("k".to_string(), "m".to_string());
    assert_eq!(client.encode_image_data(b"hi"), Some("aGk=".to_string()));
    let mut messages = vec![message("system", "s"), message("user", "look")];
    attach_images(&mut messages, vec!["AAA".to_string()]);
    assert_eq!(messages[0].images, None);
    assert_eq!(messages[1].images, Some(vec!["AAA".to_string()]));
    let mut none: Vec<Message> = Vec::new();
    attach_images(&mut none, vec!["AAA".to_string()]);
    assert_eq!(none, Vec::new());
}

#[test]
fn collector_joins_the_text_and_keeps_the_last_tool_calls() {
    let call = ToolCall {
        id: None,
        function: Function { name: "now".to_string(), arguments: Json::Null },
    };
    let item = |content: &str, calls: Option<Vec<ToolCall>>, done: bool| ChatStreamItem {
        content: content.to_string(),
        tool_calls: calls,
        done,
        usage: None,
    };
    let mut collector = ResponseCollector::new();
    assert!(!collector.absorb(item("Hel", None, false)));
    assert!(!collector.absorb(item("lo", Some(vec![call.clone()]), false)));
    assert!(collector.absorb(item("!", None, true)));
    assert!(!collector.absorb(item("late", Some(vec![]), false)) || collector.is_done());
    assert_eq!(collector.into_response(), ("Hello!".to_string(), Some(vec![call.clone()])));
    let mut collector = ResponseCollector::new();
    let done = collector.absorb_all(vec![
        item("a", None, false),
        item("b", None, true),
        item("c", Some(vec![call]), true),
    ]);
    assert!(done);
    assert_eq!(collector.into_response(), ("ab".to_string(), None));
}

#[test]
fn schema_is_made_from_the_arguments_of_a_function() {
    assert_eq!(rust_type_to_json_type("String"), "string");
    assert_eq!(rust_type_to_json_type("i32"), "integer");
    assert_eq!(rust_type_to_json_type("i64"), "integer");
    assert_eq!(rust_type_to_json_type("usize"), "integer");
    assert_eq!(rust_type_to_json_type("f32"), "number");
    assert_eq!(rust_type_to_json_type("f64"), "number");
    assert_eq!(rust_type_to_json_type("bool"), "boolean");
    assert_eq!(rust_type_to_json_type("Vec<u8>"), "string");
    let schema = tool_parameters_schema(&[
        ("city".to_string(), "String".to_string()),
        ("days".to_string(), "usize".to_string()),
    ]);
    assert_eq!(
        schema.to_text(),
        "{\"properties\":{\"city\":{\"description\":\"\",\"type\":\"string\"},\"days\":{\"description\":\"\",\"type\":\"integer\"}},\"required\":[\"city\",\"days\"],\"type\":\"object\"}"
    );
    assert_eq!(
        tool_parameters_schema(&[]).to_text(),
        "{\"properties\":{},\"required\":[],\"type\":\"object\"}"
    );
    assert_eq!(
        tool_description(&["  Looks up the weather. ".to_string(), " Needs a city.".to_string()]),
        "Looks up the weather. Needs a city."
    );
    assert_eq!(tool_description(&[]), "");
}

#[test]
fn tool_result_comes_back_from_its_encoding() {
    let content = encode_tool_result("t1", "a:b");
    assert_eq!(content, "TOOL_RESULT:t1:a:b");
    assert_eq!(decode_tool_result(&content), Some(("t1".to_string(), "a:b".to_string())));
    assert_eq!(decode_tool_result("TOOL_RESULT::"), Some((String::new(), String::new())));
    assert_eq!(decode_tool_result("TOOL_RESULT:x"), None);
    assert_eq!(decode_tool_result("tool_result:x:y"), None);
    assert_eq!(decode_tool_result(" TOOL_RESULT:x:y"), None);
}
