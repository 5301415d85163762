use naori_ai::providers::anthropic::{AnthropicMessage, AnthropicModel, ContentBlock, ImageSource};
use naori_ai::providers::openai::{OpenAIFunction, OpenAIMessage, OpenAIModel, OpenAIToolCall};
use naori_ai::tools::ToolRunner;
use naori_ai::{
    AnthropicClient, Function, Json, Message, Model, ModelInfo, OllamaClient, OpenAIClient,
    PullProgress, Tool, ToolCall,
};

fn message(role: &str, content: &str) -> Message {
    Message { role: role.to_string(), content: content.to_string(), images: None, tool_calls: None }
}

fn weather_tool() -> Tool {
    Tool {
        name: "get_weather".to_string(),
        description: "Looks up the weather.".to_string(),
        parameters: Json::Object(vec![
            ("type".to_string(), Json::Str("object".to_string())),
            ("additionalProperties".to_string(), Json::Bool(true)),
        ]),
    }
}

fn weather_call(id: Option<&str>) -> ToolCall {
    ToolCall {
        id: id.map(|text| text.to_string()),
        function: Function {
            name: "get_weather".to_string(),
            arguments: Json::Object(vec![("loc".to_string(), Json::Str("NYC".to_string()))]),
        },
    }
}

struct Echo;

impl ToolRunner for Echo {
    fn run(&self, tool: &Tool, arguments: &Json) -> String {
        format!("{} got {}", tool.name, arguments.to_text())
    }
}

#[test]
fn anthropic_message_lists_images_text_and_tool_calls() {
    let client = AnthropicClient::new("key".to_string(), "model".to_string());
    let mut input = message("assistant", "Look");
    input.images = Some(vec!["AAA".to_string(), "BBB".to_string()]);
    input.tool_calls = Some(vec![weather_call(Some("t1")), weather_call(None)]);
    let image = |data: &str| ContentBlock::Image {
        source: ImageSource {
            source_type: "base64".to_string(),
            media_type: "image/jpeg".to_string(),
            data: data.to_string(),
        },
    };
    let arguments = Json::Object(vec![("loc".to_string(), Json::Str("NYC".to_string()))]);
    assert_eq!(
        client.convert_to_anthropic_message(&input),
        AnthropicMessage {
            role: "assistant".to_string(),
            content: vec![
                image("BBB"),
                image("AAA"),
                ContentBlock::Text { text: "Look".to_string() },
                ContentBlock::ToolUse {
                    id: "t1".to_string(),
                    name: "get_weather".to_string(),
                    input: arguments.clone(),
                },
                ContentBlock::ToolUse {
                    id: "call_generated_id".to_string(),
                    name: "get_weather".to_string(),
                    input: arguments,
                },
            ],
        }
    );
}

#[test]
fn anthropic_tool_result_becomes_one_block() {
    let client = AnthropicClient::new("key".to_string(), "model".to_string());
    assert_eq!(
        client.convert_to_anthropic_message(&message("user", "TOOL_RESULT:t1:sunny: 20 degrees")),
        AnthropicMessage {
            role: "user".to_string(),
            content: vec![ContentBlock::ToolResult {
                tool_use_id: "t1".to_string(),
                content: "sunny: 20 degrees".to_string(),
            }],
        }
    );
    assert_eq!(
        client.convert_to_anthropic_message(&message("user", "TOOL_RESULT:no second colon")),
        AnthropicMessage {
            role: "user".to_string(),
            content: vec![ContentBlock::Text { text: "TOOL_RESULT:no second colon".to_string() }],
        }
    );
    assert_eq!(
        client.convert_to_anthropic_message(&message("assistant", "TOOL_RESULT:t1:x")),
        AnthropicMessage {
            role: "assistant".to_string(),
            content: vec![ContentBlock::Text { text: "TOOL_RESULT:t1:x".to_string() }],
        }
    );
}

#[test]
fn anthropic_request_carries_tools_only_if_there_are_any() {
    let mut client = AnthropicClient::new("key".to_string(), "large-model".to_string());
    let request = client.build_request(&[message("user", "hi")]);
    assert_eq!(request.model, "large-model");
    assert_eq!(request.max_tokens, 4096);
    assert_eq!(request.tools, None);
    assert_eq!(request.system, None);
    assert_eq!(request.stream, Some(true));
    assert_eq!(request.messages.len(), 1);
    client.add_tool(weather_tool());
    let request = client.build_request(&[]);
    let tools = request.tools.unwrap();
    assert_eq!(tools.len(), 1);
    assert_eq!(tools[0].name, "get_weather");
    assert_eq!(tools[0].input_schema, weather_tool().parameters);
    assert!(!client.is_fallback_mode());
    assert!(!client.debug_mode());
    assert!(client.supports_tool_calls());
}

#[test]
fn openai_tool_message_gives_the_id_of_its_call() {
    let client = OpenAIClient::new("key".to_string(), "gpt-4o".to_string());
    assert_eq!(
        client.convert_to_openai_message(&message("tool", "TOOL_RESULT:call_1:42")),
        OpenAIMessage {
            role: Some("tool".to_string()),
            content: Some(Json::Str("42".to_string())),
            tool_calls: None,
            tool_call_id: Some("call_1".to_string()),
        }
    );
    assert_eq!(
        client.convert_to_openai_message(&message("tool", "plain result")),
        OpenAIMessage {
            role: Some("tool".to_string()),
            content: Some(Json::Str("plain result".to_string())),
            tool_calls: None,
            tool_call_id: None,
        }
    );
}

#[test]
fn openai_message_with_images_has_parts_and_calls_have_text_arguments() {
    let client = OpenAIClient::new("key".to_string(), "gpt-4o".to_string());
    let mut input = message("user", "What is this?");
    input.images = Some(vec!["AAA".to_string()]);
    input.tool_calls = Some(vec![weather_call(None)]);
    let converted = client.convert_to_openai_message(&input);
    assert_eq!(
        converted.content.unwrap().to_text(),
        "[{\"text\":\"What is this?\",\"type\":\"text\"},{\"image_url\":{\"url\":\"data:image/jpeg;base64,AAA\"},\"type\":\"image_url\"}]"
    );
    assert_eq!(
        converted.tool_calls,
        Some(vec![OpenAIToolCall {
            id: Some("call_generated_id".to_string()),
            call_type: Some("function".to_string()),
            function: OpenAIFunction {
                name: Some("get_weather".to_string()),
                arguments: Some("{\"loc\":\"NYC\"}".to_string()),
            },
        }])
    );
    let mut no_text = message("user", "");
    no_text.images = Some(vec!["AAA".to_string(), "BBB".to_string()]);
    assert_eq!(
        client.convert_to_openai_message(&no_text).content.unwrap().to_text(),
        "[{\"image_url\":{\"url\":\"data:image/jpeg;base64,AAA\"},\"type\":\"image_url\"},{\"image_url\":{\"url\":\"data:image/jpeg;base64,BBB\"},\"type\":\"image_url\"}]"
    );
    let mut no_images = message("user", "text");
    no_images.images = Some(vec![]);
    assert_eq!(
        client.convert_to_openai_message(&no_images).content,
        Some(Json::Str("text".to_string()))
    );
}

#[test]
fn openai_tools_forbid_other_parameters() {
    let mut client = OpenAIClient::new("key".to_string(), "gpt-4o".to_string());
    client.add_tool(weather_tool());
    client.add_tool(Tool {
        name: "now".to_string(),
        description: "Tells the time.".to_string(),
        parameters: Json::Object(vec![]),
    });
    let tools = client.convert_tools_to_openai();
    assert_eq!(tools[0].tool_type, "function");
    assert_eq!(
        tools[0].function.parameters,
        Json::Object(vec![
            ("type".to_string(), Json::Str("object".to_string())),
            ("additionalProperties".to_string(), Json::Bool(false)),
        ])
    );
    assert_eq!(
        tools[1].function.parameters,
        Json::Object(vec![("additionalProperties".to_string(), Json::Bool(false))])
    );
}

#[test]
fn openai_request_limits_the_response_by_the_kind_of_model() {
    let client = OpenAIClient::new("key".to_string(), "gpt-4o".to_string());
    let request = client.build_request(&[message("user", "hi")]);
    assert_eq!(request.max_tokens, Some(4096));
    assert_eq!(request.max_completion_tokens, None);
    assert_eq!(request.tools, None);
    assert!(request.stream_options.unwrap().include_usage);
    for model in ["o1-mini", "gpt-5", "my-gpt-5-turbo"] {
        let client = OpenAIClient::new("key".to_string(), model.to_string());
        let request = client.build_request(&[]);
        assert_eq!(request.max_tokens, None);
        assert_eq!(request.max_completion_tokens, Some(4096));
    }
    let mut custom =
        OpenAIClient::with_base_url("k".to_string(), "m".to_string(), "http://x/v1".to_string());
    assert_eq!(custom.base_url(), "http://x/v1");
    custom.set_base_url("http://y/v1".to_string());
    assert_eq!(custom.base_url(), "http://y/v1");
    assert_eq!(client.base_url(), "https://api.openai.com/v1");
}

#[test]
fn ollama_body_carries_the_tools_unless_the_fallback_is_in_use() {
    let mut client = OllamaClient::new("http://localhost:11434".to_string(), "llama".to_string());
    client.add_tool(Tool {
        name: "now".to_string(),
        description: "Tells the time.".to_string(),
        parameters: Json::Null,
    });
    let mut with_call = message("assistant", "");
    with_call.tool_calls = Some(vec![weather_call(Some("t1"))]);
    with_call.images = Some(vec!["AAA".to_string()]);
    let native = client.chat_request_body(&[message("user", "hi"), with_call], false, None);
    assert_eq!(
        native.to_text(),
        "{\"messages\":[{\"content\":\"hi\",\"role\":\"user\"},{\"content\":\"\",\"images\":[\"AAA\"],\"role\":\"assistant\",\"tool_calls\":[{\"function\":{\"arguments\":{\"loc\":\"NYC\"},\"name\":\"get_weather\"},\"id\":\"t1\"}]}],\"model\":\"llama\",\"stream\":true,\"tools\":[{\"function\":{\"description\":\"Tells the time.\",\"name\":\"now\",\"parameters\":null},\"type\":\"function\"}]}"
    );
    let options = Json::Object(vec![("seed".to_string(), Json::Number("7".to_string()))]);
    let fallback = client.chat_request_body(&[message("user", "hi")], true, Some(options));
    let text = fallback.to_text();
    assert!(text.starts_with("{\"messages\":[{\"content\":\"You are a helpful assistant.\\n\\nYou have access"));
    assert!(text.ends_with("\"model\":\"llama\",\"options\":{\"seed\":7},\"stream\":true}"));
    assert!(!text.contains("\"tools\""));
    assert!(text.contains("- now: Tells the time. Parameters: null\\n"));
    assert_eq!(
        client.generate_request_body("Say hi", false, None).to_text(),
        "{\"model\":\"llama\",\"prompt\":\"Say hi\",\"stream\":false}"
    );
}

#[test]
fn ollama_fallback_depends_on_tools_and_template() {
    let info = |template: &str| ModelInfo {
        license: String::new(),
        modelfile: String::new(),
        parameters: String::new(),
        template: template.to_string(),
    };
    let mut client = OllamaClient::new("e".to_string(), "m".to_string());
    assert!(!client.is_fallback_mode(None));
    assert!(!client.is_fallback_mode(Some(&info("plain"))));
    client.add_tool(weather_tool());
    assert!(client.is_fallback_mode(None));
    assert!(client.is_fallback_mode(Some(&info("plain"))));
    assert!(!client.is_fallback_mode(Some(&info("{{ .Tools }}"))));
    assert!(client.supports_tool_calls(&info("{{ .tools }}")));
    assert!(!client.capabilities(None).supports_tools);
    assert!(client.capabilities(None).supports_vision);
    assert!(!client.debug_mode());
    client.set_debug_mode(true);
    assert!(client.debug_mode());
    assert_eq!(client.process_fallback_response("a<tool_call>x</tool_call>b", true).0, "ab");
    assert_eq!(
        client.process_fallback_response("a<tool_call>x</tool_call>b", false),
        ("a<tool_call>x</tool_call>b".to_string(), None)
    );
}

#[test]
fn pull_progress_is_read_from_json_or_taken_as_status() {
    assert_eq!(
        OllamaClient::parse_pull_progress(
            b"{\"status\":\"pulling\",\"digest\":\"sha256:ab\",\"total\":100,\"completed\":40}"
        ),
        PullProgress {
            status: "pulling".to_string(),
            digest: Some("sha256:ab".to_string()),
            total: Some(100),
            completed: Some(40),
        }
    );
    assert_eq!(
        OllamaClient::parse_pull_progress(b"{\"total\":-1}"),
        PullProgress { status: String::new(), digest: None, total: None, completed: None }
    );
    assert_eq!(
        OllamaClient::parse_pull_progress("gr\u{00fc}n".as_bytes()),
        PullProgress { status: "gr\u{00fc}n".to_string(), digest: None, total: None, completed: None }
    );
}

#[test]
fn generated_lines_give_text_nothing_or_an_error() {
    assert_eq!(
        OllamaClient::parse_generate_line(b"{\"response\":\"Hi\",\"done\":false}"),
        Some(Ok("Hi".to_string()))
    );
    assert_eq!(OllamaClient::parse_generate_line(b"{\"done\":true}"), None);
    assert_eq!(
        OllamaClient::parse_generate_line(b"oops"),
        Some(Err("Parse error: expected value at line 1 column 1".to_string()))
    );
    let answer = Json::Object(vec![("response".to_string(), Json::Str("Hello".to_string()))]);
    assert_eq!(OllamaClient::generated_response(&answer), "Hello");
    assert_eq!(OllamaClient::generated_response(&Json::Null), "");
}

#[test]
fn tool_results_go_back_in_the_way_of_each_back_end() {
    let calls = || {
        vec![
            weather_call(Some("t1")),
            ToolCall {
                id: None,
                function: Function { name: "unknown_tool".to_string(), arguments: Json::Null },
            },
            weather_call(None),
        ]
    };
    let mut anthropic = AnthropicClient::new("k".to_string(), "m".to_string());
    anthropic.add_tool(weather_tool());
    assert_eq!(
        anthropic.handle_tool_calls(calls(), &Echo),
        vec![
            message("user", "TOOL_RESULT:t1:get_weather got {\"loc\":\"NYC\"}"),
            message("user", "TOOL_RESULT:unknown:get_weather got {\"loc\":\"NYC\"}"),
        ]
    );
    let mut openai = OpenAIClient::new("k".to_string(), "m".to_string());
    openai.add_tool(weather_tool());
    assert_eq!(
        openai.handle_tool_calls(calls(), &Echo),
        vec![
            message("tool", "TOOL_RESULT:t1:get_weather got {\"loc\":\"NYC\"}"),
            message("tool", "TOOL_RESULT:unknown:get_weather got {\"loc\":\"NYC\"}"),
        ]
    );
    let mut ollama = OllamaClient::new("e".to_string(), "m".to_string());
    ollama.add_tool(weather_tool());
    assert_eq!(
        ollama.handle_tool_calls(calls(), &Echo, false),
        vec![
            message("tool", "get_weather got {\"loc\":\"NYC\"}"),
            message("tool", "get_weather got {\"loc\":\"NYC\"}"),
        ]
    );
    assert_eq!(
        ollama.handle_tool_calls(vec![weather_call(None)], &Echo, true),
        vec![message("user", "Tool response from get_weather: get_weather got {\"loc\":\"NYC\"}")]
    );
    let none = OllamaClient::new("e".to_string(), "m".to_string());
    assert_eq!(none.handle_tool_calls(calls(), &Echo, false), Vec::new());
}

#[test]
fn models_of_each_back_end_become_models_of_any() {
    let local = OllamaClient::mono_model(Model {
        name: "llama3".to_string(),
        modified_at: "2024".to_string(),
        size: 4096,
        digest: "d".to_string(),
    });
    assert_eq!(local.id, "llama3");
    assert_eq!(local.name, "llama3");
    assert_eq!(local.provider, "Ollama");
    assert_eq!(local.size, Some(4096));
    assert_eq!(local.created, None);
    let hosted = AnthropicClient::mono_model(AnthropicModel {
        id: "lm3".to_string(),
        display_name: "Large Model 3".to_string(),
        created_at: "1700000000".to_string(),
    });
    assert_eq!(hosted.name, "Large Model 3");
    assert_eq!(hosted.provider, "Anthropic");
    assert_eq!(hosted.created, Some(1700000000));
    let dated = AnthropicClient::mono_model(AnthropicModel {
        id: "lm3".to_string(),
        display_name: "Large Model 3".to_string(),
        created_at: "2024-02-29T00:00:00Z".to_string(),
    });
    assert_eq!(dated.created, Some(0));
    let open = OpenAIClient::mono_model(OpenAIModel { id: "gpt".to_string(), created: 5 });
    assert_eq!(open.id, "gpt");
    assert_eq!(open.name, "gpt");
    assert_eq!(open.provider, "OpenAI");
    assert_eq!(open.created, Some(5));
    assert_eq!(open.size, None);
}

#[test]
fn progress_lines_are_read_across_chunks_and_empty_lines_report_nothing() {
    let mut reader = naori_ai::providers::ollama::PullProgressReader::new();
    let first = reader.push_chunk(b"{\"status\":\"pulling\"}\n\n{\"stat");
    assert_eq!(
        first,
        vec![PullProgress {
            status: "pulling".to_string(),
            digest: None,
            total: None,
            completed: None,
        }]
    );
    let second = reader.push_chunk(b"us\":\"verifying\",\"total\":8}\nsuccess");
    assert_eq!(
        second,
        vec![PullProgress {
            status: "verifying".to_string(),
            digest: None,
            total: Some(8),
            completed: None,
        }]
    );
    assert_eq!(
        reader.finish(),
        vec![PullProgress {
            status: "success".to_string(),
            digest: None,
            total: None,
            completed: None,
        }]
    );
    assert_eq!(reader.finish(), Vec::new());
}

#[test]
fn generated_text_is_read_across_chunks() {
    let mut reader = naori_ai::providers::ollama::GenerateReader::new();
    assert_eq!(
        reader.push_chunk(b"{\"response\":\"Hel\"}\n{\"resp"),
        vec![Ok("Hel".to_string())]
    );
    assert_eq!(
        reader.push_chunk(b"onse\":\"lo\"}\n\n{\"done\":true}\n{bad}\n{\"response\":\"!\"}"),
        vec![
            Ok("lo".to_string()),
            Err("Parse error: key must be a string at line 1 column 2".to_string()),
        ]
    );
    assert_eq!(reader.finish(), vec![Ok("!".to_string())]);
}
