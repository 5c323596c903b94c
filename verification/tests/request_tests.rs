use api_switch::anthropic::{
    AnthropicContent, AnthropicContentBlock, AnthropicMessage, AnthropicRequest, AnthropicSystem,
    AnthropicTool, AnthropicToolChoice, AnthropicToolFunction, ImageSource, SystemContentBlock,
    ToolResultContent, ToolResultContentBlock,
};
use api_switch::openai::{OpenAIContent, OpenAIToolChoice};
use api_switch::transform::request::convert_request;

fn make_request(stream: bool) -> AnthropicRequest {
    AnthropicRequest {
        model: "opus-3-large".into(),
        messages: vec![AnthropicMessage {
            role: "user".into(),
            content: AnthropicContent::SingleString("Hello!".into()),
        }],
        system: Some(AnthropicSystem::String("You are helpful.".into())),
        max_tokens: 1024,
        stop_sequences: None,
        stream,
        temperature: Some(0.7f32.to_bits()),
        top_p: None,
        top_k: Some(5),
        tools: None,
        tool_choice: None,
    }
}

fn bare_request(messages: Vec<AnthropicMessage>) -> AnthropicRequest {
    AnthropicRequest {
        model: "opus-3".into(),
        messages,
        system: None,
        max_tokens: 1024,
        stop_sequences: None,
        stream: false,
        temperature: None,
        top_p: None,
        top_k: None,
        tools: None,
        tool_choice: None,
    }
}

#[test]
fn test_convert_basic_request() {
    let result = convert_request(make_request(false));
    assert_eq!(result.model, "opus-3-large");
    assert_eq!(result.messages.len(), 2);
    assert_eq!(result.messages[0].role, "system");
    match &result.messages[0].content {
        OpenAIContent::Text(t) => assert_eq!(t, "You are helpful."),
        _ => panic!("expected Text"),
    }
}

#[test]
fn basic_request_passes_sampling_parameters_through() {
    let result = convert_request(make_request(false));
    assert_eq!(result.max_tokens, Some(1024));
    assert_eq!(result.temperature.map(f32::from_bits), Some(0.7));
    assert_eq!(result.top_p, None);
    assert_eq!(result.messages[1].role, "user");
    match &result.messages[1].content {
        OpenAIContent::Text(t) => assert_eq!(t, "Hello!"),
        _ => panic!("expected Text"),
    }
}

#[test]
fn test_convert_stop_sequences() {
    let mut req = make_request(false);
    req.stop_sequences = Some(vec!["END".into(), "STOP".into()]);
    let result = convert_request(req);
    assert_eq!(result.stop, Some(vec!["END".into(), "STOP".into()]));
}

#[test]
fn test_convert_stream_flag() {
    let result = convert_request(make_request(true));
    assert!(result.stream);
}

#[test]
fn test_top_k_is_dropped() {
    let mut req = make_request(false);
    req.top_k = Some(10);
    let result = convert_request(req);
    assert_eq!(result.model, "opus-3-large");
}

#[test]
fn test_convert_tools_definition() {
    let mut req = make_request(false);
    req.tools = Some(vec![AnthropicTool::Native {
        name: "get_weather".into(),
        description: Some("Get current weather".into()),
        input_schema: r#"{"type":"object","properties":{"location":{"type":"string","description":"City name"}},"required":["location"]}"#.into(),
    }]);
    let result = convert_request(req);
    let tools = result.tools.unwrap();
    assert_eq!(tools.len(), 1);
    assert_eq!(tools[0].tool_type, "function");
    assert_eq!(tools[0].function.name, "get_weather");
    assert_eq!(tools[0].function.description.as_ref().unwrap(), "Get current weather");
    let parameters: serde_json::Value = serde_json::from_str(&tools[0].function.parameters).unwrap();
    assert_eq!(parameters["type"], "object");
}

#[test]
fn openai_style_tool_without_parameters_gets_empty_schema() {
    let mut req = make_request(false);
    req.tools = Some(vec![AnthropicTool::OpenAIStyle {
        tool_type: "function".into(),
        function: AnthropicToolFunction {
            name: "ping".into(),
            description: None,
            parameters: None,
        },
    }]);
    let tools = convert_request(req).tools.unwrap();
    assert_eq!(tools[0].function.name, "ping");
    assert_eq!(tools[0].function.description, None);
    assert_eq!(tools[0].function.parameters, "{}");
}

#[test]
fn test_convert_tool_choice_auto() {
    let mut req = make_request(false);
    req.tool_choice = Some(AnthropicToolChoice::Auto);
    let result = convert_request(req);
    assert!(matches!(result.tool_choice.unwrap(), OpenAIToolChoice::Auto));
}

#[test]
fn test_convert_tool_choice_any() {
    let mut req = make_request(false);
    req.tool_choice = Some(AnthropicToolChoice::Any);
    let result = convert_request(req);
    assert!(matches!(result.tool_choice.unwrap(), OpenAIToolChoice::Required));
}

#[test]
fn test_convert_tool_choice_specific_tool() {
    let mut req = make_request(false);
    req.tool_choice = Some(AnthropicToolChoice::Tool { name: "get_weather".into() });
    let result = convert_request(req);
    match result.tool_choice.unwrap() {
        OpenAIToolChoice::Function { name } => assert_eq!(name, "get_weather"),
        _ => panic!("expected a function choice"),
    }
}

#[test]
fn test_convert_tool_use_in_assistant_message() {
    let req = bare_request(vec![AnthropicMessage {
        role: "assistant".into(),
        content: AnthropicContent::TextBlocks(vec![
            AnthropicContentBlock::Text { text: "I'll check the weather.".into() },
            AnthropicContentBlock::ToolUse {
                id: "toolu_01".into(),
                name: "get_weather".into(),
                input: r#"{"location":"NYC"}"#.into(),
            },
        ]),
    }]);
    let result = convert_request(req);
    assert_eq!(result.messages.len(), 1);
    let msg = &result.messages[0];
    assert_eq!(msg.role, "assistant");
    match &msg.content {
        OpenAIContent::Text(t) => assert_eq!(t, "I'll check the weather."),
        _ => panic!("expected Text content"),
    }
    let tool_calls = msg.tool_calls.as_ref().unwrap();
    assert_eq!(tool_calls.len(), 1);
    assert_eq!(tool_calls[0].id, "toolu_01");
    assert_eq!(tool_calls[0].call_type, "function");
    assert_eq!(tool_calls[0].function.name, "get_weather");
    let args: serde_json::Value = serde_json::from_str(&tool_calls[0].function.arguments).unwrap();
    assert_eq!(args["location"], "NYC");
}

#[test]
fn test_convert_tool_result_in_user_message() {
    let req = bare_request(vec![AnthropicMessage {
        role: "user".into(),
        content: AnthropicContent::TextBlocks(vec![AnthropicContentBlock::ToolResult {
            tool_use_id: "toolu_01".into(),
            content: Some(ToolResultContent::Text("72°F and sunny".into())),
            is_error: None,
        }]),
    }]);
    let result = convert_request(req);
    assert_eq!(result.messages.len(), 1);
    let msg = &result.messages[0];
    assert_eq!(msg.role, "tool");
    assert_eq!(msg.tool_call_id.as_ref().unwrap(), "toolu_01");
    match &msg.content {
        OpenAIContent::Text(t) => assert_eq!(t, "72°F and sunny"),
        _ => panic!("expected Text content"),
    }
}

#[test]
fn test_convert_multiple_tool_results_with_text() {
    let req = bare_request(vec![AnthropicMessage {
        role: "user".into(),
        content: AnthropicContent::TextBlocks(vec![
            AnthropicContentBlock::ToolResult {
                tool_use_id: "toolu_01".into(),
                content: Some(ToolResultContent::Text("Result 1".into())),
                is_error: None,
            },
            AnthropicContentBlock::ToolResult {
                tool_use_id: "toolu_02".into(),
                content: Some(ToolResultContent::Text("Result 2".into())),
                is_error: None,
            },
            AnthropicContentBlock::Text { text: "Now continue.".into() },
        ]),
    }]);
    let result = convert_request(req);
    assert_eq!(result.messages.len(), 3);
    assert_eq!(result.messages[0].role, "tool");
    assert_eq!(result.messages[0].tool_call_id.as_ref().unwrap(), "toolu_01");
    assert_eq!(result.messages[1].role, "tool");
    assert_eq!(result.messages[1].tool_call_id.as_ref().unwrap(), "toolu_02");
    assert_eq!(result.messages[2].role, "user");
    match &result.messages[2].content {
        OpenAIContent::Text(t) => assert_eq!(t, "Now continue."),
        _ => panic!("expected Text"),
    }
}

#[test]
fn tool_result_blocks_join_their_texts() {
    let req = bare_request(vec![AnthropicMessage {
        role: "user".into(),
        content: AnthropicContent::TextBlocks(vec![AnthropicContentBlock::ToolResult {
            tool_use_id: "toolu_09".into(),
            content: Some(ToolResultContent::Blocks(vec![
                ToolResultContentBlock { content_type: "text".into(), text: Some("a".into()) },
                ToolResultContentBlock { content_type: "image".into(), text: None },
                ToolResultContentBlock { content_type: "text".into(), text: Some("b".into()) },
            ])),
            is_error: Some(true),
        }]),
    }]);
    let result = convert_request(req);
    assert_eq!(result.messages.len(), 1);
    match &result.messages[0].content {
        OpenAIContent::Text(t) => assert_eq!(t, "a\nb"),
        _ => panic!("expected Text"),
    }
}

#[test]
fn test_convert_image_content_block() {
    let req = bare_request(vec![AnthropicMessage {
        role: "user".into(),
        content: AnthropicContent::TextBlocks(vec![
            AnthropicContentBlock::Text { text: "What is in this image?".into() },
            AnthropicContentBlock::Image {
                source: ImageSource {
                    source_type: "base64".into(),
                    media_type: "image/png".into(),
                    data: "iVBOR...".into(),
                },
            },
        ]),
    }]);
    let result = convert_request(req);
    assert_eq!(result.messages.len(), 1);
    match &result.messages[0].content {
        OpenAIContent::MultiContent(blocks) => {
            assert_eq!(blocks.len(), 2);
            assert_eq!(blocks[0].content_type, "text");
            assert_eq!(blocks[1].content_type, "image_url");
            let url = &blocks[1].image_url.as_ref().unwrap().url;
            assert!(url.starts_with("data:image/png;base64,"));
            assert_eq!(url, "data:image/png;base64,iVBOR...");
        }
        _ => panic!("expected MultiContent"),
    }
}

#[test]
fn test_convert_no_system() {
    let mut req = bare_request(vec![AnthropicMessage {
        role: "user".into(),
        content: AnthropicContent::SingleString("hi".into()),
    }]);
    req.max_tokens = 100;
    let result = convert_request(req);
    assert_eq!(result.messages.len(), 1);
    assert_eq!(result.messages[0].role, "user");
}

#[test]
fn test_convert_system_content_list() {
    let mut req = bare_request(vec![AnthropicMessage {
        role: "user".into(),
        content: AnthropicContent::SingleString("hi".into()),
    }]);
    req.max_tokens = 100;
    req.system = Some(AnthropicSystem::ContentList(vec![
        SystemContentBlock { content_type: "text".into(), text: Some("Part one.".into()) },
        SystemContentBlock { content_type: "text".into(), text: Some("Part two.".into()) },
    ]));
    let result = convert_request(req);
    assert_eq!(result.messages.len(), 2);
    match &result.messages[0].content {
        OpenAIContent::Text(t) => assert_eq!(t, "Part one.\n\nPart two."),
        _ => panic!("expected Text"),
    }
}

#[test]
fn test_convert_assistant_tool_use_only_no_text() {
    let req = bare_request(vec![AnthropicMessage {
        role: "assistant".into(),
        content: AnthropicContent::TextBlocks(vec![AnthropicContentBlock::ToolUse {
            id: "toolu_01".into(),
            name: "search".into(),
            input: r#"{"query":"rust"}"#.into(),
        }]),
    }]);
    let result = convert_request(req);
    let msg = &result.messages[0];
    match &msg.content {
        OpenAIContent::Null => {}
        _ => panic!("expected Null content for tool_calls-only message"),
    }
    assert!(msg.tool_calls.is_some());
}

#[test]
fn tool_accessors_read_either_form() {
    let native = AnthropicTool::Native {
        name: "a".into(),
        description: Some("d".into()),
        input_schema: r#"{"type":"object"}"#.into(),
    };
    assert_eq!(native.name(), "a");
    assert_eq!(native.description(), Some("d"));
    assert_eq!(native.input_schema(), r#"{"type":"object"}"#);
    let styled = AnthropicTool::OpenAIStyle {
        tool_type: "function".into(),
        function: AnthropicToolFunction { name: "b".into(), description: None, parameters: None },
    };
    assert_eq!(styled.name(), "b");
    assert_eq!(styled.description(), None);
    assert_eq!(styled.input_schema(), "{}");
}
