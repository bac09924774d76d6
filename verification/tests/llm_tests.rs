use nexacode_core::agent::ToolDefinition;
use nexacode_core::llm::{
    anthropic_chunk_payloads, anthropic_delta_text, anthropic_messages, anthropic_messages_url,
    anthropic_request, chat_completions_url, check_api_key, interpret_anthropic_response,
    interpret_openai_response, openai_delta_text, openai_messages, openai_tools, sse_line_payload,
    str_lines, AnthropicContent, AnthropicResponse, AnthropicStreamDelta, AnthropicStreamEvent,
    LlmMessage, LlmResponse, OpenAIChoice, OpenAIDelta, OpenAIResponse, OpenAIResponseMessage,
    OpenAIStreamChoice, OpenAIStreamResponse, OpenAIToolCall, OpenAIToolCallFunction, SseLineBuffer,
    StreamText,
};

#[test]
fn message_constructor() {
    let m = LlmMessage::new("user", "hi");
    assert_eq!(m.role, "user");
    assert_eq!(m.content, "hi");
}

#[test]
fn urls_drop_trailing_slashes() {
    assert_eq!(chat_completions_url("https://api.x.com/v1//"), "https://api.x.com/v1/chat/completions");
    assert_eq!(chat_completions_url("http://h"), "http://h/chat/completions");
    assert_eq!(anthropic_messages_url("https://a.com/"), "https://a.com/v1/messages");
}

#[test]
fn system_messages_become_the_prompt() {
    let msgs = vec![
        LlmMessage::new("system", "first"),
        LlmMessage::new("user", "q"),
        LlmMessage::new("system", "second"),
        LlmMessage::new("assistant", "a"),
    ];
    let (rest, system) = anthropic_messages(&msgs);
    assert_eq!(system.as_deref(), Some("second"));
    assert_eq!(rest.len(), 2);
    assert_eq!(rest[0].role, "user");
    assert_eq!(rest[1].content, "a");
    let req = anthropic_request("m", &msgs, 100, true);
    assert_eq!(req.stream, Some(true));
    assert_eq!(req.max_tokens, Some(100));
    assert_eq!(req.system.as_deref(), Some("second"));
    let plain = anthropic_request("m", &vec![LlmMessage::new("user", "x")], 5, false);
    assert_eq!(plain.stream, None);
    assert_eq!(plain.system, None);
}

#[test]
fn openai_conversion_keeps_everything() {
    let msgs = vec![LlmMessage::new("user", "hello")];
    let out = openai_messages(&msgs);
    assert_eq!(out[0].role, "user");
    assert_eq!(out[0].content, "hello");
    let tools = vec![ToolDefinition {
        name: "read".to_string(),
        description: "reads".to_string(),
        parameters: serde_json::Value::Bool(true),
    }];
    let t = openai_tools(&tools);
    assert_eq!(t[0].tool_type, "function");
    assert_eq!(t[0].function.name, "read");
    assert_eq!(t[0].function.parameters, serde_json::Value::Bool(true));
}

fn openai_reply(content: Option<&str>, calls: Vec<(&str, &str)>) -> OpenAIResponse {
    OpenAIResponse {
        choices: vec![OpenAIChoice {
            message: OpenAIResponseMessage {
                role: "assistant".to_string(),
                content: content.map(|c| c.to_string()),
                tool_calls: calls
                    .into_iter()
                    .map(|(n, a)| OpenAIToolCall {
                        function: OpenAIToolCallFunction { name: n.to_string(), arguments: a.to_string() },
                    })
                    .collect(),
            },
        }],
    }
}

#[test]
fn openai_replies_are_interpreted() {
    match interpret_openai_response(&openai_reply(Some("hi"), vec![])) {
        Ok(LlmResponse::Text(t)) => assert_eq!(t, "hi"),
        _ => panic!("expected text"),
    }
    match interpret_openai_response(&openai_reply(None, vec![])) {
        Ok(LlmResponse::Text(t)) => assert_eq!(t, ""),
        _ => panic!("expected empty text"),
    }
    match interpret_openai_response(&openai_reply(Some("x"), vec![("read", "{\"path\": \"a\"}")])) {
        Ok(LlmResponse::ToolCall { name, arguments }) => {
            assert_eq!(name, "read");
            assert_eq!(arguments["path"], serde_json::Value::String("a".to_string()));
        }
        _ => panic!("expected a tool call"),
    }
    match interpret_openai_response(&openai_reply(None, vec![("read", "not json")])) {
        Ok(LlmResponse::ToolCall { arguments, .. }) => {
            assert_eq!(arguments, serde_json::Value::Object(serde_json::Map::new()))
        }
        _ => panic!("expected a tool call"),
    }
    match interpret_openai_response(&OpenAIResponse { choices: vec![] }) {
        Err(e) => assert_eq!(e, "No response choices from LLM API"),
        _ => panic!("expected an error"),
    }
}

#[test]
fn anthropic_replies_join_text_blocks() {
    let resp = AnthropicResponse {
        content: vec![
            AnthropicContent { content_type: "text".to_string(), text: Some("a".to_string()) },
            AnthropicContent { content_type: "tool_use".to_string(), text: Some("skip".to_string()) },
            AnthropicContent { content_type: "text".to_string(), text: Some("b".to_string()) },
        ],
    };
    match interpret_anthropic_response(&resp) {
        Ok(LlmResponse::Text(t)) => assert_eq!(t, "a\nb"),
        _ => panic!("expected text"),
    }
    match interpret_anthropic_response(&AnthropicResponse { content: vec![] }) {
        Err(e) => assert_eq!(e, "No text content in Anthropic response"),
        _ => panic!("expected an error"),
    }
}

#[test]
fn sse_lines_may_arrive_split() {
    let mut buf = SseLineBuffer::new();
    assert!(buf.push_chunk("data: {\"a\"").is_empty());
    let got = buf.push_chunk(":1}\n\ndata: [DONE]\nevent: x\ndata: tail");
    assert_eq!(got, vec!["{\"a\":1}".to_string()]);
    assert_eq!(buf.buffer, "data: tail");
    assert_eq!(sse_line_payload("  data: x  ").as_deref(), Some("x"));
    assert_eq!(sse_line_payload("data: [DONE]"), None);
    assert_eq!(sse_line_payload("id: 3"), None);
}

#[test]
fn stream_deltas_prefer_content_over_reasoning() {
    let ev = |c: Option<&str>, r: Option<&str>| OpenAIStreamResponse {
        choices: vec![OpenAIStreamChoice {
            delta: Some(OpenAIDelta { content: c.map(|s| s.to_string()), reasoning_content: r.map(|s| s.to_string()) }),
        }],
    };
    assert_eq!(openai_delta_text(&ev(Some("a"), Some("b"))).as_deref(), Some("a"));
    assert_eq!(openai_delta_text(&ev(Some(""), Some("b"))).as_deref(), Some("b"));
    assert_eq!(openai_delta_text(&ev(None, Some(""))), None);
    assert_eq!(openai_delta_text(&OpenAIStreamResponse { choices: vec![] }), None);
}

#[test]
fn anthropic_stream_lines() {
    let got = anthropic_chunk_payloads("event: a\r\ndata: {\"x\":1}\r\n\ndata: last");
    assert_eq!(got, vec!["{\"x\":1}".to_string(), "last".to_string()]);
    assert_eq!(str_lines("a\r\nb\n\nc\r"), vec!["a".to_string(), "b".to_string(), "".to_string(), "c\r".to_string()]);
    let ev = AnthropicStreamEvent {
        event_type: "content_block_delta".to_string(),
        delta: Some(AnthropicStreamDelta { delta_type: "text_delta".to_string(), text: Some("hi".to_string()) }),
    };
    assert_eq!(anthropic_delta_text(&ev).as_deref(), Some("hi"));
    let other = AnthropicStreamEvent { event_type: "message_stop".to_string(), delta: None };
    assert_eq!(anthropic_delta_text(&other), None);
}

#[test]
fn streamed_text_must_not_be_empty() {
    let mut t = StreamText::new();
    t.add("a");
    t.add("b");
    assert_eq!(t.finish(), Ok("ab".to_string()));
    assert_eq!(StreamText::new().finish(), Err("No content received from streaming response".to_string()));
    assert_eq!(check_api_key("", "openai"), Err("No API key configured for provider: openai".to_string()));
    assert!(check_api_key("k", "openai").is_ok());
}
