use nimbox::anthropic_api;
use nimbox::chat::{
    ChatRequest, ChatResponse, ContentPart, EmbeddingResponse, FinishReason, Message, ReasoningEffort, Role,
    StreamEvent, Tool, ToolCall, ToolChoice, Usage,
};
use nimbox::gemini_api::{self, GeminiAction};
use nimbox::json::{as_str, at, field, write_json, Json};
use nimbox::openai_api;
use nimbox::chat::EventData;
use nimbox::status::{gemini_status_from_error, status_from_error};

fn s(t: &str) -> Json {
    Json::Str(t.to_string())
}

fn n(t: &str) -> Json {
    Json::Number(t.to_string())
}

fn obj(members: Vec<(&str, Json)>) -> Json {
    Json::Object(members.into_iter().map(|(k, v)| (k.to_string(), v)).collect())
}

fn arr(items: Vec<Json>) -> Json {
    Json::Array(items)
}

fn assert_json(j: &Json, expected: &str) {
    let got: serde_json::Value = serde_json::from_str(&write_json(j)).unwrap();
    let want: serde_json::Value = serde_json::from_str(expected).unwrap();
    assert_eq!(got, want);
}

fn text_of(j: Option<&Json>) -> Option<String> {
    as_str(j).cloned()
}

fn user(text: &str) -> Message {
    Message {
        role: Role::User,
        content: vec![ContentPart::Text { text: text.to_string() }],
        tool_calls: vec![],
        tool_call_id: None,
    }
}

fn response(text: &str, calls: Vec<ToolCall>, finish: FinishReason, usage: Option<Usage>) -> ChatResponse {
    ChatResponse {
        message: Message {
            role: Role::Assistant,
            content: vec![ContentPart::Text { text: text.to_string() }],
            tool_calls: calls,
            tool_call_id: None,
        },
        finish_reason: finish,
        usage,
    }
}

fn call(id: &str, name: &str, args: &str) -> ToolCall {
    ToolCall { id: id.to_string(), name: name.to_string(), arguments: args.to_string() }
}

#[test]
fn parses_gemini_function_call() {
    let payload = obj(vec![(
        "contents",
        arr(vec![obj(vec![
            ("role", s("model")),
            (
                "parts",
                arr(vec![obj(vec![(
                    "functionCall",
                    obj(vec![("name", s("weather")), ("args", obj(vec![("city", s("Pune"))]))]),
                )])]),
            ),
        ])]),
    )]);
    let request = gemini_api::to_internal_request("gemini-test", &payload, false).unwrap();
    assert_eq!(request.messages[0].tool_calls[0].name, "weather");
    assert_eq!(request.model.as_deref(), Some("gemini-test"));
    assert_eq!(request.messages[0].tool_calls[0].id, "call_0_0");
    assert_eq!(request.messages[0].tool_calls[0].arguments, r#"{"city":"Pune"}"#);
    assert!(request.messages[0].role == Role::Assistant);
}

#[test]
fn maps_tools_and_thinking_to_gemini() {
    let req = ChatRequest {
        model: Some("gemini-test".into()),
        messages: vec![user("hi")],
        tools: vec![Tool { name: "weather".into(), description: None, parameters: obj(vec![("type", s("object"))]) }],
        tool_choice: Some(ToolChoice::Required),
        stream: false,
        max_tokens: Some(100),
        temperature: None,
        top_p: None,
        reasoning_effort: Some(ReasoningEffort::Low),
        thinking_budget_tokens: None,
    };
    let body = nimbox::ai_studio::request_body(&req);
    let b = Some(&body);
    assert_eq!(
        text_of(field(at(field(at(field(b, "tools"), 0), "functionDeclarations"), 0), "name")).as_deref(),
        Some("weather")
    );
    assert_eq!(text_of(field(field(field(b, "toolConfig"), "functionCallingConfig"), "mode")).as_deref(), Some("ANY"));
    assert_eq!(
        text_of(field(field(field(b, "generationConfig"), "thinkingConfig"), "thinkingLevel")).as_deref(),
        Some("LOW")
    );
    assert_json(field(b, "generationConfig").unwrap(), r#"{"maxOutputTokens":100,"thinkingConfig":{"thinkingLevel":"LOW"}}"#);
}

#[test]
fn gemini_function_response_finds_its_call() {
    let payload = obj(vec![
        ("systemInstruction", obj(vec![("parts", arr(vec![obj(vec![("text", s("be brief"))])]))])),
        (
            "contents",
            arr(vec![
                obj(vec![
                    ("role", s("model")),
                    ("parts", arr(vec![obj(vec![("functionCall", obj(vec![("name", s("weather"))]))])])),
                ]),
                obj(vec![(
                    "parts",
                    arr(vec![obj(vec![(
                        "functionResponse",
                        obj(vec![("name", s("weather")), ("response", obj(vec![("t", n("21"))]))]),
                    )])]),
                )]),
            ]),
        ),
        (
            "toolConfig",
            obj(vec![("functionCallingConfig", obj(vec![("allowedFunctionNames", arr(vec![s("weather")]))]))]),
        ),
        ("generationConfig", obj(vec![("maxOutputTokens", n("64")), ("temperature", n("0.2"))])),
    ]);
    let request = gemini_api::to_internal_request("models/g", &payload, true).unwrap();
    assert_eq!(request.model.as_deref(), Some("g"));
    assert_eq!(request.messages.len(), 3);
    assert!(request.messages[0].role == Role::System);
    assert_eq!(request.messages[1].tool_calls[0].id, "call_1_0");
    assert!(request.messages[2].role == Role::Tool);
    assert_eq!(request.messages[2].tool_call_id.as_deref(), Some("call_1_0"));
    match &request.messages[2].content[0] {
        ContentPart::Text { text } => assert_eq!(text, r#"{"t":21}"#),
    }
    assert!(matches!(request.tool_choice, Some(ToolChoice::Tool(ref name)) if name == "weather"));
    assert_eq!(request.max_tokens, Some(64));
    assert_eq!(request.temperature.as_deref(), Some("0.2"));
    assert!(request.stream);
}

#[test]
fn gemini_request_errors() {
    let err = gemini_api::to_internal_request("m", &obj(vec![]), false).unwrap_err();
    assert_eq!(err, "contents missing");
    let payload = obj(vec![("contents", arr(vec![obj(vec![("role", s("user"))])]))]);
    let err = gemini_api::to_internal_request("m", &payload, false).unwrap_err();
    assert_eq!(err, "content.parts missing");
}

#[test]
fn gemini_action_routes_by_suffix() {
    assert!(matches!(gemini_api::model_action("gemma3:generateContent"), GeminiAction::Generate(m) if m == "gemma3"));
    assert!(matches!(gemini_api::model_action("g:streamGenerateContent"), GeminiAction::StreamGenerate(m) if m == "g"));
    assert!(matches!(gemini_api::model_action("e:embedContent"), GeminiAction::Embed(m) if m == "e"));
    assert!(matches!(gemini_api::model_action("e:batchEmbedContents"), GeminiAction::BatchEmbed(m) if m == "e"));
    assert!(matches!(gemini_api::model_action("gemma3:countTokens"), GeminiAction::Unknown));
    assert_eq!(gemini_api::normalize_model("models/gemma3"), "gemma3");
    assert_eq!(gemini_api::normalize_model("gemma3"), "gemma3");
}

#[test]
fn gemini_response_and_error_bodies() {
    let r = response("hi", vec![call("c1", "weather", "{\"city\":\"Pune\"}")], FinishReason::Length, None);
    let body = gemini_api::to_gemini_response(&r);
    assert_json(&body, r#"{"candidates":[{"content":{"role":"model","parts":[{"text":"hi"},{"functionCall":{"id":"c1","name":"weather","args":{"city":"Pune"}}}]},"finishReason":"MAX_TOKENS"}],"usageMetadata":null}"#);
    let bad = response("", vec![call("c2", "f", "not json")], FinishReason::Stop, None);
    let body = gemini_api::to_gemini_response(&bad);
    let args = field(field(at(field(field(at(field(Some(&body), "candidates"), 0), "content"), "parts"), 1), "functionCall"), "args");
    assert_json(args.unwrap(), "{}");
    let err = nimbox::status::gemini_error_body(404, "missing".to_string());
    assert_json(&err, r#"{"error":{"code":404,"message":"missing","status":"NOT_FOUND"}}"#);
    let err = nimbox::status::gemini_error_body(429, "slow".to_string());
    assert_eq!(text_of(field(field(Some(&err), "error"), "status")).as_deref(), Some("TOO_MANY_REQUESTS"));
}

#[test]
fn gemini_stream_sends_whole_tool_calls() {
    let mut stream = gemini_api::GeminiStream::new();
    assert!(stream.step(Ok(StreamEvent::ToolCallStarted { id: "c".into(), name: "f".into() })).is_none());
    assert!(stream.step(Ok(StreamEvent::ToolCallDelta { id: "c".into(), arguments_chunk: "{\"a\":".into() })).is_none());
    assert!(stream.step(Ok(StreamEvent::ToolCallDelta { id: "c".into(), arguments_chunk: "1}".into() })).is_none());
    let chunk = stream.step(Ok(StreamEvent::ToolCallFinished)).unwrap();
    assert_json(&chunk, r#"{"candidates":[{"content":{"role":"model","parts":[{"functionCall":{"id":"c","name":"f","args":{"a":1}}}]}}]}"#);
    assert!(stream.step(Ok(StreamEvent::ToolCallFinished)).is_none());
    let done = stream.step(Ok(StreamEvent::Done)).unwrap();
    assert_json(&done, r#"{"candidates":[{"finishReason":"STOP"}]}"#);
    let err = stream.step(Err("boom".to_string())).unwrap();
    assert_json(&err, r#"{"error":{"code":502,"message":"boom","status":"UNKNOWN"}}"#);
}

#[test]
fn gemini_embedding_requests() {
    let payload = obj(vec![("content", obj(vec![("parts", arr(vec![obj(vec![("text", s("a"))]), obj(vec![("text", s("b"))])]))]))]);
    let req = gemini_api::embed_request("models/e", &payload).unwrap();
    assert_eq!(req.input, vec!["ab".to_string()]);
    assert_eq!(req.model.as_deref(), Some("e"));
    assert_eq!(gemini_api::embed_request("e", &obj(vec![])).unwrap_err(), "content.parts must contain text");
    assert_eq!(gemini_api::batch_embed_request("e", &obj(vec![])).unwrap_err(), "requests missing");
    let batch = obj(vec![("requests", arr(vec![nimbox::json::copy(&payload), obj(vec![])]))]);
    assert_eq!(gemini_api::batch_embed_request("e", &batch).unwrap_err(), "every request.content must contain text");
    let resp = EmbeddingResponse { vectors: vec![vec!["0.5".into(), "1".into()]] };
    assert_json(&gemini_api::batch_embedding_response(&resp), r#"{"embeddings":[{"values":[0.5,1]}]}"#);
    assert_json(&gemini_api::embedding_response(&resp), r#"{"embedding":{"values":[0.5,1]}}"#);
}

#[test]
fn anthropic_request_is_translated() {
    let payload = obj(vec![
        ("system", s("be kind")),
        (
            "messages",
            arr(vec![
                obj(vec![("role", s("user")), ("content", s("hello"))]),
                obj(vec![
                    ("role", s("assistant")),
                    (
                        "content",
                        arr(vec![
                            obj(vec![("type", s("text")), ("text", s("checking"))]),
                            obj(vec![
                                ("type", s("tool_use")),
                                ("id", s("tu1")),
                                ("name", s("weather")),
                                ("input", obj(vec![("city", s("Pune"))])),
                            ]),
                        ]),
                    ),
                ]),
                obj(vec![
                    ("role", s("user")),
                    (
                        "content",
                        arr(vec![obj(vec![
                            ("type", s("tool_result")),
                            ("tool_use_id", s("tu1")),
                            ("content", arr(vec![n("1")])),
                        ])]),
                    ),
                ]),
            ]),
        ),
        ("tools", arr(vec![obj(vec![("name", s("weather")), ("input_schema", obj(vec![]))])])),
        ("tool_choice", obj(vec![("type", s("any"))])),
        ("max_tokens", n("1024")),
        ("thinking", obj(vec![("budget_tokens", n("2000"))])),
        ("stream", Json::Bool(true)),
    ]);
    let req = anthropic_api::to_internal_request(&payload, "assistant-model".to_string()).unwrap();
    assert_eq!(req.messages.len(), 4);
    assert!(req.messages[0].role == Role::System);
    assert!(req.messages[2].role == Role::Assistant);
    assert_eq!(req.messages[2].tool_calls[0].arguments, r#"{"city":"Pune"}"#);
    assert!(req.messages[3].role == Role::Tool);
    assert_eq!(req.messages[3].tool_call_id.as_deref(), Some("tu1"));
    match &req.messages[3].content[0] {
        ContentPart::Text { text } => assert_eq!(text, "[1]"),
    }
    assert!(matches!(req.tool_choice, Some(ToolChoice::Required)));
    assert_eq!(req.max_tokens, Some(1024));
    assert_eq!(req.thinking_budget_tokens, Some(2000));
    assert!(req.stream);
    assert_eq!(req.tools[0].name, "weather");
    let err = anthropic_api::to_internal_request(&obj(vec![]), "m".to_string()).unwrap_err();
    assert_eq!(err, "messages missing");
}

#[test]
fn anthropic_response_has_blocks() {
    let r = response("", vec![call("t1", "f", "{\"x\":true}"), call("t2", "g", "oops")], FinishReason::ToolCalls, None);
    let body = anthropic_api::to_anthropic_response(&r, 42);
    assert_json(&body, r#"{"id":"msg_42","type":"message","role":"assistant","content":[{"type":"tool_use","id":"t1","name":"f","input":{"x":true}},{"type":"tool_use","id":"t2","name":"g","input":{}}],"model":"proxy","stop_reason":"tool_use","stop_sequence":null,"usage":{"input_tokens":0,"output_tokens":0}}"#);
    let usage = Usage { prompt_tokens: 3, completion_tokens: 5, total_tokens: 8 };
    let body = anthropic_api::to_anthropic_response(&response("hi", vec![], FinishReason::Length, Some(usage)), 7);
    let b = Some(&body);
    assert_eq!(text_of(field(b, "stop_reason")).as_deref(), Some("max_tokens"));
    assert_json(field(b, "usage").unwrap(), r#"{"input_tokens":3,"output_tokens":5}"#);
    assert_json(field(b, "content").unwrap(), r#"[{"type":"text","text":"hi"}]"#);
}

#[test]
fn anthropic_stream_numbers_tool_blocks() {
    let mut index: i64 = 0;
    let (name, data) = anthropic_api::anthropic_stream_event(Ok(StreamEvent::TextDelta("a".into())), &mut index);
    assert_eq!(name, "content_block_delta");
    assert_json(&data, r#"{"type":"content_block_delta","index":0,"delta":{"type":"text_delta","text":"a"}}"#);
    let (name, data) =
        anthropic_api::anthropic_stream_event(Ok(StreamEvent::ToolCallStarted { id: "c".into(), name: "f".into() }), &mut index);
    assert_eq!(index, 1);
    assert_eq!(name, "content_block_start");
    assert_json(&data, r#"{"type":"content_block_start","index":1,"content_block":{"type":"tool_use","id":"c","name":"f","input":{}}}"#);
    let (_, data) = anthropic_api::anthropic_stream_event(
        Ok(StreamEvent::ToolCallDelta { id: "c".into(), arguments_chunk: "{}".into() }),
        &mut index,
    );
    assert_eq!(text_of(field(Some(&data), "index")), None);
    assert_json(field(Some(&data), "index").unwrap(), "1");
    let (name, _) = anthropic_api::anthropic_stream_event(Ok(StreamEvent::ToolCallFinished), &mut index);
    assert_eq!(name, "content_block_stop");
    anthropic_api::anthropic_stream_event(Ok(StreamEvent::ToolCallStarted { id: "d".into(), name: "g".into() }), &mut index);
    assert_eq!(index, 2);
    let (name, data) = anthropic_api::anthropic_stream_event(Err("down".into()), &mut index);
    assert_eq!(name, "error");
    assert_json(&data, r#"{"type":"error","error":{"type":"api_error","message":"down"}}"#);
    let opening = anthropic_api::stream_opening(5);
    assert_eq!(opening[0].0, "message_start");
    assert_eq!(opening[1].0, "content_block_start");
    let closing = anthropic_api::stream_closing();
    let names: Vec<&str> = closing.iter().map(|e| e.0.as_str()).collect();
    assert_eq!(names, vec!["content_block_stop", "message_delta", "message_stop"]);
}

#[test]
fn openai_request_and_model_choice() {
    let payload = obj(vec![
        ("model", s("")),
        ("messages", arr(vec![obj(vec![("role", s("system")), ("content", s("x"))])])),
        ("max_completion_tokens", n("50")),
        ("reasoning", obj(vec![("effort", s("high"))])),
        ("tool_choice", s("none")),
        ("temperature", n("0.7")),
    ]);
    let req = openai_api::to_internal_chat_request(&payload, "m".to_string()).unwrap();
    assert_eq!(req.max_tokens, Some(50));
    assert_eq!(req.reasoning_effort, Some(ReasoningEffort::High));
    assert!(matches!(req.tool_choice, Some(ToolChoice::Disabled)));
    assert_eq!(req.temperature.as_deref(), Some("0.7"));
    assert_eq!(
        openai_api::request_or_configured_model(&payload, Some("gemma3".to_string())).unwrap(),
        "gemma3"
    );
    let named = obj(vec![("model", s("qwen"))]);
    assert_eq!(openai_api::request_or_configured_model(&named, Some("gemma3".to_string())).unwrap(), "qwen");
    assert_eq!(
        openai_api::request_or_configured_model(&payload, None).unwrap_err(),
        "No model supplied or configured. Run: nimbox model <model-name>"
    );
    assert_eq!(
        openai_api::request_or_configured_embedding_model(&payload, None).unwrap_err(),
        "No embedding model configured. Run: nimbox embed <model-name>"
    );
    assert_eq!(openai_api::anthropic_model(&named, None).unwrap(), "qwen");
    assert_eq!(
        openai_api::anthropic_model(&payload, None).unwrap_err(),
        "No model configured. Run: nimbox model <model-name>"
    );
}

#[test]
fn openai_stream_events() {
    let data = openai_api::openai_stream_event(Ok(StreamEvent::TextDelta("hi".into())));
    match data {
        EventData::Json(j) => assert_json(&j, r#"{"choices":[{"delta":{"content":"hi"}}]}"#),
        EventData::Done => panic!("unexpected end"),
    }
    assert!(matches!(openai_api::openai_stream_event(Ok(StreamEvent::Done)), EventData::Done));
    match openai_api::openai_stream_event(Err("bad".into())) {
        EventData::Json(j) => assert_json(&j, r#"{"error":{"message":"bad","type":"api_error"}}"#),
        EventData::Done => panic!("unexpected end"),
    }
    let r = openai_api::responses_stream_event(Ok(StreamEvent::Done));
    assert_json(&r, r#"{"type":"response.completed"}"#);
    let r = openai_api::responses_stream_event(Ok(StreamEvent::ToolCallFinished));
    assert_json(&r, "{}");
}

#[test]
fn openai_responses_are_written() {
    let usage = Usage { prompt_tokens: 1, completion_tokens: 2, total_tokens: 3 };
    let r = response("hello", vec![], FinishReason::Unknown, Some(usage));
    let body = openai_api::to_openai_chat_response(&r, "m".to_string(), 12, 34);
    assert_json(&body, r#"{"id":"chatcmpl-12","object":"chat.completion","created":34,"model":"m","choices":[{"index":0,"message":{"role":"assistant","content":"hello","tool_calls":[]},"finish_reason":"stop"}],"usage":{"prompt_tokens":1,"completion_tokens":2,"total_tokens":3}}"#);
    let body = openai_api::to_responses_response(&r, "m".to_string(), 1, 2, 3);
    assert_eq!(text_of(field(Some(&body), "id")).as_deref(), Some("resp_1"));
    assert_eq!(
        text_of(field(at(field(Some(&body), "output"), 0), "id")).as_deref(),
        Some("msg_3")
    );
}

#[test]
fn upstream_status_is_read_from_errors() {
    assert_eq!(status_from_error("Groq returned 429 Too Many Requests: x"), 429);
    assert_eq!(status_from_error("TOO MANY REQUESTS"), 429);
    assert_eq!(gemini_status_from_error("TOO MANY REQUESTS"), 502);
    assert_eq!(status_from_error("OpenAI returned 401 Unauthorized"), 401);
    assert_eq!(status_from_error("Forbidden"), 403);
    assert_eq!(status_from_error("model Not Found"), 404);
    assert_eq!(status_from_error("connection reset"), 502);
}

#[test]
fn anthropic_stream_takes_any_start_index() {
    let mut index: i64 = -5;
    let (_, data) = anthropic_api::anthropic_stream_event(
        Ok(StreamEvent::ToolCallDelta { id: "c".into(), arguments_chunk: "{}".into() }),
        &mut index,
    );
    assert_eq!(index, -5);
    assert_eq!(write_json(field(Some(&data), "index").unwrap()), "-5");
    let (_, data) =
        anthropic_api::anthropic_stream_event(Ok(StreamEvent::ToolCallStarted { id: "c".into(), name: "f".into() }), &mut index);
    assert_eq!(index, -4);
    assert_eq!(write_json(field(Some(&data), "index").unwrap()), "-4");
    let mut top: i64 = i64::MAX - 1;
    anthropic_api::anthropic_stream_event(Ok(StreamEvent::ToolCallStarted { id: "c".into(), name: "f".into() }), &mut top);
    assert_eq!(top, i64::MAX);
    let (_, data) = anthropic_api::anthropic_stream_event(Ok(StreamEvent::ToolCallFinished), &mut top);
    assert_eq!(top, i64::MAX);
    assert_eq!(write_json(field(Some(&data), "index").unwrap()), "9223372036854775807");
    let mut low: i64 = i64::MIN;
    let (_, data) = anthropic_api::anthropic_stream_event(Ok(StreamEvent::ToolCallFinished), &mut low);
    assert_eq!(write_json(field(Some(&data), "index").unwrap()), "-9223372036854775808");
}
