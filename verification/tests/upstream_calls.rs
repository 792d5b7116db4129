use nimbox::ai_studio::{self, AiStudioStream};
use nimbox::chat::{
    ChatRequest, ContentPart, EmbeddingRequest, FinishReason, Message, ReasoningEffort, Role, StreamEvent, Tool,
    ToolCall, ToolChoice,
};
use nimbox::cli::{mask_key, removal, Removal};
use nimbox::json::{write_json, Json};
use nimbox::providers::{self, ModelInfo, ProviderKind};
use nimbox::upstream::{self, ChatStream, EmbeddingFormat, ModelsFormat};

fn s(t: &str) -> Json {
    Json::Str(t.to_string())
}

fn n(t: &str) -> Json {
    Json::Number(t.to_string())
}

fn obj(members: Vec<(&str, Json)>) -> Json {
    Json::Object(members.into_iter().map(|(k, v)| (k.to_string(), v)).collect())
}

fn arr(items: Vec<Json>) -> Json {
    Json::Array(items)
}

fn assert_json(j: &Json, expected: &str) {
    let got: serde_json::Value = serde_json::from_str(&write_json(j)).unwrap();
    let want: serde_json::Value = serde_json::from_str(expected).unwrap();
    assert_eq!(got, want);
}

fn msg(role: Role, text: &str) -> Message {
    Message { role, content: vec![ContentPart::Text { text: text.to_string() }], tool_calls: vec![], tool_call_id: None }
}

fn request(messages: Vec<Message>) -> ChatRequest {
    ChatRequest {
        model: Some("m".to_string()),
        messages,
        tools: vec![],
        tool_choice: None,
        stream: false,
        max_tokens: None,
        temperature: None,
        top_p: None,
        reasoning_effort: None,
        thinking_budget_tokens: None,
    }
}

fn started(e: &StreamEvent) -> Option<(String, String)> {
    match e {
        StreamEvent::ToolCallStarted { id, name } => Some((id.clone(), name.clone())),
        _ => None,
    }
}

#[test]
fn openai_body_defaults_and_options() {
    let mut req = request(vec![msg(Role::User, "hi")]);
    let body = upstream::openai_chat_request_body(&req, false).unwrap();
    assert_json(&body, r#"{"model":"m","messages":[{"role":"user","content":"hi"}],"temperature":1.0,"top_p":1.0,"stream":false}"#);
    req.max_tokens = Some(10);
    req.reasoning_effort = Some(ReasoningEffort::Medium);
    req.tool_choice = Some(ToolChoice::Tool("f".to_string()));
    req.temperature = Some("0.3".to_string());
    let body = upstream::openai_chat_request_body(&req, true).unwrap();
    assert_json(&body, r#"{"model":"m","messages":[{"role":"user","content":"hi"}],"temperature":0.3,"top_p":1.0,"stream":true,"max_completion_tokens":10,"tool_choice":{"type":"function","function":{"name":"f"}},"reasoning_effort":"medium"}"#);
    req.model = None;
    assert_eq!(upstream::openai_chat_request_body(&req, false).unwrap_err(), "No model specified");
    assert_eq!(
        upstream::nim_chat_request_body(&req, false).unwrap_err(),
        "No model configured. Run: nimbox model <model-name>"
    );
}

#[test]
fn nim_body_and_tool_messages() {
    let mut tool = msg(Role::Tool, "42");
    tool.tool_call_id = None;
    let mut assistant = msg(Role::Assistant, "");
    assistant.tool_calls = vec![ToolCall { id: "c".into(), name: "f".into(), arguments: "{}".into() }];
    let mut req = request(vec![assistant, tool]);
    req.tools = vec![Tool { name: "f".into(), description: Some("does f".into()), parameters: obj(vec![]) }];
    let body = upstream::nim_chat_request_body(&req, false).unwrap();
    assert_json(&body, r#"{"model":"m","messages":[{"role":"assistant","content":"","tool_calls":[{"id":"c","type":"function","function":{"name":"f","arguments":"{}"}}]},{"role":"tool","content":"42","tool_call_id":null}],"max_tokens":131072,"temperature":1.0,"top_p":1.0,"stream":false,"reasoning_budget":32768,"chat_template_kwargs":{"enable_thinking":true},"tools":[{"type":"function","function":{"name":"f","description":"does f","parameters":{}}}]}"#);
}

#[test]
fn chat_completion_is_read() {
    let j = obj(vec![
        (
            "choices",
            arr(vec![obj(vec![
                (
                    "message",
                    obj(vec![
                        ("content", s("hello")),
                        (
                            "tool_calls",
                            arr(vec![obj(vec![
                                ("id", s("c1")),
                                ("function", obj(vec![("name", s("f")), ("arguments", s("{}"))])),
                            ])]),
                        ),
                    ]),
                ),
                ("finish_reason", s("tool_calls")),
            ])]),
        ),
        ("usage", obj(vec![("prompt_tokens", n("3")), ("total_tokens", n("4"))])),
    ]);
    let r = upstream::parse_chat_response(&j, false);
    assert!(r.finish_reason == FinishReason::ToolCalls);
    assert_eq!(r.message.tool_calls[0].id, "c1");
    let u = r.usage.unwrap();
    assert_eq!((u.prompt_tokens, u.completion_tokens, u.total_tokens), (3, 0, 4));
    let empty = upstream::parse_chat_response(&obj(vec![]), false);
    assert!(empty.finish_reason == FinishReason::Stop);
    assert!(empty.usage.is_none());
    let nim = upstream::parse_chat_response(&obj(vec![]), true);
    assert!(nim.finish_reason == FinishReason::Unknown);
}

#[test]
fn openai_stream_announces_and_finishes_calls() {
    let mut st = ChatStream::new(false);
    let (ev, done) = st.step(r#"{"choices":[{"delta":{"content":"Hi"}}]}"#);
    assert!(!done);
    assert!(matches!(&ev[0], StreamEvent::TextDelta(t) if t == "Hi"));
    let (ev, _) = st.step(r#"{"choices":[{"delta":{"tool_calls":[{"index":0,"id":"c1","function":{"name":"f","arguments":"{\"a\""}}]}}]}"#);
    assert_eq!(ev.len(), 2);
    assert_eq!(started(&ev[0]), Some(("c1".to_string(), "f".to_string())));
    let (ev, _) = st.step(r#"{"choices":[{"delta":{"tool_calls":[{"index":0,"function":{"arguments":":1}"}}]}}]}"#);
    assert!(matches!(&ev[0], StreamEvent::ToolCallDelta { id, arguments_chunk } if id == "c1" && arguments_chunk == ":1}"));
    let (ev, done) = st.step("[DONE]");
    assert!(done);
    assert_eq!(ev.len(), 2);
    assert!(matches!(ev[0], StreamEvent::ToolCallFinished));
    assert!(matches!(ev[1], StreamEvent::Done));
    let (ev, _) = st.step("not json");
    assert!(matches!(&ev[0], StreamEvent::Error { message } if message.starts_with("Parse error: ")));
    let mut nim = ChatStream::new(true);
    let (ev, done) = nim.step("not json");
    assert!(ev.is_empty() && !done);
}

#[test]
fn stream_finish_reason_closes_calls_and_reports_usage() {
    let mut st = ChatStream::new(false);
    st.step(r#"{"choices":[{"delta":{"tool_calls":[{"index":1,"id":"x","function":{"name":"g"}}]}}]}"#);
    let (ev, _) = st.step(r#"{"choices":[{"delta":{},"finish_reason":"tool_calls"}],"usage":{"prompt_tokens":1,"completion_tokens":2,"total_tokens":3}}"#);
    assert_eq!(ev.len(), 2);
    assert!(matches!(ev[0], StreamEvent::ToolCallFinished));
    assert!(matches!(&ev[1], StreamEvent::Usage(u) if u.total_tokens == 3));
    let (ev, _) = st.step("[DONE]");
    assert_eq!(ev.len(), 1);
}

#[test]
fn embeddings_are_read_by_format() {
    let openai = obj(vec![("data", arr(vec![obj(vec![("embedding", arr(vec![n("0.5"), s("x")]))])]))]);
    let r = upstream::parse_embeddings(&openai, EmbeddingFormat::OpenAI).unwrap();
    assert_eq!(r.vectors, vec![vec!["0.5".to_string(), "0.0".to_string()]]);
    let nim = obj(vec![("data", arr(vec![obj(vec![("embedding", arr(vec![n("0.5"), s("x")]))])]))]);
    assert_eq!(upstream::parse_embeddings(&nim, EmbeddingFormat::Nim).unwrap_err(), "Embedding contains non-float value");
    assert_eq!(upstream::parse_embeddings(&obj(vec![]), EmbeddingFormat::Nim).unwrap_err(), "Missing data array");
    let ollama = obj(vec![("embeddings", arr(vec![arr(vec![n("1"), n("2")]), s("bad")]))]);
    assert_eq!(upstream::parse_embeddings(&ollama, EmbeddingFormat::Ollama).unwrap_err(), "Invalid Ollama embedding vector");
    let gemini = obj(vec![("embeddings", arr(vec![obj(vec![("values", arr(vec![n("3")]))])]))]);
    assert_eq!(upstream::parse_embeddings(&gemini, EmbeddingFormat::AiStudio).unwrap().vectors, vec![vec!["3".to_string()]]);
    assert_eq!(
        upstream::parse_embeddings(&obj(vec![]), EmbeddingFormat::OpenAI).unwrap_err(),
        "Invalid OpenAI embeddings response: missing data array"
    );
}

#[test]
fn embedding_bodies_by_format() {
    let input = vec!["a".to_string()];
    assert_json(&upstream::embedding_body("e", &input, EmbeddingFormat::OpenAI), r#"{"model":"e","input":["a"]}"#);
    assert_json(&upstream::embedding_body("e", &input, EmbeddingFormat::Nim), r#"{"input":["a"],"model":"e","input_type":"query","encoding_format":"float","truncate":"NONE"}"#);
    assert_json(&upstream::embedding_body("e", &input, EmbeddingFormat::AiStudio), r#"{"requests":[{"model":"models/e","content":{"parts":[{"text":"a"}]}}]}"#);
    let req = EmbeddingRequest { input: input.clone(), model: Some("models/e".to_string()) };
    assert_eq!(upstream::embedding_model(&req, EmbeddingFormat::AiStudio).unwrap(), "e");
    assert_eq!(upstream::embedding_model(&req, EmbeddingFormat::OpenAI).unwrap(), "models/e");
    let none = EmbeddingRequest { input, model: None };
    assert_eq!(
        upstream::embedding_model(&none, EmbeddingFormat::Nim).unwrap_err(),
        "No model configured. Run: nimbox embed <model-name>"
    );
    assert_eq!(upstream::embedding_model(&none, EmbeddingFormat::Ollama).unwrap_err(), "No embedding model specified");
}

#[test]
fn model_listings_are_read() {
    let openai = obj(vec![("data", arr(vec![obj(vec![("id", s("a"))]), obj(vec![])]))]);
    let ms = upstream::parse_models(&openai, ModelsFormat::OpenAI);
    assert_eq!(ms.len(), 1);
    assert!(ms[0].supports_chat && !ms[0].supports_embeddings);
    let ollama = obj(vec![("models", arr(vec![obj(vec![("name", s("gemma3"))])]))]);
    let ms = upstream::parse_models(&ollama, ModelsFormat::Ollama);
    assert_eq!(ms[0].id, "gemma3");
    assert!(ms[0].supports_embeddings);
    let gemini = obj(vec![(
        "models",
        arr(vec![
            obj(vec![("name", s("models/e")), ("supportedGenerationMethods", arr(vec![s("embedContent")]))]),
            obj(vec![("name", s("tuned/x"))]),
        ]),
    )]);
    let ms = upstream::parse_models(&gemini, ModelsFormat::AiStudio);
    assert_eq!(ms.len(), 1);
    assert_eq!(ms[0].id, "e");
    assert!(!ms[0].supports_chat && ms[0].supports_embeddings);
}

#[test]
fn configured_models_join_the_listing() {
    let available = vec![ModelInfo::unknown("a".to_string())];
    let ms = providers::merge_configured_models(available, Some("b".to_string()), Some("a".to_string()));
    assert_eq!(ms.len(), 2);
    assert!(ms[0].supports_embeddings && ms[0].supports_chat);
    assert_eq!(ms[1].id, "b");
    let ms = providers::merge_configured_models(vec![], None, Some("e".to_string()));
    assert!(!ms[0].supports_chat && ms[0].supports_embeddings);
    let json = nimbox::openai_api::models_to_json(&ms, "ollama");
    assert_json(&json, r#"{"object":"list","data":[{"id":"e","object":"model","owned_by":"ollama","capabilities":{"chat":false,"embeddings":true}}]}"#);
    let (code, _) = nimbox::gemini_api::model_lookup(&ms, "models/e");
    assert_eq!(code, 200);
    let (code, body) = nimbox::gemini_api::model_lookup(&ms, "zz");
    assert_eq!(code, 404);
    assert_json(&body, r#"{"error":{"code":404,"message":"model 'zz' not found","status":"NOT_FOUND"}}"#);
}

#[test]
fn ai_studio_body_maps_history() {
    let mut assistant = msg(Role::Assistant, "");
    assistant.tool_calls = vec![ToolCall { id: "c1".into(), name: "weather".into(), arguments: "{\"city\":\"Pune\"}".into() }];
    let mut tool = msg(Role::Tool, "sunny");
    tool.tool_call_id = Some("c1".into());
    let req = request(vec![msg(Role::System, "a"), msg(Role::System, "b"), assistant, tool]);
    let body = ai_studio::request_body(&req);
    assert_json(&body, r#"{"contents":[{"role":"model","parts":[{"functionCall":{"id":"c1","name":"weather","args":{"city":"Pune"}}}]},{"role":"user","parts":[{"functionResponse":{"name":"weather","response":{"result":"sunny"}}}]}],"systemInstruction":{"parts":[{"text":"a\n\nb"}]}}"#);
}

#[test]
fn ai_studio_answer_is_read() {
    let j = obj(vec![(
        "candidates",
        arr(vec![obj(vec![
            (
                "content",
                obj(vec![(
                    "parts",
                    arr(vec![
                        obj(vec![("text", s("a"))]),
                        obj(vec![("functionCall", obj(vec![("name", s("f")), ("args", obj(vec![]))]))]),
                    ]),
                )]),
            ),
            ("finishReason", s("STOP")),
        ])]),
    )]);
    let r = ai_studio::parse_response(&j).unwrap();
    assert_eq!(r.message.tool_calls[0].id, "call_1");
    assert!(r.finish_reason == FinishReason::ToolCalls);
    assert!(r.usage.is_none());
    let err = ai_studio::parse_response(&obj(vec![("promptFeedback", obj(vec![("blockReason", s("SAFETY"))]))])).unwrap_err();
    assert_eq!(err, r#"Gemini returned no candidates: {"blockReason":"SAFETY"}"#);
}

#[test]
fn ai_studio_stream_numbers_calls() {
    let mut st = AiStudioStream::new();
    let ev = st.step(r#"{"candidates":[{"content":{"parts":[{"text":"x"},{"functionCall":{"name":"f","args":{"a":1}}}]}}],"usageMetadata":{"totalTokenCount":9}}"#);
    assert_eq!(ev.len(), 5);
    assert_eq!(started(&ev[1]), Some(("call_0".to_string(), "f".to_string())));
    assert!(matches!(&ev[2], StreamEvent::ToolCallDelta { arguments_chunk, .. } if arguments_chunk == r#"{"a":1}"#));
    assert!(matches!(&ev[4], StreamEvent::Usage(u) if u.total_tokens == 9 && u.prompt_tokens == 0));
    let ev = st.step(r#"{"candidates":[{"content":{"parts":[{"functionCall":{"name":"g"}}]}}]}"#);
    assert_eq!(started(&ev[0]), Some(("call_1".to_string(), "g".to_string())));
    let ev = st.step("{");
    assert!(matches!(&ev[0], StreamEvent::Error { .. }));
}

#[test]
fn providers_are_named() {
    assert_eq!(providers::canonical_provider("gemini"), Some("ai-studio"));
    assert!(providers::provider_exists("google-ai-studio"));
    assert!(!providers::provider_exists("azure"));
    assert_eq!(providers::supported_providers(), vec!["ollama", "groq", "ai-studio", "nvidia-nim", "openrouter", "openai"]);
    let err = providers::get_provider("azure").err().unwrap();
    assert_eq!(err.message(), "unsupported provider 'azure'");
    assert!(matches!(providers::get_provider("nvidia-nim"), Ok(ProviderKind::Nim)));
    assert!(!ProviderKind::Ollama.requires_api_key());
    assert_eq!(
        ProviderKind::Groq.refuses_embeddings().as_deref(),
        Some("Groq does not provide a text embeddings endpoint")
    );
    assert!(ProviderKind::OpenAI.refuses_embeddings().is_none());
}

#[test]
fn keys_are_masked_and_removals_checked() {
    assert_eq!(mask_key("short"), "*****");
    assert_eq!(mask_key("sk-1234567890"), "*****890");
    assert!(matches!(removal(None, true), Ok(Removal::All)));
    assert!(matches!(removal(Some("a".into()), false), Ok(Removal::One(n)) if n == "a"));
    assert_eq!(removal(None, false).err().unwrap(), "provide --name or --all");
    assert_eq!(upstream::upstream_error("Groq", "429 Too Many Requests", "{}"), "Groq returned 429 Too Many Requests: {}");
}

#[test]
fn openai_body_ignores_thinking_budget() {
    let mut req = request(vec![msg(Role::User, "hi")]);
    let without = write_json(&upstream::openai_chat_request_body(&req, false).unwrap());
    req.thinking_budget_tokens = Some(512);
    let with = write_json(&upstream::openai_chat_request_body(&req, false).unwrap());
    assert_eq!(without, with);
    let nim = write_json(&upstream::nim_chat_request_body(&req, false).unwrap());
    assert!(!nim.contains("512"));
}

#[test]
fn gemini_reads_back_ai_studio_body() {
    let mut req = request(vec![msg(Role::User, "hi"), msg(Role::Assistant, "hello"), msg(Role::User, "again")]);
    req.tools = vec![Tool {
        name: "weather".into(),
        description: Some("forecast".into()),
        parameters: obj(vec![("type", s("object"))]),
    }];
    req.tool_choice = Some(ToolChoice::Tool("weather".into()));
    req.max_tokens = Some(256);
    req.temperature = Some("0.5".into());
    req.top_p = Some("0.9".into());
    req.reasoning_effort = Some(ReasoningEffort::Medium);
    let body = ai_studio::request_body(&req);
    let back = nimbox::gemini_api::to_internal_request("models/m", &body, true).unwrap();
    assert_eq!(back.model.as_deref(), Some("m"));
    assert!(back.stream);
    assert_eq!(back.messages.len(), 3);
    let roles: Vec<Role> = back.messages.iter().map(|m| m.role).collect();
    assert!(roles == vec![Role::User, Role::Assistant, Role::User]);
    let texts: Vec<String> = back.messages.iter().map(nimbox::chat::text_of).collect();
    assert_eq!(texts, vec!["hi", "hello", "again"]);
    assert_eq!(format!("{:?}", back.tools), format!("{:?}", req.tools));
    assert_eq!(format!("{:?}", back.tool_choice), format!("{:?}", req.tool_choice));
    assert_eq!(back.max_tokens, Some(256));
    assert_eq!(back.temperature.as_deref(), Some("0.5"));
    assert_eq!(back.top_p.as_deref(), Some("0.9"));
    assert!(back.reasoning_effort == Some(ReasoningEffort::Medium));
    assert_eq!(back.thinking_budget_tokens, None);
}
