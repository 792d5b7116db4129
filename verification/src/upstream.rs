use vstd::prelude::*;
use crate::chat::{
    ChatRequest, ChatRequestV, ChatResponse, ChatResponseV, ContentPart, EmbeddingRequest, EmbeddingRequestV,
    EmbeddingResponse, FinishReason, Message, MessageV, Role, Tool, ToolCall, ToolCallV, ToolChoice, ToolChoiceV,
    ToolV, Usage, message_text, opt_view, text_of, vectors_view, ReasoningEffort, effort_text,
};
use crate::json::{
    Json, JsonV, ArrayBuilder, ObjectBuilder, as_array, as_str, as_u64, copy, field, get, jarray, jfield, jget,
    jobj1, jobj2, jopt_str, jstr, jstr_of, jstring, jview, jviews, juint, juint_of, jcount, object1, object2, ojv,
    jopt, str_or, text_or, ju64, jnumber, as_number, parse_json, parsed_json,
};
use crate::openai_api::{call_json, call_to_json, calls_to_json, numbers_json, openai_call, openai_calls,
    parse_openai_calls, text_content};
use crate::providers::{ModelInfo, ModelInfoV, models_view};
use crate::text::str_eq;

verus! {

/// The OpenAI name of a role.
pub open spec fn role_text(r: Role) -> Seq<char> {
    match r {
        Role::System => "system"@,
        Role::User => "user"@,
        Role::Assistant => "assistant"@,
        Role::Tool => "tool"@,
    }
}

/// The OpenAI name of a role.
pub fn role_name(r: Role) -> (s: &'static str)
    ensures
        s@ == role_text(r),
{
    match r {
        Role::System => "system",
        Role::User => "user",
        Role::Assistant => "assistant",
        Role::Tool => "tool",
    }
}

/// A message as an OpenAI-compatible API takes it: role and joined text, the
/// tool calls when there are any, and the id of the call it answers, if any.
pub open spec fn openai_message_json(m: MessageV) -> JsonV {
    let base = Seq::empty()
        .push(("role"@, JsonV::Str(role_text(m.role))))
        .push(("content"@, JsonV::Str(message_text(m))));
    let with_calls = if m.tool_calls.len() > 0 {
        base.push(("tool_calls"@, JsonV::Array(m.tool_calls.map_values(|c: ToolCallV| call_json(c)))))
    } else {
        base
    };
    JsonV::Object(match m.tool_call_id {
        Some(id) => with_calls.push(("tool_call_id"@, JsonV::Str(id))),
        None => with_calls,
    })
}

/// A message as NVIDIA NIM takes it: role and joined text, for a tool message
/// the id of the call it answers (or `null`), then the tool calls when there
/// are any.
pub open spec fn nim_message_json(m: MessageV) -> JsonV {
    let base = Seq::empty()
        .push(("role"@, JsonV::Str(role_text(m.role))))
        .push(("content"@, JsonV::Str(message_text(m))));
    let with_id = if m.role == Role::Tool {
        base.push(("tool_call_id"@, jopt_str(m.tool_call_id)))
    } else {
        base
    };
    JsonV::Object(if m.tool_calls.len() > 0 {
        with_id.push(("tool_calls"@, JsonV::Array(m.tool_calls.map_values(|c: ToolCallV| call_json(c)))))
    } else {
        with_id
    })
}

/// A message as an OpenAI-compatible API takes it; `nim` selects NVIDIA NIM's form.
pub fn message_json(m: &Message, nim: bool) -> (r: Json)
    ensures
        jview(r) == if nim { nim_message_json(m@) } else { openai_message_json(m@) },
{
    let mut b = ObjectBuilder::new()
        .with("role", jstr_of(role_name(m.role)))
        .with("content", jstring(text_of(m)));
    if nim {
        if m.role == Role::Tool {
            let id = match &m.tool_call_id {
                Some(i) => Some(i.clone()),
                None => None,
            };
            b = b.with("tool_call_id", jopt(id));
        }
        if m.tool_calls.len() > 0 {
            b = b.with("tool_calls", calls_to_json(&m.tool_calls));
        }
    } else {
        if m.tool_calls.len() > 0 {
            b = b.with("tool_calls", calls_to_json(&m.tool_calls));
        }
        match &m.tool_call_id {
            Some(i) => {
                b = b.with("tool_call_id", jstring(i.clone()));
            },
            None => {},
        }
    }
    b.build()
}

/// The messages of a request as an OpenAI-compatible API takes them;
/// `nim` selects NVIDIA NIM's form.
pub open spec fn messages_json_of(ms: Seq<MessageV>, nim: bool) -> Seq<JsonV> {
    if nim {
        ms.map_values(|m: MessageV| nim_message_json(m))
    } else {
        ms.map_values(|m: MessageV| openai_message_json(m))
    }
}

/// The messages of a request as an OpenAI-compatible API takes them.
pub fn messages_json(ms: &Vec<Message>, nim: bool) -> (r: Json)
    ensures
        jview(r) == JsonV::Array(messages_json_of(ms@.map_values(|m: Message| m@), nim)),
{
    let ghost vals = ms@.map_values(|m: Message| m@);
    let mut b = ArrayBuilder::new();
    let mut i: usize = 0;
    while i < ms.len()
        invariant
            i <= ms@.len(),
            vals == ms@.map_values(|m: Message| m@),
            b.spec_items() == messages_json_of(vals.take(i as int), nim),
        decreases ms@.len() - i,
    {
        b.push(message_json(&ms[i], nim));
        assert(messages_json_of(vals.take(i + 1), nim)
            =~= messages_json_of(vals.take(i as int), nim).push(if nim { nim_message_json(vals[i as int]) } else { openai_message_json(vals[i as int]) }));
        i = i + 1;
    }
    assert(vals.take(ms@.len() as int) =~= vals);
    b.build()
}

/// A tool as an OpenAI-compatible API takes it.
pub open spec fn tool_json(t: ToolV) -> JsonV {
    jobj2("type"@, JsonV::Str("function"@), "function"@, JsonV::Object(Seq::empty()
        .push(("name"@, JsonV::Str(t.name)))
        .push(("description"@, jopt_str(t.description)))
        .push(("parameters"@, t.parameters))))
}

/// The tools of a request as an OpenAI-compatible API takes them.
pub fn tools_json(ts: &Vec<Tool>) -> (r: Json)
    ensures
        jview(r) == JsonV::Array(ts@.map_values(|t: Tool| t@).map_values(|t: ToolV| tool_json(t))),
{
    let ghost vals = ts@.map_values(|t: Tool| t@);
    let mut b = ArrayBuilder::new();
    let mut i: usize = 0;
    while i < ts.len()
        invariant
            i <= ts@.len(),
            vals == ts@.map_values(|t: Tool| t@),
            b.spec_items() == vals.take(i as int).map_values(|t: ToolV| tool_json(t)),
        decreases ts@.len() - i,
    {
        let t = &ts[i];
        let description = match &t.description {
            Some(d) => Some(d.clone()),
            None => None,
        };
        let function = ObjectBuilder::new()
            .with("name", jstring(t.name.clone()))
            .with("description", jopt(description))
            .with("parameters", copy(&t.parameters))
            .build();
        b.push(object2("type", jstr_of("function"), "function", function));
        assert(vals.take(i + 1).map_values(|t: ToolV| tool_json(t))
            =~= vals.take(i as int).map_values(|t: ToolV| tool_json(t)).push(tool_json(vals[i as int])));
        i = i + 1;
    }
    assert(vals.take(ts@.len() as int) =~= vals);
    b.build()
}

/// A tool choice as an OpenAI-compatible API takes it.
pub open spec fn tool_choice_json(c: ToolChoiceV) -> JsonV {
    match c {
        ToolChoiceV::Auto => JsonV::Str("auto"@),
        ToolChoiceV::Disabled => JsonV::Str("none"@),
        ToolChoiceV::Required => JsonV::Str("required"@),
        ToolChoiceV::Tool(name) => jobj2("type"@, JsonV::Str("function"@), "function"@, jobj1("name"@, JsonV::Str(name))),
    }
}

/// A tool choice as an OpenAI-compatible API takes it.
pub fn tool_choice_to_json(c: &ToolChoice) -> (r: Json)
    ensures
        jview(r) == tool_choice_json(c@),
{
    match c {
        ToolChoice::Auto => jstr_of("auto"),
        ToolChoice::Disabled => jstr_of("none"),
        ToolChoice::Required => jstr_of("required"),
        ToolChoice::Tool(name) => object2("type", jstr_of("function"), "function", object1("name", jstring(name.clone()))),
    }
}

/// A number given by its text, or `default` when there is none.
pub open spec fn number_or(n: Option<Seq<char>>, default: Seq<char>) -> JsonV {
    match n {
        Some(t) => JsonV::Number(t),
        None => JsonV::Number(default),
    }
}

fn number_or_default(n: &Option<String>, default: &str) -> (r: Json)
    ensures
        jview(r) == number_or(opt_view(*n), default@),
{
    match n {
        Some(t) => Json::Number(t.clone()),
        None => Json::Number(String::from_str(default)),
    }
}

/// The members that follow the messages and sampling settings in both bodies:
/// the tools when there are any, then the tool choice if one is set.
pub open spec fn with_tools(m: Seq<(Seq<char>, JsonV)>, r: ChatRequestV) -> Seq<(Seq<char>, JsonV)> {
    let with_tools = if r.tools.len() > 0 {
        m.push(("tools"@, JsonV::Array(r.tools.map_values(|t: ToolV| tool_json(t)))))
    } else {
        m
    };
    match r.tool_choice {
        Some(c) => with_tools.push(("tool_choice"@, tool_choice_json(c))),
        None => with_tools,
    }
}

/// The body of an OpenAI-compatible chat completions call: model, messages,
/// temperature and top-p (1.0 unless set), the stream flag, then the token
/// limit, tools, tool choice and reasoning effort that are set. No model is
/// an error.
pub open spec fn openai_chat_body(r: ChatRequestV, stream: bool) -> Result<JsonV, Seq<char>> {
    match r.model {
        None => Err("No model specified"@),
        Some(model) => {
            let base = Seq::empty()
                .push(("model"@, JsonV::Str(model)))
                .push(("messages"@, JsonV::Array(messages_json_of(r.messages, false))))
                .push(("temperature"@, number_or(r.temperature, "1.0"@)))
                .push(("top_p"@, number_or(r.top_p, "1.0"@)))
                .push(("stream"@, JsonV::Bool(stream)));
            let with_max = match r.max_tokens {
                Some(n) => base.push(("max_completion_tokens"@, juint(n as nat))),
                None => base,
            };
            let with_choice = with_tools(with_max, r);
            Ok(JsonV::Object(match r.reasoning_effort {
                Some(e) => with_choice.push(("reasoning_effort"@, JsonV::Str(effort_text(e)))),
                None => with_choice,
            }))
        },
    }
}

/// The body of an NVIDIA NIM chat completions call: model, messages, the
/// token limit (131072 unless set), temperature and top-p (1.0 unless set),
/// the stream flag, a reasoning budget of 32768 with thinking on, then the
/// tools and tool choice that are set. No model is an error.
pub open spec fn nim_chat_body(r: ChatRequestV, stream: bool) -> Result<JsonV, Seq<char>> {
    match r.model {
        None => Err("No model configured. Run: nimbox model <model-name>"@),
        Some(model) => {
            let base = Seq::empty()
                .push(("model"@, JsonV::Str(model)))
                .push(("messages"@, JsonV::Array(messages_json_of(r.messages, true))))
                .push(("max_tokens"@, juint(match r.max_tokens { Some(n) => n as nat, None => 131072 })))
                .push(("temperature"@, number_or(r.temperature, "1.0"@)))
                .push(("top_p"@, number_or(r.top_p, "1.0"@)))
                .push(("stream"@, JsonV::Bool(stream)))
                .push(("reasoning_budget"@, juint(32768)))
                .push(("chat_template_kwargs"@, jobj1("enable_thinking"@, JsonV::Bool(true))));
            Ok(JsonV::Object(with_tools(base, r)))
        },
    }
}

/// OpenAI-compatible APIs take no Anthropic-style thinking budget: the body of
/// a call does not depend on it.
pub proof fn law_openai_body_ignores_thinking_budget(r: ChatRequestV, budget: Option<u32>, stream: bool)
    ensures
        openai_chat_body(ChatRequestV { thinking_budget_tokens: budget, ..r }, stream) == openai_chat_body(r, stream),
{
}

fn add_tools(b: ObjectBuilder, req: &ChatRequest) -> (r: ObjectBuilder)
    ensures
        r.spec_members() == with_tools(b.spec_members(), req@),
{
    let mut b = b;
    if req.tools.len() > 0 {
        b = b.with("tools", tools_json(&req.tools));
    }
    match &req.tool_choice {
        Some(c) => {
            b = b.with("tool_choice", tool_choice_to_json(c));
        },
        None => {},
    }
    b
}

/// The body of an OpenAI-compatible chat completions call.
pub fn openai_chat_request_body(req: &ChatRequest, stream: bool) -> (r: Result<Json, String>)
    ensures
        match r {
            Ok(j) => openai_chat_body(req@, stream) == Ok::<JsonV, Seq<char>>(jview(j)),
            Err(e) => openai_chat_body(req@, stream) == Err::<JsonV, Seq<char>>(e@),
        },
{
    let model = match &req.model {
        Some(m) => m.clone(),
        None => return Err(String::from_str("No model specified")),
    };
    let mut b = ObjectBuilder::new()
        .with("model", jstring(model))
        .with("messages", messages_json(&req.messages, false))
        .with("temperature", number_or_default(&req.temperature, "1.0"))
        .with("top_p", number_or_default(&req.top_p, "1.0"))
        .with("stream", Json::Bool(stream));
    match req.max_tokens {
        Some(n) => {
            b = b.with("max_completion_tokens", jcount(n));
        },
        None => {},
    }
    b = add_tools(b, req);
    match &req.reasoning_effort {
        Some(e) => {
            b = b.with("reasoning_effort", jstr_of(e.as_str()));
        },
        None => {},
    }
    Ok(b.build())
}

/// The body of an NVIDIA NIM chat completions call.
pub fn nim_chat_request_body(req: &ChatRequest, stream: bool) -> (r: Result<Json, String>)
    ensures
        match r {
            Ok(j) => nim_chat_body(req@, stream) == Ok::<JsonV, Seq<char>>(jview(j)),
            Err(e) => nim_chat_body(req@, stream) == Err::<JsonV, Seq<char>>(e@),
        },
{
    let model = match &req.model {
        Some(m) => m.clone(),
        None => return Err(String::from_str("No model configured. Run: nimbox model <model-name>")),
    };
    let max = match req.max_tokens {
        Some(n) => n,
        None => 131072,
    };
    let b = ObjectBuilder::new()
        .with("model", jstring(model))
        .with("messages", messages_json(&req.messages, true))
        .with("max_tokens", jcount(max))
        .with("temperature", number_or_default(&req.temperature, "1.0"))
        .with("top_p", number_or_default(&req.top_p, "1.0"))
        .with("stream", Json::Bool(stream))
        .with("reasoning_budget", juint_of(32768))
        .with("chat_template_kwargs", object1("enable_thinking", Json::Bool(true)));
    Ok(add_tools(b, req).build())
}

} // verus!

verus! {

/// A count member, 0 when it is not a 64-bit count, cut down to 32 bits.
pub open spec fn count_of(u: JsonV, k: Seq<char>) -> u32 {
    (match ju64(jfield(u, k)) {
        Some(n) => n,
        None => 0,
    }) as u32
}

/// The token counts of a response whose `usage` member is present.
pub open spec fn usage_of(j: JsonV) -> Option<Usage> {
    match jget(j, "usage"@) {
        Some(u) => Some(Usage {
            prompt_tokens: count_of(u, "prompt_tokens"@),
            completion_tokens: count_of(u, "completion_tokens"@),
            total_tokens: count_of(u, "total_tokens"@),
        }),
        None => None,
    }
}

/// The finish reason that an OpenAI-compatible API names, `stop` when unnamed.
pub open spec fn openai_finish(s: Option<Seq<char>>) -> FinishReason {
    let t = str_or(s, "stop"@);
    if t == "tool_calls"@ {
        FinishReason::ToolCalls
    } else if t == "length"@ {
        FinishReason::Length
    } else if t == "content_filter"@ {
        FinishReason::ContentFilter
    } else {
        FinishReason::Stop
    }
}

/// The finish reason that NVIDIA NIM names; anything else is unknown.
pub open spec fn nim_finish(s: Option<Seq<char>>) -> FinishReason {
    let t = str_or(s, ""@);
    if t == "stop"@ {
        FinishReason::Stop
    } else if t == "length"@ {
        FinishReason::Length
    } else if t == "tool_calls"@ {
        FinishReason::ToolCalls
    } else if t == "content_filter"@ {
        FinishReason::ContentFilter
    } else {
        FinishReason::Unknown
    }
}

/// A chat completion of an OpenAI-compatible API (`nim` for NVIDIA NIM's
/// reading of the finish reason): the first choice's text and tool calls.
pub open spec fn chat_response_of(j: JsonV, nim: bool) -> ChatResponseV {
    let choice = crate::json::jat(jfield(j, "choices"@), 0);
    let msg = jfield(choice, "message"@);
    let reason = jstr(jfield(choice, "finish_reason"@));
    ChatResponseV {
        message: MessageV {
            role: Role::Assistant,
            content: seq![crate::openai_api::text_field(msg, "content"@)],
            tool_calls: openai_calls(jfield(msg, "tool_calls"@)),
            tool_call_id: None,
        },
        finish_reason: if nim { nim_finish(reason) } else { openai_finish(reason) },
        usage: usage_of(j),
    }
}

fn count_member(u: Option<&Json>, k: &str) -> (r: u32)
    ensures
        r == count_of(ojv(u), k@),
{
    match as_u64(field(u, k)) {
        Some(n) => n as u32,
        None => 0,
    }
}

/// The token counts of a response.
pub fn parse_usage(j: &Json) -> (r: Option<Usage>)
    ensures
        r == usage_of(jview(*j)),
{
    match get(Some(j), "usage") {
        Some(u) => Some(Usage {
            prompt_tokens: count_member(Some(u), "prompt_tokens"),
            completion_tokens: count_member(Some(u), "completion_tokens"),
            total_tokens: count_member(Some(u), "total_tokens"),
        }),
        None => None,
    }
}

/// A chat completion of an OpenAI-compatible API; `nim` for NVIDIA NIM.
pub fn parse_chat_response(j: &Json, nim: bool) -> (r: ChatResponse)
    ensures
        r@ == chat_response_of(jview(*j), nim),
{
    let choice = crate::json::at(field(Some(j), "choices"), 0);
    let msg = field(choice, "message");
    let reason = text_or(field(choice, "finish_reason"), if nim { "" } else { "stop" });
    let r = reason.as_str();
    let finish = if nim {
        if str_eq(r, "stop") {
            FinishReason::Stop
        } else if str_eq(r, "length") {
            FinishReason::Length
        } else if str_eq(r, "tool_calls") {
            FinishReason::ToolCalls
        } else if str_eq(r, "content_filter") {
            FinishReason::ContentFilter
        } else {
            FinishReason::Unknown
        }
    } else {
        if str_eq(r, "tool_calls") {
            FinishReason::ToolCalls
        } else if str_eq(r, "length") {
            FinishReason::Length
        } else if str_eq(r, "content_filter") {
            FinishReason::ContentFilter
        } else {
            FinishReason::Stop
        }
    };
    let message = Message {
        role: Role::Assistant,
        content: text_content(text_or(field(msg, "content"), "")),
        tool_calls: parse_openai_calls(field(msg, "tool_calls")),
        tool_call_id: None,
    };
    let resp = ChatResponse { message, finish_reason: finish, usage: parse_usage(j) };
    assert(resp@ =~= chat_response_of(jview(*j), nim));
    resp
}

/// The message of an upstream failure: who answered, the status line, and
/// the body of the answer.
pub open spec fn upstream_error_text(label: Seq<char>, status: Seq<char>, body: Seq<char>) -> Seq<char> {
    label + " returned "@ + status + ": "@ + body
}

/// The message of an upstream failure.
pub fn upstream_error(label: &str, status: &str, body: &str) -> (r: String)
    ensures
        r@ == upstream_error_text(label@, status@, body@),
{
    let mut s = String::from_str(label);
    s.append(" returned ");
    s.append(status);
    s.append(": ");
    s.append(body);
    s
}

} // verus!

verus! {

/// The embedding APIs that the providers offer.
#[derive(PartialEq, Eq, Structural, Debug, Clone, Copy)]
pub enum EmbeddingFormat {
    OpenAI,
    Nim,
    Ollama,
    AiStudio,
}

/// The member of an embeddings answer that lists the embeddings.
pub open spec fn list_key(f: EmbeddingFormat) -> Seq<char> {
    match f {
        EmbeddingFormat::OpenAI | EmbeddingFormat::Nim => "data"@,
        EmbeddingFormat::Ollama | EmbeddingFormat::AiStudio => "embeddings"@,
    }
}

/// The member of one embedding that holds its numbers; Ollama lists the
/// numbers themselves.
pub open spec fn vector_key(f: EmbeddingFormat) -> Option<Seq<char>> {
    match f {
        EmbeddingFormat::OpenAI | EmbeddingFormat::Nim => Some("embedding"@),
        EmbeddingFormat::Ollama => None,
        EmbeddingFormat::AiStudio => Some("values"@),
    }
}

/// The error when the list of embeddings is missing.
pub open spec fn missing_list_text(f: EmbeddingFormat) -> Seq<char> {
    match f {
        EmbeddingFormat::OpenAI => "Invalid OpenAI embeddings response: missing data array"@,
        EmbeddingFormat::Nim => "Missing data array"@,
        EmbeddingFormat::Ollama => "Invalid Ollama embedding response: missing embeddings"@,
        EmbeddingFormat::AiStudio => "Invalid Gemini embeddings response"@,
    }
}

/// The error when an embedding has no numbers.
pub open spec fn missing_vector_text(f: EmbeddingFormat) -> Seq<char> {
    match f {
        EmbeddingFormat::OpenAI => "Invalid OpenAI embeddings response: missing embedding"@,
        EmbeddingFormat::Nim => "Missing embedding array"@,
        EmbeddingFormat::Ollama => "Invalid Ollama embedding vector"@,
        EmbeddingFormat::AiStudio => "Gemini embedding is missing values"@,
    }
}

/// The error when an embedding holds something other than a number; OpenAI's
/// answers are read with 0.0 in such a place instead.
pub open spec fn non_number_text(f: EmbeddingFormat) -> Seq<char> {
    match f {
        EmbeddingFormat::OpenAI => ""@,
        EmbeddingFormat::Nim => "Embedding contains non-float value"@,
        EmbeddingFormat::Ollama => "Ollama embedding contains a non-number"@,
        EmbeddingFormat::AiStudio => "Gemini embedding contains a non-number"@,
    }
}

/// The numbers of one embedding.
pub open spec fn vector_of(item: JsonV, f: EmbeddingFormat) -> Option<Seq<JsonV>> {
    match vector_key(f) {
        Some(k) => jarray(jfield(item, k)),
        None => jarray(item),
    }
}

/// The texts of a list of numbers; `None` when one is not a number, unless
/// the format reads such a value as 0.0.
pub open spec fn number_texts(vs: Seq<JsonV>, f: EmbeddingFormat) -> Option<Seq<Seq<char>>> {
    if f == EmbeddingFormat::OpenAI {
        Some(vs.map_values(|v: JsonV| str_or(jnumber(v), "0.0"@)))
    } else if forall|i: int| 0 <= i < vs.len() ==> (#[trigger] jnumber(vs[i])) is Some {
        Some(vs.map_values(|v: JsonV| jnumber(v)->0))
    } else {
        None
    }
}

/// The vectors of the first `n` embeddings, or the error of the first that fails.
pub open spec fn vectors_upto(items: Seq<JsonV>, f: EmbeddingFormat, n: nat) -> Result<Seq<Seq<Seq<char>>>, Seq<char>>
    decreases n,
{
    if n == 0 || n > items.len() {
        Ok(Seq::empty())
    } else {
        match vectors_upto(items, f, (n - 1) as nat) {
            Err(e) => Err(e),
            Ok(vs) => match vector_of(items[n - 1], f) {
                None => Err(missing_vector_text(f)),
                Some(v) => match number_texts(v, f) {
                    Some(t) => Ok(vs.push(t)),
                    None => Err(non_number_text(f)),
                },
            },
        }
    }
}

/// The embedding vectors of an answer in the given format.
pub open spec fn embeddings_of(j: JsonV, f: EmbeddingFormat) -> Result<Seq<Seq<Seq<char>>>, Seq<char>> {
    match jarray(jfield(j, list_key(f))) {
        None => Err(missing_list_text(f)),
        Some(items) => vectors_upto(items, f, items.len()),
    }
}

fn read_numbers(vs: &Vec<Json>, f: EmbeddingFormat) -> (r: Option<Vec<String>>)
    ensures
        match r {
            Some(t) => number_texts(jviews(vs@), f) == Some(t@.map_values(|x: String| x@)),
            None => number_texts(jviews(vs@), f) is None,
        },
{
    let ghost items = jviews(vs@);
    let mut out: Vec<String> = Vec::new();
    let mut i: usize = 0;
    while i < vs.len()
        invariant
            i <= vs@.len(),
            items == jviews(vs@),
            items.len() == vs@.len(),
            out@.len() == i,
            f == EmbeddingFormat::OpenAI ==> forall|k: int| 0 <= k < i ==>
                (#[trigger] out@[k])@ == str_or(jnumber(items[k]), "0.0"@),
            f != EmbeddingFormat::OpenAI ==> forall|k: int| 0 <= k < i ==>
                (#[trigger] jnumber(items[k])) == Some(out@[k]@),
        decreases vs@.len() - i,
    {
        match crate::json::as_number(Some(&vs[i])) {
            Some(n) => out.push(n.clone()),
            None => {
                if f == EmbeddingFormat::OpenAI {
                    out.push(String::from_str("0.0"));
                } else {
                    assert(jnumber(items[i as int]) is None);
                    return None;
                }
            },
        }
        i = i + 1;
    }
    if f == EmbeddingFormat::OpenAI {
        assert(out@.map_values(|x: String| x@) =~= items.map_values(|v: JsonV| str_or(jnumber(v), "0.0"@)));
    } else {
        assert(out@.map_values(|x: String| x@) =~= items.map_values(|v: JsonV| jnumber(v)->0));
    }
    Some(out)
}

/// The embedding vectors of an answer in the given format.
pub fn parse_embeddings(j: &Json, f: EmbeddingFormat) -> (r: Result<EmbeddingResponse, String>)
    ensures
        match r {
            Ok(resp) => embeddings_of(jview(*j), f) == Ok::<Seq<Seq<Seq<char>>>, Seq<char>>(vectors_view(resp)),
            Err(e) => embeddings_of(jview(*j), f) == Err::<Seq<Seq<Seq<char>>>, Seq<char>>(e@),
        },
{
    let (list, vkey, missing_list, missing_vector, non_number) = match f {
        EmbeddingFormat::OpenAI => ("data", Some("embedding"), "Invalid OpenAI embeddings response: missing data array",
            "Invalid OpenAI embeddings response: missing embedding", ""),
        EmbeddingFormat::Nim => ("data", Some("embedding"), "Missing data array", "Missing embedding array",
            "Embedding contains non-float value"),
        EmbeddingFormat::Ollama => ("embeddings", None, "Invalid Ollama embedding response: missing embeddings",
            "Invalid Ollama embedding vector", "Ollama embedding contains a non-number"),
        EmbeddingFormat::AiStudio => ("embeddings", Some("values"), "Invalid Gemini embeddings response",
            "Gemini embedding is missing values", "Gemini embedding contains a non-number"),
    };
    let items = match as_array(field(Some(j), list)) {
        Some(a) => a,
        None => return Err(String::from_str(missing_list)),
    };
    let ghost iv = jviews(items@);
    let mut vectors: Vec<Vec<String>> = Vec::new();
    assert(vectors@.map_values(|v: Vec<String>| v@.map_values(|x: String| x@)) =~= Seq::<Seq<Seq<char>>>::empty());
    let mut i: usize = 0;
    while i < items.len()
        invariant
            i <= items@.len(),
            iv == jviews(items@),
            iv.len() == items@.len(),
            jarray(jfield(jview(*j), list_key(f))) == Some(iv),
            missing_vector@ == missing_vector_text(f),
            non_number@ == non_number_text(f),
            match vkey { Some(k) => vector_key(f) == Some(k@), None => vector_key(f) is None },
            vectors_upto(iv, f, i as nat) == Ok::<Seq<Seq<Seq<char>>>, Seq<char>>(
                vectors@.map_values(|v: Vec<String>| v@.map_values(|x: String| x@))),
        decreases items@.len() - i,
    {
        let vec = match vkey {
            Some(k) => as_array(field(Some(&items[i]), k)),
            None => as_array(Some(&items[i])),
        };
        match vec {
            None => {
                proof { lemma_vectors_stay_failed(iv, f, (i + 1) as nat, iv.len()); }
                return Err(String::from_str(missing_vector));
            },
            Some(v) => match read_numbers(v, f) {
                Some(t) => {
                    let ghost before = vectors@;
                    vectors.push(t);
                    assert(vectors@.map_values(|v: Vec<String>| v@.map_values(|x: String| x@))
                        =~= before.map_values(|v: Vec<String>| v@.map_values(|x: String| x@)).push(t@.map_values(|x: String| x@)));
                },
                None => {
                    proof { lemma_vectors_stay_failed(iv, f, (i + 1) as nat, iv.len()); }
                    return Err(String::from_str(non_number));
                },
            },
        }
        i = i + 1;
    }
    let resp = EmbeddingResponse { vectors };
    Ok(resp)
}

/// Once an embedding fails, the error stays the first one's.
proof fn lemma_vectors_stay_failed(items: Seq<JsonV>, f: EmbeddingFormat, m: nat, n: nat)
    requires
        m <= n <= items.len(),
        vectors_upto(items, f, m) is Err,
    ensures
        vectors_upto(items, f, n) == vectors_upto(items, f, m),
    decreases n - m,
{
    if m < n {
        lemma_vectors_stay_failed(items, f, m, (n - 1) as nat);
    }
}

} // verus!

verus! {

/// The model that an embedding call goes to (for AI Studio without a leading
/// `models/`), or the error when none is set.
pub open spec fn embedding_model_of(r: EmbeddingRequestV, f: EmbeddingFormat) -> Result<Seq<char>, Seq<char>> {
    match r.model {
        Some(m) => Ok(if f == EmbeddingFormat::AiStudio { crate::gemini_api::normalized_model(m) } else { m }),
        None => Err(if f == EmbeddingFormat::Nim {
            "No model configured. Run: nimbox embed <model-name>"@
        } else {
            "No embedding model specified"@
        }),
    }
}

/// The model that an embedding call goes to.
pub fn embedding_model(req: &EmbeddingRequest, f: EmbeddingFormat) -> (r: Result<String, String>)
    ensures
        match r {
            Ok(m) => embedding_model_of(req@, f) == Ok::<Seq<char>, Seq<char>>(m@),
            Err(e) => embedding_model_of(req@, f) == Err::<Seq<char>, Seq<char>>(e@),
        },
{
    match &req.model {
        Some(m) => if f == EmbeddingFormat::AiStudio {
            Ok(crate::gemini_api::normalize_model(m.as_str()))
        } else {
            Ok(m.clone())
        },
        None => if f == EmbeddingFormat::Nim {
            Err(String::from_str("No model configured. Run: nimbox embed <model-name>"))
        } else {
            Err(String::from_str("No embedding model specified"))
        },
    }
}

/// A list of strings.
pub open spec fn strings_json(v: Seq<Seq<char>>) -> JsonV {
    JsonV::Array(v.map_values(|t: Seq<char>| JsonV::Str(t)))
}

/// One AI Studio embedding request for a text.
pub open spec fn ai_studio_embed_item(model: Seq<char>, t: Seq<char>) -> JsonV {
    jobj2("model"@, JsonV::Str("models/"@ + model), "content"@,
        jobj1("parts"@, crate::json::jarr1(jobj1("text"@, JsonV::Str(t)))))
}

/// The body of an embedding call for `model` and the input texts.
pub open spec fn embedding_body_json(model: Seq<char>, input: Seq<Seq<char>>, f: EmbeddingFormat) -> JsonV {
    match f {
        EmbeddingFormat::OpenAI | EmbeddingFormat::Ollama =>
            jobj2("model"@, JsonV::Str(model), "input"@, strings_json(input)),
        EmbeddingFormat::Nim => JsonV::Object(Seq::empty()
            .push(("input"@, strings_json(input)))
            .push(("model"@, JsonV::Str(model)))
            .push(("input_type"@, JsonV::Str("query"@)))
            .push(("encoding_format"@, JsonV::Str("float"@)))
            .push(("truncate"@, JsonV::Str("NONE"@)))),
        EmbeddingFormat::AiStudio =>
            jobj1("requests"@, JsonV::Array(input.map_values(|t: Seq<char>| ai_studio_embed_item(model, t)))),
    }
}

fn strings_to_json(v: &Vec<String>) -> (r: Json)
    ensures
        jview(r) == strings_json(v@.map_values(|s: String| s@)),
{
    let ghost vals = v@.map_values(|s: String| s@);
    let mut b = ArrayBuilder::new();
    let mut i: usize = 0;
    while i < v.len()
        invariant
            i <= v@.len(),
            vals == v@.map_values(|s: String| s@),
            b.spec_items() == vals.take(i as int).map_values(|t: Seq<char>| JsonV::Str(t)),
        decreases v@.len() - i,
    {
        b.push(jstring(v[i].clone()));
        assert(vals.take(i + 1).map_values(|t: Seq<char>| JsonV::Str(t))
            =~= vals.take(i as int).map_values(|t: Seq<char>| JsonV::Str(t)).push(JsonV::Str(vals[i as int])));
        i = i + 1;
    }
    assert(vals.take(v@.len() as int) =~= vals);
    b.build()
}

/// The body of an embedding call for `model` and the input texts.
pub fn embedding_body(model: &str, input: &Vec<String>, f: EmbeddingFormat) -> (r: Json)
    ensures
        jview(r) == embedding_body_json(model@, input@.map_values(|s: String| s@), f),
{
    match f {
        EmbeddingFormat::OpenAI | EmbeddingFormat::Ollama =>
            object2("model", jstr_of(model), "input", strings_to_json(input)),
        EmbeddingFormat::Nim => ObjectBuilder::new()
            .with("input", strings_to_json(input))
            .with("model", jstr_of(model))
            .with("input_type", jstr_of("query"))
            .with("encoding_format", jstr_of("float"))
            .with("truncate", jstr_of("NONE"))
            .build(),
        EmbeddingFormat::AiStudio => {
            let ghost vals = input@.map_values(|s: String| s@);
            let mut path = String::from_str("models/");
            path.append(model);
            let mut b = ArrayBuilder::new();
            let mut i: usize = 0;
            while i < input.len()
                invariant
                    i <= input@.len(),
                    vals == input@.map_values(|s: String| s@),
                    path@ == "models/"@ + model@,
                    b.spec_items() == vals.take(i as int).map_values(|t: Seq<char>| ai_studio_embed_item(model@, t)),
                decreases input@.len() - i,
            {
                let content = object1("parts", crate::json::single(object1("text", jstring(input[i].clone()))));
                b.push(object2("model", jstring(path.clone()), "content", content));
                assert(vals.take(i + 1).map_values(|t: Seq<char>| ai_studio_embed_item(model@, t))
                    =~= vals.take(i as int).map_values(|t: Seq<char>| ai_studio_embed_item(model@, t))
                        .push(ai_studio_embed_item(model@, vals[i as int])));
                i = i + 1;
            }
            assert(vals.take(input@.len() as int) =~= vals);
            object1("requests", b.build())
        },
    }
}

/// The model listing formats of the providers.
#[derive(PartialEq, Eq, Structural, Debug, Clone, Copy)]
pub enum ModelsFormat {
    OpenAI,
    Ollama,
    AiStudio,
}

/// Whether a list holds the string `s`.
pub open spec fn lists_text(items: Option<Seq<JsonV>>, s: Seq<char>) -> bool {
    match items {
        Some(a) => exists|i: int| 0 <= i < a.len() && a[i] == JsonV::Str(s),
        None => false,
    }
}

/// The model that one entry of a listing describes, if it names one.
pub open spec fn listed_model(item: JsonV, f: ModelsFormat) -> Option<ModelInfoV> {
    match f {
        ModelsFormat::OpenAI => match jstr(jfield(item, "id"@)) {
            Some(id) => Some(ModelInfoV { id, supports_chat: true, supports_embeddings: false }),
            None => None,
        },
        ModelsFormat::Ollama => {
            let id = match jstr(jfield(item, "model"@)) {
                Some(m) => Some(m),
                None => jstr(jfield(item, "name"@)),
            };
            match id {
                Some(id) => Some(ModelInfoV { id, supports_chat: true, supports_embeddings: true }),
                None => None,
            }
        },
        ModelsFormat::AiStudio => match jstr(jfield(item, "name"@)) {
            Some(n) => match crate::text::without_prefix(n, "models/"@) {
                Some(id) => {
                    let methods = jarray(jfield(item, "supportedGenerationMethods"@));
                    Some(ModelInfoV {
                        id,
                        supports_chat: lists_text(methods, "generateContent"@),
                        supports_embeddings: lists_text(methods, "embedContent"@),
                    })
                },
                None => None,
            },
            None => None,
        },
    }
}

/// The models that the first `n` entries describe, in order.
pub open spec fn models_upto(items: Seq<JsonV>, f: ModelsFormat, n: nat) -> Seq<ModelInfoV>
    decreases n,
{
    if n == 0 || n > items.len() {
        Seq::empty()
    } else {
        let before = models_upto(items, f, (n - 1) as nat);
        match listed_model(items[n - 1], f) {
            Some(m) => before.push(m),
            None => before,
        }
    }
}

/// The member of a listing answer that lists the models.
pub open spec fn models_key(f: ModelsFormat) -> Seq<char> {
    match f {
        ModelsFormat::OpenAI => "data"@,
        ModelsFormat::Ollama | ModelsFormat::AiStudio => "models"@,
    }
}

/// The models of a listing answer; none when it holds no list.
pub open spec fn models_of(j: JsonV, f: ModelsFormat) -> Seq<ModelInfoV> {
    match jarray(jfield(j, models_key(f))) {
        Some(items) => models_upto(items, f, items.len()),
        None => Seq::empty(),
    }
}

fn lists(items: Option<&Vec<Json>>, s: &str) -> (r: bool)
    ensures
        r == lists_text(match items { Some(a) => Some(jviews(a@)), None => None }, s@),
{
    match items {
        Some(a) => {
            let ghost av = jviews(a@);
            let mut i: usize = 0;
            while i < a.len()
                invariant
                    i <= a@.len(),
                    av == jviews(a@),
                    av.len() == a@.len(),
                    items == Some(a),
                    forall|k: int| 0 <= k < i ==> av[k] != JsonV::Str(s@),
                decreases a@.len() - i,
            {
                match &a[i] {
                    Json::Str(t) => {
                        if str_eq(t.as_str(), s) {
                            assert(av[i as int] == JsonV::Str(s@));
                            assert(exists|k: int| 0 <= k < av.len() && av[k] == JsonV::Str(s@));
                            return true;
                        }
                    },
                    _ => {},
                }
                i = i + 1;
            }
            false
        },
        None => false,
    }
}

fn listed(item: &Json, f: ModelsFormat) -> (r: Option<ModelInfo>)
    ensures
        match r {
            Some(m) => listed_model(jview(*item), f) == Some(m@),
            None => listed_model(jview(*item), f) is None,
        },
{
    let o = Some(item);
    match f {
        ModelsFormat::OpenAI => match as_str(field(o, "id")) {
            Some(id) => Some(ModelInfo::unknown(id.clone())),
            None => None,
        },
        ModelsFormat::Ollama => {
            let id = match as_str(field(o, "model")) {
                Some(m) => Some(m),
                None => as_str(field(o, "name")),
            };
            match id {
                Some(id) => Some(ModelInfo { id: id.clone(), supports_chat: true, supports_embeddings: true }),
                None => None,
            }
        },
        ModelsFormat::AiStudio => match as_str(field(o, "name")) {
            Some(n) => match crate::text::strip_prefix(n.as_str(), "models/") {
                Some(id) => {
                    let methods = as_array(field(o, "supportedGenerationMethods"));
                    Some(ModelInfo {
                        id,
                        supports_chat: lists(methods, "generateContent"),
                        supports_embeddings: lists(methods, "embedContent"),
                    })
                },
                None => None,
            },
            None => None,
        },
    }
}

/// The models of a listing answer.
pub fn parse_models(j: &Json, f: ModelsFormat) -> (r: Vec<ModelInfo>)
    ensures
        models_view(r@) == models_of(jview(*j), f),
{
    let key = match f {
        ModelsFormat::OpenAI => "data",
        ModelsFormat::Ollama | ModelsFormat::AiStudio => "models",
    };
    let mut out: Vec<ModelInfo> = Vec::new();
    assert(models_view(out@) =~= Seq::<ModelInfoV>::empty());
    match as_array(field(Some(j), key)) {
        Some(items) => {
            let ghost iv = jviews(items@);
            let mut i: usize = 0;
            while i < items.len()
                invariant
                    i <= items@.len(),
                    iv == jviews(items@),
                    iv.len() == items@.len(),
                    models_view(out@) == models_upto(iv, f, i as nat),
                decreases items@.len() - i,
            {
                match listed(&items[i], f) {
                    Some(m) => {
                        let ghost before = out@;
                        out.push(m);
                        assert(models_view(out@) =~= models_view(before).push(m@));
                    },
                    None => {},
                }
                i = i + 1;
            }
        },
        None => {},
    }
    out
}

} // verus!

verus! {

/// A tool call that a stream has begun: its position in the provider's list,
/// its id so far, and whether its name has been announced.
pub struct ToolSlot {
    pub index: usize,
    pub id: String,
    pub named: bool,
}

/// The value of a tool slot.
pub open spec fn slot_view(s: ToolSlot) -> (usize, Seq<char>, bool) {
    (s.index, s.id@, s.named)
}

/// The values of a list of tool slots.
pub open spec fn slots_view(s: Seq<ToolSlot>) -> Seq<(usize, Seq<char>, bool)> {
    s.map_values(|t: ToolSlot| slot_view(t))
}

/// The values of a list of stream events.
pub open spec fn events_view(e: Seq<crate::chat::StreamEvent>) -> Seq<crate::chat::StreamEventV> {
    e.map_values(|x: crate::chat::StreamEvent| x@)
}

/// One `ToolCallFinished` for each of the first `n` slots that announced a name.
pub open spec fn finished_upto(slots: Seq<(usize, Seq<char>, bool)>, n: nat) -> Seq<crate::chat::StreamEventV>
    decreases n,
{
    if n == 0 || n > slots.len() {
        Seq::empty()
    } else {
        finished_upto(slots, (n - 1) as nat)
            + if slots[n - 1].2 { seq![crate::chat::StreamEventV::ToolCallFinished] } else { Seq::empty() }
    }
}

/// The first slot at or after `i` for the provider's position `index`.
pub open spec fn slot_from(slots: Seq<(usize, Seq<char>, bool)>, index: usize, i: nat) -> Option<int>
    decreases slots.len() - i,
{
    if i >= slots.len() {
        None
    } else if slots[i as int].0 == index {
        Some(i as int)
    } else {
        slot_from(slots, index, i + 1)
    }
}

/// What one tool call delta does: its slot is found or opened, takes the first
/// id it is given, announces the call once a name comes, and passes on any
/// argument text.
pub open spec fn call_step(slots: Seq<(usize, Seq<char>, bool)>, call: JsonV)
    -> (Seq<(usize, Seq<char>, bool)>, Seq<crate::chat::StreamEventV>)
{
    let index = (match ju64(jfield(call, "index"@)) { Some(n) => n, None => 0 }) as usize;
    let id = crate::openai_api::text_field(call, "id"@);
    let name = crate::openai_api::text_field(jfield(call, "function"@), "name"@);
    let args = crate::openai_api::text_field(jfield(call, "function"@), "arguments"@);
    let (s1, k) = match slot_from(slots, index, 0) {
        Some(k) => (slots, k),
        None => (slots.push((index, id, false)), slots.len() as int),
    };
    let e = s1[k];
    let e1 = if id.len() > 0 && e.1.len() == 0 { (e.0, id, e.2) } else { e };
    let announce = name.len() > 0 && !e1.2;
    let e2 = if announce { (e1.0, e1.1, true) } else { e1 };
    let ev1: Seq<crate::chat::StreamEventV> = if announce {
        seq![crate::chat::StreamEventV::ToolCallStarted { id: e1.1, name }]
    } else {
        Seq::empty()
    };
    let ev2: Seq<crate::chat::StreamEventV> = if args.len() > 0 {
        seq![crate::chat::StreamEventV::ToolCallDelta { id: e2.1, arguments_chunk: args }]
    } else {
        Seq::empty()
    };
    (s1.update(k, e2), ev1 + ev2)
}

/// What the first `n` tool call deltas of a chunk do.
pub open spec fn calls_upto(slots: Seq<(usize, Seq<char>, bool)>, calls: Seq<JsonV>, n: nat)
    -> (Seq<(usize, Seq<char>, bool)>, Seq<crate::chat::StreamEventV>)
    decreases n,
{
    if n == 0 || n > calls.len() {
        (slots, Seq::empty())
    } else {
        let (s, ev) = calls_upto(slots, calls, (n - 1) as nat);
        let (s2, ev2) = call_step(s, calls[n - 1]);
        (s2, ev + ev2)
    }
}

/// The usage event of a chunk whose `usage` has all three counts.
pub open spec fn chunk_usage(j: JsonV) -> Seq<crate::chat::StreamEventV> {
    match jget(j, "usage"@) {
        Some(u) => match (ju64(jfield(u, "prompt_tokens"@)), ju64(jfield(u, "completion_tokens"@)), ju64(jfield(u, "total_tokens"@))) {
            (Some(p), Some(c), Some(t)) => seq![crate::chat::StreamEventV::Usage(Usage {
                prompt_tokens: p as u32,
                completion_tokens: c as u32,
                total_tokens: t as u32,
            })],
            _ => Seq::empty(),
        },
        None => Seq::empty(),
    }
}

/// What one chunk of an OpenAI-compatible stream does: its text, its tool
/// call deltas, the end of every announced call when it finishes for tool
/// calls, and its usage.
pub open spec fn chunk_step(slots: Seq<(usize, Seq<char>, bool)>, j: JsonV)
    -> (Seq<(usize, Seq<char>, bool)>, Seq<crate::chat::StreamEventV>)
{
    let choice = crate::json::jat(jfield(j, "choices"@), 0);
    let delta = jfield(choice, "delta"@);
    let text_ev: Seq<crate::chat::StreamEventV> = match jstr(jfield(delta, "content"@)) {
        Some(c) => if c.len() > 0 { seq![crate::chat::StreamEventV::TextDelta(c)] } else { Seq::empty() },
        None => Seq::empty(),
    };
    let (s1, tool_ev) = match jarray(jfield(delta, "tool_calls"@)) {
        Some(cs) => calls_upto(slots, cs, cs.len()),
        None => (slots, Seq::empty()),
    };
    let (s2, fin_ev) = if jstr(jfield(choice, "finish_reason"@)) == Some("tool_calls"@) {
        (Seq::empty(), finished_upto(s1, s1.len()))
    } else {
        (s1, Seq::empty())
    };
    (s2, text_ev + tool_ev + fin_ev + chunk_usage(j))
}

/// What one event's data does to an OpenAI-compatible stream: the events to
/// pass on, the slots after it, and whether the stream is over. `[DONE]` ends
/// every announced call and the stream; data that is not JSON is reported
/// (NVIDIA NIM's streams skip it).
pub open spec fn stream_step(slots: Seq<(usize, Seq<char>, bool)>, data: Seq<char>, nim: bool)
    -> (Seq<(usize, Seq<char>, bool)>, Seq<crate::chat::StreamEventV>, bool)
{
    if data == "[DONE]"@ {
        (Seq::empty(), finished_upto(slots, slots.len()).push(crate::chat::StreamEventV::Done), true)
    } else {
        match parsed_json(data) {
            Err(e) => (slots, if nim {
                Seq::empty()
            } else {
                seq![crate::chat::StreamEventV::Error { message: "Parse error: "@ + e }]
            }, false),
            Ok(j) => {
                let (s, ev) = chunk_step(slots, j);
                (s, ev, false)
            },
        }
    }
}

/// The state of an OpenAI-compatible chat stream.
pub struct ChatStream {
    slots: Vec<ToolSlot>,
    nim: bool,
}

impl ChatStream {
    /// The tool calls under way.
    pub closed spec fn slots(&self) -> Seq<(usize, Seq<char>, bool)> {
        slots_view(self.slots@)
    }

    /// Whether this is an NVIDIA NIM stream.
    pub closed spec fn is_nim(&self) -> bool {
        self.nim
    }

    /// A stream with no tool call under way; `nim` for NVIDIA NIM.
    pub fn new(nim: bool) -> (s: Self)
        ensures
            s.slots() == Seq::<(usize, Seq<char>, bool)>::empty(),
            s.is_nim() == nim,
    {
        let s = ChatStream { slots: Vec::new(), nim };
        assert(s.slots() =~= Seq::<(usize, Seq<char>, bool)>::empty());
        s
    }

    fn finish_all(&mut self, out: &mut Vec<crate::chat::StreamEvent>)
        ensures
            final(self).slots() == Seq::<(usize, Seq<char>, bool)>::empty(),
            final(self).is_nim() == old(self).is_nim(),
            events_view(final(out)@) == events_view(old(out)@) + finished_upto(old(self).slots(), old(self).slots().len()),
    {
        let ghost sv = self.slots();
        let ghost start = events_view(out@);
        let mut i: usize = 0;
        while i < self.slots.len()
            invariant
                i <= self.slots@.len(),
                sv == slots_view(self.slots@),
                sv.len() == self.slots@.len(),
                events_view(out@) == start + finished_upto(sv, i as nat),
            decreases self.slots@.len() - i,
        {
            if self.slots[i].named {
                let ghost before = out@;
                out.push(crate::chat::StreamEvent::ToolCallFinished);
                assert(events_view(out@) =~= events_view(before).push(crate::chat::StreamEventV::ToolCallFinished));
            }
            assert(sv[i as int].2 == self.slots@[i as int].named);
            assert(finished_upto(sv, (i + 1) as nat) =~= finished_upto(sv, i as nat)
                + if sv[i as int].2 { seq![crate::chat::StreamEventV::ToolCallFinished] } else { Seq::empty() });
            i = i + 1;
        }
        self.slots = Vec::new();
        assert(self.slots() =~= Seq::<(usize, Seq<char>, bool)>::empty());
    }

    fn find_slot(&self, index: usize) -> (r: Option<usize>)
        ensures
            r matches Some(k) ==> k < self.slots().len() && slot_from(self.slots(), index, 0) == Some(k as int),
            r is None ==> slot_from(self.slots(), index, 0) is None,
    {
        let ghost sv = self.slots();
        let mut i: usize = 0;
        while i < self.slots.len()
            invariant
                i <= self.slots@.len(),
                sv == slots_view(self.slots@),
                sv.len() == self.slots@.len(),
                slot_from(sv, index, 0) == slot_from(sv, index, i as nat),
            decreases self.slots@.len() - i,
        {
            assert(sv[i as int].0 == self.slots@[i as int].index);
            if self.slots[i].index == index {
                return Some(i);
            }
            i = i + 1;
        }
        None
    }

    fn take_call(&mut self, call: &Json, out: &mut Vec<crate::chat::StreamEvent>)
        ensures
            final(self).slots() == call_step(old(self).slots(), jview(*call)).0,
            final(self).is_nim() == old(self).is_nim(),
            events_view(final(out)@) == events_view(old(out)@) + call_step(old(self).slots(), jview(*call)).1,
    {
        let c = Some(call);
        let index = match as_u64(field(c, "index")) {
            Some(n) => n as usize,
            None => 0,
        };
        let id = text_or(field(c, "id"), "");
        let f = field(c, "function");
        let name = text_or(field(f, "name"), "");
        let args = text_or(field(f, "arguments"), "");
        let ghost s0 = self.slots();
        let k = match self.find_slot(index) {
            Some(k) => k,
            None => {
                let ghost before = self.slots@;
                self.slots.push(ToolSlot { index, id: id.clone(), named: false });
                assert(self.slots() =~= s0.push((index, id@, false)));
                self.slots.len() - 1
            },
        };
        let ghost s1 = self.slots();
        let mut slot = ToolSlot { index: self.slots[k].index, id: self.slots[k].id.clone(), named: self.slots[k].named };
        assert(slot_view(slot) == s1[k as int]);
        if !id.as_str().is_empty() && slot.id.as_str().is_empty() {
            slot.id = id.clone();
        }
        let announce = !name.as_str().is_empty() && !slot.named;
        let ghost before_out = events_view(out@);
        if announce {
            slot.named = true;
            out.push(crate::chat::StreamEvent::ToolCallStarted { id: slot.id.clone(), name });
        }
        let ghost mid_out = events_view(out@);
        if !args.as_str().is_empty() {
            out.push(crate::chat::StreamEvent::ToolCallDelta { id: slot.id.clone(), arguments_chunk: args });
        }
        let ghost slot_v = slot_view(slot);
        self.slots.set(k, slot);
        assert(self.slots() =~= s1.update(k as int, slot_v));
        assert(events_view(out@) =~= before_out + call_step(s0, jview(*call)).1);
    }

    /// Takes the data of one server-sent event; gives the events to pass on
    /// and whether the stream is over.
    pub fn step(&mut self, data: &str) -> (r: (Vec<crate::chat::StreamEvent>, bool))
        ensures
            final(self).is_nim() == old(self).is_nim(),
            final(self).slots() == stream_step(old(self).slots(), data@, old(self).is_nim()).0,
            events_view(r.0@) == stream_step(old(self).slots(), data@, old(self).is_nim()).1,
            r.1 == stream_step(old(self).slots(), data@, old(self).is_nim()).2,
    {
        let mut out: Vec<crate::chat::StreamEvent> = Vec::new();
        assert(events_view(out@) =~= Seq::<crate::chat::StreamEventV>::empty());
        if str_eq(data, "[DONE]") {
            self.finish_all(&mut out);
            let ghost before = out@;
            out.push(crate::chat::StreamEvent::Done);
            assert(events_view(out@) =~= events_view(before).push(crate::chat::StreamEventV::Done));
            return (out, true);
        }
        let j = match parse_json(data) {
            Ok(j) => j,
            Err(e) => {
                if !self.nim {
                    let mut message = String::from_str("Parse error: ");
                    message.append(e.as_str());
                    out.push(crate::chat::StreamEvent::Error { message });
                    assert(events_view(out@) =~= seq![crate::chat::StreamEventV::Error { message: "Parse error: "@ + e@ }]);
                }
                return (out, false);
            },
        };
        let ghost s0 = self.slots();
        let choice = crate::json::at(field(Some(&j), "choices"), 0);
        let delta = field(choice, "delta");
        match as_str(field(delta, "content")) {
            Some(c) => if !c.as_str().is_empty() {
                out.push(crate::chat::StreamEvent::TextDelta(c.clone()));
            },
            None => {},
        }
        let ghost text_ev = events_view(out@);
        match as_array(field(delta, "tool_calls")) {
            Some(cs) => {
                let ghost cv = jviews(cs@);
                let mut i: usize = 0;
                while i < cs.len()
                    invariant
                        i <= cs@.len(),
                        cv == jviews(cs@),
                        cv.len() == cs@.len(),
                        self.is_nim() == old(self).is_nim(),
                        self.slots() == calls_upto(s0, cv, i as nat).0,
                        events_view(out@) == text_ev + calls_upto(s0, cv, i as nat).1,
                    decreases cs@.len() - i,
                {
                    self.take_call(&cs[i], &mut out);
                    i = i + 1;
                }
            },
            None => {},
        }
        match as_str(field(choice, "finish_reason")) {
            Some(fr) => if str_eq(fr.as_str(), "tool_calls") {
                self.finish_all(&mut out);
            },
            None => {},
        }
        match get(Some(&j), "usage") {
            Some(u) => {
                match (as_u64(field(Some(u), "prompt_tokens")), as_u64(field(Some(u), "completion_tokens")),
                    as_u64(field(Some(u), "total_tokens"))) {
                    (Some(p), Some(c), Some(t)) => {
                        let ghost before = out@;
                        let usage = Usage { prompt_tokens: p as u32, completion_tokens: c as u32, total_tokens: t as u32 };
                        out.push(crate::chat::StreamEvent::Usage(usage));
                        assert(events_view(out@) =~= events_view(before).push(crate::chat::StreamEventV::Usage(usage)));
                    },
                    _ => {},
                }
            },
            None => {},
        }
        assert(events_view(out@) =~= chunk_step(s0, jview(j)).1);
        (out, false)
    }
}


/// Reading back the role name that a message is sent with gives the same role:
/// a system, user, assistant or tool message stays one.
pub proof fn law_role_names_read_back(r: Role)
    ensures
        crate::openai_api::role_named(Some(role_text(r))) == r,
{
    reveal_strlit("system");
    reveal_strlit("user");
    reveal_strlit("assistant");
    reveal_strlit("tool");
    assert("user"@[0] != "tool"@[0]);
    assert("user"@.len() != "system"@.len() && "user"@.len() != "assistant"@.len());
    assert("tool"@.len() != "system"@.len() && "tool"@.len() != "assistant"@.len());
    assert("system"@.len() != "assistant"@.len());
}

/// Reading back the OpenAI name written for a finish reason gives the same
/// reason, by either reader, for every reason that OpenAI names: in particular
/// a response cut off at the token limit stays one.
pub proof fn law_finish_names_read_back(r: FinishReason)
    requires
        r != FinishReason::Error,
        r != FinishReason::Unknown,
    ensures
        openai_finish(Some(crate::openai_api::finish_text(r))) == r,
        nim_finish(Some(crate::openai_api::finish_text(r))) == r,
{
    reveal_strlit("stop");
    reveal_strlit("length");
    reveal_strlit("tool_calls");
    reveal_strlit("content_filter");
    reveal_strlit("");
    let t = crate::openai_api::finish_text(r);
    assert(t.len() == 4 || t.len() == 6 || t.len() == 10 || t.len() == 14);
    assert(str_or(Some(t), "stop"@) == t);
    assert(str_or(Some(t), ""@) == t);
}


/// Distinct finish reasons that OpenAI names are written with distinct names.
pub proof fn law_finish_names_distinct(r1: FinishReason, r2: FinishReason)
    requires
        r1 != FinishReason::Unknown,
        r2 != FinishReason::Unknown,
        crate::openai_api::finish_text(r1) == crate::openai_api::finish_text(r2),
    ensures
        r1 == r2,
{
    reveal_strlit("stop");
    reveal_strlit("length");
    reveal_strlit("tool_calls");
    reveal_strlit("content_filter");
    reveal_strlit("error");
    assert("stop"@[0] != "error"@[0]);
    let t = crate::openai_api::finish_text(r1);
    assert(t.len() == crate::openai_api::finish_text(r2).len());
}

} // verus!
