use vstd::prelude::*;
use crate::chat::{
    ChatRequest, ChatRequestV, ChatResponse, ChatResponseV, ContentPart, FinishReason, Message, MessageV,
    ReasoningEffort, Role, StreamEvent, StreamEventV, Tool, ToolCall, ToolCallV, ToolChoice, ToolChoiceV, ToolV,
    Usage, message_text, opt_view, text_of,
};
use crate::gemini_api::{
    ContentsV, config_choice, content_step, contents_state, declared_tools, function_call_json, function_call_part,
    function_config, gemini_request, gemini_system, gemini_tool, normalize_model, normalized_model, thinking_level,
};
use crate::json::{
    lemma_member_push, member_from, ju64, jnumber, to_u32,
    Json, JsonV, ArrayBuilder, ObjectBuilder, as_array, as_str, copy, field, get, jarray, jat, jfield, jget, jobj1,
    jobj2, jarr1, jopt, jopt_str, jstr, jstr_of, jstring, json_text, jview, jviews, juint, juint_of, jcount, object1,
    object2, ojv, parse_json, parsed_json, parsed_view, single, str_or, text_or, to_text, copy_or_null,
};
use crate::openai_api::{push_call, text_content, text_field};
use crate::text::{decimal, str_eq};
use crate::upstream::{count_of, events_view};

verus! {

/// The system prompt: the non-empty texts of the first `n` system messages,
/// joined with blank lines.
pub open spec fn system_upto(ms: Seq<MessageV>, n: nat) -> Seq<char>
    decreases n,
{
    if n == 0 || n > ms.len() {
        Seq::empty()
    } else {
        let acc = system_upto(ms, (n - 1) as nat);
        let t = message_text(ms[n - 1]);
        if ms[n - 1].role == Role::System && t.len() > 0 {
            if acc.len() == 0 { t } else { acc + "\n\n"@ + t }
        } else {
            acc
        }
    }
}

/// The ids and names of the tool calls of the first `n` messages, in order.
pub open spec fn call_names_upto(ms: Seq<MessageV>, n: nat) -> Seq<(Seq<char>, Seq<char>)>
    decreases n,
{
    if n == 0 || n > ms.len() {
        Seq::empty()
    } else {
        call_names_upto(ms, (n - 1) as nat) + ms[n - 1].tool_calls.map_values(|c: ToolCallV| (c.id, c.name))
    }
}

/// The response of a tool message: its text read as JSON when that is an
/// object, else the text under `result`.
pub open spec fn tool_response(text: Seq<char>, parsed: Result<JsonV, Seq<char>>) -> JsonV {
    match parsed {
        Ok(JsonV::Object(m)) => JsonV::Object(m),
        _ => jobj1("result"@, JsonV::Str(text)),
    }
}

/// A tool message as a Gemini content: a user turn with one function response,
/// named after the call it answers, else `tool`.
pub open spec fn tool_content(m: MessageV, calls: Seq<(Seq<char>, Seq<char>)>) -> JsonV {
    let name = match m.tool_call_id {
        Some(id) => str_or(crate::gemini_api::latest_call(calls, id), "tool"@),
        None => "tool"@,
    };
    let text = message_text(m);
    jobj2("role"@, JsonV::Str("user"@), "parts"@, jarr1(jobj1("functionResponse"@,
        jobj2("name"@, JsonV::Str(name), "response"@, tool_response(text, parsed_json(text))))))
}

/// Any other message as a Gemini content: its text, when there is any, then its
/// tool calls, from the model when the assistant wrote it, else from the user.
pub open spec fn turn_content(m: MessageV) -> JsonV {
    let text = message_text(m);
    let head: Seq<JsonV> = if text.len() > 0 { seq![jobj1("text"@, JsonV::Str(text))] } else { Seq::empty() };
    let parts = head + m.tool_calls.map_values(|c: ToolCallV| function_call_json(c, parsed_json(c.arguments)));
    jobj2("role"@, JsonV::Str(if m.role == Role::Assistant { "model"@ } else { "user"@ }), "parts"@, JsonV::Array(parts))
}

/// The Gemini contents of the first `n` messages; system messages go elsewhere.
pub open spec fn contents_upto(ms: Seq<MessageV>, calls: Seq<(Seq<char>, Seq<char>)>, n: nat) -> Seq<JsonV>
    decreases n,
{
    if n == 0 || n > ms.len() {
        Seq::empty()
    } else {
        let acc = contents_upto(ms, calls, (n - 1) as nat);
        let m = ms[n - 1];
        if m.role == Role::System {
            acc
        } else if m.role == Role::Tool {
            acc.push(tool_content(m, calls))
        } else {
            acc.push(turn_content(m))
        }
    }
}

/// A tool as a Gemini function declaration.
pub open spec fn declaration_json(t: ToolV) -> JsonV {
    JsonV::Object(Seq::empty()
        .push(("name"@, JsonV::Str(t.name)))
        .push(("description"@, jopt_str(t.description)))
        .push(("parameters"@, t.parameters)))
}

/// A tool choice as a Gemini function calling configuration.
pub open spec fn calling_config_json(c: ToolChoiceV) -> JsonV {
    match c {
        ToolChoiceV::Auto => jobj1("mode"@, JsonV::Str("AUTO"@)),
        ToolChoiceV::Disabled => jobj1("mode"@, JsonV::Str("NONE"@)),
        ToolChoiceV::Required => jobj1("mode"@, JsonV::Str("ANY"@)),
        ToolChoiceV::Tool(n) => jobj2("mode"@, JsonV::Str("ANY"@), "allowedFunctionNames"@, jarr1(JsonV::Str(n))),
    }
}

/// The Gemini thinking level of a reasoning effort.
pub open spec fn level_text(e: ReasoningEffort) -> Seq<char> {
    match e {
        ReasoningEffort::Low => "LOW"@,
        ReasoningEffort::Medium => "MEDIUM"@,
        ReasoningEffort::High => "HIGH"@,
    }
}

/// The generation settings that a request sets, in Gemini's names: a thinking
/// budget wins over a reasoning effort.
pub open spec fn generation_members(r: ChatRequestV) -> Seq<(Seq<char>, JsonV)> {
    let g0: Seq<(Seq<char>, JsonV)> = Seq::empty();
    let g1 = match r.max_tokens { Some(n) => g0.push(("maxOutputTokens"@, juint(n as nat))), None => g0 };
    let g2 = match r.temperature { Some(t) => g1.push(("temperature"@, JsonV::Number(t))), None => g1 };
    let g3 = match r.top_p { Some(t) => g2.push(("topP"@, JsonV::Number(t))), None => g2 };
    match r.thinking_budget_tokens {
        Some(b) => g3.push(("thinkingConfig"@, jobj1("thinkingBudget"@, juint(b as nat)))),
        None => match r.reasoning_effort {
            Some(e) => g3.push(("thinkingConfig"@, jobj1("thinkingLevel"@, JsonV::Str(level_text(e))))),
            None => g3,
        },
    }
}

/// The body of a Gemini `generateContent` call: the contents, then the system
/// instruction, tools, tool configuration and generation settings that apply.
pub open spec fn ai_studio_body(r: ChatRequestV) -> JsonV {
    let ms = r.messages;
    let calls = call_names_upto(ms, ms.len());
    let b0 = Seq::empty().push(("contents"@, JsonV::Array(contents_upto(ms, calls, ms.len()))));
    let system = system_upto(ms, ms.len());
    let b1 = if system.len() > 0 {
        b0.push(("systemInstruction"@, jobj1("parts"@, jarr1(jobj1("text"@, JsonV::Str(system))))))
    } else {
        b0
    };
    let b2 = if r.tools.len() > 0 {
        b1.push(("tools"@, jarr1(jobj1("functionDeclarations"@, JsonV::Array(r.tools.map_values(|t: ToolV| declaration_json(t)))))))
    } else {
        b1
    };
    let b3 = match r.tool_choice {
        Some(c) => b2.push(("toolConfig"@, jobj1("functionCallingConfig"@, calling_config_json(c)))),
        None => b2,
    };
    let g = generation_members(r);
    JsonV::Object(if g.len() > 0 { b3.push(("generationConfig"@, JsonV::Object(g))) } else { b3 })
}

fn system_prompt(ms: &Vec<Message>) -> (r: String)
    ensures
        r@ == system_upto(ms@.map_values(|m: Message| m@), ms@.len()),
{
    let ghost mv = ms@.map_values(|m: Message| m@);
    let mut out = String::new();
    let mut i: usize = 0;
    while i < ms.len()
        invariant
            i <= ms@.len(),
            mv == ms@.map_values(|m: Message| m@),
            mv.len() == ms@.len(),
            out@ == system_upto(mv, i as nat),
        decreases ms@.len() - i,
    {
        assert(mv[i as int] == ms@[i as int]@);
        if ms[i].role == Role::System {
            let t = text_of(&ms[i]);
            if !t.as_str().is_empty() {
                if !out.as_str().is_empty() {
                    out.append("\n\n");
                }
                out.append(t.as_str());
            }
        }
        i = i + 1;
    }
    out
}

fn all_calls(ms: &Vec<Message>) -> (r: Vec<(String, String)>)
    ensures
        r@.map_values(|c: (String, String)| (c.0@, c.1@)) == call_names_upto(ms@.map_values(|m: Message| m@), ms@.len()),
{
    let ghost mv = ms@.map_values(|m: Message| m@);
    let mut out: Vec<(String, String)> = Vec::new();
    assert(out@.map_values(|c: (String, String)| (c.0@, c.1@)) =~= Seq::<(Seq<char>, Seq<char>)>::empty());
    let mut i: usize = 0;
    while i < ms.len()
        invariant
            i <= ms@.len(),
            mv == ms@.map_values(|m: Message| m@),
            mv.len() == ms@.len(),
            out@.map_values(|c: (String, String)| (c.0@, c.1@)) == call_names_upto(mv, i as nat),
        decreases ms@.len() - i,
    {
        let calls = &ms[i].tool_calls;
        let ghost base = call_names_upto(mv, i as nat);
        let ghost cv = mv[i as int].tool_calls.map_values(|c: ToolCallV| (c.id, c.name));
        assert(mv[i as int].tool_calls == calls@.map_values(|c: ToolCall| c@));
        let mut k: usize = 0;
        while k < calls.len()
            invariant
                k <= calls@.len(),
                cv == calls@.map_values(|c: ToolCall| c@).map_values(|c: ToolCallV| (c.id, c.name)),
                cv.len() == calls@.len(),
                out@.map_values(|c: (String, String)| (c.0@, c.1@)) == base + cv.take(k as int),
            decreases calls@.len() - k,
        {
            let ghost before = out@;
            out.push((calls[k].id.clone(), calls[k].name.clone()));
            assert(out@.map_values(|c: (String, String)| (c.0@, c.1@))
                =~= before.map_values(|c: (String, String)| (c.0@, c.1@)).push(cv[k as int]));
            assert(base + cv.take(k + 1) =~= (base + cv.take(k as int)).push(cv[k as int]));
            k = k + 1;
        }
        assert(cv.take(calls@.len() as int) =~= cv);
        i = i + 1;
    }
    out
}

fn tool_message_content(m: &Message, calls: &Vec<(String, String)>) -> (r: Json)
    ensures
        jview(r) == tool_content(m@, calls@.map_values(|c: (String, String)| (c.0@, c.1@))),
{
    let name = match &m.tool_call_id {
        Some(id) => match crate::gemini_api::latest_call_id(calls, id.as_str()) {
            Some(n) => n,
            None => String::from_str("tool"),
        },
        None => String::from_str("tool"),
    };
    let text = text_of(m);
    let response = match parse_json(text.as_str()) {
        Ok(Json::Object(members)) => Json::Object(members),
        _ => object1("result", jstring(text.clone())),
    };
    let call = object2("name", jstring(name), "response", response);
    object2("role", jstr_of("user"), "parts", single(object1("functionResponse", call)))
}

fn turn_message_content(m: &Message) -> (r: Json)
    ensures
        jview(r) == turn_content(m@),
{
    let text = text_of(m);
    let mut parts = ArrayBuilder::new();
    if !text.as_str().is_empty() {
        parts.push(object1("text", jstring(text)));
    }
    let ghost head = parts.spec_items();
    let ghost calls = m@.tool_calls;
    let mut k: usize = 0;
    while k < m.tool_calls.len()
        invariant
            k <= m.tool_calls@.len(),
            calls == m@.tool_calls,
            calls.len() == m.tool_calls@.len(),
            parts.spec_items() == head + calls.take(k as int).map_values(|c: ToolCallV| function_call_json(c, parsed_json(c.arguments))),
        decreases m.tool_calls@.len() - k,
    {
        let parsed = parse_json(m.tool_calls[k].arguments.as_str());
        parts.push(function_call_part(&m.tool_calls[k], parsed));
        assert(calls.take(k + 1).map_values(|c: ToolCallV| function_call_json(c, parsed_json(c.arguments)))
            =~= calls.take(k as int).map_values(|c: ToolCallV| function_call_json(c, parsed_json(c.arguments)))
                .push(function_call_json(calls[k as int], parsed_json(calls[k as int].arguments))));
        k = k + 1;
    }
    assert(calls.take(calls.len() as int) =~= calls);
    let role = if m.role == Role::Assistant { "model" } else { "user" };
    object2("role", jstr_of(role), "parts", parts.build())
}

fn declarations_json(ts: &Vec<Tool>) -> (r: Json)
    ensures
        jview(r) == JsonV::Array(ts@.map_values(|t: Tool| t@).map_values(|t: ToolV| declaration_json(t))),
{
    let ghost vals = ts@.map_values(|t: Tool| t@);
    let mut b = ArrayBuilder::new();
    let mut i: usize = 0;
    while i < ts.len()
        invariant
            i <= ts@.len(),
            vals == ts@.map_values(|t: Tool| t@),
            b.spec_items() == vals.take(i as int).map_values(|t: ToolV| declaration_json(t)),
        decreases ts@.len() - i,
    {
        let t = &ts[i];
        let description = match &t.description {
            Some(d) => Some(d.clone()),
            None => None,
        };
        let d = ObjectBuilder::new()
            .with("name", jstring(t.name.clone()))
            .with("description", jopt(description))
            .with("parameters", copy(&t.parameters))
            .build();
        b.push(d);
        assert(vals.take(i + 1).map_values(|t: ToolV| declaration_json(t))
            =~= vals.take(i as int).map_values(|t: ToolV| declaration_json(t)).push(declaration_json(vals[i as int])));
        i = i + 1;
    }
    assert(vals.take(ts@.len() as int) =~= vals);
    b.build()
}

fn calling_config(c: &ToolChoice) -> (r: Json)
    ensures
        jview(r) == calling_config_json(c@),
{
    match c {
        ToolChoice::Auto => object1("mode", jstr_of("AUTO")),
        ToolChoice::Disabled => object1("mode", jstr_of("NONE")),
        ToolChoice::Required => object1("mode", jstr_of("ANY")),
        ToolChoice::Tool(n) => object2("mode", jstr_of("ANY"), "allowedFunctionNames", single(jstring(n.clone()))),
    }
}

/// The body of a Gemini `generateContent` call for a request.
pub fn request_body(req: &ChatRequest) -> (r: Json)
    ensures
        jview(r) == ai_studio_body(req@),
{
    let ms = &req.messages;
    let ghost mv = ms@.map_values(|m: Message| m@);
    let calls = all_calls(ms);
    let ghost cv = calls@.map_values(|c: (String, String)| (c.0@, c.1@));
    let mut contents = ArrayBuilder::new();
    let mut i: usize = 0;
    while i < ms.len()
        invariant
            i <= ms@.len(),
            mv == ms@.map_values(|m: Message| m@),
            mv.len() == ms@.len(),
            cv == calls@.map_values(|c: (String, String)| (c.0@, c.1@)),
            contents.spec_items() == contents_upto(mv, cv, i as nat),
        decreases ms@.len() - i,
    {
        assert(mv[i as int] == ms@[i as int]@);
        let m = &ms[i];
        if m.role == Role::Tool {
            contents.push(tool_message_content(m, &calls));
        } else if m.role != Role::System {
            contents.push(turn_message_content(m));
        }
        i = i + 1;
    }
    let mut b = ObjectBuilder::new().with("contents", contents.build());
    let system = system_prompt(ms);
    if !system.as_str().is_empty() {
        b = b.with("systemInstruction", object1("parts", single(object1("text", jstring(system)))));
    }
    if req.tools.len() > 0 {
        b = b.with("tools", single(object1("functionDeclarations", declarations_json(&req.tools))));
    }
    match &req.tool_choice {
        Some(c) => {
            b = b.with("toolConfig", object1("functionCallingConfig", calling_config(c)));
        },
        None => {},
    }
    let mut g = ObjectBuilder::new();
    match req.max_tokens {
        Some(n) => {
            g = g.with("maxOutputTokens", jcount(n));
        },
        None => {},
    }
    match &req.temperature {
        Some(t) => {
            g = g.with("temperature", Json::Number(t.clone()));
        },
        None => {},
    }
    match &req.top_p {
        Some(t) => {
            g = g.with("topP", Json::Number(t.clone()));
        },
        None => {},
    }
    match req.thinking_budget_tokens {
        Some(n) => {
            g = g.with("thinkingConfig", object1("thinkingBudget", jcount(n)));
        },
        None => match req.reasoning_effort {
            Some(e) => {
                let level = match e {
                    ReasoningEffort::Low => "LOW",
                    ReasoningEffort::Medium => "MEDIUM",
                    ReasoningEffort::High => "HIGH",
                };
                g = g.with("thinkingConfig", object1("thinkingLevel", jstr_of(level)));
            },
            None => {},
        },
    }
    assert(g.spec_members() == generation_members(req@));
    if g.len() > 0 {
        b = b.with("generationConfig", g.build());
    }
    b.build()
}

} // verus!

verus! {

/// The model that a chat call goes to, without a leading `models/`, or the
/// error when none is set.
pub open spec fn chat_model_of(r: ChatRequestV) -> Result<Seq<char>, Seq<char>> {
    match r.model {
        Some(m) => Ok(normalized_model(m)),
        None => Err("No model specified"@),
    }
}

/// The model that a chat call goes to.
pub fn chat_model(req: &ChatRequest) -> (r: Result<String, String>)
    ensures
        match r {
            Ok(m) => chat_model_of(req@) == Ok::<Seq<char>, Seq<char>>(m@),
            Err(e) => chat_model_of(req@) == Err::<Seq<char>, Seq<char>>(e@),
        },
{
    match &req.model {
        Some(m) => Ok(normalize_model(m.as_str())),
        None => Err(String::from_str("No model specified")),
    }
}

/// A function call read from a Gemini part at position `index`; without an
/// id it is called `call_` and the position.
pub open spec fn read_call(call: JsonV, index: nat) -> ToolCallV {
    ToolCallV {
        id: match jstr(jfield(call, "id"@)) {
            Some(i) => i,
            None => "call_"@ + decimal(index),
        },
        name: text_field(call, "name"@),
        arguments: json_text(jfield(call, "args"@)),
    }
}

/// The text and the function calls of the first `n` parts of a candidate.
pub open spec fn parts_upto(parts: Seq<JsonV>, n: nat) -> (Seq<char>, Seq<ToolCallV>)
    decreases n,
{
    if n == 0 || n > parts.len() {
        (Seq::empty(), Seq::empty())
    } else {
        let (t, cs) = parts_upto(parts, (n - 1) as nat);
        let p = parts[n - 1];
        let t2 = match jstr(jfield(p, "text"@)) {
            Some(x) => t + x,
            None => t,
        };
        let cs2 = match jget(p, "functionCall"@) {
            Some(call) => cs.push(read_call(call, (n - 1) as nat)),
            None => cs,
        };
        (t2, cs2)
    }
}

/// The finish reason that Gemini names (`STOP` when unnamed); a reply with tool
/// calls that stopped for no named reason of these stopped for its calls.
pub open spec fn gemini_finish(s: Seq<char>, has_calls: bool) -> FinishReason {
    if s == "MAX_TOKENS"@ {
        FinishReason::Length
    } else if s == "SAFETY"@ || s == "RECITATION"@ || s == "BLOCKLIST"@ || s == "PROHIBITED_CONTENT"@
        || s == "SPII"@ || s == "IMAGE_SAFETY"@ {
        FinishReason::ContentFilter
    } else if s == "MALFORMED_FUNCTION_CALL"@ {
        FinishReason::Error
    } else if has_calls {
        FinishReason::ToolCalls
    } else if s == "STOP"@ {
        FinishReason::Stop
    } else {
        FinishReason::Unknown
    }
}

/// Token counts of a Gemini `usageMetadata`.
pub open spec fn metadata_usage(u: JsonV) -> Usage {
    Usage {
        prompt_tokens: count_of(u, "promptTokenCount"@),
        completion_tokens: count_of(u, "candidatesTokenCount"@),
        total_tokens: count_of(u, "totalTokenCount"@),
    }
}

/// A Gemini answer read as a chat response: the first candidate's text and
/// function calls; no candidate is an error that quotes the prompt feedback.
pub open spec fn ai_studio_response(j: JsonV) -> Result<ChatResponseV, Seq<char>> {
    let first = match jarray(jfield(j, "candidates"@)) {
        Some(cs) => if cs.len() > 0 { Some(cs[0]) } else { None },
        None => None,
    };
    match first {
        None => Err("Gemini returned no candidates: "@ + json_text(jfield(j, "promptFeedback"@))),
        Some(c) => {
            let parts = match jarray(jfield(jfield(c, "content"@), "parts"@)) {
                Some(ps) => ps,
                None => Seq::empty(),
            };
            let (text, calls) = parts_upto(parts, parts.len());
            Ok(ChatResponseV {
                message: MessageV { role: Role::Assistant, content: seq![text], tool_calls: calls, tool_call_id: None },
                finish_reason: gemini_finish(str_or(jstr(jfield(c, "finishReason"@)), "STOP"@), calls.len() > 0),
                usage: match jget(j, "usageMetadata"@) {
                    Some(u) => Some(metadata_usage(u)),
                    None => None,
                },
            })
        },
    }
}

fn count_member(u: &Json, k: &str) -> (r: u32)
    ensures
        r == count_of(jview(*u), k@),
{
    match crate::json::as_u64(field(Some(u), k)) {
        Some(n) => n as u32,
        None => 0,
    }
}

fn read_usage(u: &Json) -> (r: Usage)
    ensures
        r == metadata_usage(jview(*u)),
{
    Usage {
        prompt_tokens: count_member(u, "promptTokenCount"),
        completion_tokens: count_member(u, "candidatesTokenCount"),
        total_tokens: count_member(u, "totalTokenCount"),
    }
}

fn read_call_at(call: &Json, index: usize) -> (r: ToolCall)
    ensures
        r@ == read_call(jview(*call), index as nat),
{
    let c = Some(call);
    let id = match as_str(field(c, "id")) {
        Some(i) => i.clone(),
        None => crate::openai_api::tagged_id("call_", index as u128),
    };
    ToolCall { id, name: text_or(field(c, "name"), ""), arguments: to_text(&copy_or_null(field(c, "args"))) }
}

fn finish_of(s: &str, has_calls: bool) -> (r: FinishReason)
    ensures
        r == gemini_finish(s@, has_calls),
{
    if str_eq(s, "MAX_TOKENS") {
        FinishReason::Length
    } else if str_eq(s, "SAFETY") || str_eq(s, "RECITATION") || str_eq(s, "BLOCKLIST") || str_eq(s, "PROHIBITED_CONTENT")
        || str_eq(s, "SPII") || str_eq(s, "IMAGE_SAFETY") {
        FinishReason::ContentFilter
    } else if str_eq(s, "MALFORMED_FUNCTION_CALL") {
        FinishReason::Error
    } else if has_calls {
        FinishReason::ToolCalls
    } else if str_eq(s, "STOP") {
        FinishReason::Stop
    } else {
        FinishReason::Unknown
    }
}

/// A Gemini answer read as a chat response.
pub fn parse_response(j: &Json) -> (r: Result<ChatResponse, String>)
    ensures
        match r {
            Ok(resp) => ai_studio_response(jview(*j)) == Ok::<ChatResponseV, Seq<char>>(resp@),
            Err(e) => ai_studio_response(jview(*j)) == Err::<ChatResponseV, Seq<char>>(e@),
        },
{
    let first = match as_array(field(Some(j), "candidates")) {
        Some(cs) => if cs.len() > 0 { Some(&cs[0]) } else { None },
        None => None,
    };
    let c = match first {
        Some(c) => c,
        None => {
            let mut msg = String::from_str("Gemini returned no candidates: ");
            let feedback = to_text(&copy_or_null(field(Some(j), "promptFeedback")));
            msg.append(feedback.as_str());
            return Err(msg);
        },
    };
    let mut text = String::new();
    let mut calls: Vec<ToolCall> = Vec::new();
    match as_array(field(field(Some(c), "content"), "parts")) {
        Some(ps) => {
            let ghost pv = jviews(ps@);
            let mut i: usize = 0;
            while i < ps.len()
                invariant
                    i <= ps@.len(),
                    pv == jviews(ps@),
                    pv.len() == ps@.len(),
                    (text@, calls@.map_values(|c: ToolCall| c@)) == parts_upto(pv, i as nat),
                decreases ps@.len() - i,
            {
                let p = Some(&ps[i]);
                match as_str(field(p, "text")) {
                    Some(t) => text.append(t.as_str()),
                    None => {},
                }
                match get(p, "functionCall") {
                    Some(call) => push_call(&mut calls, read_call_at(call, i)),
                    None => {},
                }
                i = i + 1;
            }
        },
        None => {
            assert(calls@.map_values(|c: ToolCall| c@) =~= Seq::<ToolCallV>::empty());
        },
    }
    let reason = text_or(field(Some(c), "finishReason"), "STOP");
    let finish = finish_of(reason.as_str(), calls.len() > 0);
    let usage = match get(Some(j), "usageMetadata") {
        Some(u) => Some(read_usage(u)),
        None => None,
    };
    let resp = ChatResponse {
        message: Message { role: Role::Assistant, content: text_content(text), tool_calls: calls, tool_call_id: None },
        finish_reason: finish,
        usage,
    };
    assert(resp@ =~= ai_studio_response(jview(*j))->Ok_0);
    Ok(resp)
}

} // verus!

verus! {

/// The counter of function calls after one more; it wraps around at `usize::MAX`.
pub open spec fn next_count(c: usize) -> usize {
    if c == usize::MAX { 0 } else { (c + 1) as usize }
}

/// What one part of a streamed Gemini chunk gives: its text, when not empty,
/// and each function call whole (start, arguments, end), numbered by the
/// stream's call counter when it has no id.
pub open spec fn stream_part_step(count: usize, part: JsonV) -> (usize, Seq<StreamEventV>) {
    let text_ev: Seq<StreamEventV> = match jstr(jfield(part, "text"@)) {
        Some(t) => if t.len() > 0 { seq![StreamEventV::TextDelta(t)] } else { Seq::empty() },
        None => Seq::empty(),
    };
    match jget(part, "functionCall"@) {
        Some(call) => {
            let id = match jstr(jfield(call, "id"@)) {
                Some(i) => i,
                None => "call_"@ + decimal(count as nat),
            };
            (next_count(count), text_ev + seq![
                StreamEventV::ToolCallStarted { id, name: text_field(call, "name"@) },
                StreamEventV::ToolCallDelta { id, arguments_chunk: json_text(jfield(call, "args"@)) },
                StreamEventV::ToolCallFinished,
            ])
        },
        None => (count, text_ev),
    }
}

/// What the first `n` parts of a chunk give.
pub open spec fn stream_parts_upto(count: usize, parts: Seq<JsonV>, n: nat) -> (usize, Seq<StreamEventV>)
    decreases n,
{
    if n == 0 || n > parts.len() {
        (count, Seq::empty())
    } else {
        let (c, ev) = stream_parts_upto(count, parts, (n - 1) as nat);
        let (c2, ev2) = stream_part_step(c, parts[n - 1]);
        (c2, ev + ev2)
    }
}

/// What one event's data does to a Gemini stream: the events of the first
/// candidate's parts, then its usage; data that is not JSON is reported.
pub open spec fn ai_stream_step(count: usize, data: Seq<char>) -> (usize, Seq<StreamEventV>) {
    match parsed_json(data) {
        Err(e) => (count, seq![StreamEventV::Error { message: e }]),
        Ok(j) => {
            let parts = match jarray(jfield(jfield(jat(jfield(j, "candidates"@), 0), "content"@), "parts"@)) {
                Some(ps) => ps,
                None => Seq::empty(),
            };
            let (c, ev) = stream_parts_upto(count, parts, parts.len());
            (c, ev + match jget(j, "usageMetadata"@) {
                Some(u) => seq![StreamEventV::Usage(metadata_usage(u))],
                None => Seq::empty(),
            })
        },
    }
}

/// The state of a Gemini chat stream: how many function calls it has passed on.
pub struct AiStudioStream {
    calls: usize,
}

impl AiStudioStream {
    /// The number of function calls passed on, wrapping at `usize::MAX`.
    pub closed spec fn count(&self) -> usize {
        self.calls
    }

    /// A stream that has passed on no call.
    pub fn new() -> (s: Self)
        ensures
            s.count() == 0,
    {
        AiStudioStream { calls: 0 }
    }

    /// Takes the data of one server-sent event; gives the events to pass on.
    pub fn step(&mut self, data: &str) -> (r: Vec<StreamEvent>)
        ensures
            final(self).count() == ai_stream_step(old(self).count(), data@).0,
            events_view(r@) == ai_stream_step(old(self).count(), data@).1,
    {
        let mut out: Vec<StreamEvent> = Vec::new();
        let j = match parse_json(data) {
            Ok(j) => j,
            Err(e) => {
                out.push(StreamEvent::Error { message: e });
                assert(events_view(out@) =~= ai_stream_step(old(self).count(), data@).1);
                return out;
            },
        };
        let c0 = self.calls;
        assert(events_view(out@) =~= Seq::<StreamEventV>::empty());
        let cand = crate::json::at(field(Some(&j), "candidates"), 0);
        match as_array(field(field(cand, "content"), "parts")) {
            Some(ps) => {
                let ghost pv = jviews(ps@);
                let mut i: usize = 0;
                while i < ps.len()
                    invariant
                        i <= ps@.len(),
                        pv == jviews(ps@),
                        pv.len() == ps@.len(),
                        (self.calls, events_view(out@)) == stream_parts_upto(c0, pv, i as nat),
                    decreases ps@.len() - i,
                {
                    let p = Some(&ps[i]);
                    let ghost before = events_view(out@);
                    let ghost count_before = self.calls;
                    match as_str(field(p, "text")) {
                        Some(t) => if !t.as_str().is_empty() {
                            out.push(StreamEvent::TextDelta(t.clone()));
                        },
                        None => {},
                    }
                    match get(p, "functionCall") {
                        Some(call) => {
                            let id = match as_str(field(Some(call), "id")) {
                                Some(x) => x.clone(),
                                None => crate::openai_api::tagged_id("call_", self.calls as u128),
                            };
                            self.calls = if self.calls == usize::MAX { 0 } else { self.calls + 1 };
                            out.push(StreamEvent::ToolCallStarted { id: id.clone(), name: text_or(field(Some(call), "name"), "") });
                            out.push(StreamEvent::ToolCallDelta { id, arguments_chunk: to_text(&copy_or_null(field(Some(call), "args"))) });
                            out.push(StreamEvent::ToolCallFinished);
                        },
                        None => {},
                    }
                    assert(events_view(out@) =~= before + stream_part_step(count_before, pv[i as int]).1);
                    i = i + 1;
                }
            },
            None => {},
        }
        match get(Some(&j), "usageMetadata") {
            Some(u) => out.push(StreamEvent::Usage(read_usage(u))),
            None => {},
        }
        assert(events_view(out@) =~= ai_stream_step(old(self).count(), data@).1);
        out
    }
}

/// A plain turn: a user or assistant message with text and no tool calls.
pub open spec fn is_plain_turn(m: MessageV) -> bool {
    &&& (m.role == Role::User || m.role == Role::Assistant)
    &&& message_text(m).len() > 0
    &&& m.tool_calls.len() == 0
}

/// A turn as a Gemini request gives it back: its role, and its whole text as
/// one part.
pub open spec fn plain_message(m: MessageV) -> MessageV {
    MessageV { role: m.role, content: seq![message_text(m)], tool_calls: Seq::empty(), tool_call_id: None }
}

/// What a Gemini request made of the body of a request reads back as: the
/// same request for `model`, its turns as `plain_message` gives them.
pub open spec fn read_back(r: ChatRequestV, model: Seq<char>, stream: bool) -> ChatRequestV {
    ChatRequestV {
        model: Some(normalized_model(model)),
        messages: r.messages.map_values(|m: MessageV| plain_message(m)),
        stream,
        ..r
    }
}

proof fn lemma_key_texts()
    ensures
        "contents"@.len() == 8,
        "systemInstruction"@.len() == 17,
        "system_instruction"@.len() == 18,
        "tools"@.len() == 5,
        "toolConfig"@.len() == 10,
        "tool_config"@.len() == 11,
        "generationConfig"@.len() == 16,
        "maxOutputTokens"@.len() == 15,
        "temperature"@.len() == 11,
        "topP"@.len() == 4,
        "thinkingConfig"@.len() == 14,
        "thinkingLevel"@.len() == 13,
        "thinkingBudget"@.len() == 14,
        "functionCallingConfig"@.len() == 21,
        "mode"@.len() == 4,
        "allowedFunctionNames"@.len() == 20,
        "allowed_function_names"@.len() == 22,
        "functionDeclarations"@.len() == 20,
        "name"@.len() == 4,
        "description"@.len() == 11,
        "parameters"@.len() == 10,
        "role"@.len() == 4,
        "parts"@.len() == 5,
        "text"@.len() == 4,
        "functionCall"@.len() == 12,
        "function_call"@.len() == 13,
        "functionResponse"@.len() == 16,
        "function_response"@.len() == 17,
        "user"@.len() == 4,
        "model"@.len() == 5,
        "AUTO"@.len() == 4 && "AUTO"@[0] == 'A',
        "NONE"@.len() == 4 && "NONE"@[0] == 'N',
        "ANY"@.len() == 3,
        "VALIDATED"@.len() == 9,
        "LOW"@.len() == 3,
        "MEDIUM"@.len() == 6,
        "HIGH"@.len() == 4,
{
    reveal_strlit("contents");
    reveal_strlit("systemInstruction");
    reveal_strlit("system_instruction");
    reveal_strlit("tools");
    reveal_strlit("toolConfig");
    reveal_strlit("tool_config");
    reveal_strlit("generationConfig");
    reveal_strlit("maxOutputTokens");
    reveal_strlit("temperature");
    reveal_strlit("topP");
    reveal_strlit("thinkingConfig");
    reveal_strlit("thinkingLevel");
    reveal_strlit("thinkingBudget");
    reveal_strlit("functionCallingConfig");
    reveal_strlit("mode");
    reveal_strlit("allowedFunctionNames");
    reveal_strlit("allowed_function_names");
    reveal_strlit("functionDeclarations");
    reveal_strlit("name");
    reveal_strlit("description");
    reveal_strlit("parameters");
    reveal_strlit("role");
    reveal_strlit("parts");
    reveal_strlit("text");
    reveal_strlit("functionCall");
    reveal_strlit("function_call");
    reveal_strlit("functionResponse");
    reveal_strlit("function_response");
    reveal_strlit("user");
    reveal_strlit("model");
    reveal_strlit("AUTO");
    reveal_strlit("NONE");
    reveal_strlit("ANY");
    reveal_strlit("VALIDATED");
    reveal_strlit("LOW");
    reveal_strlit("MEDIUM");
    reveal_strlit("HIGH");
}

proof fn lemma_empty_members()
    ensures
        forall|k: Seq<char>| #[trigger] member_from(Seq::<(Seq<char>, JsonV)>::empty(), k, 0) is None,
{
}

/// The role word of a plain turn in a Gemini content.
pub open spec fn turn_role(m: MessageV) -> Seq<char> {
    if m.role == Role::Assistant { "model"@ } else { "user"@ }
}

proof fn lemma_turn_content(m: MessageV)
    requires
        is_plain_turn(m),
    ensures
        turn_content(m) == jobj2("role"@, JsonV::Str(turn_role(m)), "parts"@,
            jarr1(jobj1("text"@, JsonV::Str(message_text(m))))),
{
    let text = message_text(m);
    let head: Seq<JsonV> = seq![jobj1("text"@, JsonV::Str(text))];
    assert(m.tool_calls =~= Seq::<ToolCallV>::empty());
    assert(head + m.tool_calls.map_values(|c: ToolCallV| function_call_json(c, parsed_json(c.arguments))) =~= head);
    assert(head =~= Seq::empty().push(jobj1("text"@, JsonV::Str(text))));
}

proof fn lemma_no_system(ms: Seq<MessageV>, n: nat)
    requires
        n <= ms.len(),
        forall|i: int| 0 <= i < ms.len() ==> is_plain_turn(#[trigger] ms[i]),
    ensures
        system_upto(ms, n) == Seq::<char>::empty(),
    decreases n,
{
    if n > 0 {
        lemma_no_system(ms, (n - 1) as nat);
        assert(is_plain_turn(ms[n - 1]));
    }
}

proof fn lemma_plain_contents(ms: Seq<MessageV>, calls: Seq<(Seq<char>, Seq<char>)>, n: nat)
    requires
        n <= ms.len(),
        forall|i: int| 0 <= i < ms.len() ==> is_plain_turn(#[trigger] ms[i]),
    ensures
        contents_upto(ms, calls, n) =~= ms.take(n as int).map_values(|m: MessageV| turn_content(m)),
    decreases n,
{
    if n > 0 {
        lemma_plain_contents(ms, calls, (n - 1) as nat);
        assert(is_plain_turn(ms[n - 1]));
        assert(ms.take(n as int).map_values(|m: MessageV| turn_content(m))
            =~= ms.take(n - 1).map_values(|m: MessageV| turn_content(m)).push(turn_content(ms[n - 1])));
    }
}

proof fn lemma_read_turn(st: ContentsV, m: MessageV)
    requires
        is_plain_turn(m),
    ensures
        content_step(st, turn_content(m))
            == Some(ContentsV { messages: st.messages.push(plain_message(m)), calls: st.calls }),
{
    lemma_key_texts();
    lemma_empty_members();
    lemma_turn_content(m);
    let text = message_text(m);
    let part = jobj1("text"@, JsonV::Str(text));
    let role_m: (Seq<char>, JsonV) = ("role"@, JsonV::Str(turn_role(m)));
    let parts_m: (Seq<char>, JsonV) = ("parts"@, jarr1(part));
    lemma_member_push(Seq::empty(), role_m);
    lemma_member_push(Seq::empty().push(role_m), parts_m);
    lemma_member_push(Seq::empty(), ("text"@, JsonV::Str(text)));
    let c = turn_content(m);
    assert(jarray(jfield(c, "parts"@)) == Some(seq![part]));
    let role = if jstr(jfield(c, "role"@)) == Some("model"@) { Role::Assistant } else { Role::User };
    assert(role == m.role);
    let start = crate::gemini_api::PartsV {
        message: MessageV { role, content: Seq::empty(), tool_calls: Seq::empty(), tool_call_id: None },
        calls: st.calls,
    };
    let parts = seq![part];
    let done = crate::gemini_api::parts_state(start, parts, st.messages.len(), 1);
    assert(crate::gemini_api::parts_state(start, parts, st.messages.len(), 0) == start);
    assert(jstr(jfield(part, "text"@)) == Some(text));
    assert(crate::gemini_api::either_member(part, "functionCall"@, "function_call"@) is None);
    assert(crate::gemini_api::either_member(part, "functionResponse"@, "function_response"@) is None);
    assert(done.message =~= plain_message(m));
    assert(done.calls == st.calls);
}

proof fn lemma_read_turns(start: ContentsV, cs: Seq<JsonV>, ms: Seq<MessageV>, n: nat)
    requires
        n <= ms.len(),
        cs == ms.map_values(|m: MessageV| turn_content(m)),
        forall|i: int| 0 <= i < ms.len() ==> is_plain_turn(#[trigger] ms[i]),
    ensures
        contents_state(start, cs, n) == Some(ContentsV {
            messages: start.messages + ms.take(n as int).map_values(|m: MessageV| plain_message(m)),
            calls: start.calls,
        }),
    decreases n,
{
    if n == 0 {
        assert(start.messages + ms.take(0).map_values(|m: MessageV| plain_message(m)) =~= start.messages);
    } else {
        lemma_read_turns(start, cs, ms, (n - 1) as nat);
        let before = ContentsV {
            messages: start.messages + ms.take(n - 1).map_values(|m: MessageV| plain_message(m)),
            calls: start.calls,
        };
        assert(is_plain_turn(ms[n - 1]));
        lemma_read_turn(before, ms[n - 1]);
        assert(cs[n - 1] == turn_content(ms[n - 1]));
        assert(before.messages.push(plain_message(ms[n - 1]))
            =~= start.messages + ms.take(n as int).map_values(|m: MessageV| plain_message(m)));
    }
}

proof fn lemma_read_tools(ts: Seq<ToolV>)
    ensures
        declared_tools(seq![jobj1("functionDeclarations"@, JsonV::Array(ts.map_values(|t: ToolV| declaration_json(t))))], 1)
            == ts,
{
    lemma_key_texts();
    lemma_empty_members();
    let decls = ts.map_values(|t: ToolV| declaration_json(t));
    let tool = jobj1("functionDeclarations"@, JsonV::Array(decls));
    lemma_member_push(Seq::empty(), ("functionDeclarations"@, JsonV::Array(decls)));
    assert(crate::gemini_api::declarations(tool) == decls);
    assert(declared_tools(seq![tool], 0) == Seq::<ToolV>::empty());
    assert forall|i: int| 0 <= i < ts.len() implies gemini_tool(#[trigger] decls[i]) == ts[i] by {
        let t = ts[i];
        let m0 = Seq::<(Seq<char>, JsonV)>::empty().push(("name"@, JsonV::Str(t.name)));
        let m1 = m0.push(("description"@, jopt_str(t.description)));
        lemma_member_push(Seq::empty(), ("name"@, JsonV::Str(t.name)));
        lemma_member_push(m0, ("description"@, jopt_str(t.description)));
        lemma_member_push(m1, ("parameters"@, t.parameters));
        assert(jstr(jopt_str(t.description)) == t.description);
    }
    assert(Seq::<ToolV>::empty() + decls.map_values(|f: JsonV| gemini_tool(f)) =~= ts);
}

proof fn lemma_read_choice(c: ToolChoiceV)
    ensures
        config_choice(calling_config_json(c)) == c,
{
    lemma_key_texts();
    lemma_empty_members();
    let mode_m: (Seq<char>, JsonV) = match c {
        ToolChoiceV::Auto => ("mode"@, JsonV::Str("AUTO"@)),
        ToolChoiceV::Disabled => ("mode"@, JsonV::Str("NONE"@)),
        _ => ("mode"@, JsonV::Str("ANY"@)),
    };
    lemma_member_push(Seq::empty(), mode_m);
    if let ToolChoiceV::Tool(n) = c {
        lemma_member_push(Seq::empty().push(mode_m), ("allowedFunctionNames"@, jarr1(JsonV::Str(n))));
    }
}

proof fn lemma_read_count(n: u32)
    ensures
        to_u32(ju64(juint(n as nat))) == Some(n),
{
    crate::text::lemma_decimal_reads_back(n as nat);
}

proof fn lemma_read_generation(r: ChatRequestV)
    requires
        r.thinking_budget_tokens is None,
    ensures ({
        let g = generation_members(r);
        let gen = if g.len() > 0 { JsonV::Object(g) } else { JsonV::Null };
        let thinking = jfield(gen, "thinkingConfig"@);
        &&& to_u32(ju64(jfield(gen, "maxOutputTokens"@))) == r.max_tokens
        &&& jnumber(jfield(gen, "temperature"@)) == r.temperature
        &&& jnumber(jfield(gen, "topP"@)) == r.top_p
        &&& thinking_level(thinking) == r.reasoning_effort
        &&& to_u32(ju64(jfield(thinking, "thinkingBudget"@))) == r.thinking_budget_tokens
    }),
{
    lemma_key_texts();
    lemma_empty_members();
    let g0: Seq<(Seq<char>, JsonV)> = Seq::empty();
    let g1 = match r.max_tokens { Some(n) => g0.push(("maxOutputTokens"@, juint(n as nat))), None => g0 };
    let g2 = match r.temperature { Some(t) => g1.push(("temperature"@, JsonV::Number(t))), None => g1 };
    let g3 = match r.top_p { Some(t) => g2.push(("topP"@, JsonV::Number(t))), None => g2 };
    if let Some(n) = r.max_tokens {
        lemma_member_push(g0, ("maxOutputTokens"@, juint(n as nat)));
        lemma_read_count(n);
    }
    if let Some(t) = r.temperature {
        lemma_member_push(g1, ("temperature"@, JsonV::Number(t)));
    }
    if let Some(t) = r.top_p {
        lemma_member_push(g2, ("topP"@, JsonV::Number(t)));
    }
    if let Some(e) = r.reasoning_effort {
        let level = jobj1("thinkingLevel"@, JsonV::Str(level_text(e)));
        lemma_member_push(g3, ("thinkingConfig"@, level));
        lemma_member_push(Seq::empty(), ("thinkingLevel"@, JsonV::Str(level_text(e))));
    }
}

proof fn lemma_no_calls(ms: Seq<MessageV>, n: nat)
    requires
        n <= ms.len(),
        forall|i: int| 0 <= i < ms.len() ==> is_plain_turn(#[trigger] ms[i]),
    ensures
        call_names_upto(ms, n) == Seq::<(Seq<char>, Seq<char>)>::empty(),
    decreases n,
{
    if n > 0 {
        lemma_no_calls(ms, (n - 1) as nat);
        assert(is_plain_turn(ms[n - 1]));
        assert(ms[n - 1].tool_calls.map_values(|c: ToolCallV| (c.id, c.name)) =~= Seq::<(Seq<char>, Seq<char>)>::empty());
        assert(Seq::<(Seq<char>, Seq<char>)>::empty() + Seq::<(Seq<char>, Seq<char>)>::empty()
            =~= Seq::<(Seq<char>, Seq<char>)>::empty());
    }
}

/// The Gemini reading of a request undoes the body built for it: a request of
/// plain user and assistant turns and no thinking budget comes back with the
/// same tools, tool choice, reasoning effort, token limit, temperature and
/// `top_p`, and the same roles and texts of its turns, in order.
pub proof fn law_gemini_reads_back_body(r: ChatRequestV, model: Seq<char>, stream: bool)
    requires
        forall|i: int| 0 <= i < r.messages.len() ==> is_plain_turn(#[trigger] r.messages[i]),
        r.thinking_budget_tokens is None,
    ensures
        gemini_request(model, ai_studio_body(r), stream) == Ok::<ChatRequestV, Seq<char>>(read_back(r, model, stream)),
        forall|i: int| 0 <= i < r.messages.len() ==> {
            &&& (#[trigger] read_back(r, model, stream).messages[i]).role == r.messages[i].role
            &&& message_text(read_back(r, model, stream).messages[i]) == message_text(r.messages[i])
        },
{
    lemma_key_texts();
    lemma_empty_members();
    let ms = r.messages;
    let calls = call_names_upto(ms, ms.len());
    lemma_plain_contents(ms, calls, ms.len());
    lemma_no_system(ms, ms.len());
    assert(ms.take(ms.len() as int) =~= ms);
    let contents = contents_upto(ms, calls, ms.len());
    let b0: Seq<(Seq<char>, JsonV)> = Seq::empty().push(("contents"@, JsonV::Array(contents)));
    lemma_member_push(Seq::empty(), ("contents"@, JsonV::Array(contents)));
    let tools_m: (Seq<char>, JsonV) = ("tools"@, jarr1(jobj1("functionDeclarations"@,
        JsonV::Array(r.tools.map_values(|t: ToolV| declaration_json(t))))));
    let b2 = if r.tools.len() > 0 { b0.push(tools_m) } else { b0 };
    if r.tools.len() > 0 {
        lemma_member_push(b0, tools_m);
        lemma_read_tools(r.tools);
        assert(seq![jobj1("functionDeclarations"@, JsonV::Array(r.tools.map_values(|t: ToolV| declaration_json(t))))]
            =~= Seq::empty().push(jobj1("functionDeclarations"@, JsonV::Array(r.tools.map_values(|t: ToolV| declaration_json(t))))));
    } else {
        assert(r.tools =~= Seq::<ToolV>::empty());
    }
    let b3 = match r.tool_choice {
        Some(c) => b2.push(("toolConfig"@, jobj1("functionCallingConfig"@, calling_config_json(c)))),
        None => b2,
    };
    if let Some(c) = r.tool_choice {
        lemma_member_push(b2, ("toolConfig"@, jobj1("functionCallingConfig"@, calling_config_json(c))));
        lemma_member_push(Seq::empty(), ("functionCallingConfig"@, calling_config_json(c)));
        lemma_read_choice(c);
    }
    let g = generation_members(r);
    if g.len() > 0 {
        lemma_member_push(b3, ("generationConfig"@, JsonV::Object(g)));
    }
    let b = ai_studio_body(r);
    assert(b == JsonV::Object(if g.len() > 0 { b3.push(("generationConfig"@, JsonV::Object(g))) } else { b3 }));
    lemma_read_generation(r);
    assert(gemini_system(b) == Seq::<MessageV>::empty());
    let start = ContentsV { messages: Seq::empty(), calls: Seq::empty() };
    lemma_read_turns(start, contents, ms, ms.len());
    assert(Seq::<MessageV>::empty() + ms.take(ms.len() as int).map_values(|m: MessageV| plain_message(m))
        =~= ms.map_values(|m: MessageV| plain_message(m)));
    assert(gemini_request(model, b, stream) == Ok::<ChatRequestV, Seq<char>>(read_back(r, model, stream)));
    assert forall|i: int| 0 <= i < r.messages.len() implies {
        &&& (#[trigger] read_back(r, model, stream).messages[i]).role == r.messages[i].role
        &&& message_text(read_back(r, model, stream).messages[i]) == message_text(r.messages[i])
    } by {
        let t = message_text(r.messages[i]);
        let one: Seq<Seq<char>> = seq![t];
        assert(one.drop_last() =~= Seq::<Seq<char>>::empty());
        assert(Seq::<char>::empty() + t =~= t);
        assert(one.fold_left(Seq::<char>::empty(), |acc: Seq<char>, p: Seq<char>| acc + p)
            == Seq::<Seq<char>>::empty().fold_left(Seq::<char>::empty(), |acc: Seq<char>, p: Seq<char>| acc + p) + t);
    }
}

} // verus!
