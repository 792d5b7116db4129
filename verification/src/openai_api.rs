use vstd::prelude::*;
use crate::chat::{
    ChatRequest, ChatRequestV, ChatResponse, ChatResponseV, ContentPart, EmbeddingRequest, EmbeddingResponse,
    FinishReason, Message, Usage, message_text, text_of, vectors_view, MessageV, ReasoningEffort, Role, Tool, ToolCall,
    ToolCallV, ToolChoice, ToolChoiceV, ToolV, choice_view, EventData, StreamEvent, StreamEventV, data_view, item_view,
    opt_view,
};
use crate::json::{
    Json, JsonV, as_array, as_bool, as_str, as_u64, copy_or_null, field, get, jarray, jbool, jfield,
    jget, jnumber, jstr, ju64, jview, jviews, ojv, opt_number, opt_text, opt_u32, str_or, text_or, to_u32,
    ArrayBuilder, ObjectBuilder, jcount, jstr_of, jstring, juint, juint_of, single, jobj1, jobj2, jarr1, object1,
    object2,
};
use crate::text::{decimal, decimal_string, str_eq};
use crate::providers::{ModelInfo, ModelInfoV, models_view};

verus! {

/// The role that an OpenAI-style `role` text names; anything else is a user.
pub open spec fn role_named(r: Option<Seq<char>>) -> Role {
    match r {
        Some(s) => if s == "system"@ {
            Role::System
        } else if s == "assistant"@ {
            Role::Assistant
        } else if s == "tool"@ {
            Role::Tool
        } else {
            Role::User
        },
        None => Role::User,
    }
}

/// A string member, or the empty text.
pub open spec fn text_field(v: JsonV, k: Seq<char>) -> Seq<char> {
    str_or(jstr(jfield(v, k)), ""@)
}

/// A tool call in the OpenAI wire format.
pub open spec fn openai_call(c: JsonV) -> ToolCallV {
    ToolCallV {
        id: text_field(c, "id"@),
        name: text_field(jfield(c, "function"@), "name"@),
        arguments: text_field(jfield(c, "function"@), "arguments"@),
    }
}

/// The tool calls of an OpenAI `tool_calls` array; none unless it is an array.
pub open spec fn openai_calls(v: JsonV) -> Seq<ToolCallV> {
    match jarray(v) {
        Some(cs) => cs.map_values(|c: JsonV| openai_call(c)),
        None => Seq::empty(),
    }
}

/// The text of a `content` member that is a string, as a one-part content.
pub open spec fn string_content(v: JsonV) -> Seq<Seq<char>> {
    match jget(v, "content"@) {
        Some(JsonV::Str(t)) => seq![t],
        _ => Seq::empty(),
    }
}

/// A chat message in the OpenAI wire format.
pub open spec fn openai_message(v: JsonV) -> MessageV {
    MessageV {
        role: role_named(jstr(jfield(v, "role"@))),
        content: string_content(v),
        tool_calls: openai_calls(jfield(v, "tool_calls"@)),
        tool_call_id: jstr(jfield(v, "tool_call_id"@)),
    }
}

/// A tool in the OpenAI wire format.
pub open spec fn openai_tool(v: JsonV) -> ToolV {
    ToolV {
        name: text_field(jfield(v, "function"@), "name"@),
        description: jstr(jfield(jfield(v, "function"@), "description"@)),
        parameters: jfield(jfield(v, "function"@), "parameters"@),
    }
}

/// An OpenAI `tool_choice`: a mode string, or an object naming a function.
pub open spec fn openai_tool_choice(v: Option<JsonV>) -> Option<ToolChoiceV> {
    match v {
        Some(JsonV::Str(s)) => if s == "auto"@ {
            Some(ToolChoiceV::Auto)
        } else if s == "none"@ {
            Some(ToolChoiceV::Disabled)
        } else if s == "required"@ {
            Some(ToolChoiceV::Required)
        } else {
            None
        },
        Some(JsonV::Object(m)) => Some(ToolChoiceV::Tool(text_field(jfield(JsonV::Object(m), "function"@), "name"@))),
        _ => None,
    }
}

/// `max_tokens`, else `max_completion_tokens`, cut down to 32 bits.
pub open spec fn max_tokens_of(p: JsonV) -> Option<u32> {
    to_u32(match ju64(jfield(p, "max_tokens"@)) {
        Some(v) => Some(v),
        None => ju64(jfield(p, "max_completion_tokens"@)),
    })
}

/// The effort that a `low`, `medium` or `high` text names.
pub open spec fn effort_named(s: Seq<char>) -> Option<ReasoningEffort> {
    if s == "low"@ {
        Some(ReasoningEffort::Low)
    } else if s == "medium"@ {
        Some(ReasoningEffort::Medium)
    } else if s == "high"@ {
        Some(ReasoningEffort::High)
    } else {
        None
    }
}

/// `reasoning_effort`, else `reasoning.effort`.
pub open spec fn effort_of(p: JsonV) -> Option<ReasoningEffort> {
    match jstr(jfield(p, "reasoning_effort"@)) {
        Some(s) => effort_named(s),
        None => match jstr(jfield(jfield(p, "reasoning"@), "effort"@)) {
            Some(s) => effort_named(s),
            None => None,
        },
    }
}

/// Whether the request asks for a stream.
pub open spec fn stream_flag(p: JsonV) -> bool {
    match jbool(jfield(p, "stream"@)) {
        Some(b) => b,
        None => false,
    }
}

/// The thinking budget of an Anthropic-style `thinking` member.
pub open spec fn thinking_budget(p: JsonV) -> Option<u32> {
    to_u32(ju64(jfield(jfield(p, "thinking"@), "budget_tokens"@)))
}

/// An OpenAI chat completions request, translated.
pub open spec fn chat_request(p: JsonV, model: Seq<char>) -> Result<ChatRequestV, Seq<char>> {
    match jarray(jfield(p, "messages"@)) {
        None => Err("messages missing"@),
        Some(ms) => Ok(ChatRequestV {
            model: Some(model),
            messages: ms.map_values(|m: JsonV| openai_message(m)),
            tools: match jarray(jfield(p, "tools"@)) {
                Some(ts) => ts.map_values(|t: JsonV| openai_tool(t)),
                None => Seq::empty(),
            },
            tool_choice: openai_tool_choice(jget(p, "tool_choice"@)),
            stream: stream_flag(p),
            max_tokens: max_tokens_of(p),
            temperature: jnumber(jfield(p, "temperature"@)),
            top_p: jnumber(jfield(p, "top_p"@)),
            reasoning_effort: effort_of(p),
            thinking_budget_tokens: thinking_budget(p),
        }),
    }
}

/// The role that a `role` text names.
pub fn role_of(o: Option<&Json>) -> (r: Role)
    ensures
        r == role_named(jstr(ojv(o))),
{
    match as_str(o) {
        Some(s) => if str_eq(s.as_str(), "system") {
            Role::System
        } else if str_eq(s.as_str(), "assistant") {
            Role::Assistant
        } else if str_eq(s.as_str(), "tool") {
            Role::Tool
        } else {
            Role::User
        },
        None => Role::User,
    }
}

/// A one-part content with the text `t`.
pub fn text_content(t: String) -> (r: Vec<ContentPart>)
    ensures
        r@.map_values(|p: ContentPart| p@) == seq![t@],
{
    let r = vec![ContentPart::Text { text: t }];
    assert(r@.map_values(|p: ContentPart| p@) =~= seq![t@]);
    r
}

/// No content.
pub fn no_content() -> (r: Vec<ContentPart>)
    ensures
        r@.map_values(|p: ContentPart| p@) == Seq::<Seq<char>>::empty(),
{
    let r: Vec<ContentPart> = Vec::new();
    assert(r@.map_values(|p: ContentPart| p@) =~= Seq::<Seq<char>>::empty());
    r
}

/// No tool calls.
pub fn no_calls() -> (r: Vec<ToolCall>)
    ensures
        r@.map_values(|c: ToolCall| c@) == Seq::<ToolCallV>::empty(),
{
    let r: Vec<ToolCall> = Vec::new();
    assert(r@.map_values(|c: ToolCall| c@) =~= Seq::<ToolCallV>::empty());
    r
}

/// Appends a tool call.
pub fn push_call(calls: &mut Vec<ToolCall>, c: ToolCall)
    ensures
        final(calls)@.map_values(|x: ToolCall| x@) == old(calls)@.map_values(|x: ToolCall| x@).push(c@),
{
    calls.push(c);
    assert(final(calls)@.map_values(|x: ToolCall| x@) =~= old(calls)@.map_values(|x: ToolCall| x@).push(c@));
}

/// Appends a content part with the text `t`.
pub fn push_text(content: &mut Vec<ContentPart>, t: String)
    ensures
        final(content)@.map_values(|p: ContentPart| p@) == old(content)@.map_values(|p: ContentPart| p@).push(t@),
{
    content.push(ContentPart::Text { text: t });
    assert(final(content)@.map_values(|p: ContentPart| p@)
        =~= old(content)@.map_values(|p: ContentPart| p@).push(t@));
}

/// A tool call in the OpenAI wire format.
pub fn parse_openai_call(c: &Json) -> (r: ToolCall)
    ensures
        r@ == openai_call(jview(*c)),
{
    let f = field(Some(c), "function");
    ToolCall {
        id: text_or(field(Some(c), "id"), ""),
        name: text_or(field(f, "name"), ""),
        arguments: text_or(field(f, "arguments"), ""),
    }
}

/// The tool calls of an OpenAI `tool_calls` array.
pub fn parse_openai_calls(o: Option<&Json>) -> (r: Vec<ToolCall>)
    ensures
        r@.map_values(|c: ToolCall| c@) == openai_calls(ojv(o)),
{
    match as_array(o) {
        Some(cs) => {
            let ghost items = jviews(cs@);
            let mut out = no_calls();
            let mut i: usize = 0;
            while i < cs.len()
                invariant
                    i <= cs@.len(),
                    items == jviews(cs@),
                    out@.map_values(|c: ToolCall| c@) == items.take(i as int).map_values(|c: JsonV| openai_call(c)),
                decreases cs@.len() - i,
            {
                let call = parse_openai_call(&cs[i]);
                push_call(&mut out, call);
                assert(items.take(i + 1).map_values(|c: JsonV| openai_call(c))
                    =~= items.take(i as int).map_values(|c: JsonV| openai_call(c)).push(openai_call(items[i as int])));
                i = i + 1;
            }
            assert(items.take(cs@.len() as int) =~= items);
            out
        },
        None => no_calls(),
    }
}

/// A chat message in the OpenAI wire format.
pub fn parse_openai_message(v: &Json) -> (r: Message)
    ensures
        r@ == openai_message(jview(*v)),
{
    let content = match get(Some(v), "content") {
        Some(Json::Str(t)) => text_content(t.clone()),
        _ => no_content(),
    };
    let m = Message {
        role: role_of(field(Some(v), "role")),
        content,
        tool_calls: parse_openai_calls(field(Some(v), "tool_calls")),
        tool_call_id: opt_text(field(Some(v), "tool_call_id")),
    };
    assert(m@ =~= openai_message(jview(*v)));
    m
}

/// A tool in the OpenAI wire format.
pub fn parse_openai_tool(v: &Json) -> (r: Tool)
    ensures
        r@ == openai_tool(jview(*v)),
{
    let f = field(Some(v), "function");
    Tool {
        name: text_or(field(f, "name"), ""),
        description: opt_text(field(f, "description")),
        parameters: copy_or_null(field(f, "parameters")),
    }
}

/// An OpenAI `tool_choice`.
pub fn parse_tool_choice(o: Option<&Json>) -> (r: Option<ToolChoice>)
    ensures
        choice_view(r) == openai_tool_choice(match o { Some(j) => Some(jview(*j)), None => None }),
{
    match o {
        Some(Json::Str(s)) => {
            if str_eq(s.as_str(), "auto") {
                Some(ToolChoice::Auto)
            } else if str_eq(s.as_str(), "none") {
                Some(ToolChoice::Disabled)
            } else if str_eq(s.as_str(), "required") {
                Some(ToolChoice::Required)
            } else {
                None
            }
        },
        Some(Json::Object(_)) => {
            Some(ToolChoice::Tool(text_or(field(field(o, "function"), "name"), "")))
        },
        _ => None,
    }
}

/// `max_tokens`, else `max_completion_tokens`.
pub fn parse_max_tokens(p: &Json) -> (r: Option<u32>)
    ensures
        r == max_tokens_of(jview(*p)),
{
    let v = match as_u64(field(Some(p), "max_tokens")) {
        Some(v) => Some(v),
        None => as_u64(field(Some(p), "max_completion_tokens")),
    };
    match v {
        Some(n) => Some(n as u32),
        None => None,
    }
}

/// The effort that a text names.
pub fn effort_from(s: &str) -> (r: Option<ReasoningEffort>)
    ensures
        r == effort_named(s@),
{
    if str_eq(s, "low") {
        Some(ReasoningEffort::Low)
    } else if str_eq(s, "medium") {
        Some(ReasoningEffort::Medium)
    } else if str_eq(s, "high") {
        Some(ReasoningEffort::High)
    } else {
        None
    }
}

/// `reasoning_effort`, else `reasoning.effort`.
pub fn parse_reasoning_effort(p: &Json) -> (r: Option<ReasoningEffort>)
    ensures
        r == effort_of(jview(*p)),
{
    match as_str(field(Some(p), "reasoning_effort")) {
        Some(s) => effort_from(s.as_str()),
        None => match as_str(field(field(Some(p), "reasoning"), "effort")) {
            Some(s) => effort_from(s.as_str()),
            None => None,
        },
    }
}

/// Whether the request asks for a stream.
pub fn parse_stream_flag(p: &Json) -> (r: bool)
    ensures
        r == stream_flag(jview(*p)),
{
    match as_bool(field(Some(p), "stream")) {
        Some(b) => b,
        None => false,
    }
}

/// The thinking budget of a `thinking` member.
pub fn parse_thinking_budget(p: &Json) -> (r: Option<u32>)
    ensures
        r == thinking_budget(jview(*p)),
{
    opt_u32(field(field(Some(p), "thinking"), "budget_tokens"))
}

/// The messages of an array, each in the OpenAI wire format.
fn parse_openai_messages(ms: &Vec<Json>) -> (r: Vec<Message>)
    ensures
        r@.map_values(|m: Message| m@) == jviews(ms@).map_values(|m: JsonV| openai_message(m)),
{
    let ghost items = jviews(ms@);
    let mut out: Vec<Message> = Vec::new();
    let mut i: usize = 0;
    while i < ms.len()
        invariant
            i <= ms@.len(),
            items == jviews(ms@),
            out@.map_values(|m: Message| m@) == items.take(i as int).map_values(|m: JsonV| openai_message(m)),
        decreases ms@.len() - i,
    {
        let m = parse_openai_message(&ms[i]);
        let ghost before = out@;
        out.push(m);
        assert(out@.map_values(|m: Message| m@) =~= before.map_values(|m: Message| m@).push(m@));
        assert(items.take(i + 1).map_values(|m: JsonV| openai_message(m))
            =~= items.take(i as int).map_values(|m: JsonV| openai_message(m)).push(openai_message(items[i as int])));
        i = i + 1;
    }
    assert(items.take(ms@.len() as int) =~= items);
    out
}

/// The tools of an array, each in the OpenAI wire format.
fn parse_openai_tools(o: Option<&Json>) -> (r: Vec<Tool>)
    ensures
        r@.map_values(|t: Tool| t@) == match jarray(ojv(o)) {
            Some(ts) => ts.map_values(|t: JsonV| openai_tool(t)),
            None => Seq::empty(),
        },
{
    match as_array(o) {
        Some(ts) => {
            let ghost items = jviews(ts@);
            let mut out: Vec<Tool> = Vec::new();
            let mut i: usize = 0;
            while i < ts.len()
                invariant
                    i <= ts@.len(),
                    items == jviews(ts@),
                    out@.map_values(|t: Tool| t@) == items.take(i as int).map_values(|t: JsonV| openai_tool(t)),
                decreases ts@.len() - i,
            {
                let t = parse_openai_tool(&ts[i]);
                let ghost before = out@;
                out.push(t);
                assert(out@.map_values(|t: Tool| t@) =~= before.map_values(|t: Tool| t@).push(t@));
                assert(items.take(i + 1).map_values(|t: JsonV| openai_tool(t))
                    =~= items.take(i as int).map_values(|t: JsonV| openai_tool(t)).push(openai_tool(items[i as int])));
                i = i + 1;
            }
            assert(items.take(ts@.len() as int) =~= items);
            out
        },
        None => {
            let out: Vec<Tool> = Vec::new();
            assert(out@.map_values(|t: Tool| t@) =~= Seq::<ToolV>::empty());
            out
        },
    }
}

/// Translates an OpenAI chat completions request for the model `model`.
pub fn to_internal_chat_request(payload: &Json, model: String) -> (r: Result<ChatRequest, String>)
    ensures
        match r {
            Ok(req) => chat_request(jview(*payload), model@) == Ok::<ChatRequestV, Seq<char>>(req@),
            Err(e) => chat_request(jview(*payload), model@) == Err::<ChatRequestV, Seq<char>>(e@),
        },
{
    let p = Some(payload);
    let ms = match as_array(field(p, "messages")) {
        Some(ms) => ms,
        None => return Err(String::from_str("messages missing")),
    };
    let req = ChatRequest {
        model: Some(model),
        messages: parse_openai_messages(ms),
        tools: parse_openai_tools(field(p, "tools")),
        tool_choice: parse_tool_choice(get(p, "tool_choice")),
        stream: parse_stream_flag(payload),
        max_tokens: parse_max_tokens(payload),
        temperature: opt_number(field(p, "temperature")),
        top_p: opt_number(field(p, "top_p")),
        reasoning_effort: parse_reasoning_effort(payload),
        thinking_budget_tokens: parse_thinking_budget(payload),
    };
    assert(req@ =~= chat_request(jview(*payload), model@)->Ok_0);
    Ok(req)
}

} // verus!

verus! {

/// The inputs of an OpenAI embeddings request: one string, or an array of strings.
pub open spec fn embedding_inputs(p: JsonV) -> Result<Seq<Seq<char>>, Seq<char>> {
    match jfield(p, "input"@) {
        JsonV::Str(t) => Ok(seq![t]),
        JsonV::Array(items) => if forall|i: int| 0 <= i < items.len() ==> (#[trigger] items[i]) is Str {
            Ok(items.map_values(|x: JsonV| jstr(x)->0))
        } else {
            Err("input array must contain strings"@)
        },
        _ => Err("input must be string or array of strings"@),
    }
}

/// Translates an OpenAI embeddings request for the model `model`.
pub fn to_internal_embedding_request(payload: &Json, model: String) -> (r: Result<EmbeddingRequest, String>)
    ensures
        match r {
            Ok(req) => embedding_inputs(jview(*payload)) == Ok::<Seq<Seq<char>>, Seq<char>>(req@.input)
                && req@.model == Some(model@),
            Err(e) => embedding_inputs(jview(*payload)) == Err::<Seq<Seq<char>>, Seq<char>>(e@),
        },
{
    let input = match field(Some(payload), "input") {
        Some(Json::Str(t)) => {
            let v = vec![t.clone()];
            assert(v@.map_values(|s: String| s@) =~= seq![t@]);
            v
        },
        Some(Json::Array(items)) => {
            let ghost vals = jviews(items@);
            let mut out: Vec<String> = Vec::new();
            let mut i: usize = 0;
            while i < items.len()
                invariant
                    i <= items@.len(),
                    vals == jviews(items@),
                    jfield(jview(*payload), "input"@) == JsonV::Array(vals),
                    forall|t: int| 0 <= t < i ==> (#[trigger] vals[t]) is Str,
                    out@.map_values(|s: String| s@) == vals.take(i as int).map_values(|x: JsonV| jstr(x)->0),
                decreases items@.len() - i,
            {
                match &items[i] {
                    Json::Str(t) => {
                        let ghost before = out@;
                        out.push(t.clone());
                        assert(out@.map_values(|s: String| s@) =~= before.map_values(|s: String| s@).push(t@));
                        assert(vals.take(i + 1).map_values(|x: JsonV| jstr(x)->0)
                            =~= vals.take(i as int).map_values(|x: JsonV| jstr(x)->0).push(t@));
                    },
                    _ => {
                        assert(!(vals[i as int] is Str));
                        assert(jfield(jview(*payload), "input"@) == JsonV::Array(vals));
                        return Err(String::from_str("input array must contain strings"));
                    },
                }
                i = i + 1;
            }
            assert(vals.take(items@.len() as int) =~= vals);
            out
        },
        _ => return Err(String::from_str("input must be string or array of strings")),
    };
    Ok(EmbeddingRequest { input, model: Some(model) })
}

/// The text of one part of a Responses API content array: its `text`, else its
/// `content`, else nothing.
pub open spec fn part_text(p: JsonV) -> Seq<char> {
    match jstr(jfield(p, "text"@)) {
        Some(s) => s,
        None => str_or(jstr(jfield(p, "content"@)), Seq::empty()),
    }
}

/// The concatenated texts of content parts.
pub open spec fn parts_text(parts: Seq<JsonV>) -> Seq<char> {
    parts.fold_left(Seq::<char>::empty(), |acc: Seq<char>, p: JsonV| acc + part_text(p))
}

/// An input item of the Responses API.
pub open spec fn responses_item(v: JsonV) -> MessageV {
    MessageV {
        role: role_named(jstr(jfield(v, "role"@))),
        content: match jfield(v, "content"@) {
            JsonV::Str(t) => seq![t],
            JsonV::Array(parts) => seq![parts_text(parts)],
            _ => Seq::empty(),
        },
        tool_calls: Seq::empty(),
        tool_call_id: None,
    }
}

/// A user message with the text `t`.
pub open spec fn user_text(t: Seq<char>) -> MessageV {
    MessageV { role: Role::User, content: seq![t], tool_calls: Seq::empty(), tool_call_id: None }
}

/// A Responses API request, translated.
pub open spec fn responses_request(p: JsonV, model: Seq<char>) -> Result<ChatRequestV, Seq<char>> {
    let messages = match jfield(p, "input"@) {
        JsonV::Str(t) => Some(seq![user_text(t)]),
        JsonV::Array(items) => Some(items.map_values(|i: JsonV| responses_item(i))),
        _ => None,
    };
    match messages {
        None => Err("input must be a string or array"@),
        Some(ms) => Ok(ChatRequestV {
            model: Some(model),
            messages: ms,
            tools: Seq::empty(),
            tool_choice: None,
            stream: stream_flag(p),
            max_tokens: match max_tokens_of(p) {
                Some(v) => Some(v),
                None => to_u32(ju64(jfield(p, "max_output_tokens"@))),
            },
            temperature: jnumber(jfield(p, "temperature"@)),
            top_p: jnumber(jfield(p, "top_p"@)),
            reasoning_effort: effort_of(p),
            thinking_budget_tokens: thinking_budget(p),
        }),
    }
}

/// The text of one content part.
fn parse_part_text(p: &Json) -> (r: String)
    ensures
        r@ == part_text(jview(*p)),
{
    match as_str(field(Some(p), "text")) {
        Some(s) => s.clone(),
        None => match as_str(field(Some(p), "content")) {
            Some(s) => s.clone(),
            None => String::new(),
        },
    }
}

/// An input item of the Responses API.
pub fn parse_responses_input_item(item: &Json) -> (r: Message)
    ensures
        r@ == responses_item(jview(*item)),
{
    let content = match field(Some(item), "content") {
        Some(Json::Str(t)) => text_content(t.clone()),
        Some(Json::Array(parts)) => {
            let ghost vals = jviews(parts@);
            let mut text = String::new();
            let mut i: usize = 0;
            while i < parts.len()
                invariant
                    i <= parts@.len(),
                    vals == jviews(parts@),
                    text@ == parts_text(vals.take(i as int)),
                decreases parts@.len() - i,
            {
                let piece = parse_part_text(&parts[i]);
                text.append(piece.as_str());
                proof {
                    let t = vals.take(i + 1);
                    assert(t.drop_last() =~= vals.take(i as int));
                    assert(t.last() == vals[i as int]);
                }
                i = i + 1;
            }
            assert(vals.take(parts@.len() as int) =~= vals);
            text_content(text)
        },
        _ => no_content(),
    };
    let m = Message { role: role_of(field(Some(item), "role")), content, tool_calls: no_calls(), tool_call_id: None };
    assert(m@ =~= responses_item(jview(*item)));
    m
}

/// Translates a Responses API request for the model `model`.
pub fn to_internal_responses_request(payload: &Json, model: String) -> (r: Result<ChatRequest, String>)
    ensures
        match r {
            Ok(req) => responses_request(jview(*payload), model@) == Ok::<ChatRequestV, Seq<char>>(req@),
            Err(e) => responses_request(jview(*payload), model@) == Err::<ChatRequestV, Seq<char>>(e@),
        },
{
    let p = Some(payload);
    let mut messages: Vec<Message> = Vec::new();
    match field(p, "input") {
        Some(Json::Str(t)) => {
            let m = Message { role: Role::User, content: text_content(t.clone()), tool_calls: no_calls(), tool_call_id: None };
            assert(m@ =~= user_text(t@));
            messages.push(m);
            assert(messages@.map_values(|m: Message| m@) =~= seq![user_text(t@)]);
        },
        Some(Json::Array(items)) => {
            let ghost vals = jviews(items@);
            let mut i: usize = 0;
            assert(messages@.map_values(|m: Message| m@) =~= vals.take(0).map_values(|i: JsonV| responses_item(i)));
            while i < items.len()
                invariant
                    i <= items@.len(),
                    vals == jviews(items@),
                    messages@.map_values(|m: Message| m@) == vals.take(i as int).map_values(|i: JsonV| responses_item(i)),
                decreases items@.len() - i,
            {
                let m = parse_responses_input_item(&items[i]);
                let ghost before = messages@;
                messages.push(m);
                assert(messages@.map_values(|m: Message| m@) =~= before.map_values(|m: Message| m@).push(m@));
                assert(vals.take(i + 1).map_values(|i: JsonV| responses_item(i))
                    =~= vals.take(i as int).map_values(|i: JsonV| responses_item(i)).push(responses_item(vals[i as int])));
                i = i + 1;
            }
            assert(vals.take(items@.len() as int) =~= vals);
        },
        _ => return Err(String::from_str("input must be a string or array")),
    }
    let max_tokens = match parse_max_tokens(payload) {
        Some(v) => Some(v),
        None => opt_u32(field(p, "max_output_tokens")),
    };
    let tools: Vec<Tool> = Vec::new();
    let req = ChatRequest {
        model: Some(model),
        messages,
        tools,
        tool_choice: None,
        stream: parse_stream_flag(payload),
        max_tokens,
        temperature: opt_number(field(p, "temperature")),
        top_p: opt_number(field(p, "top_p")),
        reasoning_effort: parse_reasoning_effort(payload),
        thinking_budget_tokens: parse_thinking_budget(payload),
    };
    assert(req@ =~= responses_request(jview(*payload), model@)->Ok_0);
    Ok(req)
}

} // verus!

verus! {

/// The OpenAI name of a finish reason; an unknown reason reads as `stop`.
pub open spec fn finish_text(r: FinishReason) -> Seq<char> {
    match r {
        FinishReason::Stop => "stop"@,
        FinishReason::Length => "length"@,
        FinishReason::ToolCalls => "tool_calls"@,
        FinishReason::ContentFilter => "content_filter"@,
        FinishReason::Error => "error"@,
        FinishReason::Unknown => "stop"@,
    }
}

/// The OpenAI name of a finish reason.
pub fn finish_reason_to_openai(r: &FinishReason) -> (s: &'static str)
    ensures
        s@ == finish_text(*r),
{
    match r {
        FinishReason::Stop => "stop",
        FinishReason::Length => "length",
        FinishReason::ToolCalls => "tool_calls",
        FinishReason::ContentFilter => "content_filter",
        FinishReason::Error => "error",
        FinishReason::Unknown => "stop",
    }
}

/// A tool call as an OpenAI `tool_calls` entry.
pub open spec fn call_json(c: ToolCallV) -> JsonV {
    JsonV::Object(Seq::empty()
        .push(("id"@, JsonV::Str(c.id)))
        .push(("type"@, JsonV::Str("function"@)))
        .push(("function"@, JsonV::Object(Seq::empty()
            .push(("name"@, JsonV::Str(c.name)))
            .push(("arguments"@, JsonV::Str(c.arguments)))))))
}

/// Token counts in OpenAI's names.
pub open spec fn usage_json(u: Option<Usage>) -> JsonV {
    match u {
        Some(u) => JsonV::Object(Seq::empty()
            .push(("prompt_tokens"@, juint(u.prompt_tokens as nat)))
            .push(("completion_tokens"@, juint(u.completion_tokens as nat)))
            .push(("total_tokens"@, juint(u.total_tokens as nat)))),
        None => JsonV::Null,
    }
}

/// A chat completion in the OpenAI wire format, made at `ms` / `secs`.
pub open spec fn chat_completion_json(r: ChatResponseV, model: Seq<char>, ms: nat, secs: nat) -> JsonV {
    let message = JsonV::Object(Seq::empty()
        .push(("role"@, JsonV::Str("assistant"@)))
        .push(("content"@, JsonV::Str(message_text(r.message))))
        .push(("tool_calls"@, JsonV::Array(r.message.tool_calls.map_values(|c: ToolCallV| call_json(c))))));
    let choice = JsonV::Object(Seq::empty()
        .push(("index"@, juint(0)))
        .push(("message"@, message))
        .push(("finish_reason"@, JsonV::Str(finish_text(r.finish_reason)))));
    JsonV::Object(Seq::empty()
        .push(("id"@, JsonV::Str("chatcmpl-"@ + decimal(ms))))
        .push(("object"@, JsonV::Str("chat.completion"@)))
        .push(("created"@, juint(secs)))
        .push(("model"@, JsonV::Str(model)))
        .push(("choices"@, JsonV::Array(Seq::empty().push(choice))))
        .push(("usage"@, usage_json(r.usage))))
}

/// A string that starts with `prefix` and ends with the decimal digits of `n`.
pub fn tagged_id(prefix: &str, n: u128) -> (r: String)
    ensures
        r@ == prefix@ + decimal(n as nat),
{
    let mut s = String::from_str(prefix);
    let digits = decimal_string(n);
    s.append(digits.as_str());
    s
}

/// A tool call as an OpenAI `tool_calls` entry.
pub fn call_to_json(c: &ToolCall) -> (r: Json)
    ensures
        jview(r) == call_json(c@),
{
    let function = ObjectBuilder::new()
        .with("name", jstring(c.name.clone()))
        .with("arguments", jstring(c.arguments.clone()))
        .build();
    ObjectBuilder::new()
        .with("id", jstring(c.id.clone()))
        .with("type", jstr_of("function"))
        .with("function", function)
        .build()
}

/// The tool calls of a message as an OpenAI `tool_calls` array.
pub fn calls_to_json(calls: &Vec<ToolCall>) -> (r: Json)
    ensures
        jview(r) == JsonV::Array(calls@.map_values(|c: ToolCall| c@).map_values(|c: ToolCallV| call_json(c))),
{
    let ghost vals = calls@.map_values(|c: ToolCall| c@);
    let mut b = ArrayBuilder::new();
    let mut i: usize = 0;
    while i < calls.len()
        invariant
            i <= calls@.len(),
            vals == calls@.map_values(|c: ToolCall| c@),
            b.spec_items() == vals.take(i as int).map_values(|c: ToolCallV| call_json(c)),
        decreases calls@.len() - i,
    {
        b.push(call_to_json(&calls[i]));
        assert(vals.take(i + 1).map_values(|c: ToolCallV| call_json(c))
            =~= vals.take(i as int).map_values(|c: ToolCallV| call_json(c)).push(call_json(vals[i as int])));
        i = i + 1;
    }
    assert(vals.take(calls@.len() as int) =~= vals);
    b.build()
}

/// Token counts in OpenAI's names.
pub fn usage_to_json(u: Option<Usage>) -> (r: Json)
    ensures
        jview(r) == usage_json(u),
{
    match u {
        Some(u) => ObjectBuilder::new()
            .with("prompt_tokens", jcount(u.prompt_tokens))
            .with("completion_tokens", jcount(u.completion_tokens))
            .with("total_tokens", jcount(u.total_tokens))
            .build(),
        None => Json::Null,
    }
}

/// A chat completion in the OpenAI wire format; `now_ms` and `now_secs` are the
/// clock readings for its id and creation time.
pub fn to_openai_chat_response(response: &ChatResponse, model: String, now_ms: u128, now_secs: u64) -> (r: Json)
    ensures
        jview(r) == chat_completion_json(response@, model@, now_ms as nat, now_secs as nat),
{
    let message = ObjectBuilder::new()
        .with("role", jstr_of("assistant"))
        .with("content", jstring(text_of(&response.message)))
        .with("tool_calls", calls_to_json(&response.message.tool_calls))
        .build();
    let choice = ObjectBuilder::new()
        .with("index", juint_of(0))
        .with("message", message)
        .with("finish_reason", jstr_of(finish_reason_to_openai(&response.finish_reason)))
        .build();
    ObjectBuilder::new()
        .with("id", jstring(tagged_id("chatcmpl-", now_ms)))
        .with("object", jstr_of("chat.completion"))
        .with("created", juint_of(now_secs as u128))
        .with("model", jstring(model))
        .with("choices", single(choice))
        .with("usage", usage_to_json(response.usage))
        .build()
}

/// An array of numbers given by their JSON texts.
pub open spec fn numbers_json(v: Seq<Seq<char>>) -> JsonV {
    JsonV::Array(v.map_values(|x: Seq<char>| JsonV::Number(x)))
}

/// One embedding in the OpenAI wire format.
pub open spec fn embedding_json(index: nat, v: Seq<Seq<char>>) -> JsonV {
    JsonV::Object(Seq::empty()
        .push(("object"@, JsonV::Str("embedding"@)))
        .push(("index"@, juint(index)))
        .push(("embedding"@, numbers_json(v))))
}

/// An embeddings response in the OpenAI wire format.
pub open spec fn embeddings_json(model: Seq<char>, vectors: Seq<Seq<Seq<char>>>) -> JsonV {
    JsonV::Object(Seq::empty()
        .push(("object"@, JsonV::Str("list"@)))
        .push(("model"@, JsonV::Str(model)))
        .push(("data"@, JsonV::Array(Seq::new(vectors.len(), |i: int| embedding_json(i as nat, vectors[i]))))))
}

/// An array of numbers given by their JSON texts.
pub fn numbers_to_json(v: &Vec<String>) -> (r: Json)
    ensures
        jview(r) == numbers_json(v@.map_values(|x: String| x@)),
{
    let ghost vals = v@.map_values(|x: String| x@);
    let mut b = ArrayBuilder::new();
    let mut i: usize = 0;
    while i < v.len()
        invariant
            i <= v@.len(),
            vals == v@.map_values(|x: String| x@),
            b.spec_items() == vals.take(i as int).map_values(|x: Seq<char>| JsonV::Number(x)),
        decreases v@.len() - i,
    {
        b.push(Json::Number(v[i].clone()));
        assert(vals.take(i + 1).map_values(|x: Seq<char>| JsonV::Number(x))
            =~= vals.take(i as int).map_values(|x: Seq<char>| JsonV::Number(x)).push(JsonV::Number(vals[i as int])));
        i = i + 1;
    }
    assert(vals.take(v@.len() as int) =~= vals);
    b.build()
}

/// An embeddings response in the OpenAI wire format.
pub fn to_openai_embedding_response(model: String, response: &EmbeddingResponse) -> (r: Json)
    ensures
        jview(r) == embeddings_json(model@, vectors_view(*response)),
{
    let ghost vecs = vectors_view(*response);
    let mut b = ArrayBuilder::new();
    let mut i: usize = 0;
    while i < response.vectors.len()
        invariant
            i <= response.vectors@.len(),
            vecs == vectors_view(*response),
            vecs.len() == response.vectors@.len(),
            b.spec_items() == Seq::new(i as nat, |k: int| embedding_json(k as nat, vecs[k])),
        decreases response.vectors@.len() - i,
    {
        let item = ObjectBuilder::new()
            .with("object", jstr_of("embedding"))
            .with("index", juint_of(i as u128))
            .with("embedding", numbers_to_json(&response.vectors[i]))
            .build();
        b.push(item);
        assert(b.spec_items() =~= Seq::new((i + 1) as nat, |k: int| embedding_json(k as nat, vecs[k])));
        i = i + 1;
    }
    ObjectBuilder::new()
        .with("object", jstr_of("list"))
        .with("model", jstring(model))
        .with("data", b.build())
        .build()
}

/// A Responses API response, made at `id_ms` / `secs`, with the message made at `message_ms`.
pub open spec fn responses_json(r: ChatResponseV, model: Seq<char>, id_ms: nat, secs: nat, message_ms: nat) -> JsonV {
    let part = JsonV::Object(Seq::empty()
        .push(("type"@, JsonV::Str("output_text"@)))
        .push(("text"@, JsonV::Str(message_text(r.message))))
        .push(("annotations"@, JsonV::Array(Seq::empty()))));
    let output = JsonV::Object(Seq::empty()
        .push(("id"@, JsonV::Str("msg_"@ + decimal(message_ms))))
        .push(("type"@, JsonV::Str("message"@)))
        .push(("role"@, JsonV::Str("assistant"@)))
        .push(("content"@, JsonV::Array(Seq::empty().push(part)))));
    let usage = match r.usage {
        Some(u) => JsonV::Object(Seq::empty()
            .push(("input_tokens"@, juint(u.prompt_tokens as nat)))
            .push(("output_tokens"@, juint(u.completion_tokens as nat)))
            .push(("total_tokens"@, juint(u.total_tokens as nat)))),
        None => JsonV::Null,
    };
    JsonV::Object(Seq::empty()
        .push(("id"@, JsonV::Str("resp_"@ + decimal(id_ms))))
        .push(("object"@, JsonV::Str("response"@)))
        .push(("created_at"@, juint(secs)))
        .push(("status"@, JsonV::Str("completed"@)))
        .push(("model"@, JsonV::Str(model)))
        .push(("output"@, JsonV::Array(Seq::empty().push(output))))
        .push(("usage"@, usage)))
}

/// A Responses API response; the three clock readings are taken for the
/// response id, the creation time and the message id.
pub fn to_responses_response(response: &ChatResponse, model: String, id_ms: u128, now_secs: u64, message_ms: u128) -> (r: Json)
    ensures
        jview(r) == responses_json(response@, model@, id_ms as nat, now_secs as nat, message_ms as nat),
{
    let text = text_of(&response.message);
    let part = ObjectBuilder::new()
        .with("type", jstr_of("output_text"))
        .with("text", jstring(text))
        .with("annotations", ArrayBuilder::new().build())
        .build();
    let output = ObjectBuilder::new()
        .with("id", jstring(tagged_id("msg_", message_ms)))
        .with("type", jstr_of("message"))
        .with("role", jstr_of("assistant"))
        .with("content", single(part))
        .build();
    let usage = match response.usage {
        Some(u) => ObjectBuilder::new()
            .with("input_tokens", jcount(u.prompt_tokens))
            .with("output_tokens", jcount(u.completion_tokens))
            .with("total_tokens", jcount(u.total_tokens))
            .build(),
        None => Json::Null,
    };
    ObjectBuilder::new()
        .with("id", jstring(tagged_id("resp_", id_ms)))
        .with("object", jstr_of("response"))
        .with("created_at", juint_of(now_secs as u128))
        .with("status", jstr_of("completed"))
        .with("model", jstring(model))
        .with("output", single(output))
        .with("usage", usage)
        .build()
}

} // verus!

verus! {

/// An error in the OpenAI wire format.
pub open spec fn api_error_json(message: Seq<char>) -> JsonV {
    jobj1("error"@, jobj2("message"@, JsonV::Str(message), "type"@, JsonV::Str("api_error"@)))
}

/// A stream chunk that carries one delta.
pub open spec fn delta_json(delta: JsonV) -> JsonV {
    jobj1("choices"@, jarr1(jobj1("delta"@, delta)))
}

/// The first chunk of a streamed tool call.
pub open spec fn started_call_json(id: Seq<char>, name: Seq<char>) -> JsonV {
    JsonV::Object(Seq::empty()
        .push(("id"@, JsonV::Str(id)))
        .push(("type"@, JsonV::Str("function"@)))
        .push(("function"@, jobj1("name"@, JsonV::Str(name)))))
}

/// A further chunk of a streamed tool call's arguments.
pub open spec fn call_delta_json(id: Seq<char>, chunk: Seq<char>) -> JsonV {
    jobj2("id"@, JsonV::Str(id), "function"@, jobj1("arguments"@, JsonV::Str(chunk)))
}

/// The data of the OpenAI stream event for one stream item; `None` stands for
/// the `[DONE]` marker.
pub open spec fn openai_event(e: Result<StreamEventV, Seq<char>>) -> Option<JsonV> {
    match e {
        Err(m) => Some(api_error_json(m)),
        Ok(StreamEventV::TextDelta(t)) => Some(delta_json(jobj1("content"@, JsonV::Str(t)))),
        Ok(StreamEventV::ToolCallStarted { id, name }) =>
            Some(delta_json(jobj1("tool_calls"@, jarr1(started_call_json(id, name))))),
        Ok(StreamEventV::ToolCallDelta { id, arguments_chunk }) =>
            Some(delta_json(jobj1("tool_calls"@, jarr1(call_delta_json(id, arguments_chunk))))),
        Ok(StreamEventV::Done) => None,
        Ok(StreamEventV::Error { message }) => Some(api_error_json(message)),
        Ok(StreamEventV::Usage(_)) => Some(JsonV::Object(Seq::empty())),
        Ok(StreamEventV::ToolCallFinished) => Some(JsonV::Object(Seq::empty())),
    }
}

/// An error body in the OpenAI wire format.
pub fn openai_error_body(message: String) -> (r: Json)
    ensures
        jview(r) == api_error_json(message@),
{
    object1("error", object2("message", jstring(message), "type", jstr_of("api_error")))
}

fn delta_chunk(delta: Json) -> (r: Json)
    ensures
        jview(r) == delta_json(jview(delta)),
{
    object1("choices", single(object1("delta", delta)))
}

/// The OpenAI chat completions stream event for one stream item.
pub fn openai_stream_event(event: Result<StreamEvent, String>) -> (r: EventData)
    ensures
        data_view(r) == openai_event(item_view(event)),
{
    match event {
        Err(m) => EventData::Json(openai_error_body(m)),
        Ok(StreamEvent::TextDelta(t)) => EventData::Json(delta_chunk(object1("content", jstring(t)))),
        Ok(StreamEvent::ToolCallStarted { id, name }) => {
            let call = ObjectBuilder::new()
                .with("id", jstring(id))
                .with("type", jstr_of("function"))
                .with("function", object1("name", jstring(name)))
                .build();
            EventData::Json(delta_chunk(object1("tool_calls", single(call))))
        },
        Ok(StreamEvent::ToolCallDelta { id, arguments_chunk }) => {
            let call = object2("id", jstring(id), "function", object1("arguments", jstring(arguments_chunk)));
            EventData::Json(delta_chunk(object1("tool_calls", single(call))))
        },
        Ok(StreamEvent::Done) => EventData::Done,
        Ok(StreamEvent::Error { message }) => EventData::Json(openai_error_body(message)),
        Ok(StreamEvent::Usage(_)) => EventData::Json(ObjectBuilder::new().build()),
        Ok(StreamEvent::ToolCallFinished) => EventData::Json(ObjectBuilder::new().build()),
    }
}

/// A Responses API stream error.
pub open spec fn response_error_json(message: Seq<char>) -> JsonV {
    jobj2("type"@, JsonV::Str("response.error"@), "error"@, jobj1("message"@, JsonV::Str(message)))
}

/// The data of the Responses API stream event for one stream item.
pub open spec fn responses_event(e: Result<StreamEventV, Seq<char>>) -> JsonV {
    match e {
        Err(m) => response_error_json(m),
        Ok(StreamEventV::TextDelta(t)) =>
            jobj2("type"@, JsonV::Str("response.output_text.delta"@), "delta"@, JsonV::Str(t)),
        Ok(StreamEventV::Done) => jobj1("type"@, JsonV::Str("response.completed"@)),
        Ok(StreamEventV::Error { message }) => response_error_json(message),
        Ok(_) => JsonV::Object(Seq::empty()),
    }
}

fn response_error(message: String) -> (r: Json)
    ensures
        jview(r) == response_error_json(message@),
{
    object2("type", jstr_of("response.error"), "error", object1("message", jstring(message)))
}

/// The Responses API stream event for one stream item.
pub fn responses_stream_event(event: Result<StreamEvent, String>) -> (r: Json)
    ensures
        jview(r) == responses_event(item_view(event)),
{
    match event {
        Err(m) => response_error(m),
        Ok(StreamEvent::TextDelta(t)) => object2("type", jstr_of("response.output_text.delta"), "delta", jstring(t)),
        Ok(StreamEvent::Done) => object1("type", jstr_of("response.completed")),
        Ok(StreamEvent::Error { message }) => response_error(message),
        Ok(_) => ObjectBuilder::new().build(),
    }
}

/// The model that a request names: its `model` member, when that is a
/// non-empty string.
pub open spec fn requested_model(p: JsonV) -> Option<Seq<char>> {
    match jstr(jfield(p, "model"@)) {
        Some(m) => if m.len() > 0 { Some(m) } else { None },
        None => None,
    }
}

/// The model that a request names, else the configured one.
pub open spec fn model_choice(p: JsonV, configured: Option<Seq<char>>) -> Option<Seq<char>> {
    match requested_model(p) {
        Some(m) => Some(m),
        None => configured,
    }
}

fn chosen_model(payload: &Json, configured: Option<String>) -> (r: Option<String>)
    ensures
        opt_view(r) == model_choice(jview(*payload), opt_view(configured)),
{
    match as_str(field(Some(payload), "model")) {
        Some(m) => if !m.as_str().is_empty() {
            Some(m.clone())
        } else {
            configured
        },
        None => configured,
    }
}

/// The model for a chat or Responses request: the one the request names,
/// else the configured one, else an error.
pub fn request_or_configured_model(payload: &Json, configured: Option<String>) -> (r: Result<String, String>)
    ensures
        match r {
            Ok(m) => model_choice(jview(*payload), opt_view(configured)) == Some(m@),
            Err(e) => model_choice(jview(*payload), opt_view(configured)) is None
                && e@ == "No model supplied or configured. Run: nimbox model <model-name>"@,
        },
{
    match chosen_model(payload, configured) {
        Some(m) => Ok(m),
        None => Err(String::from_str("No model supplied or configured. Run: nimbox model <model-name>")),
    }
}

/// The model for an embeddings request: the one the request names, else the
/// configured embedding model, else an error.
pub fn request_or_configured_embedding_model(payload: &Json, configured: Option<String>) -> (r: Result<String, String>)
    ensures
        match r {
            Ok(m) => model_choice(jview(*payload), opt_view(configured)) == Some(m@),
            Err(e) => model_choice(jview(*payload), opt_view(configured)) is None
                && e@ == "No embedding model configured. Run: nimbox embed <model-name>"@,
        },
{
    match chosen_model(payload, configured) {
        Some(m) => Ok(m),
        None => Err(String::from_str("No embedding model configured. Run: nimbox embed <model-name>")),
    }
}

} // verus!

verus! {

/// One model in the OpenAI `/v1/models` listing.
pub open spec fn model_entry_json(m: ModelInfoV, owner: Seq<char>) -> JsonV {
    JsonV::Object(Seq::empty()
        .push(("id"@, JsonV::Str(m.id)))
        .push(("object"@, JsonV::Str("model"@)))
        .push(("owned_by"@, JsonV::Str(owner)))
        .push(("capabilities"@, jobj2("chat"@, JsonV::Bool(m.supports_chat), "embeddings"@, JsonV::Bool(m.supports_embeddings)))))
}

/// The OpenAI `/v1/models` listing.
pub open spec fn models_list_json(ms: Seq<ModelInfoV>, owner: Seq<char>) -> JsonV {
    jobj2("object"@, JsonV::Str("list"@), "data"@, JsonV::Array(ms.map_values(|m: ModelInfoV| model_entry_json(m, owner))))
}

/// The OpenAI `/v1/models` listing of the models, owned by the provider named `owner`.
pub fn models_to_json(models: &Vec<ModelInfo>, owner: &str) -> (r: Json)
    ensures
        jview(r) == models_list_json(models_view(models@), owner@),
{
    let ghost vals = models_view(models@);
    let mut b = ArrayBuilder::new();
    let mut i: usize = 0;
    while i < models.len()
        invariant
            i <= models@.len(),
            vals == models_view(models@),
            b.spec_items() == vals.take(i as int).map_values(|m: ModelInfoV| model_entry_json(m, owner@)),
        decreases models@.len() - i,
    {
        let m = &models[i];
        let entry = ObjectBuilder::new()
            .with("id", jstring(m.id.clone()))
            .with("object", jstr_of("model"))
            .with("owned_by", jstr_of(owner))
            .with("capabilities", object2("chat", Json::Bool(m.supports_chat), "embeddings", Json::Bool(m.supports_embeddings)))
            .build();
        b.push(entry);
        assert(vals.take(i + 1).map_values(|m: ModelInfoV| model_entry_json(m, owner@))
            =~= vals.take(i as int).map_values(|m: ModelInfoV| model_entry_json(m, owner@)).push(model_entry_json(vals[i as int], owner@)));
        i = i + 1;
    }
    assert(vals.take(models@.len() as int) =~= vals);
    object2("object", jstr_of("list"), "data", b.build())
}

} // verus!

verus! {

/// A model that a request names is the one used for it; the configured model
/// stands in only when the request names none (or an empty one).
pub proof fn law_request_model_wins(p: JsonV, configured: Option<Seq<char>>)
    ensures
        requested_model(p) matches Some(m) ==> model_choice(p, configured) == Some(m),
        requested_model(p) is None ==> model_choice(p, configured) == configured,
        requested_model(p) matches Some(m) ==> m.len() > 0,
{
}

/// The model for an Anthropic messages request: the one the request names,
/// else the configured one, else an error.
pub fn anthropic_model(payload: &Json, configured: Option<String>) -> (r: Result<String, String>)
    ensures
        match r {
            Ok(m) => model_choice(jview(*payload), opt_view(configured)) == Some(m@),
            Err(e) => model_choice(jview(*payload), opt_view(configured)) is None
                && e@ == "No model configured. Run: nimbox model <model-name>"@,
        },
{
    match chosen_model(payload, configured) {
        Some(m) => Ok(m),
        None => Err(String::from_str("No model configured. Run: nimbox model <model-name>")),
    }
}

} // verus!
