use vstd::prelude::*;
use crate::chat::{
    ChatRequest, ChatRequestV, ChatResponse, ChatResponseV, ContentPart, FinishReason, Message, MessageV, Role, Usage,
    StreamEvent, StreamEventV, Tool, ToolCall, ToolCallV, ToolChoice, ToolChoiceV, ToolV, choice_view, item_view,
    message_text, text_of,
};
use crate::json::{
    Json, JsonV, ArrayBuilder, ObjectBuilder, as_array, as_str, copy_or_null, field, get, jarray, jfield, jget,
    jnumber, jobj1, jobj2, jstr, jstr_of, jstring, json_text, jview, jviews, juint, juint_of, jcount, object1, object2, jint, jint_of,
    ojv, opt_number, opt_text, opt_u32, parse_json, parsed_json, text_or, to_text, to_u32, ju64,
};
use crate::openai_api::{effort_of, parse_reasoning_effort, parse_stream_flag, parse_thinking_budget, stream_flag,
    tagged_id, text_field, thinking_budget};
use crate::text::{decimal, str_eq};

verus! {

/// What reading the content blocks of a message has gathered so far: the
/// texts, the tool calls, and the id of the tool call that a result answers.
#[verifier::ext_equal]
pub struct BlocksV {
    pub content: Seq<Seq<char>>,
    pub tool_calls: Seq<ToolCallV>,
    pub tool_call_id: Option<Seq<char>>,
}

/// The text of a `tool_result` block's content: a string as it is, anything
/// else as its JSON text.
pub open spec fn result_text(v: JsonV) -> Seq<char> {
    match v {
        JsonV::Str(s) => s,
        _ => json_text(v),
    }
}

/// What one content block adds.
pub open spec fn block_step(acc: BlocksV, block: JsonV) -> BlocksV {
    let kind = match jstr(jfield(block, "type"@)) {
        Some(t) => t,
        None => ""@,
    };
    if kind == "text"@ {
        match jstr(jfield(block, "text"@)) {
            Some(t) => BlocksV { content: acc.content.push(t), ..acc },
            None => acc,
        }
    } else if kind == "tool_use"@ {
        BlocksV {
            tool_calls: acc.tool_calls.push(ToolCallV {
                id: text_field(block, "id"@),
                name: text_field(block, "name"@),
                arguments: json_text(jfield(block, "input"@)),
            }),
            ..acc
        }
    } else if kind == "tool_result"@ {
        BlocksV {
            content: acc.content.push(result_text(jfield(block, "content"@))),
            tool_call_id: jstr(jfield(block, "tool_use_id"@)),
            ..acc
        }
    } else {
        acc
    }
}

/// What the first `n` blocks gather.
pub open spec fn blocks_state(blocks: Seq<JsonV>, n: nat) -> BlocksV
    decreases n,
{
    if n == 0 || n > blocks.len() {
        BlocksV { content: Seq::empty(), tool_calls: Seq::empty(), tool_call_id: None }
    } else {
        block_step(blocks_state(blocks, (n - 1) as nat), blocks[n - 1])
    }
}

/// What the content of a message gathers: a string is one text, an array is
/// read block by block, anything else gives nothing.
pub open spec fn content_state(v: JsonV) -> BlocksV {
    match v {
        JsonV::Str(t) => BlocksV { content: seq![t], tool_calls: Seq::empty(), tool_call_id: None },
        JsonV::Array(blocks) => blocks_state(blocks, blocks.len()),
        _ => BlocksV { content: Seq::empty(), tool_calls: Seq::empty(), tool_call_id: None },
    }
}

/// A message in the Anthropic wire format. A message that answers a tool call
/// is a tool message; otherwise `assistant` names the assistant and anything
/// else the user.
pub open spec fn anthropic_message(v: JsonV) -> MessageV {
    let st = content_state(jfield(v, "content"@));
    let role = if st.tool_call_id is Some {
        Role::Tool
    } else if jstr(jfield(v, "role"@)) == Some("assistant"@) {
        Role::Assistant
    } else {
        Role::User
    };
    MessageV { role, content: st.content, tool_calls: st.tool_calls, tool_call_id: st.tool_call_id }
}

/// A tool in the Anthropic wire format.
pub open spec fn anthropic_tool(v: JsonV) -> ToolV {
    ToolV {
        name: text_field(v, "name"@),
        description: jstr(jfield(v, "description"@)),
        parameters: jfield(v, "input_schema"@),
    }
}

/// An Anthropic `tool_choice`.
pub open spec fn anthropic_tool_choice(v: Option<JsonV>) -> Option<ToolChoiceV> {
    match v {
        Some(c) => match jstr(jfield(c, "type"@)) {
            Some(t) => if t == "auto"@ {
                Some(ToolChoiceV::Auto)
            } else if t == "none"@ {
                Some(ToolChoiceV::Disabled)
            } else if t == "any"@ {
                Some(ToolChoiceV::Required)
            } else if t == "tool"@ {
                Some(ToolChoiceV::Tool(text_field(c, "name"@)))
            } else {
                None
            },
            None => None,
        },
        None => None,
    }
}

/// The system prompt of a request, as a message, when it is a string.
pub open spec fn system_messages(p: JsonV) -> Seq<MessageV> {
    match jstr(jfield(p, "system"@)) {
        Some(s) => seq![MessageV { role: Role::System, content: seq![s], tool_calls: Seq::empty(), tool_call_id: None }],
        None => Seq::empty(),
    }
}

/// An Anthropic messages request, translated for the model `model`.
pub open spec fn anthropic_request(p: JsonV, model: Seq<char>) -> Result<ChatRequestV, Seq<char>> {
    match jarray(jfield(p, "messages"@)) {
        None => Err("messages missing"@),
        Some(ms) => Ok(ChatRequestV {
            model: Some(model),
            messages: system_messages(p) + ms.map_values(|m: JsonV| anthropic_message(m)),
            tools: match jarray(jfield(p, "tools"@)) {
                Some(ts) => ts.map_values(|t: JsonV| anthropic_tool(t)),
                None => Seq::empty(),
            },
            tool_choice: anthropic_tool_choice(jget(p, "tool_choice"@)),
            stream: stream_flag(p),
            max_tokens: to_u32(ju64(jfield(p, "max_tokens"@))),
            temperature: jnumber(jfield(p, "temperature"@)),
            top_p: jnumber(jfield(p, "top_p"@)),
            reasoning_effort: effort_of(p),
            thinking_budget_tokens: thinking_budget(p),
        }),
    }
}

/// The content of a message so far, with its values.
struct Gathered {
    content: Vec<ContentPart>,
    tool_calls: Vec<ToolCall>,
    tool_call_id: Option<String>,
}

impl Gathered {
    spec fn value(&self) -> BlocksV {
        BlocksV {
            content: self.content@.map_values(|p: ContentPart| p@),
            tool_calls: self.tool_calls@.map_values(|c: ToolCall| c@),
            tool_call_id: crate::chat::opt_view(self.tool_call_id),
        }
    }
}

fn push_text(g: &mut Gathered, t: String)
    ensures
        final(g).value() == (BlocksV { content: old(g).value().content.push(t@), ..old(g).value() }),
{
    crate::openai_api::push_text(&mut g.content, t);
}

fn read_block(g: &mut Gathered, block: &Json)
    ensures
        final(g).value() == block_step(old(g).value(), jview(*block)),
{
    let b = Some(block);
    let kind = text_or(field(b, "type"), "");
    if str_eq(kind.as_str(), "text") {
        match as_str(field(b, "text")) {
            Some(t) => push_text(g, t.clone()),
            None => {},
        }
    } else if str_eq(kind.as_str(), "tool_use") {
        let call = ToolCall {
            id: text_or(field(b, "id"), ""),
            name: text_or(field(b, "name"), ""),
            arguments: to_text(&copy_or_null(field(b, "input"))),
        };
        crate::openai_api::push_call(&mut g.tool_calls, call);
    } else if str_eq(kind.as_str(), "tool_result") {
        g.tool_call_id = opt_text(field(b, "tool_use_id"));
        let text = match field(b, "content") {
            Some(Json::Str(s)) => s.clone(),
            other => to_text(&copy_or_null(other)),
        };
        push_text(g, text);
    }
}

/// A message in the Anthropic wire format.
pub fn parse_anthropic_message(v: &Json) -> (r: Message)
    ensures
        r@ == anthropic_message(jview(*v)),
{
    let mut g = Gathered { content: Vec::new(), tool_calls: Vec::new(), tool_call_id: None };
    proof {
        assert(g.value().content =~= Seq::<Seq<char>>::empty());
        assert(g.value().tool_calls =~= Seq::<ToolCallV>::empty());
        assert(g.value() =~= BlocksV { content: Seq::empty(), tool_calls: Seq::empty(), tool_call_id: None });
    }
    match field(Some(v), "content") {
        Some(Json::Str(t)) => {
            push_text(&mut g, t.clone());
        },
        Some(Json::Array(blocks)) => {
            let ghost bs = jviews(blocks@);
            let mut i: usize = 0;
            while i < blocks.len()
                invariant
                    i <= blocks@.len(),
                    bs == jviews(blocks@),
                    bs.len() == blocks@.len(),
                    g.value() == blocks_state(bs, i as nat),
                decreases blocks@.len() - i,
            {
                read_block(&mut g, &blocks[i]);
                i = i + 1;
            }
        },
        _ => {},
    }
    let role = if g.tool_call_id.is_some() {
        Role::Tool
    } else {
        match as_str(field(Some(v), "role")) {
            Some(r) => if str_eq(r.as_str(), "assistant") { Role::Assistant } else { Role::User },
            None => Role::User,
        }
    };
    let m = Message { role, content: g.content, tool_calls: g.tool_calls, tool_call_id: g.tool_call_id };
    assert(m@ =~= anthropic_message(jview(*v)));
    m
}

/// A tool in the Anthropic wire format.
pub fn parse_anthropic_tool(v: &Json) -> (r: Tool)
    ensures
        r@ == anthropic_tool(jview(*v)),
{
    Tool {
        name: text_or(field(Some(v), "name"), ""),
        description: opt_text(field(Some(v), "description")),
        parameters: copy_or_null(field(Some(v), "input_schema")),
    }
}

/// An Anthropic `tool_choice`.
pub fn parse_anthropic_tool_choice(o: Option<&Json>) -> (r: Option<ToolChoice>)
    ensures
        choice_view(r) == anthropic_tool_choice(match o { Some(j) => Some(jview(*j)), None => None }),
{
    match o {
        None => None,
        Some(c) => match as_str(field(o, "type")) {
            Some(t) => {
                if str_eq(t.as_str(), "auto") {
                    Some(ToolChoice::Auto)
                } else if str_eq(t.as_str(), "none") {
                    Some(ToolChoice::Disabled)
                } else if str_eq(t.as_str(), "any") {
                    Some(ToolChoice::Required)
                } else if str_eq(t.as_str(), "tool") {
                    Some(ToolChoice::Tool(text_or(field(o, "name"), "")))
                } else {
                    None
                }
            },
            None => None,
        },
    }
}

fn parse_anthropic_messages(out: &mut Vec<Message>, ms: &Vec<Json>)
    ensures
        final(out)@.map_values(|m: Message| m@)
            == old(out)@.map_values(|m: Message| m@) + jviews(ms@).map_values(|m: JsonV| anthropic_message(m)),
{
    let ghost items = jviews(ms@);
    let ghost start = out@.map_values(|m: Message| m@);
    let mut i: usize = 0;
    while i < ms.len()
        invariant
            i <= ms@.len(),
            items == jviews(ms@),
            out@.map_values(|m: Message| m@) == start + items.take(i as int).map_values(|m: JsonV| anthropic_message(m)),
        decreases ms@.len() - i,
    {
        let m = parse_anthropic_message(&ms[i]);
        let ghost before = out@;
        out.push(m);
        assert(out@.map_values(|m: Message| m@) =~= before.map_values(|m: Message| m@).push(m@));
        assert(items.take(i + 1).map_values(|m: JsonV| anthropic_message(m))
            =~= items.take(i as int).map_values(|m: JsonV| anthropic_message(m)).push(anthropic_message(items[i as int])));
        i = i + 1;
    }
    assert(items.take(ms@.len() as int) =~= items);
}

fn parse_anthropic_tools(o: Option<&Json>) -> (r: Vec<Tool>)
    ensures
        r@.map_values(|t: Tool| t@) == match jarray(ojv(o)) {
            Some(ts) => ts.map_values(|t: JsonV| anthropic_tool(t)),
            None => Seq::empty(),
        },
{
    let mut out: Vec<Tool> = Vec::new();
    match as_array(o) {
        Some(ts) => {
            let ghost items = jviews(ts@);
            let mut i: usize = 0;
            while i < ts.len()
                invariant
                    i <= ts@.len(),
                    items == jviews(ts@),
                    out@.map_values(|t: Tool| t@) == items.take(i as int).map_values(|t: JsonV| anthropic_tool(t)),
                decreases ts@.len() - i,
            {
                let t = parse_anthropic_tool(&ts[i]);
                let ghost before = out@;
                out.push(t);
                assert(out@.map_values(|t: Tool| t@) =~= before.map_values(|t: Tool| t@).push(t@));
                assert(items.take(i + 1).map_values(|t: JsonV| anthropic_tool(t))
                    =~= items.take(i as int).map_values(|t: JsonV| anthropic_tool(t)).push(anthropic_tool(items[i as int])));
                i = i + 1;
            }
            assert(items.take(ts@.len() as int) =~= items);
        },
        None => {
            assert(out@.map_values(|t: Tool| t@) =~= Seq::<ToolV>::empty());
        },
    }
    out
}

/// Translates an Anthropic messages request for the model `model`.
pub fn to_internal_request(payload: &Json, model: String) -> (r: Result<ChatRequest, String>)
    ensures
        match r {
            Ok(req) => anthropic_request(jview(*payload), model@) == Ok::<ChatRequestV, Seq<char>>(req@),
            Err(e) => anthropic_request(jview(*payload), model@) == Err::<ChatRequestV, Seq<char>>(e@),
        },
{
    let p = Some(payload);
    let mut messages: Vec<Message> = Vec::new();
    match as_str(field(p, "system")) {
        Some(s) => {
            let m = Message {
                role: Role::System,
                content: crate::openai_api::text_content(s.clone()),
                tool_calls: crate::openai_api::no_calls(),
                tool_call_id: None,
            };
            messages.push(m);
        },
        None => {},
    }
    assert(messages@.map_values(|m: Message| m@) =~= system_messages(jview(*payload)));
    let ms = match as_array(field(p, "messages")) {
        Some(ms) => ms,
        None => return Err(String::from_str("messages missing")),
    };
    parse_anthropic_messages(&mut messages, ms);
    let req = ChatRequest {
        model: Some(model),
        messages,
        tools: parse_anthropic_tools(field(p, "tools")),
        tool_choice: parse_anthropic_tool_choice(get(p, "tool_choice")),
        stream: parse_stream_flag(payload),
        max_tokens: opt_u32(field(p, "max_tokens")),
        temperature: opt_number(field(p, "temperature")),
        top_p: opt_number(field(p, "top_p")),
        reasoning_effort: parse_reasoning_effort(payload),
        thinking_budget_tokens: parse_thinking_budget(payload),
    };
    assert(req@ =~= anthropic_request(jview(*payload), model@)->Ok_0);
    Ok(req)
}

} // verus!

verus! {

/// The input of a `tool_use` block: the document that the call's arguments
/// read as, or an empty object where they are not JSON.
pub open spec fn tool_input(parsed: Result<JsonV, Seq<char>>) -> JsonV {
    match parsed {
        Ok(j) => j,
        Err(_) => JsonV::Object(Seq::empty()),
    }
}

/// A `tool_use` block for a call whose arguments read as `parsed`.
pub open spec fn tool_use_json(c: ToolCallV, parsed: Result<JsonV, Seq<char>>) -> JsonV {
    JsonV::Object(Seq::empty()
        .push(("type"@, JsonV::Str("tool_use"@)))
        .push(("id"@, JsonV::Str(c.id)))
        .push(("name"@, JsonV::Str(c.name)))
        .push(("input"@, tool_input(parsed))))
}

/// The Anthropic stop reason for a finish reason.
pub open spec fn stop_reason_text(r: FinishReason) -> Seq<char> {
    match r {
        FinishReason::ToolCalls => "tool_use"@,
        FinishReason::Length => "max_tokens"@,
        _ => "end_turn"@,
    }
}

/// Token counts in Anthropic's names; zeros when the provider gave none.
pub open spec fn anthropic_usage_json(u: Option<Usage>) -> JsonV {
    match u {
        Some(u) => jobj2("input_tokens"@, juint(u.prompt_tokens as nat), "output_tokens"@, juint(u.completion_tokens as nat)),
        None => jobj2("input_tokens"@, juint(0), "output_tokens"@, juint(0)),
    }
}

/// The content blocks of a response: its text, when there is any, then one
/// `tool_use` block per tool call, each with the arguments read as JSON.
pub open spec fn anthropic_content(r: ChatResponseV) -> Seq<JsonV> {
    let text = message_text(r.message);
    let head: Seq<JsonV> = if text.len() > 0 {
        seq![jobj2("type"@, JsonV::Str("text"@), "text"@, JsonV::Str(text))]
    } else {
        Seq::empty()
    };
    head + r.message.tool_calls.map_values(|c: ToolCallV| tool_use_json(c, parsed_json(c.arguments)))
}

/// A response in the Anthropic wire format, with an id made at `ms`.
pub open spec fn anthropic_response_json(r: ChatResponseV, ms: nat) -> JsonV {
    JsonV::Object(Seq::empty()
        .push(("id"@, JsonV::Str("msg_"@ + decimal(ms))))
        .push(("type"@, JsonV::Str("message"@)))
        .push(("role"@, JsonV::Str("assistant"@)))
        .push(("content"@, JsonV::Array(anthropic_content(r))))
        .push(("model"@, JsonV::Str("proxy"@)))
        .push(("stop_reason"@, JsonV::Str(stop_reason_text(r.finish_reason))))
        .push(("stop_sequence"@, JsonV::Null))
        .push(("usage"@, anthropic_usage_json(r.usage))))
}

/// A `tool_use` block for a call, given what its arguments read as.
pub fn tool_use_block(call: &ToolCall, parsed: Result<Json, String>) -> (r: Json)
    ensures
        jview(r) == tool_use_json(call@, crate::json::parsed_view(parsed)),
{
    let input = match parsed {
        Ok(j) => j,
        Err(_) => ObjectBuilder::new().build(),
    };
    ObjectBuilder::new()
        .with("type", jstr_of("tool_use"))
        .with("id", jstring(call.id.clone()))
        .with("name", jstring(call.name.clone()))
        .with("input", input)
        .build()
}

/// A response in the Anthropic wire format; `now_ms` is the clock reading
/// for its id.
pub fn to_anthropic_response(response: &ChatResponse, now_ms: u128) -> (r: Json)
    ensures
        jview(r) == anthropic_response_json(response@, now_ms as nat),
{
    let text = text_of(&response.message);
    let mut content = ArrayBuilder::new();
    if !text.as_str().is_empty() {
        content.push(object2("type", jstr_of("text"), "text", jstring(text)));
    }
    let ghost head = content.spec_items();
    let calls = &response.message.tool_calls;
    let ghost vals = calls@.map_values(|c: ToolCall| c@);
    let mut i: usize = 0;
    while i < calls.len()
        invariant
            i <= calls@.len(),
            vals == calls@.map_values(|c: ToolCall| c@),
            content.spec_items() == head + vals.take(i as int).map_values(|c: ToolCallV| tool_use_json(c, parsed_json(c.arguments))),
        decreases calls@.len() - i,
    {
        let parsed = parse_json(calls[i].arguments.as_str());
        content.push(tool_use_block(&calls[i], parsed));
        assert(vals.take(i + 1).map_values(|c: ToolCallV| tool_use_json(c, parsed_json(c.arguments)))
            =~= vals.take(i as int).map_values(|c: ToolCallV| tool_use_json(c, parsed_json(c.arguments)))
                .push(tool_use_json(vals[i as int], parsed_json(vals[i as int].arguments))));
        i = i + 1;
    }
    assert(vals.take(calls@.len() as int) =~= vals);
    let stop = match response.finish_reason {
        FinishReason::ToolCalls => "tool_use",
        FinishReason::Length => "max_tokens",
        _ => "end_turn",
    };
    let usage = match response.usage {
        Some(u) => object2("input_tokens", jcount(u.prompt_tokens), "output_tokens", jcount(u.completion_tokens)),
        None => object2("input_tokens", juint_of(0), "output_tokens", juint_of(0)),
    };
    ObjectBuilder::new()
        .with("id", jstring(tagged_id("msg_", now_ms)))
        .with("type", jstr_of("message"))
        .with("role", jstr_of("assistant"))
        .with("content", content.build())
        .with("model", jstr_of("proxy"))
        .with("stop_reason", jstr_of(stop))
        .with("stop_sequence", Json::Null)
        .with("usage", usage)
        .build()
}

/// An error in the Anthropic wire format.
pub open spec fn anthropic_error_json(error_type: Seq<char>, message: Seq<char>) -> JsonV {
    jobj2("type"@, JsonV::Str("error"@), "error"@, jobj2("type"@, JsonV::Str(error_type), "message"@, JsonV::Str(message)))
}

/// An error body in the Anthropic wire format.
pub fn anthropic_error_body(error_type: &str, message: String) -> (r: Json)
    ensures
        jview(r) == anthropic_error_json(error_type@, message@),
{
    object2("type", jstr_of("error"), "error", object2("type", jstr_of(error_type), "message", jstring(message)))
}

/// The `message_delta` that ends the turn.
pub open spec fn end_turn_json() -> JsonV {
    JsonV::Object(Seq::empty()
        .push(("type"@, JsonV::Str("message_delta"@)))
        .push(("delta"@, jobj2("stop_reason"@, JsonV::Str("end_turn"@), "stop_sequence"@, JsonV::Null)))
        .push(("usage"@, jobj1("output_tokens"@, juint(0)))))
}

/// A delta of content block `index`.
pub open spec fn block_delta_json(index: int, delta: JsonV) -> JsonV {
    JsonV::Object(Seq::empty()
        .push(("type"@, JsonV::Str("content_block_delta"@)))
        .push(("index"@, jint(index)))
        .push(("delta"@, delta)))
}

/// The start of a `tool_use` block at `index`.
pub open spec fn tool_block_start_json(index: int, id: Seq<char>, name: Seq<char>) -> JsonV {
    JsonV::Object(Seq::empty()
        .push(("type"@, JsonV::Str("content_block_start"@)))
        .push(("index"@, jint(index)))
        .push(("content_block"@, JsonV::Object(Seq::empty()
            .push(("type"@, JsonV::Str("tool_use"@)))
            .push(("id"@, JsonV::Str(id)))
            .push(("name"@, JsonV::Str(name)))
            .push(("input"@, JsonV::Object(Seq::empty())))))))
}

/// The end of content block `index`.
pub open spec fn block_stop_json(index: int) -> JsonV {
    jobj2("type"@, JsonV::Str("content_block_stop"@), "index"@, jint(index))
}

/// The tool block index after an event: one more after each tool call that starts.
pub open spec fn next_tool_index(e: Result<StreamEventV, Seq<char>>, index: i64) -> i64 {
    match e {
        Ok(StreamEventV::ToolCallStarted { .. }) => (index + 1) as i64,
        _ => index,
    }
}

/// The Anthropic stream event, by name and data, for one stream item, where
/// `index` is the tool block index after the item. Text goes to block 0; each
/// tool call that starts opens the next block.
pub open spec fn anthropic_event(e: Result<StreamEventV, Seq<char>>, index: int) -> (Seq<char>, JsonV) {
    match e {
        Err(m) => ("error"@, anthropic_error_json("api_error"@, m)),
        Ok(StreamEventV::TextDelta(t)) =>
            ("content_block_delta"@, block_delta_json(0, jobj2("type"@, JsonV::Str("text_delta"@), "text"@, JsonV::Str(t)))),
        Ok(StreamEventV::ToolCallStarted { id, name }) => ("content_block_start"@, tool_block_start_json(index, id, name)),
        Ok(StreamEventV::ToolCallDelta { id, arguments_chunk }) => ("content_block_delta"@, block_delta_json(index,
            jobj2("type"@, JsonV::Str("input_json_delta"@), "partial_json"@, JsonV::Str(arguments_chunk)))),
        Ok(StreamEventV::ToolCallFinished) => ("content_block_stop"@, block_stop_json(index)),
        Ok(StreamEventV::Done) => ("message_delta"@, end_turn_json()),
        Ok(StreamEventV::Usage(u)) => ("message_delta"@, JsonV::Object(Seq::empty()
            .push(("type"@, JsonV::Str("message_delta"@)))
            .push(("delta"@, jobj1("stop_reason"@, JsonV::Str("end_turn"@))))
            .push(("usage"@, jobj1("output_tokens"@, juint(u.completion_tokens as nat)))))),
        Ok(StreamEventV::Error { message }) => ("error"@, anthropic_error_json("api_error"@, message)),
    }
}

fn end_turn() -> (r: Json)
    ensures
        jview(r) == end_turn_json(),
{
    ObjectBuilder::new()
        .with("type", jstr_of("message_delta"))
        .with("delta", object2("stop_reason", jstr_of("end_turn"), "stop_sequence", Json::Null))
        .with("usage", object1("output_tokens", juint_of(0)))
        .build()
}

fn block_delta(index: i64, delta: Json) -> (r: Json)
    ensures
        jview(r) == block_delta_json(index as int, jview(delta)),
{
    ObjectBuilder::new()
        .with("type", jstr_of("content_block_delta"))
        .with("index", jint_of(index))
        .with("delta", delta)
        .build()
}

/// The Anthropic stream event for one stream item, by name and data. The tool
/// block index moves on by one when a tool call starts.
pub fn anthropic_stream_event(event: Result<StreamEvent, String>, tool_index: &mut i64) -> (r: (String, Json))
    requires
        item_view(event) matches Ok(StreamEventV::ToolCallStarted { .. }) ==> *old(tool_index) < i64::MAX,
    ensures
        *final(tool_index) == next_tool_index(item_view(event), *old(tool_index)),
        r.0@ == anthropic_event(item_view(event), *final(tool_index) as int).0,
        jview(r.1) == anthropic_event(item_view(event), *final(tool_index) as int).1,
{
    match event {
        Err(m) => (String::from_str("error"), anthropic_error_body("api_error", m)),
        Ok(StreamEvent::TextDelta(t)) => (
            String::from_str("content_block_delta"),
            block_delta(0, object2("type", jstr_of("text_delta"), "text", jstring(t))),
        ),
        Ok(StreamEvent::ToolCallStarted { id, name }) => {
            *tool_index = *tool_index + 1;
            let idx = *tool_index;
            let block = ObjectBuilder::new()
                .with("type", jstr_of("tool_use"))
                .with("id", jstring(id))
                .with("name", jstring(name))
                .with("input", ObjectBuilder::new().build())
                .build();
            let data = ObjectBuilder::new()
                .with("type", jstr_of("content_block_start"))
                .with("index", jint_of(idx))
                .with("content_block", block)
                .build();
            (String::from_str("content_block_start"), data)
        },
        Ok(StreamEvent::ToolCallDelta { id: _, arguments_chunk }) => {
            let idx = *tool_index;
            (
                String::from_str("content_block_delta"),
                block_delta(idx, object2("type", jstr_of("input_json_delta"), "partial_json", jstring(arguments_chunk))),
            )
        },
        Ok(StreamEvent::ToolCallFinished) => {
            let idx = *tool_index;
            (String::from_str("content_block_stop"), object2("type", jstr_of("content_block_stop"), "index", jint_of(idx)))
        },
        Ok(StreamEvent::Done) => (String::from_str("message_delta"), end_turn()),
        Ok(StreamEvent::Usage(u)) => {
            let data = ObjectBuilder::new()
                .with("type", jstr_of("message_delta"))
                .with("delta", object1("stop_reason", jstr_of("end_turn")))
                .with("usage", object1("output_tokens", jcount(u.completion_tokens)))
                .build();
            (String::from_str("message_delta"), data)
        },
        Ok(StreamEvent::Error { message }) => (String::from_str("error"), anthropic_error_body("api_error", message)),
    }
}

/// The `message_start` event of a stream whose message id is made at `ms`.
pub open spec fn message_start_json(ms: nat) -> JsonV {
    jobj2("type"@, JsonV::Str("message_start"@), "message"@, JsonV::Object(Seq::empty()
        .push(("id"@, JsonV::Str("msg_"@ + decimal(ms))))
        .push(("type"@, JsonV::Str("message"@)))
        .push(("role"@, JsonV::Str("assistant"@)))
        .push(("content"@, JsonV::Array(Seq::empty())))
        .push(("model"@, JsonV::Str("proxy"@)))
        .push(("stop_reason"@, JsonV::Null))
        .push(("stop_sequence"@, JsonV::Null))
        .push(("usage"@, jobj2("input_tokens"@, juint(0), "output_tokens"@, juint(0))))))
}

/// The events that open a stream: the message starts, then its text block.
pub open spec fn stream_opening_events(ms: nat) -> Seq<(Seq<char>, JsonV)> {
    seq![
        ("message_start"@, message_start_json(ms)),
        ("content_block_start"@, JsonV::Object(Seq::empty()
            .push(("type"@, JsonV::Str("content_block_start"@)))
            .push(("index"@, juint(0)))
            .push(("content_block"@, jobj2("type"@, JsonV::Str("text"@), "text"@, JsonV::Str(""@)))))),
    ]
}

/// The events that close a stream: the text block ends, the turn ends, the
/// message stops.
pub open spec fn stream_closing_events() -> Seq<(Seq<char>, JsonV)> {
    seq![
        ("content_block_stop"@, block_stop_json(0)),
        ("message_delta"@, end_turn_json()),
        ("message_stop"@, jobj1("type"@, JsonV::Str("message_stop"@))),
    ]
}

/// The values of a list of named events.
pub open spec fn events_view(v: Seq<(String, Json)>) -> Seq<(Seq<char>, JsonV)> {
    v.map_values(|e: (String, Json)| (e.0@, jview(e.1)))
}

/// The events that open a stream whose message id is made at `now_ms`.
pub fn stream_opening(now_ms: u128) -> (r: Vec<(String, Json)>)
    ensures
        events_view(r@) == stream_opening_events(now_ms as nat),
{
    let message = ObjectBuilder::new()
        .with("id", jstring(tagged_id("msg_", now_ms)))
        .with("type", jstr_of("message"))
        .with("role", jstr_of("assistant"))
        .with("content", ArrayBuilder::new().build())
        .with("model", jstr_of("proxy"))
        .with("stop_reason", Json::Null)
        .with("stop_sequence", Json::Null)
        .with("usage", object2("input_tokens", juint_of(0), "output_tokens", juint_of(0)))
        .build();
    let start = object2("type", jstr_of("message_start"), "message", message);
    let block = ObjectBuilder::new()
        .with("type", jstr_of("content_block_start"))
        .with("index", juint_of(0))
        .with("content_block", object2("type", jstr_of("text"), "text", jstr_of("")))
        .build();
    let r = vec![(String::from_str("message_start"), start), (String::from_str("content_block_start"), block)];
    assert(events_view(r@) =~= stream_opening_events(now_ms as nat));
    r
}

/// The events that close a stream.
pub fn stream_closing() -> (r: Vec<(String, Json)>)
    ensures
        events_view(r@) == stream_closing_events(),
{
    let stop = object2("type", jstr_of("content_block_stop"), "index", juint_of(0));
    let r = vec![
        (String::from_str("content_block_stop"), stop),
        (String::from_str("message_delta"), end_turn()),
        (String::from_str("message_stop"), object1("type", jstr_of("message_stop"))),
    ];
    assert(events_view(r@) =~= stream_closing_events());
    r
}

/// Tool blocks never take index 0, which is the text block's: from the first
/// index on, every started tool call opens the block after the last one, and
/// no other event moves the index.
pub proof fn law_tool_blocks_follow_text_block(e: Result<StreamEventV, Seq<char>>, index: i64)
    requires
        0 <= index < i64::MAX,
    ensures
        e matches Ok(StreamEventV::ToolCallStarted { .. }) ==> next_tool_index(e, index) == index + 1
            && next_tool_index(e, index) >= 1,
        !(e matches Ok(StreamEventV::ToolCallStarted { .. })) ==> next_tool_index(e, index) == index,
{
}


/// A `text` block with a string `text` adds that text to what was gathered,
/// after what came before, and leaves the tool calls and the answered call as
/// they were.
pub proof fn law_text_block_adds_its_text(acc: BlocksV, block: JsonV, t: Seq<char>)
    requires
        jfield(block, "type"@) == JsonV::Str("text"@),
        jfield(block, "text"@) == JsonV::Str(t),
    ensures
        block_step(acc, block).content == acc.content.push(t),
        block_step(acc, block).tool_calls == acc.tool_calls,
        block_step(acc, block).tool_call_id == acc.tool_call_id,
{
}

/// A message made of text blocks alone gathers their texts, in order, and
/// nothing else.
pub proof fn law_text_blocks_give_their_texts(blocks: Seq<JsonV>, texts: Seq<Seq<char>>)
    requires
        blocks.len() == texts.len(),
        forall|i: int| 0 <= i < blocks.len() ==> jfield(#[trigger] blocks[i], "type"@) == JsonV::Str("text"@),
        forall|i: int| 0 <= i < blocks.len() ==> jfield(#[trigger] blocks[i], "text"@) == JsonV::Str(texts[i]),
    ensures
        blocks_state(blocks, blocks.len()).content == texts,
        blocks_state(blocks, blocks.len()).tool_calls == Seq::<ToolCallV>::empty(),
        blocks_state(blocks, blocks.len()).tool_call_id is None,
{
    lemma_text_blocks(blocks, texts, blocks.len());
    assert(texts.take(blocks.len() as int) =~= texts);
}

proof fn lemma_text_blocks(blocks: Seq<JsonV>, texts: Seq<Seq<char>>, n: nat)
    requires
        n <= blocks.len(),
        blocks.len() == texts.len(),
        forall|i: int| 0 <= i < blocks.len() ==> jfield(#[trigger] blocks[i], "type"@) == JsonV::Str("text"@),
        forall|i: int| 0 <= i < blocks.len() ==> jfield(#[trigger] blocks[i], "text"@) == JsonV::Str(texts[i]),
    ensures
        blocks_state(blocks, n).content == texts.take(n as int),
        blocks_state(blocks, n).tool_calls == Seq::<ToolCallV>::empty(),
        blocks_state(blocks, n).tool_call_id is None,
    decreases n,
{
    if n == 0 {
        assert(texts.take(0) =~= Seq::<Seq<char>>::empty());
    } else {
        lemma_text_blocks(blocks, texts, (n - 1) as nat);
        let b = blocks[n - 1];
        assert(jfield(b, "type"@) == JsonV::Str("text"@));
        assert(jfield(b, "text"@) == JsonV::Str(texts[n - 1]));
        assert(texts.take(n as int) =~= texts.take(n - 1).push(texts[n - 1]));
    }
}


/// A `tool_use` block adds one call, with the block's id, name and the JSON
/// text of its input, after the calls before it, and leaves the texts and the
/// answered call as they were.
pub proof fn law_tool_use_block_adds_a_call(acc: BlocksV, block: JsonV, id: Seq<char>, name: Seq<char>)
    requires
        jfield(block, "type"@) == JsonV::Str("tool_use"@),
        jfield(block, "id"@) == JsonV::Str(id),
        jfield(block, "name"@) == JsonV::Str(name),
    ensures
        block_step(acc, block).tool_calls
            == acc.tool_calls.push(ToolCallV { id, name, arguments: json_text(jfield(block, "input"@)) }),
        block_step(acc, block).content == acc.content,
        block_step(acc, block).tool_call_id == acc.tool_call_id,
{
    reveal_strlit("text");
    reveal_strlit("tool_use");
    assert("text"@.len() != "tool_use"@.len());
}

/// A `tool_result` block with string content adds that text, answers the call
/// that its `tool_use_id` names, and leaves the calls as they were.
pub proof fn law_tool_result_block_answers_a_call(acc: BlocksV, block: JsonV, id: Seq<char>, t: Seq<char>)
    requires
        jfield(block, "type"@) == JsonV::Str("tool_result"@),
        jfield(block, "tool_use_id"@) == JsonV::Str(id),
        jfield(block, "content"@) == JsonV::Str(t),
    ensures
        block_step(acc, block).content == acc.content.push(t),
        block_step(acc, block).tool_call_id == Some(id),
        block_step(acc, block).tool_calls == acc.tool_calls,
{
    reveal_strlit("text");
    reveal_strlit("tool_use");
    reveal_strlit("tool_result");
    assert("text"@.len() != "tool_result"@.len());
    assert("tool_use"@.len() != "tool_result"@.len());
}

} // verus!
