use vstd::prelude::*;
use crate::chat::{
    ChatRequest, ChatRequestV, ChatResponse, ChatResponseV, ContentPart, EmbeddingResponse, FinishReason, Message,
    MessageV, ReasoningEffort, Role, StreamEvent, StreamEventV, Tool, ToolCall, ToolCallV, ToolChoice, ToolChoiceV,
    ToolV, Usage, choice_view, item_view, opt_view, vectors_view,
};
use crate::json::{
    Json, JsonV, ArrayBuilder, ObjectBuilder, as_array, as_str, copy_or_null, field, get, jarray, jfield, jget,
    jis_object, jnumber, jobj1, jobj2, jarr1, jstr, jstr_of, jstring, json_text, jview, jviews, juint, juint_of, jcount,
    object1, object2, ojv, opt_number, opt_text, opt_u32, parse_json, parsed_json, parsed_view, str_or, text_or,
    to_text, to_u32, ju64, is_object, single,
};
use crate::openai_api::{numbers_json, numbers_to_json, push_call, push_text, text_content, no_calls, text_field};
use crate::providers::{ModelInfo, ModelInfoV, models_view};
use crate::text::{decimal, decimal_string, str_eq, push_char, strip_suffix, without_suffix};

verus! {

/// The texts of the first `n` parts that have one, joined.
pub open spec fn part_texts(parts: Seq<JsonV>, n: nat) -> Seq<char>
    decreases n,
{
    if n == 0 || n > parts.len() {
        Seq::empty()
    } else {
        part_texts(parts, (n - 1) as nat) + match jstr(jfield(parts[n - 1], "text"@)) {
            Some(t) => t,
            None => Seq::empty(),
        }
    }
}

/// The text of a Gemini `content`: the texts of its parts joined, when the
/// parts are an array and the text is not empty.
pub open spec fn content_text_of(content: JsonV) -> Option<Seq<char>> {
    match jarray(jfield(content, "parts"@)) {
        Some(parts) => {
            let t = part_texts(parts, parts.len());
            if t.len() > 0 { Some(t) } else { None }
        },
        None => None,
    }
}

/// The text of a Gemini `content`.
pub fn content_text(content: Option<&Json>) -> (r: Option<String>)
    ensures
        opt_view(r) == content_text_of(ojv(content)),
{
    let parts = match as_array(field(content, "parts")) {
        Some(p) => p,
        None => return None,
    };
    let ghost ps = jviews(parts@);
    let mut out = String::new();
    let mut i: usize = 0;
    while i < parts.len()
        invariant
            i <= parts@.len(),
            ps == jviews(parts@),
            ps.len() == parts@.len(),
            out@ == part_texts(ps, i as nat),
        decreases parts@.len() - i,
    {
        match as_str(field(Some(&parts[i]), "text")) {
            Some(t) => out.append(t.as_str()),
            None => {},
        }
        i = i + 1;
    }
    if out.as_str().is_empty() {
        None
    } else {
        Some(out)
    }
}

/// A model name without a leading `models/`.
pub open spec fn normalized_model(m: Seq<char>) -> Seq<char> {
    if m.len() >= 7 && m.take(7) == "models/"@ { m.skip(7) } else { m }
}

/// A model name without a leading `models/`.
pub fn normalize_model(model: &str) -> (r: String)
    ensures
        r@ == normalized_model(model@),
{
    let cs = crate::text::chars_of(model);
    let prefix = crate::text::chars_of("models/");
    proof {
        reveal_strlit("models/");
    }
    if cs.len() >= 7 {
        let mut same = true;
        let mut i: usize = 0;
        while i < 7
            invariant
                i <= 7,
                cs@.len() >= 7,
                prefix@ == "models/"@,
                prefix@.len() == 7,
                same == (forall|k: int| 0 <= k < i ==> cs@[k] == prefix@[k]),
            decreases 7 - i,
        {
            same = same && cs[i] == prefix[i];
            i = i + 1;
        }
        if same {
            assert(cs@.take(7) =~= prefix@);
            let rest = crate::text::slice_chars(&cs, 7, cs.len());
            assert(rest@ =~= model@.skip(7));
            return crate::text::string_of(rest.as_slice());
        } else {
            assert(cs@.take(7) != "models/"@) by {
                let k = choose|k: int| 0 <= k < 7 && cs@[k] != prefix@[k];
                assert(cs@.take(7)[k] != prefix@[k]);
            }
        }
    }
    String::from_str(model)
}

/// The id that a call without one is given: `call_`, the number of messages
/// before its message, `_`, and the call's position among its message's parts.
pub open spec fn generated_call_id(count: nat, index: nat) -> Seq<char> {
    "call_"@ + decimal(count) + "_"@ + decimal(index)
}

fn call_id(count: usize, index: usize) -> (r: String)
    ensures
        r@ == generated_call_id(count as nat, index as nat),
{
    let mut s = crate::openai_api::tagged_id("call_", count as u128);
    push_char(&mut s, '_');
    let digits = decimal_string(index as u128);
    s.append(digits.as_str());
    proof {
        reveal_strlit("_");
        assert("_"@ =~= seq!['_']);
    }
    s
}

/// The id of the latest call of the tool `name`.
pub open spec fn latest_call(calls: Seq<(Seq<char>, Seq<char>)>, name: Seq<char>) -> Option<Seq<char>>
    decreases calls.len(),
{
    if calls.len() == 0 {
        None
    } else if calls.last().0 == name {
        Some(calls.last().1)
    } else {
        latest_call(calls.drop_last(), name)
    }
}

/// A member under its camel-case name, else under its snake-case name.
pub open spec fn either_member(v: JsonV, camel: Seq<char>, snake: Seq<char>) -> Option<JsonV> {
    match jget(v, camel) {
        Some(x) => Some(x),
        None => jget(v, snake),
    }
}

/// A message being read part by part, with the calls made so far by tool name.
#[verifier::ext_equal]
pub struct PartsV {
    pub message: MessageV,
    pub calls: Seq<(Seq<char>, Seq<char>)>,
}

/// What one part adds to the message, at position `index` of a message that
/// follows `count` others: its text, its function call, its function response.
pub open spec fn part_step(st: PartsV, part: JsonV, count: nat, index: nat) -> PartsV {
    let m1 = match jstr(jfield(part, "text"@)) {
        Some(t) => MessageV { content: st.message.content.push(t), ..st.message },
        None => st.message,
    };
    let (m2, calls) = match either_member(part, "functionCall"@, "function_call"@) {
        Some(call) => {
            let id = match jstr(jfield(call, "id"@)) {
                Some(i) => i,
                None => generated_call_id(count, index),
            };
            let name = text_field(call, "name"@);
            (
                MessageV { tool_calls: m1.tool_calls.push(ToolCallV { id, name, arguments: json_text(jfield(call, "args"@)) }), ..m1 },
                st.calls.push((name, id)),
            )
        },
        None => (m1, st.calls),
    };
    let m3 = match either_member(part, "functionResponse"@, "function_response"@) {
        Some(resp) => {
            let name = str_or(jstr(jfield(resp, "name"@)), "tool"@);
            MessageV {
                role: Role::Tool,
                tool_call_id: match jstr(jfield(resp, "id"@)) {
                    Some(i) => Some(i),
                    None => latest_call(calls, name),
                },
                content: m2.content.push(json_text(jfield(resp, "response"@))),
                ..m2
            }
        },
        None => m2,
    };
    PartsV { message: m3, calls }
}

/// What the first `n` parts make of a message that starts as `st`.
pub open spec fn parts_state(st: PartsV, parts: Seq<JsonV>, count: nat, n: nat) -> PartsV
    decreases n,
{
    if n == 0 || n > parts.len() {
        st
    } else {
        part_step(parts_state(st, parts, count, (n - 1) as nat), parts[n - 1], count, (n - 1) as nat)
    }
}

/// The messages read so far, with the calls made so far by tool name.
#[verifier::ext_equal]
pub struct ContentsV {
    pub messages: Seq<MessageV>,
    pub calls: Seq<(Seq<char>, Seq<char>)>,
}

/// What one `content` adds; `None` when its parts are missing.
pub open spec fn content_step(st: ContentsV, content: JsonV) -> Option<ContentsV> {
    match jarray(jfield(content, "parts"@)) {
        None => None,
        Some(parts) => {
            let role = if jstr(jfield(content, "role"@)) == Some("model"@) { Role::Assistant } else { Role::User };
            let start = PartsV {
                message: MessageV { role, content: Seq::empty(), tool_calls: Seq::empty(), tool_call_id: None },
                calls: st.calls,
            };
            let done = parts_state(start, parts, st.messages.len(), parts.len());
            Some(ContentsV { messages: st.messages.push(done.message), calls: done.calls })
        },
    }
}

/// What the first `n` contents make of `st`; `None` once one lacks its parts.
pub open spec fn contents_state(st: ContentsV, contents: Seq<JsonV>, n: nat) -> Option<ContentsV>
    decreases n,
{
    if n == 0 || n > contents.len() {
        Some(st)
    } else {
        match contents_state(st, contents, (n - 1) as nat) {
            Some(s) => content_step(s, contents[n - 1]),
            None => None,
        }
    }
}

/// The system instruction of a request, as a message.
pub open spec fn gemini_system(p: JsonV) -> Seq<MessageV> {
    let text = match content_text_of(jfield(p, "systemInstruction"@)) {
        Some(t) => Some(t),
        None => content_text_of(jfield(p, "system_instruction"@)),
    };
    match text {
        Some(t) => seq![MessageV { role: Role::System, content: seq![t], tool_calls: Seq::empty(), tool_call_id: None }],
        None => Seq::empty(),
    }
}

/// The function declarations of one Gemini tool.
pub open spec fn declarations(tool: JsonV) -> Seq<JsonV> {
    match jarray(jfield(tool, "functionDeclarations"@)) {
        Some(ds) => ds,
        None => match jarray(jfield(tool, "function_declarations"@)) {
            Some(ds) => ds,
            None => Seq::empty(),
        },
    }
}

/// A function declaration, as a tool.
pub open spec fn gemini_tool(f: JsonV) -> ToolV {
    ToolV { name: text_field(f, "name"@), description: jstr(jfield(f, "description"@)), parameters: jfield(f, "parameters"@) }
}

/// The tools that the first `n` Gemini tools declare, in order.
pub open spec fn declared_tools(tools: Seq<JsonV>, n: nat) -> Seq<ToolV>
    decreases n,
{
    if n == 0 || n > tools.len() {
        Seq::empty()
    } else {
        declared_tools(tools, (n - 1) as nat) + declarations(tools[n - 1]).map_values(|f: JsonV| gemini_tool(f))
    }
}

/// The function calling configuration, when it is an object under either name.
pub open spec fn function_config(p: JsonV) -> Option<JsonV> {
    let camel = jfield(jfield(p, "toolConfig"@), "functionCallingConfig"@);
    let snake = jfield(jfield(p, "tool_config"@), "function_calling_config"@);
    if camel is Object {
        Some(camel)
    } else if snake is Object {
        Some(snake)
    } else {
        None
    }
}

/// The tool choice that a function calling configuration makes: the first
/// allowed function when it is named, else by the mode.
pub open spec fn config_choice(c: JsonV) -> ToolChoiceV {
    let allowed = match jarray(jfield(c, "allowedFunctionNames"@)) {
        Some(a) => Some(a),
        None => jarray(jfield(c, "allowed_function_names"@)),
    };
    let first = match allowed {
        Some(a) => if a.len() > 0 { jstr(a[0]) } else { None },
        None => None,
    };
    match first {
        Some(name) => ToolChoiceV::Tool(name),
        None => {
            let mode = str_or(jstr(jfield(c, "mode"@)), "AUTO"@);
            if mode == "NONE"@ {
                ToolChoiceV::Disabled
            } else if mode == "ANY"@ || mode == "VALIDATED"@ {
                ToolChoiceV::Required
            } else {
                ToolChoiceV::Auto
            }
        },
    }
}

/// The reasoning effort that a thinking level names.
pub open spec fn thinking_level(t: JsonV) -> Option<ReasoningEffort> {
    match jstr(jfield(t, "thinkingLevel"@)) {
        Some(l) => if l == "LOW"@ {
            Some(ReasoningEffort::Low)
        } else if l == "MEDIUM"@ {
            Some(ReasoningEffort::Medium)
        } else if l == "HIGH"@ {
            Some(ReasoningEffort::High)
        } else {
            None
        },
        None => None,
    }
}

/// A Gemini `generateContent` request for `model`, translated.
pub open spec fn gemini_request(model: Seq<char>, p: JsonV, stream: bool) -> Result<ChatRequestV, Seq<char>> {
    match jarray(jfield(p, "contents"@)) {
        None => Err("contents missing"@),
        Some(contents) => {
            let start = ContentsV { messages: gemini_system(p), calls: Seq::empty() };
            match contents_state(start, contents, contents.len()) {
                None => Err("content.parts missing"@),
                Some(done) => {
                    let generation = jfield(p, "generationConfig"@);
                    let thinking = jfield(generation, "thinkingConfig"@);
                    let tools = match jarray(jfield(p, "tools"@)) {
                        Some(ts) => declared_tools(ts, ts.len()),
                        None => Seq::empty(),
                    };
                    Ok(ChatRequestV {
                        model: Some(normalized_model(model)),
                        messages: done.messages,
                        tools,
                        tool_choice: match function_config(p) {
                            Some(c) => Some(config_choice(c)),
                            None => None,
                        },
                        stream,
                        max_tokens: to_u32(ju64(jfield(generation, "maxOutputTokens"@))),
                        temperature: jnumber(jfield(generation, "temperature"@)),
                        top_p: jnumber(jfield(generation, "topP"@)),
                        reasoning_effort: thinking_level(thinking),
                        thinking_budget_tokens: to_u32(ju64(jfield(thinking, "thinkingBudget"@))),
                    })
                },
            }
        },
    }
}

} // verus!

verus! {

/// The calls made so far, by tool name and id.
pub open spec fn calls_view(v: Seq<(String, String)>) -> Seq<(Seq<char>, Seq<char>)> {
    v.map_values(|c: (String, String)| (c.0@, c.1@))
}

fn member_either<'a>(part: &'a Json, camel: &str, snake: &str) -> (r: Option<&'a Json>)
    ensures
        match r {
            Some(v) => either_member(jview(*part), camel@, snake@) == Some(jview(*v)),
            None => either_member(jview(*part), camel@, snake@) is None,
        },
{
    match get(Some(part), camel) {
        Some(v) => Some(v),
        None => get(Some(part), snake),
    }
}

pub(crate) fn latest_call_id(calls: &Vec<(String, String)>, name: &str) -> (r: Option<String>)
    ensures
        opt_view(r) == latest_call(calls_view(calls@), name@),
{
    let ghost cv = calls_view(calls@);
    let mut j: usize = calls.len();
    assert(cv.take(cv.len() as int) =~= cv);
    while j > 0
        invariant
            j <= calls@.len(),
            cv == calls_view(calls@),
            cv.len() == calls@.len(),
            latest_call(cv, name@) == latest_call(cv.take(j as int), name@),
        decreases j,
    {
        let ghost t = cv.take(j as int);
        assert(t.last() == cv[j - 1]);
        assert(t.drop_last() =~= cv.take(j - 1));
        if str_eq(calls[j - 1].0.as_str(), name) {
            return Some(calls[j - 1].1.clone());
        }
        j = j - 1;
    }
    assert(cv.take(0) =~= Seq::<(Seq<char>, Seq<char>)>::empty());
    None
}

fn read_part(m: &mut Message, calls: &mut Vec<(String, String)>, part: &Json, count: usize, index: usize)
    ensures
        part_step(PartsV { message: old(m)@, calls: calls_view(old(calls)@) }, jview(*part), count as nat, index as nat)
            == (PartsV { message: final(m)@, calls: calls_view(final(calls)@) }),
{
    let p = Some(part);
    match as_str(field(p, "text")) {
        Some(t) => push_text(&mut m.content, t.clone()),
        None => {},
    }
    let ghost m1 = m@;
    match member_either(part, "functionCall", "function_call") {
        Some(call) => {
            let id = match as_str(field(Some(call), "id")) {
                Some(i) => i.clone(),
                None => call_id(count, index),
            };
            let name = text_or(field(Some(call), "name"), "");
            let ghost before = calls@;
            calls.push((name.clone(), id.clone()));
            assert(calls_view(calls@) =~= calls_view(before).push((name@, id@)));
            let c = ToolCall { id, name, arguments: to_text(&copy_or_null(field(Some(call), "args"))) };
            push_call(&mut m.tool_calls, c);
        },
        None => {},
    }
    let ghost m2 = m@;
    match member_either(part, "functionResponse", "function_response") {
        Some(resp) => {
            let name = text_or(field(Some(resp), "name"), "tool");
            m.role = Role::Tool;
            m.tool_call_id = match as_str(field(Some(resp), "id")) {
                Some(i) => Some(i.clone()),
                None => latest_call_id(calls, name.as_str()),
            };
            push_text(&mut m.content, to_text(&copy_or_null(field(Some(resp), "response"))));
        },
        None => {},
    }
    assert(part_step(PartsV { message: old(m)@, calls: calls_view(old(calls)@) }, jview(*part), count as nat, index as nat)
        =~= (PartsV { message: m@, calls: calls_view(calls@) }));
}

fn read_content(messages: &mut Vec<Message>, calls: &mut Vec<(String, String)>, content: &Json) -> (ok: bool)
    ensures
        ok ==> content_step(
            ContentsV { messages: old(messages)@.map_values(|m: Message| m@), calls: calls_view(old(calls)@) },
            jview(*content),
        ) == Some(ContentsV { messages: final(messages)@.map_values(|m: Message| m@), calls: calls_view(final(calls)@) }),
        !ok ==> content_step(
            ContentsV { messages: old(messages)@.map_values(|m: Message| m@), calls: calls_view(old(calls)@) },
            jview(*content),
        ) is None,
{
    let c = Some(content);
    let parts = match as_array(field(c, "parts")) {
        Some(p) => p,
        None => return false,
    };
    let role = match as_str(field(c, "role")) {
        Some(r) => if str_eq(r.as_str(), "model") { Role::Assistant } else { Role::User },
        None => Role::User,
    };
    let count = messages.len();
    let mut m = Message { role, content: Vec::new(), tool_calls: Vec::new(), tool_call_id: None };
    let ghost ps = jviews(parts@);
    let ghost start = PartsV {
        message: MessageV { role, content: Seq::empty(), tool_calls: Seq::empty(), tool_call_id: None },
        calls: calls_view(calls@),
    };
    assert(m@ =~= start.message);
    let mut i: usize = 0;
    while i < parts.len()
        invariant
            i <= parts@.len(),
            ps == jviews(parts@),
            ps.len() == parts@.len(),
            parts_state(start, ps, count as nat, i as nat) == (PartsV { message: m@, calls: calls_view(calls@) }),
        decreases parts@.len() - i,
    {
        read_part(&mut m, calls, &parts[i], count, i);
        i = i + 1;
    }
    let ghost before = messages@;
    messages.push(m);
    assert(messages@.map_values(|m: Message| m@) =~= before.map_values(|m: Message| m@).push(m@));
    true
}

/// The tools that a list of Gemini tools declares.
fn read_tools(o: Option<&Json>) -> (r: Vec<Tool>)
    ensures
        r@.map_values(|t: Tool| t@) == match jarray(ojv(o)) {
            Some(ts) => declared_tools(ts, ts.len()),
            None => Seq::empty(),
        },
{
    let mut out: Vec<Tool> = Vec::new();
    match as_array(o) {
        Some(ts) => {
            let ghost tv = jviews(ts@);
            let mut i: usize = 0;
            while i < ts.len()
                invariant
                    i <= ts@.len(),
                    tv == jviews(ts@),
                    tv.len() == ts@.len(),
                    out@.map_values(|t: Tool| t@) == declared_tools(tv, i as nat),
                decreases ts@.len() - i,
            {
                let t = Some(&ts[i]);
                let decls = match as_array(field(t, "functionDeclarations")) {
                    Some(d) => Some(d),
                    None => as_array(field(t, "function_declarations")),
                };
                let ghost base = out@.map_values(|t: Tool| t@);
                match decls {
                    Some(ds) => {
                        let ghost dv = jviews(ds@);
                        assert(dv == declarations(tv[i as int]));
                        let mut k: usize = 0;
                        while k < ds.len()
                            invariant
                                k <= ds@.len(),
                                dv == jviews(ds@),
                                out@.map_values(|t: Tool| t@) == base + dv.take(k as int).map_values(|f: JsonV| gemini_tool(f)),
                            decreases ds@.len() - k,
                        {
                            let f = Some(&ds[k]);
                            let tool = Tool {
                                name: text_or(field(f, "name"), ""),
                                description: opt_text(field(f, "description")),
                                parameters: copy_or_null(field(f, "parameters")),
                            };
                            let ghost before = out@;
                            out.push(tool);
                            assert(out@.map_values(|t: Tool| t@) =~= before.map_values(|t: Tool| t@).push(tool@));
                            assert(dv.take(k + 1).map_values(|f: JsonV| gemini_tool(f))
                                =~= dv.take(k as int).map_values(|f: JsonV| gemini_tool(f)).push(gemini_tool(dv[k as int])));
                            k = k + 1;
                        }
                        assert(dv.take(ds@.len() as int) =~= dv);
                    },
                    None => {
                        assert(declarations(tv[i as int]) =~= Seq::<JsonV>::empty());
                        assert(base =~= base + Seq::<JsonV>::empty().map_values(|f: JsonV| gemini_tool(f)));
                    },
                }
                i = i + 1;
            }
        },
        None => {
            assert(out@.map_values(|t: Tool| t@) =~= Seq::<ToolV>::empty());
        },
    }
    out
}

fn mode_choice(c: &Json) -> (r: ToolChoice)
    ensures
        r@ == config_choice(jview(*c)),
{
    let o = Some(c);
    let allowed = match as_array(field(o, "allowedFunctionNames")) {
        Some(a) => Some(a),
        None => as_array(field(o, "allowed_function_names")),
    };
    let first = match allowed {
        Some(a) => if a.len() > 0 { as_str(Some(&a[0])) } else { None },
        None => None,
    };
    match first {
        Some(name) => ToolChoice::Tool(name.clone()),
        None => {
            let mode = text_or(field(o, "mode"), "AUTO");
            if str_eq(mode.as_str(), "NONE") {
                ToolChoice::Disabled
            } else if str_eq(mode.as_str(), "ANY") || str_eq(mode.as_str(), "VALIDATED") {
                ToolChoice::Required
            } else {
                ToolChoice::Auto
            }
        },
    }
}

fn read_tool_choice(p: &Json) -> (r: Option<ToolChoice>)
    ensures
        choice_view(r) == match function_config(jview(*p)) {
            Some(c) => Some(config_choice(c)),
            None => None,
        },
{
    let camel = field(field(Some(p), "toolConfig"), "functionCallingConfig");
    if is_object(camel) {
        match camel {
            Some(c) => return Some(mode_choice(c)),
            None => {},
        }
    }
    let snake = field(field(Some(p), "tool_config"), "function_calling_config");
    if is_object(snake) {
        match snake {
            Some(c) => return Some(mode_choice(c)),
            None => {},
        }
    }
    None
}

fn read_thinking_level(t: Option<&Json>) -> (r: Option<ReasoningEffort>)
    ensures
        r == thinking_level(ojv(t)),
{
    match as_str(field(t, "thinkingLevel")) {
        Some(l) => if str_eq(l.as_str(), "LOW") {
            Some(ReasoningEffort::Low)
        } else if str_eq(l.as_str(), "MEDIUM") {
            Some(ReasoningEffort::Medium)
        } else if str_eq(l.as_str(), "HIGH") {
            Some(ReasoningEffort::High)
        } else {
            None
        },
        None => None,
    }
}

/// Translates a Gemini `generateContent` request for `model`; `stream` says
/// whether it came to the streaming endpoint.
pub fn to_internal_request(model: &str, payload: &Json, stream: bool) -> (r: Result<ChatRequest, String>)
    ensures
        match r {
            Ok(req) => gemini_request(model@, jview(*payload), stream) == Ok::<ChatRequestV, Seq<char>>(req@),
            Err(e) => gemini_request(model@, jview(*payload), stream) == Err::<ChatRequestV, Seq<char>>(e@),
        },
{
    let p = Some(payload);
    let mut messages: Vec<Message> = Vec::new();
    let system = match content_text(field(p, "systemInstruction")) {
        Some(t) => Some(t),
        None => content_text(field(p, "system_instruction")),
    };
    match system {
        Some(t) => {
            messages.push(Message { role: Role::System, content: text_content(t), tool_calls: no_calls(), tool_call_id: None });
        },
        None => {},
    }
    assert(messages@.map_values(|m: Message| m@) =~= gemini_system(jview(*payload)));
    let contents = match as_array(field(p, "contents")) {
        Some(c) => c,
        None => return Err(String::from_str("contents missing")),
    };
    let mut calls: Vec<(String, String)> = Vec::new();
    let ghost cs = jviews(contents@);
    let ghost start = ContentsV { messages: gemini_system(jview(*payload)), calls: Seq::empty() };
    assert(calls_view(calls@) =~= Seq::<(Seq<char>, Seq<char>)>::empty());
    let mut i: usize = 0;
    while i < contents.len()
        invariant
            i <= contents@.len(),
            cs == jviews(contents@),
            cs.len() == contents@.len(),
            jarray(jfield(jview(*payload), "contents"@)) == Some(cs),
            start == (ContentsV { messages: gemini_system(jview(*payload)), calls: Seq::empty() }),
            contents_state(start, cs, i as nat)
                == Some(ContentsV { messages: messages@.map_values(|m: Message| m@), calls: calls_view(calls@) }),
        decreases contents@.len() - i,
    {
        if !read_content(&mut messages, &mut calls, &contents[i]) {
            assert(contents_state(start, cs, (i + 1) as nat) is None);
            proof {
                lemma_contents_stay_failed(start, cs, (i + 1) as nat, cs.len());
                assert(jarray(jfield(jview(*payload), "contents"@)) == Some(cs));
                assert(gemini_request(model@, jview(*payload), stream) == Err::<ChatRequestV, Seq<char>>("content.parts missing"@));
            }
            return Err(String::from_str("content.parts missing"));
        }
        i = i + 1;
    }
    let generation = field(p, "generationConfig");
    let thinking = field(generation, "thinkingConfig");
    let req = ChatRequest {
        model: Some(normalize_model(model)),
        messages,
        tools: read_tools(field(p, "tools")),
        tool_choice: read_tool_choice(payload),
        stream,
        max_tokens: opt_u32(field(generation, "maxOutputTokens")),
        temperature: opt_number(field(generation, "temperature")),
        top_p: opt_number(field(generation, "topP")),
        reasoning_effort: read_thinking_level(thinking),
        thinking_budget_tokens: opt_u32(field(thinking, "thinkingBudget")),
    };
    assert(req@ =~= gemini_request(model@, jview(*payload), stream)->Ok_0);
    Ok(req)
}

/// Once a content lacks its parts, reading more contents does not recover.
proof fn lemma_contents_stay_failed(st: ContentsV, cs: Seq<JsonV>, m: nat, n: nat)
    requires
        m <= n <= cs.len(),
        contents_state(st, cs, m) is None,
    ensures
        contents_state(st, cs, n) is None,
    decreases n - m,
{
    if m < n {
        lemma_contents_stay_failed(st, cs, m, (n - 1) as nat);
    }
}

} // verus!

verus! {

/// The arguments of a function call: the document its text reads as, or an
/// empty object where it is not JSON.
pub open spec fn call_args(parsed: Result<JsonV, Seq<char>>) -> JsonV {
    match parsed {
        Ok(j) => j,
        Err(_) => JsonV::Object(Seq::empty()),
    }
}

/// A `functionCall` part for a call whose arguments read as `parsed`.
pub open spec fn function_call_json(c: ToolCallV, parsed: Result<JsonV, Seq<char>>) -> JsonV {
    jobj1("functionCall"@, JsonV::Object(Seq::empty()
        .push(("id"@, JsonV::Str(c.id)))
        .push(("name"@, JsonV::Str(c.name)))
        .push(("args"@, call_args(parsed)))))
}

/// The Gemini finish reason for a finish reason.
pub open spec fn gemini_finish_text(r: FinishReason) -> Seq<char> {
    match r {
        FinishReason::Length => "MAX_TOKENS"@,
        FinishReason::ContentFilter => "SAFETY"@,
        FinishReason::Error => "OTHER"@,
        _ => "STOP"@,
    }
}

/// Token counts in Gemini's names.
pub open spec fn usage_metadata_json(u: Usage) -> JsonV {
    JsonV::Object(Seq::empty()
        .push(("promptTokenCount"@, juint(u.prompt_tokens as nat)))
        .push(("candidatesTokenCount"@, juint(u.completion_tokens as nat)))
        .push(("totalTokenCount"@, juint(u.total_tokens as nat))))
}

/// The parts of a response: one per text, then one per tool call.
pub open spec fn response_parts(m: MessageV) -> Seq<JsonV> {
    m.content.map_values(|t: Seq<char>| jobj1("text"@, JsonV::Str(t)))
        + m.tool_calls.map_values(|c: ToolCallV| function_call_json(c, parsed_json(c.arguments)))
}

/// A response in the Gemini wire format.
pub open spec fn gemini_response_json(r: ChatResponseV) -> JsonV {
    let candidate = jobj2(
        "content"@, jobj2("role"@, JsonV::Str("model"@), "parts"@, JsonV::Array(response_parts(r.message))),
        "finishReason"@, JsonV::Str(gemini_finish_text(r.finish_reason)),
    );
    jobj2("candidates"@, jarr1(candidate), "usageMetadata"@, match r.usage {
        Some(u) => usage_metadata_json(u),
        None => JsonV::Null,
    })
}

/// A `functionCall` part for a call, given what its arguments read as.
pub fn function_call_part(call: &ToolCall, parsed: Result<Json, String>) -> (r: Json)
    ensures
        jview(r) == function_call_json(call@, parsed_view(parsed)),
{
    let args = match parsed {
        Ok(j) => j,
        Err(_) => ObjectBuilder::new().build(),
    };
    let inner = ObjectBuilder::new()
        .with("id", jstring(call.id.clone()))
        .with("name", jstring(call.name.clone()))
        .with("args", args)
        .build();
    object1("functionCall", inner)
}

fn usage_metadata(u: Usage) -> (r: Json)
    ensures
        jview(r) == usage_metadata_json(u),
{
    ObjectBuilder::new()
        .with("promptTokenCount", jcount(u.prompt_tokens))
        .with("candidatesTokenCount", jcount(u.completion_tokens))
        .with("totalTokenCount", jcount(u.total_tokens))
        .build()
}

/// A response in the Gemini wire format.
pub fn to_gemini_response(response: &ChatResponse) -> (r: Json)
    ensures
        jview(r) == gemini_response_json(response@),
{
    let m = &response.message;
    let ghost texts = m@.content;
    let mut parts = ArrayBuilder::new();
    let mut i: usize = 0;
    while i < m.content.len()
        invariant
            i <= m.content@.len(),
            texts == m@.content,
            texts.len() == m.content@.len(),
            parts.spec_items() == texts.take(i as int).map_values(|t: Seq<char>| jobj1("text"@, JsonV::Str(t))),
        decreases m.content@.len() - i,
    {
        let t = match &m.content[i] {
            ContentPart::Text { text } => text.clone(),
        };
        assert(t@ == texts[i as int]);
        parts.push(object1("text", jstring(t)));
        assert(texts.take(i + 1).map_values(|t: Seq<char>| jobj1("text"@, JsonV::Str(t)))
            =~= texts.take(i as int).map_values(|t: Seq<char>| jobj1("text"@, JsonV::Str(t))).push(jobj1("text"@, JsonV::Str(texts[i as int]))));
        i = i + 1;
    }
    assert(texts.take(texts.len() as int) =~= texts);
    let ghost head = parts.spec_items();
    let ghost calls = m@.tool_calls;
    let mut k: usize = 0;
    while k < m.tool_calls.len()
        invariant
            k <= m.tool_calls@.len(),
            calls == m@.tool_calls,
            calls.len() == m.tool_calls@.len(),
            parts.spec_items() == head + calls.take(k as int).map_values(|c: ToolCallV| function_call_json(c, parsed_json(c.arguments))),
        decreases m.tool_calls@.len() - k,
    {
        let parsed = parse_json(m.tool_calls[k].arguments.as_str());
        parts.push(function_call_part(&m.tool_calls[k], parsed));
        assert(calls.take(k + 1).map_values(|c: ToolCallV| function_call_json(c, parsed_json(c.arguments)))
            =~= calls.take(k as int).map_values(|c: ToolCallV| function_call_json(c, parsed_json(c.arguments)))
                .push(function_call_json(calls[k as int], parsed_json(calls[k as int].arguments))));
        k = k + 1;
    }
    assert(calls.take(calls.len() as int) =~= calls);
    let finish = match response.finish_reason {
        FinishReason::Length => "MAX_TOKENS",
        FinishReason::ContentFilter => "SAFETY",
        FinishReason::Error => "OTHER",
        _ => "STOP",
    };
    let content = object2("role", jstr_of("model"), "parts", parts.build());
    let candidate = object2("content", content, "finishReason", jstr_of(finish));
    let usage = match response.usage {
        Some(u) => usage_metadata(u),
        None => Json::Null,
    };
    object2("candidates", single(candidate), "usageMetadata", usage)
}

/// A batch of embeddings in the Gemini wire format.
pub open spec fn batch_embeddings_json(vectors: Seq<Seq<Seq<char>>>) -> JsonV {
    jobj1("embeddings"@, JsonV::Array(vectors.map_values(|v: Seq<Seq<char>>| jobj1("values"@, numbers_json(v)))))
}

/// A batch of embeddings in the Gemini wire format.
pub fn batch_embedding_response(response: &EmbeddingResponse) -> (r: Json)
    ensures
        jview(r) == batch_embeddings_json(vectors_view(*response)),
{
    let ghost vecs = vectors_view(*response);
    let mut b = ArrayBuilder::new();
    let mut i: usize = 0;
    while i < response.vectors.len()
        invariant
            i <= response.vectors@.len(),
            vecs == vectors_view(*response),
            vecs.len() == response.vectors@.len(),
            b.spec_items() == vecs.take(i as int).map_values(|v: Seq<Seq<char>>| jobj1("values"@, numbers_json(v))),
        decreases response.vectors@.len() - i,
    {
        b.push(object1("values", numbers_to_json(&response.vectors[i])));
        assert(vecs.take(i + 1).map_values(|v: Seq<Seq<char>>| jobj1("values"@, numbers_json(v)))
            =~= vecs.take(i as int).map_values(|v: Seq<Seq<char>>| jobj1("values"@, numbers_json(v))).push(jobj1("values"@, numbers_json(vecs[i as int]))));
        i = i + 1;
    }
    assert(vecs.take(vecs.len() as int) =~= vecs);
    object1("embeddings", b.build())
}

/// One embedding in the Gemini wire format: the first vector, or none.
pub open spec fn single_embedding_json(vectors: Seq<Seq<Seq<char>>>) -> JsonV {
    jobj1("embedding"@, jobj1("values"@, numbers_json(if vectors.len() > 0 { vectors[0] } else { Seq::empty() })))
}

/// One embedding in the Gemini wire format.
pub fn embedding_response(response: &EmbeddingResponse) -> (r: Json)
    ensures
        jview(r) == single_embedding_json(vectors_view(*response)),
{
    let values = if response.vectors.len() > 0 {
        numbers_to_json(&response.vectors[0])
    } else {
        let none: Vec<String> = Vec::new();
        let j = numbers_to_json(&none);
        assert(none@.map_values(|x: String| x@) =~= Seq::<Seq<char>>::empty());
        j
    };
    object1("embedding", object1("values", values))
}

} // verus!

verus! {

/// The operation that a `models/{model}:{operation}` path asks for.
pub enum GeminiAction {
    Generate(String),
    StreamGenerate(String),
    Embed(String),
    BatchEmbed(String),
    Unknown,
}

/// The value of an operation.
pub enum GeminiActionV {
    Generate(Seq<char>),
    StreamGenerate(Seq<char>),
    Embed(Seq<char>),
    BatchEmbed(Seq<char>),
    Unknown,
}

/// The value of an operation.
pub open spec fn action_view(a: GeminiAction) -> GeminiActionV {
    match a {
        GeminiAction::Generate(m) => GeminiActionV::Generate(m@),
        GeminiAction::StreamGenerate(m) => GeminiActionV::StreamGenerate(m@),
        GeminiAction::Embed(m) => GeminiActionV::Embed(m@),
        GeminiAction::BatchEmbed(m) => GeminiActionV::BatchEmbed(m@),
        GeminiAction::Unknown => GeminiActionV::Unknown,
    }
}

/// The operation that an action path asks for, by its suffix, tried in this order.
pub open spec fn action_of(a: Seq<char>) -> GeminiActionV {
    match without_suffix(a, ":generateContent"@) {
        Some(m) => GeminiActionV::Generate(m),
        None => match without_suffix(a, ":streamGenerateContent"@) {
            Some(m) => GeminiActionV::StreamGenerate(m),
            None => match without_suffix(a, ":embedContent"@) {
                Some(m) => GeminiActionV::Embed(m),
                None => match without_suffix(a, ":batchEmbedContents"@) {
                    Some(m) => GeminiActionV::BatchEmbed(m),
                    None => GeminiActionV::Unknown,
                },
            },
        },
    }
}

/// The operation that an action path asks for.
pub fn model_action(action: &str) -> (r: GeminiAction)
    ensures
        action_view(r) == action_of(action@),
{
    if let Some(m) = strip_suffix(action, ":generateContent") {
        return GeminiAction::Generate(m);
    }
    if let Some(m) = strip_suffix(action, ":streamGenerateContent") {
        return GeminiAction::StreamGenerate(m);
    }
    if let Some(m) = strip_suffix(action, ":embedContent") {
        return GeminiAction::Embed(m);
    }
    if let Some(m) = strip_suffix(action, ":batchEmbedContents") {
        return GeminiAction::BatchEmbed(m);
    }
    GeminiAction::Unknown
}

/// The generation methods that a model supports.
pub open spec fn methods_json(m: ModelInfoV) -> Seq<JsonV> {
    (if m.supports_chat { seq![JsonV::Str("generateContent"@)] } else { Seq::empty() })
        + (if m.supports_embeddings { seq![JsonV::Str("embedContent"@)] } else { Seq::empty() })
}

/// A model in the Gemini wire format.
pub open spec fn gemini_model_json(m: ModelInfoV) -> JsonV {
    JsonV::Object(Seq::empty()
        .push(("name"@, JsonV::Str("models/"@ + m.id)))
        .push(("baseModelId"@, JsonV::Str(m.id)))
        .push(("displayName"@, JsonV::Str(m.id)))
        .push(("supportedGenerationMethods"@, JsonV::Array(methods_json(m)))))
}

/// A model in the Gemini wire format.
pub fn gemini_model(m: &ModelInfo) -> (r: Json)
    ensures
        jview(r) == gemini_model_json(m@),
{
    let mut methods = ArrayBuilder::new();
    if m.supports_chat {
        methods.push(jstr_of("generateContent"));
    }
    if m.supports_embeddings {
        methods.push(jstr_of("embedContent"));
    }
    assert(methods.spec_items() =~= methods_json(m@));
    let mut name = String::from_str("models/");
    name.append(m.id.as_str());
    ObjectBuilder::new()
        .with("name", jstring(name))
        .with("baseModelId", jstring(m.id.clone()))
        .with("displayName", jstring(m.id.clone()))
        .with("supportedGenerationMethods", methods.build())
        .build()
}

/// The Gemini model listing.
pub open spec fn gemini_models_json(ms: Seq<ModelInfoV>) -> JsonV {
    jobj1("models"@, JsonV::Array(ms.map_values(|m: ModelInfoV| gemini_model_json(m))))
}

/// The Gemini model listing.
pub fn gemini_models(models: &Vec<ModelInfo>) -> (r: Json)
    ensures
        jview(r) == gemini_models_json(models_view(models@)),
{
    let ghost vals = models_view(models@);
    let mut b = ArrayBuilder::new();
    let mut i: usize = 0;
    while i < models.len()
        invariant
            i <= models@.len(),
            vals == models_view(models@),
            b.spec_items() == vals.take(i as int).map_values(|m: ModelInfoV| gemini_model_json(m)),
        decreases models@.len() - i,
    {
        b.push(gemini_model(&models[i]));
        assert(vals.take(i + 1).map_values(|m: ModelInfoV| gemini_model_json(m))
            =~= vals.take(i as int).map_values(|m: ModelInfoV| gemini_model_json(m)).push(gemini_model_json(vals[i as int])));
        i = i + 1;
    }
    assert(vals.take(models@.len() as int) =~= vals);
    object1("models", b.build())
}

/// The answer to a request for one model: the first model with the
/// requested id, less any `models/`, or a 404 error that names it.
pub open spec fn model_answer(ms: Seq<ModelInfoV>, requested: Seq<char>) -> (u16, JsonV) {
    let id = normalized_model(requested);
    match crate::providers::model_index(ms, id) {
        Some(i) => (200, gemini_model_json(ms[i])),
        None => (404, crate::status::gemini_error_json(404, "model '"@ + id + "' not found"@)),
    }
}

/// The answer to a request for one model, with its HTTP status.
pub fn model_lookup(models: &Vec<ModelInfo>, requested: &str) -> (r: (u16, Json))
    ensures
        r.0 == model_answer(models_view(models@), requested@).0,
        jview(r.1) == model_answer(models_view(models@), requested@).1,
{
    let id = normalize_model(requested);
    match crate::providers::find_model(models, id.as_str()) {
        Some(i) => {
            assert(models_view(models@)[i as int] == models@[i as int]@);
            (200, gemini_model(&models[i]))
        },
        None => {
            let mut msg = String::from_str("model '");
            msg.append(id.as_str());
            msg.append("' not found");
            (404, crate::status::gemini_error_body(404, msg))
        },
    }
}

/// The embedding request for one `content`, or an error when it has no text.
pub open spec fn embed_request_of(model: Seq<char>, p: JsonV) -> Result<crate::chat::EmbeddingRequestV, Seq<char>> {
    match content_text_of(jfield(p, "content"@)) {
        Some(t) => Ok(crate::chat::EmbeddingRequestV { input: seq![t], model: Some(normalized_model(model)) }),
        None => Err("content.parts must contain text"@),
    }
}

/// The embedding request for an `embedContent` call.
pub fn embed_request(model: &str, payload: &Json) -> (r: Result<crate::chat::EmbeddingRequest, String>)
    ensures
        match r {
            Ok(req) => embed_request_of(model@, jview(*payload)) == Ok::<crate::chat::EmbeddingRequestV, Seq<char>>(req@),
            Err(e) => embed_request_of(model@, jview(*payload)) == Err::<crate::chat::EmbeddingRequestV, Seq<char>>(e@),
        },
{
    match content_text(field(Some(payload), "content")) {
        Some(t) => {
            let req = crate::chat::EmbeddingRequest { input: vec![t], model: Some(normalize_model(model)) };
            assert(req@.input =~= seq![t@]);
            Ok(req)
        },
        None => Err(String::from_str("content.parts must contain text")),
    }
}

/// The embedding request for a `batchEmbedContents` call: the text of every
/// request's content, or an error.
pub open spec fn batch_request_of(model: Seq<char>, p: JsonV) -> Result<crate::chat::EmbeddingRequestV, Seq<char>> {
    match jarray(jfield(p, "requests"@)) {
        None => Err("requests missing"@),
        Some(rs) => if forall|i: int| 0 <= i < rs.len() ==> (#[trigger] content_text_of(jfield(rs[i], "content"@))) is Some {
            Ok(crate::chat::EmbeddingRequestV {
                input: rs.map_values(|r: JsonV| content_text_of(jfield(r, "content"@))->0),
                model: Some(normalized_model(model)),
            })
        } else {
            Err("every request.content must contain text"@)
        },
    }
}

/// The embedding request for a `batchEmbedContents` call.
pub fn batch_embed_request(model: &str, payload: &Json) -> (r: Result<crate::chat::EmbeddingRequest, String>)
    ensures
        match r {
            Ok(req) => batch_request_of(model@, jview(*payload)) == Ok::<crate::chat::EmbeddingRequestV, Seq<char>>(req@),
            Err(e) => batch_request_of(model@, jview(*payload)) == Err::<crate::chat::EmbeddingRequestV, Seq<char>>(e@),
        },
{
    let rs = match as_array(field(Some(payload), "requests")) {
        Some(rs) => rs,
        None => return Err(String::from_str("requests missing")),
    };
    let ghost rv = jviews(rs@);
    let mut inputs: Vec<String> = Vec::new();
    let mut i: usize = 0;
    while i < rs.len()
        invariant
            i <= rs@.len(),
            rv == jviews(rs@),
            rv.len() == rs@.len(),
            jarray(jfield(jview(*payload), "requests"@)) == Some(rv),
            inputs@.len() == i,
            forall|k: int| 0 <= k < i ==> (#[trigger] content_text_of(jfield(rv[k], "content"@))) == Some(inputs@[k]@),
        decreases rs@.len() - i,
    {
        match content_text(field(Some(&rs[i]), "content")) {
            Some(t) => inputs.push(t),
            None => {
                assert(content_text_of(jfield(rv[i as int], "content"@)) is None);
                return Err(String::from_str("every request.content must contain text"));
            },
        }
        i = i + 1;
    }
    let req = crate::chat::EmbeddingRequest { input: inputs, model: Some(normalize_model(model)) };
    assert(req@.input =~= rv.map_values(|r: JsonV| content_text_of(jfield(r, "content"@))->0));
    Ok(req)
}

} // verus!

verus! {

/// A stream chunk that carries one part from the model.
pub open spec fn model_part_chunk(part: JsonV) -> JsonV {
    jobj1("candidates"@, jarr1(jobj1("content"@, jobj2("role"@, JsonV::Str("model"@), "parts"@, jarr1(part)))))
}

/// A stream error in the Gemini wire format.
pub open spec fn stream_error_json(message: Seq<char>) -> JsonV {
    jobj1("error"@, JsonV::Object(Seq::empty()
        .push(("code"@, juint(502)))
        .push(("message"@, JsonV::Str(message)))
        .push(("status"@, JsonV::Str("UNKNOWN"@)))))
}

/// One step of a Gemini stream: from the tool call under way (id, name,
/// arguments so far) and a stream item, the call under way next and the data
/// of the chunk to send, if any. A tool call is sent whole when it finishes.
pub open spec fn gemini_stream_step(
    pending: Option<(Seq<char>, Seq<char>, Seq<char>)>,
    e: Result<StreamEventV, Seq<char>>,
) -> (Option<(Seq<char>, Seq<char>, Seq<char>)>, Option<JsonV>) {
    match e {
        Err(m) => (pending, Some(stream_error_json(m))),
        Ok(StreamEventV::TextDelta(t)) => (pending, Some(model_part_chunk(jobj1("text"@, JsonV::Str(t))))),
        Ok(StreamEventV::ToolCallStarted { id, name }) => (Some((id, name, Seq::empty())), None),
        Ok(StreamEventV::ToolCallDelta { id: _, arguments_chunk }) => (match pending {
            Some((i, n, a)) => Some((i, n, a + arguments_chunk)),
            None => None,
        }, None),
        Ok(StreamEventV::ToolCallFinished) => (None, match pending {
            Some((i, n, a)) => Some(model_part_chunk(function_call_json(
                ToolCallV { id: i, name: n, arguments: a },
                parsed_json(a),
            ))),
            None => None,
        }),
        Ok(StreamEventV::Usage(u)) => (pending, Some(jobj1("usageMetadata"@, usage_metadata_json(u)))),
        Ok(StreamEventV::Done) => (pending, Some(jobj1("candidates"@, jarr1(jobj1("finishReason"@, JsonV::Str("STOP"@)))))),
        Ok(StreamEventV::Error { message }) => (pending, Some(stream_error_json(message))),
    }
}

/// A Gemini stream response being written.
pub struct GeminiStream {
    tool: Option<(String, String, String)>,
}

fn model_part(part: Json) -> (r: Json)
    ensures
        jview(r) == model_part_chunk(jview(part)),
{
    object1("candidates", single(object1("content", object2("role", jstr_of("model"), "parts", single(part)))))
}

fn stream_error(message: String) -> (r: Json)
    ensures
        jview(r) == stream_error_json(message@),
{
    let inner = ObjectBuilder::new()
        .with("code", juint_of(502))
        .with("message", jstring(message))
        .with("status", jstr_of("UNKNOWN"))
        .build();
    object1("error", inner)
}

impl GeminiStream {
    /// The tool call under way: its id, name and arguments so far.
    pub closed spec fn pending(&self) -> Option<(Seq<char>, Seq<char>, Seq<char>)> {
        match self.tool {
            Some((i, n, a)) => Some((i@, n@, a@)),
            None => None,
        }
    }

    /// A stream with no tool call under way.
    pub fn new() -> (s: Self)
        ensures
            s.pending() is None,
    {
        GeminiStream { tool: None }
    }

    /// Takes one stream item and gives the data of the chunk to send, if any.
    pub fn step(&mut self, event: Result<StreamEvent, String>) -> (r: Option<Json>)
        ensures
            final(self).pending() == gemini_stream_step(old(self).pending(), item_view(event)).0,
            match r {
                Some(j) => gemini_stream_step(old(self).pending(), item_view(event)).1 == Some(jview(j)),
                None => gemini_stream_step(old(self).pending(), item_view(event)).1 is None,
            },
    {
        match event {
            Err(m) => Some(stream_error(m)),
            Ok(StreamEvent::TextDelta(t)) => Some(model_part(object1("text", jstring(t)))),
            Ok(StreamEvent::ToolCallStarted { id, name }) => {
                self.tool = Some((id, name, String::new()));
                None
            },
            Ok(StreamEvent::ToolCallDelta { id: _, arguments_chunk }) => {
                let t = self.tool.take();
                self.tool = match t {
                    Some((i, n, a)) => {
                        let mut a = a;
                        a.append(arguments_chunk.as_str());
                        Some((i, n, a))
                    },
                    None => None,
                };
                None
            },
            Ok(StreamEvent::ToolCallFinished) => {
                let t = self.tool.take();
                match t {
                    Some((i, n, a)) => {
                        let parsed = parse_json(a.as_str());
                        let call = ToolCall { id: i, name: n, arguments: a };
                        Some(model_part(function_call_part(&call, parsed)))
                    },
                    None => None,
                }
            },
            Ok(StreamEvent::Usage(u)) => Some(object1("usageMetadata", usage_metadata(u))),
            Ok(StreamEvent::Done) => Some(object1("candidates", single(object1("finishReason", jstr_of("STOP"))))),
            Ok(StreamEvent::Error { message }) => Some(stream_error(message)),
        }
    }
}

} // verus!
