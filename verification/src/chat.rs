use vstd::prelude::*;
use crate::json::{Json, JsonV, jview};

verus! {

/// The author of a chat message.
#[derive(PartialEq, Eq, Structural, Debug, Clone, Copy)]
pub enum Role {
    System,
    User,
    Assistant,
    Tool,
}

/// A piece of message content.
#[derive(Debug, Clone)]
pub enum ContentPart {
    Text { text: String },
}

/// A call of a tool that the model asked for; `arguments` is JSON text.
#[derive(Debug, Clone)]
pub struct ToolCall {
    pub id: String,
    pub name: String,
    pub arguments: String,
}

/// One message of a conversation.
#[derive(Debug, Clone)]
pub struct Message {
    pub role: Role,
    pub content: Vec<ContentPart>,
    pub tool_calls: Vec<ToolCall>,
    pub tool_call_id: Option<String>,
}

/// A tool offered to the model; `parameters` is its JSON schema.
#[derive(Debug, Clone)]
pub struct Tool {
    pub name: String,
    pub description: Option<String>,
    pub parameters: Json,
}

/// How the model may use the tools offered.
#[derive(Debug, Clone)]
pub enum ToolChoice {
    Auto,
    Disabled,
    Required,
    Tool(String),
}

/// Requested reasoning effort.
#[derive(PartialEq, Eq, Structural, Debug, Clone, Copy)]
pub enum ReasoningEffort {
    Low,
    Medium,
    High,
}

/// A provider-neutral chat request. `temperature` and `top_p` hold the JSON
/// text of the numbers that the client sent.
#[derive(Debug, Clone)]
pub struct ChatRequest {
    pub model: Option<String>,
    pub messages: Vec<Message>,
    pub tools: Vec<Tool>,
    pub tool_choice: Option<ToolChoice>,
    pub stream: bool,
    pub max_tokens: Option<u32>,
    pub temperature: Option<String>,
    pub top_p: Option<String>,
    pub reasoning_effort: Option<ReasoningEffort>,
    pub thinking_budget_tokens: Option<u32>,
}

/// Why a model stopped.
#[derive(PartialEq, Eq, Structural, Debug, Clone, Copy)]
pub enum FinishReason {
    Stop,
    Length,
    ToolCalls,
    ContentFilter,
    Error,
    Unknown,
}

/// Token counts of a completion.
#[derive(PartialEq, Eq, Structural, Debug, Clone, Copy)]
pub struct Usage {
    pub prompt_tokens: u32,
    pub completion_tokens: u32,
    pub total_tokens: u32,
}

/// A provider-neutral chat response.
#[derive(Debug, Clone)]
pub struct ChatResponse {
    pub message: Message,
    pub finish_reason: FinishReason,
    pub usage: Option<Usage>,
}

/// One event of a streamed chat response.
#[derive(Debug, Clone)]
pub enum StreamEvent {
    TextDelta(String),
    ToolCallStarted { id: String, name: String },
    ToolCallDelta { id: String, arguments_chunk: String },
    ToolCallFinished,
    Usage(Usage),
    Done,
    Error { message: String },
}

/// A provider-neutral embedding request.
#[derive(Debug, Clone)]
pub struct EmbeddingRequest {
    pub input: Vec<String>,
    pub model: Option<String>,
}

/// Embedding vectors, one per input; each component is the JSON text of a number.
#[derive(Debug, Clone)]
pub struct EmbeddingResponse {
    pub vectors: Vec<Vec<String>>,
}

/// The value of a tool call.
#[verifier::ext_equal]
pub struct ToolCallV {
    pub id: Seq<char>,
    pub name: Seq<char>,
    pub arguments: Seq<char>,
}

/// The value of a message; each content part is its text.
#[verifier::ext_equal]
pub struct MessageV {
    pub role: Role,
    pub content: Seq<Seq<char>>,
    pub tool_calls: Seq<ToolCallV>,
    pub tool_call_id: Option<Seq<char>>,
}

/// The value of a tool.
#[verifier::ext_equal]
pub struct ToolV {
    pub name: Seq<char>,
    pub description: Option<Seq<char>>,
    pub parameters: JsonV,
}

/// The value of a tool choice.
pub enum ToolChoiceV {
    Auto,
    Disabled,
    Required,
    Tool(Seq<char>),
}

/// The value of a chat request.
#[verifier::ext_equal]
pub struct ChatRequestV {
    pub model: Option<Seq<char>>,
    pub messages: Seq<MessageV>,
    pub tools: Seq<ToolV>,
    pub tool_choice: Option<ToolChoiceV>,
    pub stream: bool,
    pub max_tokens: Option<u32>,
    pub temperature: Option<Seq<char>>,
    pub top_p: Option<Seq<char>>,
    pub reasoning_effort: Option<ReasoningEffort>,
    pub thinking_budget_tokens: Option<u32>,
}

/// The value of a chat response.
#[verifier::ext_equal]
pub struct ChatResponseV {
    pub message: MessageV,
    pub finish_reason: FinishReason,
    pub usage: Option<Usage>,
}

/// The value of a stream event.
pub enum StreamEventV {
    TextDelta(Seq<char>),
    ToolCallStarted { id: Seq<char>, name: Seq<char> },
    ToolCallDelta { id: Seq<char>, arguments_chunk: Seq<char> },
    ToolCallFinished,
    Usage(Usage),
    Done,
    Error { message: Seq<char> },
}

/// The value of an embedding request.
pub struct EmbeddingRequestV {
    pub input: Seq<Seq<char>>,
    pub model: Option<Seq<char>>,
}

impl View for EmbeddingRequest {
    type V = EmbeddingRequestV;

    open spec fn view(&self) -> EmbeddingRequestV {
        EmbeddingRequestV { input: self.input@.map_values(|s: String| s@), model: opt_view(self.model) }
    }
}

/// The vectors of an embedding response, as texts of numbers.
pub open spec fn vectors_view(r: EmbeddingResponse) -> Seq<Seq<Seq<char>>> {
    r.vectors@.map_values(|v: Vec<String>| v@.map_values(|x: String| x@))
}

/// The text of an optional string.
pub open spec fn opt_view(s: Option<String>) -> Option<Seq<char>> {
    match s {
        Some(t) => Some(t@),
        None => None,
    }
}

impl View for ContentPart {
    type V = Seq<char>;

    open spec fn view(&self) -> Seq<char> {
        match self {
            ContentPart::Text { text } => text@,
        }
    }
}

impl View for ToolCall {
    type V = ToolCallV;

    open spec fn view(&self) -> ToolCallV {
        ToolCallV { id: self.id@, name: self.name@, arguments: self.arguments@ }
    }
}

impl View for Message {
    type V = MessageV;

    open spec fn view(&self) -> MessageV {
        MessageV {
            role: self.role,
            content: self.content@.map_values(|p: ContentPart| p@),
            tool_calls: self.tool_calls@.map_values(|c: ToolCall| c@),
            tool_call_id: opt_view(self.tool_call_id),
        }
    }
}

impl View for Tool {
    type V = ToolV;

    open spec fn view(&self) -> ToolV {
        ToolV { name: self.name@, description: opt_view(self.description), parameters: jview(self.parameters) }
    }
}

impl View for ToolChoice {
    type V = ToolChoiceV;

    open spec fn view(&self) -> ToolChoiceV {
        match self {
            ToolChoice::Auto => ToolChoiceV::Auto,
            ToolChoice::Disabled => ToolChoiceV::Disabled,
            ToolChoice::Required => ToolChoiceV::Required,
            ToolChoice::Tool(name) => ToolChoiceV::Tool(name@),
        }
    }
}

/// The value of an optional tool choice.
pub open spec fn choice_view(c: Option<ToolChoice>) -> Option<ToolChoiceV> {
    match c {
        Some(t) => Some(t@),
        None => None,
    }
}

impl View for ChatRequest {
    type V = ChatRequestV;

    open spec fn view(&self) -> ChatRequestV {
        ChatRequestV {
            model: opt_view(self.model),
            messages: self.messages@.map_values(|m: Message| m@),
            tools: self.tools@.map_values(|t: Tool| t@),
            tool_choice: choice_view(self.tool_choice),
            stream: self.stream,
            max_tokens: self.max_tokens,
            temperature: opt_view(self.temperature),
            top_p: opt_view(self.top_p),
            reasoning_effort: self.reasoning_effort,
            thinking_budget_tokens: self.thinking_budget_tokens,
        }
    }
}

impl View for ChatResponse {
    type V = ChatResponseV;

    open spec fn view(&self) -> ChatResponseV {
        ChatResponseV { message: self.message@, finish_reason: self.finish_reason, usage: self.usage }
    }
}

impl View for StreamEvent {
    type V = StreamEventV;

    open spec fn view(&self) -> StreamEventV {
        match self {
            StreamEvent::TextDelta(t) => StreamEventV::TextDelta(t@),
            StreamEvent::ToolCallStarted { id, name } => StreamEventV::ToolCallStarted { id: id@, name: name@ },
            StreamEvent::ToolCallDelta { id, arguments_chunk } =>
                StreamEventV::ToolCallDelta { id: id@, arguments_chunk: arguments_chunk@ },
            StreamEvent::ToolCallFinished => StreamEventV::ToolCallFinished,
            StreamEvent::Usage(u) => StreamEventV::Usage(*u),
            StreamEvent::Done => StreamEventV::Done,
            StreamEvent::Error { message } => StreamEventV::Error { message: message@ },
        }
    }
}

/// The text of a reasoning effort, as the wire formats write it.
pub open spec fn effort_text(e: ReasoningEffort) -> Seq<char> {
    match e {
        ReasoningEffort::Low => "low"@,
        ReasoningEffort::Medium => "medium"@,
        ReasoningEffort::High => "high"@,
    }
}

impl ReasoningEffort {
    /// The lowercase name of the effort.
    pub fn as_str(&self) -> (r: &'static str)
        ensures
            r@ == effort_text(*self),
    {
        match self {
            ReasoningEffort::Low => "low",
            ReasoningEffort::Medium => "medium",
            ReasoningEffort::High => "high",
        }
    }
}

/// The text of a message: the concatenation of its content parts.
pub open spec fn message_text(m: MessageV) -> Seq<char> {
    m.content.fold_left(Seq::<char>::empty(), |acc: Seq<char>, p: Seq<char>| acc + p)
}

/// The text of a message.
pub fn text_of(message: &Message) -> (r: String)
    ensures
        r@ == message_text(message@),
{
    let mut out = String::new();
    let mut i: usize = 0;
    let ghost parts = message@.content;
    while i < message.content.len()
        invariant
            i <= message.content@.len(),
            parts == message@.content,
            parts.len() == message.content@.len(),
            out@ == parts.take(i as int).fold_left(Seq::<char>::empty(), |acc: Seq<char>, p: Seq<char>| acc + p),
        decreases message.content@.len() - i,
    {
        match &message.content[i] {
            ContentPart::Text { text } => {
                out.append(text.as_str());
            },
        }
        proof {
            let t = parts.take(i + 1);
            assert(t.drop_last() =~= parts.take(i as int));
            assert(t.last() == parts[i as int]);
        }
        i = i + 1;
    }
    assert(parts.take(parts.len() as int) =~= parts);
    out
}


/// The data of one server-sent event: a JSON document, or the `[DONE]` marker
/// that ends an OpenAI stream.
#[derive(Debug)]
pub enum EventData {
    Json(Json),
    Done,
}

/// The document of an event's data; `None` for the `[DONE]` marker.
pub open spec fn data_view(d: EventData) -> Option<JsonV> {
    match d {
        EventData::Json(j) => Some(jview(j)),
        EventData::Done => None,
    }
}

/// The value of a stream item: an event, or the text of the failure that
/// took its place.
pub open spec fn item_view(e: Result<StreamEvent, String>) -> Result<StreamEventV, Seq<char>> {
    match e {
        Ok(ev) => Ok(ev@),
        Err(m) => Err(m@),
    }
}

} // verus!
