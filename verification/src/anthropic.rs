//! The Anthropic Messages protocol, as clients send it to the gateway and
//! as the gateway answers.
//!
//! JSON values that the gateway passes through without reading (tool inputs
//! and input schemas) are held as their compact JSON text. Sampling
//! parameters are held as the IEEE-754 bit pattern of the `f32` the client
//! sent.
use vstd::prelude::*;

use crate::openai::opt_view;
use crate::text::owned;

verus! {

// ---------------------------------------------------------------------------
// Requests
// ---------------------------------------------------------------------------

/// Incoming Anthropic Messages API request body.
#[derive(Debug)]
pub struct AnthropicRequest {
    pub model: String,
    pub messages: Vec<AnthropicMessage>,
    pub system: Option<AnthropicSystem>,
    pub max_tokens: u32,
    pub stop_sequences: Option<Vec<String>>,
    pub stream: bool,
    /// Bit pattern of the `f32` sampling temperature.
    pub temperature: Option<u32>,
    /// Bit pattern of the `f32` nucleus-sampling parameter.
    pub top_p: Option<u32>,
    pub top_k: Option<u32>,
    pub tools: Option<Vec<AnthropicTool>>,
    pub tool_choice: Option<AnthropicToolChoice>,
}

#[derive(Debug)]
pub struct AnthropicMessage {
    pub role: String,
    pub content: AnthropicContent,
}

/// Anthropic content: a list of content blocks or a plain string.
#[derive(Debug)]
pub enum AnthropicContent {
    TextBlocks(Vec<AnthropicContentBlock>),
    SingleString(String),
}

#[derive(Debug)]
pub enum AnthropicContentBlock {
    Text { text: String },
    Image { source: ImageSource },
    /// A tool call made by the assistant; `input` is compact JSON text.
    ToolUse { id: String, name: String, input: String },
    ToolResult {
        tool_use_id: String,
        content: Option<ToolResultContent>,
        is_error: Option<bool>,
    },
}

/// `tool_result` content: a string or a list of content blocks.
#[derive(Debug)]
pub enum ToolResultContent {
    Text(String),
    Blocks(Vec<ToolResultContentBlock>),
}

#[derive(Debug)]
pub struct ToolResultContentBlock {
    pub content_type: String,
    pub text: Option<String>,
}

#[derive(Debug)]
pub struct ImageSource {
    pub source_type: String,
    pub media_type: String,
    pub data: String,
}

/// The system prompt: a plain string or a list of content blocks.
#[derive(Debug)]
pub enum AnthropicSystem {
    String(String),
    ContentList(Vec<SystemContentBlock>),
}

/// System content block (only its text is used).
#[derive(Debug)]
pub struct SystemContentBlock {
    pub content_type: String,
    pub text: Option<String>,
}

/// Tool definition, in Anthropic's native form or in OpenAI's form
/// (`{"type": "function", "function": {...}}`).
#[derive(Debug)]
pub enum AnthropicTool {
    OpenAIStyle { tool_type: String, function: AnthropicToolFunction },
    /// `input_schema` is compact JSON text.
    Native { name: String, description: Option<String>, input_schema: String },
}

#[derive(Debug)]
pub struct AnthropicToolFunction {
    pub name: String,
    pub description: Option<String>,
    /// The parameter schema, as compact JSON text.
    pub parameters: Option<String>,
}

/// The schema of a tool whose definition gives none: the empty JSON object.
pub open spec fn empty_schema() -> Seq<char> {
    seq!['{', '}']
}

/// The name of a tool, whichever form defines it.
pub open spec fn tool_name(t: AnthropicTool) -> Seq<char> {
    match t {
        AnthropicTool::OpenAIStyle { function, .. } => function.name@,
        AnthropicTool::Native { name, .. } => name@,
    }
}

/// The description of a tool, if it has one.
pub open spec fn tool_description(t: AnthropicTool) -> Option<Seq<char>> {
    match t {
        AnthropicTool::OpenAIStyle { function, .. } => match function.description {
            Some(d) => Some(d@),
            None => None,
        },
        AnthropicTool::Native { description, .. } => match description {
            Some(d) => Some(d@),
            None => None,
        },
    }
}

/// The input schema of a tool, as JSON text.
pub open spec fn tool_input_schema(t: AnthropicTool) -> Seq<char> {
    match t {
        AnthropicTool::OpenAIStyle { function, .. } => match function.parameters {
            Some(p) => p@,
            None => empty_schema(),
        },
        AnthropicTool::Native { input_schema, .. } => input_schema@,
    }
}

impl AnthropicTool {
    pub fn name(&self) -> (r: &str)
        ensures
            r@ == tool_name(*self),
    {
        match self {
            AnthropicTool::OpenAIStyle { function, .. } => function.name.as_str(),
            AnthropicTool::Native { name, .. } => name.as_str(),
        }
    }

    pub fn description(&self) -> (r: Option<&str>)
        ensures
            match r {
                Some(d) => tool_description(*self) == Some(d@),
                None => tool_description(*self) is None,
            },
    {
        match self {
            AnthropicTool::OpenAIStyle { function, .. } => match &function.description {
                Some(d) => Some(d.as_str()),
                None => None,
            },
            AnthropicTool::Native { description, .. } => match description {
                Some(d) => Some(d.as_str()),
                None => None,
            },
        }
    }

    /// The tool's input schema as JSON text; an OpenAI-style definition
    /// without parameters has the empty object `{}`.
    pub fn input_schema(&self) -> (r: String)
        ensures
            r@ == tool_input_schema(*self),
    {
        match self {
            AnthropicTool::OpenAIStyle { function, .. } => match &function.parameters {
                Some(p) => p.clone(),
                None => {
                    let r = owned("{}");
                    proof {
                        reveal_strlit("{}");
                    }
                    assert(r@ =~= empty_schema());
                    r
                },
            },
            AnthropicTool::Native { input_schema, .. } => input_schema.clone(),
        }
    }
}

/// Tool choice in Anthropic format.
#[derive(Debug)]
pub enum AnthropicToolChoice {
    Auto,
    Any,
    Tool { name: String },
}

// ---------------------------------------------------------------------------
// Responses and streaming events
// ---------------------------------------------------------------------------

/// Outgoing Anthropic response (non-streaming).
#[derive(Debug)]
pub struct AnthropicResponse {
    pub id: String,
    pub response_type: String,
    pub role: String,
    pub content: Vec<AnthropicResponseContentBlock>,
    pub model: String,
    pub stop_reason: Option<String>,
    pub stop_sequence: Option<String>,
    pub usage: AnthropicUsage,
}

#[derive(Debug)]
pub enum AnthropicResponseContentBlock {
    Text { text: String },
    /// `input` is compact JSON text.
    ToolUse { id: String, name: String, input: String },
}

#[derive(Debug)]
pub struct AnthropicUsage {
    pub input_tokens: u32,
    pub output_tokens: u32,
}

/// Anthropic SSE event types for streaming.
#[derive(Debug)]
pub enum AnthropicSSEEvent {
    MessageStart { message: AnthropicStreamMessage },
    ContentBlockStart { index: u32, content_block: AnthropicResponseContentBlock },
    ContentBlockDelta { index: u32, delta: ContentDelta },
    ContentBlockStop { index: u32 },
    MessageDelta { delta: MessageDeltaData, usage: OutputUsage },
    MessageStop,
    Ping,
}

/// The message announced by `message_start`; `content` holds JSON texts.
#[derive(Debug)]
pub struct AnthropicStreamMessage {
    pub id: String,
    pub msg_type: String,
    pub role: String,
    pub content: Vec<String>,
    pub model: String,
    pub stop_reason: Option<String>,
    pub stop_sequence: Option<String>,
    pub usage: AnthropicUsage,
}

#[derive(Debug)]
pub enum ContentDelta {
    TextDelta { text: String },
    InputJsonDelta { partial_json: String },
}

#[derive(Debug)]
pub struct MessageDeltaData {
    pub stop_reason: String,
    pub stop_sequence: Option<String>,
}

#[derive(Debug)]
pub struct OutputUsage {
    pub output_tokens: u32,
}

// ---------------------------------------------------------------------------
// Mathematical models of responses and events
// ---------------------------------------------------------------------------

/// The model of a response content block.
pub enum ResponseBlockModel {
    Text(Seq<char>),
    ToolUse { id: Seq<char>, name: Seq<char>, input: Seq<char> },
}

/// The model of a content delta.
pub enum DeltaModel {
    TextDelta(Seq<char>),
    InputJsonDelta(Seq<char>),
}

/// The model of the message announced by `message_start`.
pub struct StreamMessageModel {
    pub id: Seq<char>,
    pub msg_type: Seq<char>,
    pub role: Seq<char>,
    pub content: Seq<Seq<char>>,
    pub model: Seq<char>,
    pub stop_reason: Option<Seq<char>>,
    pub stop_sequence: Option<Seq<char>>,
    pub input_tokens: u32,
    pub output_tokens: u32,
}

/// The model of a streaming event.
pub enum EventModel {
    MessageStart(StreamMessageModel),
    ContentBlockStart { index: nat, block: ResponseBlockModel },
    ContentBlockDelta { index: nat, delta: DeltaModel },
    ContentBlockStop { index: nat },
    MessageDelta { stop_reason: Seq<char>, stop_sequence: Option<Seq<char>>, output_tokens: u32 },
    MessageStop,
    Ping,
}

impl View for AnthropicResponseContentBlock {
    type V = ResponseBlockModel;

    open spec fn view(&self) -> ResponseBlockModel {
        match self {
            AnthropicResponseContentBlock::Text { text } => ResponseBlockModel::Text(text@),
            AnthropicResponseContentBlock::ToolUse { id, name, input } => ResponseBlockModel::ToolUse {
                id: id@,
                name: name@,
                input: input@,
            },
        }
    }
}

impl View for ContentDelta {
    type V = DeltaModel;

    open spec fn view(&self) -> DeltaModel {
        match self {
            ContentDelta::TextDelta { text } => DeltaModel::TextDelta(text@),
            ContentDelta::InputJsonDelta { partial_json } => DeltaModel::InputJsonDelta(
                partial_json@,
            ),
        }
    }
}

impl View for AnthropicStreamMessage {
    type V = StreamMessageModel;

    open spec fn view(&self) -> StreamMessageModel {
        StreamMessageModel {
            id: self.id@,
            msg_type: self.msg_type@,
            role: self.role@,
            content: self.content@.map_values(|s: String| s@),
            model: self.model@,
            stop_reason: opt_view(self.stop_reason),
            stop_sequence: opt_view(self.stop_sequence),
            input_tokens: self.usage.input_tokens,
            output_tokens: self.usage.output_tokens,
        }
    }
}

impl View for AnthropicSSEEvent {
    type V = EventModel;

    open spec fn view(&self) -> EventModel {
        match self {
            AnthropicSSEEvent::MessageStart { message } => EventModel::MessageStart(message@),
            AnthropicSSEEvent::ContentBlockStart { index, content_block } =>
                EventModel::ContentBlockStart { index: *index as nat, block: content_block@ },
            AnthropicSSEEvent::ContentBlockDelta { index, delta } => EventModel::ContentBlockDelta {
                index: *index as nat,
                delta: delta@,
            },
            AnthropicSSEEvent::ContentBlockStop { index } => EventModel::ContentBlockStop {
                index: *index as nat,
            },
            AnthropicSSEEvent::MessageDelta { delta, usage } => EventModel::MessageDelta {
                stop_reason: delta.stop_reason@,
                stop_sequence: opt_view(delta.stop_sequence),
                output_tokens: usage.output_tokens,
            },
            AnthropicSSEEvent::MessageStop => EventModel::MessageStop,
            AnthropicSSEEvent::Ping => EventModel::Ping,
        }
    }
}

/// The models of a list of events.
pub open spec fn events_view(es: Seq<AnthropicSSEEvent>) -> Seq<EventModel> {
    es.map_values(|e: AnthropicSSEEvent| e@)
}

} // verus!
