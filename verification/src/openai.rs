//! The OpenAI Chat Completions protocol, as the gateway sends it to the
//! backend and reads it back.
//!
//! JSON values that the gateway passes through without reading (tool
//! parameter schemas) are held as their compact JSON text. Sampling
//! parameters are held as the IEEE-754 bit pattern of the `f32` the client
//! sent, so that they pass through unchanged.
use vstd::prelude::*;

verus! {

// ---------------------------------------------------------------------------
// Request sent to the backend
// ---------------------------------------------------------------------------

/// Request body sent to the OpenAI-compatible backend.
#[derive(Debug)]
pub struct OpenAIRequest {
    pub model: String,
    pub messages: Vec<OpenAIMessage>,
    pub max_tokens: Option<u32>,
    pub stop: Option<Vec<String>>,
    /// Bit pattern of the `f32` sampling temperature.
    pub temperature: Option<u32>,
    /// Bit pattern of the `f32` nucleus-sampling parameter.
    pub top_p: Option<u32>,
    pub stream: bool,
    pub tools: Option<Vec<OpenAITool>>,
    pub tool_choice: Option<OpenAIToolChoice>,
}

/// One chat message.
#[derive(Debug)]
pub struct OpenAIMessage {
    pub role: String,
    pub content: OpenAIContent,
    pub tool_calls: Option<Vec<OpenAIToolCallRequest>>,
    pub tool_call_id: Option<String>,
}

/// A message's content: plain text, a list of parts, or nothing (for
/// messages that only carry tool calls).
#[derive(Debug)]
pub enum OpenAIContent {
    Text(String),
    MultiContent(Vec<OpenAIContentBlock>),
    Null,
}

/// One part of a multi-part message content.
#[derive(Debug)]
pub struct OpenAIContentBlock {
    pub content_type: String,
    pub text: Option<String>,
    pub image_url: Option<ImageUrl>,
}

#[derive(Debug)]
pub struct ImageUrl {
    pub url: String,
}

/// Tool definition in OpenAI format.
#[derive(Debug)]
pub struct OpenAITool {
    pub tool_type: String,
    pub function: OpenAIFunction,
}

#[derive(Debug)]
pub struct OpenAIFunction {
    pub name: String,
    pub description: Option<String>,
    /// The parameter schema, as compact JSON text.
    pub parameters: String,
}

/// Tool call in an assistant message of the request.
#[derive(Debug)]
pub struct OpenAIToolCallRequest {
    pub id: String,
    pub call_type: String,
    pub function: OpenAIFunctionCall,
}

#[derive(Debug)]
pub struct OpenAIFunctionCall {
    pub name: String,
    /// The call's arguments, as JSON text.
    pub arguments: String,
}

/// The `tool_choice` value of a request: the JSON string `"auto"`, the JSON
/// string `"required"`, or `{"type": "function", "function": {"name": ...}}`.
#[derive(Debug)]
pub enum OpenAIToolChoice {
    Auto,
    Required,
    Function { name: String },
}

// ---------------------------------------------------------------------------
// Responses read from the backend
// ---------------------------------------------------------------------------

/// Non-streaming response from the backend.
#[derive(Debug)]
pub struct OpenAIResponse {
    pub id: String,
    pub model: String,
    pub choices: Vec<OpenAIChoice>,
    pub usage: Option<OpenAIUsage>,
}

#[derive(Debug)]
pub struct OpenAIChoice {
    pub index: u32,
    pub message: OpenAIResponseMessage,
    pub finish_reason: Option<String>,
}

#[derive(Debug)]
pub struct OpenAIResponseMessage {
    pub role: String,
    pub content: Option<String>,
    pub tool_calls: Option<Vec<OpenAIToolCallResponse>>,
}

/// Tool call in a response message.
#[derive(Debug)]
pub struct OpenAIToolCallResponse {
    pub id: String,
    pub call_type: String,
    pub function: OpenAIFunctionCall,
}

#[derive(Debug)]
pub struct OpenAIUsage {
    pub prompt_tokens: u32,
    pub completion_tokens: u32,
    pub total_tokens: u32,
}

/// One chunk of a streaming response.
#[derive(Debug)]
pub struct OpenAISSEChunk {
    pub id: Option<String>,
    pub model: Option<String>,
    pub choices: Option<Vec<OpenAIDeltaChoice>>,
    pub usage: Option<OpenAIUsage>,
}

#[derive(Debug)]
pub struct OpenAIDeltaChoice {
    pub index: u32,
    pub delta: OpenAIDelta,
    pub finish_reason: Option<String>,
}

#[derive(Debug)]
pub struct OpenAIDelta {
    pub role: Option<String>,
    pub content: Option<String>,
    pub tool_calls: Option<Vec<OpenAIDeltaToolCall>>,
}

/// Incremental tool call data in a streamed delta.
#[derive(Debug)]
pub struct OpenAIDeltaToolCall {
    pub index: u32,
    pub id: Option<String>,
    pub call_type: Option<String>,
    pub function: Option<OpenAIDeltaFunction>,
}

#[derive(Debug)]
pub struct OpenAIDeltaFunction {
    pub name: Option<String>,
    pub arguments: Option<String>,
}

/// Error body returned by the backend.
#[derive(Debug)]
pub struct OpenAIErrorResponse {
    pub error: OpenAIErrorDetail,
}

#[derive(Debug)]
pub struct OpenAIErrorDetail {
    pub message: String,
    pub error_type: Option<String>,
}

// ---------------------------------------------------------------------------
// Mathematical models of the request
// ---------------------------------------------------------------------------

/// The characters of an optional string.
pub open spec fn opt_view(o: Option<String>) -> Option<Seq<char>> {
    match o {
        Some(s) => Some(s@),
        None => None,
    }
}

/// The characters of each string of an optional list.
pub open spec fn opt_list_view(o: Option<Vec<String>>) -> Option<Seq<Seq<char>>> {
    match o {
        Some(v) => Some(v@.map_values(|s: String| s@)),
        None => None,
    }
}

/// The model of a tool call in a request message.
pub struct ToolCallModel {
    pub id: Seq<char>,
    pub call_type: Seq<char>,
    pub name: Seq<char>,
    pub arguments: Seq<char>,
}

/// The model of one part of a multi-part content.
pub struct ContentBlockModel {
    pub content_type: Seq<char>,
    pub text: Option<Seq<char>>,
    pub image_url: Option<Seq<char>>,
}

/// The model of a message's content.
pub enum ContentModel {
    Text(Seq<char>),
    Multi(Seq<ContentBlockModel>),
    Null,
}

/// The model of a chat message.
pub struct MessageModel {
    pub role: Seq<char>,
    pub content: ContentModel,
    pub tool_calls: Option<Seq<ToolCallModel>>,
    pub tool_call_id: Option<Seq<char>>,
}

/// The model of a tool definition.
pub struct ToolModel {
    pub tool_type: Seq<char>,
    pub name: Seq<char>,
    pub description: Option<Seq<char>>,
    pub parameters: Seq<char>,
}

/// The model of a `tool_choice` value.
pub enum ToolChoiceModel {
    Auto,
    Required,
    Function(Seq<char>),
}

impl View for OpenAIToolCallRequest {
    type V = ToolCallModel;

    open spec fn view(&self) -> ToolCallModel {
        ToolCallModel {
            id: self.id@,
            call_type: self.call_type@,
            name: self.function.name@,
            arguments: self.function.arguments@,
        }
    }
}

impl View for OpenAIContentBlock {
    type V = ContentBlockModel;

    open spec fn view(&self) -> ContentBlockModel {
        ContentBlockModel {
            content_type: self.content_type@,
            text: opt_view(self.text),
            image_url: match self.image_url {
                Some(u) => Some(u.url@),
                None => None,
            },
        }
    }
}

impl View for OpenAIContent {
    type V = ContentModel;

    open spec fn view(&self) -> ContentModel {
        match self {
            OpenAIContent::Text(t) => ContentModel::Text(t@),
            OpenAIContent::MultiContent(bs) => ContentModel::Multi(
                bs@.map_values(|b: OpenAIContentBlock| b@),
            ),
            OpenAIContent::Null => ContentModel::Null,
        }
    }
}

impl View for OpenAIMessage {
    type V = MessageModel;

    open spec fn view(&self) -> MessageModel {
        MessageModel {
            role: self.role@,
            content: self.content@,
            tool_calls: match self.tool_calls {
                Some(tcs) => Some(tcs@.map_values(|t: OpenAIToolCallRequest| t@)),
                None => None,
            },
            tool_call_id: opt_view(self.tool_call_id),
        }
    }
}

impl View for OpenAITool {
    type V = ToolModel;

    open spec fn view(&self) -> ToolModel {
        ToolModel {
            tool_type: self.tool_type@,
            name: self.function.name@,
            description: opt_view(self.function.description),
            parameters: self.function.parameters@,
        }
    }
}

impl View for OpenAIToolChoice {
    type V = ToolChoiceModel;

    open spec fn view(&self) -> ToolChoiceModel {
        match self {
            OpenAIToolChoice::Auto => ToolChoiceModel::Auto,
            OpenAIToolChoice::Required => ToolChoiceModel::Required,
            OpenAIToolChoice::Function { name } => ToolChoiceModel::Function(name@),
        }
    }
}

/// The models of a list of messages.
pub open spec fn messages_view(ms: Seq<OpenAIMessage>) -> Seq<MessageModel> {
    ms.map_values(|m: OpenAIMessage| m@)
}

} // verus!
