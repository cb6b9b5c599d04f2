//! The Chat Completions side: requests, responses and stream chunks.
use crate::json::{Json, JsonV};
use crate::text::opt_text;
use vstd::prelude::*;

verus! {

/// One part of a message with several parts.
#[derive(Debug, PartialEq)]
pub enum ContentPart {
    Text { text: String },
    ImageUrl { image_url: ImageUrl },
}

/// A reference to an image.
#[derive(Debug, PartialEq)]
pub struct ImageUrl {
    pub url: String,
}

/// The body of a message.
#[derive(Debug, PartialEq)]
pub enum MessageContent {
    Text(String),
    Parts(Vec<ContentPart>),
}

/// The function that a tool call names, with its arguments as JSON text.
#[derive(Debug, PartialEq)]
pub struct FunctionCall {
    pub name: String,
    pub arguments: String,
}

/// A tool call of the assistant.
#[derive(Debug, PartialEq)]
pub struct ToolCall {
    pub id: String,
    pub call_type: String,
    pub function: FunctionCall,
}

/// A chat message.
#[derive(Debug, PartialEq)]
pub struct Message {
    pub role: String,
    pub content: Option<MessageContent>,
    pub reasoning_content: Option<String>,
    pub tool_calls: Option<Vec<ToolCall>>,
    pub tool_call_id: Option<String>,
    pub name: Option<String>,
}

/// A function that the model may call.
#[derive(Debug, PartialEq)]
pub struct Function {
    pub name: String,
    pub description: Option<String>,
    pub parameters: Json,
}

/// A tool that the model may use.
#[derive(Debug, PartialEq)]
pub struct Tool {
    pub tool_type: String,
    pub function: Function,
}

/// A chat request.
#[derive(Debug, PartialEq)]
pub struct OpenAIRequest {
    pub model: String,
    pub messages: Vec<Message>,
    pub max_tokens: Option<u32>,
    pub stream: Option<bool>,
    pub stream_options: Option<Json>,
    pub tools: Option<Vec<Tool>>,
    pub tool_choice: Option<Json>,
    pub parallel_tool_calls: Option<bool>,
    pub reasoning_effort: Option<String>,
}

/// How many prompt tokens were served from a cache.
#[derive(Debug, PartialEq, Clone, Copy)]
pub struct PromptTokensDetails {
    pub cached_tokens: u32,
}

/// Token counts of a completion.
#[derive(Debug, PartialEq, Clone, Copy)]
pub struct Usage {
    pub prompt_tokens: u32,
    pub completion_tokens: u32,
    pub total_tokens: u32,
    pub prompt_tokens_details: Option<PromptTokensDetails>,
}

/// The message of a completion.
#[derive(Debug, PartialEq)]
pub struct ResponseMessage {
    pub content: Option<String>,
    pub reasoning_content: Option<String>,
    pub tool_calls: Option<Vec<ToolCall>>,
}

/// One completion.
#[derive(Debug, PartialEq)]
pub struct Choice {
    pub message: ResponseMessage,
    pub finish_reason: Option<String>,
}

/// A chat response.
#[derive(Debug, PartialEq)]
pub struct OpenAIResponse {
    pub model: Option<String>,
    pub choices: Vec<Choice>,
    pub usage: Usage,
}

/// A piece of a function call in a stream.
#[derive(Debug, PartialEq)]
pub struct DeltaFunction {
    pub name: Option<String>,
    pub arguments: Option<String>,
}

/// A piece of a tool call in a stream.
#[derive(Debug, PartialEq)]
pub struct DeltaToolCall {
    pub id: Option<String>,
    pub function: Option<DeltaFunction>,
}

/// A piece of a message in a stream.
#[derive(Debug, PartialEq)]
pub struct ChunkDelta {
    pub content: Option<String>,
    pub reasoning: Option<String>,
    pub reasoning_content: Option<String>,
    pub tool_calls: Option<Vec<DeltaToolCall>>,
}

/// One completion in a stream.
#[derive(Debug, PartialEq)]
pub struct StreamChoice {
    pub delta: ChunkDelta,
    pub finish_reason: Option<String>,
}

/// One frame of a stream.
#[derive(Debug, PartialEq)]
pub struct StreamChunk {
    pub id: Option<String>,
    pub model: Option<String>,
    pub choices: Vec<StreamChoice>,
    pub usage: Option<Usage>,
}

// ---------------------------------------------------------------------------
// Views
// ---------------------------------------------------------------------------
/// What a message part is.
pub enum PartV {
    Text(Seq<char>),
    ImageUrl(Seq<char>),
}

/// What a message body is.
pub enum ContentV {
    Text(Seq<char>),
    Parts(Seq<PartV>),
}

/// What a tool call is.
pub struct ToolCallV {
    pub id: Seq<char>,
    pub call_type: Seq<char>,
    pub name: Seq<char>,
    pub arguments: Seq<char>,
}

/// What a message is.
pub struct MessageV {
    pub role: Seq<char>,
    pub content: Option<ContentV>,
    pub reasoning_content: Option<Seq<char>>,
    pub tool_calls: Option<Seq<ToolCallV>>,
    pub tool_call_id: Option<Seq<char>>,
    pub name: Option<Seq<char>>,
}

/// What a tool is.
pub struct ToolV {
    pub tool_type: Seq<char>,
    pub name: Seq<char>,
    pub description: Option<Seq<char>>,
    pub parameters: JsonV,
}

/// What a request is.
pub struct RequestV {
    pub model: Seq<char>,
    pub messages: Seq<MessageV>,
    pub max_tokens: Option<u32>,
    pub stream: Option<bool>,
    pub stream_options: Option<JsonV>,
    pub tools: Option<Seq<ToolV>>,
    pub tool_choice: Option<JsonV>,
    pub parallel_tool_calls: Option<bool>,
    pub reasoning_effort: Option<Seq<char>>,
}

impl ContentPart {
    pub open spec fn view(&self) -> PartV {
        match self {
            ContentPart::Text { text } => PartV::Text(text@),
            ContentPart::ImageUrl { image_url } => PartV::ImageUrl(image_url.url@),
        }
    }
}

/// The parts of a message body.
pub open spec fn parts_view(v: Seq<ContentPart>) -> Seq<PartV> {
    Seq::new(v.len(), |i: int| v[i].view())
}

impl MessageContent {
    pub open spec fn view(&self) -> ContentV {
        match self {
            MessageContent::Text(t) => ContentV::Text(t@),
            MessageContent::Parts(v) => ContentV::Parts(parts_view(v@)),
        }
    }
}

impl ToolCall {
    pub open spec fn view(&self) -> ToolCallV {
        ToolCallV {
            id: self.id@,
            call_type: self.call_type@,
            name: self.function.name@,
            arguments: self.function.arguments@,
        }
    }
}

/// The tool calls of a message.
pub open spec fn calls_view(v: Seq<ToolCall>) -> Seq<ToolCallV> {
    Seq::new(v.len(), |i: int| v[i].view())
}

pub open spec fn opt_calls_view(v: Option<Vec<ToolCall>>) -> Option<Seq<ToolCallV>> {
    match v {
        Some(c) => Some(calls_view(c@)),
        None => None,
    }
}

pub open spec fn opt_content_view(c: Option<MessageContent>) -> Option<ContentV> {
    match c {
        Some(c) => Some(c.view()),
        None => None,
    }
}

impl Message {
    pub open spec fn view(&self) -> MessageV {
        MessageV {
            role: self.role@,
            content: opt_content_view(self.content),
            reasoning_content: opt_text(self.reasoning_content),
            tool_calls: opt_calls_view(self.tool_calls),
            tool_call_id: opt_text(self.tool_call_id),
            name: opt_text(self.name),
        }
    }
}

/// The messages of a conversation.
pub open spec fn messages_view(v: Seq<Message>) -> Seq<MessageV> {
    Seq::new(v.len(), |i: int| v[i].view())
}

impl Tool {
    pub open spec fn view(&self) -> ToolV {
        ToolV {
            tool_type: self.tool_type@,
            name: self.function.name@,
            description: opt_text(self.function.description),
            parameters: self.function.parameters@,
        }
    }
}

/// The tools of a request.
pub open spec fn tools_view(v: Seq<Tool>) -> Seq<ToolV> {
    Seq::new(v.len(), |i: int| v[i].view())
}

pub open spec fn opt_tools_view(v: Option<Vec<Tool>>) -> Option<Seq<ToolV>> {
    match v {
        Some(t) => Some(tools_view(t@)),
        None => None,
    }
}

pub open spec fn opt_json_view(v: Option<Json>) -> Option<JsonV> {
    match v {
        Some(j) => Some(j.view()),
        None => None,
    }
}

impl OpenAIRequest {
    pub open spec fn view(&self) -> RequestV {
        RequestV {
            model: self.model@,
            messages: messages_view(self.messages@),
            max_tokens: self.max_tokens,
            stream: self.stream,
            stream_options: opt_json_view(self.stream_options),
            tools: opt_tools_view(self.tools),
            tool_choice: opt_json_view(self.tool_choice),
            parallel_tool_calls: self.parallel_tool_calls,
            reasoning_effort: opt_text(self.reasoning_effort),
        }
    }
}

// ---------------------------------------------------------------------------
// Copies
// ---------------------------------------------------------------------------
/// A copy of an optional string.
pub fn copy_opt(s: &Option<String>) -> (r: Option<String>)
    ensures
        r == *s,
        opt_text(r) == opt_text(*s),
{
    match s {
        Some(t) => Some(t.clone()),
        None => None,
    }
}

/// A copy of an optional JSON value.
pub fn copy_opt_json(s: &Option<Json>) -> (r: Option<Json>)
    ensures
        opt_json_view(r) == opt_json_view(*s),
{
    match s {
        Some(t) => Some(t.copy()),
        None => None,
    }
}

impl ContentPart {
    pub fn copy(&self) -> (r: ContentPart)
        ensures
            r@ == self@,
    {
        match self {
            ContentPart::Text { text } => ContentPart::Text { text: text.clone() },
            ContentPart::ImageUrl { image_url } => ContentPart::ImageUrl {
                image_url: ImageUrl { url: image_url.url.clone() },
            },
        }
    }
}

impl MessageContent {
    pub fn copy(&self) -> (r: MessageContent)
        ensures
            r@ == self@,
    {
        match self {
            MessageContent::Text(t) => MessageContent::Text(t.clone()),
            MessageContent::Parts(v) => {
                let mut out: Vec<ContentPart> = Vec::new();
                let n: usize = v.len();
                let mut i: usize = 0;
                while i < n
                    invariant
                        n == v@.len(),
                        i <= n,
                        out@.len() == i,
                        forall|k: int| 0 <= k < i ==> (#[trigger] out@[k]).view() == v@[k].view(),
                    decreases n - i,
                {
                    out.push(v[i].copy());
                    i += 1;
                }
                assert(parts_view(out@) =~= parts_view(v@));
                MessageContent::Parts(out)
            },
        }
    }
}

impl ToolCall {
    pub fn copy(&self) -> (r: ToolCall)
        ensures
            r@ == self@,
            r == *self,
    {
        ToolCall {
            id: self.id.clone(),
            call_type: self.call_type.clone(),
            function: FunctionCall {
                name: self.function.name.clone(),
                arguments: self.function.arguments.clone(),
            },
        }
    }
}

/// A copy of a list of tool calls.
pub fn copy_calls(v: &Vec<ToolCall>) -> (r: Vec<ToolCall>)
    ensures
        r@ == v@,
        calls_view(r@) == calls_view(v@),
{
    let mut out: Vec<ToolCall> = Vec::new();
    let n: usize = v.len();
    let mut i: usize = 0;
    while i < n
        invariant
            n == v@.len(),
            i <= n,
            out@ == v@.take(i as int),
        decreases n - i,
    {
        out.push(v[i].copy());
        i += 1;
    }
    assert(v@.take(n as int) == v@);
    out
}

impl Message {
    /// A message with a role and a plain text.
    pub fn plain(role: &str, text: &str) -> (r: Message)
        ensures
            r@ == plain_message(role@, text@),
    {
        Message {
            role: role.to_string(),
            content: Some(MessageContent::Text(text.to_string())),
            reasoning_content: None,
            tool_calls: None,
            tool_call_id: None,
            name: None,
        }
    }

    pub fn copy(&self) -> (r: Message)
        ensures
            r@ == self@,
    {
        Message {
            role: self.role.clone(),
            content: match &self.content {
                Some(c) => Some(c.copy()),
                None => None,
            },
            reasoning_content: copy_opt(&self.reasoning_content),
            tool_calls: match &self.tool_calls {
                Some(c) => Some(copy_calls(c)),
                None => None,
            },
            tool_call_id: copy_opt(&self.tool_call_id),
            name: copy_opt(&self.name),
        }
    }
}

/// A message with a role and a plain text.
pub open spec fn plain_message(role: Seq<char>, text: Seq<char>) -> MessageV {
    MessageV {
        role,
        content: Some(ContentV::Text(text)),
        reasoning_content: None,
        tool_calls: None,
        tool_call_id: None,
        name: None,
    }
}

/// A copy of a conversation.
pub fn copy_messages(v: &Vec<Message>) -> (r: Vec<Message>)
    ensures
        messages_view(r@) == messages_view(v@),
{
    let mut out: Vec<Message> = Vec::new();
    let n: usize = v.len();
    let mut i: usize = 0;
    while i < n
        invariant
            n == v@.len(),
            i <= n,
            out@.len() == i,
            forall|k: int| 0 <= k < i ==> (#[trigger] out@[k]).view() == v@[k].view(),
        decreases n - i,
    {
        out.push(v[i].copy());
        i += 1;
    }
    assert(messages_view(out@) =~= messages_view(v@));
    out
}

impl Tool {
    pub fn copy(&self) -> (r: Tool)
        ensures
            r@ == self@,
    {
        Tool {
            tool_type: self.tool_type.clone(),
            function: Function {
                name: self.function.name.clone(),
                description: copy_opt(&self.function.description),
                parameters: self.function.parameters.copy(),
            },
        }
    }
}

/// A copy of a list of tools.
pub fn copy_tools(v: &Vec<Tool>) -> (r: Vec<Tool>)
    ensures
        tools_view(r@) == tools_view(v@),
{
    let mut out: Vec<Tool> = Vec::new();
    let n: usize = v.len();
    let mut i: usize = 0;
    while i < n
        invariant
            n == v@.len(),
            i <= n,
            out@.len() == i,
            forall|k: int| 0 <= k < i ==> (#[trigger] out@[k]).view() == v@[k].view(),
        decreases n - i,
    {
        out.push(v[i].copy());
        i += 1;
    }
    assert(tools_view(out@) =~= tools_view(v@));
    out
}

impl OpenAIRequest {
    /// A request of its own that says the same.
    pub fn copy(&self) -> (r: OpenAIRequest)
        ensures
            r@ == self@,
    {
        OpenAIRequest {
            model: self.model.clone(),
            messages: copy_messages(&self.messages),
            max_tokens: self.max_tokens,
            stream: self.stream,
            stream_options: copy_opt_json(&self.stream_options),
            tools: match &self.tools {
                Some(t) => Some(copy_tools(t)),
                None => None,
            },
            tool_choice: copy_opt_json(&self.tool_choice),
            parallel_tool_calls: self.parallel_tool_calls,
            reasoning_effort: copy_opt(&self.reasoning_effort),
        }
    }
}

} // verus!
