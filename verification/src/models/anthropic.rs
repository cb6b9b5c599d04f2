//! The Messages API side: requests, content blocks and stream events.
use crate::json::Json;
use crate::text::opt_text;
use vstd::prelude::*;

verus! {

/// An image carried in a message.
#[derive(Debug, PartialEq)]
pub struct ImageSource {
    pub source_type: String,
    pub media_type: String,
    pub data: String,
}

/// What a tool gave back.
#[derive(Debug, PartialEq)]
pub enum ToolResultContent {
    Text(String),
    Blocks(Vec<ContentBlock>),
}

/// One block of a message.
#[derive(Debug, PartialEq)]
pub enum ContentBlock {
    Text { text: String, cache_control: Option<Json> },
    Image { source: ImageSource },
    ToolUse { id: String, name: String, input: Json },
    ToolResult { tool_use_id: String, content: ToolResultContent, is_error: Option<bool> },
    Thinking { thinking: String },
}

/// The body of a message.
#[derive(Debug, PartialEq)]
pub enum MessageContent {
    Text(String),
    Blocks(Vec<ContentBlock>),
}

/// A message of the conversation.
#[derive(Debug, PartialEq)]
pub struct Message {
    pub role: String,
    pub content: MessageContent,
}

/// A tool that the client offers.
#[derive(Debug, PartialEq)]
pub struct Tool {
    pub name: String,
    pub description: Option<String>,
    pub input_schema: Json,
    pub tool_type: Option<String>,
}

/// One block of the system prompt.
#[derive(Debug, PartialEq)]
pub struct SystemMessage {
    pub message_type: String,
    pub text: String,
    pub cache_control: Option<Json>,
}

/// The system prompt.
#[derive(Debug, PartialEq)]
pub enum SystemPrompt {
    Single(String),
    Multiple(Vec<SystemMessage>),
}

/// A request of the client.
#[derive(Debug, PartialEq)]
pub struct AnthropicRequest {
    pub model: String,
    pub max_tokens: u32,
    pub messages: Vec<Message>,
    pub system: Option<SystemPrompt>,
    pub tools: Option<Vec<Tool>>,
}

/// Token counts of a message.
#[derive(Debug, PartialEq, Clone, Copy)]
pub struct Usage {
    pub input_tokens: u32,
    pub output_tokens: u32,
    pub cache_read_input_tokens: Option<u32>,
}

/// The head of a streamed message.
#[derive(Debug, PartialEq)]
pub struct MessageStartData {
    pub id: String,
    pub message_type: String,
    pub role: String,
    pub model: String,
    pub usage: Usage,
}

/// The head of a streamed block.
#[derive(Debug, PartialEq)]
pub enum ContentBlockStart {
    Thinking { thinking: String },
    Text { text: String },
    ToolUse { id: String, name: String },
}

/// A piece of a streamed block.
#[derive(Debug, PartialEq)]
pub enum Delta {
    ThinkingDelta { thinking: String },
    TextDelta { text: String },
    InputJsonDelta { partial_json: String },
}

/// How a streamed message ended.
#[derive(Debug, PartialEq)]
pub struct MessageDeltaData {
    pub stop_reason: Option<String>,
    pub stop_sequence: Option<String>,
}

/// Token counts at the end of a streamed message.
#[derive(Debug, PartialEq, Clone, Copy)]
pub struct DeltaUsage {
    pub input_tokens: Option<u32>,
    pub output_tokens: u32,
    pub cache_read_input_tokens: Option<u32>,
}

/// A failure reported in a stream.
#[derive(Debug, PartialEq)]
pub struct ErrorData {
    pub error_type: String,
    pub message: String,
}

/// One event of a streamed message.
#[allow(inconsistent_fields)]
#[derive(Debug, PartialEq)]
pub enum StreamEvent {
    MessageStart { message: MessageStartData },
    ContentBlockStart { index: usize, content_block: ContentBlockStart },
    ContentBlockDelta { index: usize, delta: Delta },
    ContentBlockStop { index: usize },
    MessageDelta { delta: MessageDeltaData, usage: DeltaUsage },
    MessageStop,
    Error { error: ErrorData },
}

// ---------------------------------------------------------------------------
// Views
// ---------------------------------------------------------------------------
/// What the head of a block is.
pub enum BlockStartV {
    Thinking(Seq<char>),
    Text(Seq<char>),
    ToolUse { id: Seq<char>, name: Seq<char> },
}

/// What a piece of a block is.
pub enum DeltaV {
    Thinking(Seq<char>),
    Text(Seq<char>),
    InputJson(Seq<char>),
}

/// What the head of a message is.
pub struct MessageStartV {
    pub id: Seq<char>,
    pub message_type: Seq<char>,
    pub role: Seq<char>,
    pub model: Seq<char>,
    pub usage: Usage,
}

/// What an event is.
pub enum EventV {
    MessageStart(MessageStartV),
    BlockStart { index: int, block: BlockStartV },
    BlockDelta { index: int, delta: DeltaV },
    BlockStop { index: int },
    MessageDelta {
        stop_reason: Option<Seq<char>>,
        stop_sequence: Option<Seq<char>>,
        usage: DeltaUsage,
    },
    MessageStop,
    Error { error_type: Seq<char>, message: Seq<char> },
}

impl ContentBlockStart {
    pub open spec fn view(&self) -> BlockStartV {
        match self {
            ContentBlockStart::Thinking { thinking } => BlockStartV::Thinking(thinking@),
            ContentBlockStart::Text { text } => BlockStartV::Text(text@),
            ContentBlockStart::ToolUse { id, name } => BlockStartV::ToolUse {
                id: id@,
                name: name@,
            },
        }
    }
}

impl Delta {
    pub open spec fn view(&self) -> DeltaV {
        match self {
            Delta::ThinkingDelta { thinking } => DeltaV::Thinking(thinking@),
            Delta::TextDelta { text } => DeltaV::Text(text@),
            Delta::InputJsonDelta { partial_json } => DeltaV::InputJson(partial_json@),
        }
    }
}

impl StreamEvent {
    pub open spec fn view(&self) -> EventV {
        match self {
            StreamEvent::MessageStart { message } => EventV::MessageStart(
                MessageStartV {
                    id: message.id@,
                    message_type: message.message_type@,
                    role: message.role@,
                    model: message.model@,
                    usage: message.usage,
                },
            ),
            StreamEvent::ContentBlockStart { index, content_block } => EventV::BlockStart {
                index: *index as int,
                block: content_block.view(),
            },
            StreamEvent::ContentBlockDelta { index, delta } => EventV::BlockDelta {
                index: *index as int,
                delta: delta.view(),
            },
            StreamEvent::ContentBlockStop { index } => EventV::BlockStop { index: *index as int },
            StreamEvent::MessageDelta { delta, usage } => EventV::MessageDelta {
                stop_reason: opt_text(delta.stop_reason),
                stop_sequence: opt_text(delta.stop_sequence),
                usage: *usage,
            },
            StreamEvent::MessageStop => EventV::MessageStop,
            StreamEvent::Error { error } => EventV::Error {
                error_type: error.error_type@,
                message: error.message@,
            },
        }
    }

    /// The name under which the event is sent.
    pub open spec fn name(self) -> Seq<char> {
        match self {
            StreamEvent::MessageStart { .. } => "message_start"@,
            StreamEvent::ContentBlockStart { .. } => "content_block_start"@,
            StreamEvent::ContentBlockDelta { .. } => "content_block_delta"@,
            StreamEvent::ContentBlockStop { .. } => "content_block_stop"@,
            StreamEvent::MessageDelta { .. } => "message_delta"@,
            StreamEvent::MessageStop => "message_stop"@,
            StreamEvent::Error { .. } => "error"@,
        }
    }

    /// The name under which the event is sent.
    pub fn event_type(&self) -> (r: &'static str)
        ensures
            r@ == self.name(),
    {
        match self {
            StreamEvent::MessageStart { .. } => "message_start",
            StreamEvent::ContentBlockStart { .. } => "content_block_start",
            StreamEvent::ContentBlockDelta { .. } => "content_block_delta",
            StreamEvent::ContentBlockStop { .. } => "content_block_stop",
            StreamEvent::MessageDelta { .. } => "message_delta",
            StreamEvent::MessageStop => "message_stop",
            StreamEvent::Error { .. } => "error",
        }
    }
}

/// The events of a stream.
pub open spec fn events_view(v: Seq<StreamEvent>) -> Seq<EventV> {
    Seq::new(v.len(), |i: int| v[i].view())
}

/// One more event at the end.
pub broadcast proof fn lemma_events_push(v: Seq<StreamEvent>, e: StreamEvent)
    ensures
        #[trigger] events_view(v.push(e)) == events_view(v).push(e.view()),
{
    assert(events_view(v.push(e)) =~= events_view(v).push(e.view()));
}

} // verus!
