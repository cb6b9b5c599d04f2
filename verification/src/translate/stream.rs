//! A streamed completion, chunk by chunk, as the events of a streamed message.
use crate::models::anthropic::{
    events_view, lemma_events_push, BlockStartV, ContentBlockStart, Delta, DeltaUsage, DeltaV,
    ErrorData, EventV, MessageDeltaData, MessageStartData, MessageStartV, StreamEvent, Usage,
};
use crate::models::openai;
use crate::text::opt_text;
use crate::translate::messages::{map_stop_reason, prompt_split, split_prompt_tokens, stop_reason};
use vstd::prelude::*;

verus! {

broadcast use lemma_events_push;

#[derive(Debug)]
enum BlockState {
    Idle,
    Thinking { index: usize },
    Text { index: usize },
    ToolUse { index: usize },
}

/// Where a stream stands.
#[derive(Debug)]
pub struct StreamState {
    message_id: Option<String>,
    model: Option<String>,
    fallback_model: String,
    block: BlockState,
    next_index: usize,
    message_started: bool,
    /// Estimated prompt size, surfaced in `message_start` (real usage only arrives last).
    input_tokens: u32,
    /// Real usage, from whichever chunk carries it: often a trailing one without choices.
    usage: Option<openai::Usage>,
    finish_reason: Option<String>,
    /// Whether the closing events were given out.
    finalized: bool,
}

// ---------------------------------------------------------------------------
// The model
// ---------------------------------------------------------------------------
/// What a content block holds.
pub enum Kind {
    Thinking,
    Text,
    ToolUse,
}

/// The block that was started last, and the index that the next one gets once that one
/// is stopped.
pub struct Blocks {
    pub last: Option<(Kind, int)>,
    pub next: int,
}

/// What a stream state is.
pub struct StateV {
    pub message_id: Option<Seq<char>>,
    pub model: Option<Seq<char>>,
    pub fallback_model: Seq<char>,
    pub blocks: Blocks,
    pub started: bool,
    pub input_tokens: u32,
    pub usage: Option<openai::Usage>,
    pub finish_reason: Option<Seq<char>>,
    pub finalized: bool,
}

/// One thing that a chunk says.
pub enum Piece {
    Thinking(Seq<char>),
    Text(Seq<char>),
    ToolStart { id: Seq<char>, name: Option<Seq<char>> },
    ToolArgs(Seq<char>),
    Finish,
}

impl Blocks {
    /// The last block has the index before `next`, or is still open and has `next` itself.
    pub open spec fn wf(self) -> bool {
        &&& 0 <= self.next
        &&& self.last matches Some((_, i)) ==> 0 <= i <= self.next <= i + 1
    }

    /// The event that stops the last block.
    pub open spec fn stop(self) -> Seq<EventV> {
        match self.last {
            Some((_, i)) => seq![EventV::BlockStop { index: i }],
            None => seq![],
        }
    }

    /// After the last block was stopped.
    pub open spec fn stopped(self) -> Blocks {
        match self.last {
            Some((_, i)) => Blocks { next: i + 1, ..self },
            None => self,
        }
    }

    /// After the last block was stopped and one more was started.
    pub open spec fn with(self, kind: Kind) -> Blocks {
        let b = self.stopped();
        Blocks { last: Some((kind, b.next)), ..b }
    }

    /// The events that stop the last block and start one more.
    pub open spec fn start(self, block: BlockStartV) -> Seq<EventV> {
        self.stop().push(EventV::BlockStart { index: self.stopped().next, block })
    }

    /// The index of the last block.
    pub open spec fn last_index(self) -> int {
        match self.last {
            Some((_, i)) => i,
            None => self.next,
        }
    }

    /// The last block has the given kind.
    pub open spec fn is(self, kind: Kind) -> bool {
        self.last matches Some((k, _)) && k == kind
    }

    /// The blocks after a piece: more of the same kind goes to the block that is there,
    /// anything else stops it, and an unnamed tool call or the end starts nothing new.
    pub open spec fn after(self, p: Piece) -> Blocks {
        match p {
            Piece::Thinking(_) => if self.is(Kind::Thinking) {
                self
            } else {
                self.with(Kind::Thinking)
            },
            Piece::Text(_) => if self.is(Kind::Text) {
                self
            } else {
                self.with(Kind::Text)
            },
            Piece::ToolStart { name: Some(_), .. } => self.with(Kind::ToolUse),
            Piece::ToolStart { name: None, .. } => self.stopped(),
            Piece::ToolArgs(_) => self,
            Piece::Finish => self.stopped(),
        }
    }

    /// The events that a piece becomes.
    pub open spec fn events(self, p: Piece) -> Seq<EventV> {
        match p {
            Piece::Thinking(t) => {
                let delta = DeltaV::Thinking(t);
                (if self.is(Kind::Thinking) {
                    seq![]
                } else {
                    self.start(BlockStartV::Thinking(seq![]))
                }).push(EventV::BlockDelta { index: self.after(p).last_index(), delta })
            },
            Piece::Text(t) => {
                let delta = DeltaV::Text(t);
                (if self.is(Kind::Text) {
                    seq![]
                } else {
                    self.start(BlockStartV::Text(seq![]))
                }).push(EventV::BlockDelta { index: self.after(p).last_index(), delta })
            },
            Piece::ToolStart { id, name: Some(name) } => self.start(
                BlockStartV::ToolUse { id, name },
            ),
            Piece::ToolStart { name: None, .. } => self.stop(),
            Piece::ToolArgs(args) => if self.is(Kind::ToolUse) {
                seq![EventV::BlockDelta { index: self.last_index(), delta: DeltaV::InputJson(args) }]
            } else {
                seq![]
            },
            Piece::Finish => self.stop(),
        }
    }

    /// The blocks after some pieces.
    pub open spec fn after_all(self, ps: Seq<Piece>) -> Blocks
        decreases ps.len(),
    {
        if ps.len() == 0 {
            self
        } else {
            self.after_all(ps.drop_last()).after(ps.last())
        }
    }

    /// The events that some pieces become.
    pub open spec fn all_events(self, ps: Seq<Piece>) -> Seq<EventV>
        decreases ps.len(),
    {
        if ps.len() == 0 {
            seq![]
        } else {
            self.all_events(ps.drop_last()) + self.after_all(ps.drop_last()).events(ps.last())
        }
    }
}

/// The function that a tool call of a chunk names.
pub open spec fn call_name(c: openai::DeltaToolCall) -> Option<Seq<char>> {
    match c.function {
        Some(f) => opt_text(f.name),
        None => None,
    }
}

/// What one tool call of a chunk says.
pub open spec fn call_pieces(c: openai::DeltaToolCall) -> Seq<Piece> {
    let args = match c.function {
        Some(f) => opt_text(f.arguments),
        None => None,
    };
    (match c.id {
        Some(id) => seq![Piece::ToolStart { id: id@, name: call_name(c) }],
        None => seq![],
    }) + (match args {
        Some(a) => seq![Piece::ToolArgs(a)],
        None => seq![],
    })
}

/// What the tool calls of a chunk say.
pub open spec fn calls_pieces(cs: Seq<openai::DeltaToolCall>) -> Seq<Piece>
    decreases cs.len(),
{
    if cs.len() == 0 {
        seq![]
    } else {
        calls_pieces(cs.drop_last()) + call_pieces(cs.last())
    }
}

/// Reasoning, if there is any.
pub open spec fn thinking_piece(t: Option<String>) -> Seq<Piece> {
    match t {
        Some(t) => seq![Piece::Thinking(t@)],
        None => seq![],
    }
}

/// Text, if there is any.
pub open spec fn text_piece(t: Option<String>) -> Seq<Piece> {
    match t {
        Some(t) => if t@.len() > 0 {
            seq![Piece::Text(t@)]
        } else {
            seq![]
        },
        None => seq![],
    }
}

/// Tool calls, if there are any.
pub open spec fn tool_pieces(cs: Option<Vec<openai::DeltaToolCall>>) -> Seq<Piece> {
    match cs {
        Some(cs) => calls_pieces(cs@),
        None => seq![],
    }
}

/// The end, if the choice ends.
pub open spec fn finish_piece(t: Option<String>) -> Seq<Piece> {
    if t is Some {
        seq![Piece::Finish]
    } else {
        seq![]
    }
}

/// What a choice says: reasoning under either name, text, tool calls, and the end.
pub open spec fn pieces(c: openai::StreamChoice) -> Seq<Piece> {
    thinking_piece(c.delta.reasoning) + thinking_piece(c.delta.reasoning_content) + text_piece(
        c.delta.content,
    ) + tool_pieces(c.delta.tool_calls) + finish_piece(c.finish_reason)
}

/// The pieces of a chunk: those of its first choice.
pub open spec fn chunk_pieces(chunk: openai::StreamChunk) -> Seq<Piece> {
    if chunk.choices@.len() > 0 {
        pieces(chunk.choices@[0])
    } else {
        seq![]
    }
}

impl StateV {
    /// The first identifier and model that were named, and the usage that was named last.
    pub open spec fn noting(self, chunk: openai::StreamChunk) -> StateV {
        StateV {
            message_id: if self.message_id is Some {
                self.message_id
            } else {
                opt_text(chunk.id)
            },
            model: if self.model is Some {
                self.model
            } else {
                opt_text(chunk.model)
            },
            usage: if chunk.usage is Some {
                chunk.usage
            } else {
                self.usage
            },
            ..self
        }
    }

    /// The event that starts the message.
    pub open spec fn message_start(self) -> EventV {
        EventV::MessageStart(
            MessageStartV {
                id: match self.message_id {
                    Some(id) => id,
                    None => "msg_proxy"@,
                },
                message_type: "message"@,
                role: "assistant"@,
                model: match self.model {
                    Some(m) => m,
                    None => self.fallback_model,
                },
                usage: Usage {
                    input_tokens: self.input_tokens,
                    output_tokens: 0,
                    cache_read_input_tokens: None,
                },
            },
        )
    }

    /// The state after a chunk. A chunk without choices leaves only what it says of itself.
    pub open spec fn after(self, chunk: openai::StreamChunk) -> StateV {
        let s = self.noting(chunk);
        if chunk.choices@.len() == 0 {
            s
        } else {
            StateV {
                blocks: s.blocks.after_all(chunk_pieces(chunk)),
                started: true,
                finish_reason: if chunk.choices@[0].finish_reason is Some {
                    opt_text(chunk.choices@[0].finish_reason)
                } else {
                    s.finish_reason
                },
                ..s
            }
        }
    }

    /// The events that a chunk becomes: the start of the message ahead of the first ones.
    pub open spec fn events(self, chunk: openai::StreamChunk) -> Seq<EventV> {
        if chunk.choices@.len() == 0 {
            seq![]
        } else {
            (if self.started {
                seq![]
            } else {
                seq![self.noting(chunk).message_start()]
            }) + self.blocks.all_events(chunk_pieces(chunk))
        }
    }

    /// The event that closes the message: why it ended, and the upstream's own usage, or
    /// the estimate where it gave none.
    pub open spec fn message_delta(self) -> EventV {
        EventV::MessageDelta {
            stop_reason: match self.finish_reason {
                Some(r) => Some(stop_reason(r)),
                None => None,
            },
            stop_sequence: None,
            usage: match self.usage {
                Some(u) => DeltaUsage {
                    input_tokens: Some(prompt_split(u).0),
                    output_tokens: u.completion_tokens,
                    cache_read_input_tokens: prompt_split(u).1,
                },
                None => DeltaUsage {
                    input_tokens: Some(self.input_tokens),
                    output_tokens: 0,
                    cache_read_input_tokens: None,
                },
            },
        }
    }

    /// The closing events, once.
    pub open spec fn done_events(self) -> Seq<EventV> {
        if self.finalized {
            seq![]
        } else if self.started {
            seq![self.message_delta(), EventV::MessageStop]
        } else {
            seq![EventV::MessageStop]
        }
    }

    /// The state of a stream that is over.
    pub open spec fn done(self) -> StateV {
        StateV { finalized: true, ..self }
    }
}

/// The state before the first chunk.
pub open spec fn fresh(fallback_model: Seq<char>, input_tokens: u32) -> StateV {
    StateV {
        message_id: None,
        model: None,
        fallback_model,
        blocks: Blocks { last: None, next: 0 },
        started: false,
        input_tokens,
        usage: None,
        finish_reason: None,
        finalized: false,
    }
}

// ---------------------------------------------------------------------------
// The code
// ---------------------------------------------------------------------------
impl BlockState {
    spec fn last(self) -> Option<(Kind, int)> {
        match self {
            BlockState::Idle => None,
            BlockState::Thinking { index } => Some((Kind::Thinking, index as int)),
            BlockState::Text { index } => Some((Kind::Text, index as int)),
            BlockState::ToolUse { index } => Some((Kind::ToolUse, index as int)),
        }
    }

    fn current_index(&self) -> (r: Option<usize>)
        ensures
            match self.last() {
                Some((_, i)) => r is Some && r->0 == i,
                None => r is None,
            },
    {
        match self {
            BlockState::Idle => None,
            BlockState::Thinking { index } => Some(*index),
            BlockState::Text { index } => Some(*index),
            BlockState::ToolUse { index } => Some(*index),
        }
    }
}

impl StreamState {
    #[verifier::type_invariant]
    spec fn inv(self) -> bool {
        self@.blocks.wf()
    }

    pub closed spec fn view(&self) -> StateV {
        StateV {
            message_id: opt_text(self.message_id),
            model: opt_text(self.model),
            fallback_model: self.fallback_model@,
            blocks: Blocks { last: self.block.last(), next: self.next_index as int },
            started: self.message_started,
            input_tokens: self.input_tokens,
            usage: self.usage,
            finish_reason: opt_text(self.finish_reason),
            finalized: self.finalized,
        }
    }
}

/// The state before the first chunk of a stream.
pub fn initial_state(fallback_model: String, input_tokens: u32) -> (r: StreamState)
    ensures
        r@ == fresh(fallback_model@, input_tokens),
        r@.blocks.wf(),
{
    StreamState {
        message_id: None,
        model: None,
        fallback_model,
        block: BlockState::Idle,
        next_index: 0,
        message_started: false,
        input_tokens,
        usage: None,
        finish_reason: None,
        finalized: false,
    }
}

fn close_current_block(events: &mut Vec<StreamEvent>, state: &mut StreamState)
    requires
        old(state)@.blocks.wf(),
        old(state)@.blocks.next < usize::MAX,
    ensures
        final(state)@ == (StateV { blocks: old(state)@.blocks.stopped(), ..old(state)@ }),
        events_view(final(events)@) == events_view(old(events)@) + old(state)@.blocks.stop(),
{
    if let Some(index) = state.block.current_index() {
        events.push(StreamEvent::ContentBlockStop { index });
        state.next_index = index + 1;
    }
}

/// The pieces `ps` lead from the one state and its events to the other.
#[verifier::opaque]
spec fn told(
    s: StateV,
    events: Seq<EventV>,
    ps: Seq<Piece>,
    then_s: StateV,
    then_events: Seq<EventV>,
) -> bool {
    &&& then_s == (StateV { blocks: s.blocks.after_all(ps), ..s })
    &&& then_events == events + s.blocks.all_events(ps)
    &&& then_s.blocks.wf()
    &&& then_s.blocks.next <= s.blocks.next + ps.len()
}

proof fn lemma_told_one(
    s: StateV,
    events: Seq<EventV>,
    p: Piece,
    then_s: StateV,
    then_events: Seq<EventV>,
)
    requires
        s.blocks.wf(),
        then_s == (StateV { blocks: s.blocks.after(p), ..s }),
        then_events =~= events + s.blocks.events(p),
    ensures
        told(s, events, seq![p], then_s, then_events),
{
    reveal(told);
    lemma_one_more(s.blocks, seq![], p);
    assert(Seq::<Piece>::empty().push(p) =~= seq![p]);
    assert(Seq::<EventV>::empty() + s.blocks.events(p) =~= s.blocks.events(p));
    lemma_after_all(s.blocks, seq![p]);
}

proof fn lemma_told_none(s: StateV, events: Seq<EventV>)
    requires
        s.blocks.wf(),
    ensures
        told(s, events, seq![], s, events),
{
    reveal(told);
    assert(events + Seq::<EventV>::empty() =~= events);
}

proof fn lemma_told_more(
    s: StateV,
    events: Seq<EventV>,
    ps: Seq<Piece>,
    mid_s: StateV,
    mid_events: Seq<EventV>,
    qs: Seq<Piece>,
    then_s: StateV,
    then_events: Seq<EventV>,
)
    requires
        told(s, events, ps, mid_s, mid_events),
        told(mid_s, mid_events, qs, then_s, then_events),
    ensures
        told(s, events, ps + qs, then_s, then_events),
{
    reveal(told);
    lemma_concat(s.blocks, ps, qs);
    assert(events + (s.blocks.all_events(ps) + mid_s.blocks.all_events(qs)) =~= events
        + s.blocks.all_events(ps) + mid_s.blocks.all_events(qs));
}

proof fn lemma_told_room(
    s: StateV,
    events: Seq<EventV>,
    ps: Seq<Piece>,
    then_s: StateV,
    then_events: Seq<EventV>,
)
    requires
        told(s, events, ps, then_s, then_events),
    ensures
        then_s.blocks.wf(),
        then_s.blocks.next <= s.blocks.next + ps.len(),
{
    reveal(told);
}

fn emit_reasoning(events: &mut Vec<StreamEvent>, state: &mut StreamState, reasoning: &str)
    requires
        old(state)@.blocks.wf(),
        old(state)@.blocks.next < usize::MAX,
    ensures
        told(
            old(state)@,
            events_view(old(events)@),
            seq![Piece::Thinking(reasoning@)],
            final(state)@,
            events_view(final(events)@),
        ),
{
    let thinking = match state.block {
        BlockState::Thinking { .. } => true,
        _ => false,
    };
    if !thinking {
        close_current_block(events, state);
        let index: usize = state.next_index;
        let content_block = ContentBlockStart::Thinking { thinking: String::new() };
        assert(content_block@ == BlockStartV::Thinking(seq![]));
        events.push(StreamEvent::ContentBlockStart { index, content_block });
        state.block = BlockState::Thinking { index };
    }
    if let BlockState::Thinking { index } = state.block {
        let delta = Delta::ThinkingDelta { thinking: reasoning.to_string() };
        events.push(StreamEvent::ContentBlockDelta { index, delta });
    }
    proof {
        let p = Piece::Thinking(reasoning@);
        lemma_told_one(old(state)@, events_view(old(events)@), p, state@, events_view(events@));
    }
}

fn emit_text(events: &mut Vec<StreamEvent>, state: &mut StreamState, content: &str)
    requires
        old(state)@.blocks.wf(),
        old(state)@.blocks.next < usize::MAX,
    ensures
        told(
            old(state)@,
            events_view(old(events)@),
            seq![Piece::Text(content@)],
            final(state)@,
            events_view(final(events)@),
        ),
{
    let text = match state.block {
        BlockState::Text { .. } => true,
        _ => false,
    };
    if !text {
        close_current_block(events, state);
        let index: usize = state.next_index;
        let content_block = ContentBlockStart::Text { text: String::new() };
        assert(content_block@ == BlockStartV::Text(seq![]));
        events.push(StreamEvent::ContentBlockStart { index, content_block });
        state.block = BlockState::Text { index };
    }
    if let BlockState::Text { index } = state.block {
        let delta = Delta::TextDelta { text: content.to_string() };
        events.push(StreamEvent::ContentBlockDelta { index, delta });
    }
    proof {
        let p = Piece::Text(content@);
        lemma_told_one(old(state)@, events_view(old(events)@), p, state@, events_view(events@));
    }
}

fn emit_tool_start(
    events: &mut Vec<StreamEvent>,
    state: &mut StreamState,
    id: &String,
    call: &openai::DeltaToolCall,
)
    requires
        old(state)@.blocks.wf(),
        old(state)@.blocks.next < usize::MAX,
    ensures
        told(
            old(state)@,
            events_view(old(events)@),
            seq![Piece::ToolStart { id: id@, name: call_name(*call) }],
            final(state)@,
            events_view(final(events)@),
        ),
{
    close_current_block(events, state);
    let index: usize = state.next_index;
    if let Some(function) = &call.function {
        if let Some(name) = &function.name {
            let content_block = ContentBlockStart::ToolUse { id: id.clone(), name: name.clone() };
            events.push(StreamEvent::ContentBlockStart { index, content_block });
            state.block = BlockState::ToolUse { index };
        }
    }
    proof {
        let p = Piece::ToolStart { id: id@, name: call_name(*call) };
        lemma_told_one(old(state)@, events_view(old(events)@), p, state@, events_view(events@));
    }
}

fn emit_tool_args(events: &mut Vec<StreamEvent>, state: &mut StreamState, args: &String)
    requires
        old(state)@.blocks.wf(),
    ensures
        told(
            old(state)@,
            events_view(old(events)@),
            seq![Piece::ToolArgs(args@)],
            final(state)@,
            events_view(final(events)@),
        ),
{
    if let BlockState::ToolUse { index } = state.block {
        let delta = Delta::InputJsonDelta { partial_json: args.clone() };
        events.push(StreamEvent::ContentBlockDelta { index, delta });
    }
    proof {
        let p = Piece::ToolArgs(args@);
        lemma_told_one(old(state)@, events_view(old(events)@), p, state@, events_view(events@));
    }
}

fn emit_tool_call(
    events: &mut Vec<StreamEvent>,
    state: &mut StreamState,
    call: &openai::DeltaToolCall,
)
    requires
        old(state)@.blocks.wf(),
        old(state)@.blocks.next + call_pieces(*call).len() <= usize::MAX,
    ensures
        told(
            old(state)@,
            events_view(old(events)@),
            call_pieces(*call),
            final(state)@,
            events_view(final(events)@),
        ),
{
    let ghost s0 = state@;
    let ghost e0 = events_view(events@);
    let ghost mut done: Seq<Piece> = seq![];
    proof {
        lemma_told_none(s0, e0);
    }
    if let Some(id) = &call.id {
        emit_tool_start(events, state, id, call);
        proof {
            done = seq![Piece::ToolStart { id: id@, name: call_name(*call) }];
        }
    }
    let ghost s1 = state@;
    let ghost e1 = events_view(events@);
    proof {
        lemma_told_room(s0, e0, done, s1, e1);
    }
    if let Some(function) = &call.function {
        if let Some(args) = &function.arguments {
            emit_tool_args(events, state, args);
            proof {
                let q = seq![Piece::ToolArgs(args@)];
                lemma_told_more(s0, e0, done, s1, e1, q, state@, events_view(events@));
                done = done + q;
            }
        }
    }
    assert(done =~= call_pieces(*call));
}

fn emit_tool_calls(
    events: &mut Vec<StreamEvent>,
    state: &mut StreamState,
    tool_calls: &Vec<openai::DeltaToolCall>,
)
    requires
        old(state)@.blocks.wf(),
        old(state)@.blocks.next + calls_pieces(tool_calls@).len() <= usize::MAX,
    ensures
        told(
            old(state)@,
            events_view(old(events)@),
            calls_pieces(tool_calls@),
            final(state)@,
            events_view(final(events)@),
        ),
{
    let ghost s0 = state@;
    let ghost e0 = events_view(events@);
    let n: usize = tool_calls.len();
    let mut i: usize = 0;
    proof {
        lemma_told_none(s0, e0);
    }
    while i < n
        invariant
            n == tool_calls@.len(),
            i <= n,
            s0.blocks.next + calls_pieces(tool_calls@).len() <= usize::MAX,
            told(
                s0,
                e0,
                calls_pieces(tool_calls@.take(i as int)),
                state@,
                events_view(events@),
            ),
        decreases n - i,
    {
        let ghost s1 = state@;
        let ghost e1 = events_view(events@);
        let ghost done = calls_pieces(tool_calls@.take(i as int));
        proof {
            assert(tool_calls@.take(i as int + 1).drop_last() =~= tool_calls@.take(i as int));
            lemma_calls_pieces_prefix(tool_calls@, i as int + 1);
            lemma_told_room(s0, e0, done, s1, e1);
        }
        emit_tool_call(events, state, &tool_calls[i]);
        proof {
            let q = call_pieces(tool_calls@[i as int]);
            lemma_told_more(s0, e0, done, s1, e1, q, state@, events_view(events@));
        }
        i += 1;
    }
    assert(tool_calls@.take(n as int) =~= tool_calls@);
}

fn emit_any_reasoning(
    events: &mut Vec<StreamEvent>,
    state: &mut StreamState,
    value: &Option<String>,
)
    requires
        old(state)@.blocks.wf(),
        old(state)@.blocks.next + thinking_piece(*value).len() <= usize::MAX,
    ensures
        told(
            old(state)@,
            events_view(old(events)@),
            thinking_piece(*value),
            final(state)@,
            events_view(final(events)@),
        ),
{
    proof {
        lemma_told_none(state@, events_view(events@));
    }
    if let Some(reasoning) = value {
        emit_reasoning(events, state, reasoning);
    }
}

fn emit_any_text(
    events: &mut Vec<StreamEvent>,
    state: &mut StreamState,
    value: &Option<String>,
)
    requires
        old(state)@.blocks.wf(),
        old(state)@.blocks.next + text_piece(*value).len() <= usize::MAX,
    ensures
        told(
            old(state)@,
            events_view(old(events)@),
            text_piece(*value),
            final(state)@,
            events_view(final(events)@),
        ),
{
    proof {
        lemma_told_none(state@, events_view(events@));
    }
    if let Some(content) = value {
        if !content.as_str().is_empty() {
            emit_text(events, state, content);
        }
    }
}

fn emit_any_tool_calls(
    events: &mut Vec<StreamEvent>,
    state: &mut StreamState,
    value: &Option<Vec<openai::DeltaToolCall>>,
)
    requires
        old(state)@.blocks.wf(),
        old(state)@.blocks.next + tool_pieces(*value).len() <= usize::MAX,
    ensures
        told(
            old(state)@,
            events_view(old(events)@),
            tool_pieces(*value),
            final(state)@,
            events_view(final(events)@),
        ),
{
    proof {
        lemma_told_none(state@, events_view(events@));
    }
    if let Some(tool_calls) = value {
        emit_tool_calls(events, state, tool_calls);
    }
}

fn emit_any_end(
    events: &mut Vec<StreamEvent>,
    state: &mut StreamState,
    value: &Option<String>,
)
    requires
        old(state)@.blocks.wf(),
        old(state)@.blocks.next + finish_piece(*value).len() <= usize::MAX,
    ensures
        told(
            old(state)@,
            events_view(old(events)@),
            finish_piece(*value),
            final(state)@,
            events_view(final(events)@),
        ),
{
    proof {
        lemma_told_none(state@, events_view(events@));
    }
    let ghost s0 = state@;
    let ghost e0 = events_view(events@);
    if value.is_some() {
        close_current_block(events, state);
        proof {
            lemma_told_one(s0, e0, Piece::Finish, state@, events_view(events@));
        }
    }
}

fn emit_choice(
    events: &mut Vec<StreamEvent>,
    state: &mut StreamState,
    choice: &openai::StreamChoice,
)
    requires
        old(state)@.blocks.wf(),
        old(state)@.blocks.next + pieces(*choice).len() <= usize::MAX,
    ensures
        told(
            old(state)@,
            events_view(old(events)@),
            pieces(*choice),
            final(state)@,
            events_view(final(events)@),
        ),
{
    let ghost s0 = state@;
    let ghost e0 = events_view(events@);
    emit_any_reasoning(events, state, &choice.delta.reasoning);
    let ghost mut done = thinking_piece(choice.delta.reasoning);
    let ghost s1 = state@;
    let ghost e1 = events_view(events@);
    proof {
        lemma_told_room(s0, e0, done, s1, e1);
    }
    emit_any_reasoning(events, state, &choice.delta.reasoning_content);
    proof {
        let q = thinking_piece(choice.delta.reasoning_content);
        lemma_told_more(s0, e0, done, s1, e1, q, state@, events_view(events@));
        done = done + q;
    }
    let ghost s1 = state@;
    let ghost e1 = events_view(events@);
    proof {
        lemma_told_room(s0, e0, done, s1, e1);
    }
    emit_any_text(events, state, &choice.delta.content);
    proof {
        let q = text_piece(choice.delta.content);
        lemma_told_more(s0, e0, done, s1, e1, q, state@, events_view(events@));
        done = done + q;
    }
    let ghost s1 = state@;
    let ghost e1 = events_view(events@);
    proof {
        lemma_told_room(s0, e0, done, s1, e1);
    }
    emit_any_tool_calls(events, state, &choice.delta.tool_calls);
    proof {
        let q = tool_pieces(choice.delta.tool_calls);
        lemma_told_more(s0, e0, done, s1, e1, q, state@, events_view(events@));
        done = done + q;
    }
    let ghost s1 = state@;
    let ghost e1 = events_view(events@);
    proof {
        lemma_told_room(s0, e0, done, s1, e1);
    }
    emit_any_end(events, state, &choice.finish_reason);
    proof {
        let q = finish_piece(choice.finish_reason);
        lemma_told_more(s0, e0, done, s1, e1, q, state@, events_view(events@));
        done = done + q;
    }
}

fn emit_finish(events: &mut Vec<StreamEvent>, state: &StreamState)
    ensures
        events_view(final(events)@) == events_view(old(events)@).push(state@.message_delta()),
{
    let reason = match &state.finish_reason {
        Some(r) => Some(r.as_str()),
        None => None,
    };
    let stop = map_stop_reason(reason);
    let usage = match &state.usage {
        Some(u) => {
            let (input, cache_read) = split_prompt_tokens(u);
            DeltaUsage {
                input_tokens: Some(input),
                output_tokens: u.completion_tokens,
                cache_read_input_tokens: cache_read,
            }
        },
        None => DeltaUsage {
            input_tokens: Some(state.input_tokens),
            output_tokens: 0,
            cache_read_input_tokens: None,
        },
    };
    events.push(
        StreamEvent::MessageDelta {
            delta: MessageDeltaData { stop_reason: stop, stop_sequence: None },
            usage,
        },
    );
}

fn start_message(events: &mut Vec<StreamEvent>, state: &mut StreamState)
    ensures
        final(state)@ == (StateV { started: true, ..old(state)@ }),
        events_view(final(events)@) == (if old(state)@.started {
            events_view(old(events)@)
        } else {
            events_view(old(events)@).push(old(state)@.message_start())
        }),
{
    proof {
        use_type_invariant(&*state);
    }
    if !state.message_started {
        let id = match &state.message_id {
            Some(id) => id.clone(),
            None => "msg_proxy".to_string(),
        };
        let model = match &state.model {
            Some(model) => model.clone(),
            None => state.fallback_model.clone(),
        };
        let usage = Usage {
            input_tokens: state.input_tokens,
            output_tokens: 0,
            cache_read_input_tokens: None,
        };
        let message = MessageStartData {
            id,
            message_type: "message".to_string(),
            role: "assistant".to_string(),
            model,
            usage,
        };
        events.push(StreamEvent::MessageStart { message });
        state.message_started = true;
    }
}

fn count_calls(calls: &Vec<openai::DeltaToolCall>) -> (r: u128)
    ensures
        r == calls_pieces(calls@).len(),
        r <= 2 * usize::MAX,
{
    let n: usize = calls.len();
    let mut i: usize = 0;
    let mut count: u128 = 0;
    assert(calls@.take(0) =~= Seq::<openai::DeltaToolCall>::empty());
    while i < n
        invariant
            n == calls@.len(),
            i <= n,
            count == calls_pieces(calls@.take(i as int)).len(),
            count <= 2 * i,
        decreases n - i,
    {
        assert(calls@.take(i as int + 1).drop_last() =~= calls@.take(i as int));
        if calls[i].id.is_some() {
            count += 1;
        }
        if let Some(function) = &calls[i].function {
            if function.arguments.is_some() {
                count += 1;
            }
        }
        i += 1;
    }
    assert(calls@.take(n as int) =~= calls@);
    count
}

/// Whether there are indices left for all blocks that a chunk may start.
pub fn has_room(state: &StreamState, chunk: &openai::StreamChunk) -> (r: bool)
    ensures
        r == (state@.blocks.next + chunk_pieces(*chunk).len() <= usize::MAX),
{
    if chunk.choices.len() == 0 {
        return true;
    }
    let choice = &chunk.choices[0];
    let mut count: u128 = match &choice.delta.tool_calls {
        Some(calls) => count_calls(calls),
        None => 0,
    };
    if choice.delta.reasoning.is_some() {
        count += 1;
    }
    if choice.delta.reasoning_content.is_some() {
        count += 1;
    }
    if let Some(text) = &choice.delta.content {
        if !text.as_str().is_empty() {
            count += 1;
        }
    }
    if choice.finish_reason.is_some() {
        count += 1;
    }
    state.next_index as u128 + count <= usize::MAX as u128
}

/// The events that the next chunk of a stream becomes.
///
/// Usage is noted from any chunk that carries it, also from one without choices. Where a
/// choice ends the message, its open block is stopped at once, and the closing events wait
/// for the end of the stream, since the usage may come later.
pub fn translate_chunk(state: &mut StreamState, chunk: &openai::StreamChunk) -> (r: Vec<
    StreamEvent,
>)
    requires
        old(state)@.blocks.next + chunk_pieces(*chunk).len() <= usize::MAX,
    ensures
        final(state)@ == old(state)@.after(*chunk),
        events_view(r@) == old(state)@.events(*chunk),
        final(state)@.blocks.wf(),
        final(state)@.blocks.next <= old(state)@.blocks.next + chunk_pieces(*chunk).len(),
{
    proof {
        use_type_invariant(&*state);
    }
    let mut events: Vec<StreamEvent> = Vec::new();
    if let Some(id) = &chunk.id {
        if state.message_id.is_none() {
            state.message_id = Some(id.clone());
        }
    }
    if let Some(model) = &chunk.model {
        if state.model.is_none() {
            state.model = Some(model.clone());
        }
    }
    if let Some(usage) = &chunk.usage {
        state.usage = Some(*usage);
    }
    assert(state@ == old(state)@.noting(*chunk));
    assert(events_view(events@) =~= Seq::<EventV>::empty());
    if chunk.choices.len() == 0 {
        return events;
    }
    let choice = &chunk.choices[0];
    start_message(&mut events, state);
    let ghost s1 = state@;
    let ghost e1 = events_view(events@);
    emit_choice(&mut events, state, choice);
    proof {
        reveal(told);
        assert(e1 =~= (if old(state)@.started {
            seq![]
        } else {
            seq![old(state)@.noting(*chunk).message_start()]
        }));
    }
    if let Some(finish_reason) = &choice.finish_reason {
        state.finish_reason = Some(finish_reason.clone());
    }
    events
}

/// The closing events of a stream, once: how the message ended, with the usage that is
/// known by now, and its end. A second call gives none.
pub fn translate_done(state: &mut StreamState) -> (r: Vec<StreamEvent>)
    ensures
        final(state)@ == old(state)@.done(),
        events_view(r@) == old(state)@.done_events(),
{
    let mut events: Vec<StreamEvent> = Vec::new();
    assert(events_view(events@) == Seq::<EventV>::empty());
    proof {
        use_type_invariant(&*state);
    }
    if state.finalized {
        return events;
    }
    if state.message_started {
        emit_finish(&mut events, state);
    }
    state.finalized = true;
    events.push(StreamEvent::MessageStop);
    events
}

/// The event that reports a failed stream.
pub fn translate_error(message: String) -> (r: Vec<StreamEvent>)
    ensures
        events_view(r@) == seq![
            EventV::Error { error_type: "stream_error"@, message: message@ },
        ],
{
    let mut events: Vec<StreamEvent> = Vec::new();
    let error = ErrorData { error_type: "stream_error".to_string(), message };
    events.push(StreamEvent::Error { error });
    events
}

// ---------------------------------------------------------------------------
// Pieces one after the other
// ---------------------------------------------------------------------------
proof fn lemma_calls_pieces_prefix(cs: Seq<openai::DeltaToolCall>, k: int)
    requires
        0 <= k <= cs.len(),
    ensures
        calls_pieces(cs.take(k)).len() <= calls_pieces(cs).len(),
    decreases cs.len() - k,
{
    if k < cs.len() {
        lemma_calls_pieces_prefix(cs, k + 1);
        assert(cs.take(k + 1).drop_last() == cs.take(k));
    } else {
        assert(cs.take(k) == cs);
    }
}

/// Pieces keep the blocks in order, and each starts at most one.
pub proof fn lemma_after_all(b: Blocks, ps: Seq<Piece>)
    requires
        b.wf(),
    ensures
        b.after_all(ps).wf(),
        b.next <= b.after_all(ps).next <= b.next + ps.len(),
    decreases ps.len(),
{
    if ps.len() > 0 {
        lemma_after_all(b, ps.drop_last());
    }
}

proof fn lemma_one_more(b: Blocks, ps: Seq<Piece>, p: Piece)
    requires
        b.wf(),
    ensures
        b.after_all(ps.push(p)) == b.after_all(ps).after(p),
        b.all_events(ps.push(p)) == b.all_events(ps) + b.after_all(ps).events(p),
        b.after_all(ps).wf(),
        b.after_all(ps).next <= b.next + ps.len(),
{
    assert(ps.push(p).drop_last() == ps);
    lemma_after_all(b, ps);
}

proof fn lemma_concat(b: Blocks, ps: Seq<Piece>, qs: Seq<Piece>)
    ensures
        b.after_all(ps + qs) == b.after_all(ps).after_all(qs),
        b.all_events(ps + qs) == b.all_events(ps) + b.after_all(ps).all_events(qs),
    decreases qs.len(),
{
    if qs.len() == 0 {
        assert(ps + qs == ps);
        assert(b.all_events(ps) + seq![] == b.all_events(ps));
    } else {
        lemma_concat(b, ps, qs.drop_last());
        assert((ps + qs).drop_last() == ps + qs.drop_last());
        let mid = b.after_all(ps);
        assert(b.all_events(ps) + (mid.all_events(qs.drop_last()) + mid.after_all(
            qs.drop_last(),
        ).events(qs.last())) == b.all_events(ps) + mid.all_events(qs.drop_last())
            + mid.after_all(qs.drop_last()).events(qs.last()));
    }
}

} // verus!
