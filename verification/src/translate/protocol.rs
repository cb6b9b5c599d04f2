//! What holds of every translated stream.
use crate::models::anthropic::{BlockStartV, DeltaV, EventV};
use crate::models::openai::{DeltaToolCall, StreamChunk};
use crate::translate::stream::{
    call_name, call_pieces, calls_pieces, chunk_pieces, finish_piece, fresh, lemma_after_all,
    pieces, text_piece, thinking_piece, tool_pieces, Blocks, Kind, Piece, StateV,
};
use vstd::prelude::*;

verus! {

/// How far a client that reads the events has come.
pub struct Phase {
    /// The message was started.
    pub started: bool,
    /// The block that is open.
    pub open: Option<(Kind, int)>,
    /// The index that the next block must have.
    pub next: int,
    /// The closing figures were read.
    pub closed: bool,
    /// The end of the message was read.
    pub ended: bool,
}

/// The kind of block that is started.
pub open spec fn start_kind(b: BlockStartV) -> Kind {
    match b {
        BlockStartV::Thinking(_) => Kind::Thinking,
        BlockStartV::Text(_) => Kind::Text,
        BlockStartV::ToolUse { .. } => Kind::ToolUse,
    }
}

/// The kind of block that a delta belongs to.
pub open spec fn delta_kind(d: DeltaV) -> Kind {
    match d {
        DeltaV::Thinking(_) => Kind::Thinking,
        DeltaV::Text(_) => Kind::Text,
        DeltaV::InputJson(_) => Kind::ToolUse,
    }
}

impl Phase {
    /// Whether the event may come next.
    pub open spec fn admits(self, e: EventV) -> bool {
        &&& !self.ended
        &&& match e {
            EventV::MessageStart(_) => !self.started,
            EventV::BlockStart { index, .. } => self.started && !self.closed && self.open is None
                && index == self.next,
            EventV::BlockDelta { index, delta } => self.started && !self.closed && self.open
                == Some((delta_kind(delta), index)),
            EventV::BlockStop { index } => self.started && !self.closed && (self.open matches Some(
                (_, i),
            ) && i == index),
            EventV::MessageDelta { .. } => self.started && !self.closed && self.open is None,
            EventV::MessageStop => self.open is None && (self.started ==> self.closed),
            EventV::Error { .. } => false,
        }
    }

    /// The phase after the event.
    pub open spec fn after(self, e: EventV) -> Phase {
        match e {
            EventV::MessageStart(_) => Phase { started: true, ..self },
            EventV::BlockStart { index, block } => Phase {
                open: Some((start_kind(block), index)),
                ..self
            },
            EventV::BlockStop { .. } => Phase { open: None, next: self.next + 1, ..self },
            EventV::MessageDelta { .. } => Phase { closed: true, ..self },
            EventV::MessageStop => Phase { ended: true, ..self },
            _ => self,
        }
    }

    /// The phase after some events, if each of them may come in its turn.
    pub open spec fn reads(self, es: Seq<EventV>) -> Option<Phase>
        decreases es.len(),
    {
        if es.len() == 0 {
            Some(self)
        } else {
            match self.reads(es.drop_last()) {
                Some(p) => if p.admits(es.last()) {
                    Some(p.after(es.last()))
                } else {
                    None
                },
                None => None,
            }
        }
    }
}

/// The phase before the first event.
pub open spec fn unread() -> Phase {
    Phase { started: false, open: None, next: 0, closed: false, ended: false }
}

/// The state after some chunks.
pub open spec fn stream_state(s: StateV, chunks: Seq<StreamChunk>) -> StateV
    decreases chunks.len(),
{
    if chunks.len() == 0 {
        s
    } else {
        stream_state(s, chunks.drop_last()).after(chunks.last())
    }
}

/// The events that some chunks become.
pub open spec fn stream_events(s: StateV, chunks: Seq<StreamChunk>) -> Seq<EventV>
    decreases chunks.len(),
{
    if chunks.len() == 0 {
        seq![]
    } else {
        stream_events(s, chunks.drop_last()) + stream_state(s, chunks.drop_last()).events(
            chunks.last(),
        )
    }
}

/// The chunk ends its choice.
pub open spec fn finishes(c: StreamChunk) -> bool {
    c.choices@.len() > 0 && c.choices@[0].finish_reason is Some
}

/// Each tool call that has an identifier names its function.
pub open spec fn names_its_tools(c: StreamChunk) -> bool {
    c.choices@.len() > 0 && c.choices@[0].delta.tool_calls is Some ==> forall|i: int|
        0 <= i < c.choices@[0].delta.tool_calls->0@.len() ==> {
            let call = #[trigger] c.choices@[0].delta.tool_calls->0@[i];
            call.id is Some ==> call_name(call) is Some
        }
}

/// What a sane upstream sends: named tool calls, and nothing more of a choice that ended.
pub open spec fn orderly(chunks: Seq<StreamChunk>) -> bool {
    &&& forall|i: int| 0 <= i < chunks.len() ==> #[trigger] names_its_tools(chunks[i])
    &&& forall|i: int, j: int|
        #![trigger chunks[i], chunks[j]]
        0 <= i < j < chunks.len() && finishes(chunks[i]) ==> chunk_pieces(chunks[j]).len() == 0
}

spec fn phase_of(started: bool, b: Blocks) -> Phase {
    Phase {
        started,
        open: if b.last matches Some((_, i)) && i == b.next {
            b.last
        } else {
            None
        },
        next: b.next,
        closed: false,
        ended: false,
    }
}

spec fn running(b: Blocks) -> bool {
    b.wf() && (b.last matches Some((_, i)) ==> i == b.next)
}

spec fn named(p: Piece) -> bool {
    p matches Piece::ToolStart { name, .. } ==> name is Some
}

proof fn lemma_reads_concat(p: Phase, xs: Seq<EventV>, ys: Seq<EventV>)
    ensures
        p.reads(xs + ys) == (match p.reads(xs) {
            Some(q) => q.reads(ys),
            None => None,
        }),
    decreases ys.len(),
{
    if ys.len() == 0 {
        assert(xs + ys =~= xs);
    } else {
        lemma_reads_concat(p, xs, ys.drop_last());
        assert((xs + ys).drop_last() =~= xs + ys.drop_last());
    }
}

proof fn lemma_reads_one(p: Phase, e: EventV)
    requires
        p.admits(e),
    ensures
        p.reads(seq![e]) == Some(p.after(e)),
{
    assert(seq![e].drop_last() =~= Seq::<EventV>::empty());
    assert(p.reads(seq![e].drop_last()) == Some(p));
}

proof fn lemma_reads_push(p: Phase, es: Seq<EventV>, e: EventV)
    requires
        p.reads(es) matches Some(q) && q.admits(e),
    ensures
        p.reads(es.push(e)) == Some(p.reads(es)->0.after(e)),
{
    assert(es.push(e).drop_last() =~= es);
}

proof fn lemma_piece(b: Blocks, p: Piece)
    requires
        running(b),
        named(p),
    ensures
        phase_of(true, b).reads(b.events(p)) == Some(phase_of(true, b.after(p))),
        p != Piece::Finish ==> running(b.after(p)),
{
    let ph = phase_of(true, b);
    assert(ph.reads(seq![]) == Some(ph));
    if b.last is Some {
        lemma_reads_one(ph, EventV::BlockStop { index: b.last_index() });
    }
    assert(ph.reads(b.stop()) == Some(phase_of(true, b.stopped())));
    let stopped = phase_of(true, b.stopped());
    match p {
        Piece::Thinking(t) => {
            let d = EventV::BlockDelta { index: b.after(p).last_index(), delta: DeltaV::Thinking(t) };
            if b.is(Kind::Thinking) {
                lemma_reads_one(ph, d);
                assert(b.events(p) =~= seq![d]);
            } else {
                let block = BlockStartV::Thinking(seq![]);
                lemma_reads_push(
                    ph,
                    b.stop(),
                    EventV::BlockStart { index: b.stopped().next, block },
                );
                lemma_reads_push(ph, b.start(block), d);
            }
        },
        Piece::Text(t) => {
            let d = EventV::BlockDelta { index: b.after(p).last_index(), delta: DeltaV::Text(t) };
            if b.is(Kind::Text) {
                lemma_reads_one(ph, d);
                assert(b.events(p) =~= seq![d]);
            } else {
                let block = BlockStartV::Text(seq![]);
                lemma_reads_push(
                    ph,
                    b.stop(),
                    EventV::BlockStart { index: b.stopped().next, block },
                );
                lemma_reads_push(ph, b.start(block), d);
            }
        },
        Piece::ToolStart { id, name } => {
            let block = BlockStartV::ToolUse { id, name: name->0 };
            lemma_reads_push(ph, b.stop(), EventV::BlockStart { index: b.stopped().next, block });
        },
        Piece::ToolArgs(args) => {
            if b.is(Kind::ToolUse) {
                lemma_reads_one(
                    ph,
                    EventV::BlockDelta { index: b.last_index(), delta: DeltaV::InputJson(args) },
                );
            }
        },
        Piece::Finish => {},
    }
}

proof fn lemma_pieces(b: Blocks, ps: Seq<Piece>)
    requires
        running(b),
        forall|i: int| 0 <= i < ps.len() ==> named(#[trigger] ps[i]),
        forall|i: int| 0 <= i < ps.len() - 1 ==> #[trigger] ps[i] != Piece::Finish,
    ensures
        phase_of(true, b).reads(b.all_events(ps)) == Some(phase_of(true, b.after_all(ps))),
        ps.len() == 0 || ps.last() != Piece::Finish ==> running(b.after_all(ps)),
    decreases ps.len(),
{
    if ps.len() > 0 {
        let rest = ps.drop_last();
        assert forall|i: int| 0 <= i < rest.len() implies named(#[trigger] rest[i]) by {
            assert(rest[i] == ps[i]);
        }
        assert forall|i: int| 0 <= i < rest.len() implies #[trigger] rest[i] != Piece::Finish by {
            assert(rest[i] == ps[i]);
        }
        lemma_pieces(b, rest);
        lemma_piece(b.after_all(rest), ps.last());
        lemma_reads_concat(
            phase_of(true, b),
            b.all_events(rest),
            b.after_all(rest).events(ps.last()),
        );
    }
}

spec fn calm(ps: Seq<Piece>) -> bool {
    forall|i: int| 0 <= i < ps.len() ==> named(#[trigger] ps[i]) && ps[i] != Piece::Finish
}

proof fn lemma_calls_calm(cs: Seq<DeltaToolCall>)
    requires
        forall|i: int|
            0 <= i < cs.len() ==> (#[trigger] cs[i]).id is Some ==> call_name(cs[i]) is Some,
    ensures
        calm(calls_pieces(cs)),
    decreases cs.len(),
{
    if cs.len() > 0 {
        let rest = cs.drop_last();
        assert forall|i: int|
            0 <= i < rest.len() && (#[trigger] rest[i]).id is Some implies call_name(
            rest[i],
        ) is Some by {
            assert(rest[i] == cs[i]);
        }
        lemma_calls_calm(rest);
        assert(cs.last() == cs[cs.len() - 1]);
        assert(calm(call_pieces(cs.last())));
    }
}

proof fn lemma_chunk(s: StateV, c: StreamChunk)
    requires
        running(s.blocks),
        names_its_tools(c),
    ensures
        phase_of(s.started, s.blocks).reads(s.events(c)) == Some(
            phase_of(s.after(c).started, s.after(c).blocks),
        ),
        !finishes(c) ==> running(s.after(c).blocks),
        s.after(c).blocks.wf(),
{
    if c.choices@.len() > 0 {
        let choice = c.choices@[0];
        let ps = pieces(choice);
        if choice.delta.tool_calls is Some {
            lemma_calls_calm(choice.delta.tool_calls->0@);
        }
        let head = thinking_piece(choice.delta.reasoning) + thinking_piece(
            choice.delta.reasoning_content,
        ) + text_piece(choice.delta.content) + tool_pieces(choice.delta.tool_calls);
        assert(calm(head));
        assert(ps =~= head + finish_piece(choice.finish_reason));
        assert forall|i: int| 0 <= i < ps.len() implies named(#[trigger] ps[i]) by {
            if i < head.len() {
                assert(ps[i] == head[i]);
            }
        }
        assert forall|i: int| 0 <= i < ps.len() - 1 implies #[trigger] ps[i] != Piece::Finish by {
            assert(ps[i] == head[i]);
        }
        if !finishes(c) && ps.len() > 0 {
            assert(ps.last() == head[head.len() - 1]);
        }
        lemma_pieces(s.blocks, ps);
        lemma_after_all(s.blocks, ps);
        let first: Seq<EventV> = if s.started {
            seq![]
        } else {
            seq![s.noting(c).message_start()]
        };
        let ph = phase_of(s.started, s.blocks);
        if !s.started {
            lemma_reads_one(ph, s.noting(c).message_start());
        }
        assert(ph.reads(first) == Some(phase_of(true, s.blocks)));
        lemma_reads_concat(ph, first, s.blocks.all_events(ps));
    }
}

proof fn lemma_silent(s: StateV, c: StreamChunk)
    requires
        chunk_pieces(c).len() == 0,
        s.started,
    ensures
        s.events(c) == Seq::<EventV>::empty(),
        s.after(c).blocks == s.blocks,
        s.after(c).started,
        s.after(c).finalized == s.finalized,
        !finishes(c),
{
    if finishes(c) {
        let ps = chunk_pieces(c);
        let head = thinking_piece(c.choices@[0].delta.reasoning) + thinking_piece(
            c.choices@[0].delta.reasoning_content,
        ) + text_piece(c.choices@[0].delta.content) + tool_pieces(c.choices@[0].delta.tool_calls);
        assert(ps.len() == head.len() + 1);
    }
    assert(s.events(c) =~= Seq::<EventV>::empty());
}

proof fn lemma_stream(s: StateV, chunks: Seq<StreamChunk>)
    requires
        s == fresh(s.fallback_model, s.input_tokens),
        orderly(chunks),
    ensures
        unread().reads(stream_events(s, chunks)) == Some(
            phase_of(stream_state(s, chunks).started, stream_state(s, chunks).blocks),
        ),
        stream_state(s, chunks).blocks.wf(),
        !stream_state(s, chunks).finalized,
        (forall|i: int| 0 <= i < chunks.len() ==> !finishes(#[trigger] chunks[i])) ==> running(
            stream_state(s, chunks).blocks,
        ),
        (exists|i: int| 0 <= i < chunks.len() && finishes(#[trigger] chunks[i]))
            ==> stream_state(s, chunks).started && phase_of(
            true,
            stream_state(s, chunks).blocks,
        ).open is None,
        (forall|i: int| 0 <= i < chunks.len() ==> chunk_pieces(#[trigger] chunks[i]).len() == 0)
            ==> stream_state(s, chunks).blocks == s.blocks,
    decreases chunks.len(),
{
    if chunks.len() > 0 {
        let rest = chunks.drop_last();
        let last = chunks.last();
        let n = rest.len() as int;
        assert forall|i: int| 0 <= i < n implies #[trigger] rest[i] == chunks[i] by {}
        assert(chunks[n] == last);
        assert(orderly(rest)) by {
            assert forall|i: int| 0 <= i < rest.len() implies #[trigger] names_its_tools(
                rest[i],
            ) by {
                assert(names_its_tools(chunks[i]));
            }
        }
        lemma_stream(s, rest);
        let t = stream_state(s, rest);
        assert(names_its_tools(chunks[n]));
        let finished = exists|i: int| 0 <= i < rest.len() && finishes(#[trigger] rest[i]);
        if finished {
            let i = choose|i: int| 0 <= i < rest.len() && finishes(#[trigger] rest[i]);
            assert(finishes(chunks[i]));
            assert(chunk_pieces(last).len() == 0);
            lemma_silent(t, last);
            assert(stream_events(s, chunks) =~= stream_events(s, rest));
        } else {
            assert forall|i: int| 0 <= i < n implies !finishes(#[trigger] chunks[i]) by {
                assert(!finishes(rest[i]));
            }
            lemma_chunk(t, last);
            lemma_reads_concat(unread(), stream_events(s, rest), t.events(last));
            if !finishes(last) {
                assert forall|i: int| 0 <= i < chunks.len() implies !finishes(
                    #[trigger] chunks[i],
                ) by {}
            } else {
                let ps = chunk_pieces(last);
                assert(ps.last() == Piece::Finish);
                assert(t.blocks.after_all(ps) == t.blocks.after_all(ps.drop_last()).stopped());
                lemma_after_all(t.blocks, ps.drop_last());
            }
        }
        if forall|i: int| 0 <= i < chunks.len() ==> chunk_pieces(#[trigger] chunks[i]).len() == 0 {
            assert forall|i: int| 0 <= i < rest.len() implies chunk_pieces(
                #[trigger] rest[i],
            ).len() == 0 by {
                assert(rest[i] == chunks[i]);
            }
            assert(chunk_pieces(chunks[n]).len() == 0);
        }
    }
}

/// Whatever an orderly upstream sends, at every moment the client has read a message that
/// was started once and first, whose blocks are numbered from zero without a gap, one open
/// at a time, each delta in the open block and of its kind.
pub proof fn law_events_are_in_order(
    fallback_model: Seq<char>,
    input_tokens: u32,
    chunks: Seq<StreamChunk>,
)
    requires
        orderly(chunks),
    ensures
        unread().reads(stream_events(fresh(fallback_model, input_tokens), chunks)) is Some,
{
    lemma_stream(fresh(fallback_model, input_tokens), chunks);
}

/// How many blocks the events start.
pub open spec fn starts(es: Seq<EventV>) -> int
    decreases es.len(),
{
    if es.len() == 0 {
        0
    } else if es.last() is BlockStart {
        starts(es.drop_last()) + 1
    } else {
        starts(es.drop_last())
    }
}

/// The kind and the index of the block that the events start last.
pub open spec fn latest_start(es: Seq<EventV>) -> Option<(Kind, int)>
    decreases es.len(),
{
    if es.len() == 0 {
        None
    } else {
        match es.last() {
            EventV::BlockStart { index, block } => Some((start_kind(block), index)),
            _ => latest_start(es.drop_last()),
        }
    }
}

/// The event stands where it may after those before it: the message's start is the first of
/// all, block starts count up from zero, each but the first directly behind the stop of the
/// block before it, and deltas and stops belong to the block that was started last. Nothing
/// closes the message, and nothing reports an error.
pub open spec fn in_its_place(es: Seq<EventV>, i: int) -> bool {
    let before = es.take(i);
    match es[i] {
        EventV::MessageStart(_) => i == 0,
        EventV::BlockStart { index, .. } => i > 0 && index == starts(before) && (index > 0
            ==> es[i - 1] == EventV::BlockStop { index: index - 1 }),
        EventV::BlockDelta { index, delta } => latest_start(before) == Some(
            (delta_kind(delta), index),
        ),
        EventV::BlockStop { index } => latest_start(before) matches Some((_, k)) && k == index,
        EventV::MessageDelta { .. } => false,
        EventV::MessageStop => false,
        EventV::Error { .. } => false,
    }
}

/// Every event stands where it may, and the first is the message's start.
pub open spec fn all_in_place(es: Seq<EventV>) -> bool {
    &&& es.len() > 0 ==> es[0] is MessageStart
    &&& forall|i: int| 0 <= i < es.len() ==> #[trigger] in_its_place(es, i)
}

/// Some chunk has a choice.
pub open spec fn any_choice(chunks: Seq<StreamChunk>) -> bool {
    exists|i: int| 0 <= i < chunks.len() && (#[trigger] chunks[i]).choices@.len() > 0
}

spec fn follows(es: Seq<EventV>, b: Blocks) -> bool {
    &&& all_in_place(es)
    &&& es.len() > 0
    &&& latest_start(es) == b.last
    &&& starts(es) == b.stopped().next
    &&& b.last is None ==> b.next == 0
}

proof fn lemma_place_next(es: Seq<EventV>, e: EventV)
    requires
        all_in_place(es),
        es.len() == 0 ==> e is MessageStart,
        in_its_place(es.push(e), es.len() as int),
    ensures
        all_in_place(es.push(e)),
        starts(es.push(e)) == starts(es) + if e is BlockStart {
            1int
        } else {
            0
        },
        latest_start(es.push(e)) == (match e {
            EventV::BlockStart { index, block } => Some((start_kind(block), index)),
            _ => latest_start(es),
        }),
{
    let more = es.push(e);
    assert(more.drop_last() =~= es);
    assert forall|i: int| 0 <= i < more.len() implies #[trigger] in_its_place(more, i) by {
        if i < es.len() {
            assert(in_its_place(es, i));
            assert(more.take(i) =~= es.take(i));
        }
    }
}

proof fn lemma_stop_in_place(es: Seq<EventV>, b: Blocks)
    requires
        follows(es, b),
    ensures
        ({
            let more = es + b.stop();
            &&& follows(more, b.stopped())
            &&& b.stopped().next > 0 ==> more.last() == EventV::BlockStop {
                index: b.stopped().next - 1,
            }
        }),
{
    if let Some((_, i)) = b.last {
        let e = EventV::BlockStop { index: i };
        assert(es.push(e).take(es.len() as int) =~= es);
        lemma_place_next(es, e);
        assert(es + b.stop() =~= es.push(e));
    } else {
        assert(es + b.stop() =~= es);
    }
}

proof fn lemma_start_in_place(es: Seq<EventV>, b: Blocks, block: BlockStartV)
    requires
        follows(es, b),
    ensures
        follows(es + b.start(block), b.with(start_kind(block))),
{
    lemma_stop_in_place(es, b);
    let stopped = es + b.stop();
    let e = EventV::BlockStart { index: b.stopped().next, block };
    assert(stopped.push(e).take(stopped.len() as int) =~= stopped);
    assert(stopped.push(e)[stopped.len() - 1] == stopped.last());
    lemma_place_next(stopped, e);
    assert(es + b.start(block) =~= stopped.push(e));
}

proof fn lemma_delta_in_place(es: Seq<EventV>, b: Blocks, delta: DeltaV)
    requires
        follows(es, b),
        b.is(delta_kind(delta)),
    ensures
        follows(es.push(EventV::BlockDelta { index: b.last_index(), delta }), b),
{
    let e = EventV::BlockDelta { index: b.last_index(), delta };
    assert(es.push(e).take(es.len() as int) =~= es);
    lemma_place_next(es, e);
}

proof fn lemma_piece_in_place(es: Seq<EventV>, b: Blocks, p: Piece)
    requires
        follows(es, b),
    ensures
        follows(es + b.events(p), b.after(p)),
{
    match p {
        Piece::Thinking(t) => {
            let d = DeltaV::Thinking(t);
            let e = EventV::BlockDelta { index: b.after(p).last_index(), delta: d };
            if b.is(Kind::Thinking) {
                lemma_delta_in_place(es, b, d);
                assert(es + b.events(p) =~= es.push(e));
            } else {
                let block = BlockStartV::Thinking(seq![]);
                lemma_start_in_place(es, b, block);
                lemma_delta_in_place(es + b.start(block), b.with(Kind::Thinking), d);
                assert(es + b.events(p) =~= (es + b.start(block)).push(e));
            }
        },
        Piece::Text(t) => {
            let d = DeltaV::Text(t);
            let e = EventV::BlockDelta { index: b.after(p).last_index(), delta: d };
            if b.is(Kind::Text) {
                lemma_delta_in_place(es, b, d);
                assert(es + b.events(p) =~= es.push(e));
            } else {
                let block = BlockStartV::Text(seq![]);
                lemma_start_in_place(es, b, block);
                lemma_delta_in_place(es + b.start(block), b.with(Kind::Text), d);
                assert(es + b.events(p) =~= (es + b.start(block)).push(e));
            }
        },
        Piece::ToolStart { id, name } => {
            if name is Some {
                lemma_start_in_place(es, b, BlockStartV::ToolUse { id, name: name->0 });
            } else {
                lemma_stop_in_place(es, b);
            }
        },
        Piece::ToolArgs(args) => {
            if b.is(Kind::ToolUse) {
                let d = DeltaV::InputJson(args);
                lemma_delta_in_place(es, b, d);
                assert(es + b.events(p) =~= es.push(
                    EventV::BlockDelta { index: b.last_index(), delta: d },
                ));
            } else {
                assert(es + b.events(p) =~= es);
            }
        },
        Piece::Finish => {
            lemma_stop_in_place(es, b);
        },
    }
}

proof fn lemma_pieces_in_place(es: Seq<EventV>, b: Blocks, ps: Seq<Piece>)
    requires
        follows(es, b),
    ensures
        follows(es + b.all_events(ps), b.after_all(ps)),
    decreases ps.len(),
{
    if ps.len() == 0 {
        assert(es + b.all_events(ps) =~= es);
    } else {
        let rest = ps.drop_last();
        lemma_pieces_in_place(es, b, rest);
        lemma_piece_in_place(es + b.all_events(rest), b.after_all(rest), ps.last());
        assert(es + b.all_events(ps) =~= (es + b.all_events(rest)) + b.after_all(rest).events(
            ps.last(),
        ));
    }
}

proof fn lemma_chunks_in_place(s: StateV, chunks: Seq<StreamChunk>)
    requires
        s == fresh(s.fallback_model, s.input_tokens),
    ensures
        ({
            let t = stream_state(s, chunks);
            let es = stream_events(s, chunks);
            &&& t.started == any_choice(chunks)
            &&& if t.started {
                follows(es, t.blocks)
            } else {
                es.len() == 0 && t.blocks == s.blocks
            }
        }),
    decreases chunks.len(),
{
    if chunks.len() > 0 {
        let rest = chunks.drop_last();
        let last = chunks.last();
        lemma_chunks_in_place(s, rest);
        let t = stream_state(s, rest);
        let es = stream_events(s, rest);
        let n = rest.len() as int;
        assert(chunks[n] == last);
        if any_choice(rest) {
            let i = choose|i: int| 0 <= i < rest.len() && (#[trigger] rest[i]).choices@.len() > 0;
            assert(chunks[i] == rest[i]);
        } else {
            assert forall|i: int| 0 <= i < n implies (#[trigger] chunks[i]).choices@.len() == 0 by {
                assert(rest[i].choices@.len() == 0);
            }
        }
        if last.choices@.len() > 0 {
            let ps = chunk_pieces(last);
            let first: Seq<EventV> = if t.started {
                seq![]
            } else {
                seq![t.noting(last).message_start()]
            };
            let begun = es + first;
            if t.started {
                assert(begun =~= es);
            } else {
                let none = Seq::<EventV>::empty();
                assert(es =~= none);
                assert(none.push(first[0]).take(0) =~= none);
                lemma_place_next(none, first[0]);
                assert(begun =~= none.push(first[0]));
                assert(starts(none) == 0 && latest_start(none) is None);
            }
            lemma_pieces_in_place(begun, t.blocks, ps);
            assert(stream_events(s, chunks) =~= begun + t.blocks.all_events(ps));
        } else {
            assert(stream_events(s, chunks) =~= es);
        }
    }
}

/// Whatever an upstream sends, every event stands where it may: the message is started once,
/// and first; blocks are numbered from zero without a gap, each directly behind the stop of
/// the one before it; each delta has the index and the kind of the block that was started
/// last; and nothing closes the message. There are events from the first choice on.
pub proof fn law_every_event_is_in_its_place(
    fallback_model: Seq<char>,
    input_tokens: u32,
    chunks: Seq<StreamChunk>,
)
    ensures
        all_in_place(stream_events(fresh(fallback_model, input_tokens), chunks)),
        stream_events(fresh(fallback_model, input_tokens), chunks).len() > 0 <==> any_choice(
            chunks,
        ),
{
    lemma_chunks_in_place(fresh(fallback_model, input_tokens), chunks);
}

/// A chunk without choices becomes no events.
pub proof fn law_no_choice_no_event(s: StateV, c: StreamChunk)
    requires
        c.choices@.len() == 0,
    ensures
        s.events(c) == Seq::<EventV>::empty(),
{
}

/// Once a choice has ended, or where no chunk said anything, the closing events complete the
/// message: no block is left open, the figures come once, and the end comes last.
pub proof fn law_message_is_completed(
    fallback_model: Seq<char>,
    input_tokens: u32,
    chunks: Seq<StreamChunk>,
)
    requires
        orderly(chunks),
        ({
            ||| exists|i: int| 0 <= i < chunks.len() && finishes(#[trigger] chunks[i])
            ||| forall|i: int|
                0 <= i < chunks.len() ==> chunk_pieces(#[trigger] chunks[i]).len() == 0
        }),
    ensures
        ({
            let s = fresh(fallback_model, input_tokens);
            let t = stream_state(s, chunks);
            unread().reads(stream_events(s, chunks) + t.done_events()) matches Some(p) && p.ended
        }),
{
    let s = fresh(fallback_model, input_tokens);
    lemma_stream(s, chunks);
    let t = stream_state(s, chunks);
    let ph = phase_of(t.started, t.blocks);
    lemma_reads_concat(unread(), stream_events(s, chunks), t.done_events());
    assert(ph.open is None);
    if t.started {
        let d = t.message_delta();
        lemma_reads_one(ph, d);
        lemma_reads_push(ph, seq![d], EventV::MessageStop);
        assert(t.done_events() =~= seq![d].push(EventV::MessageStop));
    } else {
        lemma_reads_one(ph, EventV::MessageStop);
    }
}

/// The closing events are given out once: after them there are none.
pub proof fn law_done_is_done_once(s: StateV)
    ensures
        s.done().done_events() == Seq::<EventV>::empty(),
        s.done().done() == s.done(),
{
}

/// The text of the given kind that an event carries.
pub open spec fn event_text(kind: Kind, e: EventV) -> Seq<char> {
    match e {
        EventV::BlockDelta { delta: DeltaV::Text(t), .. } => if kind == Kind::Text {
            t
        } else {
            seq![]
        },
        EventV::BlockDelta { delta: DeltaV::Thinking(t), .. } => if kind == Kind::Thinking {
            t
        } else {
            seq![]
        },
        EventV::BlockDelta { delta: DeltaV::InputJson(t), .. } => if kind == Kind::ToolUse {
            t
        } else {
            seq![]
        },
        _ => seq![],
    }
}

/// The text of the given kind that events carry.
pub open spec fn events_text(kind: Kind, es: Seq<EventV>) -> Seq<char>
    decreases es.len(),
{
    if es.len() == 0 {
        seq![]
    } else {
        events_text(kind, es.drop_last()) + event_text(kind, es.last())
    }
}

/// The text of the given kind in a piece.
pub open spec fn piece_text(kind: Kind, p: Piece) -> Seq<char> {
    match p {
        Piece::Text(t) => if kind == Kind::Text {
            t
        } else {
            seq![]
        },
        Piece::Thinking(t) => if kind == Kind::Thinking {
            t
        } else {
            seq![]
        },
        Piece::ToolArgs(t) => if kind == Kind::ToolUse {
            t
        } else {
            seq![]
        },
        _ => seq![],
    }
}

/// The text of the given kind in some pieces.
pub open spec fn pieces_text(kind: Kind, ps: Seq<Piece>) -> Seq<char>
    decreases ps.len(),
{
    if ps.len() == 0 {
        seq![]
    } else {
        pieces_text(kind, ps.drop_last()) + piece_text(kind, ps.last())
    }
}

/// The text of the given kind in some chunks.
pub open spec fn chunks_text(kind: Kind, cs: Seq<StreamChunk>) -> Seq<char>
    decreases cs.len(),
{
    if cs.len() == 0 {
        seq![]
    } else {
        chunks_text(kind, cs.drop_last()) + pieces_text(kind, chunk_pieces(cs.last()))
    }
}

/// Each piece of a tool's arguments comes while the last block is a tool use.
pub open spec fn addressed(b: Blocks, ps: Seq<Piece>) -> bool
    decreases ps.len(),
{
    ps.len() > 0 ==> addressed(b, ps.drop_last()) && (ps.last() is ToolArgs ==> b.after_all(
        ps.drop_last(),
    ).is(Kind::ToolUse))
}

/// The same of all chunks of a stream.
pub open spec fn all_addressed(s: StateV, cs: Seq<StreamChunk>) -> bool
    decreases cs.len(),
{
    cs.len() > 0 ==> all_addressed(s, cs.drop_last()) && addressed(
        stream_state(s, cs.drop_last()).blocks,
        chunk_pieces(cs.last()),
    )
}

proof fn lemma_text_concat(kind: Kind, xs: Seq<EventV>, ys: Seq<EventV>)
    ensures
        events_text(kind, xs + ys) == events_text(kind, xs) + events_text(kind, ys),
    decreases ys.len(),
{
    if ys.len() == 0 {
        assert(xs + ys =~= xs);
        assert(events_text(kind, xs) + Seq::<char>::empty() =~= events_text(kind, xs));
    } else {
        lemma_text_concat(kind, xs, ys.drop_last());
        assert((xs + ys).drop_last() =~= xs + ys.drop_last());
        assert(events_text(kind, xs) + (events_text(kind, ys.drop_last()) + event_text(
            kind,
            ys.last(),
        )) =~= events_text(kind, xs) + events_text(kind, ys.drop_last()) + event_text(
            kind,
            ys.last(),
        ));
    }
}

proof fn lemma_text_push(kind: Kind, es: Seq<EventV>, e: EventV)
    ensures
        events_text(kind, es.push(e)) == events_text(kind, es) + event_text(kind, e),
{
    assert(es.push(e).drop_last() =~= es);
}

proof fn lemma_piece_text(kind: Kind, b: Blocks, p: Piece)
    requires
        kind == Kind::ToolUse && p is ToolArgs ==> b.is(Kind::ToolUse),
    ensures
        events_text(kind, b.events(p)) == piece_text(kind, p),
{
    let none = Seq::<EventV>::empty();
    assert(events_text(kind, none) == Seq::<char>::empty());
    if b.last is Some {
        lemma_text_push(kind, none, EventV::BlockStop { index: b.last_index() });
        assert(b.stop() =~= none.push(EventV::BlockStop { index: b.last_index() }));
    }
    assert(events_text(kind, b.stop()) =~= Seq::<char>::empty());
    match p {
        Piece::Thinking(t) => {
            let d = EventV::BlockDelta { index: b.after(p).last_index(), delta: DeltaV::Thinking(t) };
            let block = BlockStartV::Thinking(seq![]);
            lemma_text_push(
                kind,
                b.stop(),
                EventV::BlockStart { index: b.stopped().next, block },
            );
            assert(events_text(kind, b.start(block)) =~= Seq::<char>::empty());
            lemma_text_push(kind, b.start(block), d);
            lemma_text_push(kind, none, d);
            assert(Seq::<char>::empty() + event_text(kind, d) =~= event_text(kind, d));
        },
        Piece::Text(t) => {
            let d = EventV::BlockDelta { index: b.after(p).last_index(), delta: DeltaV::Text(t) };
            let block = BlockStartV::Text(seq![]);
            lemma_text_push(
                kind,
                b.stop(),
                EventV::BlockStart { index: b.stopped().next, block },
            );
            assert(events_text(kind, b.start(block)) =~= Seq::<char>::empty());
            lemma_text_push(kind, b.start(block), d);
            lemma_text_push(kind, none, d);
            assert(Seq::<char>::empty() + event_text(kind, d) =~= event_text(kind, d));
        },
        Piece::ToolStart { id, name } => {
            if name is Some {
                let block = BlockStartV::ToolUse { id, name: name->0 };
                lemma_text_push(
                    kind,
                    b.stop(),
                    EventV::BlockStart { index: b.stopped().next, block },
                );
                assert(events_text(kind, b.start(block)) =~= Seq::<char>::empty());
            }
        },
        Piece::ToolArgs(args) => {
            if b.is(Kind::ToolUse) {
                let d = EventV::BlockDelta {
                    index: b.last_index(),
                    delta: DeltaV::InputJson(args),
                };
                lemma_text_push(kind, none, d);
                assert(b.events(p) =~= none.push(d));
                assert(Seq::<char>::empty() + event_text(kind, d) =~= event_text(kind, d));
            }
        },
        Piece::Finish => {},
    }
}

proof fn lemma_pieces_text(kind: Kind, b: Blocks, ps: Seq<Piece>)
    requires
        kind == Kind::ToolUse ==> addressed(b, ps),
    ensures
        events_text(kind, b.all_events(ps)) == pieces_text(kind, ps),
    decreases ps.len(),
{
    if ps.len() > 0 {
        lemma_pieces_text(kind, b, ps.drop_last());
        lemma_piece_text(kind, b.after_all(ps.drop_last()), ps.last());
        lemma_text_concat(
            kind,
            b.all_events(ps.drop_last()),
            b.after_all(ps.drop_last()).events(ps.last()),
        );
    }
}

/// No word is lost or added, and none changes place: what the client reads as text, as
/// thinking or as the arguments of tools is what the upstream sent as such. Arguments have to
/// follow the start of their tool.
pub proof fn law_words_are_kept(kind: Kind, s: StateV, chunks: Seq<StreamChunk>)
    requires
        kind == Kind::ToolUse ==> all_addressed(s, chunks),
    ensures
        events_text(kind, stream_events(s, chunks)) == chunks_text(kind, chunks),
    decreases chunks.len(),
{
    if chunks.len() > 0 {
        let rest = chunks.drop_last();
        let last = chunks.last();
        law_words_are_kept(kind, s, rest);
        let t = stream_state(s, rest);
        lemma_text_concat(kind, stream_events(s, rest), t.events(last));
        if last.choices@.len() > 0 {
            let first: Seq<EventV> = if t.started {
                seq![]
            } else {
                seq![t.noting(last).message_start()]
            };
            lemma_text_push(kind, seq![], t.noting(last).message_start());
            assert(Seq::<EventV>::empty().push(t.noting(last).message_start()) =~= seq![
                t.noting(last).message_start(),
            ]);
            assert(events_text(kind, first) =~= Seq::<char>::empty());
            lemma_pieces_text(kind, t.blocks, chunk_pieces(last));
            lemma_text_concat(kind, first, t.blocks.all_events(chunk_pieces(last)));
            assert(Seq::<char>::empty() + pieces_text(kind, chunk_pieces(last)) =~= pieces_text(
                kind,
                chunk_pieces(last),
            ));
        }
    }
}

/// The text of a chunk's first choice; none counts as empty.
pub open spec fn content_of(c: StreamChunk) -> Seq<char> {
    if c.choices@.len() > 0 {
        match c.choices@[0].delta.content {
            Some(t) => t@,
            None => seq![],
        }
    } else {
        seq![]
    }
}

/// The texts of chunks, one behind the other.
pub open spec fn contents(cs: Seq<StreamChunk>) -> Seq<char>
    decreases cs.len(),
{
    if cs.len() == 0 {
        seq![]
    } else {
        contents(cs.drop_last()) + content_of(cs.last())
    }
}

/// The event is no delta of an empty text.
pub open spec fn no_empty_text(e: EventV) -> bool {
    e matches EventV::BlockDelta { delta: DeltaV::Text(t), .. } ==> t.len() > 0
}

proof fn lemma_pieces_text_concat(kind: Kind, ps: Seq<Piece>, qs: Seq<Piece>)
    ensures
        pieces_text(kind, ps + qs) == pieces_text(kind, ps) + pieces_text(kind, qs),
    decreases qs.len(),
{
    if qs.len() == 0 {
        assert(ps + qs =~= ps);
        assert(pieces_text(kind, ps) + Seq::<char>::empty() =~= pieces_text(kind, ps));
    } else {
        lemma_pieces_text_concat(kind, ps, qs.drop_last());
        assert((ps + qs).drop_last() =~= ps + qs.drop_last());
        assert(pieces_text(kind, ps) + (pieces_text(kind, qs.drop_last()) + piece_text(
            kind,
            qs.last(),
        )) =~= pieces_text(kind, ps) + pieces_text(kind, qs.drop_last()) + piece_text(
            kind,
            qs.last(),
        ));
    }
}

spec fn textless(ps: Seq<Piece>) -> bool {
    forall|i: int| 0 <= i < ps.len() ==> !((#[trigger] ps[i]) is Text)
}

proof fn lemma_textless(ps: Seq<Piece>)
    requires
        textless(ps),
    ensures
        pieces_text(Kind::Text, ps) == Seq::<char>::empty(),
    decreases ps.len(),
{
    if ps.len() > 0 {
        let rest = ps.drop_last();
        assert forall|i: int| 0 <= i < rest.len() implies !((#[trigger] rest[i]) is Text) by {
            assert(rest[i] == ps[i]);
        }
        lemma_textless(rest);
        assert(!(ps[ps.len() - 1] is Text));
        assert(pieces_text(Kind::Text, ps) =~= Seq::<char>::empty());
    }
}

proof fn lemma_calls_textless(cs: Seq<DeltaToolCall>)
    ensures
        textless(calls_pieces(cs)),
    decreases cs.len(),
{
    if cs.len() > 0 {
        lemma_calls_textless(cs.drop_last());
        assert(textless(call_pieces(cs.last())));
    }
}

proof fn lemma_chunk_text(c: StreamChunk)
    ensures
        pieces_text(Kind::Text, chunk_pieces(c)) == content_of(c),
        forall|i: int|
            0 <= i < chunk_pieces(c).len() ==> ((#[trigger] chunk_pieces(c)[i]) matches Piece::Text(t)
                ==> t.len() > 0),
{
    let none = Seq::<char>::empty();
    if c.choices@.len() > 0 {
        let choice = c.choices@[0];
        if choice.delta.tool_calls is Some {
            lemma_calls_textless(choice.delta.tool_calls->0@);
        }
        let head = thinking_piece(choice.delta.reasoning) + thinking_piece(
            choice.delta.reasoning_content,
        );
        let text = text_piece(choice.delta.content);
        let tools = tool_pieces(choice.delta.tool_calls);
        let end = finish_piece(choice.finish_reason);
        lemma_textless(head);
        lemma_textless(tools);
        lemma_textless(end);
        lemma_pieces_text_concat(Kind::Text, head, text);
        lemma_pieces_text_concat(Kind::Text, head + text, tools);
        lemma_pieces_text_concat(Kind::Text, head + text + tools, end);
        if text.len() > 0 {
            assert(text.drop_last() =~= Seq::<Piece>::empty());
            assert(pieces_text(Kind::Text, text.drop_last()) =~= none);
            assert(pieces_text(Kind::Text, text) =~= content_of(c));
        } else {
            assert(pieces_text(Kind::Text, text) =~= content_of(c));
        }
        assert(none + content_of(c) + none + none =~= content_of(c));
        assert(chunk_pieces(c) == head + text + tools + end);
    } else {
        assert(pieces_text(Kind::Text, chunk_pieces(c)) =~= none);
    }
}

proof fn lemma_pieces_not_empty(b: Blocks, ps: Seq<Piece>)
    requires
        forall|i: int|
            0 <= i < ps.len() ==> ((#[trigger] ps[i]) matches Piece::Text(t) ==> t.len() > 0),
    ensures
        forall|i: int|
            0 <= i < b.all_events(ps).len() ==> no_empty_text(#[trigger] b.all_events(ps)[i]),
    decreases ps.len(),
{
    if ps.len() > 0 {
        let rest = ps.drop_last();
        assert forall|i: int| 0 <= i < rest.len() implies ((#[trigger] rest[i]) matches Piece::Text(
            t,
        ) ==> t.len() > 0) by {
            assert(rest[i] == ps[i]);
        }
        lemma_pieces_not_empty(b, rest);
        let more = b.after_all(rest).events(ps.last());
        assert(ps.last() == ps[ps.len() - 1]);
        assert forall|i: int| 0 <= i < more.len() implies no_empty_text(#[trigger] more[i]) by {}
        let all = b.all_events(ps);
        let head = b.all_events(rest);
        assert forall|i: int| 0 <= i < all.len() implies no_empty_text(#[trigger] all[i]) by {
            if i < head.len() {
                assert(all[i] == head[i]);
            } else {
                assert(all[i] == more[i - head.len()]);
            }
        }
    }
}

/// Whatever an upstream sends, no text is lost, repeated or moved: what the client reads is
/// what the chunks hold as content, and no delta of text is empty.
pub proof fn law_text_is_kept(s: StateV, chunks: Seq<StreamChunk>)
    ensures
        events_text(Kind::Text, stream_events(s, chunks)) == contents(chunks),
        forall|i: int|
            0 <= i < stream_events(s, chunks).len() ==> no_empty_text(
                #[trigger] stream_events(s, chunks)[i],
            ),
    decreases chunks.len(),
{
    law_words_are_kept(Kind::Text, s, chunks);
    if chunks.len() > 0 {
        let rest = chunks.drop_last();
        let last = chunks.last();
        law_text_is_kept(s, rest);
        law_words_are_kept(Kind::Text, s, rest);
        lemma_chunk_text(last);
        let t = stream_state(s, rest);
        lemma_pieces_not_empty(t.blocks, chunk_pieces(last));
        let head = stream_events(s, rest);
        let more = t.events(last);
        let all = stream_events(s, chunks);
        let told = t.blocks.all_events(chunk_pieces(last));
        assert forall|i: int| 0 <= i < more.len() implies no_empty_text(#[trigger] more[i]) by {
            if t.started {
                assert(more =~= told);
                assert(more[i] == told[i]);
            } else if i > 0 {
                assert(more[i] == told[i - 1]);
            }
        }
        assert forall|i: int| 0 <= i < all.len() implies no_empty_text(#[trigger] all[i]) by {
            if i < head.len() {
                assert(all[i] == head[i]);
            } else {
                assert(all[i] == more[i - head.len()]);
            }
        }
    }
}

} // verus!
