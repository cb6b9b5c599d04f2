//! What a client makes of a translated stream, told by what the upstream sent.
use crate::models::anthropic::{BlockStartV, DeltaV, EventV};
use crate::models::openai::{DeltaToolCall, StreamChunk, Usage};
use crate::translate::protocol::{any_choice, stream_events, stream_state};
use crate::translate::stream::{
    call_pieces, calls_pieces, chunk_pieces, finish_piece, fresh, text_piece, thinking_piece,
    tool_pieces, Blocks, Kind, Piece, StateV,
};
use vstd::prelude::*;

verus! {

// ---------------------------------------------------------------------------
// How a message begins and ends
// ---------------------------------------------------------------------------
/// Why the upstream says that its first choice ended: what it said last counts.
pub open spec fn last_reason(chunks: Seq<StreamChunk>) -> Option<Seq<char>>
    decreases chunks.len(),
{
    if chunks.len() == 0 {
        None
    } else if chunks.last().choices@.len() > 0 && chunks.last().choices@[0].finish_reason is Some {
        Some(chunks.last().choices@[0].finish_reason->0@)
    } else {
        last_reason(chunks.drop_last())
    }
}

/// The usage that the upstream reports: what it said last counts.
pub open spec fn last_usage(chunks: Seq<StreamChunk>) -> Option<Usage>
    decreases chunks.len(),
{
    if chunks.len() == 0 {
        None
    } else if chunks.last().usage is Some {
        chunks.last().usage
    } else {
        last_usage(chunks.drop_last())
    }
}

/// The first identifier that chunks name.
pub open spec fn first_id(chunks: Seq<StreamChunk>) -> Option<Seq<char>>
    decreases chunks.len(),
{
    if chunks.len() == 0 {
        None
    } else if first_id(chunks.drop_last()) is Some {
        first_id(chunks.drop_last())
    } else {
        match chunks.last().id {
            Some(t) => Some(t@),
            None => None,
        }
    }
}

/// The first model that chunks name.
pub open spec fn first_model(chunks: Seq<StreamChunk>) -> Option<Seq<char>>
    decreases chunks.len(),
{
    if chunks.len() == 0 {
        None
    } else if first_model(chunks.drop_last()) is Some {
        first_model(chunks.drop_last())
    } else {
        match chunks.last().model {
            Some(t) => Some(t@),
            None => None,
        }
    }
}

proof fn lemma_notes(s: StateV, chunks: Seq<StreamChunk>)
    requires
        s == fresh(s.fallback_model, s.input_tokens),
    ensures
        ({
            let t = stream_state(s, chunks);
            &&& t.finish_reason == last_reason(chunks)
            &&& t.usage == last_usage(chunks)
            &&& t.message_id == first_id(chunks)
            &&& t.model == first_model(chunks)
            &&& t.fallback_model == s.fallback_model
            &&& t.input_tokens == s.input_tokens
            &&& !t.finalized
            &&& t.started == any_choice(chunks)
        }),
    decreases chunks.len(),
{
    if chunks.len() > 0 {
        let rest = chunks.drop_last();
        let n = rest.len() as int;
        lemma_notes(s, rest);
        assert(chunks[n] == chunks.last());
        if any_choice(rest) {
            let i = choose|i: int| 0 <= i < rest.len() && (#[trigger] rest[i]).choices@.len() > 0;
            assert(chunks[i] == rest[i]);
        } else {
            assert forall|i: int| 0 <= i < n implies (#[trigger] chunks[i]).choices@.len() == 0 by {
                assert(rest[i].choices@.len() == 0);
            }
        }
    }
}

/// All events of a stream, its closing ones among them.
pub open spec fn whole_stream(
    fallback_model: Seq<char>,
    input_tokens: u32,
    chunks: Seq<StreamChunk>,
) -> Seq<EventV> {
    let s = fresh(fallback_model, input_tokens);
    stream_events(s, chunks) + stream_state(s, chunks).done_events()
}

/// A message that was started ends with why the upstream says that it ended, in the client's
/// words: an answer that was cut off, refused or that calls tools is never taken for one that
/// is finished. The end of the message is the last event of all.
pub proof fn law_stop_reason_is_told(
    fallback_model: Seq<char>,
    input_tokens: u32,
    chunks: Seq<StreamChunk>,
)
    ensures
        ({
            let es = whole_stream(fallback_model, input_tokens, chunks);
            &&& es.len() > 0 && es.last() == EventV::MessageStop
            &&& !any_choice(chunks) ==> es.len() == 1
            &&& any_choice(chunks) ==> es.len() > 1 && (es[es.len() - 2] matches EventV::MessageDelta {
                stop_reason,
                stop_sequence,
                ..
            } && stop_sequence is None && match last_reason(chunks) {
                None => stop_reason is None,
                Some(r) => {
                    &&& r == "tool_calls"@ ==> stop_reason == Some("tool_use"@)
                    &&& r == "length"@ ==> stop_reason == Some("max_tokens"@)
                    &&& r == "content_filter"@ ==> stop_reason == Some("refusal"@)
                    &&& r != "tool_calls"@ && r != "length"@ && r != "content_filter"@
                        ==> stop_reason == Some("end_turn"@)
                },
            })
        }),
{
    reveal_strlit("tool_calls");
    reveal_strlit("length");
    reveal_strlit("content_filter");
    assert("tool_calls"@.len() == 10 && "length"@.len() == 6 && "content_filter"@.len() == 14);
    let s = fresh(fallback_model, input_tokens);
    lemma_notes(s, chunks);
    crate::translate::protocol::law_every_event_is_in_its_place(
        fallback_model,
        input_tokens,
        chunks,
    );
}

/// The figures at the end are the upstream's, where it gave any: its cached tokens are told
/// apart from the rest of the prompt, and the two never add up to more than it counted unless
/// it cached more than there was. Where it gave none, the estimate stands.
pub proof fn law_usage_is_told(
    fallback_model: Seq<char>,
    input_tokens: u32,
    chunks: Seq<StreamChunk>,
)
    requires
        any_choice(chunks),
    ensures
        ({
            let es = whole_stream(fallback_model, input_tokens, chunks);
            es.len() > 1 && (es[es.len() - 2] matches EventV::MessageDelta { usage, .. }
                && match last_usage(chunks) {
                None => usage.input_tokens == Some(input_tokens) && usage.output_tokens == 0
                    && usage.cache_read_input_tokens is None,
                Some(u) => {
                    &&& usage.output_tokens == u.completion_tokens
                    &&& match u.prompt_tokens_details {
                        None => usage.input_tokens == Some(u.prompt_tokens)
                            && usage.cache_read_input_tokens is None,
                        Some(d) => {
                            &&& usage.cache_read_input_tokens == Some(d.cached_tokens)
                            &&& d.cached_tokens <= u.prompt_tokens ==> (usage.input_tokens matches Some(
                                n,
                            ) && n + d.cached_tokens == u.prompt_tokens)
                            &&& d.cached_tokens > u.prompt_tokens ==> usage.input_tokens == Some(0u32)
                        },
                    }
                },
            })
        }),
{
    let s = fresh(fallback_model, input_tokens);
    lemma_notes(s, chunks);
    crate::translate::protocol::law_every_event_is_in_its_place(
        fallback_model,
        input_tokens,
        chunks,
    );
}

/// The message begins with the identifier and the model that were named first, up to the
/// first choice, and with the estimate of the prompt.
pub proof fn law_message_start_is_told(
    fallback_model: Seq<char>,
    input_tokens: u32,
    chunks: Seq<StreamChunk>,
    k: int,
)
    requires
        0 <= k < chunks.len(),
        chunks[k].choices@.len() > 0,
        forall|i: int| 0 <= i < k ==> (#[trigger] chunks[i]).choices@.len() == 0,
    ensures
        ({
            let es = stream_events(fresh(fallback_model, input_tokens), chunks);
            let seen = chunks.take(k + 1);
            es.len() > 0 && (es[0] matches EventV::MessageStart(m) && {
                &&& m.role == "assistant"@
                &&& m.message_type == "message"@
                &&& m.id == (match first_id(seen) {
                    Some(id) => id,
                    None => "msg_proxy"@,
                })
                &&& m.model == (match first_model(seen) {
                    Some(model) => model,
                    None => fallback_model,
                })
                &&& m.usage.input_tokens == input_tokens
                &&& m.usage.output_tokens == 0
                &&& m.usage.cache_read_input_tokens is None
            })
        }),
    decreases chunks.len(),
{
    let s = fresh(fallback_model, input_tokens);
    let rest = chunks.drop_last();
    if k < rest.len() {
        assert(rest[k] == chunks[k]);
        assert forall|i: int| 0 <= i < k implies (#[trigger] rest[i]).choices@.len() == 0 by {
            assert(rest[i] == chunks[i]);
        }
        law_message_start_is_told(fallback_model, input_tokens, rest, k);
        assert(rest.take(k + 1) =~= chunks.take(k + 1));
        let es = stream_events(s, rest);
        assert(stream_events(s, chunks)[0] == es[0]);
    } else {
        assert(chunks.take(k + 1) =~= chunks);
        lemma_notes(s, rest);
        lemma_notes(s, chunks);
        assert(!any_choice(rest)) by {
            assert forall|i: int| 0 <= i < rest.len() implies (#[trigger] rest[i]).choices@.len()
                == 0 by {
                assert(rest[i] == chunks[i]);
            }
        }
        crate::translate::protocol::law_every_event_is_in_its_place(
            fallback_model,
            input_tokens,
            rest,
        );
        assert(stream_events(s, rest) =~= Seq::<EventV>::empty());
        assert(chunks.last() == chunks[k]);
    }
}

// ---------------------------------------------------------------------------
// What the blocks hold
// ---------------------------------------------------------------------------
/// A block as the client puts it together.
pub enum ReadBlock {
    Thinking(Seq<char>),
    Text(Seq<char>),
    Tool { id: Seq<char>, name: Seq<char>, input: Seq<char> },
}

/// The blocks that a client has put together of the events: a start opens one, and each delta
/// adds to the one that was opened last.
pub open spec fn read_blocks(es: Seq<EventV>) -> Seq<ReadBlock>
    decreases es.len(),
{
    if es.len() == 0 {
        seq![]
    } else {
        let sofar = read_blocks(es.drop_last());
        match es.last() {
            EventV::BlockStart { block, .. } => sofar.push(
                match block {
                    BlockStartV::Thinking(t) => ReadBlock::Thinking(t),
                    BlockStartV::Text(t) => ReadBlock::Text(t),
                    BlockStartV::ToolUse { id, name } => ReadBlock::Tool { id, name, input: seq![] },
                },
            ),
            EventV::BlockDelta { delta, .. } => if sofar.len() == 0 {
                sofar
            } else {
                sofar.drop_last().push(
                    match (delta, sofar.last()) {
                        (DeltaV::Thinking(t), ReadBlock::Thinking(u)) => ReadBlock::Thinking(u + t),
                        (DeltaV::Text(t), ReadBlock::Text(u)) => ReadBlock::Text(u + t),
                        (DeltaV::InputJson(t), ReadBlock::Tool { id, name, input }) => ReadBlock::Tool {
                            id,
                            name,
                            input: input + t,
                        },
                        (_, b) => b,
                    },
                )
            },
            _ => sofar,
        }
    }
}

/// More thoughts: they go on the block before them where that holds thoughts too.
pub open spec fn with_thoughts(bs: Seq<ReadBlock>, t: Seq<char>) -> Seq<ReadBlock> {
    if bs.len() > 0 && bs.last() is Thinking {
        bs.drop_last().push(ReadBlock::Thinking(bs.last()->Thinking_0 + t))
    } else {
        bs.push(ReadBlock::Thinking(t))
    }
}

/// More text: it goes on the block before it where that holds text too. An empty one is none.
pub open spec fn with_text(bs: Seq<ReadBlock>, t: Seq<char>) -> Seq<ReadBlock> {
    if t.len() == 0 {
        bs
    } else if bs.len() > 0 && bs.last() is Text {
        bs.drop_last().push(ReadBlock::Text(bs.last()->Text_0 + t))
    } else {
        bs.push(ReadBlock::Text(t))
    }
}

/// A piece of a tool call: an identifier with a name begins one, and arguments go to the one
/// that was begun last, as long as nothing else came after it.
pub open spec fn with_call(bs: Seq<ReadBlock>, c: DeltaToolCall) -> Seq<ReadBlock> {
    let begun = if c.id is Some && c.function is Some && c.function->0.name is Some {
        bs.push(ReadBlock::Tool { id: c.id->0@, name: c.function->0.name->0@, input: seq![] })
    } else {
        bs
    };
    if c.function is Some && c.function->0.arguments is Some && begun.len() > 0 && begun.last() is Tool {
        let last = begun.last();
        begun.drop_last().push(
            ReadBlock::Tool {
                id: last->id,
                name: last->name,
                input: last->input + c.function->0.arguments->0@,
            },
        )
    } else {
        begun
    }
}

/// The pieces of tool calls, one after the other.
pub open spec fn with_calls(bs: Seq<ReadBlock>, cs: Seq<DeltaToolCall>) -> Seq<ReadBlock>
    decreases cs.len(),
{
    if cs.len() == 0 {
        bs
    } else {
        with_call(with_calls(bs, cs.drop_last()), cs.last())
    }
}

/// What a chunk adds: its reasoning under either name, its text and its tool calls. Only the
/// first choice counts.
pub open spec fn with_chunk(bs: Seq<ReadBlock>, c: StreamChunk) -> Seq<ReadBlock> {
    if c.choices@.len() == 0 {
        bs
    } else {
        let d = c.choices@[0].delta;
        let b1 = if d.reasoning is Some {
            with_thoughts(bs, d.reasoning->0@)
        } else {
            bs
        };
        let b2 = if d.reasoning_content is Some {
            with_thoughts(b1, d.reasoning_content->0@)
        } else {
            b1
        };
        let b3 = if d.content is Some {
            with_text(b2, d.content->0@)
        } else {
            b2
        };
        if d.tool_calls is Some {
            with_calls(b3, d.tool_calls->0@)
        } else {
            b3
        }
    }
}

/// The blocks that an upstream has sent.
pub open spec fn sent_blocks(chunks: Seq<StreamChunk>) -> Seq<ReadBlock>
    decreases chunks.len(),
{
    if chunks.len() == 0 {
        seq![]
    } else {
        with_chunk(sent_blocks(chunks.drop_last()), chunks.last())
    }
}

spec fn with_piece(bs: Seq<ReadBlock>, p: Piece) -> Seq<ReadBlock> {
    match p {
        Piece::Thinking(t) => with_thoughts(bs, t),
        Piece::Text(t) => if bs.len() > 0 && bs.last() is Text {
            bs.drop_last().push(ReadBlock::Text(bs.last()->Text_0 + t))
        } else {
            bs.push(ReadBlock::Text(t))
        },
        Piece::ToolStart { id, name: Some(name) } => bs.push(
            ReadBlock::Tool { id, name, input: seq![] },
        ),
        Piece::ToolStart { .. } => bs,
        Piece::ToolArgs(t) => if bs.len() > 0 && bs.last() is Tool {
            bs.drop_last().push(
                ReadBlock::Tool {
                    id: bs.last()->id,
                    name: bs.last()->name,
                    input: bs.last()->input + t,
                },
            )
        } else {
            bs
        },
        Piece::Finish => bs,
    }
}

spec fn with_pieces(bs: Seq<ReadBlock>, ps: Seq<Piece>) -> Seq<ReadBlock>
    decreases ps.len(),
{
    if ps.len() == 0 {
        bs
    } else {
        with_piece(with_pieces(bs, ps.drop_last()), ps.last())
    }
}

proof fn lemma_with_pieces_concat(bs: Seq<ReadBlock>, ps: Seq<Piece>, qs: Seq<Piece>)
    ensures
        with_pieces(bs, ps + qs) == with_pieces(with_pieces(bs, ps), qs),
    decreases qs.len(),
{
    if qs.len() == 0 {
        assert(ps + qs =~= ps);
    } else {
        lemma_with_pieces_concat(bs, ps, qs.drop_last());
        assert((ps + qs).drop_last() =~= ps + qs.drop_last());
    }
}

proof fn lemma_one_piece(bs: Seq<ReadBlock>, p: Piece)
    ensures
        with_pieces(bs, seq![p]) == with_piece(bs, p),
        with_pieces(bs, seq![]) == bs,
{
    assert(seq![p].drop_last() =~= Seq::<Piece>::empty());
    assert(with_pieces(bs, seq![p].drop_last()) == bs);
}

proof fn lemma_call_pieces(bs: Seq<ReadBlock>, c: DeltaToolCall)
    ensures
        with_pieces(bs, call_pieces(c)) == with_call(bs, c),
{
    let ps = call_pieces(c);
    let name = match c.function {
        Some(f) => match f.name {
            Some(n) => Some(n@),
            None => None,
        },
        None => None,
    };
    let head: Seq<Piece> = if c.id is Some {
        seq![Piece::ToolStart { id: c.id->0@, name }]
    } else {
        seq![]
    };
    let tail: Seq<Piece> = if c.function is Some && c.function->0.arguments is Some {
        seq![Piece::ToolArgs(c.function->0.arguments->0@)]
    } else {
        seq![]
    };
    assert(ps =~= head + tail);
    lemma_with_pieces_concat(bs, head, tail);
    if c.id is Some {
        lemma_one_piece(bs, head[0]);
    } else {
        lemma_one_piece(bs, Piece::Finish);
    }
    let mid = with_pieces(bs, head);
    if tail.len() > 0 {
        lemma_one_piece(mid, tail[0]);
    } else {
        lemma_one_piece(mid, Piece::Finish);
    }
}

proof fn lemma_calls_pieces(bs: Seq<ReadBlock>, cs: Seq<DeltaToolCall>)
    ensures
        with_pieces(bs, calls_pieces(cs)) == with_calls(bs, cs),
    decreases cs.len(),
{
    if cs.len() > 0 {
        lemma_calls_pieces(bs, cs.drop_last());
        lemma_with_pieces_concat(bs, calls_pieces(cs.drop_last()), call_pieces(cs.last()));
        lemma_call_pieces(with_calls(bs, cs.drop_last()), cs.last());
    }
}

proof fn lemma_chunk_pieces(bs: Seq<ReadBlock>, c: StreamChunk)
    ensures
        with_pieces(bs, chunk_pieces(c)) == with_chunk(bs, c),
{
    if c.choices@.len() > 0 {
        let choice = c.choices@[0];
        let d = choice.delta;
        let p1 = thinking_piece(d.reasoning);
        let p2 = thinking_piece(d.reasoning_content);
        let p3 = text_piece(d.content);
        let p4 = tool_pieces(d.tool_calls);
        let p5 = finish_piece(choice.finish_reason);
        lemma_with_pieces_concat(bs, p1, p2);
        lemma_with_pieces_concat(bs, p1 + p2, p3);
        lemma_with_pieces_concat(bs, p1 + p2 + p3, p4);
        lemma_with_pieces_concat(bs, p1 + p2 + p3 + p4, p5);
        let b1 = with_pieces(bs, p1);
        if d.reasoning is Some {
            lemma_one_piece(bs, p1[0]);
        } else {
            lemma_one_piece(bs, Piece::Finish);
        }
        let b2 = with_pieces(b1, p2);
        if d.reasoning_content is Some {
            lemma_one_piece(b1, p2[0]);
        } else {
            lemma_one_piece(b1, Piece::Finish);
        }
        let b3 = with_pieces(b2, p3);
        if p3.len() > 0 {
            lemma_one_piece(b2, p3[0]);
        } else {
            lemma_one_piece(b2, Piece::Finish);
        }
        let b4 = with_pieces(b3, p4);
        if d.tool_calls is Some {
            lemma_calls_pieces(b3, d.tool_calls->0@);
        } else {
            lemma_one_piece(b3, Piece::Finish);
        }
        lemma_one_piece(b4, Piece::Finish);
        if p5.len() > 0 {
            assert(p5 =~= seq![Piece::Finish]);
        } else {
            assert(p5 =~= Seq::<Piece>::empty());
        }
    } else {
        lemma_one_piece(bs, Piece::Finish);
    }
}

spec fn fits(es: Seq<EventV>, b: Blocks) -> bool {
    let bs = read_blocks(es);
    match b.last {
        None => bs.len() == 0,
        Some((kind, _)) => bs.len() > 0 && match bs.last() {
            ReadBlock::Thinking(_) => kind == Kind::Thinking,
            ReadBlock::Text(_) => kind == Kind::Text,
            ReadBlock::Tool { .. } => kind == Kind::ToolUse,
        },
    }
}

proof fn lemma_read_push(es: Seq<EventV>, e: EventV)
    ensures
        es.push(e).drop_last() == es,
        es.push(e).last() == e,
        e is BlockStop || e is MessageStart ==> read_blocks(es.push(e)) == read_blocks(es),
{
    assert(es.push(e).drop_last() =~= es);
}

proof fn lemma_read_stop(es: Seq<EventV>, b: Blocks)
    ensures
        read_blocks(es + b.stop()) == read_blocks(es),
{
    if let Some((_, i)) = b.last {
        lemma_read_push(es, EventV::BlockStop { index: i });
        assert(es + b.stop() =~= es.push(EventV::BlockStop { index: i }));
    } else {
        assert(es + b.stop() =~= es);
    }
}

proof fn lemma_read_start(es: Seq<EventV>, b: Blocks, block: BlockStartV)
    ensures
        read_blocks(es + b.start(block)) == read_blocks(es).push(
            match block {
                BlockStartV::Thinking(t) => ReadBlock::Thinking(t),
                BlockStartV::Text(t) => ReadBlock::Text(t),
                BlockStartV::ToolUse { id, name } => ReadBlock::Tool { id, name, input: seq![] },
            },
        ),
{
    lemma_read_stop(es, b);
    let e = EventV::BlockStart { index: b.stopped().next, block };
    lemma_read_push(es + b.stop(), e);
    assert(es + b.start(block) =~= (es + b.stop()).push(e));
}

proof fn lemma_read_piece(es: Seq<EventV>, b: Blocks, p: Piece)
    requires
        fits(es, b),
    ensures
        read_blocks(es + b.events(p)) == with_piece(read_blocks(es), p),
        fits(es + b.events(p), b.after(p)),
{
    let bs = read_blocks(es);
    match p {
        Piece::Thinking(t) => {
            let d = EventV::BlockDelta { index: b.after(p).last_index(), delta: DeltaV::Thinking(t) };
            if b.is(Kind::Thinking) {
                lemma_read_push(es, d);
                assert(es + b.events(p) =~= es.push(d));
            } else {
                let block = BlockStartV::Thinking(seq![]);
                lemma_read_start(es, b, block);
                lemma_read_push(es + b.start(block), d);
                assert(es + b.events(p) =~= (es + b.start(block)).push(d));
                assert(bs.push(ReadBlock::Thinking(seq![])).drop_last() =~= bs);
                assert(Seq::<char>::empty() + t =~= t);
            }
        },
        Piece::Text(t) => {
            let d = EventV::BlockDelta { index: b.after(p).last_index(), delta: DeltaV::Text(t) };
            if b.is(Kind::Text) {
                lemma_read_push(es, d);
                assert(es + b.events(p) =~= es.push(d));
            } else {
                let block = BlockStartV::Text(seq![]);
                lemma_read_start(es, b, block);
                lemma_read_push(es + b.start(block), d);
                assert(es + b.events(p) =~= (es + b.start(block)).push(d));
                assert(bs.push(ReadBlock::Text(seq![])).drop_last() =~= bs);
                assert(Seq::<char>::empty() + t =~= t);
            }
        },
        Piece::ToolStart { id, name } => {
            if name is Some {
                lemma_read_start(es, b, BlockStartV::ToolUse { id, name: name->0 });
            } else {
                lemma_read_stop(es, b);
            }
        },
        Piece::ToolArgs(args) => {
            if b.is(Kind::ToolUse) {
                let d = EventV::BlockDelta { index: b.last_index(), delta: DeltaV::InputJson(args) };
                lemma_read_push(es, d);
                assert(es + b.events(p) =~= es.push(d));
            } else {
                assert(es + b.events(p) =~= es);
            }
        },
        Piece::Finish => {
            lemma_read_stop(es, b);
        },
    }
}

proof fn lemma_read_pieces(es: Seq<EventV>, b: Blocks, ps: Seq<Piece>)
    requires
        fits(es, b),
    ensures
        read_blocks(es + b.all_events(ps)) == with_pieces(read_blocks(es), ps),
        fits(es + b.all_events(ps), b.after_all(ps)),
    decreases ps.len(),
{
    if ps.len() == 0 {
        assert(es + b.all_events(ps) =~= es);
    } else {
        let rest = ps.drop_last();
        lemma_read_pieces(es, b, rest);
        lemma_read_piece(es + b.all_events(rest), b.after_all(rest), ps.last());
        assert(es + b.all_events(ps) =~= (es + b.all_events(rest)) + b.after_all(rest).events(
            ps.last(),
        ));
    }
}

proof fn lemma_read_chunks(s: StateV, chunks: Seq<StreamChunk>)
    requires
        s == fresh(s.fallback_model, s.input_tokens),
    ensures
        read_blocks(stream_events(s, chunks)) == sent_blocks(chunks),
        fits(stream_events(s, chunks), stream_state(s, chunks).blocks),
    decreases chunks.len(),
{
    if chunks.len() > 0 {
        let rest = chunks.drop_last();
        let last = chunks.last();
        lemma_read_chunks(s, rest);
        let t = stream_state(s, rest);
        let es = stream_events(s, rest);
        if last.choices@.len() > 0 {
            let ps = chunk_pieces(last);
            let start = t.noting(last).message_start();
            let begun = if t.started {
                es
            } else {
                es.push(start)
            };
            lemma_read_push(es, start);
            lemma_read_pieces(begun, t.blocks, ps);
            lemma_chunk_pieces(read_blocks(es), last);
            assert(stream_events(s, chunks) =~= begun + t.blocks.all_events(ps));
        } else {
            assert(stream_events(s, chunks) =~= es);
        }
    }
}

/// Whatever an upstream sends, the blocks that a client puts together are those that were
/// sent: thoughts, texts and tool calls in their order, each tool under its own identifier and
/// name and with its own arguments, and neighbours of one kind joined.
pub proof fn law_blocks_are_what_was_sent(
    fallback_model: Seq<char>,
    input_tokens: u32,
    chunks: Seq<StreamChunk>,
)
    ensures
        read_blocks(stream_events(fresh(fallback_model, input_tokens), chunks)) == sent_blocks(
            chunks,
        ),
{
    lemma_read_chunks(fresh(fallback_model, input_tokens), chunks);
}

} // verus!
