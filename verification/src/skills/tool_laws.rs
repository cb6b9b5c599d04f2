//! What a run with the proxy's own tools tells the model and the client.
use crate::json::{int_value, json_parse, json_text, JsonV};
use crate::keys::{
    lemma_block_keys, lemma_event_keys, lemma_message_keys, lemma_rpc_keys, lemma_schema_keys,
    lemma_usage_keys,
};
use crate::models::openai::{ContentV, OpenAIResponse, RequestV, ResponseMessage, ToolCallV, ToolV};
use crate::numerals::decimal;
use crate::skills::agent::{
    begun, block_frames, blocks_frames, call_of_client, client_blocks, delta_body, docs_answer,
    docs_arguments, docs_call, is_proxy_name, job_of, message_body, only_proxy_tools,
    output_frames, recalled_line, recalled_text, said_blocks, stripped, thinking_blocks, usage_of,
    with_proxy_tools, AgentV, JobV, OutputV, Recalled,
};
use crate::text::trim;
use crate::text_laws::law_join_separates;
use crate::translate::browsing::{is_block_event, is_event, is_stop_event};
use crate::translate::websearch_agent::answer_calls;
use vstd::prelude::*;

verus! {

// ---------------------------------------------------------------------------
// The tools
// ---------------------------------------------------------------------------
/// A request keeps every tool of the client's, in their order, and gets the one that recalls
/// skills behind them, and the one that looks up documentation where there is a server for it.
/// Each can be called: it has the arguments that are read of its calls, and requires them.
pub proof fn law_own_tools_are_offered(tools: Option<Seq<ToolV>>, docs: bool)
    ensures
        ({
            let own = match tools {
                Some(t) => t,
                None => seq![],
            };
            let all = with_proxy_tools(tools, docs);
            let n = own.len() as int;
            let recall = all[n];
            &&& all.len() == n + if docs {
                2int
            } else {
                1
            }
            &&& all.take(n) == own
            &&& recall.tool_type == "function"@
            &&& recall.name == "recall_skills"@
            &&& recall.parameters.str_at("type"@) == Some("object"@)
            &&& recall.parameters.get("properties"@) matches Some(p) && p.get("query"@) is Some
            &&& recall.parameters.get("required"@) == Some(
                JsonV::Array(seq![JsonV::String("query"@)]),
            )
            &&& docs ==> {
                let d = all[n + 1];
                &&& d.tool_type == "function"@
                &&& d.name == "search_docs"@
                &&& d.parameters.str_at("type"@) == Some("object"@)
                &&& d.parameters.get("properties"@) matches Some(p) && p.get("library"@) is Some
                    && p.get("query"@) is Some
                &&& d.parameters.get("required"@) == Some(
                    JsonV::Array(seq![JsonV::String("library"@), JsonV::String("query"@)]),
                )
            }
        }),
{
    lemma_schema_keys();
    lemma_rpc_keys();
    let own = match tools {
        Some(t) => t,
        None => seq![],
    };
    assert(with_proxy_tools(tools, docs).take(own.len() as int) =~= own);
}

/// Taking the proxy's tools away leaves those of the client in their order, and everything else
/// of the request; with the last of all tools the choice among them goes too.
pub proof fn law_own_tools_are_taken_away(r: RequestV)
    ensures
        ({
            let s = stripped(r);
            let kept = match r.tools {
                Some(t) => t.filter(
                    |t: ToolV| t.name != "recall_skills"@ && t.name != "search_docs"@,
                ),
                None => seq![],
            };
            &&& r.tools is None ==> s == r
            &&& r.tools is Some && kept.len() > 0 ==> s == (RequestV { tools: Some(kept), ..r })
            &&& r.tools is Some && kept.len() == 0 ==> s == (RequestV {
                tools: None,
                tool_choice: None,
                ..r
            })
        }),
{
    if let Some(t) = r.tools {
        lemma_same_tools(t);
    }
}

proof fn lemma_same_tools(v: Seq<ToolV>)
    ensures
        v.filter(crate::skills::agent::of_client()) == v.filter(
            |t: ToolV| t.name != "recall_skills"@ && t.name != "search_docs"@,
        ),
    decreases v.len(),
{
    reveal(Seq::filter);
    if v.len() > 0 {
        lemma_same_tools(v.drop_last());
    }
}

// ---------------------------------------------------------------------------
// A run
// ---------------------------------------------------------------------------
/// A run begins with the client's request as it is, but for its stream.
pub proof fn law_run_begins_with_the_request(request: RequestV)
    ensures
        ({
            let a = begun(request);
            &&& a.request == (RequestV { stream: Some(false), stream_options: None, ..request })
            &&& a.messages == request.messages
            &&& a.out.model == request.model
            &&& a.out.blocks.len() == 0 && a.out.input_tokens == 0 && a.out.output_tokens == 0
            &&& a.out.stop_reason == "end_turn"@
            &&& a.uses == 0 && a.round == 0 && !a.over
        }),
{
}

/// A round repeats the request with the conversation as it stands; the fourth, and each one
/// after six calls, without the proxy's tools.
pub proof fn law_round_asks_with_the_conversation(a: AgentV)
    ensures
        ({
            let r = RequestV { messages: a.messages, ..a.request };
            a.round_request() == if a.round >= 3 || a.uses >= 6 {
                stripped(r)
            } else {
                r
            }
        }),
        a.goes_on() <==> !a.over && a.round < 4,
{
}

/// An answer is counted: the tokens of all rounds add up, those of the prompt are the first
/// round's, and the model is the one that answered.
pub proof fn law_answers_are_counted(a: AgentV, resp: OpenAIResponse)
    requires
        a.out.output_tokens + resp.usage.completion_tokens <= u32::MAX,
    ensures
        ({
            let b = a.counting(resp);
            &&& b.out.output_tokens == a.out.output_tokens + resp.usage.completion_tokens
            &&& a.round == 0 ==> b.out.input_tokens == resp.usage.prompt_tokens
            &&& a.round != 0 ==> b.out.input_tokens == a.out.input_tokens
            &&& resp.model matches Some(m) ==> b.out.model == m@
            &&& resp.model is None ==> b.out.model == a.out.model
            &&& b.out.blocks == a.out.blocks && b.messages == a.messages && b.request == a.request
            &&& b.round == a.round && b.uses == a.uses
        }),
{
}

/// What the model said when it called tools joins the conversation with all its calls, which
/// are counted; and each call is answered behind it, in their order and under its identifier.
pub proof fn law_calls_are_answered(a: AgentV, m: ResponseMessage, replies: Seq<Seq<char>>)
    requires
        a.uses + answer_calls(m).len() <= u32::MAX,
    ensures
        ({
            let calls = answer_calls(m);
            let b = a.calling(m);
            let c = b.replied(calls, replies);
            let n = a.messages.len() as int;
            let turn = c.messages[n];
            &&& c.messages.len() == n + 1 + calls.len()
            &&& c.messages.take(n) == a.messages
            &&& turn.role == "assistant"@
            &&& turn.tool_calls == Some(calls)
            &&& match m.content {
                Some(t) => turn.content == Some(ContentV::Text(t@)),
                None => turn.content is None,
            }
            &&& forall|i: int|
                0 <= i < calls.len() ==> {
                    let r = #[trigger] c.messages[n + 1 + i];
                    &&& r.role == "tool"@
                    &&& r.tool_call_id == Some(calls[i].id)
                    &&& r.content == Some(ContentV::Text(replies[i]))
                }
            &&& c.uses == a.uses + calls.len()
            &&& c.round == a.round + 1
            &&& c.out == a.out && c.request == a.request
        }),
{
    let calls = answer_calls(m);
    let c = a.calling(m).replied(calls, replies);
    assert(c.messages.take(a.messages.len() as int) =~= a.messages);
}

/// What the client reads of an answer that ends a run stands behind what it was shown before:
/// its thoughts where there are any, its text where it says anything, and each of its calls
/// that is not the proxy's. The run ends for a tool exactly where there is such a call.
pub proof fn law_last_answer_is_shown(a: AgentV, m: ResponseMessage)
    ensures
        ({
            let b = a.answered(m);
            let n = a.out.blocks.len() as int;
            let calls = answer_calls(m).filter(
                |c: ToolCallV| c.name != "recall_skills"@ && c.name != "search_docs"@,
            );
            let thinks = m.reasoning_content is Some && m.reasoning_content->0@.len() > 0;
            let says = m.content is Some && trim(m.content->0@).len() > 0;
            let t = n + if thinks {
                1int
            } else {
                0
            };
            let k = t + if says {
                1int
            } else {
                0
            };
            &&& b.over
            &&& b.out.blocks.len() == k + calls.len()
            &&& b.out.blocks.take(n) == a.out.blocks
            &&& thinks ==> b.out.blocks[n].str_at("type"@) == Some("thinking"@)
                && b.out.blocks[n].str_at("thinking"@) == Some(m.reasoning_content->0@)
            &&& says ==> b.out.blocks[t].str_at("type"@) == Some("text"@) && b.out.blocks[t].str_at(
                "text"@,
            ) == Some(m.content->0@)
            &&& forall|i: int|
                0 <= i < calls.len() ==> {
                    let u = #[trigger] b.out.blocks[k + i];
                    &&& u.str_at("type"@) == Some("tool_use"@)
                    &&& u.str_at("id"@) == Some(calls[i].id)
                    &&& u.str_at("name"@) == Some(calls[i].name)
                    &&& u.get("input"@) == Some(
                        match json_parse(calls[i].arguments) {
                            Some(v) => v,
                            None => JsonV::Object(Map::empty()),
                        },
                    )
                }
            &&& b.out.stop_reason == if calls.len() > 0 {
                "tool_use"@
            } else {
                "end_turn"@
            }
            &&& b.out.output_tokens == a.out.output_tokens && b.out.input_tokens
                == a.out.input_tokens && b.out.model == a.out.model
        }),
{
    lemma_block_keys();
    lemma_same_calls(answer_calls(m));
    let b = a.answered(m);
    let calls = answer_calls(m).filter(call_of_client());
    let shown = client_blocks(calls);
    let head = a.out.blocks + thinking_blocks(crate::text::opt_text(m.reasoning_content))
        + said_blocks(crate::text::opt_text(m.content));
    assert(b.out.blocks == head + shown);
    assert forall|i: int| 0 <= i < calls.len() implies #[trigger] b.out.blocks[head.len() + i]
        == shown[i] by {}
    assert(b.out.blocks.take(a.out.blocks.len() as int) =~= a.out.blocks);
}

proof fn lemma_same_calls(v: Seq<ToolCallV>)
    ensures
        v.filter(call_of_client()) == v.filter(
            |c: ToolCallV| c.name != "recall_skills"@ && c.name != "search_docs"@,
        ),
    decreases v.len(),
{
    reveal(Seq::filter);
    if v.len() > 0 {
        lemma_same_calls(v.drop_last());
    }
}

/// Calls are run where all of an answer's are the proxy's and there is any; one of the client's
/// is enough to end the run.
pub proof fn law_only_own_calls_are_run(calls: Seq<ToolCallV>)
    ensures
        only_proxy_tools(calls) <==> calls.len() > 0 && calls.filter(
            |c: ToolCallV| c.name != "recall_skills"@ && c.name != "search_docs"@,
        ).len() == 0,
{
    broadcast use vstd::seq_lib::group_filter_ensures;

    lemma_same_calls(calls);
    let kept = calls.filter(call_of_client());
    if only_proxy_tools(calls) {
        calls.lemma_all_neg_filter_empty(call_of_client());
    }
    if kept.len() == 0 {
        assert forall|i: int| 0 <= i < calls.len() implies is_proxy_name(
            (#[trigger] calls[i]).name,
        ) by {
            if !is_proxy_name(calls[i].name) {
                assert(call_of_client()(calls[i]));
                assert(kept.contains(calls[i]));
            }
        }
    }
}

// ---------------------------------------------------------------------------
// What a call is answered
// ---------------------------------------------------------------------------
/// A call is carried out as what it asks for: skills by its query, documentation by its
/// library and its query where there is a server. What is missing is told, and nothing is
/// looked up for it.
pub proof fn law_calls_become_jobs(name: Seq<char>, args: JsonV, docs: bool)
    ensures
        ({
            let query = args.str_or_empty("query"@);
            let library = args.str_or_empty("library"@);
            let job = job_of(name, args, docs);
            &&& name == "recall_skills"@ ==> if trim(query).len() > 0 {
                job == JobV::Recall(query)
            } else {
                job is Reply
            }
            &&& name == "search_docs"@ ==> if docs && trim(library).len() > 0 && trim(query).len()
                > 0 {
                job == (JobV::Docs { library, query })
            } else {
                job is Reply
            }
            &&& name != "recall_skills"@ && name != "search_docs"@ ==> job is Reply
        }),
{
    reveal_strlit("recall_skills");
    reveal_strlit("search_docs");
    assert("recall_skills"@.len() == 13 && "search_docs"@.len() == 11);
}

/// Recalled skills are told with their titles and bodies, numbered from one and one to a line;
/// and that there are none, or that none could be looked up, is told apart.
pub proof fn law_recalled_skills_are_told(v: Vec<Recalled>)
    ensures
        v@.len() > 0 ==> recalled_text(Some(v)) + "\n"@ == Seq::new(
            v@.len(),
            |i: int|
                decimal((i + 1) as nat) + ". "@ + v@[i].title@ + " — "@ + v@[i].body@ + "\n"@,
        ).flatten_alt(),
        v@.len() == 0 ==> recalled_text(Some(v)) == "No relevant learned skills found."@,
        recalled_text(None) == "Skill recall unavailable (embedding failed)."@,
{
    let lines = Seq::new(v@.len(), |i: int| recalled_line(i, v@[i]));
    law_join_separates(lines, "\n"@);
    assert(Seq::new(lines.len(), |i: int| lines[i] + "\n"@) =~= Seq::new(
        v@.len(),
        |i: int| decimal((i + 1) as nat) + ". "@ + v@[i].title@ + " — "@ + v@[i].body@ + "\n"@,
    ));
}

/// The documentation server is asked for the library and the query, and its answer is the
/// first text that it gives.
pub proof fn law_documentation_is_asked_for(
    name: Seq<char>,
    arguments: JsonV,
    library: Seq<char>,
    query: Seq<char>,
    limit: u64,
    body: Seq<char>,
)
    ensures
        ({
            let c = docs_call(name, arguments);
            &&& c.str_at("jsonrpc"@) == Some("2.0"@)
            &&& c.str_at("method"@) == Some("tools/call"@)
            &&& c.get("params"@) matches Some(p) && p.str_at("name"@) == Some(name) && p.get(
                "arguments"@,
            ) == Some(arguments)
        }),
        ({
            let a = docs_arguments(library, query, limit);
            &&& a.str_at("library"@) == Some(library)
            &&& a.str_at("query"@) == Some(query)
            &&& a.get("limit"@) == Some(int_value(limit))
        }),
        docs_answer(body) == (match json_parse(crate::websearch::answer_data(body)) {
            Some(v) => crate::websearch::tool_text(v),
            None => None,
        }),
{
    lemma_rpc_keys();
}

// ---------------------------------------------------------------------------
// What the client receives
// ---------------------------------------------------------------------------
/// A client without a stream gets the whole output: all blocks, why it ended, and its usage.
pub proof fn law_message_holds_the_output(id: Seq<char>, out: OutputV)
    ensures
        ({
            let m = message_body(id, out);
            &&& m.str_at("id"@) == Some(id)
            &&& m.str_at("type"@) == Some("message"@)
            &&& m.str_at("role"@) == Some("assistant"@)
            &&& m.str_at("model"@) == Some(out.model)
            &&& m.get("content"@) == Some(JsonV::Array(out.blocks))
            &&& m.str_at("stop_reason"@) == Some(out.stop_reason)
            &&& m.get("stop_sequence"@) == Some(JsonV::Null)
            &&& m.get("usage"@) == Some(usage_of(out))
            &&& usage_of(out).get("input_tokens"@) == Some(int_value(out.input_tokens as u64))
            &&& usage_of(out).get("output_tokens"@) == Some(int_value(out.output_tokens as u64))
        }),
{
    lemma_message_keys();
    lemma_usage_keys();
}

/// A streamed run ends with why it ended and its usage, and then with the end of the message;
/// before that come the events of each block in its turn, numbered as the blocks are.
pub proof fn law_stream_replays_the_output(out: OutputV, b: JsonV)
    ensures
        ({
            let fs = output_frames(out);
            let n = fs.len() as int;
            &&& n >= 2
            &&& is_event(fs[n - 2], "message_delta"@, delta_body(out))
            &&& delta_body(out).get("usage"@) == Some(usage_of(out))
            &&& delta_body(out).get("delta"@) matches Some(d) && d.str_at("stop_reason"@) == Some(
                out.stop_reason,
            )
            &&& exists|data: JsonV| #[trigger] is_event(fs[n - 1], "message_stop"@, data)
            &&& fs.take(n - 2) == blocks_frames(out.blocks)
        }),
        blocks_frames(out.blocks.push(b)) == blocks_frames(out.blocks) + block_frames(
            out.blocks.len() as u64,
            b,
        ),
        blocks_frames(seq![]).len() == 0,
{
    lemma_event_keys();
    let fs = output_frames(out);
    assert(fs.take(fs.len() - 2) =~= blocks_frames(out.blocks));
    let stop = JsonV::Object(map!["type"@ => JsonV::String("message_stop"@)]);
    assert(is_event(fs[fs.len() - 1], "message_stop"@, stop));
    assert(out.blocks.push(b).drop_last() =~= out.blocks);
}

/// A text, thoughts and a tool's input are replayed as one delta between a start and a stop
/// under the block's index, so that a client reads them whole.
pub proof fn law_block_is_replayed_whole(index: u64, block: JsonV)
    ensures
        ({
            let fs = block_frames(index, block);
            let ty = block.str_or_empty("type"@);
            &&& ty == "text"@ || ty == "tool_use"@ || ty == "thinking"@ ==> fs.len() == 3
                && is_stop_event(fs[2], index)
            &&& ty != "text"@ && ty != "tool_use"@ && ty != "thinking"@ ==> fs.len() == 0
            &&& ty == "text"@ ==> (exists|d: JsonV| #[trigger]
                is_block_event(fs[1], "content_block_delta"@, index, "delta"@, d) && d.str_at(
                    "type"@,
                ) == Some("text_delta"@) && d.str_at("text"@) == Some(block.str_or_empty("text"@)))
            &&& ty == "thinking"@ ==> (exists|d: JsonV| #[trigger]
                is_block_event(fs[1], "content_block_delta"@, index, "delta"@, d) && d.str_at(
                    "type"@,
                ) == Some("thinking_delta"@) && d.str_at("thinking"@) == Some(
                    block.str_or_empty("thinking"@),
                ))
            &&& ty == "tool_use"@ ==> (exists|d: JsonV| #[trigger]
                is_block_event(fs[1], "content_block_delta"@, index, "delta"@, d) && d.str_at(
                    "type"@,
                ) == Some("input_json_delta"@) && d.str_at("partial_json"@) == Some(
                    json_text(
                        match block.get("input"@) {
                            Some(v) => v,
                            None => JsonV::Object(Map::empty()),
                        },
                    ),
                )) && (exists|b: JsonV| #[trigger]
                is_block_event(fs[0], "content_block_start"@, index, "content_block"@, b)
                    && b.str_at("type"@) == Some("tool_use"@) && b.str_at("id"@) == Some(
                    block.str_or_empty("id"@),
                ) && b.str_at("name"@) == Some(block.str_or_empty("name"@)))
        }),
{
    lemma_event_keys();
    lemma_block_keys();
    reveal_strlit("text");
    reveal_strlit("tool_use");
    reveal_strlit("thinking");
    assert("text"@.len() == 4 && "tool_use"@.len() == 8 && "thinking"@.len() == 8);
    assert("tool_use"@[1] == 'o' && "thinking"@[1] == 'h');
    let fs = block_frames(index, block);
    let ty = block.str_or_empty("type"@);
    let stop = JsonV::Object(
        map!["type"@ => JsonV::String("content_block_stop"@), "index"@ => int_value(index)],
    );
    if fs.len() == 3 {
        assert(is_event(fs[2], "content_block_stop"@, stop));
    }
    if ty == "text"@ {
        let d = crate::skills::agent::text_delta(
            "text_delta"@,
            "text"@,
            block.str_or_empty("text"@),
        );
        crate::translate::browsing::lemma_block_event(
            "content_block_delta"@,
            index,
            "delta"@,
            d,
        );
        assert(is_block_event(fs[1], "content_block_delta"@, index, "delta"@, d));
    } else if ty == "thinking"@ {
        let d = crate::skills::agent::text_delta(
            "thinking_delta"@,
            "thinking"@,
            block.str_or_empty("thinking"@),
        );
        crate::translate::browsing::lemma_block_event(
            "content_block_delta"@,
            index,
            "delta"@,
            d,
        );
        assert(is_block_event(fs[1], "content_block_delta"@, index, "delta"@, d));
    } else if ty == "tool_use"@ {
        let input = match block.get("input"@) {
            Some(v) => v,
            None => JsonV::Object(Map::empty()),
        };
        let d = crate::skills::agent::text_delta(
            "input_json_delta"@,
            "partial_json"@,
            json_text(input),
        );
        let b = crate::translate::blocks::use_block(
            "tool_use"@,
            block.str_or_empty("id"@),
            block.str_or_empty("name"@),
            JsonV::Object(Map::empty()),
        );
        crate::translate::browsing::lemma_block_event(
            "content_block_start"@,
            index,
            "content_block"@,
            b,
        );
        crate::translate::browsing::lemma_block_event(
            "content_block_delta"@,
            index,
            "delta"@,
            d,
        );
        assert(is_block_event(fs[1], "content_block_delta"@, index, "delta"@, d));
        assert(is_block_event(fs[0], "content_block_start"@, index, "content_block"@, b));
    }
}

} // verus!
