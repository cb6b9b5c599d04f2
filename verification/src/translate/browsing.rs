//! What a browsing run tells the model and the client, told by what was asked and found.
use crate::json::{int_value, json_text, JsonV};
use crate::keys::{
    lemma_block_keys, lemma_browsing_keys, lemma_event_keys, lemma_message_keys, lemma_page_keys,
    lemma_result_keys, lemma_schema_keys, lemma_usage_keys,
};
use crate::models::openai::{ContentV, MessageV, OpenAIResponse, RequestV, ResponseMessage, ToolCallV};
use crate::models::anthropic::Tool;
use crate::numerals::decimal;
use crate::text::{contains, occurs_at, trim};
use crate::text_laws::law_join_separates;
use crate::translate::blocks::{block_frames, blocks_frames, sse, text_block, use_block};
use crate::translate::websearch_agent::{
    answer_calls, arguments_value, begun, delta_body, found_text, id_text, leak, may_pass,
    message_body, only_browses, output_frames, past_thoughts, rewritten, sanitized, start_body,
    system_text_from, with_client_calls, without_thinking, AgentV, CallResult, OutputV, Patience,
    PlanV, Planning, WebKind,
};
use crate::error::ProxyError;
use crate::websearch::results_view;
use vstd::prelude::*;

verus! {

// ---------------------------------------------------------------------------
// What the model is told
// ---------------------------------------------------------------------------
/// The text tells the model what a call came to: the whole page that was fetched, every page
/// that was found with its title, its address and its description, or what went wrong.
pub open spec fn reply_tells(t: Seq<char>, plan: PlanV, result: Option<CallResult>) -> bool {
    match result {
        None => t == "Tool use limit reached."@,
        Some(CallResult::Fetch(Ok(page))) => t == "Fetched "@ + (if page.final_url@.len() == 0 {
            plan.arg
        } else {
            page.final_url@
        }) + ":\n"@ + page.content@,
        Some(CallResult::Fetch(Err(e))) => t == "Fetch failed: "@ + e@,
        Some(CallResult::Search(Err(e))) => t == "Search failed: "@ + e@,
        Some(CallResult::Search(Ok(found))) => {
            &&& found@.len() == 0 ==> t == "No results found."@
            &&& found@.len() > 0 ==> t + "\n\n"@ == Seq::new(
                found@.len(),
                |i: int|
                    decimal((i + 1) as nat) + ". "@ + trim(found@[i].title@) + " — "@ + trim(
                        found@[i].url@,
                    ) + "\n"@ + trim(found@[i].description@) + "\n\n"@,
            ).flatten_alt()
        },
    }
}

/// Each planned call is answered in the conversation, in their order and behind what was said
/// before: under the identifier of the call, with what it came to.
pub proof fn law_results_reach_the_model(
    a: AgentV,
    plans: Seq<PlanV>,
    results: Seq<Option<CallResult>>,
)
    requires
        plans.len() == results.len(),
    ensures
        ({
            let b = a.with_results(plans, results, plans.len() as int);
            let n = a.messages.len() as int;
            &&& b.messages.len() == n + plans.len()
            &&& b.messages.take(n) == a.messages
            &&& forall|i: int|
                0 <= i < plans.len() ==> {
                    let m = #[trigger] b.messages[n + i];
                    &&& m.role == "tool"@
                    &&& m.tool_call_id == Some(plans[i].tc_id)
                    &&& m.tool_calls is None
                    &&& m.content matches Some(ContentV::Text(t)) && reply_tells(
                        t,
                        plans[i],
                        results[i],
                    )
                }
        }),
{
    let b = a.with_results(plans, results, plans.len() as int);
    let n = a.messages.len() as int;
    assert(b.messages.take(n) =~= a.messages);
    assert forall|i: int| 0 <= i < plans.len() implies {
        let m = #[trigger] b.messages[n + i];
        &&& m.role == "tool"@
        &&& m.tool_call_id == Some(plans[i].tc_id)
        &&& m.tool_calls is None
        &&& m.content matches Some(ContentV::Text(t)) && reply_tells(t, plans[i], results[i])
    } by {
        if let Some(CallResult::Search(Ok(found))) = results[i] {
            let view = results_view(found@);
            let lines = Seq::new(view.len(), |i: int| found_text(i, view[i]));
            law_join_separates(lines, "\n\n"@);
            assert(Seq::new(lines.len(), |i: int| lines[i] + "\n\n"@) =~= Seq::new(
                found@.len(),
                |i: int|
                    decimal((i + 1) as nat) + ". "@ + trim(found@[i].title@) + " — "@ + trim(
                        found@[i].url@,
                    ) + "\n"@ + trim(found@[i].description@) + "\n\n"@,
            ));
        }
    }
}

/// What the model said joins the conversation with all its calls, so that the replies behind
/// it have something to answer.
pub proof fn law_browsing_turn_is_kept(a: AgentV, m: ResponseMessage, next: u64)
    ensures
        ({
            let b = a.browsing(m, next);
            let turn = b.messages.last();
            &&& b.messages.len() == a.messages.len() + 1
            &&& b.messages.drop_last() == a.messages
            &&& turn.role == "assistant"@
            &&& match m.content {
                Some(t) => turn.content == Some(ContentV::Text(t@)),
                None => turn.content is None,
            }
            &&& turn.tool_calls matches Some(calls) && calls.len() == (match m.tool_calls {
                Some(v) => v@.len(),
                None => 0,
            }) && forall|i: int|
                0 <= i < calls.len() ==> {
                    let c = m.tool_calls->0@[i];
                    &&& (#[trigger] calls[i]).id == c.id@
                    &&& calls[i].call_type == c.call_type@
                    &&& calls[i].name == c.function.name@
                    &&& calls[i].arguments == c.function.arguments@
                }
        }),
{
    assert(a.browsing(m, next).messages.drop_last() =~= a.messages);
}

/// Chain-of-thought is switched off once and nothing else changes: the first system text gets
/// the switch unless it has it, and a conversation without one gets a system message in front.
pub proof fn law_thinking_is_switched_off(ms: Seq<MessageV>)
    ensures
        ({
            let r = without_thinking(ms);
            let texts = |m: MessageV| m.role == "system"@ && (m.content matches Some(c) && c is Text);
            if forall|i: int| 0 <= i < ms.len() ==> !texts(#[trigger] ms[i]) {
                &&& r.len() == ms.len() + 1
                &&& r[0].role == "system"@
                &&& r[0].content == Some(ContentV::Text("/no_think"@))
                &&& r.skip(1) == ms
            } else {
                exists|k: int|
                    {
                        &&& 0 <= k < ms.len()
                        &&& texts(#[trigger] ms[k])
                        &&& forall|i: int| 0 <= i < k ==> !texts(#[trigger] ms[i])
                        &&& r.len() == ms.len()
                        &&& forall|i: int| 0 <= i < ms.len() && i != k ==> r[i] == #[trigger] ms[i]
                        &&& r[k].role == ms[k].role
                        &&& r[k].content == Some(
                            ContentV::Text(
                                ms[k].content->0->Text_0 + if contains(
                                    ms[k].content->0->Text_0,
                                    "/no_think"@,
                                ) {
                                    seq![]
                                } else {
                                    "\n/no_think"@
                                },
                            ),
                        )
                    }
            }
        }),
{
    lemma_system_text(ms, 0);
    let r = without_thinking(ms);
    match system_text_from(ms, 0) {
        None => {
            assert(r.skip(1) =~= ms);
        },
        Some(k) => {
            let t = ms[k].content->0->Text_0;
            assert(t + Seq::<char>::empty() =~= t);
            assert forall|i: int| 0 <= i < ms.len() && i != k implies r[i] == #[trigger] ms[i] by {}
        },
    }
}

proof fn lemma_system_text(ms: Seq<MessageV>, i: int)
    requires
        0 <= i,
    ensures
        match system_text_from(ms, i) {
            Some(k) => {
                &&& i <= k < ms.len()
                &&& ms[k].role == "system"@ && (ms[k].content matches Some(c) && c is Text)
                &&& forall|j: int|
                    i <= j < k ==> !((#[trigger] ms[j]).role == "system"@ && (ms[j].content matches Some(
                        c,
                    ) && c is Text))
            },
            None => forall|j: int|
                i <= j < ms.len() ==> !((#[trigger] ms[j]).role == "system"@
                    && (ms[j].content matches Some(c) && c is Text)),
        },
    decreases ms.len() - i,
{
    if i < ms.len() {
        lemma_system_text(ms, i + 1);
    }
}

/// A round repeats the request with the conversation as it stands, and never for a stream.
/// Where the model has to answer, it is told so behind everything else and has no tools;
/// where it does not, it has all that the request offers. There are five rounds at most.
pub proof fn law_round_asks_with_the_conversation(a: AgentV)
    ensures
        ({
            let q = a.round_request();
            let forced = a.round >= 4 || a.out.searches + a.out.fetches >= 3;
            &&& q.model == a.request.model
            &&& q.max_tokens == a.request.max_tokens
            &&& q.reasoning_effort == a.request.reasoning_effort
            &&& q.stream == Some(false)
            &&& q.stream_options is None
            &&& !forced ==> q.messages == a.messages && q.tools == a.request.tools && q.tool_choice
                == a.request.tool_choice && q.parallel_tool_calls == a.request.parallel_tool_calls
            &&& forced ==> {
                &&& q.tools is None && q.tool_choice is None && q.parallel_tool_calls is None
                &&& q.messages.len() == a.messages.len() + 1
                &&& q.messages.drop_last() == a.messages
                &&& q.messages.last().role == "user"@
                &&& q.messages.last().content == Some(
                    ContentV::Text(
                        "Stop searching. Using only the information already gathered above, write the final answer to my original request now. Do not call any tools or output any tool-call syntax."@,
                    ),
                )
            }
        }),
        a.goes_on() <==> !a.over && a.round < 5,
{
    let q = a.round_request();
    if a.must_answer() {
        assert(q.messages.drop_last() =~= a.messages);
    }
}

/// A run begins with the client's conversation, its tools and its choice among them, under
/// the model that is set for browsing, with a limited output and little effort.
pub proof fn law_run_begins_with_the_request(request: RequestV, model: Option<Seq<char>>)
    ensures
        ({
            let a = begun(request, model);
            &&& a.request.model == (match model {
                Some(m) => m,
                None => "auto"@,
            })
            &&& a.request.tools == request.tools
            &&& a.request.tool_choice == request.tool_choice
            &&& a.request.parallel_tool_calls == request.parallel_tool_calls
            &&& a.request.reasoning_effort == Some("low"@)
            &&& a.request.max_tokens matches Some(n) && n <= 8192 && (request.max_tokens matches Some(
                m,
            ) ==> n <= m && (n == m || n == 8192)) && (request.max_tokens is None ==> n == 8192)
            &&& a.messages == without_thinking(request.messages)
            &&& a.out.blocks.len() == 0
            &&& a.out.searches == 0 && a.out.fetches == 0
            &&& a.out.input_tokens == 0 && a.out.output_tokens == 0
            &&& a.out.model == a.request.model
            &&& a.round == 0 && !a.over
        }),
{
}

// ---------------------------------------------------------------------------
// What is planned
// ---------------------------------------------------------------------------
/// How many of the calls have that name.
pub open spec fn calls_named(calls: Seq<ToolCallV>, name: Seq<char>) -> int
    decreases calls.len(),
{
    if calls.len() == 0 {
        0
    } else {
        calls_named(calls.drop_last(), name) + if calls.last().name == name {
            1int
        } else {
            0
        }
    }
}

/// The plan runs the call: a search for its query, or a fetch of its address.
pub open spec fn plan_runs(p: PlanV, c: ToolCallV) -> bool {
    let args = arguments_value(c.arguments);
    &&& p.tc_id == c.id
    &&& c.name == "web_search"@ ==> p.kind == WebKind::Search && p.arg == args.str_or_empty("query"@)
    &&& c.name == "web_fetch"@ ==> p.kind == WebKind::Fetch && p.arg == args.str_or_empty("url"@)
}

/// Every call is planned, in their order: as what it asks for, with an identifier of its own
/// that counts on from the last, and over the budget from the sixth search and the eleventh
/// fetch of the whole run on. Each is counted and shown to the client.
pub proof fn law_calls_are_planned(p: Planning, calls: Seq<ToolCallV>)
    requires
        p.plans.len() == 0,
        p.out.searches + p.out.fetches + calls.len() <= u32::MAX,
        p.next + calls.len() <= u64::MAX,
        forall|i: int|
            0 <= i < calls.len() ==> (#[trigger] calls[i]).name == "web_search"@ || calls[i].name
                == "web_fetch"@,
    ensures
        ({
            let q = p.with_calls(calls);
            &&& q.plans.len() == calls.len()
            &&& q.next == p.next + calls.len()
            &&& q.out.searches == p.out.searches + calls_named(calls, "web_search"@)
            &&& q.out.fetches == p.out.fetches + calls_named(calls, "web_fetch"@)
            &&& q.out.model == p.out.model
            &&& q.out.input_tokens == p.out.input_tokens
            &&& q.out.output_tokens == p.out.output_tokens
            &&& q.out.blocks.len() == p.out.blocks.len() + calls.len()
            &&& q.out.blocks.take(p.out.blocks.len() as int) == p.out.blocks
            &&& forall|i: int|
                0 <= i < calls.len() ==> {
                    let plan = #[trigger] q.plans[i];
                    let block = q.out.blocks[p.out.blocks.len() + i];
                    let sofar = calls.take(i + 1);
                    &&& plan_runs(plan, calls[i])
                    &&& plan.srv_id == id_text("srvtoolu"@, (p.next + i) as nat)
                    &&& calls[i].name == "web_search"@ ==> plan.over_budget == (p.out.searches
                        + calls_named(sofar, "web_search"@) > 5)
                    &&& calls[i].name == "web_fetch"@ ==> plan.over_budget == (p.out.fetches
                        + calls_named(sofar, "web_fetch"@) > 10)
                    &&& block.str_at("type"@) == Some("server_tool_use"@)
                    &&& block.str_at("id"@) == Some(plan.srv_id)
                    &&& block.str_at("name"@) == Some(calls[i].name)
                    &&& block.get("input"@) matches Some(input) && input.str_at(
                        if calls[i].name == "web_search"@ {
                            "query"@
                        } else {
                            "url"@
                        },
                    ) == Some(plan.arg)
                }
        }),
    decreases calls.len(),
{
    reveal_strlit("web_search");
    reveal_strlit("web_fetch");
    assert("web_search"@.len() == 10 && "web_fetch"@.len() == 9);
    lemma_block_keys();
    if calls.len() == 0 {
        assert(p.out.blocks.take(p.out.blocks.len() as int) =~= p.out.blocks);
    } else {
        let rest = calls.drop_last();
        let n = rest.len() as int;
        let b = p.out.blocks.len() as int;
        assert forall|i: int| 0 <= i < rest.len() implies (#[trigger] rest[i]).name
            == "web_search"@ || rest[i].name == "web_fetch"@ by {
            assert(rest[i] == calls[i]);
        }
        law_calls_are_planned(p, rest);
        let r = p.with_calls(rest);
        let q = p.with_calls(calls);
        assert(calls[n].name == "web_search"@ || calls[n].name == "web_fetch"@);
        assert(q == r.with_call(calls[n]));
        assert(calls.take(n + 1) =~= calls);
        assert(q.out.blocks.take(b) =~= r.out.blocks.take(b));
        lemma_named_bound(rest, "web_search"@, "web_fetch"@);
        assert forall|i: int| 0 <= i < calls.len() implies {
            let plan = #[trigger] q.plans[i];
            let block = q.out.blocks[b + i];
            let sofar = calls.take(i + 1);
            &&& plan_runs(plan, calls[i])
            &&& plan.srv_id == id_text("srvtoolu"@, (p.next + i) as nat)
            &&& calls[i].name == "web_search"@ ==> plan.over_budget == (p.out.searches
                + calls_named(sofar, "web_search"@) > 5)
            &&& calls[i].name == "web_fetch"@ ==> plan.over_budget == (p.out.fetches + calls_named(
                sofar,
                "web_fetch"@,
            ) > 10)
            &&& block.str_at("type"@) == Some("server_tool_use"@)
            &&& block.str_at("id"@) == Some(plan.srv_id)
            &&& block.str_at("name"@) == Some(calls[i].name)
            &&& block.get("input"@) matches Some(input) && input.str_at(
                if calls[i].name == "web_search"@ {
                    "query"@
                } else {
                    "url"@
                },
            ) == Some(plan.arg)
        } by {
            if i < n {
                assert(rest.take(i + 1) =~= calls.take(i + 1));
                assert(q.plans[i] == r.plans[i]);
                assert(q.out.blocks[b + i] == r.out.blocks[b + i]);
            } else {
                assert(q.out.blocks[b + n] == q.out.blocks.last());
            }
        }
    }
}

proof fn lemma_named_bound(calls: Seq<ToolCallV>, a: Seq<char>, b: Seq<char>)
    requires
        a != b,
    ensures
        0 <= calls_named(calls, a),
        0 <= calls_named(calls, b),
        calls_named(calls, a) + calls_named(calls, b) <= calls.len(),
    decreases calls.len(),
{
    if calls.len() > 0 {
        lemma_named_bound(calls.drop_last(), a, b);
    }
}

// ---------------------------------------------------------------------------
// What the client is shown
// ---------------------------------------------------------------------------
/// The block shows the client what a call came to: the pages that were found, the page that
/// was fetched with all its text, or why there is none.
pub open spec fn block_tells(b: JsonV, plan: PlanV, result: Option<CallResult>) -> bool {
    &&& b.str_at("tool_use_id"@) == Some(plan.srv_id)
    &&& match result {
        None => {
            &&& b.str_at("type"@) == Some(
                if plan.kind == WebKind::Search {
                    "web_search_tool_result"@
                } else {
                    "web_fetch_tool_result"@
                },
            )
            &&& b.get("content"@) matches Some(c) && c.str_at("error_code"@) == Some(
                "max_uses_exceeded"@,
            )
        },
        Some(CallResult::Search(Ok(found))) => {
            &&& b.str_at("type"@) == Some("web_search_tool_result"@)
            &&& b.get("content"@) matches Some(JsonV::Array(items)) && items.len() == found@.len()
                && forall|i: int|
                0 <= i < items.len() ==> (#[trigger] items[i]).str_at("type"@) == Some(
                    "web_search_result"@,
                ) && items[i].str_at("url"@) == Some(found@[i].url@) && items[i].str_at("title"@)
                    == Some(found@[i].title@)
        },
        Some(CallResult::Search(Err(_))) => {
            &&& b.str_at("type"@) == Some("web_search_tool_result"@)
            &&& b.get("content"@) matches Some(c) && c.str_at("error_code"@) == Some("unavailable"@)
        },
        Some(CallResult::Fetch(Ok(page))) => {
            &&& b.str_at("type"@) == Some("web_fetch_tool_result"@)
            &&& b.get("content"@) matches Some(c) && c.str_at("type"@) == Some("web_fetch_result"@)
                && c.str_at("url"@) == Some(
                if page.final_url@.len() == 0 {
                    plan.arg
                } else {
                    page.final_url@
                },
            ) && (c.get("content"@) matches Some(d) && d.str_at("type"@) == Some("document"@)
                && d.str_at("title"@) == Some(page.title@) && (d.get("source"@) matches Some(s)
                && s.str_at("data"@) == Some(page.content@) && s.str_at("media_type"@) == Some(
                "text/plain"@,
            )))
        },
        Some(CallResult::Fetch(Err(_))) => {
            &&& b.str_at("type"@) == Some("web_fetch_tool_result"@)
            &&& b.get("content"@) matches Some(c) && c.str_at("error_code"@) == Some(
                "url_not_accessible"@,
            )
        },
    }
}

/// The client is shown what each call came to, in their order and behind what it was shown
/// before; nothing else of the run changes.
pub proof fn law_results_reach_the_client(
    a: AgentV,
    plans: Seq<PlanV>,
    results: Seq<Option<CallResult>>,
)
    requires
        plans.len() == results.len(),
    ensures
        ({
            let b = a.with_results(plans, results, plans.len() as int);
            let n = a.out.blocks.len() as int;
            &&& b.out.blocks.len() == n + plans.len()
            &&& b.out.blocks.take(n) == a.out.blocks
            &&& forall|i: int|
                0 <= i < plans.len() ==> block_tells(
                    #[trigger] b.out.blocks[n + i],
                    plans[i],
                    results[i],
                )
            &&& b.request == a.request
            &&& b.out.searches == a.out.searches && b.out.fetches == a.out.fetches
            &&& b.out.stop_reason == a.out.stop_reason && b.out.model == a.out.model
            &&& b.out.input_tokens == a.out.input_tokens && b.out.output_tokens
                == a.out.output_tokens
        }),
{
    lemma_result_keys();
    lemma_page_keys();
    let b = a.with_results(plans, results, plans.len() as int);
    let n = a.out.blocks.len() as int;
    assert(b.out.blocks.take(n) =~= a.out.blocks);
    assert forall|i: int| 0 <= i < plans.len() implies block_tells(
        #[trigger] b.out.blocks[n + i],
        plans[i],
        results[i],
    ) by {
        if let Some(CallResult::Search(Ok(found))) = results[i] {
            assert(results_view(found@).len() == found@.len());
        }
    }
}

/// An answer is counted: the tokens of all rounds add up, those of the prompt are the first
/// round's, and the model is the one that answered.
pub proof fn law_answers_are_counted(a: AgentV, resp: OpenAIResponse)
    requires
        a.out.output_tokens + resp.usage.completion_tokens <= u32::MAX,
    ensures
        ({
            let b = a.counting(resp);
            &&& b.out.output_tokens == a.out.output_tokens + resp.usage.completion_tokens
            &&& a.round == 0 ==> b.out.input_tokens == resp.usage.prompt_tokens
            &&& a.round != 0 ==> b.out.input_tokens == a.out.input_tokens
            &&& resp.model matches Some(m) ==> b.out.model == m@
            &&& resp.model is None ==> b.out.model == a.out.model
            &&& b.out.blocks == a.out.blocks && b.messages == a.messages && b.request == a.request
            &&& b.round == a.round && b.out.searches == a.out.searches && b.out.fetches
                == a.out.fetches
        }),
{
}

/// What the client reads of an answer that ends a run stands behind what it was shown before:
/// its text, where it says anything, and each of its calls if any is the client's.
pub proof fn law_last_answer_is_shown(a: AgentV, m: ResponseMessage)
    ensures
        ({
            let b = a.answered(m);
            let n = a.out.blocks.len() as int;
            let calls = answer_calls(m);
            let hands_over = calls.len() > 0 && !only_browses(calls);
            let says = m.content is Some && sanitized(m.content->0@).len() > 0;
            let from = n + if says {
                1int
            } else {
                0
            };
            &&& b.over
            &&& b.out.blocks.len() >= n && b.out.blocks.take(n) == a.out.blocks
            &&& says ==> b.out.blocks.len() > n && b.out.blocks[n].str_at("type"@) == Some("text"@)
                && b.out.blocks[n].str_at("text"@) == Some(sanitized(m.content->0@))
            &&& hands_over ==> {
                &&& b.out.stop_reason == "tool_use"@
                &&& b.out.blocks.len() == from + calls.len()
                &&& forall|i: int|
                    0 <= i < calls.len() ==> {
                        let block = #[trigger] b.out.blocks[from + i];
                        &&& block.str_at("type"@) == Some("tool_use"@)
                        &&& block.str_at("id"@) == Some(calls[i].id)
                        &&& block.str_at("name"@) == Some(calls[i].name)
                        &&& block.get("input"@) == Some(arguments_value(calls[i].arguments))
                    }
            }
            &&& !hands_over ==> b.out.stop_reason == "end_turn"@ && b.out.blocks.len() == n + 1
            &&& b.out.searches == a.out.searches && b.out.fetches == a.out.fetches
            &&& b.out.output_tokens == a.out.output_tokens && b.out.input_tokens
                == a.out.input_tokens && b.out.model == a.out.model
        }),
{
    lemma_block_keys();
    let n = a.out.blocks.len() as int;
    let b = a.answered(m);
    let text = crate::text::opt_text(m.content);
    let said = a.out.with_text(text);
    assert(said.blocks.len() != a.out.blocks.len() ==> said != a.out);
    lemma_handed_over(said, answer_calls(m));
    assert forall|i: int| 0 <= i < n implies b.out.blocks[i] == #[trigger] a.out.blocks[i] by {
        assert(said.blocks[i] == a.out.blocks[i]);
    }
    assert(b.out.blocks.take(n) =~= a.out.blocks);
    if answer_calls(m).len() > 0 && !only_browses(answer_calls(m)) {
        let handed = with_client_calls(said, answer_calls(m));
        assert(b.out.blocks == handed.blocks);
        if said.blocks.len() > n {
            assert(handed.blocks[n] == said.blocks[n]);
        }
    }
}

proof fn lemma_handed_over(out: OutputV, calls: Seq<ToolCallV>)
    ensures
        ({
            let o = with_client_calls(out, calls);
            &&& o.blocks.len() == out.blocks.len() + calls.len()
            &&& forall|i: int| 0 <= i < out.blocks.len() ==> o.blocks[i] == #[trigger] out.blocks[i]
            &&& forall|i: int|
                out.blocks.len() <= i < o.blocks.len() ==> {
                    let c = calls[i - out.blocks.len()];
                    #[trigger] o.blocks[i] == use_block(
                        "tool_use"@,
                        c.id,
                        c.name,
                        arguments_value(c.arguments),
                    )
                }
            &&& o.searches == out.searches && o.fetches == out.fetches
            &&& o.output_tokens == out.output_tokens && o.input_tokens == out.input_tokens
            &&& o.model == out.model
        }),
    decreases calls.len(),
{
    if calls.len() > 0 {
        lemma_handed_over(out, calls.drop_last());
    }
}

/// The usage that a client is told has every figure: its tokens, and the searches and fetches
/// where there were any.
pub proof fn law_browsing_usage_is_told(out: OutputV)
    ensures
        ({
            let u = out.usage();
            &&& u.get("input_tokens"@) == Some(int_value(out.input_tokens as u64))
            &&& u.get("output_tokens"@) == Some(int_value(out.output_tokens as u64))
            &&& out.searches == 0 && out.fetches == 0 ==> u.get("server_tool_use"@) is None
            &&& out.searches > 0 || out.fetches > 0 ==> (u.get("server_tool_use"@) matches Some(t) && {
                &&& t.get("web_search_requests"@) == (if out.searches > 0 {
                    Some(int_value(out.searches as u64))
                } else {
                    None
                })
                &&& t.get("web_fetch_requests"@) == (if out.fetches > 0 {
                    Some(int_value(out.fetches as u64))
                } else {
                    None
                })
            })
        }),
{
    lemma_usage_keys();
    lemma_browsing_keys();
}

/// A client without a stream gets the whole output: all blocks, why it ended, and its usage.
pub proof fn law_message_holds_the_output(id: Seq<char>, out: OutputV)
    ensures
        ({
            let m = message_body(id, out);
            &&& m.str_at("id"@) == Some(id)
            &&& m.str_at("type"@) == Some("message"@)
            &&& m.str_at("role"@) == Some("assistant"@)
            &&& m.str_at("model"@) == Some(out.model)
            &&& m.get("content"@) == Some(JsonV::Array(out.blocks))
            &&& m.str_at("stop_reason"@) == Some(out.stop_reason)
            &&& m.get("stop_sequence"@) == Some(JsonV::Null)
            &&& m.get("usage"@) == Some(out.usage())
        }),
{
    lemma_message_keys();
}

/// The text of an event with a name and data: the two lines of a server-sent event.
pub open spec fn is_event(frame: Seq<char>, name: Seq<char>, data: JsonV) -> bool {
    &&& frame == "event: "@ + name + "\ndata: "@ + json_text(data) + "\n\n"@
    &&& data.str_at("type"@) == Some(name)
}

/// A streamed run begins with an empty message under the client's model.
pub proof fn law_stream_begins_empty(id: Seq<char>, model: Seq<char>)
    ensures
        is_event(sse("message_start"@, start_body(id, model)), "message_start"@, start_body(
            id,
            model,
        )),
        start_body(id, model).get("message"@) matches Some(m) && m.str_at("id"@) == Some(id)
            && m.str_at("model"@) == Some(model) && m.str_at("role"@) == Some("assistant"@)
            && m.str_at("type"@) == Some("message"@) && (m.get("content"@) matches Some(
            JsonV::Array(a),
        ) && a.len() == 0) && m.get("stop_reason"@) == Some(JsonV::Null),
{
    lemma_message_keys();
    lemma_event_keys();
}

/// A streamed run ends with why it ended and its usage, and then with the end of the message;
/// before that come the events of each block in its turn, numbered as the blocks are.
pub proof fn law_stream_replays_the_output(out: OutputV)
    ensures
        ({
            let fs = output_frames(out);
            let n = fs.len() as int;
            &&& n >= 2
            &&& is_event(fs[n - 2], "message_delta"@, delta_body(out))
            &&& delta_body(out).get("usage"@) == Some(out.usage())
            &&& delta_body(out).get("delta"@) matches Some(d) && d.str_at("stop_reason"@) == Some(
                out.stop_reason,
            )
            &&& exists|data: JsonV| #[trigger] is_event(fs[n - 1], "message_stop"@, data)
            &&& fs.take(n - 2) == blocks_frames(out.blocks)
        }),
{
    lemma_event_keys();
    let fs = output_frames(out);
    assert(fs.take(fs.len() - 2) =~= blocks_frames(out.blocks));
    let stop = JsonV::Object(map!["type"@ => JsonV::String("message_stop"@)]);
    assert(is_event(fs[fs.len() - 1], "message_stop"@, stop));
}

/// One more block adds its events behind those of the others.
pub proof fn law_blocks_are_replayed_in_order(blocks: Seq<JsonV>, b: JsonV)
    ensures
        blocks_frames(blocks.push(b)) == blocks_frames(blocks) + block_frames(
            blocks.len() as u64,
            b,
        ),
        blocks.len() == 0 ==> blocks_frames(blocks).len() == 0,
{
    assert(blocks.push(b).drop_last() =~= blocks);
}

/// The event has that name, that index and that member.
pub open spec fn is_block_event(
    frame: Seq<char>,
    name: Seq<char>,
    index: u64,
    key: Seq<char>,
    value: JsonV,
) -> bool {
    exists|data: JsonV|
        #![trigger is_event(frame, name, data)]
        is_event(frame, name, data) && data.get("index"@) == Some(int_value(index)) && data.get(key)
            == Some(value)
}

/// The event stops the block with that index.
pub open spec fn is_stop_event(frame: Seq<char>, index: u64) -> bool {
    exists|data: JsonV|
        #![trigger is_event(frame, "content_block_stop"@, data)]
        is_event(frame, "content_block_stop"@, data) && data.get("index"@) == Some(int_value(index))
}

/// A block is replayed so that a client reads it whole: it is started and stopped under its
/// index, a text and a tool's input come as one delta in between, and any other block comes
/// with its start.
pub proof fn law_block_is_replayed_whole(index: u64, block: JsonV)
    ensures
        ({
            let fs = block_frames(index, block);
            let ty = block.str_or_empty("type"@);
            &&& fs.len() >= 2
            &&& is_stop_event(fs.last(), index)
            &&& ty == "text"@ ==> fs.len() == 3 && (exists|d: JsonV| #[trigger]
                is_block_event(fs[1], "content_block_delta"@, index, "delta"@, d) && d.str_at(
                    "type"@,
                ) == Some("text_delta"@) && d.str_at("text"@) == Some(block.str_or_empty("text"@)))
                && (exists|b: JsonV| #[trigger]
                is_block_event(fs[0], "content_block_start"@, index, "content_block"@, b)
                    && b.str_at("type"@) == Some("text"@))
            &&& ty == "tool_use"@ || ty == "server_tool_use"@ ==> fs.len() == 3 && (exists|
                d: JsonV,
            | #[trigger]
                is_block_event(fs[1], "content_block_delta"@, index, "delta"@, d) && d.str_at(
                    "type"@,
                ) == Some("input_json_delta"@) && d.str_at("partial_json"@) == Some(
                    json_text(
                        match block.get("input"@) {
                            Some(v) => v,
                            None => JsonV::Object(Map::empty()),
                        },
                    ),
                )) && (exists|b: JsonV| #[trigger]
                is_block_event(fs[0], "content_block_start"@, index, "content_block"@, b)
                    && b.str_at("type"@) == Some(ty) && b.str_at("id"@) == Some(
                    block.str_or_empty("id"@),
                ) && b.str_at("name"@) == Some(block.str_or_empty("name"@)))
            &&& ty != "text"@ && ty != "tool_use"@ && ty != "server_tool_use"@ ==> fs.len() == 2
                && is_block_event(fs[0], "content_block_start"@, index, "content_block"@, block)
        }),
{
    lemma_event_keys();
    lemma_block_keys();
    reveal_strlit("text");
    reveal_strlit("tool_use");
    reveal_strlit("server_tool_use");
    assert("text"@.len() == 4 && "tool_use"@.len() == 8 && "server_tool_use"@.len() == 15);
    let fs = block_frames(index, block);
    let ty = block.str_or_empty("type"@);
    let stop = JsonV::Object(
        map!["type"@ => JsonV::String("content_block_stop"@), "index"@ => int_value(index)],
    );
    assert(is_event(fs.last(), "content_block_stop"@, stop));
    if ty == "text"@ {
        let d = JsonV::Object(
            map![
                "type"@ => JsonV::String("text_delta"@),
                "text"@ => JsonV::String(block.str_or_empty("text"@)),
            ],
        );
        lemma_block_event("content_block_start"@, index, "content_block"@, text_block(""@));
        lemma_block_event("content_block_delta"@, index, "delta"@, d);
        assert(is_block_event(fs[1], "content_block_delta"@, index, "delta"@, d));
        assert(is_block_event(
            fs[0],
            "content_block_start"@,
            index,
            "content_block"@,
            text_block(""@),
        ));
    } else if ty == "server_tool_use"@ || ty == "tool_use"@ {
        let input = match block.get("input"@) {
            Some(v) => v,
            None => JsonV::Object(Map::empty()),
        };
        let d = JsonV::Object(
            map![
                "type"@ => JsonV::String("input_json_delta"@),
                "partial_json"@ => JsonV::String(json_text(input)),
            ],
        );
        let b = use_block(
            ty,
            block.str_or_empty("id"@),
            block.str_or_empty("name"@),
            JsonV::Object(Map::empty()),
        );
        lemma_block_event("content_block_start"@, index, "content_block"@, b);
        lemma_block_event("content_block_delta"@, index, "delta"@, d);
        assert(is_block_event(fs[1], "content_block_delta"@, index, "delta"@, d));
        assert(is_block_event(fs[0], "content_block_start"@, index, "content_block"@, b));
    } else {
        lemma_block_event("content_block_start"@, index, "content_block"@, block);
    }
}

pub(crate) proof fn lemma_block_event(name: Seq<char>, index: u64, key: Seq<char>, value: JsonV)
    requires
        key == "content_block"@ || key == "delta"@,
    ensures
        is_block_event(
            crate::translate::blocks::indexed(name, index, key, value),
            name,
            index,
            key,
            value,
        ),
{
    lemma_event_keys();
    let data = JsonV::Object(
        map!["type"@ => JsonV::String(name), "index"@ => int_value(index), key => value],
    );
    assert(is_event(crate::translate::blocks::indexed(name, index, key, value), name, data));
}

// ---------------------------------------------------------------------------
// What counts as an answer, and what is tried again
// ---------------------------------------------------------------------------
/// A text without thoughts and tool syntax is an answer as it is, but for white space around
/// it.
pub proof fn law_clean_answer_is_kept(s: Seq<char>)
    requires
        !contains(s, "</think>"@),
        !contains(s, "<think>"@),
        !contains(s, "<tool_call>"@),
        !contains(s, "<function="@),
        !contains(s, "<|tool_call"@),
    ensures
        sanitized(s) == trim(s),
{
    reveal_strlit("</think>");
    crate::text::lemma_rfind_from(s, "</think>"@, s.len() - "</think>"@.len());
    crate::text::lemma_find_from(s, "</think>"@, 0);
    if let Some(i) = crate::text::rfind(s, "</think>"@) {
        assert(occurs_at(s, "</think>"@, i));
    }
}

/// Of a text with thoughts in front, the answer is that of what follows them.
pub proof fn law_thoughts_are_cut_off(a: Seq<char>, b: Seq<char>)
    requires
        forall|i: int| !#[trigger] occurs_at(b, "</think>"@, i),
        forall|i: int|
            a.len() < i ==> !#[trigger] occurs_at(a + "</think>"@ + b, "</think>"@, i),
    ensures
        sanitized(a + "</think>"@ + b) == sanitized(b),
{
    reveal_strlit("</think>");
    let end = "</think>"@;
    let s = a + end + b;
    crate::text::lemma_rfind_from(s, end, s.len() - end.len());
    crate::text::lemma_rfind_from(b, end, b.len() - end.len());
    assert(s.subrange(a.len() as int, a.len() as int + end.len()) =~= end);
    assert(occurs_at(s, end, a.len() as int));
    let k = crate::text::rfind(s, end)->0;
    assert(occurs_at(s, end, k));
    assert(k == a.len());
    assert(s.skip(k + end.len()) =~= b);
    if let Some(i) = crate::text::rfind(b, end) {
        assert(occurs_at(b, end, i));
    }
}

/// Of a text into which anything leaks, the answer is what stands before the first leak.
pub proof fn law_leaks_are_cut_off(s: Seq<char>, k: int)
    requires
        !contains(s, "</think>"@),
        0 <= k,
        occurs_at(s, "<tool_call>"@, k) || occurs_at(s, "<function="@, k) || occurs_at(
            s,
            "<|tool_call"@,
            k,
        ) || occurs_at(s, "<think>"@, k),
        forall|i: int|
            0 <= i < k ==> !#[trigger] occurs_at(s, "<tool_call>"@, i) && !occurs_at(
                s,
                "<function="@,
                i,
            ) && !occurs_at(s, "<|tool_call"@, i) && !occurs_at(s, "<think>"@, i),
    ensures
        sanitized(s) == trim(s.take(k)),
{
    reveal_strlit("</think>");
    crate::text::lemma_rfind_from(s, "</think>"@, s.len() - "</think>"@.len());
    crate::text::lemma_find_from(s, "</think>"@, 0);
    if let Some(i) = crate::text::rfind(s, "</think>"@) {
        assert(occurs_at(s, "</think>"@, i));
    }
    assert(past_thoughts(s) == s);
    crate::text::lemma_find_from(s, "<tool_call>"@, 0);
    crate::text::lemma_find_from(s, "<function="@, 0);
    crate::text::lemma_find_from(s, "<|tool_call"@, 0);
    crate::text::lemma_find_from(s, "<think>"@, 0);
    if let Some(i) = leak(s) {
        assert(i >= k) by {
            if i < k {
                assert(!occurs_at(s, "<tool_call>"@, i));
            }
        }
    }
}

/// Broken transports and server errors are tried again, and too many requests where a request
/// is passed on; no other status is.
pub proof fn law_what_is_tried_again(e: ProxyError, patience: Patience)
    ensures
        match e {
            ProxyError::UpstreamStatus { status, .. } => {
                &&& 500 <= status <= 599 ==> may_pass(e, patience)
                &&& status == 429 ==> may_pass(e, patience) == (patience == Patience::Client)
                &&& status < 500 && status != 429 ==> !may_pass(e, patience)
                &&& status > 599 ==> !may_pass(e, patience)
            },
            _ => may_pass(e, patience),
        },
{
}

/// A browsing tool is handed to the model as a function that it can call: with the argument
/// that is read of its calls, and required. Any other tool is as it was.
pub proof fn law_browsing_tools_can_be_called(before: Tool, after: Tool)
    requires
        rewritten(before, after),
    ensures
        ({
            let ty = before.tool_type->0@;
            let searches = before.tool_type is Some && crate::text::starts_with(ty, "web_search"@);
            let fetches = before.tool_type is Some && crate::text::starts_with(ty, "web_fetch"@);
            let schema = after.input_schema@;
            let key = if searches {
                "query"@
            } else {
                "url"@
            };
            &&& !searches && !fetches ==> after == before
            &&& searches ==> after.name@ == "web_search"@
            &&& fetches && !searches ==> after.name@ == "web_fetch"@
            &&& searches || fetches ==> {
                &&& after.tool_type is None
                &&& after.description is Some
                &&& schema.str_at("type"@) == Some("object"@)
                &&& schema.get("properties"@) matches Some(p) && (p.get(key) matches Some(a)
                    && a.str_at("type"@) == Some("string"@))
                &&& schema.get("required"@) matches Some(JsonV::Array(r)) && r == seq![
                    JsonV::String(key),
                ]
            }
        }),
{
    lemma_schema_keys();
}

} // verus!
