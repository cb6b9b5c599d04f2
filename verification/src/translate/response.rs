//! A whole answer, from the upstream's form to the client's.
use crate::error::{ProxyError, ProxyResult};
use crate::json::{int_value, json_parse, json_seq, lemma_view_parts, Json, JsonV};
use crate::keys::{lemma_block_keys, lemma_message_keys, lemma_models_keys, lemma_usage_keys};
use crate::models::openai;
use crate::models::openai::calls_view;
use crate::skills::agent::{client_blocks, said_blocks, thinking_blocks};
use crate::text::{opt_text, text_is_blank, texts, trim};
use crate::translate::blocks::{make_text_block, make_use_block};
use crate::translate::messages::{map_stop_reason, prompt_split, split_prompt_tokens, stop_reason};
use crate::translate::websearch_agent::{answer_calls, parse_args};
use crate::websearch::list_at;
use vstd::prelude::*;

verus! {

/// The blocks of an answer: its thoughts, its text, and its tool calls.
pub open spec fn answer_blocks(m: openai::ResponseMessage) -> Seq<JsonV> {
    thinking_blocks(opt_text(m.reasoning_content)) + said_blocks(opt_text(m.content))
        + client_blocks(answer_calls(m))
}

/// The token counts of an answer.
pub open spec fn usage_value(usage: openai::Usage) -> JsonV {
    let counts = map![
        "input_tokens"@ => int_value(prompt_split(usage).0 as u64),
        "output_tokens"@ => int_value(usage.completion_tokens as u64),
    ];
    JsonV::Object(
        match prompt_split(usage).1 {
            Some(cached) => counts.insert("cache_read_input_tokens"@, int_value(cached as u64)),
            None => counts,
        },
    )
}

/// The message of an answer's first choice.
pub open spec fn message_of(
    id: Seq<char>,
    requested: Seq<char>,
    resp: openai::OpenAIResponse,
) -> JsonV {
    JsonV::Object(
        map![
            "id"@ => JsonV::String(id),
            "type"@ => JsonV::String("message"@),
            "role"@ => JsonV::String("assistant"@),
            "model"@ => JsonV::String(
                match resp.model {
                    Some(m) => m@,
                    None => requested,
                },
            ),
            "content"@ => JsonV::Array(answer_blocks(resp.choices@[0].message)),
            "stop_reason"@ => (match resp.choices@[0].finish_reason {
                Some(reason) => JsonV::String(stop_reason(reason@)),
                None => JsonV::Null,
            }),
            "stop_sequence"@ => JsonV::Null,
            "usage"@ => usage_value(resp.usage),
        ],
    )
}

fn blocks_of(m: &openai::ResponseMessage) -> (r: Vec<Json>)
    ensures
        json_seq(r@) == answer_blocks(*m),
{
    let mut out: Vec<Json> = Vec::new();
    let ghost thoughts = thinking_blocks(opt_text(m.reasoning_content));
    let ghost said = said_blocks(opt_text(m.content));
    if let Some(t) = &m.reasoning_content {
        if !t.as_str().is_empty() {
            out.push(
                Json::empty_object().with("type", Json::text("thinking")).with(
                    "thinking",
                    Json::text(t.as_str()),
                ),
            );
        }
    }
    assert(json_seq(out@) =~= thoughts);
    let ghost before = out@;
    if let Some(t) = &m.content {
        if !text_is_blank(t.as_str()) {
            out.push(make_text_block(t.as_str()));
        }
    }
    assert(json_seq(out@) =~= json_seq(before) + said);
    if let Some(calls) = &m.tool_calls {
        let ghost head = out@;
        let ghost all = calls_view(calls@);
        let n: usize = calls.len();
        let mut i: usize = 0;
        while i < n
            invariant
                n == calls@.len(),
                i <= n,
                all == calls_view(calls@),
                out@.len() == head.len() + i,
                forall|k: int| 0 <= k < head.len() ==> (#[trigger] out@[k]) == head[k],
                forall|k: int|
                    head.len() <= k < out@.len() ==> (#[trigger] out@[k]).view() == client_blocks(
                        all,
                    )[k - head.len()],
            decreases n - i,
        {
            let call = &calls[i];
            let input = parse_args(call.function.arguments.as_str());
            out.push(
                make_use_block(
                    "tool_use",
                    call.id.as_str(),
                    call.function.name.as_str(),
                    input,
                ),
            );
            i += 1;
        }
        assert(json_seq(out@) =~= json_seq(head) + client_blocks(all));
    }
    assert(json_seq(out@) =~= answer_blocks(*m));
    out
}

fn usage_of(usage: &openai::Usage) -> (r: Json)
    ensures
        r@ == usage_value(*usage),
{
    let (input, cached) = split_prompt_tokens(usage);
    let counts = Json::empty_object().with("input_tokens", Json::whole(input as u64)).with(
        "output_tokens",
        Json::whole(usage.completion_tokens as u64),
    );
    match cached {
        Some(n) => counts.with("cache_read_input_tokens", Json::whole(n as u64)),
        None => counts,
    }
}

/// The message that a client without a stream receives for an answer; an answer without any
/// choice is a failure of the upstream.
pub fn translate_response(id: &str, requested: &str, resp: &openai::OpenAIResponse) -> (r:
    ProxyResult<Json>)
    ensures
        r is Ok <==> resp.choices@.len() > 0,
        r matches Ok(m) ==> m@ == message_of(id@, requested@, *resp),
        r matches Err(e) ==> (e matches ProxyError::Upstream(t) && t@
            == "upstream returned no choices"@),
{
    if resp.choices.len() == 0 {
        return Err(ProxyError::Upstream("upstream returned no choices".to_string()));
    }
    let choice = &resp.choices[0];
    let model = match &resp.model {
        Some(m) => Json::text(m.as_str()),
        None => Json::text(requested),
    };
    let reason = match &choice.finish_reason {
        Some(t) => match map_stop_reason(Some(t.as_str())) {
            Some(mapped) => Json::text(mapped.as_str()),
            None => Json::Null,
        },
        None => Json::Null,
    };
    Ok(
        Json::empty_object().with("id", Json::text(id)).with("type", Json::text("message")).with(
            "role",
            Json::text("assistant"),
        ).with("model", model).with("content", Json::list(blocks_of(&choice.message))).with(
            "stop_reason",
            reason,
        ).with("stop_sequence", Json::Null).with("usage", usage_of(&resp.usage)),
    )
}

// ---------------------------------------------------------------------------
// Models
// ---------------------------------------------------------------------------
/// The identifiers of listed models, in order.
pub open spec fn model_ids(listed: Seq<JsonV>) -> Seq<Seq<char>>
    decreases listed.len(),
{
    if listed.len() == 0 {
        seq![]
    } else {
        let head = model_ids(listed.drop_last());
        match listed.last().str_at("id"@) {
            Some(id) => head.push(id),
            None => head,
        }
    }
}

/// One model of a list.
pub open spec fn model_value(id: Seq<char>) -> JsonV {
    JsonV::Object(
        map![
            "type"@ => JsonV::String("model"@),
            "id"@ => JsonV::String(id),
            "display_name"@ => JsonV::String(id),
        ],
    )
}

/// A list of models.
pub open spec fn models_value(ids: Seq<Seq<char>>) -> JsonV {
    JsonV::Object(
        map![
            "data"@ => JsonV::Array(Seq::new(ids.len(), |i: int| model_value(ids[i]))),
            "first_id"@ => (if ids.len() > 0 {
                JsonV::String(ids[0])
            } else {
                JsonV::Null
            }),
            "last_id"@ => (if ids.len() > 0 {
                JsonV::String(ids.last())
            } else {
                JsonV::Null
            }),
            "has_more"@ => JsonV::Bool(false),
        ],
    )
}

fn read_ids(listed: &Json) -> (r: Vec<String>)
    ensures
        texts(r@) == model_ids(list_at(listed@, "data"@)),
{
    let mut out: Vec<String> = Vec::new();
    assert(texts(out@) =~= Seq::<Seq<char>>::empty());
    if let Some(Json::Array(vs)) = listed.get("data") {
        let ghost all = json_seq(vs@);
        proof {
            lemma_view_parts(Json::Array(*vs));
        }
        let n: usize = vs.len();
        let mut i: usize = 0;
        assert(all.take(0) =~= Seq::<JsonV>::empty());
        while i < n
            invariant
                n == vs@.len(),
                i <= n,
                all == json_seq(vs@),
                texts(out@) == model_ids(all.take(i as int)),
            decreases n - i,
        {
            assert(all.take(i as int + 1).drop_last() =~= all.take(i as int));
            let ghost before = out@;
            if let Some(id) = vs[i].str_at("id") {
                out.push(id.clone());
                assert(texts(out@) =~= texts(before).push(id@));
            }
            i += 1;
        }
        assert(all.take(n as int) =~= all);
    } else {
        proof {
            lemma_view_parts(*listed);
        }
    }
    out
}

/// The upstream's list of models, as a client reads it.
pub fn translate_models(listed: &Json) -> (r: Json)
    ensures
        r@ == models_value(model_ids(list_at(listed@, "data"@))),
{
    let ids = read_ids(listed);
    let ghost all = texts(ids@);
    let mut data: Vec<Json> = Vec::new();
    let n: usize = ids.len();
    let mut i: usize = 0;
    while i < n
        invariant
            n == ids@.len(),
            i <= n,
            all == texts(ids@),
            data@.len() == i,
            forall|k: int| 0 <= k < i ==> (#[trigger] data@[k]).view() == model_value(all[k]),
        decreases n - i,
    {
        let id = ids[i].as_str();
        data.push(
            Json::empty_object().with("type", Json::text("model")).with("id", Json::text(id)).with(
                "display_name",
                Json::text(id),
            ),
        );
        i += 1;
    }
    assert(json_seq(data@) =~= Seq::new(all.len(), |i: int| model_value(all[i])));
    let (first, last) = if n > 0 {
        (Json::text(ids[0].as_str()), Json::text(ids[n - 1].as_str()))
    } else {
        (Json::Null, Json::Null)
    };
    Json::empty_object().with("data", Json::list(data)).with("first_id", first).with(
        "last_id",
        last,
    ).with("has_more", Json::Bool(false))
}

/// About how many tokens a request of that many bytes has: four bytes make one.
pub fn estimate_tokens(bytes: usize) -> (r: usize)
    ensures
        4 * (r - 1) < bytes <= 4 * r,
{
    if bytes % 4 == 0 {
        bytes / 4
    } else {
        bytes / 4 + 1
    }
}

// ---------------------------------------------------------------------------
// What a client reads
// ---------------------------------------------------------------------------
/// Nothing of an answer is lost: its thoughts where there are any, its text where it says
/// anything, and each of its tool calls, in this order and each as it is.
pub proof fn law_answer_is_shown(m: openai::ResponseMessage)
    ensures
        ({
            let bs = answer_blocks(m);
            let thinks = m.reasoning_content is Some && m.reasoning_content->0@.len() > 0;
            let says = m.content is Some && trim(m.content->0@).len() > 0;
            let t = if thinks {
                1int
            } else {
                0
            };
            let n = t + if says {
                1int
            } else {
                0
            };
            let calls = match m.tool_calls {
                Some(v) => v@,
                None => seq![],
            };
            &&& bs.len() == n + calls.len()
            &&& thinks ==> bs[0].str_at("type"@) == Some("thinking"@) && bs[0].str_at("thinking"@)
                == Some(m.reasoning_content->0@)
            &&& says ==> bs[t].str_at("type"@) == Some("text"@) && bs[t].str_at("text"@) == Some(
                m.content->0@,
            )
            &&& forall|i: int|
                0 <= i < calls.len() ==> {
                    let b = #[trigger] bs[n + i];
                    &&& b.str_at("type"@) == Some("tool_use"@)
                    &&& b.str_at("id"@) == Some(calls[i].id@)
                    &&& b.str_at("name"@) == Some(calls[i].function.name@)
                    &&& b.get("input"@) == Some(
                        match json_parse(calls[i].function.arguments@) {
                            Some(v) => v,
                            None => JsonV::Object(Map::empty()),
                        },
                    )
                }
        }),
{
    lemma_block_keys();
    let bs = answer_blocks(m);
    let head = thinking_blocks(opt_text(m.reasoning_content)) + said_blocks(opt_text(m.content));
    let calls = match m.tool_calls {
        Some(v) => v@,
        None => seq![],
    };
    assert forall|i: int| 0 <= i < calls.len() implies #[trigger] bs[head.len() + i]
        == client_blocks(answer_calls(m))[i] by {}
}

/// A client reads the answer under the identifier that it is given and the model that
/// answered, with all its blocks, why it ended and what it took: an answer that was cut off,
/// refused or that calls tools is never taken for one that is finished.
pub proof fn law_message_tells_the_answer(
    id: Seq<char>,
    requested: Seq<char>,
    resp: openai::OpenAIResponse,
)
    requires
        resp.choices@.len() > 0,
    ensures
        ({
            let m = message_of(id, requested, resp);
            let reason = resp.choices@[0].finish_reason;
            &&& m.str_at("id"@) == Some(id)
            &&& m.str_at("type"@) == Some("message"@)
            &&& m.str_at("role"@) == Some("assistant"@)
            &&& m.str_at("model"@) == Some(
                match resp.model {
                    Some(model) => model@,
                    None => requested,
                },
            )
            &&& m.get("content"@) == Some(JsonV::Array(answer_blocks(resp.choices@[0].message)))
            &&& m.get("stop_sequence"@) == Some(JsonV::Null)
            &&& m.get("usage"@) == Some(usage_value(resp.usage))
            &&& reason is None ==> m.get("stop_reason"@) == Some(JsonV::Null)
            &&& reason matches Some(r) ==> {
                &&& r@ == "tool_calls"@ ==> m.str_at("stop_reason"@) == Some("tool_use"@)
                &&& r@ == "length"@ ==> m.str_at("stop_reason"@) == Some("max_tokens"@)
                &&& r@ == "content_filter"@ ==> m.str_at("stop_reason"@) == Some("refusal"@)
                &&& r@ != "tool_calls"@ && r@ != "length"@ && r@ != "content_filter"@ ==> m.str_at(
                    "stop_reason"@,
                ) == Some("end_turn"@)
            }
        }),
{
    lemma_message_keys();
    reveal_strlit("tool_calls");
    reveal_strlit("length");
    reveal_strlit("content_filter");
    assert("tool_calls"@.len() == 10 && "length"@.len() == 6 && "content_filter"@.len() == 14);
}

/// The tokens that a client is told add up to what the upstream counted: what was read from a
/// cache stands apart, where the upstream said how much that was.
pub proof fn law_usage_tells_the_tokens(usage: openai::Usage)
    ensures
        ({
            let u = usage_value(usage);
            &&& u.get("output_tokens"@) == Some(int_value(usage.completion_tokens as u64))
            &&& match usage.prompt_tokens_details {
                None => u.get("input_tokens"@) == Some(int_value(usage.prompt_tokens as u64))
                    && u.get("cache_read_input_tokens"@) is None,
                Some(d) => {
                    &&& u.get("cache_read_input_tokens"@) == Some(int_value(d.cached_tokens as u64))
                    &&& d.cached_tokens <= usage.prompt_tokens ==> u.get("input_tokens"@) == Some(
                        int_value((usage.prompt_tokens - d.cached_tokens) as u64),
                    )
                    &&& d.cached_tokens > usage.prompt_tokens ==> u.get("input_tokens"@) == Some(
                        int_value(0),
                    )
                },
            }
        }),
{
    lemma_usage_keys();
}

/// The test for a listed model: it has an identifier.
pub open spec fn has_id() -> spec_fn(JsonV) -> bool {
    |v: JsonV| v.get("id"@) matches Some(JsonV::String(_))
}

/// Every model with an identifier is listed, in their order and under it; the first and the
/// last are named, and there are no more.
pub proof fn law_models_are_listed(listed: Seq<JsonV>)
    ensures
        ({
            let kept = listed.filter(has_id());
            let r = models_value(model_ids(listed));
            &&& r.get("has_more"@) == Some(JsonV::Bool(false))
            &&& r.get("data"@) matches Some(JsonV::Array(data)) && data.len() == kept.len()
                && forall|i: int|
                0 <= i < kept.len() ==> (#[trigger] data[i]).get("id"@) == kept[i].get("id"@)
                    && data[i].get("display_name"@) == kept[i].get("id"@) && data[i].str_at("type"@)
                    == Some("model"@)
            &&& kept.len() == 0 ==> r.get("first_id"@) == Some(JsonV::Null) && r.get("last_id"@)
                == Some(JsonV::Null)
            &&& kept.len() > 0 ==> r.get("first_id"@) == kept[0].get("id"@) && r.get("last_id"@)
                == kept.last().get("id"@)
        }),
{
    lemma_models_keys();
    lemma_model_ids(listed);
    let kept = listed.filter(has_id());
    let ids = model_ids(listed);
    assert forall|i: int| 0 <= i < kept.len() implies Some(JsonV::String(ids[i]))
        == (#[trigger] kept[i]).get("id"@) by {}
    if kept.len() > 0 {
        assert(Some(JsonV::String(ids[0])) == kept[0].get("id"@));
        assert(Some(JsonV::String(ids[kept.len() - 1])) == kept[kept.len() - 1].get("id"@));
    }
}

proof fn lemma_model_ids(listed: Seq<JsonV>)
    ensures
        model_ids(listed).len() == listed.filter(has_id()).len(),
        forall|i: int|
            0 <= i < listed.filter(has_id()).len() ==> Some(JsonV::String(model_ids(listed)[i]))
                == (#[trigger] listed.filter(has_id())[i]).get("id"@),
    decreases listed.len(),
{
    reveal(Seq::filter);
    if listed.len() > 0 {
        let rest = listed.drop_last();
        lemma_model_ids(rest);
        assert(has_id()(listed.last()) == (listed.last().str_at("id"@) is Some));
        assert forall|i: int| 0 <= i < listed.filter(has_id()).len() implies Some(
            JsonV::String(model_ids(listed)[i]),
        ) == (#[trigger] listed.filter(has_id())[i]).get("id"@) by {
            if i < rest.filter(has_id()).len() {
                assert(listed.filter(has_id())[i] == rest.filter(has_id())[i]);
            }
        }
    }
}

} // verus!
