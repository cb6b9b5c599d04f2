//! A whole request, from the client's form to the upstream's.
use crate::config::effort::effort_for;
use crate::config::lists::map_texts;
use crate::config::Config;
use crate::error::ProxyResult;
use crate::json::{Json, JsonV};
use crate::models::openai::{
    messages_view, opt_json_view, opt_tools_view, plain_message, tools_view, MessageV, RequestV,
    ToolV,
};
use crate::models::{anthropic, openai};
use crate::text::{join, join_texts, opt_text, texts};
use crate::translate::messages::{translate_message, translated};
use crate::translate::routing::{clean_prompt, cleaned, pick_model, routed};
use crate::translate::tools::{
    choice_translated, is_batch_tool, parallel_allowed, tool_translated, translate_tool,
    translate_tool_choice,
};
use vstd::prelude::*;

verus! {

/// What a request says beside its model, prompt, messages and tools.
pub struct Options {
    pub stream: bool,
    pub tool_choice: Option<Json>,
    /// The budget of extended thinking, where that is asked for.
    pub thinking: Option<u32>,
}

/// A system prompt as one text.
pub open spec fn prompt_text(system: anthropic::SystemPrompt) -> Seq<char> {
    match system {
        anthropic::SystemPrompt::Single(t) => t@,
        anthropic::SystemPrompt::Multiple(v) => join(
            Seq::new(v@.len(), |i: int| v@[i].text@),
            "\n\n"@,
        ),
    }
}

/// The message of a system prompt, without the terms that are not to be sent.
pub open spec fn prompt_messages(
    system: Option<anthropic::SystemPrompt>,
    terms: Seq<Seq<char>>,
) -> Seq<MessageV> {
    match system {
        Some(s) => seq![plain_message("system"@, cleaned(prompt_text(s), terms))],
        None => seq![],
    }
}

/// The messages that some messages become.
pub open spec fn all_translated(ms: Seq<anthropic::Message>) -> Seq<MessageV>
    decreases ms.len(),
{
    if ms.len() == 0 {
        seq![]
    } else {
        all_translated(ms.drop_last()) + translated(ms.last())
    }
}

/// The functions that some tools become: batch tools are left out.
pub open spec fn functions(ts: Seq<anthropic::Tool>) -> Seq<ToolV>
    decreases ts.len(),
{
    if ts.len() == 0 {
        seq![]
    } else {
        let head = functions(ts.drop_last());
        if opt_text(ts.last().tool_type) == Some("BatchTool"@) {
            head
        } else {
            head.push(tool_translated(ts.last()))
        }
    }
}

/// The tools of a request, where any are left.
pub open spec fn sent_tools(tools: Option<Vec<anthropic::Tool>>) -> Option<Seq<ToolV>> {
    match tools {
        Some(v) => if functions(v@).len() > 0 {
            Some(functions(v@))
        } else {
            None
        },
        None => None,
    }
}

/// The wish that a stream end with its usage.
pub open spec fn usage_wish() -> JsonV {
    JsonV::Object(map!["include_usage"@ => JsonV::Bool(true)])
}

/// The upstream form of a request.
pub open spec fn sent(
    config: Config,
    req: anthropic::AnthropicRequest,
    options: Options,
) -> RequestV {
    RequestV {
        model: routed(
            if options.thinking is Some {
                opt_text(config.reasoning_model)
            } else {
                opt_text(config.completion_model)
            },
            req.model@,
            map_texts(config.model_map@),
        ),
        messages: prompt_messages(req.system, texts(config.system_prompt_ignore_terms@))
            + all_translated(req.messages@),
        max_tokens: Some(req.max_tokens),
        stream: Some(options.stream),
        stream_options: if options.stream {
            Some(usage_wish())
        } else {
            None
        },
        tools: sent_tools(req.tools),
        tool_choice: match options.tool_choice {
            Some(c) => choice_translated(c@),
            None => None,
        },
        parallel_tool_calls: match options.tool_choice {
            Some(c) => parallel_allowed(c@),
            None => None,
        },
        reasoning_effort: match options.thinking {
            Some(budget) => effort_for(config.effort_map@.tiers(req.model@), budget),
            None => None,
        },
    }
}

fn prompt(system: &anthropic::SystemPrompt) -> (r: String)
    ensures
        r@ == prompt_text(*system),
{
    let blocks = match system {
        anthropic::SystemPrompt::Single(t) => {
            return t.clone();
        },
        anthropic::SystemPrompt::Multiple(v) => v,
    };
    let mut parts: Vec<String> = Vec::new();
    let n: usize = blocks.len();
    let mut i: usize = 0;
    while i < n
        invariant
            n == blocks@.len(),
            i <= n,
            parts@.len() == i,
            forall|k: int| 0 <= k < i ==> (#[trigger] parts@[k])@ == blocks@[k].text@,
        decreases n - i,
    {
        parts.push(blocks[i].text.clone());
        i += 1;
    }
    assert(texts(parts@) =~= Seq::new(blocks@.len(), |i: int| blocks@[i].text@));
    join_texts(parts.as_slice(), "\n\n")
}

fn all_functions(tools: Option<Vec<anthropic::Tool>>) -> (r: Option<Vec<openai::Tool>>)
    ensures
        opt_tools_view(r) == sent_tools(tools),
{
    let tools = match tools {
        Some(v) => v,
        None => {
            return None;
        },
    };
    let ghost all = tools@;
    let mut out: Vec<openai::Tool> = Vec::new();
    proof {
        assert(all.take(0) =~= Seq::<anthropic::Tool>::empty());
        assert(tools_view(out@) =~= Seq::<ToolV>::empty());
    }
    for t in it: tools
        invariant
            it.seq() == all,
            tools_view(out@) == functions(all.take(it.index())),
    {
        proof {
            assert(all.take(it.index() + 1).drop_last() =~= all.take(it.index()));
            assert(all.take(it.index() + 1).last() == t);
        }
        if !is_batch_tool(&t) {
            let ghost before = out@;
            let tool = translate_tool(t);
            let ghost v = tool@;
            out.push(tool);
            assert(tools_view(out@) =~= tools_view(before).push(v));
        }
    }
    assert(all.take(all.len() as int) =~= all);
    assert(tools_view(out@).len() == out@.len());
    if out.len() > 0 {
        Some(out)
    } else {
        None
    }
}

/// The upstream form of a request. No request is refused.
pub fn translate_request(
    config: &Config,
    req: anthropic::AnthropicRequest,
    options: &Options,
) -> (r: ProxyResult<openai::OpenAIRequest>)
    ensures
        r is Ok,
        r->Ok_0@ == sent(*config, req, *options),
{
    let model = pick_model(config, req.model.as_str(), options.thinking.is_some());
    let reasoning_effort = match options.thinking {
        Some(budget) => config.effort_map.resolve(req.model.as_str(), budget),
        None => None,
    };
    let mut messages: Vec<openai::Message> = Vec::new();
    if let Some(system) = &req.system {
        let text = prompt(system);
        let text = clean_prompt(text.as_str(), &config.system_prompt_ignore_terms);
        messages.push(openai::Message::plain("system", text.as_str()));
    }
    let ghost head = messages_view(messages@);
    proof {
        assert(head =~= prompt_messages(req.system, texts(config.system_prompt_ignore_terms@)));
    }
    let ghost all = req.messages@;
    proof {
        assert(all.take(0) =~= Seq::<anthropic::Message>::empty());
        assert(head + all_translated(all.take(0)) =~= head);
    }
    for m in it: req.messages
        invariant
            it.seq() == all,
            messages_view(messages@) == head + all_translated(all.take(it.index())),
    {
        proof {
            assert(all.take(it.index() + 1).drop_last() =~= all.take(it.index()));
            assert(all.take(it.index() + 1).last() == m);
        }
        let ghost before = messages@;
        let mut more = match translate_message(m) {
            Ok(v) => v,
            Err(e) => {
                return Err(e);
            },
        };
        let ghost added = more@;
        messages.append(&mut more);
        proof {
            assert(messages_view(messages@) =~= messages_view(before) + messages_view(added));
            assert(head + all_translated(all.take(it.index())) + messages_view(added) =~= head + (
            all_translated(all.take(it.index())) + messages_view(added)));
        }
    }
    assert(all.take(all.len() as int) =~= all);
    let (tool_choice, parallel_tool_calls) = match &options.tool_choice {
        Some(choice) => translate_tool_choice(choice),
        None => (None, None),
    };
    let stream_options = if options.stream {
        Some(Json::empty_object().with("include_usage", Json::Bool(true)))
    } else {
        None
    };
    assert(opt_json_view(stream_options) == (if options.stream {
        Some(usage_wish())
    } else {
        None
    }));
    Ok(
        openai::OpenAIRequest {
            model,
            messages,
            max_tokens: Some(req.max_tokens),
            stream: Some(options.stream),
            stream_options,
            tools: all_functions(req.tools),
            tool_choice,
            parallel_tool_calls,
            reasoning_effort,
        },
    )
}

/// A request is sent whole: the prompt first, without the terms that are not to be sent, then
/// the conversation; with the client's limit and its wish for a stream, which then ends with
/// its usage; and with an effort only where thinking is asked for.
pub proof fn law_request_is_sent_whole(
    config: Config,
    req: anthropic::AnthropicRequest,
    options: Options,
)
    ensures
        ({
            let q = sent(config, req, options);
            let terms = texts(config.system_prompt_ignore_terms@);
            &&& q.max_tokens == Some(req.max_tokens)
            &&& q.stream == Some(options.stream)
            &&& options.stream ==> (q.stream_options matches Some(o) && o.bool_at("include_usage"@)
                == Some(true))
            &&& !options.stream ==> q.stream_options is None
            &&& req.system is None ==> q.messages == all_translated(req.messages@)
            &&& req.system matches Some(p) ==> {
                &&& q.messages.len() == 1 + all_translated(req.messages@).len()
                &&& q.messages[0].role == "system"@
                &&& q.messages[0].content == Some(
                    openai::ContentV::Text(cleaned(prompt_text(p), terms)),
                )
                &&& q.messages.skip(1) == all_translated(req.messages@)
            }
            &&& q.tools == sent_tools(req.tools)
            &&& options.tool_choice is None ==> q.tool_choice is None && q.parallel_tool_calls is None
            &&& options.tool_choice matches Some(c) ==> q.tool_choice == choice_translated(c@)
                && q.parallel_tool_calls == parallel_allowed(c@)
            &&& options.thinking is None ==> q.reasoning_effort is None && q.model == routed(
                opt_text(config.completion_model),
                req.model@,
                map_texts(config.model_map@),
            )
            &&& options.thinking matches Some(budget) ==> q.reasoning_effort == effort_for(
                config.effort_map@.tiers(req.model@),
                budget,
            ) && q.model == routed(
                opt_text(config.reasoning_model),
                req.model@,
                map_texts(config.model_map@),
            )
        }),
{
    let q = sent(config, req, options);
    if req.system is Some {
        assert(q.messages.skip(1) =~= all_translated(req.messages@));
    } else {
        assert(q.messages =~= all_translated(req.messages@));
    }
}

} // verus!
