//! Messages, tools, schemas and limits, from one API's form to the other's.
use crate::error::ProxyResult;
use crate::json::json_text;
use crate::models::openai::{
    calls_view, messages_view, parts_view, plain_message, ContentV, MessageV, PartV, ToolCallV,
};
use crate::models::{anthropic, openai};
use crate::text::{join, join_texts, same, texts};
use vstd::prelude::*;

verus! {

/// The Anthropic stop reason of an upstream finish reason.
pub open spec fn stop_reason(reason: Seq<char>) -> Seq<char> {
    if reason == "tool_calls"@ {
        "tool_use"@
    } else if reason == "length"@ {
        "max_tokens"@
    } else if reason == "content_filter"@ {
        "refusal"@
    } else {
        "end_turn"@
    }
}

/// The Anthropic stop reason of an upstream finish reason, if there is one.
pub fn map_stop_reason(finish_reason: Option<&str>) -> (r: Option<String>)
    ensures
        r is Some <==> finish_reason is Some,
        finish_reason is Some ==> r->0@ == stop_reason(finish_reason->0@),
{
    match finish_reason {
        None => None,
        Some(reason) => {
            let mapped = if same(reason, "tool_calls") {
                "tool_use"
            } else if same(reason, "stop") {
                proof {
                    reveal_strlit("stop");
                    reveal_strlit("tool_calls");
                    reveal_strlit("length");
                    reveal_strlit("content_filter");
                    assert("stop"@[0] != "length"@[0]);
                    assert("stop"@[0] != "content_filter"@[0]);
                }
                "end_turn"
            } else if same(reason, "length") {
                "max_tokens"
            } else if same(reason, "content_filter") {
                "refusal"
            } else {
                "end_turn"
            };
            Some(mapped.to_string())
        },
    }
}

/// The prompt tokens that were not cached, and the cached ones where they were reported.
pub open spec fn prompt_split(usage: openai::Usage) -> (u32, Option<u32>) {
    match usage.prompt_tokens_details {
        Some(details) => (
            if details.cached_tokens <= usage.prompt_tokens {
                (usage.prompt_tokens - details.cached_tokens) as u32
            } else {
                0
            },
            Some(details.cached_tokens),
        ),
        None => (usage.prompt_tokens, None),
    }
}

/// Splits the upstream's prompt tokens into the client's input and cache-read tokens.
///
/// The upstream counts cached tokens among the prompt tokens and reports the cached part
/// beside them; the client wants the two apart. The cache figure is `None` where the
/// upstream did not report it.
pub fn split_prompt_tokens(usage: &openai::Usage) -> (r: (u32, Option<u32>))
    ensures
        r == prompt_split(*usage),
{
    match usage.prompt_tokens_details {
        Some(details) => {
            let rest: u32 = if details.cached_tokens <= usage.prompt_tokens {
                usage.prompt_tokens - details.cached_tokens
            } else {
                0
            };
            (rest, Some(details.cached_tokens))
        },
        None => (usage.prompt_tokens, None),
    }
}

/// No prompt token is counted twice or lost: where the upstream's cached part is no larger
/// than the whole, the two parts add up to it.
pub proof fn law_prompt_split_adds_up(usage: openai::Usage)
    requires
        usage.prompt_tokens_details is Some ==> usage.prompt_tokens_details->0.cached_tokens
            <= usage.prompt_tokens,
    ensures
        prompt_split(usage).0 + (match prompt_split(usage).1 {
            Some(n) => n as int,
            None => 0,
        }) == usage.prompt_tokens,
{
}

// ---------------------------------------------------------------------------
// Messages
// ---------------------------------------------------------------------------
/// What `pick` gives of each block that it picks, in order.
pub open spec fn picked<A>(
    blocks: Seq<anthropic::ContentBlock>,
    pick: spec_fn(anthropic::ContentBlock) -> Option<A>,
) -> Seq<A>
    decreases blocks.len(),
{
    if blocks.len() == 0 {
        seq![]
    } else {
        let head = picked(blocks.drop_last(), pick);
        match pick(blocks.last()) {
            Some(a) => head.push(a),
            None => head,
        }
    }
}

/// The text of a text block.
pub open spec fn block_text() -> spec_fn(anthropic::ContentBlock) -> Option<Seq<char>> {
    |b: anthropic::ContentBlock|
        match b {
            anthropic::ContentBlock::Text { text, .. } => Some(text@),
            _ => None,
        }
}

/// The message part of a text or image block.
pub open spec fn block_part() -> spec_fn(anthropic::ContentBlock) -> Option<PartV> {
    |b: anthropic::ContentBlock|
        match b {
            anthropic::ContentBlock::Text { text, .. } => Some(PartV::Text(text@)),
            anthropic::ContentBlock::Image { source } => Some(
                PartV::ImageUrl("data:"@ + source.media_type@ + ";base64,"@ + source.data@),
            ),
            _ => None,
        }
}

/// The tool call of a tool-use block: its input as JSON text.
pub open spec fn block_call() -> spec_fn(anthropic::ContentBlock) -> Option<ToolCallV> {
    |b: anthropic::ContentBlock|
        match b {
            anthropic::ContentBlock::ToolUse { id, name, input } => Some(
                ToolCallV {
                    id: id@,
                    call_type: "function"@,
                    name: name@,
                    arguments: json_text(input@),
                },
            ),
            _ => None,
        }
}

/// The thoughts of a thinking block that has any.
pub open spec fn block_thought() -> spec_fn(anthropic::ContentBlock) -> Option<Seq<char>> {
    |b: anthropic::ContentBlock|
        match b {
            anthropic::ContentBlock::Thinking { thinking } => if thinking@.len() > 0 {
                Some(thinking@)
            } else {
                None
            },
            _ => None,
        }
}

/// What a tool gave back, as one text: of several blocks, the text ones, one per line.
pub open spec fn result_text(c: anthropic::ToolResultContent) -> Seq<char> {
    match c {
        anthropic::ToolResultContent::Text(t) => t@,
        anthropic::ToolResultContent::Blocks(v) => join(picked(v@, block_text()), "\n"@),
    }
}

/// The message that answers a tool call.
pub open spec fn tool_message(id: Seq<char>, text: Seq<char>) -> MessageV {
    MessageV { tool_call_id: Some(id), ..plain_message("tool"@, text) }
}

/// The message of a tool-result block.
pub open spec fn block_result() -> spec_fn(anthropic::ContentBlock) -> Option<MessageV> {
    |b: anthropic::ContentBlock|
        match b {
            anthropic::ContentBlock::ToolResult { tool_use_id, content, .. } => Some(
                tool_message(tool_use_id@, result_text(content)),
            ),
            _ => None,
        }
}

/// The body made of some parts: a lone text collapses to a plain string.
pub open spec fn body_of(parts: Seq<PartV>) -> Option<ContentV> {
    if parts.len() == 0 {
        None
    } else if parts.len() == 1 && parts[0] is Text {
        Some(ContentV::Text(parts[0]->Text_0))
    } else {
        Some(ContentV::Parts(parts))
    }
}

/// The message of everything but tool results, where there is anything.
pub open spec fn spoken(
    role: Seq<char>,
    parts: Seq<PartV>,
    thoughts: Seq<Seq<char>>,
    calls: Seq<ToolCallV>,
) -> Seq<MessageV> {
    if parts.len() == 0 && thoughts.len() == 0 && calls.len() == 0 {
        seq![]
    } else {
        seq![
            MessageV {
                role,
                content: body_of(parts),
                reasoning_content: if thoughts.len() == 0 {
                    None
                } else {
                    Some(join(thoughts, ""@))
                },
                tool_calls: if calls.len() == 0 {
                    None
                } else {
                    Some(calls)
                },
                tool_call_id: None,
                name: None,
            },
        ]
    }
}

/// The messages that a message becomes: its tool results, each as a message of its own,
/// and then the rest in one.
pub open spec fn translated(msg: anthropic::Message) -> Seq<MessageV> {
    match msg.content {
        anthropic::MessageContent::Text(text) => seq![plain_message(msg.role@, text@)],
        anthropic::MessageContent::Blocks(v) => picked(v@, block_result()) + spoken(
            msg.role@,
            picked(v@, block_part()),
            picked(v@, block_thought()),
            picked(v@, block_call()),
        ),
    }
}

proof fn lemma_picked<A>(
    blocks: Seq<anthropic::ContentBlock>,
    pick: spec_fn(anthropic::ContentBlock) -> Option<A>,
    i: int,
)
    requires
        0 <= i < blocks.len(),
    ensures
        pick(blocks[i]) matches Some(a) ==> picked(blocks, pick).contains(a),
    decreases blocks.len(),
{
    if let Some(a) = pick(blocks[i]) {
        let head = picked(blocks.drop_last(), pick);
        if i < blocks.len() - 1 {
            lemma_picked(blocks.drop_last(), pick, i);
            let k = choose|k: int| 0 <= k < head.len() && head[k] == a;
            assert(picked(blocks, pick)[k] == a);
        } else {
            assert(picked(blocks, pick)[head.len() as int] == a);
        }
    }
}

/// Every tool result of a message is sent on, as an answer to the call that it names.
pub proof fn law_results_are_sent(msg: anthropic::Message, i: int)
    requires
        msg.content is Blocks,
        0 <= i < msg.content->Blocks_0@.len(),
    ensures
        msg.content->Blocks_0@[i] matches anthropic::ContentBlock::ToolResult {
            tool_use_id,
            content,
            ..
        } ==> translated(msg).contains(tool_message(tool_use_id@, result_text(content))),
{
    let blocks = msg.content->Blocks_0@;
    lemma_picked(blocks, block_result(), i);
    let results = picked(blocks, block_result());
    if let Some(m) = block_result()(blocks[i]) {
        let k = choose|k: int| 0 <= k < results.len() && results[k] == m;
        assert(translated(msg)[k] == m);
    }
}

/// Every tool use of a message is sent on, in its last message and under its own identifier.
pub proof fn law_calls_are_sent(msg: anthropic::Message, i: int)
    requires
        msg.content is Blocks,
        0 <= i < msg.content->Blocks_0@.len(),
        msg.content->Blocks_0@[i] is ToolUse,
    ensures
        translated(msg).len() > 0,
        translated(msg).last().role == msg.role@,
        translated(msg).last().tool_calls matches Some(calls) && calls.contains(
            block_call()(msg.content->Blocks_0@[i])->0,
        ),
{
    let blocks = msg.content->Blocks_0@;
    lemma_picked(blocks, block_call(), i);
    let calls = picked(blocks, block_call());
    assert(calls.len() > 0);
}

/// The texts of the text blocks.
pub fn text_blocks(blocks: &Vec<anthropic::ContentBlock>) -> (r: Vec<String>)
    ensures
        texts(r@) == picked(blocks@, block_text()),
{
    let mut out: Vec<String> = Vec::new();
    let n: usize = blocks.len();
    let mut i: usize = 0;
    assert(texts(out@) =~= picked(blocks@.take(0), block_text()));
    while i < n
        invariant
            n == blocks@.len(),
            i <= n,
            texts(out@) == picked(blocks@.take(i as int), block_text()),
        decreases n - i,
    {
        assert(blocks@.take(i as int + 1).drop_last() =~= blocks@.take(i as int));
        let ghost before = out@;
        if let anthropic::ContentBlock::Text { text, .. } = &blocks[i] {
            out.push(text.clone());
            assert(texts(out@) =~= texts(before).push(text@));
        }
        i += 1;
    }
    assert(blocks@.take(n as int) =~= blocks@);
    out
}

/// What a tool gave back, as one text.
pub(crate) fn tool_result_text(content: &anthropic::ToolResultContent) -> (r: String)
    ensures
        r@ == result_text(*content),
{
    match content {
        anthropic::ToolResultContent::Text(s) => s.clone(),
        anthropic::ToolResultContent::Blocks(blocks) => {
            let lines = text_blocks(blocks);
            join_texts(lines.as_slice(), "\n")
        },
    }
}

/// The `data:` URL of an image.
fn data_url(source: &anthropic::ImageSource) -> (r: String)
    ensures
        r@ == "data:"@ + source.media_type@ + ";base64,"@ + source.data@,
{
    let mut url = "data:".to_string();
    url.append(source.media_type.as_str());
    url.append(";base64,");
    url.append(source.data.as_str());
    url
}

/// The message of everything but tool results, where there is anything.
fn spoken_message(
    role: String,
    parts: Vec<openai::ContentPart>,
    thoughts: Vec<String>,
    calls: Vec<openai::ToolCall>,
) -> (r: Option<openai::Message>)
    ensures
        (match r {
            Some(m) => seq![m@],
            None => seq![],
        }) == spoken(role@, parts_view(parts@), texts(thoughts@), calls_view(calls@)),
{
    if parts.len() == 0 && thoughts.len() == 0 && calls.len() == 0 {
        return None;
    }
    let ghost views = parts_view(parts@);
    let content = if parts.len() == 0 {
        None
    } else if parts.len() == 1 {
        match &parts[0] {
            openai::ContentPart::Text { text } => Some(openai::MessageContent::Text(text.clone())),
            _ => Some(openai::MessageContent::Parts(parts)),
        }
    } else {
        Some(openai::MessageContent::Parts(parts))
    };
    assert(openai::opt_content_view(content) == body_of(views));
    let reasoning_content = if thoughts.len() == 0 {
        None
    } else {
        Some(join_texts(thoughts.as_slice(), ""))
    };
    let tool_calls = if calls.len() == 0 {
        None
    } else {
        Some(calls)
    };
    Some(
        openai::Message {
            role,
            content,
            reasoning_content,
            tool_calls,
            tool_call_id: None,
            name: None,
        },
    )
}

/// The upstream messages of a client message. A message with tool results becomes several.
/// No message is refused: a tool input can always be written as JSON text.
pub fn translate_message(msg: anthropic::Message) -> (r: ProxyResult<Vec<openai::Message>>)
    ensures
        r is Ok,
        messages_view(r->Ok_0@) == translated(msg),
{
    let mut result: Vec<openai::Message> = Vec::new();
    match &msg.content {
        anthropic::MessageContent::Text(text) => {
            result.push(openai::Message::plain(msg.role.as_str(), text.as_str()));
            assert(messages_view(result@) =~= translated(msg));
        },
        anthropic::MessageContent::Blocks(blocks) => {
            let mut parts: Vec<openai::ContentPart> = Vec::new();
            let mut thoughts: Vec<String> = Vec::new();
            let mut calls: Vec<openai::ToolCall> = Vec::new();
            let n: usize = blocks.len();
            let mut i: usize = 0;
            proof {
                let none = blocks@.take(0);
                assert(messages_view(result@) =~= picked(none, block_result()));
                assert(parts_view(parts@) =~= picked(none, block_part()));
                assert(texts(thoughts@) =~= picked(none, block_thought()));
                assert(calls_view(calls@) =~= picked(none, block_call()));
            }
            while i < n
                invariant
                    n == blocks@.len(),
                    i <= n,
                    messages_view(result@) == picked(blocks@.take(i as int), block_result()),
                    parts_view(parts@) == picked(blocks@.take(i as int), block_part()),
                    texts(thoughts@) == picked(blocks@.take(i as int), block_thought()),
                    calls_view(calls@) == picked(blocks@.take(i as int), block_call()),
                decreases n - i,
            {
                assert(blocks@.take(i as int + 1).drop_last() =~= blocks@.take(i as int));
                let ghost (m0, p0, t0, c0) = (result@, parts@, thoughts@, calls@);
                match &blocks[i] {
                    anthropic::ContentBlock::Text { text, .. } => {
                        parts.push(openai::ContentPart::Text { text: text.clone() });
                        assert(parts_view(parts@) =~= parts_view(p0).push(PartV::Text(text@)));
                    },
                    anthropic::ContentBlock::Image { source } => {
                        let url = data_url(source);
                        let ghost u = url@;
                        parts.push(
                            openai::ContentPart::ImageUrl { image_url: openai::ImageUrl { url } },
                        );
                        assert(parts_view(parts@) =~= parts_view(p0).push(PartV::ImageUrl(u)));
                    },
                    anthropic::ContentBlock::ToolUse { id, name, input } => {
                        let function = openai::FunctionCall {
                            name: name.clone(),
                            arguments: input.to_text(),
                        };
                        let call = openai::ToolCall {
                            id: id.clone(),
                            call_type: "function".to_string(),
                            function,
                        };
                        let ghost c = call@;
                        calls.push(call);
                        assert(calls_view(calls@) =~= calls_view(c0).push(c));
                    },
                    anthropic::ContentBlock::ToolResult { tool_use_id, content, .. } => {
                        let text = tool_result_text(content);
                        let mut message = openai::Message::plain("tool", text.as_str());
                        message.tool_call_id = Some(tool_use_id.clone());
                        let ghost m = message@;
                        result.push(message);
                        assert(messages_view(result@) =~= messages_view(m0).push(m));
                    },
                    anthropic::ContentBlock::Thinking { thinking } => {
                        if !thinking.as_str().is_empty() {
                            thoughts.push(thinking.clone());
                            assert(texts(thoughts@) =~= texts(t0).push(thinking@));
                        }
                    },
                }
                i += 1;
            }
            assert(blocks@.take(n as int) =~= blocks@);
            let ghost m0 = result@;
            let rest = spoken_message(msg.role.clone(), parts, thoughts, calls);
            if let Some(message) = rest {
                let ghost m = message@;
                result.push(message);
                assert(messages_view(result@) =~= messages_view(m0) + seq![m]);
            } else {
                assert(messages_view(result@) =~= messages_view(m0) + seq![]);
            }
        },
    }
    Ok(result)
}

} // verus!
