//! What an upstream is sent of a client's messages, told block by block.
use crate::json::{json_text, JsonV};
use crate::models::anthropic::{ContentBlock, Message, SystemPrompt, Tool, ToolResultContent};
use crate::models::openai::{ContentV, MessageV, PartV, ToolCallV};
use crate::text::join;
use crate::translate::messages::{
    block_call, block_part, block_result, block_text, block_thought, picked, translated,
};
use crate::translate::request::{all_translated, functions, prompt_text, sent_tools};
use crate::translate::schema::normalized;
use crate::translate::tools::{choice_translated, parallel_allowed, tool_translated};
use vstd::prelude::*;

verus! {

// ---------------------------------------------------------------------------
// Messages
// ---------------------------------------------------------------------------
/// The test for a block that is shown: a text or an image.
pub open spec fn is_shown() -> spec_fn(ContentBlock) -> bool {
    |b: ContentBlock| b is Text || b is Image
}

/// The test for a tool use.
pub open spec fn is_use() -> spec_fn(ContentBlock) -> bool {
    |b: ContentBlock| b is ToolUse
}

/// The test for thoughts.
pub open spec fn is_thought() -> spec_fn(ContentBlock) -> bool {
    |b: ContentBlock| b is Thinking && b->thinking@.len() > 0
}

/// The test for a tool result.
pub open spec fn is_result() -> spec_fn(ContentBlock) -> bool {
    |b: ContentBlock| b is ToolResult
}

/// The test for a text.
pub open spec fn is_text() -> spec_fn(ContentBlock) -> bool {
    |b: ContentBlock| b is Text
}

/// The parts of a message's content, whether it is a plain text, a list or missing.
pub open spec fn parts_in(c: Option<ContentV>) -> Seq<PartV> {
    match c {
        None => seq![],
        Some(ContentV::Text(t)) => seq![PartV::Text(t)],
        Some(ContentV::Parts(ps)) => ps,
    }
}

/// The part tells what the block shows.
pub open spec fn part_tells(p: PartV, b: ContentBlock) -> bool {
    match b {
        ContentBlock::Text { text, .. } => p == PartV::Text(text@),
        ContentBlock::Image { source } => p matches PartV::ImageUrl(url) && url == "data:"@
            + source.media_type@ + ";base64,"@ + source.data@,
        _ => false,
    }
}

/// The call is that of the block.
pub open spec fn call_tells(c: ToolCallV, b: ContentBlock) -> bool {
    b matches ContentBlock::ToolUse { id, name, input } && c.id == id@ && c.name == name@
        && c.call_type == "function"@ && c.arguments == json_text(input@)
}

/// The message answers the call that the block names, with what the tool gave back: its text,
/// or its text blocks, one to a line.
pub open spec fn result_tells(m: MessageV, b: ContentBlock) -> bool {
    b matches ContentBlock::ToolResult { tool_use_id, content, .. } && {
        &&& m.role == "tool"@
        &&& m.tool_call_id == Some(tool_use_id@)
        &&& m.tool_calls is None
        &&& m.reasoning_content is None
        &&& m.content matches Some(ContentV::Text(t)) && match content {
            ToolResultContent::Text(s) => t == s@,
            ToolResultContent::Blocks(v) => t == join(
                Seq::new(v@.filter(is_text()).len(), |i: int| v@.filter(is_text())[i]->text@),
                "\n"@,
            ),
        }
    }
}

proof fn lemma_picked_filter<A>(
    blocks: Seq<ContentBlock>,
    pick: spec_fn(ContentBlock) -> Option<A>,
    p: spec_fn(ContentBlock) -> bool,
)
    requires
        forall|b: ContentBlock| #[trigger] p(b) == (pick(b) is Some),
    ensures
        picked(blocks, pick).len() == blocks.filter(p).len(),
        forall|i: int|
            0 <= i < blocks.filter(p).len() ==> pick(#[trigger] blocks.filter(p)[i]) == Some(
                picked(blocks, pick)[i],
            ),
    decreases blocks.len(),
{
    reveal(Seq::filter);
    if blocks.len() > 0 {
        let rest = blocks.drop_last();
        lemma_picked_filter(rest, pick, p);
        assert(p(blocks.last()) == (pick(blocks.last()) is Some));
        let kept = blocks.filter(p);
        assert forall|i: int| 0 <= i < kept.len() implies pick(#[trigger] kept[i]) == Some(
            picked(blocks, pick)[i],
        ) by {
            if i < rest.filter(p).len() {
                assert(kept[i] == rest.filter(p)[i]);
            }
        }
    }
}

proof fn lemma_join_nothing(v: Seq<Seq<char>>)
    ensures
        join(v, ""@) == v.flatten_alt(),
    decreases v.len(),
{
    reveal_strlit("");
    if v.len() == 1 {
        assert(v.drop_last() =~= Seq::<Seq<char>>::empty());
        assert(v.drop_last().flatten_alt() =~= Seq::<char>::empty());
        assert(v.flatten_alt() =~= v[0]);
    } else if v.len() > 1 {
        lemma_join_nothing(v.drop_last());
        assert(join(v.drop_last(), ""@) + ""@ + v.last() =~= v.drop_last().flatten_alt()
            + v.last());
    }
}

/// Nothing that a message shows is lost, whatever other blocks it has: the message that is
/// sent last holds every text and every image, in their order and as they are, a lone text as
/// a plain one.
pub proof fn law_texts_and_images_are_sent(msg: Message)
    requires
        msg.content is Blocks,
        msg.content->Blocks_0@.filter(is_shown()).len() > 0,
    ensures
        ({
            let shown = msg.content->Blocks_0@.filter(is_shown());
            let parts = parts_in(translated(msg).last().content);
            &&& translated(msg).len() > 0
            &&& translated(msg).last().role == msg.role@
            &&& translated(msg).last().tool_call_id is None
            &&& parts.len() == shown.len()
            &&& forall|i: int|
                0 <= i < shown.len() ==> part_tells(#[trigger] parts[i], shown[i])
            &&& translated(msg).last().content->0 is Text <==> shown.len() == 1 && shown[0] is Text
        }),
{
    let blocks = msg.content->Blocks_0@;
    lemma_picked_filter(blocks, block_part(), is_shown());
    let shown = blocks.filter(is_shown());
    let parts = picked(blocks, block_part());
    assert forall|i: int| 0 <= i < shown.len() implies part_tells(#[trigger] parts[i], shown[i]) by {
        assert(block_part()(shown[i]) == Some(parts[i]));
    }
    assert(parts_in(translated(msg).last().content) =~= parts);
}

/// Every tool use is sent on in that message, in their order; without any there are no calls.
pub proof fn law_tool_uses_are_sent(msg: Message)
    requires
        msg.content is Blocks,
    ensures
        ({
            let uses = msg.content->Blocks_0@.filter(is_use());
            let last = translated(msg).last();
            &&& uses.len() > 0 ==> translated(msg).len() > 0 && last.role == msg.role@
                && last.tool_call_id is None && (last.tool_calls matches Some(calls) && calls.len()
                == uses.len() && forall|i: int|
                0 <= i < uses.len() ==> call_tells(#[trigger] calls[i], uses[i]))
            &&& uses.len() == 0 && translated(msg).len() > 0 ==> last.tool_calls is None
        }),
{
    let blocks = msg.content->Blocks_0@;
    lemma_picked_filter(blocks, block_call(), is_use());
    lemma_picked_filter(blocks, block_result(), is_result());
    let uses = blocks.filter(is_use());
    let calls = picked(blocks, block_call());
    assert forall|i: int| 0 <= i < uses.len() implies call_tells(#[trigger] calls[i], uses[i]) by {
        assert(block_call()(uses[i]) == Some(calls[i]));
    }
    if uses.len() == 0 && translated(msg).len() > 0 {
        let results = picked(blocks, block_result());
        let kept = blocks.filter(is_result());
        if translated(msg).len() == results.len() {
            let i = results.len() - 1;
            assert(block_result()(kept[i]) == Some(results[i]));
            assert(translated(msg).last() == results[i]);
        }
    }
}

/// All thoughts are sent on in that message, one behind the other; without any it has none.
pub proof fn law_thoughts_are_sent(msg: Message)
    requires
        msg.content is Blocks,
    ensures
        ({
            let thoughts = msg.content->Blocks_0@.filter(is_thought());
            let last = translated(msg).last();
            &&& thoughts.len() > 0 ==> translated(msg).len() > 0 && last.role == msg.role@
                && last.reasoning_content == Some(
                Seq::new(thoughts.len(), |i: int| thoughts[i]->thinking@).flatten_alt(),
            )
            &&& thoughts.len() == 0 && translated(msg).len() > 0 ==> last.reasoning_content is None
        }),
{
    let blocks = msg.content->Blocks_0@;
    lemma_picked_filter(blocks, block_thought(), is_thought());
    lemma_picked_filter(blocks, block_result(), is_result());
    let thoughts = blocks.filter(is_thought());
    let told = picked(blocks, block_thought());
    assert forall|i: int| 0 <= i < thoughts.len() implies told[i]
        == (#[trigger] thoughts[i])->thinking@ by {
        assert(block_thought()(thoughts[i]) == Some(told[i]));
    }
    assert(told =~= Seq::new(thoughts.len(), |i: int| thoughts[i]->thinking@));
    lemma_join_nothing(told);
    if thoughts.len() == 0 && translated(msg).len() > 0 {
        let results = picked(blocks, block_result());
        let kept = blocks.filter(is_result());
        if translated(msg).len() == results.len() {
            let i = results.len() - 1;
            assert(block_result()(kept[i]) == Some(results[i]));
            assert(translated(msg).last() == results[i]);
        }
    }
}

/// Each tool result becomes a message of its own, in their order and ahead of the rest, which
/// is at most one more message: there is one where anything but results was said.
pub proof fn law_tool_results_are_sent(msg: Message)
    requires
        msg.content is Blocks,
    ensures
        ({
            let blocks = msg.content->Blocks_0@;
            let results = blocks.filter(is_result());
            let says = blocks.filter(is_shown()).len() > 0 || blocks.filter(is_use()).len() > 0
                || blocks.filter(is_thought()).len() > 0;
            &&& translated(msg).len() == results.len() + if says {
                1int
            } else {
                0
            }
            &&& forall|i: int|
                0 <= i < results.len() ==> result_tells(#[trigger] translated(msg)[i], results[i])
        }),
{
    let blocks = msg.content->Blocks_0@;
    lemma_picked_filter(blocks, block_result(), is_result());
    lemma_picked_filter(blocks, block_part(), is_shown());
    lemma_picked_filter(blocks, block_call(), is_use());
    lemma_picked_filter(blocks, block_thought(), is_thought());
    let results = blocks.filter(is_result());
    let told = picked(blocks, block_result());
    assert forall|i: int| 0 <= i < results.len() implies result_tells(
        #[trigger] translated(msg)[i],
        results[i],
    ) by {
        assert(block_result()(results[i]) == Some(told[i]));
        assert(translated(msg)[i] == told[i]);
        if let ContentBlock::ToolResult { content: ToolResultContent::Blocks(v), .. } = results[i] {
            lemma_picked_filter(v@, block_text(), is_text());
            let lines = v@.filter(is_text());
            assert forall|k: int| 0 <= k < lines.len() implies picked(v@, block_text())[k]
                == (#[trigger] lines[k])->text@ by {
                assert(block_text()(lines[k]) == Some(picked(v@, block_text())[k]));
            }
            assert(picked(v@, block_text()) =~= Seq::new(lines.len(), |k: int| lines[k]->text@));
        }
    }
}

/// A message that is one text is sent as it is.
pub proof fn law_plain_message_is_sent(msg: Message)
    requires
        msg.content is Text,
    ensures
        translated(msg).len() == 1,
        translated(msg)[0].role == msg.role@,
        translated(msg)[0].content == Some(ContentV::Text(msg.content->Text_0@)),
        translated(msg)[0].tool_calls is None,
        translated(msg)[0].tool_call_id is None,
        translated(msg)[0].reasoning_content is None,
{
}

/// A conversation is sent message by message: what two parts of it become, one behind the
/// other, is what the whole becomes.
pub proof fn law_conversation_is_sent_in_order(a: Seq<Message>, b: Seq<Message>)
    ensures
        all_translated(a + b) == all_translated(a) + all_translated(b),
        a.len() == 0 ==> all_translated(a).len() == 0,
        a.len() == 1 ==> all_translated(a) == translated(a[0]),
    decreases b.len(),
{
    if b.len() == 0 {
        assert(a + b =~= a);
        assert(all_translated(a) + all_translated(b) =~= all_translated(a));
    } else {
        law_conversation_is_sent_in_order(a, b.drop_last());
        assert((a + b).drop_last() =~= a + b.drop_last());
        assert(all_translated(a) + (all_translated(b.drop_last()) + translated(b.last()))
            =~= all_translated(a) + all_translated(b.drop_last()) + translated(b.last()));
    }
    if a.len() == 1 {
        assert(a.drop_last() =~= Seq::<Message>::empty());
        assert(all_translated(a.drop_last()) =~= Seq::<MessageV>::empty());
        assert(all_translated(a) =~= translated(a[0]));
    }
}

// ---------------------------------------------------------------------------
// Tools
// ---------------------------------------------------------------------------
/// The test for a tool that upstreams know: any but the batch tool.
pub open spec fn is_function() -> spec_fn(Tool) -> bool {
    |t: Tool| !(t.tool_type is Some && t.tool_type->0@ == "BatchTool"@)
}

/// Every tool but batch tools is offered, in their order, each under its own name and with its
/// own description; where none is left, none is offered at all.
pub proof fn law_tools_are_offered(tools: Vec<Tool>)
    ensures
        ({
            let kept = tools@.filter(is_function());
            match sent_tools(Some(tools)) {
                None => kept.len() == 0,
                Some(offered) => {
                    &&& kept.len() > 0
                    &&& offered.len() == kept.len()
                    &&& forall|i: int|
                        0 <= i < kept.len() ==> {
                            &&& (#[trigger] offered[i]).name == kept[i].name@
                            &&& offered[i].tool_type == "function"@
                            &&& offered[i].parameters == normalized(kept[i].input_schema@)
                            &&& match kept[i].description {
                                Some(d) => offered[i].description == Some(d@),
                                None => offered[i].description is None,
                            }
                        }
                },
            }
        }),
        sent_tools(None) is None,
{
    lemma_functions(tools@);
}

proof fn lemma_functions(ts: Seq<Tool>)
    ensures
        functions(ts).len() == ts.filter(is_function()).len(),
        forall|i: int|
            0 <= i < functions(ts).len() ==> #[trigger] functions(ts)[i] == tool_translated(
                ts.filter(is_function())[i],
            ),
    decreases ts.len(),
{
    reveal(Seq::filter);
    if ts.len() > 0 {
        let rest = ts.drop_last();
        lemma_functions(rest);
        assert(is_function()(ts.last()) == !(crate::text::opt_text(ts.last().tool_type) == Some(
            "BatchTool"@,
        )));
        assert forall|i: int| 0 <= i < functions(ts).len() implies #[trigger] functions(ts)[i]
            == tool_translated(ts.filter(is_function())[i]) by {
            if i < functions(rest).len() {
                assert(functions(ts)[i] == functions(rest)[i]);
                assert(ts.filter(is_function())[i] == rest.filter(is_function())[i]);
            }
        }
    }
}

/// What a client chooses is what an upstream is told: `auto` and `none` as they are, `any` as
/// `required`, one tool by its name; and tools may run side by side unless that is disabled.
pub proof fn law_choice_is_told(choice: JsonV)
    ensures
        choice.str_at("type"@) == Some("auto"@) ==> choice_translated(choice) == Some(
            JsonV::String("auto"@),
        ),
        choice.str_at("type"@) == Some("any"@) ==> choice_translated(choice) == Some(
            JsonV::String("required"@),
        ),
        choice.str_at("type"@) == Some("none"@) ==> choice_translated(choice) == Some(
            JsonV::String("none"@),
        ),
        choice.str_at("type"@) == Some("tool"@) ==> match choice.str_at("name"@) {
            None => choice_translated(choice) is None,
            Some(name) => choice_translated(choice) matches Some(c) && c.str_at("type"@) == Some(
                "function"@,
            ) && (c.get("function"@) matches Some(f) && f.str_at("name"@) == Some(name)),
        },
        choice_translated(choice) is Some ==> {
            ||| choice.str_at("type"@) == Some("auto"@)
            ||| choice.str_at("type"@) == Some("any"@)
            ||| choice.str_at("type"@) == Some("none"@)
            ||| choice.str_at("type"@) == Some("tool"@)
        },
        parallel_allowed(choice) == (match choice.get("disable_parallel_tool_use"@) {
            Some(JsonV::Bool(b)) => Some(!b),
            _ => None,
        }),
{
    reveal_strlit("auto");
    reveal_strlit("any");
    reveal_strlit("none");
    reveal_strlit("tool");
    reveal_strlit("type");
    reveal_strlit("function");
    assert("auto"@[0] == 'a' && "none"@[0] == 'n' && "tool"@[0] == 't' && "any"@.len() == 3);
    assert("type"@.len() == 4 && "function"@.len() == 8);
}

// ---------------------------------------------------------------------------
// The prompt
// ---------------------------------------------------------------------------
/// The whole system prompt is read: a single text as it is, several with an empty line
/// between each two.
pub proof fn law_whole_prompt_is_read(system: SystemPrompt)
    ensures
        match system {
            SystemPrompt::Single(t) => prompt_text(system) == t@,
            SystemPrompt::Multiple(v) => {
                &&& v@.len() == 0 ==> prompt_text(system).len() == 0
                &&& v@.len() > 0 ==> prompt_text(system) + "\n\n"@ == Seq::new(
                    v@.len(),
                    |i: int| v@[i].text@ + "\n\n"@,
                ).flatten_alt()
            },
        },
{
    if let SystemPrompt::Multiple(v) = system {
        crate::text_laws::law_join_separates(
            Seq::new(v@.len(), |i: int| v@[i].text@),
            "\n\n"@,
        );
        let a = Seq::new(v@.len(), |i: int| v@[i].text@);
        assert(Seq::new(a.len(), |i: int| a[i] + "\n\n"@) =~= Seq::new(
            v@.len(),
            |i: int| v@[i].text@ + "\n\n"@,
        ));
    }
}

} // verus!
