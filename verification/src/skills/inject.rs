//! Bringing learnt skills, facts and documentation into a request.
use crate::config::Config;
use crate::json::JsonV;
use crate::models::anthropic;
use crate::models::openai::{copy_opt, opt_json_view};
use crate::text::{
    is_blank, join, join_texts, opt_text, same, text_is_blank, texts, trim, trim_text,
};
use crate::translate::messages::{block_text, picked, text_blocks};
use vstd::prelude::*;

verus! {

// ---------------------------------------------------------------------------
// System blocks
// ---------------------------------------------------------------------------
/// What a block of the system prompt is.
pub struct SystemBlock {
    pub message_type: Seq<char>,
    pub text: Seq<char>,
    pub cache_control: Option<JsonV>,
}

/// What a block of the system prompt is.
pub open spec fn system_block(m: anthropic::SystemMessage) -> SystemBlock {
    SystemBlock {
        message_type: m.message_type@,
        text: m.text@,
        cache_control: opt_json_view(m.cache_control),
    }
}

/// A plain text block.
pub open spec fn plain_block(text: Seq<char>) -> SystemBlock {
    SystemBlock { message_type: "text"@, text, cache_control: None }
}

/// The blocks of a system prompt: a plain text is one block.
pub open spec fn system_blocks(s: Option<anthropic::SystemPrompt>) -> Seq<SystemBlock> {
    match s {
        None => seq![],
        Some(anthropic::SystemPrompt::Single(t)) => seq![plain_block(t@)],
        Some(anthropic::SystemPrompt::Multiple(v)) => Seq::new(
            v@.len(),
            |i: int| system_block(v@[i]),
        ),
    }
}

fn plain_message(text: String) -> (r: anthropic::SystemMessage)
    ensures
        system_block(r) == plain_block(text@),
{
    anthropic::SystemMessage { message_type: "text".to_string(), text, cache_control: None }
}

/// The prompt has one more block at its end, a plain text.
pub open spec fn extended(
    before: Option<anthropic::SystemPrompt>,
    after: Option<anthropic::SystemPrompt>,
    text: Seq<char>,
) -> bool {
    &&& after matches Some(anthropic::SystemPrompt::Multiple(_))
    &&& system_blocks(after) == system_blocks(before).push(plain_block(text))
}

/// Adds a text block behind the client's own system prompt, which stays as it was, so that
/// what an upstream has cached of it still serves.
pub fn append_system_block(req: &mut anthropic::AnthropicRequest, text: String)
    ensures
        extended(old(req).system, final(req).system, text@),
        final(req).model == old(req).model,
        final(req).max_tokens == old(req).max_tokens,
        final(req).messages == old(req).messages,
        final(req).tools == old(req).tools,
{
    let block = plain_message(text);
    let ghost b = system_block(block);
    let system = req.system.take();
    let mut blocks: Vec<anthropic::SystemMessage> = Vec::new();
    match system {
        None => {},
        Some(anthropic::SystemPrompt::Single(s)) => {
            blocks.push(plain_message(s));
        },
        Some(anthropic::SystemPrompt::Multiple(v)) => {
            blocks = v;
        },
    }
    let ghost before = blocks@;
    assert(Seq::new(before.len(), |i: int| system_block(before[i])) =~= system_blocks(
        old(req).system,
    ));
    blocks.push(block);
    req.system = Some(anthropic::SystemPrompt::Multiple(blocks));
    assert(system_blocks(req.system) =~= system_blocks(old(req).system).push(b));
}

/// The prompt is as it was, or has one more block.
pub open spec fn injected(
    before: Option<anthropic::SystemPrompt>,
    after: Option<anthropic::SystemPrompt>,
) -> bool {
    after == before || exists|text: Seq<char>| extended(before, after, text)
}

/// However often and whatever is added to a prompt, the client's own blocks come first and
/// unchanged.
pub proof fn law_client_prompt_comes_first(prompts: Seq<Option<anthropic::SystemPrompt>>)
    requires
        prompts.len() > 0,
        forall|i: int, j: int|
            #![trigger prompts[i], prompts[j]]
            0 <= i && j == i + 1 && j < prompts.len() ==> injected(prompts[i], prompts[j]),
    ensures
        system_blocks(prompts[0]).is_prefix_of(system_blocks(prompts.last())),
    decreases prompts.len(),
{
    if prompts.len() > 1 {
        let rest = prompts.drop_last();
        let n = prompts.len() - 2;
        assert forall|i: int, j: int|
            #![trigger rest[i], rest[j]]
            0 <= i && j == i + 1 && j < rest.len() implies injected(rest[i], rest[j]) by {
            assert(injected(prompts[i], prompts[j]));
        }
        law_client_prompt_comes_first(rest);
        assert(injected(prompts[n], prompts[n + 1]));
        let (first, last) = (system_blocks(prompts[0]), system_blocks(prompts[n + 1]));
        assert(first =~= last.subrange(0, first.len() as int));
    }
}

// ---------------------------------------------------------------------------
// What is injected
// ---------------------------------------------------------------------------
/// A skill chosen for injection.
#[derive(Debug, PartialEq)]
pub struct RetrievedSkill {
    pub id: String,
    pub title: String,
    pub body: String,
}

/// What stands above the skills.
pub open spec fn skills_head() -> Seq<char> {
    "# Auto-injected learned knowledge\nThe following lessons were retrieved as relevant to the current task. They are learned from past experience and may be imperfect — apply them when they help and ignore anything that does not fit.\n"@
}

/// The skills one after the other, each under its title.
pub open spec fn skills_text(skills: Seq<RetrievedSkill>) -> Seq<char>
    decreases skills.len(),
{
    if skills.len() == 0 {
        skills_head()
    } else {
        skills_text(skills.drop_last()) + "\n## "@ + skills.last().title@ + "\n"@
            + skills.last().body@ + "\n"@
    }
}

/// The identifiers of skills.
pub open spec fn skill_ids(skills: Seq<RetrievedSkill>) -> Seq<Seq<char>> {
    Seq::new(skills.len(), |i: int| skills[i].id@)
}

/// Adds the skills to the system prompt, where there are any, and gives their identifiers.
pub fn inject(req: &mut anthropic::AnthropicRequest, skills: &Vec<RetrievedSkill>) -> (r: Vec<
    String,
>)
    ensures
        texts(r@) == skill_ids(skills@),
        skills@.len() == 0 ==> *final(req) == *old(req),
        skills@.len() > 0 ==> extended(
            old(req).system,
            final(req).system,
            skills_text(skills@),
        ),
        final(req).model == old(req).model,
        final(req).max_tokens == old(req).max_tokens,
        final(req).messages == old(req).messages,
        final(req).tools == old(req).tools,
{
    let mut ids: Vec<String> = Vec::new();
    if skills.len() == 0 {
        assert(texts(ids@) =~= skill_ids(skills@));
        return ids;
    }
    let mut rendered = "# Auto-injected learned knowledge\nThe following lessons were retrieved as relevant to the current task. They are learned from past experience and may be imperfect — apply them when they help and ignore anything that does not fit.\n".to_string();
    let n: usize = skills.len();
    let mut i: usize = 0;
    assert(skills@.take(0) =~= Seq::<RetrievedSkill>::empty());
    while i < n
        invariant
            n == skills@.len(),
            i <= n,
            rendered@ == skills_text(skills@.take(i as int)),
            texts(ids@) == skill_ids(skills@.take(i as int)),
        decreases n - i,
    {
        assert(skills@.take(i as int + 1).drop_last() =~= skills@.take(i as int));
        let ghost before = ids@;
        let s = &skills[i];
        rendered.append("\n## ");
        rendered.append(s.title.as_str());
        rendered.append("\n");
        rendered.append(s.body.as_str());
        rendered.append("\n");
        ids.push(s.id.clone());
        proof {
            let id = skills@[i as int].id@;
            assert(texts(ids@) =~= texts(before).push(id));
            assert(skill_ids(skills@.take(i as int + 1)) =~= skill_ids(
                skills@.take(i as int),
            ).push(id));
        }
        i += 1;
    }
    assert(skills@.take(n as int) =~= skills@);
    append_system_block(req, rendered);
    ids
}

/// What stands above documentation.
pub open spec fn docs_head() -> Seq<char> {
    "# Library documentation (retrieved, for API/usage reference)\nCurrent docs for libraries mentioned in the task — prefer them over prior knowledge for API and usage details. For latest-version or other current-value questions, use the 'Current facts' block above instead (these docs may omit the version).\n\n"@
}

/// What stands above facts.
pub open spec fn facts_head() -> Seq<char> {
    "# Current facts (authoritative, time-stamped)\nVerified current values for time-sensitive questions (latest versions, current state). Use these directly as the answer — they OVERRIDE both your prior knowledge and the general library documentation below. Each is stamped with when it was last confirmed; cite that date, and suggest re-checking only if exact precision is critical.\n\n"@
}

/// Adds documentation to the system prompt, where there is any.
pub fn inject_docs(req: &mut anthropic::AnthropicRequest, docs: &str)
    ensures
        is_blank(docs@) ==> *final(req) == *old(req),
        !is_blank(docs@) ==> extended(
            old(req).system,
            final(req).system,
            docs_head() + docs@,
        ),
        final(req).model == old(req).model,
        final(req).max_tokens == old(req).max_tokens,
        final(req).messages == old(req).messages,
        final(req).tools == old(req).tools,
{
    if text_is_blank(docs) {
        return;
    }
    let mut text = "# Library documentation (retrieved, for API/usage reference)\nCurrent docs for libraries mentioned in the task — prefer them over prior knowledge for API and usage details. For latest-version or other current-value questions, use the 'Current facts' block above instead (these docs may omit the version).\n\n".to_string();
    text.append(docs);
    append_system_block(req, text);
}

/// Adds facts to the system prompt, where there are any.
pub fn inject_facts(req: &mut anthropic::AnthropicRequest, facts: &str)
    ensures
        is_blank(facts@) ==> *final(req) == *old(req),
        !is_blank(facts@) ==> extended(
            old(req).system,
            final(req).system,
            facts_head() + facts@,
        ),
        final(req).model == old(req).model,
        final(req).max_tokens == old(req).max_tokens,
        final(req).messages == old(req).messages,
        final(req).tools == old(req).tools,
{
    if text_is_blank(facts) {
        return;
    }
    let mut text = "# Current facts (authoritative, time-stamped)\nVerified current values for time-sensitive questions (latest versions, current state). Use these directly as the answer — they OVERRIDE both your prior knowledge and the general library documentation below. Each is stamped with when it was last confirmed; cite that date, and suggest re-checking only if exact precision is critical.\n\n".to_string();
    text.append(facts);
    append_system_block(req, text);
}

// ---------------------------------------------------------------------------
// When to inject
// ---------------------------------------------------------------------------
/// The text of a message: of several blocks, the text ones, one per line.
pub open spec fn message_text(c: anthropic::MessageContent) -> Seq<char> {
    match c {
        anthropic::MessageContent::Text(t) => t@,
        anthropic::MessageContent::Blocks(v) => join(picked(v@, block_text()), "\n"@),
    }
}

/// The text of a message.
pub fn text_of(content: &anthropic::MessageContent) -> (r: String)
    ensures
        r@ == message_text(*content),
{
    match content {
        anthropic::MessageContent::Text(t) => t.clone(),
        anthropic::MessageContent::Blocks(blocks) => {
            let lines = text_blocks(blocks);
            join_texts(lines.as_slice(), "\n")
        },
    }
}

/// What the client newly asks: the text of the last message, where it is the user's and
/// says anything.
pub open spec fn fresh_query(req: anthropic::AnthropicRequest) -> Option<Seq<char>> {
    if req.messages@.len() == 0 {
        None
    } else {
        let last = req.messages@.last();
        if last.role@ == "user"@ && trim(message_text(last.content)).len() > 0 {
            Some(trim(message_text(last.content)))
        } else {
            None
        }
    }
}

/// What the client newly asks. A turn that only hands back tool results asks nothing, so
/// that a tool loop does not look up the same question at each of its steps.
pub fn fresh_user_query(req: &anthropic::AnthropicRequest) -> (r: Option<String>)
    ensures
        opt_text(r) == fresh_query(*req),
{
    let n: usize = req.messages.len();
    if n == 0 {
        return None;
    }
    let last = &req.messages[n - 1];
    if !same(last.role.as_str(), "user") {
        return None;
    }
    let text = text_of(&last.content);
    let text = trim_text(text.as_str());
    if text.as_str().is_empty() {
        None
    } else {
        Some(text)
    }
}

/// Whether skills are looked up for a query at all.
pub fn wants_skills(config: &Config, query: &str) -> (r: bool)
    ensures
        r == (config.skills.enabled && !is_blank(query@)),
{
    config.skills.enabled && !text_is_blank(query)
}

// ---------------------------------------------------------------------------
// Keys for background work
// ---------------------------------------------------------------------------
/// The key that is remembered after a client sent one.
pub open spec fn remembered_after(before: Option<Seq<char>>, key: Option<Seq<char>>) -> Option<
    Seq<char>,
> {
    if key is Some && key->0.len() > 0 {
        key
    } else {
        before
    }
}

/// The key for background work.
pub open spec fn background_key(set: Option<String>, remembered: Option<String>) -> Option<String> {
    if set is Some {
        set
    } else {
        remembered
    }
}

/// Keeps the last key that a client sent, for work that no client asked for.
pub fn remember_api_key(remembered: &mut Option<String>, key: Option<&str>)
    ensures
        match key {
            Some(k) => if k@.len() > 0 {
                opt_text(*final(remembered)) == Some(k@)
            } else {
                *final(remembered) == *old(remembered)
            },
            None => *final(remembered) == *old(remembered),
        },
        opt_text(*final(remembered)) == remembered_after(
            opt_text(*old(remembered)),
            match key {
                Some(k) => Some(k@),
                None => None,
            },
        ),
{
    if let Some(k) = key {
        if !k.is_empty() {
            *remembered = Some(k.to_string());
        }
    }
}

/// The key for background work: the one that is set, else the last one that a client sent.
pub fn background_api_key(config: &Config, remembered: &Option<String>) -> (r: Option<String>)
    ensures
        r == (if config.skills.api_key is Some {
            config.skills.api_key
        } else {
            *remembered
        }),
        r == background_key(config.skills.api_key, *remembered),
{
    match &config.skills.api_key {
        Some(k) => Some(k.clone()),
        None => copy_opt(remembered),
    }
}

} // verus!
