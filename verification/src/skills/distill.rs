//! Distilling lessons from conversations: when, from what, and what becomes of them.
use crate::config::settings::SkillsConfig;
use crate::config::Config;
use crate::json::{int_value, json_text, Json, JsonV};
use crate::models::anthropic;
use crate::skills::store::{hash_text, stable_id, stable_number, text_writes};
use crate::skills::switches::{learning, learns};
use crate::text::{
    first_chars, first_text, is_blank, join, join_texts, lower, lower_text, lowercase,
    lowercase_text, opt_text, same, sub_chars, text_is_blank, texts, to_chars, to_text, trim,
    trim_text,
};
use crate::translate::messages::{picked, result_text, tool_result_text};
use std::collections::hash_map::DefaultHasher;
use std::collections::HashMap;
use std::hash::Hasher;
use vstd::prelude::*;
use vstd::std_specs::hash::DefaultHasherAdditionalSpecFns;
use vstd::utf8::{encode_scalar, encode_utf8};

verus! {

broadcast use vstd::std_specs::hash::group_hash_axioms;

/// How many messages make a conversation.
pub const MIN_MESSAGES: usize = 4;

/// How many more messages a conversation needs before it is distilled again.
pub const DISTILL_STRIDE: usize = 6;

/// How many bytes of a conversation are read.
pub const MAX_TRANSCRIPT_CHARS: usize = 12000;

/// How many lessons are kept of one conversation.
pub const MAX_LESSONS: usize = 3;

/// How much a judge may write.
pub const JUDGE_MAX_TOKENS: u32 = 2048;

/// How many conversations are remembered.
pub const MAX_TRACKED: usize = 10000;

// ---------------------------------------------------------------------------
// When
// ---------------------------------------------------------------------------
/// How long each conversation was when it was distilled last.
pub struct Tracker {
    pub seen: HashMap<u64, usize>,
}

/// A conversation of that length is distilled: the first time as soon as it is one, and again
/// whenever it has grown by the stride.
pub open spec fn due(seen: Map<u64, usize>, sig: u64, messages: int) -> bool {
    if seen.contains_key(sig) {
        messages >= seen[sig] + DISTILL_STRIDE
    } else {
        messages >= MIN_MESSAGES
    }
}

/// What is remembered after a conversation of that length was distilled: where it would be too
/// much, nothing.
pub open spec fn noted(seen: Map<u64, usize>, sig: u64, messages: usize) -> Map<u64, usize> {
    let more = seen.insert(sig, messages);
    if more.len() > MAX_TRACKED {
        Map::empty()
    } else {
        more
    }
}

impl Tracker {
    /// Every length in it leaves room for the stride.
    pub open spec fn wf(self) -> bool {
        forall|k: u64| #[trigger]
            self.seen@.contains_key(k) ==> self.seen@[k] + DISTILL_STRIDE <= usize::MAX
    }

    /// No conversation was distilled.
    pub fn new() -> (r: Tracker)
        ensures
            r.seen@ == Map::<u64, usize>::empty(),
            r.wf(),
    {
        Tracker { seen: HashMap::new() }
    }

    /// Whether a conversation of that length is distilled now, which is then remembered. One
    /// that is too short, or has not grown enough since the last time, is not.
    pub fn is_due(&mut self, sig: u64, messages: usize) -> (r: bool)
        requires
            old(self).wf(),
            messages + DISTILL_STRIDE <= usize::MAX,
        ensures
            r == due(old(self).seen@, sig, messages as int),
            final(self).seen@ == (if r {
                noted(old(self).seen@, sig, messages)
            } else {
                old(self).seen@
            }),
            final(self).wf(),
    {
        let least: usize = match self.seen.get(&sig) {
            Some(n) => *n + DISTILL_STRIDE,
            None => MIN_MESSAGES,
        };
        if messages < least {
            return false;
        }
        self.seen.insert(sig, messages);
        if self.seen.len() > MAX_TRACKED {
            self.seen.clear();
        }
        true
    }
}

/// A conversation that was never distilled is due as soon as it has enough messages. One that
/// was is due again exactly when it has grown by the stride, as long as it is remembered, and
/// no other conversation is affected.
pub proof fn law_distilling_is_spaced(
    seen: Map<u64, usize>,
    sig: u64,
    messages: usize,
    other: u64,
    later: int,
)
    requires
        seen.insert(sig, messages).len() <= MAX_TRACKED,
    ensures
        !seen.contains_key(sig) ==> (due(seen, sig, later) <==> later >= MIN_MESSAGES),
        due(noted(seen, sig, messages), sig, later) <==> later >= messages + DISTILL_STRIDE,
        other != sig ==> due(noted(seen, sig, messages), other, later) == due(seen, other, later),
{
}

/// Whether a conversation of that length can be learnt from at all.
pub fn wants_distilling(config: &Config, messages: usize) -> (r: bool)
    ensures
        r == (learning(config.skills) && messages >= MIN_MESSAGES),
{
    learns(&config.skills) && messages >= MIN_MESSAGES
}

// ---------------------------------------------------------------------------
// From what
// ---------------------------------------------------------------------------
/// A text that is too long, cut: the bound counts bytes, the cut characters.
pub open spec fn shortened(s: Seq<char>, n: int) -> Seq<char> {
    if encode_utf8(s).len() <= n {
        s
    } else {
        first_chars(s, n)
    }
}

/// A text that is too long, cut.
pub fn truncate(s: &str, n: usize) -> (r: String)
    ensures
        r@ == shortened(s@, n as int),
{
    if s.as_bytes().len() <= n {
        s.to_string()
    } else {
        first_text(s, n)
    }
}

/// What a block says in a transcript: text and thoughts in full, tool uses and results in
/// brackets and cut, images not at all.
pub open spec fn block_line() -> spec_fn(anthropic::ContentBlock) -> Option<Seq<char>> {
    |b: anthropic::ContentBlock|
        match b {
            anthropic::ContentBlock::Text { text, .. } => Some(text@),
            anthropic::ContentBlock::Thinking { thinking } => Some(thinking@),
            anthropic::ContentBlock::ToolUse { name, input, .. } => Some(
                "[tool_use "@ + name@ + ": "@ + shortened(json_text(input@), 500) + "]"@,
            ),
            anthropic::ContentBlock::ToolResult { content, .. } => Some(
                "[tool_result: "@ + shortened(result_text(content), 800) + "]"@,
            ),
            anthropic::ContentBlock::Image { .. } => None,
        }
}

/// What a message says in a transcript.
pub open spec fn turn_text(c: anthropic::MessageContent) -> Seq<char> {
    match c {
        anthropic::MessageContent::Text(t) => t@,
        anthropic::MessageContent::Blocks(v) => join(picked(v@, block_line()), "\n"@),
    }
}

fn line_of(b: &anthropic::ContentBlock) -> (r: Option<String>)
    ensures
        opt_text(r) == block_line()(*b),
{
    match b {
        anthropic::ContentBlock::Text { text, .. } => Some(text.clone()),
        anthropic::ContentBlock::Thinking { thinking } => Some(thinking.clone()),
        anthropic::ContentBlock::ToolUse { name, input, .. } => {
            let input = input.to_text();
            let mut line = "[tool_use ".to_string();
            line.append(name.as_str());
            line.append(": ");
            line.append(truncate(input.as_str(), 500).as_str());
            line.append("]");
            Some(line)
        },
        anthropic::ContentBlock::ToolResult { content, .. } => {
            let result = tool_result_text(content);
            let mut line = "[tool_result: ".to_string();
            line.append(truncate(result.as_str(), 800).as_str());
            line.append("]");
            Some(line)
        },
        anthropic::ContentBlock::Image { .. } => None,
    }
}

/// What a message says in a transcript.
pub fn text_of(content: &anthropic::MessageContent) -> (r: String)
    ensures
        r@ == turn_text(*content),
{
    let blocks = match content {
        anthropic::MessageContent::Text(t) => {
            return t.clone();
        },
        anthropic::MessageContent::Blocks(blocks) => blocks,
    };
    let mut lines: Vec<String> = Vec::new();
    let n: usize = blocks.len();
    let mut i: usize = 0;
    assert(texts(lines@) =~= picked(blocks@.take(0), block_line()));
    while i < n
        invariant
            n == blocks@.len(),
            i <= n,
            texts(lines@) == picked(blocks@.take(i as int), block_line()),
        decreases n - i,
    {
        assert(blocks@.take(i as int + 1).drop_last() =~= blocks@.take(i as int));
        let ghost before = lines@;
        if let Some(line) = line_of(&blocks[i]) {
            let ghost l = line@;
            lines.push(line);
            assert(texts(lines@) =~= texts(before).push(l));
        }
        i += 1;
    }
    assert(blocks@.take(n as int) =~= blocks@);
    join_texts(lines.as_slice(), "\n")
}

/// A transcript with one more turn; a blank one adds nothing.
pub open spec fn with_turn(t: Seq<char>, m: anthropic::Message) -> Seq<char> {
    let body = turn_text(m.content);
    if is_blank(body) {
        t
    } else {
        t + m.role@ + ": "@ + trim(body) + "\n\n"@
    }
}

/// The turns one after the other, up to the first at which the transcript is long enough.
pub open spec fn turns(ms: Seq<anthropic::Message>) -> Seq<char>
    decreases ms.len(),
{
    if ms.len() == 0 {
        seq![]
    } else {
        let head = turns(ms.drop_last());
        if encode_utf8(head).len() > MAX_TRANSCRIPT_CHARS {
            head
        } else {
            with_turn(head, ms.last())
        }
    }
}

proof fn lemma_turns_stop(ms: Seq<anthropic::Message>, k: int)
    requires
        0 <= k <= ms.len(),
        encode_utf8(turns(ms.take(k))).len() > MAX_TRANSCRIPT_CHARS,
    ensures
        turns(ms) == turns(ms.take(k)),
    decreases ms.len() - k,
{
    if k == ms.len() {
        assert(ms.take(k) =~= ms);
    } else {
        assert(ms.take(k + 1).drop_last() =~= ms.take(k));
        lemma_turns_stop(ms, k + 1);
    }
}

fn all_turns(req: &anthropic::AnthropicRequest) -> (r: String)
    ensures
        r@ == turns(req.messages@),
{
    let mut out = String::new();
    let n: usize = req.messages.len();
    let mut i: usize = 0;
    assert(out@ =~= turns(req.messages@.take(0)));
    while i < n
        invariant
            n == req.messages@.len(),
            i <= n,
            out@ == turns(req.messages@.take(i as int)),
        decreases n - i,
    {
        if out.as_str().as_bytes().len() > MAX_TRANSCRIPT_CHARS {
            proof {
                lemma_turns_stop(req.messages@, i as int);
            }
            return out;
        }
        assert(req.messages@.take(i as int + 1).drop_last() =~= req.messages@.take(i as int));
        let m = &req.messages[i];
        let body = text_of(&m.content);
        if !text_is_blank(body.as_str()) {
            out.append(m.role.as_str());
            out.append(": ");
            out.append(trim_text(body.as_str()).as_str());
            out.append("\n\n");
        }
        i += 1;
    }
    assert(req.messages@.take(n as int) =~= req.messages@);
    out
}

/// As many of the first characters as fit into that many bytes.
pub open spec fn fitting(t: Seq<char>, bytes: nat) -> Seq<char>
    decreases t.len(),
{
    if t.len() == 0 || encode_utf8(t).len() <= bytes {
        t
    } else {
        fitting(t.drop_last(), bytes)
    }
}

/// The transcript of a conversation, as far as it is read.
pub open spec fn transcript(ms: Seq<anthropic::Message>) -> Seq<char> {
    fitting(turns(ms), MAX_TRANSCRIPT_CHARS as nat)
}

proof fn lemma_fitting(t: Seq<char>, k: int, bytes: nat)
    requires
        0 <= k <= t.len(),
        encode_utf8(t.take(k)).len() <= bytes,
        k < t.len() ==> encode_utf8(t.take(k + 1)).len() > bytes,
    ensures
        fitting(t, bytes) == t.take(k),
    decreases t.len() - k,
{
    if k == t.len() {
        assert(t.take(k) =~= t);
    } else {
        let n = t.len() as int;
        let rest = t.drop_last();
        assert(rest.take(k) =~= t.take(k));
        if k + 1 < n {
            assert(rest.take(k + 1) =~= t.take(k + 1));
        }
        assert(t.take(k + 1) + t.skip(k + 1) =~= t);
        lemma_encode_concat(t.take(k + 1), t.skip(k + 1));
        lemma_fitting(rest, k, bytes);
    }
}

proof fn lemma_encode_concat(a: Seq<char>, b: Seq<char>)
    ensures
        encode_utf8(a + b) == encode_utf8(a) + encode_utf8(b),
    decreases a.len(),
{
    if a.len() == 0 {
        assert(a + b =~= b);
        assert(encode_utf8(a) + encode_utf8(b) =~= encode_utf8(b));
    } else {
        assert((a + b).drop_first() =~= a.drop_first() + b);
        lemma_encode_concat(a.drop_first(), b);
        assert(encode_utf8(a + b) =~= encode_utf8(a) + encode_utf8(b));
    }
}

/// How many bytes a character takes.
pub open spec fn char_bytes(c: char) -> nat {
    if c as u32 <= 0x7F {
        1
    } else if c as u32 <= 0x7FF {
        2
    } else if c as u32 <= 0xFFFF {
        3
    } else {
        4
    }
}

proof fn lemma_one_more(t: Seq<char>, i: int)
    requires
        0 <= i < t.len(),
    ensures
        encode_utf8(t.take(i + 1)).len() == encode_utf8(t.take(i)).len() + char_bytes(t[i]),
{
    let c = seq![t[i]];
    assert(t.take(i + 1) =~= t.take(i) + c);
    lemma_encode_concat(t.take(i), c);
    assert(c.drop_first() =~= Seq::<char>::empty());
    assert(encode_utf8(c.drop_first()) =~= Seq::<u8>::empty());
    let ch: char = t[i];
    let v: u32 = ch as u32;
    vstd::utf8::char_is_scalar(ch);
    assert(encode_utf8(c) == encode_scalar(v) + encode_utf8(c.drop_first()));
    assert(encode_scalar(v).len() == char_bytes(ch));
}

fn bytes_of(c: char) -> (r: usize)
    ensures
        r == char_bytes(c),
{
    let n: u32 = c as u32;
    if n <= 0x7F {
        1
    } else if n <= 0x7FF {
        2
    } else if n <= 0xFFFF {
        3
    } else {
        4
    }
}

/// The transcript of a conversation, cut where it is too long: never inside a character.
pub fn render_transcript(req: &anthropic::AnthropicRequest) -> (r: String)
    ensures
        r@ == transcript(req.messages@),
{
    let all = all_turns(req);
    if all.as_str().as_bytes().len() <= MAX_TRANSCRIPT_CHARS {
        return all;
    }
    let cs = to_chars(all.as_str());
    let n: usize = cs.len();
    let mut i: usize = 0;
    let mut size: usize = 0;
    assert(cs@.take(0) =~= Seq::<char>::empty());
    assert(encode_utf8(cs@.take(0)).len() == 0);
    while i < n
        invariant
            n == cs@.len(),
            i <= n,
            cs@ == all@,
            size == encode_utf8(cs@.take(i as int)).len(),
            size <= MAX_TRANSCRIPT_CHARS,
        ensures
            i < n ==> encode_utf8(cs@.take(i + 1)).len() > MAX_TRANSCRIPT_CHARS,
        decreases n - i,
    {
        let more: usize = bytes_of(cs[i]);
        proof {
            lemma_one_more(cs@, i as int);
        }
        if size + more > MAX_TRANSCRIPT_CHARS {
            break;
        }
        size += more;
        i += 1;
    }
    proof {
        lemma_fitting(cs@, i as int, MAX_TRANSCRIPT_CHARS as nat);
    }
    let head = sub_chars(cs.as_slice(), 0, i);
    assert(head@ =~= cs@.take(i as int));
    to_text(head.as_slice())
}

/// The first message of the user, from `i` on.
pub open spec fn user_from(ms: Seq<anthropic::Message>, i: int) -> Option<int>
    decreases ms.len() - i,
{
    if i < 0 || i >= ms.len() {
        None
    } else if ms[i].role@ == "user"@ {
        Some(i)
    } else {
        user_from(ms, i + 1)
    }
}

/// What tells a conversation from others: its first message of the user.
pub open spec fn signature(ms: Seq<anthropic::Message>) -> u64 {
    DefaultHasher::spec_finish(
        match user_from(ms, 0) {
            Some(i) => text_writes(turn_text(ms[i].content)),
            None => seq![],
        },
    )
}

/// What tells a conversation from others, the same at each of its turns.
pub fn conversation_signature(req: &anthropic::AnthropicRequest) -> (r: u64)
    ensures
        r == signature(req.messages@),
{
    let mut hasher = DefaultHasher::new();
    let n: usize = req.messages.len();
    let mut i: usize = 0;
    while i < n
        invariant
            n == req.messages@.len(),
            i <= n,
            hasher@ == Seq::<Seq<u8>>::empty(),
            user_from(req.messages@, 0) == user_from(req.messages@, i as int),
        decreases n - i,
    {
        let m = &req.messages[i];
        if same(m.role.as_str(), "user") {
            let text = text_of(&m.content);
            hash_text(text.as_str(), &mut hasher);
            assert(hasher@ =~= text_writes(turn_text(m.content)));
            return hasher.finish();
        }
        i += 1;
    }
    hasher.finish()
}

/// A conversation is distilled now: learning is on, it is long enough, and it is due.
pub open spec fn is_distilled(
    s: SkillsConfig,
    seen: Map<u64, usize>,
    ms: Seq<anthropic::Message>,
) -> bool {
    &&& learning(s)
    &&& ms.len() >= MIN_MESSAGES
    &&& due(seen, signature(ms), ms.len() as int)
}

/// The transcript that a conversation is distilled from now, where it is and says anything.
/// That its turn came is remembered either way.
pub fn to_distil(config: &Config, tracker: &mut Tracker, req: &anthropic::AnthropicRequest) -> (r:
    Option<String>)
    requires
        old(tracker).wf(),
        req.messages@.len() + DISTILL_STRIDE <= usize::MAX,
    ensures
        ({
            let ms = req.messages@;
            let now = is_distilled(config.skills, old(tracker).seen@, ms);
            &&& final(tracker).wf()
            &&& final(tracker).seen@ == (if now {
                noted(old(tracker).seen@, signature(ms), ms.len() as usize)
            } else {
                old(tracker).seen@
            })
            &&& match r {
                Some(t) => now && !is_blank(transcript(ms)) && t@ == transcript(ms),
                None => !now || is_blank(transcript(ms)),
            }
        }),
{
    let messages: usize = req.messages.len();
    if !wants_distilling(config, messages) {
        return None;
    }
    if !tracker.is_due(conversation_signature(req), messages) {
        return None;
    }
    let text = render_transcript(req);
    if text_is_blank(text.as_str()) {
        None
    } else {
        Some(text)
    }
}

// ---------------------------------------------------------------------------
// What becomes of it
// ---------------------------------------------------------------------------
/// What the judge of a conversation is told.
pub open spec fn judge_words() -> Seq<char> {
    "You are a meticulous engineering-knowledge distiller for an AI coding assistant. Given a conversation transcript, do two things. (1) Judge whether the assistant ultimately SUCCEEDED, FAILED, or it is UNCLEAR at the user's request — be strict and default to \"unclear\" unless there is clear evidence; the mere absence of a user complaint is NOT success. (2) Extract at most 3 concise, GENERAL, reusable lessons that would help on FUTURE similar tasks. Learn from success (validated strategies, kind=positive) AND from failure (preventive 'avoid this' lessons, kind=negative). Be conservative: if the conversation is trivial, off-topic, or you cannot tell, return an empty lessons array. NEVER include secrets, credentials, file contents, names, paths, or task-specific details — only transferable knowledge. Output STRICT JSON only, no prose: {\"outcome\":\"success|failure|unclear\",\"lessons\":[{\"title\":\"\",\"when_to_use\":\"short trigger phrase\",\"body\":\"actionable lesson\",\"kind\":\"positive|negative\"}]}"@
}

/// What the judge of a conversation is told.
pub fn judge_system() -> (r: &'static str)
    ensures
        r@ == judge_words(),
{
    "You are a meticulous engineering-knowledge distiller for an AI coding assistant. Given a conversation transcript, do two things. (1) Judge whether the assistant ultimately SUCCEEDED, FAILED, or it is UNCLEAR at the user's request — be strict and default to \"unclear\" unless there is clear evidence; the mere absence of a user complaint is NOT success. (2) Extract at most 3 concise, GENERAL, reusable lessons that would help on FUTURE similar tasks. Learn from success (validated strategies, kind=positive) AND from failure (preventive 'avoid this' lessons, kind=negative). Be conservative: if the conversation is trivial, off-topic, or you cannot tell, return an empty lessons array. NEVER include secrets, credentials, file contents, names, paths, or task-specific details — only transferable knowledge. Output STRICT JSON only, no prose: {\"outcome\":\"success|failure|unclear\",\"lessons\":[{\"title\":\"\",\"when_to_use\":\"short trigger phrase\",\"body\":\"actionable lesson\",\"kind\":\"positive|negative\"}]}"
}

/// What the judge is asked.
pub fn judge_user(transcript: &str) -> (r: String)
    ensures
        r@ == "Transcript:\n"@ + transcript@ + "\n\nReturn the JSON now."@,
{
    let mut text = "Transcript:\n".to_string();
    text.append(transcript);
    text.append("\n\nReturn the JSON now.");
    text
}

/// A lesson as the judge writes it.
#[derive(Debug, PartialEq)]
pub struct Lesson {
    pub title: String,
    pub when_to_use: String,
    pub body: String,
    pub kind: String,
}

/// The lesson has a title and a body.
pub open spec fn says_something(l: Lesson) -> bool {
    !is_blank(l.title@) && !is_blank(l.body@)
}

/// The test for such a lesson.
pub open spec fn usable() -> spec_fn(Lesson) -> bool {
    |l: Lesson| says_something(l)
}

/// The first usable lessons, as many as are kept.
pub open spec fn kept(lessons: Seq<Lesson>) -> Seq<Lesson> {
    let all = lessons.filter(usable());
    if all.len() <= MAX_LESSONS {
        all
    } else {
        all.take(MAX_LESSONS as int)
    }
}

/// The lessons that are kept of a judgement.
pub fn kept_lessons(lessons: Vec<Lesson>) -> (r: Vec<Lesson>)
    ensures
        r@ == kept(lessons@),
{
    let ghost all = lessons@;
    let mut out: Vec<Lesson> = Vec::new();
    proof {
        reveal(Seq::filter);
        assert(all.take(0) =~= Seq::<Lesson>::empty());
    }
    for l in it: lessons
        invariant
            it.seq() == all,
            out@ == all.take(it.index()).filter(usable()),
    {
        proof {
            reveal(Seq::filter);
            assert(all.take(it.index() + 1).drop_last() =~= all.take(it.index()));
            assert(all.take(it.index() + 1).last() == l);
        }
        if !text_is_blank(l.title.as_str()) && !text_is_blank(l.body.as_str()) {
            out.push(l);
        }
    }
    assert(all.take(all.len() as int) =~= all);
    if out.len() > MAX_LESSONS {
        out.truncate(MAX_LESSONS);
        assert(out@ =~= kept(all));
    }
    out
}

/// What a lesson is found by: when it helps, and its title.
pub open spec fn lesson_route(l: Lesson) -> Seq<char> {
    if is_blank(l.when_to_use@) {
        l.title@
    } else {
        l.when_to_use@ + " "@ + l.title@
    }
}

/// What a lesson is found by.
pub fn route_of(l: &Lesson) -> (r: String)
    ensures
        r@ == lesson_route(*l),
{
    if text_is_blank(l.when_to_use.as_str()) {
        l.title.clone()
    } else {
        let mut route = l.when_to_use.clone();
        route.append(" ");
        route.append(l.title.as_str());
        route
    }
}

/// The identifier of what has a title: the same in any case.
pub open spec fn title_number(title: Seq<char>) -> u64 {
    stable_number(lowercase(title))
}

/// The identifier of what has a title.
pub fn title_id(title: &str) -> (r: u64)
    ensures
        r == title_number(title@),
{
    stable_id(lowercase_text(title).as_str())
}

/// A lesson, as a candidate for the store.
pub open spec fn candidate_value(l: Lesson, outcome: Seq<char>, now: u64) -> JsonV {
    JsonV::Object(
        map![
            "tier"@ => JsonV::String("candidate"@),
            "title"@ => JsonV::String(l.title@),
            "when_to_use"@ => JsonV::String(l.when_to_use@),
            "body"@ => JsonV::String(l.body@),
            "kind"@ => JsonV::String(
                if is_blank(l.kind@) {
                    "positive"@
                } else {
                    lower(trim(l.kind@))
                },
            ),
            "source"@ => JsonV::String("distill"@),
            "outcome"@ => JsonV::String(outcome),
            "created_at"@ => int_value(now),
            "updated_at"@ => int_value(now),
            "use_count"@ => int_value(0),
            "success_count"@ => int_value(0),
        ],
    )
}

/// A lesson, as a candidate for the store. It is not injected before it is verified.
pub fn candidate(l: &Lesson, outcome: &str, now: u64) -> (r: Json)
    ensures
        r@ == candidate_value(*l, outcome@, now),
{
    let kind = if text_is_blank(l.kind.as_str()) {
        "positive".to_string()
    } else {
        lower_text(trim_text(l.kind.as_str()).as_str())
    };
    Json::empty_object().with("tier", Json::text("candidate")).with(
        "title",
        Json::text(l.title.as_str()),
    ).with("when_to_use", Json::text(l.when_to_use.as_str())).with(
        "body",
        Json::text(l.body.as_str()),
    ).with("kind", Json::text(kind.as_str())).with("source", Json::text("distill")).with(
        "outcome",
        Json::text(outcome),
    ).with("created_at", Json::whole(now)).with("updated_at", Json::whole(now)).with(
        "use_count",
        Json::whole(0),
    ).with("success_count", Json::whole(0))
}

/// A conversation is distilled from its fourth message on where skills are learnt, and again
/// only when six more have come.
pub proof fn law_what_is_distilled(
    s: SkillsConfig,
    seen: Map<u64, usize>,
    ms: Seq<anthropic::Message>,
)
    ensures
        is_distilled(s, seen, ms) ==> learning(s),
        learning(s) && !seen.contains_key(signature(ms)) ==> (is_distilled(s, seen, ms)
            <==> ms.len() >= 4),
        learning(s) && seen.contains_key(signature(ms)) ==> (is_distilled(s, seen, ms) <==> ms.len()
            >= 4 && ms.len() >= seen[signature(ms)] + 6),
{
}

} // verus!
