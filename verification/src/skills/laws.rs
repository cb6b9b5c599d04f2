//! What holds of everything that is learnt, kept and injected.
use crate::json::{int_value, json_text, JsonV};
use crate::keys::{lemma_chat_keys, lemma_fact_keys, lemma_lesson_keys, lemma_log_keys, lemma_search_keys};
use crate::models::anthropic::{
    AnthropicRequest, ContentBlock, Message, MessageContent, SystemPrompt,
};
use crate::skills::curate::{
    alike, is_old, loser, pair_from, worth, Entry,
};
use crate::skills::distill;
use crate::skills::distill::{
    block_line, due, fitting, kept, lesson_route, noted, signature, transcript, turn_text, turns,
};
use crate::skills::docs::{libraries_of, looked_up, snippets};
use crate::skills::embed::embed_value;
use crate::skills::eventlog::{event_value, stem_of};
use crate::skills::facts::{fact_value, half_life, is_corroborated, Extracted};
use crate::skills::inject::{
    background_key, extended, fresh_query, plain_block, remembered_after, skill_ids, skills_text,
    system_blocks, RetrievedSkill,
};
use crate::skills::proactive;
use crate::skills::proactive::asked;
use crate::skills::reflect::{
    close, cluster_at, grown, listing_text, member_text, merged_value, Merged,
};
use crate::skills::research::{evidence_line, evidence_text};
use crate::skills::store::{
    address, numbered, point_number, raw_search_value, scroll_all_value, scroll_value,
    search_value, stable_number, SkillPayload,
};
use crate::skills::verify::{
    is_ready, is_soaked, outcome_of, promotes, query_text, tier_fields, Outcome, Verdict,
};
use crate::text::{first_chars, join, lowercase, split, starts_with, trim};
use crate::text_laws::law_join_separates;
use crate::translate::messages::{block_text, picked, result_text};
use crate::translate::sending::is_text;
use crate::websearch::SearchResultV;
use vstd::prelude::*;
use vstd::utf8::encode_utf8;

verus! {

// ---------------------------------------------------------------------------
// What is injected
// ---------------------------------------------------------------------------
/// A prompt is extended by one text at its end: every block of the client's stays where it was
/// and as it was.
pub proof fn law_prompt_is_extended(
    before: Option<SystemPrompt>,
    after: Option<SystemPrompt>,
    text: Seq<char>,
)
    requires
        extended(before, after, text),
    ensures
        after matches Some(SystemPrompt::Multiple(v)) && v@.len() > 0 && v@.last().text@ == text
            && v@.last().message_type@ == "text"@ && match before {
            None => v@.len() == 1,
            Some(SystemPrompt::Single(t)) => v@.len() == 2 && v@[0].text@ == t@,
            Some(SystemPrompt::Multiple(b)) => v@.len() == b@.len() + 1 && forall|i: int|
                0 <= i < b@.len() ==> (#[trigger] v@[i]).text@ == b@[i].text@ && v@[i].message_type@
                    == b@[i].message_type@ && crate::models::openai::opt_json_view(
                    v@[i].cache_control,
                ) == crate::models::openai::opt_json_view(b@[i].cache_control),
        },
{
    let v = after->0->Multiple_0@;
    let bs = system_blocks(after);
    let old_blocks = system_blocks(before);
    assert(bs.len() == v.len());
    assert(bs.last() == plain_block(text));
    assert(bs[v.len() - 1] == bs.last());
    match before {
        Some(SystemPrompt::Single(t)) => {
            assert(bs[0] == old_blocks[0]);
        },
        Some(SystemPrompt::Multiple(b)) => {
            assert forall|i: int| 0 <= i < b@.len() implies (#[trigger] v[i]).text@ == b@[i].text@
                && v[i].message_type@ == b@[i].message_type@
                && crate::models::openai::opt_json_view(v[i].cache_control)
                == crate::models::openai::opt_json_view(b@[i].cache_control) by {
                assert(bs[i] == old_blocks[i]);
            }
        },
        None => {},
    }
}

/// Every retrieved skill is told with its title and its whole body, in their order, and each is
/// reported by its identifier.
pub proof fn law_skills_are_told(skills: Seq<RetrievedSkill>, s: RetrievedSkill)
    ensures
        skills_text(skills.push(s)) == skills_text(skills) + "\n## "@ + s.title@ + "\n"@ + s.body@
            + "\n"@,
        starts_with(skills_text(skills), skills_text(seq![])),
        skill_ids(skills.push(s)) == skill_ids(skills).push(s.id@),
        skill_ids(skills).len() == skills.len(),
    decreases skills.len(),
{
    assert(skills.push(s).drop_last() =~= skills);
    assert(skill_ids(skills.push(s)) =~= skill_ids(skills).push(s.id@));
    let head = skills_text(seq![]);
    if skills.len() > 0 {
        let rest = skills.drop_last();
        law_skills_are_told(rest, skills.last());
        assert(rest.push(skills.last()) =~= skills);
        assert(skills_text(skills).take(head.len() as int) =~= skills_text(rest).take(
            head.len() as int,
        ));
    } else {
        assert(skills =~= Seq::<RetrievedSkill>::empty());
        assert(head.take(head.len() as int) =~= head);
    }
}

/// A question is what the user said last, all its text and without white space around it.
/// Where the last turn is not the user's, or says nothing, there is none.
pub proof fn law_question_is_the_last_turn(req: AnthropicRequest)
    ensures
        req.messages@.len() == 0 ==> fresh_query(req) is None,
        req.messages@.len() > 0 ==> {
            let last = req.messages@.last();
            let said = match last.content {
                MessageContent::Text(t) => t@,
                MessageContent::Blocks(v) => join(
                    Seq::new(v@.filter(is_text()).len(), |i: int| v@.filter(is_text())[i]->text@),
                    "\n"@,
                ),
            };
            &&& last.role@ != "user"@ ==> fresh_query(req) is None
            &&& last.role@ == "user"@ && trim(said).len() == 0 ==> fresh_query(req) is None
            &&& last.role@ == "user"@ && trim(said).len() > 0 ==> fresh_query(req) == Some(trim(said))
        },
{
    if req.messages@.len() > 0 {
        if let MessageContent::Blocks(v) = req.messages@.last().content {
            lemma_texts(v@);
        }
    }
}

proof fn lemma_texts(blocks: Seq<ContentBlock>)
    ensures
        picked(blocks, block_text()) == Seq::new(
            blocks.filter(is_text()).len(),
            |i: int| blocks.filter(is_text())[i]->text@,
        ),
    decreases blocks.len(),
{
    reveal(Seq::filter);
    let told = picked(blocks, block_text());
    let texts = blocks.filter(is_text());
    if blocks.len() > 0 {
        let rest = blocks.drop_last();
        lemma_texts(rest);
        let before = Seq::new(rest.filter(is_text()).len(), |i: int| rest.filter(is_text())[i]->text@);
        assert(picked(rest, block_text()) == before);
        assert(told =~= Seq::new(texts.len(), |i: int| texts[i]->text@));
    } else {
        assert(told =~= Seq::new(texts.len(), |i: int| texts[i]->text@));
    }
}

/// The key for background work is the one that is set, whatever clients send; where none is
/// set it is the last that a client sent, and an empty key is none.
pub proof fn law_background_key(set: Option<String>, remembered: Option<String>, key: Seq<char>)
    ensures
        set is Some ==> background_key(set, remembered) == set,
        set is None ==> background_key(set, remembered) == remembered,
        key.len() > 0 ==> remembered_after(Some(seq![]), Some(key)) == Some(key),
        remembered_after(Some(key), None) == Some(key),
        remembered_after(Some(key), Some(seq![])) == Some(key),
{
}

// ---------------------------------------------------------------------------
// What is distilled
// ---------------------------------------------------------------------------
/// A conversation is distilled from its fourth message on, and then after every six more; a
/// distilled one is remembered, and at most ten thousand are.
pub proof fn law_distilling_comes_in_strides(
    seen: Map<u64, usize>,
    sig: u64,
    other: u64,
    n: usize,
    messages: int,
)
    ensures
        !seen.contains_key(sig) ==> (due(seen, sig, messages) <==> messages >= 4),
        seen.contains_key(sig) ==> (due(seen, sig, messages) <==> messages >= seen[sig] + 6),
        seen.insert(sig, n).len() <= 10000 ==> noted(seen, sig, n).contains_key(sig) && noted(
            seen,
            sig,
            n,
        )[sig] == n && (other != sig ==> (noted(seen, sig, n).contains_key(other)
            <==> seen.contains_key(other)) && (seen.contains_key(other) ==> noted(seen, sig, n)[other]
            == seen[other])),
        seen.insert(sig, n).len() > 10000 ==> !noted(seen, sig, n).contains_key(other),
{
}

/// The text tells what a block says: a text and thoughts as they are, a tool use with its name
/// and a result with what it gave back, each cut where it is too long.
pub open spec fn line_tells(t: Seq<char>, b: ContentBlock) -> bool {
    match b {
        ContentBlock::Text { text, .. } => t == text@,
        ContentBlock::Thinking { thinking } => t == thinking@,
        ContentBlock::ToolUse { name, input, .. } => {
            let all = json_text(input@);
            &&& encode_utf8(all).len() <= 500 ==> t == "[tool_use "@ + name@ + ": "@ + all + "]"@
            &&& encode_utf8(all).len() > 500 ==> t == "[tool_use "@ + name@ + ": "@ + first_chars(
                all,
                500,
            ) + "]"@
        },
        ContentBlock::ToolResult { content, .. } => {
            let all = result_text(content);
            &&& encode_utf8(all).len() <= 800 ==> t == "[tool_result: "@ + all + "]"@
            &&& encode_utf8(all).len() > 800 ==> t == "[tool_result: "@ + first_chars(all, 800)
                + "]"@
        },
        ContentBlock::Image { .. } => false,
    }
}

/// The test for a block that says anything: all but images.
pub open spec fn is_said() -> spec_fn(ContentBlock) -> bool {
    |b: ContentBlock| !(b is Image)
}

/// A turn is read whole: a plain one as it is, and of one in blocks each that says anything, in
/// their order and one to a line.
pub proof fn law_turns_are_read(c: MessageContent)
    ensures
        match c {
            MessageContent::Text(t) => turn_text(c) == t@,
            MessageContent::Blocks(v) => {
                let said = v@.filter(is_said());
                exists|lines: Seq<Seq<char>>|
                    {
                        &&& #[trigger] lines.len() == said.len()
                        &&& forall|i: int|
                            0 <= i < said.len() ==> line_tells(#[trigger] lines[i], said[i])
                        &&& turn_text(c) == join(lines, "\n"@)
                    }
            },
        },
{
    if let MessageContent::Blocks(v) = c {
        lemma_lines(v@);
        let lines = picked(v@, block_line());
        assert(lines.len() == v@.filter(is_said()).len());
    }
}

proof fn lemma_lines(blocks: Seq<ContentBlock>)
    ensures
        picked(blocks, block_line()).len() == blocks.filter(is_said()).len(),
        forall|i: int|
            0 <= i < blocks.filter(is_said()).len() ==> line_tells(
                #[trigger] picked(blocks, block_line())[i],
                blocks.filter(is_said())[i],
            ),
    decreases blocks.len(),
{
    reveal(Seq::filter);
    if blocks.len() > 0 {
        let rest = blocks.drop_last();
        lemma_lines(rest);
        let told = picked(blocks, block_line());
        let said = blocks.filter(is_said());
        assert forall|i: int| 0 <= i < said.len() implies line_tells(#[trigger] told[i], said[i]) by {
            if i < rest.filter(is_said()).len() {
                assert(told[i] == picked(rest, block_line())[i]);
                assert(said[i] == rest.filter(is_said())[i]);
            }
        }
    }
}

/// What a turn adds to a transcript: who spoke and what was said, unless that is blank.
pub open spec fn turn_line(m: Message) -> Seq<char> {
    if trim(turn_text(m.content)).len() == 0 {
        seq![]
    } else {
        m.role@ + ": "@ + trim(turn_text(m.content)) + "\n\n"@
    }
}

/// The whole conversation, turn by turn.
pub open spec fn whole_transcript(ms: Seq<Message>) -> Seq<char> {
    Seq::new(ms.len(), |i: int| turn_line(ms[i])).flatten_alt()
}

proof fn lemma_encode_concat(a: Seq<char>, b: Seq<char>)
    ensures
        encode_utf8(a + b).len() == encode_utf8(a).len() + encode_utf8(b).len(),
    decreases a.len(),
{
    if a.len() == 0 {
        assert(a + b =~= b);
    } else {
        assert((a + b).drop_first() =~= a.drop_first() + b);
        lemma_encode_concat(a.drop_first(), b);
    }
}

proof fn lemma_turns_prefix(ms: Seq<Message>)
    ensures
        ({
            let t = turns(ms);
            let w = whole_transcript(ms);
            &&& t.len() <= w.len() && t == w.take(t.len() as int)
            &&& t == w || encode_utf8(t).len() > 12000
        }),
    decreases ms.len(),
{
    let lines = Seq::new(ms.len(), |i: int| turn_line(ms[i]));
    if ms.len() > 0 {
        let rest = ms.drop_last();
        lemma_turns_prefix(rest);
        assert(lines.drop_last() =~= Seq::new(rest.len(), |i: int| turn_line(rest[i])));
        let t = turns(rest);
        let w = whole_transcript(rest);
        let more = turn_line(ms.last());
        assert(whole_transcript(ms) =~= w + more);
        if encode_utf8(t).len() > 12000 {
            assert((w + more).take(t.len() as int) =~= w.take(t.len() as int));
        } else {
            assert(turns(ms) =~= w + more);
            assert((w + more).take((w + more).len() as int) =~= w + more);
        }
    } else {
        assert(turns(ms) =~= Seq::<char>::empty());
        assert(whole_transcript(ms) =~= Seq::<char>::empty());
    }
}

proof fn lemma_fitting_prefix(t: Seq<char>, bytes: nat)
    ensures
        ({
            let f = fitting(t, bytes);
            &&& f.len() <= t.len() && f == t.take(f.len() as int)
            &&& f == t || encode_utf8(t.take(f.len() as int + 1)).len() > bytes && f.len() < t.len()
            &&& encode_utf8(f).len() <= bytes
            &&& encode_utf8(t).len() <= bytes ==> f == t
        }),
    decreases t.len(),
{
    if t.len() == 0 || encode_utf8(t).len() <= bytes {
        assert(t.take(t.len() as int) =~= t);
    } else {
        let rest = t.drop_last();
        lemma_fitting_prefix(rest, bytes);
        let f = fitting(rest, bytes);
        assert(rest.take(f.len() as int) =~= t.take(f.len() as int));
        if f == rest {
            assert(t.take(f.len() as int + 1) =~= t);
        } else {
            assert(rest.take(f.len() as int + 1) =~= t.take(f.len() as int + 1));
        }
    }
}

/// A transcript is the conversation from its beginning, with every turn that says anything:
/// all of it where it has at most twelve thousand bytes, and else as much as fits into them.
pub proof fn law_transcript_is_the_conversation(ms: Seq<Message>)
    ensures
        ({
            let t = transcript(ms);
            let w = whole_transcript(ms);
            &&& t.len() <= w.len() && t == w.take(t.len() as int)
            &&& encode_utf8(t).len() <= 12000
            &&& encode_utf8(w).len() <= 12000 ==> t == w
            &&& t != w ==> t.len() < w.len() && encode_utf8(w.take(t.len() as int + 1)).len() > 12000
        }),
{
    lemma_turns_prefix(ms);
    let s = turns(ms);
    let w = whole_transcript(ms);
    lemma_fitting_prefix(s, 12000);
    let t = transcript(ms);
    assert(t == fitting(s, 12000));
    assert(s.take(t.len() as int) =~= w.take(t.len() as int));
    assert(w =~= s + w.skip(s.len() as int));
    lemma_encode_concat(s, w.skip(s.len() as int));
    if t != s {
        assert(s.take(t.len() as int + 1) =~= w.take(t.len() as int + 1));
    }
    if t == s && s != w {
        assert(encode_utf8(s).len() > 12000);
    }
}

/// A conversation is known by the first thing that its user said, at each of its turns.
pub proof fn law_conversation_is_known_by_its_question(ms: Seq<Message>, k: int, more: Seq<Message>)
    requires
        0 <= k < ms.len(),
        ms[k].role@ == "user"@,
        forall|i: int| 0 <= i < k ==> (#[trigger] ms[i]).role@ != "user"@,
    ensures
        signature(ms) == stable_number(turn_text(ms[k].content)),
        signature(ms + more) == signature(ms),
{
    lemma_user(ms, k, 0);
    let all = ms + more;
    assert forall|i: int| 0 <= i < k implies (#[trigger] all[i]).role@ != "user"@ by {
        assert(all[i] == ms[i]);
    }
    assert(all[k] == ms[k]);
    lemma_user(all, k, 0);
}

proof fn lemma_user(ms: Seq<Message>, k: int, i: int)
    requires
        0 <= i <= k < ms.len(),
        ms[k].role@ == "user"@,
        forall|j: int| 0 <= j < k ==> (#[trigger] ms[j]).role@ != "user"@,
    ensures
        crate::skills::distill::user_from(ms, i) == Some(k),
    decreases k - i,
{
    if i < k {
        assert(ms[i].role@ != "user"@);
        lemma_user(ms, k, i + 1);
    }
}

/// The lessons that are kept are the first three that have a title and a body, or all of them
/// where there are no more.
pub proof fn law_three_lessons_are_kept(lessons: Seq<distill::Lesson>)
    ensures
        ({
            let usable = lessons.filter(
                |l: distill::Lesson| trim(l.title@).len() > 0 && trim(l.body@).len() > 0,
            );
            &&& usable.len() <= 3 ==> kept(lessons) == usable
            &&& usable.len() > 3 ==> kept(lessons) == usable.take(3)
        }),
{
    lemma_usable(lessons);
}

proof fn lemma_usable(lessons: Seq<distill::Lesson>)
    ensures
        lessons.filter(crate::skills::distill::usable()) == lessons.filter(
            |l: distill::Lesson| trim(l.title@).len() > 0 && trim(l.body@).len() > 0,
        ),
    decreases lessons.len(),
{
    reveal(Seq::filter);
    if lessons.len() > 0 {
        lemma_usable(lessons.drop_last());
    }
}

/// A lesson is found by when to use it and by its title, and by its title alone where it does
/// not say when.
pub proof fn law_lessons_are_found_by_title(l: distill::Lesson)
    ensures
        trim(l.when_to_use@).len() == 0 ==> lesson_route(l) == l.title@,
        trim(l.when_to_use@).len() > 0 ==> lesson_route(l) == l.when_to_use@ + " "@ + l.title@,
        distill::title_number(l.title@) == stable_number(lowercase(l.title@)),
{
}

/// A distilled lesson is stored as a candidate, with all that it says and when it was written;
/// it counts as positive where it does not say what it is.
pub proof fn law_distilled_lesson_is_a_candidate(l: distill::Lesson, outcome: Seq<char>, now: u64)
    ensures
        ({
            let v = distill::candidate_value(l, outcome, now);
            &&& v.str_at("tier"@) == Some("candidate"@)
            &&& v.str_at("title"@) == Some(l.title@)
            &&& v.str_at("when_to_use"@) == Some(l.when_to_use@)
            &&& v.str_at("body"@) == Some(l.body@)
            &&& v.str_at("source"@) == Some("distill"@)
            &&& v.str_at("outcome"@) == Some(outcome)
            &&& v.str_at("kind"@) == Some(
                if trim(l.kind@).len() == 0 {
                    "positive"@
                } else {
                    crate::text::lower(trim(l.kind@))
                },
            )
            &&& v.get("created_at"@) == Some(int_value(now))
            &&& v.get("updated_at"@) == Some(int_value(now))
            &&& v.get("use_count"@) == Some(int_value(0))
            &&& v.get("success_count"@) == Some(int_value(0))
            &&& v.get("verified_at"@) is None
        }),
{
    lemma_lesson_keys();
}

/// A researched lesson is stored as a candidate too: nothing that was not verified is ever
/// stored as more.
pub proof fn law_researched_lesson_is_a_candidate(l: proactive::Lesson, now: u64)
    ensures
        ({
            let v = proactive::candidate_value(l, now);
            &&& v.str_at("tier"@) == Some("candidate"@)
            &&& v.str_at("title"@) == Some(l.title@)
            &&& v.str_at("when_to_use"@) == Some(l.when_to_use@)
            &&& v.str_at("body"@) == Some(l.body@)
            &&& v.str_at("kind"@) == Some("positive"@)
            &&& v.str_at("source"@) == Some("proactive"@)
            &&& v.get("created_at"@) == Some(int_value(now))
            &&& v.get("updated_at"@) == Some(int_value(now))
            &&& v.get("use_count"@) == Some(int_value(0))
            &&& v.get("success_count"@) == Some(int_value(0))
            &&& v.get("verified_at"@) is None
        }),
{
    lemma_lesson_keys();
}

// ---------------------------------------------------------------------------
// What is trusted
// ---------------------------------------------------------------------------
/// A candidate is promoted exactly where a search found anything, two hosts or more
/// corroborate it, and the model supports it with confidence. Where a search found nothing, or
/// any of these is missing, it is not; and where the search or the model failed, nothing is
/// decided.
pub proof fn law_promotion_takes_everything(
    found: Option<int>,
    domains: int,
    verdict: Option<Verdict>,
)
    ensures
        found is None ==> promotes(found, domains, verdict) is None,
        found == Some(0int) ==> promotes(found, domains, verdict) == Some(false),
        found is Some && found != Some(0int) && verdict is None ==> promotes(
            found,
            domains,
            verdict,
        ) is None,
        found is Some && found != Some(0int) && verdict is Some ==> promotes(found, domains, verdict)
            == Some(domains >= 2 && verdict->0.supported && verdict->0.confident),
        outcome_of(Some(true)) == Outcome::Promote,
        outcome_of(Some(false)) == Outcome::BackOff,
        outcome_of(None) == Outcome::Retry,
{
}

/// A candidate is looked into at once, and again when the waiting time after the last attempt
/// is over; a verified entry is trusted when its own is, and one without a time only where
/// there is none to wait. A clock that went back counts as no time.
pub proof fn law_waiting_times_are_kept(at: Option<u64>, now: u64, wait: u64)
    ensures
        at is None ==> is_ready(at, now, wait),
        at matches Some(t) ==> {
            &&& now >= t ==> (is_ready(at, now, wait) <==> now >= t + wait)
            &&& now < t ==> (is_ready(at, now, wait) <==> wait == 0)
            &&& now >= t ==> (is_soaked(at, now, wait) <==> now >= t + wait)
            &&& now < t ==> (is_soaked(at, now, wait) <==> wait == 0)
        },
        at is None ==> (is_soaked(at, now, wait) <==> wait == 0),
{
}

/// A promotion says which tier the entry is in, and since when.
pub proof fn law_promotion_names_the_tier(tier: Seq<char>, now: u64)
    ensures
        tier_fields(tier, "verified_at"@, now).str_at("tier"@) == Some(tier),
        tier_fields(tier, "verified_at"@, now).get("verified_at"@) == Some(int_value(now)),
        tier_fields(tier, "trusted_at"@, now).str_at("tier"@) == Some(tier),
        tier_fields(tier, "trusted_at"@, now).get("trusted_at"@) == Some(int_value(now)),
{
    lemma_lesson_keys();
}

/// A candidate is searched by its title, and by when to use it where it says that.
pub proof fn law_candidates_are_searched_by_title(p: SkillPayload)
    ensures
        trim(p.when_to_use@).len() == 0 ==> query_text(p) == p.title@,
        trim(p.when_to_use@).len() > 0 ==> query_text(p) == p.title@ + " "@ + p.when_to_use@,
{
}

/// A candidate is dropped when it is older than the days for which one is kept, and one
/// without a time never is.
pub proof fn law_old_candidates_are_dropped(at: Option<u64>, now: u64, days: u32)
    ensures
        at is None ==> !is_old(at, now, days),
        at matches Some(t) ==> (is_old(at, now, days) <==> now > t + days * 86400),
{
}

/// Of the two that are alike, trust counts first and then time: three tiers, and the later of
/// two times, where the time of verification counts before that of writing.
pub proof fn law_worth_is_trust_and_time(a: SkillPayload, b: SkillPayload)
    requires
        ({
            let t = if b.verified_at is Some {
                b.verified_at
            } else {
                b.created_at
            };
            t matches Some(x) ==> x < 10000000000
        }),
    ensures
        a.tier@ == "trusted"@ && b.tier@ != "trusted"@ ==> worth(a) > worth(b),
        a.tier@ == "verified"@ && b.tier@ != "trusted"@ && b.tier@ != "verified"@ ==> worth(a)
            > worth(b),
        a.tier@ == b.tier@ && a.verified_at is Some && b.verified_at is Some ==> (worth(a) > worth(b)
            <==> a.verified_at->0 > b.verified_at->0),
        a.tier@ == b.tier@ && a.verified_at is None && b.verified_at is None && a.created_at is Some
            && b.created_at is Some ==> (worth(a) > worth(b) <==> a.created_at->0 > b.created_at->0),
{
    reveal_strlit("trusted");
    reveal_strlit("verified");
    assert("trusted"@.len() == 7 && "verified"@.len() == 8);
}

/// Of a pair, the later entry goes, unless it is worth more than the earlier one.
pub proof fn law_one_of_a_pair_goes(es: Seq<Entry>, i: int, j: int)
    requires
        0 <= i < j < es.len(),
    ensures
        es[i].worth < es[j].worth ==> loser(es, i, j) == es[i].id,
        es[i].worth >= es[j].worth ==> loser(es, i, j) == es[j].id,
{
}

/// The pair is one to decide on: the two are alike, the later one was not deleted, and neither
/// was the earlier one when its turn began.
pub open spec fn is_open(es: Seq<Entry>, deleted: Seq<u64>, i: int, j: int, a: int, b: int) -> bool {
    &&& 0 <= a < b < es.len()
    &&& b < es[a].like@.len() && es[a].like@[b]
    &&& !deleted.contains(es[b].id)
    &&& (a == i && j > i + 1) || !deleted.contains(es[a].id)
}

/// The walk misses no pair: what it gives is the first that is open, row by row, and where it
/// gives none there is none.
pub proof fn law_walk_misses_no_pair(es: Seq<Entry>, deleted: Seq<u64>, i: int, j: int)
    requires
        0 <= i < j,
    ensures
        match pair_from(es, deleted, i, j) {
            Some((a, b)) => is_open(es, deleted, i, j, a, b) && (a > i || a == i && b >= j)
                && forall|x: int, y: int|
                #[trigger] is_open(es, deleted, i, j, x, y) && (x > i || x == i && y >= j) ==> x > a
                    || x == a && y >= b,
            None => forall|x: int, y: int|
                #[trigger] is_open(es, deleted, i, j, x, y) ==> x < i || x == i && y < j,
        },
    decreases es.len() - i, es.len() - j,
{
    if i < es.len() {
        if (j == i + 1 && deleted.contains(es[i].id)) || j >= es.len() {
            law_walk_misses_no_pair(es, deleted, i + 1, i + 2);
            assert forall|x: int, y: int| x > i implies #[trigger] is_open(es, deleted, i, j, x, y)
                == is_open(es, deleted, i + 1, i + 2, x, y) by {}
        } else if deleted.contains(es[j].id) || !alike(es, i, j) {
            law_walk_misses_no_pair(es, deleted, i, j + 1);
            assert forall|x: int, y: int|
                x > i || x == i && y >= j implies #[trigger] is_open(es, deleted, i, j, x, y)
                == is_open(es, deleted, i, j + 1, x, y) by {}
        }
    }
}

/// A cluster leaves no close skill out: one that is not in it was taken, is not close, or comes
/// after the sixth member.
pub proof fn law_clusters_leave_none_out(
    ids: Seq<u64>,
    rows: Seq<Vec<bool>>,
    used: Set<u64>,
    i: int,
    k: int,
)
    requires
        0 <= i < k < ids.len(),
        !used.contains(ids[k]),
        close(rows, i, k),
        !cluster_at(ids, rows, used, i).contains(k),
    ensures
        cluster_at(ids, rows, used, i).len() == 6,
        cluster_at(ids, rows, used, i).last() < k,
{
    lemma_grown_all(ids, rows, used, i, i + 1, seq![i], k);
}

proof fn lemma_grown_all(
    ids: Seq<u64>,
    rows: Seq<Vec<bool>>,
    used: Set<u64>,
    i: int,
    j: int,
    cluster: Seq<int>,
    k: int,
)
    requires
        0 <= i < j,
        cluster.len() <= 6,
        cluster.len() > 0 && cluster.last() < j,
        j <= k < ids.len(),
        !used.contains(ids[k]),
        close(rows, i, k),
    ensures
        ({
            let c = grown(ids, rows, used, i, j, cluster);
            c.contains(k) || (c.len() == 6 && c.last() < k)
        }),
    decreases ids.len() - j,
{
    let c = grown(ids, rows, used, i, j, cluster);
    if cluster.len() < 6 {
        if !used.contains(ids[j]) && close(rows, i, j) {
            if j == k {
                lemma_grown_keeps(ids, rows, used, i, j + 1, cluster.push(j), cluster.len() as int);
                assert(c[cluster.len() as int] == k);
            } else {
                lemma_grown_all(ids, rows, used, i, j + 1, cluster.push(j), k);
            }
        } else {
            lemma_grown_all(ids, rows, used, i, j + 1, cluster, k);
        }
    }
}

proof fn lemma_grown_keeps(
    ids: Seq<u64>,
    rows: Seq<Vec<bool>>,
    used: Set<u64>,
    i: int,
    j: int,
    cluster: Seq<int>,
    n: int,
)
    requires
        0 <= n < cluster.len(),
    ensures
        ({
            let c = grown(ids, rows, used, i, j, cluster);
            c.len() >= cluster.len() && c[n] == cluster[n]
        }),
    decreases ids.len() - j,
{
    if !(j >= ids.len() || cluster.len() >= 6) {
        if !used.contains(ids[j]) && close(rows, i, j) {
            lemma_grown_keeps(ids, rows, used, i, j + 1, cluster.push(j), n);
        } else {
            lemma_grown_keeps(ids, rows, used, i, j + 1, cluster, n);
        }
    }
}

/// A merged lesson is stored with what it says, trusted exactly where a member was, and as old
/// as its oldest member.
pub proof fn law_merge_is_stored(m: Merged, ms: Seq<SkillPayload>, now: u64)
    ensures
        ({
            let v = merged_value(m, ms, now);
            &&& v.str_at("title"@) == Some(m.title@)
            &&& v.str_at("when_to_use"@) == Some(m.when_to_use@)
            &&& v.str_at("body"@) == Some(m.body@)
            &&& v.str_at("source"@) == Some("reflect"@)
            &&& v.get("updated_at"@) == Some(int_value(now))
            &&& v.str_at("tier"@) == Some(
                if exists|i: int| 0 <= i < ms.len() && (#[trigger] ms[i]).tier@ == "trusted"@ {
                    "trusted"@
                } else {
                    "verified"@
                },
            )
            &&& exists|t: u64|
                #![trigger int_value(t)]
                v.get("verified_at"@) == Some(int_value(t)) && (t == now || exists|i: int|
                    0 <= i < ms.len() && (#[trigger] ms[i]).verified_at == Some(t)) && forall|i: int|
                    0 <= i < ms.len() && (#[trigger] ms[i]).verified_at is Some ==> t
                        <= ms[i].verified_at->0
            &&& exists|t: u64|
                #![trigger int_value(t)]
                v.get("created_at"@) == Some(int_value(t)) && (t == now || exists|i: int|
                    0 <= i < ms.len() && (#[trigger] ms[i]).created_at == Some(t)) && forall|i: int|
                    0 <= i < ms.len() && (#[trigger] ms[i]).created_at is Some ==> t
                        <= ms[i].created_at->0
        }),
{
    lemma_lesson_keys();
    lemma_first_times(ms);
    let v = merged_value(m, ms, now);
    let t = crate::skills::reflect::or_now(crate::skills::reflect::first_verified(ms), now);
    let c = crate::skills::reflect::or_now(crate::skills::reflect::first_created(ms), now);
    assert(v.get("verified_at"@) == Some(int_value(t)));
    assert(v.get("created_at"@) == Some(int_value(c)));
}

proof fn lemma_first_times(ms: Seq<SkillPayload>)
    ensures
        match crate::skills::reflect::first_verified(ms) {
            Some(t) => (exists|i: int| 0 <= i < ms.len() && (#[trigger] ms[i]).verified_at == Some(t))
                && forall|i: int|
                0 <= i < ms.len() && (#[trigger] ms[i]).verified_at is Some ==> t
                    <= ms[i].verified_at->0,
            None => forall|i: int| 0 <= i < ms.len() ==> (#[trigger] ms[i]).verified_at is None,
        },
        match crate::skills::reflect::first_created(ms) {
            Some(t) => (exists|i: int| 0 <= i < ms.len() && (#[trigger] ms[i]).created_at == Some(t))
                && forall|i: int|
                0 <= i < ms.len() && (#[trigger] ms[i]).created_at is Some ==> t
                    <= ms[i].created_at->0,
            None => forall|i: int| 0 <= i < ms.len() ==> (#[trigger] ms[i]).created_at is None,
        },
    decreases ms.len(),
{
    if ms.len() > 0 {
        let rest = ms.drop_last();
        let n = rest.len() as int;
        lemma_first_times(rest);
        assert(ms[n] == ms.last());
        assert forall|i: int| 0 <= i < n implies #[trigger] ms[i] == rest[i] by {}
        if let Some(t) = crate::skills::reflect::first_verified(rest) {
            let i = choose|i: int| 0 <= i < rest.len() && (#[trigger] rest[i]).verified_at == Some(t);
            assert(ms[i].verified_at == Some(t));
            assert forall|k: int|
                0 <= k < n && (#[trigger] ms[k]).verified_at is Some implies t
                <= ms[k].verified_at->0 by {
                assert(rest[k].verified_at is Some);
            }
        } else {
            assert forall|k: int| 0 <= k < n implies (#[trigger] ms[k]).verified_at is None by {
                assert(rest[k].verified_at is None);
            }
        }
        if let Some(t) = crate::skills::reflect::first_created(rest) {
            let i = choose|i: int| 0 <= i < rest.len() && (#[trigger] rest[i]).created_at == Some(t);
            assert(ms[i].created_at == Some(t));
            assert forall|k: int|
                0 <= k < n && (#[trigger] ms[k]).created_at is Some implies t
                <= ms[k].created_at->0 by {
                assert(rest[k].created_at is Some);
            }
        } else {
            assert forall|k: int| 0 <= k < n implies (#[trigger] ms[k]).created_at is None by {
                assert(rest[k].created_at is None);
            }
        }
    }
}

/// Every member is listed for the model that merges them, numbered from one, with its title,
/// when to use it and its body.
pub proof fn law_members_are_listed(ms: Seq<SkillPayload>)
    requires
        ms.len() > 0,
    ensures
        listing_text(ms) + "\n\n"@ == Seq::new(
            ms.len(),
            |i: int|
                crate::numerals::decimal((i + 1) as nat) + ". "@ + ms[i].title@ + " — "@
                    + ms[i].when_to_use@ + "\n"@ + ms[i].body@ + "\n\n"@,
        ).flatten_alt(),
{
    let lines = Seq::new(ms.len(), |i: int| member_text(i, ms[i]));
    law_join_separates(lines, "\n\n"@);
    assert(Seq::new(lines.len(), |i: int| lines[i] + "\n\n"@) =~= Seq::new(
        ms.len(),
        |i: int|
            crate::numerals::decimal((i + 1) as nat) + ". "@ + ms[i].title@ + " — "@
                + ms[i].when_to_use@ + "\n"@ + ms[i].body@ + "\n\n"@,
    ));
}

// ---------------------------------------------------------------------------
// Facts, questions and evidence
// ---------------------------------------------------------------------------
/// A fact is half as fresh after three days, thirty or a hundred and eighty, as volatile as it
/// is; what is not said to be volatile ages slowest.
pub proof fn law_facts_age(volatility: Seq<char>)
    ensures
        volatility == "high"@ ==> half_life(volatility) == 3 * 86400,
        volatility == "medium"@ ==> half_life(volatility) == 30 * 86400,
        volatility != "high"@ && volatility != "medium"@ ==> half_life(volatility) == 180 * 86400,
{
    reveal_strlit("high");
    reveal_strlit("medium");
    assert("high"@.len() == 4 && "medium"@.len() == 6);
}

/// A fact is kept exactly where it has a subject and a value, the model is confident, and two
/// hosts or more corroborate it; and it is stored with all of that, and since when it holds.
pub proof fn law_facts_are_corroborated(
    f: Extracted,
    domains: Seq<Seq<char>>,
    now: u64,
)
    ensures
        is_corroborated(f, domains.len() as int) <==> trim(f.subject@).len() > 0 && trim(
            f.value@,
        ).len() > 0 && f.confident && domains.len() >= 2,
        ({
            let v = fact_value(f, domains, now);
            &&& v.str_at("subject"@) == Some(f.subject@)
            &&& v.str_at("value"@) == Some(f.value@)
            &&& v.str_at("claim"@) == Some(f.claim@)
            &&& v.str_at("volatility"@) == Some(f.volatility@)
            &&& v.get("half_life_secs"@) == Some(int_value(half_life(f.volatility@)))
            &&& v.get("confidence"@) == Some(f.confidence@)
            &&& v.get("observed_at"@) == Some(int_value(now))
            &&& v.get("valid_from"@) == Some(int_value(now))
            &&& v.str_at("source"@) == Some("proactive"@)
            &&& v.get("sources"@) matches Some(JsonV::Array(a)) && a.len() == domains.len()
                && forall|i: int|
                0 <= i < a.len() ==> #[trigger] a[i] == JsonV::String(domains[i])
        }),
{
    lemma_fact_keys();
}

/// A question is noted at the end, unless it is short or noted already; and of more than two
/// hundred, the oldest goes.
pub proof fn law_questions_are_noted(b: Seq<Seq<char>>, q: Seq<char>)
    requires
        b.len() <= 200,
    ensures
        ({
            let kept = first_chars(trim(q), 400);
            let short = encode_utf8(trim(q)).len() < 12;
            &&& short || b.contains(kept) ==> asked(b, q) == b
            &&& !short && !b.contains(kept) && b.len() < 200 ==> asked(b, q) == b.push(kept)
            &&& !short && !b.contains(kept) && b.len() == 200 ==> asked(b, q) == b.skip(1).push(kept)
        }),
{
    let kept = first_chars(trim(q), 400);
    assert(b.len() == 200 ==> b.push(kept).skip(1) =~= b.skip(1).push(kept));
}

/// The evidence is the first five of what was found, each with its title, its address and its
/// description, one to a line.
pub proof fn law_evidence_is_what_was_found(rs: Seq<SearchResultV>)
    requires
        rs.len() > 0,
    ensures
        evidence_text(rs) + "\n"@ == Seq::new(
            if rs.len() < 5 {
                rs.len()
            } else {
                5
            },
            |i: int|
                "- "@ + rs[i].title + " ("@ + rs[i].url + "): "@ + rs[i].description + "\n"@,
        ).flatten_alt(),
{
    let n: nat = if rs.len() < 5 {
        rs.len()
    } else {
        5
    };
    let lines = Seq::new(n, |i: int| evidence_line(rs[i]));
    law_join_separates(lines, "\n"@);
    assert(Seq::new(lines.len(), |i: int| lines[i] + "\n"@) =~= Seq::new(
        n,
        |i: int| "- "@ + rs[i].title + " ("@ + rs[i].url + "): "@ + rs[i].description + "\n"@,
    ));
}

// ---------------------------------------------------------------------------
// Documentation
// ---------------------------------------------------------------------------
/// A library is listed in a line of its own behind a dash, and no other line lists one.
pub proof fn law_libraries_are_listed(lines: Seq<Seq<char>>, line: Seq<char>)
    ensures
        ({
            let t = trim(line);
            let more = libraries_of(lines.push(line));
            if t.len() >= 2 && t[0] == '-' && t[1] == ' ' && trim(t.skip(2)).len() > 0 {
                more == libraries_of(lines).push(trim(t.skip(2)))
            } else {
                more == libraries_of(lines)
            }
        }),
        libraries_of(seq![]).len() == 0,
{
    reveal_strlit("- ");
    let t = trim(line);
    assert(lines.push(line).drop_last() =~= lines);
    if t.len() >= 2 {
        assert("- "@.len() == 2 && "- "@[0] == '-' && "- "@[1] == ' ');
        if t[0] == '-' && t[1] == ' ' {
            assert(t.take(2) =~= "- "@);
        }
        if t.take(2) == "- "@ {
            assert(t.take(2)[0] == t[0] && t.take(2)[1] == t[1]);
        }
    }
}

/// The test for a library that a question names: one with at least three bytes, as a word of
/// its own and in any case.
pub open spec fn is_asked_for(query: Seq<char>) -> spec_fn(Seq<char>) -> bool {
    |l: Seq<char>|
        encode_utf8(l).len() >= 3 && split(
            lowercase(query),
            |c: char| !crate::skills::docs::alphanumeric(c) && c != '-' && c != '_',
        ).contains(lowercase(l))
}

/// The libraries that are looked up are the first two that a question names.
pub proof fn law_two_libraries_are_looked_up(libs: Seq<Seq<char>>, query: Seq<char>)
    ensures
        ({
            let all = libs.filter(is_asked_for(query));
            &&& all.len() <= 2 ==> looked_up(libs, query) == all
            &&& all.len() > 2 ==> looked_up(libs, query) == all.take(2)
        }),
{
    lemma_named(libs, query);
}

proof fn lemma_named(libs: Seq<Seq<char>>, query: Seq<char>)
    ensures
        crate::skills::docs::named(
            libs,
            crate::skills::docs::lowered_all(libs),
            crate::skills::docs::question_words(lowercase(query)),
        ) == libs.filter(is_asked_for(query)),
    decreases libs.len(),
{
    reveal(Seq::filter);
    if libs.len() > 0 {
        let rest = libs.drop_last();
        lemma_named(rest, query);
        assert(crate::skills::docs::lowered_all(libs).drop_last()
            =~= crate::skills::docs::lowered_all(rest));
    }
}

/// What was found of each library is shown under its name, in their order, and cut at fifteen
/// hundred characters; a library of which nothing was found is not shown.
pub proof fn law_found_docs_are_shown(
    libs: Seq<Seq<char>>,
    found: Seq<Option<Seq<char>>>,
    l: Seq<char>,
    text: Seq<char>,
)
    requires
        libs.len() == found.len(),
    ensures
        snippets(libs.push(l), found.push(Some(text))) == snippets(libs, found) + "## "@ + l + "\n"@
            + first_chars(text, 1500) + "\n\n"@,
        snippets(libs.push(l), found.push(None)) == snippets(libs, found),
        snippets(seq![], seq![]).len() == 0,
{
    assert(libs.push(l).drop_last() =~= libs);
    assert(found.push(Some(text)).drop_last() =~= found);
    assert(found.push(None).drop_last() =~= found);
    assert(snippets(libs.push(l), found.push(Some(text))) =~= snippets(libs, found) + "## "@ + l
        + "\n"@ + first_chars(text, 1500) + "\n\n"@);
    assert(snippets(libs.push(l), found.push(None)) =~= snippets(libs, found));
}

// ---------------------------------------------------------------------------
// The store
// ---------------------------------------------------------------------------
/// A search asks for what is near, no more than are wanted and no worse than is allowed, with
/// the payloads; and only within the tiers that are named, where any are.
pub proof fn law_search_is_restricted(
    vector: JsonV,
    limit: u32,
    min_score: JsonV,
    tiers: Seq<Seq<char>>,
    with_vector: bool,
)
    ensures
        ({
            let v = search_value(vector, limit, min_score, tiers);
            let w = raw_search_value(vector, limit, min_score, tiers, with_vector);
            &&& v.get("vector"@) == Some(vector)
            &&& v.get("limit"@) == Some(int_value(limit as u64))
            &&& v.get("score_threshold"@) == Some(min_score)
            &&& v.bool_at("with_payload"@) == Some(true)
            &&& tiers.len() == 0 ==> v.get("filter"@) is None
            &&& tiers.len() > 0 ==> (v.get("filter"@) matches Some(f) && (f.get("should"@) matches Some(
                JsonV::Array(a),
            ) && a.len() == tiers.len() && forall|i: int|
                0 <= i < a.len() ==> (#[trigger] a[i]).str_at("key"@) == Some("tier"@)
                    && (a[i].get("match"@) matches Some(x) && x.str_at("value"@) == Some(tiers[i]))))
            &&& w.bool_at("with_vector"@) == Some(with_vector)
            &&& w.get("vector"@) == Some(vector) && w.get("limit"@) == v.get("limit"@)
            &&& w.get("filter"@) == v.get("filter"@) && w.get("score_threshold"@) == v.get(
                "score_threshold"@,
            )
        }),
{
    lemma_search_keys();
}

/// A walk asks for the points of its tier, or for all of them with their vectors.
pub proof fn law_walks_ask_for_their_points(tier: Seq<char>, limit: u32)
    ensures
        ({
            let v = scroll_value(tier, limit);
            &&& v.get("limit"@) == Some(int_value(limit as u64))
            &&& v.bool_at("with_payload"@) == Some(true)
            &&& v.bool_at("with_vector"@) == Some(false)
            &&& v.get("filter"@) matches Some(f) && (f.get("must"@) matches Some(JsonV::Array(a))
                && a.len() == 1 && a[0].str_at("key"@) == Some("tier"@) && (a[0].get(
                "match"@,
            ) matches Some(x) && x.str_at("value"@) == Some(tier)))
        }),
        ({
            let v = scroll_all_value(limit);
            &&& v.get("limit"@) == Some(int_value(limit as u64))
            &&& v.bool_at("with_payload"@) == Some(true)
            &&& v.bool_at("with_vector"@) == Some(true)
            &&& v.get("filter"@) is None
        }),
{
    lemma_search_keys();
}

/// A collection is addressed under its base and by its name.
pub proof fn law_collections_are_addressed(base: Seq<char>, name: Seq<char>, end: Seq<char>)
    ensures
        starts_with(address(base, name, end), base),
        address(base, name, end) == base + "/collections/"@ + name + end,
{
    assert(address(base, name, end).take(base.len() as int) =~= base);
}

/// Points are known by their numbers: one more is kept with its payload where it has one.
pub proof fn law_numbered_points_are_kept(
    points: Seq<(crate::json::Json, SkillPayload)>,
    p: (crate::json::Json, SkillPayload),
)
    ensures
        point_number(p.0@) matches Some(id) ==> numbered(points.push(p)) == numbered(points).push(
            (id, p.1),
        ),
        point_number(p.0@) is None ==> numbered(points.push(p)) == numbered(points),
        numbered(seq![]).len() == 0,
        p.0@ matches JsonV::String(s) ==> forall|n: u64|
            s == #[trigger] crate::numerals::decimal(n as nat) ==> point_number(p.0@) == Some(n),
{
    assert(points.push(p).drop_last() =~= points);
    if let JsonV::String(s) = p.0@ {
        assert forall|n: u64|
            s == #[trigger] crate::numerals::decimal(n as nat) implies point_number(p.0@) == Some(
            n,
        ) by {
            crate::numerals::law_decimal_reads_back(n as nat, u64::MAX as nat);
        }
    }
}

/// A text is embedded by the model that is set, as far as its first two thousand characters.
pub proof fn law_texts_are_embedded(model: Seq<char>, text: Seq<char>)
    ensures
        embed_value(model, text).str_at("model"@) == Some(model),
        embed_value(model, text).str_at("input"@) == Some(first_chars(text, 2000)),
{
    lemma_chat_keys();
}

// ---------------------------------------------------------------------------
// The log
// ---------------------------------------------------------------------------
/// An event is logged with all its fields, its time and its name, which no field hides.
pub proof fn law_events_are_logged(event: Seq<char>, fields: Map<Seq<char>, JsonV>, now: u64, k: Seq<char>)
    ensures
        ({
            let v = event_value(event, JsonV::Object(fields), now);
            &&& v.get("t"@) == Some(int_value(now))
            &&& v.str_at("ev"@) == Some(event)
            &&& k != "t"@ && k != "ev"@ ==> v.get(k) == JsonV::Object(fields).get(k)
        }),
        stem_of(event + ".jsonl"@) == event,
        !crate::text::ends_with(event, ".jsonl"@) ==> stem_of(event) == event,
{
    lemma_log_keys();
    let path = event + ".jsonl"@;
    assert(path.skip(event.len() as int) =~= ".jsonl"@);
    assert(path.take(event.len() as int) =~= event);
}

} // verus!
