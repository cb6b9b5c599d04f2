use anthropic_proxy::config::Config;
use anthropic_proxy::json::Json;
use anthropic_proxy::models::anthropic;
use anthropic_proxy::skills::curate::{curated_event, is_stale, priority, Entry, Walk};
use anthropic_proxy::skills::distill;
use anthropic_proxy::skills::facts;
use anthropic_proxy::skills::llm::{
    chat_body, chat_target, extract_json, find_object, openrouter_body, skip_thoughts, HardNext,
    Route, Router,
};
use anthropic_proxy::skills::proactive;
use anthropic_proxy::skills::reflect;
use anthropic_proxy::skills::store::{stable_id, SkillPayload};
use anthropic_proxy::skills::verify;
use anthropic_proxy::websearch::SearchResult;
use std::collections::VecDeque;

fn json(text: &str) -> Json {
    Json::parse(text).unwrap()
}

fn conversation(messages: Vec<(&str, &str)>) -> anthropic::AnthropicRequest {
    anthropic::AnthropicRequest {
        model: "m".to_string(),
        max_tokens: 64,
        messages: messages
            .into_iter()
            .map(|(role, text)| anthropic::Message {
                role: role.to_string(),
                content: anthropic::MessageContent::Text(text.to_string()),
            })
            .collect(),
        system: None,
        tools: None,
    }
}

#[test]
fn conversations_are_distilled_in_strides() {
    let mut tracker = distill::Tracker::new();
    assert!(!tracker.is_due(1, 3));
    assert!(tracker.is_due(1, 4));
    assert!(!tracker.is_due(1, 9));
    assert!(tracker.is_due(2, 8));
    assert!(!tracker.is_due(2, 13));
    assert!(tracker.is_due(1, 10));
    let mut config = Config::default();
    assert!(!distill::wants_distilling(&config, 9));
    config.skills.learn = true;
    assert!(!distill::wants_distilling(&config, 4));
    config.skills.enabled = true;
    assert!(distill::wants_distilling(&config, 4));
    assert!(!distill::wants_distilling(&config, 3));
}

#[test]
fn transcripts_name_the_speakers() {
    let mut req = conversation(vec![("user", " hi "), ("assistant", "  "), ("user", "bye")]);
    req.messages.push(anthropic::Message {
        role: "assistant".to_string(),
        content: anthropic::MessageContent::Blocks(vec![
            anthropic::ContentBlock::ToolUse {
                id: "t".to_string(),
                name: "Bash".to_string(),
                input: json("{\"a\":1}"),
            },
            anthropic::ContentBlock::Text {
                text: "done".to_string(),
                cache_control: None,
            },
        ]),
    });
    let text = distill::render_transcript(&req);
    assert!(text.starts_with("user: hi\n\nuser: bye\n\nassistant: "));
    assert!(text.contains("Bash"));
    assert!(text.ends_with("done\n\n"));
}

#[test]
fn long_transcripts_are_cut() {
    let long = "a".repeat(20_000);
    let req = conversation(vec![("user", &long), ("assistant", "never read")]);
    assert_eq!(distill::render_transcript(&req).len(), 12_000);
    // "user: " has six bytes, so that each of these characters begins at an even byte.
    let wide = "é".repeat(20_000);
    let req = conversation(vec![("user", &wide)]);
    assert_eq!(distill::render_transcript(&req).len(), 12_000);
    let shifted = format!("a{wide}");
    let cut = distill::render_transcript(&conversation(vec![("user", &shifted)]));
    assert_eq!(cut, format!("user: a{}", "é".repeat(5_996)));
    assert_eq!(cut.len(), 11_999);
    assert_eq!(distill::truncate("ééé", 4), "ééé");
    assert_eq!(distill::truncate("ééé", 2), "éé");
}

#[test]
fn conversations_are_told_by_their_first_question() {
    let one = conversation(vec![("user", "why"), ("assistant", "because")]);
    let longer = conversation(vec![("user", "why"), ("assistant", "so"), ("user", "and")]);
    let other = conversation(vec![("user", "how")]);
    assert_eq!(
        distill::conversation_signature(&one),
        distill::conversation_signature(&longer)
    );
    assert_ne!(
        distill::conversation_signature(&one),
        distill::conversation_signature(&other)
    );
}

fn lesson(title: &str, when: &str, body: &str, kind: &str) -> distill::Lesson {
    distill::Lesson {
        title: title.to_string(),
        when_to_use: when.to_string(),
        body: body.to_string(),
        kind: kind.to_string(),
    }
}

#[test]
fn a_few_usable_lessons_are_kept() {
    let lessons = vec![
        lesson(" ", "", "b", ""),
        lesson("A", "w", "b", ""),
        lesson("B", "", " ", ""),
        lesson("C", " ", "b", " Negative "),
        lesson("D", "", "b", ""),
        lesson("E", "", "b", ""),
    ];
    let kept = distill::kept_lessons(lessons);
    let titles: Vec<&str> = kept.iter().map(|l| l.title.as_str()).collect();
    assert_eq!(titles, ["A", "C", "D"]);
    assert_eq!(distill::route_of(&kept[0]), "w A");
    assert_eq!(distill::route_of(&kept[1]), "C");
    let first = distill::candidate(&kept[0], "success", 9);
    assert!(first.str_is("tier", "candidate"));
    assert!(first.str_is("kind", "positive"));
    assert!(first.str_is("outcome", "success"));
    assert_eq!(first.get("created_at").unwrap().as_u64(), Some(9));
    assert!(distill::candidate(&kept[1], "", 9).str_is("kind", "negative"));
}

#[test]
fn titles_are_known_in_any_case() {
    assert_eq!(distill::title_id("Hold Locks"), distill::title_id("hold LOCKS"));
    assert_eq!(distill::title_id("ÄÖ"), stable_id("äö"));
    assert_ne!(distill::title_id("a"), distill::title_id("b"));
    assert!(distill::judge_system().contains("STRICT JSON"));
    assert_eq!(
        distill::judge_user("t"),
        "Transcript:\nt\n\nReturn the JSON now."
    );
}

fn page(title: &str) -> SearchResult {
    SearchResult {
        title: title.to_string(),
        url: "https://a.org".to_string(),
        description: "d".to_string(),
    }
}

fn skill(tier: &str, title: &str) -> SkillPayload {
    SkillPayload {
        tier: tier.to_string(),
        title: title.to_string(),
        body: "b".to_string(),
        ..Default::default()
    }
}

fn verdict(supported: bool, confident: bool) -> Option<verify::Verdict> {
    Some(verify::Verdict {
        supported,
        confident,
    })
}

#[test]
fn promotion_takes_hosts_and_confidence() {
    assert_eq!(verify::verify(None, 5, verdict(true, true)), None);
    assert_eq!(verify::verify(Some(0), 0, None), Some(false));
    assert_eq!(verify::verify(Some(3), 2, None), None);
    assert_eq!(verify::verify(Some(3), 1, verdict(true, true)), Some(false));
    assert_eq!(verify::verify(Some(3), 2, verdict(true, false)), Some(false));
    assert_eq!(verify::verify(Some(3), 2, verdict(false, true)), Some(false));
    assert_eq!(verify::verify(Some(3), 2, verdict(true, true)), Some(true));
    assert_eq!(verify::outcome(Some(true)), verify::Outcome::Promote);
    assert_eq!(verify::outcome(Some(false)), verify::Outcome::BackOff);
    assert_eq!(verify::outcome(None), verify::Outcome::Retry);
}

#[test]
fn candidates_wait_between_attempts() {
    assert!(verify::is_due(None, 0, 100));
    assert!(!verify::is_due(Some(50), 149, 100));
    assert!(verify::is_due(Some(50), 150, 100));
    assert!(!verify::is_due(Some(50), 10, 100));
    assert!(!verify::has_soaked(None, 1_000, 1));
    assert!(verify::has_soaked(Some(10), 20, 10));
}

#[test]
fn promotions_are_written_down() {
    assert_eq!(
        verify::verified_fields(5).to_text(),
        "{\"tier\":\"verified\",\"verified_at\":5}"
    );
    assert_eq!(
        verify::trusted_fields(6).to_text(),
        "{\"tier\":\"trusted\",\"trusted_at\":6}"
    );
    assert_eq!(
        verify::attempted_fields(7).to_text(),
        "{\"verify_attempted_at\":7}"
    );
    assert_eq!(
        verify::promoted_event("trusted", "T").to_text(),
        "{\"tier\":\"trusted\",\"title\":\"T\"}"
    );
    assert_eq!(verify::rejected_event("T").to_text(), "{\"title\":\"T\"}");
}

#[test]
fn candidates_are_searched_by_title_and_use() {
    let mut p = skill("candidate", "Locks");
    assert_eq!(verify::query_of(&p), "Locks");
    p.when_to_use = "threads".to_string();
    assert_eq!(verify::query_of(&p), "Locks threads");
    let asked = verify::verify_user(&p, &vec![page("P")]);
    assert!(asked.starts_with("Candidate lesson:\nTitle: Locks\nWhen to use: threads\nBody: b\n"));
    assert!(asked.contains("- P (https://a.org): d"));
    assert!(verify::verify_system().contains("UNTRUSTED"));
}

fn fact(subject: &str, value: &str, confident: bool) -> facts::Extracted {
    facts::Extracted {
        subject: subject.to_string(),
        value: value.to_string(),
        claim: "c".to_string(),
        volatility: "medium".to_string(),
        confidence: json("0.9"),
        confident,
    }
}

#[test]
fn corroborated_facts_are_kept() {
    assert!(facts::is_kept(&fact("Rust", "1.90", true), 2));
    assert!(!facts::is_kept(&fact("Rust", "1.90", true), 1));
    assert!(!facts::is_kept(&fact("Rust", "1.90", false), 2));
    assert!(!facts::is_kept(&fact(" ", "1.90", true), 2));
    assert!(!facts::is_kept(&fact("Rust", "", true), 2));
    let f = fact("Rust", "1.90", true);
    assert_eq!(facts::fact_id(&f), stable_id("rust"));
    let stored = facts::stored_fact(&f, &vec!["a.org".to_string()], 4);
    assert_eq!(stored.get("half_life_secs").unwrap().as_u64(), Some(2_592_000));
    assert_eq!(stored.get("confidence").unwrap().to_text(), "0.9");
    assert_eq!(stored.get("sources").unwrap().to_text(), "[\"a.org\"]");
    assert!(facts::fact_event(&f).str_is("value", "1.90"));
    assert_eq!(facts::half_life_secs("high"), 259_200);
    assert_eq!(facts::half_life_secs("low"), 15_552_000);
    assert!(facts::fact_system().contains("TIME-SENSITIVE FACT"));
    assert!(facts::fact_user("q", &vec![]).starts_with("Question:\nq\n\n"));
}

#[test]
fn questions_are_kept_once() {
    let mut kept = VecDeque::new();
    proactive::record_question(&mut kept, "short");
    assert!(kept.is_empty());
    proactive::record_question(&mut kept, " why is the sky blue? ");
    proactive::record_question(&mut kept, "why is the sky blue?");
    assert_eq!(kept.len(), 1);
    let long = "é".repeat(500);
    proactive::record_question(&mut kept, &long);
    assert_eq!(kept[1].chars().count(), 400);
    for i in 0..300 {
        proactive::record_question(&mut kept, &format!("question number {i}"));
    }
    assert_eq!(kept.len(), 200);
    assert_eq!(kept[0], "question number 100");
    let taken = proactive::take_recent(&mut kept, 3);
    assert_eq!(taken[2], "question number 102");
    assert_eq!(kept.len(), 197);
    let mut one = VecDeque::from(["x".to_string()]);
    assert_eq!(proactive::take_recent(&mut one, 3), ["x"]);
}

#[test]
fn research_becomes_a_candidate() {
    let l = proactive::Lesson {
        title: "T".to_string(),
        when_to_use: "w".to_string(),
        body: "b".to_string(),
    };
    assert!(proactive::is_usable(&l));
    assert_eq!(proactive::route_of(&l), "w T");
    assert!(proactive::candidate(&l, 1).str_is("source", "proactive"));
    let event = proactive::learnt_event(&l, &"q".repeat(200));
    assert_eq!(event.str_or_empty("q").len(), 120);
    assert!(proactive::research_user("q", &vec![]).starts_with("Question: q\n\n"));
    assert!(proactive::research_system().contains("UNTRUSTED"));
    let blank = proactive::Lesson {
        title: " ".to_string(),
        ..l
    };
    assert!(!proactive::is_usable(&blank));
}

#[test]
fn stale_candidates_are_dropped() {
    assert!(!is_stale(None, 1_000_000, 1));
    assert!(!is_stale(Some(0), 86_400, 1));
    assert!(is_stale(Some(0), 86_401, 1));
    assert!(!is_stale(Some(10), 0, 0));
}

#[test]
fn tiers_count_before_times() {
    let mut trusted = skill("trusted", "a");
    let mut verified = skill("verified", "b");
    verified.verified_at = Some(2_000_000_000);
    trusted.created_at = Some(5);
    assert_eq!(priority(&trusted), 30_000_000_005);
    assert_eq!(priority(&verified), 22_000_000_000);
    assert_eq!(priority(&skill("candidate", "c")), 10_000_000_000);
}

fn entry(id: u64, worth: u64, like: Vec<bool>) -> Entry {
    Entry { id, worth, like }
}

#[test]
fn of_two_alike_the_better_stays() {
    let mut walk = Walk::new(vec![
        entry(1, 10, vec![true, true, false, true]),
        entry(2, 30, vec![true, true, false, true]),
        entry(3, 20, vec![false, false, true, false]),
        entry(4, 30, vec![true, true, false, true]),
    ]);
    // The first goes for the second; its turn still ends with the fourth.
    assert_eq!(walk.next(), Some(1));
    walk.was_deleted(1);
    assert_eq!(walk.next(), Some(1));
    walk.was_deleted(1);
    // Of two that are worth the same, the later goes.
    assert_eq!(walk.next(), Some(4));
    walk.was_deleted(4);
    assert_eq!(walk.next(), None);
    assert_eq!(
        curated_event(1, 2).to_text(),
        json("{\"dropped\":1,\"deduped\":2}").to_text()
    );
}

#[test]
fn clusters_share_no_skill() {
    let ids = vec![1, 2, 3, 4, 5];
    let near = |pairs: &[(usize, usize)]| {
        let mut rows = vec![vec![false; 5]; 5];
        for (i, j) in pairs {
            rows[*i][*j] = true;
        }
        rows
    };
    let rows = near(&[(0, 1), (0, 3), (1, 2), (2, 3), (2, 4)]);
    assert_eq!(reflect::clusters(&ids, &rows), [vec![0, 1, 3], vec![2, 4]]);
    assert!(reflect::clusters(&ids, &near(&[])).is_empty());
    let many: Vec<u64> = (0..10).collect();
    let all = vec![vec![true; 10]; 10];
    let sizes: Vec<usize> = reflect::clusters(&many, &all).iter().map(Vec::len).collect();
    assert_eq!(sizes, [6, 4]);
}

#[test]
fn merged_lessons_keep_their_standing() {
    let mut a = skill("verified", "A");
    a.verified_at = Some(50);
    a.created_at = Some(30);
    let mut b = skill("trusted", "B");
    b.verified_at = Some(40);
    let members = vec![a, b];
    assert!(reflect::is_settled(&members[0]));
    assert!(!reflect::is_settled(&skill("candidate", "C")));
    let merged = reflect::Merged {
        title: "M".to_string(),
        when_to_use: "w".to_string(),
        body: "x".to_string(),
    };
    assert!(reflect::is_merged(&merged));
    let stored = reflect::stored_merge(&merged, &members, 99);
    assert!(stored.str_is("tier", "trusted"));
    assert_eq!(stored.get("verified_at").unwrap().as_u64(), Some(40));
    assert_eq!(stored.get("created_at").unwrap().as_u64(), Some(30));
    assert_eq!(stored.get("updated_at").unwrap().as_u64(), Some(99));
    assert_eq!(reflect::route_of(&merged), "w M");
    assert_eq!(reflect::topic_of(&members[0]), "A ");
    assert!(reflect::is_replaced(1, 2));
    assert!(!reflect::is_replaced(2, 2));
    let asked = reflect::merge_user(&members, &Some(vec![page("P")]));
    assert!(asked.starts_with("Overlapping lessons:\n1. A — \nb\n\n2. B — \nb\n\nCurrent web"));
    let alone = reflect::merge_user(&members, &Some(vec![]));
    assert!(!alone.contains("UNTRUSTED"));
    assert_eq!(alone, reflect::merge_user(&members, &None));
    assert!(reflect::merge_system().contains("STRICT JSON"));
    assert!(reflect::merged_event("M", 2, "trusted").str_is("tier", "trusted"));
}

#[test]
fn hard_tasks_are_spread() {
    let mut router = Router::new();
    assert_eq!(router.pick_hard_route(0), Route::Nemotron);
    assert_eq!(router.pick_hard_route(119_999), Route::Auto);
    assert_eq!(router.pick_hard_route(120_000), Route::Nemotron);
    for _ in 0..5 {
        router.report_nemotron(false);
    }
    assert_eq!(router.pick_hard_route(120_001), Route::Gemini);
    for _ in 0..5 {
        router.report_nemotron(false);
    }
    assert_eq!(router.pick_hard_route(500_000), Route::Auto);
    router.report_nemotron(true);
    assert_eq!(router.pick_hard_route(500_000), Route::Nemotron);
}

#[test]
fn background_calls_are_quiet() {
    let body = chat_body("m", "sys", "ask", 50);
    assert_eq!(
        body.to_text(),
        json(
            r#"{"model": "m", "max_tokens": 50, "temperature": 0, "reasoning_effort": "low",
               "stream": false, "messages": [{"role": "system", "content": "sys\n/no_think"},
               {"role": "user", "content": "ask"}]}"#
        )
        .to_text()
    );
    assert!(openrouter_body("m", "s", "u", 1, true).str_is("model", "m:online"));
    assert!(openrouter_body("m", "s", "u", 1, false).str_is("model", "m"));
    let text = |s: &str| Some(s.to_string());
    assert_eq!(
        chat_target(&text("own"), &text("k"), text("up"), text("caller")),
        Some(("own".to_string(), text("k")))
    );
    assert_eq!(
        chat_target(&None, &text("k"), text("up"), text("caller")),
        Some(("up".to_string(), text("caller")))
    );
    assert_eq!(chat_target(&None, &None, None, None), None);
}

#[test]
fn objects_are_found_in_prose() {
    let value = extract_json("<think>{\"a\":0}</think> sure: ```json\n{\"a\": \"}\\\"\"}``` ok");
    assert!(value.unwrap().str_is("a", "}\""));
    assert_eq!(extract_json(" 7 "), None);
    assert_eq!(extract_json("42"), None);
    assert!(extract_json("[{\"a\": \"b\"}]").unwrap().str_is("a", "b"));
    assert!(extract_json(" {\"a\": \"c\"} ").unwrap().str_is("a", "c"));
    assert_eq!(extract_json("no object"), None);
    assert_eq!(extract_json("{\"a\": 1"), None);
    assert_eq!(extract_json("x {bad} y {\"a\":1}"), None);
    assert_eq!(find_object("a {b{c}d} e").as_deref(), Some("{b{c}d}"));
    assert_eq!(skip_thoughts("a</think>b</think>c"), "c");
}

#[test]
fn only_due_conversations_are_distilled() {
    let turn = ("user", "why");
    let long = conversation(vec![turn, ("assistant", "so"), turn, ("assistant", "ok")]);
    let short = conversation(vec![turn, ("assistant", "so"), turn]);
    let blank = conversation(vec![("user", " "), ("user", ""), ("user", " "), ("user", "")]);
    let mut tracker = distill::Tracker::new();
    let mut config = Config::default();
    config.skills.enabled = true;
    assert_eq!(distill::to_distil(&config, &mut tracker, &long), None);
    assert!(tracker.seen.is_empty());
    config.skills.learn = true;
    assert_eq!(distill::to_distil(&config, &mut tracker, &short), None);
    assert!(tracker.seen.is_empty());
    assert_eq!(
        distill::to_distil(&config, &mut tracker, &long),
        Some(distill::render_transcript(&long))
    );
    assert_eq!(tracker.seen.len(), 1);
    assert_eq!(distill::to_distil(&config, &mut tracker, &long), None);
    assert_eq!(distill::to_distil(&config, &mut tracker, &blank), None);
    assert_eq!(tracker.seen.len(), 2);
}

#[test]
fn hard_tasks_end_on_the_own_backend() {
    let mut router = Router::new();
    assert_eq!(router.first_route(false, 0), Route::Auto);
    assert_eq!(router.nem_last, None);
    assert_eq!(router.first_route(true, 0), Route::Nemotron);
    assert_eq!(router.nem_last, Some(0));
    assert!(matches!(
        router.after_attempt(Route::Nemotron, None),
        HardNext::OwnBackend
    ));
    assert_eq!(router.nem_fails, 1);
    assert!(matches!(router.after_attempt(Route::Auto, None), HardNext::Answer(None)));
    assert!(matches!(
        router.after_attempt(Route::Gemini, None),
        HardNext::OwnBackend
    ));
    assert_eq!(router.nem_fails, 1);
    match router.after_attempt(Route::Nemotron, Some("done".to_string())) {
        HardNext::Answer(text) => assert_eq!(text.as_deref(), Some("done")),
        HardNext::OwnBackend => panic!("expected an answer"),
    }
    assert_eq!(router.nem_fails, 0);
}
