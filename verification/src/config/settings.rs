//! Settings of the skills, from the variables that set them.
use crate::models::openai::copy_opt;
use crate::numerals::{parse_u32, parse_u64, parse_unsigned};
use crate::text::{entries, entry_texts, lower, lower_text, opt_text, same, texts, trim, trim_text};
use vstd::prelude::*;

verus! {

// ---------------------------------------------------------------------------
// One variable
// ---------------------------------------------------------------------------
/// A variable's text without white space around it, where anything is left.
pub open spec fn set_text(v: Option<String>) -> Option<Seq<char>> {
    match v {
        Some(t) => if trim(t@).len() > 0 {
            Some(trim(t@))
        } else {
            None
        },
        None => None,
    }
}

/// That text, or another.
pub open spec fn text_or(v: Option<String>, other: Seq<char>) -> Seq<char> {
    match set_text(v) {
        Some(t) => t,
        None => other,
    }
}

/// The variable switches something on: `1`, or `true` in any case.
pub open spec fn is_on(v: Option<String>) -> bool {
    match v {
        Some(t) => t@ == "1"@ || lower(t@) == "true"@,
        None => false,
    }
}

/// The number that a variable writes, or another.
pub open spec fn number_or(v: Option<String>, max: nat, other: nat) -> nat {
    match v {
        Some(t) => match parse_unsigned(t@, max) {
            Some(n) => n,
            None => other,
        },
        None => other,
    }
}

pub(crate) fn read_set(v: &Option<String>) -> (r: Option<String>)
    ensures
        opt_text(r) == set_text(*v),
{
    match v {
        Some(t) => {
            let trimmed = trim_text(t.as_str());
            if trimmed.as_str().is_empty() {
                None
            } else {
                Some(trimmed)
            }
        },
        None => None,
    }
}

pub(crate) fn read_text_or(v: &Option<String>, other: &str) -> (r: String)
    ensures
        r@ == text_or(*v, other@),
{
    match read_set(v) {
        Some(t) => t,
        None => other.to_string(),
    }
}

fn read_flag(v: &Option<String>) -> (r: bool)
    ensures
        r == is_on(*v),
{
    match v {
        Some(t) => same(t.as_str(), "1") || same(lower_text(t.as_str()).as_str(), "true"),
        None => false,
    }
}

fn read_u32_or(v: &Option<String>, other: u32) -> (r: u32)
    ensures
        r == number_or(*v, u32::MAX as nat, other as nat),
{
    match v {
        Some(t) => match parse_u32(t.as_str()) {
            Some(n) => n,
            None => other,
        },
        None => other,
    }
}

pub(crate) fn read_u64_or(v: &Option<String>, other: u64) -> (r: u64)
    ensures
        r == number_or(*v, u64::MAX as nat, other as nat),
{
    match v {
        Some(t) => match parse_u64(t.as_str()) {
            Some(n) => n,
            None => other,
        },
        None => other,
    }
}

/// The test for a tier whose skills can be injected: candidates are not verified.
pub open spec fn is_injectable() -> spec_fn(Seq<char>) -> bool {
    |tier: Seq<char>| tier != "candidate"@
}

/// The tiers that a variable lists, without that of the candidates, or the two that are
/// injected where it lists none.
pub open spec fn tiers_or_default(v: Option<String>) -> Seq<Seq<char>> {
    match v {
        Some(t) => {
            let tiers = entries(t@, seq![',']).filter(is_injectable());
            if tiers.len() > 0 {
                tiers
            } else {
                seq!["verified"@, "trusted"@]
            }
        },
        None => seq!["verified"@, "trusted"@],
    }
}

/// Whatever a variable lists, there is a tier to inject from, and candidates are never
/// injected.
pub proof fn law_candidates_are_excluded(v: Option<String>)
    ensures
        tiers_or_default(v).len() > 0,
        !tiers_or_default(v).contains("candidate"@),
{
    broadcast use vstd::seq_lib::group_filter_ensures;

    reveal_strlit("candidate");
    reveal_strlit("verified");
    reveal_strlit("trusted");
    let tiers = tiers_or_default(v);
    if v is Some {
        let kept = entries(v->0@, seq![',']).filter(is_injectable());
        if kept.contains("candidate"@) {
            let i = choose|i: int| 0 <= i < kept.len() && kept[i] == "candidate"@;
            assert(is_injectable()(kept[i]));
        }
    }
    assert("candidate"@.len() == 9 && "verified"@.len() == 8 && "trusted"@.len() == 7);
}

fn drop_candidates(tiers: Vec<String>) -> (r: Vec<String>)
    ensures
        texts(r@) == texts(tiers@).filter(is_injectable()),
{
    let ghost own = tiers@;
    let ghost all = texts(own);
    let mut kept: Vec<String> = Vec::new();
    proof {
        reveal(Seq::filter);
        assert(all.take(0) =~= Seq::<Seq<char>>::empty());
        assert(texts(kept@) =~= Seq::<Seq<char>>::empty());
    }
    for t in it: tiers
        invariant
            it.seq() == own,
            all == texts(own),
            texts(kept@) == all.take(it.index()).filter(is_injectable()),
    {
        let ghost before = kept@;
        proof {
            reveal(Seq::filter);
            assert(all.take(it.index() + 1).drop_last() =~= all.take(it.index()));
            assert(all.take(it.index() + 1).last() == t@);
        }
        if !same(t.as_str(), "candidate") {
            let ghost v = t@;
            kept.push(t);
            assert(texts(kept@) =~= texts(before).push(v));
        }
    }
    assert(all.take(all.len() as int) =~= all);
    kept
}

fn default_tiers() -> (r: Vec<String>)
    ensures
        texts(r@) == seq!["verified"@, "trusted"@],
{
    let mut tiers: Vec<String> = Vec::new();
    tiers.push("verified".to_string());
    tiers.push("trusted".to_string());
    assert(texts(tiers@) =~= seq!["verified"@, "trusted"@]);
    tiers
}

fn read_tiers(v: &Option<String>) -> (r: Vec<String>)
    ensures
        texts(r@) == tiers_or_default(*v),
{
    match v {
        Some(t) => {
            let seps: [char; 1] = [','];
            assert(seps@ =~= seq![',']);
            let tiers = drop_candidates(entry_texts(t.as_str(), seps.as_slice()));
            if tiers.len() > 0 {
                tiers
            } else {
                default_tiers()
            }
        },
        None => default_tiers(),
    }
}

// ---------------------------------------------------------------------------
// All of them
// ---------------------------------------------------------------------------
/// How skills are learnt, kept and injected.
#[derive(Debug)]
pub struct SkillsConfig {
    /// Whether skills are used at all.
    pub enabled: bool,
    /// Base URL of the vector store.
    pub qdrant_url: String,
    /// The collection that holds the skills.
    pub collection: String,
    /// The collection that holds the facts, which decay.
    pub facts_collection: String,
    /// The embeddings endpoint; without one it is derived from the first upstream.
    pub embed_url: Option<String>,
    /// The embedding model; without one nothing is retrieved.
    pub embed_model: String,
    /// How many skills are injected at most.
    pub top_k: u32,
    /// The text of the least score that a skill must have, where one is set.
    pub min_score: Option<String>,
    /// The trust tiers whose skills are injected; that of the candidates never is.
    pub inject_tiers: Vec<String>,
    /// Whether finished conversations are learnt from.
    pub learn: bool,
    /// The model for background calls.
    pub llm_model: String,
    /// The key for background calls; without one the last key of a client serves.
    pub api_key: Option<String>,
    /// How many days an unverified candidate is kept.
    pub retention_days: u32,
    /// The chat endpoint for background calls; without one the upstream serves.
    pub llm_url: Option<String>,
    /// Seconds between two rounds of verification.
    pub verify_interval_secs: u64,
    /// Seconds that a verified entry waits before it can be trusted.
    pub soak_secs: u64,
    /// Seconds before a candidate that was not corroborated is tried again.
    pub verify_backoff_secs: u64,
    /// Seconds between two rounds of curation.
    pub curate_interval_secs: u64,
    /// Whether recent questions are researched.
    pub proactive: bool,
    /// Whether corroborated facts are kept.
    pub facts: bool,
    /// Seconds between two rounds of research.
    pub proactive_interval_secs: u64,
    /// Seconds between two rounds of fact checking.
    pub facts_validity_interval_secs: u64,
    /// Where learning events are logged; empty for nowhere.
    pub eventlog_path: String,
    /// How many days learning events are kept.
    pub eventlog_retention_days: u64,
    /// Whether requests run through the tool loop.
    pub tools: bool,
    /// The documentation server.
    pub docs_mcp_url: Option<String>,
    /// Whether documentation is injected.
    pub docs_inject: bool,
    /// Whether skills that are alike are merged.
    pub reflect: bool,
    /// Seconds between two rounds of merging.
    pub reflect_interval_secs: u64,
    /// The key for free models of OpenRouter; without one they are not asked.
    pub openrouter_key: Option<String>,
}

/// The variables that set them, each with its text where it is set.
pub struct SkillsVars {
    pub enabled: Option<String>,
    pub qdrant_url: Option<String>,
    pub collection: Option<String>,
    pub facts_collection: Option<String>,
    pub embed_url: Option<String>,
    pub embed_model: Option<String>,
    pub top_k: Option<String>,
    pub min_score: Option<String>,
    pub inject_tiers: Option<String>,
    pub learn: Option<String>,
    pub llm_model: Option<String>,
    pub api_key: Option<String>,
    pub retention_days: Option<String>,
    pub llm_url: Option<String>,
    pub verify_interval_secs: Option<String>,
    pub soak_secs: Option<String>,
    pub verify_backoff_secs: Option<String>,
    pub curate_interval_secs: Option<String>,
    pub proactive: Option<String>,
    pub facts: Option<String>,
    pub proactive_interval_secs: Option<String>,
    pub facts_validity_interval_secs: Option<String>,
    pub eventlog_path: Option<String>,
    pub eventlog_retention_days: Option<String>,
    pub tools: Option<String>,
    pub docs_mcp_url: Option<String>,
    pub docs_inject: Option<String>,
    pub reflect: Option<String>,
    pub reflect_interval_secs: Option<String>,
    pub openrouter_key: Option<String>,
}

impl SkillsConfig {
    /// Nothing is set.
    pub open spec fn is_default(self) -> bool {
        &&& !self.enabled
        &&& self.qdrant_url@ == "http://qdrant:6333"@
        &&& self.collection@ == "skills"@
        &&& self.facts_collection@ == "facts"@
        &&& self.embed_url is None
        &&& self.embed_model@ == ""@
        &&& self.top_k == 3
        &&& self.min_score is None
        &&& texts(self.inject_tiers@) == seq!["verified"@, "trusted"@]
        &&& !self.learn
        &&& self.llm_model@ == "auto"@
        &&& self.api_key is None
        &&& self.retention_days == 30
        &&& self.llm_url is None
        &&& self.verify_interval_secs == 300
        &&& self.soak_secs == 1209600
        &&& self.verify_backoff_secs == 21600
        &&& self.curate_interval_secs == 600
        &&& !self.proactive
        &&& !self.facts
        &&& self.proactive_interval_secs == 600
        &&& self.facts_validity_interval_secs == 1800
        &&& self.eventlog_path@ == ""@
        &&& self.eventlog_retention_days == 7
        &&& !self.tools
        &&& self.docs_mcp_url is None
        &&& !self.docs_inject
        &&& !self.reflect
        &&& self.reflect_interval_secs == 600
        &&& self.openrouter_key is None
    }

    /// The settings that the variables make: what is unset or unusable is at its default.
    pub open spec fn made_of(self, vars: SkillsVars) -> bool {
        &&& self.enabled == is_on(vars.enabled)
        &&& self.qdrant_url@ == text_or(vars.qdrant_url, "http://qdrant:6333"@)
        &&& self.collection@ == text_or(vars.collection, "skills"@)
        &&& self.facts_collection@ == text_or(vars.facts_collection, "facts"@)
        &&& opt_text(self.embed_url) == set_text(vars.embed_url)
        &&& self.embed_model@ == text_or(vars.embed_model, ""@)
        &&& self.top_k == number_or(vars.top_k, u32::MAX as nat, 3)
        &&& self.min_score == vars.min_score
        &&& texts(self.inject_tiers@) == tiers_or_default(vars.inject_tiers)
        &&& self.learn == is_on(vars.learn)
        &&& self.llm_model@ == text_or(vars.llm_model, "auto"@)
        &&& opt_text(self.api_key) == set_text(vars.api_key)
        &&& self.retention_days == number_or(vars.retention_days, u32::MAX as nat, 30)
        &&& opt_text(self.llm_url) == set_text(vars.llm_url)
        &&& self.verify_interval_secs == number_or(vars.verify_interval_secs, u64::MAX as nat, 300)
        &&& self.soak_secs == number_or(vars.soak_secs, u64::MAX as nat, 1209600)
        &&& self.verify_backoff_secs == number_or(vars.verify_backoff_secs, u64::MAX as nat, 21600)
        &&& self.curate_interval_secs == number_or(vars.curate_interval_secs, u64::MAX as nat, 600)
        &&& self.proactive == is_on(vars.proactive)
        &&& self.facts == is_on(vars.facts)
        &&& self.proactive_interval_secs == number_or(vars.proactive_interval_secs, u64::MAX as nat, 600)
        &&& self.facts_validity_interval_secs == number_or(vars.facts_validity_interval_secs, u64::MAX as nat, 1800)
        &&& self.eventlog_path@ == text_or(vars.eventlog_path, ""@)
        &&& self.eventlog_retention_days == number_or(vars.eventlog_retention_days, u64::MAX as nat, 7)
        &&& self.tools == is_on(vars.tools)
        &&& opt_text(self.docs_mcp_url) == set_text(vars.docs_mcp_url)
        &&& self.docs_inject == is_on(vars.docs_inject)
        &&& self.reflect == is_on(vars.reflect)
        &&& self.reflect_interval_secs == number_or(vars.reflect_interval_secs, u64::MAX as nat, 600)
        &&& opt_text(self.openrouter_key) == set_text(vars.openrouter_key)
    }
}

impl Default for SkillsConfig {
    fn default() -> (r: Self)
        ensures
            r.is_default(),
    {
        SkillsConfig {
            enabled: false,
            qdrant_url: "http://qdrant:6333".to_string(),
            collection: "skills".to_string(),
            facts_collection: "facts".to_string(),
            embed_url: None,
            embed_model: "".to_string(),
            top_k: 3,
            min_score: None,
            inject_tiers: default_tiers(),
            learn: false,
            llm_model: "auto".to_string(),
            api_key: None,
            retention_days: 30,
            llm_url: None,
            verify_interval_secs: 300,
            soak_secs: 1209600,
            verify_backoff_secs: 21600,
            curate_interval_secs: 600,
            proactive: false,
            facts: false,
            proactive_interval_secs: 600,
            facts_validity_interval_secs: 1800,
            eventlog_path: "".to_string(),
            eventlog_retention_days: 7,
            tools: false,
            docs_mcp_url: None,
            docs_inject: false,
            reflect: false,
            reflect_interval_secs: 600,
            openrouter_key: None,
        }
    }
}

impl SkillsConfig {
    /// The settings that the variables make.
    pub fn from_vars(vars: &SkillsVars) -> (r: SkillsConfig)
        ensures
            r.made_of(*vars),
    {
        SkillsConfig {
            enabled: read_flag(&vars.enabled),
            qdrant_url: read_text_or(&vars.qdrant_url, "http://qdrant:6333"),
            collection: read_text_or(&vars.collection, "skills"),
            facts_collection: read_text_or(&vars.facts_collection, "facts"),
            embed_url: read_set(&vars.embed_url),
            embed_model: read_text_or(&vars.embed_model, ""),
            top_k: read_u32_or(&vars.top_k, 3),
            min_score: copy_opt(&vars.min_score),
            inject_tiers: read_tiers(&vars.inject_tiers),
            learn: read_flag(&vars.learn),
            llm_model: read_text_or(&vars.llm_model, "auto"),
            api_key: read_set(&vars.api_key),
            retention_days: read_u32_or(&vars.retention_days, 30),
            llm_url: read_set(&vars.llm_url),
            verify_interval_secs: read_u64_or(&vars.verify_interval_secs, 300),
            soak_secs: read_u64_or(&vars.soak_secs, 1209600),
            verify_backoff_secs: read_u64_or(&vars.verify_backoff_secs, 21600),
            curate_interval_secs: read_u64_or(&vars.curate_interval_secs, 600),
            proactive: read_flag(&vars.proactive),
            facts: read_flag(&vars.facts),
            proactive_interval_secs: read_u64_or(&vars.proactive_interval_secs, 600),
            facts_validity_interval_secs: read_u64_or(&vars.facts_validity_interval_secs, 1800),
            eventlog_path: read_text_or(&vars.eventlog_path, ""),
            eventlog_retention_days: read_u64_or(&vars.eventlog_retention_days, 7),
            tools: read_flag(&vars.tools),
            docs_mcp_url: read_set(&vars.docs_mcp_url),
            docs_inject: read_flag(&vars.docs_inject),
            reflect: read_flag(&vars.reflect),
            reflect_interval_secs: read_u64_or(&vars.reflect_interval_secs, 600),
            openrouter_key: read_set(&vars.openrouter_key),
        }
    }
}

} // verus!
