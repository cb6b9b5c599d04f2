//! What holds of every configuration that variables make.
use crate::config::lists::{entry_error, map_error, map_of, model_map_of};
use crate::config::settings::{is_on, number_or, set_text, text_or, SkillsConfig, SkillsVars};
use crate::config::urls::{
    base_read, chat_url, first_error, models_url, upstreams_of, ConfigErrorV, UrlV,
};
use crate::config::effort::{effort_for, tier_of, tiers_of, EffortV};
use crate::config::{is_switched, set_base, Config, ConfigVars, Overrides};
use crate::numerals::{decimal, law_decimal_reads_back};
use crate::text::{
    entries, find, lower, lowercase, replace_all, split_once, strip_end, trim,
};
use crate::text_laws::{law_every_occurrence_is_replaced, law_search_is_right};
use vstd::prelude::*;

verus! {

// ---------------------------------------------------------------------------
// One variable
// ---------------------------------------------------------------------------
/// The flag follows the variable: `1` and `true`, in any case, switch it on, and nothing else
/// does.
pub open spec fn flag_follows(flag: bool, v: Option<String>) -> bool {
    &&& v is None ==> !flag
    &&& v matches Some(t) ==> {
        &&& t@ == "1"@ || lower(t@) == "true"@ ==> flag
        &&& flag ==> t@ == "1"@ || lower(t@) == "true"@
    }
}

/// The number follows the variable: it is the one that the variable writes, and the given one
/// where nothing is set.
pub open spec fn number_follows(n: int, v: Option<String>, max: int, default: int) -> bool {
    &&& v is None ==> n == default
    &&& forall|k: nat|
        k <= max && v is Some && v->0@ == #[trigger] decimal(k) ==> n == k
    &&& n != default ==> v is Some
}

/// The text follows the variable: it is the variable's without white space around it, and the
/// given one where nothing is left of it.
pub open spec fn text_follows(t: Seq<char>, v: Option<String>, default: Seq<char>) -> bool {
    &&& v is None ==> t == default
    &&& v matches Some(u) ==> {
        &&& trim(u@).len() > 0 ==> t == trim(u@)
        &&& trim(u@).len() == 0 ==> t == default
    }
}

/// The text follows the variable, or there is none.
pub open spec fn option_follows(o: Option<String>, v: Option<String>) -> bool {
    &&& v is None ==> o is None
    &&& v matches Some(u) ==> {
        &&& trim(u@).len() > 0 ==> (o matches Some(t) && t@ == trim(u@))
        &&& trim(u@).len() == 0 ==> o is None
    }
}

/// What is read of one variable follows it.
pub proof fn law_variables_are_followed(v: Option<String>, max: nat, default: nat, text: Seq<char>)
    ensures
        flag_follows(is_on(v), v),
        default <= max ==> number_follows(
            number_or(v, max, default) as int,
            v,
            max as int,
            default as int,
        ),
        text_follows(text_or(v, text), v, text),
        match set_text(v) {
            Some(t) => v is Some && t == trim(v->0@) && t.len() > 0,
            None => v is None || trim(v->0@).len() == 0,
        },
{
    assert forall|k: nat| k <= max && v is Some && v->0@ == #[trigger] decimal(k) implies number_or(
        v,
        max,
        default,
    ) == k by {
        law_decimal_reads_back(k, max);
    }
}

/// A switch of the main settings follows its variable in the same way, with the lower case of
/// all letters.
pub proof fn law_switches_are_followed(v: Option<String>)
    ensures
        v is None ==> !is_switched(v),
        v matches Some(t) ==> is_switched(v) == (t@ == "1"@ || lowercase(t@) == "true"@),
{
}

/// A base URL is the variable's without white space around it and slashes at its end.
pub proof fn law_base_is_followed(v: Option<String>)
    ensures
        v is None ==> set_base(v) is None,
        v matches Some(t) ==> match set_base(v) {
            Some(b) => b == strip_end(trim(t@), "/"@) && b.len() > 0,
            None => strip_end(trim(t@), "/"@).len() == 0,
        },
{
}

// ---------------------------------------------------------------------------
// The settings of the skills
// ---------------------------------------------------------------------------
/// Every setting of the skills follows its own variable, and stands at its default where that
/// is not set.
pub proof fn law_settings_follow_their_variables(c: SkillsConfig, vars: SkillsVars)
    requires
        c.made_of(vars),
    ensures
        flag_follows(c.enabled, vars.enabled),
        flag_follows(c.learn, vars.learn),
        flag_follows(c.proactive, vars.proactive),
        flag_follows(c.facts, vars.facts),
        flag_follows(c.tools, vars.tools),
        flag_follows(c.docs_inject, vars.docs_inject),
        flag_follows(c.reflect, vars.reflect),
        number_follows(c.top_k as int, vars.top_k, u32::MAX as int, 3),
        number_follows(c.retention_days as int, vars.retention_days, u32::MAX as int, 30),
        number_follows(c.verify_interval_secs as int, vars.verify_interval_secs, u64::MAX as int, 300),
        number_follows(c.soak_secs as int, vars.soak_secs, u64::MAX as int, 1209600),
        number_follows(c.verify_backoff_secs as int, vars.verify_backoff_secs, u64::MAX as int, 21600),
        number_follows(c.curate_interval_secs as int, vars.curate_interval_secs, u64::MAX as int, 600),
        number_follows(c.proactive_interval_secs as int, vars.proactive_interval_secs, u64::MAX as int, 600),
        number_follows(c.facts_validity_interval_secs as int, vars.facts_validity_interval_secs, u64::MAX as int, 1800),
        number_follows(c.eventlog_retention_days as int, vars.eventlog_retention_days, u64::MAX as int, 7),
        number_follows(c.reflect_interval_secs as int, vars.reflect_interval_secs, u64::MAX as int, 600),
        text_follows(c.qdrant_url@, vars.qdrant_url, "http://qdrant:6333"@),
        text_follows(c.collection@, vars.collection, "skills"@),
        text_follows(c.facts_collection@, vars.facts_collection, "facts"@),
        text_follows(c.embed_model@, vars.embed_model, ""@),
        text_follows(c.llm_model@, vars.llm_model, "auto"@),
        text_follows(c.eventlog_path@, vars.eventlog_path, ""@),
        option_follows(c.embed_url, vars.embed_url),
        option_follows(c.api_key, vars.api_key),
        option_follows(c.llm_url, vars.llm_url),
        option_follows(c.docs_mcp_url, vars.docs_mcp_url),
        option_follows(c.openrouter_key, vars.openrouter_key),
        c.min_score == vars.min_score,
        ({
            let tiers = crate::text::texts(c.inject_tiers@);
            let listed = match vars.inject_tiers {
                Some(t) => entries(t@, seq![',']).filter(|x: Seq<char>| x != "candidate"@),
                None => seq![],
            };
            &&& listed.len() > 0 ==> tiers == listed
            &&& listed.len() == 0 ==> tiers == seq!["verified"@, "trusted"@]
        }),
{
    if let Some(t) = vars.inject_tiers {
        lemma_same_tiers(entries(t@, seq![',']));
    }
    law_variables_are_followed(vars.enabled, 0, 0, ""@);
    law_variables_are_followed(vars.learn, 0, 0, ""@);
    law_variables_are_followed(vars.proactive, 0, 0, ""@);
    law_variables_are_followed(vars.facts, 0, 0, ""@);
    law_variables_are_followed(vars.tools, 0, 0, ""@);
    law_variables_are_followed(vars.docs_inject, 0, 0, ""@);
    law_variables_are_followed(vars.reflect, 0, 0, ""@);
    law_variables_are_followed(vars.top_k, u32::MAX as nat, 3, ""@);
    law_variables_are_followed(vars.retention_days, u32::MAX as nat, 30, ""@);
    law_variables_are_followed(vars.verify_interval_secs, u64::MAX as nat, 300, ""@);
    law_variables_are_followed(vars.soak_secs, u64::MAX as nat, 1209600, ""@);
    law_variables_are_followed(vars.verify_backoff_secs, u64::MAX as nat, 21600, ""@);
    law_variables_are_followed(vars.curate_interval_secs, u64::MAX as nat, 600, ""@);
    law_variables_are_followed(vars.proactive_interval_secs, u64::MAX as nat, 600, ""@);
    law_variables_are_followed(vars.facts_validity_interval_secs, u64::MAX as nat, 1800, ""@);
    law_variables_are_followed(vars.eventlog_retention_days, u64::MAX as nat, 7, ""@);
    law_variables_are_followed(vars.reflect_interval_secs, u64::MAX as nat, 600, ""@);
    law_variables_are_followed(vars.qdrant_url, 0, 0, "http://qdrant:6333"@);
    law_variables_are_followed(vars.collection, 0, 0, "skills"@);
    law_variables_are_followed(vars.facts_collection, 0, 0, "facts"@);
    law_variables_are_followed(vars.embed_model, 0, 0, ""@);
    law_variables_are_followed(vars.llm_model, 0, 0, "auto"@);
    law_variables_are_followed(vars.eventlog_path, 0, 0, ""@);
    law_variables_are_followed(vars.embed_url, 0, 0, ""@);
    law_variables_are_followed(vars.api_key, 0, 0, ""@);
    law_variables_are_followed(vars.llm_url, 0, 0, ""@);
    law_variables_are_followed(vars.docs_mcp_url, 0, 0, ""@);
    law_variables_are_followed(vars.openrouter_key, 0, 0, ""@);
}

proof fn lemma_same_tiers(v: Seq<Seq<char>>)
    ensures
        v.filter(crate::config::settings::is_injectable()) == v.filter(
            |x: Seq<char>| x != "candidate"@,
        ),
    decreases v.len(),
{
    reveal(Seq::filter);
    if v.len() > 0 {
        lemma_same_tiers(v.drop_last());
    }
}

/// Where nothing is set, the settings are the defaults.
pub proof fn law_nothing_set_is_the_default(c: SkillsConfig)
    requires
        c.is_default(),
    ensures
        !c.enabled,
        !c.learn,
        !c.proactive,
        !c.facts,
        !c.tools,
        !c.docs_inject,
        !c.reflect,
        c.top_k == 3,
        c.retention_days == 30,
        c.verify_interval_secs == 300,
        c.soak_secs == 1209600,
        c.verify_backoff_secs == 21600,
        c.curate_interval_secs == 600,
        c.proactive_interval_secs == 600,
        c.facts_validity_interval_secs == 1800,
        c.eventlog_retention_days == 7,
        c.reflect_interval_secs == 600,
        c.qdrant_url@ == "http://qdrant:6333"@,
        c.collection@ == "skills"@,
        c.facts_collection@ == "facts"@,
        c.embed_model@ == ""@,
        c.llm_model@ == "auto"@,
        c.eventlog_path@ == ""@,
        c.embed_url is None,
        c.api_key is None,
        c.llm_url is None,
        c.docs_mcp_url is None,
        c.openrouter_key is None,
        c.min_score is None,
        c.inject_tiers@.len() == 2,
        c.inject_tiers@[0]@ == "verified"@,
        c.inject_tiers@[1]@ == "trusted"@,
{
    let tiers = crate::text::texts(c.inject_tiers@);
    let two = seq!["verified"@, "trusted"@];
    assert(tiers == two && two.len() == 2 && two[0] == "verified"@ && two[1] == "trusted"@);
    assert(tiers[0] == c.inject_tiers@[0]@ && tiers[1] == c.inject_tiers@[1]@);
}

// ---------------------------------------------------------------------------
// Endpoints
// ---------------------------------------------------------------------------
/// A base URL is taken where it is an HTTP URL without query and fragment: without slashes at
/// its end, and with the segments of its path that hold anything. Each other one is refused
/// for its own reason.
pub proof fn law_base_urls_are_read(url: Seq<char>, parsed: Result<UrlV, Seq<char>>)
    ensures
        match base_read(url, parsed) {
            Ok((base, path)) => {
                &&& url.len() > 0
                &&& parsed matches Ok(u) && (u.scheme == "http"@ || u.scheme == "https"@)
                    && u.query is None && u.fragment is None && base == strip_end(url, "/"@) && (
                u.segments is None ==> path.len() == 0) && (u.segments matches Some(v) ==> path
                    == v.filter(|p: Seq<char>| p.len() > 0))
            },
            Err(e) => {
                &&& url.len() == 0 <==> e == ConfigErrorV::UrlEmpty
                &&& url.len() > 0 && parsed is Err ==> e == ConfigErrorV::UrlInvalid(parsed->Err_0)
                &&& url.len() > 0 && parsed is Ok ==> {
                    let u = parsed->Ok_0;
                    let http = u.scheme == "http"@ || u.scheme == "https"@;
                    &&& !http ==> e == ConfigErrorV::UrlScheme
                    &&& http ==> e == ConfigErrorV::UrlQuery && (u.query is Some || u.fragment is Some)
                }
            },
        },
{
    if let Ok(u) = parsed {
        if let Some(v) = u.segments {
            lemma_same_filter(v);
        }
    }
}

proof fn lemma_same_filter(v: Seq<Seq<char>>)
    ensures
        v.filter(crate::text::non_empty()) == v.filter(|p: Seq<char>| p.len() > 0),
    decreases v.len(),
{
    reveal(Seq::filter);
    if v.len() > 0 {
        lemma_same_filter(v.drop_last());
    }
}

/// A URL that is a chat endpoint is used as it is. One that ends within such a path is refused.
/// Any other one is a base: the endpoint stands under its version, and under the first where
/// it names none.
pub proof fn law_chat_endpoints(base: Seq<char>, path: Seq<Seq<char>>)
    ensures
        ({
            let n = path.len() as int;
            let whole = n >= 2 && path[n - 2] == "chat"@ && path[n - 1] == "completions"@;
            let part = n >= 1 && (path[n - 1] == "chat"@ || path[n - 1] == "completions"@);
            let version = n >= 1 && path[n - 1].len() >= 2 && (path[n - 1][0] == 'v' || path[n
                - 1][0] == 'V') && forall|i: int|
                1 <= i < path[n - 1].len() ==> '0' <= #[trigger] path[n - 1][i] <= '9';
            &&& whole ==> chat_url(base, path) == Ok::<_, ConfigErrorV>(base)
            &&& part && !whole ==> chat_url(base, path) == Err::<Seq<char>, _>(
                ConfigErrorV::UrlPartial,
            )
            &&& version && !part ==> chat_url(base, path) == Ok::<_, ConfigErrorV>(
                base + "/chat/completions"@,
            )
            &&& !version && !part ==> chat_url(base, path) == Ok::<_, ConfigErrorV>(
                base + "/v1/chat/completions"@,
            )
        }),
{
    let n = path.len() as int;
    if n >= 1 {
        assert(path.last() == path[n - 1]);
        assert(crate::config::urls::is_version(path[n - 1]) == (path[n - 1].len() >= 2 && (path[n
            - 1][0] == 'v' || path[n - 1][0] == 'V') && forall|i: int|
            1 <= i < path[n - 1].len() ==> '0' <= #[trigger] path[n - 1][i] <= '9'));
    }
}

/// The models endpoint stands beside the chat endpoint: both are one stem with their own end.
/// Where a base is neither, both are refused alike.
pub proof fn law_models_stand_beside_chat(base: Seq<char>, path: Seq<Seq<char>>)
    requires
        path.len() >= 2 && path[path.len() - 2] == "chat"@ && path.last() == "completions"@
            ==> base == strip_end(strip_end(base, "/chat/completions"@), "/"@)
            + "/chat/completions"@,
    ensures
        match (chat_url(base, path), models_url(base, path)) {
            (Ok(c), Ok(m)) => exists|stem: Seq<char>|
                c == #[trigger] (stem + "/chat/completions"@) && m == stem + "/models"@,
            (Err(a), Err(b)) => a == b,
            _ => false,
        },
{
    if path.len() >= 2 && path[path.len() - 2] == "chat"@ && path.last() == "completions"@ {
        let stem = strip_end(strip_end(base, "/chat/completions"@), "/"@);
        assert(chat_url(base, path)->Ok_0 == stem + "/chat/completions"@);
        assert(models_url(base, path)->Ok_0 == stem + "/models"@);
    } else if chat_url(base, path) is Ok {
        let stem = if crate::config::urls::is_versioned(path) {
            base
        } else {
            base + "/v1"@
        };
        reveal_strlit("/v1");
        reveal_strlit("/chat/completions");
        reveal_strlit("/v1/chat/completions");
        reveal_strlit("/models");
        reveal_strlit("/v1/models");
        assert("/v1"@ + "/chat/completions"@ =~= "/v1/chat/completions"@);
        assert("/v1"@ + "/models"@ =~= "/v1/models"@);
        assert(base + "/v1"@ + "/chat/completions"@ =~= base + "/v1/chat/completions"@);
        assert(base + "/v1"@ + "/models"@ =~= base + "/v1/models"@);
        assert(chat_url(base, path)->Ok_0 == stem + "/chat/completions"@);
        assert(models_url(base, path)->Ok_0 == stem + "/models"@);
    }
}

/// All the upstreams that a list names are taken, in their order; or none is, for what is
/// wrong with the first that has no endpoint, or because none is named.
pub proof fn law_upstreams_are_all_taken(raw: Seq<char>)
    ensures
        ({
            let urls = entries(raw, seq![';']);
            match upstreams_of(raw) {
                Ok(taken) => taken == urls && urls.len() > 0,
                Err(e) => if urls.len() == 0 {
                    e == ConfigErrorV::UrlEmpty
                } else {
                    exists|k: int|
                        0 <= k < urls.len() && (crate::config::urls::chat_of(
                            #[trigger] urls[k],
                        ) matches Err(x) && x == e) && forall|i: int|
                            0 <= i < k ==> crate::config::urls::chat_of(#[trigger] urls[i]) is Ok
                },
            }
        }),
{
    lemma_first_bad(entries(raw, seq![';']));
}

proof fn lemma_first_bad(urls: Seq<Seq<char>>)
    ensures
        first_error(urls) matches Some(e) ==> exists|k: int|
            0 <= k < urls.len() && (crate::config::urls::chat_of(#[trigger] urls[k]) matches Err(x)
                && x == e) && forall|i: int|
                0 <= i < k ==> crate::config::urls::chat_of(#[trigger] urls[i]) is Ok,
    decreases urls.len(),
{
    if urls.len() > 0 && first_error(urls) is Some {
        let rest = urls.drop_last();
        lemma_first_bad(rest);
        if first_error(rest) is Some {
            let e = first_error(rest)->0;
            let k = choose|k: int|
                0 <= k < rest.len() && (crate::config::urls::chat_of(#[trigger] rest[k]) matches Err(
                    x,
                ) && x == e) && forall|i: int|
                    0 <= i < k ==> crate::config::urls::chat_of(#[trigger] rest[i]) is Ok;
            assert(urls[k] == rest[k]);
            assert forall|i: int| 0 <= i < k implies crate::config::urls::chat_of(
                #[trigger] urls[i],
            ) is Ok by {
                assert(urls[i] == rest[i]);
            }
        } else {
            crate::config::urls::lemma_first_error(rest);
            let k = rest.len() as int;
            assert(urls[k] == urls.last());
            assert forall|i: int| 0 <= i < k implies crate::config::urls::chat_of(
                #[trigger] urls[i],
            ) is Ok by {
                assert(urls[i] == rest[i]);
            }
        }
    }
}

// ---------------------------------------------------------------------------
// The model map
// ---------------------------------------------------------------------------
/// One more entry maps its source to its target, whatever the source was mapped to before, and
/// leaves every other source alone.
pub proof fn law_entries_map_their_source(
    es: Seq<Seq<char>>,
    source: Seq<char>,
    target: Seq<char>,
)
    requires
        !source.contains('='),
    ensures
        map_of(es.push(source + seq!['='] + target)) == map_of(es).insert(
            trim(source),
            trim(target),
        ),
        map_of(seq![]) == Map::<Seq<char>, Seq<char>>::empty(),
{
    let e = source + seq!['='] + target;
    assert(es.push(e).drop_last() =~= es);
    crate::text_laws::law_split_once_cuts(source, '=', target);
}

/// A map is taken where each entry has a source and a target; else it is refused for the first
/// entry that has not.
pub proof fn law_bad_entries_are_refused(value: Seq<char>)
    ensures
        ({
            let es = entries(value, seq![';', '\n']);
            match model_map_of(value) {
                Ok(m) => m == map_of(es) && forall|i: int|
                    0 <= i < es.len() ==> (split_once(#[trigger] es[i], '=') matches Some((s, t))
                        && trim(s).len() > 0 && trim(t).len() > 0),
                Err(x) => exists|k: int|
                    {
                        &&& 0 <= k < es.len()
                        &&& match split_once(#[trigger] es[k], '=') {
                            None => x == ConfigErrorV::ModelMapEntry(es[k]),
                            Some((s, t)) => (trim(s).len() == 0 || trim(t).len() == 0) && x
                                == ConfigErrorV::ModelMapEmpty(es[k]),
                        }
                        &&& forall|i: int|
                            0 <= i < k ==> (split_once(#[trigger] es[i], '=') matches Some((s, t))
                                && trim(s).len() > 0 && trim(t).len() > 0)
                    },
            }
        }),
{
    lemma_map_error(entries(value, seq![';', '\n']));
}

proof fn lemma_map_error(es: Seq<Seq<char>>)
    ensures
        match map_error(es) {
            None => forall|i: int|
                0 <= i < es.len() ==> (split_once(#[trigger] es[i], '=') matches Some((s, t))
                    && trim(s).len() > 0 && trim(t).len() > 0),
            Some(x) => exists|k: int|
                {
                    &&& 0 <= k < es.len()
                    &&& match split_once(#[trigger] es[k], '=') {
                        None => x == ConfigErrorV::ModelMapEntry(es[k]),
                        Some((s, t)) => (trim(s).len() == 0 || trim(t).len() == 0) && x
                            == ConfigErrorV::ModelMapEmpty(es[k]),
                    }
                    &&& forall|i: int|
                        0 <= i < k ==> (split_once(#[trigger] es[i], '=') matches Some((s, t))
                            && trim(s).len() > 0 && trim(t).len() > 0)
                },
        },
    decreases es.len(),
{
    if es.len() > 0 {
        let rest = es.drop_last();
        let n = rest.len() as int;
        lemma_map_error(rest);
        assert(es[n] == es.last());
        assert forall|i: int| 0 <= i < n implies #[trigger] es[i] == rest[i] by {}
        match map_error(rest) {
            None => {
                assert forall|i: int| 0 <= i < n implies (split_once(#[trigger] es[i], '=') matches Some(
                    (s, t),
                ) && trim(s).len() > 0 && trim(t).len() > 0) by {
                    assert(es[i] == rest[i]);
                }
                assert(entry_error(es[n]) == map_error(es));
            },
            Some(x) => {
                let k = choose|k: int|
                    {
                        &&& 0 <= k < rest.len()
                        &&& match split_once(#[trigger] rest[k], '=') {
                            None => x == ConfigErrorV::ModelMapEntry(rest[k]),
                            Some((s, t)) => (trim(s).len() == 0 || trim(t).len() == 0) && x
                                == ConfigErrorV::ModelMapEmpty(rest[k]),
                        }
                        &&& forall|i: int|
                            0 <= i < k ==> (split_once(#[trigger] rest[i], '=') matches Some((s, t))
                                && trim(s).len() > 0 && trim(t).len() > 0)
                    };
                assert(es[k] == rest[k]);
                assert forall|i: int| 0 <= i < k implies (split_once(#[trigger] es[i], '=') matches Some(
                    (s, t),
                ) && trim(s).len() > 0 && trim(t).len() > 0) by {
                    assert(es[i] == rest[i]);
                }
            },
        }
    }
}

// ---------------------------------------------------------------------------
// What is wrong with variables
// ---------------------------------------------------------------------------
/// Variables make a configuration exactly where an upstream is named, all of them have
/// endpoints, the model map can be read, and keys are not both set and passed through. The
/// first of these that fails is reported. The first of two names of a variable wins.
pub proof fn law_bad_variables_are_refused(vars: ConfigVars)
    ensures
        ({
            let raw = if vars.upstream_base_url is Some {
                vars.upstream_base_url
            } else {
                vars.base_url
            };
            let key = if vars.upstream_api_key is Some {
                vars.upstream_api_key
            } else {
                vars.openrouter_api_key
            };
            let keyed = key is Some && key->0@.len() > 0;
            &&& raw is None ==> vars.error() == Some(ConfigErrorV::UrlRequired)
            &&& raw matches Some(t) ==> {
                &&& upstreams_of(t@) matches Err(e) ==> vars.error() == Some(e)
                &&& upstreams_of(t@) matches Ok(urls) ==> {
                    &&& vars.upstreams() == Ok::<_, ConfigErrorV>(urls)
                    &&& vars.model_map matches Some(m) ==> (model_map_of(m@) matches Err(e)
                        ==> vars.error() == Some(e))
                    &&& vars.model_map is None || model_map_of(vars.model_map->0@) is Ok ==> if keyed
                        && is_switched(vars.passthrough) {
                        vars.error() == Some(ConfigErrorV::KeyConflict)
                    } else {
                        vars.error() is None
                    }
                }
            }
            &&& keyed ==> vars.key() == Some(key->0@)
            &&& !keyed ==> vars.key() is None
            &&& vars.model_map is None ==> vars.models() == Ok::<_, ConfigErrorV>(
                Map::<Seq<char>, Seq<char>>::empty(),
            )
            &&& vars.model_map matches Some(m) ==> vars.models() == model_map_of(m@)
        }),
{
}

/// Every main setting follows its own variable, and stands at its default where that is not
/// set.
pub proof fn law_configuration_follows_its_variables(c: Config, vars: ConfigVars)
    requires
        c.made_of(vars),
        vars.error() is None,
    ensures
        number_follows(c.port as int, vars.port, u16::MAX as int, 3000),
        number_follows(c.heartbeat_secs as int, vars.heartbeat_secs, u64::MAX as int, 15),
        text_follows(c.bind@, vars.bind, "0.0.0.0"@),
        text_follows(c.websearch_url@, vars.websearch_url, "http://localhost:3100/mcp"@),
        option_follows(c.websearch_model, vars.websearch_model),
        c.passthrough_api_key == is_switched(vars.passthrough),
        c.upstream_tokenize == is_switched(vars.upstream_tokenize),
        c.debug == is_switched(vars.debug),
        c.verbose == is_switched(vars.verbose),
        c.log_requests == is_switched(vars.log_requests),
        c.reasoning_model == vars.reasoning_model,
        c.completion_model == vars.completion_model,
        vars.searxng_url is None ==> c.searxng_url is None,
        vars.searxng_url matches Some(t) ==> match c.searxng_url {
            Some(u) => u@ == strip_end(trim(t@), "/"@) && u@.len() > 0,
            None => strip_end(trim(t@), "/"@).len() == 0,
        },
        c.passthrough_api_key ==> c.api_key is None,
        vars.upstream_api_key matches Some(k) ==> k@.len() > 0 ==> (c.api_key matches Some(x) && x@
            == k@),
        vars.system_prompt_ignore_terms is None ==> c.system_prompt_ignore_terms@.len() == 0,
        vars.system_prompt_ignore_terms matches Some(t) ==> crate::text::texts(
            c.system_prompt_ignore_terms@,
        ) == crate::config::lists::first_terms(entries(t@, seq![';', '\n'])),
        vars.effort_map is None ==> c.effort_map@ == EffortV::nothing(),
        vars.effort_map matches Some(t) ==> c.effort_map@ == EffortV::nothing().with_segments(
            crate::text::split(t@, crate::text::one_of(seq![';'])),
        ),
{
    law_variables_are_followed(vars.port, u16::MAX as nat, 3000, ""@);
    law_variables_are_followed(vars.heartbeat_secs, u64::MAX as nat, 15, ""@);
    law_variables_are_followed(vars.bind, 0, 0, "0.0.0.0"@);
    law_variables_are_followed(vars.websearch_url, 0, 0, "http://localhost:3100/mcp"@);
    law_variables_are_followed(vars.websearch_model, 0, 0, ""@);
    law_base_is_followed(vars.searxng_url);
    law_bad_variables_are_refused(vars);
    let terms = crate::text::texts(c.system_prompt_ignore_terms@);
    assert(vars.system_prompt_ignore_terms is None ==> terms.len() == 0);
}

/// The command line wins where it says anything, and changes nothing where it does not: it
/// can only switch logging on, and only add terms.
pub proof fn law_command_line_wins(c: Config, by: Overrides, before: Config)
    requires
        c.overridden(by, before),
    ensures
        by.debug ==> c.debug,
        !by.debug ==> c.debug == before.debug,
        by.verbose ==> c.verbose,
        !by.verbose ==> c.verbose == before.verbose,
        by.port matches Some(p) ==> c.port == p,
        by.port is None ==> c.port == before.port,
        text_follows(c.bind@, by.bind, before.bind@),
        by.system_prompt_ignore@.len() == 0 ==> c.system_prompt_ignore_terms
            == before.system_prompt_ignore_terms,
{
    law_variables_are_followed(by.bind, 0, 0, before.bind@);
}

// ---------------------------------------------------------------------------
// Efforts
// ---------------------------------------------------------------------------
/// A tier is read as it is written: an effort, a colon and a budget.
pub proof fn law_tiers_are_read(effort: Seq<char>, n: u32)
    requires
        !effort.contains(':'),
        effort.len() > 0 ==> !crate::text::is_space(effort[0]),
    ensures
        tier_of(effort + seq![':'] + decimal(n as nat)) == Some((n, lower(trim(effort)))),
{
    let d = decimal(n as nat);
    let s = effort + seq![':'] + d;
    crate::numerals::lemma_numeral_round_trip(n as nat, 10);
    assert(crate::text::is_digit(d[0]) && crate::text::is_digit(d[d.len() - 1]));
    let none = Seq::<char>::empty();
    crate::text_laws::law_trim(none, s, none);
    assert(none + s + none =~= s);
    crate::text_laws::law_trim(none, d, none);
    assert(none + d + none =~= d);
    crate::text_laws::law_split_once_cuts(effort, ':', d);
    law_decimal_reads_back(n as nat, u32::MAX as nat);
}

/// A segment without `=` sets the tiers for every model, and one with it those of its model
/// alone; a segment that lists no tier changes nothing. A model's own tiers win.
pub proof fn law_segments_set_their_tiers(
    e: EffortV,
    model: Seq<char>,
    list: Seq<char>,
    other: Seq<char>,
    segment: Seq<char>,
)
    requires
        segment.len() > 0,
        trim(segment) == segment,
    ensures
        !segment.contains('=') && tiers_of(segment).len() > 0 ==> {
            let f = e.with_segment(segment);
            f.global == tiers_of(segment) && f.overrides == e.overrides
        },
        segment == model + seq!['='] + list && !model.contains('=') && tiers_of(list).len() > 0 ==> {
            let f = e.with_segment(segment);
            &&& f.tiers(trim(model)) == tiers_of(list)
            &&& other != trim(model) ==> f.tiers(other) == e.tiers(other)
            &&& f.global == e.global
        },
        segment == model + seq!['='] + list && !model.contains('=') && tiers_of(list).len() == 0
            ==> e.with_segment(segment) == e,
        !e.overrides.contains_key(other) ==> e.tiers(other) == e.global,
{
    if !segment.contains('=') {
        crate::text_laws::law_split_once_cuts(segment, '=', seq![]);
    }
    if segment == model + seq!['='] + list && !model.contains('=') {
        crate::text_laws::law_split_once_cuts(model, '=', list);
    }
}

/// The effort is that of the first tier whose budget is enough, where budgets beyond 16384 are
/// taken for that; and of the last tier where none is enough. Without tiers there is none.
pub proof fn law_effort_is_enough(tiers: Seq<(u32, Seq<char>)>, budget: u32)
    ensures
        tiers.len() == 0 ==> effort_for(tiers, budget) is None,
        tiers.len() > 0 ==> exists|k: int|
            {
                let b = if budget > 16384 {
                    16384
                } else {
                    budget
                };
                &&& 0 <= k < tiers.len()
                &&& effort_for(tiers, budget) == Some((#[trigger] tiers[k]).1)
                &&& b <= tiers[k].0 || k == tiers.len() - 1
                &&& forall|j: int| 0 <= j < k ==> (#[trigger] tiers[j]).0 < b
            },
{
    if tiers.len() > 0 {
        crate::config::effort::law_first_sufficient_tier(tiers, budget);
        let b = if budget > 16384 {
            16384
        } else {
            budget
        };
        let k = crate::config::effort::tier_from(tiers, b, 0);
        assert(crate::config::effort::within_limit(budget) == b);
        assert(effort_for(tiers, budget) == Some(tiers[k].1));
    }
}

/// The other endpoints stand beside the chat endpoint of each upstream: they have its stem with
/// their own end. The skills' own embeddings endpoint wins over the first upstream's.
pub proof fn law_endpoints_stand_beside_chat(
    c: Config,
    i: int,
    stem: Seq<char>,
    end: Seq<char>,
)
    requires
        0 <= i < c.chat_urls().len(),
        c.chat_urls()[i] == stem + "/chat/completions"@,
        find(c.chat_urls()[i], "/chat/completions"@) == Some(stem.len() as int),
    ensures
        c.siblings(end).len() == c.chat_urls().len(),
        c.siblings(end)[i] == stem + end,
        c.skills.embed_url matches Some(url) ==> c.embed_url() == Some(url@),
        c.skills.embed_url is None && i == 0 ==> c.embed_url() == Some(stem + "/embeddings"@),
{
    let url = c.chat_urls()[i];
    let p = "/chat/completions"@;
    reveal_strlit("/chat/completions");
    lemma_replaced_end(url, stem, p, end);
    lemma_replaced_end(url, stem, p, "/embeddings"@);
}

proof fn lemma_replaced_end(url: Seq<char>, stem: Seq<char>, p: Seq<char>, end: Seq<char>)
    requires
        p.len() > 0,
        url == stem + p,
        find(url, p) == Some(stem.len() as int),
    ensures
        replace_all(url, p, end) == stem + end,
{
    law_every_occurrence_is_replaced(url, p, end);
    let rest = url.skip(stem.len() as int + p.len());
    assert(url.take(stem.len() as int) =~= stem);
    assert(rest.len() == 0);
    law_every_occurrence_is_replaced(rest, p, end);
    assert(find(rest, p) is None) by {
        if let Some(k) = find(rest, p) {
            law_search_is_right(rest, p);
        }
    }
    assert(stem + end + rest =~= stem + end);
}

} // verus!
