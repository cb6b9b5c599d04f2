//! Configuration: what the proxy listens on, which upstreams it asks, and how.
pub mod effort;
pub mod laws;
pub mod lists;
pub mod settings;
pub mod urls;

pub use crate::config::effort::EffortMap;
pub use crate::config::settings::SkillsConfig;
pub use crate::config::urls::ConfigError;

use crate::config::effort::EffortV;
use crate::config::lists::{
    dedupe_terms, first_terms, map_result, map_texts, model_map_of, read_model_map, read_terms,
};
use crate::config::settings::{
    number_or, read_set, read_text_or, read_u64_or, set_text, text_or, SkillsVars,
};
use crate::config::urls::{
    all_resolve, chat_of, check_urls, first_error, law_models_follow_chat, lemma_first_error,
    models_of, read_upstreams, resolve_chat, resolve_models, text_result, texts_result,
    upstreams_of, ConfigErrorV,
};
use crate::models::openai::copy_opt;
use crate::numerals::{decimal, decimal_text, parse_u16};
use crate::strmap::StrMap;
use crate::text::{
    entries, lowercase, lowercase_text, non_empty, one_of, opt_text, replace_all, replace_text,
    same, split, strip_end, strip_end_text, texts, trim, trim_all, trim_text,
};
use vstd::prelude::*;

verus! {

/// The configuration of the proxy.
#[derive(Debug)]
pub struct Config {
    pub port: u16,
    pub bind: String,
    /// The upstreams, in the order in which they are tried.
    pub upstream_urls: Vec<String>,
    pub api_key: Option<String>,
    /// Whether the key of each request is handed on.
    pub passthrough_api_key: bool,
    /// Whether tokens are counted by the upstream.
    pub upstream_tokenize: bool,
    pub model_map: StrMap<String>,
    pub effort_map: EffortMap,
    pub system_prompt_ignore_terms: Vec<String>,
    pub reasoning_model: Option<String>,
    pub completion_model: Option<String>,
    pub debug: bool,
    pub verbose: bool,
    /// Whether the fields of each request are logged.
    pub log_requests: bool,
    /// Seconds of silence before a sign of life is sent; zero for none.
    pub heartbeat_secs: u64,
    /// The web search server.
    pub websearch_url: String,
    /// The model that browses; without one the browsing tools are taken away.
    pub websearch_model: Option<String>,
    /// The SearXNG instance that searches in place of the web search server.
    pub searxng_url: Option<String>,
    pub skills: SkillsConfig,
}

/// The variables that set it, each with its text where it is set.
pub struct ConfigVars {
    pub port: Option<String>,
    pub bind: Option<String>,
    pub upstream_base_url: Option<String>,
    pub base_url: Option<String>,
    pub upstream_api_key: Option<String>,
    pub openrouter_api_key: Option<String>,
    pub model_map: Option<String>,
    pub effort_map: Option<String>,
    pub system_prompt_ignore_terms: Option<String>,
    pub reasoning_model: Option<String>,
    pub completion_model: Option<String>,
    pub debug: Option<String>,
    pub verbose: Option<String>,
    pub passthrough: Option<String>,
    pub log_requests: Option<String>,
    pub upstream_tokenize: Option<String>,
    pub heartbeat_secs: Option<String>,
    pub websearch_url: Option<String>,
    pub websearch_model: Option<String>,
    pub searxng_url: Option<String>,
    pub skills: SkillsVars,
}

/// What is set on the command line.
pub struct Overrides {
    pub debug: bool,
    pub verbose: bool,
    pub port: Option<u16>,
    pub bind: Option<String>,
    pub system_prompt_ignore: Vec<String>,
}

// ---------------------------------------------------------------------------
// Reading
// ---------------------------------------------------------------------------
/// A switch is on, given its text and that text in lower case.
pub open spec fn switched(value: Seq<char>, lowered: Seq<char>) -> bool {
    value == "1"@ || lowered == "true"@
}

/// The variable switches something on.
pub open spec fn is_switched(v: Option<String>) -> bool {
    match v {
        Some(t) => switched(t@, lowercase(t@)),
        None => false,
    }
}

/// Whether a switch is on, given its text and that text in lower case.
pub fn switch_is_on(value: &str, lowered: &str) -> (r: bool)
    ensures
        r == switched(value@, lowered@),
{
    same(value, "1") || same(lowered, "true")
}

fn read_switch(v: &Option<String>) -> (r: bool)
    ensures
        r == is_switched(*v),
{
    match v {
        Some(t) => {
            let lowered = lowercase_text(t.as_str());
            switch_is_on(t.as_str(), lowered.as_str())
        },
        None => false,
    }
}

/// The first of two variables that is set.
pub open spec fn first_set(a: Option<String>, b: Option<String>) -> Option<String> {
    if a is Some {
        a
    } else {
        b
    }
}

/// The text, unless it is empty.
pub open spec fn unless_empty(v: Option<String>) -> Option<Seq<char>> {
    match v {
        Some(t) => if t@.len() > 0 {
            Some(t@)
        } else {
            None
        },
        None => None,
    }
}

/// A base URL without slashes at its end, where anything is left.
pub open spec fn set_base(v: Option<String>) -> Option<Seq<char>> {
    match v {
        Some(t) => if strip_end(trim(t@), "/"@).len() > 0 {
            Some(strip_end(trim(t@), "/"@))
        } else {
            None
        },
        None => None,
    }
}

fn read_base(v: &Option<String>) -> (r: Option<String>)
    ensures
        opt_text(r) == set_base(*v),
{
    match v {
        Some(t) => {
            let base = strip_end_text(trim_text(t.as_str()).as_str(), "/");
            if base.as_str().is_empty() {
                None
            } else {
                Some(base)
            }
        },
        None => None,
    }
}

fn read_key(a: &Option<String>, b: &Option<String>) -> (r: Option<String>)
    ensures
        opt_text(r) == unless_empty(first_set(*a, *b)),
{
    let chosen = match a {
        Some(t) => Some(t),
        None => match b {
            Some(t) => Some(t),
            None => None,
        },
    };
    match chosen {
        Some(t) => if t.as_str().is_empty() {
            None
        } else {
            Some(t.clone())
        },
        None => None,
    }
}

impl ConfigVars {
    /// The upstreams that are named.
    pub open spec fn upstreams(self) -> Result<Seq<Seq<char>>, ConfigErrorV> {
        match first_set(self.upstream_base_url, self.base_url) {
            Some(raw) => upstreams_of(raw@),
            None => Err(ConfigErrorV::UrlRequired),
        }
    }

    /// The model map that is set.
    pub open spec fn models(self) -> Result<Map<Seq<char>, Seq<char>>, ConfigErrorV> {
        match self.model_map {
            Some(value) => model_map_of(value@),
            None => Ok(Map::empty()),
        }
    }

    /// The key that is set.
    pub open spec fn key(self) -> Option<Seq<char>> {
        unless_empty(first_set(self.upstream_api_key, self.openrouter_api_key))
    }

    /// What is wrong with the variables, if anything is.
    pub open spec fn error(self) -> Option<ConfigErrorV> {
        match self.upstreams() {
            Err(e) => Some(e),
            Ok(_) => match self.models() {
                Err(e) => Some(e),
                Ok(_) => if is_switched(self.passthrough) && self.key() is Some {
                    Some(ConfigErrorV::KeyConflict)
                } else {
                    None
                },
            },
        }
    }

    /// The terms that are set, without repetitions.
    pub open spec fn terms(self) -> Seq<Seq<char>> {
        match self.system_prompt_ignore_terms {
            Some(value) => first_terms(entries(value@, seq![';', '\n'])),
            None => seq![],
        }
    }

    /// The effort map that is set.
    pub open spec fn efforts(self) -> EffortV {
        match self.effort_map {
            Some(value) => EffortV::nothing().with_segments(split(value@, one_of(seq![';']))),
            None => EffortV::nothing(),
        }
    }
}

impl Default for Config {
    fn default() -> (r: Self)
        ensures
            r.port == 3000,
            r.bind@ == "0.0.0.0"@,
            texts(r.upstream_urls@) == seq!["http://localhost:11434"@],
            r.api_key is None,
            !r.passthrough_api_key,
            !r.upstream_tokenize,
            map_texts(r.model_map@) == Map::<Seq<char>, Seq<char>>::empty(),
            r.effort_map@ == EffortV::nothing(),
            r.system_prompt_ignore_terms@.len() == 0,
            r.reasoning_model is None,
            r.completion_model is None,
            !r.debug,
            !r.verbose,
            !r.log_requests,
            r.heartbeat_secs == 15,
            r.websearch_url@ == "http://localhost:3100/mcp"@,
            r.websearch_model is None,
            r.searxng_url is None,
            r.skills.is_default(),
    {
        let mut upstream_urls: Vec<String> = Vec::new();
        upstream_urls.push("http://localhost:11434".to_string());
        assert(texts(upstream_urls@) =~= seq!["http://localhost:11434"@]);
        let model_map: StrMap<String> = StrMap::new();
        assert(map_texts(model_map@) =~= Map::<Seq<char>, Seq<char>>::empty());
        Config {
            port: 3000,
            bind: "0.0.0.0".to_string(),
            upstream_urls,
            api_key: None,
            passthrough_api_key: false,
            upstream_tokenize: false,
            model_map,
            effort_map: EffortMap::default(),
            system_prompt_ignore_terms: Vec::new(),
            reasoning_model: None,
            completion_model: None,
            debug: false,
            verbose: false,
            log_requests: false,
            heartbeat_secs: 15,
            websearch_url: "http://localhost:3100/mcp".to_string(),
            websearch_model: None,
            searxng_url: None,
            skills: SkillsConfig::default(),
        }
    }
}

impl Config {
    /// Every upstream has a chat endpoint.
    pub open spec fn resolves(self) -> bool {
        all_resolve(texts(self.upstream_urls@))
    }

    /// The settings that the variables make: what is unset or unusable is at its default.
    pub open spec fn made_of(self, vars: ConfigVars) -> bool {
        &&& self.port == number_or(vars.port, u16::MAX as nat, 3000)
        &&& self.bind@ == text_or(vars.bind, "0.0.0.0"@)
        &&& texts(self.upstream_urls@) == vars.upstreams()->Ok_0
        &&& opt_text(self.api_key) == vars.key()
        &&& self.passthrough_api_key == is_switched(vars.passthrough)
        &&& self.upstream_tokenize == is_switched(vars.upstream_tokenize)
        &&& map_texts(self.model_map@) == vars.models()->Ok_0
        &&& self.effort_map@ == vars.efforts()
        &&& texts(self.system_prompt_ignore_terms@) == vars.terms()
        &&& self.reasoning_model == vars.reasoning_model
        &&& self.completion_model == vars.completion_model
        &&& self.debug == is_switched(vars.debug)
        &&& self.verbose == is_switched(vars.verbose)
        &&& self.log_requests == is_switched(vars.log_requests)
        &&& self.heartbeat_secs == number_or(vars.heartbeat_secs, u64::MAX as nat, 15)
        &&& self.websearch_url@ == text_or(vars.websearch_url, "http://localhost:3100/mcp"@)
        &&& opt_text(self.websearch_model) == set_text(vars.websearch_model)
        &&& opt_text(self.searxng_url) == set_base(vars.searxng_url)
    }

    /// The configuration after the command line was heard.
    pub open spec fn overridden(self, by: Overrides, before: Config) -> bool {
        &&& self.debug == (before.debug || by.debug)
        &&& self.verbose == (before.verbose || by.verbose)
        &&& self.port == (match by.port {
            Some(p) => p,
            None => before.port,
        })
        &&& self.bind@ == text_or(by.bind, before.bind@)
        &&& by.system_prompt_ignore@.len() == 0 ==> self.system_prompt_ignore_terms
            == before.system_prompt_ignore_terms
        &&& by.system_prompt_ignore@.len() > 0 ==> texts(self.system_prompt_ignore_terms@)
            == first_terms(
            texts(before.system_prompt_ignore_terms@) + trim_all(
                texts(by.system_prompt_ignore@),
            ).filter(non_empty()),
        )
    }

    /// The configuration that the variables make, or what is wrong with them. What is unset
    /// or unusable stays at its default; an upstream has to be named.
    pub fn from_vars(vars: &ConfigVars) -> (r: Result<Config, ConfigError>)
        ensures
            r is Err <==> vars.error() is Some,
            r is Err ==> vars.error() == Some(r->Err_0@),
            r is Ok ==> ({
                let c = r->Ok_0;
                &&& c.port == number_or(vars.port, u16::MAX as nat, 3000)
                &&& c.bind@ == text_or(vars.bind, "0.0.0.0"@)
                &&& texts(c.upstream_urls@) == vars.upstreams()->Ok_0
                &&& c.resolves()
                &&& opt_text(c.api_key) == vars.key()
                &&& c.passthrough_api_key == is_switched(vars.passthrough)
                &&& c.upstream_tokenize == is_switched(vars.upstream_tokenize)
                &&& map_texts(c.model_map@) == vars.models()->Ok_0
                &&& c.effort_map@ == vars.efforts()
                &&& texts(c.system_prompt_ignore_terms@) == vars.terms()
                &&& c.reasoning_model == vars.reasoning_model
                &&& c.completion_model == vars.completion_model
                &&& c.debug == is_switched(vars.debug)
                &&& c.verbose == is_switched(vars.verbose)
                &&& c.log_requests == is_switched(vars.log_requests)
                &&& c.heartbeat_secs == number_or(vars.heartbeat_secs, u64::MAX as nat, 15)
                &&& c.websearch_url@ == text_or(vars.websearch_url, "http://localhost:3100/mcp"@)
                &&& opt_text(c.websearch_model) == set_text(vars.websearch_model)
                &&& opt_text(c.searxng_url) == set_base(vars.searxng_url)
                &&& c.skills.made_of(vars.skills)
                &&& c.made_of(*vars)
            }),
    {
        let port: u16 = match &vars.port {
            Some(t) => match parse_u16(t.as_str()) {
                Some(n) => n,
                None => 3000,
            },
            None => 3000,
        };
        let raw = match &vars.upstream_base_url {
            Some(t) => t,
            None => match &vars.base_url {
                Some(t) => t,
                None => {
                    return Err(ConfigError::UrlRequired);
                },
            },
        };
        let upstream_urls = match read_upstreams(raw.as_str()) {
            Ok(urls) => urls,
            Err(e) => {
                return Err(e);
            },
        };
        let api_key = read_key(&vars.upstream_api_key, &vars.openrouter_api_key);
        let model_map = match &vars.model_map {
            Some(value) => match read_model_map(value.as_str()) {
                Ok(m) => m,
                Err(e) => {
                    return Err(e);
                },
            },
            None => {
                let none: StrMap<String> = StrMap::new();
                assert(map_texts(none@) =~= Map::<Seq<char>, Seq<char>>::empty());
                none
            },
        };
        let effort_map = match &vars.effort_map {
            Some(value) => EffortMap::parse(value.as_str()),
            None => EffortMap::default(),
        };
        let mut terms = match &vars.system_prompt_ignore_terms {
            Some(value) => read_terms(value.as_str()),
            None => Vec::new(),
        };
        dedupe_terms(&mut terms);
        assert(vars.system_prompt_ignore_terms is None ==> texts(terms@) =~= Seq::<
            Seq<char>,
        >::empty());
        let passthrough_api_key = read_switch(&vars.passthrough);
        if passthrough_api_key && api_key.is_some() {
            return Err(ConfigError::KeyConflict);
        }
        Ok(
            Config {
                port,
                bind: read_text_or(&vars.bind, "0.0.0.0"),
                upstream_urls,
                api_key,
                passthrough_api_key,
                upstream_tokenize: read_switch(&vars.upstream_tokenize),
                model_map,
                effort_map,
                system_prompt_ignore_terms: terms,
                reasoning_model: copy_opt(&vars.reasoning_model),
                completion_model: copy_opt(&vars.completion_model),
                debug: read_switch(&vars.debug),
                verbose: read_switch(&vars.verbose),
                log_requests: read_switch(&vars.log_requests),
                heartbeat_secs: read_u64_or(&vars.heartbeat_secs, 15),
                websearch_url: read_text_or(&vars.websearch_url, "http://localhost:3100/mcp"),
                websearch_model: read_set(&vars.websearch_model),
                searxng_url: read_base(&vars.searxng_url),
                skills: SkillsConfig::from_vars(&vars.skills),
            },
        )
    }
}

// ---------------------------------------------------------------------------
// The command line
// ---------------------------------------------------------------------------
fn trimmed_texts(v: &Vec<String>) -> (r: Vec<String>)
    ensures
        texts(r@) == trim_all(texts(v@)).filter(non_empty()),
{
    let ghost all = trim_all(texts(v@));
    let mut out: Vec<String> = Vec::new();
    let n: usize = v.len();
    let mut i: usize = 0;
    proof {
        reveal(Seq::filter);
        assert(all.take(0) =~= Seq::<Seq<char>>::empty());
        assert(texts(out@) =~= Seq::<Seq<char>>::empty());
    }
    while i < n
        invariant
            n == v@.len(),
            i <= n,
            all == trim_all(texts(v@)),
            texts(out@) == all.take(i as int).filter(non_empty()),
        decreases n - i,
    {
        let ghost before = out@;
        proof {
            reveal(Seq::filter);
            assert(all.take(i as int + 1).drop_last() =~= all.take(i as int));
            assert(all.take(i as int + 1).last() == trim(v@[i as int]@));
        }
        let term = trim_text(v[i].as_str());
        if !term.as_str().is_empty() {
            let ghost t = term@;
            out.push(term);
            assert(texts(out@) =~= texts(before).push(t));
        }
        i += 1;
    }
    assert(all.take(n as int) =~= all);
    out
}

impl Config {
    /// Lets the command line win: it can switch logging on, move the port and address, and
    /// add terms.
    pub fn apply(&mut self, overrides: &Overrides)
        ensures
            final(self).debug == (old(self).debug || overrides.debug),
            final(self).verbose == (old(self).verbose || overrides.verbose),
            final(self).port == (match overrides.port {
                Some(p) => p,
                None => old(self).port,
            }),
            final(self).bind@ == text_or(overrides.bind, old(self).bind@),
            texts(final(self).system_prompt_ignore_terms@) == ({
                let terms = texts(old(self).system_prompt_ignore_terms@);
                if overrides.system_prompt_ignore@.len() == 0 {
                    terms
                } else {
                    first_terms(
                        terms + trim_all(texts(overrides.system_prompt_ignore@)).filter(
                            non_empty(),
                        ),
                    )
                }
            }),
            final(self).upstream_urls == old(self).upstream_urls,
            final(self).api_key == old(self).api_key,
            final(self).passthrough_api_key == old(self).passthrough_api_key,
            final(self).upstream_tokenize == old(self).upstream_tokenize,
            final(self).model_map == old(self).model_map,
            final(self).effort_map == old(self).effort_map,
            final(self).reasoning_model == old(self).reasoning_model,
            final(self).completion_model == old(self).completion_model,
            final(self).log_requests == old(self).log_requests,
            final(self).heartbeat_secs == old(self).heartbeat_secs,
            final(self).websearch_url == old(self).websearch_url,
            final(self).websearch_model == old(self).websearch_model,
            final(self).searxng_url == old(self).searxng_url,
            final(self).skills == old(self).skills,
            final(self).overridden(*overrides, *old(self)),
    {
        if overrides.debug {
            self.debug = true;
        }
        if overrides.verbose {
            self.verbose = true;
        }
        if let Some(port) = overrides.port {
            self.port = port;
        }
        if let Some(bind) = read_set(&overrides.bind) {
            self.bind = bind;
        }
        if overrides.system_prompt_ignore.len() > 0 {
            let ghost before = self.system_prompt_ignore_terms@;
            let mut more = trimmed_texts(&overrides.system_prompt_ignore);
            let ghost added = more@;
            self.system_prompt_ignore_terms.append(&mut more);
            assert(texts(self.system_prompt_ignore_terms@) =~= texts(before) + texts(added));
            dedupe_terms(&mut self.system_prompt_ignore_terms);
        }
    }

    /// The log filter: everything, details, or what matters.
    pub fn log_filter(&self) -> (r: String)
        ensures
            r@ == "anthropic_proxy="@ + (if self.verbose {
                "TRACE"@
            } else if self.debug {
                "DEBUG"@
            } else {
                "INFO"@
            }),
    {
        let mut filter = "anthropic_proxy=".to_string();
        if self.verbose {
            filter.append("TRACE");
        } else if self.debug {
            filter.append("DEBUG");
        } else {
            filter.append("INFO");
        }
        filter
    }

    /// The address to listen on.
    pub fn address(&self) -> (r: String)
        ensures
            r@ == self.bind@ + ":"@ + decimal(self.port as nat),
    {
        let mut address = self.bind.clone();
        address.append(":");
        address.append(decimal_text(self.port as u64).as_str());
        address
    }

    /// Whether every network interface is listened on.
    pub fn is_exposed(&self) -> (r: bool)
        ensures
            r == (self.bind@ == "0.0.0.0"@),
    {
        same(self.bind.as_str(), "0.0.0.0")
    }

    // -----------------------------------------------------------------------
    // Texts
    // -----------------------------------------------------------------------
    /// The terms that a text lists.
    pub fn parse_system_prompt_ignore_terms(value: &str) -> (r: Vec<String>)
        ensures
            texts(r@) == entries(value@, seq![';', '\n']),
    {
        read_terms(value)
    }

    /// Takes out the terms that repeat an earlier one.
    pub fn dedupe_ignore_terms(terms: &mut Vec<String>)
        ensures
            texts(final(terms)@) == first_terms(texts(old(terms)@)),
    {
        dedupe_terms(terms)
    }

    /// The model map that a text lists.
    pub fn parse_model_map(value: &str) -> (r: Result<StrMap<String>, ConfigError>)
        ensures
            map_result(r) == model_map_of(value@),
    {
        read_model_map(value)
    }

    /// The upstreams that a text lists.
    pub fn parse_upstream_urls(raw: &str) -> (r: Result<Vec<String>, ConfigError>)
        ensures
            texts_result(r) == upstreams_of(raw@),
            r is Ok ==> all_resolve(texts(r->Ok_0@)),
    {
        read_upstreams(raw)
    }

    /// The chat endpoint of a base URL.
    pub fn resolve_chat_completions_url(base_url: &str) -> (r: Result<String, ConfigError>)
        ensures
            text_result(r) == chat_of(base_url@),
    {
        resolve_chat(base_url)
    }

    /// The models endpoint of a base URL.
    pub fn resolve_models_url(base_url: &str) -> (r: Result<String, ConfigError>)
        ensures
            text_result(r) == models_of(base_url@),
    {
        resolve_models(base_url)
    }

    // -----------------------------------------------------------------------
    // Endpoints
    // -----------------------------------------------------------------------
    /// The chat endpoints of the upstreams, in order.
    pub open spec fn chat_urls(self) -> Seq<Seq<char>> {
        let urls = texts(self.upstream_urls@);
        Seq::new(urls.len(), |i: int| chat_of(urls[i])->Ok_0)
    }

    /// The endpoints beside the chat endpoints that end differently.
    pub open spec fn siblings(self, end: Seq<char>) -> Seq<Seq<char>> {
        let urls = self.chat_urls();
        Seq::new(urls.len(), |i: int| replace_all(urls[i], "/chat/completions"@, end))
    }

    /// The chat endpoints of the upstreams, in order.
    pub fn chat_completions_urls(&self) -> (r: Vec<String>)
        requires
            self.resolves(),
        ensures
            texts(r@) == self.chat_urls(),
    {
        let ghost urls = texts(self.upstream_urls@);
        let mut out: Vec<String> = Vec::new();
        let n: usize = self.upstream_urls.len();
        let mut i: usize = 0;
        while i < n
            invariant
                n == self.upstream_urls@.len(),
                i <= n,
                self.resolves(),
                urls == texts(self.upstream_urls@),
                out@.len() == i,
                forall|k: int| 0 <= k < i ==> (#[trigger] out@[k])@ == chat_of(urls[k])->Ok_0,
            decreases n - i,
        {
            assert(chat_of(urls[i as int]) is Ok);
            match resolve_chat(self.upstream_urls[i].as_str()) {
                Ok(url) => out.push(url),
                Err(_) => {
                    assert(false);
                },
            }
            i += 1;
        }
        assert(texts(out@) =~= self.chat_urls());
        out
    }

    /// The models endpoints of the upstreams, in order.
    pub fn models_urls(&self) -> (r: Vec<String>)
        requires
            self.resolves(),
        ensures
            ({
                let urls = texts(self.upstream_urls@);
                texts(r@) == Seq::new(urls.len(), |i: int| models_of(urls[i])->Ok_0)
            }),
    {
        let ghost urls = texts(self.upstream_urls@);
        let mut out: Vec<String> = Vec::new();
        let n: usize = self.upstream_urls.len();
        let mut i: usize = 0;
        while i < n
            invariant
                n == self.upstream_urls@.len(),
                i <= n,
                self.resolves(),
                urls == texts(self.upstream_urls@),
                out@.len() == i,
                forall|k: int| 0 <= k < i ==> (#[trigger] out@[k])@ == models_of(urls[k])->Ok_0,
            decreases n - i,
        {
            proof {
                assert(chat_of(urls[i as int]) is Ok);
                law_models_follow_chat(urls[i as int]);
            }
            match resolve_models(self.upstream_urls[i].as_str()) {
                Ok(url) => out.push(url),
                Err(_) => {
                    assert(false);
                },
            }
            i += 1;
        }
        assert(texts(out@) =~= Seq::new(urls.len(), |i: int| models_of(urls[i])->Ok_0));
        out
    }

    fn sibling_urls(&self, end: &str) -> (r: Vec<String>)
        requires
            self.resolves(),
        ensures
            texts(r@) == self.siblings(end@),
    {
        let urls = self.chat_completions_urls();
        proof {
            reveal_strlit("/chat/completions");
        }
        let mut out: Vec<String> = Vec::new();
        let n: usize = urls.len();
        let mut i: usize = 0;
        while i < n
            invariant
                n == urls@.len(),
                i <= n,
                "/chat/completions"@.len() > 0,
                out@.len() == i,
                forall|k: int|
                    0 <= k < i ==> (#[trigger] out@[k])@ == replace_all(
                        urls@[k]@,
                        "/chat/completions"@,
                        end@,
                    ),
            decreases n - i,
        {
            out.push(replace_text(urls[i].as_str(), "/chat/completions", end));
            i += 1;
        }
        proof {
            let chat = self.chat_urls();
            assert forall|k: int| 0 <= k < n implies chat[k] == (#[trigger] urls@[k])@ by {
                assert(texts(urls@)[k] == urls@[k]@);
            }
            assert(texts(out@) =~= self.siblings(end@));
        }
        out
    }

    /// The tokenizer endpoints, beside the chat endpoints.
    pub fn tokenize_urls(&self) -> (r: Vec<String>)
        requires
            self.resolves(),
        ensures
            texts(r@) == self.siblings("/tokenize"@),
    {
        self.sibling_urls("/tokenize")
    }

    /// The embeddings endpoints, beside the chat endpoints.
    pub fn embeddings_urls(&self) -> (r: Vec<String>)
        requires
            self.resolves(),
        ensures
            texts(r@) == self.siblings("/embeddings"@),
    {
        self.sibling_urls("/embeddings")
    }

    /// The embeddings endpoint for skills: the one that is set, or the first upstream's.
    pub open spec fn embed_url(self) -> Option<Seq<char>> {
        match self.skills.embed_url {
            Some(url) => Some(url@),
            None => if self.upstream_urls@.len() > 0 {
                Some(self.siblings("/embeddings"@)[0])
            } else {
                None
            },
        }
    }

    /// The embeddings endpoint for skills.
    pub fn skills_embed_url(&self) -> (r: Option<String>)
        requires
            self.resolves(),
        ensures
            opt_text(r) == self.embed_url(),
    {
        if let Some(url) = &self.skills.embed_url {
            return Some(url.clone());
        }
        let urls = self.embeddings_urls();
        assert(texts(urls@).len() == self.upstream_urls@.len());
        if urls.len() > 0 {
            assert(texts(urls@)[0] == urls@[0]@);
            Some(urls[0].clone())
        } else {
            None
        }
    }

    /// All endpoints, where every upstream has them; otherwise what is wrong with the first
    /// that has not.
    pub fn endpoints(&self) -> (r: Result<Endpoints, ConfigError>)
        ensures
            match r {
                Ok(e) => {
                    let urls = texts(self.upstream_urls@);
                    &&& self.resolves()
                    &&& texts(e.chat@) == self.chat_urls()
                    &&& texts(e.models@) == Seq::new(urls.len(), |i: int| models_of(urls[i])->Ok_0)
                    &&& texts(e.tokenize@) == self.siblings("/tokenize"@)
                    &&& texts(e.embeddings@) == self.siblings("/embeddings"@)
                    &&& opt_text(e.skills_embed) == self.embed_url()
                },
                Err(e) => first_error(texts(self.upstream_urls@)) == Some(e@),
            },
    {
        match check_urls(&self.upstream_urls) {
            Some(e) => Err(e),
            None => {
                proof {
                    lemma_first_error(texts(self.upstream_urls@));
                }
                Ok(
                    Endpoints {
                        chat: self.chat_completions_urls(),
                        models: self.models_urls(),
                        tokenize: self.tokenize_urls(),
                        embeddings: self.embeddings_urls(),
                        skills_embed: self.skills_embed_url(),
                    },
                )
            },
        }
    }
}

/// The endpoints of all upstreams, in order.
#[derive(Debug, PartialEq)]
pub struct Endpoints {
    pub chat: Vec<String>,
    pub models: Vec<String>,
    pub tokenize: Vec<String>,
    pub embeddings: Vec<String>,
    pub skills_embed: Option<String>,
}

} // verus!
