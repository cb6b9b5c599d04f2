//! The addresses of an upstream, from its base URL.
use crate::text::{
    entries, entry_texts, is_digit, non_empty, opt_text, same, strip_end, strip_end_text, texts,
    to_chars, trim, trim_text,
};
use vstd::prelude::*;

verus! {

/// What can be wrong with a configuration.
#[derive(Debug, PartialEq)]
pub enum ConfigError {
    /// No upstream is named.
    UrlRequired,
    /// The upstream is empty.
    UrlEmpty,
    /// The upstream is no URL, with what the URL parser said of it.
    UrlInvalid(String),
    /// The upstream is not reached over HTTP.
    UrlScheme,
    /// The upstream has a query or a fragment.
    UrlQuery,
    /// The upstream ends within the path of the chat endpoint.
    UrlPartial,
    /// A model map entry has no `=`.
    ModelMapEntry(String),
    /// A model map entry names no model on one side.
    ModelMapEmpty(String),
    /// A key is both set and to be passed through.
    KeyConflict,
}

/// What an error is.
pub enum ConfigErrorV {
    UrlRequired,
    UrlEmpty,
    UrlInvalid(Seq<char>),
    UrlScheme,
    UrlQuery,
    UrlPartial,
    ModelMapEntry(Seq<char>),
    ModelMapEmpty(Seq<char>),
    KeyConflict,
}

impl ConfigError {
    pub open spec fn view(&self) -> ConfigErrorV {
        match self {
            ConfigError::UrlRequired => ConfigErrorV::UrlRequired,
            ConfigError::UrlEmpty => ConfigErrorV::UrlEmpty,
            ConfigError::UrlInvalid(e) => ConfigErrorV::UrlInvalid(e@),
            ConfigError::UrlScheme => ConfigErrorV::UrlScheme,
            ConfigError::UrlQuery => ConfigErrorV::UrlQuery,
            ConfigError::UrlPartial => ConfigErrorV::UrlPartial,
            ConfigError::ModelMapEntry(e) => ConfigErrorV::ModelMapEntry(e@),
            ConfigError::ModelMapEmpty(e) => ConfigErrorV::ModelMapEmpty(e@),
            ConfigError::KeyConflict => ConfigErrorV::KeyConflict,
        }
    }
}

impl ConfigErrorV {
    /// The error in words.
    pub open spec fn words(self) -> Seq<char> {
        match self {
            ConfigErrorV::UrlRequired => "UPSTREAM_BASE_URL is required. Set it to your OpenAI-compatible endpoint.\nExamples:\n- OpenRouter: https://openrouter.ai/api\n- OpenAI: https://api.openai.com\n- Multiple (failover): https://openrouter.ai/api;https://api.openai.com\n- Local: http://localhost:11434"@,
            ConfigErrorV::UrlEmpty => "UPSTREAM_BASE_URL must not be empty"@,
            ConfigErrorV::UrlInvalid(e) => "UPSTREAM_BASE_URL must be a valid http(s) URL: "@ + e,
            ConfigErrorV::UrlScheme => "UPSTREAM_BASE_URL must use http or https"@,
            ConfigErrorV::UrlQuery => "UPSTREAM_BASE_URL must not include query parameters or fragments"@,
            ConfigErrorV::UrlPartial => "UPSTREAM_BASE_URL must be either a service base URL, a versioned base URL like https://gateway.example.com/v2, or the full .../chat/completions endpoint"@,
            ConfigErrorV::ModelMapEntry(e) => "Invalid ANTHROPIC_PROXY_MODEL_MAP entry '"@ + e
                + "'. Expected source=target"@,
            ConfigErrorV::ModelMapEmpty(e) => "Invalid ANTHROPIC_PROXY_MODEL_MAP entry '"@ + e
                + "'. Source and target models must be non-empty"@,
            ConfigErrorV::KeyConflict => "UPSTREAM_API_KEY_PASSTHROUGH=true cannot be used together with UPSTREAM_API_KEY.\nWhen passthrough is enabled, the API key is extracted from each incoming request's x-api-key header.\nUnset UPSTREAM_API_KEY or set UPSTREAM_API_KEY_PASSTHROUGH=false."@,
        }
    }
}

fn quoted(head: &str, middle: &str, tail: &str) -> (r: String)
    ensures
        r@ == head@ + middle@ + tail@,
{
    let mut text = head.to_string();
    text.append(middle);
    text.append(tail);
    text
}

impl ConfigError {
    /// The error in words.
    pub fn message(&self) -> (r: String)
        ensures
            r@ == self@.words(),
    {
        match self {
            ConfigError::UrlRequired => "UPSTREAM_BASE_URL is required. Set it to your OpenAI-compatible endpoint.\nExamples:\n- OpenRouter: https://openrouter.ai/api\n- OpenAI: https://api.openai.com\n- Multiple (failover): https://openrouter.ai/api;https://api.openai.com\n- Local: http://localhost:11434".to_string(),
            ConfigError::UrlEmpty => "UPSTREAM_BASE_URL must not be empty".to_string(),
            ConfigError::UrlInvalid(e) => {
                let mut text = "UPSTREAM_BASE_URL must be a valid http(s) URL: ".to_string();
                text.append(e.as_str());
                text
            },
            ConfigError::UrlScheme => "UPSTREAM_BASE_URL must use http or https".to_string(),
            ConfigError::UrlQuery => "UPSTREAM_BASE_URL must not include query parameters or fragments".to_string(),
            ConfigError::UrlPartial => "UPSTREAM_BASE_URL must be either a service base URL, a versioned base URL like https://gateway.example.com/v2, or the full .../chat/completions endpoint".to_string(),
            ConfigError::ModelMapEntry(e) => quoted(
                "Invalid ANTHROPIC_PROXY_MODEL_MAP entry '",
                e.as_str(),
                "'. Expected source=target",
            ),
            ConfigError::ModelMapEmpty(e) => quoted(
                "Invalid ANTHROPIC_PROXY_MODEL_MAP entry '",
                e.as_str(),
                "'. Source and target models must be non-empty",
            ),
            ConfigError::KeyConflict => "UPSTREAM_API_KEY_PASSTHROUGH=true cannot be used together with UPSTREAM_API_KEY.\nWhen passthrough is enabled, the API key is extracted from each incoming request's x-api-key header.\nUnset UPSTREAM_API_KEY or set UPSTREAM_API_KEY_PASSTHROUGH=false.".to_string(),
        }
    }
}

// ---------------------------------------------------------------------------
// URLs
// ---------------------------------------------------------------------------
/// The parts of a URL that matter here.
pub struct UrlParts {
    pub scheme: String,
    pub host: Option<String>,
    pub segments: Option<Vec<String>>,
    pub query: Option<String>,
    pub fragment: Option<String>,
}

/// What the parts are.
pub struct UrlV {
    pub scheme: Seq<char>,
    pub host: Option<Seq<char>>,
    pub segments: Option<Seq<Seq<char>>>,
    pub query: Option<Seq<char>>,
    pub fragment: Option<Seq<char>>,
}

impl UrlParts {
    pub open spec fn view(&self) -> UrlV {
        UrlV {
            scheme: self.scheme@,
            host: opt_text(self.host),
            segments: match self.segments {
                Some(v) => Some(texts(v@)),
                None => None,
            },
            query: opt_text(self.query),
            fragment: opt_text(self.fragment),
        }
    }
}

/// What a read URL is.
pub open spec fn read_view(r: Result<UrlParts, String>) -> Result<UrlV, Seq<char>> {
    match r {
        Ok(p) => Ok(p@),
        Err(e) => Err(e@),
    }
}

/// What `reqwest::Url::parse` makes of a text: the parts of the URL, or what it says is
/// wrong with it.
pub uninterp spec fn url_read(s: Seq<char>) -> Result<UrlV, Seq<char>>;

/// `reqwest::Url::parse`, and the scheme, host, path segments, query and fragment of the
/// URL that it gives. What it gives is a function of the text alone.
#[verifier::external_body]
pub(crate) fn read_url(s: &str) -> (r: Result<UrlParts, String>)
    ensures
        read_view(r) == url_read(s@),
{
    match reqwest::Url::parse(s) {
        Ok(u) => Ok(UrlParts {
            scheme: u.scheme().to_string(),
            host: u.host_str().map(str::to_string),
            segments: u.path_segments().map(|p| p.map(str::to_string).collect()),
            query: u.query().map(str::to_string),
            fragment: u.fragment().map(str::to_string),
        }),
        Err(e) => Err(e.to_string()),
    }
}

/// A base URL as it is used, and its path.
pub type Base = (String, Vec<String>);

/// The base and path of a trimmed URL, given what the URL parser made of it: an HTTP URL
/// without query and fragment.
pub open spec fn base_read(url: Seq<char>, parsed: Result<UrlV, Seq<char>>) -> Result<
    (Seq<char>, Seq<Seq<char>>),
    ConfigErrorV,
> {
    if url.len() == 0 {
        Err(ConfigErrorV::UrlEmpty)
    } else {
        match parsed {
            Err(e) => Err(ConfigErrorV::UrlInvalid(e)),
            Ok(u) => if u.scheme != "http"@ && u.scheme != "https"@ {
                Err(ConfigErrorV::UrlScheme)
            } else if u.query is Some || u.fragment is Some {
                Err(ConfigErrorV::UrlQuery)
            } else {
                Ok(
                    (
                        strip_end(url, "/"@),
                        match u.segments {
                            Some(segments) => segments.filter(non_empty()),
                            None => seq![],
                        },
                    ),
                )
            },
        }
    }
}

/// The base and path of a URL.
pub open spec fn base_of(base_url: Seq<char>) -> Result<
    (Seq<char>, Seq<Seq<char>>),
    ConfigErrorV,
> {
    base_read(trim(base_url), url_read(trim(base_url)))
}

/// The path is that of a chat endpoint.
pub open spec fn is_chat_path(path: Seq<Seq<char>>) -> bool {
    path.len() >= 2 && path[path.len() - 2] == "chat"@ && path.last() == "completions"@
}

/// The path ends within that of a chat endpoint.
pub open spec fn is_partial_path(path: Seq<Seq<char>>) -> bool {
    path.len() > 0 && (path.last() == "chat"@ || path.last() == "completions"@)
}

/// A version: `v` and digits.
pub open spec fn is_version(segment: Seq<char>) -> bool {
    segment.len() >= 2 && (segment[0] == 'v' || segment[0] == 'V') && forall|i: int|
        1 <= i < segment.len() ==> is_digit(#[trigger] segment[i])
}

/// The path ends with a version.
pub open spec fn is_versioned(path: Seq<Seq<char>>) -> bool {
    path.len() > 0 && is_version(path.last())
}

/// The chat endpoint of a base: the base itself where it is one, else under its version, or
/// under the first version where it names none.
pub open spec fn chat_url(base: Seq<char>, path: Seq<Seq<char>>) -> Result<
    Seq<char>,
    ConfigErrorV,
> {
    if is_chat_path(path) {
        Ok(base)
    } else if is_partial_path(path) {
        Err(ConfigErrorV::UrlPartial)
    } else if is_versioned(path) {
        Ok(base + "/chat/completions"@)
    } else {
        Ok(base + "/v1/chat/completions"@)
    }
}

/// The models endpoint of a base.
pub open spec fn models_url(base: Seq<char>, path: Seq<Seq<char>>) -> Result<
    Seq<char>,
    ConfigErrorV,
> {
    if is_chat_path(path) {
        Ok(strip_end(strip_end(base, "/chat/completions"@), "/"@) + "/models"@)
    } else if is_partial_path(path) {
        Err(ConfigErrorV::UrlPartial)
    } else if is_versioned(path) {
        Ok(base + "/models"@)
    } else {
        Ok(base + "/v1/models"@)
    }
}

/// The chat endpoint of a base URL.
pub open spec fn chat_of(base_url: Seq<char>) -> Result<Seq<char>, ConfigErrorV> {
    match base_of(base_url) {
        Ok((base, path)) => chat_url(base, path),
        Err(e) => Err(e),
    }
}

/// The models endpoint of a base URL.
pub open spec fn models_of(base_url: Seq<char>) -> Result<Seq<char>, ConfigErrorV> {
    match base_of(base_url) {
        Ok((base, path)) => models_url(base, path),
        Err(e) => Err(e),
    }
}

/// What a result of the configuration is.
pub open spec fn text_result(r: Result<String, ConfigError>) -> Result<Seq<char>, ConfigErrorV> {
    match r {
        Ok(t) => Ok(t@),
        Err(e) => Err(e@),
    }
}

/// What a read base is.
pub open spec fn base_result(r: Result<Base, ConfigError>) -> Result<
    (Seq<char>, Seq<Seq<char>>),
    ConfigErrorV,
> {
    match r {
        Ok(b) => Ok((b.0@, texts(b.1@))),
        Err(e) => Err(e@),
    }
}

fn non_empty_texts(v: &Vec<String>) -> (r: Vec<String>)
    ensures
        texts(r@) == texts(v@).filter(non_empty()),
{
    let ghost all = texts(v@);
    let mut out: Vec<String> = Vec::new();
    let n: usize = v.len();
    let mut i: usize = 0;
    proof {
        reveal(Seq::filter);
        assert(all.take(0) =~= Seq::<Seq<char>>::empty());
        assert(texts(out@) =~= Seq::<Seq<char>>::empty());
    }
    while i < n
        invariant
            n == v@.len(),
            i <= n,
            all == texts(v@),
            texts(out@) == all.take(i as int).filter(non_empty()),
        decreases n - i,
    {
        let ghost before = out@;
        proof {
            reveal(Seq::filter);
            assert(all.take(i as int + 1).drop_last() =~= all.take(i as int));
            assert(all.take(i as int + 1).last() == v@[i as int]@);
        }
        if !v[i].as_str().is_empty() {
            out.push(v[i].clone());
            assert(texts(out@) =~= texts(before).push(v@[i as int]@));
        }
        i += 1;
    }
    assert(all.take(n as int) =~= all);
    out
}

/// The base and path of a trimmed URL, given what the URL parser made of it.
pub fn read_base(url: &str, parsed: &Result<UrlParts, String>) -> (r: Result<Base, ConfigError>)
    ensures
        base_result(r) == base_read(url@, read_view(*parsed)),
{
    if url.is_empty() {
        return Err(ConfigError::UrlEmpty);
    }
    match parsed {
        Err(e) => Err(ConfigError::UrlInvalid(e.clone())),
        Ok(u) => {
            if !same(u.scheme.as_str(), "http") && !same(u.scheme.as_str(), "https") {
                return Err(ConfigError::UrlScheme);
            }
            if u.query.is_some() || u.fragment.is_some() {
                return Err(ConfigError::UrlQuery);
            }
            let segments = match &u.segments {
                Some(segments) => non_empty_texts(segments),
                None => Vec::new(),
            };
            assert(u.segments is None ==> texts(segments@) =~= Seq::<Seq<char>>::empty());
            Ok((strip_end_text(url, "/"), segments))
        },
    }
}

fn parse_base_url(base_url: &str) -> (r: Result<Base, ConfigError>)
    ensures
        base_result(r) == base_of(base_url@),
{
    let url = trim_text(base_url);
    let parsed = read_url(url.as_str());
    read_base(url.as_str(), &parsed)
}

fn is_chat_completions_path(path: &Vec<String>) -> (r: bool)
    ensures
        r == is_chat_path(texts(path@)),
{
    let n: usize = path.len();
    n >= 2 && same(path[n - 2].as_str(), "chat") && same(path[n - 1].as_str(), "completions")
}

fn ends_inside_chat_path(path: &Vec<String>) -> (r: bool)
    ensures
        r == is_partial_path(texts(path@)),
{
    let n: usize = path.len();
    n > 0 && (same(path[n - 1].as_str(), "chat") || same(path[n - 1].as_str(), "completions"))
}

fn is_version_segment(segment: &str) -> (r: bool)
    ensures
        r == is_version(segment@),
{
    let cs = to_chars(segment);
    let n: usize = cs.len();
    if n < 2 || !(cs[0] == 'v' || cs[0] == 'V') {
        return false;
    }
    let mut i: usize = 1;
    while i < n
        invariant
            n == cs@.len(),
            cs@ == segment@,
            1 <= i <= n,
            forall|k: int| 1 <= k < i ==> is_digit(#[trigger] cs@[k]),
        decreases n - i,
    {
        if !('0' <= cs[i] && cs[i] <= '9') {
            assert(!is_digit(segment@[i as int]));
            return false;
        }
        i += 1;
    }
    true
}

fn ends_with_version(path: &Vec<String>) -> (r: bool)
    ensures
        r == is_versioned(texts(path@)),
{
    let n: usize = path.len();
    n > 0 && is_version_segment(path[n - 1].as_str())
}

/// The chat endpoint of a base with its path.
pub fn chat_endpoint(base: &str, path: &Vec<String>) -> (r: Result<String, ConfigError>)
    ensures
        text_result(r) == chat_url(base@, texts(path@)),
{
    let mut url = base.to_string();
    if is_chat_completions_path(path) {
        return Ok(url);
    }
    if ends_inside_chat_path(path) {
        return Err(ConfigError::UrlPartial);
    }
    if ends_with_version(path) {
        url.append("/chat/completions");
    } else {
        url.append("/v1/chat/completions");
    }
    Ok(url)
}

/// The models endpoint of a base with its path.
pub fn models_endpoint(base: &str, path: &Vec<String>) -> (r: Result<String, ConfigError>)
    ensures
        text_result(r) == models_url(base@, texts(path@)),
{
    if is_chat_completions_path(path) {
        let service = strip_end_text(base, "/chat/completions");
        let mut url = strip_end_text(service.as_str(), "/");
        url.append("/models");
        return Ok(url);
    }
    if ends_inside_chat_path(path) {
        return Err(ConfigError::UrlPartial);
    }
    let mut url = base.to_string();
    if ends_with_version(path) {
        url.append("/models");
    } else {
        url.append("/v1/models");
    }
    Ok(url)
}

/// The chat endpoint of a base URL.
pub fn resolve_chat(base_url: &str) -> (r: Result<String, ConfigError>)
    ensures
        text_result(r) == chat_of(base_url@),
{
    match parse_base_url(base_url) {
        Ok((base, path)) => chat_endpoint(base.as_str(), &path),
        Err(e) => Err(e),
    }
}

/// The models endpoint of a base URL.
pub fn resolve_models(base_url: &str) -> (r: Result<String, ConfigError>)
    ensures
        text_result(r) == models_of(base_url@),
{
    match parse_base_url(base_url) {
        Ok((base, path)) => models_endpoint(base.as_str(), &path),
        Err(e) => Err(e),
    }
}

/// A base URL has a models endpoint exactly where it has a chat endpoint.
pub proof fn law_models_follow_chat(base_url: Seq<char>)
    ensures
        chat_of(base_url) is Ok <==> models_of(base_url) is Ok,
        chat_of(base_url) is Err ==> chat_of(base_url)->Err_0 == models_of(base_url)->Err_0,
{
}

/// The first of the URLs that has no chat endpoint says what is wrong.
pub open spec fn first_error(urls: Seq<Seq<char>>) -> Option<ConfigErrorV>
    decreases urls.len(),
{
    if urls.len() == 0 {
        None
    } else {
        match first_error(urls.drop_last()) {
            Some(e) => Some(e),
            None => match chat_of(urls.last()) {
                Ok(_) => None,
                Err(e) => Some(e),
            },
        }
    }
}

/// Every URL has a chat endpoint.
pub open spec fn all_resolve(urls: Seq<Seq<char>>) -> bool {
    forall|i: int| 0 <= i < urls.len() ==> chat_of(#[trigger] urls[i]) is Ok
}

/// Without an error every URL has a chat endpoint, and the other way round.
pub proof fn lemma_first_error(urls: Seq<Seq<char>>)
    ensures
        first_error(urls) is None <==> all_resolve(urls),
    decreases urls.len(),
{
    if urls.len() > 0 {
        let rest = urls.drop_last();
        lemma_first_error(rest);
        if all_resolve(urls) {
            assert forall|i: int| 0 <= i < rest.len() implies chat_of(#[trigger] rest[i]) is Ok by {
                assert(rest[i] == urls[i]);
            }
            assert(chat_of(urls[urls.len() - 1]) is Ok);
        }
        if first_error(urls) is None {
            assert forall|i: int| 0 <= i < urls.len() implies chat_of(#[trigger] urls[i]) is Ok by {
                if i < rest.len() {
                    assert(rest[i] == urls[i]);
                }
            }
        }
    }
}

/// What a result with several texts is.
pub open spec fn texts_result(r: Result<Vec<String>, ConfigError>) -> Result<
    Seq<Seq<char>>,
    ConfigErrorV,
> {
    match r {
        Ok(v) => Ok(texts(v@)),
        Err(e) => Err(e@),
    }
}

/// The upstreams that a list separated by semicolons names: at least one, each with a chat
/// endpoint.
pub open spec fn upstreams_of(raw: Seq<char>) -> Result<Seq<Seq<char>>, ConfigErrorV> {
    let urls = entries(raw, seq![';']);
    if urls.len() == 0 {
        Err(ConfigErrorV::UrlEmpty)
    } else {
        match first_error(urls) {
            Some(e) => Err(e),
            None => Ok(urls),
        }
    }
}

/// What is wrong with the first URL that has no chat endpoint.
pub fn check_urls(urls: &Vec<String>) -> (r: Option<ConfigError>)
    ensures
        (match r {
            Some(e) => Some(e@),
            None => None,
        }) == first_error(texts(urls@)),
{
    let ghost all = texts(urls@);
    let n: usize = urls.len();
    let mut i: usize = 0;
    assert(all.take(0) =~= Seq::<Seq<char>>::empty());
    while i < n
        invariant
            n == urls@.len(),
            i <= n,
            all == texts(urls@),
            first_error(all.take(i as int)) is None,
        decreases n - i,
    {
        proof {
            assert(all.take(i as int + 1).drop_last() =~= all.take(i as int));
            assert(all.take(i as int + 1).last() == urls@[i as int]@);
        }
        match resolve_chat(urls[i].as_str()) {
            Ok(_) => {},
            Err(e) => {
                proof {
                    lemma_first_error_stays(all, i as int + 1);
                }
                return Some(e);
            },
        }
        i += 1;
    }
    assert(all.take(n as int) =~= all);
    None
}

proof fn lemma_first_error_stays(urls: Seq<Seq<char>>, k: int)
    requires
        0 <= k <= urls.len(),
        first_error(urls.take(k)) is Some,
    ensures
        first_error(urls) == first_error(urls.take(k)),
    decreases urls.len() - k,
{
    if k == urls.len() {
        assert(urls.take(k) =~= urls);
    } else {
        assert(urls.take(k + 1).drop_last() =~= urls.take(k));
        lemma_first_error_stays(urls, k + 1);
    }
}

/// The upstreams that a list separated by semicolons names.
pub fn read_upstreams(raw: &str) -> (r: Result<Vec<String>, ConfigError>)
    ensures
        texts_result(r) == upstreams_of(raw@),
        r is Ok ==> all_resolve(texts(r->Ok_0@)),
{
    let seps: [char; 1] = [';'];
    assert(seps@ =~= seq![';']);
    let urls = entry_texts(raw, seps.as_slice());
    if urls.len() == 0 {
        return Err(ConfigError::UrlEmpty);
    }
    match check_urls(&urls) {
        Some(e) => Err(e),
        None => {
            proof {
                lemma_first_error(texts(urls@));
            }
            Ok(urls)
        },
    }
}

/// Upstreams that a configuration takes are ones whose chat and models endpoints can be
/// asked for, and there is at least one.
pub proof fn law_upstreams_resolve(raw: Seq<char>)
    requires
        upstreams_of(raw) is Ok,
    ensures
        upstreams_of(raw)->Ok_0.len() > 0,
        forall|i: int|
            0 <= i < upstreams_of(raw)->Ok_0.len() ==> chat_of(
                #[trigger] upstreams_of(raw)->Ok_0[i],
            ) is Ok && models_of(upstreams_of(raw)->Ok_0[i]) is Ok,
{
    lemma_first_error(entries(raw, seq![';']));
}

} // verus!
