//! Which backend a search goes to, and whose share of the pace it takes.
use crate::config::Config;
use crate::skills::gate::SearchLane;
use crate::text::opt_text;
use vstd::prelude::*;

verus! {

/// A search backend, with its address.
#[derive(Debug)]
pub enum Backend {
    /// A SearXNG instance.
    Searx(String),
    /// The web search server.
    Server(String),
}

/// What a backend is.
pub enum BackendV {
    Searx(Seq<char>),
    Server(Seq<char>),
}

impl Backend {
    pub open spec fn view(&self) -> BackendV {
        match self {
            Backend::Searx(base) => BackendV::Searx(base@),
            Backend::Server(url) => BackendV::Server(url@),
        }
    }
}

/// The backends of a list.
pub open spec fn backends_view(v: Seq<Backend>) -> Seq<BackendV> {
    Seq::new(v.len(), |i: int| v[i].view())
}

/// How a search runs: in which lane it waits, where it waits at all, and which backends it
/// tries, one after the other, until one answers.
#[derive(Debug)]
pub struct SearchPlan {
    pub lane: Option<SearchLane>,
    pub backends: Vec<Backend>,
}

/// The backends of a search for a client.
pub open spec fn client_backends(instance: Option<Seq<char>>, server: Seq<char>) -> Seq<BackendV> {
    match instance {
        Some(base) => seq![BackendV::Searx(base)],
        None => seq![BackendV::Server(server)],
    }
}

/// The backends of a search in the background.
pub open spec fn background_backends(instance: Option<Seq<char>>, server: Seq<char>) -> Seq<
    BackendV,
> {
    match instance {
        Some(base) => seq![BackendV::Searx(base), BackendV::Server(server)],
        None => seq![BackendV::Server(server)],
    }
}

/// How a search for a client runs: on the SearXNG instance where there is one, at the pace
/// that it shares with the background, and else on the web search server.
pub fn client_search(config: &Config) -> (r: SearchPlan)
    ensures
        match config.searxng_url {
            Some(base) => {
                &&& r.lane == Some(SearchLane::User)
                &&& backends_view(r.backends@) == seq![BackendV::Searx(base@)]
            },
            None => {
                &&& r.lane is None
                &&& backends_view(r.backends@) == seq![BackendV::Server(config.websearch_url@)]
            },
        },
        backends_view(r.backends@) == client_backends(
            opt_text(config.searxng_url),
            config.websearch_url@,
        ),
{
    let mut backends: Vec<Backend> = Vec::new();
    match &config.searxng_url {
        Some(base) => {
            backends.push(Backend::Searx(base.clone()));
            assert(backends_view(backends@) =~= seq![BackendV::Searx(base@)]);
            SearchPlan { lane: Some(SearchLane::User), backends }
        },
        None => {
            backends.push(Backend::Server(config.websearch_url.clone()));
            assert(backends_view(backends@) =~= seq![BackendV::Server(config.websearch_url@)]);
            SearchPlan { lane: None, backends }
        },
    }
}

/// How a search of a learning loop runs: always in the background's lane, on the SearXNG
/// instance where there is one, and on the web search server where there is none or it fails.
pub fn background_search(config: &Config) -> (r: SearchPlan)
    ensures
        r.lane == Some(SearchLane::Background),
        backends_view(r.backends@) == (match config.searxng_url {
            Some(base) => seq![BackendV::Searx(base@), BackendV::Server(config.websearch_url@)],
            None => seq![BackendV::Server(config.websearch_url@)],
        }),
        backends_view(r.backends@) == background_backends(
            opt_text(config.searxng_url),
            config.websearch_url@,
        ),
{
    let mut backends: Vec<Backend> = Vec::new();
    if let Some(base) = &config.searxng_url {
        backends.push(Backend::Searx(base.clone()));
    }
    backends.push(Backend::Server(config.websearch_url.clone()));
    assert(backends_view(backends@) =~= (match config.searxng_url {
        Some(base) => seq![BackendV::Searx(base@), BackendV::Server(config.websearch_url@)],
        None => seq![BackendV::Server(config.websearch_url@)],
    }));
    SearchPlan { lane: Some(SearchLane::Background), backends }
}

/// A client's search goes to one backend only, the instance before the server; one in the
/// background goes there first and ends at the server. Where there is an instance, both wait
/// in their own lanes.
pub proof fn law_searches_are_planned(instance: Option<Seq<char>>, server: Seq<char>)
    ensures
        ({
            let client = client_backends(instance, server);
            let background = background_backends(instance, server);
            &&& client.len() == 1
            &&& client[0] == background[0]
            &&& background.last() == BackendV::Server(server)
            &&& instance matches Some(base) ==> client[0] == BackendV::Searx(base)
                && background.len() == 2
            &&& instance is None ==> background.len() == 1
        }),
{
}

} // verus!
