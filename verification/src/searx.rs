//! What is sent to, and read from, a SearXNG instance.
//!
//! A search is `GET /search?q=..&format=json`; the snippet of each result becomes its
//! description, so that results look the same whichever backend found them.
use crate::json::{json_parse, json_seq, lemma_view_parts, Json, JsonV};
use crate::text::{strip_end, strip_end_text};
use crate::websearch::{
    list_at, read_record, record_texts, results_view, SearchResult, SearchResultV,
};
use vstd::prelude::*;

verus! {

/// One SearXNG instance (such as `http://searxng:8080`).
pub struct SearxClient {
    pub base: String,
}

/// The result that a value describes: one with a URL.
pub open spec fn searx_result(v: JsonV) -> Option<SearchResultV> {
    match record_texts(v, "title"@, "url"@, "content"@) {
        Some((title, url, description)) => if url.len() > 0 {
            Some(SearchResultV { title, url, description })
        } else {
            None
        },
        None => None,
    }
}

/// The results that values describe, in order.
pub open spec fn searx_results(vs: Seq<JsonV>) -> Seq<SearchResultV>
    decreases vs.len(),
{
    if vs.len() == 0 {
        seq![]
    } else {
        let head = searx_results(vs.drop_last());
        match searx_result(vs.last()) {
            Some(r) => head.push(r),
            None => head,
        }
    }
}

/// The first `limit` of them.
pub open spec fn at_most(results: Seq<SearchResultV>, limit: u32) -> Seq<SearchResultV> {
    if results.len() <= limit {
        results
    } else {
        results.take(limit as int)
    }
}

proof fn lemma_results_grow(vs: Seq<JsonV>, k: int)
    requires
        0 <= k <= vs.len(),
    ensures
        searx_results(vs.take(k)).len() <= searx_results(vs).len(),
        searx_results(vs).take(searx_results(vs.take(k)).len() as int) == searx_results(vs.take(k)),
    decreases vs.len() - k,
{
    if k == vs.len() {
        assert(vs.take(k) =~= vs);
        assert(searx_results(vs).take(searx_results(vs).len() as int) =~= searx_results(vs));
    } else {
        lemma_results_grow(vs, k + 1);
        assert(vs.take(k + 1).drop_last() =~= vs.take(k));
        let n = searx_results(vs.take(k)).len() as int;
        let longer = searx_results(vs.take(k + 1));
        assert(longer.take(n) =~= searx_results(vs.take(k)));
        assert(searx_results(vs).take(n) =~= searx_results(vs).take(longer.len() as int).take(n));
    }
}

/// The results of an answer, at most `limit` of them.
pub fn read_results(body: &Json, limit: u32) -> (r: Vec<SearchResult>)
    ensures
        results_view(r@) == at_most(searx_results(list_at(body@, "results"@)), limit),
{
    let mut out: Vec<SearchResult> = Vec::new();
    assert(results_view(out@) =~= Seq::<SearchResultV>::empty());
    match body.get("results") {
        Some(Json::Array(vs)) => {
            let ghost all = json_seq(vs@);
            proof {
                lemma_view_parts(Json::Array(*vs));
            }
            let n: usize = vs.len();
            let mut i: usize = 0;
            assert(all.take(0) =~= Seq::<JsonV>::empty());
            while i < n && out.len() < limit as usize
                invariant
                    n == vs@.len(),
                    i <= n,
                    all == json_seq(vs@),
                    out@.len() <= limit,
                    results_view(out@) == searx_results(all.take(i as int)),
                decreases n - i,
            {
                assert(all.take(i as int + 1).drop_last() =~= all.take(i as int));
                let ghost before = out@;
                if let Some((title, url, description)) = read_record(
                    &vs[i],
                    "title",
                    "url",
                    "content",
                ) {
                    if !url.as_str().is_empty() {
                        let found = SearchResult { title, url, description };
                        let ghost f = found@;
                        out.push(found);
                        assert(results_view(out@) =~= results_view(before).push(f));
                    }
                }
                i += 1;
            }
            proof {
                lemma_results_grow(all, i as int);
                assert(all.take(n as int) =~= all);
            }
        },
        _ => {},
    }
    out
}

/// What an answer's text gives: the results, at most `limit` of them, or that it is not JSON.
pub fn read_answer(text: &str, limit: u32) -> (r: Result<Vec<SearchResult>, String>)
    ensures
        match json_parse(text@) {
            Some(body) => r is Ok && results_view(r->Ok_0@) == at_most(
                searx_results(list_at(body, "results"@)),
                limit,
            ),
            None => r is Err && r->Err_0@ == "parsing searxng json"@,
        },
{
    match Json::parse(text) {
        Some(body) => Ok(read_results(&body, limit)),
        None => Err("parsing searxng json".to_string()),
    }
}

impl SearxClient {
    /// A client for the instance.
    pub fn new(base: String) -> (r: SearxClient)
        ensures
            r.base == base,
    {
        SearxClient { base }
    }

    /// Where a search is sent: under the base, with or without a slash at its end.
    pub fn search(&self) -> (r: String)
        ensures
            r@ == strip_end(self.base@, "/"@) + "/search"@,
    {
        let mut url = strip_end_text(self.base.as_str(), "/");
        url.append("/search");
        url
    }
}

/// A page that SearXNG found is read by its names, where it has an address: its snippet is its
/// description. A page that cannot be read is left out, the others keep their order, and there
/// are no more than are wanted.
pub proof fn law_snippets_are_descriptions(
    vs: Seq<JsonV>,
    m: Map<Seq<char>, JsonV>,
    limit: u32,
)
    ensures
        ({
            let v = JsonV::Object(m);
            let title = v.get("title"@);
            let url = v.get("url"@);
            let content = v.get("content"@);
            let readable = |x: Option<JsonV>| x is None || x->0 is String;
            let text = |x: Option<JsonV>|
                if x is None {
                    seq![]
                } else {
                    x->0->String_0
                };
            let usable = readable(title) && readable(url) && readable(content) && text(url).len() > 0;
            let more = searx_results(vs.push(v));
            &&& !usable ==> more == searx_results(vs)
            &&& usable ==> more.len() == searx_results(vs).len() + 1 && more.drop_last()
                == searx_results(vs) && more.last().title == text(title) && more.last().url == text(
                url,
            ) && more.last().description == text(content)
        }),
        searx_results(seq![]).len() == 0,
        ({
            let all = searx_results(vs);
            let some = at_most(all, limit);
            &&& some.len() == if all.len() < limit {
                all.len()
            } else {
                limit as nat
            }
            &&& forall|i: int| 0 <= i < some.len() ==> some[i] == #[trigger] all[i]
        }),
{
    let v = JsonV::Object(m);
    assert(vs.push(v).drop_last() =~= vs);
    if let Some(r) = searx_result(v) {
        assert(searx_results(vs).push(r).drop_last() =~= searx_results(vs));
    }
}

} // verus!
