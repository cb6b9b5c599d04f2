//! What the learning loops make of web searches.
use crate::config::urls::{read_url, read_view, url_read, UrlParts, UrlV};
use crate::text::{ascends, insert_sorted, join, join_texts, lower, lower_text, opt_text, texts};
use crate::websearch::{results_view, SearchResult, SearchResultV};
use vstd::prelude::*;

verus! {

/// How many independent hosts corroborate a lesson or a fact.
pub const MIN_DOMAINS: usize = 2;

/// How many results are shown as evidence.
pub const MAX_EVIDENCE: usize = 5;

/// One result as evidence.
pub open spec fn evidence_line(r: SearchResultV) -> Seq<char> {
    "- "@ + r.title + " ("@ + r.url + "): "@ + r.description
}

/// The first results as evidence, one per line.
pub open spec fn evidence_text(rs: Seq<SearchResultV>) -> Seq<char> {
    let n = if rs.len() <= MAX_EVIDENCE {
        rs.len()
    } else {
        MAX_EVIDENCE as nat
    };
    join(Seq::new(n, |i: int| evidence_line(rs[i])), "\n"@)
}

/// The first results as evidence, one per line.
pub fn evidence(results: &Vec<SearchResult>) -> (r: String)
    ensures
        r@ == evidence_text(results_view(results@)),
{
    let ghost view = results_view(results@);
    let n: usize = if results.len() <= MAX_EVIDENCE {
        results.len()
    } else {
        MAX_EVIDENCE
    };
    let mut lines: Vec<String> = Vec::new();
    let mut i: usize = 0;
    while i < n
        invariant
            n <= results@.len(),
            i <= n,
            view == results_view(results@),
            lines@.len() == i,
            forall|k: int| 0 <= k < i ==> (#[trigger] lines@[k])@ == evidence_line(view[k]),
        decreases n - i,
    {
        let found = &results[i];
        let mut line = "- ".to_string();
        line.append(found.title.as_str());
        line.append(" (");
        line.append(found.url.as_str());
        line.append("): ");
        line.append(found.description.as_str());
        lines.push(line);
        i += 1;
    }
    assert(texts(lines@) =~= Seq::new(n as nat, |i: int| evidence_line(view[i])));
    join_texts(lines.as_slice(), "\n")
}

/// The host of a URL in lower case, given what the URL parser made of it.
pub open spec fn host_in(parsed: Result<UrlV, Seq<char>>) -> Option<Seq<char>> {
    match parsed {
        Ok(u) => match u.host {
            Some(h) => Some(lower(h)),
            None => None,
        },
        Err(_) => None,
    }
}

/// The host of a URL in lower case, given what the URL parser made of it.
pub fn host_of_parsed(parsed: &Result<UrlParts, String>) -> (r: Option<String>)
    ensures
        opt_text(r) == host_in(read_view(*parsed)),
{
    match parsed {
        Ok(u) => match &u.host {
            Some(h) => Some(lower_text(h.as_str())),
            None => None,
        },
        Err(_) => None,
    }
}

/// The host of a URL in lower case.
pub fn host_of(url: &str) -> (r: Option<String>)
    ensures
        opt_text(r) == host_in(url_read(url@)),
{
    let parsed = read_url(url);
    host_of_parsed(&parsed)
}

/// Some result is of that host.
pub open spec fn has_host(rs: Seq<SearchResultV>, host: Seq<char>) -> bool {
    exists|i: int| 0 <= i < rs.len() && host_in(url_read((#[trigger] rs[i]).url)) == Some(host)
}

/// The hosts of the results, in order and each once: independent sources are counted by
/// these.
pub fn hosts(results: &Vec<SearchResult>) -> (r: Vec<String>)
    ensures
        ascends(texts(r@)),
        forall|h: Seq<char>| #[trigger]
            texts(r@).contains(h) <==> has_host(results_view(results@), h),
{
    let ghost view = results_view(results@);
    let mut out: Vec<String> = Vec::new();
    let n: usize = results.len();
    let mut i: usize = 0;
    while i < n
        invariant
            n == results@.len(),
            i <= n,
            view == results_view(results@),
            ascends(texts(out@)),
            forall|h: Seq<char>| #[trigger]
                texts(out@).contains(h) <==> has_host(view.take(i as int), h),
        decreases n - i,
    {
        let ghost before = texts(out@);
        let ghost found = host_in(url_read(view[i as int].url));
        if let Some(host) = host_of(results[i].url.as_str()) {
            insert_sorted(&mut out, host);
        }
        proof {
            let part = view.take(i as int);
            let more = view.take(i as int + 1);
            assert forall|h: Seq<char>| #[trigger] texts(out@).contains(h) <==> has_host(
                more,
                h,
            ) by {
                assert(before.contains(h) <==> has_host(part, h));
                if has_host(part, h) {
                    let k = choose|k: int|
                        0 <= k < part.len() && host_in(url_read((#[trigger] part[k]).url)) == Some(
                            h,
                        );
                    assert(more[k] == part[k]);
                }
                if found == Some(h) {
                    assert(more[i as int] == view[i as int]);
                }
                if has_host(more, h) {
                    let k = choose|k: int|
                        0 <= k < more.len() && host_in(url_read((#[trigger] more[k]).url)) == Some(
                            h,
                        );
                    if k < i {
                        assert(part[k] == more[k]);
                    }
                }
            }
        }
        i += 1;
    }
    assert(view.take(n as int) =~= view);
    out
}

/// An address stands for its host, whichever case it is written in; one without a host, or
/// that cannot be read, stands for none.
pub proof fn law_hosts_are_read(u: UrlV, e: Seq<char>)
    ensures
        u.host is Some <==> host_in(Ok(u)) is Some,
        u.host matches Some(h) ==> host_in(Ok(u)) == Some(lower(h)),
        host_in(Err(e)) is None,
{
}

/// Every page of a list counts for its host, and no other host counts.
pub proof fn law_hosts_of_pages(rs: Seq<SearchResultV>, r: SearchResultV, host: Seq<char>)
    ensures
        has_host(rs.push(r), host) <==> has_host(rs, host) || host_in(url_read(r.url)) == Some(
            host,
        ),
        !has_host(seq![], host),
{
    let all = rs.push(r);
    if has_host(rs, host) {
        let i = choose|i: int|
            0 <= i < rs.len() && host_in(url_read((#[trigger] rs[i]).url)) == Some(host);
        assert(all[i] == rs[i]);
    }
    assert(all[rs.len() as int] == r);
}

} // verus!
