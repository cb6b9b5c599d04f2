//! Where a request goes: its model, its key and its prompt, and how an answer is cut into
//! frames.
use crate::config::lists::map_texts;
use crate::config::Config;
use crate::text::{
    find, find_chars, lemma_find_from, occurs_at, opt_text, sub_chars, texts, to_chars, to_text,
};
use crate::translate::terms::{remove_term, term_removed};
use vstd::prelude::*;

verus! {

/// The model that a request is sent to: the one set for its kind, or else its own; and then
/// what the model map makes of that.
pub open spec fn routed(
    set: Option<Seq<char>>,
    requested: Seq<char>,
    map: Map<Seq<char>, Seq<char>>,
) -> Seq<char> {
    let chosen = match set {
        Some(m) => m,
        None => requested,
    };
    if map.contains_key(chosen) {
        map[chosen]
    } else {
        chosen
    }
}

/// The model that a request is sent to, given whether it asks for extended thinking.
pub fn pick_model(config: &Config, requested: &str, thinking: bool) -> (r: String)
    ensures
        r@ == routed(
            if thinking {
                opt_text(config.reasoning_model)
            } else {
                opt_text(config.completion_model)
            },
            requested@,
            map_texts(config.model_map@),
        ),
{
    let set = if thinking {
        &config.reasoning_model
    } else {
        &config.completion_model
    };
    let chosen = match set {
        Some(m) => m.clone(),
        None => requested.to_string(),
    };
    match config.model_map.get(chosen.as_str()) {
        Some(target) => target.clone(),
        None => chosen,
    }
}

/// A model that is neither set for a kind of request nor mapped is sent on as it was asked
/// for.
pub proof fn law_unmapped_model_is_kept(requested: Seq<char>, map: Map<Seq<char>, Seq<char>>)
    requires
        !map.contains_key(requested),
    ensures
        routed(None, requested, map) == requested,
{
}

/// The key that a request is sent with.
pub open spec fn key_for(config: Config, header: Option<Seq<char>>) -> Option<Seq<char>> {
    if config.passthrough_api_key {
        match header {
            Some(k) => if k.len() > 0 {
                Some(k)
            } else {
                None
            },
            None => None,
        }
    } else {
        opt_text(config.api_key)
    }
}

/// A client's own key is used exactly where keys are passed through, and the configured one
/// exactly where they are not: neither ever stands in for the other, and an empty key is none.
pub proof fn law_keys_are_kept_apart(config: Config, header: Option<Seq<char>>)
    ensures
        config.passthrough_api_key ==> match key_for(config, header) {
            Some(k) => header == Some(k) && k.len() > 0,
            None => header is None || header->0.len() == 0,
        },
        !config.passthrough_api_key ==> match config.api_key {
            Some(k) => key_for(config, header) == Some(k@),
            None => key_for(config, header) is None,
        },
{
}

/// The key that a request is sent with: its own where keys are passed through, unless it is
/// empty, and the configured one otherwise.
pub fn request_key(config: &Config, header: Option<&str>) -> (r: Option<String>)
    ensures
        opt_text(r) == (if config.passthrough_api_key {
            match header {
                Some(k) => if k@.len() > 0 {
                    Some(k@)
                } else {
                    None
                },
                None => None,
            }
        } else {
            opt_text(config.api_key)
        }),
        opt_text(r) == key_for(
            *config,
            match header {
                Some(k) => Some(k@),
                None => None,
            },
        ),
{
    if config.passthrough_api_key {
        match header {
            Some(k) => if k.is_empty() {
                None
            } else {
                Some(k.to_string())
            },
            None => None,
        }
    } else {
        match &config.api_key {
            Some(k) => Some(k.clone()),
            None => None,
        }
    }
}

/// A text without any of the terms, which are removed in their order.
pub open spec fn cleaned(text: Seq<char>, terms: Seq<Seq<char>>) -> Seq<char>
    decreases terms.len(),
{
    if terms.len() == 0 {
        text
    } else {
        term_removed(cleaned(text, terms.drop_last()), terms.last())
    }
}

/// A system prompt without the terms that are not to be sent.
pub fn clean_prompt(text: &str, terms: &Vec<String>) -> (r: String)
    ensures
        r@ == cleaned(text@, texts(terms@)),
{
    let ghost all = texts(terms@);
    let mut out = text.to_string();
    let n: usize = terms.len();
    let mut i: usize = 0;
    assert(all.take(0) =~= Seq::<Seq<char>>::empty());
    while i < n
        invariant
            n == terms@.len(),
            i <= n,
            all == texts(terms@),
            out@ == cleaned(text@, all.take(i as int)),
        decreases n - i,
    {
        assert(all.take(i as int + 1).drop_last() =~= all.take(i as int));
        out = remove_term(out.as_str(), terms[i].as_str());
        i += 1;
    }
    assert(all.take(n as int) =~= all);
    out
}

// ---------------------------------------------------------------------------
// Frames
// ---------------------------------------------------------------------------
/// Where the first frame ends, and how long its end is: an empty line, in either of the ways
/// in which lines end.
pub open spec fn frame_end(s: Seq<char>) -> Option<(int, int)> {
    match (find(s, "\n\n"@), find(s, "\r\n\r\n"@)) {
        (Some(a), Some(b)) => if a <= b {
            Some((a, 2))
        } else {
            Some((b, 4))
        },
        (Some(a), None) => Some((a, 2)),
        (None, Some(b)) => Some((b, 4)),
        (None, None) => None,
    }
}

/// The first frame of what was received so far, and what follows it.
pub fn next_frame(s: &str) -> (r: Option<(String, String)>)
    ensures
        match frame_end(s@) {
            Some((i, n)) => r matches Some(t) && t.0@ == s@.take(i) && t.1@ == s@.skip(i + n),
            None => r is None,
        },
{
    let cs = to_chars(s);
    let short = to_chars("\n\n");
    let long = to_chars("\r\n\r\n");
    proof {
        reveal_strlit("\n\n");
        reveal_strlit("\r\n\r\n");
        lemma_find_from(cs@, short@, 0);
        lemma_find_from(cs@, long@, 0);
    }
    let a = find_chars(cs.as_slice(), short.as_slice(), 0);
    let b = find_chars(cs.as_slice(), long.as_slice(), 0);
    let (end, skipped): (usize, usize) = match (a, b) {
        (Some(a), Some(b)) => if a <= b {
            (a, 2)
        } else {
            (b, 4)
        },
        (Some(a), None) => (a, 2),
        (None, Some(b)) => (b, 4),
        (None, None) => {
            return None;
        },
    };
    let n: usize = cs.len();
    let head = sub_chars(cs.as_slice(), 0, end);
    let tail = sub_chars(cs.as_slice(), end + skipped, n);
    assert(head@ =~= s@.take(end as int));
    assert(tail@ =~= s@.skip(end + skipped));
    Some((to_text(head.as_slice()), to_text(tail.as_slice())))
}

/// Cutting a frame off loses nothing: the frame, its end and the rest are what was received.
pub proof fn law_frames_keep_the_text(s: Seq<char>)
    ensures
        frame_end(s) matches Some((i, n)) ==> s == s.take(i) + (if n == 2 {
            "\n\n"@
        } else {
            "\r\n\r\n"@
        }) + s.skip(i + n),
{
    reveal_strlit("\n\n");
    reveal_strlit("\r\n\r\n");
    lemma_find_from(s, "\n\n"@, 0);
    lemma_find_from(s, "\r\n\r\n"@, 0);
    if let Some((i, n)) = frame_end(s) {
        let end = if n == 2 {
            "\n\n"@
        } else {
            "\r\n\r\n"@
        };
        assert(occurs_at(s, end, i));
        assert(s =~= s.take(i) + end + s.skip(i + n));
    }
}

/// A request goes to the model that is set for its kind, or else to the one that it asks for;
/// and where that model is mapped, to what it is mapped to. No other entry of the map matters.
pub proof fn law_model_is_routed(
    set: Option<Seq<char>>,
    requested: Seq<char>,
    map: Map<Seq<char>, Seq<char>>,
    k: Seq<char>,
    v: Seq<char>,
)
    ensures
        set matches Some(m) ==> routed(set, requested, map) == routed(None, m, map),
        routed(None, requested, map.insert(requested, v)) == v,
        k != requested ==> routed(None, requested, map.insert(k, v)) == routed(
            None,
            requested,
            map,
        ),
        routed(None, requested, Map::empty()) == requested,
{
}

/// Terms are removed one after the other, each from what the ones before it left.
pub proof fn law_terms_go_one_by_one(text: Seq<char>, terms: Seq<Seq<char>>, term: Seq<char>)
    ensures
        cleaned(text, seq![]) == text,
        cleaned(text, terms.push(term)) == term_removed(cleaned(text, terms), term),
{
    assert(terms.push(term).drop_last() =~= terms);
}

/// A frame ends at the first empty line, whichever way its lines end, and only there.
pub proof fn law_frame_ends_at_the_first_empty_line(s: Seq<char>)
    ensures
        match frame_end(s) {
            Some((i, n)) => {
                &&& occurs_at(s, "\n\n"@, i) && n == 2 || occurs_at(s, "\r\n\r\n"@, i) && n == 4
                &&& forall|k: int|
                    0 <= k < i ==> !#[trigger] occurs_at(s, "\n\n"@, k) && !occurs_at(
                        s,
                        "\r\n\r\n"@,
                        k,
                    )
            },
            None => forall|k: int|
                !#[trigger] occurs_at(s, "\n\n"@, k) && !occurs_at(s, "\r\n\r\n"@, k),
        },
{
    lemma_find_from(s, "\n\n"@, 0);
    lemma_find_from(s, "\r\n\r\n"@, 0);
}

} // verus!
