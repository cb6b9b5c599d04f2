//! Lists that a configuration holds as text.
use crate::config::urls::{ConfigError, ConfigErrorV};
use crate::strmap::StrMap;
use crate::text::{
    any_same, entries, entry_texts, join, join_texts, lower, lower_text, split_once,
    split_once_chars, texts, to_chars, to_text, to_texts, trim, trim_chars, word_chars, words,
};
use crate::text_laws::law_join_separates;
use vstd::prelude::*;

verus! {

// ---------------------------------------------------------------------------
// Terms
// ---------------------------------------------------------------------------
/// The terms that a text lists, separated by semicolons or line feeds.
pub fn read_terms(value: &str) -> (r: Vec<String>)
    ensures
        texts(r@) == entries(value@, seq![';', '\n']),
{
    let seps: [char; 2] = [';', '\n'];
    assert(seps@ =~= seq![';', '\n']);
    entry_texts(value, seps.as_slice())
}

/// What terms are compared by: their words in lower case, with single spaces.
pub open spec fn term_key(term: Seq<char>) -> Seq<char> {
    lower(join(words(term), " "@))
}

/// Some term has that key.
pub open spec fn has_key(terms: Seq<Seq<char>>, key: Seq<char>) -> bool {
    exists|i: int| 0 <= i < terms.len() && term_key(#[trigger] terms[i]) == key
}

/// The terms without those that repeat an earlier one.
pub open spec fn first_terms(terms: Seq<Seq<char>>) -> Seq<Seq<char>>
    decreases terms.len(),
{
    if terms.len() == 0 {
        seq![]
    } else {
        let head = first_terms(terms.drop_last());
        if has_key(terms.drop_last(), term_key(terms.last())) {
            head
        } else {
            head.push(terms.last())
        }
    }
}

fn key_of(term: &str) -> (r: String)
    ensures
        r@ == term_key(term@),
{
    let parts = word_chars(to_chars(term).as_slice());
    let parts = to_texts(parts.as_slice());
    let joined = join_texts(parts.as_slice(), " ");
    lower_text(joined.as_str())
}

proof fn lemma_first_terms_keys(terms: Seq<Seq<char>>, key: Seq<char>)
    ensures
        has_key(first_terms(terms), key) <==> has_key(terms, key),
    decreases terms.len(),
{
    if terms.len() > 0 {
        let rest = terms.drop_last();
        let head = first_terms(rest);
        lemma_first_terms_keys(rest, key);
        if has_key(terms, key) {
            let i = choose|i: int| 0 <= i < terms.len() && term_key(#[trigger] terms[i]) == key;
            if i < rest.len() {
                assert(rest[i] == terms[i]);
                assert(has_key(head, key));
            } else {
                if has_key(rest, term_key(terms.last())) {
                    assert(has_key(head, key));
                } else {
                    assert(head.push(terms.last())[head.len() as int] == terms.last());
                }
            }
            if has_key(head, key) {
                let j = choose|j: int| 0 <= j < head.len() && term_key(#[trigger] head[j]) == key;
                assert(head.push(terms.last())[j] == head[j]);
            }
        }
        if has_key(first_terms(terms), key) {
            let f = first_terms(terms);
            let j = choose|j: int| 0 <= j < f.len() && term_key(#[trigger] f[j]) == key;
            if j < head.len() {
                assert(head[j] == f[j]);
                assert(has_key(rest, key));
                let i = choose|i: int| 0 <= i < rest.len() && term_key(#[trigger] rest[i]) == key;
                assert(terms[i] == rest[i]);
            } else {
                assert(terms[terms.len() - 1] == f[j]);
            }
        }
    }
}

/// Takes out the terms that repeat an earlier one, whatever their case and white space.
pub fn dedupe_terms(terms: &mut Vec<String>)
    ensures
        texts(final(terms)@) == first_terms(texts(old(terms)@)),
{
    let ghost all = texts(terms@);
    let n: usize = terms.len();
    let mut deduped: Vec<String> = Vec::new();
    let mut seen: Vec<String> = Vec::new();
    let mut i: usize = 0;
    assert(texts(deduped@) =~= first_terms(all.take(0)));
    while i < n
        invariant
            n == terms@.len(),
            i <= n,
            all == texts(terms@),
            terms@ == old(terms)@,
            texts(deduped@) == first_terms(all.take(i as int)),
            seen@.len() == deduped@.len(),
            forall|k: int| 0 <= k < seen@.len() ==> (#[trigger] seen@[k])@ == term_key(deduped@[k]@),
        decreases n - i,
    {
        let ghost part = all.take(i as int);
        proof {
            assert(all.take(i as int + 1).drop_last() =~= part);
            assert(all.take(i as int + 1).last() == terms@[i as int]@);
        }
        let key = key_of(terms[i].as_str());
        let found = any_same(seen.as_slice(), key.as_str());
        proof {
            lemma_first_terms_keys(part, key@);
            let d = texts(deduped@);
            if found {
                let ks = texts(seen@);
                let k = choose|k: int| 0 <= k < ks.len() && ks[k] == key@;
                assert(seen@[k]@ == key@);
                assert(term_key(d[k]) == key@);
            }
            if has_key(d, key@) {
                let k = choose|k: int| 0 <= k < d.len() && term_key(#[trigger] d[k]) == key@;
                assert(seen@[k]@ == key@);
                assert(texts(seen@)[k] == key@);
            }
        }
        if !found {
            let ghost before = deduped@;
            seen.push(key);
            deduped.push(terms[i].clone());
            assert(texts(deduped@) =~= texts(before).push(terms@[i as int]@));
        }
        i += 1;
    }
    assert(all.take(n as int) =~= all);
    *terms = deduped;
}

/// No two terms have the same key.
pub open spec fn all_differ(terms: Seq<Seq<char>>) -> bool {
    forall|i: int, j: int|
        0 <= i < j < terms.len() ==> term_key(#[trigger] terms[i]) != term_key(#[trigger] terms[j])
}

/// What is left repeats nothing, and for every term there is one with its key.
pub proof fn law_terms_are_distinct(terms: Seq<Seq<char>>)
    ensures
        all_differ(first_terms(terms)),
        forall|key: Seq<char>| has_key(first_terms(terms), key) <==> has_key(terms, key),
    decreases terms.len(),
{
    assert forall|key: Seq<char>| has_key(first_terms(terms), key) <==> has_key(terms, key) by {
        lemma_first_terms_keys(terms, key);
    }
    if terms.len() > 0 {
        let rest = terms.drop_last();
        let head = first_terms(rest);
        law_terms_are_distinct(rest);
        if !has_key(rest, term_key(terms.last())) {
            assert(!has_key(head, term_key(terms.last())));
            let f = head.push(terms.last());
            assert forall|i: int, j: int| 0 <= i < j < f.len() implies term_key(#[trigger] f[i])
                != term_key(#[trigger] f[j]) by {
                assert(f[i] == head[i]);
                if j < head.len() {
                    assert(f[j] == head[j]);
                }
            }
        }
    }
}

/// A list that repeats nothing is left as it is; so deduplicating twice is deduplicating once.
pub proof fn law_distinct_terms_are_kept(terms: Seq<Seq<char>>)
    requires
        all_differ(terms),
    ensures
        first_terms(terms) == terms,
    decreases terms.len(),
{
    if terms.len() > 0 {
        let rest = terms.drop_last();
        assert forall|i: int, j: int| 0 <= i < j < rest.len() implies term_key(#[trigger] rest[i])
            != term_key(#[trigger] rest[j]) by {
            assert(rest[i] == terms[i] && rest[j] == terms[j]);
        }
        law_distinct_terms_are_kept(rest);
        if has_key(rest, term_key(terms.last())) {
            let i = choose|i: int|
                0 <= i < rest.len() && term_key(#[trigger] rest[i]) == term_key(terms.last());
            assert(term_key(terms[i]) != term_key(terms[terms.len() - 1]));
        }
        assert(rest.push(terms.last()) =~= terms);
    }
}

// ---------------------------------------------------------------------------
// Model map
// ---------------------------------------------------------------------------
/// What is wrong with a model map entry.
pub open spec fn entry_error(entry: Seq<char>) -> Option<ConfigErrorV> {
    match split_once(entry, '=') {
        None => Some(ConfigErrorV::ModelMapEntry(entry)),
        Some((source, target)) => if trim(source).len() == 0 || trim(target).len() == 0 {
            Some(ConfigErrorV::ModelMapEmpty(entry))
        } else {
            None
        },
    }
}

/// What is wrong with the first bad entry.
pub open spec fn map_error(es: Seq<Seq<char>>) -> Option<ConfigErrorV>
    decreases es.len(),
{
    if es.len() == 0 {
        None
    } else {
        match map_error(es.drop_last()) {
            Some(e) => Some(e),
            None => entry_error(es.last()),
        }
    }
}

/// The map that entries describe: a later entry wins.
pub open spec fn map_of(es: Seq<Seq<char>>) -> Map<Seq<char>, Seq<char>>
    decreases es.len(),
{
    if es.len() == 0 {
        Map::empty()
    } else {
        let head = map_of(es.drop_last());
        match split_once(es.last(), '=') {
            Some((source, target)) => head.insert(trim(source), trim(target)),
            None => head,
        }
    }
}

/// The texts of a map.
pub open spec fn map_texts(m: Map<Seq<char>, String>) -> Map<Seq<char>, Seq<char>> {
    m.map_values(|s: String| s@)
}

/// The model map that a text lists, or what is wrong with its first bad entry.
pub open spec fn model_map_of(value: Seq<char>) -> Result<
    Map<Seq<char>, Seq<char>>,
    ConfigErrorV,
> {
    let es = entries(value, seq![';', '\n']);
    match map_error(es) {
        Some(e) => Err(e),
        None => Ok(map_of(es)),
    }
}

/// What a read map is.
pub open spec fn map_result(r: Result<StrMap<String>, ConfigError>) -> Result<
    Map<Seq<char>, Seq<char>>,
    ConfigErrorV,
> {
    match r {
        Ok(m) => Ok(map_texts(m@)),
        Err(e) => Err(e@),
    }
}

proof fn lemma_map_error_stays(es: Seq<Seq<char>>, k: int)
    requires
        0 <= k <= es.len(),
        map_error(es.take(k)) is Some,
    ensures
        map_error(es) == map_error(es.take(k)),
    decreases es.len() - k,
{
    if k == es.len() {
        assert(es.take(k) =~= es);
    } else {
        assert(es.take(k + 1).drop_last() =~= es.take(k));
        lemma_map_error_stays(es, k + 1);
    }
}

/// The model map that a text lists: `source=target`, separated by semicolons or line feeds.
pub fn read_model_map(value: &str) -> (r: Result<StrMap<String>, ConfigError>)
    ensures
        map_result(r) == model_map_of(value@),
{
    let list = read_terms(value);
    let ghost es = texts(list@);
    let mut map: StrMap<String> = StrMap::new();
    let n: usize = list.len();
    let mut i: usize = 0;
    proof {
        assert(es.take(0) =~= Seq::<Seq<char>>::empty());
        assert(map_texts(map@) =~= Map::empty());
    }
    while i < n
        invariant
            n == list@.len(),
            i <= n,
            es == texts(list@),
            es == entries(value@, seq![';', '\n']),
            map_error(es.take(i as int)) is None,
            map_texts(map@) == map_of(es.take(i as int)),
        decreases n - i,
    {
        proof {
            assert(es.take(i as int + 1).drop_last() =~= es.take(i as int));
            assert(es.take(i as int + 1).last() == list@[i as int]@);
        }
        let cs = to_chars(list[i].as_str());
        let (source, target) = match split_once_chars(cs.as_slice(), '=') {
            Some(t) => t,
            None => {
                proof {
                    lemma_map_error_stays(es, i as int + 1);
                }
                return Err(ConfigError::ModelMapEntry(list[i].clone()));
            },
        };
        let source = trim_chars(source.as_slice());
        let target = trim_chars(target.as_slice());
        if source.len() == 0 || target.len() == 0 {
            proof {
                lemma_map_error_stays(es, i as int + 1);
            }
            return Err(ConfigError::ModelMapEmpty(list[i].clone()));
        }
        let source = to_text(source.as_slice());
        let target = to_text(target.as_slice());
        let ghost before = map@;
        let ghost (k, v) = (source@, target@);
        map.insert(source, target);
        assert(map_texts(map@) =~= map_texts(before).insert(k, v));
        i += 1;
    }
    assert(es.take(n as int) =~= es);
    Ok(map)
}

/// Terms are told apart by their words alone: those, each with one space behind it but the
/// last, are compared in lower case.
pub proof fn law_terms_are_told_by_their_words(term: Seq<char>, other: Seq<char>)
    ensures
        words(term).len() > 0 ==> exists|line: Seq<char>| #[trigger]
            lower(line) == term_key(term) && line + " "@ == Seq::new(
                words(term).len(),
                |i: int| words(term)[i] + " "@,
            ).flatten_alt(),
        words(term) == words(other) ==> term_key(term) == term_key(other),
        words(term).len() == 1 && words(other).len() == 1 ==> (term_key(term) == term_key(other)
            <==> lower(words(term)[0]) == lower(words(other)[0])),
{
    if words(term).len() > 0 {
        law_join_separates(words(term), " "@);
        assert(lower(join(words(term), " "@)) == term_key(term));
    }
    if words(term).len() == 1 && words(other).len() == 1 {
        lemma_one_word(words(term));
        lemma_one_word(words(other));
    }
}

proof fn lemma_one_word(ws: Seq<Seq<char>>)
    requires
        ws.len() == 1,
    ensures
        join(ws, " "@) == ws[0],
{
    law_join_separates(ws, " "@);
    let ends = Seq::new(ws.len(), |i: int| ws[i] + " "@);
    assert(ends.drop_last().len() == 0);
    assert(ends.drop_last().flatten_alt() =~= Seq::<char>::empty());
    assert(ends.flatten_alt() =~= ws[0] + " "@);
    let a = join(ws, " "@) + " "@;
    let b = ws[0] + " "@;
    assert(a == b);
    assert(a.len() == join(ws, " "@).len() + 1 && b.len() == ws[0].len() + 1) by {
        reveal_strlit(" ");
    }
    assert forall|k: int| 0 <= k < ws[0].len() implies join(ws, " "@)[k] == #[trigger] ws[0][k] by {
        assert(a[k] == b[k]);
    }
    assert(join(ws, " "@) =~= ws[0]);
}

/// Of terms that are alike the first stays, in its place; any other term joins behind those
/// before it.
pub proof fn law_first_of_like_terms_stays(terms: Seq<Seq<char>>, term: Seq<char>)
    ensures
        first_terms(terms.push(term)) == if exists|i: int|
            0 <= i < terms.len() && term_key(#[trigger] terms[i]) == term_key(term) {
            first_terms(terms)
        } else {
            first_terms(terms).push(term)
        },
        first_terms(seq![]).len() == 0,
{
    assert(terms.push(term).drop_last() =~= terms);
}

} // verus!
