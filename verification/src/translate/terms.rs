//! Removing a term from a text.
use crate::text::{
    char_views, chars_eq, lemma_words_non_empty, lower, lower_chars, occurs_at, sub_chars, to_chars,
    to_text, word_chars, words,
};
use vstd::prelude::*;

verus! {

/// A character of a word: an ASCII letter or digit, or an underscore.
pub open spec fn is_word_char(c: char) -> bool {
    ('a' <= c && c <= 'z') || ('A' <= c && c <= 'Z') || ('0' <= c && c <= '9') || c == '_'
}

/// ASCII white space.
pub open spec fn is_ascii_space(c: char) -> bool {
    c == ' ' || c == '\t' || c == '\n' || c == '\x0C' || c == '\r'
}

/// The position is inside a word: a word character on either side of it.
pub open spec fn inside_word(s: Seq<char>, i: int) -> bool {
    0 < i < s.len() && is_word_char(s[i - 1]) && is_word_char(s[i])
}

/// Where the white space that begins at `i` ends.
pub open spec fn past_space(s: Seq<char>, i: int) -> int
    decreases s.len() - i,
{
    if 0 <= i < s.len() && is_ascii_space(s[i]) {
        past_space(s, i + 1)
    } else {
        i
    }
}

/// Where the tokens end that stand at `i`, one after the other with white space between.
/// The text is compared in lower case.
pub open spec fn phrase_end(s: Seq<char>, i: int, tokens: Seq<Seq<char>>) -> Option<int>
    decreases tokens.len(),
{
    if tokens.len() == 0 {
        Some(i)
    } else if !occurs_at(lower(s), tokens[0], i) {
        None
    } else {
        let j = i + tokens[0].len();
        if tokens.len() == 1 {
            Some(j)
        } else if past_space(s, j) == j {
            None
        } else {
            phrase_end(s, past_space(s, j), tokens.skip(1))
        }
    }
}

/// Where the term ends that stands at `i`, neither end inside a word.
pub open spec fn term_end(s: Seq<char>, i: int, tokens: Seq<Seq<char>>) -> Option<int> {
    if inside_word(s, i) {
        None
    } else {
        match phrase_end(s, i, tokens) {
            Some(e) => if inside_word(s, e) {
                None
            } else {
                Some(e)
            },
            None => None,
        }
    }
}

/// The text from `i` on, without the term.
pub open spec fn without_term(s: Seq<char>, i: int, tokens: Seq<Seq<char>>) -> Seq<char>
    decreases s.len() - i,
{
    if i < 0 || i >= s.len() {
        seq![]
    } else {
        match term_end(s, i, tokens) {
            Some(e) => if i < e <= s.len() {
                without_term(s, e, tokens)
            } else {
                seq![]
            },
            None => seq![s[i]] + without_term(s, i + 1, tokens),
        }
    }
}

/// The words of a term, in lower case.
pub open spec fn term_tokens(term: Seq<char>) -> Seq<Seq<char>> {
    Seq::new(words(term).len(), |i: int| lower(words(term)[i]))
}

/// The text without the term. A term without words leaves it as it is.
pub open spec fn term_removed(s: Seq<char>, term: Seq<char>) -> Seq<char> {
    if term_tokens(term).len() == 0 {
        s
    } else {
        without_term(s, 0, term_tokens(term))
    }
}

fn word_char(c: char) -> (r: bool)
    ensures
        r == is_word_char(c),
{
    ('a' <= c && c <= 'z') || ('A' <= c && c <= 'Z') || ('0' <= c && c <= '9') || c == '_'
}

fn at_inside_word(cs: &Vec<char>, i: usize) -> (r: bool)
    ensures
        r == inside_word(cs@, i as int),
{
    0 < i && i < cs.len() && word_char(cs[i - 1]) && word_char(cs[i])
}

fn skip_space(cs: &Vec<char>, from: usize) -> (r: usize)
    requires
        from <= cs@.len(),
    ensures
        r == past_space(cs@, from as int),
        from <= r <= cs@.len(),
{
    let mut i: usize = from;
    while i < cs.len() && (cs[i] == ' ' || cs[i] == '\t' || cs[i] == '\n' || cs[i] == '\x0C'
        || cs[i] == '\r')
        invariant
            from <= i <= cs@.len(),
            past_space(cs@, i as int) == past_space(cs@, from as int),
        decreases cs@.len() - i,
    {
        i += 1;
    }
    i
}

fn match_term_at(cs: &Vec<char>, lowered: &Vec<char>, start: usize, tokens: &Vec<Vec<char>>) -> (r:
    Option<usize>)
    requires
        lowered@ == lower(cs@),
        start < cs@.len(),
        tokens@.len() > 0,
        forall|k: int| 0 <= k < tokens@.len() ==> (#[trigger] tokens@[k])@.len() > 0,
    ensures
        match term_end(cs@, start as int, char_views(tokens@)) {
            Some(e) => r is Some && r->0 == e && start < e <= cs@.len(),
            None => r is None,
        },
{
    if at_inside_word(cs, start) {
        return None;
    }
    let ghost all = char_views(tokens@);
    let n: usize = tokens.len();
    let mut index: usize = start;
    let mut k: usize = 0;
    assert(all.skip(0) =~= all);
    while k < n
        invariant
            n == tokens@.len(),
            n > 0,
            k <= n,
            start <= index <= cs@.len(),
            k > 0 ==> start < index,
            lowered@ == lower(cs@),
            all == char_views(tokens@),
            !inside_word(cs@, start as int),
            forall|j: int| 0 <= j < tokens@.len() ==> (#[trigger] tokens@[j])@.len() > 0,
            0 < k < n ==> phrase_end(cs@, start as int, all) == (if past_space(cs@, index as int)
                == index {
                None
            } else {
                phrase_end(cs@, past_space(cs@, index as int), all.skip(k as int))
            }),
            k == 0 ==> index == start && phrase_end(cs@, start as int, all) == phrase_end(
                cs@,
                index as int,
                all.skip(0),
            ),
            k == n ==> phrase_end(cs@, start as int, all) == Some(index as int),
        decreases n - k,
    {
        if k > 0 {
            let next: usize = skip_space(cs, index);
            if next == index {
                return None;
            }
            index = next;
        }
        let token = &tokens[k];
        assert(all.skip(k as int)[0] == token@);
        assert(all.skip(k as int).skip(1) =~= all.skip(k as int + 1));
        if token.len() > lowered.len() - index {
            return None;
        }
        let end: usize = index + token.len();
        let found = sub_chars(lowered.as_slice(), index, end);
        if !chars_eq(found.as_slice(), token.as_slice()) {
            return None;
        }
        index = end;
        k += 1;
    }
    if at_inside_word(cs, index) {
        return None;
    }
    Some(index)
}

/// The text without every occurrence of the term: in any case, with any white space between
/// its words, and not as a part of a longer word.
pub fn remove_term(text: &str, term: &str) -> (r: String)
    ensures
        r@ == term_removed(text@, term@),
{
    let term_words = word_chars(to_chars(term).as_slice());
    let mut tokens: Vec<Vec<char>> = Vec::new();
    let n: usize = term_words.len();
    let mut k: usize = 0;
    while k < n
        invariant
            n == term_words@.len(),
            k <= n,
            tokens@.len() == k,
            forall|j: int| 0 <= j < k ==> (#[trigger] tokens@[j])@ == lower(term_words@[j]@),
        decreases n - k,
    {
        tokens.push(lower_chars(term_words[k].as_slice()));
        k += 1;
    }
    let ghost all = char_views(tokens@);
    proof {
        assert(char_views(term_words@) == words(term@));
        assert forall|j: int| 0 <= j < tokens@.len() implies (#[trigger] tokens@[j])@.len() > 0 by {
            let ws = words(term@);
            assert(ws[j] == term_words@[j]@);
            assert(ws[j].len() > 0) by {
                lemma_words_non_empty(term@);
            }
        }
        assert(all =~= term_tokens(term@));
    }
    if tokens.len() == 0 {
        return text.to_string();
    }
    let cs = to_chars(text);
    let lowered = lower_chars(cs.as_slice());
    let mut out: Vec<char> = Vec::new();
    let mut index: usize = 0;
    assert(out@ + without_term(cs@, 0, all) =~= without_term(cs@, 0, all));
    while index < cs.len()
        invariant
            index <= cs@.len(),
            lowered@ == lower(cs@),
            all == char_views(tokens@),
            tokens@.len() > 0,
            forall|j: int| 0 <= j < tokens@.len() ==> (#[trigger] tokens@[j])@.len() > 0,
            out@ + without_term(cs@, index as int, all) == without_term(cs@, 0, all),
        decreases cs@.len() - index,
    {
        match match_term_at(&cs, &lowered, index, &tokens) {
            Some(end) => {
                index = end;
            },
            None => {
                let ghost before = out@;
                out.push(cs[index]);
                proof {
                    let rest = without_term(cs@, index as int + 1, all);
                    assert(before + (seq![cs@[index as int]] + rest) =~= out@ + rest);
                }
                index += 1;
            },
        }
    }
    assert(out@ + Seq::<char>::empty() =~= out@);
    to_text(out.as_slice())
}

proof fn lemma_untouched(s: Seq<char>, i: int, tokens: Seq<Seq<char>>)
    requires
        0 <= i <= s.len(),
        forall|k: int| i <= k < s.len() ==> (#[trigger] term_end(s, k, tokens)) is None,
    ensures
        without_term(s, i, tokens) == s.skip(i),
    decreases s.len() - i,
{
    if i < s.len() {
        lemma_untouched(s, i + 1, tokens);
        assert(term_end(s, i, tokens) is None);
        assert(seq![s[i]] + s.skip(i + 1) =~= s.skip(i));
    } else {
        assert(s.skip(i) =~= Seq::<char>::empty());
    }
}

/// A text in which the term does not stand is left as it is.
pub proof fn law_other_text_is_kept(s: Seq<char>, term: Seq<char>)
    requires
        forall|k: int| 0 <= k < s.len() ==> (#[trigger] term_end(s, k, term_tokens(term))) is None,
    ensures
        term_removed(s, term) == s,
{
    lemma_untouched(s, 0, term_tokens(term));
    assert(s.skip(0) =~= s);
}

// ---------------------------------------------------------------------------
// What is removed
// ---------------------------------------------------------------------------
/// There is white space from `j` on, which ends at `k`.
pub open spec fn is_gap(s: Seq<char>, j: int, k: int) -> bool {
    &&& 0 <= j < k <= s.len()
    &&& forall|x: int|
        j <= x < k ==> (#[trigger] s[x] == ' ' || s[x] == '\t' || s[x] == '\n' || s[x] == '\x0C'
            || s[x] == '\r')
    &&& k < s.len() ==> s[k] != ' ' && s[k] != '\t' && s[k] != '\n' && s[k] != '\x0C' && s[k]
        != '\r'
}

/// The words stand at `i` and end at `e`: each in any case, with nothing but white space
/// between two of them, and at least some.
pub open spec fn stands_at(s: Seq<char>, i: int, e: int, ws: Seq<Seq<char>>) -> bool
    decreases ws.len(),
{
    if ws.len() == 0 {
        e == i
    } else {
        let j = i + ws[0].len();
        &&& 0 <= i && j <= s.len()
        &&& lower(s.subrange(i, j)) == lower(ws[0])
        &&& if ws.len() == 1 {
            e == j
        } else {
            exists|k: int| #[trigger] is_gap(s, j, k) && stands_at(s, k, e, ws.skip(1))
        }
    }
}

/// A letter, a digit or an underscore stands on either side.
pub open spec fn joins_word(s: Seq<char>, i: int) -> bool {
    0 < i < s.len() && is_wordy(s[i - 1]) && is_wordy(s[i])
}

/// An ASCII letter or digit, or an underscore.
pub open spec fn is_wordy(c: char) -> bool {
    'a' <= c <= 'z' || 'A' <= c <= 'Z' || '0' <= c <= '9' || c == '_'
}

/// The term stands at `i` and ends at `e`, not as a part of a longer word.
pub open spec fn term_stands(s: Seq<char>, i: int, e: int, term: Seq<char>) -> bool {
    &&& words(term).len() > 0
    &&& 0 <= i < s.len()
    &&& stands_at(s, i, e, words(term))
    &&& !joins_word(s, i)
    &&& !joins_word(s, e)
}

proof fn lemma_past_space(s: Seq<char>, i: int)
    requires
        0 <= i <= s.len(),
    ensures
        i <= past_space(s, i) <= s.len(),
        forall|x: int| i <= x < past_space(s, i) ==> is_ascii_space(#[trigger] s[x]),
        past_space(s, i) < s.len() ==> !is_ascii_space(s[past_space(s, i)]),
    decreases s.len() - i,
{
    if i < s.len() && is_ascii_space(s[i]) {
        lemma_past_space(s, i + 1);
    }
}

spec fn lowered(ws: Seq<Seq<char>>) -> Seq<Seq<char>> {
    Seq::new(ws.len(), |i: int| lower(ws[i]))
}

proof fn lemma_stands(s: Seq<char>, i: int, e: int, ws: Seq<Seq<char>>)
    requires
        0 <= i <= s.len(),
    ensures
        stands_at(s, i, e, ws) <==> phrase_end(s, i, lowered(ws)) == Some(e),
    decreases ws.len(),
{
    let tokens = lowered(ws);
    if ws.len() > 0 {
        let j = i + ws[0].len();
        assert(tokens[0] == lower(ws[0]));
        if j <= s.len() {
            assert(lower(s.subrange(i, j)) =~= lower(s).subrange(i, j));
        }
        assert(occurs_at(lower(s), tokens[0], i) <==> j <= s.len() && lower(s.subrange(i, j))
            == lower(ws[0]));
        if ws.len() > 1 && occurs_at(lower(s), tokens[0], i) {
            lemma_past_space(s, j);
            let k = past_space(s, j);
            assert(tokens.skip(1) =~= lowered(ws.skip(1)));
            lemma_stands(s, k, e, ws.skip(1));
            if stands_at(s, i, e, ws) {
                let q = choose|q: int| #[trigger] is_gap(s, j, q) && stands_at(s, q, e, ws.skip(1));
                if q < k {
                    assert(is_ascii_space(s[q]));
                } else if k < q {
                    assert(s[k] == ' ' || s[k] == '\t' || s[k] == '\n' || s[k] == '\x0C' || s[k]
                        == '\r');
                }
                assert(q == k);
            }
            if phrase_end(s, i, tokens) == Some(e) {
                assert forall|x: int| j <= x < k implies (#[trigger] s[x] == ' ' || s[x] == '\t'
                    || s[x] == '\n' || s[x] == '\x0C' || s[x] == '\r') by {
                    assert(is_ascii_space(s[x]));
                }
                assert(is_gap(s, j, k));
            }
        }
    }
}

proof fn lemma_term_stands(s: Seq<char>, i: int, e: int, term: Seq<char>)
    requires
        0 <= i < s.len(),
        words(term).len() > 0,
    ensures
        term_stands(s, i, e, term) <==> term_end(s, i, term_tokens(term)) == Some(e),
{
    lemma_stands(s, i, e, words(term));
    assert(lowered(words(term)) =~= term_tokens(term));
    if let Some(f) = phrase_end(s, i, term_tokens(term)) {
        lemma_stands(s, i, f, words(term));
    }
}

proof fn lemma_phrase_range(s: Seq<char>, i: int, tokens: Seq<Seq<char>>)
    requires
        0 <= i <= s.len(),
        forall|k: int| 0 <= k < tokens.len() ==> (#[trigger] tokens[k]).len() > 0,
    ensures
        phrase_end(s, i, tokens) matches Some(e) ==> i <= e <= s.len() && (tokens.len() > 0 ==> i
            < e),
    decreases tokens.len(),
{
    if tokens.len() > 0 && occurs_at(lower(s), tokens[0], i) {
        let j = i + tokens[0].len();
        assert(tokens[0].len() > 0);
        if tokens.len() > 1 {
            lemma_past_space(s, j);
            assert forall|k: int| 0 <= k < tokens.skip(1).len() implies (#[trigger] tokens.skip(
                1,
            )[k]).len() > 0 by {
                assert(tokens.skip(1)[k] == tokens[k + 1]);
            }
            lemma_phrase_range(s, past_space(s, j), tokens.skip(1));
        }
    }
}

proof fn lemma_space_shift(s: Seq<char>, d: int, i: int)
    requires
        0 <= d,
        0 <= i,
        d + i <= s.len(),
    ensures
        past_space(s.skip(d), i) + d == past_space(s, d + i),
    decreases s.len() - i,
{
    if d + i < s.len() && is_ascii_space(s[d + i]) {
        lemma_space_shift(s, d, i + 1);
    }
}

proof fn lemma_phrase_shift(s: Seq<char>, d: int, i: int, tokens: Seq<Seq<char>>)
    requires
        0 <= d,
        0 <= i,
        d + i <= s.len(),
    ensures
        phrase_end(s, d + i, tokens) == (match phrase_end(s.skip(d), i, tokens) {
            Some(e) => Some(e + d),
            None => None,
        }),
    decreases tokens.len(),
{
    if tokens.len() > 0 {
        let t = s.skip(d);
        let j = i + tokens[0].len();
        assert(lower(t) =~= lower(s).skip(d));
        if d + j <= s.len() {
            assert(lower(t).subrange(i, j) =~= lower(s).subrange(d + i, d + j));
        }
        if occurs_at(lower(t), tokens[0], i) && tokens.len() > 1 {
            lemma_past_space(t, j);
            lemma_space_shift(s, d, j);
            lemma_phrase_shift(s, d, past_space(t, j), tokens.skip(1));
        }
    }
}

proof fn lemma_term_shift(s: Seq<char>, d: int, i: int, tokens: Seq<Seq<char>>)
    requires
        0 <= d,
        0 <= i,
        d + i < s.len(),
        !inside_word(s, d),
        forall|k: int| 0 <= k < tokens.len() ==> (#[trigger] tokens[k]).len() > 0,
        tokens.len() > 0,
    ensures
        term_end(s, d + i, tokens) == (match term_end(s.skip(d), i, tokens) {
            Some(e) => Some(e + d),
            None => None,
        }),
{
    lemma_phrase_shift(s, d, i, tokens);
    lemma_phrase_range(s.skip(d), i, tokens);
}

proof fn lemma_without_shift(s: Seq<char>, d: int, i: int, tokens: Seq<Seq<char>>)
    requires
        0 <= d,
        0 <= i,
        d + i <= s.len(),
        !inside_word(s, d),
        forall|k: int| 0 <= k < tokens.len() ==> (#[trigger] tokens[k]).len() > 0,
        tokens.len() > 0,
    ensures
        without_term(s, d + i, tokens) == without_term(s.skip(d), i, tokens),
    decreases s.len() - i,
{
    if d + i < s.len() {
        let t = s.skip(d);
        lemma_term_shift(s, d, i, tokens);
        lemma_phrase_range(t, i, tokens);
        match term_end(t, i, tokens) {
            Some(e) => {
                lemma_without_shift(s, d, e, tokens);
            },
            None => {
                lemma_without_shift(s, d, i + 1, tokens);
            },
        }
    }
}

proof fn lemma_kept_before(s: Seq<char>, i: int, k: int, tokens: Seq<Seq<char>>)
    requires
        0 <= i <= k <= s.len(),
        forall|x: int| i <= x < k ==> (#[trigger] term_end(s, x, tokens)) is None,
    ensures
        without_term(s, i, tokens) == s.subrange(i, k) + without_term(s, k, tokens),
    decreases k - i,
{
    if i < k {
        assert(term_end(s, i, tokens) is None);
        lemma_kept_before(s, i + 1, k, tokens);
        assert(seq![s[i]] + (s.subrange(i + 1, k) + without_term(s, k, tokens)) =~= s.subrange(i, k)
            + without_term(s, k, tokens));
    } else {
        assert(s.subrange(i, k) + without_term(s, k, tokens) =~= without_term(s, k, tokens));
    }
}

/// Every occurrence of a term goes, and nothing else: what stands before the first one stays,
/// the occurrence itself does not, and the same holds of what follows it.
pub proof fn law_every_occurrence_goes(s: Seq<char>, term: Seq<char>, i: int, e: int)
    requires
        term_stands(s, i, e, term),
        forall|x: int, y: int| 0 <= x < i ==> !#[trigger] term_stands(s, x, y, term),
    ensures
        i < e <= s.len(),
        term_removed(s, term) == s.take(i) + term_removed(s.skip(e), term),
{
    let tokens = term_tokens(term);
    lemma_tokens(term);
    lemma_term_stands(s, i, e, term);
    lemma_phrase_range(s, i, tokens);
    assert forall|x: int| 0 <= x < i implies (#[trigger] term_end(s, x, tokens)) is None by {
        if let Some(y) = term_end(s, x, tokens) {
            lemma_term_stands(s, x, y, term);
            assert(!term_stands(s, x, y, term));
        }
    }
    lemma_kept_before(s, 0, i, tokens);
    assert(s.subrange(0, i) =~= s.take(i));
    lemma_without_shift(s, e, 0, tokens);
    assert(s.skip(e).len() == 0 ==> term_removed(s.skip(e), term) =~= Seq::<char>::empty());
}

proof fn lemma_tokens(term: Seq<char>)
    ensures
        term_tokens(term).len() == words(term).len(),
        forall|k: int|
            0 <= k < term_tokens(term).len() ==> (#[trigger] term_tokens(term)[k]).len() > 0,
{
    lemma_words_non_empty(term);
    assert forall|k: int| 0 <= k < term_tokens(term).len() implies (#[trigger] term_tokens(
        term,
    )[k]).len() > 0 by {
        assert(words(term)[k].len() > 0);
    }
}

/// A text in which the term stands nowhere is left as it is; so is every text by a term
/// without words.
pub proof fn law_text_without_the_term_stays(s: Seq<char>, term: Seq<char>)
    requires
        forall|x: int, y: int| !#[trigger] term_stands(s, x, y, term),
    ensures
        term_removed(s, term) == s,
{
    let tokens = term_tokens(term);
    lemma_tokens(term);
    if words(term).len() > 0 {
        assert forall|x: int| 0 <= x < s.len() implies (#[trigger] term_end(s, x, tokens)) is None by {
            if let Some(y) = term_end(s, x, tokens) {
                lemma_term_stands(s, x, y, term);
                assert(!term_stands(s, x, y, term));
            }
        }
        lemma_untouched(s, 0, tokens);
        assert(s.skip(0) =~= s);
    }
}

} // verus!
