//! What holds of the operations on texts.
use crate::numerals::{all_digits, number, parse_signed, parse_unsigned};
use crate::text::{
    ends_with, entries, find, first_chars, is_digit, is_space, join, lemma_find_from,
    lemma_rfind_from, lemma_run_length, lower, non_empty, occurs_at, one_of, replace_all, rfind,
    run_length, split, split_once, starts_with, strip_end, trim, trim_all, trim_end, trim_start,
    white, words,
};
use vstd::prelude::*;

verus! {

// ---------------------------------------------------------------------------
// Characters
// ---------------------------------------------------------------------------
/// Blanks and line ends are white space; what is printed of ASCII is not.
pub proof fn law_white_space(c: char)
    ensures
        c == ' ' || c == '\t' || c == '\n' || c == '\r' || c == '\x0B' || c == '\x0C' ==> is_space(c),
        '!' <= c <= '~' ==> !is_space(c),
        is_digit(c) <==> '0' <= c <= '9',
{
}

/// Lower case changes ASCII capitals into their small letters, in their place, and nothing
/// else.
pub proof fn law_lower_case(s: Seq<char>, i: int)
    requires
        0 <= i < s.len(),
    ensures
        lower(s).len() == s.len(),
        'A' <= s[i] <= 'Z' ==> lower(s)[i] as u32 == s[i] as u32 + 32,
        !('A' <= s[i] <= 'Z') ==> lower(s)[i] == s[i],
{
}

// ---------------------------------------------------------------------------
// Ends
// ---------------------------------------------------------------------------
/// A text begins with another one exactly where something follows that one, and likewise for
/// its end.
pub proof fn law_ends_of_texts(a: Seq<char>, b: Seq<char>)
    ensures
        starts_with(a + b, a),
        ends_with(a + b, b),
        starts_with(a, b) ==> a == b + a.skip(b.len() as int),
        ends_with(a, b) ==> a == a.take(a.len() - b.len()) + b,
{
    assert((a + b).take(a.len() as int) =~= a);
    assert((a + b).skip(a.len() as int) =~= b);
    if starts_with(a, b) {
        assert(a =~= b + a.skip(b.len() as int));
    }
    if ends_with(a, b) {
        assert(a =~= a.take(a.len() - b.len()) + b);
    }
}

/// One copy less at the end changes nothing of what is left, and a text that does not end so
/// is left as it is.
pub proof fn law_ends_are_stripped(s: Seq<char>, p: Seq<char>)
    requires
        p.len() > 0,
    ensures
        strip_end(s + p, p) == strip_end(s, p),
        !ends_with(s, p) ==> strip_end(s, p) == s,
{
    law_ends_of_texts(s, p);
    assert((s + p).take(s.len() as int) =~= s);
}

/// At most that many characters are left, from the front.
pub proof fn law_first_characters(s: Seq<char>, n: nat)
    ensures
        s.len() <= n ==> first_chars(s, n as int) == s,
        s.len() > n ==> first_chars(s, n as int).len() == n && starts_with(s, first_chars(s, n as int)),
{
}

/// White space around a text goes, and nothing else does.
pub proof fn law_trim(l: Seq<char>, m: Seq<char>, r: Seq<char>)
    requires
        forall|i: int| 0 <= i < l.len() ==> is_space(#[trigger] l[i]),
        forall|i: int| 0 <= i < r.len() ==> is_space(#[trigger] r[i]),
        m.len() > 0 ==> !is_space(m[0]) && !is_space(m.last()),
    ensures
        trim(l + m + r) == m,
{
    if m.len() > 0 {
        lemma_trim_front(l, m + r);
        assert(l + m + r =~= l + (m + r));
        lemma_trim_back(m, r);
    } else {
        let s = l + m + r;
        assert forall|i: int| 0 <= i < s.len() implies is_space(#[trigger] s[i]) by {
            if i < l.len() {
                assert(s[i] == l[i]);
            } else {
                assert(s[i] == r[i - l.len()]);
            }
        }
        lemma_trim_front(s, Seq::empty());
        assert(s + Seq::<char>::empty() =~= s);
        assert(trim(s) =~= m);
    }
}

proof fn lemma_trim_front(l: Seq<char>, s: Seq<char>)
    requires
        forall|i: int| 0 <= i < l.len() ==> is_space(#[trigger] l[i]),
        s.len() > 0 ==> !is_space(s[0]),
    ensures
        trim_start(l + s) == s,
    decreases l.len(),
{
    if l.len() > 0 {
        assert(is_space(l[0]));
        assert((l + s).drop_first() =~= l.drop_first() + s);
        assert forall|i: int| 0 <= i < l.drop_first().len() implies is_space(
            #[trigger] l.drop_first()[i],
        ) by {
            assert(l.drop_first()[i] == l[i + 1]);
        }
        lemma_trim_front(l.drop_first(), s);
    } else {
        assert(l + s =~= s);
    }
}

proof fn lemma_trim_back(s: Seq<char>, r: Seq<char>)
    requires
        forall|i: int| 0 <= i < r.len() ==> is_space(#[trigger] r[i]),
        s.len() > 0 ==> !is_space(s.last()),
    ensures
        trim_end(s + r) == s,
    decreases r.len(),
{
    if r.len() > 0 {
        assert(is_space(r[r.len() - 1]));
        assert((s + r).drop_last() =~= s + r.drop_last());
        assert forall|i: int| 0 <= i < r.drop_last().len() implies is_space(
            #[trigger] r.drop_last()[i],
        ) by {
            assert(r.drop_last()[i] == r[i]);
        }
        lemma_trim_back(s, r.drop_last());
    } else {
        assert(s + r =~= s);
    }
}

// ---------------------------------------------------------------------------
// Pieces
// ---------------------------------------------------------------------------
/// Joined pieces are the pieces in their order, each but the last with the separator behind
/// it: with one more behind the last, they are all alike.
pub proof fn law_join_separates(v: Seq<Seq<char>>, sep: Seq<char>)
    ensures
        v.len() == 0 ==> join(v, sep).len() == 0,
        v.len() > 0 ==> join(v, sep) + sep == Seq::new(
            v.len(),
            |i: int| v[i] + sep,
        ).flatten_alt(),
    decreases v.len(),
{
    let ended = Seq::new(v.len(), |i: int| v[i] + sep);
    if v.len() == 1 {
        assert(ended.drop_last() =~= Seq::<Seq<char>>::empty());
        assert(ended.drop_last().flatten_alt() =~= Seq::<char>::empty());
        assert(ended.flatten_alt() =~= v[0] + sep);
    } else if v.len() > 1 {
        let rest = v.drop_last();
        law_join_separates(rest, sep);
        assert(ended.drop_last() =~= Seq::new(rest.len(), |i: int| rest[i] + sep));
        assert(join(v, sep) + sep =~= (join(rest, sep) + sep) + (v.last() + sep));
    }
}

/// A text is cut at the first of a character, and nowhere where there is none.
pub proof fn law_split_once_cuts(a: Seq<char>, c: char, b: Seq<char>)
    requires
        !a.contains(c),
    ensures
        split_once(a + seq![c] + b, c) == Some((a, b)),
        split_once(a, c) is None,
{
    let s = a + seq![c] + b;
    let sep = one_of(seq![c]);
    let n = a.len() as int;
    assert(seq![c].contains(c)) by {
        assert(seq![c][0] == c);
    }
    assert forall|j: int| 0 <= j < n implies !sep(#[trigger] s[j]) by {
        assert(s[j] == a[j]);
        assert(a.contains(a[j]));
    }
    assert forall|j: int| 0 <= j < n implies !sep(#[trigger] a[j]) by {
        assert(a.contains(a[j]));
    }
    assert(s[n] == c);
    lemma_run_length(s, sep, n);
    lemma_run_length(a, sep, n);
    assert(s.take(n) =~= a);
    assert(s.skip(n + 1) =~= b);
}

/// A text is split at each separator: what stands before one and what stands behind it are
/// split by themselves, and a text without any is one piece.
pub proof fn law_split_at_each(a: Seq<char>, x: char, b: Seq<char>, sep: spec_fn(char) -> bool)
    requires
        sep(x),
    ensures
        split(a + seq![x] + b, sep) == split(a, sep) + split(b, sep),
        (forall|i: int| 0 <= i < a.len() ==> !sep(#[trigger] a[i])) ==> split(a, sep) == seq![a],
    decreases a.len(),
{
    let s = a + seq![x] + b;
    lemma_run_bound(a, sep);
    let n = run_length(a, sep) as int;
    if n == a.len() {
        assert forall|j: int| 0 <= j < n implies !sep(#[trigger] s[j]) by {
            assert(s[j] == a[j]);
        }
        assert(s[n] == x);
        lemma_run_length(s, sep, n);
        assert(s.take(n) =~= a);
        assert(s.skip(n + 1) =~= b);
    } else {
        assert forall|j: int| 0 <= j < n implies !sep(#[trigger] s[j]) by {
            assert(s[j] == a[j]);
        }
        assert(s[n] == a[n]);
        lemma_run_length(s, sep, n);
        let rest = a.skip(n + 1);
        law_split_at_each(rest, x, b, sep);
        assert(s.take(n) =~= a.take(n));
        assert(s.skip(n + 1) =~= rest + seq![x] + b);
        assert(seq![a.take(n)] + (split(rest, sep) + split(b, sep)) =~= seq![a.take(n)] + split(
            rest,
            sep,
        ) + split(b, sep));
    }
}

proof fn lemma_run_bound(s: Seq<char>, sep: spec_fn(char) -> bool)
    ensures
        run_length(s, sep) <= s.len(),
        forall|j: int| 0 <= j < run_length(s, sep) ==> !sep(#[trigger] s[j]),
        run_length(s, sep) < s.len() ==> sep(s[run_length(s, sep) as int]),
    decreases s.len(),
{
    if s.len() > 0 && !sep(s[0]) {
        lemma_run_bound(s.drop_first(), sep);
        assert forall|j: int| 0 <= j < run_length(s, sep) implies !sep(#[trigger] s[j]) by {
            if j > 0 {
                assert(s.drop_first()[j - 1] == s[j]);
            }
        }
    }
}

/// The entries of a list are read piece by piece: a separator parts them, a piece without one
/// is one entry without the white space around it, and a blank piece is none.
pub proof fn law_entries_are_read(a: Seq<char>, x: char, b: Seq<char>, seps: Seq<char>)
    requires
        seps.contains(x),
    ensures
        entries(a + seq![x] + b, seps) == entries(a, seps) + entries(b, seps),
        (forall|i: int| 0 <= i < a.len() ==> !seps.contains(#[trigger] a[i])) ==> entries(a, seps)
            == (if trim(a).len() == 0 {
            seq![]
        } else {
            seq![trim(a)]
        }),
{
    let sep = one_of(seps);
    law_split_at_each(a, x, b, sep);
    let (p, q) = (split(a, sep), split(b, sep));
    assert(trim_all(p + q) =~= trim_all(p) + trim_all(q));
    Seq::filter_distributes_over_add(trim_all(p), trim_all(q), non_empty());
    if forall|i: int| 0 <= i < a.len() ==> !seps.contains(#[trigger] a[i]) {
        assert forall|i: int| 0 <= i < a.len() implies !sep(#[trigger] a[i]) by {
            assert(!seps.contains(a[i]));
        }
        assert(trim_all(p) =~= seq![trim(a)]);
        lemma_filter_one(trim(a));
    }
}

proof fn lemma_filter_one(t: Seq<char>)
    ensures
        seq![t].filter(non_empty()) == (if t.len() == 0 {
            Seq::<Seq<char>>::empty()
        } else {
            seq![t]
        }),
{
    reveal(Seq::filter);
    assert(seq![t].drop_last() =~= Seq::<Seq<char>>::empty());
    assert(seq![t].drop_last().filter(non_empty()) =~= Seq::<Seq<char>>::empty());
    assert(seq![t].filter(non_empty()) =~= if t.len() == 0 {
        Seq::<Seq<char>>::empty()
    } else {
        seq![t]
    });
}

/// The words of a text are read one by one: white space parts them, a stretch without any is
/// one word, and nothing is none.
pub proof fn law_words_are_read(a: Seq<char>, x: char, b: Seq<char>)
    requires
        is_space(x),
    ensures
        words(a + seq![x] + b) == words(a) + words(b),
        (forall|i: int| 0 <= i < a.len() ==> !is_space(#[trigger] a[i])) ==> words(a) == (if a.len()
            == 0 {
            seq![]
        } else {
            seq![a]
        }),
{
    law_split_at_each(a, x, b, white());
    Seq::filter_distributes_over_add(split(a, white()), split(b, white()), non_empty());
    if forall|i: int| 0 <= i < a.len() ==> !is_space(#[trigger] a[i]) {
        assert forall|i: int| 0 <= i < a.len() implies !white()(#[trigger] a[i]) by {
            assert(!is_space(a[i]));
        }
        lemma_filter_one(a);
    }
}

// ---------------------------------------------------------------------------
// Searching
// ---------------------------------------------------------------------------
/// A search gives the first place at which the pattern stands, or the last one from the right,
/// and none where it stands nowhere.
pub proof fn law_search_finds(s: Seq<char>, p: Seq<char>, j: int)
    requires
        0 <= j,
        j + p.len() <= s.len(),
        s.subrange(j, j + p.len()) == p,
    ensures
        find(s, p) matches Some(i) && 0 <= i <= j && s.subrange(i, i + p.len()) == p,
        rfind(s, p) matches Some(i) && j <= i && i + p.len() <= s.len() && s.subrange(
            i,
            i + p.len(),
        ) == p,
{
    assert(occurs_at(s, p, j));
    lemma_find_from(s, p, 0);
    lemma_rfind_from(s, p, s.len() - p.len());
    assert(occurs_at(s, p, find(s, p)->0));
    assert(occurs_at(s, p, rfind(s, p)->0));
}

/// What a search gives is a place at which the pattern stands.
pub proof fn law_search_is_right(s: Seq<char>, p: Seq<char>)
    ensures
        find(s, p) matches Some(i) ==> 0 <= i && i + p.len() <= s.len() && s.subrange(
            i,
            i + p.len(),
        ) == p,
        rfind(s, p) matches Some(i) ==> 0 <= i && i + p.len() <= s.len() && s.subrange(
            i,
            i + p.len(),
        ) == p,
{
    lemma_find_from(s, p, 0);
    lemma_rfind_from(s, p, s.len() - p.len());
    if let Some(i) = find(s, p) {
        assert(occurs_at(s, p, i));
    }
    if let Some(i) = rfind(s, p) {
        assert(occurs_at(s, p, i));
    }
}

/// Every occurrence is replaced: what stands before the first stays, and the same is done to
/// what follows it. A text without any is left as it is.
pub proof fn law_every_occurrence_is_replaced(s: Seq<char>, p: Seq<char>, q: Seq<char>)
    requires
        p.len() > 0,
    ensures
        match find(s, p) {
            Some(i) => replace_all(s, p, q) == s.take(i) + q + replace_all(
                s.skip(i + p.len()),
                p,
                q,
            ),
            None => replace_all(s, p, q) == s,
        },
{
    lemma_find_from(s, p, 0);
    if let Some(i) = find(s, p) {
        assert(occurs_at(s, p, i));
    }
}

// ---------------------------------------------------------------------------
// Numbers
// ---------------------------------------------------------------------------
/// Digits are read as the number that they write, one more digit as ten times as much and the
/// digit; a sign may stand before them, and nothing else may stand anywhere.
pub proof fn law_numbers_are_read(s: Seq<char>, d: char, max: nat)
    ensures
        '0' <= d <= '9' ==> number(s.push(d), 10) == number(s, 10) * 10 + (d as u32 - '0' as u32),
        number(seq![], 10) == 0,
        parse_unsigned(s, max) is Some ==> s.len() > 0 && forall|i: int|
            0 <= i < s.len() ==> '0' <= #[trigger] s[i] <= '9' || (i == 0 && s[i] == '+'),
        all_digits(s) ==> parse_unsigned(s, max) == (if number(s, 10) <= max {
            Some(number(s, 10))
        } else {
            None
        }) && parse_unsigned(seq!['+'] + s, max) == parse_unsigned(s, max),
        all_digits(s) <==> s.len() > 0 && forall|i: int|
            0 <= i < s.len() ==> '0' <= #[trigger] s[i] <= '9',
        all_digits(s) && number(s, 10) <= max ==> parse_signed(s, -(max as int), max) == Some(
            number(s, 10) as int,
        ) && parse_signed(seq!['-'] + s, -(max as int), max) == Some(-(number(s, 10) as int)),
{
    assert(s.push(d).drop_last() =~= s);
    let signed = seq!['+'] + s;
    let minus = seq!['-'] + s;
    assert(signed.skip(1) =~= s);
    assert(minus.skip(1) =~= s);
    if s.len() > 0 && s[0] == '+' {
        let t = s.skip(1);
        assert forall|i: int| 1 <= i < s.len() implies #[trigger] s[i] == t[i - 1] by {}
        if all_digits(t) {
            assert forall|i: int| 0 <= i < s.len() implies '0' <= #[trigger] s[i] <= '9' || (i == 0
                && s[i] == '+') by {
                if i > 0 {
                    assert(is_digit(t[i - 1]));
                }
            }
        }
    }
    if all_digits(s) {
        assert(is_digit(s[0]));
        assert forall|i: int| 0 <= i < s.len() implies '0' <= #[trigger] s[i] <= '9' by {
            assert(is_digit(s[i]));
        }
    }
}

} // verus!
