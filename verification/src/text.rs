//! Text as sequences of characters: trimming, splitting, searching, joining,
//! and decimal or hexadecimal numerals.
use vstd::prelude::*;
use vstd::slice::slice_subrange;

verus! {

/// `String::push` appends one character.
pub assume_specification[ std::string::String::push ](s: &mut std::string::String, c: char)
    ensures
        final(s)@ == old(s)@.push(c),
;

// ---------------------------------------------------------------------------
// Conversions
// ---------------------------------------------------------------------------
/// The texts of a sequence of strings.
pub open spec fn texts(v: Seq<String>) -> Seq<Seq<char>> {
    Seq::new(v.len(), |i: int| v[i]@)
}

/// The texts of a sequence of character buffers.
pub open spec fn char_views(v: Seq<Vec<char>>) -> Seq<Seq<char>> {
    Seq::new(v.len(), |i: int| v[i]@)
}

/// The text of an optional string.
pub open spec fn opt_text(s: Option<String>) -> Option<Seq<char>> {
    match s {
        Some(t) => Some(t@),
        None => None,
    }
}

/// The characters of a string.
pub fn to_chars(s: &str) -> (r: Vec<char>)
    ensures
        r@ == s@,
{
    let mut out: Vec<char> = Vec::new();
    for c in it: s.chars()
        invariant
            it.seq() == s@,
            out@ == s@.take(it.index()),
    {
        out.push(c);
    }
    out
}

/// The string made of the given characters.
pub fn to_text(cs: &[char]) -> (r: String)
    ensures
        r@ == cs@,
{
    let mut out = String::new();
    let n: usize = cs.len();
    let mut i: usize = 0;
    while i < n
        invariant
            n == cs@.len(),
            i <= n,
            out@ == cs@.take(i as int),
        decreases n - i,
    {
        out.push(cs[i]);
        i += 1;
    }
    assert(cs@.take(n as int) == cs@);
    out
}

/// A copy of a string slice as an owned buffer of characters taken from `from` up to `to`.
pub fn sub_chars(cs: &[char], from: usize, to: usize) -> (r: Vec<char>)
    requires
        from <= to <= cs@.len(),
    ensures
        r@ == cs@.subrange(from as int, to as int),
{
    vstd::slice::slice_to_vec(slice_subrange(cs, from, to))
}

// ---------------------------------------------------------------------------
// Character classes
// ---------------------------------------------------------------------------
/// A character with the Unicode `White_Space` property.
pub open spec fn is_space(c: char) -> bool {
    let u = c as u32;
    ||| 9 <= u <= 13
    ||| u == 0x20
    ||| u == 0x85
    ||| u == 0xA0
    ||| u == 0x1680
    ||| 0x2000 <= u <= 0x200A
    ||| u == 0x2028
    ||| u == 0x2029
    ||| u == 0x202F
    ||| u == 0x205F
    ||| u == 0x3000
}

/// Whether `c` has the Unicode `White_Space` property.
pub fn char_is_space(c: char) -> (r: bool)
    ensures
        r == is_space(c),
{
    let u: u32 = c as u32;
    (9 <= u && u <= 13) || u == 0x20 || u == 0x85 || u == 0xA0 || u == 0x1680 || (0x2000 <= u && u
        <= 0x200A) || u == 0x2028 || u == 0x2029 || u == 0x202F || u == 0x205F || u == 0x3000
}

/// A decimal digit `0` to `9`.
pub open spec fn is_digit(c: char) -> bool {
    '0' <= c <= '9'
}

/// An ASCII letter, in lower case if it was in upper case; every other character as it is.
pub open spec fn ascii_lower(c: char) -> char {
    if 'A' <= c <= 'Z' {
        ((c as u8) + 32) as char
    } else {
        c
    }
}

/// The text with its ASCII letters in lower case.
pub open spec fn lower(s: Seq<char>) -> Seq<char> {
    Seq::new(s.len(), |i: int| ascii_lower(s[i]))
}

pub fn char_ascii_lower(c: char) -> (r: char)
    ensures
        r == ascii_lower(c),
{
    if 'A' <= c && c <= 'Z' {
        let b: u8 = c as u8;
        (b + 32) as char
    } else {
        c
    }
}

/// The characters with ASCII letters in lower case.
pub fn lower_chars(cs: &[char]) -> (r: Vec<char>)
    ensures
        r@ == lower(cs@),
{
    let mut out: Vec<char> = Vec::new();
    let n: usize = cs.len();
    let mut i: usize = 0;
    while i < n
        invariant
            n == cs@.len(),
            i <= n,
            out@ == lower(cs@.take(i as int)),
        decreases n - i,
    {
        out.push(char_ascii_lower(cs[i]));
        i += 1;
    }
    assert(cs@.take(n as int) == cs@);
    out
}

/// What `str::to_lowercase` gives: each character in lower case, as Unicode has it.
pub uninterp spec fn lowercase(s: Seq<char>) -> Seq<char>;

/// Every character is an ASCII one.
pub open spec fn is_ascii(s: Seq<char>) -> bool {
    forall|i: int| 0 <= i < s.len() ==> (#[trigger] s[i] as u32) < 128
}

/// `str::to_lowercase`: the text in lower case, a function of the text alone. An ASCII text
/// has its letters in lower case and is otherwise the same.
#[verifier::external_body]
pub(crate) fn lowercase_text(s: &str) -> (r: String)
    ensures
        r@ == lowercase(s@),
        is_ascii(s@) ==> r@ == lower(s@),
{
    s.to_lowercase()
}

/// The text with its ASCII letters in lower case.
pub fn lower_text(s: &str) -> (r: String)
    ensures
        r@ == lower(s@),
{
    let cs = to_chars(s);
    to_text(lower_chars(cs.as_slice()).as_slice())
}

// ---------------------------------------------------------------------------
// Comparison
// ---------------------------------------------------------------------------
pub fn chars_eq(a: &[char], b: &[char]) -> (r: bool)
    ensures
        r == (a@ == b@),
{
    if a.len() != b.len() {
        return false;
    }
    let n: usize = a.len();
    let mut i: usize = 0;
    while i < n
        invariant
            n == a@.len(),
            n == b@.len(),
            i <= n,
            forall|k: int| 0 <= k < i ==> a@[k] == b@[k],
        decreases n - i,
    {
        if a[i] != b[i] {
            return false;
        }
        i += 1;
    }
    assert(a@ =~= b@);
    true
}

/// Whether two strings hold the same text.
pub fn same(a: &str, b: &str) -> (r: bool)
    ensures
        r == (a@ == b@),
{
    let x = to_chars(a);
    let y = to_chars(b);
    chars_eq(x.as_slice(), y.as_slice())
}

/// Whether `s` begins with `p`.
pub open spec fn starts_with(s: Seq<char>, p: Seq<char>) -> bool {
    p.len() <= s.len() && s.take(p.len() as int) == p
}

/// Whether `s` ends with `p`.
pub open spec fn ends_with(s: Seq<char>, p: Seq<char>) -> bool {
    p.len() <= s.len() && s.skip(s.len() - p.len()) == p
}

pub fn chars_start_with(s: &[char], p: &[char]) -> (r: bool)
    ensures
        r == starts_with(s@, p@),
{
    if p.len() > s.len() {
        return false;
    }
    let head = slice_subrange(s, 0, p.len());
    assert(head@ == s@.take(p@.len() as int));
    chars_eq(head, p)
}

pub fn chars_end_with(s: &[char], p: &[char]) -> (r: bool)
    ensures
        r == ends_with(s@, p@),
{
    if p.len() > s.len() {
        return false;
    }
    let tail = slice_subrange(s, s.len() - p.len(), s.len());
    assert(tail@ == s@.skip(s@.len() - p@.len()));
    chars_eq(tail, p)
}

/// Whether the text `s` begins with `p`.
pub fn text_starts_with(s: &str, p: &str) -> (r: bool)
    ensures
        r == starts_with(s@, p@),
{
    let a = to_chars(s);
    let b = to_chars(p);
    chars_start_with(a.as_slice(), b.as_slice())
}

/// Whether the text `s` ends with `p`.
pub fn text_ends_with(s: &str, p: &str) -> (r: bool)
    ensures
        r == ends_with(s@, p@),
{
    let a = to_chars(s);
    let b = to_chars(p);
    chars_end_with(a.as_slice(), b.as_slice())
}

/// Whether one of `list` has the text `s`.
pub fn any_same(list: &[String], s: &str) -> (r: bool)
    ensures
        r == texts(list@).contains(s@),
{
    let n: usize = list.len();
    let mut i: usize = 0;
    while i < n
        invariant
            n == list@.len(),
            i <= n,
            forall|k: int| 0 <= k < i ==> list@[k]@ != s@,
        decreases n - i,
    {
        if same(list[i].as_str(), s) {
            assert(texts(list@)[i as int] == s@);
            return true;
        }
        i += 1;
    }
    false
}

/// The first `n` characters, or all of them.
pub open spec fn first_chars(s: Seq<char>, n: int) -> Seq<char> {
    if s.len() <= n {
        s
    } else {
        s.take(n)
    }
}

/// The first `n` characters, or all of them.
pub fn first_text(s: &str, n: usize) -> (r: String)
    ensures
        r@ == first_chars(s@, n as int),
{
    let cs = to_chars(s);
    if cs.len() <= n {
        to_text(cs.as_slice())
    } else {
        let kept = sub_chars(cs.as_slice(), 0, n);
        assert(kept@ =~= s@.take(n as int));
        to_text(kept.as_slice())
    }
}

// ---------------------------------------------------------------------------
// Trimming
// ---------------------------------------------------------------------------
/// `s` without its leading white space.
pub open spec fn trim_start(s: Seq<char>) -> Seq<char>
    decreases s.len(),
{
    if s.len() > 0 && is_space(s[0]) {
        trim_start(s.drop_first())
    } else {
        s
    }
}

/// `s` without its trailing white space.
pub open spec fn trim_end(s: Seq<char>) -> Seq<char>
    decreases s.len(),
{
    if s.len() > 0 && is_space(s.last()) {
        trim_end(s.drop_last())
    } else {
        s
    }
}

/// `s` without leading and trailing white space.
pub open spec fn trim(s: Seq<char>) -> Seq<char> {
    trim_end(trim_start(s))
}

/// Nothing but white space.
pub open spec fn is_blank(s: Seq<char>) -> bool {
    trim(s).len() == 0
}

/// Trimming leaves a stretch of the text.
pub proof fn lemma_trim_start_inside(s: Seq<char>) -> (a: int)
    ensures
        0 <= a <= s.len(),
        trim_start(s) == s.skip(a),
    decreases s.len(),
{
    if s.len() > 0 && is_space(s[0]) {
        let b = lemma_trim_start_inside(s.drop_first());
        assert(s.drop_first().skip(b) =~= s.skip(b + 1));
        b + 1
    } else {
        assert(s.skip(0) =~= s);
        0
    }
}

/// Trimming leaves a stretch of the text.
pub proof fn lemma_trim_end_inside(s: Seq<char>) -> (b: int)
    ensures
        0 <= b <= s.len(),
        trim_end(s) == s.take(b),
    decreases s.len(),
{
    if s.len() > 0 && is_space(s.last()) {
        let b = lemma_trim_end_inside(s.drop_last());
        assert(s.drop_last().take(b) =~= s.take(b));
        b
    } else {
        assert(s.take(s.len() as int) =~= s);
        s.len() as int
    }
}

/// Trimming leaves a stretch of the text.
pub proof fn lemma_trim_inside(s: Seq<char>) -> (r: (int, int))
    ensures
        0 <= r.0 <= r.1 <= s.len(),
        trim(s) == s.subrange(r.0, r.1),
{
    let a = lemma_trim_start_inside(s);
    let b = lemma_trim_end_inside(s.skip(a));
    assert(s.skip(a).take(b) =~= s.subrange(a, a + b));
    (a, a + b)
}

pub fn trim_chars(cs: &[char]) -> (r: Vec<char>)
    ensures
        r@ == trim(cs@),
{
    let n: usize = cs.len();
    let mut i: usize = 0;
    assert(cs@.skip(0) == cs@);
    while i < n && char_is_space(cs[i])
        invariant
            n == cs@.len(),
            i <= n,
            trim_start(cs@) == trim_start(cs@.skip(i as int)),
        decreases n - i,
    {
        assert(cs@.skip(i as int).drop_first() == cs@.skip(i + 1));
        i += 1;
    }
    assert(trim_start(cs@) == cs@.skip(i as int));
    let mut j: usize = n;
    assert(cs@.subrange(i as int, n as int) == cs@.skip(i as int));
    while j > i && char_is_space(cs[j - 1])
        invariant
            n == cs@.len(),
            i <= j <= n,
            trim(cs@) == trim_end(cs@.subrange(i as int, j as int)),
        decreases j,
    {
        assert(cs@.subrange(i as int, j as int).drop_last() == cs@.subrange(i as int, j - 1));
        j -= 1;
    }
    sub_chars(cs, i, j)
}

/// The text without leading and trailing white space.
pub fn trim_text(s: &str) -> (r: String)
    ensures
        r@ == trim(s@),
{
    let cs = to_chars(s);
    to_text(trim_chars(cs.as_slice()).as_slice())
}

/// Whether the text holds nothing but white space.
pub fn text_is_blank(s: &str) -> (r: bool)
    ensures
        r == is_blank(s@),
{
    let cs = to_chars(s);
    trim_chars(cs.as_slice()).len() == 0
}

/// `s` without the copies of `p` at its end.
pub open spec fn strip_end(s: Seq<char>, p: Seq<char>) -> Seq<char>
    decreases s.len(),
{
    if p.len() > 0 && ends_with(s, p) {
        strip_end(s.take(s.len() - p.len()), p)
    } else {
        s
    }
}

/// The text without the copies of `p` at its end.
pub fn strip_end_text(s: &str, p: &str) -> (r: String)
    ensures
        r@ == strip_end(s@, p@),
{
    let cs = to_chars(s);
    let pat = to_chars(p);
    let m: usize = pat.len();
    let mut n: usize = cs.len();
    assert(cs@.take(n as int) == cs@);
    if m > 0 {
        while n >= m && chars_end_with(slice_subrange(cs.as_slice(), 0, n), pat.as_slice())
            invariant
                m == pat@.len(),
                m > 0,
                pat@ == p@,
                n <= cs@.len(),
                strip_end(s@, p@) == strip_end(cs@.take(n as int), p@),
            decreases n,
        {
            assert(cs@.subrange(0, n as int) == cs@.take(n as int));
            assert(cs@.take(n as int).take(n - m) == cs@.take(n - m));
            n -= m;
        }
        assert(cs@.subrange(0, n as int) == cs@.take(n as int));
    }
    let r = to_text(slice_subrange(cs.as_slice(), 0, n));
    assert(cs@.subrange(0, n as int) == cs@.take(n as int));
    r
}

// ---------------------------------------------------------------------------
// Splitting
// ---------------------------------------------------------------------------
/// How many characters stand before the first separator of `s`, or all of them.
pub open spec fn run_length(s: Seq<char>, sep: spec_fn(char) -> bool) -> nat
    decreases s.len(),
{
    if s.len() == 0 || sep(s[0]) {
        0
    } else {
        1 + run_length(s.drop_first(), sep)
    }
}

/// The pieces of `s` between separators: one more than there are separators.
pub open spec fn split(s: Seq<char>, sep: spec_fn(char) -> bool) -> Seq<Seq<char>>
    decreases s.len(),
{
    let n = run_length(s, sep);
    if n < s.len() {
        seq![s.take(n as int)] + split(s.skip(n as int + 1), sep)
    } else {
        seq![s]
    }
}

/// The separator test for membership in a list of characters.
pub open spec fn one_of(seps: Seq<char>) -> spec_fn(char) -> bool {
    |c: char| seps.contains(c)
}

/// The separator test for white space.
pub open spec fn white() -> spec_fn(char) -> bool {
    |c: char| is_space(c)
}

/// The test for a piece that holds something.
pub open spec fn non_empty() -> spec_fn(Seq<char>) -> bool {
    |p: Seq<char>| p.len() > 0
}

/// The words of `s`: its maximal runs without white space.
pub open spec fn words(s: Seq<char>) -> Seq<Seq<char>> {
    split(s, white()).filter(non_empty())
}

/// No word is empty.
pub proof fn lemma_words_non_empty(s: Seq<char>)
    ensures
        forall|i: int| 0 <= i < words(s).len() ==> (#[trigger] words(s)[i]).len() > 0,
{
    let all = split(s, white());
    broadcast use vstd::seq_lib::group_filter_ensures;

    assert forall|i: int| 0 <= i < words(s).len() implies (#[trigger] words(s)[i]).len() > 0 by {
        assert(non_empty()(all.filter(non_empty())[i]));
    }
}

/// Each piece trimmed.
pub open spec fn trim_all(v: Seq<Seq<char>>) -> Seq<Seq<char>> {
    Seq::new(v.len(), |i: int| trim(v[i]))
}

/// The pieces of `s` between any of `seps`, trimmed, those that are left empty dropped.
pub open spec fn entries(s: Seq<char>, seps: Seq<char>) -> Seq<Seq<char>> {
    trim_all(split(s, one_of(seps))).filter(non_empty())
}

/// The text before and after the first `c`, where there is one.
pub open spec fn split_once(s: Seq<char>, c: char) -> Option<(Seq<char>, Seq<char>)> {
    let n = run_length(s, one_of(seq![c]));
    if n < s.len() {
        Some((s.take(n as int), s.skip(n as int + 1)))
    } else {
        None
    }
}

pub proof fn lemma_run_length(s: Seq<char>, sep: spec_fn(char) -> bool, k: int)
    requires
        0 <= k <= s.len(),
        forall|j: int| 0 <= j < k ==> !sep(#[trigger] s[j]),
        k == s.len() || sep(s[k]),
    ensures
        run_length(s, sep) == k,
    decreases s.len(),
{
    if k > 0 {
        assert(!sep(s[0]));
        assert forall|j: int| 0 <= j < k - 1 implies !sep(#[trigger] s.drop_first()[j]) by {
            assert(!sep(s[j + 1]));
        }
        if k < s.len() {
            assert(s.drop_first()[k - 1] == s[k]);
        }
        lemma_run_length(s.drop_first(), sep, k - 1);
    }
}

/// The pieces between the characters that `f` accepts.
pub fn split_by<F: Fn(char) -> bool>(
    cs: &[char],
    f: F,
    Ghost(sep): Ghost<spec_fn(char) -> bool>,
) -> (r: Vec<Vec<char>>)
    requires
        forall|c: char| call_requires(f, (c,)),
        forall|c: char, b: bool| call_ensures(f, (c,), b) ==> b == sep(c),
    ensures
        char_views(r@) == split(cs@, sep),
{
    let n: usize = cs.len();
    let mut out: Vec<Vec<char>> = Vec::new();
    let mut start: usize = 0;
    let mut i: usize = 0;
    assert(cs@.skip(0) == cs@);
    assert(char_views(out@) + split(cs@, sep) == split(cs@, sep));
    while i < n
        invariant
            n == cs@.len(),
            start <= i <= n,
            forall|c: char| call_requires(f, (c,)),
            forall|c: char, b: bool| call_ensures(f, (c,), b) ==> b == sep(c),
            forall|k: int| start <= k < i ==> !sep(#[trigger] cs@[k]),
            char_views(out@) + split(cs@.skip(start as int), sep) == split(cs@, sep),
        decreases n - i,
    {
        if f(cs[i]) {
            let ghost before = char_views(out@);
            let ghost rest = cs@.skip(start as int);
            proof {
                assert forall|j: int| 0 <= j < i - start implies !sep(#[trigger] rest[j]) by {
                    assert(!sep(cs@[start + j]));
                }
                lemma_run_length(rest, sep, i - start);
                assert(rest.take(i - start) == cs@.subrange(start as int, i as int));
                assert(rest.skip(i - start + 1) == cs@.skip(i + 1));
            }
            out.push(sub_chars(cs, start, i));
            assert(char_views(out@) == before.push(cs@.subrange(start as int, i as int)));
            assert(char_views(out@) + split(cs@.skip(i + 1), sep) == before + (seq![
                cs@.subrange(start as int, i as int),
            ] + split(cs@.skip(i + 1), sep)));
            start = i + 1;
        }
        i += 1;
    }
    let ghost before = char_views(out@);
    let ghost rest = cs@.skip(start as int);
    proof {
        assert forall|j: int| 0 <= j < rest.len() implies !sep(#[trigger] rest[j]) by {
            assert(!sep(cs@[start + j]));
        }
        lemma_run_length(rest, sep, rest.len() as int);
        assert(rest == cs@.subrange(start as int, n as int));
    }
    out.push(sub_chars(cs, start, n));
    assert(char_views(out@) == before + seq![rest]);
    out
}

/// Whether `c` is one of `list`.
pub fn char_in(c: char, list: &[char]) -> (r: bool)
    ensures
        r == list@.contains(c),
{
    let n: usize = list.len();
    let mut i: usize = 0;
    while i < n
        invariant
            n == list@.len(),
            i <= n,
            forall|k: int| 0 <= k < i ==> list@[k] != c,
        decreases n - i,
    {
        if list[i] == c {
            return true;
        }
        i += 1;
    }
    false
}

pub fn split_chars(cs: &[char], seps: &[char]) -> (r: Vec<Vec<char>>)
    ensures
        char_views(r@) == split(cs@, one_of(seps@)),
{
    let f = |c: char| -> (b: bool)
        ensures
            b == seps@.contains(c),
        { char_in(c, seps) };
    split_by(cs, f, Ghost(one_of(seps@)))
}

/// The pieces that hold something, in order.
pub fn keep_non_empty(v: Vec<Vec<char>>) -> (r: Vec<Vec<char>>)
    ensures
        char_views(r@) == char_views(v@).filter(non_empty()),
{
    let mut out: Vec<Vec<char>> = Vec::new();
    let n: usize = v.len();
    let mut i: usize = 0;
    let ghost all = char_views(v@);
    proof {
        reveal(Seq::filter);
        assert(all.take(0) == Seq::<Seq<char>>::empty());
    }
    while i < n
        invariant
            n == v@.len(),
            i <= n,
            all == char_views(v@),
            char_views(out@) == all.take(i as int).filter(non_empty()),
        decreases n - i,
    {
        let ghost before = char_views(out@);
        proof {
            reveal(Seq::filter);
            assert(all.take(i + 1).drop_last() == all.take(i as int));
            assert(all.take(i + 1).last() == v@[i as int]@);
        }
        if v[i].len() > 0 {
            let piece = vstd::slice::slice_to_vec(v[i].as_slice());
            out.push(piece);
            assert(char_views(out@) == before.push(v@[i as int]@));
        }
        i += 1;
    }
    assert(all.take(n as int) == all);
    out
}

/// The words of a text.
pub fn word_chars(cs: &[char]) -> (r: Vec<Vec<char>>)
    ensures
        char_views(r@) == words(cs@),
{
    let f = |c: char| -> (b: bool)
        ensures
            b == is_space(c),
        { char_is_space(c) };
    let parts = split_by(cs, f, Ghost(white()));
    keep_non_empty(parts)
}

/// The trimmed, non-empty pieces of a text between any of `seps`.
pub fn entry_chars(cs: &[char], seps: &[char]) -> (r: Vec<Vec<char>>)
    ensures
        char_views(r@) == entries(cs@, seps@),
{
    let parts = split_chars(cs, seps);
    let mut out: Vec<Vec<char>> = Vec::new();
    let n: usize = parts.len();
    let mut i: usize = 0;
    while i < n
        invariant
            n == parts@.len(),
            i <= n,
            char_views(out@) == trim_all(char_views(parts@).take(i as int)),
        decreases n - i,
    {
        let ghost before = char_views(out@);
        out.push(trim_chars(parts[i].as_slice()));
        assert(char_views(out@) == before.push(trim(parts@[i as int]@)));
        assert(trim_all(char_views(parts@).take(i + 1)) == trim_all(
            char_views(parts@).take(i as int),
        ).push(trim(parts@[i as int]@)));
        i += 1;
    }
    assert(char_views(parts@).take(n as int) == char_views(parts@));
    keep_non_empty(out)
}

/// Owned strings for character buffers.
pub fn to_texts(v: &[Vec<char>]) -> (r: Vec<String>)
    ensures
        texts(r@) == char_views(v@),
{
    let mut out: Vec<String> = Vec::new();
    let n: usize = v.len();
    let mut i: usize = 0;
    while i < n
        invariant
            n == v@.len(),
            i <= n,
            texts(out@) == char_views(v@.take(i as int)),
        decreases n - i,
    {
        let ghost before = texts(out@);
        out.push(to_text(v[i].as_slice()));
        assert(texts(out@) == before.push(v@[i as int]@));
        assert(char_views(v@.take(i + 1)) == char_views(v@.take(i as int)).push(v@[i as int]@));
        i += 1;
    }
    assert(v@.take(n as int) == v@);
    out
}

/// The trimmed, non-empty pieces of a text between any of `seps`, as strings.
pub fn entry_texts(s: &str, seps: &[char]) -> (r: Vec<String>)
    ensures
        texts(r@) == entries(s@, seps@),
{
    let cs = to_chars(s);
    let parts = entry_chars(cs.as_slice(), seps);
    to_texts(parts.as_slice())
}

pub fn split_once_chars(cs: &[char], c: char) -> (r: Option<(Vec<char>, Vec<char>)>)
    ensures
        r is None <==> split_once(cs@, c) is None,
        r matches Some(p) ==> split_once(cs@, c) == Some((p.0@, p.1@)),
{
    let n: usize = cs.len();
    let mut i: usize = 0;
    let ghost sep = one_of(seq![c]);
    while i < n && cs[i] != c
        invariant
            n == cs@.len(),
            i <= n,
            sep == one_of(seq![c]),
            forall|k: int| 0 <= k < i ==> !sep(#[trigger] cs@[k]),
        decreases n - i,
    {
        assert(!sep(cs@[i as int]));
        i += 1;
    }
    proof {
        if i < n {
            assert(seq![c][0] == c);
            assert(sep(cs@[i as int]));
        }
        lemma_run_length(cs@, sep, i as int);
    }
    if i < n {
        let head = sub_chars(cs, 0, i);
        let tail = sub_chars(cs, i + 1, n);
        assert(head@ == cs@.take(i as int));
        assert(tail@ == cs@.skip(i + 1));
        Some((head, tail))
    } else {
        None
    }
}

// ---------------------------------------------------------------------------
// Searching
// ---------------------------------------------------------------------------
/// The pattern `p` stands in `s` at position `i`.
pub open spec fn occurs_at(s: Seq<char>, p: Seq<char>, i: int) -> bool {
    0 <= i && i + p.len() <= s.len() && s.subrange(i, i + p.len()) == p
}

/// The first position from `i` on at which `p` stands in `s`.
pub open spec fn find_from(s: Seq<char>, p: Seq<char>, i: int) -> Option<int>
    decreases s.len() + 1 - i,
{
    if i + p.len() > s.len() {
        None
    } else if occurs_at(s, p, i) {
        Some(i)
    } else {
        find_from(s, p, i + 1)
    }
}

/// The first position at which `p` stands in `s`.
pub open spec fn find(s: Seq<char>, p: Seq<char>) -> Option<int> {
    find_from(s, p, 0)
}

/// The last position, not after `i`, at which `p` stands in `s`.
pub open spec fn rfind_from(s: Seq<char>, p: Seq<char>, i: int) -> Option<int>
    decreases i + 1,
{
    if i < 0 {
        None
    } else if occurs_at(s, p, i) {
        Some(i)
    } else {
        rfind_from(s, p, i - 1)
    }
}

/// The last position at which `p` stands in `s`.
pub open spec fn rfind(s: Seq<char>, p: Seq<char>) -> Option<int> {
    rfind_from(s, p, s.len() - p.len())
}

/// `p` stands somewhere in `s`.
pub open spec fn contains(s: Seq<char>, p: Seq<char>) -> bool {
    find(s, p) is Some
}

/// What stands before and after the first `p`, where there is one.
pub open spec fn split_at_first(s: Seq<char>, p: Seq<char>) -> Option<(Seq<char>, Seq<char>)> {
    match find(s, p) {
        Some(i) => Some((s.take(i), s.skip(i + p.len()))),
        None => None,
    }
}

/// A position that the search gives holds the pattern, and no earlier one does.
pub proof fn lemma_find_from(s: Seq<char>, p: Seq<char>, i: int)
    requires
        0 <= i,
    ensures
        find_from(s, p, i) matches Some(k) ==> i <= k && occurs_at(s, p, k),
        forall|j: int| #![trigger occurs_at(s, p, j)]
            i <= j && occurs_at(s, p, j) ==> (find_from(s, p, i) matches Some(k) && k <= j),
    decreases s.len() + 1 - i,
{
    if i + p.len() > s.len() {
    } else if occurs_at(s, p, i) {
    } else {
        lemma_find_from(s, p, i + 1);
    }
}

/// A position that the search from the right gives holds the pattern, and no later one does.
pub proof fn lemma_rfind_from(s: Seq<char>, p: Seq<char>, i: int)
    ensures
        rfind_from(s, p, i) matches Some(k) ==> k <= i && occurs_at(s, p, k),
        forall|j: int| #![trigger occurs_at(s, p, j)]
            j <= i && occurs_at(s, p, j) ==> (rfind_from(s, p, i) matches Some(k) && j <= k),
    decreases i + 1,
{
    if i < 0 {
    } else if occurs_at(s, p, i) {
    } else {
        lemma_rfind_from(s, p, i - 1);
    }
}

/// The first position from `from` on at which `p` stands in `cs`.
pub fn find_chars(cs: &[char], p: &[char], from: usize) -> (r: Option<usize>)
    ensures
        r matches Some(i) ==> find_from(cs@, p@, from as int) == Some(i as int),
        r is None ==> find_from(cs@, p@, from as int) is None,
{
    let m: usize = p.len();
    let n: usize = cs.len();
    let mut i: usize = from;
    while i <= n && m <= n - i
        invariant
            m == p@.len(),
            n == cs@.len(),
            find_from(cs@, p@, from as int) == find_from(cs@, p@, i as int),
        decreases n + 1 - i,
    {
        if chars_eq(slice_subrange(cs, i, i + m), p) {
            return Some(i);
        }
        if i == n {
            assert(find_from(cs@, p@, n + 1) is None);
            return None;
        }
        i += 1;
    }
    None
}

/// The last position at which `p` stands in `cs`.
pub fn rfind_chars(cs: &[char], p: &[char]) -> (r: Option<usize>)
    ensures
        r matches Some(i) ==> rfind(cs@, p@) == Some(i as int),
        r is None ==> rfind(cs@, p@) is None,
{
    let m: usize = p.len();
    let n: usize = cs.len();
    if m > n {
        return None;
    }
    let mut i: usize = n - m;
    loop
        invariant
            m == p@.len(),
            n == cs@.len(),
            i + m <= n,
            rfind(cs@, p@) == rfind_from(cs@, p@, i as int),
        decreases i,
    {
        if chars_eq(slice_subrange(cs, i, i + m), p) {
            return Some(i);
        }
        if i == 0 {
            assert(rfind_from(cs@, p@, -1) is None);
            return None;
        }
        i -= 1;
    }
}

/// Whether `p` stands somewhere in the text `s`.
pub fn text_contains(s: &str, p: &str) -> (r: bool)
    ensures
        r == contains(s@, p@),
{
    let a = to_chars(s);
    let b = to_chars(p);
    find_chars(a.as_slice(), b.as_slice(), 0).is_some()
}

/// What stands before and after the first `p` in the text.
pub fn split_at_first_chars(cs: &[char], p: &[char]) -> (r: Option<(Vec<char>, Vec<char>)>)
    ensures
        r is None <==> split_at_first(cs@, p@) is None,
        r matches Some(t) ==> split_at_first(cs@, p@) == Some((t.0@, t.1@)),
{
    proof {
        lemma_find_from(cs@, p@, 0);
    }
    match find_chars(cs, p, 0) {
        Some(i) => {
            assert(occurs_at(cs@, p@, i as int));
            let n: usize = cs.len();
            assert(i + p@.len() <= n);
            let head = sub_chars(cs, 0, i);
            let tail = sub_chars(cs, i + p.len(), cs.len());
            assert(head@ == cs@.take(i as int));
            assert(tail@ == cs@.skip(i + p@.len()));
            Some((head, tail))
        },
        None => None,
    }
}

/// `s` with every occurrence of `p`, taken from the left without overlap, replaced by `q`.
pub open spec fn replace_all(s: Seq<char>, p: Seq<char>, q: Seq<char>) -> Seq<char>
    decreases s.len(),
    via replace_all_decreases
{
    match find(s, p) {
        Some(i) => if p.len() > 0 {
            s.take(i) + q + replace_all(s.skip(i + p.len()), p, q)
        } else {
            s
        },
        None => s,
    }
}

#[via_fn]
proof fn replace_all_decreases(s: Seq<char>, p: Seq<char>, q: Seq<char>) {
    lemma_find_from(s, p, 0);
}

/// The text with every occurrence of `p` replaced by `q`.
pub fn replace_text(s: &str, p: &str, q: &str) -> (r: String)
    requires
        p@.len() > 0,
    ensures
        r@ == replace_all(s@, p@, q@),
{
    let pat = to_chars(p);
    let mut rest = to_chars(s);
    let mut out = String::new();
    assert(out@ + replace_all(rest@, p@, q@) == replace_all(s@, p@, q@));
    loop
        invariant
            pat@ == p@,
            p@.len() > 0,
            out@ + replace_all(rest@, p@, q@) == replace_all(s@, p@, q@),
        decreases rest@.len(),
    {
        proof {
            lemma_find_from(rest@, p@, 0);
        }
        match split_at_first_chars(rest.as_slice(), pat.as_slice()) {
            Some((head, tail)) => {
                let ghost before = out@;
                let h = to_text(head.as_slice());
                out.append(h.as_str());
                out.append(q);
                assert(out@ + replace_all(tail@, p@, q@) == before + (head@ + q@ + replace_all(
                    tail@,
                    p@,
                    q@,
                )));
                rest = tail;
            },
            None => {
                let h = to_text(rest.as_slice());
                out.append(h.as_str());
                return out;
            },
        }
    }
}

// ---------------------------------------------------------------------------
// Joining
// ---------------------------------------------------------------------------
/// The pieces one after another, with `sep` between them.
pub open spec fn join(v: Seq<Seq<char>>, sep: Seq<char>) -> Seq<char>
    decreases v.len(),
{
    if v.len() == 0 {
        Seq::empty()
    } else if v.len() == 1 {
        v[0]
    } else {
        join(v.drop_last(), sep) + sep + v.last()
    }
}

/// The strings one after another, with `sep` between them.
pub fn join_texts(v: &[String], sep: &str) -> (r: String)
    ensures
        r@ == join(texts(v@), sep@),
{
    let mut out = String::new();
    let n: usize = v.len();
    let mut i: usize = 0;
    let ghost all = texts(v@);
    while i < n
        invariant
            n == v@.len(),
            i <= n,
            all == texts(v@),
            out@ == join(all.take(i as int), sep@),
        decreases n - i,
    {
        assert(all.take(i + 1).drop_last() == all.take(i as int));
        if i > 0 {
            out.append(sep);
            out.append(v[i].as_str());
        } else {
            out.append(v[i].as_str());
            assert(out@ == v@[0]@);
        }
        i += 1;
    }
    assert(all.take(n as int) == all);
    out
}

// ---------------------------------------------------------------------------
// Order
// ---------------------------------------------------------------------------
/// `a` comes before `b`: at the first character at which they differ, or as its beginning.
pub open spec fn precedes(a: Seq<char>, b: Seq<char>) -> bool
    decreases a.len(),
{
    if b.len() == 0 {
        false
    } else if a.len() == 0 {
        true
    } else if a[0] == b[0] {
        precedes(a.drop_first(), b.drop_first())
    } else {
        a[0] < b[0]
    }
}

/// The texts ascend, without repetition.
pub open spec fn ascends(v: Seq<Seq<char>>) -> bool {
    forall|i: int, j: int| 0 <= i < j < v.len() ==> precedes(#[trigger] v[i], #[trigger] v[j])
}

/// What follows the other neither precedes it nor is the same, and one of the three holds.
pub proof fn lemma_precedes_total(a: Seq<char>, b: Seq<char>)
    ensures
        precedes(a, b) || precedes(b, a) || a == b,
        !(precedes(a, b) && precedes(b, a)),
        !precedes(a, a),
    decreases a.len(),
{
    if a.len() > 0 && b.len() > 0 {
        lemma_precedes_total(a.drop_first(), b.drop_first());
        if a[0] == b[0] && a.drop_first() == b.drop_first() {
            assert(a =~= seq![a[0]] + a.drop_first());
            assert(b =~= seq![b[0]] + b.drop_first());
        }
    } else if a.len() == 0 && b.len() == 0 {
        assert(a =~= b);
    }
    if a.len() > 0 {
        lemma_precedes_total(a.drop_first(), a.drop_first());
    }
}

/// The order is transitive.
pub proof fn lemma_precedes_transitive(a: Seq<char>, b: Seq<char>, c: Seq<char>)
    requires
        precedes(a, b),
        precedes(b, c),
    ensures
        precedes(a, c),
    decreases a.len(),
{
    if a.len() > 0 && b.len() > 0 && c.len() > 0 && a[0] == b[0] && b[0] == c[0] {
        lemma_precedes_transitive(a.drop_first(), b.drop_first(), c.drop_first());
    }
}

/// Whether `a` comes before `b`.
pub fn chars_precede(a: &[char], b: &[char]) -> (r: bool)
    ensures
        r == precedes(a@, b@),
{
    let mut i: usize = 0;
    assert(a@.skip(0) =~= a@);
    assert(b@.skip(0) =~= b@);
    while i < a.len() && i < b.len() && a[i] == b[i]
        invariant
            i <= a@.len(),
            i <= b@.len(),
            precedes(a@, b@) == precedes(a@.skip(i as int), b@.skip(i as int)),
        decreases a@.len() - i,
    {
        assert(a@.skip(i as int).drop_first() =~= a@.skip(i as int + 1));
        assert(b@.skip(i as int).drop_first() =~= b@.skip(i as int + 1));
        i += 1;
    }
    if i == b.len() {
        false
    } else if i == a.len() {
        true
    } else {
        a[i] < b[i]
    }
}

/// Whether `a` comes before `b`.
pub fn text_precedes(a: &str, b: &str) -> (r: bool)
    ensures
        r == precedes(a@, b@),
{
    chars_precede(to_chars(a).as_slice(), to_chars(b).as_slice())
}

/// Puts a text into its place among others, unless it is there.
pub fn insert_sorted(v: &mut Vec<String>, s: String)
    requires
        ascends(texts(old(v)@)),
    ensures
        ascends(texts(final(v)@)),
        forall|t: Seq<char>| #[trigger]
            texts(final(v)@).contains(t) <==> texts(old(v)@).contains(t) || t == s@,
{
    let ghost all = texts(v@);
    let n: usize = v.len();
    let mut i: usize = 0;
    while i < n && text_precedes(v[i].as_str(), s.as_str())
        invariant
            n == v@.len(),
            i <= n,
            all == texts(v@),
            v@ == old(v)@,
            forall|k: int| 0 <= k < i ==> precedes(#[trigger] all[k], s@),
        decreases n - i,
    {
        i += 1;
    }
    if i < n && same(v[i].as_str(), s.as_str()) {
        assert(all[i as int] == s@);
        return;
    }
    let ghost t = s@;
    proof {
        if i < n {
            lemma_precedes_total(all[i as int], t);
        }
        assert forall|k: int| i <= k < n implies precedes(t, #[trigger] all[k]) by {
            if k > i {
                lemma_precedes_transitive(t, all[i as int], all[k]);
            }
        }
    }
    v.insert(i, s);
    let ghost now = texts(v@);
    proof {
        assert(now =~= all.insert(i as int, t));
        assert forall|a: int, b: int| 0 <= a < b < now.len() implies precedes(
            #[trigger] now[a],
            #[trigger] now[b],
        ) by {
            let x = if a < i {
                a
            } else {
                a - 1
            };
            let y = if b < i {
                b
            } else {
                b - 1
            };
            if a != i {
                assert(now[a] == all[x]);
            }
            if b != i {
                assert(now[b] == all[y]);
            }
        }
        assert forall|u: Seq<char>| #[trigger] now.contains(u) <==> all.contains(u) || u == t by {
            if all.contains(u) {
                let k = choose|k: int| 0 <= k < all.len() && all[k] == u;
                assert(now[if k < i { k } else { k + 1 }] == u);
            }
            if u == t {
                assert(now[i as int] == t);
            }
            if now.contains(u) {
                let k = choose|k: int| 0 <= k < now.len() && now[k] == u;
                if k != i {
                    assert(all[if k < i { k } else { k - 1 }] == u);
                }
            }
        }
    }
}

} // verus!
