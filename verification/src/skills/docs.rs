//! Documentation for the libraries that a question names.
use crate::json::{Json, JsonV};
use crate::skills::agent::{docs_call, docs_request};
use crate::text::{
    char_views, chars_eq, chars_start_with, first_chars, first_text, is_blank, lowercase,
    lowercase_text, one_of, opt_text, split, split_by, split_chars, starts_with, sub_chars,
    text_is_blank, texts, to_chars, to_text, trim, trim_chars,
};
use vstd::prelude::*;
use vstd::utf8::encode_utf8;

verus! {

/// How many libraries are looked up for a question.
pub const MAX_LIBS: usize = 2;

/// How many characters of a library's documentation are shown.
pub const SNIPPET_CHARS: usize = 1500;

/// Milliseconds for which the list of libraries serves.
pub const LIB_TTL: u64 = 300000;

/// Whether a list of libraries that was read then still serves.
pub fn is_fresh(read_at: u64, now: u64) -> (r: bool)
    ensures
        r == (now - read_at < LIB_TTL),
        r <==> now < read_at + 300_000,
{
    now < read_at || now - read_at < LIB_TTL
}

// ---------------------------------------------------------------------------
// The list of libraries
// ---------------------------------------------------------------------------
/// The library that a line of the list names: `- name`.
pub open spec fn library_of(line: Seq<char>) -> Option<Seq<char>> {
    let t = trim(line);
    if starts_with(t, "- "@) && trim(t.skip(2)).len() > 0 {
        Some(trim(t.skip(2)))
    } else {
        None
    }
}

/// The libraries that lines name, in order.
pub open spec fn libraries_of(lines: Seq<Seq<char>>) -> Seq<Seq<char>>
    decreases lines.len(),
{
    if lines.len() == 0 {
        seq![]
    } else {
        let head = libraries_of(lines.drop_last());
        match library_of(lines.last()) {
            Some(l) => head.push(l),
            None => head,
        }
    }
}

/// The libraries that a list names, one per line.
pub fn libraries(text: &str) -> (r: Vec<String>)
    ensures
        texts(r@) == libraries_of(split(text@, one_of(seq!['\n']))),
{
    let seps: [char; 1] = ['\n'];
    assert(seps@ =~= seq!['\n']);
    let lines = split_chars(to_chars(text).as_slice(), seps.as_slice());
    let ghost all = char_views(lines@);
    let mark = to_chars("- ");
    proof {
        reveal_strlit("- ");
    }
    let mut out: Vec<String> = Vec::new();
    let n: usize = lines.len();
    let mut i: usize = 0;
    proof {
        assert(all.take(0) =~= Seq::<Seq<char>>::empty());
        assert(texts(out@) =~= Seq::<Seq<char>>::empty());
    }
    while i < n
        invariant
            n == lines@.len(),
            i <= n,
            all == char_views(lines@),
            mark@ == "- "@,
            mark@.len() == 2,
            texts(out@) == libraries_of(all.take(i as int)),
        decreases n - i,
    {
        let ghost before = out@;
        assert(all.take(i as int + 1).drop_last() =~= all.take(i as int));
        assert(all.take(i as int + 1).last() == lines@[i as int]@);
        let line = trim_chars(lines[i].as_slice());
        if chars_start_with(line.as_slice(), mark.as_slice()) {
            let end: usize = line.len();
            let rest = sub_chars(line.as_slice(), 2, end);
            assert(rest@ =~= line@.skip(2));
            let name = trim_chars(rest.as_slice());
            if name.len() > 0 {
                let name = to_text(name.as_slice());
                let ghost l = name@;
                out.push(name);
                assert(texts(out@) =~= texts(before).push(l));
            }
        }
        i += 1;
    }
    assert(all.take(n as int) =~= all);
    out
}

/// The message that asks for the list of libraries.
pub fn list_request() -> (r: Json)
    ensures
        r@ == docs_call("list_libraries"@, JsonV::Object(Map::empty())),
{
    docs_request("list_libraries", Json::empty_object())
}

// ---------------------------------------------------------------------------
// The libraries of a question
// ---------------------------------------------------------------------------
/// Whether `char::is_alphanumeric` holds of a character: a letter or a number, as Unicode
/// has it.
pub uninterp spec fn alphanumeric(c: char) -> bool;

/// `char::is_alphanumeric`. Of the ASCII characters, the letters and digits are.
#[verifier::external_body]
fn is_alphanumeric(c: char) -> (r: bool)
    ensures
        r == alphanumeric(c),
        (c as u32) < 128 ==> r == (('a' <= c && c <= 'z') || ('A' <= c && c <= 'Z') || ('0' <= c
            && c <= '9')),
{
    c.is_alphanumeric()
}

/// The separator test for words: anything but a letter, a number, a hyphen or an underscore.
pub open spec fn between_words() -> spec_fn(char) -> bool {
    |c: char| !alphanumeric(c) && c != '-' && c != '_'
}

/// The words of a question in lower case.
pub open spec fn question_words(lowered: Seq<char>) -> Seq<Seq<char>> {
    split(lowered, between_words())
}

/// The library is named by one of the words: it has at least three bytes, and in lower case
/// it is such a word.
pub open spec fn is_named(library: Seq<char>, lowered: Seq<char>, words: Seq<Seq<char>>) -> bool {
    encode_utf8(library).len() >= 3 && words.contains(lowered)
}

/// The libraries that words name, in order.
pub open spec fn named(
    libs: Seq<Seq<char>>,
    lowered: Seq<Seq<char>>,
    words: Seq<Seq<char>>,
) -> Seq<Seq<char>>
    decreases libs.len(),
{
    if libs.len() == 0 || lowered.len() != libs.len() {
        seq![]
    } else {
        let head = named(libs.drop_last(), lowered.drop_last(), words);
        if is_named(libs.last(), lowered.last(), words) {
            head.push(libs.last())
        } else {
            head
        }
    }
}

/// The first of them, as many as are looked up.
pub open spec fn at_most_two(all: Seq<Seq<char>>) -> Seq<Seq<char>> {
    if all.len() <= MAX_LIBS {
        all
    } else {
        all.take(MAX_LIBS as int)
    }
}

/// The texts in lower case.
pub open spec fn lowered_all(libs: Seq<Seq<char>>) -> Seq<Seq<char>> {
    Seq::new(libs.len(), |i: int| lowercase(libs[i]))
}

/// The libraries that are looked up for a question.
pub open spec fn looked_up(libs: Seq<Seq<char>>, query: Seq<char>) -> Seq<Seq<char>> {
    at_most_two(named(libs, lowered_all(libs), question_words(lowercase(query))))
}

fn word_list(lowered: &str) -> (r: Vec<Vec<char>>)
    ensures
        char_views(r@) == question_words(lowered@),
{
    let f = |c: char| -> (b: bool)
        ensures
            b == between_words()(c),
        { !is_alphanumeric(c) && c != '-' && c != '_' };
    split_by(to_chars(lowered).as_slice(), f, Ghost(between_words()))
}

fn has_word(words: &Vec<Vec<char>>, word: &[char]) -> (r: bool)
    ensures
        r == char_views(words@).contains(word@),
{
    let n: usize = words.len();
    let mut i: usize = 0;
    while i < n
        invariant
            n == words@.len(),
            i <= n,
            forall|k: int| 0 <= k < i ==> #[trigger] char_views(words@)[k] != word@,
        decreases n - i,
    {
        if chars_eq(words[i].as_slice(), word) {
            assert(char_views(words@)[i as int] == word@);
            return true;
        }
        i += 1;
    }
    false
}

proof fn lemma_named_grows(
    libs: Seq<Seq<char>>,
    lowered: Seq<Seq<char>>,
    words: Seq<Seq<char>>,
    k: int,
)
    requires
        0 <= k <= libs.len(),
        libs.len() == lowered.len(),
    ensures
        ({
            let some = named(libs.take(k), lowered.take(k), words);
            let all = named(libs, lowered, words);
            some.len() <= all.len() && all.take(some.len() as int) == some
        }),
    decreases libs.len() - k,
{
    let some = named(libs.take(k), lowered.take(k), words);
    let all = named(libs, lowered, words);
    if k == libs.len() {
        assert(libs.take(k) =~= libs);
        assert(lowered.take(k) =~= lowered);
        assert(all.take(all.len() as int) =~= all);
    } else {
        lemma_named_grows(libs, lowered, words, k + 1);
        assert(libs.take(k + 1).drop_last() =~= libs.take(k));
        assert(lowered.take(k + 1).drop_last() =~= lowered.take(k));
        let n = some.len() as int;
        let longer = named(libs.take(k + 1), lowered.take(k + 1), words);
        assert(longer.take(n) =~= some);
        assert(all.take(n) =~= all.take(longer.len() as int).take(n));
    }
}

/// The libraries that words name, given each library in lower case; at most as many as are
/// looked up.
pub fn named_libraries(libs: &Vec<String>, lowered: &Vec<String>, words: &Vec<Vec<char>>) -> (r:
    Vec<String>)
    requires
        libs@.len() == lowered@.len(),
    ensures
        texts(r@) == at_most_two(named(texts(libs@), texts(lowered@), char_views(words@))),
{
    let ghost ws = char_views(words@);
    let ghost all = texts(libs@);
    let ghost low = texts(lowered@);
    let mut out: Vec<String> = Vec::new();
    let n: usize = libs.len();
    let mut i: usize = 0;
    proof {
        assert(all.take(0) =~= Seq::<Seq<char>>::empty());
        assert(texts(out@) =~= Seq::<Seq<char>>::empty());
    }
    while i < n && out.len() < MAX_LIBS
        invariant
            n == libs@.len(),
            n == lowered@.len(),
            i <= n,
            all == texts(libs@),
            low == texts(lowered@),
            ws == char_views(words@),
            out@.len() <= MAX_LIBS,
            texts(out@) == named(all.take(i as int), low.take(i as int), ws),
        decreases n - i,
    {
        let ghost before = out@;
        proof {
            assert(all.take(i as int + 1).drop_last() =~= all.take(i as int));
            assert(all.take(i as int + 1).last() == libs@[i as int]@);
            assert(low.take(i as int + 1).drop_last() =~= low.take(i as int));
            assert(low.take(i as int + 1).last() == lowered@[i as int]@);
        }
        let name = to_chars(lowered[i].as_str());
        if is_long_enough(libs[i].as_str()) && has_word(words, name.as_slice()) {
            out.push(libs[i].clone());
            assert(texts(out@) =~= texts(before).push(libs@[i as int]@));
        }
        i += 1;
    }
    proof {
        lemma_named_grows(all, low, ws, i as int);
        assert(all.take(n as int) =~= all);
        assert(low.take(n as int) =~= low);
    }
    out
}

/// The libraries of the list that a question names, at most as many as are looked up.
pub fn matched_libraries(libs: &Vec<String>, query: &str) -> (r: Vec<String>)
    ensures
        texts(r@) == looked_up(texts(libs@), query@),
{
    let query_lowered = lowercase_text(query);
    let words = word_list(query_lowered.as_str());
    let mut lowered: Vec<String> = Vec::new();
    let n: usize = libs.len();
    let mut i: usize = 0;
    while i < n
        invariant
            n == libs@.len(),
            i <= n,
            lowered@.len() == i,
            forall|k: int| 0 <= k < i ==> (#[trigger] lowered@[k])@ == lowercase(libs@[k]@),
        decreases n - i,
    {
        lowered.push(lowercase_text(libs[i].as_str()));
        i += 1;
    }
    assert(texts(lowered@) =~= lowered_all(texts(libs@)));
    named_libraries(libs, &lowered, &words)
}

fn is_long_enough(s: &str) -> (r: bool)
    ensures
        r == (encode_utf8(s@).len() >= 3),
{
    let bytes = s.as_bytes();
    bytes.len() >= 3
}

// ---------------------------------------------------------------------------
// What is shown
// ---------------------------------------------------------------------------
/// The documentation of one library, where any was found.
pub open spec fn snippet(library: Seq<char>, found: Option<Seq<char>>) -> Seq<char> {
    match found {
        Some(t) => "## "@ + library + "\n"@ + first_chars(t, SNIPPET_CHARS as int) + "\n\n"@,
        None => seq![],
    }
}

/// The documentation of all libraries, one after the other.
pub open spec fn snippets(libs: Seq<Seq<char>>, found: Seq<Option<Seq<char>>>) -> Seq<char>
    decreases libs.len(),
{
    if libs.len() == 0 || found.len() != libs.len() {
        seq![]
    } else {
        snippets(libs.drop_last(), found.drop_last()) + snippet(libs.last(), found.last())
    }
}

/// The texts of optional strings.
pub open spec fn found_texts(v: Seq<Option<String>>) -> Seq<Option<Seq<char>>> {
    Seq::new(v.len(), |i: int| opt_text(v[i]))
}

/// The documentation that goes into a request, given what was found for each library;
/// nothing where it is blank.
pub fn relevant_docs(libs: &Vec<String>, found: &Vec<Option<String>>) -> (r: Option<String>)
    requires
        libs@.len() == found@.len(),
    ensures
        opt_text(r) == ({
            let all = snippets(texts(libs@), found_texts(found@));
            if is_blank(all) {
                None
            } else {
                Some(all)
            }
        }),
{
    let ghost names = texts(libs@);
    let ghost fs = found_texts(found@);
    let mut out = String::new();
    let n: usize = libs.len();
    let mut i: usize = 0;
    assert(out@ =~= snippets(names.take(0), fs.take(0)));
    while i < n
        invariant
            n == libs@.len(),
            n == found@.len(),
            i <= n,
            names == texts(libs@),
            fs == found_texts(found@),
            out@ == snippets(names.take(i as int), fs.take(i as int)),
        decreases n - i,
    {
        proof {
            assert(names.take(i as int + 1).drop_last() =~= names.take(i as int));
            assert(fs.take(i as int + 1).drop_last() =~= fs.take(i as int));
            assert(names.take(i as int + 1).last() == libs@[i as int]@);
            assert(fs.take(i as int + 1).last() == opt_text(found@[i as int]));
        }
        let ghost before = out@;
        if let Some(text) = &found[i] {
            let shown = first_text(text.as_str(), SNIPPET_CHARS);
            out.append("## ");
            out.append(libs[i].as_str());
            out.append("\n");
            out.append(shown.as_str());
            out.append("\n\n");
            proof {
                let s = snippet(libs@[i as int]@, Some(text@));
                assert(out@ =~= before + s);
            }
        } else {
            assert(before + Seq::<char>::empty() =~= before);
        }
        i += 1;
    }
    proof {
        assert(names.take(n as int) =~= names);
        assert(fs.take(n as int) =~= fs);
    }
    if text_is_blank(out.as_str()) {
        None
    } else {
        Some(out)
    }
}

} // verus!
