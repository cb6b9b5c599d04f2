//! JSON values, their text, and their reading.
use crate::strmap::{lemma_value_below, StrMap};
use crate::text::{same, texts};
use vstd::prelude::*;

verus! {

broadcast use lemma_value_below;

/// A JSON number, whole or not, kept as `serde_json` holds it.
#[verifier::external_type_specification]
#[verifier::external_body]
pub struct ExNumber(serde_json::Number);

/// A JSON value.
#[derive(Debug, PartialEq)]
pub enum Json {
    Null,
    Bool(bool),
    Number(serde_json::Number),
    String(String),
    Array(Vec<Json>),
    Object(StrMap<Json>),
}

/// What a JSON value is: texts as characters, objects as maps.
pub enum JsonV {
    Null,
    Bool(bool),
    Number(serde_json::Number),
    String(Seq<char>),
    Array(Seq<JsonV>),
    Object(Map<Seq<char>, JsonV>),
}

impl Json {
    pub open spec fn view(&self) -> JsonV
        decreases self,
    {
        match self {
            Json::Null => JsonV::Null,
            Json::Bool(b) => JsonV::Bool(*b),
            Json::Number(n) => JsonV::Number(*n),
            Json::String(s) => JsonV::String(s@),
            Json::Array(v) => JsonV::Array(
                Seq::new(
                    v@.len(),
                    |i: int|
                        if 0 <= i < v@.len() {
                            v@[i].view()
                        } else {
                            JsonV::Null
                        },
                ),
            ),
            Json::Object(m) => JsonV::Object(
                Map::new(
                    |k: Seq<char>| m@.contains_key(k),
                    |k: Seq<char>|
                        if m@.contains_key(k) {
                            m@[k].view()
                        } else {
                            JsonV::Null
                        },
                ),
            ),
        }
    }
}

// ---------------------------------------------------------------------------
// Reading a value
// ---------------------------------------------------------------------------
/// The values of a sequence.
pub open spec fn json_seq(v: Seq<Json>) -> Seq<JsonV> {
    Seq::new(v.len(), |i: int| v[i].view())
}

/// The values of a map.
pub open spec fn json_map(m: Map<Seq<char>, Json>) -> Map<Seq<char>, JsonV> {
    Map::new(|k: Seq<char>| m.contains_key(k), |k: Seq<char>| m[k].view())
}

/// An array is the sequence of the values it holds, and an object the map of them.
pub broadcast proof fn lemma_view_parts(v: Json)
    ensures
        v matches Json::Array(a) ==> #[trigger] v.view() == JsonV::Array(json_seq(a@)),
        v matches Json::Object(m) ==> v.view() == JsonV::Object(json_map(m@)),
{
    match v {
        Json::Array(a) => {
            assert(v.view()->Array_0 =~= json_seq(a@));
        },
        Json::Object(m) => {
            assert(v.view()->Object_0 =~= json_map(m@));
        },
        _ => {},
    }
}

impl JsonV {
    /// The member of an object under a key.
    pub open spec fn get(self, k: Seq<char>) -> Option<JsonV> {
        match self {
            JsonV::Object(m) => if m.contains_key(k) {
                Some(m[k])
            } else {
                None
            },
            _ => None,
        }
    }

    /// The element of an array at a position.
    pub open spec fn at(self, i: int) -> Option<JsonV> {
        match self {
            JsonV::Array(a) => if 0 <= i < a.len() {
                Some(a[i])
            } else {
                None
            },
            _ => None,
        }
    }

    /// The text of a string.
    pub open spec fn as_str(self) -> Option<Seq<char>> {
        match self {
            JsonV::String(s) => Some(s),
            _ => None,
        }
    }

    /// The member of an object under a key, where it is a string.
    pub open spec fn str_at(self, k: Seq<char>) -> Option<Seq<char>> {
        match self.get(k) {
            Some(v) => v.as_str(),
            None => None,
        }
    }

    /// The string under a key of an object, or the empty text.
    pub open spec fn str_or_empty(self, k: Seq<char>) -> Seq<char> {
        match self.str_at(k) {
            Some(s) => s,
            None => Seq::empty(),
        }
    }

    /// The member of an object under a key, where it is a truth value.
    pub open spec fn bool_at(self, k: Seq<char>) -> Option<bool> {
        match self.get(k) {
            Some(JsonV::Bool(b)) => Some(b),
            _ => None,
        }
    }
}

impl Json {
    /// The member of an object under a key.
    pub fn get(&self, key: &str) -> (r: Option<&Json>)
        ensures
            r is Some <==> self@.get(key@) is Some,
            r matches Some(v) ==> self@.get(key@) == Some(v@),
    {
        match self {
            Json::Object(m) => m.get(key),
            _ => None,
        }
    }

    /// The element of an array at a position.
    pub fn at(&self, i: usize) -> (r: Option<&Json>)
        ensures
            r is Some <==> self@.at(i as int) is Some,
            r matches Some(v) ==> self@.at(i as int) == Some(v@),
    {
        match self {
            Json::Array(a) => if i < a.len() {
                Some(&a[i])
            } else {
                None
            },
            _ => None,
        }
    }

    /// The text of a string.
    pub fn as_str(&self) -> (r: Option<&String>)
        ensures
            r is Some <==> self@.as_str() is Some,
            r matches Some(s) ==> self@.as_str() == Some(s@),
    {
        match self {
            Json::String(s) => Some(s),
            _ => None,
        }
    }

    /// The string under a key of an object.
    pub fn str_at(&self, key: &str) -> (r: Option<&String>)
        ensures
            r is Some <==> self@.str_at(key@) is Some,
            r matches Some(s) ==> self@.str_at(key@) == Some(s@),
    {
        match self.get(key) {
            Some(v) => v.as_str(),
            None => None,
        }
    }

    /// The string under a key of an object, or the empty text.
    pub fn str_or_empty(&self, key: &str) -> (r: String)
        ensures
            r@ == self@.str_or_empty(key@),
    {
        match self.str_at(key) {
            Some(s) => s.clone(),
            None => String::new(),
        }
    }

    /// The truth value under a key of an object.
    pub fn bool_at(&self, key: &str) -> (r: Option<bool>)
        ensures
            r == self@.bool_at(key@),
    {
        match self.get(key) {
            Some(Json::Bool(b)) => Some(*b),
            _ => None,
        }
    }

    /// Whether the string under a key of an object is the given text.
    pub fn str_is(&self, key: &str, text: &str) -> (r: bool)
        ensures
            r == (self@.str_at(key@) == Some(text@)),
    {
        match self.str_at(key) {
            Some(s) => same(s.as_str(), text),
            None => false,
        }
    }

    // -----------------------------------------------------------------------
    // Building a value
    // -----------------------------------------------------------------------
    /// A string.
    pub fn text(s: &str) -> (r: Json)
        ensures
            r@ == JsonV::String(s@),
    {
        Json::String(s.to_string())
    }

    /// A whole number.
    pub fn whole(n: u64) -> (r: Json)
        ensures
            r@ == int_value(n),
    {
        Json::Number(number_from(n))
    }

    /// The empty object.
    pub fn empty_object() -> (r: Json)
        ensures
            r@ == JsonV::Object(Map::empty()),
    {
        let r = Json::Object(StrMap::new());
        assert(r@->Object_0 =~= Map::<Seq<char>, JsonV>::empty());
        r
    }

    /// The empty array.
    pub fn empty_array() -> (r: Json)
        ensures
            r@ == JsonV::Array(Seq::empty()),
    {
        let r = Json::Array(Vec::new());
        assert(r@->Array_0 =~= Seq::<JsonV>::empty());
        r
    }

    /// The array of the given values.
    pub fn list(v: Vec<Json>) -> (r: Json)
        ensures
            r@ == JsonV::Array(json_seq(v@)),
    {
        let r = Json::Array(v);
        proof {
            lemma_view_parts(r);
        }
        r
    }

    /// An array of strings.
    pub fn text_array(v: &[String]) -> (r: Json)
        ensures
            r@ == text_array_value(texts(v@)),
    {
        let mut out: Vec<Json> = Vec::new();
        let n: usize = v.len();
        let mut i: usize = 0;
        while i < n
            invariant
                n == v@.len(),
                i <= n,
                out@.len() == i,
                forall|k: int|
                    0 <= k < i ==> (#[trigger] out@[k]).view() == JsonV::String(v@[k]@),
            decreases n - i,
        {
            out.push(Json::text(v[i].as_str()));
            i += 1;
        }
        let r = Json::Array(out);
        proof {
            lemma_view_parts(r);
            assert(json_seq(out@) =~= text_array_value(texts(v@))->Array_0);
        }
        r
    }

    /// The object with one more member, or with another value under that key.
    pub fn with(self, key: &str, value: Json) -> (r: Json)
        requires
            self is Object,
        ensures
            r is Object,
            r@ == JsonV::Object(self@->Object_0.insert(key@, value@)),
    {
        let ghost whole = self;
        match self {
            Json::Object(m) => {
                let ghost before = m@;
                let mut m = m;
                m.insert(key.to_string(), value);
                let r = Json::Object(m);
                proof {
                    lemma_view_parts(r);
                    lemma_view_parts(whole);
                    assert(json_map(m@) =~= json_map(before).insert(key@, value@));
                }
                r
            },
            other => other,
        }
    }

    /// A value of its own that is the same.
    pub fn copy(&self) -> (r: Json)
        ensures
            r@ == self@,
        decreases self,
    {
        match self {
            Json::Null => Json::Null,
            Json::Bool(b) => Json::Bool(*b),
            Json::Number(n) => Json::Number(n.clone()),
            Json::String(s) => Json::String(s.clone()),
            Json::Array(v) => {
                let mut out: Vec<Json> = Vec::new();
                let n: usize = v.len();
                let mut i: usize = 0;
                while i < n
                    invariant
                        n == v@.len(),
                        i <= n,
                        out@.len() == i,
                        decreases_to!(self => v),
                        forall|k: int| 0 <= k < i ==> (#[trigger] out@[k]).view() == v@[k].view(),
                    decreases n - i,
                {
                    assert(decreases_to!(v => v@[i as int]));
                    out.push(v[i].copy());
                    i += 1;
                }
                let r = Json::Array(out);
                proof {
                    lemma_view_parts(r);
                    lemma_view_parts(*self);
                    assert(json_seq(out@) =~= json_seq(v@));
                }
                r
            },
            Json::Object(m) => {
                let mut out: StrMap<Json> = StrMap::new();
                let n: usize = m.len();
                let mut i: usize = 0;
                while i < n
                    invariant
                        n == m.keys().len(),
                        i <= n,
                        decreases_to!(self => m),
                        m.keys().no_duplicates(),
                        forall|k: Seq<char>| #[trigger]
                            m@.contains_key(k) <==> m.keys().contains(k),
                        forall|k: Seq<char>| #[trigger]
                            out@.contains_key(k) <==> m.keys().take(i as int).contains(k),
                        forall|k: Seq<char>| #[trigger]
                            out@.contains_key(k) ==> out@[k].view() == m@[k].view(),
                    decreases n - i,
                {
                    let (key, value) = m.entry(i);
                    let ghost done = out@;
                    proof {
                        lemma_value_below(*m, key@);
                        lemma_take_contains(m.keys(), i as int);
                    }
                    out.insert(key.clone(), value.copy());
                    i += 1;
                }
                let r = Json::Object(out);
                proof {
                    lemma_view_parts(r);
                    lemma_view_parts(*self);
                    assert(m.keys().take(n as int) == m.keys());
                    assert(json_map(out@) =~= json_map(m@));
                }
                r
            },
        }
    }
}

/// Taking one more key adds that key.
pub proof fn lemma_take_contains<A>(s: Seq<A>, i: int)
    requires
        0 <= i < s.len(),
    ensures
        forall|k: A|
            #[trigger] s.take(i + 1).contains(k) <==> s.take(i).contains(k) || k == s[i],
{
    let a = s.take(i);
    let b = s.take(i + 1);
    assert(b =~= a.push(s[i]));
    assert forall|k: A| #[trigger] b.contains(k) <==> a.contains(k) || k == s[i] by {
        if a.contains(k) {
            let j = choose|j: int| 0 <= j < a.len() && a[j] == k;
            assert(b[j] == k);
        }
        if k == s[i] {
            assert(b[i] == k);
        }
        if b.contains(k) {
            let j = choose|j: int| 0 <= j < b.len() && b[j] == k;
            if j < i {
                assert(a[j] == k);
            }
        }
    }
}

/// The value of an array of strings.
pub open spec fn text_array_value(v: Seq<Seq<char>>) -> JsonV {
    JsonV::Array(Seq::new(v.len(), |i: int| JsonV::String(v[i])))
}

/// The value of a whole number.
pub open spec fn int_value(n: u64) -> JsonV {
    JsonV::Number(number_of(n))
}

// ---------------------------------------------------------------------------
// serde_json
// ---------------------------------------------------------------------------
/// A parsed document of `serde_json`.
#[verifier::external_type_specification]
#[verifier::external_body]
pub struct ExValue(serde_json::Value);

/// What `serde_json` reports for a text that is not a document.
#[verifier::external_type_specification]
#[verifier::external_body]
pub struct ExError(serde_json::Error);

/// The number that `serde_json::Number::from` makes of a `u64`.
pub uninterp spec fn number_of(n: u64) -> serde_json::Number;

/// What `serde_json::Number::as_u64` gives for a number.
pub uninterp spec fn number_as_u64(n: serde_json::Number) -> Option<u64>;

/// What a `serde_json::Value` holds: a tree of members and elements down to the plain values.
pub uninterp spec fn value_contents(v: serde_json::Value) -> JsonV;

/// The compact text that `serde_json::to_string` writes for a value.
pub uninterp spec fn json_text(v: JsonV) -> Seq<char>;

/// The value that `serde_json::from_str` reads from a text, if the text is a document.
pub uninterp spec fn json_parse(s: Seq<char>) -> Option<JsonV>;

/// The outermost level of a document.
pub enum Shape {
    Null,
    Bool(bool),
    Number(serde_json::Number),
    String(String),
    Array(Vec<serde_json::Value>),
    Object(Vec<(String, serde_json::Value)>),
}

/// No two members have the same key.
pub open spec fn distinct_keys(es: Seq<(String, serde_json::Value)>) -> bool {
    forall|i: int, j: int| 0 <= i < j < es.len() ==> (#[trigger] es[i]).0@ != (#[trigger] es[j]).0@
}

/// The shape is the outermost level of the value.
pub open spec fn shape_of(s: Shape, v: JsonV) -> bool {
    match s {
        Shape::Null => v == JsonV::Null,
        Shape::Bool(b) => v == JsonV::Bool(b),
        Shape::Number(n) => v == JsonV::Number(n),
        Shape::String(t) => v == JsonV::String(t@),
        Shape::Array(a) => v is Array && v->Array_0.len() == a@.len() && forall|i: int|
            0 <= i < a@.len() ==> v->Array_0[i] == value_contents(#[trigger] a@[i]),
        Shape::Object(es) => {
            &&& v is Object
            &&& distinct_keys(es@)
            &&& v->Object_0.dom().finite()
            &&& forall|i: int|
                0 <= i < es@.len() ==> v->Object_0.contains_key((#[trigger] es@[i]).0@)
                    && v->Object_0[es@[i].0@] == value_contents(es@[i].1)
            &&& forall|k: Seq<char>| #[trigger]
                v->Object_0.contains_key(k) ==> exists|i: int|
                    0 <= i < es@.len() && (#[trigger] es@[i]).0@ == k
        },
    }
}

/// `serde_json::Number::clone`, derived there, gives the same number.
pub assume_specification[ <serde_json::Number as Clone>::clone ](n: &serde_json::Number) -> (r:
    serde_json::Number)
    ensures
        r == *n,
;

/// `serde_json::Number::from` on a `u64`: the number is named, and it reads back as that `u64`.
#[verifier::external_body]
fn number_from(n: u64) -> (r: serde_json::Number)
    ensures
        r == number_of(n),
        number_as_u64(r) == Some(n),
{
    serde_json::Number::from(n)
}

/// `serde_json::Number::as_u64`: the number as a `u64`, where it is a whole number in that range.
#[verifier::external_body]
fn number_to_u64(n: &serde_json::Number) -> (r: Option<u64>)
    ensures
        r == number_as_u64(*n),
{
    n.as_u64()
}

/// The variants of `serde_json::Value`, built: the document holds what the shape holds.
#[verifier::external_body]
fn value_from_shape(s: Shape) -> (r: serde_json::Value)
    requires
        s matches Shape::Object(es) ==> distinct_keys(es@),
    ensures
        shape_of(s, value_contents(r)),
{
    match s {
        Shape::Null => serde_json::Value::Null,
        Shape::Bool(b) => serde_json::Value::Bool(b),
        Shape::Number(n) => serde_json::Value::Number(n),
        Shape::String(t) => serde_json::Value::String(t),
        Shape::Array(a) => serde_json::Value::Array(a),
        Shape::Object(es) => serde_json::Value::Object(es.into_iter().collect()),
    }
}

/// The variants of `serde_json::Value`, told apart: the shape holds what the document holds.
#[verifier::external_body]
fn value_into_shape(v: serde_json::Value) -> (r: Shape)
    ensures
        shape_of(r, value_contents(v)),
{
    match v {
        serde_json::Value::Null => Shape::Null,
        serde_json::Value::Bool(b) => Shape::Bool(b),
        serde_json::Value::Number(n) => Shape::Number(n),
        serde_json::Value::String(t) => Shape::String(t),
        serde_json::Value::Array(a) => Shape::Array(a),
        serde_json::Value::Object(m) => Shape::Object(m.into_iter().collect()),
    }
}

/// `serde_json::to_string` on a document: it succeeds, and the text is named. The members of an
/// object are written in the order of their keys, so that the text depends on what the document
/// holds alone. As control characters are written escaped and no white space is put in, there
/// is no line break in it.
#[verifier::external_body]
fn value_to_string(v: &serde_json::Value) -> (r: Result<String, serde_json::Error>)
    ensures
        r is Ok,
        r->Ok_0@ == json_text(value_contents(*v)),
        forall|i: int|
            0 <= i < r->Ok_0@.len() ==> #[trigger] r->Ok_0@[i] != '\n' && r->Ok_0@[i] != '\r',
{
    serde_json::to_string(v)
}

/// `serde_json::from_str` into a document: the outcome is named.
#[verifier::external_body]
fn value_from_str(s: &str) -> (r: Result<serde_json::Value, serde_json::Error>)
    ensures
        match r {
            Ok(v) => json_parse(s@) == Some(value_contents(v)),
            Err(_) => json_parse(s@) is None,
        },
{
    serde_json::from_str(s)
}

/// The document that holds the value.
fn encode(j: &Json) -> (r: serde_json::Value)
    ensures
        value_contents(r) == j@,
    decreases j,
{
    match j {
        Json::Null => value_from_shape(Shape::Null),
        Json::Bool(b) => value_from_shape(Shape::Bool(*b)),
        Json::Number(n) => value_from_shape(Shape::Number(n.clone())),
        Json::String(s) => value_from_shape(Shape::String(s.clone())),
        Json::Array(v) => {
            let mut out: Vec<serde_json::Value> = Vec::new();
            let n: usize = v.len();
            let mut i: usize = 0;
            while i < n
                invariant
                    n == v@.len(),
                    i <= n,
                    out@.len() == i,
                    decreases_to!(j => v),
                    forall|k: int|
                        0 <= k < i ==> value_contents(#[trigger] out@[k]) == v@[k].view(),
                decreases n - i,
            {
                assert(decreases_to!(v => v@[i as int]));
                out.push(encode(&v[i]));
                i += 1;
            }
            let ghost done = out@;
            let r = value_from_shape(Shape::Array(out));
            proof {
                lemma_view_parts(*j);
                assert forall|k: int| 0 <= k < done.len() implies value_contents(r)->Array_0[k]
                    == json_seq(v@)[k] by {
                    assert(value_contents(done[k]) == v@[k].view());
                }
                assert(value_contents(r)->Array_0 =~= json_seq(v@));
            }
            r
        },
        Json::Object(m) => {
            let mut out: Vec<(String, serde_json::Value)> = Vec::new();
            let n: usize = m.len();
            let mut i: usize = 0;
            while i < n
                invariant
                    n == m.keys().len(),
                    i <= n,
                    out@.len() == i,
                    decreases_to!(j => m),
                    m.keys().no_duplicates(),
                    forall|k: Seq<char>| #[trigger]
                        m@.contains_key(k) <==> m.keys().contains(k),
                    forall|k: int|
                        0 <= k < i ==> (#[trigger] out@[k]).0@ == m.keys()[k]
                            && value_contents(out@[k].1) == m@[m.keys()[k]].view(),
                decreases n - i,
            {
                let (key, value) = m.entry(i);
                proof {
                    lemma_value_below(*m, key@);
                }
                out.push((key.clone(), encode(value)));
                i += 1;
            }
            proof {
                assert forall|a: int, b: int| 0 <= a < b < out@.len() implies (
                #[trigger] out@[a]).0@ != (#[trigger] out@[b]).0@ by {
                    assert(m.keys()[a] != m.keys()[b]);
                }
            }
            let ghost done = out@;
            let r = value_from_shape(Shape::Object(out));
            proof {
                lemma_view_parts(*j);
                let got = value_contents(r)->Object_0;
                let want = json_map(m@);
                assert forall|k: Seq<char>| got.contains_key(k) <==> want.contains_key(k) by {
                    if got.contains_key(k) {
                        let a = choose|a: int| 0 <= a < done.len() && (#[trigger] done[a]).0@ == k;
                        assert(m.keys()[a] == k);
                    }
                    if want.contains_key(k) {
                        let a = choose|a: int| 0 <= a < m.keys().len() && m.keys()[a] == k;
                        assert(done[a].0@ == k);
                    }
                }
                assert forall|k: Seq<char>| got.contains_key(k) implies got[k] == want[k] by {
                    let a = choose|a: int| 0 <= a < done.len() && (#[trigger] done[a]).0@ == k;
                    assert(m.keys()[a] == k);
                }
                assert(got =~= want);
            }
            r
        },
    }
}

/// The value that the document holds.
fn decode(v: serde_json::Value) -> (r: Json)
    ensures
        r@ == value_contents(v),
    decreases value_contents(v),
{
    let ghost all = value_contents(v);
    match value_into_shape(v) {
        Shape::Null => Json::Null,
        Shape::Bool(b) => Json::Bool(b),
        Shape::Number(n) => Json::Number(n),
        Shape::String(s) => Json::String(s),
        Shape::Array(a) => {
            let ghost items = a@;
            let mut rest = a;
            let mut out: Vec<Json> = Vec::new();
            while rest.len() > 0
                invariant
                    all is Array,
                    all == value_contents(v),
                    all->Array_0.len() == items.len(),
                    rest@.len() + out@.len() == items.len(),
                    rest@ == items.skip(out@.len() as int),
                    forall|i: int|
                        0 <= i < items.len() ==> all->Array_0[i] == value_contents(
                            #[trigger] items[i],
                        ),
                    forall|k: int|
                        0 <= k < out@.len() ==> (#[trigger] out@[k]).view() == value_contents(
                            items[k],
                        ),
                decreases rest@.len(),
            {
                let ghost at = out@.len() as int;
                assert(rest@[0] == items[at]);
                let head = rest.remove(0);
                proof {
                    assert(head == items[at]);
                    assert(decreases_to!(all->Array_0 => all->Array_0[at]));
                }
                out.push(decode(head));
                assert(rest@ =~= items.skip(at + 1));
            }
            let r = Json::Array(out);
            proof {
                lemma_view_parts(r);
                assert(json_seq(out@) =~= all->Array_0);
            }
            r
        },
        Shape::Object(es) => {
            let ghost items = es@;
            let mut rest = es;
            let mut out: StrMap<Json> = StrMap::new();
            let ghost mut at: int = 0;
            while rest.len() > 0
                invariant
                    all is Object,
                    all == value_contents(v),
                    all->Object_0.dom().finite(),
                    distinct_keys(items),
                    0 <= at <= items.len(),
                    rest@ == items.skip(at),
                    forall|i: int|
                        0 <= i < items.len() ==> all->Object_0.contains_key((#[trigger] items[i]).0@)
                            && all->Object_0[items[i].0@] == value_contents(items[i].1),
                    forall|k: Seq<char>| #[trigger]
                        out@.contains_key(k) ==> exists|i: int|
                            0 <= i < at && (#[trigger] items[i]).0@ == k,
                    forall|i: int|
                        0 <= i < at ==> out@.contains_key((#[trigger] items[i]).0@)
                            && out@[items[i].0@].view() == value_contents(items[i].1),
                decreases rest@.len(),
            {
                assert(rest@[0] == items[at]);
                let head = rest.remove(0);
                let ghost before = out@;
                proof {
                    assert(decreases_to!(all => all->Object_0));
                    assert(decreases_to!(all->Object_0 => all->Object_0[items[at].0@]));
                }
                let value = decode(head.1);
                out.insert(head.0, value);
                proof {
                    assert forall|k: Seq<char>| #[trigger]
                        out@.contains_key(k) implies exists|i: int|
                        0 <= i < at + 1 && (#[trigger] items[i]).0@ == k by {
                        if k == items[at].0@ {
                        } else {
                            assert(before.contains_key(k));
                        }
                    }
                    at = at + 1;
                    assert(rest@ =~= items.skip(at));
                }
            }
            let r = Json::Object(out);
            proof {
                lemma_view_parts(r);
                assert(at == items.len());
                let got = json_map(out@);
                let want = all->Object_0;
                assert forall|k: Seq<char>| got.contains_key(k) <==> want.contains_key(k) by {
                    if want.contains_key(k) {
                        let i = choose|i: int| 0 <= i < items.len() && (#[trigger] items[i]).0@ == k;
                        assert(out@.contains_key(items[i].0@));
                    }
                    if got.contains_key(k) {
                        assert(out@.contains_key(k));
                    }
                }
                assert forall|k: Seq<char>| got.contains_key(k) implies got[k] == want[k] by {
                    assert(out@.contains_key(k));
                    let i = choose|i: int| 0 <= i < at && (#[trigger] items[i]).0@ == k;
                }
                assert(got =~= want);
            }
            r
        },
    }
}

impl Json {
    /// The compact text of the value: one line.
    pub fn to_text(&self) -> (r: String)
        ensures
            r@ == json_text(self@),
            forall|i: int| 0 <= i < r@.len() ==> #[trigger] r@[i] != '\n' && r@[i] != '\r',
    {
        value_to_string(&encode(self)).unwrap()
    }

    /// The value that a text writes, if the text is a JSON document.
    pub fn parse(s: &str) -> (r: Option<Json>)
        ensures
            r is Some <==> json_parse(s@) is Some,
            r matches Some(j) ==> json_parse(s@) == Some(j@),
    {
        match value_from_str(s) {
            Ok(v) => Some(decode(v)),
            Err(_) => None,
        }
    }

    /// The number as a `u64`, where it is a whole number in that range.
    pub fn as_u64(&self) -> (r: Option<u64>)
        ensures
            r == (match self@ {
                JsonV::Number(n) => number_as_u64(n),
                _ => None,
            }),
    {
        match self {
            Json::Number(n) => number_to_u64(n),
            _ => None,
        }
    }
}

} // verus!
