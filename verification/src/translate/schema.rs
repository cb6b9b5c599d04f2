//! Tool schemas in the form that upstreams accept.
use crate::json::{json_map, json_seq, lemma_take_contains, lemma_view_parts, Json, JsonV};
use crate::strmap::{lemma_value_below, StrMap};
use crate::text::same;
use vstd::prelude::*;

verus! {

/// The keys under which a schema holds one schema.
pub open spec fn is_schema_key(k: Seq<char>) -> bool {
    k == "items"@ || k == "additionalProperties"@ || k == "contains"@ || k == "not"@ || k == "if"@
        || k == "then"@ || k == "else"@
}

/// The keys under which a schema holds a list of schemas.
pub open spec fn is_schema_list_key(k: Seq<char>) -> bool {
    k == "allOf"@ || k == "anyOf"@ || k == "oneOf"@ || k == "prefixItems"@
}

/// The entry stays: it is no null and no `uri` format.
pub open spec fn stays(k: Seq<char>, v: JsonV) -> bool {
    v != JsonV::Null && !(k == "format"@ && v == JsonV::String("uri"@))
}

/// The schema describes an object.
pub open spec fn describes_object(m: Map<Seq<char>, JsonV>) -> bool {
    m.contains_key("type"@) && m["type"@] == JsonV::String("object"@)
}

/// A schema in normal form, at every depth: without nulls and `uri` formats, with a list
/// under `required` wherever there is one, and with one in every object schema.
pub open spec fn normalized(v: JsonV) -> JsonV
    decreases v, 0int,
{
    match v {
        JsonV::Object(m) => JsonV::Object(
            Map::new(
                |k: Seq<char>|
                    (m.contains_key(k) && stays(k, m[k])) || (k == "required"@ && describes_object(
                        m,
                    )),
                |k: Seq<char>|
                    if m.contains_key(k) && stays(k, m[k]) {
                        normalized_field(k, m[k])
                    } else {
                        JsonV::Array(seq![])
                    },
            ),
        ),
        JsonV::Array(s) => JsonV::Array(
            Seq::new(
                s.len(),
                |i: int|
                    if 0 <= i < s.len() {
                        normalized(s[i])
                    } else {
                        JsonV::Null
                    },
            ),
        ),
        other => other,
    }
}

/// The value under a key of a schema, in normal form.
pub open spec fn normalized_field(k: Seq<char>, v: JsonV) -> JsonV
    decreases v, 1int,
{
    if k == "required"@ {
        if v is Array {
            v
        } else {
            JsonV::Array(seq![])
        }
    } else if k == "properties"@ {
        normalized_values(v)
    } else if is_schema_key(k) || (is_schema_list_key(k) && v is Array) {
        normalized(v)
    } else {
        v
    }
}

/// An object of schemas, each in normal form.
pub open spec fn normalized_values(v: JsonV) -> JsonV
    decreases v, 0int,
{
    match v {
        JsonV::Object(m) => JsonV::Object(
            Map::new(
                |k: Seq<char>| m.contains_key(k),
                |k: Seq<char>|
                    if m.contains_key(k) {
                        normalized(m[k])
                    } else {
                        JsonV::Null
                    },
            ),
        ),
        other => other,
    }
}

fn is_one_schema(key: &str) -> (r: bool)
    ensures
        r == is_schema_key(key@),
{
    same(key, "items") || same(key, "additionalProperties") || same(key, "contains") || same(
        key,
        "not",
    ) || same(key, "if") || same(key, "then") || same(key, "else")
}

fn is_schema_list(key: &str) -> (r: bool)
    ensures
        r == is_schema_list_key(key@),
{
    same(key, "allOf") || same(key, "anyOf") || same(key, "oneOf") || same(key, "prefixItems")
}

fn entry_stays(key: &str, value: &Json) -> (r: bool)
    ensures
        r == stays(key@, value@),
{
    match value {
        Json::Null => false,
        Json::String(s) => !(same(key, "format") && same(s.as_str(), "uri")),
        _ => true,
    }
}

fn normal_values(v: &Json) -> (r: Json)
    ensures
        r@ == normalized_values(v@),
    decreases v, 0int,
{
    match v {
        Json::Object(m) => {
            let mut out: StrMap<Json> = StrMap::new();
            let n: usize = m.len();
            let mut i: usize = 0;
            while i < n
                invariant
                    n == m.keys().len(),
                    i <= n,
                    decreases_to!(v => m),
                    m.keys().no_duplicates(),
                    forall|k: Seq<char>| #[trigger]
                        m@.contains_key(k) <==> m.keys().contains(k),
                    forall|k: Seq<char>| #[trigger]
                        out@.contains_key(k) <==> m.keys().take(i as int).contains(k),
                    forall|k: Seq<char>| #[trigger]
                        out@.contains_key(k) ==> out@[k].view() == normalized(m@[k].view()),
                decreases n - i,
            {
                let (key, value) = m.entry(i);
                proof {
                    lemma_value_below(*m, key@);
                    lemma_take_contains(m.keys(), i as int);
                }
                out.insert(key.clone(), normal_form(value));
                i += 1;
            }
            let r = Json::Object(out);
            proof {
                lemma_view_parts(r);
                lemma_view_parts(*v);
                assert(m.keys().take(n as int) =~= m.keys());
                assert(json_map(out@) =~= normalized_values(v@)->Object_0);
            }
            r
        },
        _ => v.copy(),
    }
}

fn normal_field(key: &str, value: &Json) -> (r: Json)
    ensures
        r@ == normalized_field(key@, value@),
    decreases value, 1int,
{
    let is_array = match value {
        Json::Array(_) => true,
        _ => false,
    };
    if same(key, "required") {
        if is_array {
            value.copy()
        } else {
            Json::empty_array()
        }
    } else if same(key, "properties") {
        normal_values(value)
    } else if is_one_schema(key) || (is_schema_list(key) && is_array) {
        normal_form(value)
    } else {
        value.copy()
    }
}

fn normal_form(v: &Json) -> (r: Json)
    ensures
        r@ == normalized(v@),
    decreases v, 0int,
{
    match v {
        Json::Object(m) => {
            let ghost g = json_map(m@);
            let mut out: StrMap<Json> = StrMap::new();
            let n: usize = m.len();
            let mut i: usize = 0;
            while i < n
                invariant
                    n == m.keys().len(),
                    i <= n,
                    decreases_to!(v => m),
                    g == json_map(m@),
                    m.keys().no_duplicates(),
                    forall|k: Seq<char>| #[trigger]
                        m@.contains_key(k) <==> m.keys().contains(k),
                    forall|k: Seq<char>| #[trigger]
                        out@.contains_key(k) <==> m.keys().take(i as int).contains(k) && stays(
                            k,
                            g[k],
                        ),
                    forall|k: Seq<char>| #[trigger]
                        out@.contains_key(k) ==> out@[k].view() == normalized_field(k, g[k]),
                decreases n - i,
            {
                let (key, value) = m.entry(i);
                proof {
                    lemma_value_below(*m, key@);
                    lemma_take_contains(m.keys(), i as int);
                    assert(g[key@] == value@);
                }
                if entry_stays(key.as_str(), value) {
                    out.insert(key.clone(), normal_field(key.as_str(), value));
                }
                i += 1;
            }
            proof {
                assert(m.keys().take(n as int) =~= m.keys());
                lemma_view_parts(*v);
                lemma_keys_apart();
            }
            if v.str_is("type", "object") && !out.contains_key("required") {
                out.insert("required".to_string(), Json::empty_array());
            }
            let r = Json::Object(out);
            proof {
                lemma_view_parts(r);
                assert(json_map(out@) =~= normalized(v@)->Object_0);
            }
            r
        },
        Json::Array(values) => {
            let mut out: Vec<Json> = Vec::new();
            let n: usize = values.len();
            let mut i: usize = 0;
            while i < n
                invariant
                    n == values@.len(),
                    i <= n,
                    out@.len() == i,
                    decreases_to!(v => values),
                    forall|k: int|
                        0 <= k < i ==> (#[trigger] out@[k]).view() == normalized(values@[k].view()),
                decreases n - i,
            {
                assert(decreases_to!(values => values@[i as int]));
                out.push(normal_form(&values[i]));
                i += 1;
            }
            let r = Json::Array(out);
            proof {
                lemma_view_parts(r);
                lemma_view_parts(*v);
                assert(json_seq(out@) =~= normalized(v@)->Array_0);
            }
            r
        },
        _ => v.copy(),
    }
}

/// The schema in the form that upstreams accept.
pub fn normalize_schema(schema: Json) -> (r: Json)
    ensures
        r@ == normalized(schema@),
{
    normal_form(&schema)
}

proof fn lemma_keys_apart()
    ensures
        "required"@ != "format"@,
        "required"@ != "properties"@,
        "required"@ != "type"@,
        "properties"@ != "format"@,
        "properties"@ != "type"@,
        !is_schema_key("required"@),
        !is_schema_key("format"@),
        !is_schema_key("type"@),
        !is_schema_key("properties"@),
        !is_schema_list_key("required"@),
        !is_schema_list_key("format"@),
        !is_schema_list_key("type"@),
        !is_schema_list_key("properties"@),
        "type"@ != "format"@,
{
    reveal_strlit("required");
    reveal_strlit("format");
    reveal_strlit("properties");
    reveal_strlit("type");
    reveal_strlit("items");
    reveal_strlit("additionalProperties");
    reveal_strlit("contains");
    reveal_strlit("not");
    reveal_strlit("if");
    reveal_strlit("then");
    reveal_strlit("else");
    reveal_strlit("allOf");
    reveal_strlit("anyOf");
    reveal_strlit("oneOf");
    reveal_strlit("prefixItems");
    assert("required"@[0] == 'r' && "items"@[0] == 'i' && "additionalProperties"@[0] == 'a');
    assert("contains"@[0] == 'c' && "not"@[0] == 'n' && "if"@[0] == 'i' && "then"@[0] == 't');
    assert("else"@[0] == 'e' && "allOf"@[0] == 'a' && "anyOf"@[0] == 'a' && "oneOf"@[0] == 'o');
    assert("prefixItems"@[0] == 'p');
    assert("properties"@[0] == 'p' && "type"@[0] == 't' && "format"@[0] == 'f' && "then"@[1] == 'h'
        && "type"@[1] == 'y' && "properties"@[2] == 'o' && "prefixItems"@[2] == 'e');
}

proof fn lemma_never_null(v: JsonV)
    requires
        v != JsonV::Null,
    ensures
        normalized(v) != JsonV::Null,
        normalized_values(v) != JsonV::Null,
        forall|k: Seq<char>| #[trigger] normalized_field(k, v) != JsonV::Null,
{
}

proof fn lemma_values_stable(v: JsonV)
    ensures
        normalized_values(normalized_values(v)) == normalized_values(v),
    decreases v, 0int,
{
    if let JsonV::Object(m) = v {
        let n = normalized_values(v)->Object_0;
        let nn = normalized_values(JsonV::Object(n))->Object_0;
        assert forall|k: Seq<char>| m.contains_key(k) implies #[trigger] nn[k] == n[k] by {
            law_normal_form_is_stable(m[k]);
        }
        assert(nn =~= n);
    }
}

proof fn lemma_field_stable(k: Seq<char>, v: JsonV)
    ensures
        normalized_field(k, normalized_field(k, v)) == normalized_field(k, v),
    decreases v, 1int,
{
    lemma_values_stable(v);
    law_normal_form_is_stable(v);
}

/// Normalizing a schema that is in normal form changes nothing.
pub proof fn law_normal_form_is_stable(v: JsonV)
    ensures
        normalized(normalized(v)) == normalized(v),
    decreases v, 0int,
{
    match v {
        JsonV::Object(m) => {
            lemma_keys_apart();
            let n = normalized(v)->Object_0;
            let nn = normalized(JsonV::Object(n))->Object_0;
            assert forall|k: Seq<char>| #[trigger] n.contains_key(k) implies stays(k, n[k])
                && normalized_field(k, n[k]) == n[k] by {
                if m.contains_key(k) && stays(k, m[k]) {
                    lemma_field_stable(k, m[k]);
                    lemma_never_null(m[k]);
                }
            }
            if describes_object(n) {
                assert(n.contains_key("type"@));
                assert(m.contains_key("type"@) && stays("type"@, m["type"@]));
                assert(normalized_field("type"@, m["type"@]) == m["type"@]);
                assert(describes_object(m));
                assert(n.contains_key("required"@));
            }
            assert forall|k: Seq<char>| #[trigger] nn.contains_key(k) <==> n.contains_key(k) by {}
            assert(nn =~= n);
        },
        JsonV::Array(s) => {
            let n = normalized(v)->Array_0;
            let nn = normalized(JsonV::Array(n))->Array_0;
            assert forall|i: int| 0 <= i < s.len() implies #[trigger] nn[i] == n[i] by {
                law_normal_form_is_stable(s[i]);
            }
            assert(nn =~= n);
        },
        _ => {},
    }
}

/// The required fields stay required: a list under `required` is kept as it is, anything else
/// there becomes an empty list, and an object schema without one gets an empty one.
pub proof fn law_required_is_kept(m: Map<Seq<char>, JsonV>)
    ensures
        ({
            let n = normalized(JsonV::Object(m));
            if m.contains_key("required"@) && m["required"@] is Array {
                n.get("required"@) == Some(m["required"@])
            } else if m.contains_key("required"@) && m["required"@] != JsonV::Null {
                n.get("required"@) matches Some(JsonV::Array(a)) && a.len() == 0
            } else if m.contains_key("type"@) && m["type"@] == JsonV::String("object"@) {
                n.get("required"@) matches Some(JsonV::Array(a)) && a.len() == 0
            } else {
                n.get("required"@) is None
            }
        }),
{
    lemma_keys_apart();
    let v = m["required"@];
    assert(normalized_field("required"@, v) == if v is Array {
        v
    } else {
        JsonV::Array(seq![])
    });
}

/// Every other entry is there exactly where it was one, unless it was null or a `uri` format;
/// and none is there that was not.
pub proof fn law_entries_are_kept(m: Map<Seq<char>, JsonV>, k: Seq<char>)
    requires
        k != "required"@,
    ensures
        normalized(JsonV::Object(m)).get(k) is Some <==> m.contains_key(k) && m[k] != JsonV::Null
            && !(k == "format"@ && m[k] == JsonV::String("uri"@)),
{
}

/// An entry that holds no schema is kept as it is.
pub proof fn law_plain_entries_are_unchanged(m: Map<Seq<char>, JsonV>, k: Seq<char>)
    requires
        normalized(JsonV::Object(m)).get(k) is Some,
        k != "required"@,
        k != "properties"@,
        k != "items"@,
        k != "additionalProperties"@,
        k != "contains"@,
        k != "not"@,
        k != "if"@,
        k != "then"@,
        k != "else"@,
        k != "allOf"@,
        k != "anyOf"@,
        k != "oneOf"@,
        k != "prefixItems"@,
    ensures
        normalized(JsonV::Object(m)).get(k) == Some(m[k]),
{
    assert(normalized_field(k, m[k]) == m[k]);
}

/// A schema within a schema is brought into normal form in its place: under the keys for one,
/// in the lists of several, and under each property, none of which is lost or added.
pub proof fn law_schemas_within_are_normal(m: Map<Seq<char>, JsonV>, k: Seq<char>)
    requires
        m.contains_key(k),
        m[k] != JsonV::Null,
    ensures
        ({
            let n = normalized(JsonV::Object(m)).get(k);
            &&& k == "items"@ || k == "additionalProperties"@ || k == "contains"@ || k == "not"@ || k
                == "if"@ || k == "then"@ || k == "else"@ ==> n == Some(normalized(m[k]))
            &&& k == "allOf"@ || k == "anyOf"@ || k == "oneOf"@ || k == "prefixItems"@ ==> match m[k] {
                JsonV::Array(a) => n matches Some(JsonV::Array(b)) && b.len() == a.len()
                    && forall|i: int| 0 <= i < a.len() ==> #[trigger] b[i] == normalized(a[i]),
                other => n == Some(other),
            }
            &&& k == "properties"@ ==> match m[k] {
                JsonV::Object(p) => n matches Some(JsonV::Object(q)) && forall|x: Seq<char>|
                    (#[trigger] q.contains_key(x) <==> p.contains_key(x)) && (p.contains_key(x)
                        ==> q[x] == normalized(p[x])),
                other => n == Some(other),
            }
        }),
{
    lemma_keys_apart();
    lemma_schema_keys_apart();
    let v = m[k];
    let n = normalized(JsonV::Object(m)).get(k);
    if is_schema_key(k) {
        assert(normalized_field(k, v) == normalized(v));
    }
    if is_schema_list_key(k) {
        assert(normalized_field(k, v) == if v is Array {
            normalized(v)
        } else {
            v
        });
        assert(n == Some(normalized_field(k, v)));
        law_other_values_are_kept(v);
    }
    if k == "properties"@ {
        assert(normalized_field(k, v) == normalized_values(v));
        assert(n == Some(normalized_values(v)));
        if let JsonV::Object(p) = v {
            let q = normalized_values(v)->Object_0;
            assert forall|x: Seq<char>|
                (#[trigger] q.contains_key(x) <==> p.contains_key(x)) && (p.contains_key(x) ==> q[x]
                    == normalized(p[x])) by {}
        }
    }
}

proof fn lemma_schema_keys_apart()
    ensures
        forall|k: Seq<char>| #[trigger] is_schema_list_key(k) ==> !is_schema_key(k) && k
            != "format"@ && k != "required"@ && k != "properties"@,
        forall|k: Seq<char>| #[trigger] is_schema_key(k) ==> k != "format"@ && k != "required"@ && k
            != "properties"@,
{
    lemma_keys_apart();
    reveal_strlit("items");
    reveal_strlit("additionalProperties");
    reveal_strlit("contains");
    reveal_strlit("not");
    reveal_strlit("if");
    reveal_strlit("then");
    reveal_strlit("else");
    reveal_strlit("allOf");
    reveal_strlit("anyOf");
    reveal_strlit("oneOf");
    reveal_strlit("prefixItems");
    assert("allOf"@.len() == 5 && "anyOf"@.len() == 5 && "oneOf"@.len() == 5 && "items"@.len() == 5
        && "prefixItems"@.len() == 11);
    assert("allOf"@[0] == 'a' && "anyOf"@[0] == 'a' && "oneOf"@[0] == 'o' && "items"@[0] == 'i');
    assert("contains"@.len() == 8 && "not"@.len() == 3 && "if"@.len() == 2 && "then"@.len() == 4
        && "else"@.len() == 4 && "additionalProperties"@.len() == 20);
}

/// A list is brought into normal form item by item, and anything but lists and objects is in
/// normal form.
pub proof fn law_other_values_are_kept(v: JsonV)
    ensures
        match v {
            JsonV::Object(_) => normalized(v) is Object,
            JsonV::Array(a) => normalized(v) matches JsonV::Array(b) && b.len() == a.len()
                && forall|i: int| 0 <= i < a.len() ==> #[trigger] b[i] == normalized(a[i]),
            other => normalized(v) == other,
        },
{
}

} // verus!
