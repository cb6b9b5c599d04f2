//! The vector store that holds skills and facts: what is sent to it, and its identifiers.
use crate::json::{int_value, json_seq, json_text, number_as_u64, Json, JsonV};
use crate::numerals::{parse_u64, parse_unsigned};
use crate::text::{strip_end, strip_end_text, texts};
use std::collections::hash_map::DefaultHasher;
use std::hash::{Hash, Hasher};
use vstd::prelude::*;
use vstd::std_specs::hash::DefaultHasherAdditionalSpecFns;

verus! {

/// What is stored of a skill.
#[derive(Debug, PartialEq)]
pub struct SkillPayload {
    pub tier: String,
    pub title: String,
    pub when_to_use: String,
    pub body: String,
    /// When it was promoted to `verified`, in seconds.
    pub verified_at: Option<u64>,
    /// When it was first written, in seconds.
    pub created_at: Option<u64>,
    /// When it was last tried and not corroborated, in seconds.
    pub verify_attempted_at: Option<u64>,
}

impl Default for SkillPayload {
    fn default() -> (r: Self)
        ensures
            r.tier@.len() == 0,
            r.title@.len() == 0,
            r.when_to_use@.len() == 0,
            r.body@.len() == 0,
            r.verified_at is None,
            r.created_at is None,
            r.verify_attempted_at is None,
    {
        SkillPayload {
            tier: String::new(),
            title: String::new(),
            when_to_use: String::new(),
            body: String::new(),
            verified_at: None,
            created_at: None,
            verify_attempted_at: None,
        }
    }
}

/// One collection of a store.
#[derive(Debug, PartialEq)]
pub struct QdrantClient {
    base: String,
    collection: String,
}

/// The address of something in a collection.
pub open spec fn address(base: Seq<char>, collection: Seq<char>, end: Seq<char>) -> Seq<char> {
    base + "/collections/"@ + collection + end
}

/// A filter on a tier.
pub open spec fn tier_match(tier: Seq<char>) -> JsonV {
    JsonV::Object(
        map![
            "key"@ => JsonV::String("tier"@),
            "match"@ => JsonV::Object(map!["value"@ => JsonV::String(tier)]),
        ],
    )
}

/// The body of a search: tiers restrict it to any of them, none leave it open.
pub open spec fn search_value(
    vector: JsonV,
    limit: u32,
    min_score: JsonV,
    tiers: Seq<Seq<char>>,
) -> JsonV {
    let base = map![
        "vector"@ => vector,
        "limit"@ => int_value(limit as u64),
        "with_payload"@ => JsonV::Bool(true),
        "score_threshold"@ => min_score,
    ];
    JsonV::Object(
        if tiers.len() == 0 {
            base
        } else {
            base.insert(
                "filter"@,
                JsonV::Object(
                    map![
                        "should"@ => JsonV::Array(
                            Seq::new(tiers.len(), |i: int| tier_match(tiers[i])),
                        ),
                    ],
                ),
            )
        },
    )
}

/// The body of a walk through one tier.
pub open spec fn scroll_value(tier: Seq<char>, limit: u32) -> JsonV {
    JsonV::Object(
        map![
            "limit"@ => int_value(limit as u64),
            "with_payload"@ => JsonV::Bool(true),
            "with_vector"@ => JsonV::Bool(false),
            "filter"@ => JsonV::Object(map!["must"@ => JsonV::Array(seq![tier_match(tier)])]),
        ],
    )
}

/// The body of a search that gives the vectors too, or leaves them out.
pub open spec fn raw_search_value(
    vector: JsonV,
    limit: u32,
    min_score: JsonV,
    tiers: Seq<Seq<char>>,
    with_vector: bool,
) -> JsonV {
    JsonV::Object(
        search_value(vector, limit, min_score, tiers)->Object_0.insert(
            "with_vector"@,
            JsonV::Bool(with_vector),
        ),
    )
}

/// The body of a walk through all points, with their vectors.
pub open spec fn scroll_all_value(limit: u32) -> JsonV {
    JsonV::Object(
        map![
            "limit"@ => int_value(limit as u64),
            "with_payload"@ => JsonV::Bool(true),
            "with_vector"@ => JsonV::Bool(true),
        ],
    )
}

fn make_match(tier: &str) -> (r: Json)
    ensures
        r@ == tier_match(tier@),
{
    let value = Json::empty_object().with("value", Json::text(tier));
    Json::empty_object().with("key", Json::text("tier")).with("match", value)
}

fn make_points(id: u64) -> (r: Json)
    ensures
        r@ == JsonV::Array(seq![int_value(id)]),
{
    let mut points: Vec<Json> = Vec::new();
    points.push(Json::whole(id));
    assert(json_seq(points@) =~= seq![int_value(id)]);
    Json::list(points)
}

impl QdrantClient {
    /// The base URL, without slashes at its end.
    pub closed spec fn base(self) -> Seq<char> {
        self.base@
    }

    /// The name of the collection.
    pub closed spec fn name(self) -> Seq<char> {
        self.collection@
    }

    /// The collection of that name at that base URL.
    pub fn new(base: &str, collection: &str) -> (r: QdrantClient)
        ensures
            r.base() == strip_end(base@, "/"@),
            r.name() == collection@,
    {
        QdrantClient { base: strip_end_text(base, "/"), collection: collection.to_string() }
    }

    fn url(&self, end: &str) -> (r: String)
        ensures
            r@ == address(self.base(), self.name(), end@),
    {
        let mut url = self.base.clone();
        url.append("/collections/");
        url.append(self.collection.as_str());
        url.append(end);
        url
    }

    /// Where and with what a search is posted: near a vector, above a score.
    pub fn search(&self, vector: Json, top_k: u32, min_score: Json, tiers: &Vec<String>) -> (r: (
        String,
        Json,
    ))
        ensures
            r.0@ == address(self.base(), self.name(), "/points/search"@),
            r.1 is Object,
            r.1@ == search_value(vector@, top_k, min_score@, texts(tiers@)),
    {
        let base = Json::empty_object().with("vector", vector).with(
            "limit",
            Json::whole(top_k as u64),
        ).with("with_payload", Json::Bool(true)).with("score_threshold", min_score);
        let n: usize = tiers.len();
        if n == 0 {
            return (self.url("/points/search"), base);
        }
        let ghost all = texts(tiers@);
        let mut should: Vec<Json> = Vec::new();
        let mut i: usize = 0;
        while i < n
            invariant
                n == tiers@.len(),
                i <= n,
                all == texts(tiers@),
                should@.len() == i,
                forall|k: int| 0 <= k < i ==> (#[trigger] should@[k]).view() == tier_match(all[k]),
            decreases n - i,
        {
            should.push(make_match(tiers[i].as_str()));
            i += 1;
        }
        assert(json_seq(should@) =~= Seq::new(all.len(), |i: int| tier_match(all[i])));
        let filter = Json::empty_object().with("should", Json::list(should));
        (self.url("/points/search"), base.with("filter", filter))
    }

    /// Where and with what a search is posted that gives the vectors too, or leaves them out.
    pub fn search_raw(
        &self,
        vector: Json,
        limit: u32,
        min_score: Json,
        tiers: &Vec<String>,
        with_vector: bool,
    ) -> (r: (String, Json))
        ensures
            r.0@ == address(self.base(), self.name(), "/points/search"@),
            r.1@ == raw_search_value(vector@, limit, min_score@, texts(tiers@), with_vector),
    {
        let (url, body) = self.search(vector, limit, min_score, tiers);
        (url, body.with("with_vector", Json::Bool(with_vector)))
    }

    /// Where and with what a walk through all points, with their vectors, is posted.
    pub fn scroll_all_with_vectors(&self, limit: u32) -> (r: (String, Json))
        ensures
            r.0@ == address(self.base(), self.name(), "/points/scroll"@),
            r.1@ == scroll_all_value(limit),
    {
        let body = Json::empty_object().with("limit", Json::whole(limit as u64)).with(
            "with_payload",
            Json::Bool(true),
        ).with("with_vector", Json::Bool(true));
        (self.url("/points/scroll"), body)
    }

    /// Where and with what a walk through one tier is posted.
    pub fn scroll_tier(&self, tier: &str, limit: u32) -> (r: (String, Json))
        ensures
            r.0@ == address(self.base(), self.name(), "/points/scroll"@),
            r.1@ == scroll_value(tier@, limit),
    {
        let mut must: Vec<Json> = Vec::new();
        must.push(make_match(tier));
        assert(json_seq(must@) =~= seq![tier_match(tier@)]);
        let filter = Json::empty_object().with("must", Json::list(must));
        let body = Json::empty_object().with("limit", Json::whole(limit as u64)).with(
            "with_payload",
            Json::Bool(true),
        ).with("with_vector", Json::Bool(false)).with("filter", filter);
        (self.url("/points/scroll"), body)
    }

    /// Where and with what fields of a point are set; its other fields stay.
    pub fn set_payload(&self, id: u64, fields: Json) -> (r: (String, Json))
        ensures
            r.0@ == address(self.base(), self.name(), "/points/payload?wait=true"@),
            r.1@ == JsonV::Object(
                map!["payload"@ => fields@, "points"@ => JsonV::Array(seq![int_value(id)])],
            ),
    {
        let body = Json::empty_object().with("payload", fields).with("points", make_points(id));
        (self.url("/points/payload?wait=true"), body)
    }

    /// Where and with what a point is deleted.
    pub fn delete(&self, id: u64) -> (r: (String, Json))
        ensures
            r.0@ == address(self.base(), self.name(), "/points/delete?wait=true"@),
            r.1@ == JsonV::Object(map!["points"@ => JsonV::Array(seq![int_value(id)])]),
    {
        let body = Json::empty_object().with("points", make_points(id));
        (self.url("/points/delete?wait=true"), body)
    }

    /// Where the collection is looked for, and with what it is created there for vectors of
    /// that size.
    pub fn ensure_collection(&self, size: u64) -> (r: (String, Json))
        ensures
            r.0@ == address(self.base(), self.name(), ""@),
            r.1@ == JsonV::Object(
                map![
                    "vectors"@ => JsonV::Object(
                        map![
                            "size"@ => int_value(size),
                            "distance"@ => JsonV::String("Cosine"@),
                        ],
                    ),
                ],
            ),
    {
        let vectors = Json::empty_object().with("size", Json::whole(size)).with(
            "distance",
            Json::text("Cosine"),
        );
        (self.url(""), Json::empty_object().with("vectors", vectors))
    }

    /// Where and with what a point is written.
    pub fn upsert(&self, id: u64, vector: Json, payload: Json) -> (r: (String, Json))
        ensures
            r.0@ == address(self.base(), self.name(), "/points?wait=true"@),
            r.1@ == JsonV::Object(
                map![
                    "points"@ => JsonV::Array(
                        seq![
                            JsonV::Object(
                                map![
                                    "id"@ => int_value(id),
                                    "vector"@ => vector@,
                                    "payload"@ => payload@,
                                ],
                            ),
                        ],
                    ),
                ],
            ),
    {
        let point = Json::empty_object().with("id", Json::whole(id)).with("vector", vector).with(
            "payload",
            payload,
        );
        let ghost p = point@;
        let mut points: Vec<Json> = Vec::new();
        points.push(point);
        assert(json_seq(points@) =~= seq![p]);
        let body = Json::empty_object().with("points", Json::list(points));
        (self.url("/points?wait=true"), body)
    }
}

// ---------------------------------------------------------------------------
// Identifiers
// ---------------------------------------------------------------------------
/// The identifier of a point as a number: points are written with numbers.
pub open spec fn point_number(v: JsonV) -> Option<u64> {
    match v {
        JsonV::Number(n) => number_as_u64(n),
        JsonV::String(s) => match parse_unsigned(s, u64::MAX as nat) {
            Some(n) => Some(n as u64),
            None => None,
        },
        _ => None,
    }
}

/// The identifier of a point as a number.
pub fn id_as_u64(v: &Json) -> (r: Option<u64>)
    ensures
        r == point_number(v@),
{
    match v {
        Json::Number(_) => v.as_u64(),
        Json::String(s) => parse_u64(s.as_str()),
        _ => None,
    }
}

/// The identifier of a point as a text.
pub fn point_id_string(v: &Json) -> (r: String)
    ensures
        r@ == (match v@ {
            JsonV::String(s) => s,
            other => json_text(other),
        }),
{
    match v {
        Json::String(s) => s.clone(),
        _ => v.to_text(),
    }
}

/// The points whose identifier is a number, in order.
pub open spec fn numbered(points: Seq<(Json, SkillPayload)>) -> Seq<(u64, SkillPayload)>
    decreases points.len(),
{
    if points.len() == 0 {
        seq![]
    } else {
        let head = numbered(points.drop_last());
        match point_number(points.last().0@) {
            Some(id) => head.push((id, points.last().1)),
            None => head,
        }
    }
}

/// The points whose identifier is a number, in order.
pub fn numbered_points(points: Vec<(Json, SkillPayload)>) -> (r: Vec<(u64, SkillPayload)>)
    ensures
        r@ == numbered(points@),
{
    let ghost all = points@;
    let mut out: Vec<(u64, SkillPayload)> = Vec::new();
    assert(all.take(0) =~= Seq::<(Json, SkillPayload)>::empty());
    for p in it: points
        invariant
            it.seq() == all,
            out@ == numbered(all.take(it.index())),
    {
        assert(all.take(it.index() + 1).drop_last() =~= all.take(it.index()));
        assert(all.take(it.index() + 1).last() == p);
        let (id, payload) = p;
        if let Some(n) = id_as_u64(&id) {
            out.push((n, payload));
        }
    }
    assert(all.take(all.len() as int) =~= all);
    out
}

/// What the `Hash` impl of `str` writes into a hasher for a text.
pub uninterp spec fn text_writes(s: Seq<char>) -> Seq<Seq<u8>>;

/// `Hash::hash` of a text: it writes into the hasher what depends on the text alone.
#[verifier::external_body]
pub(crate) fn hash_text(s: &str, hasher: &mut DefaultHasher)
    ensures
        final(hasher)@ == old(hasher)@ + text_writes(s@),
{
    s.hash(hasher);
}

/// The identifier of a text: the same for the same text, so that what is learnt again takes
/// the place of what was learnt before.
pub open spec fn stable_number(s: Seq<char>) -> u64 {
    DefaultHasher::spec_finish(text_writes(s))
}

/// The identifier of a text.
pub fn stable_id(s: &str) -> (r: u64)
    ensures
        r == stable_number(s@),
{
    let mut hasher = DefaultHasher::new();
    hash_text(s, &mut hasher);
    assert(hasher@ =~= text_writes(s@));
    hasher.finish()
}

} // verus!
