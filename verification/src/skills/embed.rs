//! Embeddings: what is sent, and when.
use crate::json::{Json, JsonV};
use crate::text::{first_chars, first_text};
use vstd::prelude::*;

verus! {

/// How many characters of a text are embedded.
pub const MAX_QUERY_CHARS: usize = 2000;

/// The body that asks for an embedding.
pub open spec fn embed_value(model: Seq<char>, text: Seq<char>) -> JsonV {
    JsonV::Object(
        map![
            "model"@ => JsonV::String(model),
            "input"@ => JsonV::String(first_chars(text, MAX_QUERY_CHARS as int)),
        ],
    )
}

/// Where and with what an embedding is asked for; nowhere without a model or an endpoint.
pub fn embed_request(model: &str, url: Option<String>, text: &str) -> (r: Option<(String, Json)>)
    ensures
        r is Some <==> model@.len() > 0 && url is Some,
        r matches Some(t) ==> t.0 == url->0 && t.1@ == embed_value(model@, text@),
{
    if model.is_empty() {
        return None;
    }
    match url {
        Some(u) => {
            let input = first_text(text, MAX_QUERY_CHARS);
            let body = Json::empty_object().with("model", Json::text(model)).with(
                "input",
                Json::text(input.as_str()),
            );
            Some((u, body))
        },
        None => None,
    }
}

} // verus!
