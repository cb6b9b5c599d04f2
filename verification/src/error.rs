//! What can go wrong with a request, and what the client is told.
use crate::json::{Json, JsonV};
use crate::numerals::{decimal, decimal_text};
use crate::text::opt_text;
use vstd::prelude::*;

verus! {

/// Application-specific errors.
#[derive(Debug, PartialEq)]
pub enum ProxyError {
    /// The request could not be turned into an upstream request.
    Transform(String),
    /// A transport or connection failure with no usable HTTP status.
    Upstream(String),
    /// An upstream HTTP error whose status code is surfaced to the client as it is.
    UpstreamStatus { status: u16, message: String },
    /// A body that is not the JSON that was expected, with what the reader said of it.
    Serialization(String),
    /// A failed HTTP exchange, with what the HTTP client said of it.
    Http(String),
}

/// The result of a proxy operation.
pub type ProxyResult<T> = Result<T, ProxyError>;

/// The Anthropic error type of an HTTP status.
pub open spec fn error_type(status: u16) -> Seq<char> {
    if status == 400 {
        "invalid_request_error"@
    } else if status == 401 {
        "authentication_error"@
    } else if status == 403 {
        "permission_error"@
    } else if status == 404 {
        "not_found_error"@
    } else if status == 413 {
        "request_too_large"@
    } else if status == 429 {
        "rate_limit_error"@
    } else if status == 529 {
        "overloaded_error"@
    } else {
        "api_error"@
    }
}

/// The Anthropic error `type` of an HTTP status, by which clients classify failures.
pub fn anthropic_error_type(status: u16) -> (r: &'static str)
    ensures
        r@ == error_type(status),
{
    match status {
        400 => "invalid_request_error",
        401 => "authentication_error",
        403 => "permission_error",
        404 => "not_found_error",
        413 => "request_too_large",
        429 => "rate_limit_error",
        529 => "overloaded_error",
        _ => "api_error",
    }
}

/// The body that carries an error of the given type and message.
pub open spec fn error_envelope(error_type: Seq<char>, message: Seq<char>) -> JsonV {
    JsonV::Object(
        map![
            "type"@ => JsonV::String("error"@),
            "error"@ => JsonV::Object(
                map!["type"@ => JsonV::String(error_type), "message"@ => JsonV::String(message)],
            ),
        ],
    )
}

impl ProxyError {
    /// The HTTP status that the error stands for.
    pub open spec fn status(self) -> u16 {
        match self {
            ProxyError::Transform(_) | ProxyError::Serialization(_) => 400,
            ProxyError::Upstream(_) | ProxyError::Http(_) => 502,
            ProxyError::UpstreamStatus { status, .. } => status,
        }
    }

    /// What the client reads.
    pub open spec fn text(self) -> Seq<char> {
        match self {
            ProxyError::Transform(msg) => msg@,
            ProxyError::Upstream(msg) => msg@,
            ProxyError::UpstreamStatus { message, .. } => message@,
            ProxyError::Serialization(err) => "JSON error: "@ + err@,
            ProxyError::Http(err) => "HTTP error: "@ + err@,
        }
    }

    /// The HTTP status that the error maps to.
    pub fn status_code(&self) -> (r: u16)
        ensures
            r == self.status(),
    {
        match self {
            ProxyError::Transform(_) | ProxyError::Serialization(_) => 400,
            ProxyError::Upstream(_) | ProxyError::Http(_) => 502,
            ProxyError::UpstreamStatus { status, .. } => *status,
        }
    }

    /// What the client reads.
    pub fn message(self) -> (r: String)
        ensures
            r@ == self.text(),
    {
        match self {
            ProxyError::Transform(msg) => msg,
            ProxyError::Upstream(msg) => msg,
            ProxyError::UpstreamStatus { message, .. } => message,
            ProxyError::Serialization(err) => {
                let mut text = "JSON error: ".to_string();
                text.append(err.as_str());
                text
            },
            ProxyError::Http(err) => {
                let mut text = "HTTP error: ".to_string();
                text.append(err.as_str());
                text
            },
        }
    }

    /// The status and the body of the answer that reports the error.
    pub fn into_response(self) -> (r: (u16, Json))
        ensures
            r.0 == self.status(),
            r.1@ == error_envelope(error_type(self.status()), self.text()),
    {
        let status: u16 = self.status_code();
        let error_type = anthropic_error_type(status);
        let text = self.message();
        let inner = Json::empty_object().with("type", Json::text(error_type)).with(
            "message",
            Json::text(text.as_str()),
        );
        let body = Json::empty_object().with("type", Json::text("error")).with("error", inner);
        (status, body)
    }
}

/// What `axum::http::StatusCode` writes for a status code, such as `404 Not Found`; nothing
/// for a number that is no status code.
pub uninterp spec fn status_display(code: u16) -> Option<Seq<char>>;

/// `axum::http::StatusCode::from_u16` and the text of the status code that it gives: the
/// code, and the phrase that goes with it. The text is a function of the code alone.
#[verifier::external_body]
fn status_line(code: u16) -> (r: Option<String>)
    ensures
        opt_text(r) == status_display(code),
{
    match axum::http::StatusCode::from_u16(code) {
        Ok(status) => Some(status.to_string()),
        Err(_) => None,
    }
}

/// A status code in words, as far as there are any.
pub open spec fn status_words(code: u16) -> Seq<char> {
    match status_display(code) {
        Some(t) => t,
        None => decimal(code as nat),
    }
}

/// A status code in words, as far as there are any.
pub fn status_text(code: u16) -> (r: String)
    ensures
        r@ == status_words(code),
{
    match status_line(code) {
        Some(t) => t,
        None => decimal_text(code as u64),
    }
}

impl ProxyError {
    /// The error in one line.
    pub open spec fn description(self) -> Seq<char> {
        match self {
            ProxyError::Transform(msg) => "Request transformation error: "@ + msg@,
            ProxyError::Upstream(msg) => "Upstream API error: "@ + msg@,
            ProxyError::UpstreamStatus { status, message } => described_status(
                status_words(status),
                message@,
            ),
            ProxyError::Serialization(err) => "Serialization error: "@ + err@,
            ProxyError::Http(err) => "HTTP error: "@ + err@,
        }
    }

    /// The error in one line.
    pub fn describe(&self) -> (r: String)
        ensures
            r@ == self.description(),
    {
        let (head, tail) = match self {
            ProxyError::Transform(msg) => ("Request transformation error: ", msg),
            ProxyError::Upstream(msg) => ("Upstream API error: ", msg),
            ProxyError::UpstreamStatus { status, message } => {
                let words = status_text(*status);
                return describe_status(words.as_str(), message.as_str());
            },
            ProxyError::Serialization(err) => ("Serialization error: ", err),
            ProxyError::Http(err) => ("HTTP error: ", err),
        };
        let mut text = head.to_string();
        text.append(tail.as_str());
        text
    }
}

/// An upstream status with the upstream's words.
pub open spec fn described_status(status: Seq<char>, message: Seq<char>) -> Seq<char> {
    "Upstream API error ("@ + status + "): "@ + message
}

/// An upstream status, in words, with the upstream's own.
pub fn describe_status(status: &str, message: &str) -> (r: String)
    ensures
        r@ == described_status(status@, message@),
{
    let mut text = "Upstream API error (".to_string();
    text.append(status);
    text.append("): ");
    text.append(message);
    text
}

/// An upstream status reaches the client as it was, with the type that it stands for
/// and the upstream's own words.
pub proof fn law_upstream_status_is_kept(status: u16, message: String)
    ensures
        ({
            let e = ProxyError::UpstreamStatus { status, message };
            e.status() == status && e.text() == message@
        }),
{
}

/// A client can tell failures apart by their type: each status that stands for one of its own
/// has it, and every other one is an error of the API.
pub proof fn law_status_tells_the_type(status: u16)
    ensures
        status == 400 ==> error_type(status) == "invalid_request_error"@,
        status == 401 ==> error_type(status) == "authentication_error"@,
        status == 403 ==> error_type(status) == "permission_error"@,
        status == 404 ==> error_type(status) == "not_found_error"@,
        status == 413 ==> error_type(status) == "request_too_large"@,
        status == 429 ==> error_type(status) == "rate_limit_error"@,
        status == 529 ==> error_type(status) == "overloaded_error"@,
        status != 400 && status != 401 && status != 403 && status != 404 && status != 413 && status
            != 429 && status != 529 ==> error_type(status) == "api_error"@,
{
}

/// What is the client's fault is a bad request, and a broken exchange with an upstream is a
/// bad gateway; the words are those of whoever failed.
pub proof fn law_failures_have_a_status(e: ProxyError)
    ensures
        match e {
            ProxyError::Transform(m) => e.status() == 400 && e.text() == m@,
            ProxyError::Serialization(m) => e.status() == 400 && e.text() == "JSON error: "@ + m@,
            ProxyError::Upstream(m) => e.status() == 502 && e.text() == m@,
            ProxyError::Http(m) => e.status() == 502 && e.text() == "HTTP error: "@ + m@,
            ProxyError::UpstreamStatus { status, message } => e.status() == status && e.text()
                == message@,
        },
{
}

/// The body of an error carries its type and its words where clients look for them.
pub proof fn law_error_body_tells_both(kind: Seq<char>, message: Seq<char>)
    ensures
        ({
            let b = error_envelope(kind, message);
            &&& b.str_at("type"@) == Some("error"@)
            &&& b.get("error"@) matches Some(e) && e.str_at("type"@) == Some(kind) && e.str_at(
                "message"@,
            ) == Some(message)
        }),
{
    reveal_strlit("type");
    reveal_strlit("error");
    reveal_strlit("message");
    assert("type"@.len() == 4 && "error"@.len() == 5 && "message"@.len() == 7);
}

/// The line that describes an error ends with the words of whoever failed.
pub proof fn law_description_ends_with_the_words(e: ProxyError)
    ensures
        ({
            let words = match e {
                ProxyError::Transform(m) => m@,
                ProxyError::Serialization(m) => m@,
                ProxyError::Upstream(m) => m@,
                ProxyError::Http(m) => m@,
                ProxyError::UpstreamStatus { message, .. } => message@,
            };
            let d = e.description();
            d.len() > words.len() && d.skip(d.len() - words.len()) == words
        }),
{
    reveal_strlit("Request transformation error: ");
    reveal_strlit("Upstream API error: ");
    reveal_strlit("Upstream API error (");
    reveal_strlit("): ");
    reveal_strlit("Serialization error: ");
    reveal_strlit("HTTP error: ");
    let words = match e {
        ProxyError::Transform(m) => m@,
        ProxyError::Serialization(m) => m@,
        ProxyError::Upstream(m) => m@,
        ProxyError::Http(m) => m@,
        ProxyError::UpstreamStatus { message, .. } => message@,
    };
    let d = e.description();
    assert(d.skip(d.len() - words.len()) =~= words);
}

} // verus!
