//! What is sent to, and read from, an MCP web search server (Streamable HTTP).
//!
//! A tool call takes three messages: `initialize`, whose answer names the session, the
//! `initialized` notification, and `tools/call`. Answers are server-sent events; the first
//! `data:` line holds a JSON-RPC envelope, and its `result.content[0].text` is again JSON.
use crate::json::{
    int_value, json_parse, json_seq, json_text, lemma_view_parts, text_array_value, Json, JsonV,
};
use crate::text::{
    char_views, chars_start_with, one_of, opt_text, split, split_chars, starts_with, sub_chars,
    texts, to_chars, to_text, trim, trim_text,
};
use crate::keys::lemma_rpc_keys;
use crate::text_laws::law_split_at_each;
use vstd::prelude::*;

verus! {

/// A web result: what the model needs of it.
#[derive(Debug, PartialEq)]
pub struct SearchResult {
    pub title: String,
    pub url: String,
    pub description: String,
}

/// The content of a fetched page, and the URL that it had in the end.
#[derive(Debug, PartialEq)]
pub struct FetchResult {
    pub final_url: String,
    pub title: String,
    pub content: String,
}

/// What a search result is.
pub struct SearchResultV {
    pub title: Seq<char>,
    pub url: Seq<char>,
    pub description: Seq<char>,
}

/// What a fetched page is.
pub struct FetchResultV {
    pub final_url: Seq<char>,
    pub title: Seq<char>,
    pub content: Seq<char>,
}

impl SearchResult {
    pub open spec fn view(&self) -> SearchResultV {
        SearchResultV { title: self.title@, url: self.url@, description: self.description@ }
    }
}

impl FetchResult {
    pub open spec fn view(&self) -> FetchResultV {
        FetchResultV { final_url: self.final_url@, title: self.title@, content: self.content@ }
    }
}

/// The results of a search.
pub open spec fn results_view(v: Seq<SearchResult>) -> Seq<SearchResultV> {
    Seq::new(v.len(), |i: int| v[i].view())
}

// ---------------------------------------------------------------------------
// Records of texts
// ---------------------------------------------------------------------------
/// The text of a record's field: empty where the field is missing, and nothing where it
/// holds anything but a text. A record is an object, or a list of its fields in order.
pub open spec fn field_text(v: JsonV, key: Seq<char>, position: int) -> Option<Seq<char>> {
    match v {
        JsonV::Object(m) => if m.contains_key(key) {
            m[key].as_str()
        } else {
            Some(seq![])
        },
        JsonV::Array(s) => if position < s.len() {
            s[position].as_str()
        } else {
            Some(seq![])
        },
        _ => None,
    }
}

/// Whether the value can be a record of that many fields.
pub open spec fn is_record(v: JsonV, fields: int) -> bool {
    v is Object || (v is Array && v->Array_0.len() <= fields)
}

/// The three texts of a record, where each of its fields is a text or missing.
pub open spec fn record_texts(v: JsonV, a: Seq<char>, b: Seq<char>, c: Seq<char>) -> Option<
    (Seq<char>, Seq<char>, Seq<char>),
> {
    match (field_text(v, a, 0), field_text(v, b, 1), field_text(v, c, 2)) {
        (Some(x), Some(y), Some(z)) => if is_record(v, 3) {
            Some((x, y, z))
        } else {
            None
        },
        _ => None,
    }
}

fn read_field(v: &Json, key: &str, position: usize) -> (r: Option<String>)
    ensures
        opt_text(r) == field_text(v@, key@, position as int),
{
    proof {
        lemma_view_parts(*v);
    }
    match v {
        Json::Object(m) => match m.get(key) {
            Some(Json::String(s)) => Some(s.clone()),
            Some(_) => None,
            None => {
                let empty = String::new();
                assert(empty@ =~= Seq::<char>::empty());
                Some(empty)
            },
        },
        Json::Array(s) => if position < s.len() {
            match &s[position] {
                Json::String(t) => Some(t.clone()),
                _ => None,
            }
        } else {
            let empty = String::new();
            assert(empty@ =~= Seq::<char>::empty());
            Some(empty)
        },
        _ => None,
    }
}

/// The three texts of a record.
pub fn read_record(v: &Json, a: &str, b: &str, c: &str) -> (r: Option<(String, String, String)>)
    ensures
        match record_texts(v@, a@, b@, c@) {
            Some(t) => r matches Some(x) && (x.0@, x.1@, x.2@) == t,
            None => r is None,
        },
{
    let fits = match v {
        Json::Object(_) => true,
        Json::Array(s) => s.len() <= 3,
        _ => false,
    };
    proof {
        lemma_view_parts(*v);
    }
    if !fits {
        return None;
    }
    match (read_field(v, a, 0), read_field(v, b, 1), read_field(v, c, 2)) {
        (Some(x), Some(y), Some(z)) => Some((x, y, z)),
        _ => None,
    }
}

/// The search result that a value describes.
pub open spec fn search_result(v: JsonV) -> Option<SearchResultV> {
    match record_texts(v, "title"@, "url"@, "description"@) {
        Some((title, url, description)) => Some(SearchResultV { title, url, description }),
        None => None,
    }
}

/// The fetched page that a value describes.
pub open spec fn fetch_result(v: JsonV) -> Option<FetchResultV> {
    match record_texts(v, "finalUrl"@, "title"@, "content"@) {
        Some((final_url, title, content)) => Some(FetchResultV { final_url, title, content }),
        None => None,
    }
}

impl SearchResult {
    /// The search result that a value describes.
    pub fn read(v: &Json) -> (r: Option<SearchResult>)
        ensures
            match search_result(v@) {
                Some(t) => r is Some && r->0@ == t,
                None => r is None,
            },
    {
        match read_record(v, "title", "url", "description") {
            Some((title, url, description)) => Some(SearchResult { title, url, description }),
            None => None,
        }
    }
}

impl FetchResult {
    /// The fetched page that a value describes.
    pub fn read(v: &Json) -> (r: Result<FetchResult, String>)
        ensures
            match fetch_result(v@) {
                Some(t) => r is Ok && r->Ok_0@ == t,
                None => r is Err && r->Err_0@ == "parsing fetchWebContent result"@,
            },
    {
        match read_record(v, "finalUrl", "title", "content") {
            Some((final_url, title, content)) => Ok(FetchResult { final_url, title, content }),
            None => Err("parsing fetchWebContent result".to_string()),
        }
    }
}

/// The results that values describe, in order; what describes none is passed over.
pub open spec fn search_results(vs: Seq<JsonV>) -> Seq<SearchResultV>
    decreases vs.len(),
{
    if vs.len() == 0 {
        seq![]
    } else {
        let head = search_results(vs.drop_last());
        match search_result(vs.last()) {
            Some(r) => head.push(r),
            None => head,
        }
    }
}

/// The list under a key, or an empty one.
pub open spec fn list_at(v: JsonV, key: Seq<char>) -> Seq<JsonV> {
    match v.get(key) {
        Some(JsonV::Array(s)) => s,
        _ => seq![],
    }
}

/// The search results of a payload.
pub fn read_search(inner: &Json) -> (r: Vec<SearchResult>)
    ensures
        results_view(r@) == search_results(list_at(inner@, "results"@)),
{
    let mut out: Vec<SearchResult> = Vec::new();
    assert(results_view(out@) =~= Seq::<SearchResultV>::empty());
    match inner.get("results") {
        Some(Json::Array(vs)) => {
            let ghost all = json_seq(vs@);
            proof {
                lemma_view_parts(Json::Array(*vs));
            }
            let n: usize = vs.len();
            let mut i: usize = 0;
            assert(all.take(0) =~= Seq::<JsonV>::empty());
            while i < n
                invariant
                    n == vs@.len(),
                    i <= n,
                    all == json_seq(vs@),
                    results_view(out@) == search_results(all.take(i as int)),
                decreases n - i,
            {
                assert(all.take(i as int + 1).drop_last() =~= all.take(i as int));
                let ghost before = out@;
                if let Some(found) = SearchResult::read(&vs[i]) {
                    let ghost f = found@;
                    out.push(found);
                    assert(results_view(out@) =~= results_view(before).push(f));
                }
                i += 1;
            }
            assert(all.take(n as int) =~= all);
        },
        _ => {},
    }
    out
}

// ---------------------------------------------------------------------------
// Answers
// ---------------------------------------------------------------------------
/// The line that begins the answer's data.
pub open spec fn is_data_line(line: Seq<char>) -> bool {
    starts_with(line, "data: "@)
}

/// What follows `data: ` in the first such line from `i` on. A line ends before its line
/// feed, or before a carriage return and its line feed.
pub open spec fn data_from(lines: Seq<Seq<char>>, i: int) -> Option<Seq<char>>
    decreases lines.len() - i,
{
    if i < 0 || i >= lines.len() {
        None
    } else if is_data_line(lines[i]) {
        let rest = lines[i].skip(6);
        if i + 1 < lines.len() && rest.len() > 0 && rest.last() == '\r' {
            Some(rest.drop_last())
        } else {
            Some(rest)
        }
    } else {
        data_from(lines, i + 1)
    }
}

/// The data of an answer: its first `data:` line, or all of it.
pub open spec fn answer_data(text: Seq<char>) -> Seq<char> {
    match data_from(split(text, one_of(seq!['\n'])), 0) {
        Some(d) => d,
        None => trim(text),
    }
}

/// The data of an answer.
pub fn read_data(text: &str) -> (r: String)
    ensures
        r@ == answer_data(text@),
{
    let cs = to_chars(text);
    let seps: [char; 1] = ['\n'];
    assert(seps@ =~= seq!['\n']);
    let lines = split_chars(cs.as_slice(), seps.as_slice());
    let ghost all = char_views(lines@);
    let mark = to_chars("data: ");
    proof {
        reveal_strlit("data: ");
    }
    let n: usize = lines.len();
    let mut i: usize = 0;
    while i < n
        invariant
            n == lines@.len(),
            i <= n,
            all == char_views(lines@),
            all == split(text@, one_of(seq!['\n'])),
            mark@ == "data: "@,
            mark@.len() == 6,
            data_from(all, i as int) == data_from(all, 0),
        decreases n - i,
    {
        assert(all[i as int] == lines@[i as int]@);
        let line = lines[i].as_slice();
        if chars_start_with(line, mark.as_slice()) {
            let end: usize = line.len();
            let rest = sub_chars(line, 6, end);
            assert(rest@ =~= all[i as int].skip(6));
            if i + 1 < n && rest.len() > 0 && rest[rest.len() - 1] == '\r' {
                let cut = sub_chars(rest.as_slice(), 0, rest.len() - 1);
                assert(cut@ =~= rest@.drop_last());
                return to_text(cut.as_slice());
            }
            return to_text(rest.as_slice());
        }
        i += 1;
    }
    trim_text(text)
}

/// The envelope of an answer: null where the answer is empty, an error where its data is
/// not JSON.
pub fn read_envelope(text: &str) -> (r: Result<Json, String>)
    ensures
        ({
            let data = answer_data(text@);
            if data.len() == 0 {
                r is Ok && r->Ok_0@ == JsonV::Null
            } else {
                match json_parse(data) {
                    Some(v) => r is Ok && r->Ok_0@ == v,
                    None => r is Err && r->Err_0@ == "parsing open-websearch response: "@ + data,
                }
            }
        }),
{
    let data = read_data(text);
    if data.as_str().is_empty() {
        return Ok(Json::Null);
    }
    match Json::parse(data.as_str()) {
        Some(v) => Ok(v),
        None => {
            let mut message = "parsing open-websearch response: ".to_string();
            message.append(data.as_str());
            Err(message)
        },
    }
}

/// What stands first: the first element of an array, or the member `0` of an object.
pub open spec fn first_of(v: JsonV) -> Option<JsonV> {
    match v {
        JsonV::Array(_) => v.at(0),
        _ => v.get("0"@),
    }
}

/// The part of an envelope that a tool wrote: the first content text of its result.
pub open spec fn tool_text(v: JsonV) -> Option<Seq<char>> {
    match v.get("result"@) {
        Some(result) => match result.get("content"@) {
            Some(content) => match first_of(content) {
                Some(first) => first.str_at("text"@),
                None => None,
            },
            None => None,
        },
        None => None,
    }
}

/// Whether the tool reports a failure.
pub open spec fn tool_failed(v: JsonV) -> bool {
    match v.get("result"@) {
        Some(result) => result.bool_at("isError"@) == Some(true),
        None => false,
    }
}

/// What a tool gave back: its text read as JSON, or why there is none.
pub open spec fn tool_payload(name: Seq<char>, v: JsonV) -> Result<JsonV, Seq<char>> {
    if tool_failed(v) {
        Err(
            "open-websearch "@ + name + " error: "@ + (match tool_text(v) {
                Some(t) => t,
                None => "unknown error"@,
            }),
        )
    } else {
        match tool_text(v) {
            Some(t) => match json_parse(t) {
                Some(inner) => Ok(inner),
                None => Err("parsing inner "@ + name + " JSON"@),
            },
            None => Err("unexpected "@ + name + " response: "@ + json_text(v)),
        }
    }
}

fn first_part(v: &Json) -> (r: Option<&Json>)
    ensures
        match first_of(v@) {
            Some(p) => r is Some && r->0@ == p,
            None => r is None,
        },
{
    match v {
        Json::Array(_) => v.at(0),
        _ => v.get("0"),
    }
}

pub(crate) fn first_text(v: &Json) -> (r: Option<&String>)
    ensures
        match tool_text(v@) {
            Some(t) => r is Some && r->0@ == t,
            None => r is None,
        },
{
    match v.get("result") {
        Some(result) => match result.get("content") {
            Some(content) => match first_part(content) {
                Some(first) => first.str_at("text"),
                None => None,
            },
            None => None,
        },
        None => None,
    }
}

/// What a tool gave back, from the envelope of its answer.
pub fn read_payload(name: &str, envelope: &Json) -> (r: Result<Json, String>)
    ensures
        match tool_payload(name@, envelope@) {
            Ok(v) => r is Ok && r->Ok_0@ == v,
            Err(e) => r is Err && r->Err_0@ == e,
        },
{
    let failed = match envelope.get("result") {
        Some(result) => match result.bool_at("isError") {
            Some(b) => b,
            None => false,
        },
        None => false,
    };
    if failed {
        let mut message = "open-websearch ".to_string();
        message.append(name);
        message.append(" error: ");
        match first_text(envelope) {
            Some(t) => message.append(t.as_str()),
            None => message.append("unknown error"),
        }
        return Err(message);
    }
    match first_text(envelope) {
        Some(t) => match Json::parse(t.as_str()) {
            Some(v) => Ok(v),
            None => {
                let mut message = "parsing inner ".to_string();
                message.append(name);
                message.append(" JSON");
                Err(message)
            },
        },
        None => {
            let mut message = "unexpected ".to_string();
            message.append(name);
            message.append(" response: ");
            message.append(envelope.to_text().as_str());
            Err(message)
        },
    }
}

// ---------------------------------------------------------------------------
// Requests
// ---------------------------------------------------------------------------
/// The message that opens a session.
pub fn initialize_request() -> (r: Json)
    ensures
        r@ == JsonV::Object(
            map![
                "jsonrpc"@ => JsonV::String("2.0"@),
                "id"@ => int_value(1),
                "method"@ => JsonV::String("initialize"@),
                "params"@ => JsonV::Object(
                    map![
                        "protocolVersion"@ => JsonV::String("2025-06-18"@),
                        "capabilities"@ => JsonV::Object(Map::empty()),
                        "clientInfo"@ => JsonV::Object(
                            map![
                                "name"@ => JsonV::String("anthropic-proxy"@),
                                "version"@ => JsonV::String("1"@),
                            ],
                        ),
                    ],
                ),
            ],
        ),
{
    let info = Json::empty_object().with("name", Json::text("anthropic-proxy")).with(
        "version",
        Json::text("1"),
    );
    let params = Json::empty_object().with("protocolVersion", Json::text("2025-06-18")).with(
        "capabilities",
        Json::empty_object(),
    ).with("clientInfo", info);
    Json::empty_object().with("jsonrpc", Json::text("2.0")).with("id", Json::whole(1)).with(
        "method",
        Json::text("initialize"),
    ).with("params", params)
}

/// The notification that the session is open.
pub fn initialized_request() -> (r: Json)
    ensures
        r@ == JsonV::Object(
            map![
                "jsonrpc"@ => JsonV::String("2.0"@),
                "method"@ => JsonV::String("notifications/initialized"@),
            ],
        ),
{
    Json::empty_object().with("jsonrpc", Json::text("2.0")).with(
        "method",
        Json::text("notifications/initialized"),
    )
}

/// The message that calls a tool.
pub open spec fn call_value(name: Seq<char>, arguments: JsonV) -> JsonV {
    JsonV::Object(
        map![
            "jsonrpc"@ => JsonV::String("2.0"@),
            "id"@ => int_value(2),
            "method"@ => JsonV::String("tools/call"@),
            "params"@ => JsonV::Object(
                map!["name"@ => JsonV::String(name), "arguments"@ => arguments],
            ),
        ],
    )
}

/// The arguments of a search. No engines leave the choice to the server.
pub open spec fn search_value(
    query: Seq<char>,
    limit: u32,
    engines: Seq<Seq<char>>,
    mode: Seq<char>,
) -> JsonV {
    let base = map![
        "query"@ => JsonV::String(query),
        "limit"@ => int_value(limit as u64),
        "searchMode"@ => JsonV::String(mode),
    ];
    JsonV::Object(
        if engines.len() == 0 {
            base
        } else {
            base.insert("engines"@, text_array_value(engines))
        },
    )
}

/// The arguments of a fetch.
pub open spec fn fetch_value(url: Seq<char>, max_chars: u32) -> JsonV {
    JsonV::Object(map!["url"@ => JsonV::String(url), "maxChars"@ => int_value(max_chars as u64)])
}

/// The message that calls a tool.
pub fn call_request(name: &str, arguments: Json) -> (r: Json)
    ensures
        r@ == call_value(name@, arguments@),
{
    let params = Json::empty_object().with("name", Json::text(name)).with("arguments", arguments);
    Json::empty_object().with("jsonrpc", Json::text("2.0")).with("id", Json::whole(2)).with(
        "method",
        Json::text("tools/call"),
    ).with("params", params)
}

/// One MCP endpoint (such as `http://localhost:3100/mcp`) and the calls it is sent.
pub struct WebSearchClient {
    pub endpoint: String,
}

/// The session that the answer to `initialize` opened, where it named one.
pub fn open_session(session: Option<String>) -> (r: Result<String, String>)
    ensures
        match session {
            Some(s) => r is Ok && r->Ok_0 == s,
            None => r is Err && r->Err_0@
                == "open-websearch did not return an Mcp-Session-Id"@,
        },
{
    match session {
        Some(s) => Ok(s),
        None => Err("open-websearch did not return an Mcp-Session-Id".to_string()),
    }
}

impl WebSearchClient {
    /// A client for the endpoint.
    pub fn new(endpoint: String) -> (r: WebSearchClient)
        ensures
            r.endpoint == endpoint,
    {
        WebSearchClient { endpoint }
    }

    /// The `tools/call` message of a search.
    pub fn search(&self, query: &str, limit: u32, engines: &[String], mode: &str) -> (r: Json)
        ensures
            r@ == call_value("search"@, search_value(query@, limit, texts(engines@), mode@)),
    {
        let base = Json::empty_object().with("query", Json::text(query)).with(
            "limit",
            Json::whole(limit as u64),
        ).with("searchMode", Json::text(mode));
        let arguments = if engines.len() == 0 {
            base
        } else {
            base.with("engines", Json::text_array(engines))
        };
        call_request("search", arguments)
    }

    /// The `tools/call` message of a fetch.
    pub fn fetch(&self, url: &str, max_chars: u32) -> (r: Json)
        ensures
            r@ == call_value("fetchWebContent"@, fetch_value(url@, max_chars)),
    {
        let arguments = Json::empty_object().with("url", Json::text(url)).with(
            "maxChars",
            Json::whole(max_chars as u64),
        );
        call_request("fetchWebContent", arguments)
    }
}

// ---------------------------------------------------------------------------
// What is read and asked
// ---------------------------------------------------------------------------
/// A found page is read by its names: a member that is missing counts as empty, and one that
/// is no text makes the page unusable.
pub proof fn law_found_pages_are_read(m: Map<Seq<char>, JsonV>)
    ensures
        ({
            let v = JsonV::Object(m);
            let title = v.get("title"@);
            let url = v.get("url"@);
            let description = v.get("description"@);
            let readable = |x: Option<JsonV>| x is None || x->0 is String;
            let text = |x: Option<JsonV>|
                if x is None {
                    seq![]
                } else {
                    x->0->String_0
                };
            match search_result(v) {
                Some(r) => readable(title) && readable(url) && readable(description) && r.title
                    == text(title) && r.url == text(url) && r.description == text(description),
                None => !readable(title) || !readable(url) || !readable(description),
            }
        }),
{
}

/// A fetched page is read by its names in the same way.
pub proof fn law_fetched_pages_are_read(m: Map<Seq<char>, JsonV>)
    ensures
        ({
            let v = JsonV::Object(m);
            let url = v.get("finalUrl"@);
            let title = v.get("title"@);
            let content = v.get("content"@);
            let readable = |x: Option<JsonV>| x is None || x->0 is String;
            let text = |x: Option<JsonV>|
                if x is None {
                    seq![]
                } else {
                    x->0->String_0
                };
            match fetch_result(v) {
                Some(r) => readable(url) && readable(title) && readable(content) && r.final_url
                    == text(url) && r.title == text(title) && r.content == text(content),
                None => !readable(url) || !readable(title) || !readable(content),
            }
        }),
{
}

/// Every readable page is kept, in their order, and only those.
pub proof fn law_pages_are_kept_in_order(vs: Seq<JsonV>, v: JsonV)
    ensures
        search_result(v) matches Some(r) ==> search_results(vs.push(v)) == search_results(vs).push(r),
        search_result(v) is None ==> search_results(vs.push(v)) == search_results(vs),
        search_results(seq![]).len() == 0,
{
    assert(vs.push(v).drop_last() =~= vs);
}

/// Of a stream of events the data of the first is read; a text without any is read whole, but
/// for white space around it.
pub proof fn law_first_data_is_read(a: Seq<char>, data: Seq<char>, b: Seq<char>)
    requires
        !data.contains('\n'),
        data.len() > 0 ==> data.last() != '\r',
        a.len() == 0 || a.last() == '\n',
        forall|i: int|
            0 <= i < split(a, one_of(seq!['\n'])).len() ==> !starts_with(
                #[trigger] split(a, one_of(seq!['\n']))[i],
                "data: "@,
            ),
    ensures
        answer_data(a + "data: "@ + data + seq!['\n'] + b) == data,
{
    let sep = one_of(seq!['\n']);
    reveal_strlit("data: ");
    let line = "data: "@ + data;
    assert(sep('\n')) by {
        assert(seq!['\n'][0] == '\n');
    }
    assert forall|i: int| 0 <= i < line.len() implies !sep(#[trigger] line[i]) by {
        assert(!seq!['\n'].contains(line[i])) by {
            if i < 6 {
                assert(line[i] == "data: "@[i]);
            } else {
                assert(line[i] == data[i - 6]);
                assert(data.contains(data[i - 6]));
            }
        }
    }
    law_split_at_each(line, '\n', b, sep);
    let tail = seq![line] + split(b, sep);
    assert(split(line + seq!['\n'] + b, sep) == tail);
    let text = a + "data: "@ + data + seq!['\n'] + b;
    lemma_split_some(b, sep);
    if a.len() == 0 {
        assert(text =~= line + seq!['\n'] + b);
        assert(split(text, sep)[0] == line);
    } else {
        let head = a.drop_last();
        law_split_at_each(head, '\n', Seq::empty(), sep);
        assert(a =~= head + seq!['\n'] + Seq::<char>::empty());
        assert(split(Seq::<char>::empty(), sep) =~= seq![Seq::<char>::empty()]);
        law_split_at_each(head, '\n', line + seq!['\n'] + b, sep);
        assert(text =~= head + seq!['\n'] + (line + seq!['\n'] + b));
        let before = split(head, sep);
        let all = before + tail;
        assert(split(text, sep) == all);
        let n = before.len() as int;
        assert(all[n] == line);
        assert forall|i: int| 0 <= i < n implies !is_data_line(#[trigger] all[i]) by {
            assert(split(a, sep)[i] == before[i]);
        }
        lemma_data_from(all, 0, n);
    }
    let all = split(text, sep);
    assert(line.take(6) =~= "data: "@);
    assert(line.skip(6) =~= data);
}

proof fn lemma_split_some(s: Seq<char>, sep: spec_fn(char) -> bool)
    ensures
        split(s, sep).len() > 0,
{
}

proof fn lemma_data_from(lines: Seq<Seq<char>>, i: int, n: int)
    requires
        0 <= i <= n < lines.len(),
        forall|k: int| 0 <= k < n ==> !is_data_line(#[trigger] lines[k]),
    ensures
        data_from(lines, i) == data_from(lines, n),
    decreases n - i,
{
    if i < n {
        assert(!is_data_line(lines[i]));
        lemma_data_from(lines, i + 1, n);
    }
}

/// What a tool gave back is the JSON of its first text. A failure that it reports is told with
/// its words, and an answer without a text, or with one that is no JSON, is a failure too.
pub proof fn law_tool_answers_are_read(name: Seq<char>, v: JsonV)
    ensures
        ({
            let result = v.get("result"@);
            let failed = result is Some && result->0.get("isError"@) == Some(JsonV::Bool(true));
            let text = tool_text(v);
            &&& failed ==> (tool_payload(name, v) matches Err(e) && match text {
                Some(t) => e == "open-websearch "@ + name + " error: "@ + t,
                None => e == "open-websearch "@ + name + " error: unknown error"@,
            })
            &&& !failed && text is None ==> tool_payload(name, v) is Err
            &&& !failed && text is Some ==> match json_parse(text->0) {
                Some(inner) => tool_payload(name, v) == Ok::<_, Seq<char>>(inner),
                None => tool_payload(name, v) is Err,
            }
        }),
        v.get("result"@) matches Some(r) ==> (r.get("content"@) matches Some(JsonV::Array(c)) ==> (
        c.len() > 0 ==> tool_text(v) == c[0].str_at("text"@)) && (c.len() == 0 ==> tool_text(v) is None)),
        v.get("result"@) is None ==> tool_text(v) is None,
{
    reveal_strlit(" error: ");
    reveal_strlit("unknown error");
    reveal_strlit(" error: unknown error");
    assert(" error: "@ + "unknown error"@ =~= " error: unknown error"@);
    assert("open-websearch "@ + name + " error: "@ + "unknown error"@ =~= "open-websearch "@ + name
        + " error: unknown error"@);
}

/// A tool is called by its name and with its arguments: a search with its query, its limit, how
/// it runs and the engines where any are named, and a fetch with its address and its limit.
pub proof fn law_tools_are_called(
    name: Seq<char>,
    arguments: JsonV,
    query: Seq<char>,
    limit: u32,
    engines: Seq<Seq<char>>,
    mode: Seq<char>,
)
    ensures
        ({
            let c = call_value(name, arguments);
            &&& c.str_at("jsonrpc"@) == Some("2.0"@)
            &&& c.str_at("method"@) == Some("tools/call"@)
            &&& c.get("params"@) matches Some(p) && p.str_at("name"@) == Some(name) && p.get(
                "arguments"@,
            ) == Some(arguments)
        }),
        ({
            let a = search_value(query, limit, engines, mode);
            &&& a.str_at("query"@) == Some(query)
            &&& a.get("limit"@) == Some(int_value(limit as u64))
            &&& a.str_at("searchMode"@) == Some(mode)
            &&& engines.len() == 0 ==> a.get("engines"@) is None
            &&& engines.len() > 0 ==> (a.get("engines"@) matches Some(JsonV::Array(e)) && e.len()
                == engines.len() && forall|i: int|
                0 <= i < e.len() ==> #[trigger] e[i] == JsonV::String(engines[i]))
        }),
        fetch_value(query, limit).str_at("url"@) == Some(query),
        fetch_value(query, limit).get("maxChars"@) == Some(int_value(limit as u64)),
{
    lemma_rpc_keys();
}

/// A list of an answer is read whole, and is empty where there is none under its key.
pub proof fn law_lists_are_read(m: Map<Seq<char>, JsonV>, key: Seq<char>, items: Seq<JsonV>)
    ensures
        list_at(JsonV::Object(m.insert(key, JsonV::Array(items))), key) == items,
        list_at(JsonV::Object(m.remove(key)), key).len() == 0,
        !m.contains_key(key) || !(m[key] is Array) ==> list_at(JsonV::Object(m), key).len() == 0,
{
}

} // verus!
