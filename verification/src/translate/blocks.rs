//! The content blocks that tell a client of browsing, and their server-sent events.
use crate::json::{int_value, json_seq, json_text, Json, JsonV};
use crate::text::{same, texts};
use crate::websearch::{results_view, SearchResult, SearchResultV};
use vstd::prelude::*;

verus! {

// ---------------------------------------------------------------------------
// Blocks
// ---------------------------------------------------------------------------
/// A text block.
pub open spec fn text_block(text: Seq<char>) -> JsonV {
    JsonV::Object(map!["type"@ => JsonV::String("text"@), "text"@ => JsonV::String(text)])
}

/// A tool-use block of the given type.
pub open spec fn use_block(kind: Seq<char>, id: Seq<char>, name: Seq<char>, input: JsonV) -> JsonV {
    JsonV::Object(
        map![
            "type"@ => JsonV::String(kind),
            "id"@ => JsonV::String(id),
            "name"@ => JsonV::String(name),
            "input"@ => input,
        ],
    )
}

/// An object with one text.
pub open spec fn one_text(key: Seq<char>, text: Seq<char>) -> JsonV {
    JsonV::Object(map![key => JsonV::String(text)])
}

/// A result block of the given type.
pub open spec fn result_value(kind: Seq<char>, id: Seq<char>, content: JsonV) -> JsonV {
    JsonV::Object(
        map![
            "type"@ => JsonV::String(kind),
            "tool_use_id"@ => JsonV::String(id),
            "content"@ => content,
        ],
    )
}

/// An error as the content of a result block.
pub open spec fn error_content(kind: Seq<char>, code: Seq<char>) -> JsonV {
    JsonV::Object(map!["type"@ => JsonV::String(kind), "error_code"@ => JsonV::String(code)])
}

/// A search that failed.
pub open spec fn search_error_value(id: Seq<char>, code: Seq<char>) -> JsonV {
    result_value(
        "web_search_tool_result"@,
        id,
        error_content("web_search_tool_result_error"@, code),
    )
}

/// A fetch that failed.
pub open spec fn fetch_error_value(id: Seq<char>, code: Seq<char>) -> JsonV {
    result_value("web_fetch_tool_result"@, id, error_content("web_fetch_tool_error"@, code))
}

/// One found page.
pub open spec fn found_value(r: SearchResultV) -> JsonV {
    JsonV::Object(
        map![
            "type"@ => JsonV::String("web_search_result"@),
            "url"@ => JsonV::String(r.url),
            "title"@ => JsonV::String(r.title),
        ],
    )
}

/// The pages that a search found.
pub open spec fn search_value(id: Seq<char>, found: Seq<SearchResultV>) -> JsonV {
    result_value(
        "web_search_tool_result"@,
        id,
        JsonV::Array(Seq::new(found.len(), |i: int| found_value(found[i]))),
    )
}

/// A fetched page.
pub open spec fn fetch_value(
    id: Seq<char>,
    url: Seq<char>,
    title: Seq<char>,
    content: Seq<char>,
) -> JsonV {
    result_value(
        "web_fetch_tool_result"@,
        id,
        JsonV::Object(
            map![
                "type"@ => JsonV::String("web_fetch_result"@),
                "url"@ => JsonV::String(url),
                "content"@ => JsonV::Object(
                    map![
                        "type"@ => JsonV::String("document"@),
                        "source"@ => JsonV::Object(
                            map![
                                "type"@ => JsonV::String("text"@),
                                "media_type"@ => JsonV::String("text/plain"@),
                                "data"@ => JsonV::String(content),
                            ],
                        ),
                        "title"@ => JsonV::String(title),
                    ],
                ),
            ],
        ),
    )
}

pub(crate) fn make_text_block(text: &str) -> (r: Json)
    ensures
        r@ == text_block(text@),
{
    Json::empty_object().with("type", Json::text("text")).with("text", Json::text(text))
}

pub(crate) fn make_use_block(kind: &str, id: &str, name: &str, input: Json) -> (r: Json)
    ensures
        r@ == use_block(kind@, id@, name@, input@),
{
    Json::empty_object().with("type", Json::text(kind)).with("id", Json::text(id)).with(
        "name",
        Json::text(name),
    ).with("input", input)
}

fn make_result(kind: &str, id: &str, content: Json) -> (r: Json)
    ensures
        r@ == result_value(kind@, id@, content@),
{
    Json::empty_object().with("type", Json::text(kind)).with("tool_use_id", Json::text(id)).with(
        "content",
        content,
    )
}

fn make_error(kind: &str, code: &str) -> (r: Json)
    ensures
        r@ == error_content(kind@, code@),
{
    Json::empty_object().with("type", Json::text(kind)).with("error_code", Json::text(code))
}

/// The block of a search that failed.
pub fn search_error(srv_id: &str, code: &str) -> (r: Json)
    ensures
        r@ == search_error_value(srv_id@, code@),
{
    make_result("web_search_tool_result", srv_id, make_error("web_search_tool_result_error", code))
}

/// The block of a fetch that failed.
pub fn fetch_error(srv_id: &str, code: &str) -> (r: Json)
    ensures
        r@ == fetch_error_value(srv_id@, code@),
{
    make_result("web_fetch_tool_result", srv_id, make_error("web_fetch_tool_error", code))
}

pub(crate) fn make_search(srv_id: &str, found: &Vec<SearchResult>) -> (r: Json)
    ensures
        r@ == search_value(srv_id@, results_view(found@)),
{
    let mut items: Vec<Json> = Vec::new();
    let n: usize = found.len();
    let mut i: usize = 0;
    while i < n
        invariant
            n == found@.len(),
            i <= n,
            items@.len() == i,
            forall|k: int|
                0 <= k < i ==> (#[trigger] items@[k]).view() == found_value(found@[k].view()),
        decreases n - i,
    {
        let item = Json::empty_object().with("type", Json::text("web_search_result")).with(
            "url",
            Json::text(found[i].url.as_str()),
        ).with("title", Json::text(found[i].title.as_str()));
        items.push(item);
        i += 1;
    }
    proof {
        let view = results_view(found@);
        assert(json_seq(items@) =~= Seq::new(view.len(), |i: int| found_value(view[i])));
    }
    make_result("web_search_tool_result", srv_id, Json::list(items))
}

pub(crate) fn make_fetch(srv_id: &str, url: &str, title: &str, content: &str) -> (r: Json)
    ensures
        r@ == fetch_value(srv_id@, url@, title@, content@),
{
    let source = Json::empty_object().with("type", Json::text("text")).with(
        "media_type",
        Json::text("text/plain"),
    ).with("data", Json::text(content));
    let document = Json::empty_object().with("type", Json::text("document")).with(
        "source",
        source,
    ).with("title", Json::text(title));
    let page = Json::empty_object().with("type", Json::text("web_fetch_result")).with(
        "url",
        Json::text(url),
    ).with("content", document);
    make_result("web_fetch_tool_result", srv_id, page)
}

// ---------------------------------------------------------------------------
// Server-sent events
// ---------------------------------------------------------------------------
/// A server-sent event.
pub open spec fn sse(event: Seq<char>, data: JsonV) -> Seq<char> {
    "event: "@ + event + "\ndata: "@ + json_text(data) + "\n\n"@
}

/// The server-sent event with that name and data. The data takes one line.
pub fn sse_event(event: &str, data: &Json) -> (r: String)
    ensures
        r@ == sse(event@, data@),
        !json_text(data@).contains('\n'),
        !json_text(data@).contains('\r'),
{
    let mut frame = "event: ".to_string();
    frame.append(event);
    frame.append("\ndata: ");
    frame.append(data.to_text().as_str());
    frame.append("\n\n");
    frame
}

/// The data of a block event.
pub open spec fn indexed(
    event: Seq<char>,
    index: u64,
    key: Seq<char>,
    value: JsonV,
) -> Seq<char> {
    sse(
        event,
        JsonV::Object(
            map!["type"@ => JsonV::String(event), "index"@ => int_value(index), key => value],
        ),
    )
}

/// The event that stops a block.
pub open spec fn stop_text(index: u64) -> Seq<char> {
    sse(
        "content_block_stop"@,
        JsonV::Object(
            map!["type"@ => JsonV::String("content_block_stop"@), "index"@ => int_value(index)],
        ),
    )
}

/// The events of one block: text and tool input come as deltas, anything else comes whole
/// with the start.
pub open spec fn block_frames(index: u64, block: JsonV) -> Seq<Seq<char>> {
    let ty = block.str_or_empty("type"@);
    if ty == "text"@ {
        seq![
            indexed("content_block_start"@, index, "content_block"@, text_block(""@)),
            indexed(
                "content_block_delta"@,
                index,
                "delta"@,
                JsonV::Object(
                    map![
                        "type"@ => JsonV::String("text_delta"@),
                        "text"@ => JsonV::String(block.str_or_empty("text"@)),
                    ],
                ),
            ),
            stop_text(index),
        ]
    } else if ty == "server_tool_use"@ || ty == "tool_use"@ {
        let input = match block.get("input"@) {
            Some(v) => v,
            None => JsonV::Object(Map::empty()),
        };
        seq![
            indexed(
                "content_block_start"@,
                index,
                "content_block"@,
                use_block(
                    ty,
                    block.str_or_empty("id"@),
                    block.str_or_empty("name"@),
                    JsonV::Object(Map::empty()),
                ),
            ),
            indexed(
                "content_block_delta"@,
                index,
                "delta"@,
                JsonV::Object(
                    map![
                        "type"@ => JsonV::String("input_json_delta"@),
                        "partial_json"@ => JsonV::String(json_text(input)),
                    ],
                ),
            ),
            stop_text(index),
        ]
    } else {
        seq![
            indexed("content_block_start"@, index, "content_block"@, block),
            stop_text(index),
        ]
    }
}

/// The events of all blocks, one after the other.
pub open spec fn blocks_frames(blocks: Seq<JsonV>) -> Seq<Seq<char>>
    decreases blocks.len(),
{
    if blocks.len() == 0 {
        seq![]
    } else {
        blocks_frames(blocks.drop_last()) + block_frames(
            (blocks.len() - 1) as u64,
            blocks.last(),
        )
    }
}

pub(crate) fn indexed_frame(event: &str, index: u64, key: &str, value: Json) -> (r: String)
    ensures
        r@ == indexed(event@, index, key@, value@),
{
    let data = Json::empty_object().with("type", Json::text(event)).with(
        "index",
        Json::whole(index),
    ).with(key, value);
    sse_event(event, &data)
}

pub(crate) fn stop_frame(index: u64) -> (r: String)
    ensures
        r@ == stop_text(index),
{
    let data = Json::empty_object().with("type", Json::text("content_block_stop")).with(
        "index",
        Json::whole(index),
    );
    sse_event("content_block_stop", &data)
}

fn render_block(index: u64, block: &Json) -> (r: Vec<String>)
    ensures
        texts(r@) == block_frames(index, block@),
{
    let mut frames: Vec<String> = Vec::new();
    let ty = block.str_or_empty("type");
    if same(ty.as_str(), "text") {
        let text = block.str_or_empty("text");
        let delta = Json::empty_object().with("type", Json::text("text_delta")).with(
            "text",
            Json::text(text.as_str()),
        );
        let start = make_text_block("");
        frames.push(indexed_frame("content_block_start", index, "content_block", start));
        frames.push(indexed_frame("content_block_delta", index, "delta", delta));
    } else if same(ty.as_str(), "server_tool_use") || same(ty.as_str(), "tool_use") {
        let id = block.str_or_empty("id");
        let name = block.str_or_empty("name");
        let input = match block.get("input") {
            Some(v) => v.to_text(),
            None => Json::empty_object().to_text(),
        };
        let start = make_use_block(
            ty.as_str(),
            id.as_str(),
            name.as_str(),
            Json::empty_object(),
        );
        let delta = Json::empty_object().with("type", Json::text("input_json_delta")).with(
            "partial_json",
            Json::text(input.as_str()),
        );
        frames.push(indexed_frame("content_block_start", index, "content_block", start));
        frames.push(indexed_frame("content_block_delta", index, "delta", delta));
    } else {
        frames.push(indexed_frame("content_block_start", index, "content_block", block.copy()));
    }
    frames.push(stop_frame(index));
    assert(texts(frames@) =~= block_frames(index, block@));
    frames
}

/// The events that replay assembled blocks.
pub fn render_block_events(blocks: &Vec<Json>) -> (r: Vec<String>)
    ensures
        texts(r@) == blocks_frames(json_seq(blocks@)),
{
    let mut frames: Vec<String> = Vec::new();
    let ghost all = json_seq(blocks@);
    let n: usize = blocks.len();
    let mut i: usize = 0;
    assert(texts(frames@) =~= blocks_frames(all.take(0)));
    while i < n
        invariant
            n == blocks@.len(),
            i <= n,
            all == json_seq(blocks@),
            texts(frames@) == blocks_frames(all.take(i as int)),
        decreases n - i,
    {
        assert(all.take(i as int + 1).drop_last() =~= all.take(i as int));
        let ghost before = frames@;
        let mut more = render_block(i as u64, &blocks[i]);
        let ghost added = more@;
        frames.append(&mut more);
        assert(texts(frames@) =~= texts(before) + texts(added));
        i += 1;
    }
    assert(all.take(n as int) =~= all);
    frames
}

} // verus!
