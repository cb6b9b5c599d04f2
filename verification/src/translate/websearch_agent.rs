//! The server-side browsing tools, carried out for models that cannot browse.
//!
//! A request that offers `web_search` or `web_fetch` is given plain functions in their
//! place. The model is asked round by round: where it calls those functions, the searches
//! and fetches are run and their results handed back, until it answers or calls a tool of
//! the client. What happened is told to the client in content blocks.
use crate::error::{error_envelope, ProxyError};
use crate::json::{int_value, json_parse, json_seq, Json, JsonV};
use crate::models::openai::{
    calls_view, copy_calls, copy_messages, messages_view, plain_message, ContentV, MessageV,
    RequestV, ToolCallV,
};
use crate::models::{anthropic, openai};
use crate::numerals::{
    decimal, decimal_text, lemma_numeral_round_trip, lemma_padding_keeps_number, numeral,
    padded_text, zero_padded,
};
use crate::text::{
    contains, find, find_chars, join, join_texts, lemma_find_from, lemma_rfind_from,
    lemma_trim_inside, occurs_at, opt_text, rfind, rfind_chars, same, starts_with, sub_chars,
    text_contains, text_starts_with, texts, to_chars, to_text, trim, trim_text,
};
use crate::translate::blocks::{
    blocks_frames, fetch_error, fetch_error_value, fetch_value, make_fetch, make_search,
    make_text_block, make_use_block, one_text, render_block_events, search_error,
    search_error_value, search_value, sse, sse_event, text_block, use_block,
};
use crate::websearch::{results_view, FetchResult, FetchResultV, SearchResult, SearchResultV};
use vstd::prelude::*;

verus! {

/// How many results a search asks for, of which engine, and in which mode.
pub const SEARCH_LIMIT: u32 = 5;

/// How many characters of a page a fetch asks for.
pub const FETCH_MAX_CHARS: u32 = 30000;

/// How many searches are honored per request.
pub const SEARCH_MAX_USES: u32 = 5;

/// How many fetches are honored per request.
pub const FETCH_MAX_USES: u32 = 10;

/// How many searches and fetches together leave the model its tools.
pub const MAX_WEB_USES: u32 = 3;

/// How many times the model is asked. The last time it has no tools.
pub const MAX_ROUNDS: usize = 5;

/// How often a busy backend is tried.
pub const BACKEND_MAX_ATTEMPTS: u32 = 3;

/// The most output that a round may have.
pub const AGENT_MAX_TOKENS: u32 = 8192;

/// The engine that a search asks.
pub fn search_engine() -> (r: &'static str)
    ensures
        r@ == "duckduckgo"@,
{
    "duckduckgo"
}

/// The mode in which a search runs.
pub fn search_mode() -> (r: &'static str)
    ensures
        r@ == "request"@,
{
    "request"
}

// ---------------------------------------------------------------------------
// Identifiers
// ---------------------------------------------------------------------------
/// Where identifiers come from: a number that grows with each.
pub struct IdSource {
    pub next: u64,
}

/// The identifier with a prefix and a number.
pub open spec fn id_text(prefix: Seq<char>, n: nat) -> Seq<char> {
    prefix + "_"@ + zero_padded(numeral(n, 16), 20)
}

impl IdSource {
    /// The first number is one.
    pub fn new() -> (r: IdSource)
        ensures
            r.next == 1,
    {
        IdSource { next: 1 }
    }

    /// The next identifier.
    pub fn next_id(&mut self, prefix: &str) -> (r: String)
        ensures
            r@ == id_text(prefix@, old(self).next as nat),
            final(self).next == (if old(self).next == u64::MAX {
                0
            } else {
                old(self).next + 1
            }),
    {
        let n: u64 = self.next;
        self.next = if n == u64::MAX {
            0
        } else {
            n + 1
        };
        let mut id = prefix.to_string();
        id.append("_");
        id.append(padded_text(n, 16, 20).as_str());
        id
    }
}

/// Identifiers with the same prefix and different numbers are different.
pub proof fn law_ids_differ(prefix: Seq<char>, a: nat, b: nat)
    requires
        a != b,
    ensures
        id_text(prefix, a) != id_text(prefix, b),
{
    let x = zero_padded(numeral(a, 16), 20);
    let y = zero_padded(numeral(b, 16), 20);
    lemma_numeral_round_trip(a, 16);
    lemma_numeral_round_trip(b, 16);
    lemma_padding_keeps_number(numeral(a, 16), 20, 16);
    lemma_padding_keeps_number(numeral(b, 16), 20, 16);
    if id_text(prefix, a) == id_text(prefix, b) {
        let k = (prefix + "_"@).len() as int;
        assert(id_text(prefix, a).skip(k) =~= x);
        assert(id_text(prefix, b).skip(k) =~= y);
    }
}

// ---------------------------------------------------------------------------
// Which tools browse
// ---------------------------------------------------------------------------
/// A tool type of searching, in any version.
pub open spec fn search_type(t: Seq<char>) -> bool {
    starts_with(t, "web_search"@)
}

/// A tool type of fetching, in any version.
pub open spec fn fetch_type(t: Seq<char>) -> bool {
    starts_with(t, "web_fetch"@)
}

/// The tool is a server-side browsing tool.
pub open spec fn browses(t: anthropic::Tool) -> bool {
    match t.tool_type {
        Some(ty) => search_type(ty@) || fetch_type(ty@),
        None => false,
    }
}

/// The request offers a server-side browsing tool.
pub open spec fn offers_browsing(req: anthropic::AnthropicRequest) -> bool {
    req.tools matches Some(tools) && exists|i: int|
        0 <= i < tools@.len() && browses(#[trigger] tools@[i])
}

fn tool_browses(t: &anthropic::Tool) -> (r: bool)
    ensures
        r == browses(*t),
{
    match &t.tool_type {
        Some(ty) => text_starts_with(ty.as_str(), "web_search") || text_starts_with(
            ty.as_str(),
            "web_fetch",
        ),
        None => false,
    }
}

/// Whether the request offers a server-side browsing tool. If not, it takes the normal path.
pub fn detect(req: &anthropic::AnthropicRequest) -> (r: bool)
    ensures
        r == offers_browsing(*req),
{
    match &req.tools {
        Some(tools) => {
            let n: usize = tools.len();
            let mut i: usize = 0;
            while i < n
                invariant
                    n == tools@.len(),
                    i <= n,
                    req.tools == Some(*tools),
                    forall|k: int| 0 <= k < i ==> !browses(#[trigger] tools@[k]),
                decreases n - i,
            {
                if tool_browses(&tools[i]) {
                    assert(browses(req.tools->0@[i as int]));
                    return true;
                }
                i += 1;
            }
            false
        },
        None => false,
    }
}

/// The tools that do not browse.
pub open spec fn not_browsing() -> spec_fn(anthropic::Tool) -> bool {
    |t: anthropic::Tool| !browses(t)
}

/// Takes the server-side browsing tools away, and the list with the last of them.
pub fn strip_web_tools(req: &mut anthropic::AnthropicRequest)
    ensures
        match old(req).tools {
            Some(tools) => {
                let kept = tools@.filter(not_browsing());
                if kept.len() == 0 {
                    final(req).tools is None
                } else {
                    final(req).tools is Some && final(req).tools->0@ == kept
                }
            },
            None => final(req).tools is None,
        },
        !offers_browsing(*final(req)),
        final(req).model == old(req).model,
        final(req).max_tokens == old(req).max_tokens,
        final(req).messages == old(req).messages,
        final(req).system == old(req).system,
{
    let tools = match req.tools.take() {
        Some(tools) => tools,
        None => {
            return;
        },
    };
    let ghost all = tools@;
    let mut kept: Vec<anthropic::Tool> = Vec::new();
    proof {
        reveal(Seq::filter);
        assert(all.take(0) =~= Seq::<anthropic::Tool>::empty());
    }
    for t in it: tools
        invariant
            it.seq() == all,
            kept@ == all.take(it.index()).filter(not_browsing()),
    {
        proof {
            reveal(Seq::filter);
            assert(all.take(it.index() + 1).drop_last() =~= all.take(it.index()));
            assert(all.take(it.index() + 1).last() == t);
        }
        if !tool_browses(&t) {
            kept.push(t);
        }
    }
    proof {
        broadcast use vstd::seq_lib::group_filter_ensures;

        assert(all.take(all.len() as int) =~= all);
        assert forall|i: int| 0 <= i < kept@.len() implies !browses(#[trigger] kept@[i]) by {
            assert(not_browsing()(all.filter(not_browsing())[i]));
        }
    }
    if kept.len() > 0 {
        req.tools = Some(kept);
    }
}

/// The schema of a function with one text argument.
pub open spec fn one_argument(name: Seq<char>, description: Seq<char>) -> JsonV {
    JsonV::Object(
        map![
            "type"@ => JsonV::String("object"@),
            "properties"@ => JsonV::Object(
                map![
                    name => JsonV::Object(
                        map![
                            "type"@ => JsonV::String("string"@),
                            "description"@ => JsonV::String(description),
                        ],
                    ),
                ],
            ),
            "required"@ => JsonV::Array(seq![JsonV::String(name)]),
        ],
    )
}

fn one_argument_schema(name: &str, description: &str) -> (r: Json)
    ensures
        r@ == one_argument(name@, description@),
{
    let argument = Json::empty_object().with("type", Json::text("string")).with(
        "description",
        Json::text(description),
    );
    let properties = Json::empty_object().with(name, argument);
    let mut names: Vec<String> = Vec::new();
    names.push(name.to_string());
    let required = Json::text_array(names.as_slice());
    assert(required@ == JsonV::Array(seq![JsonV::String(name@)])) by {
        assert(required@->Array_0 =~= seq![JsonV::String(name@)]);
    }
    Json::empty_object().with("type", Json::text("object")).with("properties", properties).with(
        "required",
        required,
    )
}

/// A browsing tool became a plain function; any other tool is as it was.
pub open spec fn rewritten(before: anthropic::Tool, after: anthropic::Tool) -> bool {
    if !browses(before) {
        after == before
    } else if search_type(before.tool_type->0@) {
        &&& after.tool_type is None
        &&& after.name@ == "web_search"@
        &&& opt_text(after.description) == Some(
            "Search the web and return relevant results for a query."@,
        )
        &&& after.input_schema@ == one_argument("query"@, "The search query."@)
    } else {
        &&& after.tool_type is None
        &&& after.name@ == "web_fetch"@
        &&& opt_text(after.description) == Some("Fetch and read the full text content of a URL."@)
        &&& after.input_schema@ == one_argument("url"@, "The URL to fetch."@)
    }
}

fn rewrite_tool(t: anthropic::Tool) -> (r: anthropic::Tool)
    ensures
        rewritten(t, r),
{
    if !tool_browses(&t) {
        return t;
    }
    let search = match &t.tool_type {
        Some(ty) => text_starts_with(ty.as_str(), "web_search"),
        None => false,
    };
    if search {
        anthropic::Tool {
            name: "web_search".to_string(),
            description: Some(
                "Search the web and return relevant results for a query.".to_string(),
            ),
            input_schema: one_argument_schema("query", "The search query."),
            tool_type: None,
        }
    } else {
        anthropic::Tool {
            name: "web_fetch".to_string(),
            description: Some("Fetch and read the full text content of a URL.".to_string()),
            input_schema: one_argument_schema("url", "The URL to fetch."),
            tool_type: None,
        }
    }
}

/// Turns the server-side browsing tools into plain functions, which a model can call. Other
/// tools stay as they are, and each tool keeps its place.
pub fn rewrite_tools(req: &mut anthropic::AnthropicRequest)
    ensures
        final(req).tools is Some <==> old(req).tools is Some,
        old(req).tools is Some ==> final(req).tools->0@.len() == old(req).tools->0@.len() && forall|
            i: int,
        |
            0 <= i < old(req).tools->0@.len() ==> rewritten(
                old(req).tools->0@[i],
                #[trigger] final(req).tools->0@[i],
            ),
        !offers_browsing(*final(req)),
        final(req).model == old(req).model,
        final(req).max_tokens == old(req).max_tokens,
        final(req).messages == old(req).messages,
        final(req).system == old(req).system,
{
    let tools = match req.tools.take() {
        Some(tools) => tools,
        None => {
            return;
        },
    };
    let ghost all = tools@;
    let mut out: Vec<anthropic::Tool> = Vec::new();
    for t in it: tools
        invariant
            it.seq() == all,
            out@.len() == it.index(),
            forall|k: int| 0 <= k < it.index() ==> rewritten(all[k], #[trigger] out@[k]),
    {
        out.push(rewrite_tool(t));
    }
    req.tools = Some(out);
}

// ---------------------------------------------------------------------------
// Text of the model
// ---------------------------------------------------------------------------
/// The lesser of two positions.
pub open spec fn earlier(a: Option<int>, b: Option<int>) -> Option<int> {
    match (a, b) {
        (Some(x), Some(y)) => if x <= y {
            Some(x)
        } else {
            Some(y)
        },
        (Some(x), None) => Some(x),
        (None, y) => y,
    }
}

/// Where tool syntax or thoughts leak into a text first.
pub open spec fn leak(s: Seq<char>) -> Option<int> {
    earlier(
        earlier(
            earlier(find(s, "<tool_call>"@), find(s, "<function="@)),
            find(s, "<|tool_call"@),
        ),
        find(s, "<think>"@),
    )
}

/// What follows the last end of thoughts.
pub open spec fn past_thoughts(s: Seq<char>) -> Seq<char> {
    match rfind(s, "</think>"@) {
        Some(i) => s.skip(i + "</think>"@.len()),
        None => s,
    }
}

/// An answer alone: what follows the last end of thoughts, up to where anything leaks.
pub open spec fn sanitized(s: Seq<char>) -> Seq<char> {
    let t = past_thoughts(s);
    trim(match leak(t) {
        Some(i) => t.take(i),
        None => t,
    })
}

fn least(a: Option<usize>, b: Option<usize>) -> (r: Option<usize>)
    ensures
        (match r {
            Some(x) => Some(x as int),
            None => None,
        }) == earlier(
            match a {
                Some(x) => Some(x as int),
                None => None,
            },
            match b {
                Some(x) => Some(x as int),
                None => None,
            },
        ),
{
    match (a, b) {
        (Some(x), Some(y)) => if x <= y {
            Some(x)
        } else {
            Some(y)
        },
        (Some(x), None) => Some(x),
        (None, y) => y,
    }
}

/// An answer without leaked thoughts and tool syntax.
pub fn sanitize_answer(text: &str) -> (r: String)
    ensures
        r@ == sanitized(text@),
{
    let all = to_chars(text);
    let mark = to_chars("</think>");
    proof {
        lemma_rfind_from(all@, mark@, all@.len() - mark@.len());
    }
    let cs = match rfind_chars(all.as_slice(), mark.as_slice()) {
        Some(i) => {
            let n: usize = all.len();
            sub_chars(all.as_slice(), i + mark.len(), n)
        },
        None => all,
    };
    assert(cs@ =~= past_thoughts(text@));
    let t1 = to_chars("<tool_call>");
    let t2 = to_chars("<function=");
    let t3 = to_chars("<|tool_call");
    let t4 = to_chars("<think>");
    proof {
        lemma_find_from(cs@, t1@, 0);
        lemma_find_from(cs@, t2@, 0);
        lemma_find_from(cs@, t3@, 0);
        lemma_find_from(cs@, t4@, 0);
    }
    let a = find_chars(cs.as_slice(), t1.as_slice(), 0);
    let b = find_chars(cs.as_slice(), t2.as_slice(), 0);
    let c = find_chars(cs.as_slice(), t3.as_slice(), 0);
    let d = find_chars(cs.as_slice(), t4.as_slice(), 0);
    let cut = least(least(least(a, b), c), d);
    let end: usize = match cut {
        Some(i) => i,
        None => cs.len(),
    };
    let kept = sub_chars(cs.as_slice(), 0, end);
    assert(kept@ =~= cs@.take(end as int));
    assert(cut is None ==> kept@ =~= cs@);
    let kept = to_text(kept.as_slice());
    trim_text(kept.as_str())
}

// ---------------------------------------------------------------------------
// The state of a run
// ---------------------------------------------------------------------------
/// What a run gives the client.
pub struct AgentOutput {
    pub model: String,
    pub blocks: Vec<Json>,
    pub stop_reason: String,
    pub input_tokens: u32,
    pub output_tokens: u32,
    pub search_requests: u32,
    pub fetch_requests: u32,
}

/// A run: the request it repeats, the conversation so far, what it gives the client so
/// far, how many rounds are over, and whether the run is.
pub struct WebAgent {
    pub request: openai::OpenAIRequest,
    pub messages: Vec<openai::Message>,
    pub out: AgentOutput,
    pub round: usize,
    pub over: bool,
}

/// What the client is given.
pub struct OutputV {
    pub model: Seq<char>,
    pub blocks: Seq<JsonV>,
    pub stop_reason: Seq<char>,
    pub input_tokens: u32,
    pub output_tokens: u32,
    pub searches: u32,
    pub fetches: u32,
}

/// What a run is.
pub struct AgentV {
    pub request: RequestV,
    pub messages: Seq<MessageV>,
    pub out: OutputV,
    pub round: int,
    pub over: bool,
}

impl AgentOutput {
    pub open spec fn view(&self) -> OutputV {
        OutputV {
            model: self.model@,
            blocks: json_seq(self.blocks@),
            stop_reason: self.stop_reason@,
            input_tokens: self.input_tokens,
            output_tokens: self.output_tokens,
            searches: self.search_requests,
            fetches: self.fetch_requests,
        }
    }
}

impl WebAgent {
    pub open spec fn view(&self) -> AgentV {
        AgentV {
            request: self.request@,
            messages: messages_view(self.messages@),
            out: self.out@,
            round: self.round as int,
            over: self.over,
        }
    }
}

impl OutputV {
    /// The usage that the client is told: browsing counts only where there was any.
    pub open spec fn usage(self) -> JsonV {
        let base = map![
            "input_tokens"@ => int_value(self.input_tokens as u64),
            "output_tokens"@ => int_value(self.output_tokens as u64),
        ];
        let none = Map::<Seq<char>, JsonV>::empty();
        let searched = if self.searches > 0 {
            none.insert("web_search_requests"@, int_value(self.searches as u64))
        } else {
            none
        };
        let fetched = if self.fetches > 0 {
            searched.insert("web_fetch_requests"@, int_value(self.fetches as u64))
        } else {
            searched
        };
        JsonV::Object(
            if self.searches > 0 || self.fetches > 0 {
                base.insert("server_tool_use"@, JsonV::Object(fetched))
            } else {
                base
            },
        )
    }

    /// One more block.
    pub open spec fn with_block(self, block: JsonV) -> OutputV {
        OutputV { blocks: self.blocks.push(block), ..self }
    }

    /// One more text block, where the text says anything.
    pub open spec fn with_text(self, text: Option<Seq<char>>) -> OutputV {
        match text {
            Some(t) => if sanitized(t).len() > 0 {
                self.with_block(text_block(sanitized(t)))
            } else {
                self
            },
            None => self,
        }
    }

    /// The text that ends a run: a fixed one where the model's says nothing.
    pub open spec fn with_last_text(self, text: Option<Seq<char>>) -> OutputV {
        let said = self.with_text(text);
        if said == self {
            self.with_block(text_block(no_answer()))
        } else {
            said
        }
    }
}

/// What the client reads where the model ended a run without writing anything.
pub open spec fn no_answer() -> Seq<char> {
    "No answer was written."@
}

impl AgentOutput {
    /// The usage that the client is told.
    pub fn usage_value(&self) -> (r: Json)
        ensures
            r@ == self@.usage(),
    {
        let base = Json::empty_object().with(
            "input_tokens",
            Json::whole(self.input_tokens as u64),
        ).with("output_tokens", Json::whole(self.output_tokens as u64));
        if self.search_requests > 0 || self.fetch_requests > 0 {
            let mut browsing = Json::empty_object();
            if self.search_requests > 0 {
                browsing = browsing.with(
                    "web_search_requests",
                    Json::whole(self.search_requests as u64),
                );
            }
            if self.fetch_requests > 0 {
                browsing = browsing.with(
                    "web_fetch_requests",
                    Json::whole(self.fetch_requests as u64),
                );
            }
            base.with("server_tool_use", browsing)
        } else {
            base
        }
    }

    fn push_block(&mut self, block: Json)
        ensures
            final(self)@ == old(self)@.with_block(block@),
    {
        let ghost before = self.blocks@;
        self.blocks.push(block);
        assert(json_seq(self.blocks@) =~= json_seq(before).push(block@));
    }

    fn push_text(&mut self, text: Option<&str>) -> (r: bool)
        ensures
            final(self)@ == old(self)@.with_text(
                match text {
                    Some(t) => Some(t@),
                    None => None,
                },
            ),
            r == (final(self)@ != old(self)@),
    {
        if let Some(text) = text {
            let cleaned = sanitize_answer(text);
            if !cleaned.as_str().is_empty() {
                self.push_block(make_text_block(cleaned.as_str()));
                assert(self@.blocks.len() != old(self)@.blocks.len());
                return true;
            }
        }
        false
    }
}

// ---------------------------------------------------------------------------
// The start
// ---------------------------------------------------------------------------
/// The message is a system message with a plain text.
pub open spec fn is_system_text(m: MessageV) -> bool {
    m.role == "system"@ && (m.content matches Some(c) && c is Text)
}

/// The first system message with a plain text, from `i` on.
pub open spec fn system_text_from(ms: Seq<MessageV>, i: int) -> Option<int>
    decreases ms.len() - i,
{
    if i < 0 || i >= ms.len() {
        None
    } else if is_system_text(ms[i]) {
        Some(i)
    } else {
        system_text_from(ms, i + 1)
    }
}

/// The conversation with chain-of-thought switched off: the switch stands in the first
/// system text, or in one of its own at the front.
pub open spec fn without_thinking(ms: Seq<MessageV>) -> Seq<MessageV> {
    match system_text_from(ms, 0) {
        Some(i) => {
            let text = ms[i].content->0->Text_0;
            if contains(text, "/no_think"@) {
                ms
            } else {
                ms.update(
                    i,
                    MessageV { content: Some(ContentV::Text(text + "\n/no_think"@)), ..ms[i] },
                )
            }
        },
        None => ms.insert(0, plain_message("system"@, "/no_think"@)),
    }
}

/// Switches chain-of-thought off for the whole run.
pub fn disable_thinking(messages: &mut Vec<openai::Message>)
    ensures
        messages_view(final(messages)@) == without_thinking(messages_view(old(messages)@)),
{
    let ghost before = messages@;
    let ghost ms = messages_view(messages@);
    let n: usize = messages.len();
    let mut i: usize = 0;
    while i < n
        invariant
            n == messages@.len(),
            i <= n,
            messages@ == before,
            ms == messages_view(before),
            ms == messages_view(old(messages)@),
            system_text_from(ms, 0) == system_text_from(ms, i as int),
        decreases n - i,
    {
        assert(ms[i as int] == messages@[i as int]@);
        if same(messages[i].role.as_str(), "system") {
            let found = match &messages[i].content {
                Some(openai::MessageContent::Text(t)) => Some(t.clone()),
                _ => None,
            };
            if let Some(text) = found {
                if !text_contains(text.as_str(), "/no_think") {
                    let mut changed = messages[i].copy();
                    let mut longer = text.clone();
                    longer.append("\n/no_think");
                    changed.content = Some(openai::MessageContent::Text(longer));
                    let ghost c = changed@;
                    messages.set(i, changed);
                    assert(messages_view(messages@) =~= ms.update(i as int, c));
                }
                return;
            }
        }
        i += 1;
    }
    let first = openai::Message::plain("system", "/no_think");
    let ghost f = first@;
    messages.insert(0, first);
    assert(messages_view(messages@) =~= ms.insert(0, f));
}

/// A run before its first round: the request goes to the agent's model, with little output
/// and little effort, whatever the client asked for.
pub open spec fn begun(request: RequestV, model: Option<Seq<char>>) -> AgentV {
    let agent_model = match model {
        Some(m) => m,
        None => "auto"@,
    };
    AgentV {
        request: RequestV {
            model: agent_model,
            max_tokens: Some(
                match request.max_tokens {
                    Some(m) => if m <= AGENT_MAX_TOKENS {
                        m
                    } else {
                        AGENT_MAX_TOKENS
                    },
                    None => AGENT_MAX_TOKENS,
                },
            ),
            reasoning_effort: Some("low"@),
            ..request
        },
        messages: without_thinking(request.messages),
        out: OutputV {
            model: agent_model,
            blocks: seq![],
            stop_reason: "end_turn"@,
            input_tokens: 0,
            output_tokens: 0,
            searches: 0,
            fetches: 0,
        },
        round: 0,
        over: false,
    }
}

impl WebAgent {
    /// A run for the request, on the configured model.
    pub fn begin(request: openai::OpenAIRequest, model: Option<String>) -> (r: WebAgent)
        ensures
            r@ == begun(request@, opt_text(model)),
            r@.wf(),
    {
        let mut request = request;
        let agent_model = match model {
            Some(m) => m,
            None => "auto".to_string(),
        };
        request.model = agent_model.clone();
        let limit: u32 = match request.max_tokens {
            Some(m) => if m <= AGENT_MAX_TOKENS {
                m
            } else {
                AGENT_MAX_TOKENS
            },
            None => AGENT_MAX_TOKENS,
        };
        request.max_tokens = Some(limit);
        request.reasoning_effort = Some("low".to_string());
        let mut messages = copy_messages(&request.messages);
        disable_thinking(&mut messages);
        let blocks: Vec<Json> = Vec::new();
        assert(json_seq(blocks@) =~= Seq::<JsonV>::empty());
        let out = AgentOutput {
            model: agent_model,
            blocks,
            stop_reason: "end_turn".to_string(),
            input_tokens: 0,
            output_tokens: 0,
            search_requests: 0,
            fetch_requests: 0,
        };
        WebAgent { request, messages, out, round: 0, over: false }
    }
}

// ---------------------------------------------------------------------------
// A round
// ---------------------------------------------------------------------------
/// What the model is told when it has to answer.
pub open spec fn answer_now() -> Seq<char> {
    "Stop searching. Using only the information already gathered above, write the final answer to my original request now. Do not call any tools or output any tool-call syntax."@
}

impl AgentV {
    /// The counts stay within their type.
    pub open spec fn wf(self) -> bool {
        &&& self.out.searches + self.out.fetches <= u32::MAX
        &&& 0 <= self.round <= MAX_ROUNDS
    }

    /// The model has to answer now: it is the last round, or the budget is spent.
    pub open spec fn must_answer(self) -> bool {
        self.round + 1 >= MAX_ROUNDS || self.out.searches + self.out.fetches >= MAX_WEB_USES
    }

    /// The run asks the model once more.
    pub open spec fn goes_on(self) -> bool {
        !self.over && self.round < MAX_ROUNDS
    }

    /// What the model is sent in this round.
    pub open spec fn round_request(self) -> RequestV {
        let plain = RequestV {
            messages: self.messages,
            stream: Some(false),
            stream_options: None,
            ..self.request
        };
        if self.must_answer() {
            RequestV {
                messages: self.messages.push(plain_message("user"@, answer_now())),
                tools: None,
                tool_choice: None,
                parallel_tool_calls: None,
                ..plain
            }
        } else {
            plain
        }
    }
}

impl WebAgent {
    /// Whether the model has to answer in this round.
    pub fn must_answer(&self) -> (r: bool)
        requires
            self@.wf(),
        ensures
            r == self@.must_answer(),
    {
        self.round + 1 >= MAX_ROUNDS || self.out.search_requests + self.out.fetch_requests
            >= MAX_WEB_USES
    }

    /// What the model is sent next, or nothing where the run is over.
    pub fn next_request(&self) -> (r: Option<openai::OpenAIRequest>)
        requires
            self@.wf(),
        ensures
            match r {
                Some(q) => self@.goes_on() && q@ == self@.round_request(),
                None => !self@.goes_on(),
            },
    {
        if self.over || self.round >= MAX_ROUNDS {
            None
        } else {
            Some(self.round_request())
        }
    }

    /// What the model is sent in this round.
    pub fn round_request(&self) -> (r: openai::OpenAIRequest)
        requires
            self@.wf(),
            self@.round < MAX_ROUNDS,
        ensures
            r@ == self@.round_request(),
    {
        let mut req = self.request.copy();
        let mut messages = copy_messages(&self.messages);
        req.stream = Some(false);
        req.stream_options = None;
        if self.must_answer() {
            req.tools = None;
            req.tool_choice = None;
            req.parallel_tool_calls = None;
            let ghost before = messages@;
            let last = openai::Message::plain(
                "user",
                "Stop searching. Using only the information already gathered above, write the final answer to my original request now. Do not call any tools or output any tool-call syntax.",
            );
            let ghost l = last@;
            messages.push(last);
            assert(messages_view(messages@) =~= messages_view(before).push(l));
        }
        req.messages = messages;
        req
    }
}

/// Searching or fetching.
#[derive(Debug, Clone, Copy, PartialEq, Eq, Structural)]
pub enum WebKind {
    Search,
    Fetch,
}

/// What the function of that name does.
pub open spec fn kind_of(name: Seq<char>) -> Option<WebKind> {
    if name == "web_search"@ {
        Some(WebKind::Search)
    } else if name == "web_fetch"@ {
        Some(WebKind::Fetch)
    } else {
        None
    }
}

/// What the function of that name does.
pub fn web_kind(name: &str) -> (r: Option<WebKind>)
    ensures
        r == kind_of(name@),
{
    if same(name, "web_search") {
        Some(WebKind::Search)
    } else if same(name, "web_fetch") {
        Some(WebKind::Fetch)
    } else {
        None
    }
}

/// The arguments of a call: an empty object where they are not JSON.
pub open spec fn arguments_value(text: Seq<char>) -> JsonV {
    match json_parse(text) {
        Some(v) => v,
        None => JsonV::Object(Map::empty()),
    }
}

/// The arguments of a call.
pub fn parse_args(arguments: &str) -> (r: Json)
    ensures
        r@ == arguments_value(arguments@),
{
    match Json::parse(arguments) {
        Some(v) => v,
        None => Json::empty_object(),
    }
}

/// One planned search or fetch: which call it answers, under which identifier the client
/// sees it, and whether it is over the budget.
pub struct Plan {
    pub tc_id: String,
    pub srv_id: String,
    pub kind: WebKind,
    pub arg: String,
    pub over_budget: bool,
}

/// What a plan is.
pub struct PlanV {
    pub tc_id: Seq<char>,
    pub srv_id: Seq<char>,
    pub kind: WebKind,
    pub arg: Seq<char>,
    pub over_budget: bool,
}

impl Plan {
    pub open spec fn view(&self) -> PlanV {
        PlanV {
            tc_id: self.tc_id@,
            srv_id: self.srv_id@,
            kind: self.kind,
            arg: self.arg@,
            over_budget: self.over_budget,
        }
    }
}

/// The plans of a round.
pub open spec fn plans_view(v: Seq<Plan>) -> Seq<PlanV> {
    Seq::new(v.len(), |i: int| v[i].view())
}

/// Plans made so far, with what the client is given and the next identifier's number.
pub struct Planning {
    pub out: OutputV,
    pub plans: Seq<PlanV>,
    pub next: u64,
}

/// The number after `n`.
pub open spec fn following(n: u64) -> u64 {
    if n == u64::MAX {
        0
    } else {
        (n + 1) as u64
    }
}

impl Planning {
    /// One more call: it is counted, told to the client, and planned.
    pub open spec fn with_call(self, call: ToolCallV) -> Planning {
        let args = arguments_value(call.arguments);
        let srv_id = id_text("srvtoolu"@, self.next as nat);
        match kind_of(call.name) {
            Some(WebKind::Search) => {
                let query = args.str_or_empty("query"@);
                let block = use_block(
                    "server_tool_use"@,
                    srv_id,
                    "web_search"@,
                    one_text("query"@, query),
                );
                let searches = (self.out.searches + 1) as u32;
                Planning {
                    out: OutputV { searches, ..self.out.with_block(block) },
                    plans: self.plans.push(
                        PlanV {
                            tc_id: call.id,
                            srv_id,
                            kind: WebKind::Search,
                            arg: query,
                            over_budget: searches > SEARCH_MAX_USES,
                        },
                    ),
                    next: following(self.next),
                }
            },
            _ => {
                let url = args.str_or_empty("url"@);
                let block = use_block(
                    "server_tool_use"@,
                    srv_id,
                    "web_fetch"@,
                    one_text("url"@, url),
                );
                let fetches = (self.out.fetches + 1) as u32;
                Planning {
                    out: OutputV { fetches, ..self.out.with_block(block) },
                    plans: self.plans.push(
                        PlanV {
                            tc_id: call.id,
                            srv_id,
                            kind: WebKind::Fetch,
                            arg: url,
                            over_budget: fetches > FETCH_MAX_USES,
                        },
                    ),
                    next: following(self.next),
                }
            },
        }
    }

    /// Some more calls, in their order.
    pub open spec fn with_calls(self, calls: Seq<ToolCallV>) -> Planning
        decreases calls.len(),
    {
        if calls.len() == 0 {
            self
        } else {
            self.with_calls(calls.drop_last()).with_call(calls.last())
        }
    }
}

/// The tool calls of an answer.
pub open spec fn answer_calls(m: openai::ResponseMessage) -> Seq<ToolCallV> {
    match m.tool_calls {
        Some(c) => calls_view(c@),
        None => seq![],
    }
}

/// The answer calls tools, and all of them browse.
pub open spec fn only_browses(calls: Seq<ToolCallV>) -> bool {
    calls.len() > 0 && forall|i: int|
        0 <= i < calls.len() ==> kind_of((#[trigger] calls[i]).name) is Some
}

/// The answer calls a tool of the client.
pub open spec fn calls_client(m: openai::ResponseMessage) -> bool {
    answer_calls(m).len() > 0 && !only_browses(answer_calls(m))
}

/// The last block is a text.
pub open spec fn ends_with_text(blocks: Seq<JsonV>) -> bool {
    blocks.len() > 0 && exists|t: Seq<char>|
        t.len() > 0 && blocks.last() == #[trigger] text_block(t)
}

/// Calls handed to the client as they are.
pub open spec fn with_client_calls(out: OutputV, calls: Seq<ToolCallV>) -> OutputV
    decreases calls.len(),
{
    if calls.len() == 0 {
        out
    } else {
        let call = calls.last();
        with_client_calls(out, calls.drop_last()).with_block(
            use_block("tool_use"@, call.id, call.name, arguments_value(call.arguments)),
        )
    }
}

impl AgentV {
    /// After an answer was counted: the model that gave it, and the tokens it took.
    pub open spec fn counting(self, resp: openai::OpenAIResponse) -> AgentV {
        AgentV {
            out: OutputV {
                model: match resp.model {
                    Some(m) => m@,
                    None => self.out.model,
                },
                input_tokens: if self.round == 0 {
                    resp.usage.prompt_tokens
                } else {
                    self.out.input_tokens
                },
                output_tokens: (self.out.output_tokens + resp.usage.completion_tokens) as u32,
                ..self.out
            },
            ..self
        }
    }

    /// An answer that ends the run: it does not browse, or calls a tool of the client too, or
    /// had to be the last.
    pub open spec fn ends(self, m: openai::ResponseMessage) -> bool {
        self.must_answer() || !only_browses(answer_calls(m))
    }

    /// After an answer that ends the run: its text and its tool calls for the client, or a text
    /// alone where it calls no tool of the client.
    pub open spec fn answered(self, m: openai::ResponseMessage) -> AgentV {
        let text = opt_text(m.content);
        AgentV {
            out: if calls_client(m) {
                OutputV {
                    stop_reason: "tool_use"@,
                    ..with_client_calls(self.out.with_text(text), answer_calls(m))
                }
            } else {
                OutputV { stop_reason: "end_turn"@, ..self.out.with_last_text(text) }
            },
            over: true,
            ..self
        }
    }

    /// After an answer that cannot be used.
    pub open spec fn failed(self) -> AgentV {
        AgentV { over: true, ..self }
    }

    /// The plans for an answer that browses.
    pub open spec fn planning(self, m: openai::ResponseMessage, next: u64) -> Planning {
        Planning { out: self.out.with_text(opt_text(m.content)), plans: seq![], next }.with_calls(
            answer_calls(m),
        )
    }

    /// After an answer that browses: the answer joins the conversation.
    pub open spec fn browsing(self, m: openai::ResponseMessage, next: u64) -> AgentV {
        AgentV {
            messages: self.messages.push(
                MessageV {
                    role: "assistant"@,
                    content: match m.content {
                        Some(t) => Some(ContentV::Text(t@)),
                        None => None,
                    },
                    reasoning_content: None,
                    tool_calls: Some(answer_calls(m)),
                    tool_call_id: None,
                    name: None,
                },
            ),
            out: self.planning(m, next).out,
            ..self
        }
    }
}

/// What an answer leads to.
pub enum Step {
    /// The run is over; its output is what the client is given.
    Done,
    /// The searches and fetches to run.
    Browse(Vec<Plan>),
    /// The answer is unusable.
    Failed(ProxyError),
}

proof fn lemma_planning_counts(p: Planning, calls: Seq<ToolCallV>)
    requires
        p.out.searches + p.out.fetches + calls.len() <= u32::MAX,
        forall|i: int| 0 <= i < calls.len() ==> kind_of((#[trigger] calls[i]).name) is Some,
    ensures
        ({
            let q = p.with_calls(calls);
            &&& q.out.searches + q.out.fetches == p.out.searches + p.out.fetches + calls.len()
            &&& q.plans.len() == p.plans.len() + calls.len()
            &&& q.out.blocks.len() == p.out.blocks.len() + calls.len()
        }),
    decreases calls.len(),
{
    if calls.len() > 0 {
        assert forall|i: int| 0 <= i < calls.len() - 1 implies kind_of(
            (#[trigger] calls.drop_last()[i]).name,
        ) is Some by {
            assert(calls.drop_last()[i] == calls[i]);
        }
        lemma_planning_counts(p, calls.drop_last());
    }
}

impl WebAgent {
    fn plan_call(&mut self, call: &openai::ToolCall, ids: &mut IdSource) -> (r: Plan)
        requires
            kind_of(call.function.name@) is Some,
            old(self)@.out.searches + old(self)@.out.fetches < u32::MAX,
        ensures
            forall|plans: Seq<PlanV>|
                #![trigger plans.push(r@)]
                (Planning { out: old(self)@.out, plans, next: old(ids).next }).with_call(call@) == (
                Planning { out: final(self)@.out, plans: plans.push(r@), next: final(ids).next }),
            final(self).request == old(self).request,
            final(self).messages == old(self).messages,
            final(self).round == old(self).round,
            final(self).over == old(self).over,
    {
        let args = parse_args(call.function.arguments.as_str());
        let srv_id = ids.next_id("srvtoolu");
        let search = match web_kind(call.function.name.as_str()) {
            Some(WebKind::Search) => true,
            _ => false,
        };
        if search {
            let query = args.str_or_empty("query");
            let input = Json::empty_object().with("query", Json::text(query.as_str()));
            self.out.push_block(
                make_use_block("server_tool_use", srv_id.as_str(), "web_search", input),
            );
            self.out.search_requests += 1;
            Plan {
                tc_id: call.id.clone(),
                srv_id,
                kind: WebKind::Search,
                arg: query,
                over_budget: self.out.search_requests > SEARCH_MAX_USES,
            }
        } else {
            let url = args.str_or_empty("url");
            let input = Json::empty_object().with("url", Json::text(url.as_str()));
            self.out.push_block(
                make_use_block("server_tool_use", srv_id.as_str(), "web_fetch", input),
            );
            self.out.fetch_requests += 1;
            Plan {
                tc_id: call.id.clone(),
                srv_id,
                kind: WebKind::Fetch,
                arg: url,
                over_budget: self.out.fetch_requests > FETCH_MAX_USES,
            }
        }
    }
}

fn all_web(calls: &Vec<openai::ToolCall>) -> (r: bool)
    ensures
        r == only_browses(calls_view(calls@)),
{
    let n: usize = calls.len();
    let mut i: usize = 0;
    while i < n
        invariant
            n == calls@.len(),
            i <= n,
            forall|k: int|
                0 <= k < i ==> kind_of((#[trigger] calls_view(calls@)[k]).name) is Some,
        decreases n - i,
    {
        assert(calls_view(calls@)[i as int].name == calls@[i as int].function.name@);
        if web_kind(calls[i].function.name.as_str()).is_none() {
            return false;
        }
        i += 1;
    }
    n > 0
}

impl WebAgent {
    fn hand_back(&mut self, calls: &Vec<openai::ToolCall>)
        ensures
            final(self)@ == (AgentV {
                out: with_client_calls(old(self)@.out, calls_view(calls@)),
                ..old(self)@
            }),
    {
        let ghost all = calls_view(calls@);
        let n: usize = calls.len();
        let mut i: usize = 0;
        assert(all.take(0) =~= Seq::<ToolCallV>::empty());
        while i < n
            invariant
                n == calls@.len(),
                i <= n,
                all == calls_view(calls@),
                self@ == (AgentV {
                    out: with_client_calls(old(self)@.out, all.take(i as int)),
                    ..old(self)@
                }),
            decreases n - i,
        {
            assert(all.take(i as int + 1).drop_last() =~= all.take(i as int));
            let call = &calls[i];
            let input = parse_args(call.function.arguments.as_str());
            self.out.push_block(
                make_use_block("tool_use", call.id.as_str(), call.function.name.as_str(), input),
            );
            i += 1;
        }
        assert(all.take(n as int) =~= all);
    }

    fn plan_calls(&mut self, calls: &Vec<openai::ToolCall>, ids: &mut IdSource) -> (r: Vec<Plan>)
        requires
            only_browses(calls_view(calls@)),
            old(self)@.out.searches + old(self)@.out.fetches + calls@.len() <= u32::MAX,
        ensures
            (Planning { out: old(self)@.out, plans: seq![], next: old(ids).next }).with_calls(
                calls_view(calls@),
            ) == (Planning {
                out: final(self)@.out,
                plans: plans_view(r@),
                next: final(ids).next,
            }),
            final(self).request == old(self).request,
            final(self).messages == old(self).messages,
            final(self).round == old(self).round,
            final(self).over == old(self).over,
    {
        let ghost all = calls_view(calls@);
        let ghost first = Planning { out: self@.out, plans: seq![], next: ids.next };
        let mut plans: Vec<Plan> = Vec::new();
        let n: usize = calls.len();
        let mut i: usize = 0;
        proof {
            assert(all.take(0) =~= Seq::<ToolCallV>::empty());
            assert(plans_view(plans@) =~= Seq::<PlanV>::empty());
        }
        while i < n
            invariant
                n == calls@.len(),
                i <= n,
                all == calls_view(calls@),
                only_browses(all),
                first == (Planning { out: old(self)@.out, plans: seq![], next: old(ids).next }),
                first.out.searches + first.out.fetches + n <= u32::MAX,
                first.with_calls(all.take(i as int)) == (Planning {
                    out: self@.out,
                    plans: plans_view(plans@),
                    next: ids.next,
                }),
                self.request == old(self).request,
                self.messages == old(self).messages,
                self.round == old(self).round,
                self.over == old(self).over,
            decreases n - i,
        {
            proof {
                let part = all.take(i as int);
                assert forall|k: int| 0 <= k < part.len() implies kind_of(
                    (#[trigger] part[k]).name,
                ) is Some by {
                    assert(part[k] == all[k]);
                }
                lemma_planning_counts(first, part);
                assert(all.take(i as int + 1).drop_last() =~= part);
                assert(kind_of(all[i as int].name) is Some);
            }
            let ghost before = plans@;
            let plan = self.plan_call(&calls[i], ids);
            let ghost p = plan@;
            plans.push(plan);
            assert(plans_view(plans@) =~= plans_view(before).push(p));
            i += 1;
        }
        assert(all.take(n as int) =~= all);
        plans
    }

    /// What the model's answer leads to.
    ///
    /// An answer without tool calls ends the run; so does one that calls any tool of the
    /// client, whose calls are handed over as they are, and one that had to be the last, whose
    /// calls are dropped. A run that hands no call over ends with a text. Any other answer only
    /// browses, and is planned: each call gets its identifier and is counted in order.
    pub fn on_response(&mut self, resp: openai::OpenAIResponse, ids: &mut IdSource) -> (r: Step)
        requires
            old(self)@.wf(),
            old(self)@.out.output_tokens + resp.usage.completion_tokens <= u32::MAX,
            resp.choices@.len() > 0 ==> old(self)@.out.searches + old(self)@.out.fetches
                + answer_calls(resp.choices@[0].message).len() <= u32::MAX,
        ensures
            final(self)@.wf(),
            match r {
                Step::Failed(e) => {
                    &&& resp.choices@.len() == 0
                    &&& e matches ProxyError::Upstream(m) && m@ == "upstream returned no choices"@
                    &&& final(self)@ == old(self)@.counting(resp).failed()
                    &&& final(ids).next == old(ids).next
                },
                Step::Done => {
                    &&& resp.choices@.len() > 0
                    &&& old(self)@.ends(resp.choices@[0].message)
                    &&& !calls_client(resp.choices@[0].message) ==> ends_with_text(
                        final(self)@.out.blocks,
                    )
                    &&& final(self)@ == old(self)@.counting(resp).answered(resp.choices@[0].message)
                    &&& final(ids).next == old(ids).next
                },
                Step::Browse(plans) => {
                    &&& resp.choices@.len() > 0
                    &&& !old(self)@.must_answer()
                    &&& only_browses(answer_calls(resp.choices@[0].message))
                    &&& final(self)@ == old(self)@.counting(resp).browsing(
                        resp.choices@[0].message,
                        old(ids).next,
                    )
                    &&& plans_view(plans@) == old(self)@.counting(resp).planning(
                        resp.choices@[0].message,
                        old(ids).next,
                    ).plans
                    &&& final(ids).next == old(self)@.counting(resp).planning(
                        resp.choices@[0].message,
                        old(ids).next,
                    ).next
                },
            },
    {
        if let Some(model) = &resp.model {
            self.out.model = model.clone();
        }
        if self.round == 0 {
            self.out.input_tokens = resp.usage.prompt_tokens;
        }
        self.out.output_tokens = self.out.output_tokens + resp.usage.completion_tokens;
        assert(self@ == old(self)@.counting(resp));
        if resp.choices.len() == 0 {
            self.over = true;
            return Step::Failed(ProxyError::Upstream("upstream returned no choices".to_string()));
        }
        let message = &resp.choices[0].message;
        let calls = match &message.tool_calls {
            Some(c) => copy_calls(c),
            None => Vec::new(),
        };
        assert(calls_view(calls@) =~= answer_calls(*message));
        let text = match &message.content {
            Some(t) => Some(t.as_str()),
            None => None,
        };
        let ghost counted = self@;
        let forced = self.must_answer();
        let said = self.out.push_text(text);
        let browses = all_web(&calls);
        if forced || !browses {
            proof {
                lemma_client_calls_count(
                    counted.out.with_text(opt_text(message.content)),
                    calls_view(calls@),
                );
            }
            if calls.len() > 0 && !browses {
                self.hand_back(&calls);
                self.out.stop_reason = "tool_use".to_string();
            } else {
                if !said {
                    self.out.push_block(make_text_block("No answer was written."));
                }
                self.out.stop_reason = "end_turn".to_string();
                proof {
                    lemma_last_text(counted.out, opt_text(message.content));
                }
            }
            self.over = true;
            return Step::Done;
        }
        let ghost earlier_messages = self.messages@;
        let turn = openai::Message {
            role: "assistant".to_string(),
            content: match &message.content {
                Some(t) => Some(openai::MessageContent::Text(t.clone())),
                None => None,
            },
            reasoning_content: None,
            tool_calls: Some(copy_calls(&calls)),
            tool_call_id: None,
            name: None,
        };
        let ghost t = turn@;
        self.messages.push(turn);
        assert(messages_view(self.messages@) =~= messages_view(earlier_messages).push(t));
        let ghost before = Planning { out: self@.out, plans: seq![], next: ids.next };
        let plans = self.plan_calls(&calls, ids);
        proof {
            lemma_planning_counts(before, calls_view(calls@));
        }
        Step::Browse(plans)
    }
}

proof fn lemma_last_text(out: OutputV, text: Option<Seq<char>>)
    ensures
        ends_with_text(out.with_last_text(text).blocks),
{
    reveal_strlit("No answer was written.");
    let last = out.with_last_text(text).blocks.last();
    if out.with_text(text) == out {
        assert(last == text_block(no_answer()));
    } else {
        assert(last == text_block(sanitized(text->0)));
    }
}

proof fn lemma_client_calls_count(out: OutputV, calls: Seq<ToolCallV>)
    ensures
        ({
            let o = with_client_calls(out, calls);
            &&& o.searches == out.searches
            &&& o.fetches == out.fetches
            &&& o.blocks.len() == out.blocks.len() + calls.len()
        }),
    decreases calls.len(),
{
    if calls.len() > 0 {
        lemma_client_calls_count(out, calls.drop_last());
    }
}

// ---------------------------------------------------------------------------
// Results
// ---------------------------------------------------------------------------
/// What a search or fetch came to.
pub enum CallResult {
    Search(Result<Vec<SearchResult>, String>),
    Fetch(Result<FetchResult, String>),
}

/// One found page, as the model reads it.
pub open spec fn found_text(i: int, r: SearchResultV) -> Seq<char> {
    decimal((i + 1) as nat) + ". "@ + trim(r.title) + " — "@ + trim(r.url) + "\n"@ + trim(
        r.description,
    )
}

/// Found pages, as the model reads them.
pub open spec fn found_texts(found: Seq<SearchResultV>) -> Seq<char> {
    if found.len() == 0 {
        "No results found."@
    } else {
        join(Seq::new(found.len(), |i: int| found_text(i, found[i])), "\n\n"@)
    }
}

/// Found pages, as the model reads them: numbered, each with its address and snippet.
pub fn format_search(results: &Vec<SearchResult>) -> (r: String)
    ensures
        r@ == found_texts(results_view(results@)),
{
    if results.len() == 0 {
        return "No results found.".to_string();
    }
    let mut lines: Vec<String> = Vec::new();
    let n: usize = results.len();
    let mut i: usize = 0;
    while i < n
        invariant
            n == results@.len(),
            i <= n,
            lines@.len() == i,
            forall|k: int|
                0 <= k < i ==> (#[trigger] lines@[k])@ == found_text(k, results@[k]@),
        decreases n - i,
    {
        let found = &results[i];
        let mut line = decimal_text(i as u64 + 1);
        line.append(". ");
        line.append(trim_text(found.title.as_str()).as_str());
        line.append(" — ");
        line.append(trim_text(found.url.as_str()).as_str());
        line.append("\n");
        line.append(trim_text(found.description.as_str()).as_str());
        lines.push(line);
        i += 1;
    }
    proof {
        let view = results_view(results@);
        assert(texts(lines@) =~= Seq::new(view.len(), |i: int| found_text(i, view[i])));
    }
    join_texts(lines.as_slice(), "\n\n")
}

/// The address of a fetched page: the one it had in the end, or the one asked for.
pub open spec fn page_url(plan: PlanV, page: FetchResultV) -> Seq<char> {
    if page.final_url.len() == 0 {
        plan.arg
    } else {
        page.final_url
    }
}

/// The block that tells the client what a call came to. Nothing was run for a call over the
/// budget.
pub open spec fn result_block(plan: PlanV, result: Option<CallResult>) -> JsonV {
    match result {
        None => match plan.kind {
            WebKind::Search => search_error_value(plan.srv_id, "max_uses_exceeded"@),
            WebKind::Fetch => fetch_error_value(plan.srv_id, "max_uses_exceeded"@),
        },
        Some(CallResult::Search(Ok(found))) => search_value(plan.srv_id, results_view(found@)),
        Some(CallResult::Search(Err(_))) => search_error_value(plan.srv_id, "unavailable"@),
        Some(CallResult::Fetch(Ok(page))) => fetch_value(
            plan.srv_id,
            page_url(plan, page@),
            page.title@,
            page.content@,
        ),
        Some(CallResult::Fetch(Err(_))) => fetch_error_value(plan.srv_id, "url_not_accessible"@),
    }
}

/// What the model reads of what a call came to.
pub open spec fn result_reply(plan: PlanV, result: Option<CallResult>) -> Seq<char> {
    match result {
        None => "Tool use limit reached."@,
        Some(CallResult::Search(Ok(found))) => found_texts(results_view(found@)),
        Some(CallResult::Search(Err(e))) => "Search failed: "@ + e@,
        Some(CallResult::Fetch(Ok(page))) => "Fetched "@ + page_url(plan, page@) + ":\n"@
            + page.content@,
        Some(CallResult::Fetch(Err(e))) => "Fetch failed: "@ + e@,
    }
}

/// The message that answers a tool call.
pub open spec fn reply_message(id: Seq<char>, text: Seq<char>) -> MessageV {
    MessageV { tool_call_id: Some(id), ..plain_message("tool"@, text) }
}

/// The message that answers a tool call.
pub fn tool_result_msg(tool_call_id: &str, text: &str) -> (r: openai::Message)
    ensures
        r@ == reply_message(tool_call_id@, text@),
{
    let mut message = openai::Message::plain("tool", text);
    message.tool_call_id = Some(tool_call_id.to_string());
    message
}

impl AgentV {
    /// After the first `k` results of a round.
    pub open spec fn with_results(
        self,
        plans: Seq<PlanV>,
        results: Seq<Option<CallResult>>,
        k: int,
    ) -> AgentV {
        AgentV {
            messages: self.messages + Seq::new(
                k as nat,
                |i: int| reply_message(plans[i].tc_id, result_reply(plans[i], results[i])),
            ),
            out: OutputV {
                blocks: self.out.blocks + Seq::new(
                    k as nat,
                    |i: int| result_block(plans[i], results[i]),
                ),
                ..self.out
            },
            ..self
        }
    }
}

/// One exchange: what the model answered, the number of the next identifier then, and what the
/// answer's calls came to where they were run.
pub struct Exchange {
    pub resp: openai::OpenAIResponse,
    pub next: u64,
    pub results: Seq<Option<CallResult>>,
}

impl Exchange {
    /// How many calls the model made.
    pub open spec fn calls(self) -> nat {
        if self.resp.choices@.len() == 0 {
            0
        } else {
            answer_calls(self.resp.choices@[0].message).len()
        }
    }
}

/// How many calls the model made in all.
pub open spec fn calls_made(es: Seq<Exchange>) -> nat
    decreases es.len(),
{
    if es.len() == 0 {
        0
    } else {
        es[0].calls() + calls_made(es.drop_first())
    }
}

impl AgentV {
    /// After one exchange with the model.
    pub open spec fn after(self, e: Exchange) -> AgentV {
        let counted = self.counting(e.resp);
        if e.resp.choices@.len() == 0 {
            counted.failed()
        } else {
            let m = e.resp.choices@[0].message;
            if self.ends(m) {
                counted.answered(m)
            } else {
                let plans = counted.planning(m, e.next).plans;
                AgentV {
                    round: self.round + 1,
                    ..counted.browsing(m, e.next).with_results(
                        plans,
                        e.results,
                        plans.len() as int,
                    )
                }
            }
        }
    }

    /// After the exchanges, as far as the run takes them up.
    pub open spec fn reached(self, es: Seq<Exchange>) -> AgentV
        decreases es.len(),
    {
        if es.len() == 0 || !self.goes_on() {
            self
        } else {
            self.after(es[0]).reached(es.drop_first())
        }
    }

    /// What the model is sent, one request after the other, where the exchanges go so.
    pub open spec fn requests(self, es: Seq<Exchange>) -> Seq<RequestV>
        decreases es.len(),
    {
        if !self.goes_on() {
            seq![]
        } else if es.len() == 0 {
            seq![self.round_request()]
        } else {
            seq![self.round_request()] + self.after(es[0]).requests(es.drop_first())
        }
    }
}

fn make_block(plan: &Plan, result: &Option<CallResult>) -> (r: Json)
    ensures
        r@ == result_block(plan@, *result),
{
    match result {
        None => match plan.kind {
            WebKind::Search => search_error(plan.srv_id.as_str(), "max_uses_exceeded"),
            WebKind::Fetch => fetch_error(plan.srv_id.as_str(), "max_uses_exceeded"),
        },
        Some(CallResult::Search(Ok(found))) => make_search(plan.srv_id.as_str(), found),
        Some(CallResult::Search(Err(_))) => search_error(plan.srv_id.as_str(), "unavailable"),
        Some(CallResult::Fetch(Ok(page))) => {
            let url = if page.final_url.as_str().is_empty() {
                plan.arg.as_str()
            } else {
                page.final_url.as_str()
            };
            make_fetch(plan.srv_id.as_str(), url, page.title.as_str(), page.content.as_str())
        },
        Some(CallResult::Fetch(Err(_))) => fetch_error(
            plan.srv_id.as_str(),
            "url_not_accessible",
        ),
    }
}

fn make_reply(plan: &Plan, result: &Option<CallResult>) -> (r: String)
    ensures
        r@ == result_reply(plan@, *result),
{
    match result {
        None => "Tool use limit reached.".to_string(),
        Some(CallResult::Search(Ok(found))) => format_search(found),
        Some(CallResult::Search(Err(e))) => {
            let mut text = "Search failed: ".to_string();
            text.append(e.as_str());
            text
        },
        Some(CallResult::Fetch(Ok(page))) => {
            let mut text = "Fetched ".to_string();
            if page.final_url.as_str().is_empty() {
                text.append(plan.arg.as_str());
            } else {
                text.append(page.final_url.as_str());
            }
            text.append(":\n");
            text.append(page.content.as_str());
            text
        },
        Some(CallResult::Fetch(Err(e))) => {
            let mut text = "Fetch failed: ".to_string();
            text.append(e.as_str());
            text
        },
    }
}

impl WebAgent {
    /// Takes in what the planned calls came to, in the order of the plans, and ends the
    /// round: each is told to the client and to the model.
    pub fn on_results(&mut self, plans: &Vec<Plan>, results: &Vec<Option<CallResult>>)
        requires
            old(self)@.wf(),
            old(self)@.round < MAX_ROUNDS,
            plans@.len() == results@.len(),
        ensures
            final(self)@.wf(),
            final(self)@ == (AgentV {
                round: old(self)@.round + 1,
                ..old(self)@.with_results(plans_view(plans@), results@, plans@.len() as int)
            }),
    {
        let ghost start = self@;
        let n: usize = plans.len();
        let mut i: usize = 0;
        proof {
            let none = start.with_results(plans_view(plans@), results@, 0);
            assert(none.messages =~= start.messages);
            assert(none.out.blocks =~= start.out.blocks);
        }
        while i < n
            invariant
                n == plans@.len(),
                n == results@.len(),
                i <= n,
                start == old(self)@,
                self@ == start.with_results(plans_view(plans@), results@, i as int),
                self.round == old(self).round,
            decreases n - i,
        {
            let ghost before = self@;
            let ghost earlier_messages = self.messages@;
            self.out.push_block(make_block(&plans[i], &results[i]));
            let reply = make_reply(&plans[i], &results[i]);
            let message = tool_result_msg(plans[i].tc_id.as_str(), reply.as_str());
            let ghost m = message@;
            self.messages.push(message);
            proof {
                assert(messages_view(self.messages@) =~= messages_view(earlier_messages).push(m));
                let next = start.with_results(plans_view(plans@), results@, i as int + 1);
                assert(self@.messages =~= next.messages);
                assert(self@.out.blocks =~= next.out.blocks);
            }
            i += 1;
        }
        self.round = self.round + 1;
    }

    /// What the client is given.
    pub fn finish(self) -> (r: AgentOutput)
        ensures
            r@ == self@.out,
    {
        self.out
    }
}

// ---------------------------------------------------------------------------
// What holds of every run
// ---------------------------------------------------------------------------
/// The last round and every round after the budget is spent go out without tools, and the
/// model is told to answer.
pub proof fn law_last_round_has_no_tools(a: AgentV)
    requires
        a.round + 1 >= MAX_ROUNDS || a.out.searches + a.out.fetches >= MAX_WEB_USES,
    ensures
        a.round_request().tools is None,
        a.round_request().tool_choice is None,
        a.round_request().messages.last() == plain_message("user"@, answer_now()),
        a.round_request().messages.drop_last() == a.messages,
{
    assert(a.messages.push(plain_message("user"@, answer_now())).drop_last() =~= a.messages);
}

/// What every request of a run has in common.
pub open spec fn keeps_the_limits(
    q: RequestV,
    request: RequestV,
    model: Option<Seq<char>>,
) -> bool {
    &&& q.stream == Some(false)
    &&& q.model == match model {
        Some(m) => m,
        None => "auto"@,
    }
    &&& q.reasoning_effort == Some("low"@)
    &&& q.max_tokens == Some(
        match request.max_tokens {
            Some(m) => if m <= AGENT_MAX_TOKENS {
                m
            } else {
                AGENT_MAX_TOKENS
            },
            None => AGENT_MAX_TOKENS,
        },
    )
}

/// However the model answers, a run sends at most five requests. Each asks the same model
/// with the same limits, and never for a stream; the fifth, and each one after three calls
/// were made, goes out without tools.
pub proof fn law_run_keeps_the_limits(
    request: RequestV,
    model: Option<Seq<char>>,
    es: Seq<Exchange>,
)
    requires
        forall|i: int| 0 <= i < es.len() ==> (#[trigger] es[i]).calls() + MAX_WEB_USES <= u32::MAX,
    ensures
        ({
            let sent = begun(request, model).requests(es);
            &&& sent.len() <= MAX_ROUNDS
            &&& forall|i: int|
                0 <= i < sent.len() ==> keeps_the_limits(#[trigger] sent[i], request, model)
            &&& forall|i: int|
                0 <= i < sent.len() && (i + 1 >= MAX_ROUNDS || calls_made(es.take(i))
                    >= MAX_WEB_USES) ==> (#[trigger] sent[i]).tools is None
                    && sent[i].tool_choice is None
        }),
{
    lemma_run_keeps_the_limits(begun(request, model), request, model, es);
}

proof fn lemma_browsing_counts(a: AgentV, e: Exchange)
    requires
        a.goes_on(),
        0 <= a.round,
        e.calls() + MAX_WEB_USES <= u32::MAX,
        !a.after(e).over,
    ensures
        a.after(e).request == a.request,
        a.after(e).round == a.round + 1 < MAX_ROUNDS,
        a.after(e).out.searches + a.after(e).out.fetches == a.out.searches + a.out.fetches
            + e.calls(),
{
    let m = e.resp.choices@[0].message;
    let counted = a.counting(e.resp);
    lemma_planning_counts(
        Planning { out: counted.out.with_text(opt_text(m.content)), plans: seq![], next: e.next },
        answer_calls(m),
    );
}

proof fn lemma_run_keeps_the_limits(
    a: AgentV,
    request: RequestV,
    model: Option<Seq<char>>,
    es: Seq<Exchange>,
)
    requires
        forall|i: int| 0 <= i < es.len() ==> (#[trigger] es[i]).calls() + MAX_WEB_USES <= u32::MAX,
        a.request == begun(request, model).request,
        a.over || 0 <= a.round < MAX_ROUNDS,
    ensures
        ({
            let sent = a.requests(es);
            &&& sent.len() + a.round <= MAX_ROUNDS || (a.over && sent.len() == 0)
            &&& forall|i: int|
                0 <= i < sent.len() ==> keeps_the_limits(#[trigger] sent[i], request, model)
            &&& forall|i: int|
                0 <= i < sent.len() && (a.round + i + 1 >= MAX_ROUNDS || a.out.searches
                    + a.out.fetches + calls_made(es.take(i)) >= MAX_WEB_USES) ==> (
                #[trigger] sent[i]).tools is None && sent[i].tool_choice is None
        }),
    decreases es.len(),
{
    let sent = a.requests(es);
    assert(es.take(0) =~= Seq::<Exchange>::empty());
    if es.len() > 0 && a.goes_on() {
        let b = a.after(es[0]);
        let rest = es.drop_first();
        let later = b.requests(rest);
        if !b.over {
            lemma_browsing_counts(a, es[0]);
        }
        lemma_run_keeps_the_limits(b, request, model, rest);
        assert forall|i: int| 0 <= i < sent.len() implies keeps_the_limits(
            #[trigger] sent[i],
            request,
            model,
        ) by {
            if i > 0 {
                assert(sent[i] == later[i - 1]);
            }
        }
        assert forall|i: int|
            0 <= i < sent.len() && (a.round + i + 1 >= MAX_ROUNDS || a.out.searches + a.out.fetches
                + calls_made(es.take(i)) >= MAX_WEB_USES) implies (#[trigger] sent[i]).tools is None
            && sent[i].tool_choice is None by {
            if i > 0 {
                assert(sent[i] == later[i - 1]);
                if i <= es.len() {
                    assert(es.take(i)[0] == es[0]);
                    assert(es.take(i).drop_first() =~= rest.take(i - 1));
                } else {
                    lemma_no_more_requests(a, es);
                }
            }
        }
    }
}

proof fn lemma_no_more_requests(a: AgentV, es: Seq<Exchange>)
    ensures
        a.requests(es).len() <= es.len() + 1,
    decreases es.len(),
{
    if es.len() > 0 && a.goes_on() {
        lemma_no_more_requests(a.after(es[0]), es.drop_first());
    }
}

/// However the model answers, the run is over after five answers at the latest, and what the
/// client is given then ends with a text, unless a tool of the client is called.
pub proof fn law_run_ends_with_text(
    request: RequestV,
    model: Option<Seq<char>>,
    es: Seq<Exchange>,
)
    requires
        forall|i: int| 0 <= i < es.len() ==> (#[trigger] es[i]).resp.choices@.len() > 0,
    ensures
        ({
            let end = begun(request, model).reached(es);
            &&& es.len() >= MAX_ROUNDS ==> end.over
            &&& end.over && end.out.stop_reason != "tool_use"@ ==> ends_with_text(end.out.blocks)
        }),
{
    lemma_run_ends_with_text(begun(request, model), es);
}

proof fn lemma_run_ends_with_text(a: AgentV, es: Seq<Exchange>)
    requires
        forall|i: int| 0 <= i < es.len() ==> (#[trigger] es[i]).resp.choices@.len() > 0,
        if a.over {
            a.out.stop_reason != "tool_use"@ ==> ends_with_text(a.out.blocks)
        } else {
            0 <= a.round < MAX_ROUNDS
        },
    ensures
        ({
            let end = a.reached(es);
            &&& a.over || a.round + es.len() >= MAX_ROUNDS ==> end.over
            &&& end.over && end.out.stop_reason != "tool_use"@ ==> ends_with_text(end.out.blocks)
        }),
    decreases es.len(),
{
    if es.len() > 0 && a.goes_on() {
        let e = es[0];
        assert(es[0].resp.choices@.len() > 0);
        lemma_last_text(a.counting(e.resp).out, opt_text(e.resp.choices@[0].message.content));
        lemma_run_ends_with_text(a.after(e), es.drop_first());
    }
}

/// Each planned call is told to the client when it is planned and when it is over, and the
/// model gets one reply for each call that it made.
pub proof fn law_every_call_is_answered(
    a: AgentV,
    m: openai::ResponseMessage,
    next: u64,
    results: Seq<Option<CallResult>>,
)
    requires
        only_browses(answer_calls(m)),
        a.out.searches + a.out.fetches + answer_calls(m).len() <= u32::MAX,
    ensures
        ({
            let calls = answer_calls(m);
            let plans = a.planning(m, next).plans;
            let b = a.browsing(m, next);
            let c = b.with_results(plans, results, plans.len() as int);
            &&& plans.len() == calls.len()
            &&& forall|i: int| 0 <= i < calls.len() ==> (#[trigger] plans[i]).tc_id == calls[i].id
            &&& c.messages.len() == a.messages.len() + 1 + calls.len()
            &&& forall|i: int|
                0 <= i < calls.len() ==> (#[trigger] c.messages[a.messages.len() + 1
                    + i]).tool_call_id == Some(calls[i].id)
            &&& c.out.blocks.len() == a.out.with_text(opt_text(m.content)).blocks.len() + 2
                * calls.len()
        }),
{
    let calls = answer_calls(m);
    let first = Planning { out: a.out.with_text(opt_text(m.content)), plans: seq![], next };
    lemma_planning_counts(first, calls);
    lemma_plans_in_order(first, calls);
    let plans = a.planning(m, next).plans;
    let b = a.browsing(m, next);
    let c = b.with_results(plans, results, plans.len() as int);
    assert forall|i: int| 0 <= i < calls.len() implies (#[trigger] c.messages[a.messages.len() + 1
        + i]).tool_call_id == Some(calls[i].id) by {
        assert(c.messages[a.messages.len() + 1 + i] == reply_message(
            plans[i].tc_id,
            result_reply(plans[i], results[i]),
        ));
    }
}

proof fn lemma_plans_in_order(p: Planning, calls: Seq<ToolCallV>)
    requires
        p.plans.len() == 0,
        p.out.searches + p.out.fetches + calls.len() <= u32::MAX,
        forall|i: int| 0 <= i < calls.len() ==> kind_of((#[trigger] calls[i]).name) is Some,
    ensures
        p.with_calls(calls).plans.len() == calls.len(),
        forall|i: int|
            0 <= i < calls.len() ==> (#[trigger] p.with_calls(calls).plans[i]).tc_id
                == calls[i].id,
    decreases calls.len(),
{
    if calls.len() > 0 {
        let rest = calls.drop_last();
        assert forall|i: int| 0 <= i < rest.len() implies kind_of(
            (#[trigger] rest[i]).name,
        ) is Some by {
            assert(rest[i] == calls[i]);
        }
        lemma_plans_in_order(p, rest);
        assert forall|i: int| 0 <= i < calls.len() implies (#[trigger] p.with_calls(
            calls,
        ).plans[i]).tc_id == calls[i].id by {
            if i < rest.len() {
                assert(p.with_calls(rest).plans[i].tc_id == rest[i].id);
            }
        }
    }
}

proof fn lemma_within(s: Seq<char>, a: int, b: int, p: Seq<char>)
    requires
        0 <= a <= b <= s.len(),
        contains(s.subrange(a, b), p),
    ensures
        exists|i: int| a <= i && i + p.len() <= b && #[trigger] occurs_at(s, p, i),
{
    let t = s.subrange(a, b);
    lemma_find_from(t, p, 0);
    let j = find(t, p)->0;
    assert(occurs_at(t, p, j));
    assert(s.subrange(a + j, a + j + p.len()) =~= t.subrange(j, j + p.len()));
    assert(occurs_at(s, p, a + j));
}

/// What is read of a text lies before the first place of a marker: it does not hold it.
proof fn lemma_no_marker(t: Seq<char>, a: int, b: int, p: Seq<char>)
    requires
        0 <= a <= b <= t.len(),
        p.len() > 0,
        find(t, p) matches Some(i) ==> b <= i,
    ensures
        !contains(t.subrange(a, b), p),
{
    if contains(t.subrange(a, b), p) {
        lemma_within(t, a, b, p);
        let i = choose|i: int| a <= i && i + p.len() <= b && #[trigger] occurs_at(t, p, i);
        lemma_find_from(t, p, 0);
    }
}

/// What follows the last end of thoughts does not hold another one.
proof fn lemma_no_end_of_thoughts(s: Seq<char>, a: int, b: int)
    requires
        0 <= a <= b <= past_thoughts(s).len(),
    ensures
        !contains(past_thoughts(s).subrange(a, b), "</think>"@),
{
    reveal_strlit("</think>");
    let t = past_thoughts(s);
    let end = "</think>"@;
    lemma_rfind_from(s, end, s.len() - end.len());
    if contains(t.subrange(a, b), end) {
        lemma_within(t, a, b, end);
        let i = choose|i: int| a <= i && i + end.len() <= b && #[trigger] occurs_at(t, end, i);
        let from = match rfind(s, end) {
            Some(j) => j + end.len(),
            None => 0,
        };
        assert(s.subrange(from + i, from + i + end.len()) =~= t.subrange(i, i + end.len()));
        assert(occurs_at(s, end, from + i));
    }
}

/// An answer is a stretch of what follows the thoughts, and ends where anything leaks.
proof fn lemma_sanitized_inside(s: Seq<char>) -> (r: (int, int))
    ensures
        0 <= r.0 <= r.1 <= past_thoughts(s).len(),
        sanitized(s) == past_thoughts(s).subrange(r.0, r.1),
        leak(past_thoughts(s)) matches Some(i) ==> r.1 <= i,
{
    let t = past_thoughts(s);
    lemma_find_from(t, "<tool_call>"@, 0);
    lemma_find_from(t, "<function="@, 0);
    lemma_find_from(t, "<|tool_call"@, 0);
    lemma_find_from(t, "<think>"@, 0);
    let cut = match leak(t) {
        Some(i) => t.take(i),
        None => t,
    };
    let (a, b) = lemma_trim_inside(cut);
    assert(cut.subrange(a, b) =~= t.subrange(a, b));
    (a, b)
}

/// What the client reads as an answer holds no end of thoughts and no tool syntax.
pub proof fn law_answers_leak_nothing(s: Seq<char>)
    ensures
        !contains(sanitized(s), "</think>"@),
        !contains(sanitized(s), "<think>"@),
        !contains(sanitized(s), "<tool_call>"@),
        !contains(sanitized(s), "<function="@),
        !contains(sanitized(s), "<|tool_call"@),
{
    reveal_strlit("<think>");
    reveal_strlit("<tool_call>");
    reveal_strlit("<function=");
    reveal_strlit("<|tool_call");
    let t = past_thoughts(s);
    let (a, b) = lemma_sanitized_inside(s);
    lemma_no_end_of_thoughts(s, a, b);
    lemma_no_marker(t, a, b, "<think>"@);
    lemma_no_marker(t, a, b, "<tool_call>"@);
    lemma_no_marker(t, a, b, "<function="@);
    lemma_no_marker(t, a, b, "<|tool_call"@);
}

// ---------------------------------------------------------------------------
// What the client receives
// ---------------------------------------------------------------------------
/// A whole message.
pub open spec fn message_body(id: Seq<char>, out: OutputV) -> JsonV {
    JsonV::Object(
        map![
            "id"@ => JsonV::String(id),
            "type"@ => JsonV::String("message"@),
            "role"@ => JsonV::String("assistant"@),
            "model"@ => JsonV::String(out.model),
            "content"@ => JsonV::Array(out.blocks),
            "stop_reason"@ => JsonV::String(out.stop_reason),
            "stop_sequence"@ => JsonV::Null,
            "usage"@ => out.usage(),
        ],
    )
}

pub(crate) fn copy_blocks(v: &Vec<Json>) -> (r: Vec<Json>)
    ensures
        json_seq(r@) == json_seq(v@),
{
    let mut out: Vec<Json> = Vec::new();
    let n: usize = v.len();
    let mut i: usize = 0;
    while i < n
        invariant
            n == v@.len(),
            i <= n,
            out@.len() == i,
            forall|k: int| 0 <= k < i ==> (#[trigger] out@[k]).view() == v@[k].view(),
        decreases n - i,
    {
        out.push(v[i].copy());
        i += 1;
    }
    assert(json_seq(out@) =~= json_seq(v@));
    out
}

/// The message that a client without a stream receives.
pub fn message_value(id: &str, out: &AgentOutput) -> (r: Json)
    ensures
        r@ == message_body(id@, out@),
{
    Json::empty_object().with("id", Json::text(id)).with("type", Json::text("message")).with(
        "role",
        Json::text("assistant"),
    ).with("model", Json::text(out.model.as_str())).with(
        "content",
        Json::list(copy_blocks(&out.blocks)),
    ).with("stop_reason", Json::text(out.stop_reason.as_str())).with(
        "stop_sequence",
        Json::Null,
    ).with("usage", out.usage_value())
}

/// The head of a streamed message, before anything is known of it.
pub open spec fn start_body(id: Seq<char>, model: Seq<char>) -> JsonV {
    JsonV::Object(
        map![
            "type"@ => JsonV::String("message_start"@),
            "message"@ => JsonV::Object(
                map![
                    "id"@ => JsonV::String(id),
                    "type"@ => JsonV::String("message"@),
                    "role"@ => JsonV::String("assistant"@),
                    "model"@ => JsonV::String(model),
                    "content"@ => JsonV::Array(seq![]),
                    "stop_reason"@ => JsonV::Null,
                    "stop_sequence"@ => JsonV::Null,
                    "usage"@ => JsonV::Object(
                        map!["input_tokens"@ => int_value(0), "output_tokens"@ => int_value(0)],
                    ),
                ],
            ),
        ],
    )
}

/// The first frame of a stream, sent at once.
pub fn start_frame(id: &str, model: &str) -> (r: String)
    ensures
        r@ == sse("message_start"@, start_body(id@, model@)),
{
    let usage = Json::empty_object().with("input_tokens", Json::whole(0)).with(
        "output_tokens",
        Json::whole(0),
    );
    let message = Json::empty_object().with("id", Json::text(id)).with(
        "type",
        Json::text("message"),
    ).with("role", Json::text("assistant")).with("model", Json::text(model)).with(
        "content",
        Json::empty_array(),
    ).with("stop_reason", Json::Null).with("stop_sequence", Json::Null).with("usage", usage);
    let data = Json::empty_object().with("type", Json::text("message_start")).with(
        "message",
        message,
    );
    sse_event("message_start", &data)
}

/// The end of a streamed message.
pub open spec fn delta_body(out: OutputV) -> JsonV {
    JsonV::Object(
        map![
            "type"@ => JsonV::String("message_delta"@),
            "delta"@ => JsonV::Object(
                map![
                    "stop_reason"@ => JsonV::String(out.stop_reason),
                    "stop_sequence"@ => JsonV::Null,
                ],
            ),
            "usage"@ => out.usage(),
        ],
    )
}

/// The frames that follow the first one: the blocks, and the end.
pub open spec fn output_frames(out: OutputV) -> Seq<Seq<char>> {
    blocks_frames(out.blocks) + seq![
        sse("message_delta"@, delta_body(out)),
        sse(
            "message_stop"@,
            JsonV::Object(map!["type"@ => JsonV::String("message_stop"@)]),
        ),
    ]
}

/// The frames that follow the first one when the run is over.
pub fn closing_frames(out: &AgentOutput) -> (r: Vec<String>)
    ensures
        texts(r@) == output_frames(out@),
{
    let mut frames = render_block_events(&out.blocks);
    let ghost before = frames@;
    let delta = Json::empty_object().with(
        "stop_reason",
        Json::text(out.stop_reason.as_str()),
    ).with("stop_sequence", Json::Null);
    let data = Json::empty_object().with("type", Json::text("message_delta")).with(
        "delta",
        delta,
    ).with("usage", out.usage_value());
    frames.push(sse_event("message_delta", &data));
    let stop = Json::empty_object().with("type", Json::text("message_stop"));
    frames.push(sse_event("message_stop", &stop));
    assert(texts(frames@) =~= output_frames(out@));
    frames
}

/// The frame that reports a failed run.
pub fn error_frame(message: &str) -> (r: String)
    ensures
        r@ == sse("error"@, error_envelope("api_error"@, message@)),
{
    let inner = Json::empty_object().with("type", Json::text("api_error")).with(
        "message",
        Json::text(message),
    );
    let data = Json::empty_object().with("type", Json::text("error")).with("error", inner);
    sse_event("error", &data)
}

/// How many seconds pass between two signs of life; none are sent for a year where the
/// period is zero.
pub fn heartbeat_period(secs: u64) -> (r: u64)
    ensures
        r == (if secs == 0 {
            31536000
        } else {
            secs
        }),
{
    if secs == 0 {
        31536000
    } else {
        secs
    }
}

// ---------------------------------------------------------------------------
// Trying the backends
// ---------------------------------------------------------------------------
/// Where the attempts at a backend call stand: which failures are tried again, how many
/// upstreams there are, which one is tried, and for the how-manieth time.
pub struct Attempts {
    pub patience: Patience,
    pub upstreams: usize,
    pub upstream: usize,
    pub attempt: u32,
}

/// Which failures are tried again.
#[derive(Debug, Clone, Copy, PartialEq, Eq, Structural)]
pub enum Patience {
    /// Server errors and broken transports: for the rounds of an agent.
    Agent,
    /// Those, and being told to slow down: for requests that are passed on.
    Client,
}

/// What follows a failed attempt.
pub enum Next {
    /// Wait that many milliseconds and try the same upstream again.
    Again(u64),
    /// Try the next upstream at once.
    Upstream,
    /// Give up.
    Fail(ProxyError),
}

/// Whether the failure may pass: a server error or a broken transport, and for requests that
/// are passed on also too many requests. Anything else is what the client would see again.
pub open spec fn may_pass(e: ProxyError, patience: Patience) -> bool {
    match e {
        ProxyError::UpstreamStatus { status, .. } => 500 <= status < 600 || (status == 429
            && patience == Patience::Client),
        _ => true,
    }
}

impl Attempts {
    pub open spec fn wf(self) -> bool {
        self.upstream < self.upstreams && 1 <= self.attempt <= BACKEND_MAX_ATTEMPTS
    }

    /// How many attempts are left, this one among them.
    pub open spec fn left(self) -> int {
        (self.upstreams - self.upstream - 1) * BACKEND_MAX_ATTEMPTS + BACKEND_MAX_ATTEMPTS + 1
            - self.attempt
    }

    /// Before the first attempt, where there is an upstream to try.
    pub fn start(upstreams: usize, patience: Patience) -> (r: Result<Attempts, ProxyError>)
        ensures
            match r {
                Ok(a) => upstreams > 0 && a.wf() && a.patience == patience && a.upstreams
                    == upstreams && a.upstream == 0 && a.attempt == 1,
                Err(e) => upstreams == 0 && (e matches ProxyError::Upstream(m) && m@
                    == "all upstreams failed"@),
            },
    {
        if upstreams == 0 {
            Err(ProxyError::Upstream("all upstreams failed".to_string()))
        } else {
            Ok(Attempts { patience, upstreams, upstream: 0, attempt: 1 })
        }
    }

    /// After a failed attempt. A failure that will not pass ends the call at once; any other
    /// is tried again after a short wait, on each upstream in turn, and the last one of all
    /// is what the client is told.
    pub fn failed(&mut self, error: ProxyError) -> (r: Next)
        requires
            old(self).wf(),
        ensures
            final(self).patience == old(self).patience,
            final(self).upstreams == old(self).upstreams,
            match r {
                Next::Fail(e) => e == error && (!may_pass(error, old(self).patience) || old(
                    self,
                ).left() == 1),
                Next::Again(wait) => {
                    &&& may_pass(error, old(self).patience)
                    &&& old(self).attempt < BACKEND_MAX_ATTEMPTS
                    &&& wait == 150 * old(self).attempt
                    &&& final(self).wf()
                    &&& final(self).upstream == old(self).upstream
                    &&& final(self).attempt == old(self).attempt + 1
                    &&& final(self).left() == old(self).left() - 1
                },
                Next::Upstream => {
                    &&& may_pass(error, old(self).patience)
                    &&& old(self).attempt == BACKEND_MAX_ATTEMPTS
                    &&& final(self).wf()
                    &&& final(self).upstream == old(self).upstream + 1
                    &&& final(self).attempt == 1
                    &&& final(self).left() == old(self).left() - 1
                },
            },
    {
        let passes = match &error {
            ProxyError::UpstreamStatus { status, .. } => (500 <= *status && *status < 600) || (
            *status == 429 && self.patience == Patience::Client),
            _ => true,
        };
        if !passes {
            return Next::Fail(error);
        }
        if self.attempt < BACKEND_MAX_ATTEMPTS {
            let wait: u64 = 150 * self.attempt as u64;
            self.attempt = self.attempt + 1;
            return Next::Again(wait);
        }
        if self.upstream + 1 < self.upstreams {
            self.upstream = self.upstream + 1;
            self.attempt = 1;
            return Next::Upstream;
        }
        Next::Fail(error)
    }
}

/// A call makes at most as many attempts at each upstream as are allowed.
pub proof fn law_attempts_are_bounded(a: Attempts)
    requires
        a.wf(),
    ensures
        1 <= a.left() <= a.upstreams * BACKEND_MAX_ATTEMPTS,
        a.upstream == 0 && a.attempt == 1 ==> a.left() == a.upstreams * BACKEND_MAX_ATTEMPTS,
{
}

} // verus!
