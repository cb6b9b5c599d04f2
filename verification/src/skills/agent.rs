//! The proxy's own tools: recalling learnt skills and looking up documentation.
//!
//! Where they are switched on, requests are given `recall_skills` and `search_docs`, and the
//! model is asked round by round. Its calls of these are run and answered; the client never
//! sees them. The first answer without them, or with a tool of the client, ends the run.
use crate::config::Config;
use crate::error::ProxyError;
use crate::json::{int_value, json_parse, json_seq, json_text, Json, JsonV};
use crate::models::openai;
use crate::models::openai::{
    calls_view, copy_calls, copy_messages, messages_view, tools_view, ContentV, MessageV, RequestV,
    ToolCallV, ToolV,
};
use crate::numerals::{decimal, decimal_text};
use crate::text::{
    first_chars, first_text, is_blank, join, join_texts, opt_text, same, text_is_blank, texts,
};
use crate::translate::blocks::{
    indexed, indexed_frame, make_text_block, make_use_block, sse, sse_event, stop_frame, stop_text,
    text_block, use_block,
};
use crate::translate::websearch_agent::{
    answer_calls, arguments_value, copy_blocks, parse_args, reply_message, tool_result_msg,
};
use crate::websearch::{answer_data, read_data, tool_text};
use vstd::prelude::*;

verus! {

/// How many times the model is asked. The last time it does not have the proxy's tools.
pub const MAX_ROUNDS: usize = 4;

/// How many calls leave the model the proxy's tools.
pub const MAX_TOOL_USES: u32 = 6;

/// How many skills a recall asks for.
pub const RECALL_LIMIT: u32 = 5;

/// How many passages a documentation search asks for.
pub const DOCS_LIMIT: u64 = 5;

/// Whether requests run with the proxy's tools: they are switched on, and so are skills.
pub fn enabled(config: &Config) -> (r: bool)
    ensures
        r == (config.skills.tools && config.skills.enabled),
{
    config.skills.tools && config.skills.enabled
}

// ---------------------------------------------------------------------------
// The tools
// ---------------------------------------------------------------------------
/// A function tool.
pub open spec fn function_value(
    name: Seq<char>,
    description: Seq<char>,
    parameters: JsonV,
) -> ToolV {
    ToolV { tool_type: "function"@, name, description: Some(description), parameters }
}

fn function_tool(name: &str, description: &str, parameters: Json) -> (r: openai::Tool)
    ensures
        r@ == function_value(name@, description@, parameters@),
{
    openai::Tool {
        tool_type: "function".to_string(),
        function: openai::Function {
            name: name.to_string(),
            description: Some(description.to_string()),
            parameters,
        },
    }
}

/// A text argument.
pub open spec fn text_argument(description: Seq<char>) -> JsonV {
    JsonV::Object(
        map!["type"@ => JsonV::String("string"@), "description"@ => JsonV::String(description)],
    )
}

fn make_argument(description: &str) -> (r: Json)
    ensures
        r@ == text_argument(description@),
{
    Json::empty_object().with("type", Json::text("string")).with(
        "description",
        Json::text(description),
    )
}

/// The schema of an object.
pub open spec fn object_schema(properties: JsonV, required: Seq<JsonV>) -> JsonV {
    JsonV::Object(
        map![
            "type"@ => JsonV::String("object"@),
            "properties"@ => properties,
            "required"@ => JsonV::Array(required),
        ],
    )
}

fn make_schema(properties: Json, required: Vec<Json>) -> (r: Json)
    ensures
        r@ == object_schema(properties@, json_seq(required@)),
{
    Json::empty_object().with("type", Json::text("object")).with("properties", properties).with(
        "required",
        Json::list(required),
    )
}

/// The tool that recalls learnt skills.
pub open spec fn recall_tool() -> ToolV {
    function_value(
        "recall_skills"@,
        "Recall previously-learned engineering lessons/skills relevant to a query, from the assistant's own accumulated experience. Use when a task resembles past work."@,
        object_schema(
            JsonV::Object(map!["query"@ => text_argument("What you need guidance on."@)]),
            seq![JsonV::String("query"@)],
        ),
    )
}

/// The tool that looks up documentation.
pub open spec fn docs_tool() -> ToolV {
    function_value(
        "search_docs"@,
        "Search up-to-date, version-specific documentation for a library/framework. Use to confirm current API usage instead of relying on memory."@,
        object_schema(
            JsonV::Object(
                map![
                    "library"@ => text_argument("Library name, e.g. 'tokio'."@),
                    "query"@ => text_argument("What to look up."@),
                ],
            ),
            seq![JsonV::String("library"@), JsonV::String("query"@)],
        ),
    )
}

fn make_recall_tool() -> (r: openai::Tool)
    ensures
        r@ == recall_tool(),
{
    let properties = Json::empty_object().with(
        "query",
        make_argument("What you need guidance on."),
    );
    let mut required: Vec<Json> = Vec::new();
    required.push(Json::text("query"));
    assert(json_seq(required@) =~= seq![JsonV::String("query"@)]);
    function_tool(
        "recall_skills",
        "Recall previously-learned engineering lessons/skills relevant to a query, from the assistant's own accumulated experience. Use when a task resembles past work.",
        make_schema(properties, required),
    )
}

fn make_docs_tool() -> (r: openai::Tool)
    ensures
        r@ == docs_tool(),
{
    let properties = Json::empty_object().with(
        "library",
        make_argument("Library name, e.g. 'tokio'."),
    ).with("query", make_argument("What to look up."));
    let mut required: Vec<Json> = Vec::new();
    required.push(Json::text("library"));
    required.push(Json::text("query"));
    assert(json_seq(required@) =~= seq![JsonV::String("library"@), JsonV::String("query"@)]);
    function_tool(
        "search_docs",
        "Search up-to-date, version-specific documentation for a library/framework. Use to confirm current API usage instead of relying on memory.",
        make_schema(properties, required),
    )
}

/// The tools with the proxy's own behind them.
pub open spec fn with_proxy_tools(tools: Option<Seq<ToolV>>, docs: bool) -> Seq<ToolV> {
    let own = match tools {
        Some(t) => t,
        None => seq![],
    };
    if docs {
        own.push(recall_tool()).push(docs_tool())
    } else {
        own.push(recall_tool())
    }
}

/// Gives the request the proxy's own tools: recalling skills, and looking up documentation
/// where there is a server for it.
pub fn inject_tools(config: &Config, req: &mut openai::OpenAIRequest)
    ensures
        final(req)@ == (RequestV {
            tools: Some(with_proxy_tools(old(req)@.tools, config.skills.docs_mcp_url is Some)),
            ..old(req)@
        }),
{
    let mut tools = match req.tools.take() {
        Some(t) => t,
        None => Vec::new(),
    };
    let ghost own = tools_view(tools@);
    assert(old(req)@.tools is None ==> own =~= Seq::<ToolV>::empty());
    let recall = make_recall_tool();
    let ghost r = recall@;
    tools.push(recall);
    assert(tools_view(tools@) =~= own.push(r));
    if config.skills.docs_mcp_url.is_some() {
        let ghost before = tools@;
        let docs = make_docs_tool();
        let ghost d = docs@;
        tools.push(docs);
        assert(tools_view(tools@) =~= tools_view(before).push(d));
    }
    req.tools = Some(tools);
}

/// The tool is one of the proxy's.
pub open spec fn is_proxy_name(name: Seq<char>) -> bool {
    name == "recall_skills"@ || name == "search_docs"@
}

/// Whether the tool is one of the proxy's.
pub fn is_proxy_tool(name: &str) -> (r: bool)
    ensures
        r == is_proxy_name(name@),
{
    same(name, "recall_skills") || same(name, "search_docs")
}

/// The test for a tool of the client.
pub open spec fn of_client() -> spec_fn(ToolV) -> bool {
    |t: ToolV| !is_proxy_name(t.name)
}

/// The request without the proxy's tools. Where no tool is left, there is no choice either.
pub open spec fn stripped(r: RequestV) -> RequestV {
    match r.tools {
        None => r,
        Some(tools) => if tools.filter(of_client()).len() == 0 {
            RequestV { tools: None, tool_choice: None, ..r }
        } else {
            RequestV { tools: Some(tools.filter(of_client())), ..r }
        },
    }
}

/// Takes the proxy's tools away.
pub fn strip_proxy_tools(req: &mut openai::OpenAIRequest)
    ensures
        final(req)@ == stripped(old(req)@),
{
    let tools = match req.tools.take() {
        Some(t) => t,
        None => {
            return;
        },
    };
    let ghost all = tools_view(tools@);
    let ghost own = tools@;
    let mut kept: Vec<openai::Tool> = Vec::new();
    proof {
        reveal(Seq::filter);
        assert(all.take(0) =~= Seq::<ToolV>::empty());
        assert(tools_view(kept@) =~= Seq::<ToolV>::empty());
    }
    for t in it: tools
        invariant
            it.seq() == own,
            all == tools_view(own),
            tools_view(kept@) == all.take(it.index()).filter(of_client()),
    {
        let ghost before = kept@;
        proof {
            reveal(Seq::filter);
            assert(all.take(it.index() + 1).drop_last() =~= all.take(it.index()));
            assert(all.take(it.index() + 1).last() == t@);
        }
        if !is_proxy_tool(t.function.name.as_str()) {
            let ghost v = t@;
            kept.push(t);
            assert(tools_view(kept@) =~= tools_view(before).push(v));
        }
    }
    assert(all.take(all.len() as int) =~= all);
    if kept.len() == 0 {
        req.tool_choice = None;
    } else {
        req.tools = Some(kept);
    }
}

// ---------------------------------------------------------------------------
// A run
// ---------------------------------------------------------------------------
/// What a run gives the client.
pub struct AgentOutput {
    pub model: String,
    pub blocks: Vec<Json>,
    pub stop_reason: String,
    pub input_tokens: u32,
    pub output_tokens: u32,
}

/// A run: the request it repeats, the conversation so far, what it gives the client so far,
/// how many calls were made, how many rounds are over, and whether the run is.
pub struct SkillsAgent {
    pub request: openai::OpenAIRequest,
    pub messages: Vec<openai::Message>,
    pub out: AgentOutput,
    pub uses: u32,
    pub round: usize,
    pub over: bool,
}

/// What the client is given.
pub struct OutputV {
    pub model: Seq<char>,
    pub blocks: Seq<JsonV>,
    pub stop_reason: Seq<char>,
    pub input_tokens: u32,
    pub output_tokens: u32,
}

/// What a run is.
pub struct AgentV {
    pub request: RequestV,
    pub messages: Seq<MessageV>,
    pub out: OutputV,
    pub uses: u32,
    pub round: int,
    pub over: bool,
}

impl AgentOutput {
    pub open spec fn view(&self) -> OutputV {
        OutputV {
            model: self.model@,
            blocks: json_seq(self.blocks@),
            stop_reason: self.stop_reason@,
            input_tokens: self.input_tokens,
            output_tokens: self.output_tokens,
        }
    }
}

impl SkillsAgent {
    pub open spec fn view(&self) -> AgentV {
        AgentV {
            request: self.request@,
            messages: messages_view(self.messages@),
            out: self.out@,
            uses: self.uses,
            round: self.round as int,
            over: self.over,
        }
    }
}

/// A run before its first round.
pub open spec fn begun(request: RequestV) -> AgentV {
    AgentV {
        request: RequestV { stream: Some(false), stream_options: None, ..request },
        messages: request.messages,
        out: OutputV {
            model: request.model,
            blocks: seq![],
            stop_reason: "end_turn"@,
            input_tokens: 0,
            output_tokens: 0,
        },
        uses: 0,
        round: 0,
        over: false,
    }
}

impl AgentV {
    /// The round in which the model has to answer: the last one, and each one once the budget
    /// is spent.
    pub open spec fn must_answer(self) -> bool {
        self.round + 1 >= MAX_ROUNDS || self.uses >= MAX_TOOL_USES
    }

    /// The run asks the model once more.
    pub open spec fn goes_on(self) -> bool {
        !self.over && self.round < MAX_ROUNDS
    }

    /// What the model is sent in this round: where it has to answer, it does not have the
    /// proxy's tools.
    pub open spec fn round_request(self) -> RequestV {
        let r = RequestV { messages: self.messages, ..self.request };
        if self.must_answer() {
            stripped(r)
        } else {
            r
        }
    }

    /// After an answer was counted.
    pub open spec fn counting(self, resp: openai::OpenAIResponse) -> AgentV {
        AgentV {
            out: OutputV {
                model: match resp.model {
                    Some(m) => m@,
                    None => self.out.model,
                },
                input_tokens: if self.round == 0 {
                    resp.usage.prompt_tokens
                } else {
                    self.out.input_tokens
                },
                output_tokens: (self.out.output_tokens + resp.usage.completion_tokens) as u32,
                ..self.out
            },
            ..self
        }
    }

    /// After an answer that ends the run: its thoughts, its text, and its calls of the
    /// client's tools. Its calls of the proxy's tools are not shown.
    pub open spec fn answered(self, m: openai::ResponseMessage) -> AgentV {
        let calls = answer_calls(m);
        AgentV {
            out: OutputV {
                blocks: self.out.blocks + thinking_blocks(opt_text(m.reasoning_content))
                    + said_blocks(opt_text(m.content)) + client_blocks(
                    calls.filter(call_of_client()),
                ),
                stop_reason: if calls.filter(call_of_client()).len() == 0 {
                    "end_turn"@
                } else {
                    "tool_use"@
                },
                ..self.out
            },
            over: true,
            ..self
        }
    }

    /// After an answer that cannot be used.
    pub open spec fn failed(self) -> AgentV {
        AgentV { over: true, ..self }
    }

    /// After an answer that calls the proxy's tools: it joins the conversation, and its calls
    /// are counted.
    pub open spec fn calling(self, m: openai::ResponseMessage) -> AgentV {
        AgentV {
            messages: self.messages.push(
                MessageV {
                    role: "assistant"@,
                    content: match m.content {
                        Some(t) => Some(ContentV::Text(t@)),
                        None => None,
                    },
                    reasoning_content: None,
                    tool_calls: Some(answer_calls(m)),
                    tool_call_id: None,
                    name: None,
                },
            ),
            uses: (self.uses + answer_calls(m).len()) as u32,
            ..self
        }
    }

    /// After the calls were answered: the round is over.
    pub open spec fn replied(self, calls: Seq<ToolCallV>, replies: Seq<Seq<char>>) -> AgentV {
        AgentV {
            messages: self.messages + Seq::new(
                calls.len(),
                |i: int| reply_message(calls[i].id, replies[i]),
            ),
            round: self.round + 1,
            ..self
        }
    }

    /// After one exchange with the model.
    pub open spec fn after(self, e: Exchange) -> AgentV {
        let counted = self.counting(e.resp);
        if e.resp.choices@.len() == 0 {
            counted.failed()
        } else {
            let m = e.resp.choices@[0].message;
            if only_proxy_tools(answer_calls(m)) {
                counted.calling(m).replied(answer_calls(m), e.replies)
            } else {
                counted.answered(m)
            }
        }
    }

    /// After the exchanges, as far as the run takes them up.
    pub open spec fn reached(self, es: Seq<Exchange>) -> AgentV
        decreases es.len(),
    {
        if es.len() == 0 || !self.goes_on() {
            self
        } else {
            self.after(es[0]).reached(es.drop_first())
        }
    }

    /// What the model is sent, one request after the other, where the exchanges go so.
    pub open spec fn requests(self, es: Seq<Exchange>) -> Seq<RequestV>
        decreases es.len(),
    {
        if !self.goes_on() {
            seq![]
        } else if es.len() == 0 {
            seq![self.round_request()]
        } else {
            seq![self.round_request()] + self.after(es[0]).requests(es.drop_first())
        }
    }
}

/// One exchange: what the model answered, and what its calls came to where they were run.
pub struct Exchange {
    pub resp: openai::OpenAIResponse,
    pub replies: Seq<Seq<char>>,
}

impl Exchange {
    /// How many calls the model made.
    pub open spec fn calls(self) -> nat {
        if self.resp.choices@.len() == 0 {
            0
        } else {
            answer_calls(self.resp.choices@[0].message).len()
        }
    }
}

/// How many calls the model made in all.
pub open spec fn calls_made(es: Seq<Exchange>) -> nat
    decreases es.len(),
{
    if es.len() == 0 {
        0
    } else {
        es[0].calls() + calls_made(es.drop_first())
    }
}

/// The test for a call of the client's tools.
pub open spec fn call_of_client() -> spec_fn(ToolCallV) -> bool {
    |c: ToolCallV| !is_proxy_name(c.name)
}

/// A thinking block.
pub open spec fn thinking_block(text: Seq<char>) -> JsonV {
    JsonV::Object(map!["type"@ => JsonV::String("thinking"@), "thinking"@ => JsonV::String(text)])
}

/// The block of thoughts, where there are any.
pub open spec fn thinking_blocks(text: Option<Seq<char>>) -> Seq<JsonV> {
    match text {
        Some(t) => if t.len() > 0 {
            seq![thinking_block(t)]
        } else {
            seq![]
        },
        None => seq![],
    }
}

/// The block of a text that says anything.
pub open spec fn said_blocks(text: Option<Seq<char>>) -> Seq<JsonV> {
    match text {
        Some(t) => if is_blank(t) {
            seq![]
        } else {
            seq![text_block(t)]
        },
        None => seq![],
    }
}

/// The blocks of calls that the client has to run.
pub open spec fn client_blocks(calls: Seq<ToolCallV>) -> Seq<JsonV> {
    Seq::new(
        calls.len(),
        |i: int|
            use_block("tool_use"@, calls[i].id, calls[i].name, arguments_value(calls[i].arguments)),
    )
}

/// The answer calls tools, and all of them are the proxy's.
pub open spec fn only_proxy_tools(calls: Seq<ToolCallV>) -> bool {
    calls.len() > 0 && forall|i: int|
        0 <= i < calls.len() ==> is_proxy_name((#[trigger] calls[i]).name)
}

/// What an answer leads to.
pub enum Step {
    /// The run is over; its output is what the client is given.
    Done,
    /// The calls to run, in their order.
    Run(Vec<openai::ToolCall>),
    /// The answer is unusable.
    Failed(ProxyError),
}

fn all_proxy(calls: &Vec<openai::ToolCall>) -> (r: bool)
    ensures
        r == only_proxy_tools(calls_view(calls@)),
{
    let n: usize = calls.len();
    let mut i: usize = 0;
    while i < n
        invariant
            n == calls@.len(),
            i <= n,
            forall|k: int| 0 <= k < i ==> is_proxy_name((#[trigger] calls_view(calls@)[k]).name),
        decreases n - i,
    {
        assert(calls_view(calls@)[i as int].name == calls@[i as int].function.name@);
        if !is_proxy_tool(calls[i].function.name.as_str()) {
            return false;
        }
        i += 1;
    }
    n > 0
}

impl SkillsAgent {
    /// A run for the request.
    pub fn begin(request: openai::OpenAIRequest) -> (r: SkillsAgent)
        ensures
            r@ == begun(request@),
    {
        let mut request = request;
        request.stream = Some(false);
        request.stream_options = None;
        let messages = copy_messages(&request.messages);
        let blocks: Vec<Json> = Vec::new();
        assert(json_seq(blocks@) =~= Seq::<JsonV>::empty());
        let out = AgentOutput {
            model: request.model.clone(),
            blocks,
            stop_reason: "end_turn".to_string(),
            input_tokens: 0,
            output_tokens: 0,
        };
        SkillsAgent { request, messages, out, uses: 0, round: 0, over: false }
    }

    /// Whether the model has to answer in this round.
    pub fn must_answer(&self) -> (r: bool)
        requires
            self.round < MAX_ROUNDS,
        ensures
            r == self@.must_answer(),
    {
        self.round + 1 >= MAX_ROUNDS || self.uses >= MAX_TOOL_USES
    }

    /// What the model is sent next, or nothing where the run is over.
    pub fn next_request(&self) -> (r: Option<openai::OpenAIRequest>)
        ensures
            match r {
                Some(q) => self@.goes_on() && q@ == self@.round_request(),
                None => !self@.goes_on(),
            },
    {
        if self.over || self.round >= MAX_ROUNDS {
            None
        } else {
            Some(self.round_request())
        }
    }

    /// What the model is sent in this round.
    pub fn round_request(&self) -> (r: openai::OpenAIRequest)
        requires
            self.round < MAX_ROUNDS,
        ensures
            r@ == self@.round_request(),
    {
        let mut req = self.request.copy();
        req.messages = copy_messages(&self.messages);
        if self.must_answer() {
            strip_proxy_tools(&mut req);
        }
        req
    }

    fn push_block(&mut self, block: Json)
        ensures
            final(self)@ == (AgentV {
                out: OutputV { blocks: old(self)@.out.blocks.push(block@), ..old(self)@.out },
                ..old(self)@
            }),
    {
        let ghost before = self.out.blocks@;
        self.out.blocks.push(block);
        assert(json_seq(self.out.blocks@) =~= json_seq(before).push(block@));
    }

    fn hand_back(&mut self, calls: &Vec<openai::ToolCall>) -> (r: bool)
        ensures
            r == (calls_view(calls@).filter(call_of_client()).len() > 0),
            final(self)@ == (AgentV {
                out: OutputV {
                    blocks: old(self)@.out.blocks + client_blocks(
                        calls_view(calls@).filter(call_of_client()),
                    ),
                    ..old(self)@.out
                },
                ..old(self)@
            }),
    {
        let ghost all = calls_view(calls@);
        let ghost start = self@;
        let n: usize = calls.len();
        let mut i: usize = 0;
        let mut any = false;
        proof {
            reveal(Seq::filter);
            assert(all.take(0) =~= Seq::<ToolCallV>::empty());
            assert(start.out.blocks + client_blocks(all.take(0).filter(call_of_client()))
                =~= start.out.blocks);
        }
        while i < n
            invariant
                n == calls@.len(),
                i <= n,
                start == old(self)@,
                all == calls_view(calls@),
                any == (all.take(i as int).filter(call_of_client()).len() > 0),
                self@ == (AgentV {
                    out: OutputV {
                        blocks: start.out.blocks + client_blocks(
                            all.take(i as int).filter(call_of_client()),
                        ),
                        ..start.out
                    },
                    ..start
                }),
            decreases n - i,
        {
            let call = &calls[i];
            let ghost kept = all.take(i as int).filter(call_of_client());
            proof {
                reveal(Seq::filter);
                assert(all.take(i as int + 1).drop_last() =~= all.take(i as int));
                assert(all.take(i as int + 1).last() == call@);
            }
            if !is_proxy_tool(call.function.name.as_str()) {
                let input = parse_args(call.function.arguments.as_str());
                self.push_block(
                    make_use_block(
                        "tool_use",
                        call.id.as_str(),
                        call.function.name.as_str(),
                        input,
                    ),
                );
                any = true;
                assert(self@.out.blocks =~= start.out.blocks + client_blocks(kept.push(call@)));
            }
            i += 1;
        }
        assert(all.take(n as int) =~= all);
        any
    }

    /// What the model's answer leads to. An answer that calls nothing, or any tool of the
    /// client, ends the run; one that only calls the proxy's tools has them run.
    pub fn on_response(&mut self, resp: openai::OpenAIResponse) -> (r: Step)
        requires
            old(self)@.out.output_tokens + resp.usage.completion_tokens <= u32::MAX,
            resp.choices@.len() > 0 ==> old(self)@.uses + answer_calls(
                resp.choices@[0].message,
            ).len() <= u32::MAX,
        ensures
            match r {
                Step::Failed(e) => {
                    &&& resp.choices@.len() == 0
                    &&& e matches ProxyError::Upstream(m) && m@ == "upstream returned no choices"@
                    &&& final(self)@ == old(self)@.counting(resp).failed()
                },
                Step::Done => {
                    &&& resp.choices@.len() > 0
                    &&& !only_proxy_tools(answer_calls(resp.choices@[0].message))
                    &&& final(self)@ == old(self)@.counting(resp).answered(resp.choices@[0].message)
                },
                Step::Run(calls) => {
                    &&& resp.choices@.len() > 0
                    &&& only_proxy_tools(answer_calls(resp.choices@[0].message))
                    &&& calls_view(calls@) == answer_calls(resp.choices@[0].message)
                    &&& final(self)@ == old(self)@.counting(resp).calling(resp.choices@[0].message)
                },
            },
    {
        if let Some(model) = &resp.model {
            self.out.model = model.clone();
        }
        if self.round == 0 {
            self.out.input_tokens = resp.usage.prompt_tokens;
        }
        self.out.output_tokens = self.out.output_tokens + resp.usage.completion_tokens;
        assert(self@ == old(self)@.counting(resp));
        if resp.choices.len() == 0 {
            self.over = true;
            return Step::Failed(ProxyError::Upstream("upstream returned no choices".to_string()));
        }
        let message = &resp.choices[0].message;
        let calls = match &message.tool_calls {
            Some(c) => copy_calls(c),
            None => Vec::new(),
        };
        assert(calls_view(calls@) =~= answer_calls(*message));
        if !all_proxy(&calls) {
            let ghost b0 = self@.out.blocks;
            if let Some(t) = &message.reasoning_content {
                if !t.as_str().is_empty() {
                    let block = Json::empty_object().with("type", Json::text("thinking")).with(
                        "thinking",
                        Json::text(t.as_str()),
                    );
                    self.push_block(block);
                }
            }
            let ghost b1 = self@.out.blocks;
            assert(b1 =~= b0 + thinking_blocks(opt_text(message.reasoning_content)));
            if let Some(t) = &message.content {
                if !text_is_blank(t.as_str()) {
                    self.push_block(make_text_block(t.as_str()));
                }
            }
            assert(self@.out.blocks =~= b1 + said_blocks(opt_text(message.content)));
            if self.hand_back(&calls) {
                self.out.stop_reason = "tool_use".to_string();
            } else {
                self.out.stop_reason = "end_turn".to_string();
            }
            self.over = true;
            return Step::Done;
        }
        let ghost earlier_messages = self.messages@;
        let turn = openai::Message {
            role: "assistant".to_string(),
            content: match &message.content {
                Some(t) => Some(openai::MessageContent::Text(t.clone())),
                None => None,
            },
            reasoning_content: None,
            tool_calls: Some(copy_calls(&calls)),
            tool_call_id: None,
            name: None,
        };
        let ghost t = turn@;
        self.messages.push(turn);
        assert(messages_view(self.messages@) =~= messages_view(earlier_messages).push(t));
        self.uses = self.uses + calls.len() as u32;
        Step::Run(calls)
    }

    /// Takes in what the calls came to, in their order, and ends the round.
    pub fn on_results(&mut self, calls: &Vec<openai::ToolCall>, replies: &Vec<String>)
        requires
            old(self).round < MAX_ROUNDS,
            calls@.len() == replies@.len(),
        ensures
            final(self)@ == old(self)@.replied(calls_view(calls@), texts(replies@)),
    {
        let ghost start = self@;
        let ghost all = start.replied(calls_view(calls@), texts(replies@)).messages;
        let n: usize = calls.len();
        let mut i: usize = 0;
        assert(all.take(start.messages.len() as int) =~= start.messages);
        while i < n
            invariant
                n == calls@.len(),
                n == replies@.len(),
                i <= n,
                start == old(self)@,
                all == start.replied(calls_view(calls@), texts(replies@)).messages,
                self@ == (AgentV { messages: all.take(start.messages.len() + i), ..start }),
                self.round == old(self).round,
            decreases n - i,
        {
            let ghost earlier_messages = self.messages@;
            let message = tool_result_msg(calls[i].id.as_str(), replies[i].as_str());
            let ghost m = message@;
            self.messages.push(message);
            proof {
                assert(messages_view(self.messages@) =~= messages_view(earlier_messages).push(m));
                assert(all[start.messages.len() + i] == m);
                assert(self@.messages =~= all.take(start.messages.len() + i + 1));
            }
            i += 1;
        }
        assert(all.take(start.messages.len() + n) =~= all);
        self.round = self.round + 1;
    }

    /// What the client is given.
    pub fn finish(self) -> (r: AgentOutput)
        ensures
            r@ == self@.out,
    {
        self.out
    }
}

/// The last round and every round after the budget is spent go out without the proxy's
/// tools; each tool of the client stays.
pub proof fn law_last_round_has_no_proxy_tools(a: AgentV, t: ToolV)
    requires
        a.must_answer(),
    ensures
        a.round_request().tools matches Some(tools) ==> (tools.contains(t) ==> !is_proxy_name(
            t.name,
        )),
        (a.request.tools matches Some(tools) && tools.contains(t)) && !is_proxy_name(t.name) ==> (
        a.round_request().tools matches Some(tools) && tools.contains(t)),
{
    broadcast use vstd::seq_lib::group_filter_ensures;

    if a.request.tools is Some {
        let all = a.request.tools->0;
        let kept = all.filter(of_client());
        if kept.contains(t) {
            let i = choose|i: int| 0 <= i < kept.len() && kept[i] == t;
            assert(of_client()(kept[i]));
        }
        if all.contains(t) && !is_proxy_name(t.name) {
            let i = choose|i: int| 0 <= i < all.len() && all[i] == t;
            assert(of_client()(all[i]));
            assert(kept.contains(all[i]));
        }
    }
}

/// No block shows the client a call of the proxy's tools.
pub open spec fn shows_no_proxy_call(blocks: Seq<JsonV>) -> bool {
    forall|i: int|
        0 <= i < blocks.len() && (#[trigger] blocks[i]).str_or_empty("type"@) == "tool_use"@
            ==> !is_proxy_name(blocks[i].str_or_empty("name"@))
}

proof fn lemma_answer_shows_no_proxy_call(a: AgentV, m: openai::ResponseMessage)
    requires
        shows_no_proxy_call(a.out.blocks),
    ensures
        shows_no_proxy_call(a.answered(m).out.blocks),
{
    broadcast use vstd::seq_lib::group_filter_ensures;

    reveal_strlit("type");
    reveal_strlit("name");
    reveal_strlit("id");
    reveal_strlit("input");
    reveal_strlit("text");
    reveal_strlit("thinking");
    reveal_strlit("tool_use");
    let calls = answer_calls(m);
    let kept = calls.filter(call_of_client());
    let thoughts = thinking_blocks(opt_text(m.reasoning_content));
    let said = said_blocks(opt_text(m.content));
    let used = client_blocks(kept);
    let blocks = a.answered(m).out.blocks;
    let (n0, n1) = (a.out.blocks.len() as int, a.out.blocks.len() + thoughts.len());
    let n2 = n1 + said.len();
    assert forall|i: int|
        0 <= i < blocks.len() && (#[trigger] blocks[i]).str_or_empty("type"@)
            == "tool_use"@ implies !is_proxy_name(blocks[i].str_or_empty("name"@)) by {
        if i < n0 {
            assert(blocks[i] == a.out.blocks[i]);
        } else if i < n1 {
            assert(blocks[i] == thoughts[i - n0]);
            assert(blocks[i].str_or_empty("type"@) == "thinking"@);
            assert("thinking"@.len() == 8 && "tool_use"@.len() == 8);
            assert("thinking"@[1] == 'h' && "tool_use"@[1] == 'o');
        } else if i < n2 {
            assert(blocks[i] == said[i - n1]);
            assert("type"@[1] == 'y' && "text"@[1] == 'e');
            assert(blocks[i].str_or_empty("type"@) == "text"@);
            assert("text"@.len() == 4 && "tool_use"@.len() == 8);
        } else {
            assert(blocks[i] == used[i - n2]);
            assert(call_of_client()(kept[i - n2]));
            assert("type"@[0] == 't' && "name"@[0] == 'n' && "input"@.len() == 5 && "id"@.len()
                == 2);
            assert(blocks[i].str_or_empty("name"@) == kept[i - n2].name);
        }
    }
}

/// However the model answers, the client is never shown a call of the proxy's tools.
pub proof fn law_client_sees_no_proxy_call(request: RequestV, es: Seq<Exchange>)
    ensures
        shows_no_proxy_call(begun(request).reached(es).out.blocks),
{
    lemma_reached_shows_no_proxy_call(begun(request), es);
}

proof fn lemma_reached_shows_no_proxy_call(a: AgentV, es: Seq<Exchange>)
    requires
        shows_no_proxy_call(a.out.blocks),
    ensures
        shows_no_proxy_call(a.reached(es).out.blocks),
    decreases es.len(),
{
    if es.len() > 0 && a.goes_on() {
        let e = es[0];
        if e.resp.choices@.len() > 0 {
            lemma_answer_shows_no_proxy_call(a.counting(e.resp), e.resp.choices@[0].message);
        }
        lemma_reached_shows_no_proxy_call(a.after(e), es.drop_first());
    }
}

/// The request does not offer the proxy's tools.
pub open spec fn offers_no_proxy_tool(q: RequestV) -> bool {
    q.tools matches Some(tools) ==> forall|i: int|
        0 <= i < tools.len() ==> !is_proxy_name((#[trigger] tools[i]).name)
}

/// However the model answers, a run asks it at most four times, each time the same model and
/// never for a stream. The fourth time, and whenever six calls were made, it is not offered
/// the proxy's tools; and after four answers at the latest the run does not go on.
pub proof fn law_run_is_bounded(request: RequestV, es: Seq<Exchange>)
    requires
        calls_made(es) <= u32::MAX,
    ensures
        ({
            let sent = begun(request).requests(es);
            &&& sent.len() <= MAX_ROUNDS
            &&& forall|i: int|
                0 <= i < sent.len() ==> (#[trigger] sent[i]).stream == Some(false) && sent[i].model
                    == request.model
            &&& forall|i: int|
                0 <= i < sent.len() && (i + 1 >= MAX_ROUNDS || calls_made(es.take(i))
                    >= MAX_TOOL_USES) ==> offers_no_proxy_tool(#[trigger] sent[i])
            &&& es.len() >= MAX_ROUNDS ==> !begun(request).reached(es).goes_on()
        }),
{
    lemma_run_is_bounded(begun(request), request, es);
}

proof fn lemma_forced_offers_no_proxy_tool(a: AgentV)
    requires
        a.must_answer(),
    ensures
        offers_no_proxy_tool(a.round_request()),
{
    broadcast use vstd::seq_lib::group_filter_ensures;

    if a.request.tools is Some {
        let kept = a.request.tools->0.filter(of_client());
        assert forall|i: int| 0 <= i < kept.len() implies !is_proxy_name(
            (#[trigger] kept[i]).name,
        ) by {
            assert(of_client()(kept[i]));
        }
    }
}

proof fn lemma_run_is_bounded(a: AgentV, request: RequestV, es: Seq<Exchange>)
    requires
        a.uses + calls_made(es) <= u32::MAX,
        a.request == begun(request).request,
        0 <= a.round <= MAX_ROUNDS,
    ensures
        ({
            let sent = a.requests(es);
            &&& sent.len() + a.round <= MAX_ROUNDS
            &&& forall|i: int|
                0 <= i < sent.len() ==> (#[trigger] sent[i]).stream == Some(false) && sent[i].model
                    == request.model
            &&& forall|i: int|
                0 <= i < sent.len() && (a.round + i + 1 >= MAX_ROUNDS || a.uses + calls_made(
                    es.take(i),
                ) >= MAX_TOOL_USES) ==> offers_no_proxy_tool(#[trigger] sent[i])
            &&& a.round + es.len() >= MAX_ROUNDS ==> !a.reached(es).goes_on()
        }),
    decreases es.len(),
{
    let sent = a.requests(es);
    assert(es.take(0) =~= Seq::<Exchange>::empty());
    if a.must_answer() {
        lemma_forced_offers_no_proxy_tool(a);
    }
    if es.len() > 0 && a.goes_on() {
        let b = a.after(es[0]);
        let rest = es.drop_first();
        let later = b.requests(rest);
        assert(calls_made(es) == es[0].calls() + calls_made(rest));
        lemma_run_is_bounded(b, request, rest);
        assert forall|i: int| 0 <= i < sent.len() implies (#[trigger] sent[i]).stream == Some(false)
            && sent[i].model == request.model by {
            if i > 0 {
                assert(sent[i] == later[i - 1]);
            }
        }
        assert forall|i: int|
            0 <= i < sent.len() && (a.round + i + 1 >= MAX_ROUNDS || a.uses + calls_made(es.take(i))
                >= MAX_TOOL_USES) implies offers_no_proxy_tool(#[trigger] sent[i]) by {
            if i > 0 {
                assert(sent[i] == later[i - 1]);
                lemma_no_more_requests(a, es);
                assert(es.take(i)[0] == es[0]);
                assert(es.take(i).drop_first() =~= rest.take(i - 1));
            }
        }
    }
}

proof fn lemma_no_more_requests(a: AgentV, es: Seq<Exchange>)
    ensures
        a.requests(es).len() <= es.len() + 1,
    decreases es.len(),
{
    if es.len() > 0 && a.goes_on() {
        lemma_no_more_requests(a.after(es[0]), es.drop_first());
    }
}

// ---------------------------------------------------------------------------
// What the client receives
// ---------------------------------------------------------------------------
/// The usage that the client is told.
pub open spec fn usage_of(out: OutputV) -> JsonV {
    JsonV::Object(
        map![
            "input_tokens"@ => int_value(out.input_tokens as u64),
            "output_tokens"@ => int_value(out.output_tokens as u64),
        ],
    )
}

fn make_usage(out: &AgentOutput) -> (r: Json)
    ensures
        r@ == usage_of(out@),
{
    Json::empty_object().with("input_tokens", Json::whole(out.input_tokens as u64)).with(
        "output_tokens",
        Json::whole(out.output_tokens as u64),
    )
}

/// A whole message.
pub open spec fn message_body(id: Seq<char>, out: OutputV) -> JsonV {
    JsonV::Object(
        map![
            "id"@ => JsonV::String(id),
            "type"@ => JsonV::String("message"@),
            "role"@ => JsonV::String("assistant"@),
            "model"@ => JsonV::String(out.model),
            "content"@ => JsonV::Array(out.blocks),
            "stop_reason"@ => JsonV::String(out.stop_reason),
            "stop_sequence"@ => JsonV::Null,
            "usage"@ => usage_of(out),
        ],
    )
}

/// The message that a client without a stream receives.
pub fn message_value(id: &str, out: &AgentOutput) -> (r: Json)
    ensures
        r@ == message_body(id@, out@),
{
    Json::empty_object().with("id", Json::text(id)).with("type", Json::text("message")).with(
        "role",
        Json::text("assistant"),
    ).with("model", Json::text(out.model.as_str())).with(
        "content",
        Json::list(copy_blocks(&out.blocks)),
    ).with("stop_reason", Json::text(out.stop_reason.as_str())).with(
        "stop_sequence",
        Json::Null,
    ).with("usage", make_usage(out))
}

/// A delta with one text.
pub open spec fn text_delta(kind: Seq<char>, key: Seq<char>, text: Seq<char>) -> JsonV {
    JsonV::Object(map!["type"@ => JsonV::String(kind), key => JsonV::String(text)])
}

/// The events of one block; a block of any other kind is not shown.
pub open spec fn block_frames(index: u64, block: JsonV) -> Seq<Seq<char>> {
    let ty = block.str_or_empty("type"@);
    if ty == "text"@ {
        seq![
            indexed("content_block_start"@, index, "content_block"@, text_block(""@)),
            indexed(
                "content_block_delta"@,
                index,
                "delta"@,
                text_delta("text_delta"@, "text"@, block.str_or_empty("text"@)),
            ),
            stop_text(index),
        ]
    } else if ty == "tool_use"@ {
        let input = match block.get("input"@) {
            Some(v) => v,
            None => JsonV::Object(Map::empty()),
        };
        seq![
            indexed(
                "content_block_start"@,
                index,
                "content_block"@,
                use_block(
                    "tool_use"@,
                    block.str_or_empty("id"@),
                    block.str_or_empty("name"@),
                    JsonV::Object(Map::empty()),
                ),
            ),
            indexed(
                "content_block_delta"@,
                index,
                "delta"@,
                text_delta("input_json_delta"@, "partial_json"@, json_text(input)),
            ),
            stop_text(index),
        ]
    } else if ty == "thinking"@ {
        seq![
            indexed("content_block_start"@, index, "content_block"@, thinking_block(""@)),
            indexed(
                "content_block_delta"@,
                index,
                "delta"@,
                text_delta("thinking_delta"@, "thinking"@, block.str_or_empty("thinking"@)),
            ),
            stop_text(index),
        ]
    } else {
        seq![]
    }
}

/// The events of all blocks, one after the other.
pub open spec fn blocks_frames(blocks: Seq<JsonV>) -> Seq<Seq<char>>
    decreases blocks.len(),
{
    if blocks.len() == 0 {
        seq![]
    } else {
        blocks_frames(blocks.drop_last()) + block_frames(
            (blocks.len() - 1) as u64,
            blocks.last(),
        )
    }
}

fn make_delta(kind: &str, key: &str, text: &str) -> (r: Json)
    ensures
        r@ == text_delta(kind@, key@, text@),
{
    Json::empty_object().with("type", Json::text(kind)).with(key, Json::text(text))
}

fn three_frames(index: u64, start: Json, delta: Json) -> (r: Vec<String>)
    ensures
        texts(r@) == seq![
            indexed("content_block_start"@, index, "content_block"@, start@),
            indexed("content_block_delta"@, index, "delta"@, delta@),
            stop_text(index),
        ],
{
    let ghost (s, d) = (start@, delta@);
    let mut frames: Vec<String> = Vec::new();
    frames.push(indexed_frame("content_block_start", index, "content_block", start));
    frames.push(indexed_frame("content_block_delta", index, "delta", delta));
    frames.push(stop_frame(index));
    assert(texts(frames@) =~= seq![
        indexed("content_block_start"@, index, "content_block"@, s),
        indexed("content_block_delta"@, index, "delta"@, d),
        stop_text(index),
    ]);
    frames
}

fn render_block(index: u64, block: &Json) -> (r: Vec<String>)
    ensures
        texts(r@) == block_frames(index, block@),
{
    let ty = block.str_or_empty("type");
    if same(ty.as_str(), "text") {
        let text = block.str_or_empty("text");
        three_frames(index, make_text_block(""), make_delta("text_delta", "text", text.as_str()))
    } else if same(ty.as_str(), "tool_use") {
        let id = block.str_or_empty("id");
        let name = block.str_or_empty("name");
        let input = match block.get("input") {
            Some(v) => v.to_text(),
            None => Json::empty_object().to_text(),
        };
        three_frames(
            index,
            make_use_block("tool_use", id.as_str(), name.as_str(), Json::empty_object()),
            make_delta("input_json_delta", "partial_json", input.as_str()),
        )
    } else if same(ty.as_str(), "thinking") {
        let text = block.str_or_empty("thinking");
        let start = Json::empty_object().with("type", Json::text("thinking")).with(
            "thinking",
            Json::text(""),
        );
        three_frames(index, start, make_delta("thinking_delta", "thinking", text.as_str()))
    } else {
        let none: Vec<String> = Vec::new();
        assert(texts(none@) =~= Seq::<Seq<char>>::empty());
        none
    }
}

/// The events that replay assembled blocks.
pub fn render_block_events(blocks: &Vec<Json>) -> (r: Vec<String>)
    ensures
        texts(r@) == blocks_frames(json_seq(blocks@)),
{
    let mut frames: Vec<String> = Vec::new();
    let ghost all = json_seq(blocks@);
    let n: usize = blocks.len();
    let mut i: usize = 0;
    assert(texts(frames@) =~= blocks_frames(all.take(0)));
    while i < n
        invariant
            n == blocks@.len(),
            i <= n,
            all == json_seq(blocks@),
            texts(frames@) == blocks_frames(all.take(i as int)),
        decreases n - i,
    {
        assert(all.take(i as int + 1).drop_last() =~= all.take(i as int));
        let ghost before = frames@;
        let mut more = render_block(i as u64, &blocks[i]);
        let ghost added = more@;
        frames.append(&mut more);
        assert(texts(frames@) =~= texts(before) + texts(added));
        i += 1;
    }
    assert(all.take(n as int) =~= all);
    frames
}

/// The end of a streamed message.
pub open spec fn delta_body(out: OutputV) -> JsonV {
    JsonV::Object(
        map![
            "type"@ => JsonV::String("message_delta"@),
            "delta"@ => JsonV::Object(
                map![
                    "stop_reason"@ => JsonV::String(out.stop_reason),
                    "stop_sequence"@ => JsonV::Null,
                ],
            ),
            "usage"@ => usage_of(out),
        ],
    )
}

/// The frames that follow the first one: the blocks, and the end.
pub open spec fn output_frames(out: OutputV) -> Seq<Seq<char>> {
    blocks_frames(out.blocks) + seq![
        sse("message_delta"@, delta_body(out)),
        sse(
            "message_stop"@,
            JsonV::Object(map!["type"@ => JsonV::String("message_stop"@)]),
        ),
    ]
}

/// The frames that follow the first one when the run is over.
pub fn closing_frames(out: &AgentOutput) -> (r: Vec<String>)
    ensures
        texts(r@) == output_frames(out@),
{
    let mut frames = render_block_events(&out.blocks);
    let delta = Json::empty_object().with(
        "stop_reason",
        Json::text(out.stop_reason.as_str()),
    ).with("stop_sequence", Json::Null);
    let data = Json::empty_object().with("type", Json::text("message_delta")).with(
        "delta",
        delta,
    ).with("usage", make_usage(out));
    frames.push(sse_event("message_delta", &data));
    let stop = Json::empty_object().with("type", Json::text("message_stop"));
    frames.push(sse_event("message_stop", &stop));
    assert(texts(frames@) =~= output_frames(out@));
    frames
}

// ---------------------------------------------------------------------------
// Running a call
// ---------------------------------------------------------------------------
/// What a call takes to be answered.
pub enum Job {
    /// Skills have to be looked up.
    Recall { query: String },
    /// Documentation has to be looked up.
    Docs { library: String, query: String },
    /// The answer is known.
    Reply(String),
}

/// What a job is.
pub enum JobV {
    Recall(Seq<char>),
    Docs { library: Seq<char>, query: Seq<char> },
    Reply(Seq<char>),
}

impl Job {
    pub open spec fn view(&self) -> JobV {
        match self {
            Job::Recall { query } => JobV::Recall(query@),
            Job::Docs { library, query } => JobV::Docs { library: library@, query: query@ },
            Job::Reply(text) => JobV::Reply(text@),
        }
    }
}

/// What a call takes: a blank argument, or a missing server, is answered at once.
pub open spec fn job_of(name: Seq<char>, args: JsonV, docs: bool) -> JobV {
    let query = args.str_or_empty("query"@);
    let library = args.str_or_empty("library"@);
    if name == "recall_skills"@ {
        if is_blank(query) {
            JobV::Reply("No query provided."@)
        } else {
            JobV::Recall(query)
        }
    } else if name == "search_docs"@ {
        if !docs {
            JobV::Reply("Docs search not configured."@)
        } else if is_blank(library) || is_blank(query) {
            JobV::Reply("Provide both 'library' and 'query'."@)
        } else {
            JobV::Docs { library, query }
        }
    } else {
        JobV::Reply("Unknown tool: "@ + name)
    }
}

/// What a call takes to be answered.
pub fn job_for(name: &str, args: &Json, docs: bool) -> (r: Job)
    ensures
        r@ == job_of(name@, args@, docs),
{
    let query = args.str_or_empty("query");
    let library = args.str_or_empty("library");
    if same(name, "recall_skills") {
        if text_is_blank(query.as_str()) {
            Job::Reply("No query provided.".to_string())
        } else {
            Job::Recall { query }
        }
    } else if same(name, "search_docs") {
        if !docs {
            Job::Reply("Docs search not configured.".to_string())
        } else if text_is_blank(library.as_str()) || text_is_blank(query.as_str()) {
            Job::Reply("Provide both 'library' and 'query'.".to_string())
        } else {
            Job::Docs { library, query }
        }
    } else {
        let mut text = "Unknown tool: ".to_string();
        text.append(name);
        Job::Reply(text)
    }
}

/// A recalled skill: its title and its body.
pub struct Recalled {
    pub title: String,
    pub body: String,
}

/// One recalled skill, as the model reads it.
pub open spec fn recalled_line(i: int, s: Recalled) -> Seq<char> {
    decimal((i + 1) as nat) + ". "@ + s.title@ + " — "@ + s.body@
}

/// Recalled skills, as the model reads them.
pub open spec fn recalled_text(found: Option<Vec<Recalled>>) -> Seq<char> {
    match found {
        None => "Skill recall unavailable (embedding failed)."@,
        Some(v) => if v@.len() == 0 {
            "No relevant learned skills found."@
        } else {
            join(Seq::new(v@.len(), |i: int| recalled_line(i, v@[i])), "\n"@)
        },
    }
}

/// The reply to a recall, given the skills that were found, or that the query could not be
/// embedded.
pub fn recall_skills(found: &Option<Vec<Recalled>>) -> (r: String)
    ensures
        r@ == recalled_text(*found),
{
    let v = match found {
        None => {
            return "Skill recall unavailable (embedding failed).".to_string();
        },
        Some(v) => v,
    };
    if v.len() == 0 {
        return "No relevant learned skills found.".to_string();
    }
    let mut lines: Vec<String> = Vec::new();
    let n: usize = v.len();
    let mut i: usize = 0;
    while i < n
        invariant
            n == v@.len(),
            i <= n,
            lines@.len() == i,
            forall|k: int| 0 <= k < i ==> (#[trigger] lines@[k])@ == recalled_line(k, v@[k]),
        decreases n - i,
    {
        let mut line = decimal_text(i as u64 + 1);
        line.append(". ");
        line.append(v[i].title.as_str());
        line.append(" — ");
        line.append(v[i].body.as_str());
        lines.push(line);
        i += 1;
    }
    assert(texts(lines@) =~= Seq::new(v@.len(), |i: int| recalled_line(i, v@[i])));
    join_texts(lines.as_slice(), "\n")
}

/// The message that looks documentation up.
pub open spec fn docs_call(name: Seq<char>, arguments: JsonV) -> JsonV {
    JsonV::Object(
        map![
            "jsonrpc"@ => JsonV::String("2.0"@),
            "id"@ => int_value(1),
            "method"@ => JsonV::String("tools/call"@),
            "params"@ => JsonV::Object(
                map!["name"@ => JsonV::String(name), "arguments"@ => arguments],
            ),
        ],
    )
}

/// The message that calls a tool of the documentation server.
pub fn docs_request(name: &str, arguments: Json) -> (r: Json)
    ensures
        r@ == docs_call(name@, arguments@),
{
    let params = Json::empty_object().with("name", Json::text(name)).with("arguments", arguments);
    Json::empty_object().with("jsonrpc", Json::text("2.0")).with("id", Json::whole(1)).with(
        "method",
        Json::text("tools/call"),
    ).with("params", params)
}

/// The arguments of a documentation search.
pub open spec fn docs_arguments(library: Seq<char>, query: Seq<char>, limit: u64) -> JsonV {
    JsonV::Object(
        map![
            "library"@ => JsonV::String(library),
            "query"@ => JsonV::String(query),
            "limit"@ => int_value(limit),
        ],
    )
}

/// The message that looks a library's documentation up.
pub fn docs_search(library: &str, query: &str, limit: u64) -> (r: Json)
    ensures
        r@ == docs_call("search_docs"@, docs_arguments(library@, query@, limit)),
{
    let arguments = Json::empty_object().with("library", Json::text(library)).with(
        "query",
        Json::text(query),
    ).with("limit", Json::whole(limit));
    docs_request("search_docs", arguments)
}

/// The text that a documentation server answered, where its answer holds one.
pub open spec fn docs_answer(body: Seq<char>) -> Option<Seq<char>> {
    match json_parse(answer_data(body)) {
        Some(v) => tool_text(v),
        None => None,
    }
}

/// The text that a documentation server answered.
pub fn read_docs_answer(body: &str) -> (r: Option<String>)
    ensures
        opt_text(r) == docs_answer(body@),
{
    let data = read_data(body);
    match Json::parse(data.as_str()) {
        Some(v) => match crate::websearch::first_text(&v) {
            Some(t) => Some(t.clone()),
            None => None,
        },
        None => None,
    }
}

/// The reply to a documentation search, given the server's answer.
pub fn search_docs(body: &str) -> (r: String)
    ensures
        r@ == (match docs_answer(body@) {
            Some(t) => first_chars(t, 6000),
            None => "No documentation found."@,
        }),
{
    match read_docs_answer(body) {
        Some(t) => first_text(t.as_str(), 6000),
        None => "No documentation found.".to_string(),
    }
}

/// The reply to a documentation search that could not be sent.
pub fn search_docs_failed(error: &str) -> (r: String)
    ensures
        r@ == "Docs search failed: "@ + error@,
{
    let mut text = "Docs search failed: ".to_string();
    text.append(error);
    text
}

} // verus!
