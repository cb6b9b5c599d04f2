//! Background calls to a model: which model is asked, with what, and what is read of the
//! answer.
use crate::json::{int_value, json_parse, json_seq, Json, JsonV};
use crate::models::openai::copy_opt;
use crate::text::{
    opt_text, to_chars, to_text, sub_chars, trim, trim_text, rfind_chars, lemma_rfind_from,
};
use crate::translate::websearch_agent::past_thoughts;
use crate::keys::lemma_chat_keys;
use vstd::prelude::*;

verus! {

// ---------------------------------------------------------------------------
// Which model takes a hard task
// ---------------------------------------------------------------------------
/// Milliseconds between two calls of the strong model.
pub const NEM_GAP: u64 = 120000;

/// Milliseconds between two calls of the paid backup.
pub const GEM_GAP: u64 = 600000;

/// How many failures of the strong model bring the backup in.
pub const FAIL_THRESHOLD: u32 = 5;

/// When each model was called last, in milliseconds, and how often the strong one failed
/// in a row.
#[derive(Debug, Clone, Copy)]
pub struct Router {
    pub nem_last: Option<u64>,
    pub nem_fails: u32,
    pub gem_last: Option<u64>,
}

/// Who takes a task.
#[derive(Debug, Clone, Copy, PartialEq, Eq, Structural)]
pub enum Route {
    /// The own backend.
    Auto,
    /// The strong model.
    Nemotron,
    /// The paid backup.
    Gemini,
}

/// That much time has passed since then, if there was a then.
pub open spec fn has_passed(last: Option<u64>, now: u64, gap: u64) -> bool {
    match last {
        Some(t) => now - t >= gap,
        None => true,
    }
}

fn passed(last: Option<u64>, now: u64, gap: u64) -> (r: bool)
    requires
        gap > 0,
    ensures
        r == has_passed(last, now, gap),
{
    match last {
        Some(t) => now >= t && now - t >= gap,
        None => true,
    }
}

impl Router {
    /// Who takes the next hard task.
    pub open spec fn route(self, now: u64) -> Route {
        if self.nem_fails >= FAIL_THRESHOLD {
            if has_passed(self.gem_last, now, GEM_GAP) {
                Route::Gemini
            } else {
                Route::Auto
            }
        } else if has_passed(self.nem_last, now, NEM_GAP) {
            Route::Nemotron
        } else {
            Route::Auto
        }
    }

    /// After a task was given to somebody.
    pub open spec fn routed(self, route: Route, now: u64) -> Router {
        match route {
            Route::Auto => self,
            Route::Nemotron => Router { nem_last: Some(now), ..self },
            Route::Gemini => Router { gem_last: Some(now), nem_fails: 0, ..self },
        }
    }

    /// Before the first task.
    pub fn new() -> (r: Router)
        ensures
            r.nem_last is None,
            r.nem_fails == 0,
            r.gem_last is None,
    {
        Router { nem_last: None, nem_fails: 0, gem_last: None }
    }

    /// Who takes the next hard task: the strong model, or the backup once after repeated
    /// failures, each no more often than its gap allows; otherwise the own backend.
    pub fn pick_hard_route(&mut self, now: u64) -> (r: Route)
        ensures
            r == old(self).route(now),
            *final(self) == old(self).routed(r, now),
    {
        if self.nem_fails >= FAIL_THRESHOLD {
            if passed(self.gem_last, now, GEM_GAP) {
                self.gem_last = Some(now);
                self.nem_fails = 0;
                return Route::Gemini;
            }
            return Route::Auto;
        }
        if passed(self.nem_last, now, NEM_GAP) {
            self.nem_last = Some(now);
            return Route::Nemotron;
        }
        Route::Auto
    }

    /// Counts how a call of the strong model went.
    pub fn report_nemotron(&mut self, success: bool)
        ensures
            *final(self) == (Router {
                nem_fails: if success {
                    0
                } else if old(self).nem_fails == u32::MAX {
                    u32::MAX
                } else {
                    (old(self).nem_fails + 1) as u32
                },
                ..*old(self)
            }),
    {
        if success {
            self.nem_fails = 0;
        } else if self.nem_fails < u32::MAX {
            self.nem_fails = self.nem_fails + 1;
        }
    }
}

/// What follows the attempt at a hard task.
#[derive(Debug)]
pub enum HardNext {
    /// It is over, with this answer or none.
    Answer(Option<String>),
    /// The own backend takes it.
    OwnBackend,
}

impl Router {
    /// After an attempt: those of the strong model are counted.
    pub open spec fn reported(self, route: Route, success: bool) -> Router {
        if route == Route::Nemotron {
            Router {
                nem_fails: if success {
                    0
                } else if self.nem_fails == u32::MAX {
                    u32::MAX
                } else {
                    (self.nem_fails + 1) as u32
                },
                ..self
            }
        } else {
            self
        }
    }

    /// Who takes a hard task first. Without a key for the outside models it is always the own
    /// backend.
    pub fn first_route(&mut self, has_key: bool, now: u64) -> (r: Route)
        ensures
            if has_key {
                r == old(self).route(now) && *final(self) == old(self).routed(r, now)
            } else {
                r == Route::Auto && *final(self) == *old(self)
            },
    {
        if has_key {
            self.pick_hard_route(now)
        } else {
            Route::Auto
        }
    }

    /// What follows an attempt, given what came back: an outside model that failed hands the
    /// task to the own backend, and what the own backend gives is the end of it.
    pub fn after_attempt(&mut self, route: Route, text: Option<String>) -> (r: HardNext)
        ensures
            *final(self) == old(self).reported(route, text is Some),
            match r {
                HardNext::Answer(t) => t == text && (text is Some || route == Route::Auto),
                HardNext::OwnBackend => text is None && route != Route::Auto,
            },
    {
        if route == Route::Nemotron {
            self.report_nemotron(text.is_some());
        }
        if text.is_none() && route != Route::Auto {
            HardNext::OwnBackend
        } else {
            HardNext::Answer(text)
        }
    }
}

/// Each model is called no more often than its gap allows.
pub proof fn law_models_are_spaced(r: Router, now: u64)
    ensures
        r.route(now) == Route::Nemotron ==> (r.nem_last matches Some(t) ==> now >= t + NEM_GAP),
        r.route(now) == Route::Gemini ==> (r.gem_last matches Some(t) ==> now >= t + GEM_GAP),
{
}

/// The backup takes one task and hands back to the strong model: after it the failures
/// count from zero, so the next task is not the backup's.
pub proof fn law_backup_takes_one_task(r: Router, now: u64, later: u64)
    requires
        r.route(now) == Route::Gemini,
    ensures
        r.nem_fails >= FAIL_THRESHOLD,
        r.routed(Route::Gemini, now).route(later) != Route::Gemini,
{
}

/// Where the outside models are called.
pub fn openrouter_url() -> (r: &'static str)
    ensures
        r@ == "https://openrouter.ai/api/v1/chat/completions"@,
{
    "https://openrouter.ai/api/v1/chat/completions"
}

/// The outside model of a route, and whether it searches the web; the own backend is none.
pub fn route_model(route: Route) -> (r: Option<(&'static str, bool)>)
    ensures
        match route {
            Route::Auto => r is None,
            Route::Nemotron => r matches Some(t) && t.0@
                == "nvidia/nemotron-3-ultra-550b-a55b:free"@ && !t.1,
            Route::Gemini => r matches Some(t) && t.0@ == "google/gemini-3.1-flash-lite"@ && t.1,
        },
{
    match route {
        Route::Auto => None,
        Route::Nemotron => Some(("nvidia/nemotron-3-ultra-550b-a55b:free", false)),
        Route::Gemini => Some(("google/gemini-3.1-flash-lite", true)),
    }
}

// ---------------------------------------------------------------------------
// What is asked
// ---------------------------------------------------------------------------
/// A message with a role and a text.
pub open spec fn turn(role: Seq<char>, content: Seq<char>) -> JsonV {
    JsonV::Object(map!["role"@ => JsonV::String(role), "content"@ => JsonV::String(content)])
}

fn make_turns(system: &str, user: &str) -> (r: Json)
    ensures
        r@ == JsonV::Array(seq![turn("system"@, system@), turn("user"@, user@)]),
{
    let mut turns: Vec<Json> = Vec::new();
    turns.push(
        Json::empty_object().with("role", Json::text("system")).with(
            "content",
            Json::text(system),
        ),
    );
    turns.push(
        Json::empty_object().with("role", Json::text("user")).with("content", Json::text(user)),
    );
    assert(json_seq(turns@) =~= seq![turn("system"@, system@), turn("user"@, user@)]);
    Json::list(turns)
}

/// The body of a call: deterministic, with little effort, and without chain of thought.
pub open spec fn chat_value(
    model: Seq<char>,
    system: Seq<char>,
    user: Seq<char>,
    max_tokens: u32,
) -> JsonV {
    JsonV::Object(
        map![
            "model"@ => JsonV::String(model),
            "messages"@ => JsonV::Array(
                seq![turn("system"@, system + "\n/no_think"@), turn("user"@, user)],
            ),
            "max_tokens"@ => int_value(max_tokens as u64),
            "temperature"@ => int_value(0),
            "reasoning_effort"@ => JsonV::String("low"@),
            "stream"@ => JsonV::Bool(false),
        ],
    )
}

/// The body of a call.
pub fn chat_body(model: &str, system: &str, user: &str, max_tokens: u32) -> (r: Json)
    ensures
        r@ == chat_value(model@, system@, user@, max_tokens),
{
    let mut quiet = system.to_string();
    quiet.append("\n/no_think");
    Json::empty_object().with("model", Json::text(model)).with(
        "messages",
        make_turns(quiet.as_str(), user),
    ).with("max_tokens", Json::whole(max_tokens as u64)).with("temperature", Json::whole(0)).with(
        "reasoning_effort",
        Json::text("low"),
    ).with("stream", Json::Bool(false))
}

/// The body of a call through OpenRouter, which can search the web itself.
pub open spec fn openrouter_value(
    model: Seq<char>,
    system: Seq<char>,
    user: Seq<char>,
    max_tokens: u32,
    web_search: bool,
) -> JsonV {
    JsonV::Object(
        map![
            "model"@ => JsonV::String(
                if web_search {
                    model + ":online"@
                } else {
                    model
                },
            ),
            "messages"@ => JsonV::Array(seq![turn("system"@, system), turn("user"@, user)]),
            "max_tokens"@ => int_value(max_tokens as u64),
            "temperature"@ => int_value(0),
            "stream"@ => JsonV::Bool(false),
        ],
    )
}

/// The body of a call through OpenRouter.
pub fn openrouter_body(
    model: &str,
    system: &str,
    user: &str,
    max_tokens: u32,
    web_search: bool,
) -> (r: Json)
    ensures
        r@ == openrouter_value(model@, system@, user@, max_tokens, web_search),
{
    let mut slug = model.to_string();
    if web_search {
        slug.append(":online");
    }
    Json::empty_object().with("model", Json::text(slug.as_str())).with(
        "messages",
        make_turns(system, user),
    ).with("max_tokens", Json::whole(max_tokens as u64)).with("temperature", Json::whole(0)).with(
        "stream",
        Json::Bool(false),
    )
}

/// Where a call goes, and with which key: to the background endpoint with its own key where
/// there is one, else to the first upstream with the caller's key.
pub fn chat_target(
    llm_url: &Option<String>,
    own_key: &Option<String>,
    upstream: Option<String>,
    caller_key: Option<String>,
) -> (r: Option<(String, Option<String>)>)
    ensures
        match *llm_url {
            Some(u) => r matches Some(t) && t.0 == u && t.1 == *own_key,
            None => match upstream {
                Some(u) => r matches Some(t) && t.0 == u && t.1 == caller_key,
                None => r is None,
            },
        },
{
    match llm_url {
        Some(u) => Some((u.clone(), copy_opt(own_key))),
        None => match upstream {
            Some(u) => Some((u, caller_key)),
            None => None,
        },
    }
}

// ---------------------------------------------------------------------------
// What is read
// ---------------------------------------------------------------------------
/// How far into an object a reader is.
pub struct Scan {
    pub depth: int,
    pub quoted: bool,
    pub escaped: bool,
}

impl Scan {
    /// After one more character: braces count outside of strings, and an escaped quote does
    /// not end a string.
    pub open spec fn after(self, c: char) -> Scan {
        if self.quoted {
            if self.escaped {
                Scan { escaped: false, ..self }
            } else if c == '\\' {
                Scan { escaped: true, ..self }
            } else if c == '"' {
                Scan { quoted: false, ..self }
            } else {
                self
            }
        } else if c == '"' {
            Scan { quoted: true, ..self }
        } else if c == '{' {
            Scan { depth: self.depth + 1, ..self }
        } else if c == '}' {
            Scan { depth: self.depth - 1, ..self }
        } else {
            self
        }
    }
}

/// Where the object ends that a reader at `i` is in.
pub open spec fn object_end(s: Seq<char>, i: int, scan: Scan) -> Option<int>
    decreases s.len() - i,
{
    if i < 0 || i >= s.len() {
        None
    } else {
        let next = scan.after(s[i]);
        if next.depth == 0 && scan.depth == 1 {
            Some(i)
        } else {
            object_end(s, i + 1, next)
        }
    }
}

/// Where the first opening brace stands, from `i` on.
pub open spec fn brace_from(s: Seq<char>, i: int) -> Option<int>
    decreases s.len() - i,
{
    if i < 0 || i >= s.len() {
        None
    } else if s[i] == '{' {
        Some(i)
    } else {
        brace_from(s, i + 1)
    }
}

/// The first object of a text: from its first opening brace to the one that closes it.
pub open spec fn first_object(s: Seq<char>) -> Option<Seq<char>> {
    match brace_from(s, 0) {
        Some(i) => match object_end(s, i + 1, Scan { depth: 1, quoted: false, escaped: false }) {
            Some(e) => Some(s.subrange(i, e + 1)),
            None => None,
        },
        None => None,
    }
}

/// The JSON object that a text is.
pub open spec fn object_value(text: Seq<char>) -> Option<JsonV> {
    match json_parse(text) {
        Some(v) => if v is Object {
            Some(v)
        } else {
            None
        },
        None => None,
    }
}

/// The JSON object of a model's answer: all that follows its thoughts, or the first object in
/// it.
pub open spec fn answer_value(text: Seq<char>) -> Option<JsonV> {
    let t = past_thoughts(text);
    match object_value(trim(t)) {
        Some(v) => Some(v),
        None => match first_object(t) {
            Some(o) => object_value(o),
            None => None,
        },
    }
}

proof fn lemma_brace(s: Seq<char>, i: int)
    requires
        0 <= i,
    ensures
        brace_from(s, i) matches Some(k) ==> i <= k < s.len() && s[k] == '{',
    decreases s.len() - i,
{
    if i < s.len() && s[i] != '{' {
        lemma_brace(s, i + 1);
    }
}

/// The first object of a text, from its first opening brace to the one that closes it.
pub fn find_object(text: &str) -> (r: Option<String>)
    ensures
        opt_text(r) == first_object(text@),
{
    let cs = to_chars(text);
    let n: usize = cs.len();
    let mut start: usize = 0;
    while start < n && cs[start] != '{'
        invariant
            n == cs@.len(),
            start <= n,
            brace_from(cs@, 0) == brace_from(cs@, start as int),
        decreases n - start,
    {
        start += 1;
    }
    if start == n {
        return None;
    }
    let mut depth: usize = 1;
    let mut quoted = false;
    let mut escaped = false;
    let mut i: usize = start + 1;
    while i < n
        invariant
            n == cs@.len(),
            cs@ == text@,
            start < i <= n,
            1 <= depth <= i - start,
            brace_from(cs@, 0) == Some(start as int),
            object_end(cs@, start + 1, Scan { depth: 1, quoted: false, escaped: false })
                == object_end(cs@, i as int, Scan { depth: depth as int, quoted, escaped }),
        decreases n - i,
    {
        let c: char = cs[i];
        let ghost scan = Scan { depth: depth as int, quoted, escaped };
        if quoted {
            if escaped {
                escaped = false;
            } else if c == '\\' {
                escaped = true;
            } else if c == '"' {
                quoted = false;
            }
        } else if c == '"' {
            quoted = true;
        } else if c == '{' {
            depth += 1;
        } else if c == '}' {
            if depth == 1 {
                let found = sub_chars(cs.as_slice(), start, i + 1);
                return Some(to_text(found.as_slice()));
            }
            depth -= 1;
        }
        assert(scan.after(c) == (Scan { depth: depth as int, quoted, escaped }));
        i += 1;
    }
    None
}

/// What follows the last end of thoughts.
pub fn skip_thoughts(text: &str) -> (r: String)
    ensures
        r@ == past_thoughts(text@),
{
    let all = to_chars(text);
    let mark = to_chars("</think>");
    proof {
        lemma_rfind_from(all@, mark@, all@.len() - mark@.len());
    }
    match rfind_chars(all.as_slice(), mark.as_slice()) {
        Some(i) => {
            let n: usize = all.len();
            let rest = sub_chars(all.as_slice(), i + mark.len(), n);
            assert(rest@ =~= past_thoughts(text@));
            to_text(rest.as_slice())
        },
        None => text.to_string(),
    }
}

/// Reads a text that is a JSON object.
pub fn parse_object(text: &str) -> (r: Option<Json>)
    ensures
        match object_value(text@) {
            Some(v) => r is Some && r->0@ == v,
            None => r is None,
        },
{
    match Json::parse(text) {
        Some(v) => {
            let object = match &v {
                Json::Object(_) => true,
                _ => false,
            };
            if object {
                Some(v)
            } else {
                None
            }
        },
        None => None,
    }
}

/// The JSON object of a model's answer.
pub fn extract_json(text: &str) -> (r: Option<Json>)
    ensures
        r matches Some(j) ==> j@ is Object,
        match answer_value(text@) {
            Some(v) => r is Some && r->0@ == v,
            None => r is None,
        },
{
    let answer = skip_thoughts(text);
    let trimmed = trim_text(answer.as_str());
    match parse_object(trimmed.as_str()) {
        Some(v) => Some(v),
        None => match find_object(answer.as_str()) {
            Some(o) => parse_object(o.as_str()),
            None => None,
        },
    }
}

/// A found object begins with the first opening brace of the text and ends with a closing
/// one.
pub proof fn law_object_is_braced(s: Seq<char>)
    requires
        first_object(s) is Some,
    ensures
        ({
            let o = first_object(s)->0;
            &&& o.len() >= 2
            &&& o[0] == '{'
            &&& o.last() == '}'
        }),
{
    lemma_brace(s, 0);
    let i = brace_from(s, 0)->0;
    lemma_object_end(s, i + 1, Scan { depth: 1, quoted: false, escaped: false });
}

proof fn lemma_object_end(s: Seq<char>, i: int, scan: Scan)
    requires
        0 <= i,
    ensures
        object_end(s, i, scan) matches Some(e) ==> i <= e < s.len() && s[e] == '}',
    decreases s.len() - i,
{
    if i < s.len() {
        lemma_object_end(s, i + 1, scan.after(s[i]));
    }
}

/// A hard task goes to the strong model unless that was called within two minutes, or failed
/// five times in a row: then to the backup, unless that was called within ten minutes. What
/// neither takes is the own backend's.
pub proof fn law_hard_tasks_are_routed(r: Router, now: u64)
    requires
        r.nem_last matches Some(t) ==> t <= now,
        r.gem_last matches Some(t) ==> t <= now,
    ensures
        ({
            let strong = r.nem_last is None || now - r.nem_last->0 >= 120000;
            let backup = r.gem_last is None || now - r.gem_last->0 >= 600000;
            &&& r.nem_fails < 5 && strong ==> r.route(now) == Route::Nemotron
            &&& r.nem_fails < 5 && !strong ==> r.route(now) == Route::Auto
            &&& r.nem_fails >= 5 && backup ==> r.route(now) == Route::Gemini
            &&& r.nem_fails >= 5 && !backup ==> r.route(now) == Route::Auto
        }),
        r.routed(Route::Auto, now) == r,
        r.routed(Route::Nemotron, now).nem_last == Some(now),
        r.routed(Route::Nemotron, now).nem_fails == r.nem_fails,
        r.routed(Route::Gemini, now).gem_last == Some(now),
        r.routed(Route::Gemini, now).nem_fails == 0,
        r.reported(Route::Nemotron, true).nem_fails == 0,
        r.nem_fails < u32::MAX ==> r.reported(Route::Nemotron, false).nem_fails == r.nem_fails + 1,
        r.reported(Route::Gemini, false) == r,
        r.reported(Route::Auto, false) == r,
{
}

/// A background call asks its model what it is to do and with what, deterministically, with
/// little effort, without chain of thought and without a stream.
pub proof fn law_background_calls_are_asked(
    model: Seq<char>,
    system: Seq<char>,
    user: Seq<char>,
    max_tokens: u32,
    web_search: bool,
)
    ensures
        ({
            let v = chat_value(model, system, user, max_tokens);
            &&& v.str_at("model"@) == Some(model)
            &&& v.get("max_tokens"@) == Some(int_value(max_tokens as u64))
            &&& v.get("temperature"@) == Some(int_value(0))
            &&& v.str_at("reasoning_effort"@) == Some("low"@)
            &&& v.bool_at("stream"@) == Some(false)
            &&& v.get("messages"@) matches Some(JsonV::Array(ms)) && ms.len() == 2 && ms[0].str_at(
                "role"@,
            ) == Some("system"@) && ms[0].str_at("content"@) == Some(system + "\n/no_think"@)
                && ms[1].str_at("role"@) == Some("user"@) && ms[1].str_at("content"@) == Some(user)
        }),
        ({
            let v = openrouter_value(model, system, user, max_tokens, web_search);
            &&& v.str_at("model"@) == Some(
                if web_search {
                    model + ":online"@
                } else {
                    model
                },
            )
            &&& v.get("max_tokens"@) == Some(int_value(max_tokens as u64))
            &&& v.get("temperature"@) == Some(int_value(0))
            &&& v.bool_at("stream"@) == Some(false)
            &&& v.get("messages"@) matches Some(JsonV::Array(ms)) && ms.len() == 2 && ms[0].str_at(
                "role"@,
            ) == Some("system"@) && ms[0].str_at("content"@) == Some(system) && ms[1].str_at(
                "role"@,
            ) == Some("user"@) && ms[1].str_at("content"@) == Some(user)
        }),
{
    lemma_chat_keys();
}

/// The object that an answer holds is found whatever is said before it, as long as no brace
/// is; braces within its strings do not end it, and nothing behind it matters.
pub proof fn law_first_object_is_found(a: Seq<char>, x: Seq<char>, b: Seq<char>)
    requires
        !a.contains('{'),
        forall|i: int|
            0 <= i < x.len() ==> #[trigger] x[i] != '{' && x[i] != '}' && x[i] != '"',
    ensures
        first_object(a + seq!['{'] + x + seq!['}'] + b) == Some(seq!['{'] + x + seq!['}']),
        first_object(a) is None,
{
    let s = a + seq!['{'] + x + seq!['}'] + b;
    let n = a.len() as int;
    assert forall|i: int| 0 <= i < n implies #[trigger] s[i] != '{' by {
        assert(s[i] == a[i]);
        assert(a.contains(a[i]));
    }
    lemma_brace_at(s, 0, n);
    assert forall|i: int| 0 <= i < n implies #[trigger] a[i] != '{' by {
        assert(a.contains(a[i]));
    }
    lemma_no_brace(a, 0);
    let e = n + 1 + x.len();
    assert forall|i: int| n + 1 <= i < e implies #[trigger] s[i] != '{' && s[i] != '}' && s[i]
        != '"' by {
        assert(s[i] == x[i - n - 1]);
    }
    lemma_end_at(s, n + 1, e);
    assert(s.subrange(n, e + 1) =~= seq!['{'] + x + seq!['}']);
}

proof fn lemma_brace_at(s: Seq<char>, i: int, n: int)
    requires
        0 <= i <= n < s.len(),
        forall|k: int| 0 <= k < n ==> #[trigger] s[k] != '{',
        s[n] == '{',
    ensures
        brace_from(s, i) == Some(n),
    decreases n - i,
{
    if i < n {
        assert(s[i] != '{');
        lemma_brace_at(s, i + 1, n);
    }
}

proof fn lemma_no_brace(s: Seq<char>, i: int)
    requires
        0 <= i <= s.len(),
        forall|k: int| 0 <= k < s.len() ==> #[trigger] s[k] != '{',
    ensures
        brace_from(s, i) is None,
    decreases s.len() - i,
{
    if i < s.len() {
        assert(s[i] != '{');
        lemma_no_brace(s, i + 1);
    }
}

proof fn lemma_end_at(s: Seq<char>, i: int, e: int)
    requires
        0 <= i <= e < s.len(),
        forall|k: int|
            i <= k < e ==> #[trigger] s[k] != '{' && s[k] != '}' && s[k] != '"',
        s[e] == '}',
    ensures
        object_end(s, i, Scan { depth: 1, quoted: false, escaped: false }) == Some(e),
    decreases e - i,
{
    if i < e {
        assert(s[i] != '{' && s[i] != '}' && s[i] != '"');
        lemma_end_at(s, i + 1, e);
    }
}

/// A reader of an object counts the braces outside of its strings: an opening one goes in, a
/// closing one comes out, a quote begins or ends a string unless it is escaped, and within a
/// string nothing counts.
pub proof fn law_braces_are_counted(scan: Scan, c: char)
    ensures
        !scan.quoted && c == '{' ==> scan.after(c) == (Scan { depth: scan.depth + 1, ..scan }),
        !scan.quoted && c == '}' ==> scan.after(c) == (Scan { depth: scan.depth - 1, ..scan }),
        !scan.quoted && c == '"' ==> scan.after(c) == (Scan { quoted: true, ..scan }),
        !scan.quoted && c != '{' && c != '}' && c != '"' ==> scan.after(c) == scan,
        scan.quoted ==> scan.after(c).depth == scan.depth,
        scan.quoted && scan.escaped ==> scan.after(c) == (Scan { escaped: false, ..scan }),
        scan.quoted && !scan.escaped && c == '"' ==> scan.after(c) == (Scan { quoted: false, ..scan }),
        scan.quoted && !scan.escaped && c == '\\' ==> scan.after(c) == (Scan { escaped: true, ..scan }),
        scan.quoted && !scan.escaped && c != '"' && c != '\\' ==> scan.after(c) == scan,
{
}

/// The object of an answer is all that it is, where that is an object, and else the first one
/// in it; thoughts before it do not count, and nothing else than an object ever does.
pub proof fn law_answers_are_objects(text: Seq<char>)
    ensures
        ({
            let t = past_thoughts(text);
            let whole = json_parse(trim(t));
            &&& answer_value(text) matches Some(v) ==> v is Object
            &&& whole is Some && whole->0 is Object ==> answer_value(text) == whole
            &&& !(whole is Some && whole->0 is Object) ==> match first_object(t) {
                None => answer_value(text) is None,
                Some(o) => match json_parse(o) {
                    Some(v) => answer_value(text) == if v is Object {
                        Some(v)
                    } else {
                        None
                    },
                    None => answer_value(text) is None,
                },
            }
        }),
{
}

} // verus!
