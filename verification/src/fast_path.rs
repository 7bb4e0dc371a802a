//! Fast-path gateway between many clients and one canonical browser daemon.
//!
//! The gateway serves observations again for a few milliseconds, forwards everything else at most
//! once, and forgets all observations before it forwards anything that may change the browser.

use vstd::prelude::*;
use vstd::utf8::{decode_utf8, encode_utf8, valid_utf8};
use crate::fast_path_args::{Config, ConfigView};
use crate::json::{
    copy_or_null, flag_in, flag_of, get_member, is_compact_text, is_flag, is_read, json_text,
    lemma_member_push, member, no_members, optional_string, optional_view, or_null, parsed_json,
    text_of, Fields, Json, JsonView, NumberView,
};
use crate::registry::Registry;
use crate::text::{
    contains_text, law_line_ends_are_cut, occurs_in, same, trim_line_end, utf8_text,
    without_line_end,
};

verus! {

// ---------------------------------------------------------------------------
// Requests
// ---------------------------------------------------------------------------

/// The first of the members `first`, `second` and `third` that `value` has.
pub open spec fn first_member(
    value: JsonView,
    first: Seq<char>,
    second: Seq<char>,
    third: Seq<char>,
) -> Option<JsonView> {
    if value.get(first) is Some {
        value.get(first)
    } else if value.get(second) is Some {
        value.get(second)
    } else {
        value.get(third)
    }
}

/// The name of the command in a request: the command's `name`, else its `type`, else its `command`,
/// else the request's own `name`.
pub open spec fn name_of_command(request: JsonView) -> Option<Seq<char>> {
    let inner = match request.get("command"@) {
        Some(command) => first_member(command, "name"@, "type"@, "command"@),
        None => None,
    };
    text_of(
        if inner is Some {
            inner
        } else {
            request.get("name"@)
        },
    )
}

/// The names of the commands that only observe.
pub open spec fn is_observation_name(name: Seq<char>) -> bool {
    name == "snapshot"@ || name == "state"@ || name == "find"@ || name == "observe"@ || name
        == "getState"@
}

/// Whether a request only observes.
pub open spec fn observes(request: JsonView) -> bool {
    name_of_command(request) matches Some(name) && is_observation_name(name)
}

/// The string under `first`, else under `second`, else `default`.
pub open spec fn scope_of(request: JsonView, first: Seq<char>, second: Seq<char>) -> Seq<char> {
    let value = if request.get(first) is Some {
        request.get(first)
    } else {
        request.get(second)
    };
    match text_of(value) {
        Some(text) => text,
        None => "default"@,
    }
}

/// The session that a request is for.
pub open spec fn session_of(request: JsonView) -> Seq<char> {
    scope_of(request, "sessionId"@, "session_id"@)
}

/// The target that a request is for.
pub open spec fn target_of(request: JsonView) -> Seq<char> {
    scope_of(request, "targetId"@, "target_id"@)
}

/// The character between the parts of a cache key.
pub open spec fn key_separator() -> char {
    '\u{1f}'
}

/// The key under which the response to an observation is kept.
pub open spec fn key_of_observation(request: JsonView) -> Seq<char> {
    session_of(request).push(key_separator()) + target_of(request).push(key_separator())
        + json_text(request)
}

/// The first of three members that a value has.
fn pick_member<'a>(value: &'a Json, first: &str, second: &str, third: &str) -> (member: Option<
    &'a Json,
>)
    ensures
        optional_view(member) == first_member(value@, first@, second@, third@),
{
    match value.get(first) {
        Some(found) => Some(found),
        None => match value.get(second) {
            Some(found) => Some(found),
            None => value.get(third),
        },
    }
}

/// The name of the command in a request.
pub fn command_name(request: &Json) -> (name: Option<String>)
    ensures
        optional_string(name) == name_of_command(request@),
{
    let inner = match request.get("command") {
        Some(command) => pick_member(command, "name", "type", "command"),
        None => None,
    };
    let named = match inner {
        Some(value) => Some(value),
        None => request.get("name"),
    };
    match named {
        Some(value) => match value.as_str() {
            Some(text) => Some(text.to_owned()),
            None => None,
        },
        None => None,
    }
}

/// Whether a request only observes.
pub fn is_observation(request: &Json) -> (answer: bool)
    ensures
        answer == observes(request@),
{
    match command_name(request) {
        Some(name) => {
            let text = name.as_str();
            same(text, "snapshot") || same(text, "state") || same(text, "find") || same(
                text,
                "observe",
            ) || same(text, "getState")
        },
        None => false,
    }
}

/// The string under `first`, else under `second`, else `default`.
fn scope(request: &Json, first: &str, second: &str) -> (text: String)
    ensures
        text@ == scope_of(request@, first@, second@),
{
    let value = match request.get(first) {
        Some(found) => Some(found),
        None => request.get(second),
    };
    match value {
        Some(json) => match json.as_str() {
            Some(text) => text.to_owned(),
            None => "default".to_owned(),
        },
        None => "default".to_owned(),
    }
}

/// The key under which the response to an observation is kept: the session, the target and the
/// compact text of the request.
pub fn observation_key(request: &Json) -> (key: String)
    ensures
        key@ == key_of_observation(request@),
        is_compact_text(json_text(request@), request@),
{
    let text = request.to_text();
    let mut key = scope(request, "sessionId", "session_id");
    key.push('\u{1f}');
    let mut target = scope(request, "targetId", "target_id");
    target.push('\u{1f}');
    key.append(target.as_str());
    key.append(text.as_str());
    key
}

/// Two requests that were read from text share a key only if they are the same request; so no
/// request is ever answered with the observation of another session, target or command.
pub proof fn law_observation_keys_identify_requests(left: JsonView, right: JsonView)
    requires
        is_read(left),
        is_read(right),
        is_compact_text(json_text(left), left),
        is_compact_text(json_text(right), right),
        key_of_observation(left) == key_of_observation(right),
    ensures
        left == right,
        session_of(left) == session_of(right),
        target_of(left) == target_of(right),
{
    let a = json_text(left);
    let b = json_text(right);
    let key = key_of_observation(left);
    let front = key.len() - a.len();
    assert forall|i: int| 0 <= i < a.len() implies key[front + i] == a[i] by {}
    assert(key[front - 1] == key_separator());
    let back = key.len() - b.len();
    assert forall|i: int| 0 <= i < b.len() implies key[back + i] == b[i] by {}
    assert(key[back - 1] == key_separator());
    if front < back {
        assert(a[back - 1 - front] == key_separator());
    }
    if back < front {
        assert(b[front - 1 - back] == key_separator());
    }
    assert(a =~= b);
}

// ---------------------------------------------------------------------------
// Counters
// ---------------------------------------------------------------------------

/// What the gateway has counted.
#[derive(Debug, Clone, Copy, PartialEq, Eq, Structural)]
pub struct Stats {
    pub requests: u64,
    pub forwarded: u64,
    pub cache_hits: u64,
    pub coalesced_hits: u64,
    pub fused_requests: u64,
    pub reconnects: u64,
    pub failures: u64,
}

/// The count after `count`. A counter that is full starts again at zero.
pub open spec fn one_more(count: u64) -> u64 {
    if count == u64::MAX {
        0
    } else {
        (count + 1) as u64
    }
}

/// Adds one to a counter.
fn bump(count: &mut u64)
    ensures
        *final(count) == one_more(*old(count)),
{
    if *count == u64::MAX {
        *count = 0;
    } else {
        *count = *count + 1;
    }
}

/// A counter as a value.
pub open spec fn count_view(count: u64) -> JsonView {
    JsonView::Number(NumberView::Unsigned(count))
}

/// The counters as a value.
pub open spec fn stats_report(stats: Stats) -> JsonView {
    JsonView::Object(
        no_members().push(
            ("schemaVersion"@, JsonView::Text("tempera.browser.fastpath.stats/v1"@)),
        ).push(("requests"@, count_view(stats.requests))).push(
            ("forwarded"@, count_view(stats.forwarded)),
        ).push(("cacheHits"@, count_view(stats.cache_hits))).push(
            ("coalescedHits"@, count_view(stats.coalesced_hits)),
        ).push(("fusedRequests"@, count_view(stats.fused_requests))).push(
            ("reconnects"@, count_view(stats.reconnects)),
        ).push(("failures"@, count_view(stats.failures))),
    )
}

impl Stats {
    /// Nothing counted yet.
    pub fn new() -> (stats: Stats)
        ensures
            stats == (Stats {
                requests: 0,
                forwarded: 0,
                cache_hits: 0,
                coalesced_hits: 0,
                fused_requests: 0,
                reconnects: 0,
                failures: 0,
            }),
    {
        Stats {
            requests: 0,
            forwarded: 0,
            cache_hits: 0,
            coalesced_hits: 0,
            fused_requests: 0,
            reconnects: 0,
            failures: 0,
        }
    }

    /// The counters as a value.
    pub fn snapshot(&self) -> (report: Json)
        ensures
            report@ == stats_report(*self),
    {
        Fields::new()
            .with("schemaVersion", Json::text("tempera.browser.fastpath.stats/v1"))
            .with("requests", Json::unsigned(self.requests))
            .with("forwarded", Json::unsigned(self.forwarded))
            .with("cacheHits", Json::unsigned(self.cache_hits))
            .with("coalescedHits", Json::unsigned(self.coalesced_hits))
            .with("fusedRequests", Json::unsigned(self.fused_requests))
            .with("reconnects", Json::unsigned(self.reconnects))
            .with("failures", Json::unsigned(self.failures))
            .done()
    }
}

// ---------------------------------------------------------------------------
// Kept observations
// ---------------------------------------------------------------------------

/// A response that was kept, with the time at which it was kept, in nanoseconds.
pub struct CachedResponse {
    pub inserted: u64,
    pub line: String,
}

/// The model of a kept response.
#[verifier::ext_equal]
pub struct CachedView {
    pub inserted: u64,
    pub line: Seq<char>,
}

impl View for CachedResponse {
    type V = CachedView;

    open spec fn view(&self) -> CachedView {
        CachedView { inserted: self.inserted, line: self.line@ }
    }
}

/// What the clients of the gateway share: the kept observations and the counters.
pub struct SharedState {
    cache: Registry<String, CachedResponse>,
    stats: Stats,
}

/// The model of the shared state.
#[verifier::ext_equal]
pub struct StateView {
    pub cache: Map<Seq<char>, CachedView>,
    pub stats: Stats,
}

impl View for SharedState {
    type V = StateView;

    closed spec fn view(&self) -> StateView {
        StateView {
            cache: self.cache@.map_values(|entry: CachedResponse| entry@),
            stats: self.stats,
        }
    }
}

impl StateView {
    /// The state once `stats` are counted.
    pub open spec fn counting(self, stats: Stats) -> StateView {
        StateView { stats: stats, ..self }
    }

    /// The state without any kept observation.
    pub open spec fn forgetful(self) -> StateView {
        StateView { cache: Map::empty(), ..self }
    }

    /// The state with one more observation.
    pub open spec fn keeping(self, key: Seq<char>, line: Seq<char>, now: u64) -> StateView {
        StateView {
            cache: self.cache.insert(key, CachedView { inserted: now, line: line }),
            ..self
        }
    }
}

/// Whether what was kept at `inserted` may still be served at `now`. Times are in nanoseconds, the
/// time to live in milliseconds.
pub open spec fn is_fresh(inserted: u64, now: u64, ttl_ms: u64) -> bool {
    now - inserted <= ttl_ms * 1_000_000
}

/// The kept observation that may be served under a key.
pub open spec fn fresh_line(state: StateView, key: Seq<char>, now: u64, ttl_ms: u64) -> Option<
    Seq<char>,
> {
    if state.cache.contains_key(key) && is_fresh(state.cache[key].inserted, now, ttl_ms) {
        Some(state.cache[key].line)
    } else {
        None
    }
}

/// The state after a look for a kept observation: one that is too old is dropped.
pub open spec fn looked_up(state: StateView, key: Seq<char>, now: u64, ttl_ms: u64) -> StateView {
    if fresh_line(state, key, now, ttl_ms) is Some {
        state
    } else {
        StateView { cache: state.cache.remove(key), ..state }
    }
}

impl SharedState {
    /// Nothing kept and nothing counted.
    pub fn new() -> (state: SharedState)
        ensures
            state@.cache == Map::<Seq<char>, CachedView>::empty(),
            state@.stats == (Stats {
                requests: 0,
                forwarded: 0,
                cache_hits: 0,
                coalesced_hits: 0,
                fused_requests: 0,
                reconnects: 0,
                failures: 0,
            }),
    {
        SharedState { cache: Registry::new(), stats: Stats::new() }
    }

    /// The counters.
    pub fn stats(&self) -> (stats: Stats)
        ensures
            stats == self@.stats,
    {
        self.stats
    }

    /// Counts a failed client.
    pub fn record_failure(&mut self)
        ensures
            final(self)@ == old(self)@.counting(
                (Stats { failures: one_more(old(self)@.stats.failures), ..old(self)@.stats }),
            ),
    {
        bump(&mut self.stats.failures);
    }

    /// The observation that may be served under a key. One that is too old is dropped.
    pub fn cached(&mut self, key: &String, now: u64, ttl_ms: u64) -> (line: Option<String>)
        ensures
            optional_string(line) == fresh_line(old(self)@, key@, now, ttl_ms),
            final(self)@ == looked_up(old(self)@, key@, now, ttl_ms),
    {
        let ghost before = self@;
        match self.cache.get(key) {
            Some(entry) => {
                let limit: u128 = ttl_ms as u128 * 1_000_000;
                if now <= entry.inserted || (now - entry.inserted) as u128 <= limit {
                    return Some(entry.line.clone());
                }
            },
            None => {
                assert(self@.cache.remove(key@) =~= self@.cache);
                return None;
            },
        }
        let dropped = self.cache.take(key);
        assert(self@.cache =~= before.cache.remove(key@));
        None
    }

    /// Keeps an observation.
    pub fn keep(&mut self, key: String, line: &str, now: u64)
        ensures
            final(self)@ == old(self)@.keeping(key@, line@, now),
    {
        let ghost before = self@;
        let ghost name = key@;
        self.cache.put(key, CachedResponse { inserted: now, line: line.to_owned() });
        assert(self@.cache =~= before.cache.insert(
            name,
            CachedView { inserted: now, line: line@ },
        ));
    }

    /// Drops all kept observations.
    pub fn invalidate_cache(&mut self)
        ensures
            final(self)@ == old(self)@.forgetful(),
    {
        self.cache.clear();
        assert(self@.cache =~= Map::<Seq<char>, CachedView>::empty());
    }
}

// ---------------------------------------------------------------------------
// Answers of the daemon
// ---------------------------------------------------------------------------

/// What kind of thing went wrong, as the system tells it.
#[derive(Debug, Clone, Copy, PartialEq, Eq, Structural)]
pub enum FaultKind {
    NotFound,
    PermissionDenied,
    ConnectionRefused,
    ConnectionReset,
    HostUnreachable,
    NetworkUnreachable,
    ConnectionAborted,
    NotConnected,
    AddrInUse,
    AddrNotAvailable,
    NetworkDown,
    BrokenPipe,
    AlreadyExists,
    WouldBlock,
    InvalidInput,
    InvalidData,
    TimedOut,
    WriteZero,
    Interrupted,
    Unsupported,
    UnexpectedEof,
    OutOfMemory,
    Other,
}

/// What went wrong.
#[derive(Debug)]
pub struct Fault {
    pub kind: FaultKind,
    pub words: String,
}

/// The model of what went wrong.
#[verifier::ext_equal]
pub struct FaultView {
    pub kind: FaultKind,
    pub words: Seq<char>,
}

impl View for Fault {
    type V = FaultView;

    open spec fn view(&self) -> FaultView {
        FaultView { kind: self.kind, words: self.words@ }
    }
}

/// The words for a connection that ended.
pub const CLOSED: &'static str = "browser daemon closed the connection";

/// The words for a response that is too long.
pub const OVERSIZED: &'static str = "browser daemon response exceeds line limit";

/// The words for a response that is no text.
pub const NOT_TEXT: &'static str = "stream did not contain valid UTF-8";

/// What became of a line that was sent to the daemon.
pub enum Answer {
    /// The daemon answered.
    Line(String),
    /// The connection failed before a response came.
    Lost(Fault),
    /// The daemon answered with what the gateway does not take, for the reason in these words.
    Refused(String),
}

/// The model of an answer.
#[verifier::ext_equal]
pub enum AnswerView {
    Line(Seq<char>),
    Lost(FaultView),
    Refused(Seq<char>),
}

impl View for Answer {
    type V = AnswerView;

    open spec fn view(&self) -> AnswerView {
        match self {
            Answer::Line(line) => AnswerView::Line(line@),
            Answer::Lost(fault) => AnswerView::Lost(fault@),
            Answer::Refused(words) => AnswerView::Refused(words@),
        }
    }
}

impl AnswerView {
    /// What went wrong: a response that is not taken counts as invalid data.
    pub open spec fn fault(self) -> FaultView {
        match self {
            AnswerView::Line(line) => FaultView { kind: FaultKind::InvalidData, words: line },
            AnswerView::Lost(fault) => fault,
            AnswerView::Refused(words) => FaultView { kind: FaultKind::InvalidData, words },
        }
    }
}

/// What reading one line from the daemon amounts to: no bytes are the end of the connection, a line
/// that is no text or over the limit is refused, and any other answers without its line end.
pub open spec fn answer_of(read: Result<Seq<u8>, FaultView>, max_line_bytes: usize) -> AnswerView {
    match read {
        Err(fault) => AnswerView::Lost(fault),
        Ok(bytes) => if bytes.len() == 0 {
            AnswerView::Lost(FaultView { kind: FaultKind::UnexpectedEof, words: CLOSED@ })
        } else if !valid_utf8(bytes) {
            AnswerView::Refused(NOT_TEXT@)
        } else if bytes.len() > max_line_bytes {
            AnswerView::Refused(OVERSIZED@)
        } else {
            AnswerView::Line(without_line_end(decode_utf8(bytes)))
        },
    }
}

/// The model of bytes that were read, or of what went wrong.
pub open spec fn read_view(read: Result<Vec<u8>, Fault>) -> Result<Seq<u8>, FaultView> {
    match read {
        Ok(bytes) => Ok(bytes@),
        Err(fault) => Err(fault@),
    }
}

/// What reading one line from the daemon amounts to.
pub fn accept_response(read: Result<Vec<u8>, Fault>, max_line_bytes: usize) -> (answer: Answer)
    ensures
        answer@ == answer_of(read_view(read), max_line_bytes),
{
    match read {
        Err(fault) => Answer::Lost(fault),
        Ok(bytes) => {
            let count: usize = bytes.len();
            if count == 0 {
                let words = CLOSED.to_owned();
                return Answer::Lost(Fault { kind: FaultKind::UnexpectedEof, words });
            }
            match utf8_text(bytes) {
                None => Answer::Refused(NOT_TEXT.to_owned()),
                Some(line) => {
                    if count > max_line_bytes {
                        Answer::Refused(OVERSIZED.to_owned())
                    } else {
                        Answer::Line(trim_line_end(line.as_str()))
                    }
                },
            }
        },
    }
}

// ---------------------------------------------------------------------------
// Replies
// ---------------------------------------------------------------------------

/// The reply to a line that is no request.
pub open spec fn error_reply(message: Seq<char>) -> JsonView {
    JsonView::Object(
        no_members().push(
            ("schemaVersion"@, JsonView::Text("tempera.browser.fastpath.error/v1"@)),
        ).push(("ok"@, JsonView::Bool(false))).push(("error"@, JsonView::Text(message))),
    )
}

/// The reply to a request for the counters.
pub open spec fn stats_reply(stats: Stats) -> JsonView {
    JsonView::Object(
        no_members().push(("ok"@, JsonView::Bool(true))).push(("result"@, stats_report(stats))),
    )
}

/// What a line reads as, or null where it is no value.
pub open spec fn read_or_null(line: Seq<char>) -> JsonView {
    match parsed_json(line) {
        Ok(json) => json,
        Err(_) => JsonView::Null,
    }
}

/// The schema of the replies to an action with an observation.
pub const FUSED_SCHEMA: &'static str = "tempera.browser.fastpath.act-observe/v1";

/// What the daemon is asked for an action with an observation.
pub open spec fn native_request(id: JsonView, action: JsonView, observe: JsonView) -> JsonView {
    JsonView::Object(
        no_members().push(("id"@, id)).push(
            ("action"@, JsonView::Text("__tempera_act_observe_v1"@)),
        ).push(("actionRequest"@, action)).push(("observeRequest"@, observe)),
    )
}

/// Whether the daemon does not know how to fuse an action with an observation, and so has done
/// neither.
pub open spec fn refuses_fusion(response: JsonView) -> bool {
    let flagged = match response.get("data"@) {
        Some(data) => flag_of(data.get("nativeProtocolError"@)) == Some(true),
        None => false,
    };
    flagged || (text_of(response.get("error"@)) matches Some(words) && occurs_in(
        "Unknown action"@,
        words,
    ))
}

/// The reply to an action with an observation that the daemon fused.
pub open spec fn fused_reply(response: JsonView) -> JsonView {
    let data = or_null(response.get("data"@));
    JsonView::Object(
        no_members().push(("schemaVersion"@, JsonView::Text(FUSED_SCHEMA@))).push(
            ("ok"@, JsonView::Bool(flag_of(response.get("success"@)) == Some(true))),
        ).push(("action"@, or_null(data.get("action"@)))).push(
            ("observation"@, or_null(data.get("observation"@))),
        ).push(("observationDigest"@, or_null(data.get("observationDigest"@)))).push(
            ("nativeFused"@, JsonView::Bool(true)),
        ),
    )
}

/// Whether an action was refused.
pub open spec fn is_refused(action: JsonView) -> bool {
    flag_of(action.get("success"@)) == Some(false) || flag_of(action.get("ok"@)) == Some(false)
}

/// The reply to an action with an observation that the gateway sent one after the other.
pub open spec fn paired_reply(ok: bool, action: JsonView, observation: JsonView) -> JsonView {
    JsonView::Object(
        no_members().push(("schemaVersion"@, JsonView::Text(FUSED_SCHEMA@))).push(
            ("ok"@, JsonView::Bool(ok)),
        ).push(("action"@, action)).push(("observation"@, observation)).push(
            ("nativeFused"@, JsonView::Bool(false)),
        ),
    )
}

/// Whether an observation succeeded, which it does where it does not say otherwise.
pub open spec fn is_observed(observation: JsonView) -> bool {
    let said = if observation.get("success"@) is Some {
        observation.get("success"@)
    } else {
        observation.get("ok"@)
    };
    flag_of(said) != Some(false)
}

/// The words for a mutation that got no answer.
pub open spec fn mutation_trouble(words: Seq<char>) -> Seq<char> {
    "upstream mutation delivery may be unknown; request was not replayed: "@ + words
}

/// The words for an observation that failed twice.
pub open spec fn observation_trouble(first: Seq<char>, second: Seq<char>) -> Seq<char> {
    "read-only upstream failed after reconnect: first="@ + first + "; second="@ + second
}

/// The text of an error reply.
pub fn error_line(message: &str) -> (line: String)
    ensures
        line@ == json_text(error_reply(message@)),
{
    Fields::new()
        .with("schemaVersion", Json::text("tempera.browser.fastpath.error/v1"))
        .with("ok", Json::flag(false))
        .with("error", Json::text(message))
        .done()
        .to_text()
}

/// What a line reads as, or null where it is no value.
fn parse_or_null(line: &str) -> (json: Json)
    ensures
        json@ == read_or_null(line@),
{
    match Json::parse(line) {
        Ok(json) => json,
        Err(_) => Json::Null,
    }
}

/// Whether the daemon does not know how to fuse an action with an observation.
fn native_protocol_error(response: &Json) -> (answer: bool)
    ensures
        answer == refuses_fusion(response@),
{
    let flagged = match response.get("data") {
        Some(data) => is_flag(flag_in(data.get("nativeProtocolError")), true),
        None => false,
    };
    if flagged {
        return true;
    }
    match response.get("error") {
        Some(error) => match error.as_str() {
            Some(words) => contains_text(words, "Unknown action"),
            None => false,
        },
        None => false,
    }
}

/// The text of the reply to an action with an observation that the daemon fused.
fn fused_line(response: &Json) -> (line: String)
    ensures
        line@ == json_text(fused_reply(response@)),
{
    let data = copy_or_null(response.get("data"));
    Fields::new()
        .with("schemaVersion", Json::text(FUSED_SCHEMA))
        .with("ok", Json::flag(is_flag(flag_in(response.get("success")), true)))
        .with("action", copy_or_null(data.get("action")))
        .with("observation", copy_or_null(data.get("observation")))
        .with("observationDigest", copy_or_null(data.get("observationDigest")))
        .with("nativeFused", Json::flag(true))
        .done()
        .to_text()
}

/// The text of the reply to an action with an observation that the gateway sent one after the
/// other.
fn paired_line(ok: bool, action: Json, observation: Json) -> (line: String)
    ensures
        line@ == json_text(paired_reply(ok, action@, observation@)),
{
    Fields::new()
        .with("schemaVersion", Json::text(FUSED_SCHEMA))
        .with("ok", Json::flag(ok))
        .with("action", action)
        .with("observation", observation)
        .with("nativeFused", Json::flag(false))
        .done()
        .to_text()
}

/// Whether an observation succeeded.
fn observation_succeeded(observation: &Json) -> (answer: bool)
    ensures
        answer == is_observed(observation@),
{
    let said = match observation.get("success") {
        Some(value) => Some(value),
        None => observation.get("ok"),
    };
    !is_flag(flag_in(said), false)
}

// ---------------------------------------------------------------------------
// Requests on their way
// ---------------------------------------------------------------------------

/// What a line that was sent to the daemon is for.
pub enum Task {
    /// A request that may change the browser.
    Mutation,
    /// An observation, with what went wrong on the first try.
    Observation { key: String, raw: String, first: Option<String> },
    /// An action with an observation, for the daemon to fuse.
    FusedNative { action: Json, observe: Json },
    /// The action alone, for a daemon that does not fuse.
    FusedAction { observe: Json },
    /// The observation after that action, with what went wrong on the first try.
    FusedObserve { action: Json, raw: String, first: Option<String> },
}

/// The model of a task.
#[verifier::ext_equal]
pub enum TaskView {
    Mutation,
    Observation { key: Seq<char>, raw: Seq<char>, first: Option<Seq<char>> },
    FusedNative { action: JsonView, observe: JsonView },
    FusedAction { observe: JsonView },
    FusedObserve { action: JsonView, raw: Seq<char>, first: Option<Seq<char>> },
}

impl View for Task {
    type V = TaskView;

    open spec fn view(&self) -> TaskView {
        match self {
            Task::Mutation => TaskView::Mutation,
            Task::Observation { key, raw, first } => TaskView::Observation {
                key: key@,
                raw: raw@,
                first: optional_string(*first),
            },
            Task::FusedNative { action, observe } => TaskView::FusedNative {
                action: action@,
                observe: observe@,
            },
            Task::FusedAction { observe } => TaskView::FusedAction { observe: observe@ },
            Task::FusedObserve { action, raw, first } => TaskView::FusedObserve {
                action: action@,
                raw: raw@,
                first: optional_string(*first),
            },
        }
    }
}

/// What to do next for a client.
pub enum Step {
    /// Read the next line.
    Skip,
    /// Reply with a line. Where `disconnect` is set, close the connection to the daemon first.
    Reply { line: String, disconnect: bool },
    /// Take the lock of this key, look again, and hold the lock until the reply.
    Lock { key: String, raw: String },
    /// Send a line to the daemon, on a new connection where `reconnect` is set.
    Send { task: Task, line: String, reconnect: bool },
    /// Close the connection to the daemon and give the client up.
    Fail(Fault),
}

/// The model of a step.
#[verifier::ext_equal]
pub enum StepView {
    Skip,
    Reply { line: Seq<char>, disconnect: bool },
    Lock { key: Seq<char>, raw: Seq<char> },
    Send { task: TaskView, line: Seq<char>, reconnect: bool },
    Fail(FaultView),
}

impl View for Step {
    type V = StepView;

    open spec fn view(&self) -> StepView {
        match self {
            Step::Skip => StepView::Skip,
            Step::Reply { line, disconnect } => StepView::Reply {
                line: line@,
                disconnect: *disconnect,
            },
            Step::Lock { key, raw } => StepView::Lock { key: key@, raw: raw@ },
            Step::Send { task, line, reconnect } => StepView::Send {
                task: task@,
                line: line@,
                reconnect: *reconnect,
            },
            Step::Fail(fault) => StepView::Fail(fault@),
        }
    }
}

/// A reply over a connection that stays open.
pub open spec fn plain_reply(line: Seq<char>) -> StepView {
    StepView::Reply { line: line, disconnect: false }
}

/// A line that is sent for the first time.
pub open spec fn first_send(task: TaskView, line: Seq<char>) -> StepView {
    StepView::Send { task: task, line: line, reconnect: false }
}

/// What follows the answer to an observation. Only a connection that failed before a response came
/// is tried again, and only once.
pub open spec fn observation_step(
    key: Seq<char>,
    raw: Seq<char>,
    first: Option<Seq<char>>,
    answer: AnswerView,
) -> StepView {
    match (answer, first) {
        (AnswerView::Line(line), _) => plain_reply(line),
        (AnswerView::Lost(fault), None) => StepView::Send {
            task: TaskView::Observation { key: key, raw: raw, first: Some(fault.words) },
            line: raw,
            reconnect: true,
        },
        (AnswerView::Refused(_), None) => StepView::Fail(answer.fault()),
        (_, Some(words)) => StepView::Fail(
            FaultView {
                kind: answer.fault().kind,
                words: observation_trouble(words, answer.fault().words),
            },
        ),
    }
}

/// What follows the answer to an action with an observation.
pub open spec fn native_step(action: JsonView, observe: JsonView, line: Seq<char>) -> StepView {
    let response = read_or_null(line);
    if refuses_fusion(response) {
        first_send(TaskView::FusedAction { observe: observe }, json_text(action))
    } else {
        plain_reply(json_text(fused_reply(response)))
    }
}

/// What follows the answer to the action alone.
pub open spec fn action_step(observe: JsonView, line: Seq<char>) -> StepView {
    let response = read_or_null(line);
    if is_refused(response) {
        plain_reply(json_text(paired_reply(false, response, JsonView::Null)))
    } else {
        first_send(
            TaskView::FusedObserve { action: response, raw: json_text(observe), first: None },
            json_text(observe),
        )
    }
}

/// What follows the answer to the observation after an action. The response to the action reaches
/// the client whatever becomes of the observation.
pub open spec fn paired_step(
    action: JsonView,
    raw: Seq<char>,
    first: Option<Seq<char>>,
    answer: AnswerView,
) -> StepView {
    match (answer, first) {
        (AnswerView::Line(line), _) => {
            let observation = read_or_null(line);
            plain_reply(json_text(paired_reply(is_observed(observation), action, observation)))
        },
        (AnswerView::Lost(fault), None) => StepView::Send {
            task: TaskView::FusedObserve { action: action, raw: raw, first: Some(fault.words) },
            line: raw,
            reconnect: true,
        },
        (_, _) => StepView::Reply {
            line: json_text(paired_reply(false, action, JsonView::Null)),
            disconnect: true,
        },
    }
}

/// What follows the answer to a task. A line that may have changed the browser is never sent again.
pub open spec fn task_step(task: TaskView, answer: AnswerView) -> StepView {
    match task {
        TaskView::Observation { key, raw, first } => observation_step(key, raw, first, answer),
        TaskView::FusedObserve { action, raw, first } => paired_step(action, raw, first, answer),
        _ => match answer {
            AnswerView::Line(line) => match task {
                TaskView::FusedNative { action, observe } => native_step(action, observe, line),
                TaskView::FusedAction { observe } => action_step(observe, line),
                _ => plain_reply(line),
            },
            _ => StepView::Fail(
                FaultView {
                    kind: answer.fault().kind,
                    words: mutation_trouble(answer.fault().words),
                },
            ),
        },
    }
}

/// The counters once a step was decided: each line that is sent counts, once as a forwarded line
/// and each time it is sent again as a reconnect.
pub open spec fn counted_step(stats: Stats, step: StepView) -> Stats {
    match step {
        StepView::Send { reconnect, .. } => if reconnect {
            Stats { reconnects: one_more(stats.reconnects), ..stats }
        } else {
            Stats { forwarded: one_more(stats.forwarded), ..stats }
        },
        _ => stats,
    }
}

/// The state once a step was decided.
pub open spec fn counted(state: StateView, step: StepView) -> StateView {
    state.counting(counted_step(state.stats, step))
}

/// The state after the answer to a task. The response to an observation is kept.
pub open spec fn task_state(
    state: StateView,
    task: TaskView,
    answer: AnswerView,
    now: u64,
) -> StateView {
    let after = counted(state, task_step(task, answer));
    match (task, answer) {
        (TaskView::Observation { key, .. }, AnswerView::Line(line)) => after.keeping(
            key,
            line,
            now,
        ),
        _ => after,
    }
}

/// What went wrong.
fn fault_of(answer: Answer) -> (fault: Fault)
    ensures
        fault@ == answer@.fault(),
{
    match answer {
        Answer::Line(words) => Fault { kind: FaultKind::InvalidData, words },
        Answer::Lost(fault) => fault,
        Answer::Refused(words) => Fault { kind: FaultKind::InvalidData, words },
    }
}

/// The step for a mutation that got no answer.
fn mutation_failed(fault: Fault) -> (step: Step)
    ensures
        step@ == StepView::Fail(
            FaultView { kind: fault.kind, words: mutation_trouble(fault.words@) },
        ),
{
    let mut words =
        "upstream mutation delivery may be unknown; request was not replayed: ".to_owned();
    words.append(fault.words.as_str());
    Step::Fail(Fault { kind: fault.kind, words })
}

/// The step for a request that lacks something.
fn incomplete(words: &str) -> (step: Step)
    ensures
        step@ == lacking(words@),
{
    Step::Fail(Fault { kind: FaultKind::InvalidInput, words: words.to_owned() })
}

impl SharedState {
    /// Counts a line that is sent for the first time.
    fn count_forwarded(&mut self)
        ensures
            final(self)@ == old(self)@.counting(
                (Stats { forwarded: one_more(old(self)@.stats.forwarded), ..old(self)@.stats }),
            ),
    {
        bump(&mut self.stats.forwarded);
    }

    /// Counts a line that is sent again.
    fn count_reconnect(&mut self)
        ensures
            final(self)@ == old(self)@.counting(
                (Stats { reconnects: one_more(old(self)@.stats.reconnects), ..old(self)@.stats }),
            ),
    {
        bump(&mut self.stats.reconnects);
    }

    /// Goes on with an observation.
    fn forward_readonly(
        &mut self,
        key: String,
        raw: String,
        first: Option<String>,
        answer: Answer,
        now: u64,
    ) -> (step: Step)
        ensures
            step@ == observation_step(key@, raw@, optional_string(first), answer@),
            final(self)@ == task_state(
                old(self)@,
                (TaskView::Observation { key: key@, raw: raw@, first: optional_string(first) }),
                answer@,
                now,
            ),
    {
        match answer {
            Answer::Line(line) => {
                self.keep(key, line.as_str(), now);
                Step::Reply { line, disconnect: false }
            },
            Answer::Lost(fault) => match first {
                None => {
                    self.count_reconnect();
                    let line = raw.clone();
                    let task = Task::Observation { key, raw, first: Some(fault.words) };
                    Step::Send { task, line, reconnect: true }
                },
                Some(earlier) => both_failed(earlier.as_str(), fault),
            },
            Answer::Refused(_) => {
                let fault = fault_of(answer);
                match first {
                    None => Step::Fail(fault),
                    Some(earlier) => both_failed(earlier.as_str(), fault),
                }
            },
        }
    }

    /// Goes on with an action and an observation.
    fn handle_native(&mut self, action: Json, observe: Json, line: &str) -> (step: Step)
        ensures
            step@ == native_step(action@, observe@, line@),
            final(self)@ == counted(old(self)@, step@),
    {
        let response = parse_or_null(line);
        if native_protocol_error(&response) {
            self.count_forwarded();
            let line = action.to_text();
            Step::Send { task: Task::FusedAction { observe }, line, reconnect: false }
        } else {
            Step::Reply { line: fused_line(&response), disconnect: false }
        }
    }

    /// Goes on after the action alone.
    fn handle_action(&mut self, observe: Json, line: &str) -> (step: Step)
        ensures
            step@ == action_step(observe@, line@),
            final(self)@ == counted(old(self)@, step@),
    {
        let response = parse_or_null(line);
        let refused = is_flag(flag_in(response.get("success")), false) || is_flag(
            flag_in(response.get("ok")),
            false,
        );
        if refused {
            Step::Reply { line: paired_line(false, response, Json::Null), disconnect: false }
        } else {
            self.count_forwarded();
            let raw = observe.to_text();
            let line = raw.clone();
            let task = Task::FusedObserve { action: response, raw, first: None };
            Step::Send { task, line, reconnect: false }
        }
    }

    /// Goes on after the observation that follows an action.
    fn handle_paired(
        &mut self,
        action: Json,
        raw: String,
        first: Option<String>,
        answer: Answer,
    ) -> (step: Step)
        ensures
            step@ == paired_step(action@, raw@, optional_string(first), answer@),
            final(self)@ == counted(old(self)@, step@),
    {
        match answer {
            Answer::Line(line) => {
                let observation = parse_or_null(line.as_str());
                let ok = observation_succeeded(&observation);
                let line = paired_line(ok, action, observation);
                return Step::Reply { line, disconnect: false };
            },
            Answer::Lost(fault) => {
                if first.is_none() {
                    self.count_reconnect();
                    let line = raw.clone();
                    let task = Task::FusedObserve { action, raw, first: Some(fault.words) };
                    return Step::Send { task, line, reconnect: true };
                }
            },
            Answer::Refused(_) => {},
        }
        Step::Reply { line: paired_line(false, action, Json::Null), disconnect: true }
    }

    /// Goes on after the answer to a line that was sent to the daemon.
    pub fn resume(&mut self, task: Task, answer: Answer, now: u64) -> (step: Step)
        ensures
            step@ == task_step(task@, answer@),
            final(self)@ == task_state(old(self)@, task@, answer@, now),
    {
        match task {
            Task::Observation { key, raw, first } => self.forward_readonly(
                key,
                raw,
                first,
                answer,
                now,
            ),
            Task::FusedObserve { action, raw, first } => self.handle_paired(
                action,
                raw,
                first,
                answer,
            ),
            Task::Mutation => match answer {
                Answer::Line(line) => Step::Reply { line, disconnect: false },
                _ => mutation_failed(fault_of(answer)),
            },
            Task::FusedNative { action, observe } => match answer {
                Answer::Line(line) => self.handle_native(action, observe, line.as_str()),
                _ => mutation_failed(fault_of(answer)),
            },
            Task::FusedAction { observe } => match answer {
                Answer::Line(line) => self.handle_action(observe, line.as_str()),
                _ => mutation_failed(fault_of(answer)),
            },
        }
    }
}

/// The step for an observation that failed twice, which tells both failures and is of the kind of
/// the second.
fn both_failed(first: &str, second: Fault) -> (step: Step)
    ensures
        step@ == StepView::Fail(
            FaultView {
                kind: second.kind,
                words: observation_trouble(first@, second.words@),
            },
        ),
{
    let mut words = "read-only upstream failed after reconnect: first=".to_owned();
    words.append(first);
    words.append("; second=");
    words.append(second.words.as_str());
    Step::Fail(Fault { kind: second.kind, words })
}

// ---------------------------------------------------------------------------
// Requests from clients
// ---------------------------------------------------------------------------

/// The end of a request that lacks something.
pub open spec fn lacking(words: Seq<char>) -> StepView {
    StepView::Fail(FaultView { kind: FaultKind::InvalidInput, words })
}

/// What an action with an observation starts with.
pub open spec fn fused_step(request: JsonView) -> StepView {
    match request.get("arguments"@) {
        Some(JsonView::Object(arguments)) => match (
            member(arguments, "actionRequest"@),
            member(arguments, "observeRequest"@),
        ) {
            (Some(action), Some(observe)) => first_send(
                TaskView::FusedNative { action: action, observe: observe },
                json_text(native_request(or_null(request.get("id"@)), action, observe)),
            ),
            (None, _) => lacking("missing actionRequest"@),
            (_, None) => lacking("missing observeRequest"@),
        },
        _ => lacking("missing arguments"@),
    }
}

/// What a request starts with, and the state then.
pub open spec fn request_step(
    state: StateView,
    raw: Seq<char>,
    request: JsonView,
    now: u64,
    ttl_ms: u64,
) -> (StateView, StepView) {
    let name = name_of_command(request);
    if name == Some("gatewayStats"@) {
        (state, plain_reply(json_text(stats_reply(state.stats))))
    } else if name == Some("actObserve"@) {
        let step = fused_step(request);
        let stats = Stats { fused_requests: one_more(state.stats.fused_requests), ..state.stats };
        (counted(state.counting(stats).forgetful(), step), step)
    } else if observes(request) {
        let key = key_of_observation(request);
        let after = looked_up(state, key, now, ttl_ms);
        match fresh_line(state, key, now, ttl_ms) {
            Some(line) => (
                after.counting(
                    Stats { cache_hits: one_more(after.stats.cache_hits), ..after.stats },
                ),
                plain_reply(line),
            ),
            None => (after, StepView::Lock { key: key, raw: raw }),
        }
    } else {
        let step = first_send(TaskView::Mutation, raw);
        (counted(state.forgetful(), step), step)
    }
}

/// What a line from a client starts with, and the state then.
pub open spec fn line_step(state: StateView, line: Seq<char>, config: ConfigView, now: u64) -> (
    StateView,
    StepView,
) {
    let raw = without_line_end(line);
    let after = state.counting(
        Stats { requests: one_more(state.stats.requests), ..state.stats },
    );
    if encode_utf8(line).len() > config.max_line_bytes {
        (state, plain_reply(json_text(error_reply("request exceeds fast-path line limit"@))))
    } else if raw.len() == 0 {
        (state, StepView::Skip)
    } else {
        match parsed_json(raw) {
            Ok(request) => request_step(after, raw, request, now, config.observe_ttl_ms),
            Err(words) => (
                after,
                plain_reply(json_text(error_reply("request is not JSON: "@ + words))),
            ),
        }
    }
}

/// What follows once the lock of a key is held, and the state then: another client may have kept
/// the observation meanwhile.
pub open spec fn locked_step(
    state: StateView,
    key: Seq<char>,
    raw: Seq<char>,
    now: u64,
    ttl_ms: u64,
) -> (StateView, StepView) {
    let after = looked_up(state, key, now, ttl_ms);
    match fresh_line(state, key, now, ttl_ms) {
        Some(line) => (
            after.counting(
                Stats { coalesced_hits: one_more(after.stats.coalesced_hits), ..after.stats },
            ),
            plain_reply(line),
        ),
        None => {
            let step = first_send(
                TaskView::Observation { key: key, raw: raw, first: None },
                raw,
            );
            (counted(after, step), step)
        },
    }
}

/// Whether a request has this name.
fn is_named(name: &Option<String>, wanted: &str) -> (answer: bool)
    ensures
        answer == (optional_string(*name) == Some(wanted@)),
{
    match name {
        Some(text) => same(text.as_str(), wanted),
        None => false,
    }
}

impl SharedState {
    /// Starts an action with an observation. The kept observations are dropped first.
    fn handle_fused(&mut self, request: &Json) -> (step: Step)
        ensures
            step@ == fused_step(request@),
            final(self)@ == counted(
                old(self)@.counting(
                    (Stats {
                        fused_requests: one_more(old(self)@.stats.fused_requests),
                        ..old(self)@.stats
                    }),
                ).forgetful(),
                step@,
            ),
    {
        bump(&mut self.stats.fused_requests);
        self.invalidate_cache();
        let arguments = match request.get("arguments") {
            Some(value) => match value.as_object() {
                Some(members) => members,
                None => {
                    return incomplete("missing arguments");
                },
            },
            None => {
                return incomplete("missing arguments");
            },
        };
        let action = match get_member(arguments, "actionRequest") {
            Some(value) => value,
            None => {
                return incomplete("missing actionRequest");
            },
        };
        let observe = match get_member(arguments, "observeRequest") {
            Some(value) => value,
            None => {
                return incomplete("missing observeRequest");
            },
        };
        let line = Fields::new()
            .with("id", copy_or_null(request.get("id")))
            .with("action", Json::text("__tempera_act_observe_v1"))
            .with("actionRequest", action.clone())
            .with("observeRequest", observe.clone())
            .done()
            .to_text();
        self.count_forwarded();
        let task = Task::FusedNative { action: action.clone(), observe: observe.clone() };
        Step::Send { task, line, reconnect: false }
    }

    /// Starts an observation: one that was kept is served again, and any other waits for the lock
    /// of its key.
    fn handle_observation(&mut self, raw: String, request: &Json, now: u64, ttl_ms: u64) -> (step:
        Step)
        requires
            observes(request@),
        ensures
            (final(self)@, step@) == request_step(old(self)@, raw@, request@, now, ttl_ms),
    {
        proof {
            reveal_strlit("gatewayStats");
            reveal_strlit("actObserve");
            reveal_strlit("snapshot");
            reveal_strlit("state");
            reveal_strlit("find");
            reveal_strlit("observe");
            reveal_strlit("getState");
            assert("gatewayStats"@.len() == 12 && "actObserve"@.len() == 10 && "snapshot"@.len()
                == 8 && "state"@.len() == 5 && "find"@.len() == 4 && "observe"@.len() == 7
                && "getState"@.len() == 8);
        }
        let key = observation_key(request);
        match self.cached(&key, now, ttl_ms) {
            Some(line) => {
                bump(&mut self.stats.cache_hits);
                Step::Reply { line, disconnect: false }
            },
            None => Step::Lock { key, raw },
        }
    }

    /// Starts a request.
    pub fn handle_request(&mut self, raw: String, request: &Json, now: u64, ttl_ms: u64) -> (step:
        Step)
        ensures
            (final(self)@, step@) == request_step(old(self)@, raw@, request@, now, ttl_ms),
    {
        let name = command_name(request);
        if is_named(&name, "gatewayStats") {
            let line = Fields::new()
                .with("ok", Json::flag(true))
                .with("result", self.stats.snapshot())
                .done()
                .to_text();
            Step::Reply { line, disconnect: false }
        } else if is_named(&name, "actObserve") {
            self.handle_fused(request)
        } else if is_observation(request) {
            self.handle_observation(raw, request, now, ttl_ms)
        } else {
            self.invalidate_cache();
            self.count_forwarded();
            let line = raw;
            Step::Send { task: Task::Mutation, line, reconnect: false }
        }
    }

    /// Starts with a line from a client.
    pub fn handle_line(&mut self, line: &str, config: &Config, now: u64) -> (step: Step)
        ensures
            (final(self)@, step@) == line_step(old(self)@, line@, config@, now),
    {
        if line.as_bytes().len() > config.max_line_bytes {
            let reply = error_line("request exceeds fast-path line limit");
            return Step::Reply { line: reply, disconnect: false };
        }
        let raw = trim_line_end(line);
        proof {
            reveal_strlit("");
            assert(raw@.len() == 0 ==> raw@ =~= ""@);
        }
        if same(raw.as_str(), "") {
            return Step::Skip;
        }
        bump(&mut self.stats.requests);
        match Json::parse(raw.as_str()) {
            Ok(request) => self.handle_request(raw, &request, now, config.observe_ttl_ms),
            Err(words) => {
                let mut message = "request is not JSON: ".to_owned();
                message.append(words.as_str());
                Step::Reply { line: error_line(message.as_str()), disconnect: false }
            },
        }
    }

    /// Goes on with an observation once the lock of its key is held.
    pub fn observe_locked(&mut self, key: String, raw: String, now: u64, ttl_ms: u64) -> (step:
        Step)
        ensures
            (final(self)@, step@) == locked_step(old(self)@, key@, raw@, now, ttl_ms),
    {
        match self.cached(&key, now, ttl_ms) {
            Some(line) => {
                bump(&mut self.stats.coalesced_hits);
                Step::Reply { line, disconnect: false }
            },
            None => {
                self.count_forwarded();
                let line = raw.clone();
                let task = Task::Observation { key, raw, first: None };
                Step::Send { task, line, reconnect: false }
            },
        }
    }
}

// ---------------------------------------------------------------------------
// Laws
// ---------------------------------------------------------------------------

/// All lines that go to the daemon from a step on, for the answers that come back.
pub open spec fn lines_sent(step: StepView, answers: Seq<AnswerView>) -> Seq<Seq<char>>
    decreases answers.len(),
{
    match step {
        StepView::Send { task, line, .. } => if answers.len() == 0 {
            seq![line]
        } else {
            seq![line] + lines_sent(task_step(task, answers[0]), answers.drop_first())
        },
        _ => Seq::empty(),
    }
}

/// The step that a task ends with, for the answers that come back.
pub open spec fn last_step(step: StepView, answers: Seq<AnswerView>) -> StepView
    decreases answers.len(),
{
    match step {
        StepView::Send { task, .. } => if answers.len() == 0 {
            step
        } else {
            last_step(task_step(task, answers[0]), answers.drop_first())
        },
        _ => step,
    }
}

/// A mutation is sent once, whatever comes back.
pub proof fn law_mutation_is_sent_once(raw: Seq<char>, answers: Seq<AnswerView>)
    ensures
        lines_sent(first_send(TaskView::Mutation, raw), answers) == seq![raw],
{
    reveal_with_fuel(lines_sent, 2);
    if answers.len() > 0 {
        assert(seq![raw] + Seq::<Seq<char>>::empty() =~= seq![raw]);
    }
}

/// A mutation whose answer is lost is answered with words that say so, and is not sent again.
pub proof fn law_lost_mutation_is_announced(answer: AnswerView)
    requires
        !(answer is Line),
    ensures
        task_step(TaskView::Mutation, answer) == StepView::Fail(
            FaultView {
                kind: answer.fault().kind,
                words: "upstream mutation delivery may be unknown; request was not replayed: "@
                    + answer.fault().words,
            },
        ),
{
}

/// What ends a task with a failure is of the kind of the last thing that went wrong.
pub proof fn law_failures_keep_their_kind(task: TaskView, answer: AnswerView)
    ensures
        task_step(task, answer) matches StepView::Fail(fault) ==> !(answer is Line) && fault.kind
            == answer.fault().kind,
{
}

/// An observation that fails twice tells both failures and is of the kind of the second.
pub proof fn law_second_failure_is_announced(
    key: Seq<char>,
    raw: Seq<char>,
    first: FaultView,
    second: AnswerView,
)
    requires
        !(second is Line),
    ensures
        last_step(
            first_send(TaskView::Observation { key: key, raw: raw, first: None }, raw),
            seq![AnswerView::Lost(first), second],
        ) == StepView::Fail(
            FaultView {
                kind: second.fault().kind,
                words: "read-only upstream failed after reconnect: first="@ + first.words
                    + "; second="@ + second.fault().words,
            },
        ),
{
    reveal_with_fuel(last_step, 3);
    let answers = seq![AnswerView::Lost(first), second];
    assert(answers.drop_first()[0] == second);
}

/// An observation is sent at most twice, each time with the same line, and a second time only where
/// the connection failed before a response came.
pub proof fn law_observation_is_retried_once(
    key: Seq<char>,
    raw: Seq<char>,
    answers: Seq<AnswerView>,
)
    ensures
        ({
            let sent = lines_sent(
                first_send(TaskView::Observation { key: key, raw: raw, first: None }, raw),
                answers,
            );
            sent == if answers.len() > 0 && answers[0] is Lost {
                seq![raw].push(raw)
            } else {
                seq![raw]
            }
        }),
{
    reveal_with_fuel(lines_sent, 3);
    assert(seq![raw] + Seq::<Seq<char>>::empty() =~= seq![raw]);
    assert(seq![raw] + seq![raw] =~= seq![raw].push(raw));
}

/// Before a request that may change the browser goes to the daemon, all kept observations are
/// dropped.
pub proof fn law_cache_is_empty_before_a_mutation(
    state: StateView,
    line: Seq<char>,
    config: ConfigView,
    now: u64,
)
    ensures
        line_step(state, line, config, now).1 is Send ==> line_step(
            state,
            line,
            config,
            now,
        ).0.cache == Map::<Seq<char>, CachedView>::empty(),
{
}

/// Only responses to observations are kept, each under the key of its request.
pub proof fn law_only_observations_are_kept(
    state: StateView,
    task: TaskView,
    answer: AnswerView,
    now: u64,
)
    ensures
        task_state(state, task, answer, now).cache != state.cache ==> {
            &&& task is Observation
            &&& answer is Line
            &&& task_state(state, task, answer, now).cache == state.cache.insert(
                task->Observation_key,
                CachedView { inserted: now, line: answer->Line_0 },
            )
        },
{
}

/// A request by itself adds nothing to what was kept.
pub proof fn law_requests_keep_nothing_new(
    state: StateView,
    line: Seq<char>,
    config: ConfigView,
    now: u64,
    key: Seq<char>,
    raw: Seq<char>,
)
    ensures
        line_step(state, line, config, now).0.cache.submap_of(state.cache),
        locked_step(state, key, raw, now, config.observe_ttl_ms).0.cache.submap_of(state.cache),
{
}

/// A line over the limit reaches neither the daemon nor a lock: it is answered with an error.
pub proof fn law_long_lines_go_nowhere(
    state: StateView,
    line: Seq<char>,
    config: ConfigView,
    now: u64,
)
    requires
        encode_utf8(line).len() > config.max_line_bytes,
    ensures
        line_step(state, line, config, now) == (
            state,
            plain_reply(json_text(error_reply("request exceeds fast-path line limit"@))),
        ),
        !(answer_of(Ok(encode_utf8(line)), config.max_line_bytes) is Line),
{
}

/// Nothing is served from what was kept once 100 milliseconds have passed.
pub proof fn law_kept_observations_expire(
    state: StateView,
    key: Seq<char>,
    now: u64,
    config: ConfigView,
)
    requires
        config.is_valid(),
        state.cache.contains_key(key),
        now - state.cache[key].inserted > 100_000_000,
    ensures
        fresh_line(state, key, now, config.observe_ttl_ms) is None,
        !looked_up(state, key, now, config.observe_ttl_ms).cache.contains_key(key),
{
    assert(config.observe_ttl_ms * 1_000_000 <= 100_000_000);
}

/// What was kept is served again until it is too old, under its own key.
pub proof fn law_kept_observation_is_served(
    state: StateView,
    key: Seq<char>,
    line: Seq<char>,
    kept: u64,
    now: u64,
    ttl_ms: u64,
)
    ensures
        fresh_line(state.keeping(key, line, kept), key, now, ttl_ms) == if now - kept <= ttl_ms
            * 1_000_000 {
            Some(line)
        } else {
            None
        },
        forall|other: Seq<char>|
            other != key ==> #[trigger] fresh_line(
                state.keeping(key, line, kept),
                other,
                now,
                ttl_ms,
            ) == fresh_line(state, other, now, ttl_ms),
{
}

/// A client that waited for the lock while another one observed the same is served what the other
/// one kept, and sends nothing.
pub proof fn law_waiting_clients_share_an_observation(
    state: StateView,
    key: Seq<char>,
    raw: Seq<char>,
    line: Seq<char>,
    kept: u64,
    now: u64,
    ttl_ms: u64,
)
    requires
        now - kept <= ttl_ms * 1_000_000,
    ensures
        locked_step(state.keeping(key, line, kept), key, raw, now, ttl_ms).1 == plain_reply(line),
{
}

/// An action with an observation is sent as one line. Only where the daemon says that it does not
/// know how to fuse them, and so has done neither, does the action go out alone, once, and then the
/// observation, at most twice.
pub proof fn law_fused_action_is_sent_once(
    raw: Seq<char>,
    action: JsonView,
    observe: JsonView,
    answers: Seq<AnswerView>,
)
    ensures
        ({
            let sent = lines_sent(
                first_send(TaskView::FusedNative { action: action, observe: observe }, raw),
                answers,
            );
            let fallback = answers.len() > 0 && (answers[0] matches AnswerView::Line(line)
                && refuses_fusion(read_or_null(line)));
            &&& 1 <= sent.len() <= 4
            &&& sent[0] == raw
            &&& sent.len() > 1 <==> fallback
            &&& sent.len() > 1 ==> sent[1] == json_text(action)
            &&& forall|i: int| 2 <= i < sent.len() ==> #[trigger] sent[i] == json_text(observe)
        }),
{
    reveal_with_fuel(lines_sent, 5);
}

/// Once the action of an action with an observation was answered, its response reaches the client,
/// whatever becomes of the observation.
pub proof fn law_action_response_is_returned(
    action: JsonView,
    raw: Seq<char>,
    answers: Seq<AnswerView>,
)
    requires
        answers.len() >= 2,
    ensures
        ({
            let last = last_step(
                first_send(TaskView::FusedObserve { action: action, raw: raw, first: None }, raw),
                answers,
            );
            exists|ok: bool, observation: JsonView|
                last->Reply_line == json_text(#[trigger] paired_reply(ok, action, observation))
                    && last is Reply && paired_reply(ok, action, observation).get("action"@)
                    == Some(action)
        }),
{
    broadcast use lemma_member_push;

    reveal_with_fuel(last_step, 3);
    reveal_strlit("action");
    reveal_strlit("observation");
    reveal_strlit("nativeFused");
    assert("action"@.len() == 6 && "observation"@.len() == 11 && "nativeFused"@.len() == 11);
    assert forall|ok: bool, observation: JsonView| #[trigger]
        paired_reply(ok, action, observation).get("action"@) == Some(action) by {}
    let first = task_step(
        TaskView::FusedObserve { action: action, raw: raw, first: None },
        answers[0],
    );
    match answers[0] {
        AnswerView::Line(line) => {
            let observation = read_or_null(line);
            let reply = paired_reply(is_observed(observation), action, observation);
            assert(first->Reply_line == json_text(reply));
        },
        AnswerView::Refused(_) => {
            let reply = paired_reply(false, action, JsonView::Null);
            assert(first->Reply_line == json_text(reply));
        },
        AnswerView::Lost(fault) => {
            assert(answers.drop_first()[0] == answers[1]);
            match answers[1] {
                AnswerView::Line(line) => {
                    let observation = read_or_null(line);
                    let reply = paired_reply(is_observed(observation), action, observation);
                    assert(last_step(first, answers.drop_first())->Reply_line == json_text(reply));
                },
                _ => {
                    let reply = paired_reply(false, action, JsonView::Null);
                    assert(last_step(first, answers.drop_first())->Reply_line == json_text(reply));
                },
            }
        },
    }
}

/// The words that the gateway reads and writes differ.
proof fn lemma_gateway_words()
    ensures
        "snapshot"@.len() == 8 && "snapshot"@[0] == 's',
        "state"@.len() == 5 && "state"@[0] == 's',
        "find"@.len() == 4,
        "observe"@.len() == 7 && "observe"@[0] == 'o',
        "getState"@.len() == 8 && "getState"@[0] == 'g',
        "gatewayStats"@.len() == 12,
        "actObserve"@.len() == 10 && "actObserve"@[0] == 'a',
        "schemaVersion"@.len() == 13 && "schemaVersion"@[0] == 's',
        "ok"@.len() == 2 && "ok"@[0] == 'o',
        "action"@.len() == 6 && "action"@[0] == 'a',
        "observation"@.len() == 11 && "observation"@[0] == 'o',
        "observationDigest"@.len() == 17,
        "nativeFused"@.len() == 11 && "nativeFused"@[0] == 'n',
        "success"@.len() == 7 && "success"@[0] == 's',
        "error"@.len() == 5 && "error"@[0] == 'e',
        "result"@.len() == 6 && "result"@[0] == 'r',
        "id"@.len() == 2 && "id"@[0] == 'i',
        "actionRequest"@.len() == 13 && "actionRequest"@[0] == 'a',
        "observeRequest"@.len() == 14 && "observeRequest"@[0] == 'o',
        "requests"@.len() == 8 && "requests"@[0] == 'r',
        "forwarded"@.len() == 9 && "forwarded"@[0] == 'f',
        "cacheHits"@.len() == 9 && "cacheHits"@[0] == 'c',
        "coalescedHits"@.len() == 13 && "coalescedHits"@[0] == 'c',
        "fusedRequests"@.len() == 13 && "fusedRequests"@[0] == 'f',
        "reconnects"@.len() == 10 && "reconnects"@[0] == 'r',
        "failures"@.len() == 8 && "failures"@[0] == 'f',
        "Unknown action"@.len() == 14 && "Unknown action"@[0] == 'U',
{
    reveal_strlit("snapshot");
    reveal_strlit("state");
    reveal_strlit("find");
    reveal_strlit("observe");
    reveal_strlit("getState");
    reveal_strlit("gatewayStats");
    reveal_strlit("actObserve");
    reveal_strlit("schemaVersion");
    reveal_strlit("ok");
    reveal_strlit("action");
    reveal_strlit("observation");
    reveal_strlit("observationDigest");
    reveal_strlit("nativeFused");
    reveal_strlit("success");
    reveal_strlit("error");
    reveal_strlit("result");
    reveal_strlit("id");
    reveal_strlit("actionRequest");
    reveal_strlit("observeRequest");
    reveal_strlit("requests");
    reveal_strlit("forwarded");
    reveal_strlit("cacheHits");
    reveal_strlit("coalescedHits");
    reveal_strlit("fusedRequests");
    reveal_strlit("reconnects");
    reveal_strlit("failures");
    reveal_strlit("Unknown action");
}

/// The name of a command is the first of these that is there: the command's `name`, its `type`, its
/// `command`, and the request's own `name`. Where that is no string there is no name.
pub proof fn law_command_name_is_found_in_order(request: JsonView)
    ensures
        ({
            let command = request.get("command"@);
            let found = if command is Some && command->0.get("name"@) is Some {
                command->0.get("name"@)
            } else if command is Some && command->0.get("type"@) is Some {
                command->0.get("type"@)
            } else if command is Some && command->0.get("command"@) is Some {
                command->0.get("command"@)
            } else {
                request.get("name"@)
            };
            name_of_command(request) == match found {
                Some(JsonView::Text(name)) => Some(name),
                _ => None,
            }
        }),
{
}

/// The session and the target of a request are those that it names, in either spelling, and else
/// the default ones.
pub proof fn law_scopes_are_found_in_order(request: JsonView)
    ensures
        session_of(request) == match request.get("sessionId"@) {
            Some(JsonView::Text(name)) => name,
            Some(_) => "default"@,
            None => match request.get("session_id"@) {
                Some(JsonView::Text(name)) => name,
                _ => "default"@,
            },
        },
        target_of(request) == match request.get("targetId"@) {
            Some(JsonView::Text(name)) => name,
            Some(_) => "default"@,
            None => match request.get("target_id"@) {
                Some(JsonView::Text(name)) => name,
                _ => "default"@,
            },
        },
{
}

/// Whether a line holds a request: it keeps the limit, and without the line ends behind it reads as
/// a value.
pub open spec fn holds_request(
    line: Seq<char>,
    raw: Seq<char>,
    request: JsonView,
    config: ConfigView,
) -> bool {
    &&& encode_utf8(line).len() <= config.max_line_bytes
    &&& raw.len() > 0
    &&& raw.last() != '\r' && raw.last() != '\n'
    &&& raw.is_prefix_of(line)
    &&& forall|i: int|
        raw.len() <= i < line.len() ==> #[trigger] line[i] == '\r' || line[i] == '\n'
    &&& parsed_json(raw) == Ok::<JsonView, Seq<char>>(request)
}

proof fn lemma_raw_line(line: Seq<char>, raw: Seq<char>, request: JsonView, config: ConfigView)
    requires
        holds_request(line, raw, request, config),
    ensures
        without_line_end(line) == raw,
{
    let tail = line.skip(raw.len() as int);
    assert(line =~= raw + tail);
    assert forall|i: int| 0 <= i < tail.len() implies #[trigger] tail[i] == '\r' || tail[i]
        == '\n' by {
        assert(tail[i] == line[raw.len() + i]);
    }
    law_line_ends_are_cut(raw, tail);
}

/// A request is served again from what was kept, or waits for the lock of its key, exactly where it
/// is named `snapshot`, `state`, `find`, `observe` or `getState`. What is served was kept under its
/// own key no longer ago than the time to live. Every other request that asks neither for the
/// counters nor for an action with an observation may change the browser: all that was kept is
/// dropped, and the request goes to the daemon as it came, as a mutation.
pub proof fn law_only_the_five_observations_are_served_again(
    state: StateView,
    line: Seq<char>,
    raw: Seq<char>,
    request: JsonView,
    config: ConfigView,
    now: u64,
)
    requires
        holds_request(line, raw, request, config),
    ensures
        ({
            let (after, step) = line_step(state, line, config, now);
            let name = name_of_command(request);
            let key = key_of_observation(request);
            let observed = name == Some("snapshot"@) || name == Some("state"@) || name == Some(
                "find"@,
            ) || name == Some("observe"@) || name == Some("getState"@);
            let served = state.cache.contains_key(key) && now - state.cache[key].inserted
                <= config.observe_ttl_ms * 1_000_000;
            &&& observed && served ==> step == StepView::Reply {
                line: state.cache[key].line,
                disconnect: false,
            } && after.cache == state.cache
            &&& observed && !served ==> step == StepView::Lock { key, raw } && after.cache
                == state.cache.remove(key)
            &&& !observed && name != Some("gatewayStats"@) && name != Some("actObserve"@) ==> {
                &&& step == StepView::Send { task: TaskView::Mutation, line: raw, reconnect: false }
                &&& after.cache == Map::<Seq<char>, CachedView>::empty()
            }
            &&& step is Lock ==> observed
            &&& step matches StepView::Send { task, .. } ==> !(task is Observation)
        }),
{
    lemma_gateway_words();
    lemma_raw_line(line, raw, request, config);
}

/// Once the lock of its key is held, an observation is served what another client kept meanwhile,
/// no longer ago than the time to live, and else goes to the daemon as it came.
pub proof fn law_locked_observations_are_sent(
    state: StateView,
    key: Seq<char>,
    raw: Seq<char>,
    now: u64,
    ttl_ms: u64,
)
    ensures
        ({
            let (after, step) = locked_step(state, key, raw, now, ttl_ms);
            let served = state.cache.contains_key(key) && now - state.cache[key].inserted <= ttl_ms
                * 1_000_000;
            &&& served ==> step == StepView::Reply {
                line: state.cache[key].line,
                disconnect: false,
            } && after.cache == state.cache
            &&& !served ==> step == StepView::Send {
                task: TaskView::Observation { key, raw, first: None },
                line: raw,
                reconnect: false,
            } && after.cache == state.cache.remove(key)
        }),
{
}

/// The response to an observation is handed on as it came, and is kept under the key of the
/// observation with the time at which it came.
pub proof fn law_observations_are_kept(
    state: StateView,
    key: Seq<char>,
    raw: Seq<char>,
    first: Option<Seq<char>>,
    line: Seq<char>,
    now: u64,
)
    ensures
        ({
            let task = TaskView::Observation { key, raw, first };
            let after = task_state(state, task, AnswerView::Line(line), now);
            &&& task_step(task, AnswerView::Line(line)) == StepView::Reply {
                line,
                disconnect: false,
            }
            &&& after.cache.contains_key(key)
            &&& after.cache[key].line == line
            &&& after.cache[key].inserted == now
            &&& after.cache.remove(key) == state.cache.remove(key)
        }),
{
    let task = TaskView::Observation { key, raw, first };
    let after = task_state(state, task, AnswerView::Line(line), now);
    assert(after.cache.remove(key) =~= state.cache.remove(key));
}

/// The response to a mutation is handed on as it came. Where an observation is lost before a
/// response came, the same line is sent once more over a new connection; where what comes back is
/// no response that the gateway takes, the client is given up at once.
pub proof fn law_answers_are_handed_on(
    key: Seq<char>,
    raw: Seq<char>,
    line: Seq<char>,
    fault: FaultView,
    words: Seq<char>,
)
    ensures
        task_step(TaskView::Mutation, AnswerView::Line(line)) == (StepView::Reply {
            line,
            disconnect: false,
        }),
        task_step(
            TaskView::Observation { key, raw, first: None },
            AnswerView::Lost(fault),
        ) == (StepView::Send {
            task: TaskView::Observation { key, raw, first: Some(fault.words) },
            line: raw,
            reconnect: true,
        }),
        task_step(
            TaskView::Observation { key, raw, first: None },
            AnswerView::Refused(words),
        ) == StepView::Fail(FaultView { kind: FaultKind::InvalidData, words }),
{
}

/// Every line that may change the browser and gets no response ends its client with words that say
/// that it was not sent again, whether it was an action alone or with an observation.
pub proof fn law_lost_actions_are_announced(
    task: TaskView,
    fault: FaultView,
    refused: Seq<char>,
)
    requires
        task is Mutation || task is FusedNative || task is FusedAction,
    ensures
        task_step(task, AnswerView::Lost(fault)) == StepView::Fail(
            FaultView {
                kind: fault.kind,
                words: "upstream mutation delivery may be unknown; request was not replayed: "@
                    + fault.words,
            },
        ),
        task_step(task, AnswerView::Refused(refused)) == StepView::Fail(
            FaultView {
                kind: FaultKind::InvalidData,
                words: "upstream mutation delivery may be unknown; request was not replayed: "@
                    + refused,
            },
        ),
{
}

/// Whether the daemon says that it cannot fuse an action with an observation: it sets
/// `nativeProtocolError`, or the words of its error hold `Unknown action`.
pub open spec fn says_it_cannot_fuse(response: JsonView) -> bool {
    ||| response.get("data"@) matches Some(data) && data.get("nativeProtocolError"@) == Some(
        JsonView::Bool(true),
    )
    ||| response.get("error"@) matches Some(JsonView::Text(words)) && exists|i: int|
        0 <= i && i + 14 <= words.len() && #[trigger] words.subrange(i, i + 14)
            == "Unknown action"@
}

/// What the member `name` of the data of a response holds, or null.
pub open spec fn data_member(response: JsonView, name: Seq<char>) -> JsonView {
    match response.get("data"@) {
        Some(data) => match data.get(name) {
            Some(value) => value,
            None => JsonView::Null,
        },
        None => JsonView::Null,
    }
}

/// Whether a step replies with what the daemon made of an action and an observation in one: the
/// parts of its data as they came, and `ok` exactly where the response says `success`.
pub open spec fn replies_fused(step: StepView, response: JsonView) -> bool {
    exists|reply: JsonView|
        {
            &&& step == StepView::Reply { line: #[trigger] json_text(reply), disconnect: false }
            &&& reply.get("schemaVersion"@) == Some(
                JsonView::Text("tempera.browser.fastpath.act-observe/v1"@),
            )
            &&& reply.get("ok"@) == Some(
                JsonView::Bool(response.get("success"@) == Some(JsonView::Bool(true))),
            )
            &&& reply.get("action"@) == Some(data_member(response, "action"@))
            &&& reply.get("observation"@) == Some(data_member(response, "observation"@))
            &&& reply.get("observationDigest"@) == Some(
                data_member(response, "observationDigest"@),
            )
            &&& reply.get("nativeFused"@) == Some(JsonView::Bool(true))
        }
}

/// Whether a step replies with an action and an observation that were sent one after the other.
pub open spec fn replies_paired(
    step: StepView,
    disconnect: bool,
    ok: bool,
    action: JsonView,
    observation: JsonView,
) -> bool {
    exists|reply: JsonView|
        {
            &&& step == StepView::Reply { line: #[trigger] json_text(reply), disconnect }
            &&& reply.get("schemaVersion"@) == Some(
                JsonView::Text("tempera.browser.fastpath.act-observe/v1"@),
            )
            &&& reply.get("ok"@) == Some(JsonView::Bool(ok))
            &&& reply.get("action"@) == Some(action)
            &&& reply.get("observation"@) == Some(observation)
            &&& reply.get("nativeFused"@) == Some(JsonView::Bool(false))
        }
}

/// Where a response reads as a value that does not say that the daemon cannot fuse, the request is
/// over: one line went to the daemon, nothing more is sent whatever else comes back, and the client
/// gets what the daemon made of both. That holds of failures too, so that no action is done twice.
pub proof fn law_fused_responses_end_the_request(
    raw: Seq<char>,
    action: JsonView,
    observe: JsonView,
    answers: Seq<AnswerView>,
    line: Seq<char>,
    response: JsonView,
)
    requires
        answers.len() > 0,
        answers[0] == AnswerView::Line(line),
        parsed_json(line) == Ok::<JsonView, Seq<char>>(response),
        !says_it_cannot_fuse(response),
    ensures
        ({
            let start = StepView::Send {
                task: TaskView::FusedNative { action, observe },
                line: raw,
                reconnect: false,
            };
            &&& lines_sent(start, answers) == seq![raw]
            &&& replies_fused(last_step(start, answers), response)
        }),
{
    broadcast use lemma_member_push;

    lemma_gateway_words();
    reveal_with_fuel(lines_sent, 2);
    reveal_with_fuel(last_step, 2);
    let task = TaskView::FusedNative { action, observe };
    let start = StepView::Send { task, line: raw, reconnect: false };
    assert(!refuses_fusion(response)) by {
        match response.get("error"@) {
            Some(JsonView::Text(words)) => {
                if occurs_in("Unknown action"@, words) {
                    let i = choose|i: int|
                        0 <= i <= words.len() - "Unknown action"@.len()
                            && #[trigger] words.subrange(i, i + "Unknown action"@.len())
                            == "Unknown action"@;
                    assert(words.subrange(i, i + 14) == "Unknown action"@);
                }
            },
            _ => {},
        }
    }
    let reply = fused_reply(response);
    assert(task_step(task, answers[0]) == StepView::Reply {
        line: json_text(reply),
        disconnect: false,
    });
    assert(seq![raw] + Seq::<Seq<char>>::empty() =~= seq![raw]);
    assert(last_step(start, answers) == task_step(task, answers[0]));
}

/// A response to an action with an observation that is no value ends the request too: one line went
/// to the daemon, and the client is told of no success.
pub proof fn law_unreadable_fused_responses_end_the_request(
    action: JsonView,
    observe: JsonView,
    line: Seq<char>,
)
    requires
        parsed_json(line) is Err,
    ensures
        replies_fused(
            task_step(TaskView::FusedNative { action, observe }, AnswerView::Line(line)),
            JsonView::Null,
        ),
{
    broadcast use lemma_member_push;

    lemma_gateway_words();
    let reply = fused_reply(JsonView::Null);
    assert(task_step(TaskView::FusedNative { action, observe }, AnswerView::Line(line))
        == StepView::Reply { line: json_text(reply), disconnect: false });
}

/// Only where the daemon says that it cannot fuse does the action go out alone, as it was given.
pub proof fn law_action_goes_alone_where_the_daemon_cannot_fuse(
    action: JsonView,
    observe: JsonView,
    line: Seq<char>,
    response: JsonView,
)
    requires
        parsed_json(line) == Ok::<JsonView, Seq<char>>(response),
        says_it_cannot_fuse(response),
    ensures
        task_step(TaskView::FusedNative { action, observe }, AnswerView::Line(line)) == (
        StepView::Send {
            task: TaskView::FusedAction { observe },
            line: json_text(action),
            reconnect: false,
        }),
{
    lemma_gateway_words();
    assert(refuses_fusion(response)) by {
        match response.get("error"@) {
            Some(JsonView::Text(words)) => {
                if exists|i: int|
                    0 <= i && i + 14 <= words.len() && #[trigger] words.subrange(i, i + 14)
                        == "Unknown action"@ {
                    let i = choose|i: int|
                        0 <= i && i + 14 <= words.len() && #[trigger] words.subrange(i, i + 14)
                            == "Unknown action"@;
                    assert(words.subrange(i, i + "Unknown action"@.len()) == "Unknown action"@);
                }
            },
            _ => {},
        }
    }
}

/// An action that went out alone and was refused, by `success` or `ok` being false, is answered
/// with its response and without any observation. After any other response the observation is sent.
pub proof fn law_observation_follows_an_action_that_was_done(
    observe: JsonView,
    line: Seq<char>,
    response: JsonView,
)
    requires
        parsed_json(line) == Ok::<JsonView, Seq<char>>(response) || (parsed_json(line) is Err
            && response is Null),
    ensures
        ({
            let step = task_step(TaskView::FusedAction { observe }, AnswerView::Line(line));
            if response.get("success"@) == Some(JsonView::Bool(false)) || response.get("ok"@)
                == Some(JsonView::Bool(false)) {
                replies_paired(step, false, false, response, JsonView::Null)
            } else {
                step == StepView::Send {
                    task: TaskView::FusedObserve {
                        action: response,
                        raw: json_text(observe),
                        first: None,
                    },
                    line: json_text(observe),
                    reconnect: false,
                }
            }
        }),
{
    broadcast use lemma_member_push;

    lemma_gateway_words();
    let step = task_step(TaskView::FusedAction { observe }, AnswerView::Line(line));
    let reply = paired_reply(false, response, JsonView::Null);
    assert(step is Reply ==> step == StepView::Reply {
        line: json_text(reply),
        disconnect: false,
    });
}

/// The observation after an action is answered together with the action. It succeeded unless its
/// `success`, or without one its `ok`, is false. Where it is lost it is sent once more over a new
/// connection, and where it cannot be had the action is answered without it.
pub proof fn law_paired_observations_are_answered(
    action: JsonView,
    raw: Seq<char>,
    first: Option<Seq<char>>,
    line: Seq<char>,
    observation: JsonView,
    fault: FaultView,
    words: Seq<char>,
)
    requires
        parsed_json(line) == Ok::<JsonView, Seq<char>>(observation) || (parsed_json(line) is Err
            && observation is Null),
    ensures
        ({
            let task = TaskView::FusedObserve { action, raw, first };
            let ok = match observation.get("success"@) {
                Some(success) => success != JsonView::Bool(false),
                None => observation.get("ok"@) != Some(JsonView::Bool(false)),
            };
            &&& replies_paired(
                task_step(task, AnswerView::Line(line)),
                false,
                ok,
                action,
                observation,
            )
            &&& first is None ==> task_step(task, AnswerView::Lost(fault)) == StepView::Send {
                task: TaskView::FusedObserve { action, raw, first: Some(fault.words) },
                line: raw,
                reconnect: true,
            }
            &&& first is Some ==> replies_paired(
                task_step(task, AnswerView::Lost(fault)),
                true,
                false,
                action,
                JsonView::Null,
            )
            &&& replies_paired(
                task_step(task, AnswerView::Refused(words)),
                true,
                false,
                action,
                JsonView::Null,
            )
        }),
{
    broadcast use lemma_member_push;

    lemma_gateway_words();
    let task = TaskView::FusedObserve { action, raw, first };
    let whole = paired_reply(is_observed(observation), action, observation);
    let alone = paired_reply(false, action, JsonView::Null);
    assert(task_step(task, AnswerView::Line(line)) == StepView::Reply {
        line: json_text(whole),
        disconnect: false,
    });
    assert(task_step(task, AnswerView::Refused(words)) == StepView::Reply {
        line: json_text(alone),
        disconnect: true,
    });
    assert(first is Some ==> task_step(task, AnswerView::Lost(fault)) == StepView::Reply {
        line: json_text(alone),
        disconnect: true,
    });
}

/// An action with an observation goes to the daemon as one line that carries both as they were
/// given and the identifier of the request, after all that was kept was dropped. A request that
/// lacks one of them, or its arguments, reaches no daemon.
pub proof fn law_actions_are_fused_with_observations(
    state: StateView,
    line: Seq<char>,
    raw: Seq<char>,
    request: JsonView,
    config: ConfigView,
    now: u64,
)
    requires
        holds_request(line, raw, request, config),
        name_of_command(request) == Some("actObserve"@),
    ensures
        ({
            let (after, step) = line_step(state, line, config, now);
            let arguments = request.get("arguments"@);
            &&& after.cache == Map::<Seq<char>, CachedView>::empty()
            &&& !(arguments matches Some(JsonView::Object(_))) ==> step == StepView::Fail(
                FaultView { kind: FaultKind::InvalidInput, words: "missing arguments"@ },
            )
            &&& arguments matches Some(JsonView::Object(_)) ==> match (
                arguments->0.get("actionRequest"@),
                arguments->0.get("observeRequest"@),
            ) {
                (Some(action), Some(observe)) => exists|native: JsonView|
                    {
                        &&& step == StepView::Send {
                            task: TaskView::FusedNative { action, observe },
                            line: #[trigger] json_text(native),
                            reconnect: false,
                        }
                        &&& native.get("id"@) == Some(
                            match request.get("id"@) {
                                Some(id) => id,
                                None => JsonView::Null,
                            },
                        )
                        &&& native.get("action"@) == Some(
                            JsonView::Text("__tempera_act_observe_v1"@),
                        )
                        &&& native.get("actionRequest"@) == Some(action)
                        &&& native.get("observeRequest"@) == Some(observe)
                    },
                (None, _) => step == StepView::Fail(
                    FaultView { kind: FaultKind::InvalidInput, words: "missing actionRequest"@ },
                ),
                (Some(_), None) => step == StepView::Fail(
                    FaultView { kind: FaultKind::InvalidInput, words: "missing observeRequest"@ },
                ),
            }
        }),
{
    broadcast use lemma_member_push;

    lemma_gateway_words();
    lemma_raw_line(line, raw, request, config);
    match request.get("arguments"@) {
        Some(JsonView::Object(arguments)) => match (
            member(arguments, "actionRequest"@),
            member(arguments, "observeRequest"@),
        ) {
            (Some(action), Some(observe)) => {
                let native = native_request(or_null(request.get("id"@)), action, observe);
                assert(line_step(state, line, config, now).1 == StepView::Send {
                    task: TaskView::FusedNative { action, observe },
                    line: json_text(native),
                    reconnect: false,
                });
            },
            _ => {},
        },
        _ => {},
    }
}

/// Whether a value is this count.
pub open spec fn tells_count(value: Option<JsonView>, count: u64) -> bool {
    value == Some(JsonView::Number(NumberView::Unsigned(count)))
}

/// A request for the counters is answered at once with each of them, under its own name.
pub proof fn law_counters_are_told(
    state: StateView,
    line: Seq<char>,
    raw: Seq<char>,
    request: JsonView,
    config: ConfigView,
    now: u64,
)
    requires
        holds_request(line, raw, request, config),
        name_of_command(request) == Some("gatewayStats"@),
    ensures
        ({
            let (after, step) = line_step(state, line, config, now);
            &&& after.cache == state.cache
            &&& exists|reply: JsonView|
                {
                    &&& step == StepView::Reply {
                        line: #[trigger] json_text(reply),
                        disconnect: false,
                    }
                    &&& reply.get("ok"@) == Some(JsonView::Bool(true))
                    &&& reply.get("result"@) matches Some(told)
                    &&& told.get("schemaVersion"@) == Some(
                        JsonView::Text("tempera.browser.fastpath.stats/v1"@),
                    )
                    &&& tells_count(told.get("requests"@), after.stats.requests)
                    &&& tells_count(told.get("forwarded"@), after.stats.forwarded)
                    &&& tells_count(told.get("cacheHits"@), after.stats.cache_hits)
                    &&& tells_count(told.get("coalescedHits"@), after.stats.coalesced_hits)
                    &&& tells_count(told.get("fusedRequests"@), after.stats.fused_requests)
                    &&& tells_count(told.get("reconnects"@), after.stats.reconnects)
                    &&& tells_count(told.get("failures"@), after.stats.failures)
                }
        }),
{
    broadcast use lemma_member_push;

    lemma_gateway_words();
    lemma_raw_line(line, raw, request, config);
    let (after, step) = line_step(state, line, config, now);
    let reply = stats_reply(after.stats);
    assert(step == StepView::Reply { line: json_text(reply), disconnect: false });
    let told = reply.get("result"@)->0;
    assert(told == stats_report(after.stats));
}

/// Whether a counter went up by one. A counter that is full starts again at zero.
pub open spec fn went_up(before: u64, after: u64) -> bool {
    after == (before + 1) % 0x1_0000_0000_0000_0000
}

/// Each request counts once, and as a fused one where it asks for an action with an observation, as
/// a hit where it is served what was kept, and as forwarded where it goes to the daemon.
pub proof fn law_requests_are_counted(
    state: StateView,
    line: Seq<char>,
    raw: Seq<char>,
    request: JsonView,
    config: ConfigView,
    now: u64,
)
    requires
        holds_request(line, raw, request, config),
    ensures
        ({
            let (after, step) = line_step(state, line, config, now);
            let name = name_of_command(request);
            let hit = step is Reply && name != Some("gatewayStats"@);
            let fused = name == Some("actObserve"@);
            let (was, is) = (state.stats, after.stats);
            &&& went_up(was.requests, is.requests)
            &&& if fused {
                went_up(was.fused_requests, is.fused_requests)
            } else {
                was.fused_requests == is.fused_requests
            }
            &&& if hit {
                went_up(was.cache_hits, is.cache_hits)
            } else {
                was.cache_hits == is.cache_hits
            }
            &&& if step is Send {
                went_up(was.forwarded, is.forwarded)
            } else {
                was.forwarded == is.forwarded
            }
            &&& was.coalesced_hits == is.coalesced_hits
            &&& was.reconnects == is.reconnects
            &&& was.failures == is.failures
        }),
{
    lemma_gateway_words();
    lemma_raw_line(line, raw, request, config);
}

/// Behind a lock, an observation counts as shared where another client kept it, and as forwarded
/// where it goes to the daemon. What follows an answer counts as a reconnect where a line is sent
/// again and as forwarded where one is sent for the first time.
pub proof fn law_lines_are_counted(
    state: StateView,
    key: Seq<char>,
    raw: Seq<char>,
    task: TaskView,
    answer: AnswerView,
    now: u64,
    ttl_ms: u64,
)
    ensures
        ({
            let (after, step) = locked_step(state, key, raw, now, ttl_ms);
            let (was, is) = (state.stats, after.stats);
            &&& if step is Send {
                went_up(was.forwarded, is.forwarded) && was.coalesced_hits == is.coalesced_hits
            } else {
                was.forwarded == is.forwarded && went_up(was.coalesced_hits, is.coalesced_hits)
            }
            &&& was.requests == is.requests && was.cache_hits == is.cache_hits && was.reconnects
                == is.reconnects && was.fused_requests == is.fused_requests && was.failures
                == is.failures
        }),
        ({
            let is = task_state(state, task, answer, now).stats;
            let was = state.stats;
            &&& match task_step(task, answer) {
                StepView::Send { reconnect: true, .. } => went_up(was.reconnects, is.reconnects)
                    && was.forwarded == is.forwarded,
                StepView::Send { reconnect: false, .. } => was.reconnects == is.reconnects
                    && went_up(was.forwarded, is.forwarded),
                _ => was.reconnects == is.reconnects && was.forwarded == is.forwarded,
            }
            &&& was.requests == is.requests && was.cache_hits == is.cache_hits
                && was.coalesced_hits == is.coalesced_hits && was.fused_requests
                == is.fused_requests && was.failures == is.failures
        }),
{
}

/// A line that is empty but for its line end is passed over. One that is over the limit or no value
/// is answered with an error that says so, and nothing that was kept is touched.
pub proof fn law_lines_that_are_no_requests(
    state: StateView,
    line: Seq<char>,
    raw: Seq<char>,
    config: ConfigView,
    now: u64,
)
    requires
        raw.len() > 0 ==> raw.last() != '\r' && raw.last() != '\n',
        raw.is_prefix_of(line),
        forall|i: int|
            raw.len() <= i < line.len() ==> #[trigger] line[i] == '\r' || line[i] == '\n',
    ensures
        ({
            let (after, step) = line_step(state, line, config, now);
            let long = encode_utf8(line).len() > config.max_line_bytes;
            &&& long ==> after == state && replies_error(
                step,
                "request exceeds fast-path line limit"@,
            )
            &&& !long && raw.len() == 0 ==> after == state && step is Skip
            &&& !long && raw.len() > 0 ==> (parsed_json(raw) matches Err(words) ==> after.cache
                == state.cache && replies_error(step, "request is not JSON: "@ + words))
        }),
{
    broadcast use lemma_member_push;

    lemma_gateway_words();
    let tail = line.skip(raw.len() as int);
    assert(line =~= raw + tail);
    assert forall|i: int| 0 <= i < tail.len() implies #[trigger] tail[i] == '\r' || tail[i]
        == '\n' by {
        assert(tail[i] == line[raw.len() + i]);
    }
    law_line_ends_are_cut(raw, tail);
    let (after, step) = line_step(state, line, config, now);
    if encode_utf8(line).len() > config.max_line_bytes {
        let reply = error_reply("request exceeds fast-path line limit"@);
        assert(step == StepView::Reply { line: json_text(reply), disconnect: false });
    } else if raw.len() > 0 {
        match parsed_json(raw) {
            Err(words) => {
                let reply = error_reply("request is not JSON: "@ + words);
                assert(step == StepView::Reply { line: json_text(reply), disconnect: false });
            },
            Ok(_) => {},
        }
    }
}

/// Whether a step replies with an error in these words.
pub open spec fn replies_error(step: StepView, words: Seq<char>) -> bool {
    exists|reply: JsonView|
        {
            &&& step == StepView::Reply { line: #[trigger] json_text(reply), disconnect: false }
            &&& reply.get("schemaVersion"@) == Some(
                JsonView::Text("tempera.browser.fastpath.error/v1"@),
            )
            &&& reply.get("ok"@) == Some(JsonView::Bool(false))
            &&& reply.get("error"@) == Some(JsonView::Text(words))
        }
}

/// What is read from the daemon is a lost connection where reading failed or nothing came, and a
/// refused response where it is no text or over the limit. Any other response is the text that was
/// read without the line ends behind it.
pub proof fn law_responses_are_read(
    fault: FaultView,
    bytes: Seq<u8>,
    body: Seq<char>,
    tail: Seq<char>,
    max_line_bytes: usize,
)
    requires
        forall|i: int| 0 <= i < tail.len() ==> #[trigger] tail[i] == '\r' || tail[i] == '\n',
        body.len() > 0 ==> body.last() != '\r' && body.last() != '\n',
    ensures
        answer_of(Err(fault), max_line_bytes) == AnswerView::Lost(fault),
        answer_of(Ok(Seq::empty()), max_line_bytes) == AnswerView::Lost(
            FaultView {
                kind: FaultKind::UnexpectedEof,
                words: "browser daemon closed the connection"@,
            },
        ),
        bytes.len() > 0 && !valid_utf8(bytes) ==> answer_of(Ok(bytes), max_line_bytes)
            == AnswerView::Refused("stream did not contain valid UTF-8"@),
        valid_utf8(bytes) && bytes.len() > max_line_bytes ==> answer_of(Ok(bytes), max_line_bytes)
            == AnswerView::Refused("browser daemon response exceeds line limit"@),
        valid_utf8(bytes) && 0 < bytes.len() <= max_line_bytes && decode_utf8(bytes) == body + tail
            ==> answer_of(Ok(bytes), max_line_bytes) == AnswerView::Line(body),
{
    law_line_ends_are_cut(body, tail);
}

/// The models of steps, tasks and answers show the parts as they are.
pub proof fn law_models_show_their_parts(
    task: Task,
    line: String,
    key: String,
    raw: String,
    flag: bool,
    fault: Fault,
    json: Json,
    other: Json,
    first: Option<String>,
)
    ensures
        fault@.kind == fault.kind && fault@.words == fault.words@,
        Answer::Line(line)@ == AnswerView::Line(line@),
        Answer::Lost(fault)@ == AnswerView::Lost(fault@),
        Answer::Refused(line)@ == AnswerView::Refused(line@),
        Step::Skip@ == StepView::Skip,
        (Step::Reply { line, disconnect: flag })@ == (StepView::Reply {
            line: line@,
            disconnect: flag,
        }),
        (Step::Lock { key, raw })@ == (StepView::Lock { key: key@, raw: raw@ }),
        (Step::Send { task, line, reconnect: flag })@ == (StepView::Send {
            task: task@,
            line: line@,
            reconnect: flag,
        }),
        Step::Fail(fault)@ == StepView::Fail(fault@),
        (Task::FusedNative { action: json, observe: other })@ == (TaskView::FusedNative {
            action: json@,
            observe: other@,
        }),
        (Task::FusedAction { observe: other })@ == (TaskView::FusedAction { observe: other@ }),
        (Task::FusedObserve { action: json, raw, first })@ == (TaskView::FusedObserve {
            action: json@,
            raw: raw@,
            first: optional_string(first),
        }),
        (Task::Observation { key, raw, first })@ == (TaskView::Observation {
            key: key@,
            raw: raw@,
            first: optional_string(first),
        }),
{
}

} // verus!
