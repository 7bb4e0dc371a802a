//! Resident control channel: one JSON request per line in, one JSON response per line out, over one
//! connection for each session.

use std::path::PathBuf;
use vstd::prelude::*;
use vstd::utf8::{decode_utf8, encode_utf8, is_ascii_chars, valid_utf8};
use crate::fast_transport::{
    command_line, effective_namespace, is_one_line, is_plain_namespace,
    law_one_key_per_namespace_and_session, response_view, session_key, tries_again,
    undecided, unsent, ChannelFailure, FailureStage, FailureView, SendOutcome, SendOutcomeView,
    SessionKey, SessionKeyView, MAX_REQUEST_BYTES, MAX_RESPONSE_BYTES,
};
use crate::json::{
    get_member, json_text, lemma_member_push, member, members_view, no_members, optional_string,
    optional_text, parsed_json, Fields, Json, JsonView, NumberView,
};
use crate::path::{
    is_plain_name, is_verbatim, on_windows, path_bytes, path_view, slashed, text_of_path, PathView,
};
use crate::registry::Registry;
use crate::session::{
    is_file_safe, is_namespace_path, is_session_name, is_slug, is_valid_session, namespaced_dir,
    namespaced_parts, namespaced_socket_dir, sanitize_component, sanitized,
};
use crate::text::{
    char_is_whitespace, decimal, decimal_text, is_blank, is_blank_text, join3,
    law_trailing_space_is_cut, same, trim_end, without_trailing_space,
};

verus! {

/// The schema of responses.
pub const SCHEMA_VERSION: &'static str = "agent.browser.fast-channel/v1";

/// The timeout of a request that names none, in milliseconds.
pub const DEFAULT_TIMEOUT_MS: u64 = 30_000;

/// The longest timeout, in milliseconds.
pub const MAX_TIMEOUT_MS: u64 = 600_000;

// ---------------------------------------------------------------------------
// Requests
// ---------------------------------------------------------------------------

/// A request, with the defaults filled in.
#[derive(Debug)]
pub struct ChannelRequest {
    pub id: Json,
    pub session: String,
    pub namespace: Option<String>,
    pub timeout_ms: u64,
    pub operation: Option<String>,
    pub command: Option<Json>,
}

/// The session of a request that names none.
pub fn default_session() -> (session: String)
    ensures
        session@ == "default"@,
{
    "default".to_owned()
}

/// The timeout of a request that names none, in milliseconds.
pub fn default_timeout_ms() -> (timeout: u64)
    ensures
        timeout == DEFAULT_TIMEOUT_MS,
{
    DEFAULT_TIMEOUT_MS
}

impl ChannelRequest {
    /// A request that names nothing: all defaults are filled in.
    pub fn unset() -> (request: ChannelRequest)
        ensures
            request@ == (RequestView {
                id: JsonView::Null,
                session: "default"@,
                namespace: None,
                timeout_ms: DEFAULT_TIMEOUT_MS,
                operation: None,
                command: None,
            }),
    {
        ChannelRequest {
            id: Json::Null,
            session: default_session(),
            namespace: None,
            timeout_ms: default_timeout_ms(),
            operation: None,
            command: None,
        }
    }
}

/// The model of a request.
#[verifier::ext_equal]
pub struct RequestView {
    pub id: JsonView,
    pub session: Seq<char>,
    pub namespace: Option<Seq<char>>,
    pub timeout_ms: u64,
    pub operation: Option<Seq<char>>,
    pub command: Option<JsonView>,
}

impl View for ChannelRequest {
    type V = RequestView;

    open spec fn view(&self) -> RequestView {
        RequestView {
            id: self.id@,
            session: self.session@,
            namespace: optional_string(self.namespace),
            timeout_ms: self.timeout_ms,
            operation: optional_string(self.operation),
            command: match self.command {
                Some(json) => Some(json@),
                None => None,
            },
        }
    }
}

// ---------------------------------------------------------------------------
// Sessions
// ---------------------------------------------------------------------------

/// The directory name that a namespace gets.
pub fn sanitize_session_component(value: &str) -> (output: String)
    ensures
        output@ == sanitized(value@),
        is_ascii_chars(value@) ==> is_slug(output@),
        is_slug(value@) ==> output@ == value@,
{
    sanitize_component(value)
}

/// The directory of sockets of a namespace below `base`.
pub fn apply_namespace(base: PathBuf, namespace: Option<&str>) -> (dir: PathBuf)
    ensures
        path_view(dir) == namespaced_dir(path_view(base), optional_text(namespace)),
        path_view(dir).parts() == namespaced_parts(path_view(base), optional_text(namespace)),
        match namespace {
            Some(name) => {
                &&& !on_windows(base) && name@.len() > 0 ==> path_bytes(dir) == slashed(
                    slashed(slashed(path_bytes(base), "namespaces"@), name@),
                    "run"@,
                )
                &&& is_plain_name(name@) && !is_verbatim(path_view(base)) ==> is_namespace_path(
                    path_bytes(base),
                    name@,
                    path_bytes(dir),
                )
            },
            None => true,
        },
{
    namespaced_socket_dir(base, namespace)
}

/// What is wrong with a name that no session may have.
pub open spec fn bad_session_message(session: Seq<char>) -> Seq<char> {
    "invalid session name '"@ + session
        + "'; use only alphanumeric characters, hyphens, and underscores"@
}

/// Whether `session` may name a session, and what is wrong if it may not.
pub fn validate_session(session: &str) -> (result: Result<(), String>)
    ensures
        match result {
            Ok(_) => is_session_name(session@) && is_file_safe(session@),
            Err(message) => !is_session_name(session@) && message@ == bad_session_message(session@),
        },
{
    if is_valid_session(session) {
        Ok(())
    } else {
        Err(
            join3(
                "invalid session name '",
                session,
                "'; use only alphanumeric characters, hyphens, and underscores",
            ),
        )
    }
}

/// The daemon that a request is for.
#[derive(Debug)]
pub struct ChannelKey {
    pub address: SessionKey,
}

impl ChannelKey {
    /// The key of a session in a namespace below the directory `base`.
    pub fn new(session: &str, namespace: Option<&str>, base: &PathBuf) -> (result: Result<
        ChannelKey,
        String,
    >)
        ensures
            match result {
                Ok(key) => {
                    &&& is_session_name(session@)
                    &&& key.address@ == session_key(
                        session@,
                        optional_text(namespace),
                        path_view(*base),
                    )
                    &&& key.address.dir() == namespaced_dir(
                        path_view(*base),
                        effective_namespace(optional_text(namespace)),
                    )
                },
                Err(message) => !is_session_name(session@) && message@ == bad_session_message(
                    session@,
                ),
            },
            match (result, namespace) {
                (Ok(key), Some(name)) => {
                    &&& is_plain_name(sanitized(name@)) && !is_verbatim(path_view(*base))
                        ==> is_namespace_path(
                        path_bytes(*base),
                        sanitized(name@),
                        key.address.dir().bytes,
                    )
                    &&& !on_windows(*base) && sanitized(name@).len() > 0
                        ==> key.address.dir().bytes == slashed(
                        slashed(slashed(path_bytes(*base), "namespaces"@), sanitized(name@)),
                        "run"@,
                    )
                    &&& is_ascii_chars(name@) && sanitized(name@).len() > 0 ==> is_plain_name(
                        sanitized(name@),
                    )
                },
                _ => true,
            },
    {
        match validate_session(session) {
            Ok(_) => {},
            Err(message) => {
                return Err(message);
            },
        }
        match SessionKey::new(session, namespace, base) {
            Ok(address) => Ok(ChannelKey { address }),
            Err(failure) => Err(failure.message),
        }
    }
}

// ---------------------------------------------------------------------------
// One command over one connection
// ---------------------------------------------------------------------------

/// How far a command over one connection has come.
#[derive(Debug, Clone, Copy, PartialEq, Eq, Structural)]
pub enum ChannelStage {
    SettingReadTimeout,
    SettingWriteTimeout,
    Writing,
    Flushing,
    Reading,
}

/// A command that is under way over one connection.
pub struct PersistentChannel {
    pub stage: ChannelStage,
    pub command: Json,
}

/// What to do with the connection.
#[derive(Debug, PartialEq, Eq)]
pub enum ChannelOperation {
    SetReadTimeout,
    SetWriteTimeout,
    /// Write these bytes.
    Write(Vec<u8>),
    Flush,
    /// Read a line of text; an empty text means that the daemon closed the connection.
    ReadLine,
}

/// What comes next.
pub enum ChannelStep {
    /// Do this, and report how it went.
    Perform(PersistentChannel, ChannelOperation),
    /// The exchange is over.
    Done(Result<Json, ChannelFailure>),
}

/// The model of an operation.
#[verifier::ext_equal]
pub enum ChannelOperationView {
    SetReadTimeout,
    SetWriteTimeout,
    Write(Seq<u8>),
    Flush,
    ReadLine,
}

/// The model of a step.
#[verifier::ext_equal]
pub enum ChannelStepView {
    Perform(ChannelStage, ChannelOperationView),
    Done(Result<JsonView, FailureView>),
}

impl View for ChannelOperation {
    type V = ChannelOperationView;

    open spec fn view(&self) -> ChannelOperationView {
        match self {
            ChannelOperation::SetReadTimeout => ChannelOperationView::SetReadTimeout,
            ChannelOperation::SetWriteTimeout => ChannelOperationView::SetWriteTimeout,
            ChannelOperation::Write(bytes) => ChannelOperationView::Write(bytes@),
            ChannelOperation::Flush => ChannelOperationView::Flush,
            ChannelOperation::ReadLine => ChannelOperationView::ReadLine,
        }
    }
}

impl View for ChannelStep {
    type V = ChannelStepView;

    open spec fn view(&self) -> ChannelStepView {
        match self {
            ChannelStep::Perform(channel, operation) => ChannelStepView::Perform(
                channel.stage,
                operation@,
            ),
            ChannelStep::Done(Ok(json)) => ChannelStepView::Done(Ok(json@)),
            ChannelStep::Done(Err(failure)) => ChannelStepView::Done(Err(failure@)),
        }
    }
}

/// The model of how an operation went.
pub open spec fn line_outcome(outcome: Result<String, String>) -> Result<Seq<char>, Seq<char>> {
    match outcome {
        Ok(text) => Ok(text@),
        Err(message) => Err(message@),
    }
}

/// What the text of a response means.
pub open spec fn received_line(text: Seq<char>) -> Result<JsonView, FailureView> {
    if text.len() == 0 {
        Err(undecided("daemon closed the persistent channel before responding"@))
    } else if encode_utf8(text).len() > MAX_RESPONSE_BYTES {
        Err(undecided("daemon response exceeded the 32 MiB channel limit"@))
    } else {
        match parsed_json(without_trailing_space(text)) {
            Ok(json) => Ok(json),
            Err(error) => Err(undecided("daemon returned invalid JSON: "@ + error)),
        }
    }
}

/// What follows an operation. Before the command is written, a failure leaves it unsent; from then
/// on every failure leaves its delivery unknown.
pub open spec fn channel_step(
    stage: ChannelStage,
    command: JsonView,
    outcome: Result<Seq<char>, Seq<char>>,
) -> ChannelStepView {
    match (stage, outcome) {
        (ChannelStage::SettingReadTimeout, Err(error)) => ChannelStepView::Done(
            Err(unsent("failed to set daemon read timeout: "@ + error)),
        ),
        (ChannelStage::SettingReadTimeout, Ok(_)) => ChannelStepView::Perform(
            ChannelStage::SettingWriteTimeout,
            ChannelOperationView::SetWriteTimeout,
        ),
        (ChannelStage::SettingWriteTimeout, Err(error)) => ChannelStepView::Done(
            Err(unsent("failed to set daemon write timeout: "@ + error)),
        ),
        (ChannelStage::SettingWriteTimeout, Ok(_)) => ChannelStepView::Perform(
            ChannelStage::Writing,
            ChannelOperationView::Write(command_line(command)),
        ),
        (ChannelStage::Writing, Err(error)) => ChannelStepView::Done(
            Err(undecided("failed to write daemon command: "@ + error)),
        ),
        (ChannelStage::Writing, Ok(_)) => ChannelStepView::Perform(
            ChannelStage::Flushing,
            ChannelOperationView::Flush,
        ),
        (ChannelStage::Flushing, Err(error)) => ChannelStepView::Done(
            Err(undecided("failed to flush daemon command: "@ + error)),
        ),
        (ChannelStage::Flushing, Ok(_)) => ChannelStepView::Perform(
            ChannelStage::Reading,
            ChannelOperationView::ReadLine,
        ),
        (ChannelStage::Reading, Err(error)) => ChannelStepView::Done(
            Err(undecided("failed to read daemon response: "@ + error)),
        ),
        (ChannelStage::Reading, Ok(text)) => ChannelStepView::Done(received_line(text)),
    }
}

/// A failure of one stage: its words are `cause` and then `error`.
fn failed(stage: FailureStage, cause: &str, error: &str) -> (step: ChannelStep)
    ensures
        step@ == ChannelStepView::Done(Err(FailureView { stage, message: cause@ + error@ })),
{
    let mut message = cause.to_owned();
    message.append(error);
    ChannelStep::Done(Err(ChannelFailure { stage, message }))
}

/// What the text of a response means.
pub fn read_response(text: &str) -> (result: Result<Json, ChannelFailure>)
    ensures
        match result {
            Ok(json) => received_line(text@) == Ok::<JsonView, FailureView>(json@),
            Err(failure) => received_line(text@) == Err::<JsonView, FailureView>(failure@),
        },
{
    if text.is_empty() {
        return Err(
            ChannelFailure::delivery_unknown(
                "daemon closed the persistent channel before responding",
            ),
        );
    }
    if text.as_bytes().len() > MAX_RESPONSE_BYTES {
        return Err(
            ChannelFailure::delivery_unknown("daemon response exceeded the 32 MiB channel limit"),
        );
    }
    match Json::parse(trim_end(text).as_str()) {
        Ok(json) => Ok(json),
        Err(error) => {
            let mut message = "daemon returned invalid JSON: ".to_owned();
            message.append(error.as_str());
            Err(ChannelFailure { stage: FailureStage::DeliveryUnknown, message })
        },
    }
}

impl PersistentChannel {
    /// Starts a command over a connection; the first operation is to set the read timeout.
    pub fn start(command: Json) -> (channel: PersistentChannel)
        ensures
            channel.stage == ChannelStage::SettingReadTimeout,
            channel.command@ == command@,
    {
        PersistentChannel { stage: ChannelStage::SettingReadTimeout, command }
    }

    /// What follows the last operation. Bytes that are to be written are one line.
    pub fn advance(self, outcome: Result<String, String>) -> (step: ChannelStep)
        ensures
            step@ == channel_step(self.stage, self.command@, line_outcome(outcome)),
            step matches ChannelStep::Perform(next, _) ==> next.command@ == self.command@,
            step matches ChannelStep::Perform(_, ChannelOperation::Write(line)) ==> is_one_line(
                line@,
            ),
    {
        match (self.stage, outcome) {
            (ChannelStage::SettingReadTimeout, Err(error)) => failed(
                FailureStage::BeforeSend,
                "failed to set daemon read timeout: ",
                error.as_str(),
            ),
            (ChannelStage::SettingReadTimeout, Ok(_)) => ChannelStep::Perform(
                PersistentChannel {
                    stage: ChannelStage::SettingWriteTimeout,
                    command: self.command,
                },
                ChannelOperation::SetWriteTimeout,
            ),
            (ChannelStage::SettingWriteTimeout, Err(error)) => failed(
                FailureStage::BeforeSend,
                "failed to set daemon write timeout: ",
                error.as_str(),
            ),
            (ChannelStage::SettingWriteTimeout, Ok(_)) => {
                match self.command.to_bytes() {
                    Err(error) => failed(
                        FailureStage::BeforeSend,
                        "failed to encode daemon command: ",
                        error.as_str(),
                    ),
                    Ok(payload) => {
                        let mut line = payload;
                        line.push(10);
                        ChannelStep::Perform(
                            PersistentChannel {
                                stage: ChannelStage::Writing,
                                command: self.command,
                            },
                            ChannelOperation::Write(line),
                        )
                    },
                }
            },
            (ChannelStage::Writing, Err(error)) => failed(
                FailureStage::DeliveryUnknown,
                "failed to write daemon command: ",
                error.as_str(),
            ),
            (ChannelStage::Writing, Ok(_)) => ChannelStep::Perform(
                PersistentChannel { stage: ChannelStage::Flushing, command: self.command },
                ChannelOperation::Flush,
            ),
            (ChannelStage::Flushing, Err(error)) => failed(
                FailureStage::DeliveryUnknown,
                "failed to flush daemon command: ",
                error.as_str(),
            ),
            (ChannelStage::Flushing, Ok(_)) => ChannelStep::Perform(
                PersistentChannel { stage: ChannelStage::Reading, command: self.command },
                ChannelOperation::ReadLine,
            ),
            (ChannelStage::Reading, Err(error)) => failed(
                FailureStage::DeliveryUnknown,
                "failed to read daemon response: ",
                error.as_str(),
            ),
            (ChannelStage::Reading, Ok(text)) => ChannelStep::Done(read_response(text.as_str())),
        }
    }
}

/// What an exchange has done by the time its operations went as `outcomes` says: how often it wrote
/// to the connection, and its result once it is over.
pub struct ChannelRun {
    pub writes: nat,
    pub result: Option<Result<JsonView, FailureView>>,
}

/// The run of an exchange from `stage` on.
pub open spec fn channel_run(
    stage: ChannelStage,
    command: JsonView,
    outcomes: Seq<Result<Seq<char>, Seq<char>>>,
) -> ChannelRun
    decreases outcomes.len(),
{
    if outcomes.len() == 0 {
        ChannelRun { writes: 0, result: None }
    } else {
        match channel_step(stage, command, outcomes[0]) {
            ChannelStepView::Done(result) => ChannelRun { writes: 0, result: Some(result) },
            ChannelStepView::Perform(next, operation) => {
                let rest = channel_run(next, command, outcomes.drop_first());
                ChannelRun {
                    writes: rest.writes + if operation is Write {
                        1nat
                    } else {
                        0nat
                    },
                    result: rest.result,
                }
            },
        }
    }
}

/// Whatever happens, an exchange writes its command at most once; a failure that counts as unsent
/// comes without any write, and every other end comes after the one write.
pub proof fn law_channel_writes_at_most_once(
    command: JsonView,
    outcomes: Seq<Result<Seq<char>, Seq<char>>>,
)
    ensures
        ({
            let run = channel_run(ChannelStage::SettingReadTimeout, command, outcomes);
            &&& run.writes <= 1
            &&& run.result matches Some(result) ==> (run.writes == 0 <==> (result matches Err(
                failure,
            ) && failure.stage == FailureStage::BeforeSend))
        }),
{
    reveal_with_fuel(channel_run, 7);
}

/// What went wrong when the daemon at `place` did not answer.
pub open spec fn unreachable_message(place: Seq<char>, error: Seq<char>) -> Seq<char> {
    "failed to connect to agent-browser daemon at "@ + place + ": "@ + error
        + "; establish the session once with the normal agent-browser CLI"@
}

/// What went wrong when the daemon at `place` did not answer.
pub fn connect_error(place: &str, error: &str) -> (message: String)
    ensures
        message@ == unreachable_message(place@, error@),
{
    let mut message = "failed to connect to agent-browser daemon at ".to_owned();
    message.append(place);
    message.append(": ");
    message.append(error);
    message.append("; establish the session once with the normal agent-browser CLI");
    message
}

// ---------------------------------------------------------------------------
// The pool of connections
// ---------------------------------------------------------------------------

/// Why a command got no response, and how it was carried.
#[derive(Debug)]
pub struct SendFailure {
    pub message: String,
    pub reused_connection: bool,
    pub reconnected: bool,
}

/// The model of a failed send.
#[verifier::ext_equal]
pub struct SendFailureView {
    pub message: Seq<char>,
    pub reused_connection: bool,
    pub reconnected: bool,
}

impl View for SendFailure {
    type V = SendFailureView;

    open spec fn view(&self) -> SendFailureView {
        SendFailureView {
            message: self.message@,
            reused_connection: self.reused_connection,
            reconnected: self.reconnected,
        }
    }
}

/// A send that waits for a connection to the daemon of `key`.
pub struct ConnectTicket {
    pub key: ChannelKey,
    /// What went wrong with the first attempt, if one was made.
    pub first_error: Option<String>,
}

/// A send whose command is under way over a connection to the daemon of `key`.
pub struct ExchangeTicket {
    pub key: ChannelKey,
    /// Whether the connection was open before.
    pub reused: bool,
    /// What went wrong with the first attempt, if this is the second.
    pub first_error: Option<String>,
}

/// What comes next in a send over connections of type `C`.
pub enum SendStep<C> {
    /// Connect to the daemon, and report how it went.
    Connect(ConnectTicket),
    /// Run the command over this connection, and report how it went.
    Exchange(ExchangeTicket, C),
    /// The send is over.
    Done(Result<SendOutcome, SendFailure>),
}

/// The model of a step.
#[verifier::ext_equal]
pub enum SendStepView<C> {
    Connect { key: SessionKeyView, dir: PathView, first_error: Option<Seq<char>> },
    Exchange {
        key: SessionKeyView,
        dir: PathView,
        reused: bool,
        first_error: Option<Seq<char>>,
        connection: C,
    },
    Done(Result<SendOutcomeView, SendFailureView>),
}

/// The model of the result of a send.
pub open spec fn send_result_view(result: Result<SendOutcome, SendFailure>) -> Result<
    SendOutcomeView,
    SendFailureView,
> {
    match result {
        Ok(outcome) => Ok(outcome@),
        Err(failure) => Err(failure@),
    }
}

impl<C> View for SendStep<C> {
    type V = SendStepView<C>;

    open spec fn view(&self) -> SendStepView<C> {
        match self {
            SendStep::Connect(ticket) => SendStepView::Connect {
                key: ticket.key.address@,
                dir: ticket.key.address.dir(),
                first_error: optional_string(ticket.first_error),
            },
            SendStep::Exchange(ticket, connection) => SendStepView::Exchange {
                key: ticket.key.address@,
                dir: ticket.key.address.dir(),
                reused: ticket.reused,
                first_error: optional_string(ticket.first_error),
                connection: *connection,
            },
            SendStep::Done(result) => SendStepView::Done(send_result_view(*result)),
        }
    }
}

/// The words of an error that ended a send, with those of the first attempt where there was one.
pub open spec fn both_errors(
    first_error: Option<Seq<char>>,
    what: Seq<char>,
    error: Seq<char>,
) -> Seq<char> {
    match first_error {
        None => error,
        Some(first) => "persistent channel failed ("@ + first + "); "@ + what + " failed ("@ + error
            + ")"@,
    }
}

/// The words of an error that ended a send.
fn combine_errors(first_error: Option<String>, what: &str, error: String) -> (message: String)
    ensures
        message@ == both_errors(optional_string(first_error), what@, error@),
{
    match first_error {
        None => error,
        Some(first) => {
            let mut message = "persistent channel failed (".to_owned();
            message.append(first.as_str());
            message.append("); ");
            message.append(what);
            message.append(" failed (");
            message.append(error.as_str());
            message.append(")");
            message
        },
    }
}

/// What a send does first: it uses the open connection, or connects.
pub open spec fn first_send_step<C>(
    pool: Map<SessionKeyView, C>,
    key: SessionKeyView,
    dir: PathView,
) -> SendStepView<C> {
    if pool.contains_key(key) {
        SendStepView::Exchange { key, dir, reused: true, first_error: None, connection: pool[key] }
    } else {
        SendStepView::Connect { key, dir, first_error: None }
    }
}

/// What a send does after connecting.
pub open spec fn after_connect<C>(
    key: SessionKeyView,
    dir: PathView,
    first_error: Option<Seq<char>>,
    result: Result<C, Seq<char>>,
) -> SendStepView<C> {
    match result {
        Ok(connection) => SendStepView::Exchange {
            key,
            dir,
            reused: false,
            first_error,
            connection,
        },
        Err(error) => SendStepView::Done(
            Err(
                SendFailureView {
                    message: both_errors(first_error, "reconnect"@, error),
                    reused_connection: false,
                    reconnected: false,
                },
            ),
        ),
    }
}

/// The model of how connecting went.
pub open spec fn connection_view<C>(result: Result<C, String>) -> Result<C, Seq<char>> {
    match result {
        Ok(connection) => Ok(connection),
        Err(error) => Err(error@),
    }
}

/// What a send does after the command was run over a connection.
pub open spec fn after_exchange<C>(
    key: SessionKeyView,
    dir: PathView,
    reused: bool,
    first_error: Option<Seq<char>>,
    transport: Seq<char>,
    result: Result<JsonView, FailureView>,
) -> SendStepView<C> {
    match result {
        Ok(response) => SendStepView::Done(
            Ok(
                SendOutcomeView {
                    response,
                    transport,
                    reused_connection: reused,
                    reconnected: first_error is Some,
                },
            ),
        ),
        Err(failure) => if tries_again(first_error is Some, result) {
            SendStepView::Connect { key, dir, first_error: Some(failure.message) }
        } else {
            SendStepView::Done(
                Err(
                    SendFailureView {
                        message: both_errors(first_error, "retry"@, failure.message),
                        reused_connection: reused,
                        reconnected: first_error is Some,
                    },
                ),
            )
        },
    }
}

/// One connection of type `C` for each session.
pub struct ChannelPool<C> {
    pub channels: Registry<SessionKey, C>,
}

impl<C> View for ChannelPool<C> {
    type V = Map<SessionKeyView, C>;

    open spec fn view(&self) -> Map<SessionKeyView, C> {
        self.channels@
    }
}

impl<C> ChannelPool<C> {
    /// No connections.
    pub fn new() -> (pool: ChannelPool<C>)
        ensures
            pool@ == Map::<SessionKeyView, C>::empty(),
    {
        ChannelPool { channels: Registry::new() }
    }

    /// Whether a connection to the daemon of `key` is open.
    pub fn contains(&self, key: &ChannelKey) -> (answer: bool)
        ensures
            answer == self@.contains_key(key.address@),
    {
        self.channels.contains(&key.address)
    }

    /// Drops the connection to the daemon of `key`, and says whether one was open.
    pub fn close(&mut self, key: &ChannelKey) -> (closed: bool)
        ensures
            closed == old(self)@.contains_key(key.address@),
            final(self)@ == old(self)@.remove(key.address@),
    {
        self.channels.take(&key.address).is_some()
    }

    /// Starts to send a command to the daemon of `key`: over the open connection, which leaves the
    /// pool while the command is under way, or over a new one.
    pub fn send(&mut self, key: ChannelKey) -> (step: SendStep<C>)
        ensures
            final(self)@ == old(self)@.remove(key.address@),
            step@ == first_send_step(old(self)@, key.address@, key.address.dir()),
    {
        match self.channels.take(&key.address) {
            Some(connection) => SendStep::Exchange(
                ExchangeTicket { key, reused: true, first_error: None },
                connection,
            ),
            None => SendStep::Connect(ConnectTicket { key, first_error: None }),
        }
    }

    /// Goes on after connecting: with a connection the command is run, an error ends the send.
    pub fn connected(&mut self, ticket: ConnectTicket, result: Result<C, String>) -> (step:
        SendStep<C>)
        ensures
            final(self)@ == old(self)@,
            step@ == after_connect(
                ticket.key.address@,
                ticket.key.address.dir(),
                optional_string(ticket.first_error),
                connection_view(result),
            ),
    {
        match result {
            Ok(connection) => SendStep::Exchange(
                ExchangeTicket { key: ticket.key, reused: false, first_error: ticket.first_error },
                connection,
            ),
            Err(error) => SendStep::Done(
                Err(
                    SendFailure {
                        message: combine_errors(ticket.first_error, "reconnect", error),
                        reused_connection: false,
                        reconnected: false,
                    },
                ),
            ),
        }
    }

    /// Goes on after the command was run over `connection`. With a response the connection stays in
    /// the pool. A connection that failed is dropped; where the command is unsent, a first failure
    /// is followed by one new connection, and any other failure ends the send.
    pub fn exchanged(
        &mut self,
        ticket: ExchangeTicket,
        connection: C,
        transport: &'static str,
        result: Result<Json, ChannelFailure>,
    ) -> (step: SendStep<C>)
        ensures
            final(self)@ == if result is Ok {
                old(self)@.insert(ticket.key.address@, connection)
            } else {
                old(self)@
            },
            step@ == after_exchange::<C>(
                ticket.key.address@,
                ticket.key.address.dir(),
                ticket.reused,
                optional_string(ticket.first_error),
                transport@,
                response_view(result),
            ),
    {
        match result {
            Ok(response) => {
                let reconnected: bool = ticket.first_error.is_some();
                self.channels.put(ticket.key.address, connection);
                SendStep::Done(
                    Ok(
                        SendOutcome {
                            response,
                            transport,
                            reused_connection: ticket.reused,
                            reconnected,
                        },
                    ),
                )
            },
            Err(failure) => {
                let reconnected: bool = ticket.first_error.is_some();
                if !reconnected && failure.stage == FailureStage::BeforeSend {
                    SendStep::Connect(
                        ConnectTicket { key: ticket.key, first_error: Some(failure.message) },
                    )
                } else {
                    SendStep::Done(
                        Err(
                            SendFailure {
                                message: combine_errors(
                                    ticket.first_error,
                                    "retry",
                                    failure.message,
                                ),
                                reused_connection: ticket.reused,
                                reconnected,
                            },
                        ),
                    )
                }
            },
        }
    }
}

/// What is reported to a send.
pub enum SendEvent<C> {
    /// How connecting went.
    Connected(Result<C, Seq<char>>),
    /// How the operations of an exchange went, over a connection of this transport.
    Exchanged(Seq<char>, Seq<Result<Seq<char>, Seq<char>>>),
}

/// What a send has done by some time: how often it wrote its command, over how many connections it
/// tried to, and its result once it is over.
pub struct SendRun {
    pub writes: nat,
    pub exchanges: nat,
    pub result: Option<Result<SendOutcomeView, SendFailureView>>,
}

/// The run of a send of `command` from `step` on, while `events` are reported to it. It stands
/// still where an event does not answer its step or an exchange is not over.
pub open spec fn send_run<C>(
    step: SendStepView<C>,
    command: JsonView,
    events: Seq<SendEvent<C>>,
) -> SendRun
    decreases events.len(),
{
    match step {
        SendStepView::Done(result) => SendRun { writes: 0, exchanges: 0, result: Some(result) },
        SendStepView::Connect { key, dir, first_error } => if events.len() > 0
            && events[0] is Connected {
            send_run(
                after_connect(key, dir, first_error, events[0]->Connected_0),
                command,
                events.drop_first(),
            )
        } else {
            SendRun { writes: 0, exchanges: 0, result: None }
        },
        SendStepView::Exchange { key, dir, reused, first_error, connection } => if events.len() > 0
            && events[0] is Exchanged {
            let transport = events[0]->Exchanged_0;
            let run = channel_run(
                ChannelStage::SettingReadTimeout,
                command,
                events[0]->Exchanged_1,
            );
            match run.result {
                Some(result) => {
                    let rest = send_run(
                        after_exchange::<C>(key, dir, reused, first_error, transport, result),
                        command,
                        events.drop_first(),
                    );
                    SendRun {
                        writes: run.writes + rest.writes,
                        exchanges: 1 + rest.exchanges,
                        result: rest.result,
                    }
                },
                None => SendRun { writes: run.writes, exchanges: 1, result: None },
            }
        } else {
            SendRun { writes: 0, exchanges: 0, result: None }
        },
    }
}

/// How many more connections a send may run its command over.
spec fn exchanges_left<C>(step: SendStepView<C>) -> nat {
    match step {
        SendStepView::Done(_) => 0,
        SendStepView::Connect { first_error, .. } => if first_error is Some {
            1
        } else {
            2
        },
        SendStepView::Exchange { first_error, .. } => if first_error is Some {
            1
        } else {
            2
        },
    }
}

/// What holds of the run of a send from any step on.
proof fn lemma_send_run<C>(step: SendStepView<C>, command: JsonView, events: Seq<SendEvent<C>>)
    ensures
        ({
            let run = send_run(step, command, events);
            &&& run.writes <= 1
            &&& run.exchanges <= exchanges_left(step)
            &&& step is Done ==> run.writes == 0
            &&& !(step is Done) ==> (run.result matches Some(Ok(_)) ==> run.writes == 1)
        }),
    decreases events.len(),
{
    match step {
        SendStepView::Done(_) => {},
        SendStepView::Connect { key, dir, first_error } => if events.len() > 0
            && events[0] is Connected {
            lemma_send_run(
                after_connect(key, dir, first_error, events[0]->Connected_0),
                command,
                events.drop_first(),
            );
        },
        SendStepView::Exchange { key, dir, reused, first_error, .. } => if events.len() > 0
            && events[0] is Exchanged {
            let transport = events[0]->Exchanged_0;
            let outcomes = events[0]->Exchanged_1;
            let run = channel_run(ChannelStage::SettingReadTimeout, command, outcomes);
            law_channel_writes_at_most_once(command, outcomes);
            if run.result is Some {
                lemma_send_run(
                    after_exchange::<C>(key, dir, reused, first_error, transport, run.result->0),
                    command,
                    events.drop_first(),
                );
            }
        },
    }
}

/// There is one connection for each namespace and session: a connection that is kept for one of
/// them carries the next command exactly where that names the same session and its namespace counts
/// as the same. Elsewhere than on Windows this asks that the directories of the namespaces are
/// plain names, as those of namespaces in ASCII are.
pub proof fn law_one_connection_per_namespace_and_session<C>(
    pool: Map<SessionKeyView, C>,
    connection: C,
    base: PathView,
    session: Seq<char>,
    namespace: Option<Seq<char>>,
    next_session: Seq<char>,
    next_namespace: Option<Seq<char>>,
)
    requires
        base.windows || is_plain_namespace(namespace) && is_plain_namespace(next_namespace),
    ensures
        ({
            let key = session_key(session, namespace, base);
            let next = session_key(next_session, next_namespace, base);
            let dir = namespaced_dir(base, effective_namespace(next_namespace));
            let kept = pool.remove(next).insert(key, connection);
            let step = first_send_step(kept, next, dir);
            if session == next_session && effective_namespace(namespace) == effective_namespace(
                next_namespace,
            ) {
                step == SendStepView::Exchange {
                    key: next,
                    dir,
                    reused: true,
                    first_error: None,
                    connection,
                }
            } else {
                step == SendStepView::<C>::Connect { key: next, dir, first_error: None }
            }
        }),
{
    law_one_key_per_namespace_and_session(
        base,
        session,
        namespace,
        next_session,
        next_namespace,
    );
}

/// The channel never replays a command blindly: whatever connections a pool holds and whatever
/// happens on them, a send writes its command at most once, over at most two connections, and it
/// has written the command where it ends with a response.
pub proof fn law_send_delivers_at_most_once<C>(
    pool: Map<SessionKeyView, C>,
    key: SessionKeyView,
    dir: PathView,
    command: JsonView,
    events: Seq<SendEvent<C>>,
)
    ensures
        ({
            let run = send_run(first_send_step(pool, key, dir), command, events);
            &&& run.writes <= 1
            &&& run.exchanges <= 2
            &&& run.result matches Some(Ok(_)) ==> run.writes == 1
        }),
{
    lemma_send_run(first_send_step(pool, key, dir), command, events);
}

// ---------------------------------------------------------------------------
// Responses
// ---------------------------------------------------------------------------

/// A response that still lacks its timing.
#[derive(Debug)]
pub enum Reply {
    /// The result of an operation that did not involve the daemon.
    Success { id: Json, result: Json },
    /// An error, and how the command was carried if it was.
    Failure { id: Json, error: String, reused_connection: bool, reconnected: bool },
    /// The response of the daemon to a command of `session`.
    Delivered { id: Json, session: String, outcome: SendOutcome },
}

/// The model of a reply.
#[verifier::ext_equal]
pub enum ReplyView {
    Success { id: JsonView, result: JsonView },
    Failure { id: JsonView, error: Seq<char>, reused_connection: bool, reconnected: bool },
    Delivered { id: JsonView, session: Seq<char>, outcome: SendOutcomeView },
}

impl View for Reply {
    type V = ReplyView;

    open spec fn view(&self) -> ReplyView {
        match self {
            Reply::Success { id, result } => ReplyView::Success { id: id@, result: result@ },
            Reply::Failure { id, error, reused_connection, reconnected } => ReplyView::Failure {
                id: id@,
                error: error@,
                reused_connection: *reused_connection,
                reconnected: *reconnected,
            },
            Reply::Delivered { id, session, outcome } => ReplyView::Delivered {
                id: id@,
                session: session@,
                outcome: outcome@,
            },
        }
    }
}

/// An error that came before any command was carried.
pub open spec fn refusal(id: JsonView, error: Seq<char>) -> ReplyView {
    ReplyView::Failure { id, error, reused_connection: false, reconnected: false }
}

/// The timing part of a response.
pub open spec fn timing(micros: u64) -> JsonView {
    JsonView::Object(
        no_members().push(("roundTripMicros"@, JsonView::Number(NumberView::Unsigned(micros)))),
    )
}

/// What a response says of the connection.
pub open spec fn connection_report(reused_connection: bool, reconnected: bool) -> JsonView {
    JsonView::Object(
        no_members().push(("reusedConnection"@, JsonView::Bool(reused_connection))).push(
            ("reconnected"@, JsonView::Bool(reconnected)),
        ),
    )
}

/// What every response starts with.
pub open spec fn marked(id: JsonView, ok: bool) -> Seq<(Seq<char>, JsonView)> {
    no_members().push(("schemaVersion"@, JsonView::Text(SCHEMA_VERSION@))).push(("id"@, id)).push(
        ("ok"@, JsonView::Bool(ok)),
    )
}

/// Whether a response of the daemon counts as a success: it does unless it says otherwise.
pub open spec fn daemon_success(response: JsonView) -> bool {
    match response.get("success"@) {
        Some(value) => match value.flag() {
            Some(success) => success,
            None => true,
        },
        None => true,
    }
}

impl ReplyView {
    /// The response, when it took `micros` microseconds.
    pub open spec fn rendered(self, micros: u64) -> JsonView {
        match self {
            ReplyView::Success { id, result } => JsonView::Object(
                marked(id, true).push(("result"@, result)).push(
                    ("channel"@, connection_report(false, false)),
                ).push(("timing"@, timing(micros))),
            ),
            ReplyView::Failure { id, error, reused_connection, reconnected } => JsonView::Object(
                marked(id, false).push(("error"@, JsonView::Text(error))).push(
                    ("channel"@, connection_report(reused_connection, reconnected)),
                ).push(("timing"@, timing(micros))),
            ),
            ReplyView::Delivered { id, session, outcome } => {
                let channel = JsonView::Object(
                    no_members().push(("session"@, JsonView::Text(session))).push(
                        ("transport"@, JsonView::Text(outcome.transport)),
                    ).push(("reusedConnection"@, JsonView::Bool(outcome.reused_connection))).push(
                        ("reconnected"@, JsonView::Bool(outcome.reconnected)),
                    ),
                );
                JsonView::Object(
                    marked(id, daemon_success(outcome.response)).push(
                        ("result"@, outcome.response),
                    ).push(("channel"@, channel)).push(("timing"@, timing(micros))),
                )
            },
        }
    }
}

/// What a response says of the connection.
fn report_connection(reused_connection: bool, reconnected: bool) -> (json: Json)
    ensures
        json@ == connection_report(reused_connection, reconnected),
{
    Fields::new().with("reusedConnection", Json::flag(reused_connection)).with(
        "reconnected",
        Json::flag(reconnected),
    ).done()
}

/// The timing part of a response.
fn report_timing(micros: u64) -> (json: Json)
    ensures
        json@ == timing(micros),
{
    Fields::new().with("roundTripMicros", Json::unsigned(micros)).done()
}

impl Reply {
    /// An error that came before any command was carried.
    pub fn refuse(id: Json, error: &str) -> (reply: Reply)
        ensures
            reply@ == refusal(id@, error@),
    {
        Reply::Failure {
            id,
            error: error.to_owned(),
            reused_connection: false,
            reconnected: false,
        }
    }

    /// The response, when it took `micros` microseconds.
    pub fn render(self, micros: u64) -> (json: Json)
        ensures
            json@ == self@.rendered(micros),
    {
        match self {
            Reply::Success { id, result } => Fields::new().with(
                "schemaVersion",
                Json::text(SCHEMA_VERSION),
            ).with("id", id).with("ok", Json::flag(true)).with("result", result).with(
                "channel",
                report_connection(false, false),
            ).with("timing", report_timing(micros)).done(),
            Reply::Failure { id, error, reused_connection, reconnected } => Fields::new().with(
                "schemaVersion",
                Json::text(SCHEMA_VERSION),
            ).with("id", id).with("ok", Json::flag(false)).with("error", Json::owned(error)).with(
                "channel",
                report_connection(reused_connection, reconnected),
            ).with("timing", report_timing(micros)).done(),
            Reply::Delivered { id, session, outcome } => {
                let ok: bool = match outcome.response.get("success") {
                    Some(value) => match value.as_bool() {
                        Some(success) => success,
                        None => true,
                    },
                    None => true,
                };
                let channel = Fields::new().with("session", Json::owned(session)).with(
                    "transport",
                    Json::text(outcome.transport),
                ).with("reusedConnection", Json::flag(outcome.reused_connection)).with(
                    "reconnected",
                    Json::flag(outcome.reconnected),
                ).done();
                Fields::new().with("schemaVersion", Json::text(SCHEMA_VERSION)).with(
                    "id",
                    id,
                ).with("ok", Json::flag(ok)).with("result", outcome.response).with(
                    "channel",
                    channel,
                ).with("timing", report_timing(micros)).done()
            },
        }
    }
}

// ---------------------------------------------------------------------------
// The server
// ---------------------------------------------------------------------------

/// What tells the commands of one process and moment from others.
#[derive(Debug, Clone, Copy)]
pub struct Caller {
    /// The number of the process.
    pub process: u32,
    /// The time, in microseconds since the start of 1970.
    pub micros: u64,
}

/// A command that is to be sent for a request.
#[derive(Debug)]
pub struct SendContext {
    pub id: Json,
    pub session: String,
    pub timeout_ms: u64,
    pub command: Json,
}

/// The model of a command that is to be sent.
#[verifier::ext_equal]
pub struct SendContextView {
    pub id: JsonView,
    pub session: Seq<char>,
    pub timeout_ms: u64,
    pub command: JsonView,
}

impl View for SendContext {
    type V = SendContextView;

    open spec fn view(&self) -> SendContextView {
        SendContextView {
            id: self.id@,
            session: self.session@,
            timeout_ms: self.timeout_ms,
            command: self.command@,
        }
    }
}

/// What a request leads to.
pub enum HandleStep<C> {
    /// A reply, without any use of a connection.
    Reply(Reply),
    /// A command to send, and the first step of sending it.
    Send(SendContext, SendStep<C>),
}

/// The model of what a request leads to.
#[verifier::ext_equal]
pub enum HandleStepView<C> {
    Reply(ReplyView),
    Send(SendContextView, SendStepView<C>),
}

impl<C> View for HandleStep<C> {
    type V = HandleStepView<C>;

    open spec fn view(&self) -> HandleStepView<C> {
        match self {
            HandleStep::Reply(reply) => HandleStepView::Reply(reply@),
            HandleStep::Send(context, step) => HandleStepView::Send(context@, step@),
        }
    }
}

/// The state of the server after a request, and what the request leads to.
#[verifier::ext_equal]
pub struct Handled<C> {
    pub step: HandleStepView<C>,
    pub pool: Map<SessionKeyView, C>,
    pub sequence: u64,
}

/// The sequence number after `sequence`.
pub open spec fn next_sequence(sequence: u64) -> u64 {
    if sequence == u64::MAX {
        0
    } else {
        (sequence + 1) as u64
    }
}

/// The identifier of the command with this sequence number.
pub open spec fn command_id(caller: Caller, sequence: u64) -> Seq<char> {
    "fast-"@ + decimal(caller.process as nat) + "-"@ + decimal(caller.micros as nat) + "-"@
        + decimal(sequence as nat)
}

/// Whether a request has a timeout that is allowed.
pub open spec fn timeout_allowed(timeout_ms: u64) -> bool {
    1 <= timeout_ms <= MAX_TIMEOUT_MS
}

/// The command that a request asks to send, together with the sequence number from then on. A
/// command that names itself is left as it is; any other gets an identifier.
pub open spec fn prepared_command(
    request: RequestView,
    sequence: u64,
    caller: Caller,
) -> Result<(JsonView, u64), Seq<char>> {
    if !timeout_allowed(request.timeout_ms) {
        Err("timeoutMs must be between 1 and 600000 milliseconds"@)
    } else {
        match request.command {
            None => Err("operation=send requires command"@),
            Some(JsonView::Object(members)) => if !(member(members, "action"@) matches Some(
                JsonView::Text(_),
            )) {
                Err("command.action must be a string"@)
            } else if member(members, "id"@) is Some {
                Ok((JsonView::Object(members), sequence))
            } else {
                let next = next_sequence(sequence);
                Ok(
                    (
                        JsonView::Object(
                            members.push(("id"@, JsonView::Text(command_id(caller, next)))),
                        ),
                        next,
                    ),
                )
            },
            Some(_) => Err("command must be a JSON object"@),
        }
    }
}

/// What a request to send a command leads to.
pub open spec fn send_handled<C>(
    pool: Map<SessionKeyView, C>,
    sequence: u64,
    request: RequestView,
    key: SessionKeyView,
    dir: PathView,
    caller: Caller,
) -> Handled<C> {
    match prepared_command(request, sequence, caller) {
        Err(error) => Handled {
            step: HandleStepView::Reply(refusal(request.id, error)),
            pool,
            sequence,
        },
        Ok((command, next)) => Handled {
            step: HandleStepView::Send(
                SendContextView {
                    id: request.id,
                    session: request.session,
                    timeout_ms: request.timeout_ms,
                    command,
                },
                first_send_step(pool, key, dir),
            ),
            pool: pool.remove(key),
            sequence: next,
        },
    }
}

/// Whether a request can be answered: a status tells the directory of its session, which has to be
/// text.
pub open spec fn is_answerable(request: RequestView, base: PathView) -> bool {
    request.operation == Some("status"@) && is_session_name(request.session) ==> valid_utf8(
        namespaced_dir(base, effective_namespace(request.namespace)).bytes,
    )
}

/// What a request leads to.
pub open spec fn handled<C>(
    pool: Map<SessionKeyView, C>,
    sequence: u64,
    request: RequestView,
    base: PathView,
    caller: Caller,
) -> Handled<C> {
    let key = session_key(request.session, request.namespace, base);
    let dir = namespaced_dir(base, effective_namespace(request.namespace));
    let operation = match request.operation {
        Some(name) => name,
        None => "send"@,
    };
    let session = ("session"@, JsonView::Text(request.session));
    let connected = ("connected"@, JsonView::Bool(pool.contains_key(key)));
    if !is_session_name(request.session) {
        Handled {
            step: HandleStepView::Reply(refusal(request.id, bad_session_message(request.session))),
            pool,
            sequence,
        }
    } else if operation == "ping"@ {
        let result = JsonView::Object(
            no_members().push(("pong"@, JsonView::Bool(true))).push(session).push(connected),
        );
        Handled {
            step: HandleStepView::Reply(ReplyView::Success { id: request.id, result }),
            pool,
            sequence,
        }
    } else if operation == "status"@ {
        let result = JsonView::Object(
            no_members().push(session).push(connected).push(
                ("socketDir"@, JsonView::Text(decode_utf8(dir.bytes))),
            ),
        );
        Handled {
            step: HandleStepView::Reply(ReplyView::Success { id: request.id, result }),
            pool,
            sequence,
        }
    } else if operation == "close"@ {
        let result = JsonView::Object(
            no_members().push(session).push(("closed"@, JsonView::Bool(pool.contains_key(key)))),
        );
        Handled {
            step: HandleStepView::Reply(ReplyView::Success { id: request.id, result }),
            pool: pool.remove(key),
            sequence,
        }
    } else if operation == "send"@ {
        send_handled(pool, sequence, request, key, dir, caller)
    } else {
        Handled {
            step: HandleStepView::Reply(
                refusal(request.id, "operation must be send, ping, status, or close"@),
            ),
            pool,
            sequence,
        }
    }
}

/// The open connections, and how many commands got their identifier here.
pub struct Server<C> {
    pub pool: ChannelPool<C>,
    pub sequence: u64,
}

impl<C> Server<C> {
    /// A server without connections.
    pub fn new() -> (server: Server<C>)
        ensures
            server.pool@ == Map::<SessionKeyView, C>::empty(),
            server.sequence == 0,
    {
        Server { pool: ChannelPool::new(), sequence: 0 }
    }

    /// The identifier of the current command.
    pub fn command_id(&self, caller: Caller) -> (id: String)
        ensures
            id@ == command_id(caller, self.sequence),
    {
        let mut id = "fast-".to_owned();
        id.append(decimal_text(caller.process as u64).as_str());
        id.append("-");
        id.append(decimal_text(caller.micros).as_str());
        id.append("-");
        id.append(decimal_text(self.sequence).as_str());
        id
    }

    /// Handles a request like `handle`, unless it asks for a directory that is no text: that has no
    /// answer, and changes nothing.
    pub fn handle_answerable(
        &mut self,
        request: ChannelRequest,
        base: &PathBuf,
        caller: Caller,
    ) -> (step: Option<HandleStep<C>>)
        ensures
            step is Some <==> is_answerable(request@, path_view(*base)),
            ({
                let expected = handled(
                    old(self).pool@,
                    old(self).sequence,
                    request@,
                    path_view(*base),
                    caller,
                );
                match step {
                    Some(next) => {
                        &&& next@ == expected.step
                        &&& final(self).pool@ == expected.pool
                        &&& final(self).sequence == expected.sequence
                    },
                    None => {
                        &&& final(self).pool@ == old(self).pool@
                        &&& final(self).sequence == old(self).sequence
                    },
                }
            }),
    {
        let operation: &str = match &request.operation {
            Some(name) => name.as_str(),
            None => "send",
        };
        proof {
            reveal_strlit("send");
            reveal_strlit("status");
            assert("send"@.len() == 4 && "status"@.len() == 6);
        }
        if same(operation, "status") {
            let namespace: Option<&str> = match &request.namespace {
                Some(name) => Some(name.as_str()),
                None => None,
            };
            match ChannelKey::new(request.session.as_str(), namespace, base) {
                Ok(key) => {
                    if text_of_path(key.address.socket_dir()).is_none() {
                        return None;
                    }
                },
                Err(_) => {},
            }
        }
        Some(self.handle(request, base, caller))
    }

    /// Handles a request. `base` is the directory below which the sockets of all sessions live.
    pub fn handle(&mut self, request: ChannelRequest, base: &PathBuf, caller: Caller) -> (step:
        HandleStep<C>)
        requires
            is_answerable(request@, path_view(*base)),
        ensures
            ({
                let expected = handled(
                    old(self).pool@,
                    old(self).sequence,
                    request@,
                    path_view(*base),
                    caller,
                );
                &&& step@ == expected.step
                &&& final(self).pool@ == expected.pool
                &&& final(self).sequence == expected.sequence
            }),
    {
        let namespace: Option<&str> = match &request.namespace {
            Some(name) => Some(name.as_str()),
            None => None,
        };
        let key = match ChannelKey::new(request.session.as_str(), namespace, base) {
            Ok(key) => key,
            Err(error) => {
                return HandleStep::Reply(Reply::refuse(request.id, error.as_str()));
            },
        };
        let operation: &str = match &request.operation {
            Some(name) => name.as_str(),
            None => "send",
        };
        if same(operation, "ping") {
            let connected: bool = self.pool.contains(&key);
            let result = Fields::new().with("pong", Json::flag(true)).with(
                "session",
                Json::owned(request.session),
            ).with("connected", Json::flag(connected)).done();
            HandleStep::Reply(Reply::Success { id: request.id, result })
        } else if same(operation, "status") {
            let connected: bool = self.pool.contains(&key);
            proof {
                reveal_strlit("send");
                reveal_strlit("status");
                assert("send"@.len() == 4 && "status"@.len() == 6);
            }
            let dir = match text_of_path(key.address.socket_dir()) {
                Some(text) => text,
                None => {
                    assert(false);
                    String::new()
                },
            };
            let result = Fields::new().with("session", Json::owned(request.session)).with(
                "connected",
                Json::flag(connected),
            ).with("socketDir", Json::owned(dir)).done();
            HandleStep::Reply(Reply::Success { id: request.id, result })
        } else if same(operation, "close") {
            let closed: bool = self.pool.close(&key);
            let result = Fields::new().with("session", Json::owned(request.session)).with(
                "closed",
                Json::flag(closed),
            ).done();
            HandleStep::Reply(Reply::Success { id: request.id, result })
        } else if same(operation, "send") {
            self.send(request, key, caller)
        } else {
            HandleStep::Reply(
                Reply::refuse(request.id, "operation must be send, ping, status, or close"),
            )
        }
    }

    /// Handles a request to send a command to the daemon of `key`.
    pub fn send(&mut self, request: ChannelRequest, key: ChannelKey, caller: Caller) -> (step:
        HandleStep<C>)
        ensures
            ({
                let expected = send_handled(
                    old(self).pool@,
                    old(self).sequence,
                    request@,
                    key.address@,
                    key.address.dir(),
                    caller,
                );
                &&& step@ == expected.step
                &&& final(self).pool@ == expected.pool
                &&& final(self).sequence == expected.sequence
            }),
    {
        if request.timeout_ms == 0 || request.timeout_ms > MAX_TIMEOUT_MS {
            return HandleStep::Reply(
                Reply::refuse(request.id, "timeoutMs must be between 1 and 600000 milliseconds"),
            );
        }
        let mut members = match request.command {
            None => {
                return HandleStep::Reply(
                    Reply::refuse(request.id, "operation=send requires command"),
                );
            },
            Some(command) => match command.into_object() {
                Some(members) => members,
                None => {
                    return HandleStep::Reply(
                        Reply::refuse(request.id, "command must be a JSON object"),
                    );
                },
            },
        };
        let has_action: bool = match get_member(&members, "action") {
            Some(action) => action.as_str().is_some(),
            None => false,
        };
        if !has_action {
            return HandleStep::Reply(Reply::refuse(request.id, "command.action must be a string"));
        }
        if get_member(&members, "id").is_none() {
            self.sequence =
            if self.sequence == u64::MAX {
                0
            } else {
                self.sequence + 1
            };
            let id = self.command_id(caller);
            let ghost before = members_view(members@);
            members.push(("id".to_owned(), Json::owned(id)));
            assert(members_view(members@) =~= before.push(("id"@, JsonView::Text(id@))));
        }
        let context = SendContext {
            id: request.id,
            session: request.session,
            timeout_ms: request.timeout_ms,
            command: Json::object(members),
        };
        HandleStep::Send(context, self.pool.send(key))
    }
}

/// The reply to a command that was sent.
pub open spec fn send_reply(
    context: SendContextView,
    result: Result<SendOutcomeView, SendFailureView>,
) -> ReplyView {
    match result {
        Ok(outcome) => ReplyView::Delivered { id: context.id, session: context.session, outcome },
        Err(failure) => ReplyView::Failure {
            id: context.id,
            error: failure.message,
            reused_connection: failure.reused_connection,
            reconnected: failure.reconnected,
        },
    }
}

/// The reply to a command that was sent.
pub fn finish_send(context: SendContext, result: Result<SendOutcome, SendFailure>) -> (reply: Reply)
    ensures
        reply@ == send_reply(context@, send_result_view(result)),
{
    match result {
        Ok(outcome) => Reply::Delivered { id: context.id, session: context.session, outcome },
        Err(failure) => Reply::Failure {
            id: context.id,
            error: failure.message,
            reused_connection: failure.reused_connection,
            reconnected: failure.reconnected,
        },
    }
}

// ---------------------------------------------------------------------------
// Lines
// ---------------------------------------------------------------------------

/// What a line of input leads to.
#[derive(Debug)]
pub enum LineStep {
    /// Nothing: the line is blank.
    Skip,
    /// An error.
    Reply(Reply),
    /// The request that this text holds.
    Decode(String),
}

/// The model of what a line leads to.
#[verifier::ext_equal]
pub enum LineStepView {
    Skip,
    Reply(ReplyView),
    Decode(Seq<char>),
}

impl View for LineStep {
    type V = LineStepView;

    open spec fn view(&self) -> LineStepView {
        match self {
            LineStep::Skip => LineStepView::Skip,
            LineStep::Reply(reply) => LineStepView::Reply(reply@),
            LineStep::Decode(text) => LineStepView::Decode(text@),
        }
    }
}

/// What a line of input leads to.
pub open spec fn line_step(line: Seq<char>) -> LineStepView {
    if is_blank_text(line) {
        LineStepView::Skip
    } else if encode_utf8(line).len() > MAX_REQUEST_BYTES {
        LineStepView::Reply(refusal(JsonView::Null, "channel request exceeded the 4 MiB limit"@))
    } else {
        LineStepView::Decode(without_trailing_space(line))
    }
}

/// Decides what a line of input leads to.
pub fn accept_line(line: &str) -> (step: LineStep)
    ensures
        step@ == line_step(line@),
{
    if is_blank(line) {
        LineStep::Skip
    } else if line.as_bytes().len() > MAX_REQUEST_BYTES {
        LineStep::Reply(Reply::refuse(Json::Null, "channel request exceeded the 4 MiB limit"))
    } else {
        LineStep::Decode(trim_end(line))
    }
}

/// The reply to a request that is no request.
pub fn invalid_request(error: &str) -> (reply: Reply)
    ensures
        reply@ == refusal(JsonView::Null, "invalid channel request JSON: "@ + error@),
{
    let mut message = "invalid channel request JSON: ".to_owned();
    message.append(error);
    Reply::refuse(Json::Null, message.as_str())
}

/// The reply when the input cannot be read any more.
pub fn unreadable_input(error: &str) -> (reply: Reply)
    ensures
        reply@ == refusal(JsonView::Null, "failed to read channel input: "@ + error@),
{
    let mut message = "failed to read channel input: ".to_owned();
    message.append(error);
    Reply::refuse(Json::Null, message.as_str())
}

// ---------------------------------------------------------------------------
// Laws
// ---------------------------------------------------------------------------

/// The operations that are answered here.
pub open spec fn is_local_operation(operation: Option<Seq<char>>) -> bool {
    operation == Some("ping"@) || operation == Some("status"@) || operation == Some("close"@)
}

/// `ping`, `status` and `close` do not touch the browser: they are answered at once, name no
/// command, and leave the connections of all other sessions alone. Only `close` drops a connection.
pub proof fn law_local_operations_touch_no_daemon<C>(
    pool: Map<SessionKeyView, C>,
    sequence: u64,
    request: RequestView,
    base: PathView,
    caller: Caller,
)
    requires
        is_local_operation(request.operation),
    ensures
        ({
            let after = handled(pool, sequence, request, base, caller);
            let key = session_key(request.session, request.namespace, base);
            &&& after.step is Reply
            &&& after.sequence == sequence
            &&& after.pool == pool || (request.operation == Some("close"@) && after.pool
                == pool.remove(key))
        }),
{
    reveal_strlit("ping");
    reveal_strlit("status");
    reveal_strlit("close");
    reveal_strlit("send");
}

/// After `close` the session is not connected, and closing it again says that nothing was open.
pub proof fn law_close_closes<C>(
    pool: Map<SessionKeyView, C>,
    sequence: u64,
    request: RequestView,
    base: PathView,
    caller: Caller,
)
    requires
        request.operation == Some("close"@),
        is_session_name(request.session),
    ensures
        ({
            let after = handled(pool, sequence, request, base, caller);
            let again = handled(after.pool, after.sequence, request, base, caller);
            let key = session_key(request.session, request.namespace, base);
            &&& !after.pool.contains_key(key)
            &&& again.pool == after.pool
            &&& again.step matches HandleStepView::Reply(ReplyView::Success { result, .. })
            &&& result.get("closed"@) == Some(JsonView::Bool(false))
        }),
{
    broadcast use lemma_member_push;

    reveal_strlit("ping");
    reveal_strlit("status");
    reveal_strlit("close");
    assert("ping"@.len() == 4 && "status"@.len() == 6 && "close"@.len() == 5);
    let after = handled(pool, sequence, request, base, caller);
    let key = session_key(request.session, request.namespace, base);
    assert(after.pool.remove(key) =~= after.pool);
}

/// A command is sent only for a session with a valid name, with a timeout from one millisecond to
/// ten minutes, as an object whose action is a string and that carries an identifier.
pub proof fn law_sent_commands_are_checked<C>(
    pool: Map<SessionKeyView, C>,
    sequence: u64,
    request: RequestView,
    base: PathView,
    caller: Caller,
)
    ensures
        handled(pool, sequence, request, base, caller).step matches HandleStepView::Send(
            context,
            _,
        ) ==> {
            &&& is_session_name(request.session)
            &&& 1 <= context.timeout_ms <= 600_000
            &&& context.command.get("action"@) matches Some(JsonView::Text(_))
            &&& context.command.get("id"@) is Some
        },
{
    broadcast use lemma_member_push;

    reveal_strlit("action");
    reveal_strlit("id");
}

/// A command that carries an identifier is sent exactly as it came.
pub proof fn law_explicit_identifier_is_kept<C>(
    pool: Map<SessionKeyView, C>,
    sequence: u64,
    request: RequestView,
    base: PathView,
    caller: Caller,
)
    requires
        request.command matches Some(command) && command.get("id"@) is Some,
    ensures
        handled(pool, sequence, request, base, caller).step matches HandleStepView::Send(
            context,
            _,
        ) ==> context.command == request.command->0,
{
}

/// Every response names the schema, repeats the identifier of the request, and tells the measured
/// time, whether the connection was reused and whether it was made anew.
pub proof fn law_every_response_is_marked(reply: ReplyView, micros: u64)
    ensures
        ({
            let response = reply.rendered(micros);
            let id = match reply {
                ReplyView::Success { id, .. } => id,
                ReplyView::Failure { id, .. } => id,
                ReplyView::Delivered { id, .. } => id,
            };
            &&& response.get("schemaVersion"@) == Some(JsonView::Text(SCHEMA_VERSION@))
            &&& response.get("id"@) == Some(id)
            &&& response.get("ok"@) matches Some(JsonView::Bool(_))
            &&& response.get("timing"@) == Some(timing(micros))
            &&& timing(micros).get("roundTripMicros"@) == Some(
                JsonView::Number(NumberView::Unsigned(micros)),
            )
            &&& response.get("channel"@) matches Some(channel)
            &&& channel.get("reusedConnection"@) matches Some(JsonView::Bool(_))
            &&& channel.get("reconnected"@) matches Some(JsonView::Bool(_))
        }),
{
    broadcast use lemma_member_push;

    reveal_strlit("schemaVersion");
    reveal_strlit("id");
    reveal_strlit("ok");
    reveal_strlit("result");
    reveal_strlit("error");
    reveal_strlit("channel");
    reveal_strlit("timing");
    reveal_strlit("reusedConnection");
    reveal_strlit("reconnected");
    assert("schemaVersion"@.len() == 13 && "id"@.len() == 2 && "ok"@.len() == 2);
    assert("result"@.len() == 6 && "error"@.len() == 5 && "timing"@.len() == 6);
    assert("channel"@.len() == 7 && "reusedConnection"@.len() == 16 && "reconnected"@.len() == 11);
    assert("id"@[0] != "ok"@[0] && "timing"@[0] != "result"@[0]);
}

/// The response of the daemon is handed on as it is, and a failed one is marked as failed.
pub proof fn law_daemon_response_is_returned_as_is(
    context: SendContextView,
    outcome: SendOutcomeView,
    micros: u64,
)
    ensures
        ({
            let response = send_reply(context, Ok(outcome)).rendered(micros);
            &&& response.get("result"@) == Some(outcome.response)
            &&& response.get("ok"@) == Some(JsonView::Bool(daemon_success(outcome.response)))
        }),
{
    broadcast use lemma_member_push;

    reveal_strlit("schemaVersion");
    reveal_strlit("id");
    reveal_strlit("ok");
    reveal_strlit("result");
    reveal_strlit("channel");
    reveal_strlit("timing");
    assert("schemaVersion"@.len() == 13 && "id"@.len() == 2 && "ok"@.len() == 2);
    assert("result"@.len() == 6 && "timing"@.len() == 6 && "channel"@.len() == 7);
    assert("timing"@[0] != "result"@[0]);
}

/// The words that the channel reads and writes differ.
proof fn lemma_channel_words()
    ensures
        "schemaVersion"@.len() == 13,
        "id"@.len() == 2 && "id"@[0] == 'i',
        "ok"@.len() == 2 && "ok"@[0] == 'o',
        "result"@.len() == 6 && "result"@[0] == 'r',
        "error"@.len() == 5 && "error"@[0] == 'e',
        "channel"@.len() == 7 && "channel"@[0] == 'c',
        "timing"@.len() == 6 && "timing"@[0] == 't',
        "reusedConnection"@.len() == 16,
        "reconnected"@.len() == 11,
        "session"@.len() == 7 && "session"@[0] == 's',
        "transport"@.len() == 9 && "transport"@[0] == 't',
        "connected"@.len() == 9 && "connected"@[0] == 'c',
        "pong"@.len() == 4 && "pong"@[1] == 'o',
        "closed"@.len() == 6 && "closed"@[0] == 'c',
        "socketDir"@.len() == 9 && "socketDir"@[0] == 's',
        "roundTripMicros"@.len() == 15,
        "action"@.len() == 6 && "action"@[0] == 'a',
        "ping"@.len() == 4 && "ping"@[1] == 'i',
        "status"@.len() == 6 && "status"@[0] == 's',
        "close"@.len() == 5 && "close"@[0] == 'c',
        "send"@.len() == 4 && "send"@[1] == 'e',
{
    reveal_strlit("schemaVersion");
    reveal_strlit("id");
    reveal_strlit("ok");
    reveal_strlit("result");
    reveal_strlit("error");
    reveal_strlit("channel");
    reveal_strlit("timing");
    reveal_strlit("reusedConnection");
    reveal_strlit("reconnected");
    reveal_strlit("session");
    reveal_strlit("transport");
    reveal_strlit("connected");
    reveal_strlit("pong");
    reveal_strlit("closed");
    reveal_strlit("socketDir");
    reveal_strlit("roundTripMicros");
    reveal_strlit("action");
    reveal_strlit("ping");
    reveal_strlit("status");
    reveal_strlit("close");
    reveal_strlit("send");
}

/// Whether a response tells whom it is for, whether all went well, and how long it took.
pub open spec fn tells(response: JsonView, id: JsonView, ok: bool, micros: u64) -> bool {
    &&& response.get("schemaVersion"@) == Some(JsonView::Text("agent.browser.fast-channel/v1"@))
    &&& response.get("id"@) == Some(id)
    &&& response.get("ok"@) == Some(JsonView::Bool(ok))
    &&& response.get("timing"@) matches Some(timed)
    &&& timed.get("roundTripMicros"@) == Some(JsonView::Number(NumberView::Unsigned(micros)))
}

/// Whether a response tells of the connection whether it was open before and whether it was made
/// anew.
pub open spec fn tells_connection(response: JsonView, reused: bool, reconnected: bool) -> bool {
    &&& response.get("channel"@) matches Some(channel)
    &&& channel.get("reusedConnection"@) == Some(JsonView::Bool(reused))
    &&& channel.get("reconnected"@) == Some(JsonView::Bool(reconnected))
}

/// The reply to a command that was delivered counts as a success exactly unless the daemon's
/// response has a member `success` that is false. The response is handed on as it is, with the
/// session and how it was carried.
pub proof fn law_delivered_replies_tell_success(
    context: SendContextView,
    outcome: SendOutcomeView,
    micros: u64,
)
    ensures
        ({
            let response = send_reply(context, Ok(outcome)).rendered(micros);
            let ok = outcome.response.get("success"@) != Some(JsonView::Bool(false));
            &&& tells(response, context.id, ok, micros)
            &&& response.get("result"@) == Some(outcome.response)
            &&& response.get("error"@) is None
            &&& tells_connection(response, outcome.reused_connection, outcome.reconnected)
            &&& response.get("channel"@) matches Some(channel)
            &&& channel.get("session"@) == Some(JsonView::Text(context.session))
            &&& channel.get("transport"@) == Some(JsonView::Text(outcome.transport))
        }),
{
    broadcast use lemma_member_push;

    lemma_channel_words();
    assert(member(no_members(), "error"@) is None);
}

/// The reply to a command that failed counts as a failure, says what went wrong, and how the
/// command was carried.
pub proof fn law_failed_replies_tell_the_error(
    context: SendContextView,
    failure: SendFailureView,
    micros: u64,
)
    ensures
        ({
            let response = send_reply(context, Err(failure)).rendered(micros);
            &&& tells(response, context.id, false, micros)
            &&& response.get("error"@) == Some(JsonView::Text(failure.message))
            &&& response.get("result"@) is None
            &&& tells_connection(response, failure.reused_connection, failure.reconnected)
        }),
{
    broadcast use lemma_member_push;

    lemma_channel_words();
    assert(member(no_members(), "result"@) is None);
}

/// What is answered without the daemon counts as a success with its result, and what is refused as
/// a failure with its reason; neither used a connection.
pub proof fn law_local_replies(id: JsonView, result: JsonView, words: Seq<char>, micros: u64)
    ensures
        ({
            let response = (ReplyView::Success { id, result }).rendered(micros);
            &&& tells(response, id, true, micros)
            &&& response.get("result"@) == Some(result)
            &&& tells_connection(response, false, false)
        }),
        ({
            let response = refusal(id, words).rendered(micros);
            &&& tells(response, id, false, micros)
            &&& response.get("error"@) == Some(JsonView::Text(words))
            &&& tells_connection(response, false, false)
        }),
{
    broadcast use lemma_member_push;

    lemma_channel_words();
}

/// Each operation is answered with what it is for. `ping` answers that it is there, and `status`
/// and it tell whether a connection to the daemon of the session is open. `status` tells the
/// directory. `close` drops the connection and tells whether there was one. A request without an
/// operation sends, and any other operation is refused. So is a session that may not be.
pub proof fn law_operations_do_what_they_say<C>(
    pool: Map<SessionKeyView, C>,
    sequence: u64,
    request: RequestView,
    base: PathView,
    caller: Caller,
)
    ensures
        ({
            let after = handled(pool, sequence, request, base, caller);
            let key = session_key(request.session, request.namespace, base);
            let open = JsonView::Bool(pool.contains_key(key));
            let named = JsonView::Text(request.session);
            let dir = namespaced_dir(base, effective_namespace(request.namespace));
            if !is_session_name(request.session) {
                after.pool == pool && after.step == HandleStepView::<C>::Reply(
                    ReplyView::Failure {
                        id: request.id,
                        error: "invalid session name '"@ + request.session
                            + "'; use only alphanumeric characters, hyphens, and underscores"@,
                        reused_connection: false,
                        reconnected: false,
                    },
                )
            } else if request.operation == Some("ping"@) {
                &&& after.pool == pool
                &&& after.step matches HandleStepView::Reply(ReplyView::Success { id, result })
                &&& id == request.id
                &&& result.get("pong"@) == Some(JsonView::Bool(true))
                &&& result.get("session"@) == Some(named)
                &&& result.get("connected"@) == Some(open)
            } else if request.operation == Some("status"@) {
                &&& after.pool == pool
                &&& after.step matches HandleStepView::Reply(ReplyView::Success { id, result })
                &&& id == request.id
                &&& result.get("session"@) == Some(named)
                &&& result.get("connected"@) == Some(open)
                &&& result.get("socketDir"@) == Some(JsonView::Text(decode_utf8(dir.bytes)))
            } else if request.operation == Some("close"@) {
                &&& after.pool == pool.remove(key)
                &&& after.step matches HandleStepView::Reply(ReplyView::Success { id, result })
                &&& id == request.id
                &&& result.get("session"@) == Some(named)
                &&& result.get("closed"@) == Some(open)
            } else if request.operation == Some("send"@) || request.operation is None {
                after == send_handled(pool, sequence, request, key, dir, caller)
            } else {
                after.pool == pool && after.step == HandleStepView::<C>::Reply(
                    ReplyView::Failure {
                        id: request.id,
                        error: "operation must be send, ping, status, or close"@,
                        reused_connection: false,
                        reconnected: false,
                    },
                )
            }
        }),
{
    broadcast use lemma_member_push;

    lemma_channel_words();
}

/// A command is refused, and nothing changes, where its timeout is not between one millisecond and
/// ten minutes, where there is none, where it is no object, and where its action is no string.
pub proof fn law_commands_are_refused<C>(
    pool: Map<SessionKeyView, C>,
    sequence: u64,
    request: RequestView,
    key: SessionKeyView,
    dir: PathView,
    caller: Caller,
)
    ensures
        ({
            let after = send_handled(pool, sequence, request, key, dir, caller);
            let trouble = if request.timeout_ms < 1 || request.timeout_ms > 600_000 {
                Some("timeoutMs must be between 1 and 600000 milliseconds"@)
            } else if request.command is None {
                Some("operation=send requires command"@)
            } else if !(request.command->0 is Object) {
                Some("command must be a JSON object"@)
            } else if !(request.command->0.get("action"@) matches Some(JsonView::Text(_))) {
                Some("command.action must be a string"@)
            } else {
                None
            };
            match trouble {
                Some(words) => after.pool == pool && after.sequence == sequence && after.step
                    == HandleStepView::<C>::Reply(
                    ReplyView::Failure {
                        id: request.id,
                        error: words,
                        reused_connection: false,
                        reconnected: false,
                    },
                ),
                None => after.pool == pool.remove(key) && after.step is Send,
            }
        }),
{
}

/// A command is sent for its session within its time, over the connection of its key or a new one.
/// One that names itself is left as it is; any other gets a name made of the process, the time and
/// the next number, and keeps all else.
pub proof fn law_commands_are_sent_as_given<C>(
    pool: Map<SessionKeyView, C>,
    sequence: u64,
    request: RequestView,
    key: SessionKeyView,
    dir: PathView,
    caller: Caller,
    name: Seq<char>,
)
    ensures
        ({
            let after = send_handled(pool, sequence, request, key, dir, caller);
            after.step matches HandleStepView::Send(context, step) ==> {
                let given = request.command->0;
                let next = if sequence == u64::MAX {
                    0u64
                } else {
                    (sequence + 1) as u64
                };
                &&& context.id == request.id
                &&& context.session == request.session
                &&& context.timeout_ms == request.timeout_ms
                &&& step == if pool.contains_key(key) {
                    SendStepView::Exchange {
                        key,
                        dir,
                        reused: true,
                        first_error: None,
                        connection: pool[key],
                    }
                } else {
                    SendStepView::Connect { key, dir, first_error: None }
                }
                &&& if given.get("id"@) is Some {
                    context.command == given && after.sequence == sequence
                } else {
                    &&& after.sequence == next
                    &&& context.command.get("id"@) == Some(
                        JsonView::Text(
                            "fast-"@ + decimal(caller.process as nat) + "-"@ + decimal(
                                caller.micros as nat,
                            ) + "-"@ + decimal(next as nat),
                        ),
                    )
                    &&& name != "id"@ ==> context.command.get(name) == given.get(name)
                }
            }
        }),
{
    broadcast use lemma_member_push;

}

/// Whether `body` is what stands in a text before the whitespace at its end.
pub open spec fn is_text_of(body: Seq<char>, text: Seq<char>) -> bool {
    &&& body.is_prefix_of(text)
    &&& body.len() > 0 ==> !char_is_whitespace(body.last())
    &&& forall|i: int|
        body.len() <= i < text.len() ==> char_is_whitespace(#[trigger] text[i])
}

proof fn lemma_trailing_space(body: Seq<char>, text: Seq<char>)
    requires
        is_text_of(body, text),
    ensures
        without_trailing_space(text) == body,
{
    let tail = text.skip(body.len() as int);
    assert(text =~= body + tail);
    assert forall|i: int| 0 <= i < tail.len() implies char_is_whitespace(#[trigger] tail[i]) by {
        assert(tail[i] == text[body.len() + i]);
    }
    law_trailing_space_is_cut(body, tail);
}

/// A response that came and is no more than 32 MiB is read as exactly the value that stands before
/// the whitespace at its end. Where that is no value, where nothing came, and where more came than
/// that, the command may have been delivered all the same.
pub proof fn law_response_lines_are_read_whole(text: Seq<char>, body: Seq<char>)
    requires
        is_text_of(body, text),
    ensures
        text.len() > 0 && encode_utf8(text).len() <= 33_554_432 ==> received_line(text)
            == match parsed_json(body) {
            Ok(json) => Ok::<JsonView, FailureView>(json),
            Err(error) => Err(
                FailureView {
                    stage: FailureStage::DeliveryUnknown,
                    message: "daemon returned invalid JSON: "@ + error,
                },
            ),
        },
        text.len() == 0 ==> received_line(text) == Err::<JsonView, FailureView>(
            FailureView {
                stage: FailureStage::DeliveryUnknown,
                message: "daemon closed the persistent channel before responding"@,
            },
        ),
        text.len() > 0 && encode_utf8(text).len() > 33_554_432 ==> received_line(text) == Err::<
            JsonView,
            FailureView,
        >(
            FailureView {
                stage: FailureStage::DeliveryUnknown,
                message: "daemon response exceeded the 32 MiB channel limit"@,
            },
        ),
{
    lemma_trailing_space(body, text);
}

/// A command over a connection sets both timeouts, then writes its compact text and one newline,
/// flushes, and reads one line.
pub proof fn law_commands_are_carried_in_order(
    command: JsonView,
    done: Seq<char>,
    text: Seq<char>,
)
    ensures
        channel_step(ChannelStage::SettingReadTimeout, command, Ok(done))
            == ChannelStepView::Perform(
            ChannelStage::SettingWriteTimeout,
            ChannelOperationView::SetWriteTimeout,
        ),
        channel_step(ChannelStage::SettingWriteTimeout, command, Ok(done))
            == ChannelStepView::Perform(
            ChannelStage::Writing,
            ChannelOperationView::Write(encode_utf8(json_text(command)).push(10)),
        ),
        channel_step(ChannelStage::Writing, command, Ok(done)) == ChannelStepView::Perform(
            ChannelStage::Flushing,
            ChannelOperationView::Flush,
        ),
        channel_step(ChannelStage::Flushing, command, Ok(done)) == ChannelStepView::Perform(
            ChannelStage::Reading,
            ChannelOperationView::ReadLine,
        ),
        channel_step(ChannelStage::Reading, command, Ok(text)) == ChannelStepView::Done(
            received_line(text),
        ),
{
}

/// The stage at which a command failed, and the words for what was going on.
pub open spec fn fails_with(
    step: ChannelStepView,
    stage: FailureStage,
    doing: Seq<char>,
    error: Seq<char>,
) -> bool {
    step == ChannelStepView::Done(Err(FailureView { stage, message: doing + error }))
}

/// What goes wrong before the command is written leaves it unsent, and what goes wrong from then on
/// leaves its delivery unknown; the words say what was going on.
pub proof fn law_failures_tell_their_stage(command: JsonView, error: Seq<char>)
    ensures
        fails_with(
            channel_step(ChannelStage::SettingReadTimeout, command, Err(error)),
            FailureStage::BeforeSend,
            "failed to set daemon read timeout: "@,
            error,
        ),
        fails_with(
            channel_step(ChannelStage::SettingWriteTimeout, command, Err(error)),
            FailureStage::BeforeSend,
            "failed to set daemon write timeout: "@,
            error,
        ),
        fails_with(
            channel_step(ChannelStage::Writing, command, Err(error)),
            FailureStage::DeliveryUnknown,
            "failed to write daemon command: "@,
            error,
        ),
        fails_with(
            channel_step(ChannelStage::Flushing, command, Err(error)),
            FailureStage::DeliveryUnknown,
            "failed to flush daemon command: "@,
            error,
        ),
        fails_with(
            channel_step(ChannelStage::Reading, command, Err(error)),
            FailureStage::DeliveryUnknown,
            "failed to read daemon response: "@,
            error,
        ),
{
}

/// A connection that cannot be made ends the send, and a new one runs the command as no reused one.
/// Where it was the second attempt, the words tell of both.
pub proof fn law_connecting_decides_the_send<C>(
    key: SessionKeyView,
    dir: PathView,
    connection: C,
    first: Seq<char>,
    error: Seq<char>,
    first_error: Option<Seq<char>>,
)
    ensures
        after_connect(key, dir, first_error, Ok(connection)) == (SendStepView::Exchange {
            key,
            dir,
            reused: false,
            first_error,
            connection,
        }),
        after_connect::<C>(key, dir, None, Err(error)) == SendStepView::<C>::Done(
            Err(SendFailureView { message: error, reused_connection: false, reconnected: false }),
        ),
        after_connect::<C>(key, dir, Some(first), Err(error)) == SendStepView::<C>::Done(
            Err(
                SendFailureView {
                    message: "persistent channel failed ("@ + first + "); "@ + "reconnect"@
                        + " failed ("@ + error + ")"@,
                    reused_connection: false,
                    reconnected: false,
                },
            ),
        ),
{
}

/// A response ends the send and tells how it was carried. A first failure that left the command
/// unsent is followed by one new connection; every other failure ends the send, and the words of a
/// second attempt tell of both.
pub proof fn law_running_a_command_decides_the_send<C>(
    key: SessionKeyView,
    dir: PathView,
    reused: bool,
    transport: Seq<char>,
    response: JsonView,
    first: Seq<char>,
    message: Seq<char>,
    first_error: Option<Seq<char>>,
)
    ensures
        after_exchange::<C>(key, dir, reused, first_error, transport, Ok(response))
            == SendStepView::<C>::Done(
            Ok(
                SendOutcomeView {
                    response,
                    transport,
                    reused_connection: reused,
                    reconnected: first_error is Some,
                },
            ),
        ),
        after_exchange::<C>(
            key,
            dir,
            reused,
            None,
            transport,
            Err(FailureView { stage: FailureStage::BeforeSend, message }),
        ) == (SendStepView::<C>::Connect { key, dir, first_error: Some(message) }),
        after_exchange::<C>(
            key,
            dir,
            reused,
            None,
            transport,
            Err(FailureView { stage: FailureStage::DeliveryUnknown, message }),
        ) == SendStepView::<C>::Done(
            Err(SendFailureView { message, reused_connection: reused, reconnected: false }),
        ),
        forall|stage: FailureStage| #[trigger]
            after_exchange::<C>(
                key,
                dir,
                reused,
                Some(first),
                transport,
                Err(FailureView { stage, message }),
            ) == SendStepView::<C>::Done(
                Err(
                    SendFailureView {
                        message: "persistent channel failed ("@ + first + "); "@ + "retry"@
                            + " failed ("@ + message + ")"@,
                        reused_connection: reused,
                        reconnected: true,
                    },
                ),
            ),
{
}

/// A blank line is passed over, one over 4 MiB is refused, and any other is a request without the
/// whitespace at its end.
pub proof fn law_lines_are_accepted(line: Seq<char>, body: Seq<char>)
    requires
        is_text_of(body, line),
    ensures
        body.len() == 0 ==> line_step(line) is Skip,
        body.len() > 0 && encode_utf8(line).len() <= 4_194_304 ==> line_step(line)
            == LineStepView::Decode(body),
        body.len() > 0 && encode_utf8(line).len() > 4_194_304 ==> line_step(line)
            == LineStepView::Reply(
            ReplyView::Failure {
                id: JsonView::Null,
                error: "channel request exceeded the 4 MiB limit"@,
                reused_connection: false,
                reconnected: false,
            },
        ),
{
    lemma_trailing_space(body, line);
    if body.len() > 0 {
        assert(!char_is_whitespace(line[body.len() - 1]));
    }
}

/// A request that names no timeout has half a minute, and the words for a session that may not be
/// and for a daemon that cannot be reached.
pub proof fn law_defaults_and_words(session: Seq<char>, place: Seq<char>, error: Seq<char>)
    ensures
        DEFAULT_TIMEOUT_MS == 30_000,
        bad_session_message(session) == "invalid session name '"@ + session
            + "'; use only alphanumeric characters, hyphens, and underscores"@,
        unreachable_message(place, error) == "failed to connect to agent-browser daemon at "@
            + place + ": "@ + error
            + "; establish the session once with the normal agent-browser CLI"@,
{
}

/// Every request can be answered but one: a status of a session that may be, in a directory whose
/// bytes are no text.
pub proof fn law_requests_are_answerable(request: RequestView, base: PathView)
    ensures
        is_answerable(request, base) <==> !{
            &&& request.operation == Some("status"@)
            &&& is_session_name(request.session)
            &&& !valid_utf8(namespaced_dir(base, effective_namespace(request.namespace)).bytes)
        },
{
}

/// The models of requests, failures, replies and steps show the fields as they are.
pub proof fn law_models_show_their_fields<C>(
    request: ChannelRequest,
    failure: SendFailure,
    context: SendContext,
    connect: ConnectTicket,
    exchange: ExchangeTicket,
    connection: C,
)
    ensures
        request@.id == request.id@ && request@.session == request.session@,
        request@.namespace == optional_string(request.namespace),
        request@.timeout_ms == request.timeout_ms,
        request@.operation == optional_string(request.operation),
        failure@.message == failure.message@,
        failure@.reused_connection == failure.reused_connection,
        failure@.reconnected == failure.reconnected,
        context@.id == context.id@ && context@.session == context.session@,
        context@.timeout_ms == context.timeout_ms && context@.command == context.command@,
        SendStep::<C>::Connect(connect)@ == (SendStepView::<C>::Connect {
            key: connect.key.address@,
            dir: connect.key.address.dir(),
            first_error: optional_string(connect.first_error),
        }),
        SendStep::Exchange(exchange, connection)@ == (SendStepView::Exchange {
            key: exchange.key.address@,
            dir: exchange.key.address.dir(),
            reused: exchange.reused,
            first_error: optional_string(exchange.first_error),
            connection,
        }),
{
}

/// The model of a reply shows its parts as they are.
pub proof fn law_replies_show_their_parts(
    id: Json,
    result: Json,
    error: String,
    session: String,
    outcome: SendOutcome,
    reused_connection: bool,
    reconnected: bool,
)
    ensures
        (Reply::Success { id, result })@ == (ReplyView::Success { id: id@, result: result@ }),
        (Reply::Failure { id, error, reused_connection, reconnected })@ == (ReplyView::Failure {
            id: id@,
            error: error@,
            reused_connection,
            reconnected,
        }),
        (Reply::Delivered { id, session, outcome })@ == (ReplyView::Delivered {
            id: id@,
            session: session@,
            outcome: outcome@,
        }),
{
}

} // verus!
