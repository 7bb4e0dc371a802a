//! Persistent at-most-once transport for an established agent-browser daemon.
//!
//! The transport distinguishes failures that happen before any command bytes are written from
//! failures whose delivery is uncertain. Only the former may reconnect and try again. A timeout, an
//! end of input, a malformed response or a write failure after transmission begins never replays
//! the command.

use std::path::PathBuf;
use vstd::prelude::*;
use vstd::utf8::{encode_utf8, is_ascii_chars};
use crate::json::{json_text, optional_string, optional_text, parsed_json_bytes, Json, JsonView};
use crate::path::{
    copy_path, is_plain_name, is_verbatim, join, law_plain_names_stay_below, on_windows,
    path_bytes, path_view, same_path, separates_by_backslash, slashed, stands_below, PathView,
};
use crate::registry::{Key, Registry};
use crate::session::{
    announced_port, choose_port, is_file_safe, is_namespace_path, is_session_name, is_slug,
    is_valid_session, law_namespaces_keep_apart, lemma_slugs_are_plain, namespaced_dir,
    namespaced_parts, namespaced_socket_dir, sanitize_component, sanitized,
};
use crate::text::{join3, occurs_in, same};

verus! {

/// The largest command, in bytes.
pub const MAX_REQUEST_BYTES: usize = 4 * 1024 * 1024;

/// The largest response, in bytes.
pub const MAX_RESPONSE_BYTES: usize = 32 * 1024 * 1024;

// ---------------------------------------------------------------------------
// Failures
// ---------------------------------------------------------------------------

/// How far a command had come when it failed.
#[derive(Debug, Clone, Copy, PartialEq, Eq, Structural)]
pub enum FailureStage {
    /// Nothing of the command was written.
    BeforeSend,
    /// The daemon may have received the command.
    DeliveryUnknown,
}

/// Why a command got no response.
#[derive(Debug, PartialEq, Eq)]
pub struct ChannelFailure {
    pub stage: FailureStage,
    pub message: String,
}

/// The model of a failure.
#[verifier::ext_equal]
pub struct FailureView {
    pub stage: FailureStage,
    pub message: Seq<char>,
}

impl View for ChannelFailure {
    type V = FailureView;

    open spec fn view(&self) -> FailureView {
        FailureView { stage: self.stage, message: self.message@ }
    }
}

impl Clone for ChannelFailure {
    fn clone(&self) -> (copy: ChannelFailure)
        ensures
            copy@ == self@,
    {
        ChannelFailure { stage: self.stage, message: self.message.clone() }
    }
}

/// A failure before anything was sent.
pub open spec fn unsent(message: Seq<char>) -> FailureView {
    FailureView { stage: FailureStage::BeforeSend, message }
}

/// A failure after the command may have been delivered.
pub open spec fn undecided(message: Seq<char>) -> FailureView {
    FailureView { stage: FailureStage::DeliveryUnknown, message }
}

impl FailureView {
    /// The words that a caller is told.
    pub open spec fn words(self) -> Seq<char> {
        match self.stage {
            FailureStage::BeforeSend => self.message,
            FailureStage::DeliveryUnknown => self.message
                + "; command delivery is unknown and was not replayed"@,
        }
    }
}

impl ChannelFailure {
    /// A failure before anything was sent.
    pub fn before_send(message: &str) -> (failure: ChannelFailure)
        ensures
            failure@ == unsent(message@),
    {
        ChannelFailure { stage: FailureStage::BeforeSend, message: message.to_owned() }
    }

    /// A failure after the command may have been delivered.
    pub fn delivery_unknown(message: &str) -> (failure: ChannelFailure)
        ensures
            failure@ == undecided(message@),
    {
        ChannelFailure { stage: FailureStage::DeliveryUnknown, message: message.to_owned() }
    }

    /// The words that a caller is told.
    pub fn to_string(&self) -> (words: String)
        ensures
            words@ == self@.words(),
    {
        match self.stage {
            FailureStage::BeforeSend => self.message.clone(),
            FailureStage::DeliveryUnknown => {
                let mut words = self.message.clone();
                words.append("; command delivery is unknown and was not replayed");
                words
            },
        }
    }
}

// ---------------------------------------------------------------------------
// Sessions
// ---------------------------------------------------------------------------

/// The daemon of one session in one namespace.
#[derive(Debug, PartialEq, Eq, PartialOrd, Ord)]
pub struct SessionKey {
    socket_dir: PathBuf,
    session: String,
    port_identity: Option<String>,
}

/// The model of a session key.
#[verifier::ext_equal]
pub struct SessionKeyView {
    /// The directory of the sockets of the namespace, by the components that it is compared by.
    pub socket_dir: Seq<Seq<u8>>,
    /// The name of the session.
    pub session: Seq<char>,
    /// What the port of the daemon is picked by, on Windows, where it listens on one.
    pub port_identity: Option<Seq<char>>,
}

impl View for SessionKey {
    type V = SessionKeyView;

    closed spec fn view(&self) -> SessionKeyView {
        SessionKeyView {
            socket_dir: path_view(self.socket_dir).parts(),
            session: self.session@,
            port_identity: optional_string(self.port_identity),
        }
    }
}

/// The namespace that counts: its directory name, where that is not empty.
pub open spec fn effective_namespace(namespace: Option<Seq<char>>) -> Option<Seq<char>> {
    match namespace {
        Some(name) => if sanitized(name).len() > 0 {
            Some(sanitized(name))
        } else {
            None
        },
        None => None,
    }
}

/// What the port of a session is picked by, where its namespace has the directory name `own`.
pub open spec fn identity_of(session: Seq<char>, own: Option<Seq<char>>) -> Seq<char> {
    match own {
        Some(name) => name + ":"@ + session,
        None => session,
    }
}

/// What the port of a session is picked by, where its namespace has the directory name `own`.
pub fn port_identity(session: &str, own: Option<&str>) -> (identity: String)
    ensures
        identity@ == identity_of(session@, optional_text(own)),
{
    match own {
        Some(name) => join3(name, ":", session),
        None => session.to_owned(),
    }
}

/// The key of a session in a namespace below the directory `base`.
pub open spec fn session_key(
    session: Seq<char>,
    namespace: Option<Seq<char>>,
    base: PathView,
) -> SessionKeyView {
    let own = effective_namespace(namespace);
    SessionKeyView {
        socket_dir: namespaced_parts(base, own),
        session,
        port_identity: if base.windows {
            Some(identity_of(session, own))
        } else {
            None
        },
    }
}

/// What is wrong with a name that no session may have.
pub open spec fn bad_session_message(session: Seq<char>) -> Seq<char> {
    "invalid session name '"@ + session
        + "'; use alphanumeric characters, hyphens, or underscores"@
}

/// Whether `session` may name a session, and what is wrong if it may not.
pub fn validate_session(session: &str) -> (result: Result<(), String>)
    ensures
        match result {
            Ok(_) => is_session_name(session@) && is_file_safe(session@),
            Err(message) => !is_session_name(session@) && message@ == bad_session_message(session@),
        },
{
    if is_valid_session(session) {
        Ok(())
    } else {
        Err(
            join3(
                "invalid session name '",
                session,
                "'; use alphanumeric characters, hyphens, or underscores",
            ),
        )
    }
}

impl SessionKey {
    #[verifier::type_invariant]
    spec fn well_formed(self) -> bool {
        is_session_name(self.session@) && is_file_safe(self.session@)
    }

    /// The directory of the sockets of the namespace.
    pub closed spec fn dir(&self) -> PathView {
        path_view(self.socket_dir)
    }

    /// The key of a session in a namespace. `base` is the directory below which the sockets of all
    /// sessions live. The sockets of a namespace lie below it, in a directory that the words of the
    /// namespace name; for a namespace in ASCII those words are always one part of a path. Of a
    /// directory that Windows takes as it stands, what lies below it is not said.
    pub fn new(session: &str, namespace: Option<&str>, base: &PathBuf) -> (result: Result<
        SessionKey,
        ChannelFailure,
    >)
        ensures
            match result {
                Ok(key) => {
                    &&& is_session_name(session@)
                    &&& key@ == session_key(
                        session@,
                        optional_text(namespace),
                        path_view(*base),
                    )
                    &&& key.dir() == namespaced_dir(
                        path_view(*base),
                        effective_namespace(optional_text(namespace)),
                    )
                },
                Err(failure) => !is_session_name(session@) && failure@ == unsent(
                    bad_session_message(session@),
                ),
            },
            match (result, namespace) {
                (Ok(key), Some(name)) => {
                    &&& is_plain_name(sanitized(name@)) && !is_verbatim(path_view(*base))
                        ==> is_namespace_path(
                        path_bytes(*base),
                        sanitized(name@),
                        key.dir().bytes,
                    )
                    &&& !on_windows(*base) && sanitized(name@).len() > 0 ==> key.dir().bytes
                        == slashed(
                        slashed(slashed(path_bytes(*base), "namespaces"@), sanitized(name@)),
                        "run"@,
                    )
                    &&& is_ascii_chars(name@) && sanitized(name@).len() > 0 ==> is_plain_name(
                        sanitized(name@),
                    )
                },
                _ => true,
            },
    {
        match validate_session(session) {
            Ok(_) => {},
            Err(message) => {
                return Err(ChannelFailure::before_send(message.as_str()));
            },
        }
        let own: Option<String> = match namespace {
            Some(name) => {
                let clean = sanitize_component(name);
                proof {
                    if is_slug(clean@) && clean@.len() > 0 {
                        lemma_slugs_are_plain(clean@);
                    }
                }
                if clean.as_str().is_empty() {
                    None
                } else {
                    Some(clean)
                }
            },
            None => None,
        };
        let named: Option<&str> = match &own {
            Some(name) => Some(name.as_str()),
            None => None,
        };
        Ok(
            SessionKey {
                socket_dir: namespaced_socket_dir(copy_path(base), named),
                session: session.to_owned(),
                port_identity: if separates_by_backslash(base) {
                    Some(port_identity(session, named))
                } else {
                    None
                },
            },
        )
    }

    /// The name of the session.
    pub fn session(&self) -> (name: &str)
        ensures
            name@ == self@.session,
            is_session_name(name@),
            is_file_safe(name@),
    {
        proof {
            use_type_invariant(self);
        }
        self.session.as_str()
    }

    /// The directory of the socket.
    pub fn socket_dir(&self) -> (dir: &PathBuf)
        ensures
            path_view(*dir) == self.dir(),
            self@.socket_dir == self.dir().parts(),
    {
        &self.socket_dir
    }

    /// The socket of the daemon. Behind the directory comes one file name, without any
    /// separator.
    pub fn socket_path(&self) -> (path: PathBuf)
        ensures
            path_view(path) == self.dir().joined(self@.session + ".sock"@),
            !self.dir().windows ==> path_bytes(path) == slashed(
                self.dir().bytes,
                self@.session + ".sock"@,
            ),
            !is_verbatim(self.dir()) ==> stands_below(
                self.dir().bytes,
                self@.session + ".sock"@,
                path_bytes(path),
            ),
            is_plain_name(self@.session + ".sock"@),
    {
        proof {
            use_type_invariant(self);
            law_file_names_are_plain(self.session@, ".sock"@);
        }
        let mut name = self.session.clone();
        name.append(".sock");
        let path = join(&self.socket_dir, name.as_str());
        proof {
            if !is_verbatim(self.dir()) {
                law_plain_names_stay_below(self.dir(), name@);
            }
        }
        path
    }

    /// The file in which a daemon that listens on a port announces it. Behind the directory comes
    /// one file name, without any separator.
    pub fn port_path(&self) -> (path: PathBuf)
        ensures
            path_view(path) == self.dir().joined(self@.session + ".port"@),
            !self.dir().windows ==> path_bytes(path) == slashed(
                self.dir().bytes,
                self@.session + ".port"@,
            ),
            !is_verbatim(self.dir()) ==> stands_below(
                self.dir().bytes,
                self@.session + ".port"@,
                path_bytes(path),
            ),
            is_plain_name(self@.session + ".port"@),
    {
        proof {
            use_type_invariant(self);
            law_file_names_are_plain(self.session@, ".port"@);
        }
        let mut name = self.session.clone();
        name.append(".port");
        let path = join(&self.socket_dir, name.as_str());
        proof {
            if !is_verbatim(self.dir()) {
                law_plain_names_stay_below(self.dir(), name@);
            }
        }
        path
    }

    /// The port of the daemon on Windows, given what its port file holds. Elsewhere the daemon
    /// listens on no port.
    pub fn port(&self, file: Option<&str>) -> (port: Option<u16>)
        ensures
            match (port, self@.port_identity) {
                (Some(number), Some(identity)) => number == announced_port(
                    optional_text(file),
                    identity,
                ),
                (None, None) => true,
                _ => false,
            },
    {
        match &self.port_identity {
            Some(identity) => Some(choose_port(file, identity.as_str())),
            None => None,
        }
    }
}

impl Key for SessionKey {
    fn is_same(&self, other: &SessionKey) -> (answer: bool) {
        same(self.session.as_str(), other.session.as_str()) && same_path(
            &self.socket_dir,
            &other.socket_dir,
        ) && match (&self.port_identity, &other.port_identity) {
            (Some(left), Some(right)) => same(left.as_str(), right.as_str()),
            (None, None) => true,
            _ => false,
        }
    }
}

impl Clone for SessionKey {
    fn clone(&self) -> (copy: SessionKey)
        ensures
            copy@ == self@,
            copy.dir() == self.dir(),
    {
        proof {
            use_type_invariant(self);
        }
        SessionKey {
            socket_dir: copy_path(&self.socket_dir),
            session: self.session.clone(),
            port_identity: self.port_identity.clone(),
        }
    }
}

/// The files of a session have plain names, so that they lie in the directory of the namespace
/// itself.
pub proof fn law_file_names_are_plain(session: Seq<char>, suffix: Seq<char>)
    requires
        is_session_name(session),
        is_file_safe(session),
        suffix == ".sock"@ || suffix == ".port"@,
    ensures
        is_plain_name(session + suffix),
{
    reveal_strlit(".sock");
    reveal_strlit(".port");
    reveal_strlit(".");
    reveal_strlit("..");
    let name = session + suffix;
    assert("."@.len() == 1 && ".."@.len() == 2 && suffix.len() == 5);
    assert forall|i: int| 0 <= i < name.len() implies #[trigger] name[i] != '/' && name[i] != '\\'
        && name[i] != ':' by {
        if i < session.len() {
            assert(name[i] == session[i]);
        } else {
            assert(name[i] == suffix[i - session.len()]);
        }
    }
}

/// Whether the directory of a namespace, where it has one, is a plain name.
pub open spec fn is_plain_namespace(namespace: Option<Seq<char>>) -> bool {
    match effective_namespace(namespace) {
        Some(name) => is_plain_name(name),
        None => true,
    }
}

/// Ports are picked apart: for one session, two namespaces have the same identity only where they
/// are the same.
pub proof fn law_identities_keep_apart(
    session: Seq<char>,
    left: Option<Seq<char>>,
    right: Option<Seq<char>>,
)
    ensures
        identity_of(session, left) == identity_of(session, right) <==> left == right,
{
    reveal_strlit(":");
    assert(":"@.len() == 1);
    if identity_of(session, left) == identity_of(session, right) {
        let whole = identity_of(session, left);
        assert(left is Some <==> right is Some) by {
            assert(left is Some ==> whole.len() == left->0.len() + 1 + session.len());
            assert(right is Some ==> whole.len() == right->0.len() + 1 + session.len());
        }
        if left is Some {
            let count = whole.len() - 1 - session.len();
            assert(left->0 =~= whole.take(count));
            assert(right->0 =~= whole.take(count));
        }
    }
}

/// There is one key for each namespace and session: below one directory, two requests have the same
/// key exactly where they name the same session and their namespaces count as the same. Elsewhere
/// than on Windows this asks that the directories of the namespaces are plain names, as those of
/// namespaces in ASCII are.
pub proof fn law_one_key_per_namespace_and_session(
    base: PathView,
    session: Seq<char>,
    namespace: Option<Seq<char>>,
    other_session: Seq<char>,
    other_namespace: Option<Seq<char>>,
)
    requires
        base.windows || is_plain_namespace(namespace) && is_plain_namespace(other_namespace),
    ensures
        session_key(session, namespace, base) == session_key(other_session, other_namespace, base)
            <==> session == other_session && effective_namespace(namespace) == effective_namespace(
            other_namespace,
        ),
{
    let own = effective_namespace(namespace);
    let other = effective_namespace(other_namespace);
    if base.windows {
        law_identities_keep_apart(session, own, other);
    } else {
        match (own, other) {
            (Some(left), Some(right)) => law_namespaces_keep_apart(base, left, right),
            (Some(left), None) => law_namespaces_keep_apart(base, left, left),
            (None, Some(right)) => law_namespaces_keep_apart(base, right, right),
            (None, None) => {},
        }
    }
}

/// Without a namespace that names a directory, the sockets lie in the base directory itself.
pub proof fn law_no_namespace_is_the_base(
    session: Seq<char>,
    namespace: Option<Seq<char>>,
    base: PathView,
)
    requires
        namespace matches Some(name) ==> sanitized(name).len() == 0,
    ensures
        session_key(session, namespace, base).socket_dir == base.parts(),
        namespaced_dir(base, effective_namespace(namespace)) == base,
{
}

/// What went wrong when the daemon at `place` did not answer.
pub open spec fn unreachable_message(place: Seq<char>, error: Seq<char>) -> Seq<char> {
    "cannot connect to "@ + place + ": "@ + error
        + "; establish the session once with agent-browser"@
}

/// The failure of connecting to the daemon at `place`.
pub fn connect_failure(place: &str, error: &str) -> (failure: ChannelFailure)
    ensures
        failure@ == unsent(unreachable_message(place@, error@)),
{
    let mut message = "cannot connect to ".to_owned();
    message.append(place);
    message.append(": ");
    message.append(error);
    message.append("; establish the session once with agent-browser");
    ChannelFailure { stage: FailureStage::BeforeSend, message }
}

// ---------------------------------------------------------------------------
// One command over one connection
// ---------------------------------------------------------------------------

/// How far a command over one connection has come.
#[derive(Debug, Clone, Copy, PartialEq, Eq, Structural)]
pub enum ExchangeStage {
    /// The timeouts of the connection are being set.
    Configuring,
    /// The command is being written.
    Transmitting,
    /// The response is being read.
    Receiving,
}

/// A command that is under way over one connection.
pub struct Exchange {
    pub stage: ExchangeStage,
    pub command: Json,
}

/// What to do with the connection.
#[derive(Debug, PartialEq, Eq)]
pub enum Operation {
    /// Set its timeouts.
    Configure,
    /// Write these bytes and flush.
    Write(Vec<u8>),
    /// Read up to the first newline, and no more than this many bytes.
    Read(u64),
}

/// What comes next.
pub enum ExchangeStep {
    /// Do this, and report how it went.
    Perform(Exchange, Operation),
    /// The exchange is over.
    Done(Result<Json, ChannelFailure>),
}

/// The model of an operation.
#[verifier::ext_equal]
pub enum OperationView {
    Configure,
    Write(Seq<u8>),
    Read(u64),
}

/// The model of a step.
#[verifier::ext_equal]
pub enum ExchangeStepView {
    Perform(ExchangeStage, OperationView),
    Done(Result<JsonView, FailureView>),
}

impl View for Operation {
    type V = OperationView;

    open spec fn view(&self) -> OperationView {
        match self {
            Operation::Configure => OperationView::Configure,
            Operation::Write(bytes) => OperationView::Write(bytes@),
            Operation::Read(limit) => OperationView::Read(*limit),
        }
    }
}

/// The model of a response or a failure.
pub open spec fn response_view(result: Result<Json, ChannelFailure>) -> Result<
    JsonView,
    FailureView,
> {
    match result {
        Ok(json) => Ok(json@),
        Err(failure) => Err(failure@),
    }
}

/// The model of how an operation went.
pub open spec fn outcome_view(outcome: Result<Vec<u8>, String>) -> Result<Seq<u8>, Seq<char>> {
    match outcome {
        Ok(bytes) => Ok(bytes@),
        Err(message) => Err(message@),
    }
}

impl View for ExchangeStep {
    type V = ExchangeStepView;

    open spec fn view(&self) -> ExchangeStepView {
        match self {
            ExchangeStep::Perform(exchange, operation) => ExchangeStepView::Perform(
                exchange.stage,
                operation@,
            ),
            ExchangeStep::Done(result) => ExchangeStepView::Done(response_view(*result)),
        }
    }
}

/// `bytes` without the carriage returns and newlines at its end.
pub open spec fn without_newlines(bytes: Seq<u8>) -> Seq<u8>
    decreases bytes.len(),
{
    if bytes.len() > 0 && (bytes.last() == 10 || bytes.last() == 13) {
        without_newlines(bytes.drop_last())
    } else {
        bytes
    }
}

/// What the bytes of a response mean.
pub open spec fn received(bytes: Seq<u8>) -> Result<JsonView, FailureView> {
    if bytes.len() == 0 {
        Err(undecided("daemon closed the persistent channel before responding"@))
    } else if bytes.len() > MAX_RESPONSE_BYTES {
        Err(undecided("daemon response exceeded 32 MiB"@))
    } else {
        match parsed_json_bytes(without_newlines(bytes)) {
            Ok(json) => Ok(json),
            Err(error) => Err(undecided("daemon returned invalid JSON: "@ + error)),
        }
    }
}

/// The line that carries a command.
pub open spec fn command_line(command: JsonView) -> Seq<u8> {
    encode_utf8(json_text(command)).push(10)
}

/// What follows an operation. Before the command is written, a failure leaves it unsent; from then
/// on every failure leaves its delivery unknown.
pub open spec fn exchange_step(
    stage: ExchangeStage,
    command: JsonView,
    outcome: Result<Seq<u8>, Seq<char>>,
) -> ExchangeStepView {
    match (stage, outcome) {
        (ExchangeStage::Configuring, Err(error)) => ExchangeStepView::Done(
            Err(unsent("failed to configure daemon channel: "@ + error)),
        ),
        (ExchangeStage::Configuring, Ok(_)) => if command_line(command).len() - 1
            > MAX_REQUEST_BYTES {
            ExchangeStepView::Done(Err(unsent("daemon command exceeded 4 MiB"@)))
        } else {
            ExchangeStepView::Perform(
                ExchangeStage::Transmitting,
                OperationView::Write(command_line(command)),
            )
        },
        (ExchangeStage::Transmitting, Err(error)) => ExchangeStepView::Done(
            Err(undecided("failed while transmitting daemon command: "@ + error)),
        ),
        (ExchangeStage::Transmitting, Ok(_)) => ExchangeStepView::Perform(
            ExchangeStage::Receiving,
            OperationView::Read((MAX_RESPONSE_BYTES + 1) as u64),
        ),
        (ExchangeStage::Receiving, Err(error)) => ExchangeStepView::Done(
            Err(undecided("failed to read daemon response: "@ + error)),
        ),
        (ExchangeStage::Receiving, Ok(bytes)) => ExchangeStepView::Done(received(bytes)),
    }
}

/// Whether `line` is one line: its last byte is a newline and no other byte is.
pub open spec fn is_one_line(line: Seq<u8>) -> bool {
    &&& line.len() > 0
    &&& line.last() == 10
    &&& forall|i: int| 0 <= i < line.len() - 1 ==> #[trigger] line[i] != 10
}

/// Whether `body` is what stands in `bytes` before the carriage returns and newlines at its end.
pub open spec fn is_body_of(body: Seq<u8>, bytes: Seq<u8>) -> bool {
    &&& body.is_prefix_of(bytes)
    &&& body.len() > 0 ==> body.last() != 10 && body.last() != 13
    &&& forall|i: int| body.len() <= i < bytes.len() ==> #[trigger] bytes[i] == 10 || bytes[i] == 13
}

/// What the bytes of a response mean. Bytes that came and are no more than 32 MiB are read as the
/// value that stands before the newlines at their end.
pub fn read_response(bytes: Vec<u8>) -> (result: Result<Json, ChannelFailure>)
    ensures
        response_view(result) == received(bytes@),
        forall|body: Seq<u8>| #[trigger]
            is_body_of(body, bytes@) && 0 < bytes@.len() <= 33_554_432 ==> response_view(result)
                == match parsed_json_bytes(body) {
                Ok(json) => Ok::<JsonView, FailureView>(json),
                Err(error) => Err(
                    FailureView {
                        stage: FailureStage::DeliveryUnknown,
                        message: "daemon returned invalid JSON: "@ + error,
                    },
                ),
            },
{
    proof {
        assert forall|body: Seq<u8>| #[trigger]
            is_body_of(body, bytes@) && 0 < bytes@.len() <= 33_554_432 implies received(bytes@)
            == match parsed_json_bytes(body) {
            Ok(json) => Ok::<JsonView, FailureView>(json),
            Err(error) => Err(
                FailureView {
                    stage: FailureStage::DeliveryUnknown,
                    message: "daemon returned invalid JSON: "@ + error,
                },
            ),
        } by {
            law_responses_are_read_whole(bytes@, body);
        }
    }
    if bytes.len() == 0 {
        return Err(
            ChannelFailure::delivery_unknown(
                "daemon closed the persistent channel before responding",
            ),
        );
    }
    if bytes.len() > MAX_RESPONSE_BYTES {
        return Err(ChannelFailure::delivery_unknown("daemon response exceeded 32 MiB"));
    }
    let ghost whole = bytes@;
    let mut response = bytes;
    while response.len() > 0 && (response[response.len() - 1] == 10 || response[response.len() - 1]
        == 13)
        invariant
            without_newlines(response@) == without_newlines(whole),
        decreases response@.len(),
    {
        let ghost before = response@;
        let last = response.pop();
        assert(response@ =~= before.drop_last());
    }
    match Json::parse_bytes(response.as_slice()) {
        Ok(json) => Ok(json),
        Err(error) => {
            let mut message = "daemon returned invalid JSON: ".to_owned();
            message.append(error.as_str());
            Err(ChannelFailure { stage: FailureStage::DeliveryUnknown, message })
        },
    }
}

/// A failure whose words are `cause` and then `error`.
fn failure_because(stage: FailureStage, cause: &str, error: &str) -> (failure: ChannelFailure)
    ensures
        failure@ == (FailureView { stage, message: cause@ + error@ }),
{
    let mut message = cause.to_owned();
    message.append(error);
    ChannelFailure { stage, message }
}

impl Exchange {
    /// Starts a command over a connection; the first operation is to configure the connection.
    pub fn start(command: Json) -> (exchange: Exchange)
        ensures
            exchange.stage == ExchangeStage::Configuring,
            exchange.command@ == command@,
    {
        Exchange { stage: ExchangeStage::Configuring, command }
    }

    /// What follows the last operation. Bytes that are to be written are one line.
    pub fn advance(self, outcome: Result<Vec<u8>, String>) -> (step: ExchangeStep)
        ensures
            step@ == exchange_step(self.stage, self.command@, outcome_view(outcome)),
            step matches ExchangeStep::Perform(next, _) ==> next.command@ == self.command@,
            step matches ExchangeStep::Perform(_, Operation::Write(line)) ==> is_one_line(line@),
    {
        match (self.stage, outcome) {
            (ExchangeStage::Configuring, Err(error)) => ExchangeStep::Done(
                Err(
                    failure_because(
                        FailureStage::BeforeSend,
                        "failed to configure daemon channel: ",
                        error.as_str(),
                    ),
                ),
            ),
            (ExchangeStage::Configuring, Ok(_)) => {
                match self.command.to_bytes() {
                    Err(error) => ExchangeStep::Done(
                        Err(
                            failure_because(
                                FailureStage::BeforeSend,
                                "failed to encode daemon command: ",
                                error.as_str(),
                            ),
                        ),
                    ),
                    Ok(payload) => {
                        let mut line = payload;
                        if line.len() > MAX_REQUEST_BYTES {
                            ExchangeStep::Done(
                                Err(ChannelFailure::before_send("daemon command exceeded 4 MiB")),
                            )
                        } else {
                            line.push(10);
                            ExchangeStep::Perform(
                                Exchange {
                                    stage: ExchangeStage::Transmitting,
                                    command: self.command,
                                },
                                Operation::Write(line),
                            )
                        }
                    },
                }
            },
            (ExchangeStage::Transmitting, Err(error)) => ExchangeStep::Done(
                Err(
                    failure_because(
                        FailureStage::DeliveryUnknown,
                        "failed while transmitting daemon command: ",
                        error.as_str(),
                    ),
                ),
            ),
            (ExchangeStage::Transmitting, Ok(_)) => ExchangeStep::Perform(
                Exchange { stage: ExchangeStage::Receiving, command: self.command },
                Operation::Read((MAX_RESPONSE_BYTES + 1) as u64),
            ),
            (ExchangeStage::Receiving, Err(error)) => ExchangeStep::Done(
                Err(
                    failure_because(
                        FailureStage::DeliveryUnknown,
                        "failed to read daemon response: ",
                        error.as_str(),
                    ),
                ),
            ),
            (ExchangeStage::Receiving, Ok(bytes)) => ExchangeStep::Done(read_response(bytes)),
        }
    }
}

/// What an exchange has done by the time its operations went as `outcomes` says: how often it wrote
/// to the connection, and its result once it is over.
pub struct ExchangeRun {
    pub writes: nat,
    pub result: Option<Result<JsonView, FailureView>>,
}

/// The run of an exchange from `stage` on.
pub open spec fn exchange_run(
    stage: ExchangeStage,
    command: JsonView,
    outcomes: Seq<Result<Seq<u8>, Seq<char>>>,
) -> ExchangeRun
    decreases outcomes.len(),
{
    if outcomes.len() == 0 {
        ExchangeRun { writes: 0, result: None }
    } else {
        match exchange_step(stage, command, outcomes[0]) {
            ExchangeStepView::Done(result) => ExchangeRun { writes: 0, result: Some(result) },
            ExchangeStepView::Perform(next, operation) => {
                let rest = exchange_run(next, command, outcomes.drop_first());
                ExchangeRun {
                    writes: rest.writes + if operation is Write {
                        1nat
                    } else {
                        0nat
                    },
                    result: rest.result,
                }
            },
        }
    }
}

/// Whatever happens, an exchange writes its command at most once; a failure that counts as unsent
/// comes without any write, and every other end comes after the one write.
pub proof fn law_exchange_writes_at_most_once(
    command: JsonView,
    outcomes: Seq<Result<Seq<u8>, Seq<char>>>,
)
    ensures
        ({
            let run = exchange_run(ExchangeStage::Configuring, command, outcomes);
            &&& run.writes <= 1
            &&& run.result matches Some(result) ==> (run.writes == 0 <==> (result matches Err(
                failure,
            ) && failure.stage == FailureStage::BeforeSend))
        }),
{
    reveal_with_fuel(exchange_run, 5);
}

// ---------------------------------------------------------------------------
// The pool of connections
// ---------------------------------------------------------------------------

/// The response to a command, and how it was carried.
#[derive(Debug)]
pub struct SendOutcome {
    pub response: Json,
    pub transport: &'static str,
    pub reused_connection: bool,
    pub reconnected: bool,
}

/// The model of an outcome.
#[verifier::ext_equal]
pub struct SendOutcomeView {
    pub response: JsonView,
    pub transport: Seq<char>,
    pub reused_connection: bool,
    pub reconnected: bool,
}

impl View for SendOutcome {
    type V = SendOutcomeView;

    open spec fn view(&self) -> SendOutcomeView {
        SendOutcomeView {
            response: self.response@,
            transport: self.transport@,
            reused_connection: self.reused_connection,
            reconnected: self.reconnected,
        }
    }
}

impl Clone for SendOutcome {
    fn clone(&self) -> (copy: SendOutcome)
        ensures
            copy@ == self@,
    {
        SendOutcome {
            response: self.response.clone(),
            transport: self.transport,
            reused_connection: self.reused_connection,
            reconnected: self.reconnected,
        }
    }
}

/// A send that waits for a connection to the daemon of `key`.
pub struct ConnectTicket {
    pub key: SessionKey,
    /// Whether an attempt to send has failed already.
    pub retry: bool,
}

/// A send whose command is under way over a connection to the daemon of `key`.
pub struct ExchangeTicket {
    pub key: SessionKey,
    /// Whether the connection was open before.
    pub reused: bool,
    /// Whether an attempt to send has failed already.
    pub retry: bool,
}

/// What comes next in a send over connections of type `C`.
pub enum SendStep<C> {
    /// Connect to the daemon, and report how it went.
    Connect(ConnectTicket),
    /// Run the command over this connection, and report how it went.
    Exchange(ExchangeTicket, C),
    /// The send is over.
    Done(Result<SendOutcome, ChannelFailure>),
}

/// The model of a step.
#[verifier::ext_equal]
pub enum SendStepView<C> {
    Connect { key: SessionKeyView, dir: PathView, retry: bool },
    Exchange { key: SessionKeyView, dir: PathView, reused: bool, retry: bool, connection: C },
    Done(Result<SendOutcomeView, FailureView>),
}

/// The model of the result of a send.
pub open spec fn send_result_view(result: Result<SendOutcome, ChannelFailure>) -> Result<
    SendOutcomeView,
    FailureView,
> {
    match result {
        Ok(outcome) => Ok(outcome@),
        Err(failure) => Err(failure@),
    }
}

impl<C> View for SendStep<C> {
    type V = SendStepView<C>;

    open spec fn view(&self) -> SendStepView<C> {
        match self {
            SendStep::Connect(ticket) => SendStepView::Connect {
                key: ticket.key@,
                dir: ticket.key.dir(),
                retry: ticket.retry,
            },
            SendStep::Exchange(ticket, connection) => SendStepView::Exchange {
                key: ticket.key@,
                dir: ticket.key.dir(),
                reused: ticket.reused,
                retry: ticket.retry,
                connection: *connection,
            },
            SendStep::Done(result) => SendStepView::Done(send_result_view(*result)),
        }
    }
}

/// Whether a send tries once more: the first attempt failed before anything was sent.
pub open spec fn tries_again<T>(retry: bool, result: Result<T, FailureView>) -> bool {
    !retry && (result matches Err(failure) && failure.stage == FailureStage::BeforeSend)
}

/// What a send does first: it uses the open connection, or connects.
pub open spec fn first_send_step<C>(
    pool: Map<SessionKeyView, C>,
    key: SessionKeyView,
    dir: PathView,
) -> SendStepView<C> {
    if pool.contains_key(key) {
        SendStepView::Exchange { key, dir, reused: true, retry: false, connection: pool[key] }
    } else {
        SendStepView::Connect { key, dir, retry: false }
    }
}

/// What a send does after connecting.
pub open spec fn after_connect<C>(
    key: SessionKeyView,
    dir: PathView,
    retry: bool,
    result: Result<C, FailureView>,
) -> SendStepView<C> {
    match result {
        Ok(connection) => SendStepView::Exchange { key, dir, reused: false, retry, connection },
        Err(failure) => SendStepView::Done(Err(failure)),
    }
}

/// What a send does after the command was run over a connection.
pub open spec fn after_exchange<C>(
    key: SessionKeyView,
    dir: PathView,
    reused: bool,
    retry: bool,
    transport: Seq<char>,
    result: Result<JsonView, FailureView>,
) -> SendStepView<C> {
    match result {
        Ok(response) => SendStepView::Done(
            Ok(
                SendOutcomeView {
                    response,
                    transport,
                    reused_connection: reused,
                    reconnected: retry,
                },
            ),
        ),
        Err(failure) => if tries_again(retry, result) {
            SendStepView::Connect { key, dir, retry: true }
        } else {
            SendStepView::Done(Err(failure))
        },
    }
}

/// The model of how connecting went.
pub open spec fn connection_view<C>(result: Result<C, ChannelFailure>) -> Result<C, FailureView> {
    match result {
        Ok(connection) => Ok(connection),
        Err(failure) => Err(failure@),
    }
}

/// One connection of type `C` for each session.
pub struct ChannelPool<C> {
    pub channels: Registry<SessionKey, C>,
}

impl<C> View for ChannelPool<C> {
    type V = Map<SessionKeyView, C>;

    open spec fn view(&self) -> Map<SessionKeyView, C> {
        self.channels@
    }
}

impl<C> ChannelPool<C> {
    /// No connections.
    pub fn new() -> (pool: ChannelPool<C>)
        ensures
            pool@ == Map::<SessionKeyView, C>::empty(),
    {
        ChannelPool { channels: Registry::new() }
    }

    /// Whether a connection to the daemon of `key` is open.
    pub fn contains(&self, key: &SessionKey) -> (answer: bool)
        ensures
            answer == self@.contains_key(key@),
    {
        self.channels.contains(key)
    }

    /// Drops the connection to the daemon of `key`, and says whether one was open.
    pub fn close(&mut self, key: &SessionKey) -> (closed: bool)
        ensures
            closed == old(self)@.contains_key(key@),
            final(self)@ == old(self)@.remove(key@),
    {
        self.channels.take(key).is_some()
    }

    /// Starts to send a command to the daemon of `key`: over the open connection, which leaves the
    /// pool while the command is under way, or over a new one.
    pub fn send(&mut self, key: SessionKey) -> (step: SendStep<C>)
        ensures
            final(self)@ == old(self)@.remove(key@),
            step@ == first_send_step(old(self)@, key@, key.dir()),
    {
        match self.channels.take(&key) {
            Some(connection) => SendStep::Exchange(
                ExchangeTicket { key, reused: true, retry: false },
                connection,
            ),
            None => SendStep::Connect(ConnectTicket { key, retry: false }),
        }
    }

    /// Goes on after connecting: with a connection the command is run, a failure ends the send.
    pub fn connected(
        &mut self,
        ticket: ConnectTicket,
        result: Result<C, ChannelFailure>,
    ) -> (step: SendStep<C>)
        ensures
            final(self)@ == old(self)@,
            step@ == after_connect(
                ticket.key@,
                ticket.key.dir(),
                ticket.retry,
                connection_view(result),
            ),
    {
        match result {
            Ok(connection) => SendStep::Exchange(
                ExchangeTicket { key: ticket.key, reused: false, retry: ticket.retry },
                connection,
            ),
            Err(failure) => SendStep::Done(Err(failure)),
        }
    }

    /// Goes on after the command was run over `connection`. With a response the connection stays in
    /// the pool. A connection that failed is dropped; where the command is unsent, a first failure
    /// is followed by one new connection, and any other failure ends the send.
    pub fn exchanged(
        &mut self,
        ticket: ExchangeTicket,
        connection: C,
        transport: &'static str,
        result: Result<Json, ChannelFailure>,
    ) -> (step: SendStep<C>)
        ensures
            final(self)@ == if result is Ok {
                old(self)@.insert(ticket.key@, connection)
            } else {
                old(self)@
            },
            step@ == after_exchange::<C>(
                ticket.key@,
                ticket.key.dir(),
                ticket.reused,
                ticket.retry,
                transport@,
                response_view(result),
            ),
    {
        match result {
            Ok(response) => {
                self.channels.put(ticket.key, connection);
                SendStep::Done(
                    Ok(
                        SendOutcome {
                            response,
                            transport,
                            reused_connection: ticket.reused,
                            reconnected: ticket.retry,
                        },
                    ),
                )
            },
            Err(failure) => {
                if !ticket.retry && failure.stage == FailureStage::BeforeSend {
                    SendStep::Connect(ConnectTicket { key: ticket.key, retry: true })
                } else {
                    SendStep::Done(Err(failure))
                }
            },
        }
    }
}

impl<C> Default for ChannelPool<C> {
    /// No connections.
    fn default() -> (pool: ChannelPool<C>)
        ensures
            pool@ == Map::<SessionKeyView, C>::empty(),
    {
        ChannelPool::new()
    }
}

/// What is reported to a send.
pub enum SendEvent<C> {
    /// How connecting went.
    Connected(Result<C, FailureView>),
    /// How the operations of an exchange went, over a connection of this transport.
    Exchanged(Seq<char>, Seq<Result<Seq<u8>, Seq<char>>>),
}

/// What a send has done by some time: how often it wrote its command, over how many connections it
/// tried to, and its result once it is over.
pub struct SendRun {
    pub writes: nat,
    pub exchanges: nat,
    pub result: Option<Result<SendOutcomeView, FailureView>>,
}

/// The run of a send of `command` from `step` on, while `events` are reported to it. It stands
/// still where an event does not answer its step or an exchange is not over.
pub open spec fn send_run<C>(
    step: SendStepView<C>,
    command: JsonView,
    events: Seq<SendEvent<C>>,
) -> SendRun
    decreases events.len(),
{
    match step {
        SendStepView::Done(result) => SendRun { writes: 0, exchanges: 0, result: Some(result) },
        SendStepView::Connect { key, dir, retry } => if events.len() > 0 && events[0] is Connected {
            send_run(
                after_connect(key, dir, retry, events[0]->Connected_0),
                command,
                events.drop_first(),
            )
        } else {
            SendRun { writes: 0, exchanges: 0, result: None }
        },
        SendStepView::Exchange { key, dir, reused, retry, connection } => if events.len() > 0
            && events[0] is Exchanged {
            let transport = events[0]->Exchanged_0;
            let run = exchange_run(ExchangeStage::Configuring, command, events[0]->Exchanged_1);
            match run.result {
                Some(result) => {
                    let rest = send_run(
                        after_exchange::<C>(key, dir, reused, retry, transport, result),
                        command,
                        events.drop_first(),
                    );
                    SendRun {
                        writes: run.writes + rest.writes,
                        exchanges: 1 + rest.exchanges,
                        result: rest.result,
                    }
                },
                None => SendRun { writes: run.writes, exchanges: 1, result: None },
            }
        } else {
            SendRun { writes: 0, exchanges: 0, result: None }
        },
    }
}

/// How many more connections a send may run its command over.
spec fn exchanges_left<C>(step: SendStepView<C>) -> nat {
    match step {
        SendStepView::Done(_) => 0,
        SendStepView::Connect { retry, .. } => if retry {
            1
        } else {
            2
        },
        SendStepView::Exchange { retry, .. } => if retry {
            1
        } else {
            2
        },
    }
}

/// What holds of the run of a send from any step on.
proof fn lemma_send_run<C>(step: SendStepView<C>, command: JsonView, events: Seq<SendEvent<C>>)
    ensures
        ({
            let run = send_run(step, command, events);
            &&& run.writes <= 1
            &&& run.exchanges <= exchanges_left(step)
            &&& step is Done ==> run.writes == 0
            &&& !(step is Done) ==> match run.result {
                Some(Ok(_)) => run.writes == 1,
                Some(Err(failure)) => failure.stage == FailureStage::BeforeSend ==> run.writes == 0,
                None => true,
            }
        }),
    decreases events.len(),
{
    match step {
        SendStepView::Done(_) => {},
        SendStepView::Connect { key, dir, retry } => if events.len() > 0 && events[0] is Connected {
            lemma_send_run(
                after_connect(key, dir, retry, events[0]->Connected_0),
                command,
                events.drop_first(),
            );
        },
        SendStepView::Exchange { key, dir, reused, retry, .. } => if events.len() > 0
            && events[0] is Exchanged {
            let transport = events[0]->Exchanged_0;
            let outcomes = events[0]->Exchanged_1;
            let run = exchange_run(ExchangeStage::Configuring, command, outcomes);
            law_exchange_writes_at_most_once(command, outcomes);
            if run.result is Some {
                lemma_send_run(
                    after_exchange::<C>(key, dir, reused, retry, transport, run.result->0),
                    command,
                    events.drop_first(),
                );
            }
        },
    }
}

/// A command is delivered at most once: whatever connections a pool holds and whatever happens on
/// them, a send writes its command at most once, over at most two connections. It has written the
/// command where it ends with a response, and has not where it ends with a failure that counts as
/// unsent.
pub proof fn law_send_delivers_at_most_once<C>(
    pool: Map<SessionKeyView, C>,
    key: SessionKeyView,
    dir: PathView,
    command: JsonView,
    events: Seq<SendEvent<C>>,
)
    ensures
        ({
            let run = send_run(first_send_step(pool, key, dir), command, events);
            &&& run.writes <= 1
            &&& run.exchanges <= 2
            &&& match run.result {
                Some(Ok(_)) => run.writes == 1,
                Some(Err(failure)) => failure.stage == FailureStage::BeforeSend ==> run.writes == 0,
                None => true,
            }
        }),
{
    lemma_send_run(first_send_step(pool, key, dir), command, events);
}

/// A send tries again at most once, and never when the command may have been delivered.
pub proof fn law_no_replay(retry: bool, failure: FailureView)
    ensures
        tries_again::<JsonView>(retry, Err(failure)) ==> !retry && failure.stage
            == FailureStage::BeforeSend,
        failure.stage == FailureStage::DeliveryUnknown ==> !tries_again::<JsonView>(
            retry,
            Err(failure),
        ),
        !tries_again::<JsonView>(true, Err(failure)),
{
}

/// The words of a failure whose delivery is unknown say that the command was not replayed.
pub proof fn law_unknown_delivery_is_announced(failure: FailureView)
    requires
        failure.stage == FailureStage::DeliveryUnknown,
    ensures
        occurs_in("was not replayed"@, failure.words()),
{
    reveal_strlit("was not replayed");
    reveal_strlit("; command delivery is unknown and was not replayed");
    let words = failure.words();
    let at = words.len() - "was not replayed"@.len();
    assert(words.subrange(at, at + "was not replayed"@.len()) =~= "was not replayed"@);
}

proof fn lemma_newlines_are_cut(bytes: Seq<u8>, body: Seq<u8>)
    requires
        is_body_of(body, bytes),
    ensures
        without_newlines(bytes) == body,
    decreases bytes.len() - body.len(),
{
    if body.len() < bytes.len() {
        assert(bytes.last() == bytes[bytes.len() - 1]);
        assert(body.is_prefix_of(bytes.drop_last()));
        lemma_newlines_are_cut(bytes.drop_last(), body);
    } else {
        assert(bytes =~= body);
    }
}

/// Bytes that came and are no more than 32 MiB are read as exactly the value that stands before the
/// carriage returns and newlines at their end. Where that is no value, where nothing came, and
/// where more came than that, the command may have been delivered all the same.
pub proof fn law_responses_are_read_whole(bytes: Seq<u8>, body: Seq<u8>)
    requires
        is_body_of(body, bytes),
    ensures
        0 < bytes.len() <= 33_554_432 ==> received(bytes) == match parsed_json_bytes(body) {
            Ok(json) => Ok::<JsonView, FailureView>(json),
            Err(error) => Err(
                FailureView {
                    stage: FailureStage::DeliveryUnknown,
                    message: "daemon returned invalid JSON: "@ + error,
                },
            ),
        },
        bytes.len() == 0 ==> received(bytes) == Err::<JsonView, FailureView>(
            FailureView {
                stage: FailureStage::DeliveryUnknown,
                message: "daemon closed the persistent channel before responding"@,
            },
        ),
        bytes.len() > 33_554_432 ==> received(bytes) == Err::<JsonView, FailureView>(
            FailureView {
                stage: FailureStage::DeliveryUnknown,
                message: "daemon response exceeded 32 MiB"@,
            },
        ),
{
    lemma_newlines_are_cut(bytes, body);
}

/// A command goes out as its compact text and one newline, where the text is no more than 4 MiB,
/// and is refused as unsent where it is more. Then a response of up to 32 MiB is read, and one byte
/// more so that a longer one is noticed.
pub proof fn law_commands_are_written_whole(
    command: JsonView,
    text: Seq<u8>,
    done: Seq<u8>,
    bytes: Seq<u8>,
)
    requires
        text == encode_utf8(json_text(command)),
    ensures
        text.len() <= 4_194_304 ==> exchange_step(ExchangeStage::Configuring, command, Ok(done))
            == ExchangeStepView::Perform(
            ExchangeStage::Transmitting,
            OperationView::Write(text.push(10)),
        ),
        text.len() > 4_194_304 ==> exchange_step(ExchangeStage::Configuring, command, Ok(done))
            == ExchangeStepView::Done(
            Err(
                FailureView {
                    stage: FailureStage::BeforeSend,
                    message: "daemon command exceeded 4 MiB"@,
                },
            ),
        ),
        exchange_step(ExchangeStage::Transmitting, command, Ok(done)) == ExchangeStepView::Perform(
            ExchangeStage::Receiving,
            OperationView::Read(33_554_433),
        ),
        exchange_step(ExchangeStage::Receiving, command, Ok(bytes)) == ExchangeStepView::Done(
            received(bytes),
        ),
{
}

/// What goes wrong before the command is written leaves it unsent, and what goes wrong from then on
/// leaves its delivery unknown; the words say what was going on.
pub proof fn law_failures_tell_their_stage(command: JsonView, error: Seq<char>)
    ensures
        exchange_step(ExchangeStage::Configuring, command, Err(error)) == ExchangeStepView::Done(
            Err(
                FailureView {
                    stage: FailureStage::BeforeSend,
                    message: "failed to configure daemon channel: "@ + error,
                },
            ),
        ),
        exchange_step(ExchangeStage::Transmitting, command, Err(error)) == ExchangeStepView::Done(
            Err(
                FailureView {
                    stage: FailureStage::DeliveryUnknown,
                    message: "failed while transmitting daemon command: "@ + error,
                },
            ),
        ),
        exchange_step(ExchangeStage::Receiving, command, Err(error)) == ExchangeStepView::Done(
            Err(
                FailureView {
                    stage: FailureStage::DeliveryUnknown,
                    message: "failed to read daemon response: "@ + error,
                },
            ),
        ),
{
}

/// The words of a failure are its message, and where the delivery is unknown a remark behind it
/// that the command was not replayed.
pub proof fn law_words_of_failures(message: Seq<char>)
    ensures
        (FailureView { stage: FailureStage::BeforeSend, message }).words() == message,
        (FailureView { stage: FailureStage::DeliveryUnknown, message }).words() == message
            + "; command delivery is unknown and was not replayed"@,
        unsent(message) == (FailureView { stage: FailureStage::BeforeSend, message }),
        undecided(message) == (FailureView { stage: FailureStage::DeliveryUnknown, message }),
{
}

/// A send uses the open connection of its key and else connects; the first attempt is no retry.
pub proof fn law_sends_start_with_the_open_connection<C>(
    pool: Map<SessionKeyView, C>,
    key: SessionKeyView,
    dir: PathView,
    connection: C,
)
    ensures
        first_send_step(pool.insert(key, connection), key, dir) == (SendStepView::Exchange {
            key,
            dir,
            reused: true,
            retry: false,
            connection,
        }),
        first_send_step(pool.remove(key), key, dir) == (SendStepView::<C>::Connect {
            key,
            dir,
            retry: false,
        }),
{
}

/// A new connection runs the command as no reused one. A response tells how it was carried: over
/// which transport, whether the connection was open before, and whether it is the second attempt. A
/// first attempt that left the command unsent is followed by one new connection, and every other
/// failure ends the send as it is.
pub proof fn law_sends_tell_how_they_went<C>(
    key: SessionKeyView,
    dir: PathView,
    reused: bool,
    retry: bool,
    transport: Seq<char>,
    connection: C,
    response: JsonView,
    message: Seq<char>,
)
    ensures
        after_connect(key, dir, retry, Ok(connection)) == (SendStepView::Exchange {
            key,
            dir,
            reused: false,
            retry,
            connection,
        }),
        after_connect::<C>(
            key,
            dir,
            retry,
            Err(FailureView { stage: FailureStage::BeforeSend, message }),
        ) == SendStepView::<C>::Done(Err(FailureView { stage: FailureStage::BeforeSend, message })),
        after_exchange::<C>(key, dir, reused, retry, transport, Ok(response))
            == SendStepView::<C>::Done(
            Ok(
                SendOutcomeView {
                    response,
                    transport,
                    reused_connection: reused,
                    reconnected: retry,
                },
            ),
        ),
        after_exchange::<C>(
            key,
            dir,
            reused,
            retry,
            transport,
            Err(FailureView { stage: FailureStage::BeforeSend, message }),
        ) == if retry {
            SendStepView::<C>::Done(Err(FailureView { stage: FailureStage::BeforeSend, message }))
        } else {
            SendStepView::Connect { key, dir, retry: true }
        },
        after_exchange::<C>(
            key,
            dir,
            reused,
            retry,
            transport,
            Err(FailureView { stage: FailureStage::DeliveryUnknown, message }),
        ) == SendStepView::<C>::Done(
            Err(FailureView { stage: FailureStage::DeliveryUnknown, message }),
        ),
{
}

/// The key of a session holds its name, the directory that its namespace leads to, and on Windows
/// the identity that its port is picked by: the name, with the namespace and a colon before it
/// where the namespace counts.
pub proof fn law_keys_hold_their_session(
    session: Seq<char>,
    namespace: Seq<char>,
    base: PathView,
)
    ensures
        session_key(session, None, base).session == session,
        session_key(session, Some(namespace), base).session == session,
        session_key(session, None, base).port_identity == if base.windows {
            Some(session)
        } else {
            None
        },
        base.windows && sanitized(namespace).len() > 0 ==> session_key(
            session,
            Some(namespace),
            base,
        ).port_identity == Some(sanitized(namespace) + ":"@ + session),
        sanitized(namespace).len() == 0 ==> session_key(session, Some(namespace), base)
            == session_key(session, None, base),
        effective_namespace(Some(namespace)) == if sanitized(namespace).len() > 0 {
            Some(sanitized(namespace))
        } else {
            None
        },
        effective_namespace(None) is None,
{
}

/// What is told of a session that may not be, and of a daemon that cannot be reached.
pub proof fn law_words_of_refusals(session: Seq<char>, place: Seq<char>, error: Seq<char>)
    ensures
        bad_session_message(session) == "invalid session name '"@ + session
            + "'; use alphanumeric characters, hyphens, or underscores"@,
        unreachable_message(place, error) == "cannot connect to "@ + place + ": "@ + error
            + "; establish the session once with agent-browser"@,
{
}

/// The models of failures, outcomes and steps show the fields as they are.
pub proof fn law_models_show_their_fields<C>(
    failure: ChannelFailure,
    outcome: SendOutcome,
    connect: ConnectTicket,
    exchange: ExchangeTicket,
    connection: C,
)
    ensures
        failure@.stage == failure.stage && failure@.message == failure.message@,
        outcome@.response == outcome.response@ && outcome@.transport == outcome.transport@,
        outcome@.reused_connection == outcome.reused_connection,
        outcome@.reconnected == outcome.reconnected,
        SendStep::<C>::Connect(connect)@ == (SendStepView::<C>::Connect {
            key: connect.key@,
            dir: connect.key.dir(),
            retry: connect.retry,
        }),
        SendStep::Exchange(exchange, connection)@ == (SendStepView::Exchange {
            key: exchange.key@,
            dir: exchange.key.dir(),
            reused: exchange.reused,
            retry: exchange.retry,
            connection,
        }),
        SendStep::<C>::Done(Ok(outcome))@ == SendStepView::<C>::Done(Ok(outcome@)),
        SendStep::<C>::Done(Err(failure))@ == SendStepView::<C>::Done(Err(failure@)),
{
}

} // verus!
