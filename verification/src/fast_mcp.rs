//! Low-latency tool server for the core browser loop.
//!
//! Calls of the established `agent_browser_*` tools go directly over one persistent connection to
//! the daemon of a session. A call whose command was never sent may start the session through a
//! command line, unless it carries a text or a value that the user gave.

use std::path::PathBuf;
use vstd::prelude::*;
use crate::fast_channel::{next_sequence, Caller};
use crate::fast_mcp_bootstrap::json_result;
use crate::fast_mcp_command::{
    called_command, carries_text, law_text_never_goes_through_a_command_line,
    optional_text_argument, optional_u64, tool_command, Arguments,
};
use crate::fast_mcp_config::{Config, ConfigView};
use crate::fast_mcp_tools::{tool_list, tool_specs, MAX_TIMEOUT_MS};
use crate::fast_transport::{
    bad_session_message, effective_namespace, first_send_step, send_result_view, session_key,
    unsent, ChannelFailure, ChannelPool, FailureStage, FailureView, SendOutcome, SendOutcomeView,
    SendStep, SendStepView, SessionKey, SessionKeyView, MAX_REQUEST_BYTES,
};
use crate::json::{
    flag_in, flag_of, get_member, is_flag, items_view, json_pretty_text,
    law_member_reads_back, lemma_member_push, member, members_view, no_members, optional_text,
    optional_view, parsed_json_bytes, set_member, signed_number, text_of, unsigned_of, with_member,
    Fields, Json, JsonView, NumberView,
};
use crate::path::{path_view, PathView};
use crate::session::{is_session_name, namespaced_dir};
use crate::text::{decimal, decimal_text, same, texts_view};

verus! {

/// The version of the protocol that is spoken where a client asks for none that is known.
pub const PROTOCOL_VERSION: &'static str = "2025-11-25";

/// What a client is told of the tools.
pub const INSTRUCTIONS: &'static str =
    "Low-latency core browser tools over a persistent at-most-once daemon channel. Use agent-browser mcp for the complete compatibility surface.";

/// The code for a line that is no value.
pub const PARSE_ERROR: i64 = -32_700;

/// The code for a value that is no request.
pub const INVALID_REQUEST: i64 = -32_600;

/// The code for a method that is not known.
pub const METHOD_NOT_FOUND: i64 = -32_601;

/// The code for parameters that a method does not take.
pub const INVALID_PARAMS: i64 = -32_602;

// ---------------------------------------------------------------------------
// Responses
// ---------------------------------------------------------------------------

/// The response to a request.
pub open spec fn rpc_response(id: JsonView, result: JsonView) -> JsonView {
    JsonView::Object(
        no_members().push(("jsonrpc"@, JsonView::Text("2.0"@))).push(("id"@, id)).push(
            ("result"@, result),
        ),
    )
}

/// The response to a request that failed.
pub open spec fn rpc_failure(id: JsonView, code: i64, message: Seq<char>) -> JsonView {
    let error = JsonView::Object(
        no_members().push(("code"@, signed_number(code))).push(
            ("message"@, JsonView::Text(message)),
        ),
    );
    JsonView::Object(
        no_members().push(("jsonrpc"@, JsonView::Text("2.0"@))).push(("id"@, id)).push(
            ("error"@, error),
        ),
    )
}

/// The result of a tool: the value, and the same as indented text.
pub open spec fn tool_outcome(value: JsonView, is_error: bool) -> JsonView {
    let content = JsonView::Object(
        no_members().push(("type"@, JsonView::Text("text"@))).push(
            ("text"@, JsonView::Text(json_pretty_text(value))),
        ),
    );
    JsonView::Object(
        no_members().push(("content"@, JsonView::Array(Seq::empty().push(content)))).push(
            ("structuredContent"@, value),
        ).push(("isError"@, JsonView::Bool(is_error))),
    )
}

/// The value of a call that failed.
pub open spec fn error_object(words: Seq<char>) -> JsonView {
    JsonView::Object(
        no_members().push(("success"@, JsonView::Bool(false))).push(
            ("error"@, JsonView::Text(words)),
        ),
    )
}

/// The value of a call that the channel failed.
pub open spec fn channel_error_object(failure: FailureView) -> JsonView {
    let unknown = failure.stage == FailureStage::DeliveryUnknown;
    JsonView::Object(
        no_members().push(("success"@, JsonView::Bool(false))).push(
            ("error"@, JsonView::Text(failure.words())),
        ).push(
            (
                "type"@,
                JsonView::Text(
                    if unknown {
                        "delivery_unknown"@
                    } else {
                        "channel_unavailable"@
                    },
                ),
            ),
        ).push(("deliveryUnknown"@, JsonView::Bool(unknown))),
    )
}

/// A response of the daemon with a report on how it came. One that is no object stands under
/// `data`.
pub open spec fn annotated(response: JsonView, transport: JsonView) -> JsonView {
    match response {
        JsonView::Object(members) => JsonView::Object(
            with_member(members, "_fastTransport"@, transport),
        ),
        _ => JsonView::Object(
            no_members().push(("success"@, JsonView::Bool(true))).push(("data"@, response)).push(
                ("_fastTransport"@, transport),
            ),
        ),
    }
}

/// The report on a response that came over a persistent connection.
pub open spec fn persistent_report(outcome: SendOutcomeView) -> JsonView {
    JsonView::Object(
        no_members().push(("mode"@, JsonView::Text("persistent"@))).push(
            ("transport"@, JsonView::Text(outcome.transport)),
        ).push(("reusedConnection"@, JsonView::Bool(outcome.reused_connection))).push(
            ("reconnectedBeforeSend"@, JsonView::Bool(outcome.reconnected)),
        ),
    )
}

/// The report on a response that came through a command line.
pub open spec fn bootstrap_report() -> JsonView {
    JsonView::Object(
        no_members().push(("mode"@, JsonView::Text("bootstrap-cli"@))).push(
            ("reusedConnection"@, JsonView::Bool(false)),
        ).push(("commandReplayed"@, JsonView::Bool(false))),
    )
}

/// The response to a request.
pub fn rpc_result(id: Json, result: Json) -> (response: Json)
    ensures
        response@ == rpc_response(id@, result@),
{
    Fields::new()
        .with("jsonrpc", Json::text("2.0"))
        .with("id", id)
        .with("result", result)
        .done()
}

/// The response to a request that failed.
pub fn rpc_error(id: Json, code: i64, message: &str) -> (response: Json)
    ensures
        response@ == rpc_failure(id@, code, message@),
{
    let error = Fields::new()
        .with("code", Json::signed(code))
        .with("message", Json::text(message))
        .done();
    Fields::new().with("jsonrpc", Json::text("2.0")).with("id", id).with("error", error).done()
}

/// The result of a tool: the value, and the same as indented text.
pub fn tool_result(value: Json, is_error: bool) -> (result: Json)
    ensures
        result@ == tool_outcome(value@, is_error),
{
    let text = match value.to_pretty_text() {
        Ok(text) => text,
        Err(_) => "{\"success\":false,\"error\":\"serialization failed\"}".to_owned(),
    };
    let content = Fields::new()
        .with("type", Json::text("text"))
        .with("text", Json::owned(text))
        .done();
    let mut items: Vec<Json> = Vec::new();
    items.push(content);
    assert(items_view(items@) =~= Seq::<JsonView>::empty().push(content@));
    Fields::new()
        .with("content", Json::array(items))
        .with("structuredContent", value)
        .with("isError", Json::flag(is_error))
        .done()
}

/// The value of a call that failed.
pub fn error_value(words: &str) -> (value: Json)
    ensures
        value@ == error_object(words@),
{
    Fields::new().with("success", Json::flag(false)).with("error", Json::text(words)).done()
}

/// The value of a call that the channel failed.
pub fn channel_error(failure: &ChannelFailure) -> (value: Json)
    ensures
        value@ == channel_error_object(failure@),
{
    let unknown = failure.stage == FailureStage::DeliveryUnknown;
    let kind = if unknown {
        "delivery_unknown"
    } else {
        "channel_unavailable"
    };
    Fields::new()
        .with("success", Json::flag(false))
        .with("error", Json::owned(failure.to_string()))
        .with("type", Json::text(kind))
        .with("deliveryUnknown", Json::flag(unknown))
        .done()
}

/// A response of the daemon with a report on how it came.
pub fn annotate_transport(response: Json, transport: Json) -> (value: Json)
    ensures
        value@ == annotated(response@, transport@),
{
    if response.as_object().is_none() {
        return Fields::new()
            .with("success", Json::flag(true))
            .with("data", response)
            .with("_fastTransport", transport)
            .done();
    }
    match response.into_object() {
        Some(members) => {
            let mut members = members;
            set_member(&mut members, "_fastTransport", transport);
            Json::object(members)
        },
        None => Json::Null,
    }
}

// ---------------------------------------------------------------------------
// Initialisation
// ---------------------------------------------------------------------------

/// Whether a version of the protocol is known.
pub open spec fn is_known_version(version: Seq<char>) -> bool {
    version == "2025-11-25"@ || version == "2025-06-18"@ || version == "2025-03-26"@ || version
        == "2024-11-05"@
}

/// The version of the protocol that a client asks for.
pub open spec fn asked_version(request: JsonView) -> Option<Seq<char>> {
    match request.get("params"@) {
        Some(params) => text_of(params.get("protocolVersion"@)),
        None => None,
    }
}

/// The version of the protocol that is spoken.
pub open spec fn spoken_version(request: JsonView) -> Seq<char> {
    match asked_version(request) {
        Some(version) => if is_known_version(version) {
            version
        } else {
            PROTOCOL_VERSION@
        },
        None => PROTOCOL_VERSION@,
    }
}

/// What the server says of itself. `version` is the version of the program.
pub open spec fn introduction(request: JsonView, version: Seq<char>) -> JsonView {
    let tools = JsonView::Object(no_members().push(("listChanged"@, JsonView::Bool(false))));
    JsonView::Object(
        no_members().push(("protocolVersion"@, JsonView::Text(spoken_version(request)))).push(
            ("capabilities"@, JsonView::Object(no_members().push(("tools"@, tools)))),
        ).push(
            (
                "serverInfo"@,
                JsonView::Object(
                    no_members().push(("name"@, JsonView::Text("agent-browser-fast-mcp"@))).push(
                        ("version"@, JsonView::Text(version)),
                    ),
                ),
            ),
        ).push(
            ("instructions"@, JsonView::Text(INSTRUCTIONS@)),
        ),
    )
}

/// The version of the protocol that is spoken.
fn protocol_version(request: &Json) -> (version: String)
    ensures
        version@ == spoken_version(request@),
{
    let asked = match request.get("params") {
        Some(params) => match params.get("protocolVersion") {
            Some(value) => value.as_str(),
            None => None,
        },
        None => None,
    };
    match asked {
        Some(version) => {
            if same(version, "2025-11-25") || same(version, "2025-06-18") || same(
                version,
                "2025-03-26",
            ) || same(version, "2024-11-05") {
                version.to_owned()
            } else {
                PROTOCOL_VERSION.to_owned()
            }
        },
        None => PROTOCOL_VERSION.to_owned(),
    }
}

/// What the server says of itself. `version` is the version of the program.
pub fn initialize_result(request: &Json, version: &str) -> (result: Json)
    ensures
        result@ == introduction(request@, version@),
{
    let tools = Fields::new().with("listChanged", Json::flag(false)).done();
    let capabilities = Fields::new().with("tools", tools).done();
    let server = Fields::new()
        .with("name", Json::text("agent-browser-fast-mcp"))
        .with("version", Json::text(version))
        .done();
    Fields::new()
        .with("protocolVersion", Json::owned(protocol_version(request)))
        .with("capabilities", capabilities)
        .with("serverInfo", server)
        .with("instructions", Json::text(INSTRUCTIONS))
        .done()
}

// ---------------------------------------------------------------------------
// Calls
// ---------------------------------------------------------------------------

/// A call that is ready to be sent.
pub struct BuiltCommand {
    pub session: String,
    pub timeout_ms: u64,
    pub command: Json,
    pub cli_args: Vec<String>,
    pub bootstrap_safe: bool,
}

/// The model of a call that is ready to be sent.
#[verifier::ext_equal]
pub struct BuiltView {
    pub session: Seq<char>,
    pub timeout_ms: u64,
    pub command: JsonView,
    pub cli_args: Seq<Seq<char>>,
    pub bootstrap_safe: bool,
}

impl View for BuiltCommand {
    type V = BuiltView;

    open spec fn view(&self) -> BuiltView {
        BuiltView {
            session: self.session@,
            timeout_ms: self.timeout_ms,
            command: self.command@,
            cli_args: texts_view(self.cli_args@),
            bootstrap_safe: self.bootstrap_safe,
        }
    }
}

/// The model of a call, or of what is wrong with it.
pub open spec fn built_result(result: Result<BuiltCommand, String>) -> Result<
    BuiltView,
    Seq<char>,
> {
    match result {
        Ok(built) => Ok(built@),
        Err(words) => Err(words@),
    }
}

/// The session that a call is for.
pub open spec fn chosen_session(config: ConfigView, arguments: Arguments) -> Seq<char> {
    match text_of(member(arguments, "session"@)) {
        Some(name) => name,
        None => config.session,
    }
}

/// The time limit of a call.
pub open spec fn chosen_timeout(config: ConfigView, arguments: Arguments) -> u64 {
    match unsigned_of(member(arguments, "timeoutMs"@)) {
        Some(ms) => ms,
        None => config.timeout_ms,
    }
}

/// The call of the tool `name`, or what is wrong with it.
pub open spec fn built_call(config: ConfigView, name: Seq<char>, arguments: Arguments) -> Result<
    BuiltView,
    Seq<char>,
> {
    let session = chosen_session(config, arguments);
    let timeout_ms = chosen_timeout(config, arguments);
    if !is_session_name(session) {
        Err(bad_session_message(session))
    } else if !(1 <= timeout_ms <= MAX_TIMEOUT_MS) {
        Err("timeoutMs must be between 1 and 600000"@)
    } else {
        match called_command(name, arguments) {
            None => Err("unknown fast MCP tool: "@ + name),
            Some(Err(words)) => Err(words),
            Some(Ok(called)) => Ok(
                BuiltView {
                    session: session,
                    timeout_ms: timeout_ms,
                    command: called.command,
                    cli_args: called.cli_args,
                    bootstrap_safe: called.bootstrap_safe,
                },
            ),
        }
    }
}

/// What the server reports of a session.
pub open spec fn status_report(
    config: ConfigView,
    session: Seq<char>,
    connected: bool,
) -> JsonView {
    let data = JsonView::Object(
        no_members().push(("session"@, JsonView::Text(session))).push(
            (
                "namespace"@,
                match config.namespace {
                    Some(name) => JsonView::Text(name),
                    None => JsonView::Null,
                },
            ),
        ).push(("connected"@, JsonView::Bool(connected))).push(
            ("bootstrapEnabled"@, JsonView::Bool(config.bootstrap)),
        ).push(("transport"@, JsonView::Text("persistent-at-most-once"@))),
    );
    JsonView::Object(
        no_members().push(("success"@, JsonView::Bool(true))).push(("data"@, data)),
    )
}

/// The identifier of a command that has none.
pub open spec fn command_identifier(caller: Caller, sequence: u64) -> Seq<char> {
    "fast-mcp-"@ + decimal(caller.process as nat) + "-"@ + decimal(caller.micros as nat) + "-"@
        + decimal(sequence as nat)
}

/// A command with an identifier: its own, else `id`.
pub open spec fn identified(command: JsonView, id: Seq<char>) -> JsonView {
    match command {
        JsonView::Object(members) => if member(members, "id"@) is Some {
            command
        } else {
            JsonView::Object(with_member(members, "id"@, JsonView::Text(id)))
        },
        _ => command,
    }
}

/// A call that was handed to the channel, with the identifier of its request.
pub struct PendingCall {
    pub id: Json,
    pub built: BuiltCommand,
}

/// The model of a call that was handed to the channel.
#[verifier::ext_equal]
pub struct PendingView {
    pub id: JsonView,
    pub built: BuiltView,
}

impl View for PendingCall {
    type V = PendingView;

    open spec fn view(&self) -> PendingView {
        PendingView { id: self.id@, built: self.built@ }
    }
}

/// What a request leads to.
pub enum HandleStep<C> {
    /// Nothing: it asks for no response.
    Silent,
    /// A response.
    Respond(Json),
    /// A command for the daemon. The result of sending it is for `finish_send`.
    Send(PendingCall, SendStep<C>),
}

/// The model of what a request leads to.
#[verifier::ext_equal]
pub enum HandleStepView<C> {
    Silent,
    Respond(JsonView),
    Send(PendingView, SendStepView<C>),
}

impl<C> View for HandleStep<C> {
    type V = HandleStepView<C>;

    open spec fn view(&self) -> HandleStepView<C> {
        match self {
            HandleStep::Silent => HandleStepView::Silent,
            HandleStep::Respond(json) => HandleStepView::Respond(json@),
            HandleStep::Send(call, step) => HandleStepView::Send(call@, step@),
        }
    }
}

/// The tool server, over connections of type `C`.
pub struct Server<C> {
    pub config: Config,
    /// The directory below which the sockets of all sessions live.
    pub base: PathBuf,
    pub pool: ChannelPool<C>,
    pub sequence: u64,
}

/// The model of the tool server.
#[verifier::ext_equal]
pub struct ServerView<C> {
    pub config: ConfigView,
    pub base: PathView,
    pub pool: Map<SessionKeyView, C>,
    pub sequence: u64,
}

impl<C> View for Server<C> {
    type V = ServerView<C>;

    open spec fn view(&self) -> ServerView<C> {
        ServerView {
            config: self.config@,
            base: path_view(self.base),
            pool: self.pool@,
            sequence: self.sequence,
        }
    }
}

/// The response to a call of a tool with this value.
pub open spec fn tool_response(id: JsonView, value: JsonView) -> JsonView {
    rpc_response(id, tool_outcome(value, flag_of(value.get("success"@)) == Some(false)))
}

impl<C> ServerView<C> {
    /// The key of a session.
    pub open spec fn key(self, session: Seq<char>) -> SessionKeyView {
        session_key(session, self.config.namespace, self.base)
    }

    /// The directory of the sockets of all sessions of the namespace.
    pub open spec fn dir(self) -> PathView {
        namespaced_dir(self.base, effective_namespace(self.config.namespace))
    }

    /// What a report on the transport responds.
    pub open spec fn status_value(self, arguments: Arguments) -> JsonView {
        let session = chosen_session(self.config, arguments);
        if is_session_name(session) {
            status_report(self.config, session, self.pool.contains_key(self.key(session)))
        } else {
            error_object(bad_session_message(session))
        }
    }

    /// What a call that is ready leads to, and the server then. The command gets an identifier, and
    /// the connection of its session leaves the pool while it is under way.
    pub open spec fn executed(self, id: JsonView, built: BuiltView, caller: Caller) -> (
        ServerView<C>,
        HandleStepView<C>,
    ) {
        let sequence = next_sequence(self.sequence);
        let key = self.key(built.session);
        if !is_session_name(built.session) {
            let value = channel_error_object(unsent(bad_session_message(built.session)));
            (
                ServerView { sequence: sequence, ..self },
                HandleStepView::Respond(tool_response(id, value)),
            )
        } else {
            let command = identified(built.command, command_identifier(caller, sequence));
            (
                ServerView { sequence: sequence, pool: self.pool.remove(key), ..self },
                HandleStepView::Send(
                    PendingView { id: id, built: BuiltView { command: command, ..built } },
                    first_send_step(self.pool, key, self.dir()),
                ),
            )
        }
    }

    /// What a call of a tool leads to, and the server then.
    pub open spec fn called(self, id: JsonView, params: Option<JsonView>, caller: Caller) -> (
        ServerView<C>,
        HandleStepView<C>,
    ) {
        match params {
            Some(JsonView::Object(members)) => {
                let arguments = match member(members, "arguments"@) {
                    Some(JsonView::Object(given)) => given,
                    _ => no_members(),
                };
                match text_of(member(members, "name"@)) {
                    None => (
                        self,
                        HandleStepView::Respond(
                            rpc_failure(id, INVALID_PARAMS, "tools/call requires a tool name"@),
                        ),
                    ),
                    Some(name) => if name == "agent_browser_fast_status"@ {
                        (
                            self,
                            HandleStepView::Respond(
                                tool_response(id, self.status_value(arguments)),
                            ),
                        )
                    } else {
                        match built_call(self.config, name, arguments) {
                            Err(words) => (
                                self,
                                HandleStepView::Respond(tool_response(id, error_object(words))),
                            ),
                            Ok(built) => self.executed(id, built, caller),
                        }
                    },
                }
            },
            _ => (
                self,
                HandleStepView::Respond(
                    rpc_failure(id, INVALID_PARAMS, "tools/call requires object params"@),
                ),
            ),
        }
    }

    /// What a request leads to, and the server then. One without an identifier or without a method
    /// gets no response.
    pub open spec fn handled(self, request: JsonView, version: Seq<char>, caller: Caller) -> (
        ServerView<C>,
        HandleStepView<C>,
    ) {
        match (request.get("id"@), text_of(request.get("method"@))) {
            (Some(id), Some(method)) => if method == "tools/call"@ {
                self.called(id, request.get("params"@), caller)
            } else {
                (
                    self,
                    HandleStepView::Respond(
                        if method == "initialize"@ {
                            rpc_response(id, introduction(request, version))
                        } else if method == "ping"@ || method == "resources/list"@ || method
                            == "prompts/list"@ {
                            rpc_response(id, JsonView::Object(no_members()))
                        } else if method == "tools/list"@ {
                            rpc_response(
                                id,
                                JsonView::Object(
                                    no_members().push(("tools"@, JsonView::Array(tool_list()))),
                                ),
                            )
                        } else {
                            rpc_failure(id, METHOD_NOT_FOUND, "Method not found: "@ + method)
                        },
                    ),
                )
            },
            _ => (self, HandleStepView::Silent),
        }
    }
}

/// The response to a call of a tool with this value.
fn respond(id: Json, value: Json) -> (response: Json)
    ensures
        response@ == tool_response(id@, value@),
{
    let failed = is_flag(flag_in(value.get("success")), false);
    rpc_result(id, tool_result(value, failed))
}

/// An object without members.
fn empty_object() -> (json: Json)
    ensures
        json@ == JsonView::Object(no_members()),
{
    Fields::new().done()
}

/// The arguments of a call, where they are given.
fn arguments_of(params: &Vec<(String, Json)>) -> (arguments: Vec<(String, Json)>)
    ensures
        members_view(arguments@) == match member(members_view(params@), "arguments"@) {
            Some(JsonView::Object(given)) => given,
            _ => no_members(),
        },
{
    let found = match get_member(params, "arguments") {
        Some(value) => value.clone().into_object(),
        None => None,
    };
    match found {
        Some(members) => members,
        None => {
            let members: Vec<(String, Json)> = Vec::new();
            assert(members_view(members@) =~= no_members());
            members
        },
    }
}

impl<C> Server<C> {
    /// A server without connections.
    pub fn new(config: Config, base: PathBuf) -> (server: Server<C>)
        ensures
            server@ == (ServerView {
                config: config@,
                base: path_view(base),
                pool: Map::<SessionKeyView, C>::empty(),
                sequence: 0,
            }),
    {
        Server { config, base, pool: ChannelPool::new(), sequence: 0 }
    }

    /// The namespace of all sessions.
    fn namespace(&self) -> (name: Option<&str>)
        ensures
            optional_text(name) == self@.config.namespace,
    {
        match &self.config.namespace {
            Some(name) => Some(name.as_str()),
            None => None,
        }
    }

    /// The session that a call is for.
    fn session_for(&self, arguments: &Vec<(String, Json)>) -> (session: String)
        ensures
            session@ == chosen_session(self@.config, members_view(arguments@)),
    {
        match optional_text_argument(arguments, "session") {
            Some(name) => name,
            None => self.config.session.clone(),
        }
    }

    /// Reports on the transport of a session.
    pub fn status(&self, arguments: &Vec<(String, Json)>) -> (value: Json)
        ensures
            value@ == self@.status_value(members_view(arguments@)),
    {
        let session = self.session_for(arguments);
        match SessionKey::new(session.as_str(), self.namespace(), &self.base) {
            Err(failure) => error_value(failure.to_string().as_str()),
            Ok(key) => {
                let connected = self.pool.contains(&key);
                let namespace = match &self.config.namespace {
                    Some(name) => Json::text(name.as_str()),
                    None => Json::Null,
                };
                let data = Fields::new()
                    .with("session", Json::owned(session))
                    .with("namespace", namespace)
                    .with("connected", Json::flag(connected))
                    .with("bootstrapEnabled", Json::flag(self.config.bootstrap))
                    .with("transport", Json::text("persistent-at-most-once"))
                    .done();
                Fields::new().with("success", Json::flag(true)).with("data", data).done()
            },
        }
    }

    /// The call of the tool `name`, or what is wrong with it.
    pub fn build(&self, name: &str, arguments: &Vec<(String, Json)>) -> (result: Result<
        BuiltCommand,
        String,
    >)
        ensures
            built_result(result) == built_call(self@.config, name@, members_view(arguments@)),
    {
        let session = self.session_for(arguments);
        match SessionKey::new(session.as_str(), self.namespace(), &self.base) {
            Ok(_) => {},
            Err(failure) => {
                return Err(failure.to_string());
            },
        }
        let timeout_ms: u64 = match optional_u64(arguments, "timeoutMs") {
            Some(ms) => ms,
            None => self.config.timeout_ms,
        };
        if timeout_ms < 1 || timeout_ms > MAX_TIMEOUT_MS {
            return Err("timeoutMs must be between 1 and 600000".to_owned());
        }
        match tool_command(name, arguments) {
            None => {
                let mut words = "unknown fast MCP tool: ".to_owned();
                words.append(name);
                Err(words)
            },
            Some(Err(words)) => Err(words),
            Some(Ok(called)) => Ok(
                BuiltCommand {
                    session,
                    timeout_ms,
                    command: called.command,
                    cli_args: called.cli_args,
                    bootstrap_safe: called.bootstrap_safe,
                },
            ),
        }
    }

    /// The identifier of the current command.
    pub fn command_id(&self, caller: Caller) -> (id: String)
        ensures
            id@ == command_identifier(caller, self@.sequence),
    {
        let mut id = "fast-mcp-".to_owned();
        id.append(decimal_text(caller.process as u64).as_str());
        id.append("-");
        id.append(decimal_text(caller.micros).as_str());
        id.append("-");
        id.append(decimal_text(self.sequence).as_str());
        id
    }

    /// A command with an identifier: its own, else that of the current command.
    fn identify(&self, command: Json, caller: Caller) -> (result: Json)
        ensures
            result@ == identified(command@, command_identifier(caller, self@.sequence)),
    {
        if command.as_object().is_none() || command.get("id").is_some() {
            return command;
        }
        match command.into_object() {
            Some(members) => {
                let mut members = members;
                set_member(&mut members, "id", Json::owned(self.command_id(caller)));
                Json::object(members)
            },
            None => Json::Null,
        }
    }

    /// Starts to send a call.
    pub fn execute(&mut self, id: Json, built: BuiltCommand, caller: Caller) -> (step:
        HandleStep<C>)
        ensures
            (final(self)@, step@) == old(self)@.executed(id@, built@, caller),
    {
        self.sequence =
        if self.sequence == u64::MAX {
            0
        } else {
            self.sequence + 1
        };
        let key = match SessionKey::new(
            built.session.as_str(),
            self.namespace(),
            &self.base,
        ) {
            Ok(key) => key,
            Err(failure) => {
                return HandleStep::Respond(respond(id, channel_error(&failure)));
            },
        };
        let command = self.identify(built.command, caller);
        let built = BuiltCommand {
            session: built.session,
            timeout_ms: built.timeout_ms,
            command,
            cli_args: built.cli_args,
            bootstrap_safe: built.bootstrap_safe,
        };
        let step = self.pool.send(key);
        HandleStep::Send(PendingCall { id, built }, step)
    }

    /// Handles a call of a tool.
    pub fn call_tool(&mut self, id: Json, params: Option<&Json>, caller: Caller) -> (step:
        HandleStep<C>)
        ensures
            (final(self)@, step@) == old(self)@.called(id@, optional_view(params), caller),
    {
        let members = match params {
            Some(value) => value.as_object(),
            None => None,
        };
        let members = match members {
            Some(members) => members,
            None => {
                return HandleStep::Respond(
                    rpc_error(id, INVALID_PARAMS, "tools/call requires object params"),
                );
            },
        };
        let name = match optional_text_argument(members, "name") {
            Some(name) => name,
            None => {
                return HandleStep::Respond(
                    rpc_error(id, INVALID_PARAMS, "tools/call requires a tool name"),
                );
            },
        };
        let arguments = arguments_of(members);
        if same(name.as_str(), "agent_browser_fast_status") {
            return HandleStep::Respond(respond(id, self.status(&arguments)));
        }
        match self.build(name.as_str(), &arguments) {
            Err(words) => HandleStep::Respond(respond(id, error_value(words.as_str()))),
            Ok(built) => self.execute(id, built, caller),
        }
    }

    /// Handles a request. `version` is the version of the program.
    pub fn handle(&mut self, request: &Json, version: &str, caller: Caller) -> (step: HandleStep<C>)
        ensures
            (final(self)@, step@) == old(self)@.handled(request@, version@, caller),
    {
        let method = match request.get("method") {
            Some(value) => match value.as_str() {
                Some(text) => text,
                None => {
                    return HandleStep::Silent;
                },
            },
            None => {
                return HandleStep::Silent;
            },
        };
        let id = match request.get("id") {
            Some(value) => value.clone(),
            None => {
                return HandleStep::Silent;
            },
        };
        if same(method, "tools/call") {
            return self.call_tool(id, request.get("params"), caller);
        }
        let response = if same(method, "initialize") {
            rpc_result(id, initialize_result(request, version))
        } else if same(method, "ping") || same(method, "resources/list") || same(
            method,
            "prompts/list",
        ) {
            rpc_result(id, empty_object())
        } else if same(method, "tools/list") {
            let tools = Json::array(tool_specs());
            rpc_result(id, Fields::new().with("tools", tools).done())
        } else {
            let mut message = "Method not found: ".to_owned();
            message.append(method);
            rpc_error(id, METHOD_NOT_FOUND, message.as_str())
        };
        HandleStep::Respond(response)
    }
}

// ---------------------------------------------------------------------------
// Results of calls
// ---------------------------------------------------------------------------

/// What follows the end of a send.
pub enum FinishStep {
    /// A response.
    Respond(Json),
    /// The session is to be started through a command line, for this failure. The result is for
    /// `finish_bootstrap`.
    Bootstrap(PendingCall, ChannelFailure),
}

/// The model of what follows the end of a send.
#[verifier::ext_equal]
pub enum FinishView {
    Respond(JsonView),
    Bootstrap(PendingView, FailureView),
}

impl View for FinishStep {
    type V = FinishView;

    open spec fn view(&self) -> FinishView {
        match self {
            FinishStep::Respond(json) => FinishView::Respond(json@),
            FinishStep::Bootstrap(call, failure) => FinishView::Bootstrap(call@, failure@),
        }
    }
}

/// Why a call with a text or a value does not start a session.
pub const NO_BOOTSTRAP: &'static str =
    "; this command contains text/value data and will not be bootstrapped through process arguments—establish the session first with agent-browser";

/// What follows the end of a send. A session is started only for a command that was never sent,
/// that may go through a command line, and where the settings allow it.
pub open spec fn finished(
    bootstrap: bool,
    call: PendingView,
    result: Result<SendOutcomeView, FailureView>,
) -> FinishView {
    match result {
        Ok(outcome) => FinishView::Respond(
            tool_response(call.id, annotated(outcome.response, persistent_report(outcome))),
        ),
        Err(failure) => {
            let never_sent = failure.stage == FailureStage::BeforeSend;
            if never_sent && bootstrap && call.built.bootstrap_safe {
                FinishView::Bootstrap(call, failure)
            } else if never_sent && !call.built.bootstrap_safe {
                FinishView::Respond(
                    tool_response(call.id, error_object(failure.words() + NO_BOOTSTRAP@)),
                )
            } else {
                FinishView::Respond(tool_response(call.id, channel_error_object(failure)))
            }
        },
    }
}

/// The response to a call that started its session through a command line.
pub open spec fn bootstrapped(
    id: JsonView,
    failure: FailureView,
    result: Result<JsonView, Seq<char>>,
) -> JsonView {
    tool_response(
        id,
        match result {
            Ok(response) => annotated(response, bootstrap_report()),
            Err(words) => error_object(
                "persistent channel unavailable ("@ + failure.words() + "); bootstrap failed: "@
                    + words,
            ),
        },
    )
}

/// Ends a call once it was sent, or starts its session. `bootstrap` says whether the settings allow
/// that.
pub fn finish_send(
    bootstrap: bool,
    call: PendingCall,
    result: Result<SendOutcome, ChannelFailure>,
) -> (step: FinishStep)
    ensures
        step@ == finished(bootstrap, call@, send_result_view(result)),
{
    match result {
        Ok(outcome) => {
            let report = Fields::new()
                .with("mode", Json::text("persistent"))
                .with("transport", Json::text(outcome.transport))
                .with("reusedConnection", Json::flag(outcome.reused_connection))
                .with("reconnectedBeforeSend", Json::flag(outcome.reconnected))
                .done();
            FinishStep::Respond(respond(call.id, annotate_transport(outcome.response, report)))
        },
        Err(failure) => {
            let never_sent = failure.stage == FailureStage::BeforeSend;
            if never_sent && bootstrap && call.built.bootstrap_safe {
                FinishStep::Bootstrap(call, failure)
            } else if never_sent && !call.built.bootstrap_safe {
                let mut words = failure.to_string();
                words.append(NO_BOOTSTRAP);
                FinishStep::Respond(respond(call.id, error_value(words.as_str())))
            } else {
                FinishStep::Respond(respond(call.id, channel_error(&failure)))
            }
        },
    }
}

/// Ends a call that started its session through a command line.
pub fn finish_bootstrap(id: Json, failure: &ChannelFailure, result: Result<Json, String>) -> (
response: Json)
    ensures
        response@ == bootstrapped(id@, failure@, json_result(result)),
{
    match result {
        Ok(value) => {
            let report = Fields::new()
                .with("mode", Json::text("bootstrap-cli"))
                .with("reusedConnection", Json::flag(false))
                .with("commandReplayed", Json::flag(false))
                .done();
            respond(id, annotate_transport(value, report))
        },
        Err(error) => {
            let mut words = "persistent channel unavailable (".to_owned();
            words.append(failure.to_string().as_str());
            words.append("); bootstrap failed: ");
            words.append(error.as_str());
            respond(id, error_value(words.as_str()))
        },
    }
}

// ---------------------------------------------------------------------------
// Lines
// ---------------------------------------------------------------------------

/// Whether a byte is ASCII whitespace.
pub open spec fn is_ascii_space(byte: u8) -> bool {
    byte == 32 || byte == 9 || byte == 10 || byte == 12 || byte == 13
}

/// What a line of input leads to.
pub enum LineStep {
    /// Nothing: it is blank.
    Skip,
    /// A response.
    Respond(Json),
    /// A request.
    Request(Json),
}

/// The model of what a line leads to.
#[verifier::ext_equal]
pub enum LineStepView {
    Skip,
    Respond(JsonView),
    Request(JsonView),
}

impl View for LineStep {
    type V = LineStepView;

    open spec fn view(&self) -> LineStepView {
        match self {
            LineStep::Skip => LineStepView::Skip,
            LineStep::Respond(json) => LineStepView::Respond(json@),
            LineStep::Request(json) => LineStepView::Request(json@),
        }
    }
}

/// What a line of input leads to.
pub open spec fn line_step(line: Seq<u8>) -> LineStepView {
    if forall|i: int| 0 <= i < line.len() ==> is_ascii_space(#[trigger] line[i]) {
        LineStepView::Skip
    } else {
        match parsed_json_bytes(line) {
            Err(words) => LineStepView::Respond(
                rpc_failure(JsonView::Null, PARSE_ERROR, "Parse error: "@ + words),
            ),
            Ok(message) => if message is Object {
                LineStepView::Request(message)
            } else {
                LineStepView::Respond(
                    rpc_failure(JsonView::Null, INVALID_REQUEST, "Invalid Request"@),
                )
            },
        }
    }
}

/// What a line of input leads to.
pub fn accept_line(line: &Vec<u8>) -> (step: LineStep)
    ensures
        step@ == line_step(line@),
{
    let mut i: usize = 0;
    while i < line.len() && (line[i] == 32 || line[i] == 9 || line[i] == 10 || line[i] == 12
        || line[i] == 13)
        invariant
            i <= line@.len(),
            forall|j: int| 0 <= j < i ==> is_ascii_space(#[trigger] line@[j]),
        decreases line@.len() - i,
    {
        i += 1;
    }
    if i == line.len() {
        return LineStep::Skip;
    }
    assert(!is_ascii_space(line@[i as int]));
    match Json::parse_bytes(line.as_slice()) {
        Err(error) => {
            let mut message = "Parse error: ".to_owned();
            message.append(error.as_str());
            LineStep::Respond(rpc_error(Json::Null, PARSE_ERROR, message.as_str()))
        },
        Ok(message) => {
            if message.as_object().is_some() {
                LineStep::Request(message)
            } else {
                LineStep::Respond(rpc_error(Json::Null, INVALID_REQUEST, "Invalid Request"))
            }
        },
    }
}

/// The response to input that cannot be read.
pub fn unreadable_input(error: &str) -> (response: Json)
    ensures
        response@ == rpc_failure(JsonView::Null, PARSE_ERROR, error@),
{
    rpc_error(Json::Null, PARSE_ERROR, error)
}

/// What a chunk of input adds.
pub enum Fed {
    /// So many bytes were taken, and the line goes on.
    More(usize),
    /// So many bytes were taken, and the line is complete.
    Line(usize, Vec<u8>),
    /// The input has ended.
    End,
    /// The line is too long, with these words.
    TooLong(&'static str),
}

/// The model of what a chunk adds.
#[verifier::ext_equal]
pub enum FedView {
    More(nat),
    Line(nat, Seq<u8>),
    End,
    TooLong(Seq<char>),
}

impl View for Fed {
    type V = FedView;

    open spec fn view(&self) -> FedView {
        match self {
            Fed::More(taken) => FedView::More(*taken as nat),
            Fed::Line(taken, bytes) => FedView::Line(*taken as nat, bytes@),
            Fed::End => FedView::End,
            Fed::TooLong(words) => FedView::TooLong(words@),
        }
    }
}

/// How many bytes of a chunk belong to the current line: all up to and with the first line feed.
pub open spec fn line_share(chunk: Seq<u8>) -> nat
    decreases chunk.len(),
{
    if chunk.len() == 0 {
        0
    } else if chunk[0] == 10 {
        1
    } else {
        1 + line_share(chunk.drop_first())
    }
}

/// What a chunk adds to a line of which `pending` has come before. An empty chunk is the end of the
/// input.
pub open spec fn fed(pending: Seq<u8>, chunk: Seq<u8>) -> FedView {
    let taken = line_share(chunk);
    let line = pending + chunk.take(taken as int);
    if chunk.len() == 0 {
        if pending.len() == 0 {
            FedView::End
        } else {
            FedView::Line(0, pending)
        }
    } else if line.len() > MAX_REQUEST_BYTES {
        FedView::TooLong("MCP request exceeded 4 MiB"@)
    } else if line.last() == 10 {
        FedView::Line(taken, line)
    } else {
        FedView::More(taken)
    }
}

proof fn lemma_line_share(chunk: Seq<u8>, at: nat)
    requires
        at <= chunk.len(),
        forall|i: int| 0 <= i < at ==> chunk[i] != 10,
    ensures
        at < chunk.len() && chunk[at as int] == 10 ==> line_share(chunk) == at + 1,
        at == chunk.len() ==> line_share(chunk) == at,
    decreases at,
{
    if at > 0 {
        let rest = chunk.drop_first();
        assert forall|i: int| 0 <= i < at - 1 implies rest[i] != 10 by {
            assert(rest[i] == chunk[i + 1]);
        }
        assert(chunk[0] != 10);
        lemma_line_share(rest, (at - 1) as nat);
    }
}

/// Puts one line together from chunks of input.
pub struct LineReader {
    output: Vec<u8>,
}

impl View for LineReader {
    type V = Seq<u8>;

    closed spec fn view(&self) -> Seq<u8> {
        self.output@
    }
}

impl LineReader {
    /// A reader at the start of a line.
    pub fn new() -> (reader: LineReader)
        ensures
            reader@ == Seq::<u8>::empty(),
    {
        LineReader { output: Vec::new() }
    }

    /// Takes a chunk of input, of which no more than the current line is used up. An empty chunk is
    /// the end of the input. Once a line is complete the reader is at the start of the next one.
    pub fn feed(&mut self, chunk: &[u8]) -> (step: Fed)
        ensures
            step@ == fed(old(self)@, chunk@),
            final(self)@ == match step@ {
                FedView::More(taken) => old(self)@ + chunk@.take(taken as int),
                FedView::Line(..) => Seq::<u8>::empty(),
                _ => old(self)@,
            },
    {
        if chunk.len() == 0 {
            if self.output.len() == 0 {
                return Fed::End;
            }
            let mut line: Vec<u8> = Vec::new();
            std::mem::swap(&mut line, &mut self.output);
            return Fed::Line(0, line);
        }
        let mut at: usize = 0;
        while at < chunk.len() && chunk[at] != 10
            invariant
                at <= chunk@.len(),
                forall|i: int| 0 <= i < at ==> chunk@[i] != 10,
            decreases chunk@.len() - at,
        {
            at += 1;
        }
        let ended = at < chunk.len();
        let taken: usize = if ended {
            at + 1
        } else {
            at
        };
        proof {
            lemma_line_share(chunk@, at as nat);
        }
        let ghost before = self.output@;
        assert((before + chunk@.take(taken as int)).last() == chunk@[taken - 1]);
        if taken > MAX_REQUEST_BYTES || self.output.len() > MAX_REQUEST_BYTES - taken {
            return Fed::TooLong("MCP request exceeded 4 MiB");
        }
        let mut i: usize = 0;
        assert(before + chunk@.take(0) =~= before);
        while i < taken
            invariant
                i <= taken <= chunk@.len(),
                self.output@ == before + chunk@.take(i as int),
            decreases taken - i,
        {
            self.output.push(chunk[i]);
            assert(before + chunk@.take(i + 1) =~= (before + chunk@.take(i as int)).push(
                chunk@[i as int],
            ));
            i += 1;
        }
        if ended {
            let mut line: Vec<u8> = Vec::new();
            std::mem::swap(&mut line, &mut self.output);
            Fed::Line(taken, line)
        } else {
            Fed::More(taken)
        }
    }
}

// ---------------------------------------------------------------------------
// Laws
// ---------------------------------------------------------------------------

/// A session is started through a command line only for a command that was never sent.
pub proof fn law_only_unsent_commands_start_a_session(
    bootstrap: bool,
    call: PendingView,
    result: Result<SendOutcomeView, FailureView>,
)
    ensures
        finished(bootstrap, call, result) is Bootstrap <==> {
            &&& bootstrap
            &&& call.built.bootstrap_safe
            &&& result matches Err(failure) && failure.stage == FailureStage::BeforeSend
        },
{
}

/// A command that may have been delivered is not sent in any other way: its call ends with a
/// response that says so.
pub proof fn law_unknown_delivery_ends_the_call(
    bootstrap: bool,
    call: PendingView,
    failure: FailureView,
)
    requires
        failure.stage == FailureStage::DeliveryUnknown,
    ensures
        finished(bootstrap, call, Err(failure)) == FinishView::Respond(
            tool_response(call.id, channel_error_object(failure)),
        ),
        channel_error_object(failure).get("deliveryUnknown"@) == Some(JsonView::Bool(true)),
        channel_error_object(failure).get("success"@) == Some(JsonView::Bool(false)),
{
    broadcast use lemma_member_push;

    reveal_strlit("deliveryUnknown");
    reveal_strlit("success");
    reveal_strlit("error");
    reveal_strlit("type");
    assert("deliveryUnknown"@.len() == 15 && "success"@.len() == 7 && "error"@.len() == 5
        && "type"@.len() == 4);
}

/// A call with a text or a value that the user gave never starts a session through a command line,
/// whatever the settings say and whatever becomes of the send.
pub proof fn law_text_never_starts_a_session<C>(
    server: ServerView<C>,
    request: JsonView,
    version: Seq<char>,
    caller: Caller,
    bootstrap: bool,
    result: Result<SendOutcomeView, FailureView>,
)
    ensures
        server.handled(request, version, caller).1 matches HandleStepView::Send(call, _) ==> (
        carries_text(call.built.command) ==> !(finished(bootstrap, call, result) is Bootstrap)),
{
    match request.get("params"@) {
        Some(JsonView::Object(members)) => {
            let arguments = match member(members, "arguments"@) {
                Some(JsonView::Object(given)) => given,
                _ => no_members(),
            };
            match text_of(member(members, "name"@)) {
                Some(name) => {
                    law_text_never_goes_through_a_command_line(name, arguments);
                    match built_call(server.config, name, arguments) {
                        Ok(built) => {
                            let id = command_identifier(caller, next_sequence(server.sequence));
                            lemma_identifier_is_no_text(built.command, id);
                        },
                        Err(_) => {},
                    }
                },
                None => {},
            }
        },
        _ => {},
    }
}

proof fn lemma_identifier_is_no_text(command: JsonView, id: Seq<char>)
    ensures
        carries_text(identified(command, id)) == carries_text(command),
{
    reveal_strlit("id");
    reveal_strlit("text");
    reveal_strlit("value");
    reveal_strlit("values");
    assert("id"@.len() == 2 && "text"@.len() == 4 && "value"@.len() == 5 && "values"@.len() == 6);
    match command {
        JsonView::Object(members) => {
            law_member_reads_back(members, "id"@, JsonView::Text(id), "text"@);
            law_member_reads_back(members, "id"@, JsonView::Text(id), "value"@);
            law_member_reads_back(members, "id"@, JsonView::Text(id), "values"@);
        },
        _ => {},
    }
}

/// A call that is ready names a session that is allowed, and its time limit keeps the bounds.
pub proof fn law_calls_keep_the_limits(config: ConfigView, name: Seq<char>, arguments: Arguments)
    ensures
        built_call(config, name, arguments) matches Ok(built) ==> {
            &&& is_session_name(built.session)
            &&& 1 <= built.timeout_ms <= MAX_TIMEOUT_MS
        },
{
}

/// A report on the transport reaches no daemon and leaves the server as it is.
pub proof fn law_status_touches_no_daemon<C>(
    server: ServerView<C>,
    id: JsonView,
    params: Seq<(Seq<char>, JsonView)>,
    caller: Caller,
)
    requires
        member(params, "name"@) == Some(JsonView::Text("agent_browser_fast_status"@)),
    ensures
        server.called(id, Some(JsonView::Object(params)), caller).0 == server,
        server.called(id, Some(JsonView::Object(params)), caller).1 is Respond,
{
}

/// Only a call of a tool reaches a daemon, and with a command that names its session and keeps the
/// limits.
pub proof fn law_only_calls_reach_a_daemon<C>(
    server: ServerView<C>,
    request: JsonView,
    version: Seq<char>,
    caller: Caller,
)
    ensures
        server.handled(request, version, caller).1 matches HandleStepView::Send(call, _) ==> {
            &&& text_of(request.get("method"@)) == Some("tools/call"@)
            &&& request.get("id"@) == Some(call.id)
            &&& is_session_name(call.built.session)
            &&& 1 <= call.built.timeout_ms <= MAX_TIMEOUT_MS
        },
        !(server.handled(request, version, caller).1 is Send) ==> server.handled(
            request,
            version,
            caller,
        ).0.pool == server.pool,
{
}

/// A request without an identifier gets no response and changes nothing.
pub proof fn law_notifications_are_silent<C>(
    server: ServerView<C>,
    request: JsonView,
    version: Seq<char>,
    caller: Caller,
)
    requires
        request.get("id"@) is None,
    ensures
        server.handled(request, version, caller) == (server, HandleStepView::<C>::Silent),
{
}

/// Every response names the protocol and the request that it is for.
pub proof fn law_responses_name_their_request(id: JsonView, result: JsonView, code: i64, message:
    Seq<char>)
    ensures
        rpc_response(id, result).get("id"@) == Some(id),
        rpc_response(id, result).get("jsonrpc"@) == Some(JsonView::Text("2.0"@)),
        rpc_response(id, result).get("result"@) == Some(result),
        rpc_response(id, result).get("error"@) is None,
        rpc_failure(id, code, message).get("id"@) == Some(id),
        rpc_failure(id, code, message).get("jsonrpc"@) == Some(JsonView::Text("2.0"@)),
        rpc_failure(id, code, message).get("result"@) is None,
        rpc_failure(id, code, message).get("error"@) is Some,
{
    broadcast use lemma_member_push;

    reveal_strlit("id");
    reveal_strlit("jsonrpc");
    reveal_strlit("result");
    reveal_strlit("error");
    assert("id"@.len() == 2 && "jsonrpc"@.len() == 7);
    assert("result"@.len() == 6 && "error"@.len() == 5);
    assert(member(no_members(), "error"@) is None && member(no_members(), "result"@) is None);
}

/// What a request is answered with directly is for that request.
pub proof fn law_direct_responses_are_for_their_request<C>(
    server: ServerView<C>,
    request: JsonView,
    version: Seq<char>,
    caller: Caller,
)
    ensures
        server.handled(request, version, caller).1 matches HandleStepView::Respond(response)
            ==> response.get("id"@) == request.get("id"@),
{
    assert forall|id: JsonView, result: JsonView| #[trigger]
        rpc_response(id, result).get("id"@) == Some(id) by {
        law_responses_name_their_request(id, result, 0, ""@);
    }
    assert forall|id: JsonView, code: i64, message: Seq<char>| #[trigger]
        rpc_failure(id, code, message).get("id"@) == Some(id) by {
        law_responses_name_their_request(id, JsonView::Null, code, message);
    }
    let handled = server.handled(request, version, caller).1;
    match (request.get("id"@), text_of(request.get("method"@))) {
        (Some(id), Some(method)) => {
            if method == "tools/call"@ {
                match request.get("params"@) {
                    Some(JsonView::Object(members)) => {
                        assert(handled is Respond ==> handled->Respond_0.get("id"@) == Some(id));
                    },
                    _ => {},
                }
            }
        },
        _ => {},
    }
}

/// What ends a call is for the request that made it.
pub proof fn law_final_responses_are_for_their_request(
    bootstrap: bool,
    call: PendingView,
    sent: Result<SendOutcomeView, FailureView>,
    failure: FailureView,
    started: Result<JsonView, Seq<char>>,
)
    ensures
        finished(bootstrap, call, sent) matches FinishView::Respond(response) ==> response.get(
            "id"@,
        ) == Some(call.id),
        bootstrapped(call.id, failure, started).get("id"@) == Some(call.id),
{
    assert forall|id: JsonView, result: JsonView| #[trigger]
        rpc_response(id, result).get("id"@) == Some(id) by {
        law_responses_name_their_request(id, result, 0, ""@);
    }
}

/// The version of the protocol that is spoken is known, and is the one that the client asks for
/// where that is known.
pub proof fn law_spoken_version_is_known(request: JsonView)
    ensures
        is_known_version(spoken_version(request)),
        asked_version(request) matches Some(version) ==> (is_known_version(version)
            ==> spoken_version(request) == version),
{
}

/// The report on how a response came leaves all else in the response as the daemon gave it.
pub proof fn law_report_keeps_the_response(
    response: JsonView,
    transport: JsonView,
    name: Seq<char>,
)
    ensures
        annotated(response, transport).get("_fastTransport"@) == Some(transport),
        response is Object && name != "_fastTransport"@ ==> annotated(response, transport).get(name)
            == response.get(name),
        !(response is Object) ==> annotated(response, transport).get("data"@) == Some(response),
{
    broadcast use lemma_member_push;

    reveal_strlit("_fastTransport");
    reveal_strlit("data");
    assert("_fastTransport"@.len() == 14 && "data"@.len() == 4);
    match response {
        JsonView::Object(members) => {
            law_member_reads_back(members, "_fastTransport"@, transport, name);
        },
        _ => {},
    }
}

/// Whether the daemon failed a call is passed on as it is.
pub proof fn law_daemon_failure_is_passed_on(
    bootstrap: bool,
    call: PendingView,
    outcome: SendOutcomeView,
)
    ensures
        finished(bootstrap, call, Ok(outcome)) == FinishView::Respond(
            rpc_response(
                call.id,
                tool_outcome(
                    annotated(outcome.response, persistent_report(outcome)),
                    flag_of(outcome.response.get("success"@)) == Some(false),
                ),
            ),
        ),
{
    broadcast use lemma_member_push;

    let report = persistent_report(outcome);
    law_report_keeps_the_response(outcome.response, report, "success"@);
    reveal_strlit("_fastTransport");
    reveal_strlit("success");
    reveal_strlit("data");
    assert("_fastTransport"@.len() == 14 && "success"@.len() == 7 && "data"@.len() == 4);
}

/// A line is never longer than the limit.
pub proof fn law_lines_are_bounded(pending: Seq<u8>, chunk: Seq<u8>)
    requires
        pending.len() <= MAX_REQUEST_BYTES,
    ensures
        fed(pending, chunk) matches FedView::Line(_, line) ==> line.len() <= MAX_REQUEST_BYTES,
{
}

/// How the input is cut into chunks makes no difference: what comes in two chunks adds up to what
/// comes in one.
pub proof fn law_chunks_add_up(pending: Seq<u8>, first: Seq<u8>, second: Seq<u8>)
    requires
        first.len() > 0,
        second.len() > 0,
        fed(pending, first) is More,
    ensures
        fed(pending, first) == FedView::More(first.len()),
        fed(pending, first + second) == match fed(pending + first, second) {
            FedView::More(taken) => FedView::More(first.len() + taken),
            FedView::Line(taken, line) => FedView::Line(first.len() + taken, line),
            other => other,
        },
{
    lemma_share_bounds(first);
    lemma_share_bounds(second);
    let share = line_share(first);
    assert((pending + first.take(share as int)).last() == first[share - 1]);
    lemma_shares_add_up(first, second);
    assert(first.take(first.len() as int) =~= first);
    let taken = line_share(second);
    assert((first + second).take((first.len() + taken) as int) =~= first + second.take(
        taken as int,
    ));
    assert(pending + (first + second.take(taken as int)) =~= pending + first + second.take(
        taken as int,
    ));
}

proof fn lemma_share_bounds(chunk: Seq<u8>)
    ensures
        line_share(chunk) <= chunk.len(),
        chunk.len() > 0 ==> line_share(chunk) > 0,
        forall|i: int| 0 <= i < line_share(chunk) - 1 ==> chunk[i] != 10,
        0 < line_share(chunk) < chunk.len() ==> chunk[line_share(chunk) - 1] == 10,
    decreases chunk.len(),
{
    if chunk.len() > 0 && chunk[0] != 10 {
        let rest = chunk.drop_first();
        lemma_share_bounds(rest);
        assert forall|i: int| 0 <= i < line_share(chunk) - 1 implies chunk[i] != 10 by {
            if i > 0 {
                assert(rest[i - 1] != 10);
            }
        }
    }
}

proof fn lemma_shares_add_up(first: Seq<u8>, second: Seq<u8>)
    requires
        first.len() > 0,
        line_share(first) == first.len(),
        first.last() != 10,
    ensures
        line_share(first + second) == first.len() + line_share(second),
    decreases first.len(),
{
    let all = first + second;
    if first.len() == 1 {
        assert(all.drop_first() =~= second);
    } else {
        lemma_share_bounds(first);
        assert(first[0] != 10);
        assert(all.drop_first() =~= first.drop_first() + second);
        lemma_shares_add_up(first.drop_first(), second);
    }
}

/// The words that the server reads and writes differ.
proof fn lemma_server_words()
    ensures
        "jsonrpc"@.len() == 7 && "jsonrpc"@[0] == 'j',
        "id"@.len() == 2,
        "result"@.len() == 6,
        "error"@.len() == 5 && "error"@[0] == 'e',
        "code"@.len() == 4 && "code"@[0] == 'c',
        "message"@.len() == 7 && "message"@[0] == 'm',
        "content"@.len() == 7 && "content"@[0] == 'c',
        "structuredContent"@.len() == 17,
        "isError"@.len() == 7 && "isError"@[0] == 'i',
        "type"@.len() == 4 && "type"@[0] == 't' && "type"@[1] == 'y',
        "text"@.len() == 4 && "text"@[0] == 't' && "text"@[1] == 'e',
        "success"@.len() == 7 && "success"@[0] == 's' && "success"@[1] == 'u',
        "deliveryUnknown"@.len() == 15 && "deliveryUnknown"@[0] == 'd',
        "data"@.len() == 4 && "data"@[0] == 'd',
        "_fastTransport"@.len() == 14 && "_fastTransport"@[0] == '_',
        "mode"@.len() == 4 && "mode"@[0] == 'm',
        "transport"@.len() == 9 && "transport"@[0] == 't',
        "reusedConnection"@.len() == 16 && "reusedConnection"@[0] == 'r',
        "reconnectedBeforeSend"@.len() == 21,
        "commandReplayed"@.len() == 15 && "commandReplayed"@[0] == 'c',
        "protocolVersion"@.len() == 15 && "protocolVersion"@[0] == 'p',
        "capabilities"@.len() == 12 && "capabilities"@[0] == 'c',
        "serverInfo"@.len() == 10 && "serverInfo"@[0] == 's',
        "instructions"@.len() == 12 && "instructions"@[0] == 'i',
        "name"@.len() == 4 && "name"@[0] == 'n',
        "version"@.len() == 7 && "version"@[0] == 'v',
        "tools"@.len() == 5 && "tools"@[0] == 't',
        "listChanged"@.len() == 11,
        "session"@.len() == 7 && "session"@[0] == 's' && "session"@[1] == 'e',
        "namespace"@.len() == 9 && "namespace"@[0] == 'n',
        "connected"@.len() == 9 && "connected"@[0] == 'c',
        "bootstrapEnabled"@.len() == 16 && "bootstrapEnabled"@[0] == 'b',
        "tools/call"@.len() == 10 && "tools/call"@[0] == 't' && "tools/call"@[6] == 'c',
        "initialize"@.len() == 10 && "initialize"@[0] == 'i',
        "ping"@.len() == 4 && "ping"@[0] == 'p',
        "resources/list"@.len() == 14 && "resources/list"@[0] == 'r',
        "prompts/list"@.len() == 12 && "prompts/list"@[0] == 'p',
        "tools/list"@.len() == 10 && "tools/list"@[0] == 't' && "tools/list"@[6] == 'l',
        "agent_browser_fast_status"@.len() == 25,
{
    reveal_strlit("jsonrpc");
    reveal_strlit("id");
    reveal_strlit("result");
    reveal_strlit("error");
    reveal_strlit("code");
    reveal_strlit("message");
    reveal_strlit("content");
    reveal_strlit("structuredContent");
    reveal_strlit("isError");
    reveal_strlit("type");
    reveal_strlit("text");
    reveal_strlit("success");
    reveal_strlit("deliveryUnknown");
    reveal_strlit("data");
    reveal_strlit("_fastTransport");
    reveal_strlit("mode");
    reveal_strlit("transport");
    reveal_strlit("reusedConnection");
    reveal_strlit("reconnectedBeforeSend");
    reveal_strlit("commandReplayed");
    reveal_strlit("protocolVersion");
    reveal_strlit("capabilities");
    reveal_strlit("serverInfo");
    reveal_strlit("instructions");
    reveal_strlit("name");
    reveal_strlit("version");
    reveal_strlit("tools");
    reveal_strlit("listChanged");
    reveal_strlit("session");
    reveal_strlit("namespace");
    reveal_strlit("connected");
    reveal_strlit("bootstrapEnabled");
    reveal_strlit("tools/call");
    reveal_strlit("initialize");
    reveal_strlit("ping");
    reveal_strlit("resources/list");
    reveal_strlit("prompts/list");
    reveal_strlit("tools/list");
    reveal_strlit("agent_browser_fast_status");
}

/// Whether a response is for this request and hands on this value of a tool, once as it is and once
/// as indented text, with whether the tool failed.
pub open spec fn responds(
    response: JsonView,
    id: JsonView,
    value: JsonView,
    is_error: bool,
) -> bool {
    &&& response.get("jsonrpc"@) == Some(JsonView::Text("2.0"@))
    &&& response.get("id"@) == Some(id)
    &&& response.get("error"@) is None
    &&& response.get("result"@) matches Some(result)
    &&& result.get("structuredContent"@) == Some(value)
    &&& result.get("isError"@) == Some(JsonView::Bool(is_error))
    &&& result.get("content"@) matches Some(JsonView::Array(items))
    &&& items.len() == 1
    &&& items[0].get("type"@) == Some(JsonView::Text("text"@))
    &&& items[0].get("text"@) == Some(JsonView::Text(json_pretty_text(value)))
}

/// Whether a response says that the request failed, with this code and these words.
pub open spec fn responds_failure(
    response: JsonView,
    id: JsonView,
    code: int,
    message: Seq<char>,
) -> bool {
    &&& response.get("jsonrpc"@) == Some(JsonView::Text("2.0"@))
    &&& response.get("id"@) == Some(id)
    &&& response.get("result"@) is None
    &&& response.get("error"@) matches Some(error)
    &&& error.get("code"@) == Some(JsonView::Number(NumberView::Negative(code as i64)))
    &&& error.get("message"@) == Some(JsonView::Text(message))
}

/// Whether a value says that a call failed with these words.
pub open spec fn tells_error(value: JsonView, words: Seq<char>) -> bool {
    &&& value.get("success"@) == Some(JsonView::Bool(false))
    &&& value.get("error"@) == Some(JsonView::Text(words))
}

proof fn lemma_responds(id: JsonView, value: JsonView)
    ensures
        responds(
            tool_response(id, value),
            id,
            value,
            value.get("success"@) == Some(JsonView::Bool(false)),
        ),
{
    broadcast use lemma_member_push;

    lemma_server_words();
    assert(member(no_members(), "error"@) is None);
    let items = Seq::<JsonView>::empty().push(
        JsonView::Object(
            no_members().push(("type"@, JsonView::Text("text"@))).push(
                ("text"@, JsonView::Text(json_pretty_text(value))),
            ),
        ),
    );
    assert(items.len() == 1);
    let result = tool_response(id, value).get("result"@)->0;
    assert(result.get("content"@) == Some(JsonView::Array(items)));
}

proof fn lemma_responds_failure(id: JsonView, code: int, message: Seq<char>)
    requires
        i64::MIN <= code < 0,
    ensures
        responds_failure(rpc_failure(id, code as i64, message), id, code, message),
{
    broadcast use lemma_member_push;

    lemma_server_words();
    assert(member(no_members(), "result"@) is None);
}

proof fn lemma_tells_error(words: Seq<char>)
    ensures
        tells_error(error_object(words), words),
{
    broadcast use lemma_member_push;

    lemma_server_words();
}

/// A request that names itself and a method is answered with what the method is for: who the server
/// is, that it is there, the tools, or that there is nothing of a kind. A method that is not known
/// is answered with the code for that. None of this changes the server.
pub proof fn law_methods_are_answered<C>(
    server: ServerView<C>,
    request: JsonView,
    version: Seq<char>,
    caller: Caller,
    id: JsonView,
    method: Seq<char>,
)
    requires
        request.get("id"@) == Some(id),
        request.get("method"@) == Some(JsonView::Text(method)),
        method != "tools/call"@,
    ensures
        server.handled(request, version, caller).0 == server,
        server.handled(request, version, caller).1 matches HandleStepView::Respond(response) && {
            let result = response.get("result"@);
            if method == "initialize"@ {
                &&& response.get("id"@) == Some(id)
                &&& result matches Some(told)
                &&& tells_introduction(told, request, version)
            } else if method == "ping"@ || method == "resources/list"@ || method
                == "prompts/list"@ {
                &&& response.get("id"@) == Some(id)
                &&& result == Some(JsonView::Object(Seq::empty()))
            } else if method == "tools/list"@ {
                &&& response.get("id"@) == Some(id)
                &&& result matches Some(told)
                &&& told.get("tools"@) == Some(JsonView::Array(tool_list()))
            } else {
                responds_failure(response, id, -32_601, "Method not found: "@ + method)
            }
        },
{
    broadcast use lemma_member_push;

    lemma_server_words();
    lemma_responds_failure(id, -32_601, "Method not found: "@ + method);
    lemma_introduction(request, version);
}

/// Whether a value introduces the server: its name and version, that it has tools which do not
/// change, and the version of the protocol, which is the one that the client asks for where it is
/// known.
pub open spec fn tells_introduction(
    told: JsonView,
    request: JsonView,
    version: Seq<char>,
) -> bool {
    let asked = match request.get("params"@) {
        Some(params) => params.get("protocolVersion"@),
        None => None,
    };
    &&& told.get("protocolVersion"@) == Some(
        if asked == Some(JsonView::Text("2025-06-18"@)) || asked == Some(
            JsonView::Text("2025-03-26"@),
        ) || asked == Some(JsonView::Text("2024-11-05"@)) {
            asked->0
        } else {
            JsonView::Text("2025-11-25"@)
        },
    )
    &&& told.get("serverInfo"@) matches Some(info)
    &&& info.get("name"@) == Some(JsonView::Text("agent-browser-fast-mcp"@))
    &&& info.get("version"@) == Some(JsonView::Text(version))
    &&& told.get("capabilities"@) matches Some(capabilities)
    &&& capabilities.get("tools"@) matches Some(tools)
    &&& tools.get("listChanged"@) == Some(JsonView::Bool(false))
    &&& told.get("instructions"@) == Some(
        JsonView::Text(
            "Low-latency core browser tools over a persistent at-most-once daemon channel. Use agent-browser mcp for the complete compatibility surface."@,
        ),
    )
}

proof fn lemma_introduction(request: JsonView, version: Seq<char>)
    ensures
        tells_introduction(introduction(request, version), request, version),
{
    broadcast use lemma_member_push;

    lemma_server_words();
    let told = introduction(request, version);
    let info = told.get("serverInfo"@)->0;
    assert(info.get("version"@) == Some(JsonView::Text(version)));
    assert(info.get("name"@) == Some(JsonView::Text("agent-browser-fast-mcp"@)));
    let tools = told.get("capabilities"@)->0.get("tools"@)->0;
    assert(tools.get("listChanged"@) == Some(JsonView::Bool(false)));
}

/// A call of a tool whose parameters are no object, or name no tool, fails as one with parameters
/// that the method does not take.
pub proof fn law_calls_need_a_tool<C>(
    server: ServerView<C>,
    id: JsonView,
    params: Option<JsonView>,
    caller: Caller,
)
    ensures
        !(params matches Some(JsonView::Object(_))) ==> server.called(id, params, caller).0
            == server && (server.called(id, params, caller).1 matches HandleStepView::Respond(
            response,
        ) && responds_failure(response, id, -32_602, "tools/call requires object params"@)),
        params matches Some(JsonView::Object(members)) ==> (!(member(members, "name"@) matches Some(
            JsonView::Text(_),
        )) ==> server.called(id, params, caller).0 == server && (server.called(
            id,
            params,
            caller,
        ).1 matches HandleStepView::Respond(response) && responds_failure(
            response,
            id,
            -32_602,
            "tools/call requires a tool name"@,
        ))),
{
    lemma_responds_failure(id, -32_602, "tools/call requires object params"@);
    lemma_responds_failure(id, -32_602, "tools/call requires a tool name"@);
}

/// The arguments that a call gives, none where it gives no object.
pub open spec fn given_arguments(params: Seq<(Seq<char>, JsonView)>) -> Arguments {
    match member(params, "arguments"@) {
        Some(JsonView::Object(given)) => given,
        _ => Seq::empty(),
    }
}

/// The report on the transport tells the session that is asked for, else the one of the settings,
/// the namespace, whether a connection is open, and whether sessions may be started. A session that
/// may not be is refused.
pub proof fn law_status_is_told<C>(
    server: ServerView<C>,
    id: JsonView,
    params: Seq<(Seq<char>, JsonView)>,
    caller: Caller,
)
    requires
        member(params, "name"@) == Some(JsonView::Text("agent_browser_fast_status"@)),
    ensures
        ({
            let step = server.called(id, Some(JsonView::Object(params)), caller).1;
            let session = match member(given_arguments(params), "session"@) {
                Some(JsonView::Text(name)) => name,
                _ => server.config.session,
            };
            let key = session_key(session, server.config.namespace, server.base);
            &&& step matches HandleStepView::Respond(response)
            &&& if is_session_name(session) {
                exists|value: JsonView|
                    {
                        &&& #[trigger] responds(response, id, value, false)
                        &&& value.get("success"@) == Some(JsonView::Bool(true))
                        &&& value.get("data"@) matches Some(data)
                        &&& data.get("session"@) == Some(JsonView::Text(session))
                        &&& data.get("namespace"@) == Some(
                            match server.config.namespace {
                                Some(name) => JsonView::Text(name),
                                None => JsonView::Null,
                            },
                        )
                        &&& data.get("connected"@) == Some(
                            JsonView::Bool(server.pool.contains_key(key)),
                        )
                        &&& data.get("bootstrapEnabled"@) == Some(
                            JsonView::Bool(server.config.bootstrap),
                        )
                        &&& data.get("transport"@) == Some(
                            JsonView::Text("persistent-at-most-once"@),
                        )
                    }
            } else {
                exists|value: JsonView| #[trigger]
                    responds(response, id, value, true) && tells_error(
                        value,
                        bad_session_message(session),
                    )
            }
        }),
{
    broadcast use lemma_member_push;

    lemma_server_words();
    let arguments = given_arguments(params);
    let value = server.status_value(arguments);
    lemma_responds(id, value);
    lemma_tells_error(bad_session_message(chosen_session(server.config, arguments)));
    let step = server.called(id, Some(JsonView::Object(params)), caller).1;
    assert(step == HandleStepView::<C>::Respond(tool_response(id, value)));
    if is_session_name(chosen_session(server.config, arguments)) {
        assert(responds(step->Respond_0, id, value, false));
    } else {
        assert(responds(step->Respond_0, id, value, true));
    }
}

/// A call of any other tool is for the session and the time that it gives, else those of the
/// settings. Where the session may be, the time is from a millisecond to ten minutes and the tool
/// takes the arguments, the command goes to the daemon of the session with an identifier of its own
/// and all else as it is. Otherwise the call fails with words for what is wrong, and nothing
/// changes.
pub proof fn law_calls_are_sent<C>(
    server: ServerView<C>,
    id: JsonView,
    params: Seq<(Seq<char>, JsonView)>,
    caller: Caller,
    name: Seq<char>,
    other: Seq<char>,
)
    requires
        member(params, "name"@) == Some(JsonView::Text(name)),
        name != "agent_browser_fast_status"@,
    ensures
        ({
            let (after, step) = server.called(id, Some(JsonView::Object(params)), caller);
            let arguments = given_arguments(params);
            let session = match member(arguments, "session"@) {
                Some(JsonView::Text(asked)) => asked,
                _ => server.config.session,
            };
            let timeout_ms = match member(arguments, "timeoutMs"@) {
                Some(JsonView::Number(NumberView::Unsigned(ms))) => ms,
                _ => server.config.timeout_ms,
            };
            let key = session_key(session, server.config.namespace, server.base);
            let dir = namespaced_dir(server.base, effective_namespace(server.config.namespace));
            let next = if server.sequence == u64::MAX {
                0u64
            } else {
                (server.sequence + 1) as u64
            };
            let trouble = if !is_session_name(session) {
                Some(bad_session_message(session))
            } else if timeout_ms < 1 || timeout_ms > 600_000 {
                Some("timeoutMs must be between 1 and 600000"@)
            } else {
                match called_command(name, arguments) {
                    None => Some("unknown fast MCP tool: "@ + name),
                    Some(Err(words)) => Some(words),
                    Some(Ok(_)) => None,
                }
            };
            match trouble {
                Some(words) => {
                    &&& after == server
                    &&& step matches HandleStepView::Respond(response)
                    &&& exists|value: JsonView| #[trigger]
                        responds(response, id, value, true) && tells_error(value, words)
                },
                None => {
                    let called = called_command(name, arguments)->0->Ok_0;
                    &&& after.sequence == next
                    &&& after.pool == server.pool.remove(key)
                    &&& after.config == server.config
                    &&& step matches HandleStepView::Send(call, first)
                    &&& call.id == id
                    &&& call.built.session == session
                    &&& call.built.timeout_ms == timeout_ms
                    &&& call.built.cli_args == called.cli_args
                    &&& call.built.bootstrap_safe == called.bootstrap_safe
                    &&& other != "id"@ ==> call.built.command.get(other) == called.command.get(
                        other,
                    )
                    &&& called.command.get("id"@) is None ==> call.built.command.get("id"@) == Some(
                        JsonView::Text(
                            "fast-mcp-"@ + decimal(caller.process as nat) + "-"@ + decimal(
                                caller.micros as nat,
                            ) + "-"@ + decimal(next as nat),
                        ),
                    )
                    &&& first == if server.pool.contains_key(key) {
                        SendStepView::Exchange {
                            key,
                            dir,
                            reused: true,
                            retry: false,
                            connection: server.pool[key],
                        }
                    } else {
                        SendStepView::Connect { key, dir, retry: false }
                    }
                },
            }
        }),
{
    lemma_server_words();
    let arguments = given_arguments(params);
    match built_call(server.config, name, arguments) {
        Err(words) => {
            lemma_tells_error(words);
            lemma_responds(id, error_object(words));
            let step = server.called(id, Some(JsonView::Object(params)), caller).1;
            assert(responds(step->Respond_0, id, error_object(words), true));
        },
        Ok(built) => {
            lemma_commands_are_objects(name, arguments);
            match built.command {
                JsonView::Object(members) => {
                    let next = next_sequence(server.sequence);
                    law_member_reads_back(
                        members,
                        "id"@,
                        JsonView::Text(command_identifier(caller, next)),
                        other,
                    );
                },
                _ => {},
            }
        },
    }
}

proof fn lemma_commands_are_objects(name: Seq<char>, arguments: Arguments)
    ensures
        called_command(name, arguments) matches Some(Ok(called)) ==> called.command is Object,
{
}

/// A call that the daemon answered is answered with what the daemon said, and failed exactly where
/// the response has a member `success` that is false. The report says that it came over a
/// persistent connection, over which transport, whether the connection was open before, and whether
/// it was made anew before the command was sent.
pub proof fn law_answered_calls_hand_on_the_response(
    bootstrap: bool,
    call: PendingView,
    outcome: SendOutcomeView,
    name: Seq<char>,
)
    ensures
        ({
            let step = finished(bootstrap, call, Ok(outcome));
            let failed = outcome.response.get("success"@) == Some(JsonView::Bool(false));
            &&& step matches FinishView::Respond(response)
            &&& exists|value: JsonView|
                {
                    &&& #[trigger] responds(response, call.id, value, failed)
                    &&& outcome.response is Object && name != "_fastTransport"@ ==> value.get(name)
                        == outcome.response.get(name)
                    &&& !(outcome.response is Object) ==> value.get("success"@) == Some(
                        JsonView::Bool(true),
                    ) && value.get("data"@) == Some(outcome.response)
                    &&& value.get("_fastTransport"@) matches Some(report)
                    &&& report.get("mode"@) == Some(JsonView::Text("persistent"@))
                    &&& report.get("transport"@) == Some(JsonView::Text(outcome.transport))
                    &&& report.get("reusedConnection"@) == Some(
                        JsonView::Bool(outcome.reused_connection),
                    )
                    &&& report.get("reconnectedBeforeSend"@) == Some(
                        JsonView::Bool(outcome.reconnected),
                    )
                }
        }),
{
    broadcast use lemma_member_push;

    lemma_server_words();
    let report = persistent_report(outcome);
    let value = annotated(outcome.response, report);
    law_report_keeps_the_response(outcome.response, report, "success"@);
    law_report_keeps_the_response(outcome.response, report, name);
    lemma_responds(call.id, value);
    let failed = outcome.response.get("success"@) == Some(JsonView::Bool(false));
    assert(finished(bootstrap, call, Ok(outcome)) == FinishView::Respond(
        tool_response(call.id, value),
    ));
    assert(responds(tool_response(call.id, value), call.id, value, failed));
}

/// A call that failed before it was sent starts a session where the settings allow it and the
/// command may go through a command line. One with a text or a value is answered with why it does
/// not. Any other failure is answered with its words and whether the delivery is unknown.
pub proof fn law_failed_calls_are_answered(bootstrap: bool, call: PendingView, message: Seq<char>)
    ensures
        ({
            let unsent = FailureView { stage: FailureStage::BeforeSend, message };
            let step = finished(bootstrap, call, Err(unsent));
            if !call.built.bootstrap_safe {
                &&& step matches FinishView::Respond(response)
                &&& exists|value: JsonView| #[trigger]
                    responds(response, call.id, value, true) && tells_error(
                        value,
                        message
                            + "; this command contains text/value data and will not be bootstrapped through process arguments—establish the session first with agent-browser"@,
                    )
            } else if bootstrap {
                step == FinishView::Bootstrap(call, unsent)
            } else {
                &&& step matches FinishView::Respond(response)
                &&& exists|value: JsonView|
                    {
                        &&& #[trigger] responds(response, call.id, value, true)
                        &&& tells_error(value, message)
                        &&& value.get("type"@) == Some(JsonView::Text("channel_unavailable"@))
                        &&& value.get("deliveryUnknown"@) == Some(JsonView::Bool(false))
                    }
            }
        }),
        ({
            let unknown = FailureView { stage: FailureStage::DeliveryUnknown, message };
            let step = finished(bootstrap, call, Err(unknown));
            &&& step matches FinishView::Respond(response)
            &&& exists|value: JsonView|
                {
                    &&& #[trigger] responds(response, call.id, value, true)
                    &&& tells_error(
                        value,
                        message + "; command delivery is unknown and was not replayed"@,
                    )
                    &&& value.get("type"@) == Some(JsonView::Text("delivery_unknown"@))
                    &&& value.get("deliveryUnknown"@) == Some(JsonView::Bool(true))
                }
        }),
{
    broadcast use lemma_member_push;

    lemma_server_words();
    let unsent = FailureView { stage: FailureStage::BeforeSend, message };
    let unknown = FailureView { stage: FailureStage::DeliveryUnknown, message };
    lemma_responds(call.id, channel_error_object(unsent));
    lemma_responds(call.id, channel_error_object(unknown));
    lemma_responds(call.id, error_object(message + NO_BOOTSTRAP@));
    lemma_tells_error(message + NO_BOOTSTRAP@);
    let value = channel_error_object(unknown);
    assert(responds(tool_response(call.id, value), call.id, value, true));
    let value = channel_error_object(unsent);
    assert(responds(tool_response(call.id, value), call.id, value, true));
    let value = error_object(message + NO_BOOTSTRAP@);
    assert(responds(tool_response(call.id, value), call.id, value, true));
}

/// A call that started its session is answered with what the command line said, failed exactly
/// where that has a member `success` that is false, and marked as such. Where that failed too, the
/// words tell of both failures.
pub proof fn law_started_calls_hand_on_the_output(
    id: JsonView,
    failure: FailureView,
    output: JsonView,
    words: Seq<char>,
    name: Seq<char>,
)
    ensures
        ({
            let response = bootstrapped(id, failure, Ok(output));
            let failed = output.get("success"@) == Some(JsonView::Bool(false));
            exists|value: JsonView|
                {
                    &&& #[trigger] responds(response, id, value, failed)
                    &&& output is Object && name != "_fastTransport"@ ==> value.get(name)
                        == output.get(name)
                    &&& !(output is Object) ==> value.get("data"@) == Some(output)
                    &&& value.get("_fastTransport"@) matches Some(report)
                    &&& report.get("mode"@) == Some(JsonView::Text("bootstrap-cli"@))
                    &&& report.get("reusedConnection"@) == Some(JsonView::Bool(false))
                    &&& report.get("commandReplayed"@) == Some(JsonView::Bool(false))
                }
        }),
        exists|value: JsonView| #[trigger]
            responds(bootstrapped(id, failure, Err(words)), id, value, true) && tells_error(
                value,
                "persistent channel unavailable ("@ + failure.words() + "); bootstrap failed: "@
                    + words,
            ),
{
    broadcast use lemma_member_push;

    lemma_server_words();
    let report = bootstrap_report();
    let value = annotated(output, report);
    law_report_keeps_the_response(output, report, "success"@);
    law_report_keeps_the_response(output, report, name);
    lemma_responds(id, value);
    let failed = output.get("success"@) == Some(JsonView::Bool(false));
    assert(responds(bootstrapped(id, failure, Ok(output)), id, value, failed));
    let both = "persistent channel unavailable ("@ + failure.words() + "); bootstrap failed: "@
        + words;
    lemma_tells_error(both);
    lemma_responds(id, error_object(both));
    assert(responds(bootstrapped(id, failure, Err(words)), id, error_object(both), true));
}

/// A line of ASCII blanks is passed over. Any other is a request where it reads as an object, and
/// is answered with the code for what is wrong with it where it does not.
pub proof fn law_lines_are_accepted(line: Seq<u8>)
    ensures
        ({
            let blank = forall|i: int|
                0 <= i < line.len() ==> #[trigger] line[i] == 32 || line[i] == 9 || line[i] == 10
                    || line[i] == 12 || line[i] == 13;
            if blank {
                line_step(line) is Skip
            } else {
                match parsed_json_bytes(line) {
                    Ok(JsonView::Object(members)) => line_step(line) == LineStepView::Request(
                        JsonView::Object(members),
                    ),
                    Ok(_) => line_step(line) matches LineStepView::Respond(response)
                        && responds_failure(response, JsonView::Null, -32_600, "Invalid Request"@),
                    Err(words) => line_step(line) matches LineStepView::Respond(response)
                        && responds_failure(
                        response,
                        JsonView::Null,
                        -32_700,
                        "Parse error: "@ + words,
                    ),
                }
            }
        }),
{
    lemma_responds_failure(JsonView::Null, -32_600, "Invalid Request"@);
    match parsed_json_bytes(line) {
        Err(words) => lemma_responds_failure(JsonView::Null, -32_700, "Parse error: "@ + words),
        _ => {},
    }
    let blank = forall|i: int|
        0 <= i < line.len() ==> #[trigger] line[i] == 32 || line[i] == 9 || line[i] == 10 || line[i]
            == 12 || line[i] == 13;
    if blank {
        assert forall|i: int| 0 <= i < line.len() implies is_ascii_space(#[trigger] line[i]) by {}
    } else {
        let i = choose|i: int|
            0 <= i < line.len() && !(#[trigger] line[i] == 32 || line[i] == 9 || line[i] == 10
                || line[i] == 12 || line[i] == 13);
        assert(!is_ascii_space(line[i]));
    }
}

/// A line is what came up to and with its first line feed, no matter what follows it, and what came
/// before the end of the input where there is none. A line over 4 MiB is not taken.
pub proof fn law_lines_end_at_a_line_feed(pending: Seq<u8>, body: Seq<u8>, rest: Seq<u8>)
    requires
        forall|i: int| 0 <= i < body.len() ==> #[trigger] body[i] != 10,
    ensures
        fed(pending, body.push(10) + rest) == if pending.len() + body.len() + 1 > 4_194_304 {
            FedView::TooLong("MCP request exceeded 4 MiB"@)
        } else {
            FedView::Line((body.len() + 1) as nat, pending + body.push(10))
        },
        body.len() > 0 ==> fed(pending, body) == if pending.len() + body.len() > 4_194_304 {
            FedView::TooLong("MCP request exceeded 4 MiB"@)
        } else {
            FedView::More(body.len())
        },
        fed(pending, Seq::empty()) == if pending.len() == 0 {
            FedView::End
        } else {
            FedView::Line(0, pending)
        },
{
    let chunk = body.push(10) + rest;
    assert forall|i: int| 0 <= i < body.len() implies chunk[i] != 10 by {
        assert(chunk[i] == body[i]);
    }
    assert(chunk[body.len() as int] == 10);
    lemma_line_share(chunk, body.len());
    assert(chunk.take((body.len() + 1) as int) =~= body.push(10));
    lemma_line_share(body, body.len());
    assert(body.take(body.len() as int) =~= body);
    assert((pending + body.push(10)).last() == 10);
    if body.len() > 0 {
        assert((pending + body).last() == body[body.len() - 1]);
    }
}

/// The models of calls, settings and steps show the fields as they are.
pub proof fn law_models_show_their_fields<C>(
    built: BuiltCommand,
    call: PendingCall,
    config: Config,
    server: Server<C>,
    failure: ChannelFailure,
    json: Json,
)
    ensures
        built@.session == built.session@ && built@.timeout_ms == built.timeout_ms,
        built@.command == built.command@ && built@.bootstrap_safe == built.bootstrap_safe,
        built@.cli_args == texts_view(built.cli_args@),
        call@.id == call.id@ && call@.built == call.built@,
        config@.session == config.session@ && config@.timeout_ms == config.timeout_ms,
        config@.bootstrap == config.bootstrap,
        config.namespace is None <==> config@.namespace is None,
        config.namespace matches Some(name) ==> config@.namespace == Some(name@),
        server@.config == server.config@ && server@.pool == server.pool@,
        server@.sequence == server.sequence && server@.base == path_view(server.base),
        FinishStep::Respond(json)@ == FinishView::Respond(json@),
        FinishStep::Bootstrap(call, failure)@ == FinishView::Bootstrap(call@, failure@),
        LineStep::Respond(json)@ == LineStepView::Respond(json@),
        LineStep::Request(json)@ == LineStepView::Request(json@),
{
}

} // verus!
