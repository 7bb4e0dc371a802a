use std::path::PathBuf;

use agent_browser::fast_channel::{
    accept_line, apply_namespace, connect_error, default_session, default_timeout_ms, finish_send,
    invalid_request, sanitize_session_component, unreadable_input, validate_session, Caller,
    ChannelKey, ChannelOperation, ChannelPool, ChannelRequest, ChannelStep, HandleStep, LineStep,
    PersistentChannel, Reply, SendContext, SendStep, Server, DEFAULT_TIMEOUT_MS,
};
use agent_browser::fast_transport::{ChannelFailure, FailureStage};
use agent_browser::json::Json;
use agent_browser::session::port_for_identity;

const CALLER: Caller = Caller { process: 12, micros: 345 };

fn json(text: &str) -> Json {
    Json::parse(text).unwrap()
}

fn base() -> PathBuf {
    PathBuf::from("/tmp/ab")
}

fn request(operation: Option<&str>, command: Option<&str>) -> ChannelRequest {
    ChannelRequest {
        id: Json::text("r"),
        operation: operation.map(str::to_string),
        command: command.map(json),
        ..ChannelRequest::unset()
    }
}

fn reply(server: &mut Server<u32>, request: ChannelRequest) -> String {
    match server.handle(request, &base(), CALLER) {
        HandleStep::Reply(reply) => reply.render(7).to_text(),
        HandleStep::Send(..) => panic!("the request should be answered at once"),
    }
}

fn send(server: &mut Server<u32>, request: ChannelRequest) -> (SendContext, SendStep<u32>) {
    match server.handle(request, &base(), CALLER) {
        HandleStep::Send(context, step) => (context, step),
        HandleStep::Reply(_) => panic!("the request should reach the daemon"),
    }
}

fn done(server: &mut Server<u32>, step: SendStep<u32>, response: &str) -> SendStep<u32> {
    let step = match step {
        SendStep::Connect(ticket) => server.pool.connected(ticket, Ok(1)),
        other => other,
    };
    match step {
        SendStep::Exchange(ticket, connection) => {
            server.pool.exchanged(ticket, connection, "unix", Ok(json(response)))
        }
        _ => panic!("the command should go out"),
    }
}

#[test]
fn namespace_sanitization_matches_daemon_contract() {
    assert_eq!(
        sanitize_session_component("Next Dev Loop: /Users/me/worktree!"),
        "next-dev-loop-users-me-worktree"
    );
    assert_eq!(sanitize_session_component(" --Agent__ "), "agent");
}

#[test]
fn namespace_path_matches_daemon_layout() {
    let path = apply_namespace(
        PathBuf::from("/tmp/agent-browser"),
        Some("worktree-one"),
    );
    assert_eq!(
        path,
        PathBuf::from("/tmp/agent-browser")
            .join("namespaces")
            .join("worktree-one")
            .join("run")
    );
}

#[test]
fn session_validation_rejects_path_injection() {
    assert!(validate_session("default").is_ok());
    assert!(validate_session("work_1").is_ok());
    assert!(validate_session("../other").is_err());
    assert!(validate_session("").is_err());
}

#[test]
fn windows_port_hash_matches_existing_daemon_algorithm() {
    assert_eq!(port_for_identity("default"), 50_838);
    assert_eq!(port_for_identity("my-session"), 63_105);
    assert_eq!(port_for_identity("work"), 51_184);
}

#[test]
fn request_defaults_to_hot_send_contract() {
    let request = ChannelRequest {
        command: Some(json(r#"{"action": "snapshot"}"#)),
        ..ChannelRequest::unset()
    };
    assert_eq!(request.session, "default");
    assert_eq!(request.timeout_ms, DEFAULT_TIMEOUT_MS);
    assert!(request.operation.is_none());
    assert_eq!((default_session().as_str(), default_timeout_ms()), ("default", 30_000));
    let mut server: Server<u32> = Server::new();
    assert!(matches!(server.handle(request, &base(), CALLER), HandleStep::Send(..)));
}

#[test]
fn explicit_command_id_is_preserved() {
    let mut server: Server<u32> = Server::new();
    let explicit = request(None, Some(r#"{"id": "caller-id", "action": "snapshot"}"#));
    let (context, _) = send(&mut server, explicit);
    assert_eq!(context.command.get("id"), Some(&Json::text("caller-id")));
    assert_eq!(server.sequence, 0);
}

#[test]
fn a_command_without_an_identifier_gets_one() {
    let mut server: Server<u32> = Server::new();
    let (context, _) = send(&mut server, request(Some("send"), Some(r#"{"action":"snapshot"}"#)));
    assert_eq!(context.command.to_text(), r#"{"action":"snapshot","id":"fast-12-345-1"}"#);
    server.sequence = u64::MAX;
    let (context, _) = send(&mut server, request(None, Some(r#"{"action":"snapshot"}"#)));
    assert_eq!(context.command.get("id"), Some(&Json::text("fast-12-345-0")));
}

#[test]
fn local_operations_are_answered_at_once() {
    let mut server: Server<u32> = Server::new();
    assert_eq!(
        reply(&mut server, request(Some("ping"), None)),
        r#"{"channel":{"reconnected":false,"reusedConnection":false},"id":"r","ok":true,"result":{"connected":false,"pong":true,"session":"default"},"schemaVersion":"agent.browser.fast-channel/v1","timing":{"roundTripMicros":7}}"#
    );
    let (_, step) = send(&mut server, request(None, Some(r#"{"action":"a"}"#)));
    done(&mut server, step, "{}");
    assert!(reply(&mut server, request(Some("status"), None))
        .contains(r#""result":{"connected":true,"session":"default","socketDir":"/tmp/ab"}"#));
    assert!(reply(&mut server, request(Some("close"), None))
        .contains(r#""result":{"closed":true,"session":"default"}"#));
    assert!(reply(&mut server, request(Some("close"), None))
        .contains(r#""result":{"closed":false,"session":"default"}"#));
}

#[test]
fn bad_requests_are_refused() {
    let mut server: Server<u32> = Server::new();
    let mut refuse = |change: &dyn Fn(&mut ChannelRequest)| {
        let mut bad = request(None, Some(r#"{"action":"a"}"#));
        change(&mut bad);
        let response = json(&reply(&mut server, bad));
        assert_eq!(response.get("ok"), Some(&Json::flag(false)));
        response.get("error").and_then(Json::as_str).unwrap().to_string()
    };
    assert_eq!(
        refuse(&|bad| bad.session = "../x".to_string()),
        "invalid session name '../x'; use only alphanumeric characters, hyphens, and underscores"
    );
    assert_eq!(
        refuse(&|bad| bad.operation = Some("fly".to_string())),
        "operation must be send, ping, status, or close"
    );
    assert_eq!(
        refuse(&|bad| bad.timeout_ms = 0),
        "timeoutMs must be between 1 and 600000 milliseconds"
    );
    assert_eq!(
        refuse(&|bad| bad.timeout_ms = 600_001),
        "timeoutMs must be between 1 and 600000 milliseconds"
    );
    assert_eq!(refuse(&|bad| bad.command = None), "operation=send requires command");
    assert_eq!(refuse(&|bad| bad.command = Some(json("[]"))), "command must be a JSON object");
    assert_eq!(
        refuse(&|bad| bad.command = Some(json(r#"{"action":1}"#))),
        "command.action must be a string"
    );
}

#[test]
fn the_response_of_the_daemon_is_returned_as_is() {
    let mut server: Server<u32> = Server::new();
    let (context, step) = send(&mut server, request(None, Some(r#"{"action":"a"}"#)));
    let result = match done(&mut server, step, r#"{"success":false,"error":"no page"}"#) {
        SendStep::Done(result) => result,
        _ => panic!("the send should be over"),
    };
    assert_eq!(
        finish_send(context, result).render(9).to_text(),
        r#"{"channel":{"reconnected":false,"reusedConnection":false,"session":"default","transport":"unix"},"id":"r","ok":false,"result":{"error":"no page","success":false},"schemaVersion":"agent.browser.fast-channel/v1","timing":{"roundTripMicros":9}}"#
    );
    let (_, step) = send(&mut server, request(None, Some(r#"{"action":"a"}"#)));
    match done(&mut server, step, "{}") {
        SendStep::Done(Ok(outcome)) => assert!(outcome.reused_connection && !outcome.reconnected),
        _ => panic!("the connection should be used again"),
    }
}

#[test]
fn only_an_unsent_command_is_tried_again() {
    let mut server: Server<u32> = Server::new();
    let (_, step) = send(&mut server, request(None, Some(r#"{"action":"a"}"#)));
    done(&mut server, step, "{}");

    let (context, step) = send(&mut server, request(None, Some(r#"{"action":"a"}"#)));
    let (ticket, connection) = match step {
        SendStep::Exchange(ticket, connection) => (ticket, connection),
        _ => panic!("the connection is open"),
    };
    let broken = Err(ChannelFailure::before_send("broken"));
    let ticket = match server.pool.exchanged(ticket, connection, "unix", broken) {
        SendStep::Connect(ticket) => ticket,
        _ => panic!("an unsent command should be tried again"),
    };
    let result = match server.pool.connected(ticket, Err("refused".to_string())) {
        SendStep::Done(result) => result,
        _ => panic!("the send should be over"),
    };
    assert!(finish_send(context, result)
        .render(1)
        .to_text()
        .contains("persistent channel failed (broken); reconnect failed (refused)"));

    let (_, step) = send(&mut server, request(None, Some(r#"{"action":"a"}"#)));
    let ticket = match step {
        SendStep::Connect(ticket) => ticket,
        _ => panic!("the broken connection is gone"),
    };
    let (ticket, connection) = match server.pool.connected(ticket, Ok(2)) {
        SendStep::Exchange(ticket, connection) => (ticket, connection),
        _ => panic!("the command should go out"),
    };
    let lost = Err(ChannelFailure::delivery_unknown("timed out"));
    match server.pool.exchanged(ticket, connection, "unix", lost) {
        SendStep::Done(Err(failure)) => assert_eq!(failure.message, "timed out"),
        _ => panic!("a command that may have arrived is not sent again"),
    }
}

#[test]
fn a_command_is_written_once() {
    let mut channel = PersistentChannel::start(json(r#"{"action":"a"}"#));
    let mut operations = Vec::new();
    let response = loop {
        match channel.advance(Ok("{\"success\":true} \n".to_string())) {
            ChannelStep::Perform(next, operation) => {
                operations.push(operation);
                channel = next;
            }
            ChannelStep::Done(result) => break result.unwrap(),
        }
    };
    assert_eq!(
        operations,
        [
            ChannelOperation::SetWriteTimeout,
            ChannelOperation::Write(b"{\"action\":\"a\"}\n".to_vec()),
            ChannelOperation::Flush,
            ChannelOperation::ReadLine,
        ]
    );
    assert_eq!(response.to_text(), r#"{"success":true}"#);
}

#[test]
fn each_operation_has_its_failure() {
    let expected = [
        (FailureStage::BeforeSend, "failed to set daemon read timeout: x"),
        (FailureStage::BeforeSend, "failed to set daemon write timeout: x"),
        (FailureStage::DeliveryUnknown, "failed to write daemon command: x"),
        (FailureStage::DeliveryUnknown, "failed to flush daemon command: x"),
        (FailureStage::DeliveryUnknown, "failed to read daemon response: x"),
    ];
    for (count, (stage, message)) in expected.iter().enumerate() {
        let mut channel = PersistentChannel::start(json("{}"));
        for _ in 0..count {
            channel = match channel.advance(Ok(String::new())) {
                ChannelStep::Perform(next, _) => next,
                ChannelStep::Done(_) => panic!("the exchange should go on"),
            };
        }
        match channel.advance(Err("x".to_string())) {
            ChannelStep::Done(Err(failure)) => {
                assert_eq!((&failure.stage, failure.message.as_str()), (stage, *message))
            }
            _ => panic!("the exchange should be over"),
        }
    }
}

#[test]
fn lines_are_checked_before_they_are_read() {
    assert!(matches!(accept_line(" \t\u{3000}\n"), LineStep::Skip));
    match accept_line("{\"id\":1} \r\n") {
        LineStep::Decode(text) => assert_eq!(text, "{\"id\":1}"),
        _ => panic!("the line should be read"),
    }
    let message = |reply: Reply| {
        let response = reply.render(0);
        response.get("error").and_then(Json::as_str).unwrap().to_string()
    };
    match accept_line(&"x".repeat(4 * 1024 * 1024 + 1)) {
        LineStep::Reply(reply) => {
            assert_eq!(message(reply), "channel request exceeded the 4 MiB limit")
        }
        _ => panic!("the line should be refused"),
    }
    assert_eq!(message(invalid_request("x")), "invalid channel request JSON: x");
    assert_eq!(message(unreadable_input("x")), "failed to read channel input: x");
}

#[test]
fn a_missing_daemon_is_explained() {
    assert_eq!(
        connect_error("/tmp/ab/s.sock", "refused"),
        "failed to connect to agent-browser daemon at /tmp/ab/s.sock: refused; establish the session once with the normal agent-browser CLI"
    );
}

#[test]
fn a_status_tells_its_directory() {
    let mut server: Server<u32> = Server::new();
    let request = |operation: &str| {
        let mut request = ChannelRequest::unset();
        request.operation = Some(operation.to_string());
        request.session = "s".to_string();
        request.namespace = Some("Work Tree".to_string());
        request
    };
    let base = PathBuf::from("/tmp/ab");
    match server.handle_answerable(request("status"), &base, CALLER) {
        Some(HandleStep::Reply(Reply::Success { result, .. })) => assert_eq!(
            result.to_text(),
            r#"{"connected":false,"session":"s","socketDir":"/tmp/ab/namespaces/work-tree/run"}"#
        ),
        _ => panic!("a status should be answered"),
    }
    match server.handle_answerable(request("close"), &base, CALLER) {
        Some(HandleStep::Reply(Reply::Success { result, .. })) => {
            assert_eq!(result.to_text(), r#"{"closed":false,"session":"s"}"#)
        }
        _ => panic!("a close should be answered"),
    }
}

#[test]
fn a_connection_serves_one_namespace_and_session() {
    let key = |session: &str, namespace: Option<&str>| {
        ChannelKey::new(session, namespace, &base()).unwrap()
    };
    let mut pool: ChannelPool<u32> = ChannelPool::new();
    let ticket = match pool.send(key("s", Some("Work Tree"))) {
        SendStep::Connect(ticket) => ticket,
        _ => panic!("an empty pool connects"),
    };
    let (ticket, connection) = match pool.connected(ticket, Ok(7)) {
        SendStep::Exchange(ticket, connection) => (ticket, connection),
        _ => panic!("the command should be run"),
    };
    assert!(matches!(
        pool.exchanged(ticket, connection, "unix", Ok(json("{}"))),
        SendStep::Done(Ok(_))
    ));
    for (session, namespace) in [("s", None), ("s", Some("other")), ("t", Some("Work Tree"))] {
        assert!(matches!(pool.send(key(session, namespace)), SendStep::Connect(_)));
    }
    match pool.send(key("s", Some("work-tree"))) {
        SendStep::Exchange(ticket, connection) => {
            assert!(ticket.reused && connection == 7);
            assert_eq!(
                ticket.key.address.socket_path(),
                PathBuf::from("/tmp/ab/namespaces/work-tree/run/s.sock")
            );
        }
        _ => panic!("the open connection should be used"),
    }
}
