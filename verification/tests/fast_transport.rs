use std::path::PathBuf;

use agent_browser::fast_transport::{
    connect_failure, port_identity, read_response, ChannelFailure, ChannelPool, Exchange, ExchangeStep,
    FailureStage, Operation, SendStep, SessionKey, MAX_RESPONSE_BYTES,
};
use agent_browser::json::Json;
use agent_browser::session::{choose_port, namespaced_socket_dir, port_for_identity, sanitize_component};

fn json(text: &str) -> Json {
    Json::parse(text).unwrap()
}

fn key(session: &str) -> SessionKey {
    SessionKey::new(session, Some("Work Tree"), &PathBuf::from("/tmp/ab")).unwrap()
}

#[test]
fn namespace_matches_daemon_layout() {
    assert_eq!(
        sanitize_component("Next Dev Loop: /Users/me/worktree!"),
        "next-dev-loop-users-me-worktree"
    );
    assert_eq!(
        namespaced_socket_dir(PathBuf::from("/tmp/ab"), Some("worktree-one")),
        PathBuf::from("/tmp/ab/namespaces/worktree-one/run")
    );
}

#[test]
fn unsafe_sessions_are_rejected() {
    assert!(SessionKey::new("default", None, &PathBuf::from("/tmp/ab")).is_ok());
    assert!(SessionKey::new("work_1", None, &PathBuf::from("/tmp/ab")).is_ok());
    assert!(SessionKey::new("../other", None, &PathBuf::from("/tmp/ab")).is_err());
    assert!(SessionKey::new("", None, &PathBuf::from("/tmp/ab")).is_err());
}

#[test]
fn windows_port_hash_matches_daemon() {
    assert_eq!(port_for_identity("default"), 50_838);
    assert_eq!(port_for_identity("my-session"), 63_105);
    assert_eq!(port_for_identity("work"), 51_184);
}

#[test]
fn delivery_unknown_message_prohibits_replay() {
    let failure = ChannelFailure::delivery_unknown("read timed out");
    assert_eq!(failure.stage, FailureStage::DeliveryUnknown);
    assert!(failure.to_string().contains("was not replayed"));
}

#[test]
fn a_session_key_names_its_files() {
    let key = key("s1");
    assert_eq!(key.session(), "s1");
    assert_eq!(key.socket_dir(), &PathBuf::from("/tmp/ab/namespaces/work-tree/run"));
    assert_eq!(key.socket_path(), PathBuf::from("/tmp/ab/namespaces/work-tree/run/s1.sock"));
    assert_eq!(key.port_path(), PathBuf::from("/tmp/ab/namespaces/work-tree/run/s1.port"));
    let plain = SessionKey::new("s1", Some("--"), &PathBuf::from("/tmp/ab")).unwrap();
    assert_eq!(plain.socket_dir(), &PathBuf::from("/tmp/ab"));
    assert_eq!(
        SessionKey::new("a b", None, &PathBuf::from("/tmp/ab")).unwrap_err().to_string(),
        "invalid session name 'a b'; use alphanumeric characters, hyphens, or underscores"
    );
}

#[test]
fn an_exchange_writes_one_line() {
    let exchange = Exchange::start(json(r#"{"b":2,"a":"x\ny"}"#));
    let (exchange, operation) = match exchange.advance(Ok(Vec::new())) {
        ExchangeStep::Perform(next, operation) => (next, operation),
        ExchangeStep::Done(_) => panic!("the command should be written"),
    };
    assert_eq!(operation, Operation::Write(b"{\"a\":\"x\\ny\",\"b\":2}\n".to_vec()));
    let (exchange, operation) = match exchange.advance(Ok(Vec::new())) {
        ExchangeStep::Perform(next, operation) => (next, operation),
        ExchangeStep::Done(_) => panic!("the response should be read"),
    };
    assert_eq!(operation, Operation::Read(32 * 1024 * 1024 + 1));
    match exchange.advance(Ok(b"{\"success\":true}\r\n".to_vec())) {
        ExchangeStep::Done(Ok(response)) => assert_eq!(response.to_text(), r#"{"success":true}"#),
        _ => panic!("the exchange should be over"),
    }
}

#[test]
fn failures_know_whether_anything_was_sent() {
    let expected = [
        (FailureStage::BeforeSend, "failed to configure daemon channel: x"),
        (FailureStage::DeliveryUnknown, "failed while transmitting daemon command: x"),
        (FailureStage::DeliveryUnknown, "failed to read daemon response: x"),
    ];
    for (count, (stage, message)) in expected.iter().enumerate() {
        let mut exchange = Exchange::start(json("{}"));
        for _ in 0..count {
            exchange = match exchange.advance(Ok(Vec::new())) {
                ExchangeStep::Perform(next, _) => next,
                ExchangeStep::Done(_) => panic!("the exchange should go on"),
            };
        }
        match exchange.advance(Err("x".to_string())) {
            ExchangeStep::Done(Err(failure)) => {
                assert_eq!((&failure.stage, failure.message.as_str()), (stage, *message))
            }
            _ => panic!("the exchange should be over"),
        }
    }
}

#[test]
fn an_oversized_command_is_not_sent() {
    let command = Json::text(&"x".repeat(4 * 1024 * 1024));
    match Exchange::start(command).advance(Ok(Vec::new())) {
        ExchangeStep::Done(Err(failure)) => {
            assert_eq!(failure.stage, FailureStage::BeforeSend);
            assert_eq!(failure.message, "daemon command exceeded 4 MiB");
        }
        _ => panic!("the command should be refused"),
    }
    let command = Json::text(&"x".repeat(4 * 1024 * 1024 - 2));
    assert!(matches!(
        Exchange::start(command).advance(Ok(Vec::new())),
        ExchangeStep::Perform(..)
    ));
}

#[test]
fn bad_responses_leave_the_delivery_unknown() {
    let trouble = |bytes: Vec<u8>| {
        let failure = read_response(bytes).unwrap_err();
        assert_eq!(failure.stage, FailureStage::DeliveryUnknown);
        failure.message
    };
    assert_eq!(
        trouble(Vec::new()),
        "daemon closed the persistent channel before responding"
    );
    assert_eq!(trouble(vec![b'x'; MAX_RESPONSE_BYTES + 1]), "daemon response exceeded 32 MiB");
    assert!(trouble(b"{\n".to_vec()).starts_with("daemon returned invalid JSON: EOF while parsing"));
}

#[test]
fn the_pool_keeps_one_connection_for_each_session() {
    let mut pool: ChannelPool<u32> = ChannelPool::new();
    for (session, connection) in [("a", 1), ("b", 2)] {
        let ticket = match pool.send(key(session)) {
            SendStep::Connect(ticket) => ticket,
            _ => panic!("nothing is connected yet"),
        };
        let (ticket, connection) = match pool.connected(ticket, Ok(connection)) {
            SendStep::Exchange(ticket, connection) => (ticket, connection),
            _ => panic!("the command should go out"),
        };
        pool.exchanged(ticket, connection, "unix", Ok(Json::Null));
    }
    assert!(pool.contains(&key("a")) && pool.contains(&key("b")) && !pool.contains(&key("c")));
    match pool.send(key("a")) {
        SendStep::Exchange(ticket, connection) => {
            assert_eq!((ticket.reused, ticket.retry, connection), (true, false, 1))
        }
        _ => panic!("the connection is open"),
    }
    assert!(!pool.contains(&key("a")));
    assert!(pool.close(&key("b")));
    assert!(!pool.close(&key("b")));
}

#[test]
fn a_send_reconnects_once_and_only_before_sending() {
    let mut pool: ChannelPool<u32> = ChannelPool::new();
    let ticket = match pool.send(key("a")) {
        SendStep::Connect(ticket) => ticket,
        _ => panic!("nothing is connected yet"),
    };
    let (ticket, connection) = match pool.connected(ticket, Ok(1)) {
        SendStep::Exchange(ticket, connection) => (ticket, connection),
        _ => panic!("the command should go out"),
    };
    let unsent = || Err(ChannelFailure::before_send("broken"));
    let ticket = match pool.exchanged(ticket, connection, "unix", unsent()) {
        SendStep::Connect(ticket) => ticket,
        _ => panic!("an unsent command should be tried again"),
    };
    assert!(ticket.retry);
    let (ticket, connection) = match pool.connected(ticket, Ok(2)) {
        SendStep::Exchange(ticket, connection) => (ticket, connection),
        _ => panic!("the command should go out"),
    };
    match pool.exchanged(ticket, connection, "unix", unsent()) {
        SendStep::Done(Err(failure)) => assert_eq!(failure.message, "broken"),
        _ => panic!("there is no third attempt"),
    }
    let ticket = match pool.send(key("a")) {
        SendStep::Connect(ticket) => ticket,
        _ => panic!("the broken connection is gone"),
    };
    match pool.connected(ticket, Err(connect_failure("/tmp/a.sock", "refused"))) {
        SendStep::Done(Err(failure)) => assert_eq!(
            failure.to_string(),
            "cannot connect to /tmp/a.sock: refused; establish the session once with agent-browser"
        ),
        _ => panic!("the send should be over"),
    }
}

#[test]
fn a_namespace_stays_below_the_base() {
    let escaping = SessionKey::new("s", Some("../../etc"), &PathBuf::from("/tmp/ab")).unwrap();
    assert_eq!(escaping.socket_dir(), &PathBuf::from("/tmp/ab/namespaces/etc/run"));
    let nothing = SessionKey::new("s", Some("../.."), &PathBuf::from("/tmp/ab")).unwrap();
    assert_eq!(nothing.socket_dir(), &PathBuf::from("/tmp/ab"));
}

#[test]
fn a_daemon_listens_on_a_port_on_windows_alone() {
    assert_eq!(port_identity("s1", Some("work-tree")), "work-tree:s1");
    assert_eq!(port_identity("s1", None), "s1");
    assert_eq!(choose_port(Some(" 5000\n"), "work-tree:s1"), 5000);
    assert_eq!(choose_port(Some("65536"), "work-tree:s1"), port_for_identity("work-tree:s1"));
    assert_eq!(choose_port(None, "work-tree:s1"), port_for_identity("work-tree:s1"));
    let picked = port_for_identity("work-tree:s1");
    let windows = std::path::is_separator('\\');
    assert_eq!(key("s1").port(None), if windows { Some(picked) } else { None });
}

#[test]
fn keys_go_by_the_components_of_their_directory() {
    let below = |base: &str| SessionKey::new("s", None, &PathBuf::from(base)).unwrap();
    assert_eq!(below("/tmp/ab"), below("/tmp/ab/"));
    assert_eq!(below("/tmp/ab"), below("/tmp//./ab"));
    assert_ne!(below("/tmp/ab"), below("/tmp/ab/.."));
    assert!(below("/tmp/a/b") < below("/tmp/a-b/b"));
    let named = |name: &str| SessionKey::new("s", Some(name), &PathBuf::from("/tmp")).unwrap();
    assert!(named("a") < named("a-b"));
    let mut pool: ChannelPool<u32> = ChannelPool::default();
    let ticket = match pool.send(below("/tmp/ab")) {
        SendStep::Connect(ticket) => ticket,
        _ => panic!("an empty pool connects"),
    };
    let (ticket, connection) = match pool.connected(ticket, Ok(7)) {
        SendStep::Exchange(ticket, connection) => (ticket, connection),
        _ => panic!("the command should be run"),
    };
    assert!(matches!(
        pool.exchanged(ticket, connection, "unix", Ok(json("{}"))),
        SendStep::Done(Ok(_))
    ));
    assert!(pool.contains(&below("/tmp/ab/")));
    assert!(!pool.contains(&below("/tmp/a")));
    match pool.send(below("/tmp/ab/")) {
        SendStep::Exchange(ticket, connection) => assert!(ticket.reused && connection == 7),
        _ => panic!("the open connection should be used"),
    }
}

#[test]
fn the_same_directory_is_the_same_key_whatever_base_it_lies_below() {
    let named = SessionKey::new("s", Some("n"), &PathBuf::from("/tmp/ab")).unwrap();
    let direct = SessionKey::new("s", None, &PathBuf::from("/tmp/ab/namespaces/n/run")).unwrap();
    assert_eq!(named == direct, !std::path::is_separator('\\'));
}

#[test]
fn a_pool_starts_empty() {
    let pool: ChannelPool<u32> = Default::default();
    assert!(!pool.contains(&key("a")));
}

#[test]
fn there_is_one_key_for_each_namespace_and_session() {
    let key = |session: &str, namespace: Option<&str>| {
        SessionKey::new(session, namespace, &PathBuf::from("/tmp/ab")).unwrap()
    };
    assert_eq!(key("s", None), key("s", Some("")));
    assert_eq!(key("s", None), key("s", Some("!!")));
    assert_eq!(key("s", Some("My App")), key("s", Some("my-app")));
    assert_ne!(key("s", Some("a")), key("s", Some("b")));
    assert_ne!(key("s", Some("a")), key("s", None));
    assert_ne!(key("s", Some("a")), key("t", Some("a")));
}

#[test]
fn a_ticket_names_the_socket_of_its_session() {
    let mut pool: ChannelPool<u32> = ChannelPool::new();
    let ticket = match pool.send(key("s")) {
        SendStep::Connect(ticket) => ticket,
        _ => panic!("an empty pool connects"),
    };
    let socket = PathBuf::from("/tmp/ab/namespaces/work-tree/run/s.sock");
    assert_eq!(ticket.key.socket_path(), socket);
    match pool.connected(ticket, Ok(1)) {
        SendStep::Exchange(ticket, _) => assert_eq!(ticket.key.socket_path(), socket),
        _ => panic!("the command should be run"),
    }
}
