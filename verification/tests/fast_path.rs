use agent_browser::fast_path::{
    accept_response, command_name, is_observation, observation_key, Answer, Fault, FaultKind,
    SharedState, Step, Task,
};
use agent_browser::fast_path_args::{parse_args, Config, Environment, Invocation};
use agent_browser::json::Json;

fn json(text: &str) -> Json {
    Json::parse(text).unwrap()
}

fn no_environment() -> Environment {
    Environment { listen: None, upstream: None, ttl_ms: None }
}

fn config(ttl_ms: u64, max_line_bytes: usize) -> Config {
    Config {
        listen: "127.0.0.1:7419".to_string(),
        upstream: "127.0.0.1:7420".to_string(),
        observe_ttl_ms: ttl_ms,
        max_line_bytes,
    }
}

fn args(words: &[&str]) -> Vec<String> {
    words.iter().map(|word| word.to_string()).collect()
}

fn served(words: &[&str]) -> Config {
    match parse_args(no_environment(), &args(words)) {
        Ok(Invocation::Serve(config)) => config,
        _ => panic!("the arguments should be served"),
    }
}

fn refused(words: &[&str]) -> String {
    match parse_args(no_environment(), &args(words)) {
        Err(message) => message,
        Ok(_) => panic!("the arguments should be refused"),
    }
}

fn sent(step: Step) -> (Task, String, bool) {
    match step {
        Step::Send { task, line, reconnect } => (task, line, reconnect),
        _ => panic!("a line should go to the daemon"),
    }
}

fn replied(step: Step) -> String {
    match step {
        Step::Reply { line, .. } => line,
        _ => panic!("the client should get a reply"),
    }
}

fn fault(step: Step) -> Fault {
    match step {
        Step::Fail(fault) => fault,
        _ => panic!("the client should be given up"),
    }
}

fn failed(step: Step) -> String {
    fault(step).words
}

fn lost(kind: FaultKind, words: &str) -> Answer {
    Answer::Lost(Fault { kind, words: words.to_string() })
}

fn observe(state: &mut SharedState, line: &str, settings: &Config, now: u64) -> Step {
    match state.handle_line(line, settings, now) {
        Step::Lock { key, raw } => state.observe_locked(key, raw, now, settings.observe_ttl_ms),
        other => other,
    }
}

const SNAPSHOT: &str = r#"{"command":{"name":"snapshot"},"sessionId":"s1","targetId":"t1"}"#;
const CLICK: &str = r#"{"command":{"name":"click"},"sessionId":"s1","targetId":"t1"}"#;
const FUSED: &str = r#"{"id":7,"name":"actObserve","arguments":{"actionRequest":{"id":"a"},"observeRequest":{"id":"o"}}}"#;

#[test]
fn observation_detection_is_bounded() {
    assert!(is_observation(&json(r#"{"command": {"name": "snapshot"}}"#)));
    assert!(is_observation(&json(r#"{"name": "find"}"#)));
    assert!(!is_observation(&json(r#"{"command": {"name": "tap"}}"#)));
}

#[test]
fn observation_key_separates_sessions_and_targets() {
    let left = observation_key(&json(
        r#"{"sessionId": "a", "targetId": "one", "command": {"name": "snapshot"}}"#,
    ));
    let right = observation_key(&json(
        r#"{"sessionId": "b", "targetId": "one", "command": {"name": "snapshot"}}"#,
    ));
    assert_ne!(left, right);
}

#[test]
fn ttl_is_rejected_when_it_can_hide_real_state() {
    let environment = Environment {
        listen: None,
        upstream: None,
        ttl_ms: Some("101".to_string()),
    };
    let result = parse_args(environment, &Vec::new());
    assert!(result.is_err());
}

#[test]
fn mutation_is_not_replayed_after_ambiguous_upstream_eof() {
    let mutation = r#"{"command":{"name":"click"},"sessionId":"s1","targetId":"t1"}"#;
    let settings = served(&["--observe-ttl-ms", "0"]);
    let mut state = SharedState::new();
    let mut deliveries = Vec::new();
    let mut step = state.handle_line(&format!("{mutation}\n"), &settings, 0);
    while let Step::Send { task, line, .. } = step {
        deliveries.push(line);
        // The connection ends without a response.
        let answer = accept_response(Ok(Vec::new()), settings.max_line_bytes);
        step = state.resume(task, answer, 1);
    }
    assert_eq!(deliveries.len(), 1, "mutation must be delivered at most once");
    assert_eq!(deliveries[0].trim_end(), mutation);
    let fault = fault(step);
    assert_eq!(fault.kind, FaultKind::UnexpectedEof);
    assert_eq!(
        fault.words,
        "upstream mutation delivery may be unknown; request was not replayed: browser daemon closed the connection"
    );
}

#[test]
fn readonly_observation_reconnects_once_with_identical_request() {
    let observation = r#"{"command":{"name":"snapshot"},"sessionId":"s1","targetId":"t1"}"#;
    let settings = served(&["--observe-ttl-ms", "0"]);
    let mut state = SharedState::new();
    let step = observe(&mut state, &format!("{observation}\n"), &settings, 0);
    let (task, first, reconnect) = sent(step);
    assert!(!reconnect);
    let closed = accept_response(Ok(Vec::new()), settings.max_line_bytes);
    let (task, second, reconnect) = sent(state.resume(task, closed, 1));
    assert!(reconnect);
    let read = b"{\"success\":true,\"data\":{\"source\":\"retry\"}}\n".to_vec();
    let answer = accept_response(Ok(read), settings.max_line_bytes);
    let response = replied(state.resume(task, answer, 2));
    assert!(
        response.contains("\"source\":\"retry\""),
        "gateway should surface the successful replay response: {response}"
    );
    assert_eq!(first.trim_end(), observation);
    assert_eq!(second.trim_end(), observation);
    assert_eq!(state.stats().forwarded, 1);
    assert_eq!(state.stats().reconnects, 1);
}

#[test]
fn command_names_are_found_in_order() {
    assert_eq!(command_name(&json(r#"{"command":{"type":"tap"}}"#)).as_deref(), Some("tap"));
    assert_eq!(command_name(&json(r#"{"command":{"command":"tap"}}"#)).as_deref(), Some("tap"));
    assert_eq!(
        command_name(&json(r#"{"command":{"name":"a","type":"b"},"name":"c"}"#)).as_deref(),
        Some("a")
    );
    assert_eq!(command_name(&json(r#"{"command":{},"name":"c"}"#)).as_deref(), Some("c"));
    assert_eq!(command_name(&json(r#"{"command":{"name":1},"name":"c"}"#)), None);
    assert_eq!(command_name(&json("[]")), None);
}

#[test]
fn observation_keys_have_default_scopes() {
    assert_eq!(
        observation_key(&json(r#"{"name":"find"}"#)),
        "default\u{1f}default\u{1f}{\"name\":\"find\"}"
    );
    assert_eq!(
        observation_key(&json(r#"{"session_id":"s","target_id":"t"}"#)),
        "s\u{1f}t\u{1f}{\"session_id\":\"s\",\"target_id\":\"t\"}"
    );
    assert_eq!(
        observation_key(&json(r#"{"sessionId":3,"session_id":"s"}"#)),
        "default\u{1f}default\u{1f}{\"sessionId\":3,\"session_id\":\"s\"}"
    );
}

#[test]
fn observations_are_served_again_until_they_are_too_old() {
    let settings = config(8, 4096);
    let mut state = SharedState::new();
    let (task, _, _) = sent(observe(&mut state, SNAPSHOT, &settings, 0));
    let line = replied(state.resume(task, Answer::Line("first".to_string()), 1_000));
    assert_eq!(line, "first");
    assert_eq!(replied(state.handle_line(SNAPSHOT, &settings, 8_001_000)), "first");
    assert_eq!(state.stats().cache_hits, 1);
    let late = state.handle_line(SNAPSHOT, &settings, 8_001_001);
    assert!(matches!(late, Step::Lock { .. }));
}

#[test]
fn a_second_look_under_the_lock_finds_a_fresh_observation() {
    let settings = config(8, 4096);
    let mut state = SharedState::new();
    let (key, raw) = match state.handle_line(SNAPSHOT, &settings, 0) {
        Step::Lock { key, raw } => (key, raw),
        _ => panic!("the lock should be taken"),
    };
    state.keep(key.clone(), "other", 0);
    assert_eq!(replied(state.observe_locked(key, raw, 10, 8)), "other");
    assert_eq!(state.stats().coalesced_hits, 1);
    assert_eq!(state.stats().forwarded, 0);
}

#[test]
fn a_mutation_forgets_all_observations() {
    let settings = config(100, 4096);
    let mut state = SharedState::new();
    let (task, _, _) = sent(observe(&mut state, SNAPSHOT, &settings, 0));
    replied(state.resume(task, Answer::Line("kept".to_string()), 0));
    let (task, line, _) = sent(state.handle_line(CLICK, &settings, 1));
    assert_eq!(line, CLICK);
    assert!(matches!(state.handle_line(SNAPSHOT, &settings, 2), Step::Lock { .. }));
    assert_eq!(replied(state.resume(task, Answer::Line("done".to_string()), 3)), "done");
    assert!(matches!(state.handle_line(SNAPSHOT, &settings, 4), Step::Lock { .. }));
}

#[test]
fn an_oversized_observation_is_not_sent_again() {
    let settings = config(0, 1024);
    let mut state = SharedState::new();
    let (task, _, _) = sent(observe(&mut state, SNAPSHOT, &settings, 0));
    let answer = accept_response(Ok(vec![b'x'; 1025]), 1024);
    let fault = fault(state.resume(task, answer, 1));
    assert_eq!(fault.kind, FaultKind::InvalidData);
    assert_eq!(fault.words, "browser daemon response exceeds line limit");
}

#[test]
fn a_response_that_is_no_text_is_not_asked_for_again() {
    let settings = config(0, 1024);
    let mut state = SharedState::new();
    let (task, _, _) = sent(observe(&mut state, SNAPSHOT, &settings, 0));
    let answer = accept_response(Ok(b"\xff\n".to_vec()), 1024);
    let fault = fault(state.resume(task, answer, 1));
    assert_eq!(fault.kind, FaultKind::InvalidData);
    assert_eq!(fault.words, "stream did not contain valid UTF-8");
}

#[test]
fn failures_keep_the_kind_of_the_last_round_trip() {
    let settings = config(0, 1024);
    let mut state = SharedState::new();
    let (task, _, _) = sent(state.handle_line(CLICK, &settings, 0));
    let reset = fault(state.resume(task, lost(FaultKind::ConnectionReset, "reset"), 1));
    assert_eq!(reset.kind, FaultKind::ConnectionReset);
    let (task, _, _) = sent(observe(&mut state, SNAPSHOT, &settings, 2));
    let (task, _, _) = sent(state.resume(task, lost(FaultKind::BrokenPipe, "pipe"), 3));
    let refused = fault(state.resume(task, lost(FaultKind::ConnectionRefused, "refused"), 4));
    assert_eq!(refused.kind, FaultKind::ConnectionRefused);
    let missing = fault(state.handle_line(r#"{"name":"actObserve"}"#, &settings, 5));
    assert_eq!(missing.kind, FaultKind::InvalidInput);
}

#[test]
fn an_observation_that_fails_twice_names_both_errors() {
    let settings = config(0, 1024);
    let mut state = SharedState::new();
    let (task, _, _) = sent(observe(&mut state, SNAPSHOT, &settings, 0));
    let (task, _, _) = sent(state.resume(task, lost(FaultKind::TimedOut, "one"), 1));
    assert_eq!(
        failed(state.resume(task, lost(FaultKind::TimedOut, "two"), 2)),
        "read-only upstream failed after reconnect: first=one; second=two"
    );
}

#[test]
fn responses_lose_their_line_end_and_keep_the_limit() {
    match accept_response(Ok(b"ok\r\n".to_vec()), 4) {
        Answer::Line(line) => assert_eq!(line, "ok"),
        _ => panic!("the response should be taken"),
    }
    assert!(matches!(accept_response(Ok(b"long\n".to_vec()), 4), Answer::Refused(_)));
    let reset = Fault { kind: FaultKind::ConnectionReset, words: "reset".to_string() };
    match accept_response(Err(reset), 4) {
        Answer::Lost(fault) => {
            assert_eq!((fault.kind, fault.words.as_str()), (FaultKind::ConnectionReset, "reset"))
        }
        _ => panic!("the connection should be lost"),
    }
    match accept_response(Ok(b"\n".to_vec()), 4) {
        Answer::Line(line) => assert_eq!(line, ""),
        _ => panic!("an empty line is a response"),
    }
}

#[test]
fn bad_lines_get_an_error_reply() {
    let settings = config(8, 1024);
    let mut state = SharedState::new();
    assert_eq!(
        replied(state.handle_line(&"x".repeat(1025), &settings, 0)),
        r#"{"error":"request exceeds fast-path line limit","ok":false,"schemaVersion":"tempera.browser.fastpath.error/v1"}"#
    );
    assert!(matches!(state.handle_line("\r\n", &settings, 0), Step::Skip));
    assert_eq!(state.stats().requests, 0);
    let reply = replied(state.handle_line("{oops\n", &settings, 0));
    assert!(reply.contains("request is not JSON: key must be a string"));
    assert_eq!(state.stats().requests, 1);
}

#[test]
fn the_counters_are_reported() {
    let settings = config(8, 1024);
    let mut state = SharedState::new();
    state.record_failure();
    assert_eq!(
        replied(state.handle_line(r#"{"name":"gatewayStats"}"#, &settings, 0)),
        r#"{"ok":true,"result":{"cacheHits":0,"coalescedHits":0,"failures":1,"forwarded":0,"fusedRequests":0,"reconnects":0,"requests":1,"schemaVersion":"tempera.browser.fastpath.stats/v1"}}"#
    );
}

#[test]
fn a_daemon_that_fuses_gets_one_line() {
    let settings = config(8, 4096);
    let mut state = SharedState::new();
    let (task, line, _) = sent(state.handle_line(FUSED, &settings, 0));
    assert_eq!(
        line,
        r#"{"action":"__tempera_act_observe_v1","actionRequest":{"id":"a"},"id":7,"observeRequest":{"id":"o"}}"#
    );
    let answer = r#"{"success":true,"data":{"action":{"done":1},"observation":{"seen":2},"observationDigest":"d"}}"#;
    assert_eq!(
        replied(state.resume(task, Answer::Line(answer.to_string()), 1)),
        r#"{"action":{"done":1},"nativeFused":true,"observation":{"seen":2},"observationDigest":"d","ok":true,"schemaVersion":"tempera.browser.fastpath.act-observe/v1"}"#
    );
    assert_eq!(state.stats().fused_requests, 1);
    assert_eq!(state.stats().forwarded, 1);
}

#[test]
fn a_daemon_that_does_not_fuse_gets_the_action_and_the_observation() {
    for refusal in [
        r#"{"data":{"nativeProtocolError":true}}"#,
        r#"{"error":"Unknown action: __tempera_act_observe_v1"}"#,
    ] {
        let settings = config(8, 4096);
        let mut state = SharedState::new();
        let (task, _, _) = sent(state.handle_line(FUSED, &settings, 0));
        let (task, line, reconnect) = sent(state.resume(task, Answer::Line(refusal.to_string()), 1));
        assert_eq!((line.as_str(), reconnect), (r#"{"id":"a"}"#, false));
        let acted = Answer::Line(r#"{"success":true}"#.to_string());
        let (task, line, reconnect) = sent(state.resume(task, acted, 2));
        assert_eq!((line.as_str(), reconnect), (r#"{"id":"o"}"#, false));
        let seen = Answer::Line(r#"{"ok":false}"#.to_string());
        assert_eq!(
            replied(state.resume(task, seen, 3)),
            r#"{"action":{"success":true},"nativeFused":false,"observation":{"ok":false},"ok":false,"schemaVersion":"tempera.browser.fastpath.act-observe/v1"}"#
        );
        assert_eq!(state.stats().forwarded, 3);
    }
}

#[test]
fn a_refused_action_is_not_followed_by_an_observation() {
    let settings = config(8, 4096);
    let mut state = SharedState::new();
    let (task, _, _) = sent(state.handle_line(FUSED, &settings, 0));
    let old = Answer::Line(r#"{"data":{"nativeProtocolError":true}}"#.to_string());
    let (task, _, _) = sent(state.resume(task, old, 1));
    let refused = Answer::Line(r#"{"success":false}"#.to_string());
    assert_eq!(
        replied(state.resume(task, refused, 2)),
        r#"{"action":{"success":false},"nativeFused":false,"observation":null,"ok":false,"schemaVersion":"tempera.browser.fastpath.act-observe/v1"}"#
    );
}

#[test]
fn the_action_response_is_returned_when_the_observation_fails() {
    let settings = config(8, 4096);
    let mut state = SharedState::new();
    let (task, _, _) = sent(state.handle_line(FUSED, &settings, 0));
    let old = Answer::Line(r#"{"data":{"nativeProtocolError":true}}"#.to_string());
    let (task, _, _) = sent(state.resume(task, old, 1));
    let (task, _, _) = sent(state.resume(task, Answer::Line(r#"{"ok":true}"#.to_string()), 2));
    let (task, line, reconnect) = sent(state.resume(task, lost(FaultKind::TimedOut, "gone"), 3));
    assert_eq!((line.as_str(), reconnect), (r#"{"id":"o"}"#, true));
    match state.resume(task, lost(FaultKind::TimedOut, "gone"), 4) {
        Step::Reply { line, disconnect } => {
            assert!(disconnect);
            assert_eq!(
                line,
                r#"{"action":{"ok":true},"nativeFused":false,"observation":null,"ok":false,"schemaVersion":"tempera.browser.fastpath.act-observe/v1"}"#
            );
        }
        _ => panic!("the client should get the response to the action"),
    }
}

#[test]
fn a_lost_action_is_not_sent_again() {
    let settings = config(8, 4096);
    let mut state = SharedState::new();
    let (task, _, _) = sent(state.handle_line(FUSED, &settings, 0));
    let old = Answer::Line(r#"{"data":{"nativeProtocolError":true}}"#.to_string());
    let (task, _, _) = sent(state.resume(task, old, 1));
    assert_eq!(
        failed(state.resume(task, lost(FaultKind::TimedOut, "reset"), 2)),
        "upstream mutation delivery may be unknown; request was not replayed: reset"
    );
}

#[test]
fn incomplete_fused_requests_fail() {
    let settings = config(8, 4096);
    let mut state = SharedState::new();
    let missing = |state: &mut SharedState, line: &str| failed(state.handle_line(line, &settings, 0));
    assert_eq!(missing(&mut state, r#"{"name":"actObserve"}"#), "missing arguments");
    assert_eq!(missing(&mut state, r#"{"name":"actObserve","arguments":[]}"#), "missing arguments");
    assert_eq!(
        missing(&mut state, r#"{"name":"actObserve","arguments":{"observeRequest":1}}"#),
        "missing actionRequest"
    );
    assert_eq!(
        missing(&mut state, r#"{"name":"actObserve","arguments":{"actionRequest":1}}"#),
        "missing observeRequest"
    );
}

#[test]
fn gateway_options_are_read() {
    let config = served(&[]);
    assert_eq!(config.listen, "127.0.0.1:7419");
    assert_eq!(config.upstream, "127.0.0.1:7420");
    assert_eq!(config.observe_ttl_ms, 8);
    assert_eq!(config.max_line_bytes, 4 * 1024 * 1024);
    let config = served(&[
        "--listen", "a:1", "--upstream", "b:2", "--observe-ttl-ms", "100", "--max-line-bytes", "1024",
    ]);
    assert_eq!((config.listen.as_str(), config.upstream.as_str()), ("a:1", "b:2"));
    assert_eq!((config.observe_ttl_ms, config.max_line_bytes), (100, 1024));
    assert!(matches!(parse_args(no_environment(), &args(&["-h"])), Ok(Invocation::Help)));
    assert!(matches!(parse_args(no_environment(), &args(&["--help"])), Ok(Invocation::Help)));
    let environment = Environment {
        listen: Some("l".to_string()),
        upstream: Some("u".to_string()),
        ttl_ms: Some("many".to_string()),
    };
    match parse_args(environment, &Vec::new()) {
        Ok(Invocation::Serve(config)) => {
            assert_eq!((config.listen.as_str(), config.upstream.as_str()), ("l", "u"));
            assert_eq!(config.observe_ttl_ms, 8);
        }
        _ => panic!("the environment should be served"),
    }
}

#[test]
fn gateway_options_that_break_a_rule_are_refused() {
    assert_eq!(refused(&["--listen"]), "--listen requires a value");
    assert_eq!(refused(&["--upstream"]), "--upstream requires a value");
    assert_eq!(refused(&["--observe-ttl-ms"]), "--observe-ttl-ms requires a value");
    assert_eq!(refused(&["--observe-ttl-ms", "soon"]), "invalid TTL");
    assert_eq!(refused(&["--observe-ttl-ms", "101"]), "observe TTL must be <= 100 ms");
    assert_eq!(refused(&["--max-line-bytes", "-1"]), "invalid line limit");
    assert_eq!(
        refused(&["--max-line-bytes", "1023"]),
        "max line bytes must be between 1 KiB and 64 MiB"
    );
    assert_eq!(
        refused(&["--max-line-bytes", "67108865"]),
        "max line bytes must be between 1 KiB and 64 MiB"
    );
    assert_eq!(refused(&["--fast"]), "unknown argument: --fast");
}
