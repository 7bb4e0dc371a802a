use std::path::PathBuf;

use agent_browser::fast_channel::Caller;
use agent_browser::fast_mcp::{
    accept_line, annotate_transport, channel_error, finish_bootstrap, finish_send,
    initialize_result, unreadable_input, Fed, FinishStep, HandleStep, LineReader, LineStep,
    PendingCall, Server,
};
use agent_browser::fast_mcp_command::{
    bounded_string, normalize_url, string_or_string_array, tool_command, validate_bounded,
};
use agent_browser::fast_mcp_config::{Config, Environment, Invocation};
use agent_browser::fast_mcp_tools::tool_specs;
use agent_browser::fast_transport::{ChannelFailure, SendOutcome, SendStep};
use agent_browser::json::{Fields, Json};

const CALLER: Caller = Caller { process: 12, micros: 345 };

fn json(text: &str) -> Json {
    Json::parse(text).unwrap()
}

fn members(text: &str) -> Vec<(String, Json)> {
    json(text).into_object().unwrap()
}

fn config() -> Config {
    Config {
        session: "default".to_string(),
        namespace: None,
        timeout_ms: 1000,
        bootstrap: true,
    }
}

fn server() -> Server<u32> {
    Server::new(config(), PathBuf::from("/tmp/ab"))
}

fn respond(server: &mut Server<u32>, request: &str) -> String {
    match server.handle(&json(request), "1.2.3", CALLER) {
        HandleStep::Respond(response) => response.to_text(),
        _ => panic!("the request should get a response"),
    }
}

fn send(server: &mut Server<u32>, request: &str) -> (PendingCall, SendStep<u32>) {
    match server.handle(&json(request), "1.2.3", CALLER) {
        HandleStep::Send(call, step) => (call, step),
        _ => panic!("the request should reach the daemon"),
    }
}

fn structured(response: &Json) -> String {
    response.get("result").unwrap().get("structuredContent").unwrap().to_text()
}

fn finished(step: FinishStep) -> Json {
    match step {
        FinishStep::Respond(response) => response,
        FinishStep::Bootstrap(..) => panic!("the call should be over"),
    }
}

fn command(name: &str, arguments: &str) -> Result<(String, Vec<String>, bool), String> {
    tool_command(name, &members(arguments))
        .unwrap()
        .map(|built| (built.command.to_text(), built.cli_args, built.bootstrap_safe))
}

fn words(list: &[&str]) -> Vec<String> {
    list.iter().map(|word| word.to_string()).collect()
}

fn parse(environment: Environment, list: &[&str]) -> Result<Invocation, String> {
    Config::from_environment_and_args(environment, &words(list))
}

fn no_environment() -> Environment {
    Environment { session: None, namespace: None, timeout: None, bootstrap: None }
}

#[test]
fn fast_core_reuses_existing_tool_names() {
    let names = tool_specs()
        .into_iter()
        .filter_map(|tool| tool.get("name").and_then(Json::as_str).map(str::to_string))
        .collect::<Vec<_>>();
    assert!(names.contains(&"agent_browser_snapshot".to_string()));
    assert!(names.contains(&"agent_browser_click".to_string()));
    assert!(names.contains(&"agent_browser_fill".to_string()));
}

#[test]
fn text_commands_are_never_bootstrap_safe() {
    let server: Server<u32> = Server::new(
        Config {
            session: "default".into(),
            namespace: None,
            timeout_ms: 1000,
            bootstrap: true,
        },
        PathBuf::from("/tmp/ab"),
    );
    let fill = server
        .build(
            "agent_browser_fill",
            &Fields::new()
                .with("selector", Json::text("@e1"))
                .with("value", Json::text("secret"))
                .members,
        )
        .ok()
        .unwrap();
    assert!(!fill.bootstrap_safe);
}

#[test]
fn url_normalization_matches_cli_navigation() {
    assert_eq!(normalize_url("example.com").unwrap(), "https://example.com");
    assert_eq!(normalize_url("about:blank").unwrap(), "about:blank");
    assert!(normalize_url("https://example.com/a b").is_err());
}

#[test]
fn tool_schema_keeps_session_optional() {
    let snapshot = tool_specs()
        .into_iter()
        .find(|tool| tool.get("name") == Some(&Json::text("agent_browser_snapshot")))
        .unwrap();
    assert_eq!(
        snapshot
            .get("inputSchema")
            .and_then(|schema| schema.get("properties"))
            .and_then(|properties| properties.get("session"))
            .and_then(|session| session.get("type")),
        Some(&Json::text("string"))
    );
}

#[test]
fn all_tools_are_listed_in_full() {
    let tools = tool_specs();
    assert_eq!(tools.len(), 20);
    assert_eq!(
        tools[0].to_text(),
        r#"{"description":"Inspect the resident transport without touching the browser.","inputSchema":{"additionalProperties":false,"properties":{"session":{"description":"Optional validated session override","type":"string"},"timeoutMs":{"maximum":600000,"minimum":1,"type":"integer"}},"required":[],"type":"object"},"name":"agent_browser_fast_status"}"#
    );
    assert_eq!(
        tools[9].to_text(),
        r#"{"description":"Type into a field without exposing text in a child-process argv.","inputSchema":{"additionalProperties":false,"properties":{"clear":{"type":"boolean"},"delayMs":{"maximum":60000,"minimum":0,"type":"integer"},"selector":{"description":"Selector or @ref","type":"string"},"session":{"description":"Optional validated session override","type":"string"},"text":{"description":"Text to type","type":"string"},"timeoutMs":{"maximum":600000,"minimum":1,"type":"integer"}},"required":["selector","text"],"type":"object"},"name":"agent_browser_type"}"#
    );
    assert_eq!(
        tools[15].to_text(),
        r#"{"description":"Select one or more option values.","inputSchema":{"additionalProperties":false,"properties":{"selector":{"description":"Selector or @ref","type":"string"},"session":{"description":"Optional validated session override","type":"string"},"timeoutMs":{"maximum":600000,"minimum":1,"type":"integer"},"values":{"oneOf":[{"type":"string"},{"items":{"type":"string"},"minItems":1,"type":"array"}]}},"required":["selector","values"],"type":"object"},"name":"agent_browser_select"}"#
    );
    assert_eq!(
        tools[16].to_text(),
        r#"{"description":"Scroll the page or a semantic container.","inputSchema":{"additionalProperties":false,"properties":{"amount":{"maximum":100000,"minimum":-100000,"type":"integer"},"direction":{"default":"down","enum":["up","down","left","right"],"type":"string"},"selector":{"description":"Optional selector or @ref","type":"string"},"session":{"description":"Optional validated session override","type":"string"},"timeoutMs":{"maximum":600000,"minimum":1,"type":"integer"}},"required":[],"type":"object"},"name":"agent_browser_scroll"}"#
    );
    for tool in tools.iter().skip(1) {
        let name = tool.get("name").and_then(Json::as_str).unwrap();
        assert!(tool_command(name, &Vec::new()).is_some(), "{name} should be served");
    }
}

#[test]
fn urls_are_checked() {
    assert_eq!(normalize_url("HTTP://x").unwrap(), "HTTP://x");
    assert_eq!(normalize_url("chrome-extension://x").unwrap(), "chrome-extension://x");
    assert_eq!(normalize_url("ftp://x").unwrap(), "https://ftp://x");
    assert_eq!(normalize_url("").unwrap_err(), "url must not be empty");
    assert_eq!(
        normalize_url("a\u{7}").unwrap_err(),
        "url must not contain whitespace or control characters"
    );
    assert_eq!(
        normalize_url("a\u{a0}b").unwrap_err(),
        "url must not contain whitespace or control characters"
    );
    assert_eq!(
        normalize_url(&"u".repeat(65_537)).unwrap_err(),
        "url exceeds its 65536-byte limit"
    );
}

#[test]
fn argument_bounds_are_kept() {
    assert!(validate_bounded("é", "key", 2).is_ok());
    assert_eq!(validate_bounded("éa", "key", 2).unwrap_err(), "key exceeds its 2-byte limit");
    assert_eq!(validate_bounded("", "key", 2).unwrap_err(), "key must not be empty");
    assert_eq!(validate_bounded("\0", "key", 2).unwrap_err(), "key must not contain NUL");
    assert_eq!(
        bounded_string(&members(r#"{"key":1}"#), "key", 2).unwrap_err(),
        "key must be a string"
    );
    assert_eq!(bounded_string(&members(r#"{"key":"a"}"#), "key", 2).unwrap(), "a");
}

#[test]
fn values_are_one_string_or_a_list() {
    let read = |text: &str| string_or_string_array(&members(text), "values", 3);
    assert_eq!(read(r#"{"values":"a"}"#).unwrap(), words(&["a"]));
    assert_eq!(read(r#"{"values":["a","b"]}"#).unwrap(), words(&["a", "b"]));
    assert_eq!(read("{}").unwrap_err(), "values is required");
    assert_eq!(read(r#"{"values":[]}"#).unwrap_err(), "values must contain at least one value");
    assert_eq!(read(r#"{"values":["a",1]}"#).unwrap_err(), "values must contain only strings");
    assert_eq!(read(r#"{"values":1}"#).unwrap_err(), "values must be a string or string array");
    assert_eq!(read(r#"{"values":["a","",1]}"#).unwrap_err(), "values must contain only strings");
    assert_eq!(read(r#"{"values":["a","long"]}"#).unwrap_err(), "values exceeds its 3-byte limit");
}

#[test]
fn tools_become_commands() {
    assert_eq!(
        command("agent_browser_open", r#"{"url":"x.org"}"#).unwrap(),
        (r#"{"action":"navigate","url":"https://x.org"}"#.to_string(), words(&["open", "x.org"]), true)
    );
    assert_eq!(
        command("agent_browser_get_title", "{}").unwrap(),
        (r#"{"action":"get_title"}"#.to_string(), words(&["get", "title"]), true)
    );
    assert_eq!(
        command("agent_browser_uncheck", r#"{"selector":"@e1"}"#).unwrap(),
        (r#"{"action":"uncheck","selector":"@e1"}"#.to_string(), words(&["uncheck", "@e1"]), true)
    );
    assert_eq!(
        command("agent_browser_fill", r#"{"selector":"@e1","value":"v"}"#).unwrap(),
        (
            r#"{"action":"fill","selector":"@e1","value":"v"}"#.to_string(),
            words(&["fill", "@e1", "v"]),
            false
        )
    );
    assert_eq!(
        command("agent_browser_type", r#"{"selector":"@e1","text":"t","clear":true,"delayMs":5}"#)
            .unwrap(),
        (
            r#"{"action":"type","clear":true,"delay":5,"selector":"@e1","text":"t"}"#.to_string(),
            words(&["type", "@e1", "t", "--clear", "--delay", "5"]),
            false
        )
    );
    assert_eq!(
        command("agent_browser_select", r#"{"selector":"@e1","values":["a"]}"#).unwrap(),
        (
            r#"{"action":"select","selector":"@e1","values":"a"}"#.to_string(),
            words(&["select", "@e1", "a"]),
            false
        )
    );
    assert_eq!(
        command("agent_browser_select", r#"{"selector":"@e1","values":["a","b"]}"#).unwrap().0,
        r#"{"action":"select","selector":"@e1","values":["a","b"]}"#
    );
    assert_eq!(
        command("agent_browser_scroll", r#"{"amount":-5,"selector":"@e1"}"#).unwrap(),
        (
            r#"{"action":"scroll","amount":-5,"direction":"down","selector":"@e1"}"#.to_string(),
            words(&["scroll", "down", "-5", "--selector", "@e1"]),
            true
        )
    );
    assert_eq!(
        command("agent_browser_scroll", "{}").unwrap(),
        (
            r#"{"action":"scroll","amount":300,"direction":"down"}"#.to_string(),
            words(&["scroll", "down", "300"]),
            true
        )
    );
    assert_eq!(
        command("agent_browser_press", r#"{"key":"Enter"}"#).unwrap(),
        (r#"{"action":"press","key":"Enter"}"#.to_string(), words(&["press", "Enter"]), true)
    );
}

#[test]
fn bad_arguments_are_named() {
    let trouble = |name: &str, arguments: &str| command(name, arguments).unwrap_err();
    assert_eq!(trouble("agent_browser_click", "{}"), "selector must be a string");
    assert_eq!(
        trouble("agent_browser_type", r#"{"selector":"a","text":"t","delayMs":60001}"#),
        "delayMs must be <= 60000"
    );
    assert_eq!(
        trouble("agent_browser_scroll", r#"{"direction":"in"}"#),
        "direction must be up, down, left, or right"
    );
    assert_eq!(
        trouble("agent_browser_scroll", r#"{"amount":100001}"#),
        "amount must be between -100000 and 100000"
    );
    assert_eq!(trouble("agent_browser_scroll", r#"{"selector":""}"#), "selector must not be empty");
    assert_eq!(
        trouble("agent_browser_press", &format!(r#"{{"key":"{}"}}"#, "k".repeat(257))),
        "key exceeds its 256-byte limit"
    );
    assert!(tool_command("agent_browser_fast_status", &Vec::new()).is_none());
}

#[test]
fn calls_keep_their_limits() {
    let server = server();
    let trouble = |arguments: &str| {
        server.build("agent_browser_back", &members(arguments)).err().unwrap()
    };
    assert_eq!(trouble(r#"{"timeoutMs":0}"#), "timeoutMs must be between 1 and 600000");
    assert_eq!(trouble(r#"{"timeoutMs":600001}"#), "timeoutMs must be between 1 and 600000");
    assert_eq!(
        trouble(r#"{"session":"../x"}"#),
        "invalid session name '../x'; use alphanumeric characters, hyphens, or underscores"
    );
    assert_eq!(
        server.build("nothing", &Vec::new()).err().unwrap(),
        "unknown fast MCP tool: nothing"
    );
    let built = server
        .build("agent_browser_back", &members(r#"{"session":"work","timeoutMs":7}"#))
        .ok()
        .unwrap();
    assert_eq!((built.session.as_str(), built.timeout_ms), ("work", 7));
    let built = server.build("agent_browser_back", &Vec::new()).ok().unwrap();
    assert_eq!((built.session.as_str(), built.timeout_ms), ("default", 1000));
}

#[test]
fn requests_are_answered() {
    let mut server = server();
    assert_eq!(
        respond(&mut server, r#"{"id":1,"method":"ping"}"#),
        r#"{"id":1,"jsonrpc":"2.0","result":{}}"#
    );
    assert_eq!(
        respond(&mut server, r#"{"id":null,"method":"prompts/list"}"#),
        r#"{"id":null,"jsonrpc":"2.0","result":{}}"#
    );
    assert_eq!(
        respond(&mut server, r#"{"id":"x","method":"nope"}"#),
        r#"{"error":{"code":-32601,"message":"Method not found: nope"},"id":"x","jsonrpc":"2.0"}"#
    );
    assert_eq!(
        respond(&mut server, r#"{"id":1,"method":"tools/call"}"#),
        r#"{"error":{"code":-32602,"message":"tools/call requires object params"},"id":1,"jsonrpc":"2.0"}"#
    );
    assert_eq!(
        respond(&mut server, r#"{"id":1,"method":"tools/call","params":{}}"#),
        r#"{"error":{"code":-32602,"message":"tools/call requires a tool name"},"id":1,"jsonrpc":"2.0"}"#
    );
    let listed = respond(&mut server, r#"{"id":1,"method":"tools/list"}"#);
    assert!(listed.contains("agent_browser_get_url"));
    let silent = server.handle(&json(r#"{"method":"ping"}"#), "1.2.3", CALLER);
    assert!(matches!(silent, HandleStep::Silent));
    let silent = server.handle(&json(r#"{"id":1}"#), "1.2.3", CALLER);
    assert!(matches!(silent, HandleStep::Silent));
}

#[test]
fn a_known_protocol_version_is_spoken() {
    let spoken = |version: &str| {
        let request = format!(r#"{{"params":{{"protocolVersion":"{version}"}}}}"#);
        let result = initialize_result(&json(&request), "1.2.3");
        result.get("protocolVersion").and_then(Json::as_str).unwrap().to_string()
    };
    assert_eq!(spoken("2024-11-05"), "2024-11-05");
    assert_eq!(spoken("2025-03-26"), "2025-03-26");
    assert_eq!(spoken("2025-06-18"), "2025-06-18");
    assert_eq!(spoken("1999-01-01"), "2025-11-25");
    assert_eq!(
        initialize_result(&json("{}"), "1.2.3").to_text(),
        r#"{"capabilities":{"tools":{"listChanged":false}},"instructions":"Low-latency core browser tools over a persistent at-most-once daemon channel. Use agent-browser mcp for the complete compatibility surface.","protocolVersion":"2025-11-25","serverInfo":{"name":"agent-browser-fast-mcp","version":"1.2.3"}}"#
    );
}

#[test]
fn the_status_touches_no_daemon() {
    let mut server = server();
    let response = respond(
        &mut server,
        r#"{"id":1,"method":"tools/call","params":{"name":"agent_browser_fast_status"}}"#,
    );
    assert_eq!(
        structured(&json(&response)),
        r#"{"data":{"bootstrapEnabled":true,"connected":false,"namespace":null,"session":"default","transport":"persistent-at-most-once"},"success":true}"#
    );
    assert_eq!(server.sequence, 0);
    let response = respond(
        &mut server,
        r#"{"id":1,"method":"tools/call","params":{"name":"agent_browser_fast_status","arguments":{"session":""}}}"#,
    );
    assert!(response.contains("\"isError\":true"));
}

#[test]
fn a_call_goes_over_the_channel() {
    let mut server = server();
    let request = r#"{"id":1,"method":"tools/call","params":{"name":"agent_browser_back"}}"#;
    let (call, step) = send(&mut server, request);
    assert_eq!(call.built.command.to_text(), r#"{"action":"back","id":"fast-mcp-12-345-1"}"#);
    let ticket = match step {
        SendStep::Connect(ticket) => ticket,
        _ => panic!("nothing is connected yet"),
    };
    let (ticket, connection) = match server.pool.connected(ticket, Ok(9)) {
        SendStep::Exchange(ticket, connection) => (ticket, connection),
        _ => panic!("the command should go out"),
    };
    let result = match server.pool.exchanged(ticket, connection, "unix", Ok(json(r#"{"success":true}"#))) {
        SendStep::Done(result) => result,
        _ => panic!("the send should be over"),
    };
    let response = finished(finish_send(true, call, result));
    assert_eq!(
        structured(&response),
        r#"{"_fastTransport":{"mode":"persistent","reconnectedBeforeSend":false,"reusedConnection":false,"transport":"unix"},"success":true}"#
    );
    assert!(response.to_text().contains("\"isError\":false"));
    let (_, step) = send(&mut server, request);
    assert!(matches!(step, SendStep::Exchange(..)));
    assert_eq!(server.sequence, 2);
}

#[test]
fn only_unsent_safe_commands_start_a_session() {
    let mut server = server();
    let safe = r#"{"id":1,"method":"tools/call","params":{"name":"agent_browser_back"}}"#;
    let text = r#"{"id":1,"method":"tools/call","params":{"name":"agent_browser_fill","arguments":{"selector":"a","value":"v"}}}"#;
    let unsent = || Err(ChannelFailure::before_send("no daemon"));
    let unknown = || Err(ChannelFailure::delivery_unknown("timed out"));

    let (call, _) = send(&mut server, safe);
    assert!(matches!(finish_send(true, call, unsent()), FinishStep::Bootstrap(..)));
    let (call, _) = send(&mut server, safe);
    assert_eq!(
        structured(&finished(finish_send(false, call, unsent()))),
        r#"{"deliveryUnknown":false,"error":"no daemon","success":false,"type":"channel_unavailable"}"#
    );
    let (call, _) = send(&mut server, safe);
    assert_eq!(
        structured(&finished(finish_send(true, call, unknown()))),
        r#"{"deliveryUnknown":true,"error":"timed out; command delivery is unknown and was not replayed","success":false,"type":"delivery_unknown"}"#
    );
    let (call, _) = send(&mut server, text);
    assert_eq!(
        structured(&finished(finish_send(true, call, unsent()))),
        "{\"error\":\"no daemon; this command contains text/value data and will not be bootstrapped through process arguments—establish the session first with agent-browser\",\"success\":false}"
    );
}

#[test]
fn a_started_session_is_reported() {
    let failure = ChannelFailure::before_send("no daemon");
    let response = finish_bootstrap(Json::unsigned(1), &failure, Ok(json("[1]")));
    assert_eq!(
        structured(&response),
        r#"{"_fastTransport":{"commandReplayed":false,"mode":"bootstrap-cli","reusedConnection":false},"data":[1],"success":true}"#
    );
    let response = finish_bootstrap(Json::unsigned(1), &failure, Err("no program".to_string()));
    assert_eq!(
        structured(&response),
        r#"{"error":"persistent channel unavailable (no daemon); bootstrap failed: no program","success":false}"#
    );
}

#[test]
fn tool_results_hold_indented_text() {
    let mut server = server();
    let response = respond(
        &mut server,
        r#"{"id":1,"method":"tools/call","params":{"name":"nothing"}}"#,
    );
    assert_eq!(
        response,
        r#"{"id":1,"jsonrpc":"2.0","result":{"content":[{"text":"{\n  \"error\": \"unknown fast MCP tool: nothing\",\n  \"success\": false\n}","type":"text"}],"isError":true,"structuredContent":{"error":"unknown fast MCP tool: nothing","success":false}}}"#
    );
}

#[test]
fn a_failed_daemon_response_is_passed_on() {
    let mut server = server();
    let (call, _) = send(
        &mut server,
        r#"{"id":1,"method":"tools/call","params":{"name":"agent_browser_back"}}"#,
    );
    let outcome = SendOutcome {
        response: json(r#"{"success":false,"error":"no page","_fastTransport":1}"#),
        transport: "unix",
        reused_connection: true,
        reconnected: false,
    };
    let response = finished(finish_send(true, call, Ok(outcome)));
    assert_eq!(
        structured(&response),
        r#"{"_fastTransport":{"mode":"persistent","reconnectedBeforeSend":false,"reusedConnection":true,"transport":"unix"},"error":"no page","success":false}"#
    );
    assert!(response.to_text().contains("\"isError\":true"));
}

#[test]
fn transport_reports_keep_the_response() {
    assert_eq!(
        annotate_transport(json(r#"{"a":1}"#), Json::text("t")).to_text(),
        r#"{"_fastTransport":"t","a":1}"#
    );
    assert_eq!(
        annotate_transport(Json::text("plain"), Json::text("t")).to_text(),
        r#"{"_fastTransport":"t","data":"plain","success":true}"#
    );
    assert!(channel_error(&ChannelFailure::delivery_unknown("x"))
        .to_text()
        .contains("was not replayed"));
}

#[test]
fn lines_become_requests() {
    let text = |line: &str| match accept_line(&line.as_bytes().to_vec()) {
        LineStep::Respond(response) => response.to_text(),
        _ => panic!("the line should get a response"),
    };
    assert!(matches!(accept_line(&b" \t\x0c\r\n".to_vec()), LineStep::Skip));
    assert!(matches!(accept_line(&Vec::new()), LineStep::Skip));
    assert!(matches!(accept_line(&b"{\"id\":1}\n".to_vec()), LineStep::Request(_)));
    assert_eq!(
        text("[1]\n"),
        r#"{"error":{"code":-32600,"message":"Invalid Request"},"id":null,"jsonrpc":"2.0"}"#
    );
    assert!(text("{").contains("\"code\":-32700,\"message\":\"Parse error: EOF while parsing"));
    assert_eq!(
        unreadable_input("gone").to_text(),
        r#"{"error":{"code":-32700,"message":"gone"},"id":null,"jsonrpc":"2.0"}"#
    );
}

#[test]
fn chunks_of_input_add_up_to_lines() {
    let mut reader = LineReader::new();
    assert!(matches!(reader.feed(b""), Fed::End));
    assert!(matches!(reader.feed(b"ab"), Fed::More(2)));
    match reader.feed(b"c\nde") {
        Fed::Line(taken, line) => assert_eq!((taken, line), (2, b"abc\n".to_vec())),
        _ => panic!("the line should be complete"),
    }
    assert!(matches!(reader.feed(b"de"), Fed::More(2)));
    match reader.feed(b"") {
        Fed::Line(taken, line) => assert_eq!((taken, line), (0, b"de".to_vec())),
        _ => panic!("the rest is a line"),
    }
    assert!(matches!(reader.feed(b""), Fed::End));
}

#[test]
fn a_line_of_input_is_bounded() {
    let limit = 4 * 1024 * 1024;
    let mut reader = LineReader::new();
    assert!(matches!(reader.feed(&vec![b'x'; limit]), Fed::More(_)));
    match reader.feed(b"\n") {
        Fed::TooLong(words) => assert_eq!(words, "MCP request exceeded 4 MiB"),
        _ => panic!("the line should be refused"),
    }
    let mut reader = LineReader::new();
    assert!(matches!(reader.feed(&vec![b'x'; limit - 1]), Fed::More(_)));
    assert!(matches!(reader.feed(b"\n"), Fed::Line(1, _)));
}

#[test]
fn server_options_are_read() {
    let served = |environment: Environment, list: &[&str]| match parse(environment, list) {
        Ok(Invocation::Serve(config)) => config,
        _ => panic!("the options should be served"),
    };
    let config = served(no_environment(), &[]);
    assert_eq!((config.session.as_str(), config.timeout_ms), ("default", 120_000));
    assert!(config.bootstrap && config.namespace.is_none());
    let config = served(
        no_environment(),
        &["--session", "s", "--namespace", "n", "--timeout-ms", "600000", "--no-bootstrap"],
    );
    assert_eq!((config.session.as_str(), config.timeout_ms), ("s", 600_000));
    assert_eq!(config.namespace.as_deref(), Some("n"));
    assert!(!config.bootstrap);
    for (word, bootstrap) in [("0", false), ("FALSE", false), ("No", false), ("off", true), ("", true)] {
        let environment = Environment {
            session: Some("e".to_string()),
            namespace: Some("m".to_string()),
            timeout: Some("5".to_string()),
            bootstrap: Some(word.to_string()),
        };
        let config = served(environment, &[]);
        assert_eq!((config.session.as_str(), config.timeout_ms), ("e", 5));
        assert_eq!(config.namespace.as_deref(), Some("m"));
        assert_eq!(config.bootstrap, bootstrap);
    }
    let config = served(no_environment(), &["--no-bootstrap", "--session", "s", "--no-bootstrap"]);
    assert!(!config.bootstrap);
    assert!(matches!(parse(no_environment(), &["-h"]), Ok(Invocation::Help)));
}

#[test]
fn server_options_that_break_a_rule_are_refused() {
    let refused = |list: &[&str]| parse(no_environment(), list).err().unwrap();
    assert_eq!(refused(&["--session"]), "--session requires a value");
    assert_eq!(refused(&["--namespace"]), "--namespace requires a value");
    assert_eq!(refused(&["--timeout-ms"]), "--timeout-ms requires a value");
    assert_eq!(refused(&["--timeout-ms", "x"]), "--timeout-ms must be an integer");
    assert_eq!(
        refused(&["--timeout-ms", "0"]),
        "MCP timeout must be between 1 and 600000 milliseconds"
    );
    assert_eq!(
        refused(&["--session", "a/b"]),
        "invalid session name 'a/b'; use alphanumeric characters, hyphens, or underscores"
    );
    assert_eq!(refused(&["--quick"]), "unknown fast MCP option: --quick");
}
