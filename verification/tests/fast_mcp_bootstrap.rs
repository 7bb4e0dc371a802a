use std::path::PathBuf;

use agent_browser::fast_mcp_bootstrap::{
    after_glance, agent_browser_executable, bootstrap_args, bootstrap_result, bounded_output,
    executable_name, redact_stderr, Glance, WaitStep,
};

fn bytes(text: &str) -> Result<Vec<u8>, String> {
    Ok(text.as_bytes().to_vec())
}

#[test]
fn the_command_line_names_session_and_namespace() {
    let cli = vec!["open".to_string(), "x.org".to_string()];
    assert_eq!(
        bootstrap_args("s", Some("n"), &cli),
        ["--session", "s", "--json", "open", "x.org", "--namespace", "n"]
    );
    assert_eq!(bootstrap_args("s", None, &Vec::new()), ["--session", "s", "--json"]);
}

#[test]
fn the_program_is_chosen_in_order() {
    let choose = |asked, sibling| agent_browser_executable(asked, sibling, false);
    let sibling = || Some(PathBuf::from("/usr/bin/agent-browser"));
    assert_eq!(choose(Some(PathBuf::from("/opt/ab")), sibling()), PathBuf::from("/opt/ab"));
    assert_eq!(choose(None, sibling()), PathBuf::from("/usr/bin/agent-browser"));
    assert_eq!(choose(None, None), PathBuf::from("agent-browser"));
    assert_eq!(agent_browser_executable(None, None, true), PathBuf::from("agent-browser.exe"));
    assert_eq!(executable_name(false), "agent-browser");
    assert_eq!(executable_name(true), "agent-browser.exe");
}

#[test]
fn the_wait_ends_at_the_time_limit() {
    assert!(matches!(after_glance(Glance::Ended, u64::MAX, 1), WaitStep::Collect));
    assert!(matches!(after_glance(Glance::Running, 999_999, 1), WaitStep::Pause(10)));
    match after_glance(Glance::Running, 1_000_000, 1) {
        WaitStep::Kill(words) => assert_eq!(words, "bootstrap timed out after 1 ms"),
        _ => panic!("the process should be ended"),
    }
    match after_glance(Glance::Failed("gone".to_string()), 0, 1) {
        WaitStep::GiveUp(words) => assert_eq!(words, "failed to wait for bootstrap CLI: gone"),
        _ => panic!("the wait should be given up"),
    }
}

#[test]
fn the_output_is_bounded() {
    let limit = 32 * 1024 * 1024;
    assert_eq!(bounded_output(Ok(vec![0; limit])).unwrap().len(), limit);
    assert_eq!(
        bounded_output(Ok(vec![0; limit + 1])).unwrap_err(),
        "bootstrap output exceeded 32 MiB"
    );
    assert_eq!(
        bounded_output(Err("gone".to_string())).unwrap_err(),
        "failed to read bootstrap output: gone"
    );
}

#[test]
fn the_output_is_read_as_json() {
    let value = bootstrap_result(true, "exit status: 0", bytes(" {\"é\":1}\n"), bytes("")).unwrap();
    assert_eq!(value.to_text(), "{\"é\":1}");
    let value = bootstrap_result(false, "exit status: 1", bytes("{}"), bytes("bad")).unwrap();
    assert_eq!(value.to_text(), "{}");
}

#[test]
fn a_silent_failure_is_explained() {
    let trouble = |stdout: &str, stderr: &str| {
        bootstrap_result(false, "exit status: 1", bytes(stdout), bytes(stderr)).unwrap_err()
    };
    assert_eq!(trouble(" \n", " "), "bootstrap CLI exited with exit status: 1");
    assert_eq!(trouble("", " no browser\n"), "no browser");
    assert!(trouble("{", "why")
        .starts_with("bootstrap CLI returned invalid JSON: EOF while parsing an object"));
    assert!(trouble("{", "why").ends_with("; stderr: why"));
    assert!(trouble("{", "").ends_with("; stderr: <empty>"));
}

#[test]
fn bytes_that_are_no_text_are_replaced() {
    let stderr = Ok(vec![b'a', 0xff, b'b']);
    let words = bootstrap_result(false, "exit status: 1", bytes(""), stderr).unwrap_err();
    assert_eq!(words, "a\u{fffd}b");
}

#[test]
fn unreadable_output_ends_the_attempt() {
    let bad = || Err::<Vec<u8>, String>("first".to_string());
    assert_eq!(bootstrap_result(true, "", bad(), Err("second".to_string())).unwrap_err(), "first");
    assert_eq!(bootstrap_result(true, "", bytes("{}"), Err("second".to_string())).unwrap_err(), "second");
}

#[test]
fn error_output_is_cut() {
    assert_eq!(redact_stderr(""), "<empty>");
    assert_eq!(redact_stderr("é"), "é");
    assert_eq!(redact_stderr(&"é".repeat(2001)), "é".repeat(2000));
}
