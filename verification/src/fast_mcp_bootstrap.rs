//! How a session is started through a command line: the words of the command line, the wait for it,
//! and what its output says.

use std::path::PathBuf;
use vstd::prelude::*;
use vstd::utf8::{decode_utf8, encode_utf8, valid_utf8};
use crate::json::{optional_text, parsed_json, Json, JsonView};
use crate::path::{path_bytes, path_of};
use crate::text::{
    chars_of, decimal, decimal_text, join3, no_words, push_word, string_of, texts_view,
    three_words, trim, without_outer_space,
};

verus! {

/// The most output that is taken, in bytes.
pub const MAX_BOOTSTRAP_OUTPUT_BYTES: usize = 32 * 1024 * 1024;

/// How much of the error output is passed on, in characters.
pub const MAX_STDERR_CHARS: usize = 2_000;

/// How long to pause between two looks at a process, in milliseconds.
pub const POLL_INTERVAL_MS: u64 = 10;

// ---------------------------------------------------------------------------
// The command line
// ---------------------------------------------------------------------------

/// The words that follow the name of the program.
pub open spec fn bootstrap_words(
    session: Seq<char>,
    namespace: Option<Seq<char>>,
    cli_args: Seq<Seq<char>>,
) -> Seq<Seq<char>> {
    let words = no_words().push("--session"@).push(session).push("--json"@) + cli_args;
    match namespace {
        Some(name) => words.push("--namespace"@).push(name),
        None => words,
    }
}

/// The words that follow the name of the program.
pub fn bootstrap_args(session: &str, namespace: Option<&str>, cli_args: &Vec<String>) -> (words:
    Vec<String>)
    ensures
        texts_view(words@) == bootstrap_words(
            session@,
            optional_text(namespace),
            texts_view(cli_args@),
        ),
{
    let mut words = three_words("--session", session, "--json");
    let ghost start = texts_view(words@);
    let ghost rest = texts_view(cli_args@);
    let mut i: usize = 0;
    assert(start + rest.take(0) =~= start);
    while i < cli_args.len()
        invariant
            i <= cli_args@.len(),
            rest == texts_view(cli_args@),
            texts_view(words@) == start + rest.take(i as int),
        decreases cli_args@.len() - i,
    {
        push_word(&mut words, cli_args[i].as_str());
        assert(start + rest.take(i + 1) =~= (start + rest.take(i as int)).push(rest[i as int]));
        i += 1;
    }
    assert(rest.take(i as int) =~= rest);
    match namespace {
        Some(name) => {
            push_word(&mut words, "--namespace");
            push_word(&mut words, name);
        },
        None => {},
    }
    words
}

/// The name of the program that starts a session.
pub open spec fn program_name(windows: bool) -> Seq<char> {
    if windows {
        "agent-browser.exe"@
    } else {
        "agent-browser"@
    }
}

/// The name of the program that starts a session.
pub fn executable_name(windows: bool) -> (name: &'static str)
    ensures
        name@ == program_name(windows),
{
    if windows {
        "agent-browser.exe"
    } else {
        "agent-browser"
    }
}

/// The program to run: the one that was asked for, else the one beside this program where it
/// exists, else the one that the system finds.
pub fn agent_browser_executable(
    asked: Option<PathBuf>,
    sibling: Option<PathBuf>,
    windows: bool,
) -> (program: PathBuf)
    ensures
        match (asked, sibling) {
            (Some(path), _) => program == path,
            (None, Some(path)) => program == path,
            (None, None) => path_bytes(program) == encode_utf8(program_name(windows)),
        },
{
    match asked {
        Some(path) => path,
        None => match sibling {
            Some(path) => path,
            None => path_of(executable_name(windows)),
        },
    }
}

// ---------------------------------------------------------------------------
// The wait
// ---------------------------------------------------------------------------

/// What a look at the process shows.
pub enum Glance {
    /// It has ended.
    Ended,
    /// It still runs.
    Running,
    /// The look failed, with these words.
    Failed(String),
}

/// The model of a look.
#[verifier::ext_equal]
pub enum GlanceView {
    Ended,
    Running,
    Failed(Seq<char>),
}

impl View for Glance {
    type V = GlanceView;

    open spec fn view(&self) -> GlanceView {
        match self {
            Glance::Ended => GlanceView::Ended,
            Glance::Running => GlanceView::Running,
            Glance::Failed(words) => GlanceView::Failed(words@),
        }
    }
}

/// What to do after a look.
pub enum WaitStep {
    /// Take the output.
    Collect,
    /// Pause for so many milliseconds and look again.
    Pause(u64),
    /// End the process and give up with these words.
    Kill(String),
    /// Give up with these words.
    GiveUp(String),
}

/// The model of what to do after a look.
#[verifier::ext_equal]
pub enum WaitStepView {
    Collect,
    Pause(u64),
    Kill(Seq<char>),
    GiveUp(Seq<char>),
}

impl View for WaitStep {
    type V = WaitStepView;

    open spec fn view(&self) -> WaitStepView {
        match self {
            WaitStep::Collect => WaitStepView::Collect,
            WaitStep::Pause(ms) => WaitStepView::Pause(*ms),
            WaitStep::Kill(words) => WaitStepView::Kill(words@),
            WaitStep::GiveUp(words) => WaitStepView::GiveUp(words@),
        }
    }
}

/// What follows a look at a process that has run for `elapsed` nanoseconds.
pub open spec fn wait_decision(glance: GlanceView, elapsed: u64, timeout_ms: u64) -> WaitStepView {
    match glance {
        GlanceView::Ended => WaitStepView::Collect,
        GlanceView::Failed(words) => WaitStepView::GiveUp(
            "failed to wait for bootstrap CLI: "@ + words,
        ),
        GlanceView::Running => if elapsed < timeout_ms * 1_000_000 {
            WaitStepView::Pause(POLL_INTERVAL_MS)
        } else {
            WaitStepView::Kill("bootstrap timed out after "@ + decimal(timeout_ms as nat) + " ms"@)
        },
    }
}

/// What follows a look at a process that has run for `elapsed` nanoseconds.
pub fn after_glance(glance: Glance, elapsed: u64, timeout_ms: u64) -> (step: WaitStep)
    ensures
        step@ == wait_decision(glance@, elapsed, timeout_ms),
{
    match glance {
        Glance::Ended => WaitStep::Collect,
        Glance::Failed(words) => {
            let mut message = "failed to wait for bootstrap CLI: ".to_owned();
            message.append(words.as_str());
            WaitStep::GiveUp(message)
        },
        Glance::Running => {
            if (elapsed as u128) < timeout_ms as u128 * 1_000_000 {
                WaitStep::Pause(POLL_INTERVAL_MS)
            } else {
                WaitStep::Kill(
                    join3("bootstrap timed out after ", decimal_text(timeout_ms).as_str(), " ms"),
                )
            }
        },
    }
}

// ---------------------------------------------------------------------------
// The output
// ---------------------------------------------------------------------------

/// The output that was read, or what is wrong with it.
pub open spec fn taken_output(read: Result<Seq<u8>, Seq<char>>) -> Result<Seq<u8>, Seq<char>> {
    match read {
        Err(words) => Err("failed to read bootstrap output: "@ + words),
        Ok(bytes) => if bytes.len() > MAX_BOOTSTRAP_OUTPUT_BYTES {
            Err("bootstrap output exceeded 32 MiB"@)
        } else {
            Ok(bytes)
        },
    }
}

/// The model of bytes or the words of a failure.
pub open spec fn bytes_result(read: Result<Vec<u8>, String>) -> Result<Seq<u8>, Seq<char>> {
    match read {
        Ok(bytes) => Ok(bytes@),
        Err(words) => Err(words@),
    }
}

/// The output that was read, or what is wrong with it. One byte more than the limit is enough to
/// read.
pub fn bounded_output(read: Result<Vec<u8>, String>) -> (output: Result<Vec<u8>, String>)
    ensures
        bytes_result(output) == taken_output(bytes_result(read)),
{
    match read {
        Err(words) => {
            let mut message = "failed to read bootstrap output: ".to_owned();
            message.append(words.as_str());
            Err(message)
        },
        Ok(bytes) => {
            if bytes.len() > MAX_BOOTSTRAP_OUTPUT_BYTES {
                Err("bootstrap output exceeded 32 MiB".to_owned())
            } else {
                Ok(bytes)
            }
        },
    }
}

/// The text that `String::from_utf8_lossy` gives of bytes.
pub uninterp spec fn lossy_text(bytes: Seq<u8>) -> Seq<char>;

/// The text of bytes, from `String::from_utf8_lossy`: bytes that are UTF-8 give the text that they
/// encode. What stands for bytes that are not is left to that function.
#[verifier::external_body]
fn lossy(bytes: &[u8]) -> (text: String)
    ensures
        text@ == lossy_text(bytes@),
        valid_utf8(bytes@) ==> text@ == decode_utf8(bytes@),
{
    String::from_utf8_lossy(bytes).into_owned()
}

/// The start of the error output, with a mark where there is none.
pub open spec fn redacted(stderr: Seq<char>) -> Seq<char> {
    if stderr.len() == 0 {
        "<empty>"@
    } else if stderr.len() <= MAX_STDERR_CHARS {
        stderr
    } else {
        stderr.take(MAX_STDERR_CHARS as int)
    }
}

/// The start of the error output, with a mark where there is none.
pub fn redact_stderr(stderr: &str) -> (text: String)
    ensures
        text@ == redacted(stderr@),
{
    let chars = chars_of(stderr);
    if chars.len() == 0 {
        "<empty>".to_owned()
    } else if chars.len() <= MAX_STDERR_CHARS {
        let text = string_of(&chars, 0, chars.len());
        assert(text@ =~= stderr@);
        text
    } else {
        string_of(&chars, 0, MAX_STDERR_CHARS)
    }
}

/// What the texts of a process that has ended say. `status` are the words for how it ended.
pub open spec fn ended_with(
    success: bool,
    status: Seq<char>,
    stdout: Seq<char>,
    stderr: Seq<char>,
) -> Result<JsonView, Seq<char>> {
    if !success && stdout.len() == 0 {
        Err(
            if stderr.len() == 0 {
                "bootstrap CLI exited with "@ + status
            } else {
                stderr
            },
        )
    } else {
        match parsed_json(stdout) {
            Ok(json) => Ok(json),
            Err(words) => Err(
                "bootstrap CLI returned invalid JSON: "@ + words + "; stderr: "@ + redacted(stderr),
            ),
        }
    }
}

/// What the output of a process that has ended says.
pub open spec fn bootstrap_outcome(
    success: bool,
    status: Seq<char>,
    stdout: Result<Seq<u8>, Seq<char>>,
    stderr: Result<Seq<u8>, Seq<char>>,
) -> Result<JsonView, Seq<char>> {
    match (stdout, stderr) {
        (Err(words), _) => Err(words),
        (Ok(_), Err(words)) => Err(words),
        (Ok(output), Ok(errors)) => ended_with(
            success,
            status,
            without_outer_space(lossy_text(output)),
            without_outer_space(lossy_text(errors)),
        ),
    }
}

/// The model of a value or the words of a failure.
pub open spec fn json_result(result: Result<Json, String>) -> Result<JsonView, Seq<char>> {
    match result {
        Ok(json) => Ok(json@),
        Err(words) => Err(words@),
    }
}

/// What the texts of a process that has ended say. `status` are the words for how it ended.
pub fn read_outcome(success: bool, status: &str, stdout: &str, stderr: &str) -> (result: Result<
    Json,
    String,
>)
    ensures
        json_result(result) == ended_with(success, status@, stdout@, stderr@),
{
    if !success && stdout.is_empty() {
        return Err(
            if stderr.is_empty() {
                let mut words = "bootstrap CLI exited with ".to_owned();
                words.append(status);
                words
            } else {
                stderr.to_owned()
            },
        );
    }
    match Json::parse(stdout) {
        Ok(json) => Ok(json),
        Err(error) => {
            let mut words = "bootstrap CLI returned invalid JSON: ".to_owned();
            words.append(error.as_str());
            words.append("; stderr: ");
            words.append(redact_stderr(stderr).as_str());
            Err(words)
        },
    }
}

/// What the output of a process that has ended says. `status` are the words for how it ended.
pub fn bootstrap_result(
    success: bool,
    status: &str,
    stdout: Result<Vec<u8>, String>,
    stderr: Result<Vec<u8>, String>,
) -> (result: Result<Json, String>)
    ensures
        json_result(result) == bootstrap_outcome(
            success,
            status@,
            bytes_result(stdout),
            bytes_result(stderr),
        ),
        stdout is Ok && stderr is Ok && valid_utf8(stdout->Ok_0@) && valid_utf8(stderr->Ok_0@)
            ==> json_result(result) == ended_with(
            success,
            status@,
            without_outer_space(decode_utf8(stdout->Ok_0@)),
            without_outer_space(decode_utf8(stderr->Ok_0@)),
        ),
{
    let output = match stdout {
        Ok(bytes) => bytes,
        Err(words) => {
            return Err(words);
        },
    };
    let errors = match stderr {
        Ok(bytes) => bytes,
        Err(words) => {
            return Err(words);
        },
    };
    let stdout_text = trim(lossy(output.as_slice()).as_str());
    let stderr_text = trim(lossy(errors.as_slice()).as_str());
    read_outcome(success, status, stdout_text.as_str(), stderr_text.as_str())
}

// ---------------------------------------------------------------------------
// Laws
// ---------------------------------------------------------------------------

/// A process that runs on is waited for as long as the time limit says and no longer.
pub proof fn law_wait_ends_at_the_time_limit(elapsed: u64, timeout_ms: u64)
    ensures
        wait_decision(GlanceView::Running, elapsed, timeout_ms) is Pause <==> elapsed < timeout_ms
            * 1_000_000,
        wait_decision(GlanceView::Running, elapsed, timeout_ms) is Kill <==> elapsed >= timeout_ms
            * 1_000_000,
{
}

/// No more of the error output is passed on than the limit says, and what is passed on is not
/// empty.
pub proof fn law_error_output_is_cut(stderr: Seq<char>)
    ensures
        0 < redacted(stderr).len() <= MAX_STDERR_CHARS,
{
    reveal_strlit("<empty>");
}

/// The command line names the session, asks for a value as output, holds the words of the command
/// in their order, and ends with the namespace where there is one.
pub proof fn law_command_line_is_complete(
    session: Seq<char>,
    namespace: Option<Seq<char>>,
    cli_args: Seq<Seq<char>>,
)
    ensures
        ({
            let words = bootstrap_words(session, namespace, cli_args);
            let count = cli_args.len() as int;
            &&& words[0] == "--session"@
            &&& words[1] == session
            &&& words[2] == "--json"@
            &&& forall|i: int| 0 <= i < count ==> words[i + 3] == #[trigger] cli_args[i]
            &&& match namespace {
                Some(name) => words.len() == count + 5 && words[count + 3] == "--namespace"@
                    && words[count + 4] == name,
                None => words.len() == count + 3,
            }
        }),
{
}

/// The program is named `agent-browser`, on Windows with `.exe` behind it.
pub proof fn law_program_is_named_for_its_system()
    ensures
        program_name(false) == "agent-browser"@,
        program_name(true) == "agent-browser"@ + ".exe"@,
{
    reveal_strlit("agent-browser");
    reveal_strlit("agent-browser.exe");
    reveal_strlit(".exe");
    assert("agent-browser.exe"@ =~= "agent-browser"@ + ".exe"@);
}

/// A process that has ended is collected at once, one that runs is looked at again after 10
/// milliseconds until its time is over and is then ended, and one that cannot be looked at is given
/// up; the words say why.
pub proof fn law_wait_decisions(elapsed: u64, timeout_ms: u64, words: Seq<char>)
    ensures
        wait_decision(GlanceView::Ended, elapsed, timeout_ms) is Collect,
        wait_decision(GlanceView::Failed(words), elapsed, timeout_ms) == WaitStepView::GiveUp(
            "failed to wait for bootstrap CLI: "@ + words,
        ),
        wait_decision(GlanceView::Running, elapsed, timeout_ms) == if elapsed < timeout_ms
            * 1_000_000 {
            WaitStepView::Pause(10)
        } else {
            WaitStepView::Kill(
                "bootstrap timed out after "@ + decimal(timeout_ms as nat) + " ms"@,
            )
        },
{
}

/// Output of up to 32 MiB is taken as it is; more, or what cannot be read, is refused.
pub proof fn law_output_is_bounded(bytes: Seq<u8>, words: Seq<char>)
    ensures
        bytes.len() <= 33_554_432 ==> taken_output(Ok(bytes)) == Ok::<Seq<u8>, Seq<char>>(bytes),
        bytes.len() > 33_554_432 ==> taken_output(Ok(bytes)) == Err::<Seq<u8>, Seq<char>>(
            "bootstrap output exceeded 32 MiB"@,
        ),
        taken_output(Err(words)) == Err::<Seq<u8>, Seq<char>>(
            "failed to read bootstrap output: "@ + words,
        ),
{
}

/// Of the error output the first 2000 characters are told, or that there is none.
pub proof fn law_error_output_is_told(stderr: Seq<char>)
    ensures
        stderr.len() == 0 ==> redacted(stderr) == "<empty>"@,
        0 < stderr.len() <= 2_000 ==> redacted(stderr) == stderr,
        stderr.len() > 2_000 ==> redacted(stderr).len() == 2_000 && redacted(
            stderr,
        ).is_prefix_of(stderr),
{
}

/// What a process said is its value, whether it succeeded or not. One that failed without a word is
/// told by its error output, or by how it ended; output that is no value is told as such with the
/// error output.
pub proof fn law_output_is_the_result(
    success: bool,
    status: Seq<char>,
    stdout: Seq<char>,
    stderr: Seq<char>,
)
    ensures
        ({
            let result = ended_with(success, status, stdout, stderr);
            if !success && stdout.len() == 0 {
                result == Err::<JsonView, Seq<char>>(
                    if stderr.len() > 0 {
                        stderr
                    } else {
                        "bootstrap CLI exited with "@ + status
                    },
                )
            } else {
                match parsed_json(stdout) {
                    Ok(json) => result == Ok::<JsonView, Seq<char>>(json),
                    Err(words) => result == Err::<JsonView, Seq<char>>(
                        "bootstrap CLI returned invalid JSON: "@ + words + "; stderr: "@ + redacted(
                            stderr,
                        ),
                    ),
                }
            }
        }),
{
}

/// Output that could not be taken ends the start with its words, and other output counts without
/// the whitespace around it.
pub proof fn law_output_is_read_without_outer_space(
    success: bool,
    status: Seq<char>,
    output: Seq<u8>,
    errors: Seq<u8>,
    words: Seq<char>,
    stderr: Result<Seq<u8>, Seq<char>>,
)
    ensures
        bootstrap_outcome(success, status, Err(words), stderr) == Err::<JsonView, Seq<char>>(words),
        bootstrap_outcome(success, status, Ok(output), Err(words)) == Err::<JsonView, Seq<char>>(
            words,
        ),
        bootstrap_outcome(success, status, Ok(output), Ok(errors)) == ended_with(
            success,
            status,
            without_outer_space(lossy_text(output)),
            without_outer_space(lossy_text(errors)),
        ),
{
}

/// The models of looks and of what follows them show the parts as they are.
pub proof fn law_models_show_their_parts(words: String, ms: u64)
    ensures
        Glance::Ended@ is Ended && Glance::Running@ is Running,
        Glance::Failed(words)@ == GlanceView::Failed(words@),
        WaitStep::Collect@ is Collect && WaitStep::Pause(ms)@ == WaitStepView::Pause(ms),
        WaitStep::Kill(words)@ == WaitStepView::Kill(words@),
        WaitStep::GiveUp(words)@ == WaitStepView::GiveUp(words@),
{
}

} // verus!
