//! Settings of the tool server: environment, command line and limits.

use vstd::prelude::*;
use crate::fast_mcp_tools::MAX_TIMEOUT_MS;
use crate::fast_transport::{bad_session_message, validate_session};
use crate::json::optional_string;
use crate::session::is_session_name;
use crate::text::{
    is_folded, parse_unsigned, parsed_unsigned, same, same_folded, texts_view,
};

verus! {

/// The time limit of a call where nothing else is asked for, in milliseconds.
pub const DEFAULT_TIMEOUT_MS: u64 = 120_000;

/// The settings of the tool server.
#[derive(Debug)]
pub struct Config {
    pub session: String,
    pub namespace: Option<String>,
    pub timeout_ms: u64,
    pub bootstrap: bool,
}

/// The model of settings.
#[verifier::ext_equal]
pub struct ConfigView {
    pub session: Seq<char>,
    pub namespace: Option<Seq<char>>,
    pub timeout_ms: u64,
    pub bootstrap: bool,
}

impl View for Config {
    type V = ConfigView;

    open spec fn view(&self) -> ConfigView {
        ConfigView {
            session: self.session@,
            namespace: optional_string(self.namespace),
            timeout_ms: self.timeout_ms,
            bootstrap: self.bootstrap,
        }
    }
}

impl Clone for Config {
    fn clone(&self) -> (copy: Config)
        ensures
            copy@ == self@,
    {
        Config {
            session: self.session.clone(),
            namespace: match &self.namespace {
                Some(name) => Some(name.clone()),
                None => None,
            },
            timeout_ms: self.timeout_ms,
            bootstrap: self.bootstrap,
        }
    }
}

impl ConfigView {
    /// Whether the settings keep the limits.
    pub open spec fn is_valid(self) -> bool {
        is_session_name(self.session) && 1 <= self.timeout_ms <= MAX_TIMEOUT_MS
    }
}

/// What the environment says of the settings.
#[derive(Debug)]
pub struct Environment {
    pub session: Option<String>,
    pub namespace: Option<String>,
    pub timeout: Option<String>,
    pub bootstrap: Option<String>,
}

/// What the command line asks for.
#[derive(Debug)]
pub enum Invocation {
    /// To serve with these settings.
    Serve(Config),
    /// To explain the options.
    Help,
}

/// The model of what the command line asks for.
#[verifier::ext_equal]
pub enum InvocationView {
    Serve(ConfigView),
    Help,
}

/// The model of an invocation or an error.
pub open spec fn invocation_view(result: Result<Invocation, String>) -> Result<
    InvocationView,
    Seq<char>,
> {
    match result {
        Ok(Invocation::Serve(config)) => Ok(InvocationView::Serve(config@)),
        Ok(Invocation::Help) => Ok(InvocationView::Help),
        Err(message) => Err(message@),
    }
}

/// Whether a word in the environment says no.
pub open spec fn is_no(word: Seq<char>) -> bool {
    is_folded(word, "0"@) || is_folded(word, "false"@) || is_folded(word, "no"@)
}

/// The settings before the command line is read. A time limit in the environment that is no number
/// does not count.
pub open spec fn initial_config(environment: Environment) -> ConfigView {
    ConfigView {
        session: match environment.session {
            Some(name) => name@,
            None => "default"@,
        },
        namespace: optional_string(environment.namespace),
        timeout_ms: match environment.timeout {
            Some(text) => match parsed_unsigned(text@, u64::MAX as nat) {
                Some(ms) => ms as u64,
                None => DEFAULT_TIMEOUT_MS,
            },
            None => DEFAULT_TIMEOUT_MS,
        },
        bootstrap: match environment.bootstrap {
            Some(word) => !is_no(word@),
            None => true,
        },
    }
}

/// The settings to serve with, or which limit they break.
pub open spec fn checked_config(config: ConfigView) -> Result<InvocationView, Seq<char>> {
    if !(1 <= config.timeout_ms <= MAX_TIMEOUT_MS) {
        Err("MCP timeout must be between 1 and 600000 milliseconds"@)
    } else if !is_session_name(config.session) {
        Err(bad_session_message(config.session))
    } else {
        Ok(InvocationView::Serve(config))
    }
}

/// What the arguments from `at` on ask for, after those before them have led to `config`.
pub open spec fn parsed_arguments(args: Seq<Seq<char>>, at: int, config: ConfigView) -> Result<
    InvocationView,
    Seq<char>,
>
    decreases args.len() - at,
{
    if at >= args.len() || at < 0 {
        checked_config(config)
    } else if args[at] == "--session"@ {
        if at + 1 >= args.len() {
            Err("--session requires a value"@)
        } else {
            parsed_arguments(args, at + 2, ConfigView { session: args[at + 1], ..config })
        }
    } else if args[at] == "--namespace"@ {
        if at + 1 >= args.len() {
            Err("--namespace requires a value"@)
        } else {
            parsed_arguments(args, at + 2, ConfigView { namespace: Some(args[at + 1]), ..config })
        }
    } else if args[at] == "--timeout-ms"@ {
        if at + 1 >= args.len() {
            Err("--timeout-ms requires a value"@)
        } else {
            match parsed_unsigned(args[at + 1], u64::MAX as nat) {
                None => Err("--timeout-ms must be an integer"@),
                Some(ms) => parsed_arguments(
                    args,
                    at + 2,
                    ConfigView { timeout_ms: ms as u64, ..config },
                ),
            }
        }
    } else if args[at] == "--no-bootstrap"@ {
        parsed_arguments(args, at + 1, ConfigView { bootstrap: false, ..config })
    } else if args[at] == "--help"@ || args[at] == "-h"@ {
        Ok(InvocationView::Help)
    } else {
        Err("unknown fast MCP option: "@ + args[at])
    }
}

/// The settings before the command line is read.
fn starting_config(environment: Environment) -> (config: Config)
    ensures
        config@ == initial_config(environment),
{
    let session = match environment.session {
        Some(name) => name,
        None => "default".to_owned(),
    };
    let timeout_ms: u64 = match &environment.timeout {
        Some(text) => match parse_unsigned(text.as_str(), u64::MAX) {
            Some(ms) => ms,
            None => DEFAULT_TIMEOUT_MS,
        },
        None => DEFAULT_TIMEOUT_MS,
    };
    let bootstrap = match &environment.bootstrap {
        Some(word) => !(same_folded(word.as_str(), "0") || same_folded(word.as_str(), "false")
            || same_folded(word.as_str(), "no")),
        None => true,
    };
    Config { session, namespace: environment.namespace, timeout_ms, bootstrap }
}

impl Config {
    /// The settings that the environment and the command line ask for.
    pub fn from_environment_and_args(environment: Environment, args: &Vec<String>) -> (result:
        Result<Invocation, String>)
        ensures
            invocation_view(result) == parsed_arguments(
                texts_view(args@),
                0,
                initial_config(environment),
            ),
    {
        let ghost start = initial_config(environment);
        let ghost texts = texts_view(args@);
        let mut config = starting_config(environment);
        let mut at: usize = 0;
        while at < args.len()
            invariant
                at <= args@.len(),
                texts == texts_view(args@),
                start == initial_config(environment),
                parsed_arguments(texts, 0, start) == parsed_arguments(texts, at as int, config@),
            decreases args@.len() - at,
        {
            let argument = args[at].as_str();
            let more = args.len() - at > 1;
            if same(argument, "--session") {
                if !more {
                    return Err("--session requires a value".to_owned());
                }
                config.session = args[at + 1].clone();
                at += 2;
            } else if same(argument, "--namespace") {
                if !more {
                    return Err("--namespace requires a value".to_owned());
                }
                config.namespace = Some(args[at + 1].clone());
                at += 2;
            } else if same(argument, "--timeout-ms") {
                if !more {
                    return Err("--timeout-ms requires a value".to_owned());
                }
                match parse_unsigned(args[at + 1].as_str(), u64::MAX) {
                    Some(ms) => {
                        config.timeout_ms = ms;
                    },
                    None => {
                        return Err("--timeout-ms must be an integer".to_owned());
                    },
                }
                at += 2;
            } else if same(argument, "--no-bootstrap") {
                config.bootstrap = false;
                at += 1;
            } else if same(argument, "--help") || same(argument, "-h") {
                return Ok(Invocation::Help);
            } else {
                let mut message = "unknown fast MCP option: ".to_owned();
                message.append(argument);
                return Err(message);
            }
        }
        if config.timeout_ms < 1 || config.timeout_ms > MAX_TIMEOUT_MS {
            return Err("MCP timeout must be between 1 and 600000 milliseconds".to_owned());
        }
        match validate_session(config.session.as_str()) {
            Ok(_) => Ok(Invocation::Serve(config)),
            Err(message) => Err(message),
        }
    }
}

/// Settings that are served with keep the limits.
pub proof fn law_served_settings_keep_the_limits(args: Seq<Seq<char>>, at: int, config: ConfigView)
    ensures
        parsed_arguments(args, at, config) matches Ok(InvocationView::Serve(settings))
            ==> settings.is_valid(),
    decreases args.len() - at,
{
    if 0 <= at && at + 1 < args.len() {
        let value = args[at + 1];
        law_served_settings_keep_the_limits(args, at + 2, ConfigView { session: value, ..config });
        law_served_settings_keep_the_limits(
            args,
            at + 2,
            ConfigView { namespace: Some(value), ..config },
        );
        match parsed_unsigned(value, u64::MAX as nat) {
            Some(ms) => law_served_settings_keep_the_limits(
                args,
                at + 2,
                ConfigView { timeout_ms: ms as u64, ..config },
            ),
            None => {},
        }
    }
    if 0 <= at < args.len() {
        law_served_settings_keep_the_limits(
            args,
            at + 1,
            ConfigView { bootstrap: false, ..config },
        );
    }
}

/// Once the command line says not to start sessions, nothing that follows takes that back.
pub proof fn law_no_bootstrap_stays(args: Seq<Seq<char>>, at: int, config: ConfigView)
    requires
        !config.bootstrap,
    ensures
        parsed_arguments(args, at, config) matches Ok(InvocationView::Serve(settings))
            ==> !settings.bootstrap,
    decreases args.len() - at,
{
    if 0 <= at && at + 1 < args.len() {
        let value = args[at + 1];
        law_no_bootstrap_stays(args, at + 2, ConfigView { session: value, ..config });
        law_no_bootstrap_stays(args, at + 2, ConfigView { namespace: Some(value), ..config });
        match parsed_unsigned(value, u64::MAX as nat) {
            Some(ms) => law_no_bootstrap_stays(
                args,
                at + 2,
                ConfigView { timeout_ms: ms as u64, ..config },
            ),
            None => {},
        }
    }
    if 0 <= at < args.len() {
        law_no_bootstrap_stays(args, at + 1, ConfigView { bootstrap: false, ..config });
    }
}

/// The options differ.
proof fn lemma_options_differ()
    ensures
        "--session"@.len() == 9,
        "--namespace"@.len() == 11,
        "--timeout-ms"@.len() == 12,
        "--no-bootstrap"@.len() == 14,
        "--help"@.len() == 6,
        "-h"@.len() == 2,
{
    reveal_strlit("--session");
    reveal_strlit("--namespace");
    reveal_strlit("--timeout-ms");
    reveal_strlit("--no-bootstrap");
    reveal_strlit("--help");
    reveal_strlit("-h");
}

/// Each option sets what it is named after and nothing else, to the word behind it: the session,
/// the namespace, the time limit. One asks for sessions not to be started, and two for help. An
/// option without its word, a time limit that is no number and an unknown option are refused.
pub proof fn law_options_set_what_they_name(args: Seq<Seq<char>>, at: int, config: ConfigView)
    requires
        0 <= at < args.len(),
    ensures
        ({
            let result = parsed_arguments(args, at, config);
            let option = args[at];
            let valued = at + 1 < args.len();
            let value = args[at + 1];
            &&& option == "--session"@ ==> result == if valued {
                parsed_arguments(
                    args,
                    at + 2,
                    ConfigView {
                        session: value,
                        namespace: config.namespace,
                        timeout_ms: config.timeout_ms,
                        bootstrap: config.bootstrap,
                    },
                )
            } else {
                Err("--session requires a value"@)
            }
            &&& option == "--namespace"@ ==> result == if valued {
                parsed_arguments(
                    args,
                    at + 2,
                    ConfigView {
                        session: config.session,
                        namespace: Some(value),
                        timeout_ms: config.timeout_ms,
                        bootstrap: config.bootstrap,
                    },
                )
            } else {
                Err("--namespace requires a value"@)
            }
            &&& option == "--timeout-ms"@ && !valued ==> result == Err::<InvocationView, Seq<char>>(
                "--timeout-ms requires a value"@,
            )
            &&& option == "--timeout-ms"@ && valued ==> result == match parsed_unsigned(
                value,
                18_446_744_073_709_551_615,
            ) {
                Some(ms) => parsed_arguments(
                    args,
                    at + 2,
                    ConfigView {
                        session: config.session,
                        namespace: config.namespace,
                        timeout_ms: ms as u64,
                        bootstrap: config.bootstrap,
                    },
                ),
                None => Err("--timeout-ms must be an integer"@),
            }
            &&& option == "--no-bootstrap"@ ==> result == parsed_arguments(
                args,
                at + 1,
                ConfigView {
                    session: config.session,
                    namespace: config.namespace,
                    timeout_ms: config.timeout_ms,
                    bootstrap: false,
                },
            )
            &&& option == "--help"@ || option == "-h"@ ==> result == Ok::<
                InvocationView,
                Seq<char>,
            >(InvocationView::Help)
            &&& option != "--session"@ && option != "--namespace"@ && option != "--timeout-ms"@
                && option != "--no-bootstrap"@ && option != "--help"@ && option != "-h"@ ==> result
                == Err::<InvocationView, Seq<char>>("unknown fast MCP option: "@ + option)
        }),
{
    lemma_options_differ();
}

/// Once all options are read, the settings are served with as they are where the time limit is from
/// a millisecond to ten minutes and the session may be, and are refused otherwise.
pub proof fn law_settings_are_checked(args: Seq<Seq<char>>, config: ConfigView)
    ensures
        parsed_arguments(args, args.len() as int, config) == if config.timeout_ms < 1
            || config.timeout_ms > 600_000 {
            Err("MCP timeout must be between 1 and 600000 milliseconds"@)
        } else if !is_session_name(config.session) {
            Err(
                "invalid session name '"@ + config.session
                    + "'; use alphanumeric characters, hyphens, or underscores"@,
            )
        } else {
            Ok(InvocationView::Serve(config))
        },
{
}

/// Where the environment says nothing, the session is the default one, there is no namespace, a
/// call may take two minutes, and sessions are started. What the environment says counts, but for a
/// time limit that is no number; sessions are not started where it says `0`, `false` or `no`.
pub proof fn law_environment_sets_the_start(environment: Environment)
    ensures
        ({
            let config = initial_config(environment);
            &&& config.session == match environment.session {
                Some(name) => name@,
                None => "default"@,
            }
            &&& config.namespace == match environment.namespace {
                Some(name) => Some(name@),
                None => None,
            }
            &&& config.timeout_ms == match environment.timeout {
                Some(text) => match parsed_unsigned(text@, 18_446_744_073_709_551_615) {
                    Some(ms) => ms as u64,
                    None => 120_000,
                },
                None => 120_000,
            }
            &&& config.bootstrap == match environment.bootstrap {
                Some(word) => !is_folded(word@, "0"@) && !is_folded(word@, "false"@) && !is_folded(
                    word@,
                    "no"@,
                ),
                None => true,
            }
        }),
{
}

} // verus!
