//! Settings of the fast-path gateway: environment, command line and limits.

use vstd::prelude::*;
use crate::json::optional_string;
use crate::text::{parse_unsigned, parsed_unsigned, same, texts_view};

verus! {

/// The longest time for which an observation may be served again, in milliseconds.
pub const MAX_OBSERVE_TTL_MS: u64 = 100;

/// How long an observation is served again where nothing else is asked for, in milliseconds.
pub const DEFAULT_OBSERVE_TTL_MS: u64 = 8;

/// The smallest limit on lines, in bytes.
pub const MIN_LINE_LIMIT: usize = 1024;

/// The largest limit on lines, in bytes.
pub const MAX_LINE_LIMIT: usize = 64 * 1024 * 1024;

/// The limit on lines where nothing else is asked for, in bytes.
pub const DEFAULT_LINE_LIMIT: usize = 4 * 1024 * 1024;

/// The settings of the gateway.
#[derive(Debug)]
pub struct Config {
    pub listen: String,
    pub upstream: String,
    pub observe_ttl_ms: u64,
    pub max_line_bytes: usize,
}

/// The model of settings.
#[verifier::ext_equal]
pub struct ConfigView {
    pub listen: Seq<char>,
    pub upstream: Seq<char>,
    pub observe_ttl_ms: u64,
    pub max_line_bytes: usize,
}

impl View for Config {
    type V = ConfigView;

    open spec fn view(&self) -> ConfigView {
        ConfigView {
            listen: self.listen@,
            upstream: self.upstream@,
            observe_ttl_ms: self.observe_ttl_ms,
            max_line_bytes: self.max_line_bytes,
        }
    }
}

impl Clone for Config {
    fn clone(&self) -> (copy: Config)
        ensures
            copy@ == self@,
    {
        Config {
            listen: self.listen.clone(),
            upstream: self.upstream.clone(),
            observe_ttl_ms: self.observe_ttl_ms,
            max_line_bytes: self.max_line_bytes,
        }
    }
}

impl ConfigView {
    /// Whether the settings keep the limits.
    pub open spec fn is_valid(self) -> bool {
        &&& self.observe_ttl_ms <= MAX_OBSERVE_TTL_MS
        &&& MIN_LINE_LIMIT <= self.max_line_bytes <= MAX_LINE_LIMIT
    }
}

/// What the environment says of the settings.
#[derive(Debug)]
pub struct Environment {
    pub listen: Option<String>,
    pub upstream: Option<String>,
    pub ttl_ms: Option<String>,
}

/// What the command line asks for.
#[derive(Debug)]
pub enum Invocation {
    /// To serve with these settings.
    Serve(Config),
    /// To explain the options.
    Help,
}

/// The model of what the command line asks for.
#[verifier::ext_equal]
pub enum InvocationView {
    Serve(ConfigView),
    Help,
}

/// The model of an invocation or an error.
pub open spec fn invocation_view(result: Result<Invocation, String>) -> Result<
    InvocationView,
    Seq<char>,
> {
    match result {
        Ok(Invocation::Serve(config)) => Ok(InvocationView::Serve(config@)),
        Ok(Invocation::Help) => Ok(InvocationView::Help),
        Err(message) => Err(message@),
    }
}

/// `value`, or `fallback` where there is none.
pub open spec fn or_else(value: Option<Seq<char>>, fallback: Seq<char>) -> Seq<char> {
    match value {
        Some(text) => text,
        None => fallback,
    }
}

/// The settings before the command line is read. A time in the environment that is no number does
/// not count.
pub open spec fn initial_config(environment: Environment) -> ConfigView {
    ConfigView {
        listen: or_else(optional_string(environment.listen), "127.0.0.1:7419"@),
        upstream: or_else(optional_string(environment.upstream), "127.0.0.1:7420"@),
        observe_ttl_ms: match environment.ttl_ms {
            Some(text) => match parsed_unsigned(text@, u64::MAX as nat) {
                Some(ttl) => ttl as u64,
                None => DEFAULT_OBSERVE_TTL_MS,
            },
            None => DEFAULT_OBSERVE_TTL_MS,
        },
        max_line_bytes: DEFAULT_LINE_LIMIT,
    }
}

/// The settings, if they keep the limits.
pub open spec fn checked_config(config: ConfigView) -> Result<InvocationView, Seq<char>> {
    if config.observe_ttl_ms > MAX_OBSERVE_TTL_MS {
        Err("observe TTL must be <= 100 ms"@)
    } else if !(MIN_LINE_LIMIT <= config.max_line_bytes <= MAX_LINE_LIMIT) {
        Err("max line bytes must be between 1 KiB and 64 MiB"@)
    } else {
        Ok(InvocationView::Serve(config))
    }
}

/// What the arguments from the one at `at` on make of the settings so far.
pub open spec fn parsed_arguments(args: Seq<Seq<char>>, at: int, config: ConfigView) -> Result<
    InvocationView,
    Seq<char>,
>
    decreases args.len() - at,
{
    if at >= args.len() || at < 0 {
        checked_config(config)
    } else if args[at] == "--help"@ || args[at] == "-h"@ {
        Ok(InvocationView::Help)
    } else if args[at] != "--listen"@ && args[at] != "--upstream"@ && args[at]
        != "--observe-ttl-ms"@ && args[at] != "--max-line-bytes"@ {
        Err("unknown argument: "@ + args[at])
    } else if at + 1 >= args.len() {
        Err(args[at] + " requires a value"@)
    } else if args[at] == "--listen"@ {
        parsed_arguments(args, at + 2, ConfigView { listen: args[at + 1], ..config })
    } else if args[at] == "--upstream"@ {
        parsed_arguments(args, at + 2, ConfigView { upstream: args[at + 1], ..config })
    } else if args[at] == "--observe-ttl-ms"@ {
        match parsed_unsigned(args[at + 1], u64::MAX as nat) {
            Some(ttl) => parsed_arguments(
                args,
                at + 2,
                ConfigView { observe_ttl_ms: ttl as u64, ..config },
            ),
            None => Err("invalid TTL"@),
        }
    } else {
        match parsed_unsigned(args[at + 1], usize::MAX as nat) {
            Some(limit) => parsed_arguments(
                args,
                at + 2,
                ConfigView { max_line_bytes: limit as usize, ..config },
            ),
            None => Err("invalid line limit"@),
        }
    }
}

/// The settings before the command line is read.
fn config_from_environment(environment: Environment) -> (config: Config)
    ensures
        config@ == initial_config(environment),
{
    let listen = match environment.listen {
        Some(address) => address,
        None => "127.0.0.1:7419".to_owned(),
    };
    let upstream = match environment.upstream {
        Some(address) => address,
        None => "127.0.0.1:7420".to_owned(),
    };
    let observe_ttl_ms: u64 = match environment.ttl_ms {
        Some(text) => match parse_unsigned(text.as_str(), u64::MAX) {
            Some(ttl) => ttl,
            None => DEFAULT_OBSERVE_TTL_MS,
        },
        None => DEFAULT_OBSERVE_TTL_MS,
    };
    Config { listen, upstream, observe_ttl_ms, max_line_bytes: DEFAULT_LINE_LIMIT }
}

/// The value of the option `flag`, which stands at `at`.
pub fn required_value(args: &Vec<String>, at: usize, flag: &str) -> (result: Result<String, String>)
    requires
        at < args@.len(),
    ensures
        match result {
            Ok(value) => at + 1 < args@.len() && value@ == args@[at + 1]@,
            Err(message) => at + 1 >= args@.len() && message@ == flag@ + " requires a value"@,
        },
{
    if args.len() - at > 1 {
        Ok(args[at + 1].clone())
    } else {
        let mut message = flag.to_owned();
        message.append(" requires a value");
        Err(message)
    }
}

/// Reads the settings from the environment and the arguments, which come without the name of the
/// program. Settings that are served with keep the limits.
pub fn parse_args(environment: Environment, args: &Vec<String>) -> (result: Result<
    Invocation,
    String,
>)
    ensures
        invocation_view(result) == parsed_arguments(
            texts_view(args@),
            0,
            initial_config(environment),
        ),
        result matches Ok(Invocation::Serve(config)) ==> config@.is_valid(),
{
    let ghost texts = texts_view(args@);
    let ghost start = initial_config(environment);
    let mut config = config_from_environment(environment);
    let mut at: usize = 0;
    while at < args.len()
        invariant
            at <= args@.len(),
            texts == texts_view(args@),
            start == initial_config(environment),
            parsed_arguments(texts, at as int, config@) == parsed_arguments(texts, 0, start),
        decreases args@.len() - at,
    {
        let argument = args[at].as_str();
        if same(argument, "--help") || same(argument, "-h") {
            return Ok(Invocation::Help);
        }
        let is_listen: bool = same(argument, "--listen");
        let is_upstream: bool = same(argument, "--upstream");
        let is_ttl: bool = same(argument, "--observe-ttl-ms");
        let is_limit: bool = same(argument, "--max-line-bytes");
        if !is_listen && !is_upstream && !is_ttl && !is_limit {
            let mut message = "unknown argument: ".to_owned();
            message.append(argument);
            return Err(message);
        }
        let value = match required_value(args, at, argument) {
            Ok(value) => value,
            Err(message) => {
                return Err(message);
            },
        };
        if is_listen {
            config.listen = value;
        } else if is_upstream {
            config.upstream = value;
        } else if is_ttl {
            match parse_unsigned(value.as_str(), u64::MAX) {
                Some(ttl) => {
                    config.observe_ttl_ms = ttl;
                },
                None => {
                    return Err("invalid TTL".to_owned());
                },
            }
        } else {
            match parse_unsigned(value.as_str(), usize::MAX as u64) {
                Some(limit) => {
                    config.max_line_bytes = limit as usize;
                },
                None => {
                    return Err("invalid line limit".to_owned());
                },
            }
        }
        at += 2;
    }
    if config.observe_ttl_ms > MAX_OBSERVE_TTL_MS {
        return Err("observe TTL must be <= 100 ms".to_owned());
    }
    if config.max_line_bytes < MIN_LINE_LIMIT || config.max_line_bytes > MAX_LINE_LIMIT {
        return Err("max line bytes must be between 1 KiB and 64 MiB".to_owned());
    }
    Ok(Invocation::Serve(config))
}

/// The gateway never runs with settings beyond the limits, whatever the environment and the command
/// line say: an observation is served again for at most 100 milliseconds.
pub proof fn law_served_settings_keep_the_limits(args: Seq<Seq<char>>, at: int, config: ConfigView)
    ensures
        parsed_arguments(args, at, config) matches Ok(InvocationView::Serve(settings))
            ==> settings.is_valid(),
    decreases args.len() - at,
{
    if 0 <= at && at + 1 < args.len() {
        let value = args[at + 1];
        law_served_settings_keep_the_limits(args, at + 2, ConfigView { listen: value, ..config });
        law_served_settings_keep_the_limits(args, at + 2, ConfigView { upstream: value, ..config });
        match parsed_unsigned(value, u64::MAX as nat) {
            Some(ttl) => {
                law_served_settings_keep_the_limits(
                    args,
                    at + 2,
                    ConfigView { observe_ttl_ms: ttl as u64, ..config },
                );
            },
            None => {},
        }
        match parsed_unsigned(value, usize::MAX as nat) {
            Some(limit) => {
                law_served_settings_keep_the_limits(
                    args,
                    at + 2,
                    ConfigView { max_line_bytes: limit as usize, ..config },
                );
            },
            None => {},
        }
    }
}

/// Where neither the environment nor the command line gives a time, observations are served again
/// for 8 milliseconds.
pub proof fn law_default_observe_ttl(environment: Environment)
    requires
        environment.ttl_ms matches Some(text) ==> parsed_unsigned(text@, u64::MAX as nat) is None,
    ensures
        parsed_arguments(Seq::empty(), 0, initial_config(environment)) == Ok::<
            InvocationView,
            Seq<char>,
        >(InvocationView::Serve(initial_config(environment))),
        initial_config(environment).observe_ttl_ms == 8,
{
}

/// The options differ.
proof fn lemma_options_differ()
    ensures
        "--listen"@.len() == 8,
        "--upstream"@.len() == 10,
        "--observe-ttl-ms"@.len() == 16 && "--observe-ttl-ms"@[2] == 'o',
        "--max-line-bytes"@.len() == 16 && "--max-line-bytes"@[2] == 'm',
        "--help"@.len() == 6,
        "-h"@.len() == 2,
{
    reveal_strlit("--listen");
    reveal_strlit("--upstream");
    reveal_strlit("--observe-ttl-ms");
    reveal_strlit("--max-line-bytes");
    reveal_strlit("--help");
    reveal_strlit("-h");
}

/// Each option sets what it is named after and nothing else, to the word behind it: the address to
/// listen on, the address of the daemon, the time for which observations are served again, and the
/// limit on lines. Two ask for help. An option without its word, a number that is none and an
/// unknown option are refused.
pub proof fn law_options_set_what_they_name(args: Seq<Seq<char>>, at: int, config: ConfigView)
    requires
        0 <= at < args.len(),
    ensures
        ({
            let result = parsed_arguments(args, at, config);
            let option = args[at];
            let value = args[at + 1];
            let known = option == "--listen"@ || option == "--upstream"@ || option
                == "--observe-ttl-ms"@ || option == "--max-line-bytes"@;
            if option == "--help"@ || option == "-h"@ {
                result == Ok::<InvocationView, Seq<char>>(InvocationView::Help)
            } else if !known {
                result == Err::<InvocationView, Seq<char>>("unknown argument: "@ + option)
            } else if at + 1 >= args.len() {
                result == Err::<InvocationView, Seq<char>>(option + " requires a value"@)
            } else {
                let (ttl, limit) = (
                    parsed_unsigned(value, 18_446_744_073_709_551_615),
                    parsed_unsigned(value, usize::MAX as nat),
                );
                if option == "--observe-ttl-ms"@ && ttl is None {
                    result == Err::<InvocationView, Seq<char>>("invalid TTL"@)
                } else if option == "--max-line-bytes"@ && limit is None {
                    result == Err::<InvocationView, Seq<char>>("invalid line limit"@)
                } else {
                    result == parsed_arguments(
                        args,
                        at + 2,
                        ConfigView {
                            listen: if option == "--listen"@ {
                                value
                            } else {
                                config.listen
                            },
                            upstream: if option == "--upstream"@ {
                                value
                            } else {
                                config.upstream
                            },
                            observe_ttl_ms: if option == "--observe-ttl-ms"@ {
                                ttl->0 as u64
                            } else {
                                config.observe_ttl_ms
                            },
                            max_line_bytes: if option == "--max-line-bytes"@ {
                                limit->0 as usize
                            } else {
                                config.max_line_bytes
                            },
                        },
                    )
                }
            }
        }),
{
    lemma_options_differ();
}

/// Once all options are read, the settings are served with as they are where observations are
/// served again for at most 100 milliseconds and the limit on lines is from 1 KiB to 64 MiB, and
/// are refused otherwise.
pub proof fn law_settings_are_checked(args: Seq<Seq<char>>, config: ConfigView)
    ensures
        parsed_arguments(args, args.len() as int, config) == if config.observe_ttl_ms > 100 {
            Err("observe TTL must be <= 100 ms"@)
        } else if config.max_line_bytes < 1_024 || config.max_line_bytes > 67_108_864 {
            Err("max line bytes must be between 1 KiB and 64 MiB"@)
        } else {
            Ok(InvocationView::Serve(config))
        },
        config.is_valid() <==> config.observe_ttl_ms <= 100 && 1_024 <= config.max_line_bytes
            <= 67_108_864,
{
}

/// Where the environment says nothing, the gateway listens on port 7419 of this machine, the daemon
/// is on port 7420, observations are served again for 8 milliseconds, and lines have up to 4 MiB.
/// What the environment says counts, but for a time that is no number.
pub proof fn law_environment_sets_the_start(environment: Environment)
    ensures
        ({
            let config = initial_config(environment);
            &&& config.listen == match environment.listen {
                Some(address) => address@,
                None => "127.0.0.1:7419"@,
            }
            &&& config.upstream == match environment.upstream {
                Some(address) => address@,
                None => "127.0.0.1:7420"@,
            }
            &&& config.observe_ttl_ms == match environment.ttl_ms {
                Some(text) => match parsed_unsigned(text@, 18_446_744_073_709_551_615) {
                    Some(ms) => ms as u64,
                    None => 8,
                },
                None => 8,
            }
            &&& config.max_line_bytes == 4_194_304
        }),
{
}

/// The model of the settings shows the fields as they are.
pub proof fn law_models_show_their_fields(config: Config)
    ensures
        config@.listen == config.listen@,
        config@.upstream == config.upstream@,
        config@.observe_ttl_ms == config.observe_ttl_ms,
        config@.max_line_bytes == config.max_line_bytes,
{
}

} // verus!
