//! The command line grammar: keywords that set a value of the configuration,
//! `--help`, and the names of the drivers to run.
use vstd::prelude::*;
use crate::config::{default_config, ExperimentConfig, Verbosity};
use crate::text::{parse_usize, parsed_usize};

verus! {

/// What went wrong while reading the command line.
#[derive(Debug)]
pub enum ParseError {
    /// A keyword that takes a value came last.
    MissingValue(String),
    /// An argument that is neither a keyword nor a driver.
    UnknownKeyword(String),
    /// A numeric value that does not parse as a `usize`.
    ParseIntError(std::num::ParseIntError),
    /// A verbosity value other than none, all or notify.
    VerbosityError(String),
    /// Help was asked for.
    Help,
}

impl Clone for ParseError {
    fn clone(&self) -> (r: Self)
        ensures
            r == *self,
    {
        match self {
            ParseError::MissingValue(k) => ParseError::MissingValue(k.clone()),
            ParseError::UnknownKeyword(k) => ParseError::UnknownKeyword(k.clone()),
            ParseError::ParseIntError(e) => ParseError::ParseIntError(e.clone()),
            ParseError::VerbosityError(k) => ParseError::VerbosityError(k.clone()),
            ParseError::Help => ParseError::Help,
        }
    }
}

impl From<std::num::ParseIntError> for ParseError {
    fn from(error: std::num::ParseIntError) -> (r: Self) {
        ParseError::ParseIntError(error)
    }
}

impl vstd::std_specs::convert::FromSpecImpl<std::num::ParseIntError> for ParseError {
    open spec fn obeys_from_spec() -> bool {
        true
    }

    open spec fn from_spec(v: std::num::ParseIntError) -> Self {
        ParseError::ParseIntError(v)
    }
}

/// The usage text shown when help is asked for.
pub const HELP_TEXT: &'static str = "cargo run -- keywords drivers\n\
                keywords are:\n\
                 --capacity, -c   : message queue capacity, 0 is unbounded\n\
                 --pipelines, -p  : count of forwarding elements in a lane\n\
                 --lanes, -l      : count of lanes\n\
                 --messages, -m   : count of messages per lane\n\
                 --threads, -t    : count of threads async executor will use\n\
                 --verbosity, -v  : verbosity level for logging: none, all, notify\n\
                 --iterations, -i : count of iterations to run\n\
                drivers are: smol, fast_channel, async_channel, flume_tokio, flume_async_executor";

impl ParseError {
    /// The text that reports this error to the user.
    pub fn message(&self) -> (t: String)
        ensures
            match self {
                ParseError::MissingValue(k) => t@ == "missing value for "@ + k@,
                ParseError::UnknownKeyword(k) => t@ == "unknown keyword "@ + k@,
                ParseError::VerbosityError(k) => t@ == "unknown verbosity keywork "@ + k@,
                ParseError::Help => t@ == HELP_TEXT@,
                ParseError::ParseIntError(e) => vstd::string::to_string_from_display_ensures::<std::num::ParseIntError>(e, t),
            },
    {
        match self {
            ParseError::MissingValue(keyword) => "missing value for ".to_owned().concat(keyword.as_str()),
            ParseError::UnknownKeyword(keyword) => "unknown keyword ".to_owned().concat(keyword.as_str()),
            ParseError::ParseIntError(err) => err.to_string(),
            ParseError::VerbosityError(keyword) => "unknown verbosity keywork ".to_owned().concat(keyword.as_str()),
            ParseError::Help => HELP_TEXT.to_owned(),
        }
    }
}

/// The failure that the grammar assigns to a command line, by the text involved.
pub enum ParseFailure {
    MissingValue(Seq<char>),
    UnknownKeyword(Seq<char>),
    /// The text that did not parse as a number.
    BadNumber(Seq<char>),
    VerbosityError(Seq<char>),
    Help,
}

/// Whether the error `e` is the failure `f`.
pub open spec fn error_is(e: ParseError, f: ParseFailure) -> bool {
    match f {
        ParseFailure::MissingValue(k) => e matches ParseError::MissingValue(s) && s@ == k,
        ParseFailure::UnknownKeyword(k) => e matches ParseError::UnknownKeyword(s) && s@ == k,
        ParseFailure::BadNumber(v) => e matches ParseError::ParseIntError(x) && x == crate::text::parse_failure(v),
        ParseFailure::VerbosityError(k) => e matches ParseError::VerbosityError(s) && s@ == k,
        ParseFailure::Help => e is Help,
    }
}

/// The experiment drivers that can be named on the command line.
#[derive(Debug, Copy, Clone, PartialEq, Eq, Structural)]
pub enum DriverKind {
    Smol,
    AsyncChannel,
    Forwarder,
    FlumeTokio,
    FlumeAsyncExecutor,
    Tokio,
}

/// Configuration for the experiments and the drivers to run them with, in the
/// order they were named.
pub struct ExperimentDrivers {
    pub config: ExperimentConfig,
    pub drivers: Vec<DriverKind>,
}

impl Default for ExperimentDrivers {
    fn default() -> (d: Self)
        ensures
            d.config == default_config(),
            d.drivers@ == Seq::<DriverKind>::empty(),
    {
        ExperimentDrivers { config: ExperimentConfig::default(), drivers: Vec::new() }
    }
}

/// The values of the configuration that a keyword sets.
pub enum Setting {
    Capacity,
    Pipelines,
    Lanes,
    Messages,
    Iterations,
    Threads,
    Verbosity,
}

/// The setting that argument `a` names, in its long or short form.
pub open spec fn setting_named(a: Seq<char>) -> Option<Setting> {
    if a == "--capacity"@ || a == "-c"@ {
        Some(Setting::Capacity)
    } else if a == "--pipelines"@ || a == "-p"@ {
        Some(Setting::Pipelines)
    } else if a == "--lanes"@ || a == "-l"@ {
        Some(Setting::Lanes)
    } else if a == "--messages"@ || a == "-m"@ {
        Some(Setting::Messages)
    } else if a == "--iterations"@ || a == "-i"@ {
        Some(Setting::Iterations)
    } else if a == "--threads"@ || a == "-t"@ {
        Some(Setting::Threads)
    } else if a == "--verbosity"@ || a == "-v"@ {
        Some(Setting::Verbosity)
    } else {
        None
    }
}

/// Whether argument `a` asks for help.
pub open spec fn asks_help(a: Seq<char>) -> bool {
    a == "--help"@ || a == "-h"@
}

/// The driver that argument `a` names.
pub open spec fn driver_named(a: Seq<char>) -> Option<DriverKind> {
    if a == "smol"@ {
        Some(DriverKind::Smol)
    } else if a == "async_channel"@ {
        Some(DriverKind::AsyncChannel)
    } else if a == "forwarder"@ {
        Some(DriverKind::Forwarder)
    } else if a == "flume_tokio"@ {
        Some(DriverKind::FlumeTokio)
    } else if a == "flume_async_executor"@ {
        Some(DriverKind::FlumeAsyncExecutor)
    } else if a == "tokio"@ {
        Some(DriverKind::Tokio)
    } else {
        None
    }
}

/// The verbosity that `s` names.
pub open spec fn verbosity_named(s: Seq<char>) -> Option<Verbosity> {
    if s == "none"@ {
        Some(Verbosity::Off)
    } else if s == "all"@ {
        Some(Verbosity::All)
    } else if s == "notify"@ {
        Some(Verbosity::Notify)
    } else {
        None
    }
}

/// The configuration `c` with `setting` given the text `value`.
pub open spec fn apply_setting(c: ExperimentConfig, setting: Setting, value: Seq<char>) -> Result<ExperimentConfig, ParseFailure> {
    match setting {
        Setting::Verbosity => match verbosity_named(value) {
            Some(v) => Ok(ExperimentConfig { verbosity: v, ..c }),
            None => Err(ParseFailure::VerbosityError(value)),
        },
        _ => match parsed_usize(value) {
            Some(n) => Ok(
                match setting {
                    Setting::Capacity => ExperimentConfig { capacity: n, ..c },
                    Setting::Pipelines => ExperimentConfig { pipelines: n, ..c },
                    Setting::Lanes => ExperimentConfig { lanes: n, ..c },
                    Setting::Messages => ExperimentConfig { messages: n, ..c },
                    Setting::Iterations => ExperimentConfig { iterations: n, ..c },
                    _ => ExperimentConfig { threads: n, ..c },
                },
            ),
            None => Err(ParseFailure::BadNumber(value)),
        },
    }
}

/// Reading `args` from index `idx` on, with the configuration and drivers read so far.
pub open spec fn parse_from(args: Seq<Seq<char>>, idx: int, c: ExperimentConfig, drivers: Seq<DriverKind>)
    -> Result<(ExperimentConfig, Seq<DriverKind>), ParseFailure>
    decreases args.len() - idx,
{
    if idx < 0 || idx >= args.len() {
        Ok((c, drivers))
    } else {
        let a = args[idx];
        match setting_named(a) {
            Some(setting) => {
                if idx + 1 >= args.len() {
                    Err(ParseFailure::MissingValue(a))
                } else {
                    match apply_setting(c, setting, args[idx + 1]) {
                        Ok(c2) => parse_from(args, idx + 2, c2, drivers),
                        Err(f) => Err(f),
                    }
                }
            },
            None => {
                if asks_help(a) {
                    Err(ParseFailure::Help)
                } else {
                    match driver_named(a) {
                        Some(d) => parse_from(args, idx + 1, c, drivers.push(d)),
                        None => Err(ParseFailure::UnknownKeyword(a)),
                    }
                }
            },
        }
    }
}

/// What a command line (program name first) configures: reading starts after
/// the program name, from the default configuration and no drivers.
pub open spec fn parse_command_line(args: Seq<Seq<char>>) -> Result<(ExperimentConfig, Seq<DriverKind>), ParseFailure> {
    parse_from(args, 1, default_config(), Seq::empty())
}

/// The texts of the arguments.
pub open spec fn arg_texts(args: Seq<String>) -> Seq<Seq<char>> {
    args.map_values(|a: String| a@)
}

/// Whether `a` is the text `word`.
fn is_word(a: &String, word: &str) -> (b: bool)
    ensures
        b == (a@ == word@),
{
    let w: String = word.to_owned();
    *a == w
}

/// The setting that `a` names.
fn find_setting(a: &String) -> (s: Option<Setting>)
    ensures
        s == setting_named(a@),
{
    if is_word(a, "--capacity") || is_word(a, "-c") {
        Some(Setting::Capacity)
    } else if is_word(a, "--pipelines") || is_word(a, "-p") {
        Some(Setting::Pipelines)
    } else if is_word(a, "--lanes") || is_word(a, "-l") {
        Some(Setting::Lanes)
    } else if is_word(a, "--messages") || is_word(a, "-m") {
        Some(Setting::Messages)
    } else if is_word(a, "--iterations") || is_word(a, "-i") {
        Some(Setting::Iterations)
    } else if is_word(a, "--threads") || is_word(a, "-t") {
        Some(Setting::Threads)
    } else if is_word(a, "--verbosity") || is_word(a, "-v") {
        Some(Setting::Verbosity)
    } else {
        None
    }
}

/// The driver that `a` names.
fn find_driver(a: &String) -> (d: Option<DriverKind>)
    ensures
        d == driver_named(a@),
{
    if is_word(a, "smol") {
        Some(DriverKind::Smol)
    } else if is_word(a, "async_channel") {
        Some(DriverKind::AsyncChannel)
    } else if is_word(a, "forwarder") {
        Some(DriverKind::Forwarder)
    } else if is_word(a, "flume_tokio") {
        Some(DriverKind::FlumeTokio)
    } else if is_word(a, "flume_async_executor") {
        Some(DriverKind::FlumeAsyncExecutor)
    } else if is_word(a, "tokio") {
        Some(DriverKind::Tokio)
    } else {
        None
    }
}

impl Verbosity {
    /// Parse a verbosity level: "none", "all" or "notify".
    pub fn from_name(s: &String) -> (r: Result<Verbosity, ParseError>)
        ensures
            match verbosity_named(s@) {
                Some(v) => r == Ok::<Verbosity, ParseError>(v),
                None => r matches Err(ParseError::VerbosityError(t)) && t@ == s@,
            },
    {
        if is_word(s, "none") {
            Ok(Verbosity::Off)
        } else if is_word(s, "all") {
            Ok(Verbosity::All)
        } else if is_word(s, "notify") {
            Ok(Verbosity::Notify)
        } else {
            Err(ParseError::VerbosityError(s.clone()))
        }
    }
}

impl std::str::FromStr for Verbosity {
    type Err = ParseError;

    fn from_str(s: &str) -> (r: Result<Self, Self::Err>)
        ensures
            match verbosity_named(s@) {
                Some(v) => r == Ok::<Verbosity, ParseError>(v),
                None => r matches Err(ParseError::VerbosityError(t)) && t@ == s@,
            },
    {
        let owned: String = s.to_owned();
        Verbosity::from_name(&owned)
    }
}

/// Apply `setting` with the text `value` to `config`.
fn set_value(config: &mut ExperimentConfig, setting: Setting, value: &String) -> (r: Result<(), ParseError>)
    ensures
        match apply_setting(*old(config), setting, value@) {
            Ok(c) => r is Ok && *final(config) == c,
            Err(f) => r matches Err(e) && error_is(e, f),
        },
{
    match setting {
        Setting::Verbosity => {
            match Verbosity::from_name(value) {
                Ok(v) => {
                    config.verbosity = v;
                    Ok(())
                },
                Err(e) => Err(e),
            }
        },
        _ => {
            match parse_usize(value.as_str()) {
                Ok(n) => {
                    match setting {
                        Setting::Capacity => config.capacity = n,
                        Setting::Pipelines => config.pipelines = n,
                        Setting::Lanes => config.lanes = n,
                        Setting::Messages => config.messages = n,
                        Setting::Iterations => config.iterations = n,
                        _ => config.threads = n,
                    }
                    Ok(())
                },
                Err(e) => Err(ParseError::ParseIntError(e)),
            }
        },
    }
}

/// Read the configuration and the drivers from the command line `args`, whose
/// first element is the program name. Keywords with a value set the value;
/// `--help` (or `-h`) stops with `ParseError::Help`; a driver name adds that
/// driver; anything else is an unknown keyword.
pub fn get_config(args: &Vec<String>) -> (r: Result<ExperimentDrivers, ParseError>)
    ensures
        match parse_command_line(arg_texts(args@)) {
            Ok((c, ds)) => r matches Ok(d) && d.config == c && d.drivers@ == ds,
            Err(f) => r matches Err(e) && error_is(e, f),
        },
{
    let ghost texts = arg_texts(args@);
    let defaults = ExperimentDrivers::default();
    let mut config = defaults.config;
    let mut drivers: Vec<DriverKind> = defaults.drivers;
    let mut idx: usize = 1;
    while idx < args.len()
        invariant
            texts == arg_texts(args@),
            texts.len() == args@.len(),
            1 <= idx,
            parse_command_line(texts) == parse_from(texts, idx as int, config, drivers@),
        decreases args.len() - idx,
    {
        let a = &args[idx];
        assert(texts[idx as int] == a@);
        match find_setting(a) {
            Some(setting) => {
                if idx + 1 >= args.len() {
                    return Err(ParseError::MissingValue(a.clone()));
                }
                assert(texts[idx + 1] == args@[idx + 1]@);
                match set_value(&mut config, setting, &args[idx + 1]) {
                    Ok(()) => {},
                    Err(e) => return Err(e),
                }
                idx = idx + 2;
            },
            None => {
                if is_word(a, "--help") || is_word(a, "-h") {
                    return Err(ParseError::Help);
                }
                match find_driver(a) {
                    Some(d) => {
                        drivers.push(d);
                        idx = idx + 1;
                    },
                    None => return Err(ParseError::UnknownKeyword(a.clone())),
                }
            },
        }
    }
    Ok(ExperimentDrivers { config, drivers })
}

} // verus!
