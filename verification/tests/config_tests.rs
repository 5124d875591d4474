use experiment_lib::cmd_line_parser::{get_config, DriverKind, ParseError, HELP_TEXT};
use experiment_lib::config::{ExperimentConfig, Verbosity};

fn args(list: &[&str]) -> Vec<String> {
    let mut v = vec!["experiment".to_string()];
    for a in list {
        v.push(a.to_string());
    }
    v
}

#[test]
fn default_config_values() {
    let c = ExperimentConfig::default();
    assert_eq!(c.capacity, 5000);
    assert_eq!(c.pipelines, 5);
    assert_eq!(c.lanes, 4000);
    assert_eq!(c.messages, 100);
    assert_eq!(c.iterations, 1);
    assert_eq!(c.threads, 1);
    assert_eq!(c.verbosity, Verbosity::Off);
    assert_eq!(Verbosity::default(), Verbosity::Off);
}

#[test]
fn no_arguments_gives_defaults() {
    let d = get_config(&args(&[])).ok().unwrap();
    assert_eq!(d.config.capacity, 5000);
    assert_eq!(d.config.lanes, 4000);
    assert!(d.drivers.is_empty());
}

#[test]
fn long_and_short_keywords_set_values() {
    let d = get_config(&args(&[
        "--capacity", "10", "-p", "3", "--lanes", "7", "-m", "20", "-i", "2", "--threads", "4", "-v", "notify",
    ]))
    .ok()
    .unwrap();
    assert_eq!(d.config.capacity, 10);
    assert_eq!(d.config.pipelines, 3);
    assert_eq!(d.config.lanes, 7);
    assert_eq!(d.config.messages, 20);
    assert_eq!(d.config.iterations, 2);
    assert_eq!(d.config.threads, 4);
    assert_eq!(d.config.verbosity, Verbosity::Notify);
}

#[test]
fn drivers_are_kept_in_order() {
    let d = get_config(&args(&["tokio", "smol", "-c", "0", "flume_async_executor", "forwarder", "async_channel", "flume_tokio"]))
        .ok()
        .unwrap();
    assert_eq!(
        d.drivers,
        vec![
            DriverKind::Tokio,
            DriverKind::Smol,
            DriverKind::FlumeAsyncExecutor,
            DriverKind::Forwarder,
            DriverKind::AsyncChannel,
            DriverKind::FlumeTokio
        ]
    );
    assert_eq!(d.config.capacity, 0);
}

#[test]
fn plus_sign_is_accepted_in_numbers() {
    let d = get_config(&args(&["-l", "+12"])).ok().unwrap();
    assert_eq!(d.config.lanes, 12);
}

#[test]
fn later_values_override_earlier_ones() {
    let d = get_config(&args(&["-m", "1", "--messages", "2"])).ok().unwrap();
    assert_eq!(d.config.messages, 2);
}

#[test]
fn missing_value_is_reported() {
    match get_config(&args(&["smol", "--lanes"])) {
        Err(ParseError::MissingValue(k)) => assert_eq!(k, "--lanes"),
        _ => panic!("expected a missing value"),
    }
}

#[test]
fn unknown_keyword_is_reported() {
    match get_config(&args(&["--bogus", "1"])) {
        Err(ParseError::UnknownKeyword(k)) => assert_eq!(k, "--bogus"),
        _ => panic!("expected an unknown keyword"),
    }
    // the program name itself is never read
    assert!(get_config(&vec!["--bogus".to_string()]).is_ok());
}

#[test]
fn bad_numbers_are_reported() {
    for bad in ["", "-1", "12a", " 3", "+", "99999999999999999999999999"] {
        match get_config(&args(&["-c", bad])) {
            Err(ParseError::ParseIntError(_)) => {},
            _ => panic!("expected a parse error for {:?}", bad),
        }
    }
}

#[test]
fn bad_verbosity_is_reported() {
    match get_config(&args(&["-v", "loud"])) {
        Err(ParseError::VerbosityError(k)) => assert_eq!(k, "loud"),
        _ => panic!("expected a verbosity error"),
    }
    let d = get_config(&args(&["-v", "all"])).ok().unwrap();
    assert_eq!(d.config.verbosity, Verbosity::All);
    let d = get_config(&args(&["-v", "none"])).ok().unwrap();
    assert_eq!(d.config.verbosity, Verbosity::Off);
}

#[test]
fn help_stops_reading() {
    assert!(matches!(get_config(&args(&["-h", "--bogus"])), Err(ParseError::Help)));
    assert!(matches!(get_config(&args(&["smol", "--help"])), Err(ParseError::Help)));
}

#[test]
fn verbosity_parses_from_str() {
    assert_eq!("all".parse::<Verbosity>().ok(), Some(Verbosity::All));
    assert_eq!("none".parse::<Verbosity>().ok(), Some(Verbosity::Off));
    assert_eq!("notify".parse::<Verbosity>().ok(), Some(Verbosity::Notify));
    assert!(matches!("None".parse::<Verbosity>(), Err(ParseError::VerbosityError(_))));
    assert!(matches!(Verbosity::from_name(&"quiet".to_string()), Err(ParseError::VerbosityError(_))));
}

#[test]
fn error_messages() {
    assert_eq!(ParseError::MissingValue("-c".to_string()).message(), "missing value for -c");
    assert_eq!(ParseError::UnknownKeyword("x".to_string()).message(), "unknown keyword x");
    assert_eq!(ParseError::VerbosityError("loud".to_string()).message(), "unknown verbosity keywork loud");
    assert_eq!(ParseError::Help.message(), HELP_TEXT);
    assert!(HELP_TEXT.starts_with("cargo run -- keywords drivers\nkeywords are:\n--capacity, -c   :"));
    assert!(HELP_TEXT.ends_with("drivers are: smol, fast_channel, async_channel, flume_tokio, flume_async_executor"));
    let e = "x".parse::<usize>().err().unwrap();
    assert_eq!(ParseError::ParseIntError(e.clone()).message(), e.to_string());
    let from: ParseError = e.into();
    assert!(matches!(from, ParseError::ParseIntError(_)));
}

#[test]
fn parse_errors_clone() {
    let e = ParseError::MissingValue("-c".to_string());
    assert!(matches!(e.clone(), ParseError::MissingValue(k) if k == "-c"));
    let p = ParseError::ParseIntError("abc".parse::<usize>().err().unwrap());
    assert_eq!(p.clone().message(), "invalid digit found in string");
}

#[test]
fn long_and_short_forms_read_alike() {
    let long = get_config(&args(&["--capacity", "3", "--verbosity", "all", "smol"])).ok().unwrap();
    let short = get_config(&args(&["-c", "3", "-v", "all", "smol"])).ok().unwrap();
    assert_eq!(long.config.capacity, short.config.capacity);
    assert_eq!(long.config.verbosity, short.config.verbosity);
    assert_eq!(long.drivers, short.drivers);
    assert!(matches!(get_config(&args(&["-c", "--lanes"])), Err(ParseError::ParseIntError(_))));
    assert!(matches!(get_config(&args(&["-c", "-l"])), Err(ParseError::ParseIntError(_))));
}
