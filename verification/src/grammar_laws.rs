//! Laws of the command line grammar: how a command line reads from left to
//! right, and that the long and short form of a keyword mean the same.
use vstd::prelude::*;
use crate::cmd_line_parser::{
    apply_setting, asks_help, driver_named, parse_command_line, parse_from, setting_named, verbosity_named,
    DriverKind, ParseFailure, Setting,
};
use crate::config::{default_config, ExperimentConfig, Verbosity};
use crate::text::{is_digit, parsed_usize, unsigned_digits};

verus! {

/// Whether `value` is a good value for `setting`: a verbosity name, or a number
/// that parses as a `usize`.
pub open spec fn value_fits(setting: Setting, value: Seq<char>) -> bool {
    match setting {
        Setting::Verbosity => verbosity_named(value) is Some,
        _ => parsed_usize(value) is Some,
    }
}

/// Whether `args` from index `idx` on splits, left to right, into pairs of a
/// keyword and a value good for it, and names of drivers.
pub open spec fn splits_into_pairs_and_drivers(args: Seq<Seq<char>>, idx: int) -> bool
    decreases args.len() - idx,
{
    if idx < 0 || idx >= args.len() {
        true
    } else {
        match setting_named(args[idx]) {
            Some(setting) => idx + 1 < args.len() && value_fits(setting, args[idx + 1])
                && splits_into_pairs_and_drivers(args, idx + 2),
            None => !asks_help(args[idx]) && driver_named(args[idx]) is Some && splits_into_pairs_and_drivers(args, idx + 1),
        }
    }
}

/// The drivers named from index `idx` on, in order, reading left to right.
pub open spec fn drivers_named(args: Seq<Seq<char>>, idx: int) -> Seq<DriverKind>
    decreases args.len() - idx,
{
    if idx < 0 || idx >= args.len() {
        Seq::empty()
    } else {
        match setting_named(args[idx]) {
            Some(_) => if idx + 1 < args.len() { drivers_named(args, idx + 2) } else { Seq::empty() },
            None => match driver_named(args[idx]) {
                Some(d) => seq![d] + drivers_named(args, idx + 1),
                None => Seq::empty(),
            },
        }
    }
}

/// The value of the last keyword that names `setting` from index `idx` on, reading left to right.
pub open spec fn last_value(args: Seq<Seq<char>>, idx: int, setting: Setting) -> Option<Seq<char>>
    decreases args.len() - idx,
{
    if idx < 0 || idx >= args.len() {
        None
    } else {
        match setting_named(args[idx]) {
            Some(s) => if idx + 1 < args.len() {
                match last_value(args, idx + 2, setting) {
                    Some(v) => Some(v),
                    None => if s == setting { Some(args[idx + 1]) } else { None },
                }
            } else {
                None
            },
            None => last_value(args, idx + 1, setting),
        }
    }
}

/// Whether `c1` and `c2` agree on the value that `setting` sets.
pub open spec fn same_value(c1: ExperimentConfig, c2: ExperimentConfig, setting: Setting) -> bool {
    match setting {
        Setting::Capacity => c1.capacity == c2.capacity,
        Setting::Pipelines => c1.pipelines == c2.pipelines,
        Setting::Lanes => c1.lanes == c2.lanes,
        Setting::Messages => c1.messages == c2.messages,
        Setting::Iterations => c1.iterations == c2.iterations,
        Setting::Threads => c1.threads == c2.threads,
        Setting::Verbosity => c1.verbosity == c2.verbosity,
    }
}

/// Reading from index `idx` on, from configuration `c` and drivers `ds`: it
/// succeeds exactly when the rest splits into keyword-value pairs and driver
/// names; then the drivers named are added in order, and every value is the one
/// given with its keyword's last occurrence, or stays as it was.
pub proof fn lemma_reads_left_to_right(args: Seq<Seq<char>>, idx: int, c: ExperimentConfig, ds: Seq<DriverKind>)
    requires
        idx >= 0,
    ensures
        parse_from(args, idx, c, ds) is Ok <==> splits_into_pairs_and_drivers(args, idx),
        parse_from(args, idx, c, ds) matches Ok((cf, dsf)) ==> {
            &&& dsf == ds + drivers_named(args, idx)
            &&& forall|setting: Setting|
                match #[trigger] last_value(args, idx, setting) {
                    Some(v) => apply_setting(cf, setting, v) == Ok::<ExperimentConfig, ParseFailure>(cf),
                    None => same_value(cf, c, setting),
                }
        },
    decreases args.len() - idx,
{
    if idx < args.len() {
        let a = args[idx];
        match setting_named(a) {
            Some(setting) => {
                if idx + 1 < args.len() {
                    let v = args[idx + 1];
                    match apply_setting(c, setting, v) {
                        Ok(c2) => {
                            lemma_reads_left_to_right(args, idx + 2, c2, ds);
                            if let Ok((cf, dsf)) = parse_from(args, idx, c, ds) {
                                assert forall|s2: Setting|
                                    match #[trigger] last_value(args, idx, s2) {
                                        Some(w) => apply_setting(cf, s2, w) == Ok::<ExperimentConfig, ParseFailure>(cf),
                                        None => same_value(cf, c, s2),
                                    } by {
                                    match last_value(args, idx + 2, s2) {
                                        Some(w) => {},
                                        None => {
                                            assert(same_value(cf, c2, s2));
                                        },
                                    }
                                }
                            }
                        },
                        Err(_) => {},
                    }
                }
            },
            None => {
                if !asks_help(a) {
                    match driver_named(a) {
                        Some(d) => {
                            lemma_reads_left_to_right(args, idx + 1, c, ds.push(d));
                            if let Ok((cf, dsf)) = parse_from(args, idx, c, ds) {
                                assert(ds.push(d) + drivers_named(args, idx + 1) =~= ds + (seq![d] + drivers_named(
                                    args,
                                    idx + 1,
                                )));
                                assert forall|s2: Setting|
                                    match #[trigger] last_value(args, idx, s2) {
                                        Some(w) => apply_setting(cf, s2, w) == Ok::<ExperimentConfig, ParseFailure>(cf),
                                        None => same_value(cf, c, s2),
                                    } by {
                                    assert(last_value(args, idx, s2) == last_value(args, idx + 1, s2));
                                }
                            }
                        },
                        None => {},
                    }
                }
            },
        }
    } else {
        assert(ds + drivers_named(args, idx) =~= ds);
        assert forall|s2: Setting|
            match #[trigger] last_value(args, idx, s2) {
                Some(w) => apply_setting(c, s2, w) == Ok::<ExperimentConfig, ParseFailure>(c),
                None => same_value(c, c, s2),
            } by {
            assert(last_value(args, idx, s2) is None);
        }
    }
}

/// A command line, program name first, is read from left to right: it succeeds
/// exactly when what follows the program name splits into keyword-value pairs
/// and driver names. Then the drivers are those named, in order, and each value
/// of the configuration is the one given with its keyword's last occurrence, or
/// the default where no keyword for it occurs.
pub proof fn lemma_command_line_reads_left_to_right(args: Seq<Seq<char>>)
    ensures
        parse_command_line(args) is Ok <==> splits_into_pairs_and_drivers(args, 1),
        parse_command_line(args) matches Ok((c, ds)) ==> {
            &&& ds == drivers_named(args, 1)
            &&& forall|setting: Setting|
                match #[trigger] last_value(args, 1, setting) {
                    Some(v) => apply_setting(c, setting, v) == Ok::<ExperimentConfig, ParseFailure>(c),
                    None => same_value(c, default_config(), setting),
                }
        },
{
    lemma_reads_left_to_right(args, 1, default_config(), Seq::empty());
    if let Ok((c, ds)) = parse_command_line(args) {
        assert(Seq::<DriverKind>::empty() + drivers_named(args, 1) =~= drivers_named(args, 1));
    }
}

/// Whether `a` and `b` are the same word, or two forms (long and short) of one keyword.
pub open spec fn same_keyword(a: Seq<char>, b: Seq<char>) -> bool {
    ||| a == b
    ||| (setting_named(a) is Some && setting_named(a) == setting_named(b))
    ||| (asks_help(a) && asks_help(b))
}

/// Whether two failures are of the same kind.
pub open spec fn same_kind(f1: ParseFailure, f2: ParseFailure) -> bool {
    ||| (f1 is MissingValue && f2 is MissingValue)
    ||| (f1 is UnknownKeyword && f2 is UnknownKeyword)
    ||| (f1 is BadNumber && f2 is BadNumber)
    ||| (f1 is VerbosityError && f2 is VerbosityError)
    ||| (f1 is Help && f2 is Help)
}

/// Whether two readings come out the same: the same configuration and drivers,
/// or failures of the same kind.
pub open spec fn same_outcome(
    r1: Result<(ExperimentConfig, Seq<DriverKind>), ParseFailure>,
    r2: Result<(ExperimentConfig, Seq<DriverKind>), ParseFailure>,
) -> bool {
    match (r1, r2) {
        (Ok(x), Ok(y)) => x == y,
        (Err(f1), Err(f2)) => same_kind(f1, f2),
        _ => false,
    }
}

/// Every keyword, help included, starts with `-`: it is no number, no verbosity
/// name, and the help words name no setting.
proof fn lemma_keywords_are_no_values(a: Seq<char>)
    requires
        setting_named(a) is Some || asks_help(a),
    ensures
        parsed_usize(a) is None,
        verbosity_named(a) is None,
        asks_help(a) ==> setting_named(a) is None,
{
    reveal_strlit("--capacity");
    reveal_strlit("-c");
    reveal_strlit("--pipelines");
    reveal_strlit("-p");
    reveal_strlit("--lanes");
    reveal_strlit("-l");
    reveal_strlit("--messages");
    reveal_strlit("-m");
    reveal_strlit("--iterations");
    reveal_strlit("-i");
    reveal_strlit("--threads");
    reveal_strlit("-t");
    reveal_strlit("--verbosity");
    reveal_strlit("-v");
    reveal_strlit("--help");
    reveal_strlit("-h");
    reveal_strlit("none");
    reveal_strlit("all");
    reveal_strlit("notify");
    assert(a[0] == '-');
    assert(unsigned_digits(a) == a);
    assert(!is_digit(a[0]));
}

/// Writing the long or the short form of a keyword makes no difference: two
/// command lines that differ only in the form of keywords read to the same
/// configuration and drivers, or fail in the same way (a missing value is then
/// reported for the keyword as written).
pub proof fn lemma_keyword_forms_read_alike(
    args1: Seq<Seq<char>>,
    args2: Seq<Seq<char>>,
    idx: int,
    c: ExperimentConfig,
    ds: Seq<DriverKind>,
)
    requires
        idx >= 0,
        args1.len() == args2.len(),
        forall|i: int| idx <= i < args1.len() ==> #[trigger] same_keyword(args1[i], args2[i]),
    ensures
        same_outcome(parse_from(args1, idx, c, ds), parse_from(args2, idx, c, ds)),
    decreases args1.len() - idx,
{
    if idx < args1.len() {
        let a1 = args1[idx];
        let a2 = args2[idx];
        assert(same_keyword(a1, a2));
        if a1 != a2 && asks_help(a1) && asks_help(a2) {
            lemma_keywords_are_no_values(a1);
            lemma_keywords_are_no_values(a2);
        }
        assert(setting_named(a1) == setting_named(a2));
        match setting_named(a1) {
            Some(setting) => {
                if idx + 1 < args1.len() {
                    let v1 = args1[idx + 1];
                    let v2 = args2[idx + 1];
                    assert(same_keyword(v1, v2));
                    if v1 == v2 {
                        match apply_setting(c, setting, v1) {
                            Ok(c2) => {
                                lemma_keyword_forms_read_alike(args1, args2, idx + 2, c2, ds);
                            },
                            Err(_) => {},
                        }
                    } else {
                        lemma_keywords_are_no_values(v1);
                        lemma_keywords_are_no_values(v2);
                    }
                }
            },
            None => {
                if !asks_help(a1) {
                    assert(a1 == a2);
                    match driver_named(a1) {
                        Some(d) => {
                            lemma_keyword_forms_read_alike(args1, args2, idx + 1, c, ds.push(d));
                        },
                        None => {},
                    }
                } else {
                    assert(asks_help(a2));
                }
            },
        }
    }
}

/// Two command lines, program names aside, that differ only in the form of their
/// keywords read to the same configuration and drivers, or fail in the same way.
pub proof fn lemma_command_line_keyword_forms_read_alike(args1: Seq<Seq<char>>, args2: Seq<Seq<char>>)
    requires
        args1.len() == args2.len(),
        forall|i: int| 1 <= i < args1.len() ==> #[trigger] same_keyword(args1[i], args2[i]),
    ensures
        same_outcome(parse_command_line(args1), parse_command_line(args2)),
{
    lemma_keyword_forms_read_alike(args1, args2, 1, default_config(), Seq::empty());
}

// ---------------------------------------------------------------------------
// What each word of the command line means.

/// The reading of a command line that configures `c` and names no driver.
pub open spec fn configures(c: ExperimentConfig) -> Result<(ExperimentConfig, Seq<DriverKind>), ParseFailure> {
    Ok((c, Seq::empty()))
}

/// What a keyword for a number followed by `v` gives: the default configuration
/// with the number `v` in the place that `set` puts it, or `v` reported as a bad number.
pub open spec fn number_reading(v: Seq<char>, set: spec_fn(usize) -> ExperimentConfig) -> Result<
    (ExperimentConfig, Seq<DriverKind>),
    ParseFailure,
> {
    match parsed_usize(v) {
        Some(n) => configures(set(n)),
        None => Err(ParseFailure::BadNumber(v)),
    }
}

proof fn lemma_reveal_words()
    ensures
        "--capacity"@ == seq!['-', '-', 'c', 'a', 'p', 'a', 'c', 'i', 't', 'y'],
        "-c"@ == seq!['-', 'c'],
        "--pipelines"@ == seq!['-', '-', 'p', 'i', 'p', 'e', 'l', 'i', 'n', 'e', 's'],
        "-p"@ == seq!['-', 'p'],
        "--lanes"@ == seq!['-', '-', 'l', 'a', 'n', 'e', 's'],
        "-l"@ == seq!['-', 'l'],
        "--messages"@ == seq!['-', '-', 'm', 'e', 's', 's', 'a', 'g', 'e', 's'],
        "-m"@ == seq!['-', 'm'],
        "--iterations"@ == seq!['-', '-', 'i', 't', 'e', 'r', 'a', 't', 'i', 'o', 'n', 's'],
        "-i"@ == seq!['-', 'i'],
        "--threads"@ == seq!['-', '-', 't', 'h', 'r', 'e', 'a', 'd', 's'],
        "-t"@ == seq!['-', 't'],
        "--verbosity"@ == seq!['-', '-', 'v', 'e', 'r', 'b', 'o', 's', 'i', 't', 'y'],
        "-v"@ == seq!['-', 'v'],
        "--help"@ == seq!['-', '-', 'h', 'e', 'l', 'p'],
        "-h"@ == seq!['-', 'h'],
{
    reveal_strlit("--capacity");
    reveal_strlit("-c");
    reveal_strlit("--pipelines");
    reveal_strlit("-p");
    reveal_strlit("--lanes");
    reveal_strlit("-l");
    reveal_strlit("--messages");
    reveal_strlit("-m");
    reveal_strlit("--iterations");
    reveal_strlit("-i");
    reveal_strlit("--threads");
    reveal_strlit("-t");
    reveal_strlit("--verbosity");
    reveal_strlit("-v");
    reveal_strlit("--help");
    reveal_strlit("-h");
}

/// Each keyword, in its long and its short form, sets its own value of the
/// configuration and no other: a command line of the program name, the keyword
/// and a value reads to the default configuration with that value in its place,
/// or fails on the value.
pub proof fn lemma_each_keyword_sets_its_value(prog: Seq<char>, k: Seq<char>, v: Seq<char>)
    ensures
        k == "--capacity"@ || k == "-c"@ ==> parse_command_line(seq![prog, k, v]) == number_reading(
            v,
            |n: usize| ExperimentConfig { capacity: n, ..default_config() },
        ),
        k == "--pipelines"@ || k == "-p"@ ==> parse_command_line(seq![prog, k, v]) == number_reading(
            v,
            |n: usize| ExperimentConfig { pipelines: n, ..default_config() },
        ),
        k == "--lanes"@ || k == "-l"@ ==> parse_command_line(seq![prog, k, v]) == number_reading(
            v,
            |n: usize| ExperimentConfig { lanes: n, ..default_config() },
        ),
        k == "--messages"@ || k == "-m"@ ==> parse_command_line(seq![prog, k, v]) == number_reading(
            v,
            |n: usize| ExperimentConfig { messages: n, ..default_config() },
        ),
        k == "--iterations"@ || k == "-i"@ ==> parse_command_line(seq![prog, k, v]) == number_reading(
            v,
            |n: usize| ExperimentConfig { iterations: n, ..default_config() },
        ),
        k == "--threads"@ || k == "-t"@ ==> parse_command_line(seq![prog, k, v]) == number_reading(
            v,
            |n: usize| ExperimentConfig { threads: n, ..default_config() },
        ),
        k == "--verbosity"@ || k == "-v"@ ==> parse_command_line(seq![prog, k, v]) == match verbosity_named(v) {
            Some(x) => configures(ExperimentConfig { verbosity: x, ..default_config() }),
            None => Err(ParseFailure::VerbosityError(v)),
        },
{
    lemma_reveal_words();
    reveal_with_fuel(parse_from, 3);
    let args = seq![prog, k, v];
    assert(args[1] == k && args[2] == v && args.len() == 3);
}

/// Help, in its long and short form, stops the reading; a keyword that comes last
/// is reported as missing its value; each driver name names its own driver.
pub proof fn lemma_each_other_word_means_its_own(prog: Seq<char>, w: Seq<char>)
    ensures
        w == "--help"@ || w == "-h"@ ==> parse_command_line(seq![prog, w]) == Err::<
            (ExperimentConfig, Seq<DriverKind>),
            ParseFailure,
        >(ParseFailure::Help),
        setting_named(w) is Some ==> parse_command_line(seq![prog, w]) == Err::<
            (ExperimentConfig, Seq<DriverKind>),
            ParseFailure,
        >(ParseFailure::MissingValue(w)),
        w == "smol"@ ==> parse_command_line(seq![prog, w]) == Ok::<(ExperimentConfig, Seq<DriverKind>), ParseFailure>(
            (default_config(), seq![DriverKind::Smol]),
        ),
        w == "async_channel"@ ==> parse_command_line(seq![prog, w]) == Ok::<(ExperimentConfig, Seq<DriverKind>), ParseFailure>(
            (default_config(), seq![DriverKind::AsyncChannel]),
        ),
        w == "forwarder"@ ==> parse_command_line(seq![prog, w]) == Ok::<(ExperimentConfig, Seq<DriverKind>), ParseFailure>(
            (default_config(), seq![DriverKind::Forwarder]),
        ),
        w == "flume_tokio"@ ==> parse_command_line(seq![prog, w]) == Ok::<(ExperimentConfig, Seq<DriverKind>), ParseFailure>(
            (default_config(), seq![DriverKind::FlumeTokio]),
        ),
        w == "flume_async_executor"@ ==> parse_command_line(seq![prog, w]) == Ok::<
            (ExperimentConfig, Seq<DriverKind>),
            ParseFailure,
        >((default_config(), seq![DriverKind::FlumeAsyncExecutor])),
        w == "tokio"@ ==> parse_command_line(seq![prog, w]) == Ok::<(ExperimentConfig, Seq<DriverKind>), ParseFailure>(
            (default_config(), seq![DriverKind::Tokio]),
        ),
{
    lemma_reveal_words();
    reveal_strlit("smol");
    reveal_strlit("async_channel");
    reveal_strlit("forwarder");
    reveal_strlit("flume_tokio");
    reveal_strlit("flume_async_executor");
    reveal_strlit("tokio");
    reveal_with_fuel(parse_from, 2);
    let args = seq![prog, w];
    assert(args[1] == w && args.len() == 2);
    if driver_named(w) is Some {
        assert(Seq::<DriverKind>::empty().push(driver_named(w)->0) =~= seq![driver_named(w)->0]);
    }
}

/// The three verbosity names name three different levels: "none" is off, "all"
/// is all and "notify" is notify.
pub proof fn lemma_verbosity_names()
    ensures
        verbosity_named("none"@) == Some(Verbosity::Off),
        verbosity_named("all"@) == Some(Verbosity::All),
        verbosity_named("notify"@) == Some(Verbosity::Notify),
{
    reveal_strlit("none");
    reveal_strlit("all");
    reveal_strlit("notify");
    assert("all"@.len() != "none"@.len());
    assert("notify"@.len() != "none"@.len() && "notify"@.len() != "all"@.len());
}

} // verus!
