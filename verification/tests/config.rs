use getopts::{Fail, Options};
use imk::cli::Matched;
use imk::command::Command;
use imk::config::{parse, usage, Config, ConfigError, Invocation};

fn args(items: &[&str]) -> Vec<String> {
    items.iter().map(|s| s.to_string()).collect()
}

fn run_of(items: &[&str]) -> Config {
    match parse(&args(items)) {
        Ok(Invocation::Run(config)) => config,
        other => panic!("{:?}", other),
    }
}

fn error_of(items: &[&str]) -> ConfigError {
    match parse(&args(items)) {
        Err(e) => e,
        other => panic!("{:?}", other),
    }
}

fn matched(command: &str, files: &[&str]) -> Matched {
    Matched {
        help: false,
        command: Some(command.to_string()),
        teardown: None,
        kill_timeout: None,
        once: false,
        recurse: false,
        wrap_shell: false,
        threshold: None,
        files: args(files),
    }
}

/// The options of the program, declared on `getopts` directly.
fn reference_options() -> Options {
    let mut opts = Options::new();
    opts.optopt("c", "command", "command to execute when file is modified", "<COMMAND>");
    opts.optopt(
        "d",
        "teardown",
        "command to execute after the command process is killed (required -k)",
        "<COMMAND>",
    );
    opts.optflag("h", "help", "display this help text and exit");
    opts.optopt(
        "k",
        "kill-timeout",
        "kill the command after timeout (default: 0ms)",
        "<KILL-TIMEOUT>",
    );
    opts.optflag("o", "once", "run command once and exit on event.");
    opts.optflag(
        "r",
        "recurse",
        "if a directory is supplied, add all its sub-directories as well",
    );
    opts.optflag(
        "s",
        "wrap-shell",
        "run the provided command in a shell. Eg. /bin/sh -c <command>.",
    );
    opts.optopt(
        "t",
        "threshold",
        "number of seconds to skip after the last executed command (default: 0)",
        "<THRESHOLD>",
    );
    opts
}

#[test]
fn minimal_command_line() {
    let config = run_of(&["-c", "make", "src/main.rs"]);
    assert_eq!(config.command(), &Command::new(false, false, None, "make".to_string(), None));
    assert_eq!(config.files(), &args(&["src/main.rs"]));
    assert_eq!(config.threshold(), 0);
    assert_eq!(config.threshold, 0);
    assert!(!config.recurse());
}

#[test]
fn every_option_by_its_short_name() {
    let config = run_of(&[
        "-c", "make test", "-d", "pkill make", "-k", "1500", "-o", "-r", "-s", "-t", "3", "a", "b",
    ]);
    assert_eq!(
        config.command(),
        &Command::new(true, true, Some(1500), "make test".to_string(), Some("pkill make".to_string()))
    );
    assert_eq!(config.files(), &args(&["a", "b"]));
    assert_eq!(config.threshold(), 3);
    assert!(config.recurse());
}

#[test]
fn every_option_by_its_long_name() {
    let config = run_of(&[
        "--command=make",
        "--teardown",
        "stop",
        "--kill-timeout=200",
        "--once",
        "--recurse",
        "--wrap-shell",
        "--threshold",
        "10",
        "dir",
    ]);
    assert_eq!(
        config.command(),
        &Command::new(true, true, Some(200), "make".to_string(), Some("stop".to_string()))
    );
    assert_eq!(config.files(), &args(&["dir"]));
    assert_eq!(config.threshold(), 10);
    assert!(config.recurse());
}

#[test]
fn options_and_paths_may_be_mixed() {
    let config = run_of(&["a", "-o", "b", "-c", "make", "c"]);
    assert_eq!(config.files(), &args(&["a", "b", "c"]));
    assert!(config.command().once());
}

#[test]
fn clustered_flags_and_attached_value() {
    let config = run_of(&["-ors", "-cmake", "x"]);
    assert!(config.command().once());
    assert!(config.command().wrap_shell());
    assert!(config.recurse());
    assert_eq!(config.command().command(), "make");
}

#[test]
fn paths_after_double_dash() {
    let config = run_of(&["-c", "make", "--", "-o", "x"]);
    assert_eq!(config.files(), &args(&["-o", "x"]));
    assert!(!config.command().once());
}

#[test]
fn empty_command_is_taken_as_it_is() {
    let config = run_of(&["-c", "", "x"]);
    assert_eq!(config.command().command(), "");
    let config = run_of(&["--command=", "x"]);
    assert_eq!(config.command().command(), "");
}

#[test]
fn value_that_looks_like_an_option() {
    let config = run_of(&["-c", "-h", "x"]);
    assert_eq!(config.command().command(), "-h");
    let config = run_of(&["-c", "make", "-d", "--once", "-k", "1", "x"]);
    assert_eq!(config.command().teardown(), &Some("--once".to_string()));
    assert!(!config.command().once());
}

#[test]
fn single_dash_is_a_path() {
    let config = run_of(&["-c", "make", "-"]);
    assert_eq!(config.files(), &args(&["-"]));
}

#[test]
fn duplicate_paths_are_kept() {
    let config = run_of(&["-c", "make", "a", "a", "b", "a"]);
    assert_eq!(config.files(), &args(&["a", "a", "b", "a"]));
}

#[test]
fn help_is_asked_for() {
    assert_eq!(parse(&args(&["-c", "make", "-h"])), Ok(Invocation::Help));
    assert_eq!(parse(&args(&["--help", "-c", "make", "x"])), Ok(Invocation::Help));
}

#[test]
fn help_alone_is_asked_for() {
    assert_eq!(parse(&args(&["-h"])), Ok(Invocation::Help));
    assert_eq!(parse(&args(&["--help"])), Ok(Invocation::Help));
}

#[test]
fn help_comes_before_every_other_complaint() {
    assert_eq!(parse(&args(&["-h", "x"])), Ok(Invocation::Help));
    assert_eq!(parse(&args(&["-c", "make", "-k", "soon", "-h"])), Ok(Invocation::Help));
    assert_eq!(parse(&args(&["-t", "never", "--help"])), Ok(Invocation::Help));
}

#[test]
fn help_does_not_excuse_what_the_parser_refuses() {
    assert_eq!(error_of(&["-h", "-x"]), ConfigError::UnrecognizedOption("x".to_string()));
    assert_eq!(error_of(&["-h", "-h"]), ConfigError::OptionDuplicated("help".to_string()));
    assert_eq!(error_of(&["-h", "-c"]), ConfigError::ArgumentMissing("c".to_string()));
}

#[test]
fn missing_command() {
    assert_eq!(error_of(&["x"]), ConfigError::OptionMissing("command".to_string()));
    assert_eq!(error_of(&[]), ConfigError::OptionMissing("command".to_string()));
}

#[test]
fn missing_files() {
    assert_eq!(error_of(&["-c", "make"]), ConfigError::NoFiles);
    assert_eq!(error_of(&["-c", "make", "-o", "-t", "1"]), ConfigError::NoFiles);
}

#[test]
fn unknown_option() {
    assert_eq!(error_of(&["-c", "make", "-x", "f"]), ConfigError::UnrecognizedOption("x".to_string()));
    assert_eq!(
        error_of(&["-c", "make", "--verbose", "f"]),
        ConfigError::UnrecognizedOption("verbose".to_string())
    );
}

#[test]
fn option_without_its_value() {
    assert_eq!(error_of(&["f", "-c"]), ConfigError::ArgumentMissing("c".to_string()));
    assert_eq!(error_of(&["-c", "make", "f", "-k"]), ConfigError::ArgumentMissing("k".to_string()));
}

#[test]
fn option_given_twice() {
    assert_eq!(
        error_of(&["-c", "a", "-c", "b", "f"]),
        ConfigError::OptionDuplicated("command".to_string())
    );
    assert_eq!(
        error_of(&["-c", "a", "-o", "--once", "f"]),
        ConfigError::OptionDuplicated("once".to_string())
    );
}

#[test]
fn flag_with_a_value() {
    assert_eq!(
        error_of(&["-c", "a", "--once=yes", "f"]),
        ConfigError::UnexpectedArgument("once".to_string())
    );
}

fn invalid(option: &str, value: &str) -> ConfigError {
    ConfigError::InvalidNumber { option: option.to_string(), value: value.to_string() }
}

#[test]
fn timeout_that_is_no_number_is_an_error() {
    assert_eq!(error_of(&["-c", "make", "-k", "abc", "a.txt"]), invalid("kill-timeout", "abc"));
    assert_eq!(
        error_of(&["-c", "make", "-k", "soon", "-d", "stop", "x"]),
        invalid("kill-timeout", "soon")
    );
    assert_eq!(error_of(&["-c", "make", "--kill-timeout=", "x"]), invalid("kill-timeout", ""));
    assert_eq!(error_of(&["-c", "make", "-k", "1.5", "x"]), invalid("kill-timeout", "1.5"));
    assert_eq!(error_of(&["-c", "make", "-k", "200ms", "x"]), invalid("kill-timeout", "200ms"));
}

#[test]
fn timeout_too_large_is_an_error() {
    assert_eq!(
        error_of(&["-c", "make", "-k", "18446744073709551616", "x"]),
        invalid("kill-timeout", "18446744073709551616")
    );
    let config = run_of(&["-c", "make", "-k", "18446744073709551615", "x"]);
    assert_eq!(config.command().timeout_ms(), Some(u64::MAX));
}

#[test]
fn negative_timeout_is_an_error() {
    assert_eq!(error_of(&["-c", "make", "-k=-5", "x"]), invalid("kill-timeout", "=-5"));
    assert_eq!(error_of(&["-c", "make", "--kill-timeout=-5", "x"]), invalid("kill-timeout", "-5"));
}

#[test]
fn timeout_of_zero_and_with_a_plus_sign() {
    assert_eq!(run_of(&["-c", "make", "-k", "0", "x"]).command().timeout_ms(), Some(0));
    assert_eq!(run_of(&["-c", "make", "-k", "+250", "x"]).command().timeout_ms(), Some(250));
    assert_eq!(run_of(&["-c", "make", "-k", "007", "x"]).command().timeout_ms(), Some(7));
}

#[test]
fn threshold_that_is_no_number_is_an_error() {
    assert_eq!(error_of(&["-c", "make", "-t", "1.5", "x"]), invalid("threshold", "1.5"));
    assert_eq!(error_of(&["-c", "make", "-t", "", "x"]), invalid("threshold", ""));
    assert_eq!(error_of(&["-c", "make", "-t", "-1", "x"]), invalid("threshold", "-1"));
    assert_eq!(
        error_of(&["-c", "make", "-t", "18446744073709551616", "x"]),
        invalid("threshold", "18446744073709551616")
    );
    assert_eq!(run_of(&["-c", "make", "-t", "+7", "x"]).threshold(), 7);
    assert_eq!(run_of(&["-c", "make", "-t", "0", "x"]).threshold(), 0);
}

#[test]
fn complaints_come_in_a_fixed_order() {
    assert_eq!(
        error_of(&["-k", "a", "-t", "b"]),
        ConfigError::OptionMissing("command".to_string())
    );
    assert_eq!(error_of(&["-c", "make", "-k", "a", "-t", "b"]), invalid("kill-timeout", "a"));
    assert_eq!(error_of(&["-c", "make", "-k", "1", "-t", "b"]), invalid("threshold", "b"));
    assert_eq!(error_of(&["-c", "make", "-k", "1", "-t", "2"]), ConfigError::NoFiles);
}

#[test]
fn teardown_without_timeout_is_dropped() {
    let config = run_of(&["-c", "make", "-d", "stop", "x"]);
    assert_eq!(config.command().teardown(), &None);
    assert_eq!(config.command(), &Command::new(false, false, None, "make".to_string(), None));
}

#[test]
fn new_from_matched_values() {
    let mut m = matched("make", &["a"]);
    m.kill_timeout = Some("200".to_string());
    m.teardown = Some("stop".to_string());
    m.threshold = Some("2".to_string());
    m.once = true;
    let config = Config::new(m).unwrap();
    assert_eq!(
        config.command(),
        &Command::new(false, true, Some(200), "make".to_string(), Some("stop".to_string()))
    );
    assert_eq!(config.threshold(), 2);
    assert_eq!(config.files(), &args(&["a"]));
}

#[test]
fn new_ignores_the_help_flag() {
    let mut m = matched("make", &["a"]);
    m.help = true;
    assert!(Config::new(m).is_ok());
}

#[test]
fn new_with_a_value_that_is_no_number() {
    let mut m = matched("make", &["a"]);
    m.kill_timeout = Some("abc".to_string());
    m.teardown = Some("stop".to_string());
    assert_eq!(Config::new(m), Err(invalid("kill-timeout", "abc")));
    let mut m = matched("make", &["a"]);
    m.threshold = Some("abc".to_string());
    assert_eq!(Config::new(m), Err(invalid("threshold", "abc")));
    let mut m = matched("make", &[]);
    m.threshold = Some("abc".to_string());
    assert_eq!(Config::new(m), Err(invalid("threshold", "abc")));
}

#[test]
fn new_without_command_or_files() {
    let mut m = matched("make", &["a"]);
    m.command = None;
    assert_eq!(Config::new(m), Err(ConfigError::OptionMissing("command".to_string())));
    assert_eq!(Config::new(matched("make", &[])), Err(ConfigError::NoFiles));
    let mut m = matched("make", &[]);
    m.command = None;
    assert_eq!(Config::new(m), Err(ConfigError::OptionMissing("command".to_string())));
}

#[test]
fn messages_are_those_of_the_parser() {
    assert_eq!(
        ConfigError::ArgumentMissing("k".to_string()).message(),
        Fail::ArgumentMissing("k".to_string()).to_string()
    );
    assert_eq!(
        ConfigError::UnrecognizedOption("x".to_string()).message(),
        Fail::UnrecognizedOption("x".to_string()).to_string()
    );
    assert_eq!(
        ConfigError::OptionMissing("command".to_string()).message(),
        Fail::OptionMissing("command".to_string()).to_string()
    );
    assert_eq!(
        ConfigError::OptionDuplicated("once".to_string()).message(),
        Fail::OptionDuplicated("once".to_string()).to_string()
    );
    assert_eq!(
        ConfigError::UnexpectedArgument("once".to_string()).message(),
        Fail::UnexpectedArgument("once".to_string()).to_string()
    );
}

#[test]
fn messages_in_full() {
    assert_eq!(
        ConfigError::OptionMissing("command".to_string()).message(),
        "Required option 'command' missing"
    );
    assert_eq!(ConfigError::ArgumentMissing("k".to_string()).message(), "Argument to option 'k' missing");
    assert_eq!(ConfigError::UnrecognizedOption("x".to_string()).message(), "Unrecognized option: 'x'");
    assert_eq!(
        ConfigError::OptionDuplicated("once".to_string()).message(),
        "Option 'once' given more than once"
    );
    assert_eq!(
        ConfigError::UnexpectedArgument("once".to_string()).message(),
        "Option 'once' does not take an argument"
    );
    assert_eq!(ConfigError::NoFiles.message(), "files/directories must be specified");
    assert_eq!(
        invalid("kill-timeout", "abc").message(),
        "Option 'kill-timeout' takes a number, not 'abc'"
    );
    assert_eq!(invalid("threshold", "").message(), "Option 'threshold' takes a number, not ''");
}

#[test]
fn parse_errors_are_those_of_a_parser_with_the_same_options() {
    let lines: [&[&str]; 6] = [
        &["-c", "make", "--command"],
        &["-c"],
        &["-c", "a", "-z", "f"],
        &["-c", "a", "-c", "b"],
        &["-c", "a", "--help=now"],
        &["-c", "a", "-t"],
    ];
    for line in lines.iter() {
        let expected = reference_options().parse(line.iter()).unwrap_err().to_string();
        assert_eq!(error_of(line).message(), expected, "{:?}", line);
    }
}

#[test]
fn usage_is_laid_out_by_the_parser() {
    let brief =
        "Usage: imk -c <cmd> [-d <cmd>] [-h] [-k <kill-timeout>] [-o] [-r] [-s] [-t <threshold>] <files>";
    let expected = format!(
        "{}\n{}\n",
        reference_options().usage(brief),
        "Please use quotes around the command if it is composed of multiple words"
    );
    assert_eq!(usage("imk"), expected);
}

#[test]
fn usage_names_the_program_and_every_option() {
    let text = usage("/usr/local/bin/watch");
    assert!(text.starts_with("Usage: /usr/local/bin/watch -c <cmd> [-d <cmd>] [-h]"));
    assert!(text.contains("\n\nOptions:\n"));
    assert!(text.contains("    -c, --command <COMMAND>"));
    assert!(text.contains("    -d, --teardown <COMMAND>"));
    assert!(text.contains("    -h, --help "));
    assert!(text.contains("    -k, --kill-timeout <KILL-TIMEOUT>"));
    assert!(text.contains("    -o, --once "));
    assert!(text.contains("    -r, --recurse "));
    assert!(text.contains("    -s, --wrap-shell "));
    assert!(text.contains("    -t, --threshold <THRESHOLD>"));
    assert!(text.ends_with(
        "\nPlease use quotes around the command if it is composed of multiple words\n"
    ));
}

#[test]
fn describe_minimal_configuration() {
    assert_eq!(run_of(&["-c", "make", "a"]).describe(), "command[make] files[\"a\"]");
}

#[test]
fn describe_full_configuration() {
    let config = run_of(&["-c", "make", "-k", "5", "-d", "stop", "-o", "-s", "-r", "-t", "2", "a", "b c"]);
    assert_eq!(
        config.describe(),
        "command[make] teardown[stop] timeout_ms[5] wrap_shell once threshold[2] recurse files[\"a\", \"b c\"]"
    );
}

#[test]
fn describe_escapes_paths_as_debug_does() {
    let config = run_of(&["-c", "make", "a\"b", "tab\there", "é"]);
    assert_eq!(
        config.describe(),
        format!("command[make] files{:?}", vec!["a\"b", "tab\there", "é"])
    );
    assert_eq!(config.describe(), "command[make] files[\"a\\\"b\", \"tab\\there\", \"é\"]");
}

#[test]
fn walker_only_where_sub_directories_are_asked_for() {
    assert!(run_of(&["-c", "make", "a"]).walker().is_none());
    let mut walk = run_of(&["-c", "make", "-r", "a", "b"]).walker().unwrap();
    assert_eq!(walk.enriched(), &Vec::<String>::new());
    assert_eq!(walk.walk(), Some("a".to_string()));
    assert_eq!(walk.walk(), Some("b".to_string()));
    assert_eq!(walk.walk(), None);
}

#[test]
fn expanded_replaces_the_paths_only() {
    let config = run_of(&["-c", "make", "-r", "-t", "4", "a"]);
    let wide = config.expanded(args(&["a", "a/b", "a/b/c"]));
    assert_eq!(wide.files(), &args(&["a", "a/b", "a/b/c"]));
    assert_eq!(wide.threshold(), 4);
    assert!(wide.recurse());
    assert_eq!(wide.command(), &Command::new(false, false, None, "make".to_string(), None));
}
