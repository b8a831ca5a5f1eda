//! The configuration of the program, made from its command line.
//!
//! The command line is parsed in [`crate::cli`]; this module turns what was
//! found there into a [`Config`] or a [`ConfigError`]. One thing here is
//! taken on trust: the list of paths in [`Config::describe`] is written by
//! the formatter of the standard library, in `debug_list`.

use crate::cli::{grammar, parse_outcome, rejection, usage_text, Matched, MatchedView, Parsed, Rejection};
use crate::command::{Command, CommandView};
use crate::text::{decimal, number, parse_u64, texts, to_decimal};
use crate::walker::{Walker, WalkerView};
use vstd::prelude::*;

verus! {

/// Why no configuration could be made.
#[derive(Debug, PartialEq, Eq)]
pub enum ConfigError {
    /// An option that takes a value came without one.
    ArgumentMissing(String),
    /// An option that the program does not know.
    UnrecognizedOption(String),
    /// An option that must be given is absent.
    OptionMissing(String),
    /// An option was given more than once.
    OptionDuplicated(String),
    /// An option that takes no value came with one.
    UnexpectedArgument(String),
    /// An option that takes a number came with a value that writes none.
    InvalidNumber { option: String, value: String },
    /// No path to watch was given.
    NoFiles,
}

/// A configuration error in mathematical form.
pub enum ConfigErrorView {
    /// The command line does not fit the grammar.
    Rejected(Rejection),
    /// The option `option` takes a number, and `value` writes none.
    InvalidNumber { option: Seq<char>, value: Seq<char> },
    /// No path to watch was given.
    NoFiles,
}

impl View for ConfigError {
    type V = ConfigErrorView;

    open spec fn view(&self) -> ConfigErrorView {
        match self {
            ConfigError::ArgumentMissing(name) => ConfigErrorView::Rejected(
                Rejection::ArgumentMissing(name@),
            ),
            ConfigError::UnrecognizedOption(name) => ConfigErrorView::Rejected(
                Rejection::UnrecognizedOption(name@),
            ),
            ConfigError::OptionMissing(name) => ConfigErrorView::Rejected(
                Rejection::OptionMissing(name@),
            ),
            ConfigError::OptionDuplicated(name) => ConfigErrorView::Rejected(
                Rejection::OptionDuplicated(name@),
            ),
            ConfigError::UnexpectedArgument(name) => ConfigErrorView::Rejected(
                Rejection::UnexpectedArgument(name@),
            ),
            ConfigError::InvalidNumber { option, value } => ConfigErrorView::InvalidNumber {
                option: option@,
                value: value@,
            },
            ConfigError::NoFiles => ConfigErrorView::NoFiles,
        }
    }
}

impl ConfigErrorView {
    /// The sentence that tells the user what is wrong.
    pub open spec fn message(self) -> Seq<char> {
        match self {
            ConfigErrorView::Rejected(Rejection::ArgumentMissing(name)) => "Argument to option '"@
                + name + "' missing"@,
            ConfigErrorView::Rejected(Rejection::UnrecognizedOption(name)) =>
                "Unrecognized option: '"@ + name + "'"@,
            ConfigErrorView::Rejected(Rejection::OptionMissing(name)) => "Required option '"@ + name
                + "' missing"@,
            ConfigErrorView::Rejected(Rejection::OptionDuplicated(name)) => "Option '"@ + name
                + "' given more than once"@,
            ConfigErrorView::Rejected(Rejection::UnexpectedArgument(name)) => "Option '"@ + name
                + "' does not take an argument"@,
            ConfigErrorView::InvalidNumber { option, value } => "Option '"@ + option
                + "' takes a number, not '"@ + value + "'"@,
            ConfigErrorView::NoFiles => "files/directories must be specified"@,
        }
    }
}

/// `head`, then `name`, then `tail`.
fn quote(head: &str, name: &String, tail: &str) -> (r: String)
    ensures
        r@ == head@ + name@ + tail@,
{
    let mut r: String = String::from_str(head);
    r.append(name.as_str());
    r.append(tail);
    r
}

impl ConfigError {
    /// The error that stands for a failure of the parser.
    fn from_fail(fail: getopts::Fail) -> (e: ConfigError)
        ensures
            e@ == ConfigErrorView::Rejected(rejection(fail)),
    {
        match fail {
            getopts::Fail::ArgumentMissing(name) => ConfigError::ArgumentMissing(name),
            getopts::Fail::UnrecognizedOption(name) => ConfigError::UnrecognizedOption(name),
            getopts::Fail::OptionMissing(name) => ConfigError::OptionMissing(name),
            getopts::Fail::OptionDuplicated(name) => ConfigError::OptionDuplicated(name),
            getopts::Fail::UnexpectedArgument(name) => ConfigError::UnexpectedArgument(name),
        }
    }

    /// The sentence that tells the user what is wrong.
    pub fn message(&self) -> (r: String)
        ensures
            r@ == self@.message(),
    {
        match self {
            ConfigError::ArgumentMissing(name) => quote("Argument to option '", name, "' missing"),
            ConfigError::UnrecognizedOption(name) => quote("Unrecognized option: '", name, "'"),
            ConfigError::OptionMissing(name) => quote("Required option '", name, "' missing"),
            ConfigError::OptionDuplicated(name) => quote(
                "Option '",
                name,
                "' given more than once",
            ),
            ConfigError::UnexpectedArgument(name) => quote(
                "Option '",
                name,
                "' does not take an argument",
            ),
            ConfigError::InvalidNumber { option, value } => {
                let mut r: String = quote("Option '", option, "' takes a number, not '");
                r.append(value.as_str());
                r.append("'");
                r
            },
            ConfigError::NoFiles => String::from_str("files/directories must be specified"),
        }
    }
}

/// A configuration in mathematical form.
pub struct ConfigView {
    /// Seconds that must pass after a run before the next one.
    pub threshold: u64,
    pub recurse: bool,
    pub command: CommandView,
    pub files: Seq<Seq<char>>,
}

/// The text that the formatter `{:?}` of the standard library writes for a
/// list of strings.
pub uninterp spec fn debug_text(items: Seq<Seq<char>>) -> Seq<char>;

/// `format!` with `{:?}` on a list of strings: the text depends on the
/// strings alone.
#[verifier::external_body]
fn debug_list(items: &Vec<String>) -> (r: String)
    ensures
        r@ == debug_text(texts(items@)),
{
    format!("{:?}", items)
}

impl ConfigView {
    /// The configuration in one line: the command, the threshold unless it
    /// is zero, the flag for sub-directories if it is set, and the paths.
    pub open spec fn describe(self) -> Seq<char> {
        self.command.describe() + " "@ + (if self.threshold > 0 {
            "threshold["@ + decimal(self.threshold as nat) + "] "@
        } else {
            Seq::empty()
        }) + (if self.recurse {
            "recurse "@
        } else {
            Seq::empty()
        }) + "files"@ + debug_text(self.files)
    }
}

/// What the program was asked to do.
#[derive(Debug, PartialEq, Eq)]
pub struct Config {
    /// Seconds that must pass after a run before the next one.
    pub threshold: u64,
    recurse: bool,
    command: Command,
    files: Vec<String>,
}

impl View for Config {
    type V = ConfigView;

    closed spec fn view(&self) -> ConfigView {
        ConfigView {
            threshold: self.threshold,
            recurse: self.recurse,
            command: self.command@,
            files: texts(self.files@),
        }
    }
}

/// The number that an optional text writes, if it writes one.
pub open spec fn opt_number(s: Option<Seq<char>>) -> Option<u64> {
    match s {
        Some(t) => number(t),
        None => None,
    }
}

/// Whether a value was given that writes no number.
pub open spec fn no_number(s: Option<Seq<char>>) -> bool {
    s is Some && opt_number(s) is None
}

/// The name under which errors speak of the timeout.
pub open spec fn timeout_option() -> Seq<char> {
    "kill-timeout"@
}

/// The name under which errors speak of the threshold.
pub open spec fn threshold_option() -> Seq<char> {
    "threshold"@
}

/// The configuration that the options make, or the reason why they make
/// none. The reasons, in the order in which they are looked for: no command
/// is given; the timeout is given and is no number; the threshold is given
/// and is no number; no path is given. A number is what `number` reads: one
/// that does not fit 64 bits is none. Where all is well, a threshold that is
/// not given is zero, and a teardown command that is given without a
/// timeout is dropped.
pub open spec fn configure(m: MatchedView) -> Result<ConfigView, ConfigErrorView> {
    match m.command {
        None => Err(ConfigErrorView::Rejected(Rejection::OptionMissing("command"@))),
        Some(command) => if no_number(m.kill_timeout) {
            Err(
                ConfigErrorView::InvalidNumber {
                    option: timeout_option(),
                    value: m.kill_timeout->0,
                },
            )
        } else if no_number(m.threshold) {
            Err(
                ConfigErrorView::InvalidNumber {
                    option: threshold_option(),
                    value: m.threshold->0,
                },
            )
        } else if m.files.len() == 0 {
            Err(ConfigErrorView::NoFiles)
        } else {
            let timeout_ms = opt_number(m.kill_timeout);
            Ok(
                ConfigView {
                    threshold: match opt_number(m.threshold) {
                        Some(seconds) => seconds,
                        None => 0,
                    },
                    recurse: m.recurse,
                    command: CommandView {
                        wrap_shell: m.wrap_shell,
                        once: m.once,
                        timeout_ms,
                        command,
                        teardown: if timeout_ms is Some {
                            m.teardown
                        } else {
                            None
                        },
                    },
                    files: m.files,
                },
            )
        },
    }
}

/// What a command line asks for.
#[derive(Debug, PartialEq, Eq)]
pub enum Invocation {
    /// The usage text.
    Help,
    /// A run under this configuration.
    Run(Config),
}

/// What a command line asks for, in mathematical form.
pub enum InvocationView {
    Help,
    Run(ConfigView),
}

impl View for Invocation {
    type V = InvocationView;

    open spec fn view(&self) -> InvocationView {
        match self {
            Invocation::Help => InvocationView::Help,
            Invocation::Run(config) => InvocationView::Run(config@),
        }
    }
}

/// What the program makes of a parsed command line: a parse failure is
/// reported as it is; a command line that fits asks for the usage text where
/// `-h` is among the options, whatever else is given or missing, and for a
/// run otherwise.
pub open spec fn startup(outcome: Result<Parsed, Rejection>) -> Result<
    InvocationView,
    ConfigErrorView,
> {
    match outcome {
        Err(why) => Err(ConfigErrorView::Rejected(why)),
        Ok(parsed) => if parsed.present("h"@) {
            Ok(InvocationView::Help)
        } else {
            match configure(parsed.matched()) {
                Ok(config) => Ok(InvocationView::Run(config)),
                Err(e) => Err(e),
            }
        },
    }
}

/// The two sides of a start-up result, each in mathematical form.
pub open spec fn startup_view(r: Result<Invocation, ConfigError>) -> Result<
    InvocationView,
    ConfigErrorView,
> {
    match r {
        Ok(invocation) => Ok(invocation@),
        Err(e) => Err(e@),
    }
}

/// The two sides of a configuration result, each in mathematical form.
pub open spec fn config_view(r: Result<Config, ConfigError>) -> Result<ConfigView, ConfigErrorView> {
    match r {
        Ok(config) => Ok(config@),
        Err(e) => Err(e@),
    }
}

/// Reads the arguments that follow the program's name.
pub fn parse(args: &Vec<String>) -> (r: Result<Invocation, ConfigError>)
    ensures
        startup_view(r) == startup(parse_outcome(grammar(), texts(args@))),
{
    match crate::cli::parse(args) {
        Err(fail) => Err(ConfigError::from_fail(fail)),
        Ok(matched) => {
            if matched.help {
                Ok(Invocation::Help)
            } else {
                match Config::new(matched) {
                    Ok(config) => Ok(Invocation::Run(config)),
                    Err(e) => Err(e),
                }
            }
        },
    }
}

/// The line that heads the usage text.
pub open spec fn brief(program: Seq<char>) -> Seq<char> {
    "Usage: "@ + program
        + " -c <cmd> [-d <cmd>] [-h] [-k <kill-timeout>] [-o] [-r] [-s] [-t <threshold>] <files>"@
}

/// The advice that follows the list of options.
pub open spec fn usage_note() -> Seq<char> {
    "Please use quotes around the command if it is composed of multiple words"@
}

/// The text that tells how to call `program`: the heading, the options, and
/// a note on quoting.
pub fn usage(program: &str) -> (r: String)
    ensures
        r@ == usage_text(grammar(), brief(program@)) + "\n"@ + usage_note() + "\n"@,
{
    let mut heading: String = String::from_str("Usage: ");
    heading.append(program);
    heading.append(
        " -c <cmd> [-d <cmd>] [-h] [-k <kill-timeout>] [-o] [-r] [-s] [-t <threshold>] <files>",
    );
    let mut r: String = crate::cli::usage(heading.as_str());
    r.append("\n");
    r.append("Please use quotes around the command if it is composed of multiple words");
    r.append("\n");
    r
}

impl Config {
    /// Makes the configuration from what was read off the command line.
    pub fn new(matched: Matched) -> (r: Result<Config, ConfigError>)
        ensures
            config_view(r) == configure(matched@),
    {
        let Matched {
            help: _,
            command,
            teardown,
            kill_timeout,
            once,
            recurse,
            wrap_shell,
            threshold,
            files,
        } = matched;
        let command: String = match command {
            Some(text) => text,
            None => {
                return Err(ConfigError::OptionMissing(String::from_str("command")));
            },
        };
        let timeout_ms: Option<u64> = match kill_timeout {
            Some(text) => match parse_u64(text.as_str()) {
                Some(limit) => Some(limit),
                None => {
                    return Err(
                        ConfigError::InvalidNumber {
                            option: String::from_str("kill-timeout"),
                            value: text,
                        },
                    );
                },
            },
            None => None,
        };
        let threshold: u64 = match threshold {
            Some(text) => match parse_u64(text.as_str()) {
                Some(seconds) => seconds,
                None => {
                    return Err(
                        ConfigError::InvalidNumber {
                            option: String::from_str("threshold"),
                            value: text,
                        },
                    );
                },
            },
            None => 0,
        };
        if files.len() == 0 {
            return Err(ConfigError::NoFiles);
        }
        let command = Command::new(wrap_shell, once, timeout_ms, command, teardown);
        Ok(Config { threshold, recurse, command, files })
    }

    /// The command to run.
    pub fn command(&self) -> (r: &Command)
        ensures
            r@ == self@.command,
    {
        &self.command
    }

    /// The paths to watch.
    pub fn files(&self) -> (r: &Vec<String>)
        ensures
            texts(r@) == self@.files,
    {
        &self.files
    }

    /// Whether the sub-directories of the given directories are watched too.
    pub fn recurse(&self) -> (r: bool)
        ensures
            r == self@.recurse,
    {
        self.recurse
    }

    /// Seconds that must pass after a run before the next one.
    pub fn threshold(&self) -> (r: u64)
        ensures
            r == self@.threshold,
    {
        self.threshold
    }

    /// Describes the configuration in one line.
    pub fn describe(&self) -> (r: String)
        ensures
            r@ == self@.describe(),
    {
        let mut r: String = self.command.describe();
        r.append(" ");
        let ghost head = r@;
        let ghost mut threshold_part: Seq<char> = Seq::empty();
        if self.threshold > 0 {
            r.append("threshold[");
            r.append(to_decimal(self.threshold).as_str());
            r.append("] ");
            proof {
                threshold_part = "threshold["@ + decimal(self.threshold as nat) + "] "@;
            }
        }
        assert(r@ =~= head + threshold_part);
        let ghost mut recurse_part: Seq<char> = Seq::empty();
        if self.recurse {
            r.append("recurse ");
            proof {
                recurse_part = "recurse "@;
            }
        }
        assert(r@ =~= head + threshold_part + recurse_part);
        r.append("files");
        r.append(debug_list(&self.files).as_str());
        assert(r@ =~= head + threshold_part + recurse_part + "files"@ + debug_text(
            texts(self.files@),
        ));
        r
    }

    /// The walk that finds the directories beneath the paths to watch, where
    /// the configuration asks for them; none where the paths are watched as
    /// they were given.
    pub fn walker(&self) -> (r: Option<Walker>)
        ensures
            match r {
                Some(walk) => self@.recurse && walk@ == (WalkerView {
                    found: Seq::empty(),
                    pending: self@.files,
                    visiting: false,
                }),
                None => !self@.recurse,
            },
    {
        if self.recurse {
            let mut walk = Walker::new();
            walk.process(self.files.as_slice());
            assert(walk@.pending =~= self@.files);
            Some(walk)
        } else {
            None
        }
    }

    /// The same configuration with `files` as the paths to watch: the paths
    /// that were given, with the directories found beneath them.
    pub fn expanded(self, files: Vec<String>) -> (r: Config)
        ensures
            r@ == (ConfigView { files: texts(files@), ..self@ }),
    {
        Config { threshold: self.threshold, recurse: self.recurse, command: self.command, files }
    }
}

} // verus!
