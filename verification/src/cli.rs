//! The command-line grammar and its parser.
//!
//! Parsing is done by the `getopts` crate. What this module assumes of that
//! crate is gathered in the items marked `external_body` and in the names
//! `declared`, `occurrences`, `free_args`, `parse_outcome` and `usage_text`;
//! everything else is proved from them.

use crate::text::{opt_text, texts};
use vstd::prelude::*;

verus! {

/// `getopts::Options`: a set of declared options. Nothing is known of what
/// is inside but what `declared` names.
#[verifier::external_type_specification]
#[verifier::external_body]
pub struct ExOptions(getopts::Options);

/// `getopts::Matches`: the result of a successful parse. Nothing is known of
/// what is inside but what `occurrences` and `free_args` name.
#[verifier::external_type_specification]
#[verifier::external_body]
pub struct ExMatches(getopts::Matches);

/// `getopts::Fail`: why a parse failed. The enum is public and is declared
/// with its five variants, each of which holds the name of an option.
#[verifier::external_type_specification]
pub struct ExFail(getopts::Fail);

/// One declared option, as plain text.
pub struct OptDecl {
    /// The name after a single dash.
    pub short: Seq<char>,
    /// The name after two dashes.
    pub long: Seq<char>,
    /// The description shown in the usage text.
    pub desc: Seq<char>,
    /// What stands for the value in the usage text.
    pub hint: Seq<char>,
    /// Whether the option is followed by a value.
    pub takes_value: bool,
}

impl OptDecl {
    /// Both names are present and of the shape that `getopts` accepts: one
    /// lower-case letter, and a long name of more than one character.
    pub open spec fn named(self) -> bool {
        &&& self.short.len() == 1
        &&& 'a' <= self.short[0] <= 'z'
        &&& self.long.len() > 1
    }
}

/// The options that were found on a command line: for each name that the
/// grammar declares, short or long, the occurrences of that option in order,
/// each with its value if it came with one; and the arguments that are no
/// options.
pub struct Parsed {
    pub occurrences: Map<Seq<char>, Seq<Option<Seq<char>>>>,
    pub free: Seq<Seq<char>>,
}

impl Parsed {
    /// Whether the option `name` was given.
    pub open spec fn present(self, name: Seq<char>) -> bool {
        self.occurrences.dom().contains(name) && self.occurrences[name].len() > 0
    }

    /// The value of the first occurrence of the option `name`.
    pub open spec fn value(self, name: Seq<char>) -> Option<Seq<char>> {
        if self.present(name) {
            self.occurrences[name][0]
        } else {
            None
        }
    }
}

/// Why a command line does not fit the grammar; each reason names the option.
pub enum Rejection {
    ArgumentMissing(Seq<char>),
    UnrecognizedOption(Seq<char>),
    OptionMissing(Seq<char>),
    OptionDuplicated(Seq<char>),
    UnexpectedArgument(Seq<char>),
}

/// The reason that a `getopts::Fail` gives.
pub open spec fn rejection(fail: getopts::Fail) -> Rejection {
    match fail {
        getopts::Fail::ArgumentMissing(name) => Rejection::ArgumentMissing(name@),
        getopts::Fail::UnrecognizedOption(name) => Rejection::UnrecognizedOption(name@),
        getopts::Fail::OptionMissing(name) => Rejection::OptionMissing(name@),
        getopts::Fail::OptionDuplicated(name) => Rejection::OptionDuplicated(name@),
        getopts::Fail::UnexpectedArgument(name) => Rejection::UnexpectedArgument(name@),
    }
}

/// The options declared in a `getopts::Options`, in the order of their
/// declaration. It stands for the list that the crate keeps in a private
/// field, for a value that `Options::new` made and to which only `optflag`
/// and `optopt` were applied: every option may be left out, and none may be
/// given twice.
pub uninterp spec fn declared(opts: getopts::Options) -> Seq<OptDecl>;

/// What a `getopts::Matches` holds for each option name, short or long,
/// under which the crate finds an option: the occurrences of that option in
/// the order of the command line, each with its value if it came with one.
pub uninterp spec fn occurrences(found: getopts::Matches) -> Map<
    Seq<char>,
    Seq<Option<Seq<char>>>,
>;

/// The free arguments that a `getopts::Matches` holds.
pub uninterp spec fn free_args(found: getopts::Matches) -> Seq<Seq<char>>;

/// What `getopts::Options::parse` makes of the arguments `args` under the
/// declarations `decls`, with the parsing style that `Options::new` sets.
pub uninterp spec fn parse_outcome(decls: Seq<OptDecl>, args: Seq<Seq<char>>) -> Result<
    Parsed,
    Rejection,
>;

/// The text that `getopts::Options::usage` lays out for the declarations
/// `decls` under the heading `brief`.
pub uninterp spec fn usage_text(decls: Seq<OptDecl>, brief: Seq<char>) -> Seq<char>;

/// Whether every declaration has both of its names.
pub open spec fn all_named(decls: Seq<OptDecl>) -> bool {
    forall|i: int| 0 <= i < decls.len() ==> (#[trigger] decls[i]).named()
}

/// Whether `occ` has an entry for both names of every declaration.
pub open spec fn covers(occ: Map<Seq<char>, Seq<Option<Seq<char>>>>, decls: Seq<OptDecl>) -> bool {
    forall|i: int|
        0 <= i < decls.len() ==> occ.dom().contains((#[trigger] decls[i]).short)
            && occ.dom().contains(decls[i].long)
}

/// `getopts::Options::new`: a set of options in which nothing is declared.
#[verifier::external_body]
fn options_new() -> (opts: getopts::Options)
    ensures
        declared(opts) == Seq::<OptDecl>::empty(),
{
    getopts::Options::new()
}

/// `getopts::Options::optflag`: appends the declaration of an option that
/// takes no value and may be left out. The names are restricted to those on
/// which `getopts` does not panic.
#[verifier::external_body]
fn optflag(opts: &mut getopts::Options, short: &str, long: &str, desc: &str)
    requires
        short@.len() == 1,
        'a' <= short@[0] <= 'z',
        long@.len() > 1,
    ensures
        declared(*final(opts)) == declared(*old(opts)).push(
            OptDecl {
                short: short@,
                long: long@,
                desc: desc@,
                hint: Seq::<char>::empty(),
                takes_value: false,
            },
        ),
{
    opts.optflag(short, long, desc);
}

/// `getopts::Options::optopt`: appends the declaration of an option that
/// takes a value and may be left out.
#[verifier::external_body]
fn optopt(opts: &mut getopts::Options, short: &str, long: &str, desc: &str, hint: &str)
    requires
        short@.len() == 1,
        'a' <= short@[0] <= 'z',
        long@.len() > 1,
    ensures
        declared(*final(opts)) == declared(*old(opts)).push(
            OptDecl {
                short: short@,
                long: long@,
                desc: desc@,
                hint: hint@,
                takes_value: true,
            },
        ),
{
    opts.optopt(short, long, desc, hint);
}

/// `getopts::Options::parse`: the outcome depends on the declarations and
/// the arguments alone. On success the matches have an entry under both
/// names of every declared option. The crate panics on an option without a
/// name, which `requires` leaves out.
#[verifier::external_body]
fn parse_args(opts: &getopts::Options, args: &Vec<String>) -> (r: Result<
    getopts::Matches,
    getopts::Fail,
>)
    requires
        all_named(declared(*opts)),
    ensures
        match r {
            Ok(found) => parse_outcome(declared(*opts), texts(args@)) == Ok::<Parsed, Rejection>(
                Parsed { occurrences: occurrences(found), free: free_args(found) },
            ) && covers(occurrences(found), declared(*opts)),
            Err(fail) => parse_outcome(declared(*opts), texts(args@)) == Err::<Parsed, Rejection>(
                rejection(fail),
            ),
        },
{
    opts.parse(args)
}

/// `getopts::Matches::opt_present`: whether the option occurred at all. It
/// panics on a name that was not declared.
#[verifier::external_body]
fn opt_present(found: &getopts::Matches, name: &str) -> (r: bool)
    requires
        occurrences(*found).dom().contains(name@),
    ensures
        r == (occurrences(*found)[name@].len() > 0),
{
    found.opt_present(name)
}

/// `getopts::Matches::opt_str`: the value of the first occurrence of the
/// option, if it occurred and came with a value. It panics on a name that was
/// not declared.
#[verifier::external_body]
fn opt_str(found: &getopts::Matches, name: &str) -> (r: Option<String>)
    requires
        occurrences(*found).dom().contains(name@),
    ensures
        match r {
            Some(value) => occurrences(*found)[name@].len() > 0 && occurrences(*found)[name@][0]
                == Some(value@),
            None => occurrences(*found)[name@].len() == 0 || occurrences(*found)[name@][0] is None,
        },
{
    found.opt_str(name)
}

/// The field `free` of a `getopts::Matches`: the arguments that are no
/// options, in the order in which they were given.
#[verifier::external_body]
fn free_of(found: &getopts::Matches) -> (r: Vec<String>)
    ensures
        texts(r@) == free_args(*found),
{
    found.free.clone()
}

/// `getopts::Options::usage`: the usage text, which depends on the
/// declarations and the heading alone. The crate panics on a short name
/// that is not one column wide, which `requires` leaves out.
#[verifier::external_body]
fn usage_of(opts: &getopts::Options, brief: &str) -> (r: String)
    requires
        all_named(declared(*opts)),
    ensures
        r@ == usage_text(declared(*opts), brief@),
{
    opts.usage(brief)
}

/// The options of the program, in the order in which the usage text lists
/// them. To the parser each of them may be left out, so that a command line
/// which only asks for help fits the grammar; that the command is given is
/// seen to when the configuration is made.
pub open spec fn grammar() -> Seq<OptDecl> {
    seq![
        OptDecl {
            short: "c"@,
            long: "command"@,
            desc: "command to execute when file is modified"@,
            hint: "<COMMAND>"@,
            takes_value: true,
        },
        OptDecl {
            short: "d"@,
            long: "teardown"@,
            desc: "command to execute after the command process is killed (required -k)"@,
            hint: "<COMMAND>"@,
            takes_value: true,
        },
        OptDecl {
            short: "h"@,
            long: "help"@,
            desc: "display this help text and exit"@,
            hint: Seq::<char>::empty(),
            takes_value: false,
        },
        OptDecl {
            short: "k"@,
            long: "kill-timeout"@,
            desc: "kill the command after timeout (default: 0ms)"@,
            hint: "<KILL-TIMEOUT>"@,
            takes_value: true,
        },
        OptDecl {
            short: "o"@,
            long: "once"@,
            desc: "run command once and exit on event."@,
            hint: Seq::<char>::empty(),
            takes_value: false,
        },
        OptDecl {
            short: "r"@,
            long: "recurse"@,
            desc: "if a directory is supplied, add all its sub-directories as well"@,
            hint: Seq::<char>::empty(),
            takes_value: false,
        },
        OptDecl {
            short: "s"@,
            long: "wrap-shell"@,
            desc: "run the provided command in a shell. Eg. /bin/sh -c <command>."@,
            hint: Seq::<char>::empty(),
            takes_value: false,
        },
        OptDecl {
            short: "t"@,
            long: "threshold"@,
            desc: "number of seconds to skip after the last executed command (default: 0)"@,
            hint: "<THRESHOLD>"@,
            takes_value: true,
        },
    ]
}

/// Every option of the program has both of its names.
pub proof fn lemma_grammar_named()
    ensures
        all_named(grammar()),
        grammar().len() == 8,
{
    reveal_strlit("c");
    reveal_strlit("command");
    reveal_strlit("d");
    reveal_strlit("teardown");
    reveal_strlit("h");
    reveal_strlit("help");
    reveal_strlit("k");
    reveal_strlit("kill-timeout");
    reveal_strlit("o");
    reveal_strlit("once");
    reveal_strlit("r");
    reveal_strlit("recurse");
    reveal_strlit("s");
    reveal_strlit("wrap-shell");
    reveal_strlit("t");
    reveal_strlit("threshold");
}

/// Declares the options of the program.
pub(crate) fn options() -> (opts: getopts::Options)
    ensures
        declared(opts) == grammar(),
{
    proof {
        lemma_grammar_named();
    }
    let ghost g = grammar();
    let mut opts = options_new();
    assert(g[0].named());
    optopt(&mut opts, "c", "command", "command to execute when file is modified", "<COMMAND>");
    assert(g[1].named());
    optopt(
        &mut opts,
        "d",
        "teardown",
        "command to execute after the command process is killed (required -k)",
        "<COMMAND>",
    );
    assert(g[2].named());
    optflag(&mut opts, "h", "help", "display this help text and exit");
    assert(g[3].named());
    optopt(
        &mut opts,
        "k",
        "kill-timeout",
        "kill the command after timeout (default: 0ms)",
        "<KILL-TIMEOUT>",
    );
    assert(g[4].named());
    optflag(&mut opts, "o", "once", "run command once and exit on event.");
    assert(g[5].named());
    optflag(
        &mut opts,
        "r",
        "recurse",
        "if a directory is supplied, add all its sub-directories as well",
    );
    assert(g[6].named());
    optflag(
        &mut opts,
        "s",
        "wrap-shell",
        "run the provided command in a shell. Eg. /bin/sh -c <command>.",
    );
    assert(g[7].named());
    optopt(
        &mut opts,
        "t",
        "threshold",
        "number of seconds to skip after the last executed command (default: 0)",
        "<THRESHOLD>",
    );
    assert(declared(opts) =~= g);
    opts
}

/// What the program reads off a command line that fits the grammar.
#[derive(Debug, PartialEq, Eq)]
pub struct Matched {
    /// `-h`: the usage text is asked for.
    pub help: bool,
    /// `-c`: the command to run.
    pub command: Option<String>,
    /// `-d`: the teardown command.
    pub teardown: Option<String>,
    /// `-k`: the timeout in milliseconds, as it was written.
    pub kill_timeout: Option<String>,
    /// `-o`: end the program after the first run.
    pub once: bool,
    /// `-r`: watch the sub-directories of the given directories too.
    pub recurse: bool,
    /// `-s`: hand the command to a shell.
    pub wrap_shell: bool,
    /// `-t`: the debounce threshold in seconds, as it was written.
    pub threshold: Option<String>,
    /// The paths to watch.
    pub files: Vec<String>,
}

/// What was read off a command line, in mathematical form.
pub struct MatchedView {
    pub help: bool,
    pub command: Option<Seq<char>>,
    pub teardown: Option<Seq<char>>,
    pub kill_timeout: Option<Seq<char>>,
    pub once: bool,
    pub recurse: bool,
    pub wrap_shell: bool,
    pub threshold: Option<Seq<char>>,
    pub files: Seq<Seq<char>>,
}

impl View for Matched {
    type V = MatchedView;

    open spec fn view(&self) -> MatchedView {
        MatchedView {
            help: self.help,
            command: opt_text(self.command),
            teardown: opt_text(self.teardown),
            kill_timeout: opt_text(self.kill_timeout),
            once: self.once,
            recurse: self.recurse,
            wrap_shell: self.wrap_shell,
            threshold: opt_text(self.threshold),
            files: texts(self.files@),
        }
    }
}

impl Parsed {
    /// What the program reads off the parsed command line: each option under
    /// its short name, and the free arguments as the paths.
    pub open spec fn matched(self) -> MatchedView {
        MatchedView {
            help: self.present("h"@),
            command: self.value("c"@),
            teardown: self.value("d"@),
            kill_timeout: self.value("k"@),
            once: self.present("o"@),
            recurse: self.present("r"@),
            wrap_shell: self.present("s"@),
            threshold: self.value("t"@),
            files: self.free,
        }
    }
}

/// Reads the options of the program off the matches.
fn read(found: &getopts::Matches) -> (m: Matched)
    requires
        covers(occurrences(*found), grammar()),
    ensures
        m@ == (Parsed { occurrences: occurrences(*found), free: free_args(*found) }).matched(),
{
    proof {
        lemma_grammar_named();
        let g = grammar();
        assert(g[0].short == "c"@);
        assert(g[1].short == "d"@);
        assert(g[2].short == "h"@);
        assert(g[3].short == "k"@);
        assert(g[4].short == "o"@);
        assert(g[5].short == "r"@);
        assert(g[6].short == "s"@);
        assert(g[7].short == "t"@);
    }
    Matched {
        help: opt_present(found, "h"),
        command: opt_str(found, "c"),
        teardown: opt_str(found, "d"),
        kill_timeout: opt_str(found, "k"),
        once: opt_present(found, "o"),
        recurse: opt_present(found, "r"),
        wrap_shell: opt_present(found, "s"),
        threshold: opt_str(found, "t"),
        files: free_of(found),
    }
}

/// Parses the arguments that follow the program's name.
pub(crate) fn parse(args: &Vec<String>) -> (r: Result<Matched, getopts::Fail>)
    ensures
        match parse_outcome(grammar(), texts(args@)) {
            Ok(parsed) => r matches Ok(m) && m@ == parsed.matched(),
            Err(why) => r matches Err(fail) && rejection(fail) == why,
        },
{
    let opts = options();
    proof {
        lemma_grammar_named();
    }
    match parse_args(&opts, args) {
        Ok(found) => Ok(read(&found)),
        Err(fail) => Err(fail),
    }
}

/// Lays out the usage text of the program under the heading `brief`.
pub(crate) fn usage(brief: &str) -> (r: String)
    ensures
        r@ == usage_text(grammar(), brief@),
{
    let opts = options();
    proof {
        lemma_grammar_named();
    }
    usage_of(&opts, brief)
}

} // verus!
