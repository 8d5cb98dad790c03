//! The command lines of the helpers: what the arguments of each ask for.
//!
//! The arguments are those that follow the program's name. Nothing is
//! printed here: the caller shows the usage text where a command line asks
//! for it or is not understood.

use vstd::prelude::*;
use crate::command::{git, Command};
use crate::message::{assemble_message, assembled};
use crate::text::string_views;

verus! {

/// Whether the argument asks for the usage text.
pub open spec fn is_help(argument: Seq<char>) -> bool {
    argument == "-h"@ || argument == "--help"@
}

/// Whether the argument is the flag that stands for "all".
pub open spec fn is_all(argument: Seq<char>) -> bool {
    argument == "-a"@ || argument == "--all"@
}

/// Whether the argument is the flag that includes ignored files.
pub open spec fn is_ignored(argument: Seq<char>) -> bool {
    argument == "-i"@ || argument == "--ignored"@
}

/// Whether the argument is the flag that asks for a report of each removal.
pub open spec fn is_verbose(argument: Seq<char>) -> bool {
    argument == "-v"@ || argument == "--verbose"@
}

/// The flag for "all", as a test on arguments.
pub open spec fn all_flag() -> spec_fn(Seq<char>) -> bool {
    |argument: Seq<char>| is_all(argument)
}

/// The call for help, as a test on arguments.
pub open spec fn help_flag() -> spec_fn(Seq<char>) -> bool {
    |argument: Seq<char>| is_help(argument)
}

/// The flag that includes ignored files, as a test on arguments.
pub open spec fn ignored_flag() -> spec_fn(Seq<char>) -> bool {
    |argument: Seq<char>| is_ignored(argument)
}

/// The flag that asks for a report of each removal, as a test on arguments.
pub open spec fn verbose_flag() -> spec_fn(Seq<char>) -> bool {
    |argument: Seq<char>| is_verbose(argument)
}

/// Either flag of the clean helper, as a test on arguments.
pub open spec fn clean_flag() -> spec_fn(Seq<char>) -> bool {
    |argument: Seq<char>| is_ignored(argument) || is_verbose(argument)
}

/// Whether the argument at `at` is the first one that `accepted` does not
/// hold of.
pub open spec fn is_first_other(
    arguments: Seq<Seq<char>>,
    accepted: spec_fn(Seq<char>) -> bool,
    at: int,
) -> bool {
    &&& 0 <= at < arguments.len()
    &&& !accepted(arguments[at])
    &&& forall|k: int| 0 <= k < at ==> accepted(#[trigger] arguments[k])
}

/// Whether `accepted` holds of some argument.
pub open spec fn has(arguments: Seq<Seq<char>>, accepted: spec_fn(Seq<char>) -> bool) -> bool {
    exists|k: int| 0 <= k < arguments.len() && accepted(#[trigger] arguments[k])
}

/// No argument is two flags at once.
pub proof fn law_flags_differ(argument: Seq<char>)
    ensures
        !(is_all(argument) && is_help(argument)),
        !(is_ignored(argument) && is_verbose(argument)),
        !(is_ignored(argument) && is_help(argument)),
        !(is_verbose(argument) && is_help(argument)),
{
    reveal_strlit("-h");
    reveal_strlit("--help");
    reveal_strlit("-a");
    reveal_strlit("--all");
    reveal_strlit("-i");
    reveal_strlit("--ignored");
    reveal_strlit("-v");
    reveal_strlit("--verbose");
    if argument.len() == 2 {
        assert("-h"@[1] == 'h' && "-a"@[1] == 'a' && "-i"@[1] == 'i' && "-v"@[1] == 'v');
    } else if argument.len() > 2 {
        assert("--help"@[2] == 'h' && "--all"@[2] == 'a' && "--ignored"@[2] == 'i'
            && "--verbose"@[2] == 'v');
    }
}

fn same(text: &String, literal: &str) -> (equal: bool)
    ensures
        equal == (text@ == literal@),
{
    *text == String::from_str(literal)
}

fn help(argument: &String) -> (found: bool)
    ensures
        found == is_help(argument@),
{
    same(argument, "-h") || same(argument, "--help")
}

fn all(argument: &String) -> (found: bool)
    ensures
        found == is_all(argument@),
{
    same(argument, "-a") || same(argument, "--all")
}

/// What the command line of a helper without options asks for.
#[derive(Clone, Copy, Debug, PartialEq, Eq, Structural)]
pub enum PlainCommand {
    /// Do the work.
    Run,
    /// Show the usage text.
    Help,
    /// Say that the command line is not understood, and show the usage text.
    Incorrect,
}

/// What the arguments of a helper without options ask for: the work where
/// there are none, else what the first of them says.
pub open spec fn plain_command(arguments: Seq<Seq<char>>) -> PlainCommand {
    if arguments.len() == 0 {
        PlainCommand::Run
    } else if is_help(arguments[0]) {
        PlainCommand::Help
    } else {
        PlainCommand::Incorrect
    }
}

/// Reads the command line of a helper without options, such as the one that
/// stages everything and the one that prints the root of the repository.
pub fn parse_plain(arguments: &Vec<String>) -> (command: PlainCommand)
    ensures
        command == plain_command(string_views(arguments@)),
{
    if arguments.len() == 0 {
        PlainCommand::Run
    } else if help(&arguments[0]) {
        PlainCommand::Help
    } else {
        PlainCommand::Incorrect
    }
}

/// What the command line of the amend helper asks for.
#[derive(Clone, Copy, Debug, PartialEq, Eq, Structural)]
pub enum AmendCommand {
    /// Amend, after staging everything where `add_all` is set.
    Run { add_all: bool },
    Help,
    Incorrect,
}

/// What the arguments of the amend helper ask for. The first argument that
/// is not the flag for "all" decides: it asks for help or is not understood.
/// Without such an argument the amend runs, and stages everything first if
/// the flag is there.
pub open spec fn amend_command(arguments: Seq<Seq<char>>) -> AmendCommand {
    if exists|at: int| is_first_other(arguments, all_flag(), at) {
        let at = choose|at: int| is_first_other(arguments, all_flag(), at);
        if is_help(arguments[at]) {
            AmendCommand::Help
        } else {
            AmendCommand::Incorrect
        }
    } else {
        AmendCommand::Run { add_all: arguments.len() > 0 }
    }
}

/// Reads the command line of the amend helper.
pub fn parse_amend(arguments: &Vec<String>) -> (command: AmendCommand)
    ensures
        command == amend_command(string_views(arguments@)),
{
    let ghost given = string_views(arguments@);
    let mut i: usize = 0;
    while i < arguments.len()
        invariant
            i <= arguments.len(),
            given == string_views(arguments@),
            forall|k: int| 0 <= k < i ==> is_all(#[trigger] given[k]),
        decreases arguments.len() - i,
    {
        if !all(&arguments[i]) {
            proof {
                assert(is_first_other(given, all_flag(), i as int));
                let at = choose|at: int| is_first_other(given, all_flag(), at);
                assert(at == i);
            }
            if help(&arguments[i]) {
                return AmendCommand::Help;
            }
            return AmendCommand::Incorrect;
        }
        i += 1;
    }
    AmendCommand::Run { add_all: arguments.len() > 0 }
}

/// What the command line of the clean helper asks for.
#[derive(Clone, Copy, Debug, PartialEq, Eq, Structural)]
pub enum CleanCommand {
    /// Clean, with ignored files where `include_ignored` is set, reporting
    /// each removal where `verbose` is.
    Run { include_ignored: bool, verbose: bool },
    Help,
    Incorrect,
}

/// What the arguments of the clean helper ask for. The first argument that
/// is not one of its flags decides: it asks for help or is not understood.
/// Without such an argument the clean runs with the flags that are there.
pub open spec fn clean_command(arguments: Seq<Seq<char>>) -> CleanCommand {
    if exists|at: int| is_first_other(arguments, clean_flag(), at) {
        let at = choose|at: int| is_first_other(arguments, clean_flag(), at);
        if is_help(arguments[at]) {
            CleanCommand::Help
        } else {
            CleanCommand::Incorrect
        }
    } else {
        CleanCommand::Run {
            include_ignored: has(arguments, ignored_flag()),
            verbose: has(arguments, verbose_flag()),
        }
    }
}

/// Reads the command line of the clean helper.
pub fn parse_clean(arguments: &Vec<String>) -> (command: CleanCommand)
    ensures
        command == clean_command(string_views(arguments@)),
{
    let ghost given = string_views(arguments@);
    let ghost ignored = ignored_flag();
    let ghost verbose_only = verbose_flag();
    let mut include_ignored = false;
    let mut verbose = false;
    let mut i: usize = 0;
    while i < arguments.len()
        invariant
            i <= arguments.len(),
            given == string_views(arguments@),
            ignored == ignored_flag(),
            verbose_only == verbose_flag(),
            forall|k: int| 0 <= k < i ==> clean_flag()(#[trigger] given[k]),
            include_ignored == has(given.take(i as int), ignored),
            verbose == has(given.take(i as int), verbose_only),
        decreases arguments.len() - i,
    {
        let ghost before = given.take(i as int);
        let ghost after = given.take(i + 1);
        proof {
            law_flags_differ(given[i as int]);
            assert(after[i as int] == given[i as int]);
            assert forall|k: int| 0 <= k < i implies before[k] == #[trigger] after[k] by {}
            if has(before, ignored) {
                let k = choose|k: int| 0 <= k < before.len() && ignored(before[k]);
                assert(ignored(after[k]));
            }
            if has(before, verbose_only) {
                let k = choose|k: int| 0 <= k < before.len() && verbose_only(before[k]);
                assert(verbose_only(after[k]));
            }
            if has(after, ignored) && !ignored(given[i as int]) {
                let k = choose|k: int| 0 <= k < after.len() && ignored(after[k]);
                assert(ignored(before[k]));
            }
            if has(after, verbose_only) && !verbose_only(given[i as int]) {
                let k = choose|k: int| 0 <= k < after.len() && verbose_only(after[k]);
                assert(verbose_only(before[k]));
            }
        }
        if same(&arguments[i], "-i") || same(&arguments[i], "--ignored") {
            include_ignored = true;
        } else if same(&arguments[i], "-v") || same(&arguments[i], "--verbose") {
            verbose = true;
        } else {
            proof {
                assert(is_first_other(given, clean_flag(), i as int));
                let at = choose|at: int| is_first_other(given, clean_flag(), at);
                assert(at == i);
            }
            if help(&arguments[i]) {
                return CleanCommand::Help;
            }
            return CleanCommand::Incorrect;
        }
        i += 1;
    }
    assert(given.take(i as int) =~= given);
    CleanCommand::Run { include_ignored, verbose }
}

/// What the command line of the commit helper asks for.
#[derive(Clone, Debug, PartialEq, Eq)]
pub enum CommitCommand {
    /// Commit with this message, after staging everything where `add_all`
    /// is set.
    Run { add_all: bool, message: String },
    Help,
    /// Say that the message is missing, and show the usage text.
    EmptyMessage,
}

/// What a command of the commit helper stands for.
pub enum CommitCommandView {
    Run { add_all: bool, message: Seq<char> },
    Help,
    EmptyMessage,
}

impl View for CommitCommand {
    type V = CommitCommandView;

    open spec fn view(&self) -> CommitCommandView {
        match self {
            CommitCommand::Run { add_all, message } => CommitCommandView::Run {
                add_all: *add_all,
                message: message@,
            },
            CommitCommand::Help => CommitCommandView::Help,
            CommitCommand::EmptyMessage => CommitCommandView::EmptyMessage,
        }
    }
}

/// What the arguments of the commit helper ask for. Without arguments the
/// usage text is shown. The first argument that is not the flag for "all"
/// either asks for help or starts the message, which is assembled from it
/// and all that follow. Where only flags are given the message is missing.
pub open spec fn commit_command(arguments: Seq<Seq<char>>) -> CommitCommandView {
    if arguments.len() == 0 {
        CommitCommandView::Help
    } else if exists|at: int| is_first_other(arguments, all_flag(), at) {
        let at = choose|at: int| is_first_other(arguments, all_flag(), at);
        if is_help(arguments[at]) {
            CommitCommandView::Help
        } else {
            CommitCommandView::Run { add_all: at > 0, message: assembled(arguments.skip(at)) }
        }
    } else {
        CommitCommandView::EmptyMessage
    }
}

/// Reads the command line of the commit helper.
pub fn parse_commit(arguments: &Vec<String>) -> (command: CommitCommand)
    ensures
        command@ == commit_command(string_views(arguments@)),
{
    let ghost given = string_views(arguments@);
    if arguments.len() == 0 {
        return CommitCommand::Help;
    }
    let mut i: usize = 0;
    while i < arguments.len()
        invariant
            i <= arguments.len(),
            given == string_views(arguments@),
            forall|k: int| 0 <= k < i ==> is_all(#[trigger] given[k]),
        decreases arguments.len() - i,
    {
        if !all(&arguments[i]) {
            proof {
                assert(is_first_other(given, all_flag(), i as int));
                let at = choose|at: int| is_first_other(given, all_flag(), at);
                assert(at == i);
            }
            if help(&arguments[i]) {
                return CommitCommand::Help;
            }
            let mut tokens: Vec<String> = Vec::new();
            let mut j: usize = i;
            while j < arguments.len()
                invariant
                    i <= j <= arguments.len(),
                    given == string_views(arguments@),
                    string_views(tokens@) == given.subrange(i as int, j as int),
                decreases arguments.len() - j,
            {
                let ghost before = string_views(tokens@);
                tokens.push(arguments[j].clone());
                assert(string_views(tokens@) =~= before.push(given[j as int]));
                assert(given.subrange(i as int, j + 1) =~= given.subrange(i as int, j as int).push(
                    given[j as int],
                ));
                j += 1;
            }
            assert(given.subrange(i as int, j as int) =~= given.skip(i as int));
            return CommitCommand::Run { add_all: i > 0, message: assemble_message(&tokens) };
        }
        i += 1;
    }
    CommitCommand::EmptyMessage
}

/// What the command line of the fetch helper asks for.
#[derive(Clone, Debug, PartialEq, Eq)]
pub enum FetchCommand {
    /// Fetch this remote.
    One { remote: String },
    /// Fetch every remote of the repository.
    All,
    Help,
}

/// What a command of the fetch helper stands for.
pub enum FetchCommandView {
    One { remote: Seq<char> },
    All,
    Help,
}

impl View for FetchCommand {
    type V = FetchCommandView;

    open spec fn view(&self) -> FetchCommandView {
        match self {
            FetchCommand::One { remote } => FetchCommandView::One { remote: remote@ },
            FetchCommand::All => FetchCommandView::All,
            FetchCommand::Help => FetchCommandView::Help,
        }
    }
}

/// Whether the argument names a remote: it is neither the flag for "all"
/// nor a call for help.
pub open spec fn names_remote(argument: Seq<char>) -> bool {
    !is_all(argument) && !is_help(argument)
}

/// The last argument that names a remote, or the remote `origin` where no
/// argument does.
pub open spec fn remote_named(arguments: Seq<Seq<char>>) -> Seq<char>
    decreases arguments.len(),
{
    if arguments.len() == 0 {
        "origin"@
    } else if names_remote(arguments.last()) {
        arguments.last()
    } else {
        remote_named(arguments.drop_last())
    }
}

/// What the arguments of the fetch helper ask for: help where some argument
/// asks for it, else every remote where the flag for "all" is there, else
/// the remote that the arguments name.
pub open spec fn fetch_command(arguments: Seq<Seq<char>>) -> FetchCommandView {
    if has(arguments, help_flag()) {
        FetchCommandView::Help
    } else if has(arguments, all_flag()) {
        FetchCommandView::All
    } else {
        FetchCommandView::One { remote: remote_named(arguments) }
    }
}

/// Reads the command line of the fetch helper.
pub fn parse_fetch(arguments: &Vec<String>) -> (command: FetchCommand)
    ensures
        command@ == fetch_command(string_views(arguments@)),
{
    let ghost given = string_views(arguments@);
    let ghost asks = help_flag();
    let mut every = false;
    let mut remote = String::from_str("origin");
    let mut i: usize = 0;
    assert(given.take(0) =~= Seq::<Seq<char>>::empty());
    while i < arguments.len()
        invariant
            i <= arguments.len(),
            given == string_views(arguments@),
            asks == help_flag(),
            forall|k: int| 0 <= k < i ==> !asks(#[trigger] given[k]),
            every == has(given.take(i as int), all_flag()),
            remote@ == remote_named(given.take(i as int)),
        decreases arguments.len() - i,
    {
        let ghost before = given.take(i as int);
        let ghost after = given.take(i + 1);
        proof {
            law_flags_differ(given[i as int]);
            assert(after.drop_last() =~= before);
            assert(after.last() == given[i as int]);
            if has(before, all_flag()) {
                let k = choose|k: int| 0 <= k < before.len() && all_flag()(before[k]);
                assert(all_flag()(after[k]));
            }
            if has(after, all_flag()) && !is_all(given[i as int]) {
                let k = choose|k: int| 0 <= k < after.len() && all_flag()(after[k]);
                assert(all_flag()(before[k]));
            }
        }
        if all(&arguments[i]) {
            every = true;
            assert(all_flag()(after[i as int]));
        } else if help(&arguments[i]) {
            assert(asks(given[i as int]));
            return FetchCommand::Help;
        } else {
            remote = arguments[i].clone();
        }
        i += 1;
    }
    assert(given.take(i as int) =~= given);
    if every {
        FetchCommand::All
    } else {
        FetchCommand::One { remote }
    }
}

/// The command that the push helper runs: a push of HEAD to `origin`
/// without an argument, a forced one for the argument `force`. Any other
/// argument is handed back as not understood. The argument is the second of
/// `arguments`, where the first is the program's name.
pub fn push_command(arguments: &Vec<String>) -> (command: Result<Command, String>)
    ensures
        arguments.len() < 2 ==> command is Ok && command->Ok_0@.program == "git"@
            && command->Ok_0@.arguments == seq!["push"@, "origin"@, "HEAD"@],
        arguments.len() >= 2 && arguments@[1]@ == "force"@ ==> command is Ok
            && command->Ok_0@.program == "git"@ && command->Ok_0@.arguments == seq![
            "push"@,
            "--force"@,
            "origin"@,
            "HEAD"@,
        ],
        arguments.len() >= 2 && arguments@[1]@ != "force"@ ==> command is Err
            && command->Err_0@ == arguments@[1]@,
{
    if arguments.len() < 2 {
        let command = git().arg("push").arg("origin").arg("HEAD");
        assert(command@.arguments =~= seq!["push"@, "origin"@, "HEAD"@]);
        Ok(command)
    } else if same(&arguments[1], "force") {
        let command = git().arg("push").arg("--force").arg("origin").arg("HEAD");
        assert(command@.arguments =~= seq!["push"@, "--force"@, "origin"@, "HEAD"@]);
        Ok(command)
    } else {
        Err(arguments[1].clone())
    }
}

/// The remote that the sync helper takes the changes from: the second of
/// `arguments`, where the first is the program's name, or `upstream`.
pub fn sync_upstream(arguments: &Vec<String>) -> (upstream: String)
    ensures
        upstream@ == if arguments.len() >= 2 {
            arguments@[1]@
        } else {
            "upstream"@
        },
{
    if arguments.len() >= 2 {
        arguments[1].clone()
    } else {
        String::from_str("upstream")
    }
}

/// The branch of `upstream` that the sync helper merges.
pub open spec fn upstream_master(upstream: Seq<char>) -> Seq<char> {
    upstream + "/master"@
}

/// The command that the sync helper runs as its step `step`, counted from
/// zero: it checks out `master`, fetches `upstream`, and merges the master
/// branch of `upstream`. The merge is run only where the fetch before it
/// succeeded, and nothing follows the merge.
pub fn sync_command(upstream: &str, step: usize, fetched: bool) -> (command: Option<Command>)
    ensures
        step == 0 ==> command is Some && command->0@.arguments == seq!["checkout"@, "master"@],
        step == 1 ==> command is Some && command->0@.arguments == seq!["fetch"@, upstream@],
        step == 2 && fetched ==> command is Some && command->0@.arguments == seq![
            "merge"@,
            upstream_master(upstream@),
        ],
        (step == 2 && !fetched) || step > 2 ==> command is None,
        command matches Some(command) ==> command@.program == "git"@,
{
    if step == 0 {
        let command = git().arg("checkout").arg("master");
        assert(command@.arguments =~= seq!["checkout"@, "master"@]);
        Some(command)
    } else if step == 1 {
        let command = git().arg("fetch").arg(upstream);
        assert(command@.arguments =~= seq!["fetch"@, upstream@]);
        Some(command)
    } else if step == 2 && fetched {
        let branch = String::from_str(upstream).concat("/master");
        let command = git().arg("merge").arg(branch.as_str());
        assert(command@.arguments =~= seq!["merge"@, upstream_master(upstream@)]);
        Some(command)
    } else {
        None
    }
}

} // verus!
