//! Command lines for the git program and access to the arguments of the
//! running program. Nothing here starts a process or reads the environment:
//! the caller hands the arguments in and runs what it is given back.

use vstd::prelude::*;
use crate::text::string_views;

verus! {

/// A program with its arguments, ready to be run.
#[derive(Clone, Debug, PartialEq, Eq)]
pub struct Command {
    pub program: String,
    pub arguments: Vec<String>,
}

/// What a command stands for: the program's name and the list of arguments.
pub struct CommandView {
    pub program: Seq<char>,
    pub arguments: Seq<Seq<char>>,
}

impl View for Command {
    type V = CommandView;

    open spec fn view(&self) -> CommandView {
        CommandView { program: self.program@, arguments: string_views(self.arguments@) }
    }
}

impl Command {
    /// The command that runs `program` without arguments.
    pub fn new(program: &str) -> (command: Command)
        ensures
            command@.program == program@,
            command@.arguments == Seq::<Seq<char>>::empty(),
    {
        let command = Command { program: String::from_str(program), arguments: Vec::new() };
        assert(command@.arguments =~= Seq::<Seq<char>>::empty());
        command
    }

    /// This command with one more argument at the end.
    pub fn arg(self, argument: &str) -> (command: Command)
        ensures
            command@.program == self@.program,
            command@.arguments == self@.arguments.push(argument@),
    {
        let mut command = self;
        command.arguments.push(String::from_str(argument));
        assert(command@.arguments =~= self@.arguments.push(argument@));
        command
    }
}

/// The command that runs git without arguments.
pub fn git() -> (command: Command)
    ensures
        command@.program == "git"@,
        command@.arguments == Seq::<Seq<char>>::empty(),
{
    Command::new("git")
}

/// The command that stages every change and every untracked file:
/// `git add --all`.
pub fn git_add_all() -> (command: Command)
    ensures
        command@.program == "git"@,
        command@.arguments == seq!["add"@, "--all"@],
{
    let command = git().arg("add").arg("--all");
    assert(command@.arguments =~= seq!["add"@, "--all"@]);
    command
}

/// The argument at position `num` of the program's arguments, counted from
/// zero, or `None` where there are not that many.
pub fn get_cmd_arg(arguments: &Vec<String>, num: usize) -> (argument: Option<String>)
    ensures
        num < arguments.len() ==> argument is Some && argument->0@ == arguments@[num as int]@,
        num >= arguments.len() ==> argument is None,
{
    if num < arguments.len() {
        Some(arguments[num].clone())
    } else {
        None
    }
}

} // verus!
