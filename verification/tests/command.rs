use lazy_git_ext::cli::{
    parse_amend, parse_clean, parse_commit, parse_fetch, parse_plain, push_command, sync_command,
    sync_upstream, AmendCommand, CleanCommand, CommitCommand, FetchCommand, PlainCommand,
};
use lazy_git_ext::command::{get_cmd_arg, git, git_add_all, Command};
use lazy_git_ext::stage::add_all;

fn args(words: &[&str]) -> Vec<String> {
    words.iter().map(|word| word.to_string()).collect()
}

fn command(program: &str, arguments: &[&str]) -> Command {
    Command { program: program.to_string(), arguments: args(arguments) }
}

#[test]
fn git_add_all_is_git_add_all() {
    assert_eq!(git_add_all(), command("git", &["add", "--all"]));
}

#[test]
fn command_is_built_argument_by_argument() {
    assert_eq!(git(), command("git", &[]));
    assert_eq!(Command::new("ls").arg("-l").arg("/tmp"), command("ls", &["-l", "/tmp"]));
}

#[test]
fn get_cmd_arg_counts_from_zero() {
    let arguments = args(&["prog", "first", "second"]);
    assert_eq!(get_cmd_arg(&arguments, 0), Some("prog".to_string()));
    assert_eq!(get_cmd_arg(&arguments, 2), Some("second".to_string()));
    assert_eq!(get_cmd_arg(&arguments, 3), None);
    assert_eq!(get_cmd_arg(&Vec::new(), 0), None);
}

#[test]
fn add_all_stages_the_whole_tree() {
    assert_eq!(add_all(), args(&["."]));
}

#[test]
fn plain_command_line() {
    assert_eq!(parse_plain(&args(&[])), PlainCommand::Run);
    assert_eq!(parse_plain(&args(&["-h"])), PlainCommand::Help);
    assert_eq!(parse_plain(&args(&["--help", "x"])), PlainCommand::Help);
    assert_eq!(parse_plain(&args(&["x", "--help"])), PlainCommand::Incorrect);
    assert_eq!(parse_plain(&args(&["-a"])), PlainCommand::Incorrect);
}

#[test]
fn amend_command_line() {
    assert_eq!(parse_amend(&args(&[])), AmendCommand::Run { add_all: false });
    assert_eq!(parse_amend(&args(&["-a"])), AmendCommand::Run { add_all: true });
    assert_eq!(parse_amend(&args(&["--all", "-a"])), AmendCommand::Run { add_all: true });
    assert_eq!(parse_amend(&args(&["-a", "--help"])), AmendCommand::Help);
    assert_eq!(parse_amend(&args(&["-h", "junk"])), AmendCommand::Help);
    assert_eq!(parse_amend(&args(&["junk", "-h"])), AmendCommand::Incorrect);
    assert_eq!(parse_amend(&args(&["-a", "-x"])), AmendCommand::Incorrect);
}

#[test]
fn clean_command_line() {
    let run = |include_ignored, verbose| CleanCommand::Run { include_ignored, verbose };
    assert_eq!(parse_clean(&args(&[])), run(false, false));
    assert_eq!(parse_clean(&args(&["-i"])), run(true, false));
    assert_eq!(parse_clean(&args(&["--verbose"])), run(false, true));
    assert_eq!(parse_clean(&args(&["-v", "--ignored", "-v"])), run(true, true));
    assert_eq!(parse_clean(&args(&["-i", "-h", "-v"])), CleanCommand::Help);
    assert_eq!(parse_clean(&args(&["-i", "what", "-h"])), CleanCommand::Incorrect);
    assert_eq!(parse_clean(&args(&["-a"])), CleanCommand::Incorrect);
}

#[test]
fn commit_command_line() {
    let run = |add_all, message: &str| CommitCommand::Run { add_all, message: message.to_string() };
    assert_eq!(parse_commit(&args(&[])), CommitCommand::Help);
    assert_eq!(parse_commit(&args(&["-h"])), CommitCommand::Help);
    assert_eq!(parse_commit(&args(&["-a", "--help", "x"])), CommitCommand::Help);
    assert_eq!(parse_commit(&args(&["-a"])), CommitCommand::EmptyMessage);
    assert_eq!(parse_commit(&args(&["--all", "-a"])), CommitCommand::EmptyMessage);
    assert_eq!(parse_commit(&args(&["Fix", "bug"])), run(false, "Fix bug"));
    assert_eq!(parse_commit(&args(&["-a", "Fix", "bug"])), run(true, "Fix bug"));
    assert_eq!(parse_commit(&args(&["Fix", "-a", "-h"])), run(false, "Fix -a -h"));
    assert_eq!(
        parse_commit(&args(&["--all", "Title\\n", "--subj", "Long", "text "])),
        run(true, "Title\n\nLong text")
    );
}

#[test]
fn fetch_command_line() {
    let one = |remote: &str| FetchCommand::One { remote: remote.to_string() };
    assert_eq!(parse_fetch(&args(&[])), one("origin"));
    assert_eq!(parse_fetch(&args(&["upstream"])), one("upstream"));
    assert_eq!(parse_fetch(&args(&["first", "second"])), one("second"));
    assert_eq!(parse_fetch(&args(&["-a"])), FetchCommand::All);
    assert_eq!(parse_fetch(&args(&["upstream", "--all"])), FetchCommand::All);
    assert_eq!(parse_fetch(&args(&["upstream", "-a", "--help"])), FetchCommand::Help);
    assert_eq!(parse_fetch(&args(&["-h"])), FetchCommand::Help);
}

#[test]
fn push_command_line() {
    assert_eq!(push_command(&args(&["push"])), Ok(command("git", &["push", "origin", "HEAD"])));
    assert_eq!(push_command(&args(&[])), Ok(command("git", &["push", "origin", "HEAD"])));
    assert_eq!(
        push_command(&args(&["push", "force"])),
        Ok(command("git", &["push", "--force", "origin", "HEAD"]))
    );
    assert_eq!(push_command(&args(&["push", "hard"])), Err("hard".to_string()));
}

#[test]
fn sync_command_line() {
    assert_eq!(sync_upstream(&args(&["sync"])), "upstream");
    assert_eq!(sync_upstream(&args(&["sync", "fork", "more"])), "fork");
    assert_eq!(sync_command("fork", 0, false), Some(command("git", &["checkout", "master"])));
    assert_eq!(sync_command("fork", 1, true), Some(command("git", &["fetch", "fork"])));
    assert_eq!(sync_command("fork", 2, true), Some(command("git", &["merge", "fork/master"])));
    assert_eq!(sync_command("fork", 2, false), None);
    assert_eq!(sync_command("fork", 3, true), None);
}
