//! The git commands that find the repository root and the current branch,
//! and what is read from their output.
use vstd::prelude::*;
use crate::text::{opt_view, is_trimmed, lemma_trim_is_trimmed, strip_final_newline, trim, trim_white_space};

verus! {

/// The shell command that runs `git_args` with git, first changing to
/// `directory` when one is given.
pub open spec fn git_command_text(directory: Option<Seq<char>>, git_args: Seq<char>) -> Seq<char> {
    match directory {
        Some(d) => "cd "@ + d + " && git "@ + git_args,
        None => "git "@ + git_args,
    }
}

/// Without a directory the command is `git` followed by its arguments; with
/// one it is `cd <directory> && ` followed by that same command.
pub proof fn lemma_git_command_in_directory(directory: Seq<char>, git_args: Seq<char>)
    ensures
        git_command_text(None, git_args) == seq!['g', 'i', 't', ' '] + git_args,
        git_command_text(Some(directory), git_args) == seq!['c', 'd', ' '] + directory + seq![
            ' ',
            '&',
            '&',
            ' ',
        ] + git_command_text(None, git_args),
{
    reveal_strlit("git ");
    reveal_strlit("cd ");
    reveal_strlit(" && git ");
    assert(git_command_text(None, git_args) =~= seq!['g', 'i', 't', ' '] + git_args);
    assert(git_command_text(Some(directory), git_args) =~= seq!['c', 'd', ' '] + directory + seq![
        ' ',
        '&',
        '&',
        ' ',
    ] + git_command_text(None, git_args));
}

/// Builds the shell command of `git_command_text`.
fn git_command(directory: Option<&str>, git_args: &str) -> (res: String)
    ensures
        res@ == git_command_text(
            opt_view(directory),
            git_args@,
        ),
{
    let mut cmd = String::new();
    match directory {
        Some(d) => {
            cmd.append("cd ");
            cmd.append(d);
            cmd.append(" && git ");
        },
        None => {
            cmd.append("git ");
        },
    }
    cmd.append(git_args);
    cmd
}

/// The shell command that prints the root of the repository that holds
/// `directory` (or the working directory): `git rev-parse --show-toplevel`.
pub fn show_toplevel_command(directory: Option<&str>) -> (res: String)
    ensures
        res@ == git_command_text(
            opt_view(directory),
            "rev-parse --show-toplevel"@,
        ),
{
    git_command(directory, "rev-parse --show-toplevel")
}

/// The shell command that prints the current branch of the repository that
/// holds `directory` (or the working directory):
/// `git rev-parse --abbrev-ref HEAD`.
pub fn current_branch_command(directory: Option<&str>) -> (res: String)
    ensures
        res@ == git_command_text(
            opt_view(directory),
            "rev-parse --abbrev-ref HEAD"@,
        ),
{
    git_command(directory, "rev-parse --abbrev-ref HEAD")
}

/// The branch name in the output of the branch command, without the white
/// space around it.
pub fn branch_from_output(stdout: &str) -> (res: String)
    ensures
        res@ == trim(stdout@),
        is_trimmed(res@),
{
    proof {
        lemma_trim_is_trimmed(stdout@);
    }
    String::from_str(trim_white_space(stdout))
}

/// The branch name in the output of the branch command, which ends in a
/// line break: the output without that line break.
pub fn branch_from_output_line(stdout: &str) -> (res: String)
    requires
        stdout@.len() > 0,
        stdout@.last() == '\n',
    ensures
        res@ == stdout@.drop_last(),
{
    String::from_str(strip_final_newline(stdout))
}

} // verus!
