//! What the interactive session shows: the summary of what was found, the
//! proposed commit message, and the message with its extra lines.
use vstd::prelude::*;
use crate::text::opt_view;

verus! {

/// The team prefix that goes into proposed commit messages.
pub fn team_prefix() -> (res: &'static str)
    ensures
        res@ == "INF"@,
{
    "INF"
}

/// `type: name [prefix] #issue`.
pub open spec fn proposed_message_text(
    pr_type: Seq<char>,
    message_name: Seq<char>,
    team_prefix: Seq<char>,
    issue_id: Seq<char>,
) -> Seq<char> {
    pr_type + ": "@ + message_name + " ["@ + team_prefix + "] #"@ + issue_id
}

/// The commit message proposed from what was found:
/// `type: name [prefix] #issue`.
pub fn proposed_commit_message(
    pr_type: &str,
    message_name: &str,
    team_prefix: &str,
    issue_id: &str,
) -> (res: String)
    ensures
        res@ == proposed_message_text(pr_type@, message_name@, team_prefix@, issue_id@),
{
    let mut out = String::from_str(pr_type);
    out.append(": ");
    out.append(message_name);
    out.append(" [");
    out.append(team_prefix);
    out.append("] #");
    out.append(issue_id);
    out
}

/// What `str::to_lowercase` gives for a text (lower case as Unicode's
/// Lowercase mapping defines it).
pub uninterp spec fn unicode_lowercase(s: Seq<char>) -> Seq<char>;

/// Calls `str::to_lowercase`. Claimed of std: the result depends on the
/// text alone; which text it is, is only named (`unicode_lowercase`).
#[verifier::external_body]
fn to_lowercase(s: &str) -> (res: String)
    ensures
        res@ == unicode_lowercase(s@),
{
    s.to_lowercase()
}

/// The longest a message name taken from a branch name may be, in
/// characters.
pub const MESSAGE_NAME_LIMIT: usize = 55;

/// The message name: the message given, in lower case, or else the name
/// taken from the branch, in lower case and cut to its first 55 characters.
pub open spec fn message_name_of(given: Option<Seq<char>>, branch_name: Seq<char>) -> Seq<char> {
    match given {
        Some(m) => unicode_lowercase(m),
        None => {
            let lower = unicode_lowercase(branch_name);
            if lower.len() <= MESSAGE_NAME_LIMIT {
                lower
            } else {
                lower.take(MESSAGE_NAME_LIMIT as int)
            }
        },
    }
}

/// A given message becomes the message name in lower case. Without one,
/// the message name is the start of the lower-cased branch name: its first
/// 55 characters, or all of it when it is shorter.
pub proof fn lemma_message_name_is_prefix(given: Option<Seq<char>>, branch_name: Seq<char>)
    ensures
        given matches Some(m) ==> message_name_of(given, branch_name) == unicode_lowercase(m),
        given is None ==> ({
            let lower = unicode_lowercase(branch_name);
            let name = message_name_of(given, branch_name);
            &&& name.len() == if lower.len() < 55 {
                lower.len()
            } else {
                55
            }
            &&& forall|i: int| 0 <= i < name.len() ==> #[trigger] name[i] == lower[i]
        }),
{
}

/// The message name for a proposed commit message (see `message_name_of`).
pub fn message_name(given: Option<&str>, branch_name: &str) -> (res: String)
    ensures
        res@ == message_name_of(
            opt_view(given),
            branch_name@,
        ),
{
    match given {
        Some(m) => to_lowercase(m),
        None => {
            let lower = to_lowercase(branch_name);
            let n = lower.as_str().unicode_len();
            if n <= MESSAGE_NAME_LIMIT {
                lower
            } else {
                String::from_str(lower.as_str().substring_char(0, MESSAGE_NAME_LIMIT))
            }
        },
    }
}

/// The commit message written by hand: `type: message [prefix] #issue` with
/// the message in lower case, then the scope in brackets and the message
/// from the command line, each where one is given.
pub open spec fn manual_message_text(
    pr_type: Seq<char>,
    message: Seq<char>,
    team_prefix: Seq<char>,
    issue_id: Seq<char>,
    scope: Option<Seq<char>>,
    command_line_message: Option<Seq<char>>,
) -> Seq<char> {
    proposed_message_text(pr_type, unicode_lowercase(message), team_prefix, issue_id) + (match scope {
        Some(s) => "("@ + s + ")"@,
        None => Seq::<char>::empty(),
    }) + (match command_line_message {
        Some(m) => m,
        None => Seq::<char>::empty(),
    })
}

/// Where each part of the hand-written commit message stands: it starts
/// with `type: message [prefix] #issue`, the message in lower case; then
/// comes `(scope)` when a scope is given; and the command-line message,
/// when one is given, ends it, with or without a scope. Without one it ends
/// with the scope part, or else with the issue id.
pub proof fn lemma_manual_message_layout(
    pr_type: Seq<char>,
    message: Seq<char>,
    team_prefix: Seq<char>,
    issue_id: Seq<char>,
    scope: Option<Seq<char>>,
    command_line_message: Option<Seq<char>>,
)
    ensures
        ({
            let text = manual_message_text(
                pr_type,
                message,
                team_prefix,
                issue_id,
                scope,
                command_line_message,
            );
            let head = pr_type + seq![':', ' '] + unicode_lowercase(message) + seq![' ', '[']
                + team_prefix + seq![']', ' ', '#'] + issue_id;
            let hl = head.len() as int;
            let sl: int = match scope {
                Some(x) => (x.len() + 2) as int,
                None => 0,
            };
            let m = match command_line_message {
                Some(x) => x,
                None => Seq::<char>::empty(),
            };
            &&& text.len() == hl + sl + m.len()
            &&& text.take(hl) == head
            &&& scope matches Some(sc) ==> {
                &&& text[hl] == '('
                &&& text.subrange(hl + 1, hl + 1 + sc.len()) == sc
                &&& text[hl + 1 + sc.len()] == ')'
            }
            &&& text.skip(hl + sl) == m
        }),
{
    reveal_strlit(": ");
    reveal_strlit(" [");
    reveal_strlit("] #");
    reveal_strlit("(");
    reveal_strlit(")");
    let text = manual_message_text(pr_type, message, team_prefix, issue_id, scope, command_line_message);
    let head = pr_type + seq![':', ' '] + unicode_lowercase(message) + seq![' ', '['] + team_prefix
        + seq![']', ' ', '#'] + issue_id;
    let p = proposed_message_text(pr_type, unicode_lowercase(message), team_prefix, issue_id);
    assert(p =~= head);
    let sp = match scope {
        Some(x) => "("@ + x + ")"@,
        None => Seq::<char>::empty(),
    };
    let m = match command_line_message {
        Some(x) => x,
        None => Seq::<char>::empty(),
    };
    assert(text == p + sp + m);
    let hl = head.len() as int;
    assert(text.take(hl) =~= head);
    match scope {
        Some(sc) => {
            assert(sp =~= seq!['('] + sc + seq![')']);
            assert(text.subrange(hl + 1, hl + 1 + sc.len()) =~= sc);
        },
        None => {},
    }
    assert(text.skip(hl + sp.len()) =~= m);
}

/// Builds the commit message written by hand (see `manual_message_text`).
pub fn manual_commit_message(
    pr_type: &str,
    message: &str,
    team_prefix: &str,
    issue_id: &str,
    scope: Option<&str>,
    command_line_message: Option<&str>,
) -> (res: String)
    ensures
        res@ == manual_message_text(
            pr_type@,
            message@,
            team_prefix@,
            issue_id@,
            opt_view(scope),
            opt_view(command_line_message),
        ),
{
    let lower = to_lowercase(message);
    let mut out = proposed_commit_message(pr_type, lower.as_str(), team_prefix, issue_id);
    let ghost head = out@;
    match scope {
        Some(s) => {
            out.append("(");
            out.append(s);
            out.append(")");
        },
        None => {},
    }
    let ghost middle = out@;
    match command_line_message {
        Some(m) => {
            out.append(m);
        },
        None => {},
    }
    assert(out@ =~= manual_message_text(
        pr_type@,
        message@,
        team_prefix@,
        issue_id@,
        opt_view(scope),
        opt_view(command_line_message),
    ));
    out
}

/// A value shown in bold, then a line break.
pub open spec fn bold_line(value: Seq<char>) -> Seq<char> {
    "\x1b[1;1m"@ + value + "\x1b[0m\n"@
}

/// The summary of what was found: the working directory, the branch, the
/// team prefix, the issue id and the message name, with a line in red for
/// an issue id or a message name that is empty.
pub open spec fn session_report_text(
    directory: Seq<char>,
    git_branch: Seq<char>,
    team_prefix: Seq<char>,
    issue_id: Seq<char>,
    message_name: Seq<char>,
) -> Seq<char> {
    "\n\x1b[1;1mCommit utility\x1b[0m\n"@ + "- Working in directory "@ + bold_line(directory)
        + "- Git branch is "@ + bold_line(git_branch) + "- Team prefix is "@ + bold_line(
        team_prefix,
    ) + (if issue_id.len() > 0 {
        "- Issue id is "@ + bold_line(issue_id)
    } else {
        "\x1b[1;31m- No issue id found\x1b[0m\n"@
    }) + (if message_name.len() > 0 {
        "- Message name is "@ + bold_line(message_name)
    } else {
        "\x1b[1;31m- No message name found\x1b[0m\n"@
    })
}

/// Where each part of the summary stands: a head that depends only on the
/// directory, the branch and the team prefix; right after it the issue-id
/// part, which is the red line `- No issue id found` exactly when the issue
/// id is empty and otherwise `- Issue id is ` with the id in bold, whatever
/// the message name; and at the end the message-name part, red exactly when
/// the message name is empty.
pub proof fn lemma_session_report_layout(
    directory: Seq<char>,
    git_branch: Seq<char>,
    team_prefix: Seq<char>,
    issue_id: Seq<char>,
    message_name: Seq<char>,
)
    ensures
        ({
            let text = session_report_text(
                directory,
                git_branch,
                team_prefix,
                issue_id,
                message_name,
            );
            let head = "\n\x1b[1;1mCommit utility\x1b[0m\n"@ + "- Working in directory "@
                + "\x1b[1;1m"@ + directory + "\x1b[0m\n"@ + "- Git branch is "@ + "\x1b[1;1m"@
                + git_branch + "\x1b[0m\n"@ + "- Team prefix is "@ + "\x1b[1;1m"@ + team_prefix
                + "\x1b[0m\n"@;
            let no_issue = "\x1b[1;31m- No issue id found\x1b[0m\n"@;
            let issue_line = "- Issue id is "@ + "\x1b[1;1m"@ + issue_id + "\x1b[0m\n"@;
            let no_name = "\x1b[1;31m- No message name found\x1b[0m\n"@;
            let name_line = "- Message name is "@ + "\x1b[1;1m"@ + message_name + "\x1b[0m\n"@;
            let hl = head.len() as int;
            let il: int = if issue_id.len() == 0 {
                no_issue.len() as int
            } else {
                issue_line.len() as int
            };
            let tail = if message_name.len() == 0 {
                no_name
            } else {
                name_line
            };
            &&& text.len() == hl + il + tail.len()
            &&& text.take(hl) == head
            &&& issue_id.len() == 0 ==> text.subrange(hl, hl + il) == no_issue
            &&& issue_id.len() > 0 ==> text.subrange(hl, hl + il) == issue_line
            &&& text.skip(hl + il) == tail
        }),
{
    let text = session_report_text(directory, git_branch, team_prefix, issue_id, message_name);
    let head = "\n\x1b[1;1mCommit utility\x1b[0m\n"@ + "- Working in directory "@ + "\x1b[1;1m"@
        + directory + "\x1b[0m\n"@ + "- Git branch is "@ + "\x1b[1;1m"@ + git_branch
        + "\x1b[0m\n"@ + "- Team prefix is "@ + "\x1b[1;1m"@ + team_prefix + "\x1b[0m\n"@;
    let issue_part = if issue_id.len() > 0 {
        "- Issue id is "@ + bold_line(issue_id)
    } else {
        "\x1b[1;31m- No issue id found\x1b[0m\n"@
    };
    let name_part = if message_name.len() > 0 {
        "- Message name is "@ + bold_line(message_name)
    } else {
        "\x1b[1;31m- No message name found\x1b[0m\n"@
    };
    assert(text =~= head + issue_part + name_part);
    let hl = head.len() as int;
    assert(text.take(hl) =~= head);
    assert(text.subrange(hl, hl + issue_part.len()) =~= issue_part);
    assert(text.skip(hl + issue_part.len()) =~= name_part);
}

/// Appends a value in bold and a line break.
fn append_bold_line(out: &mut String, value: &str)
    ensures
        final(out)@ == old(out)@ + bold_line(value@),
{
    out.append("\x1b[1;1m");
    out.append(value);
    out.append("\x1b[0m\n");
    assert(final(out)@ =~= old(out)@ + bold_line(value@));
}

/// The summary of what was found, and whether both an issue id and a
/// message name were found, so that a commit message can be proposed.
pub fn session_report(
    directory: &str,
    git_branch: &str,
    team_prefix: &str,
    issue_id: &str,
    message_name: &str,
) -> (res: (String, bool))
    ensures
        res.0@ == session_report_text(directory@, git_branch@, team_prefix@, issue_id@, message_name@),
        res.1 == (issue_id@.len() > 0 && message_name@.len() > 0),
{
    let mut can_propose = true;
    let mut out = String::from_str("\n\x1b[1;1mCommit utility\x1b[0m\n");
    out.append("- Working in directory ");
    append_bold_line(&mut out, directory);
    out.append("- Git branch is ");
    append_bold_line(&mut out, git_branch);
    out.append("- Team prefix is ");
    append_bold_line(&mut out, team_prefix);
    let ghost head = out@;
    if !issue_id.is_empty() {
        out.append("- Issue id is ");
        append_bold_line(&mut out, issue_id);
    } else {
        can_propose = false;
        out.append("\x1b[1;31m- No issue id found\x1b[0m\n");
    }
    let ghost middle = out@;
    if !message_name.is_empty() {
        out.append("- Message name is ");
        append_bold_line(&mut out, message_name);
    } else {
        can_propose = false;
        out.append("\x1b[1;31m- No message name found\x1b[0m\n");
    }
    assert(out@ =~= session_report_text(
        directory@,
        git_branch@,
        team_prefix@,
        issue_id@,
        message_name@,
    ));
    (out, can_propose)
}

/// The lines of a text split at each line break, as `str::split('\n')`
/// gives them: always at least one line, and an empty last line after a
/// final line break.
pub open spec fn split_lines_of(s: Seq<char>) -> Seq<Seq<char>>
    decreases s.len(),
{
    if s.len() == 0 {
        seq![Seq::<char>::empty()]
    } else {
        let init = split_lines_of(s.drop_last());
        if s.last() == '\n' {
            init.push(Seq::<char>::empty())
        } else {
            init.update(init.len() - 1, init.last().push(s.last()))
        }
    }
}

proof fn lemma_split_lines_nonempty(s: Seq<char>)
    ensures
        split_lines_of(s).len() > 0,
    decreases s.len(),
{
    if s.len() > 0 {
        lemma_split_lines_nonempty(s.drop_last());
    }
}

/// The lines of a text, split at each line break (`str::split('\n')`).
pub fn split_lines(text: &str) -> (res: Vec<String>)
    ensures
        res@.map_values(|l: String| l@) == split_lines_of(text@),
{
    let n = text.unicode_len();
    let mut lines: Vec<String> = Vec::new();
    let mut start: usize = 0;
    let mut i: usize = 0;
    assert(text@.take(0) =~= Seq::<char>::empty());
    while i < n
        invariant
            n == text@.len(),
            start <= i <= n,
            split_lines_of(text@.take(i as int)) =~= lines@.map_values(|l: String| l@).push(
                text@.subrange(start as int, i as int),
            ),
        decreases n - i,
    {
        let c = text.get_char(i);
        let ghost before = text@.take(i as int);
        let ghost after = text@.take(i + 1);
        proof {
            assert(after.drop_last() =~= before);
            assert(after.last() == c);
            lemma_split_lines_nonempty(before);
        }
        if c == '\n' {
            let ghost old_lines = lines@.map_values(|l: String| l@);
            let piece = String::from_str(text.substring_char(start, i));
            lines.push(piece);
            assert(lines@.map_values(|l: String| l@) =~= old_lines.push(
                text@.subrange(start as int, i as int),
            ));
            assert(split_lines_of(after) == split_lines_of(before).push(Seq::<char>::empty()));
            assert(text@.subrange(i + 1, i + 1) =~= Seq::<char>::empty());
            i = i + 1;
            start = i;
            assert(split_lines_of(text@.take(i as int)) =~= lines@.map_values(|l: String| l@).push(
                text@.subrange(start as int, i as int),
            ));
        } else {
            i = i + 1;
            assert(text@.subrange(start as int, i as int) =~= text@.subrange(
                start as int,
                i - 1,
            ).push(c));
            assert(split_lines_of(text@.take(i as int)) =~= lines@.map_values(|l: String| l@).push(
                text@.subrange(start as int, i as int),
            ));
        }
    }
    lines.push(String::from_str(text.substring_char(start, n)));
    assert(text@.take(n as int) =~= text@);
    lines
}

/// Each extra line after a line break.
pub open spec fn joined_lines(lines: Seq<Seq<char>>) -> Seq<char>
    decreases lines.len(),
{
    if lines.len() == 0 {
        Seq::<char>::empty()
    } else {
        joined_lines(lines.drop_last()) + "\n"@ + lines.last()
    }
}

/// Showing the lines of a text each after a line break gives back the text
/// after one line break: splitting the extra message into lines loses
/// nothing of it.
pub proof fn lemma_joined_split_lines(s: Seq<char>)
    ensures
        joined_lines(split_lines_of(s)) == "\n"@ + s,
    decreases s.len(),
{
    reveal_strlit("\n");
    if s.len() == 0 {
        let lines = split_lines_of(s);
        assert(joined_lines(Seq::<Seq<char>>::empty()) == Seq::<char>::empty());
        assert(lines.last() == Seq::<char>::empty());
        assert(lines.drop_last() =~= Seq::<Seq<char>>::empty());
        assert(joined_lines(lines) =~= "\n"@ + s);
    } else {
        let t = s.drop_last();
        let c = s.last();
        lemma_joined_split_lines(t);
        lemma_split_lines_nonempty(t);
        let init = split_lines_of(t);
        let lines = split_lines_of(s);
        if c == '\n' {
            assert(lines.drop_last() =~= init);
            assert(lines.last() == Seq::<char>::empty());
            assert(joined_lines(lines) =~= "\n"@ + s);
        } else {
            assert(lines.drop_last() =~= init.drop_last());
            assert(lines.last() =~= init.last().push(c));
            assert(joined_lines(init) == joined_lines(init.drop_last()) + "\n"@ + init.last());
            assert(lines.len() > 0);
            assert(joined_lines(lines) == joined_lines(lines.drop_last()) + "\n"@ + lines.last());
            assert(joined_lines(lines) =~= joined_lines(init).push(c));
            assert(("\n"@ + t).push(c) =~= "\n"@ + s);
        }
    }
}

/// The commit message as shown: the message alone without extra lines,
/// or else followed by the extra lines in green.
pub open spec fn commit_preview_text(commit_message: Seq<char>, extra: Seq<Seq<char>>) -> Seq<
    char,
> {
    if extra.len() == 0 {
        commit_message
    } else {
        commit_message + "\x1b[1;32m\n"@ + joined_lines(extra) + "\x1b[1;0m"@
    }
}

/// The extra message shows in full: previewing a commit message with the
/// lines of an extra message gives the commit message, the green colour
/// code, a line break, the extra message as typed, and the colour reset.
pub proof fn lemma_preview_shows_extra_message(commit_message: Seq<char>, extra: Seq<char>)
    ensures
        commit_preview_text(commit_message, split_lines_of(extra)) == commit_message
            + "\x1b[1;32m\n"@ + seq!['\n'] + extra + "\x1b[1;0m"@,
{
    reveal_strlit("\n");
    lemma_split_lines_nonempty(extra);
    lemma_joined_split_lines(extra);
    assert(seq!['\n'] + extra =~= "\n"@ + extra);
}

/// The commit message as shown, with its extra lines (if any) in green.
pub fn commit_preview(commit_message: &str, extra: &Vec<String>) -> (res: String)
    ensures
        res@ == commit_preview_text(commit_message@, extra@.map_values(|l: String| l@)),
{
    let mut out = String::from_str(commit_message);
    let n = extra.len();
    if n == 0 {
        assert(extra@.map_values(|l: String| l@) =~= Seq::<Seq<char>>::empty());
        return out;
    }
    out.append("\x1b[1;32m\n");
    let ghost head = out@;
    let ghost all = extra@.map_values(|l: String| l@);
    let mut i: usize = 0;
    assert(all.take(0) =~= Seq::<Seq<char>>::empty());
    while i < n
        invariant
            n == extra@.len(),
            all == extra@.map_values(|l: String| l@),
            i <= n,
            out@ == head + joined_lines(all.take(i as int)),
        decreases n - i,
    {
        out.append("\n");
        out.append(extra[i].as_str());
        assert(all.take(i + 1).drop_last() =~= all.take(i as int));
        assert(out@ =~= head + joined_lines(all.take(i + 1)));
        i = i + 1;
    }
    out.append("\x1b[1;0m");
    assert(all.take(n as int) =~= all);
    assert(out@ =~= commit_preview_text(commit_message@, all));
    out
}

} // verus!
