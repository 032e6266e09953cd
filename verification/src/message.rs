//! The one-line conventional commit message:
//! `type(scope): <branch or issue reference> <message>`.
use vstd::prelude::*;
use crate::pattern::{regex_compiles, regex_first_match, regex_leftmost_match};
use crate::text::{opt_view, strip_final_newline};

verus! {

/// Why a commit message could not be built.
#[derive(Debug, Clone, Copy, PartialEq, Eq)]
pub enum CommitError {
    /// The issue prefix given by the user is not a regular expression that
    /// compiles.
    InvalidPrefixPattern,
}

/// The commit types offered, in order; the first is the default.
pub open spec fn commit_type_list() -> Seq<&'static str> {
    seq!["feat", "fix", "docs", "refactor", "test", "build", "ci", "revert", "chore"]
}

/// The commit types a commit message may start with, the default first.
pub fn commit_types() -> (res: Vec<&'static str>)
    ensures
        res@ == commit_type_list(),
{
    let res = vec!["feat", "fix", "docs", "refactor", "test", "build", "ci", "revert", "chore"];
    assert(res@ =~= commit_type_list());
    res
}

/// The commit type used when none is chosen.
pub fn default_commit_type() -> (res: &'static str)
    ensures
        res == commit_type_list()[0],
{
    "feat"
}

/// The text of an optional part, empty when it is absent.
pub open spec fn optional_text(part: Option<Seq<char>>) -> Seq<char> {
    match part {
        Some(t) => t,
        None => Seq::<char>::empty(),
    }
}

/// `(scope)`, or nothing without a scope.
pub open spec fn scope_part(scope: Option<Seq<char>>) -> Seq<char> {
    match scope {
        Some(s) => "("@ + s + ")"@,
        None => Seq::<char>::empty(),
    }
}

/// The subject followed by a space, or nothing without a subject.
pub open spec fn subject_part(subject: Option<Seq<char>>) -> Seq<char> {
    match subject {
        Some(s) => s + " "@,
        None => Seq::<char>::empty(),
    }
}

/// The commit line: the type, the scope in brackets, `": "`, the subject
/// and a space, then the message; each absent part is left out.
pub open spec fn commit_line(
    pr_type: Option<Seq<char>>,
    scope: Option<Seq<char>>,
    subject: Option<Seq<char>>,
    message: Option<Seq<char>>,
) -> Seq<char> {
    optional_text(pr_type) + scope_part(scope) + ": "@ + subject_part(subject) + optional_text(
        message,
    )
}

/// Where each part of the commit line stands: the type first; then, when a
/// scope is given, `(`, the scope and `)`, whether or not a message is
/// given; then `: `; then, when there is a subject, the subject and a
/// space; and the message (if any) makes up the rest of the line.
pub proof fn lemma_commit_line_layout(
    pr_type: Option<Seq<char>>,
    scope: Option<Seq<char>>,
    subject: Option<Seq<char>>,
    message: Option<Seq<char>>,
)
    ensures
        ({
            let line = commit_line(pr_type, scope, subject, message);
            let t = match pr_type {
                Some(x) => x,
                None => Seq::<char>::empty(),
            };
            let m = match message {
                Some(x) => x,
                None => Seq::<char>::empty(),
            };
            let tl = t.len() as int;
            let colon: int = tl + match scope {
                Some(x) => x.len() + 2,
                None => 0,
            };
            let rest: int = colon + 2 + match subject {
                Some(x) => x.len() + 1,
                None => 0,
            };
            &&& line.len() == rest + m.len()
            &&& line.take(tl) == t
            &&& scope matches Some(sc) ==> {
                &&& line[tl] == '('
                &&& line.subrange(tl + 1, tl + 1 + sc.len()) == sc
                &&& line[tl + 1 + sc.len()] == ')'
            }
            &&& line[colon] == ':'
            &&& line[colon + 1] == ' '
            &&& subject matches Some(sj) ==> {
                &&& line.subrange(colon + 2, colon + 2 + sj.len()) == sj
                &&& line[colon + 2 + sj.len()] == ' '
            }
            &&& line.skip(rest) == m
        }),
{
    reveal_strlit("(");
    reveal_strlit(")");
    reveal_strlit(": ");
    reveal_strlit(" ");
    let line = commit_line(pr_type, scope, subject, message);
    let a = optional_text(pr_type);
    let b = scope_part(scope);
    let c = ": "@;
    let d = subject_part(subject);
    let e = optional_text(message);
    let al = a.len() as int;
    let bl = b.len() as int;
    assert(line == a + b + c + d + e);
    assert(line.take(al) =~= a);
    match scope {
        Some(sc) => {
            assert(b =~= seq!['('] + sc + seq![')']);
            assert(line.subrange(al + 1, al + 1 + sc.len()) =~= sc);
        },
        None => {},
    }
    match subject {
        Some(sj) => {
            assert(d =~= sj + seq![' ']);
            assert(line.subrange(al + bl + 2, al + bl + 2 + sj.len()) =~= sj);
        },
        None => {},
    }
    assert(line.skip(al + bl + 2 + d.len()) =~= e);
}

/// Appends an optional part.
fn append_optional(out: &mut String, part: Option<&str>)
    ensures
        final(out)@ == old(out)@ + optional_text(opt_view(part)),
{
    match part {
        Some(t) => out.append(t),
        None => {
            assert(old(out)@ + Seq::<char>::empty() =~= old(out)@);
        },
    }
}

/// Builds the commit line from its parts.
pub fn commit_message_line(
    pr_type: Option<&str>,
    scope: Option<&str>,
    subject: Option<&str>,
    message: Option<&str>,
) -> (res: String)
    ensures
        res@ == commit_line(
            opt_view(pr_type),
            opt_view(scope),
            opt_view(subject),
            opt_view(message),
        ),
{
    let mut out = String::new();
    append_optional(&mut out, pr_type);
    let ghost after_type = out@;
    match scope {
        Some(s) => {
            out.append("(");
            out.append(s);
            out.append(")");
            assert(out@ =~= after_type + scope_part(opt_view(scope)));
        },
        None => {
            assert(out@ =~= after_type + scope_part(opt_view(scope)));
        },
    }
    out.append(": ");
    let ghost after_colon = out@;
    match subject {
        Some(s) => {
            out.append(s);
            out.append(" ");
            assert(out@ =~= after_colon + subject_part(opt_view(subject)));
        },
        None => {
            assert(out@ =~= after_colon + subject_part(opt_view(subject)));
        },
    }
    append_optional(&mut out, message);
    assert(out@ =~= commit_line(
        opt_view(pr_type),
        opt_view(scope),
        opt_view(subject),
        opt_view(message),
    ));
    out
}

/// What the branch contributes to the commit line: the branch itself
/// without an issue prefix, or else the text that the prefix, read as a
/// regular expression, matches first in the branch (`None` where it
/// matches nowhere).
pub open spec fn branch_subject_of(branch: Seq<char>, prefix: Option<Seq<char>>) -> Option<
    Seq<char>,
> {
    match prefix {
        None => Some(branch),
        Some(p) => regex_leftmost_match(p, branch),
    }
}

/// What the branch contributes to the commit line (see
/// `branch_subject_of`); an error where the prefix is not a regular
/// expression that compiles.
pub fn branch_subject(branch: &str, prefix: Option<&str>) -> (res: Result<Option<String>, CommitError>)
    ensures
        match res {
            Ok(found) => {
                &&& prefix matches Some(p) ==> regex_compiles(p@)
                &&& match found {
                    Some(s) => branch_subject_of(branch@, opt_view(prefix)) == Some(s@),
                    None => branch_subject_of(branch@, opt_view(prefix)) is None,
                }
            },
            Err(e) => {
                &&& e == CommitError::InvalidPrefixPattern
                &&& prefix matches Some(p) && !regex_compiles(p@)
            },
        },
{
    match prefix {
        None => Ok(Some(String::from_str(branch))),
        Some(p) => match regex_first_match(p, branch) {
            Ok(found) => Ok(found),
            Err(_) => Err(CommitError::InvalidPrefixPattern),
        },
    }
}

/// The commit line for a branch, as read from the output of the branch
/// command (which ends in a line break), and whether the branch gave a
/// subject at all (it gives none where an issue prefix matches nowhere in
/// it); an error where the prefix is not a regular expression that
/// compiles.
pub fn compose_commit_message(
    pr_type: Option<&str>,
    scope: Option<&str>,
    branch_stdout: &str,
    prefix: Option<&str>,
    message: Option<&str>,
) -> (res: Result<(String, bool), CommitError>)
    requires
        branch_stdout@.len() > 0,
        branch_stdout@.last() == '\n',
    ensures
        match res {
            Ok((line, found)) => {
                let subject = branch_subject_of(branch_stdout@.drop_last(), opt_view(prefix));
                &&& prefix matches Some(p) ==> regex_compiles(p@)
                &&& found == subject is Some
                &&& line@ == commit_line(
                    opt_view(pr_type),
                    opt_view(scope),
                    subject,
                    opt_view(message),
                )
            },
            Err(e) => {
                &&& e == CommitError::InvalidPrefixPattern
                &&& prefix matches Some(p) && !regex_compiles(p@)
            },
        },
{
    let branch = strip_final_newline(branch_stdout);
    match branch_subject(branch, prefix) {
        Ok(found) => {
            let subject = match &found {
                Some(s) => Some(s.as_str()),
                None => None,
            };
            let line = commit_message_line(pr_type, scope, subject, message);
            Ok((line, found.is_some()))
        },
        Err(e) => Err(e),
    }
}

} // verus!
