//! Building blocks of a commit-message helper for JavaScript repositories:
//! the issue id found at the front of a branch name, the conventional
//! commit line, the commitizen scopes of a `package.json`, and the git
//! commands and outputs the helper works with.
pub mod number;
pub mod text;
pub mod pattern;
pub mod issue;
pub mod message;
pub mod manifest;
pub mod git;
pub mod report;
