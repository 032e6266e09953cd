# commit_message

A helper that builds conventional commit lines for JavaScript repositories
from the git branch, the command line and the commitizen scopes in
`package.json`.

- `src/` is the library, verified with Verus:
  - `number`: reading and writing decimal `i32` values;
  - `text`: Unicode white space, trimming, cutting a final line break;
  - `pattern`: regular-expression matching through the `regex` crate;
  - `issue`: the issue id at the front of a branch name;
  - `message`: commit types and the commit line;
  - `manifest`: JSON values and the commitizen scopes of `package.json`;
  - `git`: the git commands used and what is read from their output;
  - `report`: the session summary, the proposed message and extra lines.
- `app/` is the program: argument parsing (clap), running git, reading
  `package.json` (serde_json) and printing.
- `tests/` exercises the library on concrete values.
