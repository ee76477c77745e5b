# vord

Verified core of the vord static analyzer, written in Verus.

- `src/` — the library, every function with a contract proved by Verus:
  - `heuristics`, `screening`, `syntax`, `clusters`: the
    `secrets:high-entropy-string` rule — which string literals are plainly
    not secrets, which keys are sensitive or ignored, the walk over a parsed
    file, and the suppression of bulk-data clusters;
  - `config`: the `vord.toml` model and the `sonar-project.properties`
    reader;
  - `globs`: the inclusion/exclusion globs of a scan (via `globset`);
  - `paths`, `line_hashes`, `context`, `commands`: report path names, the
    Git worktree search, per-line hashes for New Code tracking, the scan's
    identity, coverage format, exit status and small command decisions;
  - `ordering`, `blame`, `gaps`: the text order of `String`, the
    `--blame-output` request and re-keying, the mutation-gap summary;
  - `text`: the character-level building blocks the others use.
- `tests/` — tests of the library on concrete values.
- `app/` — the program around it: reading arguments, files, TOML and the
  environment, entropy scoring (floating point), and the wiring into the
  analysis engine.
