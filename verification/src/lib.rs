//! Verified core of the vord static analyzer:
//!
//! - `text`, `heuristics`, `screening`, `clusters`, `syntax`: the
//!   `secrets:high-entropy-string` rule's screening of string literals (the
//!   "plainly not a secret" shapes, key sensitivity, ignored keys, the
//!   length cap) and its bulk-data cluster suppression;
//! - `config`: the project configuration model and the
//!   `sonar-project.properties` reader;
//! - `globs`, `paths`, `line_hashes`, `context`: the scan's scope globs,
//!   report path names, the search for the Git worktree, per-line hashes
//!   for New Code tracking, and the scan's identity, coverage format and
//!   exit status;
//! - `commands`: small decisions of the command-line front end;
//! - `ordering`, `blame`, `gaps`: the text order of `String`, the blame
//!   request and its re-keying for `--blame-output`, and the mutation-gap
//!   summary.

pub mod text;
pub mod heuristics;
pub mod clusters;
pub mod screening;
pub mod config;
pub mod syntax;
pub mod paths;
pub mod line_hashes;
pub mod context;
pub mod globs;
pub mod commands;
pub mod ordering;
pub mod blame;
pub mod gaps;
