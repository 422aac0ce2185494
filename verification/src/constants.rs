//! Limits and defaults of the server.

use vstd::prelude::*;

verus! {

/// Number of entries returned per page in ls and tree.
pub const PAGE_SIZE: usize = 100;

/// Default number of commits shown by git_log when `n` is not supplied.
pub const GIT_LOG_DEFAULT_N: u64 = 10;

/// Maximum number of commits git_log will return (clamps the caller's `n`).
pub const GIT_LOG_MAX_N: u64 = 200;

/// Maximum byte-length of a git ref accepted by git_diff.
pub const GIT_REF_MAX_LEN: usize = 200;

/// Maximum size (bytes) of a file returned by `get`. Larger files are rejected.
pub const MAX_GET_FILE_SZ: u64 = 512 * 1024;

/// Maximum size (bytes) of content accepted by `put`. Larger payloads are rejected.
pub const MAX_PUT_FILE_SZ: usize = 512 * 1024;

/// Upper clamp on the `max_files` read from a project's `.meta/project.json`.
pub const MAX_FILES_HARD_CAP: usize = 5000;

/// Upper clamp on the `max_depth` read from a project's `.meta/project.json`.
pub const MAX_DEPTH_HARD_CAP: usize = 10;

/// Hard stop on the number of lines a `tree` traversal produces.
pub const MAX_TREE_LINES: usize = 10_000;

/// Truncation point (bytes) for the output of git sub-commands.
pub const MAX_GIT_OUTPUT_BYTES: usize = 1024 * 1024;

/// Truncation point (bytes) for the output of grep.
pub const MAX_GREP_OUTPUT_BYTES: usize = 1024 * 1024;

/// Largest number of context lines grep may print around a match.
pub const GREP_MAX_CONTEXT: u64 = 10;

/// Maximum byte-length of a grep pattern.
pub const GREP_PATTERN_MAX_LEN: usize = 1000;

} // verus!
