//! JSON-RPC routing and the argument rules of the tools: which method or
//! tool a request names, and how numeric, ref and pattern arguments are
//! checked.

use vstd::prelude::*;
use crate::constants::{
    GIT_LOG_DEFAULT_N, GIT_LOG_MAX_N, GIT_REF_MAX_LEN, GREP_MAX_CONTEXT, GREP_PATTERN_MAX_LEN,
};
use crate::paths::is_ascii_alnum;
use crate::text::{chars_of, decimal, decimal_int, push_decimal, push_decimal_i64, push_str, str_eq, string_of};

verus! {

// ── JSON-RPC methods ────────────────────────────────────────────────────────

/// What the server does with a JSON-RPC message.
#[derive(Clone, Copy, Debug, PartialEq, Eq)]
pub enum Route {
    /// A notification: absorbed without a response.
    Ignore,
    /// A request without a method: answered with error -32600.
    InvalidRequest,
    Initialize,
    Ping,
    ToolsList,
    ToolsCall,
    /// An unknown method: answered with error -32601.
    MethodNotFound,
}

/// The route of a message that has an `id` (`has_id`) and a string
/// `method`, if any.
pub open spec fn route_of(has_id: bool, method: Option<Seq<char>>) -> Route {
    match method {
        None => if has_id {
            Route::InvalidRequest
        } else {
            Route::Ignore
        },
        Some(m) => if !has_id {
            Route::Ignore
        } else if m == "initialize"@ {
            Route::Initialize
        } else if m == "ping"@ {
            Route::Ping
        } else if m == "tools/list"@ {
            Route::ToolsList
        } else if m == "tools/call"@ {
            Route::ToolsCall
        } else {
            Route::MethodNotFound
        },
    }
}

/// Routes one JSON-RPC message: a message without `id` is a notification
/// and gets no response; a request without a method is invalid.
pub fn route_request(has_id: bool, method: Option<&str>) -> (r: Route)
    ensures
        r == route_of(
            has_id,
            match method {
                Some(m) => Some(m@),
                None => None,
            },
        ),
{
    match method {
        None => if has_id {
            Route::InvalidRequest
        } else {
            Route::Ignore
        },
        Some(m) => if !has_id {
            Route::Ignore
        } else if str_eq(m, "initialize") {
            Route::Initialize
        } else if str_eq(m, "ping") {
            Route::Ping
        } else if str_eq(m, "tools/list") {
            Route::ToolsList
        } else if str_eq(m, "tools/call") {
            Route::ToolsCall
        } else {
            Route::MethodNotFound
        },
    }
}

// ── tools ───────────────────────────────────────────────────────────────────

/// The tools the server offers.
#[derive(Clone, Copy, Debug, PartialEq, Eq)]
pub enum Tool {
    CreateProject,
    Pwd,
    UseProject,
    Get,
    Mkdir,
    Ls,
    Tree,
    Put,
    GetProjectInfo,
    BuildStart,
    BuildStatus,
    BuildKill,
    GitStatus,
    GitLog,
    GitDiff,
    GitDiffStaged,
}

/// The tool a name selects, if any.
pub open spec fn tool_of(name: Seq<char>) -> Option<Tool> {
    if name == "create_project"@ {
        Some(Tool::CreateProject)
    } else if name == "pwd"@ {
        Some(Tool::Pwd)
    } else if name == "use_project"@ {
        Some(Tool::UseProject)
    } else if name == "get"@ {
        Some(Tool::Get)
    } else if name == "mkdir"@ {
        Some(Tool::Mkdir)
    } else if name == "ls"@ {
        Some(Tool::Ls)
    } else if name == "tree"@ {
        Some(Tool::Tree)
    } else if name == "put"@ {
        Some(Tool::Put)
    } else if name == "get_project_info"@ {
        Some(Tool::GetProjectInfo)
    } else if name == "build_start"@ {
        Some(Tool::BuildStart)
    } else if name == "build_status"@ {
        Some(Tool::BuildStatus)
    } else if name == "build_kill"@ {
        Some(Tool::BuildKill)
    } else if name == "git_status"@ {
        Some(Tool::GitStatus)
    } else if name == "git_log"@ {
        Some(Tool::GitLog)
    } else if name == "git_diff"@ {
        Some(Tool::GitDiff)
    } else if name == "git_diff_staged"@ {
        Some(Tool::GitDiffStaged)
    } else {
        None
    }
}

/// The name under which `tools/list` advertises a tool.
pub open spec fn tool_label(t: Tool) -> Seq<char> {
    match t {
        Tool::CreateProject => "create_project"@,
        Tool::Pwd => "pwd"@,
        Tool::UseProject => "use_project"@,
        Tool::Get => "get"@,
        Tool::Mkdir => "mkdir"@,
        Tool::Ls => "ls"@,
        Tool::Tree => "tree"@,
        Tool::Put => "put"@,
        Tool::GetProjectInfo => "get_project_info"@,
        Tool::BuildStart => "build_start"@,
        Tool::BuildStatus => "build_status"@,
        Tool::BuildKill => "build_kill"@,
        Tool::GitStatus => "git_status"@,
        Tool::GitLog => "git_log"@,
        Tool::GitDiff => "git_diff"@,
        Tool::GitDiffStaged => "git_diff_staged"@,
    }
}

/// Each tool is selected by its own advertised name and by no other text:
/// `tool_of(n)` is `Some(t)` exactly when `n` is `t`'s name, so two names
/// that select the same tool are the same name.
pub proof fn law_tools_are_selected_by_their_names(n: Seq<char>, m: Seq<char>, t: Tool)
    ensures
        (tool_of(n) == Some(t)) == (n == tool_label(t)),
        tool_of(n) is Some && tool_of(n) == tool_of(m) ==> n == m,
{
    reveal_strlit("create_project");
    reveal_strlit("pwd");
    reveal_strlit("use_project");
    reveal_strlit("get");
    reveal_strlit("mkdir");
    reveal_strlit("ls");
    reveal_strlit("tree");
    reveal_strlit("put");
    reveal_strlit("get_project_info");
    reveal_strlit("build_start");
    reveal_strlit("build_status");
    reveal_strlit("build_kill");
    reveal_strlit("git_status");
    reveal_strlit("git_log");
    reveal_strlit("git_diff");
    reveal_strlit("git_diff_staged");
    lemma_labels_differ();
    assert(tool_label(Tool::CreateProject) == "create_project"@);
    assert(tool_label(Tool::Pwd) == "pwd"@);
    assert(tool_label(Tool::UseProject) == "use_project"@);
    assert(tool_label(Tool::Get) == "get"@);
    assert(tool_label(Tool::Mkdir) == "mkdir"@);
    assert(tool_label(Tool::Ls) == "ls"@);
    assert(tool_label(Tool::Tree) == "tree"@);
    assert(tool_label(Tool::Put) == "put"@);
    assert(tool_label(Tool::GetProjectInfo) == "get_project_info"@);
    assert(tool_label(Tool::BuildStart) == "build_start"@);
    assert(tool_label(Tool::BuildStatus) == "build_status"@);
    assert(tool_label(Tool::BuildKill) == "build_kill"@);
    assert(tool_label(Tool::GitStatus) == "git_status"@);
    assert(tool_label(Tool::GitLog) == "git_log"@);
    assert(tool_label(Tool::GitDiff) == "git_diff"@);
    assert(tool_label(Tool::GitDiffStaged) == "git_diff_staged"@);
}

/// The tool a name's length and first two characters pick out.
spec fn tool_by_shape(s: Seq<char>) -> Tool {
    if s.len() == 14 {
        Tool::CreateProject
    } else if s.len() == 3 {
        if s[0] == 'g' {
            Tool::Get
        } else if s[1] == 'w' {
            Tool::Pwd
        } else {
            Tool::Put
        }
    } else if s.len() == 11 {
        if s[0] == 'u' {
            Tool::UseProject
        } else {
            Tool::BuildStart
        }
    } else if s.len() == 5 {
        Tool::Mkdir
    } else if s.len() == 2 {
        Tool::Ls
    } else if s.len() == 4 {
        Tool::Tree
    } else if s.len() == 16 {
        Tool::GetProjectInfo
    } else if s.len() == 12 {
        Tool::BuildStatus
    } else if s.len() == 10 {
        if s[0] == 'b' {
            Tool::BuildKill
        } else {
            Tool::GitStatus
        }
    } else if s.len() == 7 {
        Tool::GitLog
    } else if s.len() == 8 {
        Tool::GitDiff
    } else {
        Tool::GitDiffStaged
    }
}

/// No two tools share a name.
proof fn lemma_labels_differ()
    ensures
        forall|a: Tool, b: Tool| #[trigger] tool_label(a) == #[trigger] tool_label(b) ==> a == b,
{
    reveal_strlit("create_project");
    reveal_strlit("pwd");
    reveal_strlit("use_project");
    reveal_strlit("get");
    reveal_strlit("mkdir");
    reveal_strlit("ls");
    reveal_strlit("tree");
    reveal_strlit("put");
    reveal_strlit("get_project_info");
    reveal_strlit("build_start");
    reveal_strlit("build_status");
    reveal_strlit("build_kill");
    reveal_strlit("git_status");
    reveal_strlit("git_log");
    reveal_strlit("git_diff");
    reveal_strlit("git_diff_staged");
    assert forall|t: Tool| tool_by_shape(#[trigger] tool_label(t)) == t by {
        match t {
            Tool::CreateProject => {}
            Tool::Pwd => {}
            Tool::UseProject => {}
            Tool::Get => {}
            Tool::Mkdir => {}
            Tool::Ls => {}
            Tool::Tree => {}
            Tool::Put => {}
            Tool::GetProjectInfo => {}
            Tool::BuildStart => {}
            Tool::BuildStatus => {}
            Tool::BuildKill => {}
            Tool::GitStatus => {}
            Tool::GitLog => {}
            Tool::GitDiff => {}
            Tool::GitDiffStaged => {}
        }
    }
}

/// The tool a `tools/call` names, if the server has one by that name.
pub fn tool_named(name: &str) -> (r: Option<Tool>)
    ensures
        r == tool_of(name@),
{
    if str_eq(name, "create_project") {
        Some(Tool::CreateProject)
    } else if str_eq(name, "pwd") {
        Some(Tool::Pwd)
    } else if str_eq(name, "use_project") {
        Some(Tool::UseProject)
    } else if str_eq(name, "get") {
        Some(Tool::Get)
    } else if str_eq(name, "mkdir") {
        Some(Tool::Mkdir)
    } else if str_eq(name, "ls") {
        Some(Tool::Ls)
    } else if str_eq(name, "tree") {
        Some(Tool::Tree)
    } else if str_eq(name, "put") {
        Some(Tool::Put)
    } else if str_eq(name, "get_project_info") {
        Some(Tool::GetProjectInfo)
    } else if str_eq(name, "build_start") {
        Some(Tool::BuildStart)
    } else if str_eq(name, "build_status") {
        Some(Tool::BuildStatus)
    } else if str_eq(name, "build_kill") {
        Some(Tool::BuildKill)
    } else if str_eq(name, "git_status") {
        Some(Tool::GitStatus)
    } else if str_eq(name, "git_log") {
        Some(Tool::GitLog)
    } else if str_eq(name, "git_diff") {
        Some(Tool::GitDiff)
    } else if str_eq(name, "git_diff_staged") {
        Some(Tool::GitDiffStaged)
    } else {
        None
    }
}

// ── JSON-RPC errors ─────────────────────────────────────────────────────────

/// The JSON-RPC error a route is answered with, if any: -32600 for a
/// request without a method, -32601 naming an unknown `method`.
pub fn route_error(route: Route, method: &str) -> (r: Option<(i32, String)>)
    ensures
        route == Route::InvalidRequest ==> (r matches Some((c, m)) && c == -32600 && m@
            == "Invalid Request: missing method"@),
        route == Route::MethodNotFound ==> (r matches Some((c, m)) && c == -32601 && m@
            == "Method not found: "@ + method@),
        route != Route::InvalidRequest && route != Route::MethodNotFound ==> r is None,
{
    match route {
        Route::InvalidRequest => Some((-32600, string_of(&chars_of("Invalid Request: missing method")))),
        Route::MethodNotFound => {
            let mut m: Vec<char> = Vec::new();
            push_str(&mut m, "Method not found: ");
            push_str(&mut m, method);
            Some((-32601, string_of(&m)))
        },
        _ => None,
    }
}

/// The tool a `tools/call` runs, given its `name` parameter when that is a
/// string: -32602 when it is missing, -32601 when no tool has that name.
pub fn call_target(name: Option<&str>) -> (r: Result<Tool, (i32, String)>)
    ensures
        match name {
            None => r matches Err((c, m)) && c == -32602 && m@ == "Missing required parameter: name"@,
            Some(n) => match tool_of(n@) {
                Some(t) => r == Ok::<Tool, (i32, String)>(t),
                None => r matches Err((c, m)) && c == -32601 && m@ == "Unknown tool: "@ + n@,
            },
        },
{
    match name {
        None => Err((-32602, string_of(&chars_of("Missing required parameter: name")))),
        Some(n) => match tool_named(n) {
            Some(t) => Ok(t),
            None => {
                let mut m: Vec<char> = Vec::new();
                push_str(&mut m, "Unknown tool: ");
                push_str(&mut m, n);
                Err((-32601, string_of(&m)))
            },
        },
    }
}

/// The error for a required tool argument that is missing or not a string
/// (-32602).
pub fn missing_argument(key: &str) -> (r: (i32, String))
    ensures
        r.0 == -32602 && r.1@ == "Missing required argument: "@ + key@,
{
    let mut m: Vec<char> = Vec::new();
    push_str(&mut m, "Missing required argument: ");
    push_str(&mut m, key);
    (-32602, string_of(&m))
}

/// An argument that breaks its rule (-32602), with the rule's message.
pub fn invalid_params(message: String) -> (r: (i32, String))
    ensures
        r.0 == -32602 && r.1 == message,
{
    (-32602, message)
}

/// A failure of the server itself (-32603): what failed, then why.
pub fn internal_error(what: &str, detail: &str) -> (r: (i32, String))
    ensures
        r.0 == -32603 && r.1@ == what@ + ": "@ + detail@,
{
    let mut m: Vec<char> = Vec::new();
    push_str(&mut m, what);
    push_str(&mut m, ": ");
    push_str(&mut m, detail);
    (-32603, string_of(&m))
}

/// The answer to a body that is not JSON (-32700), with the parser's
/// message.
pub fn parse_error(detail: &str) -> (r: (i32, String))
    ensures
        r.0 == -32700 && r.1@ == "Parse error: "@ + detail@,
{
    let mut m: Vec<char> = Vec::new();
    push_str(&mut m, "Parse error: ");
    push_str(&mut m, detail);
    (-32700, string_of(&m))
}

// ── git arguments ───────────────────────────────────────────────────────────

/// The characters a git ref may hold: `[a-zA-Z0-9-_./~^]`.
pub open spec fn is_ref_char(c: char) -> bool {
    is_ascii_alnum(c) || c == '-' || c == '_' || c == '.' || c == '/' || c == '~' || c == '^'
}

/// A ref `git_diff` accepts: non-empty, at most `GIT_REF_MAX_LEN` long, and
/// made of ref characters only (all ASCII, so characters and bytes agree).
pub open spec fn valid_ref(r: Seq<char>) -> bool {
    r.len() > 0 && r.len() <= GIT_REF_MAX_LEN && forall|i: int| 0 <= i < r.len() ==> is_ref_char(
        r[i],
    )
}

/// Allowlist check for a git ref: only characters valid in git refs.
pub fn valid_git_ref(git_ref: &str) -> (r: bool)
    ensures
        r == valid_ref(git_ref@),
{
    let s = chars_of(git_ref);
    if s.len() == 0 || s.len() > GIT_REF_MAX_LEN {
        return false;
    }
    let mut i: usize = 0;
    while i < s.len()
        invariant
            i <= s.len(),
            s@ == git_ref@,
            0 < s@.len() <= GIT_REF_MAX_LEN,
            forall|k: int| 0 <= k < i ==> is_ref_char(s@[k]),
        decreases s.len() - i,
    {
        let c = s[i];
        if !(('a' <= c && c <= 'z') || ('A' <= c && c <= 'Z') || ('0' <= c && c <= '9') || c
            == '-' || c == '_' || c == '.' || c == '/' || c == '~' || c == '^') {
            assert(!is_ref_char(git_ref@[i as int]));
            return false;
        }
        i = i + 1;
    }
    true
}

/// The number of commits `git_log` shows: the requested `n` (10 when
/// absent), at most `GIT_LOG_MAX_N`.
pub fn log_count(n: Option<u64>) -> (r: u64)
    ensures
        r == (match n {
            Some(k) => if k > GIT_LOG_MAX_N {
                GIT_LOG_MAX_N
            } else {
                k
            },
            None => GIT_LOG_DEFAULT_N,
        }),
        r <= GIT_LOG_MAX_N,
{
    let k = match n {
        Some(k) => k,
        None => GIT_LOG_DEFAULT_N,
    };
    if k > GIT_LOG_MAX_N {
        GIT_LOG_MAX_N
    } else {
        k
    }
}

// ── numeric arguments ───────────────────────────────────────────────────────

/// What a JSON argument was, as far as numeric arguments care.
#[derive(Clone, Copy, Debug, PartialEq, Eq)]
pub enum NumArg {
    /// The argument is not there.
    Absent,
    /// The argument is `null`.
    Null,
    /// An integer that fits in `i64`.
    Int(i64),
    /// A string.
    Text,
    /// Anything else: another number, a boolean, an array or an object.
    Other,
}

/// "`name` must be a positive integer (>= 1)".
pub open spec fn positive_error(name: Seq<char>) -> Seq<char> {
    name + " must be a positive integer (>= 1)"@
}

/// Reads a 1-based line number argument of `get`: absent or `null` means
/// none; anything but an integer >= 1 is an error (JSON-RPC -32602).
pub fn parse_line_arg(v: NumArg, name: &str) -> (r: Result<Option<u64>, String>)
    ensures
        match v {
            NumArg::Absent | NumArg::Null => r == Ok::<Option<u64>, String>(None),
            NumArg::Int(n) => if n >= 1 {
                r == Ok::<Option<u64>, String>(Some(n as u64))
            } else {
                r matches Err(e) && e@ == positive_error(name@)
            },
            _ => r matches Err(e) && e@ == positive_error(name@),
        },
{
    match v {
        NumArg::Absent | NumArg::Null => Ok(None),
        NumArg::Int(n) => {
            if n >= 1 {
                Ok(Some(n as u64))
            } else {
                let mut msg = chars_of(name);
                push_str(&mut msg, " must be a positive integer (>= 1)");
                Err(string_of(&msg))
            }
        },
        _ => {
            let mut msg = chars_of(name);
            push_str(&mut msg, " must be a positive integer (>= 1)");
            Err(string_of(&msg))
        },
    }
}

/// "`name` must be a non-negative integer".
pub open spec fn non_negative_error(name: Seq<char>) -> Seq<char> {
    name + " must be a non-negative integer"@
}

/// Reads a context-line count of `grep`: absent or `null` means 0; anything
/// but an integer >= 0 is an error (JSON-RPC -32602); the count is capped at
/// `GREP_MAX_CONTEXT`.
pub fn parse_context(v: NumArg, name: &str) -> (r: Result<u64, String>)
    ensures
        match v {
            NumArg::Absent | NumArg::Null => r == Ok::<u64, String>(0),
            NumArg::Int(n) => if n >= 0 {
                r == Ok::<u64, String>(
                    if n as u64 > GREP_MAX_CONTEXT {
                        GREP_MAX_CONTEXT
                    } else {
                        n as u64
                    },
                )
            } else {
                r matches Err(e) && e@ == non_negative_error(name@)
            },
            _ => r matches Err(e) && e@ == non_negative_error(name@),
        },
{
    match v {
        NumArg::Absent | NumArg::Null => Ok(0),
        NumArg::Int(n) => {
            if n >= 0 {
                let k = n as u64;
                if k > GREP_MAX_CONTEXT {
                    Ok(GREP_MAX_CONTEXT)
                } else {
                    Ok(k)
                }
            } else {
                let mut msg = chars_of(name);
                push_str(&mut msg, " must be a non-negative integer");
                Err(string_of(&msg))
            }
        },
        _ => {
            let mut msg = chars_of(name);
            push_str(&mut msg, " must be a non-negative integer");
            Err(string_of(&msg))
        },
    }
}

/// The refusal of an `occurrence` argument that is not an integer.
pub open spec fn occurrence_error(detail: Seq<char>) -> Seq<char> {
    "400: invalid 'occurrence' — "@ + detail
        + ". Choose one: 0 = require old_str to be unique (error if it appears more than once), -1 = replace every occurrence, n>=1 = replace only the n-th occurrence (1-indexed)."@
}

/// Reads the `occurrence` argument of `str_replace`, which must be an
/// integer (its range is checked once the matches are known).
pub fn parse_occurrence(v: NumArg) -> (r: Result<i64, String>)
    ensures
        match v {
            NumArg::Int(n) => r == Ok::<i64, String>(n),
            NumArg::Absent => r matches Err(e) && e@ == occurrence_error("argument is missing"@),
            NumArg::Text => r matches Err(e) && e@ == occurrence_error(
                "argument must be an integer, not a string"@,
            ),
            _ => r matches Err(e) && e@ == occurrence_error("argument must be an integer"@),
        },
{
    let detail = match v {
        NumArg::Int(n) => {
            return Ok(n);
        },
        NumArg::Absent => "argument is missing",
        NumArg::Text => "argument must be an integer, not a string",
        _ => "argument must be an integer",
    };
    let mut msg: Vec<char> = Vec::new();
    push_str(&mut msg, "400: invalid 'occurrence' — ");
    push_str(&mut msg, detail);
    push_str(
        &mut msg,
        ". Choose one: 0 = require old_str to be unique (error if it appears more than once), -1 = replace every occurrence, n>=1 = replace only the n-th occurrence (1-indexed).",
    );
    Err(string_of(&msg))
}

/// Checks that a requested line range of `get` is not reversed.
pub fn check_line_range(start: Option<u64>, end: Option<u64>) -> (r: Result<(), String>)
    ensures
        match (start, end) {
            (Some(s), Some(e)) => if s > e {
                r matches Err(m) && m@ == "400: start_line "@ + decimal(s as nat)
                    + " is greater than end_line "@ + decimal(e as nat) + "."@
            } else {
                r is Ok
            },
            _ => r is Ok,
        },
{
    if let (Some(s), Some(e)) = (start, end) {
        if s > e {
            let mut msg: Vec<char> = Vec::new();
            push_str(&mut msg, "400: start_line ");
            push_decimal(&mut msg, s as u128);
            push_str(&mut msg, " is greater than end_line ");
            push_decimal(&mut msg, e as u128);
            push_str(&mut msg, ".");
            return Err(string_of(&msg));
        }
    }
    Ok(())
}

// ── grep patterns ───────────────────────────────────────────────────────────

/// Checks a grep pattern: it must be non-empty and at most
/// `GREP_PATTERN_MAX_LEN` bytes long.
pub fn check_grep_pattern(regex: &str) -> (r: Result<(), String>)
    ensures
        regex@.len() == 0 ==> (r matches Err(m) && m@ == "400: regex must not be empty."@),
        regex@.len() > 0 && regex.len() > GREP_PATTERN_MAX_LEN ==> (r matches Err(m)
            && m@ == "400: regex is "@ + decimal(regex.len() as nat) + " bytes, exceeds max "@
            + decimal(GREP_PATTERN_MAX_LEN as nat) + "."@),
        regex@.len() > 0 && regex.len() <= GREP_PATTERN_MAX_LEN ==> r is Ok,
{
    if regex.is_empty() {
        return Err(string_of(&chars_of("400: regex must not be empty.")));
    }
    let n = regex.len();
    if n > GREP_PATTERN_MAX_LEN {
        let mut msg: Vec<char> = Vec::new();
        push_str(&mut msg, "400: regex is ");
        push_decimal(&mut msg, n as u128);
        push_str(&mut msg, " bytes, exceeds max ");
        push_decimal(&mut msg, GREP_PATTERN_MAX_LEN as u128);
        push_str(&mut msg, ".");
        return Err(string_of(&msg));
    }
    Ok(())
}

} // verus!
