use file_mcp::protocol::{
    check_grep_pattern, check_line_range, log_count, parse_context, parse_line_arg,
    parse_occurrence, route_request, tool_named, valid_git_ref, NumArg, Route, Tool,
    call_target, internal_error, invalid_params, missing_argument, parse_error, route_error,
};

#[test]
fn routes() {
    assert_eq!(route_request(true, Some("initialize")), Route::Initialize);
    assert_eq!(route_request(true, Some("ping")), Route::Ping);
    assert_eq!(route_request(true, Some("tools/list")), Route::ToolsList);
    assert_eq!(route_request(true, Some("tools/call")), Route::ToolsCall);
    assert_eq!(route_request(true, Some("nope")), Route::MethodNotFound);
    assert_eq!(route_request(true, None), Route::InvalidRequest);
    assert_eq!(route_request(false, None), Route::Ignore);
    assert_eq!(route_request(false, Some("ping")), Route::Ignore);
}

#[test]
fn tools() {
    assert_eq!(tool_named("put"), Some(Tool::Put));
    assert_eq!(tool_named("git_diff_staged"), Some(Tool::GitDiffStaged));
    assert_eq!(tool_named("build_kill"), Some(Tool::BuildKill));
    assert_eq!(tool_named("str_replace"), None);
    assert_eq!(tool_named("grep"), None);
    assert_eq!(tool_named("rm"), None);
}

#[test]
fn git_refs() {
    assert!(valid_git_ref("HEAD~2"));
    assert!(valid_git_ref("origin/main^"));
    assert!(!valid_git_ref(""));
    assert!(!valid_git_ref("a;rm -rf"));
    assert!(valid_git_ref(&"a".repeat(200)));
    assert!(!valid_git_ref(&"a".repeat(201)));
}

#[test]
fn log_counts() {
    assert_eq!(log_count(None), 10);
    assert_eq!(log_count(Some(5)), 5);
    assert_eq!(log_count(Some(10_000)), 200);
}

#[test]
fn line_args() {
    assert_eq!(parse_line_arg(NumArg::Absent, "start_line"), Ok(None));
    assert_eq!(parse_line_arg(NumArg::Null, "start_line"), Ok(None));
    assert_eq!(parse_line_arg(NumArg::Int(3), "start_line"), Ok(Some(3)));
    assert_eq!(
        parse_line_arg(NumArg::Int(0), "end_line"),
        Err("end_line must be a positive integer (>= 1)".to_string())
    );
    assert!(parse_line_arg(NumArg::Text, "end_line").is_err());
    assert_eq!(
        check_line_range(Some(5), Some(2)),
        Err("400: start_line 5 is greater than end_line 2.".to_string())
    );
    assert!(check_line_range(Some(2), Some(2)).is_ok());
    assert!(check_line_range(None, Some(2)).is_ok());
}

#[test]
fn context_args() {
    assert_eq!(parse_context(NumArg::Absent, "lines_after"), Ok(0));
    assert_eq!(parse_context(NumArg::Int(3), "lines_after"), Ok(3));
    assert_eq!(parse_context(NumArg::Int(1000), "lines_after"), Ok(10));
    assert_eq!(
        parse_context(NumArg::Int(-1), "lines_before"),
        Err("lines_before must be a non-negative integer".to_string())
    );
    assert!(parse_context(NumArg::Other, "lines_before").is_err());
}

#[test]
fn occurrences() {
    assert_eq!(parse_occurrence(NumArg::Int(-1)), Ok(-1));
    let e = parse_occurrence(NumArg::Text).unwrap_err();
    assert!(e.starts_with("400: invalid 'occurrence' — argument must be an integer, not a string. Choose one:"));
    let e = parse_occurrence(NumArg::Absent).unwrap_err();
    assert!(e.starts_with("400: invalid 'occurrence' — argument is missing."));
    let e = parse_occurrence(NumArg::Other).unwrap_err();
    assert!(e.starts_with("400: invalid 'occurrence' — argument must be an integer."));
}

#[test]
fn grep_patterns() {
    assert_eq!(check_grep_pattern(""), Err("400: regex must not be empty.".to_string()));
    assert!(check_grep_pattern("fn main").is_ok());
    assert_eq!(
        check_grep_pattern(&"é".repeat(501)),
        Err("400: regex is 1002 bytes, exceeds max 1000.".to_string())
    );
}

#[test]
fn json_rpc_errors() {
    assert_eq!(route_error(Route::InvalidRequest, ""), Some((-32600, "Invalid Request: missing method".to_string())));
    assert_eq!(route_error(Route::MethodNotFound, "foo/bar"), Some((-32601, "Method not found: foo/bar".to_string())));
    assert_eq!(route_error(Route::Ping, "ping"), None);
    assert_eq!(route_error(Route::Ignore, "x"), None);
    assert_eq!(call_target(Some("ls")), Ok(Tool::Ls));
    assert_eq!(call_target(None), Err((-32602, "Missing required parameter: name".to_string())));
    assert_eq!(call_target(Some("grep")), Err((-32601, "Unknown tool: grep".to_string())));
    assert_eq!(missing_argument("path"), (-32602, "Missing required argument: path".to_string()));
    assert_eq!(invalid_params("bad".to_string()), (-32602, "bad".to_string()));
    assert_eq!(internal_error("Failed to read file", "denied"), (-32603, "Failed to read file: denied".to_string()));
    assert_eq!(parse_error("EOF"), (-32700, "Parse error: EOF".to_string()));
}
