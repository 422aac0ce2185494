# file-mcp

A small MCP (Model Context Protocol) server that lets a model scaffold, read,
write, build and git-manage one project directory at a time, with its core
verified by Verus.

- `src/` is the verified library: path and name validation, the checks every
  write passes, commit-message sanitising, in-place text replacement
  and grep command lines (library functions the server does not route),
  paging, trees and ranged reads, the scaffold plans of new
  projects, the JSON-RPC routing and argument rules, the replies built from
  command output, and the session state with its background build jobs.
  Each public function states its result over spec functions in its
  `ensures`; the `law_*` proof functions state what holds across calls.
- `app/` is the server around it: stdio or HTTP transport, JSON handling,
  the file system, git and the build processes.
- `tests/` exercise the library on concrete values.

The server speaks JSON-RPC over stdio by default; `--http` serves it on
`127.0.0.1:$PORT` (default 3000). `PRJ_DIR` sets the directory projects live
in (default: the working directory) and `GIT_CMD` an absolute path to git.
