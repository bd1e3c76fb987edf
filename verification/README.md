# codemcp

The verified core of codemcp, a gateway that connects to many upstream MCP
servers and offers their tools through one `execute_python` tool.

- `src/` is the library. It decides and computes on plain values. Every function
  has a contract that Verus proves, but for eight wrappers round calls of other
  crates and of std, whose contracts are taken on trust. Work with sockets, files,
  child processes and HTTP is described by state machines: each step says what to
  do next and is told what came of it.
- `app/` is the program around it: it performs the actions and hands back the
  events. The Python side (SDK generation, the worker, the setup of a harness) is
  a helper program of its own, named by `CODEMCP_WORKER`.
- `tests/` runs the library on concrete values.

| Module | What it holds |
|---|---|
| `config` | `mcp.json`: placeholders, the list of servers, the `enabled` flag |
| `file_format` | what the JSON value of `mcp.json` says of the servers |
| `upstream` | the connected servers, their tools and the routing of calls |
| `runtime` | the configured servers, switching them on and off, the current SDK |
| `reload` | the renewal of the SDK and the telling of clients |
| `admin` | the admin socket, on the side of the gateway and of the client |
| `cli` | the commands and what is printed for them |
| `gateway` | the life of a gateway |
| `login` | the OAuth login |
| `update`, `installer` | the self-update |
| `settings` | the environment variables |
| `json`, `names`, `text`, `error` | JSON values, sorted maps, strings, errors |

The wrappers stand in `json` (`serde_json`), `update` (`sha2`), `login` (`url`) and
`error` (std's `Debug` of strings). Their doc comments say what is taken on trust.
