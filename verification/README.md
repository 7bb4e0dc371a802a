# agent_browser

The fast control paths of a browser daemon, as a verified library. Three programs share it:

- `agent-browser-fast-channel` keeps one connection for each session and carries JSON requests, one
  per line, from standard input to the daemons.
- `agent-browser-fast-mcp` offers the core browser tools to a client over the same kind of
  connection, and starts a session through a command line where that is allowed.
- `tempera-browser-fastpath` is a gateway between many clients and one daemon. It serves
  observations again for a few milliseconds and forwards everything else at most once.

## Layout

- `src/` holds all decisions: which names and limits are allowed, which bytes go to a daemon, what
  follows each outcome, and what a client is told. Each is a function with a contract, and what
  spans several of them is stated as a `law_...` function.
  - `text`, `json`, `path`, `registry`, `session`: the groundwork.
  - `fast_transport`, `fast_channel`: commands over persistent connections.
  - `fast_mcp`, `fast_mcp_command`, `fast_mcp_tools`, `fast_mcp_config`, `fast_mcp_bootstrap`: the
    tool server.
  - `fast_path`, `fast_path_args`: the gateway.
- `app/` opens sockets, starts processes, reads clocks and the environment, and does what the library
  says.
- `tests/` runs the library on concrete values.

What the library takes from outside without proof is the behaviour of `serde_json`, of
`dirs::home_dir` and of a few functions of the standard library; each such function is declared with
what is relied upon.
