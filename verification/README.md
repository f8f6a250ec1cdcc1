# ate

A tool executor for agents: tools run under a schema check, a concurrency
limit, deadlines and cancellation; a daemon inside WSL serves them to a Windows
host over a framed protocol; plugins add tools of their own.

The logic is a Verus library, `src/`. Every function there is verified against
its contract. What only the machine can do (processes, files, sockets, time)
is in `app/`, which calls the library and does what it decides.

## Layout

| Module | What it decides |
| --- | --- |
| `engine` | the life of one execution and of a batch, permits and deadlines, the tool registry, events and diagnostics |
| `protocol` | frames and messages between host and daemon |
| `client` | the host's side of a connection |
| `daemon` | the daemon's side: handshake, sessions, configuration, state, commands |
| `plugin` | manifests, packages, the plugin store and its discovery, installation, the start of plugins and their supervisor |
| `runtime` | commands: arguments, environment, limits, captured output |
| `tools` | `Read`, `Write`, `Edit`, `Glob`, `Grep` and `WebFetch` |
| `mcp`, `cli` | the MCP bridge and the `ate` command line |
| `json`, `path`, `text`, `text_map` | the values that all of it works on |

Functions named `law_*` state what holds across several functions, such as that
frames round-trip, that the results of a batch follow its requests, that every
accepted execution and every plugin call is answered exactly once, that the text
of a page is stripped of its tags for good, or that an installed plugin survives a
failed replacement.

## Conventions

- Paths are texts in Linux syntax; names that come out of a directory or an
  archive are bytes.
- Times are nanoseconds; the current time is an argument.
- What comes from outside (a decoded manifest, a canonical path, a command's
  exit) is an argument too, so a function is verified for every value of it.
- State machines (`Execution`, `PluginSupervisor`, `Connection`, `WslClient`,
  `McpSession`, `Climb`, the install steps) take an event and return what is to be done.
- Functions that call other crates (`semver`, `jsonschema`, `serde_json`,
  `flate2`, `tar`, `url`, `tokio`) are marked `external_body`; their doc comments
  say what is taken for granted.
- Maps keyed by text are `TextMap`, an ordered vector with a map as its view.

`app/main.rs` is one program under three names: `ate`, `ate-mcp` and the daemon.
