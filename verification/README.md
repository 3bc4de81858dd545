# tenon

The logic of tenon, an agent for Neovim, as a library verified with Verus.

`src/` holds the library. Every function in it is verified against its
`requires`/`ensures` contract; the functions marked
`#[verifier::external_body]` are the only unproved ones, each a thin call into
`regex`, `globset`, `shlex`, `image`, `base64`, `rand`, `serde_json` or std,
with a contract taken from that crate's documentation.

- `config`, `clients`, `directive`, `knowledge`: resolving the user's
  configuration (connectors, models, agents, directives, tools, history,
  title) into the settings the agent runs with, and rendering directives and
  knowledge.
- `tools`: the agent's tools. Each tool's decisions (argument checks,
  whitelists, edits, searches, listings, moves, retries, error messages) are
  functions from plain values to plain values; `tools/mod.rs` classifies and
  selects tools.
- `actions`, `ui`, `hooks`, `mcp`, `rag`: picker labels and the selection
  snippet, how messages show in the chat, user hooks, tools of MCP servers,
  and the order in which texts are embedded.
- `text`, `paths`, `offsets`, `pattern`, `error`: shared string, path and
  offset functions with their specifications, compiled regexes, the error
  type.

Public `proof fn`s state the library's laws (for instance that search results
are listed in path order, that a hook's picker label gives back its name, or
that an edit at the end of a file leaves it ending with a newline).

`tests/` runs the library on concrete values. `app/` is the host side: it
parses the configuration and Cargo files with serde, walks and changes the
file system, runs processes and hooks, and hands plain values to the library.
