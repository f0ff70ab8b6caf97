# subagent

Subagents of a chat assistant: whether a call of the `Task` tool starts one, and how it
then works through its task, turn by turn, until it reports back. Written in Rust and
verified with Verus.

- `src/` is the verified library. It decides and does no input or output.
  - `spawn`, `task`: what the arguments of the `Task` tool ask for, and whether a
    subagent is started.
  - `run`, `protocol`: one run as a state machine. `Run::step` takes in what became of
    the last action and says what to do next; `RunView::transition` specifies it.
  - `chat`, `todo`, `json`: messages, tools and tool calls, todo lists, and the JSON
    documents behind them.
  - `report`, `text`: the texts that a subagent writes.
  - `command`: the command that opens the MCP panel.
  - `laws`: what holds of whole runs. Laws of single texts and decisions stand beside
    the functions that they speak of.
- `app/` drives runs with tokio against the program's tools and model provider.
- `tests/` runs the library with `serde_json` linked.

`serde_json::Value` is opaque to the verifier. `json::json_of` names its contents as a
tree, and the calls into the crate are trusted to do to that tree what their
documentation says. Of the standard library, `str::trim`, `str::contains` and
`str::to_lowercase` are trusted likewise.
