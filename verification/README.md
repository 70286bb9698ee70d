# OpenOrchestrator

A Codex-first agent orchestrator: one always-on gateway, one main brain and the
agents it spawns, a memory of conversations, notes and tasks, Slack, and a chat in
the terminal.

- `src/` is the library, verified with Verus. It decides: what a message leads to,
  what is remembered and found, what a prompt says, which requests are from Slack,
  which files are taken and sent. Functions take plain values and give plain values
  back, and their contracts say which. What must wait for the outside (saving,
  running Codex, fetching a file) is asked for in steps.
  - `text`, `number`, `json`, `paths`: the ground the rest is written on.
  - `config`, `state`, `agents`, `commands`, `prompt`, `codex`, `orchestrator`: from
    a message to its reply.
  - `chat`, `gateway`, `slack`, `slack_api`, `slack_files`, `socket`, `tui`,
    `onboarding`: the edges.
  - `state_laws`, `orchestrator_laws`, `slack_files_laws`: what holds of these as a
    whole. Shorter modules end with their laws.
  - `outside`: what is believed of other crates.
- `app/` is the program around it: the command line, files, processes, HTTP and
  websockets.
- `tests/` runs the library.

Commands: `openorchestrator onboard`, `gateway run [--host --port]`,
`tui [--url --session --agent]`, `config show`, `config set <path> <value>` and
`config path`.
