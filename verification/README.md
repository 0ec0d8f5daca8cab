# clhorde

A verified core for running many coding agents side by side: a daemon that
queues prompts and runs each in a worker, a command line that talks to it, and
a scheduler that turns planned changes into prompts, one section after the
other. Every function of the library carries a contract that Verus proves, but
for the few that call outside crates or std and whose contracts are trusted (see
below).

## Layout

- `src/` - the library.
  - `daemon/` - the daemon as a state machine: `orchestrator` takes requests and
    worker messages and answers with effects to carry out; `model` says what
    each of them does; `laws` says what holds of all of them. `session`,
    `connection`, `restore`, `startup`, `worker` and `pty_worker` are its parts.
  - `scheduler/` - which sections can run, the commands, the control protocol,
    the exploring of tickets and the loop that keeps a connection.
  - `openspec/` - task lists: parsing, annotations, the graph of sections,
    discovery of changes, and what a change of files touches.
  - `jira/` - the ticket source: configuration, requests, retries, polling,
    admission and write-back.
  - `cli/` - the command line, from arguments to requests and printed text.
  - `ipc`, `protocol`, `control`, `prompt`, `pty`, `keymap`, `actions`,
    `config`, `worktree` - what the programs share.
  - `text`, `order`, `paths`, `time` - strings, sorting, paths and durations.
- `tests/` - tests, against the library as a caller sees it.
- `app/` - the programs around the library: sockets, files, processes,
  terminals, HTTP, JSON and TOML.

## What is trusted

A few functions call outside crates or parts of std that Verus has no
specification for. Each says in its doc comment what is believed of the call:
`text` (lower case, quoting), `config` (TOML), `jira::auth` (base64), `jira::client` (URLs),
`scheduler::commands` (dates, templates), `daemon::worker` (JSON) and
`daemon::pty_worker` (terminal emulation).

## Running the programs

The binary acts by the name it is called under: `clhorded` is the daemon,
`clhorde-scheduler` the scheduler, and any other name the command line.
`CLHORDE_AGENT` names the agent that workers run.
