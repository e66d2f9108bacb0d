# ecstest

A container-orchestration demo built around an ECS world: a daemon pulls, boots and
stops mock containers in dependency order, and a client shows them in a plain or
full-screen terminal view, connected to the daemon over a local socket.

The logic is a Verus library, verified against its contracts:

- `phase`, `protocol`: container phases, their labels and wire form.
- `lifecycle`, `machines`: the container and orchestrator state machines and one run
  of all of them over the daemon's world, with laws on ordering, progress and exit.
- `world`, `message`, `commands`, `systems`, `events`: the daemon's world and what each
  message, command and event does to it.
- `backend`: the mock backend's plans and the mirror backend's decisions.
- `logs`, `merged`, `sort`: log buffers and the merged, stably time-sorted log view.
- `render`, `tui`, `text`: the plain and full-screen frames as lines and terminal
  commands.
- `packet`: replication packets and their framing.
- `session`: the main loop's and the transports' decisions.

`app/` is the program around it: the Bevy world, the Tokio tasks, the socket, the
terminal and the command line. `tests/` runs the library on concrete cases.
