# stui

A small host/surface/runtime experiment, written in Verus.

`src/` is the verified library:

- `component`, `event`, `host`, `render`, `surface`: the core descriptors,
  states, capabilities and the host and present ports.
- `runtime`: the black-box runtime, a state machine from runtime events to
  host commands, with its component tree resolved under a behaviour phase.
- `inspect`: snapshots of the runtime and their JSON and text renderings.
- `ipc`: channel naming, JSON envelopes, length-prefixed frames and the
  reading of transport failures.
- `desktop`: the session plan, the host and presenter models, the pixels a
  present draws, and the desktop session that turns window inputs and
  runtime commands into actions for the program.
- `playground`: the black-box playground's configuration, outputs and IPC
  service (control requests and a bounded, drop-oldest event queue).
- `dev`: the development supervisor's session files, statuses, log tails,
  command lines and report lines, and the decisions of its actions: the
  steps of a start (stages, a bounded retry), the waits with their
  deadlines, what a stop does, and what a prune removes.
- `text`: the character-level helpers the others share.

`app/` is the program around it: command lines, sockets and registry files,
processes, the clock and the environment, and the winit/softbuffer window.
One binary serves as the playground, as `stui-dev` and as `stui-pack`,
depending on the name it runs under.
