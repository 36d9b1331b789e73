# garcard

`garcard` is a polkit authentication agent for the gar desktop suite: it
registers with the polkit authority on D-Bus, queues the authentication
requests it receives, asks the user for an identity, a retention policy and
a secret, drives `polkit-agent-helper-1` line by line, and answers a small
control socket.

The decision logic is a library written in Verus and verified:

- `src/state.rs`: the auth phase machine, the single-active FIFO request
  queue and the status snapshot.
- `src/runtime.rs`: the agent runtime (queue, outcomes, cancellations) and
  the retry, retention, session and maintenance decisions.
- `src/agent.rs`: request details, prompt texts, identity and retention
  choices.
- `src/polkit_helper.rs`: the helper line protocol and the conversation
  state machine; where the helper binary is looked for.
- `src/prompt.rs`, `src/prompt_ui.rs`: prompt routing, prompt program
  arguments and results, the dialog's line editor, timers and frame content.
- `src/authority.rs`: polkit subjects, temporary authorizations (sorted by
  action, stably) and the diagnostics report.
- `src/daemon.rs`: backend selection, object path validation and IPC peer
  checks.
- `src/text.rs`, `src/text_map.rs`, `src/proc_stat.rs`: text utilities, a
  text-keyed map and the `/proc/self/stat` start time.

`app/` holds the program around it: the command line, the tokio control
socket, the zbus agent object, the helper socket and process, the prompt
programs and the X11 dialog.
