# ctxmux

A terminal multiplexer for local programs, as a daemon and its client. The
daemon owns *Runs* (programs on a pseudoterminal, or panes of a tmux server that
it imported), keeps their output, and lets any number of clients attach, control
and stop them. It can be replaced by a newer executable while its Runs live on.

The rules of the daemon and of its client are a verified library under `src/`.
What performs I/O and runs the event loops stands under `app/`, which asks the
library what to do next.

## Layout

- `src/protocol.rs`, `src/identity.rs`, `src/base64.rs`, `src/run_spec.rs`,
  `src/output.rs`: the values that client and daemon exchange.
- `src/client/`: a client, as functions from what was received to what is
  returned: connecting, receipts, replay, and the state of a live attachment
  with its pending commands and its bounded inbox of events.
- `src/daemon/`: the daemon: the registry of Runs and its bounded records, the
  ledger of stop operations, creation and publication, owners of unfinished
  cleanups, the output log, live attachments, tmux control clients, budgets of
  descriptors, recoverable Input, the handoff manifest, the exec upgrade, and shutdown.
- `src/exchange.rs`: what holds of a client and a daemon together.
- `src/cli.rs`: command lines.
- `app/`: sockets, processes, pseudoterminals, JSON and the event loops.
- `tests/`: runs of the library on concrete values.

## How the library is written

Each type with state has a mathematical view (`RegistryView`, `RunView`,
`CommandsView` and others) with a `valid` predicate. Operations are described by
spec functions on the views, and every executable function states its result
over them. Public proof functions named `law_...` state what holds across
several operations.

A loop that waits or performs I/O appears as a function that takes what was
observed and returns what to do next. The few calls into other crates are
wrapped in functions whose doc comments say what is relied upon.
