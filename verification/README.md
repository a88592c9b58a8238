# uperf

Performance control for Linux devices, as a verified library: the daemon's state
owner, the Linux adapters, the desktop client's decisions and the capability
probe. The functions in `src/` carry contracts that Verus proves. Of the two
clocks they state which call is made and what becomes of its result, not the time.

- `src/daemon` – the single owner of the runtime state: commands, observations,
  thermal caps, overrides, workloads, sleep and shutdown barriers, reloads,
  reconciliation, and what is published of all that. `lifetime.rs` and `lists.rs`
  state what stays true over any row of inputs.
- `src/linux` – kernel file formats, hardware discovery, rooted sysfs access,
  task scheduling, systemd units, touch input. A change of scheduling
  (`transaction.rs`) or of a unit is a state machine whose calls are made outside.
- `src/gui` – localization, presentation and the connection of the desktop
  client.
- `src/platform.rs`, `src/model.rs`, `src/api.rs` – the types that these share.
- `src/text.rs`, `src/number.rs`, `src/order.rs`, `src/table.rs`, `src/cpuset.rs`,
  `src/paths.rs` – texts, numbers, ordered tables and sets, paths.
- `src/probe.rs`, `src/testkit.rs` – the probe's arguments and drafts, and a
  deterministic platform for tests.

The state owner does no work itself. Each input is one call of one of its
methods; what has to happen outside is put into its outbox as an action, and the
end of that work comes back as another input. `app/` performs the actions: it
reads and writes files, talks to D-Bus, opens touch devices and runs the
asynchronous tasks. What is left to decide there is floating point: gauges and
the range of touch thresholds.

Loads and touch coordinates are exact fractions in the library. Times are
milliseconds of a monotonic clock.
