# unitctl

On-board controller of a drone unit: it keeps the MAVLink link alive, reads the unit's
sensors, reports over MQTT and carries out commands.

- `src/` is the library. It holds the rules for configurations, the topics and messages,
  the lifecycle of a command, the allowlist for AT commands, the restart state machine,
  the deduplication window, and what the sensors make of what they read. All of it is
  verified with [Verus](https://github.com/verus-lang/verus).
- `app/` is the program around it: sockets, files, subprocesses, clocks and JSON. Its
  loops perform what the library decides and hand back what happened.
- `tests/` runs the library on concrete values.

What the library calls outside of itself, it calls through a few small items whose
contracts are believed: `text.rs` (`String::push`, `Debug` of `str`, UTF-8 decoding),
`time.rs` (the clock of `chrono`), `services/mqtt/transport.rs` (the generator of `rand`)
and `sensors/ping.rs` (`regex`).

Numbers that may be fractions are carried by their bit patterns (`Binary64`, `Binary32`),
as text (`FloatText`) or in thousandths; only `app/` turns them into floating point.
Where rates are computed with the precision of binary64, `arithmetic.rs` does so in
integers.
