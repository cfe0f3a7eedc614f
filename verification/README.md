# caliber

Bounded mechanisms for a boundary between application logic and its
presentation, verified with Verus, together with the host context behind the
C function table, a synthetic backend that exercises them, and the rules of
the exact-Git dependency tool.

## Layout

- `src/` — the verified library.
  - `control`, `state`, `resource`, `telemetry`, `stream`, `wake`: the
    single-owner mechanisms (ordered command queue, revisioned publication,
    generation-checked resources, latest-value telemetry, SPSC ring, wake
    level).
  - `abi`, `slots`, `context`, `gate`: limits and statuses of the C table,
    external resource ids, the context behind the table, and the decisions
    of the blocking wake wait.
  - `synthetic`, `wire`, `backend`: the synthetic backend, its fixed-size
    wire state (encoded with postcard) and its command trace.
  - `deps`, `repository`, `cli`, `checkout`, `hooks`, `doctor`, `text`: lock
    validation, repository address comparison, argument parsing, the
    decisions of `sync`/`status`/`update`/`pin`, validation hooks, and the
    doctor's checks.
- `tests/` — tests of the library.
- `app/` — the program around it: the `caliber` command (files, Git,
  processes), the C table with raw pointers and locks, dynamic loading for
  the boundary check, and the floating-point meter of the synthetic backend.
