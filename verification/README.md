# vita_gdb

A GDB remote stub for the PlayStation Vita kernel. The decisions of the stub
live in a library verified with Verus (`src/`); the kernel plumbing, the
exception vectors and the `gdbstub` trait implementations live in `app/`.

## Library (`src/`)

- `insn` — the decoded form of an ARM or Thumb instruction that the
  next-pc predictor reads, and the one call into `yaxpeax-arm` that decodes.
- `next_pc` — where execution goes after the instruction at `pc`: branches,
  loads and data-processing writes to `pc`, `bx`/`blx`, `cbz`/`cbnz`,
  table branches, with the condition codes.
- `armv7` — the GDB register file of ARMv7 and its wire encoding.
- `mpsc` — a bounded first-in first-out ring.
- `session` — a debug session: the hardware breakpoint and watchpoint
  slots, the software breakpoint table, the exception queue and the
  single-step bookkeeping.
- `handlers` — how an abort, undefined instruction or breakpoint exception
  is classified and what it records in the session.
- `registers` — reading and writing registers of a stopped thread.
- `monitor` — parsing of `monitor` commands.
- `target` — launch requests, resume actions, single-step targets and the
  library list.
- `tcpconn` — the receive state machine and send buffer of the connection.
- `utils` — kernel errors, bounded writers, argument blocks and title ids.

## Application (`app/`)

The kernel module entry point, the exception and process-event handlers,
the TCP listener and worker threads, and the `gdbstub` target. It builds
only with the Vita SDK.

## Tests

`tests/` runs the library on concrete inputs, including the predictor's
instruction-by-instruction cases.
