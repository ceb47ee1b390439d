# motion_daemon

A daemon that moves machine axes. It owns shared-memory segments through which
an operator interface reads machine state and sends commands, runs one state
machine per axis every cycle, and talks to drives over a fieldbus (EtherCAT, or
a simulated bus).

`src/` is the daemon's logic, written and proved in Verus. `app/` is the program
around it: clock, memory mapping, sockets, signals, and binary64 arithmetic.
`tests/` runs the library.

## Layout of `src/`

| module     | what it holds                                                          |
|------------|------------------------------------------------------------------------|
| `scalar`   | binary64 numbers as bit patterns: order, sign, zero, finiteness         |
| `time`     | spans and points of monotonic time                                      |
| `text`     | trimming, splitting, whole numbers                                      |
| `fieldbus` | the vocabulary between motion control and any bus                       |
| `motion`   | steps, flags, the axis state machine, profile choices, the machine      |
| `sim`      | the simulated bus                                                       |
| `ethercat` | drive sequencing, process image, working counter, start, exchange, stop |
| `shm`      | segment layouts, seqlock, command latch, trace ring                     |
| `daemon`   | the control cycle, controlled stop, pacing, trace record, configuration |

What holds of a single call stands in its contract. What holds across calls
stands in the modules ending in `_laws`, and beside the functions it is about.

Binary64 sums and products are not part of the proofs. Where a step needs one,
the library says which (`Demand`, `SimDemand`), the application computes it, and
the library decides what becomes of the result.

## Design decisions

- **ADR-1** The bus boundary is a normalised axis image, in user units and
  enumerations. Drive profiles and raw registers stay inside an adapter.
- **ADR-2** Bus input and output is asynchronous and statically dispatched; the
  cycle boxes no future.
- **ADR-3** What an axis can do is data: who runs the trajectory, and how often
  the bus is served.
- **ADR-4** The drive's power state machine belongs to the adapter, and is
  written here. Motion control sees enabled, not enabled, fault.
- **ADR-5** Parameter access is a handle of its own, never used in the cycle.
- **ADR-6** Bus events are plain values, polled in the cycle.
- **ADR-7** Segments follow a seqlock: odd while a write is in progress, a reader
  retries up to 100 times. A writer that finds an odd counter, left by a writer
  that died, still marks its own write odd and ends even. Segments are reused
  under their inode and reset under the protocol, so that a peer stays attached
  and no stale command is taken. A command is latched when its cycle counter
  changes; the header may say which axes a message touched. A held jog that is
  not refreshed is dropped after a time-out; an emergency stop is not.
- **ADR-8** The axis state machine. Enabling is sticky. An emergency stop freezes
  the machine and ramps down. A completed move or homing restarts only on a new
  message. An error is left only by a reset with the drive back in operation. A
  drive that leaves operation raises an error from any step after enabling. While
  the drive owns the motion, and while it does not follow, the setpoint stays on
  the actual position. A new move message re-targets a running move; turning
  around brakes with `dec`.
- **ADR-9** What needs Linux is kept apart and has a stand-in elsewhere.
- **ADR-10** Without raw sockets the EtherCAT bus refuses to start.
- **ADR-11** The process image has a fixed layout, written into the drives and
  checked before going live. The controlword answers the previous cycle's
  statusword. Until a drive is operational its target follows its actual
  position.
- **ADR-12** EtherCAT parameter access is unsupported until homing needs it.
- **ADR-13** A cycle counts as good only if every device is operational and the
  working counter is the one learned on entering operation. With distributed
  clocks the bus paces the cycle; an overrun re-synchronises instead of bursting.
  A lost frame is given up after four cycles, but not before 2 ms. While the bus
  is down, commands are still latched and state is still published.
- **ADR-14** A signal ramps all axes down, then takes the power off for ten
  cycles, then takes the bus down. A second signal skips to the last step. An
  EtherCAT bus goes down by five cycles of controlword 0, then SAFE-OP, then
  PRE-OP.

## Configuration

`motion-daemon --help` lists flags and keys. A file holds `key = value` lines
with `#` comments; flags override it. Limits must be finite and positive, the
scaling finite and non-zero, counts whole; a refused line is named by its number.
