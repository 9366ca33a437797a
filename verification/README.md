# flashcalw

Driver logic of the FLASHCALW flash controller of the Atmel SAM4L, verified
with Verus.

The driver reaches the controller through a `RegisterBus`: a port (a
function from an `Access` — wait until ready, read a register, write a
register — to the word the access returns) together with a ghost log of
every access made through it, in order, with the word returned. The port is
only reached through the bus, so the log is exactly the sequence of accesses
the driver made.

The contracts state what each operation adds to that log: which registers
are read, which words are written, in which order and how many times, and
what the driver makes of the words read. Operations that issue commands also
keep a ghost record of driver-level events (commands, reads, writes), and
their contracts state that the accesses the bus logged are exactly the
accesses of those events, event after event. What the controller does with a
command is not assumed; laws in `src/laws.rs` state what follows when a
register keeps the word written to it, or when the controller erases and
programs the fuses as documented.

- `src/bits.rs`: the register fields (command word, control and status bits,
  general-purpose fuses, flash geometry) as functions on register words.
- `src/command.rs`: the controller's commands and speed modes.
- `src/bus.rs`: the register bus and its log, the driver's events and how
  they map to accesses, and the error bookkeeping.
- `src/flashcalw.rs`: the driver: commands, control and status registers,
  wait state and read mode, lock regions, flash pages.
- `src/fuses.rs`: the general-purpose fuses.
- `src/laws.rs`: properties that relate the driver's operations.
- `app/lib.rs`: the memory-mapped port of the chip.
