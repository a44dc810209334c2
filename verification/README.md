# Nodes & procs

A small dataflow runtime for embedded systems: *nodes* hold the data a system
shares, and *processes* compute over nodes, one turn at a time. The library is
written in Verus. The processes of the process layer state in their contracts
what a turn leaves in the values they are handed. A node of the base layer is
borrowed at run time, and whether a borrow is granted is not known in advance:
its processes state what holds whatever the borrows give, and hand the values
they read to a step of their own, one call down, whose contract says what is
written. Verus proves both.

## Layout

- `src/collections`: bounded queues, deques and index sets and maps, with their
  capacity in their type. They are written and proved here rather than taken
  from `heapless`: to state what an operation of an outside collection does, the
  library needs a name for what the collection holds, and a name for the result
  of outside code is declared here for fixed types only, with no type or
  capacity parameter, while every collection of the library is generic over
  both its items and its capacity.
- `src/base`: the base layer. Nodes (`Node`, `NodeRef`, borrowed at run time),
  the periodic cycle keeper, sample histories, samplers and latchers, functions
  of nodes (with caching variants), square and pulse-width wave decisions, the
  stepper motor data, loggers and log writers, the bounce cleaner, and the line
  separator and word writer over deques.
- `src/nodes`: the process layer, whose processes take the values they read and
  write as references. Request slots and the request queue with its client and
  server endpoints, request converters, the fixed-point clock and periodic
  processes, UTF-8 byte/character conversion, line cutting and joining, serial
  read and write steps, loggers, the bounce cleaner, the stepper step cycle and
  its update, and the stepper speed controller.
- `src/text.rs`: the string operations of std that the library uses.
- `app/`: what the library leaves to its host. Serial lines (`embedded-hal`,
  `embedded-hal-nb`), parameters given as `f32`, the `fixed` time types, text
  output and error reports.
- `tests/`: tests of the library on concrete values.

Time in the process layer is a fixed-point number of seconds with 24 fractional
bits, kept as its raw bits (`u64` for instants, `i64` for durations); the base
layer counts microseconds.
