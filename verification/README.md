# smart_servo

Control stack for serial-bus smart servos (FashionStar UART protocol), with
the protocol, the filters and the bus decisions verified by Verus.

- `src/` — the verified library
  - `fashionstar/protocol.rs`: frames, checksum, command encoders, reply
    decoders, the reply-stream scanner and its laws
  - `fashionstar/controller.rs`: what a driver decides around each request
    (reply complete?, result for the caller, filters, loss counts, last
    readings), including the sync-monitor read
  - `fashionstar/replies.rs`: lookups in a reply stream for drivers whose I/O
    runs elsewhere
  - `reliability.rs`: the angle reliability filter (`A -> 0 -> B` guard and
    range guard)
  - `loss.rs`: per-servo consecutive loss counting
  - `bus.rs`: serial settings and the reply-collecting state machine
  - `bytes.rs`, `vendor.rs`, `model.rs`, `error.rs`
- `app/` — the command-line tool, the serial port, the C ABI and the Python
  classes, calling the library.
- `tests/` — tests of the library.

Angles are integers in tenths of a degree (the unit of every angle field on
the wire); times are milliseconds.
