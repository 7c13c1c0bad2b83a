# iso-tp

Lightweight ISO-TP transport for CAN, verified with Verus.

- `src/` is the library: addressing, frame layout, segmentation, reassembly, flow control and
  timing decisions, each with its contract. It does no input or output: a node says which step comes
  next, and its owner reports how the step went. `src/laws.rs` holds what is proved of a sender and a
  receiver together, above all that a payload arrives as it was sent; `src/runs.rs` what is proved of
  whole transmissions and receptions, such as the frames that a payload takes.
- `app/` holds blocking, polling and async nodes on the traits of `embedded-can` and
  `embedded-can-interface`.
- `tests/` runs the library on concrete values.
