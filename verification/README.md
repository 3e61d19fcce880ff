# winit_platform

Platform pieces of a windowing library, verified with Verus.

- `src/web.rs`: the Web backend's window attributes (with the canvas that they share with
  the window), scheduling strategies, orientation types and error messages.
- `src/orbital.rs`: window paths of Redox's orbital display server, read from and written
  to the `flags/x/y/w/h/title` form, and the checks on what display sockets transfer.
- `src/decimal.rs`: reading and writing decimal `i32` and `u32` text as Rust's `parse`
  and `Display` do, with the proof that what is written reads back.
- `app/`: the socket I/O against the Redox kernel, and serde forms of value types.
- `tests/`: tests of the library on concrete values.
