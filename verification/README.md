# brew_server

A Brew server with a SIP side. It routes voice and short messages between TETRA base stations,
registers SIP extensions and trunks, and bridges calls between SIP and Brew.

- `src/` is the verified library. Each handler takes the state and an event and gives back the next
  state and the actions that follow. Its contract says exactly which. What holds across handlers is
  stated in public proof functions, next to what they speak of or in the `*_laws` modules.
- `app/` is the program around it: sockets, files, clocks, digests and the text of SIP messages.
- `tests/` runs the library on concrete values.

What Verus takes on trust: `String::push`, `String::into_bytes` and `String::from_utf8_lossy` of the
standard library, and `Uuid::new_v4` and `Uuid::simple` of the `uuid` crate.
