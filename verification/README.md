# cosplay

A Wayland wire-format codec and the decision logic of a Wayland client, written in Verus and
proved against its contracts.

## Layout

- `src/` is the verified library.
  - Codec: `object_id` and `entity` (identifier ranges of client and server), `wire` (word
    encodings and padding), `fixed` (24.8 fixed point), `arguments` (argument marshalling and
    parsing, with a round-trip lemma for every argument type), `decoder` and `opaque` (framing a
    byte stream), `message` and `stream` (typed messages).
  - Client logic: `mediator` (object table and routing of inbound events), `seat` (input
    capabilities), `shm` and `shm_pool` (buffer sizing), `socket_path` (compositor socket
    resolution), `toplevel` (gathering an `xdg_toplevel` configuration), `wm_base` (ping/pong),
    `display` (`wl_display` events).
  - `buffer`, `utf8` and the `i24` wrappers in `fixed` are the trusted boundary to the `bytes`
    and `i24` crates and to `String::from_utf8`; each says in its doc comment what is assumed.
- `tests/` runs the library on concrete values.
- `app/` holds what stays outside verification: the `tokio_util` frame decoder, reading the
  environment for the socket path, the memory-mapped shared-memory region, and error types with
  `thiserror` derives.
