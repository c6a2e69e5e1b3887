# dynamicnoti

A data-driven desktop notification daemon for Wayland, and its command line client. Notifications
are shown one at a time on a small surface at the top of the screen, the island.

- A notification *type* is a TOML file: a schema of fields and a layout of six primitives (text,
  marquee, image, icon, progress, spacer) with bindings to those fields.
- Colors, fonts, sizes and named springs come from a theme, which a type may override.
- Notifications come in over a socket, over D-Bus (`org.freedesktop.Notifications`) and from media
  players (MPRIS). All take the same way: resolve the type, bind the fields, build the scene, queue.

## Layout

- `src/` is the library, verified with Verus: types, binding, scenes, styles, the queue, the
  pipeline, the wire format, the command line, and what each source and the renderer decide. It has
  no clock, no file and no socket: callers pass values in and perform what comes back. Functions
  carry their contracts; `queue_laws.rs` and `driver_laws.rs` hold what is proved across functions.
- `tests/` runs the library on concrete values.
- `app/` is ordinary Rust around it: the daemon and the client, TOML and JSON, tokio, D-Bus,
  Wayland and wgpu, and all floating-point geometry. Started as `dynamicnotid` it is the daemon,
  under any other name the client.

Floating-point values pass through the library as bit patterns. A text that has to be read as a
number is looked up in a table which the caller fills (`number::Readings`).
