# carrot

The logic of a Wayland compositor, verified with Verus: the wire protocol and the
state behind its globals, the layout and presentation of heads, what a frame paints
and records, the pipewire stream and the portal that casts a screen.

- `src/` is the library. Every function has a contract. What holds of several of them
  together stands beside them as a public proof function: that a paused head sleeps and a
  resumed one draws what is due, that a locked session shows nothing else and says it is
  locked only after every output presented a locked frame, that layer surfaces stay on their
  output or close with it.
  - `protocol` decodes requests, encodes events and holds the state of each protocol.
  - `shell` arranges layer surfaces.
  - `output` brings heads up, tiles and re-tiles them, composes frames and decides when
    they are shown. After each frame it serves captures, the lock and casts, and when heads
    come and go it tells globals, captures, the lock and layer surfaces.
  - `render` finds the driver, picks the device and records the commands of a frame.
  - `pipewire`, `portal` and `dbus` carry a screen cast.
  - `sighand`, `rect`, `text`, `bytes` and `list` are what the rest is built from.
- `app/` is ordinary Rust around the library: sockets, signals, driver loading, Vulkan
  calls, what is computed in floating point, and the loops that run the library's state
  machines.
- `tests/` runs the library.

Calls that block, wait or touch hardware are not made by the library. A function that
needs their outcome takes it as an argument, or is a state machine that says what to do
next and is told what came of it.
