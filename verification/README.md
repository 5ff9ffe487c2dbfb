# wayland_wheeltani

Progressive middle-click autoscroll for Wayland: hold the middle button,
move away from the press point, and wheel events are emitted at a speed that
grows with the distance. A short middle click is still a middle click.

The crate is a Verus library with a small daemon around it.

- `src/` is the verified library:
  - `model`, `engine`: the gesture state machine (idle, pending, scrolling),
    its transition function and the laws it keeps;
  - `wheel`: wheel signs, the stepped speed profile's step lookup, and how
    accumulated wheel amounts are drained into legacy and hi-res events;
  - `config`, `config_loader`, `cli`: configuration rules, defaults, file and
    command-line precedence, config paths;
  - `event_router`, `device`: routing of raw evdev events, the events of
    virtual-mouse actions, mouse detection and device listings;
  - `hyprland`, `sway`, `foreground`: focused-window parsing for the
    foreground providers, compositor socket discovery, and i3 IPC framing;
  - `daemon`: main-loop timing, emission plans, device selection;
  - `text`: trimming, splitting, decimal parsing and formatting.
- `app/` is the binary: clap, TOML and JSON parsing, evdev and uinput devices,
  sockets, threads, signals, logging, and the floating-point speed curve with
  the fractional wheel accumulators (`app/scroll.rs`).
- `tests/` exercises the library on concrete values.
