# niri-tools

Scratchpad windows for the [niri](https://github.com/YaLTeR/niri) Wayland
compositor: a daemon mirrors niri's windows, workspaces and outputs from its event
stream, and a command-line tool asks it over a Unix socket to show, hide, float or
tile the windows that the configuration (`~/.config/niri/niri-tools.kdl`) defines.

## Layout

- `src/` is the verified library (Verus). It holds everything the daemon and the
  tool decide: reading the KDL configuration, turning niri's JSON into events and
  the daemon state, planning each scratchpad command as a list of niri actions and
  state changes, window geometry, the mode stack and the picker, the socket's
  framing, the state file's contents, and which notification to show. Calls into
  `kdl`, `serde_json`, `regex` and `fuzzy-matcher` stand behind small trusted
  wrappers whose contracts name their results.
- `tests/` runs the library on concrete values.
- `app/` is the program around it: argument parsing with `clap`, the socket and
  `niri msg` processes on `tokio`, files, the GTK overlays. Run as
  `niri-tools-daemon` (a link to the same binary), it is the daemon; under any other
  name it is the command-line tool.
