# sgs

A status bar for Hyprland built on GTK 4 layer-shell windows and configured
in Lua. This crate is its verified core; `app/` is the program around it.

- `src/` — the library, verified with Verus:
  - `text`: whitespace, trimming, words, lines, decimal parsing and printing,
    each tied to a specification of what `str` does;
  - `lua`: the configuration builders (`sgs.label{...}`, `sgs.window(...)`)
    over a model of the Lua values a script passes;
  - `widget`, `window`: the widget tree and window configuration;
  - `render`: the plan of toolkit widgets for a tree, the workspace buttons,
    the texts of the live labels;
  - `surface`: the layer-shell settings of a window;
  - `hyprland`: Hyprland events, workspace ordering, dispatch arguments;
  - `ipc`, `ctl`: the control protocol on both ends;
  - `system`: `/proc/stat` and `/proc/meminfo` parsing, memory sizes;
  - `runtime`, `paths`: window registry, control actions, file paths.
- `app/` — GTK, Lua, sockets, processes and files; it hands plain values to
  the library and carries out what it decides. Run as `sgsctl` it is the
  control client.
- `tests/` — tests of the library, several comparing it with `std`.
