# vibepanel

The logic of a status bar for Wayland compositors, verified with Verus: what the bar shows, when it
hides, and how it talks to the services around it.

- `src/` is the library. Every function states in its contract what it returns or changes, over
  models of the data (spec functions and views); public proof functions state what holds across
  functions. Decisions that alternate with calls to a bus, a socket or a file are state machines:
  a function takes what came back and says what to do next.
- `tests/` runs the library on concrete values.
- `app/` is the ordinary Rust around it: sockets, files, threads, the bus, and floating point. It
  hands the library plain values and carries out what it asks for. Windows, Wayland objects and
  the bus itself stand behind traits (`BarWindow`, `Surfaces`, `Audience`, `Bus`, `Dismissible`,
  `Panel`).

Parts of the library:

| module | subject |
| --- | --- |
| `bar`, `bar_visibility`, `surfaces` | layout of the bar, hiding and revealing it, styles of surfaces |
| `compositor` | workspaces, windows and layouts of Mango; window scenes of Mango, Niri, Hyprland and Sway |
| `config` | settings, what a change of them asks for, style sheets and which files to watch |
| `network` | NetworkManager: Wi-Fi, cellular, saved profiles, joining and leaving networks |
| `notification`, `desktop_notification` | the notification service, and notifications that are sent |
| `media`, `media_ipc` | media players, and the messages about them |
| `battery`, `battery_alert`, `gpu` | the battery and its warnings, the graphics card |
| `background_effect`, `activation`, `dbus` | blur behind surfaces, tokens to raise windows, errors of the bus |
| `popover_tracker`, `popup_tracker` | which popover and which popup is open |
| `hashed`, `json`, `order`, `paths`, `table`, `text` | hash collections, JSON values, stable sorting, paths, tables, texts |

Doubles are kept as bit patterns, which the library compares; arithmetic on them is done in `app/`.
What is not proved is what the library takes from `serde_json`, `toml` and the standard library; each
such function has a doc comment that says what is claimed of it.
