# Focus Launcher

An OpenDeck plugin with one action, **Focus or Launch**: press a key that is
bound to an application, and its window comes to the front, or the application
starts if it has no window. Press again while it has the focus, and the focus
moves on to its next window, or its only window is minimized. A key can be set
to close all of the application's windows when it is held for half a second.

## Supported desktops

- KDE Plasma, through `kdotool`.
- GNOME Shell, through the Window Calls extension.
- Other X11 window managers, through `wmctrl` and `xdotool`.

On any other desktop the plugin says so in its log and does nothing.

## Layout

- `src/` is the logic, verified with Verus: what a press decides (`decision`),
  a whole run of a key as a state machine (`run`, and laws over whole runs in
  `orchestration`), installed applications and their commands (`apps`), the
  window tools' commands and answers (`backend`), the settings of a key
  (`settings`), presses, holds and looks (`action`), images (`icon`), and what
  is told of a run (`report`). `text`, `number`, `order` and `encoding` are
  helpers. `outside` holds what is taken on trust about other crates.
- `tests/` runs the library.
- `app/` is the plugin itself: it talks to OpenDeck, runs the tools, reads the
  files and hands plain values to the library.
