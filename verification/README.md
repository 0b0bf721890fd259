# rusty_dock

The logic of a Wayland dock, verified with Verus, and the program around it.

- `src/` is the verified library:
  - `config` — pinned entries, defaults and the checks on configuration values;
  - `launcher` — discovered applications, desktop files, the dock's slots built
    from the configuration, launch plans and process keys;
  - `editor` — the configuration window's edits of the pinned list, drag and
    drop, picker results, selection and shortcuts;
  - `picker` — file and desktop-file pickers: listing, sorting, searching, and
    cached icon names;
  - `icons` — the icon cache's index file;
  - `process` — the processes the dock started and whether they ended;
  - `ui` — panel width, slot geometry, the folder popup grid, clicks and drags,
    smart hiding and the animations' bookkeeping;
  - `text` and `desktop` — string helpers and the desktop-entry reader.
- `app/` is the program: Wayland surface, cairo drawing, the iced settings
  window, configuration files and the system calls.
- `tests/` runs the library on concrete values.
