# mvtool

A desktop tool that copies selected build components from source directories
into project destinations, runs project scripts, and takes Lua plugins.

The library under `src/` holds the tool's logic, each function with its contract and proof:

- `task`: which configurations a copy run works through, where each component is
  looked for, which files are copied, unpacked or cleaned away;
- `plugin`, `registry`: reading a plugin's header, checking its required version,
  and the registry of loaded plugins;
- `app_state`, `events`: what each command does to the windows' state and which
  outside work it asks for;
- `widget`: the state of the windows and the keyboard and mouse handling of the
  list, menu and action controls;
- `setting`, `schema`, `data`, `session`, `updater`, `service`: settings,
  projects, the found update, version comparison, QR text and icon decoding;
- `text`: the character-level string routines the rest is built on.

`app/` is the program: the window, the drawing, the Lua interpreter, the network,
the file system and the desktop services, around the library.
