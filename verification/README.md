# EVE Preview Manager, verified core

The logic of the EVE preview manager (thumbnail previews of EVE client
windows on Linux, with hotkeys to cycle between clients), written in Verus
with its behaviour stated in contracts and proved.

- `src/` is the library. Colours and hex notation (`color`), geometry and
  window types (`domain`), edge snapping (`snapping`), hotkey bindings and
  key names (`hotkey`, `input`, `key_capture`), profiles and their
  migration and merging (`profile`, `manager_state`), the daemon's display
  configuration and character tracking (`runtime`), client cycling
  (`cycle_state`), thumbnail dragging (`drag`), backups (`backup`), font
  names (`font`), text composition (`text_render`), the application icon
  (`icon`), and the decisions behind the manager's panels and dialogs
  (`manager_ui`, `sources`, `characters_panel`, `profile_dialogs`,
  `daemon_monitor`). Calls into evdev and png stand behind small trusted
  wrappers whose contracts name what they return.
- `tests/` exercises the library on concrete values.
- `app/` is the program around it: command line, configuration files and
  backups on disk, input device listing.
