# macos_input_monitor

The verified core of a Tauri plugin that intercepts global keyboard events on
macOS through a `CGEventTap`.

- `src/` is the library, verified with Verus: the function-key keycodes and
  modifier bit masks (`constants`, `models`), the hotkey registry and the
  decision taken for every keyboard event (`event_tap`, `manager`), and the
  text the plugin commands return (`commands`).
- `app/` is the plugin around it: the Tauri commands and plugin setup, the
  serializable copies of the data types, and the CoreGraphics FFI that runs
  the event tap and acts on the library's decisions.
- `tests/` runs the library on concrete hotkeys and events.
