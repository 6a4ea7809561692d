# cursor_hero

The decision logic of Cursor Hero's tools and of its Windows UI Automation helpers,
written in Verus and proved against its contracts.

- `src/` is the verified library: gathering an element's children sibling by sibling
  (`gather_children`), element trees and their drill ids (`element_info`,
  `gather_tree`), breadth-first walks (`elements_at_point`), tree text
  (`formatting`), application detection and desktop snapshots (`resolve_app`,
  `vscode`, `calculator`, `taskbar`), and the tools' decisions (`click_tool`,
  `focus_tool`, `keyboard_tool`, `talk_tool`, `scroll_tool`, ...), with tool names and
  texture paths guessed from source paths (`tool_naming`, `tool_spawning`, `path`).
- `app/` reads the desktop through the `uiautomation` crate, presses host keys through
  `enigo` and asks the local speech server through `reqwest`, handing plain values to
  the library and carrying out what it decides.
- `tests/` runs the library on concrete values.
