# labolabo_app

The decision logic of the LaboLabo terminal workspace, written in Verus and
proved against its contracts.

- `src/` is the verified library. Each module states its behaviour over
  spec functions (`Seq`, `Map`, plain integers) and proves it; properties
  that relate several calls stand as public `law_*` proof functions.
  - `cli`: the `labolabo` control client's argument parsing, the control
    request it sends, and the lines printed for a reply.
  - `ghostty_color`, `ghostty_config`: Ghostty configuration lines, colors,
    palettes, includes, default file locations and theme lookup.
  - `keys`, `mouse_report`, `paste`, `ime`: what a keystroke, mouse event,
    paste or input-method composition sends to or shows in the terminal.
  - `focus`, `git_pane`, `commit_pane`, `motion`, `agent_status`, `hooks`,
    `new_task`, `import_prompt`, `pr_status`, `path_abbrev`, `color_picker`,
    `ide_open`, `i18n`, `icons`, `workspace`: the workspace's state and
    display rules.
  - `text`, `json`: character-sequence helpers and a plain JSON model.
- Calls into `serde_json`, `unicode-width`, `sys-locale` and `chrono` go
  through small trusted wrappers whose contracts are written next to them.
- `tests/` runs the library on concrete values.
- `app/` is the unverified shell: the command-line entry point, file and
  process I/O, environment switches, and floating-point geometry.
