# flipper_tui

A terminal front end for the Flipper Zero: an interactive TUI (device
picker, dashboard, storage and apps browsers, settings, updates, help) and
a non-interactive CLI (`info`, `ping`, `storage list|read|stat|mkdir`,
`update check`), both talking to the device's ASCII CLI bridge over USB
serial.

## Layout

- `src/` — the verified library (Verus). Everything the program decides
  lives here, with contracts:
  - `text`, `kv` — the string model (`lines`, `trim`, `split_once`,
    `split_whitespace`, integer parsing) and `key: value` replies;
  - `device`, `info`, `protocol`, `settings`, `storage`, `backup`,
    `updates` — the parsers of the device's replies and the outcomes of
    requests;
  - `transport` — the command line written, the read window that ends a
    reply, prompt stripping, USB port filtering, liveness;
  - `mock` — the in-memory transport's handler registry and call log;
  - `keymap`, `app_state` — key bindings and the TUI's state machine;
  - `screens`, `panels`, `commands` — browser navigation, the panel
    lines, rows, sizes and status lines the screens show, and what the
    CLI prints and decides.
- `tests/` — tests of the library on concrete inputs.
- `app/` — the program around it: serial I/O, the async transports, the
  terminal and its event loop, drawing with ratatui, argument parsing.
  Invoked as `flipper-tui-cli` (by file name) it runs the CLI.
