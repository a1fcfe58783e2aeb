# llamastash (verified core)

A keyboard-driven launcher for local `llama-server` instances, with its
decision logic written in Verus and proved against its contracts.

- `src/` — the verified library:
  - `text`, `paths`: character-level helpers (decimal rendering, trimming,
    substring search, `String` order and sorting, joining; POSIX file
    name / stem / extension / parent / join).
  - `proxy::route`: model resolution (exact path, exact name, then
    case-insensitive substring) and the forwarding plan for a request.
  - `proxy::router`: the fixed route table, `/health` counts and the
    sorted `/v1/models` id list.
  - `launch`: `llama-server` argv composition and binary location
    (priority order, `$PATH` lookup, canonical result).
  - `tui`: key bindings, width-budgeted hint picking and the global hint
    strip.
  - `cli`: catalog rows, picker texts, the `show` page (layout, styled
    rendering, recorded-parameter lookup), byte sizes and knob lines.
  - `daemon`, `discovery`: runtime-file shape and load outcomes, scan
    decisions.
- `app/` — the I/O shell: hyper handlers, file persistence, the directory
  walk, cliclack pickers, the `show` JSON envelope and ratatui rendering.
- `tests/` — scenario tests run against the compiled library.
