# layout-manager

An event-driven, component-based terminal UI (Ratatui and Tokio), whose
decisions are specified and proved with Verus.

- `src/` is the verified library: the layout tree and its regions, focus
  management (cyclic and geometric), key and pointer bindings, the
  component registry and the two demo components, the validated UI
  builder, the UI's dispatch of commands, the application's reaction to
  each message of its event channel, list selection and row layout, and the
  backward line reader and file order behind the log view.
- `app/` is the program around it: terminal setup, the event channel fed by
  the terminal and a tick timer, drawing with Ratatui widgets, logging to
  rotating files and reading them back.
- `tests/` exercise the library on concrete values.

Events routed to components form a closed `Event` enum (moves, submits,
pointer events, ticks and the content pane's own events), each payload
recovered with `downcast_ref` / `downcast_to`; a new event type is added as
a new variant.  Likewise the demo's components are the variants of
`DemoComponent`, and the UI is generic over any type implementing
`Component`.

Each public function states in `ensures` what it returns or changes; the
`law_*` proof functions state properties that span several functions, such
as cycling focus forward and back, the builder accepting exactly the valid
configurations, or the reader yielding a file's lines newest first.
