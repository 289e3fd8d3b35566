# Hermes desktop shell

The native shell of the Hermes desktop app: it starts and watches a Hermes
backend, installs one on first launch, and answers the renderer.

- `src/` is the verified library. It holds what the shell decides from plain
  values: what to start and with which environment, what an output means, what to
  report and what to do next. Every function states its result in a contract that
  Verus proves, and the public proof functions state what holds of the shell as a
  whole. What the library takes from outside without proof stands in
  `text/unicode.rs`, `text/mod.rs`, `clock.rs`, `token.rs`, `json.rs` and
  `commands/backend.rs`, each with a comment that says what is claimed.
- `app/` is the program around it: processes, files, the network, terminals and
  the webview. Where the way to a result alternates between deciding and doing
  (starting a backend, ensuring a live one, an installation, moving a file to the
  trash), the library holds the decisions as transitions and the program performs
  the actions.
- `tests/` runs the library.
