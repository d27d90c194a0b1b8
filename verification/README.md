# phpstan-diagnostics-lsp

A diagnostics-only Language Server Protocol adapter for PHPStan, written in
Verus. The server reads LSP messages on standard input, runs the workspace's
PHPStan in editor mode on the current buffer, and publishes its findings as
diagnostics.

## Layout

- `src/` — the verified library:
  - `cli.rs`: command-line options and their parser;
  - `text.rs`: white space, trimming, lines and UTF-16 ranges, decimal numbers;
  - `path.rs`: joining paths and comparing them by components;
  - `json.rs`: the JSON values that messages are made of, read from and
    written to bytes with `serde_json`;
  - `protocol.rs`: the `Content-Length` framing of messages, and the reader
    of a message's header;
  - `phpstan.rs`: locating PHPStan, its command line, and reading its report;
  - `server.rs`: what each client message does to the server's state and
    which message answers it.
- `app/` — the program: argument and stream handling, the message loop,
  reading PHPStan's report and the initialization options with serde,
  running PHPStan as a process.
- `tests/` — tests of the library.
