# codex-lsp

The logic of a diagnostics-only client for language servers that speak over stdio. It is
verified with [Verus](https://github.com/verus-lang/verus).

- `src/protocol.rs`: `Content-Length` framing. What is written is read back, however the
  stream is cut into reads, and a read that is given up loses nothing.
- `src/client.rs`: what the client sends and what it does next: the `initialize` and
  `shutdown` exchanges, answers to the server's requests, document versions, and the wait for
  diagnostics.
- `src/publication.rs`: what a `textDocument/publishDiagnostics` notification says.
- `src/diagnostic.rs`: diagnostics, and the line that shows one.
- `src/config.rs`, `src/option_duration_ms.rs`: the configuration of servers.
- `src/json.rs`, `src/codec.rs`: JSON documents, read and written by `serde_json`.
- `src/text.rs`, `src/entries.rs`: what the others need of texts and of lists of entries.

The library does no input or output. `app/` holds the processes, the streams and the clock,
and the types that are serialized with `serde`.

Each module opens with the mathematical model of its data. Functions state their results over
that model, and the `law_` functions state what holds across calls. What `serde_json` and the
standard library do is stated at the functions that call them, and is not proved.
