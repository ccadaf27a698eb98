# llmapi

A proxy between the Chat Completions, Responses and Messages wire formats of language-model APIs.
The library holds its rules, each with a contract that Verus proves.

- `src/adapters`: the three formats, read into a neutral form and written from it, whole and as
  event streams; the event-stream framing; the laws of the conversions.
- `src/proxy`: what is done with a request: which provider answers, what is sent to it, how its
  answer is turned into the client's format.
- `src/config.rs`, `src/server.rs`: the providers, and how a changed file is taken over.
- `src/auth.rs`, `src/headers.rs`, `src/query.rs`, `src/redact.rs`: keys and where they may go.
- `src/models.rs`, `src/protocol.rs`: lists of models, and the routes.
- `src/daemon.rs`, `src/cmd.rs`: the service description and the commands.
- `src/json.rs`, `src/wire.rs`, `src/text.rs`, `src/seqs.rs`, `src/named.rs`: values and texts.

`app/` is the program: the command line, files, sockets and the HTTP client. `tests/` runs the
library.

Whatever an outside crate computes stands behind an item marked `external_body` or
`assume_specification`; the comment above each says what is taken for granted of it.
