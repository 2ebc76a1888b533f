# kagi_proxy

An OpenAI-compatible REST front for Kagi Assistant (`GET /health`,
`GET /v1/models`, `POST /v1/chat/completions`, streamed or not).

- `src/` is the library, verified with Verus: request checks (`routes`),
  errors and their HTTP answers (`error`), settings (`config`), the OpenAI
  types (`openai`), the Kagi side (`kagi`: request addresses and bodies,
  model filtering, HTML stripping, the stream framing, the reading of its
  JSON events and the two stream readers, format mapping), and the text,
  number and UTF-8 helpers they rest on (`text`, `numbers`, `utf8`,
  `clock`, `json`).
- `app/` is the server: environment, HTTP client and server, JSON
  (de)serialisation of the library's types, and the polling loops that feed
  the library's stream readers.
- `tests/` exercise the library on concrete values.
