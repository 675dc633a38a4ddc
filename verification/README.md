# freyja

A provider-neutral client for large language model endpoints. One neutral
request and response model, four wire dialects (OpenAI Responses, OpenAI Chat
Completions, Gemini Interactions, Anthropic Messages), and any number of
endpoints speaking them.

## Layout

- `src/` is the library, verified with Verus. It holds every decision the
  client makes: how a neutral request becomes each dialect's body and which
  requests a dialect refuses, how each dialect's answer becomes the neutral
  response, how server-sent events are framed, decoded and assembled into
  events and a response, how failures are classified, which headers a request
  carries, how a transcript is repaired before it is sent, and how a summary
  is asked for and accepted.
- `app/` is the network side: the HTTP client, the JSON layout of request
  bodies, reading response bodies into the library's types, the streaming
  read loop, and the typed conveniences that rest on `serde`.
- `tests/` exercises the library on concrete values.

JSON values are held as their canonical text (`src/json.rs`); everything that
reads or builds one goes through `serde_json`, and the contracts speak of what
it answers by name.
