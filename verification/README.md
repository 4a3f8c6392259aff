# openai_bridge

An OpenAI Chat Completions face for an Anthropic Messages service, verified with
Verus.

- `src/` is the library. `request` and `content` turn a chat request into a
  messages request; `response` turns a message into a completion; `stream` turns
  an event stream of Anthropic into one of OpenAI, byte by byte; `gateway` holds
  what the endpoint decides, and `notices` tells what a conversion passes over.
  Contracts speak of JSON through the model in `json`;
  `serde_value` is the passage to `serde_json`. `request_laws` and `stream_laws`
  state what holds of the whole.
- `tests/` runs the library with the outside crates linked.
- `app/` is the HTTP endpoint around the library.
