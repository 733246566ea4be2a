# ductaper

A service that redacts personal data in chat session logs with the help of a
language model. It reads a session log, extracts the chat text, asks the model
for redactions, and rewrites the log with them.

- `src/` is the library, verified with Verus: the text of a log sent to the
  model, the masks that the system prompt allows, the parsing of the model's
  answer, the rewriting of the log, the abbreviation of long texts, the parts
  of a request that the configuration decides, and the handling of settings and
  secrets. Calls into `regex`, `serde_json`, `home`, `bytes` and `tracing`
  stand behind small trusted wrappers whose contracts are stated in the code.
- `app/` is the program around it: configuration from the environment, logging,
  the HTTP client with its response cache, and the NATS connection.
- `tests/` runs the library on concrete values.
