# platinenmachergpt

An Ollama-compatible HTTP server for RKLLM models, split in two:

- `src/` is the verified library. It cleans requested model names and
  decides where model files are looked for and which one is used, lists the
  models found in directory listings, reads the server settings, admits
  generation and chat requests (model found, prompt within the length limit,
  token budget fitting the context window), builds chat prompts, collects
  streamed replies, strips reasoning sections from replies, and shapes every
  answer of the API. Regular expressions (`regex`), random identifiers
  (`getrandom`, `uuid`) and timestamps (`chrono`, `std::time`) are reached
  through small trusted wrappers whose contracts are stated next to them.
- `app/` is the server: routing (`axum`, `tokio`), the file system probes
  that the library asks for, the RKLLM runtime (`rkllm-rs`), JSON
  (`serde`), logging and the environment.

Modules of the library: `text` (characters, trimming, joining), `models`
(model names, search paths, listings), `config` (settings), `requests`
(admission, token budget, chat prompt, reply collection), `clean`
(reasoning removal), `clock`, `ids`, `catalog` (model descriptions) and
`replies` (generate, chat and OpenAI answers).
