# nimbox

A local proxy that lets OpenAI, Anthropic and Gemini clients talk to one of
several upstream providers (Ollama, Groq, Google AI Studio, NVIDIA NIM,
OpenRouter, OpenAI), with a rotating pool of provider-scoped API keys.

The library in `src/` holds the proxy's logic, verified with Verus:

- `key_manager`: the key pool: round-robin choice, cooldowns after rate limits,
  backoff, and keeping the pool in step with the stored keys.
- `config`: the provider-scoped configuration and its migration of legacy
  settings.
- `providers`, `executor`, `status`: the provider registry, the retry decisions
  around provider calls with their key diagnostics, and the HTTP status that an
  upstream failure maps to.
- `openai_api`, `anthropic_api`, `gemini_api`: the client-facing wire formats,
  translated to and from the internal chat model (`chat`).
- `upstream`, `ai_studio`: the provider-facing wire formats: request bodies,
  answers, embeddings, model listings and the server-sent event streams.
- `json`, `text`: JSON documents and the text operations the rest relies on.
- `cli`: the command line in plain form and the small rules of its commands.

`app/` is the program around it: argument parsing, the configuration file, the
HTTP server and the upstream HTTP calls. `tests/` exercises the library.
