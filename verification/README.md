# api-switch

An HTTP gateway that accepts the Anthropic Messages API and forwards each
request to an OpenAI-compatible backend that authenticates with `app-key`
and `app-sign` headers. Each configured model has its own credentials and
base URL; the `model` field of a request picks one.

## Layout

- `src/` — the library, verified with Verus:
  - `config.rs`: model routing (`find_model`, `require_model`).
  - `error.rs`: the error kinds and the status and error type that answer each.
  - `anthropic.rs`, `openai.rs`: the two protocols' types and their models.
  - `transform/request.rs`: Anthropic request → OpenAI request.
  - `transform/response.rs`: OpenAI response → Anthropic response; backend
    errors → gateway errors.
  - `transform/stream.rs`: the streaming state machine, OpenAI chunks →
    Anthropic events, with the laws of the block protocol.
  - `transform/sse.rs`: cutting the backend stream into frames, reading
    their data, writing events.
  - `transform/headers.rs`: the headers forwarded to the backend.
  - `handler.rs`, `api/health.rs`: the routing decisions of the handlers and
    the health report.
  - `text.rs`: character-level helpers.
- `app/` — the program: configuration file, HTTP server, backend calls, and
  the JSON forms of the protocol types.
- `tests/` — tests of the library.

## Configuration

```yaml
models:
  - name: qwen35-397b
    app_key: "..."
    app_sign: "..."
    base_url: http://backend:9520/path/
port: 3000
```

The file is read from `CONFIG_PATH`, or `./config.yaml`.
