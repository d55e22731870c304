# HTML to PDF conversion service

A backend service that converts raw HTML into PDF documents: an HTTP server in
front of a persistent Node.js worker that runs headless Chrome.

- `src/` is the library: every decision of the service, verified with Verus.
- `app/` is the server around it: sockets, files, the worker process.
- `tests/` runs the library.

| Module | What it decides |
|--------|-----------------|
| `config` | settings from environment variables |
| `cors` | the cross-origin policy |
| `rate_limiter` | the global 30-second cooldown |
| `handlers` | request validation, admission, health reports |
| `pipeline` | the course of one render, step by step |
| `worker` | starting the worker, passing on its responses, spacing respawns |
| `state` | the shared state and the requests in flight |
| `headers`, `response` | what clients are answered |
| `scale`, `decimal`, `text`, `clock` | numbers, texts and time |

A request goes through rate limit, validation, render slot, live worker,
temporary files, worker request, worker response and PDF, in this order; each
step either leads to the next one or answers the client.
