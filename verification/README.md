# Spur

A callback-driven HTTP server whose logic is verified with Verus.

- `src/` is the verified library:
  - `miohttp`: the event-loop server — request heads parsed with
    `httparse`, the connection state machine (read a head, wait for the
    answer, send it, then read again or close), and the connection table
    with its registration and timer decisions.
  - `asynchttp`: requests with fixed-size, zero-padded fields, responses
    held in an `InlinableString`, the answer every request owes, and the
    worker manager.
  - `prototype`: the first connection state machine, which greets every
    request with the time of day.
  - `server`: routing, static paths, and the answers for files and forms.
  - `thread_pool`: the scheduler that hands queued tasks to idle workers.
  - `experiments`: a channel with converting receivers and selects, and
    filling a model from form fields.
  - `demo`: the values of the callback and supervisor demonstrations.
- `app/` runs the server: the `mio` event loop and its socket I/O, the
  file-reading threads, the request workers and the exit on Ctrl-C.
- `tests/` runs the library on concrete inputs.
