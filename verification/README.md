# tributary

Distributed LLM inference across Apple Silicon devices. Model servers run the layers over HTTP;
this project drives them: it generates on one machine, speculates with a draft model, or splits
the layers over a coordinator and a worker that are connected by TCP.

## Layout

- `src/` is the library, verified with Verus. It holds every decision and every format, and does
  no I/O.
  - `launch`: what a run is asked to do.
  - `mlx_client`, `json`: the requests to a model server, and what its answers say.
  - `generation`, `generation_laws`, `greedy`: the generation loop, and what whole runs show.
  - `speculative`, `speculative_laws`: speculative decoding, and that it shows the greedy text.
  - `protocol`, `protocol_laws`, `shape`, `be`, `payload`: the frames between coordinator and
    worker, and that they arrive as they were sent.
  - `coordinator`, `worker`, `session_laws`: the two sides of a session, and that they fit.
  - `timing`, `timing_laws`, `text`: the measurements of a run, as a table and as CSV.
- `app/` is the program: the command line, HTTP, TCP, files and the clock. It makes the call that
  a loop of the library says is due, and hands the reply back.
- `tests/` runs the library on concrete values.

## What is trusted

The proofs rest on the contracts of a few calls that are not proved here: those of
`bytes::Bytes` in `payload`, the text of a `serde_json::Value` in `json`, `sort_unstable` in
`timing` and `String::push` in `text`. Each says in its doc comment what it claims.
