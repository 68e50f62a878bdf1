# companion_api

The decisions behind a local AI companion's HTTP API, written in Verus: what a
model request is made of, how history is kept within a context window, which
parts of a reply are actions and which may run, how a model is fitted to the
machine and loaded, how conversations are compacted, and which requests are
refused and why.

- `src/` is the library. Every function states what it returns, and Verus proves
  it. Functions named `law_..` state what holds across functions: that earlier
  turns stay the same when a conversation goes on, that a reply comes to an end,
  that nothing but an offered tool runs in a chat, and so on.
  `src/boundary.rs` holds the calls into other crates, with what is relied on of
  each; `src/text.rs` holds one more, for `String::push`.
- `app/` is ordinary Rust around the library: the axum router, server-sent
  events, and the loops that perform what the library asks for. Storage, the
  model runtime, agent runs and tools are traits there.
- `tests/` runs the library on concrete values.
