# gpui-mcp

An MCP server for inspecting and driving a running GPUI app, written in Rust
and verified with [Verus](https://github.com/verus-lang/verus).

An agent reads a window as a short list of elements, clicks, types, presses
keys and takes screenshots. What it did can be recorded to a script, and the
script replayed: to get back to a state, or as a test that needs no agent.

## Layout

- `src/` is the library: every decision the server makes, with a contract on
  each function. It touches no file, socket or pipe.
- `app/` is the binary around it: stdio, Unix-domain sockets, files, serde
  derives and the few computations in floating point.
- `tests/` run the library.

## What is proved

Each function's `ensures` says what it returns, for every input. Beyond that,
some promises span several functions, and stand as public proof functions
beside them:

- a recorded `@ref` becomes an id only where one line of the snapshot carries
  that id, and a golden's recorded path leads to the same file on replay
  (`recorder`, `path`);
- a replay applies the viewport before its first step, makes the call of each
  step it reaches and does not skip, once and in order, and no other; its counts
  are the counts of what it reports (`replay`);
- a golden passes uncompared only in a run that wrote it, and matches the next
  run of an unchanged window (`golden`);
- a socket's name reads back as the app and process it was made from, and the
  newest instance is the one that is chosen (`sockets`);
- every method of the app is advertised, every topic of the guide can be read,
  and no notification is answered (`tools`, `guide`, `mcp`).

What other crates compute is stated, not proved, on the few functions that call
them: string literals (`serde_json`), base64 (`base64`), PNG headers and pixels
(`image`), and random ids (`uuid`).
