# madari

The decisions of the Madari media client and its companion server, written in Verus and
proved against their contracts: what the player shows and reports, how sources, catalogs,
episodes and saved progress are chosen and described, how preferences are edited, and the
companion server's rules for API keys, origins, ranges and media tickets.

- `src/` is the verified library, one module per concern; `lib.rs` lists them.
- `tests/` runs the library on concrete values.
- `app/` is the program around it: the environment, files, JSON and the few values the
  client computes in floating point.

Verify with Verus from this directory; `cargo test` runs the tests.
