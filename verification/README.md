# saguaro_common

The shared layer of the SaguaroDB database: values and their order, SQL and wire types,
text and binary formats, the catalog's schemas and stored queries, MVCC visibility, page
compression and the built-in scalar functions.

* `src/` is the library. Every function states in its contract what it returns or changes,
  and Verus proves it. Functions that call an outside crate do so through small trusted
  items, each with a doc comment that says what is relied on.
* `tests/` runs the library on concrete values, with the outside crates linked.
* `app/` is ordinary Rust around the library: floating-point arithmetic, state that
  threads share, dictionary files, the services of a running server, and the serialized
  forms of what the catalog keeps.
