# a2a_kit

The decisions of an A2A client, server and command line, written in Verus:
what a task becomes when an event arrives, which subscriber is owed which
event, which page of a listing comes next, which transport an agent card asks
for, where a push notification may be sent, what a command line means and how
its outcome is told. Every function states what it returns, and the proofs are
checked with the code.

- `src/` is the library. Calls into other crates (`serde_json`, `url`,
  `jsonschema`, `chrono`, `rcgen`, `rustls-pemfile`) and into the parts of the
  standard library that have no specification stand behind small functions
  whose contracts are taken on trust; each says in its comment what it claims.
- `src/cli/` holds the rules of the `a2acli` command line.
- `app/` is the program around the library: arguments, files, HTTP, streams
  and the runtime of a server.
- `tests/` runs the library on concrete values.

Laws that relate several functions are public proof functions beside the
functions that they speak of.
