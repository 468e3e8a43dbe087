# crosslink

The decisions of an issue tracker for coding agents: what its commands check, compute
and print, written in Verus and proved against their contracts.

- `src/` is the library. Every function states in its contract what it returns, for every
  input. Text is modelled as a sequence of characters; what talks to the machine in turns
  (launching an agent, joining a repository, installing a tool, setting up signing) is a
  state machine that takes in events and gives back actions. Functions named `law_...`
  state what holds across functions.
- `app/` performs the actions: it reads and writes files, runs programs, draws the
  terminal, and asks the issue store and the hub through traits.
- `tests/` runs the library on examples.

What is not proved is what other crates do. Each call into one of them stands in a small
function of its own, whose comment says what its contract claims: `chrono` (times),
`serde_json` (documents), `sha2` (hashes), `ulid` and `uuid` (identifiers), and four
functions of `std`.

The assistant that agents run is data: its program, its packages and its directories come
in as an `Assistant`. The app reads them from `assistant.json`, an object with the fields of
`AssistantNames`, which lies with the other resources where the program is deployed. Resources
are not part of this tree.
