# aria

The verified core of the Aria runtime, in Verus.

An Aria engine carries a state (an optical field, a latent, a graph and a clock)
through five named actions, and checks four invariants after each. This library
holds the state machine and everything around it that can be decided without
floating-point arithmetic; numbers cross it as bit patterns.

| Module | What it holds |
|---|---|
| `engine`, `state`, `backend`, `graph`, `gates` | the state machine, the operators it is built from, transactional graph edits, what the operating gates report |
| `trace`, `emit`, `json`, `text` | the JSON-lines trace, reading it back, replaying and decoding a run |
| `runner`, `audit`, `verify`, `receipt`, `growth` | whole runs, the streaming audit, long verified runs, their receipts, growth of the graph |
| `action`, `condition`, `policy`, `config`, `cli` | names, configuration, and what the flags of each subcommand make of it |
| `python` | what the classes of the Python extension hold and decide |
| `scalar`, `error`, `sim` | numbers as bit patterns, errors, building the simulated operators from a configuration |

Every function of `src/` is verified against its contract, but for the wrappers in
`json.rs` and `text.rs`. Behind those stands what the library takes from outside
(`serde_json`, a few functions of `std`): their contracts are believed, and the comment
above each says what is relied on.

The operators, the checks, the gates and the schedule are supplied by whoever builds an
engine, and are relied on to be functions of their arguments and of their own value; which
functions, is left open. The library has an implementation of its own for the checks
(`Foretold`), the gates (`Unwatched`) and the schedule (`PhiCycle`). `Numerals`, which
renders numbers, is asked without being trusted: what it answers is read again before it
is used.

`app/` is the command-line program and the Python extension: arguments, files,
clocks, and the conversions between floating-point numbers and their bits. The
operators and the file formats of checkpoints, readout heads and tokenizers come from
the runtime's backend crates, which only `app/site.rs` names.
