# stozher_kernel

The rules of an accountability kernel, verified with Verus: what an append-only, hash-chained log of
signed envelopes accepts, what it refuses and why, what it answers a caller, what it shows an
auditor, and what a component must do to be certified.

## Layout

- `src/` is the library. Every function has a contract, and the promises that span functions are
  stated and proved as public proof functions at the end of the module they belong to.
  - `text`, `decimal`, `calendar`, `clock`, `json`, `crypto`, `error`, `codes`, `vocabulary`: the
    ground the rest stands on.
  - `config`, `keys`, `genesis`, `documents`, `manifest`, `gatequeue`, `budget`: the documents a
    deployment is made of.
  - `ingest`: what becomes of a submission, kind by kind.
  - `checkpoint`, `kernel`, `walk`, `query`, `http`: what the service does and answers.
  - `console`: what the pages show, and the one route that records a human's answer.
  - `conformance`, `harness`: certifying a component.
  - `arguments`, `commands`: the command line.
- `tests/` runs the compiled library on concrete values.
- `app/` is ordinary Rust around it: files, sockets, subprocesses, signatures.

## How outside facts enter

What only another party can know (a signature that verifies, a row of the store, what a policy says)
reaches the library as a plain value: a `Result` in a struct of facts. The contract of a function
says what it comes to for every value of those facts, and in which order they are looked at. Where
work alternates with decisions, a function says what is to be done next, given what came back so far.

Calls that only compute are made from the library, behind small trusted functions whose doc comments
say what is claimed: hexadecimal, SHA-256, randomness, the host's clock, the text of a JSON string,
and a handful of functions of the standard library.
