# Hearth

A local-first messenger between devices: direct conversations, groups and files, sealed
end to end, friend-gated, stored on the device first and retried until they arrive.

The library (`src/`) holds what Hearth decides and computes, with contracts that Verus
proves. It touches neither disk nor network:

- `protocol`, `payload`, `envelope`: envelopes, what is sealed in them, their signatures.
- `crypto`, `identity`, `ids`, `bytes`: boxes, group keys, chunk digests, device keys.
- `database`: the tables of the local store, each statement as a change of a model.
- `friends`, `groups`, `messaging`, `files`, `presence`, `sync`: what users do.
- `routing`, `control`, `delivery`: what arrives, what is answered, what is tried again.
- `arrival`: what holds across two stores: what one sends, the other has.
- `coordinator`, `transport`, `shell`: how others are found and reached, what is shown.
- `table`, `text`, `validation`, `error`: what the rest is made of.

Cryptography, random numbers, identifiers and the clock come from outside; the functions
that call them say in their contracts what is relied upon.

The program (`app/`) keeps the store in SQLite and the keys in the credential store, binds
the network endpoint, calls the coordinator, and serves a user interface over lines of
JSON on standard input and output.

`law_...` functions state what holds across operations: that what friends and members of
a group write each other arrives, what opens what was sealed, what the store never loses,
who is let in, who can no longer read.
