# Via

Via runs services across machines you own. The machines form a private mesh: they share
one key, sign and encrypt what they send each other, and each keeps the state of the mesh.
A hub can relay requests between machines that do not reach each other.

- `src/` is the library: the records of a mesh and how they merge, the messages between
  nodes and what is accepted of them, the commands, and the rules of the hub. All of it is
  verified with Verus. Functions take what was read from the outside (files, answers, the
  time) as arguments and give back what is to be done.
- `app/` is the program around it: the command line, files, processes, the network, and
  the embedded Lux store. `via hub start` and `via hub migrate` make the tables of the hub
  from `lux/migrations/20260602000000_init_hub.lux`.
- `tests/` runs the library.

What one run of the program leaves in its store is what the next run knows: `records.rs`
says what a store holds after the changes that a state asks for and how it is read, and
`record_laws.rs` proves that each operation keeps the two together.

What is assumed of other crates is stated where they are called, in `clock.rs`,
`crypto.rs`, `encoding.rs`, `ids.rs`, `release.rs`, `store.rs`, `transport.rs` and
`urls.rs`. The laws that hold across operations are the proof functions whose names begin
with `law_`.
