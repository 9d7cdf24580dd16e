# ethrex_levm

Execution diagnostics for an Ethereum virtual machine, verified with Verus.

- `src/erc7562_tracer.rs`: a collector of validation diagnostics. It keeps one call tree for each
  frame of a frame transaction: opcodes used, storage touched, code looked at, code sizes; and
  everything that was hashed. It records, and forbids nothing.
- `src/opcode_handlers/environment.rs`: the sixteen instructions that tell a program about its call,
  its transaction and other accounts. Those that read the state hand out a question once the gas is
  paid, and go on when they are given the answer.
- `src/vm.rs`, `memory.rs`, `gas_cost.rs`, `word.rs`, `utils.rs`, `errors.rs`, `opcodes.rs`: the part
  of the machine that these instructions work on. Prices are a parameter, `GasSchedule`.
- `src/keyed.rs`, `text.rs`: maps and sets over addresses, hashes and byte strings; what an error
  text says about gas.
- `src/laws/`: what holds across calls and across instructions.
- `app/`: the trace in its serialized form, and a host that answers the questions of the
  instructions from a database.

256-bit words are read and written by `ethereum-types`; the contracts of the calls into it, and of
the two calls into the standard library that Verus does not specify, are stated in `src/word.rs` and
`src/text.rs`.
