# gleamler

Writing Erlang NIFs for Gleam in Rust: how Rust values become Erlang terms and back,
what a NIF hands back to the VM, and the Erlang and Gleam stubs that declare the NIFs of
a crate. The library is verified with Verus: every function states what it returns in
its contract, and the proofs check the code against those contracts.

Terms are held as plain values (`term::Term`), so the library's logic works, and is
proved, without a running VM; the VM's handles (environments, processes, resources)
are carried as integers.

## Layout

- `src/term.rs`, `src/types.rs`, `src/atom.rs`: terms, and the encoders and decoders of
  Rust values, with the law that decoding an encoded value gives it back.
- `src/map.rs`: map terms, with the laws of reading after writing.
- `src/env.rs`, `src/subject.rs`, `src/pid.rs`: environments, saved terms and sending.
- `src/returned.rs`, `src/error.rs`, `src/schedule.rs`: what a NIF call hands back.
- `src/nif_attr.rs`: what `#[gleam_nif]` and `init_nifs!` decide, and what the wrapper of
  a NIF replies.
- `src/derive.rs`: what the `NifRecord`, `NifTuple` and `NifMap` encoders and decoders do.
- `src/serde/`: serialization of serde values into terms.
- `src/time.rs`, `src/interop.rs`: durations, points in time, and values of the
  `bytes`, `uuid` and `rust_decimal` crates.
- `src/collections.rs`, `src/erl_option.rs`, `src/address.rs`: queues, hash and B-tree
  maps and sets, optional values written as `undefined`, and socket addresses, each with
  what reading back an encoded value gives.
- `src/codegen.rs`, `src/source.rs`: the Gleam and Erlang stubs for the `#[gleam_nif]`
  functions, and reading those functions out of source text (parsed with `syn`).
- `src/resource.rs`, `src/allocator.rs`, `src/log.rs`, `src/tasks.rs`, `src/text.rs`:
  resources, allocation routing, log levels, build-task decisions, text helpers.
- `app/`: the stub generator's command line (reading files), the `serde::Serializer`
  glue, conversions from standard and outside types, and what asks the running VM
  (whether a process is alive, monitors, iterator resources).
