# salsaa

Salsaa is a framework for lattice-based succinct arguments built on
sumchecks, with three applications: a SNARK/PCS, a folding scheme and a VDF.

This crate is the verified part of it: the parameters and layouts that the
prover and the verifier share, each function with a contract that Verus
proves.

- `config`: the protocol constants and the run-time settings (rank, witness
  dimension, mode), each of which may be set once.
- `cli`: the command-line grammar (`-r/--rank`, `-w/--wit-dim-log`,
  `-m/--mode`, `-h/--help`), with the number and mode parsers.
- `round_config`, `config_generator`: the chain of round configurations for a
  witness length, and the laws it obeys (structured rounds, then unstructured
  rounds, then the last round; column heights halve; every projection fits).
- `prefix`: the prefix addressing of the extended witness (paste and slice).
- `air`, `df`: the gadget constants, boundary tables and witness layouts of the
  AIR and of the delay function, and the bit decomposition of coefficients.
- `project`, `batching`: the shape of the projection's batching challenges
  and the order in which a round's sumcheck claims are batched.
- `proof_size`: how many bits each round of a proof counts for.
- `arith`, `text`: powers of two and logarithms; string comparison, decimal
  numbers.

`app/` is the program around it: argument handling, and the protocol rounds
themselves, which compute over the ring elements of the `rokoko` library and
take their parameters, layouts and accounting from this crate.
