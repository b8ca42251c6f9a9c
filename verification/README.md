# plutus_halo2_verifier_gen

Generation and cost estimation of Halo2 verifiers for Cardano (Aiken and
Plinth), written in Verus: each function of the library states what it
returns in its contract, and the contracts are proved.

Layout:

- `src/stats/` — the cost estimator: chip descriptions, the merge of their
  columns and arguments, the circuit degree and query sets, the operation
  counts of a verifier, proof and verification-key sizes, chip profiles.
- `src/extraction/` — rotation names, the opening steps of the supported
  polynomial commitment schemes and their costs, and MSM flattening and
  optimisation.
- `src/axiom_shplonk/` — the layout of an Axiom SHPLONK proof and every piece
  of the generated Aiken and Plinth verifier sources (proof fields, transcript
  reading, constraint evaluation, pairing check), and the values the
  templates are filled with.
- `src/axiom_scalar_mul.rs` — the Axiom scalar-multiplication fixture check
  and its template values; `src/hex_bytes.rs` — hexadecimal text;
  `src/template.rs` — filling Handlebars templates (strict mode).
- `src/cli.rs` — the estimator's options as plain values.
- `tests/` — tests on concrete values.
- `app/` — reading and writing files, JSON and command-line parsing, and the
  conversion of halo2-axiom verifying keys into the library's plain values.
