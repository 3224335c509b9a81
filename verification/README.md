# powdr (verified parts)

Parts of the powdr toolchain written in Verus, with their behaviour stated in
contracts and proved.

- `src/parsed.rs`: the parsed PIL syntax tree, its builders and accessors,
  the pre-order search `Expression::any`, deep copies, and array expressions
  (padding, solving for `*`).
- `src/analyzed.rs`, `src/dead_column_checker.rs`: what the column analysis
  reads of an analyzed PIL file, the search for committed columns that no
  identity or public declaration uses, and for those that no identity relates
  to another column.
- `src/flavor_builder.rs`: the text of the Barretenberg flavor header.
- `src/riscv.rs`, `src/witness_generator.rs`: the decisions of the RISC-V
  pipeline and of witness generation (file names, manifests, merging
  assembly, the loop that turns a generator's rows into columns).
- `src/text.rs`: joining, decimal numbers and string comparisons.
- `app/`: the file system, processes and printing around them.
