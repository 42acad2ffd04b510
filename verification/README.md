# zkevm_circuits

Two circuits of a zero-knowledge EVM, with their contracts proved in Verus:

- the chip that checks the key of an extension node of a Merkle Patricia trie
  (`src/extension_node_key.rs`, with what its constraints mean in
  `src/extension_node_key_laws.rs`);
- the state circuit over the table of reads and writes (`src/state_circuit.rs`), with its
  configuration, its queries and the assignment of its rows below `src/state_circuit/`.

Polynomials are values of the library (`src/expression.rs`), over a field that is given by
`src/field.rs`; `src/pallas.rs` is the base field of the Pallas curve, whose arithmetic is that of
`halo2_proofs`. `app/` turns the circuits into circuits of `halo2_proofs`; the chips that the state
circuit is put together from come in through the trait in `app/chips.rs`.
