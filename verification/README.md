# darkside

Builds of test chains on a darksidewalletd server, with the logic of the builds verified by
Verus.

- `src/` is the library. A chain build is a script of steps; the machine in `flow.rs` turns
  each step into a request to the outside and takes the reply. `chain.rs` holds the scripts,
  `update.rs` the tree state that a transaction leaves behind, and `laws.rs` what holds of
  whole builds. The calls into `hex`, `http`, `incrementalmerkletree`, `serde_json` and the
  Zcash crates stand behind small functions whose contracts are stated, not proved.
- `tests/` runs the library on concrete values, with those crates linked.
- `app/` is ordinary Rust around the library: the server's connection and process, files and
  wallets.

The data that a chain starts from (its first block, the tree state at its end, the
transaction with the startup funds) is handed in as `ChainConstants`.
