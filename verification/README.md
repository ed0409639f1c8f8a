# zk_6358_runner

Runs the ZK-6358 prover over the transactions of the omniverse executor,
batch by batch, and keeps the proofs in an object store.

`src/` is the verified library (Verus):

- `batch`: batch sizing (the requested size halved until the stored
  transactions suffice, never below the chunk size), the sequence-id and
  conversion checks of a batch, and its block/sequence range;
- `runner`: the two decisions of one execution round (checking the requested
  size before fetching, and preparing what was fetched);
- `fri_config`: the high-rate FRI configuration of the final recursive proof;
- `vk_registry`: the verifying-key contracts of the local on-chain verifier,
  keyed by batch size;
- `object_store`: the commands of the interactive object-store tool;
- `mock_keys`: the byte encoding of the public key that signs mock
  transactions.

`app/` is the program around it: configuration, database and object-store
access, proving, the EVM, and the command line. It builds on the prover,
executor-database and storage crates of the ZK-6358 project (`zk_6358`,
`zk_6358_prover`, `exec_system`, `interact`, `circuit_local_storage`,
`crypto`, `semaphore_aggregation`, `halo2_solidity_verifier`), which are not
published, and on plonky2, which needs a nightly toolchain.
