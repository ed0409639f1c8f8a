//! Verified decision logic of the ZK-6358 batch runner: batch sizing and
//! preparation, the batch-execution steps, the high-rate FRI configuration,
//! the verifier-key registry of the local contract verifier, the object-store
//! command parser and the key encoding used when mocking transactions.
pub mod batch;
pub mod runner;
pub mod fri_config;
pub mod vk_registry;
pub mod object_store;
pub mod mock_keys;
