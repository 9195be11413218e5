//! A minimal proof-of-work ledger: hash-linked blocks, nonce mining against a
//! difficulty prefix, block and chain validation, and longest-valid-chain
//! fork choice.
pub mod block;
pub mod chain;
pub mod encoding;
pub mod hashing;
