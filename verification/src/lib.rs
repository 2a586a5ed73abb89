//! A minimal append-only ledger secured by proof of work.
//!
//! Every block carries the lowercase hexadecimal SHA-256 digest of its own
//! contents and the digest of its predecessor. Appending a block searches for
//! a nonce whose digest starts with a configured number of `'0'` characters,
//! and validation re-derives every digest, link and target check.
//!
//! The contracts are stated over [`block::BlockView`], the mathematical
//! content of a block, and over sequences of such views.

pub mod block;
pub mod chain;
pub mod clock;
pub mod digest;
pub mod encoding;

pub use block::{Block, MineError, HASH_HEX_LEN};
pub use chain::Blockchain;
