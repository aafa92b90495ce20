//! An append-only, tamper-evident chain of proof-of-work blocks.
pub mod block;
pub mod chain;
pub mod decimal;

pub use block::Block;
pub use chain::{AddError, BlockChain};
