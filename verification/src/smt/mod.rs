//! A sparse Merkle tree over the Anemoi hash: the accumulator that holds an
//! inventory, its membership proofs, and the gadgets that check them.

pub mod gadgets;
pub mod merkle_proof;
pub mod tree;
