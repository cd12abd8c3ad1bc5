//! Zero-knowledge circuits for private inventories.
//!
//! An inventory is a map from items to quantities, held in a sparse Merkle
//! tree over the Anemoi hash and known to the world only by a commitment to
//! the root of the tree, the volume of the inventory and a blinding factor.
//! The circuits of this crate prove that such an inventory took one deposit
//! or one withdrawal within its capacity, that it holds an item, or that it
//! has a volume, without showing what it holds.
//!
//! Every hash, tree and commitment exists twice: computed on field elements,
//! and written as constraints of a rank-one constraint system. The contracts
//! say that the two agree, and when the constraints can be met.

pub mod anemoi;
pub mod capacity_smt;
pub mod export;
pub mod field;
pub mod handlers;
pub mod item_exists_smt;
pub mod number_theory;
pub mod primality;
pub mod prove;
pub mod r1cs;
pub mod range_check;
pub mod setup;
pub mod signal;
pub mod smt;
pub mod smt_commitment;
pub mod state_transition;
pub mod verify;
