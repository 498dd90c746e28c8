//! A Poseidon sponge over the BN254 scalar field.
//!
//! The crate is split by layer. [`field`] holds the field element type and
//! the arithmetic it borrows from `halo2curves`; [`linear`] the dot product
//! and the two forms of the linear layer, as mathematics; [`params`] the
//! parameters of a permutation; [`state`] the state and its round
//! operations; [`permutation`] the round schedule; and [`sponge`] the hasher
//! that absorbs elements and squeezes digests.

pub mod field;
pub mod linear;
pub mod params;
pub mod permutation;
pub mod sponge;
pub mod state;

pub use field::FieldElement;
pub use params::{ParameterSet, PoseidonError, SparseMatrix};
pub use sponge::PoseidonHash;
pub use state::State;
