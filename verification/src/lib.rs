//! Algebraic-constraint and quotient-codeword engine for the hash table of a
//! zero-knowledge virtual-machine prover.
//!
//! The crate models trace columns over a prime field and its cubic extension,
//! describes the hash table's algebraic intermediate representation (AIR) as
//! constraint circuits, fills and extends execution traces, and divides
//! low-degree-extended columns by zerofiers to produce quotient codewords.

pub mod air;
pub mod air_transition;
pub mod challenges;
pub mod circuit;
pub mod degree;
pub mod field;
pub mod hash_table;
pub mod laws;
pub mod opcodes;
pub mod quotient;
pub mod rescue;

use vstd::prelude::*;

verus! {

/// The number of base columns of the hash table.
pub const BASE_WIDTH: usize = 50;

/// The number of extension columns of the hash table.
pub const EXT_WIDTH: usize = 3;

/// Base and extension columns together.
pub const FULL_WIDTH: usize = 53;

} // verus!
