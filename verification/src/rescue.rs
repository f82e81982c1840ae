//! Parameters of the Rescue-XLIX permutation that the hash table enforces:
//! the MDS matrix, its inverse, and the round constants.
//!
//! The permutation itself runs inside the virtual machine; the AIR only
//! embeds these public constants into its circuits, so the engine takes them
//! as an input rather than fixing one instance.

use vstd::prelude::*;

use crate::field::Bfe;
use crate::hash_table::b_row_wf;
use crate::hash_table::STATE_SIZE;
use crate::hash_table::TOTAL_NUM_CONSTANTS;

verus! {

/// The degree of the S-box `x ↦ x^ALPHA`.
pub const ALPHA: u64 = 7;

/// Number of entries of the MDS matrix and of its inverse.
pub const MDS_ENTRIES: usize = 256;

/// The public constants of the permutation: `mds` and `mds_inv` hold the
/// 16×16 MDS matrix and its inverse in row-major order; `round_constants`
/// holds 32 constants per state transition, the 16 first-half constants
/// before the 16 second-half constants.
#[derive(Debug, Clone)]
pub struct RescueParameters {
    pub mds: Vec<Bfe>,
    pub mds_inv: Vec<Bfe>,
    pub round_constants: Vec<Bfe>,
}

impl RescueParameters {
    /// The three tables have their declared sizes and canonical entries.
    pub open spec fn wf(self) -> bool {
        &&& self.mds@.len() == MDS_ENTRIES
        &&& self.mds_inv@.len() == MDS_ENTRIES
        &&& self.round_constants@.len() == TOTAL_NUM_CONSTANTS
        &&& b_row_wf(self.mds@)
        &&& b_row_wf(self.mds_inv@)
        &&& b_row_wf(self.round_constants@)
    }
}

} // verus!
