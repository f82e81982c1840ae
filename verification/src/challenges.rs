//! The verifier-supplied challenges that the hash table's AIR closes over:
//! one indeterminate per running evaluation and one weight per compressed
//! column.

use vstd::prelude::*;

use crate::field::Xfe;

verus! {

/// The number of challenges of the hash table.
pub const NUM_EXTENSION_CHALLENGES: usize = 20;

/// Names for the challenges of the hash table.
#[derive(Debug, Clone, Copy, PartialEq, Eq, Hash, Structural)]
pub enum HashTableChallengeId {
    HashInputEvalIndeterminate,
    HashDigestEvalIndeterminate,
    SpongeEvalIndeterminate,
    CIWeight,
    HashStateWeight0,
    HashStateWeight1,
    HashStateWeight2,
    HashStateWeight3,
    HashStateWeight4,
    HashStateWeight5,
    HashStateWeight6,
    HashStateWeight7,
    HashStateWeight8,
    HashStateWeight9,
    HashStateWeight10,
    HashStateWeight11,
    HashStateWeight12,
    HashStateWeight13,
    HashStateWeight14,
    HashStateWeight15,
}

/// The challenge bundle for the hash table.
#[derive(Debug, Clone, Copy, PartialEq, Eq, Structural)]
pub struct HashTableChallenges {
    /// The indeterminate that combines two consecutive rows in the
    /// hash-input evaluation argument.
    pub hash_input_eval_indeterminate: Xfe,
    pub hash_digest_eval_indeterminate: Xfe,
    pub sponge_eval_indeterminate: Xfe,
    /// Weights for condensing part of a row into a single column. (Related to
    /// the processor table.)
    pub ci_weight: Xfe,
    pub hash_state_weight0: Xfe,
    pub hash_state_weight1: Xfe,
    pub hash_state_weight2: Xfe,
    pub hash_state_weight3: Xfe,
    pub hash_state_weight4: Xfe,
    pub hash_state_weight5: Xfe,
    pub hash_state_weight6: Xfe,
    pub hash_state_weight7: Xfe,
    pub hash_state_weight8: Xfe,
    pub hash_state_weight9: Xfe,
    pub hash_state_weight10: Xfe,
    pub hash_state_weight11: Xfe,
    pub hash_state_weight12: Xfe,
    pub hash_state_weight13: Xfe,
    pub hash_state_weight14: Xfe,
    pub hash_state_weight15: Xfe,
}

/// The challenge that a given identifier selects from the bundle.
pub open spec fn challenge_value(ch: HashTableChallenges, id: HashTableChallengeId) -> Xfe {
    match id {
        HashTableChallengeId::HashInputEvalIndeterminate => ch.hash_input_eval_indeterminate,
        HashTableChallengeId::HashDigestEvalIndeterminate => ch.hash_digest_eval_indeterminate,
        HashTableChallengeId::SpongeEvalIndeterminate => ch.sponge_eval_indeterminate,
        HashTableChallengeId::CIWeight => ch.ci_weight,
        HashTableChallengeId::HashStateWeight0 => ch.hash_state_weight0,
        HashTableChallengeId::HashStateWeight1 => ch.hash_state_weight1,
        HashTableChallengeId::HashStateWeight2 => ch.hash_state_weight2,
        HashTableChallengeId::HashStateWeight3 => ch.hash_state_weight3,
        HashTableChallengeId::HashStateWeight4 => ch.hash_state_weight4,
        HashTableChallengeId::HashStateWeight5 => ch.hash_state_weight5,
        HashTableChallengeId::HashStateWeight6 => ch.hash_state_weight6,
        HashTableChallengeId::HashStateWeight7 => ch.hash_state_weight7,
        HashTableChallengeId::HashStateWeight8 => ch.hash_state_weight8,
        HashTableChallengeId::HashStateWeight9 => ch.hash_state_weight9,
        HashTableChallengeId::HashStateWeight10 => ch.hash_state_weight10,
        HashTableChallengeId::HashStateWeight11 => ch.hash_state_weight11,
        HashTableChallengeId::HashStateWeight12 => ch.hash_state_weight12,
        HashTableChallengeId::HashStateWeight13 => ch.hash_state_weight13,
        HashTableChallengeId::HashStateWeight14 => ch.hash_state_weight14,
        HashTableChallengeId::HashStateWeight15 => ch.hash_state_weight15,
    }
}

/// All challenges in the bundle are well-formed field elements.
pub open spec fn challenges_wf(ch: HashTableChallenges) -> bool {
    &&& ch.hash_input_eval_indeterminate.wf()
    &&& ch.hash_digest_eval_indeterminate.wf()
    &&& ch.sponge_eval_indeterminate.wf()
    &&& ch.ci_weight.wf()
    &&& ch.hash_state_weight0.wf()
    &&& ch.hash_state_weight1.wf()
    &&& ch.hash_state_weight2.wf()
    &&& ch.hash_state_weight3.wf()
    &&& ch.hash_state_weight4.wf()
    &&& ch.hash_state_weight5.wf()
    &&& ch.hash_state_weight6.wf()
    &&& ch.hash_state_weight7.wf()
    &&& ch.hash_state_weight8.wf()
    &&& ch.hash_state_weight9.wf()
    &&& ch.hash_state_weight10.wf()
    &&& ch.hash_state_weight11.wf()
    &&& ch.hash_state_weight12.wf()
    &&& ch.hash_state_weight13.wf()
    &&& ch.hash_state_weight14.wf()
    &&& ch.hash_state_weight15.wf()
}

impl HashTableChallenges {
    /// Look one challenge up by its identifier.
    pub fn get_challenge(&self, id: HashTableChallengeId) -> (r: Xfe)
        ensures
            r == challenge_value(*self, id),
    {
        match id {
            HashTableChallengeId::HashInputEvalIndeterminate => self.hash_input_eval_indeterminate,
            HashTableChallengeId::HashDigestEvalIndeterminate => {
                self.hash_digest_eval_indeterminate
            },
            HashTableChallengeId::SpongeEvalIndeterminate => self.sponge_eval_indeterminate,
            HashTableChallengeId::CIWeight => self.ci_weight,
            HashTableChallengeId::HashStateWeight0 => self.hash_state_weight0,
            HashTableChallengeId::HashStateWeight1 => self.hash_state_weight1,
            HashTableChallengeId::HashStateWeight2 => self.hash_state_weight2,
            HashTableChallengeId::HashStateWeight3 => self.hash_state_weight3,
            HashTableChallengeId::HashStateWeight4 => self.hash_state_weight4,
            HashTableChallengeId::HashStateWeight5 => self.hash_state_weight5,
            HashTableChallengeId::HashStateWeight6 => self.hash_state_weight6,
            HashTableChallengeId::HashStateWeight7 => self.hash_state_weight7,
            HashTableChallengeId::HashStateWeight8 => self.hash_state_weight8,
            HashTableChallengeId::HashStateWeight9 => self.hash_state_weight9,
            HashTableChallengeId::HashStateWeight10 => self.hash_state_weight10,
            HashTableChallengeId::HashStateWeight11 => self.hash_state_weight11,
            HashTableChallengeId::HashStateWeight12 => self.hash_state_weight12,
            HashTableChallengeId::HashStateWeight13 => self.hash_state_weight13,
            HashTableChallengeId::HashStateWeight14 => self.hash_state_weight14,
            HashTableChallengeId::HashStateWeight15 => self.hash_state_weight15,
        }
    }
}

} // verus!
