//! The transition constraints of the hash table: round-number evolution,
//! instruction persistence, one Rescue-XLIX round per state lane, the sponge
//! copy rules, and the three running-evaluation updates.

use vstd::prelude::*;

use crate::air::compressed_state_diffs_value;
use crate::air::compressed_states_value;
use crate::air::deselector_value;
use crate::air::op_absorb_init_x;
use crate::air::op_absorb_x;
use crate::air::op_hash_x;
use crate::air::op_squeeze_x;
use crate::air::round_number_deselector;
use crate::air::weight_id_of;
use crate::air::ExtHashTable;
use crate::challenges::HashTableChallengeId;
use crate::challenges::HashTableChallenges;
use crate::circuit::at;
use crate::circuit::eval;
use crate::circuit::wf_values;
use crate::circuit::ConstraintCircuit;
use crate::circuit::InputIndicator;
use crate::field::b_zero;
use crate::field::x_add;
use crate::field::x_from_b;
use crate::field::x_mul;
use crate::field::x_one;
use crate::field::x_sub;
use crate::field::Bfe;
use crate::field::P;
use crate::field::Xfe;
use crate::hash_table::COL_CI;
use crate::hash_table::COL_CONSTANT0A;
use crate::hash_table::COL_ROUND_NUMBER;
use crate::hash_table::COL_STATE0;
use crate::hash_table::EXT_COL_HASH_DIGEST;
use crate::hash_table::EXT_COL_HASH_INPUT;
use crate::hash_table::EXT_COL_SPONGE;
use crate::hash_table::DIGEST_LENGTH;
use crate::hash_table::NUM_ROUNDS;
use crate::hash_table::RATE;
use crate::hash_table::STATE_SIZE;
use crate::rescue::RescueParameters;
use crate::rescue::ALPHA;

verus! {

/// The last round number, `NUM_ROUNDS + 1`, lifted into the extension field.
pub open spec fn last_round_x() -> Xfe {
    x_from_b(Bfe { v: (NUM_ROUNDS + 1) as u64 })
}

/// `v` multiplied by itself until `m` factors have been used: the S-box chain
/// `v^m` as the circuits build it.
pub open spec fn sbox_partial(v: Xfe, m: int) -> Xfe
    decreases m,
{
    if m <= 1 {
        v
    } else {
        x_mul(sbox_partial(v, m - 1), v)
    }
}

/// The S-box `v ↦ v^ALPHA`.
pub open spec fn sbox_value(v: Xfe) -> Xfe {
    sbox_partial(v, ALPHA as int)
}

/// `Σ_{j<n} mds[16·lane+j] · sbox(base[STATE_j])`: the forward MDS row sum
/// over the S-boxed current state.
pub open spec fn mds_forward_partial(mds: Seq<Bfe>, lane: int, base: Seq<Xfe>, n: int) -> Xfe
    decreases n,
{
    if n <= 0 {
        x_from_b(b_zero())
    } else {
        x_add(
            mds_forward_partial(mds, lane, base, n - 1),
            x_mul(
                x_from_b(mds[STATE_SIZE * lane + n - 1]),
                sbox_value(at(base, COL_STATE0 + n - 1)),
            ),
        )
    }
}

/// The forward half of one Rescue round for one lane: MDS row sum plus the
/// lane's first-half round-constant column.
pub open spec fn rescue_forward_value(mds: Seq<Bfe>, lane: int, base: Seq<Xfe>) -> Xfe {
    x_add(
        mds_forward_partial(mds, lane, base, STATE_SIZE as int),
        at(base, COL_CONSTANT0A + lane),
    )
}

/// `Σ_{j<n} mds_inv[16·lane+j] · (next[STATE_j] − base[CONSTANT_jB])`: the
/// backward MDS row sum over the next state minus the second-half constants.
pub open spec fn mds_backward_partial(
    mds_inv: Seq<Bfe>,
    lane: int,
    base: Seq<Xfe>,
    next_base: Seq<Xfe>,
    n: int,
) -> Xfe
    decreases n,
{
    if n <= 0 {
        x_from_b(b_zero())
    } else {
        x_add(
            mds_backward_partial(mds_inv, lane, base, next_base, n - 1),
            x_mul(
                x_from_b(mds_inv[STATE_SIZE * lane + n - 1]),
                x_sub(
                    at(next_base, COL_STATE0 + n - 1),
                    at(base, COL_CONSTANT0A + STATE_SIZE + n - 1),
                ),
            ),
        )
    }
}

/// The backward half of one Rescue round for one lane, S-boxed.
pub open spec fn rescue_backward_value(
    mds_inv: Seq<Bfe>,
    lane: int,
    base: Seq<Xfe>,
    next_base: Seq<Xfe>,
) -> Xfe {
    sbox_value(mds_backward_partial(mds_inv, lane, base, next_base, STATE_SIZE as int))
}

/// One Rescue-round lane constraint: the forward and backward halves agree,
/// gated off on padding rows and after the final round.
pub open spec fn rescue_lane_value(
    lane: int,
    base: Seq<Xfe>,
    next_base: Seq<Xfe>,
    mds: Seq<Bfe>,
    mds_inv: Seq<Bfe>,
) -> Xfe {
    let rn = at(base, COL_ROUND_NUMBER as int);
    x_mul(
        x_mul(rn, x_sub(rn, last_round_x())),
        x_sub(
            rescue_forward_value(mds, lane, base),
            rescue_backward_value(mds_inv, lane, base, next_base),
        ),
    )
}

/// The product `(ci' − absorb_init) · (ci' − absorb) · (ci' − squeeze)`,
/// which vanishes unless the next instruction is `hash` or illegal.
pub open spec fn ci_next_is_not_hash_value(next_base: Seq<Xfe>) -> Xfe {
    let ci_next = at(next_base, COL_CI as int);
    x_mul(
        x_mul(x_sub(ci_next, op_absorb_init_x()), x_sub(ci_next, op_absorb_x())),
        x_sub(ci_next, op_squeeze_x()),
    )
}

/// The value of transition constraint `k` on a pair of adjacent rows.
pub open spec fn transition_constraint_value(
    k: int,
    base: Seq<Xfe>,
    ext: Seq<Xfe>,
    next_base: Seq<Xfe>,
    next_ext: Seq<Xfe>,
    ch: HashTableChallenges,
    mds: Seq<Bfe>,
    mds_inv: Seq<Bfe>,
) -> Xfe {
    let rn = at(base, COL_ROUND_NUMBER as int);
    let ci = at(base, COL_CI as int);
    let rn_next = at(next_base, COL_ROUND_NUMBER as int);
    let ci_next = at(next_base, COL_CI as int);
    let hi = at(ext, EXT_COL_HASH_INPUT as int);
    let hd = at(ext, EXT_COL_HASH_DIGEST as int);
    let sp = at(ext, EXT_COL_SPONGE as int);
    let hi_next = at(next_ext, EXT_COL_HASH_INPUT as int);
    let hd_next = at(next_ext, EXT_COL_HASH_DIGEST as int);
    let sp_next = at(next_ext, EXT_COL_SPONGE as int);
    if k == 0 {
        x_mul(deselector_value(rn, 0), rn_next)
    } else if k == 1 {
        x_mul(
            x_mul(deselector_value(rn, (NUM_ROUNDS + 1) as int), x_sub(x_one(), rn_next)),
            rn_next,
        )
    } else if k == 2 {
        x_mul(
            x_mul(rn, x_sub(last_round_x(), rn)),
            x_sub(x_sub(rn_next, rn), x_one()),
        )
    } else if k == 3 {
        x_mul(
            x_mul(
                x_mul(x_sub(ci, op_absorb_init_x()), x_sub(ci, op_absorb_x())),
                x_sub(ci, op_squeeze_x()),
            ),
            x_sub(ci_next, op_hash_x()),
        )
    } else if k == 4 {
        x_mul(x_sub(rn, last_round_x()), x_sub(ci_next, ci))
    } else if 5 <= k < 5 + STATE_SIZE {
        rescue_lane_value(k - 5, base, next_base, mds, mds_inv)
    } else if k == 21 {
        x_mul(
            x_mul(
                x_mul(
                    x_mul(deselector_value(rn_next, 1), x_sub(ci_next, op_hash_x())),
                    x_sub(ci_next, op_absorb_init_x()),
                ),
                x_sub(ci_next, op_squeeze_x()),
            ),
            compressed_state_diffs_value(base, next_base, ch, RATE as int, 6),
        )
    } else if k == 22 {
        x_mul(
            x_mul(
                x_mul(
                    x_mul(deselector_value(rn_next, 1), x_sub(ci_next, op_hash_x())),
                    x_sub(ci_next, op_absorb_init_x()),
                ),
                x_sub(ci_next, op_absorb_x()),
            ),
            compressed_state_diffs_value(base, next_base, ch, 0, STATE_SIZE as int),
        )
    } else if k == 23 {
        let hi_remains = x_sub(hi_next, hi);
        let hi_updates = x_sub(
            x_sub(hi_next, x_mul(ch.hash_input_eval_indeterminate, hi)),
            compressed_states_value(next_base, ch, RATE as int),
        );
        x_add(
            x_add(
                x_mul(
                    x_mul(deselector_value(rn_next, 1), ci_next_is_not_hash_value(next_base)),
                    hi_updates,
                ),
                x_mul(x_sub(rn_next, x_one()), hi_remains),
            ),
            x_mul(x_sub(ci_next, op_hash_x()), hi_remains),
        )
    } else if k == 24 {
        let hd_remains = x_sub(hd_next, hd);
        let hd_updates = x_sub(
            x_sub(hd_next, x_mul(ch.hash_digest_eval_indeterminate, hd)),
            compressed_states_value(next_base, ch, DIGEST_LENGTH as int),
        );
        x_add(
            x_add(
                x_mul(
                    x_mul(
                        deselector_value(rn_next, (NUM_ROUNDS + 1) as int),
                        ci_next_is_not_hash_value(next_base),
                    ),
                    hd_updates,
                ),
                x_mul(x_sub(rn_next, last_round_x()), hd_remains),
            ),
            x_mul(x_sub(ci_next, op_hash_x()), hd_remains),
        )
    } else {
        let sp_accum_next = x_sub(
            x_sub(
                x_sub(sp_next, x_mul(ch.sponge_eval_indeterminate, sp)),
                x_mul(ch.ci_weight, ci_next),
            ),
            compressed_states_value(next_base, ch, RATE as int),
        );
        let clause1 = x_mul(
            x_mul(
                x_mul(deselector_value(rn_next, 1), x_sub(ci_next, op_hash_x())),
                x_sub(ci_next, op_absorb_x()),
            ),
            sp_accum_next,
        );
        let sp_accum_diff = x_sub(
            x_sub(
                x_sub(sp_next, x_mul(ch.sponge_eval_indeterminate, sp)),
                x_mul(ch.ci_weight, ci_next),
            ),
            compressed_state_diffs_value(base, next_base, ch, 0, RATE as int),
        );
        let clause2 = x_mul(
            x_mul(
                x_mul(
                    x_mul(deselector_value(rn_next, 1), x_sub(ci_next, op_hash_x())),
                    x_sub(ci_next, op_absorb_init_x()),
                ),
                x_sub(ci_next, op_squeeze_x()),
            ),
            sp_accum_diff,
        );
        let sp_remains = x_sub(sp_next, sp);
        let clause3 = x_mul(x_sub(rn_next, x_one()), sp_remains);
        let clause4 = x_mul(
            x_mul(
                x_mul(x_sub(ci_next, op_absorb_init_x()), x_sub(ci_next, op_absorb_x())),
                x_sub(ci_next, op_squeeze_x()),
            ),
            sp_remains,
        );
        x_add(x_add(x_add(clause1, clause2), clause3), clause4)
    }
}

/// The number of transition constraints.
pub open spec fn num_transition_constraints() -> int {
    5 + STATE_SIZE + 5
}

/// The constraints carry canonical constants and each evaluates to
/// `transition_constraint_value` of its index on every pair of rows.
pub open spec fn transition_circuits_ok(
    cs: Seq<ConstraintCircuit>,
    mds: Seq<Bfe>,
    mds_inv: Seq<Bfe>,
) -> bool {
    &&& cs.len() == num_transition_constraints()
    &&& forall|k: int| 0 <= k < cs.len() ==> wf_values(#[trigger] cs[k])
    &&& forall|
        k: int,
        base: Seq<Xfe>,
        ext: Seq<Xfe>,
        nb: Seq<Xfe>,
        ne: Seq<Xfe>,
        ch: HashTableChallenges,
    |
        0 <= k < cs.len() ==> #[trigger] eval(cs[k], base, ext, nb, ne, ch)
            == transition_constraint_value(k, base, ext, nb, ne, ch, mds, mds_inv)
}

/// The S-box circuit `node^ALPHA`, built by repeated multiplication.
fn sbox_circuit(node: &ConstraintCircuit) -> (res: ConstraintCircuit)
    ensures
        forall|
            base: Seq<Xfe>,
            ext: Seq<Xfe>,
            nb: Seq<Xfe>,
            ne: Seq<Xfe>,
            ch: HashTableChallenges,
        |
            #[trigger] eval(res, base, ext, nb, ne, ch) == sbox_value(
                eval(*node, base, ext, nb, ne, ch),
            ),
        wf_values(*node) ==> wf_values(res),
{
    let ghost n = *node;
    let mut acc = node.clone();
    let mut m: u64 = 1;
    while m < ALPHA
        invariant
            1 <= m <= ALPHA,
            n == *node,
            forall|
                base: Seq<Xfe>,
                ext: Seq<Xfe>,
                nb: Seq<Xfe>,
                ne: Seq<Xfe>,
                ch: HashTableChallenges,
            |
                #[trigger] eval(acc, base, ext, nb, ne, ch) == sbox_partial(
                    eval(n, base, ext, nb, ne, ch),
                    m as int,
                ),
            wf_values(n) ==> wf_values(acc),
        decreases ALPHA - m,
    {
        acc = acc.mul(node.clone());
        m = m + 1;
    }
    acc
}

/// The forward half of one Rescue-round lane: the MDS row sum over the
/// S-boxed current state, plus the lane's first-half round-constant column.
fn rescue_forward_circuit(params: &RescueParameters, lane: usize) -> (res: ConstraintCircuit)
    requires
        params.wf(),
        lane < STATE_SIZE,
    ensures
        forall|
            base: Seq<Xfe>,
            ext: Seq<Xfe>,
            nb: Seq<Xfe>,
            ne: Seq<Xfe>,
            ch: HashTableChallenges,
        |
            #[trigger] eval(res, base, ext, nb, ne, ch) == rescue_forward_value(
                params.mds@,
                lane as int,
                base,
            ),
        wf_values(res),
{
    let mut acc = ConstraintCircuit::b_constant(Bfe::new(0));
    proof {
        vstd::arithmetic::div_mod::lemma_small_mod(0nat, P as nat);
    }
    let mut j: usize = 0;
    while j < STATE_SIZE
        invariant
            j <= STATE_SIZE,
            params.wf(),
            lane < STATE_SIZE,
            forall|
                base: Seq<Xfe>,
                ext: Seq<Xfe>,
                nb: Seq<Xfe>,
                ne: Seq<Xfe>,
                ch: HashTableChallenges,
            |
                #[trigger] eval(acc, base, ext, nb, ne, ch) == mds_forward_partial(
                    params.mds@,
                    lane as int,
                    base,
                    j as int,
                ),
            wf_values(acc),
        decreases STATE_SIZE - j,
    {
        let coefficient = params.mds[STATE_SIZE * lane + j];
        let state = ConstraintCircuit::input(InputIndicator::CurrentBaseRow(COL_STATE0 + j));
        let term = ConstraintCircuit::b_constant(coefficient).mul(sbox_circuit(&state));
        acc = acc.add(term);
        j = j + 1;
    }
    acc.add(ConstraintCircuit::input(InputIndicator::CurrentBaseRow(COL_CONSTANT0A + lane)))
}

/// The backward half of one Rescue-round lane: the inverse-MDS row sum over
/// the next state minus the second-half round-constant columns, S-boxed.
fn rescue_backward_circuit(params: &RescueParameters, lane: usize) -> (res: ConstraintCircuit)
    requires
        params.wf(),
        lane < STATE_SIZE,
    ensures
        forall|
            base: Seq<Xfe>,
            ext: Seq<Xfe>,
            nb: Seq<Xfe>,
            ne: Seq<Xfe>,
            ch: HashTableChallenges,
        |
            #[trigger] eval(res, base, ext, nb, ne, ch) == rescue_backward_value(
                params.mds_inv@,
                lane as int,
                base,
                nb,
            ),
        wf_values(res),
{
    let mut acc = ConstraintCircuit::b_constant(Bfe::new(0));
    proof {
        vstd::arithmetic::div_mod::lemma_small_mod(0nat, P as nat);
    }
    let mut j: usize = 0;
    while j < STATE_SIZE
        invariant
            j <= STATE_SIZE,
            params.wf(),
            lane < STATE_SIZE,
            forall|
                base: Seq<Xfe>,
                ext: Seq<Xfe>,
                nb: Seq<Xfe>,
                ne: Seq<Xfe>,
                ch: HashTableChallenges,
            |
                #[trigger] eval(acc, base, ext, nb, ne, ch) == mds_backward_partial(
                    params.mds_inv@,
                    lane as int,
                    base,
                    nb,
                    j as int,
                ),
            wf_values(acc),
        decreases STATE_SIZE - j,
    {
        let coefficient = params.mds_inv[STATE_SIZE * lane + j];
        let difference = ConstraintCircuit::input(
            InputIndicator::NextBaseRow(COL_STATE0 + j),
        ).sub(
            ConstraintCircuit::input(
                InputIndicator::CurrentBaseRow(COL_CONSTANT0A + STATE_SIZE + j),
            ),
        );
        let term = ConstraintCircuit::b_constant(coefficient).mul(difference);
        acc = acc.add(term);
        j = j + 1;
    }
    sbox_circuit(&acc)
}

/// `Σ_{i<n} weight_i · next[STATE_i]` as a circuit over the next base row.
fn compressed_next_row_circuit(n: usize) -> (res: ConstraintCircuit)
    requires
        n <= STATE_SIZE,
    ensures
        forall|
            base: Seq<Xfe>,
            ext: Seq<Xfe>,
            nb: Seq<Xfe>,
            ne: Seq<Xfe>,
            ch: HashTableChallenges,
        |
            #[trigger] eval(res, base, ext, nb, ne, ch) == compressed_states_value(
                nb,
                ch,
                n as int,
            ),
        wf_values(res),
{
    let mut acc = ConstraintCircuit::b_constant(Bfe::new(0));
    proof {
        vstd::arithmetic::div_mod::lemma_small_mod(0nat, P as nat);
    }
    let mut i: usize = 0;
    while i < n
        invariant
            i <= n,
            n <= STATE_SIZE,
            forall|
                base: Seq<Xfe>,
                ext: Seq<Xfe>,
                nb: Seq<Xfe>,
                ne: Seq<Xfe>,
                ch: HashTableChallenges,
            |
                #[trigger] eval(acc, base, ext, nb, ne, ch) == compressed_states_value(
                    nb,
                    ch,
                    i as int,
                ),
            wf_values(acc),
        decreases n - i,
    {
        let term = ConstraintCircuit::challenge(weight_id_of(i)).mul(
            ConstraintCircuit::input(InputIndicator::NextBaseRow(COL_STATE0 + i)),
        );
        acc = acc.add(term);
        i = i + 1;
    }
    acc
}

/// `Σ_{j<n} weight_{lo+j} · (next[STATE_{lo+j}] − current[STATE_{lo+j}])` as
/// a circuit.
fn compressed_diff_circuit(lo: usize, n: usize) -> (res: ConstraintCircuit)
    requires
        lo + n <= STATE_SIZE,
    ensures
        forall|
            base: Seq<Xfe>,
            ext: Seq<Xfe>,
            nb: Seq<Xfe>,
            ne: Seq<Xfe>,
            ch: HashTableChallenges,
        |
            #[trigger] eval(res, base, ext, nb, ne, ch) == compressed_state_diffs_value(
                base,
                nb,
                ch,
                lo as int,
                n as int,
            ),
        wf_values(res),
{
    let mut acc = ConstraintCircuit::b_constant(Bfe::new(0));
    proof {
        vstd::arithmetic::div_mod::lemma_small_mod(0nat, P as nat);
    }
    let mut j: usize = 0;
    while j < n
        invariant
            j <= n,
            lo + n <= STATE_SIZE,
            forall|
                base: Seq<Xfe>,
                ext: Seq<Xfe>,
                nb: Seq<Xfe>,
                ne: Seq<Xfe>,
                ch: HashTableChallenges,
            |
                #[trigger] eval(acc, base, ext, nb, ne, ch) == compressed_state_diffs_value(
                    base,
                    nb,
                    ch,
                    lo as int,
                    j as int,
                ),
            wf_values(acc),
        decreases n - j,
    {
        let difference = ConstraintCircuit::input(
            InputIndicator::NextBaseRow(COL_STATE0 + lo + j),
        ).sub(ConstraintCircuit::input(InputIndicator::CurrentBaseRow(COL_STATE0 + lo + j)));
        let term = ConstraintCircuit::challenge(weight_id_of(lo + j)).mul(difference);
        acc = acc.add(term);
        j = j + 1;
    }
    acc
}

impl ExtHashTable {
    /// The constraints on every pair of adjacent rows of the hash table.
    #[verifier::rlimit(100)]
    pub fn ext_transition_constraints_as_circuits(params: &RescueParameters) -> (res: Vec<
        ConstraintCircuit,
    >)
        requires
            params.wf(),
        ensures
            transition_circuits_ok(res@, params.mds@, params.mds_inv@),
    {
        let ops = crate::opcodes::instruction_opcodes();
        proof {
            vstd::arithmetic::div_mod::lemma_small_mod(1nat, P as nat);
            vstd::arithmetic::div_mod::lemma_small_mod((NUM_ROUNDS + 1) as nat, P as nat);
            vstd::arithmetic::div_mod::lemma_small_mod(crate::opcodes::OPCODE_HASH as nat, P as nat);
            vstd::arithmetic::div_mod::lemma_small_mod(
                crate::opcodes::OPCODE_ABSORB_INIT as nat,
                P as nat,
            );
            vstd::arithmetic::div_mod::lemma_small_mod(
                crate::opcodes::OPCODE_ABSORB as nat,
                P as nat,
            );
            vstd::arithmetic::div_mod::lemma_small_mod(
                crate::opcodes::OPCODE_SQUEEZE as nat,
                P as nat,
            );
        }
        let one = ConstraintCircuit::b_constant(Bfe::new(1));
        let last_round = ConstraintCircuit::b_constant(Bfe::new(NUM_ROUNDS + 1));
        let opcode_hash = ConstraintCircuit::b_constant(Bfe::new(ops.0));
        let opcode_absorb_init = ConstraintCircuit::b_constant(Bfe::new(ops.1));
        let opcode_absorb = ConstraintCircuit::b_constant(Bfe::new(ops.2));
        let opcode_squeeze = ConstraintCircuit::b_constant(Bfe::new(ops.3));
        let rn = ConstraintCircuit::input(InputIndicator::CurrentBaseRow(COL_ROUND_NUMBER));
        let ci = ConstraintCircuit::input(InputIndicator::CurrentBaseRow(COL_CI));
        let rn_next = ConstraintCircuit::input(InputIndicator::NextBaseRow(COL_ROUND_NUMBER));
        let ci_next = ConstraintCircuit::input(InputIndicator::NextBaseRow(COL_CI));
        let hi = ConstraintCircuit::input(InputIndicator::CurrentExtRow(EXT_COL_HASH_INPUT));
        let hd = ConstraintCircuit::input(InputIndicator::CurrentExtRow(EXT_COL_HASH_DIGEST));
        let sp = ConstraintCircuit::input(InputIndicator::CurrentExtRow(EXT_COL_SPONGE));
        let hi_next = ConstraintCircuit::input(InputIndicator::NextExtRow(EXT_COL_HASH_INPUT));
        let hd_next = ConstraintCircuit::input(InputIndicator::NextExtRow(EXT_COL_HASH_DIGEST));
        let sp_next = ConstraintCircuit::input(InputIndicator::NextExtRow(EXT_COL_SPONGE));

        let rn_is_not_0 = round_number_deselector(&rn, 0);
        let rn_is_not_9 = round_number_deselector(&rn, (NUM_ROUNDS + 1) as usize);
        let k0 = rn_is_not_0.mul(rn_next.clone());
        let k1 = rn_is_not_9.mul(one.clone().sub(rn_next.clone())).mul(rn_next.clone());
        let k2 = rn.clone().mul(last_round.clone().sub(rn.clone())).mul(
            rn_next.clone().sub(rn.clone()).sub(one.clone()),
        );
        let k3 = ci.clone().sub(opcode_absorb_init.clone()).mul(
            ci.clone().sub(opcode_absorb.clone()),
        ).mul(ci.clone().sub(opcode_squeeze.clone())).mul(
            ci_next.clone().sub(opcode_hash.clone()),
        );
        let k4 = rn.clone().sub(last_round.clone()).mul(ci_next.clone().sub(ci));

        let mut res: Vec<ConstraintCircuit> = Vec::new();
        res.push(k0);
        res.push(k1);
        res.push(k2);
        res.push(k3);
        res.push(k4);

        let mut lane: usize = 0;
        while lane < STATE_SIZE
            invariant
                lane <= STATE_SIZE,
                params.wf(),
                res@.len() == 5 + lane,
                forall|
                    base: Seq<Xfe>,
                    ext: Seq<Xfe>,
                    nb: Seq<Xfe>,
                    ne: Seq<Xfe>,
                    ch: HashTableChallenges,
                |
                    #[trigger] eval(rn, base, ext, nb, ne, ch) == at(
                        base,
                        COL_ROUND_NUMBER as int,
                    ),
                wf_values(rn),
                forall|k: int| 0 <= k < res@.len() ==> wf_values(#[trigger] res@[k]),
                forall|
                    k: int,
                    base: Seq<Xfe>,
                    ext: Seq<Xfe>,
                    nb: Seq<Xfe>,
                    ne: Seq<Xfe>,
                    ch: HashTableChallenges,
                |
                    0 <= k < res@.len() ==> #[trigger] eval(res@[k], base, ext, nb, ne, ch)
                        == transition_constraint_value(
                        k,
                        base,
                        ext,
                        nb,
                        ne,
                        ch,
                        params.mds@,
                        params.mds_inv@,
                    ),
            decreases STATE_SIZE - lane,
        {
            let forward = rescue_forward_circuit(params, lane);
            let backward = rescue_backward_circuit(params, lane);
            let gate = rn.clone().mul(
                rn.clone().sub(ConstraintCircuit::b_constant(Bfe::new(NUM_ROUNDS + 1))),
            );
            proof {
                vstd::arithmetic::div_mod::lemma_small_mod((NUM_ROUNDS + 1) as nat, P as nat);
            }
            let k = gate.mul(forward.sub(backward));
            res.push(k);
            lane = lane + 1;
        }

        let rn_next_is_not_1 = round_number_deselector(&rn_next, 1);
        let rn_next_is_not_9 = round_number_deselector(&rn_next, (NUM_ROUNDS + 1) as usize);
        let capacity_diffs = compressed_diff_circuit(RATE, STATE_SIZE - RATE);
        let k21 = rn_next_is_not_1.clone().mul(ci_next.clone().sub(opcode_hash.clone())).mul(
            ci_next.clone().sub(opcode_absorb_init.clone()),
        ).mul(ci_next.clone().sub(opcode_squeeze.clone())).mul(capacity_diffs);
        res.push(k21);

        let state_diffs = compressed_diff_circuit(0, STATE_SIZE);
        let k22 = rn_next_is_not_1.clone().mul(ci_next.clone().sub(opcode_hash.clone())).mul(
            ci_next.clone().sub(opcode_absorb_init.clone()),
        ).mul(ci_next.clone().sub(opcode_absorb.clone())).mul(state_diffs);
        res.push(k22);

        let ci_next_is_not_hash = ci_next.clone().sub(opcode_absorb_init.clone()).mul(
            ci_next.clone().sub(opcode_absorb.clone()),
        ).mul(ci_next.clone().sub(opcode_squeeze.clone()));

        let compressed_next_rate = compressed_next_row_circuit(RATE);
        let hi_remains = hi_next.clone().sub(hi.clone());
        let hi_updates = hi_next.sub(
            ConstraintCircuit::challenge(
                HashTableChallengeId::HashInputEvalIndeterminate,
            ).mul(hi),
        ).sub(compressed_next_rate.clone());
        let k23 = rn_next_is_not_1.clone().mul(ci_next_is_not_hash.clone()).mul(hi_updates).add(
            rn_next.clone().sub(one.clone()).mul(hi_remains.clone()),
        ).add(ci_next.clone().sub(opcode_hash.clone()).mul(hi_remains));
        res.push(k23);

        let compressed_next_digest = compressed_next_row_circuit(DIGEST_LENGTH);
        let hd_remains = hd_next.clone().sub(hd.clone());
        let hd_updates = hd_next.sub(
            ConstraintCircuit::challenge(
                HashTableChallengeId::HashDigestEvalIndeterminate,
            ).mul(hd),
        ).sub(compressed_next_digest);
        let k24 = rn_next_is_not_9.mul(ci_next_is_not_hash).mul(hd_updates).add(
            rn_next.clone().sub(last_round).mul(hd_remains.clone()),
        ).add(ci_next.clone().sub(opcode_hash.clone()).mul(hd_remains));
        res.push(k24);

        let sp_accum_next = sp_next.clone().sub(
            ConstraintCircuit::challenge(HashTableChallengeId::SpongeEvalIndeterminate).mul(
                sp.clone(),
            ),
        ).sub(
            ConstraintCircuit::challenge(HashTableChallengeId::CIWeight).mul(ci_next.clone()),
        ).sub(compressed_next_rate);
        let clause1 = rn_next_is_not_1.clone().mul(
            ci_next.clone().sub(opcode_hash.clone()),
        ).mul(ci_next.clone().sub(opcode_absorb.clone())).mul(sp_accum_next);
        let rate_diffs = compressed_diff_circuit(0, RATE);
        let sp_accum_diff = sp_next.clone().sub(
            ConstraintCircuit::challenge(HashTableChallengeId::SpongeEvalIndeterminate).mul(
                sp.clone(),
            ),
        ).sub(
            ConstraintCircuit::challenge(HashTableChallengeId::CIWeight).mul(ci_next.clone()),
        ).sub(rate_diffs);
        let clause2 = rn_next_is_not_1.mul(ci_next.clone().sub(opcode_hash)).mul(
            ci_next.clone().sub(opcode_absorb_init.clone()),
        ).mul(ci_next.clone().sub(opcode_squeeze.clone())).mul(sp_accum_diff);
        let sp_remains = sp_next.sub(sp);
        let clause3 = rn_next.sub(one).mul(sp_remains.clone());
        let clause4 = ci_next.clone().sub(opcode_absorb_init).mul(
            ci_next.clone().sub(opcode_absorb),
        ).mul(ci_next.sub(opcode_squeeze)).mul(sp_remains);
        let k25 = clause1.add(clause2).add(clause3).add(clause4);
        res.push(k25);

        res
    }
}

} // verus!
