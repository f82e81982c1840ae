//! The hash table's AIR: the initial, consistency, and terminal constraint
//! circuits, together with spec-level formulas that pin down the value of
//! every circuit on every pair of rows.

use vstd::prelude::*;

use crate::challenges::challenge_value;
use crate::challenges::HashTableChallengeId;
use crate::challenges::HashTableChallenges;
use crate::circuit::at;
use crate::circuit::eval;
use crate::circuit::single_row_only;
use crate::circuit::wf_values;
use crate::circuit::ConstraintCircuit;
use crate::circuit::InputIndicator;
use crate::field::b_one;
use crate::field::b_zero;
use crate::field::x_add;
use crate::field::x_from_b;
use crate::field::x_mul;
use crate::field::x_one;
use crate::field::x_sub;
use crate::field::Bfe;
use crate::field::P;
use crate::field::Xfe;
use crate::hash_table::COL_CI;
use crate::hash_table::COL_CONSTANT0A;
use crate::hash_table::COL_ROUND_NUMBER;
use crate::hash_table::COL_STATE0;
use crate::hash_table::EXT_COL_HASH_DIGEST;
use crate::hash_table::EXT_COL_HASH_INPUT;
use crate::hash_table::EXT_COL_SPONGE;
use crate::hash_table::NUM_ROUNDS;
use crate::hash_table::NUM_ROUND_CONSTANTS;
use crate::hash_table::RATE;
use crate::opcodes::OPCODE_ABSORB;
use crate::opcodes::OPCODE_ABSORB_INIT;
use crate::opcodes::OPCODE_HASH;
use crate::opcodes::OPCODE_SQUEEZE;
use crate::rescue::RescueParameters;

verus! {

/// The extension part of the hash table: the four families of constraint
/// circuits.
#[derive(Debug, Clone)]
pub struct ExtHashTable {}

/// The `hash` opcode lifted into the extension field.
pub open spec fn op_hash_x() -> Xfe {
    x_from_b(Bfe { v: OPCODE_HASH })
}

/// The `absorb_init` opcode lifted into the extension field.
pub open spec fn op_absorb_init_x() -> Xfe {
    x_from_b(Bfe { v: OPCODE_ABSORB_INIT })
}

/// The `absorb` opcode lifted into the extension field.
pub open spec fn op_absorb_x() -> Xfe {
    x_from_b(Bfe { v: OPCODE_ABSORB })
}

/// The `squeeze` opcode lifted into the extension field.
pub open spec fn op_squeeze_x() -> Xfe {
    x_from_b(Bfe { v: OPCODE_SQUEEZE })
}

/// The challenge identifier of the weight of state column `i`.
pub open spec fn weight_id(i: int) -> HashTableChallengeId {
    if i == 0 {
        HashTableChallengeId::HashStateWeight0
    } else if i == 1 {
        HashTableChallengeId::HashStateWeight1
    } else if i == 2 {
        HashTableChallengeId::HashStateWeight2
    } else if i == 3 {
        HashTableChallengeId::HashStateWeight3
    } else if i == 4 {
        HashTableChallengeId::HashStateWeight4
    } else if i == 5 {
        HashTableChallengeId::HashStateWeight5
    } else if i == 6 {
        HashTableChallengeId::HashStateWeight6
    } else if i == 7 {
        HashTableChallengeId::HashStateWeight7
    } else if i == 8 {
        HashTableChallengeId::HashStateWeight8
    } else if i == 9 {
        HashTableChallengeId::HashStateWeight9
    } else if i == 10 {
        HashTableChallengeId::HashStateWeight10
    } else if i == 11 {
        HashTableChallengeId::HashStateWeight11
    } else if i == 12 {
        HashTableChallengeId::HashStateWeight12
    } else if i == 13 {
        HashTableChallengeId::HashStateWeight13
    } else if i == 14 {
        HashTableChallengeId::HashStateWeight14
    } else {
        HashTableChallengeId::HashStateWeight15
    }
}

/// The challenge identifier of the weight of state column `i`.
pub fn weight_id_of(i: usize) -> (r: HashTableChallengeId)
    requires
        i < 16,
    ensures
        r == weight_id(i as int),
{
    match i {
        0 => HashTableChallengeId::HashStateWeight0,
        1 => HashTableChallengeId::HashStateWeight1,
        2 => HashTableChallengeId::HashStateWeight2,
        3 => HashTableChallengeId::HashStateWeight3,
        4 => HashTableChallengeId::HashStateWeight4,
        5 => HashTableChallengeId::HashStateWeight5,
        6 => HashTableChallengeId::HashStateWeight6,
        7 => HashTableChallengeId::HashStateWeight7,
        8 => HashTableChallengeId::HashStateWeight8,
        9 => HashTableChallengeId::HashStateWeight9,
        10 => HashTableChallengeId::HashStateWeight10,
        11 => HashTableChallengeId::HashStateWeight11,
        12 => HashTableChallengeId::HashStateWeight12,
        13 => HashTableChallengeId::HashStateWeight13,
        14 => HashTableChallengeId::HashStateWeight14,
        _ => HashTableChallengeId::HashStateWeight15,
    }
}

/// `Σ_{i<n} weight_i · row[STATE_i]`: the weighted prefix sum of a row's
/// state columns.
pub open spec fn compressed_states_value(row: Seq<Xfe>, ch: HashTableChallenges, n: int) -> Xfe
    decreases n,
{
    if n <= 0 {
        x_from_b(b_zero())
    } else {
        x_add(
            compressed_states_value(row, ch, n - 1),
            x_mul(challenge_value(ch, weight_id(n - 1)), at(row, COL_STATE0 + n - 1)),
        )
    }
}

/// `Σ_{j<n} weight_{lo+j} · (next[STATE_{lo+j}] − cur[STATE_{lo+j}])`: the
/// weighted sum of state differences across a row pair, starting at state
/// column `lo`.
pub open spec fn compressed_state_diffs_value(
    cur: Seq<Xfe>,
    next: Seq<Xfe>,
    ch: HashTableChallenges,
    lo: int,
    n: int,
) -> Xfe
    decreases n,
{
    if n <= 0 {
        x_from_b(b_zero())
    } else {
        x_add(
            compressed_state_diffs_value(cur, next, ch, lo, n - 1),
            x_mul(
                challenge_value(ch, weight_id(lo + n - 1)),
                x_sub(at(next, COL_STATE0 + lo + n - 1), at(cur, COL_STATE0 + lo + n - 1)),
            ),
        )
    }
}

/// The product `∏_{j < jj, j ≠ k} (r − j)`.
pub open spec fn deselector_partial(r: Xfe, k: int, jj: int) -> Xfe
    decreases jj,
{
    if jj <= 0 {
        x_from_b(b_one())
    } else if jj - 1 == k {
        deselector_partial(r, k, jj - 1)
    } else {
        x_mul(
            deselector_partial(r, k, jj - 1),
            x_sub(r, x_from_b(Bfe { v: (jj - 1) as u64 })),
        )
    }
}

/// The round-number deselector: `∏_{j ∈ {0,…,9}, j ≠ k} (r − j)`, which
/// vanishes on every legal round number except `k`.
pub open spec fn deselector_value(r: Xfe, k: int) -> Xfe {
    deselector_partial(r, k, NUM_ROUNDS + 2)
}

/// The value of initial constraint `k` on row 0.
pub open spec fn initial_constraint_value(
    k: int,
    base: Seq<Xfe>,
    ext: Seq<Xfe>,
    ch: HashTableChallenges,
) -> Xfe {
    let rn = at(base, COL_ROUND_NUMBER as int);
    let ci = at(base, COL_CI as int);
    let hi = at(ext, EXT_COL_HASH_INPUT as int);
    let hd = at(ext, EXT_COL_HASH_DIGEST as int);
    let sp = at(ext, EXT_COL_SPONGE as int);
    let ci_is_hash = x_sub(ci, op_hash_x());
    let ci_is_absorb_init = x_sub(ci, op_absorb_init_x());
    let compressed = compressed_states_value(base, ch, RATE as int);
    if k == 0 {
        x_mul(rn, x_sub(rn, x_one()))
    } else if k == 1 {
        x_mul(ci_is_absorb_init, ci_is_hash)
    } else if k == 2 {
        let hi_default = x_sub(hi, x_one());
        let hi_first = x_sub(
            x_sub(hi, x_mul(x_one(), ch.hash_input_eval_indeterminate)),
            compressed,
        );
        x_add(
            x_add(
                x_mul(x_mul(rn, ci_is_absorb_init), hi_first),
                x_mul(ci_is_hash, hi_default),
            ),
            x_mul(x_sub(x_one(), rn), hi_default),
        )
    } else if k == 3 {
        x_sub(hd, x_one())
    } else {
        let sp_default = x_sub(sp, x_one());
        let sp_first = x_sub(
            x_sub(
                x_sub(sp, x_mul(x_one(), ch.sponge_eval_indeterminate)),
                x_mul(ch.ci_weight, op_absorb_init_x()),
            ),
            compressed,
        );
        x_add(x_mul(ci_is_hash, sp_first), x_mul(ci_is_absorb_init, sp_default))
    }
}

/// `Σ_{r=1..i} deselector(rn, r) · (row[constant col] − constants[32(r−1)+col])`:
/// the running sum that pins round-constant column `col` on rows of round `r`.
pub open spec fn round_constant_sum(
    col: int,
    rc: Seq<Bfe>,
    base: Seq<Xfe>,
    ch: HashTableChallenges,
    i: int,
) -> Xfe
    decreases i,
{
    if i <= 0 {
        x_from_b(b_zero())
    } else {
        x_add(
            round_constant_sum(col, rc, base, ch, i - 1),
            x_mul(
                deselector_value(at(base, COL_ROUND_NUMBER as int), i),
                x_sub(at(base, COL_CONSTANT0A + col), x_from_b(rc[NUM_ROUND_CONSTANTS * (i - 1) + col])),
            ),
        )
    }
}

/// The value of consistency constraint `k` on any one row.
pub open spec fn consistency_constraint_value(
    k: int,
    base: Seq<Xfe>,
    ext: Seq<Xfe>,
    ch: HashTableChallenges,
    rc: Seq<Bfe>,
) -> Xfe {
    let rn = at(base, COL_ROUND_NUMBER as int);
    let ci = at(base, COL_CI as int);
    let ci_is_hash = x_sub(ci, op_hash_x());
    let ci_is_absorb_init = x_sub(ci, op_absorb_init_x());
    let ci_is_absorb = x_sub(ci, op_absorb_x());
    let ci_is_squeeze = x_sub(ci, op_squeeze_x());
    let d1 = deselector_value(rn, 1);
    if k == 0 {
        x_mul(
            x_mul(x_mul(x_mul(rn, ci_is_hash), ci_is_absorb_init), ci_is_absorb),
            ci_is_squeeze,
        )
    } else if k == 1 {
        x_mul(
            x_mul(x_mul(x_mul(d1, ci_is_hash), ci_is_absorb), ci_is_squeeze),
            x_sub(at(base, COL_STATE0 + 10), x_from_b(Bfe { v: 1 })),
        )
    } else if k == 2 {
        x_mul(
            x_mul(x_mul(x_mul(d1, ci_is_absorb_init), ci_is_absorb), ci_is_squeeze),
            at(base, COL_STATE0 + 10),
        )
    } else if 3 <= k < 8 {
        x_mul(
            x_mul(x_mul(d1, ci_is_absorb), ci_is_squeeze),
            at(base, COL_STATE0 + 8 + k),
        )
    } else {
        round_constant_sum(k - 8, rc, base, ch, NUM_ROUNDS as int)
    }
}

/// The constraints are single-row circuits with canonical constants, and each
/// evaluates to `initial_constraint_value` of its index on every input.
pub open spec fn initial_circuits_ok(cs: Seq<ConstraintCircuit>) -> bool {
    &&& cs.len() == 5
    &&& forall|k: int|
        0 <= k < cs.len() ==> single_row_only(#[trigger] cs[k]) && wf_values(cs[k])
    &&& forall|
        k: int,
        base: Seq<Xfe>,
        ext: Seq<Xfe>,
        nb: Seq<Xfe>,
        ne: Seq<Xfe>,
        ch: HashTableChallenges,
    |
        0 <= k < cs.len() ==> #[trigger] eval(cs[k], base, ext, nb, ne, ch)
            == initial_constraint_value(k, base, ext, ch)
}

/// The constraints are single-row circuits with canonical constants, and each
/// evaluates to `consistency_constraint_value` of its index on every input.
pub open spec fn consistency_circuits_ok(cs: Seq<ConstraintCircuit>, rc: Seq<Bfe>) -> bool {
    &&& cs.len() == 8 + NUM_ROUND_CONSTANTS
    &&& forall|k: int|
        0 <= k < cs.len() ==> single_row_only(#[trigger] cs[k]) && wf_values(cs[k])
    &&& forall|
        k: int,
        base: Seq<Xfe>,
        ext: Seq<Xfe>,
        nb: Seq<Xfe>,
        ne: Seq<Xfe>,
        ch: HashTableChallenges,
    |
        0 <= k < cs.len() ==> #[trigger] eval(cs[k], base, ext, nb, ne, ch)
            == consistency_constraint_value(k, base, ext, ch, rc)
}

/// The hash table has no terminal constraints.
pub open spec fn terminal_circuits_ok(cs: Seq<ConstraintCircuit>) -> bool {
    cs.len() == 0
}

/// The round-number deselector as a circuit: the product of `(r − j)` over
/// all legal round numbers `j` except the one to deselect.
pub fn round_number_deselector(
    round_number_circuit_node: &ConstraintCircuit,
    round_number_to_deselect: usize,
) -> (res: ConstraintCircuit)
    ensures
        forall|
            base: Seq<Xfe>,
            ext: Seq<Xfe>,
            nb: Seq<Xfe>,
            ne: Seq<Xfe>,
            ch: HashTableChallenges,
        |
            #[trigger] eval(res, base, ext, nb, ne, ch) == deselector_value(
                eval(*round_number_circuit_node, base, ext, nb, ne, ch),
                round_number_to_deselect as int,
            ),
        single_row_only(*round_number_circuit_node) ==> single_row_only(res),
        wf_values(*round_number_circuit_node) ==> wf_values(res),
{
    let ghost node = *round_number_circuit_node;
    let mut acc = ConstraintCircuit::b_constant(Bfe::new(1));
    proof {
        vstd::arithmetic::div_mod::lemma_small_mod(1nat, P as nat);
    }
    let mut j: u64 = 0;
    while j < NUM_ROUNDS + 2
        invariant
            j <= NUM_ROUNDS + 2,
            node == *round_number_circuit_node,
            forall|
                base: Seq<Xfe>,
                ext: Seq<Xfe>,
                nb: Seq<Xfe>,
                ne: Seq<Xfe>,
                ch: HashTableChallenges,
            |
                #[trigger] eval(acc, base, ext, nb, ne, ch) == deselector_partial(
                    eval(node, base, ext, nb, ne, ch),
                    round_number_to_deselect as int,
                    j as int,
                ),
            single_row_only(node) ==> single_row_only(acc),
            wf_values(node) ==> wf_values(acc),
        decreases NUM_ROUNDS + 2 - j,
    {
        if (j as usize) != round_number_to_deselect {
            proof {
                vstd::arithmetic::div_mod::lemma_small_mod(j as nat, P as nat);
            }
            let factor = round_number_circuit_node.clone().sub(
                ConstraintCircuit::b_constant(Bfe::new(j)),
            );
            acc = acc.mul(factor);
        }
        j = j + 1;
    }
    acc
}

impl ExtHashTable {
    /// The constraints on row 0 of the hash table: the round number is 0 or
    /// 1, the instruction is `hash` or `absorb_init`, and the three running
    /// evaluations are initialized correctly.
    #[verifier::rlimit(100)]
    pub fn ext_initial_constraints_as_circuits() -> (res: Vec<ConstraintCircuit>)
        ensures
            initial_circuits_ok(res@),
    {
        let ops = crate::opcodes::instruction_opcodes();
        proof {
            vstd::arithmetic::div_mod::lemma_small_mod(1nat, P as nat);
            vstd::arithmetic::div_mod::lemma_small_mod(OPCODE_HASH as nat, P as nat);
            vstd::arithmetic::div_mod::lemma_small_mod(OPCODE_ABSORB_INIT as nat, P as nat);
        }
        let one = ConstraintCircuit::b_constant(Bfe::new(1));
        let init = ConstraintCircuit::x_constant(Xfe::one());
        let rn = ConstraintCircuit::input(InputIndicator::BaseRow(COL_ROUND_NUMBER));
        let ci = ConstraintCircuit::input(InputIndicator::BaseRow(COL_CI));
        let hi = ConstraintCircuit::input(InputIndicator::ExtRow(EXT_COL_HASH_INPUT));
        let hd = ConstraintCircuit::input(InputIndicator::ExtRow(EXT_COL_HASH_DIGEST));
        let sp = ConstraintCircuit::input(InputIndicator::ExtRow(EXT_COL_SPONGE));
        let ci_is_hash = ci.clone().sub(ConstraintCircuit::b_constant(Bfe::new(ops.0)));
        let ci_is_absorb_init = ci.sub(ConstraintCircuit::b_constant(Bfe::new(ops.1)));
        let compressed = Self::compressed_base_row_circuit();
        let k0 = rn.clone().mul(rn.clone().sub(one.clone()));
        let k1 = ci_is_absorb_init.clone().mul(ci_is_hash.clone());
        let hi_default = hi.clone().sub(init.clone());
        let hi_first = hi.sub(
            init.clone().mul(
                ConstraintCircuit::challenge(HashTableChallengeId::HashInputEvalIndeterminate),
            ),
        ).sub(compressed.clone());
        let k2 = rn.clone().mul(ci_is_absorb_init.clone()).mul(hi_first).add(
            ci_is_hash.clone().mul(hi_default.clone()),
        ).add(one.sub(rn).mul(hi_default));
        let k3 = hd.sub(init.clone());
        let sp_default = sp.clone().sub(init.clone());
        let sp_first = sp.sub(
            init.mul(ConstraintCircuit::challenge(HashTableChallengeId::SpongeEvalIndeterminate)),
        ).sub(
            ConstraintCircuit::challenge(HashTableChallengeId::CIWeight).mul(
                ConstraintCircuit::b_constant(Bfe::new(ops.1)),
            ),
        ).sub(compressed);
        let k4 = ci_is_hash.mul(sp_first).add(ci_is_absorb_init.mul(sp_default));
        let mut res: Vec<ConstraintCircuit> = Vec::new();
        res.push(k0);
        res.push(k1);
        res.push(k2);
        res.push(k3);
        res.push(k4);
        res
    }

    /// The circuit `Σ_{i<RATE} weight_i · state_i` over the single-row base
    /// row.
    fn compressed_base_row_circuit() -> (res: ConstraintCircuit)
        ensures
            forall|
                base: Seq<Xfe>,
                ext: Seq<Xfe>,
                nb: Seq<Xfe>,
                ne: Seq<Xfe>,
                ch: HashTableChallenges,
            |
                #[trigger] eval(res, base, ext, nb, ne, ch) == compressed_states_value(
                    base,
                    ch,
                    RATE as int,
                ),
            single_row_only(res),
            wf_values(res),
    {
        let mut acc = ConstraintCircuit::b_constant(Bfe::new(0));
        proof {
            vstd::arithmetic::div_mod::lemma_small_mod(0nat, P as nat);
        }
        let mut i: usize = 0;
        while i < RATE
            invariant
                i <= RATE,
                forall|
                    base: Seq<Xfe>,
                    ext: Seq<Xfe>,
                    nb: Seq<Xfe>,
                    ne: Seq<Xfe>,
                    ch: HashTableChallenges,
                |
                    #[trigger] eval(acc, base, ext, nb, ne, ch) == compressed_states_value(
                        base,
                        ch,
                        i as int,
                    ),
                single_row_only(acc),
                wf_values(acc),
            decreases RATE - i,
        {
            let term = ConstraintCircuit::challenge(weight_id_of(i)).mul(
                ConstraintCircuit::input(InputIndicator::BaseRow(COL_STATE0 + i)),
            );
            acc = acc.add(term);
            i = i + 1;
        }
        acc
    }

    /// The constraints on every row of the hash table: legal instructions on
    /// non-padding rows, domain separation of the capacity on first rounds,
    /// and the injection of the public round constants.
    #[verifier::rlimit(100)]
    pub fn ext_consistency_constraints_as_circuits(params: &RescueParameters) -> (res: Vec<
        ConstraintCircuit,
    >)
        requires
            params.wf(),
        ensures
            consistency_circuits_ok(res@, params.round_constants@),
    {
        let ops = crate::opcodes::instruction_opcodes();
        proof {
            vstd::arithmetic::div_mod::lemma_small_mod(1nat, P as nat);
            vstd::arithmetic::div_mod::lemma_small_mod(OPCODE_HASH as nat, P as nat);
            vstd::arithmetic::div_mod::lemma_small_mod(OPCODE_ABSORB_INIT as nat, P as nat);
            vstd::arithmetic::div_mod::lemma_small_mod(OPCODE_ABSORB as nat, P as nat);
            vstd::arithmetic::div_mod::lemma_small_mod(OPCODE_SQUEEZE as nat, P as nat);
        }
        let rn = ConstraintCircuit::input(InputIndicator::BaseRow(COL_ROUND_NUMBER));
        let ci = ConstraintCircuit::input(InputIndicator::BaseRow(COL_CI));
        let st10 = ConstraintCircuit::input(InputIndicator::BaseRow(COL_STATE0 + 10));
        let st11 = ConstraintCircuit::input(InputIndicator::BaseRow(COL_STATE0 + 11));
        let st12 = ConstraintCircuit::input(InputIndicator::BaseRow(COL_STATE0 + 12));
        let st13 = ConstraintCircuit::input(InputIndicator::BaseRow(COL_STATE0 + 13));
        let st14 = ConstraintCircuit::input(InputIndicator::BaseRow(COL_STATE0 + 14));
        let st15 = ConstraintCircuit::input(InputIndicator::BaseRow(COL_STATE0 + 15));
        let ci_is_hash = ci.clone().sub(ConstraintCircuit::b_constant(Bfe::new(ops.0)));
        let ci_is_absorb_init = ci.clone().sub(ConstraintCircuit::b_constant(Bfe::new(ops.1)));
        let ci_is_absorb = ci.clone().sub(ConstraintCircuit::b_constant(Bfe::new(ops.2)));
        let ci_is_squeeze = ci.sub(ConstraintCircuit::b_constant(Bfe::new(ops.3)));
        let d1 = round_number_deselector(&rn, 1);
        let k0 = rn.clone().mul(ci_is_hash.clone()).mul(ci_is_absorb_init.clone()).mul(
            ci_is_absorb.clone(),
        ).mul(ci_is_squeeze.clone());
        let k1 = d1.clone().mul(ci_is_hash).mul(ci_is_absorb.clone()).mul(
            ci_is_squeeze.clone(),
        ).mul(st10.clone().sub(ConstraintCircuit::b_constant(Bfe::new(1))));
        let k2 = d1.clone().mul(ci_is_absorb_init).mul(ci_is_absorb.clone()).mul(
            ci_is_squeeze.clone(),
        ).mul(st10);
        let k3 = d1.clone().mul(ci_is_absorb.clone()).mul(ci_is_squeeze.clone()).mul(st11);
        let k4 = d1.clone().mul(ci_is_absorb.clone()).mul(ci_is_squeeze.clone()).mul(st12);
        let k5 = d1.clone().mul(ci_is_absorb.clone()).mul(ci_is_squeeze.clone()).mul(st13);
        let k6 = d1.clone().mul(ci_is_absorb.clone()).mul(ci_is_squeeze.clone()).mul(st14);
        let k7 = d1.mul(ci_is_absorb).mul(ci_is_squeeze).mul(st15);
        let mut res: Vec<ConstraintCircuit> = Vec::new();
        res.push(k0);
        res.push(k1);
        res.push(k2);
        res.push(k3);
        res.push(k4);
        res.push(k5);
        res.push(k6);
        res.push(k7);
        let ghost rc = params.round_constants@;
        let mut col: usize = 0;
        while col < NUM_ROUND_CONSTANTS
            invariant
                col <= NUM_ROUND_CONSTANTS,
                params.wf(),
                rc == params.round_constants@,
                res@.len() == 8 + col,
                forall|k: int|
                    0 <= k < res@.len() ==> single_row_only(#[trigger] res@[k]) && wf_values(
                        res@[k],
                    ),
                forall|
                    k: int,
                    base: Seq<Xfe>,
                    ext: Seq<Xfe>,
                    nb: Seq<Xfe>,
                    ne: Seq<Xfe>,
                    ch: HashTableChallenges,
                |
                    0 <= k < res@.len() ==> #[trigger] eval(res@[k], base, ext, nb, ne, ch)
                        == consistency_constraint_value(k, base, ext, ch, rc),
            decreases NUM_ROUND_CONSTANTS - col,
        {
            let constraint = Self::round_constant_circuit(params, col);
            res.push(constraint);
            col = col + 1;
        }
        res
    }

    /// The circuit that pins round-constant column `col`: the sum over all
    /// rounds `r` of the round-`r` deselector times the difference between
    /// the column and the public constant of round `r`.
    fn round_constant_circuit(params: &RescueParameters, col: usize) -> (res: ConstraintCircuit)
        requires
            params.wf(),
            col < NUM_ROUND_CONSTANTS,
        ensures
            forall|
                base: Seq<Xfe>,
                ext: Seq<Xfe>,
                nb: Seq<Xfe>,
                ne: Seq<Xfe>,
                ch: HashTableChallenges,
            |
                #[trigger] eval(res, base, ext, nb, ne, ch) == round_constant_sum(
                    col as int,
                    params.round_constants@,
                    base,
                    ch,
                    NUM_ROUNDS as int,
                ),
            single_row_only(res),
            wf_values(res),
    {
        let rn = ConstraintCircuit::input(InputIndicator::BaseRow(COL_ROUND_NUMBER));
        let column_input = ConstraintCircuit::input(
            InputIndicator::BaseRow(COL_CONSTANT0A + col),
        );
        let mut acc = ConstraintCircuit::b_constant(Bfe::new(0));
        proof {
            vstd::arithmetic::div_mod::lemma_small_mod(0nat, P as nat);
        }
        let mut i: usize = 1;
        while i <= NUM_ROUNDS as usize
            invariant
                1 <= i <= NUM_ROUNDS + 1,
                params.wf(),
                col < NUM_ROUND_CONSTANTS,
                forall|
                    base: Seq<Xfe>,
                    ext: Seq<Xfe>,
                    nb: Seq<Xfe>,
                    ne: Seq<Xfe>,
                    ch: HashTableChallenges,
                |
                    #[trigger] eval(rn, base, ext, nb, ne, ch) == at(
                        base,
                        COL_ROUND_NUMBER as int,
                    ),
                single_row_only(rn),
                wf_values(rn),
                forall|
                    base: Seq<Xfe>,
                    ext: Seq<Xfe>,
                    nb: Seq<Xfe>,
                    ne: Seq<Xfe>,
                    ch: HashTableChallenges,
                |
                    #[trigger] eval(column_input, base, ext, nb, ne, ch) == at(
                        base,
                        COL_CONSTANT0A + col,
                    ),
                single_row_only(column_input),
                wf_values(column_input),
                forall|
                    base: Seq<Xfe>,
                    ext: Seq<Xfe>,
                    nb: Seq<Xfe>,
                    ne: Seq<Xfe>,
                    ch: HashTableChallenges,
                |
                    #[trigger] eval(acc, base, ext, nb, ne, ch) == round_constant_sum(
                        col as int,
                        params.round_constants@,
                        base,
                        ch,
                        i - 1,
                    ),
                single_row_only(acc),
                wf_values(acc),
            decreases NUM_ROUNDS as usize + 1 - i,
        {
            let round_constant_idx = NUM_ROUND_CONSTANTS * (i - 1) + col;
            let rc = params.round_constants[round_constant_idx];
            let deselector = round_number_deselector(&rn, i);
            let term = deselector.mul(
                column_input.clone().sub(ConstraintCircuit::b_constant(rc)),
            );
            acc = acc.add(term);
            i = i + 1;
        }
        acc
    }

    /// The hash table has no terminal constraints.
    pub fn ext_terminal_constraints_as_circuits() -> (res: Vec<ConstraintCircuit>)
        ensures
            terminal_circuits_ok(res@),
    {
        Vec::new()
    }
}

} // verus!
