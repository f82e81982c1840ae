//! The hash table's base trace: column layout, trace filler, padding, and the
//! extension filler that accumulates the three running evaluations.

use vstd::prelude::*;

use crate::challenges::HashTableChallenges;
use crate::field::b_sub;
use crate::field::b_zero;
use crate::field::x_add;
use crate::field::x_from_b;
use crate::field::x_mul;
use crate::field::x_one;
use crate::field::x_zero;
use crate::field::Bfe;
use crate::field::Xfe;
use crate::opcodes::instruction_opcodes;
use crate::opcodes::OPCODE_ABSORB;
use crate::opcodes::OPCODE_ABSORB_INIT;
use crate::opcodes::OPCODE_HASH;
use crate::opcodes::OPCODE_SQUEEZE;
use crate::BASE_WIDTH;
use crate::EXT_WIDTH;

verus! {

/// Column of the round number, `0` on padding rows, `1` through `9` on rows
/// of a permutation.
pub const COL_ROUND_NUMBER: usize = 0;

/// Column of the current instruction.
pub const COL_CI: usize = 1;

/// First of the sixteen state columns.
pub const COL_STATE0: usize = 2;

/// First of the thirty-two round-constant columns; the sixteen first-half
/// constants come first, then the sixteen second-half constants.
pub const COL_CONSTANT0A: usize = 18;

/// The number of state lanes of the permutation.
pub const STATE_SIZE: usize = 16;

/// The number of exposed (rate) lanes.
pub const RATE: usize = 10;

/// The number of digest lanes.
pub const DIGEST_LENGTH: usize = 5;

/// The number of state transitions of one permutation. Rows of a permutation
/// carry round numbers `1` through `NUM_ROUNDS + 1`.
pub const NUM_ROUNDS: u64 = 8;

/// Round constants consumed by one state transition: two per state lane.
pub const NUM_ROUND_CONSTANTS: usize = 32;

/// Round constants of the whole permutation.
pub const TOTAL_NUM_CONSTANTS: usize = 256;

/// Extension column of the hash-input running evaluation.
pub const EXT_COL_HASH_INPUT: usize = 0;

/// Extension column of the hash-digest running evaluation.
pub const EXT_COL_HASH_DIGEST: usize = 1;

/// Extension column of the sponge running evaluation.
pub const EXT_COL_SPONGE: usize = 2;

/// The base part of the hash table.
#[derive(Debug, Clone)]
pub struct HashTable {}

/// The part of the virtual machine's execution record that feeds the hash
/// table: one sub-trace of sponge-instruction rows, one of `hash` rows, both
/// already in the hash table's column order.
#[derive(Debug, Clone)]
pub struct AlgebraicExecutionTrace {
    pub sponge_trace: Vec<Vec<Bfe>>,
    pub hash_trace: Vec<Vec<Bfe>>,
}

/// The sequence of row views of a matrix of base-field elements.
pub open spec fn tv(t: Seq<Vec<Bfe>>) -> Seq<Seq<Bfe>> {
    Seq::new(t.len(), |i: int| t[i]@)
}

/// Every cell of the row is a canonical field element.
pub open spec fn b_row_wf(row: Seq<Bfe>) -> bool {
    forall|i: int| 0 <= i < row.len() ==> (#[trigger] row[i]).wf()
}

/// Every row has the base width and canonical cells.
pub open spec fn base_matrix_wf(t: Seq<Seq<Bfe>>) -> bool {
    forall|i: int|
        0 <= i < t.len() ==> (#[trigger] t[i]).len() == BASE_WIDTH && b_row_wf(t[i])
}

/// The `hash` opcode as a base-field element.
pub open spec fn hash_opcode_b() -> Bfe {
    Bfe { v: OPCODE_HASH }
}

/// The rate registers of a row: the first ten state columns.
pub open spec fn row_rate(row: Seq<Bfe>) -> Seq<Bfe> {
    row.subrange(COL_STATE0 as int, COL_STATE0 + RATE)
}

/// The all-zeros rate, standing in for the row before the first.
pub open spec fn zero_rate() -> Seq<Bfe> {
    Seq::new(RATE as nat, |i: int| b_zero())
}

/// The rate of the row preceding row `i`.
pub open spec fn previous_rate(t: Seq<Seq<Bfe>>, i: int) -> Seq<Bfe> {
    if i == 0 {
        zero_rate()
    } else {
        row_rate(t[i - 1])
    }
}

/// The ten state weights of the challenge bundle, in column order.
pub open spec fn state_weights10(ch: HashTableChallenges) -> Seq<Xfe> {
    seq![
        ch.hash_state_weight0,
        ch.hash_state_weight1,
        ch.hash_state_weight2,
        ch.hash_state_weight3,
        ch.hash_state_weight4,
        ch.hash_state_weight5,
        ch.hash_state_weight6,
        ch.hash_state_weight7,
        ch.hash_state_weight8,
        ch.hash_state_weight9,
    ]
}

/// The weighted sum of the first `n` elements: `Σ_{i<n} weights[i] ·
/// elements[i]`.
pub open spec fn compressed_elements(weights: Seq<Xfe>, elements: Seq<Bfe>, n: int) -> Xfe
    decreases n,
{
    if n <= 0 {
        x_zero()
    } else {
        x_add(
            compressed_elements(weights, elements, n - 1),
            x_mul(weights[n - 1], x_from_b(elements[n - 1])),
        )
    }
}

/// Element-wise difference of two rates.
pub open spec fn rate_difference(cur: Seq<Bfe>, prev: Seq<Bfe>) -> Seq<Bfe> {
    Seq::new(RATE as nat, |i: int| b_sub(cur[i], prev[i]))
}

/// Whether a row contributes to the hash-digest running evaluation: the last
/// round of a `hash` instruction.
pub open spec fn is_digest_row(row: Seq<Bfe>) -> bool {
    row[COL_ROUND_NUMBER as int].v == NUM_ROUNDS + 1 && row[COL_CI as int].v == OPCODE_HASH
}

/// Whether a row is a first-round row (where the remaining running
/// evaluations update).
pub open spec fn is_first_round_row(row: Seq<Bfe>) -> bool {
    row[COL_ROUND_NUMBER as int].v == 1
}

/// The elements a first-round row feeds into the hash-input or sponge
/// running evaluation: for `absorb` the difference to the previous row's
/// rate, otherwise the row's rate.
pub open spec fn absorbed_elements(t: Seq<Seq<Bfe>>, i: int) -> Seq<Bfe> {
    if t[i][COL_CI as int].v == OPCODE_ABSORB {
        rate_difference(row_rate(t[i]), previous_rate(t, i))
    } else {
        row_rate(t[i])
    }
}

/// The running evaluations start from this value.
pub open spec fn eval_arg_default_initial() -> Xfe {
    x_one()
}

/// The hash-digest running evaluation after row `i` has been processed
/// (`i == -1` for the initial value).
pub open spec fn hash_digest_running_eval(
    t: Seq<Seq<Bfe>>,
    ch: HashTableChallenges,
    i: int,
) -> Xfe
    decreases i + 1,
{
    if i < 0 {
        eval_arg_default_initial()
    } else {
        let prev = hash_digest_running_eval(t, ch, i - 1);
        if is_digest_row(t[i]) {
            x_add(
                x_mul(prev, ch.hash_digest_eval_indeterminate),
                compressed_elements(state_weights10(ch), row_rate(t[i]), DIGEST_LENGTH as int),
            )
        } else {
            prev
        }
    }
}

/// The hash-input running evaluation after row `i` has been processed.
pub open spec fn hash_input_running_eval(
    t: Seq<Seq<Bfe>>,
    ch: HashTableChallenges,
    i: int,
) -> Xfe
    decreases i + 1,
{
    if i < 0 {
        eval_arg_default_initial()
    } else {
        let prev = hash_input_running_eval(t, ch, i - 1);
        if is_first_round_row(t[i]) && t[i][COL_CI as int].v == OPCODE_HASH {
            x_add(
                x_mul(prev, ch.hash_input_eval_indeterminate),
                compressed_elements(state_weights10(ch), absorbed_elements(t, i), RATE as int),
            )
        } else {
            prev
        }
    }
}

/// The sponge running evaluation after row `i` has been processed.
pub open spec fn sponge_running_eval(t: Seq<Seq<Bfe>>, ch: HashTableChallenges, i: int) -> Xfe
    decreases i + 1,
{
    if i < 0 {
        eval_arg_default_initial()
    } else {
        let prev = sponge_running_eval(t, ch, i - 1);
        let ci = t[i][COL_CI as int];
        if is_first_round_row(t[i]) && (ci.v == OPCODE_ABSORB_INIT || ci.v == OPCODE_ABSORB
            || ci.v == OPCODE_SQUEEZE) {
            x_add(
                x_add(x_mul(prev, ch.sponge_eval_indeterminate), x_mul(ch.ci_weight, x_from_b(ci))),
                compressed_elements(state_weights10(ch), absorbed_elements(t, i), RATE as int),
            )
        } else {
            prev
        }
    }
}

/// The extension row that the extension filler writes for row `i`.
pub open spec fn extension_row(t: Seq<Seq<Bfe>>, ch: HashTableChallenges, i: int) -> Seq<Xfe> {
    seq![
        hash_input_running_eval(t, ch, i),
        hash_digest_running_eval(t, ch, i),
        sponge_running_eval(t, ch, i),
    ]
}

/// Every first-round row carries one of the four sponge-related opcodes.
pub open spec fn valid_sponge_instructions(t: Seq<Seq<Bfe>>) -> bool {
    forall|i: int|
        0 <= i < t.len() && is_first_round_row(#[trigger] t[i]) ==> {
            let op = t[i][COL_CI as int].v;
            op == OPCODE_HASH || op == OPCODE_ABSORB_INIT || op == OPCODE_ABSORB || op
                == OPCODE_SQUEEZE
        }
}

/// What `fill_trace` does: the sponge sub-trace, then the hash sub-trace,
/// copied row by row into the top of the table; the rest untouched.
pub open spec fn fill_relation(
    t0: Seq<Seq<Bfe>>,
    t1: Seq<Seq<Bfe>>,
    sponge: Seq<Seq<Bfe>>,
    hash: Seq<Seq<Bfe>>,
) -> bool {
    &&& t1.len() == t0.len()
    &&& forall|i: int| 0 <= i < sponge.len() ==> #[trigger] t1[i] == sponge[i]
    &&& forall|i: int|
        sponge.len() <= i < sponge.len() + hash.len() ==> #[trigger] t1[i] == hash[
            i - sponge.len()
        ]
    &&& forall|i: int| sponge.len() + hash.len() <= i < t0.len() ==> #[trigger] t1[i] == t0[i]
}

/// What `pad_trace` does: every row from `h` on has its current-instruction
/// cell set to the `hash` opcode; everything else is untouched.
pub open spec fn pad_relation(t0: Seq<Seq<Bfe>>, t1: Seq<Seq<Bfe>>, h: int) -> bool {
    &&& t1.len() == t0.len()
    &&& forall|i: int| 0 <= i < t0.len() && i < h ==> #[trigger] t1[i] == t0[i]
    &&& forall|i: int|
        h <= i < t0.len() ==> #[trigger] t1[i] == t0[i].update(COL_CI as int, hash_opcode_b())
}

/// Copy the weights out of the challenge bundle.
fn state_weights_vec(challenges: &HashTableChallenges) -> (r: Vec<Xfe>)
    ensures
        r@ == state_weights10(*challenges),
{
    let mut r: Vec<Xfe> = Vec::new();
    r.push(challenges.hash_state_weight0);
    r.push(challenges.hash_state_weight1);
    r.push(challenges.hash_state_weight2);
    r.push(challenges.hash_state_weight3);
    r.push(challenges.hash_state_weight4);
    r.push(challenges.hash_state_weight5);
    r.push(challenges.hash_state_weight6);
    r.push(challenges.hash_state_weight7);
    r.push(challenges.hash_state_weight8);
    r.push(challenges.hash_state_weight9);
    proof {
        assert(r@ =~= state_weights10(*challenges));
    }
    r
}

/// Copy the rate registers out of a row.
fn rate_of(row: &Vec<Bfe>) -> (r: Vec<Bfe>)
    requires
        row@.len() == BASE_WIDTH,
    ensures
        r@ == row_rate(row@),
{
    let mut r: Vec<Bfe> = Vec::new();
    let mut i: usize = 0;
    while i < RATE
        invariant
            i <= RATE,
            row@.len() == BASE_WIDTH,
            r@.len() == i,
            forall|j: int| 0 <= j < i ==> r@[j] == row@[COL_STATE0 + j],
        decreases RATE - i,
    {
        r.push(row[COL_STATE0 + i]);
        i = i + 1;
    }
    proof {
        assert(r@ =~= row_rate(row@));
    }
    r
}

/// Element-wise difference of the current and the previous rate.
fn rate_difference_vec(cur: &Vec<Bfe>, prev: &Vec<Bfe>) -> (r: Vec<Bfe>)
    requires
        cur@.len() == RATE,
        prev@.len() == RATE,
        b_row_wf(prev@),
    ensures
        r@ == rate_difference(cur@, prev@),
{
    let mut r: Vec<Bfe> = Vec::new();
    let mut i: usize = 0;
    while i < RATE
        invariant
            i <= RATE,
            cur@.len() == RATE,
            prev@.len() == RATE,
            b_row_wf(prev@),
            r@.len() == i,
            forall|j: int| 0 <= j < i ==> r@[j] == b_sub(cur@[j], prev@[j]),
        decreases RATE - i,
    {
        r.push(cur[i].sub(prev[i]));
        i = i + 1;
    }
    proof {
        assert(r@ =~= rate_difference(cur@, prev@));
    }
    r
}

/// The weighted sum of the first `n` elements.
fn compressed_row(weights: &Vec<Xfe>, elements: &Vec<Bfe>, n: usize) -> (r: Xfe)
    requires
        n <= weights@.len(),
        n <= elements@.len(),
    ensures
        r == compressed_elements(weights@, elements@, n as int),
{
    let mut acc = Xfe::zero();
    let mut i: usize = 0;
    while i < n
        invariant
            i <= n,
            n <= weights@.len(),
            n <= elements@.len(),
            acc == compressed_elements(weights@, elements@, i as int),
        decreases n - i,
    {
        acc = acc.add(weights[i].mul(Xfe::from_b(elements[i])));
        i = i + 1;
    }
    acc
}

impl HashTable {
    /// Copy the sponge sub-trace, then the hash sub-trace, into the top rows
    /// of the table.
    pub fn fill_trace(hash_table: &mut Vec<Vec<Bfe>>, aet: &AlgebraicExecutionTrace)
        requires
            aet.sponge_trace@.len() + aet.hash_trace@.len() <= old(hash_table)@.len(),
        ensures
            fill_relation(
                tv(old(hash_table)@),
                tv(final(hash_table)@),
                tv(aet.sponge_trace@),
                tv(aet.hash_trace@),
            ),
    {
        let sponge_len = aet.sponge_trace.len();
        let hash_len = aet.hash_trace.len();
        let n = hash_table.len();
        let mut i: usize = 0;
        while i < sponge_len
            invariant
                i <= sponge_len,
                sponge_len == aet.sponge_trace@.len(),
                sponge_len + hash_len <= n,
                n == hash_table@.len(),
                hash_len == aet.hash_trace@.len(),
                hash_table@.len() == old(hash_table)@.len(),
                forall|j: int| 0 <= j < i ==> #[trigger] hash_table@[j]@ == aet.sponge_trace@[j]@,
                forall|j: int| i <= j < hash_table@.len() ==> #[trigger] hash_table@[j] == old(
                    hash_table,
                )@[j],
            decreases sponge_len - i,
        {
            let row = aet.sponge_trace[i].clone();
            proof {
                assert(row@ =~= aet.sponge_trace@[i as int]@);
            }
            hash_table[i] = row;
            i = i + 1;
        }
        let mut j: usize = 0;
        while j < hash_len
            invariant
                j <= hash_len,
                sponge_len == aet.sponge_trace@.len(),
                hash_len == aet.hash_trace@.len(),
                sponge_len + hash_len <= n,
                n == hash_table@.len(),
                hash_table@.len() == old(hash_table)@.len(),
                forall|k: int| 0 <= k < sponge_len ==> #[trigger] hash_table@[k]@
                    == aet.sponge_trace@[k]@,
                forall|k: int| sponge_len <= k < sponge_len + j ==> #[trigger] hash_table@[k]@
                    == aet.hash_trace@[k - sponge_len]@,
                forall|k: int| sponge_len + j <= k < hash_table@.len() ==> #[trigger] hash_table@[k]
                    == old(hash_table)@[k],
            decreases hash_len - j,
        {
            let row = aet.hash_trace[j].clone();
            proof {
                assert(row@ =~= aet.hash_trace@[j as int]@);
            }
            hash_table[sponge_len + j] = row;
            j = j + 1;
        }
    }

    /// Mark every row from `hash_table_length` on as padding by setting its
    /// current-instruction column to the `hash` opcode.
    pub fn pad_trace(hash_table: &mut Vec<Vec<Bfe>>, hash_table_length: usize)
        requires
            forall|i: int| 0 <= i < old(hash_table)@.len() ==> (#[trigger] old(
                hash_table,
            )@[i])@.len() == BASE_WIDTH,
        ensures
            pad_relation(tv(old(hash_table)@), tv(final(hash_table)@), hash_table_length as int),
    {
        let ops = instruction_opcodes();
        let n = hash_table.len();
        let mut i: usize = hash_table_length;
        while i < n
            invariant
                hash_table_length <= i,
                i <= n || i == hash_table_length,
                n == hash_table@.len(),
                hash_table@.len() == old(hash_table)@.len(),
                ops.0 == OPCODE_HASH,
                forall|j: int| 0 <= j < old(hash_table)@.len() ==> (#[trigger] old(
                    hash_table,
                )@[j])@.len() == BASE_WIDTH,
                forall|j: int| 0 <= j < hash_table@.len() && j < hash_table_length
                    ==> #[trigger] hash_table@[j] == old(hash_table)@[j],
                forall|j: int| hash_table_length <= j < i && j < hash_table@.len()
                    ==> #[trigger] hash_table@[j]@ == old(hash_table)@[j]@.update(
                    COL_CI as int,
                    hash_opcode_b(),
                ),
                forall|j: int| i <= j < hash_table@.len() ==> #[trigger] hash_table@[j] == old(
                    hash_table,
                )@[j],
            decreases n - i,
        {
            hash_table[i][COL_CI] = Bfe { v: ops.0 };
            i = i + 1;
        }
    }

    /// Walk the base table top to bottom, accumulate the three running
    /// evaluations, and write them into the extension table, one row each.
    pub fn extend(
        base_table: &Vec<Vec<Bfe>>,
        ext_table: &mut Vec<Vec<Xfe>>,
        challenges: &HashTableChallenges,
    )
        requires
            base_matrix_wf(tv(base_table@)),
            valid_sponge_instructions(tv(base_table@)),
            old(ext_table)@.len() == base_table@.len(),
        ensures
            final(ext_table)@.len() == base_table@.len(),
            forall|i: int| 0 <= i < base_table@.len() ==> #[trigger] final(ext_table)@[i]@
                == extension_row(tv(base_table@), *challenges, i),
    {
        let ghost t = tv(base_table@);
        let n = base_table.len();
        let ops = instruction_opcodes();
        let weights = state_weights_vec(challenges);
        let mut hash_input = Xfe::one();
        let mut hash_digest = Xfe::one();
        let mut sponge = Xfe::one();
        let mut previous_rate_vec: Vec<Bfe> = Vec::new();
        let mut k: usize = 0;
        while k < RATE
            invariant
                k <= RATE,
                previous_rate_vec@.len() == k,
                forall|j: int| 0 <= j < k ==> previous_rate_vec@[j] == b_zero(),
            decreases RATE - k,
        {
            previous_rate_vec.push(Bfe { v: 0 });
            k = k + 1;
        }
        proof {
            assert(previous_rate_vec@ =~= zero_rate());
        }
        let mut row_idx: usize = 0;
        while row_idx < n
            invariant
                n == base_table@.len(),
                t == tv(base_table@),
                base_matrix_wf(t),
                valid_sponge_instructions(t),
                weights@ == state_weights10(*challenges),
                ops.0 == OPCODE_HASH,
                ops.1 == OPCODE_ABSORB_INIT,
                ops.2 == OPCODE_ABSORB,
                ops.3 == OPCODE_SQUEEZE,
                row_idx <= n,
                ext_table@.len() == n,
                hash_input == hash_input_running_eval(t, *challenges, row_idx - 1),
                hash_digest == hash_digest_running_eval(t, *challenges, row_idx - 1),
                sponge == sponge_running_eval(t, *challenges, row_idx - 1),
                previous_rate_vec@ == previous_rate(t, row_idx as int),
                forall|i: int| 0 <= i < row_idx ==> #[trigger] ext_table@[i]@ == extension_row(
                    t,
                    *challenges,
                    i,
                ),
            decreases n - row_idx,
        {
            let row = &base_table[row_idx];
            proof {
                assert(t[row_idx as int] == row@);
            }
            let rn = row[COL_ROUND_NUMBER];
            let ci = row[COL_CI];
            let current_rate = rate_of(row);
            if rn.v == NUM_ROUNDS + 1 && ci.v == ops.0 {
                let compressed = compressed_row(&weights, &current_rate, DIGEST_LENGTH);
                hash_digest = hash_digest.mul(challenges.hash_digest_eval_indeterminate).add(
                    compressed,
                );
            }
            if rn.v == 1 {
                let elements: Vec<Bfe> = if ci.v == ops.2 {
                    rate_difference_vec(&current_rate, &previous_rate_vec)
                } else {
                    current_rate.clone()
                };
                proof {
                    assert(elements@ =~= absorbed_elements(t, row_idx as int));
                }
                let compressed = compressed_row(&weights, &elements, RATE);
                if ci.v == ops.0 {
                    hash_input = hash_input.mul(challenges.hash_input_eval_indeterminate).add(
                        compressed,
                    );
                } else {
                    sponge = sponge.mul(challenges.sponge_eval_indeterminate).add(
                        challenges.ci_weight.mul(Xfe::from_b(ci)),
                    ).add(compressed);
                }
            }
            let mut extension_row_vec: Vec<Xfe> = Vec::new();
            extension_row_vec.push(hash_input);
            extension_row_vec.push(hash_digest);
            extension_row_vec.push(sponge);
            proof {
                assert(extension_row_vec@ =~= extension_row(t, *challenges, row_idx as int));
            }
            ext_table[row_idx] = extension_row_vec;
            previous_rate_vec = current_rate;
            row_idx = row_idx + 1;
        }
    }
}

} // verus!
