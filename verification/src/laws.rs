//! The laws of the library: a well-formed, extended trace satisfies every
//! constraint circuit of the hash table's AIR, the trace filler and the
//! extension filler are deterministic, and padding is idempotent.

use vstd::prelude::*;

use crate::air::compressed_state_diffs_value;
use crate::air::compressed_states_value;
use crate::air::deselector_partial;
use crate::air::deselector_value;
use crate::air::consistency_circuits_ok;
use crate::air::consistency_constraint_value;
use crate::air::initial_constraint_value;
use crate::air::initial_circuits_ok;
use crate::air::op_absorb_init_x;
use crate::air::op_absorb_x;
use crate::air::op_hash_x;
use crate::air::op_squeeze_x;
use crate::air::round_constant_sum;
use crate::air::terminal_circuits_ok;
use crate::air::weight_id;
use crate::air_transition::ci_next_is_not_hash_value;
use crate::air_transition::last_round_x;
use crate::air_transition::rescue_backward_value;
use crate::air_transition::rescue_forward_value;
use crate::air_transition::transition_circuits_ok;
use crate::air_transition::transition_constraint_value;
use crate::hash_table::STATE_SIZE;
use crate::challenges::challenge_value;
use crate::challenges::HashTableChallenges;
use crate::circuit::at;
use crate::circuit::eval;
use crate::circuit::ConstraintCircuit;
use crate::field::b_mul;
use crate::field::b_one;
use crate::field::b_sub;
use crate::field::b_zero;
use crate::field::lemma_b_mul_cancel;
use crate::field::lemma_b_sub_eq_zero;
use crate::field::lemma_x_from_b_mul;
use crate::field::lemma_x_from_b_sub;
use crate::field::lemma_x_mul_zero;
use crate::field::lemma_x_sub_self;
use crate::field::x_add;
use crate::field::x_from_b;
use crate::field::x_mul;
use crate::field::x_one;
use crate::field::x_sub;
use crate::field::x_zero;
use crate::field::Bfe;
use crate::field::Xfe;
use crate::field::P;
use crate::hash_table::absorbed_elements;
use crate::hash_table::b_row_wf;
use crate::hash_table::base_matrix_wf;
use crate::hash_table::compressed_elements;
use crate::hash_table::eval_arg_default_initial;
use crate::hash_table::extension_row;
use crate::hash_table::fill_relation;
use crate::hash_table::hash_opcode_b;
use crate::hash_table::hash_digest_running_eval;
use crate::hash_table::hash_input_running_eval;
use crate::hash_table::is_digest_row;
use crate::hash_table::is_first_round_row;
use crate::hash_table::pad_relation;
use crate::hash_table::previous_rate;
use crate::hash_table::rate_difference;
use crate::hash_table::row_rate;
use crate::hash_table::sponge_running_eval;
use crate::hash_table::state_weights10;
use crate::hash_table::COL_CI;
use crate::hash_table::DIGEST_LENGTH;
use crate::hash_table::COL_CONSTANT0A;
use crate::hash_table::COL_ROUND_NUMBER;
use crate::hash_table::COL_STATE0;
use crate::hash_table::NUM_ROUNDS;
use crate::hash_table::NUM_ROUND_CONSTANTS;
use crate::hash_table::RATE;
use crate::opcodes::OPCODE_ABSORB;
use crate::opcodes::OPCODE_ABSORB_INIT;
use crate::opcodes::OPCODE_HASH;
use crate::opcodes::OPCODE_SQUEEZE;
use crate::BASE_WIDTH;

verus! {

broadcast use crate::field::lemma_x_add_wf, crate::field::lemma_x_sub_wf, crate::field::lemma_x_mul_wf;

/// A base row lifted into the extension field, cell by cell.
pub open spec fn lift_row(row: Seq<Bfe>) -> Seq<Xfe> {
    Seq::new(row.len(), |i: int| x_from_b(row[i]))
}

/// Padding a second time with the same length changes nothing: the rows
/// below the length are untouched both times, and setting the
/// current-instruction cell twice equals setting it once.
pub proof fn lemma_pad_trace_idempotent(
    t0: Seq<Seq<Bfe>>,
    t1: Seq<Seq<Bfe>>,
    t2: Seq<Seq<Bfe>>,
    h: int,
)
    requires
        forall|i: int| 0 <= i < t0.len() ==> COL_CI < (#[trigger] t0[i]).len(),
        pad_relation(t0, t1, h),
        pad_relation(t1, t2, h),
    ensures
        t2 == t1,
{
    assert forall|i: int| 0 <= i < t1.len() implies t2[i] == t1[i] by {
        if h <= i {
            assert(t1[i] == t0[i].update(COL_CI as int, hash_opcode_b()));
            assert(t2[i] == t1[i].update(COL_CI as int, hash_opcode_b()));
            assert(t2[i] =~= t1[i]);
        }
    }
    assert(t2 =~= t1);
}

/// The extension filler is deterministic: two extension tables computed from
/// the same base table and the same challenges are equal.
pub proof fn lemma_extension_deterministic(
    t: Seq<Seq<Bfe>>,
    ch: HashTableChallenges,
    e1: Seq<Seq<Xfe>>,
    e2: Seq<Seq<Xfe>>,
)
    requires
        e1.len() == t.len(),
        e2.len() == t.len(),
        forall|i: int| 0 <= i < t.len() ==> #[trigger] e1[i] == extension_row(t, ch, i),
        forall|i: int| 0 <= i < t.len() ==> #[trigger] e2[i] == extension_row(t, ch, i),
    ensures
        e1 == e2,
{
    assert(e1 =~= e2);
}

/// Filling, padding, and then extending a trace is deterministic: two runs on
/// the same table, the same sub-traces, the same real length, and the same
/// challenges give the same padded base tables and the same extension tables.
pub proof fn lemma_fill_pad_extend_deterministic(
    t0: Seq<Seq<Bfe>>,
    ta: Seq<Seq<Bfe>>,
    tb: Seq<Seq<Bfe>>,
    pa: Seq<Seq<Bfe>>,
    pb: Seq<Seq<Bfe>>,
    sponge: Seq<Seq<Bfe>>,
    hash: Seq<Seq<Bfe>>,
    h: int,
    ch: HashTableChallenges,
    ea: Seq<Seq<Xfe>>,
    eb: Seq<Seq<Xfe>>,
)
    requires
        fill_relation(t0, ta, sponge, hash),
        fill_relation(t0, tb, sponge, hash),
        pad_relation(ta, pa, h),
        pad_relation(tb, pb, h),
        ea.len() == pa.len(),
        eb.len() == pb.len(),
        forall|i: int| 0 <= i < pa.len() ==> #[trigger] ea[i] == extension_row(pa, ch, i),
        forall|i: int| 0 <= i < pb.len() ==> #[trigger] eb[i] == extension_row(pb, ch, i),
    ensures
        ta == tb,
        pa == pb,
        ea == eb,
{
    assert(ta =~= tb);
    assert forall|i: int| 0 <= i < pa.len() implies pa[i] == pb[i] by {
        if h <= i {
            assert(pa[i] == ta[i].update(COL_CI as int, hash_opcode_b()));
            assert(pb[i] == tb[i].update(COL_CI as int, hash_opcode_b()));
        }
    }
    assert(pa =~= pb);
    lemma_extension_deterministic(pa, ch, ea, eb);
}

/// A trace whose first-round rows all carry the `hash` instruction leaves the
/// sponge running evaluation at its default initial value on every row.
pub proof fn lemma_sponge_stays_initial(t: Seq<Seq<Bfe>>, ch: HashTableChallenges, i: int)
    requires
        forall|j: int|
            0 <= j < t.len() && is_first_round_row(#[trigger] t[j]) ==> t[j][COL_CI as int].v
                == OPCODE_HASH,
        i < t.len(),
    ensures
        sponge_running_eval(t, ch, i) == eval_arg_default_initial(),
    decreases i + 1,
{
    if i >= 0 {
        lemma_sponge_stays_initial(t, ch, i - 1);
    }
}

/// A trace without first-round `hash` rows leaves the hash-input running
/// evaluation at its default initial value on every row.
pub proof fn lemma_hash_input_stays_initial(t: Seq<Seq<Bfe>>, ch: HashTableChallenges, i: int)
    requires
        forall|j: int|
            0 <= j < t.len() && is_first_round_row(#[trigger] t[j]) ==> t[j][COL_CI as int].v
                != OPCODE_HASH,
        i < t.len(),
    ensures
        hash_input_running_eval(t, ch, i) == eval_arg_default_initial(),
    decreases i + 1,
{
    if i >= 0 {
        lemma_hash_input_stays_initial(t, ch, i - 1);
    }
}

/// The sum of two zeros is zero.
proof fn lemma_x_add_zero()
    ensures
        x_add(x_zero(), x_zero()) == x_zero(),
{
    vstd::arithmetic::div_mod::lemma_small_mod(0nat, P as nat);
}

/// The circuit formulas and the extension filler use the same state weights.
proof fn lemma_weights_agree(ch: HashTableChallenges, i: int)
    requires
        0 <= i < RATE,
    ensures
        challenge_value(ch, weight_id(i)) == state_weights10(ch)[i],
{
}

/// On a lifted row, the circuits' weighted state sum equals the extension
/// filler's compressed row over the rate registers.
proof fn lemma_compressed_match(row: Seq<Bfe>, ch: HashTableChallenges, n: int)
    requires
        row.len() == BASE_WIDTH,
        0 <= n <= RATE,
    ensures
        compressed_states_value(lift_row(row), ch, n) == compressed_elements(
            state_weights10(ch),
            row_rate(row),
            n,
        ),
    decreases n,
{
    if n > 0 {
        lemma_compressed_match(row, ch, n - 1);
        lemma_weights_agree(ch, n - 1);
        assert(at(lift_row(row), COL_STATE0 + n - 1) == x_from_b(row_rate(row)[n - 1]));
    }
}

/// On a lifted row pair, the circuits' weighted state-difference sum equals
/// the extension filler's compressed row over the rate differences.
proof fn lemma_compressed_diffs_match(
    cur: Seq<Bfe>,
    next: Seq<Bfe>,
    ch: HashTableChallenges,
    n: int,
)
    requires
        cur.len() == BASE_WIDTH,
        next.len() == BASE_WIDTH,
        0 <= n <= RATE,
    ensures
        compressed_state_diffs_value(lift_row(cur), lift_row(next), ch, 0, n)
            == compressed_elements(
            state_weights10(ch),
            rate_difference(row_rate(next), row_rate(cur)),
            n,
        ),
    decreases n,
{
    if n > 0 {
        lemma_compressed_diffs_match(cur, next, ch, n - 1);
        lemma_weights_agree(ch, n - 1);
        lemma_x_from_b_sub(next[COL_STATE0 + n - 1], cur[COL_STATE0 + n - 1]);
        assert(rate_difference(row_rate(next), row_rate(cur))[n - 1] == b_sub(
            next[COL_STATE0 + n - 1],
            cur[COL_STATE0 + n - 1],
        ));
    }
}

/// A weighted sum of state differences vanishes when the two rows agree on
/// the involved state columns.
proof fn lemma_diff_sum_zero(
    cur: Seq<Xfe>,
    next: Seq<Xfe>,
    ch: HashTableChallenges,
    lo: int,
    n: int,
)
    requires
        forall|j: int|
            lo <= j < lo + n ==> at(next, COL_STATE0 + j) == at(cur, #[trigger] (COL_STATE0 + j)),
    ensures
        compressed_state_diffs_value(cur, next, ch, lo, n) == x_zero(),
    decreases n,
{
    if n <= 0 {
        vstd::arithmetic::div_mod::lemma_small_mod(0nat, P as nat);
    } else {
        lemma_diff_sum_zero(cur, next, ch, lo, n - 1);
        assert(at(next, COL_STATE0 + lo + n - 1) == at(cur, COL_STATE0 + (lo + n - 1)));
        lemma_x_sub_self(at(cur, COL_STATE0 + lo + n - 1));
        lemma_x_mul_zero(challenge_value(ch, weight_id(lo + n - 1)));
        lemma_x_add_zero();
    }
}

/// The round-number deselector vanishes on every legal round number other
/// than the deselected one: one of its factors is zero.
proof fn lemma_deselector_partial_zero(r: Xfe, k: int, m: int, jj: int)
    requires
        0 <= m,
        m < jj,
        m != k,
        m < P,
        r == x_from_b(Bfe { v: m as u64 }),
    ensures
        deselector_partial(r, k, jj) == x_zero(),
    decreases jj,
{
    if jj - 1 == k {
        lemma_deselector_partial_zero(r, k, m, jj - 1);
    } else if jj - 1 == m {
        lemma_x_sub_self(r);
        lemma_x_mul_zero(deselector_partial(r, k, jj - 1));
    } else {
        lemma_deselector_partial_zero(r, k, m, jj - 1);
        lemma_x_mul_zero(x_sub(r, x_from_b(Bfe { v: (jj - 1) as u64 })));
    }
}

/// The round-number deselector vanishes on every legal round number other
/// than the deselected one.
proof fn lemma_deselector_zero(r: Xfe, k: int, m: int)
    requires
        0 <= m <= NUM_ROUNDS + 1,
        m != k,
        r == x_from_b(Bfe { v: m as u64 }),
    ensures
        deselector_value(r, k) == x_zero(),
{
    lemma_deselector_partial_zero(r, k, m, NUM_ROUNDS + 2);
}

/// What the virtual machine guarantees of every single row of the filled and
/// padded hash table. Padding rows carry the `hash` opcode because the
/// padding filler writes it; the instruction-persistence transition
/// constraint relies on that, though the consistency family leaves the
/// instruction free on padding rows.
pub open spec fn trace_row_ok(row: Seq<Bfe>, rc: Seq<Bfe>) -> bool {
    let rn = row[COL_ROUND_NUMBER as int].v;
    let ci = row[COL_CI as int].v;
    &&& rn <= NUM_ROUNDS + 1
    &&& (rn == 0 ==> ci == OPCODE_HASH)
    &&& (rn >= 1 ==> ci == OPCODE_HASH || ci == OPCODE_ABSORB_INIT || ci == OPCODE_ABSORB || ci
        == OPCODE_SQUEEZE)
    &&& (rn == 1 && ci == OPCODE_ABSORB_INIT ==> row[COL_STATE0 + 10] == Bfe { v: 1 }
        && (forall|c: int|
            COL_STATE0 + 11 <= c < COL_STATE0 + 16 ==> #[trigger] row[c] == Bfe { v: 0 }))
    &&& (rn == 1 && ci == OPCODE_HASH ==> forall|c: int|
        COL_STATE0 + 10 <= c < COL_STATE0 + 16 ==> #[trigger] row[c] == Bfe { v: 0 })
    &&& (1 <= rn <= NUM_ROUNDS ==> forall|c: int|
        COL_CONSTANT0A <= c < COL_CONSTANT0A + NUM_ROUND_CONSTANTS ==> #[trigger] row[c]
            == rc[NUM_ROUND_CONSTANTS * ((rn - 1) as int) + (c - COL_CONSTANT0A)])
}

/// The per-row guarantees, over the whole trace.
pub open spec fn trace_rows_ok(t: Seq<Seq<Bfe>>, rc: Seq<Bfe>) -> bool {
    &&& base_matrix_wf(t)
    &&& forall|i: int| 0 <= i < t.len() ==> trace_row_ok(#[trigger] t[i], rc)
}

/// What the virtual machine guarantees of the first row: the trace starts
/// with a padding row or with the first round of a `hash` or `absorb_init`
/// instruction.
pub open spec fn first_row_ok(t: Seq<Seq<Bfe>>) -> bool {
    &&& t.len() > 0
    &&& (t[0][COL_ROUND_NUMBER as int].v == 0 || t[0][COL_ROUND_NUMBER as int].v == 1)
    &&& (t[0][COL_CI as int].v == OPCODE_HASH || t[0][COL_CI as int].v == OPCODE_ABSORB_INIT)
}

/// On a well-formed row, the sum that pins one round-constant column
/// vanishes: on rounds other than the constraint's the deselector is zero, on
/// the constraint's round the column equals the public constant.
proof fn lemma_round_constant_sum_zero(
    col: int,
    rc: Seq<Bfe>,
    row: Seq<Bfe>,
    ch: HashTableChallenges,
    i: int,
)
    requires
        row.len() == BASE_WIDTH,
        trace_row_ok(row, rc),
        0 <= col < NUM_ROUND_CONSTANTS,
        0 <= i <= NUM_ROUNDS,
    ensures
        round_constant_sum(col, rc, lift_row(row), ch, i) == x_zero(),
    decreases i,
{
    if i > 0 {
        lemma_round_constant_sum_zero(col, rc, row, ch, i - 1);
        let rn = row[COL_ROUND_NUMBER as int].v;
        let rnx = at(lift_row(row), COL_ROUND_NUMBER as int);
        assert(rnx == x_from_b(Bfe { v: rn }));
        if rn == i {
            assert(at(lift_row(row), COL_CONSTANT0A + col) == x_from_b(
                rc[NUM_ROUND_CONSTANTS * (i - 1) + col],
            ));
            lemma_x_sub_self(at(lift_row(row), COL_CONSTANT0A + col));
            lemma_x_mul_zero(deselector_value(rnx, i));
        } else {
            lemma_deselector_zero(rnx, i, rn as int);
            lemma_x_mul_zero(
                x_sub(
                    at(lift_row(row), COL_CONSTANT0A + col),
                    x_from_b(rc[NUM_ROUND_CONSTANTS * (i - 1) + col]),
                ),
            );
        }
        lemma_x_add_zero();
    } else {
        vstd::arithmetic::div_mod::lemma_small_mod(0nat, P as nat);
    }
}

/// Consistency constraint 0 vanishes on a well-formed row: on padding rows
/// the round-number factor is zero (the instruction is unconstrained there),
/// and on rounds one and up the instruction is one of the four sponge-related
/// opcodes, so its gate factor is zero.
proof fn lemma_consistency_value_zero_k0(
    rc: Seq<Bfe>,
    row: Seq<Bfe>,
    ch: HashTableChallenges,
    ext: Seq<Xfe>,
)
    requires
        row.len() == BASE_WIDTH,
        trace_row_ok(row, rc),
    ensures
        consistency_constraint_value(0, lift_row(row), ext, ch, rc) == x_zero(),
{
    let base = lift_row(row);
    let rn = row[COL_ROUND_NUMBER as int].v;
    let ci = row[COL_CI as int].v;
    let rnx = at(base, COL_ROUND_NUMBER as int);
    let cix = at(base, COL_CI as int);
    assert(rnx == x_from_b(Bfe { v: rn }));
    assert(cix == x_from_b(Bfe { v: ci }));
    let f_hash = x_sub(cix, op_hash_x());
    let f_absorb_init = x_sub(cix, op_absorb_init_x());
    let f_absorb = x_sub(cix, op_absorb_x());
    let f_squeeze = x_sub(cix, op_squeeze_x());
    if rn != 0 {
        lemma_x_sub_self(cix);
    }
    lemma_mul5_zero(rnx, f_hash, f_absorb_init, f_absorb, f_squeeze);
}

/// A five-factor product vanishes when its last factor does.
proof fn lemma_mul5_zero_last(f1: Xfe, f2: Xfe, f3: Xfe, f4: Xfe, f5: Xfe)
    requires
        f5 == x_zero(),
    ensures
        x_mul(x_mul(x_mul(x_mul(f1, f2), f3), f4), f5) == x_zero(),
{
    lemma_x_mul_zero(x_mul(x_mul(x_mul(f1, f2), f3), f4));
}

/// A five-factor product vanishes when one of its factors does.
proof fn lemma_mul5_zero(f1: Xfe, f2: Xfe, f3: Xfe, f4: Xfe, f5: Xfe)
    requires
        f1 == x_zero() || f2 == x_zero() || f3 == x_zero() || f4 == x_zero() || f5 == x_zero(),
    ensures
        x_mul(x_mul(x_mul(x_mul(f1, f2), f3), f4), f5) == x_zero(),
{
    if f1 == x_zero() {
        lemma_x_mul_zero(f2);
        lemma_x_mul_zero(f3);
        lemma_x_mul_zero(f4);
        lemma_x_mul_zero(f5);
    } else if f2 == x_zero() {
        lemma_x_mul_zero(f1);
        lemma_x_mul_zero(f3);
        lemma_x_mul_zero(f4);
        lemma_x_mul_zero(f5);
    } else if f3 == x_zero() {
        lemma_x_mul_zero(x_mul(f1, f2));
        lemma_x_mul_zero(f4);
        lemma_x_mul_zero(f5);
    } else if f4 == x_zero() {
        lemma_x_mul_zero(x_mul(x_mul(f1, f2), f3));
        lemma_x_mul_zero(f5);
    } else {
        lemma_x_mul_zero(x_mul(x_mul(x_mul(f1, f2), f3), f4));
    }
}

/// The capacity consistency constraints 1 through 7 vanish on a well-formed
/// row: off first rounds the deselector is zero, on first rounds either a
/// gate factor is zero or the capacity column has the required value.
#[verifier::rlimit(100)]
proof fn lemma_consistency_value_zero_capacity(
    rc: Seq<Bfe>,
    row: Seq<Bfe>,
    ch: HashTableChallenges,
    k: int,
    ext: Seq<Xfe>,
)
    requires
        row.len() == BASE_WIDTH,
        trace_row_ok(row, rc),
        1 <= k < 8,
    ensures
        consistency_constraint_value(k, lift_row(row), ext, ch, rc) == x_zero(),
{
    let base = lift_row(row);
    let rn = row[COL_ROUND_NUMBER as int].v;
    let ci = row[COL_CI as int].v;
    let rnx = at(base, COL_ROUND_NUMBER as int);
    let cix = at(base, COL_CI as int);
    assert(rnx == x_from_b(Bfe { v: rn }));
    assert(cix == x_from_b(Bfe { v: ci }));
    let f_hash = x_sub(cix, op_hash_x());
    let f_absorb_init = x_sub(cix, op_absorb_init_x());
    let f_absorb = x_sub(cix, op_absorb_x());
    let f_squeeze = x_sub(cix, op_squeeze_x());
    let d1 = deselector_value(rnx, 1);
    let st10 = at(base, COL_STATE0 + 10);
    if rn != 1 {
        lemma_deselector_zero(rnx, 1, rn as int);
    } else if ci == OPCODE_ABSORB {
        lemma_x_sub_self(cix);
    } else if ci == OPCODE_SQUEEZE {
        lemma_x_sub_self(cix);
    } else if ci == OPCODE_HASH {
        lemma_x_sub_self(cix);
        if k == 1 {
        } else if k == 2 {
            assert(row[COL_STATE0 + 10] == Bfe { v: 0 });
            assert(st10 == x_zero());
        } else {
            assert(row[COL_STATE0 + 8 + k] == Bfe { v: 0 });
            assert(at(base, COL_STATE0 + 8 + k) == x_zero());
        }
    } else {
        lemma_x_sub_self(cix);
        if k == 1 {
            assert(row[COL_STATE0 + 10] == Bfe { v: 1 });
            assert(st10 == x_from_b(Bfe { v: 1 }));
            lemma_x_sub_self(x_from_b(Bfe { v: 1 }));
        } else if k == 2 {
        } else {
            assert(row[COL_STATE0 + 8 + k] == Bfe { v: 0 });
            assert(at(base, COL_STATE0 + 8 + k) == x_zero());
        }
    }
    if k == 1 {
        lemma_mul5_zero(d1, f_hash, f_absorb, f_squeeze, x_sub(st10, x_from_b(Bfe { v: 1 })));
    } else if k == 2 {
        lemma_mul5_zero(d1, f_absorb_init, f_absorb, f_squeeze, st10);
    } else {
        let st = at(base, COL_STATE0 + 8 + k);
        if d1 == x_zero() {
            lemma_x_mul_zero(f_absorb);
            lemma_x_mul_zero(f_squeeze);
            lemma_x_mul_zero(st);
        } else if f_absorb == x_zero() {
            lemma_x_mul_zero(d1);
            lemma_x_mul_zero(f_squeeze);
            lemma_x_mul_zero(st);
        } else if f_squeeze == x_zero() {
            lemma_x_mul_zero(x_mul(d1, f_absorb));
            lemma_x_mul_zero(st);
        } else {
            lemma_x_mul_zero(x_mul(x_mul(d1, f_absorb), f_squeeze));
        }
    }
}

/// Every consistency constraint evaluates to zero on a well-formed row,
/// whatever the extension row and challenges.
pub proof fn theorem_consistency_constraints_vanish(
    cs: Seq<ConstraintCircuit>,
    rc: Seq<Bfe>,
    row: Seq<Bfe>,
    ch: HashTableChallenges,
    k: int,
    ext: Seq<Xfe>,
    nb: Seq<Xfe>,
    ne: Seq<Xfe>,
)
    requires
        consistency_circuits_ok(cs, rc),
        row.len() == BASE_WIDTH,
        trace_row_ok(row, rc),
        0 <= k < cs.len(),
    ensures
        eval(cs[k], lift_row(row), ext, nb, ne, ch) == x_zero(),
{
    assert(eval(cs[k], lift_row(row), ext, nb, ne, ch) == consistency_constraint_value(
        k,
        lift_row(row),
        ext,
        ch,
        rc,
    ));
    if k == 0 {
        lemma_consistency_value_zero_k0(rc, row, ch, ext);
    } else if k < 8 {
        lemma_consistency_value_zero_capacity(rc, row, ch, k, ext);
    } else {
        lemma_round_constant_sum_zero(k - 8, rc, row, ch, NUM_ROUNDS as int);
    }
}

/// The running evaluations of row 0 of a trace, written out.
proof fn lemma_first_extension_row(t: Seq<Seq<Bfe>>, ch: HashTableChallenges)
    requires
        t.len() > 0,
    ensures
        hash_input_running_eval(t, ch, -1) == x_one(),
        hash_digest_running_eval(t, ch, -1) == x_one(),
        sponge_running_eval(t, ch, -1) == x_one(),
        at(extension_row(t, ch, 0), 0) == hash_input_running_eval(t, ch, 0),
        at(extension_row(t, ch, 0), 1) == hash_digest_running_eval(t, ch, 0),
        at(extension_row(t, ch, 0), 2) == sponge_running_eval(t, ch, 0),
{
}

/// Initial constraint 2 — the hash-input running evaluation is initialized
/// correctly — vanishes on row 0 of a well-formed, extended trace.
#[verifier::rlimit(100)]
proof fn lemma_initial_value_zero_hash_input(
    t: Seq<Seq<Bfe>>,
    rc: Seq<Bfe>,
    ch: HashTableChallenges,
)
    requires
        trace_rows_ok(t, rc),
        first_row_ok(t),
    ensures
        initial_constraint_value(2, lift_row(t[0]), extension_row(t, ch, 0), ch) == x_zero(),
{
    let row = t[0];
    let base = lift_row(row);
    let ext = extension_row(t, ch, 0);
    let rn = row[COL_ROUND_NUMBER as int].v;
    let ci = row[COL_CI as int].v;
    let rnx = at(base, COL_ROUND_NUMBER as int);
    let cix = at(base, COL_CI as int);
    assert(rnx == x_from_b(Bfe { v: rn }));
    assert(cix == x_from_b(Bfe { v: ci }));
    let f_hash = x_sub(cix, op_hash_x());
    let f_absorb_init = x_sub(cix, op_absorb_init_x());
    lemma_first_extension_row(t, ch);
    let hi = at(ext, 0);
    lemma_compressed_match(row, ch, RATE as int);
    let compressed = compressed_states_value(base, ch, RATE as int);
    let hi_default = x_sub(hi, x_one());
    let m = x_mul(x_one(), ch.hash_input_eval_indeterminate);
    let hi_first = x_sub(x_sub(hi, m), compressed);
    if rn == 0 {
        assert(hi == x_one());
        lemma_x_sub_self(x_one());
        lemma_x_mul_zero(f_absorb_init);
        lemma_x_mul_zero(hi_first);
        lemma_x_mul_zero(hi_default);
        lemma_x_add_zero();
    } else if ci == OPCODE_HASH {
        assert(hi == x_add(m, compressed));
        crate::field::lemma_x_acc2(m, compressed);
        lemma_x_sub_self(cix);
        lemma_x_mul_zero(x_mul(rnx, f_absorb_init));
        lemma_x_mul_zero(hi_default);
        lemma_x_sub_self(x_one());
        lemma_x_mul_zero(hi_default);
        lemma_x_add_zero();
    } else {
        assert(hi == x_one());
        lemma_x_sub_self(cix);
        lemma_x_mul_zero(rnx);
        lemma_x_mul_zero(hi_first);
        lemma_x_sub_self(x_one());
        lemma_x_mul_zero(f_hash);
        lemma_x_mul_zero(x_sub(x_one(), rnx));
        lemma_x_add_zero();
    }
}

/// Initial constraint 4 — the sponge running evaluation is initialized
/// correctly — vanishes on row 0 of a well-formed, extended trace.
#[verifier::rlimit(100)]
proof fn lemma_initial_value_zero_sponge(t: Seq<Seq<Bfe>>, rc: Seq<Bfe>, ch: HashTableChallenges)
    requires
        trace_rows_ok(t, rc),
        first_row_ok(t),
    ensures
        initial_constraint_value(4, lift_row(t[0]), extension_row(t, ch, 0), ch) == x_zero(),
{
    let row = t[0];
    let base = lift_row(row);
    let ext = extension_row(t, ch, 0);
    let rn = row[COL_ROUND_NUMBER as int].v;
    let ci = row[COL_CI as int].v;
    let cix = at(base, COL_CI as int);
    assert(cix == x_from_b(Bfe { v: ci }));
    let f_hash = x_sub(cix, op_hash_x());
    let f_absorb_init = x_sub(cix, op_absorb_init_x());
    lemma_first_extension_row(t, ch);
    let sp = at(ext, 2);
    lemma_compressed_match(row, ch, RATE as int);
    let compressed = compressed_states_value(base, ch, RATE as int);
    let m = x_mul(x_one(), ch.sponge_eval_indeterminate);
    let w = x_mul(ch.ci_weight, op_absorb_init_x());
    let sp_first = x_sub(x_sub(x_sub(sp, m), w), compressed);
    let sp_default = x_sub(sp, x_one());
    if ci == OPCODE_ABSORB_INIT {
        assert(rn == 1);
        assert(sp == x_add(x_add(m, w), compressed));
        crate::field::lemma_x_acc3(m, w, compressed);
        lemma_x_mul_zero(f_hash);
        lemma_x_sub_self(cix);
        lemma_x_mul_zero(sp_default);
        lemma_x_add_zero();
    } else {
        assert(sp == x_one());
        lemma_x_sub_self(cix);
        lemma_x_mul_zero(sp_first);
        lemma_x_sub_self(x_one());
        lemma_x_mul_zero(f_absorb_init);
        lemma_x_add_zero();
    }
}

/// Every initial constraint evaluates to zero on row 0 of a well-formed,
/// extended trace.
#[verifier::rlimit(100)]
pub proof fn theorem_initial_constraints_vanish(
    cs: Seq<ConstraintCircuit>,
    t: Seq<Seq<Bfe>>,
    rc: Seq<Bfe>,
    ch: HashTableChallenges,
    k: int,
    nb: Seq<Xfe>,
    ne: Seq<Xfe>,
)
    requires
        initial_circuits_ok(cs),
        trace_rows_ok(t, rc),
        first_row_ok(t),
        0 <= k < cs.len(),
    ensures
        eval(cs[k], lift_row(t[0]), extension_row(t, ch, 0), nb, ne, ch) == x_zero(),
{
    let row = t[0];
    let base = lift_row(row);
    let ext = extension_row(t, ch, 0);
    let rn = row[COL_ROUND_NUMBER as int].v;
    let ci = row[COL_CI as int].v;
    let rnx = at(base, COL_ROUND_NUMBER as int);
    let cix = at(base, COL_CI as int);
    assert(rnx == x_from_b(Bfe { v: rn }));
    assert(cix == x_from_b(Bfe { v: ci }));
    assert(eval(cs[k], base, ext, nb, ne, ch) == initial_constraint_value(k, base, ext, ch));
    lemma_first_extension_row(t, ch);
    if k == 0 {
        if rn == 0 {
            lemma_x_mul_zero(x_sub(rnx, x_one()));
        } else {
            lemma_x_sub_self(rnx);
            lemma_x_mul_zero(rnx);
        }
    } else if k == 1 {
        lemma_x_sub_self(cix);
        if ci == OPCODE_HASH {
            lemma_x_mul_zero(x_sub(cix, op_absorb_init_x()));
        } else {
            lemma_x_mul_zero(x_sub(cix, op_hash_x()));
        }
    } else if k == 2 {
        lemma_initial_value_zero_hash_input(t, rc, ch);
    } else if k == 3 {
        assert(at(ext, 1) == x_one());
        lemma_x_sub_self(x_one());
    } else {
        lemma_initial_value_zero_sponge(t, rc, ch);
    }
}

/// The hash table has no terminal constraints, so every terminal constraint
/// evaluates to zero on the last row.
pub proof fn theorem_terminal_constraints_vanish(
    cs: Seq<ConstraintCircuit>,
    base: Seq<Xfe>,
    ext: Seq<Xfe>,
    nb: Seq<Xfe>,
    ne: Seq<Xfe>,
    ch: HashTableChallenges,
)
    requires
        terminal_circuits_ok(cs),
    ensures
        forall|k: int| 0 <= k < cs.len() ==> eval(#[trigger] cs[k], base, ext, nb, ne, ch)
            == x_zero(),
{
}

/// A three-factor product vanishes when one of its factors does.
proof fn lemma_mul3_zero(f1: Xfe, f2: Xfe, f3: Xfe)
    requires
        f1 == x_zero() || f2 == x_zero() || f3 == x_zero(),
    ensures
        x_mul(x_mul(f1, f2), f3) == x_zero(),
{
    if f1 == x_zero() {
        lemma_x_mul_zero(f2);
        lemma_x_mul_zero(f3);
    } else if f2 == x_zero() {
        lemma_x_mul_zero(f1);
        lemma_x_mul_zero(f3);
    } else {
        lemma_x_mul_zero(x_mul(f1, f2));
    }
}

/// A four-factor product vanishes when one of its factors does.
proof fn lemma_mul4_zero(f1: Xfe, f2: Xfe, f3: Xfe, f4: Xfe)
    requires
        f1 == x_zero() || f2 == x_zero() || f3 == x_zero() || f4 == x_zero(),
    ensures
        x_mul(x_mul(x_mul(f1, f2), f3), f4) == x_zero(),
{
    if f4 == x_zero() {
        lemma_x_mul_zero(x_mul(x_mul(f1, f2), f3));
    } else {
        lemma_mul3_zero(f1, f2, f3);
        lemma_x_mul_zero(f4);
    }
}

/// What the virtual machine guarantees of every pair of adjacent rows: the
/// round number evolves along the machine `0 → 0`, `1 → 2 → … → 9`,
/// `9 → 0 | 1`; the instruction persists within a permutation; one
/// Rescue-XLIX round relates the two states; and across calls the capacity
/// (for `absorb`) or the whole state (for `squeeze`) is copied.
pub open spec fn trace_pair_ok(
    t: Seq<Seq<Bfe>>,
    mds: Seq<Bfe>,
    mds_inv: Seq<Bfe>,
    i: int,
) -> bool {
    let cur = t[i];
    let next = t[i + 1];
    let rn = cur[COL_ROUND_NUMBER as int].v;
    let rn2 = next[COL_ROUND_NUMBER as int].v;
    let ci = cur[COL_CI as int].v;
    let ci2 = next[COL_CI as int].v;
    &&& (rn == 0 ==> rn2 == 0)
    &&& (rn == NUM_ROUNDS + 1 ==> rn2 == 0 || rn2 == 1)
    &&& (1 <= rn <= NUM_ROUNDS ==> rn2 == rn + 1)
    &&& (ci == OPCODE_HASH ==> ci2 == OPCODE_HASH)
    &&& (rn != NUM_ROUNDS + 1 ==> next[COL_CI as int] == cur[COL_CI as int])
    &&& (1 <= rn <= NUM_ROUNDS ==> forall|lane: int|
        0 <= lane < STATE_SIZE ==> rescue_forward_value(mds, lane, lift_row(cur))
            == #[trigger] rescue_backward_value(mds_inv, lane, lift_row(cur), lift_row(next)))
    &&& (rn2 == 1 && ci2 == OPCODE_ABSORB ==> forall|c: int|
        COL_STATE0 + RATE <= c < COL_STATE0 + STATE_SIZE ==> #[trigger] next[c] == cur[c])
    &&& (rn2 == 1 && ci2 == OPCODE_SQUEEZE ==> forall|c: int|
        COL_STATE0 <= c < COL_STATE0 + STATE_SIZE ==> #[trigger] next[c] == cur[c])
}

/// The round-number transition constraints 0 through 2 vanish on a
/// well-formed pair of rows.
#[verifier::rlimit(100)]
proof fn lemma_transition_value_zero_rn(
    t: Seq<Seq<Bfe>>,
    rc: Seq<Bfe>,
    mds: Seq<Bfe>,
    mds_inv: Seq<Bfe>,
    ch: HashTableChallenges,
    i: int,
    k: int,
)
    requires
        trace_rows_ok(t, rc),
        0 <= i,
        i + 1 < t.len(),
        trace_pair_ok(t, mds, mds_inv, i),
        0 <= k < 3,
    ensures
        transition_constraint_value(
            k,
            lift_row(t[i]),
            extension_row(t, ch, i),
            lift_row(t[i + 1]),
            extension_row(t, ch, i + 1),
            ch,
            mds,
            mds_inv,
        ) == x_zero(),
{
    let cur = t[i];
    let next = t[i + 1];
    let rn = cur[COL_ROUND_NUMBER as int].v;
    let rn2 = next[COL_ROUND_NUMBER as int].v;
    let rnx = at(lift_row(cur), COL_ROUND_NUMBER as int);
    let rn2x = at(lift_row(next), COL_ROUND_NUMBER as int);
    assert(rnx == x_from_b(Bfe { v: rn }));
    assert(rn2x == x_from_b(Bfe { v: rn2 }));
    if k == 0 {
        if rn == 0 {
            lemma_x_mul_zero(deselector_value(rnx, 0));
        } else {
            lemma_deselector_zero(rnx, 0, rn as int);
            lemma_x_mul_zero(rn2x);
        }
    } else if k == 1 {
        if rn != NUM_ROUNDS + 1 {
            lemma_deselector_zero(rnx, (NUM_ROUNDS + 1) as int, rn as int);
            lemma_mul3_zero(
                deselector_value(rnx, (NUM_ROUNDS + 1) as int),
                x_sub(x_one(), rn2x),
                rn2x,
            );
        } else if rn2 == 0 {
            lemma_x_mul_zero(
                x_mul(deselector_value(rnx, (NUM_ROUNDS + 1) as int), x_sub(x_one(), rn2x)),
            );
        } else {
            lemma_x_sub_self(x_one());
            lemma_mul3_zero(
                deselector_value(rnx, (NUM_ROUNDS + 1) as int),
                x_sub(x_one(), rn2x),
                rn2x,
            );
        }
    } else {
        let third = x_sub(x_sub(rn2x, rnx), x_one());
        if rn == 0 {
            lemma_mul3_zero(rnx, x_sub(last_round_x(), rnx), third);
        } else if rn == NUM_ROUNDS + 1 {
            lemma_x_sub_self(last_round_x());
            lemma_mul3_zero(rnx, x_sub(last_round_x(), rnx), third);
        } else {
            lemma_x_from_b_sub(next[COL_ROUND_NUMBER as int], cur[COL_ROUND_NUMBER as int]);
            assert(b_sub(next[COL_ROUND_NUMBER as int], cur[COL_ROUND_NUMBER as int]) == Bfe {
                v: 1,
            }) by {
                vstd::arithmetic::div_mod::lemma_small_mod(1nat, P as nat);
            }
            lemma_x_sub_self(x_one());
            lemma_x_mul_zero(x_mul(rnx, x_sub(last_round_x(), rnx)));
        }
    }
}

/// The instruction-persistence transition constraints 3 and 4 vanish on a
/// well-formed pair of rows.
#[verifier::rlimit(100)]
proof fn lemma_transition_value_zero_ci(
    t: Seq<Seq<Bfe>>,
    rc: Seq<Bfe>,
    mds: Seq<Bfe>,
    mds_inv: Seq<Bfe>,
    ch: HashTableChallenges,
    i: int,
    k: int,
)
    requires
        trace_rows_ok(t, rc),
        0 <= i,
        i + 1 < t.len(),
        trace_pair_ok(t, mds, mds_inv, i),
        3 <= k < 5,
    ensures
        transition_constraint_value(
            k,
            lift_row(t[i]),
            extension_row(t, ch, i),
            lift_row(t[i + 1]),
            extension_row(t, ch, i + 1),
            ch,
            mds,
            mds_inv,
        ) == x_zero(),
{
    let cur = t[i];
    let next = t[i + 1];
    let rn = cur[COL_ROUND_NUMBER as int].v;
    let ci = cur[COL_CI as int].v;
    let ci2 = next[COL_CI as int].v;
    let rnx = at(lift_row(cur), COL_ROUND_NUMBER as int);
    let cix = at(lift_row(cur), COL_CI as int);
    let ci2x = at(lift_row(next), COL_CI as int);
    assert(rnx == x_from_b(Bfe { v: rn }));
    assert(cix == x_from_b(Bfe { v: ci }));
    assert(ci2x == x_from_b(Bfe { v: ci2 }));
    if k == 3 {
        if ci == OPCODE_HASH {
            lemma_x_sub_self(ci2x);
            lemma_mul4_zero(
                x_sub(cix, op_absorb_init_x()),
                x_sub(cix, op_absorb_x()),
                x_sub(cix, op_squeeze_x()),
                x_sub(ci2x, op_hash_x()),
            );
        } else {
            lemma_x_sub_self(cix);
            lemma_mul4_zero(
                x_sub(cix, op_absorb_init_x()),
                x_sub(cix, op_absorb_x()),
                x_sub(cix, op_squeeze_x()),
                x_sub(ci2x, op_hash_x()),
            );
        }
    } else {
        if rn == NUM_ROUNDS + 1 {
            lemma_x_sub_self(rnx);
            lemma_x_mul_zero(x_sub(ci2x, cix));
        } else {
            assert(next[COL_CI as int] == cur[COL_CI as int]);
            lemma_x_sub_self(cix);
            lemma_x_mul_zero(x_sub(rnx, last_round_x()));
        }
    }
}

/// The sixteen Rescue-round transition constraints vanish on a well-formed
/// pair of rows: the gating factor is zero on padding rows and after the
/// final round, and elsewhere the two half-round expressions are equal.
#[verifier::rlimit(100)]
proof fn lemma_transition_value_zero_rescue(
    t: Seq<Seq<Bfe>>,
    rc: Seq<Bfe>,
    mds: Seq<Bfe>,
    mds_inv: Seq<Bfe>,
    ch: HashTableChallenges,
    i: int,
    k: int,
)
    requires
        trace_rows_ok(t, rc),
        0 <= i,
        i + 1 < t.len(),
        trace_pair_ok(t, mds, mds_inv, i),
        5 <= k < 5 + STATE_SIZE,
    ensures
        transition_constraint_value(
            k,
            lift_row(t[i]),
            extension_row(t, ch, i),
            lift_row(t[i + 1]),
            extension_row(t, ch, i + 1),
            ch,
            mds,
            mds_inv,
        ) == x_zero(),
{
    let cur = t[i];
    let next = t[i + 1];
    let lane = k - 5;
    let rn = cur[COL_ROUND_NUMBER as int].v;
    let rnx = at(lift_row(cur), COL_ROUND_NUMBER as int);
    assert(rnx == x_from_b(Bfe { v: rn }));
    let fwd = rescue_forward_value(mds, lane, lift_row(cur));
    let bwd = rescue_backward_value(mds_inv, lane, lift_row(cur), lift_row(next));
    let gate = x_mul(rnx, x_sub(rnx, last_round_x()));
    if rn == 0 {
        lemma_x_mul_zero(x_sub(rnx, last_round_x()));
        lemma_x_mul_zero(x_sub(fwd, bwd));
    } else if rn == NUM_ROUNDS + 1 {
        lemma_x_sub_self(rnx);
        lemma_x_mul_zero(rnx);
        lemma_x_mul_zero(x_sub(fwd, bwd));
    } else {
        assert(fwd == bwd);
        lemma_x_sub_self(fwd);
        lemma_x_mul_zero(gate);
    }
}

/// The copy transition constraints 21 and 22 vanish on a well-formed pair of
/// rows: across calls, `absorb` keeps the capacity and `squeeze` keeps the
/// whole state.
#[verifier::rlimit(100)]
proof fn lemma_transition_value_zero_copy(
    t: Seq<Seq<Bfe>>,
    rc: Seq<Bfe>,
    mds: Seq<Bfe>,
    mds_inv: Seq<Bfe>,
    ch: HashTableChallenges,
    i: int,
    k: int,
)
    requires
        trace_rows_ok(t, rc),
        0 <= i,
        i + 1 < t.len(),
        trace_pair_ok(t, mds, mds_inv, i),
        21 <= k < 23,
    ensures
        transition_constraint_value(
            k,
            lift_row(t[i]),
            extension_row(t, ch, i),
            lift_row(t[i + 1]),
            extension_row(t, ch, i + 1),
            ch,
            mds,
            mds_inv,
        ) == x_zero(),
{
    let cur = t[i];
    let next = t[i + 1];
    let rn2 = next[COL_ROUND_NUMBER as int].v;
    let ci2 = next[COL_CI as int].v;
    let rn2x = at(lift_row(next), COL_ROUND_NUMBER as int);
    let ci2x = at(lift_row(next), COL_CI as int);
    assert(rn2x == x_from_b(Bfe { v: rn2 }));
    assert(ci2x == x_from_b(Bfe { v: ci2 }));
    let d1 = deselector_value(rn2x, 1);
    let f_hash = x_sub(ci2x, op_hash_x());
    let f_absorb_init = x_sub(ci2x, op_absorb_init_x());
    let f_absorb = x_sub(ci2x, op_absorb_x());
    let f_squeeze = x_sub(ci2x, op_squeeze_x());
    let cap_sum = compressed_state_diffs_value(
        lift_row(cur),
        lift_row(next),
        ch,
        RATE as int,
        (STATE_SIZE - RATE) as int,
    );
    let state_sum = compressed_state_diffs_value(
        lift_row(cur),
        lift_row(next),
        ch,
        0,
        STATE_SIZE as int,
    );
    if rn2 != 1 {
        lemma_deselector_zero(rn2x, 1, rn2 as int);
        lemma_mul5_zero(d1, f_hash, f_absorb_init, f_squeeze, cap_sum);
        lemma_mul5_zero(d1, f_hash, f_absorb_init, f_absorb, state_sum);
    } else if ci2 == OPCODE_HASH || ci2 == OPCODE_ABSORB_INIT {
        lemma_x_sub_self(ci2x);
        lemma_mul5_zero(d1, f_hash, f_absorb_init, f_squeeze, cap_sum);
        lemma_mul5_zero(d1, f_hash, f_absorb_init, f_absorb, state_sum);
    } else if k == 21 {
        if ci2 == OPCODE_SQUEEZE {
            lemma_x_sub_self(ci2x);
            lemma_mul5_zero(d1, f_hash, f_absorb_init, f_squeeze, cap_sum);
        } else {
            assert forall|c: int|
                RATE <= c < RATE + (STATE_SIZE - RATE) implies at(
                lift_row(next),
                COL_STATE0 + c,
            ) == at(lift_row(cur), #[trigger] (COL_STATE0 + c)) by {
                assert(next[COL_STATE0 + c] == cur[COL_STATE0 + c]);
            }
            lemma_diff_sum_zero(
                lift_row(cur),
                lift_row(next),
                ch,
                RATE as int,
                (STATE_SIZE - RATE) as int,
            );
            lemma_mul5_zero(d1, f_hash, f_absorb_init, f_squeeze, cap_sum);
        }
    } else {
        if ci2 == OPCODE_ABSORB {
            lemma_x_sub_self(ci2x);
            lemma_mul5_zero(d1, f_hash, f_absorb_init, f_absorb, state_sum);
        } else {
            assert forall|c: int|
                0 <= c < STATE_SIZE implies at(lift_row(next), COL_STATE0 + c) == at(
                lift_row(cur),
                #[trigger] (COL_STATE0 + c),
            ) by {
                assert(next[COL_STATE0 + c] == cur[COL_STATE0 + c]);
            }
            lemma_diff_sum_zero(lift_row(cur), lift_row(next), ch, 0, STATE_SIZE as int);
            lemma_mul5_zero(d1, f_hash, f_absorb_init, f_absorb, state_sum);
        }
    }
}

/// The running evaluations written for one row, looked up.
#[verifier::rlimit(100)]
proof fn lemma_extension_row_cells(t: Seq<Seq<Bfe>>, ch: HashTableChallenges, i: int)
    ensures
        at(extension_row(t, ch, i), 0) == hash_input_running_eval(t, ch, i),
        at(extension_row(t, ch, i), 1) == hash_digest_running_eval(t, ch, i),
        at(extension_row(t, ch, i), 2) == sponge_running_eval(t, ch, i),
{
    let row = extension_row(t, ch, i);
    assert(row.len() == 3);
    assert(row[0] == hash_input_running_eval(t, ch, i));
    assert(row[1] == hash_digest_running_eval(t, ch, i));
    assert(row[2] == sponge_running_eval(t, ch, i));
}

/// The running evaluations written for two adjacent rows, looked up.
proof fn lemma_adjacent_extension_rows(t: Seq<Seq<Bfe>>, ch: HashTableChallenges, i: int)
    ensures
        at(extension_row(t, ch, i), 0) == hash_input_running_eval(t, ch, i),
        at(extension_row(t, ch, i), 1) == hash_digest_running_eval(t, ch, i),
        at(extension_row(t, ch, i), 2) == sponge_running_eval(t, ch, i),
        at(extension_row(t, ch, i + 1), 0) == hash_input_running_eval(t, ch, i + 1),
        at(extension_row(t, ch, i + 1), 1) == hash_digest_running_eval(t, ch, i + 1),
        at(extension_row(t, ch, i + 1), 2) == sponge_running_eval(t, ch, i + 1),
{
    lemma_extension_row_cells(t, ch, i);
    lemma_extension_row_cells(t, ch, i + 1);
}

/// The hash-input transition constraint 23 vanishes on a well-formed pair of
/// rows of an extended trace.
#[verifier::rlimit(100)]
proof fn lemma_transition_value_zero_hash_input(
    t: Seq<Seq<Bfe>>,
    rc: Seq<Bfe>,
    mds: Seq<Bfe>,
    mds_inv: Seq<Bfe>,
    ch: HashTableChallenges,
    i: int,
)
    requires
        trace_rows_ok(t, rc),
        0 <= i,
        i + 1 < t.len(),
        trace_pair_ok(t, mds, mds_inv, i),
    ensures
        transition_constraint_value(
            23,
            lift_row(t[i]),
            extension_row(t, ch, i),
            lift_row(t[i + 1]),
            extension_row(t, ch, i + 1),
            ch,
            mds,
            mds_inv,
        ) == x_zero(),
{
    let cur = t[i];
    let next = t[i + 1];
    let rn2 = next[COL_ROUND_NUMBER as int].v;
    let ci2 = next[COL_CI as int].v;
    let rn2x = at(lift_row(next), COL_ROUND_NUMBER as int);
    let ci2x = at(lift_row(next), COL_CI as int);
    assert(rn2x == x_from_b(Bfe { v: rn2 }));
    assert(ci2x == x_from_b(Bfe { v: ci2 }));
    lemma_adjacent_extension_rows(t, ch, i);
    let hi = at(extension_row(t, ch, i), 0);
    let hi2 = at(extension_row(t, ch, i + 1), 0);
    let d1 = deselector_value(rn2x, 1);
    let not_hash = ci_next_is_not_hash_value(lift_row(next));
    let comp_f = compressed_states_value(lift_row(next), ch, RATE as int);
    let hi_remains = x_sub(hi2, hi);
    let m = x_mul(ch.hash_input_eval_indeterminate, hi);
    let hi_updates = x_sub(x_sub(hi2, m), comp_f);
    if rn2 == 1 && ci2 == OPCODE_HASH {
        assert(absorbed_elements(t, i + 1) == row_rate(next));
        assert(hi2 == x_add(
            x_mul(hi, ch.hash_input_eval_indeterminate),
            compressed_elements(state_weights10(ch), row_rate(next), RATE as int),
        ));
        lemma_compressed_match(next, ch, RATE as int);
        crate::field::lemma_x_mul_comm(hi, ch.hash_input_eval_indeterminate);
        crate::field::lemma_x_acc2(m, comp_f);
        lemma_x_mul_zero(x_mul(d1, not_hash));
        lemma_x_sub_self(x_one());
        lemma_x_sub_self(ci2x);
        lemma_x_mul_zero(hi_remains);
        lemma_x_add_zero();
    } else {
        assert(hi2 == hi);
        lemma_x_sub_self(hi);
        lemma_x_mul_zero(x_sub(rn2x, x_one()));
        lemma_x_mul_zero(x_sub(ci2x, op_hash_x()));
        if rn2 != 1 {
            lemma_deselector_zero(rn2x, 1, rn2 as int);
            lemma_x_mul_zero(not_hash);
            lemma_x_mul_zero(hi_updates);
        } else {
            lemma_x_sub_self(ci2x);
            lemma_mul3_zero(
                x_sub(ci2x, op_absorb_init_x()),
                x_sub(ci2x, op_absorb_x()),
                x_sub(ci2x, op_squeeze_x()),
            );
            lemma_x_mul_zero(d1);
            lemma_x_mul_zero(hi_updates);
        }
        lemma_x_add_zero();
    }
}

/// The hash-digest transition constraint 24 vanishes on a well-formed pair of
/// rows of an extended trace.
#[verifier::rlimit(100)]
proof fn lemma_transition_value_zero_hash_digest(
    t: Seq<Seq<Bfe>>,
    rc: Seq<Bfe>,
    mds: Seq<Bfe>,
    mds_inv: Seq<Bfe>,
    ch: HashTableChallenges,
    i: int,
)
    requires
        trace_rows_ok(t, rc),
        0 <= i,
        i + 1 < t.len(),
        trace_pair_ok(t, mds, mds_inv, i),
    ensures
        transition_constraint_value(
            24,
            lift_row(t[i]),
            extension_row(t, ch, i),
            lift_row(t[i + 1]),
            extension_row(t, ch, i + 1),
            ch,
            mds,
            mds_inv,
        ) == x_zero(),
{
    let cur = t[i];
    let next = t[i + 1];
    let rn2 = next[COL_ROUND_NUMBER as int].v;
    let ci2 = next[COL_CI as int].v;
    let rn2x = at(lift_row(next), COL_ROUND_NUMBER as int);
    let ci2x = at(lift_row(next), COL_CI as int);
    assert(rn2x == x_from_b(Bfe { v: rn2 }));
    assert(ci2x == x_from_b(Bfe { v: ci2 }));
    lemma_adjacent_extension_rows(t, ch, i);
    let hd = at(extension_row(t, ch, i), 1);
    let hd2 = at(extension_row(t, ch, i + 1), 1);
    let d9 = deselector_value(rn2x, (NUM_ROUNDS + 1) as int);
    let not_hash = ci_next_is_not_hash_value(lift_row(next));
    let comp_f = compressed_states_value(lift_row(next), ch, DIGEST_LENGTH as int);
    let hd_remains = x_sub(hd2, hd);
    let m = x_mul(ch.hash_digest_eval_indeterminate, hd);
    let hd_updates = x_sub(x_sub(hd2, m), comp_f);
    if rn2 == NUM_ROUNDS + 1 && ci2 == OPCODE_HASH {
        assert(is_digest_row(next));
        assert(hd2 == x_add(
            x_mul(hd, ch.hash_digest_eval_indeterminate),
            compressed_elements(state_weights10(ch), row_rate(next), DIGEST_LENGTH as int),
        ));
        lemma_compressed_match(next, ch, DIGEST_LENGTH as int);
        crate::field::lemma_x_mul_comm(hd, ch.hash_digest_eval_indeterminate);
        crate::field::lemma_x_acc2(m, comp_f);
        lemma_x_mul_zero(x_mul(d9, not_hash));
        lemma_x_sub_self(last_round_x());
        lemma_x_sub_self(ci2x);
        lemma_x_mul_zero(hd_remains);
        lemma_x_add_zero();
    } else {
        assert(!is_digest_row(next));
        assert(hd2 == hd);
        lemma_x_sub_self(hd);
        lemma_x_mul_zero(x_sub(rn2x, last_round_x()));
        lemma_x_mul_zero(x_sub(ci2x, op_hash_x()));
        if rn2 != NUM_ROUNDS + 1 {
            lemma_deselector_zero(rn2x, (NUM_ROUNDS + 1) as int, rn2 as int);
            lemma_x_mul_zero(not_hash);
            lemma_x_mul_zero(hd_updates);
        } else {
            lemma_x_sub_self(ci2x);
            lemma_mul3_zero(
                x_sub(ci2x, op_absorb_init_x()),
                x_sub(ci2x, op_absorb_x()),
                x_sub(ci2x, op_squeeze_x()),
            );
            lemma_x_mul_zero(d9);
            lemma_x_mul_zero(hd_updates);
        }
        lemma_x_add_zero();
    }
}

/// The sponge transition constraint 25 vanishes on a well-formed pair of rows
/// of an extended trace.
#[verifier::rlimit(100)]
proof fn lemma_transition_value_zero_sponge(
    t: Seq<Seq<Bfe>>,
    rc: Seq<Bfe>,
    mds: Seq<Bfe>,
    mds_inv: Seq<Bfe>,
    ch: HashTableChallenges,
    i: int,
)
    requires
        trace_rows_ok(t, rc),
        0 <= i,
        i + 1 < t.len(),
        trace_pair_ok(t, mds, mds_inv, i),
    ensures
        transition_constraint_value(
            25,
            lift_row(t[i]),
            extension_row(t, ch, i),
            lift_row(t[i + 1]),
            extension_row(t, ch, i + 1),
            ch,
            mds,
            mds_inv,
        ) == x_zero(),
{
    let cur = t[i];
    let next = t[i + 1];
    let rn2 = next[COL_ROUND_NUMBER as int].v;
    let ci2 = next[COL_CI as int].v;
    let rn2x = at(lift_row(next), COL_ROUND_NUMBER as int);
    let ci2x = at(lift_row(next), COL_CI as int);
    assert(rn2x == x_from_b(Bfe { v: rn2 }));
    assert(ci2x == x_from_b(Bfe { v: ci2 }));
    lemma_adjacent_extension_rows(t, ch, i);
    let sp = at(extension_row(t, ch, i), 2);
    let sp2 = at(extension_row(t, ch, i + 1), 2);
    let d1 = deselector_value(rn2x, 1);
    let f_hash = x_sub(ci2x, op_hash_x());
    let f_absorb_init = x_sub(ci2x, op_absorb_init_x());
    let f_absorb = x_sub(ci2x, op_absorb_x());
    let f_squeeze = x_sub(ci2x, op_squeeze_x());
    let m = x_mul(ch.sponge_eval_indeterminate, sp);
    let w = x_mul(ch.ci_weight, ci2x);
    let comp_next = compressed_states_value(lift_row(next), ch, RATE as int);
    let comp_diff = compressed_state_diffs_value(lift_row(cur), lift_row(next), ch, 0, RATE as int);
    let accum_next = x_sub(x_sub(x_sub(sp2, m), w), comp_next);
    let accum_diff = x_sub(x_sub(x_sub(sp2, m), w), comp_diff);
    let sp_remains = x_sub(sp2, sp);
    if rn2 == 1 && (ci2 == OPCODE_ABSORB_INIT || ci2 == OPCODE_SQUEEZE) {
        assert(absorbed_elements(t, i + 1) == row_rate(next));
        assert(sp2 == x_add(
            x_add(x_mul(sp, ch.sponge_eval_indeterminate), x_mul(ch.ci_weight, x_from_b(next[COL_CI as int]))),
            compressed_elements(state_weights10(ch), row_rate(next), RATE as int),
        ));
        lemma_compressed_match(next, ch, RATE as int);
        crate::field::lemma_x_mul_comm(sp, ch.sponge_eval_indeterminate);
        crate::field::lemma_x_acc3(m, w, comp_next);
        lemma_mul4_zero(d1, f_hash, f_absorb, accum_next);
        lemma_x_sub_self(ci2x);
        lemma_mul5_zero(d1, f_hash, f_absorb_init, f_squeeze, accum_diff);
        lemma_x_sub_self(x_one());
        lemma_x_mul_zero(sp_remains);
        lemma_mul4_zero(f_absorb_init, f_absorb, f_squeeze, sp_remains);
        lemma_x_add_zero();
    } else if rn2 == 1 && ci2 == OPCODE_ABSORB {
        assert(absorbed_elements(t, i + 1) == rate_difference(
            row_rate(next),
            previous_rate(t, i + 1),
        ));
        assert(previous_rate(t, i + 1) == row_rate(cur));
        assert(sp2 == x_add(
            x_add(x_mul(sp, ch.sponge_eval_indeterminate), x_mul(ch.ci_weight, x_from_b(next[COL_CI as int]))),
            compressed_elements(
                state_weights10(ch),
                rate_difference(row_rate(next), row_rate(cur)),
                RATE as int,
            ),
        ));
        lemma_compressed_diffs_match(cur, next, ch, RATE as int);
        crate::field::lemma_x_mul_comm(sp, ch.sponge_eval_indeterminate);
        crate::field::lemma_x_acc3(m, w, comp_diff);
        lemma_x_sub_self(ci2x);
        lemma_mul4_zero(d1, f_hash, f_absorb, accum_next);
        lemma_mul5_zero(d1, f_hash, f_absorb_init, f_squeeze, accum_diff);
        lemma_x_sub_self(x_one());
        lemma_x_mul_zero(sp_remains);
        lemma_mul4_zero(f_absorb_init, f_absorb, f_squeeze, sp_remains);
        lemma_x_add_zero();
    } else if rn2 == 1 {
        assert(ci2 == OPCODE_HASH);
        assert(sp2 == sp);
        lemma_x_sub_self(sp);
        lemma_x_sub_self(ci2x);
        lemma_mul4_zero(d1, f_hash, f_absorb, accum_next);
        lemma_mul5_zero(d1, f_hash, f_absorb_init, f_squeeze, accum_diff);
        lemma_x_sub_self(x_one());
        lemma_x_mul_zero(sp_remains);
        lemma_mul4_zero(f_absorb_init, f_absorb, f_squeeze, sp_remains);
        lemma_x_add_zero();
    } else {
        assert(sp2 == sp);
        lemma_x_sub_self(sp);
        lemma_deselector_zero(rn2x, 1, rn2 as int);
        lemma_mul4_zero(d1, f_hash, f_absorb, accum_next);
        lemma_mul5_zero(d1, f_hash, f_absorb_init, f_squeeze, accum_diff);
        lemma_x_mul_zero(x_sub(rn2x, x_one()));
        lemma_mul4_zero(f_absorb_init, f_absorb, f_squeeze, sp_remains);
        lemma_x_add_zero();
    }
}

/// Every transition constraint evaluates to zero on an adjacent pair of rows
/// of a well-formed, extended trace.
pub proof fn theorem_transition_constraints_vanish(
    cs: Seq<ConstraintCircuit>,
    t: Seq<Seq<Bfe>>,
    rc: Seq<Bfe>,
    mds: Seq<Bfe>,
    mds_inv: Seq<Bfe>,
    ch: HashTableChallenges,
    i: int,
    k: int,
)
    requires
        transition_circuits_ok(cs, mds, mds_inv),
        trace_rows_ok(t, rc),
        0 <= i,
        i + 1 < t.len(),
        trace_pair_ok(t, mds, mds_inv, i),
        0 <= k < cs.len(),
    ensures
        eval(
            cs[k],
            lift_row(t[i]),
            extension_row(t, ch, i),
            lift_row(t[i + 1]),
            extension_row(t, ch, i + 1),
            ch,
        ) == x_zero(),
{
    assert(eval(
        cs[k],
        lift_row(t[i]),
        extension_row(t, ch, i),
        lift_row(t[i + 1]),
        extension_row(t, ch, i + 1),
        ch,
    ) == transition_constraint_value(
        k,
        lift_row(t[i]),
        extension_row(t, ch, i),
        lift_row(t[i + 1]),
        extension_row(t, ch, i + 1),
        ch,
        mds,
        mds_inv,
    ));
    if k < 3 {
        lemma_transition_value_zero_rn(t, rc, mds, mds_inv, ch, i, k);
    } else if k < 5 {
        lemma_transition_value_zero_ci(t, rc, mds, mds_inv, ch, i, k);
    } else if k < 5 + STATE_SIZE {
        lemma_transition_value_zero_rescue(t, rc, mds, mds_inv, ch, i, k);
    } else if k < 23 {
        lemma_transition_value_zero_copy(t, rc, mds, mds_inv, ch, i, k);
    } else if k == 23 {
        lemma_transition_value_zero_hash_input(t, rc, mds, mds_inv, ch, i);
    } else if k == 24 {
        lemma_transition_value_zero_hash_digest(t, rc, mds, mds_inv, ch, i);
    } else {
        lemma_transition_value_zero_sponge(t, rc, mds, mds_inv, ch, i);
    }
}

/// The round-1 deselector evaluated at round number 1:
/// `∏_{j ∈ {0,2,…,9}} (1 − j) = 8! = 40320`.
proof fn lemma_deselector_value_at_round_one()
    ensures
        deselector_value(x_from_b(Bfe { v: 1 }), 1) == x_from_b(Bfe { v: 40320 }),
{
    let r = x_from_b(Bfe { v: 1 });
    assert(deselector_partial(r, 1, 0) == x_from_b(b_one()));
    lemma_x_from_b_sub(Bfe { v: 1 }, Bfe { v: 0 });
    assert(b_sub(Bfe { v: 1 }, Bfe { v: 0 }) == Bfe { v: 1 }) by (nonlinear_arith);
    lemma_x_from_b_mul(Bfe { v: 1 }, Bfe { v: 1 });
    assert(b_mul(Bfe { v: 1 }, Bfe { v: 1 }) == Bfe { v: 1 }) by (nonlinear_arith);
    assert(deselector_partial(r, 1, 1) == x_from_b(Bfe { v: 1 }));
    assert(deselector_partial(r, 1, 2) == x_from_b(Bfe { v: 1 }));
    lemma_x_from_b_sub(Bfe { v: 1 }, Bfe { v: 2 });
    assert(b_sub(Bfe { v: 1 }, Bfe { v: 2 }) == Bfe { v: 18446744069414584320 }) by (nonlinear_arith);
    lemma_x_from_b_mul(Bfe { v: 1 }, Bfe { v: 18446744069414584320 });
    assert(b_mul(Bfe { v: 1 }, Bfe { v: 18446744069414584320 }) == Bfe { v: 18446744069414584320 }) by (nonlinear_arith);
    assert(deselector_partial(r, 1, 3) == x_from_b(Bfe { v: 18446744069414584320 }));
    lemma_x_from_b_sub(Bfe { v: 1 }, Bfe { v: 3 });
    assert(b_sub(Bfe { v: 1 }, Bfe { v: 3 }) == Bfe { v: 18446744069414584319 }) by (nonlinear_arith);
    lemma_x_from_b_mul(Bfe { v: 18446744069414584320 }, Bfe { v: 18446744069414584319 });
    assert(b_mul(Bfe { v: 18446744069414584320 }, Bfe { v: 18446744069414584319 }) == Bfe { v: 2 }) by (nonlinear_arith);
    assert(deselector_partial(r, 1, 4) == x_from_b(Bfe { v: 2 }));
    lemma_x_from_b_sub(Bfe { v: 1 }, Bfe { v: 4 });
    assert(b_sub(Bfe { v: 1 }, Bfe { v: 4 }) == Bfe { v: 18446744069414584318 }) by (nonlinear_arith);
    lemma_x_from_b_mul(Bfe { v: 2 }, Bfe { v: 18446744069414584318 });
    assert(b_mul(Bfe { v: 2 }, Bfe { v: 18446744069414584318 }) == Bfe { v: 18446744069414584315 }) by (nonlinear_arith);
    assert(deselector_partial(r, 1, 5) == x_from_b(Bfe { v: 18446744069414584315 }));
    lemma_x_from_b_sub(Bfe { v: 1 }, Bfe { v: 5 });
    assert(b_sub(Bfe { v: 1 }, Bfe { v: 5 }) == Bfe { v: 18446744069414584317 }) by (nonlinear_arith);
    lemma_x_from_b_mul(Bfe { v: 18446744069414584315 }, Bfe { v: 18446744069414584317 });
    assert(b_mul(Bfe { v: 18446744069414584315 }, Bfe { v: 18446744069414584317 }) == Bfe { v: 24 }) by (nonlinear_arith);
    assert(deselector_partial(r, 1, 6) == x_from_b(Bfe { v: 24 }));
    lemma_x_from_b_sub(Bfe { v: 1 }, Bfe { v: 6 });
    assert(b_sub(Bfe { v: 1 }, Bfe { v: 6 }) == Bfe { v: 18446744069414584316 }) by (nonlinear_arith);
    lemma_x_from_b_mul(Bfe { v: 24 }, Bfe { v: 18446744069414584316 });
    assert(b_mul(Bfe { v: 24 }, Bfe { v: 18446744069414584316 }) == Bfe { v: 18446744069414584201 }) by (nonlinear_arith);
    assert(deselector_partial(r, 1, 7) == x_from_b(Bfe { v: 18446744069414584201 }));
    lemma_x_from_b_sub(Bfe { v: 1 }, Bfe { v: 7 });
    assert(b_sub(Bfe { v: 1 }, Bfe { v: 7 }) == Bfe { v: 18446744069414584315 }) by (nonlinear_arith);
    lemma_x_from_b_mul(Bfe { v: 18446744069414584201 }, Bfe { v: 18446744069414584315 });
    assert(b_mul(Bfe { v: 18446744069414584201 }, Bfe { v: 18446744069414584315 }) == Bfe { v: 720 }) by (nonlinear_arith);
    assert(deselector_partial(r, 1, 8) == x_from_b(Bfe { v: 720 }));
    lemma_x_from_b_sub(Bfe { v: 1 }, Bfe { v: 8 });
    assert(b_sub(Bfe { v: 1 }, Bfe { v: 8 }) == Bfe { v: 18446744069414584314 }) by (nonlinear_arith);
    lemma_x_from_b_mul(Bfe { v: 720 }, Bfe { v: 18446744069414584314 });
    assert(b_mul(Bfe { v: 720 }, Bfe { v: 18446744069414584314 }) == Bfe { v: 18446744069414579281 }) by (nonlinear_arith);
    assert(deselector_partial(r, 1, 9) == x_from_b(Bfe { v: 18446744069414579281 }));
    lemma_x_from_b_sub(Bfe { v: 1 }, Bfe { v: 9 });
    assert(b_sub(Bfe { v: 1 }, Bfe { v: 9 }) == Bfe { v: 18446744069414584313 }) by (nonlinear_arith);
    lemma_x_from_b_mul(Bfe { v: 18446744069414579281 }, Bfe { v: 18446744069414584313 });
    assert(b_mul(Bfe { v: 18446744069414579281 }, Bfe { v: 18446744069414584313 }) == Bfe { v: 40320 }) by (nonlinear_arith);
    assert(deselector_partial(r, 1, 10) == x_from_b(Bfe { v: 40320 }));
}

/// Consistency constraint 1 is sound: on a first-round `absorb_init` row
/// whose capacity flag column STATE10 holds anything but one, it does not
/// vanish — the AIR enforces the domain-separation value.
#[verifier::rlimit(100)]
pub proof fn theorem_absorb_init_capacity_flag_enforced(
    cs: Seq<ConstraintCircuit>,
    rc: Seq<Bfe>,
    row: Seq<Bfe>,
    ch: HashTableChallenges,
    ext: Seq<Xfe>,
    nb: Seq<Xfe>,
    ne: Seq<Xfe>,
)
    requires
        consistency_circuits_ok(cs, rc),
        row.len() == BASE_WIDTH,
        b_row_wf(row),
        row[COL_ROUND_NUMBER as int] == (Bfe { v: 1 }),
        row[COL_CI as int] == (Bfe { v: OPCODE_ABSORB_INIT }),
        row[COL_STATE0 + 10] != (Bfe { v: 1 }),
    ensures
        eval(cs[1], lift_row(row), ext, nb, ne, ch) != x_zero(),
{
    let base = lift_row(row);
    let st10 = row[COL_STATE0 + 10];
    assert(at(base, COL_ROUND_NUMBER as int) == x_from_b(Bfe { v: 1 }));
    assert(at(base, COL_CI as int) == x_from_b(Bfe { v: OPCODE_ABSORB_INIT }));
    assert(at(base, COL_STATE0 + 10) == x_from_b(st10));
    assert(eval(cs[1], base, ext, nb, ne, ch) == consistency_constraint_value(1, base, ext, ch, rc));
    lemma_deselector_value_at_round_one();
    lemma_x_from_b_sub(Bfe { v: OPCODE_ABSORB_INIT }, Bfe { v: OPCODE_HASH });
    lemma_x_from_b_sub(Bfe { v: OPCODE_ABSORB_INIT }, Bfe { v: OPCODE_ABSORB });
    lemma_x_from_b_sub(Bfe { v: OPCODE_ABSORB_INIT }, Bfe { v: OPCODE_SQUEEZE });
    lemma_x_from_b_sub(st10, Bfe { v: 1 });
    let diff = b_sub(st10, Bfe { v: 1 });
    assert(b_sub(Bfe { v: OPCODE_ABSORB_INIT }, Bfe { v: OPCODE_HASH }) == Bfe { v: 24 })
        by (nonlinear_arith);
    assert(b_sub(Bfe { v: OPCODE_ABSORB_INIT }, Bfe { v: OPCODE_ABSORB }) == Bfe {
        v: 18446744069414584313,
    }) by (nonlinear_arith);
    assert(b_sub(Bfe { v: OPCODE_ABSORB_INIT }, Bfe { v: OPCODE_SQUEEZE }) == Bfe {
        v: 18446744069414584305,
    }) by (nonlinear_arith);
    lemma_x_from_b_mul(Bfe { v: 40320 }, Bfe { v: 24 });
    assert(b_mul(Bfe { v: 40320 }, Bfe { v: 24 }) == Bfe { v: 967680 }) by (nonlinear_arith);
    lemma_x_from_b_mul(Bfe { v: 967680 }, Bfe { v: 18446744069414584313 });
    assert(b_mul(Bfe { v: 967680 }, Bfe { v: 18446744069414584313 }) == Bfe {
        v: 18446744069406842881,
    }) by (nonlinear_arith);
    lemma_x_from_b_mul(Bfe { v: 18446744069406842881 }, Bfe { v: 18446744069414584305 });
    assert(b_mul(Bfe { v: 18446744069406842881 }, Bfe { v: 18446744069414584305 }) == Bfe {
        v: 123863040,
    }) by (nonlinear_arith);
    lemma_x_from_b_mul(Bfe { v: 123863040 }, diff);
    assert(eval(cs[1], base, ext, nb, ne, ch) == x_from_b(b_mul(Bfe { v: 123863040 }, diff)));
    lemma_b_sub_eq_zero(st10, Bfe { v: 1 });
    if eval(cs[1], base, ext, nb, ne, ch) == x_zero() {
        assert(b_mul(Bfe { v: 123863040 }, diff) == b_zero());
        assert(b_mul(Bfe { v: 13469051076358280274 }, Bfe { v: 123863040 }) == b_one())
            by (nonlinear_arith);
        lemma_b_mul_cancel(Bfe { v: 123863040 }, Bfe { v: 13469051076358280274 }, diff);
        assert(false);
    }
}

/// Consistency constraint 4 is sound: on a first-round `absorb_init` row
/// whose capacity column STATE12 holds anything non-zero, it does not vanish
/// — the AIR forces that capacity lane to zero.
#[verifier::rlimit(100)]
pub proof fn theorem_first_round_capacity_zero_enforced(
    cs: Seq<ConstraintCircuit>,
    rc: Seq<Bfe>,
    row: Seq<Bfe>,
    ch: HashTableChallenges,
    ext: Seq<Xfe>,
    nb: Seq<Xfe>,
    ne: Seq<Xfe>,
)
    requires
        consistency_circuits_ok(cs, rc),
        row.len() == BASE_WIDTH,
        b_row_wf(row),
        row[COL_ROUND_NUMBER as int] == (Bfe { v: 1 }),
        row[COL_CI as int] == (Bfe { v: OPCODE_ABSORB_INIT }),
        row[COL_STATE0 + 12] != (Bfe { v: 0 }),
    ensures
        eval(cs[4], lift_row(row), ext, nb, ne, ch) != x_zero(),
{
    let base = lift_row(row);
    let st12 = row[COL_STATE0 + 12];
    assert(at(base, COL_ROUND_NUMBER as int) == x_from_b(Bfe { v: 1 }));
    assert(at(base, COL_CI as int) == x_from_b(Bfe { v: OPCODE_ABSORB_INIT }));
    assert(at(base, COL_STATE0 + 12) == x_from_b(st12));
    assert(eval(cs[4], base, ext, nb, ne, ch) == consistency_constraint_value(4, base, ext, ch, rc));
    lemma_deselector_value_at_round_one();
    lemma_x_from_b_sub(Bfe { v: OPCODE_ABSORB_INIT }, Bfe { v: OPCODE_ABSORB });
    lemma_x_from_b_sub(Bfe { v: OPCODE_ABSORB_INIT }, Bfe { v: OPCODE_SQUEEZE });
    assert(b_sub(Bfe { v: OPCODE_ABSORB_INIT }, Bfe { v: OPCODE_ABSORB }) == Bfe {
        v: 18446744069414584313,
    }) by (nonlinear_arith);
    assert(b_sub(Bfe { v: OPCODE_ABSORB_INIT }, Bfe { v: OPCODE_SQUEEZE }) == Bfe {
        v: 18446744069414584305,
    }) by (nonlinear_arith);
    lemma_x_from_b_mul(Bfe { v: 40320 }, Bfe { v: 18446744069414584313 });
    assert(b_mul(Bfe { v: 40320 }, Bfe { v: 18446744069414584313 }) == Bfe {
        v: 18446744069414261761,
    }) by (nonlinear_arith);
    lemma_x_from_b_mul(Bfe { v: 18446744069414261761 }, Bfe { v: 18446744069414584305 });
    assert(b_mul(Bfe { v: 18446744069414261761 }, Bfe { v: 18446744069414584305 }) == Bfe {
        v: 5160960,
    }) by (nonlinear_arith);
    lemma_x_from_b_mul(Bfe { v: 5160960 }, st12);
    assert(eval(cs[4], base, ext, nb, ne, ch) == x_from_b(b_mul(Bfe { v: 5160960 }, st12)));
    if eval(cs[4], base, ext, nb, ne, ch) == x_zero() {
        assert(b_mul(Bfe { v: 5160960 }, st12) == b_zero());
        assert(b_mul(Bfe { v: 9662576652550793119 }, Bfe { v: 5160960 }) == b_one())
            by (nonlinear_arith);
        lemma_b_mul_cancel(Bfe { v: 5160960 }, Bfe { v: 9662576652550793119 }, st12);
        assert(false);
    }
}

} // verus!