//! End-to-end tests of the trace filler, the extension filler, and the four
//! constraint families on concrete traces.

use triton_air::air::ExtHashTable;
use triton_air::challenges::HashTableChallenges;
use triton_air::field::Bfe;
use triton_air::field::Xfe;
use triton_air::field::P;
use triton_air::hash_table::AlgebraicExecutionTrace;
use triton_air::hash_table::HashTable;
use triton_air::opcodes::instruction_opcodes;
use triton_air::opcodes::OPCODE_ABSORB;
use triton_air::opcodes::OPCODE_ABSORB_INIT;
use triton_air::opcodes::OPCODE_HASH;
use triton_air::opcodes::OPCODE_SQUEEZE;
use triton_air::rescue::RescueParameters;
use triton_opcodes::instruction::Instruction;

fn modmul(a: u64, b: u64) -> u64 {
    ((a as u128 * b as u128) % (P as u128)) as u64
}

fn modadd(a: u64, b: u64) -> u64 {
    ((a as u128 + b as u128) % (P as u128)) as u64
}

fn modpow(mut base: u64, mut exp: u128) -> u64 {
    let mut acc: u64 = 1;
    while exp > 0 {
        if exp & 1 == 1 {
            acc = modmul(acc, base);
        }
        base = modmul(base, base);
        exp >>= 1;
    }
    acc
}

/// The inverse of 7 modulo `P - 1`, so that `x ↦ x^7` can be undone.
fn inverse_of_seven() -> u128 {
    let m: i128 = (P - 1) as i128;
    let (mut r0, mut r1): (i128, i128) = (m, 7);
    let (mut t0, mut t1): (i128, i128) = (0, 1);
    while r1 != 0 {
        let q = r0 / r1;
        let r2 = r0 - q * r1;
        r0 = r1;
        r1 = r2;
        let t2 = t0 - q * t1;
        t0 = t1;
        t1 = t2;
    }
    assert_eq!(r0, 1);
    ((t0 % m + m) % m) as u128
}

fn xfe3(a: u64, b: u64, c: u64) -> Xfe {
    Xfe { c0: Bfe::new(a), c1: Bfe::new(b), c2: Bfe::new(c) }
}

fn xfe(a: u64) -> Xfe {
    Xfe::from_b(Bfe::new(a))
}

/// Identity MDS matrix, its (identity) inverse, and arbitrary non-zero round
/// constants.
fn test_params() -> RescueParameters {
    let mut mds = vec![Bfe::new(0); 256];
    let mut i = 0;
    while i < 16 {
        mds[17 * i] = Bfe::new(1);
        i += 1;
    }
    let mds_inv = mds.clone();
    let mut round_constants = Vec::new();
    let mut c: u64 = 0;
    while c < 256 {
        round_constants.push(Bfe::new(c * 1234567 + 89));
        c += 1;
    }
    RescueParameters { mds, mds_inv, round_constants }
}

fn test_challenges() -> HashTableChallenges {
    HashTableChallenges {
        hash_input_eval_indeterminate: xfe3(11, 3, 1),
        hash_digest_eval_indeterminate: xfe3(13, 5, 2),
        sponge_eval_indeterminate: xfe3(17, 7, 3),
        ci_weight: xfe3(19, 2, 4),
        hash_state_weight0: xfe3(23, 1, 0),
        hash_state_weight1: xfe3(29, 0, 1),
        hash_state_weight2: xfe3(31, 4, 0),
        hash_state_weight3: xfe3(37, 0, 2),
        hash_state_weight4: xfe3(41, 5, 0),
        hash_state_weight5: xfe3(43, 0, 3),
        hash_state_weight6: xfe3(47, 6, 0),
        hash_state_weight7: xfe3(53, 0, 4),
        hash_state_weight8: xfe3(59, 7, 0),
        hash_state_weight9: xfe3(61, 0, 5),
        hash_state_weight10: xfe3(67, 8, 0),
        hash_state_weight11: xfe3(71, 0, 6),
        hash_state_weight12: xfe3(73, 9, 0),
        hash_state_weight13: xfe3(79, 0, 7),
        hash_state_weight14: xfe3(83, 10, 0),
        hash_state_weight15: xfe3(89, 0, 8),
    }
}

/// One row of the hash table in column order: round number, current
/// instruction, sixteen state columns, thirty-two round-constant columns.
fn make_row(rn: u64, ci: u64, state: &[u64; 16], consts: &[u64; 32]) -> Vec<Bfe> {
    let mut row = Vec::new();
    row.push(Bfe::new(rn));
    row.push(Bfe::new(ci));
    for j in 0..16 {
        row.push(Bfe::new(state[j]));
    }
    for c in 0..32 {
        row.push(Bfe::new(consts[c]));
    }
    row
}

/// The nine states of one permutation (round numbers 1 through 9), built so
/// that each transition satisfies the Rescue round relation with the identity
/// MDS matrix: `next = (cur^7 + c_a)^(1/7) + c_b`, lane by lane.
fn permutation_states(input: [u64; 16], params: &RescueParameters) -> Vec<[u64; 16]> {
    let inv7 = inverse_of_seven();
    let mut states = vec![input];
    for round in 1..=8usize {
        let cur = *states.last().unwrap();
        let mut next = [0u64; 16];
        for j in 0..16 {
            let ca = params.round_constants[32 * (round - 1) + j].v;
            let cb = params.round_constants[32 * (round - 1) + 16 + j].v;
            let v = modadd(modpow(cur[j], 7), ca);
            next[j] = modadd(modpow(v, inv7), cb);
        }
        states.push(next);
    }
    states
}

/// The rows a single `hash` instruction appends to the hash trace.
fn hash_instruction_rows(input: [u64; 16], params: &RescueParameters) -> Vec<Vec<Bfe>> {
    let states = permutation_states(input, params);
    let mut rows = Vec::new();
    for k in 0..9usize {
        let rn = (k + 1) as u64;
        let mut consts = [0u64; 32];
        if rn <= 8 {
            for c in 0..32 {
                consts[c] = params.round_constants[32 * (rn as usize - 1) + c].v;
            }
        }
        rows.push(make_row(rn, OPCODE_HASH, &states[k], &consts));
    }
    rows
}

fn lift(row: &Vec<Bfe>) -> Vec<Xfe> {
    row.iter().map(|b| Xfe::from_b(*b)).collect()
}

/// Parse the source, simulate the `hash` instructions, fill, pad, and extend
/// the hash table, and return base and extension tables with the parameters.
fn parse_simulate_pad_extend(
    source_code: &str,
    params: &RescueParameters,
    challenges: &HashTableChallenges,
) -> (Vec<Vec<Bfe>>, Vec<Vec<Xfe>>) {
    let words: Vec<&str> = source_code.split_whitespace().collect();
    assert_eq!(*words.last().unwrap(), "halt");
    let mut stack = [0u64; 16];
    let mut hash_rows: Vec<Vec<Bfe>> = Vec::new();
    for word in &words {
        if *word == "hash" {
            let mut input = [0u64; 16];
            for j in 0..10 {
                input[j] = stack[j];
            }
            let states = permutation_states(input, params);
            hash_rows.extend(hash_instruction_rows(input, params));
            let last = states.last().unwrap();
            for j in 0..5 {
                stack[j] = last[j];
            }
            for j in 5..10 {
                stack[j] = 0;
            }
        }
    }
    let real_length = hash_rows.len();
    let mut height = 1;
    while height < real_length {
        height *= 2;
    }
    let mut table: Vec<Vec<Bfe>> = vec![vec![Bfe::new(0); 50]; height];
    let aet = AlgebraicExecutionTrace { sponge_trace: Vec::new(), hash_trace: hash_rows };
    HashTable::fill_trace(&mut table, &aet);
    HashTable::pad_trace(&mut table, real_length);
    let mut ext: Vec<Vec<Xfe>> = vec![vec![Xfe::zero(); 3]; height];
    HashTable::extend(&table, &mut ext, challenges);
    (table, ext)
}

#[test]
fn hash_table_satisfies_constraints_test() {
    let source_code = "hash hash hash halt";
    let params = test_params();
    let challenges = test_challenges();
    let (table, ext) = parse_simulate_pad_extend(source_code, &params, &challenges);
    assert_eq!(table.len(), ext.len());
    let num_rows = table.len();
    assert_eq!(num_rows, 32);

    let initial = ExtHashTable::ext_initial_constraints_as_circuits();
    let consistency = ExtHashTable::ext_consistency_constraints_as_circuits(&params);
    let transition = ExtHashTable::ext_transition_constraints_as_circuits(&params);
    let terminal = ExtHashTable::ext_terminal_constraints_as_circuits();

    let first_base_row = lift(&table[0]);
    for (idx, c) in initial.iter().enumerate() {
        let v = c.evaluate_single_row(&first_base_row, &ext[0], &challenges);
        assert!(v == Xfe::zero(), "Initial constraint {idx} failed.");
    }

    for row_idx in 0..num_rows {
        let base_row = lift(&table[row_idx]);
        for (constraint_idx, c) in consistency.iter().enumerate() {
            let v = c.evaluate_single_row(&base_row, &ext[row_idx], &challenges);
            assert!(
                v == Xfe::zero(),
                "consistency constraint {constraint_idx} failed in row {row_idx}"
            );
        }
    }

    for row_idx in 0..num_rows - 1 {
        let base_row = lift(&table[row_idx]);
        let next_base_row = lift(&table[row_idx + 1]);
        for (constraint_idx, c) in transition.iter().enumerate() {
            let v = c.evaluate_dual_row(
                &base_row,
                &ext[row_idx],
                &next_base_row,
                &ext[row_idx + 1],
                &challenges,
            );
            assert!(
                v == Xfe::zero(),
                "transition constraint {constraint_idx} failed in row {row_idx}",
            );
        }
    }

    let last_base_row = lift(&table[num_rows - 1]);
    for (idx, c) in terminal.iter().enumerate() {
        let v = c.evaluate_single_row(&last_base_row, &ext[num_rows - 1], &challenges);
        assert!(v == Xfe::zero(), "Terminal constraint {idx} failed.");
    }
}

#[test]
fn opcodes_come_from_the_instruction_set() {
    let ops = instruction_opcodes();
    assert_eq!(ops.0, OPCODE_HASH);
    assert_eq!(ops.1, OPCODE_ABSORB_INIT);
    assert_eq!(ops.2, OPCODE_ABSORB);
    assert_eq!(ops.3, OPCODE_SQUEEZE);
    assert_eq!(Instruction::Hash.opcode() as u64, OPCODE_HASH);
    assert_eq!(Instruction::AbsorbInit.opcode() as u64, OPCODE_ABSORB_INIT);
    assert_eq!(Instruction::Absorb.opcode() as u64, OPCODE_ABSORB);
    assert_eq!(Instruction::Squeeze.opcode() as u64, OPCODE_SQUEEZE);
}

#[test]
fn padding_is_idempotent() {
    let params = test_params();
    let rows = hash_instruction_rows([3; 16], &params);
    let mut table: Vec<Vec<Bfe>> = vec![vec![Bfe::new(5); 50]; 16];
    let aet = AlgebraicExecutionTrace { sponge_trace: Vec::new(), hash_trace: rows };
    HashTable::fill_trace(&mut table, &aet);
    HashTable::pad_trace(&mut table, 9);
    let once = table.clone();
    HashTable::pad_trace(&mut table, 9);
    assert_eq!(table, once);
    for i in 9..16 {
        assert_eq!(table[i][1].v, OPCODE_HASH);
    }
}

#[test]
fn extension_is_deterministic() {
    let params = test_params();
    let challenges = test_challenges();
    let (table, ext) = parse_simulate_pad_extend("hash halt", &params, &challenges);
    let mut ext2: Vec<Vec<Xfe>> = vec![vec![Xfe::zero(); 3]; table.len()];
    HashTable::extend(&table, &mut ext2, &challenges);
    assert_eq!(ext, ext2);
}

#[test]
fn hash_only_trace_leaves_sponge_evaluation_initial() {
    let params = test_params();
    let challenges = test_challenges();
    let (_, ext) = parse_simulate_pad_extend("hash hash halt", &params, &challenges);
    for row in &ext {
        assert_eq!(row[2], Xfe::one());
    }
}

#[test]
fn absorb_init_only_trace_leaves_hash_input_evaluation_initial() {
    // one `absorb_init` row at round 1, padded: the hash-input running
    // evaluation never updates.
    let mut state = [0u64; 16];
    state[10] = 1;
    let row = make_row(1, OPCODE_ABSORB_INIT, &state, &[0u64; 32]);
    let mut table: Vec<Vec<Bfe>> = vec![vec![Bfe::new(0); 50]; 4];
    let aet = AlgebraicExecutionTrace { sponge_trace: vec![row], hash_trace: Vec::new() };
    HashTable::fill_trace(&mut table, &aet);
    HashTable::pad_trace(&mut table, 1);
    let challenges = test_challenges();
    let mut ext: Vec<Vec<Xfe>> = vec![vec![Xfe::zero(); 3]; 4];
    HashTable::extend(&table, &mut ext, &challenges);
    for row in &ext {
        assert_eq!(row[0], Xfe::one());
    }
    // the sponge evaluation did absorb the first row
    assert!(ext[0][2] != Xfe::one());
}

#[test]
fn round_number_machine_accepts_legal_sequences() {
    let params = test_params();
    let transition = ExtHashTable::ext_transition_constraints_as_circuits(&params);
    let challenges = test_challenges();
    let empty = [0u64; 16];
    let consts = [0u64; 32];
    let sequence: Vec<u64> =
        vec![1, 2, 3, 4, 5, 6, 7, 8, 9, 1, 2, 3, 4, 5, 6, 7, 8, 9, 0, 0];
    let rows: Vec<Vec<Bfe>> =
        sequence.iter().map(|rn| make_row(*rn, OPCODE_HASH, &empty, &consts)).collect();
    let ext_row = vec![Xfe::one(); 3];
    for i in 0..rows.len() - 1 {
        let cur = lift(&rows[i]);
        let next = lift(&rows[i + 1]);
        for k in 0..3 {
            let v = transition[k].evaluate_dual_row(&cur, &ext_row, &next, &ext_row, &challenges);
            assert!(v == Xfe::zero(), "round-number constraint {k} failed at pair {i}");
        }
    }
    // a mutated step `1 -> 3` violates the increment constraint
    let cur = lift(&make_row(1, OPCODE_HASH, &empty, &consts));
    let next = lift(&make_row(3, OPCODE_HASH, &empty, &consts));
    let v = transition[2].evaluate_dual_row(&cur, &ext_row, &next, &ext_row, &challenges);
    assert!(v != Xfe::zero());
}

#[test]
fn instruction_is_free_on_padding_rows_and_restricted_elsewhere() {
    let params = test_params();
    let consistency = ExtHashTable::ext_consistency_constraints_as_circuits(&params);
    let challenges = test_challenges();
    let ext_row = vec![Xfe::one(); 3];
    let state = [0u64; 16];
    let consts = [0u64; 32];
    // on a round-0 row the current instruction may be anything
    for ci in [OPCODE_HASH, OPCODE_ABSORB_INIT, 12345] {
        let row = lift(&make_row(0, ci, &state, &consts));
        assert!(consistency[0].evaluate_single_row(&row, &ext_row, &challenges) == Xfe::zero());
    }
    // on rounds one and up it must be one of the four sponge-related opcodes
    for ci in [OPCODE_HASH, OPCODE_ABSORB_INIT, OPCODE_ABSORB, OPCODE_SQUEEZE] {
        let row = lift(&make_row(2, ci, &state, &consts));
        assert!(consistency[0].evaluate_single_row(&row, &ext_row, &challenges) == Xfe::zero());
    }
    let row = lift(&make_row(2, 7, &state, &consts));
    assert!(consistency[0].evaluate_single_row(&row, &ext_row, &challenges) != Xfe::zero());
}

#[test]
fn capacity_is_enforced_on_first_rounds() {
    let params = test_params();
    let consistency = ExtHashTable::ext_consistency_constraints_as_circuits(&params);
    let challenges = test_challenges();
    let ext_row = vec![Xfe::one(); 3];
    let mut state = [7u64; 16];
    state[10] = 1;
    for c in 11..16 {
        state[c] = 0;
    }
    let mut consts = [0u64; 32];
    for c in 0..32 {
        consts[c] = params.round_constants[c].v;
    }
    let good = lift(&make_row(1, OPCODE_ABSORB_INIT, &state, &consts));
    assert!(
        consistency[1].evaluate_single_row(&good, &ext_row, &challenges) == Xfe::zero()
    );
    assert!(
        consistency[4].evaluate_single_row(&good, &ext_row, &challenges) == Xfe::zero()
    );
    // mutating STATE10 from 1 to 0 breaks the second consistency constraint
    let mut mutated = state;
    mutated[10] = 0;
    let bad = lift(&make_row(1, OPCODE_ABSORB_INIT, &mutated, &consts));
    assert!(consistency[1].evaluate_single_row(&bad, &ext_row, &challenges) != Xfe::zero());
    // mutating STATE12 to something non-zero breaks the fifth one
    let mut mutated = state;
    mutated[12] = 3;
    let bad = lift(&make_row(1, OPCODE_ABSORB_INIT, &mutated, &consts));
    assert!(consistency[4].evaluate_single_row(&bad, &ext_row, &challenges) != Xfe::zero());
}

#[test]
fn round_constants_are_enforced() {
    let params = test_params();
    let consistency = ExtHashTable::ext_consistency_constraints_as_circuits(&params);
    let challenges = test_challenges();
    let ext_row = vec![Xfe::one(); 3];
    let state = [5u64; 16];
    let mut consts = [0u64; 32];
    for c in 0..32 {
        consts[c] = params.round_constants[32 * 2 + c].v;
    }
    let good = lift(&make_row(3, OPCODE_ABSORB, &state, &consts));
    for c in 0..32 {
        let v = consistency[8 + c].evaluate_single_row(&good, &ext_row, &challenges);
        assert!(v == Xfe::zero(), "round-constant constraint {c} failed");
    }
    let mut mutated = consts;
    mutated[11] = modadd(mutated[11], 1);
    let bad = lift(&make_row(3, OPCODE_ABSORB, &state, &mutated));
    assert!(consistency[8 + 11].evaluate_single_row(&bad, &ext_row, &challenges) != Xfe::zero());
}

#[test]
fn running_hash_digest_accumulates() {
    // challenges: digest indeterminate 2, all weights 1
    let mut challenges = test_challenges();
    challenges.hash_digest_eval_indeterminate = xfe(2);
    challenges.hash_state_weight0 = xfe(1);
    challenges.hash_state_weight1 = xfe(1);
    challenges.hash_state_weight2 = xfe(1);
    challenges.hash_state_weight3 = xfe(1);
    challenges.hash_state_weight4 = xfe(1);
    // a first row accumulating 1·2 + 5 = 7, then a row with digest lanes
    // (1,2,3,4,5): the new value is 7·2 + 15 = 29.
    let mut s1 = [0u64; 16];
    for j in 0..5 {
        s1[j] = 1;
    }
    let mut s2 = [0u64; 16];
    for j in 0..5 {
        s2[j] = (j + 1) as u64;
    }
    let rows = vec![
        make_row(9, OPCODE_HASH, &s1, &[0u64; 32]),
        make_row(9, OPCODE_HASH, &s2, &[0u64; 32]),
    ];
    let mut ext: Vec<Vec<Xfe>> = vec![vec![Xfe::zero(); 3]; 2];
    HashTable::extend(&rows, &mut ext, &challenges);
    assert_eq!(ext[0][1], xfe(7));
    assert_eq!(ext[1][1], xfe(29));
}

#[test]
fn absorb_difference_feeds_the_sponge_evaluation() {
    // previous rate all ones, current rate (2,…,11), all challenges 1:
    // the update adds the instruction weight times the `absorb` opcode and
    // the sum of the differences 1 + 2 + … + 10 = 55.
    let mut challenges = test_challenges();
    challenges.sponge_eval_indeterminate = xfe(1);
    challenges.ci_weight = xfe(1);
    challenges.hash_state_weight0 = xfe(1);
    challenges.hash_state_weight1 = xfe(1);
    challenges.hash_state_weight2 = xfe(1);
    challenges.hash_state_weight3 = xfe(1);
    challenges.hash_state_weight4 = xfe(1);
    challenges.hash_state_weight5 = xfe(1);
    challenges.hash_state_weight6 = xfe(1);
    challenges.hash_state_weight7 = xfe(1);
    challenges.hash_state_weight8 = xfe(1);
    challenges.hash_state_weight9 = xfe(1);
    let mut prev = [0u64; 16];
    for j in 0..10 {
        prev[j] = 1;
    }
    let mut cur = [0u64; 16];
    for j in 0..10 {
        cur[j] = (j + 2) as u64;
    }
    let rows = vec![
        make_row(0, OPCODE_HASH, &prev, &[0u64; 32]),
        make_row(1, OPCODE_ABSORB, &cur, &[0u64; 32]),
    ];
    let mut ext: Vec<Vec<Xfe>> = vec![vec![Xfe::zero(); 3]; 2];
    HashTable::extend(&rows, &mut ext, &challenges);
    // incoming sponge value is the default initial 1
    assert_eq!(ext[0][2], xfe(1));
    assert_eq!(ext[1][2], xfe(1 + OPCODE_ABSORB + 55));

    // the transition circuit accepts exactly this update, with incoming 0
    let params = test_params();
    let transition = ExtHashTable::ext_transition_constraints_as_circuits(&params);
    let cur_ext = vec![Xfe::one(), Xfe::one(), Xfe::zero()];
    let good_next = vec![Xfe::one(), Xfe::one(), xfe(OPCODE_ABSORB + 55)];
    let v = transition[25].evaluate_dual_row(
        &lift(&rows[0]),
        &cur_ext,
        &lift(&rows[1]),
        &good_next,
        &challenges,
    );
    assert!(v == Xfe::zero());
    let bad_next = vec![Xfe::one(), Xfe::one(), xfe(OPCODE_ABSORB + 54)];
    let v = transition[25].evaluate_dual_row(
        &lift(&rows[0]),
        &cur_ext,
        &lift(&rows[1]),
        &bad_next,
        &challenges,
    );
    assert!(v != Xfe::zero());
}
