//! Tests of the quotient engine, the batched inversion, the degree bounds,
//! and the interpolation-based degree check.

use triton_air::air::ExtHashTable;
use triton_air::challenges::HashTableChallenges;
use triton_air::field::xfe_batch_inversion;
use triton_air::field::xfe_inverse;
use triton_air::field::Bfe;
use triton_air::field::Xfe;
use triton_air::hash_table::AlgebraicExecutionTrace;
use triton_air::hash_table::HashTable;
use triton_air::field::P;
use triton_air::opcodes::OPCODE_HASH;
use triton_air::quotient::FriDomain;
use triton_air::rescue::RescueParameters;

use twenty_first::math::b_field_element::BFieldElement;
use twenty_first::math::polynomial::Polynomial;
use twenty_first::math::traits::PrimitiveRootOfUnity;
use twenty_first::math::x_field_element::XFieldElement;

fn xfe3(a: u64, b: u64, c: u64) -> Xfe {
    Xfe { c0: Bfe::new(a), c1: Bfe::new(b), c2: Bfe::new(c) }
}

fn xfe(a: u64) -> Xfe {
    Xfe::from_b(Bfe::new(a))
}

fn to_ext(a: &Xfe) -> XFieldElement {
    XFieldElement::new([
        BFieldElement::new(a.c0.v),
        BFieldElement::new(a.c1.v),
        BFieldElement::new(a.c2.v),
    ])
}

fn from_ext(a: XFieldElement) -> Xfe {
    Xfe {
        c0: Bfe::new(a.coefficients[0].value()),
        c1: Bfe::new(a.coefficients[1].value()),
        c2: Bfe::new(a.coefficients[2].value()),
    }
}

fn test_params() -> RescueParameters {
    let mut mds = vec![Bfe::new(0); 256];
    let mut i = 0;
    while i < 16 {
        mds[17 * i] = Bfe::new(1);
        i += 1;
    }
    let mds_inv = mds.clone();
    let mut round_constants = Vec::new();
    let mut c: u64 = 0;
    while c < 256 {
        round_constants.push(Bfe::new(c * 1234567 + 89));
        c += 1;
    }
    RescueParameters { mds, mds_inv, round_constants }
}

fn test_challenges() -> HashTableChallenges {
    HashTableChallenges {
        hash_input_eval_indeterminate: xfe3(11, 3, 1),
        hash_digest_eval_indeterminate: xfe3(13, 5, 2),
        sponge_eval_indeterminate: xfe3(17, 7, 3),
        ci_weight: xfe3(19, 2, 4),
        hash_state_weight0: xfe3(23, 1, 0),
        hash_state_weight1: xfe3(29, 0, 1),
        hash_state_weight2: xfe3(31, 4, 0),
        hash_state_weight3: xfe3(37, 0, 2),
        hash_state_weight4: xfe3(41, 5, 0),
        hash_state_weight5: xfe3(43, 0, 3),
        hash_state_weight6: xfe3(47, 6, 0),
        hash_state_weight7: xfe3(53, 0, 4),
        hash_state_weight8: xfe3(59, 7, 0),
        hash_state_weight9: xfe3(61, 0, 5),
        hash_state_weight10: xfe3(67, 8, 0),
        hash_state_weight11: xfe3(71, 0, 6),
        hash_state_weight12: xfe3(73, 9, 0),
        hash_state_weight13: xfe3(79, 0, 7),
        hash_state_weight14: xfe3(83, 10, 0),
        hash_state_weight15: xfe3(89, 0, 8),
    }
}

#[test]
fn batch_inverse_round_trips() {
    let values = vec![xfe(2), xfe3(3, 5, 7), xfe(1), xfe3(0, 1, 0), xfe3(12345, 678, 9)];
    let inverses = xfe_batch_inversion(&values);
    assert_eq!(inverses.len(), values.len());
    for j in 0..values.len() {
        assert_eq!(inverses[j].mul(values[j]), Xfe::one());
    }
    let single = xfe_inverse(xfe3(99, 1, 3));
    assert_eq!(single.mul(xfe3(99, 1, 3)), Xfe::one());
}

#[test]
fn degenerate_table_yields_empty_quotients() {
    // padded height 0 with an empty domain: the engine must skip the batched
    // inversion and return one empty codeword per constraint.
    let params = test_params();
    let challenges = test_challenges();
    let fri_domain = FriDomain { values: Vec::new(), omicron: xfe(1) };
    let codewords: Vec<Vec<Xfe>> = vec![Vec::new(); 53];
    let quotients = ExtHashTable::all_quotients(&fri_domain, &codewords, &challenges, 0, &params);
    assert_eq!(quotients.len(), 5 + 26 + 40 + 0);
    for q in &quotients {
        assert!(q.is_empty());
    }
}

fn modmul(a: u64, b: u64) -> u64 {
    ((a as u128 * b as u128) % (P as u128)) as u64
}

fn modadd(a: u64, b: u64) -> u64 {
    ((a as u128 + b as u128) % (P as u128)) as u64
}

fn modpow(mut base: u64, mut exp: u128) -> u64 {
    let mut acc: u64 = 1;
    while exp > 0 {
        if exp & 1 == 1 {
            acc = modmul(acc, base);
        }
        base = modmul(base, base);
        exp >>= 1;
    }
    acc
}

/// The inverse of 7 modulo `P - 1`, so that `x ↦ x^7` can be undone.
fn inverse_of_seven() -> u128 {
    let m: i128 = (P - 1) as i128;
    let (mut r0, mut r1): (i128, i128) = (m, 7);
    let (mut t0, mut t1): (i128, i128) = (0, 1);
    while r1 != 0 {
        let q = r0 / r1;
        let r2 = r0 - q * r1;
        r0 = r1;
        r1 = r2;
        let t2 = t0 - q * t1;
        t0 = t1;
        t1 = t2;
    }
    assert_eq!(r0, 1);
    ((t0 % m + m) % m) as u128
}

/// The rows of one `hash` instruction on input `(1, 2, …, 10)` and six zero
/// capacity lanes, built to satisfy the Rescue round relation with the
/// identity MDS matrix.
fn one_hash_rows(params: &RescueParameters) -> Vec<Vec<Bfe>> {
    let inv7 = inverse_of_seven();
    let mut state = [0u64; 16];
    for j in 0..10 {
        state[j] = (j + 1) as u64;
    }
    let mut rows = Vec::new();
    for k in 0..9usize {
        let rn = (k + 1) as u64;
        let mut row = Vec::new();
        row.push(Bfe::new(rn));
        row.push(Bfe::new(OPCODE_HASH));
        for j in 0..16 {
            row.push(Bfe::new(state[j]));
        }
        for c in 0..32 {
            let value = if rn <= 8 { params.round_constants[32 * (rn as usize - 1) + c].v } else { 0 };
            row.push(Bfe::new(value));
        }
        rows.push(row);
        if rn <= 8 {
            let mut next = [0u64; 16];
            for j in 0..16 {
                let ca = params.round_constants[32 * (rn as usize - 1) + j].v;
                let cb = params.round_constants[32 * (rn as usize - 1) + 16 + j].v;
                let v = modadd(modpow(state[j], 7), ca);
                next[j] = modadd(modpow(v, inv7), cb);
            }
            state = next;
        }
    }
    rows
}

/// A filled, padded, and extended one-`hash` table of height `h`, and its
/// codewords over a coset FRI domain of size `n`, low-degree-extended with
/// `twenty_first`'s polynomial interpolation.
fn one_hash_codewords(params: &RescueParameters, h: usize, n: usize) -> (FriDomain, Vec<Vec<Xfe>>) {
    let mut table: Vec<Vec<Bfe>> = vec![vec![Bfe::new(0); 50]; h];
    let aet =
        AlgebraicExecutionTrace { sponge_trace: Vec::new(), hash_trace: one_hash_rows(params) };
    HashTable::fill_trace(&mut table, &aet);
    HashTable::pad_trace(&mut table, 9);
    let challenges = test_challenges();
    let mut ext: Vec<Vec<Xfe>> = vec![vec![Xfe::zero(); 3]; h];
    HashTable::extend(&table, &mut ext, &challenges);

    let omicron = BFieldElement::primitive_root_of_unity(h as u64).unwrap();
    let omega = BFieldElement::primitive_root_of_unity(n as u64).unwrap();
    let offset = BFieldElement::new(7);
    let trace_domain: Vec<XFieldElement> =
        (0..h).map(|k| XFieldElement::new_const(omicron.mod_pow(k as u64))).collect();
    let fri_values: Vec<XFieldElement> =
        (0..n).map(|j| XFieldElement::new_const(offset * omega.mod_pow(j as u64))).collect();

    let mut codewords: Vec<Vec<Xfe>> = Vec::new();
    for col in 0..53 {
        let column: Vec<XFieldElement> = (0..h)
            .map(|i| {
                if col < 50 {
                    XFieldElement::new_const(BFieldElement::new(table[i][col].v))
                } else {
                    to_ext(&ext[i][col - 50])
                }
            })
            .collect();
        let interpolant = Polynomial::interpolate(&trace_domain, &column);
        let codeword: Vec<Xfe> =
            fri_values.iter().map(|v| from_ext(interpolant.evaluate_in_same_field(*v))).collect();
        codewords.push(codeword);
    }
    let fri_domain = FriDomain {
        values: fri_values.iter().map(|v| from_ext(*v)).collect(),
        omicron: from_ext(XFieldElement::new_const(omicron)),
    };
    (fri_domain, codewords)
}

#[test]
fn quotients_of_a_valid_trace_have_low_degree() {
    let params = test_params();
    let challenges = test_challenges();
    let (fri_domain, codewords) = one_hash_codewords(&params, 16, 256);
    let quotients =
        ExtHashTable::all_quotients(&fri_domain, &codewords, &challenges, 16, &params);
    assert_eq!(quotients.len(), 71);
    for q in &quotients {
        assert_eq!(q.len(), 256);
    }
    // some quotient is non-trivial, and every division was exact
    assert!(quotients.iter().any(|q| q.iter().any(|v| *v != Xfe::zero())));
    assert_eq!(ExtHashTable::degree_bound_check(&fri_domain, &quotients), None);
}

#[test]
fn degree_bound_check_reports_the_first_offender() {
    // a codeword of maximal degree over a four-point domain is reported
    let domain: Vec<Xfe> = vec![xfe(1), xfe(2), xfe(3), xfe(4)];
    let fri_domain = FriDomain { values: domain, omicron: xfe(1) };
    let low: Vec<Xfe> = vec![xfe(9); 4];
    // values of x³ on the domain: interpolant degree 3 == n − 1
    let high: Vec<Xfe> = vec![xfe(1), xfe(8), xfe(27), xfe(64)];
    let codewords = vec![low.clone(), high, low];
    assert_eq!(ExtHashTable::degree_bound_check(&fri_domain, &codewords), Some((1, 3)));
}

#[test]
fn quotient_degree_bounds_follow_the_declared_shapes() {
    let params = test_params();
    let padded_height = 32;
    let initial = ExtHashTable::ext_initial_constraints_as_circuits();
    let consistency = ExtHashTable::ext_consistency_constraints_as_circuits(&params);
    let transition = ExtHashTable::ext_transition_constraints_as_circuits(&params);
    let terminal = ExtHashTable::ext_terminal_constraints_as_circuits();
    let b = ExtHashTable::get_boundary_quotient_degree_bounds(&initial, padded_height);
    let t = ExtHashTable::get_transition_quotient_degree_bounds(&transition, padded_height);
    let c = ExtHashTable::get_consistency_quotient_degree_bounds(&consistency, padded_height);
    let e = ExtHashTable::get_terminal_quotient_degree_bounds(&terminal, padded_height);
    assert_eq!(b.len(), 5);
    assert_eq!(t.len(), 26);
    assert_eq!(c.len(), 40);
    assert_eq!(e.len(), 0);
    let all = ExtHashTable::get_all_quotient_degree_bounds(&params, padded_height);
    let concatenated: Vec<i64> =
        b.iter().chain(t.iter()).chain(c.iter()).chain(e.iter()).copied().collect();
    assert_eq!(all, concatenated);
    // the instruction-set constraint: degree 5 AIR (round number times four
    // opcode factors) over columns of degree 31, divided by the consistency
    // zerofier of degree 32
    let bounds_one = vec![1i64; 106];
    assert_eq!(consistency[0].symbolic_degree_bound(&bounds_one), 5);
    assert_eq!(c[0], 5 * 31 - 32);
}

#[test]
fn max_degree_with_origin_reports_the_heaviest_transition_constraint() {
    let params = test_params();
    let padded_height = 32;
    let transition = ExtHashTable::ext_transition_constraints_as_circuits(&params);
    let bounds = ExtHashTable::get_transition_quotient_degree_bounds(&transition, padded_height);
    let d = ExtHashTable::max_degree_with_origin(&params, padded_height);
    assert_eq!(d.origin_table_name, "HashTable");
    assert_eq!(d.origin_table_height, padded_height);
    assert!(d.origin_index < transition.len());
    // the reported degree is the quotient degree of the reported constraint,
    // and no other constraint exceeds it
    assert_eq!(d.degree, bounds[d.origin_index]);
    for k in 0..bounds.len() {
        assert!(bounds[k] <= d.degree);
    }
    let defaulted = triton_air::degree::DegreeWithOrigin::default();
    assert_eq!(defaulted.degree, -1);
    assert_eq!(defaulted.origin_table_name, "NoTable");
}
