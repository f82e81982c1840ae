//! Degree analysis of the quotient codewords: the declared degree bound of
//! each quotient, the table's maximal quotient degree with its origin, and
//! the interpolation-based degree check of computed quotients.

use vstd::prelude::*;

use crate::air::consistency_circuits_ok;
use crate::air::initial_circuits_ok;
use crate::air::terminal_circuits_ok;
use crate::air::ExtHashTable;
use crate::air_transition::transition_circuits_ok;
use crate::circuit::circuit_degree;
use crate::circuit::row_wf;
use crate::circuit::clamped_add;
use crate::circuit::degree_add;
use crate::circuit::ConstraintCircuit;
use crate::circuit::Degree;
use crate::field::Xfe;
use crate::quotient::FriDomain;
use crate::rescue::RescueParameters;
use crate::FULL_WIDTH;

use twenty_first::math::b_field_element::BFieldElement;
use twenty_first::math::polynomial::Polynomial;
use twenty_first::math::x_field_element::XFieldElement;

verus! {

broadcast use vstd::string::to_string_from_display_ensures_for_str;

/// The degree of the interpolant of each trace column: the padded height
/// minus one.
pub open spec fn interpolant_degree(h: int) -> int {
    h - 1
}

/// One interpolant-degree bound per variable of a dual-row constraint.
pub open spec fn interpolant_bounds(h: int) -> Seq<Degree> {
    Seq::new((2 * FULL_WIDTH) as nat, |i: int| (h - 1) as i64)
}

/// One degree-one bound per variable, for the raw degree of a constraint as
/// a polynomial in the trace cells.
pub open spec fn one_bounds() -> Seq<Degree> {
    Seq::new((2 * FULL_WIDTH) as nat, |i: int| 1i64)
}

/// The declared degree bound of a quotient codeword: the constraint's
/// symbolic degree under interpolant-degree bounds, minus the degree of the
/// family's zerofier.
pub open spec fn quotient_degree_bound(c: ConstraintCircuit, h: int, zerofier_degree: int) -> int {
    clamped_add(circuit_degree(c, interpolant_bounds(h)), -zerofier_degree)
}

/// The declared bounds of one constraint family, in constraint order.
pub open spec fn family_degree_bounds(
    cs: Seq<ConstraintCircuit>,
    h: int,
    zerofier_degree: int,
) -> Seq<int> {
    Seq::new(cs.len(), |k: int| quotient_degree_bound(cs[k], h, zerofier_degree))
}

/// The maximal quotient degree of the table together with where it comes
/// from. The largest such degree over all tables dictates the length of the
/// FRI domain.
#[derive(Debug, Clone)]
pub struct DegreeWithOrigin {
    pub degree: Degree,
    pub origin_table_name: String,
    pub origin_index: usize,
    pub origin_air_degree: Degree,
    pub origin_table_height: usize,
}

impl Default for DegreeWithOrigin {
    fn default() -> (d: Self)
        ensures
            d.degree == -1,
            d.origin_table_name@ == "NoTable"@,
            d.origin_index == usize::MAX,
            d.origin_air_degree == -1,
            d.origin_table_height == 0,
    {
        DegreeWithOrigin {
            degree: -1,
            origin_table_name: "NoTable".to_string(),
            origin_index: usize::MAX,
            origin_air_degree: -1,
            origin_table_height: 0,
        }
    }
}

/// The quotient degree of transition constraint `k` under padded height `h`:
/// the symbolic bound minus the transition zerofier's degree `h − 1`.
pub open spec fn transition_quotient_degree(cs: Seq<ConstraintCircuit>, k: int, h: int) -> int {
    clamped_add(circuit_degree(cs[k], interpolant_bounds(h)), 1 - h)
}

/// `d` describes the maximal transition-quotient degree of the table: it
/// reports the last constraint whose quotient degree is maximal.
pub open spec fn max_degree_with_origin_ok(
    d: DegreeWithOrigin,
    cs: Seq<ConstraintCircuit>,
    h: int,
) -> bool {
    exists|k: int|
        {
            &&& 0 <= k < cs.len()
            &&& d.degree == transition_quotient_degree(cs, k, h)
            &&& d.origin_table_name@ == "HashTable"@
            &&& d.origin_index == k
            &&& d.origin_air_degree == circuit_degree(cs[k], one_bounds())
            &&& d.origin_table_height == h
            &&& (forall|l: int|
                0 <= l < cs.len() ==> transition_quotient_degree(cs, l, h)
                    <= transition_quotient_degree(cs, k, h))
            &&& (forall|l: int|
                k < l < cs.len() ==> transition_quotient_degree(cs, l, h)
                    < transition_quotient_degree(cs, k, h))
        }
}

/// One interpolant-degree bound per variable, as a vector.
fn interpolant_bounds_vec(padded_height: usize) -> (r: Vec<Degree>)
    requires
        padded_height <= i64::MAX,
    ensures
        r@ == interpolant_bounds(padded_height as int),
{
    let d: i64 = padded_height as i64 - 1;
    let r: Vec<Degree> = vec![d; 2 * FULL_WIDTH];
    proof {
        assert(r@ =~= interpolant_bounds(padded_height as int));
    }
    r
}

impl ExtHashTable {
    /// The declared degree bounds of the boundary quotients: the zerofier
    /// `v − 1` has degree one.
    pub fn get_boundary_quotient_degree_bounds(
        constraints: &Vec<ConstraintCircuit>,
        padded_height: usize,
    ) -> (r: Vec<Degree>)
        requires
            padded_height <= i64::MAX,
        ensures
            r@.map_values(|d: Degree| d as int) == family_degree_bounds(
                constraints@,
                padded_height as int,
                1,
            ),
    {
        Self::family_quotient_degree_bounds(constraints, padded_height, 1)
    }

    /// The declared degree bounds of the transition quotients: the zerofier
    /// `(v^H − 1) / (v − ω⁻¹)` has degree `H − 1`.
    pub fn get_transition_quotient_degree_bounds(
        constraints: &Vec<ConstraintCircuit>,
        padded_height: usize,
    ) -> (r: Vec<Degree>)
        requires
            padded_height <= i64::MAX,
        ensures
            r@.map_values(|d: Degree| d as int) == family_degree_bounds(
                constraints@,
                padded_height as int,
                padded_height - 1,
            ),
    {
        let zerofier_degree: i64 = padded_height as i64 - 1;
        Self::family_quotient_degree_bounds(constraints, padded_height, zerofier_degree)
    }

    /// The declared degree bounds of the consistency quotients: the zerofier
    /// `v^H − 1` has degree `H`.
    pub fn get_consistency_quotient_degree_bounds(
        constraints: &Vec<ConstraintCircuit>,
        padded_height: usize,
    ) -> (r: Vec<Degree>)
        requires
            padded_height <= i64::MAX,
        ensures
            r@.map_values(|d: Degree| d as int) == family_degree_bounds(
                constraints@,
                padded_height as int,
                padded_height as int,
            ),
    {
        Self::family_quotient_degree_bounds(constraints, padded_height, padded_height as i64)
    }

    /// The declared degree bounds of the terminal quotients: the zerofier
    /// `v − ω⁻¹` has degree one.
    pub fn get_terminal_quotient_degree_bounds(
        constraints: &Vec<ConstraintCircuit>,
        padded_height: usize,
    ) -> (r: Vec<Degree>)
        requires
            padded_height <= i64::MAX,
        ensures
            r@.map_values(|d: Degree| d as int) == family_degree_bounds(
                constraints@,
                padded_height as int,
                1,
            ),
    {
        Self::family_quotient_degree_bounds(constraints, padded_height, 1)
    }

    /// The declared degree bounds of one family, given its zerofier's degree.
    fn family_quotient_degree_bounds(
        constraints: &Vec<ConstraintCircuit>,
        padded_height: usize,
        zerofier_degree: i64,
    ) -> (r: Vec<Degree>)
        requires
            padded_height <= i64::MAX,
            zerofier_degree > i64::MIN,
        ensures
            r@.map_values(|d: Degree| d as int) == family_degree_bounds(
                constraints@,
                padded_height as int,
                zerofier_degree as int,
            ),
    {
        let bounds = interpolant_bounds_vec(padded_height);
        let mut r: Vec<Degree> = Vec::new();
        let mut k: usize = 0;
        while k < constraints.len()
            invariant
                k <= constraints@.len(),
                bounds@ == interpolant_bounds(padded_height as int),
                zerofier_degree > i64::MIN,
                r@.len() == k,
                forall|l: int|
                    0 <= l < k ==> #[trigger] r@[l] as int == quotient_degree_bound(
                        constraints@[l],
                        padded_height as int,
                        zerofier_degree as int,
                    ),
            decreases constraints@.len() - k,
        {
            let symbolic = constraints[k].symbolic_degree_bound(&bounds);
            r.push(degree_add(symbolic, -zerofier_degree));
            k = k + 1;
        }
        proof {
            assert(r@.map_values(|d: Degree| d as int) =~= family_degree_bounds(
                constraints@,
                padded_height as int,
                zerofier_degree as int,
            ));
        }
        r
    }

    /// The declared degree bound of every quotient codeword, in the order
    /// boundary, transition, consistency, terminal.
    pub fn get_all_quotient_degree_bounds(
        params: &RescueParameters,
        padded_height: usize,
    ) -> (r: Vec<Degree>)
        requires
            params.wf(),
            padded_height <= i64::MAX,
        ensures
            exists|
                ics: Seq<ConstraintCircuit>,
                tcs: Seq<ConstraintCircuit>,
                ccs: Seq<ConstraintCircuit>,
                ecs: Seq<ConstraintCircuit>,
            |
                {
                    &&& initial_circuits_ok(ics)
                    &&& transition_circuits_ok(tcs, params.mds@, params.mds_inv@)
                    &&& consistency_circuits_ok(ccs, params.round_constants@)
                    &&& terminal_circuits_ok(ecs)
                    &&& r@.map_values(|d: Degree| d as int) == family_degree_bounds(
                        ics,
                        padded_height as int,
                        1,
                    ) + family_degree_bounds(tcs, padded_height as int, padded_height - 1)
                        + family_degree_bounds(ccs, padded_height as int, padded_height as int)
                        + family_degree_bounds(ecs, padded_height as int, 1)
                },
    {
        let initial_constraints = Self::ext_initial_constraints_as_circuits();
        let transition_constraints = Self::ext_transition_constraints_as_circuits(params);
        let consistency_constraints = Self::ext_consistency_constraints_as_circuits(params);
        let terminal_constraints = Self::ext_terminal_constraints_as_circuits();
        let mut all = Self::get_boundary_quotient_degree_bounds(&initial_constraints, padded_height);
        let mut transition = Self::get_transition_quotient_degree_bounds(
            &transition_constraints,
            padded_height,
        );
        let mut consistency = Self::get_consistency_quotient_degree_bounds(
            &consistency_constraints,
            padded_height,
        );
        let mut terminal = Self::get_terminal_quotient_degree_bounds(
            &terminal_constraints,
            padded_height,
        );
        let ghost b = all@.map_values(|d: Degree| d as int);
        let ghost t = transition@.map_values(|d: Degree| d as int);
        let ghost c = consistency@.map_values(|d: Degree| d as int);
        let ghost e = terminal@.map_values(|d: Degree| d as int);
        all.append(&mut transition);
        all.append(&mut consistency);
        all.append(&mut terminal);
        proof {
            assert(all@.map_values(|d: Degree| d as int) =~= b + t + c + e);
        }
        all
    }

    /// The degree of the largest-degree quotient over the table's AIR
    /// constraints, with its origin. Only transition constraints are
    /// considered here.
    pub fn max_degree_with_origin(params: &RescueParameters, padded_height: usize) -> (d:
        DegreeWithOrigin)
        requires
            params.wf(),
            padded_height <= i64::MAX,
        ensures
            exists|tcs: Seq<ConstraintCircuit>|
                transition_circuits_ok(tcs, params.mds@, params.mds_inv@)
                    && max_degree_with_origin_ok(d, tcs, padded_height as int),
    {
        let constraints = Self::ext_transition_constraints_as_circuits(params);
        let bounds = interpolant_bounds_vec(padded_height);
        let ones: Vec<Degree> = vec![1i64; 2 * FULL_WIDTH];
        proof {
            assert(ones@ =~= one_bounds());
        }
        let mut best_index: usize = 0;
        let mut best_degree: i64 = degree_add(
            constraints[0].symbolic_degree_bound(&bounds),
            -(padded_height as i64 - 1),
        );
        let mut k: usize = 1;
        while k < constraints.len()
            invariant
                1 <= k <= constraints@.len(),
                constraints@.len() > 0,
                padded_height <= i64::MAX,
                bounds@ == interpolant_bounds(padded_height as int),
                best_index < k,
                best_degree as int == transition_quotient_degree(
                    constraints@,
                    best_index as int,
                    padded_height as int,
                ),
                forall|l: int|
                    0 <= l < k ==> transition_quotient_degree(
                        constraints@,
                        l,
                        padded_height as int,
                    ) <= best_degree as int,
                forall|l: int|
                    best_index < l < k ==> transition_quotient_degree(
                        constraints@,
                        l,
                        padded_height as int,
                    ) < best_degree as int,
            decreases constraints@.len() - k,
        {
            let candidate = degree_add(
                constraints[k].symbolic_degree_bound(&bounds),
                -(padded_height as i64 - 1),
            );
            if candidate >= best_degree {
                best_degree = candidate;
                best_index = k;
            }
            k = k + 1;
        }
        let air_degree = constraints[best_index].symbolic_degree_bound(&ones);
        let d = DegreeWithOrigin {
            degree: best_degree,
            origin_table_name: "HashTable".to_string(),
            origin_index: best_index,
            origin_air_degree: air_degree,
            origin_table_height: padded_height,
        };
        proof {
            let h = padded_height as int;
            let ki = best_index as int;
            assert(0 <= ki < constraints@.len());
            assert(d.degree == transition_quotient_degree(constraints@, ki, h));
            assert(d.origin_air_degree == circuit_degree(constraints@[ki], one_bounds()));
            assert(max_degree_with_origin_ok(d, constraints@, h));
        }
        d
    }
}

/// The degree of the lowest-degree polynomial that takes value `ys[j]` on
/// domain point `xs[j]` for every `j`.
pub uninterp spec fn interpolant_degree_of(xs: Seq<Xfe>, ys: Seq<Xfe>) -> int;

/// Relies on `twenty_first::math::polynomial::Polynomial::interpolate` and
/// `Polynomial::degree`: the lowest-degree polynomial through the given
/// points has a degree below the number of points, `-1` for the zero
/// polynomial. Canonicity is required so that struct-distinct points are
/// field-distinct points; a duplicated field element would make the
/// interpolation divide by zero.
#[verifier::external_body]
fn codeword_interpolant_degree(domain: &Vec<Xfe>, codeword: &Vec<Xfe>) -> (r: i64)
    requires
        domain@.len() == codeword@.len(),
        domain@.len() > 0,
        row_wf(domain@),
        row_wf(codeword@),
        forall|i: int, j: int| 0 <= i < j < domain@.len() ==> domain@[i] != domain@[j],
    ensures
        r == interpolant_degree_of(domain@, codeword@),
        -1 <= r < domain@.len(),
{
    let to_xfe = |a: &Xfe| {
        XFieldElement::new([BFieldElement::new(a.c0.v), BFieldElement::new(a.c1.v), BFieldElement::new(a.c2.v)])
    };
    let xs: Vec<XFieldElement> = domain.iter().map(to_xfe).collect();
    let ys: Vec<XFieldElement> = codeword.iter().map(to_xfe).collect();
    Polynomial::interpolate(&xs, &ys).degree() as i64
}

impl ExtHashTable {
    /// Check that every quotient codeword interpolates to a polynomial of
    /// less than maximal degree over the FRI domain: the first index whose
    /// interpolant has maximal degree, with that degree, or `None` when the
    /// division was exact everywhere. A maximal degree indicates that the
    /// constraint did not vanish on all required rows.
    pub fn degree_bound_check(
        fri_domain: &FriDomain,
        quotient_codewords: &Vec<Vec<Xfe>>,
    ) -> (r: Option<(usize, Degree)>)
        requires
            fri_domain.values@.len() > 0,
            fri_domain.values@.len() <= i64::MAX,
            row_wf(fri_domain.values@),
            forall|i: int, j: int|
                0 <= i < j < fri_domain.values@.len() ==> fri_domain.values@[i]
                    != fri_domain.values@[j],
            forall|k: int|
                0 <= k < quotient_codewords@.len() ==> (#[trigger] quotient_codewords@[k])@.len()
                    == fri_domain.values@.len(),
            forall|k: int|
                0 <= k < quotient_codewords@.len() ==> row_wf(
                    (#[trigger] quotient_codewords@[k])@,
                ),
        ensures
            match r {
                None => forall|k: int|
                    0 <= k < quotient_codewords@.len() ==> interpolant_degree_of(
                        fri_domain.values@,
                        (#[trigger] quotient_codewords@[k])@,
                    ) < fri_domain.values@.len() - 1,
                Some((k, d)) => {
                    &&& k < quotient_codewords@.len()
                    &&& d == interpolant_degree_of(
                        fri_domain.values@,
                        quotient_codewords@[k as int]@,
                    )
                    &&& d >= fri_domain.values@.len() - 1
                    &&& forall|l: int|
                        0 <= l < k ==> interpolant_degree_of(
                            fri_domain.values@,
                            (#[trigger] quotient_codewords@[l])@,
                        ) < fri_domain.values@.len() - 1
                },
            },
    {
        let n = fri_domain.values.len();
        let mut k: usize = 0;
        while k < quotient_codewords.len()
            invariant
                k <= quotient_codewords@.len(),
                n == fri_domain.values@.len(),
                n > 0,
                n <= i64::MAX,
                row_wf(fri_domain.values@),
                forall|i: int, j: int|
                    0 <= i < j < fri_domain.values@.len() ==> fri_domain.values@[i]
                        != fri_domain.values@[j],
                forall|l: int|
                    0 <= l < quotient_codewords@.len() ==> (#[trigger] quotient_codewords@[l])@.len()
                        == fri_domain.values@.len(),
                forall|l: int|
                    0 <= l < quotient_codewords@.len() ==> row_wf(
                        (#[trigger] quotient_codewords@[l])@,
                    ),
                forall|l: int|
                    0 <= l < k ==> interpolant_degree_of(
                        fri_domain.values@,
                        (#[trigger] quotient_codewords@[l])@,
                    ) < fri_domain.values@.len() - 1,
            decreases quotient_codewords@.len() - k,
        {
            let degree = codeword_interpolant_degree(&fri_domain.values, &quotient_codewords[k]);
            if degree >= n as i64 - 1 {
                return Some((k, degree));
            }
            k = k + 1;
        }
        None
    }
}

} // verus!
