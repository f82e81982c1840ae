//! The quotient engine: for each constraint family, build the zerofier
//! codeword, batch-invert it, evaluate every constraint on every point of the
//! FRI domain, and divide.
//!
//! Every contract characterizes the result multiplicatively: the returned
//! codewords are the constraint evaluations times a pointwise inverse of the
//! family's zerofier. When the padded height is zero, inversion is skipped
//! and the evaluations are multiplied by the zerofier itself, as the
//! degenerate tables require.

use vstd::prelude::*;

use crate::air::consistency_circuits_ok;
use crate::air::initial_circuits_ok;
use crate::air::terminal_circuits_ok;
use crate::air_transition::transition_circuits_ok;
use crate::air::ExtHashTable;
use crate::challenges::challenges_wf;
use crate::challenges::HashTableChallenges;
use crate::circuit::eval;
use crate::circuit::row_wf;
use crate::circuit::single_row_only;
use crate::circuit::wf_values;
use crate::circuit::ConstraintCircuit;
use crate::field::lemma_x_sub_eq_zero;
use crate::field::x_mul;
use crate::field::x_one;
use crate::field::x_pow;
use crate::field::x_sub;
use crate::field::x_zero;
use crate::field::xfe_batch_inversion;
use crate::field::xfe_inverse;
use crate::field::Xfe;
use crate::rescue::RescueParameters;
use crate::BASE_WIDTH;
use crate::EXT_WIDTH;
use crate::FULL_WIDTH;

verus! {

/// The evaluation domain of the FRI protocol: its points in order, and the
/// generator `omicron` of the trace-domain subgroup.
pub struct FriDomain {
    pub values: Vec<Xfe>,
    pub omicron: Xfe,
}

impl FriDomain {
    /// The domain points are canonical and the trace-domain generator is a
    /// non-zero canonical element.
    pub open spec fn wf(self) -> bool {
        &&& row_wf(self.values@)
        &&& self.omicron.wf()
        &&& self.omicron != x_zero()
    }

    /// The number of points of the domain.
    pub fn length(&self) -> (r: usize)
        ensures
            r == self.values@.len(),
    {
        self.values.len()
    }
}

/// The sequence of column views of a matrix of extension-field elements.
pub open spec fn xtv(t: Seq<Vec<Xfe>>) -> Seq<Seq<Xfe>> {
    Seq::new(t.len(), |i: int| t[i]@)
}

/// One codeword of length `n` per column of the full table, all canonical.
pub open spec fn codewords_ok(cw: Seq<Seq<Xfe>>, n: int) -> bool {
    &&& cw.len() == FULL_WIDTH
    &&& forall|i: int| 0 <= i < cw.len() ==> (#[trigger] cw[i]).len() == n && row_wf(cw[i])
}

/// The base-column cells of domain point `j`, in column order.
pub open spec fn base_columns_row(cw: Seq<Seq<Xfe>>, j: int) -> Seq<Xfe> {
    Seq::new(BASE_WIDTH as nat, |i: int| cw[i][j])
}

/// The extension-column cells of domain point `j`, in column order.
pub open spec fn ext_columns_row(cw: Seq<Seq<Xfe>>, j: int) -> Seq<Xfe> {
    Seq::new(EXT_WIDTH as nat, |i: int| cw[BASE_WIDTH + i][j])
}

/// A single-row constraint evaluated on the codeword cells of domain point
/// `j`.
pub open spec fn eval_single(
    c: ConstraintCircuit,
    cw: Seq<Seq<Xfe>>,
    j: int,
    ch: HashTableChallenges,
) -> Xfe {
    eval(
        c,
        base_columns_row(cw, j),
        ext_columns_row(cw, j),
        Seq::<Xfe>::empty(),
        Seq::<Xfe>::empty(),
        ch,
    )
}

/// A dual-row constraint evaluated on the codeword cells of domain points `j`
/// and `j2`.
pub open spec fn eval_dual(
    c: ConstraintCircuit,
    cw: Seq<Seq<Xfe>>,
    j: int,
    j2: int,
    ch: HashTableChallenges,
) -> Xfe {
    eval(
        c,
        base_columns_row(cw, j),
        ext_columns_row(cw, j),
        base_columns_row(cw, j2),
        ext_columns_row(cw, j2),
        ch,
    )
}

/// The index distance on the FRI domain that corresponds to one trace row.
pub open spec fn unit_distance(n: int, h: int) -> int {
    if h == 0 {
        0
    } else {
        n / h
    }
}

/// What the single-row quotient helper returns for a zerofier `z`: one
/// codeword per constraint; for a positive padded height, each point is the
/// constraint evaluation times a pointwise inverse of `z`; for height zero,
/// inversion is skipped and each point is the evaluation times `z` itself.
pub open spec fn quotients_ok(
    r: Seq<Seq<Xfe>>,
    z: Seq<Xfe>,
    cw: Seq<Seq<Xfe>>,
    cs: Seq<ConstraintCircuit>,
    ch: HashTableChallenges,
    h: int,
) -> bool {
    &&& r.len() == cs.len()
    &&& forall|k: int| 0 <= k < r.len() ==> (#[trigger] r[k]).len() == z.len()
    &&& (h == 0 ==> forall|k: int, j: int|
        0 <= k < r.len() && 0 <= j < z.len() ==> #[trigger] r[k][j] == x_mul(
            eval_single(cs[k], cw, j, ch),
            z[j],
        ))
    &&& (h > 0 ==> exists|zi: Seq<Xfe>|
        {
            &&& zi.len() == z.len()
            &&& (forall|j: int| 0 <= j < z.len() ==> x_mul(#[trigger] zi[j], z[j]) == x_one())
            &&& (forall|k: int, j: int|
                0 <= k < r.len() && 0 <= j < z.len() ==> #[trigger] r[k][j] == x_mul(
                    eval_single(cs[k], cw, j, ch),
                    zi[j],
                ))
        })
}

/// The boundary zerofier vanishes on the first trace row: `v − 1`.
pub open spec fn boundary_zerofier(values: Seq<Xfe>) -> Seq<Xfe> {
    Seq::new(values.len(), |j: int| x_sub(values[j], x_one()))
}

/// The consistency zerofier vanishes on the whole trace domain: `v^H − 1`.
pub open spec fn consistency_zerofier(values: Seq<Xfe>, h: int) -> Seq<Xfe> {
    Seq::new(values.len(), |j: int| x_sub(x_pow(values[j], h as nat), x_one()))
}

/// The terminal zerofier vanishes on the last trace row: `v − ω⁻¹`.
pub open spec fn terminal_zerofier(values: Seq<Xfe>, omicron_inverse: Xfe) -> Seq<Xfe> {
    Seq::new(values.len(), |j: int| x_sub(values[j], omicron_inverse))
}

/// What `terminal_quotients` returns: `quotients_ok` against `v − ω⁻¹` for
/// some multiplicative inverse `ω⁻¹` of `omicron`.
pub open spec fn terminal_quotients_ok(
    r: Seq<Seq<Xfe>>,
    values: Seq<Xfe>,
    omicron: Xfe,
    cw: Seq<Seq<Xfe>>,
    cs: Seq<ConstraintCircuit>,
    ch: HashTableChallenges,
    h: int,
) -> bool {
    exists|oi: Xfe|
        x_mul(oi, omicron) == x_one() && quotients_ok(
            r,
            terminal_zerofier(values, oi),
            cw,
            cs,
            ch,
            h,
        )
}

/// What `transition_quotients` returns: each point of codeword `k` is the
/// dual-row evaluation of constraint `k` on the point and its row-shifted
/// partner, times `(v − ω⁻¹)` times a pointwise inverse of the subgroup
/// zerofier `v^H − 1` (or the subgroup zerofier itself when `H = 0`).
pub open spec fn transition_quotients_ok(
    r: Seq<Seq<Xfe>>,
    values: Seq<Xfe>,
    omicron: Xfe,
    cw: Seq<Seq<Xfe>>,
    cs: Seq<ConstraintCircuit>,
    ch: HashTableChallenges,
    h: int,
) -> bool {
    let n = values.len() as int;
    let ud = unit_distance(n, h);
    exists|oi: Xfe, szi: Seq<Xfe>|
        {
            &&& x_mul(oi, omicron) == x_one()
            &&& szi.len() == n
            &&& (if h > 0 {
                forall|j: int|
                    0 <= j < n ==> x_mul(
                        #[trigger] szi[j],
                        x_sub(x_pow(values[j], h as nat), x_one()),
                    ) == x_one()
            } else {
                forall|j: int|
                    0 <= j < n ==> #[trigger] szi[j] == x_sub(
                        x_pow(values[j], h as nat),
                        x_one(),
                    )
            })
            &&& r.len() == cs.len()
            &&& (forall|k: int| 0 <= k < r.len() ==> (#[trigger] r[k]).len() == n)
            &&& (forall|k: int, j: int|
                0 <= k < r.len() && 0 <= j < n ==> #[trigger] r[k][j] == x_mul(
                    eval_dual(cs[k], cw, j, (j + ud) % n, ch),
                    x_mul(x_sub(values[j], oi), szi[j]),
                ))
        }
}

/// Copy the base-column and extension-column cells of domain point `j` out of
/// the codewords.
fn gather_row(codewords: &Vec<Vec<Xfe>>, j: usize) -> (r: (Vec<Xfe>, Vec<Xfe>))
    requires
        xtv(codewords@).len() == FULL_WIDTH,
        forall|i: int| 0 <= i < FULL_WIDTH ==> j < (#[trigger] xtv(codewords@)[i]).len(),
        forall|i: int| 0 <= i < FULL_WIDTH ==> row_wf(#[trigger] xtv(codewords@)[i]),
    ensures
        r.0@ == base_columns_row(xtv(codewords@), j as int),
        r.1@ == ext_columns_row(xtv(codewords@), j as int),
        row_wf(r.0@),
        row_wf(r.1@),
{
    proof {
        assert(codewords@.len() == FULL_WIDTH);
        assert forall|l: int|
            0 <= l < codewords@.len() implies j < (#[trigger] codewords@[l])@.len() && row_wf(
            codewords@[l]@,
        ) by {
            assert(xtv(codewords@)[l] == codewords@[l]@);
        }
    }
    let mut base_row: Vec<Xfe> = Vec::new();
    let mut i: usize = 0;
    while i < BASE_WIDTH
        invariant
            i <= BASE_WIDTH,
            codewords@.len() == FULL_WIDTH,
            forall|l: int| 0 <= l < codewords@.len() ==> j < (#[trigger] codewords@[l])@.len(),
            forall|l: int| 0 <= l < codewords@.len() ==> row_wf((#[trigger] codewords@[l])@),
            base_row@.len() == i,
            forall|l: int| 0 <= l < i ==> #[trigger] base_row@[l] == codewords@[l]@[j as int],
        decreases BASE_WIDTH - i,
    {
        base_row.push(codewords[i][j]);
        i = i + 1;
    }
    let mut ext_row: Vec<Xfe> = Vec::new();
    let mut e: usize = 0;
    while e < EXT_WIDTH
        invariant
            e <= EXT_WIDTH,
            codewords@.len() == FULL_WIDTH,
            forall|l: int| 0 <= l < codewords@.len() ==> j < (#[trigger] codewords@[l])@.len(),
            forall|l: int| 0 <= l < codewords@.len() ==> row_wf((#[trigger] codewords@[l])@),
            ext_row@.len() == e,
            forall|l: int| 0 <= l < e ==> #[trigger] ext_row@[l] == codewords@[BASE_WIDTH + l]@[
                j as int
            ],
        decreases EXT_WIDTH - e,
    {
        ext_row.push(codewords[BASE_WIDTH + e][j]);
        e = e + 1;
    }
    proof {
        assert(base_row@ =~= base_columns_row(xtv(codewords@), j as int));
        assert(ext_row@ =~= ext_columns_row(xtv(codewords@), j as int));
        assert forall|l: int| 0 <= l < base_row@.len() implies (#[trigger] base_row@[l]).wf() by {
            assert(base_row@[l] == codewords@[l]@[j as int]);
        }
        assert forall|l: int| 0 <= l < ext_row@.len() implies (#[trigger] ext_row@[l]).wf() by {
            assert(ext_row@[l] == codewords@[BASE_WIDTH + l]@[j as int]);
        }
    }
    (base_row, ext_row)
}

impl ExtHashTable {
    /// Divide the evaluations of single-row `constraints` on the `codewords`
    /// by the given `zerofier`: batched inversion once, then one
    /// multiplication per constraint and domain point. Inversion is skipped
    /// when the padded height is zero.
    pub fn quotients(
        codewords: &Vec<Vec<Xfe>>,
        zerofier: Vec<Xfe>,
        constraints: &Vec<ConstraintCircuit>,
        challenges: &HashTableChallenges,
        padded_height: usize,
    ) -> (r: Vec<Vec<Xfe>>)
        requires
            codewords_ok(xtv(codewords@), zerofier@.len() as int),
            row_wf(zerofier@),
            forall|k: int|
                0 <= k < constraints@.len() ==> wf_values(#[trigger] constraints@[k])
                    && single_row_only(constraints@[k]),
            challenges_wf(*challenges),
            padded_height > 0 ==> forall|j: int|
                0 <= j < zerofier@.len() ==> #[trigger] zerofier@[j] != x_zero(),
        ensures
            quotients_ok(
                r@.map_values(|q: Vec<Xfe>| q@),
                zerofier@,
                xtv(codewords@),
                constraints@,
                *challenges,
                padded_height as int,
            ),
    {
        let ghost z = zerofier@;
        let ghost cw = xtv(codewords@);
        let n = zerofier.len();
        let zerofier_inverse: Vec<Xfe> = if padded_height == 0 {
            zerofier
        } else {
            xfe_batch_inversion(&zerofier)
        };
        let mut res: Vec<Vec<Xfe>> = Vec::new();
        let mut k: usize = 0;
        while k < constraints.len()
            invariant
                k <= constraints@.len(),
                codewords_ok(cw, n as int),
                cw == xtv(codewords@),
                z.len() == n,
                row_wf(z),
                forall|l: int|
                    0 <= l < constraints@.len() ==> wf_values(#[trigger] constraints@[l])
                        && single_row_only(constraints@[l]),
                challenges_wf(*challenges),
                zerofier_inverse@.len() == n,
                row_wf(zerofier_inverse@),
                padded_height == 0 ==> zerofier_inverse@ == z,
                padded_height > 0 ==> forall|j: int|
                    0 <= j < n ==> x_mul(#[trigger] zerofier_inverse@[j], z[j]) == x_one(),
                res@.len() == k,
                forall|l: int| 0 <= l < k ==> (#[trigger] res@[l])@.len() == n,
                forall|l: int, j: int|
                    0 <= l < k && 0 <= j < n ==> #[trigger] res@[l]@[j] == x_mul(
                        eval_single(constraints@[l], cw, j, *challenges),
                        zerofier_inverse@[j],
                    ),
            decreases constraints@.len() - k,
        {
            let constraint = &constraints[k];
            let mut q: Vec<Xfe> = Vec::new();
            let mut j: usize = 0;
            while j < n
                invariant
                    j <= n,
                    codewords_ok(cw, n as int),
                    cw == xtv(codewords@),
                    wf_values(*constraint),
                    single_row_only(*constraint),
                    constraint == &constraints@[k as int],
                    k < constraints@.len(),
                    challenges_wf(*challenges),
                    zerofier_inverse@.len() == n,
                    row_wf(zerofier_inverse@),
                    q@.len() == j,
                    forall|l: int|
                        0 <= l < j ==> #[trigger] q@[l] == x_mul(
                            eval_single(constraints@[k as int], cw, l, *challenges),
                            zerofier_inverse@[l],
                        ),
                decreases n - j,
            {
                let (base_row, ext_row) = gather_row(codewords, j);
                let evaluated = constraint.evaluate_single_row(&base_row, &ext_row, challenges);
                q.push(evaluated.mul(zerofier_inverse[j]));
                j = j + 1;
            }
            res.push(q);
            k = k + 1;
        }
        proof {
            let rv = res@.map_values(|q: Vec<Xfe>| q@);
            assert(rv.len() == constraints@.len());
            assert forall|l: int| 0 <= l < rv.len() implies (#[trigger] rv[l]).len() == z.len()
            by {
                assert(rv[l] == res@[l]@);
            }
            if padded_height == 0 {
                assert forall|l: int, j: int|
                    0 <= l < rv.len() && 0 <= j < z.len() implies #[trigger] rv[l][j] == x_mul(
                    eval_single(constraints@[l], cw, j, *challenges),
                    z[j],
                ) by {
                    assert(rv[l] == res@[l]@);
                }
            } else {
                assert forall|l: int, j: int|
                    0 <= l < rv.len() && 0 <= j < z.len() implies #[trigger] rv[l][j] == x_mul(
                    eval_single(constraints@[l], cw, j, *challenges),
                    zerofier_inverse@[j],
                ) by {
                    assert(rv[l] == res@[l]@);
                }
            }
        }
        res
    }

    /// The quotients of the boundary (initial) constraints: division by
    /// `v − 1`.
    pub fn boundary_quotients(
        fri_domain: &FriDomain,
        codewords: &Vec<Vec<Xfe>>,
        constraints: &Vec<ConstraintCircuit>,
        challenges: &HashTableChallenges,
        padded_height: usize,
    ) -> (r: Vec<Vec<Xfe>>)
        requires
            fri_domain.wf(),
            codewords_ok(xtv(codewords@), fri_domain.values@.len() as int),
            forall|k: int|
                0 <= k < constraints@.len() ==> wf_values(#[trigger] constraints@[k])
                    && single_row_only(constraints@[k]),
            challenges_wf(*challenges),
            padded_height > 0 ==> forall|j: int|
                0 <= j < fri_domain.values@.len() ==> #[trigger] fri_domain.values@[j] != x_one(),
        ensures
            quotients_ok(
                r@.map_values(|q: Vec<Xfe>| q@),
                boundary_zerofier(fri_domain.values@),
                xtv(codewords@),
                constraints@,
                *challenges,
                padded_height as int,
            ),
    {
        let n = fri_domain.values.len();
        let mut zerofier: Vec<Xfe> = Vec::new();
        let mut j: usize = 0;
        while j < n
            invariant
                j <= n,
                n == fri_domain.values@.len(),
                fri_domain.wf(),
                zerofier@.len() == j,
                forall|l: int|
                    0 <= l < j ==> #[trigger] zerofier@[l] == x_sub(
                        fri_domain.values@[l],
                        x_one(),
                    ),
                row_wf(zerofier@),
            decreases n - j,
        {
            zerofier.push(fri_domain.values[j].sub(Xfe::one()));
            j = j + 1;
        }
        proof {
            assert(zerofier@ =~= boundary_zerofier(fri_domain.values@));
            if padded_height > 0 {
                assert forall|l: int| 0 <= l < zerofier@.len() implies #[trigger] zerofier@[l]
                    != x_zero() by {
                    lemma_x_sub_eq_zero(fri_domain.values@[l], x_one());
                }
            }
        }
        Self::quotients(codewords, zerofier, constraints, challenges, padded_height)
    }

    /// The quotients of the consistency constraints: division by `v^H − 1`.
    pub fn consistency_quotients(
        fri_domain: &FriDomain,
        codewords: &Vec<Vec<Xfe>>,
        constraints: &Vec<ConstraintCircuit>,
        challenges: &HashTableChallenges,
        padded_height: usize,
    ) -> (r: Vec<Vec<Xfe>>)
        requires
            fri_domain.wf(),
            codewords_ok(xtv(codewords@), fri_domain.values@.len() as int),
            forall|k: int|
                0 <= k < constraints@.len() ==> wf_values(#[trigger] constraints@[k])
                    && single_row_only(constraints@[k]),
            challenges_wf(*challenges),
            padded_height > 0 ==> forall|j: int|
                0 <= j < fri_domain.values@.len() ==> x_pow(
                    #[trigger] fri_domain.values@[j],
                    padded_height as nat,
                ) != x_one(),
        ensures
            quotients_ok(
                r@.map_values(|q: Vec<Xfe>| q@),
                consistency_zerofier(fri_domain.values@, padded_height as int),
                xtv(codewords@),
                constraints@,
                *challenges,
                padded_height as int,
            ),
    {
        let n = fri_domain.values.len();
        let mut zerofier: Vec<Xfe> = Vec::new();
        let mut j: usize = 0;
        while j < n
            invariant
                j <= n,
                n == fri_domain.values@.len(),
                fri_domain.wf(),
                zerofier@.len() == j,
                forall|l: int|
                    0 <= l < j ==> #[trigger] zerofier@[l] == x_sub(
                        x_pow(fri_domain.values@[l], padded_height as nat),
                        x_one(),
                    ),
                forall|l: int|
                    0 <= l < j ==> x_pow(#[trigger] fri_domain.values@[l], padded_height as nat).wf(),
                row_wf(zerofier@),
            decreases n - j,
        {
            let powered = fri_domain.values[j].pow(padded_height as u64);
            zerofier.push(powered.sub(Xfe::one()));
            j = j + 1;
        }
        proof {
            assert(zerofier@ =~= consistency_zerofier(fri_domain.values@, padded_height as int));
            if padded_height > 0 {
                assert forall|l: int| 0 <= l < zerofier@.len() implies #[trigger] zerofier@[l]
                    != x_zero() by {
                    lemma_x_sub_eq_zero(
                        x_pow(fri_domain.values@[l], padded_height as nat),
                        x_one(),
                    );
                }
            }
        }
        Self::quotients(codewords, zerofier, constraints, challenges, padded_height)
    }

    /// The quotients of the terminal constraints: division by `v − ω⁻¹`.
    pub fn terminal_quotients(
        fri_domain: &FriDomain,
        codewords: &Vec<Vec<Xfe>>,
        constraints: &Vec<ConstraintCircuit>,
        challenges: &HashTableChallenges,
        padded_height: usize,
    ) -> (r: Vec<Vec<Xfe>>)
        requires
            fri_domain.wf(),
            codewords_ok(xtv(codewords@), fri_domain.values@.len() as int),
            forall|k: int|
                0 <= k < constraints@.len() ==> wf_values(#[trigger] constraints@[k])
                    && single_row_only(constraints@[k]),
            challenges_wf(*challenges),
            padded_height > 0 ==> forall|j: int|
                0 <= j < fri_domain.values@.len() ==> x_mul(
                    #[trigger] fri_domain.values@[j],
                    fri_domain.omicron,
                ) != x_one(),
        ensures
            terminal_quotients_ok(
                r@.map_values(|q: Vec<Xfe>| q@),
                fri_domain.values@,
                fri_domain.omicron,
                xtv(codewords@),
                constraints@,
                *challenges,
                padded_height as int,
            ),
    {
        let omicron_inverse = xfe_inverse(fri_domain.omicron);
        let n = fri_domain.values.len();
        let mut zerofier: Vec<Xfe> = Vec::new();
        let mut j: usize = 0;
        while j < n
            invariant
                j <= n,
                n == fri_domain.values@.len(),
                fri_domain.wf(),
                omicron_inverse.wf(),
                x_mul(omicron_inverse, fri_domain.omicron) == x_one(),
                zerofier@.len() == j,
                forall|l: int|
                    0 <= l < j ==> #[trigger] zerofier@[l] == x_sub(
                        fri_domain.values@[l],
                        omicron_inverse,
                    ),
                row_wf(zerofier@),
            decreases n - j,
        {
            zerofier.push(fri_domain.values[j].sub(omicron_inverse));
            j = j + 1;
        }
        proof {
            assert(zerofier@ =~= terminal_zerofier(fri_domain.values@, omicron_inverse));
            if padded_height > 0 {
                assert forall|l: int| 0 <= l < zerofier@.len() implies #[trigger] zerofier@[l]
                    != x_zero() by {
                    lemma_x_sub_eq_zero(fri_domain.values@[l], omicron_inverse);
                }
            }
        }
        Self::quotients(codewords, zerofier, constraints, challenges, padded_height)
    }

    /// The quotients of the transition constraints: for each domain point,
    /// evaluate each constraint on the point and its row-shifted partner and
    /// divide by the subgroup zerofier with the last trace point removed.
    pub fn transition_quotients(
        fri_domain: &FriDomain,
        codewords: &Vec<Vec<Xfe>>,
        constraints: &Vec<ConstraintCircuit>,
        challenges: &HashTableChallenges,
        padded_height: usize,
    ) -> (r: Vec<Vec<Xfe>>)
        requires
            fri_domain.wf(),
            codewords_ok(xtv(codewords@), fri_domain.values@.len() as int),
            forall|k: int| 0 <= k < constraints@.len() ==> wf_values(#[trigger] constraints@[k]),
            challenges_wf(*challenges),
            padded_height > 0 ==> forall|j: int|
                0 <= j < fri_domain.values@.len() ==> x_pow(
                    #[trigger] fri_domain.values@[j],
                    padded_height as nat,
                ) != x_one(),
        ensures
            transition_quotients_ok(
                r@.map_values(|q: Vec<Xfe>| q@),
                fri_domain.values@,
                fri_domain.omicron,
                xtv(codewords@),
                constraints@,
                *challenges,
                padded_height as int,
            ),
    {
        let ghost cw = xtv(codewords@);
        let n = fri_domain.values.len();
        let omicron_inverse = xfe_inverse(fri_domain.omicron);
        let mut subgroup_zerofier: Vec<Xfe> = Vec::new();
        let mut j: usize = 0;
        while j < n
            invariant
                j <= n,
                n == fri_domain.values@.len(),
                fri_domain.wf(),
                subgroup_zerofier@.len() == j,
                forall|l: int|
                    0 <= l < j ==> #[trigger] subgroup_zerofier@[l] == x_sub(
                        x_pow(fri_domain.values@[l], padded_height as nat),
                        x_one(),
                    ),
                forall|l: int|
                    0 <= l < j ==> x_pow(#[trigger] fri_domain.values@[l], padded_height as nat).wf(),
                row_wf(subgroup_zerofier@),
            decreases n - j,
        {
            let powered = fri_domain.values[j].pow(padded_height as u64);
            subgroup_zerofier.push(powered.sub(Xfe::one()));
            j = j + 1;
        }
        let ghost sub_z = subgroup_zerofier@;
        let subgroup_zerofier_inverse: Vec<Xfe> = if padded_height == 0 {
            subgroup_zerofier
        } else {
            proof {
                assert forall|l: int|
                    0 <= l < subgroup_zerofier@.len() implies #[trigger] subgroup_zerofier@[l]
                    != x_zero() by {
                    lemma_x_sub_eq_zero(
                        x_pow(fri_domain.values@[l], padded_height as nat),
                        x_one(),
                    );
                }
            }
            xfe_batch_inversion(&subgroup_zerofier)
        };
        let mut zerofier_inverse: Vec<Xfe> = Vec::new();
        let mut j2: usize = 0;
        while j2 < n
            invariant
                j2 <= n,
                n == fri_domain.values@.len(),
                fri_domain.wf(),
                omicron_inverse.wf(),
                subgroup_zerofier_inverse@.len() == n,
                row_wf(subgroup_zerofier_inverse@),
                zerofier_inverse@.len() == j2,
                forall|l: int|
                    0 <= l < j2 ==> #[trigger] zerofier_inverse@[l] == x_mul(
                        x_sub(fri_domain.values@[l], omicron_inverse),
                        subgroup_zerofier_inverse@[l],
                    ),
                row_wf(zerofier_inverse@),
            decreases n - j2,
        {
            zerofier_inverse.push(
                fri_domain.values[j2].sub(omicron_inverse).mul(subgroup_zerofier_inverse[j2]),
            );
            j2 = j2 + 1;
        }
        let unit_dist: usize = if padded_height == 0 {
            0
        } else {
            n / padded_height
        };
        let mut res: Vec<Vec<Xfe>> = Vec::new();
        let mut k: usize = 0;
        while k < constraints.len()
            invariant
                k <= constraints@.len(),
                codewords_ok(cw, n as int),
                cw == xtv(codewords@),
                n == fri_domain.values@.len(),
                forall|l: int|
                    0 <= l < constraints@.len() ==> wf_values(#[trigger] constraints@[l]),
                challenges_wf(*challenges),
                zerofier_inverse@.len() == n,
                row_wf(zerofier_inverse@),
                unit_dist == unit_distance(n as int, padded_height as int),
                unit_dist <= n,
                res@.len() == k,
                forall|l: int| 0 <= l < k ==> (#[trigger] res@[l])@.len() == n,
                forall|l: int, j3: int|
                    0 <= l < k && 0 <= j3 < n ==> #[trigger] res@[l]@[j3] == x_mul(
                        eval_dual(
                            constraints@[l],
                            cw,
                            j3,
                            (j3 + unit_distance(n as int, padded_height as int)) % (n as int),
                            *challenges,
                        ),
                        zerofier_inverse@[j3],
                    ),
            decreases constraints@.len() - k,
        {
            let constraint = &constraints[k];
            let mut q: Vec<Xfe> = Vec::new();
            let mut j3: usize = 0;
            while j3 < n
                invariant
                    j3 <= n,
                    codewords_ok(cw, n as int),
                    cw == xtv(codewords@),
                    n == fri_domain.values@.len(),
                    wf_values(*constraint),
                    constraint == &constraints@[k as int],
                    k < constraints@.len(),
                    challenges_wf(*challenges),
                    zerofier_inverse@.len() == n,
                    row_wf(zerofier_inverse@),
                    unit_dist == unit_distance(n as int, padded_height as int),
                    unit_dist <= n,
                    q@.len() == j3,
                    forall|l: int|
                        0 <= l < j3 ==> #[trigger] q@[l] == x_mul(
                            eval_dual(
                                constraints@[k as int],
                                cw,
                                l,
                                (l + unit_distance(n as int, padded_height as int)) % (n as int),
                                *challenges,
                            ),
                            zerofier_inverse@[l],
                        ),
                decreases n - j3,
            {
                let next_index: usize = if j3 >= n - unit_dist {
                    j3 - (n - unit_dist)
                } else {
                    j3 + unit_dist
                };
                proof {
                    let ni = n as int;
                    let ud = unit_distance(ni, padded_height as int);
                    if j3 >= n - unit_dist {
                        vstd::arithmetic::div_mod::lemma_mod_multiples_vanish(
                            1,
                            j3 + ud - ni,
                            ni,
                        );
                        vstd::arithmetic::div_mod::lemma_small_mod(
                            (j3 + ud - ni) as nat,
                            n as nat,
                        );
                    } else {
                        vstd::arithmetic::div_mod::lemma_small_mod((j3 + ud) as nat, n as nat);
                    }
                }
                let (current_base, current_ext) = gather_row(codewords, j3);
                let (next_base, next_ext) = gather_row(codewords, next_index);
                let evaluated = constraint.evaluate_dual_row(
                    &current_base,
                    &current_ext,
                    &next_base,
                    &next_ext,
                    challenges,
                );
                q.push(evaluated.mul(zerofier_inverse[j3]));
                j3 = j3 + 1;
            }
            res.push(q);
            k = k + 1;
        }
        proof {
            let rv = res@.map_values(|q: Vec<Xfe>| q@);
            let ni = n as int;
            let ud = unit_distance(ni, padded_height as int);
            assert forall|l: int| 0 <= l < rv.len() implies (#[trigger] rv[l]).len() == ni by {
                assert(rv[l] == res@[l]@);
            }
            assert forall|l: int, j4: int|
                0 <= l < rv.len() && 0 <= j4 < ni implies #[trigger] rv[l][j4] == x_mul(
                eval_dual(constraints@[l], cw, j4, (j4 + ud) % ni, *challenges),
                x_mul(
                    x_sub(fri_domain.values@[j4], omicron_inverse),
                    subgroup_zerofier_inverse@[j4],
                ),
            ) by {
                assert(rv[l] == res@[l]@);
            }
        }
        res
    }

    /// All quotient codewords of the hash table, concatenated in the order
    /// boundary, transition, consistency, terminal.
    pub fn all_quotients(
        fri_domain: &FriDomain,
        codewords: &Vec<Vec<Xfe>>,
        challenges: &HashTableChallenges,
        padded_height: usize,
        params: &RescueParameters,
    ) -> (r: Vec<Vec<Xfe>>)
        requires
            fri_domain.wf(),
            params.wf(),
            codewords_ok(xtv(codewords@), fri_domain.values@.len() as int),
            challenges_wf(*challenges),
            padded_height > 0 ==> forall|j: int|
                0 <= j < fri_domain.values@.len() ==> #[trigger] fri_domain.values@[j] != x_one(),
            padded_height > 0 ==> forall|j: int|
                0 <= j < fri_domain.values@.len() ==> x_pow(
                    #[trigger] fri_domain.values@[j],
                    padded_height as nat,
                ) != x_one(),
            padded_height > 0 ==> forall|j: int|
                0 <= j < fri_domain.values@.len() ==> x_mul(
                    #[trigger] fri_domain.values@[j],
                    fri_domain.omicron,
                ) != x_one(),
        ensures
            exists|
                ics: Seq<ConstraintCircuit>,
                tcs: Seq<ConstraintCircuit>,
                ccs: Seq<ConstraintCircuit>,
                ecs: Seq<ConstraintCircuit>,
                bq: Seq<Seq<Xfe>>,
                tq: Seq<Seq<Xfe>>,
                cq: Seq<Seq<Xfe>>,
                eq: Seq<Seq<Xfe>>,
            |
                {
                    &&& initial_circuits_ok(ics)
                    &&& transition_circuits_ok(tcs, params.mds@, params.mds_inv@)
                    &&& consistency_circuits_ok(ccs, params.round_constants@)
                    &&& terminal_circuits_ok(ecs)
                    &&& quotients_ok(
                        bq,
                        boundary_zerofier(fri_domain.values@),
                        xtv(codewords@),
                        ics,
                        *challenges,
                        padded_height as int,
                    )
                    &&& transition_quotients_ok(
                        tq,
                        fri_domain.values@,
                        fri_domain.omicron,
                        xtv(codewords@),
                        tcs,
                        *challenges,
                        padded_height as int,
                    )
                    &&& quotients_ok(
                        cq,
                        consistency_zerofier(fri_domain.values@, padded_height as int),
                        xtv(codewords@),
                        ccs,
                        *challenges,
                        padded_height as int,
                    )
                    &&& terminal_quotients_ok(
                        eq,
                        fri_domain.values@,
                        fri_domain.omicron,
                        xtv(codewords@),
                        ecs,
                        *challenges,
                        padded_height as int,
                    )
                    &&& r@.map_values(|q: Vec<Xfe>| q@) == bq + tq + cq + eq
                },
    {
        let initial_constraints = Self::ext_initial_constraints_as_circuits();
        let transition_constraints = Self::ext_transition_constraints_as_circuits(params);
        let consistency_constraints = Self::ext_consistency_constraints_as_circuits(params);
        let terminal_constraints = Self::ext_terminal_constraints_as_circuits();
        let mut all = Self::boundary_quotients(
            fri_domain,
            codewords,
            &initial_constraints,
            challenges,
            padded_height,
        );
        let mut transition = Self::transition_quotients(
            fri_domain,
            codewords,
            &transition_constraints,
            challenges,
            padded_height,
        );
        let mut consistency = Self::consistency_quotients(
            fri_domain,
            codewords,
            &consistency_constraints,
            challenges,
            padded_height,
        );
        let mut terminal = Self::terminal_quotients(
            fri_domain,
            codewords,
            &terminal_constraints,
            challenges,
            padded_height,
        );
        let ghost bq = all@.map_values(|q: Vec<Xfe>| q@);
        let ghost tq = transition@.map_values(|q: Vec<Xfe>| q@);
        let ghost cq = consistency@.map_values(|q: Vec<Xfe>| q@);
        let ghost eq = terminal@.map_values(|q: Vec<Xfe>| q@);
        all.append(&mut transition);
        all.append(&mut consistency);
        all.append(&mut terminal);
        proof {
            assert(all@.map_values(|q: Vec<Xfe>| q@) =~= bq + tq + cq + eq);
        }
        all
    }
}

} // verus!
