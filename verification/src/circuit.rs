//! Constraint circuits: multivariate polynomial expressions over trace rows
//! and challenges, with numeric evaluation and symbolic degree analysis.
//!
//! A circuit's leaves are constants, challenges, and row inputs; its inner
//! nodes are ring operations. Single-row circuits (initial, consistency,
//! terminal constraints) may only read the current row; dual-row circuits
//! (transition constraints) may also read the next row.

use vstd::prelude::*;

use crate::challenges::challenge_value;
use crate::challenges::challenges_wf;
use crate::challenges::HashTableChallengeId;
use crate::challenges::HashTableChallenges;
use crate::field::x_add;
use crate::field::x_from_b;
use crate::field::x_mul;
use crate::field::x_sub;
use crate::field::x_zero;
use crate::field::Bfe;
use crate::field::Xfe;
use crate::BASE_WIDTH;
use crate::FULL_WIDTH;

verus! {

/// The degree of a polynomial, `-1` for the zero polynomial.
pub type Degree = i64;

/// Which cell of which row a circuit leaf reads.
///
/// The first two variants are the single-row forms; the remaining four are
/// the dual-row forms.
#[derive(Debug, Clone, Copy, PartialEq, Eq, Structural)]
pub enum InputIndicator {
    BaseRow(usize),
    ExtRow(usize),
    CurrentBaseRow(usize),
    NextBaseRow(usize),
    CurrentExtRow(usize),
    NextExtRow(usize),
}

/// An immutable multivariate polynomial expression.
#[derive(Debug, PartialEq, Eq)]
pub enum ConstraintCircuit {
    BConstant(Bfe),
    XConstant(Xfe),
    Challenge(HashTableChallengeId),
    Input(InputIndicator),
    Add(Box<ConstraintCircuit>, Box<ConstraintCircuit>),
    Sub(Box<ConstraintCircuit>, Box<ConstraintCircuit>),
    Mul(Box<ConstraintCircuit>, Box<ConstraintCircuit>),
}

/// A row cell, or zero for an index beyond the row's width.
pub open spec fn at(row: Seq<Xfe>, i: int) -> Xfe {
    if 0 <= i < row.len() {
        row[i]
    } else {
        x_zero()
    }
}

/// The value an input leaf reads from the four rows.
pub open spec fn input_value(
    ind: InputIndicator,
    base: Seq<Xfe>,
    ext: Seq<Xfe>,
    next_base: Seq<Xfe>,
    next_ext: Seq<Xfe>,
) -> Xfe {
    match ind {
        InputIndicator::BaseRow(c) => at(base, c as int),
        InputIndicator::ExtRow(c) => at(ext, c as int),
        InputIndicator::CurrentBaseRow(c) => at(base, c as int),
        InputIndicator::NextBaseRow(c) => at(next_base, c as int),
        InputIndicator::CurrentExtRow(c) => at(ext, c as int),
        InputIndicator::NextExtRow(c) => at(next_ext, c as int),
    }
}

/// Whether an indicator is of the single-row form.
pub open spec fn indicator_single_row(ind: InputIndicator) -> bool {
    match ind {
        InputIndicator::BaseRow(_) => true,
        InputIndicator::ExtRow(_) => true,
        InputIndicator::CurrentBaseRow(_) => false,
        InputIndicator::NextBaseRow(_) => false,
        InputIndicator::CurrentExtRow(_) => false,
        InputIndicator::NextExtRow(_) => false,
    }
}

/// The value of a circuit on the given rows and challenges: a bottom-up fold.
pub open spec fn eval(
    c: ConstraintCircuit,
    base: Seq<Xfe>,
    ext: Seq<Xfe>,
    next_base: Seq<Xfe>,
    next_ext: Seq<Xfe>,
    ch: HashTableChallenges,
) -> Xfe
    decreases c,
{
    match c {
        ConstraintCircuit::BConstant(b) => x_from_b(b),
        ConstraintCircuit::XConstant(x) => x,
        ConstraintCircuit::Challenge(id) => challenge_value(ch, id),
        ConstraintCircuit::Input(ind) => input_value(ind, base, ext, next_base, next_ext),
        ConstraintCircuit::Add(l, r) => x_add(
            eval(*l, base, ext, next_base, next_ext, ch),
            eval(*r, base, ext, next_base, next_ext, ch),
        ),
        ConstraintCircuit::Sub(l, r) => x_sub(
            eval(*l, base, ext, next_base, next_ext, ch),
            eval(*r, base, ext, next_base, next_ext, ch),
        ),
        ConstraintCircuit::Mul(l, r) => x_mul(
            eval(*l, base, ext, next_base, next_ext, ch),
            eval(*r, base, ext, next_base, next_ext, ch),
        ),
    }
}

/// Whether a circuit reads the current row only.
pub open spec fn single_row_only(c: ConstraintCircuit) -> bool
    decreases c,
{
    match c {
        ConstraintCircuit::BConstant(_) => true,
        ConstraintCircuit::XConstant(_) => true,
        ConstraintCircuit::Challenge(_) => true,
        ConstraintCircuit::Input(ind) => indicator_single_row(ind),
        ConstraintCircuit::Add(l, r) => single_row_only(*l) && single_row_only(*r),
        ConstraintCircuit::Sub(l, r) => single_row_only(*l) && single_row_only(*r),
        ConstraintCircuit::Mul(l, r) => single_row_only(*l) && single_row_only(*r),
    }
}

/// All constants embedded in a circuit are canonical field elements.
pub open spec fn wf_values(c: ConstraintCircuit) -> bool
    decreases c,
{
    match c {
        ConstraintCircuit::BConstant(b) => b.wf(),
        ConstraintCircuit::XConstant(x) => x.wf(),
        ConstraintCircuit::Challenge(_) => true,
        ConstraintCircuit::Input(_) => true,
        ConstraintCircuit::Add(l, r) => wf_values(*l) && wf_values(*r),
        ConstraintCircuit::Sub(l, r) => wf_values(*l) && wf_values(*r),
        ConstraintCircuit::Mul(l, r) => wf_values(*l) && wf_values(*r),
    }
}

/// Every element of the sequence is a canonical field element.
pub open spec fn row_wf(s: Seq<Xfe>) -> bool {
    forall|i: int| 0 <= i < s.len() ==> (#[trigger] s[i]).wf()
}

/// The index of the variable an input leaf stands for, in the order
/// current base row, current extension row, next base row, next extension
/// row.
pub open spec fn var_index(ind: InputIndicator) -> int {
    match ind {
        InputIndicator::BaseRow(c) => c as int,
        InputIndicator::ExtRow(c) => BASE_WIDTH + c,
        InputIndicator::CurrentBaseRow(c) => c as int,
        InputIndicator::NextBaseRow(c) => FULL_WIDTH + c,
        InputIndicator::CurrentExtRow(c) => BASE_WIDTH + c,
        InputIndicator::NextExtRow(c) => FULL_WIDTH + BASE_WIDTH + c,
    }
}

/// Addition on degrees, clamped to the machine range.
pub open spec fn clamped_add(a: int, b: int) -> int {
    if a + b > i64::MAX {
        i64::MAX as int
    } else if a + b < i64::MIN {
        i64::MIN as int
    } else {
        a + b
    }
}

/// The symbolic degree bound of a circuit, assuming the variable with index
/// `i` has degree `bounds[i]`: constants and challenges have degree zero, a
/// sum takes the maximum, a product the (clamped) sum.
pub open spec fn circuit_degree(c: ConstraintCircuit, bounds: Seq<Degree>) -> int
    decreases c,
{
    match c {
        ConstraintCircuit::BConstant(_) => 0,
        ConstraintCircuit::XConstant(_) => 0,
        ConstraintCircuit::Challenge(_) => 0,
        ConstraintCircuit::Input(ind) => {
            if 0 <= var_index(ind) < bounds.len() {
                bounds[var_index(ind)] as int
            } else {
                0
            }
        },
        ConstraintCircuit::Add(l, r) => {
            let dl = circuit_degree(*l, bounds);
            let dr = circuit_degree(*r, bounds);
            if dl >= dr {
                dl
            } else {
                dr
            }
        },
        ConstraintCircuit::Sub(l, r) => {
            let dl = circuit_degree(*l, bounds);
            let dr = circuit_degree(*r, bounds);
            if dl >= dr {
                dl
            } else {
                dr
            }
        },
        ConstraintCircuit::Mul(l, r) => clamped_add(
            circuit_degree(*l, bounds),
            circuit_degree(*r, bounds),
        ),
    }
}

/// Addition on machine-range degrees that saturates instead of overflowing.
pub(crate) fn degree_add(a: i64, b: i64) -> (r: i64)
    ensures
        r as int == clamped_add(a as int, b as int),
{
    match a.checked_add(b) {
        Some(v) => v,
        None => {
            if a > 0 {
                i64::MAX
            } else {
                i64::MIN
            }
        },
    }
}

impl Clone for ConstraintCircuit {
    fn clone(&self) -> (res: Self)
        ensures
            res == *self,
        decreases *self,
    {
        match self {
            ConstraintCircuit::BConstant(b) => ConstraintCircuit::BConstant(*b),
            ConstraintCircuit::XConstant(x) => ConstraintCircuit::XConstant(*x),
            ConstraintCircuit::Challenge(id) => ConstraintCircuit::Challenge(*id),
            ConstraintCircuit::Input(ind) => ConstraintCircuit::Input(*ind),
            ConstraintCircuit::Add(l, r) => ConstraintCircuit::Add(
                Box::new((**l).clone()),
                Box::new((**r).clone()),
            ),
            ConstraintCircuit::Sub(l, r) => ConstraintCircuit::Sub(
                Box::new((**l).clone()),
                Box::new((**r).clone()),
            ),
            ConstraintCircuit::Mul(l, r) => ConstraintCircuit::Mul(
                Box::new((**l).clone()),
                Box::new((**r).clone()),
            ),
        }
    }
}

impl ConstraintCircuit {
    /// A constant from the base field.
    pub fn b_constant(b: Bfe) -> (res: Self)
        ensures
            forall|
                base: Seq<Xfe>,
                ext: Seq<Xfe>,
                next_base: Seq<Xfe>,
                next_ext: Seq<Xfe>,
                ch: HashTableChallenges,
            |
                #[trigger] eval(res, base, ext, next_base, next_ext, ch) == x_from_b(b),
            single_row_only(res),
            wf_values(res) == b.wf(),
    {
        ConstraintCircuit::BConstant(b)
    }

    /// A constant from the extension field.
    pub fn x_constant(x: Xfe) -> (res: Self)
        ensures
            forall|
                base: Seq<Xfe>,
                ext: Seq<Xfe>,
                next_base: Seq<Xfe>,
                next_ext: Seq<Xfe>,
                ch: HashTableChallenges,
            |
                #[trigger] eval(res, base, ext, next_base, next_ext, ch) == x,
            single_row_only(res),
            wf_values(res) == x.wf(),
    {
        ConstraintCircuit::XConstant(x)
    }

    /// A challenge leaf.
    pub fn challenge(id: HashTableChallengeId) -> (res: Self)
        ensures
            forall|
                base: Seq<Xfe>,
                ext: Seq<Xfe>,
                next_base: Seq<Xfe>,
                next_ext: Seq<Xfe>,
                ch: HashTableChallenges,
            |
                #[trigger] eval(res, base, ext, next_base, next_ext, ch) == challenge_value(
                    ch,
                    id,
                ),
            single_row_only(res),
            wf_values(res),
    {
        ConstraintCircuit::Challenge(id)
    }

    /// A row-input leaf.
    pub fn input(ind: InputIndicator) -> (res: Self)
        ensures
            forall|
                base: Seq<Xfe>,
                ext: Seq<Xfe>,
                next_base: Seq<Xfe>,
                next_ext: Seq<Xfe>,
                ch: HashTableChallenges,
            |
                #[trigger] eval(res, base, ext, next_base, next_ext, ch) == input_value(
                    ind,
                    base,
                    ext,
                    next_base,
                    next_ext,
                ),
            single_row_only(res) == indicator_single_row(ind),
            wf_values(res),
    {
        ConstraintCircuit::Input(ind)
    }

    /// The sum of two circuits.
    pub fn add(self, rhs: Self) -> (res: Self)
        ensures
            forall|
                base: Seq<Xfe>,
                ext: Seq<Xfe>,
                next_base: Seq<Xfe>,
                next_ext: Seq<Xfe>,
                ch: HashTableChallenges,
            |
                #[trigger] eval(res, base, ext, next_base, next_ext, ch) == x_add(
                    eval(self, base, ext, next_base, next_ext, ch),
                    eval(rhs, base, ext, next_base, next_ext, ch),
                ),
            single_row_only(res) == (single_row_only(self) && single_row_only(rhs)),
            wf_values(res) == (wf_values(self) && wf_values(rhs)),
    {
        ConstraintCircuit::Add(Box::new(self), Box::new(rhs))
    }

    /// The difference of two circuits.
    pub fn sub(self, rhs: Self) -> (res: Self)
        ensures
            forall|
                base: Seq<Xfe>,
                ext: Seq<Xfe>,
                next_base: Seq<Xfe>,
                next_ext: Seq<Xfe>,
                ch: HashTableChallenges,
            |
                #[trigger] eval(res, base, ext, next_base, next_ext, ch) == x_sub(
                    eval(self, base, ext, next_base, next_ext, ch),
                    eval(rhs, base, ext, next_base, next_ext, ch),
                ),
            single_row_only(res) == (single_row_only(self) && single_row_only(rhs)),
            wf_values(res) == (wf_values(self) && wf_values(rhs)),
    {
        ConstraintCircuit::Sub(Box::new(self), Box::new(rhs))
    }

    /// The product of two circuits.
    pub fn mul(self, rhs: Self) -> (res: Self)
        ensures
            forall|
                base: Seq<Xfe>,
                ext: Seq<Xfe>,
                next_base: Seq<Xfe>,
                next_ext: Seq<Xfe>,
                ch: HashTableChallenges,
            |
                #[trigger] eval(res, base, ext, next_base, next_ext, ch) == x_mul(
                    eval(self, base, ext, next_base, next_ext, ch),
                    eval(rhs, base, ext, next_base, next_ext, ch),
                ),
            single_row_only(res) == (single_row_only(self) && single_row_only(rhs)),
            wf_values(res) == (wf_values(self) && wf_values(rhs)),
    {
        ConstraintCircuit::Mul(Box::new(self), Box::new(rhs))
    }

    /// Evaluate the circuit bottom-up on the given rows.
    pub fn evaluate(
        &self,
        base: &Vec<Xfe>,
        ext: &Vec<Xfe>,
        next_base: &Vec<Xfe>,
        next_ext: &Vec<Xfe>,
        challenges: &HashTableChallenges,
    ) -> (r: Xfe)
        requires
            wf_values(*self),
            row_wf(base@),
            row_wf(ext@),
            row_wf(next_base@),
            row_wf(next_ext@),
            challenges_wf(*challenges),
        ensures
            r == eval(*self, base@, ext@, next_base@, next_ext@, *challenges),
            r.wf(),
        decreases *self,
    {
        match self {
            ConstraintCircuit::BConstant(b) => Xfe::from_b(*b),
            ConstraintCircuit::XConstant(x) => *x,
            ConstraintCircuit::Challenge(id) => challenges.get_challenge(*id),
            ConstraintCircuit::Input(ind) => {
                let (row, c): (&Vec<Xfe>, usize) = match ind {
                    InputIndicator::BaseRow(c) => (base, *c),
                    InputIndicator::ExtRow(c) => (ext, *c),
                    InputIndicator::CurrentBaseRow(c) => (base, *c),
                    InputIndicator::NextBaseRow(c) => (next_base, *c),
                    InputIndicator::CurrentExtRow(c) => (ext, *c),
                    InputIndicator::NextExtRow(c) => (next_ext, *c),
                };
                if c < row.len() {
                    row[c]
                } else {
                    Xfe::zero()
                }
            },
            ConstraintCircuit::Add(l, r) => {
                let a = l.evaluate(base, ext, next_base, next_ext, challenges);
                let b = r.evaluate(base, ext, next_base, next_ext, challenges);
                a.add(b)
            },
            ConstraintCircuit::Sub(l, r) => {
                let a = l.evaluate(base, ext, next_base, next_ext, challenges);
                let b = r.evaluate(base, ext, next_base, next_ext, challenges);
                a.sub(b)
            },
            ConstraintCircuit::Mul(l, r) => {
                let a = l.evaluate(base, ext, next_base, next_ext, challenges);
                let b = r.evaluate(base, ext, next_base, next_ext, challenges);
                a.mul(b)
            },
        }
    }

    /// Evaluate a single-row circuit on one row pair of base and extension
    /// table.
    pub fn evaluate_single_row(
        &self,
        base_row: &Vec<Xfe>,
        ext_row: &Vec<Xfe>,
        challenges: &HashTableChallenges,
    ) -> (r: Xfe)
        requires
            wf_values(*self),
            single_row_only(*self),
            row_wf(base_row@),
            row_wf(ext_row@),
            challenges_wf(*challenges),
        ensures
            r == eval(
                *self,
                base_row@,
                ext_row@,
                Seq::<Xfe>::empty(),
                Seq::<Xfe>::empty(),
                *challenges,
            ),
            r.wf(),
    {
        let empty: Vec<Xfe> = Vec::new();
        self.evaluate(base_row, ext_row, &empty, &empty, challenges)
    }

    /// Evaluate a dual-row circuit on two adjacent row pairs.
    pub fn evaluate_dual_row(
        &self,
        current_base_row: &Vec<Xfe>,
        current_ext_row: &Vec<Xfe>,
        next_base_row: &Vec<Xfe>,
        next_ext_row: &Vec<Xfe>,
        challenges: &HashTableChallenges,
    ) -> (r: Xfe)
        requires
            wf_values(*self),
            row_wf(current_base_row@),
            row_wf(current_ext_row@),
            row_wf(next_base_row@),
            row_wf(next_ext_row@),
            challenges_wf(*challenges),
        ensures
            r == eval(
                *self,
                current_base_row@,
                current_ext_row@,
                next_base_row@,
                next_ext_row@,
                *challenges,
            ),
            r.wf(),
    {
        self.evaluate(current_base_row, current_ext_row, next_base_row, next_ext_row, challenges)
    }

    /// The circuit's symbolic degree bound, given one degree bound per
    /// variable.
    pub fn symbolic_degree_bound(&self, bounds: &Vec<Degree>) -> (r: Degree)
        ensures
            r as int == circuit_degree(*self, bounds@),
        decreases *self,
    {
        match self {
            ConstraintCircuit::BConstant(_) => 0,
            ConstraintCircuit::XConstant(_) => 0,
            ConstraintCircuit::Challenge(_) => 0,
            ConstraintCircuit::Input(ind) => {
                let (c, offset): (usize, usize) = match ind {
                    InputIndicator::BaseRow(c) => (*c, 0),
                    InputIndicator::ExtRow(c) => (*c, BASE_WIDTH),
                    InputIndicator::CurrentBaseRow(c) => (*c, 0),
                    InputIndicator::NextBaseRow(c) => (*c, FULL_WIDTH),
                    InputIndicator::CurrentExtRow(c) => (*c, BASE_WIDTH),
                    InputIndicator::NextExtRow(c) => (*c, FULL_WIDTH + BASE_WIDTH),
                };
                let idx: usize = match c.checked_add(offset) {
                    Some(v) => v,
                    None => usize::MAX,
                };
                let n: usize = bounds.len();
                proof {
                    if c + offset > usize::MAX {
                        assert(var_index(*ind) > n);
                    }
                }
                if idx < n {
                    bounds[idx]
                } else {
                    0
                }
            },
            ConstraintCircuit::Add(l, r) => {
                let dl = l.symbolic_degree_bound(bounds);
                let dr = r.symbolic_degree_bound(bounds);
                if dl >= dr {
                    dl
                } else {
                    dr
                }
            },
            ConstraintCircuit::Sub(l, r) => {
                let dl = l.symbolic_degree_bound(bounds);
                let dr = r.symbolic_degree_bound(bounds);
                if dl >= dr {
                    dl
                } else {
                    dr
                }
            },
            ConstraintCircuit::Mul(l, r) => {
                let dl = l.symbolic_degree_bound(bounds);
                let dr = r.symbolic_degree_bound(bounds);
                degree_add(dl, dr)
            },
        }
    }
}

} // verus!
