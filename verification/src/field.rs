//! The base field of the virtual machine and its cubic extension.
//!
//! `Bfe` holds a canonical residue modulo the prime `P`; `Xfe` is a degree-3
//! extension-field element, a polynomial `c0 + c1·x + c2·x²` reduced modulo
//! the Shah polynomial `x³ - x + 1`. All ring operations are implemented and
//! verified here; only inversion is delegated to the `twenty_first` crate.

use vstd::arithmetic::div_mod::lemma_mod_multiples_vanish;
use vstd::arithmetic::div_mod::lemma_small_mod;
use vstd::prelude::*;

use twenty_first::math::b_field_element::BFieldElement;
use twenty_first::math::traits::FiniteField;
use twenty_first::math::x_field_element::XFieldElement;

verus! {

/// The order of the base field: 2^64 - 2^32 + 1.
pub const P: u64 = 0xffff_ffff_0000_0001;

/// An element of the base field, stored as its canonical residue.
#[derive(Clone, Copy, Debug, PartialEq, Eq, Structural)]
pub struct Bfe {
    pub v: u64,
}

/// An element of the cubic extension field, with `c0` the constant
/// coefficient.
#[derive(Clone, Copy, Debug, PartialEq, Eq, Structural)]
pub struct Xfe {
    pub c0: Bfe,
    pub c1: Bfe,
    pub c2: Bfe,
}

impl Bfe {
    /// A base-field element is well-formed when it stores a canonical residue.
    pub open spec fn wf(self) -> bool {
        self.v < P
    }
}

impl Xfe {
    /// All three coefficients are canonical residues.
    pub open spec fn wf(self) -> bool {
        self.c0.wf() && self.c1.wf() && self.c2.wf()
    }
}

pub open spec fn b_zero() -> Bfe {
    Bfe { v: 0 }
}

pub open spec fn b_one() -> Bfe {
    Bfe { v: 1 }
}

pub open spec fn b_new(v: u64) -> Bfe {
    Bfe { v: ((v as int) % (P as int)) as u64 }
}

pub open spec fn b_add(a: Bfe, b: Bfe) -> Bfe {
    Bfe { v: ((a.v + b.v) % (P as int)) as u64 }
}

pub open spec fn b_sub(a: Bfe, b: Bfe) -> Bfe {
    Bfe { v: ((a.v - b.v) % (P as int)) as u64 }
}

pub open spec fn b_mul(a: Bfe, b: Bfe) -> Bfe {
    Bfe { v: ((a.v * b.v) % (P as int)) as u64 }
}

pub open spec fn b_neg(a: Bfe) -> Bfe {
    Bfe { v: ((0 - a.v) % (P as int)) as u64 }
}

impl Bfe {
    /// Reduce an arbitrary machine word into the field.
    pub fn new(v: u64) -> (r: Bfe)
        ensures
            r == b_new(v),
            r.wf(),
    {
        Bfe { v: v % P }
    }

    pub fn zero() -> (r: Bfe)
        ensures
            r == b_zero(),
            r.wf(),
    {
        Bfe { v: 0 }
    }

    pub fn one() -> (r: Bfe)
        ensures
            r == b_one(),
            r.wf(),
    {
        Bfe { v: 1 }
    }

    pub fn add(self, rhs: Bfe) -> (r: Bfe)
        ensures
            r == b_add(self, rhs),
            r.wf(),
    {
        let s: u128 = self.v as u128 + rhs.v as u128;
        Bfe { v: (s % (P as u128)) as u64 }
    }

    pub fn sub(self, rhs: Bfe) -> (r: Bfe)
        requires
            rhs.wf(),
        ensures
            r == b_sub(self, rhs),
            r.wf(),
    {
        let s: u128 = self.v as u128 + P as u128 - rhs.v as u128;
        proof {
            lemma_mod_multiples_vanish(1, self.v - rhs.v, P as int);
        }
        Bfe { v: (s % (P as u128)) as u64 }
    }

    pub fn mul(self, rhs: Bfe) -> (r: Bfe)
        ensures
            r == b_mul(self, rhs),
            r.wf(),
    {
        proof {
            vstd::arithmetic::mul::lemma_mul_upper_bound(
                self.v as int,
                u64::MAX as int,
                rhs.v as int,
                u64::MAX as int,
            );
        }
        let s: u128 = self.v as u128 * rhs.v as u128;
        Bfe { v: (s % (P as u128)) as u64 }
    }

    pub fn neg(self) -> (r: Bfe)
        requires
            self.wf(),
        ensures
            r == b_neg(self),
            r.wf(),
    {
        let s: u128 = P as u128 - self.v as u128;
        proof {
            lemma_mod_multiples_vanish(1, 0 - self.v, P as int);
        }
        Bfe { v: (s % (P as u128)) as u64 }
    }
}

pub open spec fn x_zero() -> Xfe {
    Xfe { c0: b_zero(), c1: b_zero(), c2: b_zero() }
}

pub open spec fn x_one() -> Xfe {
    Xfe { c0: b_one(), c1: b_zero(), c2: b_zero() }
}

/// Lift a base-field element into the extension field.
pub open spec fn x_from_b(b: Bfe) -> Xfe {
    Xfe { c0: b, c1: b_zero(), c2: b_zero() }
}

pub open spec fn x_add(a: Xfe, b: Xfe) -> Xfe {
    Xfe { c0: b_add(a.c0, b.c0), c1: b_add(a.c1, b.c1), c2: b_add(a.c2, b.c2) }
}

pub open spec fn x_sub(a: Xfe, b: Xfe) -> Xfe {
    Xfe { c0: b_sub(a.c0, b.c0), c1: b_sub(a.c1, b.c1), c2: b_sub(a.c2, b.c2) }
}

/// Product of two extension-field elements, reduced modulo `x³ - x + 1`.
pub open spec fn x_mul(a: Xfe, b: Xfe) -> Xfe {
    Xfe {
        c0: b_sub(b_sub(b_mul(a.c0, b.c0), b_mul(a.c2, b.c1)), b_mul(a.c1, b.c2)),
        c1: b_sub(
            b_add(
                b_add(b_add(b_mul(a.c1, b.c0), b_mul(a.c0, b.c1)), b_mul(a.c2, b.c1)),
                b_mul(a.c1, b.c2),
            ),
            b_mul(a.c2, b.c2),
        ),
        c2: b_add(
            b_add(b_add(b_mul(a.c2, b.c0), b_mul(a.c1, b.c1)), b_mul(a.c0, b.c2)),
            b_mul(a.c2, b.c2),
        ),
    }
}

/// `base` raised to the `e`-th power.
pub open spec fn x_pow(base: Xfe, e: nat) -> Xfe
    decreases e,
{
    if e == 0 {
        x_one()
    } else {
        x_mul(x_pow(base, (e - 1) as nat), base)
    }
}

impl Xfe {
    pub fn zero() -> (r: Xfe)
        ensures
            r == x_zero(),
            r.wf(),
    {
        Xfe { c0: Bfe { v: 0 }, c1: Bfe { v: 0 }, c2: Bfe { v: 0 } }
    }

    pub fn one() -> (r: Xfe)
        ensures
            r == x_one(),
            r.wf(),
    {
        Xfe { c0: Bfe { v: 1 }, c1: Bfe { v: 0 }, c2: Bfe { v: 0 } }
    }

    pub fn from_b(b: Bfe) -> (r: Xfe)
        ensures
            r == x_from_b(b),
            b.wf() ==> r.wf(),
    {
        Xfe { c0: b, c1: Bfe { v: 0 }, c2: Bfe { v: 0 } }
    }

    pub fn add(self, rhs: Xfe) -> (r: Xfe)
        ensures
            r == x_add(self, rhs),
            r.wf(),
    {
        Xfe { c0: self.c0.add(rhs.c0), c1: self.c1.add(rhs.c1), c2: self.c2.add(rhs.c2) }
    }

    pub fn sub(self, rhs: Xfe) -> (r: Xfe)
        requires
            rhs.wf(),
        ensures
            r == x_sub(self, rhs),
            r.wf(),
    {
        Xfe { c0: self.c0.sub(rhs.c0), c1: self.c1.sub(rhs.c1), c2: self.c2.sub(rhs.c2) }
    }

    pub fn mul(self, rhs: Xfe) -> (r: Xfe)
        ensures
            r == x_mul(self, rhs),
            r.wf(),
    {
        let r0 = self.c0.mul(rhs.c0).sub(self.c2.mul(rhs.c1)).sub(self.c1.mul(rhs.c2));
        let r1 = self
            .c1
            .mul(rhs.c0)
            .add(self.c0.mul(rhs.c1))
            .add(self.c2.mul(rhs.c1))
            .add(self.c1.mul(rhs.c2))
            .sub(self.c2.mul(rhs.c2));
        let r2 = self
            .c2
            .mul(rhs.c0)
            .add(self.c1.mul(rhs.c1))
            .add(self.c0.mul(rhs.c2))
            .add(self.c2.mul(rhs.c2));
        Xfe { c0: r0, c1: r1, c2: r2 }
    }

    pub fn pow(self, e: u64) -> (r: Xfe)
        requires
            self.wf(),
        ensures
            r == x_pow(self, e as nat),
            r.wf(),
    {
        let mut acc = Xfe::one();
        let mut i: u64 = 0;
        while i < e
            invariant
                i <= e,
                self.wf(),
                acc.wf(),
                acc == x_pow(self, i as nat),
            decreases e - i,
        {
            acc = acc.mul(self);
            i = i + 1;
        }
        acc
    }
}

/// Field operations reduce, so their results are always canonical.
pub broadcast proof fn lemma_x_add_wf(a: Xfe, b: Xfe)
    ensures
        (#[trigger] x_add(a, b)).wf(),
{
}

/// Field operations reduce, so their results are always canonical.
pub broadcast proof fn lemma_x_sub_wf(a: Xfe, b: Xfe)
    ensures
        (#[trigger] x_sub(a, b)).wf(),
{
}

/// Field operations reduce, so their results are always canonical.
pub broadcast proof fn lemma_x_mul_wf(a: Xfe, b: Xfe)
    ensures
        (#[trigger] x_mul(a, b)).wf(),
{
}

/// Multiplying by zero yields zero, on either side.
pub proof fn lemma_x_mul_zero(a: Xfe)
    ensures
        x_mul(a, x_zero()) == x_zero(),
        x_mul(x_zero(), a) == x_zero(),
{
    lemma_small_mod(0nat, P as nat);
}

/// Subtracting a value from itself yields zero.
pub proof fn lemma_x_sub_self(a: Xfe)
    ensures
        x_sub(a, a) == x_zero(),
{
    lemma_small_mod(0nat, P as nat);
}

/// A three-fold subtraction chain equals the reduced integer difference.
proof fn lemma_b_chain_sub2(x: Bfe, y: Bfe, z: Bfe)
    requires
        y.wf(),
        z.wf(),
    ensures
        b_sub(b_sub(x, y), z).v == (x.v - y.v - z.v) % (P as int),
{
    let p = P as int;
    lemma_small_mod(z.v as nat, P as nat);
    vstd::arithmetic::div_mod::lemma_sub_mod_noop(x.v - y.v, z.v as int, p);
}

/// A four-term addition chain with a final subtraction equals the reduced
/// integer combination.
proof fn lemma_b_chain_add3_sub(t1: Bfe, t2: Bfe, t3: Bfe, t4: Bfe, t5: Bfe)
    requires
        t2.wf(),
        t3.wf(),
        t4.wf(),
        t5.wf(),
    ensures
        b_sub(b_add(b_add(b_add(t1, t2), t3), t4), t5).v == (t1.v + t2.v + t3.v + t4.v - t5.v) % (
        P as int),
{
    let p = P as int;
    lemma_small_mod(t2.v as nat, P as nat);
    lemma_small_mod(t3.v as nat, P as nat);
    lemma_small_mod(t4.v as nat, P as nat);
    lemma_small_mod(t5.v as nat, P as nat);
    vstd::arithmetic::div_mod::lemma_add_mod_noop(t1.v as int, t2.v as int, p);
    vstd::arithmetic::div_mod::lemma_add_mod_noop(t1.v + t2.v, t3.v as int, p);
    vstd::arithmetic::div_mod::lemma_add_mod_noop(t1.v + t2.v + t3.v, t4.v as int, p);
    vstd::arithmetic::div_mod::lemma_sub_mod_noop(t1.v + t2.v + t3.v + t4.v, t5.v as int, p);
}

/// A four-term addition chain equals the reduced integer sum.
proof fn lemma_b_chain_add3(t1: Bfe, t2: Bfe, t3: Bfe, t4: Bfe)
    requires
        t2.wf(),
        t3.wf(),
        t4.wf(),
    ensures
        b_add(b_add(b_add(t1, t2), t3), t4).v == (t1.v + t2.v + t3.v + t4.v) % (P as int),
{
    let p = P as int;
    lemma_small_mod(t2.v as nat, P as nat);
    lemma_small_mod(t3.v as nat, P as nat);
    lemma_small_mod(t4.v as nat, P as nat);
    vstd::arithmetic::div_mod::lemma_add_mod_noop(t1.v as int, t2.v as int, p);
    vstd::arithmetic::div_mod::lemma_add_mod_noop(t1.v + t2.v, t3.v as int, p);
    vstd::arithmetic::div_mod::lemma_add_mod_noop(t1.v + t2.v + t3.v, t4.v as int, p);
}

/// Multiplication of base-field elements is commutative.
proof fn lemma_b_mul_comm(a: Bfe, b: Bfe)
    ensures
        b_mul(a, b) == b_mul(b, a),
{
    vstd::arithmetic::mul::lemma_mul_is_commutative(a.v as int, b.v as int);
}

/// Multiplication of extension-field elements is commutative.
pub proof fn lemma_x_mul_comm(a: Xfe, b: Xfe)
    ensures
        x_mul(a, b) == x_mul(b, a),
{
    lemma_b_mul_comm(a.c0, b.c0);
    lemma_b_mul_comm(a.c1, b.c0);
    lemma_b_mul_comm(a.c2, b.c0);
    lemma_b_mul_comm(a.c0, b.c1);
    lemma_b_mul_comm(a.c1, b.c1);
    lemma_b_mul_comm(a.c2, b.c1);
    lemma_b_mul_comm(a.c0, b.c2);
    lemma_b_mul_comm(a.c1, b.c2);
    lemma_b_mul_comm(a.c2, b.c2);
    let p = P as int;
    // c0: (x − y) − z on both sides, with the same products in swapped order.
    lemma_b_chain_sub2(b_mul(a.c0, b.c0), b_mul(a.c2, b.c1), b_mul(a.c1, b.c2));
    lemma_b_chain_sub2(b_mul(b.c0, a.c0), b_mul(b.c2, a.c1), b_mul(b.c1, a.c2));
    // c1: four-term sum minus one product on both sides.
    lemma_b_chain_add3_sub(
        b_mul(a.c1, b.c0),
        b_mul(a.c0, b.c1),
        b_mul(a.c2, b.c1),
        b_mul(a.c1, b.c2),
        b_mul(a.c2, b.c2),
    );
    lemma_b_chain_add3_sub(
        b_mul(b.c1, a.c0),
        b_mul(b.c0, a.c1),
        b_mul(b.c2, a.c1),
        b_mul(b.c1, a.c2),
        b_mul(b.c2, a.c2),
    );
    // c2: four-term sums on both sides.
    lemma_b_chain_add3(
        b_mul(a.c2, b.c0),
        b_mul(a.c1, b.c1),
        b_mul(a.c0, b.c2),
        b_mul(a.c2, b.c2),
    );
    lemma_b_chain_add3(
        b_mul(b.c2, a.c0),
        b_mul(b.c1, a.c1),
        b_mul(b.c0, a.c2),
        b_mul(b.c2, a.c2),
    );
    assert(x_mul(a, b).c0 == x_mul(b, a).c0);
    assert(x_mul(a, b).c1 == x_mul(b, a).c1);
    assert(x_mul(a, b).c2 == x_mul(b, a).c2);
}

/// Accumulating one summand and taking it away again: `(m + c) − m − c = 0`.
proof fn lemma_b_acc2(m: Bfe, c: Bfe)
    requires
        m.wf(),
        c.wf(),
    ensures
        b_sub(b_sub(b_add(m, c), m), c) == b_zero(),
{
    let p = P as int;
    lemma_small_mod(m.v as nat, P as nat);
    lemma_small_mod(c.v as nat, P as nat);
    vstd::arithmetic::div_mod::lemma_sub_mod_noop(m.v + c.v, m.v as int, p);
    vstd::arithmetic::div_mod::lemma_sub_mod_noop(c.v as int, c.v as int, p);
    lemma_small_mod(0nat, P as nat);
}

/// Accumulating one summand and taking it away again, in the extension field.
pub proof fn lemma_x_acc2(m: Xfe, c: Xfe)
    requires
        m.wf(),
        c.wf(),
    ensures
        x_sub(x_sub(x_add(m, c), m), c) == x_zero(),
{
    lemma_b_acc2(m.c0, c.c0);
    lemma_b_acc2(m.c1, c.c1);
    lemma_b_acc2(m.c2, c.c2);
}

/// Accumulating two summands and taking them away again:
/// `((m + w) + c) − m − w − c = 0`.
proof fn lemma_b_acc3(m: Bfe, w: Bfe, c: Bfe)
    requires
        m.wf(),
        w.wf(),
        c.wf(),
    ensures
        b_sub(b_sub(b_sub(b_add(b_add(m, w), c), m), w), c) == b_zero(),
{
    let p = P as int;
    lemma_small_mod(m.v as nat, P as nat);
    lemma_small_mod(w.v as nat, P as nat);
    lemma_small_mod(c.v as nat, P as nat);
    vstd::arithmetic::div_mod::lemma_add_mod_noop(m.v + w.v, c.v as int, p);
    vstd::arithmetic::div_mod::lemma_sub_mod_noop(m.v + w.v + c.v, m.v as int, p);
    vstd::arithmetic::div_mod::lemma_sub_mod_noop(w.v + c.v, w.v as int, p);
    vstd::arithmetic::div_mod::lemma_sub_mod_noop(c.v as int, c.v as int, p);
    lemma_small_mod(0nat, P as nat);
}

/// Accumulating two summands and taking them away again, in the extension
/// field.
pub proof fn lemma_x_acc3(m: Xfe, w: Xfe, c: Xfe)
    requires
        m.wf(),
        w.wf(),
        c.wf(),
    ensures
        x_sub(x_sub(x_sub(x_add(x_add(m, w), c), m), w), c) == x_zero(),
{
    lemma_b_acc3(m.c0, w.c0, c.c0);
    lemma_b_acc3(m.c1, w.c1, c.c1);
    lemma_b_acc3(m.c2, w.c2, c.c2);
}

/// Lifting commutes with subtraction.
pub proof fn lemma_x_from_b_sub(a: Bfe, b: Bfe)
    ensures
        x_sub(x_from_b(a), x_from_b(b)) == x_from_b(b_sub(a, b)),
{
    lemma_small_mod(0nat, P as nat);
}

/// Lifting commutes with multiplication.
pub proof fn lemma_x_from_b_mul(a: Bfe, b: Bfe)
    ensures
        x_mul(x_from_b(a), x_from_b(b)) == x_from_b(b_mul(a, b)),
{
    lemma_small_mod(0nat, P as nat);
    lemma_small_mod(((a.v * b.v) % (P as int)) as nat, P as nat);
}

/// A base-field element with a known multiplicative inverse cancels: if its
/// product with a canonical element is zero, that element is zero.
pub proof fn lemma_b_mul_cancel(c: Bfe, cinv: Bfe, s: Bfe)
    requires
        b_mul(cinv, c) == b_one(),
        s.wf(),
        b_mul(c, s) == b_zero(),
    ensures
        s == b_zero(),
{
    let p = P as int;
    vstd::arithmetic::mul::lemma_mul_is_associative(cinv.v as int, c.v as int, s.v as int);
    // cinv · (c·s mod p) mod p == (cinv·c·s) mod p, and the left side is zero
    vstd::arithmetic::div_mod::lemma_mul_mod_noop_right(cinv.v as int, c.v * s.v, p);
    lemma_small_mod(0nat, P as nat);
    // (cinv·c mod p) · s mod p == (cinv·c·s) mod p, and the left side is s
    vstd::arithmetic::div_mod::lemma_mul_mod_noop_left(cinv.v * c.v, s.v as int, p);
    lemma_small_mod(s.v as nat, P as nat);
}

/// Subtraction of canonical residues yields zero exactly on equal inputs.
pub proof fn lemma_b_sub_eq_zero(a: Bfe, b: Bfe)
    requires
        a.wf(),
        b.wf(),
    ensures
        (b_sub(a, b) == b_zero()) <==> (a == b),
{
    let p = P as int;
    let d = a.v - b.v;
    if d >= 0 {
        lemma_small_mod(d as nat, P as nat);
    } else {
        lemma_mod_multiples_vanish(1, d, p);
        lemma_small_mod((d + p) as nat, P as nat);
    }
}

/// Subtraction of well-formed extension-field elements yields zero exactly on
/// equal inputs.
pub proof fn lemma_x_sub_eq_zero(a: Xfe, b: Xfe)
    requires
        a.wf(),
        b.wf(),
    ensures
        (x_sub(a, b) == x_zero()) <==> (a == b),
{
    lemma_b_sub_eq_zero(a.c0, b.c0);
    lemma_b_sub_eq_zero(a.c1, b.c1);
    lemma_b_sub_eq_zero(a.c2, b.c2);
}

/// Relies on `twenty_first::math::x_field_element::XFieldElement::inverse`:
/// the multiplicative inverse of a non-zero extension-field element.
#[verifier::external_body]
pub fn xfe_inverse(a: Xfe) -> (r: Xfe)
    requires
        a.wf(),
        a != x_zero(),
    ensures
        r.wf(),
        x_mul(r, a) == x_one(),
{
    let v = XFieldElement::new([BFieldElement::new(a.c0.v), BFieldElement::new(a.c1.v), BFieldElement::new(a.c2.v)]);
    let i = v.inverse();
    Xfe { c0: Bfe { v: i.coefficients[0].value() }, c1: Bfe { v: i.coefficients[1].value() }, c2: Bfe { v: i.coefficients[2].value() } }
}

/// Relies on `twenty_first::math::traits::FiniteField::batch_inversion`
/// (Montgomery's trick): element-wise multiplicative inverses of a vector of
/// non-zero extension-field elements.
#[verifier::external_body]
pub fn xfe_batch_inversion(input: &Vec<Xfe>) -> (r: Vec<Xfe>)
    requires
        forall|i: int| 0 <= i < input@.len() ==> (#[trigger] input@[i]).wf(),
        forall|i: int| 0 <= i < input@.len() ==> input@[i] != x_zero(),
    ensures
        r@.len() == input@.len(),
        forall|i: int| 0 <= i < r@.len() ==> (#[trigger] r@[i]).wf(),
        forall|i: int| 0 <= i < r@.len() ==> x_mul(#[trigger] r@[i], input@[i]) == x_one(),
{
    let to_ext = |a: &Xfe| {
        XFieldElement::new([BFieldElement::new(a.c0.v), BFieldElement::new(a.c1.v), BFieldElement::new(a.c2.v)])
    };
    let from_ext = |i: XFieldElement| {
        Xfe { c0: Bfe { v: i.coefficients[0].value() }, c1: Bfe { v: i.coefficients[1].value() }, c2: Bfe { v: i.coefficients[2].value() } }
    };
    let inverses = XFieldElement::batch_inversion(input.iter().map(to_ext).collect());
    inverses.into_iter().map(from_ext).collect()
}

} // verus!
