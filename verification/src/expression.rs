//! Low-degree polynomial expressions over witnesses.
//!
//! An expression is a sum of degree-two terms, degree-one terms and a
//! constant.  The lowering pass combines expressions algebraically as long
//! as the degree stays within the accepted bound of two; anything larger is
//! pinned to a fresh witness by the caller.

use vstd::prelude::*;

use crate::field::FieldElement;
use crate::field::FIELD_MODULUS;

verus! {

/// An opaque index into the witness vector of the constraint system.
#[derive(Clone, Copy, Debug, PartialEq, Eq, Structural)]
pub struct Witness {
    pub index: u64,
}

/// A degree-one term: a coefficient times one witness.
#[derive(Clone, Copy, Debug, PartialEq, Eq, Structural)]
pub struct LinearTerm {
    pub coefficient: FieldElement,
    pub witness: Witness,
}

/// A degree-two term: a coefficient times a product of two witnesses.
#[derive(Clone, Copy, Debug, PartialEq, Eq, Structural)]
pub struct MulTerm {
    pub coefficient: FieldElement,
    pub witness_left: Witness,
    pub witness_right: Witness,
}

/// A polynomial of degree at most two over witnesses.
#[derive(Clone, Debug, PartialEq, Eq)]
#[verifier::ext_equal]
pub struct Expression {
    pub mul_terms: Vec<MulTerm>,
    pub linear_combinations: Vec<LinearTerm>,
    pub q_c: FieldElement,
}

impl Expression {
    /// All coefficients are reduced field elements.
    pub open spec fn wf(self) -> bool {
        &&& forall|i: int| 0 <= i < self.mul_terms@.len() ==> (#[trigger] self.mul_terms@[i]).coefficient.wf()
        &&& forall|i: int|
            0 <= i < self.linear_combinations@.len() ==> (
            #[trigger] self.linear_combinations@[i]).coefficient.wf()
        &&& self.q_c.wf()
    }

    /// The polynomial degree of the expression as represented.
    pub open spec fn degree(self) -> int {
        if self.mul_terms@.len() > 0 {
            2
        } else if self.linear_combinations@.len() > 0 {
            1
        } else {
            0
        }
    }

    /// An expression that is exactly one witness with coefficient one.
    pub open spec fn is_witness_poly(self) -> bool {
        &&& self.mul_terms@.len() == 0
        &&& self.linear_combinations@.len() == 1
        &&& self.linear_combinations@[0].coefficient@ == 1
        &&& self.q_c@ == 0
    }

    /// The constant polynomial `c`.
    pub fn constant(c: FieldElement) -> (r: Expression)
        requires
            c.wf(),
        ensures
            r.mul_terms@.len() == 0,
            r.linear_combinations@.len() == 0,
            r.q_c == c,
            r.wf(),
            r.degree() == 0,
    {
        Expression { mul_terms: Vec::new(), linear_combinations: Vec::new(), q_c: c }
    }

    /// The polynomial `1 * w`.
    pub fn from_witness(w: Witness) -> (r: Expression)
        ensures
            r.mul_terms@.len() == 0,
            r.linear_combinations@.len() == 1,
            r.linear_combinations@[0].coefficient@ == 1,
            r.linear_combinations@[0].witness == w,
            r.q_c@ == 0,
            r.wf(),
            r.is_witness_poly(),
    {
        let mut linear: Vec<LinearTerm> = Vec::new();
        linear.push(LinearTerm { coefficient: FieldElement::one(), witness: w });
        Expression { mul_terms: Vec::new(), linear_combinations: linear, q_c: FieldElement::zero() }
    }

    /// Whether the expression is a constant.
    pub fn is_const(&self) -> (r: bool)
        ensures
            r <==> self.degree() == 0,
    {
        self.mul_terms.len() == 0 && self.linear_combinations.len() == 0
    }

    /// Whether the expression has degree at most one.
    pub fn is_linear(&self) -> (r: bool)
        ensures
            r <==> self.mul_terms@.len() == 0,
    {
        self.mul_terms.len() == 0
    }

    /// If the expression is exactly one witness, that witness.
    pub fn to_witness(&self) -> (r: Option<Witness>)
        ensures
            match r {
                Some(w) => self.is_witness_poly() && w == self.linear_combinations@[0].witness,
                None => !self.is_witness_poly(),
            },
    {
        if self.mul_terms.len() == 0 && self.linear_combinations.len() == 1 && self.q_c.is_zero() {
            let t = self.linear_combinations[0];
            if t.coefficient.is_one() {
                return Some(t.witness);
            }
        }
        None
    }

    /// The same polynomial as another expression, term for term.
    pub open spec fn equiv(self, other: Expression) -> bool {
        &&& self.mul_terms@ == other.mul_terms@
        &&& self.linear_combinations@ == other.linear_combinations@
        &&& self.q_c == other.q_c
    }

    /// A copy of the expression, the same polynomial term for term.
    pub fn duplicate(&self) -> (r: Expression)
        ensures
            r.equiv(*self),
    {
        let r = Expression {
            mul_terms: self.mul_terms.clone(),
            linear_combinations: self.linear_combinations.clone(),
            q_c: self.q_c,
        };
        proof {
            assert(r.mul_terms@ =~= self.mul_terms@);
            assert(r.linear_combinations@ =~= self.linear_combinations@);
        }
        r
    }

    /// Sum of two expressions, by concatenating their term lists and adding
    /// the constants in the field.
    pub fn add(&self, other: &Expression) -> (r: Expression)
        requires
            self.wf(),
            other.wf(),
        ensures
            r.mul_terms@ == self.mul_terms@ + other.mul_terms@,
            r.linear_combinations@ == self.linear_combinations@ + other.linear_combinations@,
            r.q_c@ == (self.q_c@ + other.q_c@) % FIELD_MODULUS as int,
            r.wf(),
    {
        let mut mul_terms = self.mul_terms.clone();
        let mut rhs_mul = other.mul_terms.clone();
        mul_terms.append(&mut rhs_mul);
        let mut linear = self.linear_combinations.clone();
        let mut rhs_linear = other.linear_combinations.clone();
        linear.append(&mut rhs_linear);
        let r = Expression {
            mul_terms,
            linear_combinations: linear,
            q_c: self.q_c.add(other.q_c),
        };
        proof {
            assert forall|i: int| 0 <= i < r.mul_terms@.len() implies (
            #[trigger] r.mul_terms@[i]).coefficient.wf() by {
                if i < self.mul_terms@.len() {
                    assert(r.mul_terms@[i] == self.mul_terms@[i]);
                } else {
                    assert(r.mul_terms@[i] == other.mul_terms@[i - self.mul_terms@.len()]);
                }
            }
            assert forall|i: int| 0 <= i < r.linear_combinations@.len() implies (
            #[trigger] r.linear_combinations@[i]).coefficient.wf() by {
                if i < self.linear_combinations@.len() {
                    assert(r.linear_combinations@[i] == self.linear_combinations@[i]);
                } else {
                    assert(r.linear_combinations@[i] == other.linear_combinations@[i
                        - self.linear_combinations@.len()]);
                }
            }
        }
        r
    }

    /// The expression with every coefficient and the constant multiplied
    /// by `k` in the field.
    pub fn scale(&self, k: FieldElement) -> (r: Expression)
        requires
            self.wf(),
            k.wf(),
        ensures
            r.mul_terms@.len() == self.mul_terms@.len(),
            forall|i: int|
                0 <= i < r.mul_terms@.len() ==> {
                    &&& (#[trigger] r.mul_terms@[i]).coefficient@ == (self.mul_terms@[i].coefficient@
                        * k@) % FIELD_MODULUS as int
                    &&& r.mul_terms@[i].witness_left == self.mul_terms@[i].witness_left
                    &&& r.mul_terms@[i].witness_right == self.mul_terms@[i].witness_right
                },
            r.linear_combinations@.len() == self.linear_combinations@.len(),
            forall|i: int|
                0 <= i < r.linear_combinations@.len() ==> {
                    &&& (#[trigger] r.linear_combinations@[i]).coefficient@
                        == (self.linear_combinations@[i].coefficient@ * k@) % FIELD_MODULUS as int
                    &&& r.linear_combinations@[i].witness == self.linear_combinations@[i].witness
                },
            r.q_c@ == (self.q_c@ * k@) % FIELD_MODULUS as int,
            r.wf(),
            r.degree() <= self.degree(),
    {
        let mut mul_terms: Vec<MulTerm> = Vec::new();
        let mut i: usize = 0;
        while i < self.mul_terms.len()
            invariant
                self.wf(),
                k.wf(),
                i <= self.mul_terms@.len(),
                mul_terms@.len() == i,
                forall|j: int|
                    0 <= j < i ==> {
                        &&& (#[trigger] mul_terms@[j]).coefficient@ == (self.mul_terms@[j].coefficient@
                            * k@) % FIELD_MODULUS as int
                        &&& mul_terms@[j].coefficient.wf()
                        &&& mul_terms@[j].witness_left == self.mul_terms@[j].witness_left
                        &&& mul_terms@[j].witness_right == self.mul_terms@[j].witness_right
                    },
            decreases self.mul_terms@.len() - i,
        {
            let t = self.mul_terms[i];
            mul_terms.push(
                MulTerm {
                    coefficient: t.coefficient.mul(k),
                    witness_left: t.witness_left,
                    witness_right: t.witness_right,
                },
            );
            i += 1;
        }
        let mut linear: Vec<LinearTerm> = Vec::new();
        let mut i: usize = 0;
        while i < self.linear_combinations.len()
            invariant
                self.wf(),
                k.wf(),
                i <= self.linear_combinations@.len(),
                linear@.len() == i,
                forall|j: int|
                    0 <= j < i ==> {
                        &&& (#[trigger] linear@[j]).coefficient@
                            == (self.linear_combinations@[j].coefficient@ * k@) % FIELD_MODULUS as int
                        &&& linear@[j].coefficient.wf()
                        &&& linear@[j].witness == self.linear_combinations@[j].witness
                    },
            decreases self.linear_combinations@.len() - i,
        {
            let t = self.linear_combinations[i];
            linear.push(LinearTerm { coefficient: t.coefficient.mul(k), witness: t.witness });
            i += 1;
        }
        Expression { mul_terms, linear_combinations: linear, q_c: self.q_c.mul(k) }
    }
}

} // verus!
