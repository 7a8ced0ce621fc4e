//! Elements of the arithmetic field underlying the constraint system.
//!
//! The constraint system treats its field as an opaque prime field with
//! primitive operations; here it is a prime field of 64-bit words.  Every
//! element is kept reduced, so an element's mathematical value is just its
//! word read as a natural number.

use vstd::prelude::*;

verus! {

/// The field's prime modulus.
pub const FIELD_MODULUS: u64 = 18446744069414584321;

#[derive(Clone, Copy, Debug, PartialEq, Eq, Structural)]
pub struct FieldElement {
    value: u64,
}

impl FieldElement {
    /// The mathematical value of the element.
    pub closed spec fn view(self) -> int {
        self.value as int
    }

    /// Every element is kept reduced below the modulus.
    pub closed spec fn wf(self) -> bool {
        self.value < FIELD_MODULUS
    }

    /// A well-formed element's value lies below the modulus.
    pub proof fn lemma_wf_bound(self)
        requires
            self.wf(),
        ensures
            0 <= self@ < FIELD_MODULUS,
    {
    }

    pub fn zero() -> (r: FieldElement)
        ensures
            r@ == 0,
            r.wf(),
    {
        FieldElement { value: 0 }
    }

    pub fn one() -> (r: FieldElement)
        ensures
            r@ == 1,
            r.wf(),
    {
        FieldElement { value: 1 }
    }

    /// Reduces a 128-bit word into the field.
    pub fn from_u128(v: u128) -> (r: FieldElement)
        ensures
            r@ == v as int % FIELD_MODULUS as int,
            r.wf(),
    {
        FieldElement { value: (v % (FIELD_MODULUS as u128)) as u64 }
    }

    pub fn from_u64(v: u64) -> (r: FieldElement)
        ensures
            r@ == v as int % FIELD_MODULUS as int,
            r.wf(),
    {
        FieldElement { value: v % FIELD_MODULUS }
    }

    pub fn is_zero(&self) -> (r: bool)
        ensures
            r <==> self@ == 0,
    {
        self.value == 0
    }

    pub fn is_one(&self) -> (r: bool)
        ensures
            r <==> self@ == 1,
    {
        self.value == 1
    }

    /// Field addition.
    pub fn add(self, other: FieldElement) -> (r: FieldElement)
        requires
            self.wf(),
            other.wf(),
        ensures
            r@ == (self@ + other@) % FIELD_MODULUS as int,
            r.wf(),
    {
        let sum: u128 = self.value as u128 + other.value as u128;
        FieldElement { value: (sum % (FIELD_MODULUS as u128)) as u64 }
    }

    /// Field multiplication.
    pub fn mul(self, other: FieldElement) -> (r: FieldElement)
        requires
            self.wf(),
            other.wf(),
        ensures
            r@ == (self@ * other@) % FIELD_MODULUS as int,
            r.wf(),
    {
        proof {
            assert(self.value as u128 * other.value as u128 <= u128::MAX) by (nonlinear_arith)
                requires
                    self.value < FIELD_MODULUS,
                    other.value < FIELD_MODULUS,
            {
            }
        }
        let prod: u128 = self.value as u128 * other.value as u128;
        FieldElement { value: (prod % (FIELD_MODULUS as u128)) as u64 }
    }

    /// Additive inverse.
    pub fn neg(self) -> (r: FieldElement)
        requires
            self.wf(),
        ensures
            r@ == (FIELD_MODULUS as int - self@) % FIELD_MODULUS as int,
            r.wf(),
    {
        if self.value == 0 {
            FieldElement { value: 0 }
        } else {
            FieldElement { value: FIELD_MODULUS - self.value }
        }
    }

    /// Field subtraction.
    pub fn sub(self, other: FieldElement) -> (r: FieldElement)
        requires
            self.wf(),
            other.wf(),
        ensures
            r@ == (self@ - other@ + FIELD_MODULUS as int) % FIELD_MODULUS as int,
            r.wf(),
    {
        let sum: u128 = self.value as u128 + (FIELD_MODULUS - other.value) as u128;
        FieldElement { value: (sum % (FIELD_MODULUS as u128)) as u64 }
    }

    /// The element's reduced representative as a machine word.
    pub fn to_u64(&self) -> (r: u64)
        ensures
            r as int == self@,
    {
        self.value
    }
}

} // verus!
