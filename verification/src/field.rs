//! Scalar field elements: values in the fixed prime field of order
//! [`MODULUS`], with addition, subtraction and multiplication, a designated
//! zero and a designated one. A value is immutable once created.

use vstd::prelude::*;

verus! {

/// Order of the scalar field: the Mersenne prime `2^61 - 1`.
pub const MODULUS: u64 = 2305843009213693951;

/// Sum of two field values, as a mathematical function on residues.
pub open spec fn fadd(a: nat, b: nat) -> nat {
    (a + b) % (MODULUS as nat)
}

/// Product of two field values, as a mathematical function on residues.
pub open spec fn fmul(a: nat, b: nat) -> nat {
    (a * b) % (MODULUS as nat)
}

/// Difference of two field values, as a mathematical function on residues.
pub open spec fn fsub(a: nat, b: nat) -> nat {
    (((a % (MODULUS as nat)) + (MODULUS as nat) - (b % (MODULUS as nat))) % (MODULUS as int)) as nat
}

/// One element of the scalar field, kept reduced modulo [`MODULUS`].
#[derive(Clone, Copy, PartialEq, Eq, Structural, Debug)]
pub struct Felt {
    v: u64,
}

impl Felt {
    /// The residue this element stands for.
    pub closed spec fn val(self) -> nat {
        self.v as nat
    }

    #[verifier::type_invariant]
    spec fn reduced(self) -> bool {
        self.v < MODULUS
    }

    /// The element standing for `x`, reduced.
    pub fn new(x: u64) -> (r: Felt)
        ensures
            r.val() == x as nat % (MODULUS as nat),
    {
        Felt { v: x % MODULUS }
    }

    /// The field's zero element.
    pub fn zero() -> (r: Felt)
        ensures
            r.val() == 0,
    {
        Felt { v: 0 }
    }

    /// The field's one element.
    pub fn one() -> (r: Felt)
        ensures
            r.val() == 1,
    {
        Felt { v: 1 }
    }

    /// The reduced residue, as a machine integer.
    pub fn as_u64(&self) -> (r: u64)
        ensures
            r as nat == self.val(),
    {
        self.v
    }

    /// Field addition.
    pub fn add(self, other: Felt) -> (r: Felt)
        ensures
            r.val() == fadd(self.val(), other.val()),
    {
        proof {
            use_type_invariant(self);
            use_type_invariant(other);
        }
        Felt { v: (self.v + other.v) % MODULUS }
    }

    /// Field subtraction.
    pub fn sub(self, other: Felt) -> (r: Felt)
        ensures
            r.val() == fsub(self.val(), other.val()),
    {
        proof {
            use_type_invariant(self);
            use_type_invariant(other);
        }
        Felt { v: (self.v + MODULUS - other.v) % MODULUS }
    }

    /// Field multiplication.
    pub fn mul(self, other: Felt) -> (r: Felt)
        ensures
            r.val() == fmul(self.val(), other.val()),
    {
        proof {
            use_type_invariant(self);
            use_type_invariant(other);
            assert((self.v as nat) * (other.v as nat) < 5316911983139663487003542222693990402nat)
                by (nonlinear_arith)
                requires
                    self.v < 2305843009213693951,
                    other.v < 2305843009213693951,
            ;
        }
        let wide: u128 = (self.v as u128) * (other.v as u128);
        let reduced: u128 = wide % (MODULUS as u128);
        proof {
            assert(reduced < MODULUS as u128);
            assert(reduced == (self.v as nat * other.v as nat) % (MODULUS as nat));
        }
        Felt { v: reduced as u64 }
    }
}

/// Subtracting a residue from itself yields the field's zero.
pub proof fn lemma_fsub_self(a: nat)
    ensures
        fsub(a, a) == 0,
{
}

} // verus!
