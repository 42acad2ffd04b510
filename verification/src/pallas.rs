//! The base field of the Pallas curve.
use crate::field::Field;
use halo2_proofs::arithmetic::FieldExt;
use halo2_proofs::pasta::group::ff::PrimeField;
use halo2_proofs::pasta::Fp;
use vstd::arithmetic::power::pow;
use vstd::prelude::*;

verus! {

/// The number of elements of the base field of the Pallas curve.
pub open spec fn pallas_order() -> nat {
    0x40000000000000000000000000000000224698fc094cf91b992d30ed00000001nat
}

/// `2^128`.
pub open spec fn two_128() -> nat {
    0x100000000000000000000000000000000nat
}

/// The two halves, low half first, of the residue of `n`.
pub open spec fn halves(n: nat) -> (u128, u128) {
    let m = n % pallas_order();
    ((m % two_128()) as u128, (m / two_128()) as u128)
}

/// An element of the base field of the Pallas curve, held as the two 128-bit halves of its
/// residue.
#[derive(Clone, Copy, Debug)]
pub struct Pallas {
    lo: u128,
    hi: u128,
}

/// `Fp::from(u64)`: the field element congruent to `v`, as the halves of its canonical
/// representation.
#[verifier::external_body]
fn fp_from_u64(v: u64) -> (r: (u128, u128))
    ensures
        r == halves(v as nat),
{
    let bytes = Fp::from(v).to_repr();
    (
        u128::from_le_bytes(bytes[..16].try_into().unwrap()),
        u128::from_le_bytes(bytes[16..].try_into().unwrap()),
    )
}

/// `FieldExt::from_u128` of `Fp`: the field element congruent to `v`, as the halves of its
/// canonical representation.
#[verifier::external_body]
fn fp_from_u128(v: u128) -> (r: (u128, u128))
    ensures
        r == halves(v as nat),
{
    let bytes = Fp::from_u128(v).to_repr();
    (
        u128::from_le_bytes(bytes[..16].try_into().unwrap()),
        u128::from_le_bytes(bytes[16..].try_into().unwrap()),
    )
}

/// `FieldExt::pow` of `Fp` with the exponent `exp`: the power in the field, as the halves of
/// its canonical representation. The base comes as the halves of its residue; a pair of
/// halves that is no residue is left out, since `Fp::from_repr` does not accept it.
#[verifier::external_body]
fn fp_pow(lo: u128, hi: u128, exp: u64) -> (r: (u128, u128))
    requires
        lo + hi * two_128() < pallas_order(),
    ensures
        r == halves(pow(lo + hi * two_128(), exp as nat) as nat),
{
    let mut bytes = [0u8; 32];
    bytes[..16].copy_from_slice(&lo.to_le_bytes());
    bytes[16..].copy_from_slice(&hi.to_le_bytes());
    let power = FieldExt::pow(&Fp::from_repr(bytes).unwrap(), &[exp, 0, 0, 0]).to_repr();
    (
        u128::from_le_bytes(power[..16].try_into().unwrap()),
        u128::from_le_bytes(power[16..].try_into().unwrap()),
    )
}

impl Pallas {
    /// The halves are those of a residue.
    #[verifier::type_invariant]
    spec fn wf(self) -> bool {
        self.lo + self.hi * two_128() < pallas_order()
    }

    /// The halves of the residue, low half first.
    pub fn to_halves(self) -> (r: (u128, u128))
        ensures
            r.0 + r.1 * two_128() == self.residue(),
            self.residue() < pallas_order(),
    {
        proof {
            use_type_invariant(&self);
        }
        (self.lo, self.hi)
    }
}

proof fn lemma_halves(n: nat)
    ensures
        halves(n).0 + halves(n).1 * two_128() == n % pallas_order(),
{
}

impl Field for Pallas {
    open spec fn order() -> nat {
        pallas_order()
    }

    closed spec fn residue(self) -> nat {
        (self.lo + self.hi * two_128()) as nat
    }

    closed spec fn element(n: nat) -> Self {
        Pallas { lo: halves(n).0, hi: halves(n).1 }
    }

    proof fn lemma_element(n: nat) {
        lemma_halves(n);
    }

    fn zero() -> (r: Self) {
        Self::from_u64(0)
    }

    fn one() -> (r: Self) {
        Self::from_u64(1)
    }

    fn from_u64(v: u64) -> (r: Self) {
        let (lo, hi) = fp_from_u64(v);
        proof {
            lemma_halves(v as nat);
        }
        Pallas { lo, hi }
    }

    fn from_u128(v: u128) -> (r: Self) {
        let (lo, hi) = fp_from_u128(v);
        proof {
            lemma_halves(v as nat);
        }
        Pallas { lo, hi }
    }

    fn pow(self, exp: u64) -> (r: Self) {
        proof {
            use_type_invariant(&self);
        }
        let (lo, hi) = fp_pow(self.lo, self.hi, exp);
        proof {
            lemma_halves(pow(self.residue() as int, exp as nat) as nat);
        }
        Pallas { lo, hi }
    }
}

} // verus!
