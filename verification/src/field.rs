//! The finite fields that circuits are written over.
use vstd::arithmetic::div_mod::lemma_small_mod;
use vstd::arithmetic::power::{lemma0_pow, lemma_pow0, lemma_pow_positive, pow};
use vstd::prelude::*;

verus! {

/// A prime field, seen as the integers modulo [`Field::order`].
pub trait Field: Copy {
    /// The number of elements of the field.
    spec fn order() -> nat;

    /// The integer in `0..order` that this element stands for.
    spec fn residue(self) -> nat;

    /// The element that is congruent to `n`.
    spec fn element(n: nat) -> Self;

    /// Elements and residues correspond, and every `u128` has an element of its own.
    proof fn lemma_element(n: nat)
        ensures
            Self::order() > u128::MAX,
            Self::element(n).residue() == n % Self::order(),
    ;

    /// The additive identity.
    fn zero() -> (r: Self)
        ensures
            r == Self::element(0),
    ;

    /// The multiplicative identity.
    fn one() -> (r: Self)
        ensures
            r == Self::element(1),
    ;

    /// The element congruent to `v`.
    fn from_u64(v: u64) -> (r: Self)
        ensures
            r == Self::element(v as nat),
    ;

    /// The element congruent to `v`.
    fn from_u128(v: u128) -> (r: Self)
        ensures
            r == Self::element(v as nat),
    ;

    /// `self` multiplied by itself `exp` times.
    fn pow(self, exp: u64) -> (r: Self)
        ensures
            r == Self::element(pow(self.residue() as int, exp as nat) as nat),
    ;
}

/// The elements that a field makes stand for the integers that they are made from, and its powers
/// for the powers of what an element stands for.
pub proof fn law_residues<F: Field>(
    zero: F,
    one: F,
    small: u64,
    from_small: F,
    large: u128,
    from_large: F,
    base: F,
    exp: u64,
    power: F,
)
    requires
        call_ensures(F::zero, (), zero),
        call_ensures(F::one, (), one),
        call_ensures(F::from_u64, (small,), from_small),
        call_ensures(F::from_u128, (large,), from_large),
        call_ensures(F::pow, (base, exp), power),
    ensures
        zero.residue() == 0,
        one.residue() == 1,
        from_small.residue() == small,
        from_large.residue() == large,
        power.residue() == pow(base.residue() as int, exp as nat) % (F::order() as int),
{
    F::lemma_element(0);
    F::lemma_element(1);
    F::lemma_element(small as nat);
    F::lemma_element(large as nat);
    lemma_small_mod(0, F::order());
    lemma_small_mod(1, F::order());
    lemma_small_mod(small as nat, F::order());
    lemma_small_mod(large as nat, F::order());
    let n = pow(base.residue() as int, exp as nat);
    F::lemma_element(n as nat);
    if base.residue() > 0 {
        lemma_pow_positive(base.residue() as int, exp as nat);
    } else if exp > 0 {
        lemma0_pow(exp as nat);
    } else {
        lemma_pow0(0);
    }
}

} // verus!
