//! The configuration of the state circuit.
//!
//! The configuration of a chip whose inside the circuit does not read goes by a handle of type `C`.
use crate::expression::{Advice, Column, Expression, Fixed};
use crate::field::Field;
use crate::state_circuit::N_BYTES_WORD;
use vstd::arithmetic::div_mod::lemma_small_mod;
use vstd::arithmetic::power::{lemma0_pow, lemma_pow_positive, pow};
use vstd::prelude::*;

verus! {

/// The columns of a number of `N` bits, the most significant bit first.
#[derive(Clone, Copy, Debug)]
pub struct BinaryNumberConfig<const N: usize> {
    pub bits: [Column<Advice>; N],
}

/// The keys for sorting the rows of the state circuit.
#[derive(Debug)]
pub struct SortKeysConfig<C> {
    pub tag: BinaryNumberConfig<4>,
    pub id: C,
    pub address: C,
    pub field_tag: Column<Advice>,
    pub storage_key: C,
    pub rw_counter: C,
}

impl<C: Copy> Clone for SortKeysConfig<C> {
    fn clone(&self) -> (r: Self)
        ensures
            r == *self,
    {
        *self
    }
}

impl<C: Copy> Copy for SortKeysConfig<C> {

}

/// The configuration of the chip that orders the rows lexicographically.
#[derive(Debug)]
pub struct LexicographicOrderingConfig<C> {
    pub selector: Column<Fixed>,
    /// The index of the first limb of the sort keys in which a row differs from the row before.
    pub first_different_limb: BinaryNumberConfig<5>,
    pub chip: C,
}

impl<C: Copy> Clone for LexicographicOrderingConfig<C> {
    fn clone(&self) -> (r: Self)
        ensures
            r == *self,
    {
        *self
    }
}

impl<C: Copy> Copy for LexicographicOrderingConfig<C> {

}

/// The configuration of the state circuit.
#[derive(Debug)]
pub struct StateConfig<F, C, const QUICK_CHECK: bool> {
    pub selector: Column<Fixed>,
    pub sort_keys: SortKeysConfig<C>,
    pub is_write: Column<Advice>,
    pub value: Column<Advice>,
    /// The value at the start of the block: for accounts and their storage the committed value,
    /// for others 0.
    pub initial_value: Column<Advice>,
    pub lexicographic_ordering: LexicographicOrderingConfig<C>,
    pub lookups: C,
    pub power_of_randomness: Vec<Expression<F>>,
}

/// The configuration of the full circuit and that of the light one have the same parts.
pub open spec fn configs_agree<F, C>(
    full: StateConfig<F, C, false>,
    light: StateConfig<F, C, true>,
) -> bool {
    &&& full.selector == light.selector
    &&& full.sort_keys == light.sort_keys
    &&& full.is_write == light.is_write
    &&& full.value == light.value
    &&& full.initial_value == light.initial_value
    &&& full.lexicographic_ordering == light.lexicographic_ordering
    &&& full.lookups == light.lookups
    &&& full.power_of_randomness@ == light.power_of_randomness@
}

impl<F: Field, C: Copy, const QUICK_CHECK: bool> Clone for StateConfig<F, C, QUICK_CHECK> {
    fn clone(&self) -> (r: Self)
        ensures
            r.selector == self.selector,
            r.sort_keys == self.sort_keys,
            r.is_write == self.is_write,
            r.value == self.value,
            r.initial_value == self.initial_value,
            r.lexicographic_ordering == self.lexicographic_ordering,
            r.lookups == self.lookups,
            r.power_of_randomness@ == self.power_of_randomness@,
    {
        let power_of_randomness: Vec<Expression<F>> = self.power_of_randomness.clone();
        assert(power_of_randomness@ =~= self.power_of_randomness@);
        StateConfig {
            selector: self.selector,
            sort_keys: self.sort_keys,
            is_write: self.is_write,
            value: self.value,
            initial_value: self.initial_value,
            lexicographic_ordering: self.lexicographic_ordering,
            lookups: self.lookups,
            power_of_randomness,
        }
    }
}

/// The powers of `randomness`, from the first on, one for each byte of a word but the first.
pub open spec fn powers<F: Field>(randomness: u128) -> Seq<Expression<F>> {
    Seq::new(
        (N_BYTES_WORD - 1) as nat,
        |i: int|
            Expression::Constant(
                F::element(
                    pow(F::element(randomness as nat).residue() as int, (i + 1) as nat) as nat,
                ),
            ),
    )
}

/// The powers of `randomness`, from the first on, one for each byte of a word but the first.
pub fn power_of_randomness<F: Field>(randomness: u128) -> (r: Vec<Expression<F>>)
    ensures
        r@ == powers::<F>(randomness),
{
    let base: F = F::from_u128(randomness);
    let mut constants: Vec<Expression<F>> = Vec::new();
    let mut exp: u64 = 1;
    while exp < 32
        invariant
            1 <= exp <= 32,
            base == F::element(randomness as nat),
            constants@ == powers::<F>(randomness).take(exp - 1),
        decreases 32 - exp,
    {
        constants.push(Expression::Constant(base.pow(exp)));
        exp += 1;
    }
    constants
}

/// The coefficients are the powers of the randomness in the field.
pub proof fn law_powers_of_randomness<F: Field>(randomness: u128, i: int)
    requires
        0 <= i < N_BYTES_WORD - 1,
    ensures
        powers::<F>(randomness)[i] matches Expression::Constant(c) && c.residue() == pow(
            randomness as int,
            (i + 1) as nat,
        ) % (F::order() as int),
{
    F::lemma_element(randomness as nat);
    let base = F::element(randomness as nat).residue() as int;
    assert(base == randomness) by {
        lemma_small_mod(randomness as nat, F::order());
    }
    let power = pow(base, (i + 1) as nat);
    F::lemma_element(power as nat);
    assert(power >= 0) by {
        if base > 0 {
            lemma_pow_positive(base, (i + 1) as nat);
        } else {
            lemma0_pow((i + 1) as nat);
        }
    }
}

} // verus!
