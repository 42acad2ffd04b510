//! The state circuit, which proves that the table of reads and writes is valid.
pub mod assignment;
pub mod assignment_laws;
pub mod config;
pub mod configuration;
pub mod configuration_laws;
pub mod queries;
pub mod rw;

use crate::field::Field;
use crate::state_circuit::rw::Rw;
use vstd::arithmetic::div_mod::{lemma_basic_div, lemma_fundamental_div_mod, lemma_mod_bound};
use vstd::arithmetic::power2::{
    lemma2_to64, lemma_pow2_pos, lemma_pow2_strictly_increases, lemma_pow2_unfold, pow2,
};
use vstd::bits::lemma_u64_shr_is_div;
use vstd::prelude::*;
use vstd::std_specs::bits::u64_leading_zeros;

verus! {

/// The number of 16-bit limbs of a read/write counter.
pub const N_LIMBS_RW_COUNTER: usize = 2;

/// The number of 16-bit limbs of an account address.
pub const N_LIMBS_ACCOUNT_ADDRESS: usize = 10;

/// The number of 16-bit limbs of an id.
pub const N_LIMBS_ID: usize = 2;

/// The number of bytes of a word.
pub const N_BYTES_WORD: usize = 32;

/// The state circuit over a table of `N_ROWS` rows. With `QUICK_CHECK` it does without the
/// lookups of 16-bit limbs in the lexicographic ordering, and fits fewer rows.
pub struct StateCircuitBase<F, const QUICK_CHECK: bool, const N_ROWS: usize> {
    pub randomness: F,
    pub rows: Vec<Rw<F>>,
}

/// The state circuit with every check.
pub type StateCircuit<F, const N_ROWS: usize> = StateCircuitBase<F, false, N_ROWS>;

/// The state circuit without the lookups of 16-bit limbs in the lexicographic ordering, for a
/// smaller `k`. It is almost impossible to trigger a failure of those lookups, so this circuit
/// serves to test opcode gadgets at less cost.
pub type StateCircuitLight<F, const N_ROWS: usize> = StateCircuitBase<F, true, N_ROWS>;

/// The number of binary digits of `n`.
pub open spec fn bit_length(n: nat) -> nat
    decreases n,
{
    if n == 0 {
        0
    } else {
        1 + bit_length(n / 2)
    }
}

/// The least `k` that the circuit is proved with.
pub open spec fn minimum_k(quick_check: bool) -> u32 {
    if quick_check {
        12
    } else {
        18
    }
}

/// `bit_length(n)` is the least exponent of two beyond `n`.
proof fn lemma_bit_length(n: nat)
    ensures
        n < pow2(bit_length(n)),
        n > 0 ==> bit_length(n) > 0 && pow2((bit_length(n) - 1) as nat) <= n,
    decreases n,
{
    if n > 0 {
        lemma_bit_length(n / 2);
        lemma_pow2_unfold(bit_length(n));
        if n / 2 > 0 {
            lemma_pow2_unfold(bit_length(n / 2));
        } else {
            assert(bit_length(0) == 0);
        }
    }
    lemma2_to64();
}

/// The number of digits is what leading zeros leave of 64.
proof fn lemma_leading_zeros(n: u64)
    ensures
        bit_length(n as nat) == 64 - u64_leading_zeros(n),
{
    let digits = (64 - u64_leading_zeros(n)) as nat;
    let length = bit_length(n as nat);
    lemma_bit_length(n as nat);
    lemma2_to64();
    if n > 0 {
        let top = (63 - u64_leading_zeros(n)) as u64;
        lemma_u64_shr_is_div(n, top);
        assert((n >> top) != 0u64) by (bit_vector)
            requires
                (n >> top) & 1u64 != 0u64,
        ;
        lemma_pow2_pos(top as nat);
        assert(n >= pow2(top as nat)) by {
            if n < pow2(top as nat) {
                lemma_basic_div(n as int, pow2(top as nat) as int);
            }
        }
        if digits < 64 {
            lemma_u64_shr_is_div(n, digits as u64);
            lemma_pow2_pos(digits);
            lemma_fundamental_div_mod(n as int, pow2(digits) as int);
            lemma_mod_bound(n as int, pow2(digits) as int);
            assert(n < pow2(digits));
        }
        if length < digits {
            if length < digits - 1 {
                lemma_pow2_strictly_increases(length, (digits - 1) as nat);
            }
        } else if length > digits {
            if digits < length - 1 {
                lemma_pow2_strictly_increases(digits, (length - 1) as nat);
            }
        }
    }
}

impl<F: Field, const QUICK_CHECK: bool, const N_ROWS: usize> Default for StateCircuitBase<
    F,
    QUICK_CHECK,
    N_ROWS,
> {
    /// The circuit without a row, over the randomness 0.
    fn default() -> (r: Self)
        ensures
            r.randomness == F::element(0),
            r.rows@ == Seq::<Rw<F>>::empty(),
    {
        StateCircuitBase { randomness: F::zero(), rows: Vec::new() }
    }
}

impl<F: Field, const QUICK_CHECK: bool, const N_ROWS: usize> StateCircuitBase<
    F,
    QUICK_CHECK,
    N_ROWS,
> {
    /// Makes a state circuit from the rows of the read/write table, in the order of the table
    /// and with the values that `randomness` gives them.
    pub fn new(randomness: F, rows: Vec<Rw<F>>) -> (r: Self)
        ensures
            r.randomness == randomness,
            r.rows == rows,
    {
        StateCircuitBase { randomness, rows }
    }

    /// The number of rows that the circuit has to hold: those of the table, and some to spare.
    pub open spec fn needed_rows(self) -> int {
        64 + self.rows@.len() as int
    }

    /// The number of binary digits of the last row's index; at least 12 or, without
    /// `QUICK_CHECK`, 18.
    pub open spec fn estimated_k(self) -> int {
        let digits = bit_length((self.needed_rows() - 1) as nat) as int;
        if digits > minimum_k(QUICK_CHECK) {
            digits
        } else {
            minimum_k(QUICK_CHECK) as int
        }
    }

    /// Estimates the `k` that a proof needs: the least one, from the minimum on, for which `2^k`
    /// rows suffice.
    pub fn estimate_k(&self) -> (k: u32)
        requires
            self.needed_rows() <= usize::MAX,
        ensures
            k == self.estimated_k(),
            k >= minimum_k(QUICK_CHECK),
            self.needed_rows() <= pow2(k as nat),
            k > minimum_k(QUICK_CHECK) ==> pow2((k - 1) as nat) < self.needed_rows(),
    {
        let n: usize = 64 + self.rows.len();
        let last: u64 = (n - 1) as u64;
        proof {
            lemma_leading_zeros(last);
            law_estimated_k_is_least(*self);
        }
        let log2_ceil: u32 = u64::BITS - last.leading_zeros();
        let k: u32 = if QUICK_CHECK {
            12
        } else {
            18
        };
        if log2_ceil > k {
            log2_ceil
        } else {
            k
        }
    }

    /// The circuit with nothing of the prover's in it.
    pub fn without_witnesses(&self) -> (r: Self)
        ensures
            r.randomness == F::element(0),
            r.rows@ == Seq::<Rw<F>>::empty(),
    {
        Self::default()
    }

    /// The values of the instance columns, of which the circuit has none.
    pub open spec fn spec_instance(self) -> Seq<Vec<F>> {
        Seq::empty()
    }

    /// The circuit has no instance column.
    pub fn instance(&self) -> (r: Vec<Vec<F>>)
        ensures
            r@ == self.spec_instance(),
            r@ == Seq::<Vec<F>>::empty(),
    {
        Vec::new()
    }
}

/// The estimated `k` is the least one, from the minimum on, with `2^k` rows for what the circuit
/// has to hold.
pub proof fn law_estimated_k_is_least<F: Field, const QUICK_CHECK: bool, const N_ROWS: usize>(
    circuit: StateCircuitBase<F, QUICK_CHECK, N_ROWS>,
)
    ensures
        circuit.estimated_k() >= minimum_k(QUICK_CHECK),
        circuit.needed_rows() <= pow2(circuit.estimated_k() as nat),
        circuit.estimated_k() > minimum_k(QUICK_CHECK) ==> pow2(
            (circuit.estimated_k() - 1) as nat,
        ) < circuit.needed_rows(),
{
    let last = (circuit.needed_rows() - 1) as nat;
    let length = bit_length(last);
    let k = circuit.estimated_k() as nat;
    lemma_bit_length(last);
    if k > length {
        lemma_pow2_strictly_increases(length, k);
    }
}

} // verus!
