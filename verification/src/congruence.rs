//! Integers that stand for elements of a field, and bits among them.
use crate::field::Field;
use vstd::arithmetic::div_mod::{
    lemma_add_mod_noop, lemma_mod_add_multiples_vanish, lemma_mod_bound, lemma_mod_twice,
    lemma_mul_mod_noop, lemma_small_mod, lemma_sub_mod_noop,
};
use vstd::arithmetic::mul::{lemma_mul_basics, lemma_mul_by_zero_is_zero, lemma_mul_is_commutative};
use vstd::prelude::*;

verus! {

/// Two integers stand for one element of the field.
pub open spec fn congruent<F: Field>(a: int, b: int) -> bool {
    (a - b) % (F::order() as int) == 0
}

/// The value is 1 in the field.
pub open spec fn on<F: Field>(v: int) -> bool {
    congruent::<F>(v, 1)
}

/// The value is 0 in the field.
pub open spec fn off<F: Field>(v: int) -> bool {
    congruent::<F>(v, 0)
}

/// The value is 0 or 1 in the field.
pub open spec fn is_bit<F: Field>(v: int) -> bool {
    on::<F>(v) || off::<F>(v)
}

/// A product of bits is a bit, and is 1 exactly if both are.
pub proof fn lemma_and<F: Field>(a: int, b: int)
    requires
        is_bit::<F>(a),
        is_bit::<F>(b),
    ensures
        is_bit::<F>(a * b),
        on::<F>(a * b) <==> on::<F>(a) && on::<F>(b),
{
    lemma_bit::<F>(a);
    lemma_bit::<F>(b);
    lemma_bit::<F>(a * b);
    let p = F::order() as int;
    lemma_mul_mod_noop(a, b, p);
    lemma_small_mod(0, p as nat);
    lemma_small_mod(1, p as nat);
    if a % p == 0 {
        lemma_mul_by_zero_is_zero(b % p);
    } else {
        lemma_mul_basics(b % p);
    }
}

/// One minus a bit is a bit, and is 1 exactly if the bit is not.
pub proof fn lemma_not<F: Field>(a: int)
    requires
        is_bit::<F>(a),
    ensures
        is_bit::<F>(1 - a),
        on::<F>(1 - a) <==> !on::<F>(a),
{
    lemma_bit::<F>(a);
    lemma_bit::<F>(1 - a);
    lemma_small_mod(0, F::order());
    lemma_small_mod(1, F::order());
    lemma_sub_mod_noop(1, a, F::order() as int);
}

/// A value times a bit is 0 exactly if the value is, or the bit is not 1.
pub proof fn lemma_guard<F: Field>(bit: int, v: int)
    requires
        is_bit::<F>(bit),
    ensures
        off::<F>(bit * v) <==> (on::<F>(bit) ==> off::<F>(v)),
{
    let p = F::order() as int;
    lemma_bit::<F>(bit);
    lemma_bit::<F>(v);
    lemma_bit::<F>(bit * v);
    lemma_mul_mod_noop(bit, v, p);
    if bit % p == 1 {
        lemma_mod_twice(v, p);
        lemma_mul_basics(v % p);
    } else {
        lemma_small_mod(0, p as nat);
        lemma_mul_by_zero_is_zero(v % p);
    }
}

/// Being 0 and being 1, over remainders.
pub proof fn lemma_bit<F: Field>(a: int)
    ensures
        F::order() > 2,
        on::<F>(a) <==> a % (F::order() as int) == 1,
        off::<F>(a) <==> a % (F::order() as int) == 0,
{
    F::lemma_element(0);
    let p = F::order() as int;
    lemma_sub_mod_noop(a, 1, p);
    lemma_small_mod(1, p as nat);
    lemma_mod_bound(a, p);
    let m = a % p;
    if m == 0 {
        lemma_mod_add_multiples_vanish(-1, p);
        lemma_small_mod((p - 1) as nat, p as nat);
    } else {
        lemma_small_mod((m - 1) as nat, p as nat);
    }
}

/// `a` is congruent to `b` exactly if `b` is congruent to `a`.
pub proof fn lemma_congruent_symmetric<F: Field>(a: int, b: int)
    ensures
        congruent::<F>(a, b) <==> congruent::<F>(b, a),
{
    F::lemma_element(0);
    let p = F::order() as int;
    lemma_sub_mod_noop(0, a - b, p);
    lemma_sub_mod_noop(0, b - a, p);
    lemma_small_mod(0, p as nat);
}

/// If `b` is congruent to `a`, what is congruent to `b` is congruent to `a`.
pub proof fn lemma_congruent_transitive<F: Field>(a: int, b: int, c: int)
    requires
        congruent::<F>(a, b),
        congruent::<F>(c, b),
    ensures
        congruent::<F>(a, c),
{
    F::lemma_element(0);
    let p = F::order() as int;
    lemma_sub_mod_noop(a - b, c - b, p);
    lemma_small_mod(0, p as nat);
}

/// Sums, differences and products respect congruence.
pub proof fn lemma_congruent_operations<F: Field>(a: int, b: int, c: int, d: int)
    requires
        congruent::<F>(a, b),
        congruent::<F>(c, d),
    ensures
        congruent::<F>(a + c, b + d),
        congruent::<F>(a - c, b - d),
        congruent::<F>(a * c, b * d),
{
    F::lemma_element(0);
    let p = F::order() as int;
    lemma_small_mod(0, p as nat);
    lemma_add_mod_noop(a - b, c - d, p);
    lemma_sub_mod_noop(a - b, c - d, p);
    lemma_mul_mod_noop(a - b, c, p);
    lemma_mul_mod_noop(b, c - d, p);
    lemma_mul_by_zero_is_zero(c % p);
    lemma_mul_by_zero_is_zero(b % p);
    lemma_add_mod_noop((a - b) * c, b * (c - d), p);
    assert(a * c - b * d == (a - b) * c + b * (c - d)) by (nonlinear_arith);
}

/// Only 0 stands for 0 among the integers below the order on either side.
pub proof fn lemma_small_off<F: Field>(v: int)
    requires
        -(u64::MAX as int) <= v <= u64::MAX,
    ensures
        off::<F>(v) <==> v == 0,
        on::<F>(v) <==> v == 1,
{
    lemma_bit::<F>(v);
    F::lemma_element(0);
    let p = F::order() as int;
    if v < 0 {
        lemma_mod_add_multiples_vanish(v, p);
        lemma_small_mod((p + v) as nat, p as nat);
    } else {
        lemma_small_mod(v as nat, p as nat);
    }
}

/// A factor may be replaced by its value.
pub proof fn lemma_times(v: int, c: int, n: int)
    requires
        c == n,
    ensures
        v * c == n * v,
{
    lemma_mul_is_commutative(v, n);
}

} // verus!
