//! What the key gate of the extension-node key chip means.
use crate::congruence::{
    congruent, is_bit, lemma_and, lemma_bit, lemma_congruent_symmetric,
    lemma_congruent_transitive, lemma_guard, lemma_not, lemma_times, off, on,
};
use crate::constraint_system::{Constraint, ConstraintSystem, Gate};
use crate::expression::{
    advice_cell, fixed_cell, Advice, AnyColumn, Cell, Column, Expression, Fixed, Grid,
};
use crate::extension_node_key::{
    is_key_gate, ExtensionNodeKeyChip, ExtensionNodeKeyConfig, KeyCells, KeyColumns,
};
use crate::field::Field;
use crate::rlc::{cells_at, rlc};
use vstd::arithmetic::div_mod::{lemma_mul_mod_noop, lemma_small_mod};
use vstd::arithmetic::mul::{
    lemma_mul_basics, lemma_mul_by_zero_is_zero, lemma_mul_is_distributive_add_other_way,
};
use vstd::prelude::*;

verus! {

/// Every constraint of the key gate vanishes on `row`.
pub open spec fn gate_holds<F: Field>(gate: Gate<F>, grid: Grid, row: int) -> bool {
    forall|i: int|
        0 <= i < gate.constraints@.len() ==> (#[trigger] gate.constraints@[i]).poly.vanishes(
            grid,
            row,
        )
}

/// The value of an advice column on a row.
pub open spec fn advice_at(grid: Grid, column: Column<Advice>, row: int) -> int {
    grid(AnyColumn::Advice(column), row)
}

/// The value of a fixed column on a row.
pub open spec fn fixed_at(grid: Grid, column: Column<Fixed>, row: int) -> int {
    grid(AnyColumn::Fixed(column), row)
}

/// The sum of the key bytes in the columns `bytes` on the row above `row`, the `i`-th of them
/// times the `i`-th coefficient of the table.
pub open spec fn key_bytes_rlc<F: Field>(
    bytes: Seq<Column<Advice>>,
    r_table: Seq<Expression<F>>,
    grid: Grid,
    row: int,
) -> int
    decreases bytes.len(),
{
    if bytes.len() == 0 {
        0
    } else {
        key_bytes_rlc(bytes.drop_last(), r_table, grid, row) + advice_at(
            grid,
            bytes.last(),
            row - 1,
        ) * r_table[bytes.len() - 1].eval(grid, row)
    }
}

/// The selectors that the key gate reads on `row` are 0 or 1.
pub open spec fn selectors_are_bits<F: Field, const HASH_WIDTH: usize>(
    columns: KeyColumns<HASH_WIDTH>,
    grid: Grid,
    row: int,
) -> bool {
    let p = columns.positions;
    &&& is_bit::<F>(fixed_at(grid, columns.q_not_first, row))
    &&& is_bit::<F>(fixed_at(grid, columns.not_first_level, row))
    &&& is_bit::<F>(advice_at(grid, columns.flag(p.is_extension_node_pos), row - 18))
    &&& is_bit::<F>(advice_at(grid, columns.flag(p.is_extension_node_pos), row - 17))
    &&& is_bit::<F>(advice_at(grid, columns.flag(p.is_extension_even_key_len_pos), row - 18))
    &&& is_bit::<F>(advice_at(grid, columns.flag(p.is_extension_key_long_pos), row - 18))
    &&& is_bit::<F>(advice_at(grid, columns.sel1, row - 18))
    &&& is_bit::<F>(advice_at(grid, columns.is_account_leaf_storage_codehash_c, row - 19))
    &&& is_bit::<F>(advice_at(grid, columns.is_branch_init, row - 1))
    &&& is_bit::<F>(advice_at(grid, columns.is_branch_child, row - 1))
    &&& is_bit::<F>(advice_at(grid, columns.is_branch_child, row))
    &&& is_bit::<F>(advice_at(grid, columns.is_last_branch_child, row - 1))
    &&& is_bit::<F>(advice_at(grid, columns.is_last_branch_child, row - 2))
}

/// `row` and the row above are branch children.
pub open spec fn is_later_branch_child<F: Field, const HASH_WIDTH: usize>(
    columns: KeyColumns<HASH_WIDTH>,
    grid: Grid,
    row: int,
) -> bool {
    &&& on::<F>(fixed_at(grid, columns.q_not_first, row))
    &&& on::<F>(advice_at(grid, columns.is_branch_child, row - 1))
    &&& on::<F>(advice_at(grid, columns.is_branch_child, row))
}

/// The row above is neither a branch init row nor a branch child.
pub open spec fn follows_no_branch_row<F: Field, const HASH_WIDTH: usize>(
    columns: KeyColumns<HASH_WIDTH>,
    grid: Grid,
    row: int,
) -> bool {
    &&& on::<F>(fixed_at(grid, columns.q_not_first, row))
    &&& !on::<F>(advice_at(grid, columns.is_branch_init, row - 1))
    &&& !on::<F>(advice_at(grid, columns.is_branch_child, row - 1))
}

/// `row` is the S row of a branch that has no extension node: the row after the last branch child.
pub open spec fn is_s_row_without_extension<F: Field, const HASH_WIDTH: usize>(
    columns: KeyColumns<HASH_WIDTH>,
    grid: Grid,
    row: int,
) -> bool {
    &&& on::<F>(fixed_at(grid, columns.q_not_first, row))
    &&& !on::<F>(advice_at(grid, columns.is_branch_init, row - 1))
    &&& on::<F>(advice_at(grid, columns.is_last_branch_child, row - 1))
    &&& !on::<F>(advice_at(grid, columns.flag(columns.positions.is_extension_node_pos), row - 17))
}

/// `row` is the C row of a branch that has no extension node: the row after the S row.
pub open spec fn is_c_row_without_extension<F: Field, const HASH_WIDTH: usize>(
    columns: KeyColumns<HASH_WIDTH>,
    grid: Grid,
    row: int,
) -> bool {
    &&& follows_no_branch_row::<F, HASH_WIDTH>(columns, grid, row)
    &&& on::<F>(advice_at(grid, columns.is_last_branch_child, row - 2))
    &&& !on::<F>(advice_at(grid, columns.flag(columns.positions.is_extension_node_pos), row - 18))
}

/// `row` is the C row of an extension node whose key is long and has an even number of nibbles.
pub open spec fn is_long_even_c_row<F: Field, const HASH_WIDTH: usize>(
    columns: KeyColumns<HASH_WIDTH>,
    grid: Grid,
    row: int,
) -> bool {
    let p = columns.positions;
    &&& on::<F>(advice_at(grid, columns.flag(p.is_extension_node_pos), row - 18))
    &&& on::<F>(advice_at(grid, columns.is_last_branch_child, row - 2))
    &&& on::<F>(advice_at(grid, columns.flag(p.is_extension_even_key_len_pos), row - 18))
    &&& on::<F>(advice_at(grid, columns.flag(p.is_extension_key_long_pos), row - 18))
}

/// `row` belongs to the first level of an account proof or of a storage proof.
pub open spec fn is_first_level<F: Field, const HASH_WIDTH: usize>(
    columns: KeyColumns<HASH_WIDTH>,
    grid: Grid,
    row: int,
) -> bool {
    if on::<F>(fixed_at(grid, columns.not_first_level, row)) {
        on::<F>(advice_at(grid, columns.is_account_leaf_storage_codehash_c, row - 19))
    } else {
        follows_no_branch_row::<F, HASH_WIDTH>(columns, grid, row)
    }
}

/// `row` belongs to a later level, and the modified node takes the first nibble of a key byte.
pub open spec fn is_later_level_sel1<F: Field, const HASH_WIDTH: usize>(
    columns: KeyColumns<HASH_WIDTH>,
    grid: Grid,
    row: int,
) -> bool {
    &&& on::<F>(fixed_at(grid, columns.not_first_level, row))
    &&& !on::<F>(advice_at(grid, columns.is_account_leaf_storage_codehash_c, row - 19))
    &&& on::<F>(advice_at(grid, columns.sel1, row - 18))
}

/// The key RLC and its multiplier are those of the row above.
pub open spec fn key_rlc_is_kept<F: Field, const HASH_WIDTH: usize>(
    columns: KeyColumns<HASH_WIDTH>,
    grid: Grid,
    row: int,
) -> bool {
    &&& congruent::<F>(
        advice_at(grid, columns.key_rlc, row),
        advice_at(grid, columns.key_rlc, row - 1),
    )
    &&& congruent::<F>(
        advice_at(grid, columns.key_rlc_mult, row),
        advice_at(grid, columns.key_rlc_mult, row - 1),
    )
}

/// The key RLC on `row` starts a key: the second byte, the bytes from the second on with their
/// coefficients, and the modified node's nibble as the upper half of a byte.
pub open spec fn key_rlc_starts<F: Field, const HASH_WIDTH: usize>(
    columns: KeyColumns<HASH_WIDTH>,
    r_table: Seq<Expression<F>>,
    grid: Grid,
    row: int,
) -> bool {
    congruent::<F>(
        advice_at(grid, columns.key_rlc, row),
        advice_at(grid, columns.s_advices@[1], row - 1) + key_bytes_rlc(
            columns.s_advices@.skip(1),
            r_table,
            grid,
            row,
        ) + 16 * advice_at(grid, columns.modified_node, row - 2),
    )
}

/// The key RLC on `row` continues that of the level above with the second byte and the bytes
/// after it.
pub open spec fn key_rlc_continues<F: Field, const HASH_WIDTH: usize>(
    columns: KeyColumns<HASH_WIDTH>,
    r_table: Seq<Expression<F>>,
    grid: Grid,
    row: int,
) -> bool {
    congruent::<F>(
        advice_at(grid, columns.key_rlc, row),
        advice_at(grid, columns.key_rlc, row - 21) + (advice_at(
            grid,
            columns.s_advices@[1],
            row - 1,
        ) + key_bytes_rlc(columns.s_advices@.skip(2), r_table, grid, row)) * advice_at(
            grid,
            columns.key_rlc_mult,
            row - 21,
        ),
    )
}

/// The key RLC of the branch continues that on `row` with the modified node's nibble as the
/// upper half of a byte.
pub open spec fn branch_key_rlc_continues<F: Field, const HASH_WIDTH: usize>(
    columns: KeyColumns<HASH_WIDTH>,
    grid: Grid,
    row: int,
) -> bool {
    congruent::<F>(
        advice_at(grid, columns.key_rlc, row - 17),
        advice_at(grid, columns.key_rlc, row) + 16 * advice_at(grid, columns.modified_node, row - 2)
            * advice_at(grid, columns.key_rlc_mult, row - 17),
    )
}

/// What the key gate asks of `row`.
pub open spec fn key_gate_meaning<F: Field, const HASH_WIDTH: usize>(
    columns: KeyColumns<HASH_WIDTH>,
    r_table: Seq<Expression<F>>,
    grid: Grid,
    row: int,
) -> bool {
    &&& is_later_branch_child::<F, HASH_WIDTH>(columns, grid, row) ==> key_rlc_is_kept::<
        F,
        HASH_WIDTH,
    >(columns, grid, row)
    &&& is_s_row_without_extension::<F, HASH_WIDTH>(columns, grid, row) ==> key_rlc_is_kept::<
        F,
        HASH_WIDTH,
    >(columns, grid, row)
    &&& is_c_row_without_extension::<F, HASH_WIDTH>(columns, grid, row) ==> key_rlc_is_kept::<
        F,
        HASH_WIDTH,
    >(columns, grid, row)
    &&& is_long_even_c_row::<F, HASH_WIDTH>(columns, grid, row) ==> {
        &&& is_first_level::<F, HASH_WIDTH>(columns, grid, row) ==> key_rlc_starts(
            columns,
            r_table,
            grid,
            row,
        )
        &&& is_later_level_sel1::<F, HASH_WIDTH>(columns, grid, row) ==> {
            &&& key_rlc_continues(columns, r_table, grid, row)
            &&& branch_key_rlc_continues::<F, HASH_WIDTH>(columns, grid, row)
        }
    }
}

/// The random linear combination of cells takes the value of the combination.
proof fn lemma_rlc_eval<F: Field>(
    bytes: Seq<Column<Advice>>,
    mult: Expression<F>,
    r_table: Seq<Expression<F>>,
    grid: Grid,
    row: int,
)
    ensures
        rlc(bytes, 0, mult, -1, r_table).eval(grid, row) == key_bytes_rlc(
            bytes,
            r_table,
            grid,
            row,
        ) * mult.eval(grid, row),
    decreases bytes.len(),
{
    reveal_with_fuel(Expression::eval, 4);
    if bytes.len() == 0 {
        F::lemma_element(0);
    } else {
        lemma_rlc_eval(bytes.drop_last(), mult, r_table, grid, row);
        lemma_mul_is_distributive_add_other_way(
            mult.eval(grid, row),
            key_bytes_rlc(bytes.drop_last(), r_table, grid, row),
            advice_at(grid, bytes.last(), row - 1) * r_table[bytes.len() - 1].eval(grid, row),
        );
    }
}

/// The value of a polynomial product of bits.
proof fn lemma_and_eval<F: Field>(a: Expression<F>, b: Expression<F>, grid: Grid, row: int)
    requires
        is_bit::<F>(a.eval(grid, row)),
        is_bit::<F>(b.eval(grid, row)),
    ensures
        is_bit::<F>((a * b).eval(grid, row)),
        on::<F>((a * b).eval(grid, row)) <==> on::<F>(a.eval(grid, row)) && on::<F>(
            b.eval(grid, row),
        ),
{
    lemma_and::<F>(a.eval(grid, row), b.eval(grid, row));
}

/// The value of one minus a bit.
proof fn lemma_not_eval<F: Field>(a: Expression<F>, grid: Grid, row: int)
    requires
        is_bit::<F>(a.eval(grid, row)),
    ensures
        is_bit::<F>(not(a).eval(grid, row)),
        on::<F>(not(a).eval(grid, row)) <==> !on::<F>(a.eval(grid, row)),
{
    reveal_with_fuel(Expression::eval, 3);
    F::lemma_element(1);
    lemma_small_mod(1, F::order());
    lemma_not::<F>(a.eval(grid, row));
}

/// When a guarded difference vanishes.
proof fn lemma_guarded_difference<F: Field>(
    bit: Expression<F>,
    a: Expression<F>,
    b: Expression<F>,
    grid: Grid,
    row: int,
)
    requires
        is_bit::<F>(bit.eval(grid, row)),
    ensures
        (bit * (a - b)).vanishes(grid, row) <==> (on::<F>(bit.eval(grid, row))
            ==> congruent::<F>(a.eval(grid, row), b.eval(grid, row))),
{
    reveal_with_fuel(Expression::eval, 3);
    let d = a.eval(grid, row) - b.eval(grid, row);
    lemma_guard::<F>(bit.eval(grid, row), d);
    assert((a - b).eval(grid, row) == d);
}

/// One minus an expression.
spec fn not<F: Field>(a: Expression<F>) -> Expression<F> {
    Expression::Constant(F::element(1)) - a
}

/// Selects the branch children but the first.
spec fn child_selector<F: Field>(c: KeyCells<F>) -> Expression<F> {
    c.q_not_first * c.is_branch_child_prev * c.is_branch_child_cur
}

/// Selects the S row of a branch without extension node.
spec fn s_row_selector<F: Field>(c: KeyCells<F>) -> Expression<F> {
    c.q_not_first * not(c.is_branch_init_prev) * c.is_extension_s_row * not(c.is_extension_node_s)
}

/// Selects the C row of a branch without extension node.
spec fn c_row_selector<F: Field>(c: KeyCells<F>) -> Expression<F> {
    c.q_not_first * not(c.is_branch_init_prev) * not(c.is_branch_child_prev)
        * c.is_extension_c_row * not(c.is_extension_node)
}

/// Selects the C row of a long even extension node on the first level of an account proof.
spec fn account_selector<F: Field>(c: KeyCells<F>) -> Expression<F> {
    c.q_not_first * not(c.is_branch_init_prev) * not(c.is_branch_child_prev)
        * not(c.not_first_level) * c.is_extension_node * c.is_extension_c_row * c.is_key_even
        * c.is_long
}

/// Selects the C row of a long even extension node on the first level of a storage proof.
spec fn storage_selector<F: Field>(c: KeyCells<F>) -> Expression<F> {
    c.not_first_level * c.is_account_leaf_storage_codehash_prev * c.is_extension_node
        * c.is_extension_c_row * c.is_key_even * c.is_long
}

/// Selects the C row of a long even extension node on a later level, for a first nibble.
spec fn later_selector<F: Field>(c: KeyCells<F>) -> Expression<F> {
    c.not_first_level * not(c.is_account_leaf_storage_codehash_prev) * c.is_extension_node
        * c.is_extension_c_row * c.is_key_even * c.is_long * c.sel1
}

/// The factors that the constraints are guarded by are bits, with the meaning of their names.
proof fn lemma_selectors<F: Field>(c: KeyCells<F>, grid: Grid, row: int)
    requires
        key_cells_are_bits(c, grid, row),
    ensures
        is_bit::<F>(child_selector(c).eval(grid, row)),
        on::<F>(child_selector(c).eval(grid, row)) <==> {
            &&& on::<F>(c.q_not_first.eval(grid, row))
            &&& on::<F>(c.is_branch_child_prev.eval(grid, row))
            &&& on::<F>(c.is_branch_child_cur.eval(grid, row))
        },
        is_bit::<F>(s_row_selector(c).eval(grid, row)),
        on::<F>(s_row_selector(c).eval(grid, row)) <==> {
            &&& on::<F>(c.q_not_first.eval(grid, row))
            &&& !on::<F>(c.is_branch_init_prev.eval(grid, row))
            &&& on::<F>(c.is_extension_s_row.eval(grid, row))
            &&& !on::<F>(c.is_extension_node_s.eval(grid, row))
        },
        is_bit::<F>(c_row_selector(c).eval(grid, row)),
        on::<F>(c_row_selector(c).eval(grid, row)) <==> {
            &&& on::<F>(c.q_not_first.eval(grid, row))
            &&& !on::<F>(c.is_branch_init_prev.eval(grid, row))
            &&& !on::<F>(c.is_branch_child_prev.eval(grid, row))
            &&& on::<F>(c.is_extension_c_row.eval(grid, row))
            &&& !on::<F>(c.is_extension_node.eval(grid, row))
        },
        is_bit::<F>(account_selector(c).eval(grid, row)),
        on::<F>(account_selector(c).eval(grid, row)) <==> {
            &&& on::<F>(c.q_not_first.eval(grid, row))
            &&& !on::<F>(c.is_branch_init_prev.eval(grid, row))
            &&& !on::<F>(c.is_branch_child_prev.eval(grid, row))
            &&& !on::<F>(c.not_first_level.eval(grid, row))
            &&& on::<F>(c.is_extension_node.eval(grid, row))
            &&& on::<F>(c.is_extension_c_row.eval(grid, row))
            &&& on::<F>(c.is_key_even.eval(grid, row))
            &&& on::<F>(c.is_long.eval(grid, row))
        },
        is_bit::<F>(storage_selector(c).eval(grid, row)),
        on::<F>(storage_selector(c).eval(grid, row)) <==> {
            &&& on::<F>(c.not_first_level.eval(grid, row))
            &&& on::<F>(c.is_account_leaf_storage_codehash_prev.eval(grid, row))
            &&& on::<F>(c.is_extension_node.eval(grid, row))
            &&& on::<F>(c.is_extension_c_row.eval(grid, row))
            &&& on::<F>(c.is_key_even.eval(grid, row))
            &&& on::<F>(c.is_long.eval(grid, row))
        },
        is_bit::<F>(later_selector(c).eval(grid, row)),
        on::<F>(later_selector(c).eval(grid, row)) <==> {
            &&& on::<F>(c.not_first_level.eval(grid, row))
            &&& !on::<F>(c.is_account_leaf_storage_codehash_prev.eval(grid, row))
            &&& on::<F>(c.is_extension_node.eval(grid, row))
            &&& on::<F>(c.is_extension_c_row.eval(grid, row))
            &&& on::<F>(c.is_key_even.eval(grid, row))
            &&& on::<F>(c.is_long.eval(grid, row))
            &&& on::<F>(c.sel1.eval(grid, row))
        },
{
    lemma_not_eval(c.is_branch_init_prev, grid, row);
    lemma_not_eval(c.is_branch_child_prev, grid, row);
    lemma_not_eval(c.is_extension_node, grid, row);
    lemma_not_eval(c.is_extension_node_s, grid, row);
    lemma_not_eval(c.not_first_level, grid, row);
    lemma_not_eval(c.is_account_leaf_storage_codehash_prev, grid, row);
    lemma_and_eval(c.q_not_first, c.is_branch_child_prev, grid, row);
    lemma_and_eval(c.q_not_first * c.is_branch_child_prev, c.is_branch_child_cur, grid, row);

    lemma_and_eval(c.q_not_first, not(c.is_branch_init_prev), grid, row);
    let guard = c.q_not_first * not(c.is_branch_init_prev);
    lemma_and_eval(guard, c.is_extension_s_row, grid, row);
    lemma_and_eval(guard * c.is_extension_s_row, not(c.is_extension_node_s), grid, row);
    lemma_and_eval(guard, not(c.is_branch_child_prev), grid, row);
    let guard = guard * not(c.is_branch_child_prev);
    lemma_and_eval(guard, c.is_extension_c_row, grid, row);
    lemma_and_eval(guard * c.is_extension_c_row, not(c.is_extension_node), grid, row);
    lemma_and_eval(guard, not(c.not_first_level), grid, row);
    lemma_long_even(guard * not(c.not_first_level), c, grid, row);

    lemma_and_eval(c.not_first_level, c.is_account_leaf_storage_codehash_prev, grid, row);
    let storage = c.not_first_level * c.is_account_leaf_storage_codehash_prev;
    lemma_long_even(storage, c, grid, row);

    lemma_and_eval(c.not_first_level, not(c.is_account_leaf_storage_codehash_prev), grid, row);
    let later = c.not_first_level * not(c.is_account_leaf_storage_codehash_prev);
    lemma_long_even(later, c, grid, row);
    let long_even = later * c.is_extension_node * c.is_extension_c_row * c.is_key_even * c.is_long;
    lemma_and_eval(long_even, c.sel1, grid, row);
}

/// A bit times the four selectors of a long even extension node.
proof fn lemma_long_even<F: Field>(bit: Expression<F>, c: KeyCells<F>, grid: Grid, row: int)
    requires
        key_cells_are_bits(c, grid, row),
        is_bit::<F>(bit.eval(grid, row)),
    ensures
        ({
            let product = bit * c.is_extension_node * c.is_extension_c_row * c.is_key_even
                * c.is_long;
            &&& is_bit::<F>(product.eval(grid, row))
            &&& on::<F>(product.eval(grid, row)) <==> {
                &&& on::<F>(bit.eval(grid, row))
                &&& on::<F>(c.is_extension_node.eval(grid, row))
                &&& on::<F>(c.is_extension_c_row.eval(grid, row))
                &&& on::<F>(c.is_key_even.eval(grid, row))
                &&& on::<F>(c.is_long.eval(grid, row))
            }
        }),
{
    lemma_and_eval(bit, c.is_extension_node, grid, row);
    let bit = bit * c.is_extension_node;
    lemma_and_eval(bit, c.is_extension_c_row, grid, row);
    let bit = bit * c.is_extension_c_row;
    lemma_and_eval(bit, c.is_key_even, grid, row);
    lemma_and_eval(bit * c.is_key_even, c.is_long, grid, row);
}

/// The selectors among the cells are 0 or 1.
spec fn key_cells_are_bits<F: Field>(c: KeyCells<F>, grid: Grid, row: int) -> bool {
    &&& is_bit::<F>(c.q_not_first.eval(grid, row))
    &&& is_bit::<F>(c.is_branch_child_prev.eval(grid, row))
    &&& is_bit::<F>(c.is_branch_child_cur.eval(grid, row))
    &&& is_bit::<F>(c.is_branch_init_prev.eval(grid, row))
    &&& is_bit::<F>(c.is_extension_s_row.eval(grid, row))
    &&& is_bit::<F>(c.is_extension_node.eval(grid, row))
    &&& is_bit::<F>(c.is_extension_node_s.eval(grid, row))
    &&& is_bit::<F>(c.is_extension_c_row.eval(grid, row))
    &&& is_bit::<F>(c.not_first_level.eval(grid, row))
    &&& is_bit::<F>(c.is_key_even.eval(grid, row))
    &&& is_bit::<F>(c.is_long.eval(grid, row))
    &&& is_bit::<F>(c.is_account_leaf_storage_codehash_prev.eval(grid, row))
    &&& is_bit::<F>(c.sel1.eval(grid, row))
}

/// The values of the two expected key RLCs.
proof fn lemma_expected_rlcs<F: Field, const HASH_WIDTH: usize>(
    columns: KeyColumns<HASH_WIDTH>,
    r_table: Seq<Expression<F>>,
    grid: Grid,
    row: int,
)
    requires
        columns.wf(),
    ensures
        columns.key_cells::<F>().first_level_long_even_rlc(columns.s_advices, r_table).eval(
            grid,
            row,
        ) == advice_at(grid, columns.s_advices@[1], row - 1) + key_bytes_rlc(
            columns.s_advices@.skip(1),
            r_table,
            grid,
            row,
        ) + 16 * advice_at(grid, columns.modified_node, row - 2),
        columns.key_cells::<F>().long_even_rlc(columns.s_advices, r_table).eval(grid, row)
            == advice_at(grid, columns.key_rlc, row - 21) + (advice_at(
            grid,
            columns.s_advices@[1],
            row - 1,
        ) + key_bytes_rlc(columns.s_advices@.skip(2), r_table, grid, row)) * advice_at(
            grid,
            columns.key_rlc_mult,
            row - 21,
        ),
{
    let c = columns.key_cells::<F>();
    let one = Expression::Constant(F::element(1));
    lemma_rlc_eval(columns.s_advices@.skip(1), one, r_table, grid, row);
    lemma_rlc_eval(columns.s_advices@.skip(2), c.key_rlc_mult_prev_level, r_table, grid, row);
    F::lemma_element(1);
    F::lemma_element(16);
    lemma_small_mod(1, F::order());
    lemma_small_mod(16, F::order());
    reveal_with_fuel(Expression::eval, 4);
    lemma_mul_basics(key_bytes_rlc(columns.s_advices@.skip(1), r_table, grid, row));
    let first = rlc(columns.s_advices@.skip(1), 0, one, -1, r_table);
    let later = rlc(
        columns.s_advices@.skip(2),
        0,
        c.key_rlc_mult_prev_level,
        -1,
        r_table,
    );
    let c16 = Expression::Constant(F::element(16));
    let nibble = c.modified_node_cur * c16;
    assert(one.eval(grid, row) == 1);
    lemma_times(c.modified_node_cur.eval(grid, row), c16.eval(grid, row), 16);
    assert(nibble.eval(grid, row) == 16 * advice_at(grid, columns.modified_node, row - 2));
    assert((c.s_advices1 + first + nibble).eval(grid, row) == c.s_advices1.eval(grid, row)
        + first.eval(grid, row) + nibble.eval(grid, row));
    lemma_mul_is_distributive_add_other_way(
        advice_at(grid, columns.key_rlc_mult, row - 21),
        advice_at(grid, columns.s_advices@[1], row - 1),
        key_bytes_rlc(columns.s_advices@.skip(2), r_table, grid, row),
    );
    assert((c.key_rlc_prev_level + c.s_advices1 * c.key_rlc_mult_prev_level + later).eval(grid, row)
        == c.key_rlc_prev_level.eval(grid, row) + c.s_advices1.eval(grid, row)
        * c.key_rlc_mult_prev_level.eval(grid, row) + later.eval(grid, row));
}

/// What the key gate says: where the selectors are 0 or 1, its constraints vanish on a row exactly
/// if the key RLC and its multiplier are kept over the branch children and over the rows of a
/// missing extension node, and the key RLC of a long even extension key starts, or continues,
/// that of the key so far.
pub proof fn law_key_gate_meaning<F: Field, const HASH_WIDTH: usize>(
    gate: Gate<F>,
    columns: KeyColumns<HASH_WIDTH>,
    r_table: Seq<Expression<F>>,
    grid: Grid,
    row: int,
)
    requires
        columns.wf(),
        is_key_gate(gate, columns, r_table),
        selectors_are_bits::<F, HASH_WIDTH>(columns, grid, row),
    ensures
        gate_holds(gate, grid, row) <==> key_gate_meaning(columns, r_table, grid, row),
{
    let c = columns.key_cells::<F>();
    let first = c.first_level_long_even_rlc(columns.s_advices, r_table);
    let later = c.long_even_rlc(columns.s_advices, r_table);
    assert(key_cells_are_bits(c, grid, row));
    lemma_selectors(c, grid, row);
    lemma_expected_rlcs(columns, r_table, grid, row);
    let (key, key_prev) = (c.key_rlc_cur, c.key_rlc_prev);
    let (mult, mult_prev) = (c.key_rlc_mult_cur, c.key_rlc_mult_prev);
    let polys = gate.constraints@.map_values(|constraint: Constraint<F>| constraint.poly);

    let selector = child_selector(c);
    lemma_guarded_difference(selector, key, key_prev, grid, row);
    assert(polys[0] == selector * (key - key_prev));
    lemma_guarded_difference(selector, mult, mult_prev, grid, row);
    assert(polys[1] == selector * (mult - mult_prev));

    let selector = s_row_selector(c);
    lemma_guarded_difference(selector, key, key_prev, grid, row);
    assert(polys[2] == selector * (key - key_prev));
    lemma_guarded_difference(selector, mult, mult_prev, grid, row);
    assert(polys[3] == selector * (mult - mult_prev));

    let selector = c_row_selector(c);
    lemma_guarded_difference(selector, key, key_prev, grid, row);
    assert(polys[4] == selector * (key - key_prev));
    lemma_guarded_difference(selector, mult, mult_prev, grid, row);
    assert(polys[5] == selector * (mult - mult_prev));

    lemma_guarded_difference(account_selector(c), first, key, grid, row);
    assert(polys[6] == account_selector(c) * (first - key));
    lemma_guarded_difference(storage_selector(c), first, key, grid, row);
    assert(polys[7] == storage_selector(c) * (first - key));

    let selector = later_selector(c);
    lemma_guarded_difference(selector, key, later, grid, row);
    assert(polys[8] == selector * (key - later));
    let branch = c.key_rlc_branch - key;
    let nibble = Expression::Constant(F::element(16)) * c.modified_node_cur * c.key_rlc_mult_branch;
    lemma_guarded_difference(selector, branch, nibble, grid, row);
    assert(polys[9] == selector * (branch - nibble));

    assert(gate_holds(gate, grid, row) <==> forall|i: int|
        0 <= i < 10 ==> (#[trigger] polys[i]).vanishes(grid, row));
    lemma_congruent_symmetric::<F>(first.eval(grid, row), c.key_rlc_cur.eval(grid, row));
    F::lemma_element(16);
    lemma_small_mod(16, F::order());
    reveal_with_fuel(Expression::eval, 4);
}

/// The value of each constraint on a row, whatever the cells hold: what is asked for, times the
/// selectors of the rows that it is asked of.
pub proof fn law_constraint_values<F: Field, const HASH_WIDTH: usize>(
    gate: Gate<F>,
    columns: KeyColumns<HASH_WIDTH>,
    r_table: Seq<Expression<F>>,
    grid: Grid,
    row: int,
)
    requires
        columns.wf(),
        is_key_gate(gate, columns, r_table),
    ensures
        gate.constraints@.len() == 10,
        ({
            let p = columns.positions;
            let value = |i: int| gate.constraints@[i].poly.eval(grid, row);
            let at = |column: Column<Advice>, by: int| advice_at(grid, column, row + by);
            let q_not_first = fixed_at(grid, columns.q_not_first, row);
            let not_first_level = fixed_at(grid, columns.not_first_level, row);
            let extension = at(columns.flag(p.is_extension_node_pos), -18);
            let extension_s = at(columns.flag(p.is_extension_node_pos), -17);
            let even = at(columns.flag(p.is_extension_even_key_len_pos), -18);
            let long = at(columns.flag(p.is_extension_key_long_pos), -18);
            let sel1 = at(columns.sel1, -18);
            let codehash = at(columns.is_account_leaf_storage_codehash_c, -19);
            let no_init = 1 - at(columns.is_branch_init, -1);
            let no_child = 1 - at(columns.is_branch_child, -1);
            let s_row = at(columns.is_last_branch_child, -1);
            let c_row = at(columns.is_last_branch_child, -2);
            let key = at(columns.key_rlc, 0);
            let key_kept = key - at(columns.key_rlc, -1);
            let mult_kept = at(columns.key_rlc_mult, 0) - at(columns.key_rlc_mult, -1);
            let children = q_not_first * at(columns.is_branch_child, -1) * at(
                columns.is_branch_child,
                0,
            );
            let s = q_not_first * no_init * s_row * (1 - extension_s);
            let c = q_not_first * no_init * no_child * c_row * (1 - extension);
            let modified = at(columns.modified_node, -2);
            let first = at(columns.s_advices@[1], -1) + key_bytes_rlc(
                columns.s_advices@.skip(1),
                r_table,
                grid,
                row,
            ) + 16 * modified;
            let later = at(columns.key_rlc, -21) + (at(columns.s_advices@[1], -1) + key_bytes_rlc(
                columns.s_advices@.skip(2),
                r_table,
                grid,
                row,
            )) * at(columns.key_rlc_mult, -21);
            let first_storage = not_first_level * codehash * extension * c_row * even * long;
            let later_level = not_first_level * (1 - codehash) * extension * c_row * even * long
                * sel1;
            &&& value(0) == children * key_kept
            &&& value(1) == children * mult_kept
            &&& value(2) == s * key_kept
            &&& value(3) == s * mult_kept
            &&& value(4) == c * key_kept
            &&& value(5) == c * mult_kept
            &&& value(6) == q_not_first * no_init * no_child * (1 - not_first_level) * extension
                * c_row * even * long * (first - key)
            &&& value(7) == first_storage * (first - key)
            &&& value(8) == later_level * (key - later)
            &&& value(9) == later_level * (at(columns.key_rlc, -17) - key - 16 * modified * at(
                columns.key_rlc_mult,
                -17,
            ))
        }),
{
    let c = columns.key_cells::<F>();
    let first = c.first_level_long_even_rlc(columns.s_advices, r_table);
    let later = c.long_even_rlc(columns.s_advices, r_table);
    lemma_expected_rlcs(columns, r_table, grid, row);
    F::lemma_element(16);
    lemma_small_mod(16, F::order());
    let key_kept = c.key_rlc_cur - c.key_rlc_prev;
    let mult_kept = c.key_rlc_mult_cur - c.key_rlc_mult_prev;
    lemma_minus_eval(c.key_rlc_cur, c.key_rlc_prev, grid, row);
    lemma_minus_eval(c.key_rlc_mult_cur, c.key_rlc_mult_prev, grid, row);
    lemma_minus_eval(first, c.key_rlc_cur, grid, row);
    lemma_minus_eval(c.key_rlc_cur, later, grid, row);
    let c16 = Expression::Constant(F::element(16));
    let branch = c.key_rlc_branch - c.key_rlc_cur;
    let nibble = c16 * c.modified_node_cur * c.key_rlc_mult_branch;
    lemma_times_eval(c16, c.modified_node_cur, grid, row);
    lemma_times_eval(c16 * c.modified_node_cur, c.key_rlc_mult_branch, grid, row);
    lemma_minus_eval(c.key_rlc_branch, c.key_rlc_cur, grid, row);
    lemma_minus_eval(branch, nibble, grid, row);
    lemma_selector_values(c, grid, row);
    lemma_times_eval(child_selector(c), key_kept, grid, row);
    lemma_times_eval(child_selector(c), mult_kept, grid, row);
    lemma_times_eval(s_row_selector(c), key_kept, grid, row);
    lemma_times_eval(s_row_selector(c), mult_kept, grid, row);
    lemma_times_eval(c_row_selector(c), key_kept, grid, row);
    lemma_times_eval(c_row_selector(c), mult_kept, grid, row);
    lemma_times_eval(account_selector(c), first - c.key_rlc_cur, grid, row);
    lemma_times_eval(storage_selector(c), first - c.key_rlc_cur, grid, row);
    lemma_times_eval(later_selector(c), c.key_rlc_cur - later, grid, row);
    lemma_times_eval(later_selector(c), branch - nibble, grid, row);
    let polys = gate.constraints@.map_values(|constraint: Constraint<F>| constraint.poly);
    assert(polys[0] == child_selector(c) * key_kept);
    assert(polys[1] == child_selector(c) * mult_kept);
    assert(polys[2] == s_row_selector(c) * key_kept);
    assert(polys[3] == s_row_selector(c) * mult_kept);
    assert(polys[4] == c_row_selector(c) * key_kept);
    assert(polys[5] == c_row_selector(c) * mult_kept);
    assert(polys[6] == account_selector(c) * (first - c.key_rlc_cur));
    assert(polys[7] == storage_selector(c) * (first - c.key_rlc_cur));
    assert(polys[8] == later_selector(c) * (c.key_rlc_cur - later));
    assert(polys[9] == later_selector(c) * (branch - nibble));
}

/// The value of a product.
proof fn lemma_times_eval<F: Field>(a: Expression<F>, b: Expression<F>, grid: Grid, row: int)
    ensures
        (a * b).eval(grid, row) == a.eval(grid, row) * b.eval(grid, row),
{
}

/// The value of a difference.
proof fn lemma_minus_eval<F: Field>(a: Expression<F>, b: Expression<F>, grid: Grid, row: int)
    ensures
        (a - b).eval(grid, row) == a.eval(grid, row) - b.eval(grid, row),
{
    reveal_with_fuel(Expression::eval, 3);
}

/// The value of one minus an expression.
proof fn lemma_not_value<F: Field>(a: Expression<F>, grid: Grid, row: int)
    ensures
        not(a).eval(grid, row) == 1 - a.eval(grid, row),
{
    reveal_with_fuel(Expression::eval, 3);
    F::lemma_element(1);
    lemma_small_mod(1, F::order());
}

/// The values of the selectors.
proof fn lemma_selector_values<F: Field>(c: KeyCells<F>, grid: Grid, row: int)
    ensures
        ({
            let v = |e: Expression<F>| e.eval(grid, row);
            let no_init = 1 - v(c.is_branch_init_prev);
            let no_child = 1 - v(c.is_branch_child_prev);
            let storage = v(c.is_account_leaf_storage_codehash_prev);
            let extension = v(c.is_extension_node);
            let c_row = v(c.is_extension_c_row);
            let (even, long) = (v(c.is_key_even), v(c.is_long));
            let q = v(c.q_not_first);
            let not_first_level = v(c.not_first_level);
            &&& v(child_selector(c)) == q * v(c.is_branch_child_prev) * v(c.is_branch_child_cur)
            &&& v(s_row_selector(c)) == q * no_init * v(c.is_extension_s_row) * (1 - v(
                c.is_extension_node_s,
            ))
            &&& v(c_row_selector(c)) == q * no_init * no_child * c_row * (1 - extension)
            &&& v(account_selector(c)) == q * no_init * no_child * (1 - not_first_level)
                * extension * c_row * even * long
            &&& v(storage_selector(c)) == not_first_level * storage * extension * c_row * even
                * long
            &&& v(later_selector(c)) == not_first_level * (1 - storage) * extension * c_row * even
                * long * v(c.sel1)
        }),
{
    lemma_not_value(c.is_branch_init_prev, grid, row);
    lemma_not_value(c.is_branch_child_prev, grid, row);
    lemma_not_value(c.is_extension_node, grid, row);
    lemma_not_value(c.is_extension_node_s, grid, row);
    lemma_not_value(c.not_first_level, grid, row);
    lemma_not_value(c.is_account_leaf_storage_codehash_prev, grid, row);
    lemma_times_eval(c.q_not_first, c.is_branch_child_prev, grid, row);
    lemma_times_eval(c.q_not_first * c.is_branch_child_prev, c.is_branch_child_cur, grid, row);

    lemma_times_eval(c.q_not_first, not(c.is_branch_init_prev), grid, row);
    let guard = c.q_not_first * not(c.is_branch_init_prev);
    lemma_times_eval(guard, c.is_extension_s_row, grid, row);
    lemma_times_eval(guard * c.is_extension_s_row, not(c.is_extension_node_s), grid, row);
    lemma_times_eval(guard, not(c.is_branch_child_prev), grid, row);
    let guard = guard * not(c.is_branch_child_prev);
    lemma_times_eval(guard, c.is_extension_c_row, grid, row);
    lemma_times_eval(guard * c.is_extension_c_row, not(c.is_extension_node), grid, row);
    lemma_times_eval(guard, not(c.not_first_level), grid, row);
    lemma_long_even_value(guard * not(c.not_first_level), c, grid, row);

    lemma_times_eval(c.not_first_level, c.is_account_leaf_storage_codehash_prev, grid, row);
    let storage = c.not_first_level * c.is_account_leaf_storage_codehash_prev;
    lemma_long_even_value(storage, c, grid, row);

    lemma_times_eval(c.not_first_level, not(c.is_account_leaf_storage_codehash_prev), grid, row);
    let later = c.not_first_level * not(c.is_account_leaf_storage_codehash_prev);
    lemma_long_even_value(later, c, grid, row);
    let long_even = later * c.is_extension_node * c.is_extension_c_row * c.is_key_even * c.is_long;
    lemma_times_eval(long_even, c.sel1, grid, row);
}

/// The value of an expression times the four selectors of a long even extension node.
proof fn lemma_long_even_value<F: Field>(e: Expression<F>, c: KeyCells<F>, grid: Grid, row: int)
    ensures
        (e * c.is_extension_node * c.is_extension_c_row * c.is_key_even * c.is_long).eval(grid, row)
            == e.eval(grid, row) * c.is_extension_node.eval(grid, row)
            * c.is_extension_c_row.eval(grid, row) * c.is_key_even.eval(grid, row)
            * c.is_long.eval(grid, row),
{
    lemma_times_eval(e, c.is_extension_node, grid, row);
    let e = e * c.is_extension_node;
    lemma_times_eval(e, c.is_extension_c_row, grid, row);
    let e = e * c.is_extension_c_row;
    lemma_times_eval(e, c.is_key_even, grid, row);
    lemma_times_eval(e * c.is_key_even, c.is_long, grid, row);
}

/// The cells that are queried: one of each column and distance that is listed, and then the key
/// bytes on the row above, first all but the first and then all but the first two.
pub proof fn law_queried_cells<F: Field, const HASH_WIDTH: usize>(
    gate: Gate<F>,
    columns: KeyColumns<HASH_WIDTH>,
    r_table: Seq<Expression<F>>,
)
    requires
        columns.wf(),
        is_key_gate(gate, columns, r_table),
    ensures
        ({
            let cells = gate.queried_cells@;
            let flag = |pos: usize, at: int| advice_cell(columns.flag(pos), at);
            let p = columns.positions;
            &&& cells.len() == 26 + (HASH_WIDTH - 1) + (HASH_WIDTH - 2)
            &&& cells[0] == fixed_cell(columns.q_not_first, 0)
            &&& cells[1] == fixed_cell(columns.not_first_level, 0)
            &&& cells[2] == flag(p.is_extension_node_pos, -18)
            &&& cells[3] == flag(p.is_extension_node_pos, -17)
            &&& cells[4] == flag(p.is_extension_even_key_len_pos, -18)
            &&& cells[5] == flag(p.is_extension_odd_key_len_pos, -18)
            &&& cells[6] == flag(p.is_extension_key_short_pos, -18)
            &&& cells[7] == flag(p.is_extension_key_long_pos, -18)
            &&& cells[8] == advice_cell(columns.sel1, -18)
            &&& cells[9] == advice_cell(columns.sel2, -18)
            &&& cells[10] == advice_cell(columns.is_account_leaf_storage_codehash_c, -19)
            &&& cells[11] == advice_cell(columns.is_branch_init, -1)
            &&& cells[12] == advice_cell(columns.is_branch_child, -1)
            &&& cells[13] == advice_cell(columns.is_branch_child, 0)
            &&& cells[14] == advice_cell(columns.modified_node, -2)
            &&& cells[15] == advice_cell(columns.is_last_branch_child, -1)
            &&& cells[16] == advice_cell(columns.is_last_branch_child, -2)
            &&& cells[17] == advice_cell(columns.key_rlc, -1)
            &&& cells[18] == advice_cell(columns.key_rlc, -21)
            &&& cells[19] == advice_cell(columns.key_rlc, 0)
            &&& cells[20] == advice_cell(columns.key_rlc_mult, -1)
            &&& cells[21] == advice_cell(columns.key_rlc_mult, -21)
            &&& cells[22] == advice_cell(columns.key_rlc_mult, 0)
            &&& cells[23] == advice_cell(columns.key_rlc, -17)
            &&& cells[24] == advice_cell(columns.key_rlc_mult, -17)
            &&& cells[25] == advice_cell(columns.s_advices@[1], -1)
            &&& forall|k: int|
                1 <= k < HASH_WIDTH ==> cells[25 + k] == advice_cell(
                    #[trigger] columns.s_advices@[k],
                    -1,
                )
            &&& forall|k: int|
                2 <= k < HASH_WIDTH ==> cells[25 + (HASH_WIDTH - 1) + k - 1] == advice_cell(
                    #[trigger] columns.s_advices@[k],
                    -1,
                )
        }),
{
}

/// Configuring the chip adds one gate after those that are there, and that gate asks of every row
/// what the columns that the chip was given say.
pub proof fn law_configure_adds_key_gate<F: Field, const HASH_WIDTH: usize>(
    meta: &mut ConstraintSystem<F>,
    columns: KeyColumns<HASH_WIDTH>,
    s_rlp2: Column<Advice>,
    r_table: Vec<Expression<F>>,
    config: ExtensionNodeKeyConfig,
    grid: Grid,
    row: int,
)
    requires
        columns.wf(),
        r_table@.len() >= HASH_WIDTH - 1,
        call_ensures(
            ExtensionNodeKeyChip::<F>::configure::<HASH_WIDTH>,
            (
                meta,
                columns.positions,
                columns.q_not_first,
                columns.not_first_level,
                columns.is_branch_init,
                columns.is_branch_child,
                columns.is_last_branch_child,
                columns.is_account_leaf_storage_codehash_c,
                s_rlp2,
                columns.s_advices,
                columns.modified_node,
                columns.sel1,
                columns.sel2,
                columns.key_rlc,
                columns.key_rlc_mult,
                r_table,
            ),
            config,
        ),
        selectors_are_bits::<F, HASH_WIDTH>(columns, grid, row),
    ensures
        final(meta).gates@.len() == old(meta).gates@.len() + 1,
        forall|i: int|
            0 <= i < old(meta).gates@.len() ==> #[trigger] final(meta).gates@[i]
                == old(meta).gates@[i],
        gate_holds(final(meta).gates@.last(), grid, row) <==> key_gate_meaning(
            columns,
            r_table@,
            grid,
            row,
        ),
{
    law_key_gate_meaning(final(meta).gates@.last(), columns, r_table@, grid, row);
    assert forall|i: int| 0 <= i < old(meta).gates@.len() implies #[trigger] final(meta).gates@[i]
        == old(meta).gates@[i] by {
        assert(final(meta).gates@.drop_last()[i] == old(meta).gates@[i]);
    }
}

/// The children of one branch, which are the rows `first..=last`, share their key RLC and its
/// multiplier: the key gate holds on each of them but the first, so any of them serves to look up
/// the key RLC of the branch.
pub proof fn law_branch_children_share_key_rlc<F: Field, const HASH_WIDTH: usize>(
    gate: Gate<F>,
    columns: KeyColumns<HASH_WIDTH>,
    r_table: Seq<Expression<F>>,
    grid: Grid,
    first: int,
    last: int,
    i: int,
    j: int,
)
    requires
        is_key_gate(gate, columns, r_table),
        first <= i <= last,
        first <= j <= last,
        forall|row: int|
            first < row <= last ==> #[trigger] gate_holds(gate, grid, row) && on::<F>(
                fixed_at(grid, columns.q_not_first, row),
            ),
        forall|row: int|
            first <= row <= last ==> on::<F>(
                #[trigger] advice_at(grid, columns.is_branch_child, row),
            ),
    ensures
        congruent::<F>(
            advice_at(grid, columns.key_rlc, i),
            advice_at(grid, columns.key_rlc, j),
        ),
        congruent::<F>(
            advice_at(grid, columns.key_rlc_mult, i),
            advice_at(grid, columns.key_rlc_mult, j),
        ),
    decreases if i <= j { j - i } else { i - j + 1 },
{
    let p = F::order() as int;
    F::lemma_element(0);
    if i > j {
        law_branch_children_share_key_rlc(gate, columns, r_table, grid, first, last, j, i);
        lemma_congruent_symmetric::<F>(
            advice_at(grid, columns.key_rlc, i),
            advice_at(grid, columns.key_rlc, j),
        );
        lemma_congruent_symmetric::<F>(
            advice_at(grid, columns.key_rlc_mult, i),
            advice_at(grid, columns.key_rlc_mult, j),
        );
    } else if i == j {
        lemma_small_mod(0, p as nat);
    } else {
        law_branch_children_share_key_rlc(gate, columns, r_table, grid, first, last, i, j - 1);
        let c = columns.key_cells::<F>();
        assert(gate_holds(gate, grid, j));
        assert(on::<F>(advice_at(grid, columns.is_branch_child, j)));
        assert(on::<F>(advice_at(grid, columns.is_branch_child, j - 1)));
        lemma_and_eval(c.q_not_first, c.is_branch_child_prev, grid, j);
        lemma_and_eval(c.q_not_first * c.is_branch_child_prev, c.is_branch_child_cur, grid, j);
        let selector = child_selector(c);
        lemma_guarded_difference(selector, c.key_rlc_cur, c.key_rlc_prev, grid, j);
        lemma_guarded_difference(selector, c.key_rlc_mult_cur, c.key_rlc_mult_prev, grid, j);
        assert(gate.constraints@[0].poly == selector * (c.key_rlc_cur - c.key_rlc_prev));
        assert(gate.constraints@[1].poly == selector * (c.key_rlc_mult_cur
            - c.key_rlc_mult_prev));
        assert(gate.constraints@[0].poly.vanishes(grid, j));
        assert(gate.constraints@[1].poly.vanishes(grid, j));
        lemma_congruent_transitive::<F>(
            advice_at(grid, columns.key_rlc, i),
            advice_at(grid, columns.key_rlc, j - 1),
            advice_at(grid, columns.key_rlc, j),
        );
        lemma_congruent_transitive::<F>(
            advice_at(grid, columns.key_rlc_mult, i),
            advice_at(grid, columns.key_rlc_mult, j - 1),
            advice_at(grid, columns.key_rlc_mult, j),
        );
    }
}

/// The constraints that look back for the extension node on account of a row S or C vanish on a
/// row after a branch init row, whatever the other cells hold. Those on account of a row C also
/// vanish on a row after a branch child, and those on account of a row S on a row after anything
/// but the last branch child. So no row of a branch is constrained by a rotation that would leave
/// the table.
pub proof fn law_branch_rows_are_not_poisoned<F: Field, const HASH_WIDTH: usize>(
    gate: Gate<F>,
    columns: KeyColumns<HASH_WIDTH>,
    r_table: Seq<Expression<F>>,
    grid: Grid,
    row: int,
    i: int,
)
    requires
        is_key_gate(gate, columns, r_table),
        2 <= i <= 6,
        ({
            ||| on::<F>(advice_at(grid, columns.is_branch_init, row - 1))
            ||| i >= 4 && on::<F>(advice_at(grid, columns.is_branch_child, row - 1))
            ||| i <= 3 && off::<F>(advice_at(grid, columns.is_last_branch_child, row - 1))
        }),
    ensures
        gate.constraints@[i].poly.vanishes(grid, row),
{
    let c = columns.key_cells::<F>();
    let init_guard = c.q_not_first * not(c.is_branch_init_prev);
    let guard = init_guard * not(c.is_branch_child_prev);
    if on::<F>(c.is_branch_init_prev.eval(grid, row)) {
        lemma_not_eval(c.is_branch_init_prev, grid, row);
        lemma_off_product(c.q_not_first, not(c.is_branch_init_prev), grid, row);
        lemma_off_product(init_guard, not(c.is_branch_child_prev), grid, row);
    } else if i >= 4 {
        lemma_not_eval(c.is_branch_child_prev, grid, row);
        lemma_off_product(init_guard, not(c.is_branch_child_prev), grid, row);
    }
    let difference = if i % 2 == 0 {
        c.key_rlc_cur - c.key_rlc_prev
    } else {
        c.key_rlc_mult_cur - c.key_rlc_mult_prev
    };
    if i <= 3 {
        lemma_off_product(init_guard, c.is_extension_s_row, grid, row);
        let a = init_guard * c.is_extension_s_row;
        lemma_off_product(a, not(c.is_extension_node_s), grid, row);
        lemma_off_product(a * not(c.is_extension_node_s), difference, grid, row);
        assert(gate.constraints@[i].poly == a * not(c.is_extension_node_s) * difference);
    } else if i <= 5 {
        lemma_off_product(guard, c.is_extension_c_row, grid, row);
        let a = guard * c.is_extension_c_row;
        lemma_off_product(a, not(c.is_extension_node), grid, row);
        lemma_off_product(a * not(c.is_extension_node), difference, grid, row);
        assert(gate.constraints@[i].poly == a * not(c.is_extension_node) * difference);
    } else {
        let a = guard * not(c.not_first_level);
        lemma_off_product(guard, not(c.not_first_level), grid, row);
        lemma_off_product(a, c.is_extension_node, grid, row);
        let b = a * c.is_extension_node;
        lemma_off_product(b, c.is_extension_c_row, grid, row);
        lemma_off_product(b * c.is_extension_c_row, c.is_key_even, grid, row);
        let d = b * c.is_extension_c_row * c.is_key_even;
        lemma_off_product(d, c.is_long, grid, row);
        let expected = c.first_level_long_even_rlc(columns.s_advices, r_table);
        lemma_off_product(d * c.is_long, expected - c.key_rlc_cur, grid, row);
        assert(gate.constraints@[6].poly == d * c.is_long * (expected - c.key_rlc_cur));
    }
}

/// On the S row of a branch without extension node, which is the row after the last branch child,
/// the two constraints of the S row vanish exactly if the key RLC and its multiplier are those of
/// the row above.
pub proof fn law_s_row_keeps_key_rlc<F: Field, const HASH_WIDTH: usize>(
    gate: Gate<F>,
    columns: KeyColumns<HASH_WIDTH>,
    r_table: Seq<Expression<F>>,
    grid: Grid,
    row: int,
)
    requires
        is_key_gate(gate, columns, r_table),
        on::<F>(fixed_at(grid, columns.q_not_first, row)),
        off::<F>(advice_at(grid, columns.is_branch_init, row - 1)),
        on::<F>(advice_at(grid, columns.is_last_branch_child, row - 1)),
        off::<F>(
            advice_at(grid, columns.flag(columns.positions.is_extension_node_pos), row - 17),
        ),
    ensures
        gate.constraints@[2].poly.vanishes(grid, row) && gate.constraints@[3].poly.vanishes(
            grid,
            row,
        ) <==> key_rlc_is_kept::<F, HASH_WIDTH>(columns, grid, row),
{
    let c = columns.key_cells::<F>();
    lemma_bit::<F>(c.is_branch_init_prev.eval(grid, row));
    lemma_bit::<F>(c.is_extension_node_s.eval(grid, row));
    lemma_not_eval(c.is_branch_init_prev, grid, row);
    lemma_not_eval(c.is_extension_node_s, grid, row);
    lemma_and_eval(c.q_not_first, not(c.is_branch_init_prev), grid, row);
    let guard = c.q_not_first * not(c.is_branch_init_prev);
    lemma_and_eval(guard, c.is_extension_s_row, grid, row);
    lemma_and_eval(guard * c.is_extension_s_row, not(c.is_extension_node_s), grid, row);
    let selector = s_row_selector(c);
    lemma_guarded_difference(selector, c.key_rlc_cur, c.key_rlc_prev, grid, row);
    lemma_guarded_difference(selector, c.key_rlc_mult_cur, c.key_rlc_mult_prev, grid, row);
    assert(gate.constraints@[2].poly == selector * (c.key_rlc_cur - c.key_rlc_prev));
    assert(gate.constraints@[3].poly == selector * (c.key_rlc_mult_cur - c.key_rlc_mult_prev));
}

/// On the C row of a branch without extension node, which is the row after the S row, the two
/// constraints of the C row vanish exactly if the key RLC and its multiplier are those of the row
/// above.
pub proof fn law_c_row_keeps_key_rlc<F: Field, const HASH_WIDTH: usize>(
    gate: Gate<F>,
    columns: KeyColumns<HASH_WIDTH>,
    r_table: Seq<Expression<F>>,
    grid: Grid,
    row: int,
)
    requires
        is_key_gate(gate, columns, r_table),
        on::<F>(fixed_at(grid, columns.q_not_first, row)),
        off::<F>(advice_at(grid, columns.is_branch_init, row - 1)),
        off::<F>(advice_at(grid, columns.is_branch_child, row - 1)),
        on::<F>(advice_at(grid, columns.is_last_branch_child, row - 2)),
        off::<F>(
            advice_at(grid, columns.flag(columns.positions.is_extension_node_pos), row - 18),
        ),
    ensures
        gate.constraints@[4].poly.vanishes(grid, row) && gate.constraints@[5].poly.vanishes(
            grid,
            row,
        ) <==> key_rlc_is_kept::<F, HASH_WIDTH>(columns, grid, row),
{
    let c = columns.key_cells::<F>();
    lemma_bit::<F>(c.is_branch_init_prev.eval(grid, row));
    lemma_bit::<F>(c.is_branch_child_prev.eval(grid, row));
    lemma_bit::<F>(c.is_extension_node.eval(grid, row));
    lemma_not_eval(c.is_branch_init_prev, grid, row);
    lemma_not_eval(c.is_branch_child_prev, grid, row);
    lemma_not_eval(c.is_extension_node, grid, row);
    lemma_and_eval(c.q_not_first, not(c.is_branch_init_prev), grid, row);
    let guard = c.q_not_first * not(c.is_branch_init_prev);
    lemma_and_eval(guard, not(c.is_branch_child_prev), grid, row);
    let guard = guard * not(c.is_branch_child_prev);
    lemma_and_eval(guard, c.is_extension_c_row, grid, row);
    lemma_and_eval(guard * c.is_extension_c_row, not(c.is_extension_node), grid, row);
    let selector = c_row_selector(c);
    lemma_guarded_difference(selector, c.key_rlc_cur, c.key_rlc_prev, grid, row);
    lemma_guarded_difference(selector, c.key_rlc_mult_cur, c.key_rlc_mult_prev, grid, row);
    assert(gate.constraints@[4].poly == selector * (c.key_rlc_cur - c.key_rlc_prev));
    assert(gate.constraints@[5].poly == selector * (c.key_rlc_mult_cur - c.key_rlc_mult_prev));
}

/// The S row and the C row of a branch without extension node have the key RLC, and the
/// multiplier, of the branch: that of any of its children, which are the rows `first..=last`.
pub proof fn law_rows_without_extension_share_branch_key_rlc<F: Field, const HASH_WIDTH: usize>(
    gate: Gate<F>,
    columns: KeyColumns<HASH_WIDTH>,
    r_table: Seq<Expression<F>>,
    grid: Grid,
    first: int,
    last: int,
    i: int,
)
    requires
        is_key_gate(gate, columns, r_table),
        first <= i <= last,
        forall|row: int|
            first < row <= last + 2 ==> #[trigger] gate_holds(gate, grid, row) && on::<F>(
                fixed_at(grid, columns.q_not_first, row),
            ),
        forall|row: int|
            first <= row <= last ==> on::<F>(
                #[trigger] advice_at(grid, columns.is_branch_child, row),
            ),
        off::<F>(advice_at(grid, columns.is_branch_child, last + 1)),
        off::<F>(advice_at(grid, columns.is_branch_init, last)),
        off::<F>(advice_at(grid, columns.is_branch_init, last + 1)),
        on::<F>(advice_at(grid, columns.is_last_branch_child, last)),
        off::<F>(
            advice_at(grid, columns.flag(columns.positions.is_extension_node_pos), last - 16),
        ),
    ensures
        congruent::<F>(
            advice_at(grid, columns.key_rlc, last + 1),
            advice_at(grid, columns.key_rlc, i),
        ),
        congruent::<F>(
            advice_at(grid, columns.key_rlc_mult, last + 1),
            advice_at(grid, columns.key_rlc_mult, i),
        ),
        congruent::<F>(
            advice_at(grid, columns.key_rlc, last + 2),
            advice_at(grid, columns.key_rlc, i),
        ),
        congruent::<F>(
            advice_at(grid, columns.key_rlc_mult, last + 2),
            advice_at(grid, columns.key_rlc_mult, i),
        ),
{
    law_branch_children_share_key_rlc(gate, columns, r_table, grid, first, last, i, last);
    assert(gate_holds(gate, grid, last + 1));
    assert(gate_holds(gate, grid, last + 2));
    law_s_row_keeps_key_rlc(gate, columns, r_table, grid, last + 1);
    law_c_row_keeps_key_rlc(gate, columns, r_table, grid, last + 2);
    assert(gate.constraints@[2].poly.vanishes(grid, last + 1));
    assert(gate.constraints@[3].poly.vanishes(grid, last + 1));
    assert(gate.constraints@[4].poly.vanishes(grid, last + 2));
    assert(gate.constraints@[5].poly.vanishes(grid, last + 2));
    lemma_kept_twice::<F>(
        advice_at(grid, columns.key_rlc, i),
        advice_at(grid, columns.key_rlc, last),
        advice_at(grid, columns.key_rlc, last + 1),
        advice_at(grid, columns.key_rlc, last + 2),
    );
    lemma_kept_twice::<F>(
        advice_at(grid, columns.key_rlc_mult, i),
        advice_at(grid, columns.key_rlc_mult, last),
        advice_at(grid, columns.key_rlc_mult, last + 1),
        advice_at(grid, columns.key_rlc_mult, last + 2),
    );
}

/// A value that is kept over two rows is the one before them.
proof fn lemma_kept_twice<F: Field>(branch: int, last: int, s: int, c: int)
    requires
        congruent::<F>(branch, last),
        congruent::<F>(s, last),
        congruent::<F>(c, s),
    ensures
        congruent::<F>(s, branch),
        congruent::<F>(c, branch),
{
    lemma_congruent_transitive::<F>(s, last, branch);
    lemma_congruent_symmetric::<F>(s, branch);
    lemma_congruent_transitive::<F>(c, s, branch);
}

/// A product is 0 where a factor is.
proof fn lemma_off_product<F: Field>(a: Expression<F>, b: Expression<F>, grid: Grid, row: int)
    requires
        a.vanishes(grid, row) || b.vanishes(grid, row),
    ensures
        (a * b).vanishes(grid, row),
{
    let p = F::order() as int;
    let (x, y) = (a.eval(grid, row), b.eval(grid, row));
    F::lemma_element(0);
    lemma_mul_mod_noop(x, y, p);
    lemma_mul_by_zero_is_zero(x % p);
    lemma_mul_by_zero_is_zero(y % p);
    lemma_small_mod(0, p as nat);
}

/// Every cell that a constraint of the key gate reads has been queried for it, if this is so of
/// the coefficients.
pub proof fn law_constraints_read_queried_cells<F: Field, const HASH_WIDTH: usize>(
    gate: Gate<F>,
    columns: KeyColumns<HASH_WIDTH>,
    r_table: Seq<Expression<F>>,
    i: int,
)
    requires
        columns.wf(),
        is_key_gate(gate, columns, r_table),
        r_table.len() >= HASH_WIDTH - 1,
        forall|k: int|
            0 <= k < r_table.len() ==> (#[trigger] r_table[k]).reads_only(gate.queried_cells@),
        0 <= i < gate.constraints@.len(),
    ensures
        gate.constraints@[i].poly.reads_only(gate.queried_cells@),
{
    let cells = gate.queried_cells@;
    let c = columns.key_cells::<F>();
    let listed = columns.queried_key_cells();
    let one = Expression::Constant(F::element(1));
    assert forall|k: int| 0 <= k < listed.len() implies cells.contains(#[trigger] listed[k]) by {
        assert(cells[k] == listed[k]);
    }
    assert(c.q_not_first == Expression::<F>::Cell(listed[0]));
    assert(c.not_first_level == Expression::<F>::Cell(listed[1]));
    assert(c.is_extension_node == Expression::<F>::Cell(listed[2]));
    assert(c.is_extension_node_s == Expression::<F>::Cell(listed[3]));
    assert(c.is_key_even == Expression::<F>::Cell(listed[4]));
    assert(c.is_key_odd == Expression::<F>::Cell(listed[5]));
    assert(c.is_short == Expression::<F>::Cell(listed[6]));
    assert(c.is_long == Expression::<F>::Cell(listed[7]));
    assert(c.sel1 == Expression::<F>::Cell(listed[8]));
    assert(c.sel2 == Expression::<F>::Cell(listed[9]));
    assert(c.is_account_leaf_storage_codehash_prev == Expression::<F>::Cell(listed[10]));
    assert(c.is_branch_init_prev == Expression::<F>::Cell(listed[11]));
    assert(c.is_branch_child_prev == Expression::<F>::Cell(listed[12]));
    assert(c.is_branch_child_cur == Expression::<F>::Cell(listed[13]));
    assert(c.modified_node_cur == Expression::<F>::Cell(listed[14]));
    assert(c.is_extension_s_row == Expression::<F>::Cell(listed[15]));
    assert(c.is_extension_c_row == Expression::<F>::Cell(listed[16]));
    assert(c.key_rlc_prev == Expression::<F>::Cell(listed[17]));
    assert(c.key_rlc_prev_level == Expression::<F>::Cell(listed[18]));
    assert(c.key_rlc_cur == Expression::<F>::Cell(listed[19]));
    assert(c.key_rlc_mult_prev == Expression::<F>::Cell(listed[20]));
    assert(c.key_rlc_mult_prev_level == Expression::<F>::Cell(listed[21]));
    assert(c.key_rlc_mult_cur == Expression::<F>::Cell(listed[22]));
    assert(c.key_rlc_branch == Expression::<F>::Cell(listed[23]));
    assert(c.key_rlc_mult_branch == Expression::<F>::Cell(listed[24]));
    assert(c.s_advices1 == Expression::<F>::Cell(listed[25]));
    let n = listed.len() as int;
    let tail1 = cells_at(columns.s_advices@.skip(1), -1);
    let tail2 = cells_at(columns.s_advices@.skip(2), -1);
    assert forall|k: int| 0 <= k < tail1.len() implies cells.contains(#[trigger] tail1[k]) by {
        assert(cells[n + k] == tail1[k]);
    }
    assert forall|k: int| 0 <= k < tail2.len() implies cells.contains(#[trigger] tail2[k]) by {
        assert(cells[n + tail1.len() + k] == tail2[k]);
    }
    lemma_rlc_reads(columns.s_advices@.skip(1), one, r_table, cells);
    lemma_rlc_reads(columns.s_advices@.skip(2), c.key_rlc_mult_prev_level, r_table, cells);
    reveal_with_fuel(Expression::reads_only, 12);
}

/// A random linear combination reads the cells it combines.
proof fn lemma_rlc_reads<F: Field>(
    bytes: Seq<Column<Advice>>,
    mult: Expression<F>,
    r_table: Seq<Expression<F>>,
    cells: Seq<Cell>,
)
    requires
        mult.reads_only(cells),
        bytes.len() <= r_table.len(),
        forall|k: int| 0 <= k < r_table.len() ==> (#[trigger] r_table[k]).reads_only(cells),
        forall|k: int|
            0 <= k < bytes.len() ==> cells.contains(
                #[trigger] cells_at(bytes, -1)[k],
            ),
    ensures
        rlc(bytes, 0, mult, -1, r_table).reads_only(cells),
    decreases bytes.len(),
{
    reveal_with_fuel(Expression::reads_only, 4);
    if bytes.len() > 0 {
        let front = bytes.drop_last();
        assert forall|k: int| 0 <= k < front.len() implies cells.contains(
            #[trigger] cells_at(front, -1)[k],
        ) by {
            assert(cells_at(front, -1)[k] == cells_at(bytes, -1)[k]);
        }
        assert(cells.contains(cells_at(bytes, -1)[bytes.len() - 1]));
        lemma_rlc_reads(front, mult, r_table, cells);
    }
}

/// The columns of a branch and of its extension node are told apart, and so are its flags.
pub open spec fn has_distinct_columns<const HASH_WIDTH: usize>(
    columns: KeyColumns<HASH_WIDTH>,
    s_rlp2: Column<Advice>,
) -> bool {
    let p = columns.positions;
    &&& (seq![
        columns.is_branch_init,
        columns.is_branch_child,
        columns.is_last_branch_child,
        columns.is_account_leaf_storage_codehash_c,
        s_rlp2,
        columns.modified_node,
        columns.sel1,
        columns.sel2,
        columns.key_rlc,
        columns.key_rlc_mult,
    ] + columns.s_advices@).no_duplicates()
    &&& p.is_extension_odd_key_len_pos != p.is_extension_node_pos
    &&& p.is_extension_odd_key_len_pos != p.is_extension_even_key_len_pos
    &&& p.is_extension_odd_key_len_pos != p.is_extension_key_long_pos
    &&& p.is_extension_key_short_pos != p.is_extension_node_pos
    &&& p.is_extension_key_short_pos != p.is_extension_even_key_len_pos
    &&& p.is_extension_key_short_pos != p.is_extension_key_long_pos
}

/// A cell that no constraint of the key gate reads: one of `s_rlp2` or of `sel2`, or the flag, seen
/// from the C row, of a key with an odd number of nibbles or of a short key.
pub open spec fn is_unread<const HASH_WIDTH: usize>(
    columns: KeyColumns<HASH_WIDTH>,
    s_rlp2: Column<Advice>,
    cell: Cell,
) -> bool {
    let p = columns.positions;
    &&& cell.column matches AnyColumn::Advice(column)
    &&& {
        ||| column == s_rlp2
        ||| column == columns.sel2
        ||| cell.rotation.0 == -18 && {
            ||| column == columns.flag(p.is_extension_odd_key_len_pos)
            ||| column == columns.flag(p.is_extension_key_short_pos)
        }
    }
}

/// The cells that the constraints of the key gate read, besides those of the coefficients.
pub open spec fn constraint_cells<const HASH_WIDTH: usize>(
    columns: KeyColumns<HASH_WIDTH>,
) -> Seq<Cell> {
    let p = columns.positions;
    seq![
        fixed_cell(columns.q_not_first, 0),
        fixed_cell(columns.not_first_level, 0),
        advice_cell(columns.flag(p.is_extension_node_pos), -18),
        advice_cell(columns.flag(p.is_extension_node_pos), -17),
        advice_cell(columns.flag(p.is_extension_even_key_len_pos), -18),
        advice_cell(columns.flag(p.is_extension_key_long_pos), -18),
        advice_cell(columns.sel1, -18),
        advice_cell(columns.is_account_leaf_storage_codehash_c, -19),
        advice_cell(columns.is_branch_init, -1),
        advice_cell(columns.is_branch_child, -1),
        advice_cell(columns.is_branch_child, 0),
        advice_cell(columns.modified_node, -2),
        advice_cell(columns.is_last_branch_child, -1),
        advice_cell(columns.is_last_branch_child, -2),
        advice_cell(columns.key_rlc, -1),
        advice_cell(columns.key_rlc, -21),
        advice_cell(columns.key_rlc, 0),
        advice_cell(columns.key_rlc_mult, -1),
        advice_cell(columns.key_rlc_mult, -21),
        advice_cell(columns.key_rlc_mult, 0),
        advice_cell(columns.key_rlc, -17),
        advice_cell(columns.key_rlc_mult, -17),
    ] + cells_at(columns.s_advices@.skip(1), -1)
}

/// None of the cells that the constraints read is one of `s_rlp2`, of `sel2` or of the flags of an
/// odd and of a short key.
pub open spec fn reads_apart<const HASH_WIDTH: usize>(
    columns: KeyColumns<HASH_WIDTH>,
    s_rlp2: Column<Advice>,
) -> bool {
    forall|k: int|
        0 <= k < constraint_cells(columns).len() ==> !is_unread(
            columns,
            s_rlp2,
            #[trigger] constraint_cells(columns)[k],
        )
}

/// What `s_rlp2`, `sel2` and the flags of an odd and of a short key hold is of no account: two
/// grids that differ, as seen from `row`, in these cells alone give each constraint the same value,
/// if none of them is also a cell that a constraint or a coefficient reads.
pub proof fn law_unread_cells<F: Field, const HASH_WIDTH: usize>(
    gate: Gate<F>,
    columns: KeyColumns<HASH_WIDTH>,
    s_rlp2: Column<Advice>,
    r_table: Seq<Expression<F>>,
    grid: Grid,
    other: Grid,
    row: int,
    i: int,
)
    requires
        columns.wf(),
        is_key_gate(gate, columns, r_table),
        reads_apart(columns, s_rlp2),
        r_table.len() >= HASH_WIDTH - 1,
        forall|k: int|
            0 <= k < r_table.len() ==> (#[trigger] r_table[k]).avoids(
                |cell: Cell| is_unread(columns, s_rlp2, cell),
            ),
        forall|cell: Cell|
            !#[trigger] is_unread(columns, s_rlp2, cell) ==> grid(
                cell.column,
                row + cell.rotation.0,
            ) == other(cell.column, row + cell.rotation.0),
        0 <= i < gate.constraints@.len(),
    ensures
        gate.constraints@[i].poly.eval(grid, row) == gate.constraints@[i].poly.eval(other, row),
{
    let unread = |cell: Cell| is_unread(columns, s_rlp2, cell);
    let c = columns.key_cells::<F>();
    let one = Expression::Constant(F::element(1));
    let read = constraint_cells(columns);
    assert forall|k: int| 0 <= k < read.len() implies !unread(#[trigger] read[k]) by {}
    assert(c.q_not_first == Expression::<F>::Cell(read[0]));
    assert(c.not_first_level == Expression::<F>::Cell(read[1]));
    assert(c.is_extension_node == Expression::<F>::Cell(read[2]));
    assert(c.is_extension_node_s == Expression::<F>::Cell(read[3]));
    assert(c.is_key_even == Expression::<F>::Cell(read[4]));
    assert(c.is_long == Expression::<F>::Cell(read[5]));
    assert(c.sel1 == Expression::<F>::Cell(read[6]));
    assert(c.is_account_leaf_storage_codehash_prev == Expression::<F>::Cell(read[7]));
    assert(c.is_branch_init_prev == Expression::<F>::Cell(read[8]));
    assert(c.is_branch_child_prev == Expression::<F>::Cell(read[9]));
    assert(c.is_branch_child_cur == Expression::<F>::Cell(read[10]));
    assert(c.modified_node_cur == Expression::<F>::Cell(read[11]));
    assert(c.is_extension_s_row == Expression::<F>::Cell(read[12]));
    assert(c.is_extension_c_row == Expression::<F>::Cell(read[13]));
    assert(c.key_rlc_prev == Expression::<F>::Cell(read[14]));
    assert(c.key_rlc_prev_level == Expression::<F>::Cell(read[15]));
    assert(c.key_rlc_cur == Expression::<F>::Cell(read[16]));
    assert(c.key_rlc_mult_prev == Expression::<F>::Cell(read[17]));
    assert(c.key_rlc_mult_prev_level == Expression::<F>::Cell(read[18]));
    assert(c.key_rlc_mult_cur == Expression::<F>::Cell(read[19]));
    assert(c.key_rlc_branch == Expression::<F>::Cell(read[20]));
    assert(c.key_rlc_mult_branch == Expression::<F>::Cell(read[21]));
    assert(c.s_advices1 == Expression::<F>::Cell(read[22]));
    assert forall|k: int| 1 <= k < HASH_WIDTH implies !unread(
        #[trigger] advice_cell(columns.s_advices@[k], -1),
    ) by {
        assert(read[21 + k] == advice_cell(columns.s_advices@[k], -1));
    }
    lemma_rlc_avoids(columns.s_advices@.skip(1), one, r_table, unread);
    lemma_rlc_avoids(columns.s_advices@.skip(2), c.key_rlc_mult_prev_level, r_table, unread);
    reveal_with_fuel(Expression::avoids, 12);
    assert(gate.constraints@[i].poly.avoids(unread));
    lemma_avoids(gate.constraints@[i].poly, unread, grid, other, row);
}

/// Where the columns are distinct, none of the cells that the constraints read is one of those of
/// no account.
pub proof fn law_distinct_columns_are_read_apart<const HASH_WIDTH: usize>(
    columns: KeyColumns<HASH_WIDTH>,
    s_rlp2: Column<Advice>,
)
    requires
        columns.wf(),
        has_distinct_columns(columns, s_rlp2),
    ensures
        reads_apart(columns, s_rlp2),
{
    lemma_read_columns(columns, s_rlp2);
    let read = constraint_cells(columns);
    assert forall|k: int| 0 <= k < read.len() implies !is_unread(
        columns,
        s_rlp2,
        #[trigger] read[k],
    ) by {
        if k >= 22 {
            assert(read[k] == advice_cell(columns.s_advices@[k - 21], -1));
        }
    }
}

/// The columns that constraints read are neither `s_rlp2` nor `sel2`, and, at the distance of the
/// flags, none of the two flags that no constraint reads.
proof fn lemma_read_columns<const HASH_WIDTH: usize>(
    columns: KeyColumns<HASH_WIDTH>,
    s_rlp2: Column<Advice>,
)
    requires
        columns.wf(),
        has_distinct_columns(columns, s_rlp2),
    ensures
        forall|k: int|
            0 <= k < HASH_WIDTH ==> #[trigger] columns.s_advices@[k] != s_rlp2
                && columns.s_advices@[k] != columns.sel2,
        ({
            let p = columns.positions;
            let odd = columns.flag(p.is_extension_odd_key_len_pos);
            let short = columns.flag(p.is_extension_key_short_pos);
            &&& columns.flag(p.is_extension_node_pos) != odd
            &&& columns.flag(p.is_extension_node_pos) != short
            &&& columns.flag(p.is_extension_even_key_len_pos) != odd
            &&& columns.flag(p.is_extension_even_key_len_pos) != short
            &&& columns.flag(p.is_extension_key_long_pos) != odd
            &&& columns.flag(p.is_extension_key_long_pos) != short
            &&& columns.sel1 != odd
            &&& columns.sel1 != short
        }),
        ({
            let apart = |column: Column<Advice>| column != s_rlp2 && column != columns.sel2;
            &&& apart(columns.is_branch_init)
            &&& apart(columns.is_branch_child)
            &&& apart(columns.is_last_branch_child)
            &&& apart(columns.is_account_leaf_storage_codehash_c)
            &&& apart(columns.modified_node)
            &&& apart(columns.sel1)
            &&& apart(columns.key_rlc)
            &&& apart(columns.key_rlc_mult)
        }),
{
    let p = columns.positions;
    let named = seq![
        columns.is_branch_init,
        columns.is_branch_child,
        columns.is_last_branch_child,
        columns.is_account_leaf_storage_codehash_c,
        s_rlp2,
        columns.modified_node,
        columns.sel1,
        columns.sel2,
        columns.key_rlc,
        columns.key_rlc_mult,
    ];
    let all = named + columns.s_advices@;
    assert(forall|k: int| 0 <= k < 10 ==> all[k] == named[k]);
    assert forall|k: int| 0 <= k < HASH_WIDTH implies #[trigger] columns.s_advices@[k] == all[10
        + k] by {}
    assert forall|k: int| 0 <= k < HASH_WIDTH implies #[trigger] columns.s_advices@[k] != s_rlp2
        && columns.s_advices@[k] != columns.sel2 && columns.s_advices@[k] != columns.sel1 by {
        assert(all[10 + k] != all[4] && all[10 + k] != all[7] && all[10 + k] != all[6]);
    }
    let at = |pos: usize| pos - p.layout_offset;
    assert forall|a: usize, b: usize|
        p.has_column(a, HASH_WIDTH as int) && p.has_column(b, HASH_WIDTH as int) && a
            != b implies #[trigger] columns.flag(a) != #[trigger] columns.flag(b) by {
        assert(all[10 + at(a)] != all[10 + at(b)]);
    }
    assert forall|k: int| 0 <= k < 10 && k != 4 && k != 7 implies #[trigger] named[k] != s_rlp2
        && named[k] != columns.sel2 by {
        assert(all[k] != all[4] && all[k] != all[7]);
    }
    assert(named[0] != s_rlp2 && named[1] != s_rlp2 && named[2] != s_rlp2 && named[3] != s_rlp2);
    assert(named[5] != s_rlp2 && named[6] != s_rlp2 && named[8] != s_rlp2 && named[9] != s_rlp2);
}

/// An expression that avoids some cells has the same value on grids that differ in these alone.
proof fn lemma_avoids<F: Field>(
    e: Expression<F>,
    cells: spec_fn(Cell) -> bool,
    grid: Grid,
    other: Grid,
    row: int,
)
    requires
        e.avoids(cells),
        forall|cell: Cell|
            !#[trigger] cells(cell) ==> grid(cell.column, row + cell.rotation.0) == other(
                cell.column,
                row + cell.rotation.0,
            ),
    ensures
        e.eval(grid, row) == e.eval(other, row),
    decreases e,
{
    match e {
        Expression::Constant(_) => {},
        Expression::Cell(cell) => {
            assert(!cells(cell));
        },
        Expression::Negated(a) => lemma_avoids(*a, cells, grid, other, row),
        Expression::Sum(a, b) => {
            lemma_avoids(*a, cells, grid, other, row);
            lemma_avoids(*b, cells, grid, other, row);
        },
        Expression::Product(a, b) => {
            lemma_avoids(*a, cells, grid, other, row);
            lemma_avoids(*b, cells, grid, other, row);
        },
    }
}

/// A random linear combination avoids what the cells it combines and their coefficients avoid.
proof fn lemma_rlc_avoids<F: Field>(
    bytes: Seq<Column<Advice>>,
    mult: Expression<F>,
    r_table: Seq<Expression<F>>,
    cells: spec_fn(Cell) -> bool,
)
    requires
        mult.avoids(cells),
        bytes.len() <= r_table.len(),
        forall|k: int| 0 <= k < r_table.len() ==> (#[trigger] r_table[k]).avoids(cells),
        forall|k: int| 0 <= k < bytes.len() ==> !cells(advice_cell(#[trigger] bytes[k], -1)),
    ensures
        rlc(bytes, 0, mult, -1, r_table).avoids(cells),
    decreases bytes.len(),
{
    reveal_with_fuel(Expression::avoids, 4);
    if bytes.len() > 0 {
        assert(!cells(advice_cell(bytes[bytes.len() - 1], -1)));
        lemma_rlc_avoids(bytes.drop_last(), mult, r_table, cells);
    }
}

} // verus!
