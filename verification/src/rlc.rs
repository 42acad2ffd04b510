//! Random linear combinations of cells.
use crate::constraint_system::VirtualCells;
use crate::expression::{
    advice_cell, Advice, AnyColumn, Cell, Column, Expression, Grid, Rotation,
};
use crate::field::Field;
use vstd::arithmetic::div_mod::lemma_small_mod;
use vstd::prelude::*;

verus! {

/// The sum of the cells of `advices` at `rotation`, the `i`-th of them times
/// `r_table[rind + i]` and times `mult`.
pub open spec fn rlc<F: Field>(
    advices: Seq<Column<Advice>>,
    rind: int,
    mult: Expression<F>,
    rotation: int,
    r_table: Seq<Expression<F>>,
) -> Expression<F>
    decreases advices.len(),
{
    if advices.len() == 0 {
        Expression::Constant(F::element(0))
    } else {
        rlc(advices.drop_last(), rind, mult, rotation, r_table) + Expression::Cell(
            advice_cell(advices.last(), rotation),
        ) * r_table[rind + advices.len() - 1] * mult
    }
}

/// The cells of `advices` at `rotation`.
pub open spec fn cells_at(advices: Seq<Column<Advice>>, rotation: int) -> Seq<Cell> {
    Seq::new(advices.len(), |i: int| advice_cell(advices[i], rotation))
}

/// Queries each of `advices` at `rotation`, and adds the cells up with the coefficients of
/// `r_table` from `rind` on, everything times `mult`.
pub fn compute_rlc<F: Field>(
    meta: &mut VirtualCells,
    advices: &Vec<Column<Advice>>,
    rind: usize,
    mult: &Expression<F>,
    rotation: i32,
    r_table: &Vec<Expression<F>>,
) -> (r: Expression<F>)
    requires
        rind + advices@.len() <= r_table@.len(),
    ensures
        r == rlc(advices@, rind as int, *mult, rotation as int, r_table@),
        final(meta).queried@ == old(meta).queried@ + cells_at(advices@, rotation as int),
{
    let mut sum: Expression<F> = Expression::Constant(F::zero());
    let ghost before = meta.queried@;
    let coefficients: usize = r_table.len();
    let mut i: usize = 0;
    assert(advices@.take(0) == Seq::<Column<Advice>>::empty());
    while i < advices.len()
        invariant
            i <= advices@.len(),
            rind + advices@.len() <= coefficients == r_table@.len(),
            sum == rlc(advices@.take(i as int), rind as int, *mult, rotation as int, r_table@),
            meta.queried@ == before + cells_at(advices@.take(i as int), rotation as int),
        decreases advices@.len() - i,
    {
        let s: Expression<F> = meta.query_advice(advices[i], Rotation(rotation));
        sum = sum + s * r_table[rind + i].clone() * mult.clone();
        proof {
            assert(advices@.take(i + 1).drop_last() == advices@.take(i as int));
        }
        i += 1;
    }
    assert(advices@.take(advices@.len() as int) == advices@);
    sum
}

/// Nothing combines to 0, and one cell to itself times its coefficient and the multiplier.
pub proof fn law_rlc_of_one<F: Field>(
    column: Column<Advice>,
    rind: int,
    mult: Expression<F>,
    rotation: i32,
    r_table: Seq<Expression<F>>,
    grid: Grid,
    row: int,
)
    ensures
        rlc(seq![], rind, mult, rotation as int, r_table).eval(grid, row) == 0,
        rlc(seq![column], rind, mult, rotation as int, r_table).eval(grid, row) == grid(
            AnyColumn::Advice(column),
            row + rotation,
        ) * r_table[rind].eval(grid, row) * mult.eval(grid, row),
{
    reveal_with_fuel(rlc, 2);
    reveal_with_fuel(Expression::eval, 4);
    F::lemma_element(0);
    lemma_small_mod(0, F::order());
    assert(seq![column].drop_last() == Seq::<Column<Advice>>::empty());
}

/// A combination of two runs of cells is the sum of the combinations of each, the second one with
/// the coefficients that come after those of the first.
pub proof fn law_rlc_adds_up<F: Field>(
    left: Seq<Column<Advice>>,
    right: Seq<Column<Advice>>,
    rind: int,
    mult: Expression<F>,
    rotation: i32,
    r_table: Seq<Expression<F>>,
    grid: Grid,
    row: int,
)
    ensures
        rlc(left + right, rind, mult, rotation as int, r_table).eval(grid, row) == rlc(
            left,
            rind,
            mult,
            rotation as int,
            r_table,
        ).eval(grid, row) + rlc(
            right,
            rind + left.len(),
            mult,
            rotation as int,
            r_table,
        ).eval(grid, row),
    decreases right.len(),
{
    reveal_with_fuel(Expression::eval, 2);
    if right.len() == 0 {
        assert(left + right == left);
        law_rlc_of_one(arbitrary(), rind + left.len(), mult, rotation, r_table, grid, row);
        assert(right == Seq::<Column<Advice>>::empty());
    } else {
        law_rlc_adds_up(left, right.drop_last(), rind, mult, rotation, r_table, grid, row);
        assert((left + right).drop_last() == left + right.drop_last());
    }
}

/// Computing a combination gives the expression of the combination, and queries each of its cells
/// once, in order, after those before.
pub proof fn law_compute_rlc<F: Field>(
    meta: &mut VirtualCells,
    advices: Vec<Column<Advice>>,
    rind: usize,
    mult: Expression<F>,
    rotation: i32,
    r_table: Vec<Expression<F>>,
    r: Expression<F>,
)
    requires
        rind + advices@.len() <= r_table@.len(),
        call_ensures(
            compute_rlc::<F>,
            (meta, &advices, rind, &mult, rotation, &r_table),
            r,
        ),
    ensures
        r == rlc(advices@, rind as int, mult, rotation as int, r_table@),
        final(meta).queried@.len() == old(meta).queried@.len() + advices@.len(),
        final(meta).queried@.take(old(meta).queried@.len() as int) == old(meta).queried@,
        ({
            let added = final(meta).queried@.skip(old(meta).queried@.len() as int);
            forall|i: int|
                0 <= i < advices@.len() ==> added[i] == (Cell {
                    column: AnyColumn::Advice(#[trigger] advices@[i]),
                    rotation: Rotation(rotation),
                })
        }),
{
}

} // verus!
