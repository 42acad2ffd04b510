//! Gates, and the record of the cells that they query.
use crate::expression::{Advice, AnyColumn, Cell, Column, Expression, Fixed, Grid, Rotation};
use crate::field::Field;
use vstd::prelude::*;

verus! {

/// The cells that a gate under construction has queried, in order.
pub struct VirtualCells {
    pub queried: Vec<Cell>,
}

impl VirtualCells {
    /// No cell has been queried.
    pub fn new() -> (r: Self)
        ensures
            r.queried@ == Seq::<Cell>::empty(),
    {
        VirtualCells { queried: Vec::new() }
    }

    /// Queries a fixed column at a relative position.
    pub fn query_fixed<F>(&mut self, column: Column<Fixed>, at: Rotation) -> (r: Expression<F>)
        ensures
            r == Expression::<F>::Cell((Cell { column: AnyColumn::Fixed(column), rotation: at })),
            final(self).queried@ == old(self).queried@.push(
                (Cell { column: AnyColumn::Fixed(column), rotation: at }),
            ),
    {
        let cell = Cell { column: AnyColumn::Fixed(column), rotation: at };
        self.queried.push(cell);
        Expression::Cell(cell)
    }

    /// Queries an advice column at a relative position.
    pub fn query_advice<F>(&mut self, column: Column<Advice>, at: Rotation) -> (r: Expression<F>)
        ensures
            r == Expression::<F>::Cell((Cell { column: AnyColumn::Advice(column), rotation: at })),
            final(self).queried@ == old(self).queried@.push(
                (Cell { column: AnyColumn::Advice(column), rotation: at }),
            ),
    {
        let cell = Cell { column: AnyColumn::Advice(column), rotation: at };
        self.queried.push(cell);
        Expression::Cell(cell)
    }

    /// Adds cells that have been queried elsewhere for the same gate.
    pub fn record(&mut self, mut cells: Vec<Cell>)
        ensures
            final(self).queried@ == old(self).queried@ + cells@,
    {
        self.queried.append(&mut cells);
    }
}

/// A polynomial that has to vanish on every row, with a name for diagnostics.
pub struct Constraint<F> {
    pub name: &'static str,
    pub poly: Expression<F>,
}

/// Constraints that were made together, and the cells queried for them.
pub struct Gate<F> {
    pub name: &'static str,
    pub constraints: Vec<Constraint<F>>,
    pub queried_cells: Vec<Cell>,
}

/// The gates of a circuit.
pub struct ConstraintSystem<F> {
    pub gates: Vec<Gate<F>>,
}

impl<F> ConstraintSystem<F> {
    /// No gate.
    pub fn new() -> (r: Self)
        ensures
            r.gates@ == Seq::<Gate<F>>::empty(),
    {
        ConstraintSystem { gates: Vec::new() }
    }

    /// Adds a gate, which has to hold at least one constraint.
    pub fn create_gate(
        &mut self,
        name: &'static str,
        cells: VirtualCells,
        constraints: Vec<Constraint<F>>,
    )
        requires
            constraints@.len() > 0,
        ensures
            final(self).gates@ == old(self).gates@.push(
                (Gate { name, constraints, queried_cells: cells.queried }),
            ),
    {
        self.gates.push(Gate { name, constraints, queried_cells: cells.queried });
    }
}

/// Queries of a column read it at the distance asked for, and are logged after those before.
pub proof fn law_queries_are_logged<F: Field>(
    meta: &mut VirtualCells,
    column: Column<Advice>,
    at: Rotation,
    r: Expression<F>,
    grid: Grid,
    row: int,
)
    requires
        call_ensures(VirtualCells::query_advice::<F>, (meta, column, at), r),
    ensures
        r.eval(grid, row) == grid(AnyColumn::Advice(column), row + at.0),
        r.reads_only(seq![final(meta).queried@.last()]),
        final(meta).queried@.drop_last() == old(meta).queried@,
        final(meta).queried@.len() == old(meta).queried@.len() + 1,
{
    let cells = seq![final(meta).queried@.last()];
    assert(cells[0] == final(meta).queried@.last());
}

/// Queries of a fixed column do the same.
pub proof fn law_fixed_queries_are_logged<F: Field>(
    meta: &mut VirtualCells,
    column: Column<Fixed>,
    at: Rotation,
    r: Expression<F>,
    grid: Grid,
    row: int,
)
    requires
        call_ensures(VirtualCells::query_fixed::<F>, (meta, column, at), r),
    ensures
        r.eval(grid, row) == grid(AnyColumn::Fixed(column), row + at.0),
        r.reads_only(seq![final(meta).queried@.last()]),
        final(meta).queried@.drop_last() == old(meta).queried@,
        final(meta).queried@.len() == old(meta).queried@.len() + 1,
{
    let cells = seq![final(meta).queried@.last()];
    assert(cells[0] == final(meta).queried@.last());
}

/// A new gate comes after those before, with its constraints and its cells as they are.
pub proof fn law_gates_are_kept<F>(
    meta: &mut ConstraintSystem<F>,
    name: &'static str,
    cells: VirtualCells,
    constraints: Vec<Constraint<F>>,
)
    requires
        constraints@.len() > 0,
        call_ensures(ConstraintSystem::<F>::create_gate, (meta, name, cells, constraints), ()),
    ensures
        final(meta).gates@.len() == old(meta).gates@.len() + 1,
        forall|i: int|
            0 <= i < old(meta).gates@.len() ==> #[trigger] final(meta).gates@[i]
                == old(meta).gates@[i],
        final(meta).gates@.last().name == name,
        final(meta).gates@.last().constraints@ == constraints@,
        final(meta).gates@.last().queried_cells@ == cells.queried@,
{
}

} // verus!
