//! Polynomial expressions over the cells of a circuit.
use crate::congruence::congruent;
use crate::field::Field;
use std::ops::{Add, Mul, Sub};
use vstd::prelude::*;
use vstd::std_specs::ops::{AddSpecImpl, MulSpecImpl, SubSpecImpl};

verus! {

/// The kind of a column whose values the prover supplies.
#[derive(Clone, Copy, Debug, PartialEq, Eq, Structural)]
pub struct Advice;

/// The kind of a column whose values are part of the circuit.
#[derive(Clone, Copy, Debug, PartialEq, Eq, Structural)]
pub struct Fixed;

/// A column of kind `C`; columns of one kind are told apart by their index.
#[derive(Debug)]
pub struct Column<C> {
    pub index: usize,
    pub kind: C,
}

impl<C: Copy> Clone for Column<C> {
    fn clone(&self) -> (r: Self)
        ensures
            r == *self,
    {
        *self
    }
}

impl<C: Copy> Copy for Column<C> {

}

/// A column of either kind.
#[derive(Clone, Copy, Debug)]
pub enum AnyColumn {
    Fixed(Column<Fixed>),
    Advice(Column<Advice>),
}

/// A distance in rows from the row that a constraint is checked on.
#[derive(Clone, Copy, Debug)]
pub struct Rotation(pub i32);

impl Rotation {
    /// The row itself.
    pub fn cur() -> (r: Self)
        ensures
            r == Rotation(0),
    {
        Rotation(0)
    }

    /// The row before.
    pub fn prev() -> (r: Self)
        ensures
            r.0 == -1,
    {
        Rotation(-1)
    }
}

/// A cell that an expression reads: a column, at some distance from the current row.
#[derive(Clone, Copy, Debug)]
pub struct Cell {
    pub column: AnyColumn,
    pub rotation: Rotation,
}

/// The cell of a fixed column at a distance.
pub open spec fn fixed_cell(column: Column<Fixed>, rotation: int) -> Cell {
    Cell { column: AnyColumn::Fixed(column), rotation: Rotation(rotation as i32) }
}

/// The cell of an advice column at a distance.
pub open spec fn advice_cell(column: Column<Advice>, rotation: int) -> Cell {
    Cell { column: AnyColumn::Advice(column), rotation: Rotation(rotation as i32) }
}

/// The values in the cells of a circuit, by column and row, each up to congruence.
pub type Grid = spec_fn(AnyColumn, int) -> int;

/// A polynomial over cells.
#[derive(Debug)]
pub enum Expression<F> {
    Constant(F),
    Cell(Cell),
    Negated(Box<Expression<F>>),
    Sum(Box<Expression<F>>, Box<Expression<F>>),
    Product(Box<Expression<F>>, Box<Expression<F>>),
}

/// The expression that reads a fixed column at a distance.
pub open spec fn read_fixed<F>(column: Column<Fixed>, rotation: int) -> Expression<F> {
    Expression::Cell(fixed_cell(column, rotation))
}

/// The expression that reads an advice column at a distance.
pub open spec fn read_advice<F>(column: Column<Advice>, rotation: int) -> Expression<F> {
    Expression::Cell(advice_cell(column, rotation))
}

impl<F: Field> Clone for Expression<F> {
    fn clone(&self) -> (r: Self)
        ensures
            r == *self,
        decreases self,
    {
        match self {
            Expression::Constant(c) => Expression::Constant(*c),
            Expression::Cell(cell) => Expression::Cell(*cell),
            Expression::Negated(a) => Expression::Negated(Box::new((**a).clone())),
            Expression::Sum(a, b) => Expression::Sum(
                Box::new((**a).clone()),
                Box::new((**b).clone()),
            ),
            Expression::Product(a, b) => Expression::Product(
                Box::new((**a).clone()),
                Box::new((**b).clone()),
            ),
        }
    }
}

impl<F: Field> Expression<F> {
    /// The integer that the polynomial takes on `row`; its residue is the value in the field.
    pub open spec fn eval(self, grid: Grid, row: int) -> int
        decreases self,
    {
        match self {
            Expression::Constant(c) => c.residue() as int,
            Expression::Cell(cell) => grid(cell.column, row + cell.rotation.0),
            Expression::Negated(a) => -a.eval(grid, row),
            Expression::Sum(a, b) => a.eval(grid, row) + b.eval(grid, row),
            Expression::Product(a, b) => a.eval(grid, row) * b.eval(grid, row),
        }
    }

    /// The polynomial is zero in the field on `row`.
    pub open spec fn vanishes(self, grid: Grid, row: int) -> bool {
        congruent::<F>(self.eval(grid, row), 0)
    }
}

impl<F> Expression<F> {
    /// The polynomial reads no cell but those of `cells`.
    pub open spec fn reads_only(self, cells: Seq<Cell>) -> bool
        decreases self,
    {
        match self {
            Expression::Constant(_) => true,
            Expression::Cell(cell) => cells.contains(cell),
            Expression::Negated(a) => a.reads_only(cells),
            Expression::Sum(a, b) => a.reads_only(cells) && b.reads_only(cells),
            Expression::Product(a, b) => a.reads_only(cells) && b.reads_only(cells),
        }
    }

    /// The polynomial reads none of `cells`.
    pub open spec fn avoids(self, cells: spec_fn(Cell) -> bool) -> bool
        decreases self,
    {
        match self {
            Expression::Constant(_) => true,
            Expression::Cell(cell) => !cells(cell),
            Expression::Negated(a) => a.avoids(cells),
            Expression::Sum(a, b) => a.avoids(cells) && b.avoids(cells),
            Expression::Product(a, b) => a.avoids(cells) && b.avoids(cells),
        }
    }

    pub open spec fn spec_add(self, rhs: Self) -> Self {
        Expression::Sum(Box::new(self), Box::new(rhs))
    }

    pub open spec fn spec_sub(self, rhs: Self) -> Self {
        Expression::Sum(Box::new(self), Box::new(Expression::Negated(Box::new(rhs))))
    }

    pub open spec fn spec_mul(self, rhs: Self) -> Self {
        Expression::Product(Box::new(self), Box::new(rhs))
    }
}

impl<F> AddSpecImpl for Expression<F> {
    open spec fn obeys_add_spec() -> bool {
        true
    }

    open spec fn add_req(self, rhs: Self) -> bool {
        true
    }

    open spec fn add_spec(self, rhs: Self) -> Self {
        self + rhs
    }
}

impl<F> Add for Expression<F> {
    type Output = Self;

    fn add(self, rhs: Self) -> (r: Self) {
        Expression::Sum(Box::new(self), Box::new(rhs))
    }
}

impl<F> Mul for Expression<F> {
    type Output = Self;

    fn mul(self, rhs: Self) -> (r: Self) {
        Expression::Product(Box::new(self), Box::new(rhs))
    }
}

impl<F> MulSpecImpl for Expression<F> {
    open spec fn obeys_mul_spec() -> bool {
        true
    }

    open spec fn mul_req(self, rhs: Self) -> bool {
        true
    }

    open spec fn mul_spec(self, rhs: Self) -> Self {
        self * rhs
    }
}

impl<F> Sub for Expression<F> {
    type Output = Self;

    fn sub(self, rhs: Self) -> (r: Self) {
        Expression::Sum(Box::new(self), Box::new(Expression::Negated(Box::new(rhs))))
    }
}

impl<F> SubSpecImpl for Expression<F> {
    open spec fn obeys_sub_spec() -> bool {
        true
    }

    open spec fn sub_req(self, rhs: Self) -> bool {
        true
    }

    open spec fn sub_spec(self, rhs: Self) -> Self {
        self - rhs
    }
}

} // verus!
