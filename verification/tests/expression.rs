use zkevm_circuits::constraint_system::{Constraint, ConstraintSystem, VirtualCells};
use zkevm_circuits::expression::{Advice, AnyColumn, Cell, Column, Expression, Fixed, Rotation};
use zkevm_circuits::field::Field;
use zkevm_circuits::pallas::Pallas;
use zkevm_circuits::rlc::compute_rlc;

fn advice(index: usize) -> Column<Advice> {
    Column { index, kind: Advice }
}

fn fixed(index: usize) -> Column<Fixed> {
    Column { index, kind: Fixed }
}

fn constant(v: u64) -> Expression<Pallas> {
    Expression::Constant(Pallas::from_u64(v))
}

/// Column kind, index and rotation of a cell.
fn place(cell: &Cell) -> (char, usize, i32) {
    match cell.column {
        AnyColumn::Fixed(c) => ('f', c.index, cell.rotation.0),
        AnyColumn::Advice(c) => ('a', c.index, cell.rotation.0),
    }
}

fn eval(e: &Expression<Pallas>, cells: &dyn Fn((char, usize, i32)) -> i128) -> i128 {
    match e {
        Expression::Constant(c) => c.to_halves().0 as i128,
        Expression::Cell(cell) => cells(place(cell)),
        Expression::Negated(a) => -eval(a, cells),
        Expression::Sum(a, b) => eval(a, cells) + eval(b, cells),
        Expression::Product(a, b) => eval(a, cells) * eval(b, cells),
    }
}

#[test]
fn rotations() {
    assert_eq!(Rotation::cur().0, 0);
    assert_eq!(Rotation::prev().0, -1);
}

#[test]
fn queries_are_logged_in_order() {
    let mut meta = VirtualCells::new();
    let a: Expression<Pallas> = meta.query_advice(advice(7), Rotation::prev());
    let b: Expression<Pallas> = meta.query_fixed(fixed(2), Rotation::cur());
    meta.record(vec![Cell { column: AnyColumn::Advice(advice(1)), rotation: Rotation(4) }]);
    let c: Expression<Pallas> = meta.query_advice(advice(7), Rotation::prev());
    let places: Vec<_> = meta.queried.iter().map(place).collect();
    assert_eq!(places, vec![('a', 7, -1), ('f', 2, 0), ('a', 1, 4), ('a', 7, -1)]);
    for (e, expected) in [(a, ('a', 7, -1)), (b, ('f', 2, 0)), (c, ('a', 7, -1))] {
        match e {
            Expression::Cell(cell) => assert_eq!(place(&cell), expected),
            _ => panic!("not a cell"),
        }
    }
}

#[test]
fn operators_build_polynomials() {
    let x: Expression<Pallas> =
        Expression::Cell(Cell { column: AnyColumn::Advice(advice(0)), rotation: Rotation(0) });
    let e = (x.clone() + constant(5)) * (x.clone() - constant(3)) - constant(2) * x;
    assert_eq!(eval(&e, &|_| 10), 15 * 7 - 20);
    assert_eq!(eval(&e, &|_| 0), -15);
}

#[test]
fn clones_are_the_same_polynomial() {
    let x: Expression<Pallas> =
        Expression::Cell(Cell { column: AnyColumn::Fixed(fixed(3)), rotation: Rotation(-1) });
    let e = constant(4) - x.clone() * (x + constant(1));
    assert_eq!(format!("{:?}", e.clone()), format!("{:?}", e));
}

#[test]
fn random_linear_combination() {
    let mut meta = VirtualCells::new();
    let r_table: Vec<Expression<Pallas>> = [10, 100, 1000, 10000].map(constant).into();
    let advices = vec![advice(0), advice(1), advice(2)];
    let rlc = compute_rlc(&mut meta, &advices, 1, &constant(3), -1, &r_table);
    let cells = |(_, index, _): (char, usize, i32)| [7, 5, 2][index];
    assert_eq!(eval(&rlc, &cells), 3 * (7 * 100 + 5 * 1000 + 2 * 10000));
    let places: Vec<_> = meta.queried.iter().map(place).collect();
    assert_eq!(places, vec![('a', 0, -1), ('a', 1, -1), ('a', 2, -1)]);
}

#[test]
fn random_linear_combination_of_nothing() {
    let mut meta = VirtualCells::new();
    let rlc = compute_rlc::<Pallas>(&mut meta, &vec![], 0, &constant(3), -1, &vec![]);
    assert_eq!(eval(&rlc, &|_| 1), 0);
    assert!(meta.queried.is_empty());
}

#[test]
fn gates_are_kept_in_order() {
    let mut meta = ConstraintSystem::<Pallas>::new();
    assert!(meta.gates.is_empty());
    for name in ["one", "two"] {
        let mut cells = VirtualCells::new();
        let poly = cells.query_advice(advice(3), Rotation::cur());
        meta.create_gate(name, cells, vec![Constraint { name: "zero", poly }]);
    }
    assert_eq!(meta.gates.iter().map(|g| g.name).collect::<Vec<_>>(), vec!["one", "two"]);
    assert_eq!(meta.gates[1].queried_cells.len(), 1);
    assert_eq!(meta.gates[1].constraints[0].name, "zero");
}
