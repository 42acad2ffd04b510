use std::collections::HashMap;
use zkevm_circuits::constraint_system::ConstraintSystem;
use zkevm_circuits::expression::{Advice, AnyColumn, Cell, Column, Expression, Fixed};
use zkevm_circuits::extension_node_key::{
    ExtensionNodeKeyChip, ExtensionNodeKeyConfig, FlagPositions,
};
use zkevm_circuits::field::Field;
use zkevm_circuits::pallas::Pallas;

const Q_NOT_FIRST: usize = 0;
const NOT_FIRST_LEVEL: usize = 1;

const IS_BRANCH_INIT: usize = 100;
const IS_BRANCH_CHILD: usize = 101;
const IS_LAST_BRANCH_CHILD: usize = 102;
const IS_ACCOUNT_LEAF_STORAGE_CODEHASH_C: usize = 103;
const S_RLP2: usize = 104;
const MODIFIED_NODE: usize = 105;
const SEL1: usize = 106;
const SEL2: usize = 107;
const KEY_RLC: usize = 108;
const KEY_RLC_MULT: usize = 109;

/// The columns of the flags, among the eight `s_advices` with the indices `0..8`.
const IS_EXTENSION_NODE: usize = 2;
const IS_EVEN: usize = 3;
const IS_ODD: usize = 4;
const IS_SHORT: usize = 5;
const IS_LONG: usize = 6;

fn advice(index: usize) -> Column<Advice> {
    Column { index, kind: Advice }
}

fn fixed(index: usize) -> Column<Fixed> {
    Column { index, kind: Fixed }
}

/// Column kind, index and rotation of a cell.
fn place(cell: &Cell) -> (char, usize, i32) {
    match cell.column {
        AnyColumn::Fixed(c) => ('f', c.index, cell.rotation.0),
        AnyColumn::Advice(c) => ('a', c.index, cell.rotation.0),
    }
}

/// The values of cells by place; a cell that is not listed holds 0.
type Cells = HashMap<(char, usize, i32), i128>;

fn eval(e: &Expression<Pallas>, cells: &Cells) -> i128 {
    match e {
        Expression::Constant(c) => c.to_halves().0 as i128,
        Expression::Cell(cell) => *cells.get(&place(cell)).unwrap_or(&0),
        Expression::Negated(a) => -eval(a, cells),
        Expression::Sum(a, b) => eval(a, cells) + eval(b, cells),
        Expression::Product(a, b) => eval(a, cells) * eval(b, cells),
    }
}

/// The constraint system with the chip configured over eight `s_advices`, with the coefficients
/// 10, 100 and so on.
fn configured() -> ConstraintSystem<Pallas> {
    let mut meta = ConstraintSystem::new();
    let positions = FlagPositions {
        layout_offset: 4,
        is_extension_node_pos: 4 + IS_EXTENSION_NODE,
        is_extension_even_key_len_pos: 4 + IS_EVEN,
        is_extension_odd_key_len_pos: 4 + IS_ODD,
        is_extension_key_short_pos: 4 + IS_SHORT,
        is_extension_key_long_pos: 4 + IS_LONG,
    };
    let r_table = (1..8)
        .map(|i| Expression::Constant(Pallas::from_u64(10u64.pow(i))))
        .collect();
    ExtensionNodeKeyChip::configure(
        &mut meta,
        positions,
        fixed(Q_NOT_FIRST),
        fixed(NOT_FIRST_LEVEL),
        advice(IS_BRANCH_INIT),
        advice(IS_BRANCH_CHILD),
        advice(IS_LAST_BRANCH_CHILD),
        advice(IS_ACCOUNT_LEAF_STORAGE_CODEHASH_C),
        advice(S_RLP2),
        [0, 1, 2, 3, 4, 5, 6, 7].map(advice),
        advice(MODIFIED_NODE),
        advice(SEL1),
        advice(SEL2),
        advice(KEY_RLC),
        advice(KEY_RLC_MULT),
        r_table,
    );
    meta
}

fn poly(meta: &ConstraintSystem<Pallas>, name: &str, cells: &Cells) -> i128 {
    let constraints = &meta.gates[0].constraints;
    let found: Vec<_> = constraints.iter().filter(|c| c.name == name).collect();
    assert_eq!(found.len(), 1);
    eval(&found[0].poly, cells)
}

/// The constraints that do not vanish.
fn failing(meta: &ConstraintSystem<Pallas>, cells: &Cells) -> Vec<&'static str> {
    let constraints = &meta.gates[0].constraints;
    constraints.iter().filter(|c| eval(&c.poly, cells) != 0).map(|c| c.name).collect()
}

#[test]
fn the_gate_and_its_constraints() {
    let meta = configured();
    assert_eq!(meta.gates.len(), 1);
    assert_eq!(meta.gates[0].name, "extension node key");
    let names: Vec<_> = meta.gates[0].constraints.iter().map(|c| c.name).collect();
    assert_eq!(
        names,
        vec![
            "branch key RLC same over all branch children with index > 0",
            "branch key RLC MULT same over all branch children with index > 0",
            "extension node row S key RLC is the same as branch key RLC when NOT extension node",
            "extension node row S key RLC mult is the same as branch key RLC when NOT extension node",
            "extension node row C key RLC is the same as branch key RLC when NOT extension node",
            "extension node row C key RLC mult is the same as branch key RLC when NOT extension node",
            "account first level long even",
            "storage first level long even",
            "long even sel1 extension",
            "long even sel1 branch",
        ]
    );
}

#[test]
fn the_queried_cells() {
    let meta = configured();
    let places: Vec<_> = meta.gates[0].queried_cells.iter().map(place).collect();
    let mut expected = vec![
        ('f', Q_NOT_FIRST, 0),
        ('f', NOT_FIRST_LEVEL, 0),
        ('a', IS_EXTENSION_NODE, -18),
        ('a', IS_EXTENSION_NODE, -17),
        ('a', IS_EVEN, -18),
        ('a', IS_ODD, -18),
        ('a', IS_SHORT, -18),
        ('a', IS_LONG, -18),
        ('a', SEL1, -18),
        ('a', SEL2, -18),
        ('a', IS_ACCOUNT_LEAF_STORAGE_CODEHASH_C, -19),
        ('a', IS_BRANCH_INIT, -1),
        ('a', IS_BRANCH_CHILD, -1),
        ('a', IS_BRANCH_CHILD, 0),
        ('a', MODIFIED_NODE, -2),
        ('a', IS_LAST_BRANCH_CHILD, -1),
        ('a', IS_LAST_BRANCH_CHILD, -2),
        ('a', KEY_RLC, -1),
        ('a', KEY_RLC, -21),
        ('a', KEY_RLC, 0),
        ('a', KEY_RLC_MULT, -1),
        ('a', KEY_RLC_MULT, -21),
        ('a', KEY_RLC_MULT, 0),
        ('a', KEY_RLC, -17),
        ('a', KEY_RLC_MULT, -17),
        ('a', 1, -1),
    ];
    expected.extend((1..8).map(|i| ('a', i, -1)));
    expected.extend((2..8).map(|i| ('a', i, -1)));
    assert_eq!(places, expected);
}

#[test]
fn constraints_read_only_queried_cells() {
    fn check(e: &Expression<Pallas>, places: &[(char, usize, i32)]) {
        match e {
            Expression::Constant(_) => {}
            Expression::Cell(cell) => assert!(places.contains(&place(cell))),
            Expression::Negated(a) => check(a, places),
            Expression::Sum(a, b) | Expression::Product(a, b) => {
                check(a, places);
                check(b, places);
            }
        }
    }
    let meta = configured();
    let places: Vec<_> = meta.gates[0].queried_cells.iter().map(place).collect();
    for constraint in &meta.gates[0].constraints {
        check(&constraint.poly, &places);
    }
}

#[test]
fn branch_children_share_their_key_rlc() {
    let meta = configured();
    let mut cells: Cells = HashMap::from([
        (('f', Q_NOT_FIRST, 0), 1),
        (('a', IS_BRANCH_CHILD, -1), 1),
        (('a', IS_BRANCH_CHILD, 0), 1),
        (('a', KEY_RLC, 0), 5),
        (('a', KEY_RLC, -1), 5),
        (('a', KEY_RLC_MULT, 0), 8),
        (('a', KEY_RLC_MULT, -1), 8),
    ]);
    assert!(failing(&meta, &cells).is_empty());
    cells.insert(('a', KEY_RLC, 0), 7);
    cells.insert(('a', KEY_RLC_MULT, 0), 11);
    assert_eq!(
        poly(&meta, "branch key RLC same over all branch children with index > 0", &cells),
        2
    );
    assert_eq!(
        poly(&meta, "branch key RLC MULT same over all branch children with index > 0", &cells),
        3
    );
    // The first child is free.
    cells.insert(('a', IS_BRANCH_CHILD, -1), 0);
    assert!(failing(&meta, &cells).is_empty());
}

/// The S row, or the C row, of a branch whose key RLC is 4 and whose multiplier is 3; the row
/// itself has 9 and 2.
fn row_after_branch(is_s_row: bool) -> Cells {
    let mut cells: Cells = HashMap::from([
        (('f', Q_NOT_FIRST, 0), 1),
        (('a', KEY_RLC, 0), 9),
        (('a', KEY_RLC, -1), 4),
        (('a', KEY_RLC_MULT, 0), 2),
        (('a', KEY_RLC_MULT, -1), 3),
    ]);
    if is_s_row {
        cells.insert(('a', IS_LAST_BRANCH_CHILD, -1), 1);
        cells.insert(('a', IS_BRANCH_CHILD, -1), 1);
        cells.insert(('a', IS_BRANCH_CHILD, -2), 1);
    } else {
        cells.insert(('a', IS_LAST_BRANCH_CHILD, -2), 1);
        cells.insert(('a', IS_BRANCH_CHILD, -2), 1);
    }
    cells
}

#[test]
fn rows_without_extension_node_keep_the_key_rlc() {
    let meta = configured();
    for (is_s_row, row, into_init) in [(true, "S", -17), (false, "C", -18)] {
        let mut cells = row_after_branch(is_s_row);
        let key = format!(
            "extension node row {row} key RLC is the same as branch key RLC when NOT extension node"
        );
        let mult = format!(
            "extension node row {row} key RLC mult is the same as branch key RLC when NOT extension node"
        );
        assert_eq!(failing(&meta, &cells), vec![key.as_str(), mult.as_str()]);
        assert_eq!(poly(&meta, &key, &cells), 5);
        assert_eq!(poly(&meta, &mult, &cells), -1);

        let mut kept = cells.clone();
        kept.insert(('a', KEY_RLC, 0), 4);
        assert_eq!(failing(&meta, &kept), vec![mult.as_str()]);
        kept.insert(('a', KEY_RLC_MULT, 0), 3);
        assert!(failing(&meta, &kept).is_empty());

        cells.insert(('a', IS_EXTENSION_NODE, into_init), 1);
        assert!(failing(&meta, &cells).is_empty());
    }
}

#[test]
fn rows_after_branch_rows_are_not_constrained() {
    let meta = configured();
    let mut cells = row_after_branch(false);
    cells.insert(('a', IS_LAST_BRANCH_CHILD, -1), 1);
    cells.insert(('a', IS_BRANCH_INIT, -1), 1);
    assert!(failing(&meta, &cells).is_empty());

    let mut cells = row_after_branch(false);
    cells.insert(('a', IS_BRANCH_CHILD, -1), 1);
    assert!(failing(&meta, &cells).is_empty());

    // After a branch child that is not the last, row S is not asked about.
    let mut cells = row_after_branch(true);
    cells.insert(('a', IS_LAST_BRANCH_CHILD, -1), 0);
    assert!(failing(&meta, &cells).is_empty());
}

#[test]
fn unread_cells_are_of_no_account() {
    let meta = configured();
    for mut cells in [row_after_branch(true), row_after_branch(false), long_even_c_row()] {
        let before: Vec<_> =
            meta.gates[0].constraints.iter().map(|c| eval(&c.poly, &cells)).collect();
        for rotation in -21..=0 {
            cells.insert(('a', S_RLP2, rotation), 7);
            cells.insert(('a', SEL2, rotation), 8);
        }
        cells.insert(('a', IS_ODD, -18), 9);
        cells.insert(('a', IS_SHORT, -18), 10);
        let after: Vec<_> =
            meta.gates[0].constraints.iter().map(|c| eval(&c.poly, &cells)).collect();
        assert_eq!(before, after);
    }
}

/// The C row of an extension node with a long even key; the key bytes after the first are
/// 3, 0, 0, 0, 0, 0, 2, and the modified node is the fifth.
fn long_even_c_row() -> Cells {
    HashMap::from([
        (('f', Q_NOT_FIRST, 0), 1),
        (('a', IS_EXTENSION_NODE, -18), 1),
        (('a', IS_EVEN, -18), 1),
        (('a', IS_LONG, -18), 1),
        (('a', IS_LAST_BRANCH_CHILD, -2), 1),
        (('a', 1, -1), 3),
        (('a', 7, -1), 2),
        (('a', MODIFIED_NODE, -2), 5),
    ])
}

#[test]
fn key_rlc_on_the_first_level() {
    let meta = configured();
    // 3 + (3 * 10 + 2 * 10^7) + 5 * 16
    let expected = 20_000_113;
    let mut cells = long_even_c_row();
    assert_eq!(failing(&meta, &cells), vec!["account first level long even"]);
    assert_eq!(poly(&meta, "account first level long even", &cells), expected);
    cells.insert(('a', KEY_RLC, 0), expected);
    assert!(failing(&meta, &cells).is_empty());

    cells.insert(('f', NOT_FIRST_LEVEL, 0), 1);
    cells.insert(('a', IS_ACCOUNT_LEAF_STORAGE_CODEHASH_C, -19), 1);
    assert!(failing(&meta, &cells).is_empty());
    cells.insert(('a', KEY_RLC, 0), expected + 1);
    assert_eq!(failing(&meta, &cells), vec!["storage first level long even"]);
    assert_eq!(poly(&meta, "storage first level long even", &cells), -1);
}

#[test]
fn key_rlc_on_a_later_level() {
    let meta = configured();
    let mut cells = long_even_c_row();
    cells.insert(('f', NOT_FIRST_LEVEL, 0), 1);
    cells.insert(('a', KEY_RLC, -21), 1000);
    cells.insert(('a', KEY_RLC_MULT, -21), 7);
    cells.insert(('a', KEY_RLC_MULT, -17), 9);
    // Nothing is asked for a second nibble.
    assert!(failing(&meta, &cells).is_empty());
    cells.insert(('a', SEL1, -18), 1);
    // 1000 + 3 * 7 + (2 * 10^6) * 7
    let extension = 14_001_021;
    assert_eq!(poly(&meta, "long even sel1 extension", &cells), -extension);
    assert_eq!(poly(&meta, "long even sel1 branch", &cells), -16 * 5 * 9);
    cells.insert(('a', KEY_RLC, 0), extension);
    cells.insert(('a', KEY_RLC, -17), extension + 16 * 5 * 9);
    assert!(failing(&meta, &cells).is_empty());
}

#[test]
fn the_chip_keeps_its_configuration() {
    let config = ExtensionNodeKeyConfig {};
    let chip = ExtensionNodeKeyChip::<Pallas>::construct(config.clone());
    assert_eq!(format!("{:?}", chip.config()), format!("{:?}", config));
    assert_eq!(chip.loaded(), &());
}
