use zkevm_circuits::constraint_system::{Constraint, VirtualCells};
use zkevm_circuits::expression::{Advice, AnyColumn, Cell, Column, Expression, Fixed, Rotation};
use zkevm_circuits::field::Field;
use zkevm_circuits::pallas::Pallas;
use zkevm_circuits::state_circuit::config::{
    power_of_randomness, BinaryNumberConfig, LexicographicOrderingConfig, SortKeysConfig,
    StateConfig,
};
use zkevm_circuits::state_circuit::queries::{build_gate, queries, query_chips, Queries};

fn advice(index: usize) -> Column<Advice> {
    Column { index, kind: Advice }
}

fn fixed(index: usize) -> Column<Fixed> {
    Column { index, kind: Fixed }
}

/// A chip goes by its name here.
fn config() -> StateConfig<Pallas, &'static str, false> {
    StateConfig {
        selector: fixed(0),
        sort_keys: SortKeysConfig {
            tag: BinaryNumberConfig { bits: [6, 7, 8, 9].map(advice) },
            id: "id",
            address: "address",
            field_tag: advice(3),
            storage_key: "storage_key",
            rw_counter: "rw_counter",
        },
        is_write: advice(2),
        value: advice(4),
        initial_value: advice(5),
        lexicographic_ordering: LexicographicOrderingConfig {
            selector: fixed(1),
            first_different_limb: BinaryNumberConfig { bits: [20, 21, 22, 23, 24].map(advice) },
            chip: "ordering",
        },
        lookups: "lookups",
        power_of_randomness: power_of_randomness(2),
    }
}

fn cell(index: usize) -> Cell {
    Cell { column: AnyColumn::Advice(advice(index)), rotation: Rotation(0) }
}

/// What a chip queries goes by its name in capitals.
fn query(chip: &'static str) -> (String, Vec<Cell>) {
    let index = match chip {
        "rw_counter" => 50,
        "id" => 53,
        "address" => 54,
        "storage_key" => 55,
        "lookups" => 56,
        _ => panic!("no such chip"),
    };
    (chip.to_uppercase(), vec![cell(index)])
}

fn query_tag(tag: BinaryNumberConfig<4>, rotation: Rotation) -> (Expression<Pallas>, Vec<Cell>) {
    assert_eq!(rotation.0, 0);
    assert_eq!(tag.bits.map(|bit| bit.index), [6, 7, 8, 9]);
    (Expression::Cell(cell(51)), vec![cell(51), cell(52)])
}

fn all() -> (Queries<Pallas, String>, VirtualCells) {
    let mut meta = VirtualCells::new();
    let chips = query_chips(&config(), query, query_tag);
    let r = queries(&mut meta, &config(), chips);
    (r, meta)
}

#[test]
fn each_chip_queries_by_its_own_handle() {
    let chips = query_chips(&config(), query, query_tag);
    assert_eq!(chips.rw_counter.chip, "rw_counter");
    assert_eq!(chips.tag.chip.bits.map(|bit| bit.index), [6, 7, 8, 9]);
    assert_eq!(chips.id.chip, "id");
    assert_eq!(chips.address.chip, "address");
    assert_eq!(chips.storage_key.chip, "storage_key");
    assert_eq!(chips.lookups.chip, "lookups");
    assert_eq!(chips.id.queries, "ID");
    assert_eq!(chips.rw_counter.cells.len(), 1);
}

fn place(cell: &Cell) -> (char, usize, i32) {
    match cell.column {
        AnyColumn::Fixed(c) => ('f', c.index, cell.rotation.0),
        AnyColumn::Advice(c) => ('a', c.index, cell.rotation.0),
    }
}

fn read(e: &Expression<Pallas>) -> (char, usize, i32) {
    match e {
        Expression::Cell(cell) => place(cell),
        _ => panic!("not a cell"),
    }
}

/// The value where the bits of the first different limb write `index`.
fn eval(e: &Expression<Pallas>, index: i128) -> i128 {
    match e {
        Expression::Constant(c) => c.to_halves().0 as i128,
        Expression::Cell(cell) => {
            let (_, column, _) = place(cell);
            (index >> (24 - column)) & 1
        }
        Expression::Negated(a) => -eval(a, index),
        Expression::Sum(a, b) => eval(a, index) + eval(b, index),
        Expression::Product(a, b) => eval(a, index) * eval(b, index),
    }
}

#[test]
fn the_gate_step_gets_the_builder_and_the_selector() {
    let (q, _) = all();
    let (builder, constraints) = build_gate(
        &q,
        |q| vec![("is_write", q.is_write.clone()), ("value", q.value.clone())],
        |builder, selector| {
            assert_eq!(read(&selector), ('f', 0, 0));
            let poly = |e: &Expression<Pallas>| selector.clone() * e.clone();
            builder.iter().map(|(name, e)| Constraint { name, poly: poly(e) }).collect()
        },
    );
    assert_eq!(builder.len(), 2);
    let names: Vec<_> = constraints.iter().map(|c| c.name).collect();
    assert_eq!(names, vec!["is_write", "value"]);
    match &constraints[1].poly {
        Expression::Product(a, b) => {
            assert_eq!(read(a), ('f', 0, 0));
            assert_eq!(read(b), ('a', 4, 0));
        }
        _ => panic!("not a product"),
    }
}

#[test]
fn light_queries_are_those_of_the_full_circuit() {
    let c = config();
    let light = StateConfig::<Pallas, &'static str, true> {
        selector: c.selector,
        sort_keys: c.sort_keys,
        is_write: c.is_write,
        value: c.value,
        initial_value: c.initial_value,
        lexicographic_ordering: c.lexicographic_ordering,
        lookups: c.lookups,
        power_of_randomness: c.power_of_randomness,
    };
    let mut meta = VirtualCells::new();
    let chips = query_chips(&light, query, query_tag);
    let q = queries(&mut meta, &light, chips);
    let (full, full_meta) = all();
    assert_eq!(format!("{:?}", q), format!("{:?}", full));
    assert_eq!(format!("{:?}", meta.queried), format!("{:?}", full_meta.queried));
}

#[test]
fn plain_queries() {
    let (q, _) = all();
    assert_eq!(read(&q.selector), ('f', 0, 0));
    assert_eq!(read(&q.lexicographic_ordering_selector), ('f', 1, 0));
    assert_eq!(q.rw_counter, "RW_COUNTER");
    assert_eq!(read(&q.is_write), ('a', 2, 0));
    assert_eq!(read(&q.tag), ('a', 51, 0));
    let bits: Vec<_> = q.tag_bits.iter().map(read).collect();
    assert_eq!(bits, vec![('a', 6, 0), ('a', 7, 0), ('a', 8, 0), ('a', 9, 0)]);
    assert_eq!(q.id, "ID");
    assert_eq!(q.address, "ADDRESS");
    assert_eq!(read(&q.field_tag), ('a', 3, 0));
    assert_eq!(q.storage_key, "STORAGE_KEY");
    assert_eq!(read(&q.value), ('a', 4, 0));
    assert_eq!(read(&q.value_prev), ('a', 4, -1));
    assert_eq!(read(&q.initial_value), ('a', 5, 0));
    assert_eq!(read(&q.initial_value_prev), ('a', 5, -1));
    assert_eq!(q.lookups, "LOOKUPS");
    assert_eq!(q.power_of_randomness.len(), 31);
    assert_eq!(eval(&q.power_of_randomness[9], 0), 1024);
}

#[test]
fn cells_are_queried_in_order() {
    let (_, meta) = all();
    let places: Vec<_> = meta.queried.iter().map(place).collect();
    assert_eq!(
        places,
        vec![
            ('a', 23, 0),
            ('a', 24, 0),
            ('f', 0, 0),
            ('f', 1, 0),
            ('a', 50, 0),
            ('a', 2, 0),
            ('a', 51, 0),
            ('a', 52, 0),
            ('a', 6, 0),
            ('a', 7, 0),
            ('a', 8, 0),
            ('a', 9, 0),
            ('a', 53, 0),
            ('a', 20, 0),
            ('a', 21, 0),
            ('a', 22, 0),
            ('a', 54, 0),
            ('a', 3, 0),
            ('a', 55, 0),
            ('a', 4, 0),
            ('a', 4, -1),
            ('a', 5, 0),
            ('a', 5, -1),
            ('a', 56, 0),
            ('a', 20, 0),
            ('a', 21, 0),
            ('a', 22, 0),
            ('a', 23, 0),
            ('a', 20, 0),
            ('a', 21, 0),
            ('a', 22, 0),
            ('a', 23, 0),
        ]
    );
}

#[test]
fn queries_read_only_queried_cells() {
    fn check(e: &Expression<Pallas>, places: &[(char, usize, i32)]) {
        match e {
            Expression::Constant(_) => {}
            Expression::Cell(cell) => assert!(places.contains(&place(cell))),
            Expression::Negated(a) => check(a, places),
            Expression::Sum(a, b) | Expression::Product(a, b) => {
                check(a, places);
                check(b, places);
            }
        }
    }
    let (q, meta) = all();
    let places: Vec<_> = meta.queried.iter().map(place).collect();
    check(&q.selector, &places);
    check(&q.tag, &places);
    for bit in &q.tag_bits {
        check(bit, &places);
    }
    check(&q.is_tag_and_id_unchanged, &places);
    check(&q.first_access, &places);
    check(&q.not_first_access, &places);
}

#[test]
fn tag_and_id_unchanged_by_limb() {
    let (q, _) = all();
    for index in 0..32 {
        assert_eq!(eval(&q.is_tag_and_id_unchanged, index) == 0, index <= 2);
    }
    assert_eq!(eval(&q.is_tag_and_id_unchanged, 3), -2);
    assert_eq!(eval(&q.is_tag_and_id_unchanged, 4), 4);
    assert_eq!(eval(&q.is_tag_and_id_unchanged, 31), 10);
}

#[test]
fn first_accesses_by_limb() {
    let (q, _) = all();
    for index in 0..32 {
        assert_eq!(eval(&q.first_access, index) == 0, index >= 30);
        assert_eq!(eval(&q.not_first_access, index), if index >= 30 { 1 } else { 0 });
    }
    assert_eq!(eval(&q.first_access, 0), 4);
    assert_eq!(eval(&q.first_access, 29), 1);
    assert_eq!(eval(&q.first_access, 1), 4);
}
