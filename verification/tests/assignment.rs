use zkevm_circuits::expression::{Advice, Column, Fixed};
use zkevm_circuits::field::Field;
use zkevm_circuits::pallas::Pallas;
use zkevm_circuits::state_circuit::assignment::{Action, Assignment, Target};
use zkevm_circuits::state_circuit::config::{
    BinaryNumberConfig, LexicographicOrderingConfig, SortKeysConfig, StateConfig,
};
use zkevm_circuits::state_circuit::rw::{Rw, RwTableTag};
use zkevm_circuits::state_circuit::StateCircuit;

fn low(v: Pallas) -> u128 {
    v.to_halves().0
}

fn row(rw_counter: usize, tag: RwTableTag, value: u64, value_prev: Option<u64>) -> Rw<Pallas> {
    Rw {
        rw_counter,
        is_write: false,
        tag,
        id: None,
        address: None,
        field_tag: None,
        storage_key: None,
        value: Pallas::from_u64(value),
        value_prev: value_prev.map(Pallas::from_u64),
    }
}

fn describe(assignment: &Assignment<Pallas>) -> String {
    match assignment {
        Assignment::Selector { offset, value } => format!("{offset} selector {}", low(*value)),
        Assignment::RwCounter { offset, value } => format!("{offset} rw_counter {value}"),
        Assignment::IsWrite { offset, value } => format!("{offset} is_write {}", low(*value)),
        Assignment::Tag { offset, value } => format!("{offset} tag {value:?}"),
        Assignment::Id { offset, value } => format!("{offset} id {value}"),
        Assignment::Address { offset, value } => format!("{offset} address {}", value[19]),
        Assignment::FieldTag { offset, value } => format!("{offset} field_tag {}", low(*value)),
        Assignment::StorageKey { offset, randomness, value } => {
            format!("{offset} storage_key {} {}", low(*randomness), value[0])
        }
        Assignment::Value { offset, value } => format!("{offset} value {}", low(*value)),
        Assignment::InitialValue { offset, value } => {
            format!("{offset} initial_value {}", low(*value))
        }
    }
}

/// Carries the whole assignment out; the ordering reports a first access at the given offsets.
fn run<const N_ROWS: usize>(
    circuit: &StateCircuit<Pallas, N_ROWS>,
    first_access: &[usize],
) -> Vec<String> {
    let mut log = Vec::new();
    let mut progress = StateCircuit::<Pallas, N_ROWS>::start_assignment();
    loop {
        let mut is_first_access = false;
        match circuit.action(progress) {
            Action::Assign(cells) => log.extend(cells.iter().map(describe)),
            Action::Order { offset, row, prev_row } => {
                log.push(format!("{offset} order {} {}", row.rw_counter, prev_row.rw_counter));
                is_first_access = first_access.contains(&offset);
            }
            Action::Done => return log,
        }
        progress = circuit.advance(progress, is_first_access);
    }
}

fn initial_values<const N_ROWS: usize>(
    circuit: &StateCircuit<Pallas, N_ROWS>,
    first_access: &[usize],
) -> Vec<String> {
    run(circuit, first_access).into_iter().filter(|s| s.contains("initial_value")).collect()
}

#[test]
fn each_assignment_has_its_target() {
    let advice = |index: usize| Column { index, kind: Advice };
    let fixed = |index: usize| Column { index, kind: Fixed };
    let config = StateConfig::<Pallas, &'static str, false> {
        selector: fixed(0),
        sort_keys: SortKeysConfig {
            tag: BinaryNumberConfig { bits: [6, 7, 8, 9].map(advice) },
            id: "id",
            address: "address",
            field_tag: advice(3),
            storage_key: "storage_key",
            rw_counter: "rw_counter",
        },
        is_write: advice(2),
        value: advice(4),
        initial_value: advice(5),
        lexicographic_ordering: LexicographicOrderingConfig {
            selector: fixed(1),
            first_different_limb: BinaryNumberConfig { bits: [20, 21, 22, 23, 24].map(advice) },
            chip: "ordering",
        },
        lookups: "lookups",
        power_of_randomness: vec![],
    };
    let target = |assignment: Assignment<Pallas>| match config.target(&assignment) {
        Target::Fixed(column) => format!("fixed {}", column.index),
        Target::Advice(column) => format!("advice {}", column.index),
        Target::BinaryNumber(number) => format!("bits {:?}", number.bits.map(|bit| bit.index)),
        Target::Chip(chip) => format!("chip {chip}"),
    };
    let offset = 1;
    let value = Pallas::one();
    assert_eq!(target(Assignment::Selector { offset, value }), "fixed 0");
    assert_eq!(target(Assignment::RwCounter { offset, value: 1 }), "chip rw_counter");
    assert_eq!(target(Assignment::IsWrite { offset, value }), "advice 2");
    assert_eq!(
        target(Assignment::Tag { offset, value: RwTableTag::Account }),
        "bits [6, 7, 8, 9]"
    );
    assert_eq!(target(Assignment::Id { offset, value: 1 }), "chip id");
    assert_eq!(target(Assignment::Address { offset, value: [0; 20] }), "chip address");
    assert_eq!(target(Assignment::FieldTag { offset, value }), "advice 3");
    assert_eq!(
        target(Assignment::StorageKey { offset, randomness: value, value: [0; 32] }),
        "chip storage_key"
    );
    assert_eq!(target(Assignment::Value { offset, value }), "advice 4");
    assert_eq!(target(Assignment::InitialValue { offset, value }), "advice 5");
}

#[test]
fn padding_comes_first() {
    let circuit = StateCircuit::<Pallas, 3>::new(
        Pallas::from_u64(6),
        vec![row(40, RwTableTag::Account, 77, Some(70))],
    );
    assert_eq!(circuit.row_at(0).rw_counter, 1);
    assert_eq!(circuit.row_at(1).rw_counter, 2);
    assert_eq!(circuit.row_at(2).rw_counter, 40);
    assert_eq!(
        run(&circuit, &[2]),
        vec![
            "0 selector 1",
            "0 rw_counter 1",
            "0 is_write 0",
            "0 tag Start",
            "0 value 0",
            "0 initial_value 0",
            "1 selector 1",
            "1 rw_counter 2",
            "1 is_write 0",
            "1 tag Start",
            "1 value 0",
            "1 order 2 1",
            "1 initial_value 0",
            "2 selector 1",
            "2 rw_counter 40",
            "2 is_write 0",
            "2 tag Account",
            "2 value 77",
            "2 order 40 2",
            "2 initial_value 70",
        ]
    );
}

#[test]
fn every_key_of_a_row_is_assigned() {
    let mut address = [0u8; 20];
    address[19] = 12;
    let full = Rw {
        rw_counter: (1 << 32) + 5,
        is_write: true,
        tag: RwTableTag::Other(9),
        id: Some((1 << 33) + 8),
        address: Some(address),
        field_tag: Some(31),
        storage_key: Some([21; 32]),
        value: Pallas::from_u64(100),
        value_prev: None,
    };
    let circuit = StateCircuit::<Pallas, 1>::new(Pallas::from_u64(6), vec![full]);
    assert_eq!(
        run(&circuit, &[]),
        vec![
            "0 selector 1",
            "0 rw_counter 5",
            "0 is_write 1",
            "0 tag Other(9)",
            "0 id 8",
            "0 address 12",
            "0 field_tag 31",
            "0 storage_key 6 21",
            "0 value 100",
            "0 initial_value 0",
        ]
    );
}

#[test]
fn initial_values_of_first_accesses() {
    let circuit = StateCircuit::<Pallas, 8>::new(
        Pallas::zero(),
        vec![
            row(1, RwTableTag::Start, 0, None),
            row(2, RwTableTag::CallContext, 11, Some(50)),
            row(3, RwTableTag::TxReceipt, 12, Some(51)),
            row(4, RwTableTag::Account, 13, Some(52)),
            row(5, RwTableTag::AccountStorage, 14, Some(53)),
            row(6, RwTableTag::Account, 15, None),
            row(7, RwTableTag::Other(1), 16, Some(54)),
            row(8, RwTableTag::Start, 17, Some(55)),
        ],
    );
    assert_eq!(
        initial_values(&circuit, &[1, 2, 3, 4, 5, 6, 7]),
        vec![
            "0 initial_value 0",
            "1 initial_value 0",
            "2 initial_value 0",
            "3 initial_value 52",
            "4 initial_value 53",
            "5 initial_value 0",
            "6 initial_value 0",
            "7 initial_value 0",
        ]
    );
}

#[test]
fn rows_of_other_tags_have_the_initial_value_0() {
    let circuit = StateCircuit::<Pallas, 5>::new(
        Pallas::zero(),
        vec![
            row(1, RwTableTag::AccountStorage, 13, Some(52)),
            row(2, RwTableTag::CallContext, 11, Some(50)),
            row(3, RwTableTag::CallContext, 12, Some(51)),
            row(4, RwTableTag::TxReceipt, 14, Some(53)),
            row(5, RwTableTag::TxReceipt, 15, Some(54)),
        ],
    );
    // Only the rows whose tag is new are first accesses.
    assert_eq!(
        initial_values(&circuit, &[1, 3]),
        vec![
            "0 initial_value 52",
            "1 initial_value 0",
            "2 initial_value 0",
            "3 initial_value 0",
            "4 initial_value 0",
        ]
    );
}

#[test]
fn the_first_row_has_its_own_initial_value() {
    for (tag, value_prev, expected) in [
        (RwTableTag::Account, Some(70), 70),
        (RwTableTag::AccountStorage, Some(71), 71),
        (RwTableTag::Account, None, 0),
        (RwTableTag::CallContext, Some(72), 0),
        (RwTableTag::Start, None, 0),
    ] {
        let circuit =
            StateCircuit::<Pallas, 1>::new(Pallas::zero(), vec![row(1, tag, 5, value_prev)]);
        assert_eq!(initial_values(&circuit, &[]), vec![format!("0 initial_value {expected}")]);
    }
}

#[test]
fn the_initial_value_is_kept_up_to_the_next_first_access() {
    let circuit = StateCircuit::<Pallas, 5>::new(
        Pallas::zero(),
        (0..5).map(|i| row(i, RwTableTag::Account, 10 + i as u64, Some(20 + i as u64))).collect(),
    );
    assert_eq!(
        initial_values(&circuit, &[2, 4]),
        vec![
            "0 initial_value 20",
            "1 initial_value 20",
            "2 initial_value 22",
            "3 initial_value 22",
            "4 initial_value 24",
        ]
    );
}

#[test]
fn every_row_is_selected() {
    let circuit = StateCircuit::<Pallas, 7>::new(
        Pallas::zero(),
        vec![row(3, RwTableTag::CallContext, 1, None)],
    );
    let log = run(&circuit, &[]);
    for offset in 0..7 {
        assert_eq!(log.iter().filter(|s| **s == format!("{offset} selector 1")).count(), 1);
    }
}

#[test]
fn a_circuit_without_rows_has_nothing_to_assign() {
    let circuit = StateCircuit::<Pallas, 0>::default();
    assert!(run(&circuit, &[]).is_empty());
}
