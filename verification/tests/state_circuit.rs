use zkevm_circuits::field::Field;
use zkevm_circuits::pallas::Pallas;
use zkevm_circuits::state_circuit::rw::{Rw, RwTableTag};
use zkevm_circuits::state_circuit::{
    StateCircuit, StateCircuitLight, N_BYTES_WORD, N_LIMBS_ACCOUNT_ADDRESS, N_LIMBS_ID,
    N_LIMBS_RW_COUNTER,
};

fn rows(n: usize) -> Vec<Rw<Pallas>> {
    vec![Rw::start(1); n]
}

fn light_k(n: usize) -> u32 {
    StateCircuitLight::<Pallas, 1>::new(Pallas::zero(), rows(n)).estimate_k()
}

fn full_k(n: usize) -> u32 {
    StateCircuit::<Pallas, 1>::new(Pallas::zero(), rows(n)).estimate_k()
}

#[test]
fn limbs_and_bytes() {
    assert_eq!(N_LIMBS_RW_COUNTER, 2);
    assert_eq!(N_LIMBS_ACCOUNT_ADDRESS, 10);
    assert_eq!(N_LIMBS_ID, 2);
    assert_eq!(N_BYTES_WORD, 32);
}

#[test]
fn new_keeps_randomness_and_rows() {
    let mut row = Rw::start(9);
    row.tag = RwTableTag::TxReceipt;
    let circuit = StateCircuit::<Pallas, 4>::new(Pallas::from_u64(5), vec![row, Rw::start(2)]);
    assert_eq!(circuit.randomness.to_halves(), (5, 0));
    assert_eq!(circuit.rows.len(), 2);
    assert_eq!(circuit.rows[0].rw_counter, 9);
    assert_eq!(circuit.rows[0].tag, RwTableTag::TxReceipt);
    assert_eq!(circuit.rows[1].rw_counter, 2);
}

#[test]
fn k_has_a_minimum() {
    assert_eq!(light_k(0), 12);
    assert_eq!(full_k(0), 18);
    assert_eq!(full_k(5000), 18);
}

#[test]
fn k_is_the_least_with_enough_rows() {
    assert_eq!(light_k((1 << 12) - 64), 12);
    assert_eq!(light_k((1 << 12) - 63), 13);
    assert_eq!(light_k((1 << 13) - 64), 13);
    assert_eq!(light_k((1 << 13) - 63), 14);
    assert_eq!(full_k((1 << 18) - 64), 18);
    assert_eq!(full_k((1 << 18) - 63), 19);
}

#[test]
fn there_is_no_instance_column() {
    let circuit = StateCircuit::<Pallas, 4>::new(Pallas::from_u64(5), rows(2));
    assert!(circuit.instance().is_empty());
}

#[test]
fn without_witnesses_nothing_is_left() {
    let circuit = StateCircuit::<Pallas, 4>::new(Pallas::from_u64(5), rows(2));
    let bare = circuit.without_witnesses();
    assert_eq!(bare.randomness.to_halves(), (0, 0));
    assert!(bare.rows.is_empty());
    let default = StateCircuit::<Pallas, 4>::default();
    assert_eq!(default.randomness.to_halves(), (0, 0));
    assert!(default.rows.is_empty());
}

#[test]
fn start_rows_touch_no_state() {
    let row = Rw::<Pallas>::start(17);
    assert_eq!(row.rw_counter, 17);
    assert!(!row.is_write);
    assert_eq!(row.tag, RwTableTag::Start);
    assert!(row.id.is_none() && row.address.is_none());
    assert!(row.field_tag.is_none() && row.storage_key.is_none());
    assert_eq!(row.value.to_halves(), (0, 0));
    assert!(row.value_prev.is_none());
}
