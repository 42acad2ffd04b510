use halo2_proofs::arithmetic::FieldExt;
use halo2_proofs::pasta::group::ff::PrimeField;
use halo2_proofs::pasta::Fp;
use zkevm_circuits::field::Field;
use zkevm_circuits::pallas::Pallas;

/// The order of the field is `2^254` plus this.
const ORDER_LOW: u128 = 0x224698fc094cf91b992d30ed00000001;

fn halves(v: Fp) -> (u128, u128) {
    let bytes = v.to_repr();
    (
        u128::from_le_bytes(bytes[..16].try_into().unwrap()),
        u128::from_le_bytes(bytes[16..].try_into().unwrap()),
    )
}

#[test]
fn identities() {
    assert_eq!(Pallas::zero().to_halves(), (0, 0));
    assert_eq!(Pallas::one().to_halves(), (1, 0));
}

#[test]
fn integers_are_their_own_residues() {
    assert_eq!(Pallas::from_u64(0).to_halves(), (0, 0));
    assert_eq!(Pallas::from_u64(16).to_halves(), (16, 0));
    assert_eq!(Pallas::from_u64(u64::MAX).to_halves(), (u64::MAX as u128, 0));
    assert_eq!(Pallas::from_u128(u128::MAX).to_halves(), (u128::MAX, 0));
    assert_eq!(Pallas::from_u128(1 << 100).to_halves(), (1 << 100, 0));
}

#[test]
fn powers_in_the_field() {
    assert_eq!(Pallas::from_u64(3).pow(4).to_halves(), (81, 0));
    assert_eq!(Pallas::from_u64(7).pow(0).to_halves(), (1, 0));
    assert_eq!(Pallas::from_u64(0).pow(5).to_halves(), (0, 0));
    assert_eq!(Pallas::from_u64(2).pow(127).to_halves(), (1 << 127, 0));
    assert_eq!(Pallas::from_u64(2).pow(128).to_halves(), (0, 1));
}

#[test]
fn powers_beyond_the_order_wrap_around() {
    assert_eq!(Pallas::from_u64(2).pow(254).to_halves(), (0, 1 << 126));
    assert_eq!(
        Pallas::from_u64(2).pow(255).to_halves(),
        (0u128.wrapping_sub(ORDER_LOW), (1 << 126) - 1)
    );
}

#[test]
fn powers_of_powers() {
    let x = Pallas::from_u128(0x0123456789abcdef0123456789abcdef).pow(3);
    let y = Fp::from_u128(0x0123456789abcdef0123456789abcdef);
    assert_eq!(x.to_halves(), halves(y * y * y));
    assert_eq!(x.pow(2).to_halves(), halves(y * y * y * y * y * y));
}
