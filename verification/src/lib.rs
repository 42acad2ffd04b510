//! Verified building blocks of a zero-knowledge EVM: the polynomial constraints of the
//! extension-node key chip and of the read/write state circuit.
pub mod congruence;
pub mod constraint_system;
pub mod expression;
pub mod extension_node_key;
pub mod extension_node_key_laws;
pub mod field;
pub mod pallas;
pub mod rlc;
pub mod state_circuit;
