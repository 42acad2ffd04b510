//! The rows of the read/write table.
use crate::field::Field;
use vstd::prelude::*;

verus! {

/// The part of the state that a row reads or writes. Tags without a name here go by their number.
#[derive(Clone, Copy, Debug, PartialEq, Eq, Structural)]
pub enum RwTableTag {
    Start,
    Account,
    AccountStorage,
    CallContext,
    TxReceipt,
    Other(u8),
}

/// A row of the read/write table, with its values as they are assigned in the circuit.
#[derive(Debug)]
pub struct Rw<F> {
    pub rw_counter: usize,
    pub is_write: bool,
    pub tag: RwTableTag,
    pub id: Option<usize>,
    pub address: Option<[u8; 20]>,
    pub field_tag: Option<u64>,
    pub storage_key: Option<[u8; 32]>,
    pub value: F,
    pub value_prev: Option<F>,
}

impl<F: Copy> Clone for Rw<F> {
    fn clone(&self) -> (r: Self)
        ensures
            r == *self,
    {
        *self
    }
}

impl<F: Copy> Copy for Rw<F> {

}

impl<F: Field> Rw<F> {
    /// The start row with a given counter, which touches no state.
    pub open spec fn spec_start(rw_counter: usize) -> Self {
        Rw {
            rw_counter,
            is_write: false,
            tag: RwTableTag::Start,
            id: None,
            address: None,
            field_tag: None,
            storage_key: None,
            value: F::element(0),
            value_prev: None,
        }
    }

    /// The start row with a given counter, which touches no state.
    pub fn start(rw_counter: usize) -> (r: Self)
        ensures
            r == Self::spec_start(rw_counter),
    {
        Rw {
            rw_counter,
            is_write: false,
            tag: RwTableTag::Start,
            id: None,
            address: None,
            field_tag: None,
            storage_key: None,
            value: F::zero(),
            value_prev: None,
        }
    }
}

} // verus!
