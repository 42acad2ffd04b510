//! What the rows of the state circuit and their assignment are for: laws over the arguments and the
//! results of the operations.
use crate::field::Field;
use crate::state_circuit::assignment::{Action, Assignment, Progress, Stage};
use crate::state_circuit::rw::{Rw, RwTableTag};
use crate::state_circuit::StateCircuitBase;
use vstd::arithmetic::div_mod::lemma_small_mod;
use vstd::arithmetic::power2::pow2;
use vstd::prelude::*;

verus! {

/// A start row with the counter `rw_counter`: it reads, touches no part of the state, and has the
/// value 0.
pub open spec fn is_start_row<F: Field>(row: Rw<F>, rw_counter: int) -> bool {
    &&& row.rw_counter == rw_counter
    &&& !row.is_write
    &&& row.tag == RwTableTag::Start
    &&& row.id is None
    &&& row.address is None
    &&& row.field_tag is None
    &&& row.storage_key is None
    &&& row.value == F::element(0)
    &&& row.value_prev is None
}

/// The table is padded in front: the rows of the circuit are its last rows, in their order, and the
/// rows before them are start rows, which count from one.
pub proof fn law_padded_table<F: Field, const QUICK_CHECK: bool, const N_ROWS: usize>(
    circuit: StateCircuitBase<F, QUICK_CHECK, N_ROWS>,
    offset: usize,
    row: Rw<F>,
)
    requires
        circuit.rows@.len() <= N_ROWS,
        offset < N_ROWS,
        call_ensures(
            StateCircuitBase::<F, QUICK_CHECK, N_ROWS>::row_at,
            (&circuit, offset),
            row,
        ),
    ensures
        forall|i: int|
            0 <= i < circuit.rows@.len() && offset == N_ROWS - circuit.rows@.len() + i ==> row
                == #[trigger] circuit.rows@[i],
        offset < N_ROWS - circuit.rows@.len() ==> is_start_row(row, offset + 1),
{
}

/// A start row has the counter that it is asked for, and nothing else.
pub proof fn law_start_row<F: Field>(rw_counter: usize, row: Rw<F>)
    requires
        call_ensures(Rw::<F>::start, (rw_counter,), row),
    ensures
        is_start_row(row, rw_counter as int),
        row.value.residue() == 0,
{
    F::lemma_element(0);
    lemma_small_mod(0, F::order());
}

/// Something is there, counted.
pub open spec fn count<T>(value: Option<T>) -> int {
    if value is Some {
        1
    } else {
        0
    }
}

/// The cells of a row are those of its fields: the selector is 1, the counter and the id are cut to
/// 32 bits, and every other column holds the field of the row, whatever the rest of the row is. The
/// fields that the row has are assigned once each, and no others.
pub proof fn law_cells_of_a_row<F: Field, const QUICK_CHECK: bool, const N_ROWS: usize>(
    circuit: StateCircuitBase<F, QUICK_CHECK, N_ROWS>,
    progress: Progress<F>,
    action: Action<F>,
    row: Rw<F>,
)
    requires
        circuit.rows@.len() <= N_ROWS,
        progress.offset < N_ROWS,
        progress.stage == Stage::Cells,
        call_ensures(
            StateCircuitBase::<F, QUICK_CHECK, N_ROWS>::action,
            (&circuit, progress),
            action,
        ),
        call_ensures(
            StateCircuitBase::<F, QUICK_CHECK, N_ROWS>::row_at,
            (&circuit, progress.offset),
            row,
        ),
    ensures
        action is Assign,
        ({
            let cells = action->Assign_0@;
            let offset = progress.offset;
            let address = 4 + count(row.id);
            let field_tag = address + count(row.address);
            let storage_key = field_tag + count(row.field_tag);
            let value = storage_key + count(row.storage_key);
            &&& cells.len() == value + 1
            &&& cells[0] == (Assignment::Selector { offset, value: F::element(1) })
            &&& cells[1] matches Assignment::RwCounter { offset: o, value: v } && o == offset && v
                == row.rw_counter as int % 0x1_0000_0000
            &&& cells[2] matches Assignment::IsWrite { offset: o, value: v } && o == offset && v
                == F::element(
                if row.is_write {
                    1
                } else {
                    0
                },
            )
            &&& cells[3] == (Assignment::<F>::Tag { offset, value: row.tag })
            &&& row.id matches Some(id) ==> cells[4] matches Assignment::Id { offset: o, value: v }
                && o == offset && v == id as int % 0x1_0000_0000
            &&& row.address matches Some(a) ==> cells[address] == (Assignment::<F>::Address {
                offset,
                value: a,
            })
            &&& row.field_tag matches Some(tag) ==> cells[field_tag] == (Assignment::FieldTag {
                offset,
                value: F::element(tag as nat),
            })
            &&& row.storage_key matches Some(key) ==> cells[storage_key]
                == (Assignment::StorageKey {
                offset,
                randomness: circuit.randomness,
                value: key,
            })
            &&& cells[value] == (Assignment::Value { offset, value: row.value })
        }),
{
}

/// Each column is assigned at most once on a row, and its value column exactly once.
pub proof fn law_cells_are_assigned_once<F: Field, const QUICK_CHECK: bool, const N_ROWS: usize>(
    circuit: StateCircuitBase<F, QUICK_CHECK, N_ROWS>,
    progress: Progress<F>,
    action: Action<F>,
    row: Rw<F>,
    j: int,
)
    requires
        circuit.rows@.len() <= N_ROWS,
        progress.offset < N_ROWS,
        progress.stage == Stage::Cells,
        call_ensures(
            StateCircuitBase::<F, QUICK_CHECK, N_ROWS>::action,
            (&circuit, progress),
            action,
        ),
        call_ensures(
            StateCircuitBase::<F, QUICK_CHECK, N_ROWS>::row_at,
            (&circuit, progress.offset),
            row,
        ),
        0 <= j < action->Assign_0@.len(),
    ensures
        ({
            let cells = action->Assign_0@;
            match cells[j] {
                Assignment::Selector { .. } => j == 0,
                Assignment::RwCounter { .. } => j == 1,
                Assignment::IsWrite { .. } => j == 2,
                Assignment::Tag { .. } => j == 3,
                Assignment::Id { .. } => row.id is Some && j == 4,
                Assignment::Address { value, .. } => row.address == Some(value) && j == 4 + count(
                    row.id,
                ),
                Assignment::FieldTag { value, .. } => {
                    &&& row.field_tag is Some
                    &&& j == 4 + count(row.id) + count(row.address)
                },
                Assignment::StorageKey { value, .. } => {
                    &&& row.storage_key == Some(value)
                    &&& j == cells.len() - 2
                },
                Assignment::Value { value, .. } => value == row.value && j == cells.len() - 1,
                Assignment::InitialValue { .. } => false,
            }
        }),
        action->Assign_0@.last() is Value,
{
    law_cells_of_a_row(circuit, progress, action, row);
}

/// The initial value that is assigned on a row: on the first row, and where the ordering reports a
/// first access, an account or its storage has the value before the row, whatever the row writes,
/// and any other row has 0; on the other rows the initial value in force is kept.
pub proof fn law_initial_value_of_a_row<
    F: Field,
    const QUICK_CHECK: bool,
    const N_ROWS: usize,
>(
    circuit: StateCircuitBase<F, QUICK_CHECK, N_ROWS>,
    progress: Progress<F>,
    first_access: bool,
    next: Progress<F>,
    action: Action<F>,
    row: Rw<F>,
)
    requires
        circuit.rows@.len() <= N_ROWS,
        progress.offset < N_ROWS,
        if progress.offset == 0 {
            progress.stage == Stage::Cells
        } else {
            progress.stage == Stage::Order
        },
        call_ensures(
            StateCircuitBase::<F, QUICK_CHECK, N_ROWS>::advance,
            (&circuit, progress, first_access),
            next,
        ),
        call_ensures(
            StateCircuitBase::<F, QUICK_CHECK, N_ROWS>::action,
            (&circuit, next),
            action,
        ),
        call_ensures(
            StateCircuitBase::<F, QUICK_CHECK, N_ROWS>::row_at,
            (&circuit, progress.offset),
            row,
        ),
    ensures
        action is Assign,
        action->Assign_0@.len() == 1,
        action->Assign_0@[0] matches Assignment::InitialValue { offset, value } && {
            &&& offset == progress.offset
            &&& brings_initial_value(
                row,
                progress.offset == 0 || first_access,
                progress.initial_value,
                value,
            )
        },
{
}

/// `value` is the initial value of `row`, with `before` in force on the row before.
pub open spec fn brings_initial_value<F: Field>(
    row: Rw<F>,
    first_access: bool,
    before: F,
    value: F,
) -> bool {
    &&& !first_access ==> value == before
    &&& first_access && (row.tag == RwTableTag::Account || row.tag == RwTableTag::AccountStorage)
        ==> {
        &&& row.value_prev matches Some(committed) ==> value == committed
        &&& row.value_prev is None ==> value == F::element(0)
    }
    &&& first_access && row.tag != RwTableTag::Account && row.tag != RwTableTag::AccountStorage
        ==> value == F::element(0)
}

/// A run of the assignment: from its start on, each action is carried out, and answered, up to the
/// first one with nothing to do.
pub open spec fn is_run<F: Field, const QUICK_CHECK: bool, const N_ROWS: usize>(
    circuit: StateCircuitBase<F, QUICK_CHECK, N_ROWS>,
    progress: Seq<Progress<F>>,
    actions: Seq<Action<F>>,
    answers: Seq<bool>,
) -> bool {
    &&& progress.len() == actions.len() == answers.len()
    &&& actions.len() > 0
    &&& actions.last() is Done
    &&& forall|k: int| 0 <= k < actions.len() - 1 ==> !(#[trigger] actions[k] is Done)
    &&& call_ensures(
        StateCircuitBase::<F, QUICK_CHECK, N_ROWS>::start_assignment,
        (),
        progress[0],
    )
    &&& forall|k: int|
        0 <= k < actions.len() ==> call_ensures(
            StateCircuitBase::<F, QUICK_CHECK, N_ROWS>::action,
            (&circuit, progress[k]),
            #[trigger] actions[k],
        )
    &&& forall|k: int|
        0 <= k < actions.len() - 1 ==> call_ensures(
            StateCircuitBase::<F, QUICK_CHECK, N_ROWS>::advance,
            (&circuit, progress[k], #[trigger] answers[k]),
            progress[k + 1],
        )
}

/// Where a run stands after `k` actions.
proof fn lemma_run<F: Field, const QUICK_CHECK: bool, const N_ROWS: usize>(
    circuit: StateCircuitBase<F, QUICK_CHECK, N_ROWS>,
    progress: Seq<Progress<F>>,
    actions: Seq<Action<F>>,
    answers: Seq<bool>,
    k: int,
)
    requires
        circuit.rows@.len() <= N_ROWS,
        is_run(circuit, progress, actions, answers),
        0 <= k < actions.len(),
    ensures
        progress[k].offset == (k + 1) / 3,
        progress[k].stage == if k == 0 || (k + 1) % 3 == 0 {
            Stage::Cells
        } else if (k + 1) % 3 == 1 {
            Stage::Order
        } else {
            Stage::InitialValue
        },
        actions[k] is Done <==> (k + 1) / 3 >= N_ROWS,
    decreases k,
{
    assert(call_ensures(
        StateCircuitBase::<F, QUICK_CHECK, N_ROWS>::action,
        (&circuit, progress[k]),
        actions[k],
    ));
    if k > 0 {
        lemma_run(circuit, progress, actions, answers, k - 1);
        assert(!(actions[k - 1] is Done));
        assert(call_ensures(
            StateCircuitBase::<F, QUICK_CHECK, N_ROWS>::advance,
            (&circuit, progress[k - 1], answers[k - 1]),
            progress[k],
        ));
    }
}

/// A run takes three actions for each row, but for the first row, which is not ordered, and the
/// last action, with which it ends.
pub proof fn law_run_length<F: Field, const QUICK_CHECK: bool, const N_ROWS: usize>(
    circuit: StateCircuitBase<F, QUICK_CHECK, N_ROWS>,
    progress: Seq<Progress<F>>,
    actions: Seq<Action<F>>,
    answers: Seq<bool>,
)
    requires
        circuit.rows@.len() <= N_ROWS,
        is_run(circuit, progress, actions, answers),
    ensures
        actions.len() == if N_ROWS == 0 {
            1
        } else {
            3 * N_ROWS
        },
{
    let last = actions.len() - 1;
    lemma_run(circuit, progress, actions, answers, last);
    if last > 0 {
        lemma_run(circuit, progress, actions, answers, last - 1);
        assert(!(actions[last - 1] is Done));
    }
}

/// What a run does for the row at `offset`: it assigns the cells of the row, orders the row after
/// the row before it, if there is one, and assigns its initial value, which is that of the row
/// itself where the answer reports a first access, or on the first row, and that of the row before
/// otherwise.
pub proof fn law_run_of_a_row<F: Field, const QUICK_CHECK: bool, const N_ROWS: usize>(
    circuit: StateCircuitBase<F, QUICK_CHECK, N_ROWS>,
    progress: Seq<Progress<F>>,
    actions: Seq<Action<F>>,
    answers: Seq<bool>,
    offset: usize,
    row: Rw<F>,
    prev_row: Rw<F>,
)
    requires
        circuit.rows@.len() <= N_ROWS,
        is_run(circuit, progress, actions, answers),
        offset < N_ROWS,
        call_ensures(
            StateCircuitBase::<F, QUICK_CHECK, N_ROWS>::row_at,
            (&circuit, offset),
            row,
        ),
        offset > 0 ==> call_ensures(
            StateCircuitBase::<F, QUICK_CHECK, N_ROWS>::row_at,
            (&circuit, (offset - 1) as usize),
            prev_row,
        ),
    ensures
        3 * offset + 1 < actions.len(),
        ({
            let cells = if offset == 0 {
                0
            } else {
                3 * offset - 1
            };
            &&& progress[cells].offset == offset
            &&& progress[cells].stage == Stage::Cells
            &&& actions[cells] is Assign
            &&& actions[cells]->Assign_0@.last() == (Assignment::Value { offset, value: row.value })
        }),
        offset > 0 ==> actions[3 * offset] == (Action::Order { offset, row, prev_row }),
        ({
            let assigned = actions[3 * offset + 1]->Assign_0@;
            &&& actions[3 * offset + 1] is Assign
            &&& assigned.len() == 1
            &&& assigned[0] matches Assignment::InitialValue { offset: o, value } && {
                &&& o == offset
                &&& brings_initial_value(
                    row,
                    offset == 0 || answers[3 * offset as int],
                    actions[3 * (offset - 1) + 1]->Assign_0@[0]->InitialValue_value,
                    value,
                )
            }
        }),
{
    law_run_length(circuit, progress, actions, answers);
    let last = 3 * offset + 1;
    let cells = if offset == 0 {
        0
    } else {
        3 * offset - 1
    };
    lemma_run(circuit, progress, actions, answers, cells);
    lemma_run(circuit, progress, actions, answers, last);
    law_cells_of_a_row(circuit, progress[cells], actions[cells], row);
    if offset > 0 {
        lemma_run(circuit, progress, actions, answers, 3 * offset as int);
        let before = 3 * (offset - 1) + 1;
        lemma_run(circuit, progress, actions, answers, before);
        assert(call_ensures(
            StateCircuitBase::<F, QUICK_CHECK, N_ROWS>::action,
            (&circuit, progress[before]),
            actions[before],
        ));
        assert(call_ensures(
            StateCircuitBase::<F, QUICK_CHECK, N_ROWS>::action,
            (&circuit, progress[3 * offset as int]),
            actions[3 * offset as int],
        ));
        assert(call_ensures(
            StateCircuitBase::<F, QUICK_CHECK, N_ROWS>::advance,
            (&circuit, progress[before], answers[before]),
            progress[before + 1],
        ));
        assert(call_ensures(
            StateCircuitBase::<F, QUICK_CHECK, N_ROWS>::advance,
            (&circuit, progress[cells], answers[cells]),
            progress[cells + 1],
        ));
    }
    assert(call_ensures(
        StateCircuitBase::<F, QUICK_CHECK, N_ROWS>::advance,
        (&circuit, progress[last - 1], answers[last - 1]),
        progress[last],
    ));
    law_initial_value_of_a_row(
        circuit,
        progress[last - 1],
        answers[last - 1],
        progress[last],
        actions[last],
        row,
    );
}

/// The estimate is the least `k`, from 12 on for the light circuit and from 18 on for the full one,
/// with `2^k` rows for those of the table and 64 more.
pub proof fn law_estimate_k<F: Field, const QUICK_CHECK: bool, const N_ROWS: usize>(
    circuit: StateCircuitBase<F, QUICK_CHECK, N_ROWS>,
    k: u32,
)
    requires
        64 + circuit.rows@.len() <= usize::MAX,
        call_ensures(
            StateCircuitBase::<F, QUICK_CHECK, N_ROWS>::estimate_k,
            (&circuit,),
            k,
        ),
    ensures
        k >= if QUICK_CHECK {
            12int
        } else {
            18
        },
        64 + circuit.rows@.len() <= pow2(k as nat),
        k > (if QUICK_CHECK {
            12int
        } else {
            18
        }) ==> pow2((k - 1) as nat) < 64 + circuit.rows@.len(),
{
}

/// A circuit holds what it is made from; without witnesses, nothing of that is left, and there is
/// no instance column either way.
pub proof fn law_circuit_holds_rows<F: Field, const QUICK_CHECK: bool, const N_ROWS: usize>(
    randomness: F,
    rows: Vec<Rw<F>>,
    circuit: StateCircuitBase<F, QUICK_CHECK, N_ROWS>,
    bare: StateCircuitBase<F, QUICK_CHECK, N_ROWS>,
    instance: Vec<Vec<F>>,
)
    requires
        call_ensures(
            StateCircuitBase::<F, QUICK_CHECK, N_ROWS>::new,
            (randomness, rows),
            circuit,
        ),
        call_ensures(
            StateCircuitBase::<F, QUICK_CHECK, N_ROWS>::without_witnesses,
            (&circuit,),
            bare,
        ),
        call_ensures(
            StateCircuitBase::<F, QUICK_CHECK, N_ROWS>::instance,
            (&circuit,),
            instance,
        ),
    ensures
        circuit.randomness == randomness,
        circuit.rows@ == rows@,
        bare.randomness.residue() == 0,
        bare.rows@.len() == 0,
        instance@.len() == 0,
{
    F::lemma_element(0);
    lemma_small_mod(0, F::order());
}

} // verus!
