//! The assignment of the read/write table to the cells of the circuit, row by row.
//!
//! The table is padded at the front with start rows up to `N_ROWS` rows. The circuit decides
//! what to assign; whoever holds the region carries each [`Action`] out and, where the action
//! is to order a row after the one before, reports whether the row is a first access.
use crate::expression::{Advice, Column, Fixed};
use crate::field::Field;
use crate::state_circuit::config::{BinaryNumberConfig, StateConfig};
use crate::state_circuit::rw::{Rw, RwTableTag};
use crate::state_circuit::StateCircuitBase;
use vstd::prelude::*;

verus! {

/// A value for a cell, or for the cells of a sort key, on the row `offset` of the region.
#[allow(inconsistent_fields)]
#[derive(Debug)]
pub enum Assignment<F> {
    Selector { offset: usize, value: F },
    RwCounter { offset: usize, value: u32 },
    IsWrite { offset: usize, value: F },
    Tag { offset: usize, value: RwTableTag },
    Id { offset: usize, value: u32 },
    Address { offset: usize, value: [u8; 20] },
    FieldTag { offset: usize, value: F },
    StorageKey { offset: usize, randomness: F, value: [u8; 32] },
    Value { offset: usize, value: F },
    InitialValue { offset: usize, value: F },
}

/// Where an assignment goes.
#[derive(Debug)]
pub enum Target<C> {
    Fixed(Column<Fixed>),
    Advice(Column<Advice>),
    BinaryNumber(BinaryNumberConfig<4>),
    /// The cells of a chip.
    Chip(C),
}

/// What is to be done next.
#[derive(Debug)]
pub enum Action<F> {
    /// Make these assignments, in order.
    Assign(Vec<Assignment<F>>),
    /// Assign the lexicographic ordering of `row`, at `offset`, after `prev_row`. The outcome is
    /// whether `row` is the first access to its part of the state.
    Order { offset: usize, row: Rw<F>, prev_row: Rw<F> },
    /// Nothing is left.
    Done,
}

/// What an action does to the region.
#[derive(Debug)]
pub enum Effect<F> {
    /// One assignment is made.
    Assign(Assignment<F>),
    /// The lexicographic ordering of a row is assigned.
    Order { offset: usize, row: Rw<F>, prev_row: Rw<F> },
}

impl<F, C: Copy, const QUICK_CHECK: bool> StateConfig<F, C, QUICK_CHECK> {
    /// The column that an assignment goes to, or the chip that makes it.
    pub fn target(&self, assignment: &Assignment<F>) -> (r: Target<C>)
        ensures
            assignment is Selector ==> r == Target::<C>::Fixed(self.selector),
            assignment is RwCounter ==> r == Target::Chip(self.sort_keys.rw_counter),
            assignment is IsWrite ==> r == Target::<C>::Advice(self.is_write),
            assignment is Tag ==> r == Target::<C>::BinaryNumber(self.sort_keys.tag),
            assignment is Id ==> r == Target::Chip(self.sort_keys.id),
            assignment is Address ==> r == Target::Chip(self.sort_keys.address),
            assignment is FieldTag ==> r == Target::<C>::Advice(self.sort_keys.field_tag),
            assignment is StorageKey ==> r == Target::Chip(self.sort_keys.storage_key),
            assignment is Value ==> r == Target::<C>::Advice(self.value),
            assignment is InitialValue ==> r == Target::<C>::Advice(self.initial_value),
    {
        match assignment {
            Assignment::Selector { .. } => Target::Fixed(self.selector),
            Assignment::RwCounter { .. } => Target::Chip(self.sort_keys.rw_counter),
            Assignment::IsWrite { .. } => Target::Advice(self.is_write),
            Assignment::Tag { .. } => Target::BinaryNumber(self.sort_keys.tag),
            Assignment::Id { .. } => Target::Chip(self.sort_keys.id),
            Assignment::Address { .. } => Target::Chip(self.sort_keys.address),
            Assignment::FieldTag { .. } => Target::Advice(self.sort_keys.field_tag),
            Assignment::StorageKey { .. } => Target::Chip(self.sort_keys.storage_key),
            Assignment::Value { .. } => Target::Advice(self.value),
            Assignment::InitialValue { .. } => Target::Advice(self.initial_value),
        }
    }
}

/// What is to be assigned next on a row.
#[derive(Clone, Copy, Debug, PartialEq, Eq, Structural)]
pub enum Stage {
    /// The selector, the sort keys and the value.
    Cells,
    /// The ordering after the row before.
    Order,
    /// The initial value.
    InitialValue,
}

/// How far the assignment has come, and the initial value that is in force.
#[derive(Debug)]
pub struct Progress<F> {
    pub offset: usize,
    pub stage: Stage,
    pub initial_value: F,
}

impl<F: Copy> Clone for Progress<F> {
    fn clone(&self) -> (r: Self)
        ensures
            r == *self,
    {
        *self
    }
}

impl<F: Copy> Copy for Progress<F> {

}

impl<F> Progress<F> {
    /// The first row is not ordered.
    pub open spec fn wf(self) -> bool {
        self.stage == Stage::Order ==> self.offset > 0
    }
}

/// The low 32 bits of a counter or an id.
pub open spec fn low_32(n: usize) -> u32 {
    (n as int % 0x1_0000_0000) as u32
}

/// Cuts a number down to its low 32 bits.
fn cut_32(n: usize) -> (r: u32)
    ensures
        r == low_32(n),
{
    let low: u32 = #[verifier::truncate] (n as u32);
    assert(low as u64 == (n as u64) % 0x1_0000_0000u64) by (bit_vector)
        requires
            low == n as u32,
    ;
    low
}

/// The field's 0 or 1.
pub open spec fn bool_element<F: Field>(b: bool) -> F {
    if b {
        F::element(1)
    } else {
        F::element(0)
    }
}

/// A one-element sequence of assignments if there is something to assign, else none.
pub open spec fn assign_some<F, T>(
    value: Option<T>,
    assignment: spec_fn(T) -> Assignment<F>,
) -> Seq<Assignment<F>> {
    match value {
        Some(v) => seq![assignment(v)],
        None => seq![],
    }
}

/// The assignments of `row` at `offset`, up to its value.
pub open spec fn cell_assignments<F: Field>(
    randomness: F,
    offset: usize,
    row: Rw<F>,
) -> Seq<Assignment<F>> {
    seq![
        Assignment::Selector { offset, value: F::element(1) },
        Assignment::RwCounter { offset, value: low_32(row.rw_counter) },
        Assignment::IsWrite { offset, value: bool_element(row.is_write) },
        Assignment::Tag { offset, value: row.tag },
    ] + assign_some(row.id, |id: usize| Assignment::Id { offset, value: low_32(id) })
        + assign_some(row.address, |value: [u8; 20]| Assignment::Address { offset, value })
        + assign_some(
        row.field_tag,
        |tag: u64| Assignment::FieldTag { offset, value: F::element(tag as nat) },
    ) + assign_some(
        row.storage_key,
        |value: [u8; 32]| Assignment::StorageKey { offset, randomness, value },
    ) + seq![Assignment::Value { offset, value: row.value }]
}

/// The value at the start of the block of what `row` is the first to access: for accounts and
/// their storage the committed value, which is the one before `row`, for others 0.
pub open spec fn initial_value_of<F: Field>(row: Rw<F>) -> F {
    if row.tag == RwTableTag::Account || row.tag == RwTableTag::AccountStorage {
        match row.value_prev {
            Some(value) => value,
            None => F::element(0),
        }
    } else {
        F::element(0)
    }
}

/// The initial value that `row` brings in as a first access.
fn first_value<F: Field>(row: &Rw<F>) -> (r: F)
    ensures
        r == initial_value_of(*row),
{
    match row.tag {
        RwTableTag::Account | RwTableTag::AccountStorage => match row.value_prev {
            Some(value) => value,
            None => F::zero(),
        },
        _ => F::zero(),
    }
}

impl<F: Field, const QUICK_CHECK: bool, const N_ROWS: usize> StateCircuitBase<
    F,
    QUICK_CHECK,
    N_ROWS,
> {
    /// The rows fit in the circuit.
    pub open spec fn fits(self) -> bool {
        self.rows@.len() <= N_ROWS
    }

    /// The row at `offset` of the padded table: start rows, which count from one, and then the
    /// rows of the circuit.
    pub open spec fn padded_row(self, offset: int) -> Rw<F> {
        let padding_length = N_ROWS - self.rows@.len();
        if offset < padding_length {
            Rw::spec_start((offset + 1) as usize)
        } else {
            self.rows@[offset - padding_length]
        }
    }

    /// The row at `offset` of the padded table.
    pub fn row_at(&self, offset: usize) -> (r: Rw<F>)
        requires
            self.fits(),
            offset < N_ROWS,
        ensures
            r == self.padded_row(offset as int),
    {
        let padding_length: usize = N_ROWS - self.rows.len();
        if offset < padding_length {
            Rw::start(offset + 1)
        } else {
            self.rows[offset - padding_length]
        }
    }

    /// The assignments of the row at `offset`, up to its value.
    fn assign_cells(&self, offset: usize) -> (r: Vec<Assignment<F>>)
        requires
            self.fits(),
            offset < N_ROWS,
        ensures
            r@ == cell_assignments(self.randomness, offset, self.padded_row(offset as int)),
    {
        let row: Rw<F> = self.row_at(offset);
        let mut cells: Vec<Assignment<F>> = Vec::new();
        cells.push(Assignment::Selector { offset, value: F::one() });
        cells.push(Assignment::RwCounter { offset, value: cut_32(row.rw_counter) });
        let is_write: F = if row.is_write {
            F::one()
        } else {
            F::zero()
        };
        cells.push(Assignment::IsWrite { offset, value: is_write });
        cells.push(Assignment::Tag { offset, value: row.tag });
        if let Some(id) = row.id {
            cells.push(Assignment::Id { offset, value: cut_32(id) });
        }
        if let Some(value) = row.address {
            cells.push(Assignment::Address { offset, value });
        }
        if let Some(field_tag) = row.field_tag {
            cells.push(Assignment::FieldTag { offset, value: F::from_u64(field_tag) });
        }
        if let Some(value) = row.storage_key {
            cells.push(
                Assignment::StorageKey { offset, randomness: self.randomness, value },
            );
        }
        cells.push(Assignment::Value { offset, value: row.value });
        cells
    }

    /// The start of the assignment.
    pub fn start_assignment() -> (r: Progress<F>)
        ensures
            r == Self::spec_start_assignment(),
            r.wf(),
    {
        Progress { offset: 0, stage: Stage::Cells, initial_value: F::zero() }
    }

    /// The start of the assignment: the first row, with the initial value 0.
    pub open spec fn spec_start_assignment() -> Progress<F> {
        Progress { offset: 0, stage: Stage::Cells, initial_value: F::element(0) }
    }

    /// What is to be done at `progress`.
    pub fn action(&self, progress: Progress<F>) -> (r: Action<F>)
        requires
            self.fits(),
            progress.wf(),
        ensures
            self.is_action(progress, r),
    {
        let offset: usize = progress.offset;
        if offset >= N_ROWS {
            return Action::Done;
        }
        match progress.stage {
            Stage::Cells => Action::Assign(self.assign_cells(offset)),
            Stage::Order => Action::Order {
                offset,
                row: self.row_at(offset),
                prev_row: self.row_at(offset - 1),
            },
            Stage::InitialValue => {
                let mut cells: Vec<Assignment<F>> = Vec::new();
                cells.push(
                    Assignment::InitialValue { offset, value: progress.initial_value },
                );
                Action::Assign(cells)
            },
        }
    }

    /// The assignments to be made at `progress`: the cells of the row, nothing while it is ordered,
    /// and its initial value.
    pub open spec fn assignments_at(self, progress: Progress<F>) -> Seq<Assignment<F>> {
        let offset = progress.offset;
        match progress.stage {
            Stage::Cells => cell_assignments(
                self.randomness,
                offset,
                self.padded_row(offset as int),
            ),
            Stage::Order => seq![],
            Stage::InitialValue => seq![
                Assignment::InitialValue { offset, value: progress.initial_value },
            ],
        }
    }

    /// `action` is what is to be done at `progress`.
    pub open spec fn is_action(self, progress: Progress<F>, action: Action<F>) -> bool {
        if progress.offset >= N_ROWS {
            action == Action::<F>::Done
        } else if progress.stage == Stage::Order {
            action == (Action::Order {
                offset: progress.offset,
                row: self.padded_row(progress.offset as int),
                prev_row: self.padded_row(progress.offset - 1),
            })
        } else {
            &&& action matches Action::Assign(cells)
            &&& cells@ == self.assignments_at(progress)
        }
    }

    /// Where the assignment stands after the action at `progress`; `first_access` is the outcome
    /// of an ordering, and says nothing for other actions. The first row has no row before it to
    /// be ordered after, and is a first access.
    pub open spec fn spec_advance(self, progress: Progress<F>, first_access: bool) -> Progress<F> {
        match progress.stage {
            Stage::Cells => if progress.offset == 0 {
                Progress {
                    stage: Stage::InitialValue,
                    initial_value: initial_value_of(self.padded_row(0)),
                    ..progress
                }
            } else {
                Progress { stage: Stage::Order, ..progress }
            },
            Stage::Order => Progress {
                stage: Stage::InitialValue,
                initial_value: if first_access {
                    initial_value_of(self.padded_row(progress.offset as int))
                } else {
                    progress.initial_value
                },
                ..progress
            },
            Stage::InitialValue => Progress {
                offset: (progress.offset + 1) as usize,
                stage: Stage::Cells,
                ..progress
            },
        }
    }

    /// Moves on from the action at `progress`.
    pub fn advance(&self, progress: Progress<F>, first_access: bool) -> (r: Progress<F>)
        requires
            self.fits(),
            progress.offset < N_ROWS,
        ensures
            r == self.spec_advance(progress, first_access),
            r.wf(),
    {
        let offset: usize = progress.offset;
        match progress.stage {
            Stage::Cells => {
                if offset == 0 {
                    let initial_value: F = first_value(&self.row_at(0));
                    Progress { offset, stage: Stage::InitialValue, initial_value }
                } else {
                    Progress {
                        offset,
                        stage: Stage::Order,
                        initial_value: progress.initial_value,
                    }
                }
            },
            Stage::Order => {
                let initial_value: F = if first_access {
                    first_value(&self.row_at(offset))
                } else {
                    progress.initial_value
                };
                Progress { offset, stage: Stage::InitialValue, initial_value }
            },
            Stage::InitialValue => Progress {
                offset: offset + 1,
                stage: Stage::Cells,
                initial_value: progress.initial_value,
            },
        }
    }
}

impl<F: Field, const QUICK_CHECK: bool, const N_ROWS: usize> StateCircuitBase<
    F,
    QUICK_CHECK,
    N_ROWS,
> {
    /// What the action at `progress` does.
    pub open spec fn effects_at(self, progress: Progress<F>) -> Seq<Effect<F>> {
        if progress.stage == Stage::Order {
            seq![
                Effect::Order {
                    offset: progress.offset,
                    row: self.padded_row(progress.offset as int),
                    prev_row: self.padded_row(progress.offset - 1),
                },
            ]
        } else {
            self.assignments_at(progress).map_values(|a: Assignment<F>| Effect::Assign(a))
        }
    }

    /// What all actions from `progress` on do, if the ordering at an offset reports `first_access`
    /// of the offset.
    pub open spec fn remaining_effects(
        self,
        progress: Progress<F>,
        first_access: spec_fn(int) -> bool,
    ) -> Seq<Effect<F>>
        decreases
            N_ROWS - progress.offset,
            match progress.stage {
                Stage::Cells => 2int,
                Stage::Order => 1,
                Stage::InitialValue => 0,
            },
    {
        if progress.offset >= N_ROWS {
            seq![]
        } else {
            self.effects_at(progress) + self.remaining_effects(
                self.spec_advance(progress, first_access(progress.offset as int)),
                first_access,
            )
        }
    }

    /// The initial value of the row at `offset`: that of the latest first access, which the first
    /// row always is.
    pub open spec fn initial_value_at(self, first_access: spec_fn(int) -> bool, offset: int) -> F
        decreases offset,
    {
        if offset <= 0 || first_access(offset) {
            initial_value_of(self.padded_row(offset))
        } else {
            self.initial_value_at(first_access, offset - 1)
        }
    }

    /// What is done for the row at `offset`: its cells are assigned, it is ordered after the row
    /// before, if there is one, and its initial value is assigned.
    pub open spec fn row_effects(
        self,
        first_access: spec_fn(int) -> bool,
        offset: int,
    ) -> Seq<Effect<F>> {
        let cells = cell_assignments(self.randomness, offset as usize, self.padded_row(offset));
        let ordering = if offset == 0 {
            seq![]
        } else {
            seq![
                Effect::Order {
                    offset: offset as usize,
                    row: self.padded_row(offset),
                    prev_row: self.padded_row(offset - 1),
                },
            ]
        };
        let initial_value = Assignment::InitialValue {
            offset: offset as usize,
            value: self.initial_value_at(first_access, offset),
        };
        cells.map_values(|a: Assignment<F>| Effect::Assign(a)) + ordering + seq![
            Effect::Assign(initial_value),
        ]
    }

    /// What is done for the rows from `offset` on, row by row.
    pub open spec fn table_effects(
        self,
        first_access: spec_fn(int) -> bool,
        offset: int,
    ) -> Seq<Effect<F>>
        decreases N_ROWS - offset,
    {
        if offset >= N_ROWS {
            seq![]
        } else {
            self.row_effects(first_access, offset) + self.table_effects(
                first_access,
                offset + 1,
            )
        }
    }
}

/// What an action does.
pub open spec fn effects_of<F>(action: Action<F>) -> Seq<Effect<F>> {
    match action {
        Action::Assign(cells) => cells@.map_values(|a: Assignment<F>| Effect::Assign(a)),
        Action::Order { offset, row, prev_row } => seq![Effect::Order { offset, row, prev_row }],
        Action::Done => seq![],
    }
}

/// What is to be done at each point of the assignment does what is asked for at that point, and
/// nothing after the last row.
pub proof fn law_action_effects<F: Field, const QUICK_CHECK: bool, const N_ROWS: usize>(
    circuit: StateCircuitBase<F, QUICK_CHECK, N_ROWS>,
    progress: Progress<F>,
    action: Action<F>,
)
    requires
        circuit.is_action(progress, action),
    ensures
        effects_of(action) == if progress.offset < N_ROWS {
            circuit.effects_at(progress)
        } else {
            seq![]
        },
{
}

/// From the start of a row on, what is done is what the rest of the table asks for.
proof fn lemma_rows_are_assigned<F: Field, const QUICK_CHECK: bool, const N_ROWS: usize>(
    circuit: StateCircuitBase<F, QUICK_CHECK, N_ROWS>,
    first_access: spec_fn(int) -> bool,
    progress: Progress<F>,
)
    requires
        progress.stage == Stage::Cells,
        progress.offset <= N_ROWS,
        progress.offset > 0 ==> progress.initial_value == circuit.initial_value_at(
            first_access,
            progress.offset - 1,
        ),
    ensures
        circuit.remaining_effects(progress, first_access) == circuit.table_effects(
            first_access,
            progress.offset as int,
        ),
    decreases N_ROWS - progress.offset,
{
    if progress.offset < N_ROWS {
        let answer = first_access(progress.offset as int);
        let p1 = circuit.spec_advance(progress, answer);
        let p2 = if progress.offset == 0 {
            p1
        } else {
            circuit.spec_advance(p1, answer)
        };
        let p3 = circuit.spec_advance(p2, answer);
        lemma_rows_are_assigned(circuit, first_access, p3);
        reveal_with_fuel(StateCircuitBase::remaining_effects, 4);
        assert(circuit.remaining_effects(p2, first_access) == circuit.effects_at(p2)
            + circuit.remaining_effects(p3, first_access));
        if progress.offset > 0 {
            assert(circuit.remaining_effects(p1, first_access) == circuit.effects_at(p1)
                + circuit.remaining_effects(p2, first_access));
        }
        assert(circuit.remaining_effects(progress, first_access) == circuit.effects_at(progress)
            + circuit.remaining_effects(p1, first_access));
        assert(circuit.effects_at(p2) == seq![
            Effect::Assign(
                Assignment::InitialValue { offset: p2.offset, value: p2.initial_value },
            ),
        ]);
    }
}

/// The whole table is assigned: carrying the actions out, from the start to the end, handles the
/// rows of the padded table one after the other, each with its cells, its ordering after the row
/// before, and its initial value.
pub proof fn law_table_is_assigned<F: Field, const QUICK_CHECK: bool, const N_ROWS: usize>(
    circuit: StateCircuitBase<F, QUICK_CHECK, N_ROWS>,
    first_access: spec_fn(int) -> bool,
)
    ensures
        circuit.remaining_effects(
            StateCircuitBase::<F, QUICK_CHECK, N_ROWS>::spec_start_assignment(),
            first_access,
        ) == circuit.table_effects(first_access, 0),
{
    lemma_rows_are_assigned(
        circuit,
        first_access,
        StateCircuitBase::<F, QUICK_CHECK, N_ROWS>::spec_start_assignment(),
    );
}

/// The first row has the initial value that it brings in: an account row the committed value, and
/// a start row 0.
pub proof fn law_first_initial_value<F: Field, const QUICK_CHECK: bool, const N_ROWS: usize>(
    circuit: StateCircuitBase<F, QUICK_CHECK, N_ROWS>,
    first_access: spec_fn(int) -> bool,
)
    ensures
        circuit.initial_value_at(first_access, 0) == initial_value_of(circuit.padded_row(0)),
        circuit.rows@.len() < N_ROWS ==> circuit.initial_value_at(first_access, 0) == F::element(0),
{
}

/// The initial value stays in force up to the next first access.
pub proof fn law_initial_value_is_kept<F: Field, const QUICK_CHECK: bool, const N_ROWS: usize>(
    circuit: StateCircuitBase<F, QUICK_CHECK, N_ROWS>,
    first_access: spec_fn(int) -> bool,
    from: int,
    to: int,
)
    requires
        0 <= from <= to < N_ROWS,
        forall|offset: int| from < offset <= to ==> !#[trigger] first_access(offset),
    ensures
        circuit.initial_value_at(first_access, to) == circuit.initial_value_at(first_access, from),
    decreases to - from,
{
    if from < to {
        assert(!first_access(to));
        law_initial_value_is_kept(circuit, first_access, from, to - 1);
    }
}

/// Rows of other parts of the state than accounts and their storage have the initial value 0,
/// wherever they stand, if each row with another tag than the row before is a first access.
pub proof fn law_initial_value_by_tag<F: Field, const QUICK_CHECK: bool, const N_ROWS: usize>(
    circuit: StateCircuitBase<F, QUICK_CHECK, N_ROWS>,
    first_access: spec_fn(int) -> bool,
    offset: int,
)
    requires
        0 <= offset < N_ROWS,
        forall|o: int|
            0 < o < N_ROWS && circuit.padded_row(o).tag != circuit.padded_row(o - 1).tag
                ==> #[trigger] first_access(o),
        circuit.padded_row(offset).tag != RwTableTag::Account,
        circuit.padded_row(offset).tag != RwTableTag::AccountStorage,
    ensures
        circuit.initial_value_at(first_access, offset) == F::element(0),
    decreases offset,
{
    if offset > 0 && !first_access(offset) {
        law_initial_value_by_tag(circuit, first_access, offset - 1);
    }
}

/// Every row of the circuit, padding included, has its selector set to 1.
pub proof fn law_every_row_is_selected<F: Field, const QUICK_CHECK: bool, const N_ROWS: usize>(
    circuit: StateCircuitBase<F, QUICK_CHECK, N_ROWS>,
    first_access: spec_fn(int) -> bool,
    offset: usize,
)
    requires
        offset < N_ROWS,
    ensures
        circuit.table_effects(first_access, 0).contains(
            Effect::Assign((Assignment::Selector { offset, value: F::element(1) })),
        ),
{
    lemma_row_is_selected(circuit, first_access, 0, offset);
}

proof fn lemma_row_is_selected<F: Field, const QUICK_CHECK: bool, const N_ROWS: usize>(
    circuit: StateCircuitBase<F, QUICK_CHECK, N_ROWS>,
    first_access: spec_fn(int) -> bool,
    from: int,
    offset: usize,
)
    requires
        0 <= from <= offset < N_ROWS,
    ensures
        circuit.table_effects(first_access, from).contains(
            Effect::Assign((Assignment::Selector { offset, value: F::element(1) })),
        ),
    decreases offset - from,
{
    let selector = Effect::Assign(Assignment::Selector { offset, value: F::element(1) });
    let row = circuit.row_effects(first_access, from);
    let all = circuit.table_effects(first_access, from);
    if from == offset {
        assert(all[0] == selector);
    } else {
        lemma_row_is_selected(circuit, first_access, from + 1, offset);
        let rest = circuit.table_effects(first_access, from + 1);
        let k = choose|k: int| 0 <= k < rest.len() && rest[k] == selector;
        assert(all[row.len() + k] == selector);
    }
}

} // verus!
