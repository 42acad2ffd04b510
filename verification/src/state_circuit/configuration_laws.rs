//! What the configuration of the state circuit and its queries are for: laws over the arguments and
//! the results of the operations.
use crate::congruence::{is_bit, lemma_bit, off, on};
use crate::constraint_system::{Constraint, VirtualCells};
use crate::expression::{Advice, AnyColumn, Cell, Column, Expression, Fixed, Grid, Rotation};
use crate::field::Field;
use crate::state_circuit::assignment::{Assignment, Target};
use crate::state_circuit::config::{
    law_powers_of_randomness, power_of_randomness, BinaryNumberConfig, SortKeysConfig, StateConfig,
};
use crate::state_circuit::configuration::{
    all_fit, fits, Answer, Configuration, IntegerKind, Request,
};
use crate::state_circuit::queries::{
    bit_at, build_gate, has_bits, law_first_access, law_tag_and_id_unchanged, queries, query_chips,
    AllChipQueries, Queries,
};
use vstd::arithmetic::div_mod::lemma_small_mod;
use vstd::arithmetic::power::pow;
use vstd::prelude::*;

verus! {

/// `coefficients` are the 31 powers of `randomness` in the field, the first one first.
pub open spec fn are_powers<F: Field>(coefficients: Seq<Expression<F>>, randomness: u128) -> bool {
    &&& coefficients.len() == 31
    &&& forall|i: int|
        0 <= i < 31 ==> (#[trigger] coefficients[i] matches Expression::Constant(c) && c.residue()
            == pow(randomness as int, (i + 1) as nat) % (F::order() as int))
}

/// The coefficients that a request carries.
pub open spec fn coefficients<F, C, const QUICK_CHECK: bool>(
    request: Request<F, C, QUICK_CHECK>,
) -> Option<Seq<Expression<F>>> {
    match request {
        Request::RandomLinearCombination { power_of_randomness: powers, .. } => Some(powers@),
        Request::LexicographicOrder { power_of_randomness: powers, .. } => Some(powers@),
        Request::Gate { config, .. } => Some(config.power_of_randomness@),
        _ => None,
    }
}

/// The powers of a randomness are its powers in the field.
pub proof fn law_power_of_randomness<F: Field>(randomness: u128, r: Vec<Expression<F>>)
    requires
        call_ensures(power_of_randomness::<F>, (randomness,), r),
    ensures
        are_powers(r@, randomness),
{
    assert forall|i: int| 0 <= i < 31 implies (#[trigger] r@[i] matches Expression::Constant(c)
        && c.residue() == pow(randomness as int, (i + 1) as nat) % (F::order() as int)) by {
        law_powers_of_randomness::<F>(randomness, i);
    }
}

/// A configuration is started without an answer, and over the randomness that it is given.
pub proof fn law_configuration_starts<F: Field, C: Copy, const QUICK_CHECK: bool>(
    randomness: u128,
    steps: Configuration<F, C, QUICK_CHECK>,
)
    requires
        call_ensures(Configuration::<F, C, QUICK_CHECK>::new, (randomness,), steps),
    ensures
        steps.randomness() == randomness,
        steps.answers().len() == 0,
{
}

/// Every request with coefficients carries the powers of the randomness that the configuration was
/// started with, so that all of them carry the same.
pub proof fn law_requests_carry_powers<F: Field, C: Copy, const QUICK_CHECK: bool>(
    steps: Configuration<F, C, QUICK_CHECK>,
    request: Request<F, C, QUICK_CHECK>,
    other_steps: Configuration<F, C, QUICK_CHECK>,
    other_request: Request<F, C, QUICK_CHECK>,
)
    requires
        call_ensures(Configuration::<F, C, QUICK_CHECK>::request, (&steps,), request),
        call_ensures(Configuration::<F, C, QUICK_CHECK>::request, (&other_steps,), other_request),
        other_steps.randomness() == steps.randomness(),
    ensures
        coefficients(request) matches Some(powers) ==> are_powers(powers, steps.randomness()),
        coefficients(request) is Some && coefficients(other_request) is Some ==> coefficients(
            request,
        ) == coefficients(other_request),
{
    if coefficients(request) is Some {
        let powers = coefficients(request)->Some_0;
        assert forall|i: int| 0 <= i < 31 implies (#[trigger] powers[i] matches
            Expression::Constant(c) && c.residue() == pow(
            steps.randomness() as int,
            (i + 1) as nat,
        ) % (F::order() as int)) by {
            law_powers_of_randomness::<F>(steps.randomness(), i);
        }
    }
}

/// The sort keys are the answers to the requests for them: the tag to that for the binary number,
/// the id and the address to the first and the second request for an integer, the storage key to
/// that for the linear combination, the counter to the third request for an integer, and the field
/// tag is the second advice column.
pub open spec fn are_sort_keys<F, C>(
    sort_keys: SortKeysConfig<C>,
    answers: Seq<Answer<F, C>>,
) -> bool {
    &&& answers[3] == Answer::<F, C>::AdviceColumn(sort_keys.field_tag)
    &&& answers[6] == Answer::<F, C>::BinaryNumber(sort_keys.tag)
    &&& answers[7] == Answer::<F, C>::Chip(sort_keys.id)
    &&& answers[8] == Answer::<F, C>::Chip(sort_keys.address)
    &&& answers[9] == Answer::<F, C>::Chip(sort_keys.storage_key)
    &&& answers[10] == Answer::<F, C>::Chip(sort_keys.rw_counter)
}

/// The parts of a configuration are the answers to the requests for them; the four advice columns
/// are those of the write flag, the field tag, the value and the initial value, in this order.
pub open spec fn has_answered_parts<F, C, const QUICK_CHECK: bool>(
    config: StateConfig<F, C, QUICK_CHECK>,
    answers: Seq<Answer<F, C>>,
) -> bool {
    &&& answers[0] == Answer::<F, C>::FixedColumn(config.selector)
    &&& answers[1] == Answer::<F, C>::Chip(config.lookups)
    &&& answers[2] == Answer::<F, C>::AdviceColumn(config.is_write)
    &&& answers[4] == Answer::<F, C>::AdviceColumn(config.value)
    &&& answers[5] == Answer::<F, C>::AdviceColumn(config.initial_value)
    &&& are_sort_keys(config.sort_keys, answers)
    &&& answers[11] == Answer::<F, C>::LexicographicOrder(config.lexicographic_ordering)
}

/// What a request asks for, by the number of answers before it, and which of the answers it hands
/// on: the selector is the first one, the lookup tables are the second one.
pub open spec fn hands_on_answers<F, C, const QUICK_CHECK: bool>(
    request: Request<F, C, QUICK_CHECK>,
    answers: Seq<Answer<F, C>>,
) -> bool {
    let n = answers.len();
    match request {
        Request::FixedColumn => n == 0,
        Request::Lookups => n == 1,
        Request::AdviceColumn => 2 <= n <= 5,
        Request::BinaryNumber { selector } => n == 6 && answers[0] == Answer::<F, C>::FixedColumn(
            selector,
        ),
        Request::MultiplePrecisionInteger { selector, lookups, kind, limbs } => {
            &&& n == 7 || n == 8 || n == 10
            &&& n == 8 <==> kind == IntegerKind::Address
            &&& limbs == if kind == IntegerKind::Address {
                10int
            } else {
                2
            }
            &&& answers[0] == Answer::<F, C>::FixedColumn(selector)
            &&& answers[1] == Answer::<F, C>::Chip(lookups)
        },
        Request::RandomLinearCombination { selector, lookups, bytes, .. } => {
            &&& n == 9
            &&& bytes == 32
            &&& answers[0] == Answer::<F, C>::FixedColumn(selector)
            &&& answers[1] == Answer::<F, C>::Chip(lookups)
        },
        Request::LexicographicOrder { sort_keys, lookups, .. } => {
            &&& n == 11
            &&& are_sort_keys(sort_keys, answers)
            &&& answers[1] == Answer::<F, C>::Chip(lookups)
        },
        Request::Gate { name, config } => {
            &&& n == 12
            &&& name == "state circuit constraints"
            &&& has_answered_parts(config, answers)
        },
        Request::LookupAny { name, table_map } => {
            &&& n >= 13
            &&& answers[12] is Gate
            &&& n - 13 < answers[12]->Gate_0@.len()
            &&& name == answers[12]->Gate_0@[n - 13].name
            &&& table_map@.len() == 1
            &&& table_map@[0].0 == answers[12]->Gate_0@[n - 13].input
            &&& table_map@[0].1 == answers[12]->Gate_0@[n - 13].table
        },
        Request::Done => n >= 13 && n - 13 >= answers[12]->Gate_0@.len(),
    }
}

/// Each request hands on the answers that it is about.
pub proof fn law_requests_hand_on_answers<F: Field, C: Copy, const QUICK_CHECK: bool>(
    steps: Configuration<F, C, QUICK_CHECK>,
    request: Request<F, C, QUICK_CHECK>,
)
    requires
        call_ensures(Configuration::<F, C, QUICK_CHECK>::request, (&steps,), request),
    ensures
        hands_on_answers(request, steps.answers()),
{
    lemma_answer_kinds(steps.answers());
}

/// The answers that a configuration is made of are of the kinds that were asked for.
proof fn lemma_answer_kinds<F, C>(answers: Seq<Answer<F, C>>)
    requires
        all_fit(answers),
    ensures
        answers.len() > 0 ==> answers[0] is FixedColumn,
        answers.len() > 1 ==> answers[1] is Chip,
        forall|i: int| 2 <= i <= 5 && i < answers.len() ==> #[trigger] answers[i] is AdviceColumn,
        answers.len() > 6 ==> answers[6] is BinaryNumber,
        forall|i: int| 7 <= i <= 10 && i < answers.len() ==> #[trigger] answers[i] is Chip,
        answers.len() > 11 ==> answers[11] is LexicographicOrder,
        answers.len() > 12 ==> answers[12] is Gate,
{
    assert forall|i: int| 0 <= i < answers.len() implies fits(
        #[trigger] answers.take(i),
        answers[i],
    ) by {}
    assert forall|i: int| 2 <= i <= 5 && i < answers.len() implies #[trigger] answers[i] is
        AdviceColumn by {
        assert(fits(answers.take(i), answers[i]));
    }
    assert forall|i: int| 7 <= i <= 10 && i < answers.len() implies #[trigger] answers[i] is
        Chip by {
        assert(fits(answers.take(i), answers[i]));
    }
    if answers.len() > 0 {
        assert(fits(answers.take(0), answers[0]));
    }
    if answers.len() > 1 {
        assert(fits(answers.take(1), answers[1]));
    }
    if answers.len() > 6 {
        assert(fits(answers.take(6), answers[6]));
    }
    if answers.len() > 11 {
        assert(fits(answers.take(11), answers[11]));
    }
    if answers.len() > 12 {
        assert(fits(answers.take(12), answers[12]));
    }
}

/// The configuration is there once twelve answers are; it is made of them, and of the powers of
/// the randomness.
pub proof fn law_config_is_made_of_answers<F: Field, C: Copy, const QUICK_CHECK: bool>(
    steps: Configuration<F, C, QUICK_CHECK>,
    config: Option<StateConfig<F, C, QUICK_CHECK>>,
)
    requires
        call_ensures(Configuration::<F, C, QUICK_CHECK>::config, (&steps,), config),
    ensures
        config is Some <==> steps.answers().len() >= 12,
        config matches Some(c) ==> has_answered_parts(c, steps.answers()),
        config matches Some(c) ==> are_powers(c.power_of_randomness@, steps.randomness()),
{
    lemma_answer_kinds(steps.answers());
    if config is Some {
        let powers = config->Some_0.power_of_randomness@;
        assert forall|i: int| 0 <= i < 31 implies (#[trigger] powers[i] matches
            Expression::Constant(c) && c.residue() == pow(
            steps.randomness() as int,
            (i + 1) as nat,
        ) % (F::order() as int)) by {
            law_powers_of_randomness::<F>(steps.randomness(), i);
        }
    }
}

/// `answer` is of the kind that `request` asks for.
pub open spec fn answers_request<F, C, const QUICK_CHECK: bool>(
    request: Request<F, C, QUICK_CHECK>,
    answer: Answer<F, C>,
) -> bool {
    match request {
        Request::FixedColumn => answer is FixedColumn,
        Request::AdviceColumn => answer is AdviceColumn,
        Request::Lookups => answer is Chip,
        Request::MultiplePrecisionInteger { .. } => answer is Chip,
        Request::RandomLinearCombination { .. } => answer is Chip,
        Request::BinaryNumber { .. } => answer is BinaryNumber,
        Request::LexicographicOrder { .. } => answer is LexicographicOrder,
        Request::Gate { .. } => answer is Gate,
        Request::LookupAny { .. } => answer is LookupAny,
        Request::Done => false,
    }
}

/// An answer is taken exactly if it is one to the present request. It is then the last of the
/// answers; the answers before it, and the randomness, stay.
pub proof fn law_answers_are_taken<F: Field, C: Copy, const QUICK_CHECK: bool>(
    steps: &mut Configuration<F, C, QUICK_CHECK>,
    request: Request<F, C, QUICK_CHECK>,
    answer: Answer<F, C>,
    taken: bool,
)
    requires
        call_ensures(Configuration::<F, C, QUICK_CHECK>::request, (&*old(steps),), request),
        call_ensures(Configuration::<F, C, QUICK_CHECK>::answer, (steps, answer), taken),
    ensures
        taken <==> answers_request(request, answer),
        final(steps).answers() == if taken {
            old(steps).answers().push(answer)
        } else {
            old(steps).answers()
        },
        final(steps).randomness() == old(steps).randomness(),
{
}

/// The value of an advice column at a distance.
pub open spec fn advice_at(grid: Grid, column: Column<Advice>, row: int) -> int {
    grid(AnyColumn::Advice(column), row)
}

/// The value of a fixed column on a row.
pub open spec fn fixed_at(grid: Grid, column: Column<Fixed>, row: int) -> int {
    grid(AnyColumn::Fixed(column), row)
}

/// What the queries read: on the current row, the columns of the configuration that they are named
/// after; for a previous value, the same column on the row before. What a chip queries, and the
/// powers of the randomness, are passed on as they are.
pub proof fn law_queries_read_their_columns<F: Field, C, Q, const QUICK_CHECK: bool>(
    meta: &mut VirtualCells,
    c: StateConfig<F, C, QUICK_CHECK>,
    chips: AllChipQueries<F, C, Q>,
    q: Queries<F, Q>,
    grid: Grid,
    row: int,
)
    requires
        call_ensures(queries::<F, C, Q, QUICK_CHECK>, (meta, &c, chips), q),
    ensures
        q.selector.eval(grid, row) == fixed_at(grid, c.selector, row),
        q.lexicographic_ordering_selector.eval(grid, row) == fixed_at(
            grid,
            c.lexicographic_ordering.selector,
            row,
        ),
        q.is_write.eval(grid, row) == advice_at(grid, c.is_write, row),
        forall|i: int|
            0 <= i < 4 ==> (#[trigger] q.tag_bits@[i]).eval(grid, row) == advice_at(
                grid,
                c.sort_keys.tag.bits@[i],
                row,
            ),
        q.field_tag.eval(grid, row) == advice_at(grid, c.sort_keys.field_tag, row),
        q.value.eval(grid, row) == advice_at(grid, c.value, row),
        q.value_prev.eval(grid, row) == advice_at(grid, c.value, row - 1),
        q.initial_value.eval(grid, row) == advice_at(grid, c.initial_value, row),
        q.initial_value_prev.eval(grid, row) == advice_at(grid, c.initial_value, row - 1),
        q.tag == chips.tag.queries,
        q.rw_counter == chips.rw_counter.queries,
        q.id == chips.id.queries,
        q.address == chips.address.queries,
        q.storage_key == chips.storage_key.queries,
        q.lookups == chips.lookups.queries,
        q.power_of_randomness@ == c.power_of_randomness@,
        chips.tag.chip == c.sort_keys.tag,
        chips.rw_counter.chip == c.sort_keys.rw_counter,
        chips.id.chip == c.sort_keys.id,
        chips.address.chip == c.sort_keys.address,
        chips.storage_key.chip == c.sort_keys.storage_key,
        chips.lookups.chip == c.lookups,
{
}

/// The queries of a configured circuit carry the powers of the randomness that its configuration
/// was started with.
pub proof fn law_queries_carry_powers<F: Field, C: Copy, Q, const QUICK_CHECK: bool>(
    steps: Configuration<F, C, QUICK_CHECK>,
    meta: &mut VirtualCells,
    c: StateConfig<F, C, QUICK_CHECK>,
    chips: AllChipQueries<F, C, Q>,
    q: Queries<F, Q>,
)
    requires
        call_ensures(Configuration::<F, C, QUICK_CHECK>::config, (&steps,), Some(c)),
        call_ensures(queries::<F, C, Q, QUICK_CHECK>, (meta, &c, chips), q),
    ensures
        are_powers(q.power_of_randomness@, steps.randomness()),
{
    law_config_is_made_of_answers(steps, Some(c));
}

/// What the queries say of the first limb in which a row differs from the row before, whose index
/// is written with five bits: `is_tag_and_id_unchanged` is 0 exactly for the indices 0, 1 and 2,
/// `first_access` is 0 exactly for 30 and 31, and `not_first_access` is 1 for these and 0 for the
/// others.
pub proof fn law_queries_of_the_first_different_limb<F: Field, C, Q, const QUICK_CHECK: bool>(
    meta: &mut VirtualCells,
    c: StateConfig<F, C, QUICK_CHECK>,
    chips: AllChipQueries<F, C, Q>,
    q: Queries<F, Q>,
    grid: Grid,
    row: int,
)
    requires
        call_ensures(queries::<F, C, Q, QUICK_CHECK>, (meta, &c, chips), q),
        forall|i: int|
            0 <= i < 5 ==> is_bit::<F>(
                advice_at(
                    grid,
                    #[trigger] c.lexicographic_ordering.first_different_limb.bits@[i],
                    row,
                ),
            ),
    ensures
        ({
            let bits = c.lexicographic_ordering.first_different_limb.bits@;
            let bit = |i: int| on::<F>(advice_at(grid, bits[i], row));
            let late = bit(0) && bit(1) && bit(2) && bit(3);
            &&& off::<F>(q.is_tag_and_id_unchanged.eval(grid, row)) <==> !bit(0) && !bit(1)
                && !bit(2) && !(bit(3) && bit(4))
            &&& off::<F>(q.first_access.eval(grid, row)) <==> late
            &&& on::<F>(q.not_first_access.eval(grid, row)) <==> late
            &&& off::<F>(q.not_first_access.eval(grid, row)) <==> !late
        }),
{
    let limb = c.lexicographic_ordering.first_different_limb;
    assert forall|i: int| 0 <= i < 5 implies is_bit::<F>(#[trigger] bit_at(limb, i, grid, row)) by {
        assert(is_bit::<F>(advice_at(grid, limb.bits@[i], row)));
    }
    assert(has_bits::<F>(limb, grid, row));
    law_tag_and_id_unchanged::<F>(limb, grid, row);
    law_first_access::<F>(limb, grid, row);
    lemma_bit::<F>(q.not_first_access.eval(grid, row));
    assert forall|i: int| 0 <= i < 5 implies (off::<F>(#[trigger] bit_at(limb, i, grid, row))
        <==> !on::<F>(bit_at(limb, i, grid, row))) by {
        lemma_bit::<F>(bit_at(limb, i, grid, row));
    }
}

/// The values of these queries on any row, whatever its cells hold.
pub proof fn law_values_of_limb_queries<F: Field, C, Q, const QUICK_CHECK: bool>(
    meta: &mut VirtualCells,
    c: StateConfig<F, C, QUICK_CHECK>,
    chips: AllChipQueries<F, C, Q>,
    q: Queries<F, Q>,
    grid: Grid,
    row: int,
)
    requires
        call_ensures(queries::<F, C, Q, QUICK_CHECK>, (meta, &c, chips), q),
    ensures
        ({
            let bits = c.lexicographic_ordering.first_different_limb.bits@;
            let bit = |i: int| advice_at(grid, bits[i], row);
            let low = bit(3) + bit(4);
            &&& q.is_tag_and_id_unchanged.eval(grid, row) == 4 * (bit(0) + bit(1) + bit(2)) + low
                * (1 - low)
            &&& q.first_access.eval(grid, row) == 4 - bit(0) - bit(1) - bit(2) - bit(3)
            &&& q.not_first_access.eval(grid, row) == bit(0) * bit(1) * bit(2) * bit(3)
        }),
{
    F::lemma_element(4);
    F::lemma_element(1);
    lemma_small_mod(4, F::order());
    lemma_small_mod(1, F::order());
    reveal_with_fuel(Expression::eval, 6);
}

/// The cells that the queries take are added to those before, in order: bits of the first different
/// limb and the two selectors, then the counter, the write flag, the tag with its bits, the id with
/// bits of the limb, the address, the field tag, the storage key, the values, the lookup tables,
/// and bits of the limb twice over. The cells of each chip stay together.
pub proof fn law_queries_take_their_cells<F: Field, C, Q, const QUICK_CHECK: bool>(
    meta: &mut VirtualCells,
    c: StateConfig<F, C, QUICK_CHECK>,
    chips: AllChipQueries<F, C, Q>,
    q: Queries<F, Q>,
)
    requires
        call_ensures(queries::<F, C, Q, QUICK_CHECK>, (meta, &c, chips), q),
    ensures
        ({
            let before = old(meta).queried@;
            let after = final(meta).queried@;
            let limb = c.lexicographic_ordering.first_different_limb.bits@;
            let n = before.len() as int;
            let rw_counter = n + 4;
            let tag = rw_counter + chips.rw_counter.cells@.len() + 1;
            let id = tag + chips.tag.cells@.len() + 4;
            let address = id + chips.id.cells@.len() + 3;
            let storage_key = address + chips.address.cells@.len() + 1;
            let lookups = storage_key + chips.storage_key.cells@.len() + 4;
            let end = lookups + chips.lookups.cells@.len();
            &&& after.len() == end + 8
            &&& after.take(n) == before
            &&& after.subrange(rw_counter, tag - 1) == chips.rw_counter.cells@
            &&& after.subrange(tag, id - 4) == chips.tag.cells@
            &&& after.subrange(id, address - 3) == chips.id.cells@
            &&& after.subrange(address, storage_key - 1) == chips.address.cells@
            &&& after.subrange(storage_key, lookups - 4) == chips.storage_key.cells@
            &&& after.subrange(lookups, end) == chips.lookups.cells@
            &&& takes_advice(after[n], limb[3], 0)
            &&& takes_advice(after[n + 1], limb[4], 0)
            &&& takes_fixed(after[n + 2], c.selector)
            &&& takes_fixed(after[n + 3], c.lexicographic_ordering.selector)
            &&& takes_advice(after[tag - 1], c.is_write, 0)
            &&& forall|i: int|
                0 <= i < 4 ==> takes_advice(
                    #[trigger] after[id - 4 + i],
                    c.sort_keys.tag.bits@[i],
                    0,
                )
            &&& forall|i: int| 0 <= i < 3 ==> takes_advice(
                #[trigger] after[address - 3 + i],
                limb[i],
                0,
            )
            &&& takes_advice(after[storage_key - 1], c.sort_keys.field_tag, 0)
            &&& takes_advice(after[lookups - 4], c.value, 0)
            &&& takes_advice(after[lookups - 3], c.value, -1)
            &&& takes_advice(after[lookups - 2], c.initial_value, 0)
            &&& takes_advice(after[lookups - 1], c.initial_value, -1)
            &&& forall|i: int| 0 <= i < 4 ==> takes_advice(#[trigger] after[end + i], limb[i], 0)
            &&& forall|i: int| 0 <= i < 4 ==> takes_advice(
                #[trigger] after[end + 4 + i],
                limb[i],
                0,
            )
        }),
{
}

/// `cell` is that of an advice column at a distance.
pub open spec fn takes_advice(cell: Cell, column: Column<Advice>, rotation: int) -> bool {
    cell.column == AnyColumn::Advice(column) && cell.rotation.0 == rotation
}

/// `cell` is that of a fixed column on the current row.
pub open spec fn takes_fixed(cell: Cell, column: Column<Fixed>) -> bool {
    cell.column == AnyColumn::Fixed(column) && cell.rotation.0 == 0
}

/// What is assigned to a row is what the constraints read of it: the queries of a column read the
/// column that the assignments of the same name go to, and the queries of a chip are made by the
/// chip that makes the assignments.
pub proof fn law_queries_read_what_is_assigned<F: Field, C: Copy, Q, const QUICK_CHECK: bool>(
    meta: &mut VirtualCells,
    c: StateConfig<F, C, QUICK_CHECK>,
    chips: AllChipQueries<F, C, Q>,
    q: Queries<F, Q>,
    assignment: Assignment<F>,
    target: Target<C>,
    grid: Grid,
    row: int,
)
    requires
        call_ensures(queries::<F, C, Q, QUICK_CHECK>, (meta, &c, chips), q),
        call_ensures(
            StateConfig::<F, C, QUICK_CHECK>::target,
            (&c, &assignment),
            target,
        ),
    ensures
        match assignment {
            Assignment::Selector { .. } => target matches Target::Fixed(column)
                && q.selector.eval(grid, row) == fixed_at(grid, column, row),
            Assignment::RwCounter { .. } => target == Target::Chip(chips.rw_counter.chip),
            Assignment::IsWrite { .. } => target matches Target::Advice(column)
                && q.is_write.eval(grid, row) == advice_at(grid, column, row),
            Assignment::Tag { .. } => target == Target::<C>::BinaryNumber(chips.tag.chip),
            Assignment::Id { .. } => target == Target::Chip(chips.id.chip),
            Assignment::Address { .. } => target == Target::Chip(chips.address.chip),
            Assignment::FieldTag { .. } => target matches Target::Advice(column)
                && q.field_tag.eval(grid, row) == advice_at(grid, column, row),
            Assignment::StorageKey { .. } => target == Target::Chip(chips.storage_key.chip),
            Assignment::Value { .. } => target matches Target::Advice(column)
                && q.value.eval(grid, row) == advice_at(grid, column, row)
                && q.value_prev.eval(grid, row) == advice_at(grid, column, row - 1),
            Assignment::InitialValue { .. } => target matches Target::Advice(column)
                && q.initial_value.eval(grid, row) == advice_at(grid, column, row)
                && q.initial_value_prev.eval(grid, row) == advice_at(grid, column, row - 1),
        },
{
}

/// Each chip is asked by its own handle for what it queries, and the tag for its value on the
/// current row; what they give is passed on.
pub proof fn law_chips_query_by_their_handles<
    F,
    C: Copy,
    Q,
    G: Fn(C) -> (Q, Vec<Cell>),
    T: Fn(BinaryNumberConfig<4>, Rotation) -> (Expression<F>, Vec<Cell>),
    const QUICK_CHECK: bool,
>(
    c: StateConfig<F, C, QUICK_CHECK>,
    query: G,
    query_tag: T,
    r: AllChipQueries<F, C, Q>,
)
    requires
        call_ensures(query_chips::<F, C, Q, G, T, QUICK_CHECK>, (&c, query, query_tag), r),
    ensures
        r.rw_counter.chip == c.sort_keys.rw_counter,
        r.tag.chip == c.sort_keys.tag,
        r.id.chip == c.sort_keys.id,
        r.address.chip == c.sort_keys.address,
        r.storage_key.chip == c.sort_keys.storage_key,
        r.lookups.chip == c.lookups,
        call_ensures(query, (r.rw_counter.chip,), (r.rw_counter.queries, r.rw_counter.cells)),
        call_ensures(query, (r.id.chip,), (r.id.queries, r.id.cells)),
        call_ensures(query, (r.address.chip,), (r.address.queries, r.address.cells)),
        call_ensures(query, (r.storage_key.chip,), (r.storage_key.queries, r.storage_key.cells)),
        call_ensures(query, (r.lookups.chip,), (r.lookups.queries, r.lookups.cells)),
        call_ensures(query_tag, (r.tag.chip, Rotation(0)), (r.tag.queries, r.tag.cells)),
{
}

/// The constraints are built from the queries, and what was built is put under the expression that
/// reads the selector of the configuration.
pub proof fn law_gate_is_under_the_selector<
    F: Field,
    C,
    Q,
    B,
    G: Fn(&Queries<F, Q>) -> B,
    H: Fn(&B, Expression<F>) -> Vec<Constraint<F>>,
    const QUICK_CHECK: bool,
>(
    meta: &mut VirtualCells,
    c: StateConfig<F, C, QUICK_CHECK>,
    chips: AllChipQueries<F, C, Q>,
    q: Queries<F, Q>,
    build: G,
    gate: H,
    r: (B, Vec<Constraint<F>>),
)
    requires
        call_ensures(queries::<F, C, Q, QUICK_CHECK>, (meta, &c, chips), q),
        call_ensures(build_gate::<F, Q, B, G, H>, (&q, build, gate), r),
    ensures
        call_ensures(build, (&q,), r.0),
        exists|selector: Expression<F>|
            {
                &&& call_ensures(gate, (&r.0, selector), r.1)
                &&& forall|grid: Grid, row: int| #[trigger]
                    selector.eval(grid, row) == fixed_at(grid, c.selector, row)
            },
{
    let selector = q.selector;
    assert(call_ensures(gate, (&r.0, selector), r.1));
    assert forall|grid: Grid, row: int| #[trigger] selector.eval(grid, row) == fixed_at(
        grid,
        c.selector,
        row,
    ) by {}
}

/// A copy of a configuration has the same parts.
pub proof fn law_config_is_copied<F: Field, C: Copy, const QUICK_CHECK: bool>(
    c: StateConfig<F, C, QUICK_CHECK>,
    copy: StateConfig<F, C, QUICK_CHECK>,
)
    requires
        call_ensures(StateConfig::<F, C, QUICK_CHECK>::clone, (&c,), copy),
    ensures
        copy == (StateConfig { power_of_randomness: copy.power_of_randomness, ..c }),
        copy.power_of_randomness@ == c.power_of_randomness@,
{
}

} // verus!
