//! The expressions that the constraints of the state circuit are built from.
use crate::congruence::{
    congruent, is_bit, lemma_bit, lemma_congruent_operations, lemma_congruent_symmetric,
    lemma_congruent_transitive, lemma_small_off, off, on,
};
use crate::constraint_system::{Constraint, VirtualCells};
use crate::expression::{
    advice_cell, fixed_cell, read_advice, read_fixed, Advice, AnyColumn, Cell, Column, Expression,
    Grid, Rotation,
};
use crate::field::Field;
use crate::state_circuit::config::{configs_agree, BinaryNumberConfig, StateConfig};
use vstd::arithmetic::div_mod::lemma_small_mod;
use vstd::prelude::*;

verus! {

/// What a chip queries: the expressions that it makes, and the cells that they take. The chip goes
/// by the handle `chip`.
#[derive(Debug)]
pub struct ChipQueries<C, Q> {
    pub chip: C,
    pub queries: Q,
    pub cells: Vec<Cell>,
}

/// What the chips of the sort keys and of the lookup tables query.
#[derive(Debug)]
pub struct AllChipQueries<F, C, Q> {
    pub rw_counter: ChipQueries<C, Q>,
    /// The value of the tag.
    pub tag: ChipQueries<BinaryNumberConfig<4>, Expression<F>>,
    pub id: ChipQueries<C, Q>,
    pub address: ChipQueries<C, Q>,
    pub storage_key: ChipQueries<C, Q>,
    pub lookups: ChipQueries<C, Q>,
}

impl<F, C, Q> AllChipQueries<F, C, Q> {
    /// Each query is made by the chip that has its place in `c`.
    pub open spec fn are_of<const QUICK_CHECK: bool>(
        self,
        c: StateConfig<F, C, QUICK_CHECK>,
    ) -> bool {
        &&& self.rw_counter.chip == c.sort_keys.rw_counter
        &&& self.tag.chip == c.sort_keys.tag
        &&& self.id.chip == c.sort_keys.id
        &&& self.address.chip == c.sort_keys.address
        &&& self.storage_key.chip == c.sort_keys.storage_key
        &&& self.lookups.chip == c.lookups
    }
}

/// The expressions that the constraints are built from; `Q` is what a chip queries.
#[derive(Debug)]
pub struct Queries<F, Q> {
    pub selector: Expression<F>,
    pub lexicographic_ordering_selector: Expression<F>,
    pub rw_counter: Q,
    pub is_write: Expression<F>,
    pub tag: Expression<F>,
    pub tag_bits: [Expression<F>; 4],
    pub id: Q,
    /// Not binary: 0 only if the most significant three bits of the first different limb are all 0
    /// and at most one of the other two bits is 1.
    pub is_tag_and_id_unchanged: Expression<F>,
    pub address: Q,
    pub field_tag: Expression<F>,
    pub storage_key: Q,
    pub value: Expression<F>,
    pub value_prev: Expression<F>,
    pub initial_value: Expression<F>,
    pub initial_value_prev: Expression<F>,
    pub lookups: Q,
    pub power_of_randomness: Vec<Expression<F>>,
    /// Not binary: 0 only if the most significant four bits of the first different limb are all 1.
    pub first_access: Expression<F>,
    /// 1 if the first different limb is in the read/write counter, else 0: that is, if any of the
    /// four most significant bits is 0.
    pub not_first_access: Expression<F>,
}

/// The bit `i` of the first different limb, on the current row.
pub open spec fn limb_bit<F>(limb: BinaryNumberConfig<5>, i: int) -> Expression<F> {
    read_advice(limb.bits@[i], 0)
}

/// Four times the sum of the three most significant bits, plus `s * (1 - s)` for the sum `s` of
/// the other two.
pub open spec fn tag_and_id_unchanged<F: Field>(limb: BinaryNumberConfig<5>) -> Expression<F> {
    let high_bits_sum = limb_bit(limb, 0) + limb_bit(limb, 1) + limb_bit(limb, 2);
    let final_bits_sum = limb_bit(limb, 3) + limb_bit(limb, 4);
    Expression::Constant(F::element(4)) * high_bits_sum + final_bits_sum * (Expression::Constant(
        F::element(1),
    ) - final_bits_sum)
}

/// Four minus the four most significant bits.
pub open spec fn first_access<F: Field>(limb: BinaryNumberConfig<5>) -> Expression<F> {
    Expression::Constant(F::element(4)) - limb_bit(limb, 0) - limb_bit(limb, 1) - limb_bit(limb, 2)
        - limb_bit(limb, 3)
}

/// The product of the four most significant bits.
pub open spec fn not_first_access<F>(limb: BinaryNumberConfig<5>) -> Expression<F> {
    limb_bit::<F>(limb, 0) * limb_bit(limb, 1) * limb_bit(limb, 2) * limb_bit(limb, 3)
}

/// `queries` are those of the circuit configured as `c`, with what the chips query.
pub open spec fn is_queries<F: Field, C, Q, const QUICK_CHECK: bool>(
    queries: Queries<F, Q>,
    c: StateConfig<F, C, QUICK_CHECK>,
    chips: AllChipQueries<F, C, Q>,
) -> bool {
    let limb = c.lexicographic_ordering.first_different_limb;
    &&& chips.are_of(c)
    &&& queries.selector == read_fixed::<F>(c.selector, 0)
    &&& queries.lexicographic_ordering_selector == read_fixed::<F>(
        c.lexicographic_ordering.selector,
        0,
    )
    &&& queries.rw_counter == chips.rw_counter.queries
    &&& queries.is_write == read_advice::<F>(c.is_write, 0)
    &&& queries.tag == chips.tag.queries
    &&& queries.tag_bits@ == c.sort_keys.tag.bits@.map_values(
        |bit: Column<Advice>| read_advice::<F>(bit, 0),
    )
    &&& queries.id == chips.id.queries
    &&& queries.is_tag_and_id_unchanged == tag_and_id_unchanged::<F>(limb)
    &&& queries.address == chips.address.queries
    &&& queries.field_tag == read_advice::<F>(c.sort_keys.field_tag, 0)
    &&& queries.storage_key == chips.storage_key.queries
    &&& queries.value == read_advice::<F>(c.value, 0)
    &&& queries.value_prev == read_advice::<F>(c.value, -1)
    &&& queries.initial_value == read_advice::<F>(c.initial_value, 0)
    &&& queries.initial_value_prev == read_advice::<F>(c.initial_value, -1)
    &&& queries.lookups == chips.lookups.queries
    &&& queries.power_of_randomness@ == c.power_of_randomness@
    &&& queries.first_access == first_access::<F>(limb)
    &&& queries.not_first_access == not_first_access::<F>(limb)
}

/// The cells that the queries take, in order.
pub open spec fn queried_cells<F, C, Q, const QUICK_CHECK: bool>(
    c: StateConfig<F, C, QUICK_CHECK>,
    chips: AllChipQueries<F, C, Q>,
) -> Seq<Cell> {
    let bit = |i: int| advice_cell(c.lexicographic_ordering.first_different_limb.bits@[i], 0);
    let tag_bit = |i: int| advice_cell(c.sort_keys.tag.bits@[i], 0);
    seq![
        bit(3),
        bit(4),
        fixed_cell(c.selector, 0),
        fixed_cell(c.lexicographic_ordering.selector, 0),
    ] + chips.rw_counter.cells@ + seq![advice_cell(c.is_write, 0)] + chips.tag.cells@ + seq![
        tag_bit(0),
        tag_bit(1),
        tag_bit(2),
        tag_bit(3),
    ] + chips.id.cells@ + seq![bit(0), bit(1), bit(2)] + chips.address.cells@ + seq![
        advice_cell(c.sort_keys.field_tag, 0),
    ] + chips.storage_key.cells@ + seq![
        advice_cell(c.value, 0),
        advice_cell(c.value, -1),
        advice_cell(c.initial_value, 0),
        advice_cell(c.initial_value, -1),
    ] + chips.lookups.cells@ + seq![
        bit(0),
        bit(1),
        bit(2),
        bit(3),
        bit(0),
        bit(1),
        bit(2),
        bit(3),
    ]
}

/// Has the chips of the circuit configured as `c` make their queries, each by its own handle:
/// `query` gives what a chip queries and the cells for it, `query_tag` gives this for the value of
/// the tag at a rotation, which is the current row.
pub fn query_chips<
    F,
    C: Copy,
    Q,
    G: Fn(C) -> (Q, Vec<Cell>),
    T: Fn(BinaryNumberConfig<4>, Rotation) -> (Expression<F>, Vec<Cell>),
    const QUICK_CHECK: bool,
>(
    c: &StateConfig<F, C, QUICK_CHECK>,
    query: G,
    query_tag: T,
) -> (r: AllChipQueries<F, C, Q>)
    requires
        forall|chip: C| call_requires(query, (chip,)),
        call_requires(query_tag, (c.sort_keys.tag, Rotation(0))),
    ensures
        r.are_of(*c),
        call_ensures(
            query,
            (c.sort_keys.rw_counter,),
            (r.rw_counter.queries, r.rw_counter.cells),
        ),
        call_ensures(
            query_tag,
            (c.sort_keys.tag, Rotation(0)),
            (r.tag.queries, r.tag.cells),
        ),
        call_ensures(query, (c.sort_keys.id,), (r.id.queries, r.id.cells)),
        call_ensures(query, (c.sort_keys.address,), (r.address.queries, r.address.cells)),
        call_ensures(
            query,
            (c.sort_keys.storage_key,),
            (r.storage_key.queries, r.storage_key.cells),
        ),
        call_ensures(query, (c.lookups,), (r.lookups.queries, r.lookups.cells)),
{
    let (queries, cells) = query(c.sort_keys.rw_counter);
    let rw_counter = ChipQueries { chip: c.sort_keys.rw_counter, queries, cells };
    let (queries, cells) = query_tag(c.sort_keys.tag, Rotation::cur());
    let tag = ChipQueries { chip: c.sort_keys.tag, queries, cells };
    let (queries, cells) = query(c.sort_keys.id);
    let id = ChipQueries { chip: c.sort_keys.id, queries, cells };
    let (queries, cells) = query(c.sort_keys.address);
    let address = ChipQueries { chip: c.sort_keys.address, queries, cells };
    let (queries, cells) = query(c.sort_keys.storage_key);
    let storage_key = ChipQueries { chip: c.sort_keys.storage_key, queries, cells };
    let (queries, cells) = query(c.lookups);
    let lookups = ChipQueries { chip: c.lookups, queries, cells };
    AllChipQueries { rw_counter, tag, id, address, storage_key, lookups }
}

/// Makes the queries of the circuit configured as `c`, with what its chips query.
pub fn queries<F: Field, C, Q, const QUICK_CHECK: bool>(
    meta: &mut VirtualCells,
    c: &StateConfig<F, C, QUICK_CHECK>,
    chips: AllChipQueries<F, C, Q>,
) -> (r: Queries<F, Q>)
    requires
        chips.are_of(*c),
    ensures
        is_queries(r, *c, chips),
        r.power_of_randomness@ == c.power_of_randomness@,
        final(meta).queried@ == old(meta).queried@ + queried_cells(*c, chips),
{
    let limb: BinaryNumberConfig<5> = c.lexicographic_ordering.first_different_limb;
    let bit3: Expression<F> = meta.query_advice(limb.bits[3], Rotation::cur());
    let bit4: Expression<F> = meta.query_advice(limb.bits[4], Rotation::cur());
    let final_bits_sum: Expression<F> = bit3 + bit4;

    let selector: Expression<F> = meta.query_fixed(c.selector, Rotation::cur());
    let lexicographic_ordering_selector: Expression<F> = meta.query_fixed(
        c.lexicographic_ordering.selector,
        Rotation::cur(),
    );
    meta.record(chips.rw_counter.cells);
    let is_write: Expression<F> = meta.query_advice(c.is_write, Rotation::cur());
    meta.record(chips.tag.cells);
    let tag_bits: [Expression<F>; 4] = [
        meta.query_advice(c.sort_keys.tag.bits[0], Rotation::cur()),
        meta.query_advice(c.sort_keys.tag.bits[1], Rotation::cur()),
        meta.query_advice(c.sort_keys.tag.bits[2], Rotation::cur()),
        meta.query_advice(c.sort_keys.tag.bits[3], Rotation::cur()),
    ];
    assert(tag_bits@ =~= c.sort_keys.tag.bits@.map_values(
        |bit: Column<Advice>| read_advice::<F>(bit, 0),
    ));
    meta.record(chips.id.cells);
    let bit0: Expression<F> = meta.query_advice(limb.bits[0], Rotation::cur());
    let bit1: Expression<F> = meta.query_advice(limb.bits[1], Rotation::cur());
    let bit2: Expression<F> = meta.query_advice(limb.bits[2], Rotation::cur());
    let is_tag_and_id_unchanged: Expression<F> = Expression::Constant(F::from_u64(4)) * (bit0
        + bit1 + bit2) + final_bits_sum.clone() * (Expression::Constant(F::from_u64(1))
        - final_bits_sum);
    meta.record(chips.address.cells);
    let field_tag: Expression<F> = meta.query_advice(c.sort_keys.field_tag, Rotation::cur());
    meta.record(chips.storage_key.cells);
    let value: Expression<F> = meta.query_advice(c.value, Rotation::cur());
    let value_prev: Expression<F> = meta.query_advice(c.value, Rotation::prev());
    let initial_value: Expression<F> = meta.query_advice(c.initial_value, Rotation::cur());
    let initial_value_prev: Expression<F> = meta.query_advice(c.initial_value, Rotation::prev());
    meta.record(chips.lookups.cells);
    let power_of_randomness: Vec<Expression<F>> = c.power_of_randomness.clone();
    assert(power_of_randomness@ =~= c.power_of_randomness@);

    let bit0: Expression<F> = meta.query_advice(limb.bits[0], Rotation::cur());
    let bit1: Expression<F> = meta.query_advice(limb.bits[1], Rotation::cur());
    let bit2: Expression<F> = meta.query_advice(limb.bits[2], Rotation::cur());
    let bit3: Expression<F> = meta.query_advice(limb.bits[3], Rotation::cur());
    let first_access: Expression<F> = Expression::Constant(F::from_u64(4)) - bit0 - bit1 - bit2
        - bit3;

    let bit0: Expression<F> = meta.query_advice(limb.bits[0], Rotation::cur());
    let bit1: Expression<F> = meta.query_advice(limb.bits[1], Rotation::cur());
    let bit2: Expression<F> = meta.query_advice(limb.bits[2], Rotation::cur());
    let bit3: Expression<F> = meta.query_advice(limb.bits[3], Rotation::cur());
    let not_first_access: Expression<F> = bit0 * bit1 * bit2 * bit3;

    Queries {
        selector,
        lexicographic_ordering_selector,
        rw_counter: chips.rw_counter.queries,
        is_write,
        tag: chips.tag.queries,
        tag_bits,
        id: chips.id.queries,
        is_tag_and_id_unchanged,
        address: chips.address.queries,
        field_tag,
        storage_key: chips.storage_key.queries,
        value,
        value_prev,
        initial_value,
        initial_value_prev,
        lookups: chips.lookups.queries,
        power_of_randomness,
        first_access,
        not_first_access,
    }
}

/// Builds the constraints from the queries, and conditions them on the selector: `build` makes a
/// builder from the queries, and `gate` gives the constraints of a builder under a selector. The
/// builder comes back with the constraints.
pub fn build_gate<
    F: Field,
    Q,
    B,
    G: Fn(&Queries<F, Q>) -> B,
    H: Fn(&B, Expression<F>) -> Vec<Constraint<F>>,
>(
    queries: &Queries<F, Q>,
    build: G,
    gate: H,
) -> (r: (B, Vec<Constraint<F>>))
    requires
        call_requires(build, (queries,)),
        forall|builder: B| #[trigger]
            call_ensures(build, (queries,), builder) ==> call_requires(
                gate,
                (&builder, queries.selector),
            ),
    ensures
        call_ensures(build, (queries,), r.0),
        call_ensures(gate, (&r.0, queries.selector), r.1),
{
    let builder: B = build(queries);
    let constraints: Vec<Constraint<F>> = gate(&builder, queries.selector.clone());
    (builder, constraints)
}

/// The queries of the full circuit and of the light one are the same, over configurations that
/// agree and with the same queries of the chips: the constraints are built from one and the same
/// thing, and the same cells are queried.
pub proof fn law_light_and_full_query_alike<F: Field, C, Q>(
    full: Queries<F, Q>,
    light: Queries<F, Q>,
    full_config: StateConfig<F, C, false>,
    light_config: StateConfig<F, C, true>,
    chips: AllChipQueries<F, C, Q>,
)
    requires
        is_queries(full, full_config, chips),
        is_queries(light, light_config, chips),
        configs_agree(full_config, light_config),
    ensures
        queried_cells(full_config, chips) == queried_cells(light_config, chips),
        light == (Queries {
            tag_bits: light.tag_bits,
            power_of_randomness: light.power_of_randomness,
            ..full
        }),
        light.tag_bits@ == full.tag_bits@,
        light.power_of_randomness@ == full.power_of_randomness@,
{
}

/// The value of the bit `i` of a binary number on a row.
pub open spec fn bit_at<const N: usize>(
    number: BinaryNumberConfig<N>,
    i: int,
    grid: Grid,
    row: int,
) -> int {
    grid(AnyColumn::Advice(number.bits@[i]), row)
}

/// The integer that a bit stands for.
pub open spec fn bit_value<F: Field>(v: int) -> int {
    if on::<F>(v) {
        1
    } else {
        0
    }
}

/// The five bits of the first different limb are bits.
pub open spec fn has_bits<F: Field>(limb: BinaryNumberConfig<5>, grid: Grid, row: int) -> bool {
    forall|i: int| 0 <= i < 5 ==> is_bit::<F>(#[trigger] bit_at(limb, i, grid, row))
}

/// The number that the bits of the first different limb write, the most significant bit first.
pub open spec fn limb_index<F: Field>(limb: BinaryNumberConfig<5>, grid: Grid, row: int) -> int {
    16 * bit_value::<F>(bit_at(limb, 0, grid, row)) + 8 * bit_value::<F>(
        bit_at(limb, 1, grid, row),
    ) + 4 * bit_value::<F>(bit_at(limb, 2, grid, row)) + 2 * bit_value::<F>(
        bit_at(limb, 3, grid, row),
    ) + bit_value::<F>(bit_at(limb, 4, grid, row))
}

/// `is_tag_and_id_unchanged` is 0 exactly if the three most significant bits of the first different
/// limb are 0 and at most one of the others is 1: its index is 0, 1 or 2.
pub proof fn law_tag_and_id_unchanged<F: Field>(
    limb: BinaryNumberConfig<5>,
    grid: Grid,
    row: int,
)
    requires
        has_bits::<F>(limb, grid, row),
    ensures
        tag_and_id_unchanged::<F>(limb).vanishes(grid, row) <==> {
            &&& off::<F>(bit_at(limb, 0, grid, row))
            &&& off::<F>(bit_at(limb, 1, grid, row))
            &&& off::<F>(bit_at(limb, 2, grid, row))
            &&& !(on::<F>(bit_at(limb, 3, grid, row)) && on::<F>(bit_at(limb, 4, grid, row)))
        },
        tag_and_id_unchanged::<F>(limb).vanishes(grid, row) <==> limb_index::<F>(limb, grid, row)
            <= 2,
{
    let (b0, b1) = (bit_at(limb, 0, grid, row), bit_at(limb, 1, grid, row));
    let (b2, b3) = (bit_at(limb, 2, grid, row), bit_at(limb, 3, grid, row));
    let b4 = bit_at(limb, 4, grid, row);
    let (v0, v1, v2) = (bit_value::<F>(b0), bit_value::<F>(b1), bit_value::<F>(b2));
    let (v3, v4) = (bit_value::<F>(b3), bit_value::<F>(b4));
    lemma_bit_value::<F>(b0);
    lemma_bit_value::<F>(b1);
    lemma_bit_value::<F>(b2);
    lemma_bit_value::<F>(b3);
    lemma_bit_value::<F>(b4);
    lemma_constant::<F>(4);
    lemma_constant::<F>(1);
    lemma_small_off::<F>(0);
    lemma_congruent_operations::<F>(b0, v0, b1, v1);
    lemma_congruent_operations::<F>(b0 + b1, v0 + v1, b2, v2);
    lemma_congruent_operations::<F>(4, 4, b0 + b1 + b2, v0 + v1 + v2);
    lemma_congruent_operations::<F>(b3, v3, b4, v4);
    lemma_congruent_operations::<F>(1, 1, b3 + b4, v3 + v4);
    lemma_congruent_operations::<F>(b3 + b4, v3 + v4, 1 - (b3 + b4), 1 - (v3 + v4));
    let high = 4 * (b0 + b1 + b2);
    let low = (b3 + b4) * (1 - (b3 + b4));
    let value = 4 * (v0 + v1 + v2) + (v3 + v4) * (1 - (v3 + v4));
    lemma_congruent_operations::<F>(
        high,
        4 * (v0 + v1 + v2),
        low,
        (v3 + v4) * (1 - (v3 + v4)),
    );
    reveal_with_fuel(Expression::eval, 6);
    assert(tag_and_id_unchanged::<F>(limb).eval(grid, row) == high + low);
    lemma_off_congruent::<F>(high + low, value);
    lemma_small_off::<F>(value);
}

/// `first_access` is 0 exactly if the four most significant bits of the first different limb are
/// all 1, that is, if its index is 30 or 31; `not_first_access` is 1 on these rows and 0 on the
/// others.
pub proof fn law_first_access<F: Field>(limb: BinaryNumberConfig<5>, grid: Grid, row: int)
    requires
        has_bits::<F>(limb, grid, row),
    ensures
        first_access::<F>(limb).vanishes(grid, row) <==> {
            &&& on::<F>(bit_at(limb, 0, grid, row))
            &&& on::<F>(bit_at(limb, 1, grid, row))
            &&& on::<F>(bit_at(limb, 2, grid, row))
            &&& on::<F>(bit_at(limb, 3, grid, row))
        },
        first_access::<F>(limb).vanishes(grid, row) <==> limb_index::<F>(limb, grid, row) >= 30,
        first_access::<F>(limb).vanishes(grid, row) <==> on::<F>(
            not_first_access::<F>(limb).eval(grid, row),
        ),
        is_bit::<F>(not_first_access::<F>(limb).eval(grid, row)),
{
    let (b0, b1) = (bit_at(limb, 0, grid, row), bit_at(limb, 1, grid, row));
    let (b2, b3) = (bit_at(limb, 2, grid, row), bit_at(limb, 3, grid, row));
    let (v0, v1) = (bit_value::<F>(b0), bit_value::<F>(b1));
    let (v2, v3) = (bit_value::<F>(b2), bit_value::<F>(b3));
    assert(is_bit::<F>(bit_at(limb, 4, grid, row)));
    lemma_bit_value::<F>(b0);
    lemma_bit_value::<F>(b1);
    lemma_bit_value::<F>(b2);
    lemma_bit_value::<F>(b3);
    lemma_constant::<F>(4);
    lemma_small_off::<F>(0);
    lemma_congruent_operations::<F>(4, 4, b0, v0);
    lemma_congruent_operations::<F>(4 - b0, 4 - v0, b1, v1);
    lemma_congruent_operations::<F>(4 - b0 - b1, 4 - v0 - v1, b2, v2);
    lemma_congruent_operations::<F>(4 - b0 - b1 - b2, 4 - v0 - v1 - v2, b3, v3);
    lemma_congruent_operations::<F>(b0, v0, b1, v1);
    lemma_congruent_operations::<F>(b0 * b1, v0 * v1, b2, v2);
    lemma_congruent_operations::<F>(b0 * b1 * b2, v0 * v1 * v2, b3, v3);
    reveal_with_fuel(Expression::eval, 6);
    assert(first_access::<F>(limb).eval(grid, row) == 4 - b0 - b1 - b2 - b3);
    assert(not_first_access::<F>(limb).eval(grid, row) == b0 * b1 * b2 * b3);
    lemma_off_congruent::<F>(4 - b0 - b1 - b2 - b3, 4 - v0 - v1 - v2 - v3);
    lemma_small_off::<F>(4 - v0 - v1 - v2 - v3);
    let product = v0 * v1 * v2 * v3;
    lemma_off_congruent::<F>(b0 * b1 * b2 * b3, product);
    lemma_small_off::<F>(product);
}

/// Every cell that the circuit's own expressions read has been queried, and so has every cell that
/// the tag reads if its chip has queried what it reads.
pub proof fn law_queries_read_queried_cells<F: Field, C, Q, const QUICK_CHECK: bool>(
    queries: Queries<F, Q>,
    c: StateConfig<F, C, QUICK_CHECK>,
    chips: AllChipQueries<F, C, Q>,
)
    requires
        is_queries(queries, c, chips),
    ensures
        ({
            let cells = queried_cells(c, chips);
            &&& queries.selector.reads_only(cells)
            &&& queries.lexicographic_ordering_selector.reads_only(cells)
            &&& queries.is_write.reads_only(cells)
            &&& chips.tag.queries.reads_only(chips.tag.cells@) ==> queries.tag.reads_only(cells)
            &&& forall|i: int| 0 <= i < 4 ==> (#[trigger] queries.tag_bits@[i]).reads_only(cells)
            &&& queries.is_tag_and_id_unchanged.reads_only(cells)
            &&& queries.field_tag.reads_only(cells)
            &&& queries.value.reads_only(cells)
            &&& queries.value_prev.reads_only(cells)
            &&& queries.initial_value.reads_only(cells)
            &&& queries.initial_value_prev.reads_only(cells)
            &&& queries.first_access.reads_only(cells)
            &&& queries.not_first_access.reads_only(cells)
        }),
{
    let cells = queried_cells(c, chips);
    let bits = c.lexicographic_ordering.first_different_limb.bits@;
    let tag_bits = c.sort_keys.tag.bits@;
    let rw_counter = 4int;
    let is_write = rw_counter + chips.rw_counter.cells@.len();
    let tag = is_write + 1;
    let tag_bit = tag + chips.tag.cells@.len();
    let id = tag_bit + 4;
    let bit = id + chips.id.cells@.len();
    let address = bit + 3;
    let field_tag = address + chips.address.cells@.len();
    let value = field_tag + 1 + chips.storage_key.cells@.len();
    assert(cells[0] == advice_cell(bits[3], 0));
    assert(cells[1] == advice_cell(bits[4], 0));
    assert(cells[2] == fixed_cell(c.selector, 0));
    assert(cells[3] == fixed_cell(c.lexicographic_ordering.selector, 0));
    assert(cells[is_write] == advice_cell(c.is_write, 0));
    assert forall|i: int| 0 <= i < 4 implies (#[trigger] queries.tag_bits@[i]).reads_only(
        cells,
    ) by {
        assert(cells[tag_bit + i] == advice_cell(tag_bits[i], 0));
    }
    assert(cells[bit] == advice_cell(bits[0], 0));
    assert(cells[bit + 1] == advice_cell(bits[1], 0));
    assert(cells[bit + 2] == advice_cell(bits[2], 0));
    assert(cells[field_tag] == advice_cell(c.sort_keys.field_tag, 0));
    assert(cells[value] == advice_cell(c.value, 0));
    assert(cells[value + 1] == advice_cell(c.value, -1));
    assert(cells[value + 2] == advice_cell(c.initial_value, 0));
    assert(cells[value + 3] == advice_cell(c.initial_value, -1));
    if chips.tag.queries.reads_only(chips.tag.cells@) {
        assert forall|cell: Cell| chips.tag.cells@.contains(cell) implies cells.contains(cell) by {
            let k = chips.tag.cells@.index_of(cell);
            assert(cells[tag + k] == cell);
        }
        lemma_reads_more(chips.tag.queries, chips.tag.cells@, cells);
    }
    reveal_with_fuel(Expression::reads_only, 8);
}

/// An expression that reads some cells reads no others than more cells.
proof fn lemma_reads_more<F>(e: Expression<F>, some: Seq<Cell>, more: Seq<Cell>)
    requires
        e.reads_only(some),
        forall|cell: Cell| #[trigger] some.contains(cell) ==> more.contains(cell),
    ensures
        e.reads_only(more),
    decreases e,
{
    match e {
        Expression::Constant(_) => {},
        Expression::Cell(_) => {},
        Expression::Negated(a) => lemma_reads_more(*a, some, more),
        Expression::Sum(a, b) => {
            lemma_reads_more(*a, some, more);
            lemma_reads_more(*b, some, more);
        },
        Expression::Product(a, b) => {
            lemma_reads_more(*a, some, more);
            lemma_reads_more(*b, some, more);
        },
    }
}

/// A bit is congruent to the integer that it stands for.
proof fn lemma_bit_value<F: Field>(v: int)
    requires
        is_bit::<F>(v),
    ensures
        congruent::<F>(v, bit_value::<F>(v)),
        off::<F>(v) <==> !on::<F>(v),
{
    lemma_bit::<F>(v);
}

/// A small constant has itself as its residue, and is congruent to itself.
proof fn lemma_constant<F: Field>(n: nat)
    requires
        n <= u64::MAX,
    ensures
        F::element(n).residue() == n,
        congruent::<F>(n as int, n as int),
{
    F::lemma_element(n);
    lemma_small_mod(n, F::order());
    lemma_small_mod(0, F::order());
}

/// What is congruent is 0 or 1 alike.
proof fn lemma_off_congruent<F: Field>(a: int, b: int)
    requires
        congruent::<F>(a, b),
    ensures
        off::<F>(a) <==> off::<F>(b),
        on::<F>(a) <==> on::<F>(b),
{
    lemma_congruent_symmetric::<F>(a, b);
    lemma_congruent_symmetric::<F>(0, b);
    lemma_congruent_symmetric::<F>(0, a);
    lemma_congruent_symmetric::<F>(1, b);
    lemma_congruent_symmetric::<F>(1, a);
    if off::<F>(b) {
        lemma_congruent_transitive::<F>(a, b, 0);
    }
    if off::<F>(a) {
        lemma_congruent_transitive::<F>(b, a, 0);
    }
    if on::<F>(b) {
        lemma_congruent_transitive::<F>(a, b, 1);
    }
    if on::<F>(a) {
        lemma_congruent_transitive::<F>(b, a, 1);
    }
}

} // verus!
