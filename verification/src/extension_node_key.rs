//! The chip that checks the key of an extension node.
//!
//! The chip adds one gate. It ties the random linear combination (RLC) of the key nibbles
//! seen so far, and the multiplier for the nibbles to come, to the rows of a branch and of
//! the extension node that leads to it. A branch takes an init row and sixteen child rows;
//! the two rows of the extension node, S and C, follow.
use crate::constraint_system::{Constraint, ConstraintSystem, Gate, VirtualCells};
use crate::expression::{
    advice_cell, fixed_cell, read_advice, read_fixed, Advice, Cell, Column, Expression, Fixed,
    Rotation,
};
use crate::field::Field;
use crate::rlc::{cells_at, compute_rlc, rlc};
use std::marker::PhantomData;
use vstd::prelude::*;

verus! {

/// From the C row of an extension node to the init row of its branch.
pub const ROT_INTO_BRANCH_INIT: i32 = -18;

/// From the S row of an extension node to the init row of its branch.
pub const ROT_S_ROW_INTO_BRANCH_INIT: i32 = -17;

/// From the C row of an extension node into the branch of the level above. Any rotation into
/// that branch would do: all branch children hold the same key RLC.
pub const ROT_INTO_PREV_BRANCH: i32 = -21;

/// Where the flags of an extension node stand in a branch init row, as positions in the
/// witness; the first `layout_offset` positions have no column among the `s_advices`.
#[derive(Clone, Copy, Debug)]
pub struct FlagPositions {
    pub layout_offset: usize,
    pub is_extension_node_pos: usize,
    pub is_extension_even_key_len_pos: usize,
    pub is_extension_odd_key_len_pos: usize,
    pub is_extension_key_short_pos: usize,
    pub is_extension_key_long_pos: usize,
}

impl FlagPositions {
    /// The witness position `pos` has one of `width` columns.
    pub open spec fn has_column(self, pos: usize, width: int) -> bool {
        self.layout_offset <= pos < self.layout_offset + width
    }

    /// Every flag has one of `width` columns.
    pub open spec fn wf(self, width: int) -> bool {
        &&& self.has_column(self.is_extension_node_pos, width)
        &&& self.has_column(self.is_extension_even_key_len_pos, width)
        &&& self.has_column(self.is_extension_odd_key_len_pos, width)
        &&& self.has_column(self.is_extension_key_short_pos, width)
        &&& self.has_column(self.is_extension_key_long_pos, width)
    }
}

/// The columns that the chip reads.
#[derive(Clone, Copy, Debug)]
pub struct KeyColumns<const HASH_WIDTH: usize> {
    pub positions: FlagPositions,
    pub q_not_first: Column<Fixed>,
    /// Keeps the key gate from rotating back out of the first branch.
    pub not_first_level: Column<Fixed>,
    pub is_branch_init: Column<Advice>,
    pub is_branch_child: Column<Advice>,
    pub is_last_branch_child: Column<Advice>,
    pub is_account_leaf_storage_codehash_c: Column<Advice>,
    pub s_advices: [Column<Advice>; HASH_WIDTH],
    /// The index of the modified node.
    pub modified_node: Column<Advice>,
    /// In a branch init row: whether the modified node takes the first nibble of a key byte.
    pub sel1: Column<Advice>,
    /// In a branch init row: whether the modified node takes the second nibble of a key byte.
    pub sel2: Column<Advice>,
    /// The RLC of the account address first, then of the storage key.
    pub key_rlc: Column<Advice>,
    pub key_rlc_mult: Column<Advice>,
}

impl<const HASH_WIDTH: usize> KeyColumns<HASH_WIDTH> {
    /// The flags have columns, and so has the first byte of the key.
    pub open spec fn wf(self) -> bool {
        &&& HASH_WIDTH >= 2
        &&& self.positions.wf(HASH_WIDTH as int)
    }

    /// The column of the flag at the witness position `pos`.
    pub open spec fn flag(self, pos: usize) -> Column<Advice> {
        self.s_advices@[pos - self.positions.layout_offset]
    }
}

/// The cells that the key gate reads, besides the bytes of the extension node's key.
pub struct KeyCells<F> {
    pub q_not_first: Expression<F>,
    pub not_first_level: Expression<F>,
    pub is_extension_node: Expression<F>,
    /// The same flag, seen from the S row.
    pub is_extension_node_s: Expression<F>,
    pub is_key_even: Expression<F>,
    pub is_key_odd: Expression<F>,
    pub is_short: Expression<F>,
    pub is_long: Expression<F>,
    pub sel1: Expression<F>,
    pub sel2: Expression<F>,
    pub is_account_leaf_storage_codehash_prev: Expression<F>,
    pub is_branch_init_prev: Expression<F>,
    pub is_branch_child_prev: Expression<F>,
    pub is_branch_child_cur: Expression<F>,
    pub modified_node_cur: Expression<F>,
    pub is_extension_s_row: Expression<F>,
    pub is_extension_c_row: Expression<F>,
    pub key_rlc_prev: Expression<F>,
    pub key_rlc_prev_level: Expression<F>,
    pub key_rlc_cur: Expression<F>,
    pub key_rlc_mult_prev: Expression<F>,
    pub key_rlc_mult_prev_level: Expression<F>,
    pub key_rlc_mult_cur: Expression<F>,
    pub key_rlc_branch: Expression<F>,
    pub key_rlc_mult_branch: Expression<F>,
    pub s_advices1: Expression<F>,
}

impl<const HASH_WIDTH: usize> KeyColumns<HASH_WIDTH> {
    /// The cells that the key gate reads on a row, seen from the C row of an extension node where
    /// nothing else is said.
    pub open spec fn key_cells<F>(self) -> KeyCells<F> {
        KeyCells {
            q_not_first: read_fixed(self.q_not_first, 0),
            not_first_level: read_fixed(self.not_first_level, 0),
            is_extension_node: read_advice(self.flag(self.positions.is_extension_node_pos), -18),
            is_extension_node_s: read_advice(self.flag(self.positions.is_extension_node_pos), -17),
            is_key_even: read_advice(self.flag(self.positions.is_extension_even_key_len_pos), -18),
            is_key_odd: read_advice(self.flag(self.positions.is_extension_odd_key_len_pos), -18),
            is_short: read_advice(self.flag(self.positions.is_extension_key_short_pos), -18),
            is_long: read_advice(self.flag(self.positions.is_extension_key_long_pos), -18),
            sel1: read_advice(self.sel1, -18),
            sel2: read_advice(self.sel2, -18),
            is_account_leaf_storage_codehash_prev: read_advice(
                self.is_account_leaf_storage_codehash_c,
                -19,
            ),
            is_branch_init_prev: read_advice(self.is_branch_init, -1),
            is_branch_child_prev: read_advice(self.is_branch_child, -1),
            is_branch_child_cur: read_advice(self.is_branch_child, 0),
            modified_node_cur: read_advice(self.modified_node, -2),
            is_extension_s_row: read_advice(self.is_last_branch_child, -1),
            is_extension_c_row: read_advice(self.is_last_branch_child, -2),
            key_rlc_prev: read_advice(self.key_rlc, -1),
            key_rlc_prev_level: read_advice(self.key_rlc, -21),
            key_rlc_cur: read_advice(self.key_rlc, 0),
            key_rlc_mult_prev: read_advice(self.key_rlc_mult, -1),
            key_rlc_mult_prev_level: read_advice(self.key_rlc_mult, -21),
            key_rlc_mult_cur: read_advice(self.key_rlc_mult, 0),
            key_rlc_branch: read_advice(self.key_rlc, -17),
            key_rlc_mult_branch: read_advice(self.key_rlc_mult, -17),
            s_advices1: read_advice(self.s_advices@[1], -1),
        }
    }

    /// The cells of [`KeyColumns::key_cells`], in the order in which they are queried.
    pub open spec fn queried_key_cells(self) -> Seq<Cell> {
        seq![
            fixed_cell(self.q_not_first, 0),
            fixed_cell(self.not_first_level, 0),
            advice_cell(self.flag(self.positions.is_extension_node_pos), -18),
            advice_cell(self.flag(self.positions.is_extension_node_pos), -17),
            advice_cell(self.flag(self.positions.is_extension_even_key_len_pos), -18),
            advice_cell(self.flag(self.positions.is_extension_odd_key_len_pos), -18),
            advice_cell(self.flag(self.positions.is_extension_key_short_pos), -18),
            advice_cell(self.flag(self.positions.is_extension_key_long_pos), -18),
            advice_cell(self.sel1, -18),
            advice_cell(self.sel2, -18),
            advice_cell(self.is_account_leaf_storage_codehash_c, -19),
            advice_cell(self.is_branch_init, -1),
            advice_cell(self.is_branch_child, -1),
            advice_cell(self.is_branch_child, 0),
            advice_cell(self.modified_node, -2),
            advice_cell(self.is_last_branch_child, -1),
            advice_cell(self.is_last_branch_child, -2),
            advice_cell(self.key_rlc, -1),
            advice_cell(self.key_rlc, -21),
            advice_cell(self.key_rlc, 0),
            advice_cell(self.key_rlc_mult, -1),
            advice_cell(self.key_rlc_mult, -21),
            advice_cell(self.key_rlc_mult, 0),
            advice_cell(self.key_rlc, -17),
            advice_cell(self.key_rlc_mult, -17),
            advice_cell(self.s_advices@[1], -1),
        ]
    }

    /// Every cell that the key gate queries: those of [`KeyColumns::key_cells`], then the bytes of
    /// the key without the first, then without the first two.
    pub open spec fn queried_cells(self) -> Seq<Cell> {
        self.queried_key_cells() + cells_at(self.s_advices@.skip(1), -1)
            + cells_at(self.s_advices@.skip(2), -1)
    }

    /// The column of the flag at the witness position `pos`.
    fn flag_column(&self, pos: usize) -> (r: Column<Advice>)
        requires
            self.positions.has_column(pos, HASH_WIDTH as int),
        ensures
            r == self.flag(pos),
    {
        self.s_advices[pos - self.positions.layout_offset]
    }

    /// The columns of the key bytes without the first `n`.
    fn skip_advices(&self, n: usize) -> (r: Vec<Column<Advice>>)
        requires
            n <= HASH_WIDTH,
        ensures
            r@ == self.s_advices@.skip(n as int),
    {
        let mut columns: Vec<Column<Advice>> = Vec::new();
        let mut i: usize = n;
        while i < HASH_WIDTH
            invariant
                n <= i <= HASH_WIDTH,
                columns@ == self.s_advices@.subrange(n as int, i as int),
            decreases HASH_WIDTH - i,
        {
            columns.push(self.s_advices[i]);
            i += 1;
        }
        columns
    }

    /// Queries the cells of [`KeyColumns::key_cells`].
    fn query_key_cells<F>(&self, meta: &mut VirtualCells) -> (r: KeyCells<F>)
        requires
            self.wf(),
        ensures
            r == self.key_cells::<F>(),
            final(meta).queried@ == old(meta).queried@ + self.queried_key_cells(),
    {
        let at: FlagPositions = self.positions;
        let cur: Rotation = Rotation::cur();
        let prev: Rotation = Rotation::prev();
        let init: Rotation = Rotation(ROT_INTO_BRANCH_INIT);
        let child: Rotation = Rotation(ROT_INTO_BRANCH_INIT + 1);
        let prev_level: Rotation = Rotation(ROT_INTO_PREV_BRANCH);
        let q_not_first: Expression<F> = meta.query_fixed(self.q_not_first, cur);
        let not_first_level: Expression<F> = meta.query_fixed(self.not_first_level, cur);
        let is_extension_node: Expression<F> = meta.query_advice(
            self.flag_column(at.is_extension_node_pos),
            init,
        );
        let is_extension_node_s: Expression<F> = meta.query_advice(
            self.flag_column(at.is_extension_node_pos),
            Rotation(ROT_S_ROW_INTO_BRANCH_INIT),
        );
        // Even and odd speak of the number of nibbles that are compactly encoded.
        let is_key_even: Expression<F> = meta.query_advice(
            self.flag_column(at.is_extension_even_key_len_pos),
            init,
        );
        let is_key_odd: Expression<F> = meta.query_advice(
            self.flag_column(at.is_extension_odd_key_len_pos),
            init,
        );
        let is_short: Expression<F> = meta.query_advice(
            self.flag_column(at.is_extension_key_short_pos),
            init,
        );
        let is_long: Expression<F> = meta.query_advice(
            self.flag_column(at.is_extension_key_long_pos),
            init,
        );
        let sel1: Expression<F> = meta.query_advice(self.sel1, init);
        let sel2: Expression<F> = meta.query_advice(self.sel2, init);
        // The row before the branch init row: in the first storage level, the code hash row of
        // the account leaf.
        let is_account_leaf_storage_codehash_prev: Expression<F> = meta.query_advice(
            self.is_account_leaf_storage_codehash_c,
            Rotation(ROT_INTO_BRANCH_INIT - 1),
        );
        let is_branch_init_prev: Expression<F> = meta.query_advice(self.is_branch_init, prev);
        let is_branch_child_prev: Expression<F> = meta.query_advice(self.is_branch_child, prev);
        let is_branch_child_cur: Expression<F> = meta.query_advice(self.is_branch_child, cur);
        // Any rotation that lands in the branch children would do.
        let modified_node_cur: Expression<F> = meta.query_advice(self.modified_node, Rotation(-2));
        let is_extension_s_row: Expression<F> = meta.query_advice(self.is_last_branch_child, prev);
        let is_extension_c_row: Expression<F> = meta.query_advice(
            self.is_last_branch_child,
            Rotation(-2),
        );
        let key_rlc_prev: Expression<F> = meta.query_advice(self.key_rlc, prev);
        let key_rlc_prev_level: Expression<F> = meta.query_advice(self.key_rlc, prev_level);
        let key_rlc_cur: Expression<F> = meta.query_advice(self.key_rlc, cur);
        let key_rlc_mult_prev: Expression<F> = meta.query_advice(self.key_rlc_mult, prev);
        let key_rlc_mult_prev_level: Expression<F> = meta.query_advice(
            self.key_rlc_mult,
            prev_level,
        );
        let key_rlc_mult_cur: Expression<F> = meta.query_advice(self.key_rlc_mult, cur);
        // Any rotation into the branch children would do.
        let key_rlc_branch: Expression<F> = meta.query_advice(self.key_rlc, child);
        let key_rlc_mult_branch: Expression<F> = meta.query_advice(self.key_rlc_mult, child);
        let s_advices1: Expression<F> = meta.query_advice(self.s_advices[1], prev);
        KeyCells {
            q_not_first,
            not_first_level,
            is_extension_node,
            is_extension_node_s,
            is_key_even,
            is_key_odd,
            is_short,
            is_long,
            sel1,
            sel2,
            is_account_leaf_storage_codehash_prev,
            is_branch_init_prev,
            is_branch_child_prev,
            is_branch_child_cur,
            modified_node_cur,
            is_extension_s_row,
            is_extension_c_row,
            key_rlc_prev,
            key_rlc_prev_level,
            key_rlc_cur,
            key_rlc_mult_prev,
            key_rlc_mult_prev_level,
            key_rlc_mult_cur,
            key_rlc_branch,
            key_rlc_mult_branch,
            s_advices1,
        }
    }
}

impl<F: Field> KeyCells<F> {
    /// The key RLC that the C row of an extension node has on the first level of a proof, for
    /// a long key of even length: the second byte, every byte from the second on with its
    /// coefficient, and the nibble of the modified node, which is the upper half of a byte.
    pub open spec fn first_level_long_even_rlc<const HASH_WIDTH: usize>(
        self,
        s_advices: [Column<Advice>; HASH_WIDTH],
        r_table: Seq<Expression<F>>,
    ) -> Expression<F> {
        self.s_advices1 + rlc(
            s_advices@.skip(1),
            0,
            Expression::Constant(F::element(1)),
            -1,
            r_table,
        ) + self.modified_node_cur * Expression::Constant(F::element(16))
    }

    /// The key RLC that the C row of an extension node has on a later level, for a long key of
    /// even length: the key RLC of the level above, and the bytes from the second on with the
    /// coefficients that continue it.
    pub open spec fn long_even_rlc<const HASH_WIDTH: usize>(
        self,
        s_advices: [Column<Advice>; HASH_WIDTH],
        r_table: Seq<Expression<F>>,
    ) -> Expression<F> {
        self.key_rlc_prev_level + self.s_advices1 * self.key_rlc_mult_prev_level
            + rlc(s_advices@.skip(2), 0, self.key_rlc_mult_prev_level, -1, r_table)
    }

    /// The constraints of the key gate, given the two expected key RLCs.
    pub open spec fn constraints(
        self,
        first_level_long_even_rlc: Expression<F>,
        long_even_rlc: Expression<F>,
    ) -> Seq<Constraint<F>> {
        let one = Expression::Constant(F::element(1));
        let c16 = Expression::Constant(F::element(16));
        seq![
            Constraint {
                name: "branch key RLC same over all branch children with index > 0",
                poly: self.q_not_first
                    * self.is_branch_child_prev
                    * self.is_branch_child_cur
                    * (self.key_rlc_cur - self.key_rlc_prev),
            },
            Constraint {
                name: "branch key RLC MULT same over all branch children with index > 0",
                poly: self.q_not_first
                    * self.is_branch_child_prev
                    * self.is_branch_child_cur
                    * (self.key_rlc_mult_cur - self.key_rlc_mult_prev),
            },
            Constraint {
                name: "extension node row S key RLC is the same as branch key RLC when NOT extension node",
                poly: self.q_not_first
                    * (one - self.is_branch_init_prev)
                    * self.is_extension_s_row
                    * (one - self.is_extension_node_s)
                    * (self.key_rlc_cur - self.key_rlc_prev),
            },
            Constraint {
                name: "extension node row S key RLC mult is the same as branch key RLC when NOT extension node",
                poly: self.q_not_first
                    * (one - self.is_branch_init_prev)
                    * self.is_extension_s_row
                    * (one - self.is_extension_node_s)
                    * (self.key_rlc_mult_cur - self.key_rlc_mult_prev),
            },
            Constraint {
                name: "extension node row C key RLC is the same as branch key RLC when NOT extension node",
                poly: self.q_not_first
                    * (one - self.is_branch_init_prev)
                    * (one - self.is_branch_child_prev)
                    * self.is_extension_c_row
                    * (one - self.is_extension_node)
                    * (self.key_rlc_cur - self.key_rlc_prev),
            },
            Constraint {
                name: "extension node row C key RLC mult is the same as branch key RLC when NOT extension node",
                poly: self.q_not_first
                    * (one - self.is_branch_init_prev)
                    * (one - self.is_branch_child_prev)
                    * self.is_extension_c_row
                    * (one - self.is_extension_node)
                    * (self.key_rlc_mult_cur - self.key_rlc_mult_prev),
            },
            Constraint {
                name: "account first level long even",
                poly: self.q_not_first
                    * (one - self.is_branch_init_prev)
                    * (one - self.is_branch_child_prev)
                    * (one - self.not_first_level)
                    * self.is_extension_node
                    * self.is_extension_c_row
                    * self.is_key_even
                    * self.is_long
                    * (first_level_long_even_rlc - self.key_rlc_cur),
            },
            Constraint {
                name: "storage first level long even",
                poly: self.not_first_level
                    * self.is_account_leaf_storage_codehash_prev
                    * self.is_extension_node
                    * self.is_extension_c_row
                    * self.is_key_even
                    * self.is_long
                    * (first_level_long_even_rlc - self.key_rlc_cur),
            },
            Constraint {
                name: "long even sel1 extension",
                poly: self.not_first_level
                    * (one - self.is_account_leaf_storage_codehash_prev)
                    * self.is_extension_node
                    * self.is_extension_c_row
                    * self.is_key_even
                    * self.is_long
                    * self.sel1
                    * (self.key_rlc_cur - long_even_rlc),
            },
            Constraint {
                name: "long even sel1 branch",
                poly: self.not_first_level
                    * (one - self.is_account_leaf_storage_codehash_prev)
                    * self.is_extension_node
                    * self.is_extension_c_row
                    * self.is_key_even
                    * self.is_long
                    * self.sel1
                    * (self.key_rlc_branch - self.key_rlc_cur
                        - c16 * self.modified_node_cur * self.key_rlc_mult_branch),
            },
        ]
    }

    /// Builds the constraints of the key gate from the two expected key RLCs.
    fn build_constraints(
        &self,
        first_level_long_even_rlc: &Expression<F>,
        long_even_rlc: &Expression<F>,
    ) -> (r: Vec<Constraint<F>>)
        ensures
            r@ == self.constraints(*first_level_long_even_rlc, *long_even_rlc),
    {
        let one: Expression<F> = Expression::Constant(F::one());
        let c16: Expression<F> = Expression::Constant(F::from_u64(16));
        let mut constraints: Vec<Constraint<F>> = Vec::new();
        constraints.push(
            Constraint {
                name: "branch key RLC same over all branch children with index > 0",
                poly: self.q_not_first.clone()
                    * self.is_branch_child_prev.clone()
                    * self.is_branch_child_cur.clone()
                    * (self.key_rlc_cur.clone() - self.key_rlc_prev.clone()),
            },
        );
        constraints.push(
            Constraint {
                name: "branch key RLC MULT same over all branch children with index > 0",
                poly: self.q_not_first.clone()
                    * self.is_branch_child_prev.clone()
                    * self.is_branch_child_cur.clone()
                    * (self.key_rlc_mult_cur.clone() - self.key_rlc_mult_prev.clone()),
            },
        );
        // The factors on the previous row keep the rotation for the extension node flag inside
        // the table. The S row comes right after the last branch child, the C row does not.
        constraints.push(
            Constraint {
                name: "extension node row S key RLC is the same as branch key RLC when NOT extension node",
                poly: self.q_not_first.clone()
                    * (one.clone() - self.is_branch_init_prev.clone())
                    * self.is_extension_s_row.clone()
                    * (one.clone() - self.is_extension_node_s.clone())
                    * (self.key_rlc_cur.clone() - self.key_rlc_prev.clone()),
            },
        );
        constraints.push(
            Constraint {
                name: "extension node row S key RLC mult is the same as branch key RLC when NOT extension node",
                poly: self.q_not_first.clone()
                    * (one.clone() - self.is_branch_init_prev.clone())
                    * self.is_extension_s_row.clone()
                    * (one.clone() - self.is_extension_node_s.clone())
                    * (self.key_rlc_mult_cur.clone() - self.key_rlc_mult_prev.clone()),
            },
        );
        constraints.push(
            Constraint {
                name: "extension node row C key RLC is the same as branch key RLC when NOT extension node",
                poly: self.q_not_first.clone()
                    * (one.clone() - self.is_branch_init_prev.clone())
                    * (one.clone() - self.is_branch_child_prev.clone())
                    * self.is_extension_c_row.clone()
                    * (one.clone() - self.is_extension_node.clone())
                    * (self.key_rlc_cur.clone() - self.key_rlc_prev.clone()),
            },
        );
        constraints.push(
            Constraint {
                name: "extension node row C key RLC mult is the same as branch key RLC when NOT extension node",
                poly: self.q_not_first.clone()
                    * (one.clone() - self.is_branch_init_prev.clone())
                    * (one.clone() - self.is_branch_child_prev.clone())
                    * self.is_extension_c_row.clone()
                    * (one.clone() - self.is_extension_node.clone())
                    * (self.key_rlc_mult_cur.clone() - self.key_rlc_mult_prev.clone()),
            },
        );
        // First level of an account proof.
        constraints.push(
            Constraint {
                name: "account first level long even",
                poly: self.q_not_first.clone()
                    * (one.clone() - self.is_branch_init_prev.clone())
                    * (one.clone() - self.is_branch_child_prev.clone())
                    * (one.clone() - self.not_first_level.clone())
                    * self.is_extension_node.clone()
                    * self.is_extension_c_row.clone()
                    * self.is_key_even.clone()
                    * self.is_long.clone()
                    * (first_level_long_even_rlc.clone() - self.key_rlc_cur.clone()),
            },
        );
        // First level of a storage proof.
        constraints.push(
            Constraint {
                name: "storage first level long even",
                poly: self.not_first_level.clone()
                    * self.is_account_leaf_storage_codehash_prev.clone()
                    * self.is_extension_node.clone()
                    * self.is_extension_c_row.clone()
                    * self.is_key_even.clone()
                    * self.is_long.clone()
                    * (first_level_long_even_rlc.clone() - self.key_rlc_cur.clone()),
            },
        );
        // Later levels.
        constraints.push(
            Constraint {
                name: "long even sel1 extension",
                poly: self.not_first_level.clone()
                    * (one.clone() - self.is_account_leaf_storage_codehash_prev.clone())
                    * self.is_extension_node.clone()
                    * self.is_extension_c_row.clone()
                    * self.is_key_even.clone()
                    * self.is_long.clone()
                    * self.sel1.clone()
                    * (self.key_rlc_cur.clone() - long_even_rlc.clone()),
            },
        );
        // The key RLC of the branch is checked on the C row too: the branch rows come before the
        // rows of the extension node.
        constraints.push(
            Constraint {
                name: "long even sel1 branch",
                poly: self.not_first_level.clone()
                    * (one.clone() - self.is_account_leaf_storage_codehash_prev.clone())
                    * self.is_extension_node.clone()
                    * self.is_extension_c_row.clone()
                    * self.is_key_even.clone()
                    * self.is_long.clone()
                    * self.sel1.clone()
                    * (self.key_rlc_branch.clone() - self.key_rlc_cur.clone()
                        - c16.clone() * self.modified_node_cur.clone()
                            * self.key_rlc_mult_branch.clone()),
            },
        );
        constraints
    }
}

/// The configuration of the chip.
#[derive(Debug)]
pub struct ExtensionNodeKeyConfig {}

impl Clone for ExtensionNodeKeyConfig {
    fn clone(&self) -> (r: Self)
        ensures
            r == *self,
    {
        ExtensionNodeKeyConfig {  }
    }
}

/// The chip that checks the key of an extension node.
pub struct ExtensionNodeKeyChip<F> {
    config: ExtensionNodeKeyConfig,
    _marker: PhantomData<F>,
}

impl<F: Field> ExtensionNodeKeyChip<F> {
    /// Adds the key gate of the chip.
    #[allow(clippy::too_many_arguments)]
    pub fn configure<const HASH_WIDTH: usize>(
        meta: &mut ConstraintSystem<F>,
        positions: FlagPositions,
        q_not_first: Column<Fixed>,
        not_first_level: Column<Fixed>,
        is_branch_init: Column<Advice>,
        is_branch_child: Column<Advice>,
        is_last_branch_child: Column<Advice>,
        is_account_leaf_storage_codehash_c: Column<Advice>,
        s_rlp2: Column<Advice>,
        s_advices: [Column<Advice>; HASH_WIDTH],
        modified_node: Column<Advice>,
        sel1: Column<Advice>,
        sel2: Column<Advice>,
        key_rlc: Column<Advice>,
        key_rlc_mult: Column<Advice>,
        r_table: Vec<Expression<F>>,
    ) -> (r: ExtensionNodeKeyConfig)
        requires
            HASH_WIDTH >= 2,
            positions.wf(HASH_WIDTH as int),
            r_table@.len() >= HASH_WIDTH - 1,
        ensures
            r == (ExtensionNodeKeyConfig {  }),
            final(meta).gates@.len() == old(meta).gates@.len() + 1,
            final(meta).gates@.drop_last() == old(meta).gates@,
            is_key_gate(
                final(meta).gates@.last(),
                (KeyColumns {
                    positions,
                    q_not_first,
                    not_first_level,
                    is_branch_init,
                    is_branch_child,
                    is_last_branch_child,
                    is_account_leaf_storage_codehash_c,
                    s_advices,
                    modified_node,
                    sel1,
                    sel2,
                    key_rlc,
                    key_rlc_mult,
                }),
                r_table@,
            ),
    {
        let columns = KeyColumns {
            positions,
            q_not_first,
            not_first_level,
            is_branch_init,
            is_branch_child,
            is_last_branch_child,
            is_account_leaf_storage_codehash_c,
            s_advices,
            modified_node,
            sel1,
            sel2,
            key_rlc,
            key_rlc_mult,
        };
        let mut cells = VirtualCells::new();
        let key_cells: KeyCells<F> = columns.query_key_cells(&mut cells);

        // The first key byte is 0 and holds no key information.
        let first_level_long_even_rlc: Expression<F> = key_cells.s_advices1.clone() + compute_rlc(
            &mut cells,
            &columns.skip_advices(1),
            0,
            &Expression::Constant(F::one()),
            -1,
            &r_table,
        ) + key_cells.modified_node_cur.clone() * Expression::Constant(F::from_u64(16));

        // The second key byte is left out too: no coefficient of the table belongs to it.
        let long_even_rlc: Expression<F> = key_cells.key_rlc_prev_level.clone()
            + key_cells.s_advices1.clone() * key_cells.key_rlc_mult_prev_level.clone()
            + compute_rlc(
            &mut cells,
            &columns.skip_advices(2),
            0,
            &key_cells.key_rlc_mult_prev_level,
            -1,
            &r_table,
        );

        let constraints: Vec<Constraint<F>> = key_cells.build_constraints(
            &first_level_long_even_rlc,
            &long_even_rlc,
        );
        meta.create_gate("extension node key", cells, constraints);
        ExtensionNodeKeyConfig {  }
    }

    /// The chip with the given configuration.
    pub fn construct(config: ExtensionNodeKeyConfig) -> (r: Self)
        ensures
            r.spec_config() == config,
    {
        ExtensionNodeKeyChip { config, _marker: PhantomData }
    }

    /// The configuration that the chip was constructed with.
    pub closed spec fn spec_config(self) -> ExtensionNodeKeyConfig {
        self.config
    }

    /// The configuration of the chip.
    pub fn config(&self) -> (r: &ExtensionNodeKeyConfig)
        ensures
            *r == self.spec_config(),
    {
        &self.config
    }

    /// The chip loads nothing.
    pub fn loaded(&self) -> (r: &())
        ensures
            *r == (),
    {
        &()
    }
}

/// `gate` is the key gate of the chip over `columns`, with the coefficients `r_table`.
pub open spec fn is_key_gate<F: Field, const HASH_WIDTH: usize>(
    gate: Gate<F>,
    columns: KeyColumns<HASH_WIDTH>,
    r_table: Seq<Expression<F>>,
) -> bool {
    let cells = columns.key_cells::<F>();
    &&& gate.name == "extension node key"
    &&& gate.constraints@ == cells.constraints(
        cells.first_level_long_even_rlc(columns.s_advices, r_table),
        cells.long_even_rlc(columns.s_advices, r_table),
    )
    &&& gate.queried_cells@ == columns.queried_cells()
}

} // verus!
