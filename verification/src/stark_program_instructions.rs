//! The table of a program's instructions. The program is the static part
//! of a proof: the code at rest, known before anything runs, as opposed to
//! the steps of a run, which may be many more than the program has
//! instructions.
//!
//! ```text
//! +-----------------+--------------------+-------------+
//! | Program Counter | Instruction Opcode | Is_Executed |
//! +-----------------+--------------------+-------------+
//! |    ....         |     ....           |    ....     |
//! +-----------------+--------------------+-------------+
//! ```

use crate::constraint::{eval_filter_constraint, filter_constraint_in_field};
pub use crate::trace::NUMBER_OF_COLS;
use crate::trace::{build_trace_rows, trace_rows_to_columns, trace_table, FILTER_COLUMN};
use crate::vm_specs::Program;
use core::marker::PhantomData;
use vstd::prelude::*;

verus! {

/// The number of public inputs of the table: no value from outside the
/// trace enters the constraint.
pub const PUBLIC_INPUTS: usize = 0;

/// The bound on the degree of the constraints that the table declares. The
/// one constraint there is has degree 2; the bound leaves a margin of one.
pub const CONSTRAINT_DEGREE: usize = 3;

/// The table of a program's instructions over the field `F`, with
/// extension degree `D`. The type holds no data: `F` and `D` only name the
/// field that a proof is made over.
pub struct ProgramInstructionsStark<F, const D: usize> {
    pub _f: PhantomData<F>,
}

impl<F, const D: usize> Clone for ProgramInstructionsStark<F, D> {
    fn clone(&self) -> (stark: Self)
        ensures
            stark == *self,
    {
        Self { _f: PhantomData }
    }
}

impl<F, const D: usize> Copy for ProgramInstructionsStark<F, D> {

}

impl<F, const D: usize> ProgramInstructionsStark<F, D> {
    /// The table over the field `F`.
    pub fn new() -> (stark: Self)
        ensures
            stark._f == PhantomData::<F>,
    {
        Self { _f: PhantomData }
    }

    /// The trace table of a program: three columns, of the program
    /// counters, the opcodes and the filters, each as long as the padded
    /// number of instructions. The instructions come in ascending order
    /// of address, whatever the order in which the code map hands them
    /// out; the padding rows follow them.
    pub fn generate_trace(prog: &Program) -> (table: Vec<Vec<u64>>)
        ensures
            table.deep_view() == trace_table(prog.code@),
            table@.len() == NUMBER_OF_COLS,
            forall|column: int|
                0 <= column < NUMBER_OF_COLS ==> (#[trigger] table@[column])@ == trace_table(
                    prog.code@,
                )[column],
    {
        let rows = build_trace_rows(prog);
        trace_rows_to_columns(&rows)
    }

    /// The value of the table's one constraint on a row, in the field of
    /// the given order. The row is given by the canonical representatives
    /// of its values, and so is the result. The constraint reads the
    /// filter only.
    pub fn eval_packed_generic(&self, local_values: &[u64; 3], order: u64) -> (constraint: u64)
        requires
            order >= 2,
        ensures
            constraint == filter_constraint_in_field(
                local_values[FILTER_COLUMN as int] as int,
                order as int,
            ),
    {
        let filter_column = local_values[FILTER_COLUMN];
        eval_filter_constraint(filter_column, order)
    }

    /// The bound on the degree of the constraints that the table declares.
    pub fn constraint_degree(&self) -> (degree: usize)
        ensures
            degree == CONSTRAINT_DEGREE,
    {
        CONSTRAINT_DEGREE
    }
}

/// Building the trace is deterministic: two calls of `generate_trace` on
/// programs with the same code return the same table, value for value.
pub proof fn lemma_generate_trace_deterministic<F, const D: usize>(
    first: &Program,
    second: &Program,
    first_table: Vec<Vec<u64>>,
    second_table: Vec<Vec<u64>>,
)
    requires
        first.code@ == second.code@,
        call_ensures(ProgramInstructionsStark::<F, D>::generate_trace, (first,), first_table),
        call_ensures(ProgramInstructionsStark::<F, D>::generate_trace, (second,), second_table),
    ensures
        first_table.deep_view() == second_table.deep_view(),
{
}

} // verus!
