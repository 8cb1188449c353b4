//! The trace of a program: one row for each instruction, in ascending
//! order of address, padded with zero rows to a power of two, and read
//! column by column.
//!
//! A field element is held by its canonical representative, a `u64`. The
//! values that a trace holds are bytes, zero and one, so they stand for
//! the same elements in every prime field of more than 255 elements.

use crate::power_of_two::{
    lemma_next_power_of_two_least, lemma_padded_len_is_next_power_of_two, padded_len,
    padded_len_of,
};
use crate::vm_specs::{Instruction, Program};
use vstd::arithmetic::power2::is_pow2;
use vstd::prelude::*;

verus! {

/// The number of columns of the table.
pub const NUMBER_OF_COLS: usize = 3;

/// The column that holds the program counter.
pub const PROGRAM_COUNTER_COLUMN: usize = 0;

/// The column that holds the opcode.
pub const OPCODE_COLUMN: usize = 1;

/// The column that holds the filter: 1 in the row of an instruction, 0 in a
/// padding row.
pub const FILTER_COLUMN: usize = 2;

/// The number of addresses that code can have.
pub const ADDRESS_COUNT: usize = 256;

/// One row of the trace.
#[derive(Clone, Copy, Debug, PartialEq, Eq, Structural)]
pub struct TraceRow {
    pub program_counter: u64,
    pub opcode: u64,
    pub filter: u64,
}

impl TraceRow {
    /// The value of the row in the given column.
    pub open spec fn value(self, column: int) -> u64 {
        if column == PROGRAM_COUNTER_COLUMN {
            self.program_counter
        } else if column == OPCODE_COLUMN {
            self.opcode
        } else {
            self.filter
        }
    }

    /// The values of the row, in the order of the columns.
    pub fn values(&self) -> (values: [u64; 3])
        ensures
            forall|column: int|
                0 <= column < NUMBER_OF_COLS ==> values[column] == self.value(column),
    {
        [self.program_counter, self.opcode, self.filter]
    }
}

/// The row of the instruction at an address.
pub open spec fn instruction_row(address: u8, instruction: Instruction) -> TraceRow {
    TraceRow { program_counter: address as u64, opcode: instruction.opcode() as u64, filter: 1 }
}

/// The row that pads a trace.
pub open spec fn padding_row() -> TraceRow {
    TraceRow { program_counter: 0, opcode: 0, filter: 0 }
}

/// The addresses below `bound` that hold an instruction, in ascending
/// order.
pub open spec fn addresses_below(code: Map<u8, Instruction>, bound: nat) -> Seq<u8>
    decreases bound,
{
    if bound == 0 {
        Seq::empty()
    } else {
        let below = addresses_below(code, (bound - 1) as nat);
        let last = (bound - 1) as u8;
        if bound <= ADDRESS_COUNT && code.contains_key(last) {
            below.push(last)
        } else {
            below
        }
    }
}

/// The addresses that hold an instruction, in ascending order.
pub open spec fn addresses(code: Map<u8, Instruction>) -> Seq<u8> {
    addresses_below(code, ADDRESS_COUNT as nat)
}

/// The rows of the instructions, in ascending order of address.
pub open spec fn instruction_rows(code: Map<u8, Instruction>) -> Seq<TraceRow> {
    addresses(code).map_values(|address: u8| instruction_row(address, code[address]))
}

/// `count` padding rows.
pub open spec fn padding_rows(count: nat) -> Seq<TraceRow> {
    Seq::new(count, |i: int| padding_row())
}

/// The rows of the trace: those of the instructions, then the padding that
/// brings their number to the padded length.
pub open spec fn trace_rows(code: Map<u8, Instruction>) -> Seq<TraceRow> {
    let rows = instruction_rows(code);
    rows + padding_rows((padded_len(rows.len()) - rows.len()) as nat)
}

/// One column of a sequence of rows.
pub open spec fn column_of(rows: Seq<TraceRow>, column: int) -> Seq<u64> {
    Seq::new(rows.len(), |row: int| rows[row].value(column))
}

/// The columns of a sequence of rows: the rows, transposed.
pub open spec fn columns_of(rows: Seq<TraceRow>) -> Seq<Seq<u64>> {
    Seq::new(NUMBER_OF_COLS as nat, |column: int| column_of(rows, column))
}

/// The trace table of a program's code: the columns of its trace.
pub open spec fn trace_table(code: Map<u8, Instruction>) -> Seq<Seq<u64>> {
    columns_of(trace_rows(code))
}

/// Whether a sequence of addresses ascends strictly.
pub open spec fn strictly_ascending(addresses: Seq<u8>) -> bool {
    forall|i: int, j: int| 0 <= i < j < addresses.len() ==> addresses[i] < addresses[j]
}

/// The keys of the code below `bound`.
spec fn keys_below(code: Map<u8, Instruction>, bound: nat) -> Set<u8> {
    Set::new(|address: u8| address < bound && code.contains_key(address))
}

/// The addresses below a bound are the keys below it, each once, in
/// strictly ascending order.
proof fn lemma_addresses_below(code: Map<u8, Instruction>, bound: nat)
    requires
        bound <= ADDRESS_COUNT,
    ensures
        keys_below(code, bound).finite(),
        addresses_below(code, bound).len() == keys_below(code, bound).len(),
        addresses_below(code, bound).len() <= bound,
        forall|i: int|
            0 <= i < addresses_below(code, bound).len() ==> keys_below(code, bound).contains(
                #[trigger] addresses_below(code, bound)[i],
            ),
        forall|address: u8|
            keys_below(code, bound).contains(address) ==> addresses_below(code, bound).contains(
                address,
            ),
        forall|i: int, j: int|
            0 <= i < j < addresses_below(code, bound).len() ==> addresses_below(code, bound)[i]
                < addresses_below(code, bound)[j],
    decreases bound,
{
    if bound == 0 {
        assert(keys_below(code, bound) =~= Set::<u8>::empty());
    } else {
        let before = (bound - 1) as nat;
        let last = before as u8;
        lemma_addresses_below(code, before);
        let below = addresses_below(code, before);
        let all = addresses_below(code, bound);
        if code.contains_key(last) {
            assert(keys_below(code, bound) =~= keys_below(code, before).insert(last));
            assert(all[below.len() as int] == last);
            assert forall|address: u8| keys_below(code, bound).contains(address) implies all.contains(
                address,
            ) by {
                if address == last {
                    assert(all[below.len() as int] == address);
                } else {
                    assert(keys_below(code, before).contains(address));
                    let i = choose|i: int| 0 <= i < below.len() && below[i] == address;
                    assert(all[i] == address);
                }
            }
        } else {
            assert(keys_below(code, bound) =~= keys_below(code, before));
        }
    }
}

/// The addresses of the code are its keys, each once, in strictly
/// ascending order. The domain of the code is finite, and the addresses are
/// as many as the code has instructions.
pub proof fn lemma_addresses(code: Map<u8, Instruction>)
    ensures
        code.dom().finite(),
        addresses(code).len() == code.len(),
        addresses(code).len() <= ADDRESS_COUNT,
        forall|i: int|
            0 <= i < addresses(code).len() ==> code.contains_key(#[trigger] addresses(code)[i]),
        forall|address: u8| code.contains_key(address) ==> addresses(code).contains(address),
        strictly_ascending(addresses(code)),
{
    lemma_addresses_below(code, ADDRESS_COUNT as nat);
    assert(keys_below(code, ADDRESS_COUNT as nat) =~= code.dom());
}

/// The trace has the padded length of the number of instructions: the
/// next power of two, and at least one row.
pub proof fn lemma_trace_len(code: Map<u8, Instruction>)
    ensures
        trace_rows(code).len() == padded_len(code.len()),
        trace_rows(code).len() >= 1,
        trace_rows(code).len() <= ADDRESS_COUNT,
        is_pow2(trace_rows(code).len() as int),
        trace_table(code).len() == NUMBER_OF_COLS,
        forall|column: int|
            0 <= column < NUMBER_OF_COLS ==> (#[trigger] trace_table(code)[column]).len()
                == padded_len(code.len()),
{
    lemma_addresses(code);
    lemma_padded_len_is_next_power_of_two(code.len());
    assert(is_pow2(256)) by {
        reveal_with_fuel(is_pow2, 10);
    }
    lemma_next_power_of_two_least(code.len(), 256);
}

/// The rows of the trace, row by row: the first `code.len()` rows are those
/// of the instructions, in strictly ascending order of address, and each
/// has the filter 1, the address of its instruction as program counter and
/// the opcode of its instruction; every instruction has its row among
/// them; all rows after them are padding: filter, opcode and program
/// counter are 0.
pub proof fn lemma_trace_rows(code: Map<u8, Instruction>)
    ensures
        code.len() <= trace_rows(code).len(),
        forall|i: int|
            0 <= i < code.len() ==> {
                let row = #[trigger] trace_rows(code)[i];
                &&& row.filter == 1
                &&& row.program_counter < ADDRESS_COUNT
                &&& code.contains_key(row.program_counter as u8)
                &&& row.opcode == code[row.program_counter as u8].opcode()
            },
        forall|i: int, j: int|
            0 <= i < j < code.len() ==> trace_rows(code)[i].program_counter < trace_rows(
                code,
            )[j].program_counter,
        forall|address: u8|
            code.contains_key(address) ==> exists|i: int|
                0 <= i < code.len() && #[trigger] trace_rows(code)[i] == instruction_row(
                    address,
                    code[address],
                ),
        forall|i: int|
            code.len() <= i < trace_rows(code).len() ==> {
                let row = #[trigger] trace_rows(code)[i];
                &&& row.filter == 0
                &&& row.opcode == 0
                &&& row.program_counter == 0
            },
{
    lemma_addresses(code);
    lemma_padded_len_is_next_power_of_two(code.len());
    let in_order = addresses(code);
    assert forall|address: u8| code.contains_key(address) implies exists|i: int|
        0 <= i < code.len() && #[trigger] trace_rows(code)[i] == instruction_row(
            address,
            code[address],
        ) by {
        assert(in_order.contains(address));
        let i = choose|i: int| 0 <= i < in_order.len() && in_order[i] == address;
        assert(trace_rows(code)[i] == instruction_row(address, code[address]));
    }
}

/// The rows of a trace table, column by column: the table holds in column
/// `c`, at row `r`, the value that row `r` of the trace has in column `c`.
pub proof fn lemma_trace_table(code: Map<u8, Instruction>)
    ensures
        forall|column: int, row: int|
            0 <= column < NUMBER_OF_COLS && 0 <= row < trace_rows(code).len()
                ==> #[trigger] trace_table(code)[column][row] == trace_rows(code)[row].value(
                column,
            ),
{
}

/// Two strictly ascending sequences that hold the same addresses are the
/// same sequence.
pub proof fn lemma_ascending_unique(s: Seq<u8>, t: Seq<u8>)
    requires
        strictly_ascending(s),
        strictly_ascending(t),
        forall|address: u8| s.contains(address) <==> t.contains(address),
    ensures
        s == t,
    decreases s.len(),
{
    if s.len() == 0 {
        if t.len() > 0 {
            assert(t.contains(t[0]));
        }
        assert(s =~= t);
    } else {
        assert(s.contains(s[0]));
        assert(t.len() > 0);
        assert(s.contains(s.last()));
        assert(t.contains(t.last()));
        assert(s.last() == t.last());
        let s_front = s.drop_last();
        let t_front = t.drop_last();
        assert forall|address: u8| s_front.contains(address) <==> t_front.contains(address) by {
            if s_front.contains(address) {
                let i = choose|i: int| 0 <= i < s_front.len() && s_front[i] == address;
                assert(s[i] == address);
                assert(s.contains(address));
                let j = choose|j: int| 0 <= j < t.len() && t[j] == address;
                assert(t_front[j] == address);
            }
            if t_front.contains(address) {
                let i = choose|i: int| 0 <= i < t_front.len() && t_front[i] == address;
                assert(t[i] == address);
                assert(t.contains(address));
                let j = choose|j: int| 0 <= j < s.len() && s[j] == address;
                assert(s_front[j] == address);
            }
        }
        lemma_ascending_unique(s_front, t_front);
        assert(s =~= s_front.push(s.last()));
        assert(t =~= t_front.push(t.last()));
    }
}

/// What makes a sequence of rows the trace of a program's code, said row
/// by row: it has the padded length; its first `code.len()` rows each
/// carry the filter 1, the address of an instruction of the code and that
/// instruction's opcode, and their addresses ascend strictly; all rows
/// after them are padding.
pub open spec fn is_trace_of(code: Map<u8, Instruction>, rows: Seq<TraceRow>) -> bool {
    &&& rows.len() == padded_len(code.len())
    &&& forall|i: int|
        0 <= i < code.len() ==> {
            let row = #[trigger] rows[i];
            &&& row.filter == 1
            &&& row.program_counter < ADDRESS_COUNT
            &&& code.contains_key(row.program_counter as u8)
            &&& row.opcode == code[row.program_counter as u8].opcode()
        }
    &&& forall|i: int, j: int|
        0 <= i < j < code.len() ==> rows[i].program_counter < rows[j].program_counter
    &&& forall|i: int| code.len() <= i < rows.len() ==> #[trigger] rows[i] == padding_row()
}

/// The trace of a program's code is the one sequence of rows that
/// `is_trace_of` describes: the order of the rows is fixed by the
/// addresses alone, so nothing else about the code map, such as the order
/// in which it is walked, can show in a trace.
pub proof fn lemma_trace_unique(code: Map<u8, Instruction>, rows: Seq<TraceRow>)
    ensures
        is_trace_of(code, rows) <==> rows == trace_rows(code),
{
    lemma_addresses(code);
    lemma_trace_len(code);
    lemma_trace_rows(code);
    lemma_padded_len_is_next_power_of_two(code.len());
    let count = code.len() as int;
    let in_order = addresses(code);
    if is_trace_of(code, rows) {
        let counters = Seq::new(count as nat, |i: int| rows[i].program_counter as u8);
        assert(strictly_ascending(counters));
        assert(strictly_ascending(in_order));
        assert(counters.no_duplicates());
        counters.unique_seq_to_set();
        assert(counters.to_set().subset_of(code.dom())) by {
            assert forall|address: u8| counters.to_set().contains(address) implies code.dom().contains(
                address,
            ) by {
                let i = choose|i: int| 0 <= i < counters.len() && counters[i] == address;
                assert(rows[i].program_counter as u8 == address);
            }
        }
        vstd::set_lib::lemma_len_subset(counters.to_set(), code.dom());
        vstd::set_lib::lemma_subset_equality(counters.to_set(), code.dom());
        assert forall|address: u8| counters.contains(address) <==> in_order.contains(address) by {
            assert(counters.to_set().contains(address) <==> code.dom().contains(address));
            if in_order.contains(address) {
                let i = choose|i: int| 0 <= i < in_order.len() && in_order[i] == address;
                assert(code.contains_key(in_order[i]));
            }
        }
        lemma_ascending_unique(counters, in_order);
        assert forall|i: int| 0 <= i < rows.len() implies rows[i] == trace_rows(code)[i] by {
            if i < count {
                assert(counters[i] == in_order[i]);
                assert(rows[i].program_counter == in_order[i]);
            }
        }
        assert(rows =~= trace_rows(code));
    }
    if rows == trace_rows(code) {
        assert(is_trace_of(code, rows));
    }
}

/// The rows of the trace of a program, padded.
pub fn build_trace_rows(prog: &Program) -> (rows: Vec<TraceRow>)
    ensures
        rows@ == trace_rows(prog.code@),
{
    broadcast use vstd::std_specs::hash::group_hash_axioms;

    let mut rows: Vec<TraceRow> = Vec::new();
    let mut bound: usize = 0;
    while bound < ADDRESS_COUNT
        invariant
            bound <= ADDRESS_COUNT,
            rows@ == addresses_below(prog.code@, bound as nat).map_values(
                |address: u8| instruction_row(address, prog.code@[address]),
            ),
        decreases ADDRESS_COUNT - bound,
    {
        let address = bound as u8;
        match prog.code.get(&address) {
            Some(instruction) => {
                rows.push(
                    TraceRow {
                        program_counter: address as u64,
                        opcode: instruction.get_opcode() as u64,
                        filter: 1,
                    },
                );
            },
            None => {},
        }
        bound = bound + 1;
        assert(rows@ =~= addresses_below(prog.code@, bound as nat).map_values(
            |address: u8| instruction_row(address, prog.code@[address]),
        ));
    }
    let count = rows.len();
    proof {
        lemma_addresses(prog.code@);
        lemma_trace_len(prog.code@);
    }
    let padded = padded_len_of(count);
    rows.resize(padded, TraceRow { program_counter: 0, opcode: 0, filter: 0 });
    assert(rows@ =~= trace_rows(prog.code@));
    rows
}

/// The columns of a sequence of rows: the transposition that turns a trace
/// built row by row into a table of three columns.
pub fn trace_rows_to_columns(rows: &Vec<TraceRow>) -> (table: Vec<Vec<u64>>)
    ensures
        table.deep_view() == columns_of(rows@),
        table@.len() == NUMBER_OF_COLS,
        forall|column: int|
            0 <= column < NUMBER_OF_COLS ==> (#[trigger] table@[column])@ == column_of(
                rows@,
                column,
            ),
{
    let mut program_counters: Vec<u64> = Vec::new();
    let mut opcodes: Vec<u64> = Vec::new();
    let mut filters: Vec<u64> = Vec::new();
    let mut i: usize = 0;
    while i < rows.len()
        invariant
            i <= rows.len(),
            program_counters@ == column_of(rows@.take(i as int), PROGRAM_COUNTER_COLUMN as int),
            opcodes@ == column_of(rows@.take(i as int), OPCODE_COLUMN as int),
            filters@ == column_of(rows@.take(i as int), FILTER_COLUMN as int),
        decreases rows.len() - i,
    {
        let row = rows[i];
        program_counters.push(row.program_counter);
        opcodes.push(row.opcode);
        filters.push(row.filter);
        i = i + 1;
        assert(program_counters@ =~= column_of(
            rows@.take(i as int),
            PROGRAM_COUNTER_COLUMN as int,
        ));
        assert(opcodes@ =~= column_of(rows@.take(i as int), OPCODE_COLUMN as int));
        assert(filters@ =~= column_of(rows@.take(i as int), FILTER_COLUMN as int));
    }
    assert(rows@.take(i as int) =~= rows@);
    let mut table: Vec<Vec<u64>> = Vec::new();
    table.push(program_counters);
    table.push(opcodes);
    table.push(filters);
    assert(table.deep_view() =~~= columns_of(rows@));
    table
}

} // verus!
