use program_stark::power_of_two::padded_len_of;
use program_stark::stark_program_instructions::ProgramInstructionsStark;
use program_stark::trace::{build_trace_rows, trace_rows_to_columns, TraceRow};
use program_stark::vm_specs::{
    Instruction, InstructionLocation, MemoryLocation, Program, Register,
};
use std::collections::HashMap;

type S = ProgramInstructionsStark<u64, 2>;

fn program_of(code: Vec<(u8, Instruction)>) -> Program {
    let mut program = Program::default();
    for (address, instruction) in code {
        program.code.insert(address, instruction);
    }
    program
}

fn row(program_counter: u64, opcode: u64, filter: u64) -> TraceRow {
    TraceRow { program_counter, opcode, filter }
}

#[test]
fn empty_program_has_one_padding_row() {
    let program = Program::default();
    let table = S::generate_trace(&program);
    assert_eq!(table, vec![vec![0u64], vec![0u64], vec![0u64]]);
    assert_eq!(build_trace_rows(&program), vec![row(0, 0, 0)]);
}

#[test]
fn single_instruction() {
    let program = program_of(vec![(0, Instruction::Add(Register::R0, Register::R1))]);
    let table = S::generate_trace(&program);
    assert_eq!(table, vec![vec![0u64], vec![0u64], vec![1u64]]);
    assert_eq!(build_trace_rows(&program), vec![row(0, 0, 1)]);
}

#[test]
fn three_instructions_are_padded_to_four_rows() {
    let program = program_of(vec![
        (0, Instruction::Add(Register::R0, Register::R1)),
        (1, Instruction::Halt),
        (2, Instruction::Sub(Register::R1, Register::R0)),
    ]);
    let rows = build_trace_rows(&program);
    assert_eq!(rows, vec![row(0, 0, 1), row(1, 10, 1), row(2, 1, 1), row(0, 0, 0)]);
    let table = S::generate_trace(&program);
    assert_eq!(table, vec![vec![0u64, 1, 2, 0], vec![0u64, 10, 1, 0], vec![1u64, 1, 1, 0]]);
}

#[test]
fn rows_are_ordered_by_address_not_by_insertion() {
    let program = program_of(vec![
        (5, Instruction::Mul(Register::R0, Register::R1)),
        (1, Instruction::Jz(Register::R0, InstructionLocation(5))),
        (3, Instruction::Sb(Register::R1, MemoryLocation(8))),
    ]);
    let table = S::generate_trace(&program);
    assert_eq!(table[0], vec![1u64, 3, 5, 0]);
    assert_eq!(table[1], vec![6u64, 9, 2, 0]);
    assert_eq!(table[2], vec![1u64, 1, 1, 0]);
}

#[test]
fn two_instructions_need_no_padding() {
    let program = program_of(vec![(9, Instruction::Halt), (4, Instruction::Shr(Register::R0, Register::R0))]);
    assert_eq!(build_trace_rows(&program), vec![row(4, 5, 1), row(9, 10, 1)]);
}

#[test]
fn five_instructions_are_padded_to_eight_rows() {
    let program = program_of(vec![
        (250, Instruction::Halt),
        (10, Instruction::Add(Register::R0, Register::R1)),
        (20, Instruction::Div(Register::R0, Register::R1)),
        (40, Instruction::Shl(Register::R0, Register::R1)),
        (30, Instruction::Lb(Register::R0, MemoryLocation(1))),
    ]);
    let rows = build_trace_rows(&program);
    assert_eq!(
        rows,
        vec![
            row(10, 0, 1),
            row(20, 3, 1),
            row(30, 8, 1),
            row(40, 4, 1),
            row(250, 10, 1),
            row(0, 0, 0),
            row(0, 0, 0),
            row(0, 0, 0),
        ]
    );
}

#[test]
fn full_code_fills_all_rows() {
    let mut program = Program::default();
    for address in 0..=255u8 {
        let instruction = if address % 2 == 0 {
            Instruction::Jnz(Register::R1, InstructionLocation(address))
        } else {
            Instruction::Halt
        };
        program.code.insert(255 - address, instruction);
    }
    let table = S::generate_trace(&program);
    assert_eq!(table.len(), 3);
    for column in &table {
        assert_eq!(column.len(), 256);
    }
    for i in 0..256usize {
        assert_eq!(table[0][i], i as u64);
        // The instruction at address 255 - a was made from a.
        let made_from = 255 - i;
        assert_eq!(table[1][i], if made_from % 2 == 0 { 7 } else { 10 });
        assert_eq!(table[2][i], 1);
    }
}

#[test]
fn padded_lengths() {
    assert_eq!(padded_len_of(0), 1);
    assert_eq!(padded_len_of(1), 1);
    assert_eq!(padded_len_of(2), 2);
    assert_eq!(padded_len_of(3), 4);
    assert_eq!(padded_len_of(4), 4);
    assert_eq!(padded_len_of(5), 8);
    assert_eq!(padded_len_of(8), 8);
    assert_eq!(padded_len_of(9), 16);
    assert_eq!(padded_len_of(200), 256);
    assert_eq!(padded_len_of(256), 256);
    assert_eq!(padded_len_of((1 << 20) + 1), 1 << 21);
    assert_eq!(padded_len_of(usize::MAX / 2 + 1), usize::MAX / 2 + 1);
}

#[test]
fn padded_length_is_the_next_power_of_two() {
    for n in 0..=300usize {
        assert_eq!(padded_len_of(n), std::cmp::max(1, n.next_power_of_two()));
    }
}

#[test]
fn table_length_follows_the_number_of_instructions() {
    for count in 0..=256usize {
        let mut program = Program::default();
        for i in 0..count {
            program.code.insert((i as u8).wrapping_mul(37), Instruction::Halt);
        }
        assert_eq!(program.code.len(), count);
        let table = S::generate_trace(&program);
        let expected = std::cmp::max(1, count.next_power_of_two());
        assert_eq!(table.len(), 3);
        assert_eq!(table[0].len(), expected);
        assert_eq!(table[1].len(), expected);
        assert_eq!(table[2].len(), expected);
    }
}

#[test]
fn instruction_rows_and_padding_rows() {
    let mut program = Program::default();
    let mut expected: HashMap<u8, u8> = HashMap::new();
    let variants = [
        Instruction::Add(Register::R0, Register::R1),
        Instruction::Sub(Register::R0, Register::R1),
        Instruction::Mul(Register::R0, Register::R1),
        Instruction::Div(Register::R0, Register::R1),
        Instruction::Shl(Register::R0, Register::R1),
        Instruction::Shr(Register::R0, Register::R1),
        Instruction::Jz(Register::R0, InstructionLocation(1)),
        Instruction::Jnz(Register::R0, InstructionLocation(2)),
        Instruction::Lb(Register::R0, MemoryLocation(3)),
        Instruction::Sb(Register::R0, MemoryLocation(4)),
        Instruction::Halt,
    ];
    for i in 0..37u8 {
        let address = i.wrapping_mul(101).wrapping_add(13);
        let instruction = variants[(i % 11) as usize].clone();
        expected.insert(address, instruction.get_opcode());
        program.code.insert(address, instruction);
    }
    let count = program.code.len();
    assert_eq!(count, 37);
    let rows = build_trace_rows(&program);
    assert_eq!(rows.len(), 64);
    for i in 0..count {
        assert_eq!(rows[i].filter, 1);
        let address = rows[i].program_counter as u8;
        assert_eq!(address as u64, rows[i].program_counter);
        assert_eq!(rows[i].opcode, expected[&address] as u64);
        if i > 0 {
            assert!(rows[i - 1].program_counter < rows[i].program_counter);
        }
    }
    for i in count..rows.len() {
        assert_eq!(rows[i], row(0, 0, 0));
    }
}

#[test]
fn building_twice_gives_the_same_table() {
    let code = vec![
        (17, Instruction::Add(Register::R0, Register::R1)),
        (3, Instruction::Halt),
        (99, Instruction::Lb(Register::R1, MemoryLocation(5))),
        (42, Instruction::Jz(Register::R0, InstructionLocation(3))),
        (0, Instruction::Shl(Register::R1, Register::R1)),
    ];
    let forwards = program_of(code.clone());
    let mut reversed = code.clone();
    reversed.reverse();
    let backwards = program_of(reversed);
    let mut roomy = Program {
        entry_point: 3,
        code: HashMap::with_capacity(1000),
        memory_init: HashMap::new(),
    };
    for (address, instruction) in code {
        roomy.code.insert(address, instruction);
    }
    let first = S::generate_trace(&forwards);
    assert_eq!(S::generate_trace(&forwards), first);
    assert_eq!(S::generate_trace(&backwards), first);
    assert_eq!(S::generate_trace(&roomy), first);
    assert_eq!(first[0], vec![0u64, 3, 17, 42, 99, 0, 0, 0]);
}

#[test]
fn trace_reads_the_code_only() {
    let mut program = program_of(vec![(1, Instruction::Halt)]);
    let before = S::generate_trace(&program);
    program.entry_point = 77;
    program.memory_init.insert(1, 2);
    assert_eq!(S::generate_trace(&program), before);
}

#[test]
fn columns_are_the_rows_transposed() {
    let rows = vec![row(1, 2, 3), row(4, 5, 6), row(7, 8, 9), row(10, 11, 12)];
    let table = trace_rows_to_columns(&rows);
    assert_eq!(table, vec![vec![1u64, 4, 7, 10], vec![2u64, 5, 8, 11], vec![3u64, 6, 9, 12]]);
    let none: Vec<TraceRow> = Vec::new();
    assert_eq!(trace_rows_to_columns(&none), vec![Vec::<u64>::new(), Vec::new(), Vec::new()]);
}

#[test]
fn row_values_follow_the_columns() {
    assert_eq!(row(5, 6, 1).values(), [5, 6, 1]);
}
