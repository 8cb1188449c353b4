//! The structures that define the virtual machine: registers, addresses,
//! the instruction set with its opcode numbering, and the program.

use std::collections::HashMap;
use vstd::prelude::*;
use vstd::std_specs::convert::FromSpecImpl;

verus! {

/// The registers of the machine.
#[derive(Copy, Clone, Debug, PartialEq, Eq, Structural)]
pub enum Register {
    R0,
    R1,
}

/// The number of registers. Register indices fill `0..REGISTER_COUNT`.
pub const REGISTER_COUNT: usize = 2;

impl Register {
    /// The index of the register: dense and zero-based.
    pub open spec fn index(self) -> nat {
        match self {
            Register::R0 => 0,
            Register::R1 => 1,
        }
    }

    /// The register that has the given index, for an index below
    /// `REGISTER_COUNT`.
    pub open spec fn of_index(index: nat) -> Register {
        if index == 0 {
            Register::R0
        } else {
            Register::R1
        }
    }
}

impl Default for Register {
    fn default() -> (register: Self)
        ensures
            register == Register::R0,
    {
        Register::R0
    }
}

impl From<Register> for usize {
    fn from(value: Register) -> (index: usize) {
        match value {
            Register::R0 => 0,
            Register::R1 => 1,
        }
    }
}

impl FromSpecImpl<Register> for usize {
    open spec fn obeys_from_spec() -> bool {
        true
    }

    open spec fn from_spec(value: Register) -> usize {
        value.index() as usize
    }
}

/// The conversion of a register to its index loses nothing: the index is
/// below `REGISTER_COUNT`, and the register is found again from it.
pub proof fn lemma_register_index_lossless(register: Register)
    ensures
        register.index() < REGISTER_COUNT,
        Register::of_index(register.index()) == register,
{
}

/// The register indices are dense: every index below `REGISTER_COUNT` is
/// the index of a register.
pub proof fn lemma_register_index_dense(index: nat)
    requires
        index < REGISTER_COUNT,
    ensures
        Register::of_index(index).index() == index,
{
}

/// A location in memory. All memory is addressed by one byte.
#[derive(Clone, Copy, Debug, PartialEq, Eq, Structural)]
pub struct MemoryLocation(pub u8);

impl Default for MemoryLocation {
    fn default() -> (location: Self)
        ensures
            location == MemoryLocation(0),
    {
        MemoryLocation(0)
    }
}

/// A location in the code. All instructions are addressed by one byte.
#[derive(Clone, Copy, Debug, PartialEq, Eq, Structural)]
pub struct InstructionLocation(pub u8);

impl Default for InstructionLocation {
    fn default() -> (location: Self)
        ensures
            location == InstructionLocation(0),
    {
        InstructionLocation(0)
    }
}

/// The instructions of the machine.
#[derive(Debug, PartialEq, Eq, Structural)]
pub enum Instruction {
    Add(Register, Register),
    Sub(Register, Register),
    Mul(Register, Register),
    Div(Register, Register),
    Shl(Register, Register),
    Shr(Register, Register),
    Jz(Register, InstructionLocation),
    Jnz(Register, InstructionLocation),
    Lb(Register, MemoryLocation),
    Sb(Register, MemoryLocation),
    Halt,
}

/// The number of opcodes, which is the width of the one-hot encoding.
pub const OPCODE_COUNT: usize = 11;

/// The one-hot vector of width `OPCODE_COUNT` with its one at `opcode`.
pub open spec fn one_hot(opcode: nat) -> Seq<u8> {
    Seq::new(
        OPCODE_COUNT as nat,
        |i: int|
            if i == opcode {
                1u8
            } else {
                0u8
            },
    )
}

impl Instruction {
    /// The canonical opcode of the instruction.
    pub open spec fn opcode(self) -> u8 {
        match self {
            Instruction::Add(_, _) => 0,
            Instruction::Sub(_, _) => 1,
            Instruction::Mul(_, _) => 2,
            Instruction::Div(_, _) => 3,
            Instruction::Shl(_, _) => 4,
            Instruction::Shr(_, _) => 5,
            Instruction::Jz(_, _) => 6,
            Instruction::Jnz(_, _) => 7,
            Instruction::Lb(_, _) => 8,
            Instruction::Sb(_, _) => 9,
            Instruction::Halt => 10,
        }
    }

    /// Whether two instructions are of the same variant, whatever their
    /// operands.
    pub open spec fn same_variant(self, other: Instruction) -> bool {
        match (self, other) {
            (Instruction::Add(_, _), Instruction::Add(_, _)) => true,
            (Instruction::Sub(_, _), Instruction::Sub(_, _)) => true,
            (Instruction::Mul(_, _), Instruction::Mul(_, _)) => true,
            (Instruction::Div(_, _), Instruction::Div(_, _)) => true,
            (Instruction::Shl(_, _), Instruction::Shl(_, _)) => true,
            (Instruction::Shr(_, _), Instruction::Shr(_, _)) => true,
            (Instruction::Jz(_, _), Instruction::Jz(_, _)) => true,
            (Instruction::Jnz(_, _), Instruction::Jnz(_, _)) => true,
            (Instruction::Lb(_, _), Instruction::Lb(_, _)) => true,
            (Instruction::Sb(_, _), Instruction::Sb(_, _)) => true,
            (Instruction::Halt, Instruction::Halt) => true,
            _ => false,
        }
    }

    /// The canonical opcode of the instruction, a number in `0..=10`.
    pub fn get_opcode(&self) -> (opcode: u8)
        ensures
            opcode == self.opcode(),
            opcode < OPCODE_COUNT,
    {
        match self {
            Instruction::Add(_, _) => 0,
            Instruction::Sub(_, _) => 1,
            Instruction::Mul(_, _) => 2,
            Instruction::Div(_, _) => 3,
            Instruction::Shl(_, _) => 4,
            Instruction::Shr(_, _) => 5,
            Instruction::Jz(_, _) => 6,
            Instruction::Jnz(_, _) => 7,
            Instruction::Lb(_, _) => 8,
            Instruction::Sb(_, _) => 9,
            Instruction::Halt => 10,
        }
    }

    /// The one-hot encoding of the opcode: eleven bytes, the one at the
    /// opcode's index set to 1 and all others 0.
    pub fn one_hot_encode(&self) -> (encoding: [u8; 11])
        ensures
            encoding@ == one_hot(self.opcode() as nat),
    {
        let mut encoding: [u8; 11] = [0u8; 11];
        encoding[self.get_opcode() as usize] = 1;
        assert(encoding@ =~= one_hot(self.opcode() as nat));
        encoding
    }

    /// The one-hot encoding of the opcode as field elements, each held by
    /// its canonical representative: the field's one at the opcode's index
    /// and its zero everywhere else.
    pub fn one_hot_encode_and_apply(&self) -> (encoding: [u64; 11])
        ensures
            encoding@ == one_hot(self.opcode() as nat).map_values(|bit: u8| bit as u64),
    {
        let mut encoding: [u64; 11] = [0u64; 11];
        encoding[self.get_opcode() as usize] = 1;
        assert(encoding@ =~= one_hot(self.opcode() as nat).map_values(|bit: u8| bit as u64));
        encoding
    }
}

impl Clone for Instruction {
    fn clone(&self) -> (instruction: Self)
        ensures
            instruction == *self,
    {
        match self {
            Instruction::Add(a, b) => Instruction::Add(*a, *b),
            Instruction::Sub(a, b) => Instruction::Sub(*a, *b),
            Instruction::Mul(a, b) => Instruction::Mul(*a, *b),
            Instruction::Div(a, b) => Instruction::Div(*a, *b),
            Instruction::Shl(a, b) => Instruction::Shl(*a, *b),
            Instruction::Shr(a, b) => Instruction::Shr(*a, *b),
            Instruction::Jz(a, location) => Instruction::Jz(*a, *location),
            Instruction::Jnz(a, location) => Instruction::Jnz(*a, *location),
            Instruction::Lb(a, location) => Instruction::Lb(*a, *location),
            Instruction::Sb(a, location) => Instruction::Sb(*a, *location),
            Instruction::Halt => Instruction::Halt,
        }
    }
}

impl Default for Instruction {
    fn default() -> (instruction: Self)
        ensures
            instruction == Instruction::Halt,
    {
        Instruction::Halt
    }
}

/// Every opcode lies in the dense range `0..OPCODE_COUNT`.
pub proof fn lemma_opcode_in_range(instruction: Instruction)
    ensures
        instruction.opcode() < OPCODE_COUNT,
{
}

/// The opcode numbering is unique: two instructions have the same opcode
/// exactly when they are of the same variant.
pub proof fn lemma_opcode_unique(a: Instruction, b: Instruction)
    ensures
        a.opcode() == b.opcode() <==> a.same_variant(b),
{
}

/// The opcode numbering is dense: every number below `OPCODE_COUNT` is the
/// opcode of some instruction.
pub proof fn lemma_opcode_dense(opcode: nat)
    requires
        opcode < OPCODE_COUNT,
    ensures
        exists|instruction: Instruction| instruction.opcode() == opcode,
{
    let r = Register::R0;
    let m = MemoryLocation(0);
    let l = InstructionLocation(0);
    let witnesses = seq![
        Instruction::Add(r, r),
        Instruction::Sub(r, r),
        Instruction::Mul(r, r),
        Instruction::Div(r, r),
        Instruction::Shl(r, r),
        Instruction::Shr(r, r),
        Instruction::Jz(r, l),
        Instruction::Jnz(r, l),
        Instruction::Lb(r, m),
        Instruction::Sb(r, m),
        Instruction::Halt,
    ];
    assert(witnesses[opcode as int].opcode() == opcode);
}

/// The one-hot encoding has width `OPCODE_COUNT`, and exactly one entry of
/// it is set: the single index that holds 1 is the instruction's opcode, and
/// every other entry is 0.
pub proof fn lemma_one_hot_round_trip(instruction: Instruction)
    ensures
        one_hot(instruction.opcode() as nat).len() == OPCODE_COUNT,
        forall|i: int|
            0 <= i < OPCODE_COUNT ==> (#[trigger] one_hot(instruction.opcode() as nat)[i] == 1 <==> i
                == instruction.opcode()),
        forall|i: int|
            0 <= i < OPCODE_COUNT && i != instruction.opcode() ==> #[trigger] one_hot(
                instruction.opcode() as nat,
            )[i] == 0,
{
}

/// A program: where it starts, its code, and the memory it starts with.
///
/// A program is plain data. Nothing is checked when one is made: the entry
/// point need not be the address of an instruction.
#[derive(Debug, PartialEq)]
pub struct Program {
    /// The address of the first instruction to run.
    pub entry_point: u8,
    /// The code: the instruction at each address that holds one.
    pub code: HashMap<u8, Instruction>,
    /// The contents of memory when the program starts.
    pub memory_init: HashMap<u8, u8>,
}

impl Clone for Program {
    fn clone(&self) -> (program: Self)
        ensures
            program.entry_point == self.entry_point,
            program.code@ == self.code@,
            program.memory_init@ == self.memory_init@,
    {
        Program {
            entry_point: self.entry_point,
            code: self.code.clone(),
            memory_init: self.memory_init.clone(),
        }
    }
}

impl Default for Program {
    fn default() -> (program: Self)
        ensures
            program.entry_point == 0,
            program.code@ == Map::<u8, Instruction>::empty(),
            program.memory_init@ == Map::<u8, u8>::empty(),
    {
        Program { entry_point: 0, code: HashMap::new(), memory_init: HashMap::new() }
    }
}

} // verus!
