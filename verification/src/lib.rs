//! The static program of a small virtual machine as a table for a proof
//! system.
//!
//! A program is a listing: the instruction at each address that holds one.
//! This crate numbers the instructions, builds the table that stands for a
//! listing, and states the constraint that every row of such a table
//! satisfies:
//!
//! - [`vm_specs`]: registers, addresses, instructions with their opcodes and
//!   one-hot encodings, and the program;
//! - [`trace`]: the rows of a program's trace, in ascending order of
//!   address and padded to a power of two, and the table of their columns;
//! - [`power_of_two`]: the length that a trace is padded to;
//! - [`constraint`]: the polynomial that vanishes where the filter is 0 or
//!   1, and its value in a prime field;
//! - [`stark_program_instructions`]: the table's description: its shape,
//!   its trace, its constraint and the degree that it declares.
//!
//! Field elements are held by their canonical representatives. What is
//! proved of a trace is proved of those, and holds in every field that the
//! table is then embedded in.

pub mod constraint;
pub mod power_of_two;
pub mod stark_program_instructions;
pub mod trace;
pub mod vm_specs;
