//! Lifting of MOS 6502 instructions into a register-transfer intermediate
//! representation.
//!
//! A disassembler decodes the bytes of an instruction and calls the routine
//! of [`semantic`] that belongs to it. The routine returns the statements
//! that the instruction stands for; a jump or call also submits its record
//! and its control-flow edge to the decoder's [`state`]. Nothing is
//! executed: the statements describe what the processor would do.
//!
//! * [`ir`] holds the representation: values, assignment targets,
//!   operations, statements and guards.
//! * [`builder`] collects the statements of one instruction and holds each
//!   to its rules: widths agree, and nothing is read before it exists.
//! * [`semantic`] holds the routines, one for each instruction.
//! * [`state`] holds what the decoder hands to a routine and what the
//!   routine leaves there.
//! * [`machine`] says what statements mean, as a function on the state of
//!   the processor, and computes it.
//! * [`laws`] says what each instruction's statements do to the processor,
//!   in ordinary arithmetic, and proves it.
//! * [`bits`] holds the bit-field arithmetic underneath.

pub mod bits;
pub mod builder;
pub mod ir;
pub mod laws;
pub mod machine;
pub mod semantic;
pub mod state;
