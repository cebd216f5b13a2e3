//! What the decoder hands to a lifting routine, and what the routine
//! hands back.
//!
//! The decoder matches the bytes of one instruction and calls a routine
//! with a [`State`]. The routine reads the decoded fields from it and
//! submits [`Mnemonic`] records and control-flow [`Edge`]s to it. What has
//! been submitted stays in the state, in order, for the caller to pass on.

use vstd::prelude::*;
use crate::ir::{Guard, LiftError, Rvalue, Statement};

verus! {

/// How instructions are to be lifted.
#[derive(Clone, Copy, Debug, PartialEq, Eq, Structural)]
pub struct Variant {
    /// Whether the instructions run with decimal mode switched on. Decimal
    /// arithmetic is not modelled: add-with-carry and subtract-with-borrow
    /// are refused under it.
    pub decimal: bool,
}

impl Variant {
    /// The plain processor, in binary mode.
    pub fn mos6502() -> (v: Variant)
        ensures
            v == (Variant { decimal: false }),
    {
        Variant { decimal: false }
    }
}

/// A field of the instruction's encoding that the decoder has extracted.
#[derive(Clone, Copy, Debug, PartialEq, Eq, Structural)]
pub enum Group {
    /// The low byte of a 16-bit immediate.
    ImmLo,
    /// The high byte of a 16-bit immediate.
    ImmHi,
}

/// One decoded instruction as it is shown and as it acts.
#[derive(Clone, Debug, PartialEq, Eq)]
pub struct Mnemonic {
    /// The number of bytes of the encoding. A hidden step has length 0.
    pub length: usize,
    /// The name of the instruction.
    pub opcode: &'static str,
    /// How the operands are to be shown.
    pub format: &'static str,
    /// The operands to be shown.
    pub operands: Vec<Rvalue>,
    /// What the instruction does.
    pub statements: Vec<Statement>,
}

/// The content of a [`Mnemonic`].
pub struct Record {
    pub length: nat,
    pub opcode: Seq<char>,
    pub format: Seq<char>,
    pub operands: Seq<Rvalue>,
    pub statements: Seq<Statement>,
}

impl View for Mnemonic {
    type V = Record;

    open spec fn view(&self) -> Record {
        Record {
            length: self.length as nat,
            opcode: self.opcode@,
            format: self.format@,
            operands: self.operands@,
            statements: self.statements@,
        }
    }
}

/// A control-flow edge from the instruction at `origin` to `target`.
#[derive(Clone, Copy, Debug, PartialEq, Eq, Structural)]
pub struct Edge {
    pub origin: u64,
    /// A literal address, or a variable whose value is known only when the
    /// statements before the edge have run.
    pub target: Rvalue,
    pub guard: Guard,
}

/// The decoder's view of one instruction, and what the routine has
/// submitted for it.
#[derive(Debug)]
pub struct State {
    /// The address of the instruction.
    pub address: u64,
    /// The number of bytes that the decoder consumed for the instruction.
    pub consumed: usize,
    /// The low byte of the immediate.
    pub immlo: u8,
    /// The high byte of the immediate.
    pub immhi: u8,
    /// How the instruction is to be lifted.
    pub configuration: Variant,
    /// The records submitted so far.
    pub mnemonics: Vec<Mnemonic>,
    /// The edges submitted so far.
    pub jumps: Vec<Edge>,
    /// The number of bytes that the records submitted so far claim.
    pub claimed: usize,
}

impl State {
    /// The content of the records submitted so far, in order.
    pub open spec fn records(&self) -> Seq<Record> {
        self.mnemonics@.map_values(|m: Mnemonic| m@)
    }

    /// Whether a record of `length` bytes agrees with the bytes consumed: a
    /// hidden step of length 0 always does, any other record only if it
    /// claims exactly the bytes that no earlier record has claimed.
    pub open spec fn agrees(&self, length: usize) -> bool {
        length == 0 || self.claimed + length == self.consumed
    }

    /// The state of an instruction at `address` for which the decoder
    /// consumed `consumed` bytes and found the immediate bytes `immlo` and
    /// `immhi`. Nothing has been submitted yet.
    pub fn new(address: u64, consumed: usize, immlo: u8, immhi: u8, configuration: Variant) -> (st:
        State)
        ensures
            st.address == address,
            st.consumed == consumed,
            st.immlo == immlo,
            st.immhi == immhi,
            st.configuration == configuration,
            st.mnemonics@.len() == 0,
            st.jumps@.len() == 0,
            st.claimed == 0,
    {
        State {
            address,
            consumed,
            immlo,
            immhi,
            configuration,
            mnemonics: Vec::new(),
            jumps: Vec::new(),
            claimed: 0,
        }
    }

    /// The decoded field `group`.
    pub fn get_group(&self, group: Group) -> (v: u64)
        ensures
            v == match group {
                Group::ImmLo => self.immlo,
                Group::ImmHi => self.immhi,
            },
    {
        match group {
            Group::ImmLo => self.immlo as u64,
            Group::ImmHi => self.immhi as u64,
        }
    }

    /// Computes [`State::agrees`].
    pub fn accepts(&self, length: usize) -> (ok: bool)
        ensures
            ok == self.agrees(length),
    {
        length == 0 || (length <= self.consumed && self.claimed == self.consumed - length)
    }

    /// Submits the record of an instruction. A record whose length does not
    /// agree with the bytes consumed is rejected with
    /// `DecodeInconsistency`, and the state stays as it was.
    pub fn mnemonic(
        &mut self,
        length: usize,
        opcode: &'static str,
        format: &'static str,
        operands: Vec<Rvalue>,
        statements: Vec<Statement>,
    ) -> (res: Result<(), LiftError>)
        ensures
            old(self).agrees(length) ==> {
                &&& res is Ok
                &&& final(self).records() == old(self).records().push(
                    Record {
                        length: length as nat,
                        opcode: opcode@,
                        format: format@,
                        operands: operands@,
                        statements: statements@,
                    },
                )
                &&& final(self).claimed == old(self).claimed + length
                &&& final(self).jumps == old(self).jumps
                &&& final(self).address == old(self).address
                &&& final(self).consumed == old(self).consumed
                &&& final(self).immlo == old(self).immlo
                &&& final(self).immhi == old(self).immhi
                &&& final(self).configuration == old(self).configuration
            },
            !old(self).agrees(length) ==> {
                &&& res == Err::<(), LiftError>(LiftError::DecodeInconsistency)
                &&& *final(self) == *old(self)
            },
    {
        if !self.accepts(length) {
            return Err(LiftError::DecodeInconsistency);
        }
        let m = Mnemonic { length, opcode, format, operands, statements };
        self.mnemonics.push(m);
        self.claimed = self.claimed + length;
        proof {
            assert(self.records() =~= old(self).records().push(m@));
        }
        Ok(())
    }

    /// Submits an edge from the instruction to `target`. The target is a
    /// literal address or a variable; a memory cell is rejected with
    /// `MalformedOperand`, and the state stays as it was.
    pub fn jump(&mut self, target: Rvalue, guard: Guard) -> (res: Result<(), LiftError>)
        ensures
            target.is_scalar() ==> {
                &&& res is Ok
                &&& final(self).jumps@ == old(self).jumps@.push(
                    Edge { origin: old(self).address, target, guard },
                )
                &&& final(self).mnemonics == old(self).mnemonics
                &&& final(self).claimed == old(self).claimed
                &&& final(self).address == old(self).address
                &&& final(self).consumed == old(self).consumed
                &&& final(self).immlo == old(self).immlo
                &&& final(self).immhi == old(self).immhi
                &&& final(self).configuration == old(self).configuration
            },
            !target.is_scalar() ==> {
                &&& res == Err::<(), LiftError>(LiftError::MalformedOperand)
                &&& *final(self) == *old(self)
            },
    {
        match target {
            Rvalue::Memory { .. } => Err(LiftError::MalformedOperand),
            _ => {
                self.jumps.push(Edge { origin: self.address, target, guard });
                Ok(())
            },
        }
    }
}

} // verus!
