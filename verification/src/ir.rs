//! The register-transfer representation.
//!
//! A lifted instruction is a sequence of [`Statement`]s. Each statement
//! applies one [`Operation`] to [`Rvalue`]s and assigns the result to an
//! [`Lvalue`]. Widths are explicit everywhere: no operation changes the width
//! of a value silently.

use vstd::prelude::*;
use crate::bits::{field, field_of};

verus! {

/// A named storage location: a register or flag of the processor, or a
/// temporary of the instruction being lifted.
#[derive(Clone, Copy, Debug, PartialEq, Eq, Structural)]
pub enum Name {
    /// The accumulator, 8 bits.
    A,
    /// The first index register, 8 bits.
    X,
    /// The second index register, 8 bits.
    Y,
    /// The stack pointer, 8 bits.
    S,
    /// The carry flag.
    C,
    /// The zero flag.
    Z,
    /// The interrupt-disable flag.
    I,
    /// The decimal-mode flag.
    D,
    /// The break flag.
    B,
    /// The overflow flag.
    V,
    /// The negative flag.
    N,
    /// A temporary, numbered in the order of its declaration.
    Temp(u8),
}

impl Name {
    /// Whether this is one of the four 8-bit registers.
    pub open spec fn is_register(self) -> bool {
        self is A || self is X || self is Y || self is S
    }

    /// Whether this is one of the seven 1-bit flags.
    pub open spec fn is_flag(self) -> bool {
        self is C || self is Z || self is I || self is D || self is B || self is V || self is N
    }

    /// The width in bits of the storage behind this name, given the widths
    /// of the temporaries declared so far; 0 for a temporary that has not
    /// been declared.
    pub open spec fn bits(self, temps: Seq<u8>) -> u8 {
        match self {
            Name::Temp(k) => if (k as int) < temps.len() {
                temps[k as int]
            } else {
                0
            },
            _ => if self.is_register() {
                8
            } else {
                1
            },
        }
    }
}

/// An address space that memory cells live in.
#[derive(Clone, Copy, Debug, PartialEq, Eq, Structural)]
pub enum Space {
    /// The 64 KiB of memory on the processor's bus.
    Ram,
}

/// The address of a memory cell: a literal, or the content of a bit field
/// of a named location.
#[derive(Clone, Copy, Debug, PartialEq, Eq, Structural)]
pub enum Pointer {
    Constant { value: u64, width: u8 },
    Variable { name: Name, width: u8, offset: u8 },
}

/// A value that a statement reads.
#[derive(Clone, Copy, Debug, PartialEq, Eq, Structural)]
pub enum Rvalue {
    /// The integer `value`, `width` bits wide.
    Constant { value: u64, width: u8 },
    /// The `width` bits of the location `name` that start at bit `offset`.
    Variable { name: Name, width: u8, offset: u8 },
    /// The `width` bits of memory that start at `address`, lowest byte
    /// first.
    Memory { space: Space, address: Pointer, width: u8 },
}

/// An assignment target: the `width` bits of the location `name` that start
/// at bit `offset`. Memory is never a target; it is written by
/// [`Operation::Store`].
#[derive(Clone, Copy, Debug, PartialEq, Eq, Structural)]
pub struct Lvalue {
    pub name: Name,
    pub width: u8,
    pub offset: u8,
}

/// The condition under which a control-flow edge is taken.
#[derive(Clone, Copy, Debug, PartialEq, Eq, Structural)]
pub enum Guard {
    /// The edge is always taken.
    Always,
    /// The edge is never taken.
    Never,
    /// The edge is taken when the 1-bit value `flag` equals `expected`.
    Predicate { flag: Rvalue, expected: bool },
}

/// What a statement computes.
#[derive(Clone, Copy, Debug, PartialEq, Eq, Structural)]
pub enum Operation {
    /// The operand itself.
    Move(Rvalue),
    /// The sum of the operands, modulo the width.
    Add(Rvalue, Rvalue),
    /// The first operand less the second, modulo the width.
    Subtract(Rvalue, Rvalue),
    /// Bitwise conjunction.
    And(Rvalue, Rvalue),
    /// Bitwise inclusive disjunction.
    InclusiveOr(Rvalue, Rvalue),
    /// Bitwise exclusive disjunction.
    ExclusiveOr(Rvalue, Rvalue),
    /// The first operand shifted left by the second; zeros enter.
    ShiftLeft(Rvalue, Rvalue),
    /// The first operand shifted right by the second; zeros enter.
    ShiftRight(Rvalue, Rvalue),
    /// The operand, widened with zeros.
    ZeroExtend(Rvalue),
    /// The operand, widened with copies of its highest bit.
    SignExtend(Rvalue),
    /// The lowest bits of the operand.
    Truncate(Rvalue),
    /// The first operand with the bit field at the given offset replaced by
    /// the second operand.
    Select(u8, Rvalue, Rvalue),
    /// 1 if the operands are equal, else 0.
    Equal(Rvalue, Rvalue),
    /// 1 if the first operand is below the second, both unsigned, else 0.
    LessUnsigned(Rvalue, Rvalue),
    /// 1 if the first operand is not above the second, both unsigned,
    /// else 0.
    LessOrEqualUnsigned(Rvalue, Rvalue),
    /// 1 if the first operand is below the second, both in two's
    /// complement, else 0.
    LessSigned(Rvalue, Rvalue),
    /// 1 if the first operand is not above the second, both in two's
    /// complement, else 0.
    LessOrEqualSigned(Rvalue, Rvalue),
    /// The content of the memory cell that the operand names.
    Load(Rvalue),
    /// Writes the second operand to the memory cell that the first names.
    Store(Rvalue, Rvalue),
    /// Marks a call of the subroutine at the operand. It has no effect of
    /// its own.
    Call(Rvalue),
}

/// One operation and the target that receives its result. `Store` and
/// `Call` have no result and no target.
#[derive(Clone, Copy, Debug, PartialEq, Eq, Structural)]
pub struct Statement {
    pub assignee: Option<Lvalue>,
    pub op: Operation,
}

/// Why an instruction could not be lifted or recorded.
#[derive(Clone, Copy, Debug, PartialEq, Eq, Structural)]
pub enum LiftError {
    /// An operand names bits outside its source or a temporary that has not
    /// been declared and assigned to, or has a width that does not fit the
    /// operation.
    MalformedOperand,
    /// The instruction's behaviour is deliberately not modelled.
    UnsupportedSemantics,
    /// A record claims other bytes than the decoder consumed.
    DecodeInconsistency,
}

impl Pointer {
    /// The pointer as a value.
    pub open spec fn value(self) -> Rvalue {
        match self {
            Pointer::Constant { value, width } => Rvalue::Constant { value, width },
            Pointer::Variable { name, width, offset } => Rvalue::Variable { name, width, offset },
        }
    }

    /// Computes [`Pointer::value`].
    pub fn to_rvalue(&self) -> (r: Rvalue)
        ensures
            r == self.value(),
    {
        match *self {
            Pointer::Constant { value, width } => Rvalue::Constant { value, width },
            Pointer::Variable { name, width, offset } => Rvalue::Variable { name, width, offset },
        }
    }
}

impl Rvalue {
    /// The width of the value in bits.
    pub open spec fn bits(self) -> u8 {
        match self {
            Rvalue::Constant { width, .. } => width,
            Rvalue::Variable { width, .. } => width,
            Rvalue::Memory { width, .. } => width,
        }
    }

    /// Whether the value is a constant or a variable, that is, no memory
    /// cell.
    pub open spec fn is_scalar(self) -> bool {
        !(self is Memory)
    }

    /// The value as the address of a memory cell; `None` for a memory cell,
    /// whose content is no address until it has been loaded.
    pub open spec fn pointer(self) -> Option<Pointer> {
        match self {
            Rvalue::Constant { value, width } => Some(Pointer::Constant { value, width }),
            Rvalue::Variable { name, width, offset } => Some(
                Pointer::Variable { name, width, offset },
            ),
            Rvalue::Memory { .. } => None,
        }
    }

    /// The constant `value`, `width` bits wide.
    pub fn constant(value: u64, width: u8) -> (r: Rvalue)
        ensures
            r == lit(value, width),
    {
        Rvalue::Constant { value, width }
    }

    /// The `width` bits of the memory of the processor that start at
    /// `address`.
    pub fn memory(address: Pointer, width: u8) -> (r: Rvalue)
        ensures
            r == ram(address, width),
    {
        Rvalue::Memory { space: Space::Ram, address, width }
    }

    /// The `width` bits of this value that start at its bit `offset`;
    /// `None` where they do not lie within it, and for a memory cell.
    pub open spec fn slice(self, width: u8, offset: u8) -> Option<Rvalue> {
        match self {
            Rvalue::Constant { value, width: w } => if 1 <= width && offset + width <= w {
                Some(Rvalue::Constant { value: field(value, offset, width), width })
            } else {
                None
            },
            Rvalue::Variable { name, width: w, offset: o } => if 1 <= width && offset + width
                <= w && o + offset <= u8::MAX {
                Some(Rvalue::Variable { name, width, offset: (o + offset) as u8 })
            } else {
                None
            },
            Rvalue::Memory { .. } => None,
        }
    }

    /// Computes [`Rvalue::slice`]; `MalformedOperand` stands for `None`.
    pub fn extract(&self, width: u8, offset: u8) -> (res: Result<Rvalue, LiftError>)
        ensures
            match self.slice(width, offset) {
                Some(v) => res == Ok::<Rvalue, LiftError>(v),
                None => res == Err::<Rvalue, LiftError>(LiftError::MalformedOperand),
            },
    {
        match *self {
            Rvalue::Constant { value, width: w } => {
                if 1 <= width && (offset as u16) + (width as u16) <= w as u16 {
                    Ok(Rvalue::Constant { value: field_of(value, offset, width), width })
                } else {
                    Err(LiftError::MalformedOperand)
                }
            },
            Rvalue::Variable { name, width: w, offset: o } => {
                if 1 <= width && (offset as u16) + (width as u16) <= w as u16 && (o as u16) + (
                offset as u16) <= 255 {
                    Ok(Rvalue::Variable { name, width, offset: o + offset })
                } else {
                    Err(LiftError::MalformedOperand)
                }
            },
            Rvalue::Memory { .. } => Err(LiftError::MalformedOperand),
        }
    }

    /// The 1-bit constant `v`.
    pub fn new_bit(v: bool) -> (r: Rvalue)
        ensures
            r == (Rvalue::Constant { value: if v { 1u64 } else { 0u64 }, width: 1 }),
    {
        Rvalue::Constant { value: if v { 1 } else { 0 }, width: 1 }
    }

    /// The 8-bit constant `v`.
    pub fn new_u8(v: u8) -> (r: Rvalue)
        ensures
            r == (Rvalue::Constant { value: v as u64, width: 8 }),
    {
        Rvalue::Constant { value: v as u64, width: 8 }
    }

    /// The 16-bit constant `v`.
    pub fn new_u16(v: u16) -> (r: Rvalue)
        ensures
            r == (Rvalue::Constant { value: v as u64, width: 16 }),
    {
        Rvalue::Constant { value: v as u64, width: 16 }
    }

    /// Computes [`Rvalue::bits`].
    pub fn width(&self) -> (w: u8)
        ensures
            w == self.bits(),
    {
        match *self {
            Rvalue::Constant { width, .. } => width,
            Rvalue::Variable { width, .. } => width,
            Rvalue::Memory { width, .. } => width,
        }
    }

    /// Computes [`Rvalue::pointer`].
    pub fn to_pointer(&self) -> (p: Option<Pointer>)
        ensures
            p == self.pointer(),
    {
        match *self {
            Rvalue::Constant { value, width } => Some(Pointer::Constant { value, width }),
            Rvalue::Variable { name, width, offset } => Some(
                Pointer::Variable { name, width, offset },
            ),
            Rvalue::Memory { .. } => None,
        }
    }
}

impl Lvalue {
    /// The whole of the 8-bit register `name`.
    pub fn register(name: Name) -> (l: Lvalue)
        ensures
            l == reg(name),
    {
        Lvalue { name, width: 8, offset: 0 }
    }

    /// The whole of the flag `name`.
    pub fn flag(name: Name) -> (l: Lvalue)
        ensures
            l == flag(name),
    {
        Lvalue { name, width: 1, offset: 0 }
    }

    /// The target as the address of a memory cell.
    pub open spec fn pointer(self) -> Pointer {
        Pointer::Variable { name: self.name, width: self.width, offset: self.offset }
    }

    /// Computes [`Lvalue::pointer`].
    pub fn to_pointer(&self) -> (p: Pointer)
        ensures
            p == self.pointer(),
    {
        Pointer::Variable { name: self.name, width: self.width, offset: self.offset }
    }

    /// The `width` bits of this target that start at its bit `offset`, as a
    /// value; `MalformedOperand` where they do not lie within it.
    pub fn extract(&self, width: u8, offset: u8) -> (res: Result<Rvalue, LiftError>)
        ensures
            match self.value().slice(width, offset) {
                Some(v) => res == Ok::<Rvalue, LiftError>(v),
                None => res == Err::<Rvalue, LiftError>(LiftError::MalformedOperand),
            },
    {
        self.to_rvalue().extract(width, offset)
    }

    /// What a read of this target gives.
    pub open spec fn value(self) -> Rvalue {
        Rvalue::Variable { name: self.name, width: self.width, offset: self.offset }
    }

    /// Computes [`Lvalue::value`].
    pub fn to_rvalue(&self) -> (r: Rvalue)
        ensures
            r == self.value(),
    {
        Rvalue::Variable { name: self.name, width: self.width, offset: self.offset }
    }

    /// The target that a variable names; `None` for a constant and for a
    /// memory cell, which cannot be assigned to.
    pub fn from_rvalue(rv: Rvalue) -> (l: Option<Lvalue>)
        ensures
            l == match rv {
                Rvalue::Variable { name, width, offset } => Some(Lvalue { name, width, offset }),
                _ => None,
            },
    {
        match rv {
            Rvalue::Variable { name, width, offset } => Some(Lvalue { name, width, offset }),
            _ => None,
        }
    }
}

impl Guard {
    /// The guard of an edge that is always taken.
    pub fn always() -> (g: Guard)
        ensures
            g == Guard::Always,
    {
        Guard::Always
    }

    /// The guard of an edge that is never taken.
    pub fn never() -> (g: Guard)
        ensures
            g == Guard::Never,
    {
        Guard::Never
    }
}

/// The whole of the 8-bit register `name`.
pub open spec fn reg(name: Name) -> Lvalue {
    Lvalue { name, width: 8, offset: 0 }
}

/// The whole of the flag `name`.
pub open spec fn flag(name: Name) -> Lvalue {
    Lvalue { name, width: 1, offset: 0 }
}

/// The temporary with the number `k`, `width` bits wide.
pub open spec fn temp(k: u8, width: u8) -> Lvalue {
    Lvalue { name: Name::Temp(k), width, offset: 0 }
}

/// The constant `value`, `width` bits wide.
pub open spec fn lit(value: u64, width: u8) -> Rvalue {
    Rvalue::Constant { value, width }
}

/// The `width` bits of the memory of the processor that start at `address`.
pub open spec fn ram(address: Pointer, width: u8) -> Rvalue {
    Rvalue::Memory { space: Space::Ram, address, width }
}

/// The statement that assigns the result of `op` to `dst`.
pub open spec fn put(dst: Lvalue, op: Operation) -> Statement {
    Statement { assignee: Some(dst), op }
}

/// The statement that performs `op`, which has no result.
pub open spec fn perform(op: Operation) -> Statement {
    Statement { assignee: None, op }
}

} // verus!
