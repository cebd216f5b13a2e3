//! Building the statement sequence of one instruction.
//!
//! A [`Builder`] hands out temporaries, takes statements in program order
//! and checks each against the rules as it arrives: widths must agree, bit
//! fields must lie within their source, and a temporary must have been
//! assigned to before it is read. The first statement that breaks a rule
//! is dropped together with everything that follows, and
//! [`Builder::finalize`] reports the failure.

use vstd::prelude::*;
use crate::bits::{mask, mask_of};
use crate::ir::{LiftError, Lvalue, Name, Operation, Rvalue, Statement};

verus! {

/// Whether `r` is a constant that fits its width, or a bit field that lies
/// within its source, where `temps` holds the widths of the temporaries
/// declared so far.
pub open spec fn scalar_ok(r: Rvalue, temps: Seq<u8>) -> bool {
    match r {
        Rvalue::Constant { value, width } => 1 <= width <= 64 && value <= mask(width),
        Rvalue::Variable { name, width, offset } => 1 <= width && offset + width <= name.bits(
            temps,
        ),
        Rvalue::Memory { .. } => false,
    }
}

/// Whether the location `name` holds a value: a register or a flag always
/// does, a temporary once it is among `defined`, those that have been
/// assigned to.
pub open spec fn holds_value(name: Name, defined: Set<u8>) -> bool {
    match name {
        Name::Temp(k) => defined.contains(k),
        _ => true,
    }
}

/// Whether `r` can be read: it is a well-formed scalar, and if it names a
/// temporary, an earlier statement has assigned to it.
pub open spec fn readable(r: Rvalue, temps: Seq<u8>, defined: Set<u8>) -> bool {
    &&& scalar_ok(r, temps)
    &&& r matches Rvalue::Variable { name, .. } ==> holds_value(name, defined)
}

/// Whether `r` is a memory cell of 1, 2, 4 or 8 bytes whose address can be
/// read and has at most 16 bits.
pub open spec fn cell_ok(r: Rvalue, temps: Seq<u8>, defined: Set<u8>) -> bool {
    match r {
        Rvalue::Memory { address, width, .. } => {
            &&& readable(address.value(), temps, defined)
            &&& address.value().bits() <= 16
            &&& (width == 8 || width == 16 || width == 32 || width == 64)
        },
        _ => false,
    }
}

/// Whether `l` lies within its source.
pub open spec fn target_ok(l: Lvalue, temps: Seq<u8>) -> bool {
    1 <= l.width && l.offset + l.width <= l.name.bits(temps)
}

/// Whether both operands can be read and have `width` bits.
pub open spec fn pair_ok(
    a: Rvalue,
    b: Rvalue,
    width: u8,
    temps: Seq<u8>,
    defined: Set<u8>,
) -> bool {
    &&& readable(a, temps, defined)
    &&& readable(b, temps, defined)
    &&& a.bits() == width
    &&& b.bits() == width
}

/// The rules for an operation whose result goes to `dst`.
pub open spec fn assignment_ok(
    dst: Lvalue,
    op: Operation,
    temps: Seq<u8>,
    defined: Set<u8>,
) -> bool {
    &&& target_ok(dst, temps)
    &&& match op {
        Operation::Move(a) => readable(a, temps, defined) && a.bits() == dst.width,
        Operation::Add(a, b) => pair_ok(a, b, dst.width, temps, defined),
        Operation::Subtract(a, b) => pair_ok(a, b, dst.width, temps, defined),
        Operation::And(a, b) => pair_ok(a, b, dst.width, temps, defined),
        Operation::InclusiveOr(a, b) => pair_ok(a, b, dst.width, temps, defined),
        Operation::ExclusiveOr(a, b) => pair_ok(a, b, dst.width, temps, defined),
        Operation::ShiftLeft(a, b) => pair_ok(a, b, dst.width, temps, defined),
        Operation::ShiftRight(a, b) => pair_ok(a, b, dst.width, temps, defined),
        Operation::ZeroExtend(a) => readable(a, temps, defined) && a.bits() <= dst.width,
        Operation::SignExtend(a) => readable(a, temps, defined) && a.bits() <= dst.width,
        Operation::Truncate(a) => readable(a, temps, defined) && a.bits() >= dst.width,
        Operation::Select(offset, a, b) => {
            &&& readable(a, temps, defined)
            &&& readable(b, temps, defined)
            &&& a.bits() == dst.width
            &&& offset + b.bits() <= a.bits()
        },
        Operation::Equal(a, b) => pair_ok(a, b, a.bits(), temps, defined) && dst.width == 1,
        Operation::LessUnsigned(a, b) => pair_ok(a, b, a.bits(), temps, defined) && dst.width
            == 1,
        Operation::LessOrEqualUnsigned(a, b) => pair_ok(a, b, a.bits(), temps, defined)
            && dst.width == 1,
        Operation::LessSigned(a, b) => pair_ok(a, b, a.bits(), temps, defined) && dst.width == 1,
        Operation::LessOrEqualSigned(a, b) => pair_ok(a, b, a.bits(), temps, defined)
            && dst.width == 1,
        Operation::Load(cell) => cell_ok(cell, temps, defined) && cell.bits() == dst.width,
        Operation::Store(_, _) => false,
        Operation::Call(_) => false,
    }
}

/// The rules for an operation without a result.
pub open spec fn effect_ok(op: Operation, temps: Seq<u8>, defined: Set<u8>) -> bool {
    match op {
        Operation::Store(cell, v) => {
            &&& cell_ok(cell, temps, defined)
            &&& readable(v, temps, defined)
            &&& cell.bits() == v.bits()
        },
        Operation::Call(target) => readable(target, temps, defined),
        _ => false,
    }
}

/// The rules for a statement that stands where the temporaries have the
/// widths `temps` and those of `defined` have been assigned to.
pub open spec fn statement_ok(s: Statement, temps: Seq<u8>, defined: Set<u8>) -> bool {
    match s.assignee {
        Some(dst) => assignment_ok(dst, s.op, temps, defined),
        None => effect_ok(s.op, temps, defined),
    }
}

/// Whether `s` assigns to the temporary `k`.
pub open spec fn assigns(s: Statement, k: u8) -> bool {
    s.assignee matches Some(dst) && dst.name == Name::Temp(k)
}

/// The temporaries that the statements of `code` assign to.
pub open spec fn assigned(code: Seq<Statement>) -> Set<u8> {
    Set::new(|k: u8| exists|j: int| 0 <= j < code.len() && assigns(#[trigger] code[j], k))
}

/// Whether every statement of `code` obeys the rules where `temps` holds
/// the widths of the temporaries, each between 1 and 64 bits: widths agree,
/// bit fields lie within their source, and a statement reads only those
/// temporaries that the statements before it have assigned to.
pub open spec fn typed_under(code: Seq<Statement>, temps: Seq<u8>) -> bool {
    &&& temps.len() <= 256
    &&& forall|k: int| 0 <= k < temps.len() ==> 1 <= #[trigger] temps[k] <= 64
    &&& forall|i: int|
        0 <= i < code.len() ==> statement_ok(#[trigger] code[i], temps, assigned(code.take(i)))
}

/// Whether the temporaries of `code` can be given widths under which every
/// statement obeys the rules: no statement changes a width but by
/// extension, truncation or a bit field, none names bits outside its
/// source, and none reads a temporary before it has been assigned to.
pub open spec fn well_typed(code: Seq<Statement>) -> bool {
    exists|temps: Seq<u8>| #[trigger] typed_under(code, temps)
}

/// A statement that obeys the rules still does so when one more temporary
/// has been declared.
pub proof fn lemma_declare_keeps(s: Statement, temps: Seq<u8>, defined: Set<u8>, width: u8)
    requires
        statement_ok(s, temps, defined),
    ensures
        statement_ok(s, temps.push(width), defined),
{
    assert forall|n: Name| n.bits(temps) > 0 implies n.bits(temps.push(width)) == n.bits(
        temps,
    ) by {}
}

/// One more statement adds the temporary that it assigns to, if any, to
/// those assigned to.
pub proof fn lemma_assigned_push(code: Seq<Statement>, s: Statement)
    ensures
        assigned(code.push(s)) == match s.assignee {
            Some(Lvalue { name: Name::Temp(k), .. }) => assigned(code).insert(k),
            _ => assigned(code),
        },
{
    let more = code.push(s);
    let expected = match s.assignee {
        Some(Lvalue { name: Name::Temp(k), .. }) => assigned(code).insert(k),
        _ => assigned(code),
    };
    assert forall|k: u8| assigned(more).contains(k) implies expected.contains(k) by {
        let j = choose|j: int| 0 <= j < more.len() && assigns(#[trigger] more[j], k);
        if j < code.len() {
            assert(assigns(code[j], k));
        }
    }
    assert forall|k: u8| expected.contains(k) implies assigned(more).contains(k) by {
        if assigned(code).contains(k) {
            let j = choose|j: int| 0 <= j < code.len() && assigns(#[trigger] code[j], k);
            assert(assigns(more[j], k));
        } else {
            assert(assigns(more[code.len() as int], k));
        }
    }
    assert(assigned(more) =~= expected);
}

/// A sequence that obeys the rules still does so with one more statement
/// that obeys them after it.
pub proof fn lemma_typed_push(code: Seq<Statement>, temps: Seq<u8>, s: Statement)
    requires
        typed_under(code, temps),
        statement_ok(s, temps, assigned(code)),
    ensures
        typed_under(code.push(s), temps),
{
    let more = code.push(s);
    assert forall|i: int| 0 <= i < more.len() implies statement_ok(
        #[trigger] more[i],
        temps,
        assigned(more.take(i)),
    ) by {
        if i < code.len() {
            assert(more.take(i) =~= code.take(i));
        } else {
            assert(more.take(i) =~= code);
        }
    }
}

/// The statements of one instruction under construction.
pub struct Builder {
    temps: Vec<u8>,
    written: Vec<bool>,
    code: Vec<Statement>,
    failed: bool,
}

impl Builder {
    /// The widths of the temporaries declared so far, in order.
    pub closed spec fn temps(&self) -> Seq<u8> {
        self.temps@
    }

    /// The statements accepted so far, in order.
    pub closed spec fn code(&self) -> Seq<Statement> {
        self.code@
    }

    /// The temporaries that the statements accepted so far assign to.
    pub open spec fn defined(&self) -> Set<u8> {
        assigned(self.code())
    }

    /// Whether a rule has been broken.
    pub closed spec fn failed(&self) -> bool {
        self.failed
    }

    /// At most 256 temporaries are declared, each between 1 and 64 bits
    /// wide, and the statements accepted so far obey the rules.
    pub closed spec fn wf(&self) -> bool {
        &&& typed_under(self.code@, self.temps@)
        &&& self.written@.len() == self.temps@.len()
        &&& forall|k: int|
            0 <= k < self.written@.len() ==> #[trigger] self.written@[k] == assigned(
                self.code@,
            ).contains(k as u8)
    }

    /// A builder with no temporaries and no statements.
    pub fn new() -> (b: Builder)
        ensures
            b.wf(),
            b.temps() == Seq::<u8>::empty(),
            b.code() == Seq::<Statement>::empty(),
            !b.failed(),
    {
        Builder { temps: Vec::new(), written: Vec::new(), code: Vec::new(), failed: false }
    }

    /// Declares a temporary of `width` bits and returns it as a target. The
    /// builder fails if `width` is not between 1 and 64 or if 256
    /// temporaries exist already; what it returns then names the first
    /// temporary and is of no use.
    pub fn declare(&mut self, width: u8) -> (t: Lvalue)
        requires
            old(self).wf(),
        ensures
            final(self).wf(),
            final(self).code() == old(self).code(),
            !old(self).failed() && 1 <= width <= 64 && old(self).temps().len() < 256 ==> {
                &&& !final(self).failed()
                &&& final(self).temps() == old(self).temps().push(width)
                &&& t == (Lvalue {
                    name: Name::Temp(old(self).temps().len() as u8),
                    width,
                    offset: 0,
                })
            },
            !(!old(self).failed() && 1 <= width <= 64 && old(self).temps().len() < 256) ==> {
                &&& final(self).failed()
                &&& final(self).temps() == old(self).temps()
                &&& t == (Lvalue { name: Name::Temp(0), width, offset: 0 })
            },
    {
        let n: usize = self.temps.len();
        if self.failed || width < 1 || width > 64 || n >= 256 {
            self.failed = true;
            Lvalue { name: Name::Temp(0), width, offset: 0 }
        } else {
            proof {
                assert forall|i: int| 0 <= i < self.code@.len() implies statement_ok(
                    #[trigger] self.code@[i],
                    self.temps@.push(width),
                    assigned(self.code@.take(i)),
                ) by {
                    lemma_declare_keeps(
                        self.code@[i],
                        self.temps@,
                        assigned(self.code@.take(i)),
                        width,
                    );
                }
                self.lemma_undeclared_unassigned(n as u8);
            }
            self.temps.push(width);
            self.written.push(false);
            Lvalue { name: Name::Temp(n as u8), width, offset: 0 }
        }
    }

    /// No accepted statement assigns to a temporary that is not declared.
    proof fn lemma_undeclared_unassigned(&self, k: u8)
        requires
            self.wf(),
            k >= self.temps@.len(),
        ensures
            !assigned(self.code@).contains(k),
    {
        if assigned(self.code@).contains(k) {
            let j = choose|j: int|
                0 <= j < self.code@.len() && assigns(#[trigger] self.code@[j], k);
            assert(statement_ok(self.code@[j], self.temps@, assigned(self.code@.take(j))));
        }
    }

    /// Computes [`Name::bits`] under the temporaries declared so far.
    fn storage_bits(&self, name: Name) -> (w: u8)
        ensures
            w == name.bits(self.temps()),
    {
        match name {
            Name::Temp(k) => if (k as usize) < self.temps.len() {
                self.temps[k as usize]
            } else {
                0
            },
            Name::A | Name::X | Name::Y | Name::S => 8,
            _ => 1,
        }
    }

    /// Computes [`readable`] under the temporaries declared and assigned to
    /// so far.
    fn check_readable(&self, r: Rvalue) -> (ok: bool)
        requires
            self.wf(),
        ensures
            ok == readable(r, self.temps(), self.defined()),
    {
        match r {
            Rvalue::Constant { value, width } => 1 <= width && width <= 64 && value <= mask_of(
                width,
            ),
            Rvalue::Variable { name, width, offset } => {
                let limit: u8 = self.storage_bits(name);
                let within: bool = 1 <= width && (offset as u16) + (width as u16) <= limit as u16;
                match name {
                    Name::Temp(k) => {
                        proof {
                            if k >= self.temps@.len() {
                                self.lemma_undeclared_unassigned(k);
                            }
                        }
                        within && (k as usize) < self.written.len() && self.written[k as usize]
                    },
                    _ => within,
                }
            },
            Rvalue::Memory { .. } => false,
        }
    }

    /// Computes [`cell_ok`] under the temporaries declared and assigned to
    /// so far.
    fn check_cell(&self, r: Rvalue) -> (ok: bool)
        requires
            self.wf(),
        ensures
            ok == cell_ok(r, self.temps(), self.defined()),
    {
        match r {
            Rvalue::Memory { address, width, .. } => {
                let a: Rvalue = address.to_rvalue();
                self.check_readable(a) && a.width() <= 16 && (width == 8 || width == 16 || width
                    == 32 || width == 64)
            },
            _ => false,
        }
    }

    /// Computes [`pair_ok`] under the temporaries declared and assigned to
    /// so far.
    fn check_pair(&self, a: Rvalue, b: Rvalue, width: u8) -> (ok: bool)
        requires
            self.wf(),
        ensures
            ok == pair_ok(a, b, width, self.temps(), self.defined()),
    {
        self.check_readable(a) && self.check_readable(b) && a.width() == width && b.width()
            == width
    }

    /// Computes [`assignment_ok`] under the temporaries declared and
    /// assigned to so far.
    fn check_assignment(&self, dst: Lvalue, op: Operation) -> (ok: bool)
        requires
            self.wf(),
        ensures
            ok == assignment_ok(dst, op, self.temps(), self.defined()),
    {
        let limit: u8 = self.storage_bits(dst.name);
        if !(1 <= dst.width && (dst.offset as u16) + (dst.width as u16) <= limit as u16) {
            return false;
        }
        match op {
            Operation::Move(a) => self.check_readable(a) && a.width() == dst.width,
            Operation::Add(a, b) => self.check_pair(a, b, dst.width),
            Operation::Subtract(a, b) => self.check_pair(a, b, dst.width),
            Operation::And(a, b) => self.check_pair(a, b, dst.width),
            Operation::InclusiveOr(a, b) => self.check_pair(a, b, dst.width),
            Operation::ExclusiveOr(a, b) => self.check_pair(a, b, dst.width),
            Operation::ShiftLeft(a, b) => self.check_pair(a, b, dst.width),
            Operation::ShiftRight(a, b) => self.check_pair(a, b, dst.width),
            Operation::ZeroExtend(a) => self.check_readable(a) && a.width() <= dst.width,
            Operation::SignExtend(a) => self.check_readable(a) && a.width() <= dst.width,
            Operation::Truncate(a) => self.check_readable(a) && a.width() >= dst.width,
            Operation::Select(offset, a, b) => self.check_readable(a) && self.check_readable(b)
                && a.width() == dst.width && (offset as u16) + (b.width() as u16)
                <= a.width() as u16,
            Operation::Equal(a, b) => self.check_pair(a, b, a.width()) && dst.width == 1,
            Operation::LessUnsigned(a, b) => self.check_pair(a, b, a.width()) && dst.width == 1,
            Operation::LessOrEqualUnsigned(a, b) => self.check_pair(a, b, a.width())
                && dst.width == 1,
            Operation::LessSigned(a, b) => self.check_pair(a, b, a.width()) && dst.width == 1,
            Operation::LessOrEqualSigned(a, b) => self.check_pair(a, b, a.width()) && dst.width
                == 1,
            Operation::Load(cell) => self.check_cell(cell) && cell.width() == dst.width,
            Operation::Store(_, _) => false,
            Operation::Call(_) => false,
        }
    }

    /// Computes [`effect_ok`] under the temporaries declared and assigned
    /// to so far.
    fn check_effect(&self, op: Operation) -> (ok: bool)
        requires
            self.wf(),
        ensures
            ok == effect_ok(op, self.temps(), self.defined()),
    {
        match op {
            Operation::Store(cell, v) => self.check_cell(cell) && self.check_readable(v)
                && cell.width() == v.width(),
            Operation::Call(target) => self.check_readable(target),
            _ => false,
        }
    }

    /// Takes an instruction operand: the builder fails unless `r` can be
    /// read and has `width` bits.
    pub fn operand(&mut self, r: Rvalue, width: u8)
        requires
            old(self).wf(),
        ensures
            final(self).wf(),
            final(self).temps() == old(self).temps(),
            final(self).code() == old(self).code(),
            final(self).failed() == (old(self).failed() || !(readable(
                r,
                old(self).temps(),
                old(self).defined(),
            ) && r.bits() == width)),
    {
        if !(self.check_readable(r) && r.width() == width) {
            self.failed = true;
        }
    }

    /// Appends the statement that assigns the result of `op` to `dst`,
    /// unless the builder has failed or the statement breaks a rule; in the
    /// latter case the builder fails.
    pub fn assign(&mut self, dst: Lvalue, op: Operation)
        requires
            old(self).wf(),
        ensures
            final(self).wf(),
            final(self).temps() == old(self).temps(),
            final(self).failed() == (old(self).failed() || !assignment_ok(
                dst,
                op,
                old(self).temps(),
                old(self).defined(),
            )),
            final(self).code() == if final(self).failed() {
                old(self).code()
            } else {
                old(self).code().push(Statement { assignee: Some(dst), op })
            },
            final(self).defined() == if final(self).failed() {
                old(self).defined()
            } else {
                match dst.name {
                    Name::Temp(k) => old(self).defined().insert(k),
                    _ => old(self).defined(),
                }
            },
    {
        if self.failed {
            return ;
        }
        if self.check_assignment(dst, op) {
            let s = Statement { assignee: Some(dst), op };
            proof {
                lemma_typed_push(self.code@, self.temps@, s);
                lemma_assigned_push(self.code@, s);
            }
            self.code.push(s);
            match dst.name {
                Name::Temp(k) => {
                    self.written.set(k as usize, true);
                },
                _ => {},
            }
        } else {
            self.failed = true;
        }
    }

    /// Appends the statement that performs `op`, which has no result,
    /// unless the builder has failed or the statement breaks a rule; in the
    /// latter case the builder fails.
    pub fn effect(&mut self, op: Operation)
        requires
            old(self).wf(),
        ensures
            final(self).wf(),
            final(self).temps() == old(self).temps(),
            final(self).failed() == (old(self).failed() || !effect_ok(
                op,
                old(self).temps(),
                old(self).defined(),
            )),
            final(self).code() == if final(self).failed() {
                old(self).code()
            } else {
                old(self).code().push(Statement { assignee: None, op })
            },
            final(self).defined() == old(self).defined(),
    {
        if self.failed {
            return ;
        }
        if self.check_effect(op) {
            let s = Statement { assignee: None, op };
            proof {
                lemma_typed_push(self.code@, self.temps@, s);
                lemma_assigned_push(self.code@, s);
            }
            self.code.push(s);
        } else {
            self.failed = true;
        }
    }

    /// The statements in the order in which they were appended, or
    /// `MalformedOperand` if any call broke a rule. The statements that come
    /// out obey the rules.
    pub fn finalize(self) -> (res: Result<Vec<Statement>, LiftError>)
        requires
            self.wf(),
        ensures
            match res {
                Ok(v) => !self.failed() && v@ == self.code() && well_typed(v@),
                Err(e) => self.failed() && e == LiftError::MalformedOperand,
            },
    {
        proof {
            assert(typed_under(self.code@, self.temps@));
        }
        if self.failed {
            Err(LiftError::MalformedOperand)
        } else {
            Ok(self.code)
        }
    }
}

} // verus!
