//! The instructions, one routine each.
//!
//! A routine takes the operand that the decoder found, a constant, a
//! register or a memory cell, and returns the statements that the
//! instruction stands for. A memory cell is loaded into a temporary first,
//! so that memory is read once. Beside each routine stands a
//! spec function with the same statements, written out; the routine's
//! contract says that it returns exactly those.

use vstd::prelude::*;
use crate::bits::{lemma_masks, mask};
use crate::builder::{assigned, cell_ok, scalar_ok, typed_under, well_typed, Builder};
use crate::ir::{
    flag, lit, perform, put, ram, reg, temp, Guard, LiftError, Lvalue, Name, Operation, Pointer,
    Rvalue, Statement,
};
use crate::state::{Edge, Group, Record, State, Variant};

verus! {

/// Whether `r` can stand as an instruction's operand of `width` bits
/// without a load: a constant that fits, or a bit field of a register or
/// flag. An operand cannot name a temporary: the temporaries belong to the
/// routine. For a memory cell as operand see [`value_ok`].
pub open spec fn operand_ok(r: Rvalue, width: u8) -> bool {
    scalar_ok(r, Seq::empty()) && r.bits() == width
}

/// Whether `r` can stand as the byte that an instruction works on: a
/// well-formed operand of 8 bits, or a memory cell of one byte whose address
/// is a well-formed operand of at most 16 bits.
pub open spec fn value_ok(r: Rvalue) -> bool {
    operand_ok(r, 8) || (cell_ok(r, Seq::empty(), Set::empty()) && r.bits() == 8)
}

/// The statement that has to run before an instruction can work on `r`:
/// a memory cell is loaded into the temporary `k`; a constant or a register
/// needs nothing.
pub open spec fn operand_load(r: Rvalue, k: u8) -> Seq<Statement> {
    if r is Memory {
        seq![put(temp(k, 8), Operation::Load(r))]
    } else {
        Seq::empty()
    }
}

/// What the statements of an instruction read for `r`: the temporary `k`
/// where `r` is a memory cell, which [`operand_load`] has loaded there, and
/// `r` itself otherwise. So memory is read once, whatever the instruction
/// does with the byte.
pub open spec fn operand_value(r: Rvalue, k: u8) -> Rvalue {
    if r is Memory {
        temp(k, 8).value()
    } else {
        r
    }
}

/// Takes the operand `r` into a builder that holds no statement yet:
/// appends [`operand_load`] and returns [`operand_value`], for the
/// temporary that is declared next. The builder fails where `r` is not
/// [`value_ok`].
fn take_operand(b: &mut Builder, r: Rvalue) -> (v: Rvalue)
    requires
        old(b).wf(),
        old(b).code() == Seq::<Statement>::empty(),
        old(b).temps().len() < 256,
    ensures
        final(b).wf(),
        final(b).failed() == (old(b).failed() || !value_ok(r)),
        !final(b).failed() ==> {
            let k = old(b).temps().len() as u8;
            &&& v == operand_value(r, k)
            &&& final(b).code() == operand_load(r, k)
            &&& final(b).temps() == if r is Memory {
                old(b).temps().push(8)
            } else {
                old(b).temps()
            }
            &&& final(b).defined() == if r is Memory {
                Set::<u8>::empty().insert(k)
            } else {
                Set::<u8>::empty()
            }
        },
{
    proof {
        lemma_masks();
        assert(assigned(Seq::<Statement>::empty()) =~= Set::<u8>::empty());
    }
    match r {
        Rvalue::Memory { .. } => {
            let t = b.declare(8);
            b.assign(t, Operation::Load(r));
            proof {
                let k = old(b).temps().len() as u8;
                assert(Seq::<Statement>::empty().push(put(temp(k, 8), Operation::Load(r)))
                    =~= operand_load(r, k));
            }
            t.to_rvalue()
        },
        _ => {
            b.operand(r, 8);
            r
        },
    }
}

/// What a routine returns: `code` where the operands are well-formed,
/// `MalformedOperand` where they are not. What it returns obeys the rules
/// of the builder.
pub open spec fn lifted(
    res: Result<Vec<Statement>, LiftError>,
    ok: bool,
    code: Seq<Statement>,
) -> bool {
    match res {
        Ok(v) => ok && v@ == code && well_typed(v@),
        Err(e) => !ok && e == LiftError::MalformedOperand,
    }
}

/// An empty sequence obeys the rules of the builder.
proof fn lemma_empty_typed()
    ensures
        well_typed(Seq::<Statement>::empty()),
{
    assert(typed_under(Seq::<Statement>::empty(), Seq::<u8>::empty()));
}

/// The statements that add-with-carry and subtract-with-borrow share.
/// The result stands in temporary 1. The zero flag is set where it is zero.
/// The carry flag is set where the result is not above the accumulator,
/// equals it, and the carry flag was set. The negative flag is set where
/// the highest bit of the result is set. The overflow flag is derived as
/// the carry flag is, with a signed comparison and the new carry flag. At
/// last the result goes to the accumulator.
pub open spec fn arith_flags() -> Seq<Statement> {
    let res = temp(1, 8);
    let c1 = temp(2, 1);
    let c2 = temp(3, 1);
    let v1 = temp(4, 1);
    let v2 = temp(5, 1);
    seq![
        put(flag(Name::Z), Operation::Equal(lit(0, 8), res.value())),
        put(c1, Operation::LessOrEqualUnsigned(res.value(), reg(Name::A).value())),
        put(c2, Operation::Equal(res.value(), reg(Name::A).value())),
        put(c2, Operation::And(c2.value(), flag(Name::C).value())),
        put(flag(Name::C), Operation::And(c1.value(), c2.value())),
        put(flag(Name::N), Operation::LessSigned(res.value(), lit(0, 8))),
        put(v1, Operation::LessOrEqualSigned(res.value(), reg(Name::A).value())),
        put(v2, Operation::Equal(res.value(), reg(Name::A).value())),
        put(v2, Operation::And(v2.value(), flag(Name::C).value())),
        put(flag(Name::V), Operation::And(v1.value(), v2.value())),
        put(reg(Name::A), Operation::Move(res.value())),
    ]
}

/// Appends [`arith_flags`] to a builder whose first six temporaries are
/// those of add-with-carry and whose temporary 1 holds the result.
fn derive_flags(b: &mut Builder)
    requires
        old(b).wf(),
        !old(b).failed() ==> {
            &&& old(b).temps().len() >= 6
            &&& old(b).temps()[0] == 8
            &&& old(b).temps()[1] == 8
            &&& old(b).temps()[2] == 1
            &&& old(b).temps()[3] == 1
            &&& old(b).temps()[4] == 1
            &&& old(b).temps()[5] == 1
            &&& old(b).defined().contains(1)
        },
    ensures
        final(b).wf(),
        final(b).failed() == old(b).failed(),
        final(b).temps() == old(b).temps(),
        !final(b).failed() ==> final(b).code() == old(b).code() + arith_flags(),
{
    let a = Lvalue::register(Name::A);
    let c = Lvalue::flag(Name::C);
    let res = Lvalue { name: Name::Temp(1), width: 8, offset: 0 };
    let c1 = Lvalue { name: Name::Temp(2), width: 1, offset: 0 };
    let c2 = Lvalue { name: Name::Temp(3), width: 1, offset: 0 };
    let v1 = Lvalue { name: Name::Temp(4), width: 1, offset: 0 };
    let v2 = Lvalue { name: Name::Temp(5), width: 1, offset: 0 };
    let zero = Rvalue::constant(0, 8);
    b.assign(Lvalue::flag(Name::Z), Operation::Equal(zero, res.to_rvalue()));
    b.assign(c1, Operation::LessOrEqualUnsigned(res.to_rvalue(), a.to_rvalue()));
    b.assign(c2, Operation::Equal(res.to_rvalue(), a.to_rvalue()));
    b.assign(c2, Operation::And(c2.to_rvalue(), c.to_rvalue()));
    b.assign(c, Operation::And(c1.to_rvalue(), c2.to_rvalue()));
    b.assign(Lvalue::flag(Name::N), Operation::LessSigned(res.to_rvalue(), zero));
    b.assign(v1, Operation::LessOrEqualSigned(res.to_rvalue(), a.to_rvalue()));
    b.assign(v2, Operation::Equal(res.to_rvalue(), a.to_rvalue()));
    b.assign(v2, Operation::And(v2.to_rvalue(), c.to_rvalue()));
    b.assign(Lvalue::flag(Name::V), Operation::And(v1.to_rvalue(), v2.to_rvalue()));
    b.assign(a, Operation::Move(res.to_rvalue()));
    assert(!b.failed() ==> b.code() =~= old(b).code() + arith_flags());
}

/// The statements of add-with-carry on the operand `r`. A memory cell is
/// loaded first.
pub open spec fn adc_statements(r: Rvalue) -> Seq<Statement> {
    operand_load(r, 6) + adc_core(operand_value(r, 6))
}

/// The statements of add-with-carry once the byte that it works on is
/// at hand as the constant, register or temporary `r`.
pub open spec fn adc_core(r: Rvalue) -> Seq<Statement> {
    let carry = temp(0, 8);
    let res = temp(1, 8);
    seq![
        put(carry, Operation::ZeroExtend(flag(Name::C).value())),
        put(res, Operation::Add(reg(Name::A).value(), r)),
        put(res, Operation::Add(res.value(), carry.value())),
    ] + arith_flags()
}

/// Add with carry: the accumulator becomes the sum of itself, the operand
/// and the carry flag. The zero flag is set where the sum is zero, the
/// negative flag where its highest bit is set. Carry and overflow come from
/// comparisons of the sum with the old accumulator, not from a wider sum.
///
/// Decimal mode is not modelled: under it the routine returns
/// `UnsupportedSemantics`.
///
/// What the statements do is proved in
/// [`lemma_adc_effect`](crate::laws::arithmetic::lemma_adc_effect).
pub fn adc(cg: &mut Variant, r: Rvalue) -> (res: Result<Vec<Statement>, LiftError>)
    ensures
        *final(cg) == *old(cg),
        old(cg).decimal ==> res == Err::<Vec<Statement>, LiftError>(
            LiftError::UnsupportedSemantics,
        ),
        !old(cg).decimal ==> lifted(res, value_ok(r), adc_statements(r)),
{
    if cg.decimal {
        return Err(LiftError::UnsupportedSemantics);
    }
    let mut b = Builder::new();
    let a = Lvalue::register(Name::A);
    let c = Lvalue::flag(Name::C);
    let carry = b.declare(8);
    let res = b.declare(8);
    b.declare(1);
    b.declare(1);
    b.declare(1);
    b.declare(1);
    let v = take_operand(&mut b, r);
    b.assign(carry, Operation::ZeroExtend(c.to_rvalue()));
    b.assign(res, Operation::Add(a.to_rvalue(), v));
    b.assign(res, Operation::Add(res.to_rvalue(), carry.to_rvalue()));
    derive_flags(&mut b);
    assert(value_ok(r) ==> b.code() =~= adc_statements(r));
    b.finalize()
}

/// The statements of subtract-with-borrow on the operand `r`. A memory
/// cell is loaded first.
pub open spec fn sbc_statements(r: Rvalue) -> Seq<Statement> {
    operand_load(r, 6) + sbc_core(operand_value(r, 6))
}

/// The statements of subtract-with-borrow once the byte that it works on is
/// at hand as the constant, register or temporary `r`.
pub open spec fn sbc_core(r: Rvalue) -> Seq<Statement> {
    let carry = temp(0, 8);
    let res = temp(1, 8);
    seq![
        put(carry, Operation::ZeroExtend(flag(Name::C).value())),
        put(res, Operation::Subtract(reg(Name::A).value(), r)),
        put(res, Operation::Add(res.value(), carry.value())),
    ] + arith_flags()
}

/// Subtract with borrow: the accumulator becomes itself less the operand
/// plus the carry flag. The flags are derived as in [`adc`].
///
/// Decimal mode is not modelled: under it the routine returns
/// `UnsupportedSemantics`.
///
/// What the statements do is proved in
/// [`lemma_sbc_effect`](crate::laws::arithmetic::lemma_sbc_effect).
pub fn sbc(cg: &mut Variant, r: Rvalue) -> (res: Result<Vec<Statement>, LiftError>)
    ensures
        *final(cg) == *old(cg),
        old(cg).decimal ==> res == Err::<Vec<Statement>, LiftError>(
            LiftError::UnsupportedSemantics,
        ),
        !old(cg).decimal ==> lifted(res, value_ok(r), sbc_statements(r)),
{
    if cg.decimal {
        return Err(LiftError::UnsupportedSemantics);
    }
    let mut b = Builder::new();
    let a = Lvalue::register(Name::A);
    let c = Lvalue::flag(Name::C);
    let carry = b.declare(8);
    let res = b.declare(8);
    b.declare(1);
    b.declare(1);
    b.declare(1);
    b.declare(1);
    let v = take_operand(&mut b, r);
    b.assign(carry, Operation::ZeroExtend(c.to_rvalue()));
    b.assign(res, Operation::Subtract(a.to_rvalue(), v));
    b.assign(res, Operation::Add(res.to_rvalue(), carry.to_rvalue()));
    derive_flags(&mut b);
    assert(value_ok(r) ==> b.code() =~= sbc_statements(r));
    b.finalize()
}

/// The statements of bitwise AND of the accumulator with `r`. A memory
/// cell is loaded first.
pub open spec fn and_statements(r: Rvalue) -> Seq<Statement> {
    operand_load(r, 0) + and_core(operand_value(r, 0))
}

/// The statements of bitwise AND once the byte that it works on is
/// at hand as the constant, register or temporary `r`.
pub open spec fn and_core(r: Rvalue) -> Seq<Statement> {
    let a = reg(Name::A);
    seq![
        put(a, Operation::And(a.value(), r)),
        put(flag(Name::Z), Operation::Equal(a.value(), lit(0, 8))),
        put(flag(Name::N), Operation::LessSigned(a.value(), lit(0, 8))),
    ]
}

/// Bitwise AND: the accumulator becomes its conjunction with the operand.
/// The zero flag is set where the result is zero, the negative flag where
/// its highest bit is set. Carry and overflow are left alone.
///
/// What the statements do is proved in
/// [`lemma_and_effect`](crate::laws::logic::lemma_and_effect).
pub fn and(cg: &mut Variant, r: Rvalue) -> (res: Result<Vec<Statement>, LiftError>)
    ensures
        *final(cg) == *old(cg),
        lifted(res, value_ok(r), and_statements(r)),
{
    let mut b = Builder::new();
    let v = take_operand(&mut b, r);
    let a = Lvalue::register(Name::A);
    let zero = Rvalue::constant(0, 8);
    b.assign(a, Operation::And(a.to_rvalue(), v));
    b.assign(Lvalue::flag(Name::Z), Operation::Equal(a.to_rvalue(), zero));
    b.assign(Lvalue::flag(Name::N), Operation::LessSigned(a.to_rvalue(), zero));
    assert(value_ok(r) ==> b.code() =~= and_statements(r));
    b.finalize()
}

/// The statements of bitwise inclusive OR of the accumulator with `r`. A
/// memory cell is loaded first.
pub open spec fn ora_statements(r: Rvalue) -> Seq<Statement> {
    operand_load(r, 0) + ora_core(operand_value(r, 0))
}

/// The statements of bitwise OR once the byte that it works on is
/// at hand as the constant, register or temporary `r`.
pub open spec fn ora_core(r: Rvalue) -> Seq<Statement> {
    let a = reg(Name::A);
    seq![
        put(a, Operation::InclusiveOr(r, a.value())),
        put(flag(Name::Z), Operation::Equal(a.value(), lit(0, 8))),
        put(flag(Name::N), Operation::LessSigned(a.value(), lit(0, 8))),
    ]
}

/// Bitwise OR: the accumulator becomes its inclusive disjunction with the
/// operand. The zero flag is set where the result is zero, the negative
/// flag where its highest bit is set. Carry and overflow are left alone.
///
/// What the statements do is proved in
/// [`lemma_ora_effect`](crate::laws::logic::lemma_ora_effect).
pub fn ora(cg: &mut Variant, r: Rvalue) -> (res: Result<Vec<Statement>, LiftError>)
    ensures
        *final(cg) == *old(cg),
        lifted(res, value_ok(r), ora_statements(r)),
{
    let mut b = Builder::new();
    let v = take_operand(&mut b, r);
    let a = Lvalue::register(Name::A);
    let zero = Rvalue::constant(0, 8);
    b.assign(a, Operation::InclusiveOr(v, a.to_rvalue()));
    b.assign(Lvalue::flag(Name::Z), Operation::Equal(a.to_rvalue(), zero));
    b.assign(Lvalue::flag(Name::N), Operation::LessSigned(a.to_rvalue(), zero));
    assert(value_ok(r) ==> b.code() =~= ora_statements(r));
    b.finalize()
}

/// The statements of bitwise exclusive OR of the accumulator with `r`. A
/// memory cell is loaded first.
pub open spec fn eor_statements(r: Rvalue) -> Seq<Statement> {
    operand_load(r, 0) + eor_core(operand_value(r, 0))
}

/// The statements of bitwise exclusive OR once the byte that it works on is
/// at hand as the constant, register or temporary `r`.
pub open spec fn eor_core(r: Rvalue) -> Seq<Statement> {
    let a = reg(Name::A);
    seq![
        put(a, Operation::ExclusiveOr(r, a.value())),
        put(flag(Name::Z), Operation::Equal(a.value(), lit(0, 8))),
        put(flag(Name::N), Operation::LessSigned(a.value(), lit(0, 8))),
    ]
}

/// Bitwise exclusive OR: the accumulator becomes its exclusive disjunction
/// with the operand. The zero flag is set where the result is zero, the
/// negative flag where its highest bit is set. Carry and overflow are left
/// alone.
///
/// What the statements do is proved in
/// [`lemma_eor_effect`](crate::laws::logic::lemma_eor_effect).
pub fn eor(cg: &mut Variant, r: Rvalue) -> (res: Result<Vec<Statement>, LiftError>)
    ensures
        *final(cg) == *old(cg),
        lifted(res, value_ok(r), eor_statements(r)),
{
    let mut b = Builder::new();
    let v = take_operand(&mut b, r);
    let a = Lvalue::register(Name::A);
    let zero = Rvalue::constant(0, 8);
    b.assign(a, Operation::ExclusiveOr(v, a.to_rvalue()));
    b.assign(Lvalue::flag(Name::Z), Operation::Equal(a.to_rvalue(), zero));
    b.assign(Lvalue::flag(Name::N), Operation::LessSigned(a.to_rvalue(), zero));
    assert(value_ok(r) ==> b.code() =~= eor_statements(r));
    b.finalize()
}

/// The statements of the bit test of the accumulator against `r`. A
/// memory cell is loaded first.
pub open spec fn bit_statements(r: Rvalue) -> Seq<Statement> {
    operand_load(r, 1) + bit_core(operand_value(r, 1))
}

/// The statements of the bit test once the byte that it works on is at
/// hand as the constant, register or temporary `r`.
pub open spec fn bit_core(r: Rvalue) -> Seq<Statement> {
    let res = temp(0, 8);
    seq![
        put(res, Operation::And(reg(Name::A).value(), r)),
        put(flag(Name::Z), Operation::Equal(res.value(), lit(0, 8))),
        put(flag(Name::N), Operation::Move(res.value().slice(1, 7).unwrap())),
        put(flag(Name::V), Operation::Move(r.slice(1, 6).unwrap())),
    ]
}

/// Bit test: the conjunction of the accumulator with the operand is
/// computed and not stored. The zero flag is set where it is zero; the
/// negative flag is its highest bit; the overflow flag is bit 6 of the
/// operand itself.
///
/// What the statements do is proved in
/// [`lemma_bit_effect`](crate::laws::logic::lemma_bit_effect).
pub fn bit(cg: &mut Variant, r: Rvalue) -> (res: Result<Vec<Statement>, LiftError>)
    ensures
        *final(cg) == *old(cg),
        lifted(res, value_ok(r), bit_statements(r)),
{
    let mut b = Builder::new();
    let res = b.declare(8);
    let v = take_operand(&mut b, r);
    let high = match res.extract(1, 7) {
        Ok(v) => v,
        Err(e) => {
            return Err(e);
        },
    };
    let second = match v.extract(1, 6) {
        Ok(v) => v,
        Err(e) => {
            return Err(e);
        },
    };
    let zero = Rvalue::constant(0, 8);
    proof {
        if operand_ok(r, 8) {
            lemma_slice_ok(r, 1, 6, 8);
        }
    }
    b.assign(res, Operation::And(Lvalue::register(Name::A).to_rvalue(), v));
    b.assign(Lvalue::flag(Name::Z), Operation::Equal(res.to_rvalue(), zero));
    b.assign(Lvalue::flag(Name::N), Operation::Move(high));
    b.assign(Lvalue::flag(Name::V), Operation::Move(second));
    assert(value_ok(r) ==> b.code() =~= bit_statements(r));
    b.finalize()
}

/// A slice that lies within a well-formed operand is a well-formed operand.
pub proof fn lemma_slice_ok(r: Rvalue, width: u8, offset: u8, whole: u8)
    requires
        operand_ok(r, whole),
        1 <= width,
        offset + width <= whole,
    ensures
        r.slice(width, offset) is Some,
        operand_ok(r.slice(width, offset).unwrap(), width),
{
    match r {
        Rvalue::Constant { value, width: w } => {
            let m = mask(width);
            assert((value >> offset) & m <= m) by (bit_vector);
        },
        _ => {},
    }
}

/// The statements of the shift of the accumulator to the left.
pub open spec fn asl_statements() -> Seq<Statement> {
    let a = reg(Name::A);
    seq![
        put(flag(Name::C), Operation::Move(a.value().slice(1, 7).unwrap())),
        put(a, Operation::ShiftLeft(a.value(), lit(1, 8))),
        put(flag(Name::Z), Operation::Equal(a.value(), lit(0, 8))),
        put(flag(Name::N), Operation::LessSigned(a.value(), lit(0, 8))),
    ]
}

/// Arithmetic shift left by one: the highest bit of the accumulator goes
/// to the carry flag and a zero enters at the bottom. The zero flag is set
/// where the result is zero, the negative flag where its highest bit is
/// set. The operand is not used.
///
/// What the statements do is proved in
/// [`lemma_asl_effect`](crate::laws::logic::lemma_asl_effect).
pub fn asl(cg: &mut Variant, _r: Rvalue) -> (res: Result<Vec<Statement>, LiftError>)
    ensures
        *final(cg) == *old(cg),
        lifted(res, true, asl_statements()),
{
    let mut b = Builder::new();
    let a = Lvalue::register(Name::A);
    let zero = Rvalue::constant(0, 8);
    proof {
        lemma_masks();
    }
    b.assign(
        Lvalue::flag(Name::C),
        Operation::Move(Rvalue::Variable { name: Name::A, width: 1, offset: 7 }),
    );
    b.assign(a, Operation::ShiftLeft(a.to_rvalue(), Rvalue::constant(1, 8)));
    b.assign(Lvalue::flag(Name::Z), Operation::Equal(a.to_rvalue(), zero));
    b.assign(Lvalue::flag(Name::N), Operation::LessSigned(a.to_rvalue(), zero));
    assert(b.code() =~= asl_statements());
    b.finalize()
}

/// The statements of the shift of the accumulator to the right.
pub open spec fn lsr_statements() -> Seq<Statement> {
    let a = reg(Name::A);
    seq![
        put(flag(Name::C), Operation::Move(a.value().slice(1, 0).unwrap())),
        put(a, Operation::ShiftRight(a.value(), lit(1, 8))),
        put(flag(Name::Z), Operation::Equal(a.value(), lit(0, 8))),
        put(flag(Name::N), Operation::Move(lit(0, 1))),
    ]
}

/// Logical shift right by one: the lowest bit of the accumulator goes to
/// the carry flag and a zero enters at the top. The zero flag is set where
/// the result is zero. The negative flag is cleared without a look at the
/// result, whose highest bit is always zero. The operand is not used.
///
/// What the statements do is proved in
/// [`lemma_lsr_effect`](crate::laws::logic::lemma_lsr_effect).
pub fn lsr(cg: &mut Variant, _r: Rvalue) -> (res: Result<Vec<Statement>, LiftError>)
    ensures
        *final(cg) == *old(cg),
        lifted(res, true, lsr_statements()),
{
    let mut b = Builder::new();
    let a = Lvalue::register(Name::A);
    let zero = Rvalue::constant(0, 8);
    proof {
        lemma_masks();
    }
    b.assign(
        Lvalue::flag(Name::C),
        Operation::Move(Rvalue::Variable { name: Name::A, width: 1, offset: 0 }),
    );
    b.assign(a, Operation::ShiftRight(a.to_rvalue(), Rvalue::constant(1, 8)));
    b.assign(Lvalue::flag(Name::Z), Operation::Equal(a.to_rvalue(), zero));
    b.assign(Lvalue::flag(Name::N), Operation::Move(Rvalue::constant(0, 1)));
    assert(b.code() =~= lsr_statements());
    b.finalize()
}

/// Whether `r` names the whole of an 8-bit register, so that it can be
/// rotated in place. A rotation writes its result back to what its operand
/// names, so the operand has to be an assignment target: a constant is
/// none, and neither is a memory cell, which only a store writes.
pub open spec fn rotand_ok(r: Rvalue) -> bool {
    operand_ok(r, 8) && r is Variable
}

/// The target that the variable `r` names.
pub open spec fn target_of(r: Rvalue) -> Lvalue {
    Lvalue { name: r->Variable_name, width: r->Variable_width, offset: r->Variable_offset }
}

/// The statements of the rotation of `r` to the left through the carry.
pub open spec fn rol_statements(r: Rvalue) -> Seq<Statement> {
    let l = target_of(r);
    let hb = temp(0, 1);
    seq![
        put(hb, Operation::Move(r.slice(1, 7).unwrap())),
        put(l, Operation::ShiftLeft(r, lit(1, 8))),
        put(l, Operation::Select(0, r, flag(Name::C).value())),
        put(flag(Name::C), Operation::Move(hb.value())),
        put(flag(Name::Z), Operation::Equal(r, lit(0, 8))),
        put(flag(Name::N), Operation::LessSigned(r, lit(0, 8))),
    ]
}

/// Rotate left: the register that the operand names is shifted left by
/// one, the old carry enters at the bottom, and the bit that left at the
/// top becomes the new carry. The zero flag is set where the result is
/// zero, the negative flag where its highest bit is set.
///
/// An operand that is no register, a memory cell included, is no
/// assignment target and is refused with `MalformedOperand`.
///
/// What the statements do is proved in
/// [`lemma_rol_effect`](crate::laws::logic::lemma_rol_effect).
pub fn rol(cg: &mut Variant, r: Rvalue) -> (res: Result<Vec<Statement>, LiftError>)
    ensures
        *final(cg) == *old(cg),
        lifted(res, rotand_ok(r), rol_statements(r)),
{
    let l = match Lvalue::from_rvalue(r) {
        Some(l) => l,
        None => {
            return Err(LiftError::MalformedOperand);
        },
    };
    let high = match r.extract(1, 7) {
        Ok(v) => v,
        Err(e) => {
            return Err(e);
        },
    };
    let mut b = Builder::new();
    b.operand(r, 8);
    let hb = b.declare(1);
    let zero = Rvalue::constant(0, 8);
    let c = Lvalue::flag(Name::C);
    proof {
        lemma_masks();
    }
    b.assign(hb, Operation::Move(high));
    b.assign(l, Operation::ShiftLeft(r, Rvalue::constant(1, 8)));
    b.assign(l, Operation::Select(0, r, c.to_rvalue()));
    b.assign(c, Operation::Move(hb.to_rvalue()));
    b.assign(Lvalue::flag(Name::Z), Operation::Equal(r, zero));
    b.assign(Lvalue::flag(Name::N), Operation::LessSigned(r, zero));
    assert(rotand_ok(r) ==> b.code() =~= rol_statements(r));
    b.finalize()
}

/// The statements of the rotation of `r` to the right through the carry.
pub open spec fn ror_statements(r: Rvalue) -> Seq<Statement> {
    let l = target_of(r);
    let lb = temp(0, 1);
    seq![
        put(lb, Operation::Move(r.slice(1, 0).unwrap())),
        put(l, Operation::ShiftRight(r, lit(1, 8))),
        put(l, Operation::Select(7, r, flag(Name::C).value())),
        put(flag(Name::C), Operation::Move(lb.value())),
        put(flag(Name::Z), Operation::Equal(r, lit(0, 8))),
        put(flag(Name::N), Operation::LessSigned(r, lit(0, 8))),
    ]
}

/// Rotate right: the register that the operand names is shifted right by
/// one, the old carry enters at the top, and the bit that left at the
/// bottom becomes the new carry. The zero flag is set where the result is
/// zero, the negative flag where its highest bit is set.
///
/// An operand that is no register, a memory cell included, is no
/// assignment target and is refused with `MalformedOperand`.
///
/// What the statements do is proved in
/// [`lemma_ror_effect`](crate::laws::logic::lemma_ror_effect).
pub fn ror(cg: &mut Variant, r: Rvalue) -> (res: Result<Vec<Statement>, LiftError>)
    ensures
        *final(cg) == *old(cg),
        lifted(res, rotand_ok(r), ror_statements(r)),
{
    let l = match Lvalue::from_rvalue(r) {
        Some(l) => l,
        None => {
            return Err(LiftError::MalformedOperand);
        },
    };
    let low = match r.extract(1, 0) {
        Ok(v) => v,
        Err(e) => {
            return Err(e);
        },
    };
    let mut b = Builder::new();
    b.operand(r, 8);
    let lb = b.declare(1);
    let zero = Rvalue::constant(0, 8);
    let c = Lvalue::flag(Name::C);
    proof {
        lemma_masks();
    }
    b.assign(lb, Operation::Move(low));
    b.assign(l, Operation::ShiftRight(r, Rvalue::constant(1, 8)));
    b.assign(l, Operation::Select(7, r, c.to_rvalue()));
    b.assign(c, Operation::Move(lb.to_rvalue()));
    b.assign(Lvalue::flag(Name::Z), Operation::Equal(r, zero));
    b.assign(Lvalue::flag(Name::N), Operation::LessSigned(r, zero));
    assert(rotand_ok(r) ==> b.code() =~= ror_statements(r));
    b.finalize()
}

/// No operation: no statements.
pub fn nop(cg: &mut Variant) -> (res: Result<Vec<Statement>, LiftError>)
    ensures
        *final(cg) == *old(cg),
        lifted(res, true, Seq::empty()),
{
    proof {
        lemma_empty_typed();
    }
    Ok(Vec::new())
}

/// No operation with an operand, which is not used: no statements.
pub fn nop_r(cg: &mut Variant, _r: Rvalue) -> (res: Result<Vec<Statement>, LiftError>)
    ensures
        *final(cg) == *old(cg),
        lifted(res, true, Seq::empty()),
{
    proof {
        lemma_empty_typed();
    }
    Ok(Vec::new())
}

/// Software interrupt: no statements. What the processor does depends on
/// the interrupt vector, which the routine for one instruction cannot know;
/// none of it is modelled.
pub fn brk(cg: &mut Variant) -> (res: Result<Vec<Statement>, LiftError>)
    ensures
        *final(cg) == *old(cg),
        lifted(res, true, Seq::empty()),
{
    proof {
        lemma_empty_typed();
    }
    Ok(Vec::new())
}

/// The statement that writes `v` to the flag `f`.
///
/// What the statements do is proved in
/// [`lemma_flag_effect`](crate::laws::moves::lemma_flag_effect).
pub open spec fn flag_statements(f: Name, v: bool) -> Seq<Statement> {
    seq![put(flag(f), Operation::Move(lit(if v { 1u64 } else { 0u64 }, 1)))]
}

/// Writes `v` to the flag `f`.
fn write_flag(f: Name, v: bool) -> (res: Result<Vec<Statement>, LiftError>)
    requires
        f.is_flag(),
    ensures
        lifted(res, true, flag_statements(f, v)),
{
    let mut b = Builder::new();
    proof {
        lemma_masks();
    }
    b.assign(Lvalue::flag(f), Operation::Move(Rvalue::new_bit(v)));
    assert(b.code() =~= flag_statements(f, v));
    b.finalize()
}

/// Clears the carry flag and does nothing else.
pub fn clc(cg: &mut Variant) -> (res: Result<Vec<Statement>, LiftError>)
    ensures
        *final(cg) == *old(cg),
        lifted(res, true, flag_statements(Name::C, false)),
{
    write_flag(Name::C, false)
}

/// Clears the interrupt-disable flag and does nothing else.
pub fn cli(cg: &mut Variant) -> (res: Result<Vec<Statement>, LiftError>)
    ensures
        *final(cg) == *old(cg),
        lifted(res, true, flag_statements(Name::I, false)),
{
    write_flag(Name::I, false)
}

/// Clears the decimal-mode flag and does nothing else.
pub fn cld(cg: &mut Variant) -> (res: Result<Vec<Statement>, LiftError>)
    ensures
        *final(cg) == *old(cg),
        lifted(res, true, flag_statements(Name::D, false)),
{
    write_flag(Name::D, false)
}

/// Sets the carry flag and does nothing else.
pub fn sec(cg: &mut Variant) -> (res: Result<Vec<Statement>, LiftError>)
    ensures
        *final(cg) == *old(cg),
        lifted(res, true, flag_statements(Name::C, true)),
{
    write_flag(Name::C, true)
}

/// Sets the interrupt-disable flag and does nothing else.
pub fn sei(cg: &mut Variant) -> (res: Result<Vec<Statement>, LiftError>)
    ensures
        *final(cg) == *old(cg),
        lifted(res, true, flag_statements(Name::I, true)),
{
    write_flag(Name::I, true)
}

/// Clears the overflow flag and does nothing else.
pub fn clv(cg: &mut Variant) -> (res: Result<Vec<Statement>, LiftError>)
    ensures
        *final(cg) == *old(cg),
        lifted(res, true, flag_statements(Name::V, false)),
{
    write_flag(Name::V, false)
}

/// Sets the decimal-mode flag and does nothing else.
pub fn sed(cg: &mut Variant) -> (res: Result<Vec<Statement>, LiftError>)
    ensures
        *final(cg) == *old(cg),
        lifted(res, true, flag_statements(Name::D, true)),
{
    write_flag(Name::D, true)
}

/// The statements of the comparison of the register value `r1` with the
/// operand `r2`. A memory cell is loaded first.
///
/// What the statements do is proved in
/// [`lemma_compare_effect`](crate::laws::arithmetic::lemma_compare_effect).
pub open spec fn compare_statements(r1: Rvalue, r2: Rvalue) -> Seq<Statement> {
    operand_load(r2, 0) + compare_core(r1, operand_value(r2, 0))
}

/// The statements of the comparison of `r1` with `r2`, both at hand: the
/// carry flag is set where `r1` is below `r2`, both unsigned; the negative
/// flag copies the carry flag; the zero flag is set where the two are
/// equal. Nothing is subtracted.
pub open spec fn compare_core(r1: Rvalue, r2: Rvalue) -> Seq<Statement> {
    seq![
        put(flag(Name::C), Operation::LessUnsigned(r1, r2)),
        put(flag(Name::N), Operation::Move(flag(Name::C).value())),
        put(flag(Name::Z), Operation::Equal(r1, r2)),
    ]
}

/// Compares the register value `r1` with the operand `r2`.
fn compare(r1: Rvalue, r2: Rvalue) -> (res: Result<Vec<Statement>, LiftError>)
    requires
        operand_ok(r1, 8),
    ensures
        lifted(res, value_ok(r2), compare_statements(r1, r2)),
{
    let mut b = Builder::new();
    let v = take_operand(&mut b, r2);
    let c = Lvalue::flag(Name::C);
    b.assign(c, Operation::LessUnsigned(r1, v));
    b.assign(Lvalue::flag(Name::N), Operation::Move(c.to_rvalue()));
    b.assign(Lvalue::flag(Name::Z), Operation::Equal(r1, v));
    assert(value_ok(r2) ==> b.code() =~= compare_statements(r1, r2));
    b.finalize()
}

/// Compare the first index register with the operand, as
/// [`compare_statements`] says.
pub fn cpx(cg: &mut Variant, r: Rvalue) -> (res: Result<Vec<Statement>, LiftError>)
    ensures
        *final(cg) == *old(cg),
        lifted(res, value_ok(r), compare_statements(reg(Name::X).value(), r)),
{
    compare(Lvalue::register(Name::X).to_rvalue(), r)
}

/// Compare the second index register with the operand, as
/// [`compare_statements`] says.
pub fn cpy(cg: &mut Variant, r: Rvalue) -> (res: Result<Vec<Statement>, LiftError>)
    ensures
        *final(cg) == *old(cg),
        lifted(res, value_ok(r), compare_statements(reg(Name::Y).value(), r)),
{
    compare(Lvalue::register(Name::Y).to_rvalue(), r)
}

/// Compare the accumulator with the operand, as [`compare_statements`] says.
pub fn cpa(cg: &mut Variant, r: Rvalue) -> (res: Result<Vec<Statement>, LiftError>)
    ensures
        *final(cg) == *old(cg),
        lifted(res, value_ok(r), compare_statements(reg(Name::A).value(), r)),
{
    compare(Lvalue::register(Name::A).to_rvalue(), r)
}

/// The statements of a decrement of the operand `r` into `l`. A memory
/// cell is loaded first.
///
/// What the statements do is proved in
/// [`lemma_dec_effect`](crate::laws::arithmetic::lemma_dec_effect).
pub open spec fn dec_statements(l: Lvalue, r: Rvalue) -> Seq<Statement> {
    operand_load(r, 1) + dec_core(l, operand_value(r, 1))
}

/// The statements of a decrement once the operand is at hand as `r`. It is
/// first copied to a temporary; then `l` becomes `r` less one; the zero
/// flag is set where `l` is then zero; the negative flag is set where the
/// copy, that is the operand as it was before `l` was written, has its
/// highest bit set. The negative flag so says nothing of the new value.
pub open spec fn dec_core(l: Lvalue, r: Rvalue) -> Seq<Statement> {
    let before = temp(0, 8);
    seq![
        put(before, Operation::Move(r)),
        put(l, Operation::Subtract(r, lit(1, 8))),
        put(flag(Name::Z), Operation::Equal(l.value(), lit(0, 8))),
        put(flag(Name::N), Operation::LessSigned(before.value(), lit(0, 8))),
    ]
}

/// Decrements `r` into the register `l`.
fn dec(l: Lvalue, r: Rvalue) -> (res: Result<Vec<Statement>, LiftError>)
    requires
        l.name.is_register(),
        l == reg(l.name),
    ensures
        lifted(res, value_ok(r), dec_statements(l, r)),
{
    let mut b = Builder::new();
    let before = b.declare(8);
    let v = take_operand(&mut b, r);
    let zero = Rvalue::constant(0, 8);
    proof {
        lemma_masks();
    }
    b.assign(before, Operation::Move(v));
    b.assign(l, Operation::Subtract(v, Rvalue::constant(1, 8)));
    b.assign(Lvalue::flag(Name::Z), Operation::Equal(l.to_rvalue(), zero));
    b.assign(Lvalue::flag(Name::N), Operation::LessSigned(before.to_rvalue(), zero));
    assert(value_ok(r) ==> b.code() =~= dec_statements(l, r));
    b.finalize()
}

/// Decrement the operand into the accumulator, as [`dec_statements`] says.
pub fn dea(cg: &mut Variant, r: Rvalue) -> (res: Result<Vec<Statement>, LiftError>)
    ensures
        *final(cg) == *old(cg),
        lifted(res, value_ok(r), dec_statements(reg(Name::A), r)),
{
    dec(Lvalue::register(Name::A), r)
}

/// Decrement the first index register, as [`dec_statements`] says.
pub fn dex(cg: &mut Variant) -> (res: Result<Vec<Statement>, LiftError>)
    ensures
        *final(cg) == *old(cg),
        lifted(res, true, dec_statements(reg(Name::X), reg(Name::X).value())),
{
    proof {
        lemma_masks();
    }
    dec(Lvalue::register(Name::X), Lvalue::register(Name::X).to_rvalue())
}

/// Decrement the second index register, as [`dec_statements`] says.
pub fn dey(cg: &mut Variant) -> (res: Result<Vec<Statement>, LiftError>)
    ensures
        *final(cg) == *old(cg),
        lifted(res, true, dec_statements(reg(Name::Y), reg(Name::Y).value())),
{
    proof {
        lemma_masks();
    }
    dec(Lvalue::register(Name::Y), Lvalue::register(Name::Y).to_rvalue())
}

/// The statements of an increment of the operand `r` into `l`. A memory
/// cell is loaded first.
///
/// What the statements do is proved in
/// [`lemma_inc_effect`](crate::laws::arithmetic::lemma_inc_effect).
pub open spec fn inc_statements(l: Lvalue, r: Rvalue) -> Seq<Statement> {
    operand_load(r, 1) + inc_core(l, operand_value(r, 1))
}

/// The statements of an increment once the operand is at hand as `r`. It is
/// first copied to a temporary; then `l` becomes `r` plus one; the zero
/// flag is set where `l` is then zero; the negative flag is set where the
/// copy, that is the operand as it was before `l` was written, has its
/// highest bit set. The negative flag so says nothing of the new value.
pub open spec fn inc_core(l: Lvalue, r: Rvalue) -> Seq<Statement> {
    let before = temp(0, 8);
    seq![
        put(before, Operation::Move(r)),
        put(l, Operation::Add(r, lit(1, 8))),
        put(flag(Name::Z), Operation::Equal(l.value(), lit(0, 8))),
        put(flag(Name::N), Operation::LessSigned(before.value(), lit(0, 8))),
    ]
}

/// Increments `r` into the register `l`.
fn inc(l: Lvalue, r: Rvalue) -> (res: Result<Vec<Statement>, LiftError>)
    requires
        l.name.is_register(),
        l == reg(l.name),
    ensures
        lifted(res, value_ok(r), inc_statements(l, r)),
{
    let mut b = Builder::new();
    let before = b.declare(8);
    let v = take_operand(&mut b, r);
    let zero = Rvalue::constant(0, 8);
    proof {
        lemma_masks();
    }
    b.assign(before, Operation::Move(v));
    b.assign(l, Operation::Add(v, Rvalue::constant(1, 8)));
    b.assign(Lvalue::flag(Name::Z), Operation::Equal(l.to_rvalue(), zero));
    b.assign(Lvalue::flag(Name::N), Operation::LessSigned(before.to_rvalue(), zero));
    assert(value_ok(r) ==> b.code() =~= inc_statements(l, r));
    b.finalize()
}

/// Increment the operand into the accumulator, as [`inc_statements`] says.
pub fn ina(cg: &mut Variant, r: Rvalue) -> (res: Result<Vec<Statement>, LiftError>)
    ensures
        *final(cg) == *old(cg),
        lifted(res, value_ok(r), inc_statements(reg(Name::A), r)),
{
    inc(Lvalue::register(Name::A), r)
}

/// Increment the first index register, as [`inc_statements`] says.
pub fn inx(cg: &mut Variant) -> (res: Result<Vec<Statement>, LiftError>)
    ensures
        *final(cg) == *old(cg),
        lifted(res, true, inc_statements(reg(Name::X), reg(Name::X).value())),
{
    proof {
        lemma_masks();
    }
    inc(Lvalue::register(Name::X), Lvalue::register(Name::X).to_rvalue())
}

/// Increment the second index register, as [`inc_statements`] says.
pub fn iny(cg: &mut Variant) -> (res: Result<Vec<Statement>, LiftError>)
    ensures
        *final(cg) == *old(cg),
        lifted(res, true, inc_statements(reg(Name::Y), reg(Name::Y).value())),
{
    proof {
        lemma_masks();
    }
    inc(Lvalue::register(Name::Y), Lvalue::register(Name::Y).to_rvalue())
}

/// The statements of a load of the operand `r` into `l`. A memory cell
/// is loaded into a temporary first.
///
/// What the statements do is proved in
/// [`lemma_ld_effect`](crate::laws::moves::lemma_ld_effect).
pub open spec fn ld_statements(l: Lvalue, r: Rvalue) -> Seq<Statement> {
    operand_load(r, 0) + ld_core(l, operand_value(r, 0))
}

/// The statements of a load once the operand is at hand as `r`: `l`
/// becomes `r`; the zero flag is set where `l` is then zero, the negative
/// flag where its highest bit is set.
pub open spec fn ld_core(l: Lvalue, r: Rvalue) -> Seq<Statement> {
    seq![
        put(l, Operation::Move(r)),
        put(flag(Name::Z), Operation::Equal(l.value(), lit(0, 8))),
        put(flag(Name::N), Operation::LessSigned(l.value(), lit(0, 8))),
    ]
}

/// Loads `r` into the register `l`.
fn ld(l: Lvalue, r: Rvalue) -> (res: Result<Vec<Statement>, LiftError>)
    requires
        l.name.is_register(),
        l == reg(l.name),
    ensures
        lifted(res, value_ok(r), ld_statements(l, r)),
{
    let mut b = Builder::new();
    let v = take_operand(&mut b, r);
    let zero = Rvalue::constant(0, 8);
    b.assign(l, Operation::Move(v));
    b.assign(Lvalue::flag(Name::Z), Operation::Equal(l.to_rvalue(), zero));
    b.assign(Lvalue::flag(Name::N), Operation::LessSigned(l.to_rvalue(), zero));
    assert(value_ok(r) ==> b.code() =~= ld_statements(l, r));
    b.finalize()
}

/// Load the accumulator with the operand, as [`ld_statements`] says.
pub fn lda(cg: &mut Variant, r: Rvalue) -> (res: Result<Vec<Statement>, LiftError>)
    ensures
        *final(cg) == *old(cg),
        lifted(res, value_ok(r), ld_statements(reg(Name::A), r)),
{
    ld(Lvalue::register(Name::A), r)
}

/// Load the first index register with the operand, as [`ld_statements`]
/// says.
pub fn ldx(cg: &mut Variant, r: Rvalue) -> (res: Result<Vec<Statement>, LiftError>)
    ensures
        *final(cg) == *old(cg),
        lifted(res, value_ok(r), ld_statements(reg(Name::X), r)),
{
    ld(Lvalue::register(Name::X), r)
}

/// Load the second index register with the operand, as [`ld_statements`]
/// says.
pub fn ldy(cg: &mut Variant, r: Rvalue) -> (res: Result<Vec<Statement>, LiftError>)
    ensures
        *final(cg) == *old(cg),
        lifted(res, value_ok(r), ld_statements(reg(Name::Y), r)),
{
    ld(Lvalue::register(Name::Y), r)
}

/// Whether `r` can stand as an address: a well-formed operand of at most
/// 16 bits.
pub open spec fn address_ok(r: Rvalue) -> bool {
    scalar_ok(r, Seq::empty()) && r.bits() <= 16
}

/// Whether `r` says where a byte is to be stored: an address, or the
/// memory cell of one byte itself.
pub open spec fn place_ok(r: Rvalue) -> bool {
    address_ok(r) || (cell_ok(r, Seq::empty(), Set::empty()) && r.bits() == 8)
}

/// The memory cell that the operand `r` of a store stands for: `r`
/// itself where it is a memory cell, else the byte at the address `r`.
pub open spec fn place(r: Rvalue) -> Rvalue {
    if r is Memory {
        r
    } else {
        ram(r.pointer().unwrap(), 8)
    }
}

/// The statement of a store: the byte in `source` is written to the
/// memory cell that `ptr` stands for. No flag changes.
///
/// What the statement does is proved in
/// [`lemma_st_effect`](crate::laws::moves::lemma_st_effect).
pub open spec fn st_statements(source: Lvalue, ptr: Rvalue) -> Seq<Statement> {
    seq![perform(Operation::Store(place(ptr), source.value()))]
}

/// Stores the register `source` in the memory cell that `ptr` stands for.
fn st(source: Lvalue, ptr: Rvalue) -> (res: Result<Vec<Statement>, LiftError>)
    requires
        source.name.is_register(),
        source == reg(source.name),
    ensures
        lifted(res, place_ok(ptr), st_statements(source, ptr)),
{
    let cell = match ptr.to_pointer() {
        Some(p) => Rvalue::memory(p, 8),
        None => ptr,
    };
    let mut b = Builder::new();
    proof {
        assert(assigned(Seq::<Statement>::empty()) =~= Set::<u8>::empty());
    }
    b.effect(Operation::Store(cell, source.to_rvalue()));
    assert(place_ok(ptr) ==> b.code() =~= st_statements(source, ptr));
    b.finalize()
}

/// Store the accumulator where the operand says, as
/// [`st_statements`] says.
pub fn sta(cg: &mut Variant, r: Rvalue) -> (res: Result<Vec<Statement>, LiftError>)
    ensures
        *final(cg) == *old(cg),
        lifted(res, place_ok(r), st_statements(reg(Name::A), r)),
{
    st(Lvalue::register(Name::A), r)
}

/// Store the first index register where the operand says, as
/// [`st_statements`] says.
pub fn stx(cg: &mut Variant, r: Rvalue) -> (res: Result<Vec<Statement>, LiftError>)
    ensures
        *final(cg) == *old(cg),
        lifted(res, place_ok(r), st_statements(reg(Name::X), r)),
{
    st(Lvalue::register(Name::X), r)
}

/// Store the second index register where the operand says, as
/// [`st_statements`] says.
pub fn sty(cg: &mut Variant, r: Rvalue) -> (res: Result<Vec<Statement>, LiftError>)
    ensures
        *final(cg) == *old(cg),
        lifted(res, place_ok(r), st_statements(reg(Name::Y), r)),
{
    st(Lvalue::register(Name::Y), r)
}

/// Whether `src` and `dst` can stand in a transfer: each is 8 bits of a
/// register.
pub open spec fn transfer_ok(src: Lvalue, dst: Lvalue) -> bool {
    operand_ok(src.value(), 8) && operand_ok(dst.value(), 8)
}

/// The statements of a transfer: `dst` becomes `src`; the zero flag is set
/// where `dst` is then zero, the negative flag where its highest bit is
/// set. This holds of every pair of registers, the stack pointer as
/// destination included.
///
/// What the statements do is proved in
/// [`lemma_trr_effect`](crate::laws::moves::lemma_trr_effect).
pub open spec fn trr_statements(src: Lvalue, dst: Lvalue) -> Seq<Statement> {
    seq![
        put(dst, Operation::Move(src.value())),
        put(flag(Name::Z), Operation::Equal(dst.value(), lit(0, 8))),
        put(flag(Name::N), Operation::LessSigned(dst.value(), lit(0, 8))),
    ]
}

/// Transfer between registers, as [`trr_statements`] says.
pub fn trr(cg: &mut Variant, src: &Lvalue, dst: &Lvalue) -> (res: Result<
    Vec<Statement>,
    LiftError,
>)
    ensures
        *final(cg) == *old(cg),
        lifted(res, transfer_ok(*src, *dst), trr_statements(*src, *dst)),
{
    let mut b = Builder::new();
    b.operand(src.to_rvalue(), 8);
    b.operand(dst.to_rvalue(), 8);
    let zero = Rvalue::constant(0, 8);
    b.assign(*dst, Operation::Move(src.to_rvalue()));
    b.assign(Lvalue::flag(Name::Z), Operation::Equal(dst.to_rvalue(), zero));
    b.assign(Lvalue::flag(Name::N), Operation::LessSigned(dst.to_rvalue(), zero));
    assert(transfer_ok(*src, *dst) ==> b.code() =~= trr_statements(*src, *dst));
    b.finalize()
}

/// Transfer the accumulator to the first index register, as
/// [`trr_statements`] says.
pub fn tax(cg: &mut Variant) -> (res: Result<Vec<Statement>, LiftError>)
    ensures
        *final(cg) == *old(cg),
        lifted(res, true, trr_statements(reg(Name::A), reg(Name::X))),
{
    let src = Lvalue::register(Name::A);
    let dst = Lvalue::register(Name::X);
    trr(cg, &src, &dst)
}

/// Transfer the accumulator to the second index register, as
/// [`trr_statements`] says.
pub fn tay(cg: &mut Variant) -> (res: Result<Vec<Statement>, LiftError>)
    ensures
        *final(cg) == *old(cg),
        lifted(res, true, trr_statements(reg(Name::A), reg(Name::Y))),
{
    let src = Lvalue::register(Name::A);
    let dst = Lvalue::register(Name::Y);
    trr(cg, &src, &dst)
}

/// Transfer the stack pointer to the first index register, as
/// [`trr_statements`] says.
pub fn tsx(cg: &mut Variant) -> (res: Result<Vec<Statement>, LiftError>)
    ensures
        *final(cg) == *old(cg),
        lifted(res, true, trr_statements(reg(Name::S), reg(Name::X))),
{
    let src = Lvalue::register(Name::S);
    let dst = Lvalue::register(Name::X);
    trr(cg, &src, &dst)
}

/// Transfer the first index register to the accumulator, as
/// [`trr_statements`] says.
pub fn txa(cg: &mut Variant) -> (res: Result<Vec<Statement>, LiftError>)
    ensures
        *final(cg) == *old(cg),
        lifted(res, true, trr_statements(reg(Name::X), reg(Name::A))),
{
    let src = Lvalue::register(Name::X);
    let dst = Lvalue::register(Name::A);
    trr(cg, &src, &dst)
}

/// Transfer the first index register to the stack pointer, as
/// [`trr_statements`] says.
pub fn txs(cg: &mut Variant) -> (res: Result<Vec<Statement>, LiftError>)
    ensures
        *final(cg) == *old(cg),
        lifted(res, true, trr_statements(reg(Name::X), reg(Name::S))),
{
    let src = Lvalue::register(Name::X);
    let dst = Lvalue::register(Name::S);
    trr(cg, &src, &dst)
}

/// Transfer the second index register to the accumulator, as
/// [`trr_statements`] says.
pub fn tya(cg: &mut Variant) -> (res: Result<Vec<Statement>, LiftError>)
    ensures
        *final(cg) == *old(cg),
        lifted(res, true, trr_statements(reg(Name::Y), reg(Name::A))),
{
    let src = Lvalue::register(Name::Y);
    let dst = Lvalue::register(Name::A);
    trr(cg, &src, &dst)
}

/// The two statements that put the address of the top of the stack into
/// the 9-bit temporary `sp`: the stack pointer, widened with zeros, plus the
/// base of the stack page, 0x100. Nine bits hold every such address.
pub open spec fn stack_top(sp: Lvalue) -> Seq<Statement> {
    seq![
        put(sp, Operation::ZeroExtend(reg(Name::S).value())),
        put(sp, Operation::Add(sp.value(), lit(0x100, 9))),
    ]
}

/// The statement that adds one to the 9-bit temporary `sp`.
pub open spec fn stack_advance(sp: Lvalue) -> Statement {
    put(sp, Operation::Add(sp.value(), lit(1, 9)))
}

/// The statement that writes the low 8 bits of the temporary `sp` back to
/// the stack pointer.
pub open spec fn stack_commit(sp: Lvalue) -> Statement {
    put(reg(Name::S), Operation::Move(sp.value().slice(8, 0).unwrap()))
}

/// The statements of the push of the accumulator.
pub open spec fn pha_statements() -> Seq<Statement> {
    let sp = temp(0, 9);
    stack_top(sp) + seq![
        perform(Operation::Store(ram(sp.pointer(), 8), reg(Name::A).value())),
        stack_advance(sp),
        stack_commit(sp),
    ]
}

/// Push accumulator: the accumulator is stored at the top of the stack,
/// then the stack pointer goes up by one. No flag changes.
///
/// What the statements do is proved in
/// [`lemma_pha_effect`](crate::laws::stack::lemma_pha_effect).
pub fn pha(cg: &mut Variant) -> (res: Result<Vec<Statement>, LiftError>)
    ensures
        *final(cg) == *old(cg),
        lifted(res, true, pha_statements()),
{
    let mut b = Builder::new();
    let sp = b.declare(9);
    let s = Lvalue::register(Name::S);
    proof {
        lemma_masks();
    }
    b.assign(sp, Operation::ZeroExtend(s.to_rvalue()));
    b.assign(sp, Operation::Add(sp.to_rvalue(), Rvalue::constant(0x100, 9)));
    b.effect(
        Operation::Store(
            Rvalue::memory(sp.to_pointer(), 8),
            Lvalue::register(Name::A).to_rvalue(),
        ),
    );
    b.assign(sp, Operation::Add(sp.to_rvalue(), Rvalue::constant(1, 9)));
    b.assign(s, Operation::Move(Rvalue::Variable { name: sp.name, width: 8, offset: 0 }));
    assert(b.code() =~= pha_statements());
    b.finalize()
}

/// The statements that pack the seven flags into the 8-bit temporary
/// `flags`: carry at bit 0, zero at 1, interrupt-disable at 2, decimal at 3,
/// break at 4, a constant 1 at 5, overflow at 6 and negative at 7.
pub open spec fn pack_flags(flags: Lvalue) -> Seq<Statement> {
    seq![
        put(flags, Operation::ZeroExtend(flag(Name::C).value())),
        put(flags, Operation::Select(1, flags.value(), flag(Name::Z).value())),
        put(flags, Operation::Select(2, flags.value(), flag(Name::I).value())),
        put(flags, Operation::Select(3, flags.value(), flag(Name::D).value())),
        put(flags, Operation::Select(4, flags.value(), flag(Name::B).value())),
        put(flags, Operation::Select(5, flags.value(), lit(1, 1))),
        put(flags, Operation::Select(6, flags.value(), flag(Name::V).value())),
        put(flags, Operation::Select(7, flags.value(), flag(Name::N).value())),
    ]
}

/// The statements of the push of the flags.
pub open spec fn php_statements() -> Seq<Statement> {
    let sp = temp(0, 9);
    let flags = temp(1, 8);
    stack_top(sp) + pack_flags(flags) + seq![
        perform(Operation::Store(ram(sp.pointer(), 8), flags.value())),
        stack_advance(sp),
        stack_commit(sp),
    ]
}

/// Push flags: the seven flags are packed into one byte, as
/// [`pack_flags`] says, the byte is stored at the top of the stack, then
/// the stack pointer goes up by one. No flag changes.
///
/// What the statements do is proved in
/// [`lemma_php_effect`](crate::laws::stack::lemma_php_effect).
#[verifier::rlimit(60)]
pub fn php(cg: &mut Variant) -> (res: Result<Vec<Statement>, LiftError>)
    ensures
        *final(cg) == *old(cg),
        lifted(res, true, php_statements()),
{
    let mut b = Builder::new();
    let sp = b.declare(9);
    let flags = b.declare(8);
    let s = Lvalue::register(Name::S);
    let f = flags.to_rvalue();
    proof {
        lemma_masks();
    }
    b.assign(sp, Operation::ZeroExtend(s.to_rvalue()));
    b.assign(sp, Operation::Add(sp.to_rvalue(), Rvalue::constant(0x100, 9)));
    b.assign(flags, Operation::ZeroExtend(Lvalue::flag(Name::C).to_rvalue()));
    b.assign(flags, Operation::Select(1, f, Lvalue::flag(Name::Z).to_rvalue()));
    b.assign(flags, Operation::Select(2, f, Lvalue::flag(Name::I).to_rvalue()));
    b.assign(flags, Operation::Select(3, f, Lvalue::flag(Name::D).to_rvalue()));
    b.assign(flags, Operation::Select(4, f, Lvalue::flag(Name::B).to_rvalue()));
    b.assign(flags, Operation::Select(5, f, Rvalue::constant(1, 1)));
    b.assign(flags, Operation::Select(6, f, Lvalue::flag(Name::V).to_rvalue()));
    b.assign(flags, Operation::Select(7, f, Lvalue::flag(Name::N).to_rvalue()));
    b.effect(Operation::Store(Rvalue::memory(sp.to_pointer(), 8), f));
    b.assign(sp, Operation::Add(sp.to_rvalue(), Rvalue::constant(1, 9)));
    b.assign(s, Operation::Move(Rvalue::Variable { name: sp.name, width: 8, offset: 0 }));
    assert(b.code() =~= php_statements());
    b.finalize()
}

/// The statements of the pull of the accumulator.
pub open spec fn pla_statements() -> Seq<Statement> {
    let sp = temp(0, 9);
    let a = reg(Name::A);
    stack_top(sp) + seq![
        stack_advance(sp),
        put(a, Operation::Load(ram(sp.pointer(), 8))),
        stack_commit(sp),
        put(flag(Name::Z), Operation::Equal(a.value(), lit(0, 8))),
        put(flag(Name::N), Operation::LessSigned(a.value(), lit(0, 8))),
    ]
}

/// Pull accumulator: the stack pointer goes up by one, then the
/// accumulator is loaded from the top of the stack. The zero flag is set
/// where the accumulator is then zero, the negative flag where its highest
/// bit is set.
///
/// What the statements do is proved in
/// [`lemma_pla_effect`](crate::laws::stack::lemma_pla_effect).
pub fn pla(cg: &mut Variant) -> (res: Result<Vec<Statement>, LiftError>)
    ensures
        *final(cg) == *old(cg),
        lifted(res, true, pla_statements()),
{
    let mut b = Builder::new();
    let sp = b.declare(9);
    let s = Lvalue::register(Name::S);
    let a = Lvalue::register(Name::A);
    let zero = Rvalue::constant(0, 8);
    proof {
        lemma_masks();
    }
    b.assign(sp, Operation::ZeroExtend(s.to_rvalue()));
    b.assign(sp, Operation::Add(sp.to_rvalue(), Rvalue::constant(0x100, 9)));
    b.assign(sp, Operation::Add(sp.to_rvalue(), Rvalue::constant(1, 9)));
    b.assign(a, Operation::Load(Rvalue::memory(sp.to_pointer(), 8)));
    b.assign(s, Operation::Move(Rvalue::Variable { name: sp.name, width: 8, offset: 0 }));
    b.assign(Lvalue::flag(Name::Z), Operation::Equal(a.to_rvalue(), zero));
    b.assign(Lvalue::flag(Name::N), Operation::LessSigned(a.to_rvalue(), zero));
    assert(b.code() =~= pla_statements());
    b.finalize()
}

/// The statements that unpack the byte in the temporary `flags` into the
/// flags: carry from bit 0, zero from 1, interrupt-disable from 2, decimal
/// from 3, overflow from 6 and negative from 7. The break flag is not
/// written.
pub open spec fn unpack_flags(flags: Lvalue) -> Seq<Statement> {
    let f = flags.value();
    seq![
        put(flag(Name::C), Operation::Move(f.slice(1, 0).unwrap())),
        put(flag(Name::Z), Operation::Move(f.slice(1, 1).unwrap())),
        put(flag(Name::I), Operation::Move(f.slice(1, 2).unwrap())),
        put(flag(Name::D), Operation::Move(f.slice(1, 3).unwrap())),
        put(flag(Name::V), Operation::Move(f.slice(1, 6).unwrap())),
        put(flag(Name::N), Operation::Move(f.slice(1, 7).unwrap())),
    ]
}

/// The statements of the pull of the flags.
pub open spec fn plp_statements() -> Seq<Statement> {
    let sp = temp(0, 9);
    let flags = temp(1, 8);
    let a = reg(Name::A);
    stack_top(sp) + seq![stack_advance(sp), put(flags, Operation::Load(ram(sp.pointer(), 8)))]
        + unpack_flags(flags) + seq![
        stack_commit(sp),
        put(flag(Name::Z), Operation::Equal(a.value(), lit(0, 8))),
        put(flag(Name::N), Operation::LessSigned(a.value(), lit(0, 8))),
    ]
}

/// Pull flags: the stack pointer goes up by one, then a byte is loaded
/// from the top of the stack and unpacked into the flags, as
/// [`unpack_flags`] says: the break flag keeps its value. After that the
/// zero and negative flags are set anew from the accumulator, whatever the
/// byte held for them.
///
/// What the statements do is proved in
/// [`lemma_plp_effect`](crate::laws::stack::lemma_plp_effect).
#[verifier::rlimit(60)]
pub fn plp(cg: &mut Variant) -> (res: Result<Vec<Statement>, LiftError>)
    ensures
        *final(cg) == *old(cg),
        lifted(res, true, plp_statements()),
{
    let mut b = Builder::new();
    let sp = b.declare(9);
    let flags = b.declare(8);
    let s = Lvalue::register(Name::S);
    let a = Lvalue::register(Name::A);
    let zero = Rvalue::constant(0, 8);
    proof {
        lemma_masks();
    }
    b.assign(sp, Operation::ZeroExtend(s.to_rvalue()));
    b.assign(sp, Operation::Add(sp.to_rvalue(), Rvalue::constant(0x100, 9)));
    b.assign(sp, Operation::Add(sp.to_rvalue(), Rvalue::constant(1, 9)));
    b.assign(flags, Operation::Load(Rvalue::memory(sp.to_pointer(), 8)));
    b.assign(
        Lvalue::flag(Name::C),
        Operation::Move(Rvalue::Variable { name: flags.name, width: 1, offset: 0 }),
    );
    b.assign(
        Lvalue::flag(Name::Z),
        Operation::Move(Rvalue::Variable { name: flags.name, width: 1, offset: 1 }),
    );
    b.assign(
        Lvalue::flag(Name::I),
        Operation::Move(Rvalue::Variable { name: flags.name, width: 1, offset: 2 }),
    );
    b.assign(
        Lvalue::flag(Name::D),
        Operation::Move(Rvalue::Variable { name: flags.name, width: 1, offset: 3 }),
    );
    b.assign(
        Lvalue::flag(Name::V),
        Operation::Move(Rvalue::Variable { name: flags.name, width: 1, offset: 6 }),
    );
    b.assign(
        Lvalue::flag(Name::N),
        Operation::Move(Rvalue::Variable { name: flags.name, width: 1, offset: 7 }),
    );
    b.assign(s, Operation::Move(Rvalue::Variable { name: sp.name, width: 8, offset: 0 }));
    b.assign(Lvalue::flag(Name::Z), Operation::Equal(a.to_rvalue(), zero));
    b.assign(Lvalue::flag(Name::N), Operation::LessSigned(a.to_rvalue(), zero));
    assert(b.code() =~= plp_statements());
    b.finalize()
}

/// The 16-bit constant that the two immediate bytes of the instruction
/// spell, low byte first.
pub open spec fn immediate(st: State) -> Rvalue {
    lit((st.immlo + 256 * st.immhi) as u64, 16)
}

/// The address of the instruction after a 3-byte instruction at `address`,
/// as a 16-bit constant. Addresses wrap at 64 KiB.
pub open spec fn fallthrough(address: u64) -> Rvalue {
    lit(((address % 0x10000 + 3) % 0x10000) as u64, 16)
}

/// The statement that loads the 16 bits of memory at the literal address
/// `ptr` into the first temporary.
pub open spec fn fetch_statements(ptr: Rvalue) -> Seq<Statement> {
    seq![put(temp(0, 16), Operation::Load(ram(ptr.pointer().unwrap(), 16)))]
}

/// The statement that marks a call of the subroutine at `target`.
pub open spec fn call_statements(target: Rvalue) -> Seq<Statement> {
    seq![perform(Operation::Call(target))]
}

/// The edge from the instruction of `st` to `target` that is always taken.
pub open spec fn always_to(st: State, target: Rvalue) -> Edge {
    Edge { origin: st.address, target, guard: Guard::Always }
}

/// Whether `after` is `before` with `records` and the one edge `edge`
/// submitted, the records claiming `length` bytes.
pub open spec fn submitted(
    before: State,
    after: State,
    records: Seq<Record>,
    edge: Edge,
    length: nat,
) -> bool {
    &&& after.records() == before.records() + records
    &&& after.jumps@ == before.jumps@.push(edge)
    &&& after.claimed == before.claimed + length
    &&& after.address == before.address
    &&& after.consumed == before.consumed
    &&& after.immlo == before.immlo
    &&& after.immhi == before.immhi
    &&& after.configuration == before.configuration
}

/// Computes [`immediate`].
fn immediate_of(st: &State) -> (r: Rvalue)
    ensures
        r == immediate(*st),
{
    let lo: u64 = st.get_group(Group::ImmLo);
    let hi: u64 = st.get_group(Group::ImmHi);
    Rvalue::constant(lo + 256 * hi, 16)
}

/// The record of the visible jump to the literal address `next`.
pub open spec fn jmp_direct_record(next: Rvalue) -> Record {
    Record {
        length: 3,
        opcode: "jmp"@,
        format: "{c:ram}"@,
        operands: seq![next],
        statements: Seq::empty(),
    }
}

/// Jump to the address that the immediate spells. The record has no
/// statements; the one edge goes to the literal address and is always
/// taken. No edge to the next instruction is added.
///
/// If 3 bytes do not agree with what the decoder consumed, the routine
/// returns `DecodeInconsistency` and submits nothing.
pub fn jmp_direct(st: &mut State) -> (res: Result<(), LiftError>)
    ensures
        old(st).agrees(3) ==> res is Ok && submitted(
            *old(st),
            *final(st),
            seq![jmp_direct_record(immediate(*old(st)))],
            always_to(*old(st), immediate(*old(st))),
            3,
        ),
        !old(st).agrees(3) ==> res == Err::<(), LiftError>(LiftError::DecodeInconsistency)
            && *final(st) == *old(st),
{
    if !st.accepts(3) {
        return Err(LiftError::DecodeInconsistency);
    }
    let next = immediate_of(st);
    let mut operands: Vec<Rvalue> = Vec::new();
    operands.push(next);
    st.mnemonic(3, "jmp", "{c:ram}", operands, Vec::new())?;
    st.jump(next, Guard::always())?;
    proof {
        assert(st.records() =~= old(st).records() + seq![jmp_direct_record(next)]);
    }
    Ok(())
}

/// The record of the hidden step that fetches the target of an indirect
/// jump through the literal address `ptr`.
pub open spec fn fetch_record(ptr: Rvalue) -> Record {
    Record {
        length: 0,
        opcode: "__fetch"@,
        format: ""@,
        operands: Seq::empty(),
        statements: fetch_statements(ptr),
    }
}

/// The record of the visible jump through the literal address `ptr`.
pub open spec fn jmp_indirect_record(ptr: Rvalue) -> Record {
    Record {
        length: 3,
        opcode: "jmp"@,
        format: "{p:ram}"@,
        operands: seq![ptr],
        statements: Seq::empty(),
    }
}

/// Jump to the address that is stored where the immediate points. A hidden
/// record of length 0 loads the 16 bits at the pointer into a temporary;
/// the visible record shows the pointer; the one edge goes to the
/// temporary, never to a literal, and is always taken.
///
/// If 3 bytes do not agree with what the decoder consumed, the routine
/// returns `DecodeInconsistency` and submits nothing.
///
/// What the statements do is proved in
/// [`lemma_indirect_target`](crate::laws::flow::lemma_indirect_target).
pub fn jmp_indirect(st: &mut State) -> (res: Result<(), LiftError>)
    ensures
        old(st).agrees(3) ==> res is Ok && submitted(
            *old(st),
            *final(st),
            seq![fetch_record(immediate(*old(st))), jmp_indirect_record(immediate(*old(st)))],
            always_to(*old(st), temp(0, 16).value()),
            3,
        ),
        !old(st).agrees(3) ==> res == Err::<(), LiftError>(LiftError::DecodeInconsistency)
            && *final(st) == *old(st),
{
    if !st.accepts(3) {
        return Err(LiftError::DecodeInconsistency);
    }
    let lo: u64 = st.get_group(Group::ImmLo);
    let hi: u64 = st.get_group(Group::ImmHi);
    let ptr = Rvalue::constant(lo + 256 * hi, 16);
    let cell = Rvalue::memory(Pointer::Constant { value: lo + 256 * hi, width: 16 }, 16);

    let mut b = Builder::new();
    let res = b.declare(16);
    proof {
        lemma_masks();
    }
    b.assign(res, Operation::Load(cell));
    proof {
        assert(b.code() =~= fetch_statements(ptr));
    }
    let fetch = b.finalize()?;
    st.mnemonic(0, "__fetch", "", Vec::new(), fetch)?;

    let next = res.to_rvalue();
    let mut operands: Vec<Rvalue> = Vec::new();
    operands.push(ptr);
    st.mnemonic(3, "jmp", "{p:ram}", operands, Vec::new())?;
    st.jump(next, Guard::always())?;
    proof {
        assert(st.records() =~= old(st).records() + seq![
            fetch_record(ptr),
            jmp_indirect_record(ptr),
        ]);
    }
    Ok(())
}

/// The record of a call of the subroutine at `target`.
pub open spec fn jsr_record(target: Rvalue) -> Record {
    Record {
        length: 3,
        opcode: "jsr"@,
        format: "{c:ram}"@,
        operands: seq![target],
        statements: call_statements(target),
    }
}

/// Call the subroutine at the address that the immediate spells. The
/// record holds one statement, the call marker with the literal target; the
/// push of the return address is not modelled. The one edge goes to the
/// instruction after the call, 3 bytes on, and is always taken: decoding
/// goes on there, not at the target.
///
/// If 3 bytes do not agree with what the decoder consumed, the routine
/// returns `DecodeInconsistency` and submits nothing.
///
/// What the statements do is proved in
/// [`lemma_call_effect`](crate::laws::flow::lemma_call_effect).
pub fn jsr(st: &mut State) -> (res: Result<(), LiftError>)
    ensures
        old(st).agrees(3) ==> res is Ok && submitted(
            *old(st),
            *final(st),
            seq![jsr_record(immediate(*old(st)))],
            always_to(*old(st), fallthrough(old(st).address)),
            3,
        ),
        !old(st).agrees(3) ==> res == Err::<(), LiftError>(LiftError::DecodeInconsistency)
            && *final(st) == *old(st),
{
    if !st.accepts(3) {
        return Err(LiftError::DecodeInconsistency);
    }
    let next = Rvalue::constant((st.address % 0x10000 + 3) % 0x10000, 16);
    let target = immediate_of(st);

    let mut b = Builder::new();
    proof {
        lemma_masks();
    }
    b.effect(Operation::Call(target));
    proof {
        assert(b.code() =~= call_statements(target));
    }
    let call = b.finalize()?;
    let mut operands: Vec<Rvalue> = Vec::new();
    operands.push(target);
    st.mnemonic(3, "jsr", "{c:ram}", operands, call)?;
    st.jump(next, Guard::always())?;
    proof {
        assert(st.records() =~= old(st).records() + seq![jsr_record(target)]);
    }
    Ok(())
}

} // verus!
