//! Add, subtract, decrement, increment and compare.

use vstd::prelude::*;
use crate::bits::{lemma_add_low, lemma_field_low, lemma_low_bits, lemma_masks, lemma_sub_low};
use crate::ir::{flag, lit, put, reg, temp, Name, Operation, Rvalue, Statement};
use crate::laws::{
    bit_temp, byte_source, byte_temp, lemma_byte_operand, lemma_flag_value, lemma_operand_load,
    lemma_register_value,
};
use crate::machine::{
    bit, eval, lemma_and_bits, lemma_less_signed_byte, lemma_put_flag, lemma_put_register,
    lemma_put_temp, lemma_run_1, lemma_run_3, lemma_run_4, lemma_run_concat, lemma_scalar_bound,
    result, run, signed_byte, step, Cpu, Registers,
};
use crate::semantic::{
    adc_core, adc_statements, arith_flags, compare_core, compare_statements, dec_core,
    dec_statements, inc_core, inc_statements, operand_load, operand_value, sbc_core,
    sbc_statements, value_ok,
};

verus! {

/// The first three statements of add-with-carry: the sum, modulo 256, of
/// the accumulator, the operand and the carry flag goes to temporary 1.
spec fn adc_head(r: Rvalue) -> Seq<Statement> {
    seq![
        put(temp(0, 8), Operation::ZeroExtend(flag(Name::C).value())),
        put(temp(1, 8), Operation::Add(reg(Name::A).value(), r)),
        put(temp(1, 8), Operation::Add(temp(1, 8).value(), temp(0, 8).value())),
    ]
}

/// What the first three statements of add-with-carry do.
proof fn lemma_adc_head(s: Cpu, r: Rvalue)
    requires
        s.wf(),
        byte_source(r, 6),
    ensures
        ({
            let t = run(s, adc_head(r));
            &&& t.wf()
            &&& t.regs == s.regs
            &&& t.ram == s.ram
            &&& byte_temp(t, 1) == (s.regs.a + eval(s, r) + bit(s.regs.c)) % 0x100
        }),
{
    let a = s.regs.a as u64;
    let c = bit(s.regs.c);
    let m = eval(s, r);
    let i0 = put(temp(0, 8), Operation::ZeroExtend(flag(Name::C).value()));
    let i1 = put(temp(1, 8), Operation::Add(reg(Name::A).value(), r));
    let i2 = put(temp(1, 8), Operation::Add(temp(1, 8).value(), temp(0, 8).value()));
    lemma_run_3(s, i0, i1, i2);
    lemma_masks();
    lemma_byte_operand(s, s, r);
    lemma_flag_value(s, Name::C);
    lemma_register_value(s, Name::A);

    let s1 = step(s, i0);
    lemma_put_temp(s, 0, 8, i0.op);
    lemma_low_bits(c);
    assert(byte_temp(s1, 0) == c);

    let s2 = step(s1, i1);
    lemma_byte_operand(s, s1, r);
    lemma_register_value(s1, Name::A);
    lemma_put_temp(s1, 1, 8, i1.op);
    lemma_add_low(a, m);
    assert(byte_temp(s2, 1) == (a + m) % 0x100);
    assert(byte_temp(s2, 0) == c);

    lemma_put_temp(s2, 1, 8, i2.op);
    lemma_add_low(byte_temp(s2, 1), c);
}

/// The four statements that derive the carry flag from the sum in
/// temporary 1.
spec fn carry_part() -> Seq<Statement> {
    let res = temp(1, 8).value();
    let a = reg(Name::A).value();
    seq![
        put(temp(2, 1), Operation::LessOrEqualUnsigned(res, a)),
        put(temp(3, 1), Operation::Equal(res, a)),
        put(temp(3, 1), Operation::And(temp(3, 1).value(), flag(Name::C).value())),
        put(flag(Name::C), Operation::And(temp(2, 1).value(), temp(3, 1).value())),
    ]
}

/// What the four statements that derive the carry flag do: the flag is
/// set where the sum equals the accumulator and the carry flag was set.
proof fn lemma_carry_part(s: Cpu)
    requires
        s.wf(),
    ensures
        ({
            let t = run(s, carry_part());
            let q = byte_temp(s, 1);
            &&& t.wf()
            &&& t.ram == s.ram
            &&& byte_temp(t, 1) == q
            &&& t.regs == Registers { c: q == s.regs.a && s.regs.c, ..s.regs }
        }),
{
    let res = temp(1, 8).value();
    let a = reg(Name::A).value();
    let q = byte_temp(s, 1);
    let av = s.regs.a as u64;
    let i0 = put(temp(2, 1), Operation::LessOrEqualUnsigned(res, a));
    let i1 = put(temp(3, 1), Operation::Equal(res, a));
    let i2 = put(temp(3, 1), Operation::And(temp(3, 1).value(), flag(Name::C).value()));
    let i3 = put(flag(Name::C), Operation::And(temp(2, 1).value(), temp(3, 1).value()));
    lemma_run_4(s, i0, i1, i2, i3);
    lemma_masks();
    lemma_field_low(av, 8);
    lemma_low_bits(av);
    lemma_field_low(bit(s.regs.c), 1);
    lemma_low_bits(bit(s.regs.c));

    let s1 = step(s, i0);
    lemma_put_temp(s, 2, 1, i0.op);
    lemma_low_bits(result(s, i0.op));
    assert(bit_temp(s1, 2) == bit(q <= av));
    assert(byte_temp(s1, 1) == q);

    let s2 = step(s1, i1);
    lemma_put_temp(s1, 3, 1, i1.op);
    lemma_low_bits(result(s1, i1.op));
    assert(bit_temp(s2, 3) == bit(q == av));
    assert(bit_temp(s2, 2) == bit(q <= av));
    assert(byte_temp(s2, 1) == q);

    let s3 = step(s2, i2);
    lemma_and_bits(q == av, s.regs.c);
    lemma_put_temp(s2, 3, 1, i2.op);
    lemma_low_bits(result(s2, i2.op));
    assert(bit_temp(s3, 3) == bit(q == av && s.regs.c));
    assert(bit_temp(s3, 2) == bit(q <= av));
    assert(byte_temp(s3, 1) == q);

    let s4 = step(s3, i3);
    lemma_and_bits(q <= av, q == av && s.regs.c);
    lemma_put_flag(s3, Name::C, i3.op);
    assert(byte_temp(s4, 1) == q);
}

/// The four statements that derive the overflow flag from the sum in
/// temporary 1.
spec fn overflow_part() -> Seq<Statement> {
    let res = temp(1, 8).value();
    let a = reg(Name::A).value();
    seq![
        put(temp(4, 1), Operation::LessOrEqualSigned(res, a)),
        put(temp(5, 1), Operation::Equal(res, a)),
        put(temp(5, 1), Operation::And(temp(5, 1).value(), flag(Name::C).value())),
        put(flag(Name::V), Operation::And(temp(4, 1).value(), temp(5, 1).value())),
    ]
}

/// What the four statements that derive the overflow flag do: the flag is
/// set where the sum equals the accumulator and the carry flag is set.
proof fn lemma_overflow_part(s: Cpu)
    requires
        s.wf(),
    ensures
        ({
            let t = run(s, overflow_part());
            let q = byte_temp(s, 1);
            &&& t.wf()
            &&& t.ram == s.ram
            &&& byte_temp(t, 1) == q
            &&& t.regs == Registers { v: q == s.regs.a && s.regs.c, ..s.regs }
        }),
{
    let res = temp(1, 8).value();
    let a = reg(Name::A).value();
    let q = byte_temp(s, 1);
    let av = s.regs.a as u64;
    let i0 = put(temp(4, 1), Operation::LessOrEqualSigned(res, a));
    let i1 = put(temp(5, 1), Operation::Equal(res, a));
    let i2 = put(temp(5, 1), Operation::And(temp(5, 1).value(), flag(Name::C).value()));
    let i3 = put(flag(Name::V), Operation::And(temp(4, 1).value(), temp(5, 1).value()));
    lemma_run_4(s, i0, i1, i2, i3);
    lemma_masks();
    lemma_scalar_bound(s, res);
    lemma_field_low(av, 8);
    lemma_low_bits(av);
    lemma_field_low(bit(s.regs.c), 1);
    lemma_low_bits(bit(s.regs.c));
    lemma_less_signed_byte(av, q);
    let below = !(signed_byte(av as int) < signed_byte(q as int));

    let s1 = step(s, i0);
    lemma_put_temp(s, 4, 1, i0.op);
    lemma_low_bits(result(s, i0.op));
    assert(bit_temp(s1, 4) == bit(below));
    assert(byte_temp(s1, 1) == q);

    let s2 = step(s1, i1);
    lemma_put_temp(s1, 5, 1, i1.op);
    lemma_low_bits(result(s1, i1.op));
    assert(bit_temp(s2, 5) == bit(q == av));
    assert(bit_temp(s2, 4) == bit(below));
    assert(byte_temp(s2, 1) == q);

    let s3 = step(s2, i2);
    lemma_and_bits(q == av, s.regs.c);
    lemma_put_temp(s2, 5, 1, i2.op);
    lemma_low_bits(result(s2, i2.op));
    assert(bit_temp(s3, 5) == bit(q == av && s.regs.c));
    assert(bit_temp(s3, 4) == bit(below));
    assert(byte_temp(s3, 1) == q);

    let s4 = step(s3, i3);
    lemma_and_bits(below, q == av && s.regs.c);
    lemma_put_flag(s3, Name::V, i3.op);
    assert(byte_temp(s4, 1) == q);
}

/// The statements that add-with-carry and subtract-with-borrow share: the
/// flags are derived from the result in temporary 1, which then goes to
/// the accumulator.
spec fn arith_tail() -> Seq<Statement> {
    let res = temp(1, 8).value();
    seq![put(flag(Name::Z), Operation::Equal(lit(0, 8), res))] + carry_part() + seq![
        put(flag(Name::N), Operation::LessSigned(res, lit(0, 8))),
    ] + overflow_part() + seq![put(reg(Name::A), Operation::Move(res))]
}

/// What the shared statements do, with `q` the byte in temporary 1.
proof fn lemma_arith_tail(s: Cpu)
    requires
        s.wf(),
    ensures
        ({
            let t = run(s, arith_tail());
            let q = byte_temp(s, 1);
            let k = q == s.regs.a && s.regs.c;
            &&& q < 0x100
            &&& t.ram == s.ram
            &&& t.regs == Registers {
                a: q as u8,
                z: q == 0,
                c: k,
                n: q >= 0x80,
                v: k,
                ..s.regs
            }
        }),
{
    let res = temp(1, 8).value();
    let q = byte_temp(s, 1);
    let i_z = put(flag(Name::Z), Operation::Equal(lit(0, 8), res));
    let i_n = put(flag(Name::N), Operation::LessSigned(res, lit(0, 8)));
    let i_a = put(reg(Name::A), Operation::Move(res));
    lemma_masks();
    lemma_scalar_bound(s, res);
    lemma_low_bits(0);

    let s1 = run(s, seq![i_z]);
    lemma_run_1(s, i_z);
    lemma_put_flag(s, Name::Z, i_z.op);
    assert(byte_temp(s1, 1) == q);

    let s2 = run(s1, carry_part());
    lemma_carry_part(s1);

    let s3 = run(s2, seq![i_n]);
    lemma_run_1(s2, i_n);
    lemma_less_signed_byte(q, 0);
    lemma_put_flag(s2, Name::N, i_n.op);
    assert(byte_temp(s3, 1) == q);

    let s4 = run(s3, overflow_part());
    lemma_overflow_part(s3);

    let s5 = run(s4, seq![i_a]);
    lemma_run_1(s4, i_a);
    lemma_put_register(s4, Name::A, i_a.op);

    lemma_run_concat(s, seq![i_z], carry_part());
    lemma_run_concat(s, seq![i_z] + carry_part(), seq![i_n]);
    lemma_run_concat(s, seq![i_z] + carry_part() + seq![i_n], overflow_part());
    lemma_run_concat(s, seq![i_z] + carry_part() + seq![i_n] + overflow_part(), seq![i_a]);
}

/// What the statements of add-with-carry do once the operand is at hand.
proof fn lemma_adc_core(s: Cpu, r: Rvalue)
    requires
        s.wf(),
        byte_source(r, 6),
    ensures
        ({
            let t = run(s, adc_core(r));
            let m = eval(s, r);
            let sum = s.regs.a + m + bit(s.regs.c);
            let k = s.regs.c && m == 0xff;
            &&& m < 0x100
            &&& t.ram == s.ram
            &&& t.regs == Registers {
                a: (sum % 0x100) as u8,
                z: sum % 0x100 == 0,
                c: k,
                n: sum % 0x100 >= 0x80,
                v: k,
                ..s.regs
            }
        }),
{
    lemma_byte_operand(s, s, r);
    lemma_adc_head(s, r);
    lemma_arith_tail(run(s, adc_head(r)));
    lemma_run_concat(s, adc_head(r), arith_tail());
    assert(arith_flags() =~= arith_tail());
    assert(adc_core(r) =~= adc_head(r) + arith_tail());
}

/// What add-with-carry does. With `m` the operand and `sum` the
/// accumulator plus `m` plus the carry flag: the accumulator becomes `sum`
/// modulo 256; the zero flag says whether that is zero, the negative flag
/// whether its highest bit is set. The carry flag is set only where the
/// carry was set and `m` is 255, and the overflow flag equals the new carry
/// flag. The other registers and flags and the memory stay as they were.
pub proof fn lemma_adc_effect(s: Cpu, r: Rvalue)
    requires
        s.wf(),
        value_ok(r),
    ensures
        ({
            let t = run(s, adc_statements(r));
            let m = eval(s, r);
            let sum = s.regs.a + m + bit(s.regs.c);
            let k = s.regs.c && m == 0xff;
            &&& m < 0x100
            &&& t.ram == s.ram
            &&& t.regs == Registers {
                a: (sum % 0x100) as u8,
                z: sum % 0x100 == 0,
                c: k,
                n: sum % 0x100 >= 0x80,
                v: k,
                ..s.regs
            }
        }),
{
    let u = run(s, operand_load(r, 6));
    lemma_operand_load(s, r, 6);
    lemma_adc_core(u, operand_value(r, 6));
    lemma_run_concat(s, operand_load(r, 6), adc_core(operand_value(r, 6)));
}

/// Where the sum of accumulator, operand and carry flag fits a byte, or
/// the carry flag is set and the operand is 255, the carry flag after
/// add-with-carry is bit 8 of that sum, taken in integers wide enough to
/// hold it. Decimal mode is left out.
///
/// On the other inputs the sum exceeds a byte and the carry flag comes out
/// clear: see [`lemma_adc_effect`].
pub proof fn lemma_adc_carry_is_wide_carry(s: Cpu, r: Rvalue)
    requires
        s.wf(),
        value_ok(r),
        !s.regs.d,
        s.regs.a + eval(s, r) + bit(s.regs.c) < 0x100 || (s.regs.c && eval(s, r) == 0xff),
    ensures
        bit(run(s, adc_statements(r)).regs.c) == (s.regs.a + eval(s, r) + bit(s.regs.c)) / 0x100,
{
    lemma_adc_effect(s, r);
}

/// The carry flag after add-with-carry is never set without cause: where
/// it is set, the sum of accumulator, operand and carry flag exceeds a
/// byte.
pub proof fn lemma_adc_carry_sound(s: Cpu, r: Rvalue)
    requires
        s.wf(),
        value_ok(r),
    ensures
        run(s, adc_statements(r)).regs.c ==> s.regs.a + eval(s, r) + bit(s.regs.c) >= 0x100,
{
    lemma_adc_effect(s, r);
}

/// The first three statements of subtract-with-borrow: the accumulator
/// less the operand plus the carry flag, modulo 256, goes to temporary 1.
spec fn sbc_head(r: Rvalue) -> Seq<Statement> {
    seq![
        put(temp(0, 8), Operation::ZeroExtend(flag(Name::C).value())),
        put(temp(1, 8), Operation::Subtract(reg(Name::A).value(), r)),
        put(temp(1, 8), Operation::Add(temp(1, 8).value(), temp(0, 8).value())),
    ]
}

/// What the first three statements of subtract-with-borrow do.
proof fn lemma_sbc_head(s: Cpu, r: Rvalue)
    requires
        s.wf(),
        byte_source(r, 6),
    ensures
        ({
            let t = run(s, sbc_head(r));
            &&& t.wf()
            &&& t.regs == s.regs
            &&& t.ram == s.ram
            &&& byte_temp(t, 1) == (s.regs.a - eval(s, r) + bit(s.regs.c)) % 0x100
        }),
{
    let a = s.regs.a as u64;
    let c = bit(s.regs.c);
    let m = eval(s, r);
    let i0 = put(temp(0, 8), Operation::ZeroExtend(flag(Name::C).value()));
    let i1 = put(temp(1, 8), Operation::Subtract(reg(Name::A).value(), r));
    let i2 = put(temp(1, 8), Operation::Add(temp(1, 8).value(), temp(0, 8).value()));
    lemma_run_3(s, i0, i1, i2);
    lemma_masks();
    lemma_byte_operand(s, s, r);
    lemma_flag_value(s, Name::C);
    lemma_register_value(s, Name::A);

    let s1 = step(s, i0);
    lemma_put_temp(s, 0, 8, i0.op);
    lemma_low_bits(c);
    assert(byte_temp(s1, 0) == c);

    let s2 = step(s1, i1);
    lemma_byte_operand(s, s1, r);
    lemma_register_value(s1, Name::A);
    lemma_put_temp(s1, 1, 8, i1.op);
    lemma_sub_low(a, m);
    assert(byte_temp(s2, 1) == (a - m) % 0x100);
    assert(byte_temp(s2, 0) == c);

    lemma_put_temp(s2, 1, 8, i2.op);
    lemma_add_low(byte_temp(s2, 1), c);
}

/// What the statements of subtract-with-borrow do once the operand is at
/// hand.
proof fn lemma_sbc_core(s: Cpu, r: Rvalue)
    requires
        s.wf(),
        byte_source(r, 6),
    ensures
        ({
            let t = run(s, sbc_core(r));
            let m = eval(s, r);
            let diff = s.regs.a - m + bit(s.regs.c);
            let k = s.regs.c && diff % 0x100 == s.regs.a;
            &&& m < 0x100
            &&& t.ram == s.ram
            &&& t.regs == Registers {
                a: (diff % 0x100) as u8,
                z: diff % 0x100 == 0,
                c: k,
                n: diff % 0x100 >= 0x80,
                v: k,
                ..s.regs
            }
        }),
{
    lemma_byte_operand(s, s, r);
    lemma_sbc_head(s, r);
    lemma_arith_tail(run(s, sbc_head(r)));
    lemma_run_concat(s, sbc_head(r), arith_tail());
    assert(arith_flags() =~= arith_tail());
    assert(sbc_core(r) =~= sbc_head(r) + arith_tail());
}

/// What subtract-with-borrow does. With `m` the operand and `diff` the
/// accumulator less `m` plus the carry flag: the accumulator becomes
/// `diff` modulo 256; the zero flag says whether that is zero, the negative
/// flag whether its highest bit is set. The carry flag is set only where the
/// carry was set and that result equals the old accumulator, and the
/// overflow flag equals the new carry flag. The other registers and flags
/// and the memory stay as they were.
pub proof fn lemma_sbc_effect(s: Cpu, r: Rvalue)
    requires
        s.wf(),
        value_ok(r),
    ensures
        ({
            let t = run(s, sbc_statements(r));
            let m = eval(s, r);
            let diff = s.regs.a - m + bit(s.regs.c);
            let k = s.regs.c && diff % 0x100 == s.regs.a;
            &&& m < 0x100
            &&& t.ram == s.ram
            &&& t.regs == Registers {
                a: (diff % 0x100) as u8,
                z: diff % 0x100 == 0,
                c: k,
                n: diff % 0x100 >= 0x80,
                v: k,
                ..s.regs
            }
        }),
{
    let u = run(s, operand_load(r, 6));
    lemma_operand_load(s, r, 6);
    lemma_sbc_core(u, operand_value(r, 6));
    lemma_run_concat(s, operand_load(r, 6), sbc_core(operand_value(r, 6)));
}

/// The statements that a decrement and an increment share but for the
/// arithmetic: a copy of the operand, the write of the register, the zero
/// flag from the register and the negative flag from the copy.
proof fn lemma_step_effect(s: Cpu, name: Name, r: Rvalue, op: Operation, q: int)
    requires
        s.wf(),
        name.is_register(),
        byte_source(r, 1),
        0 <= q < 0x100,
        op == Operation::Subtract(r, lit(1, 8)) || op == Operation::Add(r, lit(1, 8)),
        result(s, op) % 0x100 == q,
    ensures
        ({
            let l = reg(name);
            let before = temp(0, 8);
            let t = run(
                s,
                seq![
                    put(before, Operation::Move(r)),
                    put(l, op),
                    put(flag(Name::Z), Operation::Equal(l.value(), lit(0, 8))),
                    put(flag(Name::N), Operation::LessSigned(before.value(), lit(0, 8))),
                ],
            );
            &&& t.ram == s.ram
            &&& t.regs == s.regs.with_register(name, q as u8).with_flag(Name::Z, q == 0).with_flag(
                Name::N,
                eval(s, r) >= 0x80,
            )
        }),
{
    let l = reg(name);
    let before = temp(0, 8);
    let m = eval(s, r);
    let i0 = put(before, Operation::Move(r));
    let i1 = put(l, op);
    let i2 = put(flag(Name::Z), Operation::Equal(l.value(), lit(0, 8)));
    let i3 = put(flag(Name::N), Operation::LessSigned(before.value(), lit(0, 8)));
    lemma_run_4(s, i0, i1, i2, i3);
    lemma_masks();
    lemma_byte_operand(s, s, r);
    lemma_low_bits(0);
    lemma_low_bits(1);
    lemma_low_bits(m);

    let s1 = step(s, i0);
    lemma_put_temp(s, 0, 8, i0.op);
    assert(byte_temp(s1, 0) == m);
    lemma_byte_operand(s, s1, r);
    assert(result(s1, op) == result(s, op));

    let s2 = step(s1, i1);
    lemma_put_register(s1, name, op);
    assert(byte_temp(s2, 0) == m);

    let s3 = step(s2, i2);
    lemma_register_value(s2, name);
    lemma_put_flag(s2, Name::Z, i2.op);
    assert(byte_temp(s3, 0) == m);

    lemma_less_signed_byte(m, 0);
    lemma_put_flag(s3, Name::N, i3.op);
}

/// What a decrement into the register `name` does. With `m` the operand
/// as it is before the instruction: the register becomes `m` less one,
/// modulo 256, and the zero flag says whether that is zero. The negative
/// flag is the highest bit of `m`, not of the new value, also where the
/// operand is the register itself. The other registers and flags and the
/// memory stay as they were.
pub proof fn lemma_dec_effect(s: Cpu, name: Name, r: Rvalue)
    requires
        s.wf(),
        name.is_register(),
        value_ok(r),
    ensures
        ({
            let t = run(s, dec_statements(reg(name), r));
            let m = eval(s, r);
            let q = (m - 1) % 0x100;
            &&& m < 0x100
            &&& t.ram == s.ram
            &&& t.regs == s.regs.with_register(name, q as u8).with_flag(Name::Z, q == 0).with_flag(
                Name::N,
                m >= 0x80,
            )
        }),
{
    let m = eval(s, r);
    let u = run(s, operand_load(r, 1));
    let v = operand_value(r, 1);
    lemma_operand_load(s, r, 1);
    lemma_masks();
    lemma_low_bits(1);
    lemma_sub_low(m, 1);
    lemma_step_effect(u, name, v, Operation::Subtract(v, lit(1, 8)), (m - 1) % 0x100);
    lemma_run_concat(s, operand_load(r, 1), dec_core(reg(name), v));
}

/// What an increment into the register `name` does. With `m` the operand
/// as it is before the instruction: the register becomes `m` plus one,
/// modulo 256, and the zero flag says whether that is zero. The negative
/// flag is the highest bit of `m`, not of the new value, also where the
/// operand is the register itself. The other registers and flags and the
/// memory stay as they were.
pub proof fn lemma_inc_effect(s: Cpu, name: Name, r: Rvalue)
    requires
        s.wf(),
        name.is_register(),
        value_ok(r),
    ensures
        ({
            let t = run(s, inc_statements(reg(name), r));
            let m = eval(s, r);
            let q = (m + 1) % 0x100;
            &&& m < 0x100
            &&& t.ram == s.ram
            &&& t.regs == s.regs.with_register(name, q as u8).with_flag(Name::Z, q == 0).with_flag(
                Name::N,
                m >= 0x80,
            )
        }),
{
    let m = eval(s, r);
    let u = run(s, operand_load(r, 1));
    let v = operand_value(r, 1);
    lemma_operand_load(s, r, 1);
    lemma_masks();
    lemma_low_bits(1);
    lemma_add_low(m, 1);
    lemma_step_effect(u, name, v, Operation::Add(v, lit(1, 8)), (m + 1) % 0x100);
    lemma_run_concat(s, operand_load(r, 1), inc_core(reg(name), v));
}

/// What the statements of a comparison do once the operand is at hand.
proof fn lemma_compare_core(s: Cpu, name: Name, r: Rvalue)
    requires
        s.wf(),
        name.is_register(),
        byte_source(r, 0),
    ensures
        ({
            let t = run(s, compare_core(reg(name).value(), r));
            let v = eval(s, reg(name).value());
            let m = eval(s, r);
            &&& t.ram == s.ram
            &&& t.regs == s.regs.with_flag(Name::C, v < m).with_flag(Name::N, v < m).with_flag(
                Name::Z,
                v == m,
            )
        }),
{
    let r1 = reg(name).value();
    let i0 = put(flag(Name::C), Operation::LessUnsigned(r1, r));
    let i1 = put(flag(Name::N), Operation::Move(flag(Name::C).value()));
    let i2 = put(flag(Name::Z), Operation::Equal(r1, r));
    lemma_run_3(s, i0, i1, i2);
    lemma_masks();

    let s1 = step(s, i0);
    lemma_put_flag(s, Name::C, i0.op);

    let s2 = step(s1, i1);
    lemma_field_low(bit(s1.regs.c), 1);
    lemma_low_bits(bit(s1.regs.c));
    lemma_put_flag(s1, Name::N, i1.op);

    lemma_byte_operand(s, s2, r);
    lemma_byte_operand(s, s2, r1);
    lemma_put_flag(s2, Name::Z, i2.op);
}

/// What a comparison of the register `name` with the operand does. With
/// `v` the register and `m` the operand: the carry flag is set where `v` is
/// below `m`, the negative flag likewise, and the zero flag where the two
/// are equal. The registers, the other flags and the memory stay as they
/// were.
pub proof fn lemma_compare_effect(s: Cpu, name: Name, r: Rvalue)
    requires
        s.wf(),
        name.is_register(),
        value_ok(r),
    ensures
        ({
            let t = run(s, compare_statements(reg(name).value(), r));
            let v = eval(s, reg(name).value());
            let m = eval(s, r);
            &&& t.ram == s.ram
            &&& t.regs == s.regs.with_flag(Name::C, v < m).with_flag(Name::N, v < m).with_flag(
                Name::Z,
                v == m,
            )
        }),
{
    let u = run(s, operand_load(r, 0));
    lemma_operand_load(s, r, 0);
    lemma_compare_core(u, name, operand_value(r, 0));
    lemma_run_concat(s, operand_load(r, 0), compare_core(reg(name).value(), operand_value(r, 0)));
}

} // verus!
