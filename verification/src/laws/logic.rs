//! The bitwise instructions, the bit test, the shifts and the rotations.

use vstd::prelude::*;
use crate::bits::{
    lemma_byte_bits, lemma_byte_logic, lemma_byte_shift_left, lemma_deposit_bit, lemma_deposit_low,
    lemma_field_low, lemma_low_bits, lemma_masks,
};
use crate::ir::{flag, lit, put, reg, temp, Name, Operation, Rvalue};
use crate::laws::{
    bit_of, bit_temp, byte_source, byte_temp, lemma_byte_operand, lemma_flag_value,
    lemma_operand_bit, lemma_operand_load, lemma_register_value, lemma_zero_negative,
    read_register,
};
use crate::machine::{
    bit, eval, lemma_put_flag, lemma_put_register, lemma_put_temp, lemma_run_2, lemma_run_3,
    lemma_run_4, lemma_run_concat, result, run, step, Cpu,
};
use crate::semantic::{
    and_core, and_statements, asl_statements, bit_core, bit_statements, eor_core, eor_statements,
    lsr_statements, operand_load, operand_value, ora_core, ora_statements, rol_statements,
    ror_statements, value_ok,
};

verus! {

/// What the statements of bitwise AND do once the operand is at hand.
proof fn lemma_and_core(s: Cpu, r: Rvalue)
    requires
        s.wf(),
        byte_source(r, 0),
    ensures
        ({
            let t = run(s, and_core(r));
            let v = s.regs.a & (eval(s, r) as u8);
            &&& eval(s, r) < 0x100
            &&& t.ram == s.ram
            &&& t.regs == s.regs.with_register(Name::A, v).with_flag(Name::Z, v == 0).with_flag(
                Name::N,
                v >= 0x80,
            )
        }),
{
    let a = reg(Name::A);
    let i0 = put(a, Operation::And(a.value(), r));
    let i_z = put(flag(Name::Z), Operation::Equal(a.value(), lit(0, 8)));
    let i_n = put(flag(Name::N), Operation::LessSigned(a.value(), lit(0, 8)));
    lemma_run_3(s, i0, i_z, i_n);
    lemma_masks();
    lemma_byte_operand(s, s, r);
    lemma_field_low(s.regs.a as u64, 8);
    lemma_low_bits(s.regs.a as u64);
    lemma_byte_logic(s.regs.a, eval(s, r) as u8);
    lemma_put_register(s, Name::A, i0.op);
    lemma_zero_negative(step(s, i0), Name::A);
}

/// What bitwise AND does: the accumulator becomes its conjunction with the
/// operand; the zero flag says whether it is then zero, the negative flag
/// whether its highest bit is set. The other
/// registers and flags and the memory stay as they were.
pub proof fn lemma_and_effect(s: Cpu, r: Rvalue)
    requires
        s.wf(),
        value_ok(r),
    ensures
        ({
            let t = run(s, and_statements(r));
            let v = s.regs.a & (eval(s, r) as u8);
            &&& eval(s, r) < 0x100
            &&& t.ram == s.ram
            &&& t.regs == s.regs.with_register(Name::A, v).with_flag(Name::Z, v == 0).with_flag(
                Name::N,
                v >= 0x80,
            )
        }),
{
    let u = run(s, operand_load(r, 0));
    lemma_operand_load(s, r, 0);
    lemma_and_core(u, operand_value(r, 0));
    lemma_run_concat(s, operand_load(r, 0), and_core(operand_value(r, 0)));
}

/// What the statements of bitwise OR do once the operand is at hand.
proof fn lemma_ora_core(s: Cpu, r: Rvalue)
    requires
        s.wf(),
        byte_source(r, 0),
    ensures
        ({
            let t = run(s, ora_core(r));
            let v = s.regs.a | (eval(s, r) as u8);
            &&& eval(s, r) < 0x100
            &&& t.ram == s.ram
            &&& t.regs == s.regs.with_register(Name::A, v).with_flag(Name::Z, v == 0).with_flag(
                Name::N,
                v >= 0x80,
            )
        }),
{
    let a = reg(Name::A);
    let i0 = put(a, Operation::InclusiveOr(r, a.value()));
    let i_z = put(flag(Name::Z), Operation::Equal(a.value(), lit(0, 8)));
    let i_n = put(flag(Name::N), Operation::LessSigned(a.value(), lit(0, 8)));
    lemma_run_3(s, i0, i_z, i_n);
    lemma_masks();
    lemma_byte_operand(s, s, r);
    lemma_field_low(s.regs.a as u64, 8);
    lemma_low_bits(s.regs.a as u64);
    lemma_byte_logic(eval(s, r) as u8, s.regs.a);
    lemma_byte_logic(s.regs.a, eval(s, r) as u8);
    lemma_put_register(s, Name::A, i0.op);
    lemma_zero_negative(step(s, i0), Name::A);
}

/// What bitwise OR does: the accumulator becomes its inclusive
/// disjunction with the operand; the zero flag says whether it is then
/// zero, the negative flag whether its highest bit is set. The other
/// registers and flags and the memory stay as they were.
pub proof fn lemma_ora_effect(s: Cpu, r: Rvalue)
    requires
        s.wf(),
        value_ok(r),
    ensures
        ({
            let t = run(s, ora_statements(r));
            let v = s.regs.a | (eval(s, r) as u8);
            &&& eval(s, r) < 0x100
            &&& t.ram == s.ram
            &&& t.regs == s.regs.with_register(Name::A, v).with_flag(Name::Z, v == 0).with_flag(
                Name::N,
                v >= 0x80,
            )
        }),
{
    let u = run(s, operand_load(r, 0));
    lemma_operand_load(s, r, 0);
    lemma_ora_core(u, operand_value(r, 0));
    lemma_run_concat(s, operand_load(r, 0), ora_core(operand_value(r, 0)));
}

/// What the statements of bitwise exclusive OR do once the operand is at
/// hand.
proof fn lemma_eor_core(s: Cpu, r: Rvalue)
    requires
        s.wf(),
        byte_source(r, 0),
    ensures
        ({
            let t = run(s, eor_core(r));
            let v = s.regs.a ^ (eval(s, r) as u8);
            &&& eval(s, r) < 0x100
            &&& t.ram == s.ram
            &&& t.regs == s.regs.with_register(Name::A, v).with_flag(Name::Z, v == 0).with_flag(
                Name::N,
                v >= 0x80,
            )
        }),
{
    let a = reg(Name::A);
    let i0 = put(a, Operation::ExclusiveOr(r, a.value()));
    let i_z = put(flag(Name::Z), Operation::Equal(a.value(), lit(0, 8)));
    let i_n = put(flag(Name::N), Operation::LessSigned(a.value(), lit(0, 8)));
    lemma_run_3(s, i0, i_z, i_n);
    lemma_masks();
    lemma_byte_operand(s, s, r);
    lemma_field_low(s.regs.a as u64, 8);
    lemma_low_bits(s.regs.a as u64);
    lemma_byte_logic(eval(s, r) as u8, s.regs.a);
    lemma_byte_logic(s.regs.a, eval(s, r) as u8);
    lemma_put_register(s, Name::A, i0.op);
    lemma_zero_negative(step(s, i0), Name::A);
}

/// What bitwise exclusive OR does: the accumulator becomes its exclusive
/// disjunction with the operand; the zero flag says whether it is then
/// zero, the negative flag whether its highest bit is set. The other
/// registers and flags and the memory stay as they were.
pub proof fn lemma_eor_effect(s: Cpu, r: Rvalue)
    requires
        s.wf(),
        value_ok(r),
    ensures
        ({
            let t = run(s, eor_statements(r));
            let v = s.regs.a ^ (eval(s, r) as u8);
            &&& eval(s, r) < 0x100
            &&& t.ram == s.ram
            &&& t.regs == s.regs.with_register(Name::A, v).with_flag(Name::Z, v == 0).with_flag(
                Name::N,
                v >= 0x80,
            )
        }),
{
    let u = run(s, operand_load(r, 0));
    lemma_operand_load(s, r, 0);
    lemma_eor_core(u, operand_value(r, 0));
    lemma_run_concat(s, operand_load(r, 0), eor_core(operand_value(r, 0)));
}

/// What the shift left does: the carry flag takes bit 7 of the
/// accumulator, and the accumulator becomes twice itself, modulo 256. The
/// zero flag says whether it is then zero, the negative flag whether its
/// highest bit is set. The other registers and flags
/// and the memory stay as they were.
pub proof fn lemma_asl_effect(s: Cpu)
    requires
        s.wf(),
    ensures
        ({
            let t = run(s, asl_statements());
            let v = (2 * s.regs.a) % 0x100;
            &&& t.ram == s.ram
            &&& t.regs == s.regs.with_flag(Name::C, s.regs.a >= 0x80).with_register(
                Name::A,
                v as u8,
            ).with_flag(Name::Z, v == 0).with_flag(Name::N, v >= 0x80)
        }),
{
    let a = reg(Name::A);
    let av = s.regs.a as u64;
    let i0 = put(flag(Name::C), Operation::Move(a.value().slice(1, 7).unwrap()));
    let i1 = put(a, Operation::ShiftLeft(a.value(), lit(1, 8)));
    let i_z = put(flag(Name::Z), Operation::Equal(a.value(), lit(0, 8)));
    let i_n = put(flag(Name::N), Operation::LessSigned(a.value(), lit(0, 8)));
    lemma_run_4(s, i0, i1, i_z, i_n);
    lemma_masks();
    lemma_low_bits(1);
    lemma_byte_bits(av);
    lemma_field_low(av, 8);
    lemma_low_bits(av);
    lemma_byte_shift_left(av);
    let s1 = step(s, i0);
    lemma_put_flag(s, Name::C, i0.op);
    let s2 = step(s1, i1);
    lemma_put_register(s1, Name::A, i1.op);
    lemma_low_bits(result(s1, i1.op));
    lemma_zero_negative(s2, Name::A);
}

/// What the shift right does: the carry flag takes bit 0 of the
/// accumulator, and the accumulator becomes half itself, rounded down. The
/// zero flag says whether it is then zero; the negative flag is cleared.
/// The other registers and flags and the memory stay as they were.
pub proof fn lemma_lsr_effect(s: Cpu)
    requires
        s.wf(),
    ensures
        ({
            let t = run(s, lsr_statements());
            let v = s.regs.a / 2;
            &&& t.ram == s.ram
            &&& t.regs == s.regs.with_flag(Name::C, s.regs.a % 2 == 1).with_register(
                Name::A,
                v as u8,
            ).with_flag(Name::Z, v == 0).with_flag(Name::N, false)
        }),
{
    let a = reg(Name::A);
    let av = s.regs.a as u64;
    let i0 = put(flag(Name::C), Operation::Move(a.value().slice(1, 0).unwrap()));
    let i1 = put(a, Operation::ShiftRight(a.value(), lit(1, 8)));
    let i_z = put(flag(Name::Z), Operation::Equal(a.value(), lit(0, 8)));
    let i_n = put(flag(Name::N), Operation::Move(lit(0, 1)));
    lemma_run_4(s, i0, i1, i_z, i_n);
    lemma_masks();
    lemma_low_bits(0);
    lemma_low_bits(1);
    lemma_byte_bits(av);
    lemma_field_low(av, 8);
    lemma_low_bits(av);
    let s1 = step(s, i0);
    lemma_put_flag(s, Name::C, i0.op);
    let s2 = step(s1, i1);
    lemma_put_register(s1, Name::A, i1.op);
    let s3 = step(s2, i_z);
    lemma_field_low(s2.regs.a as u64, 8);
    lemma_low_bits(s2.regs.a as u64);
    lemma_put_flag(s2, Name::Z, i_z.op);
    lemma_put_flag(s3, Name::N, i_n.op);
}

/// What the statements of the bit test do once the operand is at hand.
proof fn lemma_bit_core(s: Cpu, r: Rvalue)
    requires
        s.wf(),
        byte_source(r, 1),
    ensures
        ({
            let t = run(s, bit_core(r));
            let m = eval(s, r);
            let v = s.regs.a & (m as u8);
            &&& m < 0x100
            &&& t.ram == s.ram
            &&& t.regs == s.regs.with_flag(Name::Z, v == 0).with_flag(Name::N, v >= 0x80).with_flag(
                Name::V,
                bit_of(m as int, 6),
            )
        }),
{
    let res = temp(0, 8);
    let m = eval(s, r);
    let v = s.regs.a & (m as u8);
    let i0 = put(res, Operation::And(reg(Name::A).value(), r));
    let i1 = put(flag(Name::Z), Operation::Equal(res.value(), lit(0, 8)));
    let i2 = put(flag(Name::N), Operation::Move(res.value().slice(1, 7).unwrap()));
    let i3 = put(flag(Name::V), Operation::Move(r.slice(1, 6).unwrap()));
    lemma_run_4(s, i0, i1, i2, i3);
    lemma_masks();
    lemma_low_bits(0);
    lemma_byte_operand(s, s, r);
    lemma_register_value(s, Name::A);
    lemma_byte_logic(s.regs.a, m as u8);

    let s1 = step(s, i0);
    lemma_put_temp(s, 0, 8, i0.op);
    lemma_low_bits(v as u64);
    assert(byte_temp(s1, 0) == v);

    let s2 = step(s1, i1);
    lemma_put_flag(s1, Name::Z, i1.op);
    assert(byte_temp(s2, 0) == v);

    let s3 = step(s2, i2);
    lemma_byte_bits(s2.temps[0]);
    lemma_field_low(s2.temps[0], 8);
    lemma_put_flag(s2, Name::N, i2.op);

    lemma_byte_operand(s, s3, r);
    lemma_operand_bit(s3, r, 6);
    lemma_put_flag(s3, Name::V, i3.op);
}

/// What the bit test does. With `v` the conjunction of the accumulator
/// with the operand `m`: the zero flag says whether `v` is zero, the
/// negative flag is bit 7 of `v`, and the overflow flag is bit 6 of `m`
/// itself. The registers, the other flags and the memory stay as they were.
pub proof fn lemma_bit_effect(s: Cpu, r: Rvalue)
    requires
        s.wf(),
        value_ok(r),
    ensures
        ({
            let t = run(s, bit_statements(r));
            let m = eval(s, r);
            let v = s.regs.a & (m as u8);
            &&& m < 0x100
            &&& t.ram == s.ram
            &&& t.regs == s.regs.with_flag(Name::Z, v == 0).with_flag(Name::N, v >= 0x80).with_flag(
                Name::V,
                bit_of(m as int, 6),
            )
        }),
{
    let u = run(s, operand_load(r, 1));
    lemma_operand_load(s, r, 1);
    lemma_bit_core(u, operand_value(r, 1));
    lemma_run_concat(s, operand_load(r, 1), bit_core(operand_value(r, 1)));
}

/// The first two statements of a rotation to the left: bit 7 of the
/// register goes to temporary 0, and the register is doubled, modulo 256.
proof fn lemma_rol_shift(s: Cpu, name: Name)
    requires
        s.wf(),
        name.is_register(),
    ensures
        ({
            let r = reg(name).value();
            let t = step(
                step(s, put(temp(0, 1), Operation::Move(r.slice(1, 7).unwrap()))),
                put(reg(name), Operation::ShiftLeft(r, lit(1, 8))),
            );
            let v = read_register(s.regs, name);
            &&& t.wf()
            &&& t.ram == s.ram
            &&& t.regs == s.regs.with_register(name, ((2 * v) % 0x100) as u8)
            &&& bit_temp(t, 0) == bit(v >= 0x80)
        }),
{
    let r = reg(name).value();
    let v = read_register(s.regs, name) as u64;
    let i0 = put(temp(0, 1), Operation::Move(r.slice(1, 7).unwrap()));
    let i1 = put(reg(name), Operation::ShiftLeft(r, lit(1, 8)));
    lemma_masks();
    lemma_low_bits(1);
    lemma_byte_bits(v);
    lemma_low_bits(v);
    lemma_byte_shift_left(v);
    let s1 = step(s, i0);
    lemma_put_temp(s, 0, 1, i0.op);
    lemma_low_bits(result(s, i0.op));
    assert(bit_temp(s1, 0) == bit(v >= 0x80));
    lemma_register_value(s1, name);
    lemma_put_register(s1, name, i1.op);
    lemma_low_bits(result(s1, i1.op));
}

/// The middle statements of a rotation: the carry flag goes to the
/// vacated bit `k` of the register, and the bit `b` kept in temporary 0
/// becomes the carry flag.
proof fn lemma_rotate_fill(s: Cpu, name: Name, k: u8, b: bool)
    requires
        s.wf(),
        name.is_register(),
        bit_temp(s, 0) == bit(b),
        k == 0 || k == 7,
        k == 0 ==> read_register(s.regs, name) % 2 == 0,
        k == 7 ==> read_register(s.regs, name) < 0x80,
    ensures
        ({
            let r = reg(name).value();
            let t = step(
                step(s, put(reg(name), Operation::Select(k, r, flag(Name::C).value()))),
                put(flag(Name::C), Operation::Move(temp(0, 1).value())),
            );
            let d = read_register(s.regs, name);
            let q = if k == 0 {
                d + bit(s.regs.c)
            } else {
                d + 0x80 * bit(s.regs.c)
            };
            &&& t.wf()
            &&& t.ram == s.ram
            &&& t.regs == s.regs.with_register(name, q as u8).with_flag(Name::C, b)
        }),
{
    let r = reg(name).value();
    let d = read_register(s.regs, name) as u64;
    let c = bit(s.regs.c);
    let i2 = put(reg(name), Operation::Select(k, r, flag(Name::C).value()));
    let i3 = put(flag(Name::C), Operation::Move(temp(0, 1).value()));
    lemma_masks();
    lemma_register_value(s, name);
    lemma_flag_value(s, Name::C);
    if k == 0 {
        lemma_deposit_low(d, c);
    } else {
        lemma_deposit_bit(d, 7, c);
    }
    let s3 = step(s, i2);
    lemma_put_register(s, name, i2.op);
    assert(bit_temp(s3, 0) == bit(b));
    lemma_low_bits(bit(b));
    lemma_put_flag(s3, Name::C, i3.op);
}

/// What the rotation to the left does to the register `name`. With `v`
/// its content: the register becomes twice `v`, modulo 256, plus the carry
/// flag, and the carry flag becomes bit 7 of `v`. The zero flag says
/// whether the register is then zero, the negative flag whether its
/// highest bit is set. The other registers and flags and
/// the memory stay as they were.
#[verifier::rlimit(30)]
pub proof fn lemma_rol_effect(s: Cpu, name: Name)
    requires
        s.wf(),
        name.is_register(),
    ensures
        ({
            let t = run(s, rol_statements(reg(name).value()));
            let v = read_register(s.regs, name);
            let q = (2 * v) % 0x100 + bit(s.regs.c);
            &&& t.ram == s.ram
            &&& t.regs == s.regs.with_register(name, q as u8).with_flag(
                Name::C,
                v >= 0x80,
            ).with_flag(Name::Z, q == 0).with_flag(Name::N, q >= 0x80)
        }),
{
    let r = reg(name).value();
    let i0 = put(temp(0, 1), Operation::Move(r.slice(1, 7).unwrap()));
    let i1 = put(reg(name), Operation::ShiftLeft(r, lit(1, 8)));
    let i2 = put(reg(name), Operation::Select(0, r, flag(Name::C).value()));
    let i3 = put(flag(Name::C), Operation::Move(temp(0, 1).value()));
    let i_z = put(flag(Name::Z), Operation::Equal(r, lit(0, 8)));
    let i_n = put(flag(Name::N), Operation::LessSigned(r, lit(0, 8)));
    let v = read_register(s.regs, name);
    let s2 = step(step(s, i0), i1);
    lemma_rol_shift(s, name);
    let s4 = step(step(s2, i2), i3);
    lemma_rotate_fill(s2, name, 0, v >= 0x80);
    lemma_zero_negative(s4, name);
    lemma_run_4(s, i0, i1, i2, i3);
    lemma_run_2(s4, i_z, i_n);
    lemma_run_concat(s, seq![i0, i1, i2, i3], seq![i_z, i_n]);
    assert(rol_statements(r) =~= seq![i0, i1, i2, i3] + seq![i_z, i_n]);
}

/// The first two statements of a rotation to the right: bit 0 of the
/// register goes to temporary 0, and the register is halved.
proof fn lemma_ror_shift(s: Cpu, name: Name)
    requires
        s.wf(),
        name.is_register(),
    ensures
        ({
            let r = reg(name).value();
            let t = step(
                step(s, put(temp(0, 1), Operation::Move(r.slice(1, 0).unwrap()))),
                put(reg(name), Operation::ShiftRight(r, lit(1, 8))),
            );
            let v = read_register(s.regs, name);
            &&& t.wf()
            &&& t.ram == s.ram
            &&& t.regs == s.regs.with_register(name, (v / 2) as u8)
            &&& bit_temp(t, 0) == bit(v % 2 == 1)
        }),
{
    let r = reg(name).value();
    let v = read_register(s.regs, name) as u64;
    let i0 = put(temp(0, 1), Operation::Move(r.slice(1, 0).unwrap()));
    let i1 = put(reg(name), Operation::ShiftRight(r, lit(1, 8)));
    lemma_masks();
    lemma_low_bits(1);
    lemma_byte_bits(v);
    lemma_low_bits(v);
    let s1 = step(s, i0);
    lemma_put_temp(s, 0, 1, i0.op);
    lemma_low_bits(result(s, i0.op));
    assert(bit_temp(s1, 0) == bit(v % 2 == 1));
    lemma_register_value(s1, name);
    lemma_put_register(s1, name, i1.op);
}

/// What the rotation to the right does to the register `name`. With `v`
/// its content: the register becomes half of `v`, rounded down, plus 128
/// times the carry flag, and the carry flag becomes bit 0 of `v`. The zero
/// flag says whether the register is then zero, the negative flag whether
/// its highest bit is set. The other registers
/// and flags and the memory stay as they were.
#[verifier::rlimit(30)]
pub proof fn lemma_ror_effect(s: Cpu, name: Name)
    requires
        s.wf(),
        name.is_register(),
    ensures
        ({
            let t = run(s, ror_statements(reg(name).value()));
            let v = read_register(s.regs, name);
            let q = v / 2 + 0x80 * bit(s.regs.c);
            &&& t.ram == s.ram
            &&& t.regs == s.regs.with_register(name, q as u8).with_flag(
                Name::C,
                v % 2 == 1,
            ).with_flag(Name::Z, q == 0).with_flag(Name::N, q >= 0x80)
        }),
{
    let r = reg(name).value();
    let i0 = put(temp(0, 1), Operation::Move(r.slice(1, 0).unwrap()));
    let i1 = put(reg(name), Operation::ShiftRight(r, lit(1, 8)));
    let i2 = put(reg(name), Operation::Select(7, r, flag(Name::C).value()));
    let i3 = put(flag(Name::C), Operation::Move(temp(0, 1).value()));
    let i_z = put(flag(Name::Z), Operation::Equal(r, lit(0, 8)));
    let i_n = put(flag(Name::N), Operation::LessSigned(r, lit(0, 8)));
    let v = read_register(s.regs, name);
    let s2 = step(step(s, i0), i1);
    lemma_ror_shift(s, name);
    let s4 = step(step(s2, i2), i3);
    lemma_rotate_fill(s2, name, 7, v % 2 == 1);
    lemma_zero_negative(s4, name);
    lemma_run_4(s, i0, i1, i2, i3);
    lemma_run_2(s4, i_z, i_n);
    lemma_run_concat(s, seq![i0, i1, i2, i3], seq![i_z, i_n]);
    assert(ror_statements(r) =~= seq![i0, i1, i2, i3] + seq![i_z, i_n]);
}

} // verus!
