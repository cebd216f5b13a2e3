//! What the lifted instructions do to the processor.
//!
//! Each law runs the statements of an instruction on an arbitrary state and
//! says, in ordinary arithmetic, what the state is afterwards. The laws
//! stand in one module for each family of instructions; this module holds
//! what they share.

pub mod arithmetic;
pub mod flow;
pub mod logic;
pub mod moves;
pub mod stack;

use vstd::prelude::*;
use crate::bits::{lemma_byte_bits, lemma_field_low, lemma_low_bits, lemma_masks};
use crate::ir::{flag, lit, put, reg, temp, Name, Operation, Rvalue};
use crate::machine::{
    bit, eval, lemma_less_signed_byte, lemma_put_flag, lemma_put_register, lemma_put_temp,
    lemma_run_1, lemma_run_3, lemma_scalar_bound, load, read, result, run, scalar, step, Cpu,
    Registers,
};
use crate::semantic::{operand_load, operand_ok, operand_value, value_ok};

verus! {

/// Whether the statements of a routine that writes only temporaries below
/// `used` can read the byte `r` throughout: it is a well-formed operand, or
/// the whole of an 8-bit temporary from `used` on.
pub open spec fn byte_source(r: Rvalue, used: u8) -> bool {
    operand_ok(r, 8) || (exists|k: u8| k >= used && r == #[trigger] temp(k, 8).value())
}

/// The value of a byte source is below 256, and it is the same in two
/// states that agree on the registers and, where the source is a
/// temporary, on that temporary.
pub proof fn lemma_byte_operand(s: Cpu, t: Cpu, r: Rvalue)
    requires
        byte_source(r, 0),
        t.regs.a == s.regs.a,
        t.regs.x == s.regs.x,
        t.regs.y == s.regs.y,
        t.regs.s == s.regs.s,
        r matches Rvalue::Variable { name: Name::Temp(k), .. } ==> t.temps[k as int] == s.temps[
            k as int
        ],
    ensures
        eval(s, r) < 0x100,
        eval(t, r) == eval(s, r),
{
    lemma_masks();
    lemma_scalar_bound(s, r);
}

/// What the load of an operand does. Afterwards the value that the
/// instruction reads for the operand is the byte that the operand stood for
/// before; registers, flags and memory are as they were, and so is every
/// temporary but `k`.
pub proof fn lemma_operand_load(s: Cpu, r: Rvalue, k: u8)
    requires
        s.wf(),
        value_ok(r),
    ensures
        ({
            let u = run(s, operand_load(r, k));
            let v = operand_value(r, k);
            &&& u.wf()
            &&& u.regs == s.regs
            &&& u.ram == s.ram
            &&& forall|j: int| 0 <= j < 256 && j != k ==> #[trigger] u.temps[j] == s.temps[j]
            &&& byte_source(v, k)
            &&& eval(u, v) == eval(s, r)
            &&& eval(s, r) < 0x100
        }),
{
    lemma_masks();
    if r is Memory {
        let i0 = put(temp(k, 8), Operation::Load(r));
        lemma_run_1(s, i0);
        lemma_put_temp(s, k, 8, i0.op);
        let word = load(s.ram, scalar(s, r->address.value()), 0, (r->Memory_width / 8) as nat);
        lemma_low_bits(word);
        lemma_low_bits(eval(s, r));
        assert(result(s, i0.op) == eval(s, r));
        assert(operand_value(r, k) == temp(k, 8).value());
    } else {
        lemma_scalar_bound(s, r);
    }
}

/// The content of the 8-bit temporary `k`, read as a whole.
pub open spec fn byte_temp(s: Cpu, k: u8) -> u64 {
    eval(s, temp(k, 8).value())
}

/// The content of the 1-bit temporary `k`.
pub open spec fn bit_temp(s: Cpu, k: u8) -> u64 {
    eval(s, temp(k, 1).value())
}

/// The content of the register `name`; 0 where `name` is no register.
pub open spec fn read_register(regs: Registers, name: Name) -> u8 {
    match name {
        Name::A => regs.a,
        Name::X => regs.x,
        Name::Y => regs.y,
        Name::S => regs.s,
        _ => 0,
    }
}

/// The value of a whole flag is its bit.
pub proof fn lemma_flag_value(s: Cpu, f: Name)
    requires
        f.is_flag(),
    ensures
        eval(s, flag(f).value()) == bit(
            match f {
                Name::C => s.regs.c,
                Name::Z => s.regs.z,
                Name::I => s.regs.i,
                Name::D => s.regs.d,
                Name::B => s.regs.b,
                Name::V => s.regs.v,
                _ => s.regs.n,
            },
        ),
{
    lemma_masks();
    lemma_low_bits(0);
    lemma_low_bits(1);
    lemma_field_low(0, 1);
    lemma_field_low(1, 1);
}

/// The value of a whole register is its content.
pub proof fn lemma_register_value(s: Cpu, name: Name)
    requires
        name.is_register(),
    ensures
        eval(s, reg(name).value()) == read_register(s.regs, name),
{
    lemma_masks();
    lemma_field_low(read_register(s.regs, name) as u64, 8);
    lemma_low_bits(read_register(s.regs, name) as u64);
}

/// The two statements that set the zero flag where the register `name` is
/// zero and the negative flag where its highest bit is set.
pub proof fn lemma_zero_negative(s: Cpu, name: Name)
    requires
        s.wf(),
        name.is_register(),
    ensures
        ({
            let l = reg(name).value();
            let v = eval(s, l);
            let t = step(
                step(s, put(flag(Name::Z), Operation::Equal(l, lit(0, 8)))),
                put(flag(Name::N), Operation::LessSigned(l, lit(0, 8))),
            );
            &&& v == read_register(s.regs, name)
            &&& t == Cpu {
                regs: s.regs.with_flag(Name::Z, v == 0).with_flag(Name::N, v >= 0x80),
                ..s
            }
        }),
{
    let l = reg(name).value();
    let v = eval(s, l);
    let i_z = put(flag(Name::Z), Operation::Equal(l, lit(0, 8)));
    let i_n = put(flag(Name::N), Operation::LessSigned(l, lit(0, 8)));
    lemma_masks();
    lemma_low_bits(0);
    lemma_field_low(read_register(s.regs, name) as u64, 8);
    lemma_low_bits(read_register(s.regs, name) as u64);
    lemma_less_signed_byte(v, 0);
    let s1 = step(s, i_z);
    lemma_put_flag(s, Name::Z, i_z.op);
    assert(eval(s1, l) == v);
    lemma_put_flag(s1, Name::N, i_n.op);
}

/// The three statements that move the byte `r` to the register `name` and
/// set the zero and negative flags from the register.
pub proof fn lemma_move_effect(s: Cpu, name: Name, r: Rvalue)
    requires
        s.wf(),
        name.is_register(),
        eval(s, r) < 0x100,
    ensures
        ({
            let l = reg(name);
            let t = run(
                s,
                seq![
                    put(l, Operation::Move(r)),
                    put(flag(Name::Z), Operation::Equal(l.value(), lit(0, 8))),
                    put(flag(Name::N), Operation::LessSigned(l.value(), lit(0, 8))),
                ],
            );
            let m = eval(s, r);
            &&& t.ram == s.ram
            &&& t.regs == s.regs.with_register(name, m as u8).with_flag(Name::Z, m == 0).with_flag(
                Name::N,
                m >= 0x80,
            )
        }),
{
    let l = reg(name);
    let m = eval(s, r);
    let i0 = put(l, Operation::Move(r));
    let i1 = put(flag(Name::Z), Operation::Equal(l.value(), lit(0, 8)));
    let i2 = put(flag(Name::N), Operation::LessSigned(l.value(), lit(0, 8)));
    lemma_run_3(s, i0, i1, i2);
    lemma_masks();
    lemma_low_bits(0);

    let s1 = step(s, i0);
    lemma_put_register(s, name, i0.op);
    lemma_field_low(m, 8);
    lemma_low_bits(m);
    assert(eval(s1, l.value()) == m);

    let s2 = step(s1, i1);
    lemma_put_flag(s1, Name::Z, i1.op);
    assert(eval(s2, l.value()) == m);

    lemma_less_signed_byte(m, 0);
    lemma_put_flag(s2, Name::N, i2.op);
}

/// Bit `k` of a byte source, taken as a slice of one bit.
pub proof fn lemma_operand_bit(s: Cpu, r: Rvalue, k: u8)
    requires
        byte_source(r, 0),
        k < 8,
    ensures
        r.slice(1, k) is Some,
        eval(s, r.slice(1, k).unwrap()) == bit(bit_of(eval(s, r) as int, k as int)),
{
    lemma_masks();
    let word = match r {
        Rvalue::Constant { value, .. } => value,
        Rvalue::Variable { name, .. } => read(s, name),
        _ => 0,
    };
    lemma_byte_bits(word);
    lemma_field_low(word, 8);
    let f = (word >> k) & 1;
    assert(f & 1 == f) by (bit_vector)
        requires
            f == (word >> k) & 1,
    ;
    assert(eval(s, r) == word & 0xff);
    assert(eval(s, r.slice(1, k).unwrap()) == f);
    if k == 0 {
        assert(f == (word >> 0u8) & 1);
    } else if k == 1 {
        assert(f == (word >> 1u8) & 1);
    } else if k == 2 {
        assert(f == (word >> 2u8) & 1);
    } else if k == 3 {
        assert(f == (word >> 3u8) & 1);
    } else if k == 4 {
        assert(f == (word >> 4u8) & 1);
    } else if k == 5 {
        assert(f == (word >> 5u8) & 1);
    } else if k == 6 {
        assert(f == (word >> 6u8) & 1);
    } else {
        assert(f == (word >> 7u8) & 1);
    }
}

/// Whether bit `k` of `byte` is set, for `k` from 0 to 7.
pub open spec fn bit_of(byte: int, k: int) -> bool {
    if k == 0 {
        byte % 2 == 1
    } else if k == 1 {
        (byte / 2) % 2 == 1
    } else if k == 2 {
        (byte / 4) % 2 == 1
    } else if k == 3 {
        (byte / 8) % 2 == 1
    } else if k == 4 {
        (byte / 16) % 2 == 1
    } else if k == 5 {
        (byte / 32) % 2 == 1
    } else if k == 6 {
        (byte / 64) % 2 == 1
    } else {
        (byte / 128) % 2 == 1
    }
}

} // verus!
