//! Pushes and pulls.

use vstd::prelude::*;
use crate::bits::{
    lemma_byte_bits, lemma_byte_shift_left, lemma_deposit_bit, lemma_field_low, lemma_low_bits,
    lemma_masks,
};
use crate::ir::{flag, lit, perform, put, ram, reg, temp, Name, Operation, Rvalue, Statement};
use crate::laws::{bit_of, byte_temp, lemma_flag_value};
use crate::machine::{
    bit, eval, lemma_less_signed_byte, lemma_put_flag, lemma_put_register, lemma_put_temp,
    lemma_run_2, lemma_run_3, lemma_run_4, lemma_run_concat, lemma_run_wf, lemma_scalar_bound,
    load, result, run, step, store, Cpu, Registers,
};
use crate::semantic::{
    pack_flags, pha_statements, php_statements, pla_statements, plp_statements, stack_advance,
    stack_commit, stack_top, unpack_flags,
};

verus! {

/// The content of the 9-bit temporary 0, which holds the address of the
/// top of the stack.
pub open spec fn stack_temp(s: Cpu) -> u64 {
    eval(s, temp(0, 9).value())
}

/// Whether `t` is `s` but for temporary `k`.
spec fn same_but_temp(s: Cpu, t: Cpu, k: int) -> bool {
    &&& t.wf()
    &&& t.regs == s.regs
    &&& t.ram == s.ram
    &&& forall|j: int| 0 <= j < 256 && j != k ==> #[trigger] t.temps[j] == s.temps[j]
}

/// What the two statements of [`stack_top`] do.
proof fn lemma_stack_top(s: Cpu)
    requires
        s.wf(),
    ensures
        same_but_temp(s, run(s, stack_top(temp(0, 9))), 0),
        stack_temp(run(s, stack_top(temp(0, 9)))) == 0x100 + s.regs.s,
{
    let sp = temp(0, 9);
    let sv = s.regs.s as u64;
    let i0 = put(sp, Operation::ZeroExtend(reg(Name::S).value()));
    let i1 = put(sp, Operation::Add(sp.value(), lit(0x100, 9)));
    lemma_run_2(s, i0, i1);
    lemma_masks();
    lemma_field_low(sv, 8);
    lemma_low_bits(sv);
    lemma_low_bits(0x100);

    let s1 = step(s, i0);
    lemma_put_temp(s, 0, 9, i0.op);
    assert(stack_temp(s1) == sv);

    lemma_put_temp(s1, 0, 9, i1.op);
    lemma_low_bits(result(s1, i1.op));
}

/// What the statement of [`stack_advance`] does.
proof fn lemma_stack_advance(s: Cpu)
    requires
        s.wf(),
    ensures
        same_but_temp(s, step(s, stack_advance(temp(0, 9))), 0),
        stack_temp(step(s, stack_advance(temp(0, 9)))) == (stack_temp(s) + 1) % 0x200,
{
    let sp = temp(0, 9);
    lemma_masks();
    lemma_scalar_bound(s, sp.value());
    lemma_low_bits(1);
    lemma_put_temp(s, 0, 9, stack_advance(sp).op);
    lemma_low_bits(result(s, stack_advance(sp).op));
}

/// What the statement of [`stack_commit`] does.
proof fn lemma_stack_commit(s: Cpu)
    requires
        s.wf(),
    ensures
        step(s, stack_commit(temp(0, 9))) == (Cpu {
            regs: s.regs.with_register(Name::S, (stack_temp(s) % 0x100) as u8),
            ..s
        }),
{
    let sp = temp(0, 9);
    lemma_masks();
    lemma_field_low(s.temps[0], 8);
    lemma_field_low(s.temps[0], 9);
    lemma_low_bits(s.temps[0]);
    lemma_put_register(s, Name::S, stack_commit(sp).op);
}

/// The statement that stores the byte `v` at the top of the stack.
spec fn stack_store(v: Rvalue) -> Statement {
    perform(Operation::Store(ram(temp(0, 9).pointer(), 8), v))
}

/// What the store at the top of the stack does.
proof fn lemma_stack_store(s: Cpu, v: Rvalue)
    requires
        s.wf(),
    ensures
        step(s, stack_store(v)) == (Cpu {
            ram: s.ram.update(stack_temp(s) as int, (eval(s, v) % 0x100) as u8),
            ..s
        }),
        stack_temp(s) < 0x200,
{
    lemma_masks();
    lemma_scalar_bound(s, temp(0, 9).value());
    lemma_low_bits(eval(s, v));
    reveal(step);
    reveal_with_fuel(store, 2);
}

/// The operation that loads the byte at the top of the stack.
spec fn stack_load() -> Operation {
    Operation::Load(ram(temp(0, 9).pointer(), 8))
}

/// What the load from the top of the stack gives.
proof fn lemma_stack_load(s: Cpu)
    requires
        s.wf(),
    ensures
        result(s, stack_load()) == s.ram[stack_temp(s) as int],
        stack_temp(s) < 0x200,
{
    lemma_masks();
    lemma_scalar_bound(s, temp(0, 9).value());
    let b = s.ram[stack_temp(s) as int] as u64;
    lemma_byte_shift_left(b);
    reveal_with_fuel(load, 2);
}

/// What the push of the accumulator does: the accumulator is written to
/// memory at 0x100 plus the stack pointer, and the stack pointer goes up by
/// one, modulo 256. The other registers and the flags stay as they were.
pub proof fn lemma_pha_effect(s: Cpu)
    requires
        s.wf(),
    ensures
        ({
            let t = run(s, pha_statements());
            &&& t.ram == s.ram.update(0x100 + s.regs.s, s.regs.a)
            &&& t.regs == s.regs.with_register(Name::S, ((s.regs.s + 1) % 0x100) as u8)
        }),
{
    let sp = temp(0, 9);
    let a = reg(Name::A).value();
    let s1 = run(s, stack_top(sp));
    lemma_stack_top(s);
    lemma_masks();
    lemma_field_low(s.regs.a as u64, 8);
    lemma_low_bits(s.regs.a as u64);
    lemma_push_tail(s1, a);
    lemma_run_3(s1, stack_store(a), stack_advance(sp), stack_commit(sp));
    lemma_run_concat(
        s,
        stack_top(sp),
        seq![stack_store(a), stack_advance(sp), stack_commit(sp)],
    );
}

/// What the pull of the accumulator does: the stack pointer goes up by
/// one, modulo 256, and the accumulator is read from memory at 0x101 plus
/// the old stack pointer, modulo 512. The zero flag says whether the
/// accumulator is then zero, the negative flag whether its highest bit is
/// set. The other registers and flags and the memory stay as they were.
pub proof fn lemma_pla_effect(s: Cpu)
    requires
        s.wf(),
    ensures
        ({
            let t = run(s, pla_statements());
            let v = s.ram[(0x101 + s.regs.s) % 0x200];
            &&& t.ram == s.ram
            &&& t.regs == s.regs.with_register(Name::A, v).with_register(
                Name::S,
                ((s.regs.s + 1) % 0x100) as u8,
            ).with_flag(Name::Z, v == 0).with_flag(Name::N, v >= 0x80)
        }),
{
    let sp = temp(0, 9);
    let a = reg(Name::A);
    let i_load = put(a, stack_load());
    let i_z = put(flag(Name::Z), Operation::Equal(a.value(), lit(0, 8)));
    let i_n = put(flag(Name::N), Operation::LessSigned(a.value(), lit(0, 8)));
    let v = s.ram[(0x101 + s.regs.s) % 0x200];
    lemma_masks();
    lemma_low_bits(0);
    lemma_field_low(v as u64, 8);
    lemma_low_bits(v as u64);
    lemma_less_signed_byte(v as u64, 0);

    let s1 = run(s, stack_top(sp));
    lemma_stack_top(s);
    let s2 = step(s1, stack_advance(sp));
    lemma_stack_advance(s1);
    let s3 = step(s2, i_load);
    lemma_stack_load(s2);
    lemma_put_register(s2, Name::A, i_load.op);
    assert(stack_temp(s3) == stack_temp(s2));
    let s4 = step(s3, stack_commit(sp));
    lemma_stack_commit(s3);
    let s5 = step(s4, i_z);
    lemma_put_flag(s4, Name::Z, i_z.op);
    lemma_put_flag(s5, Name::N, i_n.op);

    lemma_run_2(s1, stack_advance(sp), i_load);
    lemma_run_3(s3, stack_commit(sp), i_z, i_n);
    lemma_run_concat(s1, seq![stack_advance(sp), i_load], seq![stack_commit(sp), i_z, i_n]);
    assert(seq![stack_advance(sp), i_load] + seq![stack_commit(sp), i_z, i_n] =~= seq![
        stack_advance(sp),
        i_load,
        stack_commit(sp),
        i_z,
        i_n,
    ]);
    lemma_run_concat(
        s,
        stack_top(sp),
        seq![stack_advance(sp), i_load, stack_commit(sp), i_z, i_n],
    );
}

/// The byte that stands for the flags on the stack: carry at bit 0, zero
/// at 1, interrupt-disable at 2, decimal at 3, break at 4, a 1 at bit 5,
/// overflow at 6 and negative at 7.
pub open spec fn status_byte(r: Registers) -> int {
    bit(r.c) + 2 * bit(r.z) + 4 * bit(r.i) + 8 * bit(r.d) + 16 * bit(r.b) + 32 + 64 * bit(r.v)
        + 128 * bit(r.n)
}

/// The statement that deposits the 1-bit value `b` at bit `k` of the 8-bit
/// temporary 1.
spec fn pack_one(k: u8, b: Rvalue) -> Statement {
    put(temp(1, 8), Operation::Select(k, temp(1, 8).value(), b))
}

/// What one deposit into the status byte does: where all bits from `k` on
/// are clear, the byte grows by the weight of bit `k` if `v` is set.
proof fn lemma_pack_one(s: Cpu, k: u8, b: Rvalue, v: bool)
    requires
        s.wf(),
        1 <= k < 8,
        b.bits() == 1,
        eval(s, b) == bit(v),
        k == 1 ==> byte_temp(s, 1) < 2,
        k == 2 ==> byte_temp(s, 1) < 4,
        k == 3 ==> byte_temp(s, 1) < 8,
        k == 4 ==> byte_temp(s, 1) < 16,
        k == 5 ==> byte_temp(s, 1) < 32,
        k == 6 ==> byte_temp(s, 1) < 64,
        k == 7 ==> byte_temp(s, 1) < 128,
    ensures
        same_but_temp(s, step(s, pack_one(k, b)), 1),
        k == 1 ==> byte_temp(step(s, pack_one(k, b)), 1) == byte_temp(s, 1) + 2 * bit(v),
        k == 2 ==> byte_temp(step(s, pack_one(k, b)), 1) == byte_temp(s, 1) + 4 * bit(v),
        k == 3 ==> byte_temp(step(s, pack_one(k, b)), 1) == byte_temp(s, 1) + 8 * bit(v),
        k == 4 ==> byte_temp(step(s, pack_one(k, b)), 1) == byte_temp(s, 1) + 16 * bit(v),
        k == 5 ==> byte_temp(step(s, pack_one(k, b)), 1) == byte_temp(s, 1) + 32 * bit(v),
        k == 6 ==> byte_temp(step(s, pack_one(k, b)), 1) == byte_temp(s, 1) + 64 * bit(v),
        k == 7 ==> byte_temp(step(s, pack_one(k, b)), 1) == byte_temp(s, 1) + 128 * bit(v),
{
    lemma_masks();
    lemma_deposit_bit(byte_temp(s, 1), k, bit(v));
    lemma_put_temp(s, 1, 8, pack_one(k, b).op);
    lemma_low_bits(result(s, pack_one(k, b).op));
}

/// What the statements of [`pack_flags`] do: temporary 1 comes to hold
/// the status byte of the flags.
proof fn lemma_pack_flags(s: Cpu)
    requires
        s.wf(),
    ensures
        same_but_temp(s, run(s, pack_flags(temp(1, 8))), 1),
        byte_temp(run(s, pack_flags(temp(1, 8))), 1) == status_byte(s.regs),
{
    let flags = temp(1, 8);
    let i0 = put(flags, Operation::ZeroExtend(flag(Name::C).value()));
    let i1 = pack_one(1, flag(Name::Z).value());
    let i2 = pack_one(2, flag(Name::I).value());
    let i3 = pack_one(3, flag(Name::D).value());
    let i4 = pack_one(4, flag(Name::B).value());
    let i5 = pack_one(5, lit(1, 1));
    let i6 = pack_one(6, flag(Name::V).value());
    let i7 = pack_one(7, flag(Name::N).value());
    lemma_masks();
    lemma_low_bits(1);

    let s1 = step(s, i0);
    lemma_flag_value(s, Name::C);
    lemma_put_temp(s, 1, 8, i0.op);
    lemma_low_bits(result(s, i0.op));
    assert(byte_temp(s1, 1) == bit(s.regs.c));

    let s2 = step(s1, i1);
    lemma_flag_value(s1, Name::Z);
    lemma_pack_one(s1, 1, flag(Name::Z).value(), s.regs.z);
    let s3 = step(s2, i2);
    lemma_flag_value(s2, Name::I);
    lemma_pack_one(s2, 2, flag(Name::I).value(), s.regs.i);
    let s4 = step(s3, i3);
    lemma_flag_value(s3, Name::D);
    lemma_pack_one(s3, 3, flag(Name::D).value(), s.regs.d);
    lemma_run_4(s, i0, i1, i2, i3);

    let s5 = step(s4, i4);
    lemma_flag_value(s4, Name::B);
    lemma_pack_one(s4, 4, flag(Name::B).value(), s.regs.b);
    let s6 = step(s5, i5);
    lemma_pack_one(s5, 5, lit(1, 1), true);
    let s7 = step(s6, i6);
    lemma_flag_value(s6, Name::V);
    lemma_pack_one(s6, 6, flag(Name::V).value(), s.regs.v);
    let s8 = step(s7, i7);
    lemma_flag_value(s7, Name::N);
    lemma_pack_one(s7, 7, flag(Name::N).value(), s.regs.n);
    lemma_run_4(s4, i4, i5, i6, i7);

    lemma_run_concat(s, seq![i0, i1, i2, i3], seq![i4, i5, i6, i7]);
    assert(pack_flags(flags) =~= seq![i0, i1, i2, i3] + seq![i4, i5, i6, i7]);
}

/// The state after push-flags, step by step.
spec fn php_end(s: Cpu) -> Cpu {
    let sp = temp(0, 9);
    let flags = temp(1, 8);
    let s2 = run(run(s, stack_top(sp)), pack_flags(flags));
    step(step(step(s2, stack_store(flags.value())), stack_advance(sp)), stack_commit(sp))
}

/// Push-flags runs as its parts do, one after the other.
proof fn lemma_php_steps(s: Cpu)
    ensures
        run(s, php_statements()) == php_end(s),
{
    let sp = temp(0, 9);
    let flags = temp(1, 8);
    let f = flags.value();
    let s2 = run(run(s, stack_top(sp)), pack_flags(flags));
    lemma_run_3(s2, stack_store(f), stack_advance(sp), stack_commit(sp));
    lemma_run_concat(s, stack_top(sp), pack_flags(flags));
    lemma_run_concat(
        s,
        stack_top(sp) + pack_flags(flags),
        seq![stack_store(f), stack_advance(sp), stack_commit(sp)],
    );
}

/// The last three statements of a push, on a state whose temporary 0
/// holds the address of the top of the stack: the byte `v` is stored
/// there, and the stack pointer goes up by one.
proof fn lemma_push_tail(s: Cpu, v: Rvalue)
    requires
        s.wf(),
        0x100 <= stack_temp(s) < 0x200,
    ensures
        ({
            let sp = temp(0, 9);
            let t = step(step(step(s, stack_store(v)), stack_advance(sp)), stack_commit(sp));
            &&& t.ram == s.ram.update(stack_temp(s) as int, (eval(s, v) % 0x100) as u8)
            &&& t.regs == s.regs.with_register(
                Name::S,
                ((stack_temp(s) - 0x100 + 1) % 0x100) as u8,
            )
        }),
{
    let sp = temp(0, 9);
    let s1 = step(s, stack_store(v));
    lemma_stack_store(s, v);
    assert(stack_temp(s1) == stack_temp(s));
    let s2 = step(s1, stack_advance(sp));
    lemma_stack_advance(s1);
    lemma_stack_commit(s2);
}

/// What the push of the flags does: the status byte of the flags is
/// written to memory at 0x100 plus the stack pointer, and the stack pointer
/// goes up by one, modulo 256. The other registers and the flags stay as
/// they were.
pub proof fn lemma_php_effect(s: Cpu)
    requires
        s.wf(),
    ensures
        ({
            let t = run(s, php_statements());
            &&& t.ram == s.ram.update(0x100 + s.regs.s, status_byte(s.regs) as u8)
            &&& t.regs == s.regs.with_register(Name::S, ((s.regs.s + 1) % 0x100) as u8)
        }),
{
    let sp = temp(0, 9);
    let flags = temp(1, 8);
    lemma_php_steps(s);
    let s1 = run(s, stack_top(sp));
    lemma_stack_top(s);
    let s2 = run(s1, pack_flags(flags));
    lemma_pack_flags(s1);
    assert(stack_temp(s2) == stack_temp(s1));
    lemma_push_tail(s2, flags.value());
}

/// The statement that copies bit `k` of temporary 1 to the flag `f`.
spec fn unpack_one(f: Name, k: u8) -> Statement {
    put(flag(f), Operation::Move(Rvalue::Variable { name: Name::Temp(1), width: 1, offset: k }))
}

/// What the copy of one bit of temporary 1 to a flag does.
proof fn lemma_unpack_one(s: Cpu, f: Name, k: u8)
    requires
        s.wf(),
        f.is_flag(),
        k < 8,
    ensures
        step(s, unpack_one(f, k)) == (Cpu {
            regs: s.regs.with_flag(f, bit_of(byte_temp(s, 1) as int, k as int)),
            ..s
        }),
{
    lemma_masks();
    lemma_byte_bits(s.temps[1]);
    lemma_field_low(s.temps[1], 8);
    lemma_put_flag(s, f, unpack_one(f, k).op);
}

/// What the statements of [`unpack_flags`] do.
proof fn lemma_unpack_flags(s: Cpu)
    requires
        s.wf(),
    ensures
        ({
            let t = run(s, unpack_flags(temp(1, 8)));
            let p = byte_temp(s, 1) as int;
            &&& t.wf()
            &&& t.ram == s.ram
            &&& t.temps == s.temps
            &&& t.regs == Registers {
                c: bit_of(p, 0),
                z: bit_of(p, 1),
                i: bit_of(p, 2),
                d: bit_of(p, 3),
                v: bit_of(p, 6),
                n: bit_of(p, 7),
                ..s.regs
            }
        }),
{
    let i0 = unpack_one(Name::C, 0);
    let i1 = unpack_one(Name::Z, 1);
    let i2 = unpack_one(Name::I, 2);
    let i3 = unpack_one(Name::D, 3);
    let i4 = unpack_one(Name::V, 6);
    let i5 = unpack_one(Name::N, 7);
    let s1 = step(s, i0);
    lemma_unpack_one(s, Name::C, 0);
    let s2 = step(s1, i1);
    lemma_unpack_one(s1, Name::Z, 1);
    let s3 = step(s2, i2);
    lemma_unpack_one(s2, Name::I, 2);
    let s4 = step(s3, i3);
    lemma_unpack_one(s3, Name::D, 3);
    lemma_run_4(s, i0, i1, i2, i3);
    let s5 = step(s4, i4);
    lemma_unpack_one(s4, Name::V, 6);
    lemma_unpack_one(s5, Name::N, 7);
    lemma_run_2(s4, i4, i5);
    lemma_run_concat(s, seq![i0, i1, i2, i3], seq![i4, i5]);
    assert(unpack_flags(temp(1, 8)) =~= seq![i0, i1, i2, i3] + seq![i4, i5]);
}

/// The first statements of a pull: temporary 0 comes to hold the address
/// one above the top of the stack, modulo 512.
proof fn lemma_pull_head(s: Cpu)
    requires
        s.wf(),
    ensures
        ({
            let sp = temp(0, 9);
            let t = step(run(s, stack_top(sp)), stack_advance(sp));
            &&& same_but_temp(s, t, 0)
            &&& stack_temp(t) == (0x101 + s.regs.s) % 0x200
        }),
{
    let sp = temp(0, 9);
    lemma_stack_top(s);
    lemma_stack_advance(run(s, stack_top(sp)));
}

/// The last statements of a pull: the stack pointer takes the low byte of
/// temporary 0, and the zero and negative flags are set from the
/// accumulator.
proof fn lemma_pull_tail(s: Cpu)
    requires
        s.wf(),
    ensures
        ({
            let sp = temp(0, 9);
            let a = reg(Name::A);
            let i_z = put(flag(Name::Z), Operation::Equal(a.value(), lit(0, 8)));
            let i_n = put(flag(Name::N), Operation::LessSigned(a.value(), lit(0, 8)));
            let t = step(step(step(s, stack_commit(sp)), i_z), i_n);
            &&& t.ram == s.ram
            &&& t.regs == s.regs.with_register(Name::S, (stack_temp(s) % 0x100) as u8).with_flag(
                Name::Z,
                s.regs.a == 0,
            ).with_flag(Name::N, s.regs.a >= 0x80)
        }),
{
    let sp = temp(0, 9);
    let a = reg(Name::A);
    let i_z = put(flag(Name::Z), Operation::Equal(a.value(), lit(0, 8)));
    let i_n = put(flag(Name::N), Operation::LessSigned(a.value(), lit(0, 8)));
    let av = s.regs.a as u64;
    lemma_masks();
    lemma_low_bits(0);
    lemma_field_low(av, 8);
    lemma_low_bits(av);
    lemma_less_signed_byte(av, 0);
    let s1 = step(s, stack_commit(sp));
    lemma_stack_commit(s);
    let s2 = step(s1, i_z);
    lemma_put_flag(s1, Name::Z, i_z.op);
    lemma_put_flag(s2, Name::N, i_n.op);
}

/// The state after pull-flags, step by step.
spec fn plp_end(s: Cpu) -> Cpu {
    let sp = temp(0, 9);
    let a = reg(Name::A);
    let i_z = put(flag(Name::Z), Operation::Equal(a.value(), lit(0, 8)));
    let i_n = put(flag(Name::N), Operation::LessSigned(a.value(), lit(0, 8)));
    let s2 = step(run(s, stack_top(sp)), stack_advance(sp));
    let s3 = step(s2, put(temp(1, 8), stack_load()));
    let s4 = run(s3, unpack_flags(temp(1, 8)));
    step(step(step(s4, stack_commit(sp)), i_z), i_n)
}

/// Pull-flags runs as its parts do, one after the other.
proof fn lemma_plp_steps(s: Cpu)
    ensures
        run(s, plp_statements()) == plp_end(s),
{
    let sp = temp(0, 9);
    let flags = temp(1, 8);
    let a = reg(Name::A);
    let i_load = put(flags, stack_load());
    let i_z = put(flag(Name::Z), Operation::Equal(a.value(), lit(0, 8)));
    let i_n = put(flag(Name::N), Operation::LessSigned(a.value(), lit(0, 8)));
    let s1 = run(s, stack_top(sp));
    let s3 = step(step(s1, stack_advance(sp)), i_load);
    let s4 = run(s3, unpack_flags(flags));
    lemma_run_2(s1, stack_advance(sp), i_load);
    lemma_run_3(s4, stack_commit(sp), i_z, i_n);
    lemma_run_concat(s, stack_top(sp), seq![stack_advance(sp), i_load]);
    lemma_run_concat(s, stack_top(sp) + seq![stack_advance(sp), i_load], unpack_flags(flags));
    lemma_run_concat(
        s,
        stack_top(sp) + seq![stack_advance(sp), i_load] + unpack_flags(flags),
        seq![stack_commit(sp), i_z, i_n],
    );
}

/// The load of the byte at the top of the stack into temporary 1.
proof fn lemma_pull_byte(s: Cpu)
    requires
        s.wf(),
    ensures
        ({
            let t = step(s, put(temp(1, 8), stack_load()));
            &&& same_but_temp(s, t, 1)
            &&& stack_temp(s) < 0x200
            &&& byte_temp(t, 1) == s.ram[stack_temp(s) as int]
        }),
{
    lemma_masks();
    lemma_stack_load(s);
    lemma_put_temp(s, 1, 8, stack_load());
    lemma_low_bits(s.ram[stack_temp(s) as int] as u64);
}

/// What the pull of the flags does. The stack pointer goes up by one,
/// modulo 256. With `p` the byte of memory at 0x101 plus the old stack
/// pointer, modulo 512: carry, interrupt-disable, decimal and overflow
/// become bits 0, 2, 3 and 6 of `p`. The zero and negative flags do not
/// keep bits 1 and 7 of `p`: they are set from the accumulator. The break
/// flag, the other registers and the memory stay as they were.
pub proof fn lemma_plp_effect(s: Cpu)
    requires
        s.wf(),
    ensures
        ({
            let t = run(s, plp_statements());
            let p = s.ram[(0x101 + s.regs.s) % 0x200] as int;
            &&& t.ram == s.ram
            &&& t.regs == Registers {
                s: ((s.regs.s + 1) % 0x100) as u8,
                c: bit_of(p, 0),
                i: bit_of(p, 2),
                d: bit_of(p, 3),
                v: bit_of(p, 6),
                z: s.regs.a == 0,
                n: s.regs.a >= 0x80,
                ..s.regs
            }
        }),
{
    let sp = temp(0, 9);
    let flags = temp(1, 8);
    lemma_plp_steps(s);
    let s2 = step(run(s, stack_top(sp)), stack_advance(sp));
    lemma_pull_head(s);
    let s3 = step(s2, put(flags, stack_load()));
    lemma_pull_byte(s2);
    assert(stack_temp(s3) == stack_temp(s2));
    let s4 = run(s3, unpack_flags(flags));
    lemma_unpack_flags(s3);
    assert(stack_temp(s4) == stack_temp(s3));
    lemma_pull_tail(s4);
}

/// The address that a pull reads after a push: 0x101 plus the stack
/// pointer as the push left it, modulo 512. It is never the address that
/// the push wrote, 0x100 plus the stack pointer before it.
pub open spec fn pulled_after_push(s: u8) -> int {
    (0x101 + (s + 1) % 0x100) % 0x200
}

/// Push-flags followed by pull-flags. The stack pointer has gone up by two,
/// modulo 256. The pull does not read the byte that the push wrote, but the
/// byte `p` two places on; so carry, interrupt-disable, decimal and
/// overflow come back as bits 0, 2, 3 and 6 of `p`, and zero and negative
/// come back as the accumulator dictates. The break flag is not written and
/// so stays.
pub proof fn lemma_push_pull_flags(s: Cpu)
    requires
        s.wf(),
    ensures
        ({
            let t = run(run(s, php_statements()), plp_statements());
            let p = s.ram[pulled_after_push(s.regs.s)] as int;
            &&& pulled_after_push(s.regs.s) != 0x100 + s.regs.s
            &&& t.regs == Registers {
                s: ((s.regs.s + 2) % 0x100) as u8,
                c: bit_of(p, 0),
                i: bit_of(p, 2),
                d: bit_of(p, 3),
                v: bit_of(p, 6),
                z: s.regs.a == 0,
                n: s.regs.a >= 0x80,
                ..s.regs
            }
        }),
{
    lemma_php_effect(s);
    let u = run(s, php_statements());
    lemma_run_wf(s, php_statements());
    lemma_plp_effect(u);
}

/// Push-flags followed by pull-flags gives back carry, zero,
/// interrupt-disable, decimal, overflow and negative as they were pushed,
/// on the states on which it can: the byte that the pull reads holds the
/// four flags that are taken from it at their bits, and the zero and
/// negative flags agree with the accumulator. Of the break flag nothing is
/// claimed.
pub proof fn lemma_push_pull_restores(s: Cpu)
    requires
        s.wf(),
        bit_of(s.ram[pulled_after_push(s.regs.s)] as int, 0) == s.regs.c,
        bit_of(s.ram[pulled_after_push(s.regs.s)] as int, 2) == s.regs.i,
        bit_of(s.ram[pulled_after_push(s.regs.s)] as int, 3) == s.regs.d,
        bit_of(s.ram[pulled_after_push(s.regs.s)] as int, 6) == s.regs.v,
        s.regs.z == (s.regs.a == 0),
        s.regs.n == (s.regs.a >= 0x80),
    ensures
        ({
            let t = run(run(s, php_statements()), plp_statements());
            &&& t.regs.c == s.regs.c
            &&& t.regs.z == s.regs.z
            &&& t.regs.i == s.regs.i
            &&& t.regs.d == s.regs.d
            &&& t.regs.v == s.regs.v
            &&& t.regs.n == s.regs.n
        }),
{
    lemma_push_pull_flags(s);
}

/// The status byte holds each flag at its bit, and a 1 at bit 5: what
/// push-flags packs, the unpacking of pull-flags reads back.
pub proof fn lemma_status_byte_bits(r: Registers)
    ensures
        0 <= status_byte(r) < 0x100,
        bit_of(status_byte(r), 0) == r.c,
        bit_of(status_byte(r), 1) == r.z,
        bit_of(status_byte(r), 2) == r.i,
        bit_of(status_byte(r), 3) == r.d,
        bit_of(status_byte(r), 4) == r.b,
        bit_of(status_byte(r), 5),
        bit_of(status_byte(r), 6) == r.v,
        bit_of(status_byte(r), 7) == r.n,
{
}

} // verus!
