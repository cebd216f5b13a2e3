//! Loads, stores, transfers, flag instructions and instructions without
//! statements.

use vstd::prelude::*;
use crate::bits::{lemma_low_bits, lemma_masks, mask};
use crate::ir::{flag, lit, perform, put, reg, Name, Operation, Rvalue};
use crate::laws::{lemma_move_effect, lemma_operand_load, lemma_register_value, read_register};
use crate::machine::{
    bit, eval, lemma_put_flag, lemma_run_1, lemma_run_concat, lemma_scalar_bound, run, step,
    store, Cpu,
};
use crate::semantic::{
    flag_statements, ld_core, ld_statements, operand_load, operand_value, place, place_ok,
    st_statements, trr_statements, value_ok,
};

verus! {

/// What a load into the register `name` does: the register becomes the
/// operand; the zero flag says whether it is zero, the negative flag
/// whether its highest bit is set. The other registers and flags and the
/// memory stay as they were.
pub proof fn lemma_ld_effect(s: Cpu, name: Name, r: Rvalue)
    requires
        s.wf(),
        name.is_register(),
        value_ok(r),
    ensures
        ({
            let t = run(s, ld_statements(reg(name), r));
            let m = eval(s, r);
            &&& m < 0x100
            &&& t.ram == s.ram
            &&& t.regs == s.regs.with_register(name, m as u8).with_flag(Name::Z, m == 0).with_flag(
                Name::N,
                m >= 0x80,
            )
        }),
{
    let u = run(s, operand_load(r, 0));
    let v = operand_value(r, 0);
    lemma_operand_load(s, r, 0);
    lemma_move_effect(u, name, v);
    lemma_run_concat(s, operand_load(r, 0), ld_core(reg(name), v));
}

/// What a transfer from the register `src` to the register `dst` does:
/// `dst` becomes `src`; the zero flag says whether it is zero, the negative
/// flag whether its highest bit is set. This holds of the stack pointer as
/// destination too. The other registers and flags and the memory stay as
/// they were.
pub proof fn lemma_trr_effect(s: Cpu, src: Name, dst: Name)
    requires
        s.wf(),
        src.is_register(),
        dst.is_register(),
    ensures
        ({
            let t = run(s, trr_statements(reg(src), reg(dst)));
            let m = eval(s, reg(src).value());
            &&& m < 0x100
            &&& t.ram == s.ram
            &&& t.regs == s.regs.with_register(dst, m as u8).with_flag(Name::Z, m == 0).with_flag(
                Name::N,
                m >= 0x80,
            )
        }),
{
    lemma_masks();
    lemma_scalar_bound(s, reg(src).value());
    lemma_move_effect(s, dst, reg(src).value());
}

/// What a flag instruction does: the flag `f` becomes `v`, and nothing else
/// changes.
pub proof fn lemma_flag_effect(s: Cpu, f: Name, v: bool)
    requires
        s.wf(),
        f.is_flag(),
    ensures
        run(s, flag_statements(f, v)) == (Cpu { regs: s.regs.with_flag(f, v), ..s }),
{
    let i0 = put(flag(f), Operation::Move(lit(bit(v), 1)));
    lemma_run_1(s, i0);
    lemma_masks();
    lemma_low_bits(bit(v));
    lemma_put_flag(s, f, i0.op);
}

/// The address of the memory cell that the operand `ptr` of a store stands
/// for, in the state `s`.
pub open spec fn place_address(s: Cpu, ptr: Rvalue) -> u64 {
    match ptr {
        Rvalue::Memory { address, .. } => eval(s, address.value()),
        _ => eval(s, ptr),
    }
}

/// What a store does: the byte in the register `name` is written to the
/// memory cell that the operand stands for, and nothing else changes.
pub proof fn lemma_st_effect(s: Cpu, name: Name, ptr: Rvalue)
    requires
        s.wf(),
        name.is_register(),
        place_ok(ptr),
    ensures
        place_address(s, ptr) < 0x10000,
        run(s, st_statements(reg(name), ptr)) == (Cpu {
            ram: s.ram.update(place_address(s, ptr) as int, read_register(s.regs, name)),
            ..s
        }),
{
    let i0 = perform(Operation::Store(place(ptr), reg(name).value()));
    let at = match ptr {
        Rvalue::Memory { address, .. } => address.value(),
        _ => ptr,
    };
    lemma_run_1(s, i0);
    lemma_masks();
    lemma_scalar_bound(s, at);
    lemma_register_value(s, name);
    lemma_low_bits(read_register(s.regs, name) as u64);
    assert(mask(at.bits()) <= 0xffff) by {
        let w = at.bits();
        assert(w <= 16 ==> (if w >= 64 {
            0xffff_ffff_ffff_ffffu64
        } else {
            (((1u64 << w) - 1) as u64)
        }) <= 0xffff) by (bit_vector);
    }
    reveal(step);
    reveal_with_fuel(store, 2);
}

/// An instruction without statements changes nothing.
pub proof fn lemma_empty_effect(s: Cpu)
    ensures
        run(s, Seq::empty()) == s,
{
}

} // verus!
