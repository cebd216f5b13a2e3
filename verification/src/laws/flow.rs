//! Jumps and calls.

use vstd::prelude::*;
use crate::bits::{lemma_byte_shift_left, lemma_low_bits, lemma_masks, lemma_word_of_bytes};
use crate::ir::{perform, put, ram, temp, Operation, Rvalue};
use crate::machine::{eval, lemma_put_temp, lemma_run_1, load, result, run, step, Cpu};
use crate::semantic::{call_statements, fetch_statements, immediate};
use crate::state::State;

verus! {

/// The 16-bit word of memory at `address`, low byte first.
pub open spec fn word_at(mem: Seq<u8>, address: int) -> int {
    mem[address % 0x10000] + 0x100 * mem[(address + 1) % 0x10000]
}

/// The target of an indirect jump. The edge that the jump submits goes to
/// the first temporary, a variable and no constant; and once the hidden
/// fetch step has run, that temporary holds the 16-bit word of memory, low
/// byte first, at the address that the immediate of the instruction spells.
/// The step changes neither registers, flags nor memory.
pub proof fn lemma_indirect_target(st: State, s: Cpu)
    requires
        s.wf(),
    ensures
        ({
            let target = temp(0, 16).value();
            let t = run(s, fetch_statements(immediate(st)));
            &&& target is Variable
            &&& eval(t, target) == word_at(s.ram, st.immlo + 0x100 * st.immhi)
            &&& t.regs == s.regs
            &&& t.ram == s.ram
        }),
{
    let p = (st.immlo + 0x100 * st.immhi) as u64;
    let ptr = immediate(st);
    let i0 = put(temp(0, 16), Operation::Load(ram(ptr.pointer().unwrap(), 16)));
    lemma_run_1(s, i0);
    lemma_masks();
    lemma_low_bits(p);
    let low = s.ram[p as int] as u64;
    let high = s.ram[(p + 1) % 0x10000] as u64;
    lemma_byte_shift_left(high);
    lemma_word_of_bytes(low, high);
    reveal_with_fuel(load, 3);
    assert(result(s, i0.op) == low + 0x100 * high);
    lemma_put_temp(s, 0, 16, i0.op);
    lemma_low_bits(result(s, i0.op));
}

/// The call marker changes nothing: the push of the return address is not
/// modelled.
pub proof fn lemma_call_effect(s: Cpu, target: Rvalue)
    ensures
        run(s, call_statements(target)) == s,
{
    lemma_run_1(s, perform(Operation::Call(target)));
    reveal(step);
}

} // verus!
