//! What statements mean.
//!
//! [`Cpu`] is the mathematical state of the processor: its registers, its
//! flags, the temporaries of the instruction at hand and 64 KiB of memory.
//! [`step`] gives the state after one statement and [`run`] the state after
//! a sequence. [`Machine`] is a state that exists at run time, and
//! [`Machine::execute`] computes [`run`] on it.
//!
//! The meaning is total: a statement that breaks the rules of the builder
//! still has one. A result is cut to the width of its target, a shift by 64 or more
//! gives zero, and addresses wrap at 64 KiB.

use vstd::prelude::*;
use crate::bits::{
    deposit, deposit_into, field, field_of, lemma_deposit_read, lemma_field_low, lemma_low_bits,
    lemma_masks, mask, mask_of,
};
use crate::ir::{flag, put, reg, temp, Lvalue, Name, Operation, Rvalue, Statement};

verus! {

/// The registers and flags of the processor.
#[derive(Clone, Copy, Debug, PartialEq, Eq, Structural)]
pub struct Registers {
    /// The accumulator.
    pub a: u8,
    /// The first index register.
    pub x: u8,
    /// The second index register.
    pub y: u8,
    /// The stack pointer.
    pub s: u8,
    /// The carry flag.
    pub c: bool,
    /// The zero flag.
    pub z: bool,
    /// The interrupt-disable flag.
    pub i: bool,
    /// The decimal-mode flag.
    pub d: bool,
    /// The break flag.
    pub b: bool,
    /// The overflow flag.
    pub v: bool,
    /// The negative flag.
    pub n: bool,
}

/// The state that statements act on.
pub struct Cpu {
    pub regs: Registers,
    /// The temporaries, by number.
    pub temps: Seq<u64>,
    /// The memory, by address.
    pub ram: Seq<u8>,
}

/// The number of bytes of memory.
pub const RAM_SIZE: usize = 65536;

/// The number of temporaries.
pub const TEMP_COUNT: usize = 256;

impl Cpu {
    /// The state has 256 temporaries and 64 KiB of memory.
    pub open spec fn wf(self) -> bool {
        self.temps.len() == TEMP_COUNT && self.ram.len() == RAM_SIZE
    }
}

/// 1 for `true`, 0 for `false`.
pub open spec fn bit(b: bool) -> u64 {
    if b {
        1
    } else {
        0
    }
}

/// The content of the location `name`.
pub open spec fn read(s: Cpu, name: Name) -> u64 {
    match name {
        Name::A => s.regs.a as u64,
        Name::X => s.regs.x as u64,
        Name::Y => s.regs.y as u64,
        Name::S => s.regs.s as u64,
        Name::C => bit(s.regs.c),
        Name::Z => bit(s.regs.z),
        Name::I => bit(s.regs.i),
        Name::D => bit(s.regs.d),
        Name::B => bit(s.regs.b),
        Name::V => bit(s.regs.v),
        Name::N => bit(s.regs.n),
        Name::Temp(k) => s.temps[k as int],
    }
}

/// The state in which the location `name` holds `word`, cut to the 8 bits
/// of a register or to the single bit of a flag.
pub open spec fn write(s: Cpu, name: Name, word: u64) -> Cpu {
    let byte = (word & 0xff) as u8;
    let flag = (word & 1) == 1;
    match name {
        Name::A => Cpu { regs: Registers { a: byte, ..s.regs }, ..s },
        Name::X => Cpu { regs: Registers { x: byte, ..s.regs }, ..s },
        Name::Y => Cpu { regs: Registers { y: byte, ..s.regs }, ..s },
        Name::S => Cpu { regs: Registers { s: byte, ..s.regs }, ..s },
        Name::C => Cpu { regs: Registers { c: flag, ..s.regs }, ..s },
        Name::Z => Cpu { regs: Registers { z: flag, ..s.regs }, ..s },
        Name::I => Cpu { regs: Registers { i: flag, ..s.regs }, ..s },
        Name::D => Cpu { regs: Registers { d: flag, ..s.regs }, ..s },
        Name::B => Cpu { regs: Registers { b: flag, ..s.regs }, ..s },
        Name::V => Cpu { regs: Registers { v: flag, ..s.regs }, ..s },
        Name::N => Cpu { regs: Registers { n: flag, ..s.regs }, ..s },
        Name::Temp(k) => Cpu { temps: s.temps.update(k as int, word), ..s },
    }
}

/// The place in memory of the byte `index` bytes after `address`.
pub open spec fn cell_index(address: u64, index: nat) -> int {
    (address + index) % (RAM_SIZE as int)
}

/// The `count` bytes of `ram` from `address` on, lowest byte first, as one
/// integer.
pub open spec fn load(ram: Seq<u8>, address: u64, index: nat, count: nat) -> u64
    decreases count,
{
    if count == 0 {
        0
    } else {
        (ram[cell_index(address, index)] as u64) | (load(
            ram,
            address,
            index + 1,
            (count - 1) as nat,
        ) << 8)
    }
}

/// `ram` after the lowest `count` bytes of `word` have been written from
/// `address` on, lowest byte first.
pub open spec fn store(ram: Seq<u8>, address: u64, index: nat, count: nat, word: u64) -> Seq<u8>
    decreases count,
{
    if count == 0 {
        ram
    } else {
        store(
            ram.update(cell_index(address, index), (word & 0xff) as u8),
            address,
            index + 1,
            (count - 1) as nat,
            word >> 8,
        )
    }
}

/// The value of a constant or of a variable; 0 for a memory cell.
pub open spec fn scalar(s: Cpu, r: Rvalue) -> u64 {
    match r {
        Rvalue::Constant { value, width } => value & mask(width),
        Rvalue::Variable { name, width, offset } => field(read(s, name), offset, width),
        Rvalue::Memory { .. } => 0,
    }
}

/// The value of `r` in the state `s`.
pub open spec fn eval(s: Cpu, r: Rvalue) -> u64 {
    match r {
        Rvalue::Memory { address, width, .. } => load(
            s.ram,
            scalar(s, address.value()),
            0,
            (width / 8) as nat,
        ) & mask(width),
        _ => scalar(s, r),
    }
}

/// The word whose only set bit is the highest of `width` bits; 0 where
/// `width` is not between 1 and 64.
pub open spec fn sign_bit(width: u8) -> u64 {
    if 1 <= width <= 64 {
        1u64 << ((width - 1) as u8)
    } else {
        0
    }
}

/// `word`, `width` bits wide, widened to 64 bits with copies of its highest
/// bit.
pub open spec fn sign_extend(word: u64, width: u8) -> u64 {
    if word & sign_bit(width) != 0 {
        word | !mask(width)
    } else {
        word
    }
}

/// Whether `a` is below `b`, both `width` bits wide and in two's
/// complement.
pub open spec fn less_signed(a: u64, b: u64, width: u8) -> bool {
    (a ^ sign_bit(width)) < (b ^ sign_bit(width))
}

/// `a` shifted left by `b`.
pub open spec fn shift_left(a: u64, b: u64) -> u64 {
    if b >= 64 {
        0
    } else {
        a << b
    }
}

/// `a` shifted right by `b`.
pub open spec fn shift_right(a: u64, b: u64) -> u64 {
    if b >= 64 {
        0
    } else {
        a >> b
    }
}

/// What `op` computes in the state `s`, before it is cut to the width of
/// its target; 0 for an operation without a result.
pub open spec fn result(s: Cpu, op: Operation) -> u64 {
    match op {
        Operation::Move(a) => eval(s, a),
        Operation::Add(a, b) => eval(s, a).wrapping_add(eval(s, b)),
        Operation::Subtract(a, b) => eval(s, a).wrapping_sub(eval(s, b)),
        Operation::And(a, b) => eval(s, a) & eval(s, b),
        Operation::InclusiveOr(a, b) => eval(s, a) | eval(s, b),
        Operation::ExclusiveOr(a, b) => eval(s, a) ^ eval(s, b),
        Operation::ShiftLeft(a, b) => shift_left(eval(s, a), eval(s, b)),
        Operation::ShiftRight(a, b) => shift_right(eval(s, a), eval(s, b)),
        Operation::ZeroExtend(a) => eval(s, a),
        Operation::SignExtend(a) => sign_extend(eval(s, a), a.bits()),
        Operation::Truncate(a) => eval(s, a),
        Operation::Select(offset, a, b) => deposit(eval(s, a), offset, b.bits(), eval(s, b)),
        Operation::Equal(a, b) => bit(eval(s, a) == eval(s, b)),
        Operation::LessUnsigned(a, b) => bit(eval(s, a) < eval(s, b)),
        Operation::LessOrEqualUnsigned(a, b) => bit(eval(s, a) <= eval(s, b)),
        Operation::LessSigned(a, b) => bit(less_signed(eval(s, a), eval(s, b), a.bits())),
        Operation::LessOrEqualSigned(a, b) => bit(!less_signed(eval(s, b), eval(s, a), a.bits())),
        Operation::Load(cell) => eval(s, cell),
        Operation::Store(_, _) => 0,
        Operation::Call(_) => 0,
    }
}

/// The state after `word` has been assigned to `dst`: the bits of `dst`
/// hold the lowest bits of `word`, and the other bits of its location are
/// as before.
pub open spec fn assign(s: Cpu, dst: Lvalue, word: u64) -> Cpu {
    write(s, dst.name, deposit(read(s, dst.name), dst.offset, dst.width, word))
}

/// The state after an operation without a target: a `Store` writes memory,
/// anything else changes nothing.
pub open spec fn effect(s: Cpu, op: Operation) -> Cpu {
    match op {
        Operation::Store(Rvalue::Memory { address, width, .. }, v) => Cpu {
            ram: store(s.ram, scalar(s, address.value()), 0, (width / 8) as nat, eval(s, v)),
            ..s
        },
        _ => s,
    }
}

/// The state after one statement.
#[verifier::opaque]
pub open spec fn step(s: Cpu, stmt: Statement) -> Cpu {
    match stmt.assignee {
        Some(dst) => assign(s, dst, result(s, stmt.op)),
        None => effect(s, stmt.op),
    }
}

/// The state after the statements of `code`, in order.
pub open spec fn run(s: Cpu, code: Seq<Statement>) -> Cpu
    decreases code.len(),
{
    if code.len() == 0 {
        s
    } else {
        step(run(s, code.drop_last()), code.last())
    }
}

/// Running a sequence and then one more statement is running the sequence
/// with the statement appended.
pub proof fn lemma_run_push(s: Cpu, code: Seq<Statement>, stmt: Statement)
    ensures
        run(s, code.push(stmt)) == step(run(s, code), stmt),
{
    assert(code.push(stmt).drop_last() =~= code);
}

/// Every statement keeps the number of temporaries and the size of memory.
pub proof fn lemma_step_wf(s: Cpu, stmt: Statement)
    requires
        s.wf(),
    ensures
        step(s, stmt).wf(),
{
    reveal(step);
    match stmt.assignee {
        Some(dst) => {},
        None => {
            match stmt.op {
                Operation::Store(Rvalue::Memory { address, width, .. }, v) => {
                    lemma_store_len(
                        s.ram,
                        scalar(s, address.value()),
                        0,
                        (width / 8) as nat,
                        eval(s, v),
                    );
                },
                _ => {},
            }
        },
    }
}

/// A store keeps the size of memory.
pub proof fn lemma_store_len(ram: Seq<u8>, address: u64, index: nat, count: nat, word: u64)
    requires
        ram.len() == RAM_SIZE,
    ensures
        store(ram, address, index, count, word).len() == RAM_SIZE,
    decreases count,
{
    if count > 0 {
        lemma_store_len(
            ram.update(cell_index(address, index), (word & 0xff) as u8),
            address,
            index + 1,
            (count - 1) as nat,
            word >> 8,
        );
    }
}

/// Running two sequences one after the other is running their
/// concatenation.
pub proof fn lemma_run_concat(s: Cpu, first: Seq<Statement>, second: Seq<Statement>)
    ensures
        run(s, first + second) == run(run(s, first), second),
    decreases second.len(),
{
    if second.len() == 0 {
        assert(first + second =~= first);
    } else {
        assert((first + second).drop_last() =~= first + second.drop_last());
        lemma_run_concat(s, first, second.drop_last());
    }
}

/// Running one statement is one step.
pub proof fn lemma_run_1(s: Cpu, a: Statement)
    ensures
        run(s, seq![a]) == step(s, a),
{
    lemma_run_push(s, Seq::empty(), a);
    assert(Seq::<Statement>::empty().push(a) =~= seq![a]);
}

/// Running two statements is two steps.
pub proof fn lemma_run_2(s: Cpu, a: Statement, b: Statement)
    ensures
        run(s, seq![a, b]) == step(step(s, a), b),
{
    lemma_run_1(s, a);
    lemma_run_push(s, seq![a], b);
    assert(seq![a].push(b) =~= seq![a, b]);
}

/// Running three statements is three steps.
pub proof fn lemma_run_3(s: Cpu, a: Statement, b: Statement, c: Statement)
    ensures
        run(s, seq![a, b, c]) == step(step(step(s, a), b), c),
{
    lemma_run_2(s, a, b);
    lemma_run_push(s, seq![a, b], c);
    assert(seq![a, b].push(c) =~= seq![a, b, c]);
}

/// Running four statements is four steps.
pub proof fn lemma_run_4(s: Cpu, a: Statement, b: Statement, c: Statement, d: Statement)
    ensures
        run(s, seq![a, b, c, d]) == step(step(step(step(s, a), b), c), d),
{
    lemma_run_3(s, a, b, c);
    lemma_run_push(s, seq![a, b, c], d);
    assert(seq![a, b, c].push(d) =~= seq![a, b, c, d]);
}

/// A sequence of statements keeps the number of temporaries and the size
/// of memory.
pub proof fn lemma_run_wf(s: Cpu, code: Seq<Statement>)
    requires
        s.wf(),
    ensures
        run(s, code).wf(),
    decreases code.len(),
{
    if code.len() > 0 {
        lemma_run_wf(s, code.drop_last());
        lemma_step_wf(run(s, code.drop_last()), code.last());
    }
}

/// A byte read as a number in two's complement.
pub open spec fn signed_byte(x: int) -> int {
    if x >= 0x80 {
        x - 0x100
    } else {
        x
    }
}

/// On bytes, the signed comparison of the representation compares the
/// numbers that the bytes stand for in two's complement.
pub proof fn lemma_less_signed_byte(a: u64, b: u64)
    requires
        a < 0x100,
        b < 0x100,
    ensures
        less_signed(a, b, 8) == (signed_byte(a as int) < signed_byte(b as int)),
{
    assert((1u64 << 7u8) == 0x80) by (bit_vector);
    assert(((a ^ 0x80) < (b ^ 0x80)) == ((if a >= 0x80 {
        a - 0x100
    } else {
        a as int
    }) < (if b >= 0x80 {
        b - 0x100
    } else {
        b as int
    }))) by (bit_vector)
        requires
            a < 0x100,
            b < 0x100,
    ;
}

/// The conjunction of two single bits is set where both are.
pub proof fn lemma_and_bits(x: bool, y: bool)
    ensures
        bit(x) & bit(y) == bit(x && y),
{
    assert(0u64 & 0u64 == 0u64) by (bit_vector);
    assert(0u64 & 1u64 == 0u64) by (bit_vector);
    assert(1u64 & 0u64 == 0u64) by (bit_vector);
    assert(1u64 & 1u64 == 1u64) by (bit_vector);
}

/// A scalar never exceeds the mask of its width.
pub proof fn lemma_scalar_bound(s: Cpu, r: Rvalue)
    ensures
        scalar(s, r) <= mask(r.bits()),
{
    let m = mask(r.bits());
    match r {
        Rvalue::Constant { value, .. } => {
            assert(value & m <= m) by (bit_vector);
        },
        Rvalue::Variable { name, offset, .. } => {
            let w = read(s, name);
            if offset < 64 {
                assert((w >> offset) & m <= m) by (bit_vector);
            }
        },
        Rvalue::Memory { .. } => {},
    }
}

impl Registers {
    /// These registers with the flag `f` set to `v`; unchanged where `f` is
    /// no flag.
    pub open spec fn with_flag(self, f: Name, v: bool) -> Registers {
        match f {
            Name::C => Registers { c: v, ..self },
            Name::Z => Registers { z: v, ..self },
            Name::I => Registers { i: v, ..self },
            Name::D => Registers { d: v, ..self },
            Name::B => Registers { b: v, ..self },
            Name::V => Registers { v: v, ..self },
            Name::N => Registers { n: v, ..self },
            _ => self,
        }
    }

    /// These registers with the 8-bit register `name` set to `v`; unchanged
    /// where `name` is no register.
    pub open spec fn with_register(self, name: Name, v: u8) -> Registers {
        match name {
            Name::A => Registers { a: v, ..self },
            Name::X => Registers { x: v, ..self },
            Name::Y => Registers { y: v, ..self },
            Name::S => Registers { s: v, ..self },
            _ => self,
        }
    }
}

/// A statement that assigns to a whole flag sets the flag to the lowest
/// bit of the result and leaves everything else as it was.
pub proof fn lemma_put_flag(s: Cpu, f: Name, op: Operation)
    requires
        s.wf(),
        f.is_flag(),
    ensures
        step(s, put(flag(f), op)) == (Cpu {
            regs: s.regs.with_flag(f, result(s, op) % 2 == 1),
            ..s
        }),
{
    reveal(step);
    let word = result(s, op);
    let new = deposit(read(s, f), 0, 1, word);
    lemma_masks();
    lemma_deposit_read(read(s, f), 0, 1, word);
    lemma_field_low(new, 1);
    lemma_low_bits(word);
    assert(new & 1 == word % 2);
}

/// A statement that assigns to a whole register sets the register to the
/// result modulo 256 and leaves everything else as it was.
pub proof fn lemma_put_register(s: Cpu, name: Name, op: Operation)
    requires
        s.wf(),
        name.is_register(),
    ensures
        step(s, put(reg(name), op)) == (Cpu {
            regs: s.regs.with_register(name, (result(s, op) % 0x100) as u8),
            ..s
        }),
{
    reveal(step);
    let word = result(s, op);
    let new = deposit(read(s, name), 0, 8, word);
    lemma_masks();
    lemma_deposit_read(read(s, name), 0, 8, word);
    lemma_field_low(new, 8);
    lemma_low_bits(word);
    assert(new & 0xff == word % 0x100);
}

/// A statement that assigns to the low bits of a temporary changes that
/// temporary alone, and a read of those bits then gives the low bits of the
/// result.
pub proof fn lemma_put_temp(s: Cpu, k: u8, width: u8, op: Operation)
    requires
        s.wf(),
        1 <= width <= 64,
    ensures
        ({
            let t = step(s, put(temp(k, width), op));
            &&& t.wf()
            &&& t.regs == s.regs
            &&& t.ram == s.ram
            &&& forall|j: int| 0 <= j < 256 && j != k ==> #[trigger] t.temps[j] == s.temps[j]
            &&& eval(t, temp(k, width).value()) == result(s, op) & mask(width)
        }),
{
    reveal(step);
    lemma_deposit_read(s.temps[k as int], 0, width, result(s, op));
}

/// A state of the processor at run time.
#[derive(Debug)]
pub struct Machine {
    pub regs: Registers,
    /// The 256 temporaries.
    pub temps: Vec<u64>,
    /// The 64 KiB of memory.
    pub ram: Vec<u8>,
}

impl View for Machine {
    type V = Cpu;

    open spec fn view(&self) -> Cpu {
        Cpu { regs: self.regs, temps: self.temps@, ram: self.ram@ }
    }
}

/// Computes [`bit`].
fn bit_of_bool(b: bool) -> (v: u64)
    ensures
        v == bit(b),
{
    if b {
        1
    } else {
        0
    }
}

/// Computes [`sign_bit`].
fn sign_bit_of(width: u8) -> (v: u64)
    ensures
        v == sign_bit(width),
{
    if 1 <= width && width <= 64 {
        1u64 << (width - 1)
    } else {
        0
    }
}

/// Computes [`less_signed`].
fn less_signed_of(a: u64, b: u64, width: u8) -> (v: bool)
    ensures
        v == less_signed(a, b, width),
{
    let sb: u64 = sign_bit_of(width);
    (a ^ sb) < (b ^ sb)
}

impl Machine {
    /// The machine has 256 temporaries and 64 KiB of memory.
    pub open spec fn wf(&self) -> bool {
        self@.wf()
    }

    /// A machine whose registers, flags, temporaries and memory are all
    /// zero.
    pub fn new() -> (m: Machine)
        ensures
            m.wf(),
            m.regs == (Registers {
                a: 0,
                x: 0,
                y: 0,
                s: 0,
                c: false,
                z: false,
                i: false,
                d: false,
                b: false,
                v: false,
                n: false,
            }),
            forall|k: int| 0 <= k < TEMP_COUNT ==> m.temps@[k] == 0,
            forall|k: int| 0 <= k < RAM_SIZE ==> m.ram@[k] == 0,
    {
        let mut temps: Vec<u64> = Vec::new();
        while temps.len() < TEMP_COUNT
            invariant
                temps@.len() <= TEMP_COUNT,
                forall|k: int| 0 <= k < temps@.len() ==> temps@[k] == 0,
            decreases TEMP_COUNT - temps@.len(),
        {
            temps.push(0);
        }
        let mut ram: Vec<u8> = Vec::new();
        while ram.len() < RAM_SIZE
            invariant
                ram@.len() <= RAM_SIZE,
                forall|k: int| 0 <= k < ram@.len() ==> ram@[k] == 0,
            decreases RAM_SIZE - ram@.len(),
        {
            ram.push(0);
        }
        Machine {
            regs: Registers {
                a: 0,
                x: 0,
                y: 0,
                s: 0,
                c: false,
                z: false,
                i: false,
                d: false,
                b: false,
                v: false,
                n: false,
            },
            temps,
            ram,
        }
    }

    /// The byte of memory at `address`.
    pub fn peek(&self, address: u16) -> (byte: u8)
        requires
            self.wf(),
        ensures
            byte == self@.ram[address as int],
    {
        self.ram[address as usize]
    }

    /// Writes `byte` to memory at `address`.
    pub fn poke(&mut self, address: u16, byte: u8)
        requires
            old(self).wf(),
        ensures
            final(self).wf(),
            final(self)@ == (Cpu {
                ram: old(self)@.ram.update(address as int, byte),
                ..old(self)@
            }),
    {
        self.ram.set(address as usize, byte);
    }

    /// Computes [`read`].
    pub fn read(&self, name: Name) -> (word: u64)
        requires
            self.wf(),
        ensures
            word == read(self@, name),
    {
        match name {
            Name::A => self.regs.a as u64,
            Name::X => self.regs.x as u64,
            Name::Y => self.regs.y as u64,
            Name::S => self.regs.s as u64,
            Name::C => bit_of_bool(self.regs.c),
            Name::Z => bit_of_bool(self.regs.z),
            Name::I => bit_of_bool(self.regs.i),
            Name::D => bit_of_bool(self.regs.d),
            Name::B => bit_of_bool(self.regs.b),
            Name::V => bit_of_bool(self.regs.v),
            Name::N => bit_of_bool(self.regs.n),
            Name::Temp(k) => self.temps[k as usize],
        }
    }

    /// Computes [`write`].
    fn write(&mut self, name: Name, word: u64)
        requires
            old(self).wf(),
        ensures
            final(self).wf(),
            final(self)@ == write(old(self)@, name, word),
    {
        proof {
            lemma_low_bits(word);
        }
        let byte: u8 = (word & 0xff) as u8;
        let flag: bool = (word & 1) == 1;
        match name {
            Name::A => {
                self.regs.a = byte;
            },
            Name::X => {
                self.regs.x = byte;
            },
            Name::Y => {
                self.regs.y = byte;
            },
            Name::S => {
                self.regs.s = byte;
            },
            Name::C => {
                self.regs.c = flag;
            },
            Name::Z => {
                self.regs.z = flag;
            },
            Name::I => {
                self.regs.i = flag;
            },
            Name::D => {
                self.regs.d = flag;
            },
            Name::B => {
                self.regs.b = flag;
            },
            Name::V => {
                self.regs.v = flag;
            },
            Name::N => {
                self.regs.n = flag;
            },
            Name::Temp(k) => {
                self.temps.set(k as usize, word);
            },
        }
    }

    /// Computes [`cell_index`].
    fn index_of(address: u64, index: u8) -> (i: usize)
        ensures
            i == cell_index(address, index as nat),
            i < RAM_SIZE,
    {
        (((address % 65536) + index as u64) % 65536) as usize
    }

    /// Computes [`load`].
    fn load_bytes(&self, address: u64, index: u8, count: u8) -> (word: u64)
        requires
            self.wf(),
            index + count <= 32,
        ensures
            word == load(self@.ram, address, index as nat, count as nat),
        decreases count,
    {
        if count == 0 {
            0
        } else {
            let low: u8 = self.ram[Self::index_of(address, index)];
            let rest: u64 = self.load_bytes(address, index + 1, count - 1);
            (low as u64) | (rest << 8)
        }
    }

    /// Computes [`store`].
    fn store_bytes(&mut self, address: u64, index: u8, count: u8, word: u64)
        requires
            old(self).wf(),
            index + count <= 32,
        ensures
            final(self).wf(),
            final(self).regs == old(self).regs,
            final(self).temps == old(self).temps,
            final(self).ram@ == store(old(self).ram@, address, index as nat, count as nat, word),
        decreases count,
    {
        if count > 0 {
            proof {
                lemma_low_bits(word);
            }
            self.ram.set(Self::index_of(address, index), (word & 0xff) as u8);
            self.store_bytes(address, index + 1, count - 1, word >> 8);
        }
    }

    /// Computes [`scalar`].
    fn scalar_of(&self, r: Rvalue) -> (word: u64)
        requires
            self.wf(),
        ensures
            word == scalar(self@, r),
    {
        match r {
            Rvalue::Constant { value, width } => value & mask_of(width),
            Rvalue::Variable { name, width, offset } => field_of(self.read(name), offset, width),
            Rvalue::Memory { .. } => 0,
        }
    }

    /// Computes [`eval`]: the value of `r` on this machine.
    pub fn value(&self, r: Rvalue) -> (word: u64)
        requires
            self.wf(),
        ensures
            word == eval(self@, r),
    {
        match r {
            Rvalue::Memory { address, width, .. } => {
                let at: u64 = self.scalar_of(address.to_rvalue());
                self.load_bytes(at, 0, width / 8) & mask_of(width)
            },
            _ => self.scalar_of(r),
        }
    }

    /// Computes [`result`].
    fn result_of(&self, op: Operation) -> (word: u64)
        requires
            self.wf(),
        ensures
            word == result(self@, op),
    {
        match op {
            Operation::Move(a) => self.value(a),
            Operation::Add(a, b) => self.value(a).wrapping_add(self.value(b)),
            Operation::Subtract(a, b) => self.value(a).wrapping_sub(self.value(b)),
            Operation::And(a, b) => self.value(a) & self.value(b),
            Operation::InclusiveOr(a, b) => self.value(a) | self.value(b),
            Operation::ExclusiveOr(a, b) => self.value(a) ^ self.value(b),
            Operation::ShiftLeft(a, b) => {
                let by: u64 = self.value(b);
                if by >= 64 {
                    0
                } else {
                    self.value(a) << by
                }
            },
            Operation::ShiftRight(a, b) => {
                let by: u64 = self.value(b);
                if by >= 64 {
                    0
                } else {
                    self.value(a) >> by
                }
            },
            Operation::ZeroExtend(a) => self.value(a),
            Operation::SignExtend(a) => {
                let word: u64 = self.value(a);
                if word & sign_bit_of(a.width()) != 0 {
                    word | !mask_of(a.width())
                } else {
                    word
                }
            },
            Operation::Truncate(a) => self.value(a),
            Operation::Select(offset, a, b) => deposit_into(
                self.value(a),
                offset,
                b.width(),
                self.value(b),
            ),
            Operation::Equal(a, b) => bit_of_bool(self.value(a) == self.value(b)),
            Operation::LessUnsigned(a, b) => bit_of_bool(self.value(a) < self.value(b)),
            Operation::LessOrEqualUnsigned(a, b) => bit_of_bool(self.value(a) <= self.value(b)),
            Operation::LessSigned(a, b) => bit_of_bool(
                less_signed_of(self.value(a), self.value(b), a.width()),
            ),
            Operation::LessOrEqualSigned(a, b) => bit_of_bool(
                !less_signed_of(self.value(b), self.value(a), a.width()),
            ),
            Operation::Load(cell) => self.value(cell),
            Operation::Store(_, _) => 0,
            Operation::Call(_) => 0,
        }
    }

    /// Computes [`step`]: performs one statement on this machine.
    pub fn step(&mut self, stmt: Statement)
        requires
            old(self).wf(),
        ensures
            final(self).wf(),
            final(self)@ == step(old(self)@, stmt),
    {
        proof {
            reveal(step);
        }
        match stmt.assignee {
            Some(dst) => {
                let word: u64 = self.result_of(stmt.op);
                let location: u64 = self.read(dst.name);
                self.write(dst.name, deposit_into(location, dst.offset, dst.width, word));
            },
            None => {
                match stmt.op {
                    Operation::Store(Rvalue::Memory { address, width, .. }, v) => {
                        let at: u64 = self.scalar_of(address.to_rvalue());
                        let word: u64 = self.value(v);
                        self.store_bytes(at, 0, width / 8, word);
                    },
                    _ => {},
                }
            },
        }
    }

    /// Computes [`run`]: performs the statements of `code`, in order, on
    /// this machine.
    pub fn execute(&mut self, code: &Vec<Statement>)
        requires
            old(self).wf(),
        ensures
            final(self).wf(),
            final(self)@ == run(old(self)@, code@),
    {
        let mut k: usize = 0;
        while k < code.len()
            invariant
                k <= code@.len(),
                self.wf(),
                self@ == run(old(self)@, code@.take(k as int)),
            decreases code@.len() - k,
        {
            proof {
                assert(code@.take(k + 1) =~= code@.take(k as int).push(code@[k as int]));
                lemma_run_push(old(self)@, code@.take(k as int), code@[k as int]);
            }
            self.step(code[k]);
            k = k + 1;
        }
        proof {
            assert(code@.take(k as int) =~= code@);
        }
    }
}

} // verus!
