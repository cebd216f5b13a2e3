use mos6502::ir::{Lvalue, Name, Operation, Pointer, Rvalue, Statement};
use mos6502::machine::{Machine, Registers};

fn temp(k: u8, width: u8) -> Lvalue {
    Lvalue { name: Name::Temp(k), width, offset: 0 }
}

fn assignment(dst: Lvalue, op: Operation) -> Statement {
    Statement { assignee: Some(dst), op }
}

fn result(op: Operation, width: u8) -> u64 {
    let mut m = Machine::new();
    m.step(assignment(temp(0, width), op));
    m.value(temp(0, width).to_rvalue())
}

fn lit(value: u64, width: u8) -> Rvalue {
    Rvalue::constant(value, width)
}

#[test]
fn new_machine_is_all_zero() {
    let m = Machine::new();
    assert_eq!(
        m.regs,
        Registers {
            a: 0,
            x: 0,
            y: 0,
            s: 0,
            c: false,
            z: false,
            i: false,
            d: false,
            b: false,
            v: false,
            n: false,
        }
    );
    assert_eq!(m.temps.len(), 256);
    assert_eq!(m.ram.len(), 65536);
    assert_eq!(m.peek(0), 0);
    assert_eq!(m.peek(0xffff), 0);
    assert_eq!(m.read(Name::Temp(255)), 0);
}

#[test]
fn reads_of_registers_and_flags() {
    let mut m = Machine::new();
    m.regs.a = 0x12;
    m.regs.x = 0x34;
    m.regs.y = 0x56;
    m.regs.s = 0x78;
    m.regs.v = true;
    assert_eq!(m.read(Name::A), 0x12);
    assert_eq!(m.read(Name::X), 0x34);
    assert_eq!(m.read(Name::Y), 0x56);
    assert_eq!(m.read(Name::S), 0x78);
    assert_eq!(m.read(Name::V), 1);
    assert_eq!(m.read(Name::C), 0);
    assert_eq!(m.value(Rvalue::Variable { name: Name::A, width: 4, offset: 4 }), 0x1);
    assert_eq!(m.value(Rvalue::Variable { name: Name::A, width: 4, offset: 0 }), 0x2);
    assert_eq!(m.value(Rvalue::Variable { name: Name::A, width: 8, offset: 64 }), 0);
    assert_eq!(m.value(lit(0x1ff, 8)), 0xff);
}

#[test]
fn arithmetic_is_modulo_the_width() {
    assert_eq!(result(Operation::Add(lit(0xff, 8), lit(0x02, 8)), 8), 0x01);
    assert_eq!(result(Operation::Add(lit(0xff, 8), lit(0x02, 8)), 9), 0x101);
    assert_eq!(result(Operation::Subtract(lit(0x00, 8), lit(0x01, 8)), 8), 0xff);
    assert_eq!(result(Operation::Subtract(lit(0x00, 8), lit(0x01, 8)), 64), u64::MAX);
    assert_eq!(result(Operation::Add(lit(u64::MAX, 64), lit(2, 64)), 64), 1);
}

#[test]
fn bitwise_operations() {
    assert_eq!(result(Operation::And(lit(0b1100, 4), lit(0b1010, 4)), 4), 0b1000);
    assert_eq!(result(Operation::InclusiveOr(lit(0b1100, 4), lit(0b1010, 4)), 4), 0b1110);
    assert_eq!(result(Operation::ExclusiveOr(lit(0b1100, 4), lit(0b1010, 4)), 4), 0b0110);
}

#[test]
fn shifts_fill_with_zeros() {
    assert_eq!(result(Operation::ShiftLeft(lit(0x81, 8), lit(1, 8)), 8), 0x02);
    assert_eq!(result(Operation::ShiftRight(lit(0x81, 8), lit(1, 8)), 8), 0x40);
    assert_eq!(result(Operation::ShiftLeft(lit(0x81, 8), lit(64, 8)), 8), 0);
    assert_eq!(result(Operation::ShiftRight(lit(0x81, 8), lit(200, 8)), 8), 0);
    assert_eq!(result(Operation::ShiftLeft(lit(1, 64), lit(63, 64)), 64), 1 << 63);
}

#[test]
fn extension_and_truncation() {
    assert_eq!(result(Operation::ZeroExtend(lit(0x80, 8)), 16), 0x0080);
    assert_eq!(result(Operation::SignExtend(lit(0x80, 8)), 16), 0xff80);
    assert_eq!(result(Operation::SignExtend(lit(0x7f, 8)), 16), 0x007f);
    assert_eq!(result(Operation::SignExtend(lit(1, 1)), 8), 0xff);
    assert_eq!(result(Operation::Truncate(lit(0x1234, 16)), 8), 0x34);
    assert_eq!(result(Operation::Move(lit(0x12, 8)), 8), 0x12);
}

#[test]
fn select_replaces_a_field() {
    assert_eq!(result(Operation::Select(4, lit(0xff, 8), lit(0b0000, 4)), 8), 0x0f);
    assert_eq!(result(Operation::Select(0, lit(0x00, 8), lit(1, 1)), 8), 0x01);
    assert_eq!(result(Operation::Select(7, lit(0x00, 8), lit(1, 1)), 8), 0x80);
    assert_eq!(result(Operation::Select(3, lit(0xff, 8), lit(0, 1)), 8), 0xf7);
}

#[test]
fn comparisons() {
    let one = lit(0x01, 8);
    let minus_one = lit(0xff, 8);
    assert_eq!(result(Operation::Equal(one, one), 1), 1);
    assert_eq!(result(Operation::Equal(one, minus_one), 1), 0);
    assert_eq!(result(Operation::LessUnsigned(one, minus_one), 1), 1);
    assert_eq!(result(Operation::LessUnsigned(minus_one, one), 1), 0);
    assert_eq!(result(Operation::LessUnsigned(one, one), 1), 0);
    assert_eq!(result(Operation::LessOrEqualUnsigned(one, one), 1), 1);
    assert_eq!(result(Operation::LessOrEqualUnsigned(minus_one, one), 1), 0);
    assert_eq!(result(Operation::LessSigned(minus_one, one), 1), 1);
    assert_eq!(result(Operation::LessSigned(one, minus_one), 1), 0);
    assert_eq!(result(Operation::LessSigned(one, one), 1), 0);
    assert_eq!(result(Operation::LessOrEqualSigned(one, one), 1), 1);
    assert_eq!(result(Operation::LessOrEqualSigned(minus_one, one), 1), 1);
    assert_eq!(result(Operation::LessOrEqualSigned(one, minus_one), 1), 0);
    assert_eq!(result(Operation::LessSigned(lit(0x80, 8), lit(0x7f, 8)), 1), 1);
}

#[test]
fn assignment_to_a_slice_keeps_the_other_bits() {
    let mut m = Machine::new();
    m.regs.a = 0b1010_1010;
    let low = Lvalue { name: Name::A, width: 4, offset: 0 };
    m.step(assignment(low, Operation::Move(lit(0b0101, 4))));
    assert_eq!(m.regs.a, 0b1010_0101);
    let top = Lvalue { name: Name::A, width: 1, offset: 7 };
    m.step(assignment(top, Operation::Move(lit(0, 1))));
    assert_eq!(m.regs.a, 0b0010_0101);
}

#[test]
fn assignment_to_a_flag_takes_the_lowest_bit() {
    let mut m = Machine::new();
    m.step(assignment(Lvalue::flag(Name::I), Operation::Move(lit(1, 1))));
    assert!(m.regs.i);
    m.step(assignment(Lvalue::flag(Name::I), Operation::Move(lit(0, 1))));
    assert!(!m.regs.i);
}

#[test]
fn memory_is_little_endian() {
    let mut m = Machine::new();
    let at = Pointer::Constant { value: 0x0200, width: 16 };
    m.step(Statement {
        assignee: None,
        op: Operation::Store(Rvalue::memory(at, 16), lit(0xbeef, 16)),
    });
    assert_eq!(m.peek(0x0200), 0xef);
    assert_eq!(m.peek(0x0201), 0xbe);
    assert_eq!(m.peek(0x0202), 0x00);
    assert_eq!(m.value(Rvalue::memory(at, 16)), 0xbeef);
    assert_eq!(m.value(Rvalue::memory(at, 8)), 0xef);
    assert_eq!(m.value(Rvalue::memory(at, 32)), 0xbeef);
    m.step(assignment(temp(1, 16), Operation::Load(Rvalue::memory(at, 16))));
    assert_eq!(m.read(Name::Temp(1)), 0xbeef);
}

#[test]
fn memory_wraps_at_64_kib() {
    let mut m = Machine::new();
    let at = Pointer::Constant { value: 0xffff, width: 16 };
    m.step(Statement {
        assignee: None,
        op: Operation::Store(Rvalue::memory(at, 16), lit(0x1234, 16)),
    });
    assert_eq!(m.peek(0xffff), 0x34);
    assert_eq!(m.peek(0x0000), 0x12);
    assert_eq!(m.value(Rvalue::memory(at, 16)), 0x1234);
}

#[test]
fn address_may_come_from_a_register() {
    let mut m = Machine::new();
    m.regs.x = 0x42;
    m.poke(0x0042, 0x99);
    let at = Pointer::Variable { name: Name::X, width: 8, offset: 0 };
    assert_eq!(m.value(Rvalue::memory(at, 8)), 0x99);
}

#[test]
fn statement_without_effect() {
    let mut m = Machine::new();
    m.regs.a = 7;
    let before = m.regs;
    m.step(Statement { assignee: None, op: Operation::Call(lit(0x1234, 16)) });
    m.step(Statement { assignee: None, op: Operation::Move(lit(1, 8)) });
    assert_eq!(m.regs, before);
    m.execute(&Vec::new());
    assert_eq!(m.regs, before);
}

#[test]
fn execute_runs_in_order() {
    let a = Lvalue::register(Name::A);
    let code = vec![
        assignment(a, Operation::Move(lit(1, 8))),
        assignment(a, Operation::Add(a.to_rvalue(), a.to_rvalue())),
        assignment(a, Operation::Add(a.to_rvalue(), lit(5, 8))),
    ];
    let mut m = Machine::new();
    m.execute(&code);
    assert_eq!(m.regs.a, 7);
}
