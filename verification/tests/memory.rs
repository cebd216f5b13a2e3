use mos6502::ir::{LiftError, Lvalue, Name, Operation, Pointer, Rvalue, Statement};
use mos6502::machine::Machine;
use mos6502::semantic::{
    adc, and, bit, cpa, cpx, dea, eor, ina, lda, ldx, ora, rol, ror, sbc, sta, sty,
};
use mos6502::state::Variant;

fn cell(address: u16) -> Rvalue {
    Rvalue::memory(Pointer::Constant { value: address as u64, width: 16 }, 8)
}

fn loaded(k: u8) -> Lvalue {
    Lvalue { name: Name::Temp(k), width: 8, offset: 0 }
}

#[test]
fn load_from_memory_loads_into_a_temporary_first() {
    let mut cfg = Variant::mos6502();
    let a = Lvalue::register(Name::A);
    let code = lda(&mut cfg, cell(0x1234)).unwrap();
    let zero = Rvalue::new_u8(0);
    assert_eq!(
        code,
        vec![
            Statement { assignee: Some(loaded(0)), op: Operation::Load(cell(0x1234)) },
            Statement { assignee: Some(a), op: Operation::Move(loaded(0).to_rvalue()) },
            Statement {
                assignee: Some(Lvalue::flag(Name::Z)),
                op: Operation::Equal(a.to_rvalue(), zero),
            },
            Statement {
                assignee: Some(Lvalue::flag(Name::N)),
                op: Operation::LessSigned(a.to_rvalue(), zero),
            },
        ]
    );
    let mut m = Machine::new();
    m.poke(0x1234, 0x80);
    m.execute(&code);
    assert_eq!(m.regs.a, 0x80);
    assert!(m.regs.n);
    assert!(!m.regs.z);
}

#[test]
fn load_through_an_index_register() {
    let mut cfg = Variant::mos6502();
    let at = Pointer::Variable { name: Name::Y, width: 8, offset: 0 };
    let code = ldx(&mut cfg, Rvalue::memory(at, 8)).unwrap();
    let mut m = Machine::new();
    m.regs.y = 0x42;
    m.poke(0x0042, 0x17);
    m.execute(&code);
    assert_eq!(m.regs.x, 0x17);
    assert_eq!(m.regs.y, 0x42);
}

#[test]
fn add_with_carry_from_memory() {
    let mut cfg = Variant::mos6502();
    let code = adc(&mut cfg, cell(0x0200)).unwrap();
    assert_eq!(code.len(), 15);
    assert_eq!(code[0], Statement { assignee: Some(loaded(6)), op: Operation::Load(cell(0x0200)) });
    assert_eq!(
        code[2],
        Statement {
            assignee: Some(loaded(1)),
            op: Operation::Add(Lvalue::register(Name::A).to_rvalue(), loaded(6).to_rvalue()),
        }
    );
    let mut m = Machine::new();
    m.regs.a = 0x50;
    m.poke(0x0200, 0x50);
    m.execute(&code);
    assert_eq!(m.regs.a, 0xa0);
    assert!(m.regs.n);
    assert!(!m.regs.z);
    assert!(!m.regs.c);
    assert_eq!(m.peek(0x0200), 0x50);
}

#[test]
fn subtract_with_borrow_from_memory() {
    let mut cfg = Variant::mos6502();
    let code = sbc(&mut cfg, cell(0x0200)).unwrap();
    let mut m = Machine::new();
    m.regs.a = 0x30;
    m.regs.c = true;
    m.poke(0x0200, 0x10);
    m.execute(&code);
    assert_eq!(m.regs.a, 0x21);
}

#[test]
fn logic_from_memory() {
    let mut cfg = Variant::mos6502();
    let mut m = Machine::new();
    m.poke(0x0010, 0b1010_0110);
    m.regs.a = 0b1100_1010;
    m.execute(&and(&mut cfg, cell(0x0010)).unwrap());
    assert_eq!(m.regs.a, 0b1000_0010);
    m.execute(&ora(&mut cfg, cell(0x0010)).unwrap());
    assert_eq!(m.regs.a, 0b1010_0110);
    m.execute(&eor(&mut cfg, cell(0x0010)).unwrap());
    assert_eq!(m.regs.a, 0);
    assert!(m.regs.z);
}

#[test]
fn bit_test_from_memory_takes_overflow_from_the_byte() {
    let mut cfg = Variant::mos6502();
    let code = bit(&mut cfg, cell(0x0010)).unwrap();
    assert_eq!(code.len(), 5);
    assert_eq!(code[0], Statement { assignee: Some(loaded(1)), op: Operation::Load(cell(0x0010)) });
    let mut m = Machine::new();
    m.poke(0x0010, 0b0100_0000);
    m.regs.a = 0;
    m.execute(&code);
    assert!(m.regs.z);
    assert!(!m.regs.n);
    assert!(m.regs.v);
    assert_eq!(m.regs.a, 0);
}

#[test]
fn compare_with_memory() {
    let mut cfg = Variant::mos6502();
    let mut m = Machine::new();
    m.poke(0x0300, 0x40);
    m.regs.a = 0x3f;
    m.execute(&cpa(&mut cfg, cell(0x0300)).unwrap());
    assert!(m.regs.c);
    assert!(m.regs.n);
    assert!(!m.regs.z);
    m.regs.x = 0x40;
    m.execute(&cpx(&mut cfg, cell(0x0300)).unwrap());
    assert!(!m.regs.c);
    assert!(m.regs.z);
}

#[test]
fn increment_and_decrement_of_a_byte_of_memory_into_the_accumulator() {
    let mut cfg = Variant::mos6502();
    let mut m = Machine::new();
    m.poke(0x0300, 0xff);
    m.execute(&ina(&mut cfg, cell(0x0300)).unwrap());
    assert_eq!(m.regs.a, 0x00);
    assert!(m.regs.z);
    assert!(m.regs.n);
    m.poke(0x0300, 0x01);
    m.execute(&dea(&mut cfg, cell(0x0300)).unwrap());
    assert_eq!(m.regs.a, 0x00);
    assert!(m.regs.z);
    assert!(!m.regs.n);
    assert_eq!(m.peek(0x0300), 0x01);
}

#[test]
fn store_to_a_memory_cell() {
    let mut cfg = Variant::mos6502();
    let code = sta(&mut cfg, cell(0x0200)).unwrap();
    assert_eq!(code, sta(&mut cfg, Rvalue::new_u16(0x0200)).unwrap());
    let mut m = Machine::new();
    m.regs.a = 0x99;
    m.regs.y = 0x77;
    m.execute(&code);
    assert_eq!(m.peek(0x0200), 0x99);
    let at = Pointer::Variable { name: Name::X, width: 8, offset: 0 };
    m.regs.x = 0x20;
    m.execute(&sty(&mut cfg, Rvalue::memory(at, 8)).unwrap());
    assert_eq!(m.peek(0x0020), 0x77);
}

#[test]
fn memory_cell_that_is_no_byte_is_refused() {
    let mut cfg = Variant::mos6502();
    let word = Rvalue::memory(Pointer::Constant { value: 0x0200, width: 16 }, 16);
    let far = Rvalue::memory(Pointer::Constant { value: 0x0200, width: 17 }, 8);
    let big = Rvalue::memory(Pointer::Constant { value: 0x1_0000, width: 16 }, 8);
    let t = Pointer::Variable { name: Name::Temp(0), width: 16, offset: 0 };
    let through = Rvalue::memory(t, 8);
    for r in [word, far, big, through] {
        assert_eq!(lda(&mut cfg, r), Err(LiftError::MalformedOperand));
        assert_eq!(adc(&mut cfg, r), Err(LiftError::MalformedOperand));
        assert_eq!(bit(&mut cfg, r), Err(LiftError::MalformedOperand));
        assert_eq!(dea(&mut cfg, r), Err(LiftError::MalformedOperand));
        assert_eq!(sta(&mut cfg, r), Err(LiftError::MalformedOperand));
    }
}

#[test]
fn rotation_of_a_memory_cell_is_refused() {
    let mut cfg = Variant::mos6502();
    assert_eq!(rol(&mut cfg, cell(0x0200)), Err(LiftError::MalformedOperand));
    assert_eq!(ror(&mut cfg, cell(0x0200)), Err(LiftError::MalformedOperand));
}
