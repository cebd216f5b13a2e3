use mos6502::ir::{LiftError, Lvalue, Name, Operation, Pointer, Rvalue, Statement};
use mos6502::machine::{Machine, Registers};
use mos6502::semantic::{
    adc, and, asl, bit, brk, clc, cld, cli, clv, cpa, dea, inx, lda, ldx, ldy, lsr, nop, nop_r,
    pha, sec, sed, sei, sta, stx, sty, tax, tay, trr, tsx, txa, txs, tya,
};
use mos6502::state::Variant;

fn put(dst: Lvalue, op: Operation) -> Statement {
    Statement { assignee: Some(dst), op }
}

fn zero() -> Rvalue {
    Rvalue::new_u8(0)
}

#[test]
fn instructions_without_statements() {
    let mut cfg = Variant::mos6502();
    assert_eq!(nop(&mut cfg), Ok(Vec::new()));
    assert_eq!(nop_r(&mut cfg, Rvalue::new_u16(0x1234)), Ok(Vec::new()));
    assert_eq!(brk(&mut cfg), Ok(Vec::new()));
}

#[test]
fn flag_instructions_write_one_flag() {
    let mut cfg = Variant::mos6502();
    let set = Operation::Move(Rvalue::new_bit(true));
    let clear = Operation::Move(Rvalue::new_bit(false));
    assert_eq!(clc(&mut cfg), Ok(vec![put(Lvalue::flag(Name::C), clear)]));
    assert_eq!(cli(&mut cfg), Ok(vec![put(Lvalue::flag(Name::I), clear)]));
    assert_eq!(cld(&mut cfg), Ok(vec![put(Lvalue::flag(Name::D), clear)]));
    assert_eq!(clv(&mut cfg), Ok(vec![put(Lvalue::flag(Name::V), clear)]));
    assert_eq!(sec(&mut cfg), Ok(vec![put(Lvalue::flag(Name::C), set)]));
    assert_eq!(sei(&mut cfg), Ok(vec![put(Lvalue::flag(Name::I), set)]));
    assert_eq!(sed(&mut cfg), Ok(vec![put(Lvalue::flag(Name::D), set)]));
}

#[test]
fn flag_instructions_change_nothing_else() {
    let mut cfg = Variant::mos6502();
    let mut m = Machine::new();
    m.regs.a = 0x12;
    m.regs.n = true;
    let before = m.regs;
    m.execute(&sec(&mut cfg).unwrap());
    assert_eq!(m.regs, Registers { c: true, ..before });
    m.execute(&sei(&mut cfg).unwrap());
    m.execute(&sed(&mut cfg).unwrap());
    assert_eq!(m.regs, Registers { c: true, i: true, d: true, ..before });
    m.regs.v = true;
    m.execute(&clc(&mut cfg).unwrap());
    m.execute(&cli(&mut cfg).unwrap());
    m.execute(&cld(&mut cfg).unwrap());
    m.execute(&clv(&mut cfg).unwrap());
    assert_eq!(m.regs, before);
}

#[test]
fn compare_is_three_statements() {
    let mut cfg = Variant::mos6502();
    let a = Lvalue::register(Name::A).to_rvalue();
    let r = Rvalue::new_u8(0x40);
    let c = Lvalue::flag(Name::C);
    assert_eq!(
        cpa(&mut cfg, r),
        Ok(vec![
            put(c, Operation::LessUnsigned(a, r)),
            put(Lvalue::flag(Name::N), Operation::Move(c.to_rvalue())),
            put(Lvalue::flag(Name::Z), Operation::Equal(a, r)),
        ])
    );
}

#[test]
fn add_with_carry_is_fourteen_statements() {
    let mut cfg = Variant::mos6502();
    let r = Rvalue::new_u8(0x50);
    let code = adc(&mut cfg, r).unwrap();
    assert_eq!(code.len(), 14);
    let carry = Lvalue { name: Name::Temp(0), width: 8, offset: 0 };
    let res = Lvalue { name: Name::Temp(1), width: 8, offset: 0 };
    let a = Lvalue::register(Name::A);
    assert_eq!(code[0], put(carry, Operation::ZeroExtend(Lvalue::flag(Name::C).to_rvalue())));
    assert_eq!(code[1], put(res, Operation::Add(a.to_rvalue(), r)));
    assert_eq!(code[2], put(res, Operation::Add(res.to_rvalue(), carry.to_rvalue())));
    assert_eq!(code[3], put(Lvalue::flag(Name::Z), Operation::Equal(zero(), res.to_rvalue())));
    assert_eq!(
        code[8],
        put(Lvalue::flag(Name::N), Operation::LessSigned(res.to_rvalue(), zero()))
    );
    assert_eq!(code[13], put(a, Operation::Move(res.to_rvalue())));
}

#[test]
fn decrement_is_four_statements() {
    let mut cfg = Variant::mos6502();
    let r = Rvalue::new_u8(0x01);
    let a = Lvalue::register(Name::A);
    let before = Lvalue { name: Name::Temp(0), width: 8, offset: 0 };
    assert_eq!(
        dea(&mut cfg, r),
        Ok(vec![
            put(before, Operation::Move(r)),
            put(a, Operation::Subtract(r, Rvalue::new_u8(1))),
            put(Lvalue::flag(Name::Z), Operation::Equal(a.to_rvalue(), zero())),
            put(Lvalue::flag(Name::N), Operation::LessSigned(before.to_rvalue(), zero())),
        ])
    );
}

#[test]
fn increment_of_an_index_register_is_four_statements() {
    let mut cfg = Variant::mos6502();
    let x = Lvalue::register(Name::X);
    let before = Lvalue { name: Name::Temp(0), width: 8, offset: 0 };
    assert_eq!(
        inx(&mut cfg),
        Ok(vec![
            put(before, Operation::Move(x.to_rvalue())),
            put(x, Operation::Add(x.to_rvalue(), Rvalue::new_u8(1))),
            put(Lvalue::flag(Name::Z), Operation::Equal(x.to_rvalue(), zero())),
            put(Lvalue::flag(Name::N), Operation::LessSigned(before.to_rvalue(), zero())),
        ])
    );
}

#[test]
fn push_accumulator_is_five_statements() {
    let mut cfg = Variant::mos6502();
    let sp = Lvalue { name: Name::Temp(0), width: 9, offset: 0 };
    let s = Lvalue::register(Name::S);
    assert_eq!(
        pha(&mut cfg),
        Ok(vec![
            put(sp, Operation::ZeroExtend(s.to_rvalue())),
            put(sp, Operation::Add(sp.to_rvalue(), Rvalue::constant(0x100, 9))),
            Statement {
                assignee: None,
                op: Operation::Store(
                    Rvalue::memory(sp.to_pointer(), 8),
                    Lvalue::register(Name::A).to_rvalue(),
                ),
            },
            put(sp, Operation::Add(sp.to_rvalue(), Rvalue::constant(1, 9))),
            put(s, Operation::Move(Rvalue::Variable { name: Name::Temp(0), width: 8, offset: 0 })),
        ])
    );
}

#[test]
fn loads_set_zero_and_negative() {
    let mut cfg = Variant::mos6502();
    let mut m = Machine::new();
    m.execute(&lda(&mut cfg, Rvalue::new_u8(0x80)).unwrap());
    assert_eq!(m.regs.a, 0x80);
    assert!(m.regs.n);
    assert!(!m.regs.z);
    m.execute(&ldx(&mut cfg, Rvalue::new_u8(0x00)).unwrap());
    assert_eq!(m.regs.x, 0x00);
    assert!(!m.regs.n);
    assert!(m.regs.z);
    m.execute(&ldy(&mut cfg, Rvalue::new_u8(0x7f)).unwrap());
    assert_eq!(m.regs.y, 0x7f);
    assert!(!m.regs.n);
    assert!(!m.regs.z);
    assert_eq!(m.regs.a, 0x80);
}

#[test]
fn stores_write_memory_and_no_flag() {
    let mut cfg = Variant::mos6502();
    let mut m = Machine::new();
    m.regs.a = 0x11;
    m.regs.x = 0x22;
    m.regs.y = 0x00;
    let before = m.regs;
    m.execute(&sta(&mut cfg, Rvalue::new_u16(0x0200)).unwrap());
    m.execute(&stx(&mut cfg, Rvalue::new_u8(0x10)).unwrap());
    m.poke(0x0300, 0xff);
    m.execute(&sty(&mut cfg, Rvalue::new_u16(0x0300)).unwrap());
    assert_eq!(m.peek(0x0200), 0x11);
    assert_eq!(m.peek(0x0010), 0x22);
    assert_eq!(m.peek(0x0300), 0x00);
    assert_eq!(m.regs, before);
}

#[test]
fn store_is_one_statement() {
    let mut cfg = Variant::mos6502();
    let at = Pointer::Constant { value: 0x0200, width: 16 };
    assert_eq!(
        sta(&mut cfg, Rvalue::new_u16(0x0200)),
        Ok(vec![Statement {
            assignee: None,
            op: Operation::Store(Rvalue::memory(at, 8), Lvalue::register(Name::A).to_rvalue()),
        }])
    );
}

#[test]
fn store_refuses_what_is_no_address() {
    let mut cfg = Variant::mos6502();
    let at = Pointer::Constant { value: 0x0200, width: 16 };
    assert_eq!(sta(&mut cfg, Rvalue::memory(at, 16)), Err(LiftError::MalformedOperand));
    assert_eq!(stx(&mut cfg, Rvalue::constant(0, 17)), Err(LiftError::MalformedOperand));
    let t = Rvalue::Variable { name: Name::Temp(0), width: 16, offset: 0 };
    assert_eq!(sty(&mut cfg, t), Err(LiftError::MalformedOperand));
}

#[test]
fn transfers_set_zero_and_negative() {
    let mut cfg = Variant::mos6502();
    let mut m = Machine::new();
    m.regs.a = 0x80;
    m.execute(&tax(&mut cfg).unwrap());
    assert_eq!(m.regs.x, 0x80);
    assert!(m.regs.n);
    m.regs.a = 0x00;
    m.execute(&tay(&mut cfg).unwrap());
    assert_eq!(m.regs.y, 0x00);
    assert!(m.regs.z);
    assert!(!m.regs.n);
    m.regs.s = 0x7f;
    m.execute(&tsx(&mut cfg).unwrap());
    assert_eq!(m.regs.x, 0x7f);
    assert!(!m.regs.z);
    m.regs.x = 0x81;
    m.execute(&txa(&mut cfg).unwrap());
    assert_eq!(m.regs.a, 0x81);
    assert!(m.regs.n);
    m.regs.y = 0x01;
    m.execute(&tya(&mut cfg).unwrap());
    assert_eq!(m.regs.a, 0x01);
    assert!(!m.regs.n);
}

#[test]
fn transfer_to_the_stack_pointer_sets_the_flags_too() {
    let mut cfg = Variant::mos6502();
    let mut m = Machine::new();
    m.regs.x = 0x00;
    m.regs.n = true;
    m.execute(&txs(&mut cfg).unwrap());
    assert_eq!(m.regs.s, 0x00);
    assert!(m.regs.z);
    assert!(!m.regs.n);
}

#[test]
fn transfer_between_any_registers() {
    let mut cfg = Variant::mos6502();
    let y = Lvalue::register(Name::Y);
    let s = Lvalue::register(Name::S);
    assert_eq!(
        trr(&mut cfg, &y, &s),
        Ok(vec![
            put(s, Operation::Move(y.to_rvalue())),
            put(Lvalue::flag(Name::Z), Operation::Equal(s.to_rvalue(), zero())),
            put(Lvalue::flag(Name::N), Operation::LessSigned(s.to_rvalue(), zero())),
        ])
    );
    let c = Lvalue::flag(Name::C);
    assert_eq!(trr(&mut cfg, &c, &s), Err(LiftError::MalformedOperand));
    assert_eq!(trr(&mut cfg, &y, &c), Err(LiftError::MalformedOperand));
    let t = Lvalue { name: Name::Temp(0), width: 8, offset: 0 };
    assert_eq!(trr(&mut cfg, &t, &s), Err(LiftError::MalformedOperand));
}

#[test]
fn operands_are_checked() {
    let mut cfg = Variant::mos6502();
    let wide = Rvalue::new_u16(1);
    let word = Rvalue::memory(Pointer::Constant { value: 0, width: 16 }, 16);
    let far = Rvalue::memory(Pointer::Constant { value: 0, width: 17 }, 8);
    let t = Rvalue::Variable { name: Name::Temp(0), width: 8, offset: 0 };
    let out = Rvalue::Variable { name: Name::A, width: 8, offset: 1 };
    let big = Rvalue::constant(0x100, 8);
    for r in [wide, word, far, t, out, big] {
        assert_eq!(and(&mut cfg, r), Err(LiftError::MalformedOperand));
        assert_eq!(bit(&mut cfg, r), Err(LiftError::MalformedOperand));
        assert_eq!(cpa(&mut cfg, r), Err(LiftError::MalformedOperand));
        assert_eq!(dea(&mut cfg, r), Err(LiftError::MalformedOperand));
        assert_eq!(lda(&mut cfg, r), Err(LiftError::MalformedOperand));
    }
}

#[test]
fn shifts_do_not_look_at_their_operand() {
    let mut cfg = Variant::mos6502();
    let cell = Rvalue::memory(Pointer::Constant { value: 0, width: 16 }, 8);
    assert_eq!(asl(&mut cfg, cell), asl(&mut cfg, Rvalue::new_u8(0)));
    assert_eq!(lsr(&mut cfg, cell), lsr(&mut cfg, Rvalue::new_u8(3)));
    assert_eq!(asl(&mut cfg, cell).map(|code| code.len()), Ok(4));
}

#[test]
fn configuration_is_left_alone() {
    let mut cfg = Variant::mos6502();
    assert_eq!(cfg, Variant { decimal: false });
    let _ = and(&mut cfg, Rvalue::new_u8(0));
    let _ = pha(&mut cfg);
    assert_eq!(cfg, Variant { decimal: false });
}
