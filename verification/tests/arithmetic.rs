use mos6502::ir::{LiftError, Lvalue, Name, Rvalue};
use mos6502::machine::Machine;
use mos6502::semantic::{
    adc, and, asl, bit, cpa, cpx, cpy, dea, dex, dey, eor, ina, inx, iny, lsr, ora, rol, ror, sbc,
};
use mos6502::state::Variant;

fn machine(a: u8, carry: bool) -> Machine {
    let mut m = Machine::new();
    m.regs.a = a;
    m.regs.c = carry;
    m
}

fn after_adc(a: u8, operand: u8, carry: bool) -> Machine {
    let mut cfg = Variant::mos6502();
    let code = adc(&mut cfg, Rvalue::new_u8(operand)).unwrap();
    let mut m = machine(a, carry);
    m.execute(&code);
    m
}

#[test]
fn adc_of_0x50_and_0x50() {
    let m = after_adc(0x50, 0x50, false);
    assert_eq!(m.regs.a, 0xa0);
    assert!(!m.regs.z);
    assert!(m.regs.n);
    assert!(!m.regs.c);
    // The overflow flag is derived from the new carry flag and so stays
    // clear here, although the signed sum does not fit a byte.
    assert!(!m.regs.v);
}

#[test]
fn adc_carry_agrees_with_wide_sum_where_the_sum_fits() {
    let mut cfg = Variant::mos6502();
    let mut m = Machine::new();
    for operand in 0..=255u16 {
        let code = adc(&mut cfg, Rvalue::new_u8(operand as u8)).unwrap();
        for a in 0..=255u16 {
            for carry in 0..=1u16 {
                let wide = a + operand + carry;
                if wide < 0x100 || (carry == 1 && operand == 0xff) {
                    m.regs.a = a as u8;
                    m.regs.c = carry == 1;
                    m.regs.d = false;
                    m.execute(&code);
                    assert_eq!(m.regs.c as u16, wide >> 8);
                    assert_eq!(m.regs.a as u16, wide & 0xff);
                    assert_eq!(m.regs.z, wide & 0xff == 0);
                    assert_eq!(m.regs.n, wide & 0x80 != 0);
                }
            }
        }
    }
}

#[test]
fn adc_carry_is_set_only_by_carry_and_0xff() {
    let mut cfg = Variant::mos6502();
    let mut m = Machine::new();
    for operand in [0x00u8, 0x01, 0x7f, 0x80, 0xfe, 0xff] {
        let code = adc(&mut cfg, Rvalue::new_u8(operand)).unwrap();
        for a in [0x00u8, 0x01, 0x80, 0xff] {
            for carry in [false, true] {
                m.regs.a = a;
                m.regs.c = carry;
                m.execute(&code);
                assert_eq!(m.regs.c, carry && operand == 0xff);
                assert_eq!(m.regs.v, m.regs.c);
            }
        }
    }
}

#[test]
fn adc_misses_the_carry_of_0xff_plus_1() {
    let m = after_adc(0xff, 0x01, false);
    assert_eq!(m.regs.a, 0x00);
    assert!(m.regs.z);
    assert!(!m.regs.n);
    assert!(!m.regs.c);
}

#[test]
fn adc_takes_a_register_as_operand() {
    let mut cfg = Variant::mos6502();
    let code = adc(&mut cfg, Lvalue::register(Name::X).to_rvalue()).unwrap();
    let mut m = machine(0x10, true);
    m.regs.x = 0x22;
    m.execute(&code);
    assert_eq!(m.regs.a, 0x33);
    assert_eq!(m.regs.x, 0x22);
}

#[test]
fn adc_and_sbc_refuse_decimal_mode() {
    let mut cfg = Variant { decimal: true };
    assert_eq!(adc(&mut cfg, Rvalue::new_u8(1)), Err(LiftError::UnsupportedSemantics));
    assert_eq!(sbc(&mut cfg, Rvalue::new_u8(1)), Err(LiftError::UnsupportedSemantics));
    assert_eq!(cfg, Variant { decimal: true });
}

#[test]
fn adc_refuses_a_wide_operand() {
    let mut cfg = Variant::mos6502();
    assert_eq!(adc(&mut cfg, Rvalue::new_u16(1)), Err(LiftError::MalformedOperand));
    assert_eq!(sbc(&mut cfg, Rvalue::new_u16(1)), Err(LiftError::MalformedOperand));
}

#[test]
fn sbc_subtracts_and_adds_the_carry() {
    let mut cfg = Variant::mos6502();
    let code = sbc(&mut cfg, Rvalue::new_u8(0x10)).unwrap();
    let mut m = machine(0x30, true);
    m.execute(&code);
    assert_eq!(m.regs.a, 0x21);
    assert!(!m.regs.z);
    assert!(!m.regs.n);
    assert!(!m.regs.c);
    assert!(!m.regs.v);

    let mut m = machine(0x00, false);
    m.execute(&code);
    assert_eq!(m.regs.a, 0xf0);
    assert!(m.regs.n);
}

#[test]
fn sbc_of_zero_with_carry_clear_keeps_the_accumulator() {
    let mut cfg = Variant::mos6502();
    let code = sbc(&mut cfg, Rvalue::new_u8(0x00)).unwrap();
    let mut m = machine(0x42, false);
    m.execute(&code);
    assert_eq!(m.regs.a, 0x42);
    assert!(!m.regs.c);
}

#[test]
fn decrement_of_one_is_zero() {
    let mut cfg = Variant::mos6502();
    let code = dea(&mut cfg, Rvalue::new_u8(0x01)).unwrap();
    let mut m = machine(0x77, false);
    m.execute(&code);
    assert_eq!(m.regs.a, 0x00);
    assert!(m.regs.z);
    assert!(!m.regs.n);
}

#[test]
fn decrement_takes_the_negative_flag_from_the_operand() {
    let mut cfg = Variant::mos6502();
    let code = dea(&mut cfg, Rvalue::new_u8(0x80)).unwrap();
    let mut m = machine(0x00, false);
    m.execute(&code);
    assert_eq!(m.regs.a, 0x7f);
    assert!(m.regs.n);

    let code = dea(&mut cfg, Rvalue::new_u8(0x00)).unwrap();
    let mut m = machine(0x00, false);
    m.execute(&code);
    assert_eq!(m.regs.a, 0xff);
    assert!(!m.regs.n);
}

#[test]
fn decrement_of_an_index_register_takes_the_negative_flag_from_the_old_value() {
    let mut cfg = Variant::mos6502();
    let mut m = Machine::new();
    m.regs.x = 0x00;
    m.execute(&dex(&mut cfg).unwrap());
    assert_eq!(m.regs.x, 0xff);
    assert!(!m.regs.z);
    assert!(!m.regs.n);

    m.regs.x = 0x80;
    m.execute(&dex(&mut cfg).unwrap());
    assert_eq!(m.regs.x, 0x7f);
    assert!(!m.regs.z);
    assert!(m.regs.n);

    m.regs.y = 0x01;
    m.execute(&dey(&mut cfg).unwrap());
    assert_eq!(m.regs.y, 0x00);
    assert!(m.regs.z);
    assert!(!m.regs.n);

    m.regs.y = 0xff;
    m.execute(&dey(&mut cfg).unwrap());
    assert_eq!(m.regs.y, 0xfe);
    assert!(m.regs.n);
}

#[test]
fn increment_of_an_index_register_takes_the_negative_flag_from_the_old_value() {
    let mut cfg = Variant::mos6502();
    let mut m = Machine::new();
    m.regs.x = 0xff;
    m.execute(&inx(&mut cfg).unwrap());
    assert_eq!(m.regs.x, 0x00);
    assert!(m.regs.z);
    assert!(m.regs.n);

    m.regs.x = 0x7f;
    m.execute(&inx(&mut cfg).unwrap());
    assert_eq!(m.regs.x, 0x80);
    assert!(!m.regs.z);
    assert!(!m.regs.n);

    m.regs.y = 0x80;
    m.execute(&iny(&mut cfg).unwrap());
    assert_eq!(m.regs.y, 0x81);
    assert!(!m.regs.z);
    assert!(m.regs.n);

    m.regs.y = 0x00;
    m.execute(&iny(&mut cfg).unwrap());
    assert_eq!(m.regs.y, 0x01);
    assert!(!m.regs.n);
}

#[test]
fn increment_into_the_accumulator_takes_the_negative_flag_from_the_operand() {
    let mut cfg = Variant::mos6502();
    let code = ina(&mut cfg, Rvalue::new_u8(0x7f)).unwrap();
    let mut m = machine(0x00, false);
    m.execute(&code);
    assert_eq!(m.regs.a, 0x80);
    assert!(!m.regs.z);
    assert!(!m.regs.n);

    let code = ina(&mut cfg, Rvalue::new_u8(0xff)).unwrap();
    m.execute(&code);
    assert_eq!(m.regs.a, 0x00);
    assert!(m.regs.z);
    assert!(m.regs.n);
}

#[test]
fn increment_and_decrement_read_an_operand_that_is_another_register() {
    let mut cfg = Variant::mos6502();
    let x = Lvalue::register(Name::X).to_rvalue();
    let mut m = machine(0x00, false);
    m.regs.x = 0x80;
    m.execute(&ina(&mut cfg, x).unwrap());
    assert_eq!(m.regs.a, 0x81);
    assert_eq!(m.regs.x, 0x80);
    assert!(m.regs.n);
    m.regs.x = 0x01;
    m.execute(&dea(&mut cfg, x).unwrap());
    assert_eq!(m.regs.a, 0x00);
    assert!(m.regs.z);
    assert!(!m.regs.n);
}

#[test]
fn compare_sets_carry_and_negative_where_the_register_is_below() {
    let mut cfg = Variant::mos6502();
    let code = cpa(&mut cfg, Rvalue::new_u8(0x40)).unwrap();
    let mut m = machine(0x3f, false);
    m.execute(&code);
    assert!(m.regs.c);
    assert!(m.regs.n);
    assert!(!m.regs.z);

    let mut m = machine(0x40, true);
    m.execute(&code);
    assert!(!m.regs.c);
    assert!(!m.regs.n);
    assert!(m.regs.z);

    let mut m = machine(0x41, true);
    m.execute(&code);
    assert!(!m.regs.c);
    assert!(!m.regs.n);
    assert!(!m.regs.z);
    assert_eq!(m.regs.a, 0x41);
}

#[test]
fn compare_reads_the_index_registers() {
    let mut cfg = Variant::mos6502();
    let mut m = Machine::new();
    m.regs.x = 1;
    m.regs.y = 3;
    m.execute(&cpx(&mut cfg, Rvalue::new_u8(2)).unwrap());
    assert!(m.regs.c);
    m.execute(&cpy(&mut cfg, Rvalue::new_u8(2)).unwrap());
    assert!(!m.regs.c);
    assert!(!m.regs.z);
    m.execute(&cpy(&mut cfg, Rvalue::new_u8(3)).unwrap());
    assert!(m.regs.z);
}

#[test]
fn logic_instructions() {
    let mut cfg = Variant::mos6502();
    let mut m = machine(0b1100_1010, true);
    m.regs.v = true;
    m.execute(&and(&mut cfg, Rvalue::new_u8(0b1010_0110)).unwrap());
    assert_eq!(m.regs.a, 0b1000_0010);
    assert!(!m.regs.z);
    assert!(m.regs.n);
    assert!(m.regs.c);
    assert!(m.regs.v);

    m.execute(&ora(&mut cfg, Rvalue::new_u8(0b0000_0101)).unwrap());
    assert_eq!(m.regs.a, 0b1000_0111);
    assert!(m.regs.n);

    m.execute(&eor(&mut cfg, Rvalue::new_u8(0b1000_0111)).unwrap());
    assert_eq!(m.regs.a, 0);
    assert!(m.regs.z);
    assert!(!m.regs.n);
}

#[test]
fn negative_flag_is_clear_on_a_zero_result() {
    let mut cfg = Variant::mos6502();
    let a = Lvalue::register(Name::A).to_rvalue();
    let mut m = machine(0x0f, false);
    m.regs.n = true;
    m.execute(&and(&mut cfg, Rvalue::new_u8(0xf0)).unwrap());
    assert_eq!(m.regs.a, 0);
    assert!(m.regs.z);
    assert!(!m.regs.n);

    let mut m = machine(0x80, false);
    m.regs.n = true;
    m.execute(&asl(&mut cfg, Rvalue::new_u8(0)).unwrap());
    assert_eq!(m.regs.a, 0);
    assert!(m.regs.z);
    assert!(!m.regs.n);

    let mut m = machine(0x80, false);
    m.regs.n = true;
    m.execute(&rol(&mut cfg, a).unwrap());
    assert_eq!(m.regs.a, 0);
    assert!(m.regs.z);
    assert!(!m.regs.n);

    let mut m = machine(0x01, false);
    m.regs.n = true;
    m.execute(&ror(&mut cfg, a).unwrap());
    assert_eq!(m.regs.a, 0);
    assert!(m.regs.z);
    assert!(!m.regs.n);
}

#[test]
fn bit_test_leaves_the_accumulator() {
    let mut cfg = Variant::mos6502();
    let mut m = machine(0b1000_0001, false);
    m.execute(&bit(&mut cfg, Rvalue::new_u8(0b1100_0000)).unwrap());
    assert_eq!(m.regs.a, 0b1000_0001);
    assert!(!m.regs.z);
    assert!(m.regs.n);
    assert!(m.regs.v);

    let mut m = machine(0b0000_0001, false);
    m.execute(&bit(&mut cfg, Rvalue::new_u8(0b1011_1110)).unwrap());
    assert!(m.regs.z);
    assert!(!m.regs.n);
    assert!(!m.regs.v);

    // Overflow comes from the operand, not from the conjunction.
    let mut m = machine(0b0000_0000, false);
    m.execute(&bit(&mut cfg, Rvalue::new_u8(0b0100_0000)).unwrap());
    assert!(m.regs.z);
    assert!(m.regs.v);
}

#[test]
fn shifts_by_one() {
    let mut cfg = Variant::mos6502();
    let mut m = machine(0b1100_0001, false);
    m.execute(&asl(&mut cfg, Rvalue::new_u8(0)).unwrap());
    assert_eq!(m.regs.a, 0b1000_0010);
    assert!(m.regs.c);
    assert!(!m.regs.z);
    assert!(m.regs.n);

    let mut m = machine(0b1000_0000, false);
    m.execute(&asl(&mut cfg, Rvalue::new_u8(0)).unwrap());
    assert_eq!(m.regs.a, 0);
    assert!(m.regs.c);
    assert!(m.regs.z);

    let mut m = machine(0b1000_0011, false);
    m.regs.n = true;
    m.execute(&lsr(&mut cfg, Rvalue::new_u8(7)).unwrap());
    assert_eq!(m.regs.a, 0b0100_0001);
    assert!(m.regs.c);
    assert!(!m.regs.z);
    assert!(!m.regs.n);

    let mut m = machine(0b0000_0001, false);
    m.execute(&lsr(&mut cfg, Rvalue::new_u8(0)).unwrap());
    assert_eq!(m.regs.a, 0);
    assert!(m.regs.c);
    assert!(m.regs.z);
}

#[test]
fn rotates_through_the_carry() {
    let mut cfg = Variant::mos6502();
    let a = Lvalue::register(Name::A).to_rvalue();
    let mut m = machine(0b1000_0001, false);
    m.execute(&rol(&mut cfg, a).unwrap());
    assert_eq!(m.regs.a, 0b0000_0010);
    assert!(m.regs.c);

    m.execute(&rol(&mut cfg, a).unwrap());
    assert_eq!(m.regs.a, 0b0000_0101);
    assert!(!m.regs.c);

    let mut m = machine(0b0000_0001, true);
    m.execute(&ror(&mut cfg, a).unwrap());
    assert_eq!(m.regs.a, 0b1000_0000);
    assert!(m.regs.c);
    assert!(m.regs.n);

    m.regs.c = false;
    m.execute(&ror(&mut cfg, a).unwrap());
    assert_eq!(m.regs.a, 0b0100_0000);
    assert!(!m.regs.c);
    assert!(!m.regs.n);
}

#[test]
fn rotates_work_on_index_registers() {
    let mut cfg = Variant::mos6502();
    let x = Lvalue::register(Name::X).to_rvalue();
    let mut m = machine(0x55, true);
    m.regs.x = 0x40;
    m.execute(&rol(&mut cfg, x).unwrap());
    assert_eq!(m.regs.x, 0x81);
    assert_eq!(m.regs.a, 0x55);
    assert!(!m.regs.c);
}

#[test]
fn rotates_refuse_what_is_no_register() {
    let mut cfg = Variant::mos6502();
    assert_eq!(rol(&mut cfg, Rvalue::new_u8(1)), Err(LiftError::MalformedOperand));
    assert_eq!(ror(&mut cfg, Rvalue::new_u8(1)), Err(LiftError::MalformedOperand));
    let flag = Lvalue::flag(Name::C).to_rvalue();
    assert_eq!(rol(&mut cfg, flag), Err(LiftError::MalformedOperand));
    let half = Rvalue::Variable { name: Name::A, width: 4, offset: 0 };
    assert_eq!(ror(&mut cfg, half), Err(LiftError::MalformedOperand));
}
