use mos6502::machine::{Machine, Registers};
use mos6502::semantic::{pha, php, pla, plp};
use mos6502::state::Variant;

fn status(r: &Registers) -> u8 {
    (r.c as u8)
        | (r.z as u8) << 1
        | (r.i as u8) << 2
        | (r.d as u8) << 3
        | (r.b as u8) << 4
        | 1 << 5
        | (r.v as u8) << 6
        | (r.n as u8) << 7
}

#[test]
fn push_accumulator_stores_then_moves_the_pointer_up() {
    let mut cfg = Variant::mos6502();
    let mut m = Machine::new();
    m.regs.a = 0xab;
    m.regs.s = 0x10;
    m.execute(&pha(&mut cfg).unwrap());
    assert_eq!(m.peek(0x0110), 0xab);
    assert_eq!(m.regs.s, 0x11);
    assert_eq!(m.regs.a, 0xab);
}

#[test]
fn push_at_the_end_of_the_stack_page_wraps_the_pointer() {
    let mut cfg = Variant::mos6502();
    let mut m = Machine::new();
    m.regs.a = 0x5a;
    m.regs.s = 0xff;
    m.execute(&pha(&mut cfg).unwrap());
    assert_eq!(m.peek(0x01ff), 0x5a);
    assert_eq!(m.regs.s, 0x00);
}

#[test]
fn pull_accumulator_moves_the_pointer_up_then_loads() {
    let mut cfg = Variant::mos6502();
    let mut m = Machine::new();
    m.regs.s = 0x10;
    m.poke(0x0111, 0x80);
    m.execute(&pla(&mut cfg).unwrap());
    assert_eq!(m.regs.a, 0x80);
    assert_eq!(m.regs.s, 0x11);
    assert!(m.regs.n);
    assert!(!m.regs.z);

    m.poke(0x0112, 0x00);
    m.execute(&pla(&mut cfg).unwrap());
    assert_eq!(m.regs.a, 0x00);
    assert_eq!(m.regs.s, 0x12);
    assert!(m.regs.z);
    assert!(!m.regs.n);
}

#[test]
fn pull_at_the_end_of_the_stack_page_reads_address_zero() {
    let mut cfg = Variant::mos6502();
    let mut m = Machine::new();
    m.regs.s = 0xff;
    m.poke(0x0000, 0x33);
    m.poke(0x0100, 0x44);
    m.execute(&pla(&mut cfg).unwrap());
    assert_eq!(m.regs.a, 0x33);
    assert_eq!(m.regs.s, 0x00);
}

#[test]
fn push_flags_packs_each_flag_at_its_bit() {
    let mut cfg = Variant::mos6502();
    let code = php(&mut cfg).unwrap();
    for bits in 0..128u8 {
        let mut m = Machine::new();
        m.regs.s = 0x20;
        m.regs.c = bits & 1 != 0;
        m.regs.z = bits & 2 != 0;
        m.regs.i = bits & 4 != 0;
        m.regs.d = bits & 8 != 0;
        m.regs.b = bits & 16 != 0;
        m.regs.v = bits & 32 != 0;
        m.regs.n = bits & 64 != 0;
        let before = m.regs;
        m.execute(&code);
        assert_eq!(m.peek(0x0120), status(&before));
        assert_eq!(m.peek(0x0120) & 0x20, 0x20);
        assert_eq!(m.regs, Registers { s: 0x21, ..before });
    }
}

#[test]
fn push_flags_of_carry_and_negative() {
    let mut cfg = Variant::mos6502();
    let mut m = Machine::new();
    m.regs.c = true;
    m.regs.n = true;
    m.execute(&php(&mut cfg).unwrap());
    assert_eq!(m.peek(0x0100), 0b1010_0001);
    assert_eq!(m.regs.s, 0x01);
}

#[test]
fn pull_flags_unpacks_all_but_break_and_sets_zero_and_negative_from_the_accumulator() {
    let mut cfg = Variant::mos6502();
    let mut m = Machine::new();
    m.regs.s = 0x30;
    m.regs.a = 0x80;
    m.regs.b = false;
    m.poke(0x0131, 0b0101_1111);
    m.execute(&plp(&mut cfg).unwrap());
    assert_eq!(m.regs.s, 0x31);
    assert!(m.regs.c);
    assert!(m.regs.i);
    assert!(m.regs.d);
    assert!(m.regs.v);
    // Bit 4 of the byte is set, but the break flag is not written.
    assert!(!m.regs.b);
    // Bit 1 is set and bit 7 clear, but the accumulator is 0x80.
    assert!(!m.regs.z);
    assert!(m.regs.n);
}

#[test]
fn pull_flags_keeps_a_set_break_flag() {
    let mut cfg = Variant::mos6502();
    let mut m = Machine::new();
    m.regs.b = true;
    m.poke(0x0101, 0x00);
    m.execute(&plp(&mut cfg).unwrap());
    assert!(m.regs.b);
    assert!(!m.regs.c);
    assert!(m.regs.z);
}

#[test]
fn push_then_pull_restores_the_flags_where_the_pull_reads_them() {
    let mut cfg = Variant::mos6502();
    let push = php(&mut cfg).unwrap();
    let pull = plp(&mut cfg).unwrap();
    for bits in 0..16u8 {
        for a in [0x00u8, 0x01, 0x80] {
            let mut m = Machine::new();
            m.regs.s = 0x40;
            m.regs.a = a;
            m.regs.c = bits & 1 != 0;
            m.regs.i = bits & 2 != 0;
            m.regs.d = bits & 4 != 0;
            m.regs.v = bits & 8 != 0;
            m.regs.z = a == 0;
            m.regs.n = a >= 0x80;
            let before = m.regs;
            // The pull reads two places above the byte that the push
            // writes: the flags come back where that place holds them.
            m.poke(0x0142, status(&before));
            m.execute(&push);
            assert_eq!(m.peek(0x0140), status(&before));
            m.execute(&pull);
            assert_eq!(m.regs.c, before.c);
            assert_eq!(m.regs.z, before.z);
            assert_eq!(m.regs.i, before.i);
            assert_eq!(m.regs.d, before.d);
            assert_eq!(m.regs.v, before.v);
            assert_eq!(m.regs.n, before.n);
            assert_eq!(m.regs.s, 0x42);
        }
    }
}

#[test]
fn push_then_pull_does_not_read_the_pushed_byte() {
    let mut cfg = Variant::mos6502();
    let mut m = Machine::new();
    m.regs.c = true;
    m.regs.v = true;
    m.execute(&php(&mut cfg).unwrap());
    m.execute(&plp(&mut cfg).unwrap());
    assert_eq!(m.peek(0x0100), 0b0110_0001);
    assert!(!m.regs.c);
    assert!(!m.regs.v);
    assert_eq!(m.regs.s, 0x02);
}
