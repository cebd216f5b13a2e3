use mos6502::ir::{Guard, LiftError, Lvalue, Name, Pointer, Rvalue, Space};

#[test]
fn constants_have_their_width() {
    assert_eq!(Rvalue::new_bit(true), Rvalue::Constant { value: 1, width: 1 });
    assert_eq!(Rvalue::new_bit(false), Rvalue::Constant { value: 0, width: 1 });
    assert_eq!(Rvalue::new_u8(0xab), Rvalue::Constant { value: 0xab, width: 8 });
    assert_eq!(Rvalue::new_u16(0xabcd), Rvalue::Constant { value: 0xabcd, width: 16 });
    assert_eq!(Rvalue::constant(5, 9), Rvalue::Constant { value: 5, width: 9 });
    assert_eq!(Rvalue::new_u8(1).width(), 8);
    assert_eq!(Rvalue::new_u16(1).width(), 16);
}

#[test]
fn registers_and_flags_as_targets() {
    let a = Lvalue::register(Name::A);
    assert_eq!(a, Lvalue { name: Name::A, width: 8, offset: 0 });
    assert_eq!(a.to_rvalue(), Rvalue::Variable { name: Name::A, width: 8, offset: 0 });
    assert_eq!(a.to_rvalue().width(), 8);
    let c = Lvalue::flag(Name::C);
    assert_eq!(c, Lvalue { name: Name::C, width: 1, offset: 0 });
    assert_eq!(c.to_pointer(), Pointer::Variable { name: Name::C, width: 1, offset: 0 });
}

#[test]
fn only_a_variable_is_a_target() {
    let x = Rvalue::Variable { name: Name::X, width: 4, offset: 2 };
    assert_eq!(Lvalue::from_rvalue(x), Some(Lvalue { name: Name::X, width: 4, offset: 2 }));
    assert_eq!(Lvalue::from_rvalue(Rvalue::new_u8(1)), None);
    let cell = Rvalue::memory(Pointer::Constant { value: 0, width: 16 }, 8);
    assert_eq!(Lvalue::from_rvalue(cell), None);
}

#[test]
fn memory_cells_and_pointers() {
    let p = Pointer::Constant { value: 0x0200, width: 16 };
    let cell = Rvalue::memory(p, 8);
    assert_eq!(cell, Rvalue::Memory { space: Space::Ram, address: p, width: 8 });
    assert_eq!(cell.width(), 8);
    assert_eq!(cell.to_pointer(), None);
    assert_eq!(p.to_rvalue(), Rvalue::new_u16(0x0200));
    assert_eq!(Rvalue::new_u16(0x0200).to_pointer(), Some(p));
    let v = Rvalue::Variable { name: Name::Temp(3), width: 9, offset: 0 };
    let q = Pointer::Variable { name: Name::Temp(3), width: 9, offset: 0 };
    assert_eq!(v.to_pointer(), Some(q));
    assert_eq!(q.to_rvalue(), v);
}

#[test]
fn slice_of_a_constant_is_a_constant() {
    let c = Rvalue::new_u8(0b1100_0101);
    assert_eq!(c.extract(1, 0), Ok(Rvalue::Constant { value: 1, width: 1 }));
    assert_eq!(c.extract(1, 1), Ok(Rvalue::Constant { value: 0, width: 1 }));
    assert_eq!(c.extract(1, 7), Ok(Rvalue::Constant { value: 1, width: 1 }));
    assert_eq!(c.extract(4, 4), Ok(Rvalue::Constant { value: 0b1100, width: 4 }));
    assert_eq!(c.extract(8, 0), Ok(c));
    assert_eq!(c.extract(1, 8), Err(LiftError::MalformedOperand));
    assert_eq!(c.extract(8, 1), Err(LiftError::MalformedOperand));
    assert_eq!(c.extract(0, 0), Err(LiftError::MalformedOperand));
}

#[test]
fn slice_of_a_variable_moves_the_offset() {
    let a = Lvalue::register(Name::A);
    assert_eq!(a.extract(1, 7), Ok(Rvalue::Variable { name: Name::A, width: 1, offset: 7 }));
    assert_eq!(a.extract(9, 0), Err(LiftError::MalformedOperand));
    let mid = Rvalue::Variable { name: Name::Temp(0), width: 8, offset: 4 };
    assert_eq!(
        mid.extract(2, 3),
        Ok(Rvalue::Variable { name: Name::Temp(0), width: 2, offset: 7 })
    );
    assert_eq!(mid.extract(2, 7), Err(LiftError::MalformedOperand));
    let far = Rvalue::Variable { name: Name::Temp(0), width: 255, offset: 250 };
    assert_eq!(far.extract(1, 6), Err(LiftError::MalformedOperand));
    assert_eq!(
        far.extract(1, 5),
        Ok(Rvalue::Variable { name: Name::Temp(0), width: 1, offset: 255 })
    );
}

#[test]
fn memory_cell_has_no_slice() {
    let cell = Rvalue::memory(Pointer::Constant { value: 0, width: 16 }, 8);
    assert_eq!(cell.extract(1, 0), Err(LiftError::MalformedOperand));
}

#[test]
fn guards() {
    assert_eq!(Guard::always(), Guard::Always);
    assert_eq!(Guard::never(), Guard::Never);
    assert_ne!(Guard::always(), Guard::never());
}
