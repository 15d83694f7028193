use lc3_vm::opcode::Opcode;
use lc3_vm::opcode::OpcodeError;
use lc3_vm::register::Register;
use lc3_vm::register::RegisterError;
use lc3_vm::trap::TrapCode;
use lc3_vm::trap::TrapCodeError;
use lc3_vm::utils::sign_extend;

#[test]
fn test_opcode_from_u16_valid() {
    assert_eq!(Opcode::from_u16(0), Ok(Opcode::BR));
    assert_eq!(Opcode::from_u16(1), Ok(Opcode::ADD));
    assert_eq!(Opcode::from_u16(2), Ok(Opcode::LD));
    assert_eq!(Opcode::from_u16(3), Ok(Opcode::ST));
    assert_eq!(Opcode::from_u16(4), Ok(Opcode::JSR));
    assert_eq!(Opcode::from_u16(5), Ok(Opcode::AND));
    assert_eq!(Opcode::from_u16(6), Ok(Opcode::LDR));
    assert_eq!(Opcode::from_u16(7), Ok(Opcode::STR));
    assert_eq!(Opcode::from_u16(8), Ok(Opcode::RTI));
    assert_eq!(Opcode::from_u16(9), Ok(Opcode::NOT));
    assert_eq!(Opcode::from_u16(10), Ok(Opcode::LDI));
    assert_eq!(Opcode::from_u16(11), Ok(Opcode::STI));
    assert_eq!(Opcode::from_u16(12), Ok(Opcode::JMP));
    assert_eq!(Opcode::from_u16(13), Ok(Opcode::RES));
    assert_eq!(Opcode::from_u16(14), Ok(Opcode::LEA));
    assert_eq!(Opcode::from_u16(15), Ok(Opcode::TRAP));
}

#[test]
fn test_opcode_from_u16_invalid() {
    assert_eq!(Opcode::from_u16(16), Err(OpcodeError::UnknownOpcode(16)));
}

#[test]
fn test_register_from_u16_valid() {
    assert_eq!(Register::from_u16(0), Ok(Register::R0));
    assert_eq!(Register::from_u16(1), Ok(Register::R1));
    assert_eq!(Register::from_u16(2), Ok(Register::R2));
    assert_eq!(Register::from_u16(3), Ok(Register::R3));
    assert_eq!(Register::from_u16(4), Ok(Register::R4));
    assert_eq!(Register::from_u16(5), Ok(Register::R5));
    assert_eq!(Register::from_u16(6), Ok(Register::R6));
    assert_eq!(Register::from_u16(7), Ok(Register::R7));
    assert_eq!(Register::from_u16(8), Ok(Register::PC));
    assert_eq!(Register::from_u16(9), Ok(Register::COND));
    assert_eq!(Register::from_u16(10), Ok(Register::COUNT));
}

#[test]
fn test_register_from_u16_invalid() {
    assert_eq!(Register::from_u16(16), Err(RegisterError::UnknownRegister(16)));
}

#[test]
fn test_trap_code_from_u16_valid() {
    assert_eq!(TrapCode::from_u16(0x20), Ok(TrapCode::GETC));
    assert_eq!(TrapCode::from_u16(0x21), Ok(TrapCode::OUT));
    assert_eq!(TrapCode::from_u16(0x22), Ok(TrapCode::PUTS));
    assert_eq!(TrapCode::from_u16(0x23), Ok(TrapCode::IN));
    assert_eq!(TrapCode::from_u16(0x24), Ok(TrapCode::PUTSP));
    assert_eq!(TrapCode::from_u16(0x25), Ok(TrapCode::HALT));
}

#[test]
fn test_raw_trap_code_from_u16_invalid() {
    assert_eq!(TrapCode::from_u16(1), Err(TrapCodeError::UnknownTrapCode(1)));
}

#[test]
fn test_sign_extend_positive_values_unchanged() {
    assert_eq!(sign_extend(1, 5), 1);
    assert_eq!(sign_extend(0x0F, 5), 0x0F);
    assert_eq!(sign_extend(0x1F, 6), 0x1F);
    assert_eq!(sign_extend(0x0FF, 9), 0x0FF);
    assert_eq!(sign_extend(0x3FF, 11), 0x3FF);
    assert_eq!(sign_extend(0, 5), 0);
}

#[test]
fn test_sign_extend_negative_values() {
    // -1 in each supported field width
    assert_eq!(sign_extend(0x1F, 5), 0xFFFF);
    assert_eq!(sign_extend(0x3F, 6), 0xFFFF);
    assert_eq!(sign_extend(0x1FF, 9), 0xFFFF);
    assert_eq!(sign_extend(0x7FF, 11), 0xFFFF);
    // -16 as a 5-bit immediate
    assert_eq!(sign_extend(0x10, 5), 0xFFF0);
    // -256 as a 9-bit offset
    assert_eq!(sign_extend(0x100, 9), 0xFF00);
}

#[test]
fn test_sign_extend_round_trip_interpretation() {
    // 0x1E is -2 as a 5-bit value; the extension must read as -2 in 16 bits
    let extended = sign_extend(0x1E, 5);
    assert_eq!(extended as i16, -2);
    // 0x0D stays 13
    assert_eq!(sign_extend(0x0D, 5) as i16, 13);
    // 0x155 is -171 as a 9-bit value
    assert_eq!(sign_extend(0x155, 9) as i16, -171);
}
