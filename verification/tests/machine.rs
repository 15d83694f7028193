use lc3_vm::memory::Memory;
use lc3_vm::memory::KBDR;
use lc3_vm::memory::KBSR;
use lc3_vm::register::Register;
use lc3_vm::register::Registers;

#[test]
fn test_registers_start_zeroed() {
    let regs = Registers::new();
    for raw in 0..10u16 {
        let r = Register::from_u16(raw).unwrap();
        assert_eq!(regs.read(r), 0);
    }
}

#[test]
fn test_register_write_then_read_round_trip() {
    let mut regs = Registers::new();
    let names = [
        Register::R0,
        Register::R1,
        Register::R2,
        Register::R3,
        Register::R4,
        Register::R5,
        Register::R6,
        Register::R7,
        Register::PC,
        Register::COND,
    ];
    for (i, r) in names.iter().enumerate() {
        let w = 0x1000 + i as u16 * 3;
        regs.write(*r, w);
        assert_eq!(regs.read(*r), w);
    }
    // earlier writes survive later ones to other registers
    assert_eq!(regs.read(Register::R0), 0x1000);
    assert_eq!(regs.read(Register::PC), 0x1018);
}

#[test]
fn test_update_flags_zero() {
    let mut regs = Registers::new();
    regs.write(Register::R3, 0);
    regs.update_flags(Register::R3);
    assert_eq!(regs.read(Register::COND), 0x2);
}

#[test]
fn test_update_flags_negative() {
    let mut regs = Registers::new();
    regs.write(Register::R3, 0x8000);
    regs.update_flags(Register::R3);
    assert_eq!(regs.read(Register::COND), 0x4);
    regs.write(Register::R4, 0xFFFF);
    regs.update_flags(Register::R4);
    assert_eq!(regs.read(Register::COND), 0x4);
}

#[test]
fn test_update_flags_positive() {
    let mut regs = Registers::new();
    regs.write(Register::R3, 5);
    regs.update_flags(Register::R3);
    assert_eq!(regs.read(Register::COND), 0x1);
    regs.write(Register::R4, 0x7FFF);
    regs.update_flags(Register::R4);
    assert_eq!(regs.read(Register::COND), 0x1);
}

#[test]
fn test_memory_write_then_read() {
    let mut mem = Memory::new();
    mem.write(0x3000, 0xBEEF);
    mem.write(0x0000, 7);
    mem.write(0xFFFF, 9);
    assert_eq!(mem.read(0x3000, None), 0xBEEF);
    assert_eq!(mem.read(0x0000, None), 7);
    assert_eq!(mem.read(0xFFFF, None), 9);
}

#[test]
fn test_memory_read_of_plain_address_never_mutates() {
    let mut mem = Memory::new();
    mem.write(0x1234, 42);
    mem.write(KBDR, 0x55);
    // reads of ordinary addresses, with and without a pending key
    assert_eq!(mem.read(0x1234, None), 42);
    assert_eq!(mem.read(0x1234, Some(0x7F)), 42);
    assert_eq!(mem.read(KBDR, Some(0x7F)), 0x55);
    // nothing changed anywhere
    assert_eq!(mem.read(0x1234, None), 42);
    assert_eq!(mem.read(KBDR, None), 0x55);
}

#[test]
fn test_kbsr_read_without_pending_key() {
    let mut mem = Memory::new();
    mem.write(KBSR, 0xAAAA);
    mem.write(KBDR, 0x33);
    // no key pending: the status slot is cleared and returned as 0
    assert_eq!(mem.read(KBSR, None), 0);
    // the data register is untouched
    assert_eq!(mem.read(KBDR, None), 0x33);
}

#[test]
fn test_kbsr_read_with_pending_key() {
    let mut mem = Memory::new();
    // key pending: status gets its high bit, the key lands in the data slot
    assert_eq!(mem.read(KBSR, Some(0x61)), 0x8000);
    assert_eq!(mem.read(KBDR, None), 0x61);
}
