//! One test per instruction group: exact register, memory, display and
//! program-counter effects.

use chip8::cpu::{load_rom, Fault, StepOutcome, CPU};

fn boot(rom: &[u8]) -> CPU {
    let mut cpu = CPU::new();
    assert!(load_rom(&mut cpu, &rom.to_vec()));
    cpu
}

#[test]
fn clear_screen_zeroes_display() {
    let mut cpu = boot(&[0x00, 0xE0]);
    cpu.graphics[5] = 1;
    cpu.graphics[2000] = 1;
    assert_eq!(cpu.step_with(0), Ok(StepOutcome::Executed));
    assert!(cpu.graphics.iter().all(|&v| v == 0));
    assert_eq!(cpu.pc, 0x202);
}

#[test]
fn jump_sets_pc() {
    let mut cpu = boot(&[0x1A, 0xBC]);
    assert_eq!(cpu.step_with(0), Ok(StepOutcome::Executed));
    assert_eq!(cpu.pc, 0xABC);
    assert_eq!(cpu.opcode, 0x1ABC);
}

#[test]
fn call_pushes_and_return_pops() {
    let mut cpu = boot(&[0x2A, 0xBC]);
    cpu.memory[0xABC] = 0x00;
    cpu.memory[0xABD] = 0xEE;
    assert_eq!(cpu.step_with(0), Ok(StepOutcome::Executed));
    assert_eq!(cpu.pc, 0xABC);
    assert_eq!(cpu.sp, 1);
    assert_eq!(cpu.stack[0], 0x202);
    assert_eq!(cpu.step_with(0), Ok(StepOutcome::Executed));
    // back to just past the call
    assert_eq!(cpu.pc, 0x202);
    assert_eq!(cpu.sp, 0);
}

#[test]
fn seventeenth_call_overflows_stack() {
    // the instruction at 0x200 calls 0x200 again, forever
    let mut cpu = boot(&[0x22, 0x00]);
    for depth in 1..=16 {
        assert_eq!(cpu.step_with(0), Ok(StepOutcome::Executed));
        assert_eq!(cpu.sp, depth);
        assert_eq!(cpu.pc, 0x200);
    }
    assert_eq!(cpu.step_with(0), Err(Fault::StackOverflow));
    // the fault leaves the machine unchanged
    assert_eq!(cpu.sp, 16);
    assert_eq!(cpu.pc, 0x200);
}

#[test]
fn return_without_call_underflows_stack() {
    let mut cpu = boot(&[0x00, 0xEE]);
    assert_eq!(cpu.step_with(0), Err(Fault::StackUnderflow));
    assert_eq!(cpu.pc, 0x200);
    assert_eq!(cpu.sp, 0);
}

#[test]
fn skip_if_equal_immediate() {
    // V0 := 5; skip if V0 == 5 (taken)
    let mut cpu = boot(&[0x60, 0x05, 0x30, 0x05]);
    cpu.step_with(0).unwrap();
    cpu.step_with(0).unwrap();
    assert_eq!(cpu.pc, 0x206);
    // V0 := 5; skip if V0 == 6 (not taken)
    let mut cpu = boot(&[0x60, 0x05, 0x30, 0x06]);
    cpu.step_with(0).unwrap();
    cpu.step_with(0).unwrap();
    assert_eq!(cpu.pc, 0x204);
}

#[test]
fn skip_if_not_equal_immediate() {
    let mut cpu = boot(&[0x60, 0x05, 0x40, 0x06]);
    cpu.step_with(0).unwrap();
    cpu.step_with(0).unwrap();
    assert_eq!(cpu.pc, 0x206);
    let mut cpu = boot(&[0x60, 0x05, 0x40, 0x05]);
    cpu.step_with(0).unwrap();
    cpu.step_with(0).unwrap();
    assert_eq!(cpu.pc, 0x204);
}

#[test]
fn skip_if_registers_equal_and_not_equal() {
    // V0 := 7, V1 := 7, skip if V0 == V1 (taken)
    let mut cpu = boot(&[0x60, 0x07, 0x61, 0x07, 0x50, 0x10]);
    cpu.step_with(0).unwrap();
    cpu.step_with(0).unwrap();
    cpu.step_with(0).unwrap();
    assert_eq!(cpu.pc, 0x208);
    // V0 := 7, V1 := 8, skip if V0 != V1 (taken)
    let mut cpu = boot(&[0x60, 0x07, 0x61, 0x08, 0x90, 0x10]);
    cpu.step_with(0).unwrap();
    cpu.step_with(0).unwrap();
    cpu.step_with(0).unwrap();
    assert_eq!(cpu.pc, 0x208);
    // V0 := 7, V1 := 7, skip if V0 != V1 (not taken)
    let mut cpu = boot(&[0x60, 0x07, 0x61, 0x07, 0x90, 0x10]);
    cpu.step_with(0).unwrap();
    cpu.step_with(0).unwrap();
    cpu.step_with(0).unwrap();
    assert_eq!(cpu.pc, 0x206);
}

#[test]
fn load_and_add_immediate_wraps_without_flag() {
    let mut cpu = boot(&[0x60, 0xFF, 0x70, 0x03]);
    cpu.step_with(0).unwrap();
    assert_eq!(cpu.registers[0], 0xFF);
    cpu.step_with(0).unwrap();
    // 0xFF + 3 wraps to 2; VF is untouched
    assert_eq!(cpu.registers[0], 2);
    assert_eq!(cpu.registers[0xF], 0);
}

#[test]
fn alu_assign_or_and_xor() {
    // V0 := 0xC3, V1 := 0xA5
    let mut cpu = boot(&[0x60, 0xC3, 0x61, 0xA5, 0x80, 0x11]);
    cpu.step_with(0).unwrap();
    cpu.step_with(0).unwrap();
    cpu.step_with(0).unwrap();
    assert_eq!(cpu.registers[0], 0xC3 | 0xA5);

    let mut cpu = boot(&[0x60, 0xC3, 0x61, 0xA5, 0x80, 0x12]);
    cpu.step_with(0).unwrap();
    cpu.step_with(0).unwrap();
    cpu.step_with(0).unwrap();
    assert_eq!(cpu.registers[0], 0xC3 & 0xA5);

    let mut cpu = boot(&[0x60, 0xC3, 0x61, 0xA5, 0x80, 0x13]);
    cpu.step_with(0).unwrap();
    cpu.step_with(0).unwrap();
    cpu.step_with(0).unwrap();
    assert_eq!(cpu.registers[0], 0xC3 ^ 0xA5);

    let mut cpu = boot(&[0x60, 0xC3, 0x61, 0xA5, 0x80, 0x10]);
    cpu.step_with(0).unwrap();
    cpu.step_with(0).unwrap();
    cpu.step_with(0).unwrap();
    assert_eq!(cpu.registers[0], 0xA5);
}

#[test]
fn alu_add_with_carry() {
    // 200 + 100 = 300: stores 44, carry 1
    let mut cpu = boot(&[0x60, 200, 0x61, 100, 0x80, 0x14]);
    cpu.step_with(0).unwrap();
    cpu.step_with(0).unwrap();
    cpu.step_with(0).unwrap();
    assert_eq!(cpu.registers[0], 44);
    assert_eq!(cpu.registers[0xF], 1);
    // 20 + 30 = 50: no carry
    let mut cpu = boot(&[0x60, 20, 0x61, 30, 0x80, 0x14]);
    cpu.step_with(0).unwrap();
    cpu.step_with(0).unwrap();
    cpu.step_with(0).unwrap();
    assert_eq!(cpu.registers[0], 50);
    assert_eq!(cpu.registers[0xF], 0);
}

#[test]
fn alu_sub_with_borrow() {
    // 100 - 30: no borrow, flag 1
    let mut cpu = boot(&[0x60, 100, 0x61, 30, 0x80, 0x15]);
    cpu.step_with(0).unwrap();
    cpu.step_with(0).unwrap();
    cpu.step_with(0).unwrap();
    assert_eq!(cpu.registers[0], 70);
    assert_eq!(cpu.registers[0xF], 1);
    // 30 - 100 wraps: borrow, flag 0
    let mut cpu = boot(&[0x60, 30, 0x61, 100, 0x80, 0x15]);
    cpu.step_with(0).unwrap();
    cpu.step_with(0).unwrap();
    cpu.step_with(0).unwrap();
    assert_eq!(cpu.registers[0], 186);
    assert_eq!(cpu.registers[0xF], 0);
}

#[test]
fn alu_sub_reverse() {
    // V0 := V1 - V0 = 100 - 30: flag 1
    let mut cpu = boot(&[0x60, 30, 0x61, 100, 0x80, 0x17]);
    cpu.step_with(0).unwrap();
    cpu.step_with(0).unwrap();
    cpu.step_with(0).unwrap();
    assert_eq!(cpu.registers[0], 70);
    assert_eq!(cpu.registers[0xF], 1);
    // V0 := V1 - V0 = 30 - 100 wraps: flag 0
    let mut cpu = boot(&[0x60, 100, 0x61, 30, 0x80, 0x17]);
    cpu.step_with(0).unwrap();
    cpu.step_with(0).unwrap();
    cpu.step_with(0).unwrap();
    assert_eq!(cpu.registers[0], 186);
    assert_eq!(cpu.registers[0xF], 0);
}

#[test]
fn alu_shifts_store_shifted_bit() {
    // 0x81 >> 1 = 0x40, shifted-out bit 1
    let mut cpu = boot(&[0x60, 0x81, 0x80, 0x16]);
    cpu.step_with(0).unwrap();
    cpu.step_with(0).unwrap();
    assert_eq!(cpu.registers[0], 0x40);
    assert_eq!(cpu.registers[0xF], 1);
    // 0x81 << 1 = 0x02, shifted-out bit 1
    let mut cpu = boot(&[0x60, 0x81, 0x80, 0x1E]);
    cpu.step_with(0).unwrap();
    cpu.step_with(0).unwrap();
    assert_eq!(cpu.registers[0], 0x02);
    assert_eq!(cpu.registers[0xF], 1);
    // 0x40 << 1 = 0x80, shifted-out bit 0
    let mut cpu = boot(&[0x60, 0x40, 0x80, 0x1E]);
    cpu.step_with(0).unwrap();
    cpu.step_with(0).unwrap();
    assert_eq!(cpu.registers[0], 0x80);
    assert_eq!(cpu.registers[0xF], 0);
}

#[test]
fn alu_shift_quirk_reads_source_register() {
    // with the quirk on, 8XY6 shifts Vy into Vx
    let mut cpu = boot(&[0x61, 0x81, 0x80, 0x16]);
    cpu.set_shift_quirk(true);
    cpu.step_with(0).unwrap();
    cpu.step_with(0).unwrap();
    assert_eq!(cpu.registers[0], 0x40);
    assert_eq!(cpu.registers[0xF], 1);
    // with the quirk off (the default), Vx is shifted in place
    let mut cpu = boot(&[0x61, 0x81, 0x80, 0x16]);
    cpu.step_with(0).unwrap();
    cpu.step_with(0).unwrap();
    assert_eq!(cpu.registers[0], 0);
    assert_eq!(cpu.registers[0xF], 0);
}

#[test]
fn alu_flag_register_as_destination_keeps_flag_write_last() {
    // VF := VF + V1 with carry: the carry overwrites the stored sum
    let mut cpu = boot(&[0x6F, 200, 0x61, 100, 0x8F, 0x14]);
    cpu.step_with(0).unwrap();
    cpu.step_with(0).unwrap();
    cpu.step_with(0).unwrap();
    assert_eq!(cpu.registers[0xF], 1);
}

#[test]
fn set_index() {
    let mut cpu = boot(&[0xA1, 0x23]);
    cpu.step_with(0).unwrap();
    assert_eq!(cpu.index, 0x123);
}

#[test]
fn jump_with_offset() {
    let mut cpu = boot(&[0x60, 0x05, 0xB1, 0x00]);
    cpu.step_with(0).unwrap();
    cpu.step_with(0).unwrap();
    assert_eq!(cpu.pc, 0x105);
}

#[test]
fn random_and_masks_supplied_byte() {
    let mut cpu = boot(&[0xC0, 0xF0]);
    assert_eq!(cpu.step_with(0xAB), Ok(StepOutcome::Executed));
    assert_eq!(cpu.registers[0], 0xA0);
    // a zero mask forces zero whatever the byte
    let mut cpu = boot(&[0xC0, 0x00]);
    cpu.step_with(0xFF).unwrap();
    assert_eq!(cpu.registers[0], 0);
}

#[test]
fn skip_if_key_pressed_and_not_pressed() {
    let mut cpu = boot(&[0x60, 0x03, 0xE0, 0x9E]);
    cpu.set_key(3, true);
    cpu.step_with(0).unwrap();
    cpu.step_with(0).unwrap();
    assert_eq!(cpu.pc, 0x206);

    let mut cpu = boot(&[0x60, 0x03, 0xE0, 0x9E]);
    cpu.step_with(0).unwrap();
    cpu.step_with(0).unwrap();
    assert_eq!(cpu.pc, 0x204);

    let mut cpu = boot(&[0x60, 0x03, 0xE0, 0xA1]);
    cpu.step_with(0).unwrap();
    cpu.step_with(0).unwrap();
    assert_eq!(cpu.pc, 0x206);

    let mut cpu = boot(&[0x60, 0x03, 0xE0, 0xA1]);
    cpu.set_key(3, true);
    cpu.step_with(0).unwrap();
    cpu.step_with(0).unwrap();
    assert_eq!(cpu.pc, 0x204);
}

#[test]
fn read_and_set_timers() {
    // V0 := 9; delay := V0; V1 := delay; sound := V0
    let mut cpu = boot(&[0x60, 0x09, 0xF0, 0x15, 0xF1, 0x07, 0xF0, 0x18]);
    cpu.step_with(0).unwrap();
    cpu.step_with(0).unwrap();
    assert_eq!(cpu.delay_timer, 9);
    cpu.step_with(0).unwrap();
    assert_eq!(cpu.registers[1], 9);
    cpu.step_with(0).unwrap();
    assert_eq!(cpu.sound_timer, 9);
}

#[test]
fn add_to_index_wraps() {
    let mut cpu = boot(&[0x60, 0x02, 0xF0, 0x1E]);
    cpu.index = 0xFFFF;
    cpu.step_with(0).unwrap();
    cpu.step_with(0).unwrap();
    assert_eq!(cpu.index, 1);
}

#[test]
fn glyph_index_is_five_times_digit() {
    let mut cpu = boot(&[0x60, 0x0A, 0xF0, 0x29]);
    cpu.step_with(0).unwrap();
    cpu.step_with(0).unwrap();
    assert_eq!(cpu.index, 50);
}

#[test]
fn store_bcd_digits() {
    let mut cpu = boot(&[0x60, 234, 0xA3, 0x00, 0xF0, 0x33]);
    cpu.step_with(0).unwrap();
    cpu.step_with(0).unwrap();
    cpu.step_with(0).unwrap();
    assert_eq!(cpu.memory[0x300], 2);
    assert_eq!(cpu.memory[0x301], 3);
    assert_eq!(cpu.memory[0x302], 4);
}

#[test]
fn register_dump_and_load_round_trip() {
    // V0..V3 := 10,20,30,40; I := 0x300; dump V0..V3
    let mut cpu = boot(&[
        0x60, 10, 0x61, 20, 0x62, 30, 0x63, 40, 0xA3, 0x00, 0xF3, 0x55,
    ]);
    for _ in 0..6 {
        cpu.step_with(0).unwrap();
    }
    assert_eq!(&cpu.memory[0x300..0x304], &[10, 20, 30, 40]);
    assert_eq!(cpu.memory[0x304], 0);

    // wipe the registers, then load V0..V3 back
    let mut cpu2 = boot(&[0xA3, 0x00, 0xF3, 0x65]);
    cpu2.memory[0x300..0x304].copy_from_slice(&[10, 20, 30, 40]);
    cpu2.step_with(0).unwrap();
    cpu2.step_with(0).unwrap();
    assert_eq!(&cpu2.registers[0..4], &[10, 20, 30, 40]);
    assert_eq!(cpu2.registers[4], 0);
}

#[test]
fn unknown_opcodes_advance_pc_only() {
    for rom in [[0x01u8, 0x23], [0x80, 0x08], [0xE0, 0xFF], [0xF0, 0xFF], [0x00, 0x00]] {
        let mut cpu = boot(&rom);
        let regs = cpu.registers.clone();
        assert_eq!(cpu.step_with(0), Ok(StepOutcome::UnknownOpcode));
        assert_eq!(cpu.pc, 0x202);
        assert_eq!(cpu.registers, regs);
        assert_eq!(cpu.sp, 0);
    }
}

#[test]
fn pc_past_memory_faults() {
    let mut cpu = boot(&[0x1F, 0xFF]);
    cpu.step_with(0).unwrap();
    assert_eq!(cpu.pc, 0xFFF);
    assert_eq!(cpu.step_with(0), Err(Fault::PcOutOfBounds));
    assert_eq!(cpu.pc, 0xFFF);
}
