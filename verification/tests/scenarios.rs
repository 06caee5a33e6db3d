//! Drawing, blocking input, and whole-program scenarios.

use chip8::cpu::{load_rom, StepOutcome, CPU};

fn boot(rom: &[u8]) -> CPU {
    let mut cpu = CPU::new();
    assert!(load_rom(&mut cpu, &rom.to_vec()));
    cpu
}

#[test]
fn draw_glyph_sets_pixels_without_collision() {
    // I := glyph 0 (address 0), draw 5 rows at (V0, V1) = (0, 0)
    let mut cpu = boot(&[0xA0, 0x00, 0xD0, 0x15]);
    cpu.step_with(0).unwrap();
    cpu.step_with(0).unwrap();
    // glyph 0's top row is 0xF0: columns 0..4 set, 4..8 clear
    assert_eq!(&cpu.graphics[0..8], &[1, 1, 1, 1, 0, 0, 0, 0]);
    // second row is 0x90
    assert_eq!(&cpu.graphics[64..72], &[1, 0, 0, 1, 0, 0, 0, 0]);
    assert_eq!(cpu.registers[0xF], 0);
}

#[test]
fn draw_twice_restores_display_and_reports_collision() {
    // draw glyph 0 at (0,0) twice
    let mut cpu = boot(&[0xA0, 0x00, 0xD0, 0x15, 0xD0, 0x15]);
    cpu.step_with(0).unwrap();
    cpu.step_with(0).unwrap();
    let after_first: Vec<u8> = cpu.graphics.clone();
    assert!(after_first.iter().any(|&v| v == 1));
    cpu.step_with(0).unwrap();
    // XOR is self-inverse: the display is back to all-clear...
    assert!(cpu.graphics.iter().all(|&v| v == 0));
    // ...and the second draw collided, since the first set clear pixels
    assert_eq!(cpu.registers[0xF], 1);
}

#[test]
fn draw_wraps_columns_modulo_width() {
    // a one-row sprite of 0xFF drawn at x = 60 wraps into columns 0..4
    let mut cpu = boot(&[0x60, 60, 0xA3, 0x00, 0xD0, 0x11]);
    cpu.memory[0x300] = 0xFF;
    cpu.step_with(0).unwrap();
    cpu.step_with(0).unwrap();
    cpu.step_with(0).unwrap();
    for col in [60usize, 61, 62, 63, 0, 1, 2, 3] {
        assert_eq!(cpu.graphics[col], 1, "column {col}");
    }
    for col in 4..60 {
        assert_eq!(cpu.graphics[col], 0, "column {col}");
    }
    assert_eq!(cpu.registers[0xF], 0);
}

#[test]
fn draw_wraps_rows_modulo_height() {
    // a one-row sprite drawn at y = 31 with height 2 wraps to row 0
    let mut cpu = boot(&[0x61, 31, 0xA3, 0x00, 0xD0, 0x12]);
    cpu.memory[0x300] = 0x80;
    cpu.memory[0x301] = 0x80;
    cpu.step_with(0).unwrap();
    cpu.step_with(0).unwrap();
    cpu.step_with(0).unwrap();
    assert_eq!(cpu.graphics[31 * 64], 1);
    assert_eq!(cpu.graphics[0], 1);
    assert_eq!(cpu.registers[0xF], 0);
}

#[test]
fn wait_key_blocks_until_press() {
    // wait for a key into V5
    let mut cpu = boot(&[0xF5, 0x0A]);
    assert_eq!(cpu.step_with(0), Ok(StepOutcome::AwaitingKey));
    assert!(cpu.awaiting_key());
    assert_eq!(cpu.pc, 0x200);
    // repeated steps with no key change nothing
    for _ in 0..3 {
        assert_eq!(cpu.step_with(0), Ok(StepOutcome::AwaitingKey));
        assert_eq!(cpu.pc, 0x200);
        assert!(cpu.registers.iter().all(|&v| v == 0));
    }
    // the instant a key is pressed, the next step stores it and advances
    cpu.set_key(9, true);
    assert_eq!(cpu.step_with(0), Ok(StepOutcome::Executed));
    assert_eq!(cpu.registers[5], 9);
    assert_eq!(cpu.pc, 0x202);
    assert!(!cpu.awaiting_key());
}

#[test]
fn wait_key_takes_lowest_pressed() {
    let mut cpu = boot(&[0xF5, 0x0A]);
    assert_eq!(cpu.step_with(0), Ok(StepOutcome::AwaitingKey));
    cpu.set_key(9, true);
    cpu.set_key(4, true);
    cpu.step_with(0).unwrap();
    assert_eq!(cpu.registers[5], 4);
}

#[test]
fn wait_key_with_key_already_down_does_not_block() {
    let mut cpu = boot(&[0xF5, 0x0A]);
    cpu.set_key(7, true);
    assert_eq!(cpu.step_with(0), Ok(StepOutcome::Executed));
    assert_eq!(cpu.registers[5], 7);
    assert_eq!(cpu.pc, 0x202);
    assert!(!cpu.awaiting_key());
}

#[test]
fn end_to_end_set_add_and_step() {
    // V0 := 5; V0 += 3; a word with no defined meaning
    let mut cpu = boot(&[0x60, 0x05, 0x70, 0x03, 0x00, 0x00]);
    assert_eq!(cpu.emulate_cycle(), Ok(StepOutcome::Executed));
    assert_eq!(cpu.emulate_cycle(), Ok(StepOutcome::Executed));
    assert_eq!(cpu.emulate_cycle(), Ok(StepOutcome::UnknownOpcode));
    assert_eq!(cpu.registers[0], 8);
    assert!(cpu.graphics.iter().all(|&v| v == 0));
    assert_eq!(cpu.pc, 0x206);
}

#[test]
fn emulate_cycle_random_byte_is_masked() {
    // whatever byte the source yields, V0 := byte & 0x0F
    let mut cpu = boot(&[0xC0, 0x0F]);
    assert_eq!(cpu.emulate_cycle(), Ok(StepOutcome::Executed));
    assert!(cpu.registers[0] <= 0x0F);
    assert_eq!(cpu.pc, 0x202);
}
