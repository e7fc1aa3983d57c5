use chip8_core::emu::Emu;
use chip8_core::state::EmuError;

fn machine(program: &[u8]) -> Emu {
    let mut emu = Emu::new();
    assert_eq!(emu.load(program), Ok(()));
    emu
}

fn run(emu: &mut Emu, steps: usize) {
    for _ in 0..steps {
        assert_eq!(emu.tick_with(0), Ok(()));
    }
}

#[test]
fn new_machine_starts_at_512_with_font() {
    let emu = Emu::new();
    assert_eq!(emu.pc(), 0x200);
    assert_eq!(emu.stack_pointer(), 0);
    assert_eq!(emu.index(), 0);
    let zero = [0xF0, 0x90, 0x90, 0x90, 0xF0];
    for (k, b) in zero.iter().enumerate() {
        assert_eq!(emu.memory(k), *b);
    }
    assert_eq!(emu.memory(79), 0x80);
    assert_eq!(emu.memory(80), 0);
    assert_eq!(emu.get_display().len(), 64 * 32);
    assert!(emu.get_display().iter().all(|c| !*c));
}

#[test]
fn load_copies_program_at_start() {
    let emu = machine(&[0x12, 0x34, 0x56]);
    assert_eq!(emu.memory(0x200), 0x12);
    assert_eq!(emu.memory(0x201), 0x34);
    assert_eq!(emu.memory(0x202), 0x56);
    assert_eq!(emu.memory(0x203), 0);
}

#[test]
fn load_rejects_oversized_program_untouched() {
    let mut emu = Emu::new();
    let big = vec![0xAAu8; 3585];
    assert_eq!(emu.load(&big), Err(EmuError::ProgramTooLarge));
    assert_eq!(emu.memory(0x200), 0);
    let full = vec![0xBBu8; 3584];
    assert_eq!(emu.load(&full), Ok(()));
    assert_eq!(emu.memory(4095), 0xBB);
}

#[test]
fn set_register_reads_back() {
    let mut emu = machine(&[0x6A, 0x42, 0x60, 0xFF]);
    run(&mut emu, 2);
    assert_eq!(emu.register(10), 0x42);
    assert_eq!(emu.register(0), 0xFF);
    assert_eq!(emu.pc(), 0x204);
}

#[test]
fn add_immediate_wraps_without_flag() {
    let mut emu = machine(&[0x60, 0xF0, 0x6F, 0x07, 0x70, 0x20]);
    run(&mut emu, 3);
    assert_eq!(emu.register(0), 0x10);
    assert_eq!(emu.register(15), 0x07);
}

#[test]
fn logic_ops() {
    let mut emu = machine(&[
        0x60, 0b1100, 0x61, 0b1010, 0x82, 0x00, 0x82, 0x11, 0x83, 0x00, 0x83, 0x12, 0x84, 0x00,
        0x84, 0x13, 0x85, 0x10,
    ]);
    run(&mut emu, 9);
    assert_eq!(emu.register(2), 0b1110);
    assert_eq!(emu.register(3), 0b1000);
    assert_eq!(emu.register(4), 0b0110);
    assert_eq!(emu.register(5), 0b1010);
}

#[test]
fn add_registers_sets_carry() {
    let mut emu = machine(&[0x60, 0xFF, 0x61, 0x02, 0x80, 0x14, 0x62, 0x03, 0x82, 0x14]);
    run(&mut emu, 3);
    assert_eq!(emu.register(0), 0x01);
    assert_eq!(emu.register(15), 1);
    run(&mut emu, 2);
    assert_eq!(emu.register(2), 0x05);
    assert_eq!(emu.register(15), 0);
}

#[test]
fn subtract_sets_inverted_borrow() {
    let mut emu = machine(&[0x60, 0x01, 0x61, 0x02, 0x80, 0x15]);
    run(&mut emu, 3);
    assert_eq!(emu.register(0), 0xFF);
    assert_eq!(emu.register(15), 0);
    let mut emu = machine(&[0x60, 0x05, 0x61, 0x02, 0x80, 0x15]);
    run(&mut emu, 3);
    assert_eq!(emu.register(0), 0x03);
    assert_eq!(emu.register(15), 1);
}

#[test]
fn reverse_subtract_sets_inverted_borrow() {
    let mut emu = machine(&[0x60, 0x05, 0x61, 0x02, 0x80, 0x17]);
    run(&mut emu, 3);
    assert_eq!(emu.register(0), 0xFD);
    assert_eq!(emu.register(15), 0);
    let mut emu = machine(&[0x60, 0x02, 0x61, 0x05, 0x80, 0x17]);
    run(&mut emu, 3);
    assert_eq!(emu.register(0), 0x03);
    assert_eq!(emu.register(15), 1);
}

#[test]
fn shifts_set_shifted_out_bit() {
    let mut emu = machine(&[0x60, 0x81, 0x80, 0x06, 0x61, 0x81, 0x81, 0x0E]);
    run(&mut emu, 2);
    assert_eq!(emu.register(0), 0x40);
    assert_eq!(emu.register(15), 1);
    run(&mut emu, 2);
    assert_eq!(emu.register(1), 0x02);
    assert_eq!(emu.register(15), 1);
}

#[test]
fn flag_register_as_operand_keeps_flag() {
    // VF := 0xFF, V1 := 1, VF += V1: the sum wraps to 0 but the flag wins.
    let mut emu = machine(&[0x6F, 0xFF, 0x61, 0x01, 0x8F, 0x14]);
    run(&mut emu, 3);
    assert_eq!(emu.register(15), 1);
    // VF := 3, VF >>= 1: the flag holds the bit shifted out.
    let mut emu = machine(&[0x6F, 0x02, 0x8F, 0x06]);
    run(&mut emu, 2);
    assert_eq!(emu.register(15), 0);
}

#[test]
fn clear_blanks_display() {
    let mut emu = machine(&[0xA0, 0x00, 0xD0, 0x05, 0x00, 0xE0]);
    run(&mut emu, 2);
    assert!(emu.get_display().iter().any(|c| *c));
    run(&mut emu, 1);
    assert_eq!(emu.get_display().len(), 2048);
    assert!(emu.get_display().iter().all(|c| !*c));
}

#[test]
fn call_then_return_restores_pc_and_sp() {
    let mut program = vec![0u8; 0x102];
    program[0] = 0x23;
    program[1] = 0x00;
    program[0x100] = 0x00;
    program[0x101] = 0xEE;
    let mut emu = machine(&program);
    run(&mut emu, 1);
    assert_eq!(emu.pc(), 0x300);
    assert_eq!(emu.stack_pointer(), 1);
    run(&mut emu, 1);
    assert_eq!(emu.pc(), 0x202);
    assert_eq!(emu.stack_pointer(), 0);
}

#[test]
fn seventeenth_call_overflows() {
    let mut emu = machine(&[0x22, 0x00]);
    run(&mut emu, 16);
    assert_eq!(emu.stack_pointer(), 16);
    assert_eq!(emu.tick_with(0), Err(EmuError::StackOverflow));
    assert_eq!(emu.stack_pointer(), 16);
}

#[test]
fn return_on_empty_stack_underflows() {
    let mut emu = machine(&[0x00, 0xEE]);
    assert_eq!(emu.tick_with(0), Err(EmuError::StackUnderflow));
    assert_eq!(emu.stack_pointer(), 0);
}

#[test]
fn draw_twice_detects_collision_and_restores() {
    let mut emu = machine(&[0xA0, 0x00, 0xD0, 0x05, 0xD0, 0x05]);
    run(&mut emu, 2);
    assert_eq!(emu.register(15), 0);
    let d = emu.get_display();
    assert!(d[0] && d[1] && d[2] && d[3] && !d[4]);
    assert!(d[64] && !d[65] && !d[66] && d[67]);
    run(&mut emu, 1);
    assert_eq!(emu.register(15), 1);
    assert!(emu.get_display().iter().all(|c| !*c));
}

#[test]
fn draw_onto_set_pixel_collides() {
    // glyph 1 (0x20 in its first row) then glyph 0 (0xF0) overlap at column 2
    let mut emu = machine(&[0xA0, 0x05, 0xD0, 0x01, 0xA0, 0x00, 0xD0, 0x01]);
    run(&mut emu, 2);
    assert_eq!(emu.register(15), 0);
    run(&mut emu, 2);
    assert_eq!(emu.register(15), 1);
    let d = emu.get_display();
    assert!(d[0] && d[1] && !d[2] && d[3]);
}

#[test]
fn draw_wraps_right_edge() {
    // V0 := 63, V1 := 31, I := 0x300 holding 0xFF, draw 2 rows.
    let mut program = vec![0x60, 0x3F, 0x61, 0x1F, 0xA3, 0x00, 0xD0, 0x12];
    program.resize(0x102, 0);
    program[0x100] = 0xFF;
    program[0x101] = 0x80;
    let mut emu = machine(&program);
    run(&mut emu, 4);
    let d = emu.get_display();
    assert!(d[31 * 64 + 63]);
    for x in 0..7 {
        assert!(d[31 * 64 + x]);
    }
    assert!(!d[31 * 64 + 7]);
    // second row wraps to the top
    assert!(d[63]);
    assert!(!d[0]);
    assert_eq!(d.iter().filter(|c| **c).count(), 9);
}

#[test]
fn draw_past_memory_end_is_refused() {
    let mut emu = machine(&[0xAF, 0xFE, 0xD0, 0x05]);
    run(&mut emu, 1);
    assert_eq!(emu.tick_with(0), Err(EmuError::OutOfBounds));
    assert!(emu.get_display().iter().all(|c| !*c));
}

#[test]
fn bcd_of_157() {
    let mut emu = machine(&[0x60, 157, 0xA3, 0x00, 0xF0, 0x33]);
    run(&mut emu, 3);
    assert_eq!(emu.memory(0x300), 1);
    assert_eq!(emu.memory(0x301), 5);
    assert_eq!(emu.memory(0x302), 7);
}

#[test]
fn bcd_past_memory_end_is_refused() {
    let mut emu = machine(&[0xAF, 0xFE, 0xF0, 0x33]);
    run(&mut emu, 1);
    assert_eq!(emu.tick_with(0), Err(EmuError::OutOfBounds));
}

#[test]
fn sound_timer_beeps_once_on_expiry() {
    let mut emu = machine(&[0x60, 0x01, 0xF0, 0x18]);
    run(&mut emu, 2);
    assert_eq!(emu.sound_timer(), 1);
    assert!(emu.tick_timers());
    assert_eq!(emu.sound_timer(), 0);
    assert!(!emu.tick_timers());
    assert_eq!(emu.sound_timer(), 0);
}

#[test]
fn delay_timer_counts_down_and_reads_back() {
    let mut emu = machine(&[0x60, 0x03, 0xF0, 0x15, 0xF1, 0x07]);
    run(&mut emu, 2);
    assert!(!emu.tick_timers());
    assert_eq!(emu.delay_timer(), 2);
    run(&mut emu, 1);
    assert_eq!(emu.register(1), 2);
}

#[test]
fn key_wait_polls_until_pressed() {
    let mut emu = machine(&[0xF3, 0x0A]);
    for _ in 0..3 {
        run(&mut emu, 1);
        assert_eq!(emu.pc(), 0x200);
        assert_eq!(emu.register(3), 0);
    }
    emu.keypress(5, true);
    emu.keypress(9, true);
    run(&mut emu, 1);
    assert_eq!(emu.register(3), 5);
    assert_eq!(emu.pc(), 0x202);
}

#[test]
fn key_skips() {
    let mut emu = machine(&[0x60, 0x04, 0xE0, 0x9E, 0xE0, 0xA1]);
    emu.keypress(4, true);
    run(&mut emu, 2);
    assert_eq!(emu.pc(), 0x206);
    emu.keypress(4, false);
    let mut emu2 = machine(&[0x60, 0x04, 0xE0, 0x9E, 0xE0, 0xA1]);
    run(&mut emu2, 3);
    assert_eq!(emu2.pc(), 0x208);
}

#[test]
fn key_skip_with_out_of_range_key_is_refused() {
    let mut emu = machine(&[0x60, 0x10, 0xE0, 0x9E]);
    run(&mut emu, 1);
    assert_eq!(emu.tick_with(0), Err(EmuError::OutOfBounds));
}

#[test]
fn font_address_of_digit_a() {
    let mut emu = machine(&[0x6A, 0x0A, 0xFA, 0x29]);
    run(&mut emu, 2);
    assert_eq!(emu.index(), 50);
    let glyph = [0xF0, 0x90, 0xF0, 0x90, 0x90];
    for (k, b) in glyph.iter().enumerate() {
        assert_eq!(emu.memory(50 + k), *b);
    }
}

#[test]
fn store_clear_load_round_trip() {
    let mut program = vec![];
    for r in 0..6u8 {
        program.extend_from_slice(&[0x60 | r, 10 + r * 7]);
    }
    program.extend_from_slice(&[0xA4, 0x00, 0xF5, 0x55]);
    for r in 0..6u8 {
        program.extend_from_slice(&[0x60 | r, 0]);
    }
    program.extend_from_slice(&[0xF5, 0x65]);
    let mut emu = machine(&program);
    run(&mut emu, 8);
    assert_eq!(emu.memory(0x400), 10);
    assert_eq!(emu.memory(0x405), 45);
    assert_eq!(emu.memory(0x406), 0);
    run(&mut emu, 6);
    assert_eq!(emu.register(2), 0);
    run(&mut emu, 1);
    for r in 0..6u8 {
        assert_eq!(emu.register(r as usize), 10 + r * 7);
    }
    assert_eq!(emu.index(), 0x400);
}

#[test]
fn index_add_and_jump_with_offset() {
    let mut emu = machine(&[0x60, 0x10, 0xA1, 0x00, 0xF0, 0x1E, 0xB3, 0x00]);
    run(&mut emu, 3);
    assert_eq!(emu.index(), 0x110);
    run(&mut emu, 1);
    assert_eq!(emu.pc(), 0x310);
}

#[test]
fn jump_sets_pc() {
    let mut emu = machine(&[0x1A, 0xBC]);
    run(&mut emu, 1);
    assert_eq!(emu.pc(), 0xABC);
}

#[test]
fn skip_instructions() {
    let mut emu = machine(&[0x60, 0x07, 0x30, 0x07]);
    run(&mut emu, 2);
    assert_eq!(emu.pc(), 0x206);
    let mut emu = machine(&[0x60, 0x07, 0x40, 0x07]);
    run(&mut emu, 2);
    assert_eq!(emu.pc(), 0x204);
    let mut emu = machine(&[0x60, 0x07, 0x61, 0x07, 0x50, 0x10]);
    run(&mut emu, 3);
    assert_eq!(emu.pc(), 0x208);
    let mut emu = machine(&[0x60, 0x07, 0x61, 0x07, 0x90, 0x10]);
    run(&mut emu, 3);
    assert_eq!(emu.pc(), 0x206);
}

#[test]
fn random_byte_is_masked() {
    let mut emu = machine(&[0xC0, 0x0F]);
    assert_eq!(emu.tick_with(0xAB), Ok(()));
    assert_eq!(emu.register(0), 0x0B);
    let mut emu = machine(&[0xC0, 0x00, 0xC1, 0x0F]);
    assert_eq!(emu.tick(), Ok(()));
    assert_eq!(emu.register(0), 0);
    assert_eq!(emu.tick(), Ok(()));
    assert!(emu.register(1) <= 0x0F);
}

#[test]
fn unsupported_instructions_are_reported() {
    let mut emu = machine(&[0x01, 0x23]);
    assert_eq!(emu.tick_with(0), Err(EmuError::UnsupportedInstruction(0x0123)));
    let mut emu = machine(&[0x51, 0x21]);
    assert_eq!(emu.tick_with(0), Err(EmuError::UnsupportedInstruction(0x5121)));
    let mut emu = machine(&[0x81, 0x28]);
    assert_eq!(emu.tick_with(0), Err(EmuError::UnsupportedInstruction(0x8128)));
    let mut emu = machine(&[0xF1, 0x99]);
    assert_eq!(emu.tick(), Err(EmuError::UnsupportedInstruction(0xF199)));
}

#[test]
fn fetch_past_memory_end_is_refused() {
    let mut emu = machine(&[0x1F, 0xFF]);
    run(&mut emu, 1);
    assert_eq!(emu.tick(), Err(EmuError::OutOfBounds));
    assert_eq!(emu.pc(), 0xFFF);
}

#[test]
fn nop_only_advances() {
    let mut emu = machine(&[0x00, 0x00]);
    run(&mut emu, 1);
    assert_eq!(emu.pc(), 0x202);
}
