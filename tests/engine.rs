use chippers8::cpu::CPU;
use chippers8::error::EmulatorError;
use chippers8::machine::StepEvent;

const FONT: [u8; 10] = [0xF0, 0x90, 0x90, 0x90, 0xF0, 0x20, 0x60, 0x20, 0x20, 0x70];

fn machine(rom: &[u8]) -> CPU {
    let mut cpu = CPU::new();
    cpu.load_font(&FONT).unwrap();
    cpu.load_rom(rom).unwrap();
    cpu
}

fn run_to_halt(rom: &[u8]) -> CPU {
    let mut cpu = machine(rom);
    assert_eq!(cpu.run(), Ok(StepEvent::Halt(1)));
    cpu
}

#[test]
fn copy_register_takes_prior_value() {
    for x in 0u8..16 {
        for y in 0u8..16 {
            let rom = [0x60 | y, 0x2A, 0x80 | x, y << 4, 0x00, 0x01];
            let cpu = run_to_halt(&rom);
            assert_eq!(cpu.register(x), Ok(0x2A));
        }
    }
}

#[test]
fn add_immediate_wraps_without_flag() {
    let cpu = run_to_halt(&[0x6F, 0x07, 0x62, 250, 0x72, 10, 0x00, 0x01]);
    assert_eq!(cpu.register(2), Ok(4));
    assert_eq!(cpu.register(0xF), Ok(7));
}

#[test]
fn add_registers_sets_carry() {
    let cpu = run_to_halt(&[0x61, 200, 0x62, 100, 0x81, 0x24, 0x00, 0x01]);
    assert_eq!(cpu.register(1), Ok(44));
    assert_eq!(cpu.register(0xF), Ok(1));
    let cpu = run_to_halt(&[0x61, 10, 0x62, 20, 0x81, 0x24, 0x00, 0x01]);
    assert_eq!(cpu.register(1), Ok(30));
    assert_eq!(cpu.register(0xF), Ok(0));
}

#[test]
fn subtract_registers_sets_no_borrow() {
    let cpu = run_to_halt(&[0x61, 50, 0x62, 20, 0x81, 0x25, 0x00, 0x01]);
    assert_eq!(cpu.register(1), Ok(30));
    assert_eq!(cpu.register(0xF), Ok(1));
    let cpu = run_to_halt(&[0x61, 10, 0x62, 20, 0x81, 0x25, 0x00, 0x01]);
    assert_eq!(cpu.register(1), Ok(246));
    assert_eq!(cpu.register(0xF), Ok(0));
}

#[test]
fn reverse_subtract_and_shifts() {
    let cpu = run_to_halt(&[0x61, 10, 0x62, 20, 0x81, 0x27, 0x00, 0x01]);
    assert_eq!(cpu.register(1), Ok(10));
    assert_eq!(cpu.register(0xF), Ok(1));
    let cpu = run_to_halt(&[0x61, 0x05, 0x81, 0x06, 0x00, 0x01]);
    assert_eq!(cpu.register(1), Ok(0x02));
    assert_eq!(cpu.register(0xF), Ok(1));
    let cpu = run_to_halt(&[0x61, 0x81, 0x81, 0x0E, 0x00, 0x01]);
    assert_eq!(cpu.register(1), Ok(0x02));
    assert_eq!(cpu.register(0xF), Ok(1));
}

#[test]
fn logic_operations() {
    let cpu = run_to_halt(&[
        0x61, 0x0C, 0x62, 0x0A, 0x63, 0x0C, 0x64, 0x0C, 0x81, 0x21, 0x83, 0x22, 0x84, 0x23, 0x00,
        0x01,
    ]);
    assert_eq!(cpu.register(1), Ok(0x0E));
    assert_eq!(cpu.register(3), Ok(0x08));
    assert_eq!(cpu.register(4), Ok(0x06));
}

#[test]
fn drawing_twice_restores_screen_and_collides() {
    let mut cpu = machine(&[0xA0, 0x00, 0x60, 0x05, 0x61, 0x03, 0xD0, 0x15, 0xD0, 0x15]);
    for _ in 0..4 {
        assert_eq!(cpu.step(), Ok(StepEvent::Continue));
    }
    assert!(cpu.pixel(5, 3));
    assert!(cpu.pixel(8, 3));
    assert!(!cpu.pixel(6, 4));
    assert!(cpu.pixel(5, 7));
    assert_eq!(cpu.register(0xF), Ok(0));
    assert_eq!(cpu.step(), Ok(StepEvent::Continue));
    assert_eq!(cpu.register(0xF), Ok(1));
    for x in 0..64 {
        for y in 0..32 {
            assert!(!cpu.pixel(x, y));
        }
    }
}

#[test]
fn drawing_wraps_at_the_edges() {
    let mut cpu = machine(&[0xA0, 0x00, 0x60, 62, 0x61, 31, 0xD0, 0x12]);
    for _ in 0..4 {
        assert_eq!(cpu.step(), Ok(StepEvent::Continue));
    }
    assert!(cpu.pixel(62, 31));
    assert!(cpu.pixel(1, 31));
    assert!(cpu.pixel(62, 0));
    assert!(!cpu.pixel(63, 0));
}

#[test]
fn clear_turns_pixels_off() {
    let cpu = run_to_halt(&[0xA0, 0x00, 0xD0, 0x01, 0x00, 0xE0, 0x00, 0x01]);
    assert!(!cpu.pixel(0, 0));
}

#[test]
fn bcd_of_157() {
    let cpu = run_to_halt(&[0x60, 157, 0xA3, 0x00, 0xF0, 0x33, 0x00, 0x01]);
    assert_eq!(cpu.memory_byte(0x300), Ok(1));
    assert_eq!(cpu.memory_byte(0x301), Ok(5));
    assert_eq!(cpu.memory_byte(0x302), Ok(7));
}

#[test]
fn store_then_load_restores_registers() {
    let cpu = run_to_halt(&[
        0x60, 11, 0x61, 22, 0x62, 33, 0x63, 44, 0xA4, 0x00, 0xF3, 0x55, 0x60, 0, 0x61, 0, 0x62, 0,
        0x63, 0, 0xF3, 0x65, 0x00, 0x01,
    ]);
    assert_eq!(cpu.register(0), Ok(11));
    assert_eq!(cpu.register(1), Ok(22));
    assert_eq!(cpu.register(2), Ok(33));
    assert_eq!(cpu.register(3), Ok(44));
    assert_eq!(cpu.memory_byte(0x403), Ok(44));
    assert_eq!(cpu.index(), 0x400);
}

#[test]
fn running_needs_font_and_program() {
    let mut cpu = CPU::new();
    assert_eq!(cpu.run(), Err(EmulatorError::NoProgramLoaded));
    let mut cpu = CPU::new();
    cpu.load_font(&FONT).unwrap();
    assert_eq!(cpu.run(), Err(EmulatorError::NoProgramLoaded));
    let mut cpu = CPU::with_rom(&[0x00, 0x01]).unwrap();
    assert!(!cpu.loaded());
    assert_eq!(cpu.run(), Err(EmulatorError::NoProgramLoaded));
    cpu.load_font(&FONT).unwrap();
    assert!(cpu.loaded());
    assert_eq!(cpu.run(), Ok(StepEvent::Halt(1)));
}

#[test]
fn unknown_pattern_is_invalid_opcode() {
    let mut cpu = machine(&[0x50, 0x01]);
    assert_eq!(
        cpu.step(),
        Err(EmulatorError::InvalidOpcode { pc: 0x200, opcode: 0x5001 })
    );
    assert_eq!(cpu.pc(), 0x200);
    let mut cpu = machine(&[0x60, 0x01, 0x8A, 0xB8]);
    assert_eq!(
        cpu.run(),
        Err(EmulatorError::InvalidOpcode { pc: 0x202, opcode: 0x8AB8 })
    );
}

#[test]
fn call_then_return_round_trips_pc() {
    let mut cpu = machine(&[0x22, 0x04, 0x00, 0x01, 0x00, 0xEE]);
    assert_eq!(cpu.step(), Ok(StepEvent::Continue));
    assert_eq!(cpu.pc(), 0x204);
    assert_eq!(cpu.stack_depth(), 1);
    assert_eq!(cpu.step(), Ok(StepEvent::Continue));
    assert_eq!(cpu.pc(), 0x202);
    assert_eq!(cpu.stack_depth(), 0);
    assert_eq!(cpu.step(), Ok(StepEvent::Halt(1)));
}

#[test]
fn full_stack_overflows_and_empty_stack_underflows() {
    let mut cpu = machine(&[0x22, 0x00]);
    for _ in 0..16 {
        assert_eq!(cpu.step(), Ok(StepEvent::Continue));
    }
    assert_eq!(cpu.stack_depth(), 16);
    assert_eq!(cpu.step(), Err(EmulatorError::StackOverflow));
    assert_eq!(cpu.stack_depth(), 16);
    let mut cpu = machine(&[0x00, 0xEE]);
    assert_eq!(cpu.run(), Err(EmulatorError::StackUnderflow));
}

#[test]
fn exit_trap_yields_its_value() {
    let mut cpu = machine(&[0x0A, 0xBC]);
    assert_eq!(cpu.run(), Ok(StepEvent::Halt(0xABC)));
    assert_eq!(cpu.pc(), 0x202);
}

#[test]
fn jumps_and_skips() {
    let cpu = run_to_halt(&[0x12, 0x04, 0x00, 0x02, 0x00, 0x01]);
    assert_eq!(cpu.pc(), 0x206);
    let cpu = run_to_halt(&[0x60, 0x06, 0xB2, 0x00, 0x00, 0x02, 0x00, 0x01]);
    assert_eq!(cpu.pc(), 0x208);
    let cpu = run_to_halt(&[0x60, 0x07, 0x30, 0x07, 0x00, 0x02, 0x00, 0x01]);
    assert_eq!(cpu.register(0), Ok(7));
    let cpu = run_to_halt(&[0x60, 0x07, 0x40, 0x08, 0x00, 0x02, 0x00, 0x01]);
    assert_eq!(cpu.register(0), Ok(7));
    let cpu = run_to_halt(&[0x60, 0x07, 0x61, 0x07, 0x50, 0x10, 0x00, 0x02, 0x00, 0x01]);
    assert_eq!(cpu.register(1), Ok(7));
    let cpu = run_to_halt(&[0x60, 0x07, 0x61, 0x08, 0x90, 0x10, 0x00, 0x02, 0x00, 0x01]);
    assert_eq!(cpu.register(1), Ok(8));
    let mut cpu = machine(&[0x30, 0x01, 0x00, 0x01, 0x00, 0x02]);
    assert_eq!(cpu.run(), Ok(StepEvent::Halt(1)));
}

#[test]
fn jump_past_memory_is_out_of_bounds() {
    let mut cpu = machine(&[0x60, 0xFF, 0xBF, 0xFF]);
    assert_eq!(cpu.run(), Err(EmulatorError::OutOfBounds));
    assert_eq!(cpu.pc(), 0x202);
}

#[test]
fn index_register_operations() {
    let cpu = run_to_halt(&[0xA1, 0x23, 0x60, 0x10, 0xF0, 0x1E, 0x00, 0x01]);
    assert_eq!(cpu.index(), 0x133);
    let cpu = run_to_halt(&[0x60, 0x03, 0xF0, 0x29, 0x00, 0x01]);
    assert_eq!(cpu.index(), 15);
}

#[test]
fn bcd_past_memory_is_out_of_bounds() {
    let mut cpu = machine(&[0xAF, 0xFE, 0xF0, 0x33]);
    assert_eq!(cpu.run(), Err(EmulatorError::OutOfBounds));
    assert_eq!(cpu.pc(), 0x202);
    assert_eq!(cpu.memory_byte(0xFFE), Ok(0));
}

#[test]
fn timers_set_read_and_tick() {
    let mut cpu = run_to_halt(&[0x60, 0x02, 0xF0, 0x15, 0x61, 0x01, 0xF1, 0x18, 0xF2, 0x07, 0x00, 0x01]);
    assert_eq!(cpu.delay_timer(), 2);
    assert_eq!(cpu.sound_timer(), 1);
    assert_eq!(cpu.register(2), Ok(2));
    assert!(cpu.sound_active());
    cpu.tick_timers();
    assert_eq!(cpu.delay_timer(), 1);
    assert_eq!(cpu.sound_timer(), 0);
    assert!(!cpu.sound_active());
    cpu.tick_timers();
    cpu.tick_timers();
    assert_eq!(cpu.delay_timer(), 0);
    assert_eq!(cpu.sound_timer(), 0);
}

#[test]
fn key_skips_follow_the_latch() {
    let rom = [0x60, 0x05, 0xE0, 0x9E, 0x00, 0x02, 0x00, 0x01];
    let mut cpu = machine(&rom);
    cpu.set_key(5, true);
    assert!(cpu.key_pressed(5));
    assert_eq!(cpu.run(), Ok(StepEvent::Halt(1)));
    let mut cpu = machine(&rom);
    assert_eq!(cpu.run(), Ok(StepEvent::Halt(2)));
    let mut cpu = machine(&[0x60, 0x05, 0xE0, 0xA1, 0x00, 0x02, 0x00, 0x01]);
    assert_eq!(cpu.run(), Ok(StepEvent::Halt(1)));
    assert!(!cpu.key_pressed(200));
}

#[test]
fn key_wait_blocks_until_a_press() {
    let mut cpu = machine(&[0xF3, 0x0A, 0x00, 0x01]);
    assert_eq!(cpu.run(), Ok(StepEvent::AwaitingKey));
    assert_eq!(cpu.awaiting_key(), Some(3));
    assert_eq!(cpu.step(), Ok(StepEvent::AwaitingKey));
    cpu.set_key(9, true);
    assert_eq!(cpu.awaiting_key(), None);
    assert_eq!(cpu.register(3), Ok(9));
    assert_eq!(cpu.run(), Ok(StepEvent::Halt(1)));
}

#[test]
fn held_key_does_not_end_a_wait() {
    let mut cpu = machine(&[0xF3, 0x0A, 0x00, 0x01]);
    cpu.set_key(4, true);
    assert_eq!(cpu.run(), Ok(StepEvent::AwaitingKey));
    cpu.set_key(4, true);
    assert_eq!(cpu.awaiting_key(), Some(3));
    cpu.set_key(4, false);
    cpu.set_key(4, true);
    assert_eq!(cpu.register(3), Ok(4));
}

#[test]
fn random_byte_is_masked_and_seeded() {
    let rom = [0xC0, 0x0F, 0xC1, 0xFF, 0x00, 0x01];
    let mut a = machine(&rom);
    a.seed_random(42);
    assert_eq!(a.run(), Ok(StepEvent::Halt(1)));
    let mut b = machine(&rom);
    b.seed_random(42);
    assert_eq!(b.run(), Ok(StepEvent::Halt(1)));
    assert!(a.register(0).unwrap() <= 0x0F);
    assert_eq!(a.register(0), b.register(0));
    assert_eq!(a.register(1), b.register(1));
    let s1 = 42u64.wrapping_mul(6364136223846793005).wrapping_add(1442695040888963407);
    assert_eq!(a.register(0), Ok(((s1 >> 56) as u8) & 0x0F));
}

#[test]
fn invalid_register_index() {
    let cpu = CPU::new();
    assert_eq!(cpu.register(16), Err(EmulatorError::InvalidRegister(16)));
    assert_eq!(cpu.register(15), Ok(0));
}

#[test]
fn memory_reads_outside_fail() {
    let cpu = CPU::new();
    assert_eq!(cpu.memory_byte(4096), Err(EmulatorError::OutOfBounds));
    assert_eq!(cpu.memory_byte(4095), Ok(0));
}

#[test]
fn oversized_rom_is_refused() {
    let rom = vec![1u8; 4096 - 0x200 + 1];
    assert!(matches!(CPU::with_rom(&rom), Err(EmulatorError::OutOfBounds)));
    let mut cpu = CPU::new();
    assert_eq!(cpu.load_rom(&rom), Err(EmulatorError::OutOfBounds));
    assert_eq!(cpu.pc(), 0);
    let fits = vec![1u8; 4096 - 0x200];
    assert_eq!(cpu.load_rom(&fits), Ok(()));
    assert_eq!(cpu.memory_byte(4095), Ok(1));
}

#[test]
fn reloading_a_loaded_machine_resets_it() {
    let mut cpu = machine(&[0x60, 0x09, 0x00, 0x01]);
    assert_eq!(cpu.run(), Ok(StepEvent::Halt(1)));
    assert_eq!(cpu.load_rom(&[0x00, 0x02]), Ok(()));
    assert_eq!(cpu.register(0), Ok(0));
    assert_eq!(cpu.memory_byte(0), Ok(0));
    assert_eq!(cpu.pc(), 0x200);
    assert!(!cpu.loaded());
}

#[test]
fn run_for_stops_after_its_budget() {
    let mut cpu = machine(&[0x12, 0x00]);
    assert_eq!(cpu.run_for(10), Ok(StepEvent::Continue));
    assert_eq!(cpu.pc(), 0x200);
}

#[test]
fn program_counter_at_end_of_memory() {
    let mut cpu = machine(&[0x1F, 0xFF]);
    assert_eq!(cpu.step(), Ok(StepEvent::Continue));
    assert_eq!(cpu.pc(), 0xFFF);
    assert_eq!(cpu.step(), Err(EmulatorError::OutOfBounds));
}
