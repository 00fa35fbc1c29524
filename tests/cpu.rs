use chip8::cpu::{decode, Fault, Instruction, CPU};
use chip8::rom::boot_memory;

fn cpu_with(program: &[u16]) -> CPU {
    let mut rom = Vec::new();
    for op in program {
        rom.push((op >> 8) as u8);
        rom.push(*op as u8);
    }
    CPU::new(boot_memory(&rom).unwrap())
}

fn run(cpu: &mut CPU, cycles: usize) {
    for _ in 0..cycles {
        assert_eq!(cpu.next_fault(), None);
        cpu.tick();
    }
}

#[test]
fn initial_state() {
    let cpu = cpu_with(&[]);
    assert_eq!(cpu.program_counter(), 0x200);
    assert_eq!(cpu.stack_pointer(), 0xFA0);
    assert_eq!(cpu.index(), 0);
    assert_eq!(cpu.delay_timer(), 0);
    assert_eq!(cpu.sound_timer(), 0);
    for x in 0..16 {
        assert_eq!(cpu.register(x), 0);
    }
    assert_eq!(cpu.screen_buffer().len(), 2048);
    assert!(cpu.screen_buffer().iter().all(|p| !*p));
    assert!(!cpu.is_sound_playing());
}

#[test]
fn add_with_carry() {
    // V1 = 0xFF, V2 = 0x01, V1 += V2
    let mut cpu = cpu_with(&[0x61FF, 0x6201, 0x8124]);
    run(&mut cpu, 3);
    assert_eq!(cpu.register(1), 0x00);
    assert_eq!(cpu.register(0xF), 1);
}

#[test]
fn add_without_carry() {
    let mut cpu = cpu_with(&[0x6F07, 0x6110, 0x6220, 0x8124]);
    run(&mut cpu, 4);
    assert_eq!(cpu.register(1), 0x30);
    assert_eq!(cpu.register(0xF), 0);
}

#[test]
fn subtract_with_borrow() {
    // V1 = 0x01, V2 = 0x02, V1 -= V2
    let mut cpu = cpu_with(&[0x6101, 0x6202, 0x8125]);
    run(&mut cpu, 3);
    assert_eq!(cpu.register(1), 0xFF);
    assert_eq!(cpu.register(0xF), 0);
}

#[test]
fn subtract_without_borrow() {
    let mut cpu = cpu_with(&[0x6105, 0x6203, 0x8125]);
    run(&mut cpu, 3);
    assert_eq!(cpu.register(1), 0x02);
    assert_eq!(cpu.register(0xF), 1);
}

#[test]
fn subtract_vx_from_vy() {
    let mut cpu = cpu_with(&[0x6103, 0x6205, 0x8127, 0x6305, 0x6403, 0x8347]);
    run(&mut cpu, 3);
    assert_eq!(cpu.register(1), 0x02);
    assert_eq!(cpu.register(0xF), 1);
    run(&mut cpu, 3);
    assert_eq!(cpu.register(3), 0xFE);
    assert_eq!(cpu.register(0xF), 0);
}

#[test]
fn shifts_set_flag_from_bit_shifted_out() {
    let mut cpu = cpu_with(&[0x6205, 0x8126, 0x6381, 0x843E]);
    run(&mut cpu, 2);
    assert_eq!(cpu.register(1), 0x02);
    assert_eq!(cpu.register(0xF), 1);
    run(&mut cpu, 2);
    assert_eq!(cpu.register(4), 0x02);
    assert_eq!(cpu.register(0xF), 1);
}

#[test]
fn bitwise_ops_reset_flag() {
    let mut cpu = cpu_with(&[0x6F09, 0x610C, 0x620A, 0x8121, 0x6F09, 0x630C, 0x8322, 0x6F09, 0x640C, 0x8423]);
    run(&mut cpu, 4);
    assert_eq!(cpu.register(1), 0x0E);
    assert_eq!(cpu.register(0xF), 0);
    run(&mut cpu, 3);
    assert_eq!(cpu.register(3), 0x08);
    assert_eq!(cpu.register(0xF), 0);
    run(&mut cpu, 3);
    assert_eq!(cpu.register(4), 0x06);
    assert_eq!(cpu.register(0xF), 0);
}

#[test]
fn add_immediate_wraps_without_flag() {
    let mut cpu = cpu_with(&[0x61F0, 0x7120]);
    run(&mut cpu, 2);
    assert_eq!(cpu.register(1), 0x10);
    assert_eq!(cpu.register(0xF), 0);
}

#[test]
fn bcd_writes_decimal_digits() {
    // V0 = 234, I = 0x300, BCD V0
    let mut cpu = cpu_with(&[0x60EA, 0xA300, 0xF033]);
    run(&mut cpu, 3);
    assert_eq!(cpu.memory().read_u8(0x300), 2);
    assert_eq!(cpu.memory().read_u8(0x301), 3);
    assert_eq!(cpu.memory().read_u8(0x302), 4);
}

#[test]
fn add_to_index_scenario() {
    let mut cpu = cpu_with(&[0x6A05, 0xFA1E]);
    run(&mut cpu, 2);
    assert_eq!(cpu.index(), 5);
    assert_eq!(cpu.register(0xF), 0);
}

#[test]
fn add_to_index_flags_address_overflow() {
    let mut cpu = cpu_with(&[0xAFFF, 0x6101, 0xF11E]);
    run(&mut cpu, 3);
    assert_eq!(cpu.index(), 0x1000);
    assert_eq!(cpu.register(0xF), 1);
}

#[test]
fn clear_after_draws_blanks_screen() {
    // draw glyph 0 twice at different places, then clear
    let mut cpu = cpu_with(&[0xA000, 0xD005, 0x6108, 0xD115, 0x00E0]);
    run(&mut cpu, 4);
    assert!(cpu.screen_buffer().iter().any(|p| *p));
    run(&mut cpu, 1);
    assert!(cpu.screen_buffer().iter().all(|p| !*p));
}

#[test]
fn draw_sets_collision_flag() {
    let mut cpu = cpu_with(&[0xA000, 0xD005, 0xD005]);
    run(&mut cpu, 2);
    assert_eq!(cpu.register(0xF), 0);
    assert!(cpu.screen_buffer()[0]);
    run(&mut cpu, 1);
    assert_eq!(cpu.register(0xF), 1);
    assert!(cpu.screen_buffer().iter().all(|p| !*p));
}

#[test]
fn wait_until_pressed_blocks_then_reads_key() {
    let mut cpu = cpu_with(&[0xF50A]);
    run(&mut cpu, 1);
    assert_eq!(cpu.program_counter(), 0x200);
    run(&mut cpu, 1);
    assert_eq!(cpu.program_counter(), 0x200);
    cpu.press_key(3, true);
    run(&mut cpu, 1);
    assert_eq!(cpu.register(5), 3);
    assert_eq!(cpu.program_counter(), 0x202);
}

#[test]
fn wait_until_pressed_takes_lowest_key() {
    let mut cpu = cpu_with(&[0xF50A]);
    cpu.press_key(9, true);
    cpu.press_key(4, true);
    run(&mut cpu, 1);
    assert_eq!(cpu.register(5), 4);
}

#[test]
fn skip_if_pressed_and_not_pressed() {
    // V1 = 2; skip next if key V1 is down; ...
    let mut cpu = cpu_with(&[0x6102, 0xE19E, 0x6201, 0xE1A1, 0x6301]);
    run(&mut cpu, 2);
    assert_eq!(cpu.program_counter(), 0x204);
    run(&mut cpu, 1);
    assert_eq!(cpu.register(2), 1);
    run(&mut cpu, 1);
    assert_eq!(cpu.program_counter(), 0x20A);
    let mut cpu = cpu_with(&[0x6102, 0xE19E, 0x6201, 0xE1A1, 0x6301]);
    cpu.press_key(2, true);
    run(&mut cpu, 2);
    assert_eq!(cpu.program_counter(), 0x206);
    run(&mut cpu, 1);
    assert_eq!(cpu.program_counter(), 0x208);
    cpu.press_key(2, false);
}

#[test]
fn skip_on_register_comparisons() {
    let mut cpu = cpu_with(&[0x6107, 0x3107, 0x0000, 0x4107, 0x6201, 0x5120, 0x6301, 0x9120, 0x0000]);
    run(&mut cpu, 2);
    assert_eq!(cpu.program_counter(), 0x206);
    run(&mut cpu, 2);
    assert_eq!(cpu.register(2), 1);
    run(&mut cpu, 2);
    assert_eq!(cpu.register(3), 1);
    run(&mut cpu, 1);
    assert_eq!(cpu.program_counter(), 0x212);
}

#[test]
fn call_and_return_use_stack() {
    // 0x200: call 0x206; 0x202: V1 = 1; 0x204: jump 0x204; 0x206: V2 = 2; 0x208: return
    let mut cpu = cpu_with(&[0x2206, 0x6101, 0x1204, 0x6202, 0x00EE]);
    run(&mut cpu, 1);
    assert_eq!(cpu.program_counter(), 0x206);
    assert_eq!(cpu.stack_pointer(), 0xFA2);
    assert_eq!(cpu.memory().read_u16(0xFA2), 0x202);
    run(&mut cpu, 2);
    assert_eq!(cpu.program_counter(), 0x202);
    assert_eq!(cpu.stack_pointer(), 0xFA0);
    run(&mut cpu, 2);
    assert_eq!(cpu.register(1), 1);
    assert_eq!(cpu.register(2), 2);
    assert_eq!(cpu.program_counter(), 0x204);
}

#[test]
fn jump_with_offset() {
    let mut cpu = cpu_with(&[0x6004, 0xB300]);
    run(&mut cpu, 2);
    assert_eq!(cpu.program_counter(), 0x304);
}

#[test]
fn store_and_load_register_ranges() {
    let mut cpu = cpu_with(&[0x6011, 0x6122, 0x6233, 0xA400, 0xF155, 0x6000, 0x6100, 0x6200, 0xF265]);
    run(&mut cpu, 5);
    assert_eq!(cpu.memory().read_u8(0x400), 0x11);
    assert_eq!(cpu.memory().read_u8(0x401), 0x22);
    assert_eq!(cpu.memory().read_u8(0x402), 0x00);
    assert_eq!(cpu.index(), 0x400);
    run(&mut cpu, 4);
    assert_eq!(cpu.register(0), 0x11);
    assert_eq!(cpu.register(1), 0x22);
    assert_eq!(cpu.register(2), 0x00);
}

#[test]
fn timers_count_down_and_stop_at_zero() {
    let mut cpu = cpu_with(&[0x6004, 0xF015, 0x6103, 0xF118, 0xF207]);
    run(&mut cpu, 4);
    assert_eq!(cpu.delay_timer(), 4);
    assert_eq!(cpu.sound_timer(), 3);
    assert!(cpu.is_sound_playing());
    cpu.tick_timers();
    assert_eq!(cpu.delay_timer(), 3);
    assert_eq!(cpu.sound_timer(), 2);
    assert!(!cpu.is_sound_playing());
    run(&mut cpu, 1);
    assert_eq!(cpu.register(2), 3);
    for _ in 0..5 {
        cpu.tick_timers();
    }
    assert_eq!(cpu.delay_timer(), 0);
    assert_eq!(cpu.sound_timer(), 0);
}

#[test]
fn font_points_index_at_glyph() {
    let mut cpu = cpu_with(&[0x600A, 0xF029]);
    run(&mut cpu, 2);
    assert_eq!(cpu.index(), 50);
}

#[test]
fn set_index_and_register_copy() {
    let mut cpu = cpu_with(&[0xA123, 0x6142, 0x8210]);
    run(&mut cpu, 3);
    assert_eq!(cpu.index(), 0x123);
    assert_eq!(cpu.register(2), 0x42);
}

#[test]
fn random_is_masked() {
    let mut cpu = cpu_with(&[0xC10F, 0xC200]);
    run(&mut cpu, 2);
    assert!(cpu.register(1) <= 0x0F);
    assert_eq!(cpu.register(2), 0);
}

#[test]
fn random_takes_given_byte() {
    let mut cpu = cpu_with(&[0xC13C]);
    cpu.tick_with_random(0xF5);
    assert_eq!(cpu.register(1), 0x34);
}

#[test]
fn decode_table_entries() {
    assert_eq!(decode(0x00E0), Some(Instruction::Clear));
    assert_eq!(decode(0x00EE), Some(Instruction::Return));
    assert_eq!(decode(0x1ABC), Some(Instruction::Jump(0xABC)));
    assert_eq!(decode(0x6A05), Some(Instruction::SetVx(0xA, 0x05)));
    assert_eq!(decode(0x8124), Some(Instruction::AddVxToVy(1, 2)));
    assert_eq!(decode(0xD123), Some(Instruction::Draw(1, 2, 3)));
    assert_eq!(decode(0xFA1E), Some(Instruction::AddToIndex(0xA)));
    assert_eq!(decode(0xE3A1), Some(Instruction::SkipIfNotPressed(3)));
    assert_eq!(decode(0x0123), None);
    assert_eq!(decode(0x5121), None);
    assert_eq!(decode(0x8128), None);
    assert_eq!(decode(0xF0FF), None);
}

#[test]
fn faults_are_reported() {
    let cpu = cpu_with(&[0x0000]);
    assert_eq!(cpu.next_fault(), Some(Fault::InvalidOpcode(0x0000)));
    let cpu = cpu_with(&[0x00EE]);
    assert_eq!(cpu.next_fault(), None);
    let mut cpu = cpu_with(&[0x1FFF]);
    run(&mut cpu, 1);
    assert_eq!(cpu.next_fault(), Some(Fault::ProgramCounterOutOfRange(0xFFF)));
    let mut cpu = cpu_with(&[0xAFFE, 0xF033]);
    run(&mut cpu, 1);
    assert_eq!(cpu.next_fault(), Some(Fault::AddressOutOfRange(0xFFE)));
    let mut cpu = cpu_with(&[0xAFFF, 0xD002]);
    run(&mut cpu, 1);
    assert_eq!(cpu.next_fault(), Some(Fault::AddressOutOfRange(0xFFF)));
    let mut cpu = cpu_with(&[0x6110, 0xE19E]);
    run(&mut cpu, 1);
    assert_eq!(cpu.next_fault(), Some(Fault::KeyOutOfRange(0x10)));
}

#[test]
fn stack_faults_are_reported() {
    // a routine that calls itself pushes until the stack reaches the end of memory
    let mut cpu = cpu_with(&[0x2200]);
    for _ in 0..47 {
        run(&mut cpu, 1);
    }
    assert_eq!(cpu.stack_pointer(), 0xFA0 + 2 * 47);
    assert_eq!(cpu.next_fault(), Some(Fault::StackOutOfRange(0xFFE)));
}
