use chip8::fonts::font_set;
use chip8::memory::{Memory, RAM_SIZE};
use chip8::rom::{boot_memory, BASE_ADDRESS};

#[test]
fn test_size() {
    let mem = Memory::new();
    assert_eq!(mem.size(), RAM_SIZE);
}

#[test]
fn test_load() {
    let bytes = [0xFF; 64];
    let mut mem = Memory::new();
    mem.load(&bytes, 1024);
    assert_eq!(mem.read_u8(1024), 0xFF);
    assert_eq!(mem.read_u8(1024 + 63), 0xFF);
    assert_eq!(mem.read_u8(1024 + 64), 0x00);
}

#[test]
fn test_read_write_u8() {
    let mut mem = Memory::new();
    mem.write_u8(0, 0xFF);
    assert_eq!(mem.read_u8(0), 0xFF);
    // next byte shouldn't be affected
    assert_eq!(mem.read_u8(1), 0x00);
}

#[test]
fn test_read_write_u16() {
    let mut mem = Memory::new();
    mem.write_u16(0, 0xFFFF);
    assert_eq!(mem.read_u16(0), 0xFFFF);
    assert_eq!(mem.read_u16(1), 0xFF00);
    assert_eq!(mem.read_u16(2), 0x0000);
}

#[test]
fn word_round_trip_is_big_endian() {
    let mut mem = Memory::new();
    mem.write_u16(0x300, 0x12AB);
    assert_eq!(mem.read_u16(0x300), 0x12AB);
    assert_eq!(mem.read_u8(0x300), 0x12);
    assert_eq!(mem.read_u8(0x301), 0xAB);
    assert_eq!(mem.read_u8(0x2FF), 0x00);
    assert_eq!(mem.read_u8(0x302), 0x00);
}

#[test]
fn word_at_last_address() {
    let mut mem = Memory::new();
    mem.write_u16(4094, 0xBEEF);
    assert_eq!(mem.read_u16(4094), 0xBEEF);
    assert_eq!(mem.read_u8(4095), 0xEF);
}

#[test]
fn load_keeps_bytes_and_neighbours() {
    let mut mem = Memory::new();
    mem.write_u8(9, 0x77);
    mem.load(&[1, 2, 3, 4], 5);
    assert_eq!(mem.read_u8(4), 0);
    assert_eq!(mem.read_u8(5), 1);
    assert_eq!(mem.read_u8(6), 2);
    assert_eq!(mem.read_u8(7), 3);
    assert_eq!(mem.read_u8(8), 4);
    assert_eq!(mem.read_u8(9), 0x77);
}

#[test]
fn load_empty_and_to_the_end() {
    let mut mem = Memory::new();
    mem.load(&[], 4096);
    mem.load(&[0xAA, 0xBB], 4094);
    assert_eq!(mem.read_u16(4094), 0xAABB);
}

#[test]
fn boot_memory_holds_font_and_rom() {
    let mem = boot_memory(&[0x12, 0x34]).unwrap();
    let font = font_set();
    for (k, b) in font.iter().enumerate() {
        assert_eq!(mem.read_u8(k as u16), *b);
    }
    assert_eq!(mem.read_u8(0), 0xF0);
    assert_eq!(mem.read_u8(79), 0x80);
    assert_eq!(mem.read_u8(80), 0x00);
    assert_eq!(mem.read_u16(BASE_ADDRESS), 0x1234);
    assert_eq!(mem.read_u8(BASE_ADDRESS + 2), 0x00);
}

#[test]
fn boot_memory_rejects_oversized_rom() {
    let fits = vec![0xAB; RAM_SIZE - BASE_ADDRESS as usize];
    let mem = boot_memory(&fits).unwrap();
    assert_eq!(mem.read_u8(4095), 0xAB);
    let too_big = vec![0u8; RAM_SIZE - BASE_ADDRESS as usize + 1];
    assert!(boot_memory(&too_big).is_none());
}
