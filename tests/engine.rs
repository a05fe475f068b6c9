use chip8::decode::{decode, Instr, ProgramCounter};
use chip8::machine::{Chip8, Halt};

const NO_KEYS: [bool; 16] = [false; 16];

fn machine(program: &[u8]) -> Chip8 {
    let mut c = Chip8::new();
    c.load_rom(&program.to_vec()).unwrap();
    c
}

fn step(c: &mut Chip8) -> bool {
    c.execute_with(&NO_KEYS, 0).unwrap().video_changed
}

fn lit_pixels(c: &Chip8) -> usize {
    (0..2048).filter(|&p| c.get_pixel(p) == 1).count()
}

#[test]
fn new_engine_has_font_and_start_address() {
    let c = Chip8::new();
    assert_eq!(c.pc, 0x200);
    assert_eq!(&c.memory[0..5], &[0xF0, 0x90, 0x90, 0x90, 0xF0]);
    assert_eq!(&c.memory[75..80], &[0xF0, 0x80, 0xF0, 0x80, 0x80]);
    assert!(c.memory[80..].iter().all(|&b| b == 0));
    assert!(c.registers.iter().all(|&r| r == 0));
    assert_eq!(lit_pixels(&c), 0);
}

#[test]
fn load_rom_places_bytes_at_start_address() {
    let c = machine(&[1, 2, 3]);
    assert_eq!(&c.memory[0x1FF..0x204], &[0, 1, 2, 3, 0]);
}

#[test]
fn load_rom_accepts_largest_program() {
    let mut c = Chip8::new();
    let rom = vec![7u8; 3584];
    assert_eq!(c.load_rom(&rom), Ok(()));
    assert_eq!(c.memory[4095], 7);
}

#[test]
fn load_rom_rejects_oversized_program() {
    let mut c = Chip8::new();
    let rom = vec![7u8; 3585];
    assert_eq!(c.load_rom(&rom), Err(Halt::RomTooLarge));
    assert_eq!(c.memory[0x200], 0);
}

#[test]
fn fetch_is_big_endian() {
    let c = machine(&[0x12, 0x34]);
    assert_eq!(c.fetch_instruction(), 0x1234);
}

#[test]
fn decode_splits_fields() {
    assert_eq!(decode(0xD125), Some(Instr::Drw { x: 1, y: 2, n: 5 }));
    assert_eq!(decode(0x7A01), Some(Instr::AddImm { x: 0xA, kk: 0x01 }));
    assert_eq!(decode(0xB123), Some(Instr::JpV0 { addr: 0x123 }));
    assert_eq!(decode(0xF265), Some(Instr::Load { x: 2 }));
    assert_eq!(decode(0x5121), None);
    assert_eq!(decode(0x0000), None);
}

#[test]
fn skip_helper() {
    assert_eq!(ProgramCounter::skip(true), ProgramCounter::Skip);
    assert_eq!(ProgramCounter::skip(false), ProgramCounter::Next);
}

#[test]
fn three_step_scenario() {
    let mut c = machine(&[0x6A, 0x3C, 0x7A, 0x01, 0x00, 0xE0]);
    step(&mut c);
    step(&mut c);
    assert!(step(&mut c));
    assert_eq!(c.registers[0xA], 0x3D);
    assert_eq!(lit_pixels(&c), 0);
    assert_eq!(c.pc, 0x206);
}

#[test]
fn draw_sprite_from_index() {
    let mut rom = vec![0u8; 0x105];
    rom[0..4].copy_from_slice(&[0xA3, 0x00, 0xD0, 0x05]);
    rom[0x100..0x105].copy_from_slice(&[0xF0, 0x90, 0xF0, 0x90, 0x90]);
    let mut c = machine(&rom);
    step(&mut c);
    assert_eq!(c.index, 0x300);
    assert!(step(&mut c));
    for row in 0..5usize {
        let byte = rom[0x100 + row];
        for bit in 0..8usize {
            assert_eq!(c.get_pixelc(bit, row), (byte >> (7 - bit)) & 1);
        }
    }
    assert_eq!(lit_pixels(&c), 4 + 2 + 4 + 2 + 2);
    assert_eq!(c.registers[0xF], 0);
}

#[test]
fn pc_stays_even_in_program_area() {
    let mut c = machine(&[0x60, 0x05, 0x30, 0x05, 0x00, 0x00, 0x22, 0x0A, 0x12, 0x00, 0x00, 0xEE]);
    for _ in 0..20 {
        step(&mut c);
        assert_eq!(c.pc % 2, 0);
        assert!(c.pc >= 0x200 && c.pc <= 4094);
    }
}

#[test]
fn add_immediate_wraps() {
    let mut c = machine(&[0x63, 0xFF, 0x73, 0x02]);
    c.registers[0xF] = 9;
    step(&mut c);
    step(&mut c);
    assert_eq!(c.registers[3], 1);
    assert_eq!(c.registers[0xF], 9);
}

#[test]
fn add_registers_sets_carry() {
    let mut c = machine(&[0x60, 0xF0, 0x61, 0x20, 0x80, 0x14]);
    for _ in 0..3 {
        step(&mut c);
    }
    assert_eq!(c.registers[0], 0x10);
    assert_eq!(c.registers[0xF], 1);
}

#[test]
fn add_registers_without_carry() {
    let mut c = machine(&[0x60, 0x7F, 0x61, 0x80, 0x80, 0x14]);
    for _ in 0..3 {
        step(&mut c);
    }
    assert_eq!(c.registers[0], 0xFF);
    assert_eq!(c.registers[0xF], 0);
}

#[test]
fn subtract_sets_flags() {
    let mut c = machine(&[0x60, 0x05, 0x61, 0x07, 0x80, 0x15, 0x62, 0x05, 0x63, 0x07, 0x82, 0x37]);
    for _ in 0..3 {
        step(&mut c);
    }
    assert_eq!(c.registers[0], 0xFE);
    assert_eq!(c.registers[0xF], 0);
    for _ in 0..3 {
        step(&mut c);
    }
    assert_eq!(c.registers[2], 2);
    assert_eq!(c.registers[0xF], 1);
}

#[test]
fn shifts_set_normalized_flags() {
    let mut c = machine(&[0x60, 0x81, 0x80, 0x0E, 0x61, 0x03, 0x81, 0x06]);
    step(&mut c);
    step(&mut c);
    assert_eq!(c.registers[0], 0x02);
    assert_eq!(c.registers[0xF], 1);
    step(&mut c);
    step(&mut c);
    assert_eq!(c.registers[1], 0x01);
    assert_eq!(c.registers[0xF], 1);
}

#[test]
fn bitwise_operations() {
    let mut c = machine(&[0x60, 0x0C, 0x61, 0x0A, 0x82, 0x00, 0x82, 0x11, 0x83, 0x00, 0x83, 0x12, 0x84, 0x00, 0x84, 0x13]);
    for _ in 0..8 {
        step(&mut c);
    }
    assert_eq!(c.registers[2], 0x0E);
    assert_eq!(c.registers[3], 0x08);
    assert_eq!(c.registers[4], 0x06);
}

#[test]
fn clear_screen_after_draw() {
    let mut c = machine(&[0xA0, 0x00, 0xD0, 0x05, 0x00, 0xE0]);
    step(&mut c);
    step(&mut c);
    assert!(lit_pixels(&c) > 0);
    assert!(step(&mut c));
    assert_eq!(lit_pixels(&c), 0);
}

#[test]
fn draw_twice_restores_and_collides() {
    let mut c = machine(&[0x60, 0x3E, 0x61, 0x1E, 0xA0, 0x0A, 0xD0, 0x15, 0xD0, 0x15]);
    c.video[5] = 1;
    for _ in 0..4 {
        step(&mut c);
    }
    assert_eq!(c.registers[0xF], 0);
    assert_eq!(c.get_pixelc(62, 30), 1);
    assert_eq!(c.get_pixelc(1, 31), 1);
    assert_eq!(c.get_pixelc(0, 0), 1);
    step(&mut c);
    assert_eq!(c.registers[0xF], 1);
    assert_eq!(lit_pixels(&c), 1);
    assert_eq!(c.get_pixel(5), 1);
}

#[test]
fn key_wait_blocks_until_key() {
    let mut c = machine(&[0x60, 0x09, 0xF0, 0x15, 0xF3, 0x0A, 0x64, 0x01]);
    step(&mut c);
    step(&mut c);
    assert_eq!(c.delay_timer, 9);
    step(&mut c);
    assert_eq!(c.pc, 0x206);
    assert!(c.keypad_waiting);
    assert_eq!(c.delay_timer, 8);
    for _ in 0..3 {
        assert_eq!(c.execute_with(&NO_KEYS, 0), Ok(chip8::machine::Result { video_changed: false }));
        assert_eq!(c.registers[3], 0);
        assert_eq!(c.delay_timer, 8);
        assert_eq!(c.pc, 0x206);
    }
    let mut keys = [false; 16];
    keys[7] = true;
    keys[12] = true;
    c.execute_with(&keys, 0).unwrap();
    assert_eq!(c.registers[3], 7);
    assert!(!c.keypad_waiting);
    assert_eq!(c.delay_timer, 8);
    step(&mut c);
    assert_eq!(c.registers[4], 1);
    assert_eq!(c.delay_timer, 7);
}

#[test]
fn key_skips() {
    let mut c = machine(&[0x60, 0x04, 0xE0, 0x9E, 0x00, 0x00, 0xE0, 0xA1]);
    let mut keys = [false; 16];
    keys[4] = true;
    c.execute_with(&keys, 0).unwrap();
    c.execute_with(&keys, 0).unwrap();
    assert_eq!(c.pc, 0x206);
    c.execute_with(&keys, 0).unwrap();
    assert_eq!(c.pc, 0x208);
}

#[test]
fn call_and_return() {
    let mut c = machine(&[0x22, 0x04, 0x00, 0x00, 0x00, 0xEE]);
    step(&mut c);
    assert_eq!(c.pc, 0x204);
    assert_eq!(c.sp, 1);
    assert_eq!(c.stack[0], 0x202);
    step(&mut c);
    assert_eq!(c.pc, 0x202);
    assert_eq!(c.sp, 0);
}

#[test]
fn jump_with_offset() {
    let mut c = machine(&[0x60, 0x04, 0xB3, 0x00]);
    step(&mut c);
    step(&mut c);
    assert_eq!(c.pc, 0x304);
}

#[test]
fn skip_on_immediate_and_registers() {
    let mut c = machine(&[0x60, 0x05, 0x30, 0x05, 0, 0, 0x40, 0x05, 0x61, 0x05, 0x50, 0x10, 0, 0, 0x90, 0x10]);
    step(&mut c);
    step(&mut c);
    assert_eq!(c.pc, 0x206);
    step(&mut c);
    assert_eq!(c.pc, 0x208);
    step(&mut c);
    step(&mut c);
    assert_eq!(c.pc, 0x20E);
    step(&mut c);
    assert_eq!(c.pc, 0x210);
}

#[test]
fn bcd_and_font_address() {
    let mut c = machine(&[0x60, 0xFE, 0xA4, 0x00, 0xF0, 0x33, 0x61, 0x0B, 0xF1, 0x29]);
    for _ in 0..3 {
        step(&mut c);
    }
    assert_eq!(&c.memory[0x400..0x403], &[2, 5, 4]);
    step(&mut c);
    step(&mut c);
    assert_eq!(c.index, 55);
}

#[test]
fn store_and_load_registers() {
    let mut c = machine(&[0x60, 0x11, 0x61, 0x22, 0x62, 0x33, 0xA5, 0x00, 0xF1, 0x55, 0xA5, 0x01, 0xF1, 0x65]);
    for _ in 0..5 {
        step(&mut c);
    }
    assert_eq!(&c.memory[0x500..0x503], &[0x11, 0x22, 0]);
    step(&mut c);
    step(&mut c);
    assert_eq!(&c.registers[0..3], &[0x22, 0x00, 0x33]);
}

#[test]
fn index_add_sets_flag() {
    let mut c = machine(&[0xAF, 0xF0, 0x60, 0x0F, 0xF0, 0x1E, 0xF0, 0x1E]);
    for _ in 0..3 {
        step(&mut c);
    }
    assert_eq!(c.index, 0xFFF);
    assert_eq!(c.registers[0xF], 0);
    step(&mut c);
    assert_eq!(c.index, 0x100E);
    assert_eq!(c.registers[0xF], 1);
}

#[test]
fn timers_count_down_to_zero() {
    let mut c = machine(&[0x60, 0x02, 0xF0, 0x15, 0xF0, 0x18, 0xF1, 0x07, 0x12, 0x08]);
    for _ in 0..3 {
        step(&mut c);
    }
    assert_eq!(c.delay_timer, 1);
    assert_eq!(c.sound_timer, 2);
    step(&mut c);
    assert_eq!(c.registers[1], 0);
    step(&mut c);
    step(&mut c);
    assert_eq!(c.delay_timer, 0);
    assert_eq!(c.sound_timer, 0);
}

#[test]
fn random_masks_with_immediate() {
    let mut c = machine(&[0xC0, 0x0F, 0xC1, 0x00]);
    c.execute_with(&NO_KEYS, 0xAB).unwrap();
    assert_eq!(c.registers[0], 0x0B);
    c.execute_instruction(&NO_KEYS).unwrap();
    assert_eq!(c.registers[1], 0);
}

#[test]
fn halts_on_unknown_opcode() {
    let mut c = machine(&[0x51, 0x21]);
    assert_eq!(c.execute_with(&NO_KEYS, 0), Err(Halt::UnknownOpcode(0x5121)));
    assert_eq!(c.pc, 0x200);
}

#[test]
fn halts_on_stack_underflow() {
    let mut c = machine(&[0x00, 0xEE]);
    assert_eq!(c.execute_with(&NO_KEYS, 0), Err(Halt::StackUnderflow));
}

#[test]
fn halts_on_stack_overflow() {
    let mut c = machine(&[0x22, 0x00]);
    for _ in 0..16 {
        step(&mut c);
    }
    assert_eq!(c.execute_with(&NO_KEYS, 0), Err(Halt::StackOverflow));
    assert_eq!(c.sp, 16);
}

#[test]
fn halts_on_memory_bounds() {
    let mut c = machine(&[0xAF, 0xFE, 0xF0, 0x33]);
    step(&mut c);
    assert_eq!(c.execute_with(&NO_KEYS, 0), Err(Halt::MemoryOutOfBounds));
}

#[test]
fn halts_on_key_out_of_range() {
    let mut c = machine(&[0x60, 0x10, 0xE0, 0x9E]);
    step(&mut c);
    assert_eq!(c.execute_with(&NO_KEYS, 0), Err(Halt::KeyOutOfRange));
}

#[test]
fn halts_on_index_overflow() {
    let mut c = machine(&[0xAF, 0xFF, 0x60, 0xFF, 0xF0, 0x1E, 0x12, 0x04]);
    let mut outcome = Ok(chip8::machine::Result { video_changed: false });
    for _ in 0..1000 {
        outcome = c.execute_with(&NO_KEYS, 0);
        if outcome.is_err() {
            break;
        }
    }
    assert_eq!(outcome, Err(Halt::IndexOverflow));
    assert!(c.index as u32 + 0xFF > 0xFFFF);
}

#[test]
fn halts_on_pc_past_memory() {
    let mut c = machine(&[0x1F, 0xFF]);
    step(&mut c);
    assert_eq!(c.pc, 0xFFF);
    assert_eq!(c.execute_with(&NO_KEYS, 0), Err(Halt::PcOutOfBounds));
}
