use chip8::chip8::{Chip8, LoadError, PROGRAM_CAPACITY};
use chip8::font::{font_table, load_font};
use chip8::ram::Ram;
use chip8::state::{Fault, StepOutcome};

const FONT: [u8; 80] = [
    0xF0, 0x90, 0x90, 0x90, 0xF0, // 0
    0x20, 0x60, 0x20, 0x20, 0x70, // 1
    0xF0, 0x10, 0xF0, 0x80, 0xF0, // 2
    0xF0, 0x10, 0xF0, 0x10, 0xF0, // 3
    0x90, 0x90, 0xF0, 0x10, 0x10, // 4
    0xF0, 0x80, 0xF0, 0x10, 0xF0, // 5
    0xF0, 0x80, 0xF0, 0x90, 0xF0, // 6
    0xF0, 0x10, 0x20, 0x40, 0x40, // 7
    0xF0, 0x90, 0xF0, 0x90, 0xF0, // 8
    0xF0, 0x90, 0xF0, 0x10, 0xF0, // 9
    0xF0, 0x90, 0xF0, 0x90, 0x90, // A
    0xE0, 0x90, 0xE0, 0x90, 0xE0, // B
    0xF0, 0x80, 0x80, 0x80, 0xF0, // C
    0xE0, 0x90, 0x90, 0x90, 0xE0, // D
    0xF0, 0x80, 0xF0, 0x80, 0xF0, // E
    0xF0, 0x80, 0xF0, 0x80, 0x80, // F
];

#[test]
fn font_table_holds_the_sixteen_glyphs() {
    assert_eq!(font_table().to_vec(), FONT.to_vec());
}

#[test]
fn glyph_zero_is_at_address_zero() {
    let chip8 = Chip8::new();
    let glyph: Vec<u8> = (0..5u16).map(|a| chip8.ram().read_byte(a)).collect();
    assert_eq!(glyph, vec![0xF0, 0x90, 0x90, 0x90, 0xF0]);
}

#[test]
fn new_machine_holds_the_font_and_nothing_else() {
    let chip8 = Chip8::new();
    for address in 0..4096u16 {
        let expected = if address < 80 { FONT[address as usize] } else { 0 };
        assert_eq!(chip8.ram().read_byte(address), expected);
    }
    assert_eq!(chip8.display_buffer().to_vec(), vec![0u8; 2048]);
    assert_eq!(chip8.cpu().program_counter(), 0x0200);
    assert_eq!(chip8.cpu().stack_pointer(), 0);
}

#[test]
fn load_font_leaves_the_rest_of_memory() {
    let mut ram = Ram::new();
    ram.write_byte(3, 0xEE);
    ram.write_byte(80, 0x55);
    ram.write_byte(0x0FFF, 0x66);
    load_font(&mut ram);
    assert_eq!(ram.read_byte(3), 0x90);
    assert_eq!(ram.read_byte(79), 0x80);
    assert_eq!(ram.read_byte(80), 0x55);
    assert_eq!(ram.read_byte(0x0FFF), 0x66);
}

#[test]
fn load_rom_copies_the_program_to_0x200() {
    let mut chip8 = Chip8::new();
    assert_eq!(chip8.load_rom(&[0x12, 0x34, 0x56]), Ok(()));
    assert_eq!(chip8.ram().read_byte(0x1FF), 0);
    assert_eq!(chip8.ram().read_byte(0x200), 0x12);
    assert_eq!(chip8.ram().read_byte(0x201), 0x34);
    assert_eq!(chip8.ram().read_byte(0x202), 0x56);
    assert_eq!(chip8.ram().read_byte(0x203), 0);
    assert_eq!(chip8.ram().read_byte(0), 0xF0);
}

#[test]
fn load_rom_takes_a_program_that_fills_memory() {
    let rom: Vec<u8> = (0..PROGRAM_CAPACITY).map(|k| (k % 251) as u8 + 1).collect();
    let mut chip8 = Chip8::new();
    assert_eq!(chip8.load_rom(&rom), Ok(()));
    assert_eq!(chip8.ram().read_byte(0x200), 1);
    assert_eq!(chip8.ram().read_byte(0xFFF), ((PROGRAM_CAPACITY - 1) % 251) as u8 + 1);
    assert_eq!(chip8.ram().read_byte(0), 0xF0);
    assert_eq!(chip8.ram().read_byte(79), 0x80);
}

#[test]
fn load_rom_refuses_a_program_that_is_too_large() {
    let rom = vec![0xAAu8; PROGRAM_CAPACITY + 1];
    let mut chip8 = Chip8::new();
    assert_eq!(chip8.load_rom(&rom), Err(LoadError::TooLarge));
    for address in 0..4096u16 {
        let expected = if address < 80 { FONT[address as usize] } else { 0 };
        assert_eq!(chip8.ram().read_byte(address), expected);
    }
}

#[test]
fn load_rom_of_nothing_changes_nothing() {
    let mut chip8 = Chip8::new();
    assert_eq!(chip8.load_rom(&[]), Ok(()));
    assert_eq!(chip8.ram().read_byte(0x200), 0);
}

#[test]
fn cycle_steps_and_ticks_the_timers() {
    let mut chip8 = Chip8::new();
    // V1 = 3; delay = V1; sound = V1; V2 = delay
    chip8.load_rom(&[0x61, 3, 0xF1, 0x15, 0xF1, 0x18, 0xF2, 0x07]).unwrap();
    assert_eq!(chip8.cycle(), StepOutcome::Continue);
    assert_eq!(chip8.cycle(), StepOutcome::Continue);
    assert_eq!(chip8.cpu().delay_timer(), 2);
    assert_eq!(chip8.cycle(), StepOutcome::Continue);
    assert_eq!(chip8.cpu().delay_timer(), 1);
    assert_eq!(chip8.cpu().sound_timer(), 2);
    assert_eq!(chip8.cycle(), StepOutcome::Continue);
    assert_eq!(chip8.cpu().register(2), 1);
    assert_eq!(chip8.cpu().delay_timer(), 0);
    assert_eq!(chip8.cpu().sound_timer(), 1);
    assert_eq!(chip8.cpu().program_counter(), 0x0208);
}

#[test]
fn cycle_that_faults_does_not_tick() {
    let mut chip8 = Chip8::new();
    chip8.load_rom(&[0x61, 9, 0xF1, 0x15, 0xFF, 0xFF]).unwrap();
    assert_eq!(chip8.run(2), StepOutcome::Continue);
    assert_eq!(chip8.cpu().delay_timer(), 8);
    assert_eq!(chip8.cycle(), StepOutcome::Fault(Fault::UnknownInstruction(0xFFFF)));
    assert_eq!(chip8.cpu().delay_timer(), 8);
    assert_eq!(chip8.cpu().program_counter(), 0x0204);
}

#[test]
fn run_stops_at_the_first_fault() {
    let mut chip8 = Chip8::new();
    chip8.load_rom(&[0x61, 1, 0x71, 1, 0x71, 1, 0x00, 0x00, 0x71, 1]).unwrap();
    assert_eq!(chip8.run(100), StepOutcome::Fault(Fault::UnknownInstruction(0x0000)));
    assert_eq!(chip8.cpu().register(1), 3);
    assert_eq!(chip8.cpu().program_counter(), 0x0206);
}

#[test]
fn run_of_no_cycles_changes_nothing() {
    let mut chip8 = Chip8::new();
    chip8.load_rom(&[0x61, 1]).unwrap();
    assert_eq!(chip8.run(0), StepOutcome::Continue);
    assert_eq!(chip8.cpu().register(1), 0);
    assert_eq!(chip8.cpu().program_counter(), 0x0200);
}

#[test]
fn run_draws_a_glyph_from_the_font() {
    let mut chip8 = Chip8::new();
    // V0 = 7; I = glyph of V0; draw 5 rows at (V1, V1) = (0, 0)
    chip8.load_rom(&[0x60, 7, 0xF0, 0x29, 0xD1, 0x15]).unwrap();
    assert_eq!(chip8.run(3), StepOutcome::Continue);
    assert_eq!(chip8.cpu().index_register(), 35);
    let rows = [0xF0u8, 0x10, 0x20, 0x40, 0x40];
    let display = chip8.display_buffer();
    for (row, byte) in rows.iter().enumerate() {
        for column in 0..8usize {
            assert_eq!(display[row * 64 + column], (byte >> (7 - column)) & 1);
        }
    }
    assert_eq!(display.iter().filter(|pixel| **pixel != 0).count(), 4 + 1 + 1 + 1 + 1);
}

#[test]
fn machine_keys_reach_the_interpreter() {
    let mut chip8 = Chip8::new();
    chip8.load_rom(&[0xF3, 0x0A]).unwrap();
    assert_eq!(chip8.run(3), StepOutcome::Continue);
    assert_eq!(chip8.cpu().program_counter(), 0x0200);
    chip8.set_key(9, true);
    assert_eq!(chip8.cycle(), StepOutcome::Continue);
    assert_eq!(chip8.cpu().register(3), 9);
    assert_eq!(chip8.cpu().program_counter(), 0x0202);
}
