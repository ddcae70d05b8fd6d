use chip8::cpu::{Mode, CPU};
use chip8::display::Display;
use chip8::keypad::Keypad;
use chip8::ram::RAM;
use chip8::timer::Timer;
use chip8::Fault;

#[test]
fn end_to_end_bcd_program() {
    // set r0 = 5, set r1 = 10, add r1 into r0, store BCD of r0.
    let program: Vec<u8> = vec![0x60, 0x05, 0x61, 0x0A, 0x80, 0x14, 0xF0, 0x33];
    let mut cpu = CPU::new();
    let mut ram = RAM::new();
    let mut display = Display::new();
    let keypad = Keypad::new();
    let mut timer = Timer::new();
    ram.load_fontset();
    ram.load_rom(&program).unwrap();
    for _ in 0..4 {
        cpu.cycle(&mut ram, &mut display, &keypad, &mut timer).unwrap();
    }
    assert_eq!(cpu.registers[0], 15);
    let index = cpu.index_register;
    assert_eq!(ram.read(index), 0);
    assert_eq!(ram.read(index + 1), 1);
    assert_eq!(ram.read(index + 2), 5);
}

#[test]
fn draw_twice_restores_framebuffer_and_collides() {
    let mut display = Display::new();
    let sprite: Vec<u8> = vec![0xF0, 0x90, 0xF0];
    let first = display.draw(10, 5, &sprite);
    assert!(!first); // empty screen: nothing to turn off
    let lit: Vec<bool> = display.pixels.clone();
    assert!(lit.iter().filter(|p| **p).count() == 10); // 4 + 2 + 4 set bits
    let second = display.draw(10, 5, &sprite);
    assert!(second); // every previously-set cell collides
    // XOR idempotence: the grid is back to its pre-draw state.
    assert!(display.pixels.iter().all(|p| !*p));
}

#[test]
fn draw_wraps_at_both_screen_edges() {
    let mut display = Display::new();
    let sprite: Vec<u8> = vec![0b1000_0001];
    display.draw(60, 31, &sprite);
    // columns 60..=67 wrap to 60..=63 and 0..=3; row 31 stays.
    assert!(display.pixels[31 * 64 + 60]); // leftmost bit
    assert!(display.pixels[31 * 64 + 3]); // rightmost bit, wrapped
    let mut display = Display::new();
    let tall: Vec<u8> = vec![0x80, 0x80];
    display.draw(0, 31, &tall);
    assert!(display.pixels[31 * 64]); // first row at the bottom edge
    assert!(display.pixels[0]); // second row wrapped to the top
}

#[test]
fn draw_instruction_sets_flag_and_dirty() {
    let mut cpu = CPU::new();
    let mut ram = RAM::new();
    let mut display = Display::new();
    let keypad = Keypad::new();
    let mut timer = Timer::new();
    ram.write(0x300, 0xFF);
    cpu.set_index_register(0x300);
    cpu.set_register(0, 4); // x
    cpu.set_register(1, 7); // y
    assert!(!display.take_dirty());
    let r = cpu.execute_opcode(0xD011, &mut ram, &mut display, &keypad, &mut timer);
    assert!(r.is_ok());
    assert_eq!(cpu.registers[0xF], 0);
    assert!(display.take_dirty());
    for c in 0..8usize {
        assert!(display.pixels[7 * 64 + 4 + c]);
    }
    // drawing the same row again turns everything off and reports collision
    let r = cpu.execute_opcode(0xD011, &mut ram, &mut display, &keypad, &mut timer);
    assert!(r.is_ok());
    assert_eq!(cpu.registers[0xF], 1);
    assert!(display.pixels.iter().all(|p| !*p));
}

#[test]
fn clear_screen_zeroes_and_marks_dirty() {
    let mut cpu = CPU::new();
    let mut display = Display::new();
    let sprite: Vec<u8> = vec![0xFF];
    display.draw(0, 0, &sprite);
    assert!(display.pixels.iter().any(|p| *p));
    cpu.clear_screen(&mut display);
    assert!(display.pixels.iter().all(|p| !*p));
    assert!(display.take_dirty());
    assert_eq!(cpu.program_counter, 0x202);
}

#[test]
fn wait_for_key_suspends_until_a_key_arrives() {
    let mut cpu = CPU::new();
    let mut ram = RAM::new();
    let mut display = Display::new();
    let mut keypad = Keypad::new();
    let mut timer = Timer::new();
    // program: wait for a key into r3
    ram.load_rom(&vec![0xF3, 0x0A]).unwrap();
    cpu.cycle(&mut ram, &mut display, &keypad, &mut timer).unwrap();
    assert_eq!(cpu.mode, Mode::AwaitingKey(3));
    assert_eq!(cpu.program_counter, 0x200); // still on the wait instruction

    // no key pressed: the machine idles in place
    cpu.cycle(&mut ram, &mut display, &keypad, &mut timer).unwrap();
    assert_eq!(cpu.mode, Mode::AwaitingKey(3));
    assert_eq!(cpu.program_counter, 0x200);

    // keys 9 and 5 pressed: the lowest index lands in r3 and execution resumes
    keypad.set_key(9, true);
    keypad.set_key(5, true);
    cpu.cycle(&mut ram, &mut display, &keypad, &mut timer).unwrap();
    assert_eq!(cpu.mode, Mode::Running);
    assert_eq!(cpu.registers[3], 5);
    assert_eq!(cpu.program_counter, 0x202);
}

#[test]
fn skip_on_key_state() {
    let mut cpu = CPU::new();
    let mut keypad = Keypad::new();
    keypad.set_key(0xA, true);
    cpu.set_register(2, 0xA);
    let pc = cpu.program_counter;
    cpu.skip_if_key_pressed(2, &keypad);
    assert_eq!(cpu.program_counter, pc + 4);
    cpu.skip_if_key_not_pressed(2, &keypad);
    assert_eq!(cpu.program_counter, pc + 6);
    // a register value outside the 16 keys selects no key
    cpu.set_register(2, 0xAB);
    cpu.skip_if_key_pressed(2, &keypad);
    assert_eq!(cpu.program_counter, pc + 10);
    cpu.skip_if_key_not_pressed(2, &keypad);
    assert_eq!(cpu.program_counter, pc + 14);
}

#[test]
fn keypad_reports_lowest_pressed_key() {
    let mut keypad = Keypad::new();
    assert_eq!(keypad.first_pressed(), None);
    keypad.set_key(7, true);
    keypad.set_key(2, true);
    assert_eq!(keypad.first_pressed(), Some(2));
    assert!(keypad.is_pressed(7));
    assert!(!keypad.is_pressed(3));
    assert!(!keypad.is_pressed(0xFF));
    keypad.set_key(2, false);
    assert_eq!(keypad.first_pressed(), Some(7));
}

#[test]
fn cycle_faults_on_program_counter_past_memory() {
    let mut cpu = CPU::new();
    let mut ram = RAM::new();
    let mut display = Display::new();
    let keypad = Keypad::new();
    let mut timer = Timer::new();
    cpu.jump_to_address(0xFFF);
    let r = cpu.cycle(&mut ram, &mut display, &keypad, &mut timer);
    assert_eq!(r, Err(Fault::MemoryOutOfBounds));
    assert_eq!(cpu.program_counter, 0xFFF); // untouched
}

#[test]
fn fontset_is_loaded_at_address_zero() {
    let mut ram = RAM::new();
    ram.load_fontset();
    assert_eq!(ram.read(0), 0xF0); // first row of glyph 0
    assert_eq!(ram.read(5), 0x20); // first row of glyph 1
    assert_eq!(ram.read(79), 0x80); // last row of glyph F
    assert_eq!(ram.read(80), 0); // untouched past the font
}

#[test]
fn load_rom_copies_at_program_base_and_rejects_oversize() {
    let mut ram = RAM::new();
    assert!(ram.load_rom(&vec![]).is_ok()); // an empty image is fine
    let image: Vec<u8> = vec![1, 2, 3];
    assert!(ram.load_rom(&image).is_ok());
    assert_eq!(ram.read(0x200), 1);
    assert_eq!(ram.read(0x201), 2);
    assert_eq!(ram.read(0x202), 3);
    assert_eq!(ram.read(0x1FF), 0);
    assert_eq!(ram.read(0x203), 0);

    let largest: Vec<u8> = vec![7; 4096 - 0x200];
    let mut ram = RAM::new();
    assert!(ram.load_rom(&largest).is_ok());
    assert_eq!(ram.read(4095), 7);

    let oversize: Vec<u8> = vec![7; 4096 - 0x200 + 1];
    let mut ram = RAM::new();
    assert_eq!(ram.load_rom(&oversize), Err(Fault::MemoryOutOfBounds));
    assert_eq!(ram.read(0x200), 0); // memory untouched
}

#[test]
fn ram_read_write_round_trip() {
    let mut ram = RAM::new();
    ram.write(0, 0xAA);
    ram.write(4095, 0x55);
    assert_eq!(ram.read(0), 0xAA);
    assert_eq!(ram.read(4095), 0x55);
    assert_eq!(ram.read(1), 0);
}

#[test]
fn read_delay_timer_into_register_via_cycle() {
    let mut cpu = CPU::new();
    let mut ram = RAM::new();
    let mut display = Display::new();
    let keypad = Keypad::new();
    let mut timer = Timer::new();
    timer.set_delay_timer(42);
    // program: r6 = delay timer
    ram.load_rom(&vec![0xF6, 0x07]).unwrap();
    cpu.cycle(&mut ram, &mut display, &keypad, &mut timer).unwrap();
    assert_eq!(cpu.registers[6], 42);
    assert_eq!(cpu.program_counter, 0x202);
}

#[test]
fn font_index_points_at_the_glyph_drawn() {
    // r0 = 0xB, index = glyph address, draw the 5-row glyph at (0, 0).
    let mut cpu = CPU::new();
    let mut ram = RAM::new();
    let mut display = Display::new();
    let keypad = Keypad::new();
    let mut timer = Timer::new();
    ram.load_fontset();
    ram.load_rom(&vec![0x60, 0x0B, 0xF0, 0x29, 0x61, 0x00, 0xD1, 0x15]).unwrap();
    for _ in 0..4 {
        cpu.cycle(&mut ram, &mut display, &keypad, &mut timer).unwrap();
    }
    assert_eq!(cpu.index_register, 0xB * 5);
    // first row of glyph B is 0xE0: three lit cells at the top-left corner
    assert!(display.pixels[0] && display.pixels[1] && display.pixels[2]);
    assert!(!display.pixels[3]);
}
