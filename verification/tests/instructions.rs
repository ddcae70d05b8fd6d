use chip8::cpu::{decode, Instruction, Mode, CPU};
use chip8::display::Display;
use chip8::keypad::Keypad;
use chip8::ram::RAM;
use chip8::timer::Timer;
use chip8::Fault;

fn machine() -> (CPU, RAM, Display, Keypad, Timer) {
    (CPU::new(), RAM::new(), Display::new(), Keypad::new(), Timer::new())
}

#[test]
fn set_register_then_read_back() {
    // Every register reads back exactly the immediate written to it.
    for r in 0..16u8 {
        for v in [0u8, 1, 0x7F, 0xAB, 0xFF] {
            let mut cpu = CPU::new();
            cpu.set_register(r, v);
            assert_eq!(cpu.registers[r as usize], v);
        }
    }
}

#[test]
fn wrapping_add_sets_carry_flag() {
    let mut cpu = CPU::new();
    cpu.set_register(0, 0xFF);
    cpu.set_register(1, 0x01);
    cpu.add_register_register(0, 1);
    assert_eq!(cpu.registers[0], 0x00);
    assert_eq!(cpu.registers[0xF], 1);

    let mut cpu = CPU::new();
    cpu.set_register(0, 0x01);
    cpu.set_register(1, 0x01);
    cpu.add_register_register(0, 1);
    assert_eq!(cpu.registers[0], 0x02);
    assert_eq!(cpu.registers[0xF], 0);
}

#[test]
fn subtract_borrow_convention() {
    let mut cpu = CPU::new();
    cpu.set_register(0, 0x05);
    cpu.set_register(1, 0x03);
    cpu.sub_register_register(0, 1);
    assert_eq!(cpu.registers[0], 0x02);
    assert_eq!(cpu.registers[0xF], 1); // no borrow

    let mut cpu = CPU::new();
    cpu.set_register(0, 0x03);
    cpu.set_register(1, 0x05);
    cpu.sub_register_register(0, 1);
    assert_eq!(cpu.registers[0], 0xFE);
    assert_eq!(cpu.registers[0xF], 0); // borrow occurred
}

#[test]
fn subtract_reverse_borrow_convention() {
    let mut cpu = CPU::new();
    cpu.set_register(0, 0x03);
    cpu.set_register(1, 0x05);
    cpu.sub_register_register_reverse(0, 1);
    assert_eq!(cpu.registers[0], 0x02);
    assert_eq!(cpu.registers[0xF], 1);

    let mut cpu = CPU::new();
    cpu.set_register(0, 0x05);
    cpu.set_register(1, 0x03);
    cpu.sub_register_register_reverse(0, 1);
    assert_eq!(cpu.registers[0], 0xFE);
    assert_eq!(cpu.registers[0xF], 0);
}

#[test]
fn shifts_capture_bit_before_shifting() {
    let mut cpu = CPU::new();
    cpu.set_register(2, 0x03);
    cpu.shift_right(2);
    assert_eq!(cpu.registers[2], 0x01);
    assert_eq!(cpu.registers[0xF], 1);

    let mut cpu = CPU::new();
    cpu.set_register(2, 0x81);
    cpu.shift_left(2);
    assert_eq!(cpu.registers[2], 0x02);
    assert_eq!(cpu.registers[0xF], 1);
}

#[test]
fn shift_of_flag_register_uses_captured_bit() {
    // When the operand is the flag register itself, the captured bit is
    // written first and is what gets shifted.
    let mut cpu = CPU::new();
    cpu.set_register(0xF, 0x03);
    cpu.shift_right(0xF);
    assert_eq!(cpu.registers[0xF], 0); // (0x03 & 1) >> 1
}

#[test]
fn add_immediate_wraps_without_flag() {
    let mut cpu = CPU::new();
    cpu.set_register(4, 0xFE);
    cpu.set_register(0xF, 9);
    cpu.add_to_register(4, 5);
    assert_eq!(cpu.registers[4], 3);
    assert_eq!(cpu.registers[0xF], 9); // no flag side effect
}

#[test]
fn bitwise_register_ops() {
    let mut cpu = CPU::new();
    cpu.set_register(0, 0b1100);
    cpu.set_register(1, 0b1010);
    cpu.set_register_or(0, 1);
    assert_eq!(cpu.registers[0], 0b1110);

    cpu.set_register(0, 0b1100);
    cpu.set_register_and(0, 1);
    assert_eq!(cpu.registers[0], 0b1000);

    cpu.set_register(0, 0b1100);
    cpu.set_register_xor(0, 1);
    assert_eq!(cpu.registers[0], 0b0110);

    cpu.set_register_register(2, 1);
    assert_eq!(cpu.registers[2], 0b1010);
}

#[test]
fn store_bcd_writes_three_digits() {
    let mut cpu = CPU::new();
    let mut ram = RAM::new();
    cpu.set_register(7, 156);
    cpu.set_index_register(0x400);
    cpu.store_bcd(7, &mut ram);
    assert_eq!(ram.read(0x400), 1);
    assert_eq!(ram.read(0x401), 5);
    assert_eq!(ram.read(0x402), 6);
}

#[test]
fn jump_sets_pc_exactly() {
    let mut cpu = CPU::new();
    cpu.jump_to_address(0x300);
    assert_eq!(cpu.program_counter, 0x300);
}

#[test]
fn jump_with_offset_adds_register_zero() {
    let mut cpu = CPU::new();
    cpu.set_register(0, 5);
    cpu.jump_to_address_plus_register(0x300);
    assert_eq!(cpu.program_counter, 0x305);
}

#[test]
fn call_then_return_restores_pc_plus_two() {
    let mut cpu = CPU::new();
    let before = cpu.program_counter;
    cpu.call_subroutine(0x345);
    assert_eq!(cpu.program_counter, 0x345);
    assert_eq!(cpu.stack.len(), 1);
    cpu.return_from_subroutine();
    assert_eq!(cpu.program_counter, before + 2);
    assert_eq!(cpu.stack.len(), 0);
}

#[test]
fn skip_instructions_advance_four_or_two() {
    let mut cpu = CPU::new();
    let pc = cpu.program_counter;
    cpu.set_register(3, 0x42);
    let pc = pc + 2;
    cpu.skip_if_equal(3, 0x42);
    assert_eq!(cpu.program_counter, pc + 4);
    cpu.skip_if_equal(3, 0x41);
    assert_eq!(cpu.program_counter, pc + 6);
    cpu.skip_if_not_equal(3, 0x41);
    assert_eq!(cpu.program_counter, pc + 10);
    cpu.set_register(4, 0x42);
    cpu.skip_if_equal_register(3, 4);
    assert_eq!(cpu.program_counter, pc + 16);
    cpu.skip_if_not_equal_register(3, 4);
    assert_eq!(cpu.program_counter, pc + 18);
}

#[test]
fn index_register_instructions() {
    let mut cpu = CPU::new();
    cpu.set_index_register(0xABC);
    assert_eq!(cpu.index_register, 0xABC);

    cpu.set_register(2, 7);
    cpu.add_index_register_register(2);
    assert_eq!(cpu.index_register, 0xAC3);

    // the 16-bit add wraps
    cpu.index_register = 0xFFFF;
    cpu.add_index_register_register(2);
    assert_eq!(cpu.index_register, 6);

    cpu.set_register(3, 2);
    cpu.set_index_register_sprite(3);
    assert_eq!(cpu.index_register, 10); // glyphs are 5 bytes each
}

#[test]
fn random_and_masks_the_register() {
    let mut cpu = CPU::new();
    cpu.set_register(0, 0xAA);
    // A zero mask pins the result whatever byte was drawn.
    cpu.set_register_random(0, 0x00);
    assert_eq!(cpu.registers[0], 0);
    cpu.set_register_random(1, 0x0F);
    assert!(cpu.registers[1] <= 0x0F);
}

#[test]
fn store_and_load_registers_round_trip() {
    let mut cpu = CPU::new();
    let mut ram = RAM::new();
    for r in 0..4u8 {
        cpu.set_register(r, 10 + r);
    }
    cpu.set_index_register(0x500);
    cpu.store_registers(3, &mut ram);
    for r in 0..4u16 {
        assert_eq!(ram.read(0x500 + r), 10 + r as u8);
    }
    // memory past the block is untouched
    assert_eq!(ram.read(0x504), 0);

    let mut other = CPU::new();
    other.set_register(5, 99);
    other.set_index_register(0x500);
    other.load_registers(3, &ram);
    for r in 0..4u8 {
        assert_eq!(other.registers[r as usize], 10 + r);
    }
    assert_eq!(other.registers[5], 99); // higher registers keep their values
}

#[test]
fn timer_instructions_and_ticks() {
    let mut cpu = CPU::new();
    let mut timer = Timer::new();
    cpu.set_register(6, 3);
    cpu.set_delay_timer_register(6, &mut timer);
    assert_eq!(timer.read_delay_timer(), 3);
    cpu.set_sound_timer_register(6, &mut timer);
    assert_eq!(timer.read_sound_timer(), 3);

    cpu.set_register_delay_timer(7, &timer);
    assert_eq!(cpu.registers[7], 3);

    timer.tick_delay();
    timer.tick_delay();
    timer.tick_delay();
    timer.tick_delay();
    assert_eq!(timer.read_delay_timer(), 0); // clamped at zero
    timer.tick_sound();
    assert_eq!(timer.read_sound_timer(), 2);
}

#[test]
fn decode_families_and_operands() {
    assert_eq!(decode(0x00E0), Instruction::ClearScreen);
    assert_eq!(decode(0x00EE), Instruction::Return);
    assert_eq!(decode(0x1234), Instruction::Jump(0x234));
    assert_eq!(decode(0x2ABC), Instruction::Call(0xABC));
    assert_eq!(decode(0x3A42), Instruction::SkipEqImm(0xA, 0x42));
    assert_eq!(decode(0x4A42), Instruction::SkipNeImm(0xA, 0x42));
    assert_eq!(decode(0x5AB0), Instruction::SkipEqReg(0xA, 0xB));
    assert_eq!(decode(0x6A42), Instruction::SetImm(0xA, 0x42));
    assert_eq!(decode(0x7A42), Instruction::AddImm(0xA, 0x42));
    assert_eq!(decode(0x8AB0), Instruction::CopyReg(0xA, 0xB));
    assert_eq!(decode(0x8AB1), Instruction::OrReg(0xA, 0xB));
    assert_eq!(decode(0x8AB2), Instruction::AndReg(0xA, 0xB));
    assert_eq!(decode(0x8AB3), Instruction::XorReg(0xA, 0xB));
    assert_eq!(decode(0x8AB4), Instruction::AddReg(0xA, 0xB));
    assert_eq!(decode(0x8AB5), Instruction::SubReg(0xA, 0xB));
    assert_eq!(decode(0x8AB6), Instruction::ShiftRight(0xA));
    assert_eq!(decode(0x8AB7), Instruction::SubRevReg(0xA, 0xB));
    assert_eq!(decode(0x8ABE), Instruction::ShiftLeft(0xA));
    assert_eq!(decode(0x9AB0), Instruction::SkipNeReg(0xA, 0xB));
    assert_eq!(decode(0xA123), Instruction::SetIndex(0x123));
    assert_eq!(decode(0xB123), Instruction::JumpOffset(0x123));
    assert_eq!(decode(0xCA42), Instruction::RandomAnd(0xA, 0x42));
    assert_eq!(decode(0xDAB5), Instruction::Draw(0xA, 0xB, 5));
    assert_eq!(decode(0xEA9E), Instruction::SkipKey(0xA));
    assert_eq!(decode(0xEAA1), Instruction::SkipNoKey(0xA));
    assert_eq!(decode(0xFA07), Instruction::ReadDelay(0xA));
    assert_eq!(decode(0xFA0A), Instruction::WaitKey(0xA));
    assert_eq!(decode(0xFA15), Instruction::SetDelay(0xA));
    assert_eq!(decode(0xFA18), Instruction::SetSound(0xA));
    assert_eq!(decode(0xFA1E), Instruction::AddIndex(0xA));
    assert_eq!(decode(0xFA29), Instruction::FontIndex(0xA));
    assert_eq!(decode(0xFA33), Instruction::StoreBcd(0xA));
    assert_eq!(decode(0xFA55), Instruction::StoreRegs(0xA));
    assert_eq!(decode(0xFA65), Instruction::LoadRegs(0xA));
    assert_eq!(decode(0xFFFF), Instruction::Unknown);
    assert_eq!(decode(0x0123), Instruction::Unknown);
    assert_eq!(decode(0x8AB8), Instruction::Unknown);
    assert_eq!(decode(0xEA00), Instruction::Unknown);
}

#[test]
fn unknown_opcode_is_a_two_byte_no_op() {
    let (mut cpu, mut ram, mut display, keypad, mut timer) = machine();
    let regs_before = cpu.registers.clone();
    let pc_before = cpu.program_counter;
    let r = cpu.execute_opcode(0xFFFF, &mut ram, &mut display, &keypad, &mut timer);
    assert!(r.is_ok());
    assert_eq!(cpu.registers, regs_before);
    assert_eq!(cpu.program_counter, pc_before + 2);
    assert_eq!(cpu.mode, Mode::Running);
}

#[test]
fn return_on_empty_stack_is_a_fault() {
    let (mut cpu, mut ram, mut display, keypad, mut timer) = machine();
    let r = cpu.execute_opcode(0x00EE, &mut ram, &mut display, &keypad, &mut timer);
    assert_eq!(r, Err(Fault::StackUnderflow));
    assert_eq!(cpu.program_counter, 0x200); // untouched
}

#[test]
fn call_past_capacity_is_a_fault() {
    let (mut cpu, mut ram, mut display, keypad, mut timer) = machine();
    for _ in 0..16 {
        let r = cpu.execute_opcode(0x2300, &mut ram, &mut display, &keypad, &mut timer);
        assert!(r.is_ok());
    }
    assert_eq!(cpu.stack.len(), 16);
    let r = cpu.execute_opcode(0x2300, &mut ram, &mut display, &keypad, &mut timer);
    assert_eq!(r, Err(Fault::StackOverflow));
    assert_eq!(cpu.stack.len(), 16);
}

#[test]
fn memory_instructions_out_of_bounds_are_faults() {
    let (mut cpu, mut ram, mut display, keypad, mut timer) = machine();
    cpu.set_index_register(0xFFE);
    // BCD needs three bytes at 0xFFE..=0x1000: out of bounds.
    let r = cpu.execute_opcode(0xF033, &mut ram, &mut display, &keypad, &mut timer);
    assert_eq!(r, Err(Fault::MemoryOutOfBounds));
    // Storing registers 0..=2 at 0xFFE runs past the end too.
    let r = cpu.execute_opcode(0xF255, &mut ram, &mut display, &keypad, &mut timer);
    assert_eq!(r, Err(Fault::MemoryOutOfBounds));
    let r = cpu.execute_opcode(0xF265, &mut ram, &mut display, &keypad, &mut timer);
    assert_eq!(r, Err(Fault::MemoryOutOfBounds));
    // A 3-row sprite read from 0xFFE runs past the end as well.
    let r = cpu.execute_opcode(0xD013, &mut ram, &mut display, &keypad, &mut timer);
    assert_eq!(r, Err(Fault::MemoryOutOfBounds));
    // Two bytes at 0xFFE fit exactly.
    let r = cpu.execute_opcode(0xF155, &mut ram, &mut display, &keypad, &mut timer);
    assert!(r.is_ok());
}
