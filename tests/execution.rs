use chip_8::{Chip8, Chip8Error, Instruction};

fn ready() -> Chip8 {
    let mut chip = Chip8::new();
    chip.initialize().unwrap();
    chip.load_program(vec![0x00, 0xE0]).unwrap();
    chip
}

fn run(program: Vec<u8>, cycles: usize) -> Chip8 {
    let mut chip = Chip8::new();
    chip.initialize().unwrap();
    chip.load_program(program).unwrap();
    for _ in 0..cycles {
        chip.cycle().unwrap();
    }
    chip
}

#[test]
fn add_with_overflow_sets_flag() {
    let chip = run(vec![0x60, 0xFF, 0x61, 0x01, 0x80, 0x14], 3);
    assert_eq!(chip.register(0), 0x00);
    assert_eq!(chip.register(0xF), 1);
}

#[test]
fn add_without_overflow_clears_flag() {
    let mut chip = ready();
    chip.instruction_set_immediate(0xF, 7);
    chip.instruction_set_immediate(0, 0x01);
    chip.instruction_set_immediate(1, 0x01);
    chip.instruction_add(0, 1);
    assert_eq!(chip.register(0), 0x02);
    assert_eq!(chip.register(0xF), 0);
}

#[test]
fn subtract_sets_flag_on_underflow() {
    let mut chip = ready();
    chip.instruction_set_immediate(0, 0x01);
    chip.instruction_set_immediate(1, 0x02);
    chip.instruction_subtract(0, 1);
    assert_eq!(chip.register(0), 0xFF);
    assert_eq!(chip.register(0xF), 1);
    chip.instruction_set_immediate(0, 0x05);
    chip.instruction_subtract(0, 1);
    assert_eq!(chip.register(0), 0x03);
    assert_eq!(chip.register(0xF), 0);
}

#[test]
fn vy_minus_vx_sets_flag_on_underflow() {
    let mut chip = ready();
    chip.instruction_set_immediate(2, 0x10);
    chip.instruction_set_immediate(3, 0x01);
    chip.instruction_set_vx_to_vy_minus_vx(2, 3);
    assert_eq!(chip.register(2), 0xF1);
    assert_eq!(chip.register(0xF), 1);
    chip.instruction_set_immediate(2, 0x01);
    chip.instruction_set_immediate(3, 0x10);
    chip.instruction_set_vx_to_vy_minus_vx(2, 3);
    assert_eq!(chip.register(2), 0x0F);
    assert_eq!(chip.register(0xF), 0);
}

#[test]
fn add_immediate_wraps_and_flags() {
    let mut chip = ready();
    chip.instruction_set_immediate(4, 0xF0);
    chip.instruction_add_immediate(4, 0x20);
    assert_eq!(chip.register(4), 0x10);
    assert_eq!(chip.register(0xF), 1);
    chip.instruction_add_immediate(4, 0x01);
    assert_eq!(chip.register(4), 0x11);
    assert_eq!(chip.register(0xF), 0);
}

#[test]
fn shifts_set_flag_from_the_shifted_out_bit() {
    let mut chip = ready();
    chip.instruction_set_immediate(1, 0b1000_0011);
    chip.instruction_right_shift(1);
    assert_eq!(chip.register(1), 0b0100_0001);
    assert_eq!(chip.register(0xF), 1);
    chip.instruction_set_immediate(1, 0b1000_0011);
    chip.instruction_left_shift(1);
    assert_eq!(chip.register(1), 0b0000_0110);
    assert_eq!(chip.register(0xF), 0x80);
    chip.instruction_left_shift(1);
    assert_eq!(chip.register(1), 0b0000_1100);
    assert_eq!(chip.register(0xF), 0);
}

#[test]
fn bitwise_operations_and_copy() {
    let mut chip = ready();
    chip.instruction_set_immediate(0, 0b1100);
    chip.instruction_set_immediate(1, 0b1010);
    chip.instruction_bitwise_or(0, 1);
    assert_eq!(chip.register(0), 0b1110);
    chip.instruction_bitwise_and(0, 1);
    assert_eq!(chip.register(0), 0b1010);
    chip.instruction_bitwise_xor(0, 1);
    assert_eq!(chip.register(0), 0);
    chip.instruction_copy(2, 1);
    assert_eq!(chip.register(2), 0b1010);
}

#[test]
fn skips_advance_by_one_instruction() {
    let mut chip = ready();
    chip.instruction_set_immediate(0, 7);
    chip.instruction_set_immediate(1, 7);
    chip.instruction_skip_if_register_equals(0, 7);
    assert_eq!(chip.program_counter(), 0x202);
    chip.instruction_skip_if_register_equals(0, 8);
    assert_eq!(chip.program_counter(), 0x202);
    chip.instruction_skip_if_register_not_equals(0, 8);
    assert_eq!(chip.program_counter(), 0x204);
    chip.instruction_skip_if_register_vx_equals_vy(0, 1);
    assert_eq!(chip.program_counter(), 0x206);
    chip.instruction_skip_if_register_vx_not_equals_vy(0, 1);
    assert_eq!(chip.program_counter(), 0x206);
}

#[test]
fn jumps_calls_and_returns() {
    let mut chip = ready();
    chip.instruction_jump(0x300);
    assert_eq!(chip.program_counter(), 0x300);
    chip.instruction_call(0x400).unwrap();
    assert_eq!(chip.program_counter(), 0x400);
    assert_eq!(chip.stack_pointer(), 0x1FE);
    assert_eq!(chip.word(0x1FE), 0x300);
    chip.instruction_return().unwrap();
    assert_eq!(chip.program_counter(), 0x300);
    assert_eq!(chip.stack_pointer(), 0x200);
    assert_eq!(chip.instruction_return(), Err(Chip8Error::StackUnderflow));
    chip.instruction_set_immediate(0, 0x10);
    chip.instruction_jump_with_pc_offset(0x234);
    assert_eq!(chip.program_counter(), 0x244);
}

#[test]
fn subroutine_through_cycles() {
    // 0x200: call 0x206; 0x202: V1 := 2; 0x204: jump 0x204; 0x206: V0 := 1; 0x208: return
    let chip = run(vec![0x22, 0x06, 0x61, 0x02, 0x12, 0x04, 0x60, 0x01, 0x00, 0xEE], 4);
    assert_eq!(chip.register(0), 1);
    assert_eq!(chip.register(1), 2);
    assert_eq!(chip.program_counter(), 0x204);
}

#[test]
fn index_register_instructions() {
    let mut chip = ready();
    chip.instruction_set_index_register(0x123);
    assert_eq!(chip.index_register(), 0x123);
    chip.instruction_set_immediate(3, 0x10);
    chip.instruction_add_to_index(3);
    assert_eq!(chip.index_register(), 0x133);
    assert_eq!(chip.register(0xF), 0);
    chip.instruction_set_index_to_font_character(3);
    assert_eq!(chip.index_register(), 0x10);
}

#[test]
fn binary_coded_decimal() {
    let mut chip = ready();
    chip.instruction_set_immediate(0, 254);
    chip.instruction_set_index_register(0x300);
    chip.instruction_set_index_to_binary_coded_vx(0).unwrap();
    assert_eq!((chip.byte(0x300), chip.byte(0x301), chip.byte(0x302)), (2, 5, 4));
    chip.instruction_set_immediate(0, 7);
    chip.instruction_set_index_to_binary_coded_vx(0).unwrap();
    assert_eq!((chip.byte(0x300), chip.byte(0x301), chip.byte(0x302)), (0, 0, 7));
    chip.instruction_set_index_register(0xFFE);
    assert_eq!(
        chip.instruction_set_index_to_binary_coded_vx(0),
        Err(Chip8Error::AddressOutOfRange { address: 0xFFE })
    );
    assert_eq!(chip.byte(0xFFE), 0);
}

#[test]
fn dump_and_load_registers_are_inclusive() {
    let mut chip = ready();
    for i in 0..16u8 {
        chip.instruction_set_immediate(i, i + 1);
    }
    chip.instruction_set_index_register(0x400);
    chip.instruction_dump_registers(3).unwrap();
    assert_eq!(chip.byte(0x400), 1);
    assert_eq!(chip.byte(0x403), 4);
    assert_eq!(chip.byte(0x404), 0);
    for i in 0..16u8 {
        chip.instruction_set_immediate(i, 0);
    }
    chip.instruction_load_registers(2).unwrap();
    assert_eq!(chip.register(0), 1);
    assert_eq!(chip.register(2), 3);
    assert_eq!(chip.register(3), 0);
    chip.instruction_set_index_register(0xFFF);
    assert_eq!(chip.instruction_dump_registers(1), Err(Chip8Error::AddressOutOfRange { address: 0xFFF }));
    assert_eq!(chip.instruction_load_registers(1), Err(Chip8Error::AddressOutOfRange { address: 0xFFF }));
    assert_eq!(chip.instruction_load_registers(0), Ok(()));
}

#[test]
fn timers_set_and_read() {
    let mut chip = ready();
    chip.instruction_set_immediate(5, 42);
    chip.instruction_set_delay_timer(5);
    chip.instruction_set_immediate(6, 9);
    chip.instruction_set_sound_timer(6);
    assert_eq!(chip.delay_timer.0, 42);
    assert_eq!(chip.sound_timer.0, 9);
    chip.instruction_set_vx_to_delay_timer(7);
    assert_eq!(chip.register(7), 42);
}

#[test]
fn key_pressed_skip_consumes_matching_key() {
    let mut chip = ready();
    chip.instruction_set_immediate(0, 0xA);
    chip.key_pressed = Some(0xB);
    chip.instruction_skip_if_key_pressed(0);
    assert_eq!(chip.program_counter(), 0x200);
    assert_eq!(chip.key_pressed, Some(0xB));
    chip.key_pressed = Some(0xA);
    chip.instruction_skip_if_key_pressed(0);
    assert_eq!(chip.program_counter(), 0x202);
    assert_eq!(chip.key_pressed, None);
    chip.instruction_skip_if_key_pressed(0);
    assert_eq!(chip.program_counter(), 0x202);
}

#[test]
fn key_not_pressed_skip_only_blocked_by_other_key() {
    let mut chip = ready();
    chip.instruction_set_immediate(0, 0xA);
    chip.key_pressed = None;
    chip.instruction_skip_if_key_not_pressed(0);
    assert_eq!(chip.program_counter(), 0x202);
    chip.key_pressed = Some(0xA);
    chip.instruction_skip_if_key_not_pressed(0);
    assert_eq!(chip.program_counter(), 0x204);
    chip.key_pressed = Some(0x3);
    chip.instruction_skip_if_key_not_pressed(0);
    assert_eq!(chip.program_counter(), 0x204);
}

#[test]
fn await_key_spins_until_a_key_is_held() {
    let mut chip = run(vec![0xF3, 0x0A], 0);
    chip.cycle().unwrap();
    assert_eq!(chip.program_counter(), 0x200);
    chip.cycle().unwrap();
    assert_eq!(chip.program_counter(), 0x200);
    chip.key_pressed = Some(0x7);
    chip.cycle().unwrap();
    assert_eq!(chip.program_counter(), 0x202);
    assert_eq!(chip.register(3), 0x7);
    assert_eq!(chip.key_pressed, None);
}

#[test]
fn random_is_masked() {
    let mut chip = ready();
    chip.instruction_random_masked(0, 0x0F, 0xAB);
    assert_eq!(chip.register(0), 0x0B);
    for _ in 0..64 {
        chip.instruction_random(1, 0x0F);
        assert_eq!(chip.register(1) & 0xF0, 0);
        chip.instruction_random(2, 0);
        assert_eq!(chip.register(2), 0);
    }
}

#[test]
fn random_draws_vary() {
    let mut chip = ready();
    let mut seen = [false; 256];
    for _ in 0..512 {
        chip.instruction_random(1, 0xFF);
        seen[chip.register(1) as usize] = true;
    }
    assert!(seen.iter().filter(|s| **s).count() > 1);
}

#[test]
fn unimplemented_instructions_fail() {
    let mut chip = ready();
    assert_eq!(
        chip.instruction_unknown(),
        Err(Chip8Error::UnimplementedInstruction { instruction: Instruction::Unknown })
    );
    assert_eq!(
        chip.execute(Instruction::CallMachineCodeRoutine),
        Err(Chip8Error::UnimplementedInstruction { instruction: Instruction::CallMachineCodeRoutine })
    );
}

#[test]
fn execute_with_random_is_deterministic() {
    let mut chip = ready();
    chip.execute_with_random(Instruction::Random { vx: 4, nn: 0xF0 }, 0x5A).unwrap();
    assert_eq!(chip.register(4), 0x50);
    chip.execute(Instruction::SetImmediate { vx: 4, nn: 0x11 }).unwrap();
    assert_eq!(chip.register(4), 0x11);
}
