use chip_8::{Chip8, Chip8Error, EmulatorState};

#[test]
fn cycle_before_load_fails() {
    let mut chip = Chip8::new();
    assert_eq!(chip.cycle(), Err(Chip8Error::ProgramNotLoaded));
    chip.initialize().unwrap();
    assert_eq!(chip.cycle(), Err(Chip8Error::ProgramNotLoaded));
    assert_eq!(chip.program_counter(), 0x200);
}

#[test]
fn load_before_initialize_fails() {
    let mut chip = Chip8::new();
    assert_eq!(chip.load_program(vec![0x60, 0x05]), Err(Chip8Error::InterpreterMemoryIsUninitialized));
    assert_eq!(chip.emulator_state(), EmulatorState::InterpreterMemoryUninitialized);
}

#[test]
fn end_to_end_two_instructions() {
    let mut chip = Chip8::new();
    chip.initialize().unwrap();
    chip.load_program(vec![0x60, 0x05, 0xA0, 0x00]).unwrap();
    chip.cycle().unwrap();
    chip.cycle().unwrap();
    assert_eq!(chip.register(0), 5);
    assert_eq!(chip.index_register(), 0);
    assert_eq!(chip.program_counter(), 0x204);
}

#[test]
fn load_program_round_trip() {
    let mut chip = Chip8::new();
    chip.initialize().unwrap();
    chip.load_program(vec![0xAB, 0xCD, 0x01, 0x02, 0x03]).unwrap();
    assert_eq!(chip.word(0x200), 0xABCD);
    assert_eq!(chip.byte(0x204), 0x03);
    for a in 0x205..0x1000 {
        assert_eq!(chip.byte(a), 0);
    }
    assert_eq!(chip.emulator_state(), EmulatorState::ProgramLoaded);
}

#[test]
fn reloading_zeroes_the_tail_of_a_longer_program() {
    let mut chip = Chip8::new();
    chip.initialize().unwrap();
    chip.load_program(vec![0x11; 64]).unwrap();
    chip.load_program(vec![0x22, 0x33]).unwrap();
    assert_eq!(chip.word(0x200), 0x2233);
    for a in 0x202..0x240 {
        assert_eq!(chip.byte(a), 0);
    }
}

#[test]
fn largest_program_fits_and_one_more_byte_does_not() {
    let mut chip = Chip8::new();
    chip.initialize().unwrap();
    assert_eq!(chip.load_program(vec![0x7F; 0xE00]), Ok(()));
    assert_eq!(chip.byte(0xFFF), 0x7F);
    assert_eq!(
        chip.load_program(vec![0x01; 0xE01]),
        Err(Chip8Error::AddressOutOfRange { address: 0x1000 })
    );
    assert_eq!(chip.byte(0x200), 0x7F);
}

#[test]
fn initialize_loads_font_and_resets() {
    let mut chip = Chip8::new();
    chip.initialize().unwrap();
    assert_eq!(chip.byte(0x050), 0xF0);
    assert_eq!(chip.byte(0x055), 0x20);
    assert_eq!(chip.byte(0x09F), 0x80);
    assert_eq!(chip.byte(0x0A0), 0);
    chip.load_program(vec![0x60, 0x09]).unwrap();
    chip.cycle().unwrap();
    assert_eq!(chip.register(0), 9);
    chip.initialize().unwrap();
    assert_eq!(chip.register(0), 0);
    assert_eq!(chip.program_counter(), 0x200);
    assert_eq!(chip.stack_pointer(), 0x200);
    assert_eq!(chip.byte(0x200), 0);
    assert_eq!(chip.emulator_state(), EmulatorState::InterpreterMemoryInitialized);
}

#[test]
fn normal_transition_into_initialized_is_refused_twice() {
    let mut state = EmulatorState::InterpreterMemoryUninitialized;
    assert_eq!(state.change_states(EmulatorState::InterpreterMemoryInitialized), Ok(()));
    assert_eq!(
        state.change_states(EmulatorState::InterpreterMemoryInitialized),
        Err(Chip8Error::InterpreterMemoryAlreadyInitialized)
    );
    assert_eq!(state.change_states(EmulatorState::ProgramLoaded), Ok(()));
    assert_eq!(
        state.change_states(EmulatorState::InterpreterMemoryInitialized),
        Err(Chip8Error::InterpreterMemoryAlreadyInitialized)
    );
    assert_eq!(state, EmulatorState::ProgramLoaded);
}

#[test]
fn invalid_word_aborts_cycle_after_fetch() {
    let mut chip = Chip8::new();
    chip.initialize().unwrap();
    chip.load_program(vec![0xFF, 0xFF]).unwrap();
    assert_eq!(chip.cycle(), Err(Chip8Error::InvalidInstruction { instruction: 0xFFFF }));
    assert_eq!(chip.program_counter(), 0x202);
}

#[test]
fn native_routine_aborts_cycle() {
    let mut chip = Chip8::new();
    chip.initialize().unwrap();
    chip.load_program(vec![0x01, 0x23]).unwrap();
    assert_eq!(chip.cycle(), Err(Chip8Error::ProgramNotCompatible));
}

#[test]
fn fetch_past_end_of_memory_fails() {
    let mut chip = Chip8::new();
    chip.initialize().unwrap();
    chip.load_program(vec![0x1F, 0xFF]).unwrap();
    chip.cycle().unwrap();
    assert_eq!(chip.program_counter(), 0xFFF);
    assert_eq!(chip.cycle(), Err(Chip8Error::AddressOutOfRange { address: 0xFFF }));
    assert_eq!(chip.program_counter(), 0xFFF);
}
