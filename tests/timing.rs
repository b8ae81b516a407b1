use chip_8::{Chip8, Chip8Error, DelayTimer, HostSignal, SoundTimer};

#[test]
fn delay_timer_stops_at_zero() {
    let mut t = DelayTimer(5);
    for _ in 0..5 {
        t.decrement();
    }
    assert_eq!(t.0, 0);
    t.decrement();
    assert_eq!(t.0, 0);
}

#[test]
fn sound_timer_buzzes_while_positive() {
    let mut t = SoundTimer(2);
    assert!(t.decrement());
    assert!(t.decrement());
    assert!(!t.decrement());
    assert_eq!(t.0, 0);
}

#[test]
fn timers_tick_every_twelfth_cycle() {
    let mut chip = Chip8::new();
    chip.initialize().unwrap();
    // V0 := 3; delay := V0; sound := V0; then jump to itself
    chip.load_program(vec![0x60, 0x03, 0xF0, 0x15, 0xF0, 0x18, 0x12, 0x06]).unwrap();
    let mut count = 0u64;
    let mut buzzes = 0;
    for _ in 0..24 {
        let (next, buzz) = chip.cycle_counted(count).unwrap();
        count = next;
        if buzz {
            buzzes += 1;
        }
    }
    assert_eq!(count, 24);
    assert_eq!(chip.delay_timer.0, 1);
    assert_eq!(chip.sound_timer.0, 1);
    assert_eq!(buzzes, 2);
    assert_eq!(chip.cycle_counted(u64::MAX), Ok((0, true)));
    assert_eq!(chip.sound_timer.0, 0);
}

#[test]
fn counted_cycle_reports_errors() {
    let mut chip = Chip8::new();
    assert_eq!(chip.cycle_counted(11), Err(Chip8Error::ProgramNotLoaded));
}

#[test]
fn tick_timers_reports_buzz() {
    let mut chip = Chip8::new();
    chip.sound_timer = SoundTimer(1);
    chip.delay_timer = DelayTimer(0);
    assert!(chip.tick_timers());
    assert_eq!(chip.sound_timer.0, 0);
    assert_eq!(chip.delay_timer.0, 0);
    assert!(!chip.tick_timers());
}

#[test]
fn host_signals_set_keys_and_restart() {
    let program = vec![0x60, 0x05, 0x12, 0x02];
    let mut chip = Chip8::new();
    chip.initialize().unwrap();
    chip.load_program(program.clone()).unwrap();
    chip.apply_host_signal(HostSignal::KeyState(Some(0xC)), &program).unwrap();
    assert_eq!(chip.key_pressed, Some(0xC));
    chip.cycle().unwrap();
    chip.cycle().unwrap();
    assert_eq!(chip.register(0), 5);
    chip.apply_host_signal(HostSignal::RestartRequested, &program).unwrap();
    assert_eq!(chip.register(0), 0);
    assert_eq!(chip.key_pressed, None);
    assert_eq!(chip.program_counter(), 0x200);
    assert_eq!(chip.word(0x200), 0x6005);
    chip.cycle().unwrap();
    assert_eq!(chip.register(0), 5);
    let too_long = vec![0u8; 0xE01];
    assert_eq!(
        chip.apply_host_signal(HostSignal::RestartRequested, &too_long),
        Err(Chip8Error::AddressOutOfRange { address: 0x1000 })
    );
}
