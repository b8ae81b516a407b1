use chip_8::{Chip8, Chip8Error};

fn ready() -> Chip8 {
    let mut chip = Chip8::new();
    chip.initialize().unwrap();
    chip
}

#[test]
fn pops_come_back_in_reverse_order() {
    let mut chip = ready();
    for w in [0x111u16, 0x222, 0x333] {
        chip.push(w).unwrap();
    }
    assert_eq!(chip.pop(), Ok(0x333));
    assert_eq!(chip.pop(), Ok(0x222));
    assert_eq!(chip.pop(), Ok(0x111));
    assert_eq!(chip.pop(), Err(Chip8Error::StackUnderflow));
}

#[test]
fn stack_holds_256_words() {
    let mut chip = ready();
    for i in 0..256u16 {
        assert_eq!(chip.push(i * 3), Ok(()));
    }
    assert_eq!(chip.stack_pointer(), 0);
    assert_eq!(chip.push(0xBEEF), Err(Chip8Error::StackOverflow));
    assert_eq!(chip.stack_pointer(), 0);
    for i in (0..256u16).rev() {
        assert_eq!(chip.pop(), Ok(i * 3));
    }
    assert_eq!(chip.pop(), Err(Chip8Error::StackUnderflow));
    assert_eq!(chip.stack_pointer(), 0x200);
}

#[test]
fn empty_stack_underflows() {
    let mut chip = ready();
    assert_eq!(chip.pop(), Err(Chip8Error::StackUnderflow));
}
