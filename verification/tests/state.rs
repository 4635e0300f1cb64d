use chip_8_core::{Emu, Fault, SCREEN_HEIGHT, SCREEN_WIDTH};

const FONT: [u8; 80] = [
    0xF0, 0x90, 0x90, 0x90, 0xF0, 0x20, 0x60, 0x20, 0x20, 0x70, 0xF0, 0x10, 0xF0, 0x80, 0xF0,
    0xF0, 0x10, 0xF0, 0x10, 0xF0, 0x90, 0x90, 0xF0, 0x10, 0x10, 0xF0, 0x80, 0xF0, 0x10, 0xF0,
    0xF0, 0x80, 0xF0, 0x90, 0xF0, 0xF0, 0x10, 0x20, 0x40, 0x40, 0xF0, 0x90, 0xF0, 0x90, 0xF0,
    0xF0, 0x90, 0xF0, 0x10, 0xF0, 0xF0, 0x90, 0xF0, 0x90, 0x90, 0xE0, 0x90, 0xE0, 0x90, 0xE0,
    0xF0, 0x80, 0x80, 0x80, 0xF0, 0xE0, 0x90, 0x90, 0x90, 0xE0, 0xF0, 0x80, 0xF0, 0x80, 0xF0,
    0xF0, 0x80, 0xF0, 0x80, 0x80,
];

fn assert_initial(emu: &Emu) {
    assert_eq!(emu.program_counter(), 0x200);
    assert_eq!(emu.index_register(), 0);
    assert_eq!(emu.stack_depth(), 0);
    assert_eq!(emu.delay_timer(), 0);
    assert_eq!(emu.sound_timer(), 0);
    assert_eq!(emu.registers(), &[0u8; 16][..]);
    assert_eq!(emu.keys(), &[false; 16][..]);
    assert_eq!(emu.get_display().len(), 2048);
    assert!(emu.get_display().iter().all(|cell| !*cell));
    assert_eq!(emu.memory().len(), 4096);
    assert_eq!(&emu.memory()[..80], &FONT[..]);
    assert!(emu.memory()[80..].iter().all(|byte| *byte == 0));
}

#[test]
fn screen_dimensions() {
    assert_eq!(SCREEN_WIDTH, 64);
    assert_eq!(SCREEN_HEIGHT, 32);
}

#[test]
fn new_machine_is_in_initial_state() {
    assert_initial(&Emu::new());
}

#[test]
fn font_glyphs_are_five_bytes_each() {
    let emu = Emu::new();
    assert_eq!(&emu.memory()[0..5], &[0xF0, 0x90, 0x90, 0x90, 0xF0]);
    assert_eq!(&emu.memory()[5..10], &[0x20, 0x60, 0x20, 0x20, 0x70]);
    assert_eq!(&emu.memory()[75..80], &[0xF0, 0x80, 0xF0, 0x80, 0x80]);
}

#[test]
fn reset_restores_initial_state() {
    let mut emu = Emu::new();
    // set the address register, two registers, both timers, draw a glyph,
    // call a subroutine
    let program = [
        0xA0, 0x05, 0x60, 0x07, 0x61, 0x09, 0xF0, 0x15, 0xF1, 0x18, 0xD0, 0x15, 0x22, 0x0E, 0x00,
        0x00,
    ];
    assert_eq!(emu.load(&program), Ok(()));
    for _ in 0..7 {
        assert_eq!(emu.tick(), Ok(()));
    }
    emu.keypress(3, true);
    assert_eq!(emu.push(0x123), Ok(()));
    assert_eq!(emu.program_counter(), 0x20E);
    assert_eq!(emu.stack_depth(), 2);
    assert_eq!(emu.delay_timer(), 7);
    assert_eq!(emu.sound_timer(), 9);
    assert!(emu.get_display().iter().any(|cell| *cell));

    emu.reset();
    assert_initial(&emu);
}

#[test]
fn load_copies_program_to_0x200() {
    let mut emu = Emu::new();
    assert_eq!(emu.load(&[0x12, 0x34, 0x56]), Ok(()));
    assert_eq!(&emu.memory()[0x200..0x203], &[0x12, 0x34, 0x56]);
    assert_eq!(emu.memory()[0x1FF], 0);
    assert_eq!(emu.memory()[0x203], 0);
    assert_eq!(&emu.memory()[..80], &FONT[..]);
    assert_eq!(emu.program_counter(), 0x200);
}

#[test]
fn load_of_empty_program_changes_nothing() {
    let mut emu = Emu::new();
    assert_eq!(emu.load(&[]), Ok(()));
    assert_initial(&emu);
}

#[test]
fn load_accepts_a_program_that_fills_memory() {
    let mut emu = Emu::new();
    let program = vec![0xAB; 4096 - 0x200];
    assert_eq!(emu.load(&program), Ok(()));
    assert_eq!(emu.memory()[0x200], 0xAB);
    assert_eq!(emu.memory()[4095], 0xAB);
    assert_eq!(emu.memory()[0x1FF], 0);
}

#[test]
fn load_rejects_a_program_that_is_too_long() {
    let mut emu = Emu::new();
    let program = vec![0xAB; 4096 - 0x200 + 1];
    assert_eq!(emu.load(&program), Err(Fault::OutOfBounds));
    assert_initial(&emu);
}

#[test]
fn reload_without_reset_leaves_stale_bytes() {
    let mut emu = Emu::new();
    assert_eq!(emu.load(&[1, 2, 3, 4]), Ok(()));
    assert_eq!(emu.load(&[9, 8]), Ok(()));
    assert_eq!(&emu.memory()[0x200..0x204], &[9, 8, 3, 4]);
}

#[test]
fn push_then_pop_is_last_in_first_out() {
    let mut emu = Emu::new();
    assert_eq!(emu.push(0x111), Ok(()));
    assert_eq!(emu.push(0xFFFF), Ok(()));
    assert_eq!(emu.push(0), Ok(()));
    assert_eq!(emu.stack_depth(), 3);
    assert_eq!(emu.pop(), Ok(0));
    assert_eq!(emu.pop(), Ok(0xFFFF));
    assert_eq!(emu.pop(), Ok(0x111));
    assert_eq!(emu.stack_depth(), 0);
}

#[test]
fn push_fails_on_a_full_stack() {
    let mut emu = Emu::new();
    for k in 0..16u16 {
        assert_eq!(emu.push(k), Ok(()));
    }
    assert_eq!(emu.stack_depth(), 16);
    assert_eq!(emu.push(99), Err(Fault::StackOverflow));
    assert_eq!(emu.stack_depth(), 16);
    assert_eq!(emu.pop(), Ok(15));
}

#[test]
fn pop_fails_on_an_empty_stack() {
    let mut emu = Emu::new();
    assert_eq!(emu.pop(), Err(Fault::StackUnderflow));
    assert_eq!(emu.stack_depth(), 0);
    assert_eq!(emu.push(7), Ok(()));
    assert_eq!(emu.pop(), Ok(7));
    assert_eq!(emu.pop(), Err(Fault::StackUnderflow));
}

#[test]
fn keypress_sets_and_clears_one_key() {
    let mut emu = Emu::new();
    emu.keypress(0, true);
    emu.keypress(15, true);
    let mut expected = [false; 16];
    expected[0] = true;
    expected[15] = true;
    assert_eq!(emu.keys(), &expected[..]);
    emu.keypress(0, false);
    expected[0] = false;
    assert_eq!(emu.keys(), &expected[..]);
}

#[test]
fn timers_decay_by_one_and_stop_at_zero() {
    let mut emu = Emu::new();
    // V0 = 2, delay = V0, V1 = 3, sound = V1
    assert_eq!(emu.load(&[0x60, 0x02, 0xF0, 0x15, 0x61, 0x03, 0xF1, 0x18]), Ok(()));
    for _ in 0..4 {
        assert_eq!(emu.tick(), Ok(()));
    }
    assert_eq!((emu.delay_timer(), emu.sound_timer()), (2, 3));
    assert!(!emu.tick_timer());
    assert_eq!((emu.delay_timer(), emu.sound_timer()), (1, 2));
    assert!(!emu.tick_timer());
    assert_eq!((emu.delay_timer(), emu.sound_timer()), (0, 1));
    assert!(emu.tick_timer());
    assert_eq!((emu.delay_timer(), emu.sound_timer()), (0, 0));
    assert!(!emu.tick_timer());
    assert_eq!((emu.delay_timer(), emu.sound_timer()), (0, 0));
}

#[test]
fn timer_decay_at_zero_leaves_zero() {
    let mut emu = Emu::new();
    for _ in 0..300 {
        assert!(!emu.tick_timer());
        assert_eq!(emu.delay_timer(), 0);
        assert_eq!(emu.sound_timer(), 0);
    }
}

#[test]
fn timer_decay_from_255_reaches_zero_after_255_calls() {
    let mut emu = Emu::new();
    assert_eq!(emu.load(&[0x60, 0xFF, 0xF0, 0x15, 0xF0, 0x18]), Ok(()));
    for _ in 0..3 {
        assert_eq!(emu.tick(), Ok(()));
    }
    let mut beeps = 0;
    for k in 0..255u32 {
        assert_eq!(emu.delay_timer() as u32, 255 - k);
        if emu.tick_timer() {
            beeps += 1;
        }
    }
    assert_eq!(emu.delay_timer(), 0);
    assert_eq!(emu.sound_timer(), 0);
    assert_eq!(beeps, 1);
}

#[test]
fn stepping_does_not_touch_timers() {
    let mut emu = Emu::new();
    assert_eq!(emu.load(&[0x60, 0x09, 0xF0, 0x15, 0x00, 0x00, 0x12, 0x04]), Ok(()));
    for _ in 0..20 {
        assert_eq!(emu.tick(), Ok(()));
    }
    assert_eq!(emu.delay_timer(), 9);
}
