use chip8::hardware::chip8::{to_digits, version, Chip8};
use chip8::hardware::semantics::{Chip8Error, RunState};
use chip8::hardware::{Chip8Stack, Memory, ProgramTooLarge, StackOverflow, FONTSET};
use chip8::interface::input::{keymap, Command};
use chip8::program_handler::ProgramHandler;

fn lit(inter: &Chip8) -> usize {
    inter.screen.iter().filter(|&&c| c != 0).count()
}

#[test]
fn add_byte_wraps_and_leaves_vf_alone() {
    let mut inter = Chip8::new();
    inter.registers.gen_regs[3] = 250;
    inter.registers.gen_regs[15] = 7;
    inter.execute_instruction(0x730A).unwrap();
    assert_eq!(inter.registers.gen_regs[3], 4);
    assert_eq!(inter.registers.gen_regs[15], 7);
    inter.execute_instruction(0x73FF).unwrap();
    assert_eq!(inter.registers.gen_regs[3], 3);
    assert_eq!(inter.registers.gen_regs[15], 7);
}

#[test]
fn add_registers_sets_carry() {
    let mut inter = Chip8::new();
    inter.registers.gen_regs[1] = 255;
    inter.registers.gen_regs[2] = 2;
    inter.execute_instruction(0x8124).unwrap();
    assert_eq!(inter.registers.gen_regs[1], 1);
    assert_eq!(inter.registers.gen_regs[15], 1);

    let mut inter = Chip8::new();
    inter.registers.gen_regs[1] = 1;
    inter.registers.gen_regs[2] = 2;
    inter.execute_instruction(0x8124).unwrap();
    assert_eq!(inter.registers.gen_regs[1], 3);
    assert_eq!(inter.registers.gen_regs[15], 0);
}

#[test]
fn sub_registers_sets_no_borrow() {
    let mut inter = Chip8::new();
    inter.registers.gen_regs[1] = 10;
    inter.registers.gen_regs[2] = 3;
    inter.execute_instruction(0x8125).unwrap();
    assert_eq!(inter.registers.gen_regs[1], 7);
    assert_eq!(inter.registers.gen_regs[15], 1);

    let mut inter = Chip8::new();
    inter.registers.gen_regs[1] = 3;
    inter.registers.gen_regs[2] = 10;
    inter.execute_instruction(0x8125).unwrap();
    assert_eq!(inter.registers.gen_regs[1], 249);
    assert_eq!(inter.registers.gen_regs[15], 0);
}

#[test]
fn sub_of_equal_registers_has_no_borrow() {
    let mut inter = Chip8::new();
    inter.registers.gen_regs[1] = 9;
    inter.registers.gen_regs[2] = 9;
    inter.execute_instruction(0x8125).unwrap();
    assert_eq!(inter.registers.gen_regs[1], 0);
    assert_eq!(inter.registers.gen_regs[15], 1);
}

#[test]
fn shift_right_of_odd_value_sets_flag() {
    let mut inter = Chip8::new();
    inter.registers.gen_regs[4] = 0x11;
    inter.execute_instruction(0x8406).unwrap();
    assert_eq!(inter.registers.gen_regs[4], 0x08);
    assert_eq!(inter.registers.gen_regs[15], 1);
}

#[test]
fn bcd_of_123() {
    let mut inter = Chip8::new();
    inter.registers.gen_regs[2] = 123;
    inter.registers.i = 0x300;
    inter.execute_instruction(0xF233).unwrap();
    assert_eq!(&inter.memory.memory[0x300..0x303], &[1, 2, 3]);
    assert_eq!(to_digits(7), [0, 0, 7]);
    assert_eq!(to_digits(255), [2, 5, 5]);
}

#[test]
fn call_then_ret_comes_back_after_the_call() {
    let mut inter = Chip8::new();
    inter.load_program(&vec![0x23, 0x00]).unwrap();
    inter.memory.memory[0x300] = 0x00;
    inter.memory.memory[0x301] = 0xEE;
    inter.run_cycle().unwrap();
    assert_eq!(inter.registers.pc, 0x300);
    assert_eq!(inter.memory.stack.len(), 1);
    inter.run_cycle().unwrap();
    assert_eq!(inter.registers.pc, 0x202);
    assert!(inter.memory.stack.is_empty());
}

#[test]
fn drawing_a_sprite_twice_erases_it() {
    let mut inter = Chip8::new();
    inter.memory.memory[0x300] = 0xFF;
    inter.registers.i = 0x300;
    inter.registers.gen_regs[0] = 10;
    inter.registers.gen_regs[1] = 5;
    inter.execute_instruction(0xD011).unwrap();
    assert_eq!(lit(&inter), 8);
    assert_eq!(inter.screen[5 * 64 + 10], 1);
    assert_eq!(inter.screen[5 * 64 + 17], 1);
    assert_eq!(inter.registers.gen_regs[15], 0);
    assert!(inter.draw);
    inter.execute_instruction(0xD011).unwrap();
    assert_eq!(lit(&inter), 0);
    assert_eq!(inter.registers.gen_regs[15], 1);
}

#[test]
fn sprites_wrap_around_the_edges() {
    let mut inter = Chip8::new();
    inter.memory.memory[0x300] = 0b1100_0011;
    inter.memory.memory[0x301] = 0b1000_0000;
    inter.registers.i = 0x300;
    inter.registers.gen_regs[0] = 62;
    inter.registers.gen_regs[1] = 31;
    inter.execute_instruction(0xD012).unwrap();
    assert_eq!(lit(&inter), 5);
    assert_eq!(inter.screen[31 * 64 + 62], 1);
    assert_eq!(inter.screen[31 * 64 + 63], 1);
    assert_eq!(inter.screen[31 * 64 + 4], 1);
    assert_eq!(inter.screen[31 * 64 + 5], 1);
    assert_eq!(inter.screen[62], 1);
}

#[test]
fn glyph_of_digit_is_drawn_from_the_font() {
    let mut inter = Chip8::new();
    inter.registers.gen_regs[0] = 0xA;
    inter.execute_instruction(0xF029).unwrap();
    assert_eq!(inter.registers.i, 50);
    assert_eq!(&inter.memory.memory[50..55], &FONTSET[50..55]);
    inter.execute_instruction(0xD115).unwrap();
    assert_eq!(lit(&inter), 4 + 2 + 4 + 2 + 2);
}

#[test]
fn key_wait_suspends_until_a_key_arrives() {
    let mut inter = Chip8::new();
    inter.load_program(&vec![0xF3, 0x0A, 0x64, 0x2A]).unwrap();
    inter.run_cycle().unwrap();
    assert_eq!(inter.state, RunState::WaitingForKey(3));
    assert_eq!(inter.registers.pc, 0x200);
    inter.registers.dt = 50;
    inter.step(100_000).unwrap();
    assert_eq!(inter.registers.pc, 0x200);
    assert_eq!(inter.state, RunState::WaitingForKey(3));
    assert_eq!(inter.registers.dt, 44);
    inter.set_key(0x7);
    assert_eq!(inter.registers.gen_regs[3], 0x7);
    assert_eq!(inter.state, RunState::Running);
    assert_eq!(inter.registers.pc, 0x202);
    inter.run_cycle().unwrap();
    assert_eq!(inter.registers.pc, 0x204);
    assert_eq!(inter.registers.gen_regs[4], 0x2A);
}

#[test]
fn key_up_and_down_are_seen_by_skips() {
    let mut inter = Chip8::new();
    inter.registers.gen_regs[0] = 0xB;
    inter.set_key(0xB);
    assert_eq!(inter.state, RunState::Running);
    inter.execute_instruction(0xE09E).unwrap();
    assert_eq!(inter.registers.pc, 0x204);
    inter.unset_key(0xB);
    inter.execute_instruction(0xE09E).unwrap();
    assert_eq!(inter.registers.pc, 0x206);
}

#[test]
fn skip_on_key_index_past_the_pad() {
    let mut inter = Chip8::new();
    inter.registers.gen_regs[0] = 200;
    inter.execute_instruction(0xE09E).unwrap();
    assert_eq!(inter.registers.pc, 0x202);
    inter.execute_instruction(0xE0A1).unwrap();
    assert_eq!(inter.registers.pc, 0x206);
}

#[test]
fn call_with_full_stack_overflows() {
    let mut inter = Chip8::new();
    for k in 0..16u16 {
        inter.execute_instruction(0x2300 + k).unwrap();
    }
    assert_eq!(inter.memory.stack.len(), 16);
    let pc = inter.registers.pc;
    assert_eq!(inter.execute_instruction(0x2400), Err(Chip8Error::StackOverflow));
    assert_eq!(inter.registers.pc, pc);
    assert_eq!(inter.memory.stack.len(), 16);

    let mut stack = Chip8Stack::new();
    for k in 0..16u16 {
        stack.push(k).unwrap();
    }
    assert_eq!(stack.push(99), Err(StackOverflow));
}

#[test]
fn ret_with_empty_stack_underflows() {
    let mut inter = Chip8::new();
    assert_eq!(inter.execute_instruction(0x00EE), Err(Chip8Error::StackUnderflow));
    assert_eq!(inter.registers.pc, 0x200);
}

#[test]
fn largest_program_fits_and_one_more_byte_does_not() {
    let mut memory = Memory::default();
    assert_eq!(memory.get_max_rom_size(), 0xFFF - 0x200);
    let program = vec![0xAB; 0xFFF - 0x200];
    assert_eq!(memory.load_program(&program), Ok(()));
    assert_eq!(memory.memory[0x200], 0xAB);
    assert_eq!(memory.memory[0xFFE], 0xAB);
    assert_eq!(memory.memory[0xFFF], 0);
    assert_eq!(memory.memory[0x1FF], 0);

    let mut inter = Chip8::new();
    let too_big = vec![0xCD; 0xFFF - 0x200 + 1];
    assert_eq!(inter.load_program(&too_big), Err(ProgramTooLarge));
    assert_eq!(inter.memory.memory[0x200], 0);
    assert_eq!(inter.load_program(&program), Ok(()));
    assert_eq!(inter.memory.memory[0xFFE], 0xAB);
}

#[test]
fn illegal_words_are_reported_with_their_value() {
    for word in [0x0123u16, 0x8008, 0xE000, 0xF0FF] {
        let mut inter = Chip8::new();
        assert_eq!(inter.execute_instruction(word), Err(Chip8Error::IllegalInstruction(word)));
        assert_eq!(inter.registers.pc, 0x200);
    }
}

#[test]
fn memory_access_past_the_end_is_an_error() {
    let mut inter = Chip8::new();
    inter.registers.i = 4094;
    assert_eq!(inter.execute_instruction(0xF033), Err(Chip8Error::OutOfBoundsMemoryAccess));
    assert_eq!(inter.execute_instruction(0xF255), Err(Chip8Error::OutOfBoundsMemoryAccess));
    assert_eq!(inter.execute_instruction(0xF265), Err(Chip8Error::OutOfBoundsMemoryAccess));
    assert_eq!(inter.execute_instruction(0xD013), Err(Chip8Error::OutOfBoundsMemoryAccess));
    assert_eq!(inter.execute_instruction(0xF155), Ok(()));
    inter.registers.pc = 0xFFF;
    assert_eq!(inter.run_cycle(), Err(Chip8Error::OutOfBoundsMemoryAccess));
    assert_eq!(inter.fetch_instruction(), Err(Chip8Error::OutOfBoundsMemoryAccess));
}

#[test]
fn timers_count_down_at_sixty_hertz_and_stop_at_zero() {
    let mut inter = Chip8::new();
    inter.load_program(&vec![0x12, 0x00]).unwrap();
    inter.registers.dt = 100;
    inter.registers.st = 30;
    assert!(inter.is_beeping());
    inter.step(500_000).unwrap();
    assert_eq!(inter.registers.dt, 70);
    assert_eq!(inter.registers.st, 0);
    assert!(!inter.is_beeping());
    inter.step(10_000).unwrap();
    assert_eq!(inter.registers.dt, 70);
    inter.step(6_667).unwrap();
    assert_eq!(inter.registers.dt, 69);
}

#[test]
fn step_runs_the_cycles_that_are_due() {
    let mut inter = Chip8::new();
    inter.load_program(&vec![0x71, 0x01, 0x12, 0x00]).unwrap();
    assert_eq!(inter.advance_clock(1_000_000), 600);
    let mut inter = Chip8::new();
    inter.load_program(&vec![0x71, 0x01, 0x12, 0x00]).unwrap();
    inter.step(10_000).unwrap();
    assert_eq!(inter.registers.gen_regs[1], 3);
    assert_eq!(inter.registers.pc, 0x200);
    inter.step(1_000).unwrap();
    assert_eq!(inter.registers.gen_regs[1], 3);
    assert_eq!(inter.cycle_credit, 600_000);
    inter.step(700).unwrap();
    assert_eq!(inter.registers.gen_regs[1], 4);
    assert_eq!(inter.registers.pc, 0x202);
}

#[test]
fn step_stops_at_the_first_error() {
    let mut inter = Chip8::new();
    inter.load_program(&vec![0x71, 0x01, 0x00, 0x00, 0x71, 0x01]).unwrap();
    assert_eq!(inter.step(100_000), Err(Chip8Error::IllegalInstruction(0x0000)));
    assert_eq!(inter.registers.gen_regs[1], 1);
    assert_eq!(inter.registers.pc, 0x202);
}

#[test]
fn random_byte_is_masked() {
    let mut inter = Chip8::new();
    inter.registers.gen_regs[5] = 0xAA;
    inter.execute_instruction(0xC500).unwrap();
    assert_eq!(inter.registers.gen_regs[5], 0);
    for _ in 0..50 {
        inter.execute_instruction(0xC50F).unwrap();
        assert!(inter.registers.gen_regs[5] <= 0x0F);
    }
    inter.execute_instruction_with(0xC53C, 0xF5).unwrap();
    assert_eq!(inter.registers.gen_regs[5], 0x34);
    inter.rnd(6, 0xF0, 0x9F);
    assert_eq!(inter.registers.gen_regs[6], 0x90);
}

#[test]
fn logic_ops_clear_vf_only_when_configured() {
    let mut inter = Chip8::new();
    inter.registers.gen_regs[15] = 1;
    inter.registers.gen_regs[1] = 0x0C;
    inter.registers.gen_regs[2] = 0x0A;
    inter.execute_instruction(0x8121).unwrap();
    assert_eq!(inter.registers.gen_regs[1], 0x0E);
    assert_eq!(inter.registers.gen_regs[15], 1);
    inter.logic_clears_vf = true;
    inter.execute_instruction(0x8123).unwrap();
    assert_eq!(inter.registers.gen_regs[1], 0x04);
    assert_eq!(inter.registers.gen_regs[15], 0);
}

#[test]
fn shift_left_of_high_bit() {
    let mut inter = Chip8::new();
    inter.registers.gen_regs[15] = 0x81;
    inter.execute_instruction(0x8F0E).unwrap();
    assert_eq!(inter.registers.gen_regs[15], 0x02);
}

#[test]
fn fresh_machine_holds_the_font() {
    let inter = Chip8::default();
    assert_eq!(&inter.memory.memory[0..80], &FONTSET[..]);
    assert_eq!(inter.memory.memory.len(), 4096);
    assert_eq!(inter.registers.pc, 0x200);
    assert_eq!(inter.state, RunState::Running);
    assert!(!inter.draw);
}

#[test]
fn keymap_covers_the_pad() {
    assert_eq!(keymap('1'), Some(0x1));
    assert_eq!(keymap('4'), Some(0xC));
    assert_eq!(keymap('q'), Some(0x4));
    assert_eq!(keymap('R'), Some(0xD));
    assert_eq!(keymap('x'), Some(0x0));
    assert_eq!(keymap('V'), Some(0xF));
    assert_eq!(keymap('5'), None);
    let mut seen = [false; 16];
    for c in "1234qwerasdfzxcv".chars() {
        seen[keymap(c).unwrap() as usize] = true;
    }
    assert!(seen.iter().all(|&s| s));
    assert_ne!(Command::Continue, Command::Quit);
}

#[test]
fn program_handler_keeps_what_was_read() {
    let mut handler = ProgramHandler::new();
    assert_eq!(handler.file_len, 0);
    let first = handler.store_contents(&vec![1, 2, 3]);
    assert_eq!(first, vec![1, 2, 3]);
    let both = handler.store_contents(&vec![4]);
    assert_eq!(both, vec![1, 2, 3, 4]);
    assert_eq!(handler.file_len, 4);
}

#[test]
fn version_is_the_package_version() {
    assert_eq!(version(), "0.1.0");
}
