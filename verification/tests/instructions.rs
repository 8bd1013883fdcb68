use chip8::execute::Flow;
use chip8::fault::{Fault, FaultKind};
use chip8::instruction::{decode, Instruction};
use chip8::keypad::Keypad;
use chip8::machine::Chip8;

fn boot(program: &[u8]) -> Chip8 {
    Chip8::new(program.to_vec()).unwrap()
}

fn run(machine: &mut Chip8, cycles: usize) {
    let keys = Keypad::new();
    for _ in 0..cycles {
        assert_eq!(machine.step_with(&keys, 0), Ok(Flow::Continue));
    }
}

#[test]
fn a_new_machine_starts_at_the_program_with_everything_cleared() {
    let machine = boot(&[0x12, 0x34, 0x56]);
    assert_eq!(machine.pc(), 0x200);
    assert_eq!(machine.index(), 0);
    assert_eq!(machine.registers(), &[0u8; 16]);
    assert_eq!(machine.delay_timer(), 0);
    assert_eq!(machine.sound_timer(), 0);
    assert_eq!(machine.stack_depth(), 0);
    assert_eq!(&machine.memory()[0x200..0x204], &[0x12, 0x34, 0x56, 0x00]);
    assert!(machine.memory()[..0x50].iter().all(|byte| *byte == 0));
    assert!(machine.memory()[0xA0..0x200].iter().all(|byte| *byte == 0));
    assert!(machine.memory()[0x203..].iter().all(|byte| *byte == 0));
    assert!(machine.framebuffer().pixels().iter().all(|pixel| !*pixel));
}

#[test]
fn the_font_is_loaded_below_the_program() {
    let machine = boot(&[]);
    assert_eq!(&machine.memory()[0x50..0x55], &[0xF0, 0x90, 0x90, 0x90, 0xF0]);
    assert_eq!(&machine.memory()[0x55..0x5A], &[0x20, 0x60, 0x20, 0x20, 0x70]);
    assert_eq!(&machine.memory()[0x9B..0xA0], &[0xF0, 0x80, 0xF0, 0x80, 0x80]);
}

#[test]
fn load_immediate_sets_every_register_exactly() {
    for x in 0..16u8 {
        for nn in [0x00u8, 0x01, 0x7F, 0x80, 0xFF] {
            let mut machine = boot(&[0x60 | x, nn]);
            run(&mut machine, 1);
            assert_eq!(machine.register(x as usize), nn);
            assert_eq!(machine.pc(), 0x202);
            for other in 0..16usize {
                if other != x as usize {
                    assert_eq!(machine.register(other), 0);
                }
            }
        }
    }
}

#[test]
fn add_immediate_wraps_and_leaves_the_flag_alone() {
    let mut machine = boot(&[0x6A, 0xFF, 0x6F, 0x07, 0x7A, 0x02]);
    run(&mut machine, 3);
    assert_eq!(machine.register(0xA), 0x01);
    assert_eq!(machine.register(0xF), 0x07);
    assert_eq!(machine.pc(), 0x206);
}

#[test]
fn add_immediate_without_wrap() {
    let mut machine = boot(&[0x63, 0x10, 0x73, 0x22]);
    run(&mut machine, 2);
    assert_eq!(machine.register(3), 0x32);
    assert_eq!(machine.register(0xF), 0);
}

#[test]
fn add_registers_sets_the_carry() {
    let mut machine = boot(&[0x60, 0xFF, 0x61, 0x01, 0x80, 0x14]);
    run(&mut machine, 3);
    assert_eq!(machine.register(0), 0x00);
    assert_eq!(machine.register(0xF), 1);
    assert_eq!(machine.pc(), 0x206);
}

#[test]
fn add_registers_clears_the_carry() {
    let mut machine = boot(&[0x6F, 0x01, 0x60, 0x01, 0x61, 0x01, 0x80, 0x14]);
    run(&mut machine, 4);
    assert_eq!(machine.register(0), 0x02);
    assert_eq!(machine.register(0xF), 0);
}

#[test]
fn add_registers_carries_only_above_255() {
    let mut machine = boot(&[0x60, 0xFE, 0x61, 0x01, 0x80, 0x14]);
    run(&mut machine, 3);
    assert_eq!(machine.register(0), 0xFF);
    assert_eq!(machine.register(0xF), 0);
}

#[test]
fn subtract_without_borrow() {
    let mut machine = boot(&[0x60, 0x05, 0x61, 0x03, 0x80, 0x15]);
    run(&mut machine, 3);
    assert_eq!(machine.register(0), 0x02);
    assert_eq!(machine.register(0xF), 1);
}

#[test]
fn subtract_with_borrow() {
    let mut machine = boot(&[0x60, 0x03, 0x61, 0x05, 0x80, 0x15]);
    run(&mut machine, 3);
    assert_eq!(machine.register(0), 0xFE);
    assert_eq!(machine.register(0xF), 0);
}

#[test]
fn subtract_equal_values_sets_the_flag() {
    let mut machine = boot(&[0x60, 0x09, 0x61, 0x09, 0x80, 0x15]);
    run(&mut machine, 3);
    assert_eq!(machine.register(0), 0x00);
    assert_eq!(machine.register(0xF), 1);
}

#[test]
fn subtract_reversed_without_borrow() {
    let mut machine = boot(&[0x60, 0x03, 0x61, 0x05, 0x80, 0x17]);
    run(&mut machine, 3);
    assert_eq!(machine.register(0), 0x02);
    assert_eq!(machine.register(1), 0x05);
    assert_eq!(machine.register(0xF), 1);
}

#[test]
fn subtract_reversed_with_borrow() {
    let mut machine = boot(&[0x60, 0x05, 0x61, 0x03, 0x80, 0x17]);
    run(&mut machine, 3);
    assert_eq!(machine.register(0), 0xFE);
    assert_eq!(machine.register(0xF), 0);
}

#[test]
fn the_flag_is_written_before_the_result() {
    // VF is the target: it ends up holding the result, not the flag.
    let mut machine = boot(&[0x6F, 0xFF, 0x61, 0x03, 0x8F, 0x14]);
    run(&mut machine, 3);
    assert_eq!(machine.register(0xF), 0x02);
    // VF is the second operand of a subtraction: the flag is what is
    // subtracted.
    let mut machine = boot(&[0x60, 0x09, 0x6F, 0x05, 0x80, 0xF5]);
    run(&mut machine, 3);
    assert_eq!(machine.register(0xF), 1);
    assert_eq!(machine.register(0), 0x08);
}

#[test]
fn move_and_bitwise_operations() {
    let mut machine = boot(&[0x60, 0xCC, 0x61, 0xAA, 0x82, 0x10, 0x83, 0x00, 0x83, 0x11, 0x84, 0x00,
        0x84, 0x12, 0x85, 0x00, 0x85, 0x13]);
    run(&mut machine, 9);
    assert_eq!(machine.register(2), 0xAA);
    assert_eq!(machine.register(3), 0xCC | 0xAA);
    assert_eq!(machine.register(4), 0xCC & 0xAA);
    assert_eq!(machine.register(5), 0xCC ^ 0xAA);
    assert_eq!(machine.register(0xF), 0);
    assert_eq!(machine.pc(), 0x212);
}

#[test]
fn shift_right_puts_the_low_bit_in_the_flag() {
    let mut machine = boot(&[0x60, 0x05, 0x80, 0x06]);
    run(&mut machine, 2);
    assert_eq!(machine.register(0), 0x02);
    assert_eq!(machine.register(0xF), 1);
    let mut machine = boot(&[0x60, 0x04, 0x80, 0x06]);
    run(&mut machine, 2);
    assert_eq!(machine.register(0), 0x02);
    assert_eq!(machine.register(0xF), 0);
}

#[test]
fn shift_left_puts_the_high_bit_in_the_flag() {
    let mut machine = boot(&[0x60, 0x81, 0x80, 0x0E]);
    run(&mut machine, 2);
    assert_eq!(machine.register(0), 0x02);
    assert_eq!(machine.register(0xF), 1);
    // Bit 4 set and bit 7 clear: no carry.
    let mut machine = boot(&[0x60, 0x10, 0x80, 0x0E]);
    run(&mut machine, 2);
    assert_eq!(machine.register(0), 0x20);
    assert_eq!(machine.register(0xF), 0);
}

#[test]
fn skip_if_equal_immediate() {
    let mut machine = boot(&[0x60, 0x11, 0x30, 0x11]);
    run(&mut machine, 2);
    assert_eq!(machine.pc(), 0x206);
    let mut machine = boot(&[0x60, 0x11, 0x30, 0x12]);
    run(&mut machine, 2);
    assert_eq!(machine.pc(), 0x204);
}

#[test]
fn skip_if_not_equal_immediate() {
    let mut machine = boot(&[0x60, 0x11, 0x40, 0x12]);
    run(&mut machine, 2);
    assert_eq!(machine.pc(), 0x206);
    let mut machine = boot(&[0x60, 0x11, 0x40, 0x11]);
    run(&mut machine, 2);
    assert_eq!(machine.pc(), 0x204);
}

#[test]
fn skip_if_registers_equal() {
    let mut machine = boot(&[0x60, 0x11, 0x61, 0x11, 0x50, 0x10]);
    run(&mut machine, 3);
    assert_eq!(machine.pc(), 0x208);
    let mut machine = boot(&[0x60, 0x11, 0x61, 0x12, 0x50, 0x10]);
    run(&mut machine, 3);
    assert_eq!(machine.pc(), 0x206);
}

#[test]
fn skip_if_registers_not_equal() {
    let mut machine = boot(&[0x63, 0x11, 0x67, 0x12, 0x93, 0x70]);
    run(&mut machine, 3);
    assert_eq!(machine.pc(), 0x208);
    let mut machine = boot(&[0x63, 0x11, 0x67, 0x11, 0x93, 0x70]);
    run(&mut machine, 3);
    assert_eq!(machine.pc(), 0x206);
}

#[test]
fn jump_sets_the_program_counter() {
    let mut machine = boot(&[0x1A, 0xBC]);
    run(&mut machine, 1);
    assert_eq!(machine.pc(), 0xABC);
}

#[test]
fn jump_with_offset_adds_v0() {
    let mut machine = boot(&[0x60, 0xFF, 0xB3, 0x01]);
    run(&mut machine, 2);
    assert_eq!(machine.pc(), 0x400);
}

#[test]
fn load_index_keeps_all_twelve_bits() {
    let mut machine = boot(&[0xAF, 0xED]);
    run(&mut machine, 1);
    assert_eq!(machine.index(), 0xFED);
    assert_eq!(machine.pc(), 0x202);
}

#[test]
fn add_index_wraps_at_the_end_of_memory() {
    let mut machine = boot(&[0xAF, 0xFF, 0x60, 0x02, 0xF0, 0x1E]);
    run(&mut machine, 3);
    assert_eq!(machine.index(), 0x001);
    let mut machine = boot(&[0xA1, 0x00, 0x60, 0x23, 0xF0, 0x1E]);
    run(&mut machine, 3);
    assert_eq!(machine.index(), 0x123);
    assert_eq!(machine.pc(), 0x206);
}

#[test]
fn glyph_points_into_the_font() {
    let mut machine = boot(&[0x60, 0x00, 0xF0, 0x29]);
    run(&mut machine, 2);
    assert_eq!(machine.index(), 0x050);
    let mut machine = boot(&[0x64, 0x0A, 0xF4, 0x29]);
    run(&mut machine, 2);
    assert_eq!(machine.index(), 0x050 + 50);
    assert_eq!(machine.pc(), 0x204);
    let at = machine.index() as usize;
    assert_eq!(&machine.memory()[at..at + 5], &[0xF0, 0x90, 0xF0, 0x90, 0x90]);
}

#[test]
fn random_is_masked_by_the_whole_immediate() {
    let keys = Keypad::new();
    let mut machine = boot(&[0xC0, 0xF0]);
    assert_eq!(machine.step_with(&keys, 0xFF), Ok(Flow::Continue));
    assert_eq!(machine.register(0), 0xF0);
    assert_eq!(machine.pc(), 0x202);
    let mut machine = boot(&[0xC1, 0x3C]);
    assert_eq!(machine.step_with(&keys, 0xA5), Ok(Flow::Continue));
    assert_eq!(machine.register(1), 0xA5 & 0x3C);
}

#[test]
fn random_from_the_generator_stays_under_the_mask() {
    let keys = Keypad::new();
    for _ in 0..64 {
        let mut machine = boot(&[0xC2, 0x0F, 0xC3, 0x00]);
        assert_eq!(machine.step(&keys), Ok(Flow::Continue));
        assert_eq!(machine.step(&keys), Ok(Flow::Continue));
        assert!(machine.register(2) <= 0x0F);
        assert_eq!(machine.register(3), 0);
        assert_eq!(machine.pc(), 0x204);
    }
}

#[test]
fn step_without_a_random_instruction_matches_step_with() {
    let keys = Keypad::new();
    let program = [0x60, 0x2A, 0x70, 0x01, 0xA3, 0x00, 0xF0, 0x33];
    let mut drawn = boot(&program);
    let mut given = boot(&program);
    for _ in 0..4 {
        assert_eq!(drawn.step(&keys), given.step_with(&keys, 0x99));
    }
    assert_eq!(drawn.registers(), given.registers());
    assert_eq!(drawn.pc(), given.pc());
    assert_eq!(&drawn.memory()[..], &given.memory()[..]);
}

#[test]
fn skip_on_key_state() {
    let mut keys = Keypad::new();
    keys.press(0x7);
    let mut machine = boot(&[0x60, 0x07, 0xE0, 0x9E]);
    assert_eq!(machine.step_with(&keys, 0), Ok(Flow::Continue));
    assert_eq!(machine.step_with(&keys, 0), Ok(Flow::Continue));
    assert_eq!(machine.pc(), 0x206);
    let mut machine = boot(&[0x60, 0x07, 0xE0, 0xA1]);
    assert_eq!(machine.step_with(&keys, 0), Ok(Flow::Continue));
    assert_eq!(machine.step_with(&keys, 0), Ok(Flow::Continue));
    assert_eq!(machine.pc(), 0x204);
    keys.release(0x7);
    let mut machine = boot(&[0x60, 0x07, 0xE0, 0x9E]);
    assert_eq!(machine.step_with(&keys, 0), Ok(Flow::Continue));
    assert_eq!(machine.step_with(&keys, 0), Ok(Flow::Continue));
    assert_eq!(machine.pc(), 0x204);
    let mut machine = boot(&[0x60, 0x07, 0xE0, 0xA1]);
    assert_eq!(machine.step_with(&keys, 0), Ok(Flow::Continue));
    assert_eq!(machine.step_with(&keys, 0), Ok(Flow::Continue));
    assert_eq!(machine.pc(), 0x206);
}

#[test]
fn a_register_value_that_is_no_key_code_counts_as_not_pressed() {
    let mut keys = Keypad::new();
    keys.press(0x3);
    let mut machine = boot(&[0x60, 0x13, 0xE0, 0x9E]);
    assert_eq!(machine.step_with(&keys, 0), Ok(Flow::Continue));
    assert_eq!(machine.step_with(&keys, 0), Ok(Flow::Continue));
    assert_eq!(machine.pc(), 0x204);
}

#[test]
fn timers_are_written_and_read() {
    let mut machine = boot(&[0x60, 0x2A, 0xF0, 0x15, 0x61, 0x07, 0xF1, 0x18, 0xF2, 0x07]);
    run(&mut machine, 5);
    assert_eq!(machine.delay_timer(), 0x2A);
    assert_eq!(machine.sound_timer(), 0x07);
    assert_eq!(machine.register(2), 0x2A);
    assert_eq!(machine.pc(), 0x20A);
}

#[test]
fn executing_instructions_does_not_move_the_timers() {
    let mut machine = boot(&[0x60, 0x05, 0xF0, 0x15, 0x61, 0x01, 0x62, 0x02, 0x63, 0x03]);
    run(&mut machine, 5);
    assert_eq!(machine.delay_timer(), 5);
}

#[test]
fn ticking_counts_timers_down_to_zero_and_no_further() {
    let mut machine = boot(&[0x60, 0x02, 0xF0, 0x15, 0x61, 0x01, 0xF1, 0x18]);
    run(&mut machine, 4);
    machine.tick_timers();
    assert_eq!((machine.delay_timer(), machine.sound_timer()), (1, 0));
    machine.tick_timers();
    assert_eq!((machine.delay_timer(), machine.sound_timer()), (0, 0));
    machine.tick_timers();
    assert_eq!((machine.delay_timer(), machine.sound_timer()), (0, 0));
}

#[test]
fn ticking_by_several_ticks_at_once() {
    let mut machine = boot(&[0x60, 0x0A, 0xF0, 0x15, 0x61, 0x03, 0xF1, 0x18]);
    run(&mut machine, 4);
    machine.tick_timers_by(0);
    assert_eq!((machine.delay_timer(), machine.sound_timer()), (10, 3));
    machine.tick_timers_by(4);
    assert_eq!((machine.delay_timer(), machine.sound_timer()), (6, 0));
    machine.tick_timers_by(u64::MAX);
    assert_eq!((machine.delay_timer(), machine.sound_timer()), (0, 0));
}

#[test]
fn decimal_digits_are_stored_at_the_index() {
    let mut machine = boot(&[0x60, 0x05, 0xA3, 0x00, 0xF0, 0x33]);
    run(&mut machine, 3);
    assert_eq!(&machine.memory()[0x300..0x303], &[0, 0, 5]);
    assert_eq!(machine.index(), 0x300);
    assert_eq!(machine.pc(), 0x206);
}

#[test]
fn decimal_digits_of_three_digit_values() {
    let mut machine = boot(&[0x67, 0xFE, 0xA4, 0x00, 0xF7, 0x33]);
    run(&mut machine, 3);
    assert_eq!(&machine.memory()[0x3FF..0x404], &[0, 2, 5, 4, 0]);
    let mut machine = boot(&[0x67, 0x6D, 0xA4, 0x00, 0xF7, 0x33]);
    run(&mut machine, 3);
    assert_eq!(&machine.memory()[0x400..0x403], &[1, 0, 9]);
}

#[test]
fn store_writes_v0_to_vx_inclusive() {
    let mut machine = boot(&[0x60, 0x11, 0x61, 0x22, 0x62, 0x33, 0x63, 0x44, 0xA3, 0x00, 0xF2, 0x55]);
    run(&mut machine, 6);
    assert_eq!(&machine.memory()[0x2FF..0x304], &[0, 0x11, 0x22, 0x33, 0]);
    assert_eq!(machine.index(), 0x300);
    assert_eq!(machine.pc(), 0x20C);
}

#[test]
fn restore_reads_v0_to_vx_inclusive() {
    let mut machine = boot(&[0x63, 0x77, 0xA2, 0x06, 0xF2, 0x65, 0xAA, 0xBB, 0xCC, 0xDD]);
    run(&mut machine, 3);
    assert_eq!(machine.register(0), 0xAA);
    assert_eq!(machine.register(1), 0xBB);
    assert_eq!(machine.register(2), 0xCC);
    assert_eq!(machine.register(3), 0x77);
    assert_eq!(machine.index(), 0x206);
    assert_eq!(machine.pc(), 0x206);
}

#[test]
fn store_then_restore_round_trips_all_registers() {
    let mut program: Vec<u8> = Vec::new();
    for x in 0..16u8 {
        program.push(0x60 | x);
        program.push(0xF0 - x);
    }
    program.extend_from_slice(&[0xA4, 0x00, 0xFF, 0x55]);
    for x in 0..16u8 {
        program.push(0x60 | x);
        program.push(0x00);
    }
    program.extend_from_slice(&[0xFF, 0x65]);
    let mut machine = boot(&program);
    run(&mut machine, 16 + 2 + 16 + 1);
    for x in 0..16usize {
        assert_eq!(machine.register(x), 0xF0 - x as u8);
    }
}

#[test]
fn call_then_return_comes_back_behind_the_call() {
    let keys = Keypad::new();
    let mut machine = boot(&[0x22, 0x04, 0x00, 0xEE, 0x00, 0xEE]);
    assert_eq!(machine.step_with(&keys, 0), Ok(Flow::Continue));
    assert_eq!(machine.pc(), 0x204);
    assert_eq!(machine.stack_depth(), 1);
    assert_eq!(machine.step_with(&keys, 0), Ok(Flow::Continue));
    assert_eq!(machine.pc(), 0x202);
    assert_eq!(machine.stack_depth(), 0);
    assert_eq!(
        machine.step_with(&keys, 0),
        Err(Fault { kind: FaultKind::StackUnderflow, opcode: 0x00EE, pc: 0x202 })
    );
    assert_eq!(machine.pc(), 0x202);
    assert_eq!(machine.stack_depth(), 0);
}

#[test]
fn nested_calls_return_in_reverse_order() {
    let mut machine = boot(&[0x22, 0x06, 0x60, 0x01, 0x12, 0x04, 0x22, 0x0A, 0x00, 0xEE, 0x61, 0x02,
        0x00, 0xEE]);
    run(&mut machine, 2);
    assert_eq!(machine.pc(), 0x20A);
    assert_eq!(machine.stack_depth(), 2);
    run(&mut machine, 2);
    assert_eq!(machine.pc(), 0x208);
    assert_eq!(machine.stack_depth(), 1);
    run(&mut machine, 2);
    assert_eq!(machine.pc(), 0x204);
    assert_eq!(machine.stack_depth(), 0);
    assert_eq!(machine.register(0), 1);
    assert_eq!(machine.register(1), 2);
}

#[test]
fn wait_key_suspends_and_moves_on() {
    let keys = Keypad::new();
    let mut machine = boot(&[0xF5, 0x0A]);
    assert_eq!(machine.step_with(&keys, 0), Ok(Flow::AwaitKey { x: 5 }));
    assert_eq!(machine.pc(), 0x202);
    assert_eq!(machine.register(5), 0);
}

#[test]
fn execute_applies_a_decoded_instruction() {
    let keys = Keypad::new();
    let mut machine = boot(&[]);
    assert_eq!(machine.execute(decode(0x6B2A), &keys), Ok(Flow::Continue));
    assert_eq!(machine.register(0xB), 0x2A);
    assert_eq!(machine.pc(), 0x202);
    assert_eq!(machine.execute(Instruction::Jump { nnn: 0x345 }, &keys), Ok(Flow::Continue));
    assert_eq!(machine.pc(), 0x345);
    assert_eq!(machine.execute(Instruction::Unknown, &keys), Err(FaultKind::UnknownOpcode));
    assert_eq!(machine.pc(), 0x345);
    assert_eq!(machine.execute(Instruction::Random { x: 1, nn: 0x00 }, &keys), Ok(Flow::Continue));
    assert_eq!(machine.register(1), 0);
    assert_eq!(machine.execute_with(Instruction::Random { x: 1, nn: 0x0F }, &keys, 0x5A), Ok(
        Flow::Continue
    ));
    assert_eq!(machine.register(1), 0x0A);
}

#[test]
fn fetch_reads_the_high_byte_first() {
    let machine = boot(&[0xAB, 0xCD]);
    assert_eq!(machine.fetch(), Ok(0xABCD));
}
