use chip8::chip::{lowest_pressed_key, Chip};
use chip8::decode::Instruction;
use chip8::fault::{Fault, FaultKind, LoadFault};
use chip8::font::{glyph_address_of, CHIP8_FONTSET};
use chip8::machine::{Mode, PROGRAM_SPACE, PROGRAM_START};

fn boot(program: &[u8]) -> Chip {
    let mut chip: Chip = Chip::init();
    assert_eq!(chip.load_to_memory(program), Ok(()));
    chip
}

fn run(chip: &mut Chip, cycles: usize) {
    let mut done: usize = 0;
    while done < cycles {
        assert_eq!(chip.emulate_cycle(0, 0), Ok(()));
        done += 1;
    }
}

fn lit_pixels(chip: &Chip) -> usize {
    let grid: [bool; 2048] = chip.display().snapshot();
    let mut count: usize = 0;
    let mut i: usize = 0;
    while i < 2048 {
        if grid[i] {
            count += 1;
        }
        i += 1;
    }
    count
}

#[test]
fn init_gives_a_zeroed_machine_with_the_font() {
    let chip: Chip = Chip::init();
    assert_eq!(chip.program_counter(), 0x200);
    assert_eq!(chip.program_counter(), PROGRAM_START);
    assert_eq!(chip.index_register(), 0);
    assert_eq!(chip.op_code(), 0);
    assert_eq!(chip.registers(), [0u8; 16]);
    assert_eq!(chip.stack_depth(), 0);
    assert_eq!(chip.delay_timer(), 0);
    assert_eq!(chip.sound_timer(), 0);
    assert!(!chip.sound_on());
    assert_eq!(chip.keys(), [false; 16]);
    assert_eq!(chip.mode(), Mode::Running);
    assert_eq!(lit_pixels(&chip), 0);
    let memory: &[u8; 4096] = chip.memory();
    let mut a: usize = 0;
    while a < 4096 {
        if a < 80 {
            assert_eq!(memory[a], CHIP8_FONTSET[a]);
        } else {
            assert_eq!(memory[a], 0);
        }
        a += 1;
    }
}

#[test]
fn load_fontset_puts_the_font_at_the_bottom() {
    let memory: [u8; 4096] = Chip::load_fontset();
    assert_eq!(&memory[0..5], &[0xF0, 0x90, 0x90, 0x90, 0xF0]);
    assert_eq!(&memory[75..80], &[0xF0, 0x80, 0xF0, 0x80, 0x80]);
    assert!(memory[80..].iter().all(|byte| *byte == 0));
    assert_eq!(memory, *Chip::init().memory());
}

#[test]
fn load_to_memory_writes_the_program_at_the_load_address() {
    let chip: Chip = boot(&[0x12, 0x34, 0x56]);
    assert_eq!(&chip.memory()[0x200..0x204], &[0x12, 0x34, 0x56, 0x00]);
    assert_eq!(chip.memory()[0x1FF], 0);
    assert_eq!(&chip.memory()[0..80], &CHIP8_FONTSET[..]);
    assert_eq!(chip.program_counter(), 0x200);
}

#[test]
fn load_to_memory_takes_a_program_that_fills_memory() {
    let mut program: Vec<u8> = vec![0xAB; PROGRAM_SPACE];
    program[PROGRAM_SPACE - 1] = 0xCD;
    let chip: Chip = boot(&program);
    assert_eq!(chip.memory()[0x200], 0xAB);
    assert_eq!(chip.memory()[0xFFE], 0xAB);
    assert_eq!(chip.memory()[0xFFF], 0xCD);
    assert_eq!(PROGRAM_SPACE, 0xFFF - 0x200 + 1);
}

#[test]
fn load_to_memory_refuses_a_program_that_is_too_large() {
    let mut chip: Chip = boot(&[0x60, 0x07]);
    run(&mut chip, 1);
    let before: [u8; 4096] = *chip.memory();
    let program: Vec<u8> = vec![0xFF; PROGRAM_SPACE + 1];
    assert_eq!(chip.load_to_memory(&program), Err(LoadFault::ProgramTooLarge));
    assert_eq!(*chip.memory(), before);
    assert_eq!(chip.program_counter(), 0x202);
    assert_eq!(chip.registers()[0], 7);
}

#[test]
fn load_to_memory_resets_the_program_counter_only() {
    let mut chip: Chip = boot(&[0x60, 0x07, 0xA1, 0x23]);
    run(&mut chip, 2);
    assert_eq!(chip.load_to_memory(&[0x00, 0xE0]), Ok(()));
    assert_eq!(chip.program_counter(), 0x200);
    assert_eq!(chip.registers()[0], 7);
    assert_eq!(chip.index_register(), 0x123);
    assert_eq!(&chip.memory()[0x200..0x204], &[0x00, 0xE0, 0xA1, 0x23]);
}

#[test]
fn fetch_opcode_reads_a_big_endian_word() {
    let mut chip: Chip = boot(&[0xD1, 0x23]);
    assert_eq!(chip.fetch_opcode(), Ok(()));
    assert_eq!(chip.op_code(), 0xD123);
    assert_eq!(chip.program_counter(), 0x200);
    assert_eq!(chip.op_x(), 0x1);
    assert_eq!(chip.op_y(), 0x2);
    assert_eq!(chip.op_n(), 0x3);
    assert_eq!(chip.op_nn(), 0x23);
    assert_eq!(chip.op_nnn(), 0x123);
}

#[test]
fn fetch_opcode_faults_at_the_last_byte() {
    let mut chip: Chip = boot(&[0x1F, 0xFF]);
    run(&mut chip, 1);
    assert_eq!(chip.program_counter(), 0xFFF);
    let fault: Fault = Fault { kind: FaultKind::PcOutOfBounds, opcode: 0x1FFF, pc: 0xFFF };
    assert_eq!(chip.fetch_opcode(), Err(fault));
    assert_eq!(chip.op_code(), 0x1FFF);
    assert_eq!(chip.emulate_cycle(0, 0), Err(fault));
    assert_eq!(chip.program_counter(), 0xFFF);
}

#[test]
fn fetch_opcode_reads_the_last_word_of_memory() {
    let mut program: Vec<u8> = vec![0x00; PROGRAM_SPACE];
    program[0] = 0x1F;
    program[1] = 0xFE;
    program[PROGRAM_SPACE - 2] = 0x12;
    program[PROGRAM_SPACE - 1] = 0x00;
    let mut chip: Chip = boot(&program);
    run(&mut chip, 1);
    assert_eq!(chip.program_counter(), 0xFFE);
    assert_eq!(chip.fetch_opcode(), Ok(()));
    assert_eq!(chip.op_code(), 0x1200);
    assert_eq!(chip.execute_opcode(0), Ok(()));
    assert_eq!(chip.program_counter(), 0x200);
}

#[test]
fn load_byte_reads_back_in_every_register() {
    let mut x: u8 = 0;
    while x < 16 {
        let mut nn: u16 = 0;
        while nn <= 0xFF {
            let mut chip: Chip = boot(&[0x60 | x, nn as u8]);
            run(&mut chip, 1);
            let registers: [u8; 16] = chip.registers();
            let mut other: usize = 0;
            while other < 16 {
                if other == x as usize {
                    assert_eq!(registers[other], nn as u8);
                } else {
                    assert_eq!(registers[other], 0);
                }
                other += 1;
            }
            assert_eq!(chip.program_counter(), 0x202);
            nn += 85;
        }
        x += 1;
    }
}

#[test]
fn add_byte_wraps_and_leaves_the_flag() {
    let mut chip: Chip = boot(&[0x63, 0xFF, 0x73, 0x02, 0x7F, 0x10]);
    run(&mut chip, 2);
    assert_eq!(chip.registers()[3], 0x01);
    assert_eq!(chip.registers()[0xF], 0x00);
    run(&mut chip, 1);
    assert_eq!(chip.registers()[0xF], 0x10);
    assert_eq!(chip.program_counter(), 0x206);
}

#[test]
fn move_or_and_xor() {
    let mut chip: Chip = boot(&[
        0x60, 0b1100, 0x61, 0b1010, 0x82, 0x00, 0x82, 0x11, 0x83, 0x00, 0x83, 0x12, 0x84, 0x00,
        0x84, 0x13,
    ]);
    run(&mut chip, 8);
    let v: [u8; 16] = chip.registers();
    assert_eq!(v[0], 0b1100);
    assert_eq!(v[1], 0b1010);
    assert_eq!(v[2], 0b1110);
    assert_eq!(v[3], 0b1000);
    assert_eq!(v[4], 0b0110);
    assert_eq!(v[0xF], 0);
}

#[test]
fn addition_sets_the_carry_flag() {
    let mut chip: Chip = boot(&[0x60, 0xFF, 0x61, 0x01, 0x80, 0x14]);
    run(&mut chip, 3);
    assert_eq!(chip.registers()[0], 0x00);
    assert_eq!(chip.registers()[1], 0x01);
    assert_eq!(chip.registers()[0xF], 1);
    let mut small: Chip = boot(&[0x60, 0x01, 0x61, 0x01, 0x6F, 0x09, 0x80, 0x14]);
    run(&mut small, 4);
    assert_eq!(small.registers()[0], 0x02);
    assert_eq!(small.registers()[0xF], 0);
}

#[test]
fn subtraction_sets_the_no_borrow_flag() {
    let mut chip: Chip = boot(&[0x60, 0x05, 0x61, 0x03, 0x80, 0x15]);
    run(&mut chip, 3);
    assert_eq!(chip.registers()[0], 0x02);
    assert_eq!(chip.registers()[0xF], 1);
    let mut borrow: Chip = boot(&[0x60, 0x03, 0x61, 0x05, 0x6F, 0x09, 0x80, 0x15]);
    run(&mut borrow, 4);
    assert_eq!(borrow.registers()[0], 0xFE);
    assert_eq!(borrow.registers()[0xF], 0);
    let mut equal: Chip = boot(&[0x60, 0x05, 0x61, 0x05, 0x80, 0x15]);
    run(&mut equal, 3);
    assert_eq!(equal.registers()[0], 0x00);
    assert_eq!(equal.registers()[0xF], 1);
}

#[test]
fn reversed_subtraction_takes_vx_from_vy() {
    let mut chip: Chip = boot(&[0x60, 0x03, 0x61, 0x05, 0x80, 0x17]);
    run(&mut chip, 3);
    assert_eq!(chip.registers()[0], 0x02);
    assert_eq!(chip.registers()[1], 0x05);
    assert_eq!(chip.registers()[0xF], 1);
    let mut borrow: Chip = boot(&[0x60, 0x05, 0x61, 0x03, 0x80, 0x17]);
    run(&mut borrow, 3);
    assert_eq!(borrow.registers()[0], 0xFE);
    assert_eq!(borrow.registers()[0xF], 0);
}

#[test]
fn shifts_work_on_vx_and_ignore_vy() {
    let mut right: Chip = boot(&[0x60, 0x05, 0x61, 0xF0, 0x80, 0x16]);
    run(&mut right, 3);
    assert_eq!(right.registers()[0], 0x02);
    assert_eq!(right.registers()[1], 0xF0);
    assert_eq!(right.registers()[0xF], 1);
    let mut left: Chip = boot(&[0x60, 0x81, 0x61, 0x0F, 0x80, 0x1E]);
    run(&mut left, 3);
    assert_eq!(left.registers()[0], 0x02);
    assert_eq!(left.registers()[1], 0x0F);
    assert_eq!(left.registers()[0xF], 1);
    let mut even: Chip = boot(&[0x60, 0x04, 0x6F, 0x01, 0x80, 0x06]);
    run(&mut even, 3);
    assert_eq!(even.registers()[0], 0x02);
    assert_eq!(even.registers()[0xF], 0);
}

#[test]
fn the_flag_is_written_last() {
    // VF = 0xFF + 0x01: the sum would be 0, the carry is 1.
    let mut add: Chip = boot(&[0x6F, 0xFF, 0x61, 0x01, 0x8F, 0x14]);
    run(&mut add, 3);
    assert_eq!(add.registers()[0xF], 1);
    // VF = 2 >> 1: the result would be 1, the bit pushed out is 0.
    let mut shift: Chip = boot(&[0x6F, 0x02, 0x8F, 0x06]);
    run(&mut shift, 2);
    assert_eq!(shift.registers()[0xF], 0);
    // VF as the second operand is read before it is written.
    let mut operand: Chip = boot(&[0x60, 0x10, 0x6F, 0x20, 0x80, 0xF5]);
    run(&mut operand, 3);
    assert_eq!(operand.registers()[0], 0xF0);
    assert_eq!(operand.registers()[0xF], 0);
}

#[test]
fn random_byte_is_masked() {
    let mut chip: Chip = boot(&[0xC0, 0x0F, 0xC1, 0xFF, 0xC2, 0x00]);
    assert_eq!(chip.emulate_cycle(0xAB, 0), Ok(()));
    assert_eq!(chip.emulate_cycle(0xAB, 0), Ok(()));
    assert_eq!(chip.emulate_cycle(0xAB, 0), Ok(()));
    assert_eq!(chip.registers()[0], 0x0B);
    assert_eq!(chip.registers()[1], 0xAB);
    assert_eq!(chip.registers()[2], 0x00);
    assert_eq!(chip.program_counter(), 0x206);
}

#[test]
fn only_the_random_instruction_reads_the_random_byte() {
    let program: [u8; 6] = [0x60, 0x12, 0x70, 0x34, 0x80, 0x0E];
    let mut quiet: Chip = boot(&program);
    let mut noisy: Chip = boot(&program);
    let mut step: u8 = 0;
    while step < 3 {
        assert_eq!(quiet.emulate_cycle(0x00, 0), Ok(()));
        assert_eq!(noisy.emulate_cycle(0xFF - step, 0), Ok(()));
        step += 1;
    }
    assert_eq!(quiet.registers(), noisy.registers());
}

#[test]
fn jump_sets_the_program_counter() {
    let mut chip: Chip = boot(&[0x1A, 0xBC]);
    run(&mut chip, 1);
    assert_eq!(chip.program_counter(), 0xABC);
    assert_eq!(chip.stack_depth(), 0);
}

#[test]
fn jump_with_offset_adds_v0() {
    let mut chip: Chip = boot(&[0x60, 0x10, 0xB3, 0x00]);
    run(&mut chip, 2);
    assert_eq!(chip.program_counter(), 0x310);
}

#[test]
fn jump_with_offset_faults_beyond_memory() {
    let mut chip: Chip = boot(&[0x60, 0x01, 0xBF, 0xFF]);
    run(&mut chip, 1);
    assert_eq!(
        chip.emulate_cycle(0, 0),
        Err(Fault { kind: FaultKind::PcOutOfBounds, opcode: 0xBFFF, pc: 0x202 })
    );
    assert_eq!(chip.program_counter(), 0x202);
    let mut edge: Chip = boot(&[0x60, 0xFF, 0xBF, 0x00]);
    run(&mut edge, 2);
    assert_eq!(edge.program_counter(), 0xFFF);
}

#[test]
fn call_then_return_comes_back_after_the_call() {
    // 0x200: CALL 0x206; 0x202: V1 = 1; 0x206: V0 = 7; 0x208: RETURN
    let mut chip: Chip = boot(&[0x22, 0x06, 0x61, 0x01, 0x00, 0x00, 0x60, 0x07, 0x00, 0xEE]);
    run(&mut chip, 1);
    assert_eq!(chip.program_counter(), 0x206);
    assert_eq!(chip.stack_depth(), 1);
    run(&mut chip, 2);
    assert_eq!(chip.program_counter(), 0x202);
    assert_eq!(chip.stack_depth(), 0);
    assert_eq!(chip.registers()[0], 7);
    run(&mut chip, 1);
    assert_eq!(chip.registers()[1], 1);
}

#[test]
fn call_and_return_round_trip_for_many_targets() {
    let mut target: u16 = 0x202;
    while target <= 0xFFE {
        let mut program: Vec<u8> = vec![0x00; PROGRAM_SPACE];
        program[0] = 0x20 | (target >> 8) as u8;
        program[1] = (target & 0xFF) as u8;
        program[target as usize - 0x200] = 0x00;
        program[target as usize - 0x200 + 1] = 0xEE;
        let mut chip: Chip = boot(&program);
        run(&mut chip, 1);
        assert_eq!(chip.program_counter(), target);
        run(&mut chip, 1);
        assert_eq!(chip.program_counter(), 0x202);
        assert_eq!(chip.stack_depth(), 0);
        target += 0x1F4;
    }
}

#[test]
fn nested_calls_return_in_reverse_order() {
    // 0x200: CALL 0x204; 0x202: JUMP 0x202; 0x204: CALL 0x208;
    // 0x206: RETURN; 0x208: RETURN
    let mut chip: Chip = boot(&[0x22, 0x04, 0x12, 0x02, 0x22, 0x08, 0x00, 0xEE, 0x00, 0xEE]);
    run(&mut chip, 2);
    assert_eq!(chip.program_counter(), 0x208);
    assert_eq!(chip.stack_depth(), 2);
    run(&mut chip, 1);
    assert_eq!(chip.program_counter(), 0x206);
    run(&mut chip, 1);
    assert_eq!(chip.program_counter(), 0x202);
    assert_eq!(chip.stack_depth(), 0);
}

#[test]
fn the_seventeenth_nested_call_overflows() {
    // Seventeen calls in a row, each to the instruction after it.
    let mut program: Vec<u8> = Vec::new();
    let mut n: u16 = 0;
    while n < 17 {
        let target: u16 = 0x200 + 2 * (n + 1);
        program.push(0x20 | (target >> 8) as u8);
        program.push((target & 0xFF) as u8);
        n += 1;
    }
    let mut chip: Chip = boot(&program);
    let mut made: usize = 0;
    while made < 16 {
        assert_eq!(chip.emulate_cycle(0, 0), Ok(()));
        made += 1;
        assert_eq!(chip.stack_depth(), made);
    }
    assert_eq!(chip.program_counter(), 0x220);
    assert_eq!(
        chip.emulate_cycle(0, 0),
        Err(Fault { kind: FaultKind::StackOverflow, opcode: 0x2222, pc: 0x220 })
    );
    assert_eq!(chip.stack_depth(), 16);
    assert_eq!(chip.program_counter(), 0x220);
}

#[test]
fn sixteen_nested_calls_all_return() {
    // Sixteen calls in a row, then sixteen returns.
    let mut program: Vec<u8> = Vec::new();
    let mut n: u16 = 0;
    while n < 16 {
        let target: u16 = 0x200 + 2 * (n + 1);
        program.push(0x20 | (target >> 8) as u8);
        program.push((target & 0xFF) as u8);
        n += 1;
    }
    program.push(0x00);
    program.push(0xEE);
    let mut chip: Chip = boot(&program);
    run(&mut chip, 16);
    assert_eq!(chip.stack_depth(), 16);
    // The last call saved 0x220, where the return stands; each return then
    // lands on the call after the one it returns from, which calls again.
    run(&mut chip, 1);
    assert_eq!(chip.program_counter(), 0x220);
    assert_eq!(chip.stack_depth(), 15);
    run(&mut chip, 1);
    assert_eq!(chip.program_counter(), 0x21E);
    assert_eq!(chip.stack_depth(), 14);
}

#[test]
fn return_with_an_empty_stack_underflows() {
    let mut chip: Chip = boot(&[0x00, 0xEE]);
    assert_eq!(
        chip.emulate_cycle(0, 0),
        Err(Fault { kind: FaultKind::StackUnderflow, opcode: 0x00EE, pc: 0x200 })
    );
    assert_eq!(chip.program_counter(), 0x200);
    assert_eq!(chip.stack_depth(), 0);
}

#[test]
fn skip_if_equal_byte() {
    let mut hit: Chip = boot(&[0x60, 0x42, 0x30, 0x42]);
    run(&mut hit, 2);
    assert_eq!(hit.program_counter(), 0x206);
    let mut miss: Chip = boot(&[0x60, 0x42, 0x30, 0x43]);
    run(&mut miss, 2);
    assert_eq!(miss.program_counter(), 0x204);
}

#[test]
fn skip_if_not_equal_byte() {
    let mut hit: Chip = boot(&[0x60, 0x42, 0x40, 0x43]);
    run(&mut hit, 2);
    assert_eq!(hit.program_counter(), 0x206);
    let mut miss: Chip = boot(&[0x60, 0x42, 0x40, 0x42]);
    run(&mut miss, 2);
    assert_eq!(miss.program_counter(), 0x204);
}

#[test]
fn skip_if_registers_equal() {
    let mut hit: Chip = boot(&[0x60, 0x42, 0x61, 0x42, 0x50, 0x10]);
    run(&mut hit, 3);
    assert_eq!(hit.program_counter(), 0x208);
    let mut miss: Chip = boot(&[0x60, 0x42, 0x61, 0x43, 0x50, 0x10]);
    run(&mut miss, 3);
    assert_eq!(miss.program_counter(), 0x206);
}

#[test]
fn skip_if_registers_differ() {
    let mut hit: Chip = boot(&[0x60, 0x42, 0x61, 0x43, 0x90, 0x10]);
    run(&mut hit, 3);
    assert_eq!(hit.program_counter(), 0x208);
    let mut miss: Chip = boot(&[0x60, 0x42, 0x61, 0x42, 0x90, 0x10]);
    run(&mut miss, 3);
    assert_eq!(miss.program_counter(), 0x206);
}

#[test]
fn skips_change_nothing_but_the_program_counter() {
    let mut chip: Chip = boot(&[0x60, 0x42, 0x30, 0x42]);
    run(&mut chip, 1);
    let registers: [u8; 16] = chip.registers();
    let memory: [u8; 4096] = *chip.memory();
    run(&mut chip, 1);
    assert_eq!(chip.registers(), registers);
    assert_eq!(*chip.memory(), memory);
    assert_eq!(chip.index_register(), 0);
    assert_eq!(chip.stack_depth(), 0);
}

#[test]
fn skip_if_key_pressed() {
    let mut keys: [bool; 16] = [false; 16];
    keys[0xA] = true;
    let mut hit: Chip = boot(&[0x60, 0x0A, 0xE0, 0x9E]);
    hit.set_keys(keys);
    run(&mut hit, 2);
    assert_eq!(hit.program_counter(), 0x206);
    let mut miss: Chip = boot(&[0x60, 0x0B, 0xE0, 0x9E]);
    miss.set_keys(keys);
    run(&mut miss, 2);
    assert_eq!(miss.program_counter(), 0x204);
}

#[test]
fn skip_if_key_not_pressed() {
    let mut keys: [bool; 16] = [false; 16];
    keys[0xA] = true;
    let mut hit: Chip = boot(&[0x60, 0x0B, 0xE0, 0xA1]);
    hit.set_keys(keys);
    run(&mut hit, 2);
    assert_eq!(hit.program_counter(), 0x206);
    let mut miss: Chip = boot(&[0x60, 0x0A, 0xE0, 0xA1]);
    miss.set_keys(keys);
    run(&mut miss, 2);
    assert_eq!(miss.program_counter(), 0x204);
}

#[test]
fn a_number_above_fifteen_names_no_key() {
    let keys: [bool; 16] = [true; 16];
    let mut pressed: Chip = boot(&[0x60, 0x1A, 0xE0, 0x9E]);
    pressed.set_keys(keys);
    run(&mut pressed, 2);
    assert_eq!(pressed.program_counter(), 0x204);
    let mut released: Chip = boot(&[0x60, 0xFF, 0xE0, 0xA1]);
    released.set_keys(keys);
    run(&mut released, 2);
    assert_eq!(released.program_counter(), 0x206);
}

#[test]
fn set_keys_replaces_the_key_table() {
    let mut chip: Chip = Chip::init();
    let mut keys: [bool; 16] = [false; 16];
    keys[3] = true;
    keys[15] = true;
    chip.set_keys(keys);
    assert_eq!(chip.keys(), keys);
    chip.set_keys([false; 16]);
    assert_eq!(chip.keys(), [false; 16]);
}

#[test]
fn lowest_pressed_key_finds_the_first() {
    let mut keys: [bool; 16] = [false; 16];
    assert_eq!(lowest_pressed_key(&keys), None);
    keys[15] = true;
    assert_eq!(lowest_pressed_key(&keys), Some(15));
    keys[4] = true;
    assert_eq!(lowest_pressed_key(&keys), Some(4));
    keys[0] = true;
    assert_eq!(lowest_pressed_key(&keys), Some(0));
}

#[test]
fn wait_for_key_suspends_until_a_key_is_pressed() {
    // 0x200: V5 = wait for key; 0x202: V1 = 9
    let mut chip: Chip = boot(&[0xF5, 0x0A, 0x61, 0x09]);
    run(&mut chip, 1);
    assert_eq!(chip.mode(), Mode::AwaitingKey { register: 5 });
    assert_eq!(chip.program_counter(), 0x200);
    assert_eq!(chip.registers(), [0u8; 16]);
    run(&mut chip, 3);
    assert_eq!(chip.mode(), Mode::AwaitingKey { register: 5 });
    assert_eq!(chip.program_counter(), 0x200);
    assert_eq!(chip.registers(), [0u8; 16]);
    let mut keys: [bool; 16] = [false; 16];
    keys[0xC] = true;
    keys[0x7] = true;
    chip.set_keys(keys);
    run(&mut chip, 1);
    assert_eq!(chip.mode(), Mode::Running);
    assert_eq!(chip.registers()[5], 0x7);
    assert_eq!(chip.program_counter(), 0x202);
    assert_eq!(chip.registers()[1], 0);
    run(&mut chip, 1);
    assert_eq!(chip.registers()[1], 9);
    assert_eq!(chip.program_counter(), 0x204);
}

#[test]
fn wait_for_key_takes_a_key_that_is_down_in_the_same_cycle() {
    // 0x200: V5 = wait for key; 0x202: V1 = 9
    let mut chip: Chip = boot(&[0xF5, 0x0A, 0x61, 0x09]);
    let mut keys: [bool; 16] = [false; 16];
    keys[0x7] = true;
    chip.set_keys(keys);
    run(&mut chip, 1);
    assert_eq!(chip.mode(), Mode::Running);
    assert_eq!(chip.registers()[5], 0x7);
    assert_eq!(chip.program_counter(), 0x202);
    // The key is down in that one cycle only, and is not lost.
    chip.set_keys([false; 16]);
    run(&mut chip, 1);
    assert_eq!(chip.registers()[5], 0x7);
    assert_eq!(chip.registers()[1], 9);
    assert_eq!(chip.program_counter(), 0x204);
}

#[test]
fn wait_for_key_stores_every_key() {
    let mut key: u8 = 0;
    while key < 16 {
        let mut keys: [bool; 16] = [false; 16];
        keys[key as usize] = true;
        // Taken at once.
        let mut at_once: Chip = boot(&[0xF3, 0x0A]);
        at_once.set_keys(keys);
        run(&mut at_once, 1);
        assert_eq!(at_once.registers()[3], key);
        assert_eq!(at_once.program_counter(), 0x202);
        assert_eq!(at_once.mode(), Mode::Running);
        // Taken after a wait.
        let mut later: Chip = boot(&[0xF3, 0x0A]);
        run(&mut later, 2);
        assert_eq!(later.mode(), Mode::AwaitingKey { register: 3 });
        later.set_keys(keys);
        run(&mut later, 1);
        assert_eq!(later.registers()[3], key);
        assert_eq!(later.program_counter(), 0x202);
        assert_eq!(later.mode(), Mode::Running);
        key += 1;
    }
}

#[test]
fn wait_for_key_executes_nothing_while_it_waits() {
    // 0x200: VA = wait for key; 0x202: V1 = 9. The word at the program
    // counter is not fetched again while the machine waits.
    let mut chip: Chip = boot(&[0xFA, 0x0A, 0x61, 0x09]);
    run(&mut chip, 1);
    assert_eq!(chip.op_code(), 0xFA0A);
    let memory: [u8; 4096] = *chip.memory();
    let mut cycle: u32 = 0;
    while cycle < 5 {
        assert_eq!(chip.emulate_cycle(cycle as u8, 0), Ok(()));
        assert_eq!(chip.mode(), Mode::AwaitingKey { register: 0xA });
        assert_eq!(chip.program_counter(), 0x200);
        assert_eq!(chip.registers(), [0u8; 16]);
        assert_eq!(*chip.memory(), memory);
        assert_eq!(chip.op_code(), 0xFA0A);
        assert_eq!(chip.stack_depth(), 0);
        cycle += 1;
    }
}

#[test]
fn wait_for_key_at_the_end_of_memory_faults_when_the_key_comes() {
    // JUMP 0xFFE, where "V2 = wait for key" stands.
    let mut program: Vec<u8> = vec![0x00; PROGRAM_SPACE];
    program[0] = 0x1F;
    program[1] = 0xFE;
    program[PROGRAM_SPACE - 2] = 0xF2;
    program[PROGRAM_SPACE - 1] = 0x0A;
    let mut chip: Chip = boot(&program);
    run(&mut chip, 3);
    assert_eq!(chip.mode(), Mode::AwaitingKey { register: 2 });
    assert_eq!(chip.program_counter(), 0xFFE);
    let mut keys: [bool; 16] = [false; 16];
    keys[4] = true;
    chip.set_keys(keys);
    let fault: Fault = Fault { kind: FaultKind::PcOutOfBounds, opcode: 0xF20A, pc: 0xFFE };
    assert_eq!(chip.emulate_cycle(0, 1_000_000), Err(fault));
    assert_eq!(chip.mode(), Mode::AwaitingKey { register: 2 });
    assert_eq!(chip.registers()[2], 0);
    assert_eq!(chip.program_counter(), 0xFFE);
    assert_eq!(chip.emulate_cycle(0, 0), Err(fault));
    // With the key down from the start the first cycle faults already.
    let mut held: Chip = boot(&program);
    held.set_keys(keys);
    run(&mut held, 1);
    assert_eq!(held.emulate_cycle(0, 0), Err(fault));
    assert_eq!(held.mode(), Mode::Running);
    assert_eq!(held.registers()[2], 0);
}

#[test]
fn execute_instruction_waits_for_a_key() {
    let mut chip: Chip = Chip::init();
    assert_eq!(chip.execute_instruction(Instruction::WaitKey { x: 6 }, 0), Ok(()));
    assert_eq!(chip.mode(), Mode::AwaitingKey { register: 6 });
    assert_eq!(chip.program_counter(), 0x200);
    let mut keys: [bool; 16] = [false; 16];
    keys[0xF] = true;
    keys[0xB] = true;
    chip.set_keys(keys);
    assert_eq!(chip.execute_instruction(Instruction::WaitKey { x: 6 }, 0), Ok(()));
    assert_eq!(chip.mode(), Mode::Running);
    assert_eq!(chip.registers()[6], 0xB);
    assert_eq!(chip.program_counter(), 0x202);
}

#[test]
fn timers_count_while_the_machine_waits_for_a_key() {
    // V0 = 30; delay = V0; sound = V0; wait for key
    let mut chip: Chip = boot(&[0x60, 0x1E, 0xF0, 0x15, 0xF0, 0x18, 0xF1, 0x0A]);
    run(&mut chip, 4);
    assert_eq!(chip.mode(), Mode::AwaitingKey { register: 1 });
    assert_eq!(chip.program_counter(), 0x206);
    assert_eq!(chip.delay_timer(), 30);
    let mut cycle: u32 = 0;
    while cycle < 10 {
        assert_eq!(chip.emulate_cycle(0, 16_667), Ok(()));
        cycle += 1;
    }
    assert_eq!(chip.mode(), Mode::AwaitingKey { register: 1 });
    assert_eq!(chip.program_counter(), 0x206);
    assert_eq!(chip.delay_timer(), 20);
    assert_eq!(chip.sound_timer(), 20);
    // The cycle that takes the key counts too.
    chip.set_keys([true; 16]);
    assert_eq!(chip.emulate_cycle(0, 16_667), Ok(()));
    assert_eq!(chip.mode(), Mode::Running);
    assert_eq!(chip.registers()[1], 0);
    assert_eq!(chip.program_counter(), 0x208);
    assert_eq!(chip.delay_timer(), 19);
}

#[test]
fn the_delay_timer_keeps_its_pace_when_the_sound_timer_is_set() {
    // V0 = 100; delay = V0; V1 = 7; then sound = V1 and jump back, for ever.
    let program: [u8; 10] = [0x60, 0x64, 0xF0, 0x15, 0x61, 0x07, 0xF1, 0x18, 0x12, 0x06];
    let mut chip: Chip = boot(&program);
    run(&mut chip, 3);
    let mut cycle: u32 = 0;
    while cycle < 500 {
        assert_eq!(chip.emulate_cycle(0, 1_000), Ok(()));
        cycle += 1;
    }
    // Half a second: 30 ticks for the delay timer, while the sound timer is
    // set again and again.
    assert_eq!(chip.delay_timer(), 70);
    assert!(chip.sound_timer() >= 6);
}

#[test]
fn timers_are_set_and_read() {
    // V0 = 0x2A; delay = V0; sound = V0; V1 = delay
    let mut chip: Chip = boot(&[0x60, 0x2A, 0xF0, 0x15, 0xF0, 0x18, 0xF1, 0x07]);
    run(&mut chip, 4);
    assert_eq!(chip.delay_timer(), 0x2A);
    assert_eq!(chip.sound_timer(), 0x2A);
    assert!(chip.sound_on());
    assert_eq!(chip.registers()[1], 0x2A);
    chip.tick_timers(1_000_000);
    assert_eq!(chip.delay_timer(), 0);
    assert!(!chip.sound_on());
}

#[test]
fn delay_of_ten_is_gone_after_a_second() {
    // V0 = 10; delay = V0; then jump in place
    let mut chip: Chip = boot(&[0x60, 0x0A, 0xF0, 0x15, 0x12, 0x04]);
    run(&mut chip, 2);
    assert_eq!(chip.delay_timer(), 10);
    let mut cycle: u32 = 0;
    while cycle < 1_000 {
        assert_eq!(chip.emulate_cycle(0, 1_000), Ok(()));
        cycle += 1;
    }
    assert_eq!(chip.delay_timer(), 0);
    assert_eq!(chip.sound_timer(), 0);
}

#[test]
fn timers_tick_sixty_times_a_second() {
    // V0 = 200; delay = V0; then jump in place
    let mut chip: Chip = boot(&[0x60, 0xC8, 0xF0, 0x15, 0x12, 0x04]);
    run(&mut chip, 2);
    let mut cycle: u32 = 0;
    while cycle < 500 {
        assert_eq!(chip.emulate_cycle(0, 1_000), Ok(()));
        cycle += 1;
    }
    // Half a second: 30 ticks.
    assert_eq!(chip.delay_timer(), 170);
    chip.tick_timers(16_666);
    assert_eq!(chip.delay_timer(), 170);
    chip.tick_timers(1);
    assert_eq!(chip.delay_timer(), 169);
    chip.tick_timers(2_000_000);
    assert_eq!(chip.delay_timer(), 49);
    chip.tick_timers(u64::MAX);
    assert_eq!(chip.delay_timer(), 0);
}

#[test]
fn timers_do_not_depend_on_the_number_of_cycles() {
    let program: [u8; 8] = [0x60, 0xC8, 0xF0, 0x15, 0xF0, 0x18, 0x12, 0x06];
    let mut few: Chip = boot(&program);
    let mut many: Chip = boot(&program);
    let mut one: Chip = boot(&program);
    run(&mut few, 3);
    run(&mut many, 3);
    run(&mut one, 3);
    // 0.7 seconds, cut into 7, into 7000 and into a single cycle.
    let mut cycle: u32 = 0;
    while cycle < 7 {
        assert_eq!(few.emulate_cycle(0, 100_000), Ok(()));
        cycle += 1;
    }
    cycle = 0;
    while cycle < 7_000 {
        assert_eq!(many.emulate_cycle(0, 100), Ok(()));
        cycle += 1;
    }
    assert_eq!(one.emulate_cycle(0, 700_000), Ok(()));
    assert_eq!(few.delay_timer(), 200 - 42);
    assert_eq!(many.delay_timer(), 200 - 42);
    assert_eq!(one.delay_timer(), 200 - 42);
    assert_eq!(few.sound_timer(), many.sound_timer());
    assert_eq!(one.sound_timer(), 200 - 42);
}

#[test]
fn a_fault_stops_the_timers() {
    // V0 = 10; delay = V0; RETURN with the stack empty
    let mut chip: Chip = boot(&[0x60, 0x0A, 0xF0, 0x15, 0x00, 0xEE]);
    run(&mut chip, 2);
    let fault: Fault = Fault { kind: FaultKind::StackUnderflow, opcode: 0x00EE, pc: 0x204 };
    assert_eq!(chip.emulate_cycle(0, 1_000_000), Err(fault));
    assert_eq!(chip.delay_timer(), 10);
    assert_eq!(chip.op_code(), 0x00EE);
}

#[test]
fn a_fault_is_reported_again_on_every_later_cycle() {
    let mut chip: Chip = boot(&[0x60, 0x0A, 0x81, 0x28]);
    run(&mut chip, 1);
    let fault: Fault = Fault { kind: FaultKind::UnusedSubOpcode, opcode: 0x8128, pc: 0x202 };
    assert_eq!(chip.emulate_cycle(1, 10), Err(fault));
    assert_eq!(chip.emulate_cycle(2, 20_000_000), Err(fault));
    assert_eq!(chip.emulate_cycle(3, 0), Err(fault));
    assert_eq!(chip.program_counter(), 0x202);
    assert_eq!(chip.registers()[0], 0x0A);
}

#[test]
fn unused_words_fault_and_change_nothing() {
    let words: [u16; 6] = [0x0000, 0x5121, 0x812F, 0x9121, 0xE1FF, 0xF1FF];
    let mut i: usize = 0;
    while i < words.len() {
        let word: u16 = words[i];
        let mut chip: Chip = boot(&[(word >> 8) as u8, (word & 0xFF) as u8]);
        let memory: [u8; 4096] = *chip.memory();
        assert_eq!(
            chip.emulate_cycle(0, 0),
            Err(Fault { kind: FaultKind::UnusedSubOpcode, opcode: word, pc: 0x200 })
        );
        assert_eq!(chip.program_counter(), 0x200);
        assert_eq!(chip.registers(), [0u8; 16]);
        assert_eq!(*chip.memory(), memory);
        assert_eq!(chip.op_code(), word);
        i += 1;
    }
}

#[test]
fn an_instruction_at_the_end_of_memory_faults_whole() {
    // JUMP 0xFFE, where V3 = 0x55 stands: carrying it out would leave the
    // program counter outside memory.
    let mut program: Vec<u8> = vec![0x00; PROGRAM_SPACE];
    program[0] = 0x1F;
    program[1] = 0xFE;
    program[PROGRAM_SPACE - 2] = 0x63;
    program[PROGRAM_SPACE - 1] = 0x55;
    let mut chip: Chip = boot(&program);
    run(&mut chip, 1);
    assert_eq!(
        chip.emulate_cycle(0, 0),
        Err(Fault { kind: FaultKind::PcOutOfBounds, opcode: 0x6355, pc: 0xFFE })
    );
    assert_eq!(chip.registers()[3], 0);
    assert_eq!(chip.program_counter(), 0xFFE);
}

#[test]
fn a_skip_near_the_end_of_memory_faults_only_if_taken() {
    // JUMP 0xFFC, where "skip if V0 == nn" stands.
    let mut program: Vec<u8> = vec![0x00; PROGRAM_SPACE];
    program[0] = 0x1F;
    program[1] = 0xFC;
    program[PROGRAM_SPACE - 4] = 0x30;
    program[PROGRAM_SPACE - 3] = 0x01;
    let mut miss: Chip = boot(&program);
    run(&mut miss, 2);
    assert_eq!(miss.program_counter(), 0xFFE);
    program[PROGRAM_SPACE - 3] = 0x00;
    let mut hit: Chip = boot(&program);
    run(&mut hit, 1);
    assert_eq!(
        hit.emulate_cycle(0, 0),
        Err(Fault { kind: FaultKind::PcOutOfBounds, opcode: 0x3000, pc: 0xFFC })
    );
    assert_eq!(hit.program_counter(), 0xFFC);
}

#[test]
fn a_call_at_the_end_of_memory_faults() {
    let mut program: Vec<u8> = vec![0x00; PROGRAM_SPACE];
    program[0] = 0x1F;
    program[1] = 0xFE;
    program[PROGRAM_SPACE - 2] = 0x22;
    program[PROGRAM_SPACE - 1] = 0x00;
    let mut chip: Chip = boot(&program);
    run(&mut chip, 1);
    assert_eq!(
        chip.emulate_cycle(0, 0),
        Err(Fault { kind: FaultKind::PcOutOfBounds, opcode: 0x2200, pc: 0xFFE })
    );
    assert_eq!(chip.stack_depth(), 0);
}

#[test]
fn load_index_and_add_to_index() {
    let mut chip: Chip = boot(&[0xA1, 0x23, 0x60, 0x10, 0xF0, 0x1E]);
    run(&mut chip, 1);
    assert_eq!(chip.index_register(), 0x123);
    run(&mut chip, 2);
    assert_eq!(chip.index_register(), 0x133);
    assert_eq!(chip.registers()[0xF], 0);
}

#[test]
fn add_to_index_wraps_within_twelve_bits() {
    let mut chip: Chip = boot(&[0xAF, 0xFF, 0x60, 0x02, 0x6F, 0x07, 0xF0, 0x1E]);
    run(&mut chip, 4);
    assert_eq!(chip.index_register(), 0x001);
    assert_eq!(chip.registers()[0xF], 0x07);
    let mut edge: Chip = boot(&[0xAF, 0x00, 0x60, 0xFF, 0xF0, 0x1E]);
    run(&mut edge, 3);
    assert_eq!(edge.index_register(), 0xFFF);
}

#[test]
fn glyph_lookup_points_at_the_sprite_of_the_digit() {
    let mut chip: Chip = boot(&[0x60, 0x0A, 0xF0, 0x29]);
    run(&mut chip, 2);
    assert_eq!(chip.index_register(), 50);
    let at: usize = chip.index_register() as usize;
    assert_eq!(&chip.memory()[at..at + 5], &[0xF0, 0x90, 0xF0, 0x90, 0x90]);
}

#[test]
fn glyph_lookup_for_every_digit() {
    let mut digit: u8 = 0;
    while digit < 16 {
        let mut chip: Chip = boot(&[0x63, digit, 0xF3, 0x29]);
        run(&mut chip, 2);
        let at: usize = chip.index_register() as usize;
        assert_eq!(at, digit as usize * 5);
        assert_eq!(at as u16, glyph_address_of(digit));
        assert_eq!(&chip.memory()[at..at + 5], &CHIP8_FONTSET[at..at + 5]);
        digit += 1;
    }
}

#[test]
fn glyph_lookup_follows_the_formula_beyond_the_digits() {
    let mut chip: Chip = boot(&[0x60, 0xFF, 0xF0, 0x29]);
    run(&mut chip, 2);
    assert_eq!(chip.index_register(), 255 * 5);
    assert_eq!(glyph_address_of(0x10), 80);
}

#[test]
fn decimal_digits_are_stored_at_the_index() {
    let mut chip: Chip = boot(&[0x60, 0xEA, 0xA3, 0x00, 0xF0, 0x33]);
    run(&mut chip, 3);
    assert_eq!(&chip.memory()[0x300..0x304], &[2, 3, 4, 0]);
    assert_eq!(chip.memory()[0x2FF], 0);
    assert_eq!(chip.index_register(), 0x300);
    assert_eq!(chip.program_counter(), 0x206);
}

#[test]
fn decimal_digits_wrap_at_the_end_of_memory() {
    let mut chip: Chip = boot(&[0x60, 0x7B, 0xAF, 0xFF, 0xF0, 0x33]);
    run(&mut chip, 3);
    assert_eq!(chip.memory()[0xFFF], 1);
    assert_eq!(chip.memory()[0x000], 2);
    assert_eq!(chip.memory()[0x001], 3);
    assert_eq!(chip.memory()[0x002], CHIP8_FONTSET[2]);
}

#[test]
fn registers_are_stored_up_to_vx() {
    let mut chip: Chip = boot(&[
        0x60, 0x11, 0x61, 0x22, 0x62, 0x33, 0x63, 0x44, 0xA4, 0x00, 0xF2, 0x55,
    ]);
    run(&mut chip, 6);
    assert_eq!(&chip.memory()[0x400..0x404], &[0x11, 0x22, 0x33, 0x00]);
    assert_eq!(chip.index_register(), 0x400);
    assert_eq!(chip.registers()[3], 0x44);
}

#[test]
fn registers_are_stored_below_the_load_address_too() {
    let mut chip: Chip = boot(&[0x60, 0x11, 0x61, 0x22, 0xA0, 0x00, 0xF1, 0x55]);
    run(&mut chip, 4);
    assert_eq!(&chip.memory()[0..3], &[0x11, 0x22, CHIP8_FONTSET[2]]);
}

#[test]
fn all_registers_are_stored_and_wrap_at_the_end_of_memory() {
    let mut program: Vec<u8> = Vec::new();
    let mut x: u8 = 0;
    while x < 16 {
        program.push(0x60 | x);
        program.push(0xA0 + x);
        x += 1;
    }
    program.extend_from_slice(&[0xAF, 0xF8, 0xFF, 0x55]);
    let mut chip: Chip = boot(&program);
    run(&mut chip, 18);
    assert_eq!(
        &chip.memory()[0xFF8..0x1000],
        &[0xA0, 0xA1, 0xA2, 0xA3, 0xA4, 0xA5, 0xA6, 0xA7]
    );
    assert_eq!(
        &chip.memory()[0..9],
        &[0xA8, 0xA9, 0xAA, 0xAB, 0xAC, 0xAD, 0xAE, 0xAF, CHIP8_FONTSET[8]]
    );
    assert_eq!(chip.memory()[0xFF7], 0);
}

#[test]
fn registers_are_loaded_up_to_vx() {
    // I = 0x208; load V0..=V2; data follows the two instructions
    let mut chip: Chip = boot(&[
        0xA2, 0x08, 0x6F, 0x77, 0xF2, 0x65, 0x00, 0x00, 0x0A, 0x0B, 0x0C, 0x0D,
    ]);
    run(&mut chip, 3);
    let v: [u8; 16] = chip.registers();
    assert_eq!(&v[0..4], &[0x0A, 0x0B, 0x0C, 0x00]);
    assert_eq!(v[0xF], 0x77);
    assert_eq!(chip.index_register(), 0x208);
}

#[test]
fn registers_are_loaded_across_the_end_of_memory() {
    let mut program: Vec<u8> = vec![0x00; PROGRAM_SPACE];
    program[0] = 0xAF;
    program[1] = 0xFE;
    program[2] = 0xF3;
    program[3] = 0x65;
    program[PROGRAM_SPACE - 2] = 0x12;
    program[PROGRAM_SPACE - 1] = 0x34;
    let mut chip: Chip = boot(&program);
    run(&mut chip, 2);
    let v: [u8; 16] = chip.registers();
    assert_eq!(&v[0..5], &[0x12, 0x34, CHIP8_FONTSET[0], CHIP8_FONTSET[1], 0x00]);
}

#[test]
fn store_then_load_gives_the_registers_back() {
    let mut chip: Chip = boot(&[
        0x60, 0x01, 0x61, 0x02, 0x62, 0x03, 0xA5, 0x00, 0xF2, 0x55, 0x60, 0x00, 0x61, 0x00, 0x62,
        0x00, 0xF2, 0x65,
    ]);
    run(&mut chip, 8);
    assert_eq!(&chip.registers()[0..3], &[0, 0, 0]);
    run(&mut chip, 1);
    assert_eq!(&chip.registers()[0..3], &[1, 2, 3]);
}

#[test]
fn draw_sets_pixels_and_clears_the_flag() {
    // V0 = 0xA; I = glyph(V0); V1 = 4; V2 = 6; VF = 9; draw 5 rows at (V1, V2)
    let mut chip: Chip = boot(&[
        0x60, 0x0A, 0xF0, 0x29, 0x61, 0x04, 0x62, 0x06, 0x6F, 0x09, 0xD1, 0x25,
    ]);
    run(&mut chip, 6);
    assert_eq!(chip.registers()[0xF], 0);
    assert_eq!(lit_pixels(&chip), 14);
    // The top row of the glyph A is 0xF0.
    assert!(chip.display().pixel(4, 6));
    assert!(chip.display().pixel(7, 6));
    assert!(!chip.display().pixel(8, 6));
    // Its second row is 0x90.
    assert!(chip.display().pixel(4, 7));
    assert!(!chip.display().pixel(5, 7));
    assert!(chip.display().pixel(7, 7));
    assert_eq!(chip.program_counter(), 0x20C);
    assert_eq!(chip.index_register(), 50);
}

#[test]
fn drawing_the_same_sprite_twice_erases_it_and_sets_the_flag() {
    let mut chip: Chip = boot(&[
        0x60, 0x0A, 0xF0, 0x29, 0x61, 0x04, 0x62, 0x06, 0xD1, 0x25, 0xD1, 0x25,
    ]);
    run(&mut chip, 5);
    assert_eq!(chip.registers()[0xF], 0);
    assert_eq!(lit_pixels(&chip), 14);
    run(&mut chip, 1);
    assert_eq!(chip.registers()[0xF], 1);
    assert_eq!(lit_pixels(&chip), 0);
}

#[test]
fn drawing_no_rows_draws_nothing() {
    let mut chip: Chip = boot(&[0x6F, 0x05, 0xD0, 0x00]);
    run(&mut chip, 2);
    assert_eq!(lit_pixels(&chip), 0);
    assert_eq!(chip.registers()[0xF], 0);
    assert_eq!(chip.program_counter(), 0x204);
}

#[test]
fn draw_wraps_on_the_display() {
    // V0 = 62; V1 = 31; I = 0x208; draw 2 rows at (V0, V1); sprite C0 C0
    let mut chip: Chip = boot(&[0x60, 0x3E, 0x61, 0x1F, 0xA2, 0x08, 0xD0, 0x12, 0xF0, 0xC0]);
    run(&mut chip, 4);
    assert_eq!(lit_pixels(&chip), 6);
    let display = chip.display();
    assert!(display.pixel(62, 31) && display.pixel(63, 31));
    assert!(display.pixel(0, 31) && display.pixel(1, 31));
    assert!(display.pixel(62, 0) && display.pixel(63, 0));
    assert!(!display.pixel(0, 0));
}

#[test]
fn draw_reads_the_sprite_across_the_end_of_memory() {
    let mut program: Vec<u8> = vec![0x00; PROGRAM_SPACE];
    program[0] = 0xAF;
    program[1] = 0xFF;
    program[2] = 0xD0;
    program[3] = 0x02;
    program[PROGRAM_SPACE - 1] = 0x81;
    let mut chip: Chip = boot(&program);
    run(&mut chip, 2);
    // Row 0 is the byte at 0xFFF, row 1 the first byte of the font, 0xF0.
    let display = chip.display();
    assert!(display.pixel(0, 0) && display.pixel(7, 0));
    assert!(display.pixel(0, 1) && display.pixel(3, 1) && !display.pixel(4, 1));
    assert_eq!(lit_pixels(&chip), 6);
}

#[test]
fn draw_reads_its_coordinates_before_it_writes_the_flag() {
    // VF = 3; V1 = 2; I = 0x20A, where 0x80 stands; draw 1 row at (VF, V1),
    // twice.
    let mut chip: Chip = boot(&[0x6F, 0x03, 0x61, 0x02, 0xA2, 0x0A, 0xDF, 0x11, 0xDF, 0x11, 0x80]);
    run(&mut chip, 4);
    assert!(chip.display().pixel(3, 2));
    assert_eq!(chip.registers()[0xF], 0);
    // The flag is now the x coordinate: the second drawing lands at 0.
    run(&mut chip, 1);
    assert!(chip.display().pixel(3, 2));
    assert!(chip.display().pixel(0, 2));
    assert_eq!(chip.registers()[0xF], 0);
}

#[test]
fn clear_screen_turns_the_display_off() {
    let mut chip: Chip = boot(&[0xD0, 0x05, 0x00, 0xE0]);
    run(&mut chip, 1);
    assert_eq!(lit_pixels(&chip), 14);
    run(&mut chip, 1);
    assert_eq!(lit_pixels(&chip), 0);
    assert_eq!(chip.program_counter(), 0x204);
}

#[test]
fn execute_opcode_runs_the_latched_instruction() {
    let mut chip: Chip = boot(&[0x6B, 0x42, 0x6C, 0x43]);
    assert_eq!(chip.fetch_opcode(), Ok(()));
    assert_eq!(chip.execute_opcode(0), Ok(()));
    assert_eq!(chip.registers()[0xB], 0x42);
    assert_eq!(chip.program_counter(), 0x202);
    // Without a new fetch the same instruction runs again.
    assert_eq!(chip.execute_opcode(0), Ok(()));
    assert_eq!(chip.registers()[0xC], 0);
    assert_eq!(chip.program_counter(), 0x204);
}

#[test]
fn execute_instruction_carries_out_a_decoded_instruction() {
    let mut chip: Chip = Chip::init();
    assert_eq!(
        chip.execute_instruction(Instruction::LoadByte { x: 4, byte: 0x99 }, 0),
        Ok(())
    );
    assert_eq!(chip.registers()[4], 0x99);
    assert_eq!(chip.program_counter(), 0x202);
    assert_eq!(
        chip.execute_instruction(Instruction::Random { x: 5, mask: 0xF0 }, 0x5A),
        Ok(())
    );
    assert_eq!(chip.registers()[5], 0x50);
    assert_eq!(chip.execute_instruction(Instruction::Jump { addr: 0x345 }, 0), Ok(()));
    assert_eq!(chip.program_counter(), 0x345);
}

#[test]
fn the_two_meaningless_instructions_fault_apart() {
    let mut chip: Chip = boot(&[0xA1, 0x23]);
    run(&mut chip, 1);
    assert_eq!(
        chip.execute_instruction(Instruction::UnknownFamily, 0),
        Err(Fault { kind: FaultKind::UnknownFamily, opcode: 0xA123, pc: 0x202 })
    );
    assert_eq!(
        chip.execute_instruction(Instruction::UnusedSubOpcode, 0),
        Err(Fault { kind: FaultKind::UnusedSubOpcode, opcode: 0xA123, pc: 0x202 })
    );
    assert_eq!(chip.program_counter(), 0x202);
    assert_eq!(chip.index_register(), 0x123);
}

#[test]
fn a_new_machine_executes_an_unused_word() {
    let mut chip: Chip = Chip::init();
    assert_eq!(
        chip.execute_opcode(0),
        Err(Fault { kind: FaultKind::UnusedSubOpcode, opcode: 0x0000, pc: 0x200 })
    );
}

#[test]
fn tick_timers_keeps_time_between_calls() {
    let mut chip: Chip = boot(&[0x60, 0x05, 0xF0, 0x15]);
    run(&mut chip, 2);
    chip.tick_timers(10_000);
    assert_eq!(chip.delay_timer(), 5);
    chip.tick_timers(6_667);
    assert_eq!(chip.delay_timer(), 4);
    chip.tick_timers(0);
    assert_eq!(chip.delay_timer(), 4);
}
