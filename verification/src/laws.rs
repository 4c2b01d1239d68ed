//! Laws of the machine.
//!
//! Each proof function here states something that holds of the model in
//! [`crate::machine`] for every state and every operand, and so, through
//! the contracts of [`crate::chip::Chip`], of the interpreter.
use crate::decode::{
    decoded, fields_of, lemma_decoded_in_range, lemma_fields_of_spelled_word, Fields, Instruction,
};
use crate::display::{
    blank, blit, collides, column_offset, lemma_blit_len, lemma_blit_pixelwise,
    lemma_collides_pixelwise, sprite_bit, sprite_lights,
};
use crate::fault::{Fault, FaultKind};
use crate::font::{glyph_address, CHIP8_FONTSET};
use crate::alu::{decimal_digits, lemma_decimal_digits};
use crate::machine::{
    bytes_from, lemma_lowest_pressed, lowest_pressed, stored, total_elapsed, wrapped, CycleInput,
    MachineState, Mode,
};
use crate::timer::{decayed, lemma_advance_adds, lemma_decay_adds, residue_after, ticks_due};
use vstd::prelude::*;

verus! {

/// A new machine is well formed.
pub proof fn lemma_initial_wf()
    ensures
        MachineState::initial().wf(),
{
}

/// Loading a program keeps a machine well formed.
pub proof fn lemma_load_keeps_wf(s: MachineState, program: Seq<u8>)
    requires
        s.wf(),
    ensures
        s.load(program) matches Ok(after) ==> after.wf(),
{
}

/// Moving the program counter keeps a machine well formed.
proof fn lemma_moved_keeps_wf(s: MachineState, target: int)
    requires
        s.wf(),
    ensures
        s.moved_to(target) matches Ok(after) ==> after.wf(),
{
}

/// The instructions that only write registers keep a machine well formed.
proof fn lemma_register_ops_keep_wf(s: MachineState, instruction: Instruction, random: u8)
    requires
        s.wf(),
        instruction.operands_in_range(),
        instruction is LoadByte || instruction is AddByte || instruction is Move
            || instruction is Or || instruction is And || instruction is Xor
            || instruction is Add || instruction is Sub || instruction is SubReversed
            || instruction is ShiftRight || instruction is ShiftLeft || instruction is Random
            || instruction is ReadDelay || instruction is LoadRegisters,
    ensures
        s.apply(instruction, random) matches Ok(after) ==> after.wf(),
{
    if let Ok(after) = s.apply(instruction, random) {
        assert(after.stack == s.stack);
        assert(after.registers.len() == 16);
    }
}

/// The instructions that write memory, the display, the index register, a
/// timer or the mode keep a machine well formed.
proof fn lemma_state_ops_keep_wf(s: MachineState, instruction: Instruction, random: u8)
    requires
        s.wf(),
        instruction.operands_in_range(),
        instruction is ClearScreen || instruction is LoadIndex || instruction is WaitKey
            || instruction is SetDelay || instruction is SetSound || instruction is AddIndex
            || instruction is Glyph || instruction is StoreBcd || instruction is StoreRegisters
            || instruction is Draw,
    ensures
        s.apply(instruction, random) matches Ok(after) ==> after.wf(),
{
    if let Instruction::Draw { x, y, rows } = instruction {
        lemma_blit_len(s.pixels, s.reg(x) as int, s.reg(y) as int, s.sprite(rows));
    }
    if let Ok(after) = s.apply(instruction, random) {
        assert(after.stack == s.stack);
    }
}

/// No instruction leads out of the well-formed states: the stack never
/// holds more than sixteen addresses, and the program counter and the saved
/// addresses never leave memory.
pub proof fn lemma_apply_keeps_wf(s: MachineState, instruction: Instruction, random: u8)
    requires
        s.wf(),
        instruction.operands_in_range(),
    ensures
        s.apply(instruction, random) matches Ok(after) ==> after.wf(),
{
    match instruction {
        Instruction::UnusedSubOpcode | Instruction::UnknownFamily => {},
        Instruction::Call { addr } => {
            if let Ok(after) = s.apply(instruction, random) {
                assert forall|i: int| 0 <= i < after.stack.len() implies after.stack[i]
                    <= 0xFFF by {
                    if i < s.stack.len() {
                        assert(after.stack[i] == s.stack[i]);
                    }
                }
            }
        },
        Instruction::Return => {
            if let Ok(after) = s.apply(instruction, random) {
                assert(after.pc == s.stack[s.stack.len() - 1]);
                assert forall|i: int| 0 <= i < after.stack.len() implies after.stack[i]
                    <= 0xFFF by {
                    assert(after.stack[i] == s.stack[i]);
                }
            }
        },
        Instruction::Jump { addr } => {
            lemma_moved_keeps_wf(s, addr as int);
        },
        Instruction::JumpOffset { addr } => {
            lemma_moved_keeps_wf(s, addr + s.reg(0));
        },
        Instruction::SkipIfEqualByte { .. }
        | Instruction::SkipIfNotEqualByte { .. }
        | Instruction::SkipIfEqual { .. }
        | Instruction::SkipIfNotEqual { .. }
        | Instruction::SkipIfKey { .. }
        | Instruction::SkipIfNotKey { .. } => {
            lemma_moved_keeps_wf(s, s.pc + 2);
            lemma_moved_keeps_wf(s, s.pc + 4);
        },
        Instruction::ClearScreen
        | Instruction::LoadIndex { .. }
        | Instruction::WaitKey { .. }
        | Instruction::SetDelay { .. }
        | Instruction::SetSound { .. }
        | Instruction::AddIndex { .. }
        | Instruction::Glyph { .. }
        | Instruction::StoreBcd { .. }
        | Instruction::StoreRegisters { .. }
        | Instruction::Draw { .. } => {
            lemma_state_ops_keep_wf(s, instruction, random);
        },
        _ => {
            lemma_register_ops_keep_wf(s, instruction, random);
        },
    }
}

/// Time keeps a machine well formed.
pub proof fn lemma_tick_keeps_wf(s: MachineState, elapsed_micros: int)
    requires
        s.wf(),
        0 <= elapsed_micros,
    ensures
        s.tick(elapsed_micros).wf(),
{
}

/// A cycle keeps a machine well formed, whether it ends well or in a fault.
pub proof fn lemma_cycle_keeps_wf(s: MachineState, random: u8, elapsed_micros: int)
    requires
        s.wf(),
        0 <= elapsed_micros,
    ensures
        s.cycle(random, elapsed_micros) matches Ok(after) ==> after.wf(),
        s.halted().wf(),
{
    match s.mode {
        Mode::AwaitingKey { .. } => {
            lemma_lowest_pressed(s.keys);
            let waiting = Instruction::WaitKey { x: s.mode->register };
            lemma_apply_keeps_wf(s, waiting, random);
            if let Ok(after) = s.apply(waiting, random) {
                lemma_tick_keeps_wf(after, elapsed_micros);
            }
        },
        Mode::Running => {
            if let Ok(latched) = s.fetch() {
                lemma_decoded_in_range(latched.op_code);
                lemma_apply_keeps_wf(latched, decoded(latched.op_code), random);
                if let Ok(after) = latched.execute(random) {
                    lemma_tick_keeps_wf(after, elapsed_micros);
                }
            }
        },
    }
}

/// What an instruction leaves alone. Memory is written only by the two
/// store instructions, the display only by clearing and drawing, a timer
/// only by the instruction that sets it, and the index register, the mode
/// and the stack only by the instructions made for them. No instruction
/// writes the key table, the latched instruction word or the time kept
/// between ticks.
pub proof fn lemma_apply_frame(s: MachineState, instruction: Instruction, random: u8)
    ensures
        s.apply(instruction, random) matches Ok(after) ==> {
            &&& after.keys == s.keys
            &&& after.op_code == s.op_code
            &&& after.tick_residue == s.tick_residue
            &&& (!(instruction is StoreBcd || instruction is StoreRegisters) ==> after.memory
                == s.memory)
            &&& (!(instruction is ClearScreen || instruction is Draw) ==> after.pixels == s.pixels)
            &&& (!(instruction is SetDelay) ==> after.delay == s.delay)
            &&& (!(instruction is SetSound) ==> after.sound == s.sound)
            &&& (!(instruction is LoadIndex || instruction is AddIndex || instruction is Glyph)
                ==> after.index == s.index)
            &&& (!(instruction is Call || instruction is Return) ==> after.stack == s.stack)
            &&& (!(instruction is WaitKey) ==> after.mode == s.mode)
        },
{
    // One case for each shape of effect.
    match instruction {
        Instruction::Return | Instruction::Call { .. } => {},
        Instruction::Jump { .. } | Instruction::JumpOffset { .. } => {},
        Instruction::SkipIfEqualByte { .. }
        | Instruction::SkipIfNotEqualByte { .. }
        | Instruction::SkipIfEqual { .. }
        | Instruction::SkipIfNotEqual { .. }
        | Instruction::SkipIfKey { .. }
        | Instruction::SkipIfNotKey { .. } => {},
        Instruction::LoadByte { .. }
        | Instruction::AddByte { .. }
        | Instruction::Move { .. }
        | Instruction::Random { .. }
        | Instruction::ReadDelay { .. } => {},
        Instruction::Or { .. } | Instruction::And { .. } | Instruction::Xor { .. } => {},
        Instruction::Add { .. }
        | Instruction::Sub { .. }
        | Instruction::SubReversed { .. }
        | Instruction::ShiftRight { .. }
        | Instruction::ShiftLeft { .. } => {},
        Instruction::ClearScreen | Instruction::Draw { .. } => {},
        Instruction::LoadIndex { .. }
        | Instruction::AddIndex { .. }
        | Instruction::Glyph { .. } => {},
        Instruction::WaitKey { .. }
        | Instruction::SetDelay { .. }
        | Instruction::SetSound { .. } => {},
        Instruction::StoreBcd { .. }
        | Instruction::StoreRegisters { .. }
        | Instruction::LoadRegisters { .. } => {},
        Instruction::UnusedSubOpcode | Instruction::UnknownFamily => {},
    }
}

/// Setting a register to a byte and reading it gives the byte back: the
/// instruction word `6xnn` puts `nn` in `Vx`, moves on to the next
/// instruction and changes nothing else.
pub proof fn lemma_load_byte_reads_back(s: MachineState, x: u8, byte: u8, random: u8)
    requires
        s.wf(),
        x <= 0xF,
        s.op_code == 0x6000 + x * 0x100 + byte,
        s.pc + 2 <= 0xFFF,
    ensures
        decoded(s.op_code) == (Instruction::LoadByte { x, byte }),
        s.execute(random) matches Ok(after) && after.reg(x) == byte && after == (MachineState {
            registers: s.registers.update(x as int, byte),
            pc: (s.pc + 2) as u16,
            ..s
        }),
{
    let fields = Fields {
        family: 0x6,
        x,
        y: byte / 0x10,
        n: byte % 0x10,
        nn: byte,
        nnn: (x * 0x100 + byte) as u16,
    };
    lemma_fields_of_spelled_word(fields);
    assert(fields_of(s.op_code) == fields);
}

/// A call followed by a return comes back to the instruction right after
/// the call, with the stack as it was before and nothing else changed.
pub proof fn lemma_call_then_return(s: MachineState, addr: u16, random: u8)
    requires
        s.wf(),
        addr <= 0xFFF,
        s.stack.len() < 16,
        s.pc + 2 <= 0xFFF,
    ensures
        s.apply(Instruction::Call { addr }, random) matches Ok(called) && called.pc == addr
            && called.stack.len() == s.stack.len() + 1 && called.apply(
            Instruction::Return,
            random,
        ) == Ok::<MachineState, FaultKind>(MachineState { pc: (s.pc + 2) as u16, ..s }),
{
    let called = s.apply(Instruction::Call { addr }, random)->Ok_0;
    assert(called.stack.drop_last() =~= s.stack);
}

/// A call overflows exactly when sixteen addresses are already saved;
/// otherwise it saves one more.
pub proof fn lemma_call_overflows_when_full(s: MachineState, addr: u16, random: u8)
    requires
        s.wf(),
        addr <= 0xFFF,
        s.pc + 2 <= 0xFFF,
    ensures
        s.apply(Instruction::Call { addr }, random) == Err::<MachineState, FaultKind>(
            FaultKind::StackOverflow,
        ) <==> s.stack.len() == 16,
        s.stack.len() < 16 ==> (s.apply(Instruction::Call { addr }, random) matches Ok(after)
            && after.stack.len() == s.stack.len() + 1),
{
}

/// A return underflows exactly when no address is saved.
pub proof fn lemma_return_underflows_when_empty(s: MachineState, random: u8)
    requires
        s.wf(),
    ensures
        s.apply(Instruction::Return, random) == Err::<MachineState, FaultKind>(
            FaultKind::StackUnderflow,
        ) <==> s.stack.len() == 0,
{
}

/// Whether a skip instruction finds its condition met in state `s`.
pub open spec fn skip_taken(s: MachineState, instruction: Instruction) -> bool {
    match instruction {
        Instruction::SkipIfEqualByte { x, byte } => s.reg(x) == byte,
        Instruction::SkipIfNotEqualByte { x, byte } => s.reg(x) != byte,
        Instruction::SkipIfEqual { x, y } => s.reg(x) == s.reg(y),
        Instruction::SkipIfNotEqual { x, y } => s.reg(x) != s.reg(y),
        Instruction::SkipIfKey { x } => s.key_down(s.reg(x)),
        Instruction::SkipIfNotKey { x } => !s.key_down(s.reg(x)),
        _ => false,
    }
}

/// A skip instruction moves the program counter by exactly 4 if its
/// condition is met and by exactly 2 if not, and changes nothing else.
pub proof fn lemma_skip_advances(s: MachineState, instruction: Instruction, random: u8)
    requires
        s.wf(),
        instruction is SkipIfEqualByte || instruction is SkipIfNotEqualByte
            || instruction is SkipIfEqual || instruction is SkipIfNotEqual
            || instruction is SkipIfKey || instruction is SkipIfNotKey,
        s.pc + 4 <= 0xFFF,
    ensures
        s.apply(instruction, random) == Ok::<MachineState, FaultKind>(
            MachineState {
                pc: (s.pc + if skip_taken(s, instruction) {
                    4int
                } else {
                    2int
                }) as u16,
                ..s
            },
        ),
{
}

/// Letting two spans of time pass one after the other is letting their sum
/// pass: how the time between two cycles is cut up does not matter to the
/// timers.
pub proof fn lemma_tick_adds(s: MachineState, first: int, second: int)
    requires
        0 <= first,
        0 <= second,
    ensures
        s.tick(first).tick(second) == s.tick(first + second),
{
    let residue = s.tick_residue as int;
    lemma_advance_adds(residue, first, second);
    let early = ticks_due(residue, first);
    let late = ticks_due(residue_after(residue, first), second);
    lemma_decay_adds(s.delay, early, late);
    lemma_decay_adds(s.sound, early, late);
}

/// In a whole number of seconds the timers count down by sixty for each
/// second, whatever time was kept over from before, and that time is still
/// kept afterwards.
pub proof fn lemma_seconds_are_sixty_ticks(s: MachineState, seconds: int)
    requires
        s.wf(),
        0 <= seconds,
    ensures
        s.tick(seconds * 1_000_000) == (MachineState {
            delay: decayed(s.delay, 60 * seconds),
            sound: decayed(s.sound, 60 * seconds),
            ..s
        }),
{
    let residue = s.tick_residue as int;
    vstd::arithmetic::div_mod::lemma_fundamental_div_mod_converse(
        residue + (seconds * 1_000_000) * 60,
        1_000_000,
        60 * seconds,
        residue,
    );
}

/// The wait for a key with no key held down suspends the machine and
/// changes nothing else: the program counter stays at the instruction and
/// the registers are as they were.
pub proof fn lemma_wait_without_key(s: MachineState, x: u8, random: u8)
    requires
        s.wf(),
        lowest_pressed(s.keys) is None,
    ensures
        s.apply(Instruction::WaitKey { x }, random) == Ok::<MachineState, FaultKind>(
            MachineState { mode: Mode::AwaitingKey { register: x }, ..s },
        ),
{
}

/// The wait for a key with a key held down stores the lowest such key in
/// `Vx`, moves the program counter on by 2 and leaves the machine running,
/// all in the same cycle. The key stored is one of the sixteen and is held
/// down.
pub proof fn lemma_wait_with_key(s: MachineState, x: u8, random: u8)
    requires
        s.wf(),
        x <= 0xF,
        lowest_pressed(s.keys) is Some,
        s.pc + 2 <= 0xFFF,
    ensures
        s.apply(Instruction::WaitKey { x }, random) matches Ok(after) && after == (MachineState {
            registers: s.registers.update(x as int, lowest_pressed(s.keys)->Some_0),
            pc: (s.pc + 2) as u16,
            mode: Mode::Running,
            ..s
        }) && after.reg(x) <= 0xF && s.keys[after.reg(x) as int],
{
    lemma_lowest_pressed(s.keys);
}

/// A running machine with the wait for a key at its program counter and no
/// key held down ends its cycle suspended, with the program counter and
/// the registers as they were; the timers count. With a key held down it
/// ends the cycle running, the key in `Vx` and the program counter moved
/// on by 2.
pub proof fn lemma_wait_cycle(s: MachineState, x: u8, random: u8, elapsed_micros: int)
    requires
        s.wf(),
        s.mode is Running,
        x <= 0xF,
        s.fetch() matches Ok(latched) && decoded(latched.op_code) == (Instruction::WaitKey { x }),
        s.pc + 2 <= 0xFFF,
    ensures
        s.cycle(random, elapsed_micros) matches Ok(after) && after.delay == s.tick(
            elapsed_micros,
        ).delay && after.sound == s.tick(elapsed_micros).sound && match lowest_pressed(s.keys) {
            None => after.pc == s.pc && after.registers == s.registers && after.mode == (
            Mode::AwaitingKey { register: x }),
            Some(key) => after.pc == s.pc + 2 && after.registers == s.registers.update(
                x as int,
                key,
            ) && after.mode == Mode::Running && key <= 0xF && s.keys[key as int],
        },
{
    lemma_lowest_pressed(s.keys);
}

/// A suspended machine does nothing but count time until a key is held
/// down. The cycle that finds one stores the lowest in the waiting register,
/// moves the program counter on past the instruction that waited and sets
/// the machine running; the timers count in that cycle too.
pub proof fn lemma_suspended_cycle(s: MachineState, random: u8, elapsed_micros: int)
    requires
        s.wf(),
        s.mode is AwaitingKey,
        s.pc + 2 <= 0xFFF,
    ensures
        lowest_pressed(s.keys) is None ==> s.cycle(random, elapsed_micros) == Ok::<
            MachineState,
            Fault,
        >(s.tick(elapsed_micros)),
        lowest_pressed(s.keys) matches Some(key) ==> s.cycle(random, elapsed_micros) == Ok::<
            MachineState,
            Fault,
        >(
            MachineState {
                registers: s.registers.update(s.mode->register as int, key),
                pc: (s.pc + 2) as u16,
                mode: Mode::Running,
                ..s
            }.tick(elapsed_micros),
        ),
{
}

/// A fault is final. The cycle that faults leaves the machine where every
/// later cycle faults in the same way, as long as the keys stay as they
/// are, whatever random byte it is given and however much time passes.
pub proof fn lemma_fault_is_final(
    s: MachineState,
    random: u8,
    elapsed_micros: int,
    later_random: u8,
    later_elapsed_micros: int,
)
    ensures
        s.cycle(random, elapsed_micros) matches Err(fault) ==> s.halted().cycle(
            later_random,
            later_elapsed_micros,
        ) == Err::<MachineState, Fault>(fault) && s.halted().halted() == s.halted(),
{
    if s.cycle(random, elapsed_micros) is Err {
        match s.mode {
            Mode::AwaitingKey { register } => {
                let waiting = Instruction::WaitKey { x: register };
                assert(s.apply(waiting, later_random) == s.apply(waiting, random));
            },
            Mode::Running => {
                if let Ok(latched) = s.fetch() {
                    assert(latched.fetch() == Ok::<MachineState, Fault>(latched));
                    assert(latched.apply(decoded(latched.op_code), random) is Err);
                    assert(latched.apply(decoded(latched.op_code), later_random) == latched.apply(
                        decoded(latched.op_code),
                        random,
                    ));
                }
            },
        }
    }
}

/// What a cycle does to the timers. The time kept between ticks goes by
/// the time that passes alone; so does the delay timer unless the cycle
/// sets it, and so does the sound timer unless the cycle sets it.
pub proof fn lemma_cycle_only_ticks_timers(s: MachineState, random: u8, elapsed_micros: int)
    ensures
        s.cycle(random, elapsed_micros) matches Ok(after) ==> {
            &&& after.tick_residue == s.tick(elapsed_micros).tick_residue
            &&& (!s.sets_delay_next() ==> after.delay == s.tick(elapsed_micros).delay)
            &&& (!s.sets_sound_next() ==> after.sound == s.tick(elapsed_micros).sound)
        },
{
    match s.mode {
        Mode::AwaitingKey { register } => {
            lemma_apply_frame(s, Instruction::WaitKey { x: register }, random);
        },
        Mode::Running => {
            if let Ok(latched) = s.fetch() {
                lemma_apply_frame(latched, decoded(latched.op_code), random);
            }
        },
    }
}

/// The time kept between ticks goes by time alone: after any run of cycles
/// it stands where the time that passed in the run puts it.
pub proof fn lemma_time_kept_follows_time(s: MachineState, inputs: Seq<CycleInput>)
    requires
        s.wf(),
        forall|i: int| 0 <= i < inputs.len() ==> inputs[i].elapsed_micros >= 0,
    ensures
        0 <= total_elapsed(inputs),
        s.run(inputs) matches Ok(after) ==> after.tick_residue == s.tick(
            total_elapsed(inputs),
        ).tick_residue,
    decreases inputs.len(),
{
    if inputs.len() == 0 {
        lemma_seconds_are_sixty_ticks(s, 0);
    } else {
        let front = inputs.drop_last();
        let last = inputs.last();
        lemma_time_kept_follows_time(s, front);
        if let Ok(before) = s.run(front) {
            lemma_cycle_only_ticks_timers(before, last.random, last.elapsed_micros);
            lemma_tick_adds(s, total_elapsed(front), last.elapsed_micros);
        }
    }
}

/// The delay timer goes by time alone. After any run of cycles in which no
/// instruction sets the delay timer, it stands where the time that passed
/// in the run puts it, however many cycles the run was cut into and
/// whatever they executed, the instruction that sets the sound timer
/// included.
pub proof fn lemma_delay_follows_time_alone(s: MachineState, inputs: Seq<CycleInput>)
    requires
        s.wf(),
        forall|i: int| 0 <= i < inputs.len() ==> inputs[i].elapsed_micros >= 0,
        s.sets_no_delay(inputs),
    ensures
        s.run(inputs) matches Ok(after) ==> after.delay == s.tick(total_elapsed(inputs)).delay,
    decreases inputs.len(),
{
    if inputs.len() == 0 {
        lemma_seconds_are_sixty_ticks(s, 0);
    } else {
        let front = inputs.drop_last();
        let last = inputs.last();
        lemma_delay_follows_time_alone(s, front);
        lemma_time_kept_follows_time(s, front);
        if let Ok(before) = s.run(front) {
            lemma_cycle_only_ticks_timers(before, last.random, last.elapsed_micros);
            lemma_tick_adds(s, total_elapsed(front), last.elapsed_micros);
        }
    }
}

/// The sound timer goes by time alone. After any run of cycles in which no
/// instruction sets the sound timer, it stands where the time that passed
/// in the run puts it, however many cycles the run was cut into and
/// whatever they executed, the instruction that sets the delay timer
/// included.
pub proof fn lemma_sound_follows_time_alone(s: MachineState, inputs: Seq<CycleInput>)
    requires
        s.wf(),
        forall|i: int| 0 <= i < inputs.len() ==> inputs[i].elapsed_micros >= 0,
        s.sets_no_sound(inputs),
    ensures
        s.run(inputs) matches Ok(after) ==> after.sound == s.tick(total_elapsed(inputs)).sound,
    decreases inputs.len(),
{
    if inputs.len() == 0 {
        lemma_seconds_are_sixty_ticks(s, 0);
    } else {
        let front = inputs.drop_last();
        let last = inputs.last();
        lemma_sound_follows_time_alone(s, front);
        lemma_time_kept_follows_time(s, front);
        if let Ok(before) = s.run(front) {
            lemma_cycle_only_ticks_timers(before, last.random, last.elapsed_micros);
            lemma_tick_adds(s, total_elapsed(front), last.elapsed_micros);
        }
    }
}

/// What is written to memory reads back from the same address, also where
/// the bytes run past the end of memory and go on at its start.
pub proof fn lemma_stored_reads_back(memory: Seq<u8>, base: int, bytes: Seq<u8>)
    requires
        memory.len() == 4096,
        bytes.len() <= 4096,
    ensures
        stored(memory, base, bytes).len() == 4096,
        bytes_from(stored(memory, base, bytes), base, bytes.len() as int) == bytes,
{
    let after = stored(memory, base, bytes);
    let back = bytes_from(after, base, bytes.len() as int);
    assert forall|k: int| 0 <= k < bytes.len() implies back[k] == bytes[k] by {
        lemma_wrapped_offset(base, k);
    }
    assert(back =~= bytes);
}

/// The address `k` bytes after `base`, wrapped, lies `k` bytes after
/// `base`: wrapping an address and measuring the way back undo each other.
proof fn lemma_wrapped_offset(base: int, k: int)
    requires
        0 <= k < 4096,
    ensures
        0 <= wrapped(base + k) < 4096,
        wrapped(wrapped(base + k) - base) == k,
{
    let at = wrapped(base + k);
    let q = (base + k) / 4096;
    assert(at - base == (-q) * 4096 + k);
    vstd::arithmetic::div_mod::lemma_fundamental_div_mod_converse(at - base, 4096, -q, k);
}

/// Storing the registers `V0` to `Vx` leaves them in memory at `I`.
pub proof fn lemma_registers_stored(s: MachineState, x: u8, random: u8)
    requires
        s.wf(),
        x <= 0xF,
        s.pc + 2 <= 0xFFF,
    ensures
        s.apply(Instruction::StoreRegisters { x }, random) matches Ok(kept) && kept == (
        MachineState {
            memory: stored(s.memory, s.index as int, s.registers.take(x + 1)),
            pc: (s.pc + 2) as u16,
            ..s
        }) && bytes_from(kept.memory, s.index as int, x + 1) == s.registers.take(x + 1),
{
    lemma_stored_reads_back(s.memory, s.index as int, s.registers.take(x + 1));
}

/// Storing the registers `V0` to `Vx` and loading them again from the same
/// place gives the registers back.
pub proof fn lemma_store_then_load(s: MachineState, x: u8, random: u8)
    requires
        s.wf(),
        x <= 0xF,
        s.pc + 4 <= 0xFFF,
    ensures
        s.apply(Instruction::StoreRegisters { x }, random) matches Ok(kept) && kept.apply(
            Instruction::LoadRegisters { x },
            random,
        ) == Ok::<MachineState, FaultKind>(MachineState { pc: (s.pc + 4) as u16, ..kept }),
{
    lemma_registers_stored(s, x, random);
    let kept = s.apply(Instruction::StoreRegisters { x }, random)->Ok_0;
    let read = bytes_from(kept.memory, kept.index as int, x + 1);
    let loaded = Seq::new(
        16,
        |k: int|
            if k <= x {
                kept.memory[wrapped(kept.index + k)]
            } else {
                kept.registers[k]
            },
    );
    assert forall|k: int| 0 <= k < 16 implies loaded[k] == kept.registers[k] by {
        if k <= x {
            assert(read[k] == kept.memory[wrapped(kept.index + k)]);
            assert(read[k] == s.registers.take(x + 1)[k]);
        }
    }
    assert(loaded =~= kept.registers);
}

/// The decimal instruction leaves the hundreds, the tens and the ones of
/// `Vx` in the three bytes at `I`, and they spell `Vx`.
pub proof fn lemma_decimal_digits_stored(s: MachineState, x: u8, random: u8)
    requires
        s.wf(),
        x <= 0xF,
        s.pc + 2 <= 0xFFF,
    ensures
        s.apply(Instruction::StoreBcd { x }, random) matches Ok(after) && ({
            let digits = bytes_from(after.memory, s.index as int, 3);
            &&& digits[0] == decimal_digits(s.reg(x)).0
            &&& digits[1] == decimal_digits(s.reg(x)).1
            &&& digits[2] == decimal_digits(s.reg(x)).2
            &&& 100 * digits[0] + 10 * digits[1] + digits[2] == s.reg(x)
        }),
{
    let (hundreds, tens, ones) = decimal_digits(s.reg(x));
    let written = seq![hundreds, tens, ones];
    let after = MachineState {
        memory: stored(s.memory, s.index as int, written),
        pc: (s.pc + 2) as u16,
        ..s
    };
    assert(s.apply(Instruction::StoreBcd { x }, random) == Ok::<MachineState, FaultKind>(after));
    lemma_stored_reads_back(s.memory, s.index as int, written);
    let digits = bytes_from(after.memory, s.index as int, 3);
    assert(digits == written);
    assert(written[0] == hundreds && written[1] == tens && written[2] == ones);
    lemma_decimal_digits(s.reg(x));
}

/// Whether the font table stands where a new machine has it.
pub open spec fn font_in_place(memory: Seq<u8>) -> bool {
    forall|a: int| 0 <= a < 80 ==> memory[a] == CHIP8_FONTSET@[a]
}

/// A new machine has the font in place, and loading a program into it
/// leaves it there.
pub proof fn lemma_font_in_place_after_load(program: Seq<u8>)
    ensures
        font_in_place(MachineState::initial().memory),
        MachineState::initial().load(program) matches Ok(after) ==> font_in_place(after.memory),
{
}

/// With the font in place, the glyph instruction for a hexadecimal digit
/// leaves the index register pointing at the five rows of that digit's
/// glyph.
pub proof fn lemma_glyph_points_at_digit(s: MachineState, x: u8, random: u8)
    requires
        s.wf(),
        x <= 0xF,
        s.reg(x) <= 0xF,
        s.pc + 2 <= 0xFFF,
        font_in_place(s.memory),
    ensures
        s.apply(Instruction::Glyph { x }, random) matches Ok(after) && after.index
            == glyph_address(s.reg(x)) && after.sprite(5) == CHIP8_FONTSET@.subrange(
            5 * s.reg(x),
            5 * s.reg(x) + 5,
        ),
{
    let digit = s.reg(x) as int;
    let after = s.apply(Instruction::Glyph { x }, random)->Ok_0;
    assert(glyph_address(s.reg(x)) == 5 * digit);
    assert(after.index == 5 * digit && after.memory == s.memory);
    lemma_rows_of_glyph(after.memory, digit);
}

/// With the font in place, the five bytes at five times a digit are the
/// rows of the digit's glyph.
proof fn lemma_rows_of_glyph(memory: Seq<u8>, digit: int)
    requires
        0 <= digit <= 0xF,
        font_in_place(memory),
    ensures
        bytes_from(memory, 5 * digit, 5) == CHIP8_FONTSET@.subrange(5 * digit, 5 * digit + 5),
{
    let rows = bytes_from(memory, 5 * digit, 5);
    let glyph = CHIP8_FONTSET@.subrange(5 * digit, 5 * digit + 5);
    assert(rows.len() == glyph.len());
    assert forall|k: int| 0 <= k < 5 implies rows[k] == glyph[k] by {
        assert(rows[k] == memory[5 * digit + k]);
    }
    assert(rows =~= glyph);
}

/// A byte that is not zero has one of its eight bits set.
proof fn lemma_nonzero_row_has_bit(row: u8) -> (col: int)
    requires
        row != 0,
    ensures
        sprite_bit(row, col),
{
    assert(row & (0x80u8 >> 0u8) != 0 || row & (0x80u8 >> 1u8) != 0 || row & (0x80u8 >> 2u8) != 0
        || row & (0x80u8 >> 3u8) != 0 || row & (0x80u8 >> 4u8) != 0 || row & (0x80u8 >> 5u8) != 0
        || row & (0x80u8 >> 6u8) != 0 || row & (0x80u8 >> 7u8) != 0) by (bit_vector)
        requires
            row != 0,
    ;
    if row & (0x80u8 >> 0u8) != 0 {
        0
    } else if row & (0x80u8 >> 1u8) != 0 {
        1
    } else if row & (0x80u8 >> 2u8) != 0 {
        2
    } else if row & (0x80u8 >> 3u8) != 0 {
        3
    } else if row & (0x80u8 >> 4u8) != 0 {
        4
    } else if row & (0x80u8 >> 5u8) != 0 {
        5
    } else if row & (0x80u8 >> 6u8) != 0 {
        6
    } else {
        7
    }
}

/// A sprite of at most 32 rows with a byte that is not zero lights a pixel
/// wherever it is drawn.
pub proof fn lemma_sprite_with_bits_lights_a_pixel(x: int, y: int, sprite: Seq<u8>) -> (i: int)
    requires
        sprite.len() <= 32,
        exists|k: int| 0 <= k < sprite.len() && sprite[k] != 0,
    ensures
        0 <= i < 2048,
        sprite_lights(x, y, sprite, i),
{
    let k = choose|k: int| 0 <= k < sprite.len() && sprite[k] != 0;
    let col = lemma_nonzero_row_has_bit(sprite[k]);
    let line = (y + k) % 32;
    let column = (x + col) % 64;
    let i = line * 64 + column;
    assert(i / 64 == line && i % 64 == column);
    assert((line - y) % 32 == k) by {
        let q = (y + k) / 32;
        assert(line - y == (-q) * 32 + k);
        vstd::arithmetic::div_mod::lemma_fundamental_div_mod_converse(line - y, 32, -q, k);
    }
    assert(column_offset(x, i) == col) by {
        let q = (x + col) / 64;
        assert(column - x == (-q) * 64 + col);
        vstd::arithmetic::div_mod::lemma_fundamental_div_mod_converse(column - x, 64, -q, col);
    }
    i
}

/// Drawing a sprite twice at the same place gives back the buffer as it
/// was: the second drawing undoes the first.
pub proof fn lemma_draw_twice_restores(pixels: Seq<bool>, x: int, y: int, sprite: Seq<u8>)
    requires
        pixels.len() == 2048,
        sprite.len() <= 32,
    ensures
        blit(blit(pixels, x, y, sprite), x, y, sprite) == pixels,
{
    let once = blit(pixels, x, y, sprite);
    lemma_blit_len(pixels, x, y, sprite);
    lemma_blit_pixelwise(pixels, x, y, sprite);
    lemma_blit_pixelwise(once, x, y, sprite);
    assert(blit(once, x, y, sprite) =~= pixels);
}

/// Drawing on a blank buffer collides with nothing, and leaves exactly the
/// pixels of the sprite on. Drawing the same sprite there again collides,
/// if the sprite has a byte that is not zero, and leaves the buffer blank.
pub proof fn lemma_draw_on_blank(x: int, y: int, sprite: Seq<u8>)
    requires
        sprite.len() <= 32,
    ensures
        !collides(blank(), x, y, sprite),
        blit(blank(), x, y, sprite) == Seq::new(2048, |i: int| sprite_lights(x, y, sprite, i)),
        blit(blit(blank(), x, y, sprite), x, y, sprite) == blank(),
        collides(blit(blank(), x, y, sprite), x, y, sprite) <==> exists|k: int|
            0 <= k < sprite.len() && sprite[k] != 0,
{
    let once = blit(blank(), x, y, sprite);
    lemma_blit_len(blank(), x, y, sprite);
    lemma_blit_pixelwise(blank(), x, y, sprite);
    lemma_collides_pixelwise(blank(), x, y, sprite);
    lemma_collides_pixelwise(once, x, y, sprite);
    lemma_draw_twice_restores(blank(), x, y, sprite);
    assert(once =~= Seq::new(2048, |i: int| sprite_lights(x, y, sprite, i)));
    if exists|k: int| 0 <= k < sprite.len() && sprite[k] != 0 {
        let i = lemma_sprite_with_bits_lights_a_pixel(x, y, sprite);
        assert(once[i] && sprite_lights(x, y, sprite, i));
    }
    if collides(once, x, y, sprite) {
        let i = choose|i: int|
            0 <= i < 2048 && once[i] && #[trigger] sprite_lights(x, y, sprite, i);
        let k = (i / 64 - y) % 32;
        assert(sprite_bit(sprite[k], column_offset(x, i)));
        assert(sprite[k] != 0) by {
            let row = sprite[k];
            let col = column_offset(x, i) as u8;
            assert(row & (0x80u8 >> col) != 0 ==> row != 0) by (bit_vector);
        }
    }
}

/// The draw instruction run twice in a row, with coordinates taken from
/// registers other than the flag register, leaves the display as it was.
/// If the display was blank, the first run clears the flag, and the second
/// sets it if the sprite has a byte that is not zero.
pub proof fn lemma_draw_instruction_twice(s: MachineState, x: u8, y: u8, rows: u8, random: u8)
    requires
        s.wf(),
        x < 0xF,
        y < 0xF,
        rows <= 0xF,
        s.pc + 4 <= 0xFFF,
    ensures
        s.apply(Instruction::Draw { x, y, rows }, random) matches Ok(once) && once.apply(
            Instruction::Draw { x, y, rows },
            random,
        ) matches Ok(twice) && twice.pixels == s.pixels && (s.pixels == blank() ==> once.reg(0xF)
            == 0 && (twice.reg(0xF) == 1 <==> exists|k: int|
            0 <= k < rows && s.sprite(rows)[k] != 0)),
{
    let draw = Instruction::Draw { x, y, rows };
    let sprite = s.sprite(rows);
    let once = s.apply(draw, random)->Ok_0;
    assert(once.sprite(rows) =~= sprite);
    assert(once.reg(x) == s.reg(x) && once.reg(y) == s.reg(y));
    lemma_draw_twice_restores(s.pixels, s.reg(x) as int, s.reg(y) as int, sprite);
    if s.pixels == blank() {
        lemma_draw_on_blank(s.reg(x) as int, s.reg(y) as int, sprite);
    }
}

} // verus!
