//! The mathematical model of the machine.
//!
//! [`MachineState`] is a machine as plain mathematics: memory, registers and
//! display as sequences, the call stack as the sequence of the saved return
//! addresses. The functions on it say what fetching, executing and the
//! passing of time do to a machine. The executable interpreter is proved to
//! do the same.
//!
//! Choices that the instruction set leaves open are made here:
//!
//! * An instruction has all its effect or none. Whatever faults leaves the
//!   machine as it was.
//! * An instruction in the last two bytes of memory has no next instruction
//!   to move on to, to skip to or to return to. Unless it is a jump, a
//!   return or a wait that finds no key, it faults because the program
//!   counter would leave memory; a call there does so whatever its stack
//!   holds.
//! * An instruction reads its operands before it writes, and writes the
//!   flag last: where `VF` is also the destination, it ends up as the flag.
//! * The shifts `8xy6` and `8xyE` shift `Vx` in place and do not read `Vy`.
//! * `Fx1E` adds within the 12-bit address space, `I = (I + Vx) mod 4096`,
//!   and leaves `VF` alone.
//! * Memory is addressed modulo 4096: an access at `I + k` past the last
//!   byte goes on at address 0.
//! * `Fx55` and `Fx65` leave `I` as it was.
//! * Keys are numbered 0 to 15. A register that holds a larger number names
//!   no key, and no key is never pressed.
//! * `Fx0A` looks at the keys in the cycle that executes it. If a key is
//!   held down, the lowest such key goes to `Vx` and the program moves on in
//!   that same cycle. If none is, the machine is suspended with the program
//!   counter still at the instruction and the registers as they were. Each
//!   cycle of a suspended machine looks at the keys again in the same way
//!   and executes nothing else; the timers go on counting meanwhile. A key
//!   counts whenever it is held down, whether it went down before the
//!   machine suspended or after.
//! * `Fx0A` in the last two bytes of memory waits like any other. It faults
//!   in the cycle that finds a key held down, for that is the cycle in which
//!   the program counter would leave memory; the key is not stored and the
//!   machine is left as it was.
use crate::alu::{
    carry, decimal_digits, difference, doubled, halved, high_bit, low_bit, no_borrow, sum,
};
use crate::decode::{decoded, Instruction};
use crate::display::{blank, blit, collides};
use crate::fault::{Fault, FaultKind, LoadFault};
use crate::font::{glyph_address, CHIP8_FONTSET};
use crate::timer::{decayed, residue_after, ticks_due};
use vstd::prelude::*;

verus! {

/// The address at which programs are loaded and start.
pub const PROGRAM_START: u16 = 0x200;

/// The longest program that fits between the load address and the end of
/// memory.
pub const PROGRAM_SPACE: usize = 3584;

/// Whether the machine is running instructions or waiting for a key.
#[derive(Clone, Copy, Debug, PartialEq, Eq, Structural)]
pub enum Mode {
    /// Each cycle fetches and executes one instruction.
    Running,
    /// The machine is suspended at a wait for a key, with the program
    /// counter still at that instruction, until a key is held down; the key
    /// goes to the register with this index.
    AwaitingKey { register: u8 },
}

/// The whole state of a machine.
pub struct MachineState {
    /// The instruction word that was fetched last.
    pub op_code: u16,
    /// The 4096 bytes of memory.
    pub memory: Seq<u8>,
    /// The registers `V0` to `VF`.
    pub registers: Seq<u8>,
    /// The index register `I`.
    pub index: u16,
    /// The program counter.
    pub pc: u16,
    /// The saved return addresses, the most recent last.
    pub stack: Seq<u16>,
    /// The delay timer.
    pub delay: u8,
    /// The sound timer. A tone is due while it is not zero.
    pub sound: u8,
    /// Which of the sixteen keys are held down.
    pub keys: Seq<bool>,
    /// The 2048 pixels of the display, row by row.
    pub pixels: Seq<bool>,
    /// Running or waiting for a key.
    pub mode: Mode,
    /// Time that has passed since the last timer tick, in sixtieths of a
    /// microsecond.
    pub tick_residue: u32,
}

/// What a driver hands to one cycle: the byte that a random instruction
/// draws, and the microseconds that have passed.
pub struct CycleInput {
    pub random: u8,
    pub elapsed_micros: int,
}

/// The time that passes in a sequence of cycles.
pub open spec fn total_elapsed(inputs: Seq<CycleInput>) -> int
    decreases inputs.len(),
{
    if inputs.len() == 0 {
        0
    } else {
        total_elapsed(inputs.drop_last()) + inputs.last().elapsed_micros
    }
}

/// The address `addr` brought into memory: addresses wrap at 4096.
pub open spec fn wrapped(addr: int) -> int {
    addr % 4096
}

/// The `count` bytes of memory from `base` on, wrapping at the end of
/// memory.
pub open spec fn bytes_from(memory: Seq<u8>, base: int, count: int) -> Seq<u8> {
    Seq::new(count as nat, |k: int| memory[wrapped(base + k)])
}

/// Memory with `bytes` written from `base` on, wrapping at the end of
/// memory. For at most 4096 bytes.
pub open spec fn stored(memory: Seq<u8>, base: int, bytes: Seq<u8>) -> Seq<u8> {
    Seq::new(
        4096,
        |a: int|
            if wrapped(a - base) < bytes.len() {
                bytes[wrapped(a - base)]
            } else {
                memory[a]
            },
    )
}

/// The big-endian word in the two bytes of memory at `addr`.
pub open spec fn word_at(memory: Seq<u8>, addr: int) -> u16 {
    (memory[addr] * 256 + memory[addr + 1]) as u16
}

/// Whether `key` is the lowest-numbered key that is held down.
pub open spec fn is_lowest_pressed(keys: Seq<bool>, key: int) -> bool {
    &&& 0 <= key < keys.len()
    &&& keys[key]
    &&& forall|j: int| 0 <= j < key ==> !keys[j]
}

/// The lowest-numbered key that is held down, if any is.
pub open spec fn lowest_pressed(keys: Seq<bool>) -> Option<u8> {
    if exists|key: int| is_lowest_pressed(keys, key) {
        Some((choose|key: int| is_lowest_pressed(keys, key)) as u8)
    } else {
        None
    }
}

impl MachineState {
    /// Whether the state is one that a machine can be in: the sequences
    /// have their sizes, the stack holds at most sixteen addresses, and the
    /// program counter and every saved address lie within memory.
    pub open spec fn wf(self) -> bool {
        &&& self.memory.len() == 4096
        &&& self.registers.len() == 16
        &&& self.keys.len() == 16
        &&& self.pixels.len() == 2048
        &&& self.stack.len() <= 16
        &&& forall|i: int| 0 <= i < self.stack.len() ==> self.stack[i] <= 0xFFF
        &&& self.pc <= 0xFFF
        &&& self.tick_residue < 1_000_000
        &&& (self.mode matches Mode::AwaitingKey { register } ==> register <= 0xF)
    }

    /// The machine as it is when it is created: the font at the bottom of
    /// memory, everything else zero, empty or off, and the program counter
    /// at the load address.
    pub open spec fn initial() -> MachineState {
        MachineState {
            op_code: 0,
            memory: Seq::new(
                4096,
                |a: int|
                    if a < 80 {
                        CHIP8_FONTSET@[a]
                    } else {
                        0u8
                    },
            ),
            registers: Seq::new(16, |i: int| 0u8),
            index: 0,
            pc: 0x200,
            stack: Seq::empty(),
            delay: 0,
            sound: 0,
            keys: Seq::new(16, |i: int| false),
            pixels: blank(),
            mode: Mode::Running,
            tick_residue: 0,
        }
    }

    /// The value of register `x`.
    pub open spec fn reg(self, x: u8) -> u8 {
        self.registers[x as int]
    }

    /// The state with register `x` set to `value`.
    pub open spec fn with_reg(self, x: u8, value: u8) -> MachineState {
        MachineState { registers: self.registers.update(x as int, value), ..self }
    }

    /// The state with the flag register `VF` set to `value`.
    pub open spec fn with_flag(self, value: u8) -> MachineState {
        self.with_reg(0xF, value)
    }

    /// Whether the key numbered `key` is held down. Numbers above 15 name
    /// no key.
    pub open spec fn key_down(self, key: u8) -> bool {
        key <= 0xF && self.keys[key as int]
    }

    /// The fault of the given kind at this state.
    pub open spec fn fault(self, kind: FaultKind) -> Fault {
        Fault { kind, opcode: self.op_code, pc: self.pc }
    }

    /// The state with a program written to memory from the load address on
    /// and the program counter at its first instruction; a fault if the
    /// program does not fit.
    pub open spec fn load(self, program: Seq<u8>) -> Result<MachineState, LoadFault> {
        if program.len() > 3584 {
            Err(LoadFault::ProgramTooLarge)
        } else {
            Ok(
                MachineState {
                    memory: Seq::new(
                        4096,
                        |a: int|
                            if 0x200 <= a < 0x200 + program.len() {
                                program[a - 0x200]
                            } else {
                                self.memory[a]
                            },
                    ),
                    pc: 0x200,
                    ..self
                },
            )
        }
    }

    /// The state with the instruction at the program counter latched. The
    /// instruction takes two bytes; if the second lies past the end of
    /// memory, the fetch faults.
    pub open spec fn fetch(self) -> Result<MachineState, Fault> {
        if self.pc + 1 > 0xFFF {
            Err(self.fault(FaultKind::PcOutOfBounds))
        } else {
            Ok(MachineState { op_code: word_at(self.memory, self.pc as int), ..self })
        }
    }

    /// The state with the program counter at `target`; a fault if `target`
    /// lies outside memory.
    pub open spec fn moved_to(self, target: int) -> Result<MachineState, FaultKind> {
        if 0 <= target <= 0xFFF {
            Ok(MachineState { pc: target as u16, ..self })
        } else {
            Err(FaultKind::PcOutOfBounds)
        }
    }

    /// The state with the program counter moved on to the next instruction.
    pub open spec fn next(self) -> Result<MachineState, FaultKind> {
        self.moved_to(self.pc + 2)
    }

    /// The state with the program counter moved past the next instruction if
    /// `condition` holds, and on to it if not.
    pub open spec fn skip_if(self, condition: bool) -> Result<MachineState, FaultKind> {
        self.moved_to(
            self.pc + if condition {
                4int
            } else {
                2int
            },
        )
    }

    /// The sprite of `rows` bytes that the index register points at.
    pub open spec fn sprite(self, rows: u8) -> Seq<u8> {
        bytes_from(self.memory, self.index as int, rows as int)
    }

    /// The state after `instruction` has been carried out, `random` being
    /// the random byte that the instruction may draw; or the kind of fault
    /// that it raises.
    pub open spec fn apply(self, instruction: Instruction, random: u8) -> Result<
        MachineState,
        FaultKind,
    > {
        match instruction {
            Instruction::ClearScreen => MachineState { pixels: blank(), ..self }.next(),
            Instruction::Return => if self.stack.len() == 0 {
                Err(FaultKind::StackUnderflow)
            } else {
                Ok(MachineState { pc: self.stack.last(), stack: self.stack.drop_last(), ..self })
            },
            Instruction::Jump { addr } => self.moved_to(addr as int),
            Instruction::Call { addr } => if self.pc + 2 > 0xFFF {
                Err(FaultKind::PcOutOfBounds)
            } else if self.stack.len() >= 16 {
                Err(FaultKind::StackOverflow)
            } else {
                MachineState { stack: self.stack.push((self.pc + 2) as u16), ..self }.moved_to(
                    addr as int,
                )
            },
            Instruction::SkipIfEqualByte { x, byte } => self.skip_if(self.reg(x) == byte),
            Instruction::SkipIfNotEqualByte { x, byte } => self.skip_if(self.reg(x) != byte),
            Instruction::SkipIfEqual { x, y } => self.skip_if(self.reg(x) == self.reg(y)),
            Instruction::SkipIfNotEqual { x, y } => self.skip_if(self.reg(x) != self.reg(y)),
            Instruction::LoadByte { x, byte } => self.with_reg(x, byte).next(),
            Instruction::AddByte { x, byte } => self.with_reg(x, sum(self.reg(x), byte)).next(),
            Instruction::Move { x, y } => self.with_reg(x, self.reg(y)).next(),
            Instruction::Or { x, y } => self.with_reg(x, self.reg(x) | self.reg(y)).next(),
            Instruction::And { x, y } => self.with_reg(x, self.reg(x) & self.reg(y)).next(),
            Instruction::Xor { x, y } => self.with_reg(x, self.reg(x) ^ self.reg(y)).next(),
            Instruction::Add { x, y } => self.with_reg(x, sum(self.reg(x), self.reg(y))).with_flag(
                carry(self.reg(x), self.reg(y)),
            ).next(),
            Instruction::Sub { x, y } => self.with_reg(
                x,
                difference(self.reg(x), self.reg(y)),
            ).with_flag(no_borrow(self.reg(x), self.reg(y))).next(),
            Instruction::SubReversed { x, y } => self.with_reg(
                x,
                difference(self.reg(y), self.reg(x)),
            ).with_flag(no_borrow(self.reg(y), self.reg(x))).next(),
            Instruction::ShiftRight { x, .. } => self.with_reg(x, halved(self.reg(x))).with_flag(
                low_bit(self.reg(x)),
            ).next(),
            Instruction::ShiftLeft { x, .. } => self.with_reg(x, doubled(self.reg(x))).with_flag(
                high_bit(self.reg(x)),
            ).next(),
            Instruction::LoadIndex { addr } => MachineState { index: addr, ..self }.next(),
            Instruction::JumpOffset { addr } => self.moved_to(addr + self.reg(0)),
            Instruction::Random { x, mask } => self.with_reg(x, random & mask).next(),
            Instruction::Draw { x, y, rows } => MachineState {
                pixels: blit(
                    self.pixels,
                    self.reg(x) as int,
                    self.reg(y) as int,
                    self.sprite(rows),
                ),
                ..self
            }.with_flag(
                if collides(
                    self.pixels,
                    self.reg(x) as int,
                    self.reg(y) as int,
                    self.sprite(rows),
                ) {
                    1u8
                } else {
                    0u8
                },
            ).next(),
            Instruction::SkipIfKey { x } => self.skip_if(self.key_down(self.reg(x))),
            Instruction::SkipIfNotKey { x } => self.skip_if(!self.key_down(self.reg(x))),
            Instruction::ReadDelay { x } => self.with_reg(x, self.delay).next(),
            Instruction::WaitKey { x } => match lowest_pressed(self.keys) {
                Some(key) => MachineState { mode: Mode::Running, ..self.with_reg(x, key) }.next(),
                None => Ok(MachineState { mode: Mode::AwaitingKey { register: x }, ..self }),
            },
            Instruction::SetDelay { x } => MachineState { delay: self.reg(x), ..self }.next(),
            Instruction::SetSound { x } => MachineState { sound: self.reg(x), ..self }.next(),
            Instruction::AddIndex { x } => MachineState {
                index: wrapped(self.index + self.reg(x)) as u16,
                ..self
            }.next(),
            Instruction::Glyph { x } => MachineState {
                index: glyph_address(self.reg(x)) as u16,
                ..self
            }.next(),
            Instruction::StoreBcd { x } => MachineState {
                memory: stored(
                    self.memory,
                    self.index as int,
                    seq![
                        decimal_digits(self.reg(x)).0,
                        decimal_digits(self.reg(x)).1,
                        decimal_digits(self.reg(x)).2,
                    ],
                ),
                ..self
            }.next(),
            Instruction::StoreRegisters { x } => MachineState {
                memory: stored(self.memory, self.index as int, self.registers.take(x + 1)),
                ..self
            }.next(),
            Instruction::LoadRegisters { x } => MachineState {
                registers: Seq::new(
                    16,
                    |k: int|
                        if k <= x {
                            self.memory[wrapped(self.index + k)]
                        } else {
                            self.registers[k]
                        },
                ),
                ..self
            }.next(),
            Instruction::UnusedSubOpcode => Err(FaultKind::UnusedSubOpcode),
            Instruction::UnknownFamily => Err(FaultKind::UnknownFamily),
        }
    }

    /// The state after the latched instruction has been executed, or the
    /// fault that it raises, with the instruction and the program counter
    /// at which it arose.
    pub open spec fn execute(self, random: u8) -> Result<MachineState, Fault> {
        match self.apply(decoded(self.op_code), random) {
            Ok(after) => Ok(after),
            Err(kind) => Err(self.fault(kind)),
        }
    }

    /// The state after `elapsed_micros` microseconds have passed: both
    /// timers have counted down by the ticks that fell due.
    pub open spec fn tick(self, elapsed_micros: int) -> MachineState {
        MachineState {
            delay: decayed(self.delay, ticks_due(self.tick_residue as int, elapsed_micros)),
            sound: decayed(self.sound, ticks_due(self.tick_residue as int, elapsed_micros)),
            tick_residue: residue_after(self.tick_residue as int, elapsed_micros) as u32,
            ..self
        }
    }

    /// The state after one cycle, in which `elapsed_micros` microseconds
    /// pass. A running machine fetches and executes one instruction; a
    /// suspended one fetches nothing and waits for the key once more. The
    /// timers count either way, unless the cycle faults.
    pub open spec fn cycle(self, random: u8, elapsed_micros: int) -> Result<MachineState, Fault> {
        match self.mode {
            Mode::AwaitingKey { register } => match self.apply(
                Instruction::WaitKey { x: register },
                random,
            ) {
                Err(kind) => Err(self.fault(kind)),
                Ok(after) => Ok(after.tick(elapsed_micros)),
            },
            Mode::Running => match self.fetch() {
                Err(fault) => Err(fault),
                Ok(latched) => match latched.execute(random) {
                    Err(fault) => Err(fault),
                    Ok(after) => Ok(after.tick(elapsed_micros)),
                },
            },
        }
    }

    /// The state after a sequence of cycles, one for each input, or the
    /// first fault.
    pub open spec fn run(self, inputs: Seq<CycleInput>) -> Result<MachineState, Fault>
        decreases inputs.len(),
    {
        if inputs.len() == 0 {
            Ok(self)
        } else {
            match self.run(inputs.drop_last()) {
                Ok(before) => before.cycle(inputs.last().random, inputs.last().elapsed_micros),
                Err(fault) => Err(fault),
            }
        }
    }

    /// The instruction that the next cycle carries out, if it gets as far as
    /// carrying one out: the instruction at the program counter for a
    /// running machine, the wait for a key for a suspended one.
    pub open spec fn next_instruction(self) -> Option<Instruction> {
        match self.mode {
            Mode::AwaitingKey { register } => Some(Instruction::WaitKey { x: register }),
            Mode::Running => match self.fetch() {
                Ok(latched) => Some(decoded(latched.op_code)),
                Err(_) => None,
            },
        }
    }

    /// Whether the next cycle executes the instruction that sets the delay
    /// timer.
    pub open spec fn sets_delay_next(self) -> bool {
        self.next_instruction() matches Some(instruction) && instruction is SetDelay
    }

    /// Whether the next cycle executes the instruction that sets the sound
    /// timer.
    pub open spec fn sets_sound_next(self) -> bool {
        self.next_instruction() matches Some(instruction) && instruction is SetSound
    }

    /// Whether no cycle of a run sets the delay timer.
    pub open spec fn sets_no_delay(self, inputs: Seq<CycleInput>) -> bool
        decreases inputs.len(),
    {
        inputs.len() == 0 || (self.sets_no_delay(inputs.drop_last()) && (self.run(
            inputs.drop_last(),
        ) matches Ok(before) ==> !before.sets_delay_next()))
    }

    /// Whether no cycle of a run sets the sound timer.
    pub open spec fn sets_no_sound(self, inputs: Seq<CycleInput>) -> bool
        decreases inputs.len(),
    {
        inputs.len() == 0 || (self.sets_no_sound(inputs.drop_last()) && (self.run(
            inputs.drop_last(),
        ) matches Ok(before) ==> !before.sets_sound_next()))
    }

    /// What is left of a cycle that faulted: the machine as it was, but for
    /// the instruction word, if the machine was running and one could be
    /// fetched.
    pub open spec fn halted(self) -> MachineState {
        match self.mode {
            Mode::AwaitingKey { .. } => self,
            Mode::Running => match self.fetch() {
                Ok(latched) => latched,
                Err(_) => self,
            },
        }
    }
}

/// The lowest pressed key is the one that satisfies [`is_lowest_pressed`],
/// and there is none exactly if no key is held down.
pub proof fn lemma_lowest_pressed(keys: Seq<bool>)
    requires
        keys.len() == 16,
    ensures
        forall|key: int|
            #![trigger is_lowest_pressed(keys, key)]
            is_lowest_pressed(keys, key) ==> lowest_pressed(keys) == Some(key as u8),
        (forall|j: int| 0 <= j < 16 ==> !keys[j]) ==> lowest_pressed(keys) is None,
        lowest_pressed(keys) matches Some(key) ==> is_lowest_pressed(keys, key as int),
{
    assert forall|key: int| #![trigger is_lowest_pressed(keys, key)] is_lowest_pressed(
        keys,
        key,
    ) implies lowest_pressed(keys) == Some(key as u8) by {
        let chosen = choose|k: int| is_lowest_pressed(keys, k);
        assert(is_lowest_pressed(keys, chosen));
        assert(chosen == key) by {
            if chosen < key {
                assert(!keys[chosen]);
            } else if key < chosen {
                assert(!keys[key]);
            }
        }
    }
    if exists|key: int| is_lowest_pressed(keys, key) {
        let chosen = choose|k: int| is_lowest_pressed(keys, k);
        assert(is_lowest_pressed(keys, chosen));
        assert(0 <= chosen < 16);
    }
}

} // verus!
