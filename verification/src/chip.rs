//! The interpreter: machine state, executor and cycle driver.
//!
//! A [`Chip`] is one machine. Its view is the [`MachineState`] that it
//! stands for, and every method says what it does in terms of the model in
//! [`crate::machine`].
//!
//! The interpreter neither reads a clock nor draws random numbers nor polls
//! a keyboard. Whoever drives it hands in the key table before a cycle, and
//! with each cycle a random byte and the time that has passed.
use crate::alu::{
    add_with_carry, add_wrapping, shift_left, shift_right, sub_with_borrow, to_decimal,
};
use crate::decode::{decode, fields_of, Instruction};
use crate::display::{blank, blit, collides, lemma_row_wraps, Display};
use crate::fault::{Fault, FaultKind, LoadFault};
use crate::font::{glyph_address_of, CHIP8_FONTSET};
use crate::machine::{
    is_lowest_pressed, lemma_lowest_pressed, lowest_pressed, stored, wrapped, MachineState, Mode,
    PROGRAM_SPACE, PROGRAM_START,
};
use crate::timer::{advance, decay};
use vstd::prelude::*;

verus! {

/// One CHIP-8 machine.
pub struct Chip {
    op_code: u16,
    memory: [u8; 4096],
    v: [u8; 16],
    index_register: u16,
    program_counter: u16,
    stack: [u16; 16],
    stack_pointer: usize,
    delay_timer: u8,
    sound_timer: u8,
    key: [bool; 16],
    display: Display,
    mode: Mode,
    tick_residue: u32,
}

impl View for Chip {
    type V = MachineState;

    /// The state that the machine is in. Of the stack slots only those
    /// below the stack pointer count.
    closed spec fn view(&self) -> MachineState {
        MachineState {
            op_code: self.op_code,
            memory: self.memory@,
            registers: self.v@,
            index: self.index_register,
            pc: self.program_counter,
            stack: self.stack@.take(self.stack_pointer as int),
            delay: self.delay_timer,
            sound: self.sound_timer,
            keys: self.key@,
            pixels: self.display@,
            mode: self.mode,
            tick_residue: self.tick_residue,
        }
    }
}

/// Finds the lowest-numbered key that is held down.
pub fn lowest_pressed_key(keys: &[bool; 16]) -> (found: Option<u8>)
    ensures
        found == lowest_pressed(keys@),
        found matches Some(key) ==> is_lowest_pressed(keys@, key as int),
        found is None ==> forall|j: int| 0 <= j < 16 ==> !keys@[j],
{
    proof {
        lemma_lowest_pressed(keys@);
    }
    let mut k: u8 = 0;
    while k < 16
        invariant
            k <= 16,
            forall|j: int| 0 <= j < k ==> !keys@[j],
        decreases 16 - k,
    {
        if keys[k as usize] {
            assert(is_lowest_pressed(keys@, k as int));
            return Some(k);
        }
        k = k + 1;
    }
    None
}

impl Chip {
    #[verifier::type_invariant]
    spec fn inv(self) -> bool {
        &&& self.program_counter <= 0xFFF
        &&& self.stack_pointer <= 16
        &&& forall|i: int| 0 <= i < self.stack_pointer ==> self.stack@[i] <= 0xFFF
        &&& self.tick_residue < 1_000_000
        &&& (self.mode matches Mode::AwaitingKey { register } ==> register <= 0xF)
    }

    /// Memory as it is before a program is loaded: the font table in the
    /// first 80 bytes, zero everywhere else.
    pub fn load_fontset() -> (loaded_memory: [u8; 4096])
        ensures
            loaded_memory@ == MachineState::initial().memory,
    {
        let mut loaded_memory: [u8; 4096] = [0u8; 4096];
        let mut i: usize = 0;
        while i < 80
            invariant
                i <= 80,
                forall|a: int| 0 <= a < i ==> loaded_memory@[a] == CHIP8_FONTSET@[a],
                forall|a: int| i <= a < 4096 ==> loaded_memory@[a] == 0,
            decreases 80 - i,
        {
            loaded_memory[i] = CHIP8_FONTSET[i];
            i = i + 1;
        }
        assert(loaded_memory@ =~= MachineState::initial().memory);
        loaded_memory
    }

    /// A new machine: the font in low memory, everything else zero, empty
    /// or off, running, with the program counter at the load address.
    pub fn init() -> (chip: Chip)
        ensures
            chip@ == MachineState::initial(),
            chip@.wf(),
    {
        let loaded_memory = Chip::load_fontset();
        let chip = Chip {
            op_code: 0,
            program_counter: PROGRAM_START,
            index_register: 0,
            memory: loaded_memory,
            v: [0u8; 16],
            stack_pointer: 0,
            delay_timer: 0,
            sound_timer: 0,
            key: [false; 16],
            stack: [0u16; 16],
            display: Display::new(),
            mode: Mode::Running,
            tick_residue: 0,
        };
        proof {
            chip.display.lemma_len();
            let now = chip@;
            let want = MachineState::initial();
            assert(now.registers =~= want.registers);
            assert(now.keys =~= want.keys);
            assert(now.stack =~= want.stack);
        }
        chip
    }

    /// Writes a program to memory from the load address on and puts the
    /// program counter at its first instruction. Nothing else changes: to
    /// run another program, load it into a new machine.
    ///
    /// A program longer than the 3584 bytes from the load address to the
    /// end of memory is refused, and nothing is written.
    pub fn load_to_memory(&mut self, game_data: &[u8]) -> (r: Result<(), LoadFault>)
        ensures
            match old(self)@.load(game_data@) {
                Ok(after) => r is Ok && final(self)@ == after,
                Err(fault) => r == Err::<(), LoadFault>(fault) && final(self)@ == old(self)@,
            },
            r is Err <==> game_data@.len() > PROGRAM_SPACE,
            final(self)@.wf(),
    {
        proof {
            use_type_invariant(&*self);
            self.lemma_view_wf();
        }
        let len: usize = game_data.len();
        if len > PROGRAM_SPACE {
            return Err(LoadFault::ProgramTooLarge);
        }
        let mut i: usize = 0;
        assert(self@.memory =~= Seq::new(
            4096,
            |a: int|
                if 0x200 <= a < 0x200 + 0 {
                    game_data@[a - 0x200]
                } else {
                    self@.memory[a]
                },
        ));
        while i < len
            invariant
                i <= len <= 3584,
                len == game_data@.len(),
                self.inv(),
                self@ == (MachineState {
                    memory: Seq::new(
                        4096,
                        |a: int|
                            if 0x200 <= a < 0x200 + i {
                                game_data@[a - 0x200]
                            } else {
                                old(self)@.memory[a]
                            },
                    ),
                    ..old(self)@
                }),
            decreases len - i,
        {
            self.memory[0x200 + i] = game_data[i];
            assert(self.memory@ =~= Seq::new(
                4096,
                |a: int|
                    if 0x200 <= a < 0x200 + (i + 1) {
                        game_data@[a - 0x200]
                    } else {
                        old(self)@.memory[a]
                    },
            ));
            i = i + 1;
        }
        self.program_counter = PROGRAM_START;
        proof {
            self.lemma_view_wf();
        }
        Ok(())
    }

    /// Latches the instruction at the program counter: the byte there is
    /// the high half of the word, the next byte the low half. The fetch
    /// faults, and latches nothing, if the second byte would lie past the
    /// end of memory.
    pub fn fetch_opcode(&mut self) -> (r: Result<(), Fault>)
        ensures
            match old(self)@.fetch() {
                Ok(after) => r is Ok && final(self)@ == after,
                Err(fault) => r == Err::<(), Fault>(fault) && final(self)@ == old(self)@,
            },
            r is Err <==> old(self)@.pc == 0xFFF,
            final(self)@.wf(),
    {
        proof {
            use_type_invariant(&*self);
            self.lemma_view_wf();
        }
        if self.program_counter >= 0xFFF {
            return Err(
                Fault {
                    kind: FaultKind::PcOutOfBounds,
                    opcode: self.op_code,
                    pc: self.program_counter,
                },
            );
        }
        let at: usize = self.program_counter as usize;
        let high: u16 = self.memory[at] as u16;
        let low: u16 = self.memory[at + 1] as u16;
        assert(high << 8 | low == high * 256 + low) by (bit_vector)
            requires
                high < 256,
                low < 256,
        ;
        self.op_code = high << 8 | low;
        proof {
            self.lemma_view_wf();
        }
        Ok(())
    }

    /// The register index `x` of the latched instruction: bits 8 to 11.
    pub fn op_x(&self) -> (x: usize)
        ensures
            x == fields_of(self@.op_code).x,
            x < 16,
    {
        let word: u16 = self.op_code;
        assert((word & 0x0F00) >> 8 == (word / 0x100) % 0x10) by (bit_vector);
        ((self.op_code & 0x0F00) >> 8) as usize
    }

    /// The register index `y` of the latched instruction: bits 4 to 7.
    pub fn op_y(&self) -> (y: usize)
        ensures
            y == fields_of(self@.op_code).y,
            y < 16,
    {
        let word: u16 = self.op_code;
        assert((word & 0x00F0) >> 4 == (word / 0x10) % 0x10) by (bit_vector);
        ((self.op_code & 0x00F0) >> 4) as usize
    }

    /// The 4-bit immediate `n` of the latched instruction: bits 0 to 3.
    pub fn op_n(&self) -> (n: u8)
        ensures
            n == fields_of(self@.op_code).n,
            n < 16,
    {
        let word: u16 = self.op_code;
        assert(word & 0x000F == word % 0x10) by (bit_vector);
        (self.op_code & 0x000F) as u8
    }

    /// The 8-bit immediate `nn` of the latched instruction: bits 0 to 7.
    pub fn op_nn(&self) -> (nn: u8)
        ensures
            nn == fields_of(self@.op_code).nn,
    {
        let word: u16 = self.op_code;
        assert(word & 0x00FF == word % 0x100) by (bit_vector);
        (self.op_code & 0x00FF) as u8
    }

    /// The 12-bit address `nnn` of the latched instruction: bits 0 to 11.
    pub fn op_nnn(&self) -> (nnn: u16)
        ensures
            nnn == fields_of(self@.op_code).nnn,
            nnn <= 0xFFF,
    {
        let word: u16 = self.op_code;
        assert(word & 0x0FFF == word % 0x1000) by (bit_vector);
        self.op_code & 0x0FFF
    }

    /// The invariant of the fields gives a well-formed state.
    proof fn lemma_view_wf(self)
        requires
            self.inv(),
        ensures
            self@.wf(),
    {
        self.display.lemma_len();
    }

    /// Puts the program counter at `target`, if that lies within memory.
    fn move_to(&mut self, target: u16) -> (r: Result<(), FaultKind>)
        ensures
            match old(self)@.moved_to(target as int) {
                Ok(after) => r is Ok && final(self)@ == after,
                Err(kind) => r == Err::<(), FaultKind>(kind) && final(self)@ == old(self)@,
            },
    {
        proof {
            use_type_invariant(&*self);
        }
        if target > 0xFFF {
            Err(FaultKind::PcOutOfBounds)
        } else {
            self.program_counter = target;
            Ok(())
        }
    }

    /// Moves the program counter on to the next instruction.
    fn step(&mut self) -> (r: Result<(), FaultKind>)
        ensures
            match old(self)@.next() {
                Ok(after) => r is Ok && final(self)@ == after,
                Err(kind) => r == Err::<(), FaultKind>(kind) && final(self)@ == old(self)@,
            },
    {
        proof {
            use_type_invariant(&*self);
        }
        self.move_to(self.program_counter + 2)
    }

    /// Moves the program counter past the next instruction if `condition`
    /// holds, and on to it if not.
    fn skip_next_if(&mut self, condition: bool) -> (r: Result<(), FaultKind>)
        ensures
            match old(self)@.skip_if(condition) {
                Ok(after) => r is Ok && final(self)@ == after,
                Err(kind) => r == Err::<(), FaultKind>(kind) && final(self)@ == old(self)@,
            },
    {
        proof {
            use_type_invariant(&*self);
        }
        let step: u16 = if condition {
            4
        } else {
            2
        };
        self.move_to(self.program_counter + step)
    }

    /// Saves the address of the next instruction and jumps to `addr`.
    fn call(&mut self, addr: u16) -> (r: Result<(), FaultKind>)
        requires
            addr <= 0xFFF,
        ensures
            forall|random: u8|
                match #[trigger] old(self)@.apply(Instruction::Call { addr }, random) {
                    Ok(after) => r is Ok && final(self)@ == after,
                    Err(kind) => r == Err::<(), FaultKind>(kind) && final(self)@ == old(self)@,
                },
    {
        proof {
            use_type_invariant(&*self);
        }
        if self.program_counter + 2 > 0xFFF {
            return Err(FaultKind::PcOutOfBounds);
        }
        if self.stack_pointer >= 16 {
            return Err(FaultKind::StackOverflow);
        }
        let ghost before = self@;
        self.stack[self.stack_pointer] = self.program_counter + 2;
        self.stack_pointer = self.stack_pointer + 1;
        self.program_counter = addr;
        assert(self@.stack =~= before.stack.push((before.pc + 2) as u16));
        Ok(())
    }

    /// Jumps back to the address saved last.
    fn return_from_call(&mut self) -> (r: Result<(), FaultKind>)
        ensures
            forall|random: u8|
                match #[trigger] old(self)@.apply(Instruction::Return, random) {
                    Ok(after) => r is Ok && final(self)@ == after,
                    Err(kind) => r == Err::<(), FaultKind>(kind) && final(self)@ == old(self)@,
                },
    {
        proof {
            use_type_invariant(&*self);
        }
        if self.stack_pointer == 0 {
            return Err(FaultKind::StackUnderflow);
        }
        let ghost before = self@;
        self.stack_pointer = self.stack_pointer - 1;
        self.program_counter = self.stack[self.stack_pointer];
        assert(self@.stack =~= before.stack.drop_last());
        Ok(())
    }

    /// Writes the first `count` of `bytes` to memory at `I`, wrapping at
    /// the end of memory.
    fn write_at_index(&mut self, bytes: [u8; 16], count: usize)
        requires
            count <= 16,
        ensures
            final(self)@ == (MachineState {
                memory: stored(
                    old(self)@.memory,
                    old(self)@.index as int,
                    bytes@.take(count as int),
                ),
                ..old(self)@
            }),
    {
        proof {
            use_type_invariant(&*self);
        }
        let base: usize = self.index_register as usize;
        let mut k: usize = 0;
        assert(self@.memory =~= stored(self@.memory, self@.index as int, bytes@.take(0)));
        while k < count
            invariant
                k <= count <= 16,
                base == old(self)@.index,
                self.inv(),
                self@ == (MachineState {
                    memory: stored(
                        old(self)@.memory,
                        old(self)@.index as int,
                        bytes@.take(k as int),
                    ),
                    ..old(self)@
                }),
            decreases count - k,
        {
            self.memory[(base + k) % 4096] = bytes[k];
            assert(self.memory@ =~= stored(
                old(self)@.memory,
                old(self)@.index as int,
                bytes@.take(k + 1),
            ));
            k = k + 1;
        }
    }

    /// Reads the registers `V0` to `Vx` from memory at `I`, wrapping at the
    /// end of memory.
    fn read_at_index(&mut self, x: u8)
        requires
            x <= 0xF,
        ensures
            final(self)@ == (MachineState {
                registers: Seq::new(
                    16,
                    |j: int|
                        if j <= x {
                            old(self)@.memory[wrapped(old(self)@.index + j)]
                        } else {
                            old(self)@.registers[j]
                        },
                ),
                ..old(self)@
            }),
    {
        proof {
            use_type_invariant(&*self);
        }
        let base: usize = self.index_register as usize;
        let mut k: usize = 0;
        assert(self@.registers =~= Seq::new(
            16,
            |j: int|
                if j < 0 {
                    self@.memory[wrapped(self@.index + j)]
                } else {
                    self@.registers[j]
                },
        ));
        while k <= x as usize
            invariant
                k <= x + 1,
                x <= 0xF,
                base == old(self)@.index,
                self.inv(),
                self@ == (MachineState {
                    registers: Seq::new(
                        16,
                        |j: int|
                            if j < k {
                                old(self)@.memory[wrapped(old(self)@.index + j)]
                            } else {
                                old(self)@.registers[j]
                            },
                    ),
                    ..old(self)@
                }),
            decreases x + 1 - k,
        {
            self.v[k] = self.memory[(base + k) % 4096];
            assert(self.v@ =~= Seq::new(
                16,
                |j: int|
                    if j < k + 1 {
                        old(self)@.memory[wrapped(old(self)@.index + j)]
                    } else {
                        old(self)@.registers[j]
                    },
            ));
            k = k + 1;
        }
        assert(self@.registers =~= Seq::new(
            16,
            |j: int|
                if j <= x {
                    old(self)@.memory[wrapped(old(self)@.index + j)]
                } else {
                    old(self)@.registers[j]
                },
        ));
    }

    /// Draws the sprite of `rows` bytes at `I` with its top left corner at
    /// pixel `(left, top)`, and reports whether a pixel was turned off.
    fn draw_sprite(&mut self, left: u8, top: u8, rows: u8) -> (collided: bool)
        requires
            rows <= 0xF,
        ensures
            final(self)@ == (MachineState {
                pixels: blit(
                    old(self)@.pixels,
                    left as int,
                    top as int,
                    old(self)@.sprite(rows),
                ),
                ..old(self)@
            }),
            collided == collides(
                old(self)@.pixels,
                left as int,
                top as int,
                old(self)@.sprite(rows),
            ),
    {
        proof {
            use_type_invariant(&*self);
        }
        let base: usize = self.index_register as usize;
        let ghost sprite = old(self)@.sprite(rows);
        let mut collided: bool = false;
        let mut k: u8 = 0;
        while k < rows
            invariant
                k <= rows <= 0xF,
                base == old(self)@.index,
                sprite == old(self)@.sprite(rows),
                self.inv(),
                self@ == (MachineState {
                    pixels: blit(
                        old(self)@.pixels,
                        left as int,
                        top as int,
                        sprite.take(k as int),
                    ),
                    ..old(self)@
                }),
                collided == collides(
                    old(self)@.pixels,
                    left as int,
                    top as int,
                    sprite.take(k as int),
                ),
            decreases rows - k,
        {
            let row: u8 = self.memory[(base + k as usize) % 4096];
            let line: u8 = ((top as u16 + k as u16) % 32) as u8;
            proof {
                let upto = sprite.take(k + 1);
                assert(upto.drop_last() =~= sprite.take(k as int));
                assert(upto.last() == row);
                lemma_row_wraps(self.display@, left as int, line as int, top + k, row);
            }
            let hit: bool = self.display.xor_row(left, line, row);
            collided = collided || hit;
            k = k + 1;
        }
        assert(sprite.take(rows as int) =~= sprite);
        collided
    }

    /// Whether the key numbered `key` is held down.
    fn key_down(&self, key: u8) -> (down: bool)
        ensures
            down == self@.key_down(key),
    {
        key <= 0xF && self.key[key as usize]
    }

    /// Reads register `x`.
    fn reg(&self, x: u8) -> (value: u8)
        requires
            x <= 0xF,
        ensures
            value == self@.reg(x),
    {
        self.v[x as usize]
    }

    /// Writes register `x`.
    fn set_reg(&mut self, x: u8, value: u8)
        requires
            x <= 0xF,
        ensures
            final(self)@ == old(self)@.with_reg(x, value),
    {
        proof {
            use_type_invariant(&*self);
        }
        self.v[x as usize] = value;
    }

    /// Writes the flag register `VF`.
    fn set_flag(&mut self, value: u8)
        ensures
            final(self)@ == old(self)@.with_flag(value),
    {
        self.set_reg(0xF, value)
    }

    /// Writes the index register.
    fn set_index(&mut self, value: u16)
        ensures
            final(self)@ == (MachineState { index: value, ..old(self)@ }),
    {
        proof {
            use_type_invariant(&*self);
        }
        self.index_register = value;
    }

    /// Sets the delay timer.
    fn set_delay(&mut self, value: u8)
        ensures
            final(self)@ == (MachineState { delay: value, ..old(self)@ }),
    {
        proof {
            use_type_invariant(&*self);
        }
        self.delay_timer = value;
    }

    /// Sets the sound timer.
    fn set_sound(&mut self, value: u8)
        ensures
            final(self)@ == (MachineState { sound: value, ..old(self)@ }),
    {
        proof {
            use_type_invariant(&*self);
        }
        self.sound_timer = value;
    }

    /// Suspends the machine until a key is held down, which is to go to
    /// register `x`.
    fn suspend(&mut self, x: u8)
        requires
            x <= 0xF,
        ensures
            final(self)@ == (MachineState {
                mode: Mode::AwaitingKey { register: x },
                ..old(self)@
            }),
    {
        proof {
            use_type_invariant(&*self);
        }
        self.mode = Mode::AwaitingKey { register: x };
    }

    /// Sets the machine running.
    fn set_running(&mut self)
        ensures
            final(self)@ == (MachineState { mode: Mode::Running, ..old(self)@ }),
    {
        proof {
            use_type_invariant(&*self);
        }
        self.mode = Mode::Running;
    }

    /// Turns every pixel of the display off.
    fn clear_display(&mut self)
        ensures
            final(self)@ == (MachineState { pixels: blank(), ..old(self)@ }),
    {
        proof {
            use_type_invariant(&*self);
        }
        self.display.clear();
    }

    /// Carries out one instruction, or reports the kind of fault that it
    /// raises. Every instruction that goes on to the next one takes that
    /// step first: if there is no next instruction, it faults before it has
    /// changed anything.
    #[verifier::rlimit(50)]
    fn carry_out(&mut self, instruction: Instruction, random: u8) -> (r: Result<(), FaultKind>)
        requires
            instruction.operands_in_range(),
        ensures
            match old(self)@.apply(instruction, random) {
                Ok(after) => r is Ok && final(self)@ == after,
                Err(kind) => r == Err::<(), FaultKind>(kind) && final(self)@ == old(self)@,
            },
    {
        match instruction {
            Instruction::ClearScreen => {
                self.step()?;
                self.clear_display();
            },
            Instruction::Return => {
                self.return_from_call()?;
            },
            Instruction::Jump { addr } => {
                self.move_to(addr)?;
            },
            Instruction::Call { addr } => {
                self.call(addr)?;
            },
            Instruction::SkipIfEqualByte { x, byte } => {
                self.skip_next_if(self.reg(x) == byte)?;
            },
            Instruction::SkipIfNotEqualByte { x, byte } => {
                self.skip_next_if(self.reg(x) != byte)?;
            },
            Instruction::SkipIfEqual { x, y } => {
                self.skip_next_if(self.reg(x) == self.reg(y))?;
            },
            Instruction::LoadByte { x, byte } => {
                self.step()?;
                self.set_reg(x, byte);
            },
            Instruction::AddByte { x, byte } => {
                self.step()?;
                self.set_reg(x, add_wrapping(self.reg(x), byte));
            },
            Instruction::Move { x, y } => {
                self.step()?;
                self.set_reg(x, self.reg(y));
            },
            Instruction::Or { x, y } => {
                self.step()?;
                self.set_reg(x, self.reg(x) | self.reg(y));
            },
            Instruction::And { x, y } => {
                self.step()?;
                self.set_reg(x, self.reg(x) & self.reg(y));
            },
            Instruction::Xor { x, y } => {
                self.step()?;
                self.set_reg(x, self.reg(x) ^ self.reg(y));
            },
            Instruction::Add { x, y } => {
                self.step()?;
                let (value, flag) = add_with_carry(self.reg(x), self.reg(y));
                self.set_reg(x, value);
                self.set_flag(flag);
            },
            Instruction::Sub { x, y } => {
                self.step()?;
                let (value, flag) = sub_with_borrow(self.reg(x), self.reg(y));
                self.set_reg(x, value);
                self.set_flag(flag);
            },
            Instruction::ShiftRight { x, .. } => {
                self.step()?;
                let (value, flag) = shift_right(self.reg(x));
                self.set_reg(x, value);
                self.set_flag(flag);
            },
            Instruction::SubReversed { x, y } => {
                self.step()?;
                let (value, flag) = sub_with_borrow(self.reg(y), self.reg(x));
                self.set_reg(x, value);
                self.set_flag(flag);
            },
            Instruction::ShiftLeft { x, .. } => {
                self.step()?;
                let (value, flag) = shift_left(self.reg(x));
                self.set_reg(x, value);
                self.set_flag(flag);
            },
            Instruction::SkipIfNotEqual { x, y } => {
                self.skip_next_if(self.reg(x) != self.reg(y))?;
            },
            Instruction::LoadIndex { addr } => {
                self.step()?;
                self.set_index(addr);
            },
            Instruction::JumpOffset { addr } => {
                self.move_to(addr + self.reg(0) as u16)?;
            },
            Instruction::Random { x, mask } => {
                self.step()?;
                self.set_reg(x, random & mask);
            },
            Instruction::Draw { x, y, rows } => {
                self.step()?;
                let collided: bool = self.draw_sprite(self.reg(x), self.reg(y), rows);
                self.set_flag(
                    if collided {
                        1
                    } else {
                        0
                    },
                );
            },
            Instruction::SkipIfKey { x } => {
                self.skip_next_if(self.key_down(self.reg(x)))?;
            },
            Instruction::SkipIfNotKey { x } => {
                self.skip_next_if(!self.key_down(self.reg(x)))?;
            },
            Instruction::ReadDelay { x } => {
                self.step()?;
                self.set_reg(x, self.delay_timer);
            },
            Instruction::WaitKey { x } => {
                match lowest_pressed_key(&self.key) {
                    Some(key) => {
                        self.step()?;
                        self.set_reg(x, key);
                        self.set_running();
                    },
                    None => {
                        self.suspend(x);
                    },
                }
            },
            Instruction::SetDelay { x } => {
                self.step()?;
                self.set_delay(self.reg(x));
            },
            Instruction::SetSound { x } => {
                self.step()?;
                self.set_sound(self.reg(x));
            },
            Instruction::AddIndex { x } => {
                self.step()?;
                let wide: u32 = self.index_register as u32 + self.reg(x) as u32;
                self.set_index((wide % 4096) as u16);
            },
            Instruction::Glyph { x } => {
                self.step()?;
                self.set_index(glyph_address_of(self.reg(x)));
            },
            Instruction::StoreBcd { x } => {
                self.step()?;
                let (hundreds, tens, ones) = to_decimal(self.reg(x));
                let mut digits: [u8; 16] = [0u8; 16];
                digits[0] = hundreds;
                digits[1] = tens;
                digits[2] = ones;
                assert(digits@.take(3) =~= seq![hundreds, tens, ones]);
                self.write_at_index(digits, 3);
            },
            Instruction::StoreRegisters { x } => {
                self.step()?;
                self.write_at_index(self.v, x as usize + 1);
            },
            Instruction::LoadRegisters { x } => {
                self.step()?;
                self.read_at_index(x);
            },
            Instruction::UnusedSubOpcode => {
                return Err(FaultKind::UnusedSubOpcode);
            },
            Instruction::UnknownFamily => {
                return Err(FaultKind::UnknownFamily);
            },
        }
        Ok(())
    }

    /// Carries out one decoded instruction. `random` is the byte that a
    /// random instruction draws; no other instruction looks at it.
    ///
    /// An instruction that cannot be carried out raises a fault and leaves
    /// the machine as it was: a call with the stack full, a return with the
    /// stack empty, a program counter that would leave memory, or one of
    /// the two instructions that stand for a word without a meaning.
    pub fn execute_instruction(&mut self, instruction: Instruction, random: u8) -> (r: Result<
        (),
        Fault,
    >)
        requires
            instruction.operands_in_range(),
        ensures
            match old(self)@.apply(instruction, random) {
                Ok(after) => r is Ok && final(self)@ == after,
                Err(kind) => r == Err::<(), Fault>(old(self)@.fault(kind)) && final(self)@ == old(
                    self,
                )@,
            },
            final(self)@.wf(),
    {
        let outcome: Result<(), FaultKind> = self.carry_out(instruction, random);
        proof {
            use_type_invariant(&*self);
            self.lemma_view_wf();
        }
        match outcome {
            Ok(()) => Ok(()),
            Err(kind) => Err(Fault { kind, opcode: self.op_code, pc: self.program_counter }),
        }
    }

    /// Decodes and executes the latched instruction, with `random` as the
    /// byte that a random instruction draws. A fault leaves the machine as
    /// it was.
    pub fn execute_opcode(&mut self, random: u8) -> (r: Result<(), Fault>)
        ensures
            match old(self)@.execute(random) {
                Ok(after) => r is Ok && final(self)@ == after,
                Err(fault) => r == Err::<(), Fault>(fault) && final(self)@ == old(self)@,
            },
            final(self)@.wf(),
    {
        let instruction = decode(self.op_code);
        self.execute_instruction(instruction, random)
    }

    /// Lets `elapsed_micros` microseconds pass: both timers count down by
    /// the sixtieths of a second that have become full since the last
    /// tick, and stop at zero. Time short of a tick is kept for the next
    /// call.
    pub fn tick_timers(&mut self, elapsed_micros: u64)
        ensures
            final(self)@ == old(self)@.tick(elapsed_micros as int),
            final(self)@.wf(),
    {
        proof {
            use_type_invariant(&*self);
        }
        let (ticks, residue) = advance(self.tick_residue, elapsed_micros);
        self.delay_timer = decay(self.delay_timer, ticks);
        self.sound_timer = decay(self.sound_timer, ticks);
        self.tick_residue = residue;
        proof {
            self.lemma_view_wf();
        }
    }

    /// Runs one cycle, in which `elapsed_micros` microseconds pass.
    ///
    /// A running machine fetches the instruction at the program counter and
    /// executes it, with `random` as the byte that a random instruction
    /// draws. A machine that waits for a key fetches nothing and looks at
    /// the key table instead: if a key is held down, the lowest goes to the
    /// waiting register, the program counter moves on past the instruction
    /// that waited, and the machine runs again from the next cycle on; if
    /// none is, nothing changes. Either way the timers then count the time
    /// that has passed.
    ///
    /// If the cycle faults, it stops there: the fault is returned, the
    /// timers do not count, and the machine is as it was but for the
    /// instruction word, if one was fetched.
    pub fn emulate_cycle(&mut self, random: u8, elapsed_micros: u64) -> (r: Result<(), Fault>)
        ensures
            match old(self)@.cycle(random, elapsed_micros as int) {
                Ok(after) => r is Ok && final(self)@ == after,
                Err(fault) => r == Err::<(), Fault>(fault) && final(self)@ == old(self)@.halted(),
            },
            final(self)@.wf(),
    {
        proof {
            use_type_invariant(&*self);
            self.lemma_view_wf();
        }
        match self.mode {
            Mode::AwaitingKey { register } => {
                let waiting = Instruction::WaitKey { x: register };
                match self.execute_instruction(waiting, random) {
                    Err(fault) => {
                        return Err(fault);
                    },
                    Ok(()) => {},
                }
            },
            Mode::Running => {
                match self.fetch_opcode() {
                    Err(fault) => {
                        return Err(fault);
                    },
                    Ok(()) => {},
                }
                match self.execute_opcode(random) {
                    Err(fault) => {
                        return Err(fault);
                    },
                    Ok(()) => {},
                }
            },
        }
        self.tick_timers(elapsed_micros);
        Ok(())
    }

    /// Replaces the key table: `keys[k]` says whether key `k` is held down.
    pub fn set_keys(&mut self, keys: [bool; 16])
        ensures
            final(self)@ == (MachineState { keys: keys@, ..old(self)@ }),
            final(self)@.wf(),
    {
        proof {
            use_type_invariant(&*self);
        }
        self.key = keys;
        proof {
            self.lemma_view_wf();
        }
    }

    /// The sixteen registers `V0` to `VF`.
    pub fn registers(&self) -> (v: [u8; 16])
        ensures
            v@ == self@.registers,
    {
        self.v
    }

    /// The 4096 bytes of memory.
    pub fn memory(&self) -> (bytes: &[u8; 4096])
        ensures
            bytes@ == self@.memory,
    {
        &self.memory
    }

    /// The index register `I`.
    pub fn index_register(&self) -> (index: u16)
        ensures
            index == self@.index,
    {
        self.index_register
    }

    /// The program counter. It always lies within memory.
    pub fn program_counter(&self) -> (pc: u16)
        ensures
            pc == self@.pc,
            pc <= 0xFFF,
    {
        proof {
            use_type_invariant(self);
        }
        self.program_counter
    }

    /// The instruction word that was fetched last.
    pub fn op_code(&self) -> (word: u16)
        ensures
            word == self@.op_code,
    {
        self.op_code
    }

    /// The number of return addresses on the call stack, at most sixteen.
    pub fn stack_depth(&self) -> (depth: usize)
        ensures
            depth == self@.stack.len(),
            depth <= 16,
    {
        proof {
            use_type_invariant(self);
        }
        self.stack_pointer
    }

    /// The delay timer.
    pub fn delay_timer(&self) -> (timer: u8)
        ensures
            timer == self@.delay,
    {
        self.delay_timer
    }

    /// The sound timer.
    pub fn sound_timer(&self) -> (timer: u8)
        ensures
            timer == self@.sound,
    {
        self.sound_timer
    }

    /// Whether a tone is due: whether the sound timer is not zero.
    pub fn sound_on(&self) -> (on: bool)
        ensures
            on == (self@.sound != 0),
    {
        self.sound_timer != 0
    }

    /// The key table as it was set last.
    pub fn keys(&self) -> (keys: [bool; 16])
        ensures
            keys@ == self@.keys,
    {
        self.key
    }

    /// Whether the machine runs or waits for a key.
    pub fn mode(&self) -> (mode: Mode)
        ensures
            mode == self@.mode,
    {
        self.mode
    }

    /// The display buffer, for a renderer to read.
    pub fn display(&self) -> (display: &Display)
        ensures
            display@ == self@.pixels,
    {
        &self.display
    }
}

} // verus!
