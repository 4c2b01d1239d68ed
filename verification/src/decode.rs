//! The instruction decoder.
//!
//! An instruction is one 16-bit word. Its four nibbles are, from the top,
//! the family selector and three operand nibbles; the operands are read as
//! two register indices `x` and `y`, a 4-bit immediate `n`, an 8-bit
//! immediate `nn` or a 12-bit address `nnn`, depending on the family.
use vstd::prelude::*;

verus! {

/// Every field that an instruction word can be read as.
#[derive(Clone, Copy, Debug, PartialEq, Eq, Structural)]
pub struct Fields {
    /// Bits 12 to 15: the family selector.
    pub family: u8,
    /// Bits 8 to 11: a register index.
    pub x: u8,
    /// Bits 4 to 7: a register index.
    pub y: u8,
    /// Bits 0 to 3: a 4-bit immediate.
    pub n: u8,
    /// Bits 0 to 7: an 8-bit immediate.
    pub nn: u8,
    /// Bits 0 to 11: a 12-bit address.
    pub nnn: u16,
}

/// One decoded instruction with its operands.
#[derive(Clone, Copy, Debug, PartialEq, Eq, Structural)]
pub enum Instruction {
    /// `00E0`: turn every pixel off.
    ClearScreen,
    /// `00EE`: return from a subroutine.
    Return,
    /// `1nnn`: jump to `addr`.
    Jump { addr: u16 },
    /// `2nnn`: call the subroutine at `addr`.
    Call { addr: u16 },
    /// `3xnn`: skip the next instruction if `Vx == byte`.
    SkipIfEqualByte { x: u8, byte: u8 },
    /// `4xnn`: skip the next instruction if `Vx != byte`.
    SkipIfNotEqualByte { x: u8, byte: u8 },
    /// `5xy0`: skip the next instruction if `Vx == Vy`.
    SkipIfEqual { x: u8, y: u8 },
    /// `6xnn`: `Vx = byte`.
    LoadByte { x: u8, byte: u8 },
    /// `7xnn`: `Vx = Vx + byte`, wrapping, flag untouched.
    AddByte { x: u8, byte: u8 },
    /// `8xy0`: `Vx = Vy`.
    Move { x: u8, y: u8 },
    /// `8xy1`: `Vx = Vx | Vy`.
    Or { x: u8, y: u8 },
    /// `8xy2`: `Vx = Vx & Vy`.
    And { x: u8, y: u8 },
    /// `8xy3`: `Vx = Vx ^ Vy`.
    Xor { x: u8, y: u8 },
    /// `8xy4`: `Vx = Vx + Vy`, `VF` = carry.
    Add { x: u8, y: u8 },
    /// `8xy5`: `Vx = Vx - Vy`, `VF` = no borrow.
    Sub { x: u8, y: u8 },
    /// `8xy6`: `Vx = Vx >> 1`, `VF` = the bit shifted out.
    ShiftRight { x: u8, y: u8 },
    /// `8xy7`: `Vx = Vy - Vx`, `VF` = no borrow.
    SubReversed { x: u8, y: u8 },
    /// `8xyE`: `Vx = Vx << 1`, `VF` = the bit shifted out.
    ShiftLeft { x: u8, y: u8 },
    /// `9xy0`: skip the next instruction if `Vx != Vy`.
    SkipIfNotEqual { x: u8, y: u8 },
    /// `Annn`: `I = addr`.
    LoadIndex { addr: u16 },
    /// `Bnnn`: jump to `addr + V0`.
    JumpOffset { addr: u16 },
    /// `Cxnn`: `Vx` = a random byte masked with `mask`.
    Random { x: u8, mask: u8 },
    /// `Dxyn`: draw the `rows`-byte sprite at `I` at pixel `(Vx, Vy)`.
    Draw { x: u8, y: u8, rows: u8 },
    /// `Ex9E`: skip the next instruction if key `Vx` is pressed.
    SkipIfKey { x: u8 },
    /// `ExA1`: skip the next instruction if key `Vx` is not pressed.
    SkipIfNotKey { x: u8 },
    /// `Fx07`: `Vx` = delay timer.
    ReadDelay { x: u8 },
    /// `Fx0A`: wait for a key, and put it in `Vx`.
    WaitKey { x: u8 },
    /// `Fx15`: delay timer = `Vx`.
    SetDelay { x: u8 },
    /// `Fx18`: sound timer = `Vx`.
    SetSound { x: u8 },
    /// `Fx1E`: `I = I + Vx`.
    AddIndex { x: u8 },
    /// `Fx29`: `I` = address of the glyph for digit `Vx`.
    Glyph { x: u8 },
    /// `Fx33`: store the three decimal digits of `Vx` at `I`.
    StoreBcd { x: u8 },
    /// `Fx55`: store `V0..=Vx` at `I`.
    StoreRegisters { x: u8 },
    /// `Fx65`: load `V0..=Vx` from `I`.
    LoadRegisters { x: u8 },
    /// A word of a known family whose discriminator the family does not use.
    UnusedSubOpcode,
    /// A family selector above `0xF`.
    UnknownFamily,
}

/// The fields of `word`, each as the number that its bits spell.
pub open spec fn fields_of(word: u16) -> Fields {
    Fields {
        family: (word / 0x1000) as u8,
        x: ((word / 0x100) % 0x10) as u8,
        y: ((word / 0x10) % 0x10) as u8,
        n: (word % 0x10) as u8,
        nn: (word % 0x100) as u8,
        nnn: (word % 0x1000) as u16,
    }
}

/// The instruction that a set of fields selects.
///
/// The family picks the instruction. The families `0x0`, `0xE` and `0xF`
/// are told apart further by the low byte, the families `0x5`, `0x8` and
/// `0x9` by the low nibble.
pub open spec fn instruction_of(f: Fields) -> Instruction {
    if f.family == 0x0 {
        if f.nn == 0xE0 {
            Instruction::ClearScreen
        } else if f.nn == 0xEE {
            Instruction::Return
        } else {
            Instruction::UnusedSubOpcode
        }
    } else if f.family == 0x1 {
        Instruction::Jump { addr: f.nnn }
    } else if f.family == 0x2 {
        Instruction::Call { addr: f.nnn }
    } else if f.family == 0x3 {
        Instruction::SkipIfEqualByte { x: f.x, byte: f.nn }
    } else if f.family == 0x4 {
        Instruction::SkipIfNotEqualByte { x: f.x, byte: f.nn }
    } else if f.family == 0x5 {
        if f.n == 0x0 {
            Instruction::SkipIfEqual { x: f.x, y: f.y }
        } else {
            Instruction::UnusedSubOpcode
        }
    } else if f.family == 0x6 {
        Instruction::LoadByte { x: f.x, byte: f.nn }
    } else if f.family == 0x7 {
        Instruction::AddByte { x: f.x, byte: f.nn }
    } else if f.family == 0x8 {
        if f.n == 0x0 {
            Instruction::Move { x: f.x, y: f.y }
        } else if f.n == 0x1 {
            Instruction::Or { x: f.x, y: f.y }
        } else if f.n == 0x2 {
            Instruction::And { x: f.x, y: f.y }
        } else if f.n == 0x3 {
            Instruction::Xor { x: f.x, y: f.y }
        } else if f.n == 0x4 {
            Instruction::Add { x: f.x, y: f.y }
        } else if f.n == 0x5 {
            Instruction::Sub { x: f.x, y: f.y }
        } else if f.n == 0x6 {
            Instruction::ShiftRight { x: f.x, y: f.y }
        } else if f.n == 0x7 {
            Instruction::SubReversed { x: f.x, y: f.y }
        } else if f.n == 0xE {
            Instruction::ShiftLeft { x: f.x, y: f.y }
        } else {
            Instruction::UnusedSubOpcode
        }
    } else if f.family == 0x9 {
        if f.n == 0x0 {
            Instruction::SkipIfNotEqual { x: f.x, y: f.y }
        } else {
            Instruction::UnusedSubOpcode
        }
    } else if f.family == 0xA {
        Instruction::LoadIndex { addr: f.nnn }
    } else if f.family == 0xB {
        Instruction::JumpOffset { addr: f.nnn }
    } else if f.family == 0xC {
        Instruction::Random { x: f.x, mask: f.nn }
    } else if f.family == 0xD {
        Instruction::Draw { x: f.x, y: f.y, rows: f.n }
    } else if f.family == 0xE {
        if f.nn == 0x9E {
            Instruction::SkipIfKey { x: f.x }
        } else if f.nn == 0xA1 {
            Instruction::SkipIfNotKey { x: f.x }
        } else {
            Instruction::UnusedSubOpcode
        }
    } else if f.family == 0xF {
        if f.nn == 0x07 {
            Instruction::ReadDelay { x: f.x }
        } else if f.nn == 0x0A {
            Instruction::WaitKey { x: f.x }
        } else if f.nn == 0x15 {
            Instruction::SetDelay { x: f.x }
        } else if f.nn == 0x18 {
            Instruction::SetSound { x: f.x }
        } else if f.nn == 0x1E {
            Instruction::AddIndex { x: f.x }
        } else if f.nn == 0x29 {
            Instruction::Glyph { x: f.x }
        } else if f.nn == 0x33 {
            Instruction::StoreBcd { x: f.x }
        } else if f.nn == 0x55 {
            Instruction::StoreRegisters { x: f.x }
        } else if f.nn == 0x65 {
            Instruction::LoadRegisters { x: f.x }
        } else {
            Instruction::UnusedSubOpcode
        }
    } else {
        Instruction::UnknownFamily
    }
}

/// The instruction that `word` encodes.
pub open spec fn decoded(word: u16) -> Instruction {
    instruction_of(fields_of(word))
}

impl Fields {
    /// Whether every field fits the number of bits it is read from.
    pub open spec fn in_range(self) -> bool {
        &&& self.family <= 0xF
        &&& self.x <= 0xF
        &&& self.y <= 0xF
        &&& self.n <= 0xF
        &&& self.nnn <= 0xFFF
    }

    /// Whether the fields are those of one instruction word: each in range,
    /// and the overlapping ones in agreement.
    pub open spec fn consistent(self) -> bool {
        &&& self.in_range()
        &&& self.nn == self.y * 0x10 + self.n
        &&& self.nnn == self.x * 0x100 + self.nn
    }

    /// The word that consistent fields were taken from.
    pub open spec fn word(self) -> int {
        self.family * 0x1000 + self.nnn
    }
}

impl Instruction {
    /// Whether the operands fit their fields: register indices below 16,
    /// addresses within 12 bits and a sprite height within 4 bits.
    pub open spec fn operands_in_range(self) -> bool {
        match self {
            Instruction::Jump { addr } => addr <= 0xFFF,
            Instruction::Call { addr } => addr <= 0xFFF,
            Instruction::SkipIfEqualByte { x, .. } => x <= 0xF,
            Instruction::SkipIfNotEqualByte { x, .. } => x <= 0xF,
            Instruction::SkipIfEqual { x, y } => x <= 0xF && y <= 0xF,
            Instruction::LoadByte { x, .. } => x <= 0xF,
            Instruction::AddByte { x, .. } => x <= 0xF,
            Instruction::Move { x, y } => x <= 0xF && y <= 0xF,
            Instruction::Or { x, y } => x <= 0xF && y <= 0xF,
            Instruction::And { x, y } => x <= 0xF && y <= 0xF,
            Instruction::Xor { x, y } => x <= 0xF && y <= 0xF,
            Instruction::Add { x, y } => x <= 0xF && y <= 0xF,
            Instruction::Sub { x, y } => x <= 0xF && y <= 0xF,
            Instruction::ShiftRight { x, y } => x <= 0xF && y <= 0xF,
            Instruction::SubReversed { x, y } => x <= 0xF && y <= 0xF,
            Instruction::ShiftLeft { x, y } => x <= 0xF && y <= 0xF,
            Instruction::SkipIfNotEqual { x, y } => x <= 0xF && y <= 0xF,
            Instruction::LoadIndex { addr } => addr <= 0xFFF,
            Instruction::JumpOffset { addr } => addr <= 0xFFF,
            Instruction::Random { x, .. } => x <= 0xF,
            Instruction::Draw { x, y, rows } => x <= 0xF && y <= 0xF && rows <= 0xF,
            Instruction::SkipIfKey { x } => x <= 0xF,
            Instruction::SkipIfNotKey { x } => x <= 0xF,
            Instruction::ReadDelay { x } => x <= 0xF,
            Instruction::WaitKey { x } => x <= 0xF,
            Instruction::SetDelay { x } => x <= 0xF,
            Instruction::SetSound { x } => x <= 0xF,
            Instruction::AddIndex { x } => x <= 0xF,
            Instruction::Glyph { x } => x <= 0xF,
            Instruction::StoreBcd { x } => x <= 0xF,
            Instruction::StoreRegisters { x } => x <= 0xF,
            Instruction::LoadRegisters { x } => x <= 0xF,
            Instruction::ClearScreen => true,
            Instruction::Return => true,
            Instruction::UnusedSubOpcode => true,
            Instruction::UnknownFamily => true,
        }
    }
}

/// The fields of a word are consistent and spell the word back.
pub proof fn lemma_fields_of_word(word: u16)
    ensures
        fields_of(word).consistent(),
        fields_of(word).word() == word,
{
    assert(word % 0x100 == ((word / 0x10) % 0x10) * 0x10 + word % 0x10) by (bit_vector);
    assert(word % 0x1000 == ((word / 0x100) % 0x10) * 0x100 + word % 0x100) by (bit_vector);
    assert((word / 0x1000) * 0x1000 + word % 0x1000 == word) by (bit_vector);
}

/// Consistent fields are the fields of the word that they spell.
pub proof fn lemma_fields_of_spelled_word(f: Fields)
    requires
        f.consistent(),
    ensures
        0 <= f.word() <= 0xFFFF,
        fields_of(f.word() as u16) == f,
{
    let word = f.word();
    let high = f.family * 0x10 + f.x;
    let upper = high * 0x10 + f.y;
    assert(word == f.family * 0x1000 + f.nnn);
    assert(word == high * 0x100 + f.nn);
    assert(word == upper * 0x10 + f.n);
    vstd::arithmetic::div_mod::lemma_fundamental_div_mod_converse(
        word,
        0x1000,
        f.family as int,
        f.nnn as int,
    );
    vstd::arithmetic::div_mod::lemma_fundamental_div_mod_converse(word, 0x100, high, f.nn as int);
    vstd::arithmetic::div_mod::lemma_fundamental_div_mod_converse(word, 0x10, upper, f.n as int);
    vstd::arithmetic::div_mod::lemma_fundamental_div_mod_converse(
        high,
        0x10,
        f.family as int,
        f.x as int,
    );
    vstd::arithmetic::div_mod::lemma_fundamental_div_mod_converse(upper, 0x10, high, f.y as int);
}

/// Every word decodes to an instruction whose operands fit their fields,
/// and no word has an unknown family: a word has sixteen families, and each
/// of them is known.
pub proof fn lemma_decoded_in_range(word: u16)
    ensures
        decoded(word).operands_in_range(),
        !(decoded(word) is UnknownFamily),
{
}

/// Reads every field of `word` by shifting and masking.
pub fn split(word: u16) -> (f: Fields)
    ensures
        f == fields_of(word),
        f.consistent(),
{
    assert(word >> 12 == word / 0x1000) by (bit_vector);
    assert((word >> 8) & 0xF == (word / 0x100) % 0x10) by (bit_vector);
    assert((word >> 4) & 0xF == (word / 0x10) % 0x10) by (bit_vector);
    assert(word & 0xF == word % 0x10) by (bit_vector);
    assert(word & 0xFF == word % 0x100) by (bit_vector);
    assert(word & 0xFFF == word % 0x1000) by (bit_vector);
    proof {
        lemma_fields_of_word(word);
    }
    Fields {
        family: (word >> 12) as u8,
        x: ((word >> 8) & 0xF) as u8,
        y: ((word >> 4) & 0xF) as u8,
        n: (word & 0xF) as u8,
        nn: (word & 0xFF) as u8,
        nnn: word & 0xFFF,
    }
}

/// Picks the instruction that the fields select. Fields that no word can
/// have are accepted too: a family selector above `0xF` gives
/// [`Instruction::UnknownFamily`].
pub fn classify(f: Fields) -> (instruction: Instruction)
    ensures
        instruction == instruction_of(f),
        f.in_range() ==> instruction.operands_in_range(),
        instruction is UnknownFamily <==> f.family > 0xF,
{
    match f.family {
        0x0 => match f.nn {
            0xE0 => Instruction::ClearScreen,
            0xEE => Instruction::Return,
            _ => Instruction::UnusedSubOpcode,
        },
        0x1 => Instruction::Jump { addr: f.nnn },
        0x2 => Instruction::Call { addr: f.nnn },
        0x3 => Instruction::SkipIfEqualByte { x: f.x, byte: f.nn },
        0x4 => Instruction::SkipIfNotEqualByte { x: f.x, byte: f.nn },
        0x5 => match f.n {
            0x0 => Instruction::SkipIfEqual { x: f.x, y: f.y },
            _ => Instruction::UnusedSubOpcode,
        },
        0x6 => Instruction::LoadByte { x: f.x, byte: f.nn },
        0x7 => Instruction::AddByte { x: f.x, byte: f.nn },
        0x8 => match f.n {
            0x0 => Instruction::Move { x: f.x, y: f.y },
            0x1 => Instruction::Or { x: f.x, y: f.y },
            0x2 => Instruction::And { x: f.x, y: f.y },
            0x3 => Instruction::Xor { x: f.x, y: f.y },
            0x4 => Instruction::Add { x: f.x, y: f.y },
            0x5 => Instruction::Sub { x: f.x, y: f.y },
            0x6 => Instruction::ShiftRight { x: f.x, y: f.y },
            0x7 => Instruction::SubReversed { x: f.x, y: f.y },
            0xE => Instruction::ShiftLeft { x: f.x, y: f.y },
            _ => Instruction::UnusedSubOpcode,
        },
        0x9 => match f.n {
            0x0 => Instruction::SkipIfNotEqual { x: f.x, y: f.y },
            _ => Instruction::UnusedSubOpcode,
        },
        0xA => Instruction::LoadIndex { addr: f.nnn },
        0xB => Instruction::JumpOffset { addr: f.nnn },
        0xC => Instruction::Random { x: f.x, mask: f.nn },
        0xD => Instruction::Draw { x: f.x, y: f.y, rows: f.n },
        0xE => match f.nn {
            0x9E => Instruction::SkipIfKey { x: f.x },
            0xA1 => Instruction::SkipIfNotKey { x: f.x },
            _ => Instruction::UnusedSubOpcode,
        },
        0xF => match f.nn {
            0x07 => Instruction::ReadDelay { x: f.x },
            0x0A => Instruction::WaitKey { x: f.x },
            0x15 => Instruction::SetDelay { x: f.x },
            0x18 => Instruction::SetSound { x: f.x },
            0x1E => Instruction::AddIndex { x: f.x },
            0x29 => Instruction::Glyph { x: f.x },
            0x33 => Instruction::StoreBcd { x: f.x },
            0x55 => Instruction::StoreRegisters { x: f.x },
            0x65 => Instruction::LoadRegisters { x: f.x },
            _ => Instruction::UnusedSubOpcode,
        },
        _ => Instruction::UnknownFamily,
    }
}

/// Decodes one instruction word. Every word decodes; a word that encodes no
/// instruction gives [`Instruction::UnusedSubOpcode`], and since a word has
/// only sixteen families, never [`Instruction::UnknownFamily`].
pub fn decode(word: u16) -> (instruction: Instruction)
    ensures
        instruction == decoded(word),
        instruction.operands_in_range(),
        !(instruction is UnknownFamily),
{
    classify(split(word))
}

} // verus!
