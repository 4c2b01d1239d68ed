//! A CHIP-8 interpreter core.
//!
//! The crate holds the machine state, the instruction decoder, the executor
//! and the cycle driver of a CHIP-8 virtual machine. Rendering, keyboard
//! input, audio and reading a program from storage are left to the embedding
//! program, which talks to the interpreter through plain values: it hands in
//! the program bytes, the key table, a random byte and the time that has
//! passed, and reads the display and the sound timer.
//!
//! Every function is verified against a mathematical model of the machine.
//! [`machine::MachineState`] describes a machine as sequences and integers
//! and says what each instruction does to it; the executable [`chip::Chip`]
//! is proved to do exactly that; and [`laws`] proves what follows for every
//! program.
//!
//! * [`decode`]: from an instruction word to an instruction.
//! * [`alu`]: register arithmetic and its flags.
//! * [`display`]: the pixel buffer and sprite drawing.
//! * [`timer`]: the 60 Hz cadence of the two timers.
//! * [`font`]: the built-in hexadecimal font.
//! * [`fault`]: what stops the interpreter.
//! * [`machine`]: the model.
//! * [`chip`]: the interpreter.
//! * [`laws`]: laws of the machine.
pub mod alu;
pub mod chip;
pub mod decode;
pub mod display;
pub mod fault;
pub mod font;
pub mod laws;
pub mod machine;
pub mod timer;
