//! A CHIP-8 interpreter core: byte store, instruction decoder, opcode
//! executor and fetch-execute driver, with machine-checked contracts.
//!
//! The machine is a [`cpu::CPU`]. Its mathematical value is a
//! [`machine::Machine`], and what one instruction does to it is the function
//! [`machine::step`]; every contract of the executor and of the driver is
//! stated over these two.
//!
//! Conventions that the contracts fix:
//!
//! - A transition reports a [`machine::Flow`]. The driver advances the
//!   program counter by 2 after a transition that left the counter alone, and
//!   adds nothing after a jump, a call, a return or a taken skip. A taken skip
//!   therefore moves the counter by 4 itself, and a call pushes the address of
//!   the instruction that follows it, so that a return lands there.
//! - The program counter and the index register are 16-bit registers: sums
//!   on them wrap at 65536. `Fx1E` sets no flag.
//! - An opcode that defines a flag writes VF last.
//! - A failed instruction changes nothing. The byte store is never indexed
//!   outside its 4096 bytes, nor the keypad outside its 16 keys: an opcode
//!   that would do so fails with `OutOfRange`.
//! - The host owns time and input: it runs [`cpu::CPU::execute`] with a cycle
//!   budget, ticks the timers, delivers key events and clears the dirty flag
//!   once it has shown the framebuffer.

pub mod cpu;
pub mod driver;
pub mod instruction;
pub mod laws;
pub mod machine;
pub mod memory;
mod random;
