//! The machine model: the state that one instruction transforms, and the
//! transition itself as a mathematical function of state, decoded
//! instruction and random byte.

use crate::instruction::Instruction;
use vstd::prelude::*;

verus! {

/// Why a transition did not take place. A failed transition changes nothing.
#[derive(Clone, Copy, Debug, PartialEq, Eq, Structural)]
pub enum ExecutorError {
    /// A call with sixteen frames already on the stack.
    StackOverflow,
    /// A return with no frame on the stack.
    StackUnderflow,
    /// The family is none of the sixteen.
    InvalidOpcode,
    /// The operand fields name no operation of the family.
    InvalidOperand,
    /// An index that the opcode computes lies outside the byte store or the
    /// keypad.
    OutOfRange,
}

/// What a transition leaves for the driver to do with the program counter.
#[derive(Clone, Copy, Debug, PartialEq, Eq, Structural)]
pub enum Flow {
    /// The opcode left the counter alone: the driver advances it by 2.
    Next,
    /// The opcode set the counter itself (jump, call, return, taken skip):
    /// the driver adds nothing.
    Jump,
    /// The machine now waits for a key: the counter stays where it is.
    Wait,
}

/// The whole machine as plain mathematical values.
#[verifier::ext_equal]
pub struct Machine {
    /// The byte store, 4096 bytes.
    pub memory: Seq<u8>,
    /// The framebuffer: `pixels[y][x]`, 32 rows of 64 pixels.
    pub pixels: Seq<Seq<bool>>,
    /// Set whenever the framebuffer was redrawn; cleared by the renderer.
    pub dirty: bool,
    /// The registers V0 to VF.
    pub registers: Seq<u8>,
    /// The program counter.
    pub pc: u16,
    /// The index register I.
    pub index: u16,
    /// The return addresses of the calls in progress, oldest first; its
    /// length is the stack pointer.
    pub stack: Seq<u16>,
    /// The delay timer.
    pub delay_timer: u8,
    /// The sound timer.
    pub sound_timer: u8,
    /// Which of the sixteen keys are held down.
    pub keys: Seq<bool>,
    /// The register that the next key press goes to, while the machine
    /// waits for a key.
    pub waiting: Option<u8>,
}

/// A machine after a transition, with what the driver still owes the
/// program counter.
pub struct Outcome {
    /// The machine after the transition.
    pub state: Machine,
    /// What is left for the driver.
    pub flow: Flow,
}

/// `v` reduced to sixteen bits.
pub open spec fn wrap16(v: int) -> u16 {
    (v % 0x1_0000) as u16
}

/// `v` reduced to eight bits.
pub open spec fn wrap8(v: int) -> u8 {
    (v % 0x100) as u8
}

/// The blank framebuffer.
pub open spec fn blank_pixels() -> Seq<Seq<bool>> {
    Seq::new(32, |y: int| Seq::new(64, |x: int| false))
}

/// The flag value of a condition.
pub open spec fn flag(b: bool) -> u8 {
    if b {
        1
    } else {
        0
    }
}

/// Whether bit `column` of `byte`, counted from the most significant bit, is
/// set.
pub open spec fn sprite_bit(byte: u8, column: int) -> bool {
    byte & (0x80u8 >> (column as u8)) != 0
}

impl Machine {
    /// Every component has the size that the machine gives it.
    pub open spec fn wf(self) -> bool {
        &&& self.memory.len() == 4096
        &&& self.pixels.len() == 32
        &&& forall|y: int| 0 <= y < 32 ==> (#[trigger] self.pixels[y]).len() == 64
        &&& self.registers.len() == 16
        &&& self.stack.len() <= 16
        &&& self.keys.len() == 16
        &&& (self.waiting matches Some(x) ==> x < 16)
    }

    /// The machine at power-on: counter at `0x200`, everything else zero,
    /// blank and idle.
    pub open spec fn initial() -> Machine {
        Machine {
            memory: Seq::new(4096, |a: int| 0u8),
            pixels: blank_pixels(),
            dirty: false,
            registers: Seq::new(16, |i: int| 0u8),
            pc: 0x200,
            index: 0,
            stack: Seq::empty(),
            delay_timer: 0,
            sound_timer: 0,
            keys: Seq::new(16, |k: int| false),
            waiting: None,
        }
    }

    /// Register `i`.
    pub open spec fn reg(self, i: u8) -> u8 {
        self.registers[i as int]
    }

    /// The stack pointer: the number of calls in progress.
    pub open spec fn sp(self) -> nat {
        self.stack.len()
    }

    /// This machine with register `i` set to `v`.
    pub open spec fn with_reg(self, i: u8, v: u8) -> Machine {
        Machine { registers: self.registers.update(i as int, v), ..self }
    }

    /// This machine with register `i` set to `v` and then VF set to the
    /// flag of `f`: the flag is written last, so it wins where `i` is VF.
    pub open spec fn with_flagged(self, i: u8, v: u8, f: bool) -> Machine {
        Machine { registers: self.registers.update(i as int, v).update(0xF, flag(f)), ..self }
    }

    /// The transition that changes the state to `self` and leaves the
    /// counter to the driver.
    pub open spec fn next(self) -> Result<Outcome, ExecutorError> {
        Ok(Outcome { state: self, flow: Flow::Next })
    }

    /// The transition that sets the counter to `target`.
    pub open spec fn jump(self, target: u16) -> Result<Outcome, ExecutorError> {
        Ok(Outcome { state: Machine { pc: target, ..self }, flow: Flow::Jump })
    }

    /// A conditional skip: where `taken`, the counter moves past this
    /// instruction and the next one, by 4 in all.
    pub open spec fn skip_if(self, taken: bool) -> Result<Outcome, ExecutorError> {
        if taken {
            self.jump(wrap16(self.pc + 4))
        } else {
            self.next()
        }
    }

    /// Whether a sprite read from I onward and drawn with its top left
    /// corner at (`x0`, `y0`) has, among its first `rows` bytes, a set bit on
    /// pixel (`x`, `y`). Columns wrap at 64 and rows at 32.
    pub open spec fn sprite_covers(self, rows: int, x0: int, y0: int, x: int, y: int) -> bool {
        let row = (y - y0) % 32;
        row < rows && row_covers(self.memory[self.index + row], x0, x, 8)
    }

    /// Whether drawing that sprite turns off a pixel that was on.
    pub open spec fn sprite_collides(self, rows: int, x0: int, y0: int) -> bool {
        exists|x: int, y: int|
            0 <= x < 64 && 0 <= y < 32 && self.pixels[y][x] && #[trigger] self.sprite_covers(
                rows,
                x0,
                y0,
                x,
                y,
            )
    }

    /// The framebuffer after drawing that sprite: each pixel under a set bit
    /// is inverted.
    pub open spec fn drawn_pixels(self, rows: int, x0: int, y0: int) -> Seq<Seq<bool>> {
        Seq::new(
            32,
            |y: int|
                Seq::new(64, |x: int| self.pixels[y][x] != self.sprite_covers(rows, x0, y0, x, y)),
        )
    }
}

/// Whether the sprite row `byte`, drawn from column `x0` on, has among its
/// first `columns` bits a set bit on column `x`.
pub open spec fn row_covers(byte: u8, x0: int, x: int, columns: int) -> bool {
    let column = (x - x0) % 64;
    column < columns && sprite_bit(byte, column)
}

/// Whether drawing the first `columns` bits of the sprite row `byte` from
/// column `x0` on turns off a pixel of `row` that was on.
pub open spec fn row_collides(row: Seq<bool>, byte: u8, x0: int, columns: int) -> bool {
    exists|x: int| 0 <= x < 64 && row[x] && #[trigger] row_covers(byte, x0, x, columns)
}

/// Family `0`: `00E0` clears the framebuffer, `00EE` returns from a call.
pub open spec fn step_system(s: Machine, ins: Instruction) -> Result<Outcome, ExecutorError> {
    if ins.nnn == 0x0E0 {
        Machine { pixels: blank_pixels(), dirty: true, ..s }.next()
    } else if ins.nnn == 0x0EE {
        if s.stack.len() == 0 {
            Err(ExecutorError::StackUnderflow)
        } else {
            Machine { stack: s.stack.drop_last(), ..s }.jump(s.stack.last())
        }
    } else {
        Err(ExecutorError::InvalidOperand)
    }
}

/// Family `2`: a call pushes the return address, which is the address of
/// the instruction after the call, and jumps to `nnn`.
pub open spec fn step_call(s: Machine, ins: Instruction) -> Result<Outcome, ExecutorError> {
    if s.stack.len() >= 16 {
        Err(ExecutorError::StackOverflow)
    } else {
        Machine { stack: s.stack.push(wrap16(s.pc + 2)), ..s }.jump(ins.nnn)
    }
}

/// What an operation of family `8` computes from Vx and Vy: the new Vx
/// and, where the operation defines one, the flag for VF. `None` where `n`
/// names no operation.
///
/// The shifts take Vy as their source. A subtraction that would go below
/// zero wraps and clears the flag.
pub open spec fn alu_spec(n: u8, vx: u8, vy: u8) -> Option<(u8, Option<bool>)> {
    if n == 0x0 {
        Some((vy, None))
    } else if n == 0x1 {
        Some((vx | vy, None))
    } else if n == 0x2 {
        Some((vx & vy, None))
    } else if n == 0x3 {
        Some((vx ^ vy, None))
    } else if n == 0x4 {
        Some((wrap8(vx + vy), Some(vx + vy > 255)))
    } else if n == 0x5 {
        Some((wrap8(vx - vy), Some(vx >= vy)))
    } else if n == 0x6 {
        Some((vy / 2, Some(vy % 2 == 1)))
    } else if n == 0x7 {
        Some((wrap8(vy - vx), Some(vy >= vx)))
    } else if n == 0xE {
        Some((wrap8(vy * 2), Some(vy >= 0x80)))
    } else {
        None
    }
}

/// Family `8`: register-to-register arithmetic and logic. An operation
/// that defines a flag writes VF after the result.
pub open spec fn step_alu(s: Machine, ins: Instruction) -> Result<Outcome, ExecutorError> {
    match alu_spec(ins.n, s.reg(ins.x), s.reg(ins.y)) {
        Some((value, Some(f))) => s.with_flagged(ins.x, value, f).next(),
        Some((value, None)) => s.with_reg(ins.x, value).next(),
        None => Err(ExecutorError::InvalidOperand),
    }
}

/// Family `D`: draws the sprite of `n` bytes at I with its corner at
/// (Vx mod 64, Vy mod 32), sets VF to the collision flag and marks the
/// framebuffer dirty. The sprite must lie inside the byte store.
pub open spec fn step_draw(s: Machine, ins: Instruction) -> Result<Outcome, ExecutorError> {
    let x0 = s.reg(ins.x) % 64;
    let y0 = s.reg(ins.y) % 32;
    if s.index + ins.n > 4096 {
        Err(ExecutorError::OutOfRange)
    } else {
        Machine {
            pixels: s.drawn_pixels(ins.n as int, x0 as int, y0 as int),
            dirty: true,
            registers: s.registers.update(
                0xF,
                flag(s.sprite_collides(ins.n as int, x0 as int, y0 as int)),
            ),
            ..s
        }.next()
    }
}

/// Family `E`: skips on the state of key Vx. A sub-opcode other than `9E`
/// and `A1` is refused first, then a key number above 15.
pub open spec fn step_keys(s: Machine, ins: Instruction) -> Result<Outcome, ExecutorError> {
    let key = s.reg(ins.x);
    if ins.kk != 0x9E && ins.kk != 0xA1 {
        Err(ExecutorError::InvalidOperand)
    } else if key >= 16 {
        Err(ExecutorError::OutOfRange)
    } else if ins.kk == 0x9E {
        s.skip_if(s.keys[key as int])
    } else {
        s.skip_if(!s.keys[key as int])
    }
}

/// The byte store after `Fx55`: V0 to Vx stored from I onward.
pub open spec fn stored_registers(s: Machine, x: u8) -> Seq<u8> {
    Seq::new(
        4096,
        |a: int|
            if s.index <= a <= s.index + x {
                s.registers[a - s.index]
            } else {
                s.memory[a]
            },
    )
}

/// The registers after `Fx65`: V0 to Vx loaded from I onward.
pub open spec fn loaded_registers(s: Machine, x: u8) -> Seq<u8> {
    Seq::new(
        16,
        |k: int|
            if k <= x {
                s.memory[s.index + k]
            } else {
                s.registers[k]
            },
    )
}

/// Family `F`: timers, the key wait, and the operations on I. None of them
/// touches VF, `Fx1E` included: its sum wraps at sixteen bits and sets no
/// flag. `Fx55` and `Fx65` leave I as it was.
pub open spec fn step_misc(s: Machine, ins: Instruction) -> Result<Outcome, ExecutorError> {
    let vx = s.reg(ins.x);
    if ins.kk == 0x07 {
        s.with_reg(ins.x, s.delay_timer).next()
    } else if ins.kk == 0x0A {
        Ok(Outcome { state: Machine { waiting: Some(ins.x), ..s }, flow: Flow::Wait })
    } else if ins.kk == 0x15 {
        Machine { delay_timer: vx, ..s }.next()
    } else if ins.kk == 0x18 {
        Machine { sound_timer: vx, ..s }.next()
    } else if ins.kk == 0x1E {
        Machine { index: wrap16(s.index + vx), ..s }.next()
    } else if ins.kk == 0x29 {
        Machine { index: (vx * 5) as u16, ..s }.next()
    } else if ins.kk == 0x33 {
        if s.index + 2 >= 4096 {
            Err(ExecutorError::OutOfRange)
        } else {
            Machine {
                memory: s.memory.update(s.index as int, vx / 100).update(
                    s.index + 1,
                    (vx / 10) % 10,
                ).update(s.index + 2, vx % 10),
                ..s
            }.next()
        }
    } else if ins.kk == 0x55 {
        if s.index + ins.x >= 4096 {
            Err(ExecutorError::OutOfRange)
        } else {
            Machine { memory: stored_registers(s, ins.x), ..s }.next()
        }
    } else if ins.kk == 0x65 {
        if s.index + ins.x >= 4096 {
            Err(ExecutorError::OutOfRange)
        } else {
            Machine { registers: loaded_registers(s, ins.x), ..s }.next()
        }
    } else {
        Err(ExecutorError::InvalidOperand)
    }
}

/// The transition of one decoded instruction. `random` is the byte that
/// `Cxkk` masks; no other opcode reads it.
///
/// A family above `F` is `InvalidOpcode`; operand fields out of range, or
/// fields that name no operation of the family, are `InvalidOperand`.
pub open spec fn step(s: Machine, ins: Instruction, random: u8) -> Result<Outcome, ExecutorError> {
    if ins.family > 0xF {
        Err(ExecutorError::InvalidOpcode)
    } else if !ins.operands_in_range() {
        Err(ExecutorError::InvalidOperand)
    } else if ins.family == 0x0 {
        step_system(s, ins)
    } else if ins.family == 0x1 {
        s.jump(ins.nnn)
    } else if ins.family == 0x2 {
        step_call(s, ins)
    } else if ins.family == 0x3 {
        s.skip_if(s.reg(ins.x) == ins.kk)
    } else if ins.family == 0x4 {
        s.skip_if(s.reg(ins.x) != ins.kk)
    } else if ins.family == 0x5 {
        if ins.n != 0 {
            Err(ExecutorError::InvalidOperand)
        } else {
            s.skip_if(s.reg(ins.x) == s.reg(ins.y))
        }
    } else if ins.family == 0x6 {
        s.with_reg(ins.x, ins.kk).next()
    } else if ins.family == 0x7 {
        s.with_reg(ins.x, wrap8(s.reg(ins.x) + ins.kk)).next()
    } else if ins.family == 0x8 {
        step_alu(s, ins)
    } else if ins.family == 0x9 {
        if ins.n != 0 {
            Err(ExecutorError::InvalidOperand)
        } else {
            s.skip_if(s.reg(ins.x) != s.reg(ins.y))
        }
    } else if ins.family == 0xA {
        Machine { index: ins.nnn, ..s }.next()
    } else if ins.family == 0xB {
        s.jump(wrap16(ins.nnn + s.reg(0)))
    } else if ins.family == 0xC {
        s.with_reg(ins.x, random & ins.kk).next()
    } else if ins.family == 0xD {
        step_draw(s, ins)
    } else if ins.family == 0xE {
        step_keys(s, ins)
    } else {
        step_misc(s, ins)
    }
}

/// Whether a machine that was `before` and is now `after`, with `result`
/// returned, has done what `expected` asks: on success the state is the new
/// one and the flow is reported, on failure nothing has changed.
pub open spec fn realizes(
    expected: Result<Outcome, ExecutorError>,
    before: Machine,
    after: Machine,
    result: Result<Flow, ExecutorError>,
) -> bool {
    match expected {
        Ok(out) => result == Ok::<Flow, ExecutorError>(out.flow) && after == out.state,
        Err(e) => result == Err::<Flow, ExecutorError>(e) && after == before,
    }
}

/// Whether going from `before` to `after` with `result` is the transition
/// of `ins` with the random byte `random`.
pub open spec fn transition(
    before: Machine,
    ins: Instruction,
    random: u8,
    after: Machine,
    result: Result<Flow, ExecutorError>,
) -> bool {
    realizes(step(before, ins, random), before, after, result)
}

/// The machine after a press of `key`: the key is held down, and a machine
/// that waited for a key stores the key in the awaited register, stops
/// waiting and moves on to the next instruction.
pub open spec fn key_pressed(s: Machine, key: u8) -> Machine {
    let held = Machine { keys: s.keys.update(key as int, true), ..s };
    match s.waiting {
        Some(x) => Machine {
            registers: s.registers.update(x as int, key),
            waiting: None,
            pc: wrap16(s.pc + 2),
            ..held
        },
        None => held,
    }
}

/// The machine after a release of `key`.
pub open spec fn key_released(s: Machine, key: u8) -> Machine {
    Machine { keys: s.keys.update(key as int, false), ..s }
}

/// A timer after one tick: one less, and never below zero.
pub open spec fn ticked(timer: u8) -> u8 {
    if timer > 0 {
        (timer - 1) as u8
    } else {
        0
    }
}

/// The machine after one tick of the 60 Hz clock.
pub open spec fn timers_ticked(s: Machine) -> Machine {
    Machine { delay_timer: ticked(s.delay_timer), sound_timer: ticked(s.sound_timer), ..s }
}

} // verus!
