//! The processor: the machine state in executable form, what the host may
//! read and do between cycles, and the opcode executor.

use crate::instruction::Instruction;
use crate::machine::{
    alu_spec, blank_pixels, flag, key_pressed, key_released, loaded_registers, realizes,
    row_collides, row_covers, sprite_bit, step, step_alu, step_call, step_draw, step_keys,
    step_misc, step_system, stored_registers, timers_ticked, transition, wrap16, ExecutorError,
    Flow, Machine,
};
use crate::memory::Memory;
use vstd::prelude::*;

verus! {

/// A CHIP-8 machine. Its mathematical value is `self@`, a [`Machine`], and
/// that value is always well formed: the contracts of this type speak of
/// nothing else.
pub struct CPU {
    memory: Memory,
    vram: [[bool; 64]; 32],
    vram_flag: bool,
    register: [u8; 16],
    pc: u16,
    i: u16,
    stack: [u16; 16],
    delay_timer: u8,
    sound_timer: u8,
    sp: u8,
    keypad: [bool; 16],
    keypad_wait: bool,
    k_v: u8,
}

impl View for CPU {
    type V = Machine;

    closed spec fn view(&self) -> Machine {
        Machine {
            memory: self.memory@,
            pixels: Seq::new(32, |y: int| self.vram@[y]@),
            dirty: self.vram_flag,
            registers: self.register@,
            pc: self.pc,
            index: self.i,
            stack: self.stack@.take(self.sp as int),
            delay_timer: self.delay_timer,
            sound_timer: self.sound_timer,
            keys: self.keypad@,
            waiting: if self.keypad_wait {
                Some(self.k_v)
            } else {
                None
            },
        }
    }
}

impl CPU {
    /// The stack pointer never exceeds the sixteen slots, and the register
    /// that a key wait targets exists.
    #[verifier::type_invariant]
    spec fn inv(&self) -> bool {
        &&& self.sp <= 16
        &&& self.k_v < 16
    }

    /// The view of a machine that satisfies the type invariant is well
    /// formed.
    proof fn lemma_view_wf(&self)
        requires
            self.inv(),
        ensures
            self@.wf(),
    {
        self.memory.lemma_len();
    }

    /// A machine at power-on.
    pub fn new() -> (cpu: Self)
        ensures
            cpu@ == Machine::initial(),
            cpu@.wf(),
    {
        let cpu = CPU {
            memory: Memory::new(),
            vram: [[false; 64]; 32],
            vram_flag: false,
            register: [0u8; 16],
            pc: 0x200,
            i: 0,
            stack: [0u16; 16],
            delay_timer: 0,
            sound_timer: 0,
            sp: 0,
            keypad: [false; 16],
            keypad_wait: false,
            k_v: 0,
        };
        assert(cpu@ =~~= Machine::initial());
        cpu
    }
}

impl CPU {
    /// The program counter.
    pub fn pc(&self) -> (pc: u16)
        ensures
            pc == self@.pc,
            self@.wf(),
    {
        proof {
            use_type_invariant(self);
            self.lemma_view_wf();
        }
        self.pc
    }

    /// The index register I.
    pub fn index(&self) -> (index: u16)
        ensures
            index == self@.index,
            self@.wf(),
    {
        proof {
            use_type_invariant(self);
            self.lemma_view_wf();
        }
        self.i
    }

    /// Register V`index`.
    pub fn register(&self, index: u8) -> (value: u8)
        requires
            index < 16,
        ensures
            value == self@.registers[index as int],
            self@.wf(),
    {
        proof {
            use_type_invariant(self);
            self.lemma_view_wf();
        }
        self.register[index as usize]
    }

    /// The stack pointer: the number of calls in progress, at most 16.
    pub fn stack_pointer(&self) -> (sp: u8)
        ensures
            sp == self@.stack.len(),
            sp <= 16,
            self@.wf(),
    {
        proof {
            use_type_invariant(self);
            self.lemma_view_wf();
        }
        self.sp
    }

    /// The delay timer.
    pub fn delay_timer(&self) -> (timer: u8)
        ensures
            timer == self@.delay_timer,
            self@.wf(),
    {
        proof {
            use_type_invariant(self);
            self.lemma_view_wf();
        }
        self.delay_timer
    }

    /// The sound timer: the audio driver sounds the buzzer while it is not
    /// zero.
    pub fn sound_timer(&self) -> (timer: u8)
        ensures
            timer == self@.sound_timer,
            self@.wf(),
    {
        proof {
            use_type_invariant(self);
            self.lemma_view_wf();
        }
        self.sound_timer
    }

    /// Whether the pixel in column `x` of row `y` is on.
    pub fn pixel(&self, x: u8, y: u8) -> (on: bool)
        requires
            x < 64,
            y < 32,
        ensures
            on == self@.pixels[y as int][x as int],
            self@.wf(),
    {
        proof {
            use_type_invariant(self);
            self.lemma_view_wf();
        }
        self.vram[y as usize][x as usize]
    }

    /// Whether the framebuffer was redrawn since the flag was last cleared.
    pub fn is_dirty(&self) -> (dirty: bool)
        ensures
            dirty == self@.dirty,
            self@.wf(),
    {
        proof {
            use_type_invariant(self);
            self.lemma_view_wf();
        }
        self.vram_flag
    }

    /// Whether `key` is held down.
    pub fn is_key_down(&self, key: u8) -> (down: bool)
        requires
            key < 16,
        ensures
            down == self@.keys[key as int],
            self@.wf(),
    {
        proof {
            use_type_invariant(self);
            self.lemma_view_wf();
        }
        self.keypad[key as usize]
    }

    /// The register that awaits a key, while the machine waits for one.
    pub fn waiting_for_key(&self) -> (waiting: Option<u8>)
        ensures
            waiting == self@.waiting,
            self@.wf(),
    {
        proof {
            use_type_invariant(self);
            self.lemma_view_wf();
        }
        if self.keypad_wait {
            Some(self.k_v)
        } else {
            None
        }
    }

    /// The byte at `address` of the byte store.
    pub fn read_memory(&self, address: u16) -> (byte: u8)
        requires
            address < 4096,
        ensures
            byte == self@.memory[address as int],
            self@.wf(),
    {
        proof {
            use_type_invariant(self);
            self.lemma_view_wf();
        }
        self.memory.read(address)
    }
}

impl CPU {
    /// Stores `data` at `address` of the byte store; nothing else changes.
    pub fn write_memory(&mut self, address: u16, data: u8)
        requires
            address < 4096,
        ensures
            final(self)@ == (Machine {
                memory: old(self)@.memory.update(address as int, data),
                ..old(self)@
            }),
            final(self)@.wf(),
    {
        proof {
            use_type_invariant(&*self);
        }
        self.memory.write(address, data);
        proof {
            self.lemma_view_wf();
        }
    }

    /// For the renderer: the framebuffer has been shown.
    pub fn clear_dirty(&mut self)
        ensures
            final(self)@ == (Machine { dirty: false, ..old(self)@ }),
            final(self)@.wf(),
    {
        proof {
            use_type_invariant(&*self);
        }
        self.vram_flag = false;
        proof {
            self.lemma_view_wf();
        }
    }

    /// For the timer driver: one tick of the 60 Hz clock. Each timer that is
    /// not zero goes down by one.
    pub fn tick_timers(&mut self)
        ensures
            final(self)@ == timers_ticked(old(self)@),
            final(self)@.wf(),
    {
        proof {
            use_type_invariant(&*self);
        }
        if self.delay_timer > 0 {
            self.delay_timer = self.delay_timer - 1;
        }
        if self.sound_timer > 0 {
            self.sound_timer = self.sound_timer - 1;
        }
        proof {
            self.lemma_view_wf();
        }
    }

    /// For the keypad driver: `key` went down. A machine that waited for a
    /// key takes this one and resumes after the instruction that waited.
    pub fn press_key(&mut self, key: u8)
        requires
            key < 16,
        ensures
            final(self)@ == key_pressed(old(self)@, key),
            final(self)@.wf(),
    {
        proof {
            use_type_invariant(&*self);
        }
        self.keypad[key as usize] = true;
        if self.keypad_wait {
            self.register[self.k_v as usize] = key;
            self.keypad_wait = false;
            self.pc = self.pc.wrapping_add(2);
        }
        proof {
            self.lemma_view_wf();
        }
    }

    /// For the keypad driver: `key` went up.
    pub fn release_key(&mut self, key: u8)
        requires
            key < 16,
        ensures
            final(self)@ == key_released(old(self)@, key),
            final(self)@.wf(),
    {
        proof {
            use_type_invariant(&*self);
        }
        self.keypad[key as usize] = false;
        proof {
            self.lemma_view_wf();
        }
    }

    /// The driver's default advance: the counter moves to the next
    /// instruction.
    pub(crate) fn advance(&mut self)
        ensures
            final(self)@ == (Machine { pc: wrap16(old(self)@.pc + 2), ..old(self)@ }),
            final(self)@.wf(),
    {
        proof {
            use_type_invariant(&*self);
        }
        self.pc = self.pc.wrapping_add(2);
        proof {
            self.lemma_view_wf();
        }
    }
}

impl CPU {
    /// The opcode executor: applies the transition of one decoded
    /// instruction. `random` is the byte that `Cxkk` masks.
    ///
    /// On success the machine is `step(..)`'s new state and the flow tells
    /// the driver what to do with the program counter; on failure the
    /// machine is unchanged.
    pub fn execute_instruction(&mut self, ins: Instruction, random: u8) -> (result: Result<
        Flow,
        ExecutorError,
    >)
        ensures
            transition(old(self)@, ins, random, final(self)@, result),
            final(self)@.wf(),
    {
        proof {
            use_type_invariant(&*self);
            self.lemma_view_wf();
        }
        if ins.family > 0xF {
            return Err(ExecutorError::InvalidOpcode);
        }
        if !ins.has_operands_in_range() {
            return Err(ExecutorError::InvalidOperand);
        }
        let result: Result<Flow, ExecutorError> = if ins.family == 0x0 {
            self.execute_system(ins)
        } else if ins.family == 0x1 {
            Ok(self.jump_to(ins.nnn))
        } else if ins.family == 0x2 {
            self.execute_call(ins)
        } else if ins.family == 0x8 {
            self.execute_alu(ins)
        } else if ins.family == 0xD {
            self.execute_draw(ins)
        } else if ins.family == 0xE {
            self.execute_keys(ins)
        } else if ins.family == 0xF {
            self.execute_misc(ins)
        } else {
            self.execute_plain(ins, random)
        };
        proof {
            use_type_invariant(&*self);
            self.lemma_view_wf();
        }
        result
    }

    /// The families that compare or set registers, I and the counter without
    /// further cases: `3` to `7`, `9`, `A`, `B` and `C`.
    fn execute_plain(&mut self, ins: Instruction, random: u8) -> (result: Result<
        Flow,
        ExecutorError,
    >)
        requires
            ins.operands_in_range(),
            3 <= ins.family <= 7 || ins.family == 9 || 0xA <= ins.family <= 0xC,
        ensures
            realizes(step(old(self)@, ins, random), old(self)@, final(self)@, result),
    {
        proof {
            use_type_invariant(&*self);
        }
        let vx: u8 = self.register[ins.x as usize];
        let vy: u8 = self.register[ins.y as usize];
        if ins.family == 0x3 {
            Ok(self.skip_if(vx == ins.kk))
        } else if ins.family == 0x4 {
            Ok(self.skip_if(vx != ins.kk))
        } else if ins.family == 0x5 {
            if ins.n != 0 {
                Err(ExecutorError::InvalidOperand)
            } else {
                Ok(self.skip_if(vx == vy))
            }
        } else if ins.family == 0x6 {
            self.set_register(ins.x, ins.kk);
            Ok(Flow::Next)
        } else if ins.family == 0x7 {
            self.set_register(ins.x, vx.wrapping_add(ins.kk));
            Ok(Flow::Next)
        } else if ins.family == 0x9 {
            if ins.n != 0 {
                Err(ExecutorError::InvalidOperand)
            } else {
                Ok(self.skip_if(vx != vy))
            }
        } else if ins.family == 0xA {
            self.i = ins.nnn;
            Ok(Flow::Next)
        } else if ins.family == 0xB {
            let v0: u8 = self.register[0];
            Ok(self.jump_to(ins.nnn.wrapping_add(v0 as u16)))
        } else {
            self.set_register(ins.x, random & ins.kk);
            Ok(Flow::Next)
        }
    }

    /// Sets register `x` to `value`.
    fn set_register(&mut self, x: u8, value: u8)
        requires
            x < 16,
        ensures
            final(self)@ == old(self)@.with_reg(x, value),
    {
        proof {
            use_type_invariant(&*self);
        }
        self.register[x as usize] = value;
    }

    /// Sets register `x` to `value`, then VF to the flag of `f`.
    fn set_flagged(&mut self, x: u8, value: u8, f: bool)
        requires
            x < 16,
        ensures
            final(self)@ == old(self)@.with_flagged(x, value, f),
    {
        proof {
            use_type_invariant(&*self);
        }
        self.register[x as usize] = value;
        self.register[15] = if f {
            1
        } else {
            0
        };
    }

    /// Sets the program counter to `target`.
    fn jump_to(&mut self, target: u16) -> (flow: Flow)
        ensures
            realizes(old(self)@.jump(target), old(self)@, final(self)@, Ok(flow)),
    {
        proof {
            use_type_invariant(&*self);
        }
        self.pc = target;
        Flow::Jump
    }

    /// Moves the program counter past the next instruction where `taken`.
    fn skip_if(&mut self, taken: bool) -> (flow: Flow)
        ensures
            realizes(old(self)@.skip_if(taken), old(self)@, final(self)@, Ok(flow)),
    {
        if taken {
            let target: u16 = self.pc.wrapping_add(4);
            self.jump_to(target)
        } else {
            Flow::Next
        }
    }

    /// Family `0`: clear the framebuffer, or return from a call.
    fn execute_system(&mut self, ins: Instruction) -> (result: Result<Flow, ExecutorError>)
        ensures
            realizes(step_system(old(self)@, ins), old(self)@, final(self)@, result),
    {
        proof {
            use_type_invariant(&*self);
        }
        if ins.nnn == 0x0E0 {
            self.vram = [[false; 64]; 32];
            self.vram_flag = true;
            assert(self@ =~~= (Machine {
                pixels: blank_pixels(),
                dirty: true,
                ..old(self)@
            }));
            Ok(Flow::Next)
        } else if ins.nnn == 0x0EE {
            if self.sp == 0 {
                Err(ExecutorError::StackUnderflow)
            } else {
                self.sp = self.sp - 1;
                let address: u16 = self.stack[self.sp as usize];
                self.pc = address;
                assert(self@ =~~= (Machine {
                    pc: old(self)@.stack.last(),
                    stack: old(self)@.stack.drop_last(),
                    ..old(self)@
                }));
                Ok(Flow::Jump)
            }
        } else {
            Err(ExecutorError::InvalidOperand)
        }
    }

    /// Family `2`: call the subroutine at `nnn`.
    fn execute_call(&mut self, ins: Instruction) -> (result: Result<Flow, ExecutorError>)
        ensures
            realizes(step_call(old(self)@, ins), old(self)@, final(self)@, result),
    {
        proof {
            use_type_invariant(&*self);
        }
        if self.sp >= 16 {
            Err(ExecutorError::StackOverflow)
        } else {
            let return_address: u16 = self.pc.wrapping_add(2);
            self.stack[self.sp as usize] = return_address;
            self.sp = self.sp + 1;
            self.pc = ins.nnn;
            assert(self@ =~~= (Machine {
                pc: ins.nnn,
                stack: old(self)@.stack.push(wrap16(old(self)@.pc + 2)),
                ..old(self)@
            }));
            Ok(Flow::Jump)
        }
    }

    /// The value and flag of an operation of family `8`.
    fn alu(n: u8, vx: u8, vy: u8) -> (computed: Option<(u8, Option<bool>)>)
        ensures
            computed == alu_spec(n, vx, vy),
    {
        if n == 0x0 {
            Some((vy, None))
        } else if n == 0x1 {
            Some((vx | vy, None))
        } else if n == 0x2 {
            Some((vx & vy, None))
        } else if n == 0x3 {
            Some((vx ^ vy, None))
        } else if n == 0x4 {
            Some((vx.wrapping_add(vy), Some(vx as u16 + vy as u16 > 0xFF)))
        } else if n == 0x5 {
            Some((vx.wrapping_sub(vy), Some(vx >= vy)))
        } else if n == 0x6 {
            assert(vy >> 1 == vy / 2) by (bit_vector);
            assert((vy & 1 == 1) == (vy % 2 == 1)) by (bit_vector);
            Some((vy >> 1, Some(vy & 1 == 1)))
        } else if n == 0x7 {
            Some((vy.wrapping_sub(vx), Some(vy >= vx)))
        } else if n == 0xE {
            assert(vy << 1 == (vy * 2) % 0x100) by (bit_vector);
            assert((vy & 0x80 != 0) == (vy >= 0x80)) by (bit_vector);
            Some((vy << 1, Some(vy & 0x80 != 0)))
        } else {
            None
        }
    }

    /// Family `8`: arithmetic and logic between two registers.
    fn execute_alu(&mut self, ins: Instruction) -> (result: Result<Flow, ExecutorError>)
        requires
            ins.operands_in_range(),
        ensures
            realizes(step_alu(old(self)@, ins), old(self)@, final(self)@, result),
    {
        let vx: u8 = self.register[ins.x as usize];
        let vy: u8 = self.register[ins.y as usize];
        match Self::alu(ins.n, vx, vy) {
            Some((value, Some(f))) => {
                self.set_flagged(ins.x, value, f);
                Ok(Flow::Next)
            },
            Some((value, None)) => {
                self.set_register(ins.x, value);
                Ok(Flow::Next)
            },
            None => Err(ExecutorError::InvalidOperand),
        }
    }

    /// Family `E`: skip on the state of key Vx.
    fn execute_keys(&mut self, ins: Instruction) -> (result: Result<Flow, ExecutorError>)
        requires
            ins.operands_in_range(),
        ensures
            realizes(step_keys(old(self)@, ins), old(self)@, final(self)@, result),
    {
        let key: u8 = self.register[ins.x as usize];
        if ins.kk != 0x9E && ins.kk != 0xA1 {
            Err(ExecutorError::InvalidOperand)
        } else if key >= 16 {
            Err(ExecutorError::OutOfRange)
        } else {
            let pressed: bool = self.keypad[key as usize];
            if ins.kk == 0x9E {
                Ok(self.skip_if(pressed))
            } else {
                Ok(self.skip_if(!pressed))
            }
        }
    }

    /// `Fx33`: the three decimal digits of `value` at I, I+1 and I+2.
    fn store_digits(&mut self, value: u8)
        requires
            old(self)@.index + 2 < 4096,
        ensures
            final(self)@ == (Machine {
                memory: old(self)@.memory.update(old(self)@.index as int, value / 100).update(
                    old(self)@.index + 1,
                    (value / 10) % 10,
                ).update(old(self)@.index + 2, value % 10),
                ..old(self)@
            }),
    {
        proof {
            use_type_invariant(&*self);
        }
        let base: u16 = self.i;
        self.memory.write(base, value / 100);
        self.memory.write(base + 1, (value / 10) % 10);
        self.memory.write(base + 2, value % 10);
    }

    /// `Fx55`: V0 to Vx into the byte store from I onward.
    fn store_registers(&mut self, x: u8)
        requires
            x < 16,
            old(self)@.index + x < 4096,
        ensures
            final(self)@ == (Machine { memory: stored_registers(old(self)@, x), ..old(self)@ }),
    {
        proof {
            use_type_invariant(&*self);
            self.memory.lemma_len();
        }
        let base: u16 = self.i;
        let mut k: u8 = 0;
        while k <= x
            invariant
                x < 16,
                k <= x + 1,
                base + x < 4096,
                base == old(self)@.index,
                self@.memory.len() == 4096,
                self@ == (Machine { memory: self@.memory, ..old(self)@ }),
                forall|a: int|
                    0 <= a < 4096 ==> self@.memory[a] == (if base <= a < base + k {
                        old(self)@.registers[a - base]
                    } else {
                        old(self)@.memory[a]
                    }),
            decreases x + 1 - k,
        {
            proof {
                use_type_invariant(&*self);
            }
            let value: u8 = self.register[k as usize];
            self.memory.write(base + k as u16, value);
            k = k + 1;
        }
    }

    /// `Fx65`: V0 to Vx from the byte store from I onward.
    fn load_registers(&mut self, x: u8)
        requires
            x < 16,
            old(self)@.index + x < 4096,
        ensures
            final(self)@ == (Machine { registers: loaded_registers(old(self)@, x), ..old(self)@ }),
    {
        proof {
            use_type_invariant(&*self);
            self.memory.lemma_len();
        }
        let base: u16 = self.i;
        let mut k: u8 = 0;
        while k <= x
            invariant
                x < 16,
                k <= x + 1,
                base + x < 4096,
                base == old(self)@.index,
                self@ == (Machine { registers: self@.registers, ..old(self)@ }),
                forall|r: int|
                    0 <= r < 16 ==> self@.registers[r] == (if r < k {
                        old(self)@.memory[base + r]
                    } else {
                        old(self)@.registers[r]
                    }),
            decreases x + 1 - k,
        {
            proof {
                use_type_invariant(&*self);
            }
            let value: u8 = self.memory.read(base + k as u16);
            self.register[k as usize] = value;
            k = k + 1;
        }
    }

    /// Family `F`: timers, the key wait and the operations on I.
    fn execute_misc(&mut self, ins: Instruction) -> (result: Result<Flow, ExecutorError>)
        requires
            ins.operands_in_range(),
        ensures
            realizes(step_misc(old(self)@, ins), old(self)@, final(self)@, result),
    {
        proof {
            use_type_invariant(&*self);
        }
        let vx: u8 = self.register[ins.x as usize];
        if ins.kk == 0x07 {
            let timer: u8 = self.delay_timer;
            self.set_register(ins.x, timer);
        } else if ins.kk == 0x0A {
            self.keypad_wait = true;
            self.k_v = ins.x;
            return Ok(Flow::Wait);
        } else if ins.kk == 0x15 {
            self.delay_timer = vx;
        } else if ins.kk == 0x18 {
            self.sound_timer = vx;
        } else if ins.kk == 0x1E {
            self.i = self.i.wrapping_add(vx as u16);
        } else if ins.kk == 0x29 {
            self.i = vx as u16 * 5;
        } else if ins.kk == 0x33 {
            if self.i >= 4094 {
                return Err(ExecutorError::OutOfRange);
            }
            self.store_digits(vx);
        } else if ins.kk == 0x55 {
            if self.i as u32 + ins.x as u32 >= 4096 {
                return Err(ExecutorError::OutOfRange);
            }
            self.store_registers(ins.x);
        } else if ins.kk == 0x65 {
            if self.i as u32 + ins.x as u32 >= 4096 {
                return Err(ExecutorError::OutOfRange);
            }
            self.load_registers(ins.x);
        } else {
            return Err(ExecutorError::InvalidOperand);
        }
        Ok(Flow::Next)
    }

    /// Draws the eight bits of `byte` onto row `py`, from column `x0` on and
    /// wrapping at 64. Tells whether a pixel went from on to off.
    fn draw_row(&mut self, byte: u8, x0: u8, py: u8) -> (hit: bool)
        requires
            x0 < 64,
            py < 32,
        ensures
            final(self)@ == (Machine { pixels: final(self)@.pixels, ..old(self)@ }),
            final(self)@.pixels.len() == 32,
            forall|y: int|
                0 <= y < 32 && y != py ==> final(self)@.pixels[y] == old(self)@.pixels[y],
            final(self)@.pixels[py as int].len() == 64,
            forall|x: int|
                0 <= x < 64 ==> final(self)@.pixels[py as int][x] == (old(self)@.pixels[py as int][x]
                    != row_covers(byte, x0 as int, x, 8)),
            hit == row_collides(old(self)@.pixels[py as int], byte, x0 as int, 8),
    {
        proof {
            use_type_invariant(&*self);
        }
        let mut hit: bool = false;
        let mut column: u8 = 0;
        while column < 8
            invariant
                x0 < 64,
                py < 32,
                column <= 8,
                self@ == (Machine { pixels: self@.pixels, ..old(self)@ }),
                self@.pixels.len() == 32,
                forall|y: int| 0 <= y < 32 && y != py ==> self@.pixels[y] == old(self)@.pixels[y],
                self@.pixels[py as int].len() == 64,
                forall|x: int|
                    0 <= x < 64 ==> self@.pixels[py as int][x] == (old(self)@.pixels[py as int][x]
                        != row_covers(byte, x0 as int, x, column as int)),
                hit == row_collides(old(self)@.pixels[py as int], byte, x0 as int, column as int),
            decreases 8 - column,
        {
            proof {
                use_type_invariant(&*self);
            }
            let px: u8 = (x0 + column) % 64;
            let lit: bool = byte & (0x80u8 >> column) != 0;
            let current: bool = self.vram[py as usize][px as usize];
            let ghost row = old(self)@.pixels[py as int];
            let ghost before = self@;
            let ghost hit_before = hit;
            assert(lit == sprite_bit(byte, column as int));
            assert((px - x0) % 64 == column);
            assert(!row_covers(byte, x0 as int, px as int, column as int));
            assert(current == before.pixels[py as int][px as int]);
            assert(current == row[px as int]);
            assert forall|x: int| 0 <= x < 64 implies row_covers(byte, x0 as int, x, column + 1)
                == (row_covers(byte, x0 as int, x, column as int) || (x == px && lit)) by {
                if x != px {
                    assert((x - x0) % 64 != column);
                }
            }
            if lit {
                if current {
                    hit = true;
                }
                self.vram[py as usize][px as usize] = !current;
            }
            proof {
                assert(self@.pixels[py as int] =~= (if lit {
                    before.pixels[py as int].update(px as int, !current)
                } else {
                    before.pixels[py as int]
                }));
                assert forall|x: int| 0 <= x < 64 implies self@.pixels[py as int][x] == (row[x]
                    != row_covers(byte, x0 as int, x, column + 1)) by {
                    assert(before.pixels[py as int][x] == (row[x] != row_covers(
                        byte,
                        x0 as int,
                        x,
                        column as int,
                    )));
                }
                assert forall|y: int| 0 <= y < 32 && y != py implies self@.pixels[y]
                    == old(self)@.pixels[y] by {
                    assert(self@.pixels[y] == before.pixels[y]);
                }
                assert(hit == (hit_before || (lit && current)));
                if row_collides(row, byte, x0 as int, column + 1) {
                    let x = choose|x: int|
                        0 <= x < 64 && row[x] && #[trigger] row_covers(
                            byte,
                            x0 as int,
                            x,
                            column + 1,
                        );
                    if x != px {
                        assert(row_covers(byte, x0 as int, x, column as int));
                        assert(row_collides(row, byte, x0 as int, column as int));
                    }
                    assert(hit);
                }
                if hit {
                    if hit_before {
                        let x = choose|x: int|
                            0 <= x < 64 && row[x] && #[trigger] row_covers(
                                byte,
                                x0 as int,
                                x,
                                column as int,
                            );
                        assert(row_covers(byte, x0 as int, x, column + 1));
                    } else {
                        assert(row[px as int]);
                        assert(row_covers(byte, x0 as int, px as int, column + 1));
                    }
                    assert(row_collides(row, byte, x0 as int, column + 1));
                }
            }
            column = column + 1;
        }
        hit
    }

    /// Draws the sprite of `rows` bytes at I with its corner at (`x0`,
    /// `y0`), wrapping at the edges. Tells whether a pixel went from on to
    /// off.
    fn draw_sprite(&mut self, rows: u8, x0: u8, y0: u8) -> (collision: bool)
        requires
            rows < 16,
            x0 < 64,
            y0 < 32,
            old(self)@.index + rows <= 4096,
        ensures
            final(self)@ == (Machine {
                pixels: old(self)@.drawn_pixels(rows as int, x0 as int, y0 as int),
                ..old(self)@
            }),
            collision == old(self)@.sprite_collides(rows as int, x0 as int, y0 as int),
    {
        proof {
            use_type_invariant(&*self);
            self.lemma_view_wf();
        }
        let ghost start = self@;
        let base: u16 = self.i;
        let mut collision: bool = false;
        let mut row: u8 = 0;
        while row < rows
            invariant
                rows < 16,
                x0 < 64,
                y0 < 32,
                row <= rows,
                base == start.index,
                base + rows <= 4096,
                start == old(self)@,
                start.wf(),
                self@ == (Machine { pixels: self@.pixels, ..start }),
                self@.pixels.len() == 32,
                forall|y: int| 0 <= y < 32 ==> (#[trigger] self@.pixels[y]).len() == 64,
                forall|x: int, y: int|
                    0 <= x < 64 && 0 <= y < 32 ==> self@.pixels[y][x] == (start.pixels[y][x]
                        != #[trigger] start.sprite_covers(row as int, x0 as int, y0 as int, x, y)),
                collision == start.sprite_collides(row as int, x0 as int, y0 as int),
            decreases rows - row,
        {
            proof {
                use_type_invariant(&*self);
            }
            let byte: u8 = self.memory.read(base + row as u16);
            let py: u8 = (y0 + row) % 32;
            let ghost before = self@;
            let ghost collision_before = collision;
            assert((py - y0) % 32 == row);
            assert forall|x: int| 0 <= x < 64 implies before.pixels[py as int][x]
                == start.pixels[py as int][x] by {
                assert(!start.sprite_covers(row as int, x0 as int, y0 as int, x, py as int));
            }
            assert(before.pixels[py as int] =~= start.pixels[py as int]);
            let hit: bool = self.draw_row(byte, x0, py);
            if hit {
                collision = true;
            }
            proof {
                assert forall|x: int, y: int| 0 <= x < 64 && 0 <= y < 32 implies (
                #[trigger] start.sprite_covers(row + 1, x0 as int, y0 as int, x, y)) == (
                start.sprite_covers(row as int, x0 as int, y0 as int, x, y) || (y == py
                    && row_covers(byte, x0 as int, x, 8))) by {
                    if y != py {
                        assert((y - y0) % 32 != row);
                    }
                }
                assert forall|x: int, y: int| 0 <= x < 64 && 0 <= y < 32 implies self@.pixels[y][x]
                    == (start.pixels[y][x] != #[trigger] start.sprite_covers(
                    row + 1,
                    x0 as int,
                    y0 as int,
                    x,
                    y,
                )) by {
                    assert(before.pixels[y][x] == (start.pixels[y][x] != start.sprite_covers(
                        row as int,
                        x0 as int,
                        y0 as int,
                        x,
                        y,
                    )));
                    if y != py {
                        assert(self@.pixels[y] == before.pixels[y]);
                    }
                }
                assert forall|y: int| 0 <= y < 32 implies (#[trigger] self@.pixels[y]).len()
                    == 64 by {
                    if y != py {
                        assert(self@.pixels[y] == before.pixels[y]);
                    }
                }
                assert(collision == (collision_before || hit));
                if start.sprite_collides(row + 1, x0 as int, y0 as int) {
                    let (x, y) = choose|x: int, y: int|
                        0 <= x < 64 && 0 <= y < 32 && start.pixels[y][x]
                            && #[trigger] start.sprite_covers(row + 1, x0 as int, y0 as int, x, y);
                    if start.sprite_covers(row as int, x0 as int, y0 as int, x, y) {
                        assert(collision_before);
                    } else {
                        assert(y == py);
                        assert(row_covers(byte, x0 as int, x, 8));
                        assert(row_collides(start.pixels[py as int], byte, x0 as int, 8));
                    }
                    assert(collision);
                }
                if collision {
                    if collision_before {
                        let (x, y) = choose|x: int, y: int|
                            0 <= x < 64 && 0 <= y < 32 && start.pixels[y][x]
                                && #[trigger] start.sprite_covers(
                                row as int,
                                x0 as int,
                                y0 as int,
                                x,
                                y,
                            );
                        assert(start.sprite_covers(row + 1, x0 as int, y0 as int, x, y));
                    } else {
                        let x = choose|x: int|
                            0 <= x < 64 && start.pixels[py as int][x] && #[trigger] row_covers(
                                byte,
                                x0 as int,
                                x,
                                8,
                            );
                        assert(start.sprite_covers(row + 1, x0 as int, y0 as int, x, py as int));
                    }
                    assert(start.sprite_collides(row + 1, x0 as int, y0 as int));
                }
            }
            row = row + 1;
        }
        assert(self@.pixels =~~= start.drawn_pixels(rows as int, x0 as int, y0 as int));
        collision
    }

    /// Family `D`: draw a sprite and report the collision in VF.
    fn execute_draw(&mut self, ins: Instruction) -> (result: Result<Flow, ExecutorError>)
        requires
            ins.operands_in_range(),
        ensures
            realizes(step_draw(old(self)@, ins), old(self)@, final(self)@, result),
    {
        proof {
            use_type_invariant(&*self);
        }
        if self.i as u32 + ins.n as u32 > 4096 {
            return Err(ExecutorError::OutOfRange);
        }
        let x0: u8 = self.register[ins.x as usize] % 64;
        let y0: u8 = self.register[ins.y as usize] % 32;
        let collision: bool = self.draw_sprite(ins.n, x0, y0);
        proof {
            use_type_invariant(&*self);
        }
        self.register[15] = if collision {
            1
        } else {
            0
        };
        self.vram_flag = true;
        Ok(Flow::Next)
    }
}

} // verus!
