//! Laws of the transition function, proved for every machine and every
//! instruction of the stated form.

use crate::instruction::{decode_spec, Instruction};
use crate::machine::{flag, step, wrap16, ExecutorError, Flow, Machine, Outcome};
use vstd::prelude::*;

verus! {

/// The machine after the transition of `ins`: the new state, or the old one
/// where the transition fails.
pub open spec fn after(s: Machine, ins: Instruction, random: u8) -> Machine {
    match step(s, ins, random) {
        Ok(out) => out.state,
        Err(_) => s,
    }
}

/// `6xkk` always succeeds, and Vx then reads `kk`.
pub proof fn law_load_constant(s: Machine, ins: Instruction, random: u8)
    requires
        s.wf(),
        ins.operands_in_range(),
        ins.family == 0x6,
    ensures
        step(s, ins, random) is Ok,
        after(s, ins, random).reg(ins.x) == ins.kk,
        after(s, ins, random) == s.with_reg(ins.x, ins.kk),
{
}

/// `8xy4` always succeeds; VF is then 1 if and only if Vx + Vy exceeded
/// 255, and Vx holds the sum modulo 256. Where x is F the flag, written
/// last, stands in VF instead of the sum.
pub proof fn law_add_sets_carry(s: Machine, ins: Instruction, random: u8)
    requires
        s.wf(),
        ins.operands_in_range(),
        ins.family == 0x8,
        ins.n == 0x4,
    ensures
        step(s, ins, random) is Ok,
        after(s, ins, random).reg(0xF) == 1 <==> s.reg(ins.x) + s.reg(ins.y) > 255,
        after(s, ins, random).reg(0xF) == 0 <==> s.reg(ins.x) + s.reg(ins.y) <= 255,
        ins.x != 0xF ==> after(s, ins, random).reg(ins.x) == (s.reg(ins.x) + s.reg(ins.y)) % 256,
{
}

/// `8xy5` always succeeds, also where Vy exceeds Vx; VF is then 1 if and
/// only if Vx was at least Vy, and Vx holds the difference modulo 256.
/// Where x is F the flag, written last, stands in VF instead of the
/// difference.
pub proof fn law_subtract_sets_no_borrow(s: Machine, ins: Instruction, random: u8)
    requires
        s.wf(),
        ins.operands_in_range(),
        ins.family == 0x8,
        ins.n == 0x5,
    ensures
        step(s, ins, random) is Ok,
        after(s, ins, random).reg(0xF) == 1 <==> s.reg(ins.x) >= s.reg(ins.y),
        after(s, ins, random).reg(0xF) == 0 <==> s.reg(ins.x) < s.reg(ins.y),
        ins.x != 0xF ==> after(s, ins, random).reg(ins.x) == (s.reg(ins.x) - s.reg(ins.y)) % 256,
{
}

/// A call followed by a return: with fewer than sixteen calls in progress
/// both succeed, the counter ends on the instruction after the call, and
/// the stack, and with it the stack pointer, is as before the call. Nothing
/// else has changed either, and both flows tell the driver to add nothing.
pub proof fn law_call_then_return(
    s: Machine,
    call: Instruction,
    ret: Instruction,
    r1: u8,
    r2: u8,
)
    requires
        s.wf(),
        s.sp() < 16,
        call.operands_in_range(),
        call.family == 0x2,
        ret.operands_in_range(),
        ret.family == 0x0,
        ret.nnn == 0x0EE,
    ensures
        step(s, call, r1) matches Ok(called) && called.flow == Flow::Jump && called.state.pc
            == call.nnn && called.state.sp() == s.sp() + 1,
        step(after(s, call, r1), ret, r2) matches Ok(returned) && returned.flow == Flow::Jump,
        after(after(s, call, r1), ret, r2).pc == wrap16(s.pc + 2),
        after(after(s, call, r1), ret, r2).sp() == s.sp(),
        after(after(s, call, r1), ret, r2) == (Machine { pc: wrap16(s.pc + 2), ..s }),
{
}

/// A call fails with `StackOverflow` exactly where sixteen calls are in
/// progress, and a return fails with `StackUnderflow` exactly where none is.
pub proof fn law_stack_limits(s: Machine, call: Instruction, ret: Instruction, random: u8)
    requires
        s.wf(),
        call.operands_in_range(),
        call.family == 0x2,
        ret.operands_in_range(),
        ret.family == 0x0,
        ret.nnn == 0x0EE,
    ensures
        s.sp() == 16 <==> step(s, call, random) == Err::<Outcome, ExecutorError>(
            ExecutorError::StackOverflow,
        ),
        s.sp() < 16 <==> step(s, call, random) is Ok,
        s.sp() == 0 <==> step(s, ret, random) == Err::<Outcome, ExecutorError>(
            ExecutorError::StackUnderflow,
        ),
        s.sp() > 0 <==> step(s, ret, random) is Ok,
{
}

/// `Fx55` followed by `Fx65` with the same x and I: the registers are again
/// what they were before the store, and neither instruction changes I. This
/// holds whether the two succeed or, with I too close to the end of the
/// byte store, both fail.
pub proof fn law_store_then_load(
    s: Machine,
    store: Instruction,
    load: Instruction,
    r1: u8,
    r2: u8,
)
    requires
        s.wf(),
        store.operands_in_range(),
        store.family == 0xF,
        store.kk == 0x55,
        load.operands_in_range(),
        load.family == 0xF,
        load.kk == 0x65,
        load.x == store.x,
    ensures
        after(s, store, r1).registers == s.registers,
        after(s, store, r1).index == s.index,
        after(after(s, store, r1), load, r2).registers == s.registers,
        after(after(s, store, r1), load, r2).index == s.index,
        s.index + store.x < 4096 <==> step(s, store, r1) is Ok,
        s.index + store.x < 4096 <==> step(after(s, store, r1), load, r2) is Ok,
{
}

/// Drawing the same sprite twice at the same place restores the
/// framebuffer, and the second draw reports a collision exactly where the
/// sprite has a set bit on a pixel that was off before the first draw. The
/// position registers must not be VF, which the first draw overwrites.
pub proof fn law_draw_twice(s: Machine, ins: Instruction, r1: u8, r2: u8)
    requires
        s.wf(),
        ins.operands_in_range(),
        ins.family == 0xD,
        ins.x != 0xF,
        ins.y != 0xF,
        s.index + ins.n <= 4096,
    ensures
        step(s, ins, r1) is Ok,
        step(after(s, ins, r1), ins, r2) is Ok,
        after(after(s, ins, r1), ins, r2).pixels == s.pixels,
        after(after(s, ins, r1), ins, r2).reg(0xF) == flag(
            exists|x: int, y: int|
                0 <= x < 64 && 0 <= y < 32 && !s.pixels[y][x] && #[trigger] s.sprite_covers(
                    ins.n as int,
                    (s.reg(ins.x) % 64) as int,
                    (s.reg(ins.y) % 32) as int,
                    x,
                    y,
                ),
        ),
{
    let x0 = (s.reg(ins.x) % 64) as int;
    let y0 = (s.reg(ins.y) % 32) as int;
    let n = ins.n as int;
    let once = after(s, ins, r1);
    let twice = after(once, ins, r2);
    assert forall|x: int, y: int| 0 <= x < 64 && 0 <= y < 32 implies once.sprite_covers(
        n,
        x0,
        y0,
        x,
        y,
    ) == s.sprite_covers(n, x0, y0, x, y) by {}
    assert(twice.pixels =~~= s.pixels);
    let turned_on = exists|x: int, y: int|
        0 <= x < 64 && 0 <= y < 32 && !s.pixels[y][x] && #[trigger] s.sprite_covers(
            n,
            x0,
            y0,
            x,
            y,
        );
    if once.sprite_collides(n, x0, y0) {
        let (x, y) = choose|x: int, y: int|
            0 <= x < 64 && 0 <= y < 32 && once.pixels[y][x] && #[trigger] once.sprite_covers(
                n,
                x0,
                y0,
                x,
                y,
            );
        assert(s.sprite_covers(n, x0, y0, x, y));
        assert(!s.pixels[y][x]);
        assert(turned_on);
    }
    if turned_on {
        let (x, y) = choose|x: int, y: int|
            0 <= x < 64 && 0 <= y < 32 && !s.pixels[y][x] && #[trigger] s.sprite_covers(
                n,
                x0,
                y0,
                x,
                y,
            );
        assert(once.sprite_covers(n, x0, y0, x, y));
        assert(once.pixels[y][x]);
        assert(once.sprite_collides(n, x0, y0));
    }
}

/// Every transition keeps the machine well formed: in particular the stack
/// pointer stays within 0 and 16 in every state that the executor reaches.
pub proof fn law_transition_keeps_wf(s: Machine, ins: Instruction, random: u8)
    requires
        s.wf(),
    ensures
        after(s, ins, random).wf(),
{
}

/// A failed transition is one of the five errors for a stated reason, and
/// a transition of a decoded word never fails with `InvalidOpcode`: every
/// top nibble is a family.
pub proof fn law_decoded_family_is_known(s: Machine, word: u16, random: u8)
    ensures
        step(s, decode_spec(word), random) != Err::<Outcome, ExecutorError>(
            ExecutorError::InvalidOpcode,
        ),
{
}

/// What the flow says of the program counter: `Next` and `Wait` leave it
/// where it was, and only `Wait` makes the machine wait for a key.
pub proof fn law_flow_and_counter(s: Machine, ins: Instruction, random: u8)
    requires
        s.wf(),
    ensures
        step(s, ins, random) matches Ok(out) ==> {
            &&& out.flow != Flow::Jump ==> out.state.pc == s.pc
            &&& out.flow == Flow::Wait <==> ins.family == 0xF && ins.kk == 0x0A
            &&& out.flow == Flow::Wait ==> out.state.waiting == Some(ins.x)
            &&& out.flow != Flow::Wait ==> out.state.waiting == s.waiting
        },
{
}

/// A conditional skip either leaves the counter alone, for the driver to
/// advance it by 2, or moves it by 4, past the next instruction, and
/// changes nothing else.
pub proof fn law_skip_moves_by_four(s: Machine, ins: Instruction, random: u8)
    requires
        s.wf(),
        ins.family == 0x3 || ins.family == 0x4 || ins.family == 0x5 || ins.family == 0x9
            || ins.family == 0xE,
    ensures
        step(s, ins, random) matches Ok(out) ==> {
            ||| out.flow == Flow::Next && out.state == s
            ||| out.flow == Flow::Jump && out.state == (Machine { pc: wrap16(s.pc + 4), ..s })
        },
{
}

/// No instruction touches the timers but `Fx15` and `Fx18`, and none clears
/// the dirty flag: the core never counts a timer down on its own.
pub proof fn law_timers_and_dirty_flag(s: Machine, ins: Instruction, random: u8)
    requires
        s.wf(),
    ensures
        !(ins.family == 0xF && ins.kk == 0x15) ==> after(s, ins, random).delay_timer
            == s.delay_timer,
        !(ins.family == 0xF && ins.kk == 0x18) ==> after(s, ins, random).sound_timer
            == s.sound_timer,
        s.dirty ==> after(s, ins, random).dirty,
        after(s, ins, random).keys == s.keys,
{
}

} // verus!
