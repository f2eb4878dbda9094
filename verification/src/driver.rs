//! The fetch-execute driver: fetches the word at the program counter,
//! runs its transition, advances the counter, and repeats until the machine
//! halts or the cycle budget is spent.

use crate::cpu::CPU;
use crate::instruction::{assemble, assemble_spec, decode, decode_spec, Instruction};
use crate::laws::law_flow_and_counter;
use crate::machine::{step, transition, wrap16, ExecutorError, Flow, Machine, Outcome};
use crate::random::random_byte;
use vstd::prelude::*;

verus! {

/// Why a run stopped without an error.
#[derive(Clone, Copy, Debug, PartialEq, Eq, Structural)]
pub enum Halt {
    /// The counter left the byte store: no whole instruction lies at it.
    EndOfMemory,
    /// The machine waits for a key press.
    WaitingForKey,
    /// The cycle budget is spent.
    OutOfCycles,
}

/// Whether a whole instruction lies at the program counter: both of its
/// bytes are inside the byte store.
pub open spec fn can_fetch(s: Machine) -> bool {
    s.pc < 0xFFF
}

/// The instruction word at the program counter, high byte first.
pub open spec fn fetch_spec(s: Machine) -> u16 {
    assemble_spec(s.memory[s.pc as int], s.memory[s.pc + 1])
}

/// Whether the driver runs a cycle on this machine: it waits for no key and
/// can fetch.
pub open spec fn ready(s: Machine) -> bool {
    s.waiting is None && can_fetch(s)
}

/// The machine once the driver has settled the program counter: advanced by
/// 2 where the opcode left it alone, untouched where the opcode set it or
/// the machine now waits.
pub open spec fn settle(out: Outcome) -> Machine {
    if out.flow is Next {
        Machine { pc: wrap16(out.state.pc + 2), ..out.state }
    } else {
        out.state
    }
}

/// One cycle on a ready machine: fetch, decode, execute, settle the
/// counter. `random` is the byte that `Cxkk` masks.
///
/// Opaque, to keep proofs about whole runs light: `reveal(cycle_spec)` where
/// its body is needed.
#[verifier::opaque]
pub open spec fn cycle_spec(s: Machine, random: u8) -> Result<Machine, ExecutorError> {
    match step(s, decode_spec(fetch_spec(s)), random) {
        Ok(out) => Ok(settle(out)),
        Err(e) => Err(e),
    }
}

/// Whether going from `before` to `after` with `result` is the transition
/// of `word`, whatever is left for the driver.
pub open spec fn executed(
    before: Machine,
    word: u16,
    random: u8,
    after: Machine,
    result: Result<(), ExecutorError>,
) -> bool {
    match step(before, decode_spec(word), random) {
        Ok(out) => result is Ok && after == out.state,
        Err(e) => result == Err::<(), ExecutorError>(e) && after == before,
    }
}

/// Whether going from `before` to `after` with `result` is one cycle.
pub open spec fn cycled(
    before: Machine,
    random: u8,
    after: Machine,
    result: Result<(), ExecutorError>,
) -> bool {
    match cycle_spec(before, random) {
        Ok(next) => result is Ok && after == next,
        Err(e) => result == Err::<(), ExecutorError>(e) && after == before,
    }
}

/// The machine after its first `cycles` cycles, with `randoms[j]` as the
/// random byte of cycle `j`.
pub open spec fn after_cycles(s: Machine, randoms: Seq<u8>, cycles: nat) -> Machine
    decreases cycles,
{
    if cycles == 0 {
        s
    } else {
        let previous = after_cycles(s, randoms, (cycles - 1) as nat);
        match cycle_spec(previous, randoms[cycles - 1]) {
            Ok(next) => next,
            Err(_) => previous,
        }
    }
}

/// Whether each of the first `cycles` cycles takes place and succeeds.
pub open spec fn runs(s: Machine, randoms: Seq<u8>, cycles: nat) -> bool {
    forall|j: nat|
        j < cycles ==> ready(#[trigger] after_cycles(s, randoms, j)) && cycle_spec(
            after_cycles(s, randoms, j),
            randoms[j as int],
        ) is Ok
}

/// Whether a run of at most `limit` cycles that starts at `start` may end
/// at `end` with `result`, after `cycles` cycles with the random bytes
/// `randoms`.
///
/// The run goes on while the machine is ready and budget is left. It stops
/// with `WaitingForKey` as soon as the machine waits, with `EndOfMemory` as
/// soon as the counter leaves the byte store, with `OutOfCycles` when `limit`
/// cycles are done, and with the error of the first cycle that fails, which
/// leaves the machine as it was before that cycle. Whether and how a cycle
/// fails never depends on the random byte, so the error is stated for the
/// byte 0.
pub open spec fn run_ends(
    start: Machine,
    randoms: Seq<u8>,
    cycles: nat,
    limit: nat,
    end: Machine,
    result: Result<Halt, ExecutorError>,
) -> bool {
    &&& cycles <= limit
    &&& randoms.len() == cycles
    &&& runs(start, randoms, cycles)
    &&& end == after_cycles(start, randoms, cycles)
    &&& match result {
        Ok(Halt::WaitingForKey) => end.waiting is Some,
        Ok(Halt::EndOfMemory) => end.waiting is None && !can_fetch(end),
        Ok(Halt::OutOfCycles) => ready(end) && cycles == limit,
        Err(e) => ready(end) && cycles < limit && cycle_spec(end, 0) == Err::<
            Machine,
            ExecutorError,
        >(e),
    }
}

/// The random byte matters to `Cxkk` alone, and never to whether a
/// transition fails or with which error.
pub proof fn lemma_random_only_for_cxkk(s: Machine, ins: Instruction, r1: u8, r2: u8)
    ensures
        ins.family != 0xC ==> step(s, ins, r1) == step(s, ins, r2),
        step(s, ins, r1) is Err ==> step(s, ins, r2) == step(s, ins, r1),
{
}

/// A cycle that fails with one random byte fails alike with every other.
pub proof fn lemma_cycle_error_any_random(s: Machine, r1: u8, r2: u8)
    ensures
        cycle_spec(s, r1) is Err ==> cycle_spec(s, r2) == cycle_spec(s, r1),
{
    reveal(cycle_spec);
    lemma_random_only_for_cxkk(s, decode_spec(fetch_spec(s)), r1, r2);
}

/// After a cycle the counter has advanced by exactly 2, unless the opcode
/// set it itself or the machine now waits for a key, and then the driver has
/// added nothing.
pub proof fn law_cycle_advances_by_two(s: Machine, random: u8)
    requires
        s.wf(),
        ready(s),
    ensures
        match step(s, decode_spec(fetch_spec(s)), random) {
            Ok(out) => cycle_spec(s, random) matches Ok(next) && match out.flow {
                Flow::Next => next == (Machine { pc: (s.pc + 2) as u16, ..out.state })
                    && next.pc == s.pc + 2,
                Flow::Jump => next == out.state,
                Flow::Wait => next == out.state && next.pc == s.pc,
            },
            Err(e) => cycle_spec(s, random) == Err::<Machine, ExecutorError>(e),
        },
{
    reveal(cycle_spec);
    law_flow_and_counter(s, decode_spec(fetch_spec(s)), random);
}

/// The first `cycles` cycles read only the first `cycles` random bytes.
pub proof fn lemma_after_cycles_prefix(s: Machine, r1: Seq<u8>, r2: Seq<u8>, cycles: nat)
    requires
        cycles <= r1.len(),
        cycles <= r2.len(),
        forall|j: int| 0 <= j < cycles ==> r1[j] == r2[j],
    ensures
        after_cycles(s, r1, cycles) == after_cycles(s, r2, cycles),
    decreases cycles,
{
    if cycles > 0 {
        lemma_after_cycles_prefix(s, r1, r2, (cycles - 1) as nat);
    }
}

impl CPU {
    /// The instruction word at the program counter, or `None` where the
    /// counter is too close to the end of the byte store for a whole word.
    pub fn fetch(&self) -> (word: Option<u16>)
        ensures
            can_fetch(self@) ==> word == Some(fetch_spec(self@)),
            !can_fetch(self@) ==> word is None,
            self@.wf(),
    {
        let pc: u16 = self.pc();
        if pc < 0xFFF {
            let high: u8 = self.read_memory(pc);
            let low: u8 = self.read_memory(pc + 1);
            Some(assemble(high, low))
        } else {
            None
        }
    }

    /// Decodes `word`, draws the random byte where the instruction is
    /// `Cxkk`, and runs the transition.
    fn run_word(&mut self, word: u16) -> (result: Result<Flow, ExecutorError>)
        ensures
            exists|random: u8|
                transition(old(self)@, decode_spec(word), random, final(self)@, result),
            decode_spec(word).family != 0xC ==> transition(
                old(self)@,
                decode_spec(word),
                0,
                final(self)@,
                result,
            ),
            final(self)@.wf(),
    {
        let ins = decode(word);
        let random: u8 = if ins.family == 0xC {
            random_byte()
        } else {
            0
        };
        self.execute_instruction(ins, random)
    }

    /// Executes one instruction word: decodes it and applies its transition
    /// to the machine. The program counter is set where the opcode sets it
    /// (jump, call, return, taken skip) and is otherwise left to the driver.
    ///
    /// For every word but `Cxkk` the outcome is that of `step` with any
    /// random byte; for `Cxkk` it is that of `step` with the byte that was
    /// drawn. A failed instruction leaves the machine as it was. The word is
    /// executed also while the machine waits for a key: only the driver
    /// honours the wait.
    pub fn parse_instruction(&mut self, instruction: u16) -> (result: Result<(), ExecutorError>)
        ensures
            exists|random: u8|
                executed(old(self)@, instruction, random, final(self)@, result),
            decode_spec(instruction).family != 0xC ==> executed(
                old(self)@,
                instruction,
                0,
                final(self)@,
                result,
            ),
            final(self)@.wf(),
    {
        let ran: Result<Flow, ExecutorError> = self.run_word(instruction);
        proof {
            let random = choose|random: u8|
                transition(old(self)@, decode_spec(instruction), random, self@, ran);
            assert(executed(
                old(self)@,
                instruction,
                random,
                self@,
                match ran {
                    Ok(_) => Ok(()),
                    Err(e) => Err(e),
                },
            ));
        }
        match ran {
            Ok(_) => Ok(()),
            Err(e) => Err(e),
        }
    }

    /// One turn of the fetch-execute cycle on a ready machine.
    fn cycle(&mut self) -> (result: Result<(), ExecutorError>)
        requires
            ready(old(self)@),
        ensures
            exists|random: u8| cycled(old(self)@, random, final(self)@, result),
            final(self)@.wf(),
    {
        let word: u16 = match self.fetch() {
            Some(word) => word,
            None => 0,
        };
        let ran: Result<Flow, ExecutorError> = self.run_word(word);
        let ghost random = choose|random: u8|
            transition(old(self)@, decode_spec(word), random, self@, ran);
        proof {
            reveal(cycle_spec);
        }
        match ran {
            Ok(Flow::Next) => {
                self.advance();
                assert(cycled(old(self)@, random, self@, Ok(())));
                Ok(())
            },
            Ok(_) => {
                assert(cycled(old(self)@, random, self@, Ok(())));
                Ok(())
            },
            Err(e) => {
                assert(cycled(old(self)@, random, self@, Err(e)));
                Err(e)
            },
        }
    }

    /// Runs the fetch-execute cycle for at most `max_cycles` cycles.
    ///
    /// Before each cycle the driver stops with `WaitingForKey` if the
    /// machine waits for a key, with `EndOfMemory` if no whole instruction
    /// lies at the counter, and with `OutOfCycles` if the budget is spent.
    /// A cycle that fails ends the run with its error and leaves the machine
    /// as it was before that cycle.
    ///
    /// The machine ends where `cycles` cycles lead from where it started,
    /// for the random bytes that were drawn on the way.
    pub fn execute(&mut self, max_cycles: u32) -> (result: Result<Halt, ExecutorError>)
        ensures
            exists|randoms: Seq<u8>, cycles: nat|
                run_ends(old(self)@, randoms, cycles, max_cycles as nat, final(self)@, result),
            final(self)@.wf(),
    {
        let ghost start = self@;
        let ghost mut randoms: Seq<u8> = Seq::empty();
        let mut done: u32 = 0;
        loop
            invariant
                start == old(self)@,
                done <= max_cycles,
                randoms.len() == done,
                runs(start, randoms, done as nat),
                self@ == after_cycles(start, randoms, done as nat),
            decreases max_cycles - done,
        {
            if self.waiting_for_key().is_some() {
                assert(run_ends(
                    start,
                    randoms,
                    done as nat,
                    max_cycles as nat,
                    self@,
                    Ok(Halt::WaitingForKey),
                ));
                return Ok(Halt::WaitingForKey);
            }
            if self.pc() >= 0xFFF {
                assert(run_ends(
                    start,
                    randoms,
                    done as nat,
                    max_cycles as nat,
                    self@,
                    Ok(Halt::EndOfMemory),
                ));
                return Ok(Halt::EndOfMemory);
            }
            if done >= max_cycles {
                assert(run_ends(
                    start,
                    randoms,
                    done as nat,
                    max_cycles as nat,
                    self@,
                    Ok(Halt::OutOfCycles),
                ));
                return Ok(Halt::OutOfCycles);
            }
            let ghost before = self@;
            let ran: Result<(), ExecutorError> = self.cycle();
            let ghost random = choose|random: u8| cycled(before, random, self@, ran);
            match ran {
                Err(e) => {
                    proof {
                        lemma_cycle_error_any_random(before, random, 0);
                        assert(cycle_spec(before, 0) == Err::<Machine, ExecutorError>(e));
                        assert(run_ends(
                            start,
                            randoms,
                            done as nat,
                            max_cycles as nat,
                            self@,
                            Err(e),
                        ));
                    }
                    return Err(e);
                },
                Ok(_) => {
                    proof {
                        let longer = randoms.push(random);
                        assert forall|j: nat| j <= done implies #[trigger] after_cycles(
                            start,
                            longer,
                            j,
                        ) == after_cycles(start, randoms, j) by {
                            lemma_after_cycles_prefix(start, longer, randoms, j);
                        }
                        assert(after_cycles(start, longer, done as nat) == before);
                        assert(longer[done as int] == random);
                        assert(cycle_spec(before, random) == Ok::<Machine, ExecutorError>(self@));
                        assert(after_cycles(start, longer, (done + 1) as nat) == self@);
                        assert forall|j: nat| j < done + 1 implies ready(
                            #[trigger] after_cycles(start, longer, j),
                        ) && cycle_spec(after_cycles(start, longer, j), longer[j as int]) is Ok by {
                            if j < done {
                                assert(ready(after_cycles(start, randoms, j)));
                            }
                        }
                        randoms = longer;
                    }
                    done = done + 1;
                },
            }
        }
    }
}

} // verus!
