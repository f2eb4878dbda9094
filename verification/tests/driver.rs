use chip8::cpu::CPU;
use chip8::driver::Halt;
use chip8::machine::ExecutorError;

fn load(cpu: &mut CPU, at: u16, words: &[u16]) {
    let mut k: u16 = 0;
    while (k as usize) < words.len() {
        let word = words[k as usize];
        cpu.write_memory(at + 2 * k, (word >> 8) as u8);
        cpu.write_memory(at + 2 * k + 1, (word & 0xFF) as u8);
        k += 1;
    }
}

#[test]
fn fetch_reads_the_word_at_the_counter() {
    let mut cpu = CPU::new();
    cpu.write_memory(0x200, 0xA2);
    cpu.write_memory(0x201, 0x34);
    assert_eq!(cpu.fetch(), Some(0xA234));
}

#[test]
fn fetch_needs_both_bytes_inside_the_store() {
    let mut cpu = CPU::new();
    cpu.write_memory(0xFFE, 0x12);
    cpu.write_memory(0xFFF, 0x34);
    assert_eq!(cpu.parse_instruction(0x1FFE), Ok(()));
    assert_eq!(cpu.fetch(), Some(0x1234));
    assert_eq!(cpu.parse_instruction(0x1FFF), Ok(()));
    assert_eq!(cpu.fetch(), None);
}

#[test]
fn straight_line_code_advances_by_two() {
    let mut cpu = CPU::new();
    load(&mut cpu, 0x200, &[0x6005, 0x7003, 0x8100, 0xA123]);
    assert_eq!(cpu.execute(1), Ok(Halt::OutOfCycles));
    assert_eq!(cpu.pc(), 0x202);
    assert_eq!(cpu.register(0), 5);
    assert_eq!(cpu.execute(3), Ok(Halt::OutOfCycles));
    assert_eq!(cpu.pc(), 0x208);
    assert_eq!(cpu.register(0), 8);
    assert_eq!(cpu.register(1), 8);
    assert_eq!(cpu.index(), 0x123);
}

#[test]
fn zero_budget_runs_nothing() {
    let mut cpu = CPU::new();
    load(&mut cpu, 0x200, &[0x6005]);
    assert_eq!(cpu.execute(0), Ok(Halt::OutOfCycles));
    assert_eq!(cpu.pc(), 0x200);
    assert_eq!(cpu.register(0), 0);
}

#[test]
fn jump_is_not_advanced_past() {
    let mut cpu = CPU::new();
    load(&mut cpu, 0x200, &[0x1300]);
    load(&mut cpu, 0x300, &[0x6142]);
    assert_eq!(cpu.execute(1), Ok(Halt::OutOfCycles));
    assert_eq!(cpu.pc(), 0x300);
    assert_eq!(cpu.execute(1), Ok(Halt::OutOfCycles));
    assert_eq!(cpu.pc(), 0x302);
    assert_eq!(cpu.register(1), 0x42);
}

#[test]
fn jump_to_itself_stays_in_place() {
    let mut cpu = CPU::new();
    load(&mut cpu, 0x200, &[0x1200]);
    assert_eq!(cpu.execute(1000), Ok(Halt::OutOfCycles));
    assert_eq!(cpu.pc(), 0x200);
}

#[test]
fn taken_skip_passes_exactly_one_instruction() {
    let mut cpu = CPU::new();
    load(&mut cpu, 0x200, &[0x6007, 0x3007, 0x6101, 0x6201, 0x3008, 0x6301, 0x6401]);
    assert_eq!(cpu.execute(2), Ok(Halt::OutOfCycles));
    assert_eq!(cpu.pc(), 0x206);
    assert_eq!(cpu.execute(2), Ok(Halt::OutOfCycles));
    assert_eq!(cpu.pc(), 0x20A);
    assert_eq!(cpu.execute(2), Ok(Halt::OutOfCycles));
    assert_eq!(cpu.pc(), 0x20E);
    assert_eq!(cpu.register(1), 0);
    assert_eq!(cpu.register(2), 1);
    assert_eq!(cpu.register(3), 1);
    assert_eq!(cpu.register(4), 1);
}

#[test]
fn call_and_return_through_the_driver() {
    let mut cpu = CPU::new();
    load(&mut cpu, 0x200, &[0x2300, 0x6A01]);
    load(&mut cpu, 0x300, &[0x6B02, 0x00EE]);
    assert_eq!(cpu.execute(1), Ok(Halt::OutOfCycles));
    assert_eq!(cpu.pc(), 0x300);
    assert_eq!(cpu.stack_pointer(), 1);
    assert_eq!(cpu.execute(2), Ok(Halt::OutOfCycles));
    assert_eq!(cpu.pc(), 0x202);
    assert_eq!(cpu.stack_pointer(), 0);
    assert_eq!(cpu.execute(1), Ok(Halt::OutOfCycles));
    assert_eq!(cpu.pc(), 0x204);
    assert_eq!(cpu.register(0xA), 1);
    assert_eq!(cpu.register(0xB), 2);
}

#[test]
fn counter_stays_even_on_even_code() {
    let mut cpu = CPU::new();
    load(
        &mut cpu,
        0x200,
        &[0x6003, 0x2210, 0x7001, 0x3006, 0x1204, 0x120A, 0x0000, 0x0000, 0x70FF, 0x00EE],
    );
    let mut cycles: u32 = 0;
    while cycles < 40 {
        assert_eq!(cpu.execute(1), Ok(Halt::OutOfCycles));
        assert_eq!(cpu.pc() % 2, 0);
        cycles += 1;
    }
    assert_eq!(cpu.pc(), 0x20A);
    assert_eq!(cpu.register(0), 6);
}

#[test]
fn run_stops_at_the_end_of_memory() {
    let mut cpu = CPU::new();
    load(&mut cpu, 0x200, &[0x1FFC]);
    load(&mut cpu, 0xFFC, &[0x6011, 0x6122]);
    assert_eq!(cpu.execute(100), Ok(Halt::EndOfMemory));
    assert_eq!(cpu.pc(), 0x1000);
    assert_eq!(cpu.register(0), 0x11);
    assert_eq!(cpu.register(1), 0x22);
    assert_eq!(cpu.execute(100), Ok(Halt::EndOfMemory));
    assert_eq!(cpu.pc(), 0x1000);
}

#[test]
fn run_stops_where_only_one_byte_is_left() {
    let mut cpu = CPU::new();
    load(&mut cpu, 0x200, &[0x1FFF]);
    cpu.write_memory(0xFFF, 0x60);
    assert_eq!(cpu.execute(5), Ok(Halt::EndOfMemory));
    assert_eq!(cpu.pc(), 0xFFF);
}

#[test]
fn run_surfaces_the_error_and_leaves_the_machine() {
    let mut cpu = CPU::new();
    load(&mut cpu, 0x200, &[0x6109, 0x00EE, 0x6201]);
    assert_eq!(cpu.execute(10), Err(ExecutorError::StackUnderflow));
    assert_eq!(cpu.pc(), 0x202);
    assert_eq!(cpu.register(1), 9);
    assert_eq!(cpu.register(2), 0);
    assert_eq!(cpu.execute(10), Err(ExecutorError::StackUnderflow));
    assert_eq!(cpu.pc(), 0x202);
}

#[test]
fn run_on_blank_memory_is_invalid_operand() {
    let mut cpu = CPU::new();
    assert_eq!(cpu.execute(10), Err(ExecutorError::InvalidOperand));
    assert_eq!(cpu.pc(), 0x200);
}

#[test]
fn run_overflows_the_stack_after_sixteen_calls() {
    let mut cpu = CPU::new();
    load(&mut cpu, 0x200, &[0x2200]);
    assert_eq!(cpu.execute(16), Ok(Halt::OutOfCycles));
    assert_eq!(cpu.stack_pointer(), 16);
    assert_eq!(cpu.execute(1), Err(ExecutorError::StackOverflow));
    assert_eq!(cpu.stack_pointer(), 16);
    assert_eq!(cpu.pc(), 0x200);
}

#[test]
fn run_halts_while_waiting_for_a_key() {
    let mut cpu = CPU::new();
    load(&mut cpu, 0x200, &[0x6001, 0xF30A, 0x7001]);
    assert_eq!(cpu.execute(10), Ok(Halt::WaitingForKey));
    assert_eq!(cpu.pc(), 0x202);
    assert_eq!(cpu.register(0), 1);
    assert_eq!(cpu.waiting_for_key(), Some(3));
    assert_eq!(cpu.execute(10), Ok(Halt::WaitingForKey));
    assert_eq!(cpu.pc(), 0x202);
    cpu.press_key(0xE);
    assert_eq!(cpu.pc(), 0x204);
    assert_eq!(cpu.register(3), 0xE);
    assert_eq!(cpu.execute(1), Ok(Halt::OutOfCycles));
    assert_eq!(cpu.pc(), 0x206);
    assert_eq!(cpu.register(0), 2);
}

#[test]
fn waiting_comes_before_the_end_of_memory() {
    let mut cpu = CPU::new();
    load(&mut cpu, 0x200, &[0x1FFC]);
    load(&mut cpu, 0xFFC, &[0x6011, 0xF10A]);
    assert_eq!(cpu.execute(100), Ok(Halt::WaitingForKey));
    assert_eq!(cpu.pc(), 0xFFE);
    cpu.press_key(2);
    assert_eq!(cpu.pc(), 0x1000);
    assert_eq!(cpu.execute(100), Ok(Halt::EndOfMemory));
}

#[test]
fn run_draws_random_bytes_under_the_mask() {
    let mut cpu = CPU::new();
    load(&mut cpu, 0x200, &[0xC103, 0xC200, 0x1200]);
    let mut round: u32 = 0;
    while round < 100 {
        assert_eq!(cpu.execute(3), Ok(Halt::OutOfCycles));
        assert!(cpu.register(1) <= 3);
        assert_eq!(cpu.register(2), 0);
        assert_eq!(cpu.pc(), 0x200);
        round += 1;
    }
}

#[test]
fn countdown_loop_runs_to_completion() {
    let mut cpu = CPU::new();
    load(&mut cpu, 0x200, &[0x600A, 0x6100, 0x7102, 0x70FF, 0x3000, 0x1204, 0x1FFF]);
    assert_eq!(cpu.execute(1000), Ok(Halt::EndOfMemory));
    assert_eq!(cpu.register(0), 0);
    assert_eq!(cpu.register(1), 20);
    assert_eq!(cpu.pc(), 0xFFF);
}
