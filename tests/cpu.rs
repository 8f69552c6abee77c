use chip8::cpu::{Fault, LoadError, RunOutcome, CPU, FLAG_REGISTER, MEMORY_SIZE, STACK_CAPACITY};

fn machine_with(program: &[u8], offset: usize) -> CPU {
    let mut cpu = CPU::new();
    assert_eq!(cpu.load_program(program, offset), Ok(()));
    cpu
}

#[test]
fn new_machine_is_zeroed() {
    let cpu = CPU::new();
    assert!(cpu.registers.iter().all(|&r| r == 0));
    assert!(cpu.memory.iter().all(|&b| b == 0));
    assert_eq!(cpu.memory.len(), MEMORY_SIZE);
    assert_eq!(cpu.program_counter(), 0);
    assert_eq!(cpu.stack_depth(), 0);
}

#[test]
fn read_opcode_puts_first_byte_high() {
    let cpu = machine_with(&[0xAB, 0xCD], 0);
    assert_eq!(cpu.read_opcode(), Ok(0xABCD));
    let cpu = machine_with(&[0x01, 0xFF], 0);
    assert_eq!(cpu.read_opcode(), Ok(0x01FF));
}

#[test]
fn read_opcode_at_last_byte_is_out_of_bounds() {
    let mut cpu = machine_with(&[0x2F, 0xFF], 0);
    assert_eq!(cpu.step(), None);
    assert_eq!(cpu.program_counter(), 0xFFF);
    assert_eq!(cpu.read_opcode(), Err(Fault::OutOfBoundsFetch));
    assert_eq!(cpu.step(), Some(RunOutcome::Faulted(Fault::OutOfBoundsFetch)));
    assert_eq!(cpu.program_counter(), 0xFFF);
}

#[test]
fn run_past_end_of_memory_faults() {
    let mut cpu = CPU::new();
    for i in 0..MEMORY_SIZE / 2 {
        cpu.memory[2 * i] = 0x80;
        cpu.memory[2 * i + 1] = 0x14;
    }
    assert_eq!(cpu.run(), RunOutcome::Faulted(Fault::OutOfBoundsFetch));
    assert_eq!(cpu.program_counter(), MEMORY_SIZE);
}

#[test]
fn add_wraps_and_sets_carry() {
    let mut cpu = CPU::new();
    cpu.registers[0] = 200;
    cpu.registers[1] = 200;
    cpu.add_xy(0, 1);
    assert_eq!(cpu.registers[0], 144);
    assert_eq!(cpu.registers[FLAG_REGISTER], 1);
    assert_eq!(cpu.registers[1], 200);
}

#[test]
fn add_without_overflow_clears_carry() {
    let mut cpu = CPU::new();
    cpu.registers[0] = 5;
    cpu.registers[1] = 10;
    cpu.registers[FLAG_REGISTER] = 7;
    cpu.add_xy(0, 1);
    assert_eq!(cpu.registers[0], 15);
    assert_eq!(cpu.registers[FLAG_REGISTER], 0);
}

#[test]
fn add_is_commutative() {
    for (a, b) in [(200u8, 200u8), (5, 10), (255, 1), (0, 0), (128, 127), (250, 9)] {
        let mut left = CPU::new();
        left.registers[2] = a;
        left.registers[3] = b;
        left.add_xy(2, 3);
        let mut right = CPU::new();
        right.registers[2] = b;
        right.registers[3] = a;
        right.add_xy(2, 3);
        assert_eq!(left.registers[2], right.registers[2]);
        assert_eq!(left.registers[FLAG_REGISTER], right.registers[FLAG_REGISTER]);
        assert_eq!(left.registers[2], a.wrapping_add(b));
    }
}

#[test]
fn add_into_flag_register_keeps_the_flag() {
    let mut cpu = CPU::new();
    cpu.registers[FLAG_REGISTER] = 3;
    cpu.registers[1] = 4;
    cpu.add_xy(0xF, 1);
    assert_eq!(cpu.registers[FLAG_REGISTER], 0);
}

#[test]
fn add_opcode_through_step() {
    let mut cpu = machine_with(&[0x80, 0x14], 0);
    cpu.registers[0] = 200;
    cpu.registers[1] = 200;
    assert_eq!(cpu.step(), None);
    assert_eq!(cpu.registers[0], 144);
    assert_eq!(cpu.registers[FLAG_REGISTER], 1);
    assert_eq!(cpu.program_counter(), 2);
}

#[test]
fn call_then_return_resumes_after_the_call() {
    let mut cpu = CPU::new();
    cpu.memory[0x000] = 0x21;
    cpu.memory[0x001] = 0x00;
    cpu.memory[0x100] = 0x00;
    cpu.memory[0x101] = 0xEE;
    assert_eq!(cpu.step(), None);
    assert_eq!(cpu.program_counter(), 0x100);
    assert_eq!(cpu.stack_depth(), 1);
    assert_eq!(cpu.step(), None);
    assert_eq!(cpu.program_counter(), 0x002);
    assert_eq!(cpu.stack_depth(), 0);
}

#[test]
fn call_and_ret_methods() {
    let mut cpu = CPU::new();
    assert_eq!(cpu.ret(), Err(Fault::StackUnderflow));
    assert_eq!(cpu.call(0x300), Ok(()));
    assert_eq!(cpu.program_counter(), 0x300);
    assert_eq!(cpu.call(0x400), Ok(()));
    assert_eq!(cpu.ret(), Ok(()));
    assert_eq!(cpu.program_counter(), 0x300);
    assert_eq!(cpu.ret(), Ok(()));
    assert_eq!(cpu.program_counter(), 0);
}

#[test]
fn return_on_empty_stack_underflows() {
    let mut cpu = machine_with(&[0x00, 0xEE], 0);
    assert_eq!(cpu.run(), RunOutcome::Faulted(Fault::StackUnderflow));
    assert_eq!(cpu.stack_depth(), 0);
}

#[test]
fn call_on_full_stack_overflows() {
    let mut cpu = machine_with(&[0x20, 0x00], 0);
    assert_eq!(cpu.run(), RunOutcome::Faulted(Fault::StackOverflow));
    assert_eq!(cpu.stack_depth(), STACK_CAPACITY);
}

#[test]
fn call_method_on_full_stack_overflows() {
    let mut cpu = CPU::new();
    for _ in 0..STACK_CAPACITY {
        assert_eq!(cpu.call(0x200), Ok(()));
    }
    assert_eq!(cpu.call(0x200), Err(Fault::StackOverflow));
    assert_eq!(cpu.stack_depth(), STACK_CAPACITY);
}

#[test]
fn example_program_doubles_by_repeated_addition() {
    let mut cpu = CPU::new();
    cpu.registers[0] = 5;
    cpu.registers[1] = 10;
    let mem = &mut cpu.memory;
    mem[0x000] = 0x21;
    mem[0x001] = 0x00;
    mem[0x002] = 0x21;
    mem[0x003] = 0x00;
    mem[0x004] = 0x00;
    mem[0x005] = 0x00;
    mem[0x100] = 0x80;
    mem[0x101] = 0x14;
    mem[0x102] = 0x80;
    mem[0x103] = 0x14;
    mem[0x104] = 0x00;
    mem[0x105] = 0xEE;
    assert_eq!(cpu.run(), RunOutcome::Halted);
    assert_eq!(cpu.registers[0], 45);
}

#[test]
fn zero_word_halts_without_other_change() {
    let mut cpu = CPU::new();
    cpu.registers[3] = 9;
    cpu.memory[0x10] = 0x42;
    let registers = cpu.registers;
    let memory = cpu.memory;
    assert_eq!(cpu.step(), Some(RunOutcome::Halted));
    assert_eq!(cpu.registers, registers);
    assert_eq!(cpu.memory, memory);
    assert_eq!(cpu.stack_depth(), 0);
    assert_eq!(cpu.program_counter(), 2);
}

#[test]
fn undefined_word_is_unimplemented() {
    let mut cpu = machine_with(&[0x12, 0x00], 0);
    assert_eq!(cpu.run(), RunOutcome::Faulted(Fault::UnimplementedOpcode));
    let mut cpu = machine_with(&[0x80, 0x15], 0);
    assert_eq!(cpu.run(), RunOutcome::Faulted(Fault::UnimplementedOpcode));
}

#[test]
fn load_program_copies_bytes_at_offset() {
    let mut cpu = CPU::new();
    assert_eq!(cpu.load_program(&[1, 2, 3], 0x200), Ok(()));
    assert_eq!(&cpu.memory[0x1FF..0x204], &[0, 1, 2, 3, 0]);
    assert_eq!(cpu.load_program(&[7, 8], MEMORY_SIZE - 2), Ok(()));
    assert_eq!(cpu.memory[MEMORY_SIZE - 1], 8);
    assert_eq!(cpu.load_program(&[], MEMORY_SIZE), Ok(()));
}

#[test]
fn load_program_past_end_fails_unchanged() {
    let mut cpu = CPU::new();
    assert_eq!(cpu.load_program(&[7, 8], MEMORY_SIZE - 1), Err(LoadError::DoesNotFit));
    assert_eq!(cpu.load_program(&[7], MEMORY_SIZE + 5), Err(LoadError::DoesNotFit));
    assert!(cpu.memory.iter().all(|&b| b == 0));
}

#[test]
fn halted_machine_stays_halted() {
    let mut cpu = machine_with(&[0x00, 0x00, 0x80, 0x14], 0);
    cpu.set_register(0, 1);
    cpu.set_register(1, 2);
    assert_eq!(cpu.outcome(), None);
    assert_eq!(cpu.run(), RunOutcome::Halted);
    assert_eq!(cpu.outcome(), Some(RunOutcome::Halted));
    assert_eq!(cpu.program_counter(), 2);
    assert_eq!(cpu.step(), Some(RunOutcome::Halted));
    assert_eq!(cpu.run(), RunOutcome::Halted);
    assert_eq!(cpu.program_counter(), 2);
    assert_eq!(cpu.register(0), 1);
}

#[test]
fn faulted_machine_stays_faulted() {
    let mut cpu = machine_with(&[0x00, 0xEE, 0x80, 0x14], 0);
    assert_eq!(cpu.step(), Some(RunOutcome::Faulted(Fault::StackUnderflow)));
    assert_eq!(cpu.program_counter(), 2);
    assert_eq!(cpu.step(), Some(RunOutcome::Faulted(Fault::StackUnderflow)));
    assert_eq!(cpu.run(), RunOutcome::Faulted(Fault::StackUnderflow));
    assert_eq!(cpu.program_counter(), 2);
    assert_eq!(cpu.outcome(), Some(RunOutcome::Faulted(Fault::StackUnderflow)));
}

#[test]
fn register_and_memory_accessors() {
    let mut cpu = CPU::new();
    cpu.set_register(7, 0x5A);
    assert_eq!(cpu.register(7), 0x5A);
    assert_eq!(cpu.registers[7], 0x5A);
    assert_eq!(cpu.register(6), 0);
    assert_eq!(cpu.load_program(&[0xAB], 0x123), Ok(()));
    assert_eq!(cpu.memory_byte(0x123), 0xAB);
    assert_eq!(cpu.memory_byte(0x124), 0);
}

#[test]
fn flag_register_is_read_as_data_before_the_carry() {
    let mut cpu = CPU::new();
    cpu.set_register(0, 1);
    cpu.set_register(FLAG_REGISTER, 255);
    cpu.add_xy(0, 0xF);
    assert_eq!(cpu.register(0), 0);
    assert_eq!(cpu.register(FLAG_REGISTER), 1);
}

#[test]
fn flag_overwrites_sum_when_flag_is_target() {
    let mut cpu = CPU::new();
    cpu.set_register(FLAG_REGISTER, 200);
    cpu.set_register(1, 100);
    cpu.add_xy(0xF, 1);
    assert_eq!(cpu.register(FLAG_REGISTER), 1);
}

#[test]
fn return_resumes_at_the_instruction_after_the_call() {
    let mut cpu = machine_with(&[0x22, 0x00, 0x80, 0x14, 0x00, 0x00], 0);
    assert_eq!(cpu.load_program(&[0x00, 0xEE], 0x200), Ok(()));
    cpu.set_register(0, 1);
    cpu.set_register(1, 2);
    assert_eq!(cpu.run(), RunOutcome::Halted);
    assert_eq!(cpu.register(0), 3);
}

#[test]
fn call_method_accepts_any_address() {
    let mut cpu = CPU::new();
    assert_eq!(cpu.call(0xFFFF), Ok(()));
    assert_eq!(cpu.program_counter(), 0xFFFF);
    assert_eq!(cpu.step(), Some(RunOutcome::Faulted(Fault::OutOfBoundsFetch)));
}
