//! Facts about the instruction cycle that relate several operations or hold
//! of every state.
use vstd::prelude::*;

use crate::cpu::{
    add_result, fetch_word, run_spec, step_spec, CpuView, Fault, RunOutcome, MEMORY_SIZE, STACK_CAPACITY,
};
use crate::decode::instruction_of;

verus! {

/// Addition of registers is commutative: the sum and the carry flag do not
/// depend on the order of the operands. The sum wraps modulo 256 and the
/// flag is 1 exactly when the true sum exceeds 255.
pub proof fn lemma_add_commutes(a: u8, b: u8)
    ensures
        add_result(a, b) == add_result(b, a),
        add_result(a, b).0 == (a + b) % 256,
        add_result(a, b).1 == 1 <==> a + b > 255,
        add_result(a, b).1 == 0 <==> a + b <= 255,
{
}

/// A call whose target is a return brings the machine back to the
/// instruction after the call, with the stack, registers, and memory it had.
pub proof fn lemma_call_then_return(s: CpuView)
    requires
        s.wf(),
        s.outcome is None,
        s.can_fetch(),
        s.stack.len() < STACK_CAPACITY,
        instruction_of(s.fetched()).op == 0x2,
        instruction_of(s.fetched()).addr + 1 < MEMORY_SIZE,
        fetch_word(s.memory, instruction_of(s.fetched()).addr as int) == 0x00EE,
    ensures
        step_spec(s).1 is None,
        step_spec(step_spec(s).0).1 is None,
        step_spec(step_spec(s).0).0 == s.with_pc(s.pc + 2),
{
    let t = step_spec(s).0;
    assert(t.fetched() == 0x00EE);
    assert(instruction_of(0x00EE) == crate::decode::Instruction {
        op: 0,
        x: 0,
        y: 0xE,
        n: 0xE,
        addr: 0xEE,
        byte: 0xEE,
    });
    assert(t.stack.drop_last() =~= s.stack);
}

/// A return with an empty call stack faults with a stack underflow.
pub proof fn lemma_return_on_empty_stack(s: CpuView)
    requires
        s.wf(),
        s.outcome is None,
        s.can_fetch(),
        s.fetched() == 0x00EE,
        s.stack.len() == 0,
    ensures
        step_spec(s).1 == Some(RunOutcome::Faulted(Fault::StackUnderflow)),
{
    assert(instruction_of(0x00EE).y == 0xE && instruction_of(0x00EE).n == 0xE);
}

/// A call with a full call stack faults with a stack overflow.
pub proof fn lemma_call_on_full_stack(s: CpuView)
    requires
        s.wf(),
        s.outcome is None,
        s.can_fetch(),
        instruction_of(s.fetched()).op == 0x2,
        s.stack.len() == STACK_CAPACITY,
    ensures
        step_spec(s).1 == Some(RunOutcome::Faulted(Fault::StackOverflow)),
{
}

/// The word `0x0000` halts the machine; apart from the program counter
/// moving past it, as every fetch does, the state is unchanged.
pub proof fn lemma_zero_word_halts(s: CpuView)
    requires
        s.wf(),
        s.outcome is None,
        s.can_fetch(),
        s.fetched() == 0,
    ensures
        step_spec(s) == (
            CpuView { pc: s.pc + 2, outcome: Some(RunOutcome::Halted), ..s },
            Some(RunOutcome::Halted),
        ),
        step_spec(s).0.registers == s.registers,
        step_spec(s).0.memory == s.memory,
        step_spec(s).0.stack == s.stack,
{
    assert(instruction_of(0) == crate::decode::Instruction {
        op: 0,
        x: 0,
        y: 0,
        n: 0,
        addr: 0,
        byte: 0,
    });
}

/// A machine that has halted or faulted stays so: however many further
/// transitions it is given, its state and outcome do not change.
pub proof fn lemma_stopped_stays_stopped(s: CpuView, n: nat)
    requires
        s.outcome is Some,
    ensures
        step_spec(s) == (s, s.outcome),
        n > 0 ==> run_spec(s, n) == (s, s.outcome),
{
}

} // verus!
