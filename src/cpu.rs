//! The machine state and its fetch-decode-execute cycle.
use vstd::prelude::*;

use crate::decode::{decode, instruction_of, opcode_of, select_opcode, Opcode};
use crate::progress::{lemma_step_makes_progress, progress, progress_limit};

verus! {

/// Bytes of addressable memory.
pub const MEMORY_SIZE: usize = 0x1000;

/// Entries the call stack can hold.
pub const STACK_CAPACITY: usize = 16;

/// General-purpose registers.
pub const REGISTER_COUNT: usize = 16;

/// The register that also receives the carry of an addition.
pub const FLAG_REGISTER: usize = 0xF;

/// Why a run stopped with a failure.
#[derive(Clone, Copy, Debug, PartialEq, Eq, Structural)]
pub enum Fault {
    /// The two bytes of the next instruction do not both lie in memory.
    OutOfBoundsFetch,
    /// A call was made with the call stack full.
    StackOverflow,
    /// A return was made with the call stack empty.
    StackUnderflow,
    /// The instruction word denotes no operation that the core executes.
    UnimplementedOpcode,
}

/// The terminal state that a run reached.
#[derive(Clone, Copy, Debug, PartialEq, Eq, Structural)]
pub enum RunOutcome {
    Halted,
    Faulted(Fault),
}

/// The abstract machine state.
pub struct CpuView {
    pub registers: Seq<u8>,
    pub memory: Seq<u8>,
    /// Offset of the next instruction to fetch.
    pub pc: int,
    /// Saved program counters, oldest first.
    pub stack: Seq<u16>,
    /// The terminal state reached, once one has been.
    pub outcome: Option<RunOutcome>,
}

impl CpuView {
    /// The bounds that every reachable state keeps.
    pub open spec fn wf(self) -> bool {
        &&& self.registers.len() == REGISTER_COUNT
        &&& self.memory.len() == MEMORY_SIZE
        &&& 0 <= self.pc <= u16::MAX
        &&& self.stack.len() <= STACK_CAPACITY
    }

    /// Both bytes of an instruction are available at the program counter.
    pub open spec fn can_fetch(self) -> bool {
        0 <= self.pc && self.pc + 1 < self.memory.len()
    }

    /// The instruction word at the program counter.
    pub open spec fn fetched(self) -> u16 {
        fetch_word(self.memory, self.pc)
    }

    /// This state with the program counter moved to `pc`.
    pub open spec fn with_pc(self, pc: int) -> CpuView {
        CpuView { pc, ..self }
    }
}

/// The big-endian word whose high byte is `mem[p]` and low byte `mem[p + 1]`.
pub open spec fn fetch_word(mem: Seq<u8>, p: int) -> u16 {
    (mem[p] * 0x100 + mem[p + 1]) as u16
}

/// The 8-bit sum of `a` and `b`, and the carry flag that it leaves.
pub open spec fn add_result(a: u8, b: u8) -> (u8, u8) {
    (((a + b) % 0x100) as u8, if a + b > 0xFF { 1u8 } else { 0u8 })
}

/// The registers after `reg[x] += reg[y]`: the sum is written first and the
/// flag after it, so the flag wins where `x` is the flag register.
pub open spec fn add_registers(regs: Seq<u8>, x: int, y: int) -> Seq<u8> {
    let (sum, carry) = add_result(regs[x], regs[y]);
    regs.update(x, sum).update(FLAG_REGISTER as int, carry)
}

/// One operation, applied to `s` whose program counter has already moved
/// past the instruction. `None` where the machine keeps running.
pub open spec fn execute_spec(s: CpuView, op: Opcode) -> (CpuView, Option<RunOutcome>) {
    match op {
        Opcode::Halt => (s, Some(RunOutcome::Halted)),
        Opcode::Return => if s.stack.len() == 0 {
            (s, Some(RunOutcome::Faulted(Fault::StackUnderflow)))
        } else {
            (CpuView { pc: s.stack.last() as int, stack: s.stack.drop_last(), ..s }, None)
        },
        Opcode::Call(addr) => if s.stack.len() >= STACK_CAPACITY {
            (s, Some(RunOutcome::Faulted(Fault::StackOverflow)))
        } else {
            (CpuView { pc: addr as int, stack: s.stack.push(s.pc as u16), ..s }, None)
        },
        Opcode::AddXY(x, y) => (
            CpuView { registers: add_registers(s.registers, x as int, y as int), ..s },
            None,
        ),
    }
}

/// One fetch-decode-execute cycle from `s`, whether or not `s` has already
/// stopped: the state after it, and the terminal state that it reached, if
/// any. The outcome that `s` records is left as it is.
pub open spec fn cycle_spec(s: CpuView) -> (CpuView, Option<RunOutcome>) {
    if !s.can_fetch() {
        (s, Some(RunOutcome::Faulted(Fault::OutOfBoundsFetch)))
    } else {
        let t = s.with_pc(s.pc + 2);
        match opcode_of(instruction_of(s.fetched())) {
            None => (t, Some(RunOutcome::Faulted(Fault::UnimplementedOpcode))),
            Some(op) => execute_spec(t, op),
        }
    }
}

/// One transition of the run loop. A machine that has halted or faulted
/// stays as it is and reports the same outcome again; a running one makes a
/// cycle and records the outcome that the cycle reached.
pub open spec fn step_spec(s: CpuView) -> (CpuView, Option<RunOutcome>) {
    match s.outcome {
        Some(o) => (s, Some(o)),
        None => {
            let (t, o) = cycle_spec(s);
            (CpuView { outcome: o, ..t }, o)
        },
    }
}

/// The state after at most `n` cycles from `s`, stopping at the first
/// terminal state, and that terminal state if one was reached.
pub open spec fn run_spec(s: CpuView, n: nat) -> (CpuView, Option<RunOutcome>)
    decreases n,
{
    if n == 0 {
        (s, None)
    } else {
        let (t, outcome) = step_spec(s);
        if outcome is Some {
            (t, outcome)
        } else {
            run_spec(t, (n - 1) as nat)
        }
    }
}

/// Running `k` cycles without stopping and then one more is one cycle from
/// where the first `k` ended.
pub proof fn lemma_run_one_more(s: CpuView, k: nat, t: CpuView)
    requires
        run_spec(s, k) == (t, None::<RunOutcome>),
    ensures
        run_spec(s, k + 1) == step_spec(t),
    decreases k,
{
    let (u, outcome) = step_spec(s);
    if k == 0 {
        assert(run_spec(u, 0) == (u, None::<RunOutcome>));
    } else {
        assert(outcome is None);
        lemma_run_one_more(u, (k - 1) as nat, t);
        assert(run_spec(s, k + 1) == run_spec(u, k));
    }
}

/// A terminal state is final: whatever number of cycles reaches one, the
/// state and outcome are the same, so a run has one result.
pub proof fn lemma_outcome_unique(s: CpuView, n1: nat, n2: nat)
    requires
        run_spec(s, n1).1 is Some,
        run_spec(s, n2).1 is Some,
    ensures
        run_spec(s, n1) == run_spec(s, n2),
    decreases n1,
{
    let (t, outcome) = step_spec(s);
    if outcome is None {
        lemma_outcome_unique(t, (n1 - 1) as nat, (n2 - 1) as nat);
    }
}

/// Why a program image could not be loaded.
#[derive(Clone, Copy, Debug, PartialEq, Eq, Structural)]
pub enum LoadError {
    /// The image would run past the end of memory.
    DoesNotFit,
}

/// `mem` with `bytes` written from `offset` on.
pub open spec fn loaded(mem: Seq<u8>, bytes: Seq<u8>, offset: int) -> Seq<u8> {
    Seq::new(
        mem.len(),
        |j: int|
            if offset <= j < offset + bytes.len() {
                bytes[j - offset]
            } else {
                mem[j]
            },
    )
}

/// A CHIP-8 machine: registers, memory, and a call stack of saved program
/// counters.
pub struct CPU {
    pub registers: [u8; 16],
    pub memory: [u8; 0x1000],
    position_in_memory: usize,
    stack: [u16; 16],
    stack_pointer: usize,
    outcome: Option<RunOutcome>,
}

impl View for CPU {
    type V = CpuView;

    closed spec fn view(&self) -> CpuView {
        CpuView {
            registers: self.registers@,
            memory: self.memory@,
            pc: self.position_in_memory as int,
            stack: self.stack@.subrange(0, self.stack_pointer as int),
            outcome: self.outcome,
        }
    }
}

impl CPU {
    /// The stack pointer stays within the stack.
    pub closed spec fn stack_in_bounds(&self) -> bool {
        self.stack_pointer <= STACK_CAPACITY
    }

    /// The bounds that every method keeps.
    pub open spec fn wf(&self) -> bool {
        &&& self.stack_in_bounds()
        &&& self@.wf()
    }

    /// A machine with every register, byte, and stack slot zero.
    pub fn new() -> (r: CPU)
        ensures
            r.wf(),
            r@.pc == 0,
            r@.stack.len() == 0,
            r@.outcome is None,
            forall|i: int| 0 <= i < REGISTER_COUNT ==> r@.registers[i] == 0,
            forall|i: int| 0 <= i < MEMORY_SIZE ==> r@.memory[i] == 0,
    {
        CPU {
            registers: [0; 16],
            memory: [0; 0x1000],
            position_in_memory: 0,
            stack: [0; 16],
            stack_pointer: 0,
            outcome: None,
        }
    }

    /// The offset of the next instruction to fetch.
    pub fn program_counter(&self) -> (r: usize)
        ensures
            r == self@.pc,
    {
        self.position_in_memory
    }

    /// The number of saved program counters on the call stack.
    pub fn stack_depth(&self) -> (r: usize)
        requires
            self.wf(),
        ensures
            r == self@.stack.len(),
    {
        self.stack_pointer
    }

    /// The terminal state that the machine has reached, if any.
    pub fn outcome(&self) -> (r: Option<RunOutcome>)
        ensures
            r == self@.outcome,
    {
        self.outcome
    }

    /// The value of register `i`.
    pub fn register(&self, i: usize) -> (r: u8)
        requires
            i < REGISTER_COUNT,
        ensures
            r == self@.registers[i as int],
    {
        self.registers[i]
    }

    /// Sets register `i` to `v`, leaving the rest of the machine as it is.
    pub fn set_register(&mut self, i: usize, v: u8)
        requires
            old(self).wf(),
            i < REGISTER_COUNT,
        ensures
            final(self).wf(),
            final(self)@ == (CpuView {
                registers: old(self)@.registers.update(i as int, v),
                ..old(self)@
            }),
    {
        self.registers[i] = v;
    }

    /// The byte of memory at `a`.
    pub fn memory_byte(&self, a: usize) -> (r: u8)
        requires
            a < MEMORY_SIZE,
        ensures
            r == self@.memory[a as int],
    {
        self.memory[a]
    }

    /// The instruction word at the program counter: the byte there is its
    /// high half and the next byte its low half.
    pub fn read_opcode(&self) -> (r: Result<u16, Fault>)
        requires
            self.wf(),
        ensures
            r is Ok <==> self@.can_fetch(),
            r is Err ==> r == Err::<u16, Fault>(Fault::OutOfBoundsFetch),
            r is Ok ==> r->Ok_0 == self@.fetched(),
            r is Ok ==> r->Ok_0 as int == self@.memory[self@.pc] * 0x100 + self@.memory[self@.pc + 1],
            r is Ok ==> r->Ok_0 >> 8 == self@.memory[self@.pc],
            r is Ok ==> r->Ok_0 & 0xFF == self@.memory[self@.pc + 1],
    {
        let p = self.position_in_memory;
        if p >= MEMORY_SIZE - 1 {
            return Err(Fault::OutOfBoundsFetch);
        }
        let hi = self.memory[p];
        let lo = self.memory[p + 1];
        let word = (hi as u16) << 8 | lo as u16;
        assert(word == hi * 0x100 + lo && word >> 8 == hi && word & 0xFF == lo) by (bit_vector)
            requires
                word == (hi as u16) << 8 | lo as u16,
        ;
        Ok(word)
    }

    /// Pushes the program counter and jumps to `nnn`; with the call stack
    /// full, fails and changes nothing.
    pub fn call(&mut self, nnn: u16) -> (r: Result<(), Fault>)
        requires
            old(self).wf(),
        ensures
            final(self).wf(),
            r is Err <==> old(self)@.stack.len() >= STACK_CAPACITY,
            r is Err ==> r == Err::<(), Fault>(Fault::StackOverflow) && final(self)@ == old(self)@,
            r is Ok ==> final(self)@ == (CpuView {
                pc: nnn as int,
                stack: old(self)@.stack.push(old(self)@.pc as u16),
                ..old(self)@
            }),
    {
        let sp = self.stack_pointer;
        if sp >= STACK_CAPACITY {
            return Err(Fault::StackOverflow);
        }
        let ghost before = self@;
        self.stack[sp] = self.position_in_memory as u16;
        self.stack_pointer = sp + 1;
        self.position_in_memory = nnn as usize;
        assert(self@.stack =~= before.stack.push(before.pc as u16));
        Ok(())
    }

    /// Pops the call stack into the program counter; with the call stack
    /// empty, fails and changes nothing.
    pub fn ret(&mut self) -> (r: Result<(), Fault>)
        requires
            old(self).wf(),
        ensures
            final(self).wf(),
            r is Err <==> old(self)@.stack.len() == 0,
            r is Err ==> r == Err::<(), Fault>(Fault::StackUnderflow) && final(self)@ == old(self)@,
            r is Ok ==> final(self)@ == (CpuView {
                pc: old(self)@.stack.last() as int,
                stack: old(self)@.stack.drop_last(),
                ..old(self)@
            }),
    {
        if self.stack_pointer == 0 {
            return Err(Fault::StackUnderflow);
        }
        let ghost before = self@;
        self.stack_pointer = self.stack_pointer - 1;
        self.position_in_memory = self.stack[self.stack_pointer] as usize;
        assert(self@.stack =~= before.stack.drop_last());
        Ok(())
    }

    /// `reg[x] += reg[y]` modulo 256; register `0xF` then holds 1 where the
    /// sum overflowed a byte and 0 where it did not.
    pub fn add_xy(&mut self, x: u8, y: u8)
        requires
            old(self).wf(),
            x < REGISTER_COUNT,
            y < REGISTER_COUNT,
        ensures
            final(self).wf(),
            final(self)@ == (CpuView {
                registers: add_registers(old(self)@.registers, x as int, y as int),
                ..old(self)@
            }),
    {
        let arg1 = self.registers[x as usize];
        let arg2 = self.registers[y as usize];
        let val = arg1.wrapping_add(arg2);
        let overflow = arg1 as u16 + arg2 as u16 > 0xFF;
        self.registers[x as usize] = val;
        if overflow {
            self.registers[FLAG_REGISTER] = 1;
        } else {
            self.registers[FLAG_REGISTER] = 0;
        }
        assert(self@.registers =~= add_registers(old(self)@.registers, x as int, y as int));
    }

    /// One transition of the run loop. A machine that has already halted or
    /// faulted changes nothing and returns its outcome again. Otherwise:
    /// fetch the word at the program counter, move the program counter past
    /// it, then decode and execute it; the terminal state reached, if any, is
    /// recorded and returned, and `None` means the machine runs on.
    pub fn step(&mut self) -> (r: Option<RunOutcome>)
        requires
            old(self).wf(),
        ensures
            final(self).wf(),
            (final(self)@, r) == step_spec(old(self)@),
            old(self)@.outcome is Some ==> r == old(self)@.outcome && final(self)@ == old(self)@,
            final(self)@.outcome == r,
    {
        if let Some(o) = self.outcome {
            return Some(o);
        }
        let r = self.cycle();
        self.outcome = r;
        r
    }

    /// One fetch-decode-execute cycle, leaving the recorded outcome alone.
    fn cycle(&mut self) -> (r: Option<RunOutcome>)
        requires
            old(self).wf(),
        ensures
            final(self).wf(),
            (final(self)@, r) == cycle_spec(old(self)@),
    {
        let word = match self.read_opcode() {
            Ok(w) => w,
            Err(f) => {
                return Some(RunOutcome::Faulted(f));
            },
        };
        self.position_in_memory = self.position_in_memory + 2;
        let ins = decode(word);
        match select_opcode(&ins) {
            None => Some(RunOutcome::Faulted(Fault::UnimplementedOpcode)),
            Some(Opcode::Halt) => Some(RunOutcome::Halted),
            Some(Opcode::Return) => match self.ret() {
                Ok(()) => None,
                Err(f) => Some(RunOutcome::Faulted(f)),
            },
            Some(Opcode::Call(nnn)) => match self.call(nnn) {
                Ok(()) => None,
                Err(f) => Some(RunOutcome::Faulted(f)),
            },
            Some(Opcode::AddXY(x, y)) => {
                self.add_xy(x, y);
                None
            },
        }
    }

    /// Runs cycles until the machine halts or faults, and returns which of
    /// the two it reached. Every run ends, and the machine keeps its outcome:
    /// a machine that had already stopped changes nothing and returns the
    /// outcome it recorded.
    pub fn run(&mut self) -> (r: RunOutcome)
        requires
            old(self).wf(),
        ensures
            final(self).wf(),
            exists|n: nat| run_spec(old(self)@, n) == (final(self)@, Some(r)),
            old(self)@.outcome is Some ==> old(self)@.outcome == Some(r) && final(self)@ == old(self)@,
            final(self)@.outcome == Some(r),
    {
        let ghost start = self@;
        if let Some(o) = self.outcome {
            assert(run_spec(start, 1) == (self@, Some(o)));
            return o;
        }
        let ghost mut k: nat = 0;
        loop
            invariant
                self.wf(),
                start == old(self)@,
                self@.outcome is None,
                run_spec(start, k) == (self@, None::<RunOutcome>),
            decreases progress_limit() - progress(self@),
        {
            let ghost before = self@;
            proof {
                lemma_run_one_more(start, k, before);
            }
            let outcome = self.step();
            proof {
                k = k + 1;
            }
            match outcome {
                Some(o) => {
                    assert(run_spec(start, k) == (self@, Some(o)));
                    return o;
                },
                None => {
                    proof {
                        lemma_step_makes_progress(before);
                    }
                },
            }
        }
    }

    /// Copies `bytes` into memory from `offset` on; where they would run past
    /// the end of memory, fails and changes nothing.
    pub fn load_program(&mut self, bytes: &[u8], offset: usize) -> (r: Result<(), LoadError>)
        requires
            old(self).wf(),
        ensures
            final(self).wf(),
            r is Ok <==> offset + bytes@.len() <= MEMORY_SIZE,
            r is Err ==> r == Err::<(), LoadError>(LoadError::DoesNotFit) && final(self)@ == old(self)@,
            r is Ok ==> final(self)@ == (CpuView {
                memory: loaded(old(self)@.memory, bytes@, offset as int),
                ..old(self)@
            }),
    {
        if offset > MEMORY_SIZE || bytes.len() > MEMORY_SIZE - offset {
            return Err(LoadError::DoesNotFit);
        }
        let ghost before = self@;
        let mut i: usize = 0;
        while i < bytes.len()
            invariant
                self.wf(),
                offset + bytes@.len() <= MEMORY_SIZE,
                i <= bytes@.len(),
                self@ == (CpuView { memory: self@.memory, ..before }),
                self@.memory == loaded(before.memory, bytes@.subrange(0, i as int), offset as int),
            decreases bytes@.len() - i,
        {
            self.memory[offset + i] = bytes[i];
            i = i + 1;
            assert(self@.memory =~= loaded(before.memory, bytes@.subrange(0, i as int), offset as int));
        }
        assert(bytes@.subrange(0, i as int) =~= bytes@);
        Ok(())
    }
}

} // verus!