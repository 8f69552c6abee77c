//! Splitting a 16-bit instruction word into its fields, and selecting the
//! operation that a field tuple denotes.
use vstd::prelude::*;

verus! {

/// The fields of a 16-bit instruction word.
#[derive(Clone, Copy, Debug, PartialEq, Eq, Structural)]
pub struct Instruction {
    /// Bits 12 to 15: the instruction family.
    pub op: u8,
    /// Bits 8 to 11: usually a register index.
    pub x: u8,
    /// Bits 4 to 7: usually a register index.
    pub y: u8,
    /// Bits 0 to 3: a sub-opcode or literal nibble.
    pub n: u8,
    /// Bits 0 to 11: the address immediate.
    pub addr: u16,
    /// Bits 0 to 7: the byte immediate.
    pub byte: u8,
}

/// The field tuple of `word`.
pub open spec fn instruction_of(word: u16) -> Instruction {
    Instruction {
        op: (word / 0x1000) as u8,
        x: ((word / 0x100) % 0x10) as u8,
        y: ((word / 0x10) % 0x10) as u8,
        n: (word % 0x10) as u8,
        addr: (word % 0x1000) as u16,
        byte: (word % 0x100) as u8,
    }
}

/// Splits `word` into its nibbles and immediates. Every word decodes.
pub fn decode(word: u16) -> (r: Instruction)
    ensures
        r == instruction_of(word),
{
    let op = ((word & 0xF000) >> 12) as u8;
    let x = ((word & 0x0F00) >> 8) as u8;
    let y = ((word & 0x00F0) >> 4) as u8;
    let n = (word & 0x000F) as u8;
    let addr = word & 0x0FFF;
    let byte = (word & 0x00FF) as u8;
    assert(((word & 0xF000) >> 12) == word / 0x1000) by (bit_vector);
    assert(((word & 0x0F00) >> 8) == (word / 0x100) % 0x10) by (bit_vector);
    assert(((word & 0x00F0) >> 4) == (word / 0x10) % 0x10) by (bit_vector);
    assert((word & 0x000F) == word % 0x10) by (bit_vector);
    assert((word & 0x0FFF) == word % 0x1000) by (bit_vector);
    assert((word & 0x00FF) == word % 0x100) by (bit_vector);
    Instruction { op, x, y, n, addr, byte }
}

/// Decoding is total and pure: the fields of every word lie in range and
/// put back together give the word, so two words decode to the same tuple
/// exactly when they are the same word.
pub proof fn lemma_decode_total_and_pure(w1: u16, w2: u16)
    ensures
        instruction_of(w1).op < 16 && instruction_of(w1).x < 16,
        instruction_of(w1).y < 16 && instruction_of(w1).n < 16,
        w1 == instruction_of(w1).op * 0x1000 + instruction_of(w1).x * 0x100
            + instruction_of(w1).y * 0x10 + instruction_of(w1).n,
        instruction_of(w1).addr == instruction_of(w1).x * 0x100 + instruction_of(w1).y * 0x10
            + instruction_of(w1).n,
        instruction_of(w1).byte == instruction_of(w1).y * 0x10 + instruction_of(w1).n,
        (instruction_of(w1) == instruction_of(w2)) <==> (w1 == w2),
{
    lemma_word_recomposes(w1);
    lemma_word_recomposes(w2);
}

proof fn lemma_word_recomposes(w: u16)
    ensures
        w / 0x1000 < 16,
        w == (w / 0x1000) * 0x1000 + ((w / 0x100) % 0x10) * 0x100 + ((w / 0x10) % 0x10) * 0x10
            + w % 0x10,
        w % 0x1000 == ((w / 0x100) % 0x10) * 0x100 + ((w / 0x10) % 0x10) * 0x10 + w % 0x10,
        w % 0x100 == ((w / 0x10) % 0x10) * 0x10 + w % 0x10,
{
    assert(w / 0x1000 < 16) by (bit_vector);
    assert(w == (w / 0x1000) * 0x1000 + ((w / 0x100) % 0x10) * 0x100 + ((w / 0x10) % 0x10) * 0x10
        + w % 0x10) by (bit_vector);
    assert(w % 0x1000 == ((w / 0x100) % 0x10) * 0x100 + ((w / 0x10) % 0x10) * 0x10 + w % 0x10)
        by (bit_vector);
    assert(w % 0x100 == ((w / 0x10) % 0x10) * 0x10 + w % 0x10) by (bit_vector);
}

/// The operations that the core executes.
#[derive(Clone, Copy, Debug, PartialEq, Eq, Structural)]
pub enum Opcode {
    /// `0x0000`: stop the run loop normally.
    Halt,
    /// `0x00EE`: return from a subroutine.
    Return,
    /// `0x2nnn`: call the subroutine at `nnn`.
    Call(u16),
    /// `0x8xy4`: `reg[x] += reg[y]`, with the carry in register `0xF`.
    AddXY(u8, u8),
}

/// The operation that `i` denotes, if any. A specific pattern is tested
/// before a family that contains it.
pub open spec fn opcode_of(i: Instruction) -> Option<Opcode> {
    if i.op == 0 && i.x == 0 && i.y == 0 && i.n == 0 {
        Some(Opcode::Halt)
    } else if i.op == 0 && i.x == 0 && i.y == 0xE && i.n == 0xE {
        Some(Opcode::Return)
    } else if i.op == 0x2 {
        Some(Opcode::Call(i.addr))
    } else if i.op == 0x8 && i.n == 0x4 {
        Some(Opcode::AddXY(i.x, i.y))
    } else {
        None
    }
}

/// Selects the operation of a decoded instruction; `None` where no
/// operation is defined for its fields.
pub fn select_opcode(i: &Instruction) -> (r: Option<Opcode>)
    ensures
        r == opcode_of(*i),
{
    match (i.op, i.x, i.y, i.n) {
        (0, 0, 0, 0) => Some(Opcode::Halt),
        (0, 0, 0xE, 0xE) => Some(Opcode::Return),
        (0x2, _, _, _) => Some(Opcode::Call(i.addr)),
        (0x8, _, _, 0x4) => Some(Opcode::AddXY(i.x, i.y)),
        _ => None,
    }
}

} // verus!
