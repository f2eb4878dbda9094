//! The instruction decoder: a 16-bit word split into its opcode family and
//! operand fields.

use vstd::prelude::*;

verus! {

/// A decoded instruction word `fxyn`: the family `f` and every operand field
/// that an opcode may read.
#[derive(Clone, Copy, Debug, PartialEq, Eq)]
pub struct Instruction {
    /// Top nibble: selects the opcode family.
    pub family: u8,
    /// Low 12 bits: an address.
    pub nnn: u16,
    /// Low 8 bits: a constant.
    pub kk: u8,
    /// Bits 8 to 11: a register index.
    pub x: u8,
    /// Bits 4 to 7: a register index.
    pub y: u8,
    /// Low 4 bits: a nibble.
    pub n: u8,
}

impl Instruction {
    /// The operand fields are those of some instruction word: both register
    /// indices and the nibble are below 16 and the address is below 4096.
    pub open spec fn operands_in_range(self) -> bool {
        &&& self.x < 16
        &&& self.y < 16
        &&& self.n < 16
        &&& self.nnn < 0x1000
    }

    /// Executable form of [`Instruction::operands_in_range`].
    pub fn has_operands_in_range(&self) -> (b: bool)
        ensures
            b == self.operands_in_range(),
    {
        self.x < 16 && self.y < 16 && self.n < 16 && self.nnn < 0x1000
    }
}

/// The 16-bit word made of two consecutive bytes, high byte first.
pub open spec fn assemble_spec(high: u8, low: u8) -> u16 {
    (high * 0x100 + low) as u16
}

/// The fields of `word`, by position: `word == family * 4096 + nnn`,
/// `nnn == x * 256 + kk` and `kk == y * 16 + n`.
pub open spec fn decode_spec(word: u16) -> Instruction {
    Instruction {
        family: (word / 0x1000) as u8,
        nnn: word % 0x1000,
        kk: (word % 0x100) as u8,
        x: ((word / 0x100) % 0x10) as u8,
        y: ((word / 0x10) % 0x10) as u8,
        n: (word % 0x10) as u8,
    }
}

/// Joins the two bytes of an instruction, high byte first. The bytes occupy
/// disjoint halves of the word, so none of their bits is lost.
pub fn assemble(high: u8, low: u8) -> (word: u16)
    ensures
        word == assemble_spec(high, low),
        word == high * 0x100 + low,
        word / 0x100 == high,
        word % 0x100 == low,
{
    let shifted: u16 = (high as u16) << 8;
    let widened: u16 = low as u16;
    assert(shifted == high * 0x100) by (bit_vector)
        requires
            shifted == (high as u16) << 8,
    ;
    assert(shifted | widened == shifted + widened) by (bit_vector)
        requires
            shifted == (high as u16) << 8,
            widened == low as u16,
    ;
    shifted | widened
}

/// Splits `word` into its fields. Every word decodes; whether an operation
/// answers to the fields is for the executor to say.
pub fn decode(word: u16) -> (ins: Instruction)
    ensures
        ins == decode_spec(word),
        ins.family < 16,
        ins.operands_in_range(),
{
    let family: u8 = (word >> 12) as u8;
    let nnn: u16 = word & 0x0FFF;
    let kk: u8 = (word & 0x00FF) as u8;
    let x: u8 = ((word & 0x0F00) >> 8) as u8;
    let y: u8 = ((word & 0x00F0) >> 4) as u8;
    let n: u8 = (word & 0x000F) as u8;
    assert(word >> 12 == word / 0x1000) by (bit_vector);
    assert(word & 0x0FFF == word % 0x1000) by (bit_vector);
    assert(word & 0x00FF == word % 0x100) by (bit_vector);
    assert((word & 0x0F00) >> 8 == (word / 0x100) % 0x10) by (bit_vector);
    assert((word & 0x00F0) >> 4 == (word / 0x10) % 0x10) by (bit_vector);
    assert(word & 0x000F == word % 0x10) by (bit_vector);
    Instruction { family, nnn, kk, x, y, n }
}

/// Decoding loses nothing: the fields put the word back together.
pub proof fn lemma_decode_recomposes(word: u16)
    ensures
        word == decode_spec(word).family * 0x1000 + decode_spec(word).nnn,
        decode_spec(word).nnn == decode_spec(word).x * 0x100 + decode_spec(word).kk,
        decode_spec(word).kk == decode_spec(word).y * 0x10 + decode_spec(word).n,
        decode_spec(word).family < 16,
        decode_spec(word).operands_in_range(),
{
}

} // verus!
