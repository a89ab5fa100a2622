//! The bytecode instruction encoder: the beginnings of a compilation
//! target.  A single opcode exists, `OpConstant`, which carries one
//! two-byte big-endian operand.

use vstd::prelude::*;

verus! {

/// The instruction set; each opcode is encoded as its position in this
/// list.
#[derive(Clone, Copy, Eq, Debug, PartialEq, Structural)]
pub enum OpCode {
    OpConstant,
}

/// The encoded byte of an opcode.
pub open spec fn opcode_byte(op: OpCode) -> u8 {
    match op {
        OpCode::OpConstant => 0,
    }
}

/// The operand widths of an opcode, in bytes.
pub open spec fn operand_widths(op: OpCode) -> Seq<u32> {
    match op {
        OpCode::OpConstant => seq![2u32],
    }
}

/// The encoding of one instruction: the opcode byte, then each operand in
/// big-endian order at its declared width.  An operand list of the wrong
/// arity encodes as no bytes at all.
pub open spec fn instruction_bytes(op: OpCode, operands: Seq<u32>) -> Seq<u8> {
    if operands.len() != operand_widths(op).len() {
        Seq::empty()
    } else {
        match op {
            OpCode::OpConstant => seq![
                opcode_byte(op),
                ((operands[0] / 256) % 256) as u8,
                (operands[0] % 256) as u8,
            ],
        }
    }
}

impl OpCode {
    /// A human-readable name for the opcode and its operand widths.
    pub fn lookup(&self) -> (r: (String, Vec<u32>))
        ensures
            r.0@ == "OpConstant"@,
            r.1@ == operand_widths(*self),
    {
        match self {
            OpCode::OpConstant => {
                let mut widths: Vec<u32> = Vec::new();
                widths.push(2);
                proof {
                    assert(widths@ =~= operand_widths(OpCode::OpConstant));
                }
                ("OpConstant".to_owned(), widths)
            },
        }
    }
}

/// Encodes one instruction.  Each operand must fit the two-byte width; the
/// result is exactly `instruction_bytes` of the inputs.
pub fn make_instruction(opcode: OpCode, operands: Vec<u32>) -> (r: Vec<u8>)
    requires
        forall|i: int| 0 <= i < operands@.len() ==> operands@[i] <= 0xffff,
    ensures
        r@ == instruction_bytes(opcode, operands@),
{
    let widths = opcode.lookup().1;
    let mut instruction: Vec<u8> = Vec::new();
    if operands.len() != widths.len() {
        proof {
            assert(instruction@ =~= instruction_bytes(opcode, operands@));
        }
        instruction
    } else {
        instruction.push(0);
        let operand: u32 = operands[0];
        instruction.push(((operand / 256) % 256) as u8);
        instruction.push((operand % 256) as u8);
        proof {
            assert(instruction@ =~= instruction_bytes(opcode, operands@));
        }
        instruction
    }
}

} // verus!
