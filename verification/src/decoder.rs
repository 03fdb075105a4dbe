//! Pure, stateless extraction of the sub-fields of a 16-bit instruction
//! word.  Every CHIP-8 instruction packs its operands into fixed nibble
//! groups; the spec functions state each field as a plain quotient and
//! remainder so that contracts elsewhere can reason about them
//! arithmetically.

use vstd::prelude::*;

verus! {

/// First register operand index: bits 8..11 of the word.
pub open spec fn op_x(op: u16) -> nat {
    ((op as nat) / 0x100) % 0x10
}

/// Second register operand index: bits 4..7 of the word.
pub open spec fn op_y(op: u16) -> nat {
    ((op as nat) / 0x10) % 0x10
}

/// 8-bit immediate: the low byte of the word.
pub open spec fn op_kk(op: u16) -> nat {
    (op as nat) % 0x100
}

/// 12-bit address immediate: the low three nibbles of the word.
pub open spec fn op_nnn(op: u16) -> nat {
    (op as nat) % 0x1000
}

/// 4-bit immediate (sprite height): the low nibble of the word.
pub open spec fn op_n(op: u16) -> nat {
    (op as nat) % 0x10
}

/// Dispatch nibble: the top nibble of the word.
pub open spec fn op_top(op: u16) -> nat {
    (op as nat) / 0x1000
}

pub struct Decoder;

impl Decoder {
    /// First register operand index `x` of an instruction word.
    pub fn x(opcode: u16) -> (r: usize)
        ensures
            r == op_x(opcode),
            r < 16,
    {
        proof {
            assert((opcode & 0x0F00) >> 8 == (opcode / 0x100) % 0x10) by (bit_vector);
        }
        ((opcode & 0x0F00) >> 8) as usize
    }

    /// Second register operand index `y` of an instruction word.
    pub fn y(opcode: u16) -> (r: usize)
        ensures
            r == op_y(opcode),
            r < 16,
    {
        proof {
            assert((opcode & 0x00F0) >> 4 == (opcode / 0x10) % 0x10) by (bit_vector);
        }
        ((opcode & 0x00F0) >> 4) as usize
    }

    /// 8-bit immediate `kk` of an instruction word.
    pub fn kk(opcode: u16) -> (r: u8)
        ensures
            r == op_kk(opcode),
    {
        proof {
            assert(opcode & 0x00FF == opcode % 0x100) by (bit_vector);
        }
        (opcode & 0x00FF) as u8
    }

    /// 12-bit address immediate `nnn` of an instruction word.
    pub fn nnn(opcode: u16) -> (r: u16)
        ensures
            r == op_nnn(opcode),
            r < 0x1000,
    {
        proof {
            assert(opcode & 0x0FFF == opcode % 0x1000) by (bit_vector);
        }
        opcode & 0x0FFF
    }

    /// 4-bit immediate `n` of an instruction word.
    pub fn n(opcode: u16) -> (r: u8)
        ensures
            r == op_n(opcode),
            r < 16,
    {
        proof {
            assert(opcode & 0x000F == opcode % 0x10) by (bit_vector);
        }
        (opcode & 0x000F) as u8
    }
}

} // verus!
