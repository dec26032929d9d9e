use vstd::prelude::*;

use crate::parser::{lemma_fields, n_of, nn_of, nnn_of, x_of, y_of};

verus! {

/// The instruction word most recently fetched from memory.
pub struct OpCode {
    code: u16,
}

impl OpCode {
    pub closed spec fn code_spec(&self) -> u16 {
        self.code
    }

    pub fn init() -> (op: OpCode)
        ensures
            op.code_spec() == 0,
    {
        OpCode { code: 0u16 }
    }

    /// Reads the big-endian word at `pc`.
    pub fn update(&mut self, pc: usize, memory: &[u8; 4096])
        requires
            pc + 1 < 4096,
        ensures
            final(self).code_spec() == memory@[pc as int] * 0x100 + memory@[pc + 1],
    {
        let hi = memory[pc] as u16;
        let lo = memory[pc + 1] as u16;
        assert((hi << 8u16) | lo == hi * 0x100 + lo) by (bit_vector)
            requires
                hi < 0x100,
                lo < 0x100,
        ;
        self.code = (hi << 8) | lo;
    }

    pub fn code(&self) -> (r: u16)
        ensures
            r == self.code_spec(),
    {
        self.code
    }

    pub fn mask(&self, mask: u16) -> (r: u16)
        ensures
            r == self.code_spec() & mask,
    {
        self.code & mask
    }

    pub fn get_x(&self) -> (r: u8)
        ensures
            r == x_of(self.code_spec()),
    {
        proof {
            lemma_fields(self.code);
        }
        ((self.code & 0x0F00) >> 8) as u8
    }

    pub fn get_y(&self) -> (r: u8)
        ensures
            r == y_of(self.code_spec()),
    {
        proof {
            lemma_fields(self.code);
        }
        ((self.code & 0x00F0) >> 4) as u8
    }

    pub fn get_n(&self) -> (r: u8)
        ensures
            r == n_of(self.code_spec()),
    {
        proof {
            lemma_fields(self.code);
        }
        (self.code & 0x000F) as u8
    }

    pub fn get_2n(&self) -> (r: u8)
        ensures
            r == nn_of(self.code_spec()),
    {
        proof {
            lemma_fields(self.code);
        }
        (self.code & 0x00FF) as u8
    }

    pub fn get_3n(&self) -> (r: u16)
        ensures
            r == nnn_of(self.code_spec()),
    {
        proof {
            lemma_fields(self.code);
        }
        self.code & 0x0FFF
    }
}

} // verus!
