use vstd::prelude::*;

verus! {

/// The leading nibble of an instruction word: its primary operation.
pub open spec fn digit_of(code: u16) -> u8 {
    (code / 0x1000) as u8
}

/// Bits 8..12: the first register operand.
pub open spec fn x_of(code: u16) -> u8 {
    (code / 0x100 % 0x10) as u8
}

/// Bits 4..8: the second register operand.
pub open spec fn y_of(code: u16) -> u8 {
    (code / 0x10 % 0x10) as u8
}

/// Bits 0..4: a 4-bit immediate or sub-operation.
pub open spec fn n_of(code: u16) -> u8 {
    (code % 0x10) as u8
}

/// The low byte: an 8-bit immediate.
pub open spec fn nn_of(code: u16) -> u8 {
    (code % 0x100) as u8
}

/// The low 12 bits: an address.
pub open spec fn nnn_of(code: u16) -> u16 {
    (code % 0x1000) as u16
}

/// The word whose four nibbles are, from the most significant, `d`, `x`, `y`, `n`.
pub open spec fn word_of(d: u8, x: u8, y: u8, n: u8) -> int {
    d * 0x1000 + x * 0x100 + y * 0x10 + n
}

pub proof fn lemma_fields(code: u16)
    ensures
        (code & 0xF000) >> 12u16 == code / 0x1000,
        (code & 0x0F00) >> 8u16 == code / 0x100 % 0x10,
        (code & 0x00F0) >> 4u16 == code / 0x10 % 0x10,
        code & 0x000F == code % 0x10,
        code & 0x00FF == code % 0x100,
        code & 0x0FFF == code % 0x1000,
        code / 0x1000 < 0x10,
        code == word_of(digit_of(code), x_of(code), y_of(code), n_of(code)),
        nn_of(code) == y_of(code) * 0x10 + n_of(code),
        nnn_of(code) == x_of(code) * 0x100 + y_of(code) * 0x10 + n_of(code),
{
    assert({
        &&& (code & 0xF000) >> 12u16 == code / 0x1000
        &&& (code & 0x0F00) >> 8u16 == code / 0x100 % 0x10
        &&& (code & 0x00F0) >> 4u16 == code / 0x10 % 0x10
        &&& code & 0x000F == code % 0x10
        &&& code & 0x00FF == code % 0x100
        &&& code & 0x0FFF == code % 0x1000
        &&& code / 0x1000 < 0x10
        &&& code == (code / 0x1000) * 0x1000 + (code / 0x100 % 0x10) * 0x100 + (code / 0x10
            % 0x10) * 0x10 + code % 0x10
        &&& code % 0x100 == (code / 0x10 % 0x10) * 0x10 + code % 0x10
        &&& code % 0x1000 == (code / 0x100 % 0x10) * 0x100 + (code / 0x10 % 0x10) * 0x10 + code
            % 0x10
    }) by (bit_vector);
}

/// Masks an instruction word.
pub fn mask(opcode: u16, bits: u16) -> (r: u16)
    ensures
        r == opcode & bits,
{
    opcode & bits
}

pub fn get_digit(opcode: u16) -> (r: u8)
    ensures
        r == digit_of(opcode),
        r < 0x10,
{
    proof {
        lemma_fields(opcode);
    }
    (mask(opcode, 0xF000) >> 12) as u8
}

pub fn get_x(opcode: u16) -> (r: u8)
    ensures
        r == x_of(opcode),
        r < 0x10,
{
    proof {
        lemma_fields(opcode);
    }
    (mask(opcode, 0x0F00) >> 8) as u8
}

pub fn get_y(opcode: u16) -> (r: u8)
    ensures
        r == y_of(opcode),
        r < 0x10,
{
    proof {
        lemma_fields(opcode);
    }
    (mask(opcode, 0x00F0) >> 4) as u8
}

pub fn get_n(opcode: u16) -> (r: u8)
    ensures
        r == n_of(opcode),
        r < 0x10,
{
    proof {
        lemma_fields(opcode);
    }
    mask(opcode, 0x000F) as u8
}

pub fn get_nn(opcode: u16) -> (r: u8)
    ensures
        r == nn_of(opcode),
{
    proof {
        lemma_fields(opcode);
    }
    mask(opcode, 0x00FF) as u8
}

pub fn get_nnn(opcode: u16) -> (r: u16)
    ensures
        r == nnn_of(opcode),
        r < 0x1000,
{
    proof {
        lemma_fields(opcode);
    }
    mask(opcode, 0x0FFF)
}

/// An instruction word split into its four nibbles, most significant first.
pub struct OpCode(pub u8, pub u8, pub u8, pub u8);

impl OpCode {
    /// Every field is a nibble.
    pub open spec fn wf(&self) -> bool {
        self.0 < 0x10 && self.1 < 0x10 && self.2 < 0x10 && self.3 < 0x10
    }

    /// The instruction word the nibbles make up.
    pub open spec fn word(&self) -> int {
        word_of(self.0, self.1, self.2, self.3)
    }

    pub fn from(code: u16) -> (op: OpCode)
        ensures
            op.wf(),
            op.0 == digit_of(code),
            op.1 == x_of(code),
            op.2 == y_of(code),
            op.3 == n_of(code),
            op.word() == code,
    {
        proof {
            lemma_fields(code);
        }
        OpCode(get_digit(code), get_x(code), get_y(code), get_n(code))
    }

    /// The low byte of the word.
    pub fn get_2n(&self) -> (r: u8)
        requires
            self.wf(),
        ensures
            r == self.2 * 0x10 + self.3,
    {
        let (y, n) = (self.2, self.3);
        assert((y << 4u8) | n == y * 0x10 + n) by (bit_vector)
            requires
                y < 0x10,
                n < 0x10,
        ;
        (self.2 << 4) | self.3
    }

    /// The low 12 bits of the word.
    pub fn get_3n(&self) -> (r: u16)
        requires
            self.wf(),
        ensures
            r == self.1 * 0x100 + self.2 * 0x10 + self.3,
    {
        let (x, y, n) = (self.1 as u16, self.2 as u16, self.3 as u16);
        assert((x << 8u16) | (y << 4u16) | n == x * 0x100 + y * 0x10 + n) by (bit_vector)
            requires
                x < 0x10,
                y < 0x10,
                n < 0x10,
        ;
        ((self.1 as u16) << 8) | ((self.2 as u16) << 4) | self.3 as u16
    }

    /// The whole instruction word.
    pub fn to_word(&self) -> (r: u16)
        requires
            self.wf(),
        ensures
            r == self.word(),
    {
        let d = self.0 as u16;
        assert(d < 0x10 ==> d * 0x1000 <= 0xF000) by (nonlinear_arith);
        d * 0x1000 + self.get_3n()
    }
}

} // verus!
