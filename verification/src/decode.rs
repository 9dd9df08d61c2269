use vstd::prelude::*;
use crate::machine::{Crisp, CrispView, MEM_SIZE};

verus! {

/// High nibble of a byte.
pub open spec fn hi_nib(b: u8) -> u8 {
    (b / 16) as u8
}

/// Low nibble of a byte.
pub open spec fn lo_nib(b: u8) -> u8 {
    (b % 16) as u8
}

/// First byte of the instruction at the program counter.
pub open spec fn fetched_hi(s: CrispView) -> u8 {
    s.memory[s.pc as int]
}

/// Second byte of the instruction at the program counter.
pub open spec fn fetched_lo(s: CrispView) -> u8 {
    s.memory[s.pc + 1]
}

/// Nibble `w`: the opcode group.
pub open spec fn op_w(s: CrispView) -> u8 {
    hi_nib(fetched_hi(s))
}

/// Nibble `x`: the first register operand.
pub open spec fn op_x(s: CrispView) -> u8 {
    lo_nib(fetched_hi(s))
}

/// Nibble `y`: the second register operand.
pub open spec fn op_y(s: CrispView) -> u8 {
    hi_nib(fetched_lo(s))
}

/// Nibble `z`: the sub-opcode or sprite height.
pub open spec fn op_z(s: CrispView) -> u8 {
    lo_nib(fetched_lo(s))
}

/// The 8-bit immediate: the low byte of the instruction.
pub open spec fn op_nn(s: CrispView) -> u8 {
    fetched_lo(s)
}

/// The 12-bit immediate: the low three nibbles of the instruction.
pub open spec fn op_nnn(s: CrispView) -> u16 {
    (op_x(s) * 256 + op_nn(s)) as u16
}

/// The hex digit for a nibble, lower case.
pub open spec fn hex_char(n: u8) -> char {
    if n == 0 {
        '0'
    } else if n == 1 {
        '1'
    } else if n == 2 {
        '2'
    } else if n == 3 {
        '3'
    } else if n == 4 {
        '4'
    } else if n == 5 {
        '5'
    } else if n == 6 {
        '6'
    } else if n == 7 {
        '7'
    } else if n == 8 {
        '8'
    } else if n == 9 {
        '9'
    } else if n == 10 {
        'a'
    } else if n == 11 {
        'b'
    } else if n == 12 {
        'c'
    } else if n == 13 {
        'd'
    } else if n == 14 {
        'e'
    } else {
        'f'
    }
}

/// The hex digit for a nibble, lower case.
pub fn hex_digit(n: u8) -> (c: char)
    requires
        n < 16,
    ensures
        c == hex_char(n),
{
    match n {
        0 => '0',
        1 => '1',
        2 => '2',
        3 => '3',
        4 => '4',
        5 => '5',
        6 => '6',
        7 => '7',
        8 => '8',
        9 => '9',
        10 => 'a',
        11 => 'b',
        12 => 'c',
        13 => 'd',
        14 => 'e',
        _ => 'f',
    }
}

/// Relies on `String::from_iter` (through `collect`): the resulting string
/// holds exactly the characters of `v`, in order.
#[verifier::external_body]
fn string_from_chars(v: Vec<char>) -> (s: String)
    ensures
        s@ == v@,
{
    v.into_iter().collect()
}

impl Crisp {
    /// The four nibbles `(w, x, y, z)` of the instruction at the program
    /// counter, no side effects.
    pub fn read_op_array(&self) -> (r: [u8; 4])
        requires
            self.wf(),
            self.program_counter + 1 < MEM_SIZE,
        ensures
            r@ == seq![op_w(self@), op_x(self@), op_y(self@), op_z(self@)],
            op_x(self@) < 16,
            op_y(self@) < 16,
            op_z(self@) < 16,
            op_w(self@) < 16,
    {
        let pc = self.program_counter as usize;
        let b0 = self.memory[pc];
        let b1 = self.memory[pc + 1];
        let r = [(b0 & 0xF0) >> 4, b0 & 0x0F, (b1 & 0xF0) >> 4, b1 & 0x0F];
        proof {
            assert((b0 & 0xF0) >> 4 == b0 / 16 && (b0 & 0x0F) == b0 % 16) by (bit_vector);
            assert((b1 & 0xF0) >> 4 == b1 / 16 && (b1 & 0x0F) == b1 % 16) by (bit_vector);
            assert(r@ =~= seq![op_w(self@), op_x(self@), op_y(self@), op_z(self@)]);
        }
        r
    }

    /// The instruction at the program counter as four lower-case hex digits.
    pub fn read_op_string(&self) -> (r: String)
        requires
            self.wf(),
            self.program_counter + 1 < MEM_SIZE,
        ensures
            r@ == seq![
                hex_char(op_w(self@)),
                hex_char(op_x(self@)),
                hex_char(op_y(self@)),
                hex_char(op_z(self@)),
            ],
    {
        let op = self.read_op_array();
        let mut cs: Vec<char> = Vec::new();
        cs.push(hex_digit(op[0]));
        cs.push(hex_digit(op[1]));
        cs.push(hex_digit(op[2]));
        cs.push(hex_digit(op[3]));
        proof {
            assert(cs@ =~= seq![
                hex_char(op_w(self@)),
                hex_char(op_x(self@)),
                hex_char(op_y(self@)),
                hex_char(op_z(self@)),
            ]);
        }
        string_from_chars(cs)
    }
}

} // verus!
