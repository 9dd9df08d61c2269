use vstd::prelude::*;
use vstd::pervasive::VecAdditionalExecFns;
use crate::machine::{
    Crisp, Status, ISA, all_off, MEM_SIZE, PROGRAM_START, FONT_START, DISPLAY_CELLS,
    NUM_REGISTERS, NUM_KEYS, STACK_LIMIT,
};

verus! {

/// A memory image that is all zeroes.
pub open spec fn zero_mem() -> Seq<u8> {
    Seq::new(MEM_SIZE as nat, |a: int| 0u8)
}

/// All sixteen registers zeroed.
pub open spec fn zero_regs() -> Seq<u8> {
    Seq::new(NUM_REGISTERS as nat, |k: int| 0u8)
}

/// No key held.
pub open spec fn no_keys() -> Seq<bool> {
    Seq::new(NUM_KEYS as nat, |k: int| false)
}

/// `base` with `bytes` written starting at address `at`; whatever would land
/// past the end of `base` is dropped.
pub open spec fn overlaid(base: Seq<u8>, at: int, bytes: Seq<u8>) -> Seq<u8> {
    Seq::new(base.len(), |a: int| if at <= a && a - at < bytes.len() {
        bytes[a - at]
    } else {
        base[a]
    })
}

/// The 80 bytes of the built-in hex-digit font: 16 glyphs of 5 rows each,
/// glyph `g` at offset `5 * g`.
pub open spec fn font_data() -> Seq<u8> {
    seq![
        0xF0u8, 0x90, 0x90, 0x90, 0xF0,
        0x20, 0x60, 0x20, 0x20, 0x70,
        0xF0, 0x10, 0xF0, 0x80, 0xF0,
        0xF0, 0x10, 0xF0, 0x10, 0xF0,
        0x90, 0x90, 0xF0, 0x10, 0x10,
        0xF0, 0x80, 0xF0, 0x10, 0xF0,
        0xF0, 0x80, 0xF0, 0x90, 0xF0,
        0xF0, 0x10, 0x20, 0x40, 0x40,
        0xF0, 0x90, 0xF0, 0x90, 0xF0,
        0xF0, 0x90, 0xF0, 0x10, 0xF0,
        0xF0, 0x90, 0xF0, 0x90, 0x90,
        0xE0, 0x90, 0xE0, 0x90, 0xE0,
        0xF0, 0x80, 0x80, 0x80, 0xF0,
        0xE0, 0x90, 0x90, 0x90, 0xE0,
        0xF0, 0x80, 0xF0, 0x80, 0xF0,
        0xF0, 0x80, 0xF0, 0x80, 0x80,
    ]
}

/// Step-by-step construction of a machine state; `build` substitutes the
/// documented default for every part left unset.
pub struct CrispBuilder {
    pub memory: Option<Vec<u8>>,
    pub program_counter: Option<u16>,
    pub i: Option<u16>,
    pub stack: Option<Vec<u16>>,
    pub delay_timer: Option<u8>,
    pub sound_timer: Option<u8>,
    pub display: Option<Vec<bool>>,
    pub variable_register: Option<Vec<u8>>,
    pub isa: Option<ISA>,
}

/// No part of the machine chosen yet.
pub open spec fn all_unset(b: CrispBuilder) -> bool {
    &&& b.memory is None
    &&& b.program_counter is None
    &&& b.i is None
    &&& b.stack is None
    &&& b.delay_timer is None
    &&& b.sound_timer is None
    &&& b.display is None
    &&& b.variable_register is None
    &&& b.isa is None
}

/// The memory this builder would hand to `build`: the chosen image, or all
/// zeroes.
pub open spec fn base_memory(b: CrispBuilder) -> Seq<u8> {
    match b.memory {
        Some(m) => m@,
        None => zero_mem(),
    }
}

impl CrispBuilder {
    /// Every part that was chosen has its canonical size.
    pub open spec fn wf(&self) -> bool {
        &&& (self.memory matches Some(m) ==> m@.len() == MEM_SIZE)
        &&& (self.display matches Some(d) ==> d@.len() == DISPLAY_CELLS)
        &&& (self.variable_register matches Some(v) ==> v@.len() == NUM_REGISTERS)
        &&& (self.stack matches Some(st) ==> st@.len() <= STACK_LIMIT)
    }
}

impl Default for CrispBuilder {
    fn default() -> (r: CrispBuilder)
        ensures
            all_unset(r),
            r.wf(),
    {
        CrispBuilder {
            memory: None,
            program_counter: None,
            i: None,
            stack: None,
            delay_timer: None,
            sound_timer: None,
            display: None,
            variable_register: None,
            isa: None,
        }
    }
}

/// A vector of `n` copies of `val`.
fn repeat_byte(n: usize, val: u8) -> (v: Vec<u8>)
    ensures
        v@ == Seq::new(n as nat, |i: int| val),
{
    let mut v: Vec<u8> = Vec::new();
    let mut k: usize = 0;
    while k < n
        invariant
            k <= n,
            v@.len() == k,
            forall|i: int| 0 <= i < k ==> v@[i] == val,
        decreases n - k,
    {
        v.push(val);
        k += 1;
    }
    proof {
        assert(v@ =~= Seq::new(n as nat, |i: int| val));
    }
    v
}

/// A vector of `n` copies of `val`.
fn repeat_bool(n: usize, val: bool) -> (v: Vec<bool>)
    ensures
        v@ == Seq::new(n as nat, |i: int| val),
{
    let mut v: Vec<bool> = Vec::new();
    let mut k: usize = 0;
    while k < n
        invariant
            k <= n,
            v@.len() == k,
            forall|i: int| 0 <= i < k ==> v@[i] == val,
        decreases n - k,
    {
        v.push(val);
        k += 1;
    }
    proof {
        assert(v@ =~= Seq::new(n as nat, |i: int| val));
    }
    v
}

impl CrispBuilder {
    /// A builder with the parts the canonical machine always starts from:
    /// the program counter at the start of the program region, an empty call
    /// stack, and a cleared display.
    pub fn new() -> (r: CrispBuilder)
        ensures
            r.wf(),
            r.program_counter == Some(0x200u16),
            r.stack matches Some(st) && st@ == Seq::<u16>::empty(),
            r.display matches Some(d) && d@ == all_off(),
            r.memory is None,
            r.i is None,
            r.delay_timer is None,
            r.sound_timer is None,
            r.variable_register is None,
            r.isa is None,
    {
        let display = repeat_bool(DISPLAY_CELLS, false);
        proof {
            assert(display@ =~= all_off());
        }
        CrispBuilder {
            memory: None,
            program_counter: Some(0x200),
            i: None,
            stack: Some(Vec::with_capacity(NUM_REGISTERS)),
            delay_timer: None,
            sound_timer: None,
            display: Some(display),
            variable_register: None,
            isa: None,
        }
    }

    /// Place a program image in memory starting at `PROGRAM_START`, on top of
    /// the memory chosen so far (all zeroes if none). Bytes that would land
    /// past the end of memory are dropped.
    pub fn load(self, program: Vec<u8>) -> (r: CrispBuilder)
        requires
            self.wf(),
        ensures
            r.wf(),
            r.memory matches Some(m) && m@ == overlaid(
                base_memory(self),
                PROGRAM_START as int,
                program@,
            ),
            r.program_counter == self.program_counter,
            r.i == self.i,
            r.stack == self.stack,
            r.delay_timer == self.delay_timer,
            r.sound_timer == self.sound_timer,
            r.display == self.display,
            r.variable_register == self.variable_register,
            r.isa == self.isa,
    {
        let ghost base = base_memory(self);
        let CrispBuilder {
            memory,
            program_counter,
            i,
            stack,
            delay_timer,
            sound_timer,
            display,
            variable_register,
            isa,
        } = self;
        let mut mem: Vec<u8> = match memory {
            Some(m) => m,
            None => repeat_byte(MEM_SIZE, 0),
        };
        let mut k: usize = 0;
        while k < program.len() && PROGRAM_START + k < MEM_SIZE
            invariant
                k <= program.len(),
                PROGRAM_START + k <= MEM_SIZE,
                mem@.len() == MEM_SIZE,
                base.len() == MEM_SIZE,
                forall|a: int| 0 <= a < MEM_SIZE ==> mem@[a] == (
                    if PROGRAM_START <= a && a - PROGRAM_START < k {
                        program@[a - PROGRAM_START]
                    } else {
                        base[a]
                    }
                ),
            decreases program.len() - k,
        {
            mem.set(PROGRAM_START + k, program[k]);
            k += 1;
        }
        proof {
            assert(mem@ =~= overlaid(base, PROGRAM_START as int, program@));
        }
        CrispBuilder {
            memory: Some(mem),
            program_counter,
            i,
            stack,
            delay_timer,
            sound_timer,
            display,
            variable_register,
            isa,
        }
    }

    /// Place the built-in hex-digit font at `FONT_START`, on top of the
    /// memory chosen so far (all zeroes if none).
    pub fn load_font(self) -> (r: CrispBuilder)
        requires
            self.wf(),
        ensures
            r.wf(),
            r.memory matches Some(m) && m@ == overlaid(
                base_memory(self),
                FONT_START as int,
                font_data(),
            ),
            r.program_counter == self.program_counter,
            r.i == self.i,
            r.stack == self.stack,
            r.delay_timer == self.delay_timer,
            r.sound_timer == self.sound_timer,
            r.display == self.display,
            r.variable_register == self.variable_register,
            r.isa == self.isa,
    {
        let ghost base = base_memory(self);
        let CrispBuilder {
            memory,
            program_counter,
            i,
            stack,
            delay_timer,
            sound_timer,
            display,
            variable_register,
            isa,
        } = self;
        let mut mem: Vec<u8> = match memory {
            Some(m) => m,
            None => repeat_byte(MEM_SIZE, 0),
        };
        let font = font_bytes();
        let mut k: usize = 0;
        while k < font.len()
            invariant
                k <= font.len(),
                font@ == font_data(),
                font@.len() == 80,
                mem@.len() == MEM_SIZE,
                base.len() == MEM_SIZE,
                forall|a: int| 0 <= a < MEM_SIZE ==> mem@[a] == (
                    if FONT_START <= a && a - FONT_START < k {
                        font_data()[a - FONT_START]
                    } else {
                        base[a]
                    }
                ),
            decreases font.len() - k,
        {
            mem.set(FONT_START + k, font[k]);
            k += 1;
        }
        proof {
            assert(mem@ =~= overlaid(base, FONT_START as int, font_data()));
        }
        CrispBuilder {
            memory: Some(mem),
            program_counter,
            i,
            stack,
            delay_timer,
            sound_timer,
            display,
            variable_register,
            isa,
        }
    }

    /// The machine state this builder describes, with the documented default
    /// for every part left unset: memory zeroed, the program counter at
    /// `PROGRAM_START`, and everything else zeroed, empty, cleared, released
    /// and ready to run the base instruction set.
    pub fn build(self) -> (r: Crisp)
        requires
            self.wf(),
        ensures
            r.wf(),
            r@.memory == base_memory(self),
            r@.pc == (match self.program_counter {
                Some(p) => p,
                None => 0x200u16,
            }),
            r@.i == (match self.i {
                Some(v) => v,
                None => 0u16,
            }),
            r@.stack == (match self.stack {
                Some(st) => st@,
                None => Seq::<u16>::empty(),
            }),
            r@.delay == (match self.delay_timer {
                Some(v) => v,
                None => 0u8,
            }),
            r@.sound == (match self.sound_timer {
                Some(v) => v,
                None => 0u8,
            }),
            r@.display == (match self.display {
                Some(d) => d@,
                None => all_off(),
            }),
            r@.regs == (match self.variable_register {
                Some(v) => v@,
                None => zero_regs(),
            }),
            r@.keys == no_keys(),
            r@.status == Status::Running,
            r@.isa == (match self.isa {
                Some(v) => v,
                None => ISA::Chip8,
            }),
    {
        let CrispBuilder {
            memory,
            program_counter,
            i,
            stack,
            delay_timer,
            sound_timer,
            display,
            variable_register,
            isa,
        } = self;
        let mem: Vec<u8> = match memory {
            Some(m) => m,
            None => repeat_byte(MEM_SIZE, 0),
        };
        let disp: Vec<bool> = match display {
            Some(d) => d,
            None => repeat_bool(DISPLAY_CELLS, false),
        };
        let regs: Vec<u8> = match variable_register {
            Some(v) => v,
            None => repeat_byte(NUM_REGISTERS, 0),
        };
        let keys = repeat_bool(NUM_KEYS, false);
        proof {
            assert(mem@ =~= base_memory(self));
            assert(disp@ =~= (match self.display {
                Some(d) => d@,
                None => all_off(),
            }));
            assert(regs@ =~= (match self.variable_register {
                Some(v) => v@,
                None => zero_regs(),
            }));
            assert(keys@ =~= no_keys());
        }
        Crisp {
            memory: mem,
            program_counter: match program_counter {
                Some(p) => p,
                None => 0x200,
            },
            i: match i {
                Some(v) => v,
                None => 0,
            },
            stack: match stack {
                Some(st) => st,
                None => Vec::new(),
            },
            delay_timer: match delay_timer {
                Some(v) => v,
                None => 0,
            },
            sound_timer: match sound_timer {
                Some(v) => v,
                None => 0,
            },
            display: disp,
            variable_register: regs,
            keys,
            status: Status::Running,
            isa: match isa {
                Some(v) => v,
                None => ISA::Chip8,
            },
        }
    }
}

/// The font table as a vector, row bytes in glyph order.
fn font_bytes() -> (v: Vec<u8>)
    ensures
        v@ == font_data(),
{
    let mut v: Vec<u8> = Vec::new();
    v.push(0xF0); v.push(0x90); v.push(0x90); v.push(0x90); v.push(0xF0);
    v.push(0x20); v.push(0x60); v.push(0x20); v.push(0x20); v.push(0x70);
    v.push(0xF0); v.push(0x10); v.push(0xF0); v.push(0x80); v.push(0xF0);
    v.push(0xF0); v.push(0x10); v.push(0xF0); v.push(0x10); v.push(0xF0);
    v.push(0x90); v.push(0x90); v.push(0xF0); v.push(0x10); v.push(0x10);
    v.push(0xF0); v.push(0x80); v.push(0xF0); v.push(0x10); v.push(0xF0);
    v.push(0xF0); v.push(0x80); v.push(0xF0); v.push(0x90); v.push(0xF0);
    v.push(0xF0); v.push(0x10); v.push(0x20); v.push(0x40); v.push(0x40);
    v.push(0xF0); v.push(0x90); v.push(0xF0); v.push(0x90); v.push(0xF0);
    v.push(0xF0); v.push(0x90); v.push(0xF0); v.push(0x10); v.push(0xF0);
    v.push(0xF0); v.push(0x90); v.push(0xF0); v.push(0x90); v.push(0x90);
    v.push(0xE0); v.push(0x90); v.push(0xE0); v.push(0x90); v.push(0xE0);
    v.push(0xF0); v.push(0x80); v.push(0x80); v.push(0x80); v.push(0xF0);
    v.push(0xE0); v.push(0x90); v.push(0x90); v.push(0x90); v.push(0xE0);
    v.push(0xF0); v.push(0x80); v.push(0xF0); v.push(0x80); v.push(0xF0);
    v.push(0xF0); v.push(0x80); v.push(0xF0); v.push(0x80); v.push(0x80);
    proof {
        assert(v@ =~= font_data());
    }
    v
}

} // verus!
