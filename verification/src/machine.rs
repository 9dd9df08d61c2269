use vstd::prelude::*;
use vstd::pervasive::VecAdditionalExecFns;

verus! {

/// Total bytes of machine memory.
pub const MEM_SIZE: usize = 0x1000;

/// First address of the program region; memory below it is reserved for the
/// interpreter and the font table.
pub const PROGRAM_START: usize = 0x200;

/// Address where the built-in hex-digit font is placed.
pub const FONT_START: usize = 0x50;

/// Width of the display in pixels.
pub const DISPLAY_WIDTH: usize = 64;

/// Height of the display in pixels.
pub const DISPLAY_HEIGHT: usize = 32;

/// Number of display cells, `DISPLAY_WIDTH * DISPLAY_HEIGHT`.
pub const DISPLAY_CELLS: usize = 2048;

/// Number of general-purpose registers `V0..VF`.
pub const NUM_REGISTERS: usize = 16;

/// Number of keys on the keypad.
pub const NUM_KEYS: usize = 16;

/// Maximum call nesting: pushing a seventeenth return address is an error.
pub const STACK_LIMIT: usize = 16;

/// Which decode/execute table is active. Only the base instruction set is
/// implemented; the other variants exist as an extensibility point and make
/// every instruction report `CrispError::UnknownOpcode`.
#[derive(Clone, Copy, Debug, PartialEq, Eq, Structural)]
pub enum ISA {
    Chip8,
    SuperChip,
    MegaChip,
}

/// Whether the engine is ready to execute, or suspended on the key-wait
/// instruction until a key press arrives for register `dest`.
#[derive(Clone, Copy, Debug, PartialEq, Eq, Structural)]
pub enum Status {
    Running,
    AwaitingKey { dest: u8 },
}

/// The fatal conditions an instruction can report. The machine state is left
/// unchanged whenever one of these is returned.
#[derive(Clone, Copy, Debug, PartialEq, Eq, Structural)]
pub enum CrispError {
    /// The program counter would read past the end of memory, or an
    /// instruction would read or write memory past its end.
    FetchOutOfBounds,
    /// A return was executed with an empty call stack.
    StackUnderflow,
    /// A call would push a seventeenth return address.
    StackOverflow,
    /// The fetched nibble pattern is not in the decode table.
    UnknownOpcode,
}

/// The complete state of one virtual machine instance.
///
/// `display` is stored row-major: the pixel at row `r`, column `c` is
/// `display[r * DISPLAY_WIDTH + c]`. `stack` holds return addresses, i.e. the
/// address of the instruction after the call that pushed the entry.
#[derive(Debug, PartialEq, Clone)]
pub struct Crisp {
    pub memory: Vec<u8>,
    pub program_counter: u16,
    pub i: u16,
    pub stack: Vec<u16>,
    pub delay_timer: u8,
    pub sound_timer: u8,
    pub display: Vec<bool>,
    pub variable_register: Vec<u8>,
    pub keys: Vec<bool>,
    pub status: Status,
    pub isa: ISA,
}

/// The mathematical value of a machine state.
#[verifier::ext_equal]
pub ghost struct CrispView {
    pub memory: Seq<u8>,
    pub pc: u16,
    pub i: u16,
    pub stack: Seq<u16>,
    pub delay: u8,
    pub sound: u8,
    pub display: Seq<bool>,
    pub regs: Seq<u8>,
    pub keys: Seq<bool>,
    pub status: Status,
    pub isa: ISA,
}

impl View for Crisp {
    type V = CrispView;

    open spec fn view(&self) -> CrispView {
        CrispView {
            memory: self.memory@,
            pc: self.program_counter,
            i: self.i,
            stack: self.stack@,
            delay: self.delay_timer,
            sound: self.sound_timer,
            display: self.display@,
            regs: self.variable_register@,
            keys: self.keys@,
            status: self.status,
            isa: self.isa,
        }
    }
}

impl CrispView {
    /// Well-formedness: all the fixed-size parts have their canonical sizes,
    /// the stack respects its bound, and a pending key wait targets a real
    /// register from a program counter that can still advance.
    pub open spec fn wf(self) -> bool {
        &&& self.memory.len() == MEM_SIZE
        &&& self.display.len() == DISPLAY_CELLS
        &&& self.regs.len() == NUM_REGISTERS
        &&& self.keys.len() == NUM_KEYS
        &&& self.stack.len() <= STACK_LIMIT
        &&& match self.status {
            Status::Running => true,
            Status::AwaitingKey { dest } => dest < 16 && self.pc < 0xFFFE,
        }
    }
}

/// The row-major index of the display cell at row `r`, column `c`.
pub open spec fn cell(r: int, c: int) -> int {
    r * 64 + c
}

/// The pixel at row `r`, column `c` of a row-major display sequence.
pub open spec fn pixel_at(d: Seq<bool>, r: int, c: int) -> bool {
    d[cell(r, c)]
}

/// A display with every pixel off.
pub open spec fn all_off() -> Seq<bool> {
    Seq::new(DISPLAY_CELLS as nat, |p: int| false)
}

/// A delay or sound timer after one tick: decremented, floored at zero.
pub open spec fn ticked(t: u8) -> u8 {
    if t > 0 {
        (t - 1) as u8
    } else {
        0
    }
}

/// The state after a key-down event for key `k`: the key becomes held, and a
/// pending key wait is resolved by storing `k` and advancing past the wait
/// instruction.
pub open spec fn key_down_spec(s: CrispView, k: u8) -> CrispView {
    let held = CrispView { keys: s.keys.update(k as int, true), ..s };
    match s.status {
        Status::Running => held,
        Status::AwaitingKey { dest } => CrispView {
            regs: held.regs.update(dest as int, k),
            pc: (held.pc + 2) as u16,
            status: Status::Running,
            ..held
        },
    }
}

impl Crisp {
    pub open spec fn wf(&self) -> bool {
        self@.wf()
    }

    /// A builder with nothing chosen yet; `CrispBuilder::build` fills in the
    /// documented defaults.
    pub fn builder() -> (r: crate::builder::CrispBuilder)
        ensures
            crate::builder::all_unset(r),
            r.wf(),
    {
        Default::default()
    }

    /// The first byte of the program region.
    pub fn mem_dump(self) -> (r: u8)
        requires
            self.wf(),
        ensures
            r == self@.memory[PROGRAM_START as int],
    {
        self.memory[PROGRAM_START]
    }

    /// Read-only snapshot of one display pixel, for a renderer to poll.
    pub fn pixel(&self, row: usize, col: usize) -> (r: bool)
        requires
            self.wf(),
            row < DISPLAY_HEIGHT,
            col < DISPLAY_WIDTH,
        ensures
            r == pixel_at(self@.display, row as int, col as int),
    {
        self.display[row * DISPLAY_WIDTH + col]
    }

    /// Whether key `k` is currently held.
    pub fn is_key_held(&self, k: u8) -> (r: bool)
        requires
            self.wf(),
            k < 16,
        ensures
            r == self@.keys[k as int],
    {
        self.keys[k as usize]
    }

    /// Turn every display pixel off.
    pub fn clear(&mut self)
        requires
            old(self).wf(),
        ensures
            final(self).wf(),
            final(self)@ == (CrispView { display: all_off(), ..old(self)@ }),
    {
        let mut p: usize = 0;
        while p < DISPLAY_CELLS
            invariant
                old(self).wf(),
                p <= DISPLAY_CELLS,
                self.display@.len() == DISPLAY_CELLS,
                self@ == (CrispView { display: self.display@, ..old(self)@ }),
                forall|q: int| 0 <= q < p ==> !self.display@[q],
            decreases DISPLAY_CELLS - p,
        {
            self.display.set(p, false);
            p += 1;
        }
        proof {
            assert(self.display@ =~= all_off());
        }
    }

    /// One 60 Hz clock tick: decrement both timers, floored at zero. Driven
    /// by an external clock, independently of instruction execution.
    pub fn tick_timers(&mut self)
        requires
            old(self).wf(),
        ensures
            final(self).wf(),
            final(self)@ == (CrispView {
                delay: ticked(old(self)@.delay),
                sound: ticked(old(self)@.sound),
                ..old(self)@
            }),
    {
        if self.delay_timer > 0 {
            self.delay_timer = self.delay_timer - 1;
        }
        if self.sound_timer > 0 {
            self.sound_timer = self.sound_timer - 1;
        }
    }

    /// Deliver a key-down event for key `k`. Marks the key held; if the
    /// engine was suspended on the key-wait instruction, stores `k` in the
    /// waited-on register, advances past the instruction, and resumes.
    pub fn key_down(&mut self, k: u8)
        requires
            old(self).wf(),
            k < 16,
        ensures
            final(self).wf(),
            final(self)@ == key_down_spec(old(self)@, k),
    {
        self.keys.set(k as usize, true);
        match self.status {
            Status::Running => {},
            Status::AwaitingKey { dest } => {
                self.variable_register.set(dest as usize, k);
                self.program_counter = self.program_counter + 2;
                self.status = Status::Running;
            },
        }
    }

    /// Deliver a key-up event for key `k`: the key is no longer held.
    pub fn key_up(&mut self, k: u8)
        requires
            old(self).wf(),
            k < 16,
        ensures
            final(self).wf(),
            final(self)@ == (CrispView { keys: old(self)@.keys.update(k as int, false), ..old(self)@ }),
    {
        self.keys.set(k as usize, false);
    }
}

} // verus!
