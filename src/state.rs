use vstd::prelude::*;

verus! {

/// Bytes of addressable memory.
pub const MEMORY_SIZE: usize = 4096;

/// Where loaded programs start, and where execution begins.
pub const PROGRAM_START: u16 = 0x200;

/// Where the sixteen built-in hexadecimal glyphs are stored.
pub const FONT_START: u16 = 0x50;

/// Bytes per glyph.
pub const GLYPH_SIZE: u16 = 5;

/// The deepest nesting of subroutine calls the machine accepts.
pub const MAX_STACK_DEPTH: usize = 16;

/// The register that arithmetic, shift and draw instructions write their flag to.
pub const FLAG: usize = 15;

/// A condition that stops execution.
#[derive(Clone, Copy, Debug, PartialEq, Eq, Structural)]
pub enum Fault {
    /// A return was executed with no pending call.
    StackUnderflow,
    /// A call was executed with `MAX_STACK_DEPTH` calls already pending.
    StackOverflow,
    /// An instruction fetch or a memory access fell outside memory.
    AddressOutOfRange,
    /// A program does not fit between `PROGRAM_START` and the end of memory.
    ProgramTooLarge,
}

/// The glyphs for the hexadecimal digits 0 to F, five rows each.
pub open spec fn font() -> Seq<u8> {
    seq![
        0xF0u8, 0x90, 0x90, 0x90, 0xF0,
        0x20, 0x60, 0x20, 0x20, 0x70,
        0xF0, 0x10, 0xF0, 0x80, 0xF0,
        0xF0, 0x10, 0xF0, 0x10, 0xF0,
        0x90, 0x90, 0xF0, 0x10, 0x10,
        0xF0, 0x80, 0xF0, 0x10, 0xF0,
        0xF0, 0x80, 0xF0, 0x90, 0xF0,
        0xF0, 0x10, 0x20, 0x40, 0x40,
        0xF0, 0x90, 0xF0, 0x90, 0xF0,
        0xF0, 0x90, 0xF0, 0x10, 0xF0,
        0xF0, 0x90, 0xF0, 0x90, 0x90,
        0xE0, 0x90, 0xE0, 0x90, 0xE0,
        0xF0, 0x80, 0x80, 0x80, 0xF0,
        0xE0, 0x90, 0x90, 0x90, 0xE0,
        0xF0, 0x80, 0xF0, 0x80, 0xF0,
        0xF0, 0x80, 0xF0, 0x80, 0x80,
    ]
}

/// Memory as the machine starts: the font in place, every other byte zero.
pub open spec fn initial_memory() -> Seq<u8> {
    Seq::new(
        MEMORY_SIZE as nat,
        |a: int|
            if FONT_START <= a < FONT_START + font().len() {
                font()[a - FONT_START]
            } else {
                0
            },
    )
}

/// `x` reduced into the range of a 16-bit register.
pub open spec fn wrap16(x: int) -> u16 {
    (x % 0x10000) as u16
}

/// The mathematical value of a `ChipState`.
#[verifier::ext_equal]
pub struct StateView {
    pub memory: Seq<u8>,
    pub stack: Seq<u16>,
    pub registers: Seq<u8>,
    pub vi: u16,
    pub pc: u16,
    pub delay_timer: u8,
    pub sound_timer: u8,
    pub should_draw: bool,
    pub running: bool,
    pub did_jump: bool,
    pub should_wait: bool,
}

impl StateView {
    /// Register `i`.
    pub open spec fn v(self, i: int) -> u8 {
        self.registers[i]
    }

    /// The state with the program counter moved past one more instruction.
    pub open spec fn skipped(self) -> StateView {
        StateView { pc: wrap16(self.pc + 2), ..self }
    }

    /// The state with register `i` set to `value`.
    pub open spec fn with_v(self, i: int, value: u8) -> StateView {
        StateView { registers: self.registers.update(i, value), ..self }
    }
}

/// Registers, memory, stack, timers and control flags of the machine.
#[derive(Debug)]
pub struct ChipState {
    pub memory: [u8; 4096],
    pub stack: Vec<u16>,
    pub registers: [u8; 16],
    pub vi: u16,
    pub pc: u16,
    pub delay_timer: u8,
    pub sound_timer: u8,
    /// The framebuffer changed since it was last presented.
    pub should_draw: bool,
    pub running: bool,
    /// The instruction just executed set the program counter itself.
    pub did_jump: bool,
    /// The machine is suspended until a key is released.
    pub should_wait: bool,
}

impl View for ChipState {
    type V = StateView;

    open spec fn view(&self) -> StateView {
        StateView {
            memory: self.memory@,
            stack: self.stack@,
            registers: self.registers@,
            vi: self.vi,
            pc: self.pc,
            delay_timer: self.delay_timer,
            sound_timer: self.sound_timer,
            should_draw: self.should_draw,
            running: self.running,
            did_jump: self.did_jump,
            should_wait: self.should_wait,
        }
    }
}

/// The state of a machine that has just been switched on.
pub open spec fn initial_state() -> StateView {
    StateView {
        memory: initial_memory(),
        stack: Seq::empty(),
        registers: Seq::new(16, |i: int| 0u8),
        vi: 0,
        pc: PROGRAM_START,
        delay_timer: 0,
        sound_timer: 0,
        should_draw: false,
        running: true,
        did_jump: false,
        should_wait: false,
    }
}

impl ChipState {
    pub fn init() -> (s: ChipState)
        ensures
            s@ == initial_state(),
    {
        let mut memory = [0u8; 4096];
        let font_data: [u8; 80] = [
            0xF0, 0x90, 0x90, 0x90, 0xF0,
            0x20, 0x60, 0x20, 0x20, 0x70,
            0xF0, 0x10, 0xF0, 0x80, 0xF0,
            0xF0, 0x10, 0xF0, 0x10, 0xF0,
            0x90, 0x90, 0xF0, 0x10, 0x10,
            0xF0, 0x80, 0xF0, 0x10, 0xF0,
            0xF0, 0x80, 0xF0, 0x90, 0xF0,
            0xF0, 0x10, 0x20, 0x40, 0x40,
            0xF0, 0x90, 0xF0, 0x90, 0xF0,
            0xF0, 0x90, 0xF0, 0x10, 0xF0,
            0xF0, 0x90, 0xF0, 0x90, 0x90,
            0xE0, 0x90, 0xE0, 0x90, 0xE0,
            0xF0, 0x80, 0x80, 0x80, 0xF0,
            0xE0, 0x90, 0x90, 0x90, 0xE0,
            0xF0, 0x80, 0xF0, 0x80, 0xF0,
            0xF0, 0x80, 0xF0, 0x80, 0x80,
        ];
        assert(font_data@ =~= font());
        let mut i: usize = 0;
        while i < 80
            invariant
                i <= 80,
                font_data@ == font(),
                forall|a: int|
                    0 <= a < MEMORY_SIZE ==> #[trigger] memory@[a] == if FONT_START <= a
                        < FONT_START + i {
                        font()[a - FONT_START]
                    } else {
                        0
                    },
            decreases 80 - i,
        {
            memory[FONT_START as usize + i] = font_data[i];
            i = i + 1;
        }
        let s = ChipState {
            memory,
            stack: Vec::new(),
            registers: [0u8; 16],
            vi: 0,
            pc: PROGRAM_START,
            delay_timer: 0,
            sound_timer: 0,
            should_draw: false,
            running: true,
            did_jump: false,
            should_wait: false,
        };
        assert(s@.memory =~= initial_memory());
        assert(s@.registers =~= Seq::new(16, |i: int| 0u8));
        assert(s@.stack =~= Seq::<u16>::empty());
        s
    }

    /// Moves the program counter past one instruction; the counter is a
    /// 16-bit register and wraps.
    pub fn skip(&mut self)
        ensures
            final(self)@ == old(self)@.skipped(),
    {
        self.pc = self.pc.wrapping_add(2);
    }
}

} // verus!
