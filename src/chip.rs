use vstd::prelude::*;

use crate::display::{blank, Display};
use crate::handlers::{apply, outcome, random_byte, run, MachineView};
use crate::parser::{digit_of, nn_of, x_of};
use crate::keypad::{Keypad, KeypadView};
use crate::opcode::OpCode;
use crate::quirks::Quirks;
use crate::state::{initial_state, wrap16, ChipState, Fault, StateView, MEMORY_SIZE, PROGRAM_START};

verus! {

/// The instruction word at the program counter, if both its bytes lie in
/// memory.
pub open spec fn fetch_spec(s: StateView) -> Result<u16, Fault> {
    if s.pc + 1 < MEMORY_SIZE {
        Ok((s.memory[s.pc as int] * 0x100 + s.memory[s.pc + 1]) as u16)
    } else {
        Err(Fault::AddressOutOfRange)
    }
}

/// After an instruction: the program counter moves past it unless the
/// instruction jumped or started a key wait.
pub open spec fn advance(m: MachineView) -> MachineView {
    let s = m.state;
    let pc = if !s.did_jump && !s.should_wait {
        wrap16(s.pc + 2)
    } else {
        s.pc
    };
    MachineView { state: StateView { pc, did_jump: false, ..s }, ..m }
}

/// One instruction cycle: fetch, execute, advance.
#[verifier::opaque]
pub open spec fn cycle(m: MachineView, keys: KeypadView, q: Quirks, random: u8) -> Result<
    (MachineView, KeypadView),
    Fault,
> {
    match fetch_spec(m.state) {
        Err(e) => Err(e),
        Ok(code) => match apply(m, keys, code, q, random) {
            Ok((m2, keys2)) => Ok((advance(m2), keys2)),
            Err(e) => Err(e),
        },
    }
}

/// Execution stops for the rest of a frame: a fault was raised, or the
/// machine waits for a key and none has been released.
pub open spec fn halted(m: MachineView, keys: KeypadView, r: Result<(), Fault>) -> bool {
    r is Err || (m.state.should_wait && keys.released is None)
}

/// The first `n` cycles of a frame; cycle `i` is offered the byte
/// `random[i]`.
pub open spec fn run_cycles(
    m: MachineView,
    keys: KeypadView,
    q: Quirks,
    random: Seq<u8>,
    n: nat,
) -> (MachineView, KeypadView, Result<(), Fault>)
    decreases n,
{
    if n == 0 {
        (m, keys, Ok(()))
    } else {
        let (m1, keys1, r1) = run_cycles(m, keys, q, random, (n - 1) as nat);
        if halted(m1, keys1, r1) {
            (m1, keys1, r1)
        } else {
            match cycle(m1, keys1, q, random[n - 1]) {
                Ok((m2, keys2)) => (m2, keys2, Ok(())),
                Err(e) => (m1, keys1, Err(e)),
            }
        }
    }
}

/// A timer after one tick.
pub open spec fn count_down(t: u8) -> u8 {
    if t > 0 {
        (t - 1) as u8
    } else {
        0
    }
}

/// The end of a frame: both timers count down once.
pub open spec fn tick(m: MachineView) -> MachineView {
    MachineView {
        state: StateView {
            delay_timer: count_down(m.state.delay_timer),
            sound_timer: count_down(m.state.sound_timer),
            ..m.state
        },
        ..m
    }
}

/// A frame of up to `n` instructions followed by one timer tick.
pub open spec fn frame(m: MachineView, keys: KeypadView, q: Quirks, random: Seq<u8>, n: nat) -> (
    MachineView,
    Result<(), Fault>,
) {
    let (m1, _, r) = run_cycles(m, keys, q, random, n);
    (tick(m1), r)
}

/// Memory with `program` written from `PROGRAM_START` on.
pub open spec fn loaded(memory: Seq<u8>, program: Seq<u8>) -> Seq<u8> {
    Seq::new(
        memory.len(),
        |a: int|
            if PROGRAM_START <= a < PROGRAM_START + program.len() {
                program[a - PROGRAM_START]
            } else {
                memory[a]
            },
    )
}

/// Once a frame has halted, further cycles change nothing.
pub proof fn lemma_halted_stays(
    m: MachineView,
    keys: KeypadView,
    q: Quirks,
    random: Seq<u8>,
    i: nat,
    n: nat,
)
    requires
        i <= n,
        ({
            let (m1, keys1, r1) = run_cycles(m, keys, q, random, i);
            halted(m1, keys1, r1)
        }),
    ensures
        run_cycles(m, keys, q, random, n) == run_cycles(m, keys, q, random, i),
    decreases n - i,
{
    if n > i {
        lemma_halted_stays(m, keys, q, random, i, (n - 1) as nat);
    }
}

/// The instruction writes a timer: `FX15` or `FX18`.
pub open spec fn sets_timer(code: u16) -> bool {
    digit_of(code) == 0xF && (nn_of(code) == 0x15 || nn_of(code) == 0x18)
}

/// The instruction is a key wait, `FX0A`.
pub open spec fn is_key_wait(code: u16) -> bool {
    digit_of(code) == 0xF && nn_of(code) == 0x0A
}

/// A frame counts each timer down exactly once, by one and not below zero,
/// after its instructions have run, whatever their number.
pub proof fn lemma_frame_ticks_once(
    m: MachineView,
    keys: KeypadView,
    q: Quirks,
    random: Seq<u8>,
    n: nat,
)
    ensures
        ({
            let (after, _, _) = run_cycles(m, keys, q, random, n);
            let (end, _) = frame(m, keys, q, random, n);
            &&& end.state.delay_timer == count_down(after.state.delay_timer)
            &&& end.state.sound_timer == count_down(after.state.sound_timer)
            &&& end == tick(after)
        }),
{
}

/// One of the first `n` cycles of a frame executes `FX15` or `FX18`.
pub open spec fn writes_timer_within(
    m: MachineView,
    keys: KeypadView,
    q: Quirks,
    random: Seq<u8>,
    n: nat,
) -> bool
    decreases n,
{
    if n == 0 {
        false
    } else {
        let (m1, keys1, r1) = run_cycles(m, keys, q, random, (n - 1) as nat);
        let here = match fetch_spec(m1.state) {
            Ok(code) => sets_timer(code),
            Err(_) => false,
        };
        writes_timer_within(m, keys, q, random, (n - 1) as nat) || (!halted(m1, keys1, r1) && here)
    }
}

proof fn lemma_cycles_keep_timers(
    m: MachineView,
    keys: KeypadView,
    q: Quirks,
    random: Seq<u8>,
    n: nat,
)
    requires
        !writes_timer_within(m, keys, q, random, n),
    ensures
        run_cycles(m, keys, q, random, n).0.state.delay_timer == m.state.delay_timer,
        run_cycles(m, keys, q, random, n).0.state.sound_timer == m.state.sound_timer,
    decreases n,
{
    if n > 0 {
        lemma_cycles_keep_timers(m, keys, q, random, (n - 1) as nat);
        let (m1, keys1, r1) = run_cycles(m, keys, q, random, (n - 1) as nat);
        if !halted(m1, keys1, r1) {
            reveal(cycle);
            if let Ok(code) = fetch_spec(m1.state) {
                lemma_only_timer_instructions_set_timers(m1, keys1, code, q, random[n - 1]);
            }
        }
    }
}

/// A frame that executes neither `FX15` nor `FX18` leaves each timer exactly
/// one below where it started (and zero at zero), whatever the number of
/// instructions it ran.
pub proof fn lemma_step_counts_down_once(
    m: MachineView,
    keys: KeypadView,
    q: Quirks,
    random: Seq<u8>,
    n: nat,
)
    requires
        !writes_timer_within(m, keys, q, random, n),
    ensures
        frame(m, keys, q, random, n).0.state.delay_timer == count_down(m.state.delay_timer),
        frame(m, keys, q, random, n).0.state.sound_timer == count_down(m.state.sound_timer),
{
    lemma_cycles_keep_timers(m, keys, q, random, n);
}

/// No instruction but `FX15` and `FX18` changes a timer.
pub proof fn lemma_only_timer_instructions_set_timers(
    m: MachineView,
    keys: KeypadView,
    code: u16,
    q: Quirks,
    random: u8,
)
    requires
        !sets_timer(code),
    ensures
        apply(m, keys, code, q, random) matches Ok((after, _)) ==> after.state.delay_timer
            == m.state.delay_timer && after.state.sound_timer == m.state.sound_timer,
{
    reveal(apply);
}

/// Executing `FX0A` when no key has been released suspends the machine: the
/// program counter stays on the `FX0A` and the registers are untouched.
pub proof fn lemma_wait_begins(
    m: MachineView,
    keys: KeypadView,
    code: u16,
    q: Quirks,
    random: u8,
)
    requires
        !m.state.should_wait,
        fetch_spec(m.state) == Ok::<u16, Fault>(code),
        is_key_wait(code),
        keys.released is None,
    ensures
        cycle(m, keys, q, random) == Ok::<(MachineView, KeypadView), Fault>(
            (
                MachineView {
                    state: StateView { should_wait: true, did_jump: false, ..m.state },
                    ..m
                },
                keys,
            ),
        ),
{
    reveal(cycle);
    reveal(apply);
    let waiting = MachineView { state: StateView { should_wait: true, ..m.state }, ..m };
    let after = MachineView { state: StateView { did_jump: false, ..waiting.state }, ..m };
    assert(advance(waiting) =~= after);
}

/// While the machine waits and no key has been released, a frame of any
/// length executes nothing: registers, memory and program counter stay, and
/// only the timers count down.
pub proof fn lemma_wait_holds(
    m: MachineView,
    keys: KeypadView,
    q: Quirks,
    random: Seq<u8>,
    n: nat,
)
    requires
        m.state.should_wait,
        keys.released is None,
    ensures
        frame(m, keys, q, random, n) == (tick(m), Ok::<(), Fault>(())),
{
    lemma_halted_stays(m, keys, q, random, 0, n);
}

/// A release of key `k` while the machine waits on `FX0A` writes `k` to
/// `VX`, ends the wait and moves the program counter past the `FX0A`; the
/// release is used up.
pub proof fn lemma_wait_resumes(
    m: MachineView,
    keys: KeypadView,
    code: u16,
    q: Quirks,
    random: u8,
    k: u8,
)
    requires
        m.state.should_wait,
        !m.state.did_jump,
        fetch_spec(m.state) == Ok::<u16, Fault>(code),
        is_key_wait(code),
        keys.released == Some(k),
    ensures
        cycle(m, keys, q, random) == Ok::<(MachineView, KeypadView), Fault>(
            (
                MachineView {
                    state: StateView {
                        should_wait: false,
                        pc: wrap16(m.state.pc + 2),
                        ..m.state.with_v(x_of(code) as int, k)
                    },
                    ..m
                },
                KeypadView { released: None, ..keys },
            ),
        ),
{
    reveal(cycle);
    reveal(apply);
    let written = StateView { should_wait: false, ..m.state.with_v(x_of(code) as int, k) };
    let resumed = MachineView { state: StateView { pc: wrap16(m.state.pc + 2), ..written }, ..m };
    assert(advance(MachineView { state: written, ..m }) =~= resumed);
}

/// A CHIP-8 machine: state, framebuffer and the quirks it was built with.
pub struct Chip8 {
    state: ChipState,
    display: Display,
    quirks: Quirks,
}

impl View for Chip8 {
    type V = MachineView;

    closed spec fn view(&self) -> MachineView {
        MachineView { state: self.state@, screen: self.display@ }
    }
}

impl Chip8 {
    pub closed spec fn quirks_spec(&self) -> Quirks {
        self.quirks
    }

    /// A machine with the quirks of the COSMAC VIP interpreter.
    pub fn new() -> (c: Chip8)
        ensures
            c@ == (MachineView { state: initial_state(), screen: blank() }),
            c.quirks_spec().increment_index_spec(),
            c.quirks_spec().shifting_spec(),
            !c.quirks_spec().jumping_spec(),
    {
        Chip8::with_quirks(Quirks::for_chip8())
    }

    pub fn with_quirks(quirks: Quirks) -> (c: Chip8)
        ensures
            c@ == (MachineView { state: initial_state(), screen: blank() }),
            c.quirks_spec() == quirks,
    {
        Chip8 { state: ChipState::init(), display: Display::new(), quirks }
    }

    pub fn quirks(&self) -> (q: Quirks)
        ensures
            q == self.quirks_spec(),
    {
        self.quirks
    }

    pub fn state(&self) -> (s: &ChipState)
        ensures
            s@ == self@.state,
    {
        &self.state
    }

    pub fn display(&self) -> (d: &Display)
        ensures
            d@ == self@.screen,
    {
        &self.display
    }

    /// Writes `program` into memory from `PROGRAM_START` on. A program that
    /// does not fit is refused and nothing is written.
    pub fn load_program(&mut self, program: &[u8]) -> (r: Result<(), Fault>)
        ensures
            r is Ok <==> program@.len() <= MEMORY_SIZE - PROGRAM_START,
            r is Ok ==> final(self)@ == (MachineView {
                state: StateView {
                    memory: loaded(old(self)@.state.memory, program@),
                    ..old(self)@.state
                },
                ..old(self)@
            }),
            r is Err ==> r == Err::<(), Fault>(Fault::ProgramTooLarge) && final(self)@ == old(
                self,
            )@,
            final(self).quirks_spec() == old(self).quirks_spec(),
    {
        if program.len() > MEMORY_SIZE - PROGRAM_START as usize {
            return Err(Fault::ProgramTooLarge);
        }
        let ghost before = self@;
        let start = PROGRAM_START as usize;
        let mut i: usize = 0;
        while i < program.len()
            invariant
                start == PROGRAM_START,
                program.len() <= MEMORY_SIZE - PROGRAM_START,
                i <= program.len(),
                self.quirks == old(self).quirks,
                self@ == (MachineView {
                    state: StateView {
                        memory: Seq::new(
                            before.state.memory.len(),
                            |a: int|
                                if start <= a < start + i {
                                    program@[a - start]
                                } else {
                                    before.state.memory[a]
                                },
                        ),
                        ..before.state
                    },
                    ..before
                }),
            decreases program.len() - i,
        {
            self.state.memory[start + i] = program[i];
            i = i + 1;
            assert(self@.state.memory =~= Seq::new(
                before.state.memory.len(),
                |a: int|
                    if start <= a < start + i {
                        program@[a - start]
                    } else {
                        before.state.memory[a]
                    },
            ));
        }
        assert(self@.state.memory =~= loaded(before.state.memory, program@));
        Ok(())
    }

    /// The instruction word at the program counter.
    pub fn fetch(&self) -> (r: Result<u16, Fault>)
        ensures
            r == fetch_spec(self@.state),
    {
        let pc = self.state.pc as usize;
        if pc + 1 >= MEMORY_SIZE {
            return Err(Fault::AddressOutOfRange);
        }
        let mut op = OpCode::init();
        op.update(pc, &self.state.memory);
        Ok(op.code())
    }

    /// One instruction cycle.
    fn execute_cycle(&mut self, keys: &mut Keypad, random: u8) -> (r: Result<(), Fault>)
        ensures
            outcome(
                old(self)@,
                old(keys)@,
                final(self)@,
                final(keys)@,
                r,
                cycle(old(self)@, old(keys)@, old(self).quirks_spec(), random),
            ),
            final(self).quirks_spec() == old(self).quirks_spec(),
    {
        proof {
            reveal(cycle);
        }
        let code = match self.fetch() {
            Ok(code) => code,
            Err(e) => return Err(e),
        };
        match run(code, &mut self.state, &self.quirks, &mut self.display, keys, random) {
            Ok(()) => {
                if !self.state.did_jump && !self.state.should_wait {
                    self.state.pc = self.state.pc.wrapping_add(2);
                }
                self.state.did_jump = false;
                Ok(())
            },
            Err(e) => Err(e),
        }
    }

    /// Runs one frame: up to `ipf` instructions, then one tick of both
    /// timers. Instruction `i` of the frame is offered `random[i]` as its
    /// random byte. Execution stops early when the machine waits for a key
    /// that has not been released, or on a fault, which is returned.
    pub fn step_with(&mut self, ipf: u32, keys: &Keypad, random: &Vec<u8>) -> (r: Result<(), Fault>)
        requires
            random.len() >= ipf,
        ensures
            (final(self)@, r) == frame(
                old(self)@,
                keys@,
                old(self).quirks_spec(),
                random@,
                ipf as nat,
            ),
            final(self).quirks_spec() == old(self).quirks_spec(),
    {
        let ghost m0 = self@;
        let ghost q = self.quirks;
        let mut keys = *keys;
        let ghost k0 = keys@;
        let mut result: Result<(), Fault> = Ok(());
        let mut live = !(self.state.should_wait && keys.released().is_none());
        let mut i: u32 = 0;
        while i < ipf && live
            invariant
                i <= ipf <= random.len(),
                self.quirks == q,
                (self@, keys@, result) == run_cycles(m0, k0, q, random@, i as nat),
                live == !halted(self@, keys@, result),
            decreases ipf - i,
        {
            result = self.execute_cycle(&mut keys, random[i as usize]);
            i = i + 1;
            live = result.is_ok() && !(self.state.should_wait && keys.released().is_none());
        }
        proof {
            if i < ipf {
                lemma_halted_stays(m0, k0, q, random@, i as nat, ipf as nat);
            }
        }
        if self.state.delay_timer > 0 {
            self.state.delay_timer = self.state.delay_timer - 1;
        }
        if self.state.sound_timer > 0 {
            self.state.sound_timer = self.state.sound_timer - 1;
        }
        assert(self@ =~= tick(run_cycles(m0, k0, q, random@, ipf as nat).0));
        result
    }

    /// Runs one frame as `step_with` does, with random bytes drawn from the
    /// thread's random number generator.
    pub fn step(&mut self, ipf: u32, keys: &Keypad) -> (r: Result<(), Fault>)
        ensures
            exists|random: Seq<u8>|
                random.len() == ipf && (final(self)@, r) == #[trigger] frame(
                    old(self)@,
                    keys@,
                    old(self).quirks_spec(),
                    random,
                    ipf as nat,
                ),
            final(self).quirks_spec() == old(self).quirks_spec(),
    {
        let mut random: Vec<u8> = Vec::new();
        let mut i: u32 = 0;
        while i < ipf
            invariant
                i <= ipf,
                random.len() == i,
            decreases ipf - i,
        {
            random.push(random_byte());
            i = i + 1;
        }
        self.step_with(ipf, keys, &random)
    }

    pub fn is_running(&self) -> (r: bool)
        ensures
            r == self@.state.running,
    {
        self.state.running
    }

    /// Marks the machine as stopped, as asked by whoever drives it.
    pub fn stop(&mut self)
        ensures
            final(self)@ == (MachineView {
                state: StateView { running: false, ..old(self)@.state },
                ..old(self)@
            }),
            final(self).quirks_spec() == old(self).quirks_spec(),
    {
        self.state.running = false;
    }

    /// The tone should sound: the sound timer is not zero.
    pub fn sound_active(&self) -> (r: bool)
        ensures
            r == (self@.state.sound_timer > 0),
    {
        self.state.sound_timer > 0
    }

    /// Reports whether the framebuffer changed since the last call, and
    /// clears that mark.
    pub fn take_redraw(&mut self) -> (r: bool)
        ensures
            r == old(self)@.state.should_draw,
            final(self)@ == (MachineView {
                state: StateView { should_draw: false, ..old(self)@.state },
                ..old(self)@
            }),
            final(self).quirks_spec() == old(self).quirks_spec(),
    {
        let r = self.state.should_draw;
        self.state.should_draw = false;
        r
    }
}

} // verus!
