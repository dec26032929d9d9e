use vstd::prelude::*;

use rand::Rng;

use crate::alu::{alu, logic_op};
use crate::display::{
    blank, collides, drawn, lemma_blank_never_collides, lemma_draw_twice_restores, Display,
};
use crate::keypad::{key_down, Keypad, KeypadView};
use crate::parser::{
    digit_of, get_digit, get_n, get_nn, get_nnn, get_x, get_y, n_of, nn_of, nnn_of, x_of, y_of,
    OpCode,
};
use crate::quirks::Quirks;
use crate::state::{
    wrap16, ChipState, Fault, StateView, FLAG, FONT_START, GLYPH_SIZE, MAX_STACK_DEPTH,
    MEMORY_SIZE,
};

verus! {

/// The part of the machine that instructions act on: registers, memory and
/// flags, and the framebuffer.
#[verifier::ext_equal]
pub struct MachineView {
    pub state: StateView,
    pub screen: Seq<u64>,
}

/// The `len` bytes from `start` on lie in memory.
pub open spec fn range_ok(start: u16, len: int) -> bool {
    len == 0 || start + len <= MEMORY_SIZE
}

/// `00E0` clears the screen; `00EE` returns from a subroutine; any other
/// `0NNN` does nothing.
pub open spec fn exec_00en(s: StateView, screen: Seq<u64>, code: u16) -> Result<
    (StateView, Seq<u64>),
    Fault,
> {
    if code == 0x00E0 {
        Ok((StateView { should_draw: true, ..s }, blank()))
    } else if code == 0x00EE {
        if s.stack.len() == 0 {
            Err(Fault::StackUnderflow)
        } else {
            Ok((StateView { pc: s.stack.last(), stack: s.stack.drop_last(), ..s }, screen))
        }
    } else {
        Ok((s, screen))
    }
}

/// `1NNN`: jump to `NNN`.
pub open spec fn exec_1nnn(s: StateView, code: u16) -> StateView {
    StateView { pc: nnn_of(code), did_jump: true, ..s }
}

/// `2NNN`: call the subroutine at `NNN`.
pub open spec fn exec_2nnn(s: StateView, code: u16) -> Result<StateView, Fault> {
    if s.stack.len() >= MAX_STACK_DEPTH {
        Err(Fault::StackOverflow)
    } else {
        Ok(StateView { stack: s.stack.push(s.pc), pc: nnn_of(code), did_jump: true, ..s })
    }
}

/// `3XNN`: skip the next instruction if `VX == NN`.
pub open spec fn exec_3xnn(s: StateView, code: u16) -> StateView {
    if s.v(x_of(code) as int) == nn_of(code) {
        s.skipped()
    } else {
        s
    }
}

/// `4XNN`: skip the next instruction if `VX != NN`.
pub open spec fn exec_4xnn(s: StateView, code: u16) -> StateView {
    if s.v(x_of(code) as int) != nn_of(code) {
        s.skipped()
    } else {
        s
    }
}

/// `5XY0`: skip the next instruction if `VX == VY`.
pub open spec fn exec_5xy0(s: StateView, code: u16) -> StateView {
    if s.v(x_of(code) as int) == s.v(y_of(code) as int) {
        s.skipped()
    } else {
        s
    }
}

/// `6XNN`: `VX = NN`.
pub open spec fn exec_6xnn(s: StateView, code: u16) -> StateView {
    s.with_v(x_of(code) as int, nn_of(code))
}

/// `7XNN`: `VX = VX + NN` modulo 256; the flag is left alone.
pub open spec fn exec_7xnn(s: StateView, code: u16) -> StateView {
    s.with_v(x_of(code) as int, ((s.v(x_of(code) as int) + nn_of(code)) % 256) as u8)
}

/// `8XYn`: the register operation `n` on `VX` and `VY`; the result goes to
/// `VX` and then the flag to `VF`, so that with `X = F` the flag is what stays.
pub open spec fn exec_8xyn(s: StateView, code: u16, shift_vy: bool) -> StateView {
    let x = x_of(code) as int;
    match alu(n_of(code), s.v(x), s.v(y_of(code) as int), shift_vy) {
        Some((value, flag)) => s.with_v(x, value).with_v(FLAG as int, flag),
        None => s,
    }
}

/// `9XY0`: skip the next instruction if `VX != VY`.
pub open spec fn exec_9xy0(s: StateView, code: u16) -> StateView {
    if s.v(x_of(code) as int) != s.v(y_of(code) as int) {
        s.skipped()
    } else {
        s
    }
}

/// `ANNN`: `I = NNN`.
pub open spec fn exec_annn(s: StateView, code: u16) -> StateView {
    StateView { vi: nnn_of(code), ..s }
}

/// `BNNN`: jump to `NNN` plus `V0`, or plus the register named by the top
/// nibble of `NNN` when `use_x`.
pub open spec fn exec_bnnn(s: StateView, code: u16, use_x: bool) -> StateView {
    let reg = if use_x {
        x_of(code) as int
    } else {
        0
    };
    StateView { pc: (nnn_of(code) + s.v(reg)) as u16, did_jump: true, ..s }
}

/// `CXNN`: `VX = random AND NN`.
pub open spec fn exec_cxnn(s: StateView, code: u16, random: u8) -> StateView {
    s.with_v(x_of(code) as int, random & nn_of(code))
}

/// The `n` bytes of memory from `I` on.
pub open spec fn sprite_at(s: StateView, n: int) -> Seq<u8> {
    Seq::new(n as nat, |i: int| s.memory[s.vi + i])
}

/// `DXYN`: draw the `N`-row sprite at `I` at (`VX`, `VY`); `VF` is 1 exactly
/// when a lit pixel was turned off.
pub open spec fn exec_dxyn(s: StateView, screen: Seq<u64>, code: u16) -> Result<
    (StateView, Seq<u64>),
    Fault,
> {
    let n = n_of(code) as int;
    if !range_ok(s.vi, n) {
        Err(Fault::AddressOutOfRange)
    } else {
        let sprite = sprite_at(s, n);
        let vx = s.v(x_of(code) as int);
        let vy = s.v(y_of(code) as int);
        let flag: u8 = if collides(screen, sprite, vx, vy) {
            1
        } else {
            0
        };
        Ok(
            (
                StateView { should_draw: true, ..s.with_v(FLAG as int, flag) },
                drawn(screen, sprite, vx, vy),
            ),
        )
    }
}

/// Executing the same `DXYN` twice, with neither `X` nor `Y` the flag
/// register, restores the screen.
pub proof fn lemma_dxyn_twice_restores(s: StateView, screen: Seq<u64>, code: u16)
    requires
        s.registers.len() == 16,
        x_of(code) != FLAG,
        y_of(code) != FLAG,
        range_ok(s.vi, n_of(code) as int),
    ensures
        exec_dxyn(s, screen, code) matches Ok((s1, screen1)) && exec_dxyn(s1, screen1, code) matches Ok(
            (_, screen2),
        ) && screen2 == screen,
{
    let n = n_of(code) as int;
    let vx = s.v(x_of(code) as int);
    let vy = s.v(y_of(code) as int);
    let s1 = exec_dxyn(s, screen, code).unwrap().0;
    assert(sprite_at(s1, n) =~= sprite_at(s, n));
    lemma_draw_twice_restores(screen, sprite_at(s, n), vx, vy);
}

/// `DXYN` on a dark screen sets `VF` to 0.
pub proof fn lemma_dxyn_on_blank_clears_flag(s: StateView, screen: Seq<u64>, code: u16)
    requires
        s.registers.len() == 16,
        range_ok(s.vi, n_of(code) as int),
        forall|r: int| 0 <= r < screen.len() ==> screen[r] == 0,
    ensures
        exec_dxyn(s, screen, code) matches Ok((s1, _)) && s1.v(FLAG as int) == 0,
{
    lemma_blank_never_collides(
        screen,
        sprite_at(s, n_of(code) as int),
        s.v(x_of(code) as int),
        s.v(y_of(code) as int),
    );
}

/// `EX9E` skips the next instruction if key `VX` is down, `EXA1` if it is
/// not; any other `EXNN` does nothing.
pub open spec fn exec_exnn(s: StateView, code: u16, keys: KeypadView) -> StateView {
    let down = key_down(keys, s.v(x_of(code) as int));
    if nn_of(code) == 0x9E {
        if down {
            s.skipped()
        } else {
            s
        }
    } else if nn_of(code) == 0xA1 {
        if !down {
            s.skipped()
        } else {
            s
        }
    } else {
        s
    }
}

/// Memory after `FX33`: the hundreds, tens and units of `value` at `at`,
/// `at + 1` and `at + 2`.
pub open spec fn bcd_stored(memory: Seq<u8>, at: int, value: u8) -> Seq<u8> {
    memory.update(at, (value / 100) as u8).update(at + 1, (value % 100 / 10) as u8).update(
        at + 2,
        (value % 10) as u8,
    )
}

/// Memory after `FX55`: registers `V0..=VX` copied to `I..=I+X`.
pub open spec fn block_stored(s: StateView, x: int) -> Seq<u8> {
    Seq::new(
        s.memory.len(),
        |a: int|
            if s.vi <= a <= s.vi + x {
                s.registers[a - s.vi]
            } else {
                s.memory[a]
            },
    )
}

/// Registers after `FX65`: `V0..=VX` loaded from `I..=I+X`.
pub open spec fn block_loaded(s: StateView, x: int) -> Seq<u8> {
    Seq::new(
        s.registers.len(),
        |i: int|
            if i <= x {
                s.memory[s.vi + i]
            } else {
                s.registers[i]
            },
    )
}

/// The `FXNN` group: timers, index arithmetic, decimal conversion, block
/// transfers and the key wait. Any other `FXNN` does nothing.
pub open spec fn exec_fxnn(s: StateView, keys: KeypadView, code: u16, increment_index: bool) -> Result<
    (StateView, KeypadView),
    Fault,
> {
    let x = x_of(code) as int;
    let vx = s.v(x);
    let nn = nn_of(code);
    if nn == 0x07 {
        Ok((s.with_v(x, s.delay_timer), keys))
    } else if nn == 0x0A {
        match keys.released {
            Some(key) => Ok(
                (
                    StateView { should_wait: false, ..s.with_v(x, key) },
                    KeypadView { released: None, ..keys },
                ),
            ),
            None => Ok((StateView { should_wait: true, ..s }, keys)),
        }
    } else if nn == 0x15 {
        Ok((StateView { delay_timer: vx, ..s }, keys))
    } else if nn == 0x18 {
        Ok((StateView { sound_timer: vx, ..s }, keys))
    } else if nn == 0x1E {
        Ok((StateView { vi: wrap16(s.vi + vx), ..s }, keys))
    } else if nn == 0x29 {
        Ok((StateView { vi: (FONT_START + vx * GLYPH_SIZE) as u16, ..s }, keys))
    } else if nn == 0x33 {
        if !range_ok(s.vi, 3) {
            Err(Fault::AddressOutOfRange)
        } else {
            Ok((StateView { memory: bcd_stored(s.memory, s.vi as int, vx), ..s }, keys))
        }
    } else if nn == 0x55 {
        if !range_ok(s.vi, x + 1) {
            Err(Fault::AddressOutOfRange)
        } else {
            let vi = if increment_index {
                (s.vi + x + 1) as u16
            } else {
                s.vi
            };
            Ok((StateView { memory: block_stored(s, x), vi, ..s }, keys))
        }
    } else if nn == 0x65 {
        if !range_ok(s.vi, x + 1) {
            Err(Fault::AddressOutOfRange)
        } else {
            Ok((StateView { registers: block_loaded(s, x), ..s }, keys))
        }
    } else {
        Ok((s, keys))
    }
}

/// The machine with its registers, memory and flags replaced by `s`.
pub open spec fn with_state(m: MachineView, s: StateView, keys: KeypadView) -> Result<
    (MachineView, KeypadView),
    Fault,
> {
    Ok((MachineView { state: s, ..m }, keys))
}

/// The effect of executing the instruction `code`, before the program
/// counter moves on. `random` is the byte a `CXNN` draws. A fault leaves the
/// machine as it was.
#[verifier::opaque]
pub open spec fn apply(
    m: MachineView,
    keys: KeypadView,
    code: u16,
    q: Quirks,
    random: u8,
) -> Result<(MachineView, KeypadView), Fault> {
    let s = m.state;
    let d = digit_of(code);
    let n = n_of(code);
    if d == 0x0 {
        match exec_00en(s, m.screen, code) {
            Ok((s2, screen)) => Ok((MachineView { state: s2, screen }, keys)),
            Err(e) => Err(e),
        }
    } else if d == 0x1 {
        with_state(m, exec_1nnn(s, code), keys)
    } else if d == 0x2 {
        match exec_2nnn(s, code) {
            Ok(s2) => with_state(m, s2, keys),
            Err(e) => Err(e),
        }
    } else if d == 0x3 {
        with_state(m, exec_3xnn(s, code), keys)
    } else if d == 0x4 {
        with_state(m, exec_4xnn(s, code), keys)
    } else if d == 0x5 {
        if n == 0 {
            with_state(m, exec_5xy0(s, code), keys)
        } else {
            Ok((m, keys))
        }
    } else if d == 0x6 {
        with_state(m, exec_6xnn(s, code), keys)
    } else if d == 0x7 {
        with_state(m, exec_7xnn(s, code), keys)
    } else if d == 0x8 {
        with_state(m, exec_8xyn(s, code, q.shifting_spec()), keys)
    } else if d == 0x9 {
        if n == 0 {
            with_state(m, exec_9xy0(s, code), keys)
        } else {
            Ok((m, keys))
        }
    } else if d == 0xA {
        with_state(m, exec_annn(s, code), keys)
    } else if d == 0xB {
        with_state(m, exec_bnnn(s, code, q.jumping_spec()), keys)
    } else if d == 0xC {
        with_state(m, exec_cxnn(s, code, random), keys)
    } else if d == 0xD {
        match exec_dxyn(s, m.screen, code) {
            Ok((s2, screen)) => Ok((MachineView { state: s2, screen }, keys)),
            Err(e) => Err(e),
        }
    } else if d == 0xE {
        with_state(m, exec_exnn(s, code, keys), keys)
    } else {
        match exec_fxnn(s, keys, code, q.increment_index_spec()) {
            Ok((s2, keys2)) => with_state(m, s2, keys2),
            Err(e) => Err(e),
        }
    }
}

/// Relies on `rand::thread_rng` and `Rng::gen::<u8>`: some byte, drawn
/// uniformly.
#[verifier::external_body]
pub(crate) fn random_byte() -> (r: u8) {
    rand::thread_rng().gen::<u8>()
}

pub fn run_00en(opcode: u16, state: &mut ChipState, screen: &mut Display) -> (r: Result<(), Fault>)
    ensures
        match exec_00en(old(state)@, old(screen)@, opcode) {
            Ok((s, scr)) => r == Ok::<(), Fault>(()) && final(state)@ == s && final(screen)@ == scr,
            Err(e) => r == Err::<(), Fault>(e) && final(state)@ == old(state)@ && final(screen)@
                == old(screen)@,
        },
{
    if opcode == 0x00E0 {
        screen.clear();
        state.should_draw = true;
        Ok(())
    } else if opcode == 0x00EE {
        match state.stack.pop() {
            Some(address) => {
                state.pc = address;
                Ok(())
            },
            None => Err(Fault::StackUnderflow),
        }
    } else {
        Ok(())
    }
}

pub fn run_1nnn(opcode: u16, state: &mut ChipState)
    ensures
        final(state)@ == exec_1nnn(old(state)@, opcode),
{
    state.pc = get_nnn(opcode);
    state.did_jump = true;
}

pub fn run_2nnn(opcode: u16, state: &mut ChipState) -> (r: Result<(), Fault>)
    ensures
        match exec_2nnn(old(state)@, opcode) {
            Ok(s) => r == Ok::<(), Fault>(()) && final(state)@ == s,
            Err(e) => r == Err::<(), Fault>(e) && final(state)@ == old(state)@,
        },
{
    if state.stack.len() >= MAX_STACK_DEPTH {
        return Err(Fault::StackOverflow);
    }
    state.stack.push(state.pc);
    state.pc = get_nnn(opcode);
    state.did_jump = true;
    Ok(())
}

pub fn run_3xnn(opcode: u16, state: &mut ChipState)
    ensures
        final(state)@ == exec_3xnn(old(state)@, opcode),
{
    let x = get_x(opcode) as usize;
    if state.registers[x] == get_nn(opcode) {
        state.skip();
    }
}

pub fn run_4xnn(opcode: u16, state: &mut ChipState)
    ensures
        final(state)@ == exec_4xnn(old(state)@, opcode),
{
    let x = get_x(opcode) as usize;
    if state.registers[x] != get_nn(opcode) {
        state.skip();
    }
}

pub fn run_5xy0(opcode: u16, state: &mut ChipState)
    ensures
        final(state)@ == exec_5xy0(old(state)@, opcode),
{
    let x = get_x(opcode) as usize;
    let y = get_y(opcode) as usize;
    if state.registers[x] == state.registers[y] {
        state.skip();
    }
}

pub fn run_6xnn(opcode: u16, state: &mut ChipState)
    ensures
        final(state)@ == exec_6xnn(old(state)@, opcode),
{
    let x = get_x(opcode) as usize;
    state.registers[x] = get_nn(opcode);
}

pub fn run_7xnn(opcode: u16, state: &mut ChipState)
    ensures
        final(state)@ == exec_7xnn(old(state)@, opcode),
{
    let x = get_x(opcode) as usize;
    let sum = state.registers[x] as u16 + get_nn(opcode) as u16;
    state.registers[x] = (sum % 256) as u8;
}

pub fn run_8xyn(opcode: u16, state: &mut ChipState, shift_vy: bool)
    ensures
        final(state)@ == exec_8xyn(old(state)@, opcode, shift_vy),
{
    let x = get_x(opcode) as usize;
    let y = get_y(opcode) as usize;
    match logic_op(get_n(opcode), state.registers[x], state.registers[y], shift_vy) {
        Some((value, flag)) => {
            state.registers[x] = value;
            state.registers[FLAG] = flag;
        },
        None => {},
    }
}

pub fn run_9xy0(opcode: u16, state: &mut ChipState)
    ensures
        final(state)@ == exec_9xy0(old(state)@, opcode),
{
    let x = get_x(opcode) as usize;
    let y = get_y(opcode) as usize;
    if state.registers[x] != state.registers[y] {
        state.skip();
    }
}

pub fn run_annn(opcode: u16, state: &mut ChipState)
    ensures
        final(state)@ == exec_annn(old(state)@, opcode),
{
    state.vi = get_nnn(opcode);
}

pub fn run_bnnn(opcode: u16, state: &mut ChipState, use_x: bool)
    ensures
        final(state)@ == exec_bnnn(old(state)@, opcode, use_x),
{
    let reg = if use_x {
        get_x(opcode) as usize
    } else {
        0
    };
    state.pc = get_nnn(opcode) + state.registers[reg] as u16;
    state.did_jump = true;
}

/// `CXNN` with the byte `random` standing for the draw.
pub fn run_cxnn_with(opcode: u16, state: &mut ChipState, random: u8)
    ensures
        final(state)@ == exec_cxnn(old(state)@, opcode, random),
{
    let x = get_x(opcode) as usize;
    state.registers[x] = random & get_nn(opcode);
}

/// `CXNN` with a byte drawn from the thread's random number generator.
pub fn run_cxnn(opcode: u16, state: &mut ChipState)
    ensures
        exists|random: u8| final(state)@ == exec_cxnn(old(state)@, opcode, random),
{
    let random = random_byte();
    run_cxnn_with(opcode, state, random);
}

pub fn run_dxyn(opcode: u16, state: &mut ChipState, screen: &mut Display) -> (r: Result<
    (),
    Fault,
>)
    ensures
        match exec_dxyn(old(state)@, old(screen)@, opcode) {
            Ok((s, scr)) => r == Ok::<(), Fault>(()) && final(state)@ == s && final(screen)@ == scr,
            Err(e) => r == Err::<(), Fault>(e) && final(state)@ == old(state)@ && final(screen)@
                == old(screen)@,
        },
{
    let n = get_n(opcode) as usize;
    if n > 0 && state.vi as usize + n > MEMORY_SIZE {
        return Err(Fault::AddressOutOfRange);
    }
    let mut sprite: Vec<u8> = Vec::new();
    let mut i: usize = 0;
    while i < n
        invariant
            i <= n,
            n == n_of(opcode),
            n == 0 || state.vi + n <= MEMORY_SIZE,
            sprite@ == sprite_at(state@, i as int),
        decreases n - i,
    {
        sprite.push(state.memory[state.vi as usize + i]);
        i = i + 1;
        assert(sprite@ =~= sprite_at(state@, i as int));
    }
    let vx = state.registers[get_x(opcode) as usize];
    let vy = state.registers[get_y(opcode) as usize];
    let hit = screen.draw_sprite(&sprite, vx, vy);
    state.registers[FLAG] = if hit {
        1
    } else {
        0
    };
    state.should_draw = true;
    Ok(())
}

pub fn run_exnn(opcode: u16, state: &mut ChipState, keys: &Keypad)
    ensures
        final(state)@ == exec_exnn(old(state)@, opcode, keys@),
{
    let down = keys.is_down(state.registers[get_x(opcode) as usize]);
    let nn = get_nn(opcode);
    if nn == 0x9E {
        if down {
            state.skip();
        }
    } else if nn == 0xA1 {
        if !down {
            state.skip();
        }
    }
}

pub fn run_fxnn(opcode: u16, state: &mut ChipState, keys: &mut Keypad, increment_index: bool) -> (r:
    Result<(), Fault>)
    ensures
        match exec_fxnn(old(state)@, old(keys)@, opcode, increment_index) {
            Ok((s, k)) => r == Ok::<(), Fault>(()) && final(state)@ == s && final(keys)@ == k,
            Err(e) => r == Err::<(), Fault>(e) && final(state)@ == old(state)@ && final(keys)@
                == old(keys)@,
        },
{
    let x = get_x(opcode) as usize;
    let vx = state.registers[x];
    let nn = get_nn(opcode);
    if nn == 0x07 {
        state.registers[x] = state.delay_timer;
    } else if nn == 0x0A {
        match keys.take_released() {
            Some(key) => {
                state.registers[x] = key;
                state.should_wait = false;
            },
            None => {
                state.should_wait = true;
            },
        }
    } else if nn == 0x15 {
        state.delay_timer = vx;
    } else if nn == 0x18 {
        state.sound_timer = vx;
    } else if nn == 0x1E {
        state.vi = state.vi.wrapping_add(vx as u16);
    } else if nn == 0x29 {
        state.vi = FONT_START + vx as u16 * GLYPH_SIZE;
    } else if nn == 0x33 {
        if state.vi as usize + 3 > MEMORY_SIZE {
            return Err(Fault::AddressOutOfRange);
        }
        let at = state.vi as usize;
        state.memory[at] = vx / 100;
        state.memory[at + 1] = vx % 100 / 10;
        state.memory[at + 2] = vx % 10;
    } else if nn == 0x55 {
        if state.vi as usize + x + 1 > MEMORY_SIZE {
            return Err(Fault::AddressOutOfRange);
        }
        let ghost before = state@;
        let at = state.vi as usize;
        let mut i: usize = 0;
        while i <= x
            invariant
                x < 16,
                at == before.vi,
                at + x + 1 <= MEMORY_SIZE,
                i <= x + 1,
                state@ == (StateView {
                    memory: Seq::new(
                        before.memory.len(),
                        |a: int|
                            if at <= a < at + i {
                                before.registers[a - at]
                            } else {
                                before.memory[a]
                            },
                    ),
                    ..before
                }),
            decreases x + 1 - i,
        {
            state.memory[at + i] = state.registers[i];
            i = i + 1;
            assert(state@.memory =~= Seq::new(
                before.memory.len(),
                |a: int|
                    if at <= a < at + i {
                        before.registers[a - at]
                    } else {
                        before.memory[a]
                    },
            ));
        }
        assert(state@.memory =~= block_stored(before, x as int));
        if increment_index {
            state.vi = state.vi + x as u16 + 1;
        }
    } else if nn == 0x65 {
        if state.vi as usize + x + 1 > MEMORY_SIZE {
            return Err(Fault::AddressOutOfRange);
        }
        let ghost before = state@;
        let at = state.vi as usize;
        let mut i: usize = 0;
        while i <= x
            invariant
                x < 16,
                at == before.vi,
                at + x + 1 <= MEMORY_SIZE,
                i <= x + 1,
                state@ == (StateView {
                    registers: Seq::new(
                        16,
                        |j: int|
                            if j < i {
                                before.memory[at + j]
                            } else {
                                before.registers[j]
                            },
                    ),
                    ..before
                }),
            decreases x + 1 - i,
        {
            state.registers[i] = state.memory[at + i];
            i = i + 1;
            assert(state@.registers =~= Seq::new(
                16,
                |j: int|
                    if j < i {
                        before.memory[at + j]
                    } else {
                        before.registers[j]
                    },
            ));
        }
        assert(state@.registers =~= block_loaded(before, x as int));
    }
    Ok(())
}

/// What executing an instruction did: the machine and keypad moved to the
/// expected ones, or a fault was reported and nothing changed.
pub open spec fn outcome(
    before: MachineView,
    keys_before: KeypadView,
    after: MachineView,
    keys_after: KeypadView,
    r: Result<(), Fault>,
    expected: Result<(MachineView, KeypadView), Fault>,
) -> bool {
    match expected {
        Ok((m, k)) => r == Ok::<(), Fault>(()) && after == m && keys_after == k,
        Err(e) => r == Err::<(), Fault>(e) && after == before && keys_after == keys_before,
    }
}

/// Executes the instruction `opcode`, leaving the program counter where the
/// instruction put it. `random` is the byte a `CXNN` uses.
pub fn run(
    opcode: u16,
    state: &mut ChipState,
    quirks: &Quirks,
    screen: &mut Display,
    keys: &mut Keypad,
    random: u8,
) -> (r: Result<(), Fault>)
    ensures
        outcome(
            (MachineView { state: old(state)@, screen: old(screen)@ }),
            old(keys)@,
            (MachineView { state: final(state)@, screen: final(screen)@ }),
            final(keys)@,
            r,
            apply(
                (MachineView { state: old(state)@, screen: old(screen)@ }),
                old(keys)@,
                opcode,
                *quirks,
                random,
            ),
        ),
{
    proof {
        reveal(apply);
    }
    let n = get_n(opcode);
    match get_digit(opcode) {
        0x0 => run_00en(opcode, state, screen),
        0x1 => {
            run_1nnn(opcode, state);
            Ok(())
        },
        0x2 => run_2nnn(opcode, state),
        0x3 => {
            run_3xnn(opcode, state);
            Ok(())
        },
        0x4 => {
            run_4xnn(opcode, state);
            Ok(())
        },
        0x5 => {
            if n == 0 {
                run_5xy0(opcode, state);
            }
            Ok(())
        },
        0x6 => {
            run_6xnn(opcode, state);
            Ok(())
        },
        0x7 => {
            run_7xnn(opcode, state);
            Ok(())
        },
        0x8 => {
            run_8xyn(opcode, state, quirks.has_shifting());
            Ok(())
        },
        0x9 => {
            if n == 0 {
                run_9xy0(opcode, state);
            }
            Ok(())
        },
        0xA => {
            run_annn(opcode, state);
            Ok(())
        },
        0xB => {
            run_bnnn(opcode, state, quirks.has_jumping());
            Ok(())
        },
        0xC => {
            run_cxnn_with(opcode, state, random);
            Ok(())
        },
        0xD => run_dxyn(opcode, state, screen),
        0xE => {
            run_exnn(opcode, state, keys);
            Ok(())
        },
        _ => run_fxnn(opcode, state, keys, quirks.has_increment_index()),
    }
}

/// Executes an instruction given as its four nibbles.
pub fn decode_and_run(
    opcode: OpCode,
    state: &mut ChipState,
    quirks: &Quirks,
    screen: &mut Display,
    keys: &mut Keypad,
    random: u8,
) -> (r: Result<(), Fault>)
    requires
        opcode.wf(),
    ensures
        outcome(
            (MachineView { state: old(state)@, screen: old(screen)@ }),
            old(keys)@,
            (MachineView { state: final(state)@, screen: final(screen)@ }),
            final(keys)@,
            r,
            apply(
                (MachineView { state: old(state)@, screen: old(screen)@ }),
                old(keys)@,
                opcode.word() as u16,
                *quirks,
                random,
            ),
        ),
{
    run(opcode.to_word(), state, quirks, screen, keys, random)
}

} // verus!
