use vstd::prelude::*;

verus! {

/// Number of logical keys, named 0x0 to 0xF.
pub const KEY_COUNT: u8 = 16;

/// The mathematical value of a `Keypad`.
pub struct KeypadView {
    /// `pressed[k]`: key `k` is held down.
    pub pressed: Seq<bool>,
    /// The key whose release has been seen and not yet taken by a key wait.
    pub released: Option<u8>,
}

/// Key `key` is held down; a value that names no key is never down.
pub open spec fn key_down(keys: KeypadView, key: u8) -> bool {
    key < KEY_COUNT && keys.pressed[key as int]
}

/// The input the machine sees during one frame: which of the sixteen logical
/// keys are held, and the last key released.
#[derive(Clone, Copy, Debug)]
pub struct Keypad {
    pressed: [bool; 16],
    released: Option<u8>,
}

impl View for Keypad {
    type V = KeypadView;

    closed spec fn view(&self) -> KeypadView {
        KeypadView { pressed: self.pressed@, released: self.released }
    }
}

impl Keypad {
    /// No key held, none released.
    pub fn new() -> (k: Keypad)
        ensures
            forall|key: u8| !key_down(k@, key),
            k@.released is None,
    {
        let k = Keypad { pressed: [false; 16], released: None };
        assert forall|key: u8| !key_down(k@, key) by {
            if key < KEY_COUNT {
                assert(k.pressed@[key as int] == false);
            }
        }
        k
    }

    /// Records whether `key` is held down.
    pub fn set_pressed(&mut self, key: u8, down: bool)
        requires
            key < KEY_COUNT,
        ensures
            final(self)@.pressed.len() == 16,
            key_down(final(self)@, key) == down,
            forall|other: u8|
                other != key ==> key_down(final(self)@, other) == key_down(old(self)@, other),
            final(self)@.released == old(self)@.released,
    {
        self.pressed[key as usize] = down;
    }

    /// Records that `key` was released.
    pub fn release(&mut self, key: u8)
        requires
            key < KEY_COUNT,
        ensures
            final(self)@.pressed == old(self)@.pressed,
            final(self)@.released == Some(key),
    {
        self.released = Some(key);
    }

    pub fn is_down(&self, key: u8) -> (r: bool)
        ensures
            r == key_down(self@, key),
    {
        key < KEY_COUNT && self.pressed[key as usize]
    }

    pub fn released(&self) -> (r: Option<u8>)
        ensures
            r == self@.released,
    {
        self.released
    }

    /// Hands out the pending release, which is then gone.
    pub fn take_released(&mut self) -> (r: Option<u8>)
        ensures
            r == old(self)@.released,
            final(self)@.released is None,
            final(self)@.pressed == old(self)@.pressed,
    {
        let r = self.released;
        self.released = None;
        r
    }
}

} // verus!
