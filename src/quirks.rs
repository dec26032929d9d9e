use vstd::prelude::*;

verus! {

/// Switches between behaviours on which historical CHIP-8 implementations
/// disagree. A configuration is fixed when a machine is created.
#[derive(Clone, Copy, Debug, PartialEq, Eq, Structural)]
pub struct Quirks {
    /// `FX55` advances the index register past the stored block.
    increment_index: bool,
    /// `8XY6` / `8XYE` shift `VY` (rather than `VX`) into `VX`.
    shifting: bool,
    /// `BNNN` adds the register named by the top nibble of `NNN`
    /// (rather than `V0`) to the jump target.
    jumping: bool,
}

impl Quirks {
    pub closed spec fn increment_index_spec(&self) -> bool {
        self.increment_index
    }

    pub closed spec fn shifting_spec(&self) -> bool {
        self.shifting
    }

    pub closed spec fn jumping_spec(&self) -> bool {
        self.jumping
    }

    pub fn new(increment_index: bool, shifting: bool, jumping: bool) -> (q: Quirks)
        ensures
            q.increment_index_spec() == increment_index,
            q.shifting_spec() == shifting,
            q.jumping_spec() == jumping,
    {
        Quirks { increment_index, shifting, jumping }
    }

    /// The behaviour of the COSMAC VIP interpreter: the index
    /// advances on block store, shifts read `VY`, and `BNNN` jumps relative
    /// to `V0`.
    pub fn for_chip8() -> (q: Quirks)
        ensures
            q.increment_index_spec(),
            q.shifting_spec(),
            !q.jumping_spec(),
    {
        Quirks { increment_index: true, shifting: true, jumping: false }
    }

    pub fn has_increment_index(&self) -> (r: bool)
        ensures
            r == self.increment_index_spec(),
    {
        self.increment_index
    }

    pub fn has_jumping(&self) -> (r: bool)
        ensures
            r == self.jumping_spec(),
    {
        self.jumping
    }

    pub fn has_shifting(&self) -> (r: bool)
        ensures
            r == self.shifting_spec(),
    {
        self.shifting
    }
}

} // verus!
