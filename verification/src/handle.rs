//! References to entities: the number of a slot with the generation it had.

use vstd::prelude::*;

verus! {

/// A slot's number and generation in one word, the generation in the high half.
#[derive(Clone, Copy, PartialEq, Eq, Hash, Structural, Debug)]
pub struct Handle(pub u32);

impl Handle {
    /// A slot's number and generation in one word.
    pub open spec fn of(idx: u16, gen: u16) -> Handle {
        Handle((gen * 65536 + idx) as u32)
    }

    /// The number of the slot.
    pub open spec fn slot(self) -> u16 {
        (self.0 % 65536) as u16
    }

    /// The generation of the slot.
    pub open spec fn generation(self) -> u16 {
        (self.0 / 65536) as u16
    }

    /// The handle that refers to nothing.
    pub fn none() -> (r: Self)
        ensures
            r.0 == u32::MAX,
    {
        Handle(u32::MAX)
    }

    /// A handle for a slot and its generation.
    pub fn new(idx: u16, gen: u16) -> (r: Self)
        ensures
            r == Handle::of(idx, gen),
    {
        Handle((gen as u32) * 65536 + idx as u32)
    }

    /// The number of the slot.
    pub fn idx(self) -> (r: usize)
        ensures
            r == self.slot(),
    {
        (self.0 % 65536) as usize
    }

    /// The generation of the slot.
    pub fn gen(self) -> (r: u16)
        ensures
            r == self.generation(),
    {
        (self.0 / 65536) as u16
    }

    /// Whether the handle refers to nothing.
    pub fn is_none(self) -> (r: bool)
        ensures
            r == (self.0 == u32::MAX),
    {
        self.0 == u32::MAX
    }
}

impl Default for Handle {
    fn default() -> (r: Self)
        ensures
            r.0 == 0,
    {
        Handle(0)
    }
}

/// A handle gives back the slot and the generation it was made of.
pub proof fn law_handle_round_trip(idx: u16, gen: u16)
    ensures
        Handle::of(idx, gen).slot() == idx,
        Handle::of(idx, gen).generation() == gen,
{
    assert((gen * 65536 + idx) % 65536 == idx) by (nonlinear_arith)
        requires
            0 <= idx < 65536,
    ;
    assert((gen * 65536 + idx) / 65536 == gen) by (nonlinear_arith)
        requires
            0 <= idx < 65536,
    ;
}

/// Two handles are the same exactly where their slots and generations are.
pub proof fn law_handle_determined(a: Handle, b: Handle)
    ensures
        a == b <==> a.slot() == b.slot() && a.generation() == b.generation(),
{
    assert(a.0 == 65536 * (a.0 / 65536) + a.0 % 65536);
    assert(b.0 == 65536 * (b.0 / 65536) + b.0 % 65536);
}

} // verus!
