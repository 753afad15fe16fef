//! The half-move clock and the full-move counter of a game.

use vstd::prelude::*;

verus! {

/// Counts half-moves since the last capture or pawn advance.
#[derive(Debug, Copy, Clone, PartialEq, Eq, Hash, Structural)]
pub struct HalfMoveClock {
    pub clock: u8,
}

impl HalfMoveClock {
    pub fn new() -> (r: HalfMoveClock)
        ensures
            r.clock == 0,
    {
        HalfMoveClock { clock: 0 }
    }

    pub fn get(&self) -> (r: u8)
        ensures
            r == self.clock,
    {
        self.clock
    }

    pub fn new_from_clock(clock: u8) -> (r: HalfMoveClock)
        ensures
            r.clock == clock,
    {
        HalfMoveClock { clock }
    }

    pub fn reset(&mut self)
        ensures
            final(self).clock == 0,
    {
        self.clock = 0;
    }

    pub fn advance(&mut self)
        requires
            old(self).clock < 255,
        ensures
            final(self).clock == old(self).clock + 1,
    {
        self.clock = self.clock + 1;
    }
}

/// Counts completed move pairs; increments after each Black move.
#[derive(Debug, Copy, Clone, PartialEq, Eq, Hash, Structural)]
pub struct FullMoveCounter {
    pub counter: u16,
}

impl FullMoveCounter {
    pub fn new() -> (r: FullMoveCounter)
        ensures
            r.counter == 1,
    {
        FullMoveCounter { counter: 1 }
    }

    pub fn get(&self) -> (r: u16)
        ensures
            r == self.counter,
    {
        self.counter
    }

    pub fn new_from_counter(counter: u16) -> (r: FullMoveCounter)
        ensures
            r.counter == counter,
    {
        FullMoveCounter { counter }
    }

    pub fn inc(&mut self)
        requires
            old(self).counter < 65535,
        ensures
            final(self).counter == old(self).counter + 1,
    {
        self.counter = self.counter + 1;
    }
}

} // verus!
