//! A pattern that holds the whole strip at one colour.

use vstd::prelude::*;
use crate::pattern::{Pattern, Pixel};

verus! {

pub struct SolidPattern {
    pub tick_rate: u128,
    pub tick_cycle: Option<u128>,
    pub color: Pixel,
    /// Switches repainting off. The pattern itself never sets it, so every
    /// tick repaints.
    pub rerender: bool,
}

/// A buffer of `len` pixels, each of them `color`.
pub open spec fn filled(len: nat, color: Pixel) -> Seq<Pixel> {
    Seq::new(len, |i: int| color)
}

impl SolidPattern {
    pub fn new(color: Pixel) -> (p: SolidPattern)
        ensures
            p.tick_rate == 60,
            p.tick_cycle == None::<u128>,
            p.color == color,
            !p.rerender,
    {
        SolidPattern { tick_rate: 60, color, tick_cycle: None, rerender: false }
    }

    /// Replaces the colour and marks the strip for repainting.
    pub fn set_color(&mut self, color: Pixel)
        ensures
            final(self).color == color,
            !final(self).rerender,
            final(self).tick_rate == old(self).tick_rate,
            final(self).tick_cycle == old(self).tick_cycle,
    {
        self.color = color;
        self.rerender = false;
    }
}

impl Pattern for SolidPattern {
    open spec fn rate(&self) -> u128 {
        self.tick_rate
    }

    open spec fn cycle(&self) -> Option<u128> {
        self.tick_cycle
    }

    open spec fn valid_for(&self, len: nat) -> bool {
        true
    }

    /// Unless a repaint is switched off, every pixel takes the colour; the
    /// pattern itself stays as it was, and a change is always reported.
    open spec fn ticked(
        &self,
        tick: u128,
        before: Seq<Pixel>,
        next: &Self,
        after: Seq<Pixel>,
        changed: bool,
    ) -> bool {
        &&& changed
        &&& *next == *self
        &&& after == if self.rerender { before } else { filled(before.len(), self.color) }
    }

    fn tick_rate(&self) -> (rate: u128) {
        self.tick_rate
    }

    fn tick_cycle(&self) -> (cycle: Option<u128>) {
        self.tick_cycle
    }

    fn tick(&mut self, _tick: u128, leds: &mut Vec<Pixel>) -> (changed: bool) {
        if !self.rerender {
            let n: usize = leds.len();
            let mut i: usize = 0;
            while i < n
                invariant
                    i <= n,
                    leds@.len() == n,
                    *self == *old(self),
                    forall|k: int| 0 <= k < i ==> leds@[k] == self.color,
                decreases n - i,
            {
                leds[i] = self.color;
                i += 1;
            }
            assert(leds@ =~= filled(n as nat, self.color));
        }
        true
    }
}

} // verus!
