//! A static blend from one colour at the start of the strip towards another
//! at its end.

use vstd::prelude::*;
use crate::pattern::{Pattern, Pixel};

verus! {

pub struct GradientPattern {
    pub tick_rate: u128,
    pub tick_cycle: Option<u128>,
    pub start_color: [u32; 4],
    pub end_color: [u32; 4],
    /// Switches repainting off. The pattern itself never sets it, so every
    /// tick repaints.
    pub rerender: bool,
}

/// One channel of pixel `i` on a strip of `n` pixels: the weighted mean of the
/// two end values, fractions dropped, of which the low byte is kept.
pub open spec fn gradient_value(start: u32, end: u32, n: nat, i: nat) -> int {
    ((start * (n - i) + end * i) / (n as int)) % 256
}

/// Whether `after` is what the gradient leaves at pixel `i` of `n`: each of
/// the four channels blended between its two end values.
pub open spec fn gradient_pixel(
    start: [u32; 4],
    end: [u32; 4],
    n: nat,
    i: nat,
    after: Pixel,
) -> bool {
    &&& after[0] == gradient_value(start[0], end[0], n, i)
    &&& after[1] == gradient_value(start[1], end[1], n, i)
    &&& after[2] == gradient_value(start[2], end[2], n, i)
    &&& after[3] == gradient_value(start[3], end[3], n, i)
}

/// The blended byte of one channel at pixel `i` of `n`.
pub fn gradient_channel(start: u32, end: u32, n: usize, i: usize) -> (value: u8)
    requires
        i < n,
    ensures
        value == gradient_value(start, end, n as nat, i as nat),
{
    let near: u128 = (n - i) as u128;
    let far: u128 = i as u128;
    assert(start * near <= 0xffff_ffff * 0xffff_ffff_ffff_ffff) by (nonlinear_arith)
        requires
            start <= 0xffff_ffff,
            near <= 0xffff_ffff_ffff_ffff,
    ;
    assert(end * far <= 0xffff_ffff * 0xffff_ffff_ffff_ffff) by (nonlinear_arith)
        requires
            end <= 0xffff_ffff,
            far <= 0xffff_ffff_ffff_ffff,
    ;
    let mean: u128 = (start as u128 * near + end as u128 * far) / (n as u128);
    (mean % 256) as u8
}

impl GradientPattern {
    pub fn new(start_color: [u32; 4], end_color: [u32; 4]) -> (p: GradientPattern)
        ensures
            p.tick_rate == 60,
            p.tick_cycle == None::<u128>,
            p.start_color == start_color,
            p.end_color == end_color,
            !p.rerender,
    {
        GradientPattern { tick_rate: 60, tick_cycle: None, start_color, end_color, rerender: false }
    }
}

impl Pattern for GradientPattern {
    open spec fn rate(&self) -> u128 {
        self.tick_rate
    }

    open spec fn cycle(&self) -> Option<u128> {
        self.tick_cycle
    }

    open spec fn valid_for(&self, len: nat) -> bool {
        true
    }

    /// Unless a repaint is switched off, every pixel takes its blended value;
    /// the pattern itself stays as it was, and a change is always reported.
    open spec fn ticked(
        &self,
        tick: u128,
        before: Seq<Pixel>,
        next: &Self,
        after: Seq<Pixel>,
        changed: bool,
    ) -> bool {
        &&& changed
        &&& *next == *self
        &&& after.len() == before.len()
        &&& if self.rerender {
            after == before
        } else {
            forall|i: int|
                0 <= i < before.len() ==> gradient_pixel(
                    self.start_color,
                    self.end_color,
                    before.len(),
                    i as nat,
                    #[trigger] after[i],
                )
        }
    }

    fn tick_rate(&self) -> (rate: u128) {
        self.tick_rate
    }

    fn tick_cycle(&self) -> (cycle: Option<u128>) {
        self.tick_cycle
    }

    fn tick(&mut self, _tick: u128, leds: &mut Vec<Pixel>) -> (changed: bool) {
        if !self.rerender {
            let n: usize = leds.len();
            let mut i: usize = 0;
            while i < n
                invariant
                    i <= n,
                    leds@.len() == n,
                    *self == *old(self),
                    forall|k: int|
                        0 <= k < i ==> gradient_pixel(
                            self.start_color,
                            self.end_color,
                            n as nat,
                            k as nat,
                            #[trigger] leds@[k],
                        ),
                decreases n - i,
            {
                let b: u8 = gradient_channel(self.start_color[0], self.end_color[0], n, i);
                let g: u8 = gradient_channel(self.start_color[1], self.end_color[1], n, i);
                let r: u8 = gradient_channel(self.start_color[2], self.end_color[2], n, i);
                let w: u8 = gradient_channel(self.start_color[3], self.end_color[3], n, i);
                leds[i] = [b, g, r, w];
                i += 1;
            }
        }
        true
    }
}

} // verus!
