//! Rainbows: one that moves along the strip, and one that turns the whole
//! strip through the hues together.
//!
//! Both read their colours from a palette with one pixel per whole degree of
//! hue, so that the saturation, lightness and brightness of the rainbow are
//! settled once, where the palette is made.

use vstd::prelude::*;
use vstd::arithmetic::div_mod::*;
use crate::pattern::{Pattern, Pixel};

verus! {

/// The number of hues in a palette: one per degree.
pub const HUES: usize = 360;

/// The hue, in degrees, of pixel `i` on a strip of `len` at `tick`.
pub open spec fn moving_hue(tick: u128, i: int, len: int) -> int {
    ((tick + i) % len) * 360 / len
}

/// The hue, in degrees, the whole strip shares at `tick`.
pub open spec fn shared_hue(tick: u128) -> int {
    tick as int % 360
}

/// A hue on a strip is always a degree of the palette.
pub proof fn lemma_moving_hue_in_palette(tick: u128, i: int, len: int)
    requires
        0 <= i < len,
    ensures
        0 <= moving_hue(tick, i, len) < 360,
{
    let x = (tick + i) % len;
    lemma_mod_bound(tick + i, len);
    assert(0 <= x * 360 / len < 360) by (nonlinear_arith)
        requires
            0 <= x < len,
    ;
}

/// A rainbow spread once over the strip, moving by one pixel per tick.
pub struct MovingRainbow {
    pub tick_rate: u128,
    pub tick_cycle: Option<u128>,
    /// The pixel for each degree of hue.
    pub palette: Vec<Pixel>,
}

impl MovingRainbow {
    /// A moving rainbow that takes the pixel for hue `h` from `palette[h]`.
    pub fn new(tick_rate: u128, palette: Vec<Pixel>) -> (p: MovingRainbow)
        ensures
            p.tick_rate == tick_rate,
            p.tick_cycle == None::<u128>,
            p.palette == palette,
    {
        MovingRainbow { tick_rate, tick_cycle: None, palette }
    }

    /// The degree of hue of pixel `i` on a strip of `len` at `tick`.
    pub fn hue_at(tick: u128, i: usize, len: usize) -> (hue: usize)
        requires
            i < len,
        ensures
            hue == moving_hue(tick, i as int, len as int),
            hue < HUES,
    {
        let m: u128 = len as u128;
        let shifted: u128 = (tick % m + i as u128) % m;
        proof {
            lemma_add_mod_noop(tick as int, i as int, m as int);
            lemma_small_mod(i as nat, m as nat);
            lemma_moving_hue_in_palette(tick, i as int, len as int);
            assert(shifted * 360 <= 360 * m) by (nonlinear_arith)
                requires
                    shifted < m,
            ;
        }
        (shifted * 360 / m) as usize
    }
}

impl Pattern for MovingRainbow {
    open spec fn rate(&self) -> u128 {
        self.tick_rate
    }

    open spec fn cycle(&self) -> Option<u128> {
        self.tick_cycle
    }

    /// The palette has a pixel for every degree.
    open spec fn valid_for(&self, len: nat) -> bool {
        self.palette@.len() == HUES
    }

    /// Every pixel takes the palette's colour for its hue; the pattern itself
    /// stays as it was, and a change is always reported.
    open spec fn ticked(
        &self,
        tick: u128,
        before: Seq<Pixel>,
        next: &Self,
        after: Seq<Pixel>,
        changed: bool,
    ) -> bool {
        &&& changed
        &&& *next == *self
        &&& after.len() == before.len()
        &&& forall|i: int|
            0 <= i < after.len() ==> #[trigger] after[i] == self.palette@[moving_hue(
                tick,
                i,
                before.len() as int,
            )]
    }

    fn tick_rate(&self) -> (rate: u128) {
        self.tick_rate
    }

    fn tick_cycle(&self) -> (cycle: Option<u128>) {
        self.tick_cycle
    }

    fn tick(&mut self, tick: u128, leds: &mut Vec<Pixel>) -> (changed: bool) {
        let n: usize = leds.len();
        let mut i: usize = 0;
        while i < n
            invariant
                i <= n,
                leds@.len() == n,
                *self == *old(self),
                self.palette@.len() == HUES,
                forall|k: int|
                    0 <= k < i ==> #[trigger] leds@[k] == self.palette@[moving_hue(
                        tick,
                        k,
                        n as int,
                    )],
            decreases n - i,
        {
            let hue: usize = Self::hue_at(tick, i, n);
            leds[i] = self.palette[hue];
            i += 1;
        }
        true
    }
}

/// The whole strip in one colour that turns through the hues, a degree per
/// tick.
pub struct SolidTimeVaryingRainbow {
    pub tick_rate: u128,
    pub tick_cycle: Option<u128>,
    /// The pixel for each degree of hue.
    pub palette: Vec<Pixel>,
}

impl SolidTimeVaryingRainbow {
    /// A turning rainbow that takes the pixel for hue `h` from `palette[h]`.
    /// Its ticks wrap round after 359.
    pub fn new(tick_rate: u128, palette: Vec<Pixel>) -> (p: SolidTimeVaryingRainbow)
        ensures
            p.tick_rate == tick_rate,
            p.tick_cycle == Some(359u128),
            p.palette == palette,
    {
        SolidTimeVaryingRainbow { tick_rate, tick_cycle: Some(359), palette }
    }
}

impl Pattern for SolidTimeVaryingRainbow {
    open spec fn rate(&self) -> u128 {
        self.tick_rate
    }

    open spec fn cycle(&self) -> Option<u128> {
        self.tick_cycle
    }

    /// The palette has a pixel for every degree.
    open spec fn valid_for(&self, len: nat) -> bool {
        self.palette@.len() == HUES
    }

    /// Every pixel takes the palette's colour for the hue of the tick; the
    /// pattern itself stays as it was, and a change is always reported.
    open spec fn ticked(
        &self,
        tick: u128,
        before: Seq<Pixel>,
        next: &Self,
        after: Seq<Pixel>,
        changed: bool,
    ) -> bool {
        &&& changed
        &&& *next == *self
        &&& after.len() == before.len()
        &&& forall|i: int|
            0 <= i < after.len() ==> #[trigger] after[i] == self.palette@[shared_hue(tick)]
    }

    fn tick_rate(&self) -> (rate: u128) {
        self.tick_rate
    }

    fn tick_cycle(&self) -> (cycle: Option<u128>) {
        self.tick_cycle
    }

    fn tick(&mut self, tick: u128, leds: &mut Vec<Pixel>) -> (changed: bool) {
        let hue: usize = (tick % 360) as usize;
        let color: Pixel = self.palette[hue];
        let n: usize = leds.len();
        let mut i: usize = 0;
        while i < n
            invariant
                i <= n,
                leds@.len() == n,
                *self == *old(self),
                forall|k: int| 0 <= k < i ==> #[trigger] leds@[k] == color,
            decreases n - i,
        {
            leds[i] = color;
            i += 1;
        }
        true
    }
}

} // verus!
