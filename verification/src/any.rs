//! The closed set of patterns the library ships, as one type, so that a
//! manager can run a mix of them.

use vstd::prelude::*;
use crate::crawl::FadingCrawl;
use crate::fade::FadePattern;
use crate::gradient::GradientPattern;
use crate::pattern::{Pattern, Pixel};
use crate::rainbow::{MovingRainbow, SolidTimeVaryingRainbow, HUES};
use crate::solid::SolidPattern;

verus! {

/// Any one of the patterns of this library.
pub enum AnyPattern {
    MovingRainbow(MovingRainbow),
    SolidRainbow(SolidTimeVaryingRainbow),
    Gradient(GradientPattern),
    Solid(SolidPattern),
    Fade(FadePattern),
    FadeCrawl(FadingCrawl),
}

impl AnyPattern {
    /// Whether the pattern can be started on a strip of `len` pixels: it can
    /// paint such a strip, and its cycle, if it has one, is not zero.
    pub fn ready_for(&self, len: usize) -> (ok: bool)
        ensures
            ok == (self.valid_for(len as nat) && self.cycle() != Some(0u128)),
    {
        let fits = match self {
            AnyPattern::MovingRainbow(p) => p.palette.len() == HUES,
            AnyPattern::SolidRainbow(p) => p.palette.len() == HUES,
            AnyPattern::Gradient(_) => true,
            AnyPattern::Solid(_) => true,
            AnyPattern::Fade(p) => p.fits(len),
            AnyPattern::FadeCrawl(_) => len > 0,
        };
        match self.tick_cycle() {
            Some(cycle) => fits && cycle != 0,
            None => fits,
        }
    }
}

impl Pattern for AnyPattern {
    open spec fn rate(&self) -> u128 {
        match self {
            AnyPattern::MovingRainbow(p) => p.rate(),
            AnyPattern::SolidRainbow(p) => p.rate(),
            AnyPattern::Gradient(p) => p.rate(),
            AnyPattern::Solid(p) => p.rate(),
            AnyPattern::Fade(p) => p.rate(),
            AnyPattern::FadeCrawl(p) => p.rate(),
        }
    }

    open spec fn cycle(&self) -> Option<u128> {
        match self {
            AnyPattern::MovingRainbow(p) => p.cycle(),
            AnyPattern::SolidRainbow(p) => p.cycle(),
            AnyPattern::Gradient(p) => p.cycle(),
            AnyPattern::Solid(p) => p.cycle(),
            AnyPattern::Fade(p) => p.cycle(),
            AnyPattern::FadeCrawl(p) => p.cycle(),
        }
    }

    open spec fn valid_for(&self, len: nat) -> bool {
        match self {
            AnyPattern::MovingRainbow(p) => p.valid_for(len),
            AnyPattern::SolidRainbow(p) => p.valid_for(len),
            AnyPattern::Gradient(p) => p.valid_for(len),
            AnyPattern::Solid(p) => p.valid_for(len),
            AnyPattern::Fade(p) => p.valid_for(len),
            AnyPattern::FadeCrawl(p) => p.valid_for(len),
        }
    }

    /// The step of the pattern inside, which stays of the same kind.
    open spec fn ticked(
        &self,
        tick: u128,
        before: Seq<Pixel>,
        next: &Self,
        after: Seq<Pixel>,
        changed: bool,
    ) -> bool {
        match (self, next) {
            (AnyPattern::MovingRainbow(p), AnyPattern::MovingRainbow(q)) => p.ticked(
                tick,
                before,
                q,
                after,
                changed,
            ),
            (AnyPattern::SolidRainbow(p), AnyPattern::SolidRainbow(q)) => p.ticked(
                tick,
                before,
                q,
                after,
                changed,
            ),
            (AnyPattern::Gradient(p), AnyPattern::Gradient(q)) => p.ticked(
                tick,
                before,
                q,
                after,
                changed,
            ),
            (AnyPattern::Solid(p), AnyPattern::Solid(q)) => p.ticked(
                tick,
                before,
                q,
                after,
                changed,
            ),
            (AnyPattern::Fade(p), AnyPattern::Fade(q)) => p.ticked(tick, before, q, after, changed),
            (AnyPattern::FadeCrawl(p), AnyPattern::FadeCrawl(q)) => p.ticked(
                tick,
                before,
                q,
                after,
                changed,
            ),
            _ => false,
        }
    }

    fn tick_rate(&self) -> (rate: u128) {
        match self {
            AnyPattern::MovingRainbow(p) => p.tick_rate(),
            AnyPattern::SolidRainbow(p) => p.tick_rate(),
            AnyPattern::Gradient(p) => p.tick_rate(),
            AnyPattern::Solid(p) => p.tick_rate(),
            AnyPattern::Fade(p) => p.tick_rate(),
            AnyPattern::FadeCrawl(p) => p.tick_rate(),
        }
    }

    fn tick_cycle(&self) -> (cycle: Option<u128>) {
        match self {
            AnyPattern::MovingRainbow(p) => p.tick_cycle(),
            AnyPattern::SolidRainbow(p) => p.tick_cycle(),
            AnyPattern::Gradient(p) => p.tick_cycle(),
            AnyPattern::Solid(p) => p.tick_cycle(),
            AnyPattern::Fade(p) => p.tick_cycle(),
            AnyPattern::FadeCrawl(p) => p.tick_cycle(),
        }
    }

    fn tick(&mut self, tick: u128, leds: &mut Vec<Pixel>) -> (changed: bool) {
        match self {
            AnyPattern::MovingRainbow(p) => p.tick(tick, leds),
            AnyPattern::SolidRainbow(p) => p.tick(tick, leds),
            AnyPattern::Gradient(p) => p.tick(tick, leds),
            AnyPattern::Solid(p) => p.tick(tick, leds),
            AnyPattern::Fade(p) => p.tick(tick, leds),
            AnyPattern::FadeCrawl(p) => p.tick(tick, leds),
        }
    }
}

} // verus!
