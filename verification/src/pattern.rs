//! The capability set every animation offers, and the tick reduction that
//! precedes each dispatch.

use vstd::prelude::*;

verus! {

/// One pixel: four channel bytes in the order the strip driver expects
/// (blue, green, red, and a fourth channel the patterns leave dark).
pub type Pixel = [u8; 4];

/// The pixel with every channel dark.
pub open spec fn is_dark(p: Pixel) -> bool {
    p[0] == 0 && p[1] == 0 && p[2] == 0 && p[3] == 0
}

/// The tick handed to a pattern for a raw tick: the raw tick itself without a
/// cycle, its remainder by the cycle otherwise.
pub open spec fn reduced_tick(cycle: Option<u128>, raw: u128) -> u128 {
    match cycle {
        Some(c) => raw % c,
        None => raw,
    }
}

/// Ticks elapsed at `rate` ticks per second after `elapsed_ms` milliseconds,
/// fractions dropped.
pub open spec fn raw_tick_at(rate: u128, elapsed_ms: u128) -> int {
    rate * elapsed_ms / 1000
}

/// An animation: a tick rate, an optional wraparound period, and a step that
/// paints the pattern's own buffer for one logical tick.
pub trait Pattern: Sized + Send {
    /// Nominal ticks per second.
    spec fn rate(&self) -> u128;

    /// The wraparound period, if the pattern has one.
    spec fn cycle(&self) -> Option<u128>;

    /// Whether the pattern can paint a buffer of `len` pixels.
    spec fn valid_for(&self, len: nat) -> bool;

    /// The step relation: painting tick `tick` over `before` may leave the
    /// pattern as `next`, the buffer as `after`, and report `changed`.
    spec fn ticked(
        &self,
        tick: u128,
        before: Seq<Pixel>,
        next: &Self,
        after: Seq<Pixel>,
        changed: bool,
    ) -> bool;

    fn tick_rate(&self) -> (rate: u128)
        ensures
            rate == self.rate(),
    ;

    fn tick_cycle(&self) -> (cycle: Option<u128>)
        ensures
            cycle == self.cycle(),
    ;

    /// Paints one logical tick into `leds` and reports whether anything
    /// visible may have changed.
    fn tick(&mut self, tick: u128, leds: &mut Vec<Pixel>) -> (changed: bool)
        requires
            old(self).valid_for(old(leds)@.len()),
        ensures
            final(leds)@.len() == old(leds)@.len(),
            final(self).valid_for(final(leds)@.len()),
            final(self).rate() == old(self).rate(),
            final(self).cycle() == old(self).cycle(),
            old(self).ticked(tick, old(leds)@, final(self), final(leds)@, changed),
    ;

    /// Reduces `raw_tick` by the cycle, if there is one, and paints that tick.
    fn start_tick(&mut self, raw_tick: u128, leds: &mut Vec<Pixel>) -> (changed: bool)
        requires
            old(self).valid_for(old(leds)@.len()),
            old(self).cycle() != Some(0u128),
        ensures
            final(leds)@.len() == old(leds)@.len(),
            final(self).valid_for(final(leds)@.len()),
            final(self).rate() == old(self).rate(),
            final(self).cycle() == old(self).cycle(),
            old(self).ticked(
                reduced_tick(old(self).cycle(), raw_tick),
                old(leds)@,
                final(self),
                final(leds)@,
                changed,
            ),
    {
        match self.tick_cycle() {
            Some(cycle) => self.tick(raw_tick % cycle, leds),
            None => self.tick(raw_tick, leds),
        }
    }

    /// The raw tick reached after `elapsed` milliseconds.
    fn elapsed_to_raw_tick(&self, elapsed: u128) -> (raw: u128)
        requires
            self.rate() * elapsed <= u128::MAX,
        ensures
            raw == raw_tick_at(self.rate(), elapsed),
    {
        (self.tick_rate() * elapsed) / 1000
    }
}

/// Whether a change was reported before the last tick or by it.
pub open spec fn any_change(earlier: bool, last: bool) -> bool {
    earlier || last
}

/// Replaying the raw ticks `from + 1` up to `to`, one after the other and in
/// that order, may lead from pattern `start` over buffer `before` to pattern
/// `end` over buffer `after`, with `changed` telling whether any of the ticks
/// reported a change. Where `to` is not beyond `from`, nothing happens.
pub open spec fn replayed<P: Pattern>(
    start: P,
    before: Seq<Pixel>,
    from: u128,
    to: u128,
    end: P,
    after: Seq<Pixel>,
    changed: bool,
) -> bool
    decreases to - from,
{
    if to <= from {
        end == start && after == before && !changed
    } else {
        exists|mid: P, between: Seq<Pixel>, earlier: bool, last: bool|
            {
                &&& replayed(start, before, from, (to - 1) as u128, mid, between, earlier)
                &&& #[trigger] mid.ticked(reduced_tick(mid.cycle(), to), between, &end, after, last)
                &&& changed == #[trigger] any_change(earlier, last)
            }
    }
}

/// A replay up to `to - 1` followed by the tick `to` is a replay up to `to`.
pub proof fn lemma_replayed_extends<P: Pattern>(
    start: P,
    before: Seq<Pixel>,
    from: u128,
    to: u128,
    mid: P,
    between: Seq<Pixel>,
    earlier: bool,
    end: P,
    after: Seq<Pixel>,
    last: bool,
)
    requires
        from < to,
        replayed(start, before, from, (to - 1) as u128, mid, between, earlier),
        mid.ticked(reduced_tick(mid.cycle(), to), between, &end, after, last),
    ensures
        replayed(start, before, from, to, end, after, earlier || last),
{
    assert((earlier || last) == any_change(earlier, last));
}

} // verus!
