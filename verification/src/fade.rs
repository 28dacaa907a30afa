//! Sparks that appear at random places, each fading out a step per tick.

use vstd::prelude::*;
use rand::rngs::StdRng;
use crate::pattern::{is_dark, Pattern, Pixel};
use crate::random::{draw, seeded};

verus! {

/// Full brightness, in the millionths that a spark's brightness is counted in.
pub const FULL: u32 = 1_000_000;

/// The lowest brightness a spark can start with: a tenth of full.
pub const FAINTEST: u32 = 100_000;

/// What a spark loses per tick: a twentieth of full.
pub const STEP: u32 = 50_000;

/// A point of light: its pixel and its brightness in millionths of full.
#[derive(Clone, Copy)]
pub struct Spark {
    pub pos: usize,
    pub level: u32,
}

/// The spark one tick later: a step fainter, or out.
pub open spec fn dimmed(s: Spark) -> Spark {
    Spark {
        pos: s.pos,
        level: if s.level > STEP {
            (s.level - STEP) as u32
        } else {
            0
        },
    }
}

/// A channel of the base colour at brightness `level`, fractions dropped.
pub open spec fn glow_value(base: u8, level: u32) -> int {
    base as int * level as int / 1_000_000
}

/// Whether `px` shows a spark of brightness `level`: the base colour scaled
/// by it while the spark is alight, darkness once it is out.
pub open spec fn glows(color: Pixel, level: u32, px: Pixel) -> bool {
    if level > 0 {
        &&& px[0] == glow_value(color[0], level)
        &&& px[1] == glow_value(color[1], level)
        &&& px[2] == glow_value(color[2], level)
        &&& px[3] == 0
    } else {
        is_dark(px)
    }
}

/// The place of the last of `sparks` that sits on pixel `i`, or -1 where none
/// does.
pub open spec fn last_at(sparks: Seq<Spark>, i: int) -> int
    decreases sparks.len(),
{
    if sparks.len() == 0 {
        -1
    } else if sparks.last().pos == i {
        sparks.len() - 1
    } else {
        last_at(sparks.drop_last(), i)
    }
}

/// Whether `after` is `before` with every spark painted in order, so that on
/// a shared pixel the last one shows.
pub open spec fn sparkles(
    color: Pixel,
    sparks: Seq<Spark>,
    before: Seq<Pixel>,
    after: Seq<Pixel>,
) -> bool {
    &&& after.len() == before.len()
    &&& forall|i: int|
        0 <= i < before.len() ==> {
            let k = last_at(sparks, i);
            if k < 0 {
                #[trigger] after[i] == before[i]
            } else {
                glows(color, sparks[k].level, after[i])
            }
        }
}

/// The sparks that are still alight, in their order.
pub open spec fn alight(sparks: Seq<Spark>) -> Seq<Spark>
    decreases sparks.len(),
{
    if sparks.len() == 0 {
        Seq::empty()
    } else if sparks.last().level > 0 {
        alight(sparks.drop_last()).push(sparks.last())
    } else {
        alight(sparks.drop_last())
    }
}

/// Every spark of `sparks` one tick later.
pub open spec fn all_dimmed(sparks: Seq<Spark>) -> Seq<Spark> {
    Seq::new(sparks.len(), |k: int| dimmed(sparks[k]))
}

/// What is alight was there before, and nothing is alight twice over: the
/// sparks that stay are no more than there were.
pub proof fn lemma_alight_from(sparks: Seq<Spark>)
    ensures
        alight(sparks).len() <= sparks.len(),
        forall|j: int|
            0 <= j < alight(sparks).len() ==> (#[trigger] alight(sparks)[j]).level > 0
                && sparks.contains(alight(sparks)[j]),
    decreases sparks.len(),
{
    if sparks.len() > 0 {
        let front = sparks.drop_last();
        lemma_alight_from(front);
        assert forall|j: int| 0 <= j < alight(sparks).len() implies (#[trigger] alight(
            sparks,
        )[j]).level > 0 && sparks.contains(alight(sparks)[j]) by {
            if j < alight(front).len() {
                let s = alight(front)[j];
                assert(front.contains(s));
                let k = choose|k: int| 0 <= k < front.len() && front[k] == s;
                assert(sparks[k] == s);
            } else {
                assert(sparks[sparks.len() - 1] == sparks.last());
            }
        }
    }
}

pub struct FadePattern {
    pub tick_rate: u128,
    pub tick_cycle: Option<u128>,
    /// The colour of a spark at full brightness.
    pub color: Pixel,
    /// The sparks alight, oldest first.
    pub lights: Vec<Spark>,
    /// How many sparks may be alight at once.
    pub num_dots: usize,
    /// Where the places and the first brightness of new sparks come from.
    pub rand: StdRng,
}

impl FadePattern {
    /// A pattern of up to `num_dots` sparks in `color`, with none alight yet.
    /// The places and the first brightness of its sparks follow from `seed`,
    /// which should come from a source of entropy.
    pub fn new(tick_rate: u128, color: Pixel, num_dots: usize, seed: [u8; 32]) -> (p:
        FadePattern)
        ensures
            p.tick_rate == tick_rate,
            p.tick_cycle == None::<u128>,
            p.color == color,
            p.num_dots == num_dots,
            p.lights@.len() == 0,
    {
        FadePattern {
            tick_rate,
            tick_cycle: None,
            color,
            num_dots,
            rand: seeded(seed),
            lights: Vec::new(),
        }
    }

    /// The sparks that one tick dims: those alight, and `spawned` with them
    /// where there is room for one more.
    pub open spec fn lit_with(&self, spawned: Spark) -> Seq<Spark> {
        if self.lights@.len() < self.num_dots {
            self.lights@.push(spawned)
        } else {
            self.lights@
        }
    }

    /// Whether one tick with `spawned` as the new spark, if there is room for
    /// one, leads from `before` to `after` and leaves `next`: a new spark sits
    /// on the strip and starts between a tenth of full brightness and full;
    /// every spark loses a step and is painted; those that went out are
    /// dropped.
    pub open spec fn fades_with(
        &self,
        spawned: Spark,
        before: Seq<Pixel>,
        next: &Self,
        after: Seq<Pixel>,
    ) -> bool {
        &&& self.lights@.len() < self.num_dots ==> spawned.pos < before.len() && FAINTEST
            <= spawned.level < FULL
        &&& next.lights@ == alight(all_dimmed(self.lit_with(spawned)))
        &&& sparkles(self.color, all_dimmed(self.lit_with(spawned)), before, after)
    }

    /// Whether the pattern can paint a strip of `len` pixels.
    pub fn fits(&self, len: usize) -> (ok: bool)
        ensures
            ok == self.valid_for(len as nat),
    {
        if self.lights.len() > self.num_dots || (self.num_dots > 0 && len == 0) {
            return false;
        }
        let mut k: usize = 0;
        while k < self.lights.len()
            invariant
                k <= self.lights@.len(),
                forall|j: int|
                    0 <= j < k ==> (#[trigger] self.lights@[j]).pos < len && self.lights@[j].level
                        <= FULL,
            decreases self.lights@.len() - k,
        {
            if self.lights[k].pos >= len || self.lights[k].level > FULL {
                return false;
            }
            k += 1;
        }
        true
    }

    /// One tick with the new spark already drawn: `spawned` joins the sparks
    /// if there is room for one more, every spark loses a step and is
    /// painted, and those that went out are dropped.
    pub fn fade(&mut self, spawned: Spark, leds: &mut Vec<Pixel>)
        requires
            old(self).valid_for(old(leds)@.len()),
            old(self).lights@.len() < old(self).num_dots ==> spawned.pos < old(leds)@.len()
                && FAINTEST <= spawned.level < FULL,
        ensures
            final(leds)@.len() == old(leds)@.len(),
            final(self).valid_for(final(leds)@.len()),
            final(self).tick_rate == old(self).tick_rate,
            final(self).tick_cycle == old(self).tick_cycle,
            final(self).color == old(self).color,
            final(self).num_dots == old(self).num_dots,
            old(self).fades_with(spawned, old(leds)@, final(self), final(leds)@),
    {
        let n: usize = leds.len();
        if self.lights.len() < self.num_dots {
            self.lights.push(spawned);
        }
        let ghost lit = self.lights@;
        let ghost dim = all_dimmed(lit);
        assert(lit == old(self).lit_with(spawned));
        let count: usize = self.lights.len();
        let mut kept: Vec<Spark> = Vec::new();
        let mut k: usize = 0;
        assert(dim.take(0) =~= Seq::<Spark>::empty());
        while k < count
            invariant
                k <= count,
                count == lit.len(),
                count <= self.num_dots,
                self.lights@ == lit,
                dim == all_dimmed(lit),
                leds@.len() == n,
                old(leds)@.len() == n,
                self.color == old(self).color,
                forall|j: int| 0 <= j < lit.len() ==> (#[trigger] lit[j]).pos < n && lit[j].level <= FULL,
                kept@ == alight(dim.take(k as int)),
                kept@.len() <= k,
                forall|j: int|
                    0 <= j < kept@.len() ==> (#[trigger] kept@[j]).pos < n && kept@[j].level <= FULL,
                sparkles(self.color, dim.take(k as int), old(leds)@, leds@),
            decreases count - k,
        {
            let spark: Spark = self.lights[k];
            let ghost painted = leds@;
            let level: u32 = if spark.level > STEP {
                spark.level - STEP
            } else {
                0
            };
            proof {
                assert(dim.take(k + 1).drop_last() =~= dim.take(k as int));
                assert(dim.take(k + 1).last() == dimmed(lit[k as int]));
            }
            if level > 0 {
                let b: u8 = Self::glow(self.color[0], level);
                let g: u8 = Self::glow(self.color[1], level);
                let r: u8 = Self::glow(self.color[2], level);
                leds[spark.pos] = [b, g, r, 0];
                kept.push(Spark { pos: spark.pos, level });
            } else {
                leds[spark.pos] = [0, 0, 0, 0];
            }
            proof {
                assert forall|i: int| 0 <= i < n implies {
                    let at = last_at(dim.take(k + 1), i);
                    if at < 0 {
                        #[trigger] leds@[i] == old(leds)@[i]
                    } else {
                        glows(self.color, dim.take(k + 1)[at].level, leds@[i])
                    }
                } by {
                    let at = last_at(dim.take(k as int), i);
                    if i != spark.pos {
                        assert(leds@[i] == painted[i]);
                        assert(last_at(dim.take(k + 1), i) == at);
                        if at >= 0 {
                            lemma_last_at_bounds(dim.take(k as int), i);
                        }
                    }
                }
            }
            k += 1;
        }
        assert(dim.take(count as int) =~= dim);
        self.lights = kept;
    }

    /// One channel of a spark at brightness `level`.
    fn glow(base: u8, level: u32) -> (value: u8)
        requires
            level <= FULL,
        ensures
            value == glow_value(base, level),
    {
        assert(base as int * level as int / 1_000_000 <= 255) by (nonlinear_arith)
            requires
                0 <= base <= 255,
                0 <= level <= 1_000_000,
        ;
        assert(base as int * level as int <= 255_000_000) by (nonlinear_arith)
            requires
                0 <= base <= 255,
                0 <= level <= 1_000_000,
        ;
        (base as u64 * level as u64 / 1_000_000) as u8
    }
}

impl Pattern for FadePattern {
    open spec fn rate(&self) -> u128 {
        self.tick_rate
    }

    open spec fn cycle(&self) -> Option<u128> {
        self.tick_cycle
    }

    /// No more sparks are alight than the pattern allows, each of them sits
    /// on the strip and is no brighter than full, and a strip that may get a
    /// spark has a pixel for it.
    open spec fn valid_for(&self, len: nat) -> bool {
        &&& self.lights@.len() <= self.num_dots
        &&& self.num_dots > 0 ==> len > 0
        &&& forall|k: int|
            0 <= k < self.lights@.len() ==> (#[trigger] self.lights@[k]).pos < len
                && self.lights@[k].level <= FULL
    }

    /// Some spark may have been spawned with which the tick went as
    /// `fades_with` says; rate, cycle, colour and the number of sparks allowed
    /// stay, and a change is always reported.
    open spec fn ticked(
        &self,
        tick: u128,
        before: Seq<Pixel>,
        next: &Self,
        after: Seq<Pixel>,
        changed: bool,
    ) -> bool {
        &&& changed
        &&& next.tick_rate == self.tick_rate
        &&& next.tick_cycle == self.tick_cycle
        &&& next.color == self.color
        &&& next.num_dots == self.num_dots
        &&& exists|spawned: Spark| #[trigger] self.fades_with(spawned, before, next, after)
    }

    fn tick_rate(&self) -> (rate: u128) {
        self.tick_rate
    }

    fn tick_cycle(&self) -> (cycle: Option<u128>) {
        self.tick_cycle
    }

    fn tick(&mut self, _tick: u128, leds: &mut Vec<Pixel>) -> (changed: bool) {
        let spawned = if self.lights.len() < self.num_dots {
            let pos: usize = draw(&mut self.rand, 0, leds.len() as u64) as usize;
            let level: u32 = draw(&mut self.rand, FAINTEST as u64, FULL as u64) as u32;
            Spark { pos, level }
        } else {
            Spark { pos: 0, level: 0 }
        };
        self.fade(spawned, leds);
        assert(old(self).fades_with(spawned, old(leds)@, self, leds@));
        true
    }
}

/// The last spark on a pixel, where there is one, is one of the sparks and
/// sits on that pixel.
pub proof fn lemma_last_at_bounds(sparks: Seq<Spark>, i: int)
    ensures
        -1 <= last_at(sparks, i) < sparks.len(),
        last_at(sparks, i) >= 0 ==> sparks[last_at(sparks, i)].pos == i,
    decreases sparks.len(),
{
    if sparks.len() > 0 && sparks.last().pos != i {
        lemma_last_at_bounds(sparks.drop_last(), i);
    }
}

/// Whatever a tick spawns, no more sparks are alight after it than the
/// pattern allows, each of them is still alight, and each is a spark that was
/// alight before, or the one that was spawned, exactly one step fainter.
pub proof fn lemma_sparks_fade(
    pattern: FadePattern,
    tick: u128,
    before: Seq<Pixel>,
    next: FadePattern,
    after: Seq<Pixel>,
    changed: bool,
)
    requires
        pattern.valid_for(before.len()),
        pattern.ticked(tick, before, &next, after, changed),
    ensures
        next.lights@.len() <= pattern.num_dots,
        forall|j: int|
            0 <= j < next.lights@.len() ==> {
                let s = #[trigger] next.lights@[j];
                &&& s.level > 0
                &&& s.pos < before.len()
                &&& {
                    ||| exists|k: int|
                        0 <= k < pattern.lights@.len() && (#[trigger] pattern.lights@[k]).pos
                            == s.pos && pattern.lights@[k].level == s.level + STEP
                    ||| pattern.lights@.len() < pattern.num_dots && FAINTEST <= s.level + STEP
                        < FULL
                }
            },
{
    let spawned = choose|spawned: Spark| #[trigger]
        pattern.fades_with(spawned, before, &next, after);
    let lit = pattern.lit_with(spawned);
    let dim = all_dimmed(lit);
    lemma_alight_from(dim);
    assert forall|j: int| 0 <= j < next.lights@.len() implies {
        let s = #[trigger] next.lights@[j];
        &&& s.level > 0
        &&& s.pos < before.len()
        &&& {
            ||| exists|k: int|
                0 <= k < pattern.lights@.len() && (#[trigger] pattern.lights@[k]).pos == s.pos
                    && pattern.lights@[k].level == s.level + STEP
            ||| pattern.lights@.len() < pattern.num_dots && FAINTEST <= s.level + STEP < FULL
        }
    } by {
        let s = next.lights@[j];
        assert(s == alight(dim)[j]);
        assert(dim.contains(s));
        let k = choose|k: int| 0 <= k < dim.len() && dim[k] == s;
        assert(s == dimmed(lit[k]));
        if k < pattern.lights@.len() {
            assert(lit[k] == pattern.lights@[k]);
        } else {
            assert(lit[k] == spawned);
        }
    }
}

} // verus!
