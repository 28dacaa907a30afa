//! The set of active patterns, their catch-up on elapsed time, and the frame
//! that blends them.

use vstd::prelude::*;
use crate::composite::{balance, blends, channel_total, lemma_channel_total_bound};
use crate::pattern::{is_dark, lemma_replayed_extends, raw_tick_at, replayed, Pattern, Pixel};

verus! {

/// The runtime state of one active pattern: the pattern, its own buffer, the
/// last tick it has painted, and the time it was started at, in nanoseconds
/// on the manager's clock.
pub struct PatternStore<P: Pattern> {
    pub name: String,
    pub pattern: P,
    pub leds: Vec<Pixel>,
    pub curr_tick: u128,
    pub start_time: u128,
}

impl<P: Pattern> PatternStore<P> {
    /// The pattern can paint this store's buffer and reduce a raw tick.
    pub open spec fn ready(&self) -> bool {
        &&& self.pattern.valid_for(self.leds@.len())
        &&& self.pattern.cycle() != Some(0u128)
    }

    /// Whole milliseconds between the store's start and `now`, both in
    /// nanoseconds; none where `now` is not later.
    pub open spec fn elapsed_ms(&self, now: u128) -> u128 {
        if now >= self.start_time {
            ((now - self.start_time) / 1_000_000) as u128
        } else {
            0
        }
    }

    /// The raw tick the pattern's rate asks for at `now`.
    pub open spec fn due_tick(&self, now: u128) -> int {
        raw_tick_at(self.pattern.rate(), self.elapsed_ms(now))
    }

    /// The tick due at `now` can be computed in 128 bits.
    pub open spec fn reaches(&self, now: u128) -> bool {
        self.pattern.rate() * self.elapsed_ms(now) <= u128::MAX
    }

    /// Catching up to the tick due at `now` may turn this store into `next`
    /// and report `changed`: name, start, and the pattern's rate and cycle
    /// stay, the tick counter never goes back, and every tick in between is
    /// replayed in order.
    pub open spec fn advanced(&self, now: u128, next: &Self, changed: bool) -> bool {
        &&& next.name == self.name
        &&& next.start_time == self.start_time
        &&& next.leds@.len() == self.leds@.len()
        &&& next.pattern.rate() == self.pattern.rate()
        &&& next.pattern.cycle() == self.pattern.cycle()
        &&& next.curr_tick == if self.due_tick(now) > self.curr_tick {
            self.due_tick(now)
        } else {
            self.curr_tick as int
        }
        &&& replayed(
            self.pattern,
            self.leds@,
            self.curr_tick,
            self.due_tick(now) as u128,
            next.pattern,
            next.leds@,
            changed,
        )
    }

    /// A store for `pattern` under `name`, started at `now`, with a dark
    /// buffer of `len` pixels and no tick painted yet.
    pub open spec fn is_fresh(&self, name: Seq<char>, pattern: P, len: nat, now: u128) -> bool {
        &&& self.name@ == name
        &&& self.pattern == pattern
        &&& self.leds@.len() == len
        &&& all_dark(self.leds@)
        &&& self.curr_tick == 0
        &&& self.start_time == now
    }

    /// Whether the tick due at `now` can be computed in 128 bits.
    pub fn can_reach(&self, now: u128) -> (ok: bool)
        ensures
            ok == self.reaches(now),
    {
        let elapsed: u128 = if now >= self.start_time {
            (now - self.start_time) / 1_000_000
        } else {
            0
        };
        self.pattern.tick_rate().checked_mul(elapsed).is_some()
    }

    /// Brings the store up to the tick due at `now`.
    pub fn advance(&mut self, now: u128) -> (changed: bool)
        requires
            old(self).ready(),
            old(self).reaches(now),
        ensures
            final(self).ready(),
            final(self).pattern.rate() == old(self).pattern.rate(),
            final(self).pattern.cycle() == old(self).pattern.cycle(),
            old(self).advanced(now, final(self), changed),
    {
        let elapsed: u128 = if now >= self.start_time {
            (now - self.start_time) / 1_000_000
        } else {
            0
        };
        let due: u128 = self.pattern.elapsed_to_raw_tick(elapsed);
        self.catch_up(due)
    }

    /// Replays every tick after the current one up to `target`, in order.
    pub fn catch_up(&mut self, target: u128) -> (changed: bool)
        requires
            old(self).ready(),
        ensures
            final(self).ready(),
            final(self).name == old(self).name,
            final(self).start_time == old(self).start_time,
            final(self).leds@.len() == old(self).leds@.len(),
            final(self).pattern.rate() == old(self).pattern.rate(),
            final(self).pattern.cycle() == old(self).pattern.cycle(),
            final(self).curr_tick == if target > old(self).curr_tick {
                target
            } else {
                old(self).curr_tick
            },
            replayed(
                old(self).pattern,
                old(self).leds@,
                old(self).curr_tick,
                target,
                final(self).pattern,
                final(self).leds@,
                changed,
            ),
    {
        let mut changed = false;
        if target > self.curr_tick {
            let first: u128 = self.curr_tick;
            let mut j: u128 = first;
            while j < target
                invariant
                    first <= j <= target,
                    first == old(self).curr_tick,
                    self.ready(),
                    self.name == old(self).name,
                    self.start_time == old(self).start_time,
                    self.leds@.len() == old(self).leds@.len(),
                    self.pattern.rate() == old(self).pattern.rate(),
                    self.pattern.cycle() == old(self).pattern.cycle(),
                    replayed(
                        old(self).pattern,
                        old(self).leds@,
                        first,
                        j,
                        self.pattern,
                        self.leds@,
                        changed,
                    ),
                decreases target - j,
            {
                let ghost mid = self.pattern;
                let ghost between = self.leds@;
                let ghost earlier = changed;
                let last = self.pattern.start_tick(j + 1, &mut self.leds);
                if last {
                    changed = true;
                }
                j += 1;
                proof {
                    lemma_replayed_extends(
                        old(self).pattern,
                        old(self).leds@,
                        first,
                        j,
                        mid,
                        between,
                        earlier,
                        self.pattern,
                        self.leds@,
                        last,
                    );
                }
            }
            self.curr_tick = target;
        }
        changed
    }
}

/// The buffers of `stores`, in their order.
pub open spec fn buffers<P: Pattern>(stores: Seq<PatternStore<P>>) -> Seq<Seq<Pixel>> {
    Seq::new(stores.len(), |k: int| stores[k].leds@)
}

/// Whether `frame` is the blend of all `stores`, pixel by pixel, with the
/// fourth channel of each pixel kept from `kept`.
pub open spec fn composed<P: Pattern>(
    stores: Seq<PatternStore<P>>,
    kept: Seq<Pixel>,
    frame: Seq<Pixel>,
) -> bool {
    &&& frame.len() == kept.len()
    &&& forall|i: int|
        0 <= i < frame.len() ==> blends(buffers(stores), i, kept[i], #[trigger] frame[i])
}

/// Whether `frame` has every channel of every pixel dark.
pub open spec fn all_dark(frame: Seq<Pixel>) -> bool {
    forall|i: int| 0 <= i < frame.len() ==> is_dark(#[trigger] frame[i])
}

/// Whether every store of `before` was brought up to the tick due at `now`,
/// giving the store at the same place in `after`, with `flags` telling which
/// of them reported a change.
pub open spec fn all_advanced<P: Pattern>(
    before: Seq<PatternStore<P>>,
    now: u128,
    after: Seq<PatternStore<P>>,
    flags: Seq<bool>,
) -> bool {
    &&& after.len() == before.len()
    &&& flags.len() == before.len()
    &&& forall|k: int|
        0 <= k < before.len() ==> (#[trigger] before[k]).advanced(now, &after[k], flags[k])
}

/// Owns the active patterns by name, the frame that blends them, and the
/// settings that go with the strip.
pub struct PatternManager<P: Pattern> {
    sleep_time: u64,
    patterns: Vec<PatternStore<P>>,
    frame: Vec<Pixel>,
    brightness: u8,
    pin: i32,
    num_leds: usize,
    blends: Ghost<nat>,
}

impl<P: Pattern> PatternManager<P> {
    /// The active stores.
    pub closed spec fn stores(&self) -> Seq<PatternStore<P>> {
        self.patterns@
    }

    /// The frame as last blended.
    pub closed spec fn shown(&self) -> Seq<Pixel> {
        self.frame@
    }

    /// The number of pixels on the strip.
    pub closed spec fn strip_len(&self) -> nat {
        self.num_leds as nat
    }

    /// The global brightness handed to the strip.
    pub closed spec fn level(&self) -> u8 {
        self.brightness
    }

    /// The pause between two polls of the scheduler, in microseconds.
    pub closed spec fn interval(&self) -> u64 {
        self.sleep_time
    }

    /// The pin the strip is wired to.
    pub closed spec fn wired_to(&self) -> i32 {
        self.pin
    }

    /// How many frames have been blended so far. Each of them is due at the
    /// strip once.
    pub closed spec fn blended(&self) -> nat {
        self.blends@
    }

    /// Every buffer has the strip's length, every pattern can paint it, no
    /// name occurs twice, and the frame's fourth channel is dark.
    pub open spec fn wf(&self) -> bool {
        &&& self.shown().len() == self.strip_len()
        &&& forall|i: int| 0 <= i < self.shown().len() ==> (#[trigger] self.shown()[i])[3] == 0
        &&& forall|k: int|
            0 <= k < self.stores().len() ==> {
                &&& (#[trigger] self.stores()[k]).leds@.len() == self.strip_len()
                &&& self.stores()[k].ready()
            }
        &&& forall|j: int, k: int|
            0 <= j < k < self.stores().len() ==> (#[trigger] self.stores()[j]).name@ != (
            #[trigger] self.stores()[k]).name@
    }

    /// Strip length, brightness, pause and pin are as in `other`.
    pub open spec fn same_settings(&self, other: &Self) -> bool {
        &&& self.strip_len() == other.strip_len()
        &&& self.level() == other.level()
        &&& self.interval() == other.interval()
        &&& self.wired_to() == other.wired_to()
    }

    /// A manager for a strip of `led_count` pixels on `pin`, with no pattern,
    /// a dark frame, full brightness and a pause of one millisecond.
    pub fn new(pin: i32, led_count: i32) -> (m: PatternManager<P>)
        requires
            led_count >= 0,
        ensures
            m.wf(),
            m.stores().len() == 0,
            m.strip_len() == led_count,
            m.wired_to() == pin,
            m.level() == 255,
            m.interval() == 1_000,
            m.blended() == 0,
            all_dark(m.shown()),
    {
        let n: usize = led_count as usize;
        let dark: Pixel = [0, 0, 0, 0];
        PatternManager {
            sleep_time: 1_000,
            patterns: Vec::new(),
            frame: vec![dark; n],
            brightness: 255,
            pin,
            num_leds: n,
            blends: Ghost(0),
        }
    }

    /// The frame as last blended, for the strip.
    pub fn frame(&self) -> (frame: &Vec<Pixel>)
        ensures
            frame@ == self.shown(),
    {
        &self.frame
    }

    /// The global brightness that goes to the strip with the frame.
    pub fn brightness(&self) -> (level: u8)
        ensures
            level == self.level(),
    {
        self.brightness
    }

    /// The number of pixels on the strip.
    pub fn num_leds(&self) -> (len: usize)
        ensures
            len == self.strip_len(),
    {
        self.num_leds
    }

    /// The pin the strip is wired to.
    pub fn pin(&self) -> (pin: i32)
        ensures
            pin == self.wired_to(),
    {
        self.pin
    }

    /// The pause between two polls of the scheduler, in microseconds.
    pub fn sleep_time(&self) -> (micros: u64)
        ensures
            micros == self.interval(),
    {
        self.sleep_time
    }

    /// Changes the pause between two polls of the scheduler.
    pub fn set_sleep_time(&mut self, micros: u64)
        ensures
            final(self).interval() == micros,
            final(self).stores() == old(self).stores(),
            final(self).shown() == old(self).shown(),
            final(self).strip_len() == old(self).strip_len(),
            final(self).level() == old(self).level(),
            final(self).wired_to() == old(self).wired_to(),
            final(self).blended() == old(self).blended(),
    {
        self.sleep_time = micros;
    }

    /// Whether a pattern is active under `name`.
    pub open spec fn holds(&self, name: Seq<char>) -> bool {
        exists|k: int| 0 <= k < self.stores().len() && (#[trigger] self.stores()[k]).name@ == name
    }

    /// The place of the store named `name` among the stores, if there is one.
    pub open spec fn slot(&self, name: Seq<char>) -> Option<int> {
        if self.holds(name) {
            Some(
                choose|k: int|
                    0 <= k < self.stores().len() && (#[trigger] self.stores()[k]).name@ == name,
            )
        } else {
            None
        }
    }

    /// The tick due at `now` can be computed for every store.
    pub open spec fn reaches(&self, now: u128) -> bool {
        forall|k: int| 0 <= k < self.stores().len() ==> (#[trigger] self.stores()[k]).reaches(now)
    }

    /// A name is held by one store at most: the store that has it is the one
    /// in its slot.
    pub proof fn lemma_slot_is_unique(&self, name: Seq<char>, k: int)
        requires
            self.wf(),
            0 <= k < self.stores().len(),
            self.stores()[k].name@ == name,
        ensures
            self.holds(name),
            self.slot(name) == Some(k),
    {
        let c = choose|j: int|
            0 <= j < self.stores().len() && (#[trigger] self.stores()[j]).name@ == name;
        if c < k {
            assert(self.stores()[c].name@ != self.stores()[k].name@);
        }
        if c > k {
            assert(self.stores()[k].name@ != self.stores()[c].name@);
        }
    }

    fn find(&self, name: &String) -> (found: Option<usize>)
        requires
            self.wf(),
        ensures
            match found {
                Some(k) => self.slot(name@) == Some(k as int) && k < self.stores().len()
                    && self.stores()[k as int].name@ == name@,
                None => !self.holds(name@) && self.slot(name@) == None::<int>,
            },
    {
        let mut k: usize = 0;
        while k < self.patterns.len()
            invariant
                self.wf(),
                k <= self.patterns@.len(),
                forall|j: int| 0 <= j < k ==> (#[trigger] self.patterns@[j]).name@ != name@,
            decreases self.patterns@.len() - k,
        {
            if self.patterns[k].name == *name {
                proof {
                    self.lemma_slot_is_unique(name@, k as int);
                }
                return Some(k);
            }
            k += 1;
        }
        None
    }

    /// Starts `pattern` under `name` at `now`, in nanoseconds on the
    /// manager's clock, with a dark buffer and its tick counter at zero. A
    /// pattern already active under that name gives way to it, buffer, tick
    /// counter and all.
    pub fn add_pattern(&mut self, name: String, pattern: P, now: u128)
        requires
            old(self).wf(),
            pattern.valid_for(old(self).strip_len()),
            pattern.cycle() != Some(0u128),
        ensures
            final(self).wf(),
            final(self).same_settings(old(self)),
            final(self).shown() == old(self).shown(),
            final(self).blended() == old(self).blended(),
            match old(self).slot(name@) {
                Some(k) => {
                    &&& final(self).stores().len() == old(self).stores().len()
                    &&& final(self).stores()[k].is_fresh(name@, pattern, old(self).strip_len(), now)
                    &&& forall|j: int|
                        0 <= j < old(self).stores().len() && j != k ==> final(self).stores()[j]
                            == old(self).stores()[j]
                },
                None => {
                    &&& final(self).stores().len() == old(self).stores().len() + 1
                    &&& final(self).stores().last().is_fresh(
                        name@,
                        pattern,
                        old(self).strip_len(),
                        now,
                    )
                    &&& final(self).stores().drop_last() == old(self).stores()
                },
            },
    {
        let found = self.find(&name);
        let dark: Pixel = [0, 0, 0, 0];
        let store = PatternStore {
            name,
            pattern,
            leds: vec![dark; self.num_leds],
            curr_tick: 0,
            start_time: now,
        };
        match found {
            Some(k) => {
                self.patterns[k] = store;
            },
            None => {
                self.patterns.push(store);
                assert(self.stores().drop_last() =~= old(self).stores());
            },
        }
    }

    /// Stops the pattern active under `name`, and says whether there was one.
    pub fn remove_pattern(&mut self, name: String) -> (removed: bool)
        requires
            old(self).wf(),
        ensures
            final(self).wf(),
            final(self).same_settings(old(self)),
            final(self).shown() == old(self).shown(),
            final(self).blended() == old(self).blended(),
            removed == old(self).holds(name@),
            !final(self).holds(name@),
            match old(self).slot(name@) {
                Some(k) => final(self).stores() == old(self).stores().remove(k),
                None => final(self).stores() == old(self).stores(),
            },
    {
        match self.find(&name) {
            Some(k) => {
                self.patterns.remove(k);
                true
            },
            None => false,
        }
    }

    /// Stops every pattern and blends once more, which leaves the frame dark.
    pub fn clear(&mut self)
        requires
            old(self).wf(),
        ensures
            final(self).wf(),
            final(self).same_settings(old(self)),
            final(self).stores().len() == 0,
            final(self).blended() == old(self).blended() + 1,
            all_dark(final(self).shown()),
    {
        self.patterns.clear();
        self.tick();
        assert(buffers(self.stores()).len() == 0);
    }

    /// The names of the active patterns.
    pub fn get_patterns(&mut self) -> (names: Vec<String>)
        ensures
            *final(self) == *old(self),
            names@.len() == old(self).stores().len(),
            forall|k: int|
                0 <= k < names@.len() ==> (#[trigger] names@[k])@ == old(self).stores()[k].name@,
    {
        let mut names: Vec<String> = Vec::new();
        let mut k: usize = 0;
        while k < self.patterns.len()
            invariant
                k <= self.patterns@.len(),
                names@.len() == k,
                *self == *old(self),
                forall|j: int| 0 <= j < k ==> (#[trigger] names@[j])@ == self.patterns@[j].name@,
            decreases self.patterns@.len() - k,
        {
            names.push(self.patterns[k].name.clone());
            k += 1;
        }
        names
    }

    /// Sets the global brightness that goes to the strip with the frame.
    pub fn set_brightness(&mut self, brightness: u8)
        ensures
            final(self).level() == brightness,
            final(self).stores() == old(self).stores(),
            final(self).shown() == old(self).shown(),
            final(self).strip_len() == old(self).strip_len(),
            final(self).interval() == old(self).interval(),
            final(self).wired_to() == old(self).wired_to(),
            final(self).blended() == old(self).blended(),
    {
        self.brightness = brightness;
    }

    /// Whether the tick due at `now` can be computed for every store, which
    /// is what `increment_ticks` asks of its caller.
    pub fn can_reach(&self, now: u128) -> (ok: bool)
        ensures
            ok == self.reaches(now),
    {
        let mut k: usize = 0;
        while k < self.patterns.len()
            invariant
                k <= self.patterns@.len(),
                forall|j: int| 0 <= j < k ==> (#[trigger] self.patterns@[j]).reaches(now),
            decreases self.patterns@.len() - k,
        {
            if !self.patterns[k].can_reach(now) {
                assert(!self.stores()[k as int].reaches(now));
                return false;
            }
            k += 1;
        }
        true
    }

    /// Brings every pattern up to the tick due at `now`, in nanoseconds on
    /// the manager's clock, replaying each tick it has missed, and blends a
    /// new frame if any of them reported a change. Says whether it did: the
    /// frame then has to go to the strip.
    pub fn increment_ticks(&mut self, now: u128) -> (render: bool)
        requires
            old(self).wf(),
            old(self).reaches(now),
        ensures
            final(self).wf(),
            final(self).same_settings(old(self)),
            exists|flags: Seq<bool>|
                {
                    &&& #[trigger] all_advanced(old(self).stores(), now, final(self).stores(), flags)
                    &&& render == flags.contains(true)
                },
            if render {
                &&& composed(final(self).stores(), old(self).shown(), final(self).shown())
                &&& final(self).blended() == old(self).blended() + 1
            } else {
                &&& final(self).shown() == old(self).shown()
                &&& final(self).blended() == old(self).blended()
            },
    {
        let count: usize = self.patterns.len();
        let mut got_update = false;
        let ghost mut flags: Seq<bool> = Seq::empty();
        let mut k: usize = 0;
        assert forall|j: int| 0 <= j < count implies (#[trigger] self.patterns@[j]).ready() by {
            assert(self.stores()[j].ready());
        }
        while k < count
            invariant
                k <= count,
                count == old(self).patterns@.len(),
                self.patterns@.len() == count,
                self.frame == old(self).frame,
                self.blends == old(self).blends,
                self.same_settings(old(self)),
                old(self).wf(),
                old(self).reaches(now),
                flags.len() == k,
                got_update == flags.contains(true),
                forall|j: int|
                    0 <= j < k ==> (#[trigger] old(self).patterns@[j]).advanced(
                        now,
                        &self.patterns@[j],
                        flags[j],
                    ),
                forall|j: int| k <= j < count ==> self.patterns@[j] == old(self).patterns@[j],
                forall|j: int|
                    0 <= j < count ==> {
                        &&& (#[trigger] self.patterns@[j]).ready()
                        &&& self.patterns@[j].name == old(self).patterns@[j].name
                        &&& self.patterns@[j].leds@.len() == old(self).patterns@[j].leds@.len()
                    },
            decreases count - k,
        {
            assert(old(self).stores()[k as int].reaches(now));
            let changed = self.patterns[k].advance(now);
            if changed {
                got_update = true;
            }
            proof {
                let longer = flags.push(changed);
                assert(longer.drop_last() =~= flags);
                assert(longer.contains(true) == (flags.contains(true) || changed)) by {
                    if flags.contains(true) {
                        let at = choose|j: int| 0 <= j < flags.len() && flags[j];
                        assert(longer[at]);
                    }
                    if changed {
                        assert(longer[k as int]);
                    }
                }
                flags = longer;
            }
            k += 1;
        }
        assert(all_advanced(old(self).stores(), now, self.stores(), flags));
        if got_update {
            self.tick();
        }
        got_update
    }

    /// Blends the buffers of all active patterns into the frame.
    pub fn tick(&mut self)
        requires
            old(self).wf(),
        ensures
            final(self).wf(),
            final(self).stores() == old(self).stores(),
            final(self).same_settings(old(self)),
            final(self).blended() == old(self).blended() + 1,
            composed(final(self).stores(), old(self).shown(), final(self).shown()),
    {
        let n: usize = self.num_leds;
        let count: usize = self.patterns.len();
        let ghost bufs = buffers(self.patterns@);
        let mut i: usize = 0;
        while i < n
            invariant
                i <= n,
                n == self.num_leds,
                count == self.patterns@.len(),
                self.patterns == old(self).patterns,
                self.blends == old(self).blends,
                self.same_settings(old(self)),
                self.frame@.len() == n,
                old(self).wf(),
                bufs == buffers(self.patterns@),
                forall|k: int| i <= k < n ==> self.frame@[k] == old(self).frame@[k],
                forall|k: int| 0 <= k < n ==> (#[trigger] self.frame@[k])[3] == 0,
                forall|k: int|
                    0 <= k < i ==> blends(bufs, k, old(self).frame@[k], #[trigger] self.frame@[k]),
            decreases n - i,
        {
            let mut b: u128 = 0;
            let mut g: u128 = 0;
            let mut r: u128 = 0;
            let mut k: usize = 0;
            assert(bufs.take(0).len() == 0);
            while k < count
                invariant
                    k <= count,
                    i < n,
                    n == old(self).num_leds,
                    count == self.patterns@.len(),
                    old(self).wf(),
                    self.patterns == old(self).patterns,
                    bufs == buffers(self.patterns@),
                    b == channel_total(bufs.take(k as int), i as int, 0),
                    g == channel_total(bufs.take(k as int), i as int, 1),
                    r == channel_total(bufs.take(k as int), i as int, 2),
                decreases count - k,
            {
                proof {
                    let head = bufs.take(k as int);
                    let more = bufs.take(k + 1);
                    assert(more.drop_last() =~= head);
                    assert(more.last() == bufs[k as int]);
                    lemma_channel_total_bound(head, i as int, 0);
                    lemma_channel_total_bound(head, i as int, 1);
                    lemma_channel_total_bound(head, i as int, 2);
                }
                assert(old(self).stores()[k as int].leds@.len() == n);
                let led: &Pixel = &self.patterns[k].leds[i];
                b = b + led[0] as u128;
                g = g + led[1] as u128;
                r = r + led[2] as u128;
                k += 1;
            }
            proof {
                assert(bufs.take(count as int) =~= bufs);
                lemma_channel_total_bound(bufs, i as int, 0);
                lemma_channel_total_bound(bufs, i as int, 1);
                lemma_channel_total_bound(bufs, i as int, 2);
            }
            let (b8, g8, r8) = balance(b, g, r);
            let w: u8 = self.frame[i][3];
            self.frame[i] = [b8, g8, r8, w];
            i += 1;
        }
        self.blends = Ghost(self.blends@ + 1);
        assert(self.stores() == old(self).stores());
    }
}

} // verus!
