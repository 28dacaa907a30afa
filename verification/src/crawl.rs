//! A comet that crawls along the strip and drags a fading tail behind it.

use vstd::prelude::*;
use vstd::arithmetic::div_mod::*;
use crate::pattern::{is_dark, Pattern, Pixel};

verus! {

pub struct FadingCrawl {
    pub tick_rate: u128,
    pub tick_cycle: Option<u128>,
    /// The number of pixels alight behind and with the head.
    pub tail_len: u128,
    /// The colour at the head.
    pub color: Pixel,
    /// How far along the strip the comet starts.
    pub start_pos: u128,
}

/// A channel of the base colour at `offset` pixels behind the head: divided
/// by one more than the offset, fractions dropped.
pub open spec fn tail_value(base: u8, offset: int) -> int {
    base as int / (offset + 1)
}

/// The pixel `offset` places behind the head `head` on a strip of `len`.
pub open spec fn tail_index(head: int, offset: int, len: int) -> int {
    (head - offset) % len
}

/// How far behind the head pixel `i` lies, going round the strip.
pub open spec fn behind(head: int, i: int, len: int) -> int {
    (head - i) % len
}

/// The last offset below `painted` that lands on a pixel `gap` places behind
/// the head, where `gap < painted`.
pub open spec fn last_offset(gap: int, painted: int, len: int) -> int {
    gap + len * ((painted - 1 - gap) / len)
}

/// Whether `after` is pixel `i` once the offsets below `painted` have been
/// painted over `before`: a pixel the tail reaches shows the base colour at
/// the last offset that landed on it, any other is as before.
pub open spec fn tail_painted(
    color: Pixel,
    head: int,
    painted: int,
    len: int,
    i: int,
    before: Pixel,
    after: Pixel,
) -> bool {
    let gap = behind(head, i, len);
    if gap < painted {
        let offset = last_offset(gap, painted, len);
        &&& after[0] == tail_value(color[0], offset)
        &&& after[1] == tail_value(color[1], offset)
        &&& after[2] == tail_value(color[2], offset)
        &&& after[3] == 0
    } else {
        after == before
    }
}

/// Whether `after` is pixel `i` after one tick with the head at `head`: the
/// pixel just past the tail is dark, the others are as the tail painted them.
pub open spec fn crawl_pixel(
    color: Pixel,
    head: int,
    tail_len: int,
    len: int,
    i: int,
    before: Pixel,
    after: Pixel,
) -> bool {
    if i == tail_index(head, tail_len, len) {
        is_dark(after)
    } else {
        tail_painted(color, head, tail_len, len, i, before, after)
    }
}

/// Going one place further back moves one pixel down, round the strip.
pub proof fn lemma_tail_index_steps(head: int, offset: int, len: int)
    requires
        0 < len,
    ensures
        tail_index(head, offset + 1, len) == if tail_index(head, offset, len) == 0 {
            len - 1
        } else {
            tail_index(head, offset, len) - 1
        },
{
    let x = head - offset;
    lemma_fundamental_div_mod(x, len);
    lemma_mod_bound(x, len);
    let q = x / len;
    let r = x % len;
    assert(x == q * len + r) by (nonlinear_arith)
        requires
            x == len * q + r,
    ;
    if r == 0 {
        assert(x - 1 == (q - 1) * len + (len - 1)) by (nonlinear_arith)
            requires
                x == q * len + r,
                r == 0,
        ;
        lemma_fundamental_div_mod_converse(x - 1, len, q - 1, len - 1);
    } else {
        lemma_fundamental_div_mod_converse(x - 1, len, q, r - 1);
    }
}

/// The pixel at offset `offset` lies `offset % len` places behind the head.
pub proof fn lemma_behind_tail_index(head: int, offset: int, len: int)
    requires
        0 < len,
    ensures
        behind(head, tail_index(head, offset, len), len) == offset % len,
{
    lemma_sub_mod_noop_right(head, head - offset, len);
}

/// A pixel is found again from its distance behind the head.
pub proof fn lemma_tail_index_behind(head: int, i: int, len: int)
    requires
        0 <= i < len,
    ensures
        tail_index(head, behind(head, i, len), len) == i,
        0 <= behind(head, i, len) < len,
{
    lemma_sub_mod_noop_right(head, head - i, len);
    lemma_small_mod(i as nat, len as nat);
    lemma_mod_bound(head - i, len);
}

/// The offset `offset` is the last one below `offset + 1` to land on its
/// pixel.
proof fn lemma_last_offset_hit(offset: int, len: int)
    requires
        0 <= offset,
        0 < len,
    ensures
        last_offset(offset % len, offset + 1, len) == offset,
{
    lemma_fundamental_div_mod(offset, len);
    let q = offset / len;
    assert(offset - offset % len == len * q);
    lemma_div_multiples_vanish(q, len);
}

/// An offset that lands elsewhere leaves the last offset of a pixel as it
/// was.
proof fn lemma_last_offset_kept(gap: int, painted: int, len: int)
    requires
        0 <= gap < len,
        gap < painted,
        painted % len != gap,
    ensures
        last_offset(gap, painted + 1, len) == last_offset(gap, painted, len),
{
    let d = painted - gap;
    lemma_fundamental_div_mod(d, len);
    lemma_mod_bound(d, len);
    let q = d / len;
    let r = d % len;
    if r == 0 {
        assert(painted == len * q + gap);
        lemma_mod_multiples_vanish(q, gap, len);
        lemma_small_mod(gap as nat, len as nat);
    }
    assert(d - 1 == q * len + (r - 1)) by (nonlinear_arith)
        requires
            d == len * q + r,
    ;
    lemma_fundamental_div_mod_converse(d - 1, len, q, r - 1);
}

/// Painting the offset `painted` over the offsets below it gives the tail up
/// to `painted + 1`: the pixel it lands on takes its shade, every other
/// pixel stays as it was.
proof fn lemma_tail_grows(
    color: Pixel,
    head: int,
    painted: int,
    len: int,
    i: int,
    before: Pixel,
    mid: Pixel,
    after: Pixel,
)
    requires
        0 <= painted,
        0 <= i < len,
        tail_painted(color, head, painted, len, i, before, mid),
        if i == tail_index(head, painted, len) {
            &&& after[0] == tail_value(color[0], painted)
            &&& after[1] == tail_value(color[1], painted)
            &&& after[2] == tail_value(color[2], painted)
            &&& after[3] == 0
        } else {
            after == mid
        },
    ensures
        tail_painted(color, head, painted + 1, len, i, before, after),
{
    let gap = behind(head, i, len);
    lemma_tail_index_behind(head, i, len);
    lemma_behind_tail_index(head, painted, len);
    if i == tail_index(head, painted, len) {
        lemma_mod_decreases(painted as nat, len as nat);
        lemma_last_offset_hit(painted, len);
    } else {
        if gap == painted % len {
            lemma_sub_mod_noop_right(head, painted, len);
        }
        if gap < painted {
            lemma_last_offset_kept(gap, painted, len);
        } else if gap == painted {
            lemma_small_mod(painted as nat, len as nat);
        }
    }
}

/// A tail shorter than the strip shows whole: the pixel `offset` places
/// behind the head holds the base colour divided by `offset + 1`, whatever
/// it held before.
pub proof fn lemma_short_tail_shows(
    color: Pixel,
    head: int,
    tail_len: int,
    len: int,
    offset: int,
    before: Pixel,
    after: Pixel,
)
    requires
        0 <= offset < tail_len < len,
        crawl_pixel(color, head, tail_len, len, tail_index(head, offset, len), before, after),
    ensures
        after[0] == tail_value(color[0], offset),
        after[1] == tail_value(color[1], offset),
        after[2] == tail_value(color[2], offset),
        after[3] == 0,
{
    let i = tail_index(head, offset, len);
    lemma_behind_tail_index(head, offset, len);
    lemma_behind_tail_index(head, tail_len, len);
    lemma_small_mod(offset as nat, len as nat);
    lemma_small_mod(tail_len as nat, len as nat);
    assert((tail_len - 1 - offset) / len == 0) by (nonlinear_arith)
        requires
            0 <= tail_len - 1 - offset < len,
    ;
    assert(last_offset(offset, tail_len, len) == offset) by (nonlinear_arith)
        requires
            (tail_len - 1 - offset) / len == 0,
            last_offset(offset, tail_len, len) == offset + len * ((tail_len - 1 - offset) / len),
    ;
}

impl FadingCrawl {
    pub fn new(tick_rate: u128, tail_len: u128, color: Pixel, start_pos: u128) -> (p: FadingCrawl)
        ensures
            p.tick_rate == tick_rate,
            p.tick_cycle == None::<u128>,
            p.tail_len == tail_len,
            p.color == color,
            p.start_pos == start_pos,
    {
        FadingCrawl { tick_rate, tick_cycle: None, tail_len, color, start_pos }
    }

    /// The head's place for `tick`, before it is wrapped round the strip.
    pub open spec fn head(&self, tick: u128) -> int {
        tick + self.tail_len + self.start_pos
    }

    /// One channel at `offset` places behind the head.
    fn shade(base: u8, offset: u128) -> (value: u8)
        ensures
            value == tail_value(base, offset as int),
    {
        if offset >= 255 {
            assert(base as int / (offset + 1) == 0) by (nonlinear_arith)
                requires
                    0 <= base <= 255,
                    offset >= 255,
            ;
            0
        } else {
            base / ((offset + 1) as u8)
        }
    }

    /// The head's pixel for `tick` on a strip of `len`.
    fn head_index(&self, tick: u128, len: usize) -> (at: usize)
        requires
            len > 0,
        ensures
            at == tail_index(self.head(tick), 0, len as int),
            at < len,
    {
        let m: u128 = len as u128;
        let a: u128 = tick % m;
        let b: u128 = self.tail_len % m;
        let c: u128 = self.start_pos % m;
        let ab: u128 = (a + b) % m;
        let abc: u128 = (ab + c) % m;
        proof {
            lemma_add_mod_noop(tick as int, self.tail_len as int, m as int);
            lemma_add_mod_noop(tick + self.tail_len, self.start_pos as int, m as int);
        }
        abc as usize
    }
}

impl Pattern for FadingCrawl {
    open spec fn rate(&self) -> u128 {
        self.tick_rate
    }

    open spec fn cycle(&self) -> Option<u128> {
        self.tick_cycle
    }

    /// The head's place is taken modulo the strip's length, so the strip must
    /// have a pixel.
    open spec fn valid_for(&self, len: nat) -> bool {
        len > 0
    }

    /// Every pixel is as the crawl leaves it with the head at
    /// `tick + tail_len + start_pos`; the pattern itself stays as it was, and
    /// a change is always reported.
    open spec fn ticked(
        &self,
        tick: u128,
        before: Seq<Pixel>,
        next: &Self,
        after: Seq<Pixel>,
        changed: bool,
    ) -> bool {
        &&& changed
        &&& *next == *self
        &&& after.len() == before.len()
        &&& forall|i: int|
            0 <= i < before.len() ==> crawl_pixel(
                self.color,
                self.head(tick),
                self.tail_len as int,
                before.len() as int,
                i,
                #[trigger] before[i],
                after[i],
            )
    }

    fn tick_rate(&self) -> (rate: u128) {
        self.tick_rate
    }

    fn tick_cycle(&self) -> (cycle: Option<u128>) {
        self.tick_cycle
    }

    fn tick(&mut self, tick: u128, leds: &mut Vec<Pixel>) -> (changed: bool) {
        let n: usize = leds.len();
        let ghost head = self.head(tick);
        let ghost len = n as int;
        let mut at: usize = self.head_index(tick, n);
        let mut offset: u128 = 0;
        while offset < self.tail_len
            invariant
                0 < n,
                len == n,
                leds@.len() == n,
                old(leds)@.len() == n,
                head == self.head(tick),
                *self == *old(self),
                offset <= self.tail_len,
                at < n,
                at == tail_index(head, offset as int, len),
                forall|i: int|
                    0 <= i < n ==> tail_painted(
                        self.color,
                        head,
                        offset as int,
                        len,
                        i,
                        #[trigger] old(leds)@[i],
                        leds@[i],
                    ),
            decreases self.tail_len - offset,
        {
            let b: u8 = Self::shade(self.color[0], offset);
            let g: u8 = Self::shade(self.color[1], offset);
            let r: u8 = Self::shade(self.color[2], offset);
            let ghost painted = leds@;
            leds[at] = [b, g, r, 0];
            proof {
                lemma_tail_index_steps(head, offset as int, len);
                assert forall|i: int| 0 <= i < n implies tail_painted(
                    self.color,
                    head,
                    offset + 1,
                    len,
                    i,
                    #[trigger] old(leds)@[i],
                    leds@[i],
                ) by {
                    lemma_tail_grows(
                        self.color,
                        head,
                        offset as int,
                        len,
                        i,
                        old(leds)@[i],
                        painted[i],
                        leds@[i],
                    );
                }
            }
            at = if at == 0 {
                n - 1
            } else {
                at - 1
            };
            offset += 1;
        }
        leds[at] = [0, 0, 0, 0];
        true
    }
}

} // verus!
