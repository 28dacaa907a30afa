//! Blending the buffers of several patterns into one pixel value per channel:
//! the contributions are added up, and a colour that has grown too bright is
//! scaled back as a whole, so that its hue survives.

use vstd::prelude::*;
use crate::pattern::Pixel;

verus! {

/// The sum of channel `c` of pixel `i` over all `buffers`.
pub open spec fn channel_total(buffers: Seq<Seq<Pixel>>, i: int, c: int) -> int
    decreases buffers.len(),
{
    if buffers.len() == 0 {
        0
    } else {
        channel_total(buffers.drop_last(), i, c) + buffers.last()[i][c]
    }
}

/// The largest of three channel sums.
pub open spec fn peak(r: int, g: int, b: int) -> int {
    if r >= g && r >= b {
        r
    } else if g >= b {
        g
    } else {
        b
    }
}

/// A channel sum brought into range: kept where the brightest colour channel
/// fits a byte, scaled by `255 / peak` where it does not.
pub open spec fn balanced(value: int, peak: int) -> int {
    if peak > 255 {
        value * 255 / peak
    } else {
        value
    }
}

/// Whether `out` is the blend of `buffers` at pixel `i`: the three colour
/// channels balanced against their common peak, the fourth channel kept from
/// `kept`.
pub open spec fn blends(buffers: Seq<Seq<Pixel>>, i: int, kept: Pixel, out: Pixel) -> bool {
    let b = channel_total(buffers, i, 0);
    let g = channel_total(buffers, i, 1);
    let r = channel_total(buffers, i, 2);
    let top = peak(b, g, r);
    &&& out[0] == balanced(b, top)
    &&& out[1] == balanced(g, top)
    &&& out[2] == balanced(r, top)
    &&& out[3] == kept[3]
}

/// A balanced channel always fits a byte, whatever the sums were.
pub proof fn lemma_balanced_in_range(value: int, top: int)
    requires
        0 <= value <= top,
    ensures
        0 <= balanced(value, top) <= 255,
{
    if top > 255 {
        assert(0 <= value * 255 / top <= 255) by (nonlinear_arith)
            requires
                0 <= value <= top,
                top > 255,
        ;
    }
}

/// Balancing keeps the order of the channels, so the brightest stays the
/// brightest.
pub proof fn lemma_balanced_monotonic(low: int, high: int, top: int)
    requires
        0 <= low <= high,
        0 < top,
    ensures
        balanced(low, top) <= balanced(high, top),
{
    if top > 255 {
        assert(low * 255 / top <= high * 255 / top) by (nonlinear_arith)
            requires
                0 <= low <= high,
                top > 0,
        ;
    }
}

/// A channel total is at most 255 per contributing buffer.
pub proof fn lemma_channel_total_bound(buffers: Seq<Seq<Pixel>>, i: int, c: int)
    ensures
        0 <= channel_total(buffers, i, c) <= 255 * buffers.len(),
    decreases buffers.len(),
{
    if buffers.len() > 0 {
        lemma_channel_total_bound(buffers.drop_last(), i, c);
    }
}

/// Taking a buffer out takes its contribution out of the total.
proof fn lemma_channel_total_remove(buffers: Seq<Seq<Pixel>>, j: int, i: int, c: int)
    requires
        0 <= j < buffers.len(),
    ensures
        channel_total(buffers, i, c) == channel_total(buffers.remove(j), i, c)
            + buffers[j][i][c],
    decreases buffers.len(),
{
    if j == buffers.len() - 1 {
        assert(buffers.remove(j) =~= buffers.drop_last());
    } else {
        lemma_channel_total_remove(buffers.drop_last(), j, i, c);
        assert(buffers.drop_last().remove(j) =~= buffers.remove(j).drop_last());
        assert(buffers.remove(j).last() == buffers.last());
    }
}

/// The order of the buffers does not matter to a total, and so not to the
/// blend: two sequences of the same buffers give the same sum.
pub proof fn lemma_channel_total_any_order(
    a: Seq<Seq<Pixel>>,
    b: Seq<Seq<Pixel>>,
    i: int,
    c: int,
)
    requires
        a.to_multiset() == b.to_multiset(),
    ensures
        channel_total(a, i, c) == channel_total(b, i, c),
    decreases a.len(),
{
    a.to_multiset_ensures();
    b.to_multiset_ensures();
    if a.len() > 0 {
        let x = a.last();
        assert(a[a.len() - 1] == x);
        assert(a.contains(x));
        assert(a.to_multiset().count(x) > 0);
        assert(b.to_multiset().count(x) > 0);
        assert(b.contains(x));
        let j = choose|j: int| 0 <= j < b.len() && b[j] == x;
        assert(a.remove(a.len() - 1) =~= a.drop_last());
        assert(a.drop_last().to_multiset() == b.remove(j).to_multiset());
        lemma_channel_total_any_order(a.drop_last(), b.remove(j), i, c);
        lemma_channel_total_remove(b, j, i, c);
    }
}

/// Brings three channel sums into range together.
pub fn balance(b: u128, g: u128, r: u128) -> (out: (u8, u8, u8))
    requires
        b <= u128::MAX / 255,
        g <= u128::MAX / 255,
        r <= u128::MAX / 255,
    ensures
        out.0 == balanced(b as int, peak(b as int, g as int, r as int)),
        out.1 == balanced(g as int, peak(b as int, g as int, r as int)),
        out.2 == balanced(r as int, peak(b as int, g as int, r as int)),
{
    let mut top: u128 = b;
    if g > top {
        top = g;
    }
    if r > top {
        top = r;
    }
    assert(top == peak(b as int, g as int, r as int));
    proof {
        lemma_balanced_in_range(b as int, top as int);
        lemma_balanced_in_range(g as int, top as int);
        lemma_balanced_in_range(r as int, top as int);
    }
    if top > 255 {
        ((b * 255 / top) as u8, (g * 255 / top) as u8, (r * 255 / top) as u8)
    } else {
        (b as u8, g as u8, r as u8)
    }
}

} // verus!
