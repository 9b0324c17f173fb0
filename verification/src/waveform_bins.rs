//! Even bins of a range of frames, and the extremes of samples.
//!
//! Samples are single-precision bit patterns. The order of the numbers they stand
//! for is decided on the patterns.

use vstd::arithmetic::power2::{lemma_pow2_unfold, pow2};
use vstd::prelude::*;

use crate::navigation::{
    bit_patterns_are_ordered_as_numbers, is_finite, key_of, order_key, units,
};

verus! {

// ----- bins ---------------------------------------------------------------

/// Where bin `i` of `count` even bins begins, and the bin before it ends.
pub open spec fn boundary(start: int, frames: int, count: int, i: int) -> int {
    start + frames * i / count
}

/// The number of bins that a range is shown in: never more than it has frames.
pub open spec fn bin_total(frames: int, target: int) -> int {
    if target < frames {
        target
    } else {
        frames
    }
}

/// The smallest number of frames that `count` bins need.
pub open spec fn frames_per_bin(frames: int, count: int) -> int {
    (frames + count - 1) / count
}

/// Whether a number is the binary logarithm of another, rounded down.
pub open spec fn is_floor_log2(value: int, log: int) -> bool {
    0 <= log && pow2(log as nat) <= value < pow2((log + 1) as nat)
}

/// The binary logarithm, rounded down.
pub fn floor_log2(value: u64) -> (r: usize)
    requires
        value > 0,
    ensures
        is_floor_log2(value as int, r as int),
        r < 64,
{
    let mut left: u64 = value;
    let mut log: usize = 0;
    proof {
        vstd::arithmetic::power2::lemma2_to64();
        vstd::arithmetic::power2::lemma2_to64_rest();
    }
    while left > 1
        invariant
            left > 0,
            log <= 63,
            left * pow2(log as nat) <= value < (left + 1) * pow2(log as nat),
            pow2(63) == 0x8000_0000_0000_0000,
        decreases left,
    {
        let half: u64 = left / 2;
        proof {
            lemma_pow2_unfold((log + 1) as nat);
            let p = pow2(log as nat) as int;
            let old_left = left as int;
            let h = half as int;
            assert(pow2((log + 1) as nat) == 2 * p);
            assert(h * (2 * p) <= old_left * p) by (nonlinear_arith)
                requires
                    2 * h <= old_left,
                    p >= 0,
            ;
            assert((old_left + 1) * p <= (h + 1) * (2 * p)) by (nonlinear_arith)
                requires
                    old_left + 1 <= 2 * (h + 1),
                    p >= 0,
            ;
            if log == 63 {
                assert(old_left * p >= 2 * p) by (nonlinear_arith)
                    requires
                        old_left >= 2,
                        p >= 0,
                ;
            }
        }
        left = half;
        log = log + 1;
    }
    proof {
        lemma_pow2_unfold((log + 1) as nat);
        assert(left == 1);
        let p = pow2(log as nat) as int;
        assert(1 * p == p && 2 * p == (1 + 1) * p) by (nonlinear_arith);
    }
    log
}

/// Bins cover their range without gap or overlap, and none is empty.
pub proof fn bins_tile_their_range(start: int, frames: int, count: int)
    requires
        0 < count <= frames,
    ensures
        boundary(start, frames, count, 0) == start,
        boundary(start, frames, count, count) == start + frames,
        forall|i: int|
            0 <= i < count ==> #[trigger] boundary(start, frames, count, i) < boundary(
                start,
                frames,
                count,
                i + 1,
            ),
{
    assert(frames * 0 / count == 0) by (nonlinear_arith)
        requires
            count > 0,
    ;
    assert(frames * count / count == frames) by (nonlinear_arith)
        requires
            count > 0,
    ;
    assert forall|i: int| 0 <= i < count implies #[trigger] boundary(start, frames, count, i)
        < boundary(start, frames, count, i + 1) by {
        bins_are_never_empty(frames, count, i);
    }
}

proof fn bins_are_never_empty(frames: int, count: int, i: int)
    by (nonlinear_arith)
    requires
        0 < count <= frames,
        0 <= i,
    ensures
        frames * i / count < frames * (i + 1) / count,
{
    let q = frames * i / count;
    assert(q * count <= frames * i);
    assert((q + 1) * count <= frames * i + frames);
    assert(frames * (i + 1) == frames * i + frames);
    assert((q + 1) * count <= frames * (i + 1));
    assert(frames * (i + 1) / count >= q + 1);
}

/// No bin reaches beyond its range.
pub proof fn bins_stay_within(start: int, frames: int, count: int, i: int)
    requires
        0 < count,
        0 <= frames,
        0 <= i <= count,
    ensures
        start <= boundary(start, frames, count, i) <= start + frames,
{
    assert(0 <= frames * i / count <= frames) by (nonlinear_arith)
        requires
            0 < count,
            0 <= frames,
            0 <= i <= count,
    {
        assert(0 <= frames * i);
        assert(frames * i <= frames * count);
        assert(frames * count / count == frames);
    }
}

/// Where bin `i` begins.
pub fn bin_boundary(start: u64, frames: u64, count: u64, i: u64) -> (r: u64)
    requires
        0 < count,
        i <= count,
        start + frames <= u64::MAX,
    ensures
        r == boundary(start as int, frames as int, count as int, i as int),
{
    proof {
        bins_stay_within(start as int, frames as int, count as int, i as int);
        assert(frames as int * i as int <= 0xffff_ffff_ffff_ffff * 0xffff_ffff_ffff_ffff)
            by (nonlinear_arith)
            requires
                0 <= frames <= 0xffff_ffff_ffff_ffff,
                0 <= i <= 0xffff_ffff_ffff_ffff,
        ;
        assert(0 <= frames as int * i as int) by (nonlinear_arith)
            requires
                0 <= frames,
                0 <= i,
        ;
    }
    let offset: u128 = frames as u128 * i as u128 / count as u128;
    start + offset as u64
}

proof fn bins_have_frames(frames: int, count: int)
    by (nonlinear_arith)
    requires
        1 <= count <= frames,
    ensures
        1 <= (frames + count - 1) / count <= frames,
{
    let q = (frames + count - 1) / count;
    assert(q * count <= frames + count - 1);
    assert(frames + count - 1 < (q + 1) * count);
    assert(q >= 1);
    assert((frames - 1) * (count - 1) >= 0);
    assert(frames + count - 1 <= frames * count);
    assert(q <= frames);
}

/// The smallest number of frames that `count` bins need.
pub fn bin_width(frames: u64, count: u64) -> (r: u64)
    requires
        1 <= count <= frames,
    ensures
        r == frames_per_bin(frames as int, count as int),
        1 <= r <= frames,
{
    proof {
        bins_have_frames(frames as int, count as int);
    }
    ((frames as u128 + count as u128 - 1) / count as u128) as u64
}

// ----- extremes -----------------------------------------------------------

/// The smallest and the largest sample among some frames of a channel.
#[derive(Clone, Copy, Debug, PartialEq, Eq, Structural)]
pub struct ChannelExtremes {
    pub min_bits: u32,
    pub max_bits: u32,
    pub frames: usize,
}

/// The sample of a channel in a frame of interleaved samples.
pub open spec fn sample_at(pcm: Seq<u32>, channels: int, frame: int, channel: int) -> u32 {
    pcm[frame * channels + channel]
}

/// Whether these are the extremes of a channel from one frame to another: every
/// sample lies between them and they occur.
pub open spec fn are_extremes(
    pcm: Seq<u32>,
    channels: int,
    channel: int,
    start: int,
    end: int,
    extremes: ChannelExtremes,
) -> bool {
    &&& extremes.frames == end - start
    &&& forall|frame: int|
        start <= frame < end ==> order_key(extremes.min_bits) <= order_key(
            #[trigger] sample_at(pcm, channels, frame, channel),
        ) <= order_key(extremes.max_bits)
    &&& start < end ==> exists|frame: int|
        start <= frame < end && #[trigger] sample_at(pcm, channels, frame, channel)
            == extremes.min_bits
    &&& start < end ==> exists|frame: int|
        start <= frame < end && #[trigger] sample_at(pcm, channels, frame, channel)
            == extremes.max_bits
}

/// The extremes of two groups of frames together.
pub open spec fn joined(left: ChannelExtremes, right: ChannelExtremes) -> ChannelExtremes {
    if right.frames == 0 {
        left
    } else if left.frames == 0 {
        right
    } else {
        ChannelExtremes {
            min_bits: if order_key(right.min_bits) < order_key(left.min_bits) {
                right.min_bits
            } else {
                left.min_bits
            },
            max_bits: if order_key(right.max_bits) > order_key(left.max_bits) {
                right.max_bits
            } else {
                left.max_bits
            },
            frames: (left.frames + right.frames) as usize,
        }
    }
}

/// The extremes of no frame.
pub fn no_extremes() -> (r: ChannelExtremes)
    ensures
        r == (ChannelExtremes { min_bits: 0, max_bits: 0, frames: 0 }),
{
    ChannelExtremes { min_bits: 0, max_bits: 0, frames: 0 }
}

/// The extremes of two groups of frames together.
pub fn join_extremes(left: ChannelExtremes, right: ChannelExtremes) -> (r: ChannelExtremes)
    requires
        left.frames + right.frames <= usize::MAX,
    ensures
        r == joined(left, right),
{
    if right.frames == 0 {
        left
    } else if left.frames == 0 {
        right
    } else {
        ChannelExtremes {
            min_bits: if key_of(right.min_bits) < key_of(left.min_bits) {
                right.min_bits
            } else {
                left.min_bits
            },
            max_bits: if key_of(right.max_bits) > key_of(left.max_bits) {
                right.max_bits
            } else {
                left.max_bits
            },
            frames: left.frames + right.frames,
        }
    }
}

/// The extremes of adjacent groups of frames are those of both together.
pub proof fn extremes_join(
    pcm: Seq<u32>,
    channels: int,
    channel: int,
    start: int,
    middle: int,
    end: int,
    left: ChannelExtremes,
    right: ChannelExtremes,
)
    requires
        start <= middle <= end,
        left.frames + right.frames <= usize::MAX,
        are_extremes(pcm, channels, channel, start, middle, left),
        are_extremes(pcm, channels, channel, middle, end, right),
    ensures
        are_extremes(pcm, channels, channel, start, end, joined(left, right)),
{
    let both = joined(left, right);
    if start < middle && middle < end {
        assert forall|frame: int| start <= frame < end implies order_key(both.min_bits)
            <= order_key(#[trigger] sample_at(pcm, channels, frame, channel)) <= order_key(
            both.max_bits,
        ) by {
            if frame < middle {
                assert(order_key(left.min_bits) <= order_key(
                    sample_at(pcm, channels, frame, channel),
                ) <= order_key(left.max_bits));
            } else {
                assert(order_key(right.min_bits) <= order_key(
                    sample_at(pcm, channels, frame, channel),
                ) <= order_key(right.max_bits));
            }
        }
    }
}

/// A frame that is outside a range has no influence on its extremes: samples that
/// agree within the range have the same extremes.
pub proof fn frames_outside_have_no_influence(
    left: Seq<u32>,
    right: Seq<u32>,
    channels: int,
    channel: int,
    start: int,
    end: int,
    extremes: ChannelExtremes,
)
    requires
        are_extremes(left, channels, channel, start, end, extremes),
        forall|frame: int|
            start <= frame < end ==> #[trigger] sample_at(left, channels, frame, channel)
                == sample_at(right, channels, frame, channel),
    ensures
        are_extremes(right, channels, channel, start, end, extremes),
{
    if start < end {
        let low = choose|frame: int|
            start <= frame < end && #[trigger] sample_at(left, channels, frame, channel)
                == extremes.min_bits;
        let high = choose|frame: int|
            start <= frame < end && #[trigger] sample_at(left, channels, frame, channel)
                == extremes.max_bits;
        assert(sample_at(right, channels, low, channel) == extremes.min_bits);
        assert(sample_at(right, channels, high, channel) == extremes.max_bits);
        assert forall|frame: int| start <= frame < end implies order_key(extremes.min_bits)
            <= order_key(#[trigger] sample_at(right, channels, frame, channel)) <= order_key(
            extremes.max_bits,
        ) by {
            assert(sample_at(left, channels, frame, channel) == sample_at(
                right,
                channels,
                frame,
                channel,
            ));
        }
    }
}

/// Whether no number among the samples of a channel lies outside of two bounds, and both
/// occur, from one frame to another of interleaved samples.
pub open spec fn bounds_numbers(
    pcm: Seq<u32>,
    channels: int,
    channel: int,
    start: int,
    end: int,
    min_bits: u32,
    max_bits: u32,
) -> bool {
    &&& forall|frame: int|
        start <= frame < end ==> units(min_bits) <= units(
            #[trigger] pcm[frame * channels + channel],
        ) <= units(max_bits)
    &&& exists|frame: int|
        start <= frame < end && #[trigger] pcm[frame * channels + channel] == min_bits
    &&& exists|frame: int|
        start <= frame < end && #[trigger] pcm[frame * channels + channel] == max_bits
}

/// The extremes of some frames are the least and the greatest number among their
/// samples, and nothing else is.
pub proof fn extremes_bound_numbers(
    pcm: Seq<u32>,
    channels: int,
    channel: int,
    start: int,
    end: int,
    extremes: ChannelExtremes,
)
    requires
        start < end,
        forall|frame: int|
            start <= frame < end ==> is_finite(#[trigger] pcm[frame * channels + channel]),
    ensures
        are_extremes(pcm, channels, channel, start, end, extremes) <==> extremes.frames == end
            - start && bounds_numbers(
            pcm,
            channels,
            channel,
            start,
            end,
            extremes.min_bits,
            extremes.max_bits,
        ),
{
    let low = extremes.min_bits;
    let high = extremes.max_bits;
    if exists|frame: int| start <= frame < end && #[trigger] pcm[frame * channels + channel] == low {
        let at = choose|frame: int|
            start <= frame < end && #[trigger] pcm[frame * channels + channel] == low;
        assert(sample_at(pcm, channels, at, channel) == low);
    }
    if exists|frame: int|
        start <= frame < end && #[trigger] pcm[frame * channels + channel] == high {
        let at = choose|frame: int|
            start <= frame < end && #[trigger] pcm[frame * channels + channel] == high;
        assert(sample_at(pcm, channels, at, channel) == high);
    }
    if exists|frame: int|
        start <= frame < end && #[trigger] sample_at(pcm, channels, frame, channel) == low {
        let at = choose|frame: int|
            start <= frame < end && #[trigger] sample_at(pcm, channels, frame, channel) == low;
        assert(pcm[at * channels + channel] == low);
    }
    if exists|frame: int|
        start <= frame < end && #[trigger] sample_at(pcm, channels, frame, channel) == high {
        let at = choose|frame: int|
            start <= frame < end && #[trigger] sample_at(pcm, channels, frame, channel) == high;
        assert(pcm[at * channels + channel] == high);
    }
    assert forall|frame: int| start <= frame < end && is_finite(low) && is_finite(high) implies (
    order_key(low) <= order_key(#[trigger] sample_at(pcm, channels, frame, channel)) <= order_key(
        high,
    ) <==> units(low) <= units(pcm[frame * channels + channel]) <= units(high)) by {
        let sample = pcm[frame * channels + channel];
        bit_patterns_are_ordered_as_numbers(sample, low);
        bit_patterns_are_ordered_as_numbers(high, sample);
    }
    if bounds_numbers(pcm, channels, channel, start, end, low, high) && extremes.frames == end
        - start {
        assert forall|frame: int| start <= frame < end implies order_key(low) <= order_key(
            #[trigger] sample_at(pcm, channels, frame, channel),
        ) <= order_key(high) by {
            assert(units(low) <= units(pcm[frame * channels + channel]) <= units(high));
        }
    }
    if are_extremes(pcm, channels, channel, start, end, extremes) {
        assert forall|frame: int| start <= frame < end implies units(low) <= units(
            #[trigger] pcm[frame * channels + channel],
        ) <= units(high) by {
            assert(order_key(low) <= order_key(sample_at(pcm, channels, frame, channel))
                <= order_key(high));
        }
    }
}

/// Even bins differ by one frame at most.
pub proof fn bins_are_even(start: int, frames: int, count: int, i: int, j: int)
    requires
        0 < count <= frames,
        0 <= i < count,
        0 <= j < count,
    ensures
        boundary(start, frames, count, i + 1) - boundary(start, frames, count, i) <= boundary(
            start,
            frames,
            count,
            j + 1,
        ) - boundary(start, frames, count, j) + 1,
{
    lemma_bin_width(frames, count, i);
    lemma_bin_width(frames, count, j);
}

proof fn lemma_bin_width(frames: int, count: int, i: int)
    requires
        0 < count,
        0 <= frames,
        0 <= i,
    ensures
        frames / count <= frames * (i + 1) / count - frames * i / count <= frames / count + 1,
{
    vstd::arithmetic::div_mod::lemma_fundamental_div_mod(frames, count);
    vstd::arithmetic::div_mod::lemma_fundamental_div_mod(frames * i, count);
    vstd::arithmetic::div_mod::lemma_fundamental_div_mod(frames * (i + 1), count);
    let a = frames * i / count;
    let b = frames * (i + 1) / count;
    let q = frames / count;
    assert(frames * (i + 1) == frames * i + frames) by (nonlinear_arith);
    assert(count * a <= frames * i < count * a + count);
    assert(count * b <= frames * i + frames < count * b + count);
    assert(count * q <= frames < count * q + count);
    assert(b - a >= q && b - a <= q + 1) by (nonlinear_arith)
        requires
            count > 0,
            count * a <= frames * i < count * a + count,
            count * b <= frames * i + frames < count * b + count,
            count * q <= frames < count * q + count,
    ;
}

/// Where a sample of interleaved samples stands.
pub proof fn row_index(row: int, column: int, columns: int, rows: int)
    by (nonlinear_arith)
    requires
        0 <= column < columns,
        0 <= row < rows,
    ensures
        0 <= row * columns + column < rows * columns,
        row * columns + columns == (row + 1) * columns,
        (row + 1) * columns <= rows * columns,
{
}

} // verus!
