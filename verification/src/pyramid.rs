//! A multiresolution envelope of a waveform, exact at every zoom.
//!
//! Interleaved samples are kept once, as single-precision bit patterns. Above them
//! stand levels of extremes, each over blocks twice as long as the level below. A
//! query takes whole blocks where they fit and samples at the edges, so that
//! nothing outside the range asked for is ever seen.

use std::sync::Arc;

use vstd::arithmetic::power2::{lemma_pow2_pos, lemma_pow2_unfold, pow2};
use vstd::prelude::*;
use vstd::string::*;

use crate::navigation::{exponents_tell_numbers, finite, is_finite};
use crate::text::{append_decimal, decimal, owned};
use crate::waveform_bins::{
    are_extremes, bin_boundary, bin_total, bin_width, bins_are_even, bins_stay_within,
    bins_tile_their_range, boundary, bounds_numbers, extremes_bound_numbers, extremes_join, floor_log2, frames_per_bin, is_floor_log2, join_extremes, no_extremes,
    row_index, sample_at, ChannelExtremes,
};

verus! {

/// Frames of a block of the first level.
pub const BASE_BLOCK_FRAMES: usize = 256;

/// Bytes of a sample.
pub const SAMPLE_BYTES: usize = 4;

/// Bytes of what a level keeps for a block of a channel: two extremes, the sum of
/// the squares and the number of frames.
pub const SUMMARY_BYTES: usize = 24;

/// The extremes of every channel over a range of frames.
#[derive(Debug, PartialEq, Eq)]
pub struct WaveformBin {
    pub start_frame: usize,
    pub end_frame: usize,
    pub channels: Vec<ChannelExtremes>,
}

/// What is shown of a range.
#[derive(Debug, PartialEq, Eq)]
pub struct WaveformQuery {
    pub start_frame: usize,
    pub end_frame: usize,
    /// The binary logarithm of the frames of a bin.
    pub preferred_level: usize,
    pub bins: Vec<WaveformBin>,
}

/// How much is kept.
#[derive(Clone, Copy, Debug, PartialEq, Eq, Structural)]
pub struct WaveformStorage {
    pub pcm_samples: usize,
    pub summary_accumulators: u128,
    pub summary_levels: usize,
    pub estimated_bytes: u128,
}

/// Why samples make no pyramid.
#[derive(Clone, Copy, Debug, PartialEq, Eq, Structural)]
pub enum PyramidBuildError {
    ZeroChannels,
    PartialFrame { samples: usize, channels: usize },
    NonFinitePcm { sample_index: usize },
}

impl PyramidBuildError {
    /// The error in words.
    pub open spec fn words(self) -> Seq<char> {
        match self {
            PyramidBuildError::ZeroChannels => "waveform PCM has no channels"@,
            PyramidBuildError::PartialFrame { samples, channels } => {
                "waveform PCM has "@ + decimal(samples as nat) + " samples, not complete "@
                    + decimal(channels as nat) + "-channel frames"@
            },
            PyramidBuildError::NonFinitePcm { sample_index } => {
                "waveform PCM sample "@ + decimal(sample_index as nat) + " is not finite"@
            },
        }
    }

    /// The error in words.
    pub fn message(&self) -> (r: String)
        ensures
            r@ == self.words(),
    {
        match *self {
            PyramidBuildError::ZeroChannels => owned("waveform PCM has no channels"),
            PyramidBuildError::PartialFrame { samples, channels } => {
                let mut text = owned("waveform PCM has ");
                append_decimal(&mut text, samples as u64);
                text.append(" samples, not complete ");
                append_decimal(&mut text, channels as u64);
                text.append("-channel frames");
                text
            },
            PyramidBuildError::NonFinitePcm { sample_index } => {
                let mut text = owned("waveform PCM sample ");
                append_decimal(&mut text, sample_index as u64);
                text.append(" is not finite");
                text
            },
        }
    }
}

/// One block of one level.
#[derive(Clone, Copy, Debug, PartialEq, Eq, Structural)]
pub struct SummaryBlock {
    pub level: usize,
    pub index: usize,
}

/// A part of a range that is taken at once: from a block, or sample by sample.
#[derive(Clone, Copy, Debug, PartialEq, Eq, Structural)]
pub struct WaveformPiece {
    pub start: usize,
    pub end: usize,
    pub block: Option<SummaryBlock>,
}

#[derive(Debug)]
struct Level {
    block: u128,
    values: Vec<ChannelExtremes>,
}

/// The pyramid.
#[derive(Debug)]
pub struct WaveformPyramid {
    channel_count: usize,
    frame_count: usize,
    pcm: Arc<Vec<u32>>,
    levels: Vec<Level>,
    sanitized: usize,
}

// ----- levels -------------------------------------------------------------

/// The frames of a block of a level.
pub open spec fn block_frames(level: int) -> int {
    BASE_BLOCK_FRAMES * pow2(level as nat) as int
}

/// The number of blocks over some frames.
pub open spec fn block_count(frames: int, block: int) -> int {
    (frames + block - 1) / block
}

/// Where a block ends: the last one with the samples.
pub open spec fn block_end(index: int, block: int, frames: int) -> int {
    if (index + 1) * block < frames {
        (index + 1) * block
    } else {
        frames
    }
}

/// The number of levels over some blocks: blocks are paired until one is left.
pub open spec fn level_total(blocks: int) -> int
    decreases blocks,
{
    if blocks <= 1 {
        1
    } else {
        1 + level_total((blocks + 1) / 2)
    }
}

/// The extremes that a level keeps for a block of a channel.
spec fn value_at(values: Seq<ChannelExtremes>, channels: int, block: int, channel: int) ->
    ChannelExtremes {
    values[block * channels + channel]
}

/// Whether a level keeps the extremes of its blocks.
spec fn keeps_extremes(
    pcm: Seq<u32>,
    channels: int,
    frames: int,
    block: int,
    values: Seq<ChannelExtremes>,
    count: int,
) -> bool {
    &&& values.len() == count * channels
    &&& forall|index: int, channel: int|
        0 <= index < count && 0 <= channel < channels ==> are_extremes(
            pcm,
            channels,
            channel,
            index * block,
            block_end(index, block, frames),
            #[trigger] value_at(values, channels, index, channel),
        )
}

/// A level of blocks.
spec fn is_level(pcm: Seq<u32>, channels: int, frames: int, level: Level, at: int) -> bool {
    &&& level.block == block_frames(at)
    &&& keeps_extremes(
        pcm,
        channels,
        frames,
        level.block as int,
        level.values@,
        block_count(frames, level.block as int),
    )
}

/// Samples without anything that is no finite number.
pub open spec fn all_finite(pcm: Seq<u32>) -> bool {
    forall|i: int| 0 <= i < pcm.len() ==> is_finite(#[trigger] pcm[i])
}

/// A sample, or silence if it is no finite number.
pub open spec fn cleaned(bits: u32) -> u32 {
    if is_finite(bits) {
        bits
    } else {
        0
    }
}

/// The number of samples among the first `i` that are no finite numbers.
pub open spec fn unclean(samples: Seq<u32>, i: int) -> nat
    decreases i,
{
    if i <= 0 {
        0
    } else {
        unclean(samples, i - 1) + if is_finite(samples[i - 1]) {
            0nat
        } else {
            1nat
        }
    }
}

proof fn unclean_is_bounded(samples: Seq<u32>, i: int)
    requires
        0 <= i,
    ensures
        unclean(samples, i) <= i,
    decreases i,
{
    if i > 0 {
        unclean_is_bounded(samples, i - 1);
    }
}

proof fn levels_are_few(blocks: int)
    ensures
        level_total(blocks) <= 1 || level_total(blocks) <= blocks,
    decreases blocks,
{
    if blocks > 1 {
        levels_are_few((blocks + 1) / 2);
    }
}

// ----- arithmetic ---------------------------------------------------------

proof fn blocks_reach_the_end(frames: int, block: int)
    by (nonlinear_arith)
    requires
        0 < block,
        0 < frames,
    ensures
        0 < (frames + block - 1) / block,
        ((frames + block - 1) / block - 1) * block < frames,
        frames <= (frames + block - 1) / block * block,
{
    let count = (frames + block - 1) / block;
    assert(count * block <= frames + block - 1);
    assert(frames + block - 1 < (count + 1) * block);
    assert((count + 1) * block == count * block + block);
    assert((count - 1) * block == count * block - block);
}

proof fn blocks_pair(frames: int, block: int)
    requires
        0 < block,
        0 < frames,
    ensures
        block_count(frames, 2 * block) == (block_count(frames, block) + 1) / 2,
{
    let count = block_count(frames, block);
    blocks_reach_the_end(frames, block);
    let half = (count + 1) / 2;
    assert((half - 1) * (2 * block) < frames <= half * (2 * block)) by (nonlinear_arith)
        requires
            (count - 1) * block < frames <= count * block,
            half * 2 >= count,
            (half - 1) * 2 <= count - 1,
            0 < block,
    {
        assert((half - 1) * 2 * block <= (count - 1) * block);
        assert(count * block <= half * 2 * block);
    }
    assert((frames + 2 * block - 1) / (2 * block) == half) by (nonlinear_arith)
        requires
            (half - 1) * (2 * block) < frames <= half * (2 * block),
            0 < block,
    {
        let b = 2 * block;
        assert(half * b <= frames + b - 1);
        assert(frames + b - 1 < (half + 1) * b);
    }
}

/// A block before the end begins before it.
proof fn blocks_begin_inside(frames: int, block: int, index: int)
    requires
        0 < block,
        0 < frames,
        0 <= index < block_count(frames, block),
    ensures
        index * block < frames,
        index * block < block_end(index, block, frames),
        (index + 1) * block == index * block + block,
{
    blocks_reach_the_end(frames, block);
    let count = block_count(frames, block);
    assert(index * block <= (count - 1) * block) by (nonlinear_arith)
        requires
            index <= count - 1,
            0 < block,
    ;
    assert((index + 1) * block == index * block + block) by (nonlinear_arith);
}

proof fn block_of_frame(frames: int, block: int, cursor: int)
    requires
        0 < block,
        0 <= cursor < frames,
        cursor % block == 0,
    ensures
        cursor / block * block == cursor,
        0 <= cursor / block < block_count(frames, block),
{
    let index = cursor / block;
    assert(index * block == cursor) by (nonlinear_arith)
        requires
            cursor % block == 0,
            index == cursor / block,
            0 < block,
    ;
    blocks_reach_the_end(frames, block);
    let count = block_count(frames, block);
    assert(index < count) by (nonlinear_arith)
        requires
            index * block < frames,
            frames <= count * block,
            0 < block,
    ;
    assert(0 <= index) by (nonlinear_arith)
        requires
            index == cursor / block,
            0 <= cursor,
            0 < block,
    ;
}

// ----- building -----------------------------------------------------------

/// The extremes of every channel from one frame to another, sample by sample.
pub(crate) fn aggregate_samples(pcm: &Vec<u32>, channels: usize, start: usize, end: usize) -> (r: Vec<
    ChannelExtremes,
>)
    requires
        start <= end,
        end * channels <= pcm.len(),
    ensures
        r@.len() == channels,
        forall|channel: int|
            0 <= channel < channels ==> are_extremes(
                pcm@,
                channels as int,
                channel,
                start as int,
                end as int,
                #[trigger] r@[channel],
            ),
{
    let mut result: Vec<ChannelExtremes> = Vec::new();
    let mut c: usize = 0;
    while c < channels
        invariant
            c <= channels,
            result@.len() == c,
            start <= end,
            forall|channel: int|
                0 <= channel < c ==> are_extremes(
                    pcm@,
                    channels as int,
                    channel,
                    start as int,
                    end as int,
                    #[trigger] result@[channel],
                ),
            end * channels <= pcm.len(),
        decreases channels - c,
    {
        let mut extremes = no_extremes();
        let mut frame: usize = start;
        while frame < end
            invariant
                start <= frame <= end,
                c < channels,
                end * channels <= pcm.len(),
                are_extremes(
                    pcm@,
                    channels as int,
                    c as int,
                    start as int,
                    frame as int,
                    extremes,
                ),
            decreases end - frame,
        {
            proof {
                row_index(frame as int, c as int, channels as int, end as int);
            }
            assert(frame * channels <= frame * channels + c) by (nonlinear_arith)
                requires
                    0 <= c,
            ;
            assert(0 <= frame * channels) by (nonlinear_arith)
                requires
                    0 <= frame,
                    0 <= channels,
            ;
            let sample: u32 = pcm[frame * channels + c];
            let one = ChannelExtremes { min_bits: sample, max_bits: sample, frames: 1 };
            assert(sample_at(pcm@, channels as int, frame as int, c as int) == sample);
            assert(are_extremes(
                pcm@,
                channels as int,
                c as int,
                frame as int,
                frame + 1,
                one,
            ));
            proof {
                extremes_join(
                    pcm@,
                    channels as int,
                    c as int,
                    start as int,
                    frame as int,
                    frame + 1,
                    extremes,
                    one,
                );
            }
            extremes = join_extremes(extremes, one);
            frame = frame + 1;
        }
        result.push(extremes);
        c = c + 1;
    }
    result
}

proof fn rows_stay(
    before: Seq<ChannelExtremes>,
    row: Seq<ChannelExtremes>,
    channels: int,
    rows: int,
)
    requires
        0 <= rows,
        0 <= channels,
        before.len() == rows * channels,
        row.len() == channels,
    ensures
        (before + row).len() == (rows + 1) * channels,
        forall|index: int, channel: int|
            0 <= index < rows && 0 <= channel < channels ==> #[trigger] value_at(
                before + row,
                channels,
                index,
                channel,
            ) == value_at(before, channels, index, channel),
        forall|channel: int|
            0 <= channel < channels ==> #[trigger] value_at(before + row, channels, rows, channel)
                == row[channel],
{
    assert((rows + 1) * channels == rows * channels + channels) by (nonlinear_arith);
    assert forall|index: int, channel: int| 0 <= index < rows && 0 <= channel < channels implies
        #[trigger] value_at(before + row, channels, index, channel) == value_at(
        before,
        channels,
        index,
        channel,
    ) by {
        row_index(index, channel, channels, rows);
    }
}

fn build_base(pcm: &Vec<u32>, channels: usize, frames: usize) -> (r: Vec<ChannelExtremes>)
    requires
        0 < frames,
        0 < channels,
        pcm@.len() == frames * channels,
    ensures
        keeps_extremes(
            pcm@,
            channels as int,
            frames as int,
            BASE_BLOCK_FRAMES as int,
            r@,
            block_count(frames as int, BASE_BLOCK_FRAMES as int),
        ),
{
    let mut values: Vec<ChannelExtremes> = Vec::new();
    let mut start: usize = 0;
    let ghost mut index: int = 0;
    let ghost count = block_count(frames as int, BASE_BLOCK_FRAMES as int);
    proof {
        blocks_reach_the_end(frames as int, BASE_BLOCK_FRAMES as int);
        assert(0 * channels == 0) by (nonlinear_arith);
    }
    while start < frames
        invariant
            0 < frames,
            0 < channels,
            pcm@.len() == frames * channels,
            count == block_count(frames as int, BASE_BLOCK_FRAMES as int),
            0 <= index <= count,
            start <= frames,
            start < frames ==> start == index * BASE_BLOCK_FRAMES,
            start == frames ==> index == count,
            keeps_extremes(
                pcm@,
                channels as int,
                frames as int,
                BASE_BLOCK_FRAMES as int,
                values@,
                index,
            ),
        decreases frames - start,
    {
        let end: usize = if frames - start > BASE_BLOCK_FRAMES {
            start + BASE_BLOCK_FRAMES
        } else {
            frames
        };
        proof {
            assert(end * channels <= frames * channels) by (nonlinear_arith)
                requires
                    end <= frames,
                    0 <= channels,
            ;
        }
        assert(pcm@.len() == pcm.len());
        let mut row = aggregate_samples(pcm, channels, start, end);
        let ghost before = values@;
        let ghost line = row@;
        values.append(&mut row);
        proof {
            rows_stay(before, line, channels as int, index);
            blocks_reach_the_end(frames as int, BASE_BLOCK_FRAMES as int);
            assert(values@ == before + line);
            assert(end == block_end(index, BASE_BLOCK_FRAMES as int, frames as int));
            assert forall|i: int, channel: int|
                0 <= i < index + 1 && 0 <= channel < channels implies are_extremes(
                pcm@,
                channels as int,
                channel,
                i * BASE_BLOCK_FRAMES,
                block_end(i, BASE_BLOCK_FRAMES as int, frames as int),
                #[trigger] value_at(values@, channels as int, i, channel),
            ) by {
                if i < index {
                    assert(value_at(values@, channels as int, i, channel) == value_at(
                        before,
                        channels as int,
                        i,
                        channel,
                    ));
                } else {
                    assert(value_at(values@, channels as int, i, channel) == line[channel]);
                }
            }
            index = index + 1;
        }
        start = end;
    }
    values
}

fn build_next(
    Ghost(pcm): Ghost<Seq<u32>>,
    channels: usize,
    frames: usize,
    block: u128,
    values: &Vec<ChannelExtremes>,
) -> (r: Vec<ChannelExtremes>)
    requires
        0 < frames,
        0 < channels,
        0 < block < frames,
        pcm.len() == frames * channels,
        keeps_extremes(
            pcm,
            channels as int,
            frames as int,
            block as int,
            values@,
            block_count(frames as int, block as int),
        ),
    ensures
        keeps_extremes(
            pcm,
            channels as int,
            frames as int,
            2 * block,
            r@,
            block_count(frames as int, 2 * block),
        ),
{
    let ghost count = block_count(frames as int, block as int);
    let ghost half = block_count(frames as int, 2 * block);
    proof {
        blocks_pair(frames as int, block as int);
        blocks_reach_the_end(frames as int, block as int);
        assert(0 * channels == 0) by (nonlinear_arith);
        assert(count * channels > 0) by (nonlinear_arith)
            requires
                count > 0,
                channels > 0,
        ;
    }
    let mut out: Vec<ChannelExtremes> = Vec::new();
    let mut at: usize = 0;
    let ghost mut index: int = 0;
    while at < values.len()
        invariant
            0 < frames,
            0 < channels,
            0 < block < frames,
            pcm.len() == frames * channels,
            count == block_count(frames as int, block as int),
            half == block_count(frames as int, 2 * block),
            half == (count + 1) / 2,
            keeps_extremes(
                pcm,
                channels as int,
                frames as int,
                block as int,
                values@,
                count,
            ),
            0 <= index <= half,
            at <= values@.len(),
            at < values@.len() ==> at == 2 * index * channels && 2 * index < count,
            at == values@.len() ==> index == half,
            keeps_extremes(pcm, channels as int, frames as int, 2 * block, out@, index),
        decreases values.len() - at,
    {
        let mut row: Vec<ChannelExtremes> = Vec::new();
        let ghost first = 2 * index;
        let mut c: usize = 0;
        proof {
            row_index(first, 0, channels as int, count);
            blocks_begin_inside(frames as int, block as int, first);
            assert(first * block == index * (2 * block)) by (nonlinear_arith)
                requires
                    first == 2 * index,
            ;
            assert((index + 1) * (2 * block) == (first + 2) * block) by (nonlinear_arith)
                requires
                    first == 2 * index,
            ;
            assert((first + 2) * block == (first + 1) * block + block) by (nonlinear_arith);
        }
        let left: usize = values.len() - at;
        let paired = left > channels;
        proof {
            assert(values@.len() - at == (count - first) * channels) by (nonlinear_arith)
                requires
                    values@.len() == count * channels,
                    at == first * channels,
            ;
            if first + 1 < count {
                assert((count - first) * channels >= 2 * channels) by (nonlinear_arith)
                    requires
                        count - first >= 2,
                        channels > 0,
                ;
            } else {
                assert(count - first == 1);
                assert((count - first) * channels == channels) by (nonlinear_arith)
                    requires
                        count - first == 1,
                ;
            }
            assert(paired == (first + 1 < count));
        }
        while c < channels
            invariant
                0 < frames,
                0 < channels,
                0 < block < frames,
                0 <= index,
                first == 2 * index,
                first < count,
                first * block == index * (2 * block),
                (index + 1) * (2 * block) == (first + 2) * block,
                (first + 2) * block == (first + 1) * block + block,
                count == block_count(frames as int, block as int),
                paired == (first + 1 < count),
                keeps_extremes(
                    pcm,
                    channels as int,
                    frames as int,
                    block as int,
                    values@,
                    count,
                ),
                at == first * channels,
                c <= channels,
                row@.len() == c,
                forall|channel: int|
                    0 <= channel < c ==> are_extremes(
                        pcm,
                        channels as int,
                        channel,
                        index * (2 * block),
                        block_end(index, 2 * block, frames as int),
                        #[trigger] row@[channel],
                    ),
            decreases channels - c,
        {
            proof {
                row_index(first, c as int, channels as int, count);
                blocks_reach_the_end(frames as int, block as int);
                assert(values@.len() == values.len());
            }
            let one = values[at + c];
            assert(one == value_at(values@, channels as int, first, c as int));
            if paired {
                proof {
                    row_index(first + 1, c as int, channels as int, count);
                    blocks_begin_inside(frames as int, block as int, first + 1);
                    assert(at + channels == (first + 1) * channels) by (nonlinear_arith)
                        requires
                            at == first * channels,
                    ;
                    assert(values@.len() == values.len());
                }
                let other = values[at + channels + c];
                assert(other == value_at(values@, channels as int, first + 1, c as int));
                proof {
                    assert(block_end(first, block as int, frames as int) == (first + 1) * block);
                    extremes_join(
                        pcm,
                        channels as int,
                        c as int,
                        first * block,
                        (first + 1) * block,
                        block_end(first + 1, block as int, frames as int),
                        one,
                        other,
                    );
                    assert(block_end(index, 2 * block, frames as int) == block_end(
                        first + 1,
                        block as int,
                        frames as int,
                    ));
                }
                row.push(join_extremes(one, other));
            } else {
                proof {
                    assert((first + 1) * block >= frames) by (nonlinear_arith)
                        requires
                            frames <= count * block,
                            count == first + 1,
                    ;
                    assert(block_end(first, block as int, frames as int) == frames);
                    assert(block_end(index, 2 * block, frames as int) == frames);
                }
                row.push(one);
            }
            c = c + 1;
        }
        let ghost before = out@;
        let ghost line = row@;
        out.append(&mut row);
        proof {
            rows_stay(before, line, channels as int, index);
            assert(out@ == before + line);
            assert forall|i: int, channel: int|
                0 <= i < index + 1 && 0 <= channel < channels implies are_extremes(
                pcm,
                channels as int,
                channel,
                i * (2 * block),
                block_end(i, 2 * block, frames as int),
                #[trigger] value_at(out@, channels as int, i, channel),
            ) by {
                if i < index {
                    assert(value_at(out@, channels as int, i, channel) == value_at(
                        before,
                        channels as int,
                        i,
                        channel,
                    ));
                } else {
                    assert(value_at(out@, channels as int, i, channel) == line[channel]);
                }
            }
            index = index + 1;
        }
        let step: usize = if left - channels > channels {
            2 * channels
        } else {
            left
        };
        proof {
            if first + 2 < count {
                assert((count - first) * channels >= 3 * channels) by (nonlinear_arith)
                    requires
                        count - first >= 3,
                        channels > 0,
                ;
                assert(at + 2 * channels == 2 * index * channels) by (nonlinear_arith)
                    requires
                        at == first * channels,
                        2 * index == first + 2,
                ;
                assert(2 * index * channels < count * channels) by (nonlinear_arith)
                    requires
                        2 * index < count,
                        channels > 0,
                ;
            } else {
                assert((count - first) * channels <= 2 * channels) by (nonlinear_arith)
                    requires
                        count - first <= 2,
                        channels > 0,
                ;
            }
        }
        at = at + step;
    }
    out
}

impl WaveformPyramid {
    /// The interleaved samples.
    pub closed spec fn samples(&self) -> Seq<u32> {
        self.pcm@
    }

    /// The number of channels.
    pub closed spec fn channels(&self) -> nat {
        self.channel_count as nat
    }

    /// The number of complete frames.
    pub closed spec fn frames(&self) -> nat {
        self.frame_count as nat
    }

    /// The number of samples that were replaced by silence.
    pub closed spec fn replaced(&self) -> nat {
        self.sanitized as nat
    }

    /// The number of levels.
    pub closed spec fn level_total(&self) -> nat {
        self.levels@.len()
    }

    /// The number of values of a level.
    pub closed spec fn level_size(&self, level: int) -> nat {
        self.levels@[level].values@.len()
    }

    /// Complete frames of finite samples, below levels that keep their extremes.
    pub closed spec fn wf(&self) -> bool {
        &&& self.pcm@.len() == self.frame_count * self.channel_count
        &&& all_finite(self.pcm@)
        &&& self.frame_count == 0 ==> self.levels@.len() == 0
        &&& self.frame_count > 0 ==> self.channel_count > 0 && self.levels@.len() > 0
            && self.levels@.len() == level_total(
            block_count(self.frame_count as int, BASE_BLOCK_FRAMES as int),
        )
        &&& forall|level: int|
            0 <= level < self.levels@.len() ==> is_level(
                self.pcm@,
                self.channel_count as int,
                self.frame_count as int,
                #[trigger] self.levels@[level],
                level,
            )
    }

    /// Whether a pyramid keeps interleaved samples, as far as they make complete frames.
    pub open spec fn keeps_interleaved(&self, samples: Seq<u32>, channels: nat) -> bool {
        &&& self.channels() == channels
        &&& if channels == 0 {
            self.frames() == 0 && self.samples() == Seq::<u32>::empty() && self.replaced() == 0
        } else {
            let kept = (samples.len() / channels * channels) as int;
            &&& self.frames() == samples.len() / channels
            &&& self.samples() == samples.take(kept).map_values(|bits: u32| cleaned(bits))
            &&& self.replaced() == unclean(samples, kept)
        }
    }

    /// Whether a pyramid keeps separate channels, as far as all of them go.
    pub open spec fn keeps_channels(&self, channels: Seq<Vec<u32>>) -> bool {
        &&& self.channels() == channels.len()
        &&& self.frames() == common_frames(channels, channels.len() as int)
        &&& forall|frame: int, channel: int|
            0 <= frame < self.frames() && 0 <= channel < channels.len() ==> #[trigger] sample_at(
                self.samples(),
                channels.len() as int,
                frame,
                channel,
            ) == cleaned(channels[channel]@[frame])
        &&& self.replaced() == unclean_channels(
            channels,
            self.frames() as int,
            channels.len() as int,
        )
    }

    /// A level has as many values as blocks and channels.
    pub proof fn levels_are_flat(&self, level: int)
        requires
            self.wf(),
            0 <= level < self.level_total(),
        ensures
            self.level_size(level) == block_count(self.frames() as int, block_frames(level))
                * self.channels(),
    {
        assert(is_level(
            self.pcm@,
            self.channel_count as int,
            self.frame_count as int,
            self.levels@[level],
            level,
        ));
    }

    fn empty(channel_count: usize) -> (r: WaveformPyramid)
        ensures
            r.wf(),
            r.samples() == Seq::<u32>::empty(),
            r.channels() == channel_count,
            r.frames() == 0,
            r.replaced() == 0,
    {
        let r = WaveformPyramid {
            channel_count,
            frame_count: 0,
            pcm: Arc::new(Vec::new()),
            levels: Vec::new(),
            sanitized: 0,
        };
        assert(0 * channel_count == 0) by (nonlinear_arith);
        assert(r.pcm@ =~= Seq::<u32>::empty());
        r
    }

    fn from_pcm(
        channel_count: usize,
        frame_count: usize,
        pcm: Vec<u32>,
        sanitized: usize,
    ) -> (r: WaveformPyramid)
        requires
            pcm@.len() == frame_count * channel_count,
            all_finite(pcm@),
            frame_count > 0 ==> channel_count > 0,
            frame_count == 0 ==> sanitized == 0,
        ensures
            r.wf(),
            r.samples() == pcm@,
            r.channels() == channel_count,
            r.frames() == frame_count,
            r.replaced() == sanitized,
    {
        if frame_count == 0 {
            assert(0 * channel_count == 0) by (nonlinear_arith);
            assert(pcm@ =~= Seq::<u32>::empty());
            return WaveformPyramid::empty(channel_count);
        }
        let ghost samples = pcm@;
        let ghost frames = frame_count as int;
        let base = build_base(&pcm, channel_count, frame_count);
        let mut levels: Vec<Level> = Vec::new();
        proof {
            vstd::arithmetic::power2::lemma2_to64();
            assert(block_frames(0) == BASE_BLOCK_FRAMES);
        }
        levels.push(Level { block: BASE_BLOCK_FRAMES as u128, values: base });
        let mut block: u128 = BASE_BLOCK_FRAMES as u128;
        let ghost total = level_total(block_count(frames, BASE_BLOCK_FRAMES as int));
        while block < frame_count as u128
            invariant
                frames == frame_count,
                0 < frame_count,
                0 < channel_count,
                samples.len() == frame_count * channel_count,
                levels@.len() > 0,
                block == block_frames(levels@.len() - 1),
                0 < block,
                total == levels@.len() - 1 + level_total(block_count(frames, block as int)),
                forall|level: int|
                    0 <= level < levels@.len() ==> is_level(
                        samples,
                        channel_count as int,
                        frames,
                        #[trigger] levels@[level],
                        level,
                    ),
            decreases
                (if block < frames {
                    frames - block
                } else {
                    0
                }),
        {
            let last: usize = levels.len() - 1;
            let ghost before = levels@;
            assert(is_level(samples, channel_count as int, frames, levels@[last as int], last as int));
            let values = build_next(
                Ghost(samples),
                channel_count,
                frame_count,
                block,
                &levels[last].values,
            );
            proof {
                lemma_pow2_unfold((last + 1) as nat);
                assert(block_frames(last + 1) == 2 * block);
                blocks_pair(frames, block as int);
                blocks_reach_the_end(frames, block as int);
                assert(block_count(frames, block as int) > 1) by (nonlinear_arith)
                    requires
                        block < frames,
                        frames <= block_count(frames, block as int) * block,
                        0 < block,
                ;
            }
            levels.push(Level { block: block * 2, values });
            block = block * 2;
            proof {
                assert forall|level: int| 0 <= level < levels@.len() implies is_level(
                    samples,
                    channel_count as int,
                    frames,
                    #[trigger] levels@[level],
                    level,
                ) by {
                    if level < before.len() {
                        assert(levels@[level] == before[level]);
                    }
                }
            }
        }
        proof {
            assert(block_count(frames, block as int) == 1) by (nonlinear_arith)
                requires
                    0 < frames <= block,
                    block_count(frames, block as int) == (frames + block - 1) / (block as int),
            {
                let b = block as int;
                assert(b <= frames + b - 1);
                assert(frames + b - 1 < 2 * b);
                assert((frames + b - 1) / b == 1);
            }
        }
        WaveformPyramid {
            channel_count,
            frame_count,
            pcm: Arc::new(pcm),
            levels,
            sanitized,
        }
    }

    /// A pyramid of interleaved samples. An incomplete frame at the end is left
    /// out, and what is no finite number becomes silence.
    pub fn from_interleaved(samples: &Vec<u32>, channel_count: usize) -> (r: WaveformPyramid)
        ensures
            r.wf(),
            r.keeps_interleaved(samples@, channel_count as nat),
    {
        if channel_count == 0 {
            return WaveformPyramid::empty(0);
        }
        let frame_count: usize = samples.len() / channel_count;
        proof {
            assert(frame_count * channel_count <= samples@.len()) by (nonlinear_arith)
                requires
                    frame_count == samples@.len() / channel_count as nat,
                    channel_count > 0,
            ;
        }
        let kept: usize = frame_count * channel_count;
        let mut pcm: Vec<u32> = Vec::new();
        let mut sanitized: usize = 0;
        let mut i: usize = 0;
        while i < kept
            invariant
                i <= kept <= samples@.len(),
                pcm@.len() == i,
                forall|k: int| 0 <= k < i ==> #[trigger] pcm@[k] == cleaned(samples@[k]),
                all_finite(pcm@),
                sanitized == unclean(samples@, i as int),
                sanitized <= i,
            decreases kept - i,
        {
            let bits: u32 = samples[i];
            if finite(bits) {
                pcm.push(bits);
            } else {
                pcm.push(0);
                sanitized = sanitized + 1;
            }
            i = i + 1;
        }
        assert(pcm@ =~= samples@.take(kept as int).map_values(|bits: u32| cleaned(bits)));
        proof {
            if frame_count == 0 {
                assert(0 * channel_count == 0) by (nonlinear_arith);
            }
        }
        WaveformPyramid::from_pcm(channel_count, frame_count, pcm, sanitized)
    }

    /// A pyramid of interleaved samples, or why they make none: complete frames of
    /// finite samples are required.
    pub fn try_from_finite_interleaved(samples: &Vec<u32>, channel_count: usize) -> (r: Result<
        WaveformPyramid,
        PyramidBuildError,
    >)
        ensures
            match build_fault(samples@, channel_count) {
                Some(error) => r matches Err(found) && found == error,
                None => {
                    &&& r matches Ok(pyramid)
                    &&& pyramid.wf()
                    &&& pyramid.channels() == channel_count
                    &&& pyramid.frames() == samples@.len() / channel_count as nat
                    &&& pyramid.samples() == samples@
                    &&& pyramid.replaced() == 0
                },
            },
    {
        if channel_count == 0 {
            return Err(PyramidBuildError::ZeroChannels);
        }
        if samples.len() % channel_count != 0 {
            return Err(
                PyramidBuildError::PartialFrame {
                    samples: samples.len(),
                    channels: channel_count,
                },
            );
        }
        let mut pcm: Vec<u32> = Vec::new();
        let mut i: usize = 0;
        while i < samples.len()
            invariant
                i <= samples.len(),
                pcm@ == samples@.take(i as int),
                all_finite(pcm@),
                first_unclean(samples@, 0) == first_unclean(samples@, i as int),
                channel_count > 0,
                samples@.len() % channel_count as nat == 0,
            decreases samples.len() - i,
        {
            if !finite(samples[i]) {
                return Err(PyramidBuildError::NonFinitePcm { sample_index: i });
            }
            pcm.push(samples[i]);
            assert(pcm@ =~= samples@.take(i as int + 1));
            i = i + 1;
        }
        assert(pcm@ =~= samples@);
        let frame_count: usize = samples.len() / channel_count;
        proof {
            assert(frame_count * channel_count == samples@.len()) by (nonlinear_arith)
                requires
                    frame_count == samples@.len() / channel_count as nat,
                    samples@.len() % channel_count as nat == 0,
                    channel_count > 0,
            ;
        }
        Ok(WaveformPyramid::from_pcm(channel_count, frame_count, pcm, 0))
    }

    /// The number of channels.
    pub fn channel_count(&self) -> (r: usize)
        ensures
            r == self.channels(),
    {
        self.channel_count
    }

    /// The number of complete frames.
    pub fn frame_count(&self) -> (r: usize)
        ensures
            r == self.frames(),
    {
        self.frame_count
    }

    /// The number of levels: none without samples.
    pub fn level_count(&self) -> (r: usize)
        requires
            self.wf(),
        ensures
            r == self.level_total(),
            r == if self.frames() == 0 {
                0
            } else {
                level_total(block_count(self.frames() as int, BASE_BLOCK_FRAMES as int))
            },
    {
        self.levels.len()
    }

    /// The number of values of a level.
    pub fn level_values(&self, level: usize) -> (r: usize)
        requires
            level < self.level_total(),
        ensures
            r == self.level_size(level as int),
    {
        self.levels[level].values.len()
    }

    /// The number of samples that were replaced by silence.
    pub fn sanitized_non_finite_samples(&self) -> (r: usize)
        ensures
            r == self.replaced(),
    {
        self.sanitized
    }

    /// The interleaved samples.
    pub fn interleaved_pcm(&self) -> (r: &Vec<u32>)
        ensures
            r@ == self.samples(),
    {
        &self.pcm
    }

    /// The interleaved samples, shared.
    pub fn shared_interleaved_pcm(&self) -> (r: Arc<Vec<u32>>)
        ensures
            r@ == self.samples(),
    {
        self.pcm.clone()
    }

    /// The number of values of the first `i` levels.
    pub open spec fn stored(&self, i: int) -> nat
        decreases i,
    {
        if i <= 0 {
            0
        } else {
            self.stored(i - 1) + self.level_size(i - 1)
        }
    }

    /// How much is kept.
    pub fn storage(&self) -> (r: WaveformStorage)
        requires
            self.wf(),
        ensures
            r.pcm_samples == self.samples().len(),
            r.summary_levels == self.level_total(),
            r.summary_accumulators == self.stored(self.level_total() as int),
            r.estimated_bytes == self.samples().len() * SAMPLE_BYTES + self.stored(
                self.level_total() as int,
            ) * SUMMARY_BYTES,
    {
        let mut count: u128 = 0;
        let mut i: usize = 0;
        while i < self.levels.len()
            invariant
                i <= self.levels.len(),
                count == self.stored(i as int),
                count <= i * 0xffff_ffff_ffff_ffff,
            decreases self.levels.len() - i,
        {
            count = count + self.levels[i].values.len() as u128;
            i = i + 1;
        }
        proof {
            levels_are_few(block_count(self.frame_count as int, BASE_BLOCK_FRAMES as int));
        }
        WaveformStorage {
            pcm_samples: self.pcm.len(),
            summary_accumulators: count,
            summary_levels: self.levels.len(),
            estimated_bytes: self.pcm.len() as u128 * SAMPLE_BYTES as u128 + count
                * SUMMARY_BYTES as u128,
        }
    }
}

/// A block count is at most one more than the blocks that are full.
proof fn lemma_block_count(frames: int, block: int)
    requires
        0 <= frames,
        0 < block,
    ensures
        block_count(frames, block) * block <= frames + block,
        0 <= block_count(frames, block),
{
    let n = block_count(frames, block);
    vstd::arithmetic::div_mod::lemma_fundamental_div_mod(frames + block - 1, block);
    vstd::arithmetic::div_mod::lemma_div_pos_is_pos(frames + block - 1, block);
    vstd::arithmetic::mul::lemma_mul_is_commutative(n, block);
}

/// One more level in the sum of all: `sum` values below, twice as long blocks
/// above.
proof fn lemma_one_more_level(p: int, sum: int, count: int, frames: int, n: int)
    requires
        0 < p,
        256 * (p * sum) <= 2 * frames * (p - 1) + 256 * (n * p),
        count * (256 * p) <= frames + 256 * p,
    ensures
        256 * ((2 * p) * (sum + count)) <= 2 * frames * (2 * p - 1) + 256 * ((n + 1) * (2 * p)),
{
    assert((2 * p) * (sum + count) == 2 * (p * sum) + 2 * (p * count)) by (nonlinear_arith);
    assert(count * (256 * p) == 256 * (p * count)) by (nonlinear_arith);
    assert((n + 1) * (2 * p) == 2 * (n * p) + 2 * p) by (nonlinear_arith);
    assert(2 * frames * (2 * p - 1) == 4 * (frames * p) - 2 * frames) by (nonlinear_arith);
    assert(2 * frames * (p - 1) == 2 * (frames * p) - 2 * frames) by (nonlinear_arith);
}

impl WaveformPyramid {
    /// The blocks of the first `i` levels.
    pub open spec fn blocks(&self, i: int) -> int
        decreases i,
    {
        if i <= 0 {
            0
        } else {
            self.blocks(i - 1) + block_count(self.frames() as int, block_frames(i - 1))
        }
    }

    proof fn lemma_blocks(&self, i: int)
        requires
            0 <= i,
        ensures
            256 * (pow2(i as nat) * self.blocks(i)) <= 2 * self.frames() * (pow2(i as nat) - 1)
                + 256 * (i * pow2(i as nat)),
            0 <= self.blocks(i),
        decreases i,
    {
        if i == 0 {
            vstd::arithmetic::power2::lemma2_to64();
        } else {
            let below = (i - 1) as nat;
            self.lemma_blocks(i - 1);
            lemma_pow2_pos(below);
            lemma_pow2_unfold(i as nat);
            lemma_block_count(self.frames() as int, block_frames(i - 1));
            lemma_one_more_level(
                pow2(below) as int,
                self.blocks(i - 1),
                block_count(self.frames() as int, block_frames(i - 1)),
                self.frames() as int,
                i - 1,
            );
        }
    }

    proof fn lemma_stored(&self, i: int)
        requires
            self.wf(),
            0 <= i <= self.level_total(),
        ensures
            self.stored(i) == self.blocks(i) * self.channels(),
        decreases i,
    {
        if i > 0 {
            self.lemma_stored(i - 1);
            self.levels_are_flat(i - 1);
            vstd::arithmetic::mul::lemma_mul_is_distributive_add_other_way(
                self.channels() as int,
                self.blocks(i - 1),
                block_count(self.frames() as int, block_frames(i - 1)),
            );
        }
    }

    /// Summaries stay small: for every 256 frames there are at most two values a
    /// channel, and one more for each level.
    pub proof fn summaries_are_few(&self)
        requires
            self.wf(),
        ensures
            256 * self.stored(self.level_total() as int) <= self.channels() * (2 * self.frames()
                + 256 * self.level_total()),
    {
        let n = self.level_total() as int;
        let p = pow2(n as nat) as int;
        let b = self.blocks(n);
        let f = self.frames() as int;
        let c = self.channels() as int;
        self.lemma_blocks(n);
        self.lemma_stored(n);
        lemma_pow2_pos(n as nat);
        assert(256 * b <= 2 * f + 256 * n) by (nonlinear_arith)
            requires
                0 < p,
                0 <= f,
                256 * (p * b) <= 2 * f * (p - 1) + 256 * (n * p),
        ;
        assert(256 * (b * c) <= c * (2 * f + 256 * n)) by (nonlinear_arith)
            requires
                256 * b <= 2 * f + 256 * n,
                0 <= c,
        ;
    }
}

/// The first sample from `i` on that is no finite number.
pub open spec fn first_unclean(samples: Seq<u32>, i: int) -> Option<int>
    decreases samples.len() - i,
{
    if i < 0 || i >= samples.len() {
        None
    } else if !is_finite(samples[i]) {
        Some(i)
    } else {
        first_unclean(samples, i + 1)
    }
}

/// The first sample that is no finite number.
pub(crate) fn find_unclean(samples: &Vec<u32>) -> (r: Option<usize>)
    ensures
        match first_unclean(samples@, 0) {
            Some(i) => r matches Some(found) && found == i,
            None => r is None,
        },
{
    let mut i: usize = 0;
    while i < samples.len()
        invariant
            i <= samples.len(),
            first_unclean(samples@, 0) == first_unclean(samples@, i as int),
        decreases samples.len() - i,
    {
        if !finite(samples[i]) {
            return Some(i);
        }
        i = i + 1;
    }
    None
}

/// Why interleaved samples make no pyramid.
pub open spec fn build_fault(samples: Seq<u32>, channels: usize) -> Option<PyramidBuildError> {
    if channels == 0 {
        Some(PyramidBuildError::ZeroChannels)
    } else if samples.len() % channels as nat != 0 {
        Some(PyramidBuildError::PartialFrame { samples: samples.len() as usize, channels })
    } else {
        match first_unclean(samples, 0) {
            Some(i) => Some(PyramidBuildError::NonFinitePcm { sample_index: i as usize }),
            None => None,
        }
    }
}

// ----- channels -----------------------------------------------------------

/// The frames that the first `i` channels have in common.
pub open spec fn common_frames(channels: Seq<Vec<u32>>, i: int) -> nat
    decreases i,
{
    if i <= 0 {
        0
    } else if i == 1 {
        channels[0]@.len()
    } else {
        let before = common_frames(channels, i - 1);
        if channels[i - 1]@.len() < before {
            channels[i - 1]@.len()
        } else {
            before
        }
    }
}

/// The number of samples of the first `i` channels that are no finite numbers,
/// among their first frames.
pub open spec fn unclean_channels(channels: Seq<Vec<u32>>, frames: int, i: int) -> nat
    decreases i,
{
    if i <= 0 {
        0
    } else {
        unclean_channels(channels, frames, i - 1) + unclean(channels[i - 1]@, frames)
    }
}

proof fn common_frames_are_everywhere(channels: Seq<Vec<u32>>, i: int, k: int)
    requires
        0 <= k < i <= channels.len(),
    ensures
        common_frames(channels, i) <= channels[k]@.len(),
    decreases i,
{
    if k < i - 1 {
        common_frames_are_everywhere(channels, i - 1, k);
    }
}

proof fn unclean_channels_are_bounded(channels: Seq<Vec<u32>>, frames: int, i: int)
    requires
        0 <= i,
        0 <= frames,
    ensures
        unclean_channels(channels, frames, i) <= i * frames,
    decreases i,
{
    if i > 0 {
        unclean_channels_are_bounded(channels, frames, i - 1);
        unclean_is_bounded(channels[i - 1]@, frames);
        assert(i * frames == (i - 1) * frames + frames) by (nonlinear_arith);
    } else {
        assert(0 * frames == 0) by (nonlinear_arith);
    }
}

fn count_unclean(samples: &Vec<u32>, frames: usize) -> (r: usize)
    requires
        frames <= samples@.len(),
    ensures
        r == unclean(samples@, frames as int),
{
    let mut count: usize = 0;
    let mut i: usize = 0;
    while i < frames
        invariant
            i <= frames <= samples@.len(),
            count <= i,
            count == unclean(samples@, i as int),
        decreases frames - i,
    {
        if !finite(samples[i]) {
            count = count + 1;
        }
        i = i + 1;
    }
    count
}

impl WaveformPyramid {
    /// A pyramid of separate channels, as far as all of them go. What is no finite
    /// number becomes silence. Frames and channels have to be few enough for their
    /// product to be the length of a list.
    pub fn from_channels(channels: &Vec<Vec<u32>>) -> (r: WaveformPyramid)
        requires
            common_frames(channels@, channels@.len() as int) * channels@.len() <= usize::MAX,
        ensures
            r.wf(),
            r.samples().len() == r.frames() * r.channels(),
            r.keeps_channels(channels@),
    {
        let count: usize = channels.len();
        let mut frames: usize = 0;
        let mut c: usize = 0;
        while c < count
            invariant
                c <= count == channels@.len(),
                frames == common_frames(channels@, c as int),
            decreases count - c,
        {
            if c == 0 || channels[c].len() < frames {
                frames = channels[c].len();
            }
            c = c + 1;
        }
        let ghost total = frames * count;
        let mut sanitized: usize = 0;
        let mut k: usize = 0;
        assert(0 <= total) by (nonlinear_arith)
            requires
                total == frames * count,
        ;
        while k < count
            invariant
                k <= count == channels@.len(),
                frames == common_frames(channels@, count as int),
                total == frames * count,
                total <= usize::MAX,
                sanitized == unclean_channels(channels@, frames as int, k as int),
            decreases count - k,
        {
            proof {
                common_frames_are_everywhere(channels@, count as int, k as int);
                unclean_channels_are_bounded(channels@, frames as int, k + 1);
                assert((k + 1) * frames <= frames * count) by (nonlinear_arith)
                    requires
                        k + 1 <= count,
                        0 <= frames,
                ;
            }
            sanitized = sanitized + count_unclean(&channels[k], frames);
            k = k + 1;
        }
        let mut pcm: Vec<u32> = Vec::new();
        let mut frame: usize = 0;
        assert(0 * count == 0) by (nonlinear_arith);
        while frame < frames
            invariant
                frame <= frames,
                count == channels@.len(),
                frames == common_frames(channels@, count as int),
                pcm@.len() == frame * count,
                all_finite(pcm@),
                forall|f: int, channel: int|
                    0 <= f < frame && 0 <= channel < count ==> #[trigger] sample_at(
                        pcm@,
                        count as int,
                        f,
                        channel,
                    ) == cleaned(channels@[channel]@[f]),
            decreases frames - frame,
        {
            let mut i: usize = 0;
            assert(frame * count + 0 == frame * count);
            while i < count
                invariant
                    frame < frames,
                    i <= count == channels@.len(),
                    frames == common_frames(channels@, count as int),
                    pcm@.len() == frame * count + i,
                    all_finite(pcm@),
                    forall|f: int, channel: int|
                        0 <= f < frame && 0 <= channel < count ==> #[trigger] sample_at(
                            pcm@,
                            count as int,
                            f,
                            channel,
                        ) == cleaned(channels@[channel]@[f]),
                    forall|channel: int|
                        0 <= channel < i ==> #[trigger] sample_at(
                            pcm@,
                            count as int,
                            frame as int,
                            channel,
                        ) == cleaned(channels@[channel]@[frame as int]),
                decreases count - i,
            {
                proof {
                    common_frames_are_everywhere(channels@, count as int, i as int);
                }
                let ghost before = pcm@;
                let bits: u32 = channels[i][frame];
                if finite(bits) {
                    pcm.push(bits);
                } else {
                    pcm.push(0);
                }
                proof {
                    assert forall|f: int, channel: int|
                        0 <= f < frame && 0 <= channel < count implies #[trigger] sample_at(
                        pcm@,
                        count as int,
                        f,
                        channel,
                    ) == cleaned(channels@[channel]@[f]) by {
                        row_index(f, channel, count as int, frame as int);
                        assert(sample_at(before, count as int, f, channel) == cleaned(
                            channels@[channel]@[f],
                        ));
                    }
                    assert forall|channel: int| 0 <= channel < i + 1 implies #[trigger] sample_at(
                        pcm@,
                        count as int,
                        frame as int,
                        channel,
                    ) == cleaned(channels@[channel]@[frame as int]) by {
                        if channel < i {
                            assert(sample_at(before, count as int, frame as int, channel)
                                == cleaned(channels@[channel]@[frame as int]));
                            assert(0 <= frame * count) by (nonlinear_arith)
                                requires
                                    0 <= frame,
                                    0 <= count,
                            ;
                        }
                    }
                }
                i = i + 1;
            }
            assert(frame * count + count == (frame + 1) * count) by (nonlinear_arith);
            frame = frame + 1;
        }
        proof {
            if frames == 0 {
                unclean_channels_are_bounded(channels@, 0, count as int);
                assert(count * 0 == 0) by (nonlinear_arith);
            }
        }
        WaveformPyramid::from_pcm(count, frames, pcm, sanitized)
    }
}

// ----- queries ------------------------------------------------------------

/// Whether pieces cover a range without gap or overlap, in order.
pub open spec fn pieces_tile(pieces: Seq<WaveformPiece>, start: int, end: int) -> bool {
    &&& pieces.len() > 0 ==> pieces[0].start == start && pieces.last().end == end
    &&& pieces.len() == 0 ==> start == end
    &&& forall|i: int| 0 <= i < pieces.len() ==> (#[trigger] pieces[i]).start < pieces[i].end
    &&& forall|i: int|
        0 < i < pieces.len() ==> (#[trigger] pieces[i]).start == previous_end(pieces, i)
}

/// Where the piece before another ends.
pub open spec fn previous_end(pieces: Seq<WaveformPiece>, i: int) -> usize {
    pieces[i - 1].end
}

/// The highest level that serves bins of some frames.
pub open spec fn is_summary_level(per_bin: int, levels: int, level: int) -> bool {
    if per_bin < BASE_BLOCK_FRAMES {
        level == 0
    } else {
        exists|log: int|
            #![trigger is_floor_log2(per_bin / (BASE_BLOCK_FRAMES as int), log)]
            is_floor_log2(per_bin / (BASE_BLOCK_FRAMES as int), log) && level == if log
                < levels {
                log
            } else {
                levels - 1
            }
    }
}

impl WaveformPyramid {
    /// Whether a piece is a whole block of a level, or fewer samples than a block of
    /// the first level.
    pub open spec fn is_piece(&self, piece: WaveformPiece, max_level: int) -> bool {
        match piece.block {
            Some(block) => {
                &&& block.level <= max_level
                &&& block.level < self.level_total()
                &&& block.index < block_count(
                    self.frames() as int,
                    block_frames(block.level as int),
                )
                &&& piece.start == block.index * block_frames(block.level as int)
                &&& piece.end == block_end(
                    block.index as int,
                    block_frames(block.level as int),
                    self.frames() as int,
                )
            },
            None => piece.end - piece.start <= BASE_BLOCK_FRAMES,
        }
    }

    fn block_at(&self, cursor: usize, end: usize, max_level: usize) -> (r: Option<WaveformPiece>)
        requires
            self.wf(),
            cursor < end <= self.frames(),
            max_level < self.level_total(),
        ensures
            match r {
                Some(piece) => piece.start == cursor && cursor < piece.end <= end && piece.block
                    is Some && self.is_piece(piece, max_level as int),
                None => forall|level: int|
                    0 <= level <= max_level ==> !(cursor as int % #[trigger] block_frames(level) == 0
                        && block_end(
                        cursor as int / block_frames(level),
                        block_frames(level),
                        self.frames() as int,
                    ) <= end),
            },
    {
        assert(self.levels@.len() == self.levels.len());
        let mut below: usize = max_level + 1;
        while below > 0
            invariant
                self.wf(),
                cursor < end <= self.frames(),
                max_level < self.level_total(),
                below <= max_level + 1,
                forall|level: int|
                    below <= level <= max_level ==> !(cursor as int % #[trigger] block_frames(level)
                        == 0 && block_end(
                        cursor as int / block_frames(level),
                        block_frames(level),
                        self.frames() as int,
                    ) <= end),
            decreases below,
        {
            let level: usize = below - 1;
            assert(is_level(
                self.pcm@,
                self.channel_count as int,
                self.frame_count as int,
                self.levels@[level as int],
                level as int,
            ));
            let block: u128 = self.levels[level].block;
            proof {
                lemma_pow2_pos(level as nat);
                assert(block > 0);
            }
            if cursor as u128 % block == 0 {
                proof {
                    block_of_frame(self.frame_count as int, block as int, cursor as int);
                    blocks_begin_inside(
                        self.frame_count as int,
                        block as int,
                        cursor as int / block as int,
                    );
                }
                let left: usize = self.frame_count - cursor;
                let candidate: usize = if block < left as u128 {
                    cursor + block as usize
                } else {
                    self.frame_count
                };
                if candidate <= end {
                    let index: usize = (cursor as u128 / block) as usize;
                    return Some(
                        WaveformPiece {
                            start: cursor,
                            end: candidate,
                            block: Some(SummaryBlock { level, index }),
                        },
                    );
                }
            }
            below = level;
        }
        None
    }

    /// The pieces that a range is taken in: the largest whole blocks that fit, and
    /// samples up to the next block where none does.
    pub fn pieces(&self, start: usize, end: usize, max_level: usize) -> (r: Vec<WaveformPiece>)
        requires
            self.wf(),
            start <= end <= self.frames(),
            max_level < self.level_total(),
        ensures
            pieces_tile(r@, start as int, end as int),
            forall|i: int|
                0 <= i < r@.len() ==> self.is_piece(#[trigger] r@[i], max_level as int),
    {
        let mut pieces: Vec<WaveformPiece> = Vec::new();
        let mut cursor: usize = start;
        while cursor < end
            invariant
                self.wf(),
                start <= cursor <= end <= self.frames(),
                max_level < self.level_total(),
                pieces_tile(pieces@, start as int, cursor as int),
                forall|i: int|
                    0 <= i < pieces@.len() ==> self.is_piece(
                        #[trigger] pieces@[i],
                        max_level as int,
                    ),
            decreases end - cursor,
        {
            let ghost before = pieces@;
            let piece = match self.block_at(cursor, end, max_level) {
                Some(piece) => piece,
                None => {
                    let left: usize = BASE_BLOCK_FRAMES - cursor % BASE_BLOCK_FRAMES;
                    let stop: usize = if end - cursor < left {
                        end
                    } else {
                        cursor + left
                    };
                    WaveformPiece { start: cursor, end: stop, block: None }
                },
            };
            pieces.push(piece);
            proof {
                assert forall|i: int| 0 < i < pieces@.len() implies (#[trigger] pieces@[i]).start
                    == previous_end(pieces@, i) by {
                    if i < before.len() {
                        assert(pieces@[i] == before[i]);
                        assert(before[i].start == previous_end(before, i));
                    } else {
                        assert(previous_end(pieces@, i) == before.last().end);
                    }
                }
            }
            cursor = piece.end;
        }
        pieces
    }

    /// The extremes over a range.
    fn aggregate_exact(&self, start: usize, end: usize, max_level: usize) -> (r: WaveformBin)
        requires
            self.wf(),
            start < end <= self.frames(),
            max_level < self.level_total(),
        ensures
            self.is_bin(r, start as int, end as int),
    {
        let pieces = self.pieces(start, end, max_level);
        let channels: usize = self.channel_count;
        let mut result: Vec<ChannelExtremes> = Vec::new();
        let mut c: usize = 0;
        while c < channels
            invariant
                c <= channels,
                result@.len() == c,
                forall|channel: int|
                    0 <= channel < c ==> (#[trigger] result@[channel]).frames == 0,
            decreases channels - c,
        {
            result.push(no_extremes());
            c = c + 1;
        }
        let mut p: usize = 0;
        let mut cursor: usize = start;
        while p < pieces.len()
            invariant
                self.wf(),
                channels == self.channels(),
                start <= cursor <= end <= self.frames(),
                max_level < self.level_total(),
                pieces_tile(pieces@, start as int, end as int),
                forall|i: int|
                    0 <= i < pieces@.len() ==> self.is_piece(
                        #[trigger] pieces@[i],
                        max_level as int,
                    ),
                p <= pieces.len(),
                p < pieces.len() ==> cursor == pieces@[p as int].start,
                p == pieces.len() ==> cursor == end,
                result@.len() == channels,
                forall|channel: int|
                    0 <= channel < channels ==> are_extremes(
                        self.samples(),
                        channels as int,
                        channel,
                        start as int,
                        cursor as int,
                        #[trigger] result@[channel],
                    ),
            decreases pieces.len() - p,
        {
            let piece = pieces[p];
            proof {
                piece_ends_inside(pieces@, start as int, end as int, p as int);
            }
            let row = self.piece_extremes(piece, Ghost(max_level as int));
            let mut joint: Vec<ChannelExtremes> = Vec::new();
            let mut i: usize = 0;
            while i < channels
                invariant
                    i <= channels,
                    channels == self.channels(),
                    result@.len() == channels,
                    row@.len() == channels,
                    joint@.len() == i,
                    start <= cursor == piece.start,
                    piece.start < piece.end <= end,
                    forall|channel: int|
                        0 <= channel < channels ==> are_extremes(
                            self.samples(),
                            channels as int,
                            channel,
                            start as int,
                            cursor as int,
                            #[trigger] result@[channel],
                        ),
                    forall|channel: int|
                        0 <= channel < channels ==> are_extremes(
                            self.samples(),
                            channels as int,
                            channel,
                            cursor as int,
                            piece.end as int,
                            #[trigger] row@[channel],
                        ),
                    forall|channel: int|
                        0 <= channel < i ==> are_extremes(
                            self.samples(),
                            channels as int,
                            channel,
                            start as int,
                            piece.end as int,
                            #[trigger] joint@[channel],
                        ),
                decreases channels - i,
            {
                let left = result[i];
                let right = row[i];
                proof {
                    assert(left.frames == cursor - start);
                    assert(right.frames == piece.end - cursor);
                    extremes_join(
                        self.samples(),
                        channels as int,
                        i as int,
                        start as int,
                        cursor as int,
                        piece.end as int,
                        left,
                        right,
                    );
                }
                joint.push(join_extremes(left, right));
                i = i + 1;
            }
            result = joint;
            cursor = piece.end;
            proof {
                if p + 1 < pieces.len() {
                    assert(pieces@[p + 1].start == previous_end(pieces@, p + 1));
                }
            }
            p = p + 1;
        }
        WaveformBin { start_frame: start, end_frame: end, channels: result }
    }

    /// The extremes over a piece.
    fn piece_extremes(&self, piece: WaveformPiece, Ghost(max_level): Ghost<int>) -> (r: Vec<
        ChannelExtremes,
    >)
        requires
            self.wf(),
            piece.start < piece.end <= self.frames(),
            self.is_piece(piece, max_level),
        ensures
            r@.len() == self.channels(),
            forall|channel: int|
                0 <= channel < self.channels() ==> are_extremes(
                    self.samples(),
                    self.channels() as int,
                    channel,
                    piece.start as int,
                    piece.end as int,
                    #[trigger] r@[channel],
                ),
    {
        let channels: usize = self.channel_count;
        match piece.block {
            Some(block) => {
                let values = &self.levels[block.level].values;
                let ghost count = block_count(
                    self.frame_count as int,
                    block_frames(block.level as int),
                );
                assert(is_level(
                    self.pcm@,
                    self.channel_count as int,
                    self.frame_count as int,
                    self.levels@[block.level as int],
                    block.level as int,
                ));
                let mut row: Vec<ChannelExtremes> = Vec::new();
                let mut c: usize = 0;
                proof {
                    row_index(block.index as int, 0, channels as int, count);
                    assert(values@.len() == values.len());
                }
                let first: usize = block.index * channels;
                while c < channels
                    invariant
                        c <= channels,
                        row@.len() == c,
                        first == block.index * channels,
                        block.index < count,
                        values@.len() == values.len(),
                        keeps_extremes(
                            self.pcm@,
                            channels as int,
                            self.frame_count as int,
                            block_frames(block.level as int),
                            values@,
                            count,
                        ),
                        piece.start == block.index * block_frames(block.level as int),
                        piece.end == block_end(
                            block.index as int,
                            block_frames(block.level as int),
                            self.frame_count as int,
                        ),
                        forall|channel: int|
                            0 <= channel < c ==> are_extremes(
                                self.pcm@,
                                channels as int,
                                channel,
                                piece.start as int,
                                piece.end as int,
                                #[trigger] row@[channel],
                            ),
                    decreases channels - c,
                {
                    proof {
                        row_index(block.index as int, c as int, channels as int, count);
                    }
                    let value = values[first + c];
                    assert(value == value_at(
                        values@,
                        channels as int,
                        block.index as int,
                        c as int,
                    ));
                    row.push(value);
                    c = c + 1;
                }
                row
            },
            None => {
                proof {
                    assert(piece.end * channels <= self.frame_count * channels) by (nonlinear_arith)
                        requires
                            piece.end <= self.frame_count,
                            0 <= channels,
                    ;
                    assert(self.pcm@.len() == self.pcm.len());
                }
                aggregate_samples(&self.pcm, channels, piece.start, piece.end)
            },
        }
    }

    /// Whether a bin holds the extremes of every channel over a range.
    pub open spec fn is_bin(&self, bin: WaveformBin, start: int, end: int) -> bool {
        &&& bin.start_frame == start
        &&& bin.end_frame == end
        &&& bin.channels@.len() == self.channels()
        &&& forall|channel: int|
            0 <= channel < self.channels() ==> are_extremes(
                self.samples(),
                self.channels() as int,
                channel,
                start,
                end,
                #[trigger] bin.channels@[channel],
            )
    }

    /// Whether this is what is shown of a range in at most so many bins.
    pub open spec fn shows(
        &self,
        start_frame: int,
        end_frame: int,
        target_bins: int,
        query: WaveformQuery,
    ) -> bool {
        let start = self.clamped_start(start_frame);
        let end = self.clamped_end(start_frame, end_frame);
        let frames = end - start;
        let count = bin_total(frames, target_bins);
        &&& query.start_frame == start
        &&& query.end_frame == end
        &&& query.bins@.len() == count
        &&& count == 0 ==> query.preferred_level == 0
        &&& count > 0 ==> is_floor_log2(
            frames_per_bin(frames, count),
            query.preferred_level as int,
        )
        &&& forall|i: int|
            0 <= i < count ==> self.is_bin(
                #[trigger] query.bins@[i],
                boundary(start, frames, count, i),
                boundary(start, frames, count, i + 1),
            )
    }

    /// Where a range that is asked for begins, within the samples.
    pub open spec fn clamped_start(&self, start: int) -> int {
        if start < self.frames() {
            start
        } else {
            self.frames() as int
        }
    }

    /// Where a range that is asked for ends, within the samples.
    pub open spec fn clamped_end(&self, start: int, end: int) -> int {
        let low = self.clamped_start(start);
        let high = if end < self.frames() {
            end
        } else {
            self.frames() as int
        };
        if high < low {
            low
        } else {
            high
        }
    }

    fn even_bins(&self, start: usize, frames: usize, count: usize, max_level: usize) -> (r: Vec<
        WaveformBin,
    >)
        requires
            self.wf(),
            1 <= count <= frames,
            start + frames <= self.frames(),
            max_level < self.level_total(),
        ensures
            r@.len() == count,
            forall|i: int|
                0 <= i < count ==> self.is_bin(
                    #[trigger] r@[i],
                    boundary(start as int, frames as int, count as int, i),
                    boundary(start as int, frames as int, count as int, i + 1),
                ),
    {
        let mut bins: Vec<WaveformBin> = Vec::new();
        let mut i: usize = 0;
        proof {
            bins_tile_their_range(start as int, frames as int, count as int);
        }
        while i < count
            invariant
                self.wf(),
                1 <= count <= frames,
                start + frames <= self.frames(),
                self.frames() <= usize::MAX,
                max_level < self.level_total(),
                i <= count,
                bins@.len() == i,
                forall|k: int|
                    0 <= k < count ==> #[trigger] boundary(
                        start as int,
                        frames as int,
                        count as int,
                        k,
                    ) < boundary(start as int, frames as int, count as int, k + 1),
                forall|k: int|
                    0 <= k < i ==> self.is_bin(
                        #[trigger] bins@[k],
                        boundary(start as int, frames as int, count as int, k),
                        boundary(start as int, frames as int, count as int, k + 1),
                    ),
            decreases count - i,
        {
            let bin_start: u64 = bin_boundary(
                start as u64,
                frames as u64,
                count as u64,
                i as u64,
            );
            let bin_end: u64 = bin_boundary(
                start as u64,
                frames as u64,
                count as u64,
                i as u64 + 1,
            );
            proof {
                bins_stay_within(start as int, frames as int, count as int, i as int);
                bins_stay_within(start as int, frames as int, count as int, i + 1);
                assert(boundary(start as int, frames as int, count as int, i as int) < boundary(
                    start as int,
                    frames as int,
                    count as int,
                    i + 1,
                ));
            }
            bins.push(self.aggregate_exact(bin_start as usize, bin_end as usize, max_level));
            i = i + 1;
        }
        bins
    }

    /// The highest level that serves bins of some frames.
    pub fn summary_level(&self, per_bin: u64) -> (r: usize)
        requires
            self.wf(),
            self.level_total() > 0,
        ensures
            is_summary_level(per_bin as int, self.level_total() as int, r as int),
            r < self.level_total(),
    {
        if per_bin < BASE_BLOCK_FRAMES as u64 {
            return 0;
        }
        let top: usize = self.levels.len() - 1;
        let log: usize = floor_log2(per_bin / BASE_BLOCK_FRAMES as u64);
        if log < top {
            log
        } else {
            top
        }
    }

    /// What is shown of a range in at most so many bins: even bins, none of them
    /// empty, each with the extremes over exactly its own frames.
    pub fn query(&self, start_frame: usize, end_frame: usize, target_bins: usize) -> (r:
        WaveformQuery)
        requires
            self.wf(),
        ensures
            self.shows(start_frame as int, end_frame as int, target_bins as int, r),
    {
        let start: usize = if start_frame < self.frame_count {
            start_frame
        } else {
            self.frame_count
        };
        let high: usize = if end_frame < self.frame_count {
            end_frame
        } else {
            self.frame_count
        };
        let end: usize = if high < start {
            start
        } else {
            high
        };
        let frames: usize = end - start;
        if frames == 0 || target_bins == 0 {
            return WaveformQuery {
                start_frame: start,
                end_frame: end,
                preferred_level: 0,
                bins: Vec::new(),
            };
        }
        let count: usize = if target_bins < frames {
            target_bins
        } else {
            frames
        };
        let per_bin: u64 = bin_width(frames as u64, count as u64);
        let preferred_level: usize = floor_log2(per_bin);
        let max_level: usize = self.summary_level(per_bin);
        let bins = self.even_bins(start, frames, count, max_level);
        WaveformQuery { start_frame: start, end_frame: end, preferred_level, bins }
    }
}

proof fn piece_ends_inside(pieces: Seq<WaveformPiece>, start: int, end: int, i: int)
    requires
        pieces_tile(pieces, start, end),
        0 <= i < pieces.len(),
    ensures
        pieces[i].start < pieces[i].end <= end,
    decreases pieces.len() - i,
{
    if i + 1 < pieces.len() {
        piece_ends_inside(pieces, start, end, i + 1);
        assert(pieces[i + 1].start == previous_end(pieces, i + 1));
    }
}

// ----- laws ---------------------------------------------------------------

/// Samples given channel by channel and the same samples interleaved are shown
/// alike: a range that holds extremes for one holds them for the other.
pub proof fn planar_and_interleaved_agree(
    planar: WaveformPyramid,
    interleaved: WaveformPyramid,
    bin: WaveformBin,
    start: int,
    end: int,
)
    requires
        planar.channels() == interleaved.channels(),
        0 <= start <= end <= planar.frames(),
        forall|frame: int, channel: int|
            0 <= frame < planar.frames() && 0 <= channel < planar.channels()
                ==> #[trigger] sample_at(
                planar.samples(),
                planar.channels() as int,
                frame,
                channel,
            ) == sample_at(
                interleaved.samples(),
                planar.channels() as int,
                frame,
                channel,
            ),
        planar.is_bin(bin, start, end),
    ensures
        interleaved.is_bin(bin, start, end),
{
    assert forall|channel: int| 0 <= channel < planar.channels() implies are_extremes(
        interleaved.samples(),
        planar.channels() as int,
        channel,
        start,
        end,
        #[trigger] bin.channels@[channel],
    ) by {
        crate::waveform_bins::frames_outside_have_no_influence(
            planar.samples(),
            interleaved.samples(),
            planar.channels() as int,
            channel,
            start,
            end,
            bin.channels@[channel],
        );
    }
}

/// What is shown of a range lies within the samples. Its bins follow each other from its
/// first frame to its last, as many as asked for but none of them empty, and differ by
/// one frame at most.
pub proof fn shown_bins_follow_each_other(
    pyramid: WaveformPyramid,
    start_frame: int,
    end_frame: int,
    target_bins: int,
    query: WaveformQuery,
)
    requires
        0 <= start_frame,
        0 <= end_frame,
        0 <= target_bins,
        pyramid.shows(start_frame, end_frame, target_bins, query),
    ensures
        start_frame <= end_frame <= pyramid.frames() ==> query.start_frame == start_frame
            && query.end_frame == end_frame,
        query.start_frame <= query.end_frame <= pyramid.frames(),
        start_frame <= pyramid.frames() ==> query.start_frame == start_frame,
        end_frame >= pyramid.frames() ==> query.end_frame == pyramid.frames(),
        query.start_frame < query.end_frame ==> query.start_frame == start_frame
            && query.end_frame <= end_frame,
        query.bins@.len() <= target_bins,
        query.bins@.len() <= query.end_frame - query.start_frame,
        query.bins@.len() == target_bins || query.bins@.len() == query.end_frame
            - query.start_frame,
        query.bins@.len() > 0 ==> query.bins@[0].start_frame == query.start_frame
            && query.bins@.last().end_frame == query.end_frame,
        forall|i: int|
            0 < i < query.bins@.len() ==> (#[trigger] query.bins@[i]).start_frame == query.bins@[i
                - 1].end_frame,
        forall|i: int, j: int|
            0 <= i < query.bins@.len() && 0 <= j < query.bins@.len() ==> 0
                < (#[trigger] query.bins@[i]).end_frame - query.bins@[i].start_frame <= (
            #[trigger] query.bins@[j]).end_frame - query.bins@[j].start_frame + 1,
{
    let start = query.start_frame as int;
    let frames = query.end_frame - query.start_frame;
    let count = query.bins@.len() as int;
    if count > 0 {
        bins_tile_their_range(start, frames, count);
        assert forall|i: int, j: int| 0 <= i < count && 0 <= j < count implies 0 < (
        #[trigger] query.bins@[i]).end_frame - query.bins@[i].start_frame <= (
        #[trigger] query.bins@[j]).end_frame - query.bins@[j].start_frame + 1 by {
            bins_are_even(start, frames, count, i, j);
            assert(boundary(start, frames, count, i) < boundary(start, frames, count, i + 1));
        }
        assert forall|i: int| 0 < i < count implies (#[trigger] query.bins@[i]).start_frame
            == query.bins@[i - 1].end_frame by {
            assert(pyramid.is_bin(
                query.bins@[i - 1],
                boundary(start, frames, count, i - 1),
                boundary(start, frames, count, i - 1 + 1),
            ));
        }
    }
}

/// Every bin that is shown holds, for every channel, the least and the greatest number
/// among the samples of that channel in its own frames.
pub proof fn shown_extremes_are_those_of_the_numbers(
    pyramid: WaveformPyramid,
    start_frame: int,
    end_frame: int,
    target_bins: int,
    query: WaveformQuery,
    i: int,
    channel: int,
)
    requires
        pyramid.wf(),
        0 <= start_frame,
        0 <= end_frame,
        0 <= target_bins,
        pyramid.shows(start_frame, end_frame, target_bins, query),
        0 <= i < query.bins@.len(),
        0 <= channel < pyramid.channels(),
    ensures
        query.bins@[i].channels@.len() == pyramid.channels(),
        query.bins@[i].channels@[channel].frames == query.bins@[i].end_frame
            - query.bins@[i].start_frame,
        bounds_numbers(
            pyramid.samples(),
            pyramid.channels() as int,
            channel,
            query.bins@[i].start_frame as int,
            query.bins@[i].end_frame as int,
            query.bins@[i].channels@[channel].min_bits,
            query.bins@[i].channels@[channel].max_bits,
        ),
{
    let bin = query.bins@[i];
    shown_bins_follow_each_other(pyramid, start_frame, end_frame, target_bins, query);
    bins_stay_within(
        query.start_frame as int,
        query.end_frame - query.start_frame,
        query.bins@.len() as int,
        i + 1,
    );
    bins_stay_within(
        query.start_frame as int,
        query.end_frame - query.start_frame,
        query.bins@.len() as int,
        i,
    );
    assert(0 < query.bins@[i].end_frame - query.bins@[i].start_frame <= query.bins@[i].end_frame
        - query.bins@[i].start_frame + 1);
    assert forall|frame: int| bin.start_frame <= frame < bin.end_frame implies is_finite(
        #[trigger] pyramid.samples()[frame * pyramid.channels() + channel],
    ) by {
        row_index(frame, channel, pyramid.channels() as int, pyramid.frames() as int);
    }
    extremes_bound_numbers(
        pyramid.samples(),
        pyramid.channels() as int,
        channel,
        bin.start_frame as int,
        bin.end_frame as int,
        bin.channels@[channel],
    );
}

/// The level that a query prefers has blocks of as many frames as the widest bin needs,
/// but not of twice as many.
pub proof fn preferred_levels_fit_their_bins(
    pyramid: WaveformPyramid,
    start_frame: int,
    end_frame: int,
    target_bins: int,
    query: WaveformQuery,
)
    requires
        0 <= start_frame,
        0 <= end_frame,
        0 <= target_bins,
        pyramid.shows(start_frame, end_frame, target_bins, query),
        query.bins@.len() > 0,
    ensures
        ({
            let frames = query.end_frame - query.start_frame;
            let level = pow2(query.preferred_level as nat);
            &&& (level - 1) * query.bins@.len() < frames
            &&& frames < 2 * level * query.bins@.len()
        }),
{
    let frames = query.end_frame - query.start_frame;
    let count = query.bins@.len() as int;
    let per = frames_per_bin(frames, count);
    let level = pow2(query.preferred_level as nat) as int;
    lemma_pow2_unfold((query.preferred_level + 1) as nat);
    vstd::arithmetic::div_mod::lemma_fundamental_div_mod(frames + count - 1, count);
    assert((level - 1) * count < frames && frames < 2 * level * count) by (nonlinear_arith)
        requires
            level <= per < 2 * level,
            count > 0,
            count * per <= frames + count - 1 < count * per + count,
    ;
}

/// A pyramid of interleaved samples keeps each sample of a complete frame as it is, or
/// silence where the bits of the exponent are all set, and counts those.
pub proof fn complete_frames_are_kept(
    pyramid: WaveformPyramid,
    samples: Seq<u32>,
    channels: nat,
    frame: int,
    channel: int,
)
    requires
        pyramid.keeps_interleaved(samples, channels),
        0 <= frame,
        0 <= channel < channels,
    ensures
        pyramid.frames() * channels <= samples.len() < (pyramid.frames() + 1) * channels,
        pyramid.samples().len() == pyramid.frames() * channels,
        frame < pyramid.frames() ==> pyramid.samples()[frame * channels + channel] == if (
        samples[frame * channels + channel] / 0x80_0000) % 0x100 == 0xff {
            0
        } else {
            samples[frame * channels + channel]
        },
        pyramid.replaced() == samples.take((pyramid.frames() * channels) as int).filter(
            |bits: u32| (bits / 0x80_0000) % 0x100 == 0xff,
        ).len(),
{
    let kept = (samples.len() / channels * channels) as int;
    vstd::arithmetic::div_mod::lemma_fundamental_div_mod(samples.len() as int, channels as int);
    assert(samples.len() / channels * channels == channels * (samples.len() / channels))
        by (nonlinear_arith);
    assert((samples.len() / channels + 1) * channels == samples.len() / channels * channels
        + channels) by (nonlinear_arith);
    if frame < pyramid.frames() {
        row_index(frame, channel, channels as int, pyramid.frames() as int);
        exponents_tell_numbers(samples[frame * channels + channel]);
    }
    lemma_unclean_counts(samples, kept);
}

proof fn lemma_unclean_counts(samples: Seq<u32>, i: int)
    requires
        0 <= i <= samples.len(),
    ensures
        unclean(samples, i) == samples.take(i).filter(
            |bits: u32| (bits / 0x80_0000) % 0x100 == 0xff,
        ).len(),
    decreases i,
{
    reveal(Seq::filter);
    if i > 0 {
        lemma_unclean_counts(samples, i - 1);
        assert(samples.take(i).drop_last() =~= samples.take(i - 1));
        exponents_tell_numbers(samples[i - 1]);
    }
}

/// Samples are refused for the first of them whose exponent has all bits set, and for
/// none if there is none.
pub proof fn the_first_unusable_sample_is_named(samples: Seq<u32>, channels: usize)
    ensures
        build_fault(samples, channels) is None <==> channels > 0 && samples.len()
            % channels as nat == 0 && forall|i: int|
            0 <= i < samples.len() ==> ((#[trigger] samples[i]) / 0x80_0000) % 0x100 != 0xff,
        channels > 0 && samples.len() % channels as nat == 0 && samples.len() <= usize::MAX ==> (
        build_fault(samples, channels) matches Some(error) ==> {
            &&& error matches PyramidBuildError::NonFinitePcm { sample_index }
            &&& sample_index < samples.len()
            &&& (samples[sample_index as int] / 0x80_0000) % 0x100 == 0xff
            &&& forall|i: int|
                0 <= i < sample_index ==> ((#[trigger] samples[i]) / 0x80_0000) % 0x100 != 0xff
        }),
{
    lemma_first_unclean(samples, 0);
}

pub(crate) proof fn lemma_first_unclean(samples: Seq<u32>, i: int)
    requires
        0 <= i <= samples.len(),
    ensures
        match first_unclean(samples, i) {
            Some(k) => {
                &&& i <= k < samples.len()
                &&& (samples[k] / 0x80_0000) % 0x100 == 0xff
                &&& forall|j: int|
                    i <= j < k ==> ((#[trigger] samples[j]) / 0x80_0000) % 0x100 != 0xff
            },
            None => forall|j: int|
                i <= j < samples.len() ==> ((#[trigger] samples[j]) / 0x80_0000) % 0x100 != 0xff,
        },
    decreases samples.len() - i,
{
    if i < samples.len() {
        exponents_tell_numbers(samples[i]);
        lemma_first_unclean(samples, i + 1);
    }
}

/// The frames that channels have in common are those of a shortest one.
pub proof fn common_frames_are_those_of_the_shortest(channels: Seq<Vec<u32>>)
    requires
        channels.len() > 0,
    ensures
        forall|c: int|
            0 <= c < channels.len() ==> common_frames(channels, channels.len() as int)
                <= (#[trigger] channels[c])@.len(),
        exists|c: int|
            0 <= c < channels.len() && common_frames(channels, channels.len() as int) == (
            #[trigger] channels[c])@.len(),
{
    assert forall|c: int| 0 <= c < channels.len() implies common_frames(
        channels,
        channels.len() as int,
    ) <= (#[trigger] channels[c])@.len() by {
        common_frames_are_everywhere(channels, channels.len() as int, c);
    }
    lemma_common_frames_occur(channels, channels.len() as int);
}

proof fn lemma_common_frames_occur(channels: Seq<Vec<u32>>, i: int)
    requires
        0 < i <= channels.len(),
    ensures
        exists|c: int|
            0 <= c < i && common_frames(channels, i) == (#[trigger] channels[c])@.len(),
    decreases i,
{
    if i == 1 {
        assert(common_frames(channels, 1) == channels[0]@.len());
    } else {
        lemma_common_frames_occur(channels, i - 1);
        assert(common_frames(channels, i) == channels[i - 1]@.len() || common_frames(channels, i)
            == common_frames(channels, i - 1));
        if common_frames(channels, i) == common_frames(channels, i - 1) {
            let c = choose|c: int|
                0 <= c < i - 1 && common_frames(channels, i - 1) == (#[trigger] channels[c])@.len();
            assert(common_frames(channels, i) == channels[c]@.len());
        }
    }
}

/// A pyramid of separate channels keeps each sample in its frame and channel, or silence
/// where the bits of the exponent are all set.
pub proof fn channels_are_interleaved(
    pyramid: WaveformPyramid,
    channels: Seq<Vec<u32>>,
    frame: int,
    channel: int,
)
    requires
        pyramid.keeps_channels(channels),
        0 <= frame < pyramid.frames(),
        0 <= channel < channels.len(),
    ensures
        pyramid.channels() == channels.len(),
        frame < channels[channel]@.len(),
        pyramid.samples()[frame * channels.len() + channel] == if (channels[channel]@[frame]
            / 0x80_0000) % 0x100 == 0xff {
            0
        } else {
            channels[channel]@[frame]
        },
{
    common_frames_are_those_of_the_shortest(channels);
    exponents_tell_numbers(channels[channel]@[frame]);
    assert(sample_at(pyramid.samples(), channels.len() as int, frame, channel) == cleaned(
        channels[channel]@[frame],
    ));
}

} // verus!
