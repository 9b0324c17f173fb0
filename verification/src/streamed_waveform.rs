//! Waveforms of media that is streamed in chunks.
//!
//! Beside every chunk stands a summary of its waveform. A query takes whole summary
//! bins and asks for samples only at the edges and where a summary is missing, so
//! that looking closely never needs the whole media.

use std::collections::BTreeMap;

use vstd::prelude::*;

use crate::navigation::{
    bit_patterns_are_ordered_as_numbers, finite, is_finite, number_before, number_lt, order_key,
    units,
};
use crate::pyramid::{aggregate_samples, find_unclean, first_unclean, WaveformBin, WaveformQuery};
use crate::waveform_bins::{
    are_extremes, bin_boundary, bin_total, bin_width, bins_are_even, bins_stay_within,
    bins_tile_their_range, boundary, bounds_numbers, extremes_bound_numbers, extremes_join,
    floor_log2, frames_per_bin, is_floor_log2, join_extremes, joined, row_index, sample_at,
    ChannelExtremes,
};

verus! {

// ----- media --------------------------------------------------------------

/// The identity of decoded samples.
#[derive(Clone, Copy, Debug, PartialEq, Eq, Structural)]
pub struct DecodedPcmId(pub u64);

/// How samples are cut into chunks.
#[derive(Clone, Copy, Debug, PartialEq, Eq, Structural)]
pub struct PcmChunkGeometry {
    pub sample_rate: u32,
    pub channels: u16,
    pub chunk_frames: u64,
}

/// Why chunks are refused.
#[derive(Clone, Copy, Debug, PartialEq, Eq, Structural)]
pub enum StreamingMediaError {
    InvalidGeometry,
    ChunkOutsideSource { index: u64 },
}

/// Frames of the media.
#[derive(Clone, Copy, Debug, PartialEq, Eq, Structural)]
pub struct PcmSpan {
    pub start: u64,
    pub end: u64,
}

impl PcmChunkGeometry {
    /// Chunks have frames and channels.
    pub open spec fn is_valid(self) -> bool {
        self.sample_rate > 0 && self.channels > 0 && self.chunk_frames > 0
    }

    /// A geometry of chunks.
    pub fn new(sample_rate: u32, channels: u16, chunk_frames: u64) -> (r: Result<
        PcmChunkGeometry,
        StreamingMediaError,
    >)
        ensures
            ({
                let geometry = PcmChunkGeometry { sample_rate, channels, chunk_frames };
                r == if geometry.is_valid() {
                    Ok::<PcmChunkGeometry, StreamingMediaError>(geometry)
                } else {
                    Err(StreamingMediaError::InvalidGeometry)
                }
            }),
    {
        if sample_rate == 0 || channels == 0 || chunk_frames == 0 {
            return Err(StreamingMediaError::InvalidGeometry);
        }
        Ok(PcmChunkGeometry { sample_rate, channels, chunk_frames })
    }

    /// The frames of a chunk; the last chunk ends with the media.
    pub open spec fn span_of(self, index: u64, frame_count: u64) -> Option<PcmSpan> {
        let start = index * self.chunk_frames;
        if start >= frame_count {
            None
        } else {
            Some(
                PcmSpan {
                    start: start as u64,
                    end: if start + self.chunk_frames < frame_count {
                        (start + self.chunk_frames) as u64
                    } else {
                        frame_count
                    },
                },
            )
        }
    }

    /// The frames of a chunk.
    pub fn chunk_span(&self, index: u64, frame_count: u64) -> (r: Result<
        PcmSpan,
        StreamingMediaError,
    >)
        ensures
            r == match self.span_of(index, frame_count) {
                Some(span) => Ok::<PcmSpan, StreamingMediaError>(span),
                None => Err(StreamingMediaError::ChunkOutsideSource { index }),
            },
    {
        proof {
            assert(0 <= index * self.chunk_frames <= 0xffff_ffff_ffff_ffff
                * 0xffff_ffff_ffff_ffff) by (nonlinear_arith)
                requires
                    0 <= index <= 0xffff_ffff_ffff_ffff,
                    0 <= self.chunk_frames <= 0xffff_ffff_ffff_ffff,
            ;
        }
        let start: u128 = index as u128 * self.chunk_frames as u128;
        if start >= frame_count as u128 {
            return Err(StreamingMediaError::ChunkOutsideSource { index });
        }
        let first: u64 = start as u64;
        let end: u64 = if self.chunk_frames < frame_count - first {
            first + self.chunk_frames
        } else {
            frame_count
        };
        Ok(PcmSpan { start: first, end })
    }
}

/// What media is streamed.
#[derive(Clone, Copy, Debug, PartialEq, Eq, Structural)]
pub struct DecodedPcmDescriptor {
    pub id: DecodedPcmId,
    pub geometry: PcmChunkGeometry,
    pub frame_count: u64,
}

// ----- summaries ----------------------------------------------------------

/// What a summary says about a channel. Numbers are single-precision bit patterns.
#[derive(Clone, Copy, Debug, PartialEq, Eq, Structural)]
pub struct SummaryEnvelope {
    pub min_bits: u32,
    pub max_bits: u32,
    pub rms_bits: u32,
    pub frames: u32,
}

/// What a summary says about some frames.
#[derive(Debug, PartialEq, Eq)]
pub struct SummaryBin {
    pub start: u64,
    pub end: u64,
    pub channels: Vec<SummaryEnvelope>,
}

/// The summary of one chunk.
#[derive(Debug, PartialEq, Eq)]
pub struct WaveformChunkSideProduct {
    pub pcm: DecodedPcmId,
    pub geometry: PcmChunkGeometry,
    pub index: u64,
    pub bins: Vec<SummaryBin>,
}

/// Why a waveform is refused.
#[derive(Clone, Copy, Debug, PartialEq, Eq, Structural)]
pub enum StreamingWaveformError {
    SourceMismatch,
    ProjectedPcmRequired,
    InvalidSideProduct,
    RangeOutsideSource,
    ZeroTargetBins,
    PcmSampleCount { expected: usize, actual: usize },
    NonFinitePcm { sample_index: usize },
    Streaming(StreamingMediaError),
    ArithmeticOverflow,
}

/// Whether an envelope says something possible about so many frames.
pub open spec fn valid_envelope(envelope: SummaryEnvelope, frames: int) -> bool {
    &&& envelope.frames == frames
    &&& envelope.frames > 0
    &&& is_finite(envelope.min_bits)
    &&& is_finite(envelope.max_bits)
    &&& is_finite(envelope.rms_bits)
    &&& !number_lt(envelope.max_bits, envelope.min_bits)
    &&& !number_lt(envelope.rms_bits, 0)
}

/// Whether a bin begins where it should, within its chunk, and has a possible
/// envelope for every channel.
pub open spec fn valid_bin(bin: SummaryBin, channels: int, start: u64, end: u64) -> bool {
    &&& bin.start == start
    &&& bin.start <= bin.end <= end
    &&& bin.channels@.len() == channels
    &&& forall|c: int|
        0 <= c < channels ==> valid_envelope(
            #[trigger] bin.channels@[c],
            bin.end - bin.start,
        )
}

/// Whether bins cover the frames from `start` to `end` in order, from bin `i` on.
pub open spec fn bins_cover(
    bins: Seq<SummaryBin>,
    channels: int,
    start: u64,
    end: u64,
    i: int,
) -> bool
    decreases bins.len() - i,
{
    if i < 0 || i >= bins.len() {
        start == end
    } else {
        valid_bin(bins[i], channels, start, end) && bins_cover(
            bins,
            channels,
            bins[i].end,
            end,
            i + 1,
        )
    }
}

/// Why a summary is refused.
pub open spec fn product_fault(
    source: DecodedPcmDescriptor,
    product: WaveformChunkSideProduct,
) -> Option<StreamingWaveformError> {
    if product.pcm != source.id || product.geometry != source.geometry {
        Some(StreamingWaveformError::SourceMismatch)
    } else {
        match source.geometry.span_of(product.index, source.frame_count) {
            None => Some(
                StreamingWaveformError::Streaming(
                    StreamingMediaError::ChunkOutsideSource { index: product.index },
                ),
            ),
            Some(span) => if bins_cover(
                product.bins@,
                source.geometry.channels as int,
                span.start,
                span.end,
                0,
            ) {
                None
            } else {
                Some(StreamingWaveformError::InvalidSideProduct)
            },
        }
    }
}

fn check_envelope(envelope: SummaryEnvelope, frames: u64) -> (r: bool)
    ensures
        r == valid_envelope(envelope, frames as int),
{
    envelope.frames as u64 == frames && envelope.frames > 0 && finite(envelope.min_bits) && finite(
        envelope.max_bits,
    ) && finite(envelope.rms_bits) && !number_before(envelope.max_bits, envelope.min_bits)
        && !number_before(envelope.rms_bits, 0)
}

fn check_bin(bin: &SummaryBin, channels: u16, start: u64, end: u64) -> (r: bool)
    ensures
        r == valid_bin(*bin, channels as int, start, end),
{
    if bin.start != start || bin.end < bin.start || bin.end > end || bin.channels.len()
        != channels as usize {
        return false;
    }
    let mut c: usize = 0;
    while c < bin.channels.len()
        invariant
            c <= bin.channels.len(),
            bin.channels@.len() == channels,
            bin.start <= bin.end,
            forall|k: int|
                0 <= k < c ==> valid_envelope(
                    #[trigger] bin.channels@[k],
                    bin.end - bin.start,
                ),
        decreases bin.channels.len() - c,
    {
        if !check_envelope(bin.channels[c], bin.end - bin.start) {
            assert(!valid_envelope(bin.channels@[c as int], bin.end - bin.start));
            return false;
        }
        c = c + 1;
    }
    true
}

fn check_bins(bins: &Vec<SummaryBin>, channels: u16, span: PcmSpan) -> (r: bool)
    ensures
        r == bins_cover(bins@, channels as int, span.start, span.end, 0),
{
    let mut cursor: u64 = span.start;
    let mut i: usize = 0;
    while i < bins.len()
        invariant
            i <= bins.len(),
            bins_cover(bins@, channels as int, span.start, span.end, 0) == bins_cover(
                bins@,
                channels as int,
                cursor,
                span.end,
                i as int,
            ),
        decreases bins.len() - i,
    {
        if !check_bin(&bins[i], channels, cursor, span.end) {
            return false;
        }
        cursor = bins[i].end;
        i = i + 1;
    }
    cursor == span.end
}

/// Where a bin of bins that cover their frames stands.
proof fn covering_bins_follow(
    bins: Seq<SummaryBin>,
    channels: int,
    start: u64,
    end: u64,
    i: int,
    k: int,
)
    requires
        0 <= i <= k < bins.len(),
        bins_cover(bins, channels, start, end, i),
    ensures
        start <= bins[k].start <= bins[k].end <= end,
        valid_bin(bins[k], channels, bins[k].start, end),
        i == k ==> bins[k].start == start,
        k + 1 < bins.len() ==> bins[k + 1].start == bins[k].end,
        k + 1 == bins.len() ==> bins[k].end == end,
    decreases k - i,
{
    reveal_with_fuel(bins_cover, 2);
    if i < k {
        covering_bins_follow(bins, channels, bins[i].end, end, i + 1, k);
    }
}

// ----- index --------------------------------------------------------------

/// The summaries of streamed media, one for a chunk.
#[derive(Debug)]
pub struct StreamingWaveformIndex {
    source: DecodedPcmDescriptor,
    products: BTreeMap<u64, WaveformChunkSideProduct>,
}

impl StreamingWaveformIndex {
    /// The media.
    pub closed spec fn described(&self) -> DecodedPcmDescriptor {
        self.source
    }

    /// The summaries, by chunk.
    pub closed spec fn published(&self) -> Map<u64, WaveformChunkSideProduct> {
        self.products@
    }

    /// Chunks have frames, and every summary is one of its chunk.
    pub open spec fn wf(&self) -> bool {
        &&& self.described().geometry.is_valid()
        &&& forall|chunk: u64| #[trigger]
            self.published().contains_key(chunk) ==> self.published()[chunk].index == chunk
                && product_fault(self.described(), self.published()[chunk]) is None
    }

    /// An index without summaries.
    pub fn new(source: DecodedPcmDescriptor) -> (r: StreamingWaveformIndex)
        requires
            source.geometry.is_valid(),
        ensures
            r.wf(),
            r.described() == source,
            r.published() == Map::<u64, WaveformChunkSideProduct>::empty(),
    {
        StreamingWaveformIndex { source, products: BTreeMap::new() }
    }

    /// The media.
    pub fn source(&self) -> (r: DecodedPcmDescriptor)
        ensures
            r == self.described(),
    {
        self.source
    }

    fn put(&mut self, index: u64, product: WaveformChunkSideProduct)
        ensures
            final(self).described() == old(self).described(),
            final(self).published() == old(self).published().insert(index, product),
    {
        broadcast use vstd::std_specs::btree::group_btree_axioms;
        broadcast use vstd::laws_cmp::group_laws_cmp;

        self.products.insert(index, product);
    }

    fn find(&self, index: u64) -> (r: Option<&WaveformChunkSideProduct>)
        ensures
            match r {
                Some(product) => self.published().contains_key(index) && self.published()[index]
                    == *product,
                None => !self.published().contains_key(index),
            },
    {
        broadcast use vstd::std_specs::btree::group_btree_axioms;
        broadcast use vstd::laws_cmp::group_laws_cmp;

        self.products.get(&index)
    }

    /// Takes the summary of a chunk; a summary that was there is replaced. One that
    /// does not fit changes nothing.
    pub fn publish(&mut self, product: WaveformChunkSideProduct) -> (r: Result<
        (),
        StreamingWaveformError,
    >)
        requires
            old(self).wf(),
        ensures
            final(self).wf(),
            final(self).described() == old(self).described(),
            match product_fault(old(self).described(), product) {
                Some(error) => r == Err::<(), StreamingWaveformError>(error) && final(
                    self).published() == old(self).published(),
                None => r == Ok::<(), StreamingWaveformError>(()) && final(self).published()
                    == old(self).published().insert(product.index, product),
            },
    {
        if product.pcm != self.source.id || product.geometry != self.source.geometry {
            return Err(StreamingWaveformError::SourceMismatch);
        }
        let span = match self.source.geometry.chunk_span(product.index, self.source.frame_count) {
            Ok(span) => span,
            Err(error) => {
                return Err(StreamingWaveformError::Streaming(error));
            },
        };
        if !check_bins(&product.bins, self.source.geometry.channels, span) {
            return Err(StreamingWaveformError::InvalidSideProduct);
        }
        self.put(product.index, product);
        Ok(())
    }

    /// The number of summaries.
    pub fn product_count(&self) -> (r: usize)
        ensures
            r == self.published().len(),
    {
        broadcast use vstd::std_specs::btree::group_btree_axioms;
        broadcast use vstd::laws_cmp::group_laws_cmp;

        self.products.len()
    }
}

// ----- plans --------------------------------------------------------------

/// A bin of a summary.
#[derive(Clone, Copy, Debug, PartialEq, Eq, Structural)]
pub struct SummaryRef {
    pub chunk: u64,
    pub bin: usize,
}

/// A part of a bin that is taken at once: from a summary, or from samples that are
/// read.
#[derive(Clone, Copy, Debug, PartialEq, Eq, Structural)]
pub struct StreamSegment {
    pub start: u64,
    pub end: u64,
    pub summary: Option<SummaryRef>,
}

/// The parts of a bin.
#[derive(Debug, PartialEq, Eq)]
pub struct StreamBin {
    pub start: u64,
    pub end: u64,
    pub segments: Vec<StreamSegment>,
}

/// What a query takes.
#[derive(Debug, PartialEq, Eq)]
pub struct StreamPlan {
    pub start: u64,
    pub end: u64,
    pub target_bins: usize,
    pub preferred_level: usize,
    pub bins: Vec<StreamBin>,
}

/// Where the segment before another ends.
pub open spec fn segment_before(segments: Seq<StreamSegment>, i: int) -> u64 {
    segments[i - 1].end
}

/// Whether segments cover the frames from one to another without gap or overlap, in
/// order.
pub open spec fn segments_tile(segments: Seq<StreamSegment>, start: u64, end: u64) -> bool {
    &&& segments.len() == 0 ==> start == end
    &&& segments.len() > 0 ==> segments[0].start == start && segments.last().end == end
    &&& forall|i: int| 0 <= i < segments.len() ==> (#[trigger] segments[i]).start < segments[i].end
    &&& forall|i: int|
        0 < i < segments.len() ==> (#[trigger] segments[i]).start == segment_before(segments, i)
}

/// Whether segments hold a summary bin.
pub open spec fn uses(segments: Seq<StreamSegment>, chunk: u64, bin: int) -> bool {
    exists|i: int|
        0 <= i < segments.len() && ((#[trigger] segments[i]).summary matches Some(summary)
            && summary.chunk == chunk && summary.bin == bin)
}

/// Whether a segment ends at a frame.
pub open spec fn cut_at(segments: Seq<StreamSegment>, frame: u64) -> bool {
    exists|i: int| 0 <= i < segments.len() && (#[trigger] segments[i]).end == frame
}

impl StreamingWaveformIndex {
    /// Whether a summary bin begins or ends at a frame.
    pub open spec fn touches(&self, chunk: u64, bin: int, frame: u64) -> bool {
        &&& self.published().contains_key(chunk)
        &&& 0 <= bin < self.published()[chunk].bins@.len()
        &&& (self.published()[chunk].bins@[bin].start == frame
            || self.published()[chunk].bins@[bin].end == frame)
    }

    /// Whether some summary bin begins or ends at a frame.
    pub open spec fn is_edge(&self, frame: u64) -> bool {
        exists|chunk: u64, bin: int| #[trigger] self.touches(chunk, bin, frame)
    }

    /// Whether a segment that is taken from a summary is all of a bin of it.
    pub open spec fn is_segment(&self, segment: StreamSegment) -> bool {
        segment.summary matches Some(summary) ==> {
            &&& self.published().contains_key(summary.chunk)
            &&& summary.bin < self.published()[summary.chunk].bins@.len()
            &&& self.published()[summary.chunk].bins@[summary.bin as int].start == segment.start
            &&& self.published()[summary.chunk].bins@[summary.bin as int].end == segment.end
        }
    }

    /// Whether a summary bin lies within some frames.
    pub open spec fn lies_within(&self, chunk: u64, bin: int, start: u64, end: u64) -> bool {
        &&& self.published().contains_key(chunk)
        &&& 0 <= bin < self.published()[chunk].bins@.len()
        &&& start <= self.published()[chunk].bins@[bin].start
        &&& self.published()[chunk].bins@[bin].start < self.published()[chunk].bins@[bin].end
        &&& self.published()[chunk].bins@[bin].end <= end
    }

    /// Whether the segments of a bin part exactly where, within the bin, a summary bin
    /// begins or ends.
    #[verifier::opaque]
    pub open spec fn parts_at_edges(&self, bin: StreamBin) -> bool {
        &&& forall|i: int|
            0 <= i < bin.segments@.len() ==> (#[trigger] bin.segments@[i]).end == bin.end
                || self.is_edge(bin.segments@[i].end)
        &&& forall|chunk: u64, k: int, frame: u64| #[trigger]
            self.touches(chunk, k, frame) && bin.start < frame < bin.end ==> cut_at(
                bin.segments@,
                frame,
            )
    }

    /// Whether a bin is covered as far as possible by summaries: its segments tile
    /// it, and every summary bin that lies within it is taken whole. Samples are
    /// read for nothing else, and a gap is read at once: within the bin, segments part
    /// exactly where a summary bin begins or ends.
    pub open spec fn is_stream_bin(&self, bin: StreamBin, start: int, end: int) -> bool {
        &&& bin.start == start
        &&& bin.end == end
        &&& segments_tile(bin.segments@, bin.start, bin.end)
        &&& forall|i: int|
            0 <= i < bin.segments@.len() ==> self.is_segment(#[trigger] bin.segments@[i])
        &&& forall|chunk: u64, k: int| #[trigger]
            self.lies_within(chunk, k, bin.start, bin.end) ==> uses(bin.segments@, chunk, k)
        &&& self.parts_at_edges(bin)
    }

    /// Why a query is refused.
    pub open spec fn query_fault(&self, start: u64, end: u64, target: usize) -> Option<
        StreamingWaveformError,
    > {
        if start >= end || end > self.described().frame_count {
            Some(StreamingWaveformError::RangeOutsideSource)
        } else if target == 0 {
            Some(StreamingWaveformError::ZeroTargetBins)
        } else if end > usize::MAX {
            Some(StreamingWaveformError::ArithmeticOverflow)
        } else {
            None
        }
    }

    /// Whether a query takes this: even bins, as many as asked for but none of them
    /// empty.
    pub open spec fn is_plan(&self, plan: StreamPlan) -> bool {
        let frames = plan.end - plan.start;
        let count = bin_total(frames, plan.target_bins as int);
        &&& self.query_fault(plan.start, plan.end, plan.target_bins) is None
        &&& plan.bins@.len() == count
        &&& is_floor_log2(frames_per_bin(frames, count), plan.preferred_level as int)
        &&& forall|i: int|
            0 <= i < count ==> self.is_stream_bin(
                #[trigger] plan.bins@[i],
                boundary(plan.start as int, frames, count, i),
                boundary(plan.start as int, frames, count, i + 1),
            )
    }
}

proof fn chunk_of_frame(geometry: PcmChunkGeometry, frame_count: u64, chunk: u64, frame: u64)
    requires
        geometry.is_valid(),
        geometry.span_of(chunk, frame_count) matches Some(span) && span.start <= frame < span.end,
    ensures
        frame / geometry.chunk_frames == chunk,
{
    let size = geometry.chunk_frames as int;
    assert(frame as int / size == chunk as int) by (nonlinear_arith)
        requires
            size > 0,
            chunk * size <= frame,
            frame < chunk * size + size,
    ;
}

proof fn later_frames_later_chunks(size: int, low: int, high: int)
    by (nonlinear_arith)
    requires
        size > 0,
        0 <= low <= high,
    ensures
        low / size <= high / size,
{
    let a = low / size;
    assert(a * size <= low);
    assert(a * size <= high);
    assert(high / size >= a);
}

fn push_segment(segments: &mut Vec<StreamSegment>, segment: StreamSegment, Ghost(start): Ghost<u64>)
    requires
        segments_tile(old(segments)@, start, segment.start),
        segment.start < segment.end,
    ensures
        final(segments)@ == old(segments)@.push(segment),
        segments_tile(final(segments)@, start, segment.end),
{
    let ghost before = segments@;
    segments.push(segment);
    proof {
        let after = segments@;
        assert forall|i: int| 0 < i < after.len() implies (#[trigger] after[i]).start
            == segment_before(after, i) by {
            if i < before.len() {
                assert(after[i] == before[i]);
                assert(before[i].start == segment_before(before, i));
            }
        }
    }
}

proof fn uses_stay(before: Seq<StreamSegment>, after: Seq<StreamSegment>, chunk: u64, bin: int)
    requires
        uses(before, chunk, bin),
        before.len() <= after.len(),
        forall|i: int| 0 <= i < before.len() ==> after[i] == #[trigger] before[i],
    ensures
        uses(after, chunk, bin),
{
    let i = choose|i: int|
        0 <= i < before.len() && ((#[trigger] before[i]).summary matches Some(summary)
            && summary.chunk == chunk && summary.bin == bin);
    assert(after[i].summary == before[i].summary);
}

proof fn cuts_stay(before: Seq<StreamSegment>, after: Seq<StreamSegment>, frame: u64)
    requires
        cut_at(before, frame),
        before.len() <= after.len(),
        forall|i: int| 0 <= i < before.len() ==> after[i] == #[trigger] before[i],
    ensures
        cut_at(after, frame),
{
    let i = choose|i: int| 0 <= i < before.len() && (#[trigger] before[i]).end == frame;
    assert(after[i].end == frame);
}

impl StreamingWaveformIndex {
    fn take_chunk(
        &self,
        segments: &mut Vec<StreamSegment>,
        product: &WaveformChunkSideProduct,
        chunk: u64,
        bin_start: u64,
        bin_end: u64,
        cursor: u64,
    ) -> (r: u64)
        requires
            self.wf(),
            self.published().contains_key(chunk),
            self.published()[chunk] == *product,
            bin_start < bin_end,
            bin_start <= cursor <= bin_end,
            segments_tile(old(segments)@, bin_start, cursor),
            forall|i: int|
                0 <= i < old(segments)@.len() ==> self.is_segment(#[trigger] old(segments)@[i]),
            forall|i: int|
                0 <= i < old(segments)@.len() ==> (#[trigger] old(segments)@[i]).end == bin_end
                    || self.is_edge(old(segments)@[i].end),
            self.described().geometry.span_of(chunk, self.described().frame_count) matches Some(
                span,
            ) && (cursor <= bin_start || cursor <= span.start),
        ensures
            bin_start <= r <= bin_end,
            segments_tile(final(segments)@, bin_start, r),
            forall|i: int|
                0 <= i < final(segments)@.len() ==> self.is_segment(
                    #[trigger] final(segments)@[i],
                ),
            forall|i: int|
                0 <= i < final(segments)@.len() ==> (#[trigger] final(segments)@[i]).end == bin_end
                    || self.is_edge(final(segments)@[i].end),
            forall|k: int, frame: u64| #[trigger]
                self.touches(chunk, k, frame) && bin_start < frame < bin_end ==> cut_at(
                    final(segments)@,
                    frame,
                ),
            old(segments)@.len() <= final(segments)@.len(),
            forall|i: int|
                0 <= i < old(segments)@.len() ==> final(segments)@[i] == #[trigger] old(
                    segments,
                )@[i],
            self.described().geometry.span_of(chunk, self.described().frame_count) matches Some(
                span,
            ) && (r <= bin_start || r <= span.end),
            forall|k: int| #[trigger]
                self.lies_within(chunk, k, bin_start, bin_end) ==> uses(
                    final(segments)@,
                    chunk,
                    k,
                ),
    {
        let ghost geometry = self.described().geometry;
        let ghost span = geometry.span_of(chunk, self.described().frame_count)->0;
        let ghost bins = product.bins@;
        let ghost channels = geometry.channels as int;
        let ghost first = segments@;
        assert(product_fault(self.described(), self.published()[chunk]) is None);
        let mut cursor: u64 = cursor;
        let mut j: usize = 0;
        proof {
            if bins.len() > 0 {
                covering_bins_follow(bins, channels, span.start, span.end, 0, 0);
            }
        }
        while j < product.bins.len()
            invariant
                self.wf(),
                self.published().contains_key(chunk),
                self.published()[chunk] == *product,
                bins == product.bins@,
                bins_cover(bins, channels, span.start, span.end, 0),
                j <= bins.len(),
                channels > 0,
                bin_start < bin_end,
                bin_start <= cursor <= bin_end,
                j < bins.len() ==> cursor <= bin_start || cursor <= bins[j as int].start,
                j == bins.len() ==> cursor <= bin_start || cursor <= span.end,
                segments_tile(segments@, bin_start, cursor),
                first.len() <= segments@.len(),
                forall|i: int|
                    0 <= i < first.len() ==> segments@[i] == #[trigger] first[i],
                forall|i: int|
                    0 <= i < segments@.len() ==> self.is_segment(#[trigger] segments@[i]),
                forall|k: int|
                    0 <= k < j && #[trigger] self.lies_within(chunk, k, bin_start, bin_end)
                        ==> uses(segments@, chunk, k),
                forall|i: int|
                    0 <= i < segments@.len() ==> (#[trigger] segments@[i]).end == bin_end
                        || self.is_edge(segments@[i].end),
                forall|k: int, frame: u64|
                    0 <= k < j && #[trigger] self.touches(chunk, k, frame) && bin_start < frame
                        < bin_end ==> cut_at(segments@, frame),
            decreases product.bins.len() - j,
        {
            let ghost before = segments@;
            let start: u64 = product.bins[j].start;
            let end: u64 = product.bins[j].end;
            proof {
                covering_bins_follow(bins, channels, span.start, span.end, 0, j as int);
                assert(valid_envelope(bins[j as int].channels@[0], end - start));
            }
            let ghost earlier = cursor;
            assert(self.touches(chunk, j as int, start));
            assert(self.touches(chunk, j as int, end));
            if end > cursor && start < bin_end {
                let overlap_start: u64 = if start > cursor {
                    start
                } else {
                    cursor
                };
                if cursor < overlap_start {
                    push_segment(
                        segments,
                        StreamSegment { start: cursor, end: overlap_start, summary: None },
                        Ghost(bin_start),
                    );
                }
                let overlap_end: u64 = if end < bin_end {
                    end
                } else {
                    bin_end
                };
                let summary = if overlap_start == start && overlap_end == end {
                    Some(SummaryRef { chunk, bin: j })
                } else {
                    None
                };
                push_segment(
                    segments,
                    StreamSegment { start: overlap_start, end: overlap_end, summary },
                    Ghost(bin_start),
                );
                cursor = overlap_end;
                proof {
                    if self.lies_within(chunk, j as int, bin_start, bin_end) {
                        let last = segments@.len() - 1;
                        assert(segments@[last].summary == Some(SummaryRef { chunk, bin: j }));
                        assert(uses(segments@, chunk, j as int));
                    }
                }
            }
            proof {
                assert forall|k: int|
                    0 <= k < j + 1 && #[trigger] self.lies_within(
                        chunk,
                        k,
                        bin_start,
                        bin_end,
                    ) implies uses(segments@, chunk, k) by {
                    if k < j {
                        uses_stay(before, segments@, chunk, k);
                    }
                }
                assert forall|k: int, frame: u64|
                    0 <= k < j + 1 && #[trigger] self.touches(chunk, k, frame) && bin_start
                        < frame < bin_end implies cut_at(segments@, frame) by {
                    if k < j {
                        cuts_stay(before, segments@, frame);
                    } else if frame == end {
                        assert(segments@[segments@.len() - 1].end == end);
                    } else if start > earlier {
                        assert(segments@[before.len() as int].end == start);
                    } else {
                        assert(earlier == start);
                        assert(before.last().end == start);
                        assert(cut_at(before, start));
                        cuts_stay(before, segments@, start);
                    }
                }
            }
            j = j + 1;
        }
        cursor
    }

    fn plan_bin(&self, start: u64, end: u64) -> (r: StreamBin)
        requires
            self.wf(),
            start < end <= self.described().frame_count,
        ensures
            self.is_stream_bin(r, start as int, end as int),
    {
        let size: u64 = self.source.geometry.chunk_frames;
        let first: u64 = start / size;
        let last: u64 = (end - 1) / size;
        let mut segments: Vec<StreamSegment> = Vec::new();
        let mut cursor: u64 = start;
        let mut chunk: u64 = first;
        let mut more = true;
        let ghost geometry = self.described().geometry;
        let ghost frames = self.described().frame_count;
        proof {
            later_frames_later_chunks(size as int, start as int, end - 1);
        }
        while more
            invariant
                self.wf(),
                geometry == self.described().geometry,
                frames == self.described().frame_count,
                size == geometry.chunk_frames,
                size > 0,
                start < end <= frames,
                first == start / size,
                last == (end - 1) as u64 / size,
                first <= chunk,
                more ==> chunk <= last,
                start <= cursor <= end,
                segments_tile(segments@, start, cursor),
                more ==> cursor <= start || cursor <= chunk * size,
                forall|i: int|
                    0 <= i < segments@.len() ==> self.is_segment(#[trigger] segments@[i]),
                forall|c: u64, k: int|
                    first <= c && (if more {
                        c < chunk
                    } else {
                        c <= last
                    }) && #[trigger] self.lies_within(c, k, start, end) ==> uses(
                        segments@,
                        c,
                        k,
                    ),
                forall|i: int|
                    0 <= i < segments@.len() ==> (#[trigger] segments@[i]).end == end
                        || self.is_edge(segments@[i].end),
                forall|c: u64, k: int, frame: u64|
                    first <= c && (if more {
                        c < chunk
                    } else {
                        c <= last
                    }) && #[trigger] self.touches(c, k, frame) && start < frame < end ==> cut_at(
                        segments@,
                        frame,
                    ),
            decreases
                (if more {
                    last - chunk + 1
                } else {
                    0
                }),
        {
            let ghost before = segments@;
            let ghost old_cursor = cursor;
            proof {
                assert(chunk * size <= last * size) by (nonlinear_arith)
                    requires
                        chunk <= last,
                        size > 0,
                ;
                assert(last * size <= end - 1) by (nonlinear_arith)
                    requires
                        last == (end - 1) / (size as int),
                        size > 0,
                ;
            }
            match self.find(chunk) {
                Some(product) => {
                    assert(self.published()[chunk].index == chunk);
                    cursor = self.take_chunk(
                        &mut segments,
                        product,
                        chunk,
                        start,
                        end,
                        cursor,
                    );
                },
                None => {},
            }
            proof {
                assert((chunk + 1) * size == chunk * size + size) by (nonlinear_arith);
                assert forall|c: u64, k: int|
                    first <= c <= chunk && #[trigger] self.lies_within(
                        c,
                        k,
                        start,
                        end,
                    ) implies uses(segments@, c, k) by {
                    if c < chunk {
                        uses_stay(before, segments@, c, k);
                    }
                }
                assert forall|c: u64, k: int, frame: u64|
                    first <= c <= chunk && #[trigger] self.touches(c, k, frame) && start < frame
                        < end implies cut_at(segments@, frame) by {
                    if c < chunk {
                        cuts_stay(before, segments@, frame);
                    }
                }
            }
            if chunk == last {
                more = false;
            } else {
                chunk = chunk + 1;
            }
        }
        let ghost covered = segments@;
        if cursor < end {
            push_segment(
                &mut segments,
                StreamSegment { start: cursor, end, summary: None },
                Ghost(start),
            );
        }
        proof {
            assert forall|c: u64, k: int| #[trigger]
                self.lies_within(c, k, start, end) implies uses(segments@, c, k) by {
                let product = self.published()[c];
                assert(product.index == c && product_fault(self.described(), product) is None);
                let span = geometry.span_of(c, frames)->0;
                covering_bins_follow(
                    product.bins@,
                    geometry.channels as int,
                    span.start,
                    span.end,
                    0,
                    k,
                );
                let frame = product.bins@[k].start;
                chunk_of_frame(geometry, frames, c, frame);
                later_frames_later_chunks(size as int, start as int, frame as int);
                later_frames_later_chunks(size as int, frame as int, end - 1);
                uses_stay(covered, segments@, c, k);
            }
            assert forall|c: u64, k: int, frame: u64| #[trigger]
                self.touches(c, k, frame) && start < frame < end implies cut_at(
                segments@,
                frame,
            ) by {
                let product = self.published()[c];
                assert(product.index == c && product_fault(self.described(), product) is None);
                let span = geometry.span_of(c, frames)->0;
                covering_bins_follow(
                    product.bins@,
                    geometry.channels as int,
                    span.start,
                    span.end,
                    0,
                    k,
                );
                assert(valid_envelope(
                    product.bins@[k].channels@[0],
                    product.bins@[k].end - product.bins@[k].start,
                ));
                let within = if product.bins@[k].start == frame {
                    frame
                } else {
                    (frame - 1) as u64
                };
                chunk_of_frame(geometry, frames, c, within);
                later_frames_later_chunks(size as int, start as int, within as int);
                later_frames_later_chunks(size as int, within as int, end - 1);
                cuts_stay(covered, segments@, frame);
            }
        }
        let bin = StreamBin { start, end, segments };
        assert(self.parts_at_edges(bin)) by {
            reveal(StreamingWaveformIndex::parts_at_edges);
        }
        bin
    }

    fn plan_bins(&self, start_frame: u64, frames: u64, count: u64) -> (r: Vec<StreamBin>)
        requires
            self.wf(),
            1 <= count <= frames,
            start_frame + frames <= self.described().frame_count,
        ensures
            r@.len() == count,
            forall|i: int|
                0 <= i < count ==> self.is_stream_bin(
                    #[trigger] r@[i],
                    boundary(start_frame as int, frames as int, count as int, i),
                    boundary(start_frame as int, frames as int, count as int, i + 1),
                ),
    {
        let mut bins: Vec<StreamBin> = Vec::new();
        let mut i: u64 = 0;
        proof {
            bins_tile_their_range(start_frame as int, frames as int, count as int);
        }
        while i < count
            invariant
                self.wf(),
                1 <= count <= frames,
                start_frame + frames <= self.described().frame_count,
                i <= count,
                bins@.len() == i,
                forall|k: int|
                    0 <= k < count ==> #[trigger] boundary(
                        start_frame as int,
                        frames as int,
                        count as int,
                        k,
                    ) < boundary(start_frame as int, frames as int, count as int, k + 1),
                forall|k: int|
                    0 <= k < i ==> self.is_stream_bin(
                        #[trigger] bins@[k],
                        boundary(start_frame as int, frames as int, count as int, k),
                        boundary(start_frame as int, frames as int, count as int, k + 1),
                    ),
            decreases count - i,
        {
            let bin_start: u64 = bin_boundary(start_frame, frames, count, i);
            let bin_end: u64 = bin_boundary(start_frame, frames, count, i + 1);
            proof {
                bins_stay_within(start_frame as int, frames as int, count as int, i + 1);
                assert(boundary(start_frame as int, frames as int, count as int, i as int)
                    < boundary(start_frame as int, frames as int, count as int, i + 1));
            }
            bins.push(self.plan_bin(bin_start, bin_end));
            i = i + 1;
        }
        bins
    }

    /// Plans a query: even bins, none of them empty, each with the summaries it is
    /// taken from and the frames that have to be read.
    pub fn plan_query(&self, start_frame: u64, end_frame: u64, target_bins: usize) -> (r: Result<
        StreamPlan,
        StreamingWaveformError,
    >)
        requires
            self.wf(),
        ensures
            match self.query_fault(start_frame, end_frame, target_bins) {
                Some(error) => r == Err::<StreamPlan, StreamingWaveformError>(error),
                None => {
                    &&& r matches Ok(plan)
                    &&& plan.start == start_frame
                    &&& plan.end == end_frame
                    &&& plan.target_bins == target_bins
                    &&& self.is_plan(plan)
                },
            },
    {
        if start_frame >= end_frame || end_frame > self.source.frame_count {
            return Err(StreamingWaveformError::RangeOutsideSource);
        }
        if target_bins == 0 {
            return Err(StreamingWaveformError::ZeroTargetBins);
        }
        if end_frame > usize::MAX as u64 {
            return Err(StreamingWaveformError::ArithmeticOverflow);
        }
        let frames: u64 = end_frame - start_frame;
        let count: u64 = if (target_bins as u64) < frames {
            target_bins as u64
        } else {
            frames
        };
        let per_bin: u64 = bin_width(frames, count);
        let preferred_level: usize = floor_log2(per_bin);
        let bins = self.plan_bins(start_frame, frames, count);
        Ok(
            StreamPlan { start: start_frame, end: end_frame, target_bins, preferred_level, bins },
        )
    }
}

// ----- reads --------------------------------------------------------------

/// What is read for the first `i` segments, in order.
pub open spec fn due(segments: Seq<StreamSegment>, i: int) -> Seq<PcmSpan>
    decreases i,
{
    if i <= 0 {
        Seq::empty()
    } else if segments[i - 1].summary is None {
        due(segments, i - 1).push(
            PcmSpan { start: segments[i - 1].start, end: segments[i - 1].end },
        )
    } else {
        due(segments, i - 1)
    }
}

/// What is read for the first `i` bins, in order.
pub open spec fn due_for(bins: Seq<StreamBin>, i: int) -> Seq<PcmSpan>
    decreases i,
{
    if i <= 0 {
        Seq::empty()
    } else {
        due_for(bins, i - 1) + due(bins[i - 1].segments@, bins[i - 1].segments@.len() as int)
    }
}

impl StreamPlan {
    /// What is read, in order.
    pub open spec fn due_reads(&self) -> Seq<PcmSpan> {
        due_for(self.bins@, self.bins@.len() as int)
    }

    /// What is read, in order.
    pub fn reads(&self) -> (r: Vec<PcmSpan>)
        ensures
            r@ == self.due_reads(),
    {
        let mut spans: Vec<PcmSpan> = Vec::new();
        let mut i: usize = 0;
        while i < self.bins.len()
            invariant
                i <= self.bins.len(),
                spans@ == due_for(self.bins@, i as int),
            decreases self.bins.len() - i,
        {
            let segments = &self.bins[i].segments;
            let ghost before = spans@;
            let mut j: usize = 0;
            while j < segments.len()
                invariant
                    j <= segments.len(),
                    spans@ == before + due(segments@, j as int),
                decreases segments.len() - j,
            {
                if segments[j].summary.is_none() {
                    spans.push(PcmSpan { start: segments[j].start, end: segments[j].end });
                }
                j = j + 1;
                assert(spans@ =~= before + due(segments@, j as int));
            }
            i = i + 1;
        }
        spans
    }
}

/// Why a read cannot be used: it failed, it is too large, it has another number of
/// samples, or a sample of it is no finite number.
pub open spec fn read_fault(
    channels: u16,
    span: PcmSpan,
    read: Result<Vec<u32>, StreamingWaveformError>,
) -> Option<StreamingWaveformError> {
    match read {
        Err(error) => Some(error),
        Ok(pcm) => {
            let expected = (span.end - span.start) * channels;
            if expected > usize::MAX {
                Some(StreamingWaveformError::ArithmeticOverflow)
            } else if pcm@.len() != expected {
                Some(
                    StreamingWaveformError::PcmSampleCount {
                        expected: expected as usize,
                        actual: pcm@.len() as usize,
                    },
                )
            } else {
                match first_unclean(pcm@, 0) {
                    Some(i) => Some(
                        StreamingWaveformError::NonFinitePcm { sample_index: i as usize },
                    ),
                    None => None,
                }
            }
        },
    }
}

/// Why the reads from `i` on cannot be used: what is wrong with the first of them
/// that something is wrong with.
pub open spec fn reads_fault(
    channels: u16,
    spans: Seq<PcmSpan>,
    reads: Seq<Result<Vec<u32>, StreamingWaveformError>>,
    i: int,
) -> Option<StreamingWaveformError>
    decreases reads.len() - i,
{
    if i < 0 || i >= reads.len() {
        None
    } else {
        match read_fault(channels, spans[i], reads[i]) {
            Some(error) => Some(error),
            None => reads_fault(channels, spans, reads, i + 1),
        }
    }
}

/// Whether a read of some frames gave what it had to, or why not: the samples that are
/// due, all of them finite.
pub fn check_read(
    channels: u16,
    span: PcmSpan,
    read: &Result<Vec<u32>, StreamingWaveformError>,
) -> (r: Option<StreamingWaveformError>)
    requires
        span.start <= span.end,
    ensures
        r == read_fault(channels, span, *read),
{
    let pcm = match read {
        Ok(pcm) => pcm,
        Err(error) => {
            return Some(*error);
        },
    };
    let frames: u64 = span.end - span.start;
    proof {
        assert(0 <= frames * channels <= 0xffff_ffff_ffff_ffff * 0xffff) by (nonlinear_arith)
            requires
                0 <= frames <= 0xffff_ffff_ffff_ffff,
                0 <= channels <= 0xffff,
        ;
    }
    let expected: u128 = frames as u128 * channels as u128;
    if expected > usize::MAX as u128 {
        return Some(StreamingWaveformError::ArithmeticOverflow);
    }
    if pcm.len() as u128 != expected {
        return Some(
            StreamingWaveformError::PcmSampleCount {
                expected: expected as usize,
                actual: pcm.len(),
            },
        );
    }
    match find_unclean(pcm) {
        Some(sample_index) => Some(StreamingWaveformError::NonFinitePcm { sample_index }),
        None => None,
    }
}

// ----- answers ------------------------------------------------------------

/// What a summary says about the extremes of a channel.
pub open spec fn summarized(envelope: SummaryEnvelope) -> ChannelExtremes {
    ChannelExtremes {
        min_bits: envelope.min_bits,
        max_bits: envelope.max_bits,
        frames: envelope.frames as usize,
    }
}

/// The extremes of the first `i` parts together.
pub open spec fn joined_parts(parts: Seq<ChannelExtremes>, i: int) -> ChannelExtremes
    decreases i,
{
    if i <= 0 {
        ChannelExtremes { min_bits: 0, max_bits: 0, frames: 0 }
    } else {
        joined(joined_parts(parts, i - 1), parts[i - 1])
    }
}

impl StreamingWaveformIndex {
    /// Whether these are the extremes of a channel over a segment: what the summary
    /// says, or those of the samples that were read.
    pub open spec fn is_part(
        &self,
        segment: StreamSegment,
        read: Result<Vec<u32>, StreamingWaveformError>,
        channel: int,
        part: ChannelExtremes,
    ) -> bool {
        match segment.summary {
            Some(summary) => part == summarized(
                self.published()[summary.chunk].bins@[summary.bin as int].channels@[channel],
            ),
            None => are_extremes(
                read->Ok_0@,
                self.described().geometry.channels as int,
                channel,
                0,
                segment.end - segment.start,
                part,
            ),
        }
    }

    /// Whether these are the extremes of a channel over each of the segments; `first`
    /// is the first read for them.
    pub open spec fn are_parts(
        &self,
        segments: Seq<StreamSegment>,
        reads: Seq<Result<Vec<u32>, StreamingWaveformError>>,
        first: int,
        channel: int,
        parts: Seq<ChannelExtremes>,
    ) -> bool {
        &&& parts.len() == segments.len()
        &&& forall|j: int|
            0 <= j < segments.len() ==> self.is_part(
                #[trigger] segments[j],
                reads[first + due(segments, j).len()],
                channel,
                parts[j],
            )
    }

    /// Whether these are the extremes of a channel over the segments together.
    pub open spec fn are_joined(
        &self,
        segments: Seq<StreamSegment>,
        reads: Seq<Result<Vec<u32>, StreamingWaveformError>>,
        first: int,
        channel: int,
        extremes: ChannelExtremes,
    ) -> bool {
        exists|parts: Seq<ChannelExtremes>| #[trigger]
            self.are_parts(segments, reads, first, channel, parts) && extremes == joined_parts(
                parts,
                parts.len() as int,
            )
    }

    /// Whether a bin holds the extremes of every channel, put together from summaries
    /// and reads.
    pub open spec fn is_answer(
        &self,
        plan: StreamBin,
        reads: Seq<Result<Vec<u32>, StreamingWaveformError>>,
        first: int,
        bin: WaveformBin,
    ) -> bool {
        &&& bin.start_frame == plan.start
        &&& bin.end_frame == plan.end
        &&& bin.channels@.len() == self.described().geometry.channels
        &&& forall|c: int|
            0 <= c < bin.channels@.len() ==> self.are_joined(
                plan.segments@,
                reads,
                first,
                c,
                #[trigger] bin.channels@[c],
            )
    }

    /// Whether a query answers a plan whose reads can all be used.
    pub open spec fn answers(
        &self,
        plan: StreamPlan,
        reads: Seq<Result<Vec<u32>, StreamingWaveformError>>,
        query: WaveformQuery,
    ) -> bool {
        &&& query.start_frame == plan.start
        &&& query.end_frame == plan.end
        &&& query.preferred_level == plan.preferred_level
        &&& query.bins@.len() == plan.bins@.len()
        &&& forall|i: int|
            0 <= i < plan.bins@.len() ==> self.is_answer(
                #[trigger] plan.bins@[i],
                reads,
                due_for(plan.bins@, i).len() as int,
                query.bins@[i],
            )
    }
}

proof fn due_grows(segments: Seq<StreamSegment>, i: int, n: int)
    requires
        0 <= i <= n,
    ensures
        due(segments, i).len() <= due(segments, n).len(),
        forall|k: int|
            0 <= k < due(segments, i).len() ==> due(segments, n)[k] == #[trigger] due(
                segments,
                i,
            )[k],
    decreases n - i,
{
    if i < n {
        due_grows(segments, i, n - 1);
    }
}

proof fn due_for_grows(bins: Seq<StreamBin>, i: int, n: int)
    requires
        0 <= i <= n,
    ensures
        due_for(bins, i).len() <= due_for(bins, n).len(),
        forall|k: int|
            0 <= k < due_for(bins, i).len() ==> due_for(bins, n)[k] == #[trigger] due_for(
                bins,
                i,
            )[k],
    decreases n - i,
{
    if i < n {
        due_for_grows(bins, i, n - 1);
    }
}

proof fn joined_parts_stay(parts: Seq<ChannelExtremes>, more: Seq<ChannelExtremes>, i: int)
    requires
        0 <= i <= parts.len() <= more.len(),
        forall|k: int| 0 <= k < i ==> parts[k] == #[trigger] more[k],
    ensures
        joined_parts(parts, i) == joined_parts(more, i),
    decreases i,
{
    if i > 0 {
        joined_parts_stay(parts, more, i - 1);
    }
}

/// What every row says about a column.
spec fn column(rows: Seq<Seq<ChannelExtremes>>, c: int) -> Seq<ChannelExtremes> {
    Seq::new(rows.len(), |j: int| rows[j][c])
}

proof fn column_grows(rows: Seq<Seq<ChannelExtremes>>, row: Seq<ChannelExtremes>, c: int)
    ensures
        joined_parts(column(rows.push(row), c), rows.len() as int + 1) == joined(
            joined_parts(column(rows, c), rows.len() as int),
            row[c],
        ),
{
    let before = column(rows, c);
    let after = column(rows.push(row), c);
    assert forall|k: int| 0 <= k < rows.len() implies before[k] == #[trigger] after[k] by {
        assert(rows.push(row)[k] == rows[k]);
    }
    joined_parts_stay(before, after, rows.len() as int);
}

fn join_rows(row: &Vec<ChannelExtremes>, other: &Vec<ChannelExtremes>) -> (r: Vec<
    ChannelExtremes,
>)
    requires
        row@.len() == other@.len(),
        forall|c: int|
            0 <= c < row@.len() ==> (#[trigger] row@[c]).frames + other@[c].frames <= usize::MAX,
    ensures
        r@.len() == row@.len(),
        forall|c: int| 0 <= c < row@.len() ==> #[trigger] r@[c] == joined(row@[c], other@[c]),
{
    let mut result: Vec<ChannelExtremes> = Vec::new();
    let mut c: usize = 0;
    while c < row.len()
        invariant
            c <= row.len(),
            row@.len() == other@.len(),
            result@.len() == c,
            forall|k: int|
                0 <= k < row@.len() ==> (#[trigger] row@[k]).frames + other@[k].frames
                    <= usize::MAX,
            forall|k: int| 0 <= k < c ==> #[trigger] result@[k] == joined(row@[k], other@[k]),
        decreases row.len() - c,
    {
        assert(row@[c as int].frames + other@[c as int].frames <= usize::MAX);
        result.push(join_extremes(row[c], other[c]));
        c = c + 1;
    }
    result
}

/// Where a segment begins, or the last one ends.
spec fn segment_edge(segments: Seq<StreamSegment>, start: u64, i: int) -> u64 {
    if i <= 0 {
        start
    } else {
        segments[i - 1].end
    }
}

impl StreamingWaveformIndex {
    fn summary_row(&self, summary: SummaryRef) -> (r: Vec<ChannelExtremes>)
        requires
            self.wf(),
            self.published().contains_key(summary.chunk),
            summary.bin < self.published()[summary.chunk].bins@.len(),
        ensures
            ({
                let bin = self.published()[summary.chunk].bins@[summary.bin as int];
                &&& r@.len() == self.described().geometry.channels
                &&& bin.channels@.len() == r@.len()
                &&& forall|c: int|
                    0 <= c < r@.len() ==> #[trigger] r@[c] == summarized(bin.channels@[c])
                        && r@[c].frames == bin.end - bin.start
            }),
    {
        let product = match self.find(summary.chunk) {
            Some(product) => product,
            None => vstd::pervasive::unreached(),
        };
        let ghost geometry = self.described().geometry;
        let ghost span = geometry.span_of(summary.chunk, self.described().frame_count)->0;
        let ghost k = summary.bin as int;
        proof {
            assert(product.index == summary.chunk);
            assert(product_fault(self.described(), *product) is None);
            covering_bins_follow(
                product.bins@,
                geometry.channels as int,
                span.start,
                span.end,
                0,
                k,
            );
        }
        let envelopes = &product.bins[summary.bin].channels;
        let mut row: Vec<ChannelExtremes> = Vec::new();
        let mut c: usize = 0;
        while c < envelopes.len()
            invariant
                c <= envelopes.len(),
                k == summary.bin,
                k < product.bins@.len(),
                *envelopes == product.bins@[k].channels,
                valid_bin(
                    product.bins@[k],
                    geometry.channels as int,
                    product.bins@[k].start,
                    span.end,
                ),
                row@.len() == c,
                forall|i: int|
                    0 <= i < c ==> #[trigger] row@[i] == summarized(envelopes@[i])
                        && row@[i].frames == product.bins@[k].end - product.bins@[k].start,
            decreases envelopes.len() - c,
        {
            let envelope = envelopes[c];
            assert(valid_envelope(
                product.bins@[k].channels@[c as int],
                product.bins@[k].end - product.bins@[k].start,
            ));
            row.push(
                ChannelExtremes {
                    min_bits: envelope.min_bits,
                    max_bits: envelope.max_bits,
                    frames: envelope.frames as usize,
                },
            );
            c = c + 1;
        }
        row
    }

    fn segment_row(
        &self,
        segment: StreamSegment,
        read: Option<&Result<Vec<u32>, StreamingWaveformError>>,
        Ghost(at): Ghost<Result<Vec<u32>, StreamingWaveformError>>,
    ) -> (r: Vec<ChannelExtremes>)
        requires
            self.wf(),
            self.is_segment(segment),
            segment.start < segment.end,
            segment.summary is None ==> read is Some && *read->0 == at && read_fault(
                self.described().geometry.channels,
                PcmSpan { start: segment.start, end: segment.end },
                at,
            ) is None,
        ensures
            r@.len() == self.described().geometry.channels,
            forall|c: int|
                0 <= c < r@.len() ==> self.is_part(segment, at, c, #[trigger] r@[c]) && r@[c].frames
                    == segment.end - segment.start,
    {
        match segment.summary {
            Some(summary) => self.summary_row(summary),
            None => {
                let pcm = match read {
                    Some(Ok(pcm)) => pcm,
                    _ => vstd::pervasive::unreached(),
                };
                let channels: usize = self.source.geometry.channels as usize;
                let frames: u64 = segment.end - segment.start;
                proof {
                    assert(frames <= frames * channels) by (nonlinear_arith)
                        requires
                            channels > 0,
                            frames >= 0,
                    ;
                }
                aggregate_samples(pcm, channels, 0, frames as usize)
            },
        }
    }

    #[verifier::rlimit(40)]
    fn answer_bin(
        &self,
        bin: &StreamBin,
        reads: &Vec<Result<Vec<u32>, StreamingWaveformError>>,
        first: usize,
        Ghost(spans): Ghost<Seq<PcmSpan>>,
    ) -> (r: Result<(WaveformBin, usize), StreamingWaveformError>)
        requires
            self.wf(),
            self.is_stream_bin(*bin, bin.start as int, bin.end as int),
            bin.start < bin.end <= usize::MAX,
            spans.len() <= usize::MAX,
            first + due(bin.segments@, bin.segments@.len() as int).len() <= spans.len(),
            forall|k: int|
                0 <= k < due(bin.segments@, bin.segments@.len() as int).len() ==> spans[first + k]
                    == #[trigger] due(bin.segments@, bin.segments@.len() as int)[k],
            reads@.len() == spans.len() || reads_fault(
                self.described().geometry.channels,
                spans,
                reads@,
                first as int,
            ) is Some,
        ensures
            match r {
                Ok((answer, next)) => {
                    &&& self.is_answer(*bin, reads@, first as int, answer)
                    &&& next == first + due(bin.segments@, bin.segments@.len() as int).len()
                    &&& reads_fault(
                        self.described().geometry.channels,
                        spans,
                        reads@,
                        first as int,
                    ) == reads_fault(
                        self.described().geometry.channels,
                        spans,
                        reads@,
                        next as int,
                    )
                },
                Err(error) => reads_fault(
                    self.described().geometry.channels,
                    spans,
                    reads@,
                    first as int,
                ) == Some(error),
            },
    {
        let channels: u16 = self.source.geometry.channels;
        let ghost segments = bin.segments@;
        let ghost all = due(segments, segments.len() as int);
        let ghost mut rows: Seq<Seq<ChannelExtremes>> = Seq::empty();
        let mut extremes: Vec<ChannelExtremes> = Vec::new();
        let mut c: u16 = 0;
        while c < channels
            invariant
                c <= channels,
                extremes@.len() == c,
                forall|k: int|
                    0 <= k < c ==> #[trigger] extremes@[k] == (ChannelExtremes {
                        min_bits: 0,
                        max_bits: 0,
                        frames: 0,
                    }),
            decreases channels - c,
        {
            extremes.push(ChannelExtremes { min_bits: 0, max_bits: 0, frames: 0 });
            c = c + 1;
        }
        let mut next: usize = first;
        let mut j: usize = 0;
        while j < bin.segments.len()
            invariant
                self.wf(),
                self.is_stream_bin(*bin, bin.start as int, bin.end as int),
                bin.start < bin.end <= usize::MAX,
                spans.len() <= usize::MAX,
                channels == self.described().geometry.channels,
                segments == bin.segments@,
                all == due(segments, segments.len() as int),
                first + all.len() <= spans.len(),
                forall|k: int| 0 <= k < all.len() ==> spans[first + k] == #[trigger] all[k],
                reads@.len() == spans.len() || reads_fault(
                    channels,
                    spans,
                    reads@,
                    first as int,
                ) is Some,
                j <= segments.len(),
                next == first + due(segments, j as int).len(),
                reads_fault(channels, spans, reads@, first as int) == reads_fault(
                    channels,
                    spans,
                    reads@,
                    next as int,
                ),
                rows.len() == j,
                extremes@.len() == channels,
                forall|c: int, k: int|
                    0 <= c < channels && 0 <= k < j ==> self.is_part(
                        segments[k],
                        reads@[first + due(segments, k).len()],
                        c,
                        #[trigger] rows[k][c],
                    ),
                forall|c: int|
                    0 <= c < channels ==> #[trigger] extremes@[c] == joined_parts(
                        column(rows, c),
                        j as int,
                    ),
                forall|c: int|
                    0 <= c < channels ==> (#[trigger] extremes@[c]).frames == segment_edge(
                        segments,
                        bin.start,
                        j as int,
                    ) - bin.start,
            decreases bin.segments.len() - j,
        {
            let segment = bin.segments[j];
            let ghost at = reads@[next as int];
            proof {
                due_grows(segments, j + 1, segments.len() as int);
                assert(segments[j as int].start < segments[j as int].end);
                assert(self.is_segment(segments[j as int]));
                assert(segments[j as int].start == segment_edge(segments, bin.start, j as int)) by {
                    if j > 0 {
                        assert(segments[j as int].start == segment_before(segments, j as int));
                    }
                }
                segments_end_inside(segments, bin.start, bin.end, j as int);
                if segment.summary is None {
                    let k = due(segments, j as int).len() as int;
                    assert(due(segments, j + 1)[k] == (PcmSpan {
                        start: segment.start,
                        end: segment.end,
                    }));
                    assert(all[k] == due(segments, j + 1)[k]);
                    assert(spans[first + k] == all[k]);
                }
            }
            let row = if segment.summary.is_none() {
                if next >= reads.len() {
                    vstd::pervasive::unreached()
                }
                let span = PcmSpan { start: segment.start, end: segment.end };
                match check_read(channels, span, &reads[next]) {
                    Some(error) => {
                        return Err(error);
                    },
                    None => {},
                }
                let row = self.segment_row(segment, Some(&reads[next]), Ghost(at));
                next = next + 1;
                row
            } else {
                self.segment_row(segment, None, Ghost(at))
            };
            proof {
                assert forall|c: int| 0 <= c < extremes@.len() implies (
                #[trigger] extremes@[c]).frames + row@[c].frames <= usize::MAX by {
                    assert(row@[c].frames == segment.end - segment.start);
                }
            }
            let joined_row = join_rows(&extremes, &row);
            proof {
                let before = rows;
                rows = before.push(row@);
                assert forall|c: int| 0 <= c < channels implies #[trigger] joined_row@[c]
                    == joined_parts(column(rows, c), j + 1) by {
                    column_grows(before, row@, c);
                    assert(extremes@[c] == joined_parts(column(before, c), j as int));
                }
                assert forall|c: int| 0 <= c < channels implies (#[trigger] joined_row@[c]).frames
                    == segment_edge(segments, bin.start, j + 1) - bin.start by {
                    assert(row@[c].frames == segment.end - segment.start);
                    assert(extremes@[c].frames == segment_edge(segments, bin.start, j as int)
                        - bin.start);
                }
                assert forall|c: int, k: int| 0 <= c < channels && 0 <= k < j + 1 implies self.is_part(
                    segments[k],
                    reads@[first + due(segments, k).len()],
                    c,
                    #[trigger] rows[k][c],
                ) by {
                    if k < j {
                        assert(rows[k][c] == before[k][c]);
                    } else {
                        assert(rows[k][c] == row@[c]);
                    }
                }
            }
            extremes = joined_row;
            j = j + 1;
        }
        let answer = WaveformBin {
            start_frame: bin.start as usize,
            end_frame: bin.end as usize,
            channels: extremes,
        };
        proof {
            assert forall|c: int| 0 <= c < answer.channels@.len() implies self.are_joined(
                segments,
                reads@,
                first as int,
                c,
                #[trigger] answer.channels@[c],
            ) by {
                let parts = column(rows, c);
                assert forall|k: int| 0 <= k < segments.len() implies self.is_part(
                    #[trigger] segments[k],
                    reads@[first + due(segments, k).len()],
                    c,
                    parts[k],
                ) by {
                    assert(parts[k] == rows[k][c]);
                }
                assert(self.are_parts(segments, reads@, first as int, c, parts));
            }
        }
        Ok((answer, next))
    }
}

proof fn segments_end_inside(segments: Seq<StreamSegment>, start: u64, end: u64, i: int)
    requires
        segments_tile(segments, start, end),
        0 <= i < segments.len(),
    ensures
        segments[i].end <= end,
    decreases segments.len() - i,
{
    if i + 1 < segments.len() {
        segments_end_inside(segments, start, end, i + 1);
        assert(segments[i + 1].start < segments[i + 1].end);
        assert(segments[i + 1].start == segment_before(segments, i + 1));
    }
}

impl StreamingWaveformIndex {
    /// Whether there is a read for everything that is due, or for as much of it as
    /// comes before a read that cannot be used.
    pub open spec fn reads_suffice(
        &self,
        plan: StreamPlan,
        reads: Seq<Result<Vec<u32>, StreamingWaveformError>>,
    ) -> bool {
        &&& reads.len() <= plan.due_reads().len()
        &&& reads.len() == plan.due_reads().len() || reads_fault(
            self.described().geometry.channels,
            plan.due_reads(),
            reads,
            0,
        ) is Some
    }

    proof fn planned_bin(&self, plan: StreamPlan, i: int)
        requires
            self.is_plan(plan),
            0 <= i < plan.bins@.len(),
        ensures
            plan.bins@[i].start < plan.bins@[i].end <= usize::MAX,
            self.is_stream_bin(
                plan.bins@[i],
                plan.bins@[i].start as int,
                plan.bins@[i].end as int,
            ),
            due_for(plan.bins@, i + 1).len() <= plan.due_reads().len(),
            ({
                let segments = plan.bins@[i].segments@;
                let own = due(segments, segments.len() as int);
                let first = due_for(plan.bins@, i).len();
                &&& first + own.len() == due_for(plan.bins@, i + 1).len()
                &&& forall|k: int|
                    0 <= k < own.len() ==> plan.due_reads()[first + k] == #[trigger] own[k]
            }),
    {
        let frames = plan.end - plan.start;
        let count = bin_total(frames, plan.target_bins as int);
        bins_tile_their_range(plan.start as int, frames, count);
        bins_stay_within(plan.start as int, frames, count, i + 1);
        assert(boundary(plan.start as int, frames, count, i) < boundary(
            plan.start as int,
            frames,
            count,
            i + 1,
        ));
        assert(self.is_stream_bin(
            plan.bins@[i],
            boundary(plan.start as int, frames, count, i),
            boundary(plan.start as int, frames, count, i + 1),
        ));
        due_for_grows(plan.bins@, i + 1, plan.bins@.len() as int);
        let segments = plan.bins@[i].segments@;
        let own = due(segments, segments.len() as int);
        let first = due_for(plan.bins@, i).len() as int;
        assert forall|k: int| 0 <= k < own.len() implies plan.due_reads()[first + k]
            == #[trigger] own[k] by {
            assert(due_for(plan.bins@, i + 1)[first + k] == own[k]);
        }
    }

    /// The bins of a plan, each put together from summaries and from the samples that
    /// were read for it. The first read that cannot be used ends the query.
    pub fn query_exact(
        &self,
        plan: &StreamPlan,
        reads: &Vec<Result<Vec<u32>, StreamingWaveformError>>,
    ) -> (r: Result<WaveformQuery, StreamingWaveformError>)
        requires
            self.wf(),
            self.is_plan(*plan),
            self.reads_suffice(*plan, reads@),
        ensures
            match reads_fault(
                self.described().geometry.channels,
                plan.due_reads(),
                reads@,
                0,
            ) {
                Some(error) => r == Err::<WaveformQuery, StreamingWaveformError>(error),
                None => r matches Ok(query) && self.answers(*plan, reads@, query),
            },
    {
        let spans = plan.reads();
        let ghost channels = self.described().geometry.channels;
        let ghost due_reads = plan.due_reads();
        assert(spans@.len() == spans.len());
        let mut bins: Vec<WaveformBin> = Vec::new();
        let mut next: usize = 0;
        let mut i: usize = 0;
        while i < plan.bins.len()
            invariant
                self.wf(),
                self.is_plan(*plan),
                self.reads_suffice(*plan, reads@),
                channels == self.described().geometry.channels,
                due_reads == plan.due_reads(),
                due_reads.len() <= usize::MAX,
                i <= plan.bins.len(),
                bins@.len() == i,
                next == due_for(plan.bins@, i as int).len(),
                reads_fault(channels, due_reads, reads@, 0) == reads_fault(
                    channels,
                    due_reads,
                    reads@,
                    next as int,
                ),
                forall|k: int|
                    0 <= k < i ==> self.is_answer(
                        #[trigger] plan.bins@[k],
                        reads@,
                        due_for(plan.bins@, k).len() as int,
                        bins@[k],
                    ),
            decreases plan.bins.len() - i,
        {
            let bin = &plan.bins[i];
            proof {
                self.planned_bin(*plan, i as int);
            }
            match self.answer_bin(bin, reads, next, Ghost(due_reads)) {
                Ok((answer, after)) => {
                    bins.push(answer);
                    next = after;
                },
                Err(error) => {
                    return Err(error);
                },
            }
            i = i + 1;
        }
        Ok(
            WaveformQuery {
                start_frame: plan.start as usize,
                end_frame: plan.end as usize,
                preferred_level: plan.preferred_level,
                bins,
            },
        )
    }

    /// Whether every summary tells the truth about the samples of the media.
    pub open spec fn summaries_hold(&self, pcm: Seq<u32>) -> bool {
        forall|chunk: u64, k: int, c: int|
            #![trigger self.published()[chunk].bins@[k].channels@[c]]
            self.published().contains_key(chunk) && 0 <= k < self.published()[chunk].bins@.len()
                && 0 <= c < self.described().geometry.channels ==> are_extremes(
                pcm,
                self.described().geometry.channels as int,
                c,
                self.published()[chunk].bins@[k].start as int,
                self.published()[chunk].bins@[k].end as int,
                summarized(self.published()[chunk].bins@[k].channels@[c]),
            )
    }

    /// Whether every read gives the samples of the media.
    pub open spec fn reads_hold(
        &self,
        spans: Seq<PcmSpan>,
        reads: Seq<Result<Vec<u32>, StreamingWaveformError>>,
        pcm: Seq<u32>,
    ) -> bool {
        forall|i: int, frame: int, c: int|
            #![trigger sample_at(reads[i]->Ok_0@, self.described().geometry.channels as int, frame, c)]
            0 <= i < spans.len() && 0 <= frame < spans[i].end - spans[i].start && 0 <= c
                < self.described().geometry.channels ==> sample_at(
                reads[i]->Ok_0@,
                self.described().geometry.channels as int,
                frame,
                c,
            ) == sample_at(
                pcm,
                self.described().geometry.channels as int,
                spans[i].start + frame,
                c,
            )
    }

    proof fn part_is_exact(
        &self,
        segment: StreamSegment,
        spans: Seq<PcmSpan>,
        reads: Seq<Result<Vec<u32>, StreamingWaveformError>>,
        at: int,
        pcm: Seq<u32>,
        c: int,
        part: ChannelExtremes,
    )
        requires
            self.wf(),
            self.is_segment(segment),
            self.summaries_hold(pcm),
            self.reads_hold(spans, reads, pcm),
            0 <= c < self.described().geometry.channels,
            segment.start < segment.end,
            segment.summary is None ==> 0 <= at < spans.len() && spans[at] == (PcmSpan {
                start: segment.start,
                end: segment.end,
            }),
            self.is_part(segment, reads[at], c, part),
        ensures
            are_extremes(
                pcm,
                self.described().geometry.channels as int,
                c,
                segment.start as int,
                segment.end as int,
                part,
            ),
    {
        let channels = self.described().geometry.channels as int;
        match segment.summary {
            Some(summary) => {
                let bin = self.published()[summary.chunk].bins@[summary.bin as int];
                assert(part == summarized(bin.channels@[c]));
            },
            None => {
                let own = reads[at]->Ok_0@;
                let length = segment.end - segment.start;
                let low = choose|frame: int|
                    0 <= frame < length && #[trigger] sample_at(own, channels, frame, c)
                        == part.min_bits;
                let high = choose|frame: int|
                    0 <= frame < length && #[trigger] sample_at(own, channels, frame, c)
                        == part.max_bits;
                assert(sample_at(pcm, channels, segment.start + low, c) == part.min_bits);
                assert(sample_at(pcm, channels, segment.start + high, c) == part.max_bits);
                assert forall|frame: int| segment.start <= frame < segment.end implies order_key(
                    part.min_bits,
                ) <= order_key(#[trigger] sample_at(pcm, channels, frame, c)) <= order_key(
                    part.max_bits,
                ) by {
                    let offset = frame - segment.start;
                    assert(sample_at(own, channels, offset, c) == sample_at(
                        pcm,
                        channels,
                        segment.start + offset,
                        c,
                    ));
                }
            },
        }
    }

    proof fn joined_parts_are_exact(
        &self,
        bin: StreamBin,
        spans: Seq<PcmSpan>,
        reads: Seq<Result<Vec<u32>, StreamingWaveformError>>,
        first: int,
        pcm: Seq<u32>,
        c: int,
        parts: Seq<ChannelExtremes>,
        i: int,
    )
        requires
            self.wf(),
            self.is_stream_bin(bin, bin.start as int, bin.end as int),
            bin.end <= usize::MAX,
            self.summaries_hold(pcm),
            self.reads_hold(spans, reads, pcm),
            0 <= first,
            first + due(bin.segments@, bin.segments@.len() as int).len() <= spans.len(),
            forall|k: int|
                0 <= k < due(bin.segments@, bin.segments@.len() as int).len() ==> spans[first + k]
                    == #[trigger] due(bin.segments@, bin.segments@.len() as int)[k],
            0 <= c < self.described().geometry.channels,
            self.are_parts(bin.segments@, reads, first, c, parts),
            0 < i <= bin.segments@.len(),
        ensures
            are_extremes(
                pcm,
                self.described().geometry.channels as int,
                c,
                bin.start as int,
                bin.segments@[i - 1].end as int,
                joined_parts(parts, i),
            ),
        decreases i,
    {
        let segments = bin.segments@;
        let channels = self.described().geometry.channels as int;
        let j = i - 1;
        let segment = segments[j];
        let all = due(segments, segments.len() as int);
        let at = first + due(segments, j).len();
        assert(segment.start < segment.end);
        assert(self.is_segment(segment));
        assert(self.is_part(segment, reads[at], c, parts[j]));
        if segment.summary is None {
            due_grows(segments, i, segments.len() as int);
            let k = due(segments, j).len() as int;
            assert(due(segments, i)[k] == (PcmSpan { start: segment.start, end: segment.end }));
            assert(all[k] == due(segments, i)[k]);
        }
        self.part_is_exact(segment, spans, reads, at, pcm, c, parts[j]);
        segments_end_inside(segments, bin.start, bin.end, j);
        if j > 0 {
            assert(segment.start == segment_before(segments, j));
            self.joined_parts_are_exact(bin, spans, reads, first, pcm, c, parts, j);
            extremes_join(
                pcm,
                channels,
                c,
                bin.start as int,
                segment.start as int,
                segment.end as int,
                joined_parts(parts, j),
                parts[j],
            );
        } else {
            assert(joined_parts(parts, 0).frames == 0);
            assert(joined_parts(parts, 1) == joined(joined_parts(parts, 0), parts[0]));
        }
    }

    /// A query shows exactly what the samples of the media are: where the summaries
    /// and the reads tell the truth about them, every bin holds the extremes of
    /// every channel over its own frames, and nothing of the frames around it.
    pub proof fn answers_are_exact(
        &self,
        plan: StreamPlan,
        reads: Seq<Result<Vec<u32>, StreamingWaveformError>>,
        query: WaveformQuery,
        pcm: Seq<u32>,
    )
        requires
            self.wf(),
            self.is_plan(plan),
            self.answers(plan, reads, query),
            self.summaries_hold(pcm),
            self.reads_hold(plan.due_reads(), reads, pcm),
        ensures
            forall|i: int, c: int|
                0 <= i < query.bins@.len() && 0 <= c < self.described().geometry.channels
                    ==> are_extremes(
                    pcm,
                    self.described().geometry.channels as int,
                    c,
                    query.bins@[i].start_frame as int,
                    query.bins@[i].end_frame as int,
                    #[trigger] query.bins@[i].channels@[c],
                ),
    {
        let spans = plan.due_reads();
        assert forall|i: int, c: int|
            0 <= i < query.bins@.len() && 0 <= c < self.described().geometry.channels implies are_extremes(
            pcm,
            self.described().geometry.channels as int,
            c,
            query.bins@[i].start_frame as int,
            query.bins@[i].end_frame as int,
            #[trigger] query.bins@[i].channels@[c],
        ) by {
            let bin = plan.bins@[i];
            let segments = bin.segments@;
            let first = due_for(plan.bins@, i).len() as int;
            self.planned_bin(plan, i);
            assert(self.is_answer(bin, reads, first, query.bins@[i]));
            assert(self.are_joined(segments, reads, first, c, query.bins@[i].channels@[c]));
            let parts = choose|parts: Seq<ChannelExtremes>| #[trigger]
                self.are_parts(segments, reads, first, c, parts) && query.bins@[i].channels@[c]
                    == joined_parts(parts, parts.len() as int);
            self.joined_parts_are_exact(
                bin,
                spans,
                reads,
                first,
                pcm,
                c,
                parts,
                segments.len() as int,
            );
        }
    }
}

impl StreamingWaveformIndex {
    /// A gap is read at once: what is read for a planned bin ends only where the bin
    /// does or where a summary bin begins or ends, so that frames between which no
    /// summary bin begins or ends are never read apart.
    pub proof fn gaps_are_read_at_once(
        &self,
        plan: StreamPlan,
        bin: int,
        segment: int,
        low: u64,
        high: u64,
    )
        requires
            self.is_plan(plan),
            0 <= bin < plan.bins@.len(),
            0 <= segment < plan.bins@[bin].segments@.len(),
            plan.bins@[bin].segments@[segment].summary is None,
            plan.bins@[bin].segments@[segment].start <= low < plan.bins@[bin].segments@[segment].end,
            low <= high < plan.bins@[bin].end,
            forall|frame: u64| low < frame <= high ==> !self.is_edge(frame),
        ensures
            high < plan.bins@[bin].segments@[segment].end,
    {
        reveal(StreamingWaveformIndex::parts_at_edges);
        let frames = plan.end - plan.start;
        let count = bin_total(frames, plan.target_bins as int);
        assert(self.is_stream_bin(
            plan.bins@[bin],
            boundary(plan.start as int, frames, count, bin),
            boundary(plan.start as int, frames, count, bin + 1),
        ));
        let end = plan.bins@[bin].segments@[segment].end;
        if end <= high {
            assert(self.is_edge(end));
        }
    }
}

/// A summary is taken only if it is of these media and of a chunk of them, and if its bins
/// follow each other from the first frame of the chunk to its last. No bin is empty, and
/// what it says of a channel is possible: finite numbers, the least not above the greatest.
pub proof fn accepted_summaries_cover_their_chunk(
    source: DecodedPcmDescriptor,
    product: WaveformChunkSideProduct,
    k: int,
    c: int,
)
    requires
        source.geometry.channels > 0 && source.geometry.chunk_frames > 0,
        product_fault(source, product) is None,
        0 <= k < product.bins@.len(),
        0 <= c < source.geometry.channels,
    ensures
        product.pcm == source.id && product.geometry == source.geometry,
        product.index * source.geometry.chunk_frames < source.frame_count,
        product.bins@[0].start == product.index * source.geometry.chunk_frames,
        product.bins@.last().end == product.index * source.geometry.chunk_frames
            + source.geometry.chunk_frames || product.bins@.last().end == source.frame_count,
        product.bins@.last().end <= product.index * source.geometry.chunk_frames
            + source.geometry.chunk_frames && product.bins@.last().end <= source.frame_count,
        k > 0 ==> product.bins@[k].start == product.bins@[k - 1].end,
        product.bins@[k].start < product.bins@[k].end <= source.frame_count,
        product.bins@[k].channels@.len() == source.geometry.channels,
        ({
            let envelope = product.bins@[k].channels@[c];
            &&& envelope.frames == product.bins@[k].end - product.bins@[k].start
            &&& is_finite(envelope.min_bits) && is_finite(envelope.max_bits) && is_finite(
                envelope.rms_bits,
            )
            &&& units(envelope.min_bits) <= units(envelope.max_bits)
            &&& units(envelope.rms_bits) >= 0
        }),
{
    let span = source.geometry.span_of(product.index, source.frame_count)->0;
    let channels = source.geometry.channels as int;
    let last = product.bins@.len() - 1;
    covering_bins_follow(product.bins@, channels, span.start, span.end, 0, k);
    covering_bins_follow(product.bins@, channels, span.start, span.end, 0, 0);
    covering_bins_follow(product.bins@, channels, span.start, span.end, 0, last);
    if k > 0 {
        covering_bins_follow(product.bins@, channels, span.start, span.end, 0, k - 1);
    }
    let envelope = product.bins@[k].channels@[c];
    assert(valid_envelope(envelope, product.bins@[k].end - product.bins@[k].start));
    bit_patterns_are_ordered_as_numbers(envelope.max_bits, envelope.min_bits);
    bit_patterns_are_ordered_as_numbers(envelope.rms_bits, 0);
    assert(units(0) == 0);
}

impl StreamingWaveformIndex {
    /// Streaming shows the numbers: where the summaries and the reads tell the truth about
    /// the samples of the media, every bin holds, for every channel, the least and the
    /// greatest number among the samples of that channel in its own frames.
    pub proof fn streamed_extremes_are_those_of_the_numbers(
        &self,
        plan: StreamPlan,
        reads: Seq<Result<Vec<u32>, StreamingWaveformError>>,
        query: WaveformQuery,
        pcm: Seq<u32>,
        i: int,
        c: int,
    )
        requires
            self.wf(),
            self.is_plan(plan),
            self.answers(plan, reads, query),
            pcm.len() == self.described().frame_count * self.described().geometry.channels,
            forall|k: int| 0 <= k < pcm.len() ==> is_finite(#[trigger] pcm[k]),
            forall|chunk: u64, k: int, ch: int|
                #![trigger self.published()[chunk].bins@[k].channels@[ch]]
                self.published().contains_key(chunk) && 0 <= k
                    < self.published()[chunk].bins@.len() && 0 <= ch
                    < self.described().geometry.channels ==> bounds_numbers(
                    pcm,
                    self.described().geometry.channels as int,
                    ch,
                    self.published()[chunk].bins@[k].start as int,
                    self.published()[chunk].bins@[k].end as int,
                    self.published()[chunk].bins@[k].channels@[ch].min_bits,
                    self.published()[chunk].bins@[k].channels@[ch].max_bits,
                ),
            forall|n: int, frame: int, ch: int|
                #![trigger reads[n]->Ok_0@[frame * self.described().geometry.channels + ch]]
                0 <= n < plan.due_reads().len() && 0 <= frame < plan.due_reads()[n].end
                    - plan.due_reads()[n].start && 0 <= ch < self.described().geometry.channels
                    ==> reads[n]->Ok_0@[frame * self.described().geometry.channels + ch]
                    == pcm[(plan.due_reads()[n].start + frame)
                    * self.described().geometry.channels + ch],
            0 <= i < query.bins@.len(),
            0 <= c < self.described().geometry.channels,
        ensures
            query.bins@[i].channels@.len() == self.described().geometry.channels,
            query.bins@[i].channels@[c].frames == query.bins@[i].end_frame
                - query.bins@[i].start_frame,
            bounds_numbers(
                pcm,
                self.described().geometry.channels as int,
                c,
                query.bins@[i].start_frame as int,
                query.bins@[i].end_frame as int,
                query.bins@[i].channels@[c].min_bits,
                query.bins@[i].channels@[c].max_bits,
            ),
    {
        let channels = self.described().geometry.channels as int;
        let total = self.described().frame_count as int;
        assert forall|chunk: u64, k: int, ch: int|
            #![trigger self.published()[chunk].bins@[k].channels@[ch]]
            self.published().contains_key(chunk) && 0 <= k < self.published()[chunk].bins@.len()
                && 0 <= ch < self.described().geometry.channels implies are_extremes(
            pcm,
            channels,
            ch,
            self.published()[chunk].bins@[k].start as int,
            self.published()[chunk].bins@[k].end as int,
            summarized(self.published()[chunk].bins@[k].channels@[ch]),
        ) by {
            let bin = self.published()[chunk].bins@[k];
            accepted_summaries_cover_their_chunk(
                self.described(),
                self.published()[chunk],
                k,
                ch,
            );
            assert forall|frame: int| bin.start <= frame < bin.end implies is_finite(
                #[trigger] pcm[frame * channels + ch],
            ) by {
                row_index(frame, ch, channels, total);
            }
            extremes_bound_numbers(
                pcm,
                channels,
                ch,
                bin.start as int,
                bin.end as int,
                summarized(bin.channels@[ch]),
            );
        }
        let spans = plan.due_reads();
        assert(self.reads_hold(spans, reads, pcm)) by {
            assert forall|n: int, frame: int, ch: int|
                #![trigger sample_at(reads[n]->Ok_0@, self.described().geometry.channels as int, frame, ch)]
                0 <= n < spans.len() && 0 <= frame < spans[n].end - spans[n].start && 0 <= ch
                    < self.described().geometry.channels implies sample_at(
                reads[n]->Ok_0@,
                channels,
                frame,
                ch,
            ) == sample_at(pcm, channels, spans[n].start + frame, ch) by {
                assert(reads[n]->Ok_0@[frame * self.described().geometry.channels + ch]
                    == pcm[(plan.due_reads()[n].start + frame)
                    * self.described().geometry.channels + ch]);
            }
        }
        self.answers_are_exact(plan, reads, query, pcm);
        self.planned_bin(plan, i);
        let bin = query.bins@[i];
        assert(self.is_answer(
            plan.bins@[i],
            reads,
            due_for(plan.bins@, i).len() as int,
            query.bins@[i],
        ));
        bins_stay_within(
            plan.start as int,
            plan.end - plan.start,
            plan.bins@.len() as int,
            i + 1,
        );
        assert(self.is_stream_bin(
            plan.bins@[i],
            boundary(plan.start as int, plan.end - plan.start, plan.bins@.len() as int, i),
            boundary(plan.start as int, plan.end - plan.start, plan.bins@.len() as int, i + 1),
        ));
        assert forall|frame: int| bin.start_frame <= frame < bin.end_frame implies is_finite(
            #[trigger] pcm[frame * channels + c],
        ) by {
            row_index(frame, c, channels, total);
        }
        assert(are_extremes(
            pcm,
            channels,
            c,
            bin.start_frame as int,
            bin.end_frame as int,
            bin.channels@[c],
        ));
        extremes_bound_numbers(
            pcm,
            channels,
            c,
            bin.start_frame as int,
            bin.end_frame as int,
            bin.channels@[c],
        );
    }

    /// The bins of an answer follow each other over the frames that were asked for, as many
    /// as asked for but none of them empty, and differ by one frame at most.
    pub proof fn streamed_bins_follow_each_other(
        &self,
        plan: StreamPlan,
        reads: Seq<Result<Vec<u32>, StreamingWaveformError>>,
        query: WaveformQuery,
        i: int,
        j: int,
    )
        requires
            self.is_plan(plan),
            self.answers(plan, reads, query),
            0 <= i < query.bins@.len(),
            0 <= j < query.bins@.len(),
        ensures
            plan.start < plan.end <= self.described().frame_count,
            query.start_frame == plan.start && query.end_frame == plan.end,
            query.bins@.len() <= plan.target_bins,
            query.bins@.len() <= plan.end - plan.start,
            query.bins@.len() == plan.target_bins || query.bins@.len() == plan.end - plan.start,
            query.bins@[0].start_frame == plan.start,
            query.bins@.last().end_frame == plan.end,
            i > 0 ==> query.bins@[i].start_frame == query.bins@[i - 1].end_frame,
            0 < query.bins@[i].end_frame - query.bins@[i].start_frame <= query.bins@[j].end_frame
                - query.bins@[j].start_frame + 1,
    {
        let start = plan.start as int;
        let frames = plan.end - plan.start;
        let count = plan.bins@.len() as int;
        bins_tile_their_range(start, frames, count);
        bins_are_even(start, frames, count, i, j);
        assert(boundary(start, frames, count, i) < boundary(start, frames, count, i + 1));
        assert forall|k: int| 0 <= k < count implies (#[trigger] query.bins@[k]).start_frame
            == boundary(start, frames, count, k) && query.bins@[k].end_frame == boundary(
            start,
            frames,
            count,
            k + 1,
        ) by {
            assert(self.is_stream_bin(
                plan.bins@[k],
                boundary(start, frames, count, k),
                boundary(start, frames, count, k + 1),
            ));
            assert(self.is_answer(
                plan.bins@[k],
                reads,
                due_for(plan.bins@, k).len() as int,
                query.bins@[k],
            ));
        }
        if i > 0 {
            assert(query.bins@[i - 1].end_frame == boundary(start, frames, count, i - 1 + 1));
        }
    }
}

} // verus!
