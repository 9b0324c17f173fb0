use audec::pyramid::{PyramidBuildError, WaveformPyramid, BASE_BLOCK_FRAMES};
use audec::streamed_waveform::{
    check_read, DecodedPcmDescriptor, DecodedPcmId, PcmChunkGeometry, PcmSpan, StreamingMediaError,
    StreamingWaveformError, StreamingWaveformIndex, SummaryBin, SummaryEnvelope,
    WaveformChunkSideProduct,
};
use audec::waveform_bins::{bin_boundary, bin_width, floor_log2, ChannelExtremes};
use audec::wording::HostWords;

fn bits(values: &[f32]) -> Vec<u32> {
    values.iter().map(|value| value.to_bits()).collect()
}

fn mono(values: &[f32]) -> WaveformPyramid {
    WaveformPyramid::from_interleaved(&bits(values), 1)
}

fn low(extremes: &ChannelExtremes) -> f32 {
    f32::from_bits(extremes.min_bits)
}

fn high(extremes: &ChannelExtremes) -> f32 {
    f32::from_bits(extremes.max_bits)
}

fn rms(pyramid: &WaveformPyramid, start: usize, end: usize) -> f32 {
    let squares: f64 = pyramid.interleaved_pcm()[start..end]
        .iter()
        .map(|sample| f64::from(f32::from_bits(*sample)))
        .map(|sample| sample * sample)
        .sum();
    (squares / (end - start) as f64).sqrt() as f32
}

#[test]
fn range_query_is_exact_and_uses_even_boundaries() {
    let pyramid = mono(&[-1.0, 0.25, 0.5, -0.75, 1.0, 0.0, -0.5, 0.75]);
    let query = pyramid.query(1, 7, 3);

    assert_eq!(query.preferred_level, 1);
    assert_eq!(
        query
            .bins
            .iter()
            .map(|bin| (bin.start_frame, bin.end_frame))
            .collect::<Vec<_>>(),
        vec![(1, 3), (3, 5), (5, 7)]
    );
    let first = &query.bins[0];
    assert_eq!(
        (
            low(&first.channels[0]),
            high(&first.channels[0]),
            rms(&pyramid, first.start_frame, first.end_frame),
            first.channels[0].frames
        ),
        (0.25, 0.5, (0.15625_f32).sqrt(), 2)
    );
    assert_eq!(low(&query.bins[1].channels[0]), -0.75);
    assert_eq!(high(&query.bins[1].channels[0]), 1.0);
    assert_eq!(low(&query.bins[2].channels[0]), -0.5);
    assert_eq!(high(&query.bins[2].channels[0]), 0.0);
}

#[test]
fn impulses_do_not_leak_across_visible_range_edges() {
    let mut values = vec![0.0; 65];
    values[0] = -1.0;
    values[32] = 1.0;
    values[64] = -0.75;
    let pyramid = mono(&values);

    let middle = pyramid.query(1, 64, 1);
    assert_eq!(low(&middle.bins[0].channels[0]), 0.0);
    assert_eq!(high(&middle.bins[0].channels[0]), 1.0);

    let before = pyramid.query(1, 32, 1);
    assert_eq!(low(&before.bins[0].channels[0]), 0.0);
    assert_eq!(high(&before.bins[0].channels[0]), 0.0);

    let after = pyramid.query(33, 64, 1);
    assert_eq!(low(&after.bins[0].channels[0]), 0.0);
    assert_eq!(high(&after.bins[0].channels[0]), 0.0);
}

#[test]
fn summary_interiors_remain_exact_at_base_block_boundaries() {
    let mut values = vec![0.0; BASE_BLOCK_FRAMES * 4];
    values[BASE_BLOCK_FRAMES - 1] = -1.0;
    values[BASE_BLOCK_FRAMES] = 0.5;
    values[BASE_BLOCK_FRAMES * 3 - 1] = 0.75;
    values[BASE_BLOCK_FRAMES * 3] = -0.5;
    let pyramid = mono(&values);

    let interior = pyramid.query(BASE_BLOCK_FRAMES, BASE_BLOCK_FRAMES * 3, 1);
    assert_eq!(low(&interior.bins[0].channels[0]), 0.0);
    assert_eq!(high(&interior.bins[0].channels[0]), 0.75);
}

#[test]
fn planar_and_interleaved_stereo_preserve_channel_identity() {
    let left = bits(&[-1.0, 0.0, 1.0, 0.0]);
    let right = bits(&[0.5, -0.5, 0.25, -0.25]);
    let planar = WaveformPyramid::from_channels(&vec![left, right]);
    let interleaved = WaveformPyramid::from_interleaved(
        &bits(&[-1.0, 0.5, 0.0, -0.5, 1.0, 0.25, 0.0, -0.25]),
        2,
    );

    assert_eq!(planar.channel_count(), 2);
    assert_eq!(planar.query(0, 4, 1), interleaved.query(0, 4, 1));
    let query = planar.query(0, 4, 1);
    let bin = &query.bins[0];
    assert_eq!(low(&bin.channels[0]), -1.0);
    assert_eq!(high(&bin.channels[0]), 1.0);
    assert_eq!(low(&bin.channels[1]), -0.5);
    assert_eq!(high(&bin.channels[1]), 0.5);
}

#[test]
fn empty_and_clamped_queries_have_no_empty_output_bins() {
    let empty = WaveformPyramid::from_interleaved(&Vec::new(), 2);
    assert_eq!(empty.frame_count(), 0);
    assert!(empty.query(0, 20, 32).bins.is_empty());

    let pyramid = mono(&[1.0, -1.0, 0.5]);
    assert!(pyramid.query(2, 1, 2).bins.is_empty());
    assert!(pyramid.query(0, 3, 0).bins.is_empty());
    let clamped = pyramid.query(1, 99, 99);
    assert_eq!(clamped.start_frame, 1);
    assert_eq!(clamped.end_frame, 3);
    assert_eq!(clamped.bins.len(), 2);
    assert!(clamped
        .bins
        .iter()
        .all(|bin| bin.start_frame < bin.end_frame));
}

#[test]
fn construction_and_queries_are_deterministic() {
    let values = [f32::NAN, -0.4, 0.2, f32::INFINITY, -0.9, 0.9, 0.1];
    let first = mono(&values);
    let second = mono(&values);
    assert_eq!(
        first.query(0, values.len(), 3),
        second.query(0, values.len(), 3)
    );
    let query = first.query(0, values.len(), 1);
    let envelope = &query.bins[0].channels[0];
    assert_eq!(low(envelope), -0.9);
    assert_eq!(high(envelope), 0.9);
}

#[test]
fn canonical_pcm_can_be_shared_without_copying() {
    let pyramid = WaveformPyramid::from_interleaved(&bits(&[0.1, -0.1, 0.2, -0.2]), 2);
    let shared = pyramid.shared_interleaved_pcm();
    assert_eq!(shared.as_ptr(), pyramid.interleaved_pcm().as_ptr());
    assert_eq!(&*shared, pyramid.interleaved_pcm());
}

#[test]
fn storage_is_pcm_plus_flat_summary_levels_not_per_sample_accumulators() {
    let frame_count = BASE_BLOCK_FRAMES * 1025 + 7;
    let samples = (0..frame_count * 3)
        .map(|value| (value as f32 / frame_count as f32).to_bits())
        .collect::<Vec<_>>();
    let pyramid = WaveformPyramid::from_interleaved(&samples, 3);

    for level in 0..pyramid.level_count() {
        let bin_count = pyramid
            .frame_count()
            .div_ceil(BASE_BLOCK_FRAMES << level);
        assert_eq!(
            pyramid.level_values(level),
            bin_count * pyramid.channel_count()
        );
    }
    let storage = pyramid.storage();
    assert_eq!(storage.pcm_samples, frame_count * 3);
    assert!(storage.summary_accumulators < (storage.pcm_samples / 100) as u128);
    assert_eq!(pyramid.level_count(), 12); // 1026 base blocks, then 513 .. 1
}

#[test]
fn strict_streaming_build_quarantines_non_finite_pcm_while_legacy_is_auditable() {
    assert!(matches!(
        WaveformPyramid::try_from_finite_interleaved(&bits(&[0.25, f32::NAN]), 1),
        Err(PyramidBuildError::NonFinitePcm { sample_index: 1 })
    ));
    let legacy = WaveformPyramid::from_interleaved(&bits(&[0.25, f32::NAN]), 1);
    assert_eq!(legacy.sanitized_non_finite_samples(), 1);
    assert_eq!(legacy.interleaved_pcm(), &bits(&[0.25, 0.0]));
}

#[test]
fn building_needs_channels_and_complete_frames() {
    assert!(matches!(
        WaveformPyramid::try_from_finite_interleaved(&bits(&[0.25]), 0),
        Err(PyramidBuildError::ZeroChannels)
    ));
    assert!(matches!(
        WaveformPyramid::try_from_finite_interleaved(&bits(&[0.25, 0.5, 0.75]), 2),
        Err(PyramidBuildError::PartialFrame {
            samples: 3,
            channels: 2
        })
    ));
    let strict = WaveformPyramid::try_from_finite_interleaved(&bits(&[0.25, 0.5]), 2).unwrap();
    assert_eq!(strict.frame_count(), 1);
    let lenient = WaveformPyramid::from_interleaved(&bits(&[0.25, 0.5, 0.75]), 2);
    assert_eq!(lenient.frame_count(), 1);
    assert_eq!(lenient.interleaved_pcm(), &bits(&[0.25, 0.5]));
}

#[test]
fn storage_counts_every_block_of_every_level() {
    let pyramid = WaveformPyramid::from_interleaved(&vec![0; BASE_BLOCK_FRAMES * 3 * 2], 2);
    // Three blocks, then two, then one, of two channels each.
    let storage = pyramid.storage();
    assert_eq!(storage.summary_levels, 3);
    assert_eq!(storage.summary_accumulators, 12);
    assert_eq!(storage.pcm_samples, BASE_BLOCK_FRAMES * 6);
    assert_eq!(
        storage.estimated_bytes,
        (BASE_BLOCK_FRAMES * 6 * 4 + 12 * 24) as u128
    );
}

#[test]
fn pieces_of_a_range_take_whole_blocks_between_edges() {
    let pyramid = WaveformPyramid::from_interleaved(&vec![0; BASE_BLOCK_FRAMES * 4], 1);
    let start = BASE_BLOCK_FRAMES - 3;
    let end = BASE_BLOCK_FRAMES * 3 + 2;
    let pieces = pyramid.pieces(start, end, pyramid.summary_level((end - start) as u64));
    assert_eq!(pieces.first().unwrap().start, start);
    assert_eq!(pieces.last().unwrap().end, end);
    assert!(pieces.windows(2).all(|pair| pair[0].end == pair[1].start));
    let exact: usize = pieces
        .iter()
        .filter(|piece| piece.block.is_none())
        .map(|piece| piece.end - piece.start)
        .sum();
    assert_eq!(exact, 5);
}

#[test]
fn bins_are_even_and_cover_their_range() {
    assert_eq!(floor_log2(1), 0);
    assert_eq!(floor_log2(255), 7);
    assert_eq!(floor_log2(256), 8);
    assert_eq!(floor_log2(u64::MAX), 63);
    assert_eq!(bin_width(7, 2), 4);
    let edges: Vec<u64> = (0..=3).map(|i| bin_boundary(10, 7, 3, i)).collect();
    assert_eq!(edges, vec![10, 12, 14, 17]);
}

fn descriptor() -> DecodedPcmDescriptor {
    DecodedPcmDescriptor {
        id: DecodedPcmId(71),
        geometry: PcmChunkGeometry::new(48_000, 1, 4).unwrap(),
        frame_count: 8,
    }
}

fn sample(frame: u64) -> f32 {
    frame as f32 * 10.0 + 0.5
}

fn summary(descriptor: DecodedPcmDescriptor, index: u64, summary_frames: u64) -> WaveformChunkSideProduct {
    let span = descriptor
        .geometry
        .chunk_span(index, descriptor.frame_count)
        .unwrap();
    let mut bins = Vec::new();
    let mut start = span.start;
    while start < span.end {
        let end = (start + summary_frames).min(span.end);
        let squares: f64 = (start..end)
            .map(|frame| f64::from(sample(frame)) * f64::from(sample(frame)))
            .sum();
        bins.push(SummaryBin {
            start,
            end,
            channels: vec![SummaryEnvelope {
                min_bits: sample(start).to_bits(),
                max_bits: sample(end - 1).to_bits(),
                rms_bits: ((squares / (end - start) as f64).sqrt() as f32).to_bits(),
                frames: (end - start) as u32,
            }],
        });
        start = end;
    }
    WaveformChunkSideProduct {
        pcm: descriptor.id,
        geometry: descriptor.geometry,
        index,
        bins,
    }
}

fn read(start: u64, end: u64) -> Result<Vec<u32>, StreamingWaveformError> {
    Ok((start..end).map(|frame| sample(frame).to_bits()).collect())
}

#[test]
fn streamed_side_products_read_only_distinctive_boundary_pcm() {
    let descriptor = descriptor();
    let mut index = StreamingWaveformIndex::new(descriptor);
    for chunk_index in 0..2 {
        index.publish(summary(descriptor, chunk_index, 2)).unwrap();
    }
    let plan = index.plan_query(1, 7, 2).unwrap();
    let spans = plan.reads();
    let edge_reads: Vec<(u64, u64)> = spans.iter().map(|span| (span.start, span.end)).collect();
    let reads = spans
        .iter()
        .map(|span| read(span.start, span.end))
        .collect::<Vec<_>>();
    let query = index.query_exact(&plan, &reads).unwrap();
    assert_eq!(edge_reads, vec![(1, 2), (6, 7)]);
    assert_eq!(
        query
            .bins
            .iter()
            .map(|bin| (
                bin.start_frame,
                bin.end_frame,
                low(&bin.channels[0]),
                high(&bin.channels[0])
            ))
            .collect::<Vec<_>>(),
        vec![(1, 4, 10.5, 30.5), (4, 7, 40.5, 60.5)]
    );
}

#[test]
fn missing_summaries_are_read_and_answer_the_same() {
    let descriptor = descriptor();
    let mut index = StreamingWaveformIndex::new(descriptor);
    assert_eq!(index.source(), descriptor);
    let bare = index.plan_query(1, 7, 2).unwrap();
    let spans: Vec<(u64, u64)> = bare
        .reads()
        .iter()
        .map(|span| (span.start, span.end))
        .collect();
    assert_eq!(spans, vec![(1, 4), (4, 7)]);
    let reads = vec![read(1, 4), read(4, 7)];
    let from_reads = index.query_exact(&bare, &reads).unwrap();

    index.publish(summary(descriptor, 1, 2)).unwrap();
    assert_eq!(index.product_count(), 1);
    let half = index.plan_query(1, 7, 2).unwrap();
    let reads = half
        .reads()
        .iter()
        .map(|span| read(span.start, span.end))
        .collect::<Vec<_>>();
    assert_eq!(index.query_exact(&half, &reads).unwrap(), from_reads);
}

#[test]
fn summaries_of_other_media_are_refused() {
    let descriptor = descriptor();
    let mut index = StreamingWaveformIndex::new(descriptor);

    let mut foreign = summary(descriptor, 0, 2);
    foreign.pcm = DecodedPcmId(72);
    assert_eq!(
        index.publish(foreign),
        Err(StreamingWaveformError::SourceMismatch)
    );
    let mut outside = summary(descriptor, 1, 2);
    outside.index = 2;
    assert_eq!(
        index.publish(outside),
        Err(StreamingWaveformError::Streaming(
            StreamingMediaError::ChunkOutsideSource { index: 2 }
        ))
    );
    let mut partial = summary(descriptor, 0, 2);
    partial.bins.pop();
    assert_eq!(
        index.publish(partial),
        Err(StreamingWaveformError::InvalidSideProduct)
    );
    let mut crossed = summary(descriptor, 0, 2);
    crossed.bins[0].channels[0].min_bits = 99.0_f32.to_bits();
    assert_eq!(
        index.publish(crossed),
        Err(StreamingWaveformError::InvalidSideProduct)
    );
    let mut negative = summary(descriptor, 0, 2);
    negative.bins[1].channels[0].rms_bits = (-1.0_f32).to_bits();
    assert_eq!(
        index.publish(negative),
        Err(StreamingWaveformError::InvalidSideProduct)
    );
    assert_eq!(index.product_count(), 0);
    assert_eq!(
        PcmChunkGeometry::new(48_000, 0, 4),
        Err(StreamingMediaError::InvalidGeometry)
    );
}

#[test]
fn streamed_queries_and_reads_are_refused_when_they_do_not_fit() {
    let index = StreamingWaveformIndex::new(descriptor());
    assert_eq!(
        index.plan_query(3, 3, 1),
        Err(StreamingWaveformError::RangeOutsideSource)
    );
    assert_eq!(
        index.plan_query(0, 9, 1),
        Err(StreamingWaveformError::RangeOutsideSource)
    );
    assert_eq!(
        index.plan_query(0, 8, 0),
        Err(StreamingWaveformError::ZeroTargetBins)
    );
    let plan = index.plan_query(0, 8, 2).unwrap();
    assert_eq!(
        index.query_exact(&plan, &vec![read(0, 3), read(4, 8)]),
        Err(StreamingWaveformError::PcmSampleCount {
            expected: 4,
            actual: 3
        })
    );
    let mut broken = read(0, 4).unwrap();
    broken[2] = f32::NAN.to_bits();
    assert_eq!(
        index.query_exact(&plan, &vec![Ok(broken)]),
        Err(StreamingWaveformError::NonFinitePcm { sample_index: 2 })
    );
    assert_eq!(
        index.query_exact(
            &plan,
            &vec![
                read(0, 4),
                Err(StreamingWaveformError::ProjectedPcmRequired)
            ]
        ),
        Err(StreamingWaveformError::ProjectedPcmRequired)
    );
}

#[test]
fn summaries_stay_small_and_errors_say_what_is_wrong() {
    let pyramid = mono(&vec![0.25; 10 * BASE_BLOCK_FRAMES]);
    let storage = pyramid.storage();
    assert_eq!(storage.summary_levels, 5);
    assert_eq!(storage.summary_accumulators, 10 + 5 + 3 + 2 + 1);
    assert!(
        256 * storage.summary_accumulators
            <= (2 * pyramid.frame_count() + 256 * storage.summary_levels) as u128
    );
    assert_eq!(
        PyramidBuildError::PartialFrame {
            samples: 5,
            channels: 2
        }
        .message(),
        "waveform PCM has 5 samples, not complete 2-channel frames"
    );
    assert_eq!(
        PyramidBuildError::NonFinitePcm { sample_index: 3 }.message(),
        "waveform PCM sample 3 is not finite"
    );
}

#[test]
fn a_read_must_give_what_is_due() {
    let span = PcmSpan { start: 4, end: 6 };
    assert_eq!(check_read(2, span, &Ok(bits(&[0.0, 0.5, -0.5, 1.0]))), None);
    assert_eq!(
        check_read(2, span, &Ok(bits(&[0.0; 3]))),
        Some(StreamingWaveformError::PcmSampleCount {
            expected: 4,
            actual: 3,
        })
    );
    assert_eq!(
        check_read(1, span, &Ok(bits(&[0.0, f32::NAN]))),
        Some(StreamingWaveformError::NonFinitePcm { sample_index: 1 })
    );
    assert_eq!(
        check_read(1, span, &Err(StreamingWaveformError::SourceMismatch)),
        Some(StreamingWaveformError::SourceMismatch)
    );
    assert_eq!(
        StreamingWaveformError::NonFinitePcm { sample_index: 1 }.message(&HostWords::none()),
        "streamed waveform edge contains non-finite sample 1"
    );
}
