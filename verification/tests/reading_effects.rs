use std::sync::Arc;

use audec::command::{AssetId, ClipId, HypothesisId, MediaAliasId};
use audec::event_log::{AuditionMix, AuditionSubject};
use audec::effects::{
    reading_audition_owner, ChannelProjection, ComparisonChannel, ReadingAuditionPlan,
    ReadingComparisonAuditionPlan, ReadingEffectBridgeError, ReadingEffectSnapshot,
    ReadingRevealSubject, ReadingSourceAuditionPlan, RenderFormat, Resolution, SelectedAspect,
    READING_AUDITION_OWNER_NAMESPACE,
};
use audec::live_project::{
    LiveProjectSnapshot, ProjectController, ProjectHistoryStatus, ProjectJournalCheckpoint,
    ProjectRevisions, ProjectState,
};
use audec::navigation::{AspectGeometryDto, EntityRefDto, RegionDto, SignalLayerDto};
use audec::objects::{ComparisonId, ExplanationId, ObjectRef};
use audec::query_document::{AuditionTarget, RevealTarget};
use audec::selection::{
    AirSelection, GraphObjectId, SelectionDocumentId, SelectionGuard, TimeSpan, WorkspaceViewId,
};
use audec::session::{ProjectSession, ProjectSessionError, ProjectSessionId};
use audec::source_graph::{
    AssetAlias, AssetRecord, AssetSource, ClipObject, ComparisonDefinition, ComparisonObservation,
    FrameSpan, GraphHypothesis, GraphObject, GraphSpan, HypothesisClaim, InterpretationStore,
    PlacedAudio, PlacedClip, SourceCitation, SourceGraph, SourceId,
};
use audec::tracing::entity_sources;
use audec::wording::HostWords;

const ASSET: AssetId = AssetId(1);
const CLIP: ClipId = ClipId(2);
const OBJECT: GraphObjectId = GraphObjectId(3);
const SOURCE: SourceId = SourceId(4);
const PCM: [f32; 4] = [0.25, 0.5, 0.75, 1.0];

fn graph() -> SourceGraph {
    SourceGraph {
        parameters: Vec::new(),
        transforms: Vec::new(),
        relations: Vec::new(),
        hypotheses: vec![GraphHypothesis {
            id: HypothesisId(6),
            claims: vec![HypothesisClaim::PitchTrack { object: OBJECT }],
            note: None,
        }],
        objects: vec![GraphObject {
            id: OBJECT,
            members: Vec::new(),
            anchors: vec![5],
        }],
        spans: vec![GraphSpan {
            id: 5,
            source: SOURCE,
        }],
        asset_sources: vec![AssetSource {
            asset: ASSET,
            source: SOURCE,
        }],
        assets: vec![AssetRecord {
            id: ASSET,
            nyquist_bits: 24_000.0_f32.to_bits(),
        }],
        aliases: vec![AssetAlias {
            alias: MediaAliasId(7),
            asset: ASSET,
        }],
        clip_objects: vec![ClipObject {
            clip: CLIP,
            object: OBJECT,
        }],
        clips: vec![PlacedClip {
            id: CLIP,
            start: 0,
            end: 4,
            audio: Some(PlacedAudio {
                asset: MediaAliasId(7),
                source_start: 0,
                unity: true,
            }),
        }],
    }
}

fn session(graph: SourceGraph) -> ProjectSession {
    let controller = ProjectController {
        snapshot: LiveProjectSnapshot {
            revisions: ProjectRevisions { aggregate: 12 },
            dirty: false,
            project: Arc::new(ProjectState {
                placements: Vec::new(),
                definitions: Vec::new(),
                media: Vec::new(),
                lanes: Vec::new(),
                tracks: Vec::new(),
                buses: Vec::new(),
                automation: Vec::new(),
                graph,
            }),
        },
        history: ProjectHistoryStatus {
            can_undo: false,
            can_redo: false,
            undo_label: None,
            redo_label: None,
        },
        checkpoint: ProjectJournalCheckpoint {
            through_sequence: 0,
            project_revision: 12,
        },
        records: Arc::new(Vec::new()),
        pending: None,
    };
    let mut session = ProjectSession::new(ProjectSessionId(1)).unwrap();
    session.install(Ok(controller), None).unwrap();
    session
}

fn store(comparisons: u64) -> InterpretationStore {
    InterpretationStore {
        comparisons: (1..=comparisons)
            .map(|id| ComparisonDefinition {
                id: ComparisonId(id),
                source: SourceCitation {
                    asset: ASSET,
                    source_start: 0,
                    source_end: 4,
                    project_span: FrameSpan { start: 0, end: 4 },
                    channels: 1,
                },
                explanation: ExplanationId(1),
            })
            .collect(),
        observations: Vec::new(),
    }
}

fn captured(store: InterpretationStore) -> ReadingEffectSnapshot {
    let mut session = session(graph());
    session.adopt_interpretations(Arc::new(store));
    ReadingEffectSnapshot::capture(&session).unwrap()
}

fn snapshot(comparisons: u64) -> ReadingEffectSnapshot {
    captured(store(comparisons))
}

fn entity(kind: &str, local_id: u64) -> EntityRefDto {
    EntityRefDto::Project {
        kind: kind.into(),
        local_id,
    }
}

fn geometry(
    start_frame: i64,
    end_frame: i64,
    min_hz: f32,
    max_hz: f32,
    signal: SignalLayerDto,
) -> AspectGeometryDto {
    AspectGeometryDto {
        regions: vec![RegionDto {
            start_frame,
            end_frame,
            min_hz_bits: min_hz.to_bits(),
            max_hz_bits: max_hz.to_bits(),
            channels: 1,
        }],
        objects: Vec::new(),
        signal,
    }
}

fn source_plan(snapshot: &ReadingEffectSnapshot, generation: u64) -> ReadingSourceAuditionPlan {
    let target = AuditionTarget {
        entity: entity("air-object", OBJECT.0),
        extent: geometry(1, 3, 0.0, 24_000.0, SignalLayerDto::Source),
    };
    match snapshot.plan_audition(&target, generation).unwrap() {
        ReadingAuditionPlan::Source(plan) => plan,
        ReadingAuditionPlan::Comparison(_) => panic!("source query planned a comparison"),
    }
}

fn mono() -> Result<RenderFormat, String> {
    Ok(RenderFormat {
        sample_rate: 48_000,
        channels: 1,
    })
}

#[test]
fn source_query_resolves_exact_frames_and_projects_into_shared_renderer_format() {
    let snapshot = snapshot(0);
    let plan = source_plan(&snapshot, 7);
    assert_eq!(plan.entity, entity("air-object", OBJECT.0));
    assert_eq!(plan.citation.asset, ASSET);
    assert_eq!(plan.citation.source_start, 1);
    assert_eq!(plan.citation.source_end, 3);
    assert_eq!(plan.citation.project_span.start, 1);
    assert_eq!(plan.citation.project_span.end, 3);

    let owner = reading_audition_owner(WorkspaceViewId(23));
    assert_eq!(owner.namespace, READING_AUDITION_OWNER_NAMESPACE);
    let audition = snapshot
        .render_source(
            &plan,
            owner,
            mono(),
            RenderFormat {
                sample_rate: 48_000,
                channels: 2,
            },
        )
        .unwrap();
    assert_eq!(audition.owner, owner);
    assert_eq!(audition.revision, 7);
    assert_eq!(audition.subject, AuditionSubject::Source);
    assert_eq!(audition.mix, AuditionMix::Replace);
    assert_eq!(audition.span, FrameSpan { start: 1, end: 3 });
    assert_eq!(audition.projection, ChannelProjection::MonoToStereo);
    let cited =
        &PCM[plan.citation.source_start as usize..plan.citation.source_end as usize];
    let interleaved: Vec<f32> = cited
        .iter()
        .flat_map(|sample| [*sample; 2])
        .collect();
    assert_eq!(interleaved, &[0.5, 0.5, 0.75, 0.75]);
}

#[test]
fn band_limited_source_query_is_refused_instead_of_auditioning_full_band() {
    let target = AuditionTarget {
        entity: entity("air-object", OBJECT.0),
        extent: geometry(0, 4, 200.0, 4_000.0, SignalLayerDto::Source),
    };
    assert!(matches!(
        snapshot(0).plan_audition(&target, 1),
        Err(ReadingEffectBridgeError::FrequencyIsolationUnavailable {
            min_hz_bits,
            max_hz_bits,
            nyquist_bits,
        }) if f32::from_bits(min_hz_bits) == 200.0
            && f32::from_bits(max_hz_bits) == 4_000.0
            && f32::from_bits(nyquist_bits) == 24_000.0
    ));
}

#[test]
fn residual_query_selects_the_retained_comparison_channel_and_focus() {
    let snapshot = snapshot(1);
    let target = AuditionTarget {
        entity: entity("air-object", OBJECT.0),
        extent: geometry(
            1,
            3,
            0.0,
            24_000.0,
            SignalLayerDto::Residual {
                reference: entity("comparison", 1),
            },
        ),
    };
    assert_eq!(
        snapshot.plan_audition(&target, 9).unwrap(),
        ReadingAuditionPlan::Comparison(ReadingComparisonAuditionPlan {
            pin: snapshot.pin(),
            entity: target.entity,
            comparison: ComparisonId(1),
            channel: ComparisonChannel::Residual,
            focus: FrameSpan { start: 1, end: 3 },
        })
    );
}

#[test]
fn explanation_query_refuses_ambiguous_covering_comparisons() {
    let target = AuditionTarget {
        entity: entity("air-object", OBJECT.0),
        extent: geometry(
            0,
            4,
            0.0,
            24_000.0,
            SignalLayerDto::Explanation {
                reference: entity("explanation", 1),
            },
        ),
    };
    assert!(matches!(
        snapshot(2).plan_audition(&target, 1),
        Err(ReadingEffectBridgeError::AmbiguousExplanationComparison {
            explanation: ExplanationId(1),
            candidates,
        }) if candidates == vec![ComparisonId(1), ComparisonId(2)]
    ));
    assert!(matches!(
        snapshot(0).plan_audition(&target, 1),
        Err(ReadingEffectBridgeError::MissingExplanationComparison(
            ExplanationId(1)
        ))
    ));
    assert!(matches!(
        snapshot(1).plan_audition(&target, 1),
        Ok(ReadingAuditionPlan::Comparison(plan))
            if plan.channel == ComparisonChannel::Construction
    ));
}

#[test]
fn stale_plan_cannot_render_and_reveal_retains_air_identity_and_geometry() {
    let snapshot = snapshot(0);
    let mut source = source_plan(&snapshot, 2);
    source.pin.document_generation += 1;
    assert!(matches!(
        snapshot.render_source(
            &source,
            reading_audition_owner(WorkspaceViewId(4)),
            mono(),
            RenderFormat {
                sample_rate: 48_000,
                channels: 1,
            },
        ),
        Err(ReadingEffectBridgeError::StalePublication { .. })
    ));

    let reveal = snapshot
        .plan_reveal(&RevealTarget {
            entity: entity("air-object", OBJECT.0),
            extent: Some(geometry(1, 3, 0.0, 24_000.0, SignalLayerDto::Source)),
        })
        .unwrap();
    let selection = snapshot
        .reveal_selection(
            &reveal,
            SelectionGuard {
                document: SelectionDocumentId(8),
                project_revision: snapshot.pin().revisions.aggregate,
            },
            WorkspaceViewId(4),
            Ok(SelectedAspect {
                signal: None,
                time: Some(TimeSpan { start: 1, end: 3 }),
            }),
        )
        .unwrap();
    assert_eq!(selection.air, vec![AirSelection::Object(OBJECT)]);
    assert_eq!(selection.time, Some(TimeSpan { start: 1, end: 3 }));
    assert!(selection.aspect.is_some());
}

#[test]
fn only_an_installed_project_has_effects() {
    let empty = ProjectSession::new(ProjectSessionId(1)).unwrap();
    assert!(matches!(
        ReadingEffectSnapshot::capture(&empty),
        Err(ReadingEffectBridgeError::Session(
            ProjectSessionError::NoProject
        ))
    ));
    let target = AuditionTarget {
        entity: entity("air-object", OBJECT.0),
        extent: geometry(1, 3, 0.0, 24_000.0, SignalLayerDto::Source),
    };
    assert!(matches!(
        snapshot(0).plan_audition(&target, 0),
        Err(ReadingEffectBridgeError::ZeroGeneration)
    ));
}

#[test]
fn geometry_that_is_no_single_span_is_refused() {
    let snapshot = snapshot(0);
    let mut extent = geometry(0, 1, 0.0, 24_000.0, SignalLayerDto::Source);
    extent
        .regions
        .append(&mut geometry(2, 4, 0.0, 24_000.0, SignalLayerDto::Source).regions);
    assert!(matches!(
        snapshot.plan_audition(
            &AuditionTarget {
                entity: entity("air-object", OBJECT.0),
                extent,
            },
            1
        ),
        Err(ReadingEffectBridgeError::NonContiguousGeometry(2))
    ));
    assert!(matches!(
        snapshot.plan_audition(
            &AuditionTarget {
                entity: entity("air-object", OBJECT.0),
                extent: geometry(3, 1, 0.0, 24_000.0, SignalLayerDto::Source),
            },
            1
        ),
        Err(ReadingEffectBridgeError::InvalidRegion(_))
    ));
    assert!(matches!(
        snapshot.plan_audition(
            &AuditionTarget {
                entity: entity("air-object", 99),
                extent: geometry(1, 3, 0.0, 24_000.0, SignalLayerDto::Source),
            },
            1
        ),
        Err(ReadingEffectBridgeError::UnresolvedEntity(_))
    ));
}

#[test]
fn comparisons_must_exist_and_cover_the_focus() {
    let residual = |start: i64, end: i64, comparison: u64| AuditionTarget {
        entity: entity("air-object", OBJECT.0),
        extent: geometry(
            start,
            end,
            0.0,
            24_000.0,
            SignalLayerDto::Residual {
                reference: entity("comparison", comparison),
            },
        ),
    };
    let snapshot = snapshot(1);
    assert!(matches!(
        snapshot.plan_audition(&residual(0, 4, 2), 1),
        Err(ReadingEffectBridgeError::MissingComparison(ComparisonId(2)))
    ));
    assert!(matches!(
        snapshot.plan_audition(&residual(2, 6, 1), 1),
        Err(ReadingEffectBridgeError::FocusOutsideComparison {
            focus: FrameSpan { start: 2, end: 6 },
            comparison: FrameSpan { start: 0, end: 4 },
        })
    ));
    assert!(snapshot.comparison_definition(ComparisonId(1)).is_some());
    assert!(snapshot.comparison_observation(ComparisonId(1)).is_none());
    let mut observed = store(1);
    observed.observations.push(ComparisonObservation {
        comparison: ComparisonId(1),
        artifact: 9,
    });
    let snapshot = captured(observed);
    assert_eq!(
        snapshot
            .comparison_observation(ComparisonId(1))
            .unwrap()
            .artifact,
        9
    );
}

#[test]
fn rendering_passes_on_what_the_renderer_refuses() {
    let snapshot = snapshot(0);
    let plan = source_plan(&snapshot, 1);
    let owner = reading_audition_owner(WorkspaceViewId(4));
    let output = RenderFormat {
        sample_rate: 48_000,
        channels: 1,
    };
    assert!(matches!(
        snapshot.render_source(&plan, owner, Err("no decoder".into()), output),
        Err(ReadingEffectBridgeError::SourceRender(text)) if text == "no decoder"
    ));
    assert!(matches!(
        snapshot.render_source(
            &plan,
            owner,
            Ok(RenderFormat {
                sample_rate: 44_100,
                channels: 1,
            }),
            output
        ),
        Err(ReadingEffectBridgeError::OutputFormat(_))
    ));
    let same = snapshot.render_source(&plan, owner, mono(), output).unwrap();
    assert_eq!(same.projection, ChannelProjection::Same);
}

#[test]
fn entities_are_traced_to_their_sources() {
    let graph = graph();
    assert_eq!(
        entity_sources(&entity("air-object", OBJECT.0), &graph),
        Some(vec![SOURCE])
    );
    assert_eq!(
        entity_sources(&entity("air-hypothesis", 6), &graph),
        Some(vec![SOURCE])
    );
    assert_eq!(entity_sources(&entity("air-object", 77), &graph), None);
    assert_eq!(
        entity_sources(&entity("air-source", SOURCE.0), &graph),
        Some(vec![SOURCE])
    );
}

#[test]
fn comparisons_are_revealed_as_objects_of_the_project() {
    let reveal = snapshot(1)
        .plan_reveal(&RevealTarget {
            entity: entity("comparison", 1),
            extent: None,
        })
        .unwrap();
    assert_eq!(
        reveal.subject,
        ReadingRevealSubject::Object(ObjectRef::Comparison(ComparisonId(1)))
    );
    assert!(!Resolution::BoundAsset.text().is_empty());
}

#[test]
fn refused_effects_have_words() {
    let error = ReadingEffectBridgeError::FrequencyIsolationUnavailable {
        min_hz_bits: 200.0_f32.to_bits(),
        max_hz_bits: 4_000.0_f32.to_bits(),
        nyquist_bits: 24_000.0_f32.to_bits(),
    };
    assert_eq!(
        error.message(&HostWords {
            low: "200.0".into(),
            high: "4000.0".into(),
            limit: "24000.0".into(),
            ..HostWords::none()
        }),
        "200.0–4000.0 Hz requests frequency isolation, but source audition currently requires \
         the full 0–24000.0 Hz band"
    );
    assert_eq!(
        ReadingEffectBridgeError::UnresolvedEntity(entity("air-object", 3))
            .message(&HostWords::none()),
        "reading entity Project { kind: \"air-object\", local_id: 3 } has no exact local identity"
    );
}

#[test]
fn a_new_document_keeps_no_comparisons() {
    let mut session = session(graph());
    session.adopt_interpretations(Arc::new(store(1)));
    let kept = ReadingEffectSnapshot::capture(&session).unwrap();
    assert!(kept.comparison_definition(ComparisonId(1)).is_some());
    assert!(session.install(Err("broken".into()), None).is_err());
    let left = ReadingEffectSnapshot::capture(&session).unwrap();
    assert!(left.comparison_definition(ComparisonId(1)).is_none());
    session.adopt_interpretations(Arc::new(store(1)));
    session.begin_loading("next.audec".into());
    assert!(session.interpretations().is_none());
}
