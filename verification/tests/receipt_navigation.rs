use std::collections::BTreeSet;
use std::sync::Arc;

use audec::command::{
    AssetId, BusId, Clip, ClipContent, ClipId, CommandEnvelope, DomainCommand, KitId, LaneChange,
    LaneId, MediaAliasId, PadId, ParameterKey, PatternAliasId, PatternId, SampleKit, SequenceClip,
    SequenceClipId, TrackId, ZoneId,
};
use audec::live_project::{
    AssetImportDisposition, AssetImportReply, ChangeSet, CommandOperation, ControllerReply,
    ControllerStep, LiveProjectSnapshot, PatternDefinition, PatternPlacement, ProjectController,
    ProjectControllerUpdate, ProjectDomain, ProjectHistoryStatus, ProjectJournalCheckpoint,
    ProjectRevisions, ProjectState, TrackBinding,
};
use audec::objects::{
    ArtifactId, AutomationOccurrenceRef, ComparisonId, ExplanationId, FindingRef, ObjectKind,
    ObjectRef, PadRef, PatternOccurrenceRef, RevealIntent, VirtualSliceRef,
};
use audec::publications::{
    apply_interpretation_revealed, import_asset_revealed, recommend_asset,
    recommend_comparison_execution, recommend_constructive_application,
    recommend_coverage_artifact, recommend_interpretation_commands, register_asset_revealed,
    ComparisonExecution, ConstructiveApplicationReceipt, ConstructiveBindings, ConstructiveFocus,
    InterpretationCommand, PutComparison, RegisteredAsset, ZoneTarget,
};
use audec::receipts::{
    apply_arrangement_reveal_selection, apply_pattern_reveal_selection, durable_reveal_rules,
    execute_arrangement_event_revealed, execute_control_action_revealed,
    execute_envelope_revealed, execute_pattern_action_revealed, recommend_command_result,
    ArrangementDispatch, ArrangementExecution, ArrangementExecutionError,
    ArrangementRevealReceipt, ControlRevealReceipt, CreatedControlIdentity, CurrentTerminal,
    DurableFlow, LoweredPatternAction, PatternEditorTarget, PatternRevealExecution,
    PatternRevealExecutionError, RevealIntegration,
};
use audec::session::{
    ControlSessionOperation, HistoryDirection, ProjectSession, ProjectSessionError,
    ProjectSessionId,
};
use audec::source_graph::{PlacedAudio, PlacedClip, SourceGraph};

const MASTER: BusId = BusId(1);

/// The kinds of mixer bus that the tests tell apart.
#[derive(Clone, Copy, Debug, PartialEq)]
enum BusKind {
    Source,
    Return,
    Group,
}

/// A project under edit, as the controller keeps it: every edit makes a new state
/// and can be undone.
struct Desk {
    revision: u64,
    sequence: u64,
    next: u64,
    state: Arc<ProjectState>,
    patterns: Vec<(PatternId, String)>,
    buses: Vec<(BusId, BusKind, String)>,
    gains: Vec<(BusId, f32)>,
    undo: Vec<(String, Arc<ProjectState>)>,
}

fn clips_only(clips: Vec<PlacedClip>) -> SourceGraph {
    SourceGraph {
        parameters: Vec::new(),
        transforms: Vec::new(),
        relations: Vec::new(),
        hypotheses: Vec::new(),
        objects: Vec::new(),
        spans: Vec::new(),
        asset_sources: Vec::new(),
        assets: Vec::new(),
        aliases: Vec::new(),
        clip_objects: Vec::new(),
        clips,
    }
}

fn copied(state: &ProjectState) -> ProjectState {
    ProjectState {
        placements: state.placements.clone(),
        definitions: state.definitions.clone(),
        media: state.media.clone(),
        lanes: state.lanes.clone(),
        tracks: state.tracks.clone(),
        buses: state.buses.clone(),
        automation: state.automation.clone(),
        graph: clips_only(state.graph.clips.clone()),
    }
}

fn blank() -> ProjectState {
    ProjectState {
        placements: Vec::new(),
        definitions: Vec::new(),
        media: Vec::new(),
        lanes: Vec::new(),
        tracks: Vec::new(),
        buses: vec![MASTER],
        automation: Vec::new(),
        graph: clips_only(Vec::new()),
    }
}

impl Desk {
    fn new(state: ProjectState) -> Desk {
        Desk {
            revision: 1,
            sequence: 0,
            next: 100,
            state: Arc::new(state),
            patterns: Vec::new(),
            buses: Vec::new(),
            gains: Vec::new(),
            undo: Vec::new(),
        }
    }

    fn id(&mut self) -> u64 {
        self.next += 1;
        self.next
    }

    fn snapshot(&self) -> LiveProjectSnapshot {
        LiveProjectSnapshot {
            revisions: ProjectRevisions {
                aggregate: self.revision,
            },
            dirty: self.sequence > 0,
            project: self.state.clone(),
        }
    }

    fn controller(&self) -> ProjectController {
        ProjectController {
            snapshot: self.snapshot(),
            history: ProjectHistoryStatus {
                can_undo: !self.undo.is_empty(),
                can_redo: false,
                undo_label: self.undo.last().map(|(label, _)| label.clone()),
                redo_label: None,
            },
            checkpoint: ProjectJournalCheckpoint {
                through_sequence: 0,
                project_revision: 1,
            },
            records: Arc::new(Vec::new()),
            pending: None,
        }
    }

    fn update(&self, operation: CommandOperation, domain: ProjectDomain) -> ProjectControllerUpdate {
        ProjectControllerUpdate {
            operation,
            snapshot: self.snapshot(),
            change_set: Arc::new(ChangeSet {
                domains: vec![domain],
            }),
            journal_sequence: self.sequence,
        }
    }

    fn apply(&mut self, label: &str, domain: ProjectDomain, state: ProjectState) -> ControllerReply {
        self.undo.push((label.to_string(), self.state.clone()));
        self.state = Arc::new(state);
        self.revision += 1;
        self.sequence += 1;
        ControllerReply {
            controller: self.controller(),
            update: self.update(CommandOperation::Execute, domain),
        }
    }

    fn step_back(&mut self) -> ControllerStep {
        let update = self.undo.pop().map(|(_, state)| {
            self.state = state;
            self.revision += 1;
            self.sequence += 1;
            self.update(CommandOperation::Undo, ProjectDomain::Mixer)
        });
        ControllerStep {
            controller: self.controller(),
            update,
        }
    }
}

fn envelope(base_revision: u64, label: &str, commands: Vec<DomainCommand>) -> CommandEnvelope {
    CommandEnvelope {
        label: label.to_string(),
        base_revision,
        coalesce: None,
        commands,
        id_claims: Vec::new(),
    }
}

fn session() -> (ProjectSession, Desk) {
    let desk = Desk::new(blank());
    let mut session = ProjectSession::new(ProjectSessionId(601)).unwrap();
    session.install(Ok(desk.controller()), None).unwrap();
    (session, desk)
}

fn audio_session() -> (ProjectSession, Desk, ClipId) {
    let clip = ClipId(3);
    let mut state = blank();
    state.buses.push(BusId(2));
    state.tracks.push(TrackBinding {
        track: TrackId(4),
        bus: BusId(2),
    });
    state.graph.clips.push(PlacedClip {
        id: clip,
        start: 0,
        end: 16,
        audio: Some(PlacedAudio {
            asset: MediaAliasId(5),
            source_start: 0,
            unity: true,
        }),
    });
    let mut desk = Desk::new(state);
    desk.buses.push((BusId(2), BusKind::Source, "Source".into()));
    let mut session = ProjectSession::new(ProjectSessionId(602)).unwrap();
    session.install(Ok(desk.controller()), None).unwrap();
    (session, desk, clip)
}

fn aggregate(session: &ProjectSession) -> u64 {
    session.project_snapshot().unwrap().revisions.aggregate
}

fn has_clip(state: &ProjectState, clip: ClipId) -> bool {
    state.graph.clips.iter().any(|placed| placed.id == clip)
}

fn has_pattern(state: &ProjectState, pattern: PatternId) -> bool {
    state
        .definitions
        .iter()
        .any(|definition| definition.pattern == pattern)
}

#[test]
fn inventory_has_one_machine_rule_per_audited_flow() {
    let rules = durable_reveal_rules();
    let flows = rules.iter().map(|rule| rule.flow).collect::<BTreeSet<_>>();
    assert_eq!(flows.len(), rules.len());
    assert!(rules.iter().all(|rule| !rule.adapter.is_empty()));
    assert!(rules
        .iter()
        .all(|rule| rule.intent == RevealIntent::ActivateExisting));

    let revision_only = rules
        .iter()
        .filter(|rule| rule.current_terminal == CurrentTerminal::RevisionOnly)
        .map(|rule| rule.flow)
        .collect::<BTreeSet<_>>();
    assert_eq!(
        revision_only,
        BTreeSet::from([
            DurableFlow::ArrangementTrackCreate,
            DurableFlow::ArrangementAudioClipDuplicate,
            DurableFlow::ArrangementPatternClipDuplicate,
            DurableFlow::ArrangementAutomationClipDuplicate,
            DurableFlow::ArrangementAudioClipSplit,
            DurableFlow::ArrangementPatternClipSplit,
            DurableFlow::ArrangementAutomationClipSplit,
            DurableFlow::ArrangementMediaInsert,
            DurableFlow::ArrangementPatternInsert,
        ])
    );
    assert!(rules.iter().all(|rule| {
        rule.integration != RevealIntegration::DetachedDurableStore
            || matches!(
                rule.flow,
                DurableFlow::ExplanationCreate
                    | DurableFlow::ComparisonCreate
                    | DurableFlow::ComparisonResolve
                    | DurableFlow::CoveragePublish
                    | DurableFlow::ReadingImport
            )
    }));
    let pattern = rules
        .iter()
        .find(|rule| rule.flow == DurableFlow::PatternCreate)
        .unwrap();
    assert_eq!(pattern.primary, ObjectKind::Pattern);
}

fn pattern_action(
    session: &mut ProjectSession,
    desk: &mut Desk,
    name: &str,
    source: Option<PatternId>,
) -> PatternRevealExecution {
    let pattern = PatternId(desk.id());
    let alias = PatternAliasId(desk.id());
    desk.patterns.push((pattern, name.to_string()));
    let mut state = copied(&desk.state);
    state.definitions.push(PatternDefinition { alias, pattern });
    let envelope = envelope(
        aggregate(session),
        "pattern",
        vec![
            DomainCommand::PutPattern {
                before: None,
                after: Some(pattern),
            },
            DomainCommand::PutPatternDefinitionAlias {
                alias,
                after: Some(pattern),
            },
        ],
    );
    let reply = desk.apply("pattern", ProjectDomain::Sequencer, state);
    execute_pattern_action_revealed(
        session,
        source,
        Ok(LoweredPatternAction::Execute {
            envelope,
            reply: Ok(reply),
        }),
    )
    .unwrap()
}

fn create_pattern(session: &mut ProjectSession, desk: &mut Desk, name: &str) -> PatternId {
    let execution = pattern_action(session, desk, name, None);
    let selection = apply_pattern_reveal_selection(&execution).expect("created pattern");
    let ObjectRef::Pattern(pattern) = selection.primary else {
        panic!("pattern create must name ObjectRef::Pattern")
    };
    pattern
}

#[test]
fn pattern_create_returns_the_exact_new_pattern_reveal() {
    let (mut session, mut desk) = session();
    let PatternRevealExecution::ProjectChanged(receipt) =
        pattern_action(&mut session, &mut desk, "New beat", None)
    else {
        panic!("pattern create must publish")
    };
    let reveal = receipt.reveal.expect("created pattern is revealable");
    assert_eq!(
        reveal.request.expected_project_revision,
        Some(receipt.edit.publication.revisions.aggregate)
    );
    assert!(receipt.edit.publication.change_set.is_some());
    let ObjectRef::Pattern(pattern) = reveal.request.object else {
        panic!("pattern create must reveal its exact pattern")
    };
    assert!(has_pattern(
        &session.project_snapshot().unwrap().project,
        pattern
    ));
    assert_eq!(desk.patterns, vec![(pattern, "New beat".to_string())]);
    assert_eq!(reveal.request.intent, RevealIntent::ActivateExisting);
}

#[test]
fn revision_only_arrangement_create_has_a_rich_adapter() {
    let (mut session, mut desk) = session();
    let track = TrackId(desk.id());
    let bus = BusId(desk.id());
    let mut state = copied(&desk.state);
    state.tracks.push(TrackBinding { track, bus });
    state.buses.push(bus);
    let created = envelope(
        aggregate(&session),
        "create track",
        vec![DomainCommand::PutTrack {
            before: None,
            after: Some(track),
        }],
    );
    let reply = desk.apply("create track", ProjectDomain::Arrangement, state);
    let receipt = execute_arrangement_event_revealed(
        &mut session,
        Ok(ArrangementDispatch::Apply {
            envelope: created,
            reply: Ok(reply),
        }),
    )
    .unwrap();
    assert!(matches!(
        receipt.execution,
        ArrangementExecution::ProjectChanged(_)
    ));
    let edit = receipt.edit.as_ref().expect("arrangement edit receipt");
    assert!(edit.publication.change_set.is_some());
    let reveal = receipt.reveal.expect("created track is revealable");
    assert_eq!(
        reveal.request.expected_project_revision,
        Some(edit.publication.revisions.aggregate)
    );
    let ObjectRef::Track(track) = reveal.request.object else {
        panic!("track creation must reveal its exact track")
    };
    let state = &session.project_snapshot().unwrap().project;
    assert!(state.tracks.iter().any(|binding| binding.track == track));
    assert!(reveal
        .request
        .related
        .iter()
        .any(|object| matches!(object, ObjectRef::Bus(_))));
}

#[test]
fn typed_id_receipts_have_lossless_reveals() {
    let asset = AssetId(17);
    let material = recommend_asset(asset);
    assert_eq!(material.request.object, ObjectRef::Material(asset));
}

/// Adds a clip with the content of another, as duplicating and splitting do. With
/// `cut`, the other clip is put again, shortened to make room.
fn second_clip(
    session: &mut ProjectSession,
    desk: &mut Desk,
    source: ClipId,
    content: ClipContent,
    cut: Option<i64>,
) -> ArrangementRevealReceipt {
    let clip = ClipId(desk.id());
    let mut state = copied(&desk.state);
    let at = state
        .graph
        .clips
        .iter()
        .position(|placed| placed.id == source)
        .unwrap();
    let before = state.graph.clips[at];
    let track_id = TrackId(4);
    let mut commands = Vec::new();
    if let Some(frame) = cut {
        state.graph.clips[at].end = frame;
        let shortened = Clip {
            id: source,
            track_id,
            content,
        };
        commands.push(DomainCommand::PutClip {
            before: Some(shortened),
            after: Some(shortened),
        });
    }
    state.graph.clips.push(PlacedClip {
        id: clip,
        start: cut.unwrap_or(before.start),
        ..before
    });
    if let ClipContent::Pattern { .. } = content {
        let sequence = SequenceClipId(desk.id());
        state.placements.push(PatternPlacement {
            clip,
            sequence_clip: sequence,
        });
        commands.push(DomainCommand::PutPatternPlacement {
            clip,
            after: Some(sequence),
        });
    }
    commands.push(DomainCommand::PutClip {
        before: None,
        after: Some(Clip {
            id: clip,
            track_id,
            content,
        }),
    });
    let envelope = envelope(aggregate(session), "clip", commands);
    let reply = desk.apply("clip", ProjectDomain::Arrangement, state);
    execute_arrangement_event_revealed(
        session,
        Ok(ArrangementDispatch::Apply {
            envelope,
            reply: Ok(reply),
        }),
    )
    .unwrap()
}

fn assert_created_clip_is_new(receipt: &ArrangementRevealReceipt, source: ClipId) -> ObjectRef {
    let selection =
        apply_arrangement_reveal_selection(receipt).expect("creating edit names an object");
    let created = match &selection.primary {
        ObjectRef::AudioClip(clip) => *clip,
        ObjectRef::PatternOccurrence(occurrence) => occurrence.arrangement_clip,
        other => panic!("clip create/duplicate/split must name the new clip, got {other:?}"),
    };
    assert_ne!(created, source, "reveal must not be the source clip");
    let state = &receipt
        .edit
        .as_ref()
        .expect("creating edit has a publication")
        .publication
        .snapshot
        .project;
    assert!(has_clip(state, created));
    assert!(has_clip(state, source));
    selection.primary
}

#[test]
fn audio_duplicate_and_split_reveal_the_new_clip_not_the_source() {
    let (mut session, mut desk, source) = audio_session();
    let content = ClipContent::Audio {
        asset: MediaAliasId(5),
    };
    let duplicated = second_clip(&mut session, &mut desk, source, content, None);
    let ObjectRef::AudioClip(duplicate) = assert_created_clip_is_new(&duplicated, source) else {
        panic!("audio duplicate must recommend ObjectRef::AudioClip")
    };

    let split = second_clip(&mut session, &mut desk, source, content, Some(8));
    let ObjectRef::AudioClip(right) = assert_created_clip_is_new(&split, source) else {
        panic!("audio split must recommend ObjectRef::AudioClip")
    };
    assert_ne!(right, duplicate);
    assert_ne!(right, source);
}

#[test]
fn pattern_occurrence_duplicate_and_split_reveal_the_new_occurrence() {
    let (mut session, mut desk) = session();
    let pattern = create_pattern(&mut session, &mut desk, "Phrase");
    let alias = desk.state.definitions[0].alias;
    assert_eq!(desk.state.definitions[0].pattern, pattern);
    let content = ClipContent::Pattern { pattern: alias };

    let clip = ClipId(desk.id());
    let sequence = SequenceClipId(desk.id());
    let mut state = copied(&desk.state);
    state.graph.clips.push(PlacedClip {
        id: clip,
        start: 0,
        end: 96_000,
        audio: None,
    });
    state.placements.push(PatternPlacement {
        clip,
        sequence_clip: sequence,
    });
    let insert = envelope(
        aggregate(&session),
        "insert pattern",
        vec![
            DomainCommand::PutSequenceClip {
                before: None,
                after: Some(SequenceClip {
                    id: sequence,
                    pattern,
                }),
            },
            DomainCommand::PutPatternPlacement {
                clip,
                after: Some(sequence),
            },
            DomainCommand::PutClip {
                before: None,
                after: Some(Clip {
                    id: clip,
                    track_id: TrackId(4),
                    content,
                }),
            },
        ],
    );
    let reply = desk.apply("insert pattern", ProjectDomain::Arrangement, state);
    let inserted = execute_arrangement_event_revealed(
        &mut session,
        Ok(ArrangementDispatch::Apply {
            envelope: insert,
            reply: Ok(reply),
        }),
    )
    .unwrap();
    let ObjectRef::PatternOccurrence(source) = apply_arrangement_reveal_selection(&inserted)
        .expect("pattern insert names the occurrence")
        .primary
    else {
        panic!("pattern insert must recommend PatternOccurrence")
    };
    assert_eq!(
        source,
        PatternOccurrenceRef {
            arrangement_clip: clip,
            sequencer_clip: Some(sequence),
            pattern: Some(pattern),
        }
    );

    let duplicated = second_clip(
        &mut session,
        &mut desk,
        source.arrangement_clip,
        content,
        None,
    );
    let ObjectRef::PatternOccurrence(duplicate) =
        assert_created_clip_is_new(&duplicated, source.arrangement_clip)
    else {
        panic!("pattern duplicate must recommend PatternOccurrence")
    };
    assert_ne!(duplicate.arrangement_clip, source.arrangement_clip);

    let split = second_clip(
        &mut session,
        &mut desk,
        source.arrangement_clip,
        content,
        Some(48_000),
    );
    let ObjectRef::PatternOccurrence(right) =
        assert_created_clip_is_new(&split, source.arrangement_clip)
    else {
        panic!("pattern split must recommend PatternOccurrence")
    };
    assert_ne!(right.arrangement_clip, source.arrangement_clip);
    assert_ne!(right.arrangement_clip, duplicate.arrangement_clip);
}

#[test]
fn selection_only_and_non_creating_arrangement_events_have_no_reveal() {
    let (mut session, mut desk, source) = audio_session();
    let selection_only =
        execute_arrangement_event_revealed(&mut session, Ok(ArrangementDispatch::SelectionOnly))
            .unwrap();
    assert!(matches!(
        selection_only.execution,
        ArrangementExecution::SelectionOnly
    ));
    assert!(selection_only.reveal.is_none());
    assert!(apply_arrangement_reveal_selection(&selection_only).is_none());

    let seek =
        execute_arrangement_event_revealed(&mut session, Ok(ArrangementDispatch::Seek { frame: 3 }))
            .unwrap();
    assert_eq!(seek.execution, ArrangementExecution::Seek { frame: 3 });
    assert!(seek.reveal.is_none());
    assert!(apply_arrangement_reveal_selection(&seek).is_none());

    let mut state = copied(&desk.state);
    state.graph.clips[0].start += 16;
    state.graph.clips[0].end += 16;
    let moved_clip = envelope(
        aggregate(&session),
        "move clip",
        vec![DomainCommand::PutClip {
            before: Some(Clip {
                id: source,
                track_id: TrackId(4),
                content: ClipContent::Audio {
                    asset: MediaAliasId(5),
                },
            }),
            after: Some(Clip {
                id: source,
                track_id: TrackId(4),
                content: ClipContent::Audio {
                    asset: MediaAliasId(5),
                },
            }),
        }],
    );
    let reply = desk.apply("move clip", ProjectDomain::Arrangement, state);
    let moved = execute_arrangement_event_revealed(
        &mut session,
        Ok(ArrangementDispatch::Apply {
            envelope: moved_clip,
            reply: Ok(reply),
        }),
    )
    .unwrap();
    assert!(matches!(
        moved.execution,
        ArrangementExecution::ProjectChanged(_)
    ));
    assert!(moved.reveal.is_none());
    assert!(apply_arrangement_reveal_selection(&moved).is_none());
}

#[test]
fn pattern_duplicate_reveals_the_new_pattern_not_the_source() {
    let (mut session, mut desk) = session();
    let source = create_pattern(&mut session, &mut desk, "Lead");
    let execution = pattern_action(&mut session, &mut desk, "Lead copy", Some(source));
    let selection = apply_pattern_reveal_selection(&execution).expect("duplicated pattern");
    let ObjectRef::Pattern(duplicate) = selection.primary else {
        panic!("pattern duplicate must recommend ObjectRef::Pattern")
    };
    assert_ne!(duplicate, source);
    assert!(selection.related.contains(&ObjectRef::Pattern(source)));
    let state = &session.project_snapshot().unwrap().project;
    assert!(has_pattern(state, source));
    assert!(has_pattern(state, duplicate));
    let PatternRevealExecution::ProjectChanged(receipt) = &execution else {
        panic!("pattern duplicate must publish")
    };
    assert_eq!(
        receipt
            .reveal
            .as_ref()
            .unwrap()
            .request
            .expected_project_revision,
        Some(aggregate(&session))
    );
}

fn add_bus(
    session: &mut ProjectSession,
    desk: &mut Desk,
    kind: BusKind,
    name: &str,
) -> ControlRevealReceipt {
    let bus = BusId(desk.id());
    desk.buses.push((bus, kind, name.to_string()));
    let mut state = copied(&desk.state);
    state.buses.push(bus);
    let reply = desk.apply(name, ProjectDomain::Mixer, state);
    execute_control_action_revealed(
        session,
        Ok(Some(CreatedControlIdentity::MixerBus(bus))),
        Ok(ControlSessionOperation::Execute { reply: Ok(reply) }),
    )
    .unwrap()
}

fn assert_created_bus(
    session: &ProjectSession,
    desk: &Desk,
    receipt: &ControlRevealReceipt,
    kind: BusKind,
) -> BusId {
    let ObjectRef::Bus(id) = receipt.primary.expect("create names a bus") else {
        panic!("mixer create must recommend ObjectRef::Bus")
    };
    let reveal = receipt.reveal.as_ref().expect("created bus is revealable");
    assert_eq!(reveal.request.object, ObjectRef::Bus(id));
    assert_eq!(reveal.request.intent, RevealIntent::ActivateExisting);
    assert_eq!(
        reveal.request.expected_project_revision,
        receipt.revisions.map(|revisions| revisions.aggregate)
    );
    assert!(receipt.revisions.is_some());
    let state = &session.project_snapshot().unwrap().project;
    assert!(state.buses.contains(&id));
    assert!(desk
        .buses
        .iter()
        .any(|(bus, found, _)| *bus == id && *found == kind));
    id
}

#[test]
fn add_return_reveal_names_the_created_bus() {
    let (mut session, mut desk) = session();
    let receipt = add_bus(&mut session, &mut desk, BusKind::Return, "Room");
    let id = assert_created_bus(&session, &desk, &receipt, BusKind::Return);
    session.undo(Ok(desk.step_back())).unwrap();
    assert!(!session
        .project_snapshot()
        .unwrap()
        .project
        .buses
        .contains(&id));
}

#[test]
fn add_group_reveal_names_the_created_bus() {
    let (mut session, mut desk) = session();
    let receipt = add_bus(&mut session, &mut desk, BusKind::Group, "Music");
    let id = assert_created_bus(&session, &desk, &receipt, BusKind::Group);
    session.undo(Ok(desk.step_back())).unwrap();
    assert!(!session
        .project_snapshot()
        .unwrap()
        .project
        .buses
        .contains(&id));
}

#[test]
fn gain_change_has_no_created_identity() {
    let (mut session, mut desk, _) = audio_session();
    let bus = desk
        .buses
        .iter()
        .find(|(_, kind, _)| *kind == BusKind::Source)
        .expect("source material installs a source bus")
        .0;
    let buses_before = session.project_snapshot().unwrap().project.buses.clone();
    desk.gains.push((bus, -6.0));
    let state = copied(&desk.state);
    let reply = desk.apply("gain", ProjectDomain::Mixer, state);
    let receipt = execute_control_action_revealed(
        &mut session,
        Ok(None),
        Ok(ControlSessionOperation::Execute { reply: Ok(reply) }),
    )
    .unwrap();
    assert!(receipt.primary.is_none());
    assert!(receipt.reveal.is_none());
    assert!(receipt.revisions.is_some());
    assert_eq!(
        session.project_snapshot().unwrap().project.buses,
        buses_before
    );
    assert_eq!(desk.gains, vec![(bus, -6.0)]);
}

#[test]
fn create_lane_reveal_names_the_created_lane() {
    let (mut session, mut desk) = session();
    let lane = LaneId(desk.id());
    let mut state = copied(&desk.state);
    state.automation.push(lane);
    let reply = desk.apply("Master gain", ProjectDomain::Automation, state);
    let receipt = execute_control_action_revealed(
        &mut session,
        Ok(Some(CreatedControlIdentity::AutomationLane(lane))),
        Ok(ControlSessionOperation::Execute { reply: Ok(reply) }),
    )
    .unwrap();
    let ObjectRef::Automation(id) = receipt.primary.expect("CreateLane names a lane") else {
        panic!("lane create must recommend ObjectRef::Automation")
    };
    let reveal = receipt.reveal.as_ref().expect("created lane is revealable");
    assert_eq!(reveal.request.object, ObjectRef::Automation(id));
    assert_eq!(reveal.request.intent, RevealIntent::ActivateExisting);
    assert_eq!(
        reveal.request.expected_project_revision,
        receipt.revisions.map(|revisions| revisions.aggregate)
    );
    assert!(session
        .project_snapshot()
        .unwrap()
        .project
        .automation
        .contains(&id));
    session.undo(Ok(desk.step_back())).unwrap();
    assert!(!session
        .project_snapshot()
        .unwrap()
        .project
        .automation
        .contains(&id));
}

#[test]
fn a_control_identity_that_was_not_published_is_refused() {
    let (mut session, mut desk) = session();
    let state = copied(&desk.state);
    let reply = desk.apply("lost", ProjectDomain::Mixer, state);
    let refused = execute_control_action_revealed(
        &mut session,
        Ok(Some(CreatedControlIdentity::MixerBus(BusId(77)))),
        Ok(ControlSessionOperation::Execute { reply: Ok(reply) }),
    );
    assert_eq!(
        refused,
        Err(ProjectSessionError::Action(
            "control create allocated Bus(BusId(77)) but the published snapshot does not contain it"
                .into()
        ))
    );
    let unlowered = execute_control_action_revealed(
        &mut session,
        Err("no such control".into()),
        Err("no such control".into()),
    );
    assert_eq!(
        unlowered,
        Err(ProjectSessionError::Action("no such control".into()))
    );
}

#[test]
fn history_steps_and_lowering_faults_are_told_apart() {
    let (mut session, mut desk) = session();
    let nothing = execute_arrangement_event_revealed(
        &mut session,
        Ok(ArrangementDispatch::History {
            kind: HistoryDirection::Undo,
            step: Ok(desk.step_back()),
        }),
    )
    .unwrap();
    assert_eq!(
        nothing.execution,
        ArrangementExecution::HistoryUnchanged(HistoryDirection::Undo)
    );
    assert!(nothing.edit.is_none() && nothing.reveal.is_none());
    assert_eq!(
        execute_arrangement_event_revealed(&mut session, Err("stale".into())),
        Err(ArrangementExecutionError::Lowering("stale".into()))
    );
    assert_eq!(
        execute_pattern_action_revealed(&mut session, None, Err("stale".into())),
        Err(PatternRevealExecutionError::Lowering("stale".into()))
    );
    let target = PatternEditorTarget {
        pattern: PatternId(8),
    };
    let retarget = execute_pattern_action_revealed(
        &mut session,
        None,
        Ok(LoweredPatternAction::Retarget { target }),
    )
    .unwrap();
    assert_eq!(retarget, PatternRevealExecution::Retarget(target));
    assert!(apply_pattern_reveal_selection(&retarget).is_none());
    create_pattern(&mut session, &mut desk, "Undone");
    let undone = execute_pattern_action_revealed(
        &mut session,
        None,
        Ok(LoweredPatternAction::Undo {
            step: Ok(desk.step_back()),
        }),
    )
    .unwrap();
    let PatternRevealExecution::HistoryChanged(Some(receipt)) = undone else {
        panic!("an undone edit has a receipt")
    };
    assert_eq!(receipt.operation, CommandOperation::Undo);
}

#[test]
fn envelope_failures_come_from_the_controller_unchanged() {
    let (mut session, _) = session();
    let before = aggregate(&session);
    let refused = execute_envelope_revealed(
        &mut session,
        &envelope(before, "refused", Vec::new()),
        Err("stale base revision".into()),
    );
    assert_eq!(
        refused,
        Err(ProjectSessionError::Controller("stale base revision".into()))
    );
    assert_eq!(aggregate(&session), before);
    let mut empty = ProjectSession::new(ProjectSessionId(9)).unwrap();
    assert_eq!(
        execute_envelope_revealed(&mut empty, &envelope(0, "none", Vec::new()), Err("".into())),
        Err(ProjectSessionError::NoProject)
    );
}

#[test]
fn created_objects_are_revealed_by_closeness_to_what_sounds() {
    let state = blank();
    let kit = recommend_command_result(
        &envelope(
            1,
            "kit",
            vec![
                DomainCommand::PutAsset {
                    id: AssetId(6),
                    existed: false,
                    exists: true,
                },
                DomainCommand::PutSampleKit {
                    before: None,
                    after: Some(SampleKit {
                        id: KitId(7),
                        pad_order: vec![PadId(1), PadId(2)],
                    }),
                },
            ],
        ),
        &state,
    )
    .unwrap();
    assert!(kit
        .request
        .related
        .contains(&ObjectRef::Material(AssetId(6))));
    assert!(kit.request.expected_project_revision.is_none());

    let lanes = recommend_command_result(
        &envelope(
            1,
            "lanes",
            vec![DomainCommand::PutAutomation {
                changes: vec![
                    LaneChange {
                        before: Some(LaneId(1)),
                        after: Some(LaneId(1)),
                    },
                    LaneChange {
                        before: None,
                        after: Some(LaneId(2)),
                    },
                ],
            }],
        ),
        &state,
    )
    .unwrap();
    assert_eq!(lanes.request.object, ObjectRef::Automation(LaneId(2)));

    let mut bound = blank();
    bound.lanes.push(audec::live_project::LaneBinding {
        parameter: ParameterKey(5),
        lane: LaneId(9),
    });
    let automation = recommend_command_result(
        &envelope(
            1,
            "automation clip",
            vec![DomainCommand::PutClip {
                before: None,
                after: Some(Clip {
                    id: ClipId(3),
                    track_id: TrackId(1),
                    content: ClipContent::Automation {
                        parameter: ParameterKey(5),
                    },
                }),
            }],
        ),
        &bound,
    )
    .unwrap();
    assert_eq!(
        automation.request.object,
        ObjectRef::AutomationOccurrence(AutomationOccurrenceRef {
            arrangement_clip: ClipId(3),
            lane: LaneId(9),
        })
    );

    assert!(recommend_command_result(
        &envelope(1, "nothing", vec![DomainCommand::Other]),
        &state
    )
    .is_none());
}

#[test]
fn imported_assets_are_revealed_whether_new_or_reused() {
    let (mut session, mut desk) = session();
    let state = copied(&desk.state);
    let base = aggregate(&session);
    let reply = desk.apply("import", ProjectDomain::Assets, state);
    let publication = import_asset_revealed(
        &mut session,
        base,
        Ok(AssetImportReply {
            controller: reply.controller,
            asset: AssetId(21),
            disposition: AssetImportDisposition::Created,
            decoded_pcm: "pcm".into(),
            duplicate_predecessors: vec![AssetId(20)],
            update: Some(reply.update),
        }),
    )
    .unwrap();
    assert_eq!(
        publication.reveal.request.object,
        ObjectRef::Material(AssetId(21))
    );
    assert!(publication.edit.is_some());
    assert_eq!(
        publication.reveal.request.expected_project_revision,
        Some(aggregate(&session))
    );
    assert_eq!(
        publication.reveal.request.related,
        vec![ObjectRef::Material(AssetId(20))]
    );

    let reused = import_asset_revealed(
        &mut session,
        55,
        Ok(AssetImportReply {
            controller: desk.controller(),
            asset: AssetId(21),
            disposition: AssetImportDisposition::ReusedExactContent,
            decoded_pcm: "pcm".into(),
            duplicate_predecessors: Vec::new(),
            update: None,
        }),
    )
    .unwrap();
    assert!(reused.edit.is_none());
    assert_eq!(reused.reveal.request.expected_project_revision, Some(55));
    assert_eq!(
        import_asset_revealed(&mut session, base, Err("stale".into())),
        Err(ProjectSessionError::Controller("stale".into()))
    );
}

#[test]
fn registering_an_asset_names_what_it_duplicates() {
    let assets = vec![
        RegisteredAsset {
            id: AssetId(1),
            content: "aa".into(),
        },
        RegisteredAsset {
            id: AssetId(2),
            content: "bb".into(),
        },
        RegisteredAsset {
            id: AssetId(3),
            content: "aa".into(),
        },
    ];
    let publication = register_asset_revealed(&assets, "aa", Ok(AssetId(4))).unwrap();
    assert_eq!(
        publication.duplicate_predecessors,
        vec![AssetId(1), AssetId(3)]
    );
    assert_eq!(
        publication.reveal.request.object,
        ObjectRef::Material(AssetId(4))
    );
    assert_eq!(
        register_asset_revealed(&assets, "aa", Err("full".into())),
        Err("full".into())
    );
}

#[test]
fn constructive_applications_reveal_their_focus() {
    let receipt = |focus: ConstructiveFocus, pattern: Option<PatternId>| {
        ConstructiveApplicationReceipt {
            project_revision: 31,
            focus,
            bindings: ConstructiveBindings {
                kit: KitId(1),
                pattern,
                arrangement_clip: None,
                sequencer_clip: None,
                created_pads: vec![PadId(2)],
                created_zones: vec![ZoneTarget {
                    kit: KitId(1),
                    pad: PadId(2),
                    zone: ZoneId(3),
                }],
                arrangement_track: None,
                output_bus: BusId(4),
            },
            materials: vec![VirtualSliceRef {
                source_asset: AssetId(5),
                start_frame: 0,
                end_frame: 10,
            }],
        }
    };
    let kit = recommend_constructive_application(&receipt(ConstructiveFocus::Kit, None));
    assert_eq!(kit.request.object, ObjectRef::Instrument(KitId(1)));
    assert_eq!(kit.request.expected_project_revision, Some(31));
    assert!(kit.request.related.contains(&ObjectRef::Bus(BusId(4))));
    let pad = recommend_constructive_application(&receipt(
        ConstructiveFocus::Pad(PadId(2)),
        Some(PatternId(6)),
    ));
    assert_eq!(
        pad.request.object,
        ObjectRef::Pad(PadRef {
            kit: KitId(1),
            pad: PadId(2),
            zone: None,
        })
    );
    assert!(pad.request.related.contains(&ObjectRef::Pad(PadRef {
        kit: KitId(1),
        pad: PadId(2),
        zone: Some(ZoneId(3)),
    })));
    assert!(pad
        .request
        .related
        .contains(&ObjectRef::Pattern(PatternId(6))));
}

#[test]
fn interpretation_commands_reveal_what_is_closest() {
    let commands = vec![
        InterpretationCommand::PutExplanation {
            before: None,
            after: Some(ExplanationId(1)),
        },
        InterpretationCommand::PutComparison {
            before: None,
            after: Some(PutComparison {
                id: ComparisonId(2),
                explanation: ExplanationId(1),
                source: VirtualSliceRef {
                    source_asset: AssetId(3),
                    start_frame: 4,
                    end_frame: 5,
                },
            }),
        },
    ];
    let plain = recommend_interpretation_commands(&commands).unwrap();
    assert_eq!(plain.request.object, ObjectRef::Comparison(ComparisonId(2)));
    let applied = apply_interpretation_revealed(&commands, Ok(Vec::new())).unwrap();
    assert_eq!(applied.reveal, Some(plain));
    assert!(applied.inverse.is_empty());
    assert_eq!(
        apply_interpretation_revealed(&commands, Err("stale".into())),
        Err("stale".into())
    );
    assert!(recommend_interpretation_commands(&Vec::new()).is_none());
}

#[test]
fn observations_and_coverage_name_their_comparison() {
    let executed = recommend_comparison_execution(&ComparisonExecution {
        comparison: ComparisonId(2),
        explanation: ExplanationId(1),
    });
    assert_eq!(
        executed.request.object,
        ObjectRef::Comparison(ComparisonId(2))
    );
    assert_eq!(
        executed.request.related,
        vec![ObjectRef::Explanation(ExplanationId(1))]
    );
    let coverage = recommend_coverage_artifact(ArtifactId(9), ComparisonId(2));
    assert!(matches!(
        coverage.request.object,
        ObjectRef::Finding(FindingRef {
            artifact: ArtifactId(9),
            ..
        })
    ));
    assert!(coverage
        .request
        .related
        .contains(&ObjectRef::Comparison(ComparisonId(2))));
}
