use std::collections::BTreeMap;
use std::sync::Arc;

use audec::command::{AssetId, BusId, ClipId, TrackId};
use audec::event_log::{
    ProjectAudioStatus, ProjectEventFilter, ProjectEventLog, ProjectLifecycle,
    ProjectSessionEvent, ViewLinkDelivery,
};
use audec::live_project::{
    AssetEffect, AssetImportDisposition, AssetImportReply, ChangeSet, CommandJournalRecord,
    CommandOperation, ControllerReply, ControllerStep, LiveProjectSnapshot, ProjectController,
    ProjectControllerUpdate, ProjectDomain, ProjectHistoryStatus, ProjectJournalCheckpoint,
    ProjectJournalDelta, ProjectRevisions, ProjectState, TrackBinding,
};
use audec::objects::ObjectRef;
use audec::selection::{
    EditCursor, ObjectSelection, ProjectSelection, SelectionGuard, SelectionGuardError,
    SelectionProvenance, SelectionSource, WorkspaceViewId,
};
use audec::session::{
    selection_document_id, AnalysisHandle, ControlSessionOperation, HistoryDirection, LinkedView,
    PatternWorkflowOutcome, PatternWorkflowReply, ProjectEditReceipt, ProjectSession,
    ProjectSessionError, ProjectSessionId, SampleActionOutcome, SampleActionReply, SavedMark,
    ViewLinkError, ViewLinkMembership, ViewLinkRegistry,
};
use audec::source_graph::{AssetRecord, PlacedClip, SourceGraph};

const TRACK: TrackId = TrackId(1);
const CLIP: ClipId = ClipId(2);
const BUS: BusId = BusId(3);

/// What the project sounds like at one revision.
#[derive(Clone, Debug, PartialEq)]
struct World {
    gain_db: f32,
    assets: BTreeMap<u64, String>,
    pcm: BTreeMap<u64, Vec<f32>>,
    sample_pcm: BTreeMap<u64, Vec<f32>>,
}

impl World {
    fn source() -> World {
        World {
            gain_db: 0.0,
            assets: BTreeMap::from([(1, "session source".to_string())]),
            pcm: BTreeMap::from([(1, vec![0.0, 0.8, 0.2, 0.0, 0.4, 0.0])]),
            sample_pcm: BTreeMap::new(),
        }
    }

    fn state(&self) -> ProjectState {
        ProjectState {
            placements: Vec::new(),
            definitions: Vec::new(),
            media: Vec::new(),
            lanes: Vec::new(),
            tracks: vec![TrackBinding {
                track: TRACK,
                bus: BUS,
            }],
            buses: vec![BUS],
            automation: Vec::new(),
            graph: SourceGraph {
                parameters: Vec::new(),
                transforms: Vec::new(),
                relations: Vec::new(),
                hypotheses: Vec::new(),
                objects: Vec::new(),
                spans: Vec::new(),
                asset_sources: Vec::new(),
                assets: self
                    .assets
                    .keys()
                    .map(|id| AssetRecord {
                        id: AssetId(*id),
                        nyquist_bits: 24_000.0_f32.to_bits(),
                    })
                    .collect(),
                aliases: Vec::new(),
                clip_objects: Vec::new(),
                clips: vec![PlacedClip {
                    id: CLIP,
                    start: 0,
                    end: 6,
                    audio: None,
                }],
            },
        }
    }
}

/// One edit, as the journal writes it down.
#[derive(Clone, Debug, PartialEq)]
enum Edit {
    Gain(f32),
    Sample { start: usize, end: usize },
    Import { asset: u64, content: String },
    Undo,
    Redo,
}

/// A controller that keeps the project, its history and its journal.
struct Rig {
    revision: u64,
    sequence: u64,
    saved: u64,
    world: World,
    worlds: BTreeMap<u64, World>,
    undo: Vec<(String, Option<u64>, World)>,
    redo: Vec<(String, World)>,
    edits: Vec<Edit>,
    records: Vec<(u64, u64)>,
    durable: ProjectJournalCheckpoint,
}

impl Rig {
    fn new(world: World) -> Rig {
        Rig {
            revision: 1,
            sequence: 0,
            saved: 1,
            worlds: BTreeMap::from([(1, world.clone())]),
            world,
            undo: Vec::new(),
            redo: Vec::new(),
            edits: Vec::new(),
            records: Vec::new(),
            durable: ProjectJournalCheckpoint {
                through_sequence: 0,
                project_revision: 1,
            },
        }
    }

    fn snapshot(&self) -> LiveProjectSnapshot {
        LiveProjectSnapshot {
            revisions: ProjectRevisions {
                aggregate: self.revision,
            },
            dirty: self.revision != self.saved,
            project: Arc::new(self.world.state()),
        }
    }

    fn record(&self, index: usize) -> CommandJournalRecord {
        let (base_revision, resulting_revision) = self.records[index];
        CommandJournalRecord {
            sequence: index as u64 + 1,
            base_revision,
            resulting_revision,
            batch: format!("{:?}", self.edits[index]),
            effects: match &self.edits[index] {
                Edit::Import { asset, .. } => vec![AssetEffect::Put {
                    asset: AssetId(*asset),
                    present: true,
                }],
                _ => vec![AssetEffect::Untouched],
            },
        }
    }

    fn pending(&self) -> Option<Arc<ProjectJournalDelta>> {
        let written = self.durable.through_sequence as usize;
        if written == self.records.len() {
            return None;
        }
        Some(Arc::new(ProjectJournalDelta {
            checkpoint: self.durable,
            through_sequence: self.sequence,
            resulting_revision: self.revision,
            records: (written..self.records.len())
                .map(|index| self.record(index))
                .collect(),
        }))
    }

    fn controller(&self) -> ProjectController {
        ProjectController {
            snapshot: self.snapshot(),
            history: ProjectHistoryStatus {
                can_undo: !self.undo.is_empty(),
                can_redo: !self.redo.is_empty(),
                undo_label: self.undo.last().map(|(label, _, _)| label.clone()),
                redo_label: self.redo.last().map(|(label, _)| label.clone()),
            },
            checkpoint: self.durable,
            records: Arc::new((0..self.records.len()).map(|index| self.record(index)).collect()),
            pending: self.pending(),
        }
    }

    fn advance(
        &mut self,
        operation: CommandOperation,
        edit: Edit,
        domain: ProjectDomain,
        world: World,
    ) -> ProjectControllerUpdate {
        self.records.push((self.revision, self.revision + 1));
        self.edits.push(edit);
        self.revision += 1;
        self.sequence += 1;
        self.worlds.insert(self.revision, world.clone());
        self.world = world;
        ProjectControllerUpdate {
            operation,
            snapshot: self.snapshot(),
            change_set: Arc::new(ChangeSet {
                domains: vec![domain],
            }),
            journal_sequence: self.sequence,
        }
    }

    fn edit(
        &mut self,
        label: &str,
        coalesce: Option<u64>,
        edit: Edit,
        domain: ProjectDomain,
        world: World,
    ) -> ControllerReply {
        let series = coalesce.is_some()
            && self
                .undo
                .last()
                .is_some_and(|(_, before, _)| *before == coalesce);
        if !series {
            self.undo
                .push((label.to_string(), coalesce, self.world.clone()));
        }
        self.redo.clear();
        let update = self.advance(CommandOperation::Execute, edit, domain, world);
        ControllerReply {
            controller: self.controller(),
            update,
        }
    }

    fn set_gain(&mut self, label: &str, coalesce: Option<u64>, gain_db: f32) -> ControllerReply {
        let world = World {
            gain_db,
            ..self.world.clone()
        };
        self.edit(
            label,
            coalesce,
            Edit::Gain(gain_db),
            ProjectDomain::Mixer,
            world,
        )
    }

    fn sample(&mut self, start: usize, end: usize) -> ControllerReply {
        let mut world = self.world.clone();
        let cut = world.pcm[&1][start..end].to_vec();
        let target = world.sample_pcm.len() as u64 + 1;
        world.sample_pcm.insert(target, cut);
        self.edit(
            "sample",
            None,
            Edit::Sample { start, end },
            ProjectDomain::SampleKits,
            world,
        )
    }

    fn import(&mut self, content: &str, pcm: &[f32]) -> AssetImportReply {
        let same: Vec<u64> = self
            .world
            .assets
            .iter()
            .filter(|(_, found)| *found == content)
            .map(|(id, _)| *id)
            .collect();
        if let Some(exact) = same.iter().find(|id| self.world.pcm[id] == pcm) {
            return AssetImportReply {
                controller: self.controller(),
                asset: AssetId(*exact),
                disposition: AssetImportDisposition::ReusedExactContent,
                decoded_pcm: content.to_string(),
                duplicate_predecessors: Vec::new(),
                update: None,
            };
        }
        let asset = self.world.assets.keys().max().unwrap() + 1;
        let reply = self.put_asset(asset, content, pcm);
        AssetImportReply {
            controller: reply.controller,
            asset: AssetId(asset),
            disposition: AssetImportDisposition::Created,
            decoded_pcm: content.to_string(),
            duplicate_predecessors: same.into_iter().map(AssetId).collect(),
            update: Some(reply.update),
        }
    }

    fn put_asset(&mut self, asset: u64, content: &str, pcm: &[f32]) -> ControllerReply {
        let mut world = self.world.clone();
        world.assets.insert(asset, content.to_string());
        world.pcm.insert(asset, pcm.to_vec());
        self.edit(
            "import",
            None,
            Edit::Import {
                asset,
                content: content.to_string(),
            },
            ProjectDomain::Assets,
            world,
        )
    }

    fn step_back(&mut self) -> ControllerStep {
        let update = match self.undo.pop() {
            Some((label, _, world)) => {
                self.redo.push((label, self.world.clone()));
                Some(self.advance(
                    CommandOperation::Undo,
                    Edit::Undo,
                    ProjectDomain::Mixer,
                    world,
                ))
            }
            None => None,
        };
        ControllerStep {
            controller: self.controller(),
            update,
        }
    }

    fn step_forward(&mut self) -> ControllerStep {
        let update = match self.redo.pop() {
            Some((label, world)) => {
                self.undo.push((label, None, self.world.clone()));
                Some(self.advance(
                    CommandOperation::Redo,
                    Edit::Redo,
                    ProjectDomain::Mixer,
                    world,
                ))
            }
            None => None,
        };
        ControllerStep {
            controller: self.controller(),
            update,
        }
    }

    /// Repeats a journalled edit. Media of an asset that it puts must be supplied.
    /// What is repeated out of a journal is in it already.
    fn replay(
        &mut self,
        edit: &Edit,
        hydration: &BTreeMap<u64, Vec<f32>>,
    ) -> Result<ControllerReply, ReplayError> {
        let mut reply = self.repeat(edit, hydration)?;
        self.durable = ProjectJournalCheckpoint {
            through_sequence: self.sequence,
            project_revision: self.revision,
        };
        reply.controller = self.controller();
        Ok(reply)
    }

    fn repeat(
        &mut self,
        edit: &Edit,
        hydration: &BTreeMap<u64, Vec<f32>>,
    ) -> Result<ControllerReply, ReplayError> {
        match edit {
            Edit::Gain(gain_db) => Ok(self.set_gain("replay", None, *gain_db)),
            Edit::Sample { start, end } => Ok(self.sample(*start, *end)),
            Edit::Import { asset, content } => match hydration.get(asset) {
                Some(pcm) => Ok(self.put_asset(*asset, content, pcm)),
                None => Err(ReplayError::MissingImportedAssetPcm(AssetId(*asset))),
            },
            Edit::Undo => {
                let step = self.step_back();
                Ok(ControllerReply {
                    controller: step.controller,
                    update: step.update.unwrap(),
                })
            }
            Edit::Redo => {
                let step = self.step_forward();
                Ok(ControllerReply {
                    controller: step.controller,
                    update: step.update.unwrap(),
                })
            }
        }
    }

    fn mark_saved(&mut self, revision: u64) -> SavedMark {
        let marked = revision == self.revision;
        if marked {
            self.saved = revision;
        }
        SavedMark {
            revision,
            controller: self.controller(),
            marked,
        }
    }

    fn acknowledge(&mut self, delta: &ProjectJournalDelta) -> Result<ProjectController, String> {
        self.durable = ProjectJournalCheckpoint {
            through_sequence: delta.through_sequence,
            project_revision: delta.resulting_revision,
        };
        Ok(self.controller())
    }
}

/// Why the controller does not repeat an edit.
#[derive(Debug)]
enum ReplayError {
    MissingImportedAssetPcm(AssetId),
}

fn replay_into(
    session: &mut ProjectSession,
    reply: Result<ControllerReply, ReplayError>,
) -> Result<ProjectEditReceipt, ProjectSessionError> {
    session.replay_record_with_asset_pcm(reply.map_err(|error| format!("{error:?}")))
}

fn installed_session() -> (ProjectSession, Rig) {
    let rig = Rig::new(World::source());
    let mut session = ProjectSession::new(ProjectSessionId(1)).unwrap();
    session.install(Ok(rig.controller()), None).unwrap();
    (session, rig)
}

fn has_asset(snapshot: &LiveProjectSnapshot, asset: AssetId) -> bool {
    snapshot
        .project
        .graph
        .assets
        .iter()
        .any(|record| record.id == asset)
}

fn aggregate(session: &ProjectSession) -> u64 {
    session.project_snapshot().unwrap().revisions.aggregate
}

#[test]
fn subscriptions_filter_and_do_not_reenter_the_session() {
    let mut session = ProjectSession::new(ProjectSessionId(1)).unwrap();
    let mut selection = session.subscribe(ProjectEventFilter::selection());
    session.set_edit_cursor(EditCursor { frame: 12 });
    session.set_audio_status(ProjectAudioStatus {
        preview_active: true,
        ..ProjectAudioStatus::default()
    });
    let batch = session.poll_events(&mut selection);
    assert!(!batch.missed_events);
    assert_eq!(batch.events.len(), 1);
    assert!(matches!(
        batch.events[0],
        ProjectSessionEvent::SelectionChanged { revision: 1 }
    ));
}

#[test]
fn selection_changes_do_not_change_project_generation() {
    let mut session = ProjectSession::new(ProjectSessionId(1)).unwrap();
    let generation = session.snapshot().generation;
    session.set_edit_cursor(EditCursor { frame: 99 });
    assert_eq!(session.snapshot().generation, generation);
}

fn clip_and_track() -> ObjectSelection {
    ObjectSelection {
        primary: Some(ObjectRef::AudioClip(CLIP)),
        secondary: vec![ObjectRef::Track(TRACK)],
        ..ObjectSelection::default()
    }
}

#[test]
fn exact_object_selection_is_stamped_and_publishes_one_selection_event() {
    let (mut session, _) = installed_session();
    let provenance = SelectionProvenance {
        source: SelectionSource::Arrangement,
        source_view: Some(WorkspaceViewId(41)),
    };
    let mut events = session.subscribe(ProjectEventFilter::selection());

    assert!(session
        .replace_object_selection(clip_and_track(), provenance)
        .unwrap());
    assert!(!session
        .replace_object_selection(clip_and_track(), provenance)
        .unwrap());

    let selection = &session.selection().selection;
    assert_eq!(selection.objects.primary, Some(ObjectRef::AudioClip(CLIP)));
    assert_eq!(selection.objects.secondary, vec![ObjectRef::Track(TRACK)]);
    assert_eq!(selection.objects.provenance, provenance);
    assert_eq!(
        selection.objects.guard,
        Some(session.current_selection_guard().unwrap())
    );
    let batch = session.poll_events(&mut events);
    assert_eq!(batch.events.len(), 1);
    assert!(matches!(
        batch.events[0],
        ProjectSessionEvent::SelectionChanged { revision: 1 }
    ));
}

#[test]
fn delayed_selection_with_stale_guard_is_refused_without_an_event() {
    let (mut session, _) = installed_session();
    let current = session.current_selection_guard().unwrap();
    let stale = SelectionGuard {
        project_revision: current.project_revision.wrapping_add(1),
        ..current
    };
    let selection = ProjectSelection::from_reveal(
        ObjectRef::Track(TRACK),
        Vec::new(),
        stale,
        Some(WorkspaceViewId(43)),
    );
    let mut events = session.subscribe(ProjectEventFilter::selection());

    assert!(matches!(
        session.replace_guarded_selection(selection),
        Err(ProjectSessionError::Selection(
            SelectionGuardError::ProjectRevisionConflict { .. }
        ))
    ));
    assert_eq!(session.selection().revision, 0);
    assert!(session.poll_events(&mut events).events.is_empty());
}

#[test]
fn guarded_reconciliation_promotes_a_live_related_object_once() {
    let (mut session, _) = installed_session();
    session
        .replace_object_selection(
            clip_and_track(),
            SelectionProvenance {
                source: SelectionSource::Reveal,
                source_view: Some(WorkspaceViewId(47)),
            },
        )
        .unwrap();
    let mut events = session.subscribe(ProjectEventFilter::selection());

    let report = session
        .reconcile_guarded_selection(&vec![ObjectRef::Track(TRACK)])
        .unwrap();

    assert_eq!(report.removed, 1);
    assert!(report.primary_removed);
    assert_eq!(
        session.selection().selection.objects.primary,
        Some(ObjectRef::Track(TRACK))
    );
    assert!(session.selection().selection.objects.secondary.is_empty());
    let batch = session.poll_events(&mut events);
    assert_eq!(batch.events.len(), 1);
    assert!(matches!(
        batch.events[0],
        ProjectSessionEvent::SelectionChanged { revision: 2 }
    ));
}

#[test]
fn selection_document_guard_changes_on_document_replacement() {
    let (mut session, rig) = installed_session();
    let first = session.current_selection_guard().unwrap();
    assert_eq!(first, session.current_selection_guard().unwrap());

    session.install(Ok(rig.controller()), None).unwrap();

    let second = session.current_selection_guard().unwrap();
    assert_ne!(first.document, second.document);
    assert_eq!(
        first.document,
        selection_document_id(ProjectSessionId(1), 1)
    );
    assert_ne!(
        first.document,
        selection_document_id(ProjectSessionId(2), 1)
    );
}

#[test]
fn session_dispatch_publishes_workbench_control_save_and_history_from_one_controller() {
    let (mut session, mut rig) = installed_session();
    let mut events =
        session.subscribe(ProjectEventFilter::project().union(ProjectEventFilter::history()));
    let sampled = session
        .publish_primary_workbench_range(Ok(rig.sample(1, 5)))
        .unwrap();
    assert!(sampled.update.snapshot.project.definitions.is_empty());
    assert!(session.is_dirty().unwrap());
    assert_eq!(rig.worlds[&aggregate(&session)].sample_pcm.len(), 1);
    assert!(session.history_status().unwrap().can_undo);

    session
        .execute_control_action(Ok(ControlSessionOperation::Execute {
            reply: Ok(rig.set_gain("gain", None, -3.0)),
        }))
        .unwrap();
    assert_eq!(rig.worlds[&aggregate(&session)].gain_db, -3.0);

    session.undo(Ok(rig.step_back())).unwrap().unwrap();
    assert_eq!(rig.worlds[&aggregate(&session)].gain_db, 0.0);
    session.redo(Ok(rig.step_forward())).unwrap().unwrap();
    let pending_journal = session
        .capture_autosave_journal()
        .unwrap()
        .expect("unwritten authoritative commands remain pending");
    let saved_revision = aggregate(&session);
    assert!(session
        .mark_saved_if_revision(saved_revision, Ok(rig.mark_saved(saved_revision)))
        .unwrap());
    assert!(!session.is_dirty().unwrap());
    assert_eq!(
        session.capture_autosave_journal().unwrap(),
        Some(pending_journal),
        "marking the project explicitly saved must not silently acknowledge an unwritten journal"
    );

    let batch = session.poll_events(&mut events);
    assert!(!batch.missed_events);
    assert!(batch.events.iter().any(|event| matches!(
        event,
        ProjectSessionEvent::ProjectPublished(publication)
            if publication.change_set.is_some()
    )));
    assert!(batch.events.iter().any(|event| matches!(
        event,
        ProjectSessionEvent::HistoryChanged { can_undo: true, .. }
    )));
}

#[test]
fn control_session_adapter_preserves_coalescing_and_authoritative_history() {
    let (mut session, mut rig) = installed_session();
    for gain_db in [-3.0, -9.0] {
        session
            .execute_control_action_for_editor(Ok(ControlSessionOperation::Execute {
                reply: Ok(rig.set_gain("numeric gain", Some(77), gain_db)),
            }))
            .unwrap();
    }
    let expected_aggregate_revision = aggregate(&session);
    session.admit_history(expected_aggregate_revision).unwrap();
    session
        .execute_control_action_for_editor(Ok(ControlSessionOperation::History {
            expected_aggregate_revision,
            direction: HistoryDirection::Undo,
            step: Ok(rig.step_back()),
        }))
        .unwrap()
        .unwrap();
    assert_eq!(
        rig.worlds[&aggregate(&session)].gain_db,
        0.0,
        "both numeric entries must undo as one editor-scoped series"
    );
}

#[test]
fn typed_edit_receipt_and_autosave_cursor_share_one_session_path() {
    let (mut session, mut rig) = installed_session();
    let receipt = session
        .execute_envelope(Ok(rig.set_gain("receipt gain", None, -4.5)))
        .unwrap();
    assert_eq!(receipt.operation, CommandOperation::Execute);
    assert_eq!(receipt.journal_sequence, 1);
    assert!(receipt.history.can_undo);
    assert_eq!(receipt.history.undo_label, Some("receipt gain".to_string()));
    assert!(receipt
        .publication
        .change_set
        .as_ref()
        .unwrap()
        .domains
        .contains(&ProjectDomain::Mixer));

    let delta = session.capture_autosave_journal().unwrap().unwrap();
    assert_eq!(delta.records.len(), 1);
    session
        .acknowledge_autosave_journal(rig.acknowledge(&delta))
        .unwrap();
    assert!(session.capture_autosave_journal().unwrap().is_none());

    let undo = session
        .undo_with_receipt(Ok(rig.step_back()))
        .unwrap()
        .unwrap();
    assert_eq!(undo.operation, CommandOperation::Undo);
    assert_eq!(undo.journal_sequence, 2);
    assert!(session.capture_autosave_journal().unwrap().is_some());
}

#[test]
fn constructive_journal_replay_rematerializes_the_audible_pcm_cohort() {
    let (mut session, mut rig) = installed_session();
    session
        .publish_primary_workbench_range(Ok(rig.sample(1, 5)))
        .unwrap();
    let record = &session.journal_records().unwrap()[0];
    assert_eq!(record.sequence, 1);
    let direct = rig.worlds[&aggregate(&session)].clone();

    let (mut replay, mut replay_rig) = installed_session();
    let reply = replay_rig.replay(&rig.edits[0], &BTreeMap::new());
    replay_into(&mut replay, reply).unwrap();
    assert_eq!(aggregate(&replay), aggregate(&session));
    let replayed = &replay_rig.worlds[&aggregate(&replay)];
    assert_eq!(replayed.sample_pcm.len(), direct.sample_pcm.len());
    for (target, expected) in direct.sample_pcm.iter() {
        assert_eq!(&replayed.sample_pcm[target], expected);
    }
    assert!(replay.capture_autosave_journal().unwrap().is_none());
}

#[test]
fn installed_asset_import_is_atomic_undoable_redoable_and_hydrated_on_replay() {
    let (mut session, mut rig) = installed_session();
    let imported_pcm = vec![0.25, -0.5, 0.75, 0.0];
    let imported = session
        .import_asset(Ok(rig.import("atomic import bytes", &imported_pcm)))
        .unwrap();
    assert_eq!(imported.disposition, AssetImportDisposition::Created);
    let edit = imported.edit.as_ref().expect("creation is a project edit");
    assert_eq!(edit.operation, CommandOperation::Execute);
    assert_eq!(edit.change_set.domains, vec![ProjectDomain::Assets]);
    assert!(has_asset(&edit.publication.snapshot, imported.asset));
    assert_eq!(
        rig.worlds[&edit.publication.revisions.aggregate].pcm[&imported.asset.0],
        imported_pcm
    );

    let undo = session
        .undo_with_receipt(Ok(rig.step_back()))
        .unwrap()
        .unwrap();
    assert!(!has_asset(&undo.publication.snapshot, imported.asset));
    assert!(!rig.worlds[&undo.publication.revisions.aggregate]
        .pcm
        .contains_key(&imported.asset.0));
    let redo = session
        .redo_with_receipt(Ok(rig.step_forward()))
        .unwrap()
        .unwrap();
    assert!(has_asset(&redo.publication.snapshot, imported.asset));
    assert_eq!(
        rig.worlds[&redo.publication.revisions.aggregate].pcm[&imported.asset.0],
        imported_pcm
    );
    assert_eq!(session.journal_records().unwrap().len(), 3);

    let hydration = BTreeMap::from([(imported.asset.0, imported_pcm.clone())]);
    let (mut replay, mut replay_rig) = installed_session();
    let checkpoint = aggregate(&replay);
    let missing = replay_rig
        .replay(&rig.edits[0], &BTreeMap::new())
        .unwrap_err();
    assert!(matches!(
        missing,
        ReplayError::MissingImportedAssetPcm(asset) if asset == imported.asset
    ));
    let words = format!("{missing:?}");
    assert_eq!(
        replay_into(&mut replay, Err(missing)),
        Err(ProjectSessionError::Controller(words))
    );
    assert_eq!(aggregate(&replay), checkpoint);
    replay_into(&mut replay, replay_rig.replay(&rig.edits[0], &hydration)).unwrap();
    assert!(has_asset(
        replay.project_snapshot().unwrap(),
        imported.asset
    ));
    assert_eq!(
        replay_rig.worlds[&aggregate(&replay)].pcm[&imported.asset.0],
        imported_pcm
    );

    let (mut replay_history, mut history_rig) = installed_session();
    for (index, edit) in rig.edits.iter().enumerate() {
        let media = if index == 1 {
            BTreeMap::new()
        } else {
            hydration.clone()
        };
        replay_into(&mut replay_history, history_rig.replay(edit, &media)).unwrap();
    }
    assert_eq!(aggregate(&replay_history), aggregate(&session));
    assert_eq!(
        history_rig.worlds[&aggregate(&replay_history)].pcm[&imported.asset.0],
        imported_pcm
    );
}

#[test]
fn asset_import_deduplicates_only_after_exact_decoded_pcm_proof() {
    let (mut session, mut rig) = installed_session();
    let initial_revision = aggregate(&session);
    let reused = session
        .import_asset(Ok(
            rig.import("session source", &[0.0, 0.8, 0.2, 0.0, 0.4, 0.0])
        ))
        .unwrap();
    assert_eq!(
        reused.disposition,
        AssetImportDisposition::ReusedExactContent
    );
    assert_eq!(reused.asset, AssetId(1));
    assert!(reused.edit.is_none());
    assert_eq!(aggregate(&session), initial_revision);
    assert!(session.journal_records().unwrap().is_empty());

    let collision = session
        .import_asset(Ok(
            rig.import("session source", &[0.0, 0.8, 0.2, 0.0, 0.5, 0.0])
        ))
        .unwrap();
    assert_eq!(collision.disposition, AssetImportDisposition::Created);
    assert_ne!(collision.asset, AssetId(1));
    assert_eq!(collision.duplicate_predecessors, vec![AssetId(1)]);
    assert!(collision.edit.is_some());
}

#[test]
fn a_session_needs_an_identity_and_a_project() {
    assert_eq!(
        ProjectSession::new(ProjectSessionId(0)).err(),
        Some(ProjectSessionError::ZeroId)
    );
    let mut session = ProjectSession::new(ProjectSessionId(5)).unwrap();
    assert_eq!(session.id(), ProjectSessionId(5));
    assert_eq!(session.snapshot().lifecycle, ProjectLifecycle::Empty);
    assert!(session.snapshot().revisions().is_none());
    assert_eq!(
        session.project_snapshot().unwrap_err(),
        ProjectSessionError::NoProject
    );
    assert_eq!(session.is_dirty(), Err(ProjectSessionError::NoProject));
    let mut rig = Rig::new(World::source());
    assert_eq!(
        session.execute_envelope(Ok(rig.set_gain("gain", None, -1.0))),
        Err(ProjectSessionError::NoProject)
    );
    assert_eq!(
        session.current_selection_guard(),
        Err(ProjectSessionError::NoProject)
    );
    assert!(session.live_project().is_none());
}

#[test]
fn a_failed_install_keeps_what_was_there() {
    let (mut session, rig) = installed_session();
    let before = session.snapshot().generation;
    assert_eq!(
        session.install(Err("cannot compile".into()), None),
        Err(ProjectSessionError::Controller("cannot compile".into()))
    );
    assert_eq!(session.snapshot().generation, before);
    assert_eq!(session.document_generation(), 1);

    let mut lifecycle = session.subscribe(ProjectEventFilter::lifecycle());
    session.begin_loading("song".into());
    session
        .install(Ok(rig.controller()), Some(AnalysisHandle(8)))
        .unwrap();
    assert_eq!(session.snapshot().analysis, Some(AnalysisHandle(8)));
    session.replace_analysis_snapshot(AnalysisHandle(9));
    assert_eq!(session.snapshot().analysis, Some(AnalysisHandle(9)));
    session.fail("device lost".into());
    let events = session.poll_events(&mut lifecycle).events;
    assert_eq!(
        events.first(),
        Some(&ProjectSessionEvent::LifecycleChanged(
            ProjectLifecycle::Loading {
                source: "song".into()
            }
        ))
    );
    assert_eq!(
        events.last(),
        Some(&ProjectSessionEvent::LifecycleChanged(
            ProjectLifecycle::Failed {
                message: "device lost".into()
            }
        ))
    );
}

#[test]
fn a_stale_history_step_is_a_revision_conflict() {
    let (mut session, mut rig) = installed_session();
    session
        .execute(Ok(rig.set_gain("gain", None, -2.0)))
        .unwrap();
    let actual = aggregate(&session);
    let conflict = ProjectSessionError::RevisionConflict {
        expected: actual - 1,
        actual,
    };
    assert_eq!(session.admit_history(actual - 1), Err(conflict));
    let refused = session.execute_control_action(Ok(ControlSessionOperation::History {
        expected_aggregate_revision: actual - 1,
        direction: HistoryDirection::Undo,
        step: Ok(rig.step_back()),
    }));
    assert_eq!(
        refused,
        Err(ProjectSessionError::RevisionConflict {
            expected: actual - 1,
            actual,
        })
    );
    assert_eq!(aggregate(&session), actual);
    assert_eq!(
        session.execute_control_action(Err("unknown control".into())),
        Err(ProjectSessionError::Action("unknown control".into()))
    );
}

#[test]
fn an_empty_history_publishes_nothing() {
    let (mut session, mut rig) = installed_session();
    let mut events = session.subscribe(ProjectEventFilter::all());
    assert_eq!(session.undo(Ok(rig.step_back())).unwrap(), None);
    assert_eq!(session.redo(Ok(rig.step_forward())).unwrap(), None);
    assert!(session.poll_events(&mut events).events.is_empty());
}

#[test]
fn pattern_and_sample_workflows_publish_only_edits() {
    let (mut session, mut rig) = installed_session();
    let targeted = session
        .execute_pattern_workflow(Ok(PatternWorkflowReply {
            controller: rig.controller(),
            outcome: PatternWorkflowOutcome::Targeted,
        }))
        .unwrap();
    assert_eq!(targeted, PatternWorkflowOutcome::Targeted);
    let before = session.snapshot().generation;
    session
        .execute_sample_action(Ok(SampleActionReply {
            controller: rig.controller(),
            outcome: SampleActionOutcome::Ephemeral,
        }))
        .unwrap();
    assert_eq!(session.snapshot().generation, before);
    let reply = rig.sample(0, 2);
    session
        .commit_prepared_sample_action(Ok(SampleActionReply {
            controller: reply.controller,
            outcome: SampleActionOutcome::Published(reply.update),
        }))
        .unwrap();
    assert_eq!(session.snapshot().generation, before + 1);
    assert_eq!(aggregate(&session), rig.revision);
}

#[test]
fn gestures_and_batches_go_through_the_controller() {
    let (mut session, mut rig) = installed_session();
    assert_eq!(session.begin_gesture(rig.controller(), 7), Ok(7));
    let receipt = session
        .execute_gesture(Ok(rig.set_gain("drag", Some(7), -1.0)))
        .unwrap();
    assert_eq!(receipt.history.undo_label, Some("drag".to_string()));
    session.commit_gesture(rig.controller()).unwrap();
    assert_eq!(
        session.end_gesture(Err("no gesture".into())),
        Err(ProjectSessionError::Controller("no gesture".into()))
    );
    let revisions = session
        .execute_batch(Ok(rig.set_gain("batch", None, -2.0)))
        .unwrap();
    assert_eq!(revisions.aggregate, rig.revision);
    let receipt = session
        .execute_batch_with_receipt(Ok(rig.set_gain("batch", None, -3.0)))
        .unwrap();
    assert_eq!(receipt.journal_sequence, 3);
}

#[test]
fn linked_views_are_those_of_the_router() {
    let mut session = ProjectSession::new(ProjectSessionId(1)).unwrap();
    let view = WorkspaceViewId(6);
    let registry = ViewLinkRegistry {
        views: vec![LinkedView {
            view,
            membership: ViewLinkMembership {
                group: 1,
                facets: 3,
            },
        }],
    };
    session.register_linked_view(Ok(registry)).unwrap();
    assert_eq!(session.links().views.len(), 1);
    let unknown = ViewLinkError::UnknownView(WorkspaceViewId(9));
    assert_eq!(
        session.register_linked_view(Err(unknown)),
        Err(ProjectSessionError::Links(unknown))
    );
    assert_eq!(session.links().views.len(), 1);
    let mut events = session.subscribe(ProjectEventFilter::links());
    let delivered = Arc::new(vec![ViewLinkDelivery { view, revision: 4 }]);
    session
        .publish_linked_view_state(Ok(delivered.clone()))
        .unwrap();
    assert_eq!(
        session.poll_events(&mut events).events,
        vec![ProjectSessionEvent::LinkedViews(delivered)]
    );
    assert_eq!(
        session.publish_linked_view_state(Err(unknown)),
        Err(ProjectSessionError::Links(unknown))
    );
    assert!(session.unregister_linked_view(Some(ViewLinkRegistry { views: Vec::new() })));
    assert!(session.links().views.is_empty());
    assert!(!session.unregister_linked_view(None));
}

#[test]
fn the_log_of_a_session_keeps_the_last_events() {
    let mut session = ProjectSession::new(ProjectSessionId(1)).unwrap();
    let mut behind = session.subscribe(ProjectEventFilter::all());
    let mut deaf = session.subscribe(ProjectEventFilter::default());
    for count in 0..513 {
        assert!(session.replace_diagnostics(vec![format!("{count}")]));
    }
    let batch = session.poll_events(&mut behind);
    assert!(batch.missed_events);
    assert_eq!(batch.events.len(), 512);
    let batch = session.poll_events(&mut deaf);
    assert!(batch.missed_events);
    assert!(batch.events.is_empty());
    for count in 0..512 {
        assert!(session.replace_diagnostics(vec![format!("again {count}")]));
    }
    let batch = session.poll_events(&mut behind);
    assert!(!batch.missed_events);
    assert_eq!(batch.events.len(), 512);
    let batch = session.poll_events(&mut behind);
    assert!(!batch.missed_events);
    assert!(batch.events.is_empty());
}

#[test]
fn filters_are_sets_of_kinds() {
    let kinds = [
        ProjectEventFilter::lifecycle(),
        ProjectEventFilter::project(),
        ProjectEventFilter::selection(),
        ProjectEventFilter::links(),
        ProjectEventFilter::audio(),
        ProjectEventFilter::diagnostics(),
        ProjectEventFilter::history(),
    ];
    let mut all = ProjectEventFilter::default();
    for (index, kind) in kinds.iter().enumerate() {
        assert!(ProjectEventFilter::all().contains(*kind));
        assert!(kind.contains(ProjectEventFilter::default()));
        assert!(!all.contains(*kind));
        for other in &kinds[index + 1..] {
            assert!(!kind.contains(*other));
        }
        all = all.union(*kind);
    }
    assert_eq!(all, ProjectEventFilter::all());
}

#[test]
fn diagnostics_and_audio_publish_only_changes() {
    let mut session = ProjectSession::new(ProjectSessionId(1)).unwrap();
    let mut events = session.subscribe(
        ProjectEventFilter::diagnostics().union(ProjectEventFilter::audio()),
    );
    assert!(session.replace_diagnostics(vec!["missing".into()]));
    assert!(!session.replace_diagnostics(vec!["missing".into()]));
    assert!(!session.set_audio_status(ProjectAudioStatus::default()));
    assert_eq!(
        session.poll_events(&mut events).events,
        vec![ProjectSessionEvent::DiagnosticsChanged]
    );
    assert_eq!(session.diagnostics(), &vec!["missing".to_string()]);
}

#[test]
fn a_slow_subscriber_learns_that_it_missed_events() {
    let mut log = ProjectEventLog::new(2);
    let mut slow = log.subscribe(ProjectEventFilter::all());
    for revision in 1..=3 {
        log.push(ProjectSessionEvent::SelectionChanged { revision });
    }
    let batch = log.poll(&mut slow);
    assert!(batch.missed_events);
    assert_eq!(
        batch.events,
        vec![
            ProjectSessionEvent::SelectionChanged { revision: 2 },
            ProjectSessionEvent::SelectionChanged { revision: 3 },
        ]
    );
    let again = log.poll(&mut slow);
    assert!(!again.missed_events && again.events.is_empty());
}

#[test]
fn document_ids_tell_sessions_and_documents_apart() {
    let id = |session: u64, generation: u64| {
        selection_document_id(ProjectSessionId(session), generation).0
    };
    assert_eq!(id(1, 1), 0x581c_d0fa_58d9_9645);
    assert_eq!(id(1, 2), 0x7717_9803_63c8_e066);
    assert_ne!(id(1, 1), id(2, 1));
    assert_ne!(id(7, 254), id(7, 255));
    assert_ne!(id(7, 255), id(7, 256));
    assert_ne!(id(7, 0xffff), id(7, 0x1_0000));
    assert_ne!(id(7, 0xffff_ffff), id(7, 0x1_0000_0000));
    assert_ne!(id(7, 0x00ff_ffff_ffff_ffff), id(7, 0x0100_0000_0000_0000));
    assert_ne!(id(7, u64::MAX), id(7, 1));
    assert_ne!(id(7, 0x0102_0304), id(7, 0x0403_0201));
    assert_ne!(id(0x0102_0304, 7), id(0x0403_0201, 7));
}
