use std::collections::BTreeMap;
use std::sync::Arc;

use audec::command::{AssetId, BusId};
use audec::compaction::{
    finish_compaction, obsolete_segments, prepare_compaction, Compaction, CompactionStep,
    JournalCompactionResult, DEFAULT_MAX_ACTIVE_JOURNAL_SEGMENTS,
};
use audec::journal::{
    prepare_journal_recovery, JournalRecovery, JournalSegment, ProjectJournalDiagnosticKind,
    RecordOutcome, VerifiedFrame, VerifiedSegment,
};
use audec::lifecycle::{
    journal_segment_name, JournalReplay, LoadedProject, OpenedDocument,
    PreservedProjectData, ProjectDocumentLifecycle, ProjectDocumentOrigin, ProjectFiles,
    ProjectJournalPersistenceState, ProjectJournalReplayState, ProjectLifecycleError,
    ProjectOpenCompletion, ProjectOpenOutcome, ProjectOpenRequest, ProjectReplacementDisposition,
    ProjectSaveCompletion, ProjectSaveOutcome, ProjectSaveRequest, SaveKind, SaveReplies,
    SegmentWrite, WorkspaceDocument,
};
use audec::live_project::{
    AssetEffect, ChangeSet, CommandJournalRecord, CommandOperation, ControllerReply,
    LiveProjectSnapshot, ProjectController, ProjectControllerUpdate, ProjectDomain,
    ProjectHistoryStatus, ProjectJournalCheckpoint, ProjectJournalDelta, ProjectRevisions,
    ProjectState,
};
use audec::packages::{
    ProjectPackage, ProjectStore, DEFAULT_MAX_RECOVERY_CHECKPOINTS,
};
use audec::session::{ProjectSession, ProjectSessionId, SavedMark};
use audec::source_graph::{AssetRecord, SourceGraph};
use audec::store::{
    DirectoryRead, JournalFileRead, JournalFrame, JournalTail, PackagePath,
    RecoveredSegment, RecoveryCheckpoint, RecoveryDiscovery, RecoveryFileRead, RecoveryMetadata,
    SaveResult,
};
use audec::wording::HostWords;

const MEDIA: [f32; 4] = [0.25, -0.5, 0.75, 0.0];

/// What a project holds.
#[derive(Clone, Debug, PartialEq)]
struct World {
    name: String,
    buses: Vec<String>,
    patterns: Vec<String>,
    assets: Vec<u64>,
    pcm: BTreeMap<u64, Vec<f32>>,
    sample_pcm: Vec<Vec<f32>>,
}

impl World {
    fn new(name: &str) -> World {
        World {
            name: name.into(),
            buses: vec!["Master".into()],
            patterns: Vec::new(),
            assets: Vec::new(),
            pcm: BTreeMap::new(),
            sample_pcm: Vec::new(),
        }
    }

    /// Carries out an edit as the journal writes it.
    fn apply(&mut self, batch: &str) -> Result<(), String> {
        let (verb, object) = batch.split_once(' ').ok_or("not a command")?;
        match verb {
            "bus" => self.buses.push(object.into()),
            "pattern" => self.patterns.push(object.into()),
            "import" => self.assets.push(object.parse().unwrap()),
            "sample" => {
                let asset: u64 = object.parse().unwrap();
                let pcm = self.pcm.get(&asset).ok_or("no pcm")?.clone();
                self.sample_pcm.push(pcm);
            }
            _ => return Err(format!("unknown command {verb}")),
        }
        Ok(())
    }
}

/// A controller: the project, what it was saved as, and its journal.
struct Desk {
    world: World,
    revision: u64,
    sequence: u64,
    saved: u64,
    durable: ProjectJournalCheckpoint,
    records: Vec<(u64, String)>,
}

fn record(sequence: u64, revision: u64, batch: &str) -> CommandJournalRecord {
    CommandJournalRecord {
        sequence,
        base_revision: revision - 1,
        resulting_revision: revision,
        batch: batch.into(),
        effects: match batch.split_once(' ') {
            Some(("import", asset)) => vec![AssetEffect::Put {
                asset: AssetId(asset.parse().unwrap()),
                present: true,
            }],
            _ => vec![AssetEffect::Untouched],
        },
    }
}

impl Desk {
    fn new(world: World, revision: u64, sequence: u64) -> Desk {
        Desk {
            world,
            revision,
            sequence,
            saved: revision,
            durable: ProjectJournalCheckpoint {
                through_sequence: sequence,
                project_revision: revision,
            },
            records: Vec::new(),
        }
    }

    fn snapshot(&self) -> LiveProjectSnapshot {
        LiveProjectSnapshot {
            revisions: ProjectRevisions {
                aggregate: self.revision,
            },
            dirty: self.revision != self.saved,
            project: Arc::new(ProjectState {
                placements: Vec::new(),
                definitions: Vec::new(),
                media: Vec::new(),
                lanes: Vec::new(),
                tracks: Vec::new(),
                buses: (1..=self.world.buses.len() as u64).map(BusId).collect(),
                automation: Vec::new(),
                graph: SourceGraph {
                    parameters: Vec::new(),
                    transforms: Vec::new(),
                    relations: Vec::new(),
                    hypotheses: Vec::new(),
                    objects: Vec::new(),
                    spans: Vec::new(),
                    asset_sources: Vec::new(),
                    assets: self
                        .world
                        .assets
                        .iter()
                        .map(|id| AssetRecord {
                            id: AssetId(*id),
                            nyquist_bits: 24_000.0_f32.to_bits(),
                        })
                        .collect(),
                    aliases: Vec::new(),
                    clip_objects: Vec::new(),
                    clips: Vec::new(),
                },
            }),
        }
    }

    fn journal(&self) -> Vec<CommandJournalRecord> {
        self.records
            .iter()
            .map(|(sequence, batch)| {
                let revision =
                    self.durable.project_revision + sequence - self.durable.through_sequence;
                record(*sequence, revision, batch)
            })
            .collect()
    }

    fn controller(&self) -> ProjectController {
        ProjectController {
            snapshot: self.snapshot(),
            history: ProjectHistoryStatus {
                can_undo: false,
                can_redo: false,
                undo_label: None,
                redo_label: None,
            },
            checkpoint: self.durable,
            records: Arc::new(self.journal()),
            pending: if self.records.is_empty() {
                None
            } else {
                Some(Arc::new(ProjectJournalDelta {
                    checkpoint: self.durable,
                    through_sequence: self.sequence,
                    resulting_revision: self.revision,
                    records: self.journal(),
                }))
            },
        }
    }

    fn execute(&mut self, batch: &str) -> Result<ControllerReply, String> {
        self.world.apply(batch)?;
        self.revision += 1;
        self.sequence += 1;
        self.records.push((self.sequence, batch.into()));
        Ok(self.reply())
    }

    fn reply(&self) -> ControllerReply {
        ControllerReply {
            controller: self.controller(),
            update: ProjectControllerUpdate {
                operation: CommandOperation::Execute,
                snapshot: self.snapshot(),
                change_set: Arc::new(ChangeSet {
                    domains: vec![ProjectDomain::Mixer],
                }),
                journal_sequence: self.sequence,
            },
        }
    }

    /// Repeats a durable edit: it is in the journal already.
    fn replay(&mut self, batch: &str, media: bool) -> Result<ControllerReply, String> {
        if let Some(("import", asset)) = batch.split_once(' ') {
            if media {
                self.world
                    .pcm
                    .insert(asset.parse().unwrap(), MEDIA.to_vec());
            }
        }
        self.execute(batch)?;
        self.records.clear();
        self.durable = ProjectJournalCheckpoint {
            through_sequence: self.sequence,
            project_revision: self.revision,
        };
        Ok(self.reply())
    }

    fn acknowledge(&mut self, delta: &ProjectJournalDelta) -> Result<ProjectController, String> {
        if delta.checkpoint != self.durable {
            return Err("the journal moved on".into());
        }
        self.records
            .retain(|(sequence, _)| *sequence > delta.through_sequence);
        self.durable = ProjectJournalCheckpoint {
            through_sequence: delta.through_sequence,
            project_revision: delta.resulting_revision,
        };
        Ok(self.controller())
    }

    fn mark_saved(&mut self, revision: u64) -> SavedMark {
        let marked = revision == self.revision;
        if marked {
            self.saved = revision;
        }
        SavedMark {
            revision,
            controller: self.controller(),
            marked,
        }
    }
}

/// A checkpoint on disk.
#[derive(Clone)]
struct Saved {
    world: World,
    revision: u64,
    workspace: Option<Arc<WorkspaceDocument>>,
    preserved: Arc<PreservedProjectData>,
}

/// A package on disk.
struct Package {
    store: ProjectStore,
    primary: Option<Saved>,
    checkpoints: Vec<(RecoveryCheckpoint, Saved)>,
    segments: BTreeMap<String, Segment>,
    media: bool,
    missing_media: Vec<u64>,
}

struct Segment {
    records: Vec<(u64, u64, String)>,
    torn: bool,
}

fn path(directory: &str, leaf: &str) -> PackagePath {
    PackagePath {
        directory: directory.into(),
        leaf: leaf.into(),
    }
}

fn preserved() -> Arc<PreservedProjectData> {
    Arc::new(PreservedProjectData {
        data: "vendor.note=keep;vendor.future=[9, 8, 7]".into(),
    })
}

impl Package {
    fn new(root: &str) -> Package {
        Package {
            store: ProjectStore::new(ProjectPackage {
                manifest: path(root, "project.json"),
                recovery_root: path(root, "recovery"),
                journal_root: path(root, "journal"),
                recovery_directory: format!("{root}/recovery"),
                journal_directory: format!("{root}/journal"),
                name: Some("project.json".into()),
            }),
            primary: None,
            checkpoints: Vec::new(),
            segments: BTreeMap::new(),
            media: false,
            missing_media: Vec::new(),
        }
    }

    fn seeded(root: &str, name: &str) -> Package {
        let mut package = Package::new(root);
        package.primary = Some(Saved {
            world: World::new(name),
            revision: 0,
            workspace: None,
            preserved: preserved(),
        });
        package
    }

    fn files(&self) -> ProjectFiles {
        ProjectFiles {
            manifest: self.store.package().manifest.clone(),
        }
    }

    fn recovered(&self, name: &str) -> RecoveredSegment {
        let segment = &self.segments[name];
        let frames: Vec<Arc<JournalFrame>> = segment
            .records
            .iter()
            .map(|(sequence, revision, batch)| {
                Arc::new(JournalFrame {
                    sequence: *sequence,
                    base_revision: revision - 1,
                    resulting_revision: *revision,
                    body: batch.clone(),
                })
            })
            .collect();
        let valid = frames.len() as u64 * 64;
        RecoveredSegment {
            frames,
            valid_bytes: valid,
            total_bytes: if segment.torn { valid + 5 } else { valid },
            tail: if segment.torn {
                JournalTail::Truncated { offset: valid }
            } else {
                JournalTail::Clean
            },
        }
    }

    fn recovery_options(&self) -> RecoveryDiscovery {
        let package = self.store.package();
        self.store.discover_recovery(
            self.primary.is_some(),
            &DirectoryRead::Entries(
                self.checkpoints
                    .iter()
                    .map(|(checkpoint, _)| RecoveryFileRead {
                        path: checkpoint.manifest_path.clone(),
                        content: Ok(RecoveryMetadata {
                            is_autosave: true,
                            saved_unix_ms: checkpoint.saved_unix_ms,
                            base_project_revision: checkpoint.base_project_revision,
                            primary_file_name: Some("project.json".into()),
                        }),
                    })
                    .collect(),
            ),
            &DirectoryRead::Entries(
                self.segments
                    .keys()
                    .map(|name| JournalFileRead {
                        path: path(&package.journal_directory, name),
                        is_file: true,
                        content: Ok(Arc::new(self.recovered(name))),
                    })
                    .collect(),
            ),
        )
    }

    fn journal_segments(&self) -> Vec<JournalSegment> {
        self.recovery_options()
            .journals
            .iter()
            .map(|path| {
                let segment = &self.segments[&path.leaf];
                JournalSegment {
                    path: format!("{}/{}", path.directory, path.leaf),
                    content: Ok(VerifiedSegment {
                        valid_bytes: segment.records.len() as u64 * 64,
                        rejected_tail: if segment.torn {
                            Some("Truncated".into())
                        } else {
                            None
                        },
                        frames: segment
                            .records
                            .iter()
                            .map(|(sequence, revision, batch)| VerifiedFrame {
                                sequence: *sequence,
                                resulting_revision: *revision,
                                record: Ok(Arc::new(record(*sequence, *revision, batch))),
                            })
                            .collect(),
                    }),
                }
            })
            .collect()
    }

    fn saved(&self, origin: &ProjectDocumentOrigin) -> Result<Saved, String> {
        match origin {
            ProjectDocumentOrigin::Primary => {
                self.primary.clone().ok_or("no manifest".to_string())
            }
            ProjectDocumentOrigin::Recovery(checkpoint) => {
                self.store
                    .check_recovery_path(checkpoint, false)
                    .map_err(|error| format!("{error:?}"))?;
                self.checkpoints
                    .iter()
                    .find(|(found, _)| found == checkpoint)
                    .map(|(_, saved)| saved.clone())
                    .ok_or("no checkpoint".to_string())
            }
        }
    }

    fn opened(&self, saved: &Saved, desk: &Desk) -> OpenedDocument {
        OpenedDocument {
            project: LoadedProject::Live(Ok(desk.controller())),
            revision: saved.revision,
            workspace: saved.workspace.clone(),
            preserved: saved.preserved.clone(),
            project_io: Arc::new(Vec::new()),
            media: Arc::new(
                self.missing_media
                    .iter()
                    .map(|asset| format!("asset {asset}: route-missing"))
                    .collect(),
            ),
            unresolved_assets: Arc::new(self.missing_media.iter().map(|id| AssetId(*id)).collect()),
            relink_proposals: Arc::new(Vec::new()),
            manifest_path: self.store.package().manifest.clone(),
            recovery: Arc::new(self.recovery_options()),
        }
    }

    fn recover_journal(&self, saved: &Saved) -> JournalRecovery {
        let mut recovery = JournalRecovery::begin(saved.revision, &self.journal_segments());
        let mut trial = Desk::new(saved.world.clone(), saved.revision, 0);
        while let Some(next) = recovery.next_record() {
            let hydrated = if self.media {
                recovery.needed_assets()
            } else {
                Vec::new()
            };
            let applied = trial.replay(&next.batch, self.media).map(|_| ());
            recovery.advance(applied, &hydrated);
        }
        recovery
    }

    fn save_primary(&mut self, request: &ProjectSaveRequest, world: &World) -> SaveResult {
        let revision = request.aggregate_revision();
        let plan = self.store.save_primary(revision, Ok(()), revision).unwrap();
        self.primary = Some(Saved {
            world: world.clone(),
            revision,
            workspace: request.workspace.clone(),
            preserved: request.preserved.clone(),
        });
        self.store.finish_save(plan, 1, Ok(0))
    }

    fn save_autosave(
        &mut self,
        request: &ProjectSaveRequest,
        world: &World,
        saved_unix_ms: u64,
    ) -> SaveResult {
        let revision = request.aggregate_revision();
        let plan = self
            .store
            .save_autosave(revision, Ok(()), revision, saved_unix_ms)
            .unwrap();
        let checkpoint = RecoveryCheckpoint {
            manifest_path: plan.manifest.clone(),
            saved_unix_ms,
            base_project_revision: revision,
        };
        self.checkpoints.push((
            checkpoint,
            Saved {
                world: world.clone(),
                revision,
                workspace: request.workspace.clone(),
                preserved: request.preserved.clone(),
            },
        ));
        let found = self.recovery_options().checkpoints;
        let outdated = self
            .store
            .rotate_recovery_checkpoints(found, DEFAULT_MAX_RECOVERY_CHECKPOINTS)
            .unwrap();
        self.checkpoints
            .retain(|(checkpoint, _)| !outdated.contains(checkpoint));
        self.store.finish_save(plan, 1, Ok(outdated.len()))
    }

    fn write_segment(&mut self, delta: &ProjectJournalDelta) -> SegmentWrite {
        let name = journal_segment_name(delta);
        let written = self.store.journal_segment_path(&name).unwrap();
        self.segments.insert(
            name,
            Segment {
                records: delta
                    .records
                    .iter()
                    .map(|record| {
                        (
                            record.sequence,
                            record.resulting_revision,
                            record.batch.clone(),
                        )
                    })
                    .collect(),
                torn: false,
            },
        );
        SegmentWrite {
            path: written,
            compaction: Ok(self.compact()),
        }
    }

    fn compact(&mut self) -> JournalCompactionResult {
        let found = self.recovery_options();
        let sources = match self
            .store
            .compact_journal_segments(&found, DEFAULT_MAX_ACTIVE_JOURNAL_SEGMENTS)
            .unwrap()
        {
            CompactionStep::Done(result) => return result,
            CompactionStep::Merge(sources) => sources,
        };
        let contents = sources
            .iter()
            .map(|source| Ok(Arc::new(self.recovered(&source.leaf))))
            .collect();
        match prepare_compaction(&found.journals, &sources, &contents).unwrap() {
            Compaction::Skipped(result) => result,
            Compaction::Write { name, frames } => {
                let compacted = self.store.journal_segment_path(&name).unwrap();
                for obsolete in obsolete_segments(&sources, &compacted) {
                    self.segments.remove(&obsolete.leaf);
                }
                self.segments.insert(
                    name,
                    Segment {
                        records: frames
                            .iter()
                            .map(|frame| {
                                (
                                    frame.sequence,
                                    frame.resulting_revision,
                                    frame.body.clone(),
                                )
                            })
                            .collect(),
                        torn: false,
                    },
                );
                let active = self.recovery_options().journals;
                finish_compaction(compacted, sources, active, frames.len())
            }
        }
    }
}

/// A document under edit.
struct TestDocument {
    session: ProjectSession,
    lifecycle: ProjectDocumentLifecycle,
    desk: Desk,
}

impl TestDocument {
    fn new(id: u64) -> TestDocument {
        TestDocument {
            session: ProjectSession::new(ProjectSessionId(id)).unwrap(),
            lifecycle: ProjectDocumentLifecycle::new(),
            desk: Desk::new(World::new(""), 0, 0),
        }
    }

    fn install(&mut self, name: &str) {
        self.desk = Desk::new(World::new(name), 0, 0);
        self.session
            .install(Ok(self.desk.controller()), None)
            .unwrap();
    }

    fn load(
        &mut self,
        request: ProjectOpenRequest,
        package: &Package,
        with_journal: bool,
    ) -> Result<ProjectOpenOutcome, ProjectLifecycleError> {
        let nothing = || JournalReplay {
            seed: Err("nothing to replay".into()),
            replies: Vec::new(),
            stale_workspace_targets: Arc::new(Vec::new()),
        };
        let saved = match package.saved(&request.origin) {
            Ok(saved) => saved,
            Err(message) => {
                let completion = request.load(Err(message), &Vec::new());
                return self
                    .lifecycle
                    .finish_open(&mut self.session, completion, nothing(), None);
            }
        };
        let mut desk = Desk::new(saved.world.clone(), saved.revision, 0);
        let opened = package.opened(&saved, &desk);
        let completion: ProjectOpenCompletion = if with_journal {
            request.load_with_journal(Ok((opened, package.recover_journal(&saved))))
        } else {
            request.load(Ok(opened), &package.journal_segments())
        };
        let journal = &completion.loaded.as_ref().unwrap().journal;
        let through = match journal.anchor_sequence {
            Some(anchor) => Some(anchor),
            None => journal.records.first().map(|record| record.sequence - 1),
        };
        let replay = match through {
            None => nothing(),
            Some(through) => {
                desk = Desk::new(saved.world.clone(), saved.revision, through);
                JournalReplay {
                    seed: Ok(desk.controller()),
                    replies: journal
                        .records
                        .iter()
                        .map(|record| desk.replay(&record.batch, package.media))
                        .collect(),
                    stale_workspace_targets: Arc::new(Vec::new()),
                }
            }
        };
        let outcome = self
            .lifecycle
            .finish_open(&mut self.session, completion, replay, None)?;
        self.desk = desk;
        Ok(outcome)
    }

    fn execute(&mut self, batch: &str) {
        let reply = self.desk.execute(batch);
        self.session.execute(reply).unwrap();
    }

    fn add_bus(&mut self, name: &str) {
        self.execute(&format!("bus {name}"));
    }

    fn begin_save(&mut self) -> ProjectSaveRequest {
        self.lifecycle.begin_save(&self.session).unwrap()
    }

    fn begin_autosave(&mut self, saved_unix_ms: u64) -> ProjectSaveRequest {
        self.lifecycle
            .begin_autosave(&self.session, saved_unix_ms)
            .unwrap()
    }

    /// Writes a save, and its journal where `with_journal`.
    fn persist(
        &self,
        request: ProjectSaveRequest,
        package: &mut Package,
        with_journal: bool,
    ) -> ProjectSaveCompletion {
        let result = match request.kind {
            SaveKind::Primary => package.save_primary(&request, &self.desk.world),
            SaveKind::Autosave { saved_unix_ms } => {
                package.save_autosave(&request, &self.desk.world, saved_unix_ms)
            }
        };
        if !with_journal {
            return request.persist(Ok(result));
        }
        let written = match &request.delta {
            Some(delta) => Ok(package.write_segment(delta)),
            None => Err("no journal to write".into()),
        };
        request.persist_with_journal(Ok(()), Ok(result), written)
    }

    fn finish_save(
        &mut self,
        completion: ProjectSaveCompletion,
        package: &Package,
    ) -> Result<ProjectSaveOutcome, ProjectLifecycleError> {
        let acknowledged = match (&completion.journal, &completion.delta) {
            (ProjectJournalPersistenceState::Persisted { .. }, Some(delta)) => {
                self.desk.acknowledge(delta)
            }
            _ => Ok(self.desk.controller()),
        };
        let revision = match &completion.result {
            Ok(result) => result.revision_guard.revision,
            Err(_) => u64::MAX,
        };
        let mark = match completion.kind {
            SaveKind::Primary => self.desk.mark_saved(revision),
            SaveKind::Autosave { .. } => SavedMark {
                revision,
                controller: self.desk.controller(),
                marked: false,
            },
        };
        self.lifecycle.finish_save(
            &mut self.session,
            completion,
            SaveReplies {
                acknowledged,
                recovery: Arc::new(package.recovery_options()),
                mark: Ok(mark),
            },
        )
    }

    fn save(&mut self, package: &mut Package) -> ProjectSaveOutcome {
        let request = self.begin_save();
        let completion = self.persist(request, package, false);
        self.finish_save(completion, package).unwrap()
    }

    fn autosave(&mut self, package: &mut Package, saved_unix_ms: u64) -> ProjectSaveOutcome {
        let request = self.begin_autosave(saved_unix_ms);
        let completion = self.persist(request, package, true);
        self.finish_save(completion, package).unwrap()
    }

    fn is_dirty(&self) -> bool {
        self.lifecycle.is_dirty(&self.session).unwrap()
    }

    fn revision(&self) -> u64 {
        self.session.project_snapshot().unwrap().revisions.aggregate
    }

    fn has_bus(&self, name: &str) -> bool {
        assert_eq!(self.desk.revision, self.revision());
        self.desk.world.buses.iter().any(|bus| bus == name)
    }
}

fn open(package: &Package) -> TestDocument {
    let mut document = TestDocument::new(41);
    let request = document
        .lifecycle
        .begin_open_primary(&document.session, package.files())
        .unwrap();
    document.load(request, package, false).unwrap();
    document
}

fn workspace() -> Option<Arc<WorkspaceDocument>> {
    Some(Arc::new(WorkspaceDocument {
        data: "two panes".into(),
    }))
}

#[test]
fn open_edit_save_reopen_keeps_workspace_and_unknown_data() {
    let mut package = Package::seeded("round-trip", "round trip");
    let mut document = open(&package);
    document.lifecycle.replace_workspace(workspace());
    document.add_bus("Drums");
    assert!(document.is_dirty());

    let saved = document.save(&mut package);
    assert!(saved.project_marked_saved);
    assert!(saved.workspace_marked_saved);
    assert!(saved.document_clean);
    assert!(!document.is_dirty());

    let reopened = open(&package);
    assert_eq!(reopened.lifecycle.workspace(), workspace().as_deref());
    assert!(reopened
        .lifecycle
        .preserved()
        .data
        .contains("vendor.note=keep"));
    assert!(reopened
        .lifecycle
        .preserved()
        .data
        .contains("vendor.future=[9, 8, 7]"));
    assert!(reopened.has_bus("Drums"));
}

#[test]
fn dirty_replacement_requires_an_explicit_discard_and_failed_open_is_transactional() {
    let mut current = Package::seeded("transactional-open-current", "current");
    let missing = Package::new("transactional-open-missing");
    let mut document = open(&current);
    document.lifecycle.replace_workspace(workspace());
    document.add_bus("Unsaved bus");
    let revision = document.revision();

    assert_eq!(
        document
            .lifecycle
            .replacement_disposition(&document.session)
            .unwrap(),
        ProjectReplacementDisposition::Dirty
    );
    assert!(matches!(
        document
            .lifecycle
            .begin_open_primary(&document.session, missing.files()),
        Err(ProjectLifecycleError::UnsavedChanges)
    ));
    assert!(document.lifecycle.pending_open_source().is_none());

    let request = document
        .lifecycle
        .begin_open_primary_discarding_changes(missing.files());
    assert_eq!(
        document.lifecycle.pending_open_source(),
        Some(&path("transactional-open-missing", "project.json"))
    );
    assert!(matches!(
        document.load(request, &missing, false),
        Err(ProjectLifecycleError::Repository(_))
    ));

    // A bad path is only a failed candidate. The old live project, repository
    // identity, workspace, edit history, and dirty state all survive and can
    // still be saved to the original package.
    assert!(document.lifecycle.pending_open_source().is_none());
    assert_eq!(document.revision(), revision);
    assert!(document.has_bus("Unsaved bus"));
    assert_eq!(document.lifecycle.workspace(), workspace().as_deref());
    assert_eq!(
        document.lifecycle.manifest_path(),
        Some(&path("transactional-open-current", "project.json"))
    );
    assert!(document.is_dirty());

    assert!(document.save(&mut current).document_clean);
}

#[test]
fn explicit_discard_replaces_a_dirty_document_only_after_load_succeeds() {
    let current = Package::seeded("discard-current", "current");
    let replacement = Package::seeded("discard-replacement", "replacement");
    let mut document = open(&current);
    document.add_bus("Throw away");

    let request = document
        .lifecycle
        .begin_open_primary_discarding_changes(replacement.files());
    let outcome = document.load(request, &replacement, false).unwrap();

    assert_eq!(outcome.origin, ProjectDocumentOrigin::Primary);
    assert_eq!(document.desk.world.name, "replacement");
    assert!(!document.has_bus("Throw away"));
    assert_eq!(
        document
            .lifecycle
            .replacement_disposition(&document.session)
            .unwrap(),
        ProjectReplacementDisposition::Clean
    );
}

#[test]
fn installed_project_without_a_repository_is_an_unsaved_document() {
    let mut document = TestDocument::new(43);
    document.install("Untitled");

    assert!(document.is_dirty());
    assert_eq!(
        document
            .lifecycle
            .replacement_disposition(&document.session)
            .unwrap(),
        ProjectReplacementDisposition::Dirty
    );
}

#[test]
fn installed_project_without_a_repository_can_export_revision_pinned_audio() {
    let mut document = TestDocument::new(44);
    document.install("Untitled");

    let export = document
        .lifecycle
        .begin_export(&document.session, 0)
        .unwrap();
    let report = export.export(Ok(b"RIFF".to_vec())).unwrap();

    assert_eq!(report.aggregate_revision, 0);
    assert_eq!(&report.report[..4], b"RIFF");
}

#[test]
fn recovery_requires_choice_and_installs_selected_checkpoint() {
    let mut package = Package::seeded("recovery", "primary");
    let mut writer = open(&package);
    writer.add_bus("Recovered");
    let request = writer.begin_autosave(77);
    writer.persist(request, &mut package, false);
    let checkpoint = package.recovery_options().checkpoints[0].clone();

    let ordinary = open(&package);
    assert_eq!(
        ordinary.lifecycle.origin(),
        Some(&ProjectDocumentOrigin::Primary)
    );
    assert!(!ordinary.has_bus("Recovered"));

    let mut document = TestDocument::new(42);
    let request = document
        .lifecycle
        .begin_open_recovery(&document.session, package.files(), checkpoint.clone())
        .unwrap();
    let outcome = document.load(request, &package, false).unwrap();
    assert_eq!(outcome.origin, ProjectDocumentOrigin::Recovery(checkpoint));
    assert!(document.has_bus("Recovered"));
    assert!(document.is_dirty());

    let saved = document.save(&mut package);
    assert!(saved.document_clean);
    assert_eq!(
        document.lifecycle.origin(),
        Some(&ProjectDocumentOrigin::Primary)
    );
    assert!(open(&package).has_bus("Recovered"));
}

#[test]
fn save_revision_conflict_keeps_newer_project_and_workspace_dirty() {
    let mut package = Package::seeded("conflict", "conflict");
    let mut document = open(&package);
    document.add_bus("First");
    let request = document.begin_save();
    assert_eq!(request.aggregate_revision(), 1);
    let completion = document.persist(request, &mut package, false);

    document.add_bus("Second");
    document.lifecycle.replace_workspace(workspace());
    let outcome = document.finish_save(completion, &package).unwrap();
    assert!(!outcome.project_marked_saved);
    assert!(!outcome.workspace_marked_saved);
    assert!(!outcome.document_clean);
    assert!(document.is_dirty());

    let reopened = open(&package);
    assert!(reopened.has_bus("First"));
    assert!(!reopened.has_bus("Second"));
    assert!(reopened.lifecycle.workspace().is_none());
}

#[test]
fn save_as_changes_location_and_export_rejects_a_stale_audible_revision() {
    let source = Package::seeded("save-as-source", "save as");
    let mut destination = Package::new("save-as-destination");
    let mut document = open(&source);
    document.add_bus("Moved");
    let request = document
        .lifecycle
        .begin_save_as(&document.session, destination.files())
        .unwrap();
    let completion = document.persist(request, &mut destination, false);
    let outcome = document.finish_save(completion, &destination).unwrap();
    assert!(outcome.document_clean);
    assert_eq!(
        document.lifecycle.manifest_path(),
        Some(&path("save-as-destination", "project.json"))
    );

    let export = document
        .lifecycle
        .begin_export(&document.session, 1)
        .unwrap();
    assert_eq!(export.aggregate_revision(), 1);
    let report = export.export(Ok("current.wav")).unwrap();
    assert_eq!(report.aggregate_revision, 1);

    let error = document
        .lifecycle
        .begin_export(&document.session, 0)
        .err()
        .expect("stale audio must not be exported as current");
    assert!(matches!(
        error,
        ProjectLifecycleError::ExportRevisionConflict {
            project_revision: 1,
            audible_revision: 0
        }
    ));
}

#[test]
fn save_as_invalidates_an_autosave_completion_from_the_old_package() {
    let mut source = Package::seeded("save-as-autosave-source", "save as autosave");
    let mut destination = Package::new("save-as-autosave-destination");
    let mut document = open(&source);
    document.add_bus("Before move");

    let request = document.begin_autosave(100);
    let old_autosave = document.persist(request, &mut source, true);
    let request = document
        .lifecycle
        .begin_save_as(&document.session, destination.files())
        .unwrap();
    let save_as = document.persist(request, &mut destination, true);
    document.finish_save(save_as, &destination).unwrap();

    assert!(matches!(
        document.finish_save(old_autosave, &source),
        Err(ProjectLifecycleError::DocumentChangedDuringOperation)
    ));
    assert_eq!(
        document.lifecycle.manifest_path(),
        Some(&path("save-as-autosave-destination", "project.json"))
    );
}

#[test]
fn open_installs_with_typed_missing_media_diagnostics() {
    let mut package = Package::seeded("missing-media", "missing media");
    package.missing_media = vec![6];

    let document = open(&package);
    let diagnostics = document.lifecycle.diagnostics();
    assert_eq!(*diagnostics.unresolved_assets, vec![AssetId(6)]);
    assert!(diagnostics
        .media
        .iter()
        .any(|diagnostic| diagnostic.contains("asset 6") && diagnostic.contains("route-missing")));
    assert!(document.desk.world.pcm.is_empty());
    assert!(!document.session.diagnostics().is_empty());
}

#[test]
fn raced_autosave_acknowledges_only_its_exact_durable_prefix() {
    let mut package = Package::seeded("journal-race", "journal race");
    let mut document = open(&package);
    document.add_bus("First");
    let request = document.begin_autosave(10);
    assert_eq!(request.journal_delta().unwrap().through_sequence, 1);
    let completion = document.persist(request, &mut package, true);

    document.add_bus("Second");
    let outcome = document.finish_save(completion, &package).unwrap();
    assert!(matches!(
        outcome.journal,
        ProjectJournalPersistenceState::Persisted { checkpoint, .. }
            if checkpoint.through_sequence == 1 && checkpoint.project_revision == 1
    ));
    let pending = document
        .session
        .capture_autosave_journal()
        .unwrap()
        .unwrap();
    assert_eq!(pending.checkpoint.through_sequence, 1);
    assert_eq!(pending.records.len(), 1);
    assert_eq!(pending.records[0].sequence, 2);
    assert_eq!(pending.resulting_revision, 2);
}

#[test]
fn older_autosave_completion_never_rewinds_the_durable_cursor() {
    let mut package = Package::seeded("journal-out-of-order", "journal order");
    let mut document = open(&package);
    document.add_bus("First");
    let request = document.begin_autosave(20);
    let older = document.persist(request, &mut package, true);
    document.add_bus("Second");
    let request = document.begin_autosave(21);
    let newer = document.persist(request, &mut package, true);

    let newer = document.finish_save(newer, &package).unwrap();
    assert!(matches!(
        newer.journal,
        ProjectJournalPersistenceState::Persisted { checkpoint, .. }
            if checkpoint.through_sequence == 2
    ));
    let older = document.finish_save(older, &package).unwrap();
    assert!(matches!(
        older.journal,
        ProjectJournalPersistenceState::DurableSuperseded {
            durable_through_sequence: 1,
            current_checkpoint,
            ..
        } if current_checkpoint.through_sequence == 2
    ));
    assert_eq!(
        document.session.journal_checkpoint().unwrap(),
        ProjectJournalCheckpoint {
            through_sequence: 2,
            project_revision: 2,
        }
    );
    assert_eq!(
        document.lifecycle.journal_recovery_state().diagnostics[0].kind,
        ProjectJournalDiagnosticKind::Superseded
    );
}

fn recover_from_revision_one(package: &Package, id: u64) -> TestDocument {
    let checkpoint = package
        .recovery_options()
        .checkpoints
        .into_iter()
        .find(|checkpoint| checkpoint.base_project_revision == 1)
        .expect("first autosave checkpoint");
    let mut recovered = TestDocument::new(id);
    let request = recovered
        .lifecycle
        .begin_open_recovery(&recovered.session, package.files(), checkpoint)
        .unwrap();
    let outcome = recovered.load(request, package, true).unwrap();
    assert_eq!(
        outcome.revisions.aggregate,
        2,
        "journal recovery state: {:?}",
        recovered.lifecycle.journal_recovery_state()
    );
    recovered
}

#[test]
fn chosen_checkpoint_replays_connected_journal_suffix_and_restores_cursor() {
    let mut package = Package::seeded("journal-replay", "journal replay");
    let mut writer = open(&package);
    writer.execute("pattern First");
    writer.autosave(&mut package, 30);
    writer.execute("pattern Second");
    writer.autosave(&mut package, 31);

    writer.save(&mut package);
    let reopened = open(&package);
    assert_eq!(
        reopened.session.journal_checkpoint().unwrap(),
        ProjectJournalCheckpoint {
            through_sequence: 2,
            project_revision: 2,
        },
        "ordinary reopen reconstructs the durable cursor without replay"
    );

    let recovered = recover_from_revision_one(&package, 88);
    assert!(recovered.desk.world.patterns.contains(&"First".to_string()));
    assert!(recovered
        .desk
        .world
        .patterns
        .contains(&"Second".to_string()));
    assert_eq!(
        recovered.session.journal_checkpoint().unwrap(),
        ProjectJournalCheckpoint {
            through_sequence: 2,
            project_revision: 2,
        }
    );
    let state = recovered.lifecycle.journal_recovery_state();
    assert_eq!(state.replayed_records, 1);
    assert!(matches!(
        state.replay,
        ProjectJournalReplayState::Replayed {
            from_revision: 1,
            through_revision: 2,
            through_sequence: 2,
            records: 1,
        }
    ));
}

#[test]
fn chosen_checkpoint_rebases_ephemeral_mixer_guard_for_journal_replay() {
    let mut package = Package::seeded("journal-mixer-replay", "journal mixer replay");
    let mut writer = open(&package);
    writer.add_bus("First");
    writer.autosave(&mut package, 35);
    writer.add_bus("Second");
    writer.autosave(&mut package, 36);

    let recovered = recover_from_revision_one(&package, 90);
    assert!(recovered.has_bus("First"));
    assert!(recovered.has_bus("Second"));
    assert_eq!(
        recovered.session.journal_checkpoint().unwrap(),
        ProjectJournalCheckpoint {
            through_sequence: 2,
            project_revision: 2,
        }
    );
    assert!(matches!(
        recovered.lifecycle.journal_recovery_state().replay,
        ProjectJournalReplayState::Replayed {
            from_revision: 1,
            through_revision: 2,
            through_sequence: 2,
            records: 1,
        }
    ));
}

fn restart(package: &Package, id: u64) -> (TestDocument, ProjectOpenOutcome) {
    let mut restarted = TestDocument::new(id);
    let request = restarted
        .lifecycle
        .begin_open_primary(&restarted.session, package.files())
        .unwrap();
    let outcome = restarted.load(request, package, true).unwrap();
    (restarted, outcome)
}

#[test]
fn long_session_rotates_checkpoints_compacts_journals_and_restarts_exactly() {
    let mut package = Package::seeded("journal-long-session", "journal long session");
    let mut writer = open(&package);
    for index in 1..=12 {
        writer.add_bus(&format!("Bus {index}"));
        writer.autosave(&mut package, 1_000 + index);
        assert!(writer.session.journal_records().unwrap().is_empty());
    }

    let discovery = package.recovery_options();
    assert_eq!(
        discovery.checkpoints.len(),
        DEFAULT_MAX_RECOVERY_CHECKPOINTS
    );
    assert!(discovery.journals.len() <= DEFAULT_MAX_ACTIVE_JOURNAL_SEGMENTS);
    assert!(discovery
        .journal_candidates
        .iter()
        .all(|candidate| candidate.tail == JournalTail::Clean));
    assert!(discovery
        .journal_candidates
        .iter()
        .any(|candidate| candidate.label.contains("Commands 1")));

    let (restarted, outcome) = restart(&package, 92);
    assert_eq!(outcome.revisions.aggregate, 12);
    assert_eq!(
        restarted
            .lifecycle
            .journal_recovery_state()
            .replayed_records,
        12
    );
    assert_eq!(
        restarted
            .session
            .project_snapshot()
            .unwrap()
            .project
            .buses
            .len(),
        13
    );
    assert!(restarted
        .lifecycle
        .preserved()
        .data
        .contains("vendor.future=[9, 8, 7]"));
}

#[test]
fn restart_replays_verified_prefix_and_labels_crash_tail() {
    let mut package = Package::seeded("journal-crash-tail", "journal crash tail");
    let mut writer = open(&package);
    writer.add_bus("Durable");
    writer.autosave(&mut package, 2_000);
    for segment in package.segments.values_mut() {
        segment.torn = true;
    }

    let discovery = package.recovery_options();
    assert_eq!(discovery.journal_candidates.len(), 1);
    assert_eq!(discovery.journal_candidates[0].verified_frames, 1);
    assert!(discovery.journal_candidates[0]
        .label
        .contains("crash-truncated tail"));

    let (restarted, outcome) = restart(&package, 93);
    assert_eq!(outcome.revisions.aggregate, 1);
    let state = restarted.lifecycle.journal_recovery_state();
    assert_eq!(state.replayed_records, 1);
    assert!(matches!(
        state.replay,
        ProjectJournalReplayState::Partial { records: 1, .. }
    ));
    assert!(state
        .diagnostics
        .iter()
        .any(|diagnostic| diagnostic.message.contains("rejected tail")));
}

#[test]
fn journal_asset_replay_rematerializes_pcm_before_publication() {
    let mut package = Package::seeded("journal-asset-pcm", "journal asset");
    package.media = true;
    let mut writer = open(&package);
    writer.desk.world.pcm.insert(32, MEDIA.to_vec());
    writer.execute("import 32");
    writer.execute("sample 32");
    writer.autosave(&mut package, 41);
    let asset = AssetId(32);

    let (recovered, outcome) = restart(&package, 89);
    assert_eq!(outcome.revisions.aggregate, 2);
    let snapshot = recovered.session.project_snapshot().unwrap();
    assert!(snapshot
        .project
        .graph
        .assets
        .iter()
        .any(|record| record.id == asset));
    assert_eq!(recovered.desk.world.pcm[&asset.0], MEDIA);
    assert_eq!(recovered.desk.world.sample_pcm.len(), 1);
    assert_eq!(recovered.desk.world.sample_pcm[0], MEDIA);
    let state = recovered.lifecycle.journal_recovery_state();
    assert_eq!(state.replayed_records, 2);
    assert!(state.diagnostics.is_empty());

    // A different process with no media decoder keeps the known-good checkpoint
    // and foreign payloads intact, and reports why the journal suffix was not
    // publishable instead of fabricating silent PCM.
    package.media = false;
    let (missing_media, outcome) = restart(&package, 91);
    assert_eq!(outcome.revisions.aggregate, 0);
    let state = missing_media.lifecycle.journal_recovery_state();
    assert_eq!(state.replayed_records, 0);
    assert!(state.diagnostics.iter().any(|diagnostic| diagnostic
        .message
        .contains("exact PCM could not be rematerialized")));
    assert!(missing_media
        .lifecycle
        .preserved()
        .data
        .contains("vendor.note=keep"));
    assert!(missing_media
        .lifecycle
        .preserved()
        .data
        .contains("vendor.future=[9, 8, 7]"));
}

#[test]
fn any_earlier_open_is_stale_once_another_one_began() {
    let mut package = Package::seeded("stale-current", "current");
    let other = Package::seeded("stale-other", "other");
    let mut document = open(&package);
    let first = document
        .lifecycle
        .begin_open_primary(&document.session, other.files())
        .unwrap();
    document.add_bus("Between");
    assert!(document.save(&mut package).document_clean);
    assert_eq!(
        document.lifecycle.pending_open_source(),
        Some(&path("stale-other", "project.json"))
    );
    let second = document
        .lifecycle
        .begin_open_primary(&document.session, other.files())
        .unwrap();
    document.load(second, &other, false).unwrap();
    assert!(matches!(
        document.load(first, &other, false),
        Err(ProjectLifecycleError::StaleOpenCompletion)
    ));
    assert_eq!(
        ProjectLifecycleError::StaleOpenCompletion.message(&HostWords::none()),
        "an older open completed after another open began"
    );
}

#[test]
fn an_older_open_cannot_finish_after_a_newer_one_began() {
    let first = Package::seeded("first", "first");
    let second = Package::seeded("second", "second");
    let mut document = TestDocument::new(7);
    let older = document
        .lifecycle
        .begin_open_primary(&document.session, first.files())
        .unwrap();
    let newer = document
        .lifecycle
        .begin_open_primary(&document.session, second.files())
        .unwrap();
    assert!(matches!(
        document.load(older, &first, false),
        Err(ProjectLifecycleError::StaleOpenCompletion)
    ));
    document.load(newer, &second, false).unwrap();
    assert_eq!(document.desk.world.name, "second");
}

#[test]
fn only_the_latest_save_finishes() {
    let mut package = Package::seeded("saves", "saves");
    let mut document = open(&package);
    document.add_bus("One");
    let request = document.begin_save();
    let older = document.persist(request, &mut package, false);
    let request = document.begin_save();
    let newer = document.persist(request, &mut package, false);
    assert!(matches!(
        document.finish_save(older, &package),
        Err(ProjectLifecycleError::SupersededSaveCompletion)
    ));
    assert!(document.finish_save(newer, &package).unwrap().document_clean);

    let mut unsaved = TestDocument::new(8);
    unsaved.install("Untitled");
    assert!(matches!(
        unsaved.lifecycle.begin_save(&unsaved.session),
        Err(ProjectLifecycleError::NoRepository)
    ));
    let request = document.begin_autosave(5);
    let completion = request.persist(Err("disk full".into()));
    assert!(matches!(
        document.finish_save(completion, &package),
        Err(ProjectLifecycleError::Repository(message)) if message == "disk full"
    ));
}

#[test]
fn stale_workspace_targets_are_reported_to_the_user() {
    let mut package = Package::seeded("targets", "targets");
    package.primary.as_mut().unwrap().workspace = workspace();
    let mut document = TestDocument::new(9);
    let request = document
        .lifecycle
        .begin_open_primary(&document.session, package.files())
        .unwrap();
    let saved = package.saved(&request.origin).unwrap();
    let desk = Desk::new(saved.world.clone(), 0, 0);
    let completion = request.load(Ok(package.opened(&saved, &desk)), &Vec::new());
    document
        .lifecycle
        .finish_open(
            &mut document.session,
            completion,
            JournalReplay {
                seed: Err(String::new()),
                replies: Vec::new(),
                stale_workspace_targets: Arc::new(vec!["view 4: missing pattern:999".into()]),
            },
            None,
        )
        .unwrap();
    assert_eq!(
        document
            .lifecycle
            .diagnostics()
            .stale_workspace_targets
            .len(),
        1
    );
    assert!(document
        .session
        .diagnostics()
        .iter()
        .any(|message| message.contains("missing pattern:999")));
}

#[test]
fn recovery_takes_records_in_turn_until_one_fails() {
    let segment = |first: u64, last: u64| JournalSegment {
        path: format!("journal/{first}.audecj"),
        content: Ok(VerifiedSegment {
            valid_bytes: 64,
            rejected_tail: None,
            frames: (first..=last)
                .map(|sequence| VerifiedFrame {
                    sequence,
                    resulting_revision: sequence,
                    record: Ok(Arc::new(record(sequence, sequence, "bus Drums"))),
                })
                .collect(),
        }),
    };
    let segments = vec![segment(3, 4), segment(1, 2)];
    let went = |applied: Result<(), String>| RecordOutcome {
        applied,
        hydrated: Vec::new(),
    };
    let whole = prepare_journal_recovery(
        1,
        &segments,
        &vec![went(Ok(())), went(Ok(())), went(Ok(())), went(Ok(()))],
    );
    assert!(whole.requested);
    assert_eq!(whole.anchor_sequence, Some(1));
    let sequences: Vec<u64> = whole
        .records
        .iter()
        .map(|record| record.sequence)
        .collect();
    assert_eq!(sequences, vec![2, 3, 4]);
    assert!(whole.diagnostics.is_empty());

    let cut = prepare_journal_recovery(
        1,
        &segments,
        &vec![went(Ok(())), went(Err("no bus".into())), went(Ok(()))],
    );
    assert_eq!(cut.records.len(), 1);
    assert_eq!(
        cut.diagnostics[0].message,
        "journal record 3 does not apply to the selected checkpoint: no bus"
    );
}

#[test]
fn disputed_records_never_come_back() {
    let segment = |path: &str, records: Vec<(u64, &str)>| JournalSegment {
        path: path.into(),
        content: Ok(VerifiedSegment {
            valid_bytes: 64,
            rejected_tail: None,
            frames: records
                .into_iter()
                .map(|(sequence, batch)| VerifiedFrame {
                    sequence,
                    resulting_revision: sequence,
                    record: Ok(Arc::new(record(sequence, sequence, batch))),
                })
                .collect(),
        }),
    };
    let segments = vec![
        segment("a", vec![(1, "bus Drums"), (2, "bus Drums"), (3, "bus Drums")]),
        segment("b", vec![(1, "bus Drums"), (3, "bus Keys")]),
        segment("c", vec![(3, "bus Drums")]),
    ];
    let went = || RecordOutcome {
        applied: Ok(()),
        hydrated: Vec::new(),
    };
    let recovered = prepare_journal_recovery(0, &segments, &vec![went(), went(), went()]);
    let sequences: Vec<u64> = recovered
        .records
        .iter()
        .map(|record| record.sequence)
        .collect();
    assert_eq!(sequences, vec![1, 2]);
    assert_eq!(recovered.diagnostics.len(), 1);
    assert_eq!(
        recovered.diagnostics[0].message,
        "journal sequence 3 conflicts with a"
    );
}
