//! The durable life of one document: opening, saving, recovering and exporting.
//!
//! Work on files happens elsewhere. Each operation begins here with a request,
//! and ends here with what the work came to. What is installed stays usable until
//! something else was loaded completely.

use std::sync::Arc;

use vstd::prelude::*;
use vstd::string::*;

use crate::command::AssetId;
use crate::compaction::JournalCompactionResult;
use crate::event_log::ProjectSessionEvent;
use crate::journal::{
    cursor_of, discover_journal_cursor, is_recovered, next_sequence, notes, segment_notes,
    JournalNote, JournalRecovery, JournalSegment, PreparedJournalRecovery, ProjectJournalDiagnostic,
    ProjectJournalDiagnosticKind,
};
use crate::live_project::{
    CommandJournalRecord, ControllerReply, LiveProjectSnapshot, ProjectController, ProjectJournalCheckpoint,
    ProjectJournalDelta, ProjectRevisions,
};
use crate::selection::{following, next_number};
use crate::session::{
    adopted, installed, logged, next_generation, published_update, republished, AnalysisHandle,
    uninterpreted, ProjectSession, ProjectSessionError, SavedMark, SessionView,
};
use crate::store::{
    copy_candidates, copy_paths, copy_store_diagnostics, segment_name, write_segment_name,
    JournalRecoveryCandidate, PackagePath, RecoveryCheckpoint, RecoveryDiscovery, SaveResult,
    StoreDiagnostic,
};
use crate::text::{
    append_decimal, copy_optional_text, decimal, owned, same_text, text_views,
};

verus! {

// ----- states -------------------------------------------------------------

/// Where a document is stored.
#[derive(Debug, PartialEq, Eq)]
pub struct ProjectFiles {
    pub manifest: PackagePath,
}

impl Clone for ProjectFiles {
    fn clone(&self) -> (r: Self)
        ensures
            r == *self,
    {
        ProjectFiles { manifest: self.manifest.clone() }
    }
}

/// What compacting the journal came to, as it is shown.
#[derive(Debug, PartialEq, Eq)]
pub struct ProjectJournalCompactionState {
    pub compacted_path: Option<PackagePath>,
    pub active_segments: usize,
    pub frames_preserved: usize,
    pub skipped_reason: Option<String>,
    pub error: Option<String>,
}

impl Clone for ProjectJournalCompactionState {
    fn clone(&self) -> (r: Self)
        ensures
            r == *self,
    {
        ProjectJournalCompactionState {
            compacted_path: match &self.compacted_path {
                Some(path) => Some(path.clone()),
                None => None,
            },
            active_segments: self.active_segments,
            frames_preserved: self.frames_preserved,
            skipped_reason: copy_optional_text(&self.skipped_reason),
            error: copy_optional_text(&self.error),
        }
    }
}

/// What became of the pending records of the journal.
#[derive(Debug, PartialEq, Eq)]
pub enum ProjectJournalPersistenceState {
    NoPending { checkpoint: ProjectJournalCheckpoint },
    NotWritten {
        checkpoint: ProjectJournalCheckpoint,
        through_sequence: u64,
        resulting_revision: u64,
    },
    Persisted {
        prior_checkpoint: ProjectJournalCheckpoint,
        checkpoint: ProjectJournalCheckpoint,
        path: PackagePath,
        compaction: ProjectJournalCompactionState,
    },
    DurableSuperseded {
        durable_through_sequence: u64,
        durable_revision: u64,
        current_checkpoint: ProjectJournalCheckpoint,
        path: PackagePath,
    },
    Failed {
        checkpoint: ProjectJournalCheckpoint,
        through_sequence: u64,
        resulting_revision: u64,
        message: String,
    },
}

impl Clone for ProjectJournalPersistenceState {
    fn clone(&self) -> (r: Self)
        ensures
            r == *self,
    {
        match self {
            ProjectJournalPersistenceState::NoPending { checkpoint } => {
                ProjectJournalPersistenceState::NoPending { checkpoint: *checkpoint }
            },
            ProjectJournalPersistenceState::NotWritten {
                checkpoint,
                through_sequence,
                resulting_revision,
            } => ProjectJournalPersistenceState::NotWritten {
                checkpoint: *checkpoint,
                through_sequence: *through_sequence,
                resulting_revision: *resulting_revision,
            },
            ProjectJournalPersistenceState::Persisted {
                prior_checkpoint,
                checkpoint,
                path,
                compaction,
            } => ProjectJournalPersistenceState::Persisted {
                prior_checkpoint: *prior_checkpoint,
                checkpoint: *checkpoint,
                path: path.clone(),
                compaction: compaction.clone(),
            },
            ProjectJournalPersistenceState::DurableSuperseded {
                durable_through_sequence,
                durable_revision,
                current_checkpoint,
                path,
            } => ProjectJournalPersistenceState::DurableSuperseded {
                durable_through_sequence: *durable_through_sequence,
                durable_revision: *durable_revision,
                current_checkpoint: *current_checkpoint,
                path: path.clone(),
            },
            ProjectJournalPersistenceState::Failed {
                checkpoint,
                through_sequence,
                resulting_revision,
                message,
            } => ProjectJournalPersistenceState::Failed {
                checkpoint: *checkpoint,
                through_sequence: *through_sequence,
                resulting_revision: *resulting_revision,
                message: message.clone(),
            },
        }
    }
}

/// Whether and how far the journal was replayed.
#[derive(Clone, Copy, Debug, PartialEq, Eq, Structural)]
pub enum ProjectJournalReplayState {
    NotRequested,
    Current { revision: u64, through_sequence: u64 },
    Replayed {
        from_revision: u64,
        through_revision: u64,
        through_sequence: u64,
        records: usize,
    },
    Partial {
        from_revision: u64,
        through_revision: u64,
        through_sequence: u64,
        records: usize,
    },
}

/// Where the installed document came from.
#[derive(Debug, PartialEq, Eq)]
pub enum ProjectDocumentOrigin {
    Primary,
    Recovery(RecoveryCheckpoint),
}

impl Clone for ProjectDocumentOrigin {
    fn clone(&self) -> (r: Self)
        ensures
            r == *self,
    {
        match self {
            ProjectDocumentOrigin::Primary => ProjectDocumentOrigin::Primary,
            ProjectDocumentOrigin::Recovery(checkpoint) => ProjectDocumentOrigin::Recovery(
                checkpoint.clone(),
            ),
        }
    }
}

/// Whether the document can be replaced without asking.
#[derive(Clone, Copy, Debug, PartialEq, Eq, Structural)]
pub enum ProjectReplacementDisposition {
    /// Nothing is installed.
    Empty,
    /// Everything is saved.
    Clean,
    /// Something would be lost.
    Dirty,
}

/// The layout of the workspace, as it is stored.
#[derive(Debug, PartialEq, Eq)]
pub struct WorkspaceDocument {
    pub data: String,
}

/// What a manifest holds beyond what is understood.
#[derive(Debug, PartialEq, Eq)]
pub struct PreservedProjectData {
    pub data: String,
}

/// What is told about a document while it is open.
#[derive(Debug, PartialEq, Eq)]
pub struct ProjectDocumentDiagnostics {
    pub project_io: Arc<Vec<String>>,
    pub media: Arc<Vec<String>>,
    pub unresolved_assets: Arc<Vec<AssetId>>,
    pub relink_proposals: Arc<Vec<String>>,
    pub recovery_store: Vec<StoreDiagnostic>,
    pub stale_workspace_targets: Arc<Vec<String>>,
    pub journal: Vec<ProjectJournalDiagnostic>,
}

/// What the diagnostics of a document hold.
pub struct DiagnosticsView {
    pub project_io: Arc<Vec<String>>,
    pub media: Arc<Vec<String>>,
    pub unresolved_assets: Arc<Vec<AssetId>>,
    pub relink_proposals: Arc<Vec<String>>,
    pub recovery_store: Seq<StoreDiagnostic>,
    pub stale_workspace_targets: Arc<Vec<String>>,
    pub journal: Seq<ProjectJournalDiagnostic>,
}

impl View for ProjectDocumentDiagnostics {
    type V = DiagnosticsView;

    open spec fn view(&self) -> DiagnosticsView {
        DiagnosticsView {
            project_io: self.project_io,
            media: self.media,
            unresolved_assets: self.unresolved_assets,
            relink_proposals: self.relink_proposals,
            recovery_store: self.recovery_store@,
            stale_workspace_targets: self.stale_workspace_targets,
            journal: self.journal@,
        }
    }
}

/// The messages of store diagnostics.
pub open spec fn store_messages(list: Seq<StoreDiagnostic>) -> Seq<Seq<char>> {
    list.map_values(|d: StoreDiagnostic| d.message@)
}

/// The messages of journal diagnostics.
pub open spec fn journal_messages(list: Seq<ProjectJournalDiagnostic>) -> Seq<Seq<char>> {
    list.map_values(|d: ProjectJournalDiagnostic| d.message@)
}

/// The diagnostics of a document as the session reports them.
pub open spec fn summary_texts(diagnostics: DiagnosticsView) -> Seq<Seq<char>> {
    text_views(diagnostics.project_io@) + text_views(diagnostics.media@) + store_messages(
        diagnostics.recovery_store,
    ) + text_views(diagnostics.stale_workspace_targets@) + journal_messages(diagnostics.journal)
}

fn push_texts(out: &mut Vec<String>, list: &Vec<String>)
    ensures
        text_views(final(out)@) == text_views(old(out)@) + text_views(list@),
{
    let ghost start = text_views(out@);
    let mut i: usize = 0;
    assert(text_views(out@) =~= start + text_views(list@).take(0));
    while i < list.len()
        invariant
            i <= list.len(),
            text_views(out@) == start + text_views(list@).take(i as int),
        decreases list.len() - i,
    {
        let ghost before = text_views(out@);
        let text = list[i].clone();
        out.push(text);
        assert(text_views(out@) =~= before.push(text@));
        assert(text_views(out@) =~= start + text_views(list@).take(i as int + 1));
        i = i + 1;
    }
    assert(text_views(list@).take(i as int) =~= text_views(list@));
}

impl ProjectDocumentDiagnostics {
    fn summaries(&self) -> (r: Vec<String>)
        ensures
            text_views(r@) == summary_texts(self@),
    {
        let mut out: Vec<String> = Vec::new();
        assert(text_views(out@) =~= Seq::<Seq<char>>::empty());
        push_texts(&mut out, &self.project_io);
        push_texts(&mut out, &self.media);
        let ghost start = text_views(out@);
        let ghost stored = store_messages(self.recovery_store@);
        let mut i: usize = 0;
        assert(text_views(out@) =~= start + stored.take(0));
        while i < self.recovery_store.len()
            invariant
                i <= self.recovery_store.len(),
                stored == store_messages(self.recovery_store@),
                text_views(out@) == start + stored.take(i as int),
            decreases self.recovery_store.len() - i,
        {
            let ghost before = text_views(out@);
            let text = self.recovery_store[i].message.clone();
            out.push(text);
            assert(text_views(out@) =~= before.push(text@));
            assert(text_views(out@) =~= start + stored.take(i as int + 1));
            i = i + 1;
        }
        assert(stored.take(i as int) =~= stored);
        push_texts(&mut out, &self.stale_workspace_targets);
        let ghost middle = text_views(out@);
        let ghost told = journal_messages(self.journal@);
        let mut k: usize = 0;
        assert(text_views(out@) =~= middle + told.take(0));
        while k < self.journal.len()
            invariant
                k <= self.journal.len(),
                told == journal_messages(self.journal@),
                text_views(out@) == middle + told.take(k as int),
            decreases self.journal.len() - k,
        {
            let ghost before = text_views(out@);
            let text = self.journal[k].message.clone();
            out.push(text);
            assert(text_views(out@) =~= before.push(text@));
            assert(text_views(out@) =~= middle + told.take(k as int + 1));
            k = k + 1;
        }
        assert(told.take(k as int) =~= told);
        assert(text_views(out@) =~= summary_texts(self@));
        out
    }
}

/// What is known about the journal of a document.
#[derive(Debug, PartialEq, Eq)]
pub struct ProjectJournalRecoveryState {
    pub discovered_segments: Vec<PackagePath>,
    pub discovered_candidates: Vec<JournalRecoveryCandidate>,
    pub checkpoint: Option<ProjectJournalCheckpoint>,
    pub replayed_records: usize,
    pub replay: ProjectJournalReplayState,
    pub last_persistence: Option<ProjectJournalPersistenceState>,
    pub diagnostics: Vec<ProjectJournalDiagnostic>,
}

/// What the state of the journal holds.
pub struct JournalStateView {
    pub discovered_segments: Seq<PackagePath>,
    pub discovered_candidates: Seq<JournalRecoveryCandidate>,
    pub checkpoint: Option<ProjectJournalCheckpoint>,
    pub replayed_records: usize,
    pub replay: ProjectJournalReplayState,
    pub last_persistence: Option<ProjectJournalPersistenceState>,
    pub diagnostics: Seq<ProjectJournalDiagnostic>,
}

impl View for ProjectJournalRecoveryState {
    type V = JournalStateView;

    open spec fn view(&self) -> JournalStateView {
        JournalStateView {
            discovered_segments: self.discovered_segments@,
            discovered_candidates: self.discovered_candidates@,
            checkpoint: self.checkpoint,
            replayed_records: self.replayed_records,
            replay: self.replay,
            last_persistence: self.last_persistence,
            diagnostics: self.diagnostics@,
        }
    }
}

/// An open that has begun.
#[derive(Debug, PartialEq, Eq)]
pub struct PendingProjectOpen {
    pub token: u64,
    pub source: PackagePath,
}

/// Why the lifecycle refuses.
#[derive(Debug, PartialEq, Eq)]
pub enum ProjectLifecycleError {
    Session(ProjectSessionError),
    Repository(String),
    Export(String),
    LiveProject(String),
    NoRepository,
    StaleOpenCompletion,
    SupersededSaveCompletion,
    DocumentChangedDuringOperation,
    UnsavedChanges,
    ExportRevisionConflict { project_revision: u64, audible_revision: u64 },
}

/// What kind of save is under way.
#[derive(Clone, Copy, Debug, PartialEq, Eq, Structural)]
pub enum SaveKind {
    Primary,
    Autosave { saved_unix_ms: u64 },
}

/// The durable side of a document.
pub struct ProjectDocumentLifecycle {
    files: Option<ProjectFiles>,
    manifest_path: Option<PackagePath>,
    origin: Option<ProjectDocumentOrigin>,
    preserved: Arc<PreservedProjectData>,
    workspace: Option<Arc<WorkspaceDocument>>,
    workspace_revision: u64,
    saved_workspace_revision: u64,
    diagnostics: ProjectDocumentDiagnostics,
    recovery: Arc<RecoveryDiscovery>,
    journal: ProjectJournalRecoveryState,
    document_epoch: u64,
    operation_sequence: u64,
    pending_open: Option<PendingProjectOpen>,
    latest_primary_save: Option<u64>,
}

/// What the durable side of a document holds.
pub struct LifecycleView {
    pub files: Option<ProjectFiles>,
    pub manifest_path: Option<PackagePath>,
    pub origin: Option<ProjectDocumentOrigin>,
    pub preserved: Arc<PreservedProjectData>,
    pub workspace: Option<Arc<WorkspaceDocument>>,
    pub workspace_revision: u64,
    pub saved_workspace_revision: u64,
    pub diagnostics: DiagnosticsView,
    pub recovery: Arc<RecoveryDiscovery>,
    pub journal: JournalStateView,
    pub document_epoch: u64,
    pub operation_sequence: u64,
    pub pending_open: Option<PendingProjectOpen>,
    pub latest_primary_save: Option<u64>,
}

impl View for ProjectDocumentLifecycle {
    type V = LifecycleView;

    closed spec fn view(&self) -> LifecycleView {
        LifecycleView {
            files: self.files,
            manifest_path: self.manifest_path,
            origin: self.origin,
            preserved: self.preserved,
            workspace: self.workspace,
            workspace_revision: self.workspace_revision,
            saved_workspace_revision: self.saved_workspace_revision,
            diagnostics: self.diagnostics@,
            recovery: self.recovery,
            journal: self.journal@,
            document_epoch: self.document_epoch,
            operation_sequence: self.operation_sequence,
            pending_open: self.pending_open,
            latest_primary_save: self.latest_primary_save,
        }
    }
}

// ----- what is unsaved ----------------------------------------------------

/// Whether something would be lost with the document: edits that were not saved,
/// a layout that was not saved, or a recovered document that was never saved.
pub open spec fn document_dirty(document: LifecycleView, session: SessionView) -> bool {
    ||| document.origin matches Some(ProjectDocumentOrigin::Recovery(_))
    ||| session.published.project matches Some(snapshot) && (document.files is None
        || snapshot.dirty)
    ||| document.workspace_revision != document.saved_workspace_revision
}

/// Whether the document can be replaced without asking.
pub open spec fn disposition(
    document: LifecycleView,
    session: SessionView,
) -> ProjectReplacementDisposition {
    if session.published.project is None {
        ProjectReplacementDisposition::Empty
    } else if document_dirty(document, session) {
        ProjectReplacementDisposition::Dirty
    } else {
        ProjectReplacementDisposition::Clean
    }
}

// ----- opening ------------------------------------------------------------

/// An open to be carried out.
#[derive(Debug, PartialEq, Eq)]
pub struct ProjectOpenRequest {
    pub token: u64,
    pub files: ProjectFiles,
    pub origin: ProjectDocumentOrigin,
}

/// Where a document is opened from.
pub open spec fn open_source(files: ProjectFiles, origin: ProjectDocumentOrigin) -> PackagePath {
    match origin {
        ProjectDocumentOrigin::Primary => files.manifest,
        ProjectDocumentOrigin::Recovery(checkpoint) => checkpoint.manifest_path,
    }
}

/// The lifecycle after an open has begun: nothing but the pending open changes.
pub open spec fn opening(
    document: LifecycleView,
    files: ProjectFiles,
    origin: ProjectDocumentOrigin,
) -> LifecycleView {
    let token = next_generation(document.operation_sequence);
    LifecycleView {
        operation_sequence: token,
        pending_open: Some(PendingProjectOpen { token, source: open_source(files, origin) }),
        ..document
    }
}

/// A project that was loaded.
#[derive(Debug, PartialEq, Eq)]
pub enum LoadedProject {
    /// It makes no live project.
    Rejected(String),
    /// It makes one, and this is what its controller replied.
    Live(Result<ProjectController, String>),
}

/// What was read for a document, before anything of it is installed.
#[derive(Debug, PartialEq, Eq)]
pub struct OpenedDocument {
    pub project: LoadedProject,
    /// The revision that was read.
    pub revision: u64,
    pub workspace: Option<Arc<WorkspaceDocument>>,
    pub preserved: Arc<PreservedProjectData>,
    pub project_io: Arc<Vec<String>>,
    pub media: Arc<Vec<String>>,
    pub unresolved_assets: Arc<Vec<AssetId>>,
    pub relink_proposals: Arc<Vec<String>>,
    pub manifest_path: PackagePath,
    pub recovery: Arc<RecoveryDiscovery>,
}

/// Everything that was loaded for a document.
#[derive(Debug, PartialEq, Eq)]
pub struct LoadedDocument {
    pub opened: OpenedDocument,
    pub journal: PreparedJournalRecovery,
}

/// What an open came to.
#[derive(Debug, PartialEq, Eq)]
pub struct ProjectOpenCompletion {
    pub token: u64,
    pub files: ProjectFiles,
    pub origin: ProjectDocumentOrigin,
    pub loaded: Result<LoadedDocument, String>,
}

/// How replaying the journal went: what the controller replied to starting, and
/// to each record up to the first that it refused; and which targets of the
/// workspace are not there afterwards.
#[derive(Debug, PartialEq, Eq)]
pub struct JournalReplay {
    pub seed: Result<ProjectController, String>,
    pub replies: Vec<Result<ControllerReply, String>>,
    pub stale_workspace_targets: Arc<Vec<String>>,
}

impl ProjectOpenRequest {
    /// What has to be read.
    pub fn source(&self) -> (r: &PackagePath)
        ensures
            *r == open_source(self.files, self.origin),
    {
        match &self.origin {
            ProjectDocumentOrigin::Primary => &self.files.manifest,
            ProjectDocumentOrigin::Recovery(checkpoint) => &checkpoint.manifest_path,
        }
    }

    /// The completion of this request with what was read. The journal only says
    /// where the document stands in it.
    pub fn load(
        self,
        opened: Result<OpenedDocument, String>,
        segments: &Vec<JournalSegment>,
    ) -> (r: ProjectOpenCompletion)
        ensures
            r.token == self.token,
            r.files == self.files,
            r.origin == self.origin,
            match opened {
                Err(message) => r.loaded == Err::<LoadedDocument, String>(message),
                Ok(opened) => {
                    &&& r.loaded matches Ok(document)
                    &&& document.opened == opened
                    &&& !document.journal.requested
                    &&& document.journal.from_revision == opened.revision
                    &&& document.journal.anchor_sequence == cursor_of(
                        segments@,
                        opened.revision,
                        segments@.len() as int,
                    )
                    &&& document.journal.records@ == Seq::<Arc<CommandJournalRecord>>::empty()
                    &&& notes(document.journal.diagnostics@) == segment_notes(
                        segments@,
                        segments@.len() as int,
                    )
                },
            },
    {
        let loaded = match opened {
            Ok(opened) => {
                let journal = discover_journal_cursor(opened.revision, segments);
                Ok(LoadedDocument { opened, journal })
            },
            Err(message) => Err(message),
        };
        ProjectOpenCompletion {
            token: self.token,
            files: self.files,
            origin: self.origin,
            loaded,
        }
    }

    /// Whether a completion is that of this request with what was read and the
    /// records that extend it.
    pub open spec fn is_completed_by(
        self,
        completion: ProjectOpenCompletion,
        opened: Result<(OpenedDocument, JournalRecovery), String>,
    ) -> bool {
        &&& completion.token == self.token
        &&& completion.files == self.files
        &&& completion.origin == self.origin
        &&& match opened {
            Err(message) => completion.loaded == Err::<LoadedDocument, String>(message),
            Ok((opened, recovery)) => {
                &&& completion.loaded matches Ok(document)
                &&& document.opened == opened
                &&& is_recovered(document.journal, recovery@)
            },
        }
    }

    /// The completion of this request with what was read and the records that
    /// extend it.
    pub fn load_with_journal(self, opened: Result<(OpenedDocument, JournalRecovery), String>) -> (r:
        ProjectOpenCompletion)
        ensures
            self.is_completed_by(r, opened),
    {
        let loaded = match opened {
            Ok((opened, recovery)) => Ok(LoadedDocument { opened, journal: recovery.finish() }),
            Err(message) => Err(message),
        };
        ProjectOpenCompletion {
            token: self.token,
            files: self.files,
            origin: self.origin,
            loaded,
        }
    }

    /// The same, where the decoder for the media could only be made once the
    /// document was read.
    pub fn load_with_journal_decoder_factory(
        self,
        opened: Result<(OpenedDocument, JournalRecovery), String>,
    ) -> (r: ProjectOpenCompletion)
        ensures
            self.is_completed_by(r, opened),
    {
        self.load_with_journal(opened)
    }
}

/// A document that was opened.
#[derive(Debug, PartialEq, Eq)]
pub struct ProjectOpenOutcome {
    pub revisions: ProjectRevisions,
    pub origin: ProjectDocumentOrigin,
    pub manifest_path: PackagePath,
    pub recovery_available: usize,
}

/// The index of the first refused record, from `i` on.
pub open spec fn first_refusal(replies: Seq<Result<ControllerReply, String>>, i: int) -> int
    decreases replies.len() - i,
{
    if i < 0 || i >= replies.len() {
        replies.len() as int
    } else if replies[i] is Err {
        i
    } else {
        first_refusal(replies, i + 1)
    }
}

/// The session after the first `i` records were replayed.
pub open spec fn replayed_session(
    session: SessionView,
    replies: Seq<Result<ControllerReply, String>>,
    i: int,
) -> SessionView
    decreases i,
{
    if i <= 0 {
        session
    } else {
        let reply = replies[i - 1]->Ok_0;
        published_update(
            replayed_session(session, replies, i - 1),
            reply.controller,
            reply.update,
        )
    }
}

/// The first sequence number to replay, where there is one.
pub open spec fn replay_start(prepared: PreparedJournalRecovery) -> Option<u64> {
    match next_sequence(prepared.anchor_sequence) {
        Some(sequence) => Some(sequence),
        None => if prepared.records@.len() > 0 {
            Some(prepared.records@[0].sequence)
        } else {
            None
        },
    }
}

/// Whether records are replayed at all.
pub open spec fn replays(prepared: PreparedJournalRecovery, replay: JournalReplay) -> bool {
    replay_start(prepared) is Some && replay.seed is Ok
}

/// How many records are replayed.
pub open spec fn replay_count(prepared: PreparedJournalRecovery, replay: JournalReplay) -> int {
    if replays(prepared, replay) {
        first_refusal(replay.replies@, 0)
    } else {
        0
    }
}

/// The session after the journal was replayed.
pub open spec fn after_replay(
    session: SessionView,
    prepared: PreparedJournalRecovery,
    replay: JournalReplay,
) -> SessionView {
    if replays(prepared, replay) {
        replayed_session(
            SessionView { controller: Some(replay.seed->Ok_0), ..session },
            replay.replies@,
            replay_count(prepared, replay),
        )
    } else {
        session
    }
}

/// A note about recovery as such.
pub open spec fn replay_note(message: Seq<char>) -> JournalNote {
    JournalNote { kind: ProjectJournalDiagnosticKind::Recovery, message, path: None }
}

/// The notes about the journal after it was replayed.
pub open spec fn replay_notes(prepared: PreparedJournalRecovery, replay: JournalReplay) -> Seq<
    JournalNote,
> {
    let told = notes(prepared.diagnostics@);
    if replay_start(prepared) is None {
        told
    } else {
        match replay.seed {
            Err(message) => told.push(
                replay_note(
                    "seeding project journal replay failed: project controller: "@ + message@,
                ),
            ),
            Ok(_) => {
                let k = first_refusal(replay.replies@, 0);
                if k < replay.replies@.len() {
                    told.push(
                        replay_note(
                            "replaying project journal record "@ + decimal(
                                prepared.records@[k].sequence as nat,
                            ) + " failed: project controller: "@ + replay.replies@[k]->Err_0@,
                        ),
                    )
                } else {
                    told
                }
            },
        }
    }
}

/// How the replay of the journal is shown.
pub open spec fn replay_state(
    prepared: PreparedJournalRecovery,
    replay: JournalReplay,
    checkpoint: ProjectJournalCheckpoint,
) -> ProjectJournalReplayState {
    let count = replay_count(prepared, replay);
    let clean = replay_notes(prepared, replay).len() == 0;
    if !prepared.requested {
        ProjectJournalReplayState::NotRequested
    } else if count == 0 && clean {
        ProjectJournalReplayState::Current {
            revision: checkpoint.project_revision,
            through_sequence: checkpoint.through_sequence,
        }
    } else if count == prepared.records@.len() && clean {
        ProjectJournalReplayState::Replayed {
            from_revision: prepared.from_revision,
            through_revision: checkpoint.project_revision,
            through_sequence: checkpoint.through_sequence,
            records: count as usize,
        }
    } else {
        ProjectJournalReplayState::Partial {
            from_revision: prepared.from_revision,
            through_revision: checkpoint.project_revision,
            through_sequence: checkpoint.through_sequence,
            records: count as usize,
        }
    }
}

/// The session after a document was installed and its journal replayed.
pub open spec fn loaded_session(
    session: SessionView,
    controller: ProjectController,
    analysis: Option<AnalysisHandle>,
    prepared: PreparedJournalRecovery,
    replay: JournalReplay,
) -> SessionView {
    after_replay(installed(session, controller, analysis), prepared, replay)
}

/// A session whose report to the user is now `texts`.
pub open spec fn reported(session: SessionView, texts: Seq<Seq<char>>) -> SessionView {
    if session.diagnostics != texts {
        logged(
            SessionView { diagnostics: texts, ..session },
            ProjectSessionEvent::DiagnosticsChanged,
        )
    } else {
        session
    }
}

/// The revisions of a document after its journal was replayed.
pub open spec fn loaded_revisions(
    controller: ProjectController,
    prepared: PreparedJournalRecovery,
    replay: JournalReplay,
) -> ProjectRevisions {
    let k = replay_count(prepared, replay);
    if k > 0 {
        replay.replies@[k - 1]->Ok_0.update.snapshot.revisions
    } else {
        controller.snapshot.revisions
    }
}

/// Whether the replies to a replay are those to its records, up to the first that
/// was refused.
pub open spec fn answers(prepared: PreparedJournalRecovery, replay: JournalReplay) -> bool {
    replays(prepared, replay) ==> {
        ||| replay.replies@.len() == prepared.records@.len()
        ||| 0 < replay.replies@.len() < prepared.records@.len() && replay.replies@.last() is Err
    }
}

/// The lifecycle after a document was opened.
pub open spec fn is_opened(
    before: LifecycleView,
    completion: ProjectOpenCompletion,
    document: LoadedDocument,
    replay: JournalReplay,
    session: SessionView,
    after: LifecycleView,
) -> bool {
    let opened = document.opened;
    let told = replay_notes(document.journal, replay);
    let checkpoint = session.controller->0.checkpoint;
    &&& after.files == Some(completion.files)
    &&& after.manifest_path == Some(opened.manifest_path)
    &&& after.origin == Some(completion.origin)
    &&& after.preserved == opened.preserved
    &&& after.workspace == opened.workspace
    &&& after.workspace_revision == 0
    &&& after.saved_workspace_revision == 0
    &&& after.diagnostics.project_io == opened.project_io
    &&& after.diagnostics.media == opened.media
    &&& after.diagnostics.unresolved_assets == opened.unresolved_assets
    &&& after.diagnostics.relink_proposals == opened.relink_proposals
    &&& after.diagnostics.recovery_store == opened.recovery.diagnostics@
    &&& after.diagnostics.stale_workspace_targets@ == if opened.workspace is Some {
        replay.stale_workspace_targets@
    } else {
        Seq::<String>::empty()
    }
    &&& notes(after.diagnostics.journal) == told
    &&& after.recovery == opened.recovery
    &&& after.journal.discovered_segments == opened.recovery.journals@
    &&& after.journal.discovered_candidates == opened.recovery.journal_candidates@
    &&& after.journal.checkpoint == Some(checkpoint)
    &&& after.journal.replayed_records == replay_count(document.journal, replay)
    &&& after.journal.replay == replay_state(document.journal, replay, checkpoint)
    &&& after.journal.last_persistence is None
    &&& notes(after.journal.diagnostics) == told
    &&& after.document_epoch == next_generation(before.document_epoch)
    &&& after.operation_sequence == before.operation_sequence
    &&& after.pending_open is None
    &&& after.latest_primary_save is None
}

/// What finishing an open comes to.
pub open spec fn open_outcome(
    before: LifecycleView,
    session: SessionView,
    completion: ProjectOpenCompletion,
    replay: JournalReplay,
    analysis: Option<AnalysisHandle>,
    outcome: Result<ProjectOpenOutcome, ProjectLifecycleError>,
    after: LifecycleView,
    session_after: SessionView,
) -> bool {
    let settled = LifecycleView { pending_open: None, ..before };
    if before.pending_open is None || before.pending_open->0.token != completion.token {
        &&& outcome == Err::<ProjectOpenOutcome, ProjectLifecycleError>(
            ProjectLifecycleError::StaleOpenCompletion,
        )
        &&& after == before
        &&& session_after == session
    } else {
        match completion.loaded {
            Err(message) => {
                &&& outcome == Err::<ProjectOpenOutcome, ProjectLifecycleError>(
                    ProjectLifecycleError::Repository(message),
                )
                &&& after == settled
                &&& session_after == session
            },
            Ok(document) => match document.opened.project {
                LoadedProject::Rejected(message) => {
                    &&& outcome == Err::<ProjectOpenOutcome, ProjectLifecycleError>(
                        ProjectLifecycleError::LiveProject(message),
                    )
                    &&& after == settled
                    &&& session_after == session
                },
                LoadedProject::Live(Err(message)) => {
                    &&& outcome == Err::<ProjectOpenOutcome, ProjectLifecycleError>(
                        ProjectLifecycleError::Session(ProjectSessionError::Controller(message)),
                    )
                    &&& after == settled
                    &&& session_after == uninterpreted(session)
                },
                LoadedProject::Live(Ok(controller)) => {
                    let live = loaded_session(
                        session,
                        controller,
                        analysis,
                        document.journal,
                        replay,
                    );
                    &&& outcome == Ok::<ProjectOpenOutcome, ProjectLifecycleError>(
                        ProjectOpenOutcome {
                            revisions: loaded_revisions(controller, document.journal, replay),
                            origin: completion.origin,
                            manifest_path: document.opened.manifest_path,
                            recovery_available: document.opened.recovery.checkpoints.len(),
                        },
                    )
                    &&& is_opened(before, completion, document, replay, live, after)
                    &&& session_after == reported(live, summary_texts(after.diagnostics))
                },
            },
        }
    }
}

// ----- saving -------------------------------------------------------------

/// A save to be carried out: exactly what was captured, whatever is edited later.
#[derive(Debug, PartialEq, Eq)]
pub struct ProjectSaveRequest {
    pub token: u64,
    pub document_epoch: u64,
    pub files: ProjectFiles,
    pub kind: SaveKind,
    pub snapshot: LiveProjectSnapshot,
    pub workspace: Option<Arc<WorkspaceDocument>>,
    pub workspace_revision: u64,
    pub preserved: Arc<PreservedProjectData>,
    pub checkpoint: ProjectJournalCheckpoint,
    pub delta: Option<Arc<ProjectJournalDelta>>,
}

/// What a save came to.
#[derive(Debug, PartialEq, Eq)]
pub struct ProjectSaveCompletion {
    pub token: u64,
    pub document_epoch: u64,
    pub files: ProjectFiles,
    pub kind: SaveKind,
    pub workspace_revision: u64,
    pub delta: Option<Arc<ProjectJournalDelta>>,
    pub journal: ProjectJournalPersistenceState,
    pub result: Result<SaveResult, String>,
}

/// What a save came to for the document.
#[derive(Debug, PartialEq, Eq)]
pub struct ProjectSaveOutcome {
    pub result: SaveResult,
    pub project_marked_saved: bool,
    pub workspace_marked_saved: bool,
    pub document_clean: bool,
    pub journal: ProjectJournalPersistenceState,
}

/// A request to save what is there now.
pub open spec fn captured(
    document: LifecycleView,
    session: SessionView,
    files: ProjectFiles,
    token: u64,
    kind: SaveKind,
) -> Result<ProjectSaveRequest, ProjectLifecycleError> {
    match (session.published.project, session.controller) {
        (Some(snapshot), Some(controller)) => Ok(
            ProjectSaveRequest {
                token,
                document_epoch: document.document_epoch,
                files,
                kind,
                snapshot,
                workspace: document.workspace,
                workspace_revision: document.workspace_revision,
                preserved: document.preserved,
                checkpoint: controller.checkpoint,
                delta: controller.pending,
            },
        ),
        _ => Err(ProjectLifecycleError::Session(ProjectSessionError::NoProject)),
    }
}

/// The name of the segment of pending records.
pub open spec fn delta_name(delta: ProjectJournalDelta) -> Seq<char> {
    segment_name(
        "commands"@,
        delta.checkpoint.project_revision,
        delta.resulting_revision,
        if delta.records@.len() > 0 {
            delta.records@[0].sequence
        } else {
            0
        },
        delta.through_sequence,
    )
}

/// The name of the segment of pending records.
pub fn journal_segment_name(delta: &ProjectJournalDelta) -> (r: String)
    ensures
        r@ == delta_name(*delta),
{
    let first: u64 = if delta.records.len() > 0 {
        delta.records[0].sequence
    } else {
        0
    };
    write_segment_name(
        "commands",
        delta.checkpoint.project_revision,
        delta.resulting_revision,
        first,
        delta.through_sequence,
    )
}

/// What became of pending records that were not written.
pub open spec fn unwritten(request: ProjectSaveRequest) -> ProjectJournalPersistenceState {
    match request.delta {
        None => ProjectJournalPersistenceState::NoPending { checkpoint: request.checkpoint },
        Some(delta) => ProjectJournalPersistenceState::NotWritten {
            checkpoint: delta.checkpoint,
            through_sequence: delta.through_sequence,
            resulting_revision: delta.resulting_revision,
        },
    }
}

/// Pending records that could not be made durable.
pub open spec fn is_failure(
    state: ProjectJournalPersistenceState,
    delta: ProjectJournalDelta,
    message: Seq<char>,
) -> bool {
    &&& state matches ProjectJournalPersistenceState::Failed {
        checkpoint,
        through_sequence,
        resulting_revision,
        message: text,
    }
    &&& checkpoint == delta.checkpoint
    &&& through_sequence == delta.through_sequence
    &&& resulting_revision == delta.resulting_revision
    &&& text@ == message
}

/// How compacting is shown.
pub open spec fn compaction_state(
    compaction: Result<JournalCompactionResult, String>,
) -> ProjectJournalCompactionState {
    match compaction {
        Ok(result) => ProjectJournalCompactionState {
            compacted_path: result.compacted_path,
            active_segments: result.active_segments.len(),
            frames_preserved: result.frames_preserved,
            skipped_reason: result.skipped_reason,
            error: None,
        },
        Err(message) => ProjectJournalCompactionState {
            compacted_path: None,
            active_segments: 0,
            frames_preserved: 0,
            skipped_reason: None,
            error: Some(message),
        },
    }
}

/// A journal segment that was to be written, and the compaction after it.
#[derive(Debug, PartialEq, Eq)]
pub struct SegmentWrite {
    pub path: PackagePath,
    pub compaction: Result<JournalCompactionResult, String>,
}

/// What became of pending records that were to be written. A segment is written
/// only after the checkpoint it extends.
pub open spec fn is_written(
    request: ProjectSaveRequest,
    encoded: Result<(), String>,
    saved: bool,
    written: Result<SegmentWrite, String>,
    state: ProjectJournalPersistenceState,
) -> bool {
    match request.delta {
        None => state == (ProjectJournalPersistenceState::NoPending {
            checkpoint: request.checkpoint,
        }),
        Some(delta) => match encoded {
            Err(message) => is_failure(
                state,
                *delta,
                "encoding project journal failed: "@ + message@,
            ),
            Ok(_) => if !saved {
                is_failure(
                    state,
                    *delta,
                    "recovery checkpoint failed before its journal could be persisted"@,
                )
            } else {
                match written {
                    Err(message) => is_failure(
                        state,
                        *delta,
                        "persisting project journal failed: "@ + message@,
                    ),
                    Ok(write) => state == (ProjectJournalPersistenceState::Persisted {
                        prior_checkpoint: delta.checkpoint,
                        checkpoint: ProjectJournalCheckpoint {
                            through_sequence: delta.through_sequence,
                            project_revision: delta.resulting_revision,
                        },
                        path: write.path,
                        compaction: compaction_state(write.compaction),
                    }),
                }
            },
        },
    }
}

fn failed(delta: &ProjectJournalDelta, message: String) -> (r: ProjectJournalPersistenceState)
    ensures
        is_failure(r, *delta, message@),
{
    ProjectJournalPersistenceState::Failed {
        checkpoint: delta.checkpoint,
        through_sequence: delta.through_sequence,
        resulting_revision: delta.resulting_revision,
        message,
    }
}

impl ProjectSaveRequest {
    /// The revision that is saved.
    pub fn aggregate_revision(&self) -> (r: u64)
        ensures
            r == self.snapshot.revisions.aggregate,
    {
        self.snapshot.revisions.aggregate
    }

    /// How far the journal was durable when the save was captured.
    pub fn journal_checkpoint(&self) -> (r: ProjectJournalCheckpoint)
        ensures
            r == self.checkpoint,
    {
        self.checkpoint
    }

    /// The pending records that were captured.
    pub fn journal_delta(&self) -> (r: Option<&ProjectJournalDelta>)
        ensures
            match self.delta {
                Some(delta) => r matches Some(found) && *found == *delta,
                None => r is None,
            },
    {
        match &self.delta {
            Some(delta) => Some(&**delta),
            None => None,
        }
    }

    /// The completion of a save without its journal. Pending records stay pending.
    pub fn persist(self, result: Result<SaveResult, String>) -> (r: ProjectSaveCompletion)
        ensures
            r == (ProjectSaveCompletion {
                token: self.token,
                document_epoch: self.document_epoch,
                files: self.files,
                kind: self.kind,
                workspace_revision: self.workspace_revision,
                delta: self.delta,
                journal: unwritten(self),
                result,
            }),
    {
        let journal = match &self.delta {
            None => ProjectJournalPersistenceState::NoPending { checkpoint: self.checkpoint },
            Some(delta) => ProjectJournalPersistenceState::NotWritten {
                checkpoint: delta.checkpoint,
                through_sequence: delta.through_sequence,
                resulting_revision: delta.resulting_revision,
            },
        };
        ProjectSaveCompletion {
            token: self.token,
            document_epoch: self.document_epoch,
            files: self.files,
            kind: self.kind,
            workspace_revision: self.workspace_revision,
            delta: self.delta,
            journal,
            result,
        }
    }

    /// The completion of a save with its journal. `encoded` says whether the
    /// pending records could be encoded, `written` what writing their segment came
    /// to, which is tried only after the save.
    pub fn persist_with_journal(
        self,
        encoded: Result<(), String>,
        result: Result<SaveResult, String>,
        written: Result<SegmentWrite, String>,
    ) -> (r: ProjectSaveCompletion)
        ensures
            r.token == self.token,
            r.document_epoch == self.document_epoch,
            r.files == self.files,
            r.kind == self.kind,
            r.workspace_revision == self.workspace_revision,
            r.delta == self.delta,
            r.result == result,
            is_written(self, encoded, result is Ok, written, r.journal),
    {
        let saved = result.is_ok();
        let journal = match &self.delta {
            None => ProjectJournalPersistenceState::NoPending { checkpoint: self.checkpoint },
            Some(delta) => match encoded {
                Err(message) => {
                    let mut text = owned("encoding project journal failed: ");
                    text.append(message.as_str());
                    failed(delta, text)
                },
                Ok(()) => {
                    if !saved {
                        failed(
                            delta,
                            owned(
                                "recovery checkpoint failed before its journal could be persisted",
                            ),
                        )
                    } else {
                        match written {
                            Err(message) => {
                                let mut text = owned("persisting project journal failed: ");
                                text.append(message.as_str());
                                failed(delta, text)
                            },
                            Ok(write) => ProjectJournalPersistenceState::Persisted {
                                prior_checkpoint: delta.checkpoint,
                                checkpoint: ProjectJournalCheckpoint {
                                    through_sequence: delta.through_sequence,
                                    project_revision: delta.resulting_revision,
                                },
                                path: write.path,
                                compaction: match write.compaction {
                                    Ok(result) => ProjectJournalCompactionState {
                                        active_segments: result.active_segments.len(),
                                        compacted_path: result.compacted_path,
                                        frames_preserved: result.frames_preserved,
                                        skipped_reason: result.skipped_reason,
                                        error: None,
                                    },
                                    Err(message) => ProjectJournalCompactionState {
                                        compacted_path: None,
                                        active_segments: 0,
                                        frames_preserved: 0,
                                        skipped_reason: None,
                                        error: Some(message),
                                    },
                                },
                            },
                        }
                    }
                },
            },
        };
        ProjectSaveCompletion {
            token: self.token,
            document_epoch: self.document_epoch,
            files: self.files,
            kind: self.kind,
            workspace_revision: self.workspace_revision,
            delta: self.delta,
            journal,
            result,
        }
    }
}

/// The note about what became of pending records.
pub open spec fn persistence_note(state: ProjectJournalPersistenceState) -> Option<JournalNote> {
    match state {
        ProjectJournalPersistenceState::NotWritten { .. } => Some(
            JournalNote {
                kind: ProjectJournalDiagnosticKind::Persistence,
                message:
                    "project checkpoint is durable, but pending command provenance was not written to the journal"@,
                path: None,
            },
        ),
        ProjectJournalPersistenceState::Failed { message, .. } => Some(
            JournalNote {
                kind: ProjectJournalDiagnosticKind::Persistence,
                message: message@,
                path: None,
            },
        ),
        ProjectJournalPersistenceState::DurableSuperseded { path, .. } => Some(
            JournalNote {
                kind: ProjectJournalDiagnosticKind::Superseded,
                message:
                    "an older journal segment completed after a newer durable cursor; it was retained but did not move the cursor backward"@,
                path: Some(path.directory@ + "/"@ + path.leaf@),
            },
        ),
        ProjectJournalPersistenceState::Persisted { compaction, .. } => match compaction.error {
            Some(error) => Some(
                JournalNote {
                    kind: ProjectJournalDiagnosticKind::Persistence,
                    message: "journal segment is durable, but compaction failed: "@ + error@,
                    path: None,
                },
            ),
            None => None,
        },
        ProjectJournalPersistenceState::NoPending { .. } => None,
    }
}

/// An optional note as a list.
pub open spec fn as_list(note: Option<JournalNote>) -> Seq<JournalNote> {
    match note {
        Some(note) => seq![note],
        None => Seq::empty(),
    }
}

fn persistence_diagnostic(state: &ProjectJournalPersistenceState) -> (r: Option<
    ProjectJournalDiagnostic,
>)
    ensures
        match r {
            Some(diagnostic) => persistence_note(*state) == Some(diagnostic@),
            None => persistence_note(*state) is None,
        },
{
    match state {
        ProjectJournalPersistenceState::NotWritten { .. } => Some(
            ProjectJournalDiagnostic {
                kind: ProjectJournalDiagnosticKind::Persistence,
                message: owned(
                    "project checkpoint is durable, but pending command provenance was not written to the journal",
                ),
                path: None,
            },
        ),
        ProjectJournalPersistenceState::Failed { message, .. } => Some(
            ProjectJournalDiagnostic {
                kind: ProjectJournalDiagnosticKind::Persistence,
                message: message.clone(),
                path: None,
            },
        ),
        ProjectJournalPersistenceState::DurableSuperseded { path, .. } => {
            let mut text = path.directory.clone();
            text.append("/");
            text.append(path.leaf.as_str());
            Some(
                ProjectJournalDiagnostic {
                    kind: ProjectJournalDiagnosticKind::Superseded,
                    message: owned(
                        "an older journal segment completed after a newer durable cursor; it was retained but did not move the cursor backward",
                    ),
                    path: Some(text),
                },
            )
        },
        ProjectJournalPersistenceState::Persisted { compaction, .. } => match &compaction.error {
            Some(error) => {
                let mut text = owned("journal segment is durable, but compaction failed: ");
                text.append(error.as_str());
                Some(
                    ProjectJournalDiagnostic {
                        kind: ProjectJournalDiagnosticKind::Persistence,
                        message: text,
                        path: None,
                    },
                )
            },
            None => None,
        },
        ProjectJournalPersistenceState::NoPending { .. } => None,
    }
}

/// The checkpoint of a session, where it has a project.
pub open spec fn session_checkpoint(session: SessionView) -> Option<ProjectJournalCheckpoint> {
    match session.controller {
        Some(controller) => Some(controller.checkpoint),
        None => None,
    }
}

/// The lifecycle after the state of the journal was brought up to date.
pub open spec fn is_journal_update(
    before: LifecycleView,
    session: SessionView,
    state: ProjectJournalPersistenceState,
    after: LifecycleView,
) -> bool {
    let told = as_list(persistence_note(state));
    &&& after == (LifecycleView {
        diagnostics: DiagnosticsView {
            journal: after.diagnostics.journal,
            ..before.diagnostics
        },
        journal: JournalStateView {
            discovered_segments: before.recovery.journals@,
            discovered_candidates: before.recovery.journal_candidates@,
            checkpoint: session_checkpoint(session),
            last_persistence: Some(state),
            diagnostics: after.journal.diagnostics,
            ..before.journal
        },
        ..before
    })
    &&& notes(after.diagnostics.journal) == told
    &&& notes(after.journal.diagnostics) == told
}

/// What becomes of a session and of the state of the journal when written records
/// are acknowledged.
pub open spec fn acknowledgement(
    session: SessionView,
    journal: ProjectJournalPersistenceState,
    delta: Option<Arc<ProjectJournalDelta>>,
    acknowledged: Result<ProjectController, String>,
    state: ProjectJournalPersistenceState,
    after: SessionView,
) -> bool {
    match (journal, delta) {
        (
            ProjectJournalPersistenceState::Persisted { prior_checkpoint, checkpoint, path, .. },
            Some(_),
        ) => match acknowledged {
            Ok(controller) => {
                &&& after == (SessionView { controller: Some(controller), ..session })
                &&& state == journal
            },
            Err(message) => {
                let current = session.controller->0.checkpoint;
                &&& after == session
                &&& if current != prior_checkpoint {
                    state == (ProjectJournalPersistenceState::DurableSuperseded {
                        durable_through_sequence: checkpoint.through_sequence,
                        durable_revision: checkpoint.project_revision,
                        current_checkpoint: current,
                        path,
                    })
                } else {
                    &&& state matches ProjectJournalPersistenceState::Failed {
                        checkpoint: kept,
                        through_sequence,
                        resulting_revision,
                        message: text,
                    }
                    &&& kept == prior_checkpoint
                    &&& through_sequence == checkpoint.through_sequence
                    &&& resulting_revision == checkpoint.project_revision
                    &&& text@ == "acknowledging durable project journal failed: project controller: "@
                        + message@
                }
            },
        },
        _ => after == session && state == journal,
    }
}

/// Whether written records have to be acknowledged.
pub open spec fn acknowledges(
    journal: ProjectJournalPersistenceState,
    delta: Option<Arc<ProjectJournalDelta>>,
) -> bool {
    journal is Persisted && delta is Some
}

/// The lifecycle after the package was looked at again.
pub open spec fn rescanned(
    before: LifecycleView,
    recovery: Arc<RecoveryDiscovery>,
    result: SaveResult,
) -> LifecycleView {
    LifecycleView {
        diagnostics: DiagnosticsView {
            recovery_store: recovery.diagnostics@ + result.maintenance_diagnostics@,
            ..before.diagnostics
        },
        recovery,
        ..before
    }
}

/// The lifecycle of a document that is now stored where a save put it.
pub open spec fn relocated(
    before: LifecycleView,
    completion: ProjectSaveCompletion,
    recovery: Arc<RecoveryDiscovery>,
    result: SaveResult,
) -> LifecycleView {
    LifecycleView {
        files: Some(completion.files),
        manifest_path: Some(result.manifest_path),
        origin: Some(ProjectDocumentOrigin::Primary),
        latest_primary_save: None,
        ..rescanned(before, recovery, result)
    }
}

/// A session after a save was recorded.
pub open spec fn marked(session: SessionView, mark: SavedMark) -> SessionView {
    let adopted = SessionView { controller: Some(mark.controller), ..session };
    if mark.marked {
        republished(adopted, mark.controller.snapshot, adopted.published.lifecycle, None)
    } else {
        adopted
    }
}

/// A document whose layout is saved if it did not change since.
pub open spec fn layout_saved(before: LifecycleView, completion: ProjectSaveCompletion) ->
    LifecycleView {
    if completion.workspace_revision == before.workspace_revision {
        LifecycleView { saved_workspace_revision: completion.workspace_revision, ..before }
    } else {
        before
    }
}

/// Whether a save moved the document to another place.
pub open spec fn moves(before: LifecycleView, result: SaveResult) -> bool {
    match before.manifest_path {
        Some(path) => path@ != result.manifest_path@,
        None => true,
    }
}

/// A document whose operations start anew if it moved: what was begun for the old
/// place must not be taken for the new one.
pub open spec fn epoch_after(before: LifecycleView, moved: bool) -> LifecycleView {
    if moved {
        LifecycleView { document_epoch: next_generation(before.document_epoch), ..before }
    } else {
        before
    }
}

/// The lifecycle after an autosave.
pub open spec fn autosave_outcome(
    before: LifecycleView,
    session: SessionView,
    recovery: Arc<RecoveryDiscovery>,
    result: SaveResult,
    state: ProjectJournalPersistenceState,
    outcome: ProjectSaveOutcome,
    after: LifecycleView,
    session_after: SessionView,
) -> bool {
    &&& is_journal_update(rescanned(before, recovery, result), session, state, after)
    &&& session_after == reported(session, summary_texts(after.diagnostics))
    &&& outcome == (ProjectSaveOutcome {
        result,
        project_marked_saved: false,
        workspace_marked_saved: false,
        document_clean: !document_dirty(after, session_after),
        journal: state,
    })
}

/// The lifecycle after a save of the project itself.
pub open spec fn primary_outcome(
    before: LifecycleView,
    session: SessionView,
    completion: ProjectSaveCompletion,
    recovery: Arc<RecoveryDiscovery>,
    mark: SavedMark,
    result: SaveResult,
    state: ProjectJournalPersistenceState,
    outcome: ProjectSaveOutcome,
    after: LifecycleView,
    session_after: SessionView,
) -> bool {
    let placed = relocated(before, completion, recovery, result);
    let saved = layout_saved(placed, completion);
    &&& session_after == marked(reported(session, summary_texts(placed.diagnostics)), mark)
    &&& is_journal_update(epoch_after(saved, moves(before, result)), session_after, state, after)
    &&& outcome == (ProjectSaveOutcome {
        result,
        project_marked_saved: mark.marked,
        workspace_marked_saved: completion.workspace_revision == before.workspace_revision,
        document_clean: !document_dirty(after, session_after),
        journal: state,
    })
}

/// What the work of a save brought along: what the controller replied when
/// written records were acknowledged and the save recorded, and what the package
/// holds now.
#[derive(Debug, PartialEq, Eq)]
pub struct SaveReplies {
    pub acknowledged: Result<ProjectController, String>,
    pub recovery: Arc<RecoveryDiscovery>,
    pub mark: Result<SavedMark, String>,
}

/// The controller was asked to record the save of the revision that was written.
pub open spec fn marks_what_was_written(
    completion: ProjectSaveCompletion,
    replies: SaveReplies,
) -> bool {
    (completion.kind == SaveKind::Primary && completion.result is Ok && replies.mark is Ok)
        ==> replies.mark->Ok_0.revision == completion.result->Ok_0.revision_guard.revision
}

/// What finishing a save comes to.
pub open spec fn save_outcome(
    before: LifecycleView,
    session: SessionView,
    completion: ProjectSaveCompletion,
    replies: SaveReplies,
    outcome: Result<ProjectSaveOutcome, ProjectLifecycleError>,
    after: LifecycleView,
    session_after: SessionView,
) -> bool {
    if completion.document_epoch != before.document_epoch {
        &&& outcome == Err::<ProjectSaveOutcome, ProjectLifecycleError>(
            ProjectLifecycleError::DocumentChangedDuringOperation,
        )
        &&& after == before
        &&& session_after == session
    } else if completion.kind == SaveKind::Primary && before.latest_primary_save != Some(
        completion.token,
    ) {
        &&& outcome == Err::<ProjectSaveOutcome, ProjectLifecycleError>(
            ProjectLifecycleError::SupersededSaveCompletion,
        )
        &&& after == before
        &&& session_after == session
    } else {
        match completion.result {
            Err(message) => {
                &&& outcome == Err::<ProjectSaveOutcome, ProjectLifecycleError>(
                    ProjectLifecycleError::Repository(message),
                )
                &&& after == before
                &&& session_after == session
            },
            Ok(result) => if acknowledges(
                completion.journal,
                completion.delta,
            ) && session.controller is None {
                &&& outcome == Err::<ProjectSaveOutcome, ProjectLifecycleError>(
                    ProjectLifecycleError::Session(ProjectSessionError::NoProject),
                )
                &&& after == before
                &&& session_after == session
            } else {
                exists|state: ProjectJournalPersistenceState, current: SessionView| #[trigger]
                    acknowledgement(
                        session,
                        completion.journal,
                        completion.delta,
                        replies.acknowledged,
                        state,
                        current,
                    ) && match completion.kind {
                        SaveKind::Autosave { .. } => outcome matches Ok(saved) && autosave_outcome(
                            before,
                            current,
                            replies.recovery,
                            result,
                            state,
                            saved,
                            after,
                            session_after,
                        ),
                        SaveKind::Primary => primary_end(
                            before,
                            current,
                            completion,
                            replies,
                            result,
                            state,
                            outcome,
                            after,
                            session_after,
                        ),
                    }
            },
        }
    }
}

/// What the end of a save of the project itself comes to.
pub open spec fn primary_end(
    before: LifecycleView,
    session: SessionView,
    completion: ProjectSaveCompletion,
    replies: SaveReplies,
    result: SaveResult,
    state: ProjectJournalPersistenceState,
    outcome: Result<ProjectSaveOutcome, ProjectLifecycleError>,
    after: LifecycleView,
    session_after: SessionView,
) -> bool {
    let placed = relocated(before, completion, replies.recovery, result);
    match (session.controller, replies.mark) {
        (Some(_), Ok(mark)) => outcome matches Ok(saved) && primary_outcome(
            before,
            session,
            completion,
            replies.recovery,
            mark,
            result,
            state,
            saved,
            after,
            session_after,
        ),
        (None, _) => {
            &&& outcome == Err::<ProjectSaveOutcome, ProjectLifecycleError>(
                ProjectLifecycleError::Session(ProjectSessionError::NoProject),
            )
            &&& after == placed
            &&& session_after == reported(session, summary_texts(placed.diagnostics))
        },
        (Some(_), Err(message)) => {
            &&& outcome == Err::<ProjectSaveOutcome, ProjectLifecycleError>(
                ProjectLifecycleError::Session(ProjectSessionError::Controller(message)),
            )
            &&& after == placed
            &&& session_after == reported(session, summary_texts(placed.diagnostics))
        },
    }
}

/// An export of what is heard.
#[derive(Clone, Copy, Debug, PartialEq, Eq, Structural)]
pub struct ProjectExportRequest {
    revision: u64,
}

impl ProjectExportRequest {
    /// The revision that is exported.
    pub closed spec fn pinned(self) -> u64 {
        self.revision
    }

    /// The revision that is exported.
    pub fn aggregate_revision(&self) -> (r: u64)
        ensures
            r == self.pinned(),
    {
        self.revision
    }

    /// The report of an export, which names the revision that was captured, or why
    /// writing it failed.
    pub fn export<R>(self, written: Result<R, String>) -> (r: Result<
        RevisionPinnedExport<R>,
        ProjectLifecycleError,
    >)
        ensures
            r == match written {
                Ok(report) => Ok::<RevisionPinnedExport<R>, ProjectLifecycleError>(
                    RevisionPinnedExport { aggregate_revision: self.pinned(), report },
                ),
                Err(message) => Err(ProjectLifecycleError::Export(message)),
            },
    {
        match written {
            Ok(report) => Ok(
                RevisionPinnedExport { aggregate_revision: self.revision, report },
            ),
            Err(message) => Err(ProjectLifecycleError::Export(message)),
        }
    }
}

/// What was written for one revision.
#[derive(Debug, PartialEq, Eq)]
pub struct RevisionPinnedExport<R> {
    pub aggregate_revision: u64,
    pub report: R,
}

impl ProjectDocumentLifecycle {
    /// The lifecycle before anything was opened.
    pub fn new() -> (r: ProjectDocumentLifecycle)
        ensures
            is_fresh(r@),
    {
        let texts: Arc<Vec<String>> = Arc::new(Vec::new());
        let diagnostics = ProjectDocumentDiagnostics {
            project_io: texts.clone(),
            media: texts.clone(),
            unresolved_assets: Arc::new(Vec::new()),
            relink_proposals: texts.clone(),
            recovery_store: Vec::new(),
            stale_workspace_targets: texts,
            journal: Vec::new(),
        };
        assert(summary_texts(diagnostics@) =~= Seq::<Seq<char>>::empty());
        let nothing = String::new();
        assert(nothing@ =~= Seq::<char>::empty());
        ProjectDocumentLifecycle {
            files: None,
            manifest_path: None,
            origin: None,
            preserved: Arc::new(PreservedProjectData { data: nothing }),
            workspace: None,
            workspace_revision: 0,
            saved_workspace_revision: 0,
            diagnostics,
            recovery: Arc::new(RecoveryDiscovery::default()),
            journal: ProjectJournalRecoveryState {
                discovered_segments: Vec::new(),
                discovered_candidates: Vec::new(),
                checkpoint: None,
                replayed_records: 0,
                replay: ProjectJournalReplayState::NotRequested,
                last_persistence: None,
                diagnostics: Vec::new(),
            },
            document_epoch: 0,
            operation_sequence: 0,
            pending_open: None,
            latest_primary_save: None,
        }
    }

    /// Where the document is stored.
    pub fn manifest_path(&self) -> (r: Option<&PackagePath>)
        ensures
            match self@.manifest_path {
                Some(path) => r matches Some(found) && *found == path,
                None => r is None,
            },
    {
        self.manifest_path.as_ref()
    }

    /// Where the document came from.
    pub fn origin(&self) -> (r: Option<&ProjectDocumentOrigin>)
        ensures
            match self@.origin {
                Some(origin) => r matches Some(found) && *found == origin,
                None => r is None,
            },
    {
        self.origin.as_ref()
    }

    /// What the manifest holds beyond what is understood.
    pub fn preserved(&self) -> (r: &PreservedProjectData)
        ensures
            *r == *self@.preserved,
    {
        &self.preserved
    }

    /// The layout of the workspace.
    pub fn workspace(&self) -> (r: Option<&WorkspaceDocument>)
        ensures
            match self@.workspace {
                Some(workspace) => r matches Some(found) && *found == *workspace,
                None => r is None,
            },
    {
        match &self.workspace {
            Some(workspace) => Some(&**workspace),
            None => None,
        }
    }

    /// What is told about the document.
    pub fn diagnostics(&self) -> (r: &ProjectDocumentDiagnostics)
        ensures
            r@ == self@.diagnostics,
    {
        &self.diagnostics
    }

    /// What the package holds for recovery.
    pub fn recovery_options(&self) -> (r: &RecoveryDiscovery)
        ensures
            *r == *self@.recovery,
    {
        &self.recovery
    }

    /// What is known about the journal.
    pub fn journal_recovery_state(&self) -> (r: &ProjectJournalRecoveryState)
        ensures
            r@ == self@.journal,
    {
        &self.journal
    }

    /// Whether something would be lost with the document.
    pub fn is_dirty(&self, session: &ProjectSession) -> (r: Result<bool, ProjectLifecycleError>)
        ensures
            r == Ok::<bool, ProjectLifecycleError>(document_dirty(self@, session@)),
    {
        let project_dirty = match session.project_snapshot() {
            Ok(snapshot) => self.files.is_none() || snapshot.dirty,
            Err(_) => false,
        };
        let recovered = match &self.origin {
            Some(ProjectDocumentOrigin::Recovery(_)) => true,
            _ => false,
        };
        Ok(
            recovered || project_dirty || self.workspace_revision != self.saved_workspace_revision,
        )
    }

    /// Whether the document can be replaced without asking.
    pub fn replacement_disposition(&self, session: &ProjectSession) -> (r: Result<
        ProjectReplacementDisposition,
        ProjectLifecycleError,
    >)
        ensures
            r == Ok::<ProjectReplacementDisposition, ProjectLifecycleError>(
                disposition(self@, session@),
            ),
    {
        match session.project_snapshot() {
            Err(_) => Ok(ProjectReplacementDisposition::Empty),
            Ok(_) => match self.is_dirty(session) {
                Ok(true) => Ok(ProjectReplacementDisposition::Dirty),
                Ok(false) => Ok(ProjectReplacementDisposition::Clean),
                Err(error) => Err(error),
            },
        }
    }

    /// Refuses to replace a document that has something to lose.
    pub fn ensure_replaceable(&self, session: &ProjectSession) -> (r: Result<
        ProjectReplacementDisposition,
        ProjectLifecycleError,
    >)
        ensures
            r == match disposition(self@, session@) {
                ProjectReplacementDisposition::Dirty => Err::<
                    ProjectReplacementDisposition,
                    ProjectLifecycleError,
                >(ProjectLifecycleError::UnsavedChanges),
                other => Ok(other),
            },
    {
        match self.replacement_disposition(session) {
            Err(error) => Err(error),
            Ok(ProjectReplacementDisposition::Dirty) => Err(ProjectLifecycleError::UnsavedChanges),
            Ok(other) => Ok(other),
        }
    }

    /// What is being opened.
    pub fn pending_open_source(&self) -> (r: Option<&PackagePath>)
        ensures
            match self@.pending_open {
                Some(pending) => r matches Some(found) && *found == pending.source,
                None => r is None,
            },
    {
        match &self.pending_open {
            Some(pending) => Some(&pending.source),
            None => None,
        }
    }

    /// Replaces the layout of the workspace; whether anything changed.
    pub fn replace_workspace(&mut self, workspace: Option<Arc<WorkspaceDocument>>) -> (r: bool)
        ensures
            r == !same_layout(old(self)@.workspace, workspace),
            final(self)@ == if r {
                LifecycleView {
                    workspace,
                    workspace_revision: next_number(old(self)@.workspace_revision),
                    ..old(self)@
                }
            } else {
                old(self)@
            },
    {
        let same = match (&self.workspace, &workspace) {
            (Some(left), Some(right)) => same_text(left.data.as_str(), right.data.as_str()),
            (None, None) => true,
            _ => false,
        };
        if same {
            return false;
        }
        self.workspace = workspace;
        self.workspace_revision = following(self.workspace_revision);
        true
    }

    fn next_operation(&mut self) -> (r: u64)
        ensures
            r == next_generation(old(self)@.operation_sequence),
            final(self)@ == (LifecycleView { operation_sequence: r, ..old(self)@ }),
    {
        self.operation_sequence = following(self.operation_sequence);
        if self.operation_sequence == 0 {
            self.operation_sequence = 1;
        }
        self.operation_sequence
    }

    fn advance_document_epoch(&mut self)
        ensures
            final(self)@ == (LifecycleView {
                document_epoch: next_generation(old(self)@.document_epoch),
                ..old(self)@
            }),
    {
        self.document_epoch = following(self.document_epoch);
        if self.document_epoch == 0 {
            self.document_epoch = 1;
        }
    }

    fn begin_open(&mut self, files: ProjectFiles, origin: ProjectDocumentOrigin) -> (r:
        ProjectOpenRequest)
        ensures
            r == (ProjectOpenRequest {
                token: next_generation(old(self)@.operation_sequence),
                files,
                origin,
            }),
            final(self)@ == opening(old(self)@, files, origin),
    {
        let token: u64 = self.next_operation();
        let source = match &origin {
            ProjectDocumentOrigin::Primary => files.manifest.clone(),
            ProjectDocumentOrigin::Recovery(checkpoint) => checkpoint.manifest_path.clone(),
        };
        self.pending_open = Some(PendingProjectOpen { token, source });
        ProjectOpenRequest { token, files, origin }
    }

    /// Begins to open the project itself.
    pub fn begin_open_primary(&mut self, session: &ProjectSession, files: ProjectFiles) -> (r:
        Result<ProjectOpenRequest, ProjectLifecycleError>)
        ensures
            begin_outcome(
                old(self)@,
                session@,
                files,
                ProjectDocumentOrigin::Primary,
                r,
                final(self)@,
            ),
    {
        match self.ensure_replaceable(session) {
            Err(error) => Err(error),
            Ok(_) => Ok(self.begin_open(files, ProjectDocumentOrigin::Primary)),
        }
    }

    /// Begins to open an autosave that the user chose.
    pub fn begin_open_recovery(
        &mut self,
        session: &ProjectSession,
        files: ProjectFiles,
        checkpoint: RecoveryCheckpoint,
    ) -> (r: Result<ProjectOpenRequest, ProjectLifecycleError>)
        ensures
            begin_outcome(
                old(self)@,
                session@,
                files,
                ProjectDocumentOrigin::Recovery(checkpoint),
                r,
                final(self)@,
            ),
    {
        match self.ensure_replaceable(session) {
            Err(error) => Err(error),
            Ok(_) => Ok(self.begin_open(files, ProjectDocumentOrigin::Recovery(checkpoint))),
        }
    }

    /// Begins to open the project itself after the user chose to discard changes.
    pub fn begin_open_primary_discarding_changes(&mut self, files: ProjectFiles) -> (r:
        ProjectOpenRequest)
        ensures
            r == (ProjectOpenRequest {
                token: next_generation(old(self)@.operation_sequence),
                files,
                origin: ProjectDocumentOrigin::Primary,
            }),
            final(self)@ == opening(old(self)@, files, ProjectDocumentOrigin::Primary),
    {
        self.begin_open(files, ProjectDocumentOrigin::Primary)
    }

    /// Begins to open an autosave after the user chose to discard changes.
    pub fn begin_open_recovery_discarding_changes(
        &mut self,
        files: ProjectFiles,
        checkpoint: RecoveryCheckpoint,
    ) -> (r: ProjectOpenRequest)
        ensures
            r == (ProjectOpenRequest {
                token: next_generation(old(self)@.operation_sequence),
                files,
                origin: ProjectDocumentOrigin::Recovery(checkpoint),
            }),
            final(self)@ == opening(
                old(self)@,
                files,
                ProjectDocumentOrigin::Recovery(checkpoint),
            ),
    {
        self.begin_open(files, ProjectDocumentOrigin::Recovery(checkpoint))
    }
}

/// The lifecycle of no document: nothing was opened, found, replayed or said.
pub open spec fn is_fresh(document: LifecycleView) -> bool {
    &&& document.files is None
    &&& document.manifest_path is None
    &&& document.origin is None
    &&& document.preserved.data@ == Seq::<char>::empty()
    &&& document.workspace is None
    &&& document.workspace_revision == 0
    &&& document.saved_workspace_revision == 0
    &&& document.document_epoch == 0
    &&& document.operation_sequence == 0
    &&& document.pending_open is None
    &&& document.latest_primary_save is None
    &&& document.diagnostics.project_io@ == Seq::<String>::empty()
    &&& document.diagnostics.media@ == Seq::<String>::empty()
    &&& document.diagnostics.unresolved_assets@ == Seq::<AssetId>::empty()
    &&& document.diagnostics.relink_proposals@ == Seq::<String>::empty()
    &&& document.diagnostics.recovery_store == Seq::<StoreDiagnostic>::empty()
    &&& document.diagnostics.stale_workspace_targets@ == Seq::<String>::empty()
    &&& document.diagnostics.journal == Seq::<ProjectJournalDiagnostic>::empty()
    &&& document.recovery.primary is None
    &&& document.recovery.checkpoints@ == Seq::<RecoveryCheckpoint>::empty()
    &&& document.recovery.journals@ == Seq::<PackagePath>::empty()
    &&& document.recovery.journal_candidates@ == Seq::<JournalRecoveryCandidate>::empty()
    &&& document.recovery.diagnostics@ == Seq::<StoreDiagnostic>::empty()
    &&& document.journal.discovered_segments == Seq::<PackagePath>::empty()
    &&& document.journal.discovered_candidates == Seq::<JournalRecoveryCandidate>::empty()
    &&& document.journal.checkpoint is None
    &&& document.journal.replayed_records == 0
    &&& document.journal.replay == ProjectJournalReplayState::NotRequested
    &&& document.journal.last_persistence is None
    &&& document.journal.diagnostics == Seq::<ProjectJournalDiagnostic>::empty()
}

/// Whether two layouts are the same.
pub open spec fn same_layout(
    left: Option<Arc<WorkspaceDocument>>,
    right: Option<Arc<WorkspaceDocument>>,
) -> bool {
    match (left, right) {
        (Some(a), Some(b)) => a.data@ == b.data@,
        (None, None) => true,
        _ => false,
    }
}

/// What beginning an open comes to: a document with something to lose stays as it
/// is, and nothing is begun.
pub open spec fn begin_outcome(
    before: LifecycleView,
    session: SessionView,
    files: ProjectFiles,
    origin: ProjectDocumentOrigin,
    outcome: Result<ProjectOpenRequest, ProjectLifecycleError>,
    after: LifecycleView,
) -> bool {
    if disposition(before, session) == ProjectReplacementDisposition::Dirty {
        &&& outcome == Err::<ProjectOpenRequest, ProjectLifecycleError>(
            ProjectLifecycleError::UnsavedChanges,
        )
        &&& after == before
    } else {
        &&& outcome == Ok::<ProjectOpenRequest, ProjectLifecycleError>(
            ProjectOpenRequest {
                token: next_generation(before.operation_sequence),
                files,
                origin,
            },
        )
        &&& after == opening(before, files, origin)
    }
}

// ----- operations ---------------------------------------------------------

/// The records that were replayed, and what is said about the journal.
struct Replayed {
    count: usize,
    revisions: ProjectRevisions,
    diagnostics: Vec<ProjectJournalDiagnostic>,
}

proof fn refusal_starts_later(replies: Seq<Result<ControllerReply, String>>, i: int)
    requires
        0 <= i <= replies.len(),
        forall|k: int| 0 <= k < i ==> (#[trigger] replies[k]) is Ok,
    ensures
        first_refusal(replies, 0) == first_refusal(replies, i),
    decreases i,
{
    if i > 0 {
        refusal_starts_later(replies, i - 1);
        assert(replies[i - 1] is Ok);
    }
}

proof fn replaying_keeps_a_controller(
    session: SessionView,
    replies: Seq<Result<ControllerReply, String>>,
    i: int,
)
    requires
        session.controller is Some,
    ensures
        replayed_session(session, replies, i).controller is Some,
    decreases i,
{
    if i > 0 {
        replaying_keeps_a_controller(session, replies, i - 1);
    }
}

fn replay_diagnostic(message: String) -> (r: ProjectJournalDiagnostic)
    ensures
        r@ == replay_note(message@),
{
    ProjectJournalDiagnostic {
        kind: ProjectJournalDiagnosticKind::Recovery,
        message,
        path: None,
    }
}

fn append_session_error(text: &mut String, error: &ProjectSessionError)
    requires
        *error is Controller,
    ensures
        final(text)@ == old(text)@ + "project controller: "@ + error->Controller_0@,
{
    text.append("project controller: ");
    match error {
        ProjectSessionError::Controller(message) => {
            text.append(message.as_str());
        },
        _ => {},
    }
}

fn copy_diagnostics(list: &Vec<ProjectJournalDiagnostic>) -> (r: Vec<ProjectJournalDiagnostic>)
    ensures
        r@ == list@,
{
    let copy = list.clone();
    assert(copy@ =~= list@);
    copy
}

fn replay_journal(
    session: &mut ProjectSession,
    prepared: &PreparedJournalRecovery,
    replay: &JournalReplay,
    installed_revisions: ProjectRevisions,
) -> (r: Replayed)
    requires
        old(session).wf(),
        old(session)@.controller is Some,
        answers(*prepared, *replay),
    ensures
        final(session).wf(),
        final(session)@ == after_replay(old(session)@, *prepared, *replay),
        final(session)@.controller is Some,
        r.count == replay_count(*prepared, *replay),
        r.count <= replay.replies@.len(),
        r.revisions == if r.count > 0 {
            replay.replies@[r.count - 1]->Ok_0.update.snapshot.revisions
        } else {
            installed_revisions
        },
        notes(r.diagnostics@) == replay_notes(*prepared, *replay),
{
    let mut diagnostics = copy_diagnostics(&prepared.diagnostics);
    let ghost told = notes(diagnostics@);
    let mut revisions = installed_revisions;
    let starts = match prepared.anchor_sequence {
        Some(sequence) => sequence < u64::MAX || prepared.records.len() > 0,
        None => prepared.records.len() > 0,
    };
    if !starts {
        return Replayed { count: 0, revisions, diagnostics };
    }
    let seed = match &replay.seed {
        Ok(controller) => Ok(controller.clone()),
        Err(message) => Err(message.clone()),
    };
    let ghost first = session@;
    match session.begin_journal_replay(seed) {
        Err(error) => {
            let mut text = owned("seeding project journal replay failed: ");
            append_session_error(&mut text, &error);
            proof {
                reveal_strlit("seeding project journal replay failed: ");
                reveal_strlit("project controller: ");
                reveal_strlit("seeding project journal replay failed: project controller: ");
            }
            assert(text@ =~= "seeding project journal replay failed: project controller: "@
                + replay.seed->Err_0@);
            diagnostics.push(replay_diagnostic(text));
            assert(notes(diagnostics@) =~= replay_notes(*prepared, *replay));
            return Replayed { count: 0, revisions, diagnostics };
        },
        Ok(()) => {},
    }
    let ghost seeded = session@;
    let mut i: usize = 0;
    while i < replay.replies.len()
        invariant
            i <= replay.replies.len(),
            session.wf(),
            first.controller is Some,
            replays(*prepared, *replay),
            answers(*prepared, *replay),
            seeded == (SessionView { controller: Some(replay.seed->Ok_0), ..first }),
            session@ == replayed_session(seeded, replay.replies@, i as int),
            session@.controller is Some,
            forall|k: int| 0 <= k < i ==> (#[trigger] replay.replies@[k]) is Ok,
            revisions == if i > 0 {
                replay.replies@[i - 1]->Ok_0.update.snapshot.revisions
            } else {
                installed_revisions
            },
            notes(diagnostics@) == told,
            told == notes(prepared.diagnostics@),
            old(session)@ == first,
        decreases replay.replies.len() - i,
    {
        let reply = match &replay.replies[i] {
            Ok(reply) => Ok(reply.clone()),
            Err(message) => Err(message.clone()),
        };
        match session.replay_record_with_asset_pcm(reply) {
            Ok(receipt) => {
                assert(replay.replies@[i as int] is Ok);
                revisions = receipt.publication.snapshot.revisions;
                i = i + 1;
            },
            Err(error) => {
                proof {
                    refusal_starts_later(replay.replies@, i as int);
                }
                let mut text = owned("replaying project journal record ");
                append_decimal(&mut text, prepared.records[i].sequence);
                text.append(" failed: ");
                append_session_error(&mut text, &error);
                proof {
                    reveal_strlit(" failed: ");
                    reveal_strlit("project controller: ");
                    reveal_strlit(" failed: project controller: ");
                }
                assert(text@ =~= "replaying project journal record "@ + decimal(
                    prepared.records@[i as int].sequence as nat,
                ) + " failed: project controller: "@ + replay.replies@[i as int]->Err_0@);
                diagnostics.push(replay_diagnostic(text));
                assert(notes(diagnostics@) =~= replay_notes(*prepared, *replay));
                return Replayed { count: i, revisions, diagnostics };
            },
        }
    }
    proof {
        refusal_starts_later(replay.replies@, i as int);
    }
    Replayed { count: i, revisions, diagnostics }
}

fn replay_shown(
    prepared: &PreparedJournalRecovery,
    Ghost(replay): Ghost<JournalReplay>,
    count: usize,
    clean: bool,
    checkpoint: ProjectJournalCheckpoint,
) -> (r: ProjectJournalReplayState)
    requires
        count == replay_count(*prepared, replay),
        clean == (replay_notes(*prepared, replay).len() == 0),
    ensures
        r == replay_state(*prepared, replay, checkpoint),
{
    if !prepared.requested {
        ProjectJournalReplayState::NotRequested
    } else if count == 0 && clean {
        ProjectJournalReplayState::Current {
            revision: checkpoint.project_revision,
            through_sequence: checkpoint.through_sequence,
        }
    } else if count == prepared.records.len() && clean {
        ProjectJournalReplayState::Replayed {
            from_revision: prepared.from_revision,
            through_revision: checkpoint.project_revision,
            through_sequence: checkpoint.through_sequence,
            records: count,
        }
    } else {
        ProjectJournalReplayState::Partial {
            from_revision: prepared.from_revision,
            through_revision: checkpoint.project_revision,
            through_sequence: checkpoint.through_sequence,
            records: count,
        }
    }
}

fn acknowledge_written(
    session: &mut ProjectSession,
    journal: ProjectJournalPersistenceState,
    delta: &Option<Arc<ProjectJournalDelta>>,
    acknowledged: Result<ProjectController, String>,
) -> (r: ProjectJournalPersistenceState)
    requires
        old(session).wf(),
        acknowledges(journal, *delta) ==> old(session)@.controller is Some,
    ensures
        final(session).wf(),
        acknowledgement(old(session)@, journal, *delta, acknowledged, r, final(session)@),
{
    match (&journal, delta) {
        (
            ProjectJournalPersistenceState::Persisted {
                prior_checkpoint,
                checkpoint,
                path,
                compaction: _,
            },
            Some(_),
        ) => match session.acknowledge_autosave_journal(acknowledged) {
            Ok(()) => {},
            Err(error) => {
                let current = match session.journal_checkpoint() {
                    Ok(current) => current,
                    Err(_) => *prior_checkpoint,
                };
                if current != *prior_checkpoint {
                    return ProjectJournalPersistenceState::DurableSuperseded {
                        durable_through_sequence: checkpoint.through_sequence,
                        durable_revision: checkpoint.project_revision,
                        current_checkpoint: current,
                        path: path.clone(),
                    };
                }
                let mut message = owned("acknowledging durable project journal failed: ");
                append_session_error(&mut message, &error);
                proof {
                    reveal_strlit("acknowledging durable project journal failed: ");
                    reveal_strlit("project controller: ");
                    reveal_strlit(
                        "acknowledging durable project journal failed: project controller: ",
                    );
                }
                assert(message@
                    =~= "acknowledging durable project journal failed: project controller: "@
                    + acknowledged->Err_0@);
                return ProjectJournalPersistenceState::Failed {
                    checkpoint: *prior_checkpoint,
                    through_sequence: checkpoint.through_sequence,
                    resulting_revision: checkpoint.project_revision,
                    message,
                };
            },
        },
        _ => {},
    }
    journal
}

impl ProjectDocumentLifecycle {
    /// Ends an open. Nothing is replaced unless everything was loaded.
    pub fn finish_open(
        &mut self,
        session: &mut ProjectSession,
        completion: ProjectOpenCompletion,
        replay: JournalReplay,
        analysis: Option<AnalysisHandle>,
    ) -> (r: Result<ProjectOpenOutcome, ProjectLifecycleError>)
        requires
            old(session).wf(),
            completion.loaded matches Ok(document) ==> answers(document.journal, replay),
        ensures
            final(session).wf(),
            open_outcome(
                old(self)@,
                old(session)@,
                completion,
                replay,
                analysis,
                r,
                final(self)@,
                final(session)@,
            ),
    {
        let expected = match &self.pending_open {
            Some(pending) => pending.token == completion.token,
            None => false,
        };
        if !expected {
            return Err(ProjectLifecycleError::StaleOpenCompletion);
        }
        self.pending_open = None;
        let document = match completion.loaded {
            Ok(document) => document,
            Err(message) => {
                return Err(ProjectLifecycleError::Repository(message));
            },
        };
        let opened = document.opened;
        let controller = match opened.project {
            LoadedProject::Rejected(message) => {
                return Err(ProjectLifecycleError::LiveProject(message));
            },
            LoadedProject::Live(controller) => controller,
        };
        let installed_revisions = match session.install(controller, analysis) {
            Ok(revisions) => revisions,
            Err(error) => {
                return Err(ProjectLifecycleError::Session(error));
            },
        };
        let replayed = replay_journal(session, &document.journal, &replay, installed_revisions);
        let checkpoint = match session.journal_checkpoint() {
            Ok(checkpoint) => checkpoint,
            Err(error) => {
                return Err(ProjectLifecycleError::Session(error));
            },
        };
        let shown = replay_shown(
            &document.journal,
            Ghost(replay),
            replayed.count,
            replayed.diagnostics.len() == 0,
            checkpoint,
        );
        let stale: Arc<Vec<String>> = match &opened.workspace {
            Some(_) => replay.stale_workspace_targets,
            None => Arc::new(Vec::new()),
        };
        self.diagnostics = ProjectDocumentDiagnostics {
            project_io: opened.project_io,
            media: opened.media,
            unresolved_assets: opened.unresolved_assets,
            relink_proposals: opened.relink_proposals,
            recovery_store: copy_store_diagnostics(&opened.recovery.diagnostics),
            stale_workspace_targets: stale,
            journal: copy_diagnostics(&replayed.diagnostics),
        };
        session.replace_diagnostics(self.diagnostics.summaries());
        self.files = Some(completion.files);
        self.manifest_path = Some(opened.manifest_path.clone());
        self.origin = Some(completion.origin.clone());
        self.preserved = opened.preserved;
        self.workspace = opened.workspace;
        self.workspace_revision = 0;
        self.saved_workspace_revision = 0;
        self.journal = ProjectJournalRecoveryState {
            discovered_segments: copy_paths(&opened.recovery.journals),
            discovered_candidates: copy_candidates(&opened.recovery.journal_candidates),
            checkpoint: Some(checkpoint),
            replayed_records: replayed.count,
            replay: shown,
            last_persistence: None,
            diagnostics: replayed.diagnostics,
        };
        let recovery_available: usize = opened.recovery.checkpoints.len();
        self.recovery = opened.recovery;
        self.latest_primary_save = None;
        self.advance_document_epoch();
        Ok(
            ProjectOpenOutcome {
                revisions: replayed.revisions,
                origin: completion.origin,
                manifest_path: opened.manifest_path,
                recovery_available,
            },
        )
    }

    fn capture_save(
        &self,
        session: &ProjectSession,
        files: ProjectFiles,
        token: u64,
        kind: SaveKind,
    ) -> (r: Result<ProjectSaveRequest, ProjectLifecycleError>)
        ensures
            r == captured(self@, session@, files, token, kind),
    {
        let snapshot = match session.project_snapshot() {
            Ok(snapshot) => snapshot.clone(),
            Err(error) => {
                return Err(ProjectLifecycleError::Session(error));
            },
        };
        let delta = match session.capture_autosave_journal() {
            Ok(delta) => delta,
            Err(error) => {
                return Err(ProjectLifecycleError::Session(error));
            },
        };
        let checkpoint = match session.journal_checkpoint() {
            Ok(checkpoint) => checkpoint,
            Err(error) => {
                return Err(ProjectLifecycleError::Session(error));
            },
        };
        let workspace = match &self.workspace {
            Some(workspace) => Some(workspace.clone()),
            None => None,
        };
        Ok(
            ProjectSaveRequest {
                token,
                document_epoch: self.document_epoch,
                files,
                kind,
                snapshot,
                workspace,
                workspace_revision: self.workspace_revision,
                preserved: self.preserved.clone(),
                checkpoint,
                delta,
            },
        )
    }

    /// Captures a save to where the document is stored.
    pub fn begin_save(&mut self, session: &ProjectSession) -> (r: Result<
        ProjectSaveRequest,
        ProjectLifecycleError,
    >)
        ensures
            match old(self)@.files {
                None => r == Err::<ProjectSaveRequest, ProjectLifecycleError>(
                    ProjectLifecycleError::NoRepository,
                ) && final(self)@ == old(self)@,
                Some(files) => {
                    let begun = saving(old(self)@);
                    &&& final(self)@ == begun
                    &&& r == captured(
                        begun,
                        session@,
                        files,
                        begun.operation_sequence,
                        SaveKind::Primary,
                    )
                },
            },
    {
        let files = match &self.files {
            Some(files) => files.clone(),
            None => {
                return Err(ProjectLifecycleError::NoRepository);
            },
        };
        self.begin_save_as(session, files)
    }

    /// Captures a save to another place.
    pub fn begin_save_as(&mut self, session: &ProjectSession, files: ProjectFiles) -> (r: Result<
        ProjectSaveRequest,
        ProjectLifecycleError,
    >)
        ensures
            final(self)@ == saving(old(self)@),
            r == captured(
                saving(old(self)@),
                session@,
                files,
                saving(old(self)@).operation_sequence,
                SaveKind::Primary,
            ),
    {
        let token: u64 = self.next_operation();
        self.latest_primary_save = Some(token);
        self.capture_save(session, files, token, SaveKind::Primary)
    }

    /// Captures a save beside the project.
    pub fn begin_autosave(&mut self, session: &ProjectSession, saved_unix_ms: u64) -> (r: Result<
        ProjectSaveRequest,
        ProjectLifecycleError,
    >)
        ensures
            match old(self)@.files {
                None => r == Err::<ProjectSaveRequest, ProjectLifecycleError>(
                    ProjectLifecycleError::NoRepository,
                ) && final(self)@ == old(self)@,
                Some(files) => {
                    let token = next_generation(old(self)@.operation_sequence);
                    let begun = LifecycleView { operation_sequence: token, ..old(self)@ };
                    &&& final(self)@ == begun
                    &&& r == captured(
                        begun,
                        session@,
                        files,
                        token,
                        SaveKind::Autosave { saved_unix_ms },
                    )
                },
            },
    {
        let files = match &self.files {
            Some(files) => files.clone(),
            None => {
                return Err(ProjectLifecycleError::NoRepository);
            },
        };
        let token: u64 = self.next_operation();
        self.capture_save(session, files, token, SaveKind::Autosave { saved_unix_ms })
    }

    fn rescan(&mut self, recovery: Arc<RecoveryDiscovery>, result: &SaveResult)
        ensures
            final(self)@ == rescanned(old(self)@, recovery, *result),
    {
        let mut told = copy_store_diagnostics(&recovery.diagnostics);
        let mut more = copy_store_diagnostics(&result.maintenance_diagnostics);
        told.append(&mut more);
        self.diagnostics.recovery_store = told;
        self.recovery = recovery;
    }

    fn update_journal_state(
        &mut self,
        session: &ProjectSession,
        state: &ProjectJournalPersistenceState,
    )
        ensures
            is_journal_update(old(self)@, session@, *state, final(self)@),
    {
        self.journal.discovered_segments = copy_paths(&self.recovery.journals);
        self.journal.discovered_candidates = copy_candidates(&self.recovery.journal_candidates);
        self.journal.checkpoint = match session.journal_checkpoint() {
            Ok(checkpoint) => Some(checkpoint),
            Err(_) => None,
        };
        self.journal.last_persistence = Some(state.clone());
        let mut told: Vec<ProjectJournalDiagnostic> = Vec::new();
        match persistence_diagnostic(state) {
            Some(diagnostic) => {
                told.push(diagnostic);
            },
            None => {},
        }
        assert(notes(told@) =~= as_list(persistence_note(*state)));
        self.journal.diagnostics = copy_diagnostics(&told);
        self.diagnostics.journal = told;
    }

    fn clean(&self, session: &ProjectSession) -> (r: bool)
        ensures
            r == !document_dirty(self@, session@),
    {
        match self.is_dirty(session) {
            Ok(dirty) => !dirty,
            Err(_) => false,
        }
    }

    /// Ends a save. What was edited after it began stays unsaved.
    pub fn finish_save(
        &mut self,
        session: &mut ProjectSession,
        completion: ProjectSaveCompletion,
        replies: SaveReplies,
    ) -> (r: Result<ProjectSaveOutcome, ProjectLifecycleError>)
        requires
            old(session).wf(),
            marks_what_was_written(completion, replies),
        ensures
            final(session).wf(),
            save_outcome(
                old(self)@,
                old(session)@,
                completion,
                replies,
                r,
                final(self)@,
                final(session)@,
            ),
    {
        if completion.document_epoch != self.document_epoch {
            return Err(ProjectLifecycleError::DocumentChangedDuringOperation);
        }
        let latest = match self.latest_primary_save {
            Some(token) => token == completion.token,
            None => false,
        };
        if completion.kind == SaveKind::Primary && !latest {
            return Err(ProjectLifecycleError::SupersededSaveCompletion);
        }
        let ProjectSaveCompletion {
            files,
            kind,
            workspace_revision,
            delta,
            journal,
            result,
            ..
        } = completion;
        let result = match result {
            Ok(result) => result,
            Err(message) => {
                return Err(ProjectLifecycleError::Repository(message));
            },
        };
        let durable = match &journal {
            ProjectJournalPersistenceState::Persisted { .. } => delta.is_some(),
            _ => false,
        };
        if durable {
            match session.journal_checkpoint() {
                Ok(_) => {},
                Err(error) => {
                    return Err(ProjectLifecycleError::Session(error));
                },
            }
        }
        let ghost acknowledged = replies.acknowledged;
        let state = acknowledge_written(session, journal, &delta, replies.acknowledged);
        let ghost current = session@;
        assert(acknowledgement(old(session)@, journal, delta, acknowledged, state, current));
        match kind {
            SaveKind::Autosave { .. } => {
                self.rescan(replies.recovery, &result);
                self.update_journal_state(session, &state);
                session.replace_diagnostics(self.diagnostics.summaries());
                let document_clean = self.clean(session);
                Ok(
                    ProjectSaveOutcome {
                        result,
                        project_marked_saved: false,
                        workspace_marked_saved: false,
                        document_clean,
                        journal: state,
                    },
                )
            },
            SaveKind::Primary => {
                let moved = match &self.manifest_path {
                    Some(path) => !path.same(&result.manifest_path),
                    None => true,
                };
                self.latest_primary_save = None;
                self.files = Some(files);
                self.manifest_path = Some(result.manifest_path.clone());
                self.origin = Some(ProjectDocumentOrigin::Primary);
                self.rescan(replies.recovery, &result);
                session.replace_diagnostics(self.diagnostics.summaries());
                let marked_saved = match session.mark_saved_if_revision(
                    result.revision_guard.revision,
                    replies.mark,
                ) {
                    Ok(marked_saved) => marked_saved,
                    Err(error) => {
                        return Err(ProjectLifecycleError::Session(error));
                    },
                };
                let layout_kept = workspace_revision == self.workspace_revision;
                if layout_kept {
                    self.saved_workspace_revision = workspace_revision;
                }
                if moved {
                    self.advance_document_epoch();
                }
                self.update_journal_state(session, &state);
                let document_clean = self.clean(session);
                Ok(
                    ProjectSaveOutcome {
                        result,
                        project_marked_saved: marked_saved,
                        workspace_marked_saved: layout_kept,
                        document_clean,
                        journal: state,
                    },
                )
            },
        }
    }

    /// Captures an export of what is heard, if that is what the project is now.
    pub fn begin_export(&self, session: &ProjectSession, audible_revision: u64) -> (r: Result<
        ProjectExportRequest,
        ProjectLifecycleError,
    >)
        ensures
            match session@.published.project {
                None => r == Err::<ProjectExportRequest, ProjectLifecycleError>(
                    ProjectLifecycleError::Session(ProjectSessionError::NoProject),
                ),
                Some(snapshot) => if snapshot.revisions.aggregate != audible_revision {
                    r == Err::<ProjectExportRequest, ProjectLifecycleError>(
                        ProjectLifecycleError::ExportRevisionConflict {
                            project_revision: snapshot.revisions.aggregate,
                            audible_revision,
                        },
                    )
                } else {
                    r matches Ok(request) && request.pinned() == audible_revision
                },
            },
    {
        let project_revision: u64 = match session.project_snapshot() {
            Ok(snapshot) => snapshot.revisions.aggregate,
            Err(error) => {
                return Err(ProjectLifecycleError::Session(error));
            },
        };
        if audible_revision != project_revision {
            return Err(
                ProjectLifecycleError::ExportRevisionConflict { project_revision, audible_revision },
            );
        }
        Ok(ProjectExportRequest { revision: project_revision })
    }
}

/// The lifecycle after a save of the project itself has begun.
pub open spec fn saving(document: LifecycleView) -> LifecycleView {
    let token = next_generation(document.operation_sequence);
    LifecycleView { operation_sequence: token, latest_primary_save: Some(token), ..document }
}

// ----- laws ---------------------------------------------------------------

/// What any operation does to the tokens: it gives out none, and may settle the open
/// that is pending; or it gives out the next one, and may begin an open under it.
pub open spec fn advances(before: LifecycleView, after: LifecycleView) -> bool {
    ||| {
        &&& after.operation_sequence == before.operation_sequence
        &&& after.pending_open == before.pending_open || after.pending_open is None
    }
    ||| {
        &&& after.operation_sequence == next_generation(before.operation_sequence)
        &&& after.pending_open == before.pending_open || begins_open(before, after)
    }
}

/// An open was begun.
pub open spec fn begins_open(before: LifecycleView, after: LifecycleView) -> bool {
    &&& after.operation_sequence == next_generation(before.operation_sequence)
    &&& after.pending_open matches Some(pending)
    &&& pending.token == after.operation_sequence
}

/// Beginning an open, where it is not refused, begins one; it changes nothing else: the
/// document stays where it is stored, as it is laid out, and as dirty as it was.
pub proof fn beginning_an_open_changes_only_what_is_pending(
    before: LifecycleView,
    session: SessionView,
    files: ProjectFiles,
    origin: ProjectDocumentOrigin,
    outcome: Result<ProjectOpenRequest, ProjectLifecycleError>,
    after: LifecycleView,
)
    requires
        begin_outcome(before, session, files, origin, outcome, after),
    ensures
        outcome == Err::<ProjectOpenRequest, ProjectLifecycleError>(
            ProjectLifecycleError::UnsavedChanges,
        ) <==> disposition(before, session) == ProjectReplacementDisposition::Dirty,
        outcome is Err ==> after == before,
        outcome is Ok ==> begins_open(before, after) && after.pending_open->0.source
            == open_source(files, origin),
        outcome matches Ok(request) ==> request.token == after.operation_sequence,
        advances(before, after),
        after.files == before.files,
        after.manifest_path == before.manifest_path,
        after.origin == before.origin,
        after.workspace == before.workspace,
        after.diagnostics == before.diagnostics,
        after.journal == before.journal,
        document_dirty(after, session) == document_dirty(before, session),
{
}

/// Ending an open gives out no token and leaves no other open pending.
pub proof fn ending_an_open_advances(
    before: LifecycleView,
    session: SessionView,
    completion: ProjectOpenCompletion,
    replay: JournalReplay,
    analysis: Option<AnalysisHandle>,
    outcome: Result<ProjectOpenOutcome, ProjectLifecycleError>,
    after: LifecycleView,
    session_after: SessionView,
)
    requires
        open_outcome(
            before,
            session,
            completion,
            replay,
            analysis,
            outcome,
            after,
            session_after,
        ),
    ensures
        advances(before, after),
{
}

/// Beginning a save of the project or of its recovery gives out one token.
pub proof fn beginning_a_save_advances(before: LifecycleView)
    ensures
        advances(before, saving(before)),
        advances(
            before,
            (LifecycleView {
                operation_sequence: next_generation(before.operation_sequence),
                ..before
            }),
        ),
{
}

/// Ending a save gives out no token and leaves a pending open pending.
pub proof fn ending_a_save_advances(
    before: LifecycleView,
    session: SessionView,
    completion: ProjectSaveCompletion,
    replies: SaveReplies,
    outcome: Result<ProjectSaveOutcome, ProjectLifecycleError>,
    after: LifecycleView,
    session_after: SessionView,
)
    requires
        save_outcome(before, session, completion, replies, outcome, after, session_after),
    ensures
        advances(before, after),
        after.pending_open == before.pending_open,
{
}

/// How many tokens were given out up to the state at `n`.
pub open spec fn given_out(states: Seq<LifecycleView>, n: int) -> nat
    decreases n,
{
    if n <= 0 {
        0
    } else if states[n].operation_sequence == states[n - 1].operation_sequence {
        given_out(states, n - 1)
    } else {
        given_out(states, n - 1) + 1
    }
}

/// Once another open has begun, the end of any earlier one is refused and changes
/// nothing, whatever operations came before, between and after the two: `states` are
/// those of the document from where the earlier open has begun, and the other one begins
/// after the state at `other`. Tokens start over behind the greatest one, so that one
/// comes up again only after all of them were given out.
pub proof fn an_older_open_is_refused(
    states: Seq<LifecycleView>,
    other: int,
    session: SessionView,
    completion: ProjectOpenCompletion,
    replay: JournalReplay,
    analysis: Option<AnalysisHandle>,
    outcome: Result<ProjectOpenOutcome, ProjectLifecycleError>,
    after: LifecycleView,
    session_after: SessionView,
)
    requires
        0 <= other < states.len() - 1,
        forall|i: int|
            0 <= i < states.len() - 1 ==> advances(#[trigger] states[i], states[i + 1]),
        begins_open(states[other], states[other + 1]),
        given_out(states, states.len() - 1) < u64::MAX,
        completion.token == states[0].operation_sequence,
        open_outcome(
            states.last(),
            session,
            completion,
            replay,
            analysis,
            outcome,
            after,
            session_after,
        ),
    ensures
        outcome == Err::<ProjectOpenOutcome, ProjectLifecycleError>(
            ProjectLifecycleError::StaleOpenCompletion,
        ),
        after == states.last(),
        session_after == session,
{
    lemma_later_pending(states, other, states.len() - 1);
}

/// Tokens are given out in turn from the one of the first state on.
proof fn lemma_tokens_in_turn(states: Seq<LifecycleView>, n: int)
    requires
        0 <= n < states.len(),
        forall|i: int|
            0 <= i < states.len() - 1 ==> advances(#[trigger] states[i], states[i + 1]),
        given_out(states, n) < u64::MAX,
    ensures
        ({
            let token = states[0].operation_sequence + given_out(states, n);
            states[n].operation_sequence == if token <= u64::MAX {
                token
            } else {
                token - u64::MAX
            }
        }),
    decreases n,
{
    if n > 0 {
        lemma_tokens_in_turn(states, n - 1);
        assert(advances(states[n - 1], states[n - 1 + 1]));
    }
}

proof fn lemma_later_pending(states: Seq<LifecycleView>, other: int, n: int)
    requires
        0 <= other < n < states.len(),
        forall|i: int|
            0 <= i < states.len() - 1 ==> advances(#[trigger] states[i], states[i + 1]),
        begins_open(states[other], states[other + 1]),
        given_out(states, n) < u64::MAX,
    ensures
        given_out(states, n) > 0,
        states[n].pending_open matches Some(pending) ==> pending.token
            != states[0].operation_sequence,
    decreases n,
{
    assert(advances(states[n - 1], states[n - 1 + 1]));
    if n > other + 1 {
        lemma_later_pending(states, other, n - 1);
    }
    lemma_tokens_in_turn(states, n);
}

/// An open that fails leaves the document and the session as they were, but for the
/// comparisons of the session: they are let go where the controller refused the project
/// that was loaded.
pub proof fn a_failed_open_keeps_the_document(
    before: LifecycleView,
    session: SessionView,
    completion: ProjectOpenCompletion,
    replay: JournalReplay,
    analysis: Option<AnalysisHandle>,
    outcome: Result<ProjectOpenOutcome, ProjectLifecycleError>,
    after: LifecycleView,
    session_after: SessionView,
)
    requires
        open_outcome(
            before,
            session,
            completion,
            replay,
            analysis,
            outcome,
            after,
            session_after,
        ),
        outcome is Err,
    ensures
        session_after == session || session_after == uninterpreted(session),
        !(outcome->Err_0 is Session) ==> session_after == session,
        after == (LifecycleView { pending_open: after.pending_open, ..before }),
        document_dirty(after, session_after) == document_dirty(before, session),
{
}

/// A recovered document is unsaved, whatever it holds. A document that was opened
/// from its own place is unsaved only if replaying its journal edited it.
pub proof fn only_recovered_or_replayed_documents_open_unsaved(
    before: LifecycleView,
    session: SessionView,
    completion: ProjectOpenCompletion,
    replay: JournalReplay,
    analysis: Option<AnalysisHandle>,
    outcome: ProjectOpenOutcome,
    after: LifecycleView,
    session_after: SessionView,
)
    requires
        open_outcome(
            before,
            session,
            completion,
            replay,
            analysis,
            Ok(outcome),
            after,
            session_after,
        ),
    ensures
        completion.origin is Recovery ==> document_dirty(after, session_after),
        completion.origin is Primary ==> (document_dirty(after, session_after) <==> (
        session_after.published.project matches Some(snapshot) && snapshot.dirty)),
{
}

/// A save leaves nothing unsaved exactly if neither the project has unsaved edits
/// then nor the layout is another than the one captured, unless that was saved.
pub proof fn a_save_cleans_what_it_captured(
    before: LifecycleView,
    session: SessionView,
    completion: ProjectSaveCompletion,
    recovery: Arc<RecoveryDiscovery>,
    mark: SavedMark,
    result: SaveResult,
    state: ProjectJournalPersistenceState,
    outcome: ProjectSaveOutcome,
    after: LifecycleView,
    session_after: SessionView,
)
    requires
        primary_outcome(
            before,
            session,
            completion,
            recovery,
            mark,
            result,
            state,
            outcome,
            after,
            session_after,
        ),
    ensures
        outcome.document_clean <==> (outcome.workspace_marked_saved
            || before.saved_workspace_revision == before.workspace_revision) && !(
        session_after.published.project matches Some(snapshot) && snapshot.dirty),
{
}

/// An autosave leaves unsaved what was unsaved.
pub proof fn an_autosave_saves_nothing(
    before: LifecycleView,
    session: SessionView,
    recovery: Arc<RecoveryDiscovery>,
    result: SaveResult,
    state: ProjectJournalPersistenceState,
    outcome: ProjectSaveOutcome,
    after: LifecycleView,
    session_after: SessionView,
)
    requires
        autosave_outcome(
            before,
            session,
            recovery,
            result,
            state,
            outcome,
            after,
            session_after,
        ),
    ensures
        document_dirty(after, session_after) == document_dirty(before, session),
        after.files == before.files,
        after.manifest_path == before.manifest_path,
        after.origin == before.origin,
        session_after.controller == session.controller,
        session_after.published == session.published,
{
}

/// Once a document was saved elsewhere, the end of whatever was captured before is
/// refused and changes nothing.
pub proof fn moving_ends_earlier_operations(
    before: LifecycleView,
    session: SessionView,
    completion: ProjectSaveCompletion,
    recovery: Arc<RecoveryDiscovery>,
    mark: SavedMark,
    result: SaveResult,
    state: ProjectJournalPersistenceState,
    outcome: ProjectSaveOutcome,
    middle: LifecycleView,
    session_middle: SessionView,
    earlier: ProjectSaveCompletion,
    replies: SaveReplies,
    refused: Result<ProjectSaveOutcome, ProjectLifecycleError>,
    after: LifecycleView,
    session_after: SessionView,
)
    requires
        primary_outcome(
            before,
            session,
            completion,
            recovery,
            mark,
            result,
            state,
            outcome,
            middle,
            session_middle,
        ),
        moves(before, result),
        earlier.document_epoch == before.document_epoch,
        save_outcome(middle, session_middle, earlier, replies, refused, after, session_after),
    ensures
        refused == Err::<ProjectSaveOutcome, ProjectLifecycleError>(
            ProjectLifecycleError::DocumentChangedDuringOperation,
        ),
        after == middle,
        session_after == session_middle,
{
}

/// Records that became durable late never move the durable cursor back: where the
/// controller has gone on, what it knows stays.
pub proof fn a_late_journal_keeps_the_cursor(
    session: SessionView,
    journal: ProjectJournalPersistenceState,
    delta: Option<Arc<ProjectJournalDelta>>,
    message: String,
    state: ProjectJournalPersistenceState,
    after: SessionView,
)
    requires
        acknowledges(journal, delta),
        session.controller is Some,
        session.controller->0.checkpoint != journal->prior_checkpoint,
        acknowledgement(session, journal, delta, Err(message), state, after),
    ensures
        after == session,
        session_checkpoint(after) == session_checkpoint(session),
        state is DurableSuperseded,
        state->current_checkpoint == session.controller->0.checkpoint,
{
}

} // verus!
