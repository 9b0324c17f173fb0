//! One project session: what is published, selected, heard and reported.
//!
//! The controller that owns the live project works outside this crate. Each
//! method that needs it takes what the controller replied, adopts the controller
//! as it is then, and publishes.

use std::sync::Arc;

use vstd::prelude::*;

use crate::command::AssetId;
use crate::document_ids::the_next_document_has_another_id;
use crate::event_log::{
    chained, chains_are_orderly, filtered, last_of, oldest, orderly, polled, pushed, pushed_all,
    readers_get_what_they_asked_for, reading_again_gives_nothing, silent_transport, AudioView,
    LogView, ProjectAudioStatus,
    ProjectEventBatch, ProjectEventFilter, ProjectEventLog, ProjectEventSubscription,
    ProjectLifecycle, ProjectPublication, ProjectSessionEvent, RenderActivity, ViewLinkDelivery,
};
use crate::live_project::{
    AssetImportDisposition, AssetImportReply, ChangeSet, CommandJournalRecord, CommandOperation,
    ControllerReply, ControllerStep, LiveProjectSnapshot, ProjectController,
    ProjectControllerUpdate, ProjectHistoryStatus, ProjectJournalCheckpoint, ProjectJournalDelta,
    ProjectRevisions,
};
use crate::navigation::copy_optional_geometry;
use crate::objects::ObjectRef;
use crate::selection::{
    empty_selection, following, guard_fault, next_number, primary_gone, reconciled, removed_count,
    selected, EditCursor, ObjectSelection, ProjectSelection, ProjectSelectionState,
    SelectionDocumentId, SelectionGuard, SelectionGuardError, SelectionProvenance,
    SelectionReconcileReport, SelectionStateView, SelectionView, WorkspaceViewId,
};
use crate::source_graph::InterpretationStore;
use crate::text::{copy_optional_text, same_text, text_views};

verus! {

/// A session.
#[derive(Clone, Copy, Debug, PartialEq, Eq, PartialOrd, Ord, Hash, Structural)]
pub struct ProjectSessionId(pub u64);

/// An analysis that the host keeps.
#[derive(Clone, Copy, Debug, PartialEq, Eq, Structural)]
pub struct AnalysisHandle(pub u64);

/// What a view reads: replaced as a whole, never in part.
#[derive(Debug, PartialEq, Eq)]
pub struct ProjectReadSnapshot {
    pub generation: u64,
    pub lifecycle: ProjectLifecycle,
    pub project: Option<LiveProjectSnapshot>,
    pub analysis: Option<AnalysisHandle>,
}

impl Default for ProjectReadSnapshot {
    fn default() -> (r: Self)
        ensures
            r == (ProjectReadSnapshot {
                generation: 0,
                lifecycle: ProjectLifecycle::Empty,
                project: None,
                analysis: None,
            }),
    {
        ProjectReadSnapshot {
            generation: 0,
            lifecycle: ProjectLifecycle::Empty,
            project: None,
            analysis: None,
        }
    }
}

/// The revisions of what is published.
pub open spec fn published_revisions(published: ProjectReadSnapshot) -> Option<ProjectRevisions> {
    match published.project {
        Some(snapshot) => Some(snapshot.revisions),
        None => None,
    }
}

impl ProjectReadSnapshot {
    /// The revisions of what is published.
    pub fn revisions(&self) -> (r: Option<ProjectRevisions>)
        ensures
            r == published_revisions(*self),
    {
        match &self.project {
            Some(snapshot) => Some(snapshot.revisions),
            None => None,
        }
    }
}

/// Why linked views refuse.
#[derive(Clone, Copy, Debug, PartialEq, Eq, Structural)]
pub enum ViewLinkError {
    UnknownView(WorkspaceViewId),
}

/// Why a session refuses.
#[derive(Debug, PartialEq, Eq)]
pub enum ProjectSessionError {
    ZeroId,
    NoProject,
    Project(String),
    Controller(String),
    Action(String),
    RevisionConflict { expected: u64, actual: u64 },
    Selection(SelectionGuardError),
    Links(ViewLinkError),
}

/// The group of views that a view shares its state with, and which parts of it.
#[derive(Clone, Copy, Debug, PartialEq, Eq, Structural)]
pub struct ViewLinkMembership {
    pub group: u64,
    pub facets: u32,
}

/// A view and its group.
#[derive(Clone, Copy, Debug, PartialEq, Eq, Structural)]
pub struct LinkedView {
    pub view: WorkspaceViewId,
    pub membership: ViewLinkMembership,
}

/// The views that share state, as the router holds them.
#[derive(Debug, PartialEq, Eq)]
pub struct ViewLinkRegistry {
    pub views: Vec<LinkedView>,
}

/// What an edit came to.
#[derive(Debug, PartialEq, Eq)]
pub struct ProjectEditReceipt {
    pub operation: CommandOperation,
    pub publication: ProjectPublication,
    pub change_set: Arc<ChangeSet>,
    pub history: ProjectHistoryStatus,
    pub journal_sequence: u64,
}

/// What importing an asset came to. Reusing exact content is no edit.
#[derive(Debug, PartialEq, Eq)]
pub struct ProjectAssetImportReceipt {
    pub asset: AssetId,
    pub disposition: AssetImportDisposition,
    pub decoded_pcm: String,
    pub duplicate_predecessors: Vec<AssetId>,
    pub edit: Option<ProjectEditReceipt>,
}

/// What a pattern workflow came to.
#[derive(Debug, PartialEq, Eq)]
pub enum PatternWorkflowOutcome {
    Published(ProjectControllerUpdate),
    History(Option<ProjectControllerUpdate>),
    Targeted,
    Navigate,
    Preview,
    Audition,
    GestureBegan,
    GestureEnded,
}

/// A pattern workflow, and the controller after it.
#[derive(Debug, PartialEq, Eq)]
pub struct PatternWorkflowReply {
    pub controller: ProjectController,
    pub outcome: PatternWorkflowOutcome,
}

/// What a sampler action came to.
#[derive(Debug, PartialEq, Eq)]
pub enum SampleActionOutcome {
    Published(ProjectControllerUpdate),
    /// Auditioned, inspected or previewed something.
    Ephemeral,
}

/// A sampler action, and the controller after it.
#[derive(Debug, PartialEq, Eq)]
pub struct SampleActionReply {
    pub controller: ProjectController,
    pub outcome: SampleActionOutcome,
}

/// What a constructive plan came to.
#[derive(Debug, PartialEq, Eq)]
pub struct ConstructiveOutcome {
    pub update: ProjectControllerUpdate,
}

/// What the controller came to when it was asked to record the save of a revision:
/// whether it did, and the controller after it.
#[derive(Debug, PartialEq, Eq)]
pub struct SavedMark {
    /// The revision that it was asked for.
    pub revision: u64,
    pub controller: ProjectController,
    pub marked: bool,
}

/// Which way in the history.
#[derive(Clone, Copy, Debug, PartialEq, Eq, Structural)]
pub enum HistoryDirection {
    Undo,
    Redo,
}

/// What a control action asks for, with the controller's reply.
#[derive(Debug, PartialEq, Eq)]
pub enum ControlSessionOperation {
    Execute { reply: Result<ControllerReply, String> },
    /// The controller steps only where [`ProjectSession::admit_history`] allows it.
    History {
        expected_aggregate_revision: u64,
        direction: HistoryDirection,
        step: Result<ControllerStep, String>,
    },
}

/// A session.
pub struct ProjectSession {
    id: ProjectSessionId,
    document_generation: u64,
    controller: Option<ProjectController>,
    published: ProjectReadSnapshot,
    selection: ProjectSelectionState,
    links: ViewLinkRegistry,
    audio: ProjectAudioStatus,
    diagnostics: Vec<String>,
    events: ProjectEventLog,
    /// The comparisons of the document that are kept, where any were made.
    interpretations: Option<Arc<InterpretationStore>>,
}

/// What a session holds.
pub struct SessionView {
    pub id: ProjectSessionId,
    pub document_generation: u64,
    pub controller: Option<ProjectController>,
    pub published: ProjectReadSnapshot,
    pub selection: SelectionStateView,
    pub links: Seq<LinkedView>,
    pub audio: ProjectAudioStatus,
    pub diagnostics: Seq<Seq<char>>,
    pub events: LogView,
    pub interpretations: Option<Arc<InterpretationStore>>,
}

impl View for ProjectSession {
    type V = SessionView;

    closed spec fn view(&self) -> SessionView {
        SessionView {
            id: self.id,
            document_generation: self.document_generation,
            controller: self.controller,
            published: self.published,
            selection: self.selection@,
            links: self.links.views@,
            audio: self.audio,
            diagnostics: text_views(self.diagnostics@),
            events: self.events@,
            interpretations: self.interpretations,
        }
    }
}

/// How many events a session keeps.
pub const EVENT_CAPACITY: usize = 512;

// ----- identity of the document -------------------------------------------

/// One step of the hash: FNV-1a over 64 bits.
pub open spec fn hash_step(hash: u64, byte: u64) -> u64 {
    (hash ^ byte).wrapping_mul(0x0000_0100_0000_01b3)
}

/// Byte `i` of a number, the lowest first.
pub open spec fn low_byte(value: u64, i: u64) -> u64 {
    (value >> (8 * i) as u64) & 0xff
}

/// The hash after the first `i` bytes of a number.
pub open spec fn hash_bytes(hash: u64, value: u64, i: nat) -> u64
    decreases i,
{
    if i == 0 {
        hash
    } else {
        hash_step(hash_bytes(hash, value, (i - 1) as nat), low_byte(value, (i - 1) as u64))
    }
}

/// The identity of an installed document: a hash of the session and of how many
/// documents it has installed.
pub open spec fn document_id(session: ProjectSessionId, generation: u64) -> SelectionDocumentId {
    SelectionDocumentId(
        hash_bytes(hash_bytes(0xcbf2_9ce4_8422_2325, session.0, 8), generation, 8),
    )
}

fn hash_number(start: u64, value: u64) -> (r: u64)
    ensures
        r == hash_bytes(start, value, 8),
{
    let mut hash: u64 = start;
    let mut i: u64 = 0;
    while i < 8
        invariant
            i <= 8,
            hash == hash_bytes(start, value, i as nat),
        decreases 8 - i,
    {
        let shift: u64 = 8 * i;
        let byte: u64 = (value >> shift) & 0xff;
        hash = (hash ^ byte).wrapping_mul(0x0000_0100_0000_01b3);
        i = i + 1;
    }
    hash
}

/// The identity of an installed document.
pub fn selection_document_id(session: ProjectSessionId, document_generation: u64) -> (r:
    SelectionDocumentId)
    ensures
        r == document_id(session, document_generation),
{
    let first: u64 = hash_number(0xcbf2_9ce4_8422_2325, session.0);
    SelectionDocumentId(hash_number(first, document_generation))
}

// ----- what publishing does -----------------------------------------------

/// A session that reports an event.
pub open spec fn logged(session: SessionView, event: ProjectSessionEvent) -> SessionView {
    SessionView { events: pushed(session.events, event), ..session }
}

/// The publication of an update.
pub open spec fn publication_of(
    session: SessionView,
    update: ProjectControllerUpdate,
) -> ProjectPublication {
    ProjectPublication {
        generation: next_number(session.published.generation),
        revisions: update.snapshot.revisions,
        snapshot: update.snapshot,
        change_set: Some(update.change_set),
    }
}

/// The report of a history.
pub open spec fn history_event(
    history: ProjectHistoryStatus,
    journal_sequence: u64,
) -> ProjectSessionEvent {
    ProjectSessionEvent::HistoryChanged {
        can_undo: history.can_undo,
        can_redo: history.can_redo,
        undo_label: history.undo_label,
        redo_label: history.redo_label,
        journal_sequence,
    }
}

/// A session that published an update: the project is replaced as a whole, one
/// generation on, and the project and its history are reported.
pub open spec fn published_update(
    session: SessionView,
    controller: ProjectController,
    update: ProjectControllerUpdate,
) -> SessionView {
    let publication = publication_of(session, update);
    let replaced = SessionView {
        controller: Some(controller),
        published: ProjectReadSnapshot {
            generation: publication.generation,
            lifecycle: ProjectLifecycle::Ready,
            project: Some(update.snapshot),
            analysis: session.published.analysis,
        },
        ..session
    };
    logged(
        logged(replaced, ProjectSessionEvent::ProjectPublished(publication)),
        history_event(controller.history, update.journal_sequence),
    )
}

/// The receipt of an update.
pub open spec fn receipt_of(
    session: SessionView,
    controller: ProjectController,
    update: ProjectControllerUpdate,
) -> ProjectEditReceipt {
    ProjectEditReceipt {
        operation: update.operation,
        publication: publication_of(session, update),
        change_set: update.change_set,
        history: controller.history,
        journal_sequence: update.journal_sequence,
    }
}

/// A session after a step that may have changed the project.
pub open spec fn after_step(
    session: SessionView,
    controller: ProjectController,
    update: Option<ProjectControllerUpdate>,
) -> SessionView {
    match update {
        Some(update) => published_update(session, controller, update),
        None => SessionView { controller: Some(controller), ..session },
    }
}

/// The receipt of a step that may have changed the project.
pub open spec fn step_receipt(
    session: SessionView,
    controller: ProjectController,
    update: Option<ProjectControllerUpdate>,
) -> Option<ProjectEditReceipt> {
    match update {
        Some(update) => Some(receipt_of(session, controller, update)),
        None => None,
    }
}

/// The revisions in an optional receipt.
pub open spec fn receipt_revisions(receipt: Option<ProjectEditReceipt>) -> Option<ProjectRevisions> {
    match receipt {
        Some(receipt) => Some(receipt.publication.revisions),
        None => None,
    }
}

/// The update in the outcome of a pattern workflow.
pub open spec fn workflow_update(outcome: PatternWorkflowOutcome) -> Option<
    ProjectControllerUpdate,
> {
    match outcome {
        PatternWorkflowOutcome::Published(update) => Some(update),
        PatternWorkflowOutcome::History(update) => update,
        _ => None,
    }
}

/// The update in the outcome of a sampler action.
pub open spec fn sample_update(outcome: SampleActionOutcome) -> Option<ProjectControllerUpdate> {
    match outcome {
        SampleActionOutcome::Published(update) => Some(update),
        SampleActionOutcome::Ephemeral => None,
    }
}

/// The next generation of documents; none is zero.
pub open spec fn next_generation(generation: u64) -> u64 {
    if next_number(generation) == 0 {
        1
    } else {
        next_number(generation)
    }
}

/// A session that keeps no comparisons.
pub open spec fn uninterpreted(session: SessionView) -> SessionView {
    SessionView { interpretations: None, ..session }
}

/// A session that installed a document.
pub open spec fn installed(
    session: SessionView,
    controller: ProjectController,
    analysis: Option<AnalysisHandle>,
) -> SessionView {
    let generation = next_number(session.published.generation);
    let replaced = SessionView {
        document_generation: next_generation(session.document_generation),
        controller: Some(controller),
        published: ProjectReadSnapshot {
            generation,
            lifecycle: ProjectLifecycle::Ready,
            project: Some(controller.snapshot),
            analysis,
        },
        interpretations: None,
        ..session
    };
    let first = logged(replaced, ProjectSessionEvent::LifecycleChanged(ProjectLifecycle::Ready));
    let second = logged(
        first,
        ProjectSessionEvent::ProjectPublished(
            ProjectPublication {
                generation,
                revisions: controller.snapshot.revisions,
                snapshot: controller.snapshot,
                change_set: None,
            },
        ),
    );
    logged(
        second,
        ProjectSessionEvent::HistoryChanged {
            can_undo: false,
            can_redo: false,
            undo_label: None,
            redo_label: None,
            journal_sequence: 0,
        },
    )
}

/// A session that published its project again.
pub open spec fn republished(
    session: SessionView,
    snapshot: LiveProjectSnapshot,
    lifecycle: ProjectLifecycle,
    change_set: Option<Arc<ChangeSet>>,
) -> SessionView {
    let generation = next_number(session.published.generation);
    let replaced = SessionView {
        published: ProjectReadSnapshot {
            generation,
            lifecycle,
            project: Some(snapshot),
            analysis: session.published.analysis,
        },
        ..session
    };
    logged(
        replaced,
        ProjectSessionEvent::ProjectPublished(
            ProjectPublication {
                generation,
                revisions: snapshot.revisions,
                snapshot,
                change_set,
            },
        ),
    )
}

/// A session whose selection is now `selection`; a change is reported.
pub open spec fn reselected(session: SessionView, selection: SelectionStateView) -> SessionView {
    let replaced = SessionView { selection, ..session };
    if selection.revision != session.selection.revision {
        logged(
            replaced,
            ProjectSessionEvent::SelectionChanged { revision: selection.revision },
        )
    } else {
        replaced
    }
}

/// The guard for selections made now.
pub open spec fn current_guard(session: SessionView) -> Option<SelectionGuard> {
    match published_revisions(session.published) {
        Some(revisions) => Some(
            SelectionGuard {
                document: document_id(session.id, session.document_generation),
                project_revision: revisions.aggregate,
            },
        ),
        None => None,
    }
}

/// The objects of a selection as a session stamps them; time, aspect and signal
/// stay as they were.
pub open spec fn stamped(
    session: SessionView,
    objects: ObjectSelection,
    provenance: SelectionProvenance,
    guard: SelectionGuard,
) -> SelectionView {
    SelectionView {
        primary: objects.primary,
        secondary: objects.secondary@,
        guard: Some(guard),
        provenance,
        time: session.selection.selection.time,
        aspect: session.selection.selection.aspect,
        signal: session.selection.selection.signal,
        air: Seq::empty(),
    }
}

impl ProjectSession {
    /// The session keeps the newest events, in the order in which they came.
    pub open spec fn wf(&self) -> bool {
        &&& self@.events.capacity == EVENT_CAPACITY
        &&& self@.events.events.len() <= EVENT_CAPACITY
        &&& chained(self@.events)
    }

    /// A session without a project.
    pub fn new(id: ProjectSessionId) -> (r: Result<ProjectSession, ProjectSessionError>)
        ensures
            match r {
                Err(error) => id.0 == 0 && error == ProjectSessionError::ZeroId,
                Ok(session) => {
                    &&& id.0 != 0
                    &&& session.wf()
                    &&& session@.id == id
                    &&& session@.document_generation == 0
                    &&& session@.controller is None
                    &&& session@.published == (ProjectReadSnapshot {
                        generation: 0,
                        lifecycle: ProjectLifecycle::Empty,
                        project: None,
                        analysis: None,
                    })
                    &&& session@.selection == (SelectionStateView {
                        revision: 0,
                        selection: empty_selection(),
                        edit_cursor: EditCursor { frame: 0 },
                    })
                    &&& session@.links == Seq::<LinkedView>::empty()
                    &&& session@.audio@ == (AudioView {
                        transport: silent_transport(),
                        render: RenderActivity::Idle,
                        preview_active: false,
                        scoped_audition: None,
                        diagnostic: None,
                    })
                    &&& session@.diagnostics == Seq::<Seq<char>>::empty()
                    &&& session@.events == (LogView {
                        next_sequence: 1,
                        capacity: EVENT_CAPACITY as nat,
                        events: Seq::empty(),
                    })
                    &&& session@.interpretations is None
                },
            },
    {
        if id.0 == 0 {
            return Err(ProjectSessionError::ZeroId);
        }
        let views: Vec<LinkedView> = Vec::new();
        let diagnostics: Vec<String> = Vec::new();
        assert(text_views(diagnostics@) =~= Seq::<Seq<char>>::empty());
        Ok(
            ProjectSession {
                id,
                document_generation: 0,
                controller: None,
                published: ProjectReadSnapshot::default(),
                selection: ProjectSelectionState::new(),
                links: ViewLinkRegistry { views },
                audio: ProjectAudioStatus::default(),
                diagnostics,
                events: ProjectEventLog::new(EVENT_CAPACITY),
                interpretations: None,
            },
        )
    }

    // ----- reading --------------------------------------------------------

    /// The session's identity.
    pub fn id(&self) -> (r: ProjectSessionId)
        ensures
            r == self@.id,
    {
        self.id
    }

    /// How many documents were installed. Edits do not change it.
    pub fn document_generation(&self) -> (r: u64)
        ensures
            r == self@.document_generation,
    {
        self.document_generation
    }

    /// What is published.
    pub fn snapshot(&self) -> (r: &ProjectReadSnapshot)
        ensures
            *r == self@.published,
    {
        &self.published
    }

    /// The published project.
    pub fn project_snapshot(&self) -> (r: Result<&LiveProjectSnapshot, ProjectSessionError>)
        ensures
            match self@.published.project {
                Some(snapshot) => r matches Ok(found) && *found == snapshot,
                None => r matches Err(error) && error == ProjectSessionError::NoProject,
            },
    {
        match &self.published.project {
            Some(snapshot) => Ok(snapshot),
            None => Err(ProjectSessionError::NoProject),
        }
    }

    /// Whether the project has edits that were not saved.
    pub fn is_dirty(&self) -> (r: Result<bool, ProjectSessionError>)
        ensures
            r == match self@.published.project {
                Some(snapshot) => Ok::<bool, ProjectSessionError>(snapshot.dirty),
                None => Err(ProjectSessionError::NoProject),
            },
    {
        match &self.published.project {
            Some(snapshot) => Ok(snapshot.dirty),
            None => Err(ProjectSessionError::NoProject),
        }
    }

    /// What can be undone and redone.
    pub fn history_status(&self) -> (r: Result<ProjectHistoryStatus, ProjectSessionError>)
        ensures
            r == match self@.controller {
                Some(controller) => Ok::<ProjectHistoryStatus, ProjectSessionError>(
                    controller.history,
                ),
                None => Err(ProjectSessionError::NoProject),
            },
    {
        match &self.controller {
            Some(controller) => Ok(controller.history.clone()),
            None => Err(ProjectSessionError::NoProject),
        }
    }

    /// The live project, where one is installed.
    pub fn live_project(&self) -> (r: Option<&LiveProjectSnapshot>)
        ensures
            match self@.controller {
                Some(controller) => r matches Some(found) && *found == controller.snapshot,
                None => r is None,
            },
    {
        match &self.controller {
            Some(controller) => Some(&controller.snapshot),
            None => None,
        }
    }

    /// The controller, where a project is installed.
    pub fn project_controller(&self) -> (r: Option<&ProjectController>)
        ensures
            match self@.controller {
                Some(controller) => r matches Some(found) && *found == controller,
                None => r is None,
            },
    {
        self.controller.as_ref()
    }

    /// Lets the controller change without publishing anything.
    pub fn project_controller_mut(&mut self) -> (r: Option<&mut ProjectController>)
        requires
            old(self).wf(),
        ensures
            final(self).wf(),
            match old(self)@.controller {
                Some(controller) => {
                    &&& r matches Some(found)
                    &&& *found == controller
                    &&& final(self)@ == (SessionView {
                        controller: Some(*final(found)),
                        ..old(self)@
                    })
                },
                None => r is None && final(self)@ == old(self)@,
            },
    {
        match &mut self.controller {
            Some(controller) => Some(controller),
            None => None,
        }
    }

    /// What is selected.
    pub fn selection(&self) -> (r: &ProjectSelectionState)
        ensures
            r@ == self@.selection,
    {
        &self.selection
    }

    /// The views that share state.
    pub fn links(&self) -> (r: &ViewLinkRegistry)
        ensures
            r.views@ == self@.links,
    {
        &self.links
    }

    /// What is heard.
    pub fn audio_status(&self) -> (r: &ProjectAudioStatus)
        ensures
            *r == self@.audio,
    {
        &self.audio
    }

    /// What is reported to the user.
    pub fn diagnostics(&self) -> (r: &Vec<String>)
        ensures
            text_views(r@) == self@.diagnostics,
    {
        &self.diagnostics
    }

    /// The records of the journal.
    pub fn journal_records(&self) -> (r: Result<&Vec<CommandJournalRecord>, ProjectSessionError>)
        ensures
            match self@.controller {
                Some(controller) => r matches Ok(records) && *records == *controller.records,
                None => r matches Err(error) && error == ProjectSessionError::NoProject,
            },
    {
        match &self.controller {
            Some(controller) => Ok(&*controller.records),
            None => Err(ProjectSessionError::NoProject),
        }
    }

    /// How far the journal is durable.
    pub fn journal_checkpoint(&self) -> (r: Result<ProjectJournalCheckpoint, ProjectSessionError>)
        ensures
            r == match self@.controller {
                Some(controller) => Ok::<ProjectJournalCheckpoint, ProjectSessionError>(
                    controller.checkpoint,
                ),
                None => Err(ProjectSessionError::NoProject),
            },
    {
        match &self.controller {
            Some(controller) => Ok(controller.checkpoint),
            None => Err(ProjectSessionError::NoProject),
        }
    }

    /// The records that are not durable yet.
    pub fn capture_autosave_journal(&self) -> (r: Result<
        Option<Arc<ProjectJournalDelta>>,
        ProjectSessionError,
    >)
        ensures
            r == match self@.controller {
                Some(controller) => Ok::<Option<Arc<ProjectJournalDelta>>, ProjectSessionError>(
                    controller.pending,
                ),
                None => Err(ProjectSessionError::NoProject),
            },
    {
        match &self.controller {
            Some(controller) => match &controller.pending {
                Some(delta) => Ok(Some(delta.clone())),
                None => Ok(None),
            },
            None => Err(ProjectSessionError::NoProject),
        }
    }

    /// Work captured for the sampler.
    pub fn capture_sample_action_work<W>(&self, work: Result<W, String>) -> (r: Result<
        W,
        ProjectSessionError,
    >)
        ensures
            r == match (self@.controller, work) {
                (None, _) => Err::<W, ProjectSessionError>(ProjectSessionError::NoProject),
                (Some(_), Ok(work)) => Ok(work),
                (Some(_), Err(message)) => Err(ProjectSessionError::Action(message)),
            },
    {
        if self.controller.is_none() {
            return Err(ProjectSessionError::NoProject);
        }
        match work {
            Ok(work) => Ok(work),
            Err(message) => Err(ProjectSessionError::Action(message)),
        }
    }

    /// The pool of materials, as the controller gave it.
    pub fn material_pool_snapshot<W>(&self, pool: W) -> (r: Result<W, ProjectSessionError>)
        ensures
            r == match self@.controller {
                None => Err::<W, ProjectSessionError>(ProjectSessionError::NoProject),
                Some(_) => Ok(pool),
            },
    {
        if self.controller.is_none() {
            return Err(ProjectSessionError::NoProject);
        }
        Ok(pool)
    }

    // ----- comparisons ----------------------------------------------------

    /// The comparisons of the document that are kept, where any were made.
    pub fn interpretations(&self) -> (r: Option<Arc<InterpretationStore>>)
        ensures
            r == self@.interpretations,
    {
        match &self.interpretations {
            Some(store) => Some(store.clone()),
            None => None,
        }
    }

    /// Takes the comparisons that the workspace keeps for the document now.
    pub fn adopt_interpretations(&mut self, store: Arc<InterpretationStore>)
        requires
            old(self).wf(),
        ensures
            final(self).wf(),
            final(self)@ == (SessionView { interpretations: Some(store), ..old(self)@ }),
    {
        self.interpretations = Some(store);
    }

    // ----- linked views ---------------------------------------------------

    /// Takes what the router holds after it was asked to let a view share its state, or
    /// why it refused.
    pub fn register_linked_view(&mut self, reply: Result<ViewLinkRegistry, ViewLinkError>) -> (r:
        Result<(), ProjectSessionError>)
        requires
            old(self).wf(),
        ensures
            final(self).wf(),
            match reply {
                Err(error) => r == Err::<(), ProjectSessionError>(ProjectSessionError::Links(error))
                    && final(self)@ == old(self)@,
                Ok(registry) => r == Ok::<(), ProjectSessionError>(()) && final(self)@ == (
                SessionView { links: registry.views@, ..old(self)@ }),
            },
    {
        match reply {
            Ok(registry) => {
                self.links = registry;
                Ok(())
            },
            Err(error) => Err(ProjectSessionError::Links(error)),
        }
    }

    /// Takes what the router holds after it let go of a view; nothing where it did not
    /// know the view. Whether it did.
    pub fn unregister_linked_view(&mut self, reply: Option<ViewLinkRegistry>) -> (r: bool)
        requires
            old(self).wf(),
        ensures
            final(self).wf(),
            r == (reply is Some),
            final(self)@ == match reply {
                Some(registry) => SessionView { links: registry.views@, ..old(self)@ },
                None => old(self)@,
            },
    {
        match reply {
            Some(registry) => {
                self.links = registry;
                true
            },
            None => false,
        }
    }

    /// Reports what the router delivered for a view.
    pub fn publish_linked_view_state(
        &mut self,
        deliveries: Result<Arc<Vec<ViewLinkDelivery>>, ViewLinkError>,
    ) -> (r: Result<Arc<Vec<ViewLinkDelivery>>, ProjectSessionError>)
        requires
            old(self).wf(),
        ensures
            final(self).wf(),
            match deliveries {
                Err(error) => r == Err::<Arc<Vec<ViewLinkDelivery>>, ProjectSessionError>(
                    ProjectSessionError::Links(error),
                ) && final(self)@ == old(self)@,
                Ok(list) => {
                    &&& r == Ok::<Arc<Vec<ViewLinkDelivery>>, ProjectSessionError>(list)
                    &&& final(self)@ == if list@.len() == 0 {
                        old(self)@
                    } else {
                        logged(old(self)@, ProjectSessionEvent::LinkedViews(list))
                    }
                },
            },
    {
        match deliveries {
            Err(error) => Err(ProjectSessionError::Links(error)),
            Ok(list) => {
                if list.len() > 0 {
                    self.events.push(ProjectSessionEvent::LinkedViews(list.clone()));
                }
                Ok(list)
            },
        }
    }

    // ----- the document ---------------------------------------------------

    /// Drops the document; another one is being loaded.
    pub fn begin_loading(&mut self, source: String)
        requires
            old(self).wf(),
        ensures
            final(self).wf(),
            final(self)@ == logged(
                SessionView {
                    controller: None,
                    published: ProjectReadSnapshot {
                        generation: next_number(old(self)@.published.generation),
                        lifecycle: ProjectLifecycle::Loading { source },
                        project: None,
                        analysis: None,
                    },
                    interpretations: None,
                    ..old(self)@
                },
                ProjectSessionEvent::LifecycleChanged(ProjectLifecycle::Loading { source }),
            ),
    {
        self.interpretations = None;
        self.controller = None;
        self.published.project = None;
        self.published.analysis = None;
        self.published.generation = following(self.published.generation);
        self.published.lifecycle = ProjectLifecycle::Loading { source };
        self.events.push(
            ProjectSessionEvent::LifecycleChanged(self.published.lifecycle.clone()),
        );
    }

    /// Installs a document. Whether it can be installed or not, the comparisons of the
    /// one before are let go.
    pub fn install(
        &mut self,
        controller: Result<ProjectController, String>,
        analysis: Option<AnalysisHandle>,
    ) -> (r: Result<ProjectRevisions, ProjectSessionError>)
        requires
            old(self).wf(),
        ensures
            final(self).wf(),
            match controller {
                Err(message) => r == Err::<ProjectRevisions, ProjectSessionError>(
                    ProjectSessionError::Controller(message),
                ) && final(self)@ == uninterpreted(old(self)@),
                Ok(controller) => r == Ok::<ProjectRevisions, ProjectSessionError>(
                    controller.snapshot.revisions,
                ) && final(self)@ == installed(old(self)@, controller, analysis),
            },
    {
        self.interpretations = None;
        let controller = match controller {
            Ok(controller) => controller,
            Err(message) => {
                return Err(ProjectSessionError::Controller(message));
            },
        };
        let snapshot = controller.snapshot.clone();
        let revisions = snapshot.revisions;
        self.document_generation = following(self.document_generation);
        if self.document_generation == 0 {
            self.document_generation = 1;
        }
        self.controller = Some(controller);
        let generation: u64 = following(self.published.generation);
        self.published = ProjectReadSnapshot {
            generation,
            lifecycle: ProjectLifecycle::Ready,
            project: Some(snapshot.clone()),
            analysis,
        };
        self.events.push(ProjectSessionEvent::LifecycleChanged(ProjectLifecycle::Ready));
        self.events.push(
            ProjectSessionEvent::ProjectPublished(
                ProjectPublication { generation, revisions, snapshot, change_set: None },
            ),
        );
        self.events.push(
            ProjectSessionEvent::HistoryChanged {
                can_undo: false,
                can_redo: false,
                undo_label: None,
                redo_label: None,
                journal_sequence: 0,
            },
        );
        Ok(revisions)
    }

    /// Replaces the analysis. This is no edit.
    pub fn replace_analysis_snapshot(&mut self, analysis: AnalysisHandle)
        requires
            old(self).wf(),
        ensures
            final(self).wf(),
            final(self)@ == (SessionView {
                published: ProjectReadSnapshot {
                    analysis: Some(analysis),
                    ..old(self)@.published
                },
                ..old(self)@
            }),
    {
        self.published.analysis = Some(analysis);
    }

    /// Publishes the controller's project again.
    pub fn refresh_published(&mut self, change_set: Option<Arc<ChangeSet>>) -> (r: Result<
        ProjectRevisions,
        ProjectSessionError,
    >)
        requires
            old(self).wf(),
        ensures
            final(self).wf(),
            match old(self)@.controller {
                None => r == Err::<ProjectRevisions, ProjectSessionError>(
                    ProjectSessionError::NoProject,
                ) && final(self)@ == old(self)@,
                Some(controller) => r == Ok::<ProjectRevisions, ProjectSessionError>(
                    controller.snapshot.revisions,
                ) && final(self)@ == republished(
                    old(self)@,
                    controller.snapshot,
                    ProjectLifecycle::Ready,
                    change_set,
                ),
            },
    {
        let snapshot = match &self.controller {
            Some(controller) => controller.snapshot.clone(),
            None => {
                return Err(ProjectSessionError::NoProject);
            },
        };
        let revisions = snapshot.revisions;
        let generation: u64 = following(self.published.generation);
        self.published.project = Some(snapshot.clone());
        self.published.generation = generation;
        self.published.lifecycle = ProjectLifecycle::Ready;
        self.events.push(
            ProjectSessionEvent::ProjectPublished(
                ProjectPublication { generation, revisions, snapshot, change_set },
            ),
        );
        Ok(revisions)
    }

    /// Records that loading or working failed.
    pub fn fail(&mut self, message: String)
        requires
            old(self).wf(),
        ensures
            final(self).wf(),
            final(self)@ == logged(
                SessionView {
                    published: ProjectReadSnapshot {
                        generation: next_number(old(self)@.published.generation),
                        lifecycle: ProjectLifecycle::Failed { message },
                        ..old(self)@.published
                    },
                    ..old(self)@
                },
                ProjectSessionEvent::LifecycleChanged(ProjectLifecycle::Failed { message }),
            ),
    {
        let lifecycle = ProjectLifecycle::Failed { message };
        self.published.lifecycle = lifecycle.clone();
        self.published.generation = following(self.published.generation);
        self.events.push(ProjectSessionEvent::LifecycleChanged(lifecycle));
    }

    // ----- edits ----------------------------------------------------------

    fn publish_controller_receipt(
        &mut self,
        controller: ProjectController,
        update: ProjectControllerUpdate,
    ) -> (r: ProjectEditReceipt)
        requires
            old(self).wf(),
        ensures
            final(self).wf(),
            final(self)@ == published_update(old(self)@, controller, update),
            r == receipt_of(old(self)@, controller, update),
    {
        let ProjectControllerUpdate {
            operation,
            snapshot,
            change_set,
            journal_sequence,
        } = update;
        let revisions = snapshot.revisions;
        let generation: u64 = following(self.published.generation);
        self.published.project = Some(snapshot.clone());
        self.published.generation = generation;
        self.published.lifecycle = ProjectLifecycle::Ready;
        let publication = ProjectPublication {
            generation,
            revisions,
            snapshot,
            change_set: Some(change_set.clone()),
        };
        self.events.push(ProjectSessionEvent::ProjectPublished(publication.clone()));
        let history = controller.history.clone();
        self.controller = Some(controller);
        self.events.push(
            ProjectSessionEvent::HistoryChanged {
                can_undo: history.can_undo,
                can_redo: history.can_redo,
                undo_label: copy_optional_text(&history.undo_label),
                redo_label: copy_optional_text(&history.redo_label),
                journal_sequence,
            },
        );
        ProjectEditReceipt { operation, publication, change_set, history, journal_sequence }
    }

    fn publish_step(
        &mut self,
        controller: ProjectController,
        update: Option<ProjectControllerUpdate>,
    ) -> (r: Option<ProjectEditReceipt>)
        requires
            old(self).wf(),
        ensures
            final(self).wf(),
            final(self)@ == after_step(old(self)@, controller, update),
            r == step_receipt(old(self)@, controller, update),
    {
        match update {
            Some(update) => Some(self.publish_controller_receipt(controller, update)),
            None => {
                self.controller = Some(controller);
                None
            },
        }
    }

    /// Publishes an edit that the controller made.
    pub fn execute_envelope(&mut self, reply: Result<ControllerReply, String>) -> (r: Result<
        ProjectEditReceipt,
        ProjectSessionError,
    >)
        requires
            old(self).wf(),
        ensures
            final(self).wf(),
            match (old(self)@.controller, reply) {
                (None, _) => r == Err::<ProjectEditReceipt, ProjectSessionError>(
                    ProjectSessionError::NoProject,
                ) && final(self)@ == old(self)@,
                (Some(_), Err(message)) => r == Err::<ProjectEditReceipt, ProjectSessionError>(
                    ProjectSessionError::Controller(message),
                ) && final(self)@ == old(self)@,
                (Some(_), Ok(reply)) => r == Ok::<ProjectEditReceipt, ProjectSessionError>(
                    receipt_of(old(self)@, reply.controller, reply.update),
                ) && final(self)@ == published_update(
                    old(self)@,
                    reply.controller,
                    reply.update,
                ),
            },
    {
        if self.controller.is_none() {
            return Err(ProjectSessionError::NoProject);
        }
        match reply {
            Ok(reply) => Ok(self.publish_controller_receipt(reply.controller, reply.update)),
            Err(message) => Err(ProjectSessionError::Controller(message)),
        }
    }

    /// Publishes an edit and returns its revisions.
    pub fn execute(&mut self, reply: Result<ControllerReply, String>) -> (r: Result<
        ProjectRevisions,
        ProjectSessionError,
    >)
        requires
            old(self).wf(),
        ensures
            final(self).wf(),
            match (old(self)@.controller, reply) {
                (None, _) => r == Err::<ProjectRevisions, ProjectSessionError>(
                    ProjectSessionError::NoProject,
                ) && final(self)@ == old(self)@,
                (Some(_), Err(message)) => r == Err::<ProjectRevisions, ProjectSessionError>(
                    ProjectSessionError::Controller(message),
                ) && final(self)@ == old(self)@,
                (Some(_), Ok(reply)) => r == Ok::<ProjectRevisions, ProjectSessionError>(
                    reply.update.snapshot.revisions,
                ) && final(self)@ == published_update(
                    old(self)@,
                    reply.controller,
                    reply.update,
                ),
            },
    {
        match self.execute_envelope(reply) {
            Ok(receipt) => Ok(receipt.publication.revisions),
            Err(error) => Err(error),
        }
    }

    /// Publishes a batch that the controller executed.
    pub fn execute_batch_with_receipt(&mut self, reply: Result<ControllerReply, String>) -> (r:
        Result<ProjectEditReceipt, ProjectSessionError>)
        requires
            old(self).wf(),
        ensures
            final(self).wf(),
            match (old(self)@.controller, reply) {
                (None, _) => r == Err::<ProjectEditReceipt, ProjectSessionError>(
                    ProjectSessionError::NoProject,
                ) && final(self)@ == old(self)@,
                (Some(_), Err(message)) => r == Err::<ProjectEditReceipt, ProjectSessionError>(
                    ProjectSessionError::Controller(message),
                ) && final(self)@ == old(self)@,
                (Some(_), Ok(reply)) => r == Ok::<ProjectEditReceipt, ProjectSessionError>(
                    receipt_of(old(self)@, reply.controller, reply.update),
                ) && final(self)@ == published_update(
                    old(self)@,
                    reply.controller,
                    reply.update,
                ),
            },
    {
        self.execute_envelope(reply)
    }

    /// Publishes a batch and returns its revisions.
    pub fn execute_batch(&mut self, reply: Result<ControllerReply, String>) -> (r: Result<
        ProjectRevisions,
        ProjectSessionError,
    >)
        requires
            old(self).wf(),
        ensures
            final(self).wf(),
            match (old(self)@.controller, reply) {
                (None, _) => r == Err::<ProjectRevisions, ProjectSessionError>(
                    ProjectSessionError::NoProject,
                ) && final(self)@ == old(self)@,
                (Some(_), Err(message)) => r == Err::<ProjectRevisions, ProjectSessionError>(
                    ProjectSessionError::Controller(message),
                ) && final(self)@ == old(self)@,
                (Some(_), Ok(reply)) => r == Ok::<ProjectRevisions, ProjectSessionError>(
                    reply.update.snapshot.revisions,
                ) && final(self)@ == published_update(
                    old(self)@,
                    reply.controller,
                    reply.update,
                ),
            },
    {
        self.execute(reply)
    }

    /// Publishes one edit of a gesture.
    pub fn execute_gesture(&mut self, reply: Result<ControllerReply, String>) -> (r: Result<
        ProjectEditReceipt,
        ProjectSessionError,
    >)
        requires
            old(self).wf(),
        ensures
            final(self).wf(),
            match (old(self)@.controller, reply) {
                (None, _) => r == Err::<ProjectEditReceipt, ProjectSessionError>(
                    ProjectSessionError::NoProject,
                ) && final(self)@ == old(self)@,
                (Some(_), Err(message)) => r == Err::<ProjectEditReceipt, ProjectSessionError>(
                    ProjectSessionError::Controller(message),
                ) && final(self)@ == old(self)@,
                (Some(_), Ok(reply)) => r == Ok::<ProjectEditReceipt, ProjectSessionError>(
                    receipt_of(old(self)@, reply.controller, reply.update),
                ) && final(self)@ == published_update(
                    old(self)@,
                    reply.controller,
                    reply.update,
                ),
            },
    {
        self.execute_envelope(reply)
    }

    /// Publishes a journal record that the controller replayed together with the
    /// samples it needs: there is no publication in between.
    pub fn replay_record_with_asset_pcm(&mut self, reply: Result<ControllerReply, String>) -> (r:
        Result<ProjectEditReceipt, ProjectSessionError>)
        requires
            old(self).wf(),
        ensures
            final(self).wf(),
            match (old(self)@.controller, reply) {
                (None, _) => r == Err::<ProjectEditReceipt, ProjectSessionError>(
                    ProjectSessionError::NoProject,
                ) && final(self)@ == old(self)@,
                (Some(_), Err(message)) => r == Err::<ProjectEditReceipt, ProjectSessionError>(
                    ProjectSessionError::Controller(message),
                ) && final(self)@ == old(self)@,
                (Some(_), Ok(reply)) => r == Ok::<ProjectEditReceipt, ProjectSessionError>(
                    receipt_of(old(self)@, reply.controller, reply.update),
                ) && final(self)@ == published_update(
                    old(self)@,
                    reply.controller,
                    reply.update,
                ),
            },
    {
        self.execute_envelope(reply)
    }

    /// Publishes what a pattern workflow came to. Only edits are published.
    pub fn execute_pattern_workflow(&mut self, reply: Result<PatternWorkflowReply, String>) -> (r:
        Result<PatternWorkflowOutcome, ProjectSessionError>)
        requires
            old(self).wf(),
        ensures
            final(self).wf(),
            match (old(self)@.controller, reply) {
                (None, _) => r == Err::<PatternWorkflowOutcome, ProjectSessionError>(
                    ProjectSessionError::NoProject,
                ) && final(self)@ == old(self)@,
                (Some(_), Err(message)) => r == Err::<PatternWorkflowOutcome, ProjectSessionError>(
                    ProjectSessionError::Action(message),
                ) && final(self)@ == old(self)@,
                (Some(_), Ok(reply)) => r == Ok::<PatternWorkflowOutcome, ProjectSessionError>(
                    reply.outcome,
                ) && final(self)@ == after_step(
                    old(self)@,
                    reply.controller,
                    workflow_update(reply.outcome),
                ),
            },
    {
        if self.controller.is_none() {
            return Err(ProjectSessionError::NoProject);
        }
        let reply = match reply {
            Ok(reply) => reply,
            Err(message) => {
                return Err(ProjectSessionError::Action(message));
            },
        };
        let update = match &reply.outcome {
            PatternWorkflowOutcome::Published(update) => Some(update.clone()),
            PatternWorkflowOutcome::History(Some(update)) => Some(update.clone()),
            _ => None,
        };
        self.publish_step(reply.controller, update);
        Ok(reply.outcome)
    }

    /// Publishes what a sampler action came to. Only edits are published.
    pub fn execute_sample_action(&mut self, reply: Result<SampleActionReply, String>) -> (r: Result<
        SampleActionOutcome,
        ProjectSessionError,
    >)
        requires
            old(self).wf(),
        ensures
            final(self).wf(),
            match (old(self)@.controller, reply) {
                (None, _) => r == Err::<SampleActionOutcome, ProjectSessionError>(
                    ProjectSessionError::NoProject,
                ) && final(self)@ == old(self)@,
                (Some(_), Err(message)) => r == Err::<SampleActionOutcome, ProjectSessionError>(
                    ProjectSessionError::Action(message),
                ) && final(self)@ == old(self)@,
                (Some(_), Ok(reply)) => r == Ok::<SampleActionOutcome, ProjectSessionError>(
                    reply.outcome,
                ) && final(self)@ == after_step(
                    old(self)@,
                    reply.controller,
                    sample_update(reply.outcome),
                ),
            },
    {
        if self.controller.is_none() {
            return Err(ProjectSessionError::NoProject);
        }
        let reply = match reply {
            Ok(reply) => reply,
            Err(message) => {
                return Err(ProjectSessionError::Action(message));
            },
        };
        let update = match &reply.outcome {
            SampleActionOutcome::Published(update) => Some(update.clone()),
            SampleActionOutcome::Ephemeral => None,
        };
        self.publish_step(reply.controller, update);
        Ok(reply.outcome)
    }

    /// Publishes sampler work that was prepared earlier.
    pub fn commit_prepared_sample_action(&mut self, reply: Result<SampleActionReply, String>) -> (r:
        Result<SampleActionOutcome, ProjectSessionError>)
        requires
            old(self).wf(),
        ensures
            final(self).wf(),
            match (old(self)@.controller, reply) {
                (None, _) => r == Err::<SampleActionOutcome, ProjectSessionError>(
                    ProjectSessionError::NoProject,
                ) && final(self)@ == old(self)@,
                (Some(_), Err(message)) => r == Err::<SampleActionOutcome, ProjectSessionError>(
                    ProjectSessionError::Action(message),
                ) && final(self)@ == old(self)@,
                (Some(_), Ok(reply)) => r == Ok::<SampleActionOutcome, ProjectSessionError>(
                    reply.outcome,
                ) && final(self)@ == after_step(
                    old(self)@,
                    reply.controller,
                    sample_update(reply.outcome),
                ),
            },
    {
        self.execute_sample_action(reply)
    }

    /// Publishes a constructive plan that the controller executed.
    pub fn execute_constructive_plan(&mut self, reply: Result<ControllerReply, String>) -> (r:
        Result<ConstructiveOutcome, ProjectSessionError>)
        requires
            old(self).wf(),
        ensures
            final(self).wf(),
            match (old(self)@.controller, reply) {
                (None, _) => r == Err::<ConstructiveOutcome, ProjectSessionError>(
                    ProjectSessionError::NoProject,
                ) && final(self)@ == old(self)@,
                (Some(_), Err(message)) => r == Err::<ConstructiveOutcome, ProjectSessionError>(
                    ProjectSessionError::Action(message),
                ) && final(self)@ == old(self)@,
                (Some(_), Ok(reply)) => r == Ok::<ConstructiveOutcome, ProjectSessionError>(
                    ConstructiveOutcome { update: reply.update },
                ) && final(self)@ == published_update(
                    old(self)@,
                    reply.controller,
                    reply.update,
                ),
            },
    {
        if self.controller.is_none() {
            return Err(ProjectSessionError::NoProject);
        }
        match reply {
            Ok(reply) => {
                let update = reply.update.clone();
                self.publish_controller_receipt(reply.controller, reply.update);
                Ok(ConstructiveOutcome { update })
            },
            Err(message) => Err(ProjectSessionError::Action(message)),
        }
    }

    /// Publishes a range of the primary source as a sample.
    pub fn publish_primary_workbench_range(&mut self, reply: Result<ControllerReply, String>) -> (r:
        Result<ConstructiveOutcome, ProjectSessionError>)
        requires
            old(self).wf(),
        ensures
            final(self).wf(),
            match (old(self)@.controller, reply) {
                (None, _) => r == Err::<ConstructiveOutcome, ProjectSessionError>(
                    ProjectSessionError::NoProject,
                ) && final(self)@ == old(self)@,
                (Some(_), Err(message)) => r == Err::<ConstructiveOutcome, ProjectSessionError>(
                    ProjectSessionError::Action(message),
                ) && final(self)@ == old(self)@,
                (Some(_), Ok(reply)) => r == Ok::<ConstructiveOutcome, ProjectSessionError>(
                    ConstructiveOutcome { update: reply.update },
                ) && final(self)@ == published_update(
                    old(self)@,
                    reply.controller,
                    reply.update,
                ),
            },
    {
        self.execute_constructive_plan(reply)
    }

    /// Publishes the samples of a selection or loop.
    pub fn publish_primary_sample_workflow(&mut self, reply: Result<ControllerReply, String>) -> (r:
        Result<ConstructiveOutcome, ProjectSessionError>)
        requires
            old(self).wf(),
        ensures
            final(self).wf(),
            match (old(self)@.controller, reply) {
                (None, _) => r == Err::<ConstructiveOutcome, ProjectSessionError>(
                    ProjectSessionError::NoProject,
                ) && final(self)@ == old(self)@,
                (Some(_), Err(message)) => r == Err::<ConstructiveOutcome, ProjectSessionError>(
                    ProjectSessionError::Action(message),
                ) && final(self)@ == old(self)@,
                (Some(_), Ok(reply)) => r == Ok::<ConstructiveOutcome, ProjectSessionError>(
                    ConstructiveOutcome { update: reply.update },
                ) && final(self)@ == published_update(
                    old(self)@,
                    reply.controller,
                    reply.update,
                ),
            },
    {
        self.execute_constructive_plan(reply)
    }

    /// Publishes a range of an asset as a sample.
    pub fn publish_workbench_range(&mut self, reply: Result<ControllerReply, String>) -> (r: Result<
        ConstructiveOutcome,
        ProjectSessionError,
    >)
        requires
            old(self).wf(),
        ensures
            final(self).wf(),
            match (old(self)@.controller, reply) {
                (None, _) => r == Err::<ConstructiveOutcome, ProjectSessionError>(
                    ProjectSessionError::NoProject,
                ) && final(self)@ == old(self)@,
                (Some(_), Err(message)) => r == Err::<ConstructiveOutcome, ProjectSessionError>(
                    ProjectSessionError::Action(message),
                ) && final(self)@ == old(self)@,
                (Some(_), Ok(reply)) => r == Ok::<ConstructiveOutcome, ProjectSessionError>(
                    ConstructiveOutcome { update: reply.update },
                ) && final(self)@ == published_update(
                    old(self)@,
                    reply.controller,
                    reply.update,
                ),
            },
    {
        self.execute_constructive_plan(reply)
    }

    /// Publishes what importing an asset came to. Reusing exact content is no
    /// edit and is not published.
    pub fn import_asset(&mut self, reply: Result<AssetImportReply, String>) -> (r: Result<
        ProjectAssetImportReceipt,
        ProjectSessionError,
    >)
        requires
            old(self).wf(),
        ensures
            final(self).wf(),
            match (old(self)@.controller, reply) {
                (None, _) => r == Err::<ProjectAssetImportReceipt, ProjectSessionError>(
                    ProjectSessionError::NoProject,
                ) && final(self)@ == old(self)@,
                (Some(_), Err(message)) => r == Err::<
                    ProjectAssetImportReceipt,
                    ProjectSessionError,
                >(ProjectSessionError::Controller(message)) && final(self)@ == old(self)@,
                (Some(_), Ok(reply)) => r == Ok::<ProjectAssetImportReceipt, ProjectSessionError>(
                    ProjectAssetImportReceipt {
                        asset: reply.asset,
                        disposition: reply.disposition,
                        decoded_pcm: reply.decoded_pcm,
                        duplicate_predecessors: reply.duplicate_predecessors,
                        edit: step_receipt(old(self)@, reply.controller, reply.update),
                    },
                ) && final(self)@ == after_step(old(self)@, reply.controller, reply.update),
            },
    {
        if self.controller.is_none() {
            return Err(ProjectSessionError::NoProject);
        }
        match reply {
            Err(message) => Err(ProjectSessionError::Controller(message)),
            Ok(reply) => {
                let edit = self.publish_step(reply.controller, reply.update);
                Ok(
                    ProjectAssetImportReceipt {
                        asset: reply.asset,
                        disposition: reply.disposition,
                        decoded_pcm: reply.decoded_pcm,
                        duplicate_predecessors: reply.duplicate_predecessors,
                        edit,
                    },
                )
            },
        }
    }

    // ----- history --------------------------------------------------------

    fn step_with_receipt(&mut self, step: Result<ControllerStep, String>) -> (r: Result<
        Option<ProjectEditReceipt>,
        ProjectSessionError,
    >)
        requires
            old(self).wf(),
        ensures
            final(self).wf(),
            match (old(self)@.controller, step) {
                (None, _) => r == Err::<Option<ProjectEditReceipt>, ProjectSessionError>(
                    ProjectSessionError::NoProject,
                ) && final(self)@ == old(self)@,
                (Some(_), Err(message)) => r == Err::<
                    Option<ProjectEditReceipt>,
                    ProjectSessionError,
                >(ProjectSessionError::Controller(message)) && final(self)@ == old(self)@,
                (Some(_), Ok(step)) => r == Ok::<Option<ProjectEditReceipt>, ProjectSessionError>(
                    step_receipt(old(self)@, step.controller, step.update),
                ) && final(self)@ == after_step(old(self)@, step.controller, step.update),
            },
    {
        if self.controller.is_none() {
            return Err(ProjectSessionError::NoProject);
        }
        match step {
            Err(message) => Err(ProjectSessionError::Controller(message)),
            Ok(step) => Ok(self.publish_step(step.controller, step.update)),
        }
    }

    /// Publishes an undo.
    pub fn undo_with_receipt(&mut self, step: Result<ControllerStep, String>) -> (r: Result<
        Option<ProjectEditReceipt>,
        ProjectSessionError,
    >)
        requires
            old(self).wf(),
        ensures
            final(self).wf(),
            match (old(self)@.controller, step) {
                (None, _) => r == Err::<Option<ProjectEditReceipt>, ProjectSessionError>(
                    ProjectSessionError::NoProject,
                ) && final(self)@ == old(self)@,
                (Some(_), Err(message)) => r == Err::<
                    Option<ProjectEditReceipt>,
                    ProjectSessionError,
                >(ProjectSessionError::Controller(message)) && final(self)@ == old(self)@,
                (Some(_), Ok(step)) => r == Ok::<Option<ProjectEditReceipt>, ProjectSessionError>(
                    step_receipt(old(self)@, step.controller, step.update),
                ) && final(self)@ == after_step(old(self)@, step.controller, step.update),
            },
    {
        self.step_with_receipt(step)
    }

    /// Publishes a redo.
    pub fn redo_with_receipt(&mut self, step: Result<ControllerStep, String>) -> (r: Result<
        Option<ProjectEditReceipt>,
        ProjectSessionError,
    >)
        requires
            old(self).wf(),
        ensures
            final(self).wf(),
            match (old(self)@.controller, step) {
                (None, _) => r == Err::<Option<ProjectEditReceipt>, ProjectSessionError>(
                    ProjectSessionError::NoProject,
                ) && final(self)@ == old(self)@,
                (Some(_), Err(message)) => r == Err::<
                    Option<ProjectEditReceipt>,
                    ProjectSessionError,
                >(ProjectSessionError::Controller(message)) && final(self)@ == old(self)@,
                (Some(_), Ok(step)) => r == Ok::<Option<ProjectEditReceipt>, ProjectSessionError>(
                    step_receipt(old(self)@, step.controller, step.update),
                ) && final(self)@ == after_step(old(self)@, step.controller, step.update),
            },
    {
        self.step_with_receipt(step)
    }

    /// Publishes an undo and returns its revisions.
    pub fn undo(&mut self, step: Result<ControllerStep, String>) -> (r: Result<
        Option<ProjectRevisions>,
        ProjectSessionError,
    >)
        requires
            old(self).wf(),
        ensures
            final(self).wf(),
            match (old(self)@.controller, step) {
                (None, _) => r == Err::<Option<ProjectRevisions>, ProjectSessionError>(
                    ProjectSessionError::NoProject,
                ) && final(self)@ == old(self)@,
                (Some(_), Err(message)) => r == Err::<
                    Option<ProjectRevisions>,
                    ProjectSessionError,
                >(ProjectSessionError::Controller(message)) && final(self)@ == old(self)@,
                (Some(_), Ok(step)) => r == Ok::<Option<ProjectRevisions>, ProjectSessionError>(
                    receipt_revisions(step_receipt(old(self)@, step.controller, step.update)),
                ) && final(self)@ == after_step(old(self)@, step.controller, step.update),
            },
    {
        match self.step_with_receipt(step) {
            Err(error) => Err(error),
            Ok(Some(receipt)) => Ok(Some(receipt.publication.revisions)),
            Ok(None) => Ok(None),
        }
    }

    /// Publishes a redo and returns its revisions.
    pub fn redo(&mut self, step: Result<ControllerStep, String>) -> (r: Result<
        Option<ProjectRevisions>,
        ProjectSessionError,
    >)
        requires
            old(self).wf(),
        ensures
            final(self).wf(),
            match (old(self)@.controller, step) {
                (None, _) => r == Err::<Option<ProjectRevisions>, ProjectSessionError>(
                    ProjectSessionError::NoProject,
                ) && final(self)@ == old(self)@,
                (Some(_), Err(message)) => r == Err::<
                    Option<ProjectRevisions>,
                    ProjectSessionError,
                >(ProjectSessionError::Controller(message)) && final(self)@ == old(self)@,
                (Some(_), Ok(step)) => r == Ok::<Option<ProjectRevisions>, ProjectSessionError>(
                    receipt_revisions(step_receipt(old(self)@, step.controller, step.update)),
                ) && final(self)@ == after_step(old(self)@, step.controller, step.update),
            },
    {
        self.undo(step)
    }

    /// Whether the controller may step in its history for a view that last saw a
    /// revision.
    pub fn admit_history(&self, expected_aggregate_revision: u64) -> (r: Result<
        (),
        ProjectSessionError,
    >)
        ensures
            r == match published_revisions(self@.published) {
                None => Err::<(), ProjectSessionError>(ProjectSessionError::NoProject),
                Some(revisions) => if expected_aggregate_revision != revisions.aggregate {
                    Err(
                        ProjectSessionError::RevisionConflict {
                            expected: expected_aggregate_revision,
                            actual: revisions.aggregate,
                        },
                    )
                } else {
                    Ok(())
                },
            },
    {
        match &self.published.project {
            None => Err(ProjectSessionError::NoProject),
            Some(snapshot) => {
                let actual: u64 = snapshot.revisions.aggregate;
                if expected_aggregate_revision != actual {
                    Err(
                        ProjectSessionError::RevisionConflict {
                            expected: expected_aggregate_revision,
                            actual,
                        },
                    )
                } else {
                    Ok(())
                }
            },
        }
    }

    /// Publishes what a mixer or automation view asked for. A history request
    /// for another revision is refused.
    pub fn execute_control_action_for_editor(
        &mut self,
        operation: Result<ControlSessionOperation, String>,
    ) -> (r: Result<Option<ProjectRevisions>, ProjectSessionError>)
        requires
            old(self).wf(),
        ensures
            final(self).wf(),
            control_outcome(old(self)@, operation, r, final(self)@),
    {
        if self.controller.is_none() {
            return Err(ProjectSessionError::NoProject);
        }
        match operation {
            Err(message) => Err(ProjectSessionError::Action(message)),
            Ok(ControlSessionOperation::Execute { reply }) => match self.execute(reply) {
                Ok(revisions) => Ok(Some(revisions)),
                Err(error) => Err(error),
            },
            Ok(
                ControlSessionOperation::History { expected_aggregate_revision, direction, step },
            ) => match self.admit_history(expected_aggregate_revision) {
                Err(error) => Err(error),
                Ok(()) => match direction {
                    HistoryDirection::Undo => self.undo(step),
                    HistoryDirection::Redo => self.redo(step),
                },
            },
        }
    }

    /// Publishes what a mixer or automation view asked for, on behalf of no view
    /// in particular.
    pub fn execute_control_action(
        &mut self,
        operation: Result<ControlSessionOperation, String>,
    ) -> (r: Result<Option<ProjectRevisions>, ProjectSessionError>)
        requires
            old(self).wf(),
        ensures
            final(self).wf(),
            control_outcome(old(self)@, operation, r, final(self)@),
    {
        self.execute_control_action_for_editor(operation)
    }

    // ----- gestures and journal -------------------------------------------

    fn adopt(&mut self, controller: Result<ProjectController, String>) -> (r: Result<
        (),
        ProjectSessionError,
    >)
        requires
            old(self).wf(),
        ensures
            final(self).wf(),
            adopted(old(self)@, controller, r, final(self)@),
    {
        if self.controller.is_none() {
            return Err(ProjectSessionError::NoProject);
        }
        match controller {
            Ok(controller) => {
                self.controller = Some(controller);
                Ok(())
            },
            Err(message) => Err(ProjectSessionError::Controller(message)),
        }
    }

    /// Starts a gesture; the controller gives it a name.
    pub fn begin_gesture<G>(&mut self, controller: ProjectController, gesture: G) -> (r: Result<
        G,
        ProjectSessionError,
    >)
        requires
            old(self).wf(),
        ensures
            final(self).wf(),
            match old(self)@.controller {
                None => r == Err::<G, ProjectSessionError>(ProjectSessionError::NoProject) && final(
                    self)@ == old(self)@,
                Some(_) => r == Ok::<G, ProjectSessionError>(gesture) && final(self)@ == (
                SessionView { controller: Some(controller), ..old(self)@ }),
            },
    {
        match self.adopt(Ok(controller)) {
            Ok(()) => Ok(gesture),
            Err(error) => Err(error),
        }
    }

    /// Ends a gesture.
    pub fn end_gesture(&mut self, controller: Result<ProjectController, String>) -> (r: Result<
        (),
        ProjectSessionError,
    >)
        requires
            old(self).wf(),
        ensures
            final(self).wf(),
            adopted(old(self)@, controller, r, final(self)@),
    {
        self.adopt(controller)
    }

    /// Closes whatever gesture is open.
    pub fn commit_gesture(&mut self, controller: ProjectController) -> (r: Result<
        (),
        ProjectSessionError,
    >)
        requires
            old(self).wf(),
        ensures
            final(self).wf(),
            adopted(old(self)@, Ok(controller), r, final(self)@),
    {
        self.adopt(Ok(controller))
    }

    /// Starts replaying the journal. Nothing is published.
    pub fn begin_journal_replay(&mut self, controller: Result<ProjectController, String>) -> (r:
        Result<(), ProjectSessionError>)
        requires
            old(self).wf(),
        ensures
            final(self).wf(),
            adopted(old(self)@, controller, r, final(self)@),
    {
        self.adopt(controller)
    }

    /// Records that pending records are durable. Nothing is published.
    pub fn acknowledge_autosave_journal(
        &mut self,
        controller: Result<ProjectController, String>,
    ) -> (r: Result<(), ProjectSessionError>)
        requires
            old(self).wf(),
        ensures
            final(self).wf(),
            adopted(old(self)@, controller, r, final(self)@),
    {
        self.adopt(controller)
    }

    /// Records the save of a revision, given what the controller came to when it was
    /// asked for that revision; the project is published again if it was the current
    /// one.
    pub fn mark_saved_if_revision(
        &mut self,
        revision: u64,
        mark: Result<SavedMark, String>,
    ) -> (r: Result<bool, ProjectSessionError>)
        requires
            old(self).wf(),
            mark matches Ok(mark) ==> mark.revision == revision,
        ensures
            final(self).wf(),
            saved_outcome(old(self)@, mark, r, final(self)@),
    {
        if self.controller.is_none() {
            return Err(ProjectSessionError::NoProject);
        }
        let mark = match mark {
            Ok(mark) => mark,
            Err(message) => {
                return Err(ProjectSessionError::Controller(message));
            },
        };
        let snapshot = mark.controller.snapshot.clone();
        self.controller = Some(mark.controller);
        if mark.marked {
            let revisions = snapshot.revisions;
            let generation: u64 = following(self.published.generation);
            self.published.project = Some(snapshot.clone());
            self.published.generation = generation;
            self.events.push(
                ProjectSessionEvent::ProjectPublished(
                    ProjectPublication { generation, revisions, snapshot, change_set: None },
                ),
            );
        }
        Ok(mark.marked)
    }

    // ----- selection ------------------------------------------------------

    fn publish_selection_change(&mut self, changed: bool)
        requires
            old(self).wf(),
        ensures
            final(self).wf(),
            final(self)@ == if changed {
                logged(
                    old(self)@,
                    ProjectSessionEvent::SelectionChanged {
                        revision: old(self)@.selection.revision,
                    },
                )
            } else {
                old(self)@
            },
    {
        if changed {
            self.events.push(
                ProjectSessionEvent::SelectionChanged { revision: self.selection.revision },
            );
        }
    }

    /// Selects something else; whether anything changed.
    pub fn replace_selection(&mut self, selection: ProjectSelection) -> (r: bool)
        requires
            old(self).wf(),
        ensures
            final(self).wf(),
            r == (old(self)@.selection.selection != selection@),
            final(self)@ == reselected(old(self)@, selected(old(self)@.selection, selection@)),
    {
        let changed = self.selection.replace(selection);
        self.publish_selection_change(changed);
        changed
    }

    /// The guard for selections made now.
    pub fn current_selection_guard(&self) -> (r: Result<SelectionGuard, ProjectSessionError>)
        ensures
            r == match current_guard(self@) {
                Some(guard) => Ok::<SelectionGuard, ProjectSessionError>(guard),
                None => Err(ProjectSessionError::NoProject),
            },
    {
        match self.published.revisions() {
            None => Err(ProjectSessionError::NoProject),
            Some(revisions) => Ok(
                SelectionGuard {
                    document: selection_document_id(self.id, self.document_generation),
                    project_revision: revisions.aggregate,
                },
            ),
        }
    }

    /// Selects something that was prepared earlier, if document and revision are
    /// still those it was prepared for.
    pub fn replace_guarded_selection(&mut self, selection: ProjectSelection) -> (r: Result<
        bool,
        ProjectSessionError,
    >)
        requires
            old(self).wf(),
        ensures
            final(self).wf(),
            guarded_outcome(old(self)@, selection@, r, final(self)@),
    {
        let guard = match self.current_selection_guard() {
            Ok(guard) => guard,
            Err(error) => {
                return Err(error);
            },
        };
        match self.selection.replace_guarded(selection, guard.document, guard.project_revision) {
            Err(fault) => Err(ProjectSessionError::Selection(fault)),
            Ok(changed) => {
                self.publish_selection_change(changed);
                Ok(changed)
            },
        }
    }

    /// Selects objects now; the session stamps them with the current guard.
    pub fn replace_object_selection(
        &mut self,
        objects: ObjectSelection,
        provenance: SelectionProvenance,
    ) -> (r: Result<bool, ProjectSessionError>)
        requires
            old(self).wf(),
        ensures
            final(self).wf(),
            objects_outcome(old(self)@, objects, provenance, r, final(self)@),
    {
        let guard = match self.current_selection_guard() {
            Ok(guard) => guard,
            Err(error) => {
                return Err(error);
            },
        };
        let selection = ProjectSelection {
            objects: ObjectSelection {
                primary: objects.primary,
                secondary: objects.secondary,
                guard: Some(guard),
                provenance,
            },
            time: self.selection.selection.time,
            aspect: copy_optional_geometry(&self.selection.selection.aspect),
            signal: self.selection.selection.signal,
            air: Vec::new(),
        };
        assert(selection@ == stamped(self@, objects, provenance, guard));
        self.replace_guarded_selection(selection)
    }

    /// Drops selected objects that the caller did not find, if the selection was
    /// made against the current document and revision.
    pub fn reconcile_guarded_selection(&mut self, live: &Vec<ObjectRef>) -> (r: Result<
        SelectionReconcileReport,
        ProjectSessionError,
    >)
        requires
            old(self).wf(),
            old(self)@.selection.selection.secondary.len() < usize::MAX,
        ensures
            final(self).wf(),
            reconciled_outcome(old(self)@, live@, r, final(self)@),
    {
        let guard = match self.current_selection_guard() {
            Ok(guard) => guard,
            Err(error) => {
                return Err(error);
            },
        };
        let before: u64 = self.selection.revision;
        match self.selection.reconcile_guarded(guard.document, guard.project_revision, live) {
            Err(fault) => Err(ProjectSessionError::Selection(fault)),
            Ok(report) => {
                let changed = self.selection.revision != before;
                self.publish_selection_change(changed);
                Ok(report)
            },
        }
    }

    /// Moves the edit cursor; whether anything changed.
    pub fn set_edit_cursor(&mut self, cursor: EditCursor) -> (r: bool)
        requires
            old(self).wf(),
        ensures
            final(self).wf(),
            r == (old(self)@.selection.edit_cursor != cursor),
            final(self)@ == if r {
                reselected(
                    old(self)@,
                    SelectionStateView {
                        revision: next_number(old(self)@.selection.revision),
                        edit_cursor: cursor,
                        ..old(self)@.selection
                    },
                )
            } else {
                old(self)@
            },
    {
        let changed = self.selection.set_edit_cursor(cursor);
        self.publish_selection_change(changed);
        changed
    }

    // ----- status ---------------------------------------------------------

    /// Replaces what is heard; whether anything changed.
    pub fn set_audio_status(&mut self, status: ProjectAudioStatus) -> (r: bool)
        requires
            old(self).wf(),
        ensures
            final(self).wf(),
            r == (old(self)@.audio@ != status@),
            final(self)@ == if r {
                logged(
                    SessionView { audio: status, ..old(self)@ },
                    ProjectSessionEvent::AudioChanged(status),
                )
            } else {
                old(self)@
            },
    {
        if self.audio.same(&status) {
            return false;
        }
        self.audio = status.clone();
        self.events.push(ProjectSessionEvent::AudioChanged(status));
        true
    }

    /// Replaces what is reported to the user; whether anything changed.
    pub fn replace_diagnostics(&mut self, diagnostics: Vec<String>) -> (r: bool)
        requires
            old(self).wf(),
        ensures
            final(self).wf(),
            r == (old(self)@.diagnostics != text_views(diagnostics@)),
            final(self)@ == if r {
                logged(
                    SessionView { diagnostics: text_views(diagnostics@), ..old(self)@ },
                    ProjectSessionEvent::DiagnosticsChanged,
                )
            } else {
                old(self)@
            },
    {
        if same_texts(&self.diagnostics, &diagnostics) {
            return false;
        }
        self.diagnostics = diagnostics;
        self.events.push(ProjectSessionEvent::DiagnosticsChanged);
        true
    }

    /// A reader of everything from now on.
    pub fn subscribe(&self, filter: ProjectEventFilter) -> (r: ProjectEventSubscription)
        ensures
            r.wanted() == filter,
            r.next() == self@.events.next_sequence,
    {
        self.events.subscribe(filter)
    }

    /// Reads what a reader has not read yet.
    pub fn poll_events(&self, subscription: &mut ProjectEventSubscription) -> (r:
        ProjectEventBatch)
        requires
            self.wf(),
        ensures
            r.events@ == polled(
                self@.events,
                old(subscription).next(),
                old(subscription).wanted(),
            ),
            r.missed_events == (old(subscription).next() < oldest(self@.events)),
            final(subscription).wanted() == old(subscription).wanted(),
            final(subscription).next() == self@.events.next_sequence,
    {
        self.events.poll(subscription)
    }
}

fn same_texts(left: &Vec<String>, right: &Vec<String>) -> (r: bool)
    ensures
        r == (text_views(left@) == text_views(right@)),
{
    assert(text_views(left@).len() == left@.len());
    assert(text_views(right@).len() == right@.len());
    if left.len() != right.len() {
        return false;
    }
    let mut i: usize = 0;
    while i < left.len()
        invariant
            i <= left.len(),
            left@.len() == right@.len(),
            text_views(left@).len() == left@.len(),
            text_views(right@).len() == right@.len(),
            forall|k: int| 0 <= k < i ==> text_views(left@)[k] == text_views(right@)[k],
        decreases left.len() - i,
    {
        assert(text_views(left@)[i as int] == left@[i as int]@);
        assert(text_views(right@)[i as int] == right@[i as int]@);
        if !same_text(left[i].as_str(), right[i].as_str()) {
            return false;
        }
        i = i + 1;
    }
    assert(text_views(left@) =~= text_views(right@));
    true
}

/// What becomes of a controller that replaces another without publishing.
pub open spec fn adopted(
    before: SessionView,
    controller: Result<ProjectController, String>,
    outcome: Result<(), ProjectSessionError>,
    after: SessionView,
) -> bool {
    match (before.controller, controller) {
        (None, _) => outcome == Err::<(), ProjectSessionError>(ProjectSessionError::NoProject)
            && after == before,
        (Some(_), Err(message)) => outcome == Err::<(), ProjectSessionError>(
            ProjectSessionError::Controller(message),
        ) && after == before,
        (Some(_), Ok(controller)) => outcome == Ok::<(), ProjectSessionError>(()) && after == (
        SessionView { controller: Some(controller), ..before }),
    }
}

/// What becomes of a control action.
pub open spec fn control_outcome(
    before: SessionView,
    operation: Result<ControlSessionOperation, String>,
    outcome: Result<Option<ProjectRevisions>, ProjectSessionError>,
    after: SessionView,
) -> bool {
    match (before.controller, operation) {
        (None, _) => outcome == Err::<Option<ProjectRevisions>, ProjectSessionError>(
            ProjectSessionError::NoProject,
        ) && after == before,
        (Some(_), Err(message)) => outcome == Err::<Option<ProjectRevisions>, ProjectSessionError>(
            ProjectSessionError::Action(message),
        ) && after == before,
        (Some(_), Ok(ControlSessionOperation::Execute { reply })) => match reply {
            Err(message) => outcome == Err::<Option<ProjectRevisions>, ProjectSessionError>(
                ProjectSessionError::Controller(message),
            ) && after == before,
            Ok(reply) => outcome == Ok::<Option<ProjectRevisions>, ProjectSessionError>(
                Some(reply.update.snapshot.revisions),
            ) && after == published_update(before, reply.controller, reply.update),
        },
        (
            Some(_),
            Ok(
                ControlSessionOperation::History { expected_aggregate_revision, direction, step },
            ),
        ) => match published_revisions(before.published) {
            None => outcome == Err::<Option<ProjectRevisions>, ProjectSessionError>(
                ProjectSessionError::NoProject,
            ) && after == before,
            Some(revisions) => if expected_aggregate_revision != revisions.aggregate {
                outcome == Err::<Option<ProjectRevisions>, ProjectSessionError>(
                    ProjectSessionError::RevisionConflict {
                        expected: expected_aggregate_revision,
                        actual: revisions.aggregate,
                    },
                ) && after == before
            } else {
                match step {
                    Err(message) => outcome == Err::<Option<ProjectRevisions>, ProjectSessionError>(
                        ProjectSessionError::Controller(message),
                    ) && after == before,
                    Ok(step) => outcome == Ok::<Option<ProjectRevisions>, ProjectSessionError>(
                        receipt_revisions(step_receipt(before, step.controller, step.update)),
                    ) && after == after_step(before, step.controller, step.update),
                }
            },
        },
    }
}

/// What becomes of a mark that a revision was saved.
pub open spec fn saved_outcome(
    before: SessionView,
    mark: Result<SavedMark, String>,
    outcome: Result<bool, ProjectSessionError>,
    after: SessionView,
) -> bool {
    match (before.controller, mark) {
        (None, _) => outcome == Err::<bool, ProjectSessionError>(ProjectSessionError::NoProject)
            && after == before,
        (Some(_), Err(message)) => outcome == Err::<bool, ProjectSessionError>(
            ProjectSessionError::Controller(message),
        ) && after == before,
        (Some(_), Ok(mark)) => {
            let adopted = SessionView { controller: Some(mark.controller), ..before };
            &&& outcome == Ok::<bool, ProjectSessionError>(mark.marked)
            &&& after == if mark.marked {
                republished(
                    adopted,
                    mark.controller.snapshot,
                    adopted.published.lifecycle,
                    None,
                )
            } else {
                adopted
            }
        },
    }
}

/// What becomes of a selection when some objects are left.
pub open spec fn reconciled_outcome(
    before: SessionView,
    live: Seq<ObjectRef>,
    outcome: Result<SelectionReconcileReport, ProjectSessionError>,
    after: SessionView,
) -> bool {
    match current_guard(before) {
        None => outcome == Err::<SelectionReconcileReport, ProjectSessionError>(
            ProjectSessionError::NoProject,
        ) && after == before,
        Some(guard) => match guard_fault(
            before.selection.selection.guard,
            guard.document,
            guard.project_revision,
        ) {
            Some(fault) => outcome == Err::<SelectionReconcileReport, ProjectSessionError>(
                ProjectSessionError::Selection(fault),
            ) && after == before,
            None => {
                &&& outcome matches Ok(report)
                &&& report.removed == removed_count(before.selection.selection, live)
                &&& report.primary_removed == primary_gone(
                    before.selection.selection,
                    live,
                )
                &&& after == reselected(
                    before,
                    selected(
                        before.selection,
                        reconciled(before.selection.selection, live),
                    ),
                )
            },
        },
    }
}

/// What becomes of objects that are selected.
pub open spec fn objects_outcome(
    before: SessionView,
    objects: ObjectSelection,
    provenance: SelectionProvenance,
    outcome: Result<bool, ProjectSessionError>,
    after: SessionView,
) -> bool {
    match current_guard(before) {
        None => outcome == Err::<bool, ProjectSessionError>(ProjectSessionError::NoProject)
            && after == before,
        Some(guard) => {
            let selection = stamped(before, objects, provenance, guard);
            &&& outcome == Ok::<bool, ProjectSessionError>(
                before.selection.selection != selection,
            )
            &&& after == reselected(
                before,
                selected(before.selection, selection),
            )
        },
    }
}

/// What becomes of a selection that was prepared earlier.
pub open spec fn guarded_outcome(
    before: SessionView,
    selection: SelectionView,
    outcome: Result<bool, ProjectSessionError>,
    after: SessionView,
) -> bool {
    match current_guard(before) {
        None => outcome == Err::<bool, ProjectSessionError>(ProjectSessionError::NoProject)
            && after == before,
        Some(guard) => match guard_fault(
            selection.guard,
            guard.document,
            guard.project_revision,
        ) {
            Some(fault) => outcome == Err::<bool, ProjectSessionError>(
                ProjectSessionError::Selection(fault),
            ) && after == before,
            None => outcome == Ok::<bool, ProjectSessionError>(
                before.selection.selection != selection,
            ) && after == reselected(before, selected(before.selection, selection)),
        },
    }
}

// ----- laws -------------------------------------------------------------

/// A reader of a session that reads on after `events` were recorded, and no more than
/// there are places for, misses some exactly where there were more than the session
/// keeps. It gets those of the last of them that it asked for, in the order in which
/// they were recorded, and nothing when it reads on right away.
pub proof fn readers_get_the_last_events(
    session: SessionView,
    events: Seq<ProjectSessionEvent>,
    filter: ProjectEventFilter,
)
    requires
        session.events.capacity == EVENT_CAPACITY,
        session.events.events.len() <= EVENT_CAPACITY,
        chained(session.events),
        session.events.events.len() < session.events.next_sequence,
        session.events.next_sequence + events.len() <= u64::MAX,
    ensures
        ({
            let after = pushed_all(session.events, events, events.len() as int);
            let kept = last_of(events, 512);
            &&& (session.events.next_sequence < oldest(after)) == (events.len() > 512)
            &&& polled(after, session.events.next_sequence, filter) == filtered(
                kept,
                filter,
                kept.len() as int,
            )
            &&& orderly(after)
            &&& !(after.next_sequence < oldest(after))
            &&& polled(after, after.next_sequence, filter) == Seq::<ProjectSessionEvent>::empty()
        }),
{
    chains_are_orderly(session.events);
    readers_get_what_they_asked_for(session.events, events, filter);
    reading_again_gives_nothing(pushed_all(session.events, events, events.len() as int), filter);
}

/// Selecting publishes nothing: generation, project and history stay.
pub proof fn selecting_publishes_nothing(session: SessionView, selection: SelectionStateView)
    ensures
        reselected(session, selection).published == session.published,
        reselected(session, selection).controller == session.controller,
        reselected(session, selection).document_generation == session.document_generation,
{
}

/// An edit is published one generation on, and reported as one publication
/// followed by one history, whatever was selected or heard.
pub proof fn an_edit_is_reported_once(
    session: SessionView,
    controller: ProjectController,
    update: ProjectControllerUpdate,
)
    ensures
        ({
            let after = published_update(session, controller, update);
            &&& after.published.generation == next_number(session.published.generation)
            &&& after.published.project == Some(update.snapshot)
            &&& after.selection == session.selection
            &&& after.audio == session.audio
            &&& after.diagnostics == session.diagnostics
            &&& after.events == pushed_all(
                session.events,
                seq![
                    ProjectSessionEvent::ProjectPublished(publication_of(session, update)),
                    history_event(controller.history, update.journal_sequence),
                ],
                2,
            )
        }),
{
    let events = seq![
        ProjectSessionEvent::ProjectPublished(publication_of(session, update)),
        history_event(controller.history, update.journal_sequence),
    ];
    reveal_with_fuel(pushed_all, 3);
    assert(pushed_all(session.events, events, 0) == session.events);
    assert(pushed_all(session.events, events, 1) == pushed(
        session.events,
        events[0],
    ));
}

/// Edits leave the document what it is: only the revision of the guard moves, so
/// a selection prepared before an edit is refused after it.
pub proof fn edits_leave_the_document(
    session: SessionView,
    controller: ProjectController,
    update: ProjectControllerUpdate,
)
    requires
        current_guard(session) is Some,
    ensures
        ({
            let before = current_guard(session)->0;
            let after = current_guard(published_update(session, controller, update));
            &&& after is Some
            &&& after->0.document == before.document
            &&& after->0.project_revision == update.snapshot.revisions.aggregate
            &&& update.snapshot.revisions.aggregate != before.project_revision ==> guard_fault(
                Some(before),
                after->0.document,
                after->0.project_revision,
            ) == Some(
                SelectionGuardError::ProjectRevisionConflict {
                    expected: before.project_revision,
                    actual: update.snapshot.revisions.aggregate,
                },
            )
        }),
{
}

/// Installing a document starts another generation of documents.
pub proof fn installing_starts_a_document(
    session: SessionView,
    controller: ProjectController,
    analysis: Option<AnalysisHandle>,
)
    ensures
        installed(session, controller, analysis).document_generation
            != session.document_generation,
        installed(session, controller, analysis).document_generation != 0,
        installed(session, controller, analysis).published.project == Some(controller.snapshot),
        installed(session, controller, analysis).interpretations is None,
{
}

/// Installing a document ends the selections of the one before: a selection that was
/// prepared for it is refused, at whatever revision the new one is.
pub proof fn selections_end_with_their_document(
    session: SessionView,
    controller: ProjectController,
    analysis: Option<AnalysisHandle>,
)
    requires
        current_guard(session) is Some,
    ensures
        ({
            let before = current_guard(session)->0;
            let after = current_guard(installed(session, controller, analysis));
            &&& after is Some
            &&& after->0.document != before.document
            &&& guard_fault(Some(before), after->0.document, after->0.project_revision) == Some(
                SelectionGuardError::DocumentConflict {
                    expected: before.document,
                    actual: after->0.document,
                },
            )
        }),
{
    the_next_document_has_another_id(session.id, session.document_generation);
}

} // verus!
