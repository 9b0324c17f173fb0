//! What the session, the lifecycle and the receipts read of the live project.
//!
//! The controller that owns the project works outside this crate. After every
//! step it hands over what it looks like then.

use std::sync::Arc;

use vstd::prelude::*;

use crate::command::{
    AssetId, BusId, ClipId, LaneId, MediaAliasId, ParameterKey, PatternAliasId, PatternId,
    SequenceClipId, TrackId,
};
use crate::text::{copy_optional_text, same_text};
use crate::source_graph::SourceGraph;

verus! {

/// The revisions of a project.
#[derive(Clone, Copy, Debug, PartialEq, Eq, Structural)]
pub struct ProjectRevisions {
    /// The revision of the whole project.
    pub aggregate: u64,
}

/// A pattern clip of the arrangement and the sequencer clip it plays.
#[derive(Clone, Copy, Debug, PartialEq, Eq, Structural)]
pub struct PatternPlacement {
    pub clip: ClipId,
    pub sequence_clip: SequenceClipId,
}

/// The arrangement's name for a pattern and the pattern.
#[derive(Clone, Copy, Debug, PartialEq, Eq, Structural)]
pub struct PatternDefinition {
    pub alias: PatternAliasId,
    pub pattern: PatternId,
}

/// The arrangement's name for an asset and the asset.
#[derive(Clone, Copy, Debug, PartialEq, Eq, Structural)]
pub struct MediaBinding {
    pub alias: MediaAliasId,
    pub asset: AssetId,
}

/// An automated parameter and its lane.
#[derive(Clone, Copy, Debug, PartialEq, Eq, Structural)]
pub struct LaneBinding {
    pub parameter: ParameterKey,
    pub lane: LaneId,
}

/// A track and the bus it plays into.
#[derive(Clone, Copy, Debug, PartialEq, Eq, Structural)]
pub struct TrackBinding {
    pub track: TrackId,
    pub bus: BusId,
}

/// The bindings of a project and the objects that completion looks up.
#[derive(Debug, PartialEq, Eq)]
pub struct ProjectState {
    pub placements: Vec<PatternPlacement>,
    pub definitions: Vec<PatternDefinition>,
    pub media: Vec<MediaBinding>,
    pub lanes: Vec<LaneBinding>,
    pub tracks: Vec<TrackBinding>,
    pub buses: Vec<BusId>,
    pub automation: Vec<LaneId>,
    pub graph: SourceGraph,
}

/// A project as it was published.
#[derive(Debug, PartialEq, Eq)]
pub struct LiveProjectSnapshot {
    pub revisions: ProjectRevisions,
    pub dirty: bool,
    pub project: Arc<ProjectState>,
}

impl Clone for LiveProjectSnapshot {
    fn clone(&self) -> (r: Self)
        ensures
            r == *self,
    {
        LiveProjectSnapshot {
            revisions: self.revisions,
            dirty: self.dirty,
            project: self.project.clone(),
        }
    }
}

/// The parts that a project is made of.
#[derive(Clone, Copy, Debug, PartialEq, Eq, PartialOrd, Ord, Hash, Structural)]
pub enum ProjectDomain {
    Arrangement,
    Sequencer,
    Mixer,
    Automation,
    SampleKits,
    Assets,
    Bindings,
    Interpretation,
}

/// What an edit changed.
#[derive(Debug, PartialEq, Eq)]
pub struct ChangeSet {
    pub domains: Vec<ProjectDomain>,
}

/// How an edit came about.
#[derive(Clone, Copy, Debug, PartialEq, Eq, Structural)]
pub enum CommandOperation {
    Execute,
    Undo,
    Redo,
}

/// What can be undone and redone.
#[derive(Debug, PartialEq, Eq)]
pub struct ProjectHistoryStatus {
    pub can_undo: bool,
    pub can_redo: bool,
    pub undo_label: Option<String>,
    pub redo_label: Option<String>,
}

impl Clone for ProjectHistoryStatus {
    fn clone(&self) -> (r: Self)
        ensures
            r == *self,
    {
        ProjectHistoryStatus {
            can_undo: self.can_undo,
            can_redo: self.can_redo,
            undo_label: copy_optional_text(&self.undo_label),
            redo_label: copy_optional_text(&self.redo_label),
        }
    }
}

/// How far the journal is durable.
#[derive(Clone, Copy, Debug, PartialEq, Eq, Structural)]
pub struct ProjectJournalCheckpoint {
    pub through_sequence: u64,
    pub project_revision: u64,
}

/// What a command of a journal record does to assets.
#[derive(Clone, Copy, Debug, PartialEq, Eq, Structural)]
pub enum AssetEffect {
    /// Puts an asset; `present` if its media is there afterwards.
    Put { asset: AssetId, present: bool },
    /// Removes an asset.
    Remove { asset: AssetId },
    /// Changes whether the media of an asset is there.
    Availability { asset: AssetId, present: bool },
    /// Leaves assets alone.
    Untouched,
}

/// One record of the command journal.
#[derive(Debug, PartialEq, Eq)]
pub struct CommandJournalRecord {
    pub sequence: u64,
    pub base_revision: u64,
    pub resulting_revision: u64,
    /// The encoded commands.
    pub batch: String,
    /// What each command does to assets.
    pub effects: Vec<AssetEffect>,
}

/// What a record holds.
pub struct JournalRecordView {
    pub sequence: u64,
    pub base_revision: u64,
    pub resulting_revision: u64,
    pub batch: Seq<char>,
    pub effects: Seq<AssetEffect>,
}

impl View for CommandJournalRecord {
    type V = JournalRecordView;

    open spec fn view(&self) -> JournalRecordView {
        JournalRecordView {
            sequence: self.sequence,
            base_revision: self.base_revision,
            resulting_revision: self.resulting_revision,
            batch: self.batch@,
            effects: self.effects@,
        }
    }
}

fn same_effects(left: &Vec<AssetEffect>, right: &Vec<AssetEffect>) -> (r: bool)
    ensures
        r == (left@ == right@),
{
    if left.len() != right.len() {
        return false;
    }
    let mut i: usize = 0;
    while i < left.len()
        invariant
            i <= left.len(),
            left@.len() == right@.len(),
            forall|k: int| 0 <= k < i ==> left@[k] == right@[k],
        decreases left.len() - i,
    {
        if left[i] != right[i] {
            return false;
        }
        i = i + 1;
    }
    assert(left@ =~= right@);
    true
}

impl CommandJournalRecord {
    /// Whether two records are the same.
    pub fn same(&self, other: &CommandJournalRecord) -> (r: bool)
        ensures
            r == (self@ == other@),
    {
        self.sequence == other.sequence && self.base_revision == other.base_revision
            && self.resulting_revision == other.resulting_revision && same_text(
            self.batch.as_str(),
            other.batch.as_str(),
        ) && same_effects(&self.effects, &other.effects)
    }
}

/// The records that are not durable yet.
#[derive(Debug, PartialEq, Eq)]
pub struct ProjectJournalDelta {
    /// How far the journal was durable before.
    pub checkpoint: ProjectJournalCheckpoint,
    pub through_sequence: u64,
    pub resulting_revision: u64,
    pub records: Vec<CommandJournalRecord>,
}

/// What the controller of a project looks like.
#[derive(Debug, PartialEq, Eq)]
pub struct ProjectController {
    pub snapshot: LiveProjectSnapshot,
    pub history: ProjectHistoryStatus,
    pub checkpoint: ProjectJournalCheckpoint,
    pub records: Arc<Vec<CommandJournalRecord>>,
    pub pending: Option<Arc<ProjectJournalDelta>>,
}

/// A step of the controller that changed the project.
#[derive(Debug, PartialEq, Eq)]
pub struct ProjectControllerUpdate {
    pub operation: CommandOperation,
    pub snapshot: LiveProjectSnapshot,
    pub change_set: Arc<ChangeSet>,
    pub journal_sequence: u64,
}

impl Clone for ProjectControllerUpdate {
    fn clone(&self) -> (r: Self)
        ensures
            r == *self,
    {
        ProjectControllerUpdate {
            operation: self.operation,
            snapshot: self.snapshot.clone(),
            change_set: self.change_set.clone(),
            journal_sequence: self.journal_sequence,
        }
    }
}

impl Clone for ProjectController {
    fn clone(&self) -> (r: Self)
        ensures
            r == *self,
    {
        ProjectController {
            snapshot: self.snapshot.clone(),
            history: self.history.clone(),
            checkpoint: self.checkpoint,
            records: self.records.clone(),
            pending: match &self.pending {
                Some(delta) => Some(delta.clone()),
                None => None,
            },
        }
    }
}

/// A step that changed the project, and the controller after it.
#[derive(Debug, PartialEq, Eq)]
pub struct ControllerReply {
    pub controller: ProjectController,
    pub update: ProjectControllerUpdate,
}

impl Clone for ControllerReply {
    fn clone(&self) -> (r: Self)
        ensures
            r == *self,
    {
        ControllerReply { controller: self.controller.clone(), update: self.update.clone() }
    }
}

/// A step that may have changed the project, and the controller after it.
#[derive(Debug, PartialEq, Eq)]
pub struct ControllerStep {
    pub controller: ProjectController,
    pub update: Option<ProjectControllerUpdate>,
}

/// Whether importing an asset made a new one.
#[derive(Clone, Copy, Debug, PartialEq, Eq, Structural)]
pub enum AssetImportDisposition {
    Created,
    ReusedExactContent,
}

/// What importing an asset came to, and the controller after it.
#[derive(Debug, PartialEq, Eq)]
pub struct AssetImportReply {
    pub controller: ProjectController,
    pub asset: AssetId,
    pub disposition: AssetImportDisposition,
    /// The identity of the decoded samples.
    pub decoded_pcm: String,
    pub duplicate_predecessors: Vec<AssetId>,
    pub update: Option<ProjectControllerUpdate>,
}

} // verus!
