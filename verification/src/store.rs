//! Storing a project as a package of files.
//!
//! Files are read and written outside this crate. Here it is decided what to
//! write under which name, what to keep, and what a package holds for recovery.

use std::sync::Arc;

use vstd::prelude::*;
use vstd::string::*;

use crate::rank::{append_text_rank, ranked, sort_by_rank, text_rank, HasRank, Ranked};
use crate::text::{
    append_bool, append_decimal, append_padded, bool_text, chars_of, decimal, owned, padded_decimal,
    same_text,
};

verus! {

/// A file of the package.
#[derive(Debug, PartialEq, Eq)]
pub struct PackagePath {
    pub directory: String,
    pub leaf: String,
}

/// What a path holds.
pub struct PathView {
    pub directory: Seq<char>,
    pub leaf: Seq<char>,
}

impl View for PackagePath {
    type V = PathView;

    open spec fn view(&self) -> PathView {
        PathView { directory: self.directory@, leaf: self.leaf@ }
    }
}

impl Clone for PackagePath {
    fn clone(&self) -> (r: Self)
        ensures
            r == *self,
    {
        PackagePath { directory: self.directory.clone(), leaf: self.leaf.clone() }
    }
}

/// The rank of a path.
pub open spec fn path_rank(path: PathView) -> Seq<u64> {
    text_rank(path.directory) + text_rank(path.leaf)
}

fn append_path_rank(key: &mut Vec<u64>, path: &PackagePath)
    ensures
        final(key)@ == old(key)@ + path_rank(path@),
{
    append_text_rank(key, path.directory.as_str());
    append_text_rank(key, path.leaf.as_str());
    assert(key@ =~= old(key)@ + path_rank(path@));
}

impl HasRank for PathView {
    open spec fn rank(&self) -> Seq<u64> {
        path_rank(*self)
    }
}

impl HasRank for PackagePath {
    open spec fn rank(&self) -> Seq<u64> {
        path_rank(self@)
    }
}

impl Ranked for PackagePath {
    fn rank_key(&self) -> (r: Vec<u64>) {
        let mut key: Vec<u64> = Vec::new();
        append_path_rank(&mut key, self);
        assert(key@ =~= self.rank());
        key
    }
}

impl PackagePath {
    /// Whether two paths are the same.
    pub fn same(&self, other: &PackagePath) -> (r: bool)
        ensures
            r == (self@ == other@),
    {
        same_text(self.directory.as_str(), other.directory.as_str()) && same_text(
            self.leaf.as_str(),
            other.leaf.as_str(),
        )
    }
}

/// What a list of paths holds.
pub open spec fn path_views(list: Seq<PackagePath>) -> Seq<PathView> {
    list.map_values(|p: PackagePath| p@)
}

/// A copy of a list of paths.
pub fn copy_paths(list: &Vec<PackagePath>) -> (r: Vec<PackagePath>)
    ensures
        r@ == list@,
{
    let copy = list.clone();
    assert(copy@ =~= list@);
    copy
}

/// Whether a checkpoint is the project itself or an autosave.
#[derive(Clone, Copy, Debug, PartialEq, Eq, Structural)]
pub enum CheckpointKind {
    Primary,
    Autosave,
}

/// The revision that was saved. A document is marked saved only if it is still at
/// this revision.
#[derive(Clone, Copy, Debug, PartialEq, Eq, Structural)]
pub struct SaveRevisionGuard {
    pub revision: u64,
}

/// Something to tell the user about the package.
#[derive(Debug, PartialEq, Eq)]
pub struct StoreDiagnostic {
    pub path: PackagePath,
    pub code: &'static str,
    pub message: String,
}

/// What a diagnostic holds.
pub struct StoreNote {
    pub path: PathView,
    pub code: Seq<char>,
    pub message: Seq<char>,
}

impl View for StoreDiagnostic {
    type V = StoreNote;

    open spec fn view(&self) -> StoreNote {
        StoreNote { path: self.path@, code: self.code@, message: self.message@ }
    }
}

impl Clone for StoreDiagnostic {
    fn clone(&self) -> (r: Self)
        ensures
            r == *self,
    {
        StoreDiagnostic {
            path: self.path.clone(),
            code: self.code,
            message: self.message.clone(),
        }
    }
}

/// What a list of diagnostics holds.
pub open spec fn store_notes(list: Seq<StoreDiagnostic>) -> Seq<StoreNote> {
    list.map_values(|d: StoreDiagnostic| d@)
}

/// A copy of a list of diagnostics.
pub fn copy_store_diagnostics(list: &Vec<StoreDiagnostic>) -> (r: Vec<StoreDiagnostic>)
    ensures
        r@ == list@,
{
    let copy = list.clone();
    assert(copy@ =~= list@);
    copy
}

/// What a save came to.
#[derive(Debug, PartialEq, Eq)]
pub struct SaveResult {
    pub kind: CheckpointKind,
    pub manifest_path: PackagePath,
    pub revision_guard: SaveRevisionGuard,
    pub payloads_published: usize,
    pub recovery_checkpoints_pruned: usize,
    pub maintenance_diagnostics: Vec<StoreDiagnostic>,
}

/// An autosave that can be recovered.
#[derive(Debug, PartialEq, Eq)]
pub struct RecoveryCheckpoint {
    pub manifest_path: PackagePath,
    pub saved_unix_ms: u64,
    pub base_project_revision: u64,
}

impl Clone for RecoveryCheckpoint {
    fn clone(&self) -> (r: Self)
        ensures
            r == *self,
    {
        RecoveryCheckpoint {
            manifest_path: self.manifest_path.clone(),
            saved_unix_ms: self.saved_unix_ms,
            base_project_revision: self.base_project_revision,
        }
    }
}

/// Newest first: by revision, then by time, then by name.
pub open spec fn checkpoint_rank(checkpoint: RecoveryCheckpoint) -> Seq<u64> {
    seq![
        (u64::MAX - checkpoint.base_project_revision) as u64,
        (u64::MAX - checkpoint.saved_unix_ms) as u64,
    ] + path_rank(checkpoint.manifest_path@)
}

impl HasRank for RecoveryCheckpoint {
    open spec fn rank(&self) -> Seq<u64> {
        checkpoint_rank(*self)
    }
}

impl Ranked for RecoveryCheckpoint {
    fn rank_key(&self) -> (r: Vec<u64>) {
        let mut key: Vec<u64> = Vec::new();
        key.push(u64::MAX - self.base_project_revision);
        key.push(u64::MAX - self.saved_unix_ms);
        append_path_rank(&mut key, &self.manifest_path);
        assert(key@ =~= self.rank());
        key
    }
}

/// How a journal segment ends.
#[derive(Clone, Copy, Debug, PartialEq, Eq, Structural)]
pub enum JournalTail {
    Clean,
    Truncated { offset: u64 },
    Corrupt { offset: u64 },
}

/// One frame of a journal segment.
#[derive(Debug, PartialEq, Eq)]
pub struct JournalFrame {
    pub sequence: u64,
    pub base_revision: u64,
    pub resulting_revision: u64,
    /// The encoded commands.
    pub body: String,
}

/// What a frame holds.
pub struct FrameView {
    pub sequence: u64,
    pub base_revision: u64,
    pub resulting_revision: u64,
    pub body: Seq<char>,
}

impl View for JournalFrame {
    type V = FrameView;

    open spec fn view(&self) -> FrameView {
        FrameView {
            sequence: self.sequence,
            base_revision: self.base_revision,
            resulting_revision: self.resulting_revision,
            body: self.body@,
        }
    }
}

impl JournalFrame {
    /// Whether two frames are the same.
    pub fn same(&self, other: &JournalFrame) -> (r: bool)
        ensures
            r == (self@ == other@),
    {
        self.sequence == other.sequence && self.base_revision == other.base_revision
            && self.resulting_revision == other.resulting_revision && same_text(
            self.body.as_str(),
            other.body.as_str(),
        )
    }
}

/// A segment as far as it could be verified.
#[derive(Debug, PartialEq, Eq)]
pub struct RecoveredSegment {
    pub frames: Vec<Arc<JournalFrame>>,
    pub valid_bytes: u64,
    pub total_bytes: u64,
    pub tail: JournalTail,
}

/// What can be said about a segment.
#[derive(Debug, PartialEq, Eq)]
pub struct JournalRecoveryCandidate {
    pub path: PackagePath,
    pub label: String,
    pub verified_frames: usize,
    pub valid_bytes: u64,
    pub total_bytes: u64,
    pub first_sequence: Option<u64>,
    pub through_sequence: Option<u64>,
    pub base_revision: Option<u64>,
    pub resulting_revision: Option<u64>,
    pub tail: JournalTail,
}

impl Clone for JournalRecoveryCandidate {
    fn clone(&self) -> (r: Self)
        ensures
            r == *self,
    {
        JournalRecoveryCandidate {
            path: self.path.clone(),
            label: self.label.clone(),
            verified_frames: self.verified_frames,
            valid_bytes: self.valid_bytes,
            total_bytes: self.total_bytes,
            first_sequence: self.first_sequence,
            through_sequence: self.through_sequence,
            base_revision: self.base_revision,
            resulting_revision: self.resulting_revision,
            tail: self.tail,
        }
    }
}

/// What a candidate holds.
pub struct CandidateView {
    pub path: PathView,
    pub label: Seq<char>,
    pub verified_frames: nat,
    pub valid_bytes: u64,
    pub total_bytes: u64,
    pub first_sequence: Option<u64>,
    pub through_sequence: Option<u64>,
    pub base_revision: Option<u64>,
    pub resulting_revision: Option<u64>,
    pub tail: JournalTail,
}

impl View for JournalRecoveryCandidate {
    type V = CandidateView;

    open spec fn view(&self) -> CandidateView {
        CandidateView {
            path: self.path@,
            label: self.label@,
            verified_frames: self.verified_frames as nat,
            valid_bytes: self.valid_bytes,
            total_bytes: self.total_bytes,
            first_sequence: self.first_sequence,
            through_sequence: self.through_sequence,
            base_revision: self.base_revision,
            resulting_revision: self.resulting_revision,
            tail: self.tail,
        }
    }
}

/// What a list of candidates holds.
pub open spec fn candidate_views(list: Seq<JournalRecoveryCandidate>) -> Seq<CandidateView> {
    list.map_values(|c: JournalRecoveryCandidate| c@)
}

/// A copy of a list of candidates.
pub fn copy_candidates(list: &Vec<JournalRecoveryCandidate>) -> (r: Vec<JournalRecoveryCandidate>)
    ensures
        r@ == list@,
{
    let copy = list.clone();
    assert(copy@ =~= list@);
    copy
}

/// What a package holds for recovery.
#[derive(Debug, PartialEq, Eq)]
pub struct RecoveryDiscovery {
    pub primary: Option<PackagePath>,
    /// Newest first.
    pub checkpoints: Vec<RecoveryCheckpoint>,
    pub journals: Vec<PackagePath>,
    pub journal_candidates: Vec<JournalRecoveryCandidate>,
    pub diagnostics: Vec<StoreDiagnostic>,
}

impl Default for RecoveryDiscovery {
    fn default() -> (r: Self)
        ensures
            r.primary is None,
            r.checkpoints@ == Seq::<RecoveryCheckpoint>::empty(),
            r.journals@ == Seq::<PackagePath>::empty(),
            r.journal_candidates@ == Seq::<JournalRecoveryCandidate>::empty(),
            r.diagnostics@ == Seq::<StoreDiagnostic>::empty(),
    {
        RecoveryDiscovery {
            primary: None,
            checkpoints: Vec::new(),
            journals: Vec::new(),
            journal_candidates: Vec::new(),
            diagnostics: Vec::new(),
        }
    }
}

/// What the recovery part of a manifest says.
#[derive(Debug, PartialEq, Eq)]
pub struct RecoveryMetadata {
    pub is_autosave: bool,
    pub saved_unix_ms: u64,
    pub base_project_revision: u64,
    pub primary_file_name: Option<String>,
}

/// A directory as it was read.
#[derive(Debug, PartialEq, Eq)]
pub enum DirectoryRead<T> {
    Absent,
    Unreadable(String),
    Entries(Vec<T>),
}

/// A file of the recovery directory as it was read.
#[derive(Debug, PartialEq, Eq)]
pub struct RecoveryFileRead {
    pub path: PackagePath,
    pub content: Result<RecoveryMetadata, String>,
}

/// A file of the journal directory as it was read.
#[derive(Debug, PartialEq, Eq)]
pub struct JournalFileRead {
    pub path: PackagePath,
    pub is_file: bool,
    pub content: Result<Arc<RecoveredSegment>, String>,
}

impl Clone for JournalFileRead {
    fn clone(&self) -> (r: Self)
        ensures
            r == *self,
    {
        JournalFileRead {
            path: self.path.clone(),
            is_file: self.is_file,
            content: match &self.content {
                Ok(segment) => Ok(segment.clone()),
                Err(message) => Err(message.clone()),
            },
        }
    }
}

impl HasRank for JournalFileRead {
    open spec fn rank(&self) -> Seq<u64> {
        path_rank(self.path@)
    }
}

impl Ranked for JournalFileRead {
    fn rank_key(&self) -> (r: Vec<u64>) {
        self.path.rank_key()
    }
}

/// Why the store refuses.
#[derive(Debug, PartialEq, Eq)]
pub enum ProjectStoreError {
    Format(String),
    Envelope(String),
    RevisionMismatch { expected: u64, checkpoint: u64 },
    ImmutablePayloadConflict(PackagePath),
    DuplicatePayload(String),
    InvalidPath(PackagePath),
    InvalidJournalName(String),
    InvalidJournalRetention(usize),
    InvalidRecoveryRetention(usize),
    InvalidRecoveryCheckpoint(PackagePath),
    RecoveryCheckpointMismatch {
        path: PackagePath,
        expected_saved_unix_ms: u64,
        expected_base_revision: u64,
        actual_saved_unix_ms: u64,
        actual_base_revision: u64,
        is_autosave: bool,
    },
    JournalEncode(String),
    Io { path: PackagePath, message: String },
}

/// A path in words.
pub open spec fn path_text(path: PathView) -> Seq<char> {
    path.directory + "/"@ + path.leaf
}

impl PackagePath {
    /// The path in words.
    pub fn text(&self) -> (r: String)
        ensures
            r@ == path_text(self@),
    {
        let mut text = self.directory.clone();
        text.append("/");
        text.append(self.leaf.as_str());
        text
    }
}

impl ProjectStoreError {
    /// The error in words.
    pub open spec fn words(self) -> Seq<char> {
        match self {
            ProjectStoreError::Format(error) => "invalid checkpoint: "@ + error@,
            ProjectStoreError::Envelope(error) => "invalid project JSON: "@ + error@,
            ProjectStoreError::RevisionMismatch { expected, checkpoint } => {
                "save was built for revision "@ + decimal(checkpoint as nat)
                    + ", expected revision "@ + decimal(expected as nat)
            },
            ProjectStoreError::ImmutablePayloadConflict(path) => {
                "immutable payload already exists with different bytes: "@ + path_text(path@)
            },
            ProjectStoreError::DuplicatePayload(key) => {
                "manifest names payload more than once: "@ + key@
            },
            ProjectStoreError::InvalidPath(path) => "invalid storage path: "@ + path_text(path@),
            ProjectStoreError::InvalidJournalName(name) => "invalid journal file name: "@ + name@,
            ProjectStoreError::InvalidJournalRetention(limit) => {
                "journal retention limit must be at least two, got "@ + decimal(limit as nat)
            },
            ProjectStoreError::InvalidRecoveryRetention(limit) => {
                "recovery checkpoint retention limit must be positive, got "@ + decimal(limit as nat)
            },
            ProjectStoreError::InvalidRecoveryCheckpoint(path) => {
                "recovery checkpoint is outside this package's recovery namespace: "@ + path_text(
                    path@,
                )
            },
            ProjectStoreError::RecoveryCheckpointMismatch {
                path,
                expected_saved_unix_ms,
                expected_base_revision,
                actual_saved_unix_ms,
                actual_base_revision,
                is_autosave,
            } => {
                "recovery checkpoint metadata at "@ + path_text(path@)
                    + " does not match its candidate (expected autosave at "@ + decimal(
                    expected_saved_unix_ms as nat,
                ) + " from revision "@ + decimal(expected_base_revision as nat)
                    + "; found autosave="@ + bool_text(is_autosave) + ", saved at "@ + decimal(
                    actual_saved_unix_ms as nat,
                ) + " from revision "@ + decimal(actual_base_revision as nat) + ")"@
            },
            ProjectStoreError::JournalEncode(error) => {
                "encoding compacted journal failed: "@ + error@
            },
            ProjectStoreError::Io { path, message } => {
                "I/O at "@ + path_text(path@) + ": "@ + message@
            },
        }
    }

    /// The error in words.
    pub fn message(&self) -> (r: String)
        ensures
            r@ == self.words(),
    {
        match self {
            ProjectStoreError::Format(error) => with_text("invalid checkpoint: ", error.as_str()),
            ProjectStoreError::Envelope(error) => with_text(
                "invalid project JSON: ",
                error.as_str(),
            ),
            ProjectStoreError::RevisionMismatch { expected, checkpoint } => {
                let mut text = owned("save was built for revision ");
                append_decimal(&mut text, *checkpoint);
                text.append(", expected revision ");
                append_decimal(&mut text, *expected);
                text
            },
            ProjectStoreError::ImmutablePayloadConflict(path) => with_text(
                "immutable payload already exists with different bytes: ",
                path.text().as_str(),
            ),
            ProjectStoreError::DuplicatePayload(key) => with_text(
                "manifest names payload more than once: ",
                key.as_str(),
            ),
            ProjectStoreError::InvalidPath(path) => with_text(
                "invalid storage path: ",
                path.text().as_str(),
            ),
            ProjectStoreError::InvalidJournalName(name) => with_text(
                "invalid journal file name: ",
                name.as_str(),
            ),
            ProjectStoreError::InvalidJournalRetention(limit) => {
                let mut text = owned("journal retention limit must be at least two, got ");
                append_decimal(&mut text, *limit as u64);
                text
            },
            ProjectStoreError::InvalidRecoveryRetention(limit) => {
                let mut text = owned("recovery checkpoint retention limit must be positive, got ");
                append_decimal(&mut text, *limit as u64);
                text
            },
            ProjectStoreError::InvalidRecoveryCheckpoint(path) => with_text(
                "recovery checkpoint is outside this package's recovery namespace: ",
                path.text().as_str(),
            ),
            ProjectStoreError::RecoveryCheckpointMismatch {
                path,
                expected_saved_unix_ms,
                expected_base_revision,
                actual_saved_unix_ms,
                actual_base_revision,
                is_autosave,
            } => {
                let mut text = owned("recovery checkpoint metadata at ");
                text.append(path.text().as_str());
                text.append(" does not match its candidate (expected autosave at ");
                append_decimal(&mut text, *expected_saved_unix_ms);
                text.append(" from revision ");
                append_decimal(&mut text, *expected_base_revision);
                text.append("; found autosave=");
                append_bool(&mut text, *is_autosave);
                text.append(", saved at ");
                append_decimal(&mut text, *actual_saved_unix_ms);
                text.append(" from revision ");
                append_decimal(&mut text, *actual_base_revision);
                text.append(")");
                text
            },
            ProjectStoreError::JournalEncode(error) => with_text(
                "encoding compacted journal failed: ",
                error.as_str(),
            ),
            ProjectStoreError::Io { path, message } => {
                let mut text = with_text("I/O at ", path.text().as_str());
                text.append(": ");
                text.append(message.as_str());
                text
            },
        }
    }
}

fn with_text(start: &str, rest: &str) -> (r: String)
    ensures
        r@ == start@ + rest@,
{
    let mut text = owned(start);
    text.append(rest);
    text
}

// ----- names --------------------------------------------------------------

/// A name that stays within its directory.
pub open spec fn is_safe_leaf(name: Seq<char>) -> bool {
    &&& name.len() > 0
    &&& name != "."@
    &&& name != ".."@
    &&& forall|i: int| 0 <= i < name.len() ==> #[trigger] name[i] != '/' && name[i] != '\\'
}

/// Whether a name stays within its directory.
pub fn safe_leaf_name(name: &str) -> (r: bool)
    ensures
        r == is_safe_leaf(name@),
{
    let chars = chars_of(name);
    if chars.len() == 0 || same_text(name, ".") || same_text(name, "..") {
        return false;
    }
    let mut i: usize = 0;
    while i < chars.len()
        invariant
            i <= chars.len(),
            chars@ == name@,
            forall|k: int| 0 <= k < i ==> #[trigger] name@[k] != '/' && name@[k] != '\\',
        decreases chars.len() - i,
    {
        if chars[i] == '/' || chars[i] == '\\' {
            assert(name@[i as int] == chars@[i as int]);
            return false;
        }
        i = i + 1;
    }
    true
}

/// A name with something before an ending.
pub open spec fn has_extension(name: Seq<char>, ending: Seq<char>) -> bool {
    name.len() > ending.len() && name.skip(name.len() - ending.len()) == ending
}

pub(crate) fn ends_with(name: &str, ending: &str) -> (r: bool)
    ensures
        r == has_extension(name@, ending@),
{
    let chars = chars_of(name);
    let tail = chars_of(ending);
    if chars.len() <= tail.len() {
        return false;
    }
    let first: usize = chars.len() - tail.len();
    let mut i: usize = 0;
    while i < tail.len()
        invariant
            i <= tail.len(),
            chars@ == name@,
            tail@ == ending@,
            first == chars.len() - tail.len(),
            forall|k: int| 0 <= k < i ==> name@[first + k] == ending@[k],
        decreases tail.len() - i,
    {
        if chars[first + i] != tail[i] {
            assert(name@.skip(first as int)[i as int] != ending@[i as int]);
            return false;
        }
        i = i + 1;
    }
    assert(name@.skip(first as int) =~= ending@);
    true
}

/// The name of a segment: the revisions and sequence numbers that it spans.
pub open spec fn segment_name(
    prefix: Seq<char>,
    base_revision: u64,
    resulting_revision: u64,
    first_sequence: u64,
    last_sequence: u64,
) -> Seq<char> {
    prefix + "-r"@ + padded_decimal(base_revision as nat) + "-r"@ + padded_decimal(
        resulting_revision as nat,
    ) + "-s"@ + padded_decimal(first_sequence as nat) + "-s"@ + padded_decimal(
        last_sequence as nat,
    ) + ".audecj"@
}

/// Writes the name of a segment.
pub fn write_segment_name(
    prefix: &str,
    base_revision: u64,
    resulting_revision: u64,
    first_sequence: u64,
    last_sequence: u64,
) -> (r: String)
    ensures
        r@ == segment_name(
            prefix@,
            base_revision,
            resulting_revision,
            first_sequence,
            last_sequence,
        ),
{
    let mut out = owned(prefix);
    out.append("-r");
    append_padded(&mut out, base_revision);
    out.append("-r");
    append_padded(&mut out, resulting_revision);
    out.append("-s");
    append_padded(&mut out, first_sequence);
    out.append("-s");
    append_padded(&mut out, last_sequence);
    out.append(".audecj");
    out
}

// ----- candidates ---------------------------------------------------------

/// How a segment ends, in words.
pub open spec fn tail_text(tail: JournalTail) -> Seq<char> {
    match tail {
        JournalTail::Clean => "clean"@,
        JournalTail::Truncated { .. } => "crash-truncated tail"@,
        JournalTail::Corrupt { .. } => "corrupt tail"@,
    }
}

/// The label of a segment.
pub open spec fn candidate_label(segment: RecoveredSegment) -> Seq<char> {
    let frames = segment.frames@;
    if frames.len() == 0 {
        "No verified commands · "@ + tail_text(segment.tail)
    } else {
        "Commands "@ + decimal(frames[0].sequence as nat) + "–"@ + decimal(
            frames.last().sequence as nat,
        ) + " · revisions "@ + decimal(frames[0].base_revision as nat) + "–"@ + decimal(
            frames.last().resulting_revision as nat,
        ) + " · "@ + tail_text(segment.tail)
    }
}

/// What can be said about a segment. A damaged tail does not hide what comes
/// before it.
pub open spec fn candidate_of(path: PathView, segment: RecoveredSegment) -> CandidateView {
    let frames = segment.frames@;
    let some = frames.len() > 0;
    CandidateView {
        path,
        label: candidate_label(segment),
        verified_frames: frames.len(),
        valid_bytes: segment.valid_bytes,
        total_bytes: segment.total_bytes,
        first_sequence: if some {
            Some(frames[0].sequence)
        } else {
            None
        },
        through_sequence: if some {
            Some(frames.last().sequence)
        } else {
            None
        },
        base_revision: if some {
            Some(frames[0].base_revision)
        } else {
            None
        },
        resulting_revision: if some {
            Some(frames.last().resulting_revision)
        } else {
            None
        },
        tail: segment.tail,
    }
}

fn append_tail(out: &mut String, tail: JournalTail)
    ensures
        final(out)@ == old(out)@ + tail_text(tail),
{
    match tail {
        JournalTail::Clean => {
            out.append("clean");
        },
        JournalTail::Truncated { .. } => {
            out.append("crash-truncated tail");
        },
        JournalTail::Corrupt { .. } => {
            out.append("corrupt tail");
        },
    }
}

/// What can be said about a segment.
pub fn journal_candidate(path: &PackagePath, segment: &RecoveredSegment) -> (r:
    JournalRecoveryCandidate)
    ensures
        r@ == candidate_of(path@, *segment),
{
    let count: usize = segment.frames.len();
    if count == 0 {
        let mut label = owned("No verified commands · ");
        append_tail(&mut label, segment.tail);
        return JournalRecoveryCandidate {
            path: path.clone(),
            label,
            verified_frames: 0,
            valid_bytes: segment.valid_bytes,
            total_bytes: segment.total_bytes,
            first_sequence: None,
            through_sequence: None,
            base_revision: None,
            resulting_revision: None,
            tail: segment.tail,
        };
    }
    let first = &segment.frames[0];
    let last = &segment.frames[count - 1];
    let mut label = owned("Commands ");
    append_decimal(&mut label, first.sequence);
    label.append("–");
    append_decimal(&mut label, last.sequence);
    label.append(" · revisions ");
    append_decimal(&mut label, first.base_revision);
    label.append("–");
    append_decimal(&mut label, last.resulting_revision);
    label.append(" · ");
    append_tail(&mut label, segment.tail);
    assert(label@ =~= candidate_label(*segment));
    JournalRecoveryCandidate {
        path: path.clone(),
        label,
        verified_frames: count,
        valid_bytes: segment.valid_bytes,
        total_bytes: segment.total_bytes,
        first_sequence: Some(first.sequence),
        through_sequence: Some(last.sequence),
        base_revision: Some(first.base_revision),
        resulting_revision: Some(last.resulting_revision),
        tail: segment.tail,
    }
}

// ----- discovery ----------------------------------------------------------

/// Those of the first `i` files that are autosaves.
pub open spec fn autosaves(files: Seq<RecoveryFileRead>, i: int) -> Seq<RecoveryCheckpoint>
    decreases i,
{
    if i <= 0 {
        Seq::empty()
    } else {
        let before = autosaves(files, i - 1);
        let file = files[i - 1];
        match file.content {
            Ok(metadata) => if has_extension(file.path.leaf@, ".json"@) && metadata.is_autosave {
                before.push(
                    RecoveryCheckpoint {
                        manifest_path: file.path,
                        saved_unix_ms: metadata.saved_unix_ms,
                        base_project_revision: metadata.base_project_revision,
                    },
                )
            } else {
                before
            },
            Err(_) => before,
        }
    }
}

/// What is told about the first `i` files of the recovery directory.
pub open spec fn recovery_notes(files: Seq<RecoveryFileRead>, i: int) -> Seq<StoreNote>
    decreases i,
{
    if i <= 0 {
        Seq::empty()
    } else {
        let before = recovery_notes(files, i - 1);
        let file = files[i - 1];
        if !has_extension(file.path.leaf@, ".json"@) {
            before
        } else {
            match file.content {
                Ok(metadata) => if metadata.is_autosave {
                    before
                } else {
                    before.push(
                        StoreNote {
                            path: file.path@,
                            code: "not-autosave"@,
                            message: "recovery manifest does not identify itself as an autosave"@,
                        },
                    )
                },
                Err(message) => before.push(
                    StoreNote {
                        path: file.path@,
                        code: "invalid-recovery"@,
                        message: message@,
                    },
                ),
            }
        }
    }
}

/// Those of the first `i` files that are journal segments.
pub open spec fn segment_files(files: Seq<JournalFileRead>, i: int) -> Seq<JournalFileRead>
    decreases i,
{
    if i <= 0 {
        Seq::empty()
    } else {
        let before = segment_files(files, i - 1);
        if files[i - 1].is_file && has_extension(files[i - 1].path.leaf@, ".audecj"@) {
            before.push(files[i - 1])
        } else {
            before
        }
    }
}

/// The candidates among the first `i` segments.
pub open spec fn candidates(files: Seq<JournalFileRead>, i: int) -> Seq<CandidateView>
    decreases i,
{
    if i <= 0 {
        Seq::empty()
    } else {
        match files[i - 1].content {
            Ok(segment) => candidates(files, i - 1).push(
                candidate_of(files[i - 1].path@, *segment),
            ),
            Err(_) => candidates(files, i - 1),
        }
    }
}

/// What is told about the first `i` segments.
pub open spec fn journal_notes(files: Seq<JournalFileRead>, i: int) -> Seq<StoreNote>
    decreases i,
{
    if i <= 0 {
        Seq::empty()
    } else {
        match files[i - 1].content {
            Ok(_) => journal_notes(files, i - 1),
            Err(message) => journal_notes(files, i - 1).push(
                StoreNote {
                    path: files[i - 1].path@,
                    code: "journal-unreadable"@,
                    message: message@,
                },
            ),
        }
    }
}

/// The paths of segments.
pub open spec fn segment_paths(files: Seq<JournalFileRead>) -> Seq<PathView> {
    files.map_values(|f: JournalFileRead| f.path@)
}

/// A discovery says what two directories hold.
pub open spec fn is_discovery(
    found: RecoveryDiscovery,
    primary: Option<PackagePath>,
    recovery_root: PathView,
    recovery: DirectoryRead<RecoveryFileRead>,
    journal_root: PathView,
    journal: DirectoryRead<JournalFileRead>,
) -> bool {
    let recovery_told = match recovery {
        DirectoryRead::Absent => Seq::empty(),
        DirectoryRead::Unreadable(message) => seq![
            StoreNote {
                path: recovery_root,
                code: "recovery-directory-unreadable"@,
                message: message@,
            },
        ],
        DirectoryRead::Entries(files) => recovery_notes(files@, files@.len() as int),
    };
    let segments = match journal {
        DirectoryRead::Entries(files) => ranked(segment_files(files@, files@.len() as int)),
        _ => Seq::empty(),
    };
    let journal_told = match journal {
        DirectoryRead::Unreadable(message) => seq![
            StoreNote {
                path: journal_root,
                code: "journal-directory-unreadable"@,
                message: message@,
            },
        ],
        _ => journal_notes(segments, segments.len() as int),
    };
    &&& found.primary == primary
    &&& found.checkpoints@ == match recovery {
        DirectoryRead::Entries(files) => ranked(autosaves(files@, files@.len() as int)),
        _ => Seq::empty(),
    }
    &&& path_views(found.journals@) == segment_paths(segments)
    &&& candidate_views(found.journal_candidates@) == candidates(segments, segments.len() as int)
    &&& store_notes(found.diagnostics@) == recovery_told + journal_told
}

fn tell(list: &mut Vec<StoreDiagnostic>, path: PackagePath, code: &'static str, message: String)
    ensures
        store_notes(final(list)@) == store_notes(old(list)@).push(
            StoreNote { path: path@, code: code@, message: message@ },
        ),
{
    let ghost before = store_notes(list@);
    let diagnostic = StoreDiagnostic { path, code, message };
    list.push(diagnostic);
    assert(store_notes(list@) =~= before.push(diagnostic@));
}

fn read_recovery(files: &Vec<RecoveryFileRead>, diagnostics: &mut Vec<StoreDiagnostic>) -> (r: Vec<
    RecoveryCheckpoint,
>)
    requires
        old(diagnostics)@.len() == 0,
    ensures
        r@ == autosaves(files@, files@.len() as int),
        store_notes(final(diagnostics)@) == recovery_notes(files@, files@.len() as int),
{
    let mut out: Vec<RecoveryCheckpoint> = Vec::new();
    let mut i: usize = 0;
    assert(store_notes(diagnostics@) =~= Seq::<StoreNote>::empty());
    while i < files.len()
        invariant
            i <= files.len(),
            out@ == autosaves(files@, i as int),
            store_notes(diagnostics@) == recovery_notes(files@, i as int),
        decreases files.len() - i,
    {
        let file = &files[i];
        if ends_with(file.path.leaf.as_str(), ".json") {
            match &file.content {
                Ok(metadata) => {
                    if metadata.is_autosave {
                        out.push(
                            RecoveryCheckpoint {
                                manifest_path: file.path.clone(),
                                saved_unix_ms: metadata.saved_unix_ms,
                                base_project_revision: metadata.base_project_revision,
                            },
                        );
                    } else {
                        tell(
                            diagnostics,
                            file.path.clone(),
                            "not-autosave",
                            owned("recovery manifest does not identify itself as an autosave"),
                        );
                    }
                },
                Err(message) => {
                    tell(diagnostics, file.path.clone(), "invalid-recovery", message.clone());
                },
            }
        }
        i = i + 1;
    }
    out
}

fn keep_segments(files: &Vec<JournalFileRead>) -> (r: Vec<JournalFileRead>)
    ensures
        r@ == segment_files(files@, files@.len() as int),
{
    let mut out: Vec<JournalFileRead> = Vec::new();
    let mut i: usize = 0;
    while i < files.len()
        invariant
            i <= files.len(),
            out@ == segment_files(files@, i as int),
        decreases files.len() - i,
    {
        if files[i].is_file && ends_with(files[i].path.leaf.as_str(), ".audecj") {
            out.push(files[i].clone());
        }
        i = i + 1;
    }
    out
}

/// Says what a package holds for recovery. Damaged recovery data never hides a
/// good project.
pub(crate) fn survey_recovery(
    primary: Option<PackagePath>,
    recovery_root: &PackagePath,
    recovery: &DirectoryRead<RecoveryFileRead>,
    journal_root: &PackagePath,
    journal: &DirectoryRead<JournalFileRead>,
) -> (r: RecoveryDiscovery)
    ensures
        is_discovery(r, primary, recovery_root@, *recovery, journal_root@, *journal),
{
    let mut diagnostics: Vec<StoreDiagnostic> = Vec::new();
    let checkpoints = match recovery {
        DirectoryRead::Absent => Vec::new(),
        DirectoryRead::Unreadable(message) => {
            tell(
                &mut diagnostics,
                recovery_root.clone(),
                "recovery-directory-unreadable",
                message.clone(),
            );
            Vec::new()
        },
        DirectoryRead::Entries(files) => read_recovery(files, &mut diagnostics),
    };
    let ghost recovery_told = store_notes(diagnostics@);
    assert(recovery is Absent ==> recovery_told =~= Seq::<StoreNote>::empty());
    assert(recovery is Unreadable ==> recovery_told =~= seq![
        StoreNote {
            path: recovery_root@,
            code: "recovery-directory-unreadable"@,
            message: recovery->Unreadable_0@,
        },
    ]);
    proof {
        assert(ranked(Seq::<RecoveryCheckpoint>::empty()) =~= Seq::empty());
    }
    let checkpoints = sort_by_rank(checkpoints);
    let mut journals: Vec<PackagePath> = Vec::new();
    let mut found: Vec<JournalRecoveryCandidate> = Vec::new();
    let segments = match journal {
        DirectoryRead::Entries(files) => sort_by_rank(keep_segments(files)),
        DirectoryRead::Absent => Vec::new(),
        DirectoryRead::Unreadable(message) => {
            tell(
                &mut diagnostics,
                journal_root.clone(),
                "journal-directory-unreadable",
                message.clone(),
            );
            Vec::new()
        },
    };
    let ghost before = store_notes(diagnostics@);
    assert(segments@.len() == 0 ==> segments@ =~= Seq::<JournalFileRead>::empty());
    assert(before =~= before + journal_notes(segments@, 0));
    assert(path_views(journals@) =~= segment_paths(segments@).take(0));
    assert(candidate_views(found@) =~= Seq::<CandidateView>::empty());
    let mut i: usize = 0;
    while i < segments.len()
        invariant
            i <= segments.len(),
            path_views(journals@) == segment_paths(segments@).take(i as int),
            candidate_views(found@) == candidates(segments@, i as int),
            store_notes(diagnostics@) == before + journal_notes(segments@, i as int),
        decreases segments.len() - i,
    {
        let ghost told = store_notes(diagnostics@);
        let ghost listed = candidate_views(found@);
        let ghost paths = path_views(journals@);
        let path = segments[i].path.clone();
        journals.push(path);
        assert(path_views(journals@) =~= paths.push(path@));
        assert(segment_paths(segments@).take(i as int + 1) =~= segment_paths(segments@).take(
            i as int,
        ).push(segments@[i as int].path@));
        match &segments[i].content {
            Ok(segment) => {
                let candidate = journal_candidate(&segments[i].path, segment);
                found.push(candidate);
                assert(candidate_views(found@) =~= listed.push(candidate@));
            },
            Err(message) => {
                tell(
                    &mut diagnostics,
                    segments[i].path.clone(),
                    "journal-unreadable",
                    message.clone(),
                );
            },
        }
        assert(store_notes(diagnostics@) =~= before + journal_notes(segments@, i as int + 1));
        i = i + 1;
    }
    assert(segment_paths(segments@).take(i as int) =~= segment_paths(segments@));
    let result = RecoveryDiscovery {
        primary,
        checkpoints,
        journals,
        journal_candidates: found,
        diagnostics,
    };
    assert(store_notes(result.diagnostics@) =~= recovery_told + (match *journal {
        DirectoryRead::Unreadable(message) => seq![
            StoreNote {
                path: journal_root@,
                code: "journal-directory-unreadable"@,
                message: message@,
            },
        ],
        _ => journal_notes(segments@, segments@.len() as int),
    }));
    result
}

} // verus!
