//! Saving to and loading from one package.
//!
//! Payloads are immutable: a file is written once and never replaced by different
//! bytes. Only the manifest of the project itself is replaced.

use vstd::prelude::*;
use vstd::string::*;

use crate::rank::{ranked, ranked_is_an_ordering, sort_by_rank, HasRank};
use crate::store::{
    has_extension, is_discovery, is_safe_leaf, safe_leaf_name, store_notes, survey_recovery,
    CheckpointKind, DirectoryRead, JournalFileRead, PackagePath, PathView, ProjectStoreError,
    RecoveryCheckpoint, RecoveryDiscovery, RecoveryFileRead, RecoveryMetadata, SaveResult,
    SaveRevisionGuard, StoreDiagnostic, StoreNote,
};
use crate::text::{append_decimal, copy_optional_text, decimal, owned, same_bytes, same_text};

verus! {

/// How many autosaves are kept by default.
pub const DEFAULT_MAX_RECOVERY_CHECKPOINTS: usize = 8;

/// Where the parts of a package are.
#[derive(Debug, PartialEq, Eq)]
pub struct ProjectPackage {
    /// The manifest of the project itself.
    pub manifest: PackagePath,
    /// The directory of the autosaves.
    pub recovery_root: PackagePath,
    /// The directory of the journal segments.
    pub journal_root: PackagePath,
    /// The directory that holds the manifests of autosaves, in words.
    pub recovery_directory: String,
    /// The directory that holds the journal segments, in words.
    pub journal_directory: String,
    /// The name of the package, where it has one.
    pub name: Option<String>,
}

/// The store of one package.
#[derive(Debug, PartialEq, Eq)]
pub struct ProjectStore {
    pub package: ProjectPackage,
}

/// What to write for a save, once all payloads are durable.
#[derive(Debug, PartialEq, Eq)]
pub struct SavePlan {
    pub kind: CheckpointKind,
    pub recovery: RecoveryMetadata,
    pub manifest: PackagePath,
    pub expected_revision: u64,
}

/// The name of the manifest of an autosave.
pub open spec fn autosave_name(revision: u64, saved_unix_ms: u64) -> Seq<char> {
    "r"@ + decimal(revision as nat) + "-"@ + decimal(saved_unix_ms as nat) + ".json"@
}

/// A plan saves a revision as the project itself.
pub open spec fn is_primary_plan(
    plan: SavePlan,
    package: ProjectPackage,
    expected_revision: u64,
) -> bool {
    &&& plan.kind == CheckpointKind::Primary
    &&& plan.recovery == (RecoveryMetadata {
        is_autosave: false,
        saved_unix_ms: 0,
        base_project_revision: 0,
        primary_file_name: None,
    })
    &&& plan.manifest == package.manifest
    &&& plan.expected_revision == expected_revision
}

/// A plan saves a revision as an autosave.
pub open spec fn is_autosave_plan(
    plan: SavePlan,
    package: ProjectPackage,
    expected_revision: u64,
    saved_unix_ms: u64,
) -> bool {
    &&& plan.kind == CheckpointKind::Autosave
    &&& plan.recovery == (RecoveryMetadata {
        is_autosave: true,
        saved_unix_ms,
        base_project_revision: expected_revision,
        primary_file_name: package.name,
    })
    &&& plan.manifest@ == (PathView {
        directory: package.recovery_directory@,
        leaf: autosave_name(expected_revision, saved_unix_ms),
    })
    &&& plan.expected_revision == expected_revision
}

fn check_revision(checkpoint_revision: u64, expected_revision: u64, checked: Result<(), String>) ->
    (r: Result<(), ProjectStoreError>)
    ensures
        r == if checkpoint_revision != expected_revision {
            Err::<(), ProjectStoreError>(
                ProjectStoreError::RevisionMismatch {
                    expected: expected_revision,
                    checkpoint: checkpoint_revision,
                },
            )
        } else {
            match checked {
                Ok(_) => Ok(()),
                Err(message) => Err(ProjectStoreError::Format(message)),
            }
        },
{
    if checkpoint_revision != expected_revision {
        return Err(
            ProjectStoreError::RevisionMismatch {
                expected: expected_revision,
                checkpoint: checkpoint_revision,
            },
        );
    }
    match checked {
        Ok(()) => Ok(()),
        Err(message) => Err(ProjectStoreError::Format(message)),
    }
}

impl ProjectStore {
    /// The store of a package.
    pub fn new(package: ProjectPackage) -> (r: ProjectStore)
        ensures
            r.package == package,
    {
        ProjectStore { package }
    }

    /// The package.
    pub fn package(&self) -> (r: &ProjectPackage)
        ensures
            *r == self.package,
    {
        &self.package
    }

    /// Plans a save of the project itself. A checkpoint of another revision than
    /// the one asked for is refused before anything is written.
    pub fn save_primary(
        &self,
        checkpoint_revision: u64,
        checked: Result<(), String>,
        expected_revision: u64,
    ) -> (r: Result<SavePlan, ProjectStoreError>)
        ensures
            if checkpoint_revision != expected_revision {
                r == Err::<SavePlan, ProjectStoreError>(
                    ProjectStoreError::RevisionMismatch {
                        expected: expected_revision,
                        checkpoint: checkpoint_revision,
                    },
                )
            } else {
                match checked {
                    Err(message) => r == Err::<SavePlan, ProjectStoreError>(
                        ProjectStoreError::Format(message),
                    ),
                    Ok(_) => r matches Ok(plan) && is_primary_plan(
                        plan,
                        self.package,
                        expected_revision,
                    ),
                }
            },
    {
        match check_revision(checkpoint_revision, expected_revision, checked) {
            Err(error) => Err(error),
            Ok(()) => Ok(
                SavePlan {
                    kind: CheckpointKind::Primary,
                    recovery: RecoveryMetadata {
                        is_autosave: false,
                        saved_unix_ms: 0,
                        base_project_revision: 0,
                        primary_file_name: None,
                    },
                    manifest: self.package.manifest.clone(),
                    expected_revision,
                },
            ),
        }
    }

    /// Plans an autosave, labelled as such and never in the place of the project
    /// itself.
    pub fn save_autosave(
        &self,
        checkpoint_revision: u64,
        checked: Result<(), String>,
        expected_revision: u64,
        saved_unix_ms: u64,
    ) -> (r: Result<SavePlan, ProjectStoreError>)
        ensures
            if checkpoint_revision != expected_revision {
                r == Err::<SavePlan, ProjectStoreError>(
                    ProjectStoreError::RevisionMismatch {
                        expected: expected_revision,
                        checkpoint: checkpoint_revision,
                    },
                )
            } else {
                match checked {
                    Err(message) => r == Err::<SavePlan, ProjectStoreError>(
                        ProjectStoreError::Format(message),
                    ),
                    Ok(_) => r matches Ok(plan) && is_autosave_plan(
                        plan,
                        self.package,
                        expected_revision,
                        saved_unix_ms,
                    ),
                }
            },
    {
        match check_revision(checkpoint_revision, expected_revision, checked) {
            Err(error) => Err(error),
            Ok(()) => {
                let mut leaf = owned("r");
                append_decimal(&mut leaf, expected_revision);
                leaf.append("-");
                append_decimal(&mut leaf, saved_unix_ms);
                leaf.append(".json");
                Ok(
                    SavePlan {
                        kind: CheckpointKind::Autosave,
                        recovery: RecoveryMetadata {
                            is_autosave: true,
                            saved_unix_ms,
                            base_project_revision: expected_revision,
                            primary_file_name: copy_optional_text(&self.package.name),
                        },
                        manifest: PackagePath {
                            directory: self.package.recovery_directory.clone(),
                            leaf,
                        },
                        expected_revision,
                    },
                )
            },
        }
    }

    /// A result says what a save by a plan came to.
    pub open spec fn is_save_result(
        &self,
        result: SaveResult,
        plan: SavePlan,
        payloads_published: usize,
        rotation: Result<usize, String>,
    ) -> bool {
        &&& result.kind == plan.kind
        &&& result.manifest_path == plan.manifest
        &&& result.revision_guard.revision == plan.expected_revision
        &&& result.payloads_published == payloads_published
        &&& match (plan.kind, rotation) {
            (CheckpointKind::Primary, _) => result.recovery_checkpoints_pruned == 0
                && result.maintenance_diagnostics@.len() == 0,
            (CheckpointKind::Autosave, Ok(count)) => result.recovery_checkpoints_pruned == count
                && result.maintenance_diagnostics@.len() == 0,
            (CheckpointKind::Autosave, Err(message)) => result.recovery_checkpoints_pruned == 0
                && store_notes(result.maintenance_diagnostics@) == seq![
                StoreNote {
                    path: self.package.recovery_root@,
                    code: "recovery-rotation-failed"@,
                    message: message@,
                },
            ],
        }
    }

    /// Says what a save came to. `rotation` is how many autosaves were removed
    /// after an autosave; a failure there does not undo the save.
    pub fn finish_save(
        &self,
        plan: SavePlan,
        payloads_published: usize,
        rotation: Result<usize, String>,
    ) -> (r: SaveResult)
        ensures
            self.is_save_result(r, plan, payloads_published, rotation),
    {
        let mut diagnostics: Vec<StoreDiagnostic> = Vec::new();
        let mut pruned: usize = 0;
        match (plan.kind, rotation) {
            (CheckpointKind::Primary, _) => {},
            (CheckpointKind::Autosave, Ok(count)) => {
                pruned = count;
            },
            (CheckpointKind::Autosave, Err(message)) => {
                let diagnostic = StoreDiagnostic {
                    path: self.package.recovery_root.clone(),
                    code: "recovery-rotation-failed",
                    message,
                };
                diagnostics.push(diagnostic);
                assert(store_notes(diagnostics@) =~= seq![diagnostic@]);
            },
        }
        SaveResult {
            kind: plan.kind,
            manifest_path: plan.manifest,
            revision_guard: SaveRevisionGuard { revision: plan.expected_revision },
            payloads_published,
            recovery_checkpoints_pruned: pruned,
            maintenance_diagnostics: diagnostics,
        }
    }

    /// A path is that of the journal segment of a name.
    pub open spec fn is_segment_path(&self, path: PackagePath, name: Seq<char>) -> bool {
        path@ == (PathView { directory: self.package.journal_directory@, leaf: name })
    }

    /// Where a journal segment is written, if its name stays in the directory.
    pub fn journal_segment_path(&self, name: &str) -> (r: Result<PackagePath, ProjectStoreError>)
        ensures
            match r {
                Ok(path) => is_safe_leaf(name@) && self.is_segment_path(path, name@),
                Err(error) => {
                    &&& !is_safe_leaf(name@)
                    &&& error matches ProjectStoreError::InvalidJournalName(text)
                    &&& text@ == name@
                },
            },
    {
        if !safe_leaf_name(name) {
            return Err(ProjectStoreError::InvalidJournalName(owned(name)));
        }
        Ok(
            PackagePath {
                directory: self.package.journal_directory.clone(),
                leaf: owned(name),
            },
        )
    }

    /// Whether a path is that of the manifest of an autosave of this package.
    pub open spec fn is_recovery_path(&self, path: PathView) -> bool {
        &&& path.directory == self.package.recovery_directory@
        &&& has_extension(path.leaf, ".json"@)
        &&& is_safe_leaf(path.leaf)
    }

    /// Refuses an autosave that is not in the recovery directory of this package.
    pub fn check_recovery_path(&self, candidate: &RecoveryCheckpoint, is_symlink: bool) -> (r:
        Result<(), ProjectStoreError>)
        ensures
            r == if !self.is_recovery_path(candidate.manifest_path@) || is_symlink {
                Err::<(), ProjectStoreError>(
                    ProjectStoreError::InvalidRecoveryCheckpoint(candidate.manifest_path),
                )
            } else {
                Ok(())
            },
    {
        if !same_text(
            candidate.manifest_path.directory.as_str(),
            self.package.recovery_directory.as_str(),
        ) || !crate::store::ends_with(candidate.manifest_path.leaf.as_str(), ".json")
            || !safe_leaf_name(candidate.manifest_path.leaf.as_str()) || is_symlink {
            return Err(
                ProjectStoreError::InvalidRecoveryCheckpoint(candidate.manifest_path.clone()),
            );
        }
        Ok(())
    }
}

/// How the manifest of an autosave differs from what was chosen.
pub open spec fn recovery_mismatch(candidate: RecoveryCheckpoint, recovery: RecoveryMetadata) ->
    Option<ProjectStoreError> {
    if !recovery.is_autosave || recovery.saved_unix_ms != candidate.saved_unix_ms
        || recovery.base_project_revision != candidate.base_project_revision {
        Some(
            ProjectStoreError::RecoveryCheckpointMismatch {
                path: candidate.manifest_path,
                expected_saved_unix_ms: candidate.saved_unix_ms,
                expected_base_revision: candidate.base_project_revision,
                actual_saved_unix_ms: recovery.saved_unix_ms,
                actual_base_revision: recovery.base_project_revision,
                is_autosave: recovery.is_autosave,
            },
        )
    } else {
        None
    }
}

/// Refuses an autosave whose manifest says something else than was chosen.
pub fn check_recovery_metadata(candidate: &RecoveryCheckpoint, recovery: &RecoveryMetadata) -> (r:
    Result<(), ProjectStoreError>)
    ensures
        r == match recovery_mismatch(*candidate, *recovery) {
            Some(error) => Err::<(), ProjectStoreError>(error),
            None => Ok(()),
        },
{
    if !recovery.is_autosave || recovery.saved_unix_ms != candidate.saved_unix_ms
        || recovery.base_project_revision != candidate.base_project_revision {
        return Err(
            ProjectStoreError::RecoveryCheckpointMismatch {
                path: candidate.manifest_path.clone(),
                expected_saved_unix_ms: candidate.saved_unix_ms,
                expected_base_revision: candidate.base_project_revision,
                actual_saved_unix_ms: recovery.saved_unix_ms,
                actual_base_revision: recovery.base_project_revision,
                is_autosave: recovery.is_autosave,
            },
        );
    }
    Ok(())
}

// ----- writing once -------------------------------------------------------

/// What is at a place where something is to be written.
#[derive(Debug, PartialEq, Eq)]
pub enum ExistingFile {
    Absent,
    Present(Vec<u8>),
    Unreadable(String),
}

/// What creating a file as a whole came to.
#[derive(Debug, PartialEq, Eq)]
pub enum Creation {
    Created,
    /// Another writer was first; what it put there, or why that cannot be read.
    Beaten(Result<Vec<u8>, String>),
    Failed { path: PackagePath, message: String },
}

/// What creating a file that must not be replaced comes to: whether it was created
/// here. Another writer that put the same bytes there is as good.
pub open spec fn created_once(path: PackagePath, creation: Creation, bytes: Seq<u8>) -> Result<
    bool,
    ProjectStoreError,
> {
    match creation {
        Creation::Created => Ok(true),
        Creation::Beaten(Ok(there)) => if there@ == bytes {
            Ok(false)
        } else {
            Err(ProjectStoreError::ImmutablePayloadConflict(path))
        },
        Creation::Beaten(Err(message)) => Err(ProjectStoreError::Io { path, message }),
        Creation::Failed { path, message } => Err(ProjectStoreError::Io { path, message }),
    }
}

/// Settles the creation of a file that must not be replaced.
pub fn settle_creation(path: &PackagePath, creation: Creation, bytes: &[u8]) -> (r: Result<
    bool,
    ProjectStoreError,
>)
    ensures
        r == created_once(*path, creation, bytes@),
{
    match creation {
        Creation::Created => Ok(true),
        Creation::Beaten(Ok(there)) => {
            if same_bytes(there.as_slice(), bytes) {
                Ok(false)
            } else {
                Err(ProjectStoreError::ImmutablePayloadConflict(path.clone()))
            }
        },
        Creation::Beaten(Err(message)) => Err(
            ProjectStoreError::Io { path: path.clone(), message },
        ),
        Creation::Failed { path, message } => Err(ProjectStoreError::Io { path, message }),
    }
}

/// What a write that must not replace anything comes to: whether the file has to
/// be created, or a conflict with what is there.
pub open spec fn written_once(path: PackagePath, existing: ExistingFile, bytes: Seq<u8>) -> Result<
    bool,
    ProjectStoreError,
> {
    match existing {
        ExistingFile::Absent => Ok(true),
        ExistingFile::Present(there) => if there@ == bytes {
            Ok(false)
        } else {
            Err(ProjectStoreError::ImmutablePayloadConflict(path))
        },
        ExistingFile::Unreadable(message) => Err(ProjectStoreError::Io { path, message }),
    }
}

/// Decides a write that must not replace anything: whether the file has to be
/// created. The same bytes may be there already; different ones are a conflict.
pub fn write_immutable(path: &PackagePath, existing: &ExistingFile, bytes: &Vec<u8>) -> (r: Result<
    bool,
    ProjectStoreError,
>)
    ensures
        r == written_once(*path, *existing, bytes@),
{
    match existing {
        ExistingFile::Absent => Ok(true),
        ExistingFile::Present(there) => {
            if same_bytes(there.as_slice(), bytes.as_slice()) {
                Ok(false)
            } else {
                Err(ProjectStoreError::ImmutablePayloadConflict(path.clone()))
            }
        },
        ExistingFile::Unreadable(message) => Err(
            ProjectStoreError::Io { path: path.clone(), message: message.clone() },
        ),
    }
}

impl ProjectStore {
    /// Decides the write of generated media, which goes to the media directory and
    /// never replaces anything: whether the file has to be created. `first` is the
    /// first part of the path within the package, `relative`.
    pub fn publish_generated_media(
        &self,
        first: Option<&str>,
        relative: &PackagePath,
        path: &PackagePath,
        existing: &ExistingFile,
        bytes: &Vec<u8>,
    ) -> (r: Result<bool, ProjectStoreError>)
        ensures
            r == match first {
                Some(part) => if part@ == "media"@ {
                    written_once(*path, *existing, bytes@)
                } else {
                    Err::<bool, ProjectStoreError>(ProjectStoreError::InvalidPath(*relative))
                },
                None => Err(ProjectStoreError::InvalidPath(*relative)),
            },
    {
        match first {
            Some(part) => {
                if same_text(part, "media") {
                    return write_immutable(path, existing, bytes);
                }
            },
            None => {},
        }
        Err(ProjectStoreError::InvalidPath(relative.clone()))
    }

    /// Decides the write of a journal segment: where it goes, and whether the file
    /// has to be created. A name stands for one content for ever.
    pub fn write_journal_segment(&self, name: &str, existing: &ExistingFile, bytes: &Vec<u8>) -> (r:
        Result<(PackagePath, bool), ProjectStoreError>)
        ensures
            if is_safe_leaf(name@) {
                exists|path: PackagePath|
                    #![trigger written_once(path, *existing, bytes@)]
                    self.is_segment_path(path, name@) && r == match written_once(path, *existing, bytes@) {
                        Ok(create) => Ok::<(PackagePath, bool), ProjectStoreError>((path, create)),
                        Err(error) => Err(error),
                    }
            } else {
                r matches Err(ProjectStoreError::InvalidJournalName(text)) && text@ == name@
            },
    {
        let path = match self.journal_segment_path(name) {
            Ok(path) => path,
            Err(error) => {
                return Err(error);
            },
        };
        let written = write_immutable(&path, existing, bytes);
        assert(written == written_once(path, *existing, bytes@));
        match written {
            Ok(create) => Ok((path, create)),
            Err(error) => Err(error),
        }
    }
}

// ----- reading payloads ---------------------------------------------------

/// A payload that a manifest names, as it was read.
#[derive(Debug, PartialEq, Eq)]
pub struct PayloadRead {
    pub key: String,
    /// Where the payload is, or why its key names no place.
    pub path: Result<PackagePath, String>,
    pub bytes: Result<Vec<u8>, String>,
}

/// Whether an earlier payload has the key of payload `i`.
pub open spec fn repeats_key(reads: Seq<PayloadRead>, i: int) -> bool {
    exists|j: int| 0 <= j < i && (#[trigger] reads[j]).key@ == reads[i].key@
}

/// What is wrong with the payloads from index `i` on: the first that is nowhere,
/// could not be read, or is named twice.
pub open spec fn payload_fault(reads: Seq<PayloadRead>, i: int) -> Option<ProjectStoreError>
    decreases reads.len() - i,
{
    if i < 0 || i >= reads.len() {
        None
    } else {
        match (reads[i].path, reads[i].bytes) {
            (Err(message), _) => Some(ProjectStoreError::Format(message)),
            (Ok(path), Err(message)) => Some(ProjectStoreError::Io { path, message }),
            (Ok(_), Ok(_)) => if repeats_key(reads, i) {
                Some(ProjectStoreError::DuplicatePayload(reads[i].key))
            } else {
                payload_fault(reads, i + 1)
            },
        }
    }
}

/// Refuses payloads that are nowhere, could not be read, or are named twice.
pub fn check_payloads(reads: &Vec<PayloadRead>) -> (r: Result<(), ProjectStoreError>)
    ensures
        r == match payload_fault(reads@, 0) {
            Some(error) => Err::<(), ProjectStoreError>(error),
            None => Ok(()),
        },
{
    let mut i: usize = 0;
    while i < reads.len()
        invariant
            i <= reads.len(),
            payload_fault(reads@, 0) == payload_fault(reads@, i as int),
        decreases reads.len() - i,
    {
        match (&reads[i].path, &reads[i].bytes) {
            (Err(message), _) => {
                return Err(ProjectStoreError::Format(message.clone()));
            },
            (Ok(path), Err(message)) => {
                return Err(
                    ProjectStoreError::Io { path: path.clone(), message: message.clone() },
                );
            },
            (Ok(_), Ok(_)) => {},
        }
        let mut j: usize = 0;
        while j < i
            invariant
                j <= i < reads.len(),
                payload_fault(reads@, 0) == payload_fault(reads@, i as int),
                reads@[i as int].path is Ok,
                reads@[i as int].bytes is Ok,
                forall|k: int| 0 <= k < j ==> (#[trigger] reads@[k]).key@ != reads@[i as int].key@,
            decreases i - j,
        {
            if same_text(reads[j].key.as_str(), reads[i].key.as_str()) {
                assert(reads@[j as int].key@ == reads@[i as int].key@);
                return Err(ProjectStoreError::DuplicatePayload(reads[i].key.clone()));
            }
            j = j + 1;
        }
        i = i + 1;
    }
    Ok(())
}

/// A manifest as it was read.
#[derive(Debug, PartialEq, Eq)]
pub struct ManifestRead {
    pub recovery: RecoveryMetadata,
    pub diagnostics: Vec<String>,
}

/// A checkpoint that was loaded, with what its manifest says about recovery.
#[derive(Debug, PartialEq, Eq)]
pub struct LoadedCheckpoint<C> {
    pub checkpoint: C,
    pub recovery: RecoveryMetadata,
    pub diagnostics: Vec<String>,
    pub manifest_path: PackagePath,
}

/// What loading a manifest comes to: the first thing that is wrong with the
/// manifest, its payloads or the checkpoint they make, in this order.
pub open spec fn loaded_manifest<C>(
    manifest_path: PackagePath,
    manifest: Result<ManifestRead, ProjectStoreError>,
    reads: Seq<PayloadRead>,
    checkpoint: Result<C, String>,
) -> Result<LoadedCheckpoint<C>, ProjectStoreError> {
    match (manifest, payload_fault(reads, 0), checkpoint) {
        (Err(error), _, _) => Err(error),
        (Ok(_), Some(error), _) => Err(error),
        (Ok(_), None, Err(message)) => Err(ProjectStoreError::Format(message)),
        (Ok(manifest), None, Ok(checkpoint)) => Ok(
            LoadedCheckpoint {
                checkpoint,
                recovery: manifest.recovery,
                diagnostics: manifest.diagnostics,
                manifest_path,
            },
        ),
    }
}

fn load_manifest<C>(
    manifest_path: PackagePath,
    manifest: Result<ManifestRead, ProjectStoreError>,
    reads: &Vec<PayloadRead>,
    checkpoint: Result<C, String>,
) -> (r: Result<LoadedCheckpoint<C>, ProjectStoreError>)
    ensures
        r == loaded_manifest(manifest_path, manifest, reads@, checkpoint),
{
    let manifest = match manifest {
        Ok(manifest) => manifest,
        Err(error) => {
            return Err(error);
        },
    };
    match check_payloads(reads) {
        Ok(()) => {},
        Err(error) => {
            return Err(error);
        },
    }
    match checkpoint {
        Err(message) => Err(ProjectStoreError::Format(message)),
        Ok(checkpoint) => Ok(
            LoadedCheckpoint {
                checkpoint,
                recovery: manifest.recovery,
                diagnostics: manifest.diagnostics,
                manifest_path,
            },
        ),
    }
}

impl ProjectStore {
    /// Loads the project itself from what was read at its manifest.
    pub fn load_primary<C>(
        &self,
        manifest: Result<ManifestRead, ProjectStoreError>,
        reads: &Vec<PayloadRead>,
        checkpoint: Result<C, String>,
    ) -> (r: Result<LoadedCheckpoint<C>, ProjectStoreError>)
        ensures
            r == loaded_manifest(self.package.manifest, manifest, reads@, checkpoint),
    {
        load_manifest(self.package.manifest.clone(), manifest, reads, checkpoint)
    }

    /// The autosave that was chosen, if it is one of the package and says what was chosen.
    pub open spec fn loaded_recovery<C>(
        &self,
        candidate: RecoveryCheckpoint,
        is_symlink: bool,
        manifest: Result<ManifestRead, ProjectStoreError>,
        reads: Seq<PayloadRead>,
        checkpoint: Result<C, String>,
    ) -> Result<LoadedCheckpoint<C>, ProjectStoreError> {
        if !self.is_recovery_path(candidate.manifest_path@) || is_symlink {
            Err::<LoadedCheckpoint<C>, ProjectStoreError>(
                ProjectStoreError::InvalidRecoveryCheckpoint(candidate.manifest_path),
            )
        } else {
            match loaded_manifest(candidate.manifest_path, manifest, reads, checkpoint) {
                Err(error) => Err(error),
                Ok(loaded) => match recovery_mismatch(candidate, loaded.recovery) {
                    Some(error) => Err(error),
                    None => Ok(loaded),
                },
            }
        }
    }

    /// Loads an autosave from what was read at its manifest. One outside the
    /// recovery directory is refused whatever was read, and so is one whose
    /// manifest says something else than was chosen.
    pub fn load_recovery<C>(
        &self,
        candidate: &RecoveryCheckpoint,
        is_symlink: bool,
        manifest: Result<ManifestRead, ProjectStoreError>,
        reads: &Vec<PayloadRead>,
        checkpoint: Result<C, String>,
    ) -> (r: Result<LoadedCheckpoint<C>, ProjectStoreError>)
        ensures
            r == self.loaded_recovery(*candidate, is_symlink, manifest, reads@, checkpoint),
    {
        match self.check_recovery_path(candidate, is_symlink) {
            Ok(()) => {},
            Err(error) => {
                return Err(error);
            },
        }
        let loaded = match load_manifest(
            candidate.manifest_path.clone(),
            manifest,
            reads,
            checkpoint,
        ) {
            Ok(loaded) => loaded,
            Err(error) => {
                return Err(error);
            },
        };
        match check_recovery_metadata(candidate, &loaded.recovery) {
            Ok(()) => Ok(loaded),
            Err(error) => Err(error),
        }
    }

    /// Says what the package holds for recovery. Damaged recovery data never hides a
    /// good project.
    pub fn discover_recovery(
        &self,
        primary_is_file: bool,
        recovery: &DirectoryRead<RecoveryFileRead>,
        journal: &DirectoryRead<JournalFileRead>,
    ) -> (r: RecoveryDiscovery)
        ensures
            is_discovery(
                r,
                if primary_is_file {
                    Some(self.package.manifest)
                } else {
                    None
                },
                self.package.recovery_root@,
                *recovery,
                self.package.journal_root@,
                *journal,
            ),
    {
        let primary = if primary_is_file {
            Some(self.package.manifest.clone())
        } else {
            None
        };
        survey_recovery(
            primary,
            &self.package.recovery_root,
            recovery,
            &self.package.journal_root,
            journal,
        )
    }
}

// ----- rotation -----------------------------------------------------------

/// The autosaves to remove so that the newest so many stay.
pub open spec fn outdated(checkpoints: Seq<RecoveryCheckpoint>, keep: int) -> Seq<
    RecoveryCheckpoint,
> {
    let sorted = ranked(checkpoints);
    if sorted.len() <= keep {
        Seq::empty()
    } else {
        sorted.skip(keep)
    }
}

impl ProjectStore {
    /// Decides which autosaves to remove.
    pub fn rotate_recovery_checkpoints(
        &self,
        checkpoints: Vec<RecoveryCheckpoint>,
        max_checkpoints: usize,
    ) -> (r: Result<Vec<RecoveryCheckpoint>, ProjectStoreError>)
        ensures
            if max_checkpoints == 0 {
                r == Err::<Vec<RecoveryCheckpoint>, ProjectStoreError>(
                    ProjectStoreError::InvalidRecoveryRetention(0),
                )
            } else {
                r matches Ok(list) && list@ == outdated(checkpoints@, max_checkpoints as int)
            },
    {
        if max_checkpoints == 0 {
            return Err(ProjectStoreError::InvalidRecoveryRetention(0));
        }
        let sorted = sort_by_rank(checkpoints);
        let mut out: Vec<RecoveryCheckpoint> = Vec::new();
        let mut i: usize = max_checkpoints;
        while i < sorted.len()
            invariant
                i >= max_checkpoints,
                sorted@.len() > max_checkpoints ==> i <= sorted@.len() && out@ =~= sorted@.subrange(
                    max_checkpoints as int,
                    i as int,
                ),
                sorted@.len() <= max_checkpoints ==> out@.len() == 0,
            decreases sorted.len() - i,
        {
            out.push(sorted[i].clone());
            assert(sorted@.subrange(max_checkpoints as int, i as int + 1) =~= sorted@.subrange(
                max_checkpoints as int,
                i as int,
            ).push(sorted@[i as int]));
            i = i + 1;
        }
        proof {
            if sorted@.len() > max_checkpoints {
                assert(sorted@.subrange(max_checkpoints as int, sorted@.len() as int)
                    =~= sorted@.skip(max_checkpoints as int));
            } else {
                assert(out@ =~= Seq::<RecoveryCheckpoint>::empty());
            }
        }
        Ok(out)
    }
}

// ----- laws -------------------------------------------------------------

/// Rotation removes only what is older: whatever is removed comes after whatever
/// is kept, and exactly so many are kept where there are more.
pub proof fn rotation_keeps_the_newest(
    checkpoints: Seq<RecoveryCheckpoint>,
    keep: int,
    kept: int,
    removed: int,
)
    requires
        1 <= keep,
        0 <= kept < keep,
        0 <= removed < outdated(checkpoints, keep).len(),
    ensures
        outdated(checkpoints, keep).len() == checkpoints.len() - keep,
        !crate::rank::rank_lt(
            outdated(checkpoints, keep)[removed].rank(),
            ranked(checkpoints)[kept].rank(),
        ),
{
    ranked_is_an_ordering(checkpoints);
    let sorted = ranked(checkpoints);
    assert(outdated(checkpoints, keep)[removed] == sorted[keep + removed]);
    assert(crate::rank::is_ranked(sorted));
}

} // verus!
