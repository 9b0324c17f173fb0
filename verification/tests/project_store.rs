use std::collections::{BTreeMap, BTreeSet};
use std::sync::Arc;

use audec::compacting::{CompactReply, CompactStep};
use audec::compaction::{
    finish_compaction, obsolete_segments, prepare_compaction, Compaction, CompactionStep,
    JournalCompactionResult,
};
use audec::packages::{
    check_payloads, check_recovery_metadata, settle_creation, write_immutable, Creation, ExistingFile, LoadedCheckpoint,
    ManifestRead, PayloadRead, ProjectPackage, ProjectStore,
};
use audec::saving::{SavePayload, SaveReply, SaveRun, SaveStep};
use audec::store::{
    safe_leaf_name, CheckpointKind, DirectoryRead, JournalFileRead, JournalFrame,
    JournalTail, PackagePath, ProjectStoreError, RecoveredSegment,
    RecoveryCheckpoint, RecoveryDiscovery, RecoveryFileRead, RecoveryMetadata,
};

fn path(directory: &str, leaf: &str) -> PackagePath {
    PackagePath {
        directory: directory.into(),
        leaf: leaf.into(),
    }
}

fn store(root: &str) -> ProjectStore {
    ProjectStore::new(ProjectPackage {
        manifest: path(root, "project.json"),
        recovery_root: path(root, "recovery"),
        journal_root: path(root, "journal"),
        recovery_directory: format!("{root}/recovery"),
        journal_directory: format!("{root}/journal"),
        name: Some("project.json".into()),
    })
}

/// Journal segments as a directory keeps them. A frame is written as its sequence
/// number, and a torn frame as nothing at all.
struct Folder {
    store: ProjectStore,
    segments: BTreeMap<String, (Vec<u8>, u64)>,
}

fn frame(sequence: u64) -> Vec<u8> {
    sequence.to_be_bytes().to_vec()
}

fn recover_prefix(bytes: &[u8], torn: u64) -> RecoveredSegment {
    let frames: Vec<Arc<JournalFrame>> = bytes
        .chunks_exact(8)
        .map(|chunk| {
            let sequence = u64::from_be_bytes(chunk.try_into().unwrap());
            Arc::new(JournalFrame {
                sequence,
                base_revision: sequence - 1,
                resulting_revision: sequence,
                body: format!("command {sequence}"),
            })
        })
        .collect();
    let valid = frames.len() as u64 * 8;
    RecoveredSegment {
        frames,
        valid_bytes: valid,
        total_bytes: valid + torn,
        tail: if torn > 0 {
            JournalTail::Truncated { offset: valid }
        } else {
            JournalTail::Clean
        },
    }
}

impl Folder {
    fn new(root: &str) -> Folder {
        Folder {
            store: store(root),
            segments: BTreeMap::new(),
        }
    }

    fn write_journal_segment(
        &mut self,
        name: &str,
        bytes: &[u8],
        torn: u64,
    ) -> Result<PackagePath, ProjectStoreError> {
        let existing = match self.segments.get(name) {
            Some((there, _)) => ExistingFile::Present(there.clone()),
            None => ExistingFile::Absent,
        };
        let (path, create) =
            self.store
                .write_journal_segment(name, &existing, &bytes.to_vec())?;
        if create {
            self.segments.insert(name.into(), (bytes.to_vec(), torn));
        }
        Ok(path)
    }

    fn recovered(&self, path: &PackagePath) -> RecoveredSegment {
        let (bytes, torn) = &self.segments[&path.leaf];
        recover_prefix(bytes, *torn)
    }

    fn discover_recovery(&self) -> RecoveryDiscovery {
        let package = self.store.package();
        let entries = self
            .segments
            .keys()
            .rev()
            .map(|name| {
                let path = path(&package.journal_directory, name);
                JournalFileRead {
                    content: Ok(Arc::new(self.recovered(&path))),
                    path,
                    is_file: true,
                }
            })
            .collect();
        self.store.discover_recovery(
            true,
            &DirectoryRead::Absent,
            &DirectoryRead::Entries(entries),
        )
    }

    fn compact_journal_segments(
        &mut self,
        max_active_segments: usize,
    ) -> Result<JournalCompactionResult, ProjectStoreError> {
        let found = self.discover_recovery();
        let sources = match self
            .store
            .compact_journal_segments(&found, max_active_segments)?
        {
            CompactionStep::Done(result) => return Ok(result),
            CompactionStep::Merge(sources) => sources,
        };
        let contents = sources
            .iter()
            .map(|source| Ok(Arc::new(self.recovered(source))))
            .collect();
        let (name, frames) = match prepare_compaction(&found.journals, &sources, &contents)? {
            Compaction::Skipped(result) => return Ok(result),
            Compaction::Write { name, frames } => (name, frames),
        };
        let bytes: Vec<u8> = frames
            .iter()
            .flat_map(|written| frame(written.sequence))
            .collect();
        let compacted = self.write_journal_segment(&name, &bytes, 0)?;
        for obsolete in obsolete_segments(&sources, &compacted) {
            self.segments.remove(&obsolete.leaf);
        }
        let active = self
            .segments
            .keys()
            .map(|name| path(&self.store.package().journal_directory, name))
            .collect();
        Ok(finish_compaction(
            compacted,
            sources,
            active,
            frames.len(),
        ))
    }
}

#[test]
fn segment_names_are_idempotent_and_never_overwritten() {
    let mut temp = Folder::new("idempotent-journal");
    let bytes = frame(1);
    let first = temp
        .write_journal_segment("commands.audecj", &bytes, 0)
        .unwrap();
    let second = temp
        .write_journal_segment("commands.audecj", &bytes, 0)
        .unwrap();
    assert_eq!(first, second);
    assert!(matches!(
        temp.write_journal_segment("commands.audecj", b"different", 0),
        Err(ProjectStoreError::ImmutablePayloadConflict(_))
    ));
    assert_eq!(temp.segments[&first.leaf].0, bytes);
}

#[test]
fn recovery_load_refuses_a_checkpoint_outside_the_package_namespace() {
    let store = store("foreign-recovery");
    let candidate = RecoveryCheckpoint {
        manifest_path: path("foreign-recovery", "foreign.json"),
        saved_unix_ms: 42,
        base_project_revision: 7,
    };

    assert!(matches!(
        store.check_recovery_path(&candidate, false),
        Err(ProjectStoreError::InvalidRecoveryCheckpoint(path))
            if path == candidate.manifest_path
    ));
}

#[test]
fn discovery_labels_verified_prefix_before_crash_tail() {
    let mut temp = Folder::new("crash-tail");
    temp.write_journal_segment("crashed.audecj", &frame(1), 7)
        .unwrap();
    let discovery = temp.discover_recovery();
    let candidate = &discovery.journal_candidates[0];
    assert_eq!(candidate.verified_frames, 1);
    assert_eq!(candidate.first_sequence, Some(1));
    assert_eq!(candidate.through_sequence, Some(1));
    assert!(candidate.label.contains("crash-truncated tail"));
    assert!(matches!(candidate.tail, JournalTail::Truncated { .. }));
}

#[test]
fn compaction_bounds_segments_without_losing_frames() {
    let mut temp = Folder::new("compact-journal");
    for sequence in 1..=10 {
        temp.write_journal_segment(
            &format!("commands-{sequence:02}.audecj"),
            &frame(sequence),
            0,
        )
        .unwrap();
    }
    let compacted = temp.compact_journal_segments(4).unwrap();
    assert_eq!(compacted.frames_preserved, 7);
    assert_eq!(compacted.active_segments.len(), 4);
    assert!(compacted.compacted_path.is_some());

    let mut sequences = BTreeSet::new();
    for path in &compacted.active_segments {
        let recovered = temp.recovered(path);
        assert_eq!(recovered.tail, JournalTail::Clean);
        sequences.extend(recovered.frames.iter().map(|frame| frame.sequence));
    }
    assert_eq!(sequences, (1..=10).collect());
}

#[test]
fn compaction_leaves_bounded_and_changed_journals_alone() {
    let mut temp = Folder::new("bounded");
    for sequence in 1..=3 {
        temp.write_journal_segment(&format!("c{sequence}.audecj"), &frame(sequence), 0)
            .unwrap();
    }
    let bounded = temp.compact_journal_segments(4).unwrap();
    assert!(bounded.skipped_reason.is_some());
    assert_eq!(bounded.active_segments.len(), 3);
    assert_eq!(
        temp.compact_journal_segments(1),
        Err(ProjectStoreError::InvalidJournalRetention(1))
    );

    let found = temp.discover_recovery();
    let CompactionStep::Merge(sources) = temp.store.compact_journal_segments(&found, 2).unwrap() else {
        panic!("three segments are more than two")
    };
    let torn = sources
        .iter()
        .map(|source| {
            Ok(Arc::new(recover_prefix(
                &temp.segments[&source.leaf].0,
                3,
            )))
        })
        .collect();
    assert!(matches!(
        prepare_compaction(&found.journals, &sources, &torn),
        Ok(Compaction::Skipped(_))
    ));
    let unread = sources.iter().map(|_| Err("gone".to_string())).collect();
    assert!(matches!(
        prepare_compaction(&found.journals, &sources, &unread),
        Err(ProjectStoreError::Io { message, .. }) if message == "gone"
    ));
}

#[test]
fn frames_with_one_number_and_two_contents_are_not_merged() {
    let sources = vec![path("j", "a.audecj"), path("j", "b.audecj")];
    let segment = |body: &str| RecoveredSegment {
        frames: vec![Arc::new(JournalFrame {
            sequence: 1,
            base_revision: 0,
            resulting_revision: 1,
            body: body.into(),
        })],
        valid_bytes: 8,
        total_bytes: 8,
        tail: JournalTail::Clean,
    };
    let conflicting = vec![
        Ok(Arc::new(segment("one"))),
        Ok(Arc::new(segment("another"))),
    ];
    assert!(matches!(
        prepare_compaction(&sources, &sources, &conflicting),
        Ok(Compaction::Skipped(_))
    ));
    let same = vec![Ok(Arc::new(segment("one"))), Ok(Arc::new(segment("one")))];
    let Compaction::Write { frames, .. } = prepare_compaction(&sources, &sources, &same).unwrap()
    else {
        panic!("equal frames are one frame")
    };
    assert_eq!(frames.len(), 1);
}

#[test]
fn discovery_keeps_a_good_project_beside_damage() {
    let metadata = |saved_unix_ms: u64, is_autosave: bool| RecoveryMetadata {
        is_autosave,
        saved_unix_ms,
        base_project_revision: 3,
        primary_file_name: Some("project.json".into()),
    };
    let file = |leaf: &str, content: Result<RecoveryMetadata, String>| RecoveryFileRead {
        path: path("root/recovery", leaf),
        content,
    };
    let found = store("root").discover_recovery(
        true,
        &DirectoryRead::Entries(vec![
            file("a.json", Ok(metadata(10, true))),
            file("b.json", Err("truncated".into())),
            file("c.json", Ok(metadata(30, true))),
        ]),
        &DirectoryRead::Unreadable("denied".into()),
    );
    assert_eq!(found.primary, Some(path("root", "project.json")));
    let saved: Vec<u64> = found
        .checkpoints
        .iter()
        .map(|checkpoint| checkpoint.saved_unix_ms)
        .collect();
    assert_eq!(saved, vec![30, 10]);
    assert!(found.journals.is_empty());
    let codes: Vec<&str> = found.diagnostics.iter().map(|note| note.code).collect();
    assert!(codes.contains(&"journal-directory-unreadable"));
    assert_eq!(found.diagnostics.len(), 2);
}

#[test]
fn saves_must_be_of_the_revision_they_were_captured_at() {
    let store = store("save");
    assert_eq!(
        store.save_primary(5, Ok(()), 6).err(),
        Some(ProjectStoreError::RevisionMismatch {
            expected: 6,
            checkpoint: 5,
        })
    );
    assert_eq!(
        store.save_primary(5, Err("bad section".into()), 5).err(),
        Some(ProjectStoreError::Format("bad section".into()))
    );
    let primary = store.save_primary(5, Ok(()), 5).unwrap();
    assert_eq!(primary.manifest, path("save", "project.json"));
    let saved = store.finish_save(primary, 3, Ok(0));
    assert_eq!(saved.kind, CheckpointKind::Primary);
    assert_eq!(saved.payloads_published, 3);
    assert_eq!(saved.revision_guard.revision, 5);

    let autosave = store.save_autosave(5, Ok(()), 5, 77).unwrap();
    assert!(autosave.recovery.is_autosave);
    assert_eq!(autosave.recovery.saved_unix_ms, 77);
    let saved = store.finish_save(autosave, 1, Err("busy".into()));
    assert_eq!(saved.kind, CheckpointKind::Autosave);
    assert_eq!(
        saved.maintenance_diagnostics[0].code,
        "recovery-rotation-failed"
    );
}

#[test]
fn recovery_metadata_must_be_that_of_the_candidate() {
    let candidate = RecoveryCheckpoint {
        manifest_path: path("root/recovery", "a.json"),
        saved_unix_ms: 42,
        base_project_revision: 7,
    };
    let metadata = RecoveryMetadata {
        is_autosave: true,
        saved_unix_ms: 42,
        base_project_revision: 7,
        primary_file_name: None,
    };
    assert_eq!(check_recovery_metadata(&candidate, &metadata), Ok(()));
    let other = RecoveryMetadata {
        saved_unix_ms: 43,
        ..metadata
    };
    assert!(matches!(
        check_recovery_metadata(&candidate, &other),
        Err(ProjectStoreError::RecoveryCheckpointMismatch {
            actual_saved_unix_ms: 43,
            ..
        })
    ));
}

#[test]
fn rotation_keeps_the_newest_checkpoints() {
    let checkpoint = |saved_unix_ms: u64| RecoveryCheckpoint {
        manifest_path: path("root/recovery", &format!("{saved_unix_ms}.json")),
        saved_unix_ms,
        base_project_revision: 1,
    };
    let store = store("root");
    let outdated = store
        .rotate_recovery_checkpoints(vec![checkpoint(3), checkpoint(2), checkpoint(1)], 2).unwrap();
    assert_eq!(outdated, vec![checkpoint(1)]);
    assert_eq!(
        store.rotate_recovery_checkpoints(vec![checkpoint(1)], 0),
        Err(ProjectStoreError::InvalidRecoveryRetention(0))
    );
}

#[test]
fn payloads_are_read_once_each() {
    let read = |key: &str, bytes: Result<Vec<u8>, String>| PayloadRead {
        key: key.into(),
        path: Ok(path("root/payloads", key)),
        bytes,
    };
    assert_eq!(
        check_payloads(&vec![read("a", Ok(vec![1])), read("b", Ok(vec![2]))]),
        Ok(())
    );
    assert_eq!(
        check_payloads(&vec![read("a", Ok(vec![1])), read("a", Ok(vec![1]))]),
        Err(ProjectStoreError::DuplicatePayload("a".into()))
    );
    assert!(matches!(
        check_payloads(&vec![read("a", Err("gone".into()))]),
        Err(ProjectStoreError::Io { .. })
    ));
}

#[test]
fn names_stay_inside_the_package() {
    assert!(safe_leaf_name("commands-1.audecj"));
    assert!(!safe_leaf_name("../commands.audecj"));
    assert!(!safe_leaf_name(""));
    let store = store("names");
    assert_eq!(
        store.journal_segment_path("a/b.audecj"),
        Err(ProjectStoreError::InvalidJournalName("a/b.audecj".into()))
    );
    let media = path("media/generated", "x.wav");
    let target = path("names/media/generated", "x.wav");
    let bytes = vec![1u8, 2];
    assert_eq!(
        store.publish_generated_media(
            Some("media"),
            &media,
            &target,
            &ExistingFile::Absent,
            &bytes
        ),
        Ok(true)
    );
    assert_eq!(
        store.publish_generated_media(
            Some("media"),
            &media,
            &target,
            &ExistingFile::Present(vec![9]),
            &bytes
        ),
        Err(ProjectStoreError::ImmutablePayloadConflict(target.clone()))
    );
    assert_eq!(
        store.publish_generated_media(
            Some("elsewhere"),
            &media,
            &target,
            &ExistingFile::Absent,
            &bytes
        ),
        Err(ProjectStoreError::InvalidPath(media))
    );
}

#[test]
fn content_is_written_once() {
    let target = path("root/payloads", "a");
    let bytes = vec![1u8, 2, 3];
    assert_eq!(
        write_immutable(&target, &ExistingFile::Absent, &bytes),
        Ok(true)
    );
    assert_eq!(
        write_immutable(&target, &ExistingFile::Present(bytes.clone()), &bytes),
        Ok(false)
    );
    assert!(matches!(
        write_immutable(&target, &ExistingFile::Unreadable("denied".into()), &bytes),
        Err(ProjectStoreError::Io { .. })
    ));
}

#[test]
fn a_checkpoint_loads_only_whole_and_from_where_it_was_found() {
    let store = store("load");
    let manifest = |saved_unix_ms: u64| {
        Ok(ManifestRead {
            recovery: RecoveryMetadata {
                is_autosave: true,
                saved_unix_ms,
                base_project_revision: 3,
                primary_file_name: None,
            },
            diagnostics: vec!["extra section kept".into()],
        })
    };
    let reads = vec![PayloadRead {
        key: "samples".into(),
        path: Ok(path("load/payloads", "samples")),
        bytes: Ok(vec![1]),
    }];
    let LoadedCheckpoint {
        checkpoint,
        recovery,
        diagnostics,
        manifest_path,
    } = store.load_primary(manifest(9), &reads, Ok(17u64)).unwrap();
    assert_eq!(checkpoint, 17);
    assert_eq!(recovery.saved_unix_ms, 9);
    assert_eq!(diagnostics, vec!["extra section kept".to_string()]);
    assert_eq!(manifest_path, path("load", "project.json"));
    assert_eq!(
        store
            .load_primary::<u64>(manifest(9), &reads, Err("bad section".into()))
            .err(),
        Some(ProjectStoreError::Format("bad section".into()))
    );

    let candidate = RecoveryCheckpoint {
        manifest_path: path("load/recovery", "a.json"),
        saved_unix_ms: 9,
        base_project_revision: 3,
    };
    let loaded = store
        .load_recovery(&candidate, false, manifest(9), &reads, Ok(1u64))
        .unwrap();
    assert_eq!(loaded.manifest_path, candidate.manifest_path);
    assert_eq!(
        store
            .load_recovery(&candidate, true, manifest(9), &reads, Ok(1u64))
            .err(),
        Some(ProjectStoreError::InvalidRecoveryCheckpoint(
            candidate.manifest_path.clone()
        ))
    );
    assert!(matches!(
        store
            .load_recovery(&candidate, false, manifest(10), &reads, Ok(1u64))
            .err(),
        Some(ProjectStoreError::RecoveryCheckpointMismatch { .. })
    ));
}

/// Files in memory, by directory and name, with the order in which they were written.
struct Disk {
    files: BTreeMap<(String, String), Vec<u8>>,
    written: Vec<String>,
}

impl Disk {
    fn new() -> Disk {
        Disk {
            files: BTreeMap::new(),
            written: Vec::new(),
        }
    }

    fn look(&self, path: &PackagePath) -> SaveReply {
        SaveReply::Found(
            match self.files.get(&(path.directory.clone(), path.leaf.clone())) {
                Some(bytes) => ExistingFile::Present(bytes.clone()),
                None => ExistingFile::Absent,
            },
        )
    }

    fn write(&mut self, path: &PackagePath, bytes: &[u8]) -> SaveReply {
        self.files
            .insert((path.directory.clone(), path.leaf.clone()), bytes.to_vec());
        self.written.push(path.leaf.clone());
        SaveReply::Written
    }

    /// Does what a save asks for until it ends or `steps` are used up.
    fn save(&mut self, mut run: SaveRun, steps: usize) -> SaveRun {
        for _ in 0..steps {
            let reply = match run.step {
                SaveStep::MakeRoot => SaveReply::Written,
                SaveStep::LookAtPayload(i) => self.look(run.payloads[i].path.as_ref().unwrap()),
                SaveStep::CreatePayload(i) => {
                    let payload = &run.payloads[i];
                    self.write(payload.path.as_ref().unwrap(), &payload.bytes)
                }
                SaveStep::LookAtManifest => self.look(&run.plan.manifest),
                SaveStep::CreateManifest | SaveStep::ReplaceManifest => {
                    self.write(&run.plan.manifest, run.manifest.as_ref().unwrap())
                }
                SaveStep::Rotate => SaveReply::Rotated(Ok(2)),
                SaveStep::Finish | SaveStep::Stop => return run,
            };
            run = run.reply(reply);
        }
        run
    }
}

fn payload(leaf: &str, bytes: &[u8]) -> SavePayload {
    SavePayload {
        path: Ok(path("save/payloads", leaf)),
        bytes: bytes.to_vec(),
    }
}

#[test]
fn a_save_writes_its_manifest_after_every_payload() {
    let store = store("save");
    let mut disk = Disk::new();
    disk.write(&path("save/payloads", "b"), &[2]);
    disk.written.clear();
    let start = || {
        SaveRun::new(
            store.save_primary(5, Ok(()), 5).unwrap(),
            Ok(()),
            vec![payload("a", &[1]), payload("b", &[2]), payload("c", &[3])],
            Ok(vec![9]),
        )
    };
    let cut_short = disk.save(start(), 5);
    assert_eq!(cut_short.step, SaveStep::CreatePayload(2));
    assert_eq!(disk.written, vec!["a"]);
    assert!(store.conclude_save(cut_short).is_none());

    let run = disk.save(start(), 100);
    assert_eq!(run.step, SaveStep::Finish);
    assert_eq!(disk.written, vec!["a", "c", "project.json"]);
    let saved = store.conclude_save(run).unwrap().unwrap();
    assert_eq!(saved.payloads_published, 1);
    assert_eq!(saved.recovery_checkpoints_pruned, 0);
    assert_eq!(saved.manifest_path, path("save", "project.json"));
}

#[test]
fn an_autosave_never_replaces_an_earlier_one() {
    let store = store("save");
    let mut disk = Disk::new();
    let start = |manifest: u8| {
        SaveRun::new(
            store.save_autosave(5, Ok(()), 5, 77).unwrap(),
            Ok(()),
            vec![payload("a", &[1])],
            Ok(vec![manifest]),
        )
    };
    let saved = store
        .conclude_save(disk.save(start(9), 100))
        .unwrap()
        .unwrap();
    assert_eq!(saved.recovery_checkpoints_pruned, 2);
    assert_eq!(disk.written, vec!["a", "r5-77.json"]);
    assert!(store.conclude_save(disk.save(start(9), 100)).unwrap().is_ok());
    assert_eq!(
        store.conclude_save(disk.save(start(8), 100)).unwrap(),
        Err(ProjectStoreError::ImmutablePayloadConflict(path(
            "save/recovery",
            "r5-77.json"
        )))
    );
    assert_eq!(disk.written, vec!["a", "r5-77.json"]);
}

#[test]
fn a_save_that_fails_leaves_the_manifest_alone() {
    let store = store("save");
    let plan = || store.save_primary(5, Ok(()), 5).unwrap();
    let end = |disk: &mut Disk, run: SaveRun| store.conclude_save(disk.save(run, 100)).unwrap();

    let mut disk = Disk::new();
    disk.write(&path("save/payloads", "b"), &[7]);
    disk.written.clear();
    assert_eq!(
        end(
            &mut disk,
            SaveRun::new(
                plan(),
                Ok(()),
                vec![payload("a", &[1]), payload("b", &[2])],
                Ok(vec![9])
            )
        ),
        Err(ProjectStoreError::ImmutablePayloadConflict(path(
            "save/payloads",
            "b"
        )))
    );
    assert_eq!(disk.written, vec!["a"]);

    let unnamed = SavePayload {
        path: Err("bad key".into()),
        bytes: vec![1],
    };
    assert_eq!(
        end(
            &mut disk,
            SaveRun::new(plan(), Ok(()), vec![unnamed], Ok(vec![9]))
        ),
        Err(ProjectStoreError::Format("bad key".into()))
    );
    assert_eq!(
        end(
            &mut disk,
            SaveRun::new(plan(), Err("section".into()), vec![], Ok(vec![9]))
        ),
        Err(ProjectStoreError::Format("section".into()))
    );
    assert_eq!(
        end(
            &mut disk,
            SaveRun::new(plan(), Ok(()), vec![payload("d", &[4])], Err("json".into()))
        ),
        Err(ProjectStoreError::Envelope("json".into()))
    );
    assert_eq!(disk.written, vec!["a", "d"]);

    let create = || disk_at_create(&store);
    assert_eq!(
        store
            .conclude_save(create().reply(SaveReply::Beaten(Ok(vec![5]))))
            .unwrap(),
        Err(ProjectStoreError::ImmutablePayloadConflict(path(
            "save/payloads",
            "a"
        )))
    );
    let won = create().reply(SaveReply::Beaten(Ok(vec![1])));
    assert_eq!(won.step, SaveStep::ReplaceManifest);
    assert_eq!(won.published, 0);
    assert!(matches!(
        store
            .conclude_save(create().reply(SaveReply::Failed {
                path: path("save/payloads", "a"),
                message: "disk full".into()
            }))
            .unwrap(),
        Err(ProjectStoreError::Io { .. })
    ));
}

fn disk_at_create(store: &ProjectStore) -> SaveRun {
    SaveRun::new(
        store.save_primary(5, Ok(()), 5).unwrap(),
        Ok(()),
        vec![payload("a", &[1])],
        Ok(vec![9]),
    )
    .reply(SaveReply::Written)
    .reply(SaveReply::Found(ExistingFile::Absent))
}

#[test]
fn store_errors_say_what_is_wrong() {
    assert_eq!(
        ProjectStoreError::RevisionMismatch {
            expected: 6,
            checkpoint: 5
        }
        .message(),
        "save was built for revision 5, expected revision 6"
    );
    assert_eq!(
        ProjectStoreError::ImmutablePayloadConflict(path("root/payloads", "a")).message(),
        "immutable payload already exists with different bytes: root/payloads/a"
    );
    assert_eq!(
        ProjectStoreError::RecoveryCheckpointMismatch {
            path: path("root/recovery", "a.json"),
            expected_saved_unix_ms: 1,
            expected_base_revision: 2,
            actual_saved_unix_ms: 3,
            actual_base_revision: 4,
            is_autosave: false,
        }
        .message(),
        "recovery checkpoint metadata at root/recovery/a.json does not match its candidate \
         (expected autosave at 1 from revision 2; found autosave=false, saved at 3 from revision 4)"
    );
    assert_eq!(
        ProjectStoreError::InvalidJournalRetention(1).message(),
        "journal retention limit must be at least two, got 1"
    );
    assert_eq!(
        ProjectStoreError::Io {
            path: path("root", "project.json"),
            message: "denied".into()
        }
        .message(),
        "I/O at root/project.json: denied"
    );
}

#[test]
fn a_compaction_removes_nothing_before_its_segment_is_durable() {
    let store = store("compact");
    let segment = |name: &str| path("compact/journal", name);
    let begin = || {
        store
            .begin_compaction(
                "merged.audecj",
                Ok(vec![1, 2]),
                vec![segment("a.audecj"), segment("merged.audecj"), segment("b.audecj")],
                2,
            )
            .unwrap()
            .reply(CompactReply::Written)
    };
    let run = begin();
    assert_eq!(run.step, CompactStep::Look);
    assert_eq!(run.obsolete, vec![segment("a.audecj"), segment("b.audecj")]);
    let run = run.reply(CompactReply::Removed);
    assert_eq!(run.step, CompactStep::Look);
    let run = run.reply(CompactReply::Found(ExistingFile::Absent));
    assert_eq!(run.step, CompactStep::Create);
    let run = run.reply(CompactReply::Written);
    assert_eq!(run.step, CompactStep::Remove(0));
    let run = run
        .reply(CompactReply::Removed)
        .reply(CompactReply::Removed);
    assert_eq!(run.step, CompactStep::Survey);
    let run = run.reply(CompactReply::Surveyed(vec![
        segment("z.audecj"),
        segment("merged.audecj"),
    ]));
    let result = store.conclude_compaction(run).unwrap().unwrap();
    assert_eq!(result.compacted_path, Some(segment("merged.audecj")));
    assert_eq!(
        result.active_segments,
        vec![segment("merged.audecj"), segment("z.audecj")]
    );
    assert_eq!(result.frames_preserved, 2);

    let already = begin().reply(CompactReply::Found(ExistingFile::Present(vec![1, 2])));
    assert_eq!(already.step, CompactStep::Remove(0));
    let other = begin().reply(CompactReply::Found(ExistingFile::Present(vec![3])));
    assert_eq!(
        store.conclude_compaction(other).unwrap(),
        Err(ProjectStoreError::ImmutablePayloadConflict(segment(
            "merged.audecj"
        )))
    );
    assert_eq!(
        store
            .begin_compaction("m.audecj", Err("too long".into()), Vec::new(), 0)
            .err(),
        Some(ProjectStoreError::JournalEncode("too long".into()))
    );
    assert_eq!(
        store
            .begin_compaction("../m.audecj", Ok(Vec::new()), Vec::new(), 0)
            .err(),
        Some(ProjectStoreError::InvalidJournalName("../m.audecj".into()))
    );
}

#[test]
fn a_beaten_writer_compares_what_is_there() {
    let place = path("p/media", "a.bin");
    let settle = |creation: Creation| settle_creation(&place, creation, b"pcm");
    assert_eq!(settle(Creation::Created), Ok(true));
    assert_eq!(settle(Creation::Beaten(Ok(b"pcm".to_vec()))), Ok(false));
    assert_eq!(
        settle(Creation::Beaten(Ok(b"PCM".to_vec()))),
        Err(ProjectStoreError::ImmutablePayloadConflict(place.clone()))
    );
    assert_eq!(
        settle(Creation::Beaten(Err("gone".into()))),
        Err(ProjectStoreError::Io {
            path: place.clone(),
            message: "gone".into(),
        })
    );
    let temporary = path("p/media", ".a.bin.tmp");
    assert_eq!(
        settle(Creation::Failed {
            path: temporary.clone(),
            message: "full".into(),
        }),
        Err(ProjectStoreError::Io {
            path: temporary,
            message: "full".into(),
        })
    );
}
