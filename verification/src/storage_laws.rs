//! What discovery, recovery and compaction promise of the files of a package: which
//! checkpoints and segments are found, in which order, and what is replayed and merged.

use std::sync::Arc;

use vstd::prelude::*;

use crate::command::AssetId;
use crate::compaction::{
    clean_paths, clean_segments, compact_count, compaction_outcome, frame_at, gathered, goes_on,
    in_order, is_compaction_step, merged_frames, to_order, CleanView, Compaction, CompactionStep,
    MergeStop, OrderedFrame,
};
use crate::diff_laws::lemma_ranked_members;
use crate::journal::{
    advanced, anchor, cursor_in, cursor_of, earliest, entry_at, missing_asset, next_entry,
    pending_entry, present_assets, EntryView, JournalSegment, RecoveryView, VerifiedFrame,
};
use crate::live_project::AssetEffect;
use crate::packages::{outdated, payload_fault, PayloadRead};
use crate::rank::{is_ranked, rank_lt, ranked, ranked_is_an_ordering, HasRank};
use crate::store::{
    autosaves, candidate_of, candidate_views, candidates, has_extension, is_discovery,
    path_views, segment_files, segment_paths, CandidateView, DirectoryRead, JournalFileRead,
    JournalFrame, JournalRecoveryCandidate, JournalTail, PackagePath, PathView,
    ProjectStoreError, RecoveredSegment, RecoveryCheckpoint, RecoveryDiscovery, RecoveryFileRead,
};

verus! {

// ----- checkpoints --------------------------------------------------------

/// Whether a file is an autosave of a package: a manifest that says so.
pub open spec fn is_autosave_file(file: RecoveryFileRead) -> bool {
    &&& has_extension(file.path.leaf@, ".json"@)
    &&& file.content matches Ok(metadata) && metadata.is_autosave
}

/// Whether a checkpoint is that of an autosave.
pub open spec fn is_checkpoint_of(checkpoint: RecoveryCheckpoint, file: RecoveryFileRead) -> bool {
    &&& checkpoint.manifest_path == file.path
    &&& file.content matches Ok(metadata) && checkpoint.saved_unix_ms == metadata.saved_unix_ms
        && checkpoint.base_project_revision == metadata.base_project_revision
}

/// Whether a checkpoint is that of one of the autosaves.
pub open spec fn is_of_an_autosave(
    checkpoint: RecoveryCheckpoint,
    files: Seq<RecoveryFileRead>,
) -> bool {
    exists|k: int|
        0 <= k < files.len() && is_autosave_file(#[trigger] files[k]) && is_checkpoint_of(
            checkpoint,
            files[k],
        )
}

proof fn lemma_autosaves(files: Seq<RecoveryFileRead>, i: int)
    requires
        0 <= i <= files.len(),
    ensures
        forall|c: RecoveryCheckpoint|
            #[trigger] autosaves(files, i).contains(c) <==> exists|k: int|
                0 <= k < i && is_autosave_file(#[trigger] files[k]) && is_checkpoint_of(
                    c,
                    files[k],
                ),
    decreases i,
{
    if i > 0 {
        lemma_autosaves(files, i - 1);
        let before = autosaves(files, i - 1);
        let after = autosaves(files, i);
        assert forall|c: RecoveryCheckpoint| #[trigger] after.contains(c) <==> exists|k: int|
            0 <= k < i && is_autosave_file(#[trigger] files[k]) && is_checkpoint_of(
                c,
                files[k],
            ) by {
            if after.contains(c) {
                let a = choose|a: int| 0 <= a < after.len() && after[a] == c;
                if a < before.len() {
                    assert(before[a] == c);
                    assert(before.contains(c));
                } else {
                    assert(is_checkpoint_of(c, files[i - 1]));
                }
            }
            if exists|k: int|
                0 <= k < i && is_autosave_file(#[trigger] files[k]) && is_checkpoint_of(
                    c,
                    files[k],
                ) {
                let k = choose|k: int|
                    0 <= k < i && is_autosave_file(#[trigger] files[k]) && is_checkpoint_of(
                        c,
                        files[k],
                    );
                if k < i - 1 {
                    assert(before.contains(c));
                    let a = choose|a: int| 0 <= a < before.len() && before[a] == c;
                    assert(after[a] == c);
                } else {
                    assert(after[after.len() - 1] == c);
                }
            }
        }
    } else {
        assert(autosaves(files, i) =~= Seq::<RecoveryCheckpoint>::empty());
    }
}

/// Whether one checkpoint is as new as another: of a later revision, or of the same one
/// and not saved earlier.
pub open spec fn is_as_new(left: RecoveryCheckpoint, right: RecoveryCheckpoint) -> bool {
    ||| left.base_project_revision > right.base_project_revision
    ||| left.base_project_revision == right.base_project_revision && left.saved_unix_ms
        >= right.saved_unix_ms
}

proof fn lemma_rank_is_age(left: RecoveryCheckpoint, right: RecoveryCheckpoint)
    ensures
        !rank_lt(right.rank(), left.rank()) ==> is_as_new(left, right),
{
    let a = right.rank();
    let b = left.rank();
    reveal_with_fuel(rank_lt, 3);
    assert(a[0] == u64::MAX - right.base_project_revision);
    assert(b[0] == u64::MAX - left.base_project_revision);
    assert(a.drop_first()[0] == a[1]);
    assert(b.drop_first()[0] == b[1]);
    assert(a[1] == u64::MAX - right.saved_unix_ms);
    assert(b[1] == u64::MAX - left.saved_unix_ms);
}

/// The checkpoints that are found are those of the autosaves, the newest first.
pub proof fn checkpoints_are_the_autosaves(
    found: RecoveryDiscovery,
    primary: Option<PackagePath>,
    recovery_root: PathView,
    files: Vec<RecoveryFileRead>,
    journal_root: PathView,
    journal: DirectoryRead<JournalFileRead>,
)
    requires
        is_discovery(
            found,
            primary,
            recovery_root,
            DirectoryRead::Entries(files),
            journal_root,
            journal,
        ),
    ensures
        found.primary == primary,
        forall|c: int|
            0 <= c < found.checkpoints@.len() ==> is_of_an_autosave(
                #[trigger] found.checkpoints@[c],
                files@,
            ),
        forall|k: int|
            0 <= k < files@.len() && is_autosave_file(#[trigger] files@[k]) ==> exists|c: int|
                0 <= c < found.checkpoints@.len() && is_checkpoint_of(
                    #[trigger] found.checkpoints@[c],
                    files@[k],
                ),
        forall|a: int, b: int|
            0 <= a < b < found.checkpoints@.len() ==> is_as_new(
                #[trigger] found.checkpoints@[a],
                #[trigger] found.checkpoints@[b],
            ),
{
    let list = autosaves(files@, files@.len() as int);
    lemma_autosaves(files@, files@.len() as int);
    lemma_ranked_members(list);
    ranked_is_an_ordering(list);
    let order = ranked(list);
    assert forall|c: int| 0 <= c < order.len() implies is_of_an_autosave(
        #[trigger] order[c],
        files@,
    ) by {
        assert(order.contains(order[c]));
        assert(list.contains(order[c]));
    }
    assert forall|k: int|
        0 <= k < files@.len() && is_autosave_file(#[trigger] files@[k]) implies exists|c: int|
        0 <= c < order.len() && is_checkpoint_of(#[trigger] order[c], files@[k]) by {
        let metadata = files@[k].content->Ok_0;
        let x = RecoveryCheckpoint {
            manifest_path: files@[k].path,
            saved_unix_ms: metadata.saved_unix_ms,
            base_project_revision: metadata.base_project_revision,
        };
        assert(is_checkpoint_of(x, files@[k]));
        assert(list.contains(x));
        assert(order.contains(x));
        let c = choose|c: int| 0 <= c < order.len() && order[c] == x;
        assert(is_checkpoint_of(order[c], files@[k]));
    }
    assert forall|a: int, b: int| 0 <= a < b < order.len() implies is_as_new(
        #[trigger] order[a],
        #[trigger] order[b],
    ) by {
        assert(!rank_lt(order[b].rank(), order[a].rank()));
        lemma_rank_is_age(order[a], order[b]);
    }
}

/// Rotation removes checkpoints only where there are more than may stay, exactly so many
/// as are too many, and none that is newer than one that stays.
pub proof fn only_old_checkpoints_are_removed(
    checkpoints: Seq<RecoveryCheckpoint>,
    keep: int,
    removed: Seq<RecoveryCheckpoint>,
)
    requires
        1 <= keep,
        removed == outdated(checkpoints, keep),
    ensures
        checkpoints.len() <= keep ==> removed.len() == 0,
        checkpoints.len() > keep ==> removed.len() == checkpoints.len() - keep,
        forall|r: int| 0 <= r < removed.len() ==> checkpoints.contains(#[trigger] removed[r]),
        forall|r: int, k: int|
            0 <= r < removed.len() && 0 <= k < checkpoints.len() ==> is_as_new(
                #[trigger] checkpoints[k],
                #[trigger] removed[r],
            ) || removed.contains(checkpoints[k]),
{
    lemma_ranked_members(checkpoints);
    ranked_is_an_ordering(checkpoints);
    let sorted = ranked(checkpoints);
    assert forall|r: int| 0 <= r < removed.len() implies checkpoints.contains(
        #[trigger] removed[r],
    ) by {
        assert(removed[r] == sorted[keep + r]);
        assert(sorted.contains(removed[r]));
    }
    assert forall|r: int, k: int|
        0 <= r < removed.len() && 0 <= k < checkpoints.len() implies is_as_new(
        #[trigger] checkpoints[k],
        #[trigger] removed[r],
    ) || removed.contains(checkpoints[k]) by {
        assert(removed[r] == sorted[keep + r]);
        assert(checkpoints.contains(checkpoints[k]));
        assert(sorted.contains(checkpoints[k]));
        let s = choose|s: int| 0 <= s < sorted.len() && sorted[s] == checkpoints[k];
        if s < keep {
            assert(!rank_lt(sorted[keep + r].rank(), sorted[s].rank()));
            lemma_rank_is_age(sorted[s], sorted[keep + r]);
        } else {
            assert(removed[s - keep] == checkpoints[k]);
        }
    }
}

// ----- segments -----------------------------------------------------------

/// Whether a file is a segment of the journal.
pub open spec fn is_segment_file(file: JournalFileRead) -> bool {
    file.is_file && has_extension(file.path.leaf@, ".audecj"@)
}

proof fn lemma_segment_files(files: Seq<JournalFileRead>, i: int)
    requires
        0 <= i <= files.len(),
    ensures
        forall|f: JournalFileRead|
            #[trigger] segment_files(files, i).contains(f) <==> exists|k: int|
                0 <= k < i && #[trigger] files[k] == f && is_segment_file(f),
    decreases i,
{
    if i > 0 {
        lemma_segment_files(files, i - 1);
        let before = segment_files(files, i - 1);
        let after = segment_files(files, i);
        assert forall|f: JournalFileRead| #[trigger] after.contains(f) <==> exists|k: int|
            0 <= k < i && #[trigger] files[k] == f && is_segment_file(f) by {
            if after.contains(f) {
                let a = choose|a: int| 0 <= a < after.len() && after[a] == f;
                if a < before.len() {
                    assert(before[a] == f);
                    assert(before.contains(f));
                } else {
                    assert(files[i - 1] == f);
                }
            }
            if exists|k: int| 0 <= k < i && #[trigger] files[k] == f && is_segment_file(f) {
                let k = choose|k: int|
                    0 <= k < i && #[trigger] files[k] == f && is_segment_file(f);
                if k < i - 1 {
                    assert(before.contains(f));
                    let a = choose|a: int| 0 <= a < before.len() && before[a] == f;
                    assert(after[a] == f);
                } else {
                    assert(after[after.len() - 1] == f);
                }
            }
        }
    } else {
        assert(segment_files(files, i) =~= Seq::<JournalFileRead>::empty());
    }
}

/// Whether a candidate says what was verified of a segment: how much of it, and from which
/// command to which.
pub open spec fn describes(
    candidate: JournalRecoveryCandidate,
    path: PathView,
    segment: RecoveredSegment,
) -> bool {
    &&& candidate.path@ == path
    &&& candidate.verified_frames == segment.frames@.len()
    &&& candidate.valid_bytes == segment.valid_bytes && candidate.total_bytes
        == segment.total_bytes
    &&& candidate.tail == segment.tail
    &&& segment.frames@.len() == 0 ==> candidate.first_sequence is None
        && candidate.through_sequence is None && candidate.base_revision is None
        && candidate.resulting_revision is None
    &&& segment.frames@.len() > 0 ==> candidate.first_sequence == Some(
        segment.frames@[0].sequence,
    ) && candidate.through_sequence == Some(segment.frames@[segment.frames@.len() - 1].sequence)
        && candidate.base_revision == Some(segment.frames@[0].base_revision)
        && candidate.resulting_revision == Some(
        segment.frames@[segment.frames@.len() - 1].resulting_revision,
    )
}

/// Whether a candidate describes one of the segments among the files.
pub open spec fn describes_one(
    candidate: JournalRecoveryCandidate,
    files: Seq<JournalFileRead>,
) -> bool {
    exists|k: int|
        0 <= k < files.len() && is_segment_file(#[trigger] files[k]) && files[k].content is Ok
            && describes(candidate, files[k].path@, *files[k].content->Ok_0)
}

/// A candidate describes its segment.
pub proof fn candidates_describe_their_segment(
    candidate: JournalRecoveryCandidate,
    path: PathView,
    segment: RecoveredSegment,
)
    requires
        candidate@ == candidate_of(path, segment),
    ensures
        describes(candidate, path, segment),
{
}

proof fn lemma_candidates(files: Seq<JournalFileRead>, i: int)
    requires
        0 <= i <= files.len(),
    ensures
        forall|c: CandidateView|
            #[trigger] candidates(files, i).contains(c) <==> exists|k: int|
                0 <= k < i && (#[trigger] files[k]).content is Ok && c == candidate_of(
                    files[k].path@,
                    *files[k].content->Ok_0,
                ),
    decreases i,
{
    if i > 0 {
        lemma_candidates(files, i - 1);
        let before = candidates(files, i - 1);
        let after = candidates(files, i);
        assert forall|c: CandidateView| #[trigger] after.contains(c) <==> exists|k: int|
            0 <= k < i && (#[trigger] files[k]).content is Ok && c == candidate_of(
                files[k].path@,
                *files[k].content->Ok_0,
            ) by {
            if after.contains(c) {
                let a = choose|a: int| 0 <= a < after.len() && after[a] == c;
                if a < before.len() {
                    assert(before[a] == c);
                    assert(before.contains(c));
                } else {
                    assert(files[i - 1].content is Ok);
                }
            }
            if exists|k: int|
                0 <= k < i && (#[trigger] files[k]).content is Ok && c == candidate_of(
                    files[k].path@,
                    *files[k].content->Ok_0,
                ) {
                let k = choose|k: int|
                    0 <= k < i && (#[trigger] files[k]).content is Ok && c == candidate_of(
                        files[k].path@,
                        *files[k].content->Ok_0,
                    );
                if k < i - 1 {
                    assert(before.contains(c));
                    let a = choose|a: int| 0 <= a < before.len() && before[a] == c;
                    assert(after[a] == c);
                } else {
                    assert(after[after.len() - 1] == c);
                }
            }
        }
    } else {
        assert(candidates(files, i) =~= Seq::<CandidateView>::empty());
    }
}

/// The segments that are found are the files of the journal, and those that could be read
/// are described.
pub proof fn segments_are_the_files_of_the_journal(
    found: RecoveryDiscovery,
    primary: Option<PackagePath>,
    recovery_root: PathView,
    recovery: DirectoryRead<RecoveryFileRead>,
    journal_root: PathView,
    files: Vec<JournalFileRead>,
)
    requires
        is_discovery(
            found,
            primary,
            recovery_root,
            recovery,
            journal_root,
            DirectoryRead::Entries(files),
        ),
    ensures
        forall|p: PathView|
            #[trigger] path_views(found.journals@).contains(p) <==> exists|k: int|
                0 <= k < files@.len() && is_segment_file(#[trigger] files@[k]) && files@[k].path@
                    == p,
        forall|k: int|
            0 <= k < files@.len() && is_segment_file(#[trigger] files@[k]) && files@[k].content
                is Ok ==> exists|c: int|
                0 <= c < found.journal_candidates@.len() && describes(
                    #[trigger] found.journal_candidates@[c],
                    files@[k].path@,
                    *files@[k].content->Ok_0,
                ),
        forall|c: int|
            0 <= c < found.journal_candidates@.len() ==> describes_one(
                #[trigger] found.journal_candidates@[c],
                files@,
            ),
{
    let list = segment_files(files@, files@.len() as int);
    lemma_segment_files(files@, files@.len() as int);
    lemma_ranked_members(list);
    let order = ranked(list);
    let shown = candidate_views(found.journal_candidates@);
    lemma_candidates(order, order.len() as int);
    assert(path_views(found.journals@) == segment_paths(order));
    assert forall|p: PathView| #[trigger] path_views(found.journals@).contains(p) <==> exists|
        k: int,
    |
        0 <= k < files@.len() && is_segment_file(#[trigger] files@[k]) && files@[k].path@ == p by {
        let paths = segment_paths(order);
        if paths.contains(p) {
            let a = choose|a: int| 0 <= a < paths.len() && paths[a] == p;
            assert(order[a].path@ == p);
            assert(order.contains(order[a]));
            assert(list.contains(order[a]));
        }
        if exists|k: int|
            0 <= k < files@.len() && is_segment_file(#[trigger] files@[k]) && files@[k].path@
                == p {
            let k = choose|k: int|
                0 <= k < files@.len() && is_segment_file(#[trigger] files@[k]) && files@[k].path@
                    == p;
            assert(list.contains(files@[k]));
            assert(order.contains(files@[k]));
            let a = choose|a: int| 0 <= a < order.len() && order[a] == files@[k];
            assert(paths[a] == p);
        }
    }
    assert(shown.len() == found.journal_candidates@.len());
    assert forall|k: int|
        0 <= k < files@.len() && is_segment_file(#[trigger] files@[k]) && files@[k].content
            is Ok implies exists|c: int|
        0 <= c < found.journal_candidates@.len() && describes(
            #[trigger] found.journal_candidates@[c],
            files@[k].path@,
            *files@[k].content->Ok_0,
        ) by {
        assert(list.contains(files@[k]));
        assert(order.contains(files@[k]));
        let a = choose|a: int| 0 <= a < order.len() && order[a] == files@[k];
        let x = candidate_of(files@[k].path@, *files@[k].content->Ok_0);
        assert(order[a].content is Ok);
        assert(shown.contains(x));
        let c = choose|c: int| 0 <= c < shown.len() && shown[c] == x;
        assert(found.journal_candidates@[c]@ == x);
        assert(describes(
            found.journal_candidates@[c],
            files@[k].path@,
            *files@[k].content->Ok_0,
        ));
    }
    assert forall|c: int| 0 <= c < found.journal_candidates@.len() implies describes_one(
        #[trigger] found.journal_candidates@[c],
        files@,
    ) by {
        assert(shown[c] == found.journal_candidates@[c]@);
        assert(shown.contains(shown[c]));
        let a = choose|a: int|
            0 <= a < order.len() && (#[trigger] order[a]).content is Ok && shown[c]
                == candidate_of(order[a].path@, *order[a].content->Ok_0);
        assert(order.contains(order[a]));
        assert(list.contains(order[a]));
        let k = choose|k: int|
            0 <= k < files@.len() && #[trigger] files@[k] == order[a] && is_segment_file(order[a]);
        assert(describes(
            found.journal_candidates@[c],
            files@[k].path@,
            *files@[k].content->Ok_0,
        ));
    }
}

/// Payloads are loaded exactly if each has a place, could be read, and is named once.
pub proof fn loaded_payloads_are_whole(reads: Seq<PayloadRead>, i: int)
    requires
        0 <= i <= reads.len(),
    ensures
        payload_fault(reads, i) is None <==> (forall|k: int|
            i <= k < reads.len() ==> (#[trigger] reads[k]).path is Ok && reads[k].bytes is Ok) && (
        forall|j: int, k: int|
            0 <= j < k && i <= k < reads.len() ==> (#[trigger] reads[j]).key@ != (
            #[trigger] reads[k]).key@),
    decreases reads.len() - i,
{
    if i < reads.len() {
        loaded_payloads_are_whole(reads, i + 1);
    }
}

// ----- replay -------------------------------------------------------------

/// A checkpoint stands at the last command that led to its revision.
pub proof fn anchors_are_the_last_command(entries: Seq<EntryView>, revision: u64, i: int)
    requires
        0 <= i <= entries.len(),
    ensures
        match anchor(entries, revision, i) {
            None => forall|k: int|
                0 <= k < i ==> (#[trigger] entries[k]).record.resulting_revision != revision,
            Some(sequence) => {
                &&& exists|k: int|
                    0 <= k < i && (#[trigger] entries[k]).record.resulting_revision == revision
                        && entries[k].record.sequence == sequence
                &&& forall|k: int|
                    0 <= k < i && (#[trigger] entries[k]).record.resulting_revision == revision
                        ==> entries[k].record.sequence <= sequence
            },
        },
    decreases i,
{
    if i > 0 {
        anchors_are_the_last_command(entries, revision, i - 1);
        let last = entries[i - 1];
        if let Some(sequence) = anchor(entries, revision, i - 1) {
            let k = choose|k: int|
                0 <= k < i - 1 && (#[trigger] entries[k]).record.resulting_revision == revision
                    && entries[k].record.sequence == sequence;
            assert(entries[k].record.sequence == sequence);
        }
        assert(last.record.sequence == entries[i - 1].record.sequence);
    }
}

proof fn lemma_earliest(entries: Seq<EntryView>, revision: u64, i: int)
    requires
        0 <= i <= entries.len(),
    ensures
        match earliest(entries, revision, i) {
            None => forall|k: int|
                0 <= k < i ==> (#[trigger] entries[k]).record.base_revision != revision,
            Some(e) => 0 <= e < i && entries[e].record.base_revision == revision && forall|k: int|
                0 <= k < i && (#[trigger] entries[k]).record.base_revision == revision
                    ==> entries[e].record.sequence <= entries[k].record.sequence,
        },
    decreases i,
{
    if i > 0 {
        lemma_earliest(entries, revision, i - 1);
    }
}

proof fn lemma_entry_at(entries: Seq<EntryView>, sequence: u64, i: int)
    requires
        0 <= i,
    ensures
        match entry_at(entries, sequence, i) {
            Some(k) => i <= k < entries.len() && entries[k].record.sequence == sequence && forall|
                j: int,
            |
                i <= j < k ==> (#[trigger] entries[j]).record.sequence != sequence,
            None => forall|k: int|
                i <= k < entries.len() ==> (#[trigger] entries[k]).record.sequence != sequence,
        },
    decreases entries.len() - i,
{
    if i < entries.len() && entries[i].record.sequence != sequence {
        lemma_entry_at(entries, sequence, i + 1);
    }
}

/// The next command to replay starts from the revision that was reached. It has the number
/// that follows where that is known; otherwise no such command has a lower number. Replay
/// goes on as long as there is one.
pub proof fn replay_takes_the_next_command(state: RecoveryView)
    ensures
        match pending_entry(state) {
            Some(i) => {
                &&& !state.stopped
                &&& 0 <= i < state.entries.len()
                &&& state.entries[i].record.base_revision == state.revision
                &&& match state.expected_sequence {
                    Some(sequence) => state.entries[i].record.sequence == sequence,
                    None => forall|k: int|
                        0 <= k < state.entries.len() && (
                        #[trigger] state.entries[k]).record.base_revision == state.revision
                            ==> state.entries[i].record.sequence
                            <= state.entries[k].record.sequence,
                }
            },
            None => state.stopped || match state.expected_sequence {
                Some(sequence) => forall|k: int|
                    0 <= k < state.entries.len() && (#[trigger] state.entries[k]).record.sequence
                        == sequence ==> state.entries[k].record.base_revision != state.revision
                        || exists|m: int|
                        0 <= m < k && (#[trigger] state.entries[m]).record.sequence == sequence,
                None => forall|k: int|
                    0 <= k < state.entries.len() ==> (
                    #[trigger] state.entries[k]).record.base_revision != state.revision,
            },
        },
{
    lemma_earliest(state.entries, state.revision, state.entries.len() as int);
    if let Some(sequence) = state.expected_sequence {
        lemma_entry_at(state.entries, sequence, 0);
    }
}

/// Whether an effect makes the audio of an asset present.
pub open spec fn needs_audio(effect: AssetEffect, asset: AssetId) -> bool {
    match effect {
        AssetEffect::Put { asset: named, present } => present && named == asset,
        AssetEffect::Availability { asset: named, present } => present && named == asset,
        _ => false,
    }
}

proof fn lemma_present_assets(effects: Seq<AssetEffect>, i: int)
    requires
        0 <= i <= effects.len(),
    ensures
        forall|asset: AssetId|
            #[trigger] present_assets(effects, i).contains(asset) <==> exists|k: int|
                0 <= k < i && needs_audio(#[trigger] effects[k], asset),
    decreases i,
{
    if i > 0 {
        lemma_present_assets(effects, i - 1);
        let before = present_assets(effects, i - 1);
        let after = present_assets(effects, i);
        assert forall|asset: AssetId| #[trigger] after.contains(asset) <==> exists|k: int|
            0 <= k < i && needs_audio(#[trigger] effects[k], asset) by {
            if after.contains(asset) {
                let a = choose|a: int| 0 <= a < after.len() && after[a] == asset;
                if a < before.len() {
                    assert(before[a] == asset);
                    assert(before.contains(asset));
                } else {
                    assert(needs_audio(effects[i - 1], asset));
                }
            }
            if exists|k: int| 0 <= k < i && needs_audio(#[trigger] effects[k], asset) {
                let k = choose|k: int| 0 <= k < i && needs_audio(#[trigger] effects[k], asset);
                if k < i - 1 {
                    assert(before.contains(asset));
                    let a = choose|a: int| 0 <= a < before.len() && before[a] == asset;
                    assert(after[a] == asset);
                } else {
                    assert(after[after.len() - 1] == asset);
                }
            }
        }
    } else {
        assert(present_assets(effects, i) =~= Seq::<AssetId>::empty());
    }
}

proof fn lemma_missing_asset(assets: Seq<AssetId>, hydrated: Seq<AssetId>, i: int)
    requires
        0 <= i <= assets.len(),
    ensures
        missing_asset(assets, hydrated, i) is None <==> forall|k: int|
            i <= k < assets.len() ==> hydrated.contains(#[trigger] assets[k]),
    decreases assets.len() - i,
{
    if i < assets.len() {
        lemma_missing_asset(assets, hydrated, i + 1);
    }
}

/// A command is replayed exactly if it applies and the audio that it needs is there. What
/// is replayed stays; a command that cannot be replayed ends the replay.
pub proof fn commands_are_replayed_with_their_audio(
    state: RecoveryView,
    applied: Result<(), String>,
    hydrated: Seq<AssetId>,
)
    requires
        pending_entry(state) is Some,
    ensures
        ({
            let record = state.entries[pending_entry(state)->0].record;
            let after = advanced(state, applied, hydrated);
            if applied is Ok && forall|k: int, asset: AssetId|
                0 <= k < record.effects@.len() && #[trigger] needs_audio(record.effects@[k], asset)
                    ==> hydrated.contains(asset) {
                &&& after.records == state.records.push(record)
                &&& after.revision == record.resulting_revision
                &&& !after.stopped
                &&& after.notes == state.notes
                &&& (record.sequence < u64::MAX ==> after.expected_sequence == Some(
                    (record.sequence + 1) as u64,
                ))
            } else {
                &&& after.records == state.records
                &&& after.revision == state.revision
                &&& after.stopped
                &&& after.notes.len() == state.notes.len() + 1
            }
        }),
{
    let record = state.entries[pending_entry(state)->0].record;
    let effects = record.effects@;
    let n = effects.len() as int;
    let assets = present_assets(effects, n);
    lemma_present_assets(effects, n);
    lemma_missing_asset(assets, hydrated, 0);
    if missing_asset(assets, hydrated, 0) is None {
        assert forall|k: int, asset: AssetId|
            0 <= k < effects.len() && #[trigger] needs_audio(effects[k], asset) implies hydrated.contains(
            asset,
        ) by {
            assert(assets.contains(asset));
            let a = choose|a: int| 0 <= a < assets.len() && assets[a] == asset;
            assert(hydrated.contains(assets[a]));
        }
    } else {
        let a = choose|a: int| 0 <= a < assets.len() && !hydrated.contains(#[trigger] assets[a]);
        assert(assets.contains(assets[a]));
        let k = choose|k: int| 0 <= k < n && needs_audio(#[trigger] effects[k], assets[a]);
        assert(needs_audio(effects[k], assets[a]));
    }
}

/// Whether a verified frame of a segment led to a revision, under a number.
pub open spec fn reached(segment: JournalSegment, revision: u64, f: int, sequence: u64) -> bool {
    segment.content matches Ok(content) && 0 <= f < content.frames@.len()
        && content.frames@[f].resulting_revision == revision && content.frames@[f].sequence
        == sequence
}

proof fn lemma_cursor_in(frames: Seq<VerifiedFrame>, revision: u64, start: Option<u64>, i: int)
    requires
        0 <= i <= frames.len(),
    ensures
        match cursor_in(frames, revision, start, i) {
            None => start is None && forall|k: int|
                0 <= k < i ==> (#[trigger] frames[k]).resulting_revision != revision,
            Some(sequence) => {
                &&& start == Some(sequence) || exists|k: int|
                    0 <= k < i && (#[trigger] frames[k]).resulting_revision == revision
                        && frames[k].sequence == sequence
                &&& (start matches Some(s) ==> s <= sequence)
                &&& forall|k: int|
                    0 <= k < i && (#[trigger] frames[k]).resulting_revision == revision
                        ==> frames[k].sequence <= sequence
            },
        },
    decreases i,
{
    if i > 0 {
        lemma_cursor_in(frames, revision, start, i - 1);
        let before = cursor_in(frames, revision, start, i - 1);
        if let Some(sequence) = before {
            if start != before {
                let k = choose|k: int|
                    0 <= k < i - 1 && (#[trigger] frames[k]).resulting_revision == revision
                        && frames[k].sequence == sequence;
                assert(frames[k].sequence == sequence);
            }
        }
        assert(frames[i - 1].sequence == frames[i - 1].sequence);
    }
}

/// The cursor of a journal is the greatest number among the verified frames that led to a
/// revision.
pub proof fn cursors_are_the_greatest_number(
    segments: Seq<JournalSegment>,
    revision: u64,
    i: int,
)
    requires
        0 <= i <= segments.len(),
    ensures
        match cursor_of(segments, revision, i) {
            None => forall|p: int, f: int, s: u64|
                0 <= p < i ==> !#[trigger] reached(segments[p], revision, f, s),
            Some(sequence) => {
                &&& exists|p: int, f: int|
                    0 <= p < i && #[trigger] reached(segments[p], revision, f, sequence)
                &&& forall|p: int, f: int, s: u64|
                    0 <= p < i && #[trigger] reached(segments[p], revision, f, s) ==> s
                        <= sequence
            },
        },
    decreases i,
{
    if i > 0 {
        cursors_are_the_greatest_number(segments, revision, i - 1);
        let before = cursor_of(segments, revision, i - 1);
        let last = segments[i - 1];
        if let Some(sequence) = before {
            let (p, f) = choose|p: int, f: int|
                0 <= p < i - 1 && #[trigger] reached(segments[p], revision, f, sequence);
            assert(reached(segments[p], revision, f, sequence));
        }
        if let Ok(content) = last.content {
            let frames = content.frames@;
            lemma_cursor_in(frames, revision, before, frames.len() as int);
            if let Some(sequence) = cursor_of(segments, revision, i) {
                if before != Some(sequence) {
                    let k = choose|k: int|
                        0 <= k < frames.len() && (#[trigger] frames[k]).resulting_revision
                            == revision && frames[k].sequence == sequence;
                    assert(reached(segments[i - 1], revision, k, sequence));
                }
            }
        }
    }
}

// ----- compaction ---------------------------------------------------------

proof fn lemma_frame_found(frames: Seq<Arc<JournalFrame>>, sequence: u64, i: int)
    requires
        0 <= i,
    ensures
        match frame_at(frames, sequence, i) {
            Some(k) => i <= k < frames.len() && frames[k].sequence == sequence,
            None => forall|k: int|
                i <= k < frames.len() ==> (#[trigger] frames[k]).sequence != sequence,
        },
    decreases frames.len() - i,
{
    if i < frames.len() && frames[i].sequence != sequence {
        lemma_frame_found(frames, sequence, i + 1);
    }
}

/// Whether a frame is one of those of the segments.
pub open spec fn is_read(
    contents: Seq<Result<Arc<RecoveredSegment>, String>>,
    frame: Arc<JournalFrame>,
) -> bool {
    exists|p: int, f: int|
        0 <= p < contents.len() && contents[p] is Ok && 0 <= f
            < contents[p]->Ok_0.frames@.len() && #[trigger] contents[p]->Ok_0.frames@[f] == frame
}

proof fn lemma_gathered_from(
    state: Seq<Arc<JournalFrame>>,
    frames: Seq<Arc<JournalFrame>>,
    i: int,
)
    requires
        0 <= i <= frames.len(),
    ensures
        match gathered(state, frames, i) {
            Ok(done) => {
                &&& forall|k: int|
                    0 <= k < done.len() ==> state.contains(#[trigger] done[k]) || frames.contains(
                        done[k],
                    )
                &&& (distinct(state) ==> distinct(done))
            },
            Err(stop) => stop matches MergeStop::Conflict(sequence) && exists|
                a: Arc<JournalFrame>,
                b: Arc<JournalFrame>,
            |
                #[trigger] in_either(state, frames, a) && #[trigger] in_either(state, frames, b)
                    && a.sequence == sequence && b.sequence == sequence && a@ != b@,
        },
    decreases i,
{
    if i > 0 {
        lemma_gathered_from(state, frames, i - 1);
        if let Ok(done) = gathered(state, frames, i - 1) {
            let frame = frames[i - 1];
            lemma_frame_found(done, frame.sequence, 0);
            assert(frames.contains(frame));
            assert(in_either(state, frames, frame));
            match frame_at(done, frame.sequence, 0) {
                Some(k) => {
                    assert(state.contains(done[k]) || frames.contains(done[k]));
                    assert(in_either(state, frames, done[k]));
                },
                None => {
                    let out = done.push(frame);
                    assert forall|k: int| 0 <= k < out.len() implies state.contains(
                        #[trigger] out[k],
                    ) || frames.contains(out[k]) by {
                        if k < done.len() {
                            assert(out[k] == done[k]);
                        }
                    }
                },
            }
        }
    } else {
        assert forall|k: int| 0 <= k < state.len() implies state.contains(#[trigger] state[k]) by {}
    }
}

spec fn in_either(
    state: Seq<Arc<JournalFrame>>,
    frames: Seq<Arc<JournalFrame>>,
    frame: Arc<JournalFrame>,
) -> bool {
    state.contains(frame) || frames.contains(frame)
}

spec fn distinct(frames: Seq<Arc<JournalFrame>>) -> bool {
    forall|a: int, b: int|
        0 <= a < b < frames.len() ==> (#[trigger] frames[a]).sequence != (
        #[trigger] frames[b]).sequence
}

/// Why segments are not merged: one could not be read, one is not clean any more, or two
/// of their frames share a number and differ.
pub open spec fn stop_holds(
    sources: Seq<PackagePath>,
    contents: Seq<Result<Arc<RecoveredSegment>, String>>,
    stop: MergeStop,
) -> bool {
    match stop {
        MergeStop::Io { path, message } => exists|p: int|
            0 <= p < sources.len() && (#[trigger] sources[p])@ == path && (contents[p] matches Err(
                text,
            ) && text@ == message),
        MergeStop::Changed(path) => exists|p: int|
            0 <= p < sources.len() && (#[trigger] sources[p])@ == path && (contents[p] matches Ok(
                segment,
            ) && segment.tail != JournalTail::Clean),
        MergeStop::Conflict(sequence) => exists|a: Arc<JournalFrame>, b: Arc<JournalFrame>|
            #[trigger] is_read(contents, a) && #[trigger] is_read(contents, b) && a.sequence
                == sequence && b.sequence == sequence && a@ != b@,
    }
}

proof fn lemma_merge_reads(
    sources: Seq<PackagePath>,
    contents: Seq<Result<Arc<RecoveredSegment>, String>>,
    i: int,
)
    requires
        0 <= i <= sources.len(),
        contents.len() == sources.len(),
    ensures
        match merged_frames(sources, contents, i) {
            Ok(done) => {
                &&& forall|k: int| 0 <= k < done.len() ==> is_read(contents, #[trigger] done[k])
                &&& distinct(done)
                &&& forall|p: int|
                    0 <= p < i ==> (#[trigger] contents[p] matches Ok(segment) && segment.tail
                        == JournalTail::Clean)
            },
            Err(stop) => stop_holds(sources, contents, stop),
        },
    decreases i,
{
    if i > 0 {
        lemma_merge_reads(sources, contents, i - 1);
        if let Ok(done) = merged_frames(sources, contents, i - 1) {
            match contents[i - 1] {
                Err(message) => {
                    assert(sources[i - 1]@ == sources[i - 1]@);
                },
                Ok(segment) => {
                    let frames = segment.frames@;
                    lemma_gathered_from(done, frames, frames.len() as int);
                    assert forall|x: Arc<JournalFrame>| #[trigger] frames.contains(x) implies is_read(
                        contents,
                        x,
                    ) by {
                        let f = choose|f: int| 0 <= f < frames.len() && frames[f] == x;
                        assert(contents[i - 1]->Ok_0.frames@[f] == x);
                    }
                    assert forall|x: Arc<JournalFrame>| #[trigger] done.contains(x) implies is_read(
                        contents,
                        x,
                    ) by {
                        let d = choose|d: int| 0 <= d < done.len() && done[d] == x;
                        assert(is_read(contents, done[d]));
                    }
                    if segment.tail == JournalTail::Clean {
                        if let Err(stop) = gathered(done, frames, frames.len() as int) {
                            let sequence = stop->Conflict_0;
                            let (a, b) = choose|a: Arc<JournalFrame>, b: Arc<JournalFrame>|
                                #[trigger] in_either(done, frames, a) && #[trigger] in_either(
                                    done,
                                    frames,
                                    b,
                                ) && a.sequence == sequence && b.sequence == sequence && a@ != b@;
                            assert(is_read(contents, a) && is_read(contents, b));
                        }
                    } else {
                        assert(sources[i - 1]@ == sources[i - 1]@);
                    }
                },
            }
        }
    }
}

/// What a compaction writes is one history: commands numbered one after the other, each
/// from the revision that the one before it led to, and all of them read from the segments
/// that are merged, which are clean.
pub proof fn compacted_segments_are_one_history(
    journals: Seq<PackagePath>,
    sources: Seq<PackagePath>,
    contents: Seq<Result<Arc<RecoveredSegment>, String>>,
    name: String,
    frames: Vec<Arc<JournalFrame>>,
)
    requires
        contents.len() == sources.len(),
        compaction_outcome(
            journals,
            sources,
            contents,
            Ok(Compaction::Write { name, frames }),
        ),
    ensures
        frames@.len() > 0,
        forall|i: int|
            0 <= i < frames@.len() - 1 ==> (#[trigger] frames@[i]).sequence + 1 == frames@[i
                + 1].sequence && frames@[i].resulting_revision == frames@[i + 1].base_revision,
        forall|i: int| 0 <= i < frames@.len() ==> is_read(contents, #[trigger] frames@[i]),
        forall|p: int|
            0 <= p < sources.len() ==> (#[trigger] contents[p] matches Ok(segment) && segment.tail
                == JournalTail::Clean),
{
    lemma_merge_reads(sources, contents, sources.len() as int);
    let found = merged_frames(sources, contents, sources.len() as int)->Ok_0;
    let list = to_order(found);
    lemma_ranked_members(list);
    assert forall|i: int| 0 <= i < frames@.len() implies is_read(contents, #[trigger] frames@[i]) by {
        let item = ranked(list)[i];
        assert(frames@[i] == item.frame);
        assert(ranked(list).contains(item));
        assert(list.contains(item));
        let k = choose|k: int| 0 <= k < list.len() && list[k] == item;
        assert(found[k] == frames@[i]);
    }
    assert forall|i: int| 0 <= i < frames@.len() - 1 implies (#[trigger] frames@[i]).sequence + 1
        == frames@[i + 1].sequence && frames@[i].resulting_revision
        == frames@[i + 1].base_revision by {
        assert(goes_on(frames@, i));
    }
}

/// Whether a candidate is a clean segment with commands, under a path.
pub open spec fn is_clean_at(candidate: JournalRecoveryCandidate, path: PackagePath) -> bool {
    &&& candidate.tail == JournalTail::Clean
    &&& candidate.first_sequence is Some
    &&& candidate.path == path
}

proof fn lemma_clean(list: Seq<JournalRecoveryCandidate>, i: int)
    requires
        0 <= i <= list.len(),
    ensures
        forall|c: CleanView|
            #[trigger] clean_segments(list, i).contains(c) <==> exists|k: int|
                0 <= k < i && is_clean_at(#[trigger] list[k], c.path) && list[k].first_sequence
                    == Some(c.first_sequence),
    decreases i,
{
    if i > 0 {
        lemma_clean(list, i - 1);
        let before = clean_segments(list, i - 1);
        let after = clean_segments(list, i);
        assert forall|c: CleanView| #[trigger] after.contains(c) <==> exists|k: int|
            0 <= k < i && is_clean_at(#[trigger] list[k], c.path) && list[k].first_sequence
                == Some(c.first_sequence) by {
            if after.contains(c) {
                let a = choose|a: int| 0 <= a < after.len() && after[a] == c;
                if a < before.len() {
                    assert(before[a] == c);
                    assert(before.contains(c));
                } else {
                    assert(is_clean_at(list[i - 1], c.path));
                }
            }
            if exists|k: int|
                0 <= k < i && is_clean_at(#[trigger] list[k], c.path) && list[k].first_sequence
                    == Some(c.first_sequence) {
                let k = choose|k: int|
                    0 <= k < i && is_clean_at(#[trigger] list[k], c.path)
                        && list[k].first_sequence == Some(c.first_sequence);
                if k < i - 1 {
                    assert(before.contains(c));
                    let a = choose|a: int| 0 <= a < before.len() && before[a] == c;
                    assert(after[a] == c);
                } else {
                    assert(after[after.len() - 1] == c);
                }
            }
        }
    } else {
        assert(clean_segments(list, i) =~= Seq::<CleanView>::empty());
    }
}

/// Only clean segments are merged, and the oldest of them: no clean segment that stays
/// starts before one that is merged.
pub proof fn the_oldest_clean_segments_are_merged(
    found: RecoveryDiscovery,
    max_active_segments: usize,
    sources: Vec<PackagePath>,
)
    requires
        is_compaction_step(Ok(CompactionStep::Merge(sources)), found, max_active_segments),
    ensures
        sources@.len() >= 2,
        forall|s: int|
            0 <= s < sources@.len() ==> exists|k: int|
                0 <= k < found.journal_candidates@.len() && is_clean_at(
                    #[trigger] found.journal_candidates@[k],
                    #[trigger] sources@[s],
                ),
        forall|k: int|
            0 <= k < found.journal_candidates@.len() && is_clean_at(
                #[trigger] found.journal_candidates@[k],
                found.journal_candidates@[k].path,
            ) ==> sources@.contains(found.journal_candidates@[k].path) || forall|s: int|
                0 <= s < sources@.len() ==> starts_no_later(
                    found.journal_candidates@,
                    #[trigger] sources@[s],
                    found.journal_candidates@[k].first_sequence->0,
                ),
{
    let list = found.journal_candidates@;
    let n = list.len() as int;
    let clean = clean_segments(list, n);
    lemma_clean(list, n);
    lemma_ranked_members(clean);
    ranked_is_an_ordering(clean);
    let order = ranked(clean);
    let count = compact_count(order.len() as int, max_active_segments as int);
    assert(clean_paths(order).len() == order.len());
    assert forall|s: int| 0 <= s < sources@.len() implies order.contains(order[s]) && sources@[s]
        == (#[trigger] order[s]).path by {
        assert(clean_paths(order).take(count)[s] == clean_paths(order)[s]);
    }
    assert forall|s: int| 0 <= s < sources@.len() implies exists|k: int|
        0 <= k < n && is_clean_at(#[trigger] list[k], #[trigger] sources@[s]) by {
        assert(sources@[s] == order[s].path);
        assert(clean.contains(order[s]));
    }
    assert forall|k: int| 0 <= k < n && is_clean_at(#[trigger] list[k], list[k].path) implies sources@.contains(
        list[k].path,
    ) || forall|s: int|
        0 <= s < sources@.len() ==> starts_no_later(
            list,
            #[trigger] sources@[s],
            list[k].first_sequence->0,
        ) by {
        let c = CleanView { first_sequence: list[k].first_sequence->0, path: list[k].path };
        assert(clean.contains(c));
        assert(order.contains(c));
        let o = choose|o: int| 0 <= o < order.len() && order[o] == c;
        if o < count {
            assert(sources@[o] == order[o].path);
        } else {
            assert forall|s: int| 0 <= s < sources@.len() implies starts_no_later(
                list,
                #[trigger] sources@[s],
                list[k].first_sequence->0,
            ) by {
                assert(sources@[s] == order[s].path);
                assert(!rank_lt(order[o].rank(), order[s].rank()));
                assert(order[o].rank()[0] == order[o].first_sequence);
                assert(order[s].rank()[0] == order[s].first_sequence);
                assert(clean.contains(order[s]));
                let m = choose|m: int|
                    0 <= m < n && is_clean_at(#[trigger] list[m], order[s].path)
                        && list[m].first_sequence == Some(order[s].first_sequence);
                assert(list[m].path == sources@[s]);
            }
        }
    }
}

/// Whether a segment at a path starts no later than with a number.
pub open spec fn starts_no_later(
    list: Seq<JournalRecoveryCandidate>,
    path: PackagePath,
    sequence: u64,
) -> bool {
    exists|m: int|
        0 <= m < list.len() && (#[trigger] list[m]).path == path && (
        list[m].first_sequence matches Some(first) && first <= sequence)
}

} // verus!
