//! What is written and what is shown of it: no file is replaced that should stay, runs of
//! steps come to what their replies say, values are told apart by what they hold, and rows
//! show what they stand for.

use vstd::prelude::*;

use crate::compacting::{CompactReply, CompactRun, CompactStep};
use crate::compaction::obsolete;
use crate::effects::{
    comparison_of, covering, extent_fault, invalid_region, selection_outcome, EffectFault,
    EffectView, ReadingEffectBridgeError, ReadingRevealPlan, ReadingRevealSubject,
    SelectedAspect,
};
use crate::json::{json_value, member_value, value_from};
use crate::navigation::{
    bit_patterns_are_ordered_as_numbers, exponents_tell_numbers, units, AspectGeometryDto,
    EntityRefKey, RegionDto, SignalLayerDto,
};
use crate::objects::{ComparisonId, ExplanationId};
use crate::packages::{
    is_autosave_plan, is_primary_plan, written_once, ExistingFile, ProjectPackage, ProjectStore,
    SavePlan,
};
use crate::pane::PaneView;
use crate::panels::{builder_row, result_row};
use crate::query_builder::RowView;
use crate::query_document::latest_hits;
use crate::saving::{SaveReply, SaveRun, SaveStep};
use crate::selection::{ProjectSelection, SelectionGuard, SelectionSource, WorkspaceViewId};
use crate::source_graph::{ComparisonDefinition, FrameSpan, InterpretationStore};
use crate::store::{
    store_notes, CheckpointKind, PackagePath, PathView, ProjectStoreError, SaveResult,
};

verus! {

// ----- files that must not be replaced --------------------------------------

/// A file is created where there is none, left alone where it holds the same bytes, and a
/// conflict at its path where it holds others.
pub proof fn files_are_written_once(path: PackagePath, existing: ExistingFile, bytes: Seq<u8>)
    ensures
        written_once(path, existing, bytes) == Ok::<bool, ProjectStoreError>(true)
            <==> existing is Absent,
        written_once(path, existing, bytes) == Ok::<bool, ProjectStoreError>(false) <==> (
        existing matches ExistingFile::Present(there) && there@ == bytes),
        written_once(path, existing, bytes) == Err::<bool, ProjectStoreError>(
            ProjectStoreError::ImmutablePayloadConflict(path),
        ) <==> (existing matches ExistingFile::Present(there) && there@ != bytes),
{
}

/// What a reply shows to be in the file that a save is at.
pub open spec fn content_shown(step: SaveStep, reply: SaveReply) -> Option<Seq<u8>> {
    match (step, reply) {
        (SaveStep::LookAtPayload(_), SaveReply::Found(ExistingFile::Present(there))) => Some(there@),
        (SaveStep::LookAtManifest, SaveReply::Found(ExistingFile::Present(there))) => Some(there@),
        (SaveStep::CreatePayload(_), SaveReply::Beaten(Ok(there))) => Some(there@),
        (SaveStep::CreateManifest, SaveReply::Beaten(Ok(there))) => Some(there@),
        _ => None,
    }
}

/// The file that a save is at, and what it has to hold.
pub open spec fn file_of(run: SaveRun) -> Option<(PackagePath, Seq<u8>)> {
    match run.step {
        SaveStep::LookAtPayload(i) | SaveStep::CreatePayload(i) => Some(
            (run.payloads@[i as int].path->Ok_0, run.payloads@[i as int].bytes@),
        ),
        SaveStep::LookAtManifest | SaveStep::CreateManifest => Some(
            (run.plan.manifest, run.manifest->Ok_0@),
        ),
        _ => None,
    }
}

/// A save creates a file only after it found none there. It fails with a conflict exactly
/// where other bytes than its own were shown, and names the file that holds them.
pub proof fn saves_replace_no_payload(run: SaveRun, reply: SaveReply)
    requires
        run.wf(),
        run.error is None,
    ensures
        ({
            let next = run.after(reply);
            let shown = content_shown(run.step, reply);
            &&& (next.step is CreatePayload || next.step is CreateManifest) && next.step
                != run.step ==> reply == SaveReply::Found(ExistingFile::Absent)
            &&& (run.step is LookAtPayload || run.step is LookAtManifest) && reply
                == SaveReply::Found(ExistingFile::Absent) ==> next.step is CreatePayload
                || next.step is CreateManifest
            &&& next.error matches Some(ProjectStoreError::ImmutablePayloadConflict(path)) ==> {
                &&& next.step is Stop
                &&& file_of(run) matches Some(file)
                &&& shown matches Some(there)
                &&& path == file.0
                &&& there != file.1
            }
            &&& shown matches Some(there) ==> (file_of(run) matches Some(file) && (there != file.1
                ==> next.step is Stop && next.error == Some(
                ProjectStoreError::ImmutablePayloadConflict(file.0),
            )))
        }),
{
}

/// A save counts exactly the payloads that it created, and takes them in their order: it
/// goes on to the payload after the one that is there, and to the manifest after the last.
pub proof fn saves_count_what_they_create(run: SaveRun, reply: SaveReply)
    requires
        run.wf(),
    ensures
        ({
            let next = run.after(reply);
            &&& next.published == run.published + if run.step is CreatePayload && reply is Written {
                1int
            } else {
                0int
            }
            &&& next.plan == run.plan && next.payloads == run.payloads && next.manifest
                == run.manifest
            &&& next.step matches SaveStep::LookAtPayload(k) ==> (next.step == run.step || (
            run.step is MakeRoot && k == 0) || (run.step == SaveStep::LookAtPayload(
                (k - 1) as usize,
            ) && k > 0) || (run.step == SaveStep::CreatePayload((k - 1) as usize) && k > 0))
            &&& (next.step is LookAtManifest || next.step is ReplaceManifest) && next.step
                != run.step ==> (match run.step {
                SaveStep::MakeRoot => run.payloads@.len() == 0,
                SaveStep::LookAtPayload(i) => i + 1 == run.payloads@.len(),
                SaveStep::CreatePayload(i) => i + 1 == run.payloads@.len(),
                _ => false,
            })
            &&& next.step is ReplaceManifest && next.step != run.step ==> run.plan.kind
                == CheckpointKind::Primary
            &&& next.step is LookAtManifest && next.step != run.step ==> run.plan.kind
                == CheckpointKind::Autosave
        }),
{
    assert(run.payloads.len() <= usize::MAX);
}

/// A save completes where its manifest is there: a primary save at once, an autosave after
/// the old ones were looked after, which it tells as it was told.
pub proof fn saves_complete_with_their_manifest(run: SaveRun, reply: SaveReply)
    requires
        run.wf(),
    ensures
        ({
            let next = run.after(reply);
            &&& next.step is Finish && run.step !is Finish ==> {
                ||| run.step is ReplaceManifest && reply is Written
                ||| run.step is Rotate && reply == SaveReply::Rotated(next.rotation)
            }
            &&& next.step is Rotate && run.step !is Rotate ==> {
                ||| run.step is CreateManifest && reply is Written
                ||| content_shown(run.step, reply) == Some(run.manifest->Ok_0@)
            }
            &&& run.step is CreateManifest && reply is Written ==> next.step is Rotate
            &&& run.step is ReplaceManifest && reply is Written ==> next.step is Finish
            &&& (run.step is LookAtManifest || run.step is CreateManifest) && content_shown(
                run.step,
                reply,
            ) == Some(run.manifest->Ok_0@) ==> next.step is Rotate
            &&& run.step is Rotate && reply is Rotated ==> next.step is Finish && reply
                == SaveReply::Rotated(next.rotation)
            &&& run.step !is Rotate ==> next.rotation == run.rotation
        }),
{
}

/// What could not be done before the manifest was there ends a save, with its path and
/// message. After that nothing does.
pub proof fn saves_fail_with_what_failed(run: SaveRun, path: PackagePath, message: String)
    requires
        run.wf(),
    ensures
        ({
            let next = run.after(SaveReply::Failed { path, message });
            if run.step is Rotate || run.step is Finish || run.step is Stop {
                next == run
            } else {
                next.step is Stop && next.error == Some(ProjectStoreError::Io { path, message })
            }
        }),
        run.step is Finish || run.step is Stop ==> forall|reply: SaveReply| #[trigger]
            run.after(reply) == run,
{
}

/// A compaction creates its segment only where none was found, and removes what it stands
/// for one by one and in order, none before the segment is there with the right bytes.
pub proof fn compactions_replace_no_segment(run: CompactRun, reply: CompactReply)
    requires
        run.wf(),
        run.error is None,
    ensures
        ({
            let next = run.after(reply);
            let there = match (run.step, reply) {
                (CompactStep::Look, CompactReply::Found(ExistingFile::Present(there))) => Some(
                    there@,
                ),
                (CompactStep::Create, CompactReply::Beaten(Ok(there))) => Some(there@),
                _ => None,
            };
            &&& next.step is Create && run.step !is Create <==> run.step is Look && reply
                == CompactReply::Found(ExistingFile::Absent)
            &&& next.error == Some(ProjectStoreError::ImmutablePayloadConflict(run.path)) <==> (
            there matches Some(bytes) && bytes != run.bytes@)
            &&& next.step matches CompactStep::Remove(k) ==> (next.step == run.step || (if k == 0 {
                (run.step is Create && reply is Written) || there == Some(run.bytes@)
            } else {
                run.step == CompactStep::Remove((k - 1) as usize) && reply is Removed
            }))
            &&& next.step is Survey && run.step !is Survey ==> (match run.step {
                CompactStep::Remove(i) => i + 1 == run.obsolete@.len() && reply is Removed,
                _ => run.obsolete@.len() == 0 && ((run.step is Create && reply is Written) || there
                    == Some(run.bytes@)),
            })
            &&& next.step is Finish && run.step !is Finish <==> run.step is Survey
                && reply is Surveyed
            &&& run.step is Survey ==> (reply matches CompactReply::Surveyed(active) ==> next.active
                == active)
            &&& next.path == run.path && next.bytes == run.bytes && next.sources == run.sources
                && next.obsolete == run.obsolete && next.frames == run.frames
        }),
{
    assert(run.obsolete.len() <= usize::MAX);
}

/// All segments are obsolete but the one that stands for them, in their order.
pub proof fn merged_segments_are_obsolete(sources: Seq<PackagePath>, compacted: PathView, i: int)
    requires
        0 <= i <= sources.len(),
    ensures
        forall|k: int|
            0 <= k < i && (#[trigger] sources[k])@ != compacted ==> obsolete(
                sources,
                compacted,
                i,
            ).contains(sources[k]),
        forall|k: int|
            0 <= k < obsolete(sources, compacted, i).len() ==> {
                let path = #[trigger] obsolete(sources, compacted, i)[k];
                path@ != compacted && sources.take(i).contains(path)
            },
        (forall|k: int| 0 <= k < i ==> (#[trigger] sources[k])@ != compacted) ==> obsolete(
            sources,
            compacted,
            i,
        ) =~= sources.take(i),
    decreases i,
{
    if i > 0 {
        merged_segments_are_obsolete(sources, compacted, i - 1);
        let before = obsolete(sources, compacted, i - 1);
        let now = obsolete(sources, compacted, i);
        assert(sources.take(i) =~= sources.take(i - 1).push(sources[i - 1]));
        assert forall|k: int| 0 <= k < i && (#[trigger] sources[k])@ != compacted implies now.contains(
            sources[k],
        ) by {
            if k < i - 1 {
                assert(before.contains(sources[k]));
                let m = choose|m: int| 0 <= m < before.len() && before[m] == sources[k];
                assert(now[m] == sources[k]);
            } else {
                assert(now[now.len() - 1] == sources[k]);
            }
        }
        assert forall|k: int| 0 <= k < now.len() implies {
            let path = #[trigger] now[k];
            path@ != compacted && sources.take(i).contains(path)
        } by {
            if k < before.len() {
                assert(now[k] == before[k]);
                let earlier = sources.take(i - 1);
                assert(earlier.contains(before[k]));
                let m = choose|m: int| 0 <= m < earlier.len() && earlier[m] == before[k];
                assert(sources.take(i)[m] == now[k]);
            } else {
                assert(sources.take(i)[i - 1] == now[k]);
            }
        }
    }
}

/// A plan saves one revision: in place as the project itself, which is no autosave, or
/// beside it as an autosave of that revision.
pub proof fn plans_say_what_they_save(
    plan: SavePlan,
    package: ProjectPackage,
    revision: u64,
    saved_unix_ms: u64,
)
    ensures
        is_primary_plan(plan, package, revision) ==> {
            &&& plan.kind == CheckpointKind::Primary
            &&& !plan.recovery.is_autosave
            &&& plan.manifest == package.manifest
            &&& plan.expected_revision == revision
        },
        is_autosave_plan(plan, package, revision, saved_unix_ms) ==> {
            &&& plan.kind == CheckpointKind::Autosave
            &&& plan.recovery.is_autosave
            &&& plan.recovery.base_project_revision == revision
            &&& plan.recovery.saved_unix_ms == saved_unix_ms
            &&& plan.recovery.primary_file_name == package.name
            &&& plan.manifest@.directory == package.recovery_directory@
            &&& plan.expected_revision == revision
        },
{
}

/// What a save came to names the plan's kind, file and revision. Only an autosave removes
/// others, and a rotation that failed is told and has removed none.
pub proof fn results_tell_the_save(
    store: ProjectStore,
    result: SaveResult,
    plan: SavePlan,
    published: usize,
    rotation: Result<usize, String>,
)
    requires
        store.is_save_result(result, plan, published, rotation),
    ensures
        result.kind == plan.kind,
        result.manifest_path == plan.manifest,
        result.revision_guard.revision == plan.expected_revision,
        result.payloads_published == published,
        result.recovery_checkpoints_pruned > 0 ==> plan.kind == CheckpointKind::Autosave
            && rotation == Ok::<usize, String>(result.recovery_checkpoints_pruned),
        plan.kind == CheckpointKind::Autosave ==> (rotation matches Ok(count) ==> count
            == result.recovery_checkpoints_pruned),
        result.maintenance_diagnostics@.len() > 0 <==> plan.kind == CheckpointKind::Autosave
            && rotation is Err,
        plan.kind == CheckpointKind::Autosave ==> (rotation matches Err(message) ==> (
        result.maintenance_diagnostics@.len() == 1 && result.maintenance_diagnostics@[0].message@
            == message@)),
{
    if plan.kind == CheckpointKind::Autosave && rotation is Err {
        let notes = store_notes(result.maintenance_diagnostics@);
        assert(notes.len() == result.maintenance_diagnostics@.len());
        assert(notes[0].message == result.maintenance_diagnostics@[0].message@);
    }
}

// ----- values as texts ------------------------------------------------------

proof fn lemma_unquoted(text: Seq<char>, i: int)
    requires
        0 <= i <= text.len(),
        forall|k: int|
            0 <= k < text.len() && #[trigger] text[k] == '-' ==> k + 1 >= text.len() || text[k + 1]
                != '0' || k + 4 > text.len() || text[k + 2] != '.' || text[k + 3] != '0' || (k + 4
                < text.len() && ('0' <= text[k + 4] <= '9' || text[k + 4] == 'e' || text[k + 4]
                == 'E')),
    ensures
        forall|within: bool| #[trigger] value_from(text, i, within) =~= text.skip(i),
    decreases text.len() - i,
{
    assert forall|within: bool| #[trigger] value_from(text, i, within) =~= text.skip(i) by {
        if i < text.len() {
            lemma_unquoted(text, i + 1);
            assert(text.skip(i) =~= seq![text[i]] + text.skip(i + 1));
            if i + 1 < text.len() {
                lemma_unquoted(text, i + 2);
                assert(text.skip(i) =~= seq![text[i], text[i + 1]] + text.skip(i + 2));
                assert(value_from(text, i + 2, true) =~= text.skip(i + 2));
            }
            assert(value_from(text, i + 1, within) =~= text.skip(i + 1));
            assert(value_from(text, i + 1, !within) =~= text.skip(i + 1));
        }
    }
}

/// A value is its text, unless a zero in it has a sign.
pub proof fn values_are_their_texts(text: Seq<char>)
    requires
        forall|k: int|
            0 <= k < text.len() && #[trigger] text[k] == '-' ==> k + 1 >= text.len() || text[k + 1]
                != '0' || k + 4 > text.len() || text[k + 2] != '.' || text[k + 3] != '0' || (k + 4
                < text.len() && ('0' <= text[k + 4] <= '9' || text[k + 4] == 'e' || text[k + 4]
                == 'E')),
    ensures
        json_value(text) == text,
{
    lemma_unquoted(text, 0);
    assert(value_from(text, 0, false) =~= text.skip(0));
    assert(text.skip(0) =~= text);
}

proof fn lemma_inside(text: Seq<char>, i: int)
    requires
        1 <= i < text.len(),
        text.last() == '"',
        forall|k: int| 1 <= k < text.len() - 1 ==> #[trigger] text[k] != '"' && text[k] != '\\',
    ensures
        value_from(text, i, true) =~= text.skip(i),
    decreases text.len() - i,
{
    assert(text.skip(i) =~= seq![text[i]] + text.skip(i + 1));
    if i < text.len() - 1 {
        lemma_inside(text, i + 1);
    } else {
        assert(value_from(text, i + 1, false) =~= text.skip(i + 1));
    }
}

/// What stands in quotes is kept as it is.
pub proof fn strings_are_their_texts(text: Seq<char>)
    requires
        text.len() >= 2,
        text[0] == '"',
        text.last() == '"',
        forall|k: int| 1 <= k < text.len() - 1 ==> #[trigger] text[k] != '"' && text[k] != '\\',
    ensures
        json_value(text) == text,
{
    lemma_inside(text, 1);
    assert(text.skip(0) =~= seq![text[0]] + text.skip(1));
    assert(text.skip(0) =~= text);
}

proof fn lemma_before_a_zero(text: Seq<char>, other: Seq<char>, n: int, i: int)
    requires
        0 <= i <= n,
        text.len() == n + 4,
        other.len() == n + 3,
        forall|k: int| 0 <= k < n ==> #[trigger] text[k] == other[k],
        forall|k: int| 0 <= k < n ==> #[trigger] text[k] != '-' && text[k] != '"',
        text[n] == '-' && text[n + 1] == '0' && text[n + 2] == '.' && text[n + 3] == '0',
        other[n] == '0' && other[n + 1] == '.' && other[n + 2] == '0',
    ensures
        value_from(text, i, false) =~= value_from(other, i, false),
    decreases n - i,
{
    if i < n {
        lemma_before_a_zero(text, other, n, i + 1);
    } else {
        assert(value_from(text, n, false) == value_from(text, n + 1, false));
        assert(value_from(text, n + 4, false) =~= Seq::empty());
        assert(value_from(text, n + 3, false) =~= seq!['0']);
        assert(value_from(text, n + 2, false) =~= seq!['.', '0']);
        assert(value_from(text, n + 1, false) =~= seq!['0', '.', '0']);
        assert(value_from(other, n + 3, false) =~= Seq::empty());
        assert(value_from(other, n + 2, false) =~= seq!['0']);
        assert(value_from(other, n + 1, false) =~= seq!['.', '0']);
        assert(value_from(other, n, false) =~= seq!['0', '.', '0']);
    }
}

/// A zero with a sign is the same value as one without, wherever it stands.
pub proof fn zeros_are_the_same_value(before: Seq<char>)
    requires
        forall|k: int| 0 <= k < before.len() ==> #[trigger] before[k] != '-' && before[k] != '"',
    ensures
        json_value(before + seq!['-', '0', '.', '0']) == json_value(before + seq!['0', '.', '0']),
{
    lemma_before_a_zero(
        before + seq!['-', '0', '.', '0'],
        before + seq!['0', '.', '0'],
        before.len() as int,
        0,
    );
}

/// A member is found exactly where its name is among the members, with the value that
/// stands there last.
pub proof fn members_are_found_by_name(members: Seq<(Seq<char>, Seq<char>)>, name: Seq<char>)
    ensures
        match member_value(members, name) {
            Some(value) => exists|i: int|
                0 <= i < members.len() && (#[trigger] members[i]).0 == name && members[i].1 == value
                    && forall|k: int| i < k < members.len() ==> (#[trigger] members[k]).0 != name,
            None => forall|i: int| 0 <= i < members.len() ==> (#[trigger] members[i]).0 != name,
        },
    decreases members.len(),
{
    if members.len() > 0 {
        let rest = members.drop_last();
        let n = members.len() - 1;
        if members.last().0 == name {
            assert(members[n].0 == name);
        } else {
            members_are_found_by_name(rest, name);
            if member_value(rest, name) is Some {
                let value = member_value(rest, name)->0;
                let i = choose|i: int|
                    0 <= i < rest.len() && (#[trigger] rest[i]).0 == name && rest[i].1 == value
                        && forall|k: int| i < k < rest.len() ==> (#[trigger] rest[k]).0 != name;
                assert(members[i].0 == name && members[i].1 == value);
                assert forall|k: int| i < k < members.len() implies (#[trigger] members[k]).0
                    != name by {
                    if k < n {
                        assert(rest[k].0 != name);
                    }
                }
            } else {
                assert forall|i: int| 0 <= i < members.len() implies (#[trigger] members[i]).0
                    != name by {
                    if i < n {
                        assert(rest[i].0 != name);
                    }
                }
            }
        }
    }
}

// ----- regions and comparisons ----------------------------------------------

/// A region covers at least one frame and a band of finite numbers that begins at or above
/// zero and ends above that.
pub proof fn regions_cover_something(region: RegionDto)
    ensures
        region.is_valid() <==> {
            &&& region.start_frame < region.end_frame
            &&& (region.min_hz_bits / 0x80_0000) % 0x100 != 0xff
            &&& (region.max_hz_bits / 0x80_0000) % 0x100 != 0xff
            &&& 0 <= units(region.min_hz_bits)
            &&& units(region.min_hz_bits) < units(region.max_hz_bits)
        },
{
    exponents_tell_numbers(region.min_hz_bits);
    exponents_tell_numbers(region.max_hz_bits);
    if (region.min_hz_bits / 0x80_0000) % 0x100 != 0xff && (region.max_hz_bits / 0x80_0000) % 0x100
        != 0xff {
        bit_patterns_are_ordered_as_numbers(region.min_hz_bits, region.max_hz_bits);
        bit_patterns_are_ordered_as_numbers(0, region.min_hz_bits);
        bit_patterns_are_ordered_as_numbers(region.min_hz_bits, 0);
        assert(units(0) == 0);
    }
}

proof fn lemma_invalid_region(regions: Seq<RegionDto>, i: int)
    requires
        0 <= i <= regions.len(),
    ensures
        match invalid_region(regions, i) {
            None => forall|k: int| i <= k < regions.len() ==> (#[trigger] regions[k]).is_valid(),
            Some(region) => exists|k: int|
                i <= k < regions.len() && (#[trigger] regions[k]) == region && !region.is_valid()
                    && forall|m: int| i <= m < k ==> (#[trigger] regions[m]).is_valid(),
        },
    decreases regions.len() - i,
{
    if i < regions.len() {
        lemma_invalid_region(regions, i + 1);
        if !regions[i].is_valid() {
            assert(regions[i] == invalid_region(regions, i)->0);
        } else if invalid_region(regions, i + 1) is Some {
            let region = invalid_region(regions, i + 1)->0;
            let k = choose|k: int|
                i + 1 <= k < regions.len() && (#[trigger] regions[k]) == region
                    && !region.is_valid() && forall|m: int|
                    i + 1 <= m < k ==> (#[trigger] regions[m]).is_valid();
            assert(regions[k] == region);
        }
    }
}

/// An extent is at fault for the first of its regions that covers nothing, and for none
/// where all of them cover something.
pub proof fn the_first_empty_region_is_at_fault(extent: AspectGeometryDto)
    ensures
        match extent_fault(Some(extent)) {
            None => forall|k: int|
                0 <= k < extent.regions@.len() ==> (#[trigger] extent.regions@[k]).is_valid(),
            Some(region) => exists|k: int|
                0 <= k < extent.regions@.len() && (#[trigger] extent.regions@[k]) == region
                    && !region.is_valid() && forall|m: int|
                    0 <= m < k ==> (#[trigger] extent.regions@[m]).is_valid(),
        },
        extent_fault(None) is None,
{
    lemma_invalid_region(extent.regions@, 0);
}

/// Whether a comparison is of an explanation and holds the frames.
pub open spec fn explains(
    definition: ComparisonDefinition,
    explanation: ExplanationId,
    focus: FrameSpan,
) -> bool {
    &&& definition.explanation == explanation
    &&& definition.source.project_span.start <= focus.start
    &&& focus.end <= definition.source.project_span.end
}

proof fn lemma_covering_empty(
    list: Seq<ComparisonDefinition>,
    explanation: ExplanationId,
    focus: FrameSpan,
    i: int,
)
    requires
        0 <= i <= list.len(),
    ensures
        covering(list, explanation, focus, i).len() == 0 <==> forall|k: int|
            0 <= k < i ==> !explains(#[trigger] list[k], explanation, focus),
        forall|k: int|
            0 <= k < i && explains(#[trigger] list[k], explanation, focus) ==> covering(
                list,
                explanation,
                focus,
                i,
            ).contains(list[k].id),
    decreases i,
{
    if i > 0 {
        lemma_covering_empty(list, explanation, focus, i - 1);
        let before = covering(list, explanation, focus, i - 1);
        let now = covering(list, explanation, focus, i);
        if now.len() == 0 {
            assert(before.len() == 0);
        }
        if explains(list[i - 1], explanation, focus) {
            assert(now == before.push(list[i - 1].id));
        }
        assert forall|k: int|
            0 <= k < i && explains(#[trigger] list[k], explanation, focus) implies now.contains(
            list[k].id,
        ) by {
            if k < i - 1 {
                let m = choose|m: int| 0 <= m < before.len() && before[m] == list[k].id;
                assert(now[m] == list[k].id);
            } else {
                assert(now[now.len() - 1] == list[k].id);
            }
        }
    }
}

/// An explanation has nothing to be heard through where no comparison of it holds the
/// frames. Where it is ambiguous, every comparison that does is named.
pub proof fn explanations_are_refused_for_a_reason(
    store: InterpretationStore,
    local_id: u64,
    focus: FrameSpan,
)
    ensures
        ({
            let reference = EntityRefKey::Project { kind: "explanation"@, local_id };
            let explanation = ExplanationId(local_id);
            let list = store.comparisons@;
            let outcome = comparison_of(store, reference, focus);
            &&& outcome == Err::<ComparisonId, EffectFault>(
                EffectFault::MissingExplanationComparison(explanation),
            ) <==> forall|k: int|
                0 <= k < list.len() ==> !explains(#[trigger] list[k], explanation, focus)
            &&& outcome matches Err(EffectFault::AmbiguousExplanationComparison {
                explanation: named,
                candidates,
            }) ==> {
                &&& named == explanation
                &&& candidates.len() > 1
                &&& forall|k: int|
                    0 <= k < list.len() && explains(#[trigger] list[k], explanation, focus)
                        ==> candidates.contains(list[k].id)
            }
        }),
{
    reveal_strlit("explanation");
    reveal_strlit("comparison");
    assert("explanation"@.len() != "comparison"@.len());
    lemma_covering_empty(
        store.comparisons@,
        ExplanationId(local_id),
        focus,
        store.comparisons@.len() as int,
    );
}

// ----- what is selected and shown -------------------------------------------

/// Whether geometry names entities of readings.
pub open spec fn names_a_reading(extent: AspectGeometryDto) -> bool {
    ||| exists|i: int| 0 <= i < extent.objects@.len() && (#[trigger] extent.objects@[i]) is Reading
    ||| match extent.signal {
        SignalLayerDto::Source => false,
        SignalLayerDto::Explanation { reference } => reference is Reading,
        SignalLayerDto::Residual { reference } => reference is Reading,
    }
}

/// A plan selects what it reveals and nothing beside it, for the state that it was made in.
/// Geometry goes with it where it names the project's own entities alone.
pub proof fn plans_select_what_they_reveal(
    view: EffectView,
    plan: ReadingRevealPlan,
    guard: SelectionGuard,
    source_view: WorkspaceViewId,
    aspect: Result<SelectedAspect, String>,
    selection: ProjectSelection,
)
    requires
        selection_outcome(view, plan, guard, source_view, aspect, Ok(selection)),
    ensures
        plan.pin == view.pin,
        selection.objects.secondary@.len() == 0,
        match plan.subject {
            ReadingRevealSubject::Object(object) => {
                &&& selection.objects.primary == Some(object)
                &&& selection.objects.guard == Some(guard)
                &&& selection.objects.provenance.source == SelectionSource::Reading
                &&& selection.objects.provenance.source_view == Some(source_view)
                &&& selection.air@.len() == 0
            },
            ReadingRevealSubject::Air(air) => {
                &&& selection.objects.primary is None
                &&& selection.air@.len() == 1
                &&& selection.air@[0] == air
            },
        },
        match plan.extent {
            None => selection.aspect is None && selection.signal is None && selection.time is None,
            Some(extent) => if names_a_reading(extent) {
                selection.aspect is None && selection.signal is None && selection.time is None
            } else {
                &&& selection.aspect matches Some(kept) && kept@ == extent@
                &&& aspect matches Ok(told) && selection.signal == told.signal && selection.time
                    == told.time
            },
        },
{
    if plan.extent is Some {
        let extent = plan.extent->0;
        if names_a_reading(extent) {
            if exists|i: int|
                0 <= i < extent.objects@.len() && (#[trigger] extent.objects@[i]) is Reading {
                let i = choose|i: int|
                    0 <= i < extent.objects@.len() && (#[trigger] extent.objects@[i]) is Reading;
                assert(extent@.objects[i] == extent.objects@[i]@);
            }
        } else {
            assert forall|i: int| 0 <= i < extent@.objects.len() implies (
            #[trigger] extent@.objects[i]) is Project by {
                assert(extent@.objects[i] == extent.objects@[i]@);
                assert(extent.objects@[i] !is Reading);
            }
        }
    }
}

/// A plan of another state selects nothing, and the refusal names both states.
pub proof fn stale_plans_select_nothing(
    view: EffectView,
    plan: ReadingRevealPlan,
    guard: SelectionGuard,
    source_view: WorkspaceViewId,
    aspect: Result<SelectedAspect, String>,
    outcome: Result<ProjectSelection, ReadingEffectBridgeError>,
)
    requires
        selection_outcome(view, plan, guard, source_view, aspect, outcome),
        plan.pin != view.pin,
    ensures
        outcome matches Err(error) && error@ == (EffectFault::StalePublication {
            expected: plan.pin,
            actual: view.pin,
        }),
{
}

/// A row of the results shows the hit at its place, and only the chosen one is marked.
pub proof fn result_rows_show_their_hit(pane: PaneView, i: int, j: int)
    requires
        0 <= i < latest_hits(pane.document).len(),
        0 <= j < latest_hits(pane.document).len(),
    ensures
        result_row(pane, i).fact == latest_hits(pane.document)[i].fact@,
        result_row(pane, i).selected && result_row(pane, j).selected ==> i == j,
        pane.selected_row is None ==> !result_row(pane, i).selected,
        pane.selected_row == Some(i as usize) && i <= usize::MAX ==> result_row(pane, i).selected,
{
}

/// A row of the draft stands at the place of its term, and is marked where that is chosen.
pub proof fn draft_rows_show_their_term(row: RowView, selected: Seq<usize>)
    ensures
        builder_row(row, selected).path == row.path,
        builder_row(row, selected).depth == row.depth,
        builder_row(row, selected).label == row.label,
        builder_row(row, row.path).selected,
        selected != row.path ==> !builder_row(row, selected).selected,
{
}

} // verus!
