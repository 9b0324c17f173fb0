//! Work that was prepared for one state is not taken for another, edits change what they
//! are about, and what is read is complete before it is used.

use vstd::arithmetic::power2::{
    lemma_pow2_pos, lemma_pow2_strictly_increases, lemma_pow2_unfold, pow2,
};
use vstd::prelude::*;

use crate::asking_laws::lemma_planned;
use crate::compaction::{is_compaction_step, CompactionStep, JournalCompactionResult};
use crate::journal::{segment_notes, JournalRecovery, JournalSegment};
use crate::json::{distinct_names, member_value, member_views, JsonMember, JsonPayload};
use crate::lifecycle::{
    compaction_state, is_journal_update, unwritten, LifecycleView, OpenedDocument,
    ProjectJournalPersistenceState, ProjectOpenCompletion, ProjectOpenRequest, ProjectSaveRequest,
};
use crate::live_project::ProjectRevisions;
use crate::navigation::{exponents_tell_numbers, optional_geometry, EntityRefDto};
use crate::objects::ObjectRef;
use crate::packages::{created_once, recovery_mismatch, Creation};
use crate::pane::{pane_edited, PaneView};
use crate::panels::{draft_hint, reading_row};
use crate::protocol::ReadingInputDto;
use crate::protocol_laws::padding_puts_zeros_in_front;
use crate::pyramid::{first_unclean, is_summary_level};
use crate::query_builder::{after_edit, DraftEdit};
use crate::query_document::{AuditionTarget, RevealTarget};
use crate::reading::{
    QualifiedEntityId, ReadingFile, ReadingId, ReadingSection, VerificationTier,
};
use crate::reading_codec::{
    is_patched, section_fault, section_index, EncodedReading, ReadingCodecError, SectionFault,
};
use crate::reading_export::{departed, departure_fault, ExportedReading};
use crate::reading_import::{
    planned_index, PortableEntityRecord, ReadingActionRefusal, ReadingImportPlan,
    ENTITY_SECTION_MAJOR, ENTITY_SECTION_NAME,
};
use crate::reading_source::{rejected_of, ResolutionView};
use crate::reading_workflow::{
    rejected_text, resolution_diagnostics, ReadingWorkflowDiagnosticCode, ReadingWorkflowRefusal,
    WorkflowFault,
};
use crate::receipts::{control_reveal_outcome, ControlRevealReceipt, CreatedControlIdentity};
use crate::selection::{
    ObjectSelection, SelectionGuard, SelectionProvenance, SelectionReconcileReport, SelectionView,
};
use crate::session::{
    control_outcome, current_guard, guarded_outcome, objects_outcome, reconciled_outcome,
    saved_outcome, stamped, ControlSessionOperation, ProjectSessionError, SavedMark, SessionView,
};
use crate::store::{
    has_extension, is_safe_leaf, segment_name, PackagePath, ProjectStoreError, RecoveryCheckpoint,
    RecoveryDiscovery, RecoveryMetadata,
};
use crate::streamed_waveform::{
    read_fault, reads_fault, PcmSpan, StreamingWaveformError, StreamingWaveformIndex,
};
use crate::text::{decimal, padded_decimal};
use crate::waveform_bins::is_floor_log2;
use crate::workflow_laws::reconciling_keeps_what_lives;
use crate::writing_laws::members_are_found_by_name;

verus! {

// ----- selections -----------------------------------------------------------

/// A selection that was prepared earlier is taken exactly if it carries the guard of what
/// is shown now, and then it is what is selected. Refused, it changes nothing.
pub proof fn prepared_selections_are_for_what_is_shown(
    before: SessionView,
    selection: SelectionView,
    outcome: Result<bool, ProjectSessionError>,
    after: SessionView,
)
    requires
        guarded_outcome(before, selection, outcome, after),
    ensures
        outcome is Ok <==> selection.guard is Some && selection.guard == current_guard(before),
        outcome is Ok ==> after.selection.selection == selection,
        outcome matches Ok(changed) ==> (changed <==> before.selection.selection != selection),
        outcome is Err ==> after == before,
        outcome == Err::<bool, ProjectSessionError>(ProjectSessionError::NoProject)
            <==> current_guard(before) is None,
        after.published == before.published,
        after.document_generation == before.document_generation,
        after.controller == before.controller,
        after.links == before.links,
        after.audio == before.audio,
{
}

/// Selecting objects takes them with the guard and the provenance, keeps time, aspect and
/// signal, and leaves no air selected.
pub proof fn stamped_selections_keep_the_rest(
    session: SessionView,
    objects: ObjectSelection,
    provenance: SelectionProvenance,
    guard: SelectionGuard,
)
    ensures
        ({
            let now = stamped(session, objects, provenance, guard);
            let then = session.selection.selection;
            &&& now.primary == objects.primary
            &&& now.secondary == objects.secondary@
            &&& now.guard == Some(guard)
            &&& now.provenance == provenance
            &&& now.time == then.time && now.aspect == then.aspect && now.signal == then.signal
            &&& now.air.len() == 0
        }),
{
}

/// Selecting objects selects them for what is shown now. Without a project nothing is
/// selected.
pub proof fn selected_objects_are_for_what_is_shown(
    before: SessionView,
    objects: ObjectSelection,
    provenance: SelectionProvenance,
    outcome: Result<bool, ProjectSessionError>,
    after: SessionView,
)
    requires
        objects_outcome(before, objects, provenance, outcome, after),
    ensures
        outcome is Ok <==> current_guard(before) is Some,
        outcome is Err ==> after == before,
        outcome is Ok ==> {
            let now = after.selection.selection;
            let then = before.selection.selection;
            &&& now.primary == objects.primary
            &&& now.secondary == objects.secondary@
            &&& now.guard == current_guard(before)
            &&& now.provenance == provenance
            &&& now.time == then.time && now.aspect == then.aspect && now.signal == then.signal
            &&& now.air.len() == 0
            &&& outcome == Ok::<bool, ProjectSessionError>(now != then)
        },
        after.published == before.published,
        after.controller == before.controller,
        after.links == before.links,
{
}

/// Where objects went away, only those stay selected that are left, and it is told how
/// many went and whether the first was among them. A selection for another state is left
/// alone.
pub proof fn what_is_gone_is_not_selected(
    before: SessionView,
    live: Seq<ObjectRef>,
    outcome: Result<SelectionReconcileReport, ProjectSessionError>,
    after: SessionView,
)
    requires
        reconciled_outcome(before, live, outcome, after),
    ensures
        outcome is Ok <==> before.selection.selection.guard is Some
            && before.selection.selection.guard == current_guard(before),
        outcome is Err ==> after == before,
        outcome matches Ok(report) ==> {
            let now = after.selection.selection;
            let then = before.selection.selection;
            &&& now.primary matches Some(object) ==> live.contains(object)
            &&& forall|k: int|
                0 <= k < now.secondary.len() ==> live.contains(#[trigger] now.secondary[k])
            &&& report.removed == then.secondary.len() - now.secondary.len() + (
            if then.primary is Some {
                1int
            } else {
                0
            }) - (if now.primary is Some {
                1int
            } else {
                0
            })
            &&& report.primary_removed <==> (then.primary matches Some(object) && !live.contains(
                object,
            ))
        },
        after.published == before.published,
        after.controller == before.controller,
{
    reconciling_keeps_what_lives(before.selection.selection, live);
}

/// A revision that was marked as saved is published with the mark. One that was not leaves
/// what is published, and a mark that failed leaves everything.
pub proof fn only_saved_revisions_are_marked(
    before: SessionView,
    mark: Result<SavedMark, String>,
    outcome: Result<bool, ProjectSessionError>,
    after: SessionView,
)
    requires
        saved_outcome(before, mark, outcome, after),
    ensures
        outcome is Ok <==> before.controller is Some && mark is Ok,
        outcome is Err ==> after == before,
        outcome matches Ok(marked) ==> {
            &&& marked == mark->Ok_0.marked
            &&& after.controller == Some(mark->Ok_0.controller)
            &&& !marked ==> after.published == before.published && after.events == before.events
            &&& marked ==> after.published.project == Some(mark->Ok_0.controller.snapshot)
        },
        after.selection == before.selection,
        after.links == before.links,
        after.document_generation == before.document_generation,
{
}

/// A step of the history is taken only from the revision that it was asked for; for
/// another both are told. An edit of a control is told with the revisions it led to, and
/// what fails changes nothing.
pub proof fn control_steps_are_for_one_revision(
    before: SessionView,
    operation: Result<ControlSessionOperation, String>,
    outcome: Result<Option<ProjectRevisions>, ProjectSessionError>,
    after: SessionView,
)
    requires
        control_outcome(before, operation, outcome, after),
    ensures
        outcome is Err ==> after == before,
        outcome is Ok ==> before.controller is Some && operation is Ok,
        operation matches Ok(ControlSessionOperation::History { expected_aggregate_revision, .. })
            ==> (before.controller is Some ==> (before.published.project matches Some(project) ==> (
        project.revisions.aggregate != expected_aggregate_revision ==> outcome == Err::<
            Option<ProjectRevisions>,
            ProjectSessionError,
        >(
            ProjectSessionError::RevisionConflict {
                expected: expected_aggregate_revision,
                actual: project.revisions.aggregate,
            },
        )))),
        operation matches Ok(ControlSessionOperation::Execute { reply: Ok(reply) }) ==> (
        before.controller is Some ==> outcome == Ok::<
            Option<ProjectRevisions>,
            ProjectSessionError,
        >(Some(reply.update.snapshot.revisions)) && after.controller == Some(reply.controller)),
{
}

/// A control that was made is revealed at the revision that making it led to. Where nothing
/// was published, that is the revision from before.
pub proof fn controls_are_revealed_at_their_revision(
    before: SessionView,
    identity: CreatedControlIdentity,
    operation: Result<ControlSessionOperation, String>,
    receipt: ControlRevealReceipt,
    after: SessionView,
)
    requires
        control_reveal_outcome(before, Ok(Some(identity)), operation, Ok(receipt), after),
        before.published.project is Some,
    ensures
        receipt.reveal matches Some(reveal) && reveal.request.expected_project_revision == Some(
            match receipt.revisions {
                Some(revisions) => revisions.aggregate,
                None => before.published.project->0.revisions.aggregate,
            },
        ) && receipt.primary == Some(reveal.request.object),
{
}

// ----- names of files -------------------------------------------------------

/// A name stays in its directory where it names something, is not the directory itself nor
/// the one above, and goes through no other.
pub proof fn safe_names_stay_in_their_directory(name: Seq<char>)
    ensures
        is_safe_leaf(name) ==> name.len() > 0 && !name.contains('/') && !name.contains('\\')
            && name != seq!['.'] && name != seq!['.', '.'],
        name.len() > 2 && !name.contains('/') && !name.contains('\\') ==> is_safe_leaf(name),
        name.len() == 1 && name[0] != '.' && name[0] != '/' && name[0] != '\\' ==> is_safe_leaf(
            name,
        ),
{
    reveal_strlit(".");
    reveal_strlit("..");
    assert("."@ =~= seq!['.']);
    assert(".."@ =~= seq!['.', '.']);
    if name.len() > 2 && !name.contains('/') && !name.contains('\\') {
        assert forall|i: int| 0 <= i < name.len() implies #[trigger] name[i] != '/' && name[i]
            != '\\' by {
            assert(name.contains(name[i]));
        }
    }
}

/// A name has an ending exactly where something stands before it.
pub proof fn endings_have_something_before_them(before: Seq<char>, ending: Seq<char>)
    ensures
        has_extension(before + ending, ending) <==> before.len() > 0,
{
    let name = before + ending;
    assert(name.skip(name.len() - ending.len()) =~= ending);
}

proof fn lemma_one_digit(n: nat)
    ensures
        n < 10 ==> decimal(n).len() == 1,
        decimal(n).len() <= 1 + decimal(n / 10).len(),
{
}

proof fn lemma_twenty_digits(n: nat)
    requires
        n <= u64::MAX,
    ensures
        decimal(n).len() <= 20,
{
    let a0 = n;
    lemma_one_digit(a0);
    let a1 = a0 / 10;
    assert(a1 <= 1844674407370955161);
    lemma_one_digit(a1);
    let a2 = a1 / 10;
    assert(a2 <= 184467440737095516);
    lemma_one_digit(a2);
    let a3 = a2 / 10;
    assert(a3 <= 18446744073709551);
    lemma_one_digit(a3);
    let a4 = a3 / 10;
    assert(a4 <= 1844674407370955);
    lemma_one_digit(a4);
    let a5 = a4 / 10;
    assert(a5 <= 184467440737095);
    lemma_one_digit(a5);
    let a6 = a5 / 10;
    assert(a6 <= 18446744073709);
    lemma_one_digit(a6);
    let a7 = a6 / 10;
    assert(a7 <= 1844674407370);
    lemma_one_digit(a7);
    let a8 = a7 / 10;
    assert(a8 <= 184467440737);
    lemma_one_digit(a8);
    let a9 = a8 / 10;
    assert(a9 <= 18446744073);
    lemma_one_digit(a9);
    let a10 = a9 / 10;
    assert(a10 <= 1844674407);
    lemma_one_digit(a10);
    let a11 = a10 / 10;
    assert(a11 <= 184467440);
    lemma_one_digit(a11);
    let a12 = a11 / 10;
    assert(a12 <= 18446744);
    lemma_one_digit(a12);
    let a13 = a12 / 10;
    assert(a13 <= 1844674);
    lemma_one_digit(a13);
    let a14 = a13 / 10;
    assert(a14 <= 184467);
    lemma_one_digit(a14);
    let a15 = a14 / 10;
    assert(a15 <= 18446);
    lemma_one_digit(a15);
    let a16 = a15 / 10;
    assert(a16 <= 1844);
    lemma_one_digit(a16);
    let a17 = a16 / 10;
    assert(a17 <= 184);
    lemma_one_digit(a17);
    let a18 = a17 / 10;
    assert(a18 <= 18);
    lemma_one_digit(a18);
    let a19 = a18 / 10;
    assert(a19 <= 1);
    lemma_one_digit(a19);
}

/// The name of a segment says, in this order and in twenty digits each, the revision that
/// it starts from, the one that it leads to, and its first and its last command.
pub proof fn segment_names_say_their_range(
    prefix: Seq<char>,
    base_revision: u64,
    resulting_revision: u64,
    first_sequence: u64,
    last_sequence: u64,
)
    ensures
        ({
            let name = segment_name(
                prefix,
                base_revision,
                resulting_revision,
                first_sequence,
                last_sequence,
            );
            let n = prefix.len() as int;
            &&& name.take(n) == prefix
            &&& name.subrange(n + 2, n + 22) == padded_decimal(base_revision as nat)
            &&& name.subrange(n + 24, n + 44) == padded_decimal(resulting_revision as nat)
            &&& name.subrange(n + 46, n + 66) == padded_decimal(first_sequence as nat)
            &&& name.subrange(n + 68, n + 88) == padded_decimal(last_sequence as nat)
        }),
{
    reveal_strlit("-r");
    reveal_strlit("-s");
    reveal_strlit(".audecj");
    lemma_twenty_digits(base_revision as nat);
    lemma_twenty_digits(resulting_revision as nat);
    lemma_twenty_digits(first_sequence as nat);
    lemma_twenty_digits(last_sequence as nat);
    padding_puts_zeros_in_front(base_revision as nat);
    padding_puts_zeros_in_front(resulting_revision as nat);
    padding_puts_zeros_in_front(first_sequence as nat);
    padding_puts_zeros_in_front(last_sequence as nat);
    let name = segment_name(
        prefix,
        base_revision,
        resulting_revision,
        first_sequence,
        last_sequence,
    );
    let n = prefix.len() as int;
    assert(name.take(n) =~= prefix);
    assert(name.subrange(n + 2, n + 22) =~= padded_decimal(base_revision as nat));
    assert(name.subrange(n + 24, n + 44) =~= padded_decimal(resulting_revision as nat));
    assert(name.subrange(n + 46, n + 66) =~= padded_decimal(first_sequence as nat));
    assert(name.subrange(n + 68, n + 88) =~= padded_decimal(last_sequence as nat));
}

/// A plan reveals the entity that was named, and it is heard only where its reading was
/// matched with a source and it has an extent.
pub proof fn plans_act_on_the_named_entity(
    plan: ReadingImportPlan,
    id: QualifiedEntityId,
    revealed: Result<RevealTarget, ReadingActionRefusal>,
    heard: Result<AuditionTarget, ReadingActionRefusal>,
)
    requires
        plan.reveals(id, revealed),
        plan.auditions(id, heard),
    ensures
        revealed is Ok <==> exists|k: int|
            0 <= k < plan.entities@.len() && (#[trigger] plan.entities@[k]).id@ == id@,
        revealed matches Ok(target) ==> exists|k: int|
            0 <= k < plan.entities@.len() && (#[trigger] plan.entities@[k]).id@ == id@
                && target.entity == EntityRefDto::Reading(plan.entities@[k].id)
                && optional_geometry(target.extent) == optional_geometry(plan.entities@[k].extent),
        heard is Ok ==> plan.verification != VerificationTier::GraphOnly && revealed is Ok,
        heard matches Ok(target) ==> exists|k: int|
            0 <= k < plan.entities@.len() && (#[trigger] plan.entities@[k]).id@ == id@
                && target.entity == EntityRefDto::Reading(plan.entities@[k].id)
                && optional_geometry(plan.entities@[k].extent) == Some(target.extent@),
        plan.verification == VerificationTier::GraphOnly <==> heard == Err::<
            AuditionTarget,
            ReadingActionRefusal,
        >(ReadingActionRefusal::SourceUnavailable),
{
    lemma_planned(plan.entities@, id, 0);
    if revealed is Ok {
        let k = planned_index(plan.entities@, id@, 0)->0;
        assert(plan.entities@[k].id@ == id@);
    }
}

/// An edit of the draft changes nothing else: not the document, the rows, the readings nor
/// what is waited for. An edit that is refused leaves the draft, too.
pub proof fn edits_change_the_draft_alone(before: PaneView, edit: DraftEdit, after: PaneView)
    requires
        pane_edited(before, edit, after),
    ensures
        after.document == before.document,
        after.selected_row == before.selected_row,
        after.inputs == before.inputs,
        after.selected_reading == before.selected_reading,
        after.diff == before.diff,
        after.merge == before.merge,
        after.plans == before.plans,
        after.residual == before.residual,
        after.pending == before.pending,
        after.next_request == before.next_request,
        after_edit(before.draft, edit) is Err ==> after.draft == before.draft,
        after_edit(before.draft, edit) matches Ok(draft) ==> after.draft == draft && after.notice
            == before.notice,
{
}

/// A row of the readings tells whether a source was supplied, in words and color, and is
/// marked where it is chosen.
pub proof fn reading_rows_tell_their_source(
    with: ReadingInputDto,
    without: ReadingInputDto,
    selected: bool,
)
    requires
        with.local_source is Some,
        without.local_source is None,
    ensures
        reading_row(with, selected).source != reading_row(without, selected).source,
        reading_row(with, selected).source_color != reading_row(without, selected).source_color,
        reading_row(with, selected).selected == selected,
        reading_row(without, selected).selected == selected,
{
    reveal_strlit("local source supplied");
    reveal_strlit("source absent · graph-only until matched");
    assert(reading_row(with, selected).source.len() != reading_row(without, selected).source.len());
}

/// A draft that was changed is told apart from one that was not.
pub proof fn changed_drafts_are_hinted_at()
    ensures
        draft_hint(true).0 != draft_hint(false).0,
        draft_hint(true).1 != draft_hint(false).1,
{
    reveal_strlit("Draft changed · next run creates a new query-document revision");
    reveal_strlit("Draft matches the persisted query revision");
    assert(draft_hint(true).0.len() != draft_hint(false).0.len());
}

// ----- what is read and written ---------------------------------------------

/// A file counts as written where it was created here, or where another writer put the
/// same bytes. Other bytes are a conflict, and what failed is told with its path.
pub proof fn files_are_created_once(path: PackagePath, creation: Creation, bytes: Seq<u8>)
    ensures
        created_once(path, creation, bytes) == Ok::<bool, ProjectStoreError>(true)
            <==> creation is Created,
        created_once(path, creation, bytes) == Ok::<bool, ProjectStoreError>(false) <==> (
        creation matches Creation::Beaten(Ok(there)) && there@ == bytes),
        created_once(path, creation, bytes) == Err::<bool, ProjectStoreError>(
            ProjectStoreError::ImmutablePayloadConflict(path),
        ) <==> (creation matches Creation::Beaten(Ok(there)) && there@ != bytes),
        creation matches Creation::Failed { path: at, message } ==> created_once(
            path,
            creation,
            bytes,
        ) == Err::<bool, ProjectStoreError>(ProjectStoreError::Io { path: at, message }),
        creation matches Creation::Beaten(Err(message)) ==> created_once(path, creation, bytes)
            == Err::<bool, ProjectStoreError>(ProjectStoreError::Io { path, message }),
{
}

/// An exported reading is the one that was assembled, with the bytes that it was encoded
/// to. Nothing is exported that was not assembled and encoded.
pub proof fn exports_are_what_was_assembled(
    r: Result<ExportedReading, ReadingWorkflowRefusal>,
    assembly: Result<ReadingFile, WorkflowFault>,
    encoded: Result<EncodedReading, ReadingCodecError>,
)
    requires
        departed(r, assembly, encoded),
    ensures
        r is Ok <==> assembly is Ok && encoded is Ok,
        r matches Ok(exported) ==> assembly == Ok::<ReadingFile, WorkflowFault>(exported.reading)
            && encoded == Ok::<EncodedReading, ReadingCodecError>(exported.encoded),
{
}

/// An opened document is for the request that asked for it, and is what was read, with
/// the records that extend it. What could not be read is told as it was.
pub proof fn opens_are_completed_with_what_was_read(
    request: ProjectOpenRequest,
    completion: ProjectOpenCompletion,
    opened: Result<(OpenedDocument, JournalRecovery), String>,
)
    requires
        request.is_completed_by(completion, opened),
    ensures
        completion.token == request.token,
        completion.files == request.files,
        completion.origin == request.origin,
        completion.loaded is Ok <==> opened is Ok,
        completion.loaded matches Err(message) ==> opened == Err::<
            (OpenedDocument, JournalRecovery),
            String,
        >(message),
        completion.loaded matches Ok(document) ==> {
            &&& document.opened == opened->Ok_0.0
            &&& document.journal.requested
            &&& document.journal.records@ == opened->Ok_0.1@.records
            &&& document.journal.from_revision == opened->Ok_0.1@.from_revision
            &&& document.journal.anchor_sequence == opened->Ok_0.1@.anchor_sequence
        },
{
}

/// Commands that a save did not write are told as such, up to where they go. Where there
/// were none, there is nothing pending.
pub proof fn unwritten_commands_are_told(request: ProjectSaveRequest)
    ensures
        unwritten(request) is NoPending <==> request.delta is None,
        request.delta matches Some(delta) ==> (unwritten(request)
            matches ProjectJournalPersistenceState::NotWritten {
            checkpoint,
            through_sequence,
            resulting_revision,
        } && checkpoint == delta.checkpoint && through_sequence == delta.through_sequence
            && resulting_revision == delta.resulting_revision),
{
}

/// A segment that could not be read, or whose end was rejected, is noted with its path.
/// Of the others nothing is noted.
pub proof fn unreadable_segments_are_noted(segments: Seq<JournalSegment>, i: int, k: int)
    requires
        0 <= k < i <= segments.len(),
    ensures
        segments[k].content is Err || (segments[k].content matches Ok(content)
            && content.rejected_tail is Some) ==> exists|n: int|
            0 <= n < segment_notes(segments, i).len() && (#[trigger] segment_notes(
                segments,
                i,
            )[n]).path == Some(segments[k].path@),
        segment_notes(segments, i).len() <= i,
        (forall|j: int|
            0 <= j < i ==> ((#[trigger] segments[j]).content matches Ok(content)
                && content.rejected_tail is None)) ==> segment_notes(segments, i).len() == 0,
    decreases i,
{
    let now = segment_notes(segments, i);
    let before = segment_notes(segments, i - 1);
    if k < i - 1 {
        unreadable_segments_are_noted(segments, i - 1, k);
        if segments[k].content is Err || (segments[k].content matches Ok(content)
            && content.rejected_tail is Some) {
            let n = choose|n: int|
                0 <= n < before.len() && (#[trigger] before[n]).path == Some(segments[k].path@);
            assert(now[n] == before[n]);
        }
    } else {
        if i > 1 {
            unreadable_segments_are_noted(segments, i - 1, 0);
        }
        if segments[k].content is Err || (segments[k].content matches Ok(content)
            && content.rejected_tail is Some) {
            assert(now[before.len() as int].path == Some(segments[k].path@));
        }
    }
}

// ----- sections -------------------------------------------------------------

proof fn lemma_section_index(sections: Seq<ReadingSection>, name: Seq<char>, i: int)
    requires
        0 <= i,
    ensures
        match section_index(sections, name, i) {
            Some(k) => i <= k < sections.len() && sections[k].name@ == name && forall|m: int|
                i <= m < k ==> (#[trigger] sections[m]).name@ != name,
            None => forall|m: int|
                i <= m < sections.len() ==> (#[trigger] sections[m]).name@ != name,
        },
    decreases sections.len() - i,
{
    if i < sections.len() && sections[i].name@ != name {
        lemma_section_index(sections, name, i + 1);
    }
}

/// A section can be decoded where there is one of the name and the first such has the
/// supported schema. Otherwise it is missing, or its schema is told.
pub proof fn sections_are_decoded_by_name_and_schema(
    reading: ReadingFile,
    name: Seq<char>,
    supported_major: u32,
)
    ensures
        section_fault(reading, name, supported_major) == Some(SectionFault::Missing)
            <==> forall|k: int|
            0 <= k < reading.sections@.len() ==> (#[trigger] reading.sections@[k]).name@ != name,
        section_fault(reading, name, supported_major) is None <==> exists|k: int|
            0 <= k < reading.sections@.len() && (#[trigger] reading.sections@[k]).name@ == name
                && reading.sections@[k].schema_major == supported_major && forall|m: int|
                0 <= m < k ==> (#[trigger] reading.sections@[m]).name@ != name,
        section_fault(reading, name, supported_major) matches Some(SectionFault::Unsupported {
            major,
        }) ==> major != supported_major && exists|k: int|
            0 <= k < reading.sections@.len() && (#[trigger] reading.sections@[k]).name@ == name
                && reading.sections@[k].schema_major == major,
{
    let sections = reading.sections@;
    lemma_section_index(sections, name, 0);
    if section_index(sections, name, 0) is Some {
        let k = section_index(sections, name, 0)->0;
        assert(sections[k].name@ == name);
    }
}

/// Whether members hold a value under a name.
pub open spec fn holds_member(members: Seq<JsonMember>, name: Seq<char>, value: Seq<char>) -> bool {
    exists|k: int|
        0 <= k < members.len() && (#[trigger] members[k]).name@ == name && members[k].value@
            == value
}

/// Whether members have a name.
pub open spec fn has_member(members: Seq<JsonMember>, name: Seq<char>) -> bool {
    exists|k: int| 0 <= k < members.len() && (#[trigger] members[k]).name@ == name
}

proof fn lemma_member(members: Seq<JsonMember>, name: Seq<char>, value: Seq<char>)
    requires
        distinct_names(member_views(members)),
    ensures
        member_value(member_views(members), name) == Some(value) <==> holds_member(
            members,
            name,
            value,
        ),
        member_value(member_views(members), name) is Some <==> has_member(members, name),
{
    let views = member_views(members);
    members_are_found_by_name(views, name);
    if member_value(views, name) is Some {
        let found = member_value(views, name)->0;
        let i = choose|i: int|
            0 <= i < views.len() && (#[trigger] views[i]).0 == name && views[i].1 == found
                && forall|k: int| i < k < views.len() ==> (#[trigger] views[k]).0 != name;
        assert(views[i] == members[i]@);
        assert(members[i].name@ == name && members[i].value@ == found);
    }
    if has_member(members, name) {
        let k = choose|k: int| 0 <= k < members.len() && (#[trigger] members[k]).name@ == name;
        assert(views[k] == members[k]@);
        assert(views[k].0 == name);
    }
    if holds_member(members, name, value) {
        let k = choose|k: int|
            0 <= k < members.len() && (#[trigger] members[k]).name@ == name && members[k].value@
                == value;
        assert(views[k] == members[k]@);
        assert(views[k].0 == name && views[k].1 == value);
    }
}

/// A patched section keeps its name, schema and extensions. It holds every member that was
/// given, every other one that was there, and no more.
pub proof fn patches_keep_what_they_do_not_name(
    section: ReadingSection,
    kept: Vec<JsonMember>,
    given: Vec<JsonMember>,
    outcome: Result<ReadingSection, ReadingCodecError>,
    name: Seq<char>,
    value: Seq<char>,
)
    requires
        section.payload == JsonPayload::Object(kept),
        distinct_names(member_views(kept@)),
        distinct_names(member_views(given@)),
        is_patched(section, Ok(JsonPayload::Object(given)), outcome),
    ensures
        outcome matches Ok(updated) && updated.name@ == section.name@ && updated.schema_major
            == section.schema_major && updated.schema_minor == section.schema_minor
            && member_views(updated.extensions@) == member_views(section.extensions@)
            && (updated.payload matches JsonPayload::Object(merged) && (holds_member(
            merged@,
            name,
            value,
        ) <==> holds_member(given@, name, value) || (!has_member(given@, name) && holds_member(
            kept@,
            name,
            value,
        )))),
{
    let updated = outcome->Ok_0;
    let merged = updated.payload->Object_0;
    lemma_member(merged@, name, value);
    lemma_member(given@, name, value);
    lemma_member(kept@, name, value);
    assert(member_value(member_views(merged@), name) == (match member_value(
        member_views(given@),
        name,
    ) {
        Some(text) => Some(text),
        None => member_value(member_views(kept@), name),
    }));
}

/// What is no object cannot be patched, nor be a patch, and the section is named.
pub proof fn only_objects_are_patched(
    section: ReadingSection,
    value: Result<JsonPayload, String>,
    outcome: Result<ReadingSection, ReadingCodecError>,
)
    requires
        is_patched(section, value, outcome),
    ensures
        outcome is Ok <==> section.payload is Object && (value matches Ok(new) && new is Object),
        value is Ok && section.payload is Opaque ==> (outcome matches Err(
            ReadingCodecError::OpaquePayloadCannotBePatched(name),
        ) && name@ == section.name@),
        value matches Err(message) ==> (outcome matches Err(ReadingCodecError::SectionJson {
            name,
            message: said,
        }) && name@ == section.name@ && said == message),
{
}

/// A reading leaves only with a section of entities, valid as a whole and with records
/// that can be imported again.
pub proof fn departing_readings_have_entities(
    reading: ReadingFile,
    decoded: Result<Vec<PortableEntityRecord>, String>,
)
    ensures
        departure_fault(reading, decoded) is None ==> reading.fault() is None && decoded is Ok
            && exists|k: int|
            0 <= k < reading.sections@.len() && (#[trigger] reading.sections@[k]).name@
                == "entities"@,
{
    sections_are_decoded_by_name_and_schema(reading, ENTITY_SECTION_NAME@, ENTITY_SECTION_MAJOR);
}

/// What a compaction came to is told with its path and counts, and a failure with its
/// message and nothing else.
pub proof fn compactions_are_told(compaction: Result<JournalCompactionResult, String>)
    ensures
        ({
            let state = compaction_state(compaction);
            match compaction {
                Ok(result) => {
                    &&& state.error is None
                    &&& state.compacted_path == result.compacted_path
                    &&& state.active_segments == result.active_segments@.len()
                    &&& state.frames_preserved == result.frames_preserved
                    &&& state.skipped_reason == result.skipped_reason
                },
                Err(message) => {
                    &&& state.error == Some(message)
                    &&& state.compacted_path is None
                    &&& state.frames_preserved == 0
                },
            }
        }),
{
}

/// What became of the commands of a save is told with the checkpoint of the session as it
/// is then, and with the segments that were found. The rest of the document stays.
pub proof fn persistence_is_told_with_the_checkpoint(
    before: LifecycleView,
    session: SessionView,
    state: ProjectJournalPersistenceState,
    after: LifecycleView,
)
    requires
        is_journal_update(before, session, state, after),
    ensures
        after.journal.last_persistence == Some(state),
        after.journal.checkpoint is Some <==> session.controller is Some,
        after.journal.checkpoint matches Some(checkpoint) ==> checkpoint
            == session.controller->0.checkpoint,
        after.journal.discovered_segments == before.recovery.journals@,
        after.journal.discovered_candidates == before.recovery.journal_candidates@,
        after.files == before.files,
        after.workspace == before.workspace,
        after.recovery == before.recovery,
        after.diagnostics.recovery_store == before.diagnostics.recovery_store,
{
}

/// An autosave is taken for the one that was chosen where time and revision are those of
/// the choice. Otherwise both are told, what was chosen as expected.
pub proof fn other_autosaves_are_told_apart(
    candidate: RecoveryCheckpoint,
    recovery: RecoveryMetadata,
)
    ensures
        recovery_mismatch(candidate, recovery) is None <==> recovery.is_autosave
            && recovery.saved_unix_ms == candidate.saved_unix_ms && recovery.base_project_revision
            == candidate.base_project_revision,
        recovery_mismatch(candidate, recovery) matches Some(error) ==> (error
            matches ProjectStoreError::RecoveryCheckpointMismatch {
            path,
            expected_saved_unix_ms,
            expected_base_revision,
            actual_saved_unix_ms,
            actual_base_revision,
            is_autosave,
        } && path == candidate.manifest_path && expected_saved_unix_ms == candidate.saved_unix_ms
            && expected_base_revision == candidate.base_project_revision && actual_saved_unix_ms
            == recovery.saved_unix_ms && actual_base_revision == recovery.base_project_revision
            && is_autosave == recovery.is_autosave),
{
}

/// It is told of a reading that its source is missing, and of every copy why it was
/// rejected, in the order of the copies.
pub proof fn every_rejected_copy_is_told(reading: ReadingId, resolution: ResolutionView)
    ensures
        ({
            let told = resolution_diagnostics(reading, resolution);
            let rejected = rejected_of(resolution);
            let first: int = if resolution is Missing {
                1
            } else {
                0
            };
            &&& told.len() == first + rejected.len()
            &&& resolution is Missing ==> told[0].code
                == ReadingWorkflowDiagnosticCode::SourceMissing
            &&& forall|i: int|
                0 <= i < rejected.len() ==> (#[trigger] told[first + i]).code
                    == ReadingWorkflowDiagnosticCode::LocalMaterialRejected && told[first + i].message
                    == rejected_text(rejected[i])
            &&& forall|i: int|
                0 <= i < told.len() ==> (#[trigger] told[i]).reading == reading && told[i].entity is None
        }),
{
}

/// Where there are few enough segments, all of them stay as they are, and that is told.
pub proof fn few_segments_are_left(
    found: RecoveryDiscovery,
    max_active_segments: usize,
    result: JournalCompactionResult,
)
    requires
        is_compaction_step(Ok(CompactionStep::Done(result)), found, max_active_segments),
    ensures
        result.active_segments@ == found.journals@,
        result.source_segments@.len() == 0,
        result.compacted_path is None,
        result.frames_preserved == 0,
        result.skipped_reason is Some,
{
}

// ----- samples --------------------------------------------------------------

proof fn lemma_first_unclean(samples: Seq<u32>, i: int)
    requires
        0 <= i <= samples.len(),
    ensures
        match first_unclean(samples, i) {
            None => forall|k: int|
                i <= k < samples.len() ==> ((#[trigger] samples[k]) / 0x80_0000) % 0x100 != 0xff,
            Some(n) => i <= n < samples.len() && (samples[n] / 0x80_0000) % 0x100 == 0xff
                && forall|k: int|
                i <= k < n ==> ((#[trigger] samples[k]) / 0x80_0000) % 0x100 != 0xff,
        },
    decreases samples.len() - i,
{
    if i < samples.len() {
        exponents_tell_numbers(samples[i]);
        lemma_first_unclean(samples, i + 1);
    }
}

/// Samples are taken exactly if there are as many as the frames and channels ask for, and
/// the exponent of none has all bits set. A wrong number is told with the right one, and a
/// sample with its place, which is the first.
pub proof fn only_complete_samples_are_taken(
    channels: u16,
    span: PcmSpan,
    read: Result<Vec<u32>, StreamingWaveformError>,
)
    requires
        (span.end - span.start) * channels <= usize::MAX,
        span.start <= span.end,
    ensures
        read_fault(channels, span, read) is None <==> (read matches Ok(pcm) && pcm@.len() == (
        span.end - span.start) * channels && forall|k: int|
            0 <= k < pcm@.len() ==> ((#[trigger] pcm@[k]) / 0x80_0000) % 0x100 != 0xff),
        read matches Err(error) ==> read_fault(channels, span, read) == Some(error),
        read matches Ok(pcm) ==> match read_fault(channels, span, read) {
            Some(StreamingWaveformError::PcmSampleCount { expected, actual }) => expected == (
            span.end - span.start) * channels && actual == pcm@.len() && expected != actual,
            Some(StreamingWaveformError::NonFinitePcm { sample_index }) => sample_index < pcm@.len()
                && (pcm@[sample_index as int] / 0x80_0000) % 0x100 == 0xff && forall|k: int|
                0 <= k < sample_index ==> ((#[trigger] pcm@[k]) / 0x80_0000) % 0x100 != 0xff,
            Some(_) => false,
            None => true,
        },
{
    let expected = (span.end - span.start) * channels;
    assert(expected >= 0) by (nonlinear_arith)
        requires
            expected == (span.end - span.start) * channels,
            span.start <= span.end,
    ;
    if read is Ok {
        assert(read->Ok_0.len() <= usize::MAX);
        lemma_first_unclean(read->Ok_0@, 0);
    }
}

/// Frames are answered for exactly where there are some, all of them in the source, and at
/// least one bin is asked for.
pub proof fn frames_of_the_source_are_answered(
    index: StreamingWaveformIndex,
    start: u64,
    end: u64,
    target: usize,
)
    requires
        end <= usize::MAX,
    ensures
        index.query_fault(start, end, target) is None <==> start < end && end
            <= index.described().frame_count && target > 0,
        index.query_fault(start, end, target) == Some(StreamingWaveformError::ZeroTargetBins)
            <==> start < end && end <= index.described().frame_count && target == 0,
{
}

/// The first read that is at fault is told, and none where all are complete.
pub proof fn the_first_fault_is_told(
    channels: u16,
    spans: Seq<PcmSpan>,
    reads: Seq<Result<Vec<u32>, StreamingWaveformError>>,
    i: int,
)
    requires
        0 <= i <= reads.len(),
    ensures
        match reads_fault(channels, spans, reads, i) {
            None => forall|k: int|
                i <= k < reads.len() ==> read_fault(channels, spans[k], #[trigger] reads[k]) is None,
            Some(error) => exists|n: int|
                i <= n < reads.len() && read_fault(channels, spans[n], #[trigger] reads[n]) == Some(
                    error,
                ) && forall|k: int|
                    i <= k < n ==> read_fault(channels, spans[k], #[trigger] reads[k]) is None,
        },
    decreases reads.len() - i,
{
    if i < reads.len() {
        the_first_fault_is_told(channels, spans, reads, i + 1);
        let here = reads[i];
        if read_fault(channels, spans[i], here) is None && reads_fault(
            channels,
            spans,
            reads,
            i + 1,
        ) is Some {
            let error = reads_fault(channels, spans, reads, i + 1)->0;
            let n = choose|n: int|
                i + 1 <= n < reads.len() && read_fault(channels, spans[n], #[trigger] reads[n])
                    == Some(error) && forall|k: int|
                    i + 1 <= k < n ==> read_fault(channels, spans[k], #[trigger] reads[k]) is None;
            assert(read_fault(channels, spans[n], reads[n]) == Some(error));
        }
    }
}

/// The level for bins of some frames is the highest that there is whose blocks are no
/// longer than a bin. Where even the lowest are longer, it is the lowest.
pub proof fn summaries_are_no_longer_than_bins(per_bin: int, levels: int, level: int)
    requires
        0 <= per_bin,
        levels > 0,
        is_summary_level(per_bin, levels, level),
    ensures
        0 <= level < levels,
        level > 0 ==> 256 * pow2(level as nat) <= per_bin,
        level + 1 < levels ==> per_bin < 256 * pow2((level + 1) as nat),
{
    if per_bin < 256 {
        lemma_pow2_unfold(1);
        lemma_pow2_pos(0);
    } else {
        let log = choose|log: int|
            #![trigger is_floor_log2(per_bin / 256, log)]
            is_floor_log2(per_bin / 256, log) && level == if log < levels {
                log
            } else {
                levels - 1
            };
        if level < log {
            lemma_pow2_strictly_increases(level as nat, log as nat);
        }
    }
}

} // verus!
