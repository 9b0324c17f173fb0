//! What opening, replaying and saving a document promise: what would be lost, what is
//! opened, how far a journal is replayed, and what is durable after a save.

use std::sync::Arc;

use vstd::prelude::*;

use crate::journal::{notes, PreparedJournalRecovery};
use crate::lifecycle::{
    acknowledgement, answers, as_list, begin_outcome, captured, compaction_state, disposition,
    document_dirty, first_refusal, is_journal_update, is_written, layout_saved, loaded_revisions,
    marked, moves, open_outcome, opening, persistence_note, primary_end, relocated, replay_count,
    replay_notes, replay_start, replay_state, replayed_session, replays, reported, rescanned,
    save_outcome, summary_texts, unwritten, JournalReplay, LifecycleView, LoadedProject,
    ProjectDocumentOrigin, ProjectFiles, ProjectJournalPersistenceState,
    ProjectJournalReplayState, ProjectLifecycleError, ProjectOpenCompletion, ProjectOpenOutcome,
    ProjectOpenRequest, ProjectReplacementDisposition, ProjectSaveCompletion, ProjectSaveOutcome,
    ProjectSaveRequest, SaveKind, SaveReplies, SegmentWrite,
};
use crate::live_project::{ControllerReply, ProjectJournalCheckpoint, ProjectJournalDelta};
use crate::session::{AnalysisHandle, SessionView};

verus! {

/// Whether replacing a document would lose something: it was recovered and never saved,
/// its project has no place or unsaved changes, or its layout has unsaved changes.
pub open spec fn would_lose(document: LifecycleView, session: SessionView) -> bool {
    ||| document.origin is Some && document.origin->0 is Recovery
    ||| session.published.project is Some && document.files is None
    ||| session.published.project is Some && session.published.project->0.dirty
    ||| document.workspace_revision < document.saved_workspace_revision
    ||| document.workspace_revision > document.saved_workspace_revision
}

/// A document is replaced without asking only if nothing would be lost.
pub proof fn nothing_is_lost_unasked(document: LifecycleView, session: SessionView)
    ensures
        document_dirty(document, session) <==> would_lose(document, session),
        disposition(document, session) == ProjectReplacementDisposition::Empty
            <==> session.published.project is None,
        disposition(document, session) == ProjectReplacementDisposition::Dirty
            <==> session.published.project is Some && would_lose(document, session),
{
}

/// Opening is refused where something would be lost, and then changes nothing. Otherwise
/// the request is for the files and the origin that were named, from the manifest of the
/// files or of the checkpoint, and is the latest operation.
pub proof fn opening_asks_for_what_was_named(
    before: LifecycleView,
    session: SessionView,
    files: ProjectFiles,
    origin: ProjectDocumentOrigin,
    outcome: Result<ProjectOpenRequest, ProjectLifecycleError>,
    after: LifecycleView,
)
    requires
        begin_outcome(before, session, files, origin, outcome, after),
    ensures
        match outcome {
            Err(error) => error is UnsavedChanges && session.published.project is Some
                && would_lose(before, session) && after == before,
            Ok(request) => {
                &&& session.published.project is None || !would_lose(before, session)
                &&& request.files == files && request.origin == origin
                &&& after.pending_open is Some
                &&& after.pending_open->0.token == request.token
                &&& after.operation_sequence == request.token
                &&& request.token != before.operation_sequence
                &&& request.token != 0
                &&& (before.operation_sequence < u64::MAX ==> request.token
                    == before.operation_sequence + 1)
                &&& match origin {
                    ProjectDocumentOrigin::Primary => after.pending_open->0.source
                        == files.manifest,
                    ProjectDocumentOrigin::Recovery(
                        checkpoint,
                    ) => after.pending_open->0.source == checkpoint.manifest_path,
                }
                &&& after.files == before.files && after.origin == before.origin
                &&& after.workspace == before.workspace
                &&& after.document_epoch == before.document_epoch
            },
        },
{
}

/// Replies are taken up to the first refusal.
pub proof fn replies_are_taken_up_to_a_refusal(
    replies: Seq<Result<ControllerReply, String>>,
    i: int,
)
    requires
        0 <= i <= replies.len(),
    ensures
        i <= first_refusal(replies, i) <= replies.len(),
        forall|k: int| i <= k < first_refusal(replies, i) ==> (#[trigger] replies[k]) is Ok,
        first_refusal(replies, i) < replies.len() ==> replies[first_refusal(replies, i)] is Err,
    decreases replies.len() - i,
{
    if i < replies.len() && replies[i] is Ok {
        replies_are_taken_up_to_a_refusal(replies, i + 1);
    }
}

/// A replay starts after the command that the checkpoint stands at, or where that is not
/// known at the first record.
pub proof fn replay_starts_after_the_checkpoint(prepared: PreparedJournalRecovery)
    ensures
        match prepared.anchor_sequence {
            Some(sequence) => if sequence < u64::MAX {
                replay_start(prepared) == Some((sequence + 1) as u64)
            } else {
                replay_start(prepared) is Some <==> prepared.records@.len() > 0
            },
            None => match replay_start(prepared) {
                Some(sequence) => prepared.records@.len() > 0 && prepared.records@[0].sequence
                    == sequence,
                None => prepared.records@.len() == 0,
            },
        },
{
}

/// What is said of a replay is so: it was not asked for, nothing was left to replay, all
/// was replayed, or only a part.
pub proof fn replays_are_told_as_they_went(
    prepared: PreparedJournalRecovery,
    replay: JournalReplay,
    checkpoint: ProjectJournalCheckpoint,
)
    requires
        answers(prepared, replay),
        prepared.records@.len() <= usize::MAX,
        replay.replies@.len() <= usize::MAX,
    ensures
        match replay_state(prepared, replay, checkpoint) {
            ProjectJournalReplayState::NotRequested => !prepared.requested,
            ProjectJournalReplayState::Current { revision, through_sequence } => {
                &&& prepared.requested
                &&& prepared.diagnostics@.len() == 0
                &&& revision == checkpoint.project_revision
                &&& through_sequence == checkpoint.through_sequence
                &&& replay_count(prepared, replay) == 0
            },
            ProjectJournalReplayState::Replayed {
                from_revision,
                through_revision,
                through_sequence,
                records,
            } => {
                &&& prepared.requested
                &&& prepared.diagnostics@.len() == 0
                &&& from_revision == prepared.from_revision
                &&& through_revision == checkpoint.project_revision
                &&& through_sequence == checkpoint.through_sequence
                &&& records == prepared.records@.len()
                &&& replay.seed is Ok
                &&& forall|k: int| 0 <= k < records ==> (#[trigger] replay.replies@[k]) is Ok
            },
            ProjectJournalReplayState::Partial {
                from_revision,
                through_revision,
                through_sequence,
                records,
            } => {
                &&& prepared.requested
                &&& from_revision == prepared.from_revision
                &&& through_revision == checkpoint.project_revision
                &&& through_sequence == checkpoint.through_sequence
                &&& records <= prepared.records@.len()
                &&& forall|k: int| 0 <= k < records ==> (#[trigger] replay.replies@[k]) is Ok
            },
        },
{
    replies_are_taken_up_to_a_refusal(replay.replies@, 0);
    assert(notes(prepared.diagnostics@).len() == prepared.diagnostics@.len());
}

/// A document that opens is the one that was asked for last: it stands at the files and
/// the origin of the request, with the layout and the data that were read, and is a new
/// document with nothing pending.
pub proof fn opened_documents_are_what_was_read(
    before: LifecycleView,
    session: SessionView,
    completion: ProjectOpenCompletion,
    replay: JournalReplay,
    analysis: Option<AnalysisHandle>,
    opened: ProjectOpenOutcome,
    after: LifecycleView,
    session_after: SessionView,
)
    requires
        open_outcome(
            before,
            session,
            completion,
            replay,
            analysis,
            Ok(opened),
            after,
            session_after,
        ),
    ensures
        before.pending_open is Some && before.pending_open->0.token == completion.token,
        completion.loaded is Ok,
        ({
            let read = completion.loaded->Ok_0.opened;
            &&& read.project is Live && read.project->Live_0 is Ok
            &&& after.files == Some(completion.files)
            &&& after.origin == Some(completion.origin) && opened.origin == completion.origin
            &&& after.manifest_path == Some(read.manifest_path) && opened.manifest_path
                == read.manifest_path
            &&& after.workspace == read.workspace && after.preserved == read.preserved
            &&& after.recovery == read.recovery
            &&& opened.recovery_available == read.recovery.checkpoints@.len()
            &&& after.diagnostics.project_io == read.project_io
            &&& after.diagnostics.media == read.media
            &&& after.diagnostics.unresolved_assets == read.unresolved_assets
        }),
        after.pending_open is None && after.latest_primary_save is None,
        after.workspace_revision == after.saved_workspace_revision,
        after.document_epoch != before.document_epoch,
        after.operation_sequence == before.operation_sequence,
        session_after.diagnostics == summary_texts(after.diagnostics),
{
}

/// A save is of what the session shows: its project, with the layout and the data of the
/// document, and the commands that are not durable yet.
pub proof fn saves_capture_what_is_shown(
    document: LifecycleView,
    session: SessionView,
    files: ProjectFiles,
    token: u64,
    kind: SaveKind,
)
    ensures
        match captured(document, session, files, token, kind) {
            Ok(request) => {
                &&& session.published.project == Some(request.snapshot)
                &&& session.controller is Some
                &&& request.checkpoint == session.controller->0.checkpoint
                &&& request.delta == session.controller->0.pending
                &&& request.token == token && request.kind == kind && request.files == files
                &&& request.workspace == document.workspace
                &&& request.workspace_revision == document.workspace_revision
                &&& request.preserved == document.preserved
                &&& request.document_epoch == document.document_epoch
            },
            Err(error) => session.published.project is None || session.controller is None,
        },
{
}

/// Commands are called durable exactly if they were encoded, the checkpoint was saved and
/// their segment was written; the cursor then stands at the last of them.
pub proof fn only_written_commands_are_durable(
    request: ProjectSaveRequest,
    encoded: Result<(), String>,
    saved: bool,
    written: Result<SegmentWrite, String>,
    state: ProjectJournalPersistenceState,
)
    requires
        is_written(request, encoded, saved, written, state),
    ensures
        request.delta is None <==> state is NoPending,
        state is Persisted <==> request.delta is Some && encoded is Ok && saved && written is Ok,
        state is Failed <==> request.delta is Some && (encoded is Err || !saved || written is Err),
        state matches ProjectJournalPersistenceState::Persisted {
            prior_checkpoint,
            checkpoint,
            path,
            compaction,
        } ==> {
            &&& prior_checkpoint == request.delta->0.checkpoint
            &&& checkpoint.through_sequence == request.delta->0.through_sequence
            &&& checkpoint.project_revision == request.delta->0.resulting_revision
            &&& path == written->Ok_0.path
            &&& (written->Ok_0.compaction is Ok <==> compaction.error is None)
        },
        state matches ProjectJournalPersistenceState::Failed {
            checkpoint,
            through_sequence,
            resulting_revision,
            ..
        } ==> checkpoint == request.delta->0.checkpoint && through_sequence
            == request.delta->0.through_sequence && resulting_revision
            == request.delta->0.resulting_revision,
        state matches ProjectJournalPersistenceState::NoPending { checkpoint } ==> checkpoint
            == request.checkpoint,
{
}

/// A durable segment moves the session's journal on if the session acknowledges it. If it
/// does not, the session stays as it was: the segment is superseded where the journal has
/// moved on meanwhile, and has failed otherwise.
pub proof fn only_acknowledged_segments_move_the_journal(
    session: SessionView,
    journal: ProjectJournalPersistenceState,
    delta: Option<Arc<ProjectJournalDelta>>,
    acknowledged: Result<crate::live_project::ProjectController, String>,
    state: ProjectJournalPersistenceState,
    after: SessionView,
)
    requires
        acknowledgement(session, journal, delta, acknowledged, state, after),
    ensures
        !(journal is Persisted && delta is Some && acknowledged is Ok) ==> after == session,
        journal is Persisted && delta is Some && acknowledged is Ok ==> after.controller == Some(
            acknowledged->Ok_0,
        ) && state == journal && after.published == session.published,
        journal matches ProjectJournalPersistenceState::Persisted {
            prior_checkpoint,
            checkpoint,
            ..
        } ==> (delta is Some && acknowledged is Err ==> {
            &&& (state is DurableSuperseded <==> session.controller->0.checkpoint
                != prior_checkpoint)
            &&& (state is Failed <==> session.controller->0.checkpoint == prior_checkpoint)
            &&& (state matches ProjectJournalPersistenceState::DurableSuperseded {
                durable_through_sequence,
                durable_revision,
                current_checkpoint,
                ..
            } ==> durable_through_sequence == checkpoint.through_sequence && durable_revision
                == checkpoint.project_revision && current_checkpoint
                == session.controller->0.checkpoint)
        }),
        !(journal is Persisted) || delta is None ==> state == journal,
{
}

/// Something is noted of a save exactly if commands are not durable, came too late, or
/// could not be compacted.
pub proof fn troubles_of_a_save_are_noted(state: ProjectJournalPersistenceState)
    ensures
        persistence_note(state) is None <==> state is NoPending || (
        state matches ProjectJournalPersistenceState::Persisted { compaction, .. }
            && compaction.error is None),
{
}

/// A save that comes back for another document, or a primary one after a later primary
/// save began, or that failed, changes nothing.
pub proof fn late_and_failed_saves_change_nothing(
    before: LifecycleView,
    session: SessionView,
    completion: ProjectSaveCompletion,
    replies: SaveReplies,
    outcome: Result<ProjectSaveOutcome, ProjectLifecycleError>,
    after: LifecycleView,
    session_after: SessionView,
)
    requires
        save_outcome(before, session, completion, replies, outcome, after, session_after),
        completion.document_epoch != before.document_epoch || (completion.kind is Primary
            && before.latest_primary_save != Some(completion.token)) || completion.result is Err,
    ensures
        outcome is Err && after == before && session_after == session,
        completion.document_epoch != before.document_epoch
            ==> outcome->Err_0 is DocumentChangedDuringOperation,
{
}

/// A primary save puts the document where it was written. Its layout is saved exactly if
/// it did not change meanwhile, and it is a new document exactly if it moved.
pub proof fn primary_saves_place_the_document(
    before: LifecycleView,
    session: SessionView,
    completion: ProjectSaveCompletion,
    replies: SaveReplies,
    saved: ProjectSaveOutcome,
    after: LifecycleView,
    session_after: SessionView,
)
    requires
        save_outcome(before, session, completion, replies, Ok(saved), after, session_after),
        completion.kind is Primary,
        completion.result is Ok,
    ensures
        completion.document_epoch == before.document_epoch,
        before.latest_primary_save == Some(completion.token),
        after.files == Some(completion.files),
        after.manifest_path == Some(completion.result->Ok_0.manifest_path),
        after.origin is Some && after.origin->0 is Primary,
        after.latest_primary_save is None,
        after.recovery == replies.recovery,
        after.diagnostics.recovery_store == replies.recovery.diagnostics@
            + completion.result->Ok_0.maintenance_diagnostics@,
        after.diagnostics.project_io == before.diagnostics.project_io,
        after.diagnostics.media == before.diagnostics.media,
        after.workspace == before.workspace && after.workspace_revision
            == before.workspace_revision,
        saved.result == completion.result->Ok_0,
        saved.workspace_marked_saved <==> completion.workspace_revision
            == before.workspace_revision,
        completion.workspace_revision == before.workspace_revision
            ==> after.saved_workspace_revision == after.workspace_revision,
        completion.workspace_revision != before.workspace_revision
            ==> after.saved_workspace_revision == before.saved_workspace_revision,
        replies.mark is Ok && saved.project_marked_saved == replies.mark->Ok_0.marked,
        saved.document_clean <==> !would_lose(after, session_after),
        after.document_epoch == before.document_epoch <==> before.manifest_path is Some
            && before.manifest_path->0@ == completion.result->Ok_0.manifest_path@,
{
}

/// An autosave leaves the document where it is: only what was found for recovery and what
/// is told of it change.
pub proof fn autosaves_leave_the_document(
    before: LifecycleView,
    session: SessionView,
    completion: ProjectSaveCompletion,
    replies: SaveReplies,
    saved: ProjectSaveOutcome,
    after: LifecycleView,
    session_after: SessionView,
)
    requires
        save_outcome(before, session, completion, replies, Ok(saved), after, session_after),
        completion.kind is Autosave,
        completion.result is Ok,
    ensures
        after.files == before.files && after.manifest_path == before.manifest_path,
        after.origin == before.origin && after.workspace == before.workspace,
        after.workspace_revision == before.workspace_revision,
        after.saved_workspace_revision == before.saved_workspace_revision,
        after.document_epoch == before.document_epoch,
        after.latest_primary_save == before.latest_primary_save,
        after.recovery == replies.recovery,
        after.diagnostics.recovery_store == replies.recovery.diagnostics@
            + completion.result->Ok_0.maintenance_diagnostics@,
        after.diagnostics.project_io == before.diagnostics.project_io,
        after.diagnostics.media == before.diagnostics.media,
        !saved.project_marked_saved && !saved.workspace_marked_saved,
        saved.result == completion.result->Ok_0,
        saved.document_clean <==> !would_lose(after, session_after),
{
}

} // verus!
