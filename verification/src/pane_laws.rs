//! What the pane over readings and queries promises: what it asks for, what it makes of
//! answers, and which rows, readings and extents it acts on.

use vstd::prelude::*;

use crate::pane::{
    adopted, alternative_count, answered, asked_document, audition_fault, awaited, change_count,
    descriptor_fault, draft_differs, draft_fault, entity_changes, hit_fault, inputs_notice,
    observes, other_reading, page_requested, plan_index, relative_row, request_text,
    row_selected, section_changes, started, with_inputs, NoticeView, PaneView,
    ReadingQueryOperation, ReadingQueryViewEffect, ReadingQueryViewInputs, ViewDescriptor,
};
use crate::protocol::{response_of, HeadlessDispatch, HeadlessOperation, HeadlessResponseBody};
use crate::query_document::{is_workbench_kind, latest_hits, QueryDocument};
use crate::query_terms::compiled;
use crate::reading::{
    EntityKey, QualifiedEntityId, ReadingId, VerificationTier,
};
use crate::reading_diff::{DiffView, SectionChangeKind};
use crate::reading_import::{planned_index, PlannedReadingEntity, ReadingImportPlan};
use crate::reading_merge::GroupView;
use crate::text::{decimal, decimal_round_trip, optional_text};

verus! {

// ----- requests -----------------------------------------------------------

/// Requests have numbers of their own: the next request is named otherwise than this one.
pub proof fn requests_are_told_apart(pane: PaneView, operation: ReadingQueryOperation)
    requires
        pane.next_request < u64::MAX,
    ensures
        started(pane, operation).next_request == pane.next_request + 1,
        request_text(started(pane, operation)) != request_text(pane),
        started(pane, operation).pending matches Some(pending) && pending.request_id
            == request_text(pane) && pending.operation == operation,
        started(pane, operation).document == pane.document,
{
    let after = started(pane, operation);
    let one = decimal(pane.next_request as nat);
    let two = decimal(after.next_request as nat);
    decimal_round_trip(pane.next_request);
    decimal_round_trip(after.next_request);
    assert(one != two);
    let head = "pane-query-"@ + decimal(pane.document.id.0 as nat) + "-"@;
    assert(request_text(pane) == head + one);
    assert(request_text(after) == head + two);
    if request_text(pane) == request_text(after) {
        assert((head + one).skip(head.len() as int) =~= one);
        assert((head + two).skip(head.len() as int) =~= two);
    }
}

/// A page is asked for only with the provenance of the facts and a draft that compiles. It
/// is asked for the draft: of the next revision where it differs from the document, with
/// all else of the document as it is.
pub proof fn pages_are_asked_for_the_draft(
    before: PaneView,
    cursor: Option<Seq<char>>,
    operation: ReadingQueryOperation,
    effect: Option<ReadingQueryViewEffect>,
    after: PaneView,
)
    requires
        page_requested(before, cursor, operation, effect, after),
    ensures
        after.document == before.document && after.draft == before.draft,
        effect is Some ==> before.inputs.query_provenance is Some && before.pending is None,
        effect matches Some(ReadingQueryViewEffect::Observation(request)) ==> {
            &&& request.request_id@ == request_text(before)
            &&& request.operation matches HeadlessOperation::QueryPage {
                document,
                provenance,
                page,
            } && {
                &&& document@.query == before.draft.root
                &&& document@.id == before.document.id
                &&& document@.title == before.document.title@
                &&& document@.results == before.document@.results
                &&& (before.document.query.tree() == before.draft.root ==> document@.revision
                    == before.document.revision)
                &&& (before.document.query.tree() != before.draft.root ==> document@.revision
                    == before.document.revision + 1 && compiled(before.draft.root) is Ok)
                &&& Some(provenance) == before.inputs.query_provenance
                &&& optional_text(page.cursor) == cursor
                &&& page.limit == 100
            }
        },
        effect is None ==> after.notice is MissingSource || after.notice is Refused,
{
}

// ----- answers ------------------------------------------------------------

/// An awaited answer ends the wait. A sound page is adopted as the document, with a clean
/// draft and nothing selected; commands and renders are handed on as they came; everything
/// else changes only what is told.
pub proof fn awaited_answers_end_the_wait(
    before: PaneView,
    dispatch: HeadlessDispatch,
    effect: Option<ReadingQueryViewEffect>,
    after: PaneView,
)
    requires
        answered(before, dispatch, effect, after),
        before.pending is Some,
        before.pending->0.request_id == response_of(dispatch).request_id@,
    ensures
        after.pending is None,
        after.inputs == before.inputs && after.next_request == before.next_request,
        match dispatch {
            HeadlessDispatch::Command { envelope, .. } => effect == Some(
                ReadingQueryViewEffect::Command(envelope),
            ) && after.document == before.document,
            HeadlessDispatch::Render { target, .. } => effect == Some(
                ReadingQueryViewEffect::Render(target),
            ) && after.document == before.document,
            HeadlessDispatch::Observation(response) => match response.body {
                HeadlessResponseBody::QueryPage { document } => if document.fault() is None {
                    &&& after.document == document
                    &&& after.selected_row is None
                    &&& after.draft.root == document.query.tree() && !after.draft.dirty
                        && after.draft.selected.len() == 0
                    &&& effect is Some && effect->0 is DocumentChanged
                    &&& (latest_hits(document).len() == 0 <==> after.notice is Empty)
                } else {
                    effect is None && after.document == before.document && after.notice is Refused
                },
                HeadlessResponseBody::ReadingVerified { .. } => effect is None && after.document
                    == before.document && after.notice is Observed,
                HeadlessResponseBody::ImportPlanned { .. } => effect is None && after.document
                    == before.document && after.notice is Observed,
                _ => effect is None && after.document == before.document && after.notice
                    is Refused,
            },
        },
{
}

/// New inputs take the place of the old ones, with the first reading selected, and nothing
/// that was computed from the old ones stays.
pub proof fn new_inputs_start_over(pane: PaneView, inputs: ReadingQueryViewInputs)
    ensures
        ({
            let after = with_inputs(pane, inputs);
            &&& after.inputs == inputs
            &&& after.diff is None && after.merge is None && after.plans.len() == 0
            &&& (inputs.readings@.len() == 0 <==> after.selected_reading is None)
            &&& (inputs.readings@.len() > 0 ==> after.selected_reading == Some(0usize))
            &&& after.document == pane.document && after.draft == pane.draft
            &&& (after.notice is Ready <==> inputs.query_provenance is Some
                && inputs.readings@.len() > 0 && forall|i: int|
                0 <= i < inputs.readings@.len() ==> (
                #[trigger] inputs.readings@[i]).local_source is Some)
        }),
{
}

// ----- rows and readings --------------------------------------------------

/// Moving among rows goes as far as is asked for, and no further than the first and the
/// last row.
pub proof fn moves_stay_among_the_rows(selected: Option<usize>, delta: int, count: int)
    requires
        count > 0,
    ensures
        ({
            let from = match selected {
                Some(row) => row as int,
                None => 0,
            };
            let to = relative_row(selected, delta, count);
            &&& 0 <= to < count
            &&& 0 <= from + delta < count ==> to == from + delta
            &&& from + delta < 0 ==> to == 0
            &&& from + delta >= count ==> to == count - 1
        }),
{
}

/// A row is selected exactly if the latest page has it.
pub proof fn only_shown_rows_are_selected(before: PaneView, row: usize, after: PaneView)
    requires
        row_selected(before, row, after),
    ensures
        row < latest_hits(before.document).len() ==> after.selected_row == Some(row)
            && after.notice is Ready,
        row >= latest_hits(before.document).len() ==> after.selected_row == before.selected_row
            && after.notice is Refused,
        after.document == before.document,
        hit_fault(after) is None <==> after.selected_row is Some && after.selected_row->0
            < latest_hits(after.document).len(),
{
}

/// A reading is compared with the first one, and the first with the second; never with
/// itself.
pub proof fn readings_are_compared_with_another(count: nat, left: usize)
    requires
        left < count,
    ensures
        match other_reading(count, left) {
            Some(other) => 0 <= other < count && other != left && (left != 0 ==> other == 0) && (
            left == 0 ==> other == 1),
            None => count == 1,
        },
{
}

/// The plan of a reading is the first with its identity.
pub proof fn plans_are_found_by_reading(
    plans: Seq<ReadingImportPlan>,
    reading: ReadingId,
    i: int,
)
    requires
        0 <= i,
    ensures
        match plan_index(plans, reading, i) {
            Some(p) => i <= p < plans.len() && plans[p].reading_id@ == reading@ && forall|k: int|
                i <= k < p ==> (#[trigger] plans[k]).reading_id@ != reading@,
            None => forall|k: int|
                i <= k < plans.len() ==> (#[trigger] plans[k]).reading_id@ != reading@,
        },
    decreases plans.len() - i,
{
    if i < plans.len() && plans[i].reading_id@ != reading@ {
        plans_are_found_by_reading(plans, reading, i + 1);
    }
}

proof fn lemma_planned_index(list: Seq<PlannedReadingEntity>, id: EntityKey, i: int)
    requires
        0 <= i,
    ensures
        match planned_index(list, id, i) {
            Some(k) => i <= k < list.len() && list[k].id@ == id && forall|m: int|
                i <= m < k ==> (#[trigger] list[m]).id@ != id,
            None => forall|k: int| i <= k < list.len() ==> (#[trigger] list[k]).id@ != id,
        },
    decreases list.len() - i,
{
    if i < list.len() && list[i].id@ != id {
        lemma_planned_index(list, id, i + 1);
    }
}

/// An entity is heard only from a reading whose source was matched, and only if the plan
/// has it with an extent.
pub proof fn only_extents_of_verified_readings_are_heard(
    plan: ReadingImportPlan,
    id: QualifiedEntityId,
)
    ensures
        plan.verification == VerificationTier::GraphOnly ==> audition_fault(plan, id) is Some,
        audition_fault(plan, id) is None ==> exists|k: int|
            0 <= k < plan.entities@.len() && (#[trigger] plan.entities@[k]).id@ == id@
                && plan.entities@[k].extent is Some,
        plan.verification != VerificationTier::GraphOnly && (forall|k: int|
            0 <= k < plan.entities@.len() && (#[trigger] plan.entities@[k]).id@ == id@
                ==> plan.entities@[k].extent is Some) && (exists|k: int|
            0 <= k < plan.entities@.len() && (#[trigger] plan.entities@[k]).id@ == id@)
            ==> audition_fault(plan, id) is None,
{
    lemma_planned_index(plan.entities@, id@, 0);
}

// ----- counts -------------------------------------------------------------

proof fn lemma_section_changes(list: Seq<(Seq<char>, SectionChangeKind)>, i: int)
    requires
        0 <= i <= list.len(),
    ensures
        section_changes(list, i) == list.take(i).filter(
            |s: (Seq<char>, SectionChangeKind)| s.1 != SectionChangeKind::Unchanged,
        ).len(),
    decreases i,
{
    reveal(Seq::filter);
    if i > 0 {
        lemma_section_changes(list, i - 1);
        assert(list.take(i).drop_last() =~= list.take(i - 1));
    }
}

proof fn lemma_entity_changes(list: Seq<(EntityKey, SectionChangeKind)>, i: int)
    requires
        0 <= i <= list.len(),
    ensures
        entity_changes(list, i) == list.take(i).filter(
            |e: (EntityKey, SectionChangeKind)| e.1 != SectionChangeKind::Unchanged,
        ).len(),
    decreases i,
{
    reveal(Seq::filter);
    if i > 0 {
        lemma_entity_changes(list, i - 1);
        assert(list.take(i).drop_last() =~= list.take(i - 1));
    }
}

/// The changes of a comparison are its sections and entities that are not unchanged.
pub proof fn changes_are_what_is_not_unchanged(diff: DiffView)
    ensures
        change_count(diff) == diff.sections.filter(
            |s: (Seq<char>, SectionChangeKind)| s.1 != SectionChangeKind::Unchanged,
        ).len() + diff.entities.filter(
            |e: (EntityKey, SectionChangeKind)| e.1 != SectionChangeKind::Unchanged,
        ).len(),
{
    lemma_section_changes(diff.sections, diff.sections.len() as int);
    lemma_entity_changes(diff.entities, diff.entities.len() as int);
    assert(diff.sections.take(diff.sections.len() as int) =~= diff.sections);
    assert(diff.entities.take(diff.entities.len() as int) =~= diff.entities);
}

/// The alternatives of a merge are those of all its groups.
pub proof fn alternatives_of_all_groups_are_counted(groups: Seq<GroupView>, i: int)
    requires
        0 <= i <= groups.len(),
    ensures
        alternative_count(groups, i) == groups.take(i).map_values(
            |g: GroupView| g.alternatives,
        ).flatten_alt().len(),
    decreases i,
{
    let lists = groups.take(i).map_values(|g: GroupView| g.alternatives);
    if i > 0 {
        alternatives_of_all_groups_are_counted(groups, i - 1);
        assert(lists.drop_last() =~= groups.take(i - 1).map_values(
            |g: GroupView| g.alternatives,
        ));
        assert(lists.last() == groups[i - 1].alternatives);
    }
}

/// A pane is made only for a view of its own kind with the state of an extension that
/// reads as a sound document.
pub proof fn panes_are_made_for_sound_documents(
    descriptor: ViewDescriptor,
    parsed: Result<QueryDocument, String>,
)
    ensures
        descriptor_fault(descriptor, parsed) is None <==> is_workbench_kind(descriptor.kind)
            && descriptor.extension_state && parsed is Ok && parsed->Ok_0.fault() is None,
{
}

} // verus!
