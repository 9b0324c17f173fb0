//! What a pane asks for is about what is chosen in it, and what it does not ask for it
//! leaves alone.

use vstd::prelude::*;

use crate::navigation::{optional_geometry, EntityRefDto};
use crate::pane::{
    cancelled, diff_previewed, import_asked, merge_previewed, next_page_asked, plan_asked,
    plan_index, planned_auditioned, planned_revealed, reading_chosen, residual_auditioned,
    row_auditioned, row_moved, row_revealed, verification_asked, PaneView, ReadingQueryViewEffect,
};
use crate::pane_laws::{only_extents_of_verified_readings_are_heard, plans_are_found_by_reading};
use crate::protocol::{input_plans, HeadlessOperation};
use crate::protocol_laws::inputs_are_planned_with_their_source;
use crate::query_document::latest_hits;
use crate::reading::{QualifiedEntityId, VerificationTier};
use crate::reading_import::{planned_index, PlannedReadingEntity, ReadingImportPlan};
use crate::reading_merge::plan_views;
use crate::text::optional_text;

verus! {

/// Two states of a pane hold the same document, draft, readings and results of work on
/// them. What may differ is what is chosen, waited for and told.
pub open spec fn same_work(before: PaneView, after: PaneView) -> bool {
    &&& after.document == before.document
    &&& after.draft == before.draft
    &&& after.inputs == before.inputs
    &&& after.residual == before.residual
    &&& after.diff == before.diff
    &&& after.merge == before.merge
    &&& after.plans == before.plans
}

/// The next page is asked for only of a query that was not edited, only where there is a
/// next page, and only while nothing else is waited for.
pub proof fn pages_follow_the_shown_one(
    before: PaneView,
    r: Option<ReadingQueryViewEffect>,
    after: PaneView,
)
    requires
        next_page_asked(before, r, after),
        r is Some,
    ensures
        !before.draft.dirty,
        before.pending is None,
        latest_cursor(before) is Some,
        ({
            &&& r matches Some(ReadingQueryViewEffect::Observation(request))
            &&& request.operation matches HeadlessOperation::QueryPage { page, .. }
            &&& page.cursor matches Some(cursor)
            &&& Some(cursor@) == latest_cursor(before)
        }),
        after.pending is Some,
        same_work(before, after),
{
}

/// The cursor behind the page that is shown.
pub open spec fn latest_cursor(pane: PaneView) -> Option<Seq<char>> {
    if pane.document.results@.len() == 0 {
        None
    } else {
        optional_text(pane.document.results@.last().page.next_cursor)
    }
}

/// Cancelling stops what is waited for, by its name, and nothing is waited for after it.
pub proof fn cancelling_ends_the_wait(
    before: PaneView,
    r: Option<ReadingQueryViewEffect>,
    after: PaneView,
)
    requires
        cancelled(before, r, after),
    ensures
        r is Some <==> before.pending is Some,
        before.pending matches Some(pending) ==> (r matches Some(
            ReadingQueryViewEffect::CancelObservation(name),
        ) && name@ == pending.request_id),
        after.pending is None,
        before.pending is None <==> after.notice is Refused,
        same_work(before, after),
        after.selected_row == before.selected_row,
        after.next_request == before.next_request,
{
}

/// Moving among the rows chooses a row that is there: as many away as asked for, or the
/// outermost. Where there are none, the choice stays.
pub proof fn moving_chooses_a_row(before: PaneView, delta: isize, after: PaneView)
    requires
        row_moved(before, delta, after),
        latest_hits(before.document).len() <= usize::MAX,
    ensures
        ({
            let count = latest_hits(before.document).len();
            let from = match before.selected_row {
                Some(row) => row as int,
                None => 0,
            };
            &&& count == 0 ==> after.selected_row == before.selected_row
            &&& count > 0 ==> {
                &&& after.selected_row matches Some(row)
                &&& row < count
                &&& 0 <= from + delta < count ==> row == from + delta
                &&& from + delta < 0 ==> row == 0
                &&& from + delta >= count ==> row == count - 1
            }
        }),
        same_work(before, after),
        after.pending == before.pending,
{
}

/// What is revealed is the fact in the chosen row, with its extent. Without a row that is
/// there nothing is revealed.
pub proof fn the_chosen_row_is_revealed(
    before: PaneView,
    r: Option<ReadingQueryViewEffect>,
    after: PaneView,
)
    requires
        row_revealed(before, r, after),
    ensures
        r is Some <==> (before.selected_row matches Some(row) && row < latest_hits(
            before.document,
        ).len()),
        r is None ==> after.notice is Refused,
        r is Some ==> {
            let hit = latest_hits(before.document)[before.selected_row->0 as int];
            &&& r matches Some(ReadingQueryViewEffect::Reveal(target))
            &&& target.entity == hit.fact
            &&& optional_geometry(target.extent) == optional_geometry(hit.extent)
        },
        same_work(before, after),
        after.pending == before.pending,
        after.selected_row == before.selected_row,
{
}

/// What is heard is the extent of the fact in the chosen row. A row without an extent is
/// not heard.
pub proof fn the_chosen_row_is_heard(
    before: PaneView,
    r: Option<ReadingQueryViewEffect>,
    after: PaneView,
)
    requires
        row_auditioned(before, r, after),
    ensures
        r is Some <==> (before.selected_row matches Some(row) && row < latest_hits(
            before.document,
        ).len() && latest_hits(before.document)[row as int].extent is Some),
        r is None ==> after.notice is Refused,
        r is Some ==> {
            let hit = latest_hits(before.document)[before.selected_row->0 as int];
            &&& r matches Some(ReadingQueryViewEffect::Render(target))
            &&& target.entity == hit.fact
            &&& target.extent@ == hit.extent->0@
        },
        same_work(before, after),
        after.pending == before.pending,
        after.selected_row == before.selected_row,
{
}

/// A hotspot is heard where there is one of that number.
pub proof fn hotspots_are_heard_by_number(
    before: PaneView,
    index: usize,
    r: Option<ReadingQueryViewEffect>,
    after: PaneView,
)
    requires
        residual_auditioned(before, index, r, after),
    ensures
        r is Some <==> (before.residual matches Some(auditions) && index < auditions.len()),
        r is None ==> after.notice is Refused,
        r is Some ==> {
            &&& r matches Some(ReadingQueryViewEffect::Render(target))
            &&& target.entity == before.residual->0[index as int].entity
            &&& target.extent@ == before.residual->0[index as int].extent@
        },
        same_work(before, after),
        after.pending == before.pending,
{
}

/// A reading is chosen where there is one of that number. Otherwise the choice stays.
pub proof fn readings_are_chosen_by_number(before: PaneView, index: usize, after: PaneView)
    requires
        reading_chosen(before, index, after),
    ensures
        index < before.inputs.readings@.len() ==> after.selected_reading == Some(index)
            && after.notice is Ready,
        index >= before.inputs.readings@.len() ==> after.selected_reading
            == before.selected_reading && after.notice is Refused,
        same_work(before, after),
        after.pending == before.pending,
        after.selected_row == before.selected_row,
{
}

/// What is verified is the chosen reading, against the source that was supplied for it.
pub proof fn the_chosen_reading_is_verified(
    before: PaneView,
    r: Option<ReadingQueryViewEffect>,
    after: PaneView,
)
    requires
        verification_asked(before, r, after),
    ensures
        r is Some <==> before.selected_reading is Some && before.pending is None,
        r is Some ==> {
            let input = before.inputs.readings@[before.selected_reading->0 as int];
            &&& r matches Some(ReadingQueryViewEffect::Observation(request))
            &&& request.operation matches HeadlessOperation::VerifyReading { reading, local_source }
            &&& reading == input.reading
            &&& local_source == input.local_source
            &&& after.pending matches Some(pending)
            &&& pending.request_id == request.request_id@
        },
        r is None ==> after.pending == before.pending,
        same_work(before, after),
{
}

/// What is planned is the chosen reading, with the source that was supplied for it and
/// beside the entities that there are.
pub proof fn the_chosen_reading_is_planned(
    before: PaneView,
    r: Option<ReadingQueryViewEffect>,
    after: PaneView,
)
    requires
        plan_asked(before, r, after),
    ensures
        r is Some <==> before.selected_reading is Some && before.pending is None,
        r is Some ==> {
            let input = before.inputs.readings@[before.selected_reading->0 as int];
            &&& r matches Some(ReadingQueryViewEffect::Observation(request))
            &&& request.operation matches HeadlessOperation::PlanReadingImport {
                reading,
                local_source,
                existing,
                unknown_sections,
            }
            &&& reading == input.reading
            &&& local_source == input.local_source
            &&& existing == before.inputs.existing_entities
            &&& unknown_sections == before.inputs.unknown_sections
            &&& after.pending matches Some(pending)
            &&& pending.request_id == request.request_id@
        },
        r is None ==> after.pending == before.pending,
        same_work(before, after),
{
}

/// A comparison goes from the chosen reading to another one. Where it cannot be made, the
/// one that was shown stays.
pub proof fn the_chosen_reading_is_compared(before: PaneView, after: PaneView)
    requires
        diff_previewed(before, after),
    ensures
        after.diff != before.diff ==> {
            let readings = before.inputs.readings@;
            &&& before.selected_reading matches Some(left)
            &&& after.diff matches Some(diff)
            &&& diff.left.0 == readings[left as int].reading.reading.reading_id
            &&& diff.left.1 == readings[left as int].reading.reading.revision
            &&& exists|right: int|
                right != left && 0 <= right < readings.len() && diff.right.0 == (
                #[trigger] readings[right]).reading.reading.reading_id && diff.right.1
                    == readings[right].reading.reading.revision
        },
        after.document == before.document,
        after.draft == before.draft,
        after.inputs == before.inputs,
        after.plans == before.plans,
        after.merge == before.merge,
        after.pending == before.pending,
        after.selected_reading == before.selected_reading,
{
    if after.diff != before.diff {
        let left = before.selected_reading->0;
        let right = if left != 0 {
            0int
        } else {
            1int
        };
        assert(before.inputs.readings@[right].reading.reading.revision == after.diff->0.right.1);
    }
}

/// A merge is of all readings that are loaded, and there is one plan for each of them.
/// Where it cannot be made, what was shown stays.
pub proof fn all_readings_are_merged(before: PaneView, after: PaneView)
    requires
        merge_previewed(before, after),
    ensures
        after.notice is Refused ==> after.merge == before.merge && after.plans == before.plans,
        before.inputs.readings@.len() == 0 ==> after.notice is Refused,
        after.notice !is Refused ==> after.merge is Some && after.notice is Observed
            && after.plans.len() == before.inputs.readings@.len(),
        after.document == before.document,
        after.draft == before.draft,
        after.inputs == before.inputs,
        after.diff == before.diff,
        after.pending == before.pending,
{
    let inputs = before.inputs;
    let plans = input_plans(
        inputs.readings@,
        inputs.existing_entities@,
        inputs.unknown_sections,
        inputs.readings@.len() as int,
    );
    if plans is Ok {
        inputs_are_planned_with_their_source(
            inputs.readings@,
            inputs.existing_entities@,
            inputs.unknown_sections,
            inputs.readings@.len() as int,
        );
        assert(plan_views(after.plans).len() == after.plans.len());
    }
}

/// Hypotheses are imported from all readings at once, on the revision and with the
/// identities that were given for it. Without a revision nothing is asked for.
pub proof fn imports_are_for_one_revision(
    before: PaneView,
    r: Option<ReadingQueryViewEffect>,
    after: PaneView,
)
    requires
        import_asked(before, r, after),
    ensures
        r is Some <==> before.inputs.readings@.len() > 0 && before.inputs.base_revision is Some
            && before.pending is None,
        r is Some ==> {
            &&& r matches Some(ReadingQueryViewEffect::Observation(request))
            &&& request.operation matches HeadlessOperation::ImportHypotheses {
                readings,
                existing,
                unknown_sections,
                base_revision,
                hypothesis_allocations,
                set_allocations,
            }
            &&& readings == before.inputs.readings
            &&& existing == before.inputs.existing_entities
            &&& unknown_sections == before.inputs.unknown_sections
            &&& Some(base_revision) == before.inputs.base_revision
            &&& hypothesis_allocations == before.inputs.hypothesis_allocations
            &&& set_allocations == before.inputs.set_allocations
        },
        same_work(before, after),
{
}

pub(crate) proof fn lemma_planned(entities: Seq<PlannedReadingEntity>, id: QualifiedEntityId, i: int)
    requires
        0 <= i,
    ensures
        match planned_index(entities, id@, i) {
            Some(k) => i <= k < entities.len() && entities[k].id@ == id@,
            None => forall|k: int| i <= k < entities.len() ==> (#[trigger] entities[k]).id@ != id@,
        },
    decreases entities.len() - i,
{
    if i < entities.len() && entities[i].id@ != id@ {
        lemma_planned(entities, id, i + 1);
    }
}

/// Whether an entity of this identity is planned at a place.
pub open spec fn is_planned_at(
    plans: Seq<ReadingImportPlan>,
    id: QualifiedEntityId,
    p: int,
    e: int,
) -> bool {
    &&& 0 <= p < plans.len()
    &&& plans[p].reading_id@ == id.reading@
    &&& 0 <= e < plans[p].entities@.len()
    &&& plans[p].entities@[e].id@ == id@
}

/// What is revealed of a reading is the planned entity that was named, with its extent.
/// What no plan holds is not revealed.
pub proof fn named_entities_are_revealed(
    before: PaneView,
    id: QualifiedEntityId,
    r: Option<ReadingQueryViewEffect>,
    after: PaneView,
)
    requires
        planned_revealed(before, id, r, after),
    ensures
        r is Some ==> exists|p: int, e: int|
            #[trigger] is_planned_at(before.plans, id, p, e) && (r matches Some(
                ReadingQueryViewEffect::Reveal(target),
            ) && target.entity == EntityRefDto::Reading(before.plans[p].entities@[e].id)
                && optional_geometry(target.extent) == optional_geometry(
                before.plans[p].entities@[e].extent,
            )),
        r is Some ==> after == before,
        r is None ==> after.notice is Refused,
        same_work(before, after),
{
    plans_are_found_by_reading(before.plans, id.reading, 0);
    if plan_index(before.plans, id.reading, 0) is Some {
        let p = plan_index(before.plans, id.reading, 0)->0;
        lemma_planned(before.plans[p].entities@, id, 0);
        if planned_index(before.plans[p].entities@, id@, 0) is Some {
            let e = planned_index(before.plans[p].entities@, id@, 0)->0;
            assert(is_planned_at(before.plans, id, p, e));
        }
    }
}

/// What is heard of a reading is the extent of the planned entity that was named, where its
/// reading was verified against a source.
pub proof fn named_entities_are_heard(
    before: PaneView,
    id: QualifiedEntityId,
    r: Option<ReadingQueryViewEffect>,
    after: PaneView,
)
    requires
        planned_auditioned(before, id, r, after),
    ensures
        r is Some ==> exists|p: int, e: int|
            #[trigger] is_planned_at(before.plans, id, p, e) && before.plans[p].verification
                != VerificationTier::GraphOnly && before.plans[p].entities@[e].extent is Some && (
            r matches Some(ReadingQueryViewEffect::Render(target)) && target.entity
                == EntityRefDto::Reading(before.plans[p].entities@[e].id) && target.extent@
                == before.plans[p].entities@[e].extent->0@),
        r is Some ==> after == before,
        r is None ==> after.notice is Refused,
        same_work(before, after),
{
    plans_are_found_by_reading(before.plans, id.reading, 0);
    if plan_index(before.plans, id.reading, 0) is Some {
        let p = plan_index(before.plans, id.reading, 0)->0;
        lemma_planned(before.plans[p].entities@, id, 0);
        only_extents_of_verified_readings_are_heard(before.plans[p], id);
        if r is Some {
            let e = planned_index(before.plans[p].entities@, id@, 0)->0;
            assert(is_planned_at(before.plans, id, p, e));
        }
    }
}

} // verus!
