//! What a workflow over several readings shows, and what selections keep: rows speak of
//! their entity and are heard from exact copies only, and selections follow what lives.

use vstd::prelude::*;

use crate::diff_laws::lemma_ranked_members;
use crate::live_project::{ProjectController, ProjectControllerUpdate};
use crate::navigation::{optional_geometry, EntityRefKey};
use crate::objects::ObjectRef;
use crate::rank::ranked;
use crate::reading::{EntityKey, ReadingId, VerificationTier};
use crate::reading_diff::{semantic_diff, SemanticDiffView};
use crate::reading_import::{
    import_plan, DecodedReading, ImportFault, PlanView, PlannedView, UnknownSectionPolicy,
};
use crate::reading_merge::{merged, view_index};
use crate::reading_source::{resolved, MaterialView, ResolutionView};
use crate::reading_workflow::{
    comparisons, is_workflow, located, plan_at, planned_already, prepare_next, prepared,
    primary_of, request_state, row_audition, row_view, row_views, rows, workflow_fault, Prepared,
    ReadingResultRow, ReadingWorkflowPlan, ReadingWorkflowRequest, ResultRowView, WorkflowFault,
};
use crate::selection::{
    alive, guard_fault, reconciled, removed_count, selected, SelectionDocumentId, SelectionGuard,
    SelectionGuardError, SelectionStateView, SelectionView,
};
use crate::session::{
    after_step, current_guard, history_event, installed, published_update, receipt_of,
    republished, reselected, sample_update, step_receipt, workflow_update, AnalysisHandle,
    PatternWorkflowOutcome, SampleActionOutcome, SessionView,
};

verus! {

// ----- rows ---------------------------------------------------------------

/// Whether a row shows an entity: under the label and disposition of the merge, revealing
/// and naming the entity itself, with its own extent. It is heard exactly if its reading
/// is verified by a local copy and it has an extent, and then from that copy.
pub open spec fn shows_entity(
    row: ReadingResultRow,
    plan: PlanView,
    primary: Option<MaterialView>,
    entity: PlannedView,
    own: PlannedView,
) -> bool {
    &&& row.label@ == entity.label && row.disposition == entity.disposition
    &&& row.hit.fact@ == EntityRefKey::Reading(own.id)
    &&& row.reveal.entity@ == EntityRefKey::Reading(own.id)
    &&& optional_geometry(row.hit.extent) == own.extent
    &&& optional_geometry(row.reveal.extent) == own.extent
    &&& row.hit.derivation.premises@.len() == 0
    &&& row.audition is Some <==> plan.verification != VerificationTier::GraphOnly && primary
        is Some && own.extent is Some
    &&& row.audition matches Some(request) ==> {
        &&& request.material.0@ == primary->0.id
        &&& request.target.entity@ == EntityRefKey::Reading(own.id)
        &&& request.target.extent@ == own.extent->0
    }
}

/// A row shows its entity.
pub proof fn rows_show_their_entity(
    row: ReadingResultRow,
    plan: PlanView,
    primary: Option<MaterialView>,
    entity: PlannedView,
    own: PlannedView,
)
    requires
        row@ == row_view(plan, primary, entity, own),
    ensures
        shows_entity(row, plan, primary, entity, own),
{
    assert(row.hit@.premises.len() == row.hit.derivation.premises@.len());
}

proof fn lemma_plan_at(plans: Seq<PlanView>, reading: ReadingId, i: int)
    requires
        0 <= i,
    ensures
        plan_at(plans, reading, i) matches Some(p) ==> i <= p < plans.len() && plans[p].reading_id
            == reading,
    decreases plans.len() - i,
{
    if i < plans.len() && plans[i].reading_id != reading {
        lemma_plan_at(plans, reading, i + 1);
    }
}

proof fn lemma_view_at(list: Seq<PlannedView>, id: EntityKey, i: int)
    requires
        0 <= i,
    ensures
        view_index(list, id, i) matches Some(k) ==> i <= k < list.len() && list[k].id == id,
    decreases list.len() - i,
{
    if i < list.len() && list[i].id != id {
        lemma_view_at(list, id, i + 1);
    }
}

/// Whether a row was made for an entity: from the plan of its reading, and what that says
/// of the same entity.
pub open spec fn is_row_for(state: Prepared, row: ResultRowView, entity: PlannedView) -> bool {
    exists|p: int, k: int|
        0 <= p < state.plans.len() && 0 <= k < state.plans[p].entities.len()
            && state.plans[p].reading_id == entity.id.reading && (
        #[trigger] state.plans[p].entities[k]).id == entity.id && row == row_view(
            state.plans[p],
            primary_of(state.sourced[p].resolution),
            entity,
            state.plans[p].entities[k],
        )
}

/// There is one row for each entity, in order, made from the plan of its own reading.
pub proof fn every_entity_has_its_row(state: Prepared, entities: Seq<PlannedView>, i: int)
    requires
        0 <= i <= entities.len(),
        rows(state, entities, i) is Ok,
    ensures
        rows(state, entities, i)->Ok_0.0.len() == i,
        forall|k: int|
            0 <= k < i ==> is_row_for(
                state,
                #[trigger] rows(state, entities, i)->Ok_0.0[k],
                entities[k],
            ),
    decreases i,
{
    if i > 0 {
        every_entity_has_its_row(state, entities, i - 1);
        let done = rows(state, entities, i - 1)->Ok_0.0;
        let out = rows(state, entities, i)->Ok_0.0;
        let entity = entities[i - 1];
        let (p, k) = located(state.plans, entity.id)->0;
        lemma_plan_at(state.plans, entity.id.reading, 0);
        lemma_view_at(state.plans[p].entities, entity.id, 0);
        assert(state.plans[p].entities[k].id == entity.id);
        assert(is_row_for(state, out[i - 1], entity));
        assert forall|m: int| 0 <= m < i implies is_row_for(
            state,
            #[trigger] out[m],
            entities[m],
        ) by {
            if m < i - 1 {
                assert(out[m] == done[m]);
                assert(is_row_for(state, done[m], entities[m]));
            }
        }
    }
}

/// Readings are planned one by one, each against the source that was found for it, and no
/// reading comes twice.
pub proof fn readings_are_planned_one_by_one(
    readings: Seq<DecodedReading>,
    materials: Seq<MaterialView>,
    existing: Seq<EntityKey>,
    policy: UnknownSectionPolicy,
    i: int,
)
    requires
        0 <= i <= readings.len(),
        prepared(readings, materials, existing, policy, i) is Ok,
    ensures
        ({
            let state = prepared(readings, materials, existing, policy, i)->Ok_0;
            &&& state.sourced.len() == i && state.plans.len() == i
            &&& forall|k: int|
                0 <= k < i ==> (#[trigger] state.sourced[k]).reading
                    == readings[k].reading.reading_id && resolved(readings[k].reading, materials)
                    == Ok::<ResolutionView, WorkflowFault>(state.sourced[k].resolution)
            &&& forall|k: int|
                0 <= k < i ==> (#[trigger] state.plans[k]).reading_id
                    == readings[k].reading.reading_id && state.plans[k].reading_revision
                    == readings[k].reading.revision && (state.plans[k].verification
                    == VerificationTier::SourceMatched <==> state.sourced[k].resolution is Matched)
            &&& forall|j: int, k: int|
                0 <= j < k < i ==> (#[trigger] state.plans[j]).reading_id != (
                #[trigger] state.plans[k]).reading_id
        }),
    decreases i,
{
    if i > 0 {
        readings_are_planned_one_by_one(readings, materials, existing, policy, i - 1);
        let done = prepared(readings, materials, existing, policy, i - 1)->Ok_0;
        let state = prepared(readings, materials, existing, policy, i)->Ok_0;
        assert(!planned_already(done.sourced, readings[i - 1].reading.reading_id));
        assert forall|k: int| 0 <= k < i - 1 implies state.sourced[k] == done.sourced[k]
            && state.plans[k] == #[trigger] done.plans[k] by {}
        assert forall|j: int, k: int| 0 <= j < k < i implies (
        #[trigger] state.plans[j]).reading_id != (#[trigger] state.plans[k]).reading_id by {
            assert(state.plans[j] == done.plans[j]);
            if k < i - 1 {
                assert(state.plans[k] == done.plans[k]);
            } else {
                assert(done.sourced[j].reading == readings[j].reading.reading_id);
            }
        }
    }
}

/// Every later reading is compared with the first one.
pub proof fn readings_are_compared_with_the_first(readings: Seq<DecodedReading>, i: int)
    requires
        0 <= i < readings.len(),
        comparisons(readings, i) is Ok,
    ensures
        comparisons(readings, i)->Ok_0.len() == i,
        forall|k: int|
            0 <= k < i ==> semantic_diff(readings[0], readings[k + 1]) == Ok::<
                SemanticDiffView,
                ImportFault,
            >(#[trigger] comparisons(readings, i)->Ok_0[k]),
    decreases i,
{
    if i > 0 {
        readings_are_compared_with_the_first(readings, i - 1);
        let done = comparisons(readings, i - 1)->Ok_0;
        let out = comparisons(readings, i)->Ok_0;
        assert forall|k: int| 0 <= k < i implies semantic_diff(readings[0], readings[k + 1])
            == Ok::<SemanticDiffView, ImportFault>(#[trigger] out[k]) by {
            if k < i - 1 {
                assert(out[k] == done[k]);
            }
        }
    }
}

/// A workflow shows every merged entity in a row of its own, and nothing else.
pub proof fn workflows_show_every_entity(
    plan: ReadingWorkflowPlan,
    request: ReadingWorkflowRequest<'_>,
)
    requires
        workflow_fault(request) is None,
        is_workflow(plan, request),
    ensures
        request.readings@.len() > 0,
        plan.results@.len() == plan.merge@.entities.len(),
        plan.semantic_diffs@.len() == request.readings@.len() - 1,
        plan.resolutions@.len() == request.readings@.len(),
        forall|r: int|
            0 <= r < plan.results@.len() ==> shows_one(
                request_state(request)->Ok_0,
                (#[trigger] plan.results@[r])@,
                plan.merge@.entities,
            ),
        forall|e: int|
            0 <= e < plan.merge@.entities.len() ==> is_shown(
                request_state(request)->Ok_0,
                plan.results@,
                #[trigger] plan.merge@.entities[e],
            ),
{
    let state = request_state(request)->Ok_0;
    let entities = plan.merge@.entities;
    let n = entities.len() as int;
    let found = rows(state, entities, n)->Ok_0.0;
    every_entity_has_its_row(state, entities, n);
    lemma_ranked_members(found);
    let order = ranked(found);
    assert(row_views(plan.results@) == order);
    assert(row_views(plan.results@).len() == plan.results@.len());
    readings_are_compared_with_the_first(request.readings@, request.readings@.len() - 1);
    assert(crate::reading_workflow::diff_views(plan.semantic_diffs@).len()
        == plan.semantic_diffs@.len());
    readings_are_planned_one_by_one(
        request.readings@,
        crate::reading_source::material_views(request.local_materials@),
        crate::reading::entity_keys(request.existing@),
        request.unknown_sections,
        request.readings@.len() as int,
    );
    lemma_ranked_members(state.sourced);
    assert(crate::reading_workflow::sourced_views(plan.resolutions@).len()
        == plan.resolutions@.len());
    assert forall|r: int| 0 <= r < plan.results@.len() implies shows_one(
        state,
        (#[trigger] plan.results@[r])@,
        entities,
    ) by {
        assert(order[r] == plan.results@[r]@);
        assert(order.contains(order[r]));
        assert(found.contains(order[r]));
        let k = choose|k: int| 0 <= k < found.len() && found[k] == order[r];
        assert(is_row_for(state, found[k], entities[k]));
    }
    assert forall|e: int| 0 <= e < entities.len() implies is_shown(
        state,
        plan.results@,
        #[trigger] entities[e],
    ) by {
        assert(is_row_for(state, found[e], entities[e]));
        assert(found.contains(found[e]));
        assert(order.contains(found[e]));
        let r = choose|r: int| 0 <= r < order.len() && order[r] == found[e];
        assert(order[r] == plan.results@[r]@);
    }
}

/// Whether a row was made for one of the entities.
pub open spec fn shows_one(
    state: Prepared,
    row: ResultRowView,
    entities: Seq<PlannedView>,
) -> bool {
    exists|e: int| 0 <= e < entities.len() && is_row_for(state, row, #[trigger] entities[e])
}

/// Whether one of the rows was made for an entity.
pub open spec fn is_shown(
    state: Prepared,
    results: Seq<ReadingResultRow>,
    entity: PlannedView,
) -> bool {
    exists|r: int|
        0 <= r < results.len() && is_row_for(state, (#[trigger] results[r])@, entity)
}

// ----- selections ---------------------------------------------------------

/// A selection is accepted exactly if it was prepared for the document and the revision;
/// otherwise it is said what does not fit.
pub proof fn selections_are_for_one_revision(
    guard: Option<SelectionGuard>,
    document: SelectionDocumentId,
    revision: u64,
)
    ensures
        guard_fault(guard, document, revision) is None <==> (guard matches Some(of) && of.document
            == document && of.project_revision == revision),
        guard is None <==> (guard_fault(guard, document, revision) matches Some(fault) && fault
            is MissingGuard),
        guard_fault(guard, document, revision) matches Some(
            SelectionGuardError::DocumentConflict { expected, actual },
        ) ==> expected == guard->0.document && actual == document && expected != actual,
        guard_fault(guard, document, revision) matches Some(
            SelectionGuardError::ProjectRevisionConflict { expected, actual },
        ) ==> expected == guard->0.project_revision && actual == revision && expected != actual
            && guard->0.document == document,
{
}

/// A selection moves its revision on exactly if it changes, and leaves the cursor.
pub proof fn new_selections_move_the_revision(
    state: SelectionStateView,
    selection: SelectionView,
)
    ensures
        selected(state, selection).selection == selection,
        selected(state, selection).edit_cursor == state.edit_cursor,
        state.selection == selection ==> selected(state, selection).revision == state.revision,
        state.selection != selection && state.revision < u64::MAX ==> selected(
            state,
            selection,
        ).revision == state.revision + 1,
{
}

proof fn lemma_alive(objects: Seq<ObjectRef>, live: Seq<ObjectRef>, i: int)
    requires
        0 <= i <= objects.len(),
    ensures
        alive(objects, live, i).len() <= i,
        forall|o: ObjectRef|
            #[trigger] alive(objects, live, i).contains(o) <==> live.contains(o) && exists|k: int|
                0 <= k < i && #[trigger] objects[k] == o,
        (forall|k: int| 0 <= k < i ==> live.contains(#[trigger] objects[k])) <==> alive(
            objects,
            live,
            i,
        ).len() == i,
        (forall|k: int| 0 <= k < i ==> live.contains(#[trigger] objects[k])) ==> alive(
            objects,
            live,
            i,
        ) == objects.take(i),
    decreases i,
{
    if i > 0 {
        lemma_alive(objects, live, i - 1);
        let before = alive(objects, live, i - 1);
        let after = alive(objects, live, i);
        assert forall|o: ObjectRef| #[trigger] after.contains(o) <==> live.contains(o) && exists|
            k: int,
        |
            0 <= k < i && #[trigger] objects[k] == o by {
            if after.contains(o) {
                let a = choose|a: int| 0 <= a < after.len() && after[a] == o;
                if a < before.len() {
                    assert(before[a] == o);
                    assert(before.contains(o));
                } else {
                    assert(objects[i - 1] == o);
                }
            }
            if live.contains(o) && exists|k: int| 0 <= k < i && #[trigger] objects[k] == o {
                let k = choose|k: int| 0 <= k < i && #[trigger] objects[k] == o;
                if k < i - 1 {
                    assert(before.contains(o));
                    let a = choose|a: int| 0 <= a < before.len() && before[a] == o;
                    assert(after[a] == o);
                } else {
                    assert(after[after.len() - 1] == o);
                }
            }
        }
        if forall|k: int| 0 <= k < i ==> live.contains(#[trigger] objects[k]) {
            assert(live.contains(objects[i - 1]));
            assert(after =~= objects.take(i));
        }
        if after.len() == i {
            assert forall|k: int| 0 <= k < i implies live.contains(#[trigger] objects[k]) by {}
        }
    } else {
        assert(alive(objects, live, i) =~= objects.take(i));
    }
}

/// Reconciling keeps what lives and nothing else: a primary that lives stays, and where it
/// does not, another selected object that lives takes its place if there is one.
pub proof fn reconciling_keeps_what_lives(selection: SelectionView, live: Seq<ObjectRef>)
    ensures
        ({
            let after = reconciled(selection, live);
            &&& (selection.primary matches Some(object) && live.contains(object))
                ==> after.primary == selection.primary
            &&& forall|k: int|
                0 <= k < selection.secondary.len() && live.contains(
                    #[trigger] selection.secondary[k],
                ) ==> after.secondary.contains(selection.secondary[k]) || after.primary == Some(
                    selection.secondary[k],
                )
            &&& forall|k: int|
                0 <= k < after.secondary.len() ==> live.contains(#[trigger] after.secondary[k])
                    && selection.secondary.contains(after.secondary[k])
            &&& (after.primary matches Some(object) ==> live.contains(object) && (selection.primary
                == Some(object) || selection.secondary.contains(object)))
            &&& after.guard == selection.guard && after.time == selection.time && after.air
                == selection.air && after.signal == selection.signal && after.aspect
                == selection.aspect && after.provenance == selection.provenance
            &&& removed_count(selection, live) == selection.secondary.len() - after.secondary.len()
                + (if selection.primary is Some {
                1int
            } else {
                0
            }) - (if after.primary is Some {
                1int
            } else {
                0
            })
            &&& selection.primary is None ==> after.primary is None
            &&& after.primary is None && selection.primary is Some ==> after.secondary.len() == 0
        }),
{
    let n = selection.secondary.len() as int;
    let kept = alive(selection.secondary, live, n);
    let after = reconciled(selection, live);
    lemma_alive(selection.secondary, live, n);
    assert forall|k: int|
        0 <= k < n && live.contains(#[trigger] selection.secondary[k]) implies after.secondary.contains(
        selection.secondary[k],
    ) || after.primary == Some(selection.secondary[k]) by {
        assert(kept.contains(selection.secondary[k]));
        let a = choose|a: int| 0 <= a < kept.len() && kept[a] == selection.secondary[k];
        if after.secondary != kept && a > 0 {
            assert(after.secondary[a - 1] == kept[a]);
        }
    }
    assert forall|k: int| 0 <= k < after.secondary.len() implies live.contains(
        #[trigger] after.secondary[k],
    ) && selection.secondary.contains(after.secondary[k]) by {
        if after.secondary == kept {
            assert(kept.contains(kept[k]));
        } else {
            assert(after.secondary[k] == kept[k + 1]);
            assert(kept.contains(kept[k + 1]));
        }
        let m = choose|m: int| 0 <= m < n && #[trigger] selection.secondary[m] == after.secondary[k];
        assert(selection.secondary[m] == after.secondary[k]);
    }
    if kept.len() > 0 {
        assert(kept.contains(kept[0]));
        let m = choose|m: int| 0 <= m < n && #[trigger] selection.secondary[m] == kept[0];
        assert(selection.secondary[m] == kept[0]);
    }
}

// ----- sessions -----------------------------------------------------------

/// What an edit leads to is shown and told: the session shows the new project under the
/// next generation, and the receipt names it.
pub proof fn edits_are_shown_and_told(
    session: SessionView,
    controller: ProjectController,
    update: ProjectControllerUpdate,
)
    requires
        session.published.generation < u64::MAX,
    ensures
        ({
            let after = published_update(session, controller, update);
            let receipt = receipt_of(session, controller, update);
            &&& after.controller == Some(controller)
            &&& after.published.project == Some(update.snapshot)
            &&& after.published.generation == session.published.generation + 1
            &&& after.published.analysis == session.published.analysis
            &&& after.interpretations == session.interpretations
            &&& after.links == session.links
            &&& after.document_generation == session.document_generation
            &&& receipt.publication.generation == after.published.generation
            &&& receipt.publication.snapshot == update.snapshot
            &&& receipt.publication.revisions == update.snapshot.revisions
            &&& receipt.publication.change_set == Some(update.change_set)
            &&& receipt.change_set == update.change_set
            &&& receipt.operation == update.operation
            &&& receipt.history == controller.history
            &&& receipt.journal_sequence == update.journal_sequence
        }),
{
}

/// A step that changes nothing publishes nothing, and one that does is published.
pub proof fn only_changes_are_published(
    session: SessionView,
    controller: ProjectController,
    update: Option<ProjectControllerUpdate>,
)
    ensures
        after_step(session, controller, update).controller == Some(controller),
        update is None <==> step_receipt(session, controller, update) is None,
        update is None ==> after_step(session, controller, update).published
            == session.published && after_step(session, controller, update).events
            == session.events,
        update matches Some(change) ==> after_step(session, controller, update).published.project
            == Some(change.snapshot) && step_receipt(session, controller, update)->0.change_set
            == change.change_set,
{
}

/// Workflows and sample actions publish what they changed: previews, auditions, gestures
/// and looks at something change nothing.
pub proof fn looking_changes_nothing(
    workflow: PatternWorkflowOutcome,
    sample: SampleActionOutcome,
)
    ensures
        workflow_update(workflow) == match workflow {
            PatternWorkflowOutcome::Published(update) => Some(update),
            PatternWorkflowOutcome::History(update) => update,
            PatternWorkflowOutcome::Targeted => None,
            PatternWorkflowOutcome::Navigate => None,
            PatternWorkflowOutcome::Preview => None,
            PatternWorkflowOutcome::Audition => None,
            PatternWorkflowOutcome::GestureBegan => None,
            PatternWorkflowOutcome::GestureEnded => None,
        },
        sample_update(sample) is Some <==> sample is Published,
        sample matches SampleActionOutcome::Published(update) ==> sample_update(sample) == Some(
            update,
        ),
{
}

/// A selection is told exactly if its revision moved on.
pub proof fn moved_selections_are_told(session: SessionView, selection: SelectionStateView)
    ensures
        reselected(session, selection).selection == selection,
        selection.revision == session.selection.revision ==> reselected(session, selection).events
            == session.events,
        selection.revision != session.selection.revision ==> reselected(
            session,
            selection,
        ).events.next_sequence != session.events.next_sequence,
{
}

/// Selections are guarded by the revision that is shown.
pub proof fn guards_follow_what_is_shown(session: SessionView)
    ensures
        current_guard(session) is Some <==> session.published.project is Some,
        current_guard(session) matches Some(guard) ==> guard.project_revision
            == session.published.project->0.revisions.aggregate,
{
}

} // verus!
