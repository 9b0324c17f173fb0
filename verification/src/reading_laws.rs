//! What validating, planning and merging readings says of them: which readings are
//! accepted, what their records become, and what a merge of them holds.

use vstd::prelude::*;
use vstd::string::*;

use crate::diff_laws::lemma_ranked_members;
use crate::navigation::{
    qualified_objects, reference_keys, the_unit_interval_ends_at_one, units, AspectGeometryDto,
    EntityRefDto, EntityRefKey, GeometryView, SignalLayerDto, SignalView,
};
use crate::rank::{ranked, ranked_is_an_ordering};
use crate::reading::{
    attachments_fault, first_mismatch, parents_fault, section_views, sections_fault, EntityKey,
    LocalSourceDescriptor, PortableDigest, PortableDigestAlgorithm, QualifiedEntityId,
    ReadingAttachmentRef, ReadingFile, ReadingId, ReadingSection, ReadingVersionRef,
    ReplicationCheck, SectionView, VerificationTier,
};
use crate::reading_codec::section_index;
use crate::reading_import::{
    foreign_object, foreign_reference, import_plan, imported_geometry, opaque_names,
    opaque_sections, planned_record, planned_records, planned_same, record_id,
    records_for_import, repeats_record, semantics_view, ImportDisposition, ImportFault, PlanView,
    PlannedReadingEntity, PlannedView, PortableEntityRecord, PortableEntityRole,
    ReadingImportOptions, ReadingImportPlan, UnknownSectionPolicy,
};
use crate::reading_merge::{
    absorbed, answers, group_of, groups_of, merged, merged_entities, plan_views, preserved_of,
    question_of, questions, repeats_version, version_of, view_index, GroupView, MergeFault,
    MergeView, MergedReading, PreservedView, ReadingMergePlan,
};
use crate::text::{decimal, hex_text, is_token, is_white_space, optional_text};

verus! {

// ----- envelopes ----------------------------------------------------------

/// Whether a digest was made by an algorithm that resists collisions.
pub open spec fn resists_collisions(digest: PortableDigest) -> bool {
    digest.algorithm != PortableDigestAlgorithm::StableNonCryptographic
}

/// Whether a text shows something: a character of it is no white space.
pub open spec fn shows_something(text: Seq<char>) -> bool {
    exists|i: int| 0 <= i < text.len() && !is_white_space(#[trigger] text[i])
}

proof fn lemma_parents(parents: Seq<ReadingVersionRef>, i: int)
    requires
        0 <= i <= parents.len(),
    ensures
        parents_fault(parents, i) is None <==> (forall|k: int|
            i <= k < parents.len() ==> (#[trigger] parents[k]).revision > 0 && resists_collisions(
                parents[k].manifest_digest,
            )) && (forall|j: int, k: int|
            0 <= j < k && i <= k < parents.len() ==> (#[trigger] parents[j]).reading_id != (
            #[trigger] parents[k]).reading_id || parents[j].revision != parents[k].revision),
    decreases parents.len() - i,
{
    if i < parents.len() {
        lemma_parents(parents, i + 1);
    }
}

proof fn lemma_sections(sections: Seq<ReadingSection>, i: int)
    requires
        0 <= i <= sections.len(),
    ensures
        sections_fault(sections, i) is None <==> (forall|k: int|
            i <= k < sections.len() ==> is_token((#[trigger] sections[k]).name@)
                && sections[k].schema_major > 0) && (forall|j: int, k: int|
            0 <= j < k && i <= k < sections.len() ==> (#[trigger] sections[j]).name@ != (
            #[trigger] sections[k]).name@),
    decreases sections.len() - i,
{
    if i < sections.len() {
        lemma_sections(sections, i + 1);
    }
}

proof fn lemma_attachments(attachments: Seq<ReadingAttachmentRef>, i: int)
    requires
        0 <= i <= attachments.len(),
    ensures
        attachments_fault(attachments, i) is None <==> forall|k: int|
            i <= k < attachments.len() ==> resists_collisions((#[trigger] attachments[k]).digest)
                && shows_something(attachments[k].media_type@) && is_token(attachments[k].role@),
    decreases attachments.len() - i,
{
    if i < attachments.len() {
        lemma_attachments(attachments, i + 1);
        let text = attachments[i].media_type@;
        if crate::text::is_blank(text) {
            assert(!shows_something(text));
        } else {
            let k = choose|k: int| 0 <= k < text.len() && !is_white_space(#[trigger] text[k]);
            assert(shows_something(text));
        }
    }
}

/// A reading is accepted exactly if it is of the one format and version, has a revision,
/// and describes a source that can be recognised; if every parent is pinned and named once;
/// if every section has a name of its own and a schema; and if every attachment can be
/// found and says what it is.
pub proof fn accepted_readings_are_complete(file: ReadingFile)
    ensures
        file.fault() is None <==> {
            &&& file.format@ == "audec-reading"@
            &&& file.version == 1
            &&& file.revision > 0
            &&& file.source.fingerprints@.len() > 0
            &&& forall|i: int|
                0 <= i < file.source.fingerprints@.len() ==> resists_collisions(
                    #[trigger] file.source.fingerprints@[i],
                )
            &&& file.source.sample_rate > 0 && file.source.channels > 0 && file.source.frame_count
                > 0
            &&& forall|k: int|
                0 <= k < file.parents@.len() ==> (#[trigger] file.parents@[k]).revision > 0
                    && resists_collisions(file.parents@[k].manifest_digest)
            &&& forall|j: int, k: int|
                0 <= j < k < file.parents@.len() ==> (#[trigger] file.parents@[j]).reading_id != (
                #[trigger] file.parents@[k]).reading_id || file.parents@[j].revision
                    != file.parents@[k].revision
            &&& forall|k: int|
                0 <= k < file.sections@.len() ==> is_token((#[trigger] file.sections@[k]).name@)
                    && file.sections@[k].schema_major > 0
            &&& forall|j: int, k: int|
                0 <= j < k < file.sections@.len() ==> (#[trigger] file.sections@[j]).name@ != (
                #[trigger] file.sections@[k]).name@
            &&& forall|k: int|
                0 <= k < file.attachments@.len() ==> resists_collisions(
                    (#[trigger] file.attachments@[k]).digest,
                ) && shows_something(file.attachments@[k].media_type@) && is_token(
                    file.attachments@[k].role@,
                )
        },
{
    lemma_parents(file.parents@, 0);
    lemma_sections(file.sections@, 0);
    lemma_attachments(file.attachments@, 0);
    let prints = file.source.fingerprints@;
    if exists|i: int| 0 <= i < prints.len() && !(#[trigger] prints[i]).strong() {
        let i = choose|i: int| 0 <= i < prints.len() && !(#[trigger] prints[i]).strong();
        assert(!resists_collisions(prints[i]));
    }
}

/// A source is matched only by material of the same rate, channels and frames, with a
/// digest that resists collisions and that the reading names.
pub proof fn sources_match_by_digest_and_format(file: ReadingFile, local: LocalSourceDescriptor)
    ensures
        file.source_check(Some(local)) is Ok <==> file.source.sample_rate == local.sample_rate
            && file.source.channels == local.channels && file.source.frame_count
            == local.frame_count && resists_collisions(local.digest) && exists|i: int|
            0 <= i < file.source.fingerprints@.len() && #[trigger] file.source.fingerprints@[i]
                == local.digest,
        file.source_check(Some(local)) matches Ok(tier) ==> tier == VerificationTier::SourceMatched,
        file.source_check(None) matches Ok(tier) && tier == VerificationTier::GraphOnly,
{
}

/// A reading is replicated only if every check matches; otherwise the first that does not
/// is named.
pub proof fn every_check_has_to_match(checks: Seq<ReplicationCheck>, i: int)
    requires
        0 <= i <= checks.len(),
    ensures
        match first_mismatch(checks, i) {
            None => forall|k: int| i <= k < checks.len() ==> (#[trigger] checks[k]).matches,
            Some(subject) => exists|k: int|
                i <= k < checks.len() && !(#[trigger] checks[k]).matches && checks[k].subject
                    == subject && forall|e: int| i <= e < k ==> (#[trigger] checks[e]).matches,
        },
    decreases checks.len() - i,
{
    if i < checks.len() {
        every_check_has_to_match(checks, i + 1);
        if checks[i].matches {
            if let Some(subject) = first_mismatch(checks, i + 1) {
                let k = choose|k: int|
                    i + 1 <= k < checks.len() && !(#[trigger] checks[k]).matches
                        && checks[k].subject == subject && forall|e: int|
                        i + 1 <= e < k ==> (#[trigger] checks[e]).matches;
                assert(!checks[k].matches);
            }
        } else {
            assert(!checks[i].matches);
        }
    }
}

/// A canonical form holds what the reading holds, in another order at most.
pub proof fn canonical_forms_keep_everything(form: ReadingFile, file: ReadingFile)
    requires
        form.is_canonical_form_of(file),
    ensures
        form.reading_id == file.reading_id && form.revision == file.revision,
        form.source.sample_rate == file.source.sample_rate && form.source.channels
            == file.source.channels && form.source.frame_count == file.source.frame_count,
        form.parents@.to_multiset() == file.parents@.to_multiset(),
        form.sections@.to_multiset() == file.sections@.to_multiset(),
        form.attachments@.to_multiset() == file.attachments@.to_multiset(),
        form.source.fingerprints@.to_multiset() == file.source.fingerprints@.to_multiset(),
        form.author == file.author && form.extensions@ == file.extensions@,
        form.source.declared_title == file.source.declared_title && form.source.extensions@
            == file.source.extensions@,
{
    ranked_is_an_ordering(file.parents@);
    ranked_is_an_ordering(file.sections@);
    ranked_is_an_ordering(file.attachments@);
    ranked_is_an_ordering(file.source.fingerprints@);
}

// ----- plans --------------------------------------------------------------

/// What a reference of a record stands for once it is imported: one of the project's own
/// style means an entity of the reading, one into a reading stays.
pub open spec fn becomes(from: EntityRefDto, to: EntityRefKey, reading: ReadingId) -> bool {
    match from {
        EntityRefDto::Project { kind, local_id } => to matches EntityRefKey::Reading(id)
            && id.reading == reading && id.kind == kind@ && id.local_id == local_id,
        EntityRefDto::Reading(id) => to matches EntityRefKey::Reading(key) && key.reading
            == id.reading && key.kind == id.kind@ && key.local_id == id.local_id,
    }
}

/// Whether geometry is that of a record, with its references qualified by the reading.
pub open spec fn is_qualified(
    from: AspectGeometryDto,
    to: AspectGeometryDto,
    reading: ReadingId,
) -> bool {
    &&& to.regions@ == from.regions@
    &&& to.objects@.len() == from.objects@.len()
    &&& forall|i: int|
        0 <= i < from.objects@.len() ==> becomes(
            from.objects@[i],
            (#[trigger] to.objects@[i])@,
            reading,
        )
    &&& match from.signal {
        SignalLayerDto::Source => to.signal is Source,
        SignalLayerDto::Explanation { reference } => to.signal matches SignalLayerDto::Explanation {
            reference: after,
        } && becomes(reference, after@, reading),
        SignalLayerDto::Residual { reference } => to.signal matches SignalLayerDto::Residual {
            reference: after,
        } && becomes(reference, after@, reading),
    }
}

proof fn lemma_qualified_objects(
    objects: Seq<EntityRefDto>,
    reading: ReadingId,
    i: int,
    k: int,
)
    requires
        0 <= k < i <= objects.len(),
        qualified_objects(objects, reading, i) is Ok,
    ensures
        qualified_objects(objects, reading, i)->Ok_0.len() == i,
        becomes(objects[k], qualified_objects(objects, reading, i)->Ok_0[k], reading),
    decreases i,
{
    reveal_with_fuel(qualified_objects, 2);
    if i > 1 {
        if k < i - 1 {
            lemma_qualified_objects(objects, reading, i - 1, k);
        } else {
            lemma_qualified_objects(objects, reading, i - 1, 0);
        }
    }
}

pub(crate) proof fn lemma_is_qualified(
    from: AspectGeometryDto,
    to: AspectGeometryDto,
    reading: ReadingId,
)
    requires
        from.qualified(reading) matches Ok(view) && view == to@,
    ensures
        is_qualified(from, to, reading),
{
    reveal_with_fuel(qualified_objects, 2);
    let n = from.objects@.len() as int;
    assert(to@.objects == qualified_objects(from.objects@, reading, n)->Ok_0);
    assert(to@.objects.len() == to.objects@.len());
    if n > 0 {
        lemma_qualified_objects(from.objects@, reading, n, 0);
    }
    assert forall|i: int| 0 <= i < n implies becomes(
        from.objects@[i],
        (#[trigger] to.objects@[i])@,
        reading,
    ) by {
        lemma_qualified_objects(from.objects@, reading, n, i);
        assert(to@.objects[i] == to.objects@[i]@);
    }
}

/// Whether a planned entity is what a record says, under the name of its reading.
#[verifier::opaque]
pub open spec fn plans_record(
    entity: PlannedReadingEntity,
    record: PortableEntityRecord,
    reading: ReadingId,
    existing: Seq<EntityKey>,
) -> bool {
    &&& entity.id.reading == reading
    &&& entity.id.kind@ == record.kind@
    &&& entity.id.local_id == record.local_id
    &&& entity.label@ == record.label@
    &&& entity.role == record.role
    &&& match (record.hypothesis, entity.hypothesis) {
        (Some(a), Some(b)) => a.support_bits == b.support_bits && optional_text(a.description)
            == optional_text(b.description),
        (None, None) => true,
        _ => false,
    }
    &&& optional_text(entity.hypothesis_group) == optional_text(record.hypothesis_group)
    &&& match (record.extent, entity.extent) {
        (Some(a), Some(b)) => is_qualified(a, b, reading),
        (None, None) => true,
        _ => false,
    }
    &&& entity.disposition == ImportDisposition::AlreadyPresent <==> exists|e: int|
        0 <= e < existing.len() && (#[trigger] existing[e]).reading == reading && existing[e].kind
            == record.kind@ && existing[e].local_id == record.local_id
    &&& entity.disposition == ImportDisposition::PreserveCoexistingHypothesis ==> record.role
        == PortableEntityRole::Hypothesis
    &&& entity.disposition == ImportDisposition::AddQualified ==> record.role
        != PortableEntityRole::Hypothesis
}

proof fn lemma_planned_at(
    reading: ReadingId,
    records: Seq<PortableEntityRecord>,
    existing: Seq<EntityKey>,
    i: int,
    k: int,
)
    requires
        0 <= k < i <= records.len(),
        planned_records(reading, records, existing, i) is Ok,
    ensures
        planned_records(reading, records, existing, i)->Ok_0.len() == i,
        planned_record(reading, records, existing, k) == Ok::<PlannedView, ImportFault>(
            planned_records(reading, records, existing, i)->Ok_0[k],
        ),
    decreases i,
{
    reveal_with_fuel(planned_records, 2);
    if i > 1 {
        if k < i - 1 {
            lemma_planned_at(reading, records, existing, i - 1, k);
        } else {
            lemma_planned_at(reading, records, existing, i - 1, 0);
        }
    }
}

proof fn lemma_plans_record(
    reading: ReadingId,
    records: Seq<PortableEntityRecord>,
    existing: Seq<EntityKey>,
    k: int,
    entity: PlannedReadingEntity,
)
    requires
        0 <= k < records.len(),
        planned_record(reading, records, existing, k) == Ok::<PlannedView, ImportFault>(entity@),
    ensures
        plans_record(entity, records[k], reading, existing),
{
    reveal(plans_record);
    let record = records[k];
    let id = record_id(reading, record)@;
    if let Some(extent) = record.extent {
        lemma_is_qualified(extent, entity.extent->0, reading);
    }
    if existing.contains(id) {
        let e = choose|e: int| 0 <= e < existing.len() && existing[e] == id;
        assert(existing[e].reading == reading);
    }
    if exists|e: int|
        0 <= e < existing.len() && (#[trigger] existing[e]).reading == reading && existing[e].kind
            == record.kind@ && existing[e].local_id == record.local_id {
        let e = choose|e: int|
            0 <= e < existing.len() && (#[trigger] existing[e]).reading == reading
                && existing[e].kind == record.kind@ && existing[e].local_id == record.local_id;
        assert(existing[e] == id);
        assert(existing.contains(id));
    }
}

/// Whether the planned entities show a ranking of what the records become.
spec fn shows_ranked(
    reading: ReadingId,
    records: Seq<PortableEntityRecord>,
    existing: Seq<EntityKey>,
    list: Seq<PlannedView>,
    entities: Seq<PlannedReadingEntity>,
) -> bool {
    &&& planned_records(reading, records, existing, records.len() as int) == Ok::<
        Seq<PlannedView>,
        ImportFault,
    >(list)
    &&& entities.len() == ranked(list).len()
    &&& forall|n: int| 0 <= n < entities.len() ==> (#[trigger] entities[n])@ == ranked(list)[n]
}

proof fn lemma_record_has_entity(
    reading: ReadingId,
    records: Seq<PortableEntityRecord>,
    existing: Seq<EntityKey>,
    list: Seq<PlannedView>,
    entities: Seq<PlannedReadingEntity>,
    k: int,
) -> (n: int)
    requires
        shows_ranked(reading, records, existing, list, entities),
        0 <= k < records.len(),
    ensures
        0 <= n < entities.len(),
        plans_record(entities[n], records[k], reading, existing),
{
    lemma_ranked_members(list);
    lemma_planned_at(reading, records, existing, records.len() as int, k);
    assert(list.contains(list[k]));
    assert(ranked(list).contains(list[k]));
    let n = choose|n: int| 0 <= n < ranked(list).len() && ranked(list)[n] == list[k];
    assert(entities[n]@ == ranked(list)[n]);
    lemma_plans_record(reading, records, existing, k, entities[n]);
    n
}

proof fn lemma_entity_has_record(
    reading: ReadingId,
    records: Seq<PortableEntityRecord>,
    existing: Seq<EntityKey>,
    list: Seq<PlannedView>,
    entities: Seq<PlannedReadingEntity>,
    n: int,
) -> (k: int)
    requires
        shows_ranked(reading, records, existing, list, entities),
        0 <= n < entities.len(),
        records.len() == list.len(),
    ensures
        0 <= k < records.len(),
        plans_record(entities[n], records[k], reading, existing),
{
    lemma_ranked_members(list);
    assert(ranked(list).contains(ranked(list)[n]));
    assert(list.contains(ranked(list)[n]));
    let k = choose|k: int| 0 <= k < list.len() && list[k] == ranked(list)[n];
    lemma_planned_at(reading, records, existing, records.len() as int, k);
    assert(entities[n]@ == ranked(list)[n]);
    lemma_plans_record(reading, records, existing, k, entities[n]);
    k
}

proof fn lemma_planned_count(
    reading: ReadingId,
    records: Seq<PortableEntityRecord>,
    existing: Seq<EntityKey>,
    i: int,
)
    requires
        0 <= i <= records.len(),
        planned_records(reading, records, existing, i) is Ok,
    ensures
        planned_records(reading, records, existing, i)->Ok_0.len() == i,
    decreases i,
{
    if i > 0 {
        lemma_planned_count(reading, records, existing, i - 1);
    }
}

/// Every record of a reading is planned as what it says, and nothing else is planned.
pub proof fn every_record_is_planned(
    reading: ReadingFile,
    decoded: Result<Vec<PortableEntityRecord>, String>,
    local: Option<LocalSourceDescriptor>,
    existing: Seq<EntityKey>,
    options: ReadingImportOptions,
    plan: ReadingImportPlan,
    records: Seq<PortableEntityRecord>,
)
    requires
        import_plan(reading, decoded, local, existing, options) == Ok::<PlanView, ImportFault>(
            plan@,
        ),
        records_for_import(reading, decoded, options) == Ok::<
            Seq<PortableEntityRecord>,
            ImportFault,
        >(records),
    ensures
        plan.reading_id == reading.reading_id,
        plan.reading_revision == reading.revision,
        plan.entities@.len() == records.len(),
        local is None <==> plan.verification == VerificationTier::GraphOnly,
        local is Some <==> plan.verification == VerificationTier::SourceMatched,
        forall|k: int|
            0 <= k < records.len() ==> exists|n: int|
                0 <= n < plan.entities@.len() && plans_record(
                    #[trigger] plan.entities@[n],
                    #[trigger] records[k],
                    reading.reading_id,
                    existing,
                ),
        forall|n: int|
            0 <= n < plan.entities@.len() ==> exists|k: int|
                0 <= k < records.len() && plans_record(
                    #[trigger] plan.entities@[n],
                    #[trigger] records[k],
                    reading.reading_id,
                    existing,
                ),
{
    let id = reading.reading_id;
    let entities = plan.entities@;
    let list = planned_records(id, records, existing, records.len() as int)->Ok_0;
    lemma_planned_count(id, records, existing, records.len() as int);
    ranked_is_an_ordering(list);
    assert(plan@.entities == ranked(list));
    assert forall|n: int| 0 <= n < entities.len() implies (#[trigger] entities[n])@ == ranked(
        list,
    )[n] by {
        assert(plan@.entities[n] == entities[n]@);
    }
    assert(shows_ranked(id, records, existing, list, entities));
    assert forall|k: int| 0 <= k < records.len() implies exists|n: int|
        0 <= n < entities.len() && plans_record(
            #[trigger] entities[n],
            #[trigger] records[k],
            id,
            existing,
        ) by {
        let n = lemma_record_has_entity(id, records, existing, list, entities, k);
        assert(plans_record(entities[n], records[k], id, existing));
    }
    assert forall|n: int| 0 <= n < entities.len() implies exists|k: int|
        0 <= k < records.len() && plans_record(
            #[trigger] entities[n],
            #[trigger] records[k],
            id,
            existing,
        ) by {
        let k = lemma_entity_has_record(id, records, existing, list, entities, n);
        assert(plans_record(entities[n], records[k], id, existing));
    }
}

/// The records that are planned are those that the entity section was decoded to. A reading
/// without that section has none, where it may go without.
pub proof fn planned_records_are_what_was_decoded(
    reading: ReadingFile,
    decoded: Result<Vec<PortableEntityRecord>, String>,
    options: ReadingImportOptions,
    records: Seq<PortableEntityRecord>,
)
    requires
        records_for_import(reading, decoded, options) == Ok::<
            Seq<PortableEntityRecord>,
            ImportFault,
        >(records),
    ensures
        (exists|s: int|
            0 <= s < reading.sections@.len() && (#[trigger] reading.sections@[s]).name@
                == "entities"@) ==> (decoded matches Ok(list) && list@ == records),
        !(exists|s: int|
            0 <= s < reading.sections@.len() && (#[trigger] reading.sections@[s]).name@
                == "entities"@) ==> records.len() == 0 && !options.require_entity_section,
{
    lemma_section_index(reading.sections@, "entities"@, 0);
}

proof fn lemma_section_index(sections: Seq<ReadingSection>, name: Seq<char>, i: int)
    requires
        0 <= i,
    ensures
        match section_index(sections, name, i) {
            Some(k) => i <= k < sections.len() && sections[k].name@ == name,
            None => forall|k: int| i <= k < sections.len() ==> (#[trigger] sections[k]).name@ != name,
        },
    decreases sections.len() - i,
{
    if i < sections.len() && sections[i].name@ != name {
        lemma_section_index(sections, name, i + 1);
    }
}

/// What is planned can be used: every record has a number, a kind and a label to show, and
/// no two are of the same entity; only hypotheses make claims, with support from zero to
/// one; and no record speaks of another reading.
pub proof fn unusable_records_are_refused(
    reading: ReadingId,
    records: Seq<PortableEntityRecord>,
    existing: Seq<EntityKey>,
    k: int,
)
    requires
        planned_records(reading, records, existing, records.len() as int) is Ok,
        0 <= k < records.len(),
    ensures
        records[k].local_id > 0 && is_token(records[k].kind@),
        shows_something(records[k].label@),
        forall|j: int|
            0 <= j < k ==> (#[trigger] records[j]).kind@ != records[k].kind@ || records[j].local_id
                != records[k].local_id,
        records[k].hypothesis matches Some(semantics) ==> {
            &&& records[k].role == PortableEntityRole::Hypothesis
            &&& 0 <= units(semantics.support_bits) <= vstd::arithmetic::power2::pow2(149)
            &&& (semantics.description matches Some(text) ==> shows_something(text@))
        },
        records[k].extent matches Some(extent) ==> forall|o: int|
            0 <= o < extent.objects@.len() ==> (
            #[trigger] extent.objects@[o] matches EntityRefDto::Reading(id) ==> id.reading
                == reading),
{
    let record = records[k];
    lemma_planned_at(reading, records, existing, records.len() as int, k);
    assert(shows_something(record.label@)) by {
        let text = record.label@;
        let i = choose|i: int| 0 <= i < text.len() && !is_white_space(#[trigger] text[i]);
        assert(!is_white_space(text[i]));
    }
    assert forall|j: int| 0 <= j < k implies (#[trigger] records[j]).kind@ != record.kind@
        || records[j].local_id != record.local_id by {
        assert(record_id(reading, records[j])@ != record_id(reading, record)@);
    }
    if let Some(semantics) = record.hypothesis {
        the_unit_interval_ends_at_one(semantics.support_bits);
        if let Some(description) = semantics.description {
            let text = description@;
            let i = choose|i: int| 0 <= i < text.len() && !is_white_space(#[trigger] text[i]);
            assert(!is_white_space(text[i]));
        }
    }
    if let Some(extent) = record.extent {
        let keys = reference_keys(extent.objects@);
        assert(imported_geometry(extent, reading) is Ok);
        assert(foreign_object(keys, reading, 0) is None);
        assert forall|o: int| 0 <= o < extent.objects@.len() implies (
        #[trigger] extent.objects@[o] matches EntityRefDto::Reading(id) ==> id.reading == reading) by {
            lemma_no_foreign(keys, reading, 0, o);
            assert(keys[o] == extent.objects@[o]@);
        }
    }
}

proof fn lemma_no_foreign(objects: Seq<EntityRefKey>, reading: ReadingId, i: int, o: int)
    requires
        0 <= i <= o < objects.len(),
        foreign_object(objects, reading, i) is None,
    ensures
        objects[o] matches EntityRefKey::Reading(id) ==> id.reading == reading,
    decreases o - i,
{
    if i < o {
        lemma_no_foreign(objects, reading, i + 1, o);
    }
}

/// Every section but that of the entities is kept as it is, in its place; and where such
/// sections are to be refused, there is none.
pub proof fn other_sections_are_kept(
    reading: ReadingFile,
    decoded: Result<Vec<PortableEntityRecord>, String>,
    local: Option<LocalSourceDescriptor>,
    existing: Seq<EntityKey>,
    options: ReadingImportOptions,
    plan: ReadingImportPlan,
)
    requires
        import_plan(reading, decoded, local, existing, options) == Ok::<PlanView, ImportFault>(
            plan@,
        ),
    ensures
        section_views(plan.preserved_sections@) == reading.sections@.filter(
            |s: ReadingSection| s.name@ != "entities"@,
        ).map_values(|s: ReadingSection| s@),
        plan.opaque_sections@.len() == plan.preserved_sections@.len(),
        options.unknown_sections == UnknownSectionPolicy::Refuse ==> plan.preserved_sections@.len()
            == 0,
{
    lemma_opaque(reading.sections@);
    ranked_is_an_ordering(opaque_names(reading.sections@));
    assert(plan@.preserved_sections.len() == plan.preserved_sections@.len());
    assert(plan@.opaque_sections.len() == plan.opaque_sections@.len());
}

proof fn lemma_opaque(sections: Seq<ReadingSection>)
    ensures
        opaque_sections(sections) == sections.filter(
            |s: ReadingSection| s.name@ != "entities"@,
        ).map_values(|s: ReadingSection| s@),
        opaque_names(sections).len() == opaque_sections(sections).len(),
    decreases sections.len(),
{
    reveal(Seq::filter);
    let pick = |s: ReadingSection| s.name@ != "entities"@;
    let turn = |s: ReadingSection| s@;
    if sections.len() == 0 {
        assert(sections.filter(pick).map_values(turn) =~= Seq::<SectionView>::empty());
    } else {
        lemma_opaque(sections.drop_last());
        let before = sections.drop_last().filter(pick);
        if pick(sections.last()) {
            assert(before.push(sections.last()).map_values(turn) =~= before.map_values(turn).push(
                turn(sections.last()),
            ));
        }
    }
}

// ----- merges -------------------------------------------------------------

/// Whether one entity stands for another: the same entity, with the same label, role,
/// question, extent and disposition.
pub open spec fn stands_for(taken: PlannedView, given: PlannedView) -> bool {
    &&& taken.id == given.id
    &&& taken.label == given.label
    &&& taken.role == given.role
    &&& taken.hypothesis is Some <==> given.hypothesis is Some
    &&& taken.hypothesis_group == given.hypothesis_group
    &&& taken.extent == given.extent
    &&& taken.disposition == given.disposition
}

/// Whether an entity of a list stands for another.
spec fn stood_for(list: Seq<PlannedView>, given: PlannedView) -> bool {
    exists|m: int| 0 <= m < list.len() && stands_for(#[trigger] list[m], given)
}

spec fn ids_differ(list: Seq<PlannedView>) -> bool {
    forall|a: int, b: int|
        0 <= a < b < list.len() ==> (#[trigger] list[a]).id != (#[trigger] list[b]).id
}

proof fn lemma_index_of_id(list: Seq<PlannedView>, id: EntityKey, i: int)
    requires
        0 <= i,
    ensures
        match view_index(list, id, i) {
            Some(k) => i <= k < list.len() && list[k].id == id,
            None => forall|k: int| i <= k < list.len() ==> (#[trigger] list[k]).id != id,
        },
    decreases list.len() - i,
{
    if i < list.len() && list[i].id != id {
        lemma_index_of_id(list, id, i + 1);
    }
}

proof fn lemma_absorbed_is_fair(acc: Seq<PlannedView>, entities: Seq<PlannedView>, j: int)
    requires
        0 <= j <= entities.len(),
        absorbed(acc, entities, j) is Ok,
    ensures
        forall|e: PlannedView|
            stood_for(acc, e) ==> #[trigger] stood_for(absorbed(acc, entities, j)->Ok_0, e),
        forall|k: int|
            0 <= k < j ==> stood_for(
                absorbed(acc, entities, j)->Ok_0,
                #[trigger] entities[k],
            ),
        forall|m: int|
            0 <= m < absorbed(acc, entities, j)->Ok_0.len() ==> acc.contains(
                #[trigger] absorbed(acc, entities, j)->Ok_0[m],
            ) || entities.contains(absorbed(acc, entities, j)->Ok_0[m]),
        ids_differ(acc) ==> ids_differ(absorbed(acc, entities, j)->Ok_0),
    decreases j,
{
    let out = absorbed(acc, entities, j)->Ok_0;
    if j == 0 {
        assert forall|m: int| 0 <= m < out.len() implies acc.contains(#[trigger] out[m]) by {
            assert(acc[m] == out[m]);
        }
    } else {
        lemma_absorbed_is_fair(acc, entities, j - 1);
        let done = absorbed(acc, entities, j - 1)->Ok_0;
        let entity = entities[j - 1];
        lemma_index_of_id(done, entity.id, 0);
        assert forall|e: PlannedView| stood_for(done, e) implies #[trigger] stood_for(out, e) by {
            let m = choose|m: int| 0 <= m < done.len() && stands_for(#[trigger] done[m], e);
            assert(stands_for(out[m], e));
        }
        assert(stood_for(out, entity)) by {
            match view_index(done, entity.id, 0) {
                Some(k) => {
                    assert(stands_for(out[k], entity));
                },
                None => {
                    assert(stands_for(out[out.len() - 1], entity));
                },
            }
        }
        assert forall|k: int| 0 <= k < j implies stood_for(out, #[trigger] entities[k]) by {
            if k < j - 1 {
                assert(stood_for(done, entities[k]));
            }
        }
        assert(entities.contains(entity));
        assert forall|m: int| 0 <= m < out.len() implies acc.contains(#[trigger] out[m])
            || entities.contains(out[m]) by {
            if m < done.len() {
                assert(out[m] == done[m]);
            }
        }
    }
}

proof fn lemma_merge_is_fair(plans: Seq<PlanView>, i: int)
    requires
        0 <= i <= plans.len(),
        merged_entities(plans, i) is Ok,
    ensures
        forall|p: int, k: int|
            0 <= p < i && 0 <= k < plans[p].entities.len() ==> stood_for(
                merged_entities(plans, i)->Ok_0,
                #[trigger] plans[p].entities[k],
            ),
        forall|m: int|
            0 <= m < merged_entities(plans, i)->Ok_0.len() ==> exists|p: int|
                0 <= p < i && (#[trigger] plans[p]).entities.contains(
                    #[trigger] merged_entities(plans, i)->Ok_0[m],
                ),
        ids_differ(merged_entities(plans, i)->Ok_0),
        forall|j: int, k: int|
            0 <= j < k < i ==> (#[trigger] plans[j]).reading_id != (#[trigger] plans[k]).reading_id
                || plans[j].reading_revision != plans[k].reading_revision,
    decreases i,
{
    if i > 0 {
        lemma_merge_is_fair(plans, i - 1);
        let done = merged_entities(plans, i - 1)->Ok_0;
        let last = plans[i - 1].entities;
        let out = merged_entities(plans, i)->Ok_0;
        lemma_absorbed_is_fair(done, last, last.len() as int);
        assert forall|p: int, k: int|
            0 <= p < i && 0 <= k < plans[p].entities.len() implies stood_for(
            out,
            #[trigger] plans[p].entities[k],
        ) by {
            if p < i - 1 {
                assert(stood_for(done, plans[p].entities[k]));
            } else {
                assert(last[k] == plans[p].entities[k]);
            }
        }
        assert forall|m: int| 0 <= m < out.len() implies exists|p: int|
            0 <= p < i && (#[trigger] plans[p]).entities.contains(#[trigger] out[m]) by {
            if last.contains(out[m]) {
                assert(plans[i - 1].entities.contains(out[m]));
            } else {
                assert(done.contains(out[m]));
                let d = choose|d: int| 0 <= d < done.len() && done[d] == out[m];
                let p = choose|p: int|
                    0 <= p < i - 1 && (#[trigger] plans[p]).entities.contains(done[d]);
                assert(plans[p].entities.contains(out[m]));
            }
        }
    }
}

proof fn lemma_merged_list(
    plans: Seq<ReadingImportPlan>,
    merge: ReadingMergePlan,
) -> (list: Seq<PlannedView>)
    requires
        merged(plan_views(plans)) == Ok::<MergeView, MergeFault>(merge@),
    ensures
        merged_entities(plan_views(plans), plans.len() as int) == Ok::<
            Seq<PlannedView>,
            MergeFault,
        >(list),
        merge.entities@.len() == list.len(),
        forall|x: PlannedView|
            #[trigger] list.contains(x) <==> exists|m: int|
                0 <= m < merge.entities@.len() && (#[trigger] merge.entities@[m])@ == x,
        group_list(merge) == groups_of(list),
{
    let list = merged_entities(plan_views(plans), plans.len() as int)->Ok_0;
    lemma_ranked_members(list);
    let order = ranked(list);
    assert(merge@.entities == order);
    assert forall|m: int| 0 <= m < merge.entities@.len() implies (#[trigger] merge.entities@[m])@
        == order[m] by {
        assert(merge@.entities[m] == merge.entities@[m]@);
    }
    assert forall|x: PlannedView| #[trigger] list.contains(x) <==> exists|m: int|
        0 <= m < merge.entities@.len() && (#[trigger] merge.entities@[m])@ == x by {
        assert(order.contains(x) <==> list.contains(x));
        if order.contains(x) {
            let m = choose|m: int| 0 <= m < order.len() && order[m] == x;
            assert(merge.entities@[m]@ == x);
        }
        if exists|m: int|
            0 <= m < merge.entities@.len() && (#[trigger] merge.entities@[m])@ == x {
            let m = choose|m: int|
                0 <= m < merge.entities@.len() && (#[trigger] merge.entities@[m])@ == x;
            assert(order[m] == x);
        }
    }
    list
}

spec fn group_list(merge: ReadingMergePlan) -> Seq<GroupView> {
    merge@.groups
}

/// Whether one of the entities stands for a given one.
pub open spec fn held_by(entities: Seq<PlannedReadingEntity>, given: PlannedView) -> bool {
    exists|m: int| 0 <= m < entities.len() && stands_for((#[trigger] entities[m])@, given)
}

/// Every entity of every plan is among the merged ones, none of them is made up, and each
/// is there once.
pub proof fn merges_hold_every_entity_once(
    plans: Seq<ReadingImportPlan>,
    merge: ReadingMergePlan,
)
    requires
        merged(plan_views(plans)) == Ok::<MergeView, MergeFault>(merge@),
    ensures
        forall|p: int, k: int|
            0 <= p < plans.len() && 0 <= k < plans[p].entities@.len() ==> held_by(
                merge.entities@,
                (#[trigger] plans[p].entities@[k])@,
            ),
        forall|m: int|
            0 <= m < merge.entities@.len() ==> exists|p: int, k: int|
                0 <= p < plans.len() && 0 <= k < plans[p].entities@.len() && (
                #[trigger] merge.entities@[m])@ == (#[trigger] plans[p].entities@[k])@,
        forall|a: int, b: int|
            0 <= a < merge.entities@.len() && 0 <= b < merge.entities@.len() && (
            #[trigger] merge.entities@[a]).id@ == (#[trigger] merge.entities@[b]).id@
                ==> merge.entities@[a]@ == merge.entities@[b]@,
{
    let views = plan_views(plans);
    let list = lemma_merged_list(plans, merge);
    lemma_merge_is_fair(views, plans.len() as int);
    assert forall|p: int, k: int|
        0 <= p < plans.len() && 0 <= k < plans[p].entities@.len() implies held_by(
        merge.entities@,
        (#[trigger] plans[p].entities@[k])@,
    ) by {
        assert(views[p] == plans[p]@);
        assert(views[p].entities[k] == plans[p].entities@[k]@);
        assert(stood_for(list, views[p].entities[k]));
        let d = choose|d: int|
            0 <= d < list.len() && stands_for(#[trigger] list[d], views[p].entities[k]);
        assert(list.contains(list[d]));
        let m = choose|m: int|
            0 <= m < merge.entities@.len() && (#[trigger] merge.entities@[m])@ == list[d];
        assert(stands_for(merge.entities@[m]@, plans[p].entities@[k]@));
    }
    assert forall|m: int| 0 <= m < merge.entities@.len() implies exists|p: int, k: int|
        0 <= p < plans.len() && 0 <= k < plans[p].entities@.len() && (
        #[trigger] merge.entities@[m])@ == (#[trigger] plans[p].entities@[k])@ by {
        let x = merge.entities@[m]@;
        assert(list.contains(x));
        let d = choose|d: int| 0 <= d < list.len() && list[d] == x;
        let p = choose|p: int|
            0 <= p < plans.len() && (#[trigger] views[p]).entities.contains(list[d]);
        let k = choose|k: int| 0 <= k < views[p].entities.len() && views[p].entities[k] == x;
        assert(views[p] == plans[p]@);
        assert(views[p].entities[k] == plans[p].entities@[k]@);
    }
    assert forall|a: int, b: int|
        0 <= a < merge.entities@.len() && 0 <= b < merge.entities@.len() && (
        #[trigger] merge.entities@[a]).id@ == (#[trigger] merge.entities@[b]).id@ implies merge.entities@[a]@
        == merge.entities@[b]@ by {
        let x = merge.entities@[a]@;
        let y = merge.entities@[b]@;
        assert(list.contains(x) && list.contains(y));
        let c = choose|c: int| 0 <= c < list.len() && list[c] == x;
        let d = choose|d: int| 0 <= d < list.len() && list[d] == y;
        assert(list[c].id == list[d].id);
    }
}

/// Whether an entity is a hypothesis on a question: the question of its group, or one that
/// only it asks.
pub open spec fn answers_question(entity: PlannedView, key: Seq<char>) -> bool {
    &&& entity.role == PortableEntityRole::Hypothesis
    &&& match entity.hypothesis_group {
        Some(group) => key == group,
        None => key == "ungrouped:"@ + hex_text(entity.id.reading@) + ":"@ + entity.id.kind
            + ":"@ + decimal(entity.id.local_id as nat),
    }
}

proof fn lemma_answers(list: Seq<PlannedView>, key: Seq<char>, i: int)
    requires
        0 <= i <= list.len(),
    ensures
        forall|id: EntityKey|
            #[trigger] answers(list, key, i).contains(id) <==> exists|k: int|
                0 <= k < i && (#[trigger] list[k]).id == id && answers_question(list[k], key),
    decreases i,
{
    if i > 0 {
        lemma_answers(list, key, i - 1);
        let before = answers(list, key, i - 1);
        let after = answers(list, key, i);
        assert forall|id: EntityKey| #[trigger] after.contains(id) <==> exists|k: int|
            0 <= k < i && (#[trigger] list[k]).id == id && answers_question(list[k], key) by {
            if after.contains(id) {
                let a = choose|a: int| 0 <= a < after.len() && after[a] == id;
                if a < before.len() {
                    assert(before[a] == id);
                    assert(before.contains(id));
                } else {
                    assert(list[i - 1].id == id && answers_question(list[i - 1], key));
                }
            }
            if exists|k: int|
                0 <= k < i && (#[trigger] list[k]).id == id && answers_question(list[k], key) {
                let k = choose|k: int|
                    0 <= k < i && (#[trigger] list[k]).id == id && answers_question(list[k], key);
                if k < i - 1 {
                    assert(before.contains(id));
                    let a = choose|a: int| 0 <= a < before.len() && before[a] == id;
                    assert(after[a] == id);
                } else {
                    assert(after[after.len() - 1] == id);
                }
            }
        }
    }
}

proof fn lemma_questions(list: Seq<PlannedView>, i: int)
    requires
        0 <= i <= list.len(),
    ensures
        questions(list, i).no_duplicates(),
        forall|key: Seq<char>|
            #[trigger] questions(list, i).contains(key) <==> exists|k: int|
                0 <= k < i && answers_question(#[trigger] list[k], key),
    decreases i,
{
    if i > 0 {
        lemma_questions(list, i - 1);
        let before = questions(list, i - 1);
        let after = questions(list, i);
        let entity = list[i - 1];
        assert forall|key: Seq<char>| #[trigger] after.contains(key) <==> exists|k: int|
            0 <= k < i && answers_question(#[trigger] list[k], key) by {
            if after.contains(key) {
                let a = choose|a: int| 0 <= a < after.len() && after[a] == key;
                if a < before.len() {
                    assert(before[a] == key);
                    assert(before.contains(key));
                } else {
                    assert(answers_question(entity, key));
                }
            }
            if exists|k: int| 0 <= k < i && answers_question(#[trigger] list[k], key) {
                let k = choose|k: int| 0 <= k < i && answers_question(#[trigger] list[k], key);
                if k < i - 1 {
                    assert(before.contains(key));
                    let a = choose|a: int| 0 <= a < before.len() && before[a] == key;
                    assert(after[a] == key);
                } else if !before.contains(key) {
                    assert(after[after.len() - 1] == key);
                } else {
                    let a = choose|a: int| 0 <= a < before.len() && before[a] == key;
                    assert(after[a] == key);
                }
            }
        }
    }
}

/// The alternatives of a group are exactly the hypotheses on its question, and every
/// question that a hypothesis answers has exactly one group.
pub proof fn groups_hold_the_hypotheses_on_their_question(
    plans: Seq<ReadingImportPlan>,
    merge: ReadingMergePlan,
)
    requires
        merged(plan_views(plans)) == Ok::<MergeView, MergeFault>(merge@),
    ensures
        forall|g: int, id: EntityKey|
            0 <= g < merge.hypothesis_groups@.len() ==> (
            #[trigger] merge.hypothesis_groups@[g]@.alternatives.contains(id) <==> exists|m: int|
                0 <= m < merge.entities@.len() && (#[trigger] merge.entities@[m]).id@ == id
                    && answers_question(merge.entities@[m]@, merge.hypothesis_groups@[g].key@)),
        forall|m: int|
            0 <= m < merge.entities@.len() && (#[trigger] merge.entities@[m]).role
                == PortableEntityRole::Hypothesis ==> exists|g: int|
                0 <= g < merge.hypothesis_groups@.len() && answers_question(
                    merge.entities@[m]@,
                    (#[trigger] merge.hypothesis_groups@[g]).key@,
                ),
        forall|g: int, h: int|
            0 <= g < h < merge.hypothesis_groups@.len() ==> (
            #[trigger] merge.hypothesis_groups@[g]).key@ != (
            #[trigger] merge.hypothesis_groups@[h]).key@,
{
    let list = lemma_merged_list(plans, merge);
    let n = list.len() as int;
    let asked = questions(list, n);
    lemma_questions(list, n);
    lemma_ranked_members(asked);
    let order = ranked(asked);
    assert(merge@.groups == groups_of(list));
    assert(merge.hypothesis_groups@.len() == order.len()) by {
        assert(merge@.groups.len() == merge.hypothesis_groups@.len());
    }
    assert forall|g: int| 0 <= g < order.len() implies (#[trigger] merge.hypothesis_groups@[g])@
        == group_of(list, order[g]) by {
        assert(merge@.groups[g] == merge.hypothesis_groups@[g]@);
    }
    assert forall|g: int, id: EntityKey| 0 <= g < merge.hypothesis_groups@.len() implies (
    #[trigger] merge.hypothesis_groups@[g]@.alternatives.contains(id) <==> exists|m: int|
        0 <= m < merge.entities@.len() && (#[trigger] merge.entities@[m]).id@ == id
            && answers_question(merge.entities@[m]@, merge.hypothesis_groups@[g].key@)) by {
        let key = order[g];
        let found = answers(list, key, n);
        assert(merge.hypothesis_groups@[g]@ == group_of(list, key));
        assert(merge.hypothesis_groups@[g].key@ == key);
        lemma_answers(list, key, n);
        lemma_ranked_members(found);
        assert(ranked(found).contains(id) <==> found.contains(id));
        if found.contains(id) {
            let k = choose|k: int|
                0 <= k < n && (#[trigger] list[k]).id == id && answers_question(list[k], key);
            assert(list.contains(list[k]));
            let m = choose|m: int|
                0 <= m < merge.entities@.len() && (#[trigger] merge.entities@[m])@ == list[k];
            assert(merge.entities@[m].id@ == id);
        }
        if exists|m: int|
            0 <= m < merge.entities@.len() && (#[trigger] merge.entities@[m]).id@ == id
                && answers_question(merge.entities@[m]@, key) {
            let m = choose|m: int|
                0 <= m < merge.entities@.len() && (#[trigger] merge.entities@[m]).id@ == id
                    && answers_question(merge.entities@[m]@, key);
            assert(list.contains(merge.entities@[m]@));
            let k = choose|k: int| 0 <= k < n && list[k] == merge.entities@[m]@;
            assert(list[k].id == id);
        }
    }
    assert forall|m: int|
        0 <= m < merge.entities@.len() && (#[trigger] merge.entities@[m]).role
            == PortableEntityRole::Hypothesis implies exists|g: int|
        0 <= g < merge.hypothesis_groups@.len() && answers_question(
            merge.entities@[m]@,
            (#[trigger] merge.hypothesis_groups@[g]).key@,
        ) by {
        let x = merge.entities@[m]@;
        assert(list.contains(x));
        let k = choose|k: int| 0 <= k < n && list[k] == x;
        let key = question_of(x);
        assert(answers_question(list[k], key));
        assert(asked.contains(key));
        assert(order.contains(key));
        let g = choose|g: int| 0 <= g < order.len() && order[g] == key;
        assert(merge.hypothesis_groups@[g]@ == group_of(list, key));
        assert(merge.hypothesis_groups@[g].key@ == key);
    }
    assert forall|g: int, h: int| 0 <= g < h < merge.hypothesis_groups@.len() implies (
    #[trigger] merge.hypothesis_groups@[g]).key@ != (#[trigger] merge.hypothesis_groups@[h]).key@ by {
        assert(merge.hypothesis_groups@[g]@ == group_of(list, order[g]));
        assert(merge.hypothesis_groups@[h]@ == group_of(list, order[h]));
    }
}

/// Every plan is one of the merged readings, with its revision, its verification and the
/// sections that it kept.
pub proof fn merges_name_every_reading(plans: Seq<ReadingImportPlan>, merge: ReadingMergePlan)
    requires
        merged(plan_views(plans)) == Ok::<MergeView, MergeFault>(merge@),
    ensures
        merge.readings@.len() == plans.len(),
        merge.preserved_sections@.len() == plans.len(),
        forall|p: int|
            #![trigger plans[p]]
            0 <= p < plans.len() ==> exists|m: int|
                0 <= m < merge.readings@.len() && (#[trigger] merge.readings@[m]).reading_id
                    == plans[p].reading_id && merge.readings@[m].revision
                    == plans[p].reading_revision && merge.readings@[m].verification
                    == plans[p].verification,
        forall|p: int|
            #![trigger plans[p]]
            0 <= p < plans.len() ==> exists|m: int|
                0 <= m < merge.preserved_sections@.len() && (
                #[trigger] merge.preserved_sections@[m]).reading_id == plans[p].reading_id
                    && merge.preserved_sections@[m].revision == plans[p].reading_revision
                    && section_views(merge.preserved_sections@[m].sections@) == section_views(
                    plans[p].preserved_sections@,
                ),
{
    let views = plan_views(plans);
    let versions = views.map_values(|p: PlanView| version_of(p));
    let kept = views.map_values(|p: PlanView| preserved_of(p));
    lemma_ranked_members(versions);
    lemma_ranked_members(kept);
    assert(merge@.readings == ranked(versions));
    assert(merge@.preserved == ranked(kept));
    assert(merge@.preserved.len() == merge.preserved_sections@.len());
    assert forall|p: int| #![trigger plans[p]] 0 <= p < plans.len() implies exists|m: int|
        0 <= m < merge.readings@.len() && (#[trigger] merge.readings@[m]).reading_id
            == plans[p].reading_id && merge.readings@[m].revision == plans[p].reading_revision
            && merge.readings@[m].verification == plans[p].verification by {
        assert(versions[p] == version_of(plans[p]@));
        assert(versions.contains(versions[p]));
        assert(ranked(versions).contains(versions[p]));
        let m = choose|m: int|
            0 <= m < ranked(versions).len() && ranked(versions)[m] == versions[p];
        assert(merge.readings@[m].reading_id == plans[p].reading_id);
    }
    assert forall|p: int| #![trigger plans[p]] 0 <= p < plans.len() implies exists|m: int|
        0 <= m < merge.preserved_sections@.len() && (
        #[trigger] merge.preserved_sections@[m]).reading_id == plans[p].reading_id
            && merge.preserved_sections@[m].revision == plans[p].reading_revision && section_views(
            merge.preserved_sections@[m].sections@,
        ) == section_views(plans[p].preserved_sections@) by {
        assert(kept[p] == preserved_of(plans[p]@));
        assert(kept.contains(kept[p]));
        assert(ranked(kept).contains(kept[p]));
        let m = choose|m: int| 0 <= m < ranked(kept).len() && ranked(kept)[m] == kept[p];
        assert(merge@.preserved[m] == merge.preserved_sections@[m]@);
        assert(merge.preserved_sections@[m].reading_id == plans[p].reading_id);
    }
}

proof fn lemma_absorb_fault(acc: Seq<PlannedView>, entities: Seq<PlannedView>, j: int) -> (r: (
    PlannedView,
    int,
))
    requires
        0 <= j <= entities.len(),
        absorbed(acc, entities, j) is Err,
    ensures
        0 <= r.1 < j,
        acc.contains(r.0) || entities.contains(r.0),
        absorbed(acc, entities, j)->Err_0 == MergeFault::ConflictingQualifiedEntity(r.0.id),
        r.0.id == entities[r.1].id,
        !planned_same(r.0, entities[r.1]),
    decreases j,
{
    if absorbed(acc, entities, j - 1) is Err {
        lemma_absorb_fault(acc, entities, j - 1)
    } else {
        let done = absorbed(acc, entities, j - 1)->Ok_0;
        lemma_absorbed_is_fair(acc, entities, j - 1);
        lemma_index_of_id(done, entities[j - 1].id, 0);
        let k = view_index(done, entities[j - 1].id, 0)->0;
        (done[k], j - 1)
    }
}

/// Why readings cannot be merged: two plans are of one version, or two entities of one
/// identity are not the same.
pub open spec fn merge_fault_holds(plans: Seq<PlanView>, fault: MergeFault) -> bool {
    match fault {
        MergeFault::DuplicateReadingVersion { reading, revision } => exists|i: int, j: int|
            0 <= i < j < plans.len() && (#[trigger] plans[i]).reading_id == reading && (
            #[trigger] plans[j]).reading_id == reading && plans[i].reading_revision == revision
                && plans[j].reading_revision == revision,
        MergeFault::ConflictingQualifiedEntity(id) => exists|a: PlannedView, b: PlannedView|
            #[trigger] planned_in(plans, a) && #[trigger] planned_in(plans, b) && a.id == id
                && b.id == id && !planned_same(a, b),
    }
}

/// Whether an entity is one of those of the plans.
pub open spec fn planned_in(plans: Seq<PlanView>, entity: PlannedView) -> bool {
    exists|p: int| 0 <= p < plans.len() && (#[trigger] plans[p]).entities.contains(entity)
}

proof fn lemma_merge_fault(plans: Seq<PlanView>, i: int)
    requires
        0 <= i <= plans.len(),
        merged_entities(plans, i) is Err,
    ensures
        merge_fault_holds(plans, merged_entities(plans, i)->Err_0),
    decreases i,
{
    if merged_entities(plans, i - 1) is Err {
        lemma_merge_fault(plans, i - 1);
    } else if repeats_version(plans, i - 1) {
        let j = choose|j: int|
            0 <= j < i - 1 && (#[trigger] plans[j]).reading_id == plans[i - 1].reading_id
                && plans[j].reading_revision == plans[i - 1].reading_revision;
        assert(plans[j].reading_id == plans[i - 1].reading_id);
    } else {
        let done = merged_entities(plans, i - 1)->Ok_0;
        let last = plans[i - 1].entities;
        let (a, k) = lemma_absorb_fault(done, last, last.len() as int);
        lemma_merge_is_fair(plans, i - 1);
        if done.contains(a) {
            let d = choose|d: int| 0 <= d < done.len() && done[d] == a;
            let p = choose|p: int|
                0 <= p < i - 1 && (#[trigger] plans[p]).entities.contains(done[d]);
            assert(planned_in(plans, a));
        } else {
            assert(plans[i - 1].entities.contains(a));
            assert(planned_in(plans, a));
        }
        assert(plans[i - 1].entities.contains(last[k]));
        assert(planned_in(plans, last[k]));
    }
}

/// A merge is refused only for a version that comes twice or an entity on which the
/// readings disagree; and readings of one version are never merged.
pub proof fn merges_are_refused_for_a_reason(plans: Seq<PlanView>)
    ensures
        merged(plans) matches Err(fault) ==> merge_fault_holds(plans, fault),
        merged(plans) is Ok ==> forall|j: int, k: int|
            0 <= j < k < plans.len() ==> (#[trigger] plans[j]).reading_id != (
            #[trigger] plans[k]).reading_id || plans[j].reading_revision
                != plans[k].reading_revision,
{
    if merged_entities(plans, plans.len() as int) is Err {
        lemma_merge_fault(plans, plans.len() as int);
    } else {
        lemma_merge_is_fair(plans, plans.len() as int);
    }
}

} // verus!
