//! What leaves with a reading and what it is heard from: exported records say what they
//! said, and a source is resolved to exact copies only.

use vstd::prelude::*;
use vstd::string::*;

use crate::diff_laws::lemma_ranked_members;
use crate::json::member_views;
use crate::navigation::{units, the_unit_interval_ends_at_one};
use crate::rank::{is_ranked, rank_lt, ranked, ranked_is_an_ordering, text_rank, HasRank};
use crate::reading::{
    LocalSourceDescriptor, ReadingFile, ReadingId, RefusalView, VerificationTier,
};
use crate::reading_export::{
    assembled, exported_entities, exported_record, exported_records, outside_source,
    record_views, ReadingExportRequest, RecordView, WrittenEntities,
};
use crate::reading_import::{record_id, PortableEntityRecord, PortableEntityRole};
use crate::reading_laws::{is_qualified, lemma_is_qualified, resists_collisions, shows_something};
use crate::reading_source::{
    matching, material_fault, materials_fault, refused, resolved, MaterialView,
    ReadingSourceResolution, RejectedView, ResolutionView,
};
use crate::reading_workflow::WorkflowFault;
use crate::text::{is_blank, is_token, is_white_space, optional_text};

verus! {

proof fn lemma_shows(text: Seq<char>)
    ensures
        shows_something(text) <==> !is_blank(text),
{
    if !is_blank(text) {
        let i = choose|i: int| 0 <= i < text.len() && !is_white_space(#[trigger] text[i]);
        assert(!is_white_space(text[i]));
    }
}

// ----- sources ------------------------------------------------------------

/// Whether a local copy is exactly what a reading speaks of: of the same rate, channels and
/// frames, with a digest that the reading names and that resists collisions.
pub open spec fn is_exact_copy(reading: ReadingFile, source: LocalSourceDescriptor) -> bool {
    &&& reading.source.sample_rate == source.sample_rate
    &&& reading.source.channels == source.channels
    &&& reading.source.frame_count == source.frame_count
    &&& resists_collisions(source.digest)
    &&& exists|i: int|
        0 <= i < reading.source.fingerprints@.len() && #[trigger] reading.source.fingerprints@[i]
            == source.digest
}

/// What a refused copy is refused for is so, and a format that differs is named before a
/// digest that does.
pub proof fn refusals_say_what_differs(reading: ReadingFile, source: LocalSourceDescriptor)
    ensures
        match reading.source_check(Some(source)) {
            Ok(tier) => is_exact_copy(reading, source) && tier == VerificationTier::SourceMatched,
            Err(refusal) => !is_exact_copy(reading, source) && match refusal {
                RefusalView::SampleRate { expected, actual } => expected
                    == reading.source.sample_rate && actual == source.sample_rate && expected
                    != actual,
                RefusalView::Channels { expected, actual } => expected == reading.source.channels
                    && actual == source.channels && expected != actual
                    && reading.source.sample_rate == source.sample_rate,
                RefusalView::FrameCount { expected, actual, delta } => expected
                    == reading.source.frame_count && actual == source.frame_count && expected
                    != actual && expected + delta == actual && reading.source.channels
                    == source.channels,
                RefusalView::WeakLocalFingerprint => !resists_collisions(source.digest)
                    && reading.source.frame_count == source.frame_count,
                RefusalView::FingerprintMismatch { expected, actual } => expected
                    == reading.source.fingerprints@ && actual == source.digest && (forall|i: int|
                    0 <= i < expected.len() ==> #[trigger] expected[i] != actual)
                    && resists_collisions(source.digest),
                _ => false,
            },
        },
{
}

proof fn lemma_matching(reading: ReadingFile, materials: Seq<MaterialView>, i: int)
    requires
        0 <= i <= materials.len(),
    ensures
        matching(reading, materials, i).len() + refused(reading, materials, i).len() == i,
        forall|m: MaterialView|
            #[trigger] matching(reading, materials, i).contains(m) <==> exists|k: int|
                0 <= k < i && #[trigger] materials[k] == m && is_exact_copy(reading, m.source),
        forall|r: RejectedView|
            #[trigger] refused(reading, materials, i).contains(r) ==> exists|k: int|
                0 <= k < i && (#[trigger] materials[k]).id == r.id && materials[k].label == r.label
                    && reading.source_check(Some(materials[k].source)) == Err::<
                    VerificationTier,
                    RefusalView,
                >(r.reason),
    decreases i,
{
    if i > 0 {
        lemma_matching(reading, materials, i - 1);
        let last = materials[i - 1];
        refusals_say_what_differs(reading, last.source);
        let before = matching(reading, materials, i - 1);
        let after = matching(reading, materials, i);
        assert forall|m: MaterialView| #[trigger] after.contains(m) <==> exists|k: int|
            0 <= k < i && #[trigger] materials[k] == m && is_exact_copy(reading, m.source) by {
            if after.contains(m) {
                let a = choose|a: int| 0 <= a < after.len() && after[a] == m;
                if a < before.len() {
                    assert(before[a] == m);
                    assert(before.contains(m));
                } else {
                    assert(materials[i - 1] == m);
                }
            }
            if exists|k: int|
                0 <= k < i && #[trigger] materials[k] == m && is_exact_copy(reading, m.source) {
                let k = choose|k: int|
                    0 <= k < i && #[trigger] materials[k] == m && is_exact_copy(reading, m.source);
                if k < i - 1 {
                    assert(before.contains(m));
                    let a = choose|a: int| 0 <= a < before.len() && before[a] == m;
                    assert(after[a] == m);
                } else {
                    assert(after[after.len() - 1] == m);
                }
            }
        }
        let kept = refused(reading, materials, i - 1);
        let list = refused(reading, materials, i);
        assert forall|r: RejectedView| #[trigger] list.contains(r) implies exists|k: int|
            0 <= k < i && (#[trigger] materials[k]).id == r.id && materials[k].label == r.label
                && reading.source_check(Some(materials[k].source)) == Err::<
                VerificationTier,
                RefusalView,
            >(r.reason) by {
            let a = choose|a: int| 0 <= a < list.len() && list[a] == r;
            if a < kept.len() {
                assert(kept[a] == r);
                assert(kept.contains(r));
            } else {
                assert(materials[i - 1].id == r.id);
            }
        }
    } else {
        assert(matching(reading, materials, i) =~= Seq::<MaterialView>::empty());
        assert(refused(reading, materials, i) =~= Seq::<RejectedView>::empty());
    }
}

proof fn lemma_fault_of_copies(materials: Seq<MaterialView>, i: int)
    ensures
        materials_fault(materials, i) matches Some(fault) ==> !(fault is SourceCandidatesRefused),
    decreases materials.len() - i,
{
    if 0 <= i < materials.len() {
        lemma_fault_of_copies(materials, i + 1);
    }
}

/// Whether refused copies are local ones that do not fit, each with its reason.
pub open spec fn are_misfits(
    reading: ReadingFile,
    materials: Seq<MaterialView>,
    rejected: Seq<RejectedView>,
) -> bool {
    forall|r: int|
        0 <= r < rejected.len() ==> exists|k: int|
            0 <= k < materials.len() && (#[trigger] materials[k]).id == (#[trigger] rejected[r]).id
                && materials[k].label == rejected[r].label && !is_exact_copy(
                reading,
                materials[k].source,
            ) && reading.source_check(Some(materials[k].source)) == Err::<
                VerificationTier,
                RefusalView,
            >(rejected[r].reason)
}

/// A source is resolved to exact copies only, and to all of them: the first by identity is
/// primary. A source without any copy is missing; copies that all fail to fit stop the
/// import.
pub proof fn sources_resolve_to_exact_copies(
    reading: ReadingFile,
    materials: Seq<MaterialView>,
)
    ensures
        match resolved(reading, materials) {
            Ok(ResolutionView::Matched { primary, equivalents, rejected }) => {
                &&& materials.contains(primary) && is_exact_copy(reading, primary.source)
                &&& forall|e: int|
                    0 <= e < equivalents.len() ==> materials.contains(#[trigger] equivalents[e])
                        && is_exact_copy(reading, equivalents[e].source) && !rank_lt(
                        text_rank(equivalents[e].id),
                        text_rank(primary.id),
                    )
                &&& forall|k: int|
                    0 <= k < materials.len() && is_exact_copy(
                        reading,
                        (#[trigger] materials[k]).source,
                    ) ==> materials[k] == primary || equivalents.contains(materials[k])
                &&& 1 + equivalents.len() + rejected.len() == materials.len()
                &&& are_misfits(reading, materials, rejected)
            },
            Ok(ResolutionView::Missing(missing)) => {
                &&& materials.len() == 0 && missing.rejected.len() == 0
                &&& missing.reading_id == reading.reading_id
                &&& missing.expected_fingerprints == reading.source.fingerprints@
                &&& missing.sample_rate == reading.source.sample_rate
                &&& missing.channels == reading.source.channels
                &&& missing.frame_count == reading.source.frame_count
                &&& missing.declared_title == optional_text(reading.source.declared_title)
            },
            Err(WorkflowFault::SourceCandidatesRefused(missing)) => {
                &&& materials.len() > 0 && missing.rejected.len() == materials.len()
                &&& are_misfits(reading, materials, missing.rejected)
                &&& missing.reading_id == reading.reading_id
                &&& missing.expected_fingerprints == reading.source.fingerprints@
                &&& missing.frame_count == reading.source.frame_count
            },
            Err(_) => reading.fault() is Some || materials_fault(materials, 0) is Some,
        },
{
    let n = materials.len() as int;
    let fits = matching(reading, materials, n);
    let misfits = refused(reading, materials, n);
    lemma_matching(reading, materials, n);
    lemma_fault_of_copies(materials, 0);
    lemma_ranked_members(fits);
    lemma_ranked_members(misfits);
    ranked_is_an_ordering(fits);
    let matched = ranked(fits);
    let rejected = ranked(misfits);
    assert(are_misfits(reading, materials, rejected)) by {
        assert forall|r: int| 0 <= r < rejected.len() implies exists|k: int|
            0 <= k < materials.len() && (#[trigger] materials[k]).id == (
            #[trigger] rejected[r]).id && materials[k].label == rejected[r].label
                && !is_exact_copy(reading, materials[k].source) && reading.source_check(
                Some(materials[k].source),
            ) == Err::<VerificationTier, RefusalView>(rejected[r].reason) by {
            assert(rejected.contains(rejected[r]));
            assert(misfits.contains(rejected[r]));
            let k = choose|k: int|
                0 <= k < n && (#[trigger] materials[k]).id == rejected[r].id && materials[k].label
                    == rejected[r].label && reading.source_check(Some(materials[k].source))
                    == Err::<VerificationTier, RefusalView>(rejected[r].reason);
            refusals_say_what_differs(reading, materials[k].source);
        }
    }
    if reading.fault() is None && materials_fault(materials, 0) is None && matched.len() > 0 {
        let primary = matched[0];
        let equivalents = matched.drop_first();
        assert(matched.contains(primary));
        assert(fits.contains(primary));
        let first = choose|k: int|
            0 <= k < n && #[trigger] materials[k] == primary && is_exact_copy(
                reading,
                primary.source,
            );
        assert(materials[first] == primary);
        assert(materials.contains(primary));
        assert forall|e: int| 0 <= e < equivalents.len() implies materials.contains(
            #[trigger] equivalents[e],
        ) && is_exact_copy(reading, equivalents[e].source) && !rank_lt(
            text_rank(equivalents[e].id),
            text_rank(primary.id),
        ) by {
            assert(equivalents[e] == matched[e + 1]);
            assert(matched.contains(matched[e + 1]));
            assert(fits.contains(equivalents[e]));
            let k = choose|k: int|
                0 <= k < n && #[trigger] materials[k] == equivalents[e] && is_exact_copy(
                    reading,
                    equivalents[e].source,
                );
            assert(materials[k] == equivalents[e]);
            assert(!rank_lt(matched[e + 1].rank(), matched[0].rank()));
        }
        assert forall|k: int|
            0 <= k < n && is_exact_copy(reading, (#[trigger] materials[k]).source) implies materials[k]
            == primary || equivalents.contains(materials[k]) by {
            assert(fits.contains(materials[k]));
            assert(matched.contains(materials[k]));
            let m = choose|m: int| 0 <= m < matched.len() && matched[m] == materials[k];
            if m > 0 {
                assert(equivalents[m - 1] == materials[k]);
            }
        }
        assert(resolved(reading, materials) == Ok::<ResolutionView, WorkflowFault>(
            ResolutionView::Matched { primary, equivalents, rejected },
        ));
        assert(1 + equivalents.len() + rejected.len() == materials.len());
    }
}

/// Local copies are usable exactly if each has an identity and a label to show, a digest
/// that resists collisions and a format, and no identity comes twice.
pub proof fn usable_copies_are_complete(materials: Seq<MaterialView>, i: int)
    requires
        0 <= i <= materials.len(),
    ensures
        materials_fault(materials, i) is None <==> (forall|k: int|
            i <= k < materials.len() ==> shows_something((#[trigger] materials[k]).id)
                && shows_something(materials[k].label) && resists_collisions(
                materials[k].source.digest,
            ) && materials[k].source.sample_rate > 0 && materials[k].source.channels > 0
                && materials[k].source.frame_count > 0) && (forall|j: int, k: int|
            0 <= j < k && i <= k < materials.len() ==> (#[trigger] materials[j]).id != (
            #[trigger] materials[k]).id),
    decreases materials.len() - i,
{
    if i < materials.len() {
        usable_copies_are_complete(materials, i + 1);
        lemma_shows(materials[i].id);
        lemma_shows(materials[i].label);
    }
}

// ----- exports ------------------------------------------------------------

/// Whether an exported record says what a record says, with its references qualified.
#[verifier::opaque]
pub open spec fn says_the_same(
    out: PortableEntityRecord,
    record: PortableEntityRecord,
    reading: ReadingId,
) -> bool {
    &&& out.kind@ == record.kind@ && out.local_id == record.local_id
    &&& out.label@ == record.label@ && out.role == record.role
    &&& match (record.hypothesis, out.hypothesis) {
        (Some(a), Some(b)) => a.support_bits == b.support_bits && optional_text(a.description)
            == optional_text(b.description),
        (None, None) => true,
        _ => false,
    }
    &&& optional_text(out.hypothesis_group) == optional_text(record.hypothesis_group)
    &&& member_views(out.extensions@) == member_views(record.extensions@)
    &&& match (record.extent, out.extent) {
        (Some(a), Some(b)) => is_qualified(a, b, reading),
        (None, None) => true,
        _ => false,
    }
}

proof fn lemma_exported_count(
    reading: ReadingId,
    frames: u64,
    records: Seq<PortableEntityRecord>,
    i: int,
)
    requires
        0 <= i <= records.len(),
        exported_records(reading, frames, records, i) is Ok,
    ensures
        exported_records(reading, frames, records, i)->Ok_0.len() == i,
    decreases i,
{
    if i > 0 {
        lemma_exported_count(reading, frames, records, i - 1);
    }
}

proof fn lemma_exported_at(
    reading: ReadingId,
    frames: u64,
    records: Seq<PortableEntityRecord>,
    i: int,
    k: int,
)
    requires
        0 <= k < i <= records.len(),
        exported_records(reading, frames, records, i) is Ok,
    ensures
        exported_record(reading, frames, records, k) == Ok::<RecordView, WorkflowFault>(
            exported_records(reading, frames, records, i)->Ok_0[k],
        ),
    decreases i,
{
    lemma_exported_count(reading, frames, records, i);
    lemma_exported_count(reading, frames, records, i - 1);
    if k < i - 1 {
        lemma_exported_at(reading, frames, records, i - 1, k);
    }
}

proof fn lemma_says_the_same(
    reading: ReadingId,
    frames: u64,
    records: Seq<PortableEntityRecord>,
    k: int,
    out: PortableEntityRecord,
)
    requires
        0 <= k < records.len(),
        exported_record(reading, frames, records, k) == Ok::<RecordView, WorkflowFault>(out@),
    ensures
        says_the_same(out, records[k], reading),
{
    reveal(says_the_same);
    if let Some(extent) = records[k].extent {
        lemma_is_qualified(extent, out.extent->0, reading);
    }
}

/// Every record is exported as what it says, and nothing else is exported.
pub proof fn exports_hold_every_record(
    request: ReadingExportRequest,
    out: Seq<PortableEntityRecord>,
)
    requires
        exported_entities(request) == Ok::<Seq<RecordView>, WorkflowFault>(record_views(out)),
    ensures
        out.len() == request.entities@.len(),
        forall|k: int|
            0 <= k < request.entities@.len() ==> exists|n: int|
                0 <= n < out.len() && says_the_same(
                    #[trigger] out[n],
                    #[trigger] request.entities@[k],
                    request.reading_id,
                ),
        forall|n: int|
            0 <= n < out.len() ==> exists|k: int|
                0 <= k < request.entities@.len() && says_the_same(
                    #[trigger] out[n],
                    #[trigger] request.entities@[k],
                    request.reading_id,
                ),
        forall|s: int|
            0 <= s < request.additional_sections@.len() ==> (
            #[trigger] request.additional_sections@[s]).name@ != "entities"@,
{
    let reading = request.reading_id;
    let frames = request.source.frame_count;
    let records = request.entities@;
    let count = records.len() as int;
    let list = exported_records(reading, frames, records, count)->Ok_0;
    lemma_exported_count(reading, frames, records, count);
    lemma_ranked_members(list);
    let order = ranked(list);
    assert(record_views(out) == order);
    assert(record_views(out).len() == out.len());
    assert forall|n: int| 0 <= n < out.len() implies (#[trigger] out[n])@ == order[n] by {
        assert(record_views(out)[n] == out[n]@);
    }
    assert forall|k: int| 0 <= k < records.len() implies exists|n: int|
        0 <= n < out.len() && says_the_same(#[trigger] out[n], #[trigger] records[k], reading) by {
        lemma_exported_at(reading, frames, records, count, k);
        assert(list.contains(list[k]));
        assert(order.contains(list[k]));
        let n = choose|n: int| 0 <= n < order.len() && order[n] == list[k];
        lemma_says_the_same(reading, frames, records, k, out[n]);
    }
    assert forall|n: int| 0 <= n < out.len() implies exists|k: int|
        0 <= k < records.len() && says_the_same(#[trigger] out[n], #[trigger] records[k], reading) by {
        assert(order.contains(order[n]));
        assert(list.contains(order[n]));
        let k = choose|k: int| 0 <= k < list.len() && list[k] == order[n];
        lemma_exported_at(reading, frames, records, count, k);
        lemma_says_the_same(reading, frames, records, k, out[n]);
    }
}

proof fn lemma_within(regions: Seq<crate::navigation::RegionDto>, frames: u64, i: int)
    requires
        0 <= i,
        outside_source(regions, frames, i) is None,
    ensures
        forall|r: int|
            i <= r < regions.len() ==> 0 <= (#[trigger] regions[r]).start_frame && 0
                <= regions[r].end_frame <= frames,
    decreases regions.len() - i,
{
    if i < regions.len() {
        lemma_within(regions, frames, i + 1);
    }
}

/// What is exported can be used: every record has a number, a kind and a label to show, no
/// two are of the same entity, only hypotheses make claims, with support from zero to one,
/// and every extent lies within the source.
pub proof fn unusable_records_are_not_exported(request: ReadingExportRequest, k: int)
    requires
        exported_entities(request) is Ok,
        0 <= k < request.entities@.len(),
    ensures
        request.entities@[k].local_id > 0,
        is_token(request.entities@[k].kind@),
        shows_something(request.entities@[k].label@),
        request.entities@[k].hypothesis_group matches Some(group) ==> shows_something(group@),
        forall|j: int|
            0 <= j < k ==> (#[trigger] request.entities@[j]).kind@ != request.entities@[k].kind@
                || request.entities@[j].local_id != request.entities@[k].local_id,
        request.entities@[k].hypothesis matches Some(semantics) ==> {
            &&& request.entities@[k].role == PortableEntityRole::Hypothesis
            &&& 0 <= units(semantics.support_bits) <= vstd::arithmetic::power2::pow2(149)
            &&& (semantics.description matches Some(text) ==> shows_something(text@))
        },
        request.entities@[k].extent matches Some(extent) ==> forall|r: int|
            0 <= r < extent.regions@.len() ==> 0 <= (#[trigger] extent.regions@[r]).start_frame
                && 0 <= extent.regions@[r].end_frame <= request.source.frame_count,
{
    let records = request.entities@;
    let record = records[k];
    let reading = request.reading_id;
    let frames = request.source.frame_count;
    lemma_exported_at(reading, frames, records, records.len() as int, k);
    lemma_shows(record.label@);
    if let Some(group) = record.hypothesis_group {
        lemma_shows(group@);
    }
    assert forall|j: int| 0 <= j < k implies (#[trigger] records[j]).kind@ != record.kind@
        || records[j].local_id != record.local_id by {
        assert(record_id(reading, records[j])@ != record_id(reading, record)@);
    }
    if let Some(semantics) = record.hypothesis {
        the_unit_interval_ends_at_one(semantics.support_bits);
        if let Some(description) = semantics.description {
            lemma_shows(description@);
        }
    }
    if let Some(extent) = record.extent {
        let view = extent.qualified(reading)->Ok_0;
        assert(view.regions == extent.regions@);
        lemma_within(view.regions, frames, 0);
    }
}

/// An exported reading carries what was asked for under its name and revision, is of the
/// one format and version, and ends with the entities.
pub proof fn exports_carry_what_was_asked_for(
    reading: ReadingFile,
    request: ReadingExportRequest,
    written: WrittenEntities,
)
    requires
        assembled(Ok(reading), request, written),
    ensures
        reading.fault() is None,
        reading.format@ == "audec-reading"@ && reading.version == 1,
        reading.reading_id == request.reading_id && reading.revision == request.revision,
        reading.parents == request.parents && reading.author == request.author,
        reading.source == request.source && reading.attachments == request.attachments,
        reading.extensions == request.extensions,
        reading.sections@.len() == request.additional_sections@.len() + 1,
        forall|s: int|
            0 <= s < request.additional_sections@.len() ==> #[trigger] reading.sections@[s]
                == request.additional_sections@[s],
        reading.sections@.last().name@ == "entities"@,
        reading.sections@.last().schema_major == 1 && reading.sections@.last().schema_minor == 0,
        written.payload matches Ok(value) && reading.sections@.last().payload == value,
{
    let count = request.additional_sections@.len() as int;
    assert forall|s: int| 0 <= s < count implies #[trigger] reading.sections@[s]
        == request.additional_sections@[s] by {
        assert(reading.sections@.take(count)[s] == reading.sections@[s]);
    }
}

} // verus!
