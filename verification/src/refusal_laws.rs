//! Refusals are so: what a refused reading, record or autosave is refused for holds of it,
//! and what is guided to, revealed and heard is what was asked for.

use vstd::prelude::*;

use crate::navigation::{
    is_unit_interval, optional_geometry, the_unit_interval_ends_at_one, units, EntityRefKey,
    RegionDto, SignalView,
};
use crate::packages::{
    loaded_manifest, recovery_mismatch, LoadedCheckpoint, ManifestRead, PayloadRead, ProjectStore,
};
use crate::query_document::{
    is_residual_guide, latest_hits, residual_fault, AuditionTarget, QueryDocumentId,
    ResidualGuide, RevealTarget, WorkbenchActionRefusal, WorkbenchPaneModel,
};
use crate::query_terms::{geometry_fault, TermTree};
use crate::reading::{
    attachments_fault, parents_fault, replicated, sections_fault, EntityKey, ReadingAttachmentRef,
    ReadingError, ReadingFile, ReadingId, ReadingSection, ReadingVersionRef, ReplicationCheck,
    VerificationTier,
};
use crate::reading_import::{
    import_plan, imported_geometry, opaque_names, planned_record, planned_records, record_id,
    repeats_record, ImportFault, PortableEntityRecord, PortableEntityRole, ReadingImportOptions,
    UnknownSectionPolicy,
};
use crate::reading_laws::{every_check_has_to_match, resists_collisions, shows_something};
use crate::store::{ProjectStoreError, RecoveryCheckpoint};
use crate::text::{is_blank, is_token, is_white_space};

verus! {

proof fn lemma_something(text: Seq<char>)
    ensures
        shows_something(text) <==> !is_blank(text),
{
    if !is_blank(text) {
        let i = choose|i: int| 0 <= i < text.len() && !is_white_space(#[trigger] text[i]);
        assert(!is_white_space(text[i]));
    }
}

// ----- readings -----------------------------------------------------------

/// Whether what is said to be wrong with a reading is.
pub open spec fn is_wrong(file: ReadingFile, error: ReadingError) -> bool {
    match error {
        ReadingError::WrongFormat(format) => format == file.format && format@ != "audec-reading"@,
        ReadingError::UnsupportedVersion(version) => version == file.version && version != 1,
        ReadingError::ZeroRevision => file.revision == 0,
        ReadingError::WeakOrMissingSourceFingerprint => file.source.fingerprints@.len() == 0
            || exists|i: int|
            0 <= i < file.source.fingerprints@.len() && !resists_collisions(
                #[trigger] file.source.fingerprints@[i],
            ),
        ReadingError::InvalidSourceFormat => file.source.sample_rate == 0 || file.source.channels
            == 0 || file.source.frame_count == 0,
        ReadingError::InvalidParent(parent) => file.parents@.contains(parent) && (parent.revision
            == 0 || !resists_collisions(parent.manifest_digest)),
        ReadingError::DuplicateParent(parent) => exists|i: int, j: int|
            0 <= i < j < file.parents@.len() && (#[trigger] file.parents@[i]).reading_id
                == parent.reading_id && file.parents@[i].revision == parent.revision
                && #[trigger] file.parents@[j] == parent,
        ReadingError::InvalidSection(name) => exists|i: int|
            0 <= i < file.sections@.len() && (#[trigger] file.sections@[i]).name == name && (
            !is_token(name@) || file.sections@[i].schema_major == 0),
        ReadingError::DuplicateSection(name) => exists|i: int, j: int|
            0 <= i < j < file.sections@.len() && (#[trigger] file.sections@[i]).name@ == name@
                && (#[trigger] file.sections@[j]).name == name,
        ReadingError::InvalidAttachment(role) => exists|i: int|
            0 <= i < file.attachments@.len() && (#[trigger] file.attachments@[i]).role == role && (
            !is_token(role@) || !shows_something(file.attachments@[i].media_type@)
                || !resists_collisions(file.attachments@[i].digest)),
        _ => false,
    }
}

proof fn lemma_parent_faults(file: ReadingFile, i: int)
    requires
        0 <= i <= file.parents@.len(),
    ensures
        parents_fault(file.parents@, i) matches Some(error) ==> is_wrong(file, error),
    decreases file.parents@.len() - i,
{
    let parents = file.parents@;
    if i < parents.len() {
        lemma_parent_faults(file, i + 1);
        assert(parents.contains(parents[i]));
        if exists|j: int|
            0 <= j < i && (#[trigger] parents[j]).reading_id == parents[i].reading_id
                && parents[j].revision == parents[i].revision {
            let j = choose|j: int|
                0 <= j < i && (#[trigger] parents[j]).reading_id == parents[i].reading_id
                    && parents[j].revision == parents[i].revision;
            assert(file.parents@[j].reading_id == file.parents@[i].reading_id);
        }
    }
}

proof fn lemma_section_faults(file: ReadingFile, i: int)
    requires
        0 <= i <= file.sections@.len(),
    ensures
        sections_fault(file.sections@, i) matches Some(error) ==> is_wrong(file, error),
    decreases file.sections@.len() - i,
{
    let sections = file.sections@;
    if i < sections.len() {
        lemma_section_faults(file, i + 1);
        assert(file.sections@[i].name == sections[i].name);
        if exists|j: int| 0 <= j < i && (#[trigger] sections[j]).name@ == sections[i].name@ {
            let j = choose|j: int| 0 <= j < i && (#[trigger] sections[j]).name@
                == sections[i].name@;
            assert(file.sections@[j].name@ == file.sections@[i].name@);
        }
    }
}

proof fn lemma_attachment_faults(file: ReadingFile, i: int)
    requires
        0 <= i <= file.attachments@.len(),
    ensures
        attachments_fault(file.attachments@, i) matches Some(error) ==> is_wrong(file, error),
    decreases file.attachments@.len() - i,
{
    if i < file.attachments@.len() {
        lemma_attachment_faults(file, i + 1);
        lemma_something(file.attachments@[i].media_type@);
        assert(file.attachments@[i].role == file.attachments@[i].role);
    }
}

/// What a reading is refused for is wrong with it.
pub proof fn refused_readings_are_wrong(file: ReadingFile)
    ensures
        file.fault() matches Some(error) ==> is_wrong(file, error),
{
    lemma_parent_faults(file, 0);
    lemma_section_faults(file, 0);
    lemma_attachment_faults(file, 0);
}

/// A reading is replicated exactly if its source is matched and there are checks, all of
/// which match.
pub proof fn replication_takes_every_check(
    tier: VerificationTier,
    checks: Seq<ReplicationCheck>,
)
    ensures
        replicated(tier, checks) is Ok <==> tier == VerificationTier::SourceMatched && checks.len()
            > 0 && forall|k: int| 0 <= k < checks.len() ==> (#[trigger] checks[k]).matches,
        replicated(tier, checks) matches Ok(reached) ==> reached == VerificationTier::Replicated,
{
    every_check_has_to_match(checks, 0);
}

// ----- records ------------------------------------------------------------

/// Whether what a record is refused for is so.
pub open spec fn is_wrong_record(
    reading: ReadingId,
    records: Seq<PortableEntityRecord>,
    i: int,
    fault: ImportFault,
) -> bool {
    let record = records[i];
    match fault {
        ImportFault::InvalidReading(_) => record.local_id == 0 || !is_token(record.kind@),
        ImportFault::DuplicateEntity(id) => id.kind == record.kind@ && id.local_id
            == record.local_id && exists|j: int|
            0 <= j < i && (#[trigger] records[j]).kind@ == record.kind@ && records[j].local_id
                == record.local_id,
        ImportFault::BlankEntityLabel(id) => id.kind == record.kind@ && id.local_id
            == record.local_id && !shows_something(record.label@),
        ImportFault::InvalidHypothesis(id) => id.kind == record.kind@ && id.local_id
            == record.local_id && (record.hypothesis matches Some(semantics) && (record.role
            != PortableEntityRole::Hypothesis || !is_unit_interval(semantics.support_bits) || (
        semantics.description matches Some(text) && !shows_something(text@)))),
        ImportFault::ForeignReadingIdentity(id) => record.extent is Some && id.reading != reading,
        ImportFault::Workbench(fault) => record.extent matches Some(extent) && geometry_fault(
            extent@,
        ) == Some(fault),
        ImportFault::InvalidGeometry(_) => record.extent is Some,
        _ => false,
    }
}

proof fn lemma_foreign(objects: Seq<EntityRefKey>, reading: ReadingId, i: int)
    ensures
        crate::reading_import::foreign_object(objects, reading, i) matches Some(id) ==> id.reading
            != reading,
    decreases objects.len() - i,
{
    if 0 <= i < objects.len() {
        lemma_foreign(objects, reading, i + 1);
    }
}

/// What a record is refused for is wrong with it.
pub proof fn refused_records_are_wrong(
    reading: ReadingId,
    records: Seq<PortableEntityRecord>,
    existing: Seq<EntityKey>,
    i: int,
)
    requires
        0 <= i < records.len(),
    ensures
        planned_record(reading, records, existing, i) matches Err(fault) ==> is_wrong_record(
            reading,
            records,
            i,
            fault,
        ),
{
    let record = records[i];
    lemma_something(record.label@);
    if let Some(semantics) = record.hypothesis {
        if let Some(text) = semantics.description {
            lemma_something(text@);
        }
    }
    if repeats_record(reading, records, i) {
        let j = choose|j: int|
            0 <= j < i && (#[trigger] record_id(reading, records[j]))@ == record_id(
                reading,
                records[i],
            )@;
        assert(records[j].kind@ == record.kind@);
    }
    if let Some(extent) = record.extent {
        lemma_foreign(extent@.objects, reading, 0);
    }
}

proof fn lemma_refused_record(
    reading: ReadingId,
    records: Seq<PortableEntityRecord>,
    existing: Seq<EntityKey>,
    i: int,
) -> (k: int)
    requires
        0 <= i <= records.len(),
        planned_records(reading, records, existing, i) is Err,
    ensures
        0 <= k < i,
        planned_record(reading, records, existing, k) is Err,
        planned_record(reading, records, existing, k)->Err_0 == planned_records(
            reading,
            records,
            existing,
            i,
        )->Err_0,
    decreases i,
{
    if planned_records(reading, records, existing, i - 1) is Err {
        lemma_refused_record(reading, records, existing, i - 1)
    } else {
        i - 1
    }
}

/// Where records are refused, one of them is wrong.
pub proof fn one_wrong_record_is_enough(
    reading: ReadingId,
    records: Seq<PortableEntityRecord>,
    existing: Seq<EntityKey>,
)
    requires
        planned_records(reading, records, existing, records.len() as int) is Err,
    ensures
        exists|k: int|
            0 <= k < records.len() && #[trigger] is_wrong_record(
                reading,
                records,
                k,
                planned_records(reading, records, existing, records.len() as int)->Err_0,
            ),
{
    let k = lemma_refused_record(reading, records, existing, records.len() as int);
    refused_records_are_wrong(reading, records, existing, k);
}

// ----- autosaves ----------------------------------------------------------

/// An autosave is loaded only from its own place in the package, as a file of its own, and
/// only if it says it is the autosave that was chosen: of that time and that revision.
pub proof fn loaded_autosaves_are_what_was_chosen<C>(
    store: ProjectStore,
    candidate: RecoveryCheckpoint,
    is_symlink: bool,
    manifest: Result<ManifestRead, ProjectStoreError>,
    reads: Seq<PayloadRead>,
    checkpoint: Result<C, String>,
)
    ensures
        store.loaded_recovery(candidate, is_symlink, manifest, reads, checkpoint) matches Ok(
            loaded,
        ) ==> {
            &&& !is_symlink
            &&& candidate.manifest_path.directory@ == store.package.recovery_directory@
            &&& forall|i: int|
                0 <= i < candidate.manifest_path.leaf@.len() ==> #[trigger] candidate.manifest_path.leaf@[i]
                    != '/' && candidate.manifest_path.leaf@[i] != '\\'
            &&& loaded.recovery.is_autosave
            &&& loaded.recovery.saved_unix_ms == candidate.saved_unix_ms
            &&& loaded.recovery.base_project_revision == candidate.base_project_revision
            &&& loaded.manifest_path == candidate.manifest_path
            &&& checkpoint matches Ok(value) && loaded.checkpoint == value
            &&& manifest matches Ok(read) && loaded.recovery == read.recovery
                && loaded.diagnostics == read.diagnostics
        },
{
}

// ----- guides and targets -------------------------------------------------

/// A guide asks for what the proposal does not explain within the hotspots, and lets each
/// hotspot be heard in the residual of the comparison, in their order.
pub proof fn guides_lead_to_the_residual(
    guide: ResidualGuide,
    id: QueryDocumentId,
    title: String,
    hotspots: Seq<RegionDto>,
    comparison_id: u64,
    proposal_id: u64,
)
    requires
        is_residual_guide(guide, id, title, hotspots, comparison_id, proposal_id),
    ensures
        guide.query_document.id == id && guide.query_document.title == title,
        guide.query_document.revision == 1 && guide.query_document.results@.len() == 0,
        guide.query_document.fault() is None,
        guide.query_document.query.tree() matches TermTree::And(terms) && terms.len() == 2
            && terms[0] == TermTree::NotExplainedBy(proposal_id) && (
        terms[1] matches TermTree::Within(where_to) && where_to.regions == hotspots
            && where_to.objects.len() == 0 && where_to.signal is Source),
        guide.auditions@.len() == hotspots.len(),
        forall|i: int|
            0 <= i < hotspots.len() ==> {
                let target = #[trigger] guide.auditions@[i];
                let comparison = EntityRefKey::Project {
                    kind: "comparison"@,
                    local_id: comparison_id,
                };
                &&& target.entity@ == comparison
                &&& target.extent@.regions.len() == 1 && target.extent@.regions[0] == hotspots[i]
                &&& target.extent@.objects.len() == 0
                &&& target.extent@.signal == SignalView::Residual(comparison)
            },
{
}

/// A guide needs a comparison and a proposal, a document to be in and a title.
pub proof fn guides_need_a_comparison_and_a_proposal(
    id: QueryDocumentId,
    title: Seq<char>,
    hotspots: Seq<RegionDto>,
    comparison_id: u64,
    proposal_id: u64,
)
    ensures
        residual_fault(id, title, hotspots, comparison_id, proposal_id) is None ==> comparison_id
            > 0 && proposal_id > 0 && id.0 > 0 && shows_something(title),
{
    lemma_something(title);
}

/// The fact of the selected row is revealed and heard, with its own extent; nothing is
/// where no row is selected, and a fact without an extent is not heard.
pub proof fn selected_rows_are_revealed_and_heard(
    model: WorkbenchPaneModel,
    reveal: Result<RevealTarget, WorkbenchActionRefusal>,
    audition: Result<AuditionTarget, WorkbenchActionRefusal>,
)
    requires
        model.reveals(reveal),
        model.auditions(audition),
    ensures
        ({
            let hits = latest_hits(model.doc());
            &&& reveal is Ok <==> model.selection() is Some && model.selection()->0 < hits.len()
            &&& reveal matches Ok(target) ==> target.entity@ == hits[model.selection()->0 as int].fact@
                && optional_geometry(target.extent) == optional_geometry(
                hits[model.selection()->0 as int].extent,
            )
            &&& audition is Ok <==> reveal is Ok && hits[model.selection()->0 as int].extent is Some
            &&& audition matches Ok(target) ==> target.entity@
                == hits[model.selection()->0 as int].fact@ && target.extent@
                == hits[model.selection()->0 as int].extent->0@
            &&& model.selection() is None ==> reveal->Err_0 is NoSelection
        }),
{
}

} // verus!
