//! Building a reading to hand out.
//!
//! Records come in with references into the project. Every such reference is
//! qualified with the reading before anything is written.

use vstd::prelude::*;

use crate::json::{copy_members, member_views, JsonMember, JsonPayload};
use crate::navigation::{
    optional_geometry, qualified_objects, AspectGeometryDto, EntityRefDto, EntityRefKey,
    GeometryView, RegionDto,
};
use crate::query_terms::{geometry_fault, signal_reference, validate_geometry};
use crate::rank::{
    append_text_rank, ranked, ranked_commutes_with_views, ranked_is_an_ordering, sort_by_rank,
    text_rank, HasRank, Ranked,
};
use crate::reading::{
    EntityKey, PortableDigest, ProvenanceDto, QualifiedEntityId, ReadingAttachmentRef, ReadingError,
    ReadingFile,
    ReadingId, ReadingSection, ReadingSource, ReadingVersionRef, READING_FORMAT,
    READING_FORMAT_VERSION,
};
use crate::reading_codec::{EncodedReading, ReadingCodecError};
use crate::reading_import::{
    check_semantics, copy_semantics, find_foreign_reference, foreign_object, foreign_reference,
    import_plan, plan_reading_import, record_id, repeats_record, semantics_fit, semantics_view,
    CodecView,
    PortableEntityRecord, PortableEntityRole, ReadingImportOptions, SemanticsView,
    UnknownSectionPolicy, ENTITY_SECTION_MAJOR, ENTITY_SECTION_NAME,
};
use crate::reading_workflow::{
    ExportGeometryFault, ExportGeometryRefusal, ReadingWorkflowRefusal, WorkflowFault,
};
use crate::text::{blank, copy_optional_text, is_blank, optional_text, owned, same_text};

verus! {

/// What a record holds.
pub struct RecordView {
    pub kind: Seq<char>,
    pub local_id: u64,
    pub label: Seq<char>,
    pub role: PortableEntityRole,
    pub hypothesis: Option<SemanticsView>,
    pub hypothesis_group: Option<Seq<char>>,
    pub extent: Option<GeometryView>,
    pub extensions: Seq<(Seq<char>, Seq<char>)>,
}

impl View for PortableEntityRecord {
    type V = RecordView;

    open spec fn view(&self) -> RecordView {
        RecordView {
            kind: self.kind@,
            local_id: self.local_id,
            label: self.label@,
            role: self.role,
            hypothesis: semantics_view(self.hypothesis),
            hypothesis_group: optional_text(self.hypothesis_group),
            extent: optional_geometry(self.extent),
            extensions: member_views(self.extensions@),
        }
    }
}

impl HasRank for RecordView {
    open spec fn rank(&self) -> Seq<u64> {
        text_rank(self.kind) + seq![self.local_id]
    }
}

impl HasRank for PortableEntityRecord {
    open spec fn rank(&self) -> Seq<u64> {
        text_rank(self.kind@) + seq![self.local_id]
    }
}

impl Ranked for PortableEntityRecord {
    fn rank_key(&self) -> (r: Vec<u64>) {
        let mut key: Vec<u64> = Vec::new();
        append_text_rank(&mut key, self.kind.as_str());
        key.push(self.local_id);
        assert(key@ =~= self.rank());
        key
    }
}

/// What a list of records holds.
pub open spec fn record_views(list: Seq<PortableEntityRecord>) -> Seq<RecordView> {
    list.map_values(|r: PortableEntityRecord| r@)
}

/// A reading to build.
#[derive(Debug, PartialEq)]
pub struct ReadingExportRequest {
    pub reading_id: ReadingId,
    pub revision: u64,
    pub parents: Vec<ReadingVersionRef>,
    pub author: ProvenanceDto,
    pub source: ReadingSource,
    pub entities: Vec<PortableEntityRecord>,
    pub additional_sections: Vec<ReadingSection>,
    pub attachments: Vec<ReadingAttachmentRef>,
    pub extensions: Vec<JsonMember>,
}

// ----- one record -------------------------------------------------------

/// A region that lies within a source of so many frames.
pub open spec fn within_source(region: RegionDto, frames: u64) -> bool {
    0 <= region.start_frame && 0 <= region.end_frame && region.end_frame <= frames
}

/// The first region from index `i` on that lies outside the source.
pub open spec fn outside_source(regions: Seq<RegionDto>, frames: u64, i: int) -> Option<RegionDto>
    decreases regions.len() - i,
{
    if i < 0 || i >= regions.len() {
        None
    } else if !within_source(regions[i], frames) {
        Some(regions[i])
    } else {
        outside_source(regions, frames, i + 1)
    }
}

/// What is wrong with the label, group and semantics of a record.
pub open spec fn record_fault(record: PortableEntityRecord, id: EntityKey) -> Option<
    WorkflowFault,
> {
    if is_blank(record.label@) {
        Some(WorkflowFault::BlankExportLabel(id))
    } else if record.hypothesis_group is Some && is_blank(record.hypothesis_group->0@) {
        Some(WorkflowFault::BlankHypothesisGroup(id))
    } else if !semantics_fit(record.role, record.hypothesis) {
        Some(WorkflowFault::InvalidExportHypothesis(id))
    } else {
        None
    }
}

/// What is wrong with qualified geometry.
pub open spec fn extent_fault(
    extent: GeometryView,
    frames: u64,
    id: EntityKey,
    reading: ReadingId,
) -> Option<WorkflowFault> {
    if geometry_fault(extent) is Some {
        Some(
            WorkflowFault::InvalidExportGeometry {
                entity: id,
                detail: ExportGeometryFault::Geometry(geometry_fault(extent)->0),
            },
        )
    } else if outside_source(extent.regions, frames, 0) is Some {
        Some(
            WorkflowFault::ExtentOutsideSource {
                entity: id,
                start_frame: outside_source(extent.regions, frames, 0)->0.start_frame,
                end_frame: outside_source(extent.regions, frames, 0)->0.end_frame,
                source_frames: frames,
            },
        )
    } else if foreign_reference(extent, reading) is Some {
        Some(
            WorkflowFault::ForeignReadingReference {
                entity: id,
                reference: foreign_reference(extent, reading)->0,
            },
        )
    } else {
        None
    }
}

/// Geometry of a record as it is handed out.
pub open spec fn exported_extent(
    extent: AspectGeometryDto,
    frames: u64,
    id: EntityKey,
    reading: ReadingId,
) -> Result<GeometryView, WorkflowFault> {
    match extent.qualified(reading) {
        Err(error) => Err(
            WorkflowFault::InvalidExportGeometry {
                entity: id,
                detail: ExportGeometryFault::Reference(error),
            },
        ),
        Ok(qualified) => match extent_fault(qualified, frames, id, reading) {
            Some(fault) => Err(fault),
            None => Ok(qualified),
        },
    }
}

/// Record `i` as it is handed out, or why it cannot be.
pub open spec fn exported_record(
    reading: ReadingId,
    frames: u64,
    records: Seq<PortableEntityRecord>,
    i: int,
) -> Result<RecordView, WorkflowFault> {
    let record = records[i];
    let id = record_id(reading, record);
    if !id.is_valid() {
        Err(WorkflowFault::InvalidReading(ReadingError::InvalidQualifiedId(id)))
    } else if repeats_record(reading, records, i) {
        Err(WorkflowFault::DuplicateExportEntity(id@))
    } else if record_fault(record, id@) is Some {
        Err(record_fault(record, id@)->0)
    } else {
        match record.extent {
            None => Ok(record@),
            Some(extent) => match exported_extent(extent, frames, id@, reading) {
                Err(fault) => Err(fault),
                Ok(geometry) => Ok(RecordView { extent: Some(geometry), ..record@ }),
            },
        }
    }
}

/// The first `i` records as they are handed out, or the first refusal.
pub open spec fn exported_records(
    reading: ReadingId,
    frames: u64,
    records: Seq<PortableEntityRecord>,
    i: int,
) -> Result<Seq<RecordView>, WorkflowFault>
    decreases i,
{
    if i <= 0 {
        Ok(Seq::empty())
    } else {
        match exported_records(reading, frames, records, i - 1) {
            Err(fault) => Err(fault),
            Ok(done) => match exported_record(reading, frames, records, i - 1) {
                Err(fault) => Err(fault),
                Ok(record) => Ok(done.push(record)),
            },
        }
    }
}

proof fn lemma_exported_error(
    reading: ReadingId,
    frames: u64,
    records: Seq<PortableEntityRecord>,
    i: int,
    j: int,
)
    requires
        0 <= i <= j,
        exported_records(reading, frames, records, i) is Err,
    ensures
        exported_records(reading, frames, records, j) == exported_records(
            reading,
            frames,
            records,
            i,
        ),
    decreases j - i,
{
    if i < j {
        lemma_exported_error(reading, frames, records, i, j - 1);
    }
}

fn validate_export_record(record: &PortableEntityRecord, id: &QualifiedEntityId) -> (r: Result<
    (),
    ReadingWorkflowRefusal,
>)
    ensures
        match r {
            Ok(_) => record_fault(*record, id@) is None,
            Err(refusal) => record_fault(*record, id@) == Some(refusal@),
        },
{
    if blank(record.label.as_str()) {
        return Err(ReadingWorkflowRefusal::BlankExportLabel(id.clone()));
    }
    match &record.hypothesis_group {
        Some(group) => {
            if blank(group.as_str()) {
                return Err(ReadingWorkflowRefusal::BlankHypothesisGroup(id.clone()));
            }
        },
        None => {},
    }
    if !check_semantics(record.role, &record.hypothesis) {
        return Err(ReadingWorkflowRefusal::InvalidExportHypothesis(id.clone()));
    }
    Ok(())
}

fn validate_export_extent(
    extent: &AspectGeometryDto,
    source: &ReadingSource,
    entity: &QualifiedEntityId,
    reading: ReadingId,
) -> (r: Result<(), ReadingWorkflowRefusal>)
    ensures
        match r {
            Ok(_) => extent_fault(extent@, source.frame_count, entity@, reading) is None,
            Err(refusal) => extent_fault(extent@, source.frame_count, entity@, reading) == Some(
                refusal@,
            ),
        },
{
    match validate_geometry(extent) {
        Ok(()) => {},
        Err(error) => {
            return Err(
                ReadingWorkflowRefusal::InvalidExportGeometry {
                    entity: entity.clone(),
                    detail: ExportGeometryRefusal::Geometry(error),
                },
            );
        },
    }
    let frames: u64 = source.frame_count;
    let mut i: usize = 0;
    while i < extent.regions.len()
        invariant
            i <= extent.regions.len(),
            frames == source.frame_count,
            geometry_fault(extent@) is None,
            outside_source(extent@.regions, frames, 0) == outside_source(
                extent@.regions,
                frames,
                i as int,
            ),
        decreases extent.regions.len() - i,
    {
        let region = extent.regions[i];
        if region.start_frame < 0 || region.end_frame < 0 || region.end_frame as u64 > frames {
            return Err(
                ReadingWorkflowRefusal::ExtentOutsideSource {
                    entity: entity.clone(),
                    start_frame: region.start_frame,
                    end_frame: region.end_frame,
                    source_frames: frames,
                },
            );
        }
        i = i + 1;
    }
    match find_foreign_reference(extent, &reading) {
        Some(reference) => Err(
            ReadingWorkflowRefusal::ForeignReadingReference { entity: entity.clone(), reference },
        ),
        None => Ok(()),
    }
}

fn export_extent(
    extent: &AspectGeometryDto,
    source: &ReadingSource,
    entity: &QualifiedEntityId,
    reading: ReadingId,
) -> (r: Result<AspectGeometryDto, ReadingWorkflowRefusal>)
    ensures
        match r {
            Ok(geometry) => exported_extent(*extent, source.frame_count, entity@, reading) == Ok::<
                GeometryView,
                WorkflowFault,
            >(geometry@),
            Err(refusal) => exported_extent(*extent, source.frame_count, entity@, reading) == Err::<
                GeometryView,
                WorkflowFault,
            >(refusal@),
        },
{
    let copy = extent.copy();
    assert(copy.qualified(reading) == extent.qualified(reading));
    match copy.qualify_project_ids(reading) {
        Err(error) => Err(
            ReadingWorkflowRefusal::InvalidExportGeometry {
                entity: entity.clone(),
                detail: ExportGeometryRefusal::Reference(error),
            },
        ),
        Ok(qualified) => match validate_export_extent(&qualified, source, entity, reading) {
            Err(refusal) => Err(refusal),
            Ok(()) => Ok(qualified),
        },
    }
}

fn repeated(reading: ReadingId, records: &Vec<PortableEntityRecord>, i: usize) -> (r: bool)
    requires
        i < records@.len(),
    ensures
        r == repeats_record(reading, records@, i as int),
{
    let mut j: usize = 0;
    while j < i
        invariant
            j <= i < records@.len(),
            forall|k: int|
                0 <= k < j ==> (#[trigger] record_id(reading, records@[k]))@ != record_id(
                    reading,
                    records@[i as int],
                )@,
        decreases i - j,
    {
        if records[j].local_id == records[i].local_id && same_text(
            records[j].kind.as_str(),
            records[i].kind.as_str(),
        ) {
            assert(record_id(reading, records@[j as int])@ == record_id(
                reading,
                records@[i as int],
            )@);
            return true;
        }
        j = j + 1;
    }
    false
}

fn export_record(
    reading: ReadingId,
    source: &ReadingSource,
    records: &Vec<PortableEntityRecord>,
    i: usize,
) -> (r: Result<PortableEntityRecord, ReadingWorkflowRefusal>)
    requires
        i < records@.len(),
    ensures
        match r {
            Ok(record) => exported_record(reading, source.frame_count, records@, i as int) == Ok::<
                RecordView,
                WorkflowFault,
            >(record@),
            Err(refusal) => exported_record(reading, source.frame_count, records@, i as int)
                == Err::<RecordView, WorkflowFault>(refusal@),
        },
{
    let record = &records[i];
    let id = match QualifiedEntityId::new(reading, record.kind.clone(), record.local_id) {
        Ok(id) => id,
        Err(error) => {
            return Err(ReadingWorkflowRefusal::InvalidReading(error));
        },
    };
    if repeated(reading, records, i) {
        return Err(ReadingWorkflowRefusal::DuplicateExportEntity(id));
    }
    match validate_export_record(record, &id) {
        Ok(()) => {},
        Err(refusal) => {
            return Err(refusal);
        },
    }
    let extent = match &record.extent {
        None => None,
        Some(extent) => match export_extent(extent, source, &id, reading) {
            Ok(geometry) => Some(geometry),
            Err(refusal) => {
                return Err(refusal);
            },
        },
    };
    Ok(
        PortableEntityRecord {
            kind: record.kind.clone(),
            local_id: record.local_id,
            label: record.label.clone(),
            role: record.role,
            hypothesis: copy_semantics(&record.hypothesis),
            hypothesis_group: copy_optional_text(&record.hypothesis_group),
            extent,
            extensions: copy_members(&record.extensions),
        },
    )
}

// ----- the whole reading ------------------------------------------------

/// Whether the caller supplies the section that the export writes.
pub open spec fn reserves_entities(sections: Seq<ReadingSection>) -> bool {
    exists|i: int| 0 <= i < sections.len() && (#[trigger] sections[i]).name@ == ENTITY_SECTION_NAME@
}

/// The entity section to write: qualified and ordered, or why there is none.
pub open spec fn exported_entities(request: ReadingExportRequest) -> Result<
    Seq<RecordView>,
    WorkflowFault,
> {
    if reserves_entities(request.additional_sections@) {
        Err(WorkflowFault::ReservedSection(ENTITY_SECTION_NAME@))
    } else {
        match exported_records(
            request.reading_id,
            request.source.frame_count,
            request.entities@,
            request.entities@.len() as int,
        ) {
            Err(fault) => Err(fault),
            Ok(records) => Ok(ranked(records)),
        }
    }
}

/// Checks and qualifies the records of an export, and orders them.
pub fn export_entities(request: &ReadingExportRequest) -> (r: Result<
    Vec<PortableEntityRecord>,
    ReadingWorkflowRefusal,
>)
    ensures
        match r {
            Ok(records) => exported_entities(*request) == Ok::<Seq<RecordView>, WorkflowFault>(
                record_views(records@),
            ),
            Err(refusal) => exported_entities(*request) == Err::<Seq<RecordView>, WorkflowFault>(
                refusal@,
            ),
        },
{
    let sections = &request.additional_sections;
    let mut i: usize = 0;
    while i < sections.len()
        invariant
            i <= sections.len(),
            *sections == request.additional_sections,
            forall|k: int| 0 <= k < i ==> (#[trigger] sections@[k]).name@ != ENTITY_SECTION_NAME@,
        decreases sections.len() - i,
    {
        if same_text(sections[i].name.as_str(), ENTITY_SECTION_NAME) {
            assert(sections@[i as int].name@ == ENTITY_SECTION_NAME@);
            return Err(ReadingWorkflowRefusal::ReservedSection(owned(ENTITY_SECTION_NAME)));
        }
        i = i + 1;
    }
    let reading = request.reading_id;
    let frames: u64 = request.source.frame_count;
    let records = &request.entities;
    let mut out: Vec<PortableEntityRecord> = Vec::new();
    let mut k: usize = 0;
    assert(record_views(out@) =~= Seq::<RecordView>::empty());
    while k < records.len()
        invariant
            k <= records.len(),
            *records == request.entities,
            reading == request.reading_id,
            frames == request.source.frame_count,
            !reserves_entities(request.additional_sections@),
            exported_records(reading, frames, records@, k as int) == Ok::<
                Seq<RecordView>,
                WorkflowFault,
            >(record_views(out@)),
        decreases records.len() - k,
    {
        let ghost before = record_views(out@);
        match export_record(reading, &request.source, records, k) {
            Ok(record) => {
                out.push(record);
                assert(record_views(out@) =~= before.push(record@));
            },
            Err(refusal) => {
                proof {
                    lemma_exported_error(
                        reading,
                        frames,
                        records@,
                        k as int + 1,
                        records@.len() as int,
                    );
                }
                return Err(refusal);
            },
        }
        k = k + 1;
    }
    proof {
        ranked_commutes_with_views(out@, |r: PortableEntityRecord| r@);
    }
    Ok(sort_by_rank(out))
}

/// A reading is the one that a request asks for, with an entity payload.
pub open spec fn is_export(
    reading: ReadingFile,
    request: ReadingExportRequest,
    payload: JsonPayload,
) -> bool {
    let count = request.additional_sections@.len();
    &&& reading.format@ == READING_FORMAT@
    &&& reading.version == READING_FORMAT_VERSION
    &&& reading.reading_id == request.reading_id
    &&& reading.revision == request.revision
    &&& reading.parents == request.parents
    &&& reading.author == request.author
    &&& reading.source == request.source
    &&& reading.attachments == request.attachments
    &&& reading.extensions == request.extensions
    &&& reading.sections@.len() == count + 1
    &&& reading.sections@.take(count as int) == request.additional_sections@
    &&& reading.sections@[count as int].name@ == ENTITY_SECTION_NAME@
    &&& reading.sections@[count as int].schema_major == ENTITY_SECTION_MAJOR
    &&& reading.sections@[count as int].schema_minor == 0
    &&& reading.sections@[count as int].payload == payload
    &&& reading.sections@[count as int].extensions@ == Seq::<JsonMember>::empty()
}

/// How an export checks itself: the way a plain import would.
pub open spec fn checking_options() -> ReadingImportOptions {
    ReadingImportOptions {
        unknown_sections: UnknownSectionPolicy::PreserveOpaque,
        require_entity_section: true,
    }
}

/// Whether an export that was assembled may leave.
pub open spec fn departure_fault(
    reading: ReadingFile,
    decoded: Result<Vec<PortableEntityRecord>, String>,
) -> Option<WorkflowFault> {
    match reading.fault() {
        Some(error) => Some(WorkflowFault::InvalidReading(error)),
        None => match import_plan(reading, decoded, None, Seq::empty(), checking_options()) {
            Err(fault) => Some(WorkflowFault::Import(fault)),
            Ok(_) => None,
        },
    }
}

/// The entity section of an export as it was written: the records, the payload that
/// the encoder made of them, and what the decoder makes of the payload.
#[derive(Debug, PartialEq)]
pub struct WrittenEntities {
    pub entities: Vec<PortableEntityRecord>,
    pub payload: Result<JsonPayload, String>,
    pub decoded: Result<Vec<PortableEntityRecord>, String>,
}

impl WrittenEntities {
    /// What was written are the records that the export asks for, if it asks for any.
    pub open spec fn belongs_to(self, request: ReadingExportRequest) -> bool {
        exported_entities(request) matches Ok(records) ==> record_views(self.entities@) == records
    }
}

/// The outcome of assembling an export is this reading or this refusal.
pub open spec fn assembled(
    r: Result<ReadingFile, WorkflowFault>,
    request: ReadingExportRequest,
    written: WrittenEntities,
) -> bool {
    match exported_entities(request) {
        Err(fault) => r == Err::<ReadingFile, WorkflowFault>(fault),
        Ok(_) => match written.payload {
            Err(message) => r == Err::<ReadingFile, WorkflowFault>(
                WorkflowFault::Codec(
                    CodecView::SectionJson { name: ENTITY_SECTION_NAME@, message: message@ },
                ),
            ),
            Ok(value) => match r {
                Ok(reading) => is_export(reading, request, value) && departure_fault(
                    reading,
                    written.decoded,
                ) is None,
                Err(fault) => exists|reading: ReadingFile|
                    is_export(reading, request, value) && #[trigger] departure_fault(
                        reading,
                        written.decoded,
                    ) == Some(fault),
            },
        },
    }
}

/// What the outcome of assembling an export says.
pub open spec fn assembly_view(r: Result<ReadingFile, ReadingWorkflowRefusal>) -> Result<
    ReadingFile,
    WorkflowFault,
> {
    match r {
        Ok(reading) => Ok(reading),
        Err(refusal) => Err(refusal@),
    }
}

/// Builds the reading of an export. An import of it must succeed before it may leave.
pub fn assemble_export(request: ReadingExportRequest, written: WrittenEntities) -> (r: Result<
    ReadingFile,
    ReadingWorkflowRefusal,
>)
    requires
        written.belongs_to(request),
    ensures
        assembled(assembly_view(r), request, written),
{
    match export_entities(&request) {
        Ok(_) => {},
        Err(refusal) => {
            return Err(refusal);
        },
    }
    let payload = match written.payload {
        Ok(value) => value,
        Err(message) => {
            return Err(
                ReadingWorkflowRefusal::Codec(
                    ReadingCodecError::SectionJson { name: owned(ENTITY_SECTION_NAME), message },
                ),
            );
        },
    };
    let ghost asked = request;
    let ghost value = payload;
    let no_extensions: Vec<JsonMember> = Vec::new();
    assert(no_extensions@ =~= Seq::<JsonMember>::empty());
    let section = ReadingSection {
        name: owned(ENTITY_SECTION_NAME),
        schema_major: ENTITY_SECTION_MAJOR,
        schema_minor: 0,
        payload,
        extensions: no_extensions,
    };
    let mut sections = request.additional_sections;
    sections.push(section);
    let reading = ReadingFile {
        format: owned(READING_FORMAT),
        version: READING_FORMAT_VERSION,
        reading_id: request.reading_id,
        revision: request.revision,
        parents: request.parents,
        author: request.author,
        source: request.source,
        sections,
        attachments: request.attachments,
        extensions: request.extensions,
    };
    assert(reading.sections@.take(asked.additional_sections@.len() as int)
        =~= asked.additional_sections@);
    assert(is_export(reading, asked, value));
    match reading.validate() {
        Ok(()) => {},
        Err(error) => {
            assert(departure_fault(reading, written.decoded) == Some(
                WorkflowFault::InvalidReading(error),
            ));
            return Err(ReadingWorkflowRefusal::InvalidReading(error));
        },
    }
    let none: Vec<QualifiedEntityId> = Vec::new();
    assert(crate::reading::entity_keys(none@) =~= Seq::<EntityKey>::empty());
    let options = ReadingImportOptions {
        unknown_sections: UnknownSectionPolicy::PreserveOpaque,
        require_entity_section: true,
    };
    match plan_reading_import(&reading, &written.decoded, None, &none, options) {
        Ok(_) => Ok(reading),
        Err(refusal) => {
            assert(departure_fault(reading, written.decoded) == Some(WorkflowFault::Import(refusal@)));
            Err(ReadingWorkflowRefusal::Import(refusal))
        },
    }
}

/// A reading that left, with its bytes and the identity of its manifest.
#[derive(Debug, PartialEq)]
pub struct ExportedReading {
    pub reading: ReadingFile,
    pub encoded: EncodedReading,
}

impl ExportedReading {
    /// What the decoder is to check: the bytes, and the digest of the manifest that
    /// they must have.
    pub fn check(&self) -> (r: (&Vec<u8>, PortableDigest))
        ensures
            *r.0 == self.encoded.bytes,
            r.1 == self.encoded.manifest_digest,
    {
        (&self.encoded.bytes, self.encoded.manifest_digest)
    }

    /// The reading that the decoder found in the bytes, or why it refused them.
    pub fn verify(&self, decoded: Result<ReadingFile, ReadingCodecError>) -> (r: Result<
        ReadingFile,
        ReadingCodecError,
    >)
        ensures
            r == decoded,
    {
        decoded
    }
}

/// The outcome of an export whose reading was assembled, or not, and then encoded.
pub open spec fn departed(
    r: Result<ExportedReading, ReadingWorkflowRefusal>,
    assembly: Result<ReadingFile, WorkflowFault>,
    encoded: Result<EncodedReading, ReadingCodecError>,
) -> bool {
    match assembly {
        Err(fault) => r matches Err(refusal) && refusal@ == fault,
        Ok(reading) => match encoded {
            Err(error) => r == Err::<ExportedReading, ReadingWorkflowRefusal>(
                ReadingWorkflowRefusal::Codec(error),
            ),
            Ok(encoded) => r == Ok::<ExportedReading, ReadingWorkflowRefusal>(
                ExportedReading { reading, encoded },
            ),
        },
    }
}

/// Lets a reading leave. `encoded` is what the encoder made of the assembled reading;
/// its refusal is the refusal of the export.
pub fn export_reading(
    request: ReadingExportRequest,
    written: WrittenEntities,
    encoded: Result<EncodedReading, ReadingCodecError>,
) -> (r: Result<ExportedReading, ReadingWorkflowRefusal>)
    requires
        written.belongs_to(request),
    ensures
        exists|assembly: Result<ReadingFile, WorkflowFault>|
            #[trigger] assembled(assembly, request, written) && departed(r, assembly, encoded),
{
    let assembly = assemble_export(request, written);
    let ghost outcome = assembly_view(assembly);
    assert(assembled(outcome, request, written));
    let reading = match assembly {
        Ok(reading) => reading,
        Err(refusal) => {
            assert(departed(Err(refusal), outcome, encoded));
            return Err(refusal);
        },
    };
    let ghost reply = encoded;
    match encoded {
        Ok(encoded) => {
            let exported = ExportedReading { reading, encoded };
            assert(departed(Ok(exported), outcome, reply));
            Ok(exported)
        },
        Err(error) => {
            assert(departed(Err(ReadingWorkflowRefusal::Codec(error)), outcome, reply));
            Err(ReadingWorkflowRefusal::Codec(error))
        },
    }
}

// ----- laws ---------------------------------------------------------------

/// A reference into a reading.
pub open spec fn belongs_to(reference: EntityRefKey, reading: ReadingId) -> bool {
    reference matches EntityRefKey::Reading(id) && id.reading == reading
}

/// Geometry that refers to nothing outside a reading and lies within its source.
pub open spec fn is_self_contained(extent: GeometryView, reading: ReadingId, frames: u64) -> bool {
    &&& forall|i: int|
        0 <= i < extent.objects.len() ==> belongs_to(#[trigger] extent.objects[i], reading)
    &&& match signal_reference(extent.signal) {
        Some(reference) => belongs_to(reference, reading),
        None => true,
    }
    &&& forall|i: int|
        0 <= i < extent.regions.len() ==> within_source(#[trigger] extent.regions[i], frames)
}

proof fn lemma_qualified_objects(objects: Seq<EntityRefDto>, reading: ReadingId, n: int)
    requires
        0 <= n <= objects.len(),
        qualified_objects(objects, reading, n) is Ok,
    ensures
        qualified_objects(objects, reading, n)->Ok_0.len() == n,
        forall|i: int|
            0 <= i < n ==> (#[trigger] qualified_objects(objects, reading, n)->Ok_0[i]) is Reading,
    decreases n,
{
    if n > 0 {
        lemma_qualified_objects(objects, reading, n - 1);
    }
}

proof fn lemma_no_foreign_object(objects: Seq<EntityRefKey>, reading: ReadingId, i: int)
    requires
        0 <= i <= objects.len(),
        foreign_object(objects, reading, i) is None,
        forall|k: int| 0 <= k < objects.len() ==> (#[trigger] objects[k]) is Reading,
    ensures
        forall|k: int| i <= k < objects.len() ==> belongs_to(#[trigger] objects[k], reading),
    decreases objects.len() - i,
{
    if i < objects.len() {
        assert(objects[i] is Reading);
        lemma_no_foreign_object(objects, reading, i + 1);
    }
}

proof fn lemma_none_outside(regions: Seq<RegionDto>, frames: u64, i: int)
    requires
        0 <= i <= regions.len(),
        outside_source(regions, frames, i) is None,
    ensures
        forall|k: int| i <= k < regions.len() ==> within_source(#[trigger] regions[k], frames),
    decreases regions.len() - i,
{
    if i < regions.len() {
        lemma_none_outside(regions, frames, i + 1);
    }
}

proof fn lemma_exported_extent(
    extent: AspectGeometryDto,
    frames: u64,
    id: EntityKey,
    reading: ReadingId,
)
    requires
        exported_extent(extent, frames, id, reading) is Ok,
    ensures
        is_self_contained(exported_extent(extent, frames, id, reading)->Ok_0, reading, frames),
{
    let out = exported_extent(extent, frames, id, reading)->Ok_0;
    lemma_qualified_objects(extent.objects@, reading, extent.objects@.len() as int);
    lemma_no_foreign_object(out.objects, reading, 0);
    lemma_none_outside(out.regions, frames, 0);
}

proof fn lemma_exported_records(
    reading: ReadingId,
    frames: u64,
    records: Seq<PortableEntityRecord>,
    n: int,
    k: int,
)
    requires
        0 <= k < n <= records.len(),
        exported_records(reading, frames, records, n) is Ok,
    ensures
        exported_records(reading, frames, records, n)->Ok_0.len() == n,
        exported_record(reading, frames, records, k) == Ok::<RecordView, WorkflowFault>(
            exported_records(reading, frames, records, n)->Ok_0[k],
        ),
    decreases n,
{
    if n == 1 {
        assert(exported_records(reading, frames, records, 0)->Ok_0.len() == 0);
    } else if k < n - 1 {
        lemma_exported_records(reading, frames, records, n - 1, k);
    } else {
        lemma_exported_records(reading, frames, records, n - 1, 0);
    }
}

proof fn lemma_exported_count(
    reading: ReadingId,
    frames: u64,
    records: Seq<PortableEntityRecord>,
    n: int,
)
    requires
        0 <= n <= records.len(),
        exported_records(reading, frames, records, n) is Ok,
    ensures
        exported_records(reading, frames, records, n)->Ok_0.len() == n,
    decreases n,
{
    if n > 0 {
        lemma_exported_count(reading, frames, records, n - 1);
    }
}

/// A reading that is handed out is closed in itself: whatever the geometry of its
/// entities refers to is qualified with that reading, and no region reaches beyond
/// the source.
pub proof fn exported_entities_are_self_contained(request: ReadingExportRequest, k: int)
    requires
        exported_entities(request) is Ok,
        0 <= k < exported_entities(request)->Ok_0.len(),
        exported_entities(request)->Ok_0[k].extent is Some,
    ensures
        is_self_contained(
            exported_entities(request)->Ok_0[k].extent->0,
            request.reading_id,
            request.source.frame_count,
        ),
{
    broadcast use vstd::seq_lib::group_to_multiset_ensures;

    let reading = request.reading_id;
    let frames = request.source.frame_count;
    let records = request.entities@;
    let n = records.len() as int;
    let plain = exported_records(reading, frames, records, n)->Ok_0;
    let out = exported_entities(request)->Ok_0;
    ranked_is_an_ordering(plain);
    lemma_exported_count(reading, frames, records, n);
    assert(out.contains(out[k]));
    assert(out.to_multiset().count(out[k]) > 0);
    assert(plain.contains(out[k]));
    let m = choose|m: int| 0 <= m < plain.len() && plain[m] == out[k];
    lemma_exported_records(reading, frames, records, n, m);
    let record = records[m];
    match record.extent {
        Some(extent) => {
            lemma_exported_extent(extent, frames, record_id(reading, record)@, reading);
        },
        None => {},
    }
}

} // verus!
