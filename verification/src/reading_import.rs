//! Planning the import of a reading without touching project truth.
//!
//! Exact qualified duplicates may be skipped. Equal local numbers minted by
//! different readings never collide.

use vstd::prelude::*;

use crate::json::JsonMember;
use crate::navigation::{
    copy_optional_geometry, in_unit_interval, is_unit_interval, number_eq, optional_geometry,
    same_number, same_optional_geometry, AspectGeometryDto, EntityRefDto, EntityRefKey,
    GeometryView,
};
use crate::query_document::{AuditionTarget, RevealTarget};
use crate::query_terms::{geometry_fault, signal_reference, validate_geometry};
use crate::rank::{ranked, ranked_commutes_with_views, sort_by_rank, HasRank, Ranked};
use crate::reading::{
    entity_keys, holds_entity, replication_tier, section_views, EntityKey, LocalSourceDescriptor,
    QualifiedEntityId, ReadingError, ReadingFile, ReadingId, ReadingSection,
    ReadingVerificationRefusal, RefusalView, ReplicationCheck, SectionView, VerificationTier,
};
use crate::reading_codec::{locate_section, section_fault, ReadingCodecError, SectionFault};
use crate::text::{
    blank, copy_optional_text, is_blank, optional_text, owned, same_optional_text, same_text,
    text_views,
};
use crate::workbench_error::{WorkbenchError, WorkbenchFault};

verus! {

/// The section that holds a reading's entities.
pub const ENTITY_SECTION_NAME: &'static str = "entities";

/// The supported schema of that section.
pub const ENTITY_SECTION_MAJOR: u32 = 1;

/// What an entity is to the reading.
#[derive(Clone, Copy, Debug, PartialEq, Eq, Structural)]
pub enum PortableEntityRole {
    Object,
    Evidence,
    Hypothesis,
    Explanation,
    Comparison,
    Other,
}

/// What a hypothesis says. Support is relative within its group of
/// alternatives, and is kept as the bit pattern of a single-precision number.
#[derive(Debug, PartialEq, Eq)]
pub struct PortableHypothesisSemantics {
    pub support_bits: u32,
    pub description: Option<String>,
}

impl Clone for PortableHypothesisSemantics {
    fn clone(&self) -> (r: Self)
        ensures
            r == *self,
    {
        PortableHypothesisSemantics {
            support_bits: self.support_bits,
            description: copy_optional_text(&self.description),
        }
    }
}

/// What the semantics of a hypothesis hold.
pub struct SemanticsView {
    pub support_bits: u32,
    pub description: Option<Seq<char>>,
}

/// What optional semantics hold.
pub open spec fn semantics_view(semantics: Option<PortableHypothesisSemantics>) -> Option<
    SemanticsView,
> {
    match semantics {
        Some(value) => Some(
            SemanticsView {
                support_bits: value.support_bits,
                description: optional_text(value.description),
            },
        ),
        None => None,
    }
}

/// A copy of optional semantics.
pub fn copy_semantics(semantics: &Option<PortableHypothesisSemantics>) -> (r: Option<
    PortableHypothesisSemantics,
>)
    ensures
        r == *semantics,
{
    match semantics {
        Some(value) => Some(value.clone()),
        None => None,
    }
}

/// Semantics are the same if they give the same support and description.
pub open spec fn semantics_same(left: Option<SemanticsView>, right: Option<SemanticsView>) -> bool {
    match (left, right) {
        (Some(a), Some(b)) => number_eq(a.support_bits, b.support_bits) && a.description
            == b.description,
        (None, None) => true,
        _ => false,
    }
}

/// Whether two optional semantics are the same.
pub fn same_semantics(
    left: &Option<PortableHypothesisSemantics>,
    right: &Option<PortableHypothesisSemantics>,
) -> (r: bool)
    ensures
        r == semantics_same(semantics_view(*left), semantics_view(*right)),
{
    match (left, right) {
        (Some(a), Some(b)) => same_number(a.support_bits, b.support_bits) && same_optional_text(
            &a.description,
            &b.description,
        ),
        (None, None) => true,
        _ => false,
    }
}

/// One entity as a reading records it.
#[derive(Debug, PartialEq)]
pub struct PortableEntityRecord {
    pub kind: String,
    pub local_id: u64,
    pub label: String,
    pub role: PortableEntityRole,
    pub hypothesis: Option<PortableHypothesisSemantics>,
    pub hypothesis_group: Option<String>,
    pub extent: Option<AspectGeometryDto>,
    pub extensions: Vec<JsonMember>,
}

/// The entities of a reading.
#[derive(Debug, PartialEq)]
pub struct PortableEntitySection {
    pub entities: Vec<PortableEntityRecord>,
    pub extensions: Vec<JsonMember>,
}

/// What to do with sections that are not understood.
#[derive(Clone, Copy, Debug, PartialEq, Eq, Structural)]
pub enum UnknownSectionPolicy {
    PreserveOpaque,
    Refuse,
}

/// How to import.
#[derive(Clone, Copy, Debug, PartialEq, Eq, Structural)]
pub struct ReadingImportOptions {
    pub unknown_sections: UnknownSectionPolicy,
    pub require_entity_section: bool,
}

impl Default for ReadingImportOptions {
    fn default() -> (r: Self)
        ensures
            r == (ReadingImportOptions {
                unknown_sections: UnknownSectionPolicy::PreserveOpaque,
                require_entity_section: true,
            }),
    {
        ReadingImportOptions {
            unknown_sections: UnknownSectionPolicy::PreserveOpaque,
            require_entity_section: true,
        }
    }
}

/// What an import does with an entity.
#[derive(Clone, Copy, Debug, PartialEq, Eq, Structural)]
pub enum ImportDisposition {
    AddQualified,
    PreserveCoexistingHypothesis,
    AlreadyPresent,
}

/// One entity of an import plan.
#[derive(Debug, PartialEq)]
pub struct PlannedReadingEntity {
    pub id: QualifiedEntityId,
    pub label: String,
    pub role: PortableEntityRole,
    pub hypothesis: Option<PortableHypothesisSemantics>,
    pub hypothesis_group: Option<String>,
    pub extent: Option<AspectGeometryDto>,
    pub disposition: ImportDisposition,
}

/// What a planned entity holds.
pub struct PlannedView {
    pub id: EntityKey,
    pub label: Seq<char>,
    pub role: PortableEntityRole,
    pub hypothesis: Option<SemanticsView>,
    pub hypothesis_group: Option<Seq<char>>,
    pub extent: Option<GeometryView>,
    pub disposition: ImportDisposition,
}

impl View for PlannedReadingEntity {
    type V = PlannedView;

    open spec fn view(&self) -> PlannedView {
        PlannedView {
            id: self.id@,
            label: self.label@,
            role: self.role,
            hypothesis: semantics_view(self.hypothesis),
            hypothesis_group: optional_text(self.hypothesis_group),
            extent: optional_geometry(self.extent),
            disposition: self.disposition,
        }
    }
}

impl HasRank for PlannedView {
    open spec fn rank(&self) -> Seq<u64> {
        self.id.rank()
    }
}

impl HasRank for PlannedReadingEntity {
    open spec fn rank(&self) -> Seq<u64> {
        self.id.rank()
    }
}

impl Ranked for PlannedReadingEntity {
    fn rank_key(&self) -> (r: Vec<u64>) {
        self.id.rank_key()
    }
}

/// Two planned entities are the same if all their parts are.
pub open spec fn planned_same(a: PlannedView, b: PlannedView) -> bool {
    &&& a.id == b.id
    &&& a.label == b.label
    &&& a.role == b.role
    &&& semantics_same(a.hypothesis, b.hypothesis)
    &&& a.hypothesis_group == b.hypothesis_group
    &&& a.extent == b.extent
    &&& a.disposition == b.disposition
}

/// What a list of planned entities holds.
pub open spec fn planned_views(list: Seq<PlannedReadingEntity>) -> Seq<PlannedView> {
    list.map_values(|e: PlannedReadingEntity| e@)
}

impl PlannedReadingEntity {
    /// A copy of the entity.
    pub fn copy(&self) -> (r: PlannedReadingEntity)
        ensures
            r@ == self@,
            r.id == self.id,
    {
        PlannedReadingEntity {
            id: self.id.clone(),
            label: self.label.clone(),
            role: self.role,
            hypothesis: copy_semantics(&self.hypothesis),
            hypothesis_group: copy_optional_text(&self.hypothesis_group),
            extent: copy_optional_geometry(&self.extent),
            disposition: self.disposition,
        }
    }

    /// Whether two planned entities are the same.
    pub fn same(&self, other: &PlannedReadingEntity) -> (r: bool)
        ensures
            r == planned_same(self@, other@),
    {
        self.id.same(&other.id) && same_text(self.label.as_str(), other.label.as_str())
            && self.role == other.role && same_semantics(&self.hypothesis, &other.hypothesis)
            && same_optional_text(&self.hypothesis_group, &other.hypothesis_group)
            && same_optional_geometry(&self.extent, &other.extent) && self.disposition
            == other.disposition
    }
}

/// A reading together with what the decoder made of its entity section.
#[derive(Debug, PartialEq)]
pub struct DecodedReading {
    pub reading: ReadingFile,
    pub entities: Result<Vec<PortableEntityRecord>, String>,
}

/// What importing a reading would do.
#[derive(Debug, PartialEq)]
pub struct ReadingImportPlan {
    pub reading_id: ReadingId,
    pub reading_revision: u64,
    pub verification: VerificationTier,
    pub entities: Vec<PlannedReadingEntity>,
    /// Names of the sections that were not understood.
    pub opaque_sections: Vec<String>,
    /// Those sections, as they were.
    pub preserved_sections: Vec<ReadingSection>,
}

/// What an import plan holds.
pub struct PlanView {
    pub reading_id: ReadingId,
    pub reading_revision: u64,
    pub verification: VerificationTier,
    pub entities: Seq<PlannedView>,
    pub opaque_sections: Seq<Seq<char>>,
    pub preserved_sections: Seq<SectionView>,
}

impl View for ReadingImportPlan {
    type V = PlanView;

    open spec fn view(&self) -> PlanView {
        PlanView {
            reading_id: self.reading_id,
            reading_revision: self.reading_revision,
            verification: self.verification,
            entities: planned_views(self.entities@),
            opaque_sections: text_views(self.opaque_sections@),
            preserved_sections: section_views(self.preserved_sections@),
        }
    }
}

/// Why an import is refused.
#[derive(Debug, PartialEq)]
pub enum ReadingImportRefusal {
    InvalidReading(ReadingError),
    SourceVerification(ReadingVerificationRefusal),
    MissingSection(String),
    UnknownSection(String),
    Codec(ReadingCodecError),
    DuplicateEntity(QualifiedEntityId),
    BlankEntityLabel(QualifiedEntityId),
    InvalidHypothesis(QualifiedEntityId),
    ForeignReadingIdentity(QualifiedEntityId),
    InvalidGeometry(ReadingError),
    Workbench(WorkbenchError),
}

/// What a refusal of the section codec says.
pub enum CodecView {
    Json(Seq<char>),
    Invalid(ReadingError),
    MissingSection(Seq<char>),
    UnsupportedSection { name: Seq<char>, major: u32 },
    SectionJson { name: Seq<char>, message: Seq<char> },
    OpaquePayloadCannotBePatched(Seq<char>),
    TypedPayloadMustBeObject(Seq<char>),
}

impl View for ReadingCodecError {
    type V = CodecView;

    open spec fn view(&self) -> CodecView {
        match *self {
            ReadingCodecError::Json(text) => CodecView::Json(text@),
            ReadingCodecError::Invalid(error) => CodecView::Invalid(error),
            ReadingCodecError::MissingSection(name) => CodecView::MissingSection(name@),
            ReadingCodecError::UnsupportedSection {
                name,
                major,
            } => CodecView::UnsupportedSection { name: name@, major },
            ReadingCodecError::SectionJson { name, message } => CodecView::SectionJson {
                name: name@,
                message: message@,
            },
            ReadingCodecError::OpaquePayloadCannotBePatched(
                name,
            ) => CodecView::OpaquePayloadCannotBePatched(name@),
            ReadingCodecError::TypedPayloadMustBeObject(
                name,
            ) => CodecView::TypedPayloadMustBeObject(name@),
        }
    }
}

/// What a refusal of an import says.
pub enum ImportFault {
    InvalidReading(ReadingError),
    SourceVerification(RefusalView),
    MissingSection(Seq<char>),
    UnknownSection(Seq<char>),
    Codec(CodecView),
    DuplicateEntity(EntityKey),
    BlankEntityLabel(EntityKey),
    InvalidHypothesis(EntityKey),
    ForeignReadingIdentity(EntityKey),
    InvalidGeometry(ReadingError),
    Workbench(WorkbenchFault),
}

impl View for ReadingImportRefusal {
    type V = ImportFault;

    open spec fn view(&self) -> ImportFault {
        match *self {
            ReadingImportRefusal::InvalidReading(error) => ImportFault::InvalidReading(error),
            ReadingImportRefusal::SourceVerification(
                refusal,
            ) => ImportFault::SourceVerification(refusal@),
            ReadingImportRefusal::MissingSection(name) => ImportFault::MissingSection(name@),
            ReadingImportRefusal::UnknownSection(name) => ImportFault::UnknownSection(name@),
            ReadingImportRefusal::Codec(error) => ImportFault::Codec(error@),
            ReadingImportRefusal::DuplicateEntity(id) => ImportFault::DuplicateEntity(id@),
            ReadingImportRefusal::BlankEntityLabel(id) => ImportFault::BlankEntityLabel(id@),
            ReadingImportRefusal::InvalidHypothesis(id) => ImportFault::InvalidHypothesis(id@),
            ReadingImportRefusal::ForeignReadingIdentity(
                id,
            ) => ImportFault::ForeignReadingIdentity(id@),
            ReadingImportRefusal::InvalidGeometry(error) => ImportFault::InvalidGeometry(error),
            ReadingImportRefusal::Workbench(error) => ImportFault::Workbench(error@),
        }
    }
}

// ----- geometry of a record ---------------------------------------------

/// The first reference from index `i` on into another reading.
pub open spec fn foreign_object(objects: Seq<EntityRefKey>, reading: ReadingId, i: int) -> Option<
    EntityKey,
>
    decreases objects.len() - i,
{
    if i < 0 || i >= objects.len() {
        None
    } else {
        match objects[i] {
            EntityRefKey::Reading(id) => if id.reading != reading {
                Some(id)
            } else {
                foreign_object(objects, reading, i + 1)
            },
            EntityRefKey::Project { .. } => foreign_object(objects, reading, i + 1),
        }
    }
}

/// The first reference of geometry into another reading.
pub open spec fn foreign_reference(geometry: GeometryView, reading: ReadingId) -> Option<EntityKey> {
    match foreign_object(geometry.objects, reading, 0) {
        Some(id) => Some(id),
        None => match signal_reference(geometry.signal) {
            Some(EntityRefKey::Reading(id)) => if id.reading != reading {
                Some(id)
            } else {
                None
            },
            _ => None,
        },
    }
}

/// Finds the first reference of geometry into another reading.
pub fn find_foreign_reference(geometry: &AspectGeometryDto, reading: &ReadingId) -> (r: Option<
    QualifiedEntityId,
>)
    ensures
        match r {
            Some(id) => foreign_reference(geometry@, *reading) == Some(id@),
            None => foreign_reference(geometry@, *reading) is None,
        },
{
    let mut i: usize = 0;
    while i < geometry.objects.len()
        invariant
            i <= geometry.objects.len(),
            foreign_object(geometry@.objects, *reading, 0) == foreign_object(
                geometry@.objects,
                *reading,
                i as int,
            ),
        decreases geometry.objects.len() - i,
    {
        assert(geometry@.objects[i as int] == geometry.objects@[i as int]@);
        match &geometry.objects[i] {
            EntityRefDto::Reading(id) => {
                if !id.reading.same(reading) {
                    return Some(id.clone());
                }
            },
            EntityRefDto::Project { .. } => {},
        }
        i = i + 1;
    }
    match geometry.signal.reference() {
        Some(EntityRefDto::Reading(id)) => {
            if !id.reading.same(reading) {
                Some(id.clone())
            } else {
                None
            }
        },
        _ => None,
    }
}

/// What geometry becomes when it is imported from a reading.
pub open spec fn imported_geometry(geometry: AspectGeometryDto, reading: ReadingId) -> Result<
    GeometryView,
    ImportFault,
> {
    match geometry_fault(geometry@) {
        Some(fault) => Err(ImportFault::Workbench(fault)),
        None => match foreign_reference(geometry@, reading) {
            Some(id) => Err(ImportFault::ForeignReadingIdentity(id)),
            None => match geometry.qualified(reading) {
                Ok(view) => Ok(view),
                Err(error) => Err(ImportFault::InvalidGeometry(error)),
            },
        },
    }
}

fn qualify_geometry(geometry: AspectGeometryDto, reading: ReadingId) -> (r: Result<
    AspectGeometryDto,
    ReadingImportRefusal,
>)
    ensures
        match r {
            Ok(qualified) => imported_geometry(geometry, reading) == Ok::<
                GeometryView,
                ImportFault,
            >(qualified@),
            Err(refusal) => imported_geometry(geometry, reading) == Err::<
                GeometryView,
                ImportFault,
            >(refusal@),
        },
{
    match validate_geometry(&geometry) {
        Ok(()) => {},
        Err(error) => {
            return Err(ReadingImportRefusal::Workbench(error));
        },
    }
    match find_foreign_reference(&geometry, &reading) {
        Some(id) => {
            return Err(ReadingImportRefusal::ForeignReadingIdentity(id));
        },
        None => {},
    }
    match geometry.qualify_project_ids(reading) {
        Ok(qualified) => Ok(qualified),
        Err(error) => Err(ReadingImportRefusal::InvalidGeometry(error)),
    }
}

// ----- records ----------------------------------------------------------

/// Semantics belong to hypotheses only, with support from zero to one and no
/// blank description.
pub open spec fn semantics_fit(
    role: PortableEntityRole,
    semantics: Option<PortableHypothesisSemantics>,
) -> bool {
    match semantics {
        None => true,
        Some(value) => {
            &&& role == PortableEntityRole::Hypothesis
            &&& is_unit_interval(value.support_bits)
            &&& match value.description {
                Some(description) => !is_blank(description@),
                None => true,
            }
        },
    }
}

/// Whether semantics fit a role.
pub fn check_semantics(
    role: PortableEntityRole,
    semantics: &Option<PortableHypothesisSemantics>,
) -> (r: bool)
    ensures
        r == semantics_fit(role, *semantics),
{
    match semantics {
        None => true,
        Some(value) => {
            let described = match &value.description {
                Some(description) => !blank(description.as_str()),
                None => true,
            };
            role == PortableEntityRole::Hypothesis && in_unit_interval(value.support_bits)
                && described
        },
    }
}

/// The identity of a record within its reading.
pub open spec fn record_id(reading: ReadingId, record: PortableEntityRecord) -> QualifiedEntityId {
    QualifiedEntityId { reading, kind: record.kind, local_id: record.local_id }
}

/// Whether an earlier record has the identity of record `i`.
pub open spec fn repeats_record(
    reading: ReadingId,
    records: Seq<PortableEntityRecord>,
    i: int,
) -> bool {
    exists|j: int|
        0 <= j < i && (#[trigger] record_id(reading, records[j]))@ == record_id(
            reading,
            records[i],
        )@
}

/// What an import does with a record.
pub open spec fn disposition_of(
    existing: Seq<EntityKey>,
    id: EntityKey,
    role: PortableEntityRole,
) -> ImportDisposition {
    if existing.contains(id) {
        ImportDisposition::AlreadyPresent
    } else if role == PortableEntityRole::Hypothesis {
        ImportDisposition::PreserveCoexistingHypothesis
    } else {
        ImportDisposition::AddQualified
    }
}

/// What record `i` becomes in the plan, or why it is refused.
pub open spec fn planned_record(
    reading: ReadingId,
    records: Seq<PortableEntityRecord>,
    existing: Seq<EntityKey>,
    i: int,
) -> Result<PlannedView, ImportFault> {
    let record = records[i];
    let id = record_id(reading, record);
    if !id.is_valid() {
        Err(ImportFault::InvalidReading(ReadingError::InvalidQualifiedId(id)))
    } else if repeats_record(reading, records, i) {
        Err(ImportFault::DuplicateEntity(id@))
    } else if is_blank(record.label@) {
        Err(ImportFault::BlankEntityLabel(id@))
    } else if !semantics_fit(record.role, record.hypothesis) {
        Err(ImportFault::InvalidHypothesis(id@))
    } else {
        let plain = PlannedView {
            id: id@,
            label: record.label@,
            role: record.role,
            hypothesis: semantics_view(record.hypothesis),
            hypothesis_group: optional_text(record.hypothesis_group),
            extent: None,
            disposition: disposition_of(existing, id@, record.role),
        };
        match record.extent {
            None => Ok(plain),
            Some(extent) => match imported_geometry(extent, reading) {
                Err(fault) => Err(fault),
                Ok(geometry) => Ok(PlannedView { extent: Some(geometry), ..plain }),
            },
        }
    }
}

/// What the first `i` records become, or the first refusal.
pub open spec fn planned_records(
    reading: ReadingId,
    records: Seq<PortableEntityRecord>,
    existing: Seq<EntityKey>,
    i: int,
) -> Result<Seq<PlannedView>, ImportFault>
    decreases i,
{
    if i <= 0 {
        Ok(Seq::empty())
    } else {
        match planned_records(reading, records, existing, i - 1) {
            Err(fault) => Err(fault),
            Ok(done) => match planned_record(reading, records, existing, i - 1) {
                Err(fault) => Err(fault),
                Ok(entity) => Ok(done.push(entity)),
            },
        }
    }
}

proof fn lemma_planned_error(
    reading: ReadingId,
    records: Seq<PortableEntityRecord>,
    existing: Seq<EntityKey>,
    i: int,
    j: int,
)
    requires
        0 <= i <= j,
        planned_records(reading, records, existing, i) is Err,
    ensures
        planned_records(reading, records, existing, j) == planned_records(
            reading,
            records,
            existing,
            i,
        ),
    decreases j - i,
{
    if i < j {
        lemma_planned_error(reading, records, existing, i, j - 1);
    }
}

fn repeated(reading: &ReadingId, records: &Vec<PortableEntityRecord>, i: usize) -> (r: bool)
    requires
        i < records.len(),
    ensures
        r == repeats_record(*reading, records@, i as int),
{
    let mut j: usize = 0;
    while j < i
        invariant
            j <= i < records.len(),
            forall|k: int|
                0 <= k < j ==> (#[trigger] record_id(*reading, records@[k]))@ != record_id(
                    *reading,
                    records@[i as int],
                )@,
        decreases i - j,
    {
        if records[j].local_id == records[i].local_id && same_text(
            records[j].kind.as_str(),
            records[i].kind.as_str(),
        ) {
            assert(record_id(*reading, records@[j as int])@ == record_id(
                *reading,
                records@[i as int],
            )@);
            return true;
        }
        assert(record_id(*reading, records@[j as int])@ != record_id(
            *reading,
            records@[i as int],
        )@);
        j = j + 1;
    }
    false
}

fn plan_record(
    reading: &ReadingId,
    records: &Vec<PortableEntityRecord>,
    existing: &Vec<QualifiedEntityId>,
    i: usize,
) -> (r: Result<PlannedReadingEntity, ReadingImportRefusal>)
    requires
        i < records.len(),
    ensures
        match r {
            Ok(entity) => planned_record(
                *reading,
                records@,
                entity_keys(existing@),
                i as int,
            ) == Ok::<PlannedView, ImportFault>(entity@),
            Err(refusal) => planned_record(
                *reading,
                records@,
                entity_keys(existing@),
                i as int,
            ) == Err::<PlannedView, ImportFault>(refusal@),
        },
{
    let record = &records[i];
    let id = match QualifiedEntityId::new(*reading, record.kind.clone(), record.local_id) {
        Ok(id) => id,
        Err(error) => {
            return Err(ReadingImportRefusal::InvalidReading(error));
        },
    };
    assert(id == record_id(*reading, *record));
    if repeated(reading, records, i) {
        return Err(ReadingImportRefusal::DuplicateEntity(id));
    }
    if blank(record.label.as_str()) {
        return Err(ReadingImportRefusal::BlankEntityLabel(id));
    }
    if !check_semantics(record.role, &record.hypothesis) {
        return Err(ReadingImportRefusal::InvalidHypothesis(id));
    }
    let extent = match &record.extent {
        None => None,
        Some(extent) => match qualify_geometry_copy(extent, *reading) {
            Ok(geometry) => Some(geometry),
            Err(refusal) => {
                return Err(refusal);
            },
        },
    };
    let disposition = if holds_entity(existing, &id) {
        ImportDisposition::AlreadyPresent
    } else if record.role == PortableEntityRole::Hypothesis {
        ImportDisposition::PreserveCoexistingHypothesis
    } else {
        ImportDisposition::AddQualified
    };
    Ok(
        PlannedReadingEntity {
            id,
            label: record.label.clone(),
            role: record.role,
            hypothesis: copy_semantics(&record.hypothesis),
            hypothesis_group: copy_optional_text(&record.hypothesis_group),
            extent,
            disposition,
        },
    )
}

fn qualify_geometry_copy(geometry: &AspectGeometryDto, reading: ReadingId) -> (r: Result<
    AspectGeometryDto,
    ReadingImportRefusal,
>)
    ensures
        match r {
            Ok(qualified) => imported_geometry(*geometry, reading) == Ok::<
                GeometryView,
                ImportFault,
            >(qualified@),
            Err(refusal) => imported_geometry(*geometry, reading) == Err::<
                GeometryView,
                ImportFault,
            >(refusal@),
        },
{
    let copy = geometry.copy();
    assert(imported_geometry(copy, reading) == imported_geometry(*geometry, reading));
    qualify_geometry(copy, reading)
}

// ----- the plan ---------------------------------------------------------

/// The names of all sections but the entity section.
pub open spec fn opaque_names(sections: Seq<ReadingSection>) -> Seq<Seq<char>>
    decreases sections.len(),
{
    if sections.len() == 0 {
        Seq::empty()
    } else if sections.last().name@ == ENTITY_SECTION_NAME@ {
        opaque_names(sections.drop_last())
    } else {
        opaque_names(sections.drop_last()).push(sections.last().name@)
    }
}

/// All sections but the entity section.
pub open spec fn opaque_sections(sections: Seq<ReadingSection>) -> Seq<SectionView>
    decreases sections.len(),
{
    if sections.len() == 0 {
        Seq::empty()
    } else if sections.last().name@ == ENTITY_SECTION_NAME@ {
        opaque_sections(sections.drop_last())
    } else {
        opaque_sections(sections.drop_last()).push(sections.last()@)
    }
}

fn collect_opaque(sections: &Vec<ReadingSection>) -> (r: (Vec<String>, Vec<ReadingSection>))
    ensures
        text_views(r.0@) == opaque_names(sections@),
        section_views(r.1@) == opaque_sections(sections@),
{
    let mut names: Vec<String> = Vec::new();
    let mut kept: Vec<ReadingSection> = Vec::new();
    let mut i: usize = 0;
    assert(sections@.take(0) =~= Seq::<ReadingSection>::empty());
    assert(text_views(names@) =~= Seq::<Seq<char>>::empty());
    assert(section_views(kept@) =~= Seq::<SectionView>::empty());
    while i < sections.len()
        invariant
            i <= sections.len(),
            text_views(names@) == opaque_names(sections@.take(i as int)),
            section_views(kept@) == opaque_sections(sections@.take(i as int)),
        decreases sections.len() - i,
    {
        let ghost before = (text_views(names@), section_views(kept@));
        let section = &sections[i];
        proof {
            assert(sections@.take(i as int + 1).drop_last() =~= sections@.take(i as int));
            assert(sections@.take(i as int + 1).last() == *section);
        }
        if !same_text(section.name.as_str(), ENTITY_SECTION_NAME) {
            let name = section.name.clone();
            let copy = section.copy();
            names.push(name);
            kept.push(copy);
            assert(text_views(names@) =~= before.0.push(name@));
            assert(section_views(kept@) =~= before.1.push(copy@));
        }
        i = i + 1;
    }
    assert(sections@.take(i as int) =~= sections@);
    (names, kept)
}

/// The records to plan with, or why there are none.
pub open spec fn records_for_import(
    reading: ReadingFile,
    decoded: Result<Vec<PortableEntityRecord>, String>,
    options: ReadingImportOptions,
) -> Result<Seq<PortableEntityRecord>, ImportFault> {
    match section_fault(reading, ENTITY_SECTION_NAME@, ENTITY_SECTION_MAJOR) {
        None => match decoded {
            Ok(records) => Ok(records@),
            Err(message) => Err(
                ImportFault::Codec(
                    CodecView::SectionJson { name: ENTITY_SECTION_NAME@, message: message@ },
                ),
            ),
        },
        Some(SectionFault::Unsupported { major }) => Err(
            ImportFault::Codec(
                CodecView::UnsupportedSection { name: ENTITY_SECTION_NAME@, major },
            ),
        ),
        Some(SectionFault::Missing) => if options.require_entity_section {
            Err(ImportFault::MissingSection(ENTITY_SECTION_NAME@))
        } else {
            Ok(Seq::empty())
        },
    }
}

/// The plan for a reading, given what the decoder made of its entity section, or
/// the first refusal.
pub open spec fn import_plan(
    reading: ReadingFile,
    decoded: Result<Vec<PortableEntityRecord>, String>,
    local: Option<LocalSourceDescriptor>,
    existing: Seq<EntityKey>,
    options: ReadingImportOptions,
) -> Result<PlanView, ImportFault> {
    let opaque = ranked(opaque_names(reading.sections@));
    match reading.fault() {
        Some(error) => Err(ImportFault::InvalidReading(error)),
        None => match reading.source_check(local) {
            Err(refusal) => Err(ImportFault::SourceVerification(refusal)),
            Ok(verification) => if options.unknown_sections == UnknownSectionPolicy::Refuse
                && opaque.len() > 0 {
                Err(ImportFault::UnknownSection(opaque[0]))
            } else {
                match records_for_import(reading, decoded, options) {
                    Err(fault) => Err(fault),
                    Ok(records) => match planned_records(
                        reading.reading_id,
                        records,
                        existing,
                        records.len() as int,
                    ) {
                        Err(fault) => Err(fault),
                        Ok(entities) => Ok(
                            PlanView {
                                reading_id: reading.reading_id,
                                reading_revision: reading.revision,
                                verification,
                                entities: ranked(entities),
                                opaque_sections: opaque,
                                preserved_sections: opaque_sections(reading.sections@),
                            },
                        ),
                    },
                }
            },
        },
    }
}

fn plan_records(
    reading: &ReadingId,
    records: &Vec<PortableEntityRecord>,
    existing: &Vec<QualifiedEntityId>,
) -> (r: Result<Vec<PlannedReadingEntity>, ReadingImportRefusal>)
    ensures
        match r {
            Ok(list) => planned_records(
                *reading,
                records@,
                entity_keys(existing@),
                records@.len() as int,
            ) == Ok::<Seq<PlannedView>, ImportFault>(planned_views(list@)),
            Err(refusal) => planned_records(
                *reading,
                records@,
                entity_keys(existing@),
                records@.len() as int,
            ) == Err::<Seq<PlannedView>, ImportFault>(refusal@),
        },
{
    let mut entities: Vec<PlannedReadingEntity> = Vec::new();
    let mut i: usize = 0;
    assert(planned_views(entities@) =~= Seq::<PlannedView>::empty());
    while i < records.len()
        invariant
            i <= records.len(),
            planned_records(*reading, records@, entity_keys(existing@), i as int) == Ok::<
                Seq<PlannedView>,
                ImportFault,
            >(planned_views(entities@)),
        decreases records.len() - i,
    {
        match plan_record(reading, records, existing, i) {
            Ok(entity) => {
                let ghost before = planned_views(entities@);
                entities.push(entity);
                assert(planned_views(entities@) =~= before.push(entity@));
            },
            Err(refusal) => {
                proof {
                    lemma_planned_error(
                        *reading,
                        records@,
                        entity_keys(existing@),
                        i as int + 1,
                        records@.len() as int,
                    );
                }
                return Err(refusal);
            },
        }
        i = i + 1;
    }
    Ok(entities)
}

/// Verifies and inventories a reading without changing project truth, given what
/// the decoder made of its entity section.
pub fn plan_reading_import(
    reading: &ReadingFile,
    decoded: &Result<Vec<PortableEntityRecord>, String>,
    local_source: Option<&LocalSourceDescriptor>,
    existing: &Vec<QualifiedEntityId>,
    options: ReadingImportOptions,
) -> (r: Result<ReadingImportPlan, ReadingImportRefusal>)
    ensures
        ({
            let local = match local_source {
                Some(l) => Some(*l),
                None => None,
            };
            let expected = import_plan(
                *reading,
                *decoded,
                local,
                entity_keys(existing@),
                options,
            );
            match r {
                Ok(plan) => expected == Ok::<PlanView, ImportFault>(plan@),
                Err(refusal) => expected == Err::<PlanView, ImportFault>(refusal@),
            }
        }),
{
    match reading.validate() {
        Ok(()) => {},
        Err(error) => {
            return Err(ReadingImportRefusal::InvalidReading(error));
        },
    }
    let verification = match reading.verify_source(local_source) {
        Ok(tier) => tier,
        Err(refusal) => {
            return Err(ReadingImportRefusal::SourceVerification(refusal));
        },
    };
    let (names, preserved_sections) = collect_opaque(&reading.sections);
    let ghost unsorted = names@;
    let opaque_sections = sort_by_rank(names);
    proof {
        ranked_commutes_with_views(unsorted, |s: String| s@);
    }
    if options.unknown_sections == UnknownSectionPolicy::Refuse && opaque_sections.len() > 0 {
        assert(text_views(opaque_sections@)[0] == opaque_sections@[0]@);
        return Err(ReadingImportRefusal::UnknownSection(opaque_sections[0].clone()));
    }
    let no_records: Vec<PortableEntityRecord> = Vec::new();
    let records = match locate_section(reading, ENTITY_SECTION_NAME, ENTITY_SECTION_MAJOR) {
        Ok(_) => match decoded {
            Ok(records) => records,
            Err(message) => {
                return Err(
                    ReadingImportRefusal::Codec(
                        ReadingCodecError::SectionJson {
                            name: owned(ENTITY_SECTION_NAME),
                            message: message.clone(),
                        },
                    ),
                );
            },
        },
        Err(ReadingCodecError::MissingSection(name)) => {
            if options.require_entity_section {
                return Err(ReadingImportRefusal::MissingSection(name));
            }
            &no_records
        },
        Err(error) => {
            return Err(ReadingImportRefusal::Codec(error));
        },
    };
    assert(no_records@ =~= Seq::<PortableEntityRecord>::empty());
    let entities = match plan_records(&reading.reading_id, records, existing) {
        Ok(entities) => entities,
        Err(refusal) => {
            return Err(refusal);
        },
    };
    proof {
        ranked_commutes_with_views(entities@, |e: PlannedReadingEntity| e@);
    }
    let entities = sort_by_rank(entities);
    Ok(
        ReadingImportPlan {
            reading_id: reading.reading_id,
            reading_revision: reading.revision,
            verification,
            entities,
            opaque_sections,
            preserved_sections,
        },
    )
}

// ----- actions on a plan ------------------------------------------------

/// Why an action on a planned entity is refused.
#[derive(Debug, PartialEq, Eq)]
pub enum ReadingActionRefusal {
    SourceUnavailable,
    UnknownEntity(QualifiedEntityId),
    MissingExtent(QualifiedEntityId),
}

/// The index of the first planned entity with an identity, from `i` on.
pub open spec fn planned_index(entities: Seq<PlannedReadingEntity>, id: EntityKey, i: int) -> Option<
    int,
>
    decreases entities.len() - i,
{
    if i < 0 || i >= entities.len() {
        None
    } else if entities[i].id@ == id {
        Some(i)
    } else {
        planned_index(entities, id, i + 1)
    }
}

impl ReadingImportPlan {
    /// Raises the verification to replicated when the checks allow it.
    pub fn record_replication(&mut self, checks: &Vec<ReplicationCheck>) -> (r: Result<
        (),
        ReadingVerificationRefusal,
    >)
        ensures
            final(self).reading_id == old(self).reading_id,
            final(self).reading_revision == old(self).reading_revision,
            final(self).entities == old(self).entities,
            final(self).opaque_sections == old(self).opaque_sections,
            final(self).preserved_sections == old(self).preserved_sections,
            match r {
                Ok(_) => old(self).verification == VerificationTier::SourceMatched && checks@.len()
                    > 0 && crate::reading::first_mismatch(checks@, 0) is None && final(
                    self).verification == VerificationTier::Replicated,
                Err(refusal) => final(self).verification == old(self).verification && refusal
                    == if old(self).verification != VerificationTier::SourceMatched {
                    ReadingVerificationRefusal::SourceNotMatched
                } else if checks@.len() == 0 {
                    ReadingVerificationRefusal::NoReplicationChecks
                } else {
                    ReadingVerificationRefusal::ReplicationMismatch(
                        crate::reading::first_mismatch(checks@, 0)->0,
                    )
                },
            },
    {
        match replication_tier(self.verification, checks) {
            Ok(tier) => {
                self.verification = tier;
                Ok(())
            },
            Err(refusal) => Err(refusal),
        }
    }

    fn entity(&self, id: &QualifiedEntityId) -> (r: Result<usize, ReadingActionRefusal>)
        ensures
            match planned_index(self.entities@, id@, 0) {
                Some(i) => r matches Ok(k) && k == i && k < self.entities@.len(),
                None => r == Err::<usize, ReadingActionRefusal>(
                    ReadingActionRefusal::UnknownEntity(*id),
                ),
            },
    {
        let mut i: usize = 0;
        while i < self.entities.len()
            invariant
                i <= self.entities.len(),
                planned_index(self.entities@, id@, 0) == planned_index(
                    self.entities@,
                    id@,
                    i as int,
                ),
            decreases self.entities.len() - i,
        {
            if self.entities[i].id.same(id) {
                return Ok(i);
            }
            i = i + 1;
        }
        Err(ReadingActionRefusal::UnknownEntity(id.clone()))
    }

    /// What revealing an entity of the plan comes to.
    pub open spec fn reveals(
        &self,
        id: QualifiedEntityId,
        outcome: Result<RevealTarget, ReadingActionRefusal>,
    ) -> bool {
        match planned_index(self.entities@, id@, 0) {
            None => outcome == Err::<RevealTarget, ReadingActionRefusal>(
                ReadingActionRefusal::UnknownEntity(id),
            ),
            Some(i) => outcome matches Ok(target) && target.entity == EntityRefDto::Reading(
                self.entities@[i].id,
            ) && optional_geometry(target.extent) == optional_geometry(
                self.entities@[i].extent,
            ),
        }
    }

    /// A planned entity, to reveal. No source is needed.
    pub fn reveal_target(&self, id: &QualifiedEntityId) -> (r: Result<
        RevealTarget,
        ReadingActionRefusal,
    >)
        ensures
            self.reveals(*id, r),
    {
        match self.entity(id) {
            Err(refusal) => Err(refusal),
            Ok(i) => Ok(
                RevealTarget {
                    entity: EntityRefDto::Reading(self.entities[i].id.clone()),
                    extent: copy_optional_geometry(&self.entities[i].extent),
                },
            ),
        }
    }

    /// What hearing an entity of the plan comes to.
    pub open spec fn auditions(
        &self,
        id: QualifiedEntityId,
        outcome: Result<AuditionTarget, ReadingActionRefusal>,
    ) -> bool {
        if self.verification == VerificationTier::GraphOnly {
            outcome == Err::<AuditionTarget, ReadingActionRefusal>(
                ReadingActionRefusal::SourceUnavailable,
            )
        } else {
            match planned_index(self.entities@, id@, 0) {
                None => outcome == Err::<AuditionTarget, ReadingActionRefusal>(
                    ReadingActionRefusal::UnknownEntity(id),
                ),
                Some(i) => match self.entities@[i].extent {
                    None => outcome == Err::<AuditionTarget, ReadingActionRefusal>(
                        ReadingActionRefusal::MissingExtent(self.entities@[i].id),
                    ),
                    Some(extent) => outcome matches Ok(target) && target.entity
                        == EntityRefDto::Reading(self.entities@[i].id) && target.extent@
                        == extent@,
                },
            }
        }
    }

    /// A planned entity, to audition. Needs a matched source and an extent.
    pub fn audition_target(&self, id: &QualifiedEntityId) -> (r: Result<
        AuditionTarget,
        ReadingActionRefusal,
    >)
        ensures
            self.auditions(*id, r),
    {
        if self.verification == VerificationTier::GraphOnly {
            return Err(ReadingActionRefusal::SourceUnavailable);
        }
        match self.entity(id) {
            Err(refusal) => Err(refusal),
            Ok(i) => match &self.entities[i].extent {
                None => Err(ReadingActionRefusal::MissingExtent(self.entities[i].id.clone())),
                Some(extent) => Ok(
                    AuditionTarget {
                        entity: EntityRefDto::Reading(self.entities[i].id.clone()),
                        extent: extent.copy(),
                    },
                ),
            },
        }
    }
}

// ----- laws -------------------------------------------------------------

proof fn lemma_planned_ids(
    reading: ReadingId,
    records: Seq<PortableEntityRecord>,
    existing: Seq<EntityKey>,
    i: int,
    k: int,
)
    requires
        0 <= k < i <= records.len(),
        planned_records(reading, records, existing, i) is Ok,
    ensures
        ({
            let list = planned_records(reading, records, existing, i)->Ok_0;
            &&& list.len() == i
            &&& list[k].id == record_id(reading, records[k])@
            &&& planned_record(reading, records, existing, k) == Ok::<PlannedView, ImportFault>(
                list[k],
            )
        }),
    decreases i,
{
    if i > 0 {
        let earlier = planned_records(reading, records, existing, i - 1);
        lemma_planned_len(reading, records, existing, i - 1);
        if k < i - 1 {
            lemma_planned_ids(reading, records, existing, i - 1, k);
        }
    }
}

proof fn lemma_planned_len(
    reading: ReadingId,
    records: Seq<PortableEntityRecord>,
    existing: Seq<EntityKey>,
    i: int,
)
    requires
        0 <= i,
        planned_records(reading, records, existing, i) is Ok,
    ensures
        planned_records(reading, records, existing, i)->Ok_0.len() == i,
    decreases i,
{
    if i > 0 {
        lemma_planned_len(reading, records, existing, i - 1);
    }
}

/// Every entity of a plan is qualified by the reading it was planned from, so
/// the plans of two different readings share no identity, whatever their local
/// numbers.
pub proof fn plans_of_different_readings_never_collide(
    left: ReadingId,
    left_records: Seq<PortableEntityRecord>,
    left_existing: Seq<EntityKey>,
    right: ReadingId,
    right_records: Seq<PortableEntityRecord>,
    right_existing: Seq<EntityKey>,
    i: int,
    j: int,
)
    requires
        left != right,
        planned_records(left, left_records, left_existing, left_records.len() as int) is Ok,
        planned_records(right, right_records, right_existing, right_records.len() as int) is Ok,
        0 <= i < left_records.len(),
        0 <= j < right_records.len(),
    ensures
        ({
            let a = planned_records(left, left_records, left_existing, left_records.len() as int)->Ok_0;
            let b = planned_records(right, right_records, right_existing, right_records.len() as int)->Ok_0;
            &&& a[i].id.reading == left
            &&& b[j].id.reading == right
            &&& a[i].id != b[j].id
        }),
{
    lemma_planned_ids(left, left_records, left_existing, left_records.len() as int, i);
    lemma_planned_ids(right, right_records, right_existing, right_records.len() as int, j);
}

/// Every entity of a plan is qualified by the reading of the plan.
pub proof fn every_planned_entity_is_qualified(
    reading: ReadingFile,
    decoded: Result<Vec<PortableEntityRecord>, String>,
    local: Option<LocalSourceDescriptor>,
    existing: Seq<EntityKey>,
    options: ReadingImportOptions,
    k: int,
)
    requires
        import_plan(reading, decoded, local, existing, options) is Ok,
        0 <= k < import_plan(reading, decoded, local, existing, options)->Ok_0.entities.len(),
    ensures
        import_plan(reading, decoded, local, existing, options)->Ok_0.entities[k].id.reading
            == reading.reading_id,
{
    broadcast use vstd::seq_lib::group_to_multiset_ensures;

    let records = records_for_import(reading, decoded, options)->Ok_0;
    let n = records.len() as int;
    let list = planned_records(reading.reading_id, records, existing, n)->Ok_0;
    crate::rank::ranked_is_an_ordering(list);
    let entity = ranked(list)[k];
    assert(ranked(list).contains(entity));
    assert(ranked(list).to_multiset().count(entity) > 0);
    assert(list.to_multiset().count(entity) > 0);
    assert(list.contains(entity));
    let m = choose|m: int| 0 <= m < list.len() && list[m] == entity;
    lemma_planned_len(reading.reading_id, records, existing, n);
    lemma_planned_ids(reading.reading_id, records, existing, n, m);
}

/// No identity occurs twice among the planned entities of one reading.
pub proof fn planned_identities_are_distinct(
    reading: ReadingId,
    records: Seq<PortableEntityRecord>,
    existing: Seq<EntityKey>,
    i: int,
    j: int,
)
    requires
        planned_records(reading, records, existing, records.len() as int) is Ok,
        0 <= i < j < records.len(),
    ensures
        ({
            let list = planned_records(reading, records, existing, records.len() as int)->Ok_0;
            list[i].id != list[j].id
        }),
{
    lemma_planned_ids(reading, records, existing, records.len() as int, i);
    lemma_planned_ids(reading, records, existing, records.len() as int, j);
    assert(!repeats_record(reading, records, j));
    assert(record_id(reading, records[i])@ != record_id(reading, records[j])@);
}

} // verus!
