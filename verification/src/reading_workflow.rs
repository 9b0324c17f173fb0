//! Exchanging readings from end to end.
//!
//! The workflow resolves sources, plans imports, compares, merges, builds rows
//! to navigate and lowers everything to one edit. It returns data only: nothing
//! is applied here.

use vstd::prelude::*;
use vstd::string::*;

use crate::foreign_import::{
    distinct_foreign, distinct_groups, is_lowering, lower_foreign_hypothesis_import,
    lowering_fault, ForeignHypothesisAllocationDto, ForeignImportRefusal,
    HypothesisSetAllocationDto, LoweringFault, UndoableForeignImport,
};
use crate::navigation::{
    optional_geometry, EntityRefDto, EntityRefKey, GeometryView, HitView, QueryDerivationDto,
    QueryHitDto,
};
use crate::query_document::{AuditionTarget, RevealTarget};
use crate::rank::{
    append_byte_rank, append_text_rank, byte_rank, ranked, ranked_commutes_with_views,
    sort_by_rank, text_rank, HasRank, Ranked,
};
use crate::reading::{
    entity_keys, EntityKey, LocalSourceDescriptor, QualifiedEntityId, ReadingError, ReadingId,
    VerificationTier,
};
use crate::reading_codec::ReadingCodecError;
use crate::reading_diff::{
    semantic_diff, semantic_diff_readings, SemanticDiffView, SemanticReadingDiff,
};
use crate::reading_import::{
    import_plan, plan_reading_import, planned_views, CodecView, DecodedReading, ImportDisposition,
    ImportFault, PlanView, PlannedReadingEntity, PlannedView, ReadingActionRefusal,
    ReadingImportOptions, ReadingImportPlan, ReadingImportRefusal, UnknownSectionPolicy,
};
use crate::reading_merge::{
    merge_as_coexisting_hypotheses, merged, plan_views, view_index, MergeFault, ReadingMergePlan,
    ReadingMergeRefusal,
};
use crate::reading_source::{
    material_views, reading_source_refusal_message, refusal_text, rejected_of, resolve_reading_source,
    resolved, LocalMaterialId, LocalReadingMaterial, MaterialView, MissingSourceDiagnostic,
    MissingView, ReadingSourceResolution, RejectedView, ResolutionView,
};
use crate::text::{append_decimal, append_hex, decimal, hex_text, owned, text_views};
use crate::workbench_error::{WorkbenchError, WorkbenchFault};

verus! {

/// Why the geometry of an exported record is refused.
#[derive(Debug, PartialEq)]
pub enum ExportGeometryRefusal {
    Reference(ReadingError),
    Geometry(WorkbenchError),
}

/// What a refusal of exported geometry says.
pub enum ExportGeometryFault {
    Reference(ReadingError),
    Geometry(WorkbenchFault),
}

impl View for ExportGeometryRefusal {
    type V = ExportGeometryFault;

    open spec fn view(&self) -> ExportGeometryFault {
        match *self {
            ExportGeometryRefusal::Reference(error) => ExportGeometryFault::Reference(error),
            ExportGeometryRefusal::Geometry(error) => ExportGeometryFault::Geometry(error@),
        }
    }
}

/// Why the workflow refuses.
#[derive(Debug, PartialEq)]
pub enum ReadingWorkflowRefusal {
    NoReadings,
    InvalidReading(ReadingError),
    InvalidLocalMaterial { id: LocalMaterialId, detail: String },
    DuplicateLocalMaterial(LocalMaterialId),
    SourceCandidatesRefused(MissingSourceDiagnostic),
    UnexpectedVerificationTier(VerificationTier),
    ReservedSection(String),
    DuplicateExportEntity(QualifiedEntityId),
    BlankExportLabel(QualifiedEntityId),
    BlankHypothesisGroup(QualifiedEntityId),
    InvalidExportHypothesis(QualifiedEntityId),
    InvalidExportGeometry { entity: QualifiedEntityId, detail: ExportGeometryRefusal },
    ExtentOutsideSource {
        entity: QualifiedEntityId,
        start_frame: i64,
        end_frame: i64,
        source_frames: u64,
    },
    ForeignReadingReference { entity: QualifiedEntityId, reference: QualifiedEntityId },
    Codec(ReadingCodecError),
    Import(ReadingImportRefusal),
    Merge(ReadingMergeRefusal),
    Command(ForeignImportRefusal),
    DuplicateReadingId(ReadingId),
    Navigation(QualifiedEntityId),
    Workbench(WorkbenchError),
}

/// What a refusal of the workflow says.
pub enum WorkflowFault {
    NoReadings,
    InvalidReading(ReadingError),
    InvalidLocalMaterial { id: Seq<char>, detail: Seq<char> },
    DuplicateLocalMaterial(Seq<char>),
    SourceCandidatesRefused(MissingView),
    UnexpectedVerificationTier(VerificationTier),
    ReservedSection(Seq<char>),
    DuplicateExportEntity(EntityKey),
    BlankExportLabel(EntityKey),
    BlankHypothesisGroup(EntityKey),
    InvalidExportHypothesis(EntityKey),
    InvalidExportGeometry { entity: EntityKey, detail: ExportGeometryFault },
    ExtentOutsideSource { entity: EntityKey, start_frame: i64, end_frame: i64, source_frames: u64 },
    ForeignReadingReference { entity: EntityKey, reference: EntityKey },
    Codec(CodecView),
    Import(ImportFault),
    Merge(MergeFault),
    Command(LoweringFault),
    DuplicateReadingId(ReadingId),
    Navigation(EntityKey),
    Workbench(WorkbenchFault),
}

impl View for ReadingWorkflowRefusal {
    type V = WorkflowFault;

    open spec fn view(&self) -> WorkflowFault {
        match *self {
            ReadingWorkflowRefusal::NoReadings => WorkflowFault::NoReadings,
            ReadingWorkflowRefusal::InvalidReading(error) => WorkflowFault::InvalidReading(error),
            ReadingWorkflowRefusal::InvalidLocalMaterial {
                id,
                detail,
            } => WorkflowFault::InvalidLocalMaterial { id: id.0@, detail: detail@ },
            ReadingWorkflowRefusal::DuplicateLocalMaterial(
                id,
            ) => WorkflowFault::DuplicateLocalMaterial(id.0@),
            ReadingWorkflowRefusal::SourceCandidatesRefused(
                diagnostic,
            ) => WorkflowFault::SourceCandidatesRefused(diagnostic@),
            ReadingWorkflowRefusal::UnexpectedVerificationTier(
                tier,
            ) => WorkflowFault::UnexpectedVerificationTier(tier),
            ReadingWorkflowRefusal::Workbench(error) => WorkflowFault::Workbench(error@),
            ReadingWorkflowRefusal::ReservedSection(name) => WorkflowFault::ReservedSection(name@),
            ReadingWorkflowRefusal::DuplicateExportEntity(
                id,
            ) => WorkflowFault::DuplicateExportEntity(id@),
            ReadingWorkflowRefusal::BlankExportLabel(id) => WorkflowFault::BlankExportLabel(id@),
            ReadingWorkflowRefusal::BlankHypothesisGroup(
                id,
            ) => WorkflowFault::BlankHypothesisGroup(id@),
            ReadingWorkflowRefusal::InvalidExportHypothesis(
                id,
            ) => WorkflowFault::InvalidExportHypothesis(id@),
            ReadingWorkflowRefusal::InvalidExportGeometry {
                entity,
                detail,
            } => WorkflowFault::InvalidExportGeometry { entity: entity@, detail: detail@ },
            ReadingWorkflowRefusal::ExtentOutsideSource {
                entity,
                start_frame,
                end_frame,
                source_frames,
            } => WorkflowFault::ExtentOutsideSource {
                entity: entity@,
                start_frame,
                end_frame,
                source_frames,
            },
            ReadingWorkflowRefusal::ForeignReadingReference {
                entity,
                reference,
            } => WorkflowFault::ForeignReadingReference {
                entity: entity@,
                reference: reference@,
            },
            ReadingWorkflowRefusal::Codec(error) => WorkflowFault::Codec(error@),
            ReadingWorkflowRefusal::Import(refusal) => WorkflowFault::Import(refusal@),
            ReadingWorkflowRefusal::Merge(refusal) => WorkflowFault::Merge(refusal@),
            ReadingWorkflowRefusal::Command(refusal) => WorkflowFault::Command(refusal@),
            ReadingWorkflowRefusal::DuplicateReadingId(
                reading,
            ) => WorkflowFault::DuplicateReadingId(reading),
            ReadingWorkflowRefusal::Navigation(id) => WorkflowFault::Navigation(id@),
        }
    }
}

// ----- rows and diagnostics ---------------------------------------------

/// Something to hear, and the local copy to hear it from.
#[derive(Debug, PartialEq, Eq)]
pub struct ResolvedAuditionRequest {
    pub material: LocalMaterialId,
    pub target: AuditionTarget,
}

/// What a request to hear something holds.
pub struct AuditionRequestView {
    pub material: Seq<char>,
    pub entity: EntityRefKey,
    pub extent: GeometryView,
}

impl View for ResolvedAuditionRequest {
    type V = AuditionRequestView;

    open spec fn view(&self) -> AuditionRequestView {
        AuditionRequestView {
            material: self.material.0@,
            entity: self.target.entity@,
            extent: self.target.extent@,
        }
    }
}

/// What an optional request to hear something holds.
pub open spec fn optional_audition(request: Option<ResolvedAuditionRequest>) -> Option<
    AuditionRequestView,
> {
    match request {
        Some(request) => Some(request@),
        None => None,
    }
}

/// A row that every pane can reveal, and can hear only with exact local material.
#[derive(Debug, PartialEq)]
pub struct ReadingResultRow {
    pub label: String,
    pub disposition: ImportDisposition,
    pub hit: QueryHitDto,
    pub reveal: RevealTarget,
    pub audition: Option<ResolvedAuditionRequest>,
}

/// What a row holds.
pub struct ResultRowView {
    pub label: Seq<char>,
    pub disposition: ImportDisposition,
    pub hit: HitView,
    pub reveal: EntityRefKey,
    pub reveal_extent: Option<GeometryView>,
    pub audition: Option<AuditionRequestView>,
}

impl View for ReadingResultRow {
    type V = ResultRowView;

    open spec fn view(&self) -> ResultRowView {
        ResultRowView {
            label: self.label@,
            disposition: self.disposition,
            hit: self.hit@,
            reveal: self.reveal.entity@,
            reveal_extent: optional_geometry(self.reveal.extent),
            audition: optional_audition(self.audition),
        }
    }
}

impl HasRank for ResultRowView {
    open spec fn rank(&self) -> Seq<u64> {
        self.hit.fact.rank()
    }
}

impl HasRank for ReadingResultRow {
    open spec fn rank(&self) -> Seq<u64> {
        self.hit.fact@.rank()
    }
}

impl Ranked for ReadingResultRow {
    fn rank_key(&self) -> (r: Vec<u64>) {
        self.hit.fact.rank_key()
    }
}

/// What a list of rows holds.
pub open spec fn row_views(list: Seq<ReadingResultRow>) -> Seq<ResultRowView> {
    list.map_values(|r: ReadingResultRow| r@)
}

/// What a diagnostic is about.
#[derive(Clone, Copy, Debug, PartialEq, Eq, Structural)]
pub enum ReadingWorkflowDiagnosticCode {
    SourceMissing,
    LocalMaterialRejected,
    OpaqueSectionPreserved,
    AuditionExtentMissing,
}

/// Something to tell the user about a reading.
#[derive(Debug, PartialEq, Eq)]
pub struct ReadingWorkflowDiagnostic {
    pub code: ReadingWorkflowDiagnosticCode,
    pub reading: ReadingId,
    pub entity: Option<QualifiedEntityId>,
    pub message: String,
}

/// What a diagnostic holds.
pub struct DiagnosticView {
    pub code: ReadingWorkflowDiagnosticCode,
    pub reading: ReadingId,
    pub entity: Option<EntityKey>,
    pub message: Seq<char>,
}

/// The key of an optional entity.
pub open spec fn optional_entity(entity: Option<QualifiedEntityId>) -> Option<EntityKey> {
    match entity {
        Some(id) => Some(id@),
        None => None,
    }
}

impl View for ReadingWorkflowDiagnostic {
    type V = DiagnosticView;

    open spec fn view(&self) -> DiagnosticView {
        DiagnosticView {
            code: self.code,
            reading: self.reading,
            entity: optional_entity(self.entity),
            message: self.message@,
        }
    }
}

/// The rank of an optional entity: none comes first.
pub open spec fn optional_rank(entity: Option<EntityKey>) -> Seq<u64> {
    match entity {
        None => seq![0u64],
        Some(id) => seq![1u64] + id.rank(),
    }
}

impl HasRank for DiagnosticView {
    open spec fn rank(&self) -> Seq<u64> {
        byte_rank(self.reading@) + optional_rank(self.entity) + text_rank(self.message)
    }
}

impl HasRank for ReadingWorkflowDiagnostic {
    open spec fn rank(&self) -> Seq<u64> {
        self@.rank()
    }
}

impl Ranked for ReadingWorkflowDiagnostic {
    fn rank_key(&self) -> (r: Vec<u64>) {
        let mut key: Vec<u64> = Vec::new();
        let bytes = self.reading.bytes();
        append_byte_rank(&mut key, bytes.as_slice());
        match &self.entity {
            None => {
                key.push(0);
            },
            Some(id) => {
                key.push(1);
                let mut rest = id.rank_key();
                key.append(&mut rest);
            },
        }
        append_text_rank(&mut key, self.message.as_str());
        assert(key@ =~= self.rank());
        key
    }
}

/// What a list of diagnostics holds.
pub open spec fn diagnostic_views(list: Seq<ReadingWorkflowDiagnostic>) -> Seq<DiagnosticView> {
    list.map_values(|d: ReadingWorkflowDiagnostic| d@)
}

/// The message for a source that is not there.
pub open spec fn missing_text(missing: MissingView) -> Seq<char> {
    "source unavailable: expected "@ + decimal(missing.sample_rate as nat) + " Hz, "@ + decimal(
        missing.channels as nat,
    ) + " channels, "@ + decimal(missing.frame_count as nat) + " frames and one of "@ + decimal(
        missing.expected_fingerprints.len(),
    ) + " strong fingerprints; graph import remains available"@
}

/// The message for a local copy that was refused.
pub open spec fn rejected_text(rejected: RejectedView) -> Seq<char> {
    "local material '"@ + rejected.label + "' ("@ + rejected.id + ") refused: "@ + refusal_text(
        rejected.reason,
    )
}

/// The message for a section that is kept as it is.
pub open spec fn opaque_text(name: Seq<char>) -> Seq<char> {
    "section '"@ + name + "' is preserved verbatim but not interpreted"@
}

/// A diagnostic about a whole reading.
pub open spec fn about_reading(
    code: ReadingWorkflowDiagnosticCode,
    reading: ReadingId,
    message: Seq<char>,
) -> DiagnosticView {
    DiagnosticView { code, reading, entity: None, message }
}

/// What is told about the resolution of a reading's source.
pub open spec fn resolution_diagnostics(reading: ReadingId, resolution: ResolutionView) -> Seq<
    DiagnosticView,
> {
    let missing = match resolution {
        ResolutionView::Missing(missing) => seq![
            about_reading(
                ReadingWorkflowDiagnosticCode::SourceMissing,
                reading,
                missing_text(missing),
            ),
        ],
        ResolutionView::Matched { .. } => Seq::empty(),
    };
    missing + rejected_of(resolution).map_values(
        |rejected: RejectedView|
            about_reading(
                ReadingWorkflowDiagnosticCode::LocalMaterialRejected,
                reading,
                rejected_text(rejected),
            ),
    )
}

/// What is told about the sections of a reading.
pub open spec fn opaque_diagnostics(reading: ReadingId, names: Seq<Seq<char>>) -> Seq<
    DiagnosticView,
> {
    names.map_values(
        |name: Seq<char>|
            about_reading(
                ReadingWorkflowDiagnosticCode::OpaqueSectionPreserved,
                reading,
                opaque_text(name),
            ),
    )
}

fn missing_message(missing: &MissingSourceDiagnostic) -> (r: String)
    ensures
        r@ == missing_text(missing@),
{
    let mut out = owned("source unavailable: expected ");
    append_decimal(&mut out, missing.sample_rate as u64);
    out.append(" Hz, ");
    append_decimal(&mut out, missing.channels as u64);
    out.append(" channels, ");
    append_decimal(&mut out, missing.frame_count);
    out.append(" frames and one of ");
    append_decimal(&mut out, missing.expected_fingerprints.len() as u64);
    out.append(" strong fingerprints; graph import remains available");
    out
}

fn tell_resolution(
    out: &mut Vec<ReadingWorkflowDiagnostic>,
    reading: ReadingId,
    resolution: &ReadingSourceResolution,
)
    ensures
        diagnostic_views(final(out)@) == diagnostic_views(old(out)@) + resolution_diagnostics(
            reading,
            resolution@,
        ),
{
    let ghost start = diagnostic_views(out@);
    match resolution {
        ReadingSourceResolution::Missing(missing) => {
            let diagnostic = ReadingWorkflowDiagnostic {
                code: ReadingWorkflowDiagnosticCode::SourceMissing,
                reading,
                entity: None,
                message: missing_message(missing),
            };
            out.push(diagnostic);
            assert(diagnostic_views(out@) =~= start.push(diagnostic@));
        },
        ReadingSourceResolution::Matched { .. } => {},
    }
    let ghost head = diagnostic_views(out@);
    let ghost all = resolution_diagnostics(reading, resolution@);
    let rejected = resolution.rejected();
    let ghost views = rejected_of(resolution@);
    let ghost first = all.len() - views.len();
    assert(head =~= start + all.take(first));
    assert(crate::reading_source::rejected_views(rejected@).len() == rejected@.len());
    let mut i: usize = 0;
    while i < rejected.len()
        invariant
            i <= rejected.len(),
            views == crate::reading_source::rejected_views(rejected@),
            views.len() == rejected@.len(),
            views == rejected_of(resolution@),
            all == resolution_diagnostics(reading, resolution@),
            first == all.len() - views.len(),
            0 <= first,
            diagnostic_views(out@) == start + all.take(first + i),
        decreases rejected.len() - i,
    {
        assert(views[i as int] == rejected@[i as int]@);
        let ghost before = diagnostic_views(out@);
        let mut message = owned("local material '");
        message.append(rejected[i].label.as_str());
        message.append("' (");
        message.append(rejected[i].id.0.as_str());
        message.append(") refused: ");
        message.append(reading_source_refusal_message(&rejected[i].reason).as_str());
        let diagnostic = ReadingWorkflowDiagnostic {
            code: ReadingWorkflowDiagnosticCode::LocalMaterialRejected,
            reading,
            entity: None,
            message,
        };
        assert(diagnostic@.message =~= rejected_text(views[i as int]));
        out.push(diagnostic);
        assert(diagnostic_views(out@) =~= before.push(diagnostic@));
        assert(all[first + i] == diagnostic@);
        assert(diagnostic_views(out@) =~= start + all.take(first + i + 1));
        i = i + 1;
    }
    assert(all.take(all.len() as int) =~= all);
}

fn tell_opaque(
    out: &mut Vec<ReadingWorkflowDiagnostic>,
    reading: ReadingId,
    names: &Vec<String>,
)
    ensures
        diagnostic_views(final(out)@) == diagnostic_views(old(out)@) + opaque_diagnostics(
            reading,
            text_views(names@),
        ),
{
    let ghost start = diagnostic_views(out@);
    let ghost all = opaque_diagnostics(reading, text_views(names@));
    let mut i: usize = 0;
    assert(start =~= start + all.take(0));
    while i < names.len()
        invariant
            i <= names.len(),
            all == opaque_diagnostics(reading, text_views(names@)),
            diagnostic_views(out@) == start + all.take(i as int),
        decreases names.len() - i,
    {
        let ghost before = diagnostic_views(out@);
        let mut message = owned("section '");
        message.append(names[i].as_str());
        message.append("' is preserved verbatim but not interpreted");
        let diagnostic = ReadingWorkflowDiagnostic {
            code: ReadingWorkflowDiagnosticCode::OpaqueSectionPreserved,
            reading,
            entity: None,
            message,
        };
        assert(text_views(names@)[i as int] == names@[i as int]@);
        assert(diagnostic@.message =~= opaque_text(names@[i as int]@));
        out.push(diagnostic);
        assert(diagnostic_views(out@) =~= before.push(diagnostic@));
        assert(all[i as int] == diagnostic@);
        assert(diagnostic_views(out@) =~= start + all.take(i as int + 1));
        i = i + 1;
    }
    assert(all.take(all.len() as int) =~= all);
}

// ----- what goes in and comes out -----------------------------------------

/// The numbers that the caller gave to what is imported.
#[derive(Debug, PartialEq, Eq)]
pub struct ReadingCommandAllocations {
    pub hypotheses: Vec<ForeignHypothesisAllocationDto>,
    pub hypothesis_sets: Vec<HypothesisSetAllocationDto>,
}

/// What to exchange.
pub struct ReadingWorkflowRequest<'a> {
    pub readings: &'a Vec<DecodedReading>,
    pub local_materials: &'a Vec<LocalReadingMaterial>,
    pub existing: &'a Vec<QualifiedEntityId>,
    pub unknown_sections: UnknownSectionPolicy,
    pub base_revision: u64,
    pub allocations: &'a ReadingCommandAllocations,
}

/// A reading and where it is heard from.
#[derive(Debug, PartialEq, Eq)]
pub struct SourcedReading {
    pub reading: ReadingId,
    pub resolution: ReadingSourceResolution,
}

/// What a sourced reading holds.
pub struct SourcedView {
    pub reading: ReadingId,
    pub resolution: ResolutionView,
}

impl View for SourcedReading {
    type V = SourcedView;

    open spec fn view(&self) -> SourcedView {
        SourcedView { reading: self.reading, resolution: self.resolution@ }
    }
}

impl HasRank for SourcedView {
    open spec fn rank(&self) -> Seq<u64> {
        byte_rank(self.reading@)
    }
}

impl HasRank for SourcedReading {
    open spec fn rank(&self) -> Seq<u64> {
        byte_rank(self.reading@)
    }
}

impl Ranked for SourcedReading {
    fn rank_key(&self) -> (r: Vec<u64>) {
        let mut key: Vec<u64> = Vec::new();
        let bytes = self.reading.bytes();
        append_byte_rank(&mut key, bytes.as_slice());
        assert(key@ =~= self.rank());
        key
    }
}

/// What a list of sourced readings holds.
pub open spec fn sourced_views(list: Seq<SourcedReading>) -> Seq<SourcedView> {
    list.map_values(|s: SourcedReading| s@)
}

/// What a list of semantic differences holds.
pub open spec fn diff_views(list: Seq<SemanticReadingDiff>) -> Seq<SemanticDiffView> {
    list.map_values(|d: SemanticReadingDiff| d@)
}

/// Everything that an exchange would do, with exactly one edit.
#[derive(Debug, PartialEq)]
pub struct ReadingWorkflowPlan {
    pub resolutions: Vec<SourcedReading>,
    pub semantic_diffs: Vec<SemanticReadingDiff>,
    pub merge: ReadingMergePlan,
    pub results: Vec<ReadingResultRow>,
    pub command: UndoableForeignImport,
    pub diagnostics: Vec<ReadingWorkflowDiagnostic>,
}

// ----- planning each reading ----------------------------------------------

/// What is known after some readings were planned, in their order.
pub struct Prepared {
    pub sourced: Seq<SourcedView>,
    pub plans: Seq<PlanView>,
    pub diagnostics: Seq<DiagnosticView>,
}

/// The local source that a resolution settles on.
pub open spec fn local_source(resolution: ResolutionView) -> Option<LocalSourceDescriptor> {
    match resolution {
        ResolutionView::Matched { primary, .. } => Some(primary.source),
        ResolutionView::Missing(_) => None,
    }
}

/// Whether a reading is among those that were planned.
pub open spec fn planned_already(sourced: Seq<SourcedView>, reading: ReadingId) -> bool {
    exists|j: int| 0 <= j < sourced.len() && (#[trigger] sourced[j]).reading == reading
}

/// One more reading, or why it is refused.
pub open spec fn prepare_next(
    done: Prepared,
    input: DecodedReading,
    materials: Seq<MaterialView>,
    existing: Seq<EntityKey>,
    policy: UnknownSectionPolicy,
) -> Result<Prepared, WorkflowFault> {
    let reading = input.reading.reading_id;
    match resolved(input.reading, materials) {
        Err(fault) => Err(fault),
        Ok(resolution) => match import_plan(
            input.reading,
            input.entities,
            local_source(resolution),
            existing,
            (ReadingImportOptions { unknown_sections: policy, require_entity_section: true }),
        ) {
            Err(fault) => Err(WorkflowFault::Import(fault)),
            Ok(plan) => if planned_already(done.sourced, reading) {
                Err(WorkflowFault::DuplicateReadingId(reading))
            } else {
                Ok(
                    Prepared {
                        sourced: done.sourced.push(SourcedView { reading, resolution }),
                        plans: done.plans.push(plan),
                        diagnostics: done.diagnostics + resolution_diagnostics(reading, resolution)
                            + opaque_diagnostics(reading, plan.opaque_sections),
                    },
                )
            },
        },
    }
}

/// The first `i` readings, or the first refusal.
pub open spec fn prepared(
    readings: Seq<DecodedReading>,
    materials: Seq<MaterialView>,
    existing: Seq<EntityKey>,
    policy: UnknownSectionPolicy,
    i: int,
) -> Result<Prepared, WorkflowFault>
    decreases i,
{
    if i <= 0 {
        Ok(Prepared { sourced: Seq::empty(), plans: Seq::empty(), diagnostics: Seq::empty() })
    } else {
        match prepared(readings, materials, existing, policy, i - 1) {
            Err(fault) => Err(fault),
            Ok(done) => prepare_next(done, readings[i - 1], materials, existing, policy),
        }
    }
}

proof fn lemma_prepared_error(
    readings: Seq<DecodedReading>,
    materials: Seq<MaterialView>,
    existing: Seq<EntityKey>,
    policy: UnknownSectionPolicy,
    i: int,
    j: int,
)
    requires
        0 <= i <= j,
        prepared(readings, materials, existing, policy, i) is Err,
    ensures
        prepared(readings, materials, existing, policy, j) == prepared(
            readings,
            materials,
            existing,
            policy,
            i,
        ),
    decreases j - i,
{
    if i < j {
        lemma_prepared_error(readings, materials, existing, policy, i, j - 1);
    }
}

fn is_planned(sourced: &Vec<SourcedReading>, reading: &ReadingId) -> (r: bool)
    ensures
        r == planned_already(sourced_views(sourced@), *reading),
{
    let ghost views = sourced_views(sourced@);
    let mut j: usize = 0;
    while j < sourced.len()
        invariant
            j <= sourced.len(),
            views == sourced_views(sourced@),
            forall|k: int| 0 <= k < j ==> (#[trigger] views[k]).reading != *reading,
        decreases sourced.len() - j,
    {
        assert(views[j as int] == sourced@[j as int]@);
        if sourced[j].reading.same(reading) {
            assert(views[j as int].reading == *reading);
            return true;
        }
        j = j + 1;
    }
    assert(views.len() == sourced@.len());
    false
}

/// What was planned, in the order of the readings.
struct Planned {
    sourced: Vec<SourcedReading>,
    plans: Vec<ReadingImportPlan>,
    diagnostics: Vec<ReadingWorkflowDiagnostic>,
}

impl View for Planned {
    type V = Prepared;

    closed spec fn view(&self) -> Prepared {
        Prepared {
            sourced: sourced_views(self.sourced@),
            plans: plan_views(self.plans@),
            diagnostics: diagnostic_views(self.diagnostics@),
        }
    }
}

fn plan_next(
    done: &mut Planned,
    input: &DecodedReading,
    materials: &Vec<LocalReadingMaterial>,
    existing: &Vec<QualifiedEntityId>,
    policy: UnknownSectionPolicy,
) -> (r: Result<(), ReadingWorkflowRefusal>)
    ensures
        ({
            let outcome = prepare_next(
                old(done)@,
                *input,
                material_views(materials@),
                entity_keys(existing@),
                policy,
            );
            match r {
                Ok(_) => outcome == Ok::<Prepared, WorkflowFault>(final(done)@),
                Err(refusal) => outcome == Err::<Prepared, WorkflowFault>(refusal@),
            }
        }),
{
    let ghost before = done@;
    let reading = input.reading.reading_id;
    let resolution = match resolve_reading_source(&input.reading, materials) {
        Ok(resolution) => resolution,
        Err(refusal) => {
            return Err(refusal);
        },
    };
    let options = ReadingImportOptions { unknown_sections: policy, require_entity_section: true };
    let plan = {
        let local = match resolution.primary() {
            Some(material) => Some(&material.source),
            None => None,
        };
        match plan_reading_import(&input.reading, &input.entities, local, existing, options) {
            Ok(plan) => plan,
            Err(refusal) => {
                return Err(ReadingWorkflowRefusal::Import(refusal));
            },
        }
    };
    if is_planned(&done.sourced, &reading) {
        return Err(ReadingWorkflowRefusal::DuplicateReadingId(reading));
    }
    tell_resolution(&mut done.diagnostics, reading, &resolution);
    tell_opaque(&mut done.diagnostics, reading, &plan.opaque_sections);
    let sourced = SourcedReading { reading, resolution };
    done.sourced.push(sourced);
    done.plans.push(plan);
    assert(sourced_views(done.sourced@) =~= before.sourced.push(sourced@));
    assert(plan_views(done.plans@) =~= before.plans.push(plan@));
    Ok(())
}

fn plan_readings(
    readings: &Vec<DecodedReading>,
    materials: &Vec<LocalReadingMaterial>,
    existing: &Vec<QualifiedEntityId>,
    policy: UnknownSectionPolicy,
) -> (r: Result<Planned, ReadingWorkflowRefusal>)
    ensures
        ({
            let outcome = prepared(
                readings@,
                material_views(materials@),
                entity_keys(existing@),
                policy,
                readings@.len() as int,
            );
            match r {
                Ok(planned) => outcome == Ok::<Prepared, WorkflowFault>(planned@),
                Err(refusal) => outcome == Err::<Prepared, WorkflowFault>(refusal@),
            }
        }),
{
    let ghost views = material_views(materials@);
    let ghost keys = entity_keys(existing@);
    let mut done = Planned { sourced: Vec::new(), plans: Vec::new(), diagnostics: Vec::new() };
    assert(done@.sourced =~= Seq::empty());
    assert(done@.plans =~= Seq::empty());
    assert(done@.diagnostics =~= Seq::empty());
    let mut i: usize = 0;
    while i < readings.len()
        invariant
            i <= readings.len(),
            views == material_views(materials@),
            keys == entity_keys(existing@),
            prepared(readings@, views, keys, policy, i as int) == Ok::<Prepared, WorkflowFault>(
                done@,
            ),
        decreases readings.len() - i,
    {
        match plan_next(&mut done, &readings[i], materials, existing, policy) {
            Ok(()) => {},
            Err(refusal) => {
                proof {
                    lemma_prepared_error(
                        readings@,
                        views,
                        keys,
                        policy,
                        i as int + 1,
                        readings@.len() as int,
                    );
                }
                return Err(refusal);
            },
        }
        i = i + 1;
    }
    Ok(done)
}

// ----- comparing ------------------------------------------------------------

/// How the first reading differs from each of those at indices one to `i`.
pub open spec fn comparisons(readings: Seq<DecodedReading>, i: int) -> Result<
    Seq<SemanticDiffView>,
    ImportFault,
>
    decreases i,
{
    if i <= 0 {
        Ok(Seq::empty())
    } else {
        match comparisons(readings, i - 1) {
            Err(fault) => Err(fault),
            Ok(done) => match semantic_diff(readings[0], readings[i]) {
                Err(fault) => Err(fault),
                Ok(diff) => Ok(done.push(diff)),
            },
        }
    }
}

proof fn lemma_comparisons_error(readings: Seq<DecodedReading>, i: int, j: int)
    requires
        0 <= i <= j,
        comparisons(readings, i) is Err,
    ensures
        comparisons(readings, j) == comparisons(readings, i),
    decreases j - i,
{
    if i < j {
        lemma_comparisons_error(readings, i, j - 1);
    }
}

fn compare_readings(readings: &Vec<DecodedReading>) -> (r: Result<
    Vec<SemanticReadingDiff>,
    ReadingWorkflowRefusal,
>)
    requires
        readings@.len() > 0,
    ensures
        match r {
            Ok(diffs) => comparisons(readings@, readings@.len() - 1) == Ok::<
                Seq<SemanticDiffView>,
                ImportFault,
            >(diff_views(diffs@)),
            Err(refusal) => refusal@ matches WorkflowFault::Import(fault) && comparisons(
                readings@,
                readings@.len() - 1,
            ) == Err::<Seq<SemanticDiffView>, ImportFault>(fault),
        },
{
    let mut diffs: Vec<SemanticReadingDiff> = Vec::new();
    assert(diff_views(diffs@) =~= Seq::<SemanticDiffView>::empty());
    let mut i: usize = 1;
    while i < readings.len()
        invariant
            1 <= i <= readings.len(),
            comparisons(readings@, i - 1) == Ok::<Seq<SemanticDiffView>, ImportFault>(
                diff_views(diffs@),
            ),
        decreases readings.len() - i,
    {
        let ghost before = diff_views(diffs@);
        match semantic_diff_readings(&readings[0], &readings[i]) {
            Ok(diff) => {
                diffs.push(diff);
                assert(diff_views(diffs@) =~= before.push(diff@));
            },
            Err(refusal) => {
                proof {
                    lemma_comparisons_error(readings@, i as int, readings@.len() - 1);
                }
                return Err(ReadingWorkflowRefusal::Import(refusal));
            },
        }
        i = i + 1;
    }
    Ok(diffs)
}

// ----- rows -----------------------------------------------------------------

/// The index of the plan of a reading, from `i` on.
pub open spec fn plan_at(plans: Seq<PlanView>, reading: ReadingId, i: int) -> Option<int>
    decreases plans.len() - i,
{
    if i < 0 || i >= plans.len() {
        None
    } else if plans[i].reading_id == reading {
        Some(i)
    } else {
        plan_at(plans, reading, i + 1)
    }
}

/// The message for an entity that cannot be heard.
pub open spec fn no_extent_text() -> Seq<char> {
    "entity is revealable but has no audition extent"@
}

/// The rule that the row of an entity is derived by.
pub open spec fn rule_text(reading: ReadingId, revision: u64) -> Seq<char> {
    "reading:"@ + hex_text(reading@) + ":revision:"@ + decimal(revision as nat)
}

/// What an entity can be heard from, if at all.
pub open spec fn row_audition(
    plan: PlanView,
    primary: Option<MaterialView>,
    own: PlannedView,
) -> Option<AuditionRequestView> {
    if plan.verification == VerificationTier::GraphOnly {
        None
    } else {
        match (primary, own.extent) {
            (Some(material), Some(extent)) => Some(
                AuditionRequestView {
                    material: material.id,
                    entity: EntityRefKey::Reading(own.id),
                    extent,
                },
            ),
            _ => None,
        }
    }
}

/// What is told when a matched source cannot be heard for want of an extent.
pub open spec fn row_diagnostics(plan: PlanView, own: PlannedView) -> Seq<DiagnosticView> {
    if plan.verification != VerificationTier::GraphOnly && own.extent is None {
        seq![
            DiagnosticView {
                code: ReadingWorkflowDiagnosticCode::AuditionExtentMissing,
                reading: own.id.reading,
                entity: Some(own.id),
                message: no_extent_text(),
            },
        ]
    } else {
        Seq::empty()
    }
}

/// The row of an entity.
pub open spec fn row_view(
    plan: PlanView,
    primary: Option<MaterialView>,
    entity: PlannedView,
    own: PlannedView,
) -> ResultRowView {
    ResultRowView {
        label: entity.label,
        disposition: entity.disposition,
        hit: HitView {
            fact: EntityRefKey::Reading(own.id),
            extent: own.extent,
            rule: rule_text(entity.id.reading, plan.reading_revision),
            premises: Seq::empty(),
        },
        reveal: EntityRefKey::Reading(own.id),
        reveal_extent: own.extent,
        audition: row_audition(plan, primary, own),
    }
}

/// The copy that a resolution settles on.
pub open spec fn primary_of(resolution: ResolutionView) -> Option<MaterialView> {
    match resolution {
        ResolutionView::Matched { primary, .. } => Some(primary),
        ResolutionView::Missing(_) => None,
    }
}

/// Where an entity stands in the plan of its reading.
pub open spec fn located(plans: Seq<PlanView>, id: EntityKey) -> Option<(int, int)> {
    match plan_at(plans, id.reading, 0) {
        None => None,
        Some(p) => match view_index(plans[p].entities, id, 0) {
            None => None,
            Some(k) => Some((p, k)),
        },
    }
}

/// The rows of the first `i` entities and what is told about them.
pub open spec fn rows(state: Prepared, entities: Seq<PlannedView>, i: int) -> Result<
    (Seq<ResultRowView>, Seq<DiagnosticView>),
    WorkflowFault,
>
    decreases i,
{
    if i <= 0 {
        Ok((Seq::empty(), Seq::empty()))
    } else {
        match rows(state, entities, i - 1) {
            Err(fault) => Err(fault),
            Ok(done) => match located(state.plans, entities[i - 1].id) {
                None => Err(WorkflowFault::Navigation(entities[i - 1].id)),
                Some((p, k)) => {
                    let plan = state.plans[p];
                    Ok(
                        (
                            done.0.push(
                                row_view(
                                    plan,
                                    primary_of(state.sourced[p].resolution),
                                    entities[i - 1],
                                    plan.entities[k],
                                ),
                            ),
                            done.1 + row_diagnostics(plan, plan.entities[k]),
                        ),
                    )
                },
            },
        }
    }
}

proof fn lemma_rows_error(state: Prepared, entities: Seq<PlannedView>, i: int, j: int)
    requires
        0 <= i <= j,
        rows(state, entities, i) is Err,
    ensures
        rows(state, entities, j) == rows(state, entities, i),
    decreases j - i,
{
    if i < j {
        lemma_rows_error(state, entities, i, j - 1);
    }
}

proof fn lemma_planned_index_views(entities: Seq<PlannedReadingEntity>, id: EntityKey, i: int)
    requires
        0 <= i,
    ensures
        crate::reading_import::planned_index(entities, id, i) == view_index(
            planned_views(entities),
            id,
            i,
        ),
        match view_index(planned_views(entities), id, i) {
            Some(k) => i <= k < entities.len(),
            None => true,
        },
    decreases entities.len() - i,
{
    assert(planned_views(entities).len() == entities.len());
    if i < entities.len() {
        assert(planned_views(entities)[i] == entities[i]@);
        lemma_planned_index_views(entities, id, i + 1);
    }
}

fn find_plan(plans: &Vec<ReadingImportPlan>, reading: &ReadingId) -> (r: Option<usize>)
    ensures
        match r {
            Some(p) => plan_at(plan_views(plans@), *reading, 0) == Some(p as int) && p
                < plans@.len(),
            None => plan_at(plan_views(plans@), *reading, 0) is None,
        },
{
    let ghost views = plan_views(plans@);
    let mut i: usize = 0;
    while i < plans.len()
        invariant
            i <= plans.len(),
            views == plan_views(plans@),
            plan_at(views, *reading, 0) == plan_at(views, *reading, i as int),
        decreases plans.len() - i,
    {
        assert(views[i as int] == plans@[i as int]@);
        if plans[i].reading_id.same(reading) {
            return Some(i);
        }
        i = i + 1;
    }
    None
}

fn build_row(
    plan: &ReadingImportPlan,
    resolution: &ReadingSourceResolution,
    entity: &PlannedReadingEntity,
    diagnostics: &mut Vec<ReadingWorkflowDiagnostic>,
) -> (r: Result<ReadingResultRow, ReadingWorkflowRefusal>)
    ensures
        match view_index(plan@.entities, entity.id@, 0) {
            None => r matches Err(refusal) && refusal@ == WorkflowFault::Navigation(entity.id@),
            Some(k) => {
                &&& r matches Ok(row)
                &&& row@ == row_view(
                    plan@,
                    primary_of(resolution@),
                    entity@,
                    plan@.entities[k],
                )
                &&& diagnostic_views(final(diagnostics)@) == diagnostic_views(old(diagnostics)@)
                    + row_diagnostics(plan@, plan@.entities[k])
            },
        },
{
    let ghost before = diagnostic_views(diagnostics@);
    proof {
        lemma_planned_index_views(plan.entities@, entity.id@, 0);
    }
    let reveal = match plan.reveal_target(&entity.id) {
        Ok(target) => target,
        Err(_) => {
            return Err(ReadingWorkflowRefusal::Navigation(entity.id.clone()));
        },
    };
    let ghost k = view_index(plan@.entities, entity.id@, 0)->0;
    let ghost own = plan@.entities[k];
    assert(own == plan.entities@[k]@);
    let mut rule = owned("reading:");
    let bytes = entity.id.reading.bytes();
    append_hex(&mut rule, bytes.as_slice());
    rule.append(":revision:");
    append_decimal(&mut rule, plan.reading_revision);
    let no_premises: Vec<EntityRefDto> = Vec::new();
    assert(crate::navigation::reference_keys(no_premises@) =~= Seq::<EntityRefKey>::empty());
    let hit = QueryHitDto {
        fact: reveal.entity.clone(),
        extent: crate::navigation::copy_optional_geometry(&reveal.extent),
        derivation: QueryDerivationDto { rule, premises: no_premises },
    };
    let audition = match plan.audition_target(&entity.id) {
        Ok(target) => match resolution.primary() {
            Some(material) => Some(
                ResolvedAuditionRequest { material: material.id.clone(), target },
            ),
            None => None,
        },
        Err(ReadingActionRefusal::MissingExtent(id)) => {
            let diagnostic = ReadingWorkflowDiagnostic {
                code: ReadingWorkflowDiagnosticCode::AuditionExtentMissing,
                reading: id.reading,
                entity: Some(id),
                message: owned("entity is revealable but has no audition extent"),
            };
            diagnostics.push(diagnostic);
            assert(diagnostic_views(diagnostics@) =~= before.push(diagnostic@));
            None
        },
        Err(_) => None,
    };
    assert(diagnostic_views(diagnostics@) =~= before + row_diagnostics(plan@, own));
    Ok(
        ReadingResultRow {
            label: entity.label.clone(),
            disposition: entity.disposition,
            hit,
            reveal,
            audition,
        },
    )
}

fn build_rows(
    sourced: &Vec<SourcedReading>,
    plans: &Vec<ReadingImportPlan>,
    diagnostics: &mut Vec<ReadingWorkflowDiagnostic>,
    entities: &Vec<PlannedReadingEntity>,
) -> (r: Result<Vec<ReadingResultRow>, ReadingWorkflowRefusal>)
    requires
        sourced@.len() == plans@.len(),
    ensures
        ({
            let state = Prepared {
                sourced: sourced_views(sourced@),
                plans: plan_views(plans@),
                diagnostics: diagnostic_views(old(diagnostics)@),
            };
            let outcome = rows(state, planned_views(entities@), entities@.len() as int);
            match r {
                Ok(list) => outcome is Ok && row_views(list@) == outcome->Ok_0.0
                    && diagnostic_views(final(diagnostics)@) == state.diagnostics
                    + outcome->Ok_0.1,
                Err(refusal) => outcome == Err::<
                    (Seq<ResultRowView>, Seq<DiagnosticView>),
                    WorkflowFault,
                >(refusal@),
            }
        }),
{
    let ghost state = Prepared {
        sourced: sourced_views(sourced@),
        plans: plan_views(plans@),
        diagnostics: diagnostic_views(diagnostics@),
    };
    let ghost views = planned_views(entities@);
    let ghost start = diagnostic_views(diagnostics@);
    let mut out: Vec<ReadingResultRow> = Vec::new();
    let mut i: usize = 0;
    assert(row_views(out@) =~= Seq::<ResultRowView>::empty());
    assert(start =~= start + Seq::<DiagnosticView>::empty());
    while i < entities.len()
        invariant
            i <= entities.len(),
            sourced@.len() == plans@.len(),
            views == planned_views(entities@),
            state.sourced == sourced_views(sourced@),
            state.plans == plan_views(plans@),
            state.diagnostics == diagnostic_views(old(diagnostics)@),
            rows(state, views, i as int) is Ok,
            row_views(out@) == rows(state, views, i as int)->Ok_0.0,
            diagnostic_views(diagnostics@) == start + rows(state, views, i as int)->Ok_0.1,
        decreases entities.len() - i,
    {
        assert(views[i as int] == entities@[i as int]@);
        let ghost done = rows(state, views, i as int)->Ok_0;
        let refused = match find_plan(plans, &entities[i].id.reading) {
            None => Some(ReadingWorkflowRefusal::Navigation(entities[i].id.clone())),
            Some(p) => {
                assert(state.plans[p as int] == plans@[p as int]@);
                assert(state.sourced[p as int] == sourced@[p as int]@);
                match build_row(&plans[p], &sourced[p].resolution, &entities[i], diagnostics) {
                    Ok(row) => {
                        out.push(row);
                        assert(row_views(out@) =~= done.0.push(row@));
                        None
                    },
                    Err(refusal) => Some(refusal),
                }
            },
        };
        match refused {
            Some(refusal) => {
                proof {
                    lemma_rows_error(state, views, i as int + 1, entities@.len() as int);
                }
                return Err(refusal);
            },
            None => {},
        }
        assert(diagnostic_views(diagnostics@) =~= start + rows(state, views, i as int + 1)->Ok_0.1);
        i = i + 1;
    }
    Ok(out)
}

// ----- the whole workflow ---------------------------------------------------

/// What the readings of a request come to.
pub open spec fn request_state(request: ReadingWorkflowRequest<'_>) -> Result<
    Prepared,
    WorkflowFault,
> {
    prepared(
        request.readings@,
        material_views(request.local_materials@),
        entity_keys(request.existing@),
        request.unknown_sections,
        request.readings@.len() as int,
    )
}

/// Why a request is refused, in the order in which the steps are taken.
pub open spec fn workflow_fault(request: ReadingWorkflowRequest<'_>) -> Option<WorkflowFault> {
    if request.readings@.len() == 0 {
        Some(WorkflowFault::NoReadings)
    } else {
        match request_state(request) {
            Err(fault) => Some(fault),
            Ok(state) => match comparisons(request.readings@, request.readings@.len() - 1) {
                Err(fault) => Some(WorkflowFault::Import(fault)),
                Ok(_) => match merged(state.plans) {
                    Err(fault) => Some(WorkflowFault::Merge(fault)),
                    Ok(merge) => match lowering_fault(
                        merge,
                        request.allocations.hypotheses@,
                        request.allocations.hypothesis_sets@,
                    ) {
                        Some(fault) => Some(WorkflowFault::Command(fault)),
                        None => match rows(state, merge.entities, merge.entities.len() as int) {
                            Err(fault) => Some(fault),
                            Ok(_) => None,
                        },
                    },
                },
            },
        }
    }
}

/// A plan says what a request that is not refused comes to.
pub open spec fn is_workflow(
    plan: ReadingWorkflowPlan,
    request: ReadingWorkflowRequest<'_>,
) -> bool {
    let state = request_state(request)->Ok_0;
    let merge = merged(state.plans)->Ok_0;
    let found = rows(state, merge.entities, merge.entities.len() as int)->Ok_0;
    &&& sourced_views(plan.resolutions@) == ranked(state.sourced)
    &&& diff_views(plan.semantic_diffs@) == comparisons(
        request.readings@,
        request.readings@.len() - 1,
    )->Ok_0
    &&& plan.merge@ == merge
    &&& row_views(plan.results@) == ranked(found.0)
    &&& is_lowering(
        plan.command,
        merge,
        request.base_revision,
        request.allocations.hypotheses@,
        request.allocations.hypothesis_sets@,
    )
    &&& diagnostic_views(plan.diagnostics@) == ranked(state.diagnostics + found.1)
}

/// Resolves, plans, compares, merges, lowers and builds rows: one plan with one
/// edit, or the first refusal.
pub fn plan_reading_workflow(request: ReadingWorkflowRequest<'_>) -> (r: Result<
    ReadingWorkflowPlan,
    ReadingWorkflowRefusal,
>)
    requires
        distinct_foreign(request.allocations.hypotheses@),
        distinct_groups(request.allocations.hypothesis_sets@),
    ensures
        match workflow_fault(request) {
            Some(fault) => r matches Err(refusal) && refusal@ == fault,
            None => r matches Ok(plan) && is_workflow(plan, request),
        },
{
    if request.readings.len() == 0 {
        return Err(ReadingWorkflowRefusal::NoReadings);
    }
    let planned = match plan_readings(
        request.readings,
        request.local_materials,
        request.existing,
        request.unknown_sections,
    ) {
        Ok(planned) => planned,
        Err(refusal) => {
            return Err(refusal);
        },
    };
    let ghost state = planned@;
    proof {
        lemma_parallel(
            request.readings@,
            material_views(request.local_materials@),
            entity_keys(request.existing@),
            request.unknown_sections,
            request.readings@.len() as int,
        );
    }
    let semantic_diffs = match compare_readings(request.readings) {
        Ok(diffs) => diffs,
        Err(refusal) => {
            return Err(refusal);
        },
    };
    let merge = match merge_as_coexisting_hypotheses(&planned.plans) {
        Ok(merge) => merge,
        Err(refusal) => {
            return Err(ReadingWorkflowRefusal::Merge(refusal));
        },
    };
    let command = match lower_foreign_hypothesis_import(
        &merge,
        request.base_revision,
        &request.allocations.hypotheses,
        &request.allocations.hypothesis_sets,
    ) {
        Ok(command) => command,
        Err(refusal) => {
            return Err(ReadingWorkflowRefusal::Command(refusal));
        },
    };
    let Planned { sourced, plans, mut diagnostics } = planned;
    assert(sourced@.len() == state.sourced.len());
    assert(plans@.len() == state.plans.len());
    assert(merge@.entities.len() == merge.entities@.len());
    let results = match build_rows(&sourced, &plans, &mut diagnostics, &merge.entities) {
        Ok(results) => results,
        Err(refusal) => {
            return Err(refusal);
        },
    };
    proof {
        ranked_commutes_with_views(results@, |r: ReadingResultRow| r@);
        ranked_commutes_with_views(diagnostics@, |d: ReadingWorkflowDiagnostic| d@);
        ranked_commutes_with_views(sourced@, |s: SourcedReading| s@);
    }
    Ok(
        ReadingWorkflowPlan {
            resolutions: sort_by_rank(sourced),
            semantic_diffs,
            merge,
            results: sort_by_rank(results),
            command,
            diagnostics: sort_by_rank(diagnostics),
        },
    )
}

proof fn lemma_parallel(
    readings: Seq<DecodedReading>,
    materials: Seq<MaterialView>,
    existing: Seq<EntityKey>,
    policy: UnknownSectionPolicy,
    i: int,
)
    requires
        0 <= i <= readings.len(),
        prepared(readings, materials, existing, policy, i) is Ok,
    ensures
        ({
            let state = prepared(readings, materials, existing, policy, i)->Ok_0;
            &&& state.sourced.len() == i
            &&& state.plans.len() == i
        }),
    decreases i,
{
    if i > 0 {
        lemma_parallel(readings, materials, existing, policy, i - 1);
    }
}

// ----- laws -------------------------------------------------------------

/// Whether the first `n` plans hold an entity.
pub open spec fn stems_from(plans: Seq<PlanView>, n: int, entity: PlannedView) -> bool {
    exists|p: int|
        0 <= p < n && (#[trigger] plans[p]).entities.contains(entity)
}

proof fn lemma_absorbed_origin(
    acc: Seq<PlannedView>,
    entities: Seq<PlannedView>,
    j: int,
    m: int,
)
    requires
        0 <= j <= entities.len(),
        crate::reading_merge::absorbed(acc, entities, j) is Ok,
        0 <= m < crate::reading_merge::absorbed(acc, entities, j)->Ok_0.len(),
    ensures
        ({
            let out = crate::reading_merge::absorbed(acc, entities, j)->Ok_0;
            acc.contains(out[m]) || entities.contains(out[m])
        }),
    decreases j,
{
    let out = crate::reading_merge::absorbed(acc, entities, j)->Ok_0;
    if j <= 0 {
        assert(acc[m] == out[m]);
    } else {
        let done = crate::reading_merge::absorbed(acc, entities, j - 1)->Ok_0;
        if m < done.len() {
            lemma_absorbed_origin(acc, entities, j - 1, m);
        } else {
            assert(entities[j - 1] == out[m]);
        }
    }
}

proof fn lemma_merged_origin(plans: Seq<PlanView>, n: int, m: int)
    requires
        0 <= n <= plans.len(),
        crate::reading_merge::merged_entities(plans, n) is Ok,
        0 <= m < crate::reading_merge::merged_entities(plans, n)->Ok_0.len(),
    ensures
        stems_from(plans, n, crate::reading_merge::merged_entities(plans, n)->Ok_0[m]),
    decreases n,
{
    if n > 0 {
        let done = crate::reading_merge::merged_entities(plans, n - 1)->Ok_0;
        let out = crate::reading_merge::merged_entities(plans, n)->Ok_0;
        let last = plans[n - 1].entities;
        lemma_absorbed_origin(done, last, last.len() as int, m);
        if done.contains(out[m]) {
            let q = choose|q: int| 0 <= q < done.len() && done[q] == out[m];
            lemma_merged_origin(plans, n - 1, q);
            let p = choose|p: int|
                0 <= p < n - 1 && (#[trigger] plans[p]).entities.contains(out[m]);
            assert(plans[p].entities.contains(out[m]));
        } else {
            assert(plans[n - 1].entities.contains(out[m]));
        }
    }
}

proof fn lemma_ranked_origin<T: HasRank>(items: Seq<T>, m: int)
    requires
        0 <= m < ranked(items).len(),
    ensures
        items.contains(ranked(items)[m]),
{
    broadcast use vstd::seq_lib::group_to_multiset_ensures;

    crate::rank::ranked_is_an_ordering(items);
    let item = ranked(items)[m];
    assert(ranked(items).contains(item));
    assert(ranked(items).to_multiset().count(item) > 0);
    assert(items.to_multiset().count(item) > 0);
}

proof fn lemma_prepared_plans(
    readings: Seq<DecodedReading>,
    materials: Seq<MaterialView>,
    existing: Seq<EntityKey>,
    policy: UnknownSectionPolicy,
    i: int,
)
    requires
        0 <= i <= readings.len(),
        prepared(readings, materials, existing, policy, i) is Ok,
    ensures
        ({
            let state = prepared(readings, materials, existing, policy, i)->Ok_0;
            &&& state.sourced.len() == i
            &&& state.plans.len() == i
            &&& forall|p: int|
                0 <= p < i ==> (#[trigger] state.plans[p]).reading_id == state.sourced[p].reading
            &&& forall|p: int, q: int|
                0 <= p < q < i ==> (#[trigger] state.plans[p]).reading_id != (
                #[trigger] state.plans[q]).reading_id
            &&& forall|p: int, k: int|
                0 <= p < i && 0 <= k < state.plans[p].entities.len()
                    ==> (#[trigger] state.plans[p].entities[k]).id.reading
                    == state.plans[p].reading_id
        }),
    decreases i,
{
    if i > 0 {
        lemma_prepared_plans(readings, materials, existing, policy, i - 1);
        let done = prepared(readings, materials, existing, policy, i - 1)->Ok_0;
        let state = prepared(readings, materials, existing, policy, i)->Ok_0;
        let input = readings[i - 1];
        let plan = state.plans[i - 1];
        assert forall|p: int| 0 <= p < i - 1 implies (#[trigger] state.plans[p]).reading_id
            != plan.reading_id by {
            assert(state.plans[p] == done.plans[p]);
            assert(done.sourced[p].reading == done.plans[p].reading_id);
        }
        assert forall|k: int| 0 <= k < plan.entities.len() implies (
        #[trigger] plan.entities[k]).id.reading == plan.reading_id by {
            crate::reading_import::every_planned_entity_is_qualified(
                input.reading,
                input.entities,
                local_source(resolved(input.reading, materials)->Ok_0),
                existing,
                (ReadingImportOptions { unknown_sections: policy, require_entity_section: true }),
                k,
            );
        }
        assert forall|p: int, k: int|
            0 <= p < i && 0 <= k < state.plans[p].entities.len() implies (
        #[trigger] state.plans[p].entities[k]).id.reading == state.plans[p].reading_id by {
            if p < i - 1 {
                assert(state.plans[p] == done.plans[p]);
            }
        }
    }
}

proof fn lemma_plan_at(plans: Seq<PlanView>, reading: ReadingId, p: int, i: int)
    requires
        0 <= i <= p < plans.len(),
        plans[p].reading_id == reading,
        forall|q: int, w: int|
            0 <= q < w < plans.len() ==> (#[trigger] plans[q]).reading_id != (
            #[trigger] plans[w]).reading_id,
    ensures
        plan_at(plans, reading, i) == Some(p),
    decreases p - i,
{
    if i < p {
        assert(plans[i].reading_id != plans[p].reading_id);
        lemma_plan_at(plans, reading, p, i + 1);
    }
}

proof fn lemma_view_index_finds(list: Seq<PlannedView>, id: EntityKey, k: int, i: int)
    requires
        0 <= i <= k < list.len(),
        list[k].id == id,
    ensures
        view_index(list, id, i) is Some,
    decreases k - i,
{
    if i < k {
        lemma_view_index_finds(list, id, k, i + 1);
    }
}

/// Every merged entity can be revealed: each stands in the plan of its own
/// reading, so building the rows is never refused.
pub proof fn every_merged_entity_has_a_row(
    readings: Seq<DecodedReading>,
    materials: Seq<MaterialView>,
    existing: Seq<EntityKey>,
    policy: UnknownSectionPolicy,
    i: int,
)
    requires
        prepared(readings, materials, existing, policy, readings.len() as int) is Ok,
        ({
            let state = prepared(
                readings,
                materials,
                existing,
                policy,
                readings.len() as int,
            )->Ok_0;
            &&& merged(state.plans) is Ok
            &&& 0 <= i <= merged(state.plans)->Ok_0.entities.len()
        }),
    ensures
        ({
            let state = prepared(
                readings,
                materials,
                existing,
                policy,
                readings.len() as int,
            )->Ok_0;
            let entities = merged(state.plans)->Ok_0.entities;
            &&& rows(state, entities, i) is Ok
            &&& rows(state, entities, i)->Ok_0.0.len() == i
        }),
    decreases i,
{
    let n = readings.len() as int;
    let state = prepared(readings, materials, existing, policy, n)->Ok_0;
    let plans = state.plans;
    let entities = merged(plans)->Ok_0.entities;
    if i > 0 {
        every_merged_entity_has_a_row(readings, materials, existing, policy, i - 1);
        lemma_prepared_plans(readings, materials, existing, policy, n);
        let list = crate::reading_merge::merged_entities(plans, plans.len() as int)->Ok_0;
        let entity = entities[i - 1];
        lemma_ranked_origin(list, i - 1);
        let m = choose|m: int| 0 <= m < list.len() && list[m] == entity;
        lemma_merged_origin(plans, n, m);
        let p = choose|p: int| 0 <= p < n && (#[trigger] plans[p]).entities.contains(entity);
        let k = choose|k: int| 0 <= k < plans[p].entities.len() && plans[p].entities[k] == entity;
        assert(plans[p].entities[k].id.reading == plans[p].reading_id);
        lemma_plan_at(plans, entity.id.reading, p, 0);
        lemma_view_index_finds(plans[p].entities, entity.id, k, 0);
    }
}

/// Without local material nothing can be heard, and everything can be revealed:
/// the rows of a graph-only reading offer no audition.
pub proof fn graph_only_rows_are_silent(
    plan: PlanView,
    primary: Option<MaterialView>,
    entity: PlannedView,
    own: PlannedView,
)
    requires
        plan.verification == VerificationTier::GraphOnly,
    ensures
        row_view(plan, primary, entity, own).audition is None,
        row_view(plan, primary, entity, own).reveal == EntityRefKey::Reading(own.id),
        row_diagnostics(plan, own).len() == 0,
{
}

} // verus!
