//! The line protocol for readings and queries without a user interface.
//!
//! A request may observe, plan a rendering, or plan a command. Nothing is ever
//! applied here: whoever hosts the protocol routes a planned command through the
//! executor of the project.

use std::sync::Arc;

use vstd::pervasive::unreached;
use vstd::prelude::*;
use vstd::string::*;

use crate::command::{CommandBatch, CommandEnvelope};
use crate::foreign_import::{
    distinct_foreign, distinct_groups, is_lowering, lower_foreign_hypothesis_import, lowering_fault,
    ForeignHypothesisAllocationDto, ForeignHypothesisMapping, ForeignImportRefusal,
    HypothesisSetAllocationDto, LoweringFault, UndoableForeignImport,
};
use crate::navigation::{valid_reference, EntityRefDto, EntityRefKey, RegionDto};
use crate::query_document::{
    execute_query_page, is_page, page_refusal, requested_end, requested_start, same_head,
    AuditionTarget, QueryDocument, QueryExecutionProvenance, QueryPageRequest, QueryRun,
};
use crate::query_terms::{geometry_fault, validate_geometry};
use crate::reading::{
    entity_keys, section_views, EntityKey, LocalSourceDescriptor, PortableDigest,
    QualifiedEntityId, ReadingError, ReadingFile, ReadingId, ReadingSection,
    ReadingVerificationRefusal, RefusalView, SectionView, VerificationTier,
};
use crate::reading_import::{
    import_plan, plan_reading_import, DecodedReading, ImportFault, PlanView, PlannedView,
    ReadingImportOptions, ReadingImportPlan, ReadingImportRefusal, UnknownSectionPolicy,
};
use crate::reading_merge::{
    copy_sections, merge_as_coexisting_hypotheses, merged, plan_views, preserved_views, MergeFault,
    PreservedSections, PreservedView, ReadingMergeRefusal,
};
use crate::text::{blank, chars_of, is_blank, owned, same_text};
use crate::workbench_error::{WorkbenchError, WorkbenchFault};

verus! {

/// The name of the protocol and its version.
pub const HEADLESS_PROTOCOL: &'static str = "audec-reading-query-jsonl-v1";

/// A local source as a request states it.
#[derive(Clone, Copy, Debug, PartialEq, Eq)]
pub struct LocalSourceDto {
    pub digest: PortableDigest,
    pub sample_rate: u32,
    pub channels: u16,
    pub frame_count: u64,
}

/// The source that a request states.
pub open spec fn descriptor_of(value: LocalSourceDto) -> LocalSourceDescriptor {
    LocalSourceDescriptor {
        digest: value.digest,
        sample_rate: value.sample_rate,
        channels: value.channels,
        frame_count: value.frame_count,
    }
}

/// The source that a request states, if it states one.
pub open spec fn optional_descriptor(value: Option<LocalSourceDto>) -> Option<
    LocalSourceDescriptor,
> {
    match value {
        Some(value) => Some(descriptor_of(value)),
        None => None,
    }
}

impl From<LocalSourceDto> for LocalSourceDescriptor {
    fn from(value: LocalSourceDto) -> (r: Self) {
        LocalSourceDescriptor {
            digest: value.digest,
            sample_rate: value.sample_rate,
            channels: value.channels,
            frame_count: value.frame_count,
        }
    }
}

impl vstd::std_specs::convert::FromSpecImpl<LocalSourceDto> for LocalSourceDescriptor {
    open spec fn obeys_from_spec() -> bool {
        true
    }

    open spec fn from_spec(value: LocalSourceDto) -> Self {
        descriptor_of(value)
    }
}

fn described(value: Option<LocalSourceDto>) -> (r: Option<LocalSourceDescriptor>)
    ensures
        r == optional_descriptor(value),
{
    match value {
        Some(value) => Some(LocalSourceDescriptor::from(value)),
        None => None,
    }
}

/// A reading and the source that goes with it.
#[derive(Debug, PartialEq)]
pub struct ReadingInputDto {
    pub reading: Arc<DecodedReading>,
    pub local_source: Option<LocalSourceDto>,
}

/// A batch of commands as it is stored.
#[derive(Debug, PartialEq, Eq)]
pub struct DurableCommandBatch {
    pub text: String,
}

/// What a request asks for.
#[derive(Debug, PartialEq)]
pub enum HeadlessOperation {
    QueryPage {
        document: QueryDocument,
        provenance: QueryExecutionProvenance,
        page: QueryPageRequest,
    },
    VerifyReading { reading: Arc<DecodedReading>, local_source: Option<LocalSourceDto> },
    PlanReadingImport {
        reading: Arc<DecodedReading>,
        local_source: Option<LocalSourceDto>,
        existing: Arc<Vec<QualifiedEntityId>>,
        unknown_sections: UnknownSectionPolicy,
    },
    ImportHypotheses {
        readings: Arc<Vec<ReadingInputDto>>,
        existing: Arc<Vec<QualifiedEntityId>>,
        unknown_sections: UnknownSectionPolicy,
        base_revision: u64,
        hypothesis_allocations: Arc<Vec<ForeignHypothesisAllocationDto>>,
        set_allocations: Arc<Vec<HypothesisSetAllocationDto>>,
    },
    Command { base_revision: u64, batch: DurableCommandBatch },
    Render { target: AuditionTarget },
}

/// One request.
#[derive(Debug, PartialEq)]
pub struct HeadlessRequest {
    pub protocol: String,
    pub request_id: String,
    pub operation: HeadlessOperation,
}

// ----- refusals -----------------------------------------------------------

/// What is wrong with a request as such.
#[derive(Debug, PartialEq)]
pub enum RequestRefusal {
    BlankRequestId,
    NoReadings,
    DuplicateAllocation(QualifiedEntityId),
    /// A group without a name, or one that is allocated twice.
    HypothesisGroup(String),
}

/// What is wrong with the readings of a request.
#[derive(Debug, PartialEq)]
pub enum ReadingRefusal {
    Invalid(ReadingError),
    Source(ReadingVerificationRefusal),
    Import(ReadingImportRefusal),
    Merge(ReadingMergeRefusal),
}

/// What is wrong with a command.
#[derive(Debug, PartialEq)]
pub enum CommandRefusal {
    Lowering(ForeignImportRefusal),
    /// A batch needs a label and at least one command.
    EmptyBatch,
}

/// Why a request is refused.
#[derive(Debug, PartialEq)]
pub enum HeadlessProtocolError {
    Framing(String),
    Json(String),
    UnsupportedProtocol(String),
    InvalidRequest(RequestRefusal),
    Reading(ReadingRefusal),
    Command(CommandRefusal),
    Render(EntityRefDto),
    Workbench(WorkbenchError),
    Codec(String),
}

/// What a refusal says.
pub enum ProtocolFault {
    Framing(Seq<char>),
    Json(Seq<char>),
    UnsupportedProtocol(Seq<char>),
    BlankRequestId,
    NoReadings,
    DuplicateAllocation(EntityKey),
    HypothesisGroup(Seq<char>),
    InvalidReading(ReadingError),
    Source(RefusalView),
    Import(ImportFault),
    Merge(MergeFault),
    Lowering(LoweringFault),
    EmptyBatch,
    Render(EntityRefKey),
    Workbench(WorkbenchFault),
    Codec(Seq<char>),
}

/// The region that a refusal speaks of.
pub open spec fn protocol_region(fault: ProtocolFault) -> Option<RegionDto> {
    match fault {
        ProtocolFault::Workbench(WorkbenchFault::InvalidRegion(region)) => Some(region),
        ProtocolFault::Import(ImportFault::Workbench(WorkbenchFault::InvalidRegion(region))) => {
            Some(region)
        },
        _ => None,
    }
}

impl HeadlessProtocolError {
    /// The region that the refusal speaks of.
    pub fn region(&self) -> (r: Option<RegionDto>)
        ensures
            r == protocol_region(self@),
    {
        match self {
            HeadlessProtocolError::Workbench(WorkbenchError::InvalidRegion(region)) => Some(
                *region,
            ),
            HeadlessProtocolError::Reading(
                ReadingRefusal::Import(
                    ReadingImportRefusal::Workbench(WorkbenchError::InvalidRegion(region)),
                ),
            ) => Some(*region),
            _ => None,
        }
    }
}

impl View for HeadlessProtocolError {
    type V = ProtocolFault;

    open spec fn view(&self) -> ProtocolFault {
        match *self {
            HeadlessProtocolError::Framing(text) => ProtocolFault::Framing(text@),
            HeadlessProtocolError::Json(text) => ProtocolFault::Json(text@),
            HeadlessProtocolError::UnsupportedProtocol(text) => {
                ProtocolFault::UnsupportedProtocol(text@)
            },
            HeadlessProtocolError::InvalidRequest(refusal) => match refusal {
                RequestRefusal::BlankRequestId => ProtocolFault::BlankRequestId,
                RequestRefusal::NoReadings => ProtocolFault::NoReadings,
                RequestRefusal::DuplicateAllocation(id) => ProtocolFault::DuplicateAllocation(id@),
                RequestRefusal::HypothesisGroup(group) => ProtocolFault::HypothesisGroup(group@),
            },
            HeadlessProtocolError::Reading(refusal) => match refusal {
                ReadingRefusal::Invalid(error) => ProtocolFault::InvalidReading(error),
                ReadingRefusal::Source(refusal) => ProtocolFault::Source(refusal@),
                ReadingRefusal::Import(refusal) => ProtocolFault::Import(refusal@),
                ReadingRefusal::Merge(refusal) => ProtocolFault::Merge(refusal@),
            },
            HeadlessProtocolError::Command(refusal) => match refusal {
                CommandRefusal::Lowering(refusal) => ProtocolFault::Lowering(refusal@),
                CommandRefusal::EmptyBatch => ProtocolFault::EmptyBatch,
            },
            HeadlessProtocolError::Render(entity) => ProtocolFault::Render(entity@),
            HeadlessProtocolError::Workbench(error) => ProtocolFault::Workbench(error@),
            HeadlessProtocolError::Codec(text) => ProtocolFault::Codec(text@),
        }
    }
}

// ----- framing ------------------------------------------------------------

/// Whether a text is one line.
pub open spec fn is_one_line(line: Seq<char>) -> bool {
    !line.contains('\n') && !line.contains('\r')
}

/// What is wrong with a request before anything is done.
pub open spec fn header_fault(request: HeadlessRequest) -> Option<ProtocolFault> {
    if request.protocol@ != HEADLESS_PROTOCOL@ {
        Some(ProtocolFault::UnsupportedProtocol(request.protocol@))
    } else if is_blank(request.request_id@) {
        Some(ProtocolFault::BlankRequestId)
    } else {
        None
    }
}

/// What becomes of a line, given what parsing it gave: the frame is looked at
/// first, then the parse, then the request.
pub open spec fn line_fault(
    line: Seq<char>,
    parsed: Result<HeadlessRequest, String>,
) -> Option<ProtocolFault> {
    if !is_one_line(line) {
        Some(ProtocolFault::Framing("one JSONL request must occupy exactly one line"@))
    } else {
        match parsed {
            Err(message) => Some(ProtocolFault::Json(message@)),
            Ok(request) => header_fault(request),
        }
    }
}

fn one_line(line: &str) -> (r: bool)
    ensures
        r == is_one_line(line@),
{
    let chars = chars_of(line);
    let mut i: usize = 0;
    while i < chars.len()
        invariant
            i <= chars.len(),
            chars@ == line@,
            forall|j: int|
                0 <= j < i ==> (#[trigger] line@[j]) != '\n' && line@[j] != '\r',
        decreases chars.len() - i,
    {
        if chars[i] == '\n' || chars[i] == '\r' {
            assert(line@[i as int] == '\n' || line@[i as int] == '\r');
            return false;
        }
        i = i + 1;
    }
    true
}

impl HeadlessRequest {
    /// The request that a line holds, given what parsing the line gave.
    pub fn from_jsonl(line: &str, parsed: Result<HeadlessRequest, String>) -> (r: Result<
        HeadlessRequest,
        HeadlessProtocolError,
    >)
        ensures
            match line_fault(line@, parsed) {
                Some(fault) => r matches Err(error) && error@ == fault,
                None => r matches Ok(request) && request == parsed->Ok_0,
            },
    {
        if !one_line(line) {
            return Err(
                HeadlessProtocolError::Framing(
                    owned("one JSONL request must occupy exactly one line"),
                ),
            );
        }
        let request = match parsed {
            Ok(request) => request,
            Err(message) => {
                return Err(HeadlessProtocolError::Json(message));
            },
        };
        match request.validate() {
            Ok(()) => Ok(request),
            Err(error) => Err(error),
        }
    }

    fn validate(&self) -> (r: Result<(), HeadlessProtocolError>)
        ensures
            match header_fault(*self) {
                Some(fault) => r matches Err(error) && error@ == fault,
                None => r is Ok,
            },
    {
        if !same_text(self.protocol.as_str(), HEADLESS_PROTOCOL) {
            return Err(HeadlessProtocolError::UnsupportedProtocol(self.protocol.clone()));
        }
        if blank(self.request_id.as_str()) {
            return Err(HeadlessProtocolError::InvalidRequest(RequestRefusal::BlankRequestId));
        }
        Ok(())
    }
}

// ----- responses ----------------------------------------------------------

/// How far a reading was verified, as a response says it.
#[derive(Clone, Copy, Debug, PartialEq, Eq, Structural)]
pub enum VerificationTierDto {
    GraphOnly,
    SourceMatched,
    Replicated,
}

/// How a response says how far a reading was verified.
pub open spec fn tier_of(value: VerificationTier) -> VerificationTierDto {
    match value {
        VerificationTier::GraphOnly => VerificationTierDto::GraphOnly,
        VerificationTier::SourceMatched => VerificationTierDto::SourceMatched,
        VerificationTier::Replicated => VerificationTierDto::Replicated,
    }
}

impl From<VerificationTier> for VerificationTierDto {
    fn from(value: VerificationTier) -> (r: Self) {
        match value {
            VerificationTier::GraphOnly => VerificationTierDto::GraphOnly,
            VerificationTier::SourceMatched => VerificationTierDto::SourceMatched,
            VerificationTier::Replicated => VerificationTierDto::Replicated,
        }
    }
}

impl vstd::std_specs::convert::FromSpecImpl<VerificationTier> for VerificationTierDto {
    open spec fn obeys_from_spec() -> bool {
        true
    }

    open spec fn from_spec(value: VerificationTier) -> Self {
        tier_of(value)
    }
}

/// What an import would do, as a response says it.
#[derive(Debug, PartialEq)]
pub struct ImportPlanSummaryDto {
    pub reading_id: ReadingId,
    pub reading_revision: u64,
    pub verification: VerificationTierDto,
    pub entities: Vec<QualifiedEntityId>,
    pub preserved_sections: Vec<ReadingSection>,
}

/// Whether a response says what an import would do.
pub open spec fn is_summary(summary: ImportPlanSummaryDto, plan: PlanView) -> bool {
    &&& summary.reading_id == plan.reading_id
    &&& summary.reading_revision == plan.reading_revision
    &&& summary.verification == tier_of(plan.verification)
    &&& entity_keys(summary.entities@) == plan.entities.map_values(|e: PlannedView| e.id)
    &&& section_views(summary.preserved_sections@) == plan.preserved_sections
}

fn summarize(plan: &ReadingImportPlan) -> (r: ImportPlanSummaryDto)
    ensures
        is_summary(r, plan@),
{
    let mut entities: Vec<QualifiedEntityId> = Vec::new();
    let mut i: usize = 0;
    while i < plan.entities.len()
        invariant
            i <= plan.entities.len(),
            entities@.len() == i,
            forall|k: int|
                0 <= k < i ==> (#[trigger] entities@[k])@ == plan.entities@[k]@.id,
        decreases plan.entities.len() - i,
    {
        entities.push(plan.entities[i].id.clone());
        i = i + 1;
    }
    assert(entity_keys(entities@) =~= plan@.entities.map_values(|e: PlannedView| e.id));
    ImportPlanSummaryDto {
        reading_id: plan.reading_id,
        reading_revision: plan.reading_revision,
        verification: VerificationTierDto::from(plan.verification),
        entities,
        preserved_sections: copy_sections(&plan.preserved_sections),
    }
}

/// Which hypothesis became which, as a response says it.
#[derive(Debug, PartialEq, Eq)]
pub struct ForeignMappingDto {
    pub foreign: QualifiedEntityId,
    pub project_id: u64,
}

/// Whether a response says which hypotheses became which.
pub open spec fn says_mappings(
    list: Seq<ForeignMappingDto>,
    mappings: Seq<ForeignHypothesisMapping>,
) -> bool {
    &&& list.len() == mappings.len()
    &&& forall|i: int|
        0 <= i < list.len() ==> (#[trigger] list[i]).foreign@ == mappings[i].foreign@
            && list[i].project_id == mappings[i].project.0
}

fn mapping_dtos(mappings: &Vec<ForeignHypothesisMapping>) -> (r: Vec<ForeignMappingDto>)
    ensures
        says_mappings(r@, mappings@),
{
    let mut list: Vec<ForeignMappingDto> = Vec::new();
    let mut i: usize = 0;
    while i < mappings.len()
        invariant
            i <= mappings.len(),
            list@.len() == i,
            forall|k: int|
                0 <= k < i ==> (#[trigger] list@[k]).foreign@ == mappings@[k].foreign@
                    && list@[k].project_id == mappings@[k].project.0,
        decreases mappings.len() - i,
    {
        list.push(
            ForeignMappingDto {
                foreign: mappings[i].foreign.clone(),
                project_id: mappings[i].project.0,
            },
        );
        i = i + 1;
    }
    list
}

/// A section that was kept without being understood, and whose it is.
#[derive(Debug, PartialEq)]
pub struct PreservedSectionDto {
    pub reading_id: ReadingId,
    pub reading_revision: u64,
    pub section: ReadingSection,
}

/// What a kept section holds.
pub struct KeptView {
    pub reading_id: ReadingId,
    pub reading_revision: u64,
    pub section: SectionView,
}

impl View for PreservedSectionDto {
    type V = KeptView;

    open spec fn view(&self) -> KeptView {
        KeptView {
            reading_id: self.reading_id,
            reading_revision: self.reading_revision,
            section: self.section@,
        }
    }
}

/// What kept sections hold.
pub open spec fn kept_views(list: Seq<PreservedSectionDto>) -> Seq<KeptView> {
    list.map_values(|p: PreservedSectionDto| p@)
}

/// The kept sections of one reading.
pub open spec fn kept_of(preserved: PreservedView) -> Seq<KeptView> {
    preserved.sections.map_values(
        |s: SectionView|
            KeptView {
                reading_id: preserved.reading_id,
                reading_revision: preserved.revision,
                section: s,
            },
    )
}

/// The kept sections of the first `i` readings.
pub open spec fn kept(list: Seq<PreservedView>, i: int) -> Seq<KeptView>
    decreases i,
{
    if i <= 0 {
        Seq::empty()
    } else {
        kept(list, i - 1) + kept_of(list[i - 1])
    }
}

fn kept_sections(list: &Vec<PreservedSections>) -> (r: Vec<PreservedSectionDto>)
    ensures
        kept_views(r@) == kept(preserved_views(list@), list@.len() as int),
{
    let ghost views = preserved_views(list@);
    let mut out: Vec<PreservedSectionDto> = Vec::new();
    let mut i: usize = 0;
    assert(kept_views(out@) =~= Seq::<KeptView>::empty());
    while i < list.len()
        invariant
            i <= list.len(),
            views == preserved_views(list@),
            kept_views(out@) == kept(views, i as int),
        decreases list.len() - i,
    {
        let from = &list[i];
        let ghost done = kept_views(out@);
        let ghost more = kept_of(from@);
        assert(views[i as int] == from@);
        let mut k: usize = 0;
        assert(kept_views(out@) =~= done + more.take(0));
        while k < from.sections.len()
            invariant
                k <= from.sections.len(),
                more == kept_of(from@),
                kept_views(out@) == done + more.take(k as int),
            decreases from.sections.len() - k,
        {
            let ghost before = kept_views(out@);
            let kept_section = PreservedSectionDto {
                reading_id: from.reading_id,
                reading_revision: from.revision,
                section: from.sections[k].copy(),
            };
            assert(kept_section@ == more[k as int]);
            out.push(kept_section);
            assert(kept_views(out@) =~= before.push(kept_section@));
            assert(kept_views(out@) =~= done + more.take(k as int + 1));
            k = k + 1;
        }
        assert(more.take(k as int) =~= more);
        i = i + 1;
    }
    out
}

/// What a request is answered.
#[derive(Debug, PartialEq)]
pub enum HeadlessResponseBody {
    QueryPage { document: QueryDocument },
    ReadingVerified { tier: VerificationTierDto },
    ImportPlanned { plan: ImportPlanSummaryDto },
    CommandPlanned {
        base_revision: u64,
        batch: DurableCommandBatch,
        mappings: Vec<ForeignMappingDto>,
        preserved_sections: Vec<PreservedSectionDto>,
    },
    RenderPlanned { target: AuditionTarget },
}

/// One response.
#[derive(Debug, PartialEq)]
pub struct HeadlessResponse {
    pub protocol: String,
    pub request_id: String,
    pub body: HeadlessResponseBody,
}

/// Whether a response belongs to a request.
pub open spec fn responds(response: HeadlessResponse, request_id: Seq<char>) -> bool {
    response.protocol@ == HEADLESS_PROTOCOL@ && response.request_id@ == request_id
}

impl HeadlessResponse {
    /// The line of a response, given what writing it as text gave.
    pub fn to_jsonl(&self, encoded: Result<String, String>) -> (r: Result<
        String,
        HeadlessProtocolError,
    >)
        ensures
            match encoded {
                Ok(text) => r matches Ok(line) && line@ == text@.push('\n'),
                Err(message) => r matches Err(error) && error@ == ProtocolFault::Json(message@),
            },
    {
        match encoded {
            Ok(text) => {
                let mut line = text;
                line.append("\n");
                proof {
                    reveal_strlit("\n");
                }
                assert(line@ =~= text@.push('\n'));
                Ok(line)
            },
            Err(message) => Err(HeadlessProtocolError::Json(message)),
        }
    }
}

/// What the host does with a request that was answered.
#[derive(Debug, PartialEq)]
pub enum HeadlessDispatch {
    Observation(HeadlessResponse),
    Command { response: HeadlessResponse, envelope: CommandEnvelope },
    Render { response: HeadlessResponse, target: AuditionTarget },
}

/// The response of a request that was answered.
pub open spec fn response_of(dispatch: HeadlessDispatch) -> HeadlessResponse {
    match dispatch {
        HeadlessDispatch::Observation(response) => response,
        HeadlessDispatch::Command { response, .. } => response,
        HeadlessDispatch::Render { response, .. } => response,
    }
}

impl HeadlessDispatch {
    /// The response.
    pub fn response(&self) -> (r: &HeadlessResponse)
        ensures
            *r == response_of(*self),
    {
        match self {
            HeadlessDispatch::Observation(response) => response,
            HeadlessDispatch::Command { response, .. } => response,
            HeadlessDispatch::Render { response, .. } => response,
        }
    }
}

/// A planned command that has to be written in its stored form before it is
/// answered.
#[derive(Debug, PartialEq)]
pub struct PlannedCommand {
    pub request_id: String,
    pub planned: UndoableForeignImport,
    pub preserved_sections: Vec<PreservedSectionDto>,
}

/// What a request leads to.
#[derive(Debug, PartialEq)]
pub enum HeadlessStep {
    Answered(HeadlessDispatch),
    /// The host writes the batch and hands it to [`PlannedCommand::finish`].
    Encode(PlannedCommand),
}

fn respond(request_id: String, body: HeadlessResponseBody) -> (r: HeadlessResponse)
    ensures
        responds(r, request_id@),
        r.body == body,
{
    HeadlessResponse { protocol: owned(HEADLESS_PROTOCOL), request_id, body }
}

impl PlannedCommand {
    /// The answer, given the stored form of the batch.
    pub fn finish(self, encoded: Result<DurableCommandBatch, String>) -> (r: Result<
        HeadlessDispatch,
        HeadlessProtocolError,
    >)
        ensures
            match encoded {
                Err(message) => r matches Err(error) && error@ == ProtocolFault::Codec(message@),
                Ok(batch) => {
                    &&& r matches Ok(HeadlessDispatch::Command { response, envelope })
                    &&& envelope == self.planned.envelope
                    &&& responds(response, self.request_id@)
                    &&& response.body matches HeadlessResponseBody::CommandPlanned {
                        base_revision,
                        batch: stored,
                        mappings,
                        preserved_sections,
                    }
                    &&& base_revision == self.planned.envelope.base_revision
                    &&& stored == batch
                    &&& says_mappings(mappings@, self.planned.mappings@)
                    &&& preserved_sections == self.preserved_sections
                },
            },
    {
        match encoded {
            Err(message) => Err(HeadlessProtocolError::Codec(message)),
            Ok(batch) => {
                let mappings = mapping_dtos(&self.planned.mappings);
                let base_revision: u64 = self.planned.envelope.base_revision;
                let response = respond(
                    self.request_id,
                    HeadlessResponseBody::CommandPlanned {
                        base_revision,
                        batch,
                        mappings,
                        preserved_sections: self.preserved_sections,
                    },
                );
                Ok(HeadlessDispatch::Command { response, envelope: self.planned.envelope })
            },
        }
    }
}

// ----- allocations --------------------------------------------------------

/// Whether a hypothesis is allocated among the first `i`.
pub open spec fn allocated_before(
    values: Seq<ForeignHypothesisAllocationDto>,
    id: EntityKey,
    i: int,
) -> bool {
    exists|j: int| 0 <= j < i && (#[trigger] values[j]).foreign@ == id
}

/// The first allocation from `i` on of a hypothesis that has one already.
pub open spec fn repeated_allocation(values: Seq<ForeignHypothesisAllocationDto>, i: int) -> Option<
    EntityKey,
>
    decreases values.len() - i,
{
    if i < 0 || i >= values.len() {
        None
    } else if allocated_before(values, values[i].foreign@, i) {
        Some(values[i].foreign@)
    } else {
        repeated_allocation(values, i + 1)
    }
}

/// Whether a group is allocated among the first `i`.
pub open spec fn group_before(
    values: Seq<HypothesisSetAllocationDto>,
    group: Seq<char>,
    i: int,
) -> bool {
    exists|j: int| 0 <= j < i && (#[trigger] values[j]).group@ == group
}

/// The first group from `i` on without a name or with an allocation already.
pub open spec fn bad_group(values: Seq<HypothesisSetAllocationDto>, i: int) -> Option<Seq<char>>
    decreases values.len() - i,
{
    if i < 0 || i >= values.len() {
        None
    } else if is_blank(values[i].group@) || group_before(values, values[i].group@, i) {
        Some(values[i].group@)
    } else {
        bad_group(values, i + 1)
    }
}

fn collect_hypothesis_allocations(values: &Vec<ForeignHypothesisAllocationDto>) -> (r: Result<
    (),
    HeadlessProtocolError,
>)
    ensures
        match repeated_allocation(values@, 0) {
            Some(id) => r matches Err(error) && error@ == ProtocolFault::DuplicateAllocation(id),
            None => r is Ok && distinct_foreign(values@),
        },
{
    let mut i: usize = 0;
    while i < values.len()
        invariant
            i <= values.len(),
            repeated_allocation(values@, 0) == repeated_allocation(values@, i as int),
            forall|a: int, b: int|
                0 <= a < b < i ==> (#[trigger] values@[a]).foreign@ != (
                #[trigger] values@[b]).foreign@,
        decreases values.len() - i,
    {
        let mut j: usize = 0;
        while j < i
            invariant
                j <= i < values.len(),
                repeated_allocation(values@, 0) == repeated_allocation(values@, i as int),
                forall|a: int|
                    0 <= a < j ==> (#[trigger] values@[a]).foreign@ != values@[i as int].foreign@,
            decreases i - j,
        {
            if values[j].foreign.same(&values[i].foreign) {
                assert(values@[j as int].foreign@ == values@[i as int].foreign@);
                return Err(
                    HeadlessProtocolError::InvalidRequest(
                        RequestRefusal::DuplicateAllocation(values[i].foreign.clone()),
                    ),
                );
            }
            j = j + 1;
        }
        assert(!allocated_before(values@, values@[i as int].foreign@, i as int));
        i = i + 1;
    }
    Ok(())
}

fn collect_set_allocations(values: &Vec<HypothesisSetAllocationDto>) -> (r: Result<
    (),
    HeadlessProtocolError,
>)
    ensures
        match bad_group(values@, 0) {
            Some(group) => r matches Err(error) && error@ == ProtocolFault::HypothesisGroup(group),
            None => r is Ok && distinct_groups(values@),
        },
{
    let mut i: usize = 0;
    while i < values.len()
        invariant
            i <= values.len(),
            bad_group(values@, 0) == bad_group(values@, i as int),
            forall|a: int, b: int|
                0 <= a < b < i ==> (#[trigger] values@[a]).group@ != (#[trigger] values@[b]).group@,
        decreases values.len() - i,
    {
        if blank(values[i].group.as_str()) {
            return Err(
                HeadlessProtocolError::InvalidRequest(
                    RequestRefusal::HypothesisGroup(values[i].group.clone()),
                ),
            );
        }
        let mut j: usize = 0;
        while j < i
            invariant
                j <= i < values.len(),
                bad_group(values@, 0) == bad_group(values@, i as int),
                forall|a: int|
                    0 <= a < j ==> (#[trigger] values@[a]).group@ != values@[i as int].group@,
            decreases i - j,
        {
            if same_text(values[j].group.as_str(), values[i].group.as_str()) {
                assert(values@[j as int].group@ == values@[i as int].group@);
                return Err(
                    HeadlessProtocolError::InvalidRequest(
                        RequestRefusal::HypothesisGroup(values[i].group.clone()),
                    ),
                );
            }
            j = j + 1;
        }
        assert(!group_before(values@, values@[i as int].group@, i as int));
        i = i + 1;
    }
    Ok(())
}

// ----- planning imports ---------------------------------------------------

/// How readings are imported: unknown sections as the request says, and no reading
/// without its entities.
pub open spec fn import_options(unknown_sections: UnknownSectionPolicy) -> ReadingImportOptions {
    ReadingImportOptions { unknown_sections, require_entity_section: true }
}

/// The plan for one reading of a request.
pub open spec fn input_plan(
    reading: DecodedReading,
    local_source: Option<LocalSourceDto>,
    existing: Seq<QualifiedEntityId>,
    unknown_sections: UnknownSectionPolicy,
) -> Result<PlanView, ImportFault> {
    import_plan(
        reading.reading,
        reading.entities,
        optional_descriptor(local_source),
        entity_keys(existing),
        import_options(unknown_sections),
    )
}

/// The plans for the first `i` readings of a request, or the first fault.
pub open spec fn input_plans(
    readings: Seq<ReadingInputDto>,
    existing: Seq<QualifiedEntityId>,
    unknown_sections: UnknownSectionPolicy,
    i: int,
) -> Result<Seq<PlanView>, ImportFault>
    decreases i,
{
    if i <= 0 {
        Ok(Seq::empty())
    } else {
        match input_plans(readings, existing, unknown_sections, i - 1) {
            Err(fault) => Err(fault),
            Ok(plans) => match input_plan(
                *readings[i - 1].reading,
                readings[i - 1].local_source,
                existing,
                unknown_sections,
            ) {
                Err(fault) => Err(fault),
                Ok(plan) => Ok(plans.push(plan)),
            },
        }
    }
}

proof fn faults_stay(
    readings: Seq<ReadingInputDto>,
    existing: Seq<QualifiedEntityId>,
    unknown_sections: UnknownSectionPolicy,
    i: int,
    n: int,
)
    requires
        0 <= i <= n,
        input_plans(readings, existing, unknown_sections, i) is Err,
    ensures
        input_plans(readings, existing, unknown_sections, n) == input_plans(
            readings,
            existing,
            unknown_sections,
            i,
        ),
    decreases n,
{
    if i < n {
        faults_stay(readings, existing, unknown_sections, i, n - 1);
    }
}

fn plan_input(
    reading: &DecodedReading,
    local_source: Option<LocalSourceDto>,
    existing: &Vec<QualifiedEntityId>,
    unknown_sections: UnknownSectionPolicy,
) -> (r: Result<ReadingImportPlan, HeadlessProtocolError>)
    ensures
        match input_plan(*reading, local_source, existing@, unknown_sections) {
            Ok(plan) => r matches Ok(made) && made@ == plan,
            Err(fault) => r matches Err(error) && error@ == ProtocolFault::Import(fault),
        },
{
    let local = described(local_source);
    let options = ReadingImportOptions { unknown_sections, require_entity_section: true };
    match plan_reading_import(
        &reading.reading,
        &reading.entities,
        local.as_ref(),
        existing,
        options,
    ) {
        Ok(plan) => Ok(plan),
        Err(refusal) => Err(HeadlessProtocolError::Reading(ReadingRefusal::Import(refusal))),
    }
}

pub(crate) fn plan_inputs(
    readings: &Vec<ReadingInputDto>,
    existing: &Vec<QualifiedEntityId>,
    unknown_sections: UnknownSectionPolicy,
) -> (r: Result<Vec<ReadingImportPlan>, HeadlessProtocolError>)
    ensures
        match input_plans(readings@, existing@, unknown_sections, readings@.len() as int) {
            Ok(plans) => r matches Ok(made) && plan_views(made@) == plans,
            Err(fault) => r matches Err(error) && error@ == ProtocolFault::Import(fault),
        },
{
    let mut plans: Vec<ReadingImportPlan> = Vec::new();
    let mut i: usize = 0;
    assert(plan_views(plans@) =~= Seq::<PlanView>::empty());
    while i < readings.len()
        invariant
            i <= readings.len(),
            input_plans(readings@, existing@, unknown_sections, i as int) == Ok::<
                Seq<PlanView>,
                ImportFault,
            >(plan_views(plans@)),
        decreases readings.len() - i,
    {
        let ghost before = plan_views(plans@);
        match plan_input(
            &readings[i].reading,
            readings[i].local_source,
            existing,
            unknown_sections,
        ) {
            Ok(plan) => {
                plans.push(plan);
                assert(plan_views(plans@) =~= before.push(plan@));
            },
            Err(error) => {
                proof {
                    faults_stay(
                        readings@,
                        existing@,
                        unknown_sections,
                        i as int + 1,
                        readings@.len() as int,
                    );
                }
                return Err(error);
            },
        }
        i = i + 1;
    }
    Ok(plans)
}

// ----- dispatch -----------------------------------------------------------

/// What the host computed for a request: the address of a query and what running
/// it gave, or what reading a stored batch gave.
#[derive(Debug, PartialEq)]
pub enum HostAnswer {
    Nothing,
    Query { content_address: Result<PortableDigest, String>, run: QueryRun },
    Batch(Result<CommandBatch, String>),
}

/// Whether the host computed what a request needs.
pub open spec fn answer_fits(operation: HeadlessOperation, answer: HostAnswer) -> bool {
    &&& operation is QueryPage ==> answer is Query
    &&& operation is Command ==> answer is Batch
}

/// A document after a page was added to it.
pub open spec fn is_paged(
    before: QueryDocument,
    provenance: QueryExecutionProvenance,
    page: QueryPageRequest,
    content_address: Result<PortableDigest, String>,
    run: QueryRun,
    after: QueryDocument,
) -> bool {
    let address = content_address->Ok_0;
    let rows = run.rows->Ok_0@;
    let start = requested_start(page, address)->Ok_0;
    let end = requested_end(start as int, page.limit, rows.len() as int);
    &&& after.results@.len() == before.results@.len() + 1
    &&& after.results@.drop_last() == before.results@
    &&& is_page(after.results@.last(), before, provenance, address, rows, start, end)
    &&& same_head(after, before)
}

/// What becomes of a request for hypotheses.
pub open spec fn import_outcome(
    request_id: Seq<char>,
    readings: Seq<ReadingInputDto>,
    existing: Seq<QualifiedEntityId>,
    unknown_sections: UnknownSectionPolicy,
    base_revision: u64,
    allocations: Seq<ForeignHypothesisAllocationDto>,
    sets: Seq<HypothesisSetAllocationDto>,
    outcome: Result<HeadlessStep, HeadlessProtocolError>,
) -> bool {
    if readings.len() == 0 {
        outcome matches Err(error) && error@ == ProtocolFault::NoReadings
    } else {
        match input_plans(readings, existing, unknown_sections, readings.len() as int) {
            Err(fault) => outcome matches Err(error) && error@ == ProtocolFault::Import(fault),
            Ok(plans) => match merged(plans) {
                Err(fault) => outcome matches Err(error) && error@ == ProtocolFault::Merge(fault),
                Ok(merge) => if repeated_allocation(allocations, 0) is Some {
                    outcome matches Err(error) && error@ == ProtocolFault::DuplicateAllocation(
                        repeated_allocation(allocations, 0)->0,
                    )
                } else if bad_group(sets, 0) is Some {
                    outcome matches Err(error) && error@ == ProtocolFault::HypothesisGroup(
                        bad_group(sets, 0)->0,
                    )
                } else {
                    match lowering_fault(merge, allocations, sets) {
                        Some(fault) => outcome matches Err(error) && error@
                            == ProtocolFault::Lowering(fault),
                        None => {
                            &&& outcome matches Ok(HeadlessStep::Encode(command))
                            &&& command.request_id@ == request_id
                            &&& is_lowering(
                                command.planned,
                                merge,
                                base_revision,
                                allocations,
                                sets,
                            )
                            &&& kept_views(command.preserved_sections@) == kept(
                                merge.preserved,
                                merge.preserved.len() as int,
                            )
                        },
                    }
                },
            },
        }
    }
}

/// What becomes of a request to plan a batch.
pub open spec fn batch_outcome(
    request_id: Seq<char>,
    base_revision: u64,
    decoded: Result<CommandBatch, String>,
    outcome: Result<HeadlessStep, HeadlessProtocolError>,
) -> bool {
    match decoded {
        Err(message) => outcome matches Err(error) && error@ == ProtocolFault::Codec(message@),
        Ok(batch) => if is_blank(batch.label@) || batch.commands@.len() == 0 {
            outcome matches Err(error) && error@ == ProtocolFault::EmptyBatch
        } else {
            &&& outcome matches Ok(HeadlessStep::Encode(command))
            &&& command.request_id@ == request_id
            &&& command.planned.envelope == (CommandEnvelope {
                label: batch.label,
                base_revision,
                coalesce: batch.coalesce,
                commands: batch.commands,
                id_claims: batch.id_claims,
            })
            &&& command.planned.mappings@ == Seq::<ForeignHypothesisMapping>::empty()
            &&& command.preserved_sections@ == Seq::<PreservedSectionDto>::empty()
        },
    }
}

/// What becomes of a request to render.
pub open spec fn render_outcome(
    request_id: Seq<char>,
    target: AuditionTarget,
    outcome: Result<HeadlessStep, HeadlessProtocolError>,
) -> bool {
    if !valid_reference(target.entity@) {
        outcome matches Err(error) && error@ == ProtocolFault::Render(target.entity@)
    } else {
        match geometry_fault(target.extent@) {
            Some(fault) => outcome matches Err(error) && error@ == ProtocolFault::Workbench(fault),
            None => {
                &&& outcome matches Ok(HeadlessStep::Answered(
                    HeadlessDispatch::Render { response, target: rendered },
                ))
                &&& rendered == target
                &&& responds(response, request_id)
                &&& response.body matches HeadlessResponseBody::RenderPlanned { target: said }
                &&& said.entity == target.entity
                &&& said.extent@ == target.extent@
            },
        }
    }
}

/// What becomes of a request to verify a reading.
pub open spec fn verify_outcome(
    request_id: Seq<char>,
    reading: ReadingFile,
    local_source: Option<LocalSourceDto>,
    outcome: Result<HeadlessStep, HeadlessProtocolError>,
) -> bool {
    match reading.fault() {
        Some(fault) => outcome matches Err(error) && error@ == ProtocolFault::InvalidReading(fault),
        None => match reading.source_check(optional_descriptor(local_source)) {
            Err(refusal) => outcome matches Err(error) && error@ == ProtocolFault::Source(refusal),
            Ok(found) => {
                &&& outcome matches Ok(HeadlessStep::Answered(HeadlessDispatch::Observation(
                    response,
                )))
                &&& responds(response, request_id)
                &&& response.body == (HeadlessResponseBody::ReadingVerified {
                    tier: tier_of(found),
                })
            },
        },
    }
}

/// What becomes of a request to plan an import.
pub open spec fn plan_outcome(
    request_id: Seq<char>,
    reading: DecodedReading,
    local_source: Option<LocalSourceDto>,
    existing: Seq<QualifiedEntityId>,
    unknown_sections: UnknownSectionPolicy,
    outcome: Result<HeadlessStep, HeadlessProtocolError>,
) -> bool {
    match input_plan(reading, local_source, existing, unknown_sections) {
        Err(fault) => outcome matches Err(error) && error@ == ProtocolFault::Import(fault),
        Ok(planned) => {
            &&& outcome matches Ok(HeadlessStep::Answered(HeadlessDispatch::Observation(response)))
            &&& responds(response, request_id)
            &&& response.body matches HeadlessResponseBody::ImportPlanned { plan }
            &&& is_summary(plan, planned)
        },
    }
}

/// What becomes of a request for a page.
pub open spec fn page_outcome(
    request_id: Seq<char>,
    document: QueryDocument,
    provenance: QueryExecutionProvenance,
    page: QueryPageRequest,
    content_address: Result<PortableDigest, String>,
    run: QueryRun,
    outcome: Result<HeadlessStep, HeadlessProtocolError>,
) -> bool {
    match page_refusal(document, provenance, page, content_address, run) {
        Some(fault) => outcome matches Err(error) && error@ == ProtocolFault::Workbench(fault),
        None => {
            &&& outcome matches Ok(HeadlessStep::Answered(HeadlessDispatch::Observation(response)))
            &&& responds(response, request_id)
            &&& response.body matches HeadlessResponseBody::QueryPage { document: paged }
            &&& is_paged(document, provenance, page, content_address, run, paged)
        },
    }
}

/// What becomes of a request.
pub open spec fn dispatched(
    request: HeadlessRequest,
    answer: HostAnswer,
    outcome: Result<HeadlessStep, HeadlessProtocolError>,
) -> bool {
    if header_fault(request) is Some {
        outcome matches Err(error) && error@ == header_fault(request)->0
    } else {
        let id = request.request_id@;
        match request.operation {
            HeadlessOperation::QueryPage { document, provenance, page } => page_outcome(
                id,
                document,
                provenance,
                page,
                answer->content_address,
                answer->run,
                outcome,
            ),
            HeadlessOperation::VerifyReading { reading, local_source } => verify_outcome(
                id,
                reading.reading,
                local_source,
                outcome,
            ),
            HeadlessOperation::PlanReadingImport {
                reading,
                local_source,
                existing,
                unknown_sections,
            } => plan_outcome(id, *reading, local_source, existing@, unknown_sections, outcome),
            HeadlessOperation::ImportHypotheses {
                readings,
                existing,
                unknown_sections,
                base_revision,
                hypothesis_allocations,
                set_allocations,
            } => import_outcome(
                id,
                readings@,
                existing@,
                unknown_sections,
                base_revision,
                hypothesis_allocations@,
                set_allocations@,
                outcome,
            ),
            HeadlessOperation::Command { base_revision, .. } => batch_outcome(
                id,
                base_revision,
                answer->Batch_0,
                outcome,
            ),
            HeadlessOperation::Render { target } => render_outcome(id, target, outcome),
        }
    }
}

/// Answers requests. It holds what the host computed for one of them, owns no
/// project and cannot apply anything.
#[derive(Debug, PartialEq)]
pub struct HeadlessSessionAdapter {
    answer: HostAnswer,
}

fn import_hypotheses(
    request_id: String,
    readings: &Vec<ReadingInputDto>,
    existing: &Vec<QualifiedEntityId>,
    unknown_sections: UnknownSectionPolicy,
    base_revision: u64,
    allocations: &Vec<ForeignHypothesisAllocationDto>,
    sets: &Vec<HypothesisSetAllocationDto>,
) -> (r: Result<HeadlessStep, HeadlessProtocolError>)
    ensures
        import_outcome(
            request_id@,
            readings@,
            existing@,
            unknown_sections,
            base_revision,
            allocations@,
            sets@,
            r,
        ),
{
    if readings.len() == 0 {
        return Err(HeadlessProtocolError::InvalidRequest(RequestRefusal::NoReadings));
    }
    let plans = match plan_inputs(readings, existing, unknown_sections) {
        Ok(plans) => plans,
        Err(error) => {
            return Err(error);
        },
    };
    let merge = match merge_as_coexisting_hypotheses(&plans) {
        Ok(merge) => merge,
        Err(refusal) => {
            return Err(HeadlessProtocolError::Reading(ReadingRefusal::Merge(refusal)));
        },
    };
    match collect_hypothesis_allocations(allocations) {
        Ok(()) => {},
        Err(error) => {
            return Err(error);
        },
    }
    match collect_set_allocations(sets) {
        Ok(()) => {},
        Err(error) => {
            return Err(error);
        },
    }
    let planned = match lower_foreign_hypothesis_import(&merge, base_revision, allocations, sets) {
        Ok(planned) => planned,
        Err(refusal) => {
            return Err(HeadlessProtocolError::Command(CommandRefusal::Lowering(refusal)));
        },
    };
    let preserved_sections = kept_sections(&merge.preserved_sections);
    Ok(HeadlessStep::Encode(PlannedCommand { request_id, planned, preserved_sections }))
}

impl HeadlessSessionAdapter {
    /// What the host computed.
    pub closed spec fn answer(self) -> HostAnswer {
        self.answer
    }

    /// An adapter with what the host computed for a request.
    pub fn new(answer: HostAnswer) -> (r: HeadlessSessionAdapter)
        ensures
            r.answer() == answer,
    {
        HeadlessSessionAdapter { answer }
    }

    /// Answers the request that a line holds, given what parsing the line gave.
    pub fn dispatch_jsonl(self, line: &str, parsed: Result<HeadlessRequest, String>) -> (r: Result<
        HeadlessStep,
        HeadlessProtocolError,
    >)
        requires
            parsed matches Ok(request) ==> answer_fits(request.operation, self.answer()),
        ensures
            match line_fault(line@, parsed) {
                Some(fault) => r matches Err(error) && error@ == fault,
                None => dispatched(parsed->Ok_0, self.answer(), r),
            },
    {
        match HeadlessRequest::from_jsonl(line, parsed) {
            Ok(request) => self.dispatch(request),
            Err(error) => Err(error),
        }
    }

    /// Answers a request.
    pub fn dispatch(self, request: HeadlessRequest) -> (r: Result<
        HeadlessStep,
        HeadlessProtocolError,
    >)
        requires
            answer_fits(request.operation, self.answer()),
        ensures
            dispatched(request, self.answer(), r),
    {
        match request.validate() {
            Ok(()) => {},
            Err(error) => {
                return Err(error);
            },
        }
        let request_id = request.request_id;
        match request.operation {
            HeadlessOperation::QueryPage { document, provenance, page } => {
                let (content_address, run) = match self.answer {
                    HostAnswer::Query { content_address, run } => (content_address, run),
                    _ => unreached(),
                };
                let mut paged = document;
                match execute_query_page(&mut paged, provenance, page, content_address, run) {
                    Ok(_) => {},
                    Err(error) => {
                        return Err(HeadlessProtocolError::Workbench(error));
                    },
                }
                let response = respond(
                    request_id,
                    HeadlessResponseBody::QueryPage { document: paged },
                );
                Ok(HeadlessStep::Answered(HeadlessDispatch::Observation(response)))
            },
            HeadlessOperation::VerifyReading { reading, local_source } => {
                match reading.reading.validate() {
                    Ok(()) => {},
                    Err(error) => {
                        return Err(
                            HeadlessProtocolError::Reading(ReadingRefusal::Invalid(error)),
                        );
                    },
                }
                let local = described(local_source);
                let tier = match reading.reading.verify_source(local.as_ref()) {
                    Ok(tier) => tier,
                    Err(refusal) => {
                        return Err(
                            HeadlessProtocolError::Reading(ReadingRefusal::Source(refusal)),
                        );
                    },
                };
                let response = respond(
                    request_id,
                    HeadlessResponseBody::ReadingVerified { tier: VerificationTierDto::from(tier) },
                );
                Ok(HeadlessStep::Answered(HeadlessDispatch::Observation(response)))
            },
            HeadlessOperation::PlanReadingImport {
                reading,
                local_source,
                existing,
                unknown_sections,
            } => {
                let plan = match plan_input(&reading, local_source, &existing, unknown_sections) {
                    Ok(plan) => plan,
                    Err(error) => {
                        return Err(error);
                    },
                };
                let response = respond(
                    request_id,
                    HeadlessResponseBody::ImportPlanned { plan: summarize(&plan) },
                );
                Ok(HeadlessStep::Answered(HeadlessDispatch::Observation(response)))
            },
            HeadlessOperation::ImportHypotheses {
                readings,
                existing,
                unknown_sections,
                base_revision,
                hypothesis_allocations,
                set_allocations,
            } => import_hypotheses(
                request_id,
                &readings,
                &existing,
                unknown_sections,
                base_revision,
                &hypothesis_allocations,
                &set_allocations,
            ),
            HeadlessOperation::Command { base_revision, .. } => {
                let decoded = match self.answer {
                    HostAnswer::Batch(decoded) => decoded,
                    _ => unreached(),
                };
                let batch = match decoded {
                    Ok(batch) => batch,
                    Err(message) => {
                        return Err(HeadlessProtocolError::Codec(message));
                    },
                };
                if blank(batch.label.as_str()) || batch.commands.len() == 0 {
                    return Err(HeadlessProtocolError::Command(CommandRefusal::EmptyBatch));
                }
                let envelope = CommandEnvelope::from_batch(base_revision, batch);
                Ok(
                    HeadlessStep::Encode(
                        PlannedCommand {
                            request_id,
                            planned: UndoableForeignImport { mappings: Vec::new(), envelope },
                            preserved_sections: Vec::new(),
                        },
                    ),
                )
            },
            HeadlessOperation::Render { target } => {
                if !target.entity.valid() {
                    return Err(HeadlessProtocolError::Render(target.entity));
                }
                match validate_geometry(&target.extent) {
                    Ok(()) => {},
                    Err(error) => {
                        return Err(HeadlessProtocolError::Workbench(error));
                    },
                }
                let response = respond(
                    request_id,
                    HeadlessResponseBody::RenderPlanned { target: target.copy() },
                );
                Ok(HeadlessStep::Answered(HeadlessDispatch::Render { response, target }))
            },
        }
    }
}

// ----- laws ---------------------------------------------------------------

/// A command is planned only by a request for one. What merely observes never
/// leads to one.
pub proof fn only_commands_are_planned(
    request: HeadlessRequest,
    answer: HostAnswer,
    step: HeadlessStep,
)
    requires
        answer_fits(request.operation, answer),
        dispatched(request, answer, Ok(step)),
    ensures
        step is Encode <==> request.operation is ImportHypotheses || request.operation is Command,
        step matches HeadlessStep::Answered(dispatch) ==> !(dispatch is Command),
{
}

/// Every answer names the protocol and the request it answers.
pub proof fn answers_name_their_request(
    request: HeadlessRequest,
    answer: HostAnswer,
    step: HeadlessStep,
)
    requires
        answer_fits(request.operation, answer),
        dispatched(request, answer, Ok(step)),
    ensures
        match step {
            HeadlessStep::Answered(dispatch) => responds(
                response_of(dispatch),
                request.request_id@,
            ),
            HeadlessStep::Encode(command) => command.request_id@ == request.request_id@,
        },
{
}

/// A request of another protocol or without an identity is refused, whatever it
/// asks for and whatever the host computed.
pub proof fn other_protocols_are_refused(
    request: HeadlessRequest,
    answer: HostAnswer,
    outcome: Result<HeadlessStep, HeadlessProtocolError>,
)
    requires
        dispatched(request, answer, outcome),
        request.protocol@ != HEADLESS_PROTOCOL@ || is_blank(request.request_id@),
    ensures
        outcome is Err,
{
}

} // verus!
