//! The pane of the reading and query workbench, without its drawing.
//!
//! The pane owns drafts and what is shown of them. Whatever it wants done leaves it
//! as an effect: a request to observe, a command, a rendering, a reveal, or a new
//! state of its document. It applies nothing and never claims that something
//! outside succeeded.

use std::sync::Arc;

use vstd::prelude::*;
use vstd::string::*;

use crate::command::CommandEnvelope;
use crate::foreign_import::{ForeignHypothesisAllocationDto, HypothesisSetAllocationDto};
use crate::navigation::{optional_geometry, RegionDto};
use crate::protocol::{
    input_plans, plan_inputs, protocol_region, response_of, HeadlessDispatch, HeadlessOperation,
    HeadlessProtocolError, HeadlessRequest, HeadlessResponseBody, ProtocolFault, ReadingInputDto,
    VerificationTierDto, HEADLESS_PROTOCOL,
};
use crate::query_builder::{
    after_edit, BuilderFault, DraftEdit, DraftView, QueryBuilderRefusal, QueryBuilderState,
    QueryWrapOperator,
};
use crate::query_document::{
    is_residual_audition, is_workbench_kind, latest_hits, residual_fault, residual_guide,
    residual_term, AuditionTarget, DocumentView, QueryDocument, QueryDocumentId,
    QueryExecutionProvenance, QueryPageRequest, RevealTarget, ViewKind, WorkbenchActionRefusal,
    WorkbenchPaneFactory, WorkbenchPaneModel, WORKBENCH_NAMESPACE, WORKBENCH_VIEW_NAME,
};
use crate::query_terms::{compiled, term_label, FactKindDto};
use crate::reading::{EntityKey, QualifiedEntityId, ReadingId, VerificationTier};
use crate::reading_diff::{
    diff_readings, structural_diff, DiffView, ReadingDiff, SectionChangeKind,
};
use crate::reading_import::{
    planned_index, ImportFault, ReadingActionRefusal, ReadingImportPlan, ReadingImportRefusal,
    UnknownSectionPolicy,
};
use crate::reading_merge::{
    merge_as_coexisting_hypotheses, merged, plan_views, GroupView, MergeFault, MergeView,
    ReadingMergePlan, ReadingMergeRefusal,
};
use crate::text::{
    append_decimal, append_hex, append_wide_decimal, copy_optional_text, decimal, hex_text,
    optional_text, owned, same_text,
};
use crate::workbench_error::{WorkbenchError, WorkbenchFault};
use crate::wording::{pane_words, HostWords};

verus! {

// ----- effects ------------------------------------------------------------

/// Why a document changed.
#[derive(Clone, Copy, Debug, PartialEq, Eq, Structural)]
pub enum QueryDocumentChangeReason {
    ResidualGuideInstalled,
    QueryPageObserved,
}

/// A new state of the document.
#[derive(Debug, PartialEq)]
pub struct QueryDocumentChanged {
    pub document: QueryDocument,
    pub reason: QueryDocumentChangeReason,
}

/// What the pane wants done.
#[derive(Debug, PartialEq)]
pub enum ReadingQueryViewEffect {
    /// To be answered by the protocol; the answer comes back to the pane.
    Observation(HeadlessRequest),
    /// To be stopped; whatever comes of it is ignored.
    CancelObservation(String),
    /// To be submitted to the executor of the project.
    Command(CommandEnvelope),
    Render(AuditionTarget),
    Reveal(RevealTarget),
    DocumentChanged(QueryDocumentChanged),
}

// ----- notices ------------------------------------------------------------

/// What the pane is waiting for.
#[derive(Clone, Copy, Debug, PartialEq, Eq, Structural)]
pub enum ReadingQueryOperation {
    QueryFirstPage,
    QueryNextPage,
    VerifyReading,
    PlanReadingImport,
    ImportHypotheses,
}

/// The name of an operation.
pub open spec fn operation_name(operation: ReadingQueryOperation) -> Seq<char> {
    match operation {
        ReadingQueryOperation::QueryFirstPage => "QueryFirstPage"@,
        ReadingQueryOperation::QueryNextPage => "QueryNextPage"@,
        ReadingQueryOperation::VerifyReading => "VerifyReading"@,
        ReadingQueryOperation::PlanReadingImport => "PlanReadingImport"@,
        ReadingQueryOperation::ImportHypotheses => "ImportHypotheses"@,
    }
}

fn name_operation(operation: ReadingQueryOperation) -> (r: &'static str)
    ensures
        r@ == operation_name(operation),
{
    match operation {
        ReadingQueryOperation::QueryFirstPage => "QueryFirstPage",
        ReadingQueryOperation::QueryNextPage => "QueryNextPage",
        ReadingQueryOperation::VerifyReading => "VerifyReading",
        ReadingQueryOperation::PlanReadingImport => "PlanReadingImport",
        ReadingQueryOperation::ImportHypotheses => "ImportHypotheses",
    }
}

/// Why the pane refuses.
#[derive(Debug, PartialEq)]
pub enum PaneRefusal {
    Message(String),
    Builder(QueryBuilderRefusal),
    Workbench(WorkbenchError),
    Row(WorkbenchActionRefusal),
    Protocol(HeadlessProtocolError),
    LateRefusal { request_id: String, error: HeadlessProtocolError },
    Import(ReadingImportRefusal),
    Merge(ReadingMergeRefusal),
    UnknownPlannedEntity(QualifiedEntityId),
    ReadingAction(ReadingActionRefusal),
}

/// What a refusal of the pane says.
pub enum PaneFault {
    Message(Seq<char>),
    Builder(BuilderFault),
    Workbench(WorkbenchFault),
    Row(WorkbenchActionRefusal),
    Protocol(ProtocolFault),
    LateRefusal { request_id: Seq<char>, error: ProtocolFault },
    Import(ImportFault),
    Merge(MergeFault),
    UnknownPlannedEntity(EntityKey),
    ReadingAction(ReadingActionRefusal),
}

impl View for PaneRefusal {
    type V = PaneFault;

    open spec fn view(&self) -> PaneFault {
        match *self {
            PaneRefusal::Message(message) => PaneFault::Message(message@),
            PaneRefusal::Builder(refusal) => PaneFault::Builder(refusal@),
            PaneRefusal::Workbench(error) => PaneFault::Workbench(error@),
            PaneRefusal::Row(refusal) => PaneFault::Row(refusal),
            PaneRefusal::Protocol(error) => PaneFault::Protocol(error@),
            PaneRefusal::LateRefusal { request_id, error } => PaneFault::LateRefusal {
                request_id: request_id@,
                error: error@,
            },
            PaneRefusal::Import(refusal) => PaneFault::Import(refusal@),
            PaneRefusal::Merge(refusal) => PaneFault::Merge(refusal@),
            PaneRefusal::UnknownPlannedEntity(id) => PaneFault::UnknownPlannedEntity(id@),
            PaneRefusal::ReadingAction(refusal) => PaneFault::ReadingAction(refusal),
        }
    }
}

/// What the pane tells about itself.
#[derive(Debug, PartialEq)]
pub enum ReadingQueryPaneNotice {
    Ready,
    Pending { operation: ReadingQueryOperation, request_id: String },
    Empty(String),
    MissingSource(String),
    Cancelled(String),
    Refused(PaneRefusal),
    Observed(String),
    CommandAwaitingExecutor(String),
}

/// What a notice says.
pub enum NoticeView {
    Ready,
    Pending { operation: ReadingQueryOperation, request_id: Seq<char> },
    Empty(Seq<char>),
    MissingSource(Seq<char>),
    Cancelled(Seq<char>),
    Refused(PaneFault),
    Observed(Seq<char>),
    CommandAwaitingExecutor(Seq<char>),
}

impl View for ReadingQueryPaneNotice {
    type V = NoticeView;

    open spec fn view(&self) -> NoticeView {
        match *self {
            ReadingQueryPaneNotice::Ready => NoticeView::Ready,
            ReadingQueryPaneNotice::Pending { operation, request_id } => NoticeView::Pending {
                operation,
                request_id: request_id@,
            },
            ReadingQueryPaneNotice::Empty(text) => NoticeView::Empty(text@),
            ReadingQueryPaneNotice::MissingSource(text) => NoticeView::MissingSource(text@),
            ReadingQueryPaneNotice::Cancelled(text) => NoticeView::Cancelled(text@),
            ReadingQueryPaneNotice::Refused(refusal) => NoticeView::Refused(refusal@),
            ReadingQueryPaneNotice::Observed(text) => NoticeView::Observed(text@),
            ReadingQueryPaneNotice::CommandAwaitingExecutor(text) => {
                NoticeView::CommandAwaitingExecutor(text@)
            },
        }
    }
}

/// The colours of notices.
pub const MUTED: u32 = 0x8c98a9;

/// A colour.
pub const DIM: u32 = 0x596579;

/// A colour.
pub const CYAN: u32 = 0x50d8d7;

/// A colour.
pub const MAGENTA: u32 = 0xf172b6;

/// A colour.
pub const AMBER: u32 = 0xf6b760;

/// A colour.
pub const LIME: u32 = 0xa7d877;

/// The title and the colour of a notice.
pub open spec fn notice_label(notice: NoticeView) -> (Seq<char>, u32) {
    match notice {
        NoticeView::Ready => ("READY"@, MUTED),
        NoticeView::Pending { .. } => ("RUNNING"@, CYAN),
        NoticeView::Empty(_) => ("EMPTY"@, DIM),
        NoticeView::MissingSource(_) => ("SOURCE MISSING"@, AMBER),
        NoticeView::Cancelled(_) => ("CANCELLED"@, AMBER),
        NoticeView::Refused(_) => ("REFUSED"@, MAGENTA),
        NoticeView::Observed(_) => ("OBSERVED"@, LIME),
        NoticeView::CommandAwaitingExecutor(_) => ("COMMAND PLANNED"@, AMBER),
    }
}

/// The text of a notice, given the words of the host for what stands in a refusal.
pub open spec fn notice_detail(notice: NoticeView, host: HostWords) -> Seq<char> {
    match notice {
        NoticeView::Ready => "No operation is pending"@,
        NoticeView::Pending { operation, request_id } => operation_name(operation) + " · "@
            + request_id,
        NoticeView::Empty(text) => text,
        NoticeView::MissingSource(text) => text,
        NoticeView::Cancelled(text) => text,
        NoticeView::Refused(fault) => pane_words(fault, host),
        NoticeView::Observed(text) => text,
        NoticeView::CommandAwaitingExecutor(text) => text,
    }
}

impl ReadingQueryPaneNotice {
    /// The title and the colour of the notice.
    pub fn label(&self) -> (r: (&'static str, u32))
        ensures
            (r.0@, r.1) == notice_label(self@),
    {
        match self {
            ReadingQueryPaneNotice::Ready => ("READY", MUTED),
            ReadingQueryPaneNotice::Pending { .. } => ("RUNNING", CYAN),
            ReadingQueryPaneNotice::Empty(_) => ("EMPTY", DIM),
            ReadingQueryPaneNotice::MissingSource(_) => ("SOURCE MISSING", AMBER),
            ReadingQueryPaneNotice::Cancelled(_) => ("CANCELLED", AMBER),
            ReadingQueryPaneNotice::Refused(_) => ("REFUSED", MAGENTA),
            ReadingQueryPaneNotice::Observed(_) => ("OBSERVED", LIME),
            ReadingQueryPaneNotice::CommandAwaitingExecutor(_) => ("COMMAND PLANNED", AMBER),
        }
    }

    /// The text of the notice.
    pub fn detail(&self, host: &HostWords) -> (r: String)
        ensures
            r@ == notice_detail(self@, *host),
    {
        match self {
            ReadingQueryPaneNotice::Ready => owned("No operation is pending"),
            ReadingQueryPaneNotice::Pending { operation, request_id } => {
                let mut text = owned(name_operation(*operation));
                text.append(" · ");
                text.append(request_id.as_str());
                text
            },
            ReadingQueryPaneNotice::Empty(text) => text.clone(),
            ReadingQueryPaneNotice::MissingSource(text) => text.clone(),
            ReadingQueryPaneNotice::Cancelled(text) => text.clone(),
            ReadingQueryPaneNotice::Refused(refusal) => refusal.message(host),
            ReadingQueryPaneNotice::Observed(text) => text.clone(),
            ReadingQueryPaneNotice::CommandAwaitingExecutor(text) => text.clone(),
        }
    }

    /// The region that a refusal speaks of, which the host has words for.
    pub fn region(&self) -> (r: Option<RegionDto>)
        ensures
            r == match self@ {
                NoticeView::Refused(fault) => refused_region(fault),
                _ => None,
            },
    {
        match self {
            ReadingQueryPaneNotice::Refused(refusal) => match refusal {
                PaneRefusal::Workbench(WorkbenchError::InvalidRegion(region)) => Some(*region),
                PaneRefusal::Import(
                    ReadingImportRefusal::Workbench(WorkbenchError::InvalidRegion(region)),
                ) => Some(*region),
                PaneRefusal::Protocol(error) => error.region(),
                PaneRefusal::LateRefusal { error, .. } => error.region(),
                _ => None,
            },
            _ => None,
        }
    }
}

/// The region that a refusal speaks of.
pub open spec fn refused_region(fault: PaneFault) -> Option<RegionDto> {
    match fault {
        PaneFault::Workbench(WorkbenchFault::InvalidRegion(region)) => Some(region),
        PaneFault::Import(ImportFault::Workbench(WorkbenchFault::InvalidRegion(region))) => Some(
            region,
        ),
        PaneFault::Protocol(error) => protocol_region(error),
        PaneFault::LateRefusal { error, .. } => protocol_region(error),
        _ => None,
    }
}

// ----- state --------------------------------------------------------------

/// What the host knows that the pane needs.
#[derive(Debug, PartialEq)]
pub struct ReadingQueryViewInputs {
    pub query_provenance: Option<QueryExecutionProvenance>,
    pub readings: Arc<Vec<ReadingInputDto>>,
    pub existing_entities: Arc<Vec<QualifiedEntityId>>,
    pub unknown_sections: UnknownSectionPolicy,
    pub base_revision: Option<u64>,
    pub hypothesis_allocations: Arc<Vec<ForeignHypothesisAllocationDto>>,
    pub set_allocations: Arc<Vec<HypothesisSetAllocationDto>>,
}

impl Default for ReadingQueryViewInputs {
    fn default() -> (r: Self)
        ensures
            r.query_provenance is None,
            r.readings@ == Seq::<ReadingInputDto>::empty(),
            r.existing_entities@ == Seq::<QualifiedEntityId>::empty(),
            r.unknown_sections == UnknownSectionPolicy::PreserveOpaque,
            r.base_revision is None,
            r.hypothesis_allocations@ == Seq::<ForeignHypothesisAllocationDto>::empty(),
            r.set_allocations@ == Seq::<HypothesisSetAllocationDto>::empty(),
    {
        ReadingQueryViewInputs {
            query_provenance: None,
            readings: Arc::new(Vec::new()),
            existing_entities: Arc::new(Vec::new()),
            unknown_sections: UnknownSectionPolicy::PreserveOpaque,
            base_revision: None,
            hypothesis_allocations: Arc::new(Vec::new()),
            set_allocations: Arc::new(Vec::new()),
        }
    }
}

/// A request that was not answered yet.
#[derive(Debug, PartialEq, Eq)]
pub struct PendingRequest {
    pub operation: ReadingQueryOperation,
    pub request_id: String,
}

/// What a request that was not answered yet is.
pub struct PendingView {
    pub operation: ReadingQueryOperation,
    pub request_id: Seq<char>,
}

/// What a request that was not answered yet is, if there is one.
pub open spec fn pending_view(pending: Option<PendingRequest>) -> Option<PendingView> {
    match pending {
        Some(pending) => Some(
            PendingView { operation: pending.operation, request_id: pending.request_id@ },
        ),
        None => None,
    }
}

/// What is shown of the pane.
#[derive(Debug, PartialEq)]
pub struct ReadingQueryPresentation<'a> {
    pub notice: &'a ReadingQueryPaneNotice,
    pub query_label: String,
    pub query_dirty: bool,
    pub result_rows: usize,
    pub selected_row: Option<usize>,
    pub result_pages: usize,
    pub reading_count: usize,
    pub selected_reading: Option<usize>,
    pub has_diff: bool,
    pub merged_hypotheses: usize,
    pub residual_targets: usize,
}

/// The pane.
pub struct ReadingQueryView {
    model: WorkbenchPaneModel,
    builder: QueryBuilderState,
    inputs: ReadingQueryViewInputs,
    selected_reading: Option<usize>,
    diff: Option<ReadingDiff>,
    merge: Option<ReadingMergePlan>,
    reading_plans: Vec<ReadingImportPlan>,
    residual: Option<Vec<AuditionTarget>>,
    pending: Option<PendingRequest>,
    notice: ReadingQueryPaneNotice,
    next_request: u64,
}

/// What the pane holds.
pub struct PaneView {
    pub document: QueryDocument,
    pub selected_row: Option<usize>,
    pub draft: DraftView,
    pub inputs: ReadingQueryViewInputs,
    pub selected_reading: Option<usize>,
    pub diff: Option<DiffView>,
    pub merge: Option<MergeView>,
    pub plans: Seq<ReadingImportPlan>,
    pub residual: Option<Seq<AuditionTarget>>,
    pub pending: Option<PendingView>,
    pub notice: NoticeView,
    pub next_request: u64,
}

impl View for ReadingQueryView {
    type V = PaneView;

    closed spec fn view(&self) -> PaneView {
        PaneView {
            document: self.model.doc(),
            selected_row: self.model.selection(),
            draft: self.builder@,
            inputs: self.inputs,
            selected_reading: self.selected_reading,
            diff: match self.diff {
                Some(diff) => Some(diff@),
                None => None,
            },
            merge: match self.merge {
                Some(merge) => Some(merge@),
                None => None,
            },
            plans: self.reading_plans@,
            residual: match self.residual {
                Some(auditions) => Some(auditions@),
                None => None,
            },
            pending: pending_view(self.pending),
            notice: self.notice@,
            next_request: self.next_request,
        }
    }
}

impl PaneView {
    /// A selected reading is one of those there are.
    pub open spec fn wf(self) -> bool {
        self.selected_reading matches Some(index) ==> index < self.inputs.readings@.len()
    }
}

/// A pane with another notice.
pub open spec fn noticed(pane: PaneView, notice: NoticeView) -> PaneView {
    PaneView { notice, ..pane }
}

/// A pane that refuses.
pub open spec fn refused(pane: PaneView, fault: PaneFault) -> PaneView {
    noticed(pane, NoticeView::Refused(fault))
}

// ----- observations -------------------------------------------------------

/// The name of the next request.
pub open spec fn request_text(pane: PaneView) -> Seq<char> {
    "pane-query-"@ + decimal(pane.document.id.0 as nat) + "-"@ + decimal(pane.next_request as nat)
}

/// The pane after a request was made.
pub open spec fn started(pane: PaneView, operation: ReadingQueryOperation) -> PaneView {
    let request_id = request_text(pane);
    PaneView {
        pending: Some(PendingView { operation, request_id }),
        notice: NoticeView::Pending { operation, request_id },
        next_request: if pane.next_request == u64::MAX {
            u64::MAX
        } else {
            (pane.next_request + 1) as u64
        },
        ..pane
    }
}

/// What asking for something comes to: one request at a time.
pub open spec fn observes(
    before: PaneView,
    operation: ReadingQueryOperation,
    effect: Option<ReadingQueryViewEffect>,
    after: PaneView,
) -> bool {
    match before.pending {
        Some(pending) => {
            &&& effect is None
            &&& after == refused(
                before,
                PaneFault::Message(
                    pending.request_id
                        + " is still pending; cancel it before starting another operation"@,
                ),
            )
        },
        None => {
            &&& effect matches Some(ReadingQueryViewEffect::Observation(request))
            &&& request.protocol@ == HEADLESS_PROTOCOL@
            &&& request.request_id@ == request_text(before)
            &&& after == started(before, operation)
        },
    }
}

/// Whether an effect, if it is a request, asks for an operation.
pub open spec fn asks(effect: Option<ReadingQueryViewEffect>, body: HeadlessOperation) -> bool {
    effect matches Some(ReadingQueryViewEffect::Observation(request)) ==> request.operation == body
}

// ----- pages --------------------------------------------------------------

/// Whether the draft asks for something else than the document.
pub open spec fn draft_differs(pane: PaneView) -> bool {
    pane.document.query.tree() != pane.draft.root
}

/// Why the draft cannot become the query of the document.
pub open spec fn draft_fault(pane: PaneView) -> Option<WorkbenchFault> {
    if !draft_differs(pane) {
        None
    } else {
        match compiled(pane.draft.root) {
            Err(fault) => Some(fault),
            Ok(_) => if pane.document.revision == u64::MAX {
                Some(WorkbenchFault::InvalidDocument("revision exhausted"@))
            } else {
                None
            },
        }
    }
}

/// The document that is asked for a page of: the draft under a new revision if it
/// differs.
pub open spec fn asked_document(pane: PaneView) -> DocumentView {
    if draft_differs(pane) {
        DocumentView {
            revision: (pane.document.revision + 1) as u64,
            query: pane.draft.root,
            ..pane.document@
        }
    } else {
        pane.document@
    }
}

/// What asking for a page comes to.
pub open spec fn page_requested(
    before: PaneView,
    cursor: Option<Seq<char>>,
    operation: ReadingQueryOperation,
    effect: Option<ReadingQueryViewEffect>,
    after: PaneView,
) -> bool {
    match before.inputs.query_provenance {
        None => {
            &&& effect is None
            &&& after == noticed(
                before,
                NoticeView::MissingSource(
                    "A fact snapshot digest/revision is required to run this query"@,
                ),
            )
        },
        Some(provenance) => match draft_fault(before) {
            Some(fault) => {
                &&& effect is None
                &&& after == refused(before, PaneFault::Workbench(fault))
            },
            None => {
                &&& observes(before, operation, effect, after)
                &&& effect matches Some(ReadingQueryViewEffect::Observation(request)) ==> {
                    &&& request.operation matches HeadlessOperation::QueryPage {
                        document,
                        provenance: stated,
                        page,
                    }
                    &&& document@ == asked_document(before)
                    &&& stated == provenance
                    &&& page.limit == 100
                    &&& optional_text(page.cursor) == cursor
                }
            },
        },
    }
}

/// The cursor of the newest result.
pub open spec fn next_cursor(document: QueryDocument) -> Option<Seq<char>> {
    if document.results@.len() == 0 {
        None
    } else {
        optional_text(document.results@.last().page.next_cursor)
    }
}

// ----- answers ------------------------------------------------------------

/// Whether an answer is the one that is waited for.
pub open spec fn awaited(pane: PaneView, request_id: Seq<char>) -> bool {
    pane.pending matches Some(pending) && pending.request_id == request_id
}

/// The pane when nothing is waited for any more.
pub open spec fn settled(pane: PaneView) -> PaneView {
    PaneView { pending: None, ..pane }
}

/// The name of a tier.
pub open spec fn tier_name(tier: VerificationTierDto) -> Seq<char> {
    match tier {
        VerificationTierDto::GraphOnly => "GraphOnly"@,
        VerificationTierDto::SourceMatched => "SourceMatched"@,
        VerificationTierDto::Replicated => "Replicated"@,
    }
}

fn name_tier(tier: VerificationTierDto) -> (r: &'static str)
    ensures
        r@ == tier_name(tier),
{
    match tier {
        VerificationTierDto::GraphOnly => "GraphOnly",
        VerificationTierDto::SourceMatched => "SourceMatched",
        VerificationTierDto::Replicated => "Replicated",
    }
}

/// What a page that was observed is told as.
pub open spec fn page_notice(rows: nat) -> NoticeView {
    if rows == 0 {
        NoticeView::Empty("The query completed with no matching facts"@)
    } else {
        NoticeView::Observed(
            "Query page contains "@ + decimal(rows) + " provenance-bearing rows"@,
        )
    }
}

/// Whether an effect publishes a document.
pub open spec fn publishes(
    effect: Option<ReadingQueryViewEffect>,
    document: QueryDocument,
    reason: QueryDocumentChangeReason,
) -> bool {
    &&& effect matches Some(ReadingQueryViewEffect::DocumentChanged(changed))
    &&& changed.document@ == document@
    &&& changed.reason == reason
}

/// The pane after it took over a document.
pub open spec fn adopted(pane: PaneView, document: QueryDocument, notice: NoticeView) -> PaneView {
    PaneView {
        document,
        selected_row: None,
        draft: DraftView {
            root: document.query.tree(),
            selected: Seq::<usize>::empty(),
            dirty: false,
        },
        notice,
        ..pane
    }
}

/// What an answer comes to.
pub open spec fn answered(
    before: PaneView,
    dispatch: HeadlessDispatch,
    effect: Option<ReadingQueryViewEffect>,
    after: PaneView,
) -> bool {
    let request_id = response_of(dispatch).request_id@;
    let pane = settled(before);
    if !awaited(before, request_id) {
        &&& effect is None
        &&& after == refused(
            before,
            PaneFault::Message("unknown or late response "@ + request_id),
        )
    } else {
        match dispatch {
            HeadlessDispatch::Observation(response) => match response.body {
                HeadlessResponseBody::QueryPage { document } => match document.fault() {
                    Some(fault) => effect is None && after == refused(
                        pane,
                        PaneFault::Workbench(fault),
                    ),
                    None => {
                        &&& publishes(
                            effect,
                            document,
                            QueryDocumentChangeReason::QueryPageObserved,
                        )
                        &&& after == adopted(
                            pane,
                            document,
                            page_notice(latest_hits(document).len()),
                        )
                    },
                },
                HeadlessResponseBody::ReadingVerified { tier } => {
                    &&& effect is None
                    &&& after == noticed(
                        pane,
                        NoticeView::Observed("Reading verification tier: "@ + tier_name(tier)),
                    )
                },
                HeadlessResponseBody::ImportPlanned { plan } => {
                    &&& effect is None
                    &&& after == noticed(
                        pane,
                        NoticeView::Observed(
                            "Import plan: "@ + decimal(plan.entities@.len())
                                + " qualified entities, "@ + decimal(
                                plan.preserved_sections@.len(),
                            ) + " preserved sections, "@ + tier_name(plan.verification),
                        ),
                    )
                },
                _ => {
                    &&& effect is None
                    &&& after == refused(
                        pane,
                        PaneFault::Message(
                            "The headless adapter returned an effect body as an observation"@,
                        ),
                    )
                },
            },
            HeadlessDispatch::Command { envelope, .. } => {
                &&& effect == Some(ReadingQueryViewEffect::Command(envelope))
                &&& after == noticed(
                    pane,
                    NoticeView::CommandAwaitingExecutor(
                        "The aggregate executor must validate, journal, and apply this envelope"@,
                    ),
                )
            },
            HeadlessDispatch::Render { target, .. } => {
                &&& effect == Some(ReadingQueryViewEffect::Render(target))
                &&& after == noticed(
                    pane,
                    NoticeView::Observed("Render intent handed to the audio host"@),
                )
            },
        }
    }
}

// ----- readings -----------------------------------------------------------

/// What the inputs are told as.
pub open spec fn inputs_notice(inputs: ReadingQueryViewInputs) -> NoticeView {
    if inputs.query_provenance is None {
        NoticeView::MissingSource(
            "No fact snapshot provenance is attached; query execution is disabled"@,
        )
    } else if inputs.readings@.len() == 0 {
        NoticeView::Empty("No portable readings are loaded"@)
    } else if exists|i: int|
        0 <= i < inputs.readings@.len() && (#[trigger] inputs.readings@[i]).local_source is None {
        NoticeView::MissingSource(
            "At least one reading has no local source match; it remains graph-only"@,
        )
    } else {
        NoticeView::Ready
    }
}

/// The pane after it was given other inputs.
pub open spec fn with_inputs(pane: PaneView, inputs: ReadingQueryViewInputs) -> PaneView {
    PaneView {
        inputs,
        selected_reading: if inputs.readings@.len() == 0 {
            None
        } else {
            Some(0)
        },
        diff: None,
        merge: None,
        plans: Seq::empty(),
        notice: inputs_notice(inputs),
        ..pane
    }
}

/// The number of changes among the first `i` sections.
pub open spec fn section_changes(list: Seq<(Seq<char>, SectionChangeKind)>, i: int) -> nat
    decreases i,
{
    if i <= 0 {
        0
    } else {
        section_changes(list, i - 1) + if list[i - 1].1 != SectionChangeKind::Unchanged {
            1nat
        } else {
            0nat
        }
    }
}

/// The number of changes among the first `i` entities.
pub open spec fn entity_changes(list: Seq<(EntityKey, SectionChangeKind)>, i: int) -> nat
    decreases i,
{
    if i <= 0 {
        0
    } else {
        entity_changes(list, i - 1) + if list[i - 1].1 != SectionChangeKind::Unchanged {
            1nat
        } else {
            0nat
        }
    }
}

/// The number of changes of a difference.
pub open spec fn change_count(diff: DiffView) -> nat {
    section_changes(diff.sections, diff.sections.len() as int) + entity_changes(
        diff.entities,
        diff.entities.len() as int,
    )
}

fn count_changes(diff: &ReadingDiff) -> (r: u128)
    ensures
        r == change_count(diff@),
{
    let mut count: u128 = 0;
    let mut i: usize = 0;
    while i < diff.sections.len()
        invariant
            i <= diff.sections.len(),
            count <= i,
            count == section_changes(diff@.sections, i as int),
        decreases diff.sections.len() - i,
    {
        assert(diff@.sections[i as int].1 == diff.sections@[i as int].kind);
        if diff.sections[i].kind != SectionChangeKind::Unchanged {
            count = count + 1;
        }
        i = i + 1;
    }
    let ghost base = count;
    let mut k: usize = 0;
    while k < diff.entities.len()
        invariant
            k <= diff.entities.len(),
            base <= usize::MAX,
            count <= base + k,
            count == base + entity_changes(diff@.entities, k as int),
        decreases diff.entities.len() - k,
    {
        assert(diff@.entities[k as int].1 == diff.entities@[k as int].kind);
        if diff.entities[k].kind != SectionChangeKind::Unchanged {
            count = count + 1;
        }
        k = k + 1;
    }
    count
}

/// The number of alternatives of the first `i` groups.
pub open spec fn alternative_count(groups: Seq<GroupView>, i: int) -> nat
    decreases i,
{
    if i <= 0 {
        0
    } else {
        alternative_count(groups, i - 1) + groups[i - 1].alternatives.len()
    }
}

fn count_alternatives(merge: &ReadingMergePlan) -> (r: u128)
    ensures
        r == alternative_count(merge@.groups, merge@.groups.len() as int),
{
    let mut count: u128 = 0;
    let mut i: usize = 0;
    while i < merge.hypothesis_groups.len()
        invariant
            i <= merge.hypothesis_groups.len(),
            count <= i * 0xffff_ffff_ffff_ffff,
            count == alternative_count(merge@.groups, i as int),
        decreases merge.hypothesis_groups.len() - i,
    {
        assert(merge@.groups[i as int] == merge.hypothesis_groups@[i as int]@);
        count = count + merge.hypothesis_groups[i].alternatives.len() as u128;
        i = i + 1;
    }
    count
}

/// The reading to compare another with: the first that is not that one.
pub open spec fn other_reading(count: nat, left: usize) -> Option<int> {
    if left != 0 && count > 0 {
        Some(0)
    } else if count > 1 {
        Some(1)
    } else {
        None
    }
}

/// The index of the plan for a reading, looked for from `i` on.
pub open spec fn plan_index(plans: Seq<ReadingImportPlan>, reading: ReadingId, i: int) -> Option<
    int,
>
    decreases plans.len() - i,
{
    if i < 0 || i >= plans.len() {
        None
    } else if plans[i].reading_id@ == reading@ {
        Some(i)
    } else {
        plan_index(plans, reading, i + 1)
    }
}

fn find_plan(plans: &Vec<ReadingImportPlan>, reading: &ReadingId) -> (r: Option<usize>)
    ensures
        match plan_index(plans@, *reading, 0) {
            Some(k) => r matches Some(found) && found == k && found < plans.len(),
            None => r is None,
        },
{
    let mut i: usize = 0;
    while i < plans.len()
        invariant
            i <= plans.len(),
            plan_index(plans@, *reading, 0) == plan_index(plans@, *reading, i as int),
        decreases plans.len() - i,
    {
        if plans[i].reading_id.same(reading) {
            return Some(i);
        }
        i = i + 1;
    }
    None
}

/// The row `delta` away from the selected one, within the rows there are.
pub open spec fn relative_row(selected: Option<usize>, delta: int, count: int) -> int {
    let target = match selected {
        Some(row) => row + delta,
        None => delta,
    };
    if target < 0 {
        0
    } else if target > count - 1 {
        count - 1
    } else {
        target
    }
}

/// What selecting a row comes to.
pub open spec fn row_selected(before: PaneView, row: usize, after: PaneView) -> bool {
    if row < latest_hits(before.document).len() {
        after == PaneView { selected_row: Some(row), notice: NoticeView::Ready, ..before }
    } else {
        after == refused(before, PaneFault::Row(WorkbenchActionRefusal::UnknownRow(row)))
    }
}

/// Why there is no hit to act on.
pub open spec fn hit_fault(pane: PaneView) -> Option<WorkbenchActionRefusal> {
    match pane.selected_row {
        None => Some(WorkbenchActionRefusal::NoSelection),
        Some(row) => if row < latest_hits(pane.document).len() {
            None
        } else {
            Some(WorkbenchActionRefusal::UnknownRow(row))
        },
    }
}

/// What asking for the next page comes to.
pub open spec fn next_page_asked(
    before: PaneView,
    r: Option<ReadingQueryViewEffect>,
    after: PaneView,
) -> bool {
    if before.draft.dirty {
        r is None && after == refused(
            before,
            PaneFault::Message(
                "The edited query must run from its first page before paging"@,
            ),
        )
    } else {
        match next_cursor(before.document) {
            None => r is None && after == noticed(
                before,
                NoticeView::Empty("The current result has no additional page"@),
            ),
            Some(cursor) => page_requested(
                before,
                Some(cursor),
                ReadingQueryOperation::QueryNextPage,
                r,
                after,
            ),
        }
    }
}

/// What cancelling comes to.
pub open spec fn cancelled(
    before: PaneView,
    r: Option<ReadingQueryViewEffect>,
    after: PaneView,
) -> bool {
    match before.pending {
        None => r is None && after == refused(
            before,
            PaneFault::Message("There is no in-flight work to cancel"@),
        ),
        Some(pending) => {
            &&& r matches Some(ReadingQueryViewEffect::CancelObservation(request_id))
            &&& request_id@ == pending.request_id
            &&& after == noticed(
                settled(before),
                NoticeView::Cancelled(
                    pending.request_id
                        + " was cancelled; late results will be ignored"@,
                ),
            )
        },
    }
}

/// What moving to another row comes to.
pub open spec fn row_moved(
    before: PaneView,
    delta: isize,
    after: PaneView,
) -> bool {
    let count = latest_hits(before.document).len();
    if count == 0 {
        after == noticed(
            before,
            NoticeView::Empty("There are no result rows"@),
        )
    } else {
        after == (PaneView {
            selected_row: Some(
                relative_row(
                    before.selected_row,
                    delta as int,
                    count as int,
                ) as usize,
            ),
            notice: NoticeView::Ready,
            ..before
        })
    }
}

/// What revealing the chosen row comes to.
pub open spec fn row_revealed(
    before: PaneView,
    r: Option<ReadingQueryViewEffect>,
    after: PaneView,
) -> bool {
    match hit_fault(before) {
        Some(refusal) => r is None && after == refused(
            before,
            PaneFault::Row(refusal),
        ),
        None => {
            let hit = latest_hits(before.document)[before.selected_row->0 as int];
            &&& r matches Some(ReadingQueryViewEffect::Reveal(target))
            &&& target.entity == hit.fact
            &&& optional_geometry(target.extent) == optional_geometry(hit.extent)
            &&& after == noticed(
                before,
                NoticeView::Observed("Reveal intent handed off"@),
            )
        },
    }
}

/// What hearing the chosen row comes to.
pub open spec fn row_auditioned(
    before: PaneView,
    r: Option<ReadingQueryViewEffect>,
    after: PaneView,
) -> bool {
    match hit_fault(before) {
        Some(refusal) => r is None && after == refused(
            before,
            PaneFault::Row(refusal),
        ),
        None => {
            let hit = latest_hits(before.document)[before.selected_row->0 as int];
            match hit.extent {
                None => r is None && after == refused(
                    before,
                    PaneFault::Row(WorkbenchActionRefusal::MissingExtent(hit.fact)),
                ),
                Some(extent) => {
                    &&& r matches Some(ReadingQueryViewEffect::Render(target))
                    &&& target.entity == hit.fact
                    &&& target.extent@ == extent@
                    &&& after == noticed(
                        before,
                        NoticeView::Observed("Audition intent handed off"@),
                    )
                },
            }
        },
    }
}

/// What hearing a hotspot comes to.
pub open spec fn residual_auditioned(
    before: PaneView,
    index: usize,
    r: Option<ReadingQueryViewEffect>,
    after: PaneView,
) -> bool {
    match before.residual {
        Some(auditions) => if index < auditions.len() {
            &&& r matches Some(ReadingQueryViewEffect::Render(target))
            &&& target.entity == auditions[index as int].entity
            &&& target.extent@ == auditions[index as int].extent@
            &&& after == noticed(
                before,
                NoticeView::Observed(
                    "Residual hotspot "@ + decimal((index + 1) as nat)
                        + " handed to the render host"@,
                ),
            )
        } else {
            r is None && after == refused(
                before,
                PaneFault::Message("unknown residual hotspot "@ + decimal(index as nat)),
            )
        },
        None => r is None && after == refused(
            before,
            PaneFault::Message("unknown residual hotspot "@ + decimal(index as nat)),
        ),
    }
}

/// What choosing a reading comes to.
pub open spec fn reading_chosen(
    before: PaneView,
    index: usize,
    after: PaneView,
) -> bool {
    if index >= before.inputs.readings@.len() {
        after == refused(
            before,
            PaneFault::Message("unknown reading row "@ + decimal(index as nat)),
        )
    } else {
        after == (PaneView {
            selected_reading: Some(index),
            notice: NoticeView::Ready,
            ..before
        })
    }
}

/// What asking to verify the chosen reading comes to.
pub open spec fn verification_asked(
    before: PaneView,
    r: Option<ReadingQueryViewEffect>,
    after: PaneView,
) -> bool {
    match before.selected_reading {
        None => r is None && after == noticed(
            before,
            NoticeView::Empty("No reading is selected"@),
        ),
        Some(index) => {
            let input = before.inputs.readings@[index as int];
            &&& observes(
                before,
                ReadingQueryOperation::VerifyReading,
                r,
                after,
            )
            &&& asks(
                r,
                HeadlessOperation::VerifyReading {
                    reading: input.reading,
                    local_source: input.local_source,
                },
            )
        },
    }
}

/// What asking for a plan of the chosen reading comes to.
pub open spec fn plan_asked(
    before: PaneView,
    r: Option<ReadingQueryViewEffect>,
    after: PaneView,
) -> bool {
    match before.selected_reading {
        None => r is None && after == noticed(
            before,
            NoticeView::Empty("No reading is selected"@),
        ),
        Some(index) => {
            let input = before.inputs.readings@[index as int];
            &&& observes(
                before,
                ReadingQueryOperation::PlanReadingImport,
                r,
                after,
            )
            &&& asks(
                r,
                HeadlessOperation::PlanReadingImport {
                    reading: input.reading,
                    local_source: input.local_source,
                    existing: before.inputs.existing_entities,
                    unknown_sections: before.inputs.unknown_sections,
                },
            )
        },
    }
}

/// What comparing the chosen reading comes to.
pub open spec fn diff_previewed(
    before: PaneView,
    after: PaneView,
) -> bool {
    match before.selected_reading {
        None => after == noticed(
            before,
            NoticeView::Empty("No reading is selected"@),
        ),
        Some(left) => match other_reading(before.inputs.readings@.len(), left) {
            None => after == noticed(
                before,
                NoticeView::Empty("A semantic diff needs two reading versions"@),
            ),
            Some(right) => {
                let readings = before.inputs.readings@;
                match structural_diff(
                    *readings[left as int].reading,
                    *readings[right].reading,
                ) {
                    Err(fault) => after == refused(
                        before,
                        PaneFault::Import(fault),
                    ),
                    Ok(diff) => after == (PaneView {
                        diff: Some(diff),
                        notice: NoticeView::Observed(
                            "Semantic diff contains "@ + decimal(change_count(diff))
                                + " changed qualified items"@,
                        ),
                        ..before
                    }),
                }
            },
        },
    }
}

/// What merging the readings comes to.
pub open spec fn merge_previewed(
    before: PaneView,
    after: PaneView,
) -> bool {
    let inputs = before.inputs;
    if inputs.readings@.len() == 0 {
        after == refused(
            before,
            PaneFault::Message("No readings are loaded"@),
        )
    } else {
        match input_plans(
            inputs.readings@,
            inputs.existing_entities@,
            inputs.unknown_sections,
            inputs.readings@.len() as int,
        ) {
            Err(fault) => after == refused(
                before,
                PaneFault::Protocol(ProtocolFault::Import(fault)),
            ),
            Ok(plans) => match merged(plans) {
                Err(fault) => after == refused(
                    before,
                    PaneFault::Merge(fault),
                ),
                Ok(merge) => {
                    &&& plan_views(after.plans) == plans
                    &&& after == (PaneView {
                        plans: after.plans,
                        merge: Some(merge),
                        notice: NoticeView::Observed(
                            "Merge preview keeps "@ + decimal(
                                alternative_count(
                                    merge.groups,
                                    merge.groups.len() as int,
                                ),
                            ) + " reading-qualified alternatives"@,
                        ),
                        ..before
                    })
                },
            },
        }
    }
}

/// What asking to import the hypotheses comes to.
pub open spec fn import_asked(
    before: PaneView,
    r: Option<ReadingQueryViewEffect>,
    after: PaneView,
) -> bool {
    let inputs = before.inputs;
    if inputs.readings@.len() == 0 {
        r is None && after == noticed(
            before,
            NoticeView::Empty("No readings are loaded"@),
        )
    } else {
        match inputs.base_revision {
            None => r is None && after == noticed(
                before,
                NoticeView::MissingSource(
                    "A project base revision and explicit ID allocations are required"@,
                ),
            ),
            Some(base_revision) => {
                &&& observes(
                    before,
                    ReadingQueryOperation::ImportHypotheses,
                    r,
                    after,
                )
                &&& asks(
                    r,
                    HeadlessOperation::ImportHypotheses {
                        readings: inputs.readings,
                        existing: inputs.existing_entities,
                        unknown_sections: inputs.unknown_sections,
                        base_revision,
                        hypothesis_allocations: inputs.hypothesis_allocations,
                        set_allocations: inputs.set_allocations,
                    },
                )
            },
        }
    }
}

/// What revealing a planned entity comes to.
pub open spec fn planned_revealed(
    before: PaneView,
    id: QualifiedEntityId,
    r: Option<ReadingQueryViewEffect>,
    after: PaneView,
) -> bool {
    match plan_index(before.plans, id.reading, 0) {
        None => r is None && after == refused(
            before,
            PaneFault::UnknownPlannedEntity(id@),
        ),
        Some(k) => {
            let entities = before.plans[k].entities@;
            match planned_index(entities, id@, 0) {
                None => r is None && after == refused(
                    before,
                    PaneFault::ReadingAction(ReadingActionRefusal::UnknownEntity(id)),
                ),
                Some(i) => {
                    &&& r matches Some(ReadingQueryViewEffect::Reveal(target))
                    &&& target.entity == crate::navigation::EntityRefDto::Reading(
                        entities[i].id,
                    )
                    &&& optional_geometry(target.extent) == optional_geometry(
                        entities[i].extent,
                    )
                    &&& after == before
                },
            }
        },
    }
}

/// What hearing a planned entity comes to.
pub open spec fn planned_auditioned(
    before: PaneView,
    id: QualifiedEntityId,
    r: Option<ReadingQueryViewEffect>,
    after: PaneView,
) -> bool {
    match plan_index(before.plans, id.reading, 0) {
        None => r is None && after == refused(
            before,
            PaneFault::UnknownPlannedEntity(id@),
        ),
        Some(k) => match audition_fault(before.plans[k], id) {
            Some(refusal) => r is None && after == refused(
                before,
                PaneFault::ReadingAction(refusal),
            ),
            None => {
                let entities = before.plans[k].entities@;
                let i = planned_index(entities, id@, 0)->0;
                &&& r matches Some(ReadingQueryViewEffect::Render(target))
                &&& target.entity == crate::navigation::EntityRefDto::Reading(
                    entities[i].id,
                )
                &&& target.extent@ == entities[i].extent->0@
                &&& after == before
            },
        },
    }
}

/// What an edit of the draft comes to.
pub open spec fn pane_edited(before: PaneView, edit: DraftEdit, after: PaneView) -> bool {
    match after_edit(before.draft, edit) {
        Ok(draft) => after == PaneView { draft, ..before },
        Err(fault) => after == refused(before, PaneFault::Builder(fault)),
    }
}

impl ReadingQueryView {
    /// A pane for a document.
    pub fn new(document: QueryDocument) -> (r: Result<ReadingQueryView, WorkbenchError>)
        ensures
            match document.fault() {
                Some(fault) => r matches Err(error) && error@ == fault,
                None => r matches Ok(pane) && pane@.document == document && pane@.selected_row
                    is None && is_new(pane@),
            },
    {
        match WorkbenchPaneFactory::model(document) {
            Ok(model) => Ok(ReadingQueryView::from_model(model)),
            Err(error) => Err(error),
        }
    }

    /// A pane over a model.
    pub fn from_model(model: WorkbenchPaneModel) -> (r: ReadingQueryView)
        ensures
            r@.document == model.doc(),
            r@.selected_row == model.selection(),
            is_new(r@),
    {
        let builder = QueryBuilderState::new(model.document().query.copy());
        let notice = if model.row_count() == 0 {
            ReadingQueryPaneNotice::Empty(owned("The query has no executed result page"))
        } else {
            ReadingQueryPaneNotice::Ready
        };
        ReadingQueryView {
            model,
            builder,
            inputs: ReadingQueryViewInputs::default(),
            selected_reading: None,
            diff: None,
            merge: None,
            reading_plans: Vec::new(),
            residual: None,
            pending: None,
            notice,
            next_request: 1,
        }
    }

    /// What is shown of the pane.
    pub fn presentation(&self) -> (r: ReadingQueryPresentation<'_>)
        ensures
            r.notice@ == self@.notice,
            r.query_label@ == term_label(self@.draft.root),
            r.query_dirty == self@.draft.dirty,
            r.result_rows == latest_hits(self@.document).len(),
            r.selected_row == self@.selected_row,
            r.result_pages == self@.document.results@.len(),
            r.reading_count == self@.inputs.readings@.len(),
            r.selected_reading == self@.selected_reading,
            r.has_diff == (self@.diff is Some),
            r.merged_hypotheses == match self@.merge {
                Some(merge) => merge.groups.len(),
                None => 0,
            },
            r.residual_targets == match self@.residual {
                Some(auditions) => auditions.len(),
                None => 0,
            },
    {
        ReadingQueryPresentation {
            notice: &self.notice,
            query_label: self.builder.root().stable_label(),
            query_dirty: self.builder.is_dirty(),
            result_rows: self.model.row_count(),
            selected_row: self.model.selected_row(),
            result_pages: self.model.document().results.len(),
            reading_count: self.inputs.readings.len(),
            selected_reading: self.selected_reading,
            has_diff: self.diff.is_some(),
            merged_hypotheses: match &self.merge {
                Some(merge) => merge.hypothesis_groups.len(),
                None => 0,
            },
            residual_targets: match &self.residual {
                Some(auditions) => auditions.len(),
                None => 0,
            },
        }
    }

    /// The document with its selected row.
    pub fn model(&self) -> (r: &WorkbenchPaneModel)
        ensures
            r.doc() == self@.document,
            r.selection() == self@.selected_row,
    {
        &self.model
    }

    /// The draft.
    pub fn builder(&self) -> (r: &QueryBuilderState)
        ensures
            r@ == self@.draft,
    {
        &self.builder
    }

    /// What the pane tells.
    pub fn notice(&self) -> (r: &ReadingQueryPaneNotice)
        ensures
            r@ == self@.notice,
    {
        &self.notice
    }

    /// What the host knows.
    pub(crate) fn known(&self) -> (r: &ReadingQueryViewInputs)
        ensures
            *r == self@.inputs,
    {
        &self.inputs
    }

    /// The selected reading.
    pub(crate) fn chosen_reading(&self) -> (r: Option<usize>)
        ensures
            r == self@.selected_reading,
    {
        self.selected_reading
    }

    /// The difference that is shown.
    pub(crate) fn shown_diff(&self) -> (r: Option<&ReadingDiff>)
        ensures
            match r {
                Some(diff) => self@.diff == Some(diff@),
                None => self@.diff is None,
            },
    {
        self.diff.as_ref()
    }

    /// The merge that is shown.
    pub(crate) fn shown_merge(&self) -> (r: Option<&ReadingMergePlan>)
        ensures
            match r {
                Some(merge) => self@.merge == Some(merge@),
                None => self@.merge is None,
            },
    {
        self.merge.as_ref()
    }

    /// The residual targets that are shown.
    pub(crate) fn shown_residual(&self) -> (r: Option<&Vec<AuditionTarget>>)
        ensures
            match r {
                Some(auditions) => self@.residual == Some(auditions@),
                None => self@.residual is None,
            },
    {
        self.residual.as_ref()
    }

    /// Takes over what the host knows now.
    pub fn observe_inputs(&mut self, inputs: ReadingQueryViewInputs)
        ensures
            final(self)@ == with_inputs(old(self)@, inputs),
            final(self)@.wf(),
    {
        let mut unmatched = false;
        let mut i: usize = 0;
        while i < inputs.readings.len()
            invariant
                i <= inputs.readings.len(),
                unmatched == exists|k: int|
                    0 <= k < i && (#[trigger] inputs.readings@[k]).local_source is None,
            decreases inputs.readings.len() - i,
        {
            if inputs.readings[i].local_source.is_none() {
                assert(inputs.readings@[i as int].local_source is None);
                unmatched = true;
            }
            i = i + 1;
        }
        let notice = if inputs.query_provenance.is_none() {
            ReadingQueryPaneNotice::MissingSource(
                owned("No fact snapshot provenance is attached; query execution is disabled"),
            )
        } else if inputs.readings.len() == 0 {
            ReadingQueryPaneNotice::Empty(owned("No portable readings are loaded"))
        } else if unmatched {
            ReadingQueryPaneNotice::MissingSource(
                owned("At least one reading has no local source match; it remains graph-only"),
            )
        } else {
            ReadingQueryPaneNotice::Ready
        };
        self.selected_reading = if inputs.readings.len() == 0 {
            None
        } else {
            Some(0)
        };
        self.inputs = inputs;
        self.diff = None;
        self.merge = None;
        self.reading_plans = Vec::new();
        self.notice = notice;
        assert(self.reading_plans@ =~= Seq::<ReadingImportPlan>::empty());
    }

    /// Replaces the document by a query for what a proposal leaves unexplained.
    pub fn install_residual_guide(
        &mut self,
        document_id: QueryDocumentId,
        title: String,
        hotspots: &Vec<RegionDto>,
        comparison_id: u64,
        proposal_id: u64,
    ) -> (r: Option<ReadingQueryViewEffect>)
        ensures
            match residual_fault(document_id, title@, hotspots@, comparison_id, proposal_id) {
                Some(fault) => r is None && final(self)@ == refused(
                    old(self)@,
                    PaneFault::Workbench(fault),
                ),
                None => {
                    let document = final(self)@.document;
                    &&& document.id == document_id
                    &&& document.title == title
                    &&& document.revision == 1
                    &&& document.results@.len() == 0
                    &&& document.query.tree() == residual_term(proposal_id, hotspots@)
                    &&& publishes(r, document, QueryDocumentChangeReason::ResidualGuideInstalled)
                    &&& final(self)@.residual matches Some(auditions)
                    &&& auditions.len() == hotspots@.len()
                    &&& forall|i: int|
                        0 <= i < hotspots@.len() ==> is_residual_audition(
                            #[trigger] auditions[i],
                            comparison_id,
                            hotspots@[i],
                        )
                    &&& final(self)@ == (PaneView {
                        residual: Some(auditions),
                        ..adopted(
                            old(self)@,
                            document,
                            if hotspots@.len() == 0 {
                                NoticeView::Empty("Residual coverage contains no ranked hotspot"@)
                            } else {
                                NoticeView::Observed(
                                    decimal(hotspots@.len())
                                        + " residual hotspot targets prepared"@,
                                )
                            },
                        )
                    })
                },
            },
    {
        let guide = match residual_guide(document_id, title, hotspots, comparison_id, proposal_id) {
            Ok(guide) => guide,
            Err(error) => {
                self.notice = ReadingQueryPaneNotice::Refused(PaneRefusal::Workbench(error));
                return None;
            },
        };
        let auditions = guide.auditions;
        let model = match WorkbenchPaneFactory::model(guide.query_document) {
            Ok(model) => model,
            Err(error) => {
                self.notice = ReadingQueryPaneNotice::Refused(PaneRefusal::Workbench(error));
                return None;
            },
        };
        self.builder.accept(model.document().query.copy());
        self.model = model;
        let effect = self.publish_document_changed(
            QueryDocumentChangeReason::ResidualGuideInstalled,
        );
        self.notice = if auditions.len() == 0 {
            ReadingQueryPaneNotice::Empty(owned("Residual coverage contains no ranked hotspot"))
        } else {
            let mut text = String::new();
            append_wide_decimal(&mut text, auditions.len() as u128);
            text.append(" residual hotspot targets prepared");
            assert(text@ =~= decimal(hotspots@.len()) + " residual hotspot targets prepared"@);
            ReadingQueryPaneNotice::Observed(text)
        };
        self.residual = Some(auditions);
        Some(effect)
    }

    fn take_edit(&mut self, outcome: Result<(), QueryBuilderRefusal>)
        ensures
            final(self)@ == match outcome {
                Ok(_) => old(self)@,
                Err(refusal) => refused(old(self)@, PaneFault::Builder(refusal@)),
            },
    {
        match outcome {
            Ok(()) => {},
            Err(refusal) => {
                self.notice = ReadingQueryPaneNotice::Refused(PaneRefusal::Builder(refusal));
            },
        }
    }

    /// Selects a term of the draft.
    pub fn select_query_term(&mut self, path: Vec<usize>)
        ensures
            pane_edited(old(self)@, DraftEdit::Select(path@), final(self)@),
    {
        let outcome = self.builder.select(path);
        self.take_edit(outcome);
    }

    /// Turns the selected kind into the next one.
    pub fn cycle_selected_kind(&mut self)
        ensures
            pane_edited(old(self)@, DraftEdit::CycleKind, final(self)@),
    {
        let outcome = self.builder.cycle_selected_kind();
        self.take_edit(outcome);
    }

    /// Wraps the selected term.
    pub fn wrap_selected(&mut self, operator: QueryWrapOperator)
        ensures
            pane_edited(old(self)@, DraftEdit::Wrap(operator), final(self)@),
    {
        let outcome = self.builder.wrap_selected(operator);
        self.take_edit(outcome);
    }

    /// Appends a term for objects to the selected list.
    pub fn append_kind(&mut self)
        ensures
            pane_edited(old(self)@, DraftEdit::Append(FactKindDto::Object), final(self)@),
    {
        let outcome = self.builder.append_kind(FactKindDto::Object);
        self.take_edit(outcome);
    }

    /// Removes the selected term.
    pub fn remove_selected_term(&mut self)
        ensures
            pane_edited(old(self)@, DraftEdit::Remove, final(self)@),
    {
        let outcome = self.builder.remove_selected();
        self.take_edit(outcome);
    }

    /// Moves the selected proposal number.
    pub fn adjust_selected_proposal(&mut self, delta: i64)
        ensures
            pane_edited(old(self)@, DraftEdit::Adjust(delta), final(self)@),
    {
        let outcome = self.builder.adjust_proposal_id(delta);
        self.take_edit(outcome);
    }

    /// Asks for the first page of the draft.
    pub fn run_first_page(&mut self) -> (r: Option<ReadingQueryViewEffect>)
        ensures
            page_requested(
                old(self)@,
                None,
                ReadingQueryOperation::QueryFirstPage,
                r,
                final(self)@,
            ),
    {
        self.run_page(None, ReadingQueryOperation::QueryFirstPage)
    }

    /// Asks for the page behind the newest one. A draft that was edited has to be
    /// run from its first page.
    pub fn request_next_page(&mut self) -> (r: Option<ReadingQueryViewEffect>)
        ensures
            next_page_asked(old(self)@, r, final(self)@),
    {
        if self.builder.is_dirty() {
            self.notice = ReadingQueryPaneNotice::Refused(
                PaneRefusal::Message(
                    owned("The edited query must run from its first page before paging"),
                ),
            );
            return None;
        }
        let cursor = match self.model.document().latest_result() {
            Some(result) => copy_optional_text(&result.page.next_cursor),
            None => None,
        };
        if cursor.is_none() {
            self.notice = ReadingQueryPaneNotice::Empty(
                owned("The current result has no additional page"),
            );
            return None;
        }
        self.run_page(cursor, ReadingQueryOperation::QueryNextPage)
    }

    fn run_page(&mut self, cursor: Option<String>, operation: ReadingQueryOperation) -> (r: Option<
        ReadingQueryViewEffect,
    >)
        ensures
            page_requested(old(self)@, optional_text(cursor), operation, r, final(self)@),
    {
        let provenance = match &self.inputs.query_provenance {
            Some(provenance) => provenance.clone(),
            None => {
                self.notice = ReadingQueryPaneNotice::MissingSource(
                    owned("A fact snapshot digest/revision is required to run this query"),
                );
                return None;
            },
        };
        let mut document = self.model.document().copy();
        if !document.query.same(self.builder.root()) {
            match document.replace_query(self.builder.root().copy()) {
                Ok(()) => {},
                Err(error) => {
                    self.notice = ReadingQueryPaneNotice::Refused(PaneRefusal::Workbench(error));
                    return None;
                },
            }
        }
        assert(document@ == asked_document(old(self)@));
        self.start_observation(
            operation,
            HeadlessOperation::QueryPage {
                document,
                provenance,
                page: QueryPageRequest { limit: 100, cursor },
            },
        )
    }

    /// Gives up what is waited for.
    pub fn cancel(&mut self) -> (r: Option<ReadingQueryViewEffect>)
        ensures
            cancelled(old(self)@, r, final(self)@),
    {
        let pending = self.pending.take();
        match pending {
            None => {
                self.notice = ReadingQueryPaneNotice::Refused(
                    PaneRefusal::Message(owned("There is no in-flight work to cancel")),
                );
                None
            },
            Some(pending) => {
                let mut text = pending.request_id.clone();
                text.append(" was cancelled; late results will be ignored");
                self.notice = ReadingQueryPaneNotice::Cancelled(text);
                Some(ReadingQueryViewEffect::CancelObservation(pending.request_id))
            },
        }
    }

    /// Takes an answer. One that is not waited for changes nothing but the notice.
    pub fn accept_dispatch(&mut self, dispatch: HeadlessDispatch) -> (r: Option<
        ReadingQueryViewEffect,
    >)
        ensures
            answered(old(self)@, dispatch, r, final(self)@),
    {
        let request_id = dispatch.response().request_id.clone();
        if !self.finish_pending(request_id.as_str()) {
            let mut text = owned("unknown or late response ");
            text.append(request_id.as_str());
            self.notice = ReadingQueryPaneNotice::Refused(PaneRefusal::Message(text));
            return None;
        }
        match dispatch {
            HeadlessDispatch::Observation(response) => match response.body {
                HeadlessResponseBody::QueryPage { document } => {
                    let model = match WorkbenchPaneFactory::model(document) {
                        Ok(model) => model,
                        Err(error) => {
                            self.notice = ReadingQueryPaneNotice::Refused(
                                PaneRefusal::Workbench(error),
                            );
                            return None;
                        },
                    };
                    let count: usize = model.row_count();
                    self.builder.accept(model.document().query.copy());
                    self.model = model;
                    let effect = self.publish_document_changed(
                        QueryDocumentChangeReason::QueryPageObserved,
                    );
                    self.notice = if count == 0 {
                        ReadingQueryPaneNotice::Empty(
                            owned("The query completed with no matching facts"),
                        )
                    } else {
                        let mut text = owned("Query page contains ");
                        append_wide_decimal(&mut text, count as u128);
                        text.append(" provenance-bearing rows");
                        ReadingQueryPaneNotice::Observed(text)
                    };
                    Some(effect)
                },
                HeadlessResponseBody::ReadingVerified { tier } => {
                    let mut text = owned("Reading verification tier: ");
                    text.append(name_tier(tier));
                    self.notice = ReadingQueryPaneNotice::Observed(text);
                    None
                },
                HeadlessResponseBody::ImportPlanned { plan } => {
                    let mut text = owned("Import plan: ");
                    append_wide_decimal(&mut text, plan.entities.len() as u128);
                    text.append(" qualified entities, ");
                    append_wide_decimal(&mut text, plan.preserved_sections.len() as u128);
                    text.append(" preserved sections, ");
                    text.append(name_tier(plan.verification));
                    self.notice = ReadingQueryPaneNotice::Observed(text);
                    None
                },
                _ => {
                    self.notice = ReadingQueryPaneNotice::Refused(
                        PaneRefusal::Message(
                            owned("The headless adapter returned an effect body as an observation"),
                        ),
                    );
                    None
                },
            },
            HeadlessDispatch::Command { envelope, .. } => {
                self.notice = ReadingQueryPaneNotice::CommandAwaitingExecutor(
                    owned("The aggregate executor must validate, journal, and apply this envelope"),
                );
                Some(ReadingQueryViewEffect::Command(envelope))
            },
            HeadlessDispatch::Render { target, .. } => {
                self.notice = ReadingQueryPaneNotice::Observed(
                    owned("Render intent handed to the audio host"),
                );
                Some(ReadingQueryViewEffect::Render(target))
            },
        }
    }

    /// Takes a refusal.
    pub fn accept_refusal(&mut self, request_id: &str, error: HeadlessProtocolError)
        ensures
            final(self)@ == if awaited(old(self)@, request_id@) {
                refused(settled(old(self)@), PaneFault::Protocol(error@))
            } else {
                refused(
                    old(self)@,
                    PaneFault::LateRefusal { request_id: request_id@, error: error@ },
                )
            },
    {
        if self.finish_pending(request_id) {
            self.notice = ReadingQueryPaneNotice::Refused(PaneRefusal::Protocol(error));
        } else {
            self.notice = ReadingQueryPaneNotice::Refused(
                PaneRefusal::LateRefusal { request_id: owned(request_id), error },
            );
        }
    }

    /// Ends what is waited for because it failed outside. Anything else is ignored.
    pub fn complete_external_failure(&mut self, request_id: &str, message: String) -> (r: bool)
        ensures
            r == awaited(old(self)@, request_id@),
            final(self)@ == if r {
                refused(settled(old(self)@), PaneFault::Message(message@))
            } else {
                old(self)@
            },
    {
        if !self.finish_pending(request_id) {
            return false;
        }
        self.notice = ReadingQueryPaneNotice::Refused(PaneRefusal::Message(message));
        true
    }

    /// Selects a row of the newest result.
    pub fn select_result_row(&mut self, row: usize)
        ensures
            row_selected(old(self)@, row, final(self)@),
    {
        match self.model.select_row(row) {
            Ok(()) => {
                self.notice = ReadingQueryPaneNotice::Ready;
            },
            Err(refusal) => {
                self.notice = ReadingQueryPaneNotice::Refused(PaneRefusal::Row(refusal));
            },
        }
    }

    /// Selects the row `delta` away, within the rows there are.
    pub fn select_relative_row(&mut self, delta: isize)
        ensures
            row_moved(old(self)@, delta, final(self)@),
    {
        let count: usize = self.model.row_count();
        if count == 0 {
            self.notice = ReadingQueryPaneNotice::Empty(owned("There are no result rows"));
            return;
        }
        let current: usize = match self.model.selected_row() {
            Some(row) => row,
            None => 0,
        };
        let target: i128 = current as i128 + delta as i128;
        let last: usize = count - 1;
        let next: usize = if target < 0 {
            0
        } else if target > last as i128 {
            last
        } else {
            target as usize
        };
        self.select_result_row(next);
    }

    /// Asks to reveal the selected fact.
    pub fn request_reveal(&mut self) -> (r: Option<ReadingQueryViewEffect>)
        ensures
            row_revealed(old(self)@, r, final(self)@),
    {
        match self.model.reveal_target() {
            Ok(target) => {
                self.notice = ReadingQueryPaneNotice::Observed(owned("Reveal intent handed off"));
                Some(ReadingQueryViewEffect::Reveal(target))
            },
            Err(refusal) => {
                self.notice = ReadingQueryPaneNotice::Refused(PaneRefusal::Row(refusal));
                None
            },
        }
    }

    /// Asks to hear the selected fact.
    pub fn request_audition(&mut self) -> (r: Option<ReadingQueryViewEffect>)
        ensures
            row_auditioned(old(self)@, r, final(self)@),
    {
        match self.model.audition_target() {
            Ok(target) => {
                self.notice = ReadingQueryPaneNotice::Observed(owned("Audition intent handed off"));
                Some(ReadingQueryViewEffect::Render(target))
            },
            Err(refusal) => {
                self.notice = ReadingQueryPaneNotice::Refused(PaneRefusal::Row(refusal));
                None
            },
        }
    }

    /// Asks to hear what a proposal leaves unexplained in one place.
    pub fn request_residual_audition(&mut self, index: usize) -> (r: Option<
        ReadingQueryViewEffect,
    >)
        ensures
            residual_auditioned(old(self)@, index, r, final(self)@),
    {
        let target = match &self.residual {
            Some(auditions) => if index < auditions.len() {
                Some(auditions[index].copy())
            } else {
                None
            },
            None => None,
        };
        match target {
            Some(target) => {
                let mut text = owned("Residual hotspot ");
                append_wide_decimal(&mut text, index as u128 + 1);
                text.append(" handed to the render host");
                self.notice = ReadingQueryPaneNotice::Observed(text);
                Some(ReadingQueryViewEffect::Render(target))
            },
            None => {
                let mut text = owned("unknown residual hotspot ");
                append_wide_decimal(&mut text, index as u128);
                self.notice = ReadingQueryPaneNotice::Refused(PaneRefusal::Message(text));
                None
            },
        }
    }

    /// Selects a reading.
    pub fn select_reading(&mut self, index: usize)
        ensures
            old(self)@.wf() ==> final(self)@.wf(),
            reading_chosen(old(self)@, index, final(self)@),
    {
        if index >= self.inputs.readings.len() {
            let mut text = owned("unknown reading row ");
            append_wide_decimal(&mut text, index as u128);
            self.notice = ReadingQueryPaneNotice::Refused(PaneRefusal::Message(text));
        } else {
            self.selected_reading = Some(index);
            self.notice = ReadingQueryPaneNotice::Ready;
        }
    }

    /// Asks to verify the selected reading.
    pub fn request_verify_reading(&mut self) -> (r: Option<ReadingQueryViewEffect>)
        requires
            old(self)@.wf(),
        ensures
            final(self)@.wf(),
            verification_asked(old(self)@, r, final(self)@),
    {
        let index: usize = match self.selected_reading {
            Some(index) => index,
            None => {
                self.notice = ReadingQueryPaneNotice::Empty(owned("No reading is selected"));
                return None;
            },
        };
        let reading = self.inputs.readings[index].reading.clone();
        let local_source = self.inputs.readings[index].local_source;
        self.start_observation(
            ReadingQueryOperation::VerifyReading,
            HeadlessOperation::VerifyReading { reading, local_source },
        )
    }

    /// Asks what importing the selected reading would do.
    pub fn request_plan_reading_import(&mut self) -> (r: Option<ReadingQueryViewEffect>)
        requires
            old(self)@.wf(),
        ensures
            final(self)@.wf(),
            plan_asked(old(self)@, r, final(self)@),
    {
        let index: usize = match self.selected_reading {
            Some(index) => index,
            None => {
                self.notice = ReadingQueryPaneNotice::Empty(owned("No reading is selected"));
                return None;
            },
        };
        let reading = self.inputs.readings[index].reading.clone();
        let local_source = self.inputs.readings[index].local_source;
        let existing = self.inputs.existing_entities.clone();
        let unknown_sections = self.inputs.unknown_sections;
        self.start_observation(
            ReadingQueryOperation::PlanReadingImport,
            HeadlessOperation::PlanReadingImport {
                reading,
                local_source,
                existing,
                unknown_sections,
            },
        )
    }

    /// Compares the selected reading with the first other one.
    pub fn preview_reading_diff(&mut self)
        requires
            old(self)@.wf(),
        ensures
            final(self)@.wf(),
            diff_previewed(old(self)@, final(self)@),
    {
        let left: usize = match self.selected_reading {
            Some(left) => left,
            None => {
                self.notice = ReadingQueryPaneNotice::Empty(owned("No reading is selected"));
                return;
            },
        };
        let right: usize = if left != 0 {
            0
        } else if self.inputs.readings.len() > 1 {
            1
        } else {
            self.notice = ReadingQueryPaneNotice::Empty(
                owned("A semantic diff needs two reading versions"),
            );
            return;
        };
        match diff_readings(
            &self.inputs.readings[left].reading,
            &self.inputs.readings[right].reading,
        ) {
            Ok(diff) => {
                let mut text = owned("Semantic diff contains ");
                append_wide_decimal(&mut text, count_changes(&diff));
                text.append(" changed qualified items");
                self.diff = Some(diff);
                self.notice = ReadingQueryPaneNotice::Observed(text);
            },
            Err(refusal) => {
                self.notice = ReadingQueryPaneNotice::Refused(PaneRefusal::Import(refusal));
            },
        }
    }

    /// Merges what importing every reading would do, without importing anything.
    pub fn preview_reading_merge(&mut self)
        ensures
            old(self)@.wf() ==> final(self)@.wf(),
            merge_previewed(old(self)@, final(self)@),
    {
        if self.inputs.readings.len() == 0 {
            self.notice = ReadingQueryPaneNotice::Refused(
                PaneRefusal::Message(owned("No readings are loaded")),
            );
            return;
        }
        let plans = match plan_inputs(
            &self.inputs.readings,
            &self.inputs.existing_entities,
            self.inputs.unknown_sections,
        ) {
            Ok(plans) => plans,
            Err(error) => {
                self.notice = ReadingQueryPaneNotice::Refused(PaneRefusal::Protocol(error));
                return;
            },
        };
        match merge_as_coexisting_hypotheses(&plans) {
            Ok(merge) => {
                let mut text = owned("Merge preview keeps ");
                append_wide_decimal(&mut text, count_alternatives(&merge));
                text.append(" reading-qualified alternatives");
                self.reading_plans = plans;
                self.merge = Some(merge);
                self.notice = ReadingQueryPaneNotice::Observed(text);
            },
            Err(refusal) => {
                self.notice = ReadingQueryPaneNotice::Refused(PaneRefusal::Merge(refusal));
            },
        }
    }

    /// Asks to import the hypotheses of every reading.
    pub fn request_hypothesis_import(&mut self) -> (r: Option<ReadingQueryViewEffect>)
        ensures
            old(self)@.wf() ==> final(self)@.wf(),
            import_asked(old(self)@, r, final(self)@),
    {
        if self.inputs.readings.len() == 0 {
            self.notice = ReadingQueryPaneNotice::Empty(owned("No readings are loaded"));
            return None;
        }
        let base_revision: u64 = match self.inputs.base_revision {
            Some(base_revision) => base_revision,
            None => {
                self.notice = ReadingQueryPaneNotice::MissingSource(
                    owned("A project base revision and explicit ID allocations are required"),
                );
                return None;
            },
        };
        let operation = HeadlessOperation::ImportHypotheses {
            readings: self.inputs.readings.clone(),
            existing: self.inputs.existing_entities.clone(),
            unknown_sections: self.inputs.unknown_sections,
            base_revision,
            hypothesis_allocations: self.inputs.hypothesis_allocations.clone(),
            set_allocations: self.inputs.set_allocations.clone(),
        };
        self.start_observation(ReadingQueryOperation::ImportHypotheses, operation)
    }

    /// Asks to reveal an entity of a reading that was merged.
    pub fn request_reading_reveal(&mut self, id: &QualifiedEntityId) -> (r: Option<
        ReadingQueryViewEffect,
    >)
        ensures
            planned_revealed(old(self)@, *id, r, final(self)@),
    {
        match find_plan(&self.reading_plans, &id.reading) {
            None => {
                self.notice = ReadingQueryPaneNotice::Refused(
                    PaneRefusal::UnknownPlannedEntity(id.clone()),
                );
                None
            },
            Some(k) => match self.reading_plans[k].reveal_target(id) {
                Ok(target) => Some(ReadingQueryViewEffect::Reveal(target)),
                Err(refusal) => {
                    self.notice = ReadingQueryPaneNotice::Refused(
                        PaneRefusal::ReadingAction(refusal),
                    );
                    None
                },
            },
        }
    }

    /// Asks to hear an entity of a reading that was merged.
    pub fn request_reading_audition(&mut self, id: &QualifiedEntityId) -> (r: Option<
        ReadingQueryViewEffect,
    >)
        ensures
            planned_auditioned(old(self)@, *id, r, final(self)@),
    {
        match find_plan(&self.reading_plans, &id.reading) {
            None => {
                self.notice = ReadingQueryPaneNotice::Refused(
                    PaneRefusal::UnknownPlannedEntity(id.clone()),
                );
                None
            },
            Some(k) => match self.reading_plans[k].audition_target(id) {
                Ok(target) => Some(ReadingQueryViewEffect::Render(target)),
                Err(refusal) => {
                    self.notice = ReadingQueryPaneNotice::Refused(
                        PaneRefusal::ReadingAction(refusal),
                    );
                    None
                },
            },
        }
    }

    fn start_observation(
        &mut self,
        operation: ReadingQueryOperation,
        body: HeadlessOperation,
    ) -> (r: Option<ReadingQueryViewEffect>)
        ensures
            observes(old(self)@, operation, r, final(self)@),
            asks(r, body),
    {
        match &self.pending {
            Some(pending) => {
                let mut text = pending.request_id.clone();
                text.append(" is still pending; cancel it before starting another operation");
                self.notice = ReadingQueryPaneNotice::Refused(PaneRefusal::Message(text));
                return None;
            },
            None => {},
        }
        let mut request_id = owned("pane-query-");
        append_decimal(&mut request_id, self.model.document().id.0);
        request_id.append("-");
        append_decimal(&mut request_id, self.next_request);
        self.next_request = if self.next_request == u64::MAX {
            u64::MAX
        } else {
            self.next_request + 1
        };
        let request = HeadlessRequest {
            protocol: owned(HEADLESS_PROTOCOL),
            request_id: request_id.clone(),
            operation: body,
        };
        self.pending = Some(PendingRequest { operation, request_id: request_id.clone() });
        self.notice = ReadingQueryPaneNotice::Pending { operation, request_id };
        Some(ReadingQueryViewEffect::Observation(request))
    }

    fn finish_pending(&mut self, request_id: &str) -> (r: bool)
        ensures
            r == awaited(old(self)@, request_id@),
            final(self)@ == if r {
                settled(old(self)@)
            } else {
                old(self)@
            },
    {
        let known = match &self.pending {
            Some(pending) => same_text(pending.request_id.as_str(), request_id),
            None => false,
        };
        if known {
            self.pending = None;
        }
        known
    }

    fn publish_document_changed(&self, reason: QueryDocumentChangeReason) -> (r:
        ReadingQueryViewEffect)
        ensures
            publishes(Some(r), self@.document, reason),
    {
        ReadingQueryViewEffect::DocumentChanged(
            QueryDocumentChanged { document: self.model.document().copy(), reason },
        )
    }
}

/// Why an entity of a plan cannot be heard.
pub open spec fn audition_fault(plan: ReadingImportPlan, id: QualifiedEntityId) -> Option<
    ReadingActionRefusal,
> {
    if plan.verification == VerificationTier::GraphOnly {
        Some(ReadingActionRefusal::SourceUnavailable)
    } else {
        match planned_index(plan.entities@, id@, 0) {
            None => Some(ReadingActionRefusal::UnknownEntity(id)),
            Some(i) => match plan.entities@[i].extent {
                None => Some(ReadingActionRefusal::MissingExtent(plan.entities@[i].id)),
                Some(_) => None,
            },
        }
    }
}

/// Whether nothing was done with a pane yet.
pub open spec fn is_new(pane: PaneView) -> bool {
    &&& pane.wf()
    &&& pane.draft == (DraftView {
        root: pane.document.query.tree(),
        selected: Seq::<usize>::empty(),
        dirty: false,
    })
    &&& pane.inputs.query_provenance is None
    &&& pane.inputs.readings@ == Seq::<ReadingInputDto>::empty()
    &&& pane.inputs.existing_entities@ == Seq::<QualifiedEntityId>::empty()
    &&& pane.inputs.unknown_sections == UnknownSectionPolicy::PreserveOpaque
    &&& pane.inputs.base_revision is None
    &&& pane.inputs.hypothesis_allocations@ == Seq::<ForeignHypothesisAllocationDto>::empty()
    &&& pane.inputs.set_allocations@ == Seq::<HypothesisSetAllocationDto>::empty()
    &&& pane.selected_reading is None
    &&& pane.diff is None
    &&& pane.merge is None
    &&& pane.plans.len() == 0
    &&& pane.residual is None
    &&& pane.pending is None
    &&& pane.next_request == 1
    &&& pane.notice == if latest_hits(pane.document).len() == 0 {
        NoticeView::Empty("The query has no executed result page"@)
    } else {
        NoticeView::Ready
    }
}

// ----- durable views ------------------------------------------------------

/// A durable view of the workspace, as far as the pane looks at it.
#[derive(Debug, PartialEq, Eq)]
pub struct ViewDescriptor {
    pub kind: ViewKind,
    /// Whether it has the state of an extension.
    pub extension_state: bool,
    pub title_override: Option<String>,
}

/// Why a durable view is no pane of the workbench, given what reading its state
/// gave.
pub open spec fn descriptor_fault(
    descriptor: ViewDescriptor,
    parsed: Result<QueryDocument, String>,
) -> Option<PaneFault> {
    if !is_workbench_kind(descriptor.kind) {
        Some(PaneFault::Message("descriptor is not a reading/query workbench view"@))
    } else if !descriptor.extension_state {
        Some(PaneFault::Message("reading/query descriptor has non-extension state"@))
    } else {
        match parsed {
            Err(message) => Some(PaneFault::Message(message@)),
            Ok(document) => match document.fault() {
                Some(fault) => Some(PaneFault::Workbench(fault)),
                None => None,
            },
        }
    }
}

/// Makes the panes of durable views.
#[derive(Clone, Copy, Debug, PartialEq, Eq, Structural)]
pub struct ReadingQueryViewFactory;

impl ReadingQueryViewFactory {
    /// Makes the pane of a durable view, with its title, given what reading the state
    /// of the view gave.
    pub fn create_pane(
        &self,
        descriptor: &ViewDescriptor,
        parsed: Result<QueryDocument, String>,
    ) -> (r: Result<(String, ReadingQueryView), PaneRefusal>)
        ensures
            match descriptor_fault(*descriptor, parsed) {
                Some(fault) => r matches Err(refusal) && refusal@ == fault,
                None => {
                    let document = parsed->Ok_0;
                    &&& r matches Ok((title, pane))
                    &&& title@ == match descriptor.title_override {
                        Some(title) => title@,
                        None => document.title@,
                    }
                    &&& pane@.document == document
                    &&& pane@.selected_row is None
                    &&& is_new(pane@)
                },
            },
    {
        let ours = match &descriptor.kind {
            ViewKind::Extension { namespace, name } => same_text(
                namespace.as_str(),
                WORKBENCH_NAMESPACE,
            ) && same_text(name.as_str(), WORKBENCH_VIEW_NAME),
            ViewKind::Other => false,
        };
        if !ours {
            return Err(
                PaneRefusal::Message(owned("descriptor is not a reading/query workbench view")),
            );
        }
        if !descriptor.extension_state {
            return Err(
                PaneRefusal::Message(owned("reading/query descriptor has non-extension state")),
            );
        }
        let document = match parsed {
            Ok(document) => document,
            Err(message) => {
                return Err(PaneRefusal::Message(message));
            },
        };
        let title = match &descriptor.title_override {
            Some(title) => title.clone(),
            None => document.title.clone(),
        };
        match ReadingQueryView::new(document) {
            Ok(pane) => Ok((title, pane)),
            Err(error) => Err(PaneRefusal::Workbench(error)),
        }
    }
}

/// The first six bytes of a digest, as they are shown.
pub fn short_digest(bytes: &[u8; 32]) -> (r: String)
    ensures
        r@ == hex_text(bytes@.take(6)),
{
    let mut first: Vec<u8> = Vec::new();
    let mut i: usize = 0;
    while i < 6
        invariant
            i <= 6,
            first@ == bytes@.take(i as int),
        decreases 6 - i,
    {
        first.push(bytes[i]);
        assert(first@ =~= bytes@.take(i as int + 1));
        i = i + 1;
    }
    let mut text = String::new();
    append_hex(&mut text, first.as_slice());
    assert(text@ =~= hex_text(bytes@.take(6)));
    text
}

// ----- laws ---------------------------------------------------------------

/// An answer that is not waited for changes nothing but the notice, and nothing
/// leaves the pane.
pub proof fn late_answers_are_ignored(
    before: PaneView,
    dispatch: HeadlessDispatch,
    effect: Option<ReadingQueryViewEffect>,
    after: PaneView,
)
    requires
        answered(before, dispatch, effect, after),
        !awaited(before, response_of(dispatch).request_id@),
    ensures
        effect is None,
        after == noticed(before, after.notice),
        after.notice is Refused,
{
}

/// A cancelled request is not waited for any more.
pub proof fn cancelled_requests_are_not_awaited(before: PaneView, request_id: Seq<char>)
    ensures
        !awaited(settled(before), request_id),
{
}

/// A planned command leaves the pane to be executed; the pane never tells it as
/// done.
pub proof fn planned_commands_are_not_successes(
    before: PaneView,
    dispatch: HeadlessDispatch,
    effect: Option<ReadingQueryViewEffect>,
    after: PaneView,
)
    requires
        answered(before, dispatch, effect, after),
        effect matches Some(ReadingQueryViewEffect::Command(_)),
    ensures
        after.notice is CommandAwaitingExecutor,
        notice_label(after.notice).0 == "COMMAND PLANNED"@,
        after.document == before.document,
{
}

/// A document is published exactly if it was replaced.
pub proof fn only_new_documents_are_published(
    before: PaneView,
    dispatch: HeadlessDispatch,
    effect: Option<ReadingQueryViewEffect>,
    after: PaneView,
)
    requires
        answered(before, dispatch, effect, after),
    ensures
        match effect {
            Some(ReadingQueryViewEffect::DocumentChanged(changed)) => changed.document@
                == after.document@,
            _ => after.document == before.document && after.draft == before.draft,
        },
{
}

/// At most one request is under way.
pub proof fn one_request_at_a_time(
    before: PaneView,
    operation: ReadingQueryOperation,
    effect: Option<ReadingQueryViewEffect>,
    after: PaneView,
)
    requires
        observes(before, operation, effect, after),
    ensures
        before.pending is Some ==> effect is None && after.pending == before.pending,
        after.pending is Some,
{
}

} // verus!
