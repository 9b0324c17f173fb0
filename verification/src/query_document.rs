//! Persistent query documents, frozen result pages, and the pane over them.

use std::sync::atomic::AtomicBool;
use std::sync::Arc;

use vstd::prelude::*;
use vstd::string::*;

use crate::cursor::{cursor_offset, cursor_text, decode_cursor, encode_cursor};
use crate::json::{copy_members, JsonMember, JsonPayload};
use crate::navigation::{
    copy_optional_geometry, hit_views, optional_geometry, reference_keys, valid_reference, AspectGeometryDto,
    EntityRefDto, EntityRefKey, GeometryView, HitView, QueryDerivationDto, QueryHitDto,
    QueryResultPageDto, RegionDto, SignalLayerDto, SignalView,
};
use crate::query_terms::{
    compiled, geometry_fault, term_label, term_trees, validate_geometry, QueryTermDto, TermTree,
};
use crate::rank::{ranked, ranked_commutes_with_views, sort_by_rank};
use crate::reading::{PortableDigest, PortableDigestAlgorithm};
use crate::session::ViewLinkMembership;
use crate::text::{
    append_decimal, blank, copy_optional_text, decimal, is_blank, optional_text, owned, same_text,
    with_line_break,
};
use crate::workbench_error::{check_view, QueryError, WorkbenchError, WorkbenchFault};

verus! {

/// The format name of every query document.
pub const QUERY_DOCUMENT_FORMAT: &'static str = "audec-query-document";

/// The one supported version of a query document.
pub const QUERY_DOCUMENT_VERSION: u32 = 2;

/// The namespace of the workbench's views.
pub const WORKBENCH_NAMESPACE: &'static str = "audec.interpretation";

/// The name of the workbench's view.
pub const WORKBENCH_VIEW_NAME: &'static str = "reading-query-workbench";

/// Number of a query document.
#[derive(Clone, Copy, Debug, PartialEq, Eq, PartialOrd, Ord, Hash, Structural)]
pub struct QueryDocumentId(pub u64);

/// What a result was computed from.
#[derive(Debug, PartialEq, Eq)]
pub struct QueryExecutionProvenance {
    /// Revision of the finite fact base.
    pub fact_base_revision: u64,
    /// Strong identity of the complete fact snapshot.
    pub fact_base_digest: PortableDigest,
    /// Durable label of the project snapshot, if the host gave one.
    pub source_revision: Option<String>,
    /// Left out in reproducible execution.
    pub executed_unix_ms: Option<u64>,
}

impl Clone for QueryExecutionProvenance {
    fn clone(&self) -> (r: Self)
        ensures
            r == *self,
    {
        QueryExecutionProvenance {
            fact_base_revision: self.fact_base_revision,
            fact_base_digest: self.fact_base_digest,
            source_revision: crate::text::copy_optional_text(&self.source_revision),
            executed_unix_ms: self.executed_unix_ms,
        }
    }
}

/// One frozen page of results.
#[derive(Debug, PartialEq, Eq)]
pub struct QueryResultSnapshot {
    pub document_revision: u64,
    pub content_address: PortableDigest,
    pub page_start: u64,
    pub provenance: QueryExecutionProvenance,
    pub page: QueryResultPageDto,
}

/// Which page to compute.
#[derive(Debug, PartialEq, Eq)]
pub struct QueryPageRequest {
    pub limit: u32,
    pub cursor: Option<String>,
}

impl Default for QueryPageRequest {
    fn default() -> (r: Self)
        ensures
            r.limit == 100,
            r.cursor is None,
    {
        QueryPageRequest { limit: 100, cursor: None }
    }
}

/// A request to stop computing. Clones share it: cancelling one cancels all of them,
/// also from another thread, so nothing is stated of what a token is found to be.
#[derive(Clone, Debug, Default)]
pub struct QueryCancellationToken(Arc<AtomicBool>);

impl QueryCancellationToken {
    /// A token of its own, not cancelled.
    pub fn new() -> QueryCancellationToken {
        QueryCancellationToken(Arc::new(AtomicBool::new(false)))
    }

    /// Cancels the token and all its clones.
    pub fn cancel(&self) {
        self.0.store(true, std::sync::atomic::Ordering::Release);
    }

    /// Whether the token, or a clone of it, was cancelled.
    pub fn is_cancelled(&self) -> bool {
        self.0.load(std::sync::atomic::Ordering::Acquire)
    }
}

/// A durable query with the history of its results.
#[derive(Debug, PartialEq)]
pub struct QueryDocument {
    pub format: String,
    pub version: u32,
    pub id: QueryDocumentId,
    pub revision: u64,
    pub title: String,
    pub query: QueryTermDto,
    pub results: Vec<QueryResultSnapshot>,
    pub extensions: Vec<JsonMember>,
}

/// What a frozen page holds.
pub struct ResultView {
    pub document_revision: u64,
    pub content_address: PortableDigest,
    pub page_start: u64,
    pub provenance: QueryExecutionProvenance,
    pub query_term: Seq<char>,
    pub result_revision: u64,
    pub hits: Seq<HitView>,
    pub next_cursor: Option<Seq<char>>,
}

impl View for QueryResultSnapshot {
    type V = ResultView;

    open spec fn view(&self) -> ResultView {
        ResultView {
            document_revision: self.document_revision,
            content_address: self.content_address,
            page_start: self.page_start,
            provenance: self.provenance,
            query_term: self.page.query_term@,
            result_revision: self.page.result_revision,
            hits: hit_views(self.page.hits@),
            next_cursor: optional_text(self.page.next_cursor),
        }
    }
}

/// What frozen pages hold.
pub open spec fn result_views(list: Seq<QueryResultSnapshot>) -> Seq<ResultView> {
    list.map_values(|r: QueryResultSnapshot| r@)
}

/// What a document holds.
pub struct DocumentView {
    pub format: Seq<char>,
    pub version: u32,
    pub id: QueryDocumentId,
    pub revision: u64,
    pub title: Seq<char>,
    pub query: TermTree,
    pub results: Seq<ResultView>,
    pub extensions: Seq<JsonMember>,
}

impl View for QueryDocument {
    type V = DocumentView;

    open spec fn view(&self) -> DocumentView {
        DocumentView {
            format: self.format@,
            version: self.version,
            id: self.id,
            revision: self.revision,
            title: self.title@,
            query: self.query.tree(),
            results: result_views(self.results@),
            extensions: self.extensions@,
        }
    }
}

impl QueryResultSnapshot {
    /// A copy of the page.
    pub fn copy(&self) -> (r: QueryResultSnapshot)
        ensures
            r@ == self@,
    {
        let mut hits: Vec<QueryHitDto> = Vec::new();
        let mut i: usize = 0;
        while i < self.page.hits.len()
            invariant
                i <= self.page.hits.len(),
                hits@.len() == i,
                forall|k: int| 0 <= k < i ==> (#[trigger] hits@[k])@ == self.page.hits@[k]@,
            decreases self.page.hits.len() - i,
        {
            hits.push(self.page.hits[i].copy());
            i = i + 1;
        }
        assert(hit_views(hits@) =~= hit_views(self.page.hits@));
        QueryResultSnapshot {
            document_revision: self.document_revision,
            content_address: self.content_address,
            page_start: self.page_start,
            provenance: self.provenance.clone(),
            page: QueryResultPageDto {
                query_term: self.page.query_term.clone(),
                result_revision: self.page.result_revision,
                hits,
                next_cursor: copy_optional_text(&self.page.next_cursor),
            },
        }
    }
}

impl QueryDocument {
    /// A copy of the document.
    pub fn copy(&self) -> (r: QueryDocument)
        ensures
            r@ == self@,
    {
        let mut results: Vec<QueryResultSnapshot> = Vec::new();
        let mut i: usize = 0;
        while i < self.results.len()
            invariant
                i <= self.results.len(),
                results@.len() == i,
                forall|k: int| 0 <= k < i ==> (#[trigger] results@[k])@ == self.results@[k]@,
            decreases self.results.len() - i,
        {
            results.push(self.results[i].copy());
            i = i + 1;
        }
        assert(result_views(results@) =~= result_views(self.results@));
        QueryDocument {
            format: self.format.clone(),
            version: self.version,
            id: self.id,
            revision: self.revision,
            title: self.title.clone(),
            query: self.query.copy(),
            results,
            extensions: copy_members(&self.extensions),
        }
    }
}

// ----- result pages -----------------------------------------------------

/// Whether every reference of a list is valid.
pub open spec fn all_valid(references: Seq<EntityRefKey>) -> bool {
    forall|i: int| 0 <= i < references.len() ==> valid_reference(#[trigger] references[i])
}

/// What is wrong with the hits from index `i` on.
pub open spec fn hits_fault(hits: Seq<HitView>, i: int) -> Option<WorkbenchFault>
    decreases hits.len() - i,
{
    if i < 0 || i >= hits.len() {
        None
    } else if !valid_reference(hits[i].fact) {
        Some(WorkbenchFault::InvalidResult("a result names an invalid fact"@))
    } else if exists|j: int| 0 <= j < i && (#[trigger] hits[j]).fact == hits[i].fact {
        Some(WorkbenchFault::InvalidResult("a result page contains a duplicate fact"@))
    } else if !all_valid(hits[i].premises) {
        Some(WorkbenchFault::InvalidResult("a result names an invalid premise"@))
    } else if is_blank(hits[i].rule) {
        Some(WorkbenchFault::InvalidResult("a derivation rule cannot be blank"@))
    } else if hits[i].extent matches Some(extent) && geometry_fault(extent) is Some {
        geometry_fault(hits[i].extent->0)
    } else {
        hits_fault(hits, i + 1)
    }
}

fn premises_valid(premises: &Vec<EntityRefDto>) -> (r: bool)
    ensures
        r == all_valid(reference_keys(premises@)),
{
    let mut i: usize = 0;
    while i < premises.len()
        invariant
            i <= premises.len(),
            forall|j: int|
                0 <= j < i ==> valid_reference(#[trigger] reference_keys(premises@)[j]),
        decreases premises.len() - i,
    {
        assert(reference_keys(premises@)[i as int] == premises@[i as int]@);
        if !premises[i].valid() {
            return false;
        }
        i = i + 1;
    }
    true
}

/// Refuses a page with an invalid or repeated fact, an invalid premise, a blank
/// rule or invalid geometry.
pub fn validate_result_page(page: &QueryResultPageDto) -> (r: Result<(), WorkbenchError>)
    ensures
        check_view(r) == hits_fault(hit_views(page.hits@), 0),
{
    let hits = &page.hits;
    let ghost views = hit_views(page.hits@);
    let mut i: usize = 0;
    while i < hits.len()
        invariant
            i <= hits.len(),
            *hits == page.hits,
            views == hit_views(hits@),
            hits_fault(views, 0) == hits_fault(views, i as int),
        decreases hits.len() - i,
    {
        let hit = &hits[i];
        assert(views[i as int] == hit@);
        if !hit.fact.valid() {
            return Err(WorkbenchError::InvalidResult(owned("a result names an invalid fact")));
        }
        let mut j: usize = 0;
        while j < i
            invariant
                j <= i < hits.len(),
                *hits == page.hits,
                *hit == hits@[i as int],
                views == hit_views(hits@),
                views[i as int] == hit@,
                hits_fault(views, 0) == hits_fault(views, i as int),
                valid_reference(hit.fact@),
                forall|k: int| 0 <= k < j ==> (#[trigger] views[k]).fact != hit.fact@,
            decreases i - j,
        {
            assert(views[j as int] == hits@[j as int]@);
            if hits[j].fact.same(&hit.fact) {
                assert(views[j as int].fact == views[i as int].fact);
                return Err(
                    WorkbenchError::InvalidResult(
                        owned("a result page contains a duplicate fact"),
                    ),
                );
            }
            j = j + 1;
        }
        if !premises_valid(&hit.derivation.premises) {
            return Err(WorkbenchError::InvalidResult(owned("a result names an invalid premise")));
        }
        if blank(hit.derivation.rule.as_str()) {
            return Err(WorkbenchError::InvalidResult(owned("a derivation rule cannot be blank")));
        }
        match &hit.extent {
            Some(extent) => match validate_geometry(extent) {
                Ok(()) => {},
                Err(error) => {
                    return Err(error);
                },
            },
            None => {},
        }
        i = i + 1;
    }
    Ok(())
}

/// Two results are the same page of the same facts.
pub open spec fn same_result(a: QueryResultSnapshot, b: QueryResultSnapshot) -> bool {
    &&& a.document_revision == b.document_revision
    &&& a.provenance.fact_base_revision == b.provenance.fact_base_revision
    &&& a.content_address == b.content_address
    &&& a.page_start == b.page_start
}

/// Whether the revisions and digests of a result fit its document.
pub open spec fn result_fits(result: QueryResultSnapshot, revision: u64) -> bool {
    &&& 0 < result.document_revision <= revision
    &&& result.page.result_revision == result.provenance.fact_base_revision
    &&& result.provenance.fact_base_digest.strong()
    &&& result.content_address.strong()
}

/// The offset behind a page.
pub open spec fn page_end(result: QueryResultSnapshot) -> int {
    if result.page_start + result.page.hits@.len() > u64::MAX {
        u64::MAX as int
    } else {
        result.page_start + result.page.hits@.len()
    }
}

/// What is wrong with the page of a result that fits its document.
pub open spec fn page_fault(result: QueryResultSnapshot) -> Option<WorkbenchFault> {
    if hits_fault(hit_views(result.page.hits@), 0) is Some {
        hits_fault(hit_views(result.page.hits@), 0)
    } else if is_blank(result.page.query_term@) {
        Some(WorkbenchFault::InvalidResult("query term cannot be blank"@))
    } else {
        match result.page.next_cursor {
            None => None,
            Some(cursor) => match cursor_offset(cursor@, result.content_address) {
                Err(fault) => Some(fault),
                Ok(offset) => if offset != page_end(result) {
                    Some(WorkbenchFault::InvalidResult("next cursor does not follow its page"@))
                } else {
                    None
                },
            },
        }
    }
}

/// What is wrong with the results from index `i` on.
pub open spec fn results_fault(results: Seq<QueryResultSnapshot>, revision: u64, i: int) -> Option<
    WorkbenchFault,
>
    decreases results.len() - i,
{
    if i < 0 || i >= results.len() {
        None
    } else if !result_fits(results[i], revision) || exists|j: int|
        0 <= j < i && #[trigger] same_result(results[j], results[i]) {
        Some(WorkbenchFault::InvalidDocument("result revisions are invalid or duplicated"@))
    } else if page_fault(results[i]) is Some {
        page_fault(results[i])
    } else {
        results_fault(results, revision, i + 1)
    }
}

fn validate_page(result: &QueryResultSnapshot) -> (r: Result<(), WorkbenchError>)
    ensures
        check_view(r) == page_fault(*result),
{
    match validate_result_page(&result.page) {
        Ok(()) => {},
        Err(error) => {
            return Err(error);
        },
    }
    if blank(result.page.query_term.as_str()) {
        return Err(WorkbenchError::InvalidResult(owned("query term cannot be blank")));
    }
    match &result.page.next_cursor {
        None => Ok(()),
        Some(cursor) => {
            let expected: u64 = result.page_start.saturating_add(result.page.hits.len() as u64);
            match decode_cursor(cursor.as_str(), result.content_address) {
                Err(error) => Err(error),
                Ok(offset) => if offset != expected {
                    Err(
                        WorkbenchError::InvalidResult(
                            owned("next cursor does not follow its page"),
                        ),
                    )
                } else {
                    Ok(())
                },
            }
        },
    }
}

fn validate_results(results: &Vec<QueryResultSnapshot>, revision: u64) -> (r: Result<
    (),
    WorkbenchError,
>)
    ensures
        check_view(r) == results_fault(results@, revision, 0),
{
    let mut i: usize = 0;
    while i < results.len()
        invariant
            i <= results.len(),
            results_fault(results@, revision, 0) == results_fault(results@, revision, i as int),
        decreases results.len() - i,
    {
        let result = &results[i];
        if result.document_revision == 0 || result.document_revision > revision
            || result.page.result_revision != result.provenance.fact_base_revision
            || !result.provenance.fact_base_digest.is_strong()
            || !result.content_address.is_strong() {
            return Err(
                WorkbenchError::InvalidDocument(
                    owned("result revisions are invalid or duplicated"),
                ),
            );
        }
        let mut j: usize = 0;
        while j < i
            invariant
                j <= i < results.len(),
                *result == results@[i as int],
                results_fault(results@, revision, 0) == results_fault(
                    results@,
                    revision,
                    i as int,
                ),
                result_fits(*result, revision),
                forall|k: int| 0 <= k < j ==> !#[trigger] same_result(results@[k], *result),
            decreases i - j,
        {
            let other = &results[j];
            if other.document_revision == result.document_revision
                && other.provenance.fact_base_revision == result.provenance.fact_base_revision
                && other.content_address.same(&result.content_address) && other.page_start
                == result.page_start {
                assert(same_result(results@[j as int], results@[i as int]));
                return Err(
                    WorkbenchError::InvalidDocument(
                        owned("result revisions are invalid or duplicated"),
                    ),
                );
            }
            j = j + 1;
        }
        match validate_page(result) {
            Ok(()) => {},
            Err(error) => {
                return Err(error);
            },
        }
        i = i + 1;
    }
    Ok(())
}

impl QueryDocument {
    /// The first thing that is wrong with the document.
    pub open spec fn fault(&self) -> Option<WorkbenchFault> {
        if self.format@ != QUERY_DOCUMENT_FORMAT@ {
            Some(WorkbenchFault::WrongDocumentFormat(self.format@))
        } else if self.version != QUERY_DOCUMENT_VERSION {
            Some(WorkbenchFault::UnsupportedDocumentVersion(self.version))
        } else if self.id.0 == 0 || self.revision == 0 || is_blank(self.title@) {
            Some(
                WorkbenchFault::InvalidDocument("id, revision, and non-blank title are required"@),
            )
        } else {
            match compiled(self.query.tree()) {
                Err(fault) => Some(fault),
                Ok(_) => results_fault(self.results@, self.revision, 0),
            }
        }
    }

    /// A document in its first revision, without results.
    pub fn new(id: QueryDocumentId, title: String, query: QueryTermDto) -> (r: Self)
        ensures
            r.format@ == QUERY_DOCUMENT_FORMAT@,
            r.version == QUERY_DOCUMENT_VERSION,
            r.id == id,
            r.revision == 1,
            r.title == title,
            r.query == query,
            r.results@ == Seq::<QueryResultSnapshot>::empty(),
            r.extensions@ == Seq::<JsonMember>::empty(),
    {
        QueryDocument {
            format: owned(QUERY_DOCUMENT_FORMAT),
            version: QUERY_DOCUMENT_VERSION,
            id,
            revision: 1,
            title,
            query,
            results: Vec::new(),
            extensions: Vec::new(),
        }
    }

    /// Refuses a document with anything wrong, naming the first fault.
    pub fn validate(&self) -> (r: Result<(), WorkbenchError>)
        ensures
            check_view(r) == self.fault(),
    {
        if !same_text(self.format.as_str(), QUERY_DOCUMENT_FORMAT) {
            return Err(WorkbenchError::WrongDocumentFormat(self.format.clone()));
        }
        if self.version != QUERY_DOCUMENT_VERSION {
            return Err(WorkbenchError::UnsupportedDocumentVersion(self.version));
        }
        if self.id.0 == 0 || self.revision == 0 || blank(self.title.as_str()) {
            return Err(
                WorkbenchError::InvalidDocument(
                    owned("id, revision, and non-blank title are required"),
                ),
            );
        }
        match self.query.compile() {
            Err(error) => Err(error),
            Ok(_) => validate_results(&self.results, self.revision),
        }
    }

    /// The document as it is written, given its text: it ends with a line break. An
    /// invalid document is refused.
    pub fn to_json(&self, text: Result<String, String>) -> (r: Result<String, WorkbenchError>)
        ensures
            match (self.fault(), text) {
                (Some(fault), _) => r matches Err(error) && error@ == fault,
                (None, Err(message)) => r == Err::<String, WorkbenchError>(
                    WorkbenchError::Json(message),
                ),
                (None, Ok(text)) => r matches Ok(document) && document@ == text@.push('\n'),
            },
    {
        match self.validate() {
            Ok(()) => {},
            Err(error) => {
                return Err(error);
            },
        }
        match text {
            Err(message) => Err(WorkbenchError::Json(message)),
            Ok(text) => Ok(with_line_break(text)),
        }
    }

    /// Takes a document that was parsed, if it is valid.
    pub fn from_json(parsed: Result<QueryDocument, String>) -> (r: Result<
        QueryDocument,
        WorkbenchError,
    >)
        ensures
            match parsed {
                Err(message) => r == Err::<QueryDocument, WorkbenchError>(
                    WorkbenchError::Json(message),
                ),
                Ok(document) => match document.fault() {
                    Some(fault) => r matches Err(error) && error@ == fault,
                    None => r == Ok::<QueryDocument, WorkbenchError>(document),
                },
            },
    {
        let document = match parsed {
            Ok(document) => document,
            Err(message) => {
                return Err(WorkbenchError::Json(message));
            },
        };
        match document.validate() {
            Ok(()) => Ok(document),
            Err(error) => Err(error),
        }
    }

    /// Replaces the query under a new revision. A query that does not compile,
    /// or a revision that cannot grow, leaves the document as it was.
    pub fn replace_query(&mut self, query: QueryTermDto) -> (r: Result<(), WorkbenchError>)
        ensures
            match compiled(query.tree()) {
                Err(fault) => check_view(r) == Some(fault) && *final(self) == *old(self),
                Ok(_) => if old(self).revision == u64::MAX {
                    check_view(r) == Some(WorkbenchFault::InvalidDocument("revision exhausted"@))
                        && *final(self) == *old(self)
                } else {
                    r is Ok && *final(self) == (QueryDocument {
                        revision: (old(self).revision + 1) as u64,
                        query,
                        ..*old(self)
                    })
                },
            },
    {
        match query.compile() {
            Err(error) => {
                return Err(error);
            },
            Ok(_) => {},
        }
        if self.revision == u64::MAX {
            return Err(WorkbenchError::InvalidDocument(owned("revision exhausted")));
        }
        self.revision = self.revision + 1;
        self.query = query;
        Ok(())
    }

    /// The newest result.
    pub fn latest_result(&self) -> (r: Option<&QueryResultSnapshot>)
        ensures
            match r {
                Some(result) => self.results@.len() > 0 && *result == self.results@.last(),
                None => self.results@.len() == 0,
            },
    {
        if self.results.len() == 0 {
            None
        } else {
            Some(&self.results[self.results.len() - 1])
        }
    }
}

// ----- executing pages --------------------------------------------------

/// A fact of the project.
#[derive(Clone, Copy, Debug, PartialEq, Eq, Structural)]
pub enum FactRef {
    Object(u64),
    Source(u64),
    Parameter(u64),
    Hypothesis(u64),
}

/// The reference that stands for a fact.
pub open spec fn fact_key(fact: FactRef) -> EntityRefKey {
    match fact {
        FactRef::Object(id) => EntityRefKey::Project { kind: "air-object"@, local_id: id },
        FactRef::Source(id) => EntityRefKey::Project { kind: "air-source"@, local_id: id },
        FactRef::Parameter(id) => EntityRefKey::Project { kind: "air-parameter"@, local_id: id },
        FactRef::Hypothesis(id) => EntityRefKey::Project { kind: "air-hypothesis"@, local_id: id },
    }
}

fn project_fact(fact: FactRef) -> (r: EntityRefDto)
    ensures
        r@ == fact_key(fact),
{
    match fact {
        FactRef::Object(id) => EntityRefDto::Project { kind: owned("air-object"), local_id: id },
        FactRef::Source(id) => EntityRefDto::Project { kind: owned("air-source"), local_id: id },
        FactRef::Parameter(id) => EntityRefDto::Project {
            kind: owned("air-parameter"),
            local_id: id,
        },
        FactRef::Hypothesis(id) => EntityRefDto::Project {
            kind: owned("air-hypothesis"),
            local_id: id,
        },
    }
}

/// One row that running a query gave: the fact, the rule and premises that led
/// to it, its evidence and its extent.
#[derive(Debug, PartialEq, Eq)]
pub struct QueryRow {
    pub fact: FactRef,
    pub rule: String,
    pub premises: Vec<FactRef>,
    pub evidence: Vec<FactRef>,
    pub extent: Option<AspectGeometryDto>,
}

/// What running a query gave.
#[derive(Debug, PartialEq)]
pub struct QueryRun {
    /// Whether the request was cancelled before the query ran.
    pub cancelled: bool,
    /// The rows, in order, or why there are none.
    pub rows: Result<Vec<QueryRow>, QueryError>,
    /// The number of rows of the page that were projected before a
    /// cancellation was seen, if one was.
    pub cancelled_after: Option<usize>,
}

/// A list without items that equal the item before them.
pub open spec fn without_repeats(keys: Seq<EntityRefKey>) -> Seq<EntityRefKey>
    decreases keys.len(),
{
    if keys.len() == 0 {
        keys
    } else if keys.len() >= 2 && keys[keys.len() - 1] == keys[keys.len() - 2] {
        without_repeats(keys.drop_last())
    } else {
        without_repeats(keys.drop_last()).push(keys.last())
    }
}

fn drop_repeats(list: &Vec<EntityRefDto>) -> (r: Vec<EntityRefDto>)
    ensures
        reference_keys(r@) == without_repeats(reference_keys(list@)),
{
    let ghost keys = reference_keys(list@);
    let mut out: Vec<EntityRefDto> = Vec::new();
    let mut i: usize = 0;
    assert(reference_keys(out@) =~= without_repeats(keys.take(0)));
    while i < list.len()
        invariant
            i <= list.len(),
            keys == reference_keys(list@),
            reference_keys(out@) == without_repeats(keys.take(i as int)),
        decreases list.len() - i,
    {
        let ghost next = keys.take(i as int + 1);
        let ghost before = reference_keys(out@);
        proof {
            assert(next.drop_last() =~= keys.take(i as int));
            assert(next.last() == list@[i as int]@);
            if i > 0 {
                assert(next[next.len() - 2] == list@[i as int - 1]@);
            }
        }
        if i == 0 || !list[i].same(&list[i - 1]) {
            let item = list[i].clone();
            out.push(item);
            assert(reference_keys(out@) =~= before.push(item@));
        }
        i = i + 1;
    }
    assert(keys.take(i as int) =~= keys);
    out
}

/// The references for a list of facts.
pub open spec fn fact_keys(facts: Seq<FactRef>) -> Seq<EntityRefKey> {
    facts.map_values(|fact: FactRef| fact_key(fact))
}

/// The premises of a row: what led to it and its evidence, in order, once each.
pub open spec fn row_premises(row: QueryRow) -> Seq<EntityRefKey> {
    without_repeats(ranked(fact_keys(row.premises@ + row.evidence@)))
}

/// The hit that a row becomes.
pub open spec fn row_hit(row: QueryRow) -> HitView {
    HitView {
        fact: fact_key(row.fact),
        extent: optional_geometry(row.extent),
        rule: row.rule@,
        premises: row_premises(row),
    }
}

fn append_facts(out: &mut Vec<EntityRefDto>, facts: &Vec<FactRef>)
    ensures
        reference_keys(final(out)@) == reference_keys(old(out)@) + fact_keys(facts@),
{
    let ghost before = reference_keys(out@);
    let mut i: usize = 0;
    assert(reference_keys(out@) =~= before + fact_keys(facts@.take(0)));
    while i < facts.len()
        invariant
            i <= facts.len(),
            reference_keys(out@) == before + fact_keys(facts@.take(i as int)),
        decreases facts.len() - i,
    {
        let item = project_fact(facts[i]);
        let ghost done = reference_keys(out@);
        out.push(item);
        proof {
            assert(reference_keys(out@) =~= done.push(item@));
            assert(fact_keys(facts@.take(i as int + 1)) =~= fact_keys(facts@.take(i as int)).push(
                fact_key(facts@[i as int]),
            ));
            assert(reference_keys(out@) =~= before + fact_keys(facts@.take(i as int + 1)));
        }
        i = i + 1;
    }
    assert(facts@.take(i as int) =~= facts@);
}

fn project_row(row: &QueryRow) -> (r: QueryHitDto)
    ensures
        r@ == row_hit(*row),
{
    let mut all: Vec<EntityRefDto> = Vec::new();
    assert(reference_keys(all@) =~= Seq::<EntityRefKey>::empty());
    append_facts(&mut all, &row.premises);
    append_facts(&mut all, &row.evidence);
    assert(reference_keys(all@) =~= fact_keys(row.premises@ + row.evidence@));
    let ghost list = all@;
    let sorted = sort_by_rank(all);
    proof {
        ranked_commutes_with_views(list, |e: EntityRefDto| e@);
    }
    QueryHitDto {
        fact: project_fact(row.fact),
        extent: copy_optional_geometry(&row.extent),
        derivation: QueryDerivationDto { rule: row.rule.clone(), premises: drop_repeats(&sorted) },
    }
}

/// What the content address of a query is the digest of: the query, the algorithm and
/// the bytes of the digest of the facts, under a domain.
#[derive(Debug, PartialEq, Eq)]
pub struct QueryAddressInput {
    pub domain: String,
    /// The query as JSON.
    pub query: Vec<u8>,
    pub algorithm: String,
    pub fact_base: [u8; 32],
}

/// The domain of content addresses of queries.
pub const QUERY_ADDRESS_DOMAIN: &'static str = "audec-air-query-execution-v1";

/// The name that an algorithm has in content addresses.
pub open spec fn algorithm_name(algorithm: PortableDigestAlgorithm) -> Seq<char> {
    match algorithm {
        PortableDigestAlgorithm::Sha256 => "sha256"@,
        PortableDigestAlgorithm::Blake3 => "blake3"@,
        PortableDigestAlgorithm::StableNonCryptographic => "stable"@,
    }
}

/// What to take the digest of for the content address of a query on some facts, given
/// the query as JSON.
pub fn query_content_address(query: Result<Vec<u8>, String>, fact_base: PortableDigest) -> (r:
    Result<QueryAddressInput, WorkbenchError>)
    ensures
        match query {
            Err(message) => r == Err::<QueryAddressInput, WorkbenchError>(
                WorkbenchError::Json(message),
            ),
            Ok(json) => {
                &&& r matches Ok(input)
                &&& input.domain@ == QUERY_ADDRESS_DOMAIN@
                &&& input.query == json
                &&& input.algorithm@ == algorithm_name(fact_base.algorithm)
                &&& input.fact_base == fact_base.bytes
            },
        },
{
    match query {
        Err(message) => Err(WorkbenchError::Json(message)),
        Ok(json) => Ok(
            QueryAddressInput {
                domain: owned(QUERY_ADDRESS_DOMAIN),
                query: json,
                algorithm: match fact_base.algorithm {
                    PortableDigestAlgorithm::Sha256 => owned("sha256"),
                    PortableDigestAlgorithm::Blake3 => owned("blake3"),
                    PortableDigestAlgorithm::StableNonCryptographic => owned("stable"),
                },
                fact_base: fact_base.bytes,
            },
        ),
    }
}

/// Where a page starts: at its cursor, or at the beginning.
pub open spec fn requested_start(request: QueryPageRequest, address: PortableDigest) -> Result<
    u64,
    WorkbenchFault,
> {
    match request.cursor {
        None => Ok(0),
        Some(cursor) => cursor_offset(cursor@, address),
    }
}

/// Where a page ends: `limit` rows on, or at the end of the rows.
pub open spec fn requested_end(start: int, limit: u32, total: int) -> int {
    if start + limit < total {
        start + limit
    } else {
        total
    }
}

/// A page as it is frozen.
pub open spec fn is_page(
    result: QueryResultSnapshot,
    document: QueryDocument,
    provenance: QueryExecutionProvenance,
    address: PortableDigest,
    rows: Seq<QueryRow>,
    start: u64,
    end: int,
) -> bool {
    &&& result.document_revision == document.revision
    &&& result.content_address == address
    &&& result.page_start == start
    &&& result.provenance == provenance
    &&& result.page.query_term@ == term_label(document.query.tree())
    &&& result.page.result_revision == provenance.fact_base_revision
    &&& hit_views(result.page.hits@) == rows.subrange(
        start as int,
        end,
    ).map_values(|row: QueryRow| row_hit(row))
    &&& match result.page.next_cursor {
        Some(cursor) => end < rows.len() && cursor@ == cursor_text(address, end as u64),
        None => end >= rows.len(),
    }
}

/// Why a page is refused: the first thing that is wrong with the document, the
/// request, the run or the page itself.
pub open spec fn page_refusal(
    document: QueryDocument,
    provenance: QueryExecutionProvenance,
    request: QueryPageRequest,
    content_address: Result<PortableDigest, String>,
    run: QueryRun,
) -> Option<WorkbenchFault> {
    if document.fault() is Some {
        document.fault()
    } else if provenance.fact_base_revision == 0 || !provenance.fact_base_digest.strong() {
        Some(
            WorkbenchFault::InvalidExecution(
                "fact-base revision must be nonzero and its digest must be strong"@,
            ),
        )
    } else if request.limit == 0 {
        Some(WorkbenchFault::InvalidPage("page limit cannot be zero"@))
    } else {
        match content_address {
            Err(message) => Some(WorkbenchFault::Json(message@)),
            Ok(address) => match requested_start(request, address) {
                Err(fault) => Some(fault),
                Ok(start) => if run.cancelled {
                    Some(WorkbenchFault::Query(QueryError::Cancelled))
                } else {
                    match run.rows {
                        Err(error) => Some(WorkbenchFault::Query(error)),
                        Ok(rows) => if start > usize::MAX {
                            Some(
                                WorkbenchFault::InvalidPage(
                                    "cursor offset exceeds this platform"@,
                                ),
                            )
                        } else if start > rows@.len() {
                            Some(
                                WorkbenchFault::InvalidPage(
                                    "cursor offset is beyond the result set"@,
                                ),
                            )
                        } else if run.cancelled_after matches Some(done) && done
                            < requested_end(start as int, request.limit, rows@.len() as int)
                            - start {
                            Some(WorkbenchFault::Query(QueryError::Cancelled))
                        } else if hits_fault(page_hits(request.limit, rows@, start), 0) is Some {
                            hits_fault(page_hits(request.limit, rows@, start), 0)
                        } else if has_page(document, address, start) {
                            Some(WorkbenchFault::DuplicatePage { address, start })
                        } else {
                            None
                        },
                    }
                },
            },
        }
    }
}

/// The hits of a page that starts at a row.
pub open spec fn page_hits(limit: u32, rows: Seq<QueryRow>, start: u64) -> Seq<HitView> {
    rows.subrange(
        start as int,
        requested_end(start as int, limit, rows.len() as int),
    ).map_values(|row: QueryRow| row_hit(row))
}

/// Two documents differ in their results at most.
pub open spec fn same_head(a: QueryDocument, b: QueryDocument) -> bool {
    &&& a.format == b.format
    &&& a.version == b.version
    &&& a.id == b.id
    &&& a.revision == b.revision
    &&& a.title == b.title
    &&& a.query == b.query
    &&& a.extensions == b.extensions
}

/// A result of the same revision, address and offset is in the document.
pub open spec fn has_page(document: QueryDocument, address: PortableDigest, start: u64) -> bool {
    exists|i: int|
        0 <= i < document.results@.len() && (#[trigger] document.results@[i]).document_revision
            == document.revision && document.results@[i].content_address == address
            && document.results@[i].page_start == start
}

fn page_exists(document: &QueryDocument, address: &PortableDigest, start: u64) -> (r: bool)
    ensures
        r == has_page(*document, *address, start),
{
    let mut i: usize = 0;
    while i < document.results.len()
        invariant
            i <= document.results.len(),
            forall|j: int|
                0 <= j < i ==> !((#[trigger] document.results@[j]).document_revision
                    == document.revision && document.results@[j].content_address == *address
                    && document.results@[j].page_start == start),
        decreases document.results.len() - i,
    {
        if document.results[i].document_revision == document.revision
            && document.results[i].content_address.same(address) && document.results[i].page_start
            == start {
            assert(document.results@[i as int].page_start == start);
            return true;
        }
        i = i + 1;
    }
    false
}

fn project_rows(rows: &Vec<QueryRow>, start: usize, end: usize) -> (r: Vec<QueryHitDto>)
    requires
        start <= end <= rows.len(),
    ensures
        hit_views(r@) == rows@.subrange(start as int, end as int).map_values(
            |row: QueryRow| row_hit(row),
        ),
{
    let mut hits: Vec<QueryHitDto> = Vec::new();
    let mut i: usize = start;
    while i < end
        invariant
            start <= i <= end <= rows.len(),
            hits@.len() == i - start,
            forall|j: int|
                0 <= j < i - start ==> (#[trigger] hits@[j])@ == row_hit(rows@[start + j]),
        decreases end - i,
    {
        hits.push(project_row(&rows[i]));
        i = i + 1;
    }
    assert(hit_views(hits@) =~= rows@.subrange(
        start as int,
        end as int,
    ).map_values(|row: QueryRow| row_hit(row)));
    hits
}

/// Freezes one page of results and gives it back, given the content address of the query
/// and its facts and what running the query gave. Nothing is appended to the document
/// unless the whole page is good: a refusal leaves it as it was.
pub fn execute_query_page(
    document: &mut QueryDocument,
    provenance: QueryExecutionProvenance,
    request: QueryPageRequest,
    content_address: Result<PortableDigest, String>,
    run: QueryRun,
) -> (r: Result<&QueryResultSnapshot, WorkbenchError>)
    ensures
        match page_refusal(*old(document), provenance, request, content_address, run) {
            Some(fault) => {
                &&& r matches Err(error)
                &&& error@ == fault
                &&& *final(document) == *old(document)
            },
            None => {
                let address = content_address->Ok_0;
                let rows = run.rows->Ok_0@;
                let start = requested_start(request, address)->Ok_0;
                let end = requested_end(start as int, request.limit, rows.len() as int);
                &&& r matches Ok(result)
                &&& *result == final(document).results@.last()
                &&& final(document).results@.len() == old(document).results@.len() + 1
                &&& final(document).results@.drop_last() == old(document).results@
                &&& is_page(
                    final(document).results@.last(),
                    *old(document),
                    provenance,
                    address,
                    rows,
                    start,
                    end,
                )
                &&& same_head(*final(document), *old(document))
            },
        },
{
    match document.validate() {
        Ok(()) => {},
        Err(error) => {
            return Err(error);
        },
    }
    if provenance.fact_base_revision == 0 || !provenance.fact_base_digest.is_strong() {
        return Err(
            WorkbenchError::InvalidExecution(
                owned("fact-base revision must be nonzero and its digest must be strong"),
            ),
        );
    }
    if request.limit == 0 {
        return Err(WorkbenchError::InvalidPage(owned("page limit cannot be zero")));
    }
    let address = match content_address {
        Ok(address) => address,
        Err(message) => {
            return Err(WorkbenchError::Json(message));
        },
    };
    let page_start: u64 = match &request.cursor {
        None => 0,
        Some(cursor) => match decode_cursor(cursor.as_str(), address) {
            Ok(offset) => offset,
            Err(error) => {
                return Err(error);
            },
        },
    };
    if run.cancelled {
        return Err(WorkbenchError::Query(QueryError::Cancelled));
    }
    let rows = match run.rows {
        Ok(rows) => rows,
        Err(error) => {
            return Err(WorkbenchError::Query(error));
        },
    };
    if page_start > usize::MAX as u64 {
        return Err(WorkbenchError::InvalidPage(owned("cursor offset exceeds this platform")));
    }
    let start: usize = page_start as usize;
    if start > rows.len() {
        return Err(WorkbenchError::InvalidPage(owned("cursor offset is beyond the result set")));
    }
    let left: usize = rows.len() - start;
    let end: usize = if (request.limit as u64) < left as u64 {
        start + request.limit as usize
    } else {
        rows.len()
    };
    match run.cancelled_after {
        Some(done) => {
            if done < end - start {
                return Err(WorkbenchError::Query(QueryError::Cancelled));
            }
        },
        None => {},
    }
    let hits = project_rows(&rows, start, end);
    let next_cursor = if end < rows.len() {
        Some(encode_cursor(address, end as u64))
    } else {
        None
    };
    let page = QueryResultPageDto {
        query_term: document.query.stable_label(),
        result_revision: provenance.fact_base_revision,
        hits,
        next_cursor,
    };
    match validate_result_page(&page) {
        Ok(()) => {},
        Err(error) => {
            return Err(error);
        },
    }
    if page_exists(document, &address, page_start) {
        return Err(WorkbenchError::DuplicatePage { address, start: page_start });
    }
    let ghost before = document.results@;
    document.results.push(
        QueryResultSnapshot {
            document_revision: document.revision,
            content_address: address,
            page_start,
            provenance,
            page,
        },
    );
    assert(document.results@.drop_last() =~= before);
    Ok(&document.results[document.results.len() - 1])
}

/// Freezes all results in one page, without a cursor and without cancellation.
pub fn execute_query_document(
    document: &mut QueryDocument,
    provenance: QueryExecutionProvenance,
    content_address: Result<PortableDigest, String>,
    rows: Result<Vec<QueryRow>, QueryError>,
) -> (r: Result<&QueryResultSnapshot, WorkbenchError>)
    ensures
        ({
            let request = QueryPageRequest { limit: u32::MAX, cursor: None };
            let run = QueryRun { cancelled: false, rows, cancelled_after: None };
            match page_refusal(*old(document), provenance, request, content_address, run) {
                Some(fault) => {
                &&& r matches Err(error)
                &&& error@ == fault
                &&& *final(document) == *old(document)
            },
                None => {
                    &&& r matches Ok(result)
                &&& *result == final(document).results@.last()
                    &&& final(document).results@.len() == old(document).results@.len() + 1
                    &&& final(document).results@.drop_last() == old(document).results@
                    &&& is_page(
                        final(document).results@.last(),
                        *old(document),
                        provenance,
                        content_address->Ok_0,
                        rows->Ok_0@,
                        0,
                        requested_end(0, u32::MAX, rows->Ok_0@.len() as int),
                    )
                    &&& same_head(*final(document), *old(document))
                },
            }
        }),
{
    execute_query_page(
        document,
        provenance,
        QueryPageRequest { limit: u32::MAX, cursor: None },
        content_address,
        QueryRun { cancelled: false, rows, cancelled_after: None },
    )
}

/// The cursor of a frozen page reads back, at the page's address, as the offset
/// at which the next page starts.
pub proof fn next_page_starts_where_this_one_ends(
    result: QueryResultSnapshot,
    document: QueryDocument,
    provenance: QueryExecutionProvenance,
    address: PortableDigest,
    rows: Seq<QueryRow>,
    start: u64,
    end: int,
)
    requires
        is_page(result, document, provenance, address, rows, start, end),
        start <= end <= rows.len() <= usize::MAX,
        result.page.next_cursor is Some,
    ensures
        requested_start(
            (QueryPageRequest { limit: 1, cursor: result.page.next_cursor }),
            address,
        ) == Ok::<u64, WorkbenchFault>(end as u64),
        page_end(result) == end,
{
    crate::cursor::cursors_bind_their_address(address, end as u64, address);
    assert(hit_views(result.page.hits@).len() == end - start);
}

proof fn lemma_results_prefix(
    results: Seq<QueryResultSnapshot>,
    revision: u64,
    last: QueryResultSnapshot,
    i: int,
)
    requires
        0 <= i <= results.len(),
        results_fault(results, revision, i) is None,
        result_fits(last, revision),
        forall|j: int| 0 <= j < results.len() ==> !same_result(#[trigger] results[j], last),
        page_fault(last) is None,
    ensures
        results_fault(results.push(last), revision, i) is None,
    decreases results.len() - i,
{
    let all = results.push(last);
    if i < results.len() {
        assert(all[i] == results[i]);
        assert forall|j: int| 0 <= j < i implies !#[trigger] same_result(all[j], all[i]) by {
            assert(all[j] == results[j]);
            assert(!same_result(results[j], results[i]));
        }
        lemma_results_prefix(results, revision, last, i + 1);
    } else {
        assert(all[i] == last);
        assert forall|j: int| 0 <= j < i implies !#[trigger] same_result(all[j], all[i]) by {
            assert(all[j] == results[j]);
        }
        assert(results_fault(all, revision, i + 1) is None);
    }
}

/// A page keeps its document valid, whatever was asked for and found, as long as the
/// address of its content is strong.
pub proof fn documents_stay_valid(
    before: QueryDocument,
    provenance: QueryExecutionProvenance,
    request: QueryPageRequest,
    address: PortableDigest,
    run: QueryRun,
    after: QueryDocument,
)
    requires
        page_refusal(before, provenance, request, Ok(address), run) is None,
        address.strong(),
        same_head(after, before),
        after.results@.len() == before.results@.len() + 1,
        after.results@.drop_last() == before.results@,
        is_page(
            after.results@.last(),
            before,
            provenance,
            address,
            run.rows->Ok_0@,
            requested_start(request, address)->Ok_0,
            requested_end(
                requested_start(request, address)->Ok_0 as int,
                request.limit,
                run.rows->Ok_0@.len() as int,
            ),
        ),
        run.rows->Ok_0@.len() <= usize::MAX,
    ensures
        before.fault() is None,
        after.fault() is None,
{
    let rows = run.rows->Ok_0@;
    let start = requested_start(request, address)->Ok_0;
    let end = requested_end(start as int, request.limit, rows.len() as int);
    let last = after.results@.last();
    assert(after.results@ =~= before.results@.push(last));
    assert(hit_views(last.page.hits@) == page_hits(request.limit, rows, start));
    assert(hit_views(last.page.hits@).len() == end - start);
    crate::query_terms::labels_are_not_blank(before.query.tree());
    match last.page.next_cursor {
        Some(cursor) => {
            crate::cursor::cursors_bind_their_address(address, end as u64, address);
        },
        None => {},
    }
    assert(page_fault(last) is None);
    assert forall|j: int| 0 <= j < before.results@.len() implies !same_result(
        #[trigger] before.results@[j],
        last,
    ) by {
        if same_result(before.results@[j], last) {
            assert(has_page(before, address, start));
        }
    }
    lemma_results_prefix(before.results@, before.revision, last, 0);
}

// ----- targets and the pane ---------------------------------------------

/// What to reveal: an entity, with its extent where it has one.
#[derive(Debug, PartialEq, Eq)]
pub struct RevealTarget {
    pub entity: EntityRefDto,
    pub extent: Option<AspectGeometryDto>,
}

/// What to audition: an entity and its extent.
#[derive(Debug, PartialEq, Eq)]
pub struct AuditionTarget {
    pub entity: EntityRefDto,
    pub extent: AspectGeometryDto,
}

impl AuditionTarget {
    /// A copy of the target.
    pub fn copy(&self) -> (r: AuditionTarget)
        ensures
            r.entity == self.entity,
            r.extent@ == self.extent@,
    {
        AuditionTarget { entity: self.entity.clone(), extent: self.extent.copy() }
    }
}

/// Why an action on a result row is refused.
#[derive(Debug, PartialEq, Eq)]
pub enum WorkbenchActionRefusal {
    NoSelection,
    UnknownRow(usize),
    MissingExtent(EntityRefDto),
}

/// The hits of the newest result.
pub open spec fn latest_hits(document: QueryDocument) -> Seq<QueryHitDto> {
    if document.results@.len() == 0 {
        Seq::empty()
    } else {
        document.results@.last().page.hits@
    }
}

/// A query document with a selected result row.
#[derive(Debug, PartialEq)]
pub struct WorkbenchPaneModel {
    document: QueryDocument,
    selected_row: Option<usize>,
}

impl WorkbenchPaneModel {
    /// The document.
    pub closed spec fn doc(&self) -> QueryDocument {
        self.document
    }

    /// The selected row.
    pub closed spec fn selection(&self) -> Option<usize> {
        self.selected_row
    }

    /// The document.
    pub fn document(&self) -> (r: &QueryDocument)
        ensures
            *r == self.doc(),
    {
        &self.document
    }

    /// The number of rows of the newest result.
    pub fn row_count(&self) -> (r: usize)
        ensures
            r == latest_hits(self.doc()).len(),
    {
        if self.document.results.len() == 0 {
            0
        } else {
            self.document.results[self.document.results.len() - 1].page.hits.len()
        }
    }

    /// The rows of the newest result, if there is a result.
    pub fn rows(&self) -> (r: Option<&Vec<QueryHitDto>>)
        ensures
            match r {
                Some(hits) => self.doc().results@.len() > 0 && hits@ == latest_hits(self.doc()),
                None => self.doc().results@.len() == 0,
            },
    {
        if self.document.results.len() == 0 {
            None
        } else {
            Some(&self.document.results[self.document.results.len() - 1].page.hits)
        }
    }

    /// The selected row.
    pub fn selected_row(&self) -> (r: Option<usize>)
        ensures
            r == self.selection(),
    {
        self.selected_row
    }

    /// Selects a row of the newest result.
    pub fn select_row(&mut self, row: usize) -> (r: Result<(), WorkbenchActionRefusal>)
        ensures
            final(self).doc() == old(self).doc(),
            if row < latest_hits(old(self).doc()).len() {
                r is Ok && final(self).selection() == Some(row)
            } else {
                r == Err::<(), WorkbenchActionRefusal>(WorkbenchActionRefusal::UnknownRow(row))
                    && final(self).selection() == old(self).selection()
            },
    {
        if row >= self.row_count() {
            return Err(WorkbenchActionRefusal::UnknownRow(row));
        }
        self.selected_row = Some(row);
        Ok(())
    }

    /// Why there is no selected hit.
    pub open spec fn hit_refusal(&self) -> Option<WorkbenchActionRefusal> {
        match self.selection() {
            None => Some(WorkbenchActionRefusal::NoSelection),
            Some(row) => if row < latest_hits(self.doc()).len() {
                None
            } else {
                Some(WorkbenchActionRefusal::UnknownRow(row))
            },
        }
    }

    fn selected_hit(&self) -> (r: Result<&QueryHitDto, WorkbenchActionRefusal>)
        ensures
            match r {
                Ok(hit) => self.hit_refusal() is None && *hit == latest_hits(
                    self.doc(),
                )[self.selection()->0 as int],
                Err(refusal) => self.hit_refusal() == Some(refusal),
            },
    {
        match self.selected_row {
            None => Err(WorkbenchActionRefusal::NoSelection),
            Some(row) => match self.rows() {
                Some(hits) => if row < hits.len() {
                    Ok(&hits[row])
                } else {
                    Err(WorkbenchActionRefusal::UnknownRow(row))
                },
                None => Err(WorkbenchActionRefusal::UnknownRow(row)),
            },
        }
    }

    /// The selected fact is what is to be revealed.
    pub open spec fn reveals(&self, r: Result<RevealTarget, WorkbenchActionRefusal>) -> bool {
        match self.hit_refusal() {
            Some(refusal) => r == Err::<RevealTarget, WorkbenchActionRefusal>(refusal),
            None => {
                let hit = latest_hits(self.doc())[self.selection()->0 as int];
                r matches Ok(target) && target.entity == hit.fact && optional_geometry(
                    target.extent,
                ) == optional_geometry(hit.extent)
            },
        }
    }

    /// The selected fact is what is to be auditioned, where it has an extent.
    pub open spec fn auditions(&self, r: Result<AuditionTarget, WorkbenchActionRefusal>) -> bool {
        match self.hit_refusal() {
            Some(refusal) => r == Err::<AuditionTarget, WorkbenchActionRefusal>(refusal),
            None => {
                let hit = latest_hits(self.doc())[self.selection()->0 as int];
                match hit.extent {
                    None => r == Err::<AuditionTarget, WorkbenchActionRefusal>(
                        WorkbenchActionRefusal::MissingExtent(hit.fact),
                    ),
                    Some(extent) => r matches Ok(target) && target.entity == hit.fact
                        && target.extent@ == extent@,
                }
            },
        }
    }

    /// The selected fact, to reveal.
    pub fn reveal_target(&self) -> (r: Result<RevealTarget, WorkbenchActionRefusal>)
        ensures
            self.reveals(r),
    {
        match self.selected_hit() {
            Err(refusal) => Err(refusal),
            Ok(hit) => Ok(
                RevealTarget {
                    entity: hit.fact.clone(),
                    extent: copy_optional_geometry(&hit.extent),
                },
            ),
        }
    }

    /// The selected fact, to audition; refused where it has no extent.
    pub fn audition_target(&self) -> (r: Result<AuditionTarget, WorkbenchActionRefusal>)
        ensures
            self.auditions(r),
    {
        match self.selected_hit() {
            Err(refusal) => Err(refusal),
            Ok(hit) => match &hit.extent {
                None => Err(WorkbenchActionRefusal::MissingExtent(hit.fact.clone())),
                Some(extent) => Ok(
                    AuditionTarget { entity: hit.fact.clone(), extent: extent.copy() },
                ),
            },
        }
    }
}

/// What a durable view of the workspace is.
#[derive(Debug, PartialEq, Eq)]
pub enum ViewKind {
    Extension { namespace: String, name: String },
    Other,
}

/// What a durable view of the workspace edits.
#[derive(Debug, PartialEq, Eq)]
pub enum EditorTarget {
    Extension { namespace: String, key: String },
    Other,
}

/// A durable view of the workbench for a workspace.
#[derive(Debug, PartialEq)]
pub struct NewWorkspaceView {
    pub kind: ViewKind,
    pub target: EditorTarget,
    pub title_override: Option<String>,
    /// The views it shares its state with; none where it is not linked.
    pub links: Option<ViewLinkMembership>,
    /// The state of the extension.
    pub state: JsonPayload,
    pub extensions: Vec<JsonMember>,
}

/// The kind names a view of the workbench.
pub open spec fn is_workbench_kind(kind: ViewKind) -> bool {
    &&& kind matches ViewKind::Extension { namespace, name }
    &&& namespace@ == WORKBENCH_NAMESPACE@
    &&& name@ == WORKBENCH_VIEW_NAME@
}

/// The target is the query document with this identity.
pub open spec fn targets_document(target: EditorTarget, id: QueryDocumentId) -> bool {
    &&& target matches EditorTarget::Extension { namespace, key }
    &&& namespace@ == WORKBENCH_NAMESPACE@
    &&& key@ == "query-document:"@ + decimal(id.0 as nat)
}

/// Makes panes and durable views for query documents.
pub struct WorkbenchPaneFactory;

impl WorkbenchPaneFactory {
    /// A pane over a valid document, with nothing selected.
    pub fn model(document: QueryDocument) -> (r: Result<WorkbenchPaneModel, WorkbenchError>)
        ensures
            match document.fault() {
                Some(fault) => r matches Err(error) && error@ == fault,
                None => r matches Ok(model) && model.doc() == document && model.selection() is None,
            },
    {
        match document.validate() {
            Err(error) => Err(error),
            Ok(()) => Ok(WorkbenchPaneModel { document, selected_row: None }),
        }
    }

    /// A durable view of a valid document, given the document as JSON.
    pub fn workspace_view(document: &QueryDocument, state: Result<JsonPayload, String>) -> (r:
        Result<NewWorkspaceView, WorkbenchError>)
        ensures
            match document.fault() {
                Some(fault) => r matches Err(error) && error@ == fault,
                None => match state {
                    Err(message) => r matches Err(error) && error@ == WorkbenchFault::Json(
                        message@,
                    ),
                    Ok(json) => {
                        &&& r matches Ok(view)
                        &&& is_workbench_kind(view.kind)
                        &&& targets_document(view.target, document.id)
                        &&& view.title_override == Some(document.title)
                        &&& view.links is None
                        &&& view.state == json
                        &&& view.extensions@ == Seq::<JsonMember>::empty()
                    },
                },
            },
    {
        match document.validate() {
            Err(error) => {
                return Err(error);
            },
            Ok(()) => {},
        }
        match state {
            Err(message) => Err(WorkbenchError::Json(message)),
            Ok(json) => {
                let mut key = owned("query-document:");
                append_decimal(&mut key, document.id.0);
                let extensions: Vec<JsonMember> = Vec::new();
                assert(extensions@ =~= Seq::<JsonMember>::empty());
                Ok(
                    NewWorkspaceView {
                        kind: ViewKind::Extension {
                            namespace: owned(WORKBENCH_NAMESPACE),
                            name: owned(WORKBENCH_VIEW_NAME),
                        },
                        target: EditorTarget::Extension {
                            namespace: owned(WORKBENCH_NAMESPACE),
                            key,
                        },
                        title_override: Some(document.title.clone()),
                        links: None,
                        state: json,
                        extensions,
                    },
                )
            },
        }
    }
}

// ----- residual guide ---------------------------------------------------

/// A query for what a proposal leaves unexplained, and a queue of regions to
/// audition.
#[derive(Debug, PartialEq)]
pub struct ResidualGuide {
    pub query_document: QueryDocument,
    pub auditions: Vec<AuditionTarget>,
}

/// The term that a residual guide asks with.
pub open spec fn residual_term(proposal_id: u64, hotspots: Seq<RegionDto>) -> TermTree {
    TermTree::And(
        seq![
            TermTree::NotExplainedBy(proposal_id),
            TermTree::Within(
                GeometryView {
                    regions: hotspots,
                    objects: Seq::empty(),
                    signal: SignalView::Source,
                },
            ),
        ],
    )
}

/// The audition of one hotspot: the residual of the comparison in that region.
pub open spec fn is_residual_audition(
    target: AuditionTarget,
    comparison_id: u64,
    hotspot: RegionDto,
) -> bool {
    let entity = EntityRefKey::Project { kind: "comparison"@, local_id: comparison_id };
    &&& target.entity@ == entity
    &&& target.extent@ == (GeometryView {
        regions: seq![hotspot],
        objects: Seq::empty(),
        signal: SignalView::Residual(entity),
    })
}

fn residual_audition(comparison_id: u64, hotspot: RegionDto) -> (r: AuditionTarget)
    ensures
        is_residual_audition(r, comparison_id, hotspot),
{
    let mut regions: Vec<RegionDto> = Vec::new();
    regions.push(hotspot);
    let objects: Vec<EntityRefDto> = Vec::new();
    assert(regions@ =~= seq![hotspot]);
    assert(reference_keys(objects@) =~= Seq::<EntityRefKey>::empty());
    AuditionTarget {
        entity: EntityRefDto::Project { kind: owned("comparison"), local_id: comparison_id },
        extent: AspectGeometryDto {
            regions,
            objects,
            signal: SignalLayerDto::Residual {
                reference: EntityRefDto::Project {
                    kind: owned("comparison"),
                    local_id: comparison_id,
                },
            },
        },
    }
}

/// Why there is no residual guide.
pub open spec fn residual_fault(
    id: QueryDocumentId,
    title: Seq<char>,
    hotspots: Seq<RegionDto>,
    comparison_id: u64,
    proposal_id: u64,
) -> Option<WorkbenchFault> {
    if comparison_id == 0 || proposal_id == 0 {
        Some(WorkbenchFault::InvalidQuery("comparison and proposal ids cannot be zero"@))
    } else if id.0 == 0 || is_blank(title) {
        Some(WorkbenchFault::InvalidDocument("id, revision, and non-blank title are required"@))
    } else {
        match compiled(residual_term(proposal_id, hotspots)) {
            Err(fault) => Some(fault),
            Ok(_) => None,
        }
    }
}

/// The guide to what a proposal leaves unexplained.
pub open spec fn is_residual_guide(
    guide: ResidualGuide,
    id: QueryDocumentId,
    title: String,
    hotspots: Seq<RegionDto>,
    comparison_id: u64,
    proposal_id: u64,
) -> bool {
    &&& guide.query_document.fault() is None
    &&& guide.query_document.id == id
    &&& guide.query_document.title == title
    &&& guide.query_document.revision == 1
    &&& guide.query_document.results@.len() == 0
    &&& guide.query_document.query.tree() == residual_term(proposal_id, hotspots)
    &&& guide.auditions@.len() == hotspots.len()
    &&& forall|i: int|
        0 <= i < hotspots.len() ==> is_residual_audition(
            #[trigger] guide.auditions@[i],
            comparison_id,
            hotspots[i],
        )
}

/// Builds a query and an audition queue from the same ranking of residual
/// hotspots. Rank is never turned into correctness or confidence.
pub fn residual_guide(
    id: QueryDocumentId,
    title: String,
    hotspots: &Vec<RegionDto>,
    comparison_id: u64,
    proposal_id: u64,
) -> (r: Result<ResidualGuide, WorkbenchError>)
    ensures
        match residual_fault(id, title@, hotspots@, comparison_id, proposal_id) {
            Some(fault) => r matches Err(error) && error@ == fault,
            None => r matches Ok(guide) && is_residual_guide(
                guide,
                id,
                title,
                hotspots@,
                comparison_id,
                proposal_id,
            ),
        },
{
    if comparison_id == 0 || proposal_id == 0 {
        return Err(
            WorkbenchError::InvalidQuery(owned("comparison and proposal ids cannot be zero")),
        );
    }
    let objects: Vec<EntityRefDto> = Vec::new();
    assert(reference_keys(objects@) =~= Seq::<EntityRefKey>::empty());
    let geometry = AspectGeometryDto {
        regions: crate::navigation::copy_regions(hotspots),
        objects,
        signal: SignalLayerDto::Source,
    };
    let mut terms: Vec<QueryTermDto> = Vec::new();
    terms.push(QueryTermDto::NotExplainedBy { proposal_id });
    terms.push(QueryTermDto::Within { aspect: geometry });
    let ghost trees = term_trees(terms@);
    assert(trees =~= residual_term(proposal_id, hotspots@)->And_0);
    let query = QueryTermDto::And { terms };
    assert(query.tree() == residual_term(proposal_id, hotspots@));
    let query_document = QueryDocument::new(id, title, query);
    match query_document.validate() {
        Ok(()) => {},
        Err(error) => {
            return Err(error);
        },
    }
    let mut auditions: Vec<AuditionTarget> = Vec::new();
    let mut i: usize = 0;
    while i < hotspots.len()
        invariant
            i <= hotspots.len(),
            auditions@.len() == i,
            forall|j: int|
                0 <= j < i ==> is_residual_audition(
                    #[trigger] auditions@[j],
                    comparison_id,
                    hotspots@[j],
                ),
        decreases hotspots.len() - i,
    {
        auditions.push(residual_audition(comparison_id, hotspots[i]));
        i = i + 1;
    }
    Ok(ResidualGuide { query_document, auditions })
}

} // verus!
