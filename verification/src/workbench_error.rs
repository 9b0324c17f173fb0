//! Why a query document, a query or a result page is refused.

use vstd::prelude::*;

use crate::navigation::{EntityRefDto, EntityRefKey, RegionDto};
use crate::reading::PortableDigest;

verus! {

/// How running a query fails.
#[derive(Clone, Copy, Debug, PartialEq, Eq, Structural)]
pub enum QueryError {
    Cancelled,
    UnresolvedAspect,
}

/// Why the workbench refuses.
#[derive(Debug, PartialEq)]
pub enum WorkbenchError {
    Json(String),
    WrongDocumentFormat(String),
    UnsupportedDocumentVersion(u32),
    InvalidDocument(String),
    InvalidQuery(String),
    InvalidResult(String),
    InvalidExecution(String),
    InvalidPage(String),
    StaleCursor,
    DuplicatePage { address: PortableDigest, start: u64 },
    InvalidEntity(EntityRefDto),
    InvalidRegion(RegionDto),
    QualifiedReferenceInProjectQuery(EntityRefDto),
    Query(QueryError),
}

/// What a refusal of the workbench says.
pub enum WorkbenchFault {
    Json(Seq<char>),
    WrongDocumentFormat(Seq<char>),
    UnsupportedDocumentVersion(u32),
    InvalidDocument(Seq<char>),
    InvalidQuery(Seq<char>),
    InvalidResult(Seq<char>),
    InvalidExecution(Seq<char>),
    InvalidPage(Seq<char>),
    StaleCursor,
    DuplicatePage { address: PortableDigest, start: u64 },
    InvalidEntity(EntityRefKey),
    InvalidRegion(RegionDto),
    QualifiedReferenceInProjectQuery(EntityRefKey),
    Query(QueryError),
}

impl View for WorkbenchError {
    type V = WorkbenchFault;

    open spec fn view(&self) -> WorkbenchFault {
        match *self {
            WorkbenchError::Json(text) => WorkbenchFault::Json(text@),
            WorkbenchError::WrongDocumentFormat(text) => WorkbenchFault::WrongDocumentFormat(text@),
            WorkbenchError::UnsupportedDocumentVersion(version) => {
                WorkbenchFault::UnsupportedDocumentVersion(version)
            },
            WorkbenchError::InvalidDocument(text) => WorkbenchFault::InvalidDocument(text@),
            WorkbenchError::InvalidQuery(text) => WorkbenchFault::InvalidQuery(text@),
            WorkbenchError::InvalidResult(text) => WorkbenchFault::InvalidResult(text@),
            WorkbenchError::InvalidExecution(text) => WorkbenchFault::InvalidExecution(text@),
            WorkbenchError::InvalidPage(text) => WorkbenchFault::InvalidPage(text@),
            WorkbenchError::StaleCursor => WorkbenchFault::StaleCursor,
            WorkbenchError::DuplicatePage { address, start } => WorkbenchFault::DuplicatePage {
                address,
                start,
            },
            WorkbenchError::InvalidEntity(entity) => WorkbenchFault::InvalidEntity(entity@),
            WorkbenchError::InvalidRegion(region) => WorkbenchFault::InvalidRegion(region),
            WorkbenchError::QualifiedReferenceInProjectQuery(reference) => {
                WorkbenchFault::QualifiedReferenceInProjectQuery(reference@)
            },
            WorkbenchError::Query(error) => WorkbenchFault::Query(error),
        }
    }
}

/// What the outcome of a check says.
pub open spec fn check_view(outcome: Result<(), WorkbenchError>) -> Option<WorkbenchFault> {
    match outcome {
        Ok(_) => None,
        Err(error) => Some(error@),
    }
}

} // verus!
