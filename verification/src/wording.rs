//! The words for refusals: as `{:?}` writes them, and as people read them.
//!
//! Floating-point numbers, and errors that belong to other parts of the program, are
//! worded by the host.

use vstd::prelude::*;
use vstd::string::*;

use crate::effects::{
    resolution_text, EffectFault, GeometryRefusal, ReadingEffectBridgeError, Resolution,
};
use crate::foreign_import::{ForeignImportRefusal, LoweringFault};
use crate::lifecycle::ProjectLifecycleError;
use crate::navigation::{EntityRefDto, EntityRefKey};
use crate::pane::{PaneFault, PaneRefusal};
use crate::protocol::{
    CommandRefusal, HeadlessProtocolError, ProtocolFault, ReadingRefusal, RequestRefusal,
};
use crate::query_builder::{BuilderFault, QueryBuilderRefusal};
use crate::query_document::WorkbenchActionRefusal;
use crate::query_terms::{debug_text, quoted};
use crate::reading::{
    PortableDigest, PortableDigestAlgorithm, QualifiedEntityId, ReadingError, ReadingId,
    ReadingVerificationRefusal, ReadingVersionRef, RefusalView, VerificationTier,
};
use crate::reading_codec::ReadingCodecError;
use crate::reading_import::{CodecView, ImportFault, ReadingActionRefusal, ReadingImportRefusal};
use crate::reading_merge::{MergeFault, ReadingMergeRefusal};
use crate::reading_source::{
    append_entity_text, byte_list, entity_text, missing_text, MissingSourceDiagnostic,
};
use crate::reading_workflow::{
    ExportGeometryFault, ExportGeometryRefusal, ReadingWorkflowRefusal, WorkflowFault,
};
use crate::receipts::PatternRevealExecutionError;
use crate::session::ProjectSessionError;
use crate::streamed_waveform::StreamingWaveformError;
use crate::text::{append_decimal, append_signed, decimal, hex_text, signed_decimal};
use crate::workbench_error::{QueryError, WorkbenchError, WorkbenchFault};

verus! {

/// Words that the host writes for what stands in a refusal.
#[derive(Debug, PartialEq, Eq)]
pub struct HostWords {
    /// A region with its frequencies.
    pub region: String,
    /// The lower frequency of a band.
    pub low: String,
    /// The upper frequency of a band.
    pub high: String,
    /// The frequency that a source reaches.
    pub limit: String,
    /// An error of the selection, of linked views or of streaming media.
    pub inner: String,
}

impl HostWords {
    /// Words for a refusal in which nothing of this stands.
    pub fn none() -> (r: HostWords)
        ensures
            r.region@ == Seq::<char>::empty(),
            r.low@ == Seq::<char>::empty(),
            r.high@ == Seq::<char>::empty(),
            r.limit@ == Seq::<char>::empty(),
            r.inner@ == Seq::<char>::empty(),
    {
        HostWords {
            region: String::new(),
            low: String::new(),
            high: String::new(),
            limit: String::new(),
            inner: String::new(),
        }
    }
}

// ----- as `{:?}` writes them ----------------------------------------------

fn append_bytes(out: &mut String, bytes: &[u8])
    ensures
        final(out)@ == old(out)@ + byte_list(bytes@),
{
    let ghost head = out@;
    let mut i: usize = 0;
    assert(out@ =~= head + byte_list(bytes@.take(0)));
    while i < bytes.len()
        invariant
            i <= bytes@.len(),
            out@ == head + byte_list(bytes@.take(i as int)),
        decreases bytes.len() - i,
    {
        let ghost done = bytes@.take(i as int + 1);
        proof {
            assert(done.drop_last() =~= bytes@.take(i as int));
            assert(done.last() == bytes@[i as int]);
        }
        if i > 0 {
            out.append(", ");
        }
        append_decimal(out, bytes[i] as u64);
        assert(out@ =~= head + byte_list(done));
        i = i + 1;
    }
    assert(bytes@.take(i as int) =~= bytes@);
}

/// The identity of a reading.
pub open spec fn reading_id_words(id: ReadingId) -> Seq<char> {
    "ReadingId(["@ + byte_list(id@) + "])"@
}

fn append_reading_id(out: &mut String, id: &ReadingId)
    ensures
        final(out)@ == old(out)@ + reading_id_words(*id),
{
    let ghost before = out@;
    let bytes = id.bytes();
    out.append("ReadingId([");
    append_bytes(out, bytes.as_slice());
    out.append("])");
    assert(out@ =~= before + reading_id_words(*id));
}

/// The name of an algorithm.
pub open spec fn algorithm_words(algorithm: PortableDigestAlgorithm) -> Seq<char> {
    match algorithm {
        PortableDigestAlgorithm::Sha256 => "Sha256"@,
        PortableDigestAlgorithm::Blake3 => "Blake3"@,
        PortableDigestAlgorithm::StableNonCryptographic => "StableNonCryptographic"@,
    }
}

/// A digest.
pub open spec fn digest_words(digest: PortableDigest) -> Seq<char> {
    "PortableDigest { algorithm: "@ + algorithm_words(digest.algorithm) + ", bytes: ["@ + byte_list(
        digest.bytes@,
    ) + "] }"@
}

fn append_digest(out: &mut String, digest: &PortableDigest)
    ensures
        final(out)@ == old(out)@ + digest_words(*digest),
{
    let ghost before = out@;
    out.append("PortableDigest { algorithm: ");
    match digest.algorithm {
        PortableDigestAlgorithm::Sha256 => {
            out.append("Sha256");
        },
        PortableDigestAlgorithm::Blake3 => {
            out.append("Blake3");
        },
        PortableDigestAlgorithm::StableNonCryptographic => {
            out.append("StableNonCryptographic");
        },
    }
    out.append(", bytes: [");
    append_bytes(out, digest.bytes.as_slice());
    out.append("] }");
    assert(out@ =~= before + digest_words(*digest));
}

/// A list of digests, without the brackets.
pub open spec fn digest_list(digests: Seq<PortableDigest>) -> Seq<char>
    decreases digests.len(),
{
    if digests.len() == 0 {
        Seq::empty()
    } else if digests.len() == 1 {
        digest_words(digests[0])
    } else {
        digest_list(digests.drop_last()) + ", "@ + digest_words(digests.last())
    }
}

fn append_digests(out: &mut String, digests: &Vec<PortableDigest>)
    ensures
        final(out)@ == old(out)@ + digest_list(digests@),
{
    let ghost head = out@;
    let mut i: usize = 0;
    assert(out@ =~= head + digest_list(digests@.take(0)));
    while i < digests.len()
        invariant
            i <= digests.len(),
            out@ == head + digest_list(digests@.take(i as int)),
        decreases digests.len() - i,
    {
        let ghost done = digests@.take(i as int + 1);
        proof {
            assert(done.drop_last() =~= digests@.take(i as int));
            assert(done.last() == digests@[i as int]);
        }
        if i > 0 {
            out.append(", ");
        }
        append_digest(out, &digests[i]);
        assert(out@ =~= head + digest_list(done));
        i = i + 1;
    }
    assert(digests@.take(i as int) =~= digests@);
}

/// A list of numbers, without the brackets.
pub open spec fn number_list(numbers: Seq<usize>) -> Seq<char>
    decreases numbers.len(),
{
    if numbers.len() == 0 {
        Seq::empty()
    } else if numbers.len() == 1 {
        decimal(numbers[0] as nat)
    } else {
        number_list(numbers.drop_last()) + ", "@ + decimal(numbers.last() as nat)
    }
}

fn append_numbers(out: &mut String, numbers: &Vec<usize>)
    ensures
        final(out)@ == old(out)@ + number_list(numbers@),
{
    let ghost head = out@;
    let mut i: usize = 0;
    assert(out@ =~= head + number_list(numbers@.take(0)));
    while i < numbers.len()
        invariant
            i <= numbers.len(),
            out@ == head + number_list(numbers@.take(i as int)),
        decreases numbers.len() - i,
    {
        let ghost done = numbers@.take(i as int + 1);
        proof {
            assert(done.drop_last() =~= numbers@.take(i as int));
            assert(done.last() == numbers@[i as int]);
        }
        if i > 0 {
            out.append(", ");
        }
        append_decimal(out, numbers[i] as u64);
        assert(out@ =~= head + number_list(done));
        i = i + 1;
    }
    assert(numbers@.take(i as int) =~= numbers@);
}

/// A version of a reading.
pub open spec fn version_words(version: ReadingVersionRef) -> Seq<char> {
    "ReadingVersionRef { reading_id: "@ + reading_id_words(version.reading_id) + ", revision: "@
        + decimal(version.revision as nat) + ", manifest_digest: "@ + digest_words(
        version.manifest_digest,
    ) + " }"@
}

fn append_version(out: &mut String, version: &ReadingVersionRef)
    ensures
        final(out)@ == old(out)@ + version_words(*version),
{
    let ghost before = out@;
    out.append("ReadingVersionRef { reading_id: ");
    append_reading_id(out, &version.reading_id);
    out.append(", revision: ");
    append_decimal(out, version.revision);
    out.append(", manifest_digest: ");
    append_digest(out, &version.manifest_digest);
    out.append(" }");
    assert(out@ =~= before + version_words(*version));
}

/// A reference to an entity.
pub open spec fn reference_words(value: EntityRefKey) -> Seq<char> {
    match value {
        EntityRefKey::Project { kind, local_id } => {
            "Project { kind: "@ + debug_text(kind) + ", local_id: "@ + decimal(local_id as nat)
                + " }"@
        },
        EntityRefKey::Reading(id) => "Reading("@ + entity_text(id) + ")"@,
    }
}

pub(crate) fn append_reference(out: &mut String, value: &EntityRefDto)
    ensures
        final(out)@ == old(out)@ + reference_words(value@),
{
    let ghost before = out@;
    match value {
        EntityRefDto::Project { kind, local_id } => {
            out.append("Project { kind: ");
            out.append(quoted(kind.as_str()).as_str());
            out.append(", local_id: ");
            append_decimal(out, *local_id as u64);
            out.append(" }");
        },
        EntityRefDto::Reading(id) => {
            out.append("Reading(");
            append_entity_text(out, id);
            out.append(")");
        },
    }
    assert(out@ =~= before + reference_words(value@));
}

/// What is wrong with an envelope.
pub open spec fn reading_error_words(value: ReadingError) -> Seq<char> {
    match value {
        ReadingError::InvalidReadingId => "InvalidReadingId"@,
        ReadingError::InvalidQualifiedId(id) => "InvalidQualifiedId("@ + entity_text(id@) + ")"@,
        ReadingError::WrongFormat(format) => "WrongFormat("@ + debug_text(format@) + ")"@,
        ReadingError::UnsupportedVersion(version) => {
            "UnsupportedVersion("@ + decimal(version as nat) + ")"@
        },
        ReadingError::ZeroRevision => "ZeroRevision"@,
        ReadingError::WeakOrMissingSourceFingerprint => "WeakOrMissingSourceFingerprint"@,
        ReadingError::InvalidSourceFormat => "InvalidSourceFormat"@,
        ReadingError::InvalidParent(version) => "InvalidParent("@ + version_words(version) + ")"@,
        ReadingError::DuplicateParent(version) => {
            "DuplicateParent("@ + version_words(version) + ")"@
        },
        ReadingError::InvalidSection(name) => "InvalidSection("@ + debug_text(name@) + ")"@,
        ReadingError::DuplicateSection(name) => "DuplicateSection("@ + debug_text(name@) + ")"@,
        ReadingError::InvalidAttachment(name) => "InvalidAttachment("@ + debug_text(name@) + ")"@,
    }
}

pub(crate) fn append_reading_error(out: &mut String, value: &ReadingError)
    ensures
        final(out)@ == old(out)@ + reading_error_words(*value),
{
    let ghost before = out@;
    match value {
        ReadingError::InvalidReadingId => {
            out.append("InvalidReadingId");
        },
        ReadingError::InvalidQualifiedId(id) => {
            out.append("InvalidQualifiedId(");
            append_entity_text(out, id);
            out.append(")");
        },
        ReadingError::WrongFormat(format) => {
            out.append("WrongFormat(");
            out.append(quoted(format.as_str()).as_str());
            out.append(")");
        },
        ReadingError::UnsupportedVersion(version) => {
            out.append("UnsupportedVersion(");
            append_decimal(out, *version as u64);
            out.append(")");
        },
        ReadingError::ZeroRevision => {
            out.append("ZeroRevision");
        },
        ReadingError::WeakOrMissingSourceFingerprint => {
            out.append("WeakOrMissingSourceFingerprint");
        },
        ReadingError::InvalidSourceFormat => {
            out.append("InvalidSourceFormat");
        },
        ReadingError::InvalidParent(version) => {
            out.append("InvalidParent(");
            append_version(out, version);
            out.append(")");
        },
        ReadingError::DuplicateParent(version) => {
            out.append("DuplicateParent(");
            append_version(out, version);
            out.append(")");
        },
        ReadingError::InvalidSection(name) => {
            out.append("InvalidSection(");
            out.append(quoted(name.as_str()).as_str());
            out.append(")");
        },
        ReadingError::DuplicateSection(name) => {
            out.append("DuplicateSection(");
            out.append(quoted(name.as_str()).as_str());
            out.append(")");
        },
        ReadingError::InvalidAttachment(name) => {
            out.append("InvalidAttachment(");
            out.append(quoted(name.as_str()).as_str());
            out.append(")");
        },
    }
    assert(out@ =~= before + reading_error_words(*value));
}

/// Why a source does not fit.
pub open spec fn verification_words(value: RefusalView) -> Seq<char> {
    match value {
        RefusalView::WeakLocalFingerprint => "WeakLocalFingerprint"@,
        RefusalView::FingerprintMismatch { expected, actual } => {
            "FingerprintMismatch { expected: ["@ + digest_list(expected) + "], actual: "@
                + digest_words(actual) + " }"@
        },
        RefusalView::SampleRate { expected, actual } => {
            "SampleRate { expected: "@ + decimal(expected as nat) + ", actual: "@
                + decimal(actual as nat) + " }"@
        },
        RefusalView::Channels { expected, actual } => {
            "Channels { expected: "@ + decimal(expected as nat) + ", actual: "@
                + decimal(actual as nat) + " }"@
        },
        RefusalView::FrameCount { expected, actual, delta } => {
            "FrameCount { expected: "@ + decimal(expected as nat) + ", actual: "@
                + decimal(actual as nat) + ", delta: "@ + signed_decimal(delta as int) + " }"@
        },
        RefusalView::SourceNotMatched => "SourceNotMatched"@,
        RefusalView::NoReplicationChecks => "NoReplicationChecks"@,
        RefusalView::ReplicationMismatch(id) => "ReplicationMismatch("@ + entity_text(id) + ")"@,
    }
}

pub(crate) fn append_verification(out: &mut String, value: &ReadingVerificationRefusal)
    ensures
        final(out)@ == old(out)@ + verification_words(value@),
{
    let ghost before = out@;
    match value {
        ReadingVerificationRefusal::WeakLocalFingerprint => {
            out.append("WeakLocalFingerprint");
        },
        ReadingVerificationRefusal::FingerprintMismatch { expected, actual } => {
            out.append("FingerprintMismatch { expected: [");
            append_digests(out, expected);
            out.append("], actual: ");
            append_digest(out, actual);
            out.append(" }");
        },
        ReadingVerificationRefusal::SampleRate { expected, actual } => {
            out.append("SampleRate { expected: ");
            append_decimal(out, *expected as u64);
            out.append(", actual: ");
            append_decimal(out, *actual as u64);
            out.append(" }");
        },
        ReadingVerificationRefusal::Channels { expected, actual } => {
            out.append("Channels { expected: ");
            append_decimal(out, *expected as u64);
            out.append(", actual: ");
            append_decimal(out, *actual as u64);
            out.append(" }");
        },
        ReadingVerificationRefusal::FrameCount { expected, actual, delta } => {
            out.append("FrameCount { expected: ");
            append_decimal(out, *expected as u64);
            out.append(", actual: ");
            append_decimal(out, *actual as u64);
            out.append(", delta: ");
            append_signed(out, *delta as i128);
            out.append(" }");
        },
        ReadingVerificationRefusal::SourceNotMatched => {
            out.append("SourceNotMatched");
        },
        ReadingVerificationRefusal::NoReplicationChecks => {
            out.append("NoReplicationChecks");
        },
        ReadingVerificationRefusal::ReplicationMismatch(id) => {
            out.append("ReplicationMismatch(");
            append_entity_text(out, id);
            out.append(")");
        },
    }
    assert(out@ =~= before + verification_words(value@));
}

/// Why a reading was not decoded, encoded or patched.
pub open spec fn codec_words(value: CodecView) -> Seq<char> {
    match value {
        CodecView::Json(text) => "Json("@ + debug_text(text) + ")"@,
        CodecView::Invalid(error) => "Invalid("@ + reading_error_words(error) + ")"@,
        CodecView::MissingSection(text) => "MissingSection("@ + debug_text(text) + ")"@,
        CodecView::UnsupportedSection { name, major } => {
            "UnsupportedSection { name: "@ + debug_text(name) + ", major: "@
                + decimal(major as nat) + " }"@
        },
        CodecView::SectionJson { name, message } => {
            "SectionJson { name: "@ + debug_text(name) + ", message: "@ + debug_text(message)
                + " }"@
        },
        CodecView::OpaquePayloadCannotBePatched(text) => {
            "OpaquePayloadCannotBePatched("@ + debug_text(text) + ")"@
        },
        CodecView::TypedPayloadMustBeObject(text) => {
            "TypedPayloadMustBeObject("@ + debug_text(text) + ")"@
        },
    }
}

pub(crate) fn append_codec(out: &mut String, value: &ReadingCodecError)
    ensures
        final(out)@ == old(out)@ + codec_words(value@),
{
    let ghost before = out@;
    match value {
        ReadingCodecError::Json(text) => {
            out.append("Json(");
            out.append(quoted(text.as_str()).as_str());
            out.append(")");
        },
        ReadingCodecError::Invalid(error) => {
            out.append("Invalid(");
            append_reading_error(out, error);
            out.append(")");
        },
        ReadingCodecError::MissingSection(text) => {
            out.append("MissingSection(");
            out.append(quoted(text.as_str()).as_str());
            out.append(")");
        },
        ReadingCodecError::UnsupportedSection { name, major } => {
            out.append("UnsupportedSection { name: ");
            out.append(quoted(name.as_str()).as_str());
            out.append(", major: ");
            append_decimal(out, *major as u64);
            out.append(" }");
        },
        ReadingCodecError::SectionJson { name, message } => {
            out.append("SectionJson { name: ");
            out.append(quoted(name.as_str()).as_str());
            out.append(", message: ");
            out.append(quoted(message.as_str()).as_str());
            out.append(" }");
        },
        ReadingCodecError::OpaquePayloadCannotBePatched(text) => {
            out.append("OpaquePayloadCannotBePatched(");
            out.append(quoted(text.as_str()).as_str());
            out.append(")");
        },
        ReadingCodecError::TypedPayloadMustBeObject(text) => {
            out.append("TypedPayloadMustBeObject(");
            out.append(quoted(text.as_str()).as_str());
            out.append(")");
        },
    }
    assert(out@ =~= before + codec_words(value@));
}

/// How running a query fails.
pub open spec fn query_error_words(value: QueryError) -> Seq<char> {
    match value {
        QueryError::Cancelled => "Cancelled"@,
        QueryError::UnresolvedAspect => "UnresolvedAspect"@,
    }
}

pub(crate) fn append_query_error(out: &mut String, value: &QueryError)
    ensures
        final(out)@ == old(out)@ + query_error_words(*value),
{
    let ghost before = out@;
    match value {
        QueryError::Cancelled => {
            out.append("Cancelled");
        },
        QueryError::UnresolvedAspect => {
            out.append("UnresolvedAspect");
        },
    }
    assert(out@ =~= before + query_error_words(*value));
}

/// Why the workbench refuses.
pub open spec fn workbench_words(value: WorkbenchFault, host: HostWords) -> Seq<char> {
    match value {
        WorkbenchFault::Json(text) => "Json("@ + debug_text(text) + ")"@,
        WorkbenchFault::WrongDocumentFormat(text) => {
            "WrongDocumentFormat("@ + debug_text(text) + ")"@
        },
        WorkbenchFault::UnsupportedDocumentVersion(version) => {
            "UnsupportedDocumentVersion("@ + decimal(version as nat) + ")"@
        },
        WorkbenchFault::InvalidDocument(text) => "InvalidDocument("@ + debug_text(text) + ")"@,
        WorkbenchFault::InvalidQuery(text) => "InvalidQuery("@ + debug_text(text) + ")"@,
        WorkbenchFault::InvalidResult(text) => "InvalidResult("@ + debug_text(text) + ")"@,
        WorkbenchFault::InvalidExecution(text) => "InvalidExecution("@ + debug_text(text) + ")"@,
        WorkbenchFault::InvalidPage(text) => "InvalidPage("@ + debug_text(text) + ")"@,
        WorkbenchFault::StaleCursor => "StaleCursor"@,
        WorkbenchFault::DuplicatePage { address, start } => {
            "DuplicatePage { address: "@ + digest_words(address) + ", start: "@
                + decimal(start as nat) + " }"@
        },
        WorkbenchFault::InvalidEntity(entity) => "InvalidEntity("@ + reference_words(entity) + ")"@,
        WorkbenchFault::InvalidRegion(_) => "InvalidRegion("@ + host.region@ + ")"@,
        WorkbenchFault::QualifiedReferenceInProjectQuery(entity) => {
            "QualifiedReferenceInProjectQuery("@ + reference_words(entity) + ")"@
        },
        WorkbenchFault::Query(error) => "Query("@ + query_error_words(error) + ")"@,
    }
}

pub(crate) fn append_workbench(out: &mut String, value: &WorkbenchError, host: &HostWords)
    ensures
        final(out)@ == old(out)@ + workbench_words(value@, *host),
{
    let ghost before = out@;
    match value {
        WorkbenchError::Json(text) => {
            out.append("Json(");
            out.append(quoted(text.as_str()).as_str());
            out.append(")");
        },
        WorkbenchError::WrongDocumentFormat(text) => {
            out.append("WrongDocumentFormat(");
            out.append(quoted(text.as_str()).as_str());
            out.append(")");
        },
        WorkbenchError::UnsupportedDocumentVersion(version) => {
            out.append("UnsupportedDocumentVersion(");
            append_decimal(out, *version as u64);
            out.append(")");
        },
        WorkbenchError::InvalidDocument(text) => {
            out.append("InvalidDocument(");
            out.append(quoted(text.as_str()).as_str());
            out.append(")");
        },
        WorkbenchError::InvalidQuery(text) => {
            out.append("InvalidQuery(");
            out.append(quoted(text.as_str()).as_str());
            out.append(")");
        },
        WorkbenchError::InvalidResult(text) => {
            out.append("InvalidResult(");
            out.append(quoted(text.as_str()).as_str());
            out.append(")");
        },
        WorkbenchError::InvalidExecution(text) => {
            out.append("InvalidExecution(");
            out.append(quoted(text.as_str()).as_str());
            out.append(")");
        },
        WorkbenchError::InvalidPage(text) => {
            out.append("InvalidPage(");
            out.append(quoted(text.as_str()).as_str());
            out.append(")");
        },
        WorkbenchError::StaleCursor => {
            out.append("StaleCursor");
        },
        WorkbenchError::DuplicatePage { address, start } => {
            out.append("DuplicatePage { address: ");
            append_digest(out, address);
            out.append(", start: ");
            append_decimal(out, *start as u64);
            out.append(" }");
        },
        WorkbenchError::InvalidEntity(entity) => {
            out.append("InvalidEntity(");
            append_reference(out, entity);
            out.append(")");
        },
        WorkbenchError::InvalidRegion(_) => {
            out.append("InvalidRegion(");
            out.append(host.region.as_str());
            out.append(")");
        },
        WorkbenchError::QualifiedReferenceInProjectQuery(entity) => {
            out.append("QualifiedReferenceInProjectQuery(");
            append_reference(out, entity);
            out.append(")");
        },
        WorkbenchError::Query(error) => {
            out.append("Query(");
            append_query_error(out, error);
            out.append(")");
        },
    }
    assert(out@ =~= before + workbench_words(value@, *host));
}

/// Why a reading is not imported.
pub open spec fn import_words(value: ImportFault, host: HostWords) -> Seq<char> {
    match value {
        ImportFault::InvalidReading(error) => {
            "InvalidReading("@ + reading_error_words(error) + ")"@
        },
        ImportFault::SourceVerification(refusal) => {
            "SourceVerification("@ + verification_words(refusal) + ")"@
        },
        ImportFault::MissingSection(text) => "MissingSection("@ + debug_text(text) + ")"@,
        ImportFault::UnknownSection(text) => "UnknownSection("@ + debug_text(text) + ")"@,
        ImportFault::Codec(error) => "Codec("@ + codec_words(error) + ")"@,
        ImportFault::DuplicateEntity(id) => "DuplicateEntity("@ + entity_text(id) + ")"@,
        ImportFault::BlankEntityLabel(id) => "BlankEntityLabel("@ + entity_text(id) + ")"@,
        ImportFault::InvalidHypothesis(id) => "InvalidHypothesis("@ + entity_text(id) + ")"@,
        ImportFault::ForeignReadingIdentity(id) => {
            "ForeignReadingIdentity("@ + entity_text(id) + ")"@
        },
        ImportFault::InvalidGeometry(error) => {
            "InvalidGeometry("@ + quoted_reading_error(error) + ")"@
        },
        ImportFault::Workbench(error) => "Workbench("@ + workbench_words(error, host) + ")"@,
    }
}

pub(crate) fn append_import(out: &mut String, value: &ReadingImportRefusal, host: &HostWords)
    ensures
        final(out)@ == old(out)@ + import_words(value@, *host),
{
    let ghost before = out@;
    match value {
        ReadingImportRefusal::InvalidReading(error) => {
            out.append("InvalidReading(");
            append_reading_error(out, error);
            out.append(")");
        },
        ReadingImportRefusal::SourceVerification(refusal) => {
            out.append("SourceVerification(");
            append_verification(out, refusal);
            out.append(")");
        },
        ReadingImportRefusal::MissingSection(text) => {
            out.append("MissingSection(");
            out.append(quoted(text.as_str()).as_str());
            out.append(")");
        },
        ReadingImportRefusal::UnknownSection(text) => {
            out.append("UnknownSection(");
            out.append(quoted(text.as_str()).as_str());
            out.append(")");
        },
        ReadingImportRefusal::Codec(error) => {
            out.append("Codec(");
            append_codec(out, error);
            out.append(")");
        },
        ReadingImportRefusal::DuplicateEntity(id) => {
            out.append("DuplicateEntity(");
            append_entity_text(out, id);
            out.append(")");
        },
        ReadingImportRefusal::BlankEntityLabel(id) => {
            out.append("BlankEntityLabel(");
            append_entity_text(out, id);
            out.append(")");
        },
        ReadingImportRefusal::InvalidHypothesis(id) => {
            out.append("InvalidHypothesis(");
            append_entity_text(out, id);
            out.append(")");
        },
        ReadingImportRefusal::ForeignReadingIdentity(id) => {
            out.append("ForeignReadingIdentity(");
            append_entity_text(out, id);
            out.append(")");
        },
        ReadingImportRefusal::InvalidGeometry(error) => {
            out.append("InvalidGeometry(");
            append_quoted_reading_error(out, error);
            out.append(")");
        },
        ReadingImportRefusal::Workbench(error) => {
            out.append("Workbench(");
            append_workbench(out, error, host);
            out.append(")");
        },
    }
    assert(out@ =~= before + import_words(value@, *host));
}

/// Why readings are not merged.
pub open spec fn merge_words(value: MergeFault) -> Seq<char> {
    match value {
        MergeFault::DuplicateReadingVersion { reading, revision } => {
            "DuplicateReadingVersion { reading: "@ + reading_id_words(reading) + ", revision: "@
                + decimal(revision as nat) + " }"@
        },
        MergeFault::ConflictingQualifiedEntity(id) => {
            "ConflictingQualifiedEntity("@ + entity_text(id) + ")"@
        },
    }
}

pub(crate) fn append_merge(out: &mut String, value: &ReadingMergeRefusal)
    ensures
        final(out)@ == old(out)@ + merge_words(value@),
{
    let ghost before = out@;
    match value {
        ReadingMergeRefusal::DuplicateReadingVersion { reading, revision } => {
            out.append("DuplicateReadingVersion { reading: ");
            append_reading_id(out, reading);
            out.append(", revision: ");
            append_decimal(out, *revision as u64);
            out.append(" }");
        },
        ReadingMergeRefusal::ConflictingQualifiedEntity(id) => {
            out.append("ConflictingQualifiedEntity(");
            append_entity_text(out, id);
            out.append(")");
        },
    }
    assert(out@ =~= before + merge_words(value@));
}

/// Why a merge is no edit.
pub open spec fn lowering_words(value: LoweringFault) -> Seq<char> {
    match value {
        LoweringFault::UnsupportedEntity(id) => "UnsupportedEntity("@ + entity_text(id) + ")"@,
        LoweringFault::AllocationSetMismatch => "AllocationSetMismatch"@,
        LoweringFault::DuplicateOrZeroAllocation => "DuplicateOrZeroAllocation"@,
        LoweringFault::MissingSetAllocation(text) => {
            "MissingSetAllocation("@ + debug_text(text) + ")"@
        },
        LoweringFault::MissingReadingVersion(reading) => {
            "MissingReadingVersion("@ + reading_id_words(reading) + ")"@
        },
        LoweringFault::NothingToImport => "NothingToImport"@,
    }
}

pub(crate) fn append_lowering(out: &mut String, value: &ForeignImportRefusal)
    ensures
        final(out)@ == old(out)@ + lowering_words(value@),
{
    let ghost before = out@;
    match value {
        ForeignImportRefusal::UnsupportedEntity(id) => {
            out.append("UnsupportedEntity(");
            append_entity_text(out, id);
            out.append(")");
        },
        ForeignImportRefusal::AllocationSetMismatch => {
            out.append("AllocationSetMismatch");
        },
        ForeignImportRefusal::DuplicateOrZeroAllocation => {
            out.append("DuplicateOrZeroAllocation");
        },
        ForeignImportRefusal::MissingSetAllocation(text) => {
            out.append("MissingSetAllocation(");
            out.append(quoted(text.as_str()).as_str());
            out.append(")");
        },
        ForeignImportRefusal::MissingReadingVersion(reading) => {
            out.append("MissingReadingVersion(");
            append_reading_id(out, reading);
            out.append(")");
        },
        ForeignImportRefusal::NothingToImport => {
            out.append("NothingToImport");
        },
    }
    assert(out@ =~= before + lowering_words(value@));
}

/// Why a query is not edited.
pub open spec fn builder_words(value: BuilderFault) -> Seq<char> {
    match value {
        BuilderFault::UnknownPath(path) => "UnknownPath(["@ + number_list(path) + "])"@,
        BuilderFault::ExpectedKind(path) => "ExpectedKind(["@ + number_list(path) + "])"@,
        BuilderFault::ExpectedList(path) => "ExpectedList(["@ + number_list(path) + "])"@,
        BuilderFault::ExpectedProposal(path) => "ExpectedProposal(["@ + number_list(path) + "])"@,
        BuilderFault::CannotRemoveRoot => "CannotRemoveRoot"@,
        BuilderFault::InvalidProposalId => "InvalidProposalId"@,
    }
}

pub(crate) fn append_builder(out: &mut String, value: &QueryBuilderRefusal)
    ensures
        final(out)@ == old(out)@ + builder_words(value@),
{
    let ghost before = out@;
    match value {
        QueryBuilderRefusal::UnknownPath(path) => {
            out.append("UnknownPath([");
            append_numbers(out, path);
            out.append("])");
        },
        QueryBuilderRefusal::ExpectedKind(path) => {
            out.append("ExpectedKind([");
            append_numbers(out, path);
            out.append("])");
        },
        QueryBuilderRefusal::ExpectedList(path) => {
            out.append("ExpectedList([");
            append_numbers(out, path);
            out.append("])");
        },
        QueryBuilderRefusal::ExpectedProposal(path) => {
            out.append("ExpectedProposal([");
            append_numbers(out, path);
            out.append("])");
        },
        QueryBuilderRefusal::CannotRemoveRoot => {
            out.append("CannotRemoveRoot");
        },
        QueryBuilderRefusal::InvalidProposalId => {
            out.append("InvalidProposalId");
        },
    }
    assert(out@ =~= before + builder_words(value@));
}

/// Why nothing is done with a row.
pub open spec fn row_words(value: WorkbenchActionRefusal) -> Seq<char> {
    match value {
        WorkbenchActionRefusal::NoSelection => "NoSelection"@,
        WorkbenchActionRefusal::UnknownRow(row) => "UnknownRow("@ + decimal(row as nat) + ")"@,
        WorkbenchActionRefusal::MissingExtent(entity) => {
            "MissingExtent("@ + reference_words(entity@) + ")"@
        },
    }
}

pub(crate) fn append_row(out: &mut String, value: &WorkbenchActionRefusal)
    ensures
        final(out)@ == old(out)@ + row_words(*value),
{
    let ghost before = out@;
    match value {
        WorkbenchActionRefusal::NoSelection => {
            out.append("NoSelection");
        },
        WorkbenchActionRefusal::UnknownRow(row) => {
            out.append("UnknownRow(");
            append_decimal(out, *row as u64);
            out.append(")");
        },
        WorkbenchActionRefusal::MissingExtent(entity) => {
            out.append("MissingExtent(");
            append_reference(out, entity);
            out.append(")");
        },
    }
    assert(out@ =~= before + row_words(*value));
}

/// Why nothing is done with an entity of a plan.
pub open spec fn action_words(value: ReadingActionRefusal) -> Seq<char> {
    match value {
        ReadingActionRefusal::SourceUnavailable => "SourceUnavailable"@,
        ReadingActionRefusal::UnknownEntity(id) => "UnknownEntity("@ + entity_text(id@) + ")"@,
        ReadingActionRefusal::MissingExtent(id) => "MissingExtent("@ + entity_text(id@) + ")"@,
    }
}

pub(crate) fn append_action(out: &mut String, value: &ReadingActionRefusal)
    ensures
        final(out)@ == old(out)@ + action_words(*value),
{
    let ghost before = out@;
    match value {
        ReadingActionRefusal::SourceUnavailable => {
            out.append("SourceUnavailable");
        },
        ReadingActionRefusal::UnknownEntity(id) => {
            out.append("UnknownEntity(");
            append_entity_text(out, id);
            out.append(")");
        },
        ReadingActionRefusal::MissingExtent(id) => {
            out.append("MissingExtent(");
            append_entity_text(out, id);
            out.append(")");
        },
    }
    assert(out@ =~= before + action_words(*value));
}

/// What is wrong with an envelope, as a text in quotes.
pub open spec fn quoted_reading_error(value: ReadingError) -> Seq<char> {
    debug_text(reading_error_words(value))
}

fn append_quoted_reading_error(out: &mut String, value: &ReadingError)
    ensures
        final(out)@ == old(out)@ + quoted_reading_error(*value),
{
    let mut inner = String::new();
    append_reading_error(&mut inner, value);
    assert(inner@ =~= reading_error_words(*value));
    out.append(quoted(inner.as_str()).as_str());
}

/// The message on an envelope, as a text in quotes.
pub open spec fn quoted_message(value: ReadingError) -> Seq<char> {
    debug_text(reading_error_message(value))
}

fn append_quoted_message(out: &mut String, value: &ReadingError)
    ensures
        final(out)@ == old(out)@ + quoted_message(*value),
{
    let mut inner = String::new();
    append_reading_message(&mut inner, value);
    assert(inner@ =~= reading_error_message(*value));
    out.append(quoted(inner.as_str()).as_str());
}

/// Why a source does not fit, as a text in quotes.
pub open spec fn quoted_verification(value: RefusalView) -> Seq<char> {
    debug_text(verification_words(value))
}

fn append_quoted_verification(out: &mut String, value: &ReadingVerificationRefusal)
    ensures
        final(out)@ == old(out)@ + quoted_verification(value@),
{
    let mut inner = String::new();
    append_verification(&mut inner, value);
    assert(inner@ =~= verification_words(value@));
    out.append(quoted(inner.as_str()).as_str());
}

/// Why a reading is not imported, as a text in quotes.
pub open spec fn quoted_import(value: ImportFault, host: HostWords) -> Seq<char> {
    debug_text(import_words(value, host))
}

fn append_quoted_import(out: &mut String, value: &ReadingImportRefusal, host: &HostWords)
    ensures
        final(out)@ == old(out)@ + quoted_import(value@, *host),
{
    let mut inner = String::new();
    append_import(&mut inner, value, host);
    assert(inner@ =~= import_words(value@, *host));
    out.append(quoted(inner.as_str()).as_str());
}

/// Why readings are not merged, as a text in quotes.
pub open spec fn quoted_merge(value: MergeFault) -> Seq<char> {
    debug_text(merge_words(value))
}

fn append_quoted_merge(out: &mut String, value: &ReadingMergeRefusal)
    ensures
        final(out)@ == old(out)@ + quoted_merge(value@),
{
    let mut inner = String::new();
    append_merge(&mut inner, value);
    assert(inner@ =~= merge_words(value@));
    out.append(quoted(inner.as_str()).as_str());
}

/// Why a merge is no edit, as a text in quotes.
pub open spec fn quoted_lowering(value: LoweringFault) -> Seq<char> {
    debug_text(lowering_words(value))
}

fn append_quoted_lowering(out: &mut String, value: &ForeignImportRefusal)
    ensures
        final(out)@ == old(out)@ + quoted_lowering(value@),
{
    let mut inner = String::new();
    append_lowering(&mut inner, value);
    assert(inner@ =~= lowering_words(value@));
    out.append(quoted(inner.as_str()).as_str());
}

/// A reference to an entity, as a text in quotes.
pub open spec fn quoted_reference(value: EntityRefKey) -> Seq<char> {
    debug_text(reference_words(value))
}

fn append_quoted_reference(out: &mut String, value: &EntityRefDto)
    ensures
        final(out)@ == old(out)@ + quoted_reference(value@),
{
    let mut inner = String::new();
    append_reference(&mut inner, value);
    assert(inner@ =~= reference_words(value@));
    out.append(quoted(inner.as_str()).as_str());
}

/// A text and then another one, as one text in quotes.
pub open spec fn quoted_with(head: Seq<char>, tail: Seq<char>) -> Seq<char> {
    debug_text(head + tail)
}

fn append_quoted_with(out: &mut String, head: &str, tail: &str)
    ensures
        final(out)@ == old(out)@ + quoted_with(head@, tail@),
{
    let mut inner = String::new();
    inner.append(head);
    inner.append(tail);
    assert(inner@ =~= head@ + tail@);
    out.append(quoted(inner.as_str()).as_str());
}

fn entity_in_words(id: &QualifiedEntityId) -> (r: String)
    ensures
        r@ == entity_text(id@),
{
    let mut out = String::new();
    append_entity_text(&mut out, id);
    assert(out@ =~= entity_text(id@));
    out
}

/// Why a request is refused.
pub open spec fn protocol_words(value: ProtocolFault, host: HostWords) -> Seq<char> {
    match value {
        ProtocolFault::Framing(text) => "Framing("@ + debug_text(text) + ")"@,
        ProtocolFault::Json(text) => "Json("@ + debug_text(text) + ")"@,
        ProtocolFault::UnsupportedProtocol(text) => {
            "UnsupportedProtocol("@ + debug_text(text) + ")"@
        },
        ProtocolFault::BlankRequestId => "InvalidRequest(\"request_id cannot be blank\")"@,
        ProtocolFault::NoReadings => "InvalidRequest(\"an import requires at least one reading\")"@,
        ProtocolFault::DuplicateAllocation(id) => {
            "InvalidRequest("@ + quoted_with("duplicate allocation for "@, entity_text(id))
                + ")"@
        },
        ProtocolFault::HypothesisGroup(group) => {
            "InvalidRequest("@
                + quoted_with("invalid or duplicate hypothesis group "@, debug_text(group)) + ")"@
        },
        ProtocolFault::InvalidReading(error) => "Reading("@ + quoted_message(error) + ")"@,
        ProtocolFault::Source(refusal) => "Reading("@ + quoted_verification(refusal) + ")"@,
        ProtocolFault::Import(refusal) => "Reading("@ + quoted_import(refusal, host) + ")"@,
        ProtocolFault::Merge(refusal) => "Reading("@ + quoted_merge(refusal) + ")"@,
        ProtocolFault::Lowering(refusal) => "Command("@ + quoted_lowering(refusal) + ")"@,
        ProtocolFault::EmptyBatch => {
            "Command(\"command batch needs a label and at least one command\")"@
        },
        ProtocolFault::Render(entity) => "Render("@ + quoted_reference(entity) + ")"@,
        ProtocolFault::Workbench(error) => "Workbench("@ + workbench_words(error, host) + ")"@,
        ProtocolFault::Codec(text) => "Codec("@ + text + ")"@,
    }
}

pub(crate) fn append_protocol(out: &mut String, value: &HeadlessProtocolError, host: &HostWords)
    ensures
        final(out)@ == old(out)@ + protocol_words(value@, *host),
{
    let ghost before = out@;
    match value {
        HeadlessProtocolError::Framing(text) => {
            out.append("Framing(");
            out.append(quoted(text.as_str()).as_str());
            out.append(")");
        },
        HeadlessProtocolError::Json(text) => {
            out.append("Json(");
            out.append(quoted(text.as_str()).as_str());
            out.append(")");
        },
        HeadlessProtocolError::UnsupportedProtocol(text) => {
            out.append("UnsupportedProtocol(");
            out.append(quoted(text.as_str()).as_str());
            out.append(")");
        },
        HeadlessProtocolError::InvalidRequest(RequestRefusal::BlankRequestId) => {
            out.append("InvalidRequest(\"request_id cannot be blank\")");
        },
        HeadlessProtocolError::InvalidRequest(RequestRefusal::NoReadings) => {
            out.append("InvalidRequest(\"an import requires at least one reading\")");
        },
        HeadlessProtocolError::InvalidRequest(RequestRefusal::DuplicateAllocation(id)) => {
            out.append("InvalidRequest(");
            append_quoted_with(out, "duplicate allocation for ", entity_in_words(id).as_str());
            out.append(")");
        },
        HeadlessProtocolError::InvalidRequest(RequestRefusal::HypothesisGroup(group)) => {
            out.append("InvalidRequest(");
            append_quoted_with(
                out,
                "invalid or duplicate hypothesis group ",
                quoted(group.as_str()).as_str(),
            );
            out.append(")");
        },
        HeadlessProtocolError::Reading(ReadingRefusal::Invalid(error)) => {
            out.append("Reading(");
            append_quoted_message(out, error);
            out.append(")");
        },
        HeadlessProtocolError::Reading(ReadingRefusal::Source(refusal)) => {
            out.append("Reading(");
            append_quoted_verification(out, refusal);
            out.append(")");
        },
        HeadlessProtocolError::Reading(ReadingRefusal::Import(refusal)) => {
            out.append("Reading(");
            append_quoted_import(out, refusal, host);
            out.append(")");
        },
        HeadlessProtocolError::Reading(ReadingRefusal::Merge(refusal)) => {
            out.append("Reading(");
            append_quoted_merge(out, refusal);
            out.append(")");
        },
        HeadlessProtocolError::Command(CommandRefusal::Lowering(refusal)) => {
            out.append("Command(");
            append_quoted_lowering(out, refusal);
            out.append(")");
        },
        HeadlessProtocolError::Command(CommandRefusal::EmptyBatch) => {
            out.append("Command(\"command batch needs a label and at least one command\")");
        },
        HeadlessProtocolError::Render(entity) => {
            out.append("Render(");
            append_quoted_reference(out, entity);
            out.append(")");
        },
        HeadlessProtocolError::Workbench(error) => {
            out.append("Workbench(");
            append_workbench(out, error, host);
            out.append(")");
        },
        HeadlessProtocolError::Codec(text) => {
            out.append("Codec(");
            out.append(text.as_str());
            out.append(")");
        },
    }
    assert(out@ =~= before + protocol_words(value@, *host));
}

// ----- as people read them ------------------------------------------------

/// The message on an envelope.
pub open spec fn reading_error_message(value: ReadingError) -> Seq<char> {
    "invalid reading: "@ + reading_error_words(value)
}

pub(crate) fn append_reading_message(out: &mut String, value: &ReadingError)
    ensures
        final(out)@ == old(out)@ + reading_error_message(*value),
{
    let ghost before = out@;
    out.append("invalid reading: ");
    append_reading_error(out, value);
    assert(out@ =~= before + reading_error_message(*value));
}

impl ReadingError {
    /// The error in words.
    pub fn message(&self) -> (r: String)
        ensures
            r@ == reading_error_message(*self),
    {
        let mut out = String::new();
        append_reading_message(&mut out, self);
        assert(out@ =~= reading_error_message(*self));
        out
    }
}

/// The message on a reading that was not decoded, encoded or patched.
pub open spec fn codec_message(value: CodecView) -> Seq<char> {
    "reading codec error: "@ + codec_words(value)
}

pub(crate) fn append_codec_message(out: &mut String, value: &ReadingCodecError)
    ensures
        final(out)@ == old(out)@ + codec_message(value@),
{
    let ghost before = out@;
    out.append("reading codec error: ");
    append_codec(out, value);
    assert(out@ =~= before + codec_message(value@));
}

impl ReadingCodecError {
    /// The error in words.
    pub fn message(&self) -> (r: String)
        ensures
            r@ == codec_message(self@),
    {
        let mut out = String::new();
        append_codec_message(&mut out, self);
        assert(out@ =~= codec_message(self@));
        out
    }
}

/// The message of the workbench.
pub open spec fn workbench_message(value: WorkbenchFault, host: HostWords) -> Seq<char> {
    "reading/query workbench error: "@ + workbench_words(value, host)
}

pub(crate) fn append_workbench_message(out: &mut String, value: &WorkbenchError, host: &HostWords)
    ensures
        final(out)@ == old(out)@ + workbench_message(value@, *host),
{
    let ghost before = out@;
    out.append("reading/query workbench error: ");
    append_workbench(out, value, host);
    assert(out@ =~= before + workbench_message(value@, *host));
}

impl WorkbenchError {
    /// The error in words.
    pub fn message(&self, host: &HostWords) -> (r: String)
        ensures
            r@ == workbench_message(self@, *host),
    {
        let mut out = String::new();
        append_workbench_message(&mut out, self, host);
        assert(out@ =~= workbench_message(self@, *host));
        out
    }
}

/// The message on a request.
pub open spec fn protocol_message(value: ProtocolFault, host: HostWords) -> Seq<char> {
    "headless reading/query protocol error: "@ + protocol_words(value, host)
}

pub(crate) fn append_protocol_message(
    out: &mut String,
    value: &HeadlessProtocolError,
    host: &HostWords,
)
    ensures
        final(out)@ == old(out)@ + protocol_message(value@, *host),
{
    let ghost before = out@;
    out.append("headless reading/query protocol error: ");
    append_protocol(out, value, host);
    assert(out@ =~= before + protocol_message(value@, *host));
}

impl HeadlessProtocolError {
    /// The error in words.
    pub fn message(&self, host: &HostWords) -> (r: String)
        ensures
            r@ == protocol_message(self@, *host),
    {
        let mut out = String::new();
        append_protocol_message(&mut out, self, host);
        assert(out@ =~= protocol_message(self@, *host));
        out
    }
}

/// The message of a session.
pub open spec fn session_message(value: ProjectSessionError, host: HostWords) -> Seq<char> {
    match value {
        ProjectSessionError::ZeroId => "project session ID zero is reserved"@,
        ProjectSessionError::NoProject => "the project session has no live project"@,
        ProjectSessionError::Project(message) => "project session: "@ + message@,
        ProjectSessionError::Controller(message) => "project controller: "@ + message@,
        ProjectSessionError::Action(message) => "project action: "@ + message@,
        ProjectSessionError::RevisionConflict { expected, actual } => {
            "project action revision conflict: expected "@ + decimal(expected as nat)
                + ", actual "@ + decimal(actual as nat)
        },
        ProjectSessionError::Selection(_) => host.inner@,
        ProjectSessionError::Links(_) => host.inner@,
    }
}

pub(crate) fn append_session_message(
    out: &mut String,
    value: &ProjectSessionError,
    host: &HostWords,
)
    ensures
        final(out)@ == old(out)@ + session_message(*value, *host),
{
    let ghost before = out@;
    match value {
        ProjectSessionError::ZeroId => {
            out.append("project session ID zero is reserved");
        },
        ProjectSessionError::NoProject => {
            out.append("the project session has no live project");
        },
        ProjectSessionError::Project(message) => {
            out.append("project session: ");
            out.append(message.as_str());
        },
        ProjectSessionError::Controller(message) => {
            out.append("project controller: ");
            out.append(message.as_str());
        },
        ProjectSessionError::Action(message) => {
            out.append("project action: ");
            out.append(message.as_str());
        },
        ProjectSessionError::RevisionConflict { expected, actual } => {
            out.append("project action revision conflict: expected ");
            append_decimal(out, *expected as u64);
            out.append(", actual ");
            append_decimal(out, *actual as u64);
        },
        ProjectSessionError::Selection(_) => {
            out.append(host.inner.as_str());
        },
        ProjectSessionError::Links(_) => {
            out.append(host.inner.as_str());
        },
    }
    assert(out@ =~= before + session_message(*value, *host));
}

impl ProjectSessionError {
    /// The error in words.
    pub fn message(&self, host: &HostWords) -> (r: String)
        ensures
            r@ == session_message(*self, *host),
    {
        let mut out = String::new();
        append_session_message(&mut out, self, host);
        assert(out@ =~= session_message(*self, *host));
        out
    }
}

/// The message on the lifecycle of a document.
pub open spec fn lifecycle_message(value: ProjectLifecycleError, host: HostWords) -> Seq<char> {
    match value {
        ProjectLifecycleError::Session(error) => session_message(error, host),
        ProjectLifecycleError::Repository(message) => message@,
        ProjectLifecycleError::Export(message) => message@,
        ProjectLifecycleError::LiveProject(message) => message@,
        ProjectLifecycleError::NoRepository => "the document has no opened repository"@,
        ProjectLifecycleError::StaleOpenCompletion => {
            "an older open completed after another open began"@
        },
        ProjectLifecycleError::SupersededSaveCompletion => {
            "an older save completed after another save began"@
        },
        ProjectLifecycleError::DocumentChangedDuringOperation => {
            "a file operation completed for a replaced document"@
        },
        ProjectLifecycleError::UnsavedChanges => {
            "the current project has unsaved changes; resolve Save, Discard, or Cancel before replacing it"@
        },
        ProjectLifecycleError::ExportRevisionConflict { project_revision, audible_revision } => {
            "export audio revision "@ + decimal(audible_revision as nat)
                + " does not match project revision "@ + decimal(project_revision as nat)
        },
    }
}

pub(crate) fn append_lifecycle_message(
    out: &mut String,
    value: &ProjectLifecycleError,
    host: &HostWords,
)
    ensures
        final(out)@ == old(out)@ + lifecycle_message(*value, *host),
{
    let ghost before = out@;
    match value {
        ProjectLifecycleError::Session(error) => {
            append_session_message(out, error, host);
        },
        ProjectLifecycleError::Repository(message) => {
            out.append(message.as_str());
        },
        ProjectLifecycleError::Export(message) => {
            out.append(message.as_str());
        },
        ProjectLifecycleError::LiveProject(message) => {
            out.append(message.as_str());
        },
        ProjectLifecycleError::NoRepository => {
            out.append("the document has no opened repository");
        },
        ProjectLifecycleError::StaleOpenCompletion => {
            out.append("an older open completed after another open began");
        },
        ProjectLifecycleError::SupersededSaveCompletion => {
            out.append("an older save completed after another save began");
        },
        ProjectLifecycleError::DocumentChangedDuringOperation => {
            out.append("a file operation completed for a replaced document");
        },
        ProjectLifecycleError::UnsavedChanges => {
            out.append("the current project has unsaved changes; resolve Save, Discard, or Cancel before replacing it");
        },
        ProjectLifecycleError::ExportRevisionConflict { project_revision, audible_revision } => {
            out.append("export audio revision ");
            append_decimal(out, *audible_revision as u64);
            out.append(" does not match project revision ");
            append_decimal(out, *project_revision as u64);
        },
    }
    assert(out@ =~= before + lifecycle_message(*value, *host));
}

impl ProjectLifecycleError {
    /// The error in words.
    pub fn message(&self, host: &HostWords) -> (r: String)
        ensures
            r@ == lifecycle_message(*self, *host),
    {
        let mut out = String::new();
        append_lifecycle_message(&mut out, self, host);
        assert(out@ =~= lifecycle_message(*self, *host));
        out
    }
}

/// The message on a streamed waveform.
pub open spec fn stream_message(value: StreamingWaveformError, host: HostWords) -> Seq<char> {
    match value {
        StreamingWaveformError::SourceMismatch => "waveform side product addresses different PCM"@,
        StreamingWaveformError::ProjectedPcmRequired => {
            "this channel projection requires projection-specific streamed PCM"@
        },
        StreamingWaveformError::InvalidSideProduct => {
            "waveform side product is incomplete or invalid"@
        },
        StreamingWaveformError::RangeOutsideSource => "waveform query lies outside streamed PCM"@,
        StreamingWaveformError::ZeroTargetBins => "waveform query has zero target bins"@,
        StreamingWaveformError::PcmSampleCount { expected, actual } => {
            "streamed waveform edge returned "@ + decimal(actual as nat)
                + " samples; expected "@ + decimal(expected as nat)
        },
        StreamingWaveformError::NonFinitePcm { sample_index } => {
            "streamed waveform edge contains non-finite sample "@ + decimal(sample_index as nat)
        },
        StreamingWaveformError::Streaming(_) => "streaming media error: "@ + host.inner@,
        StreamingWaveformError::ArithmeticOverflow => "streamed waveform range overflowed"@,
    }
}

pub(crate) fn append_stream_message(
    out: &mut String,
    value: &StreamingWaveformError,
    host: &HostWords,
)
    ensures
        final(out)@ == old(out)@ + stream_message(*value, *host),
{
    let ghost before = out@;
    match value {
        StreamingWaveformError::SourceMismatch => {
            out.append("waveform side product addresses different PCM");
        },
        StreamingWaveformError::ProjectedPcmRequired => {
            out.append("this channel projection requires projection-specific streamed PCM");
        },
        StreamingWaveformError::InvalidSideProduct => {
            out.append("waveform side product is incomplete or invalid");
        },
        StreamingWaveformError::RangeOutsideSource => {
            out.append("waveform query lies outside streamed PCM");
        },
        StreamingWaveformError::ZeroTargetBins => {
            out.append("waveform query has zero target bins");
        },
        StreamingWaveformError::PcmSampleCount { expected, actual } => {
            out.append("streamed waveform edge returned ");
            append_decimal(out, *actual as u64);
            out.append(" samples; expected ");
            append_decimal(out, *expected as u64);
        },
        StreamingWaveformError::NonFinitePcm { sample_index } => {
            out.append("streamed waveform edge contains non-finite sample ");
            append_decimal(out, *sample_index as u64);
        },
        StreamingWaveformError::Streaming(_) => {
            out.append("streaming media error: ");
            out.append(host.inner.as_str());
        },
        StreamingWaveformError::ArithmeticOverflow => {
            out.append("streamed waveform range overflowed");
        },
    }
    assert(out@ =~= before + stream_message(*value, *host));
}

impl StreamingWaveformError {
    /// The error in words.
    pub fn message(&self, host: &HostWords) -> (r: String)
        ensures
            r@ == stream_message(*self, *host),
    {
        let mut out = String::new();
        append_stream_message(&mut out, self, host);
        assert(out@ =~= stream_message(*self, *host));
        out
    }
}

/// The message on a pattern action.
pub open spec fn pattern_message(value: PatternRevealExecutionError, host: HostWords) -> Seq<char> {
    match value {
        PatternRevealExecutionError::Lowering(message) => "pattern command refused: "@ + message@,
        PatternRevealExecutionError::Session(error) => {
            "pattern publication failed: "@ + session_message(error, host)
        },
    }
}

pub(crate) fn append_pattern_message(
    out: &mut String,
    value: &PatternRevealExecutionError,
    host: &HostWords,
)
    ensures
        final(out)@ == old(out)@ + pattern_message(*value, *host),
{
    let ghost before = out@;
    match value {
        PatternRevealExecutionError::Lowering(message) => {
            out.append("pattern command refused: ");
            out.append(message.as_str());
        },
        PatternRevealExecutionError::Session(error) => {
            out.append("pattern publication failed: ");
            append_session_message(out, error, host);
        },
    }
    assert(out@ =~= before + pattern_message(*value, *host));
}

impl PatternRevealExecutionError {
    /// The error in words.
    pub fn message(&self, host: &HostWords) -> (r: String)
        ensures
            r@ == pattern_message(*self, *host),
    {
        let mut out = String::new();
        append_pattern_message(&mut out, self, host);
        assert(out@ =~= pattern_message(*self, *host));
        out
    }
}

/// The message on an effect.
pub open spec fn effect_message(value: EffectFault, host: HostWords) -> Seq<char> {
    match value {
        EffectFault::Session(error) => session_message(error, host),
        EffectFault::ZeroGeneration => "reading audition generation is zero"@,
        EffectFault::InvalidEntity(entity) => "invalid reading entity "@ + reference_words(entity),
        EffectFault::InvalidRegion(_) => "invalid audition region "@ + host.region@,
        EffectFault::Aspect(error) => {
            "invalid reading geometry: "@ + workbench_message(error, host)
        },
        EffectFault::Selection(text) => "invalid reading geometry: "@ + text,
        EffectFault::NonContiguousGeometry(count) => {
            "reading audition has "@ + decimal(count as nat)
                + " regions; a contiguous render target is required"@
        },
        EffectFault::UnresolvedEntity(entity) => {
            "reading entity "@ + reference_words(entity) + " has no exact local identity"@
        },
        EffectFault::UnsupportedSignalReference(entity) => {
            "signal reference "@ + reference_words(entity)
                + " does not resolve to a persistent comparison"@
        },
        EffectFault::MissingComparison(id) => {
            "comparison "@ + decimal(id.0 as nat) + " is not retained"@
        },
        EffectFault::MissingExplanationComparison(id) => {
            "explanation "@ + decimal(id.0 as nat) + " has no comparison covering this extent"@
        },
        EffectFault::AmbiguousExplanationComparison { explanation, candidates } => {
            "explanation "@ + decimal(explanation.0 as nat) + " has "@
                + decimal(candidates.len() as nat) + " comparisons covering this extent"@
        },
        EffectFault::FocusOutsideComparison { focus, comparison } => {
            "reading focus "@ + signed_decimal(focus.start as int) + ".."@
                + signed_decimal(focus.end as int) + " is outside comparison "@
                + signed_decimal(comparison.start as int) + ".."@
                + signed_decimal(comparison.end as int)
        },
        EffectFault::MissingAsset(asset) => {
            "source asset "@ + decimal(asset.0 as nat) + " is missing"@
        },
        EffectFault::AmbiguousResolution { what, count } => {
            "expected one "@ + resolution_text(what) + ", found "@ + decimal(count as nat)
        },
        EffectFault::FrequencyIsolationUnavailable { .. } => {
            host.low@ + "–"@ + host.high@
                + " Hz requests frequency isolation, but source audition currently requires the full 0–"@
                + host.limit@ + " Hz band"@
        },
        EffectFault::SourceMapping(text) => "source mapping failed: "@ + text,
        EffectFault::SourceRender(text) => "source audition render failed: "@ + text,
        EffectFault::OutputFormat(text) => "source audition format failed: "@ + text,
        EffectFault::StalePublication { expected, actual } => {
            "reading effect was captured at document "@
                + decimal(expected.document_generation as nat) + "/revision "@
                + decimal(expected.revisions.aggregate as nat) + ", current is document "@
                + decimal(actual.document_generation as nat) + "/revision "@
                + decimal(actual.revisions.aggregate as nat)
        },
    }
}

pub(crate) fn append_effect_message(
    out: &mut String,
    value: &ReadingEffectBridgeError,
    host: &HostWords,
)
    ensures
        final(out)@ == old(out)@ + effect_message(value@, *host),
{
    let ghost before = out@;
    match value {
        ReadingEffectBridgeError::Session(error) => {
            append_session_message(out, error, host);
        },
        ReadingEffectBridgeError::ZeroGeneration => {
            out.append("reading audition generation is zero");
        },
        ReadingEffectBridgeError::InvalidEntity(entity) => {
            out.append("invalid reading entity ");
            append_reference(out, entity);
        },
        ReadingEffectBridgeError::InvalidRegion(_) => {
            out.append("invalid audition region ");
            out.append(host.region.as_str());
        },
        ReadingEffectBridgeError::InvalidGeometry(GeometryRefusal::Aspect(error)) => {
            out.append("invalid reading geometry: ");
            append_workbench_message(out, error, host);
        },
        ReadingEffectBridgeError::InvalidGeometry(GeometryRefusal::Selection(text)) => {
            out.append("invalid reading geometry: ");
            out.append(text.as_str());
        },
        ReadingEffectBridgeError::NonContiguousGeometry(count) => {
            out.append("reading audition has ");
            append_decimal(out, *count as u64);
            out.append(" regions; a contiguous render target is required");
        },
        ReadingEffectBridgeError::UnresolvedEntity(entity) => {
            out.append("reading entity ");
            append_reference(out, entity);
            out.append(" has no exact local identity");
        },
        ReadingEffectBridgeError::UnsupportedSignalReference(entity) => {
            out.append("signal reference ");
            append_reference(out, entity);
            out.append(" does not resolve to a persistent comparison");
        },
        ReadingEffectBridgeError::MissingComparison(id) => {
            out.append("comparison ");
            append_decimal(out, id.0 as u64);
            out.append(" is not retained");
        },
        ReadingEffectBridgeError::MissingExplanationComparison(id) => {
            out.append("explanation ");
            append_decimal(out, id.0 as u64);
            out.append(" has no comparison covering this extent");
        },
        ReadingEffectBridgeError::AmbiguousExplanationComparison { explanation, candidates } => {
            out.append("explanation ");
            append_decimal(out, explanation.0 as u64);
            out.append(" has ");
            append_decimal(out, candidates.len() as u64);
            out.append(" comparisons covering this extent");
        },
        ReadingEffectBridgeError::FocusOutsideComparison { focus, comparison } => {
            out.append("reading focus ");
            append_signed(out, focus.start as i128);
            out.append("..");
            append_signed(out, focus.end as i128);
            out.append(" is outside comparison ");
            append_signed(out, comparison.start as i128);
            out.append("..");
            append_signed(out, comparison.end as i128);
        },
        ReadingEffectBridgeError::MissingAsset(asset) => {
            out.append("source asset ");
            append_decimal(out, asset.0 as u64);
            out.append(" is missing");
        },
        ReadingEffectBridgeError::AmbiguousResolution { what, count } => {
            out.append("expected one ");
            append_resolution(out, *what);
            out.append(", found ");
            append_decimal(out, *count as u64);
        },
        ReadingEffectBridgeError::FrequencyIsolationUnavailable { .. } => {
            out.append(host.low.as_str());
            out.append("–");
            out.append(host.high.as_str());
            out.append(" Hz requests frequency isolation, but source audition currently requires the full 0–");
            out.append(host.limit.as_str());
            out.append(" Hz band");
        },
        ReadingEffectBridgeError::SourceMapping(text) => {
            out.append("source mapping failed: ");
            out.append(text.as_str());
        },
        ReadingEffectBridgeError::SourceRender(text) => {
            out.append("source audition render failed: ");
            out.append(text.as_str());
        },
        ReadingEffectBridgeError::OutputFormat(text) => {
            out.append("source audition format failed: ");
            out.append(text.as_str());
        },
        ReadingEffectBridgeError::StalePublication { expected, actual } => {
            out.append("reading effect was captured at document ");
            append_decimal(out, expected.document_generation as u64);
            out.append("/revision ");
            append_decimal(out, expected.revisions.aggregate as u64);
            out.append(", current is document ");
            append_decimal(out, actual.document_generation as u64);
            out.append("/revision ");
            append_decimal(out, actual.revisions.aggregate as u64);
        },
    }
    assert(out@ =~= before + effect_message(value@, *host));
}

fn append_resolution(out: &mut String, what: Resolution)
    ensures
        final(out)@ == old(out)@ + resolution_text(what),
{
    out.append(what.text().as_str());
}

impl ReadingEffectBridgeError {
    /// The error in words.
    pub fn message(&self, host: &HostWords) -> (r: String)
        ensures
            r@ == effect_message(self@, *host),
    {
        let mut out = String::new();
        append_effect_message(&mut out, self, host);
        assert(out@ =~= effect_message(self@, *host));
        out
    }
}

/// How far a reading is verified.
pub open spec fn tier_words(value: VerificationTier) -> Seq<char> {
    match value {
        VerificationTier::GraphOnly => "GraphOnly"@,
        VerificationTier::SourceMatched => "SourceMatched"@,
        VerificationTier::Replicated => "Replicated"@,
    }
}

pub(crate) fn append_tier(out: &mut String, value: &VerificationTier)
    ensures
        final(out)@ == old(out)@ + tier_words(*value),
{
    let ghost before = out@;
    match value {
        VerificationTier::GraphOnly => {
            out.append("GraphOnly");
        },
        VerificationTier::SourceMatched => {
            out.append("SourceMatched");
        },
        VerificationTier::Replicated => {
            out.append("Replicated");
        },
    }
    assert(out@ =~= before + tier_words(*value));
}

/// What is wrong with the geometry of an export.
pub open spec fn export_geometry_words(value: ExportGeometryFault, host: HostWords) -> Seq<char> {
    match value {
        ExportGeometryFault::Reference(error) => reading_error_words(error),
        ExportGeometryFault::Geometry(error) => workbench_message(error, host),
    }
}

pub(crate) fn append_export_geometry(
    out: &mut String,
    value: &ExportGeometryRefusal,
    host: &HostWords,
)
    ensures
        final(out)@ == old(out)@ + export_geometry_words(value@, *host),
{
    let ghost before = out@;
    match value {
        ExportGeometryRefusal::Reference(error) => {
            append_reading_error(out, error);
        },
        ExportGeometryRefusal::Geometry(error) => {
            append_workbench_message(out, error, host);
        },
    }
    assert(out@ =~= before + export_geometry_words(value@, *host));
}

/// The message on a workflow of readings.
pub open spec fn workflow_message(value: WorkflowFault, host: HostWords) -> Seq<char> {
    match value {
        WorkflowFault::NoReadings => "a reading workflow needs at least one reading"@,
        WorkflowFault::InvalidReading(error) => {
            "reading envelope refused: "@ + reading_error_message(error)
        },
        WorkflowFault::InvalidLocalMaterial { id, detail } => {
            "local material "@ + debug_text(id) + " is invalid: "@ + detail
        },
        WorkflowFault::DuplicateLocalMaterial(id) => {
            "local material "@ + debug_text(id) + " was supplied more than once"@
        },
        WorkflowFault::SourceCandidatesRefused(diagnostic) => missing_text(diagnostic),
        WorkflowFault::UnexpectedVerificationTier(tier) => {
            "source resolver produced unexpected tier "@ + tier_words(tier)
        },
        WorkflowFault::ReservedSection(name) => {
            "export section "@ + debug_text(name) + " is owned by the reading workflow"@
        },
        WorkflowFault::DuplicateExportEntity(id) => {
            "export contains duplicate entity "@ + entity_text(id)
        },
        WorkflowFault::BlankExportLabel(id) => {
            "export entity "@ + entity_text(id) + " has a blank label"@
        },
        WorkflowFault::BlankHypothesisGroup(id) => {
            "export hypothesis "@ + entity_text(id) + " has a blank question/group"@
        },
        WorkflowFault::InvalidExportHypothesis(id) => {
            "export hypothesis "@ + entity_text(id) + " has invalid semantics"@
        },
        WorkflowFault::InvalidExportGeometry { entity, detail } => {
            "export entity "@ + entity_text(entity) + " has invalid geometry: "@
                + export_geometry_words(detail, host)
        },
        WorkflowFault::ExtentOutsideSource { entity, start_frame, end_frame, source_frames } => {
            "export entity "@ + entity_text(entity) + " extent ["@
                + signed_decimal(start_frame as int) + ", "@ + signed_decimal(end_frame as int)
                + ") is outside the "@ + decimal(source_frames as nat) + "-frame source"@
        },
        WorkflowFault::ForeignReadingReference { entity, reference } => {
            "export entity "@ + entity_text(entity) + " refers to different reading entity "@
                + entity_text(reference)
        },
        WorkflowFault::Codec(error) => "reading encoding refused: "@ + codec_message(error),
        WorkflowFault::Import(error) => "reading import refused: "@ + import_words(error, host),
        WorkflowFault::Merge(error) => "reading merge refused: "@ + merge_words(error),
        WorkflowFault::Command(error) => "reading command plan refused: "@ + lowering_words(error),
        WorkflowFault::DuplicateReadingId(reading) => {
            "workflow contains multiple revisions of reading "@ + hex_text(reading@)
                + "; diff them before choosing one revision to import"@
        },
        WorkflowFault::Navigation(id) => {
            "reading navigation refused: UnknownEntity("@ + entity_text(id) + ")"@
        },
        WorkflowFault::Workbench(error) => {
            "reading workbench refused: "@ + workbench_message(error, host)
        },
    }
}

pub(crate) fn append_workflow_message(
    out: &mut String,
    value: &ReadingWorkflowRefusal,
    host: &HostWords,
)
    ensures
        final(out)@ == old(out)@ + workflow_message(value@, *host),
{
    let ghost before = out@;
    match value {
        ReadingWorkflowRefusal::NoReadings => {
            out.append("a reading workflow needs at least one reading");
        },
        ReadingWorkflowRefusal::InvalidReading(error) => {
            out.append("reading envelope refused: ");
            append_reading_message(out, error);
        },
        ReadingWorkflowRefusal::InvalidLocalMaterial { id, detail } => {
            out.append("local material ");
            out.append(quoted(id.0.as_str()).as_str());
            out.append(" is invalid: ");
            out.append(detail.as_str());
        },
        ReadingWorkflowRefusal::DuplicateLocalMaterial(id) => {
            out.append("local material ");
            out.append(quoted(id.0.as_str()).as_str());
            out.append(" was supplied more than once");
        },
        ReadingWorkflowRefusal::SourceCandidatesRefused(diagnostic) => {
            append_missing(out, diagnostic);
        },
        ReadingWorkflowRefusal::UnexpectedVerificationTier(tier) => {
            out.append("source resolver produced unexpected tier ");
            append_tier(out, tier);
        },
        ReadingWorkflowRefusal::ReservedSection(name) => {
            out.append("export section ");
            out.append(quoted(name.as_str()).as_str());
            out.append(" is owned by the reading workflow");
        },
        ReadingWorkflowRefusal::DuplicateExportEntity(id) => {
            out.append("export contains duplicate entity ");
            append_entity_text(out, id);
        },
        ReadingWorkflowRefusal::BlankExportLabel(id) => {
            out.append("export entity ");
            append_entity_text(out, id);
            out.append(" has a blank label");
        },
        ReadingWorkflowRefusal::BlankHypothesisGroup(id) => {
            out.append("export hypothesis ");
            append_entity_text(out, id);
            out.append(" has a blank question/group");
        },
        ReadingWorkflowRefusal::InvalidExportHypothesis(id) => {
            out.append("export hypothesis ");
            append_entity_text(out, id);
            out.append(" has invalid semantics");
        },
        ReadingWorkflowRefusal::InvalidExportGeometry { entity, detail } => {
            out.append("export entity ");
            append_entity_text(out, entity);
            out.append(" has invalid geometry: ");
            append_export_geometry(out, detail, host);
        },
        ReadingWorkflowRefusal::ExtentOutsideSource {
            entity,
            start_frame,
            end_frame,
            source_frames,
        } => {
            out.append("export entity ");
            append_entity_text(out, entity);
            out.append(" extent [");
            append_signed(out, *start_frame as i128);
            out.append(", ");
            append_signed(out, *end_frame as i128);
            out.append(") is outside the ");
            append_decimal(out, *source_frames as u64);
            out.append("-frame source");
        },
        ReadingWorkflowRefusal::ForeignReadingReference { entity, reference } => {
            out.append("export entity ");
            append_entity_text(out, entity);
            out.append(" refers to different reading entity ");
            append_entity_text(out, reference);
        },
        ReadingWorkflowRefusal::Codec(error) => {
            out.append("reading encoding refused: ");
            append_codec_message(out, error);
        },
        ReadingWorkflowRefusal::Import(error) => {
            out.append("reading import refused: ");
            append_import(out, error, host);
        },
        ReadingWorkflowRefusal::Merge(error) => {
            out.append("reading merge refused: ");
            append_merge(out, error);
        },
        ReadingWorkflowRefusal::Command(error) => {
            out.append("reading command plan refused: ");
            append_lowering(out, error);
        },
        ReadingWorkflowRefusal::DuplicateReadingId(reading) => {
            out.append("workflow contains multiple revisions of reading ");
            append_reading_text(out, reading);
            out.append("; diff them before choosing one revision to import");
        },
        ReadingWorkflowRefusal::Navigation(id) => {
            out.append("reading navigation refused: UnknownEntity(");
            append_entity_text(out, id);
            out.append(")");
        },
        ReadingWorkflowRefusal::Workbench(error) => {
            out.append("reading workbench refused: ");
            append_workbench_message(out, error, host);
        },
    }
    assert(out@ =~= before + workflow_message(value@, *host));
}

fn append_missing(out: &mut String, diagnostic: &MissingSourceDiagnostic)
    ensures
        final(out)@ == old(out)@ + missing_text(diagnostic@),
{
    out.append(diagnostic.refusal_message().as_str());
}

fn append_reading_text(out: &mut String, reading: &ReadingId)
    ensures
        final(out)@ == old(out)@ + hex_text(reading@),
{
    out.append(reading.to_text().as_str());
}

impl ReadingWorkflowRefusal {
    /// The error in words.
    pub fn message(&self, host: &HostWords) -> (r: String)
        ensures
            r@ == workflow_message(self@, *host),
    {
        let mut out = String::new();
        append_workflow_message(&mut out, self, host);
        assert(out@ =~= workflow_message(self@, *host));
        out
    }
}

/// What a refusal of the pane says.
pub open spec fn pane_words(value: PaneFault, host: HostWords) -> Seq<char> {
    match value {
        PaneFault::Message(text) => text,
        PaneFault::Builder(refusal) => "query builder: "@ + builder_words(refusal),
        PaneFault::Workbench(error) => workbench_message(error, host),
        PaneFault::Row(refusal) => row_words(refusal),
        PaneFault::Protocol(error) => protocol_message(error, host),
        PaneFault::LateRefusal { request_id, error } => {
            "unknown or late refusal "@ + request_id + ": "@ + protocol_message(error, host)
        },
        PaneFault::Import(refusal) => import_words(refusal, host),
        PaneFault::Merge(refusal) => merge_words(refusal),
        PaneFault::UnknownPlannedEntity(id) => "unknown planned reading entity "@ + entity_text(id),
        PaneFault::ReadingAction(refusal) => action_words(refusal),
    }
}

pub(crate) fn append_pane_words(out: &mut String, value: &PaneRefusal, host: &HostWords)
    ensures
        final(out)@ == old(out)@ + pane_words(value@, *host),
{
    let ghost before = out@;
    match value {
        PaneRefusal::Message(text) => {
            out.append(text.as_str());
        },
        PaneRefusal::Builder(refusal) => {
            out.append("query builder: ");
            append_builder(out, refusal);
        },
        PaneRefusal::Workbench(error) => {
            append_workbench_message(out, error, host);
        },
        PaneRefusal::Row(refusal) => {
            append_row(out, refusal);
        },
        PaneRefusal::Protocol(error) => {
            append_protocol_message(out, error, host);
        },
        PaneRefusal::LateRefusal { request_id, error } => {
            out.append("unknown or late refusal ");
            out.append(request_id.as_str());
            out.append(": ");
            append_protocol_message(out, error, host);
        },
        PaneRefusal::Import(refusal) => {
            append_import(out, refusal, host);
        },
        PaneRefusal::Merge(refusal) => {
            append_merge(out, refusal);
        },
        PaneRefusal::UnknownPlannedEntity(id) => {
            out.append("unknown planned reading entity ");
            append_entity_text(out, id);
        },
        PaneRefusal::ReadingAction(refusal) => {
            append_action(out, refusal);
        },
    }
    assert(out@ =~= before + pane_words(value@, *host));
}

impl PaneRefusal {
    /// The error in words.
    pub fn message(&self, host: &HostWords) -> (r: String)
        ensures
            r@ == pane_words(self@, *host),
    {
        let mut out = String::new();
        append_pane_words(&mut out, self, host);
        assert(out@ =~= pane_words(self@, *host));
        out
    }
}

} // verus!
