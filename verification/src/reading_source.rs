//! Finding the local copies of the source that a reading speaks of.
//!
//! A near match is no permission: copies are accepted by exact identity only.

use vstd::prelude::*;
use vstd::string::*;

use crate::query_terms::{debug_text, quoted};
use crate::rank::{
    append_text_rank, ranked, ranked_commutes_with_views, sort_by_rank, text_rank, HasRank, Ranked,
};
use crate::reading::{
    copy_digests, EntityKey, LocalSourceDescriptor, PortableDigest, QualifiedEntityId, ReadingFile,
    ReadingId, ReadingVerificationRefusal, RefusalView, VerificationTier,
};
use crate::reading_workflow::{ReadingWorkflowRefusal, WorkflowFault};
use crate::text::{
    append_decimal, append_hex, append_signed, blank, copy_optional_text, decimal, hex_text,
    is_blank, optional_text, owned, same_text, signed_decimal,
};

verus! {

/// Opaque identity of one local copy of source material.
#[derive(Debug, PartialEq, Eq, PartialOrd, Ord, Hash)]
pub struct LocalMaterialId(pub String);

impl Clone for LocalMaterialId {
    fn clone(&self) -> (r: Self)
        ensures
            r == *self,
    {
        LocalMaterialId(self.0.clone())
    }
}

/// One local copy of source material.
#[derive(Debug, PartialEq, Eq)]
pub struct LocalReadingMaterial {
    pub id: LocalMaterialId,
    pub label: String,
    pub source: LocalSourceDescriptor,
}

impl Clone for LocalReadingMaterial {
    fn clone(&self) -> (r: Self)
        ensures
            r == *self,
    {
        LocalReadingMaterial {
            id: self.id.clone(),
            label: self.label.clone(),
            source: self.source,
        }
    }
}

/// What a local copy holds.
pub struct MaterialView {
    pub id: Seq<char>,
    pub label: Seq<char>,
    pub source: LocalSourceDescriptor,
}

impl View for LocalReadingMaterial {
    type V = MaterialView;

    open spec fn view(&self) -> MaterialView {
        MaterialView { id: self.id.0@, label: self.label@, source: self.source }
    }
}

impl HasRank for MaterialView {
    open spec fn rank(&self) -> Seq<u64> {
        text_rank(self.id)
    }
}

impl HasRank for LocalReadingMaterial {
    open spec fn rank(&self) -> Seq<u64> {
        text_rank(self.id.0@)
    }
}

impl Ranked for LocalReadingMaterial {
    fn rank_key(&self) -> (r: Vec<u64>) {
        let mut key: Vec<u64> = Vec::new();
        append_text_rank(&mut key, self.id.0.as_str());
        assert(key@ =~= self.rank());
        key
    }
}

/// What a list of local copies holds.
pub open spec fn material_views(list: Seq<LocalReadingMaterial>) -> Seq<MaterialView> {
    list.map_values(|m: LocalReadingMaterial| m@)
}

/// A local copy that was refused, and why.
#[derive(Debug, PartialEq, Eq)]
pub struct RejectedLocalMaterial {
    pub id: LocalMaterialId,
    pub label: String,
    pub reason: ReadingVerificationRefusal,
}

/// What a refused copy holds.
pub struct RejectedView {
    pub id: Seq<char>,
    pub label: Seq<char>,
    pub reason: RefusalView,
}

impl View for RejectedLocalMaterial {
    type V = RejectedView;

    open spec fn view(&self) -> RejectedView {
        RejectedView { id: self.id.0@, label: self.label@, reason: self.reason@ }
    }
}

impl HasRank for RejectedView {
    open spec fn rank(&self) -> Seq<u64> {
        text_rank(self.id)
    }
}

impl HasRank for RejectedLocalMaterial {
    open spec fn rank(&self) -> Seq<u64> {
        text_rank(self.id.0@)
    }
}

impl Ranked for RejectedLocalMaterial {
    fn rank_key(&self) -> (r: Vec<u64>) {
        let mut key: Vec<u64> = Vec::new();
        append_text_rank(&mut key, self.id.0.as_str());
        assert(key@ =~= self.rank());
        key
    }
}

/// What a list of refused copies holds.
pub open spec fn rejected_views(list: Seq<RejectedLocalMaterial>) -> Seq<RejectedView> {
    list.map_values(|m: RejectedLocalMaterial| m@)
}

/// What was looked for when no copy matched.
#[derive(Debug, PartialEq, Eq)]
pub struct MissingSourceDiagnostic {
    pub reading_id: ReadingId,
    pub declared_title: Option<String>,
    pub expected_fingerprints: Vec<PortableDigest>,
    pub sample_rate: u32,
    pub channels: u16,
    pub frame_count: u64,
    pub rejected: Vec<RejectedLocalMaterial>,
}

/// What a diagnostic holds.
pub struct MissingView {
    pub reading_id: ReadingId,
    pub declared_title: Option<Seq<char>>,
    pub expected_fingerprints: Seq<PortableDigest>,
    pub sample_rate: u32,
    pub channels: u16,
    pub frame_count: u64,
    pub rejected: Seq<RejectedView>,
}

impl View for MissingSourceDiagnostic {
    type V = MissingView;

    open spec fn view(&self) -> MissingView {
        MissingView {
            reading_id: self.reading_id,
            declared_title: optional_text(self.declared_title),
            expected_fingerprints: self.expected_fingerprints@,
            sample_rate: self.sample_rate,
            channels: self.channels,
            frame_count: self.frame_count,
            rejected: rejected_views(self.rejected@),
        }
    }
}

/// Which local copy a reading is heard from.
#[derive(Debug, PartialEq, Eq)]
pub enum ReadingSourceResolution {
    Matched {
        primary: LocalReadingMaterial,
        /// Other exact copies, of equal standing.
        equivalents: Vec<LocalReadingMaterial>,
        rejected: Vec<RejectedLocalMaterial>,
    },
    Missing(MissingSourceDiagnostic),
}

/// What a resolution holds.
pub enum ResolutionView {
    Matched {
        primary: MaterialView,
        equivalents: Seq<MaterialView>,
        rejected: Seq<RejectedView>,
    },
    Missing(MissingView),
}

impl View for ReadingSourceResolution {
    type V = ResolutionView;

    open spec fn view(&self) -> ResolutionView {
        match *self {
            ReadingSourceResolution::Matched {
                primary,
                equivalents,
                rejected,
            } => ResolutionView::Matched {
                primary: primary@,
                equivalents: material_views(equivalents@),
                rejected: rejected_views(rejected@),
            },
            ReadingSourceResolution::Missing(diagnostic) => ResolutionView::Missing(diagnostic@),
        }
    }
}

/// The copies that a resolution refused.
pub open spec fn rejected_of(resolution: ResolutionView) -> Seq<RejectedView> {
    match resolution {
        ResolutionView::Matched { rejected, .. } => rejected,
        ResolutionView::Missing(diagnostic) => diagnostic.rejected,
    }
}

impl ReadingSourceResolution {
    /// How far the resolution verifies the reading.
    pub fn verification(&self) -> (r: VerificationTier)
        ensures
            r == match self {
                ReadingSourceResolution::Matched { .. } => VerificationTier::SourceMatched,
                ReadingSourceResolution::Missing(_) => VerificationTier::GraphOnly,
            },
    {
        match self {
            ReadingSourceResolution::Matched { .. } => VerificationTier::SourceMatched,
            ReadingSourceResolution::Missing(_) => VerificationTier::GraphOnly,
        }
    }

    /// The copy to hear the reading from.
    pub fn primary(&self) -> (r: Option<&LocalReadingMaterial>)
        ensures
            match r {
                Some(material) => self matches ReadingSourceResolution::Matched { primary, .. }
                    && primary == *material,
                None => self is Missing,
            },
    {
        match self {
            ReadingSourceResolution::Matched { primary, .. } => Some(primary),
            ReadingSourceResolution::Missing(_) => None,
        }
    }

    /// The copies that were refused.
    pub fn rejected(&self) -> (r: &Vec<RejectedLocalMaterial>)
        ensures
            rejected_views(r@) == rejected_of(self@),
    {
        match self {
            ReadingSourceResolution::Matched { rejected, .. } => rejected,
            ReadingSourceResolution::Missing(diagnostic) => &diagnostic.rejected,
        }
    }
}

/// What is wrong with one local copy.
pub open spec fn material_fault(material: MaterialView) -> Option<WorkflowFault> {
    if is_blank(material.id) || is_blank(material.label) {
        Some(
            WorkflowFault::InvalidLocalMaterial {
                id: material.id,
                detail: "material identity and label must be non-blank"@,
            },
        )
    } else if !material.source.digest.strong() || material.source.sample_rate == 0
        || material.source.channels == 0 || material.source.frame_count == 0 {
        Some(
            WorkflowFault::InvalidLocalMaterial {
                id: material.id,
                detail: "material needs a strong digest and non-zero decoded geometry"@,
            },
        )
    } else {
        None
    }
}

/// What is wrong with the local copies from index `i` on.
pub open spec fn materials_fault(materials: Seq<MaterialView>, i: int) -> Option<WorkflowFault>
    decreases materials.len() - i,
{
    if i < 0 || i >= materials.len() {
        None
    } else if material_fault(materials[i]) is Some {
        material_fault(materials[i])
    } else if exists|j: int| 0 <= j < i && (#[trigger] materials[j]).id == materials[i].id {
        Some(WorkflowFault::DuplicateLocalMaterial(materials[i].id))
    } else {
        materials_fault(materials, i + 1)
    }
}

/// The copies among the first `i` that match.
pub open spec fn matching(reading: ReadingFile, materials: Seq<MaterialView>, i: int) -> Seq<
    MaterialView,
>
    decreases i,
{
    if i <= 0 {
        Seq::empty()
    } else if reading.source_check(Some(materials[i - 1].source)) is Ok {
        matching(reading, materials, i - 1).push(materials[i - 1])
    } else {
        matching(reading, materials, i - 1)
    }
}

/// The copies among the first `i` that do not match, and why.
pub open spec fn refused(reading: ReadingFile, materials: Seq<MaterialView>, i: int) -> Seq<
    RejectedView,
>
    decreases i,
{
    if i <= 0 {
        Seq::empty()
    } else {
        match reading.source_check(Some(materials[i - 1].source)) {
            Ok(_) => refused(reading, materials, i - 1),
            Err(reason) => refused(reading, materials, i - 1).push(
                RejectedView {
                    id: materials[i - 1].id,
                    label: materials[i - 1].label,
                    reason,
                },
            ),
        }
    }
}

/// What was looked for, with the copies that were refused.
pub open spec fn missing_source(reading: ReadingFile, rejected: Seq<RejectedView>) -> MissingView {
    MissingView {
        reading_id: reading.reading_id,
        declared_title: optional_text(reading.source.declared_title),
        expected_fingerprints: reading.source.fingerprints@,
        sample_rate: reading.source.sample_rate,
        channels: reading.source.channels,
        frame_count: reading.source.frame_count,
        rejected,
    }
}

/// The resolution of a reading's source. No candidate leaves the graph; a
/// candidate that was supplied and does not match stops the import.
pub open spec fn resolved(reading: ReadingFile, materials: Seq<MaterialView>) -> Result<
    ResolutionView,
    WorkflowFault,
> {
    let matched = ranked(matching(reading, materials, materials.len() as int));
    let rejected = ranked(refused(reading, materials, materials.len() as int));
    if reading.fault() is Some {
        Err(WorkflowFault::InvalidReading(reading.fault()->0))
    } else if materials_fault(materials, 0) is Some {
        Err(materials_fault(materials, 0)->0)
    } else if matched.len() > 0 {
        Ok(
            ResolutionView::Matched {
                primary: matched[0],
                equivalents: matched.drop_first(),
                rejected,
            },
        )
    } else if rejected.len() == 0 {
        Ok(ResolutionView::Missing(missing_source(reading, rejected)))
    } else {
        Err(WorkflowFault::SourceCandidatesRefused(missing_source(reading, rejected)))
    }
}

fn validate_local_material(material: &LocalReadingMaterial) -> (r: Result<(), ReadingWorkflowRefusal>)
    ensures
        match r {
            Ok(_) => material_fault(material@) is None,
            Err(refusal) => material_fault(material@) == Some(refusal@),
        },
{
    if blank(material.id.0.as_str()) || blank(material.label.as_str()) {
        return Err(
            ReadingWorkflowRefusal::InvalidLocalMaterial {
                id: material.id.clone(),
                detail: owned("material identity and label must be non-blank"),
            },
        );
    }
    if !material.source.digest.is_strong() || material.source.sample_rate == 0
        || material.source.channels == 0 || material.source.frame_count == 0 {
        return Err(
            ReadingWorkflowRefusal::InvalidLocalMaterial {
                id: material.id.clone(),
                detail: owned("material needs a strong digest and non-zero decoded geometry"),
            },
        );
    }
    Ok(())
}

fn validate_materials(materials: &Vec<LocalReadingMaterial>) -> (r: Result<(), ReadingWorkflowRefusal>)
    ensures
        match r {
            Ok(_) => materials_fault(material_views(materials@), 0) is None,
            Err(refusal) => materials_fault(material_views(materials@), 0) == Some(refusal@),
        },
{
    let ghost views = material_views(materials@);
    let mut i: usize = 0;
    while i < materials.len()
        invariant
            i <= materials.len(),
            views == material_views(materials@),
            materials_fault(views, 0) == materials_fault(views, i as int),
        decreases materials.len() - i,
    {
        assert(views[i as int] == materials@[i as int]@);
        match validate_local_material(&materials[i]) {
            Ok(()) => {},
            Err(refusal) => {
                return Err(refusal);
            },
        }
        let mut j: usize = 0;
        while j < i
            invariant
                j <= i < materials.len(),
                views == material_views(materials@),
                views[i as int] == materials@[i as int]@,
                materials_fault(views, 0) == materials_fault(views, i as int),
                material_fault(views[i as int]) is None,
                forall|k: int| 0 <= k < j ==> (#[trigger] views[k]).id != views[i as int].id,
            decreases i - j,
        {
            assert(views[j as int] == materials@[j as int]@);
            if same_text(materials[j].id.0.as_str(), materials[i].id.0.as_str()) {
                assert(views[j as int].id == views[i as int].id);
                return Err(ReadingWorkflowRefusal::DuplicateLocalMaterial(materials[i].id.clone()));
            }
            j = j + 1;
        }
        i = i + 1;
    }
    Ok(())
}

fn part_materials(reading: &ReadingFile, materials: &Vec<LocalReadingMaterial>) -> (r: (
    Vec<LocalReadingMaterial>,
    Vec<RejectedLocalMaterial>,
))
    ensures
        material_views(r.0@) == matching(
            *reading,
            material_views(materials@),
            materials@.len() as int,
        ),
        rejected_views(r.1@) == refused(
            *reading,
            material_views(materials@),
            materials@.len() as int,
        ),
{
    let ghost views = material_views(materials@);
    let mut matched: Vec<LocalReadingMaterial> = Vec::new();
    let mut rejected: Vec<RejectedLocalMaterial> = Vec::new();
    let mut i: usize = 0;
    assert(material_views(matched@) =~= Seq::<MaterialView>::empty());
    assert(rejected_views(rejected@) =~= Seq::<RejectedView>::empty());
    while i < materials.len()
        invariant
            i <= materials.len(),
            views == material_views(materials@),
            material_views(matched@) == matching(*reading, views, i as int),
            rejected_views(rejected@) == refused(*reading, views, i as int),
        decreases materials.len() - i,
    {
        assert(views[i as int] == materials@[i as int]@);
        let ghost before = (material_views(matched@), rejected_views(rejected@));
        let material = &materials[i];
        match reading.verify_source(Some(&material.source)) {
            Ok(_) => {
                let copy = material.clone();
                matched.push(copy);
                assert(material_views(matched@) =~= before.0.push(copy@));
            },
            Err(reason) => {
                let refusal = RejectedLocalMaterial {
                    id: material.id.clone(),
                    label: material.label.clone(),
                    reason,
                };
                rejected.push(refusal);
                assert(rejected_views(rejected@) =~= before.1.push(refusal@));
            },
        }
        i = i + 1;
    }
    (matched, rejected)
}

/// Finds the exact local copies of a reading's source.
pub fn resolve_reading_source(
    reading: &ReadingFile,
    materials: &Vec<LocalReadingMaterial>,
) -> (r: Result<ReadingSourceResolution, ReadingWorkflowRefusal>)
    ensures
        match r {
            Ok(resolution) => resolved(*reading, material_views(materials@)) == Ok::<
                ResolutionView,
                WorkflowFault,
            >(resolution@),
            Err(refusal) => resolved(*reading, material_views(materials@)) == Err::<
                ResolutionView,
                WorkflowFault,
            >(refusal@),
        },
{
    match reading.validate() {
        Ok(()) => {},
        Err(error) => {
            return Err(ReadingWorkflowRefusal::InvalidReading(error));
        },
    }
    match validate_materials(materials) {
        Ok(()) => {},
        Err(refusal) => {
            return Err(refusal);
        },
    }
    let (matched, rejected) = part_materials(reading, materials);
    proof {
        ranked_commutes_with_views(matched@, |m: LocalReadingMaterial| m@);
        ranked_commutes_with_views(rejected@, |m: RejectedLocalMaterial| m@);
    }
    let mut matched = sort_by_rank(matched);
    let rejected = sort_by_rank(rejected);
    let ghost order = material_views(matched@);
    assert(order.len() == matched@.len());
    assert(rejected_views(rejected@).len() == rejected@.len());
    if matched.len() == 0 {
        let none = rejected.len() == 0;
        let diagnostic = MissingSourceDiagnostic {
            reading_id: reading.reading_id,
            declared_title: copy_optional_text(&reading.source.declared_title),
            expected_fingerprints: copy_digests(&reading.source.fingerprints),
            sample_rate: reading.source.sample_rate,
            channels: reading.source.channels,
            frame_count: reading.source.frame_count,
            rejected,
        };
        if none {
            return Ok(ReadingSourceResolution::Missing(diagnostic));
        }
        return Err(ReadingWorkflowRefusal::SourceCandidatesRefused(diagnostic));
    }
    let primary = matched.remove(0);
    proof {
        assert(order[0] == primary@);
        assert(material_views(matched@) =~= order.drop_first());
    }
    Ok(ReadingSourceResolution::Matched { primary, equivalents: matched, rejected })
}

// ----- messages ---------------------------------------------------------

/// A list of bytes as `std` writes it under `{:?}`, without the brackets.
pub open spec fn byte_list(bytes: Seq<u8>) -> Seq<char>
    decreases bytes.len(),
{
    if bytes.len() == 0 {
        Seq::empty()
    } else if bytes.len() == 1 {
        decimal(bytes[0] as nat)
    } else {
        byte_list(bytes.drop_last()) + ", "@ + decimal(bytes.last() as nat)
    }
}

/// An entity as `std` writes it under `{:?}`.
pub open spec fn entity_text(id: EntityKey) -> Seq<char> {
    "QualifiedEntityId { reading: ReadingId(["@ + byte_list(id.reading@) + "]), kind: "@
        + debug_text(id.kind) + ", local_id: "@ + decimal(id.local_id as nat) + " }"@
}

/// Appends an entity as `std` writes it under `{:?}`.
pub fn append_entity_text(out: &mut String, id: &QualifiedEntityId)
    ensures
        final(out)@ == old(out)@ + entity_text(id@),
{
    let ghost before = out@;
    out.append("QualifiedEntityId { reading: ReadingId([");
    let ghost head = out@;
    let bytes = id.reading.bytes();
    let mut i: usize = 0;
    assert(out@ =~= head + byte_list(bytes@.take(0)));
    while i < 16
        invariant
            i <= 16,
            bytes@.len() == 16,
            out@ == head + byte_list(bytes@.take(i as int)),
        decreases 16 - i,
    {
        let ghost done = bytes@.take(i as int + 1);
        proof {
            assert(done.drop_last() =~= bytes@.take(i as int));
            assert(done.last() == bytes@[i as int]);
        }
        if i > 0 {
            out.append(", ");
        }
        append_decimal(out, bytes[i] as u64);
        assert(out@ =~= head + byte_list(done));
        i = i + 1;
    }
    assert(bytes@.take(16) =~= bytes@);
    out.append("]), kind: ");
    out.append(quoted(id.kind.as_str()).as_str());
    out.append(", local_id: ");
    append_decimal(out, id.local_id);
    out.append(" }");
    assert(out@ =~= before + entity_text(id@));
}

/// The message for a refused source.
pub open spec fn refusal_text(refusal: RefusalView) -> Seq<char> {
    match refusal {
        RefusalView::WeakLocalFingerprint => "fingerprint is not collision-resistant"@,
        RefusalView::FingerprintMismatch { .. } => "content fingerprint differs"@,
        RefusalView::SampleRate { expected, actual } => "sample rate differs (expected "@ + decimal(
            expected as nat,
        ) + ", found "@ + decimal(actual as nat) + ")"@,
        RefusalView::Channels { expected, actual } => "channel count differs (expected "@ + decimal(
            expected as nat,
        ) + ", found "@ + decimal(actual as nat) + ")"@,
        RefusalView::FrameCount { expected, actual, delta } => "frame count differs (expected "@
            + decimal(expected as nat) + ", found "@ + decimal(actual as nat) + ", delta "@
            + signed_decimal(delta as int) + ")"@,
        RefusalView::SourceNotMatched => "source was not matched"@,
        RefusalView::NoReplicationChecks => "no replication checks were supplied"@,
        RefusalView::ReplicationMismatch(entity) => "replication check failed for "@ + entity_text(
            entity,
        ),
    }
}

/// The message for a refused source.
pub fn reading_source_refusal_message(refusal: &ReadingVerificationRefusal) -> (r: String)
    ensures
        r@ == refusal_text(refusal@),
{
    match refusal {
        ReadingVerificationRefusal::WeakLocalFingerprint => {
            owned("fingerprint is not collision-resistant")
        },
        ReadingVerificationRefusal::FingerprintMismatch { .. } => {
            owned("content fingerprint differs")
        },
        ReadingVerificationRefusal::SampleRate { expected, actual } => {
            let mut out = owned("sample rate differs (expected ");
            append_decimal(&mut out, *expected as u64);
            out.append(", found ");
            append_decimal(&mut out, *actual as u64);
            out.append(")");
            out
        },
        ReadingVerificationRefusal::Channels { expected, actual } => {
            let mut out = owned("channel count differs (expected ");
            append_decimal(&mut out, *expected as u64);
            out.append(", found ");
            append_decimal(&mut out, *actual as u64);
            out.append(")");
            out
        },
        ReadingVerificationRefusal::FrameCount { expected, actual, delta } => {
            let mut out = owned("frame count differs (expected ");
            append_decimal(&mut out, *expected);
            out.append(", found ");
            append_decimal(&mut out, *actual);
            out.append(", delta ");
            append_signed(&mut out, *delta);
            out.append(")");
            out
        },
        ReadingVerificationRefusal::SourceNotMatched => owned("source was not matched"),
        ReadingVerificationRefusal::NoReplicationChecks => {
            owned("no replication checks were supplied")
        },
        ReadingVerificationRefusal::ReplicationMismatch(entity) => {
            let mut out = owned("replication check failed for ");
            append_entity_text(&mut out, entity);
            out
        },
    }
}

/// The reasons for the first `i` refused copies.
pub open spec fn rejection_texts(rejected: Seq<RejectedView>, i: int) -> Seq<char>
    decreases i,
{
    if i <= 0 {
        Seq::empty()
    } else {
        rejection_texts(rejected, i - 1) + "; "@ + debug_text(rejected[i - 1].id) + ": "@
            + refusal_text(rejected[i - 1].reason)
    }
}

/// The message for candidates that were all refused.
pub open spec fn missing_text(missing: MissingView) -> Seq<char> {
    decimal(missing.rejected.len()) + " local source candidate(s) were refused for reading "@
        + hex_text(missing.reading_id@) + rejection_texts(
        missing.rejected,
        missing.rejected.len() as int,
    )
}

impl MissingSourceDiagnostic {
    /// The message for candidates that were all refused.
    pub fn refusal_message(&self) -> (r: String)
        ensures
            r@ == missing_text(self@),
    {
        let ghost views = rejected_views(self.rejected@);
        let mut out = String::new();
        append_decimal(&mut out, self.rejected.len() as u64);
        out.append(" local source candidate(s) were refused for reading ");
        let bytes = self.reading_id.bytes();
        append_hex(&mut out, bytes.as_slice());
        let ghost head = out@;
        let mut i: usize = 0;
        assert(out@ =~= head + rejection_texts(views, 0));
        while i < self.rejected.len()
            invariant
                i <= self.rejected.len(),
                views == rejected_views(self.rejected@),
                out@ == head + rejection_texts(views, i as int),
            decreases self.rejected.len() - i,
        {
            assert(views[i as int] == self.rejected@[i as int]@);
            out.append("; ");
            out.append(quoted(self.rejected[i].id.0.as_str()).as_str());
            out.append(": ");
            out.append(reading_source_refusal_message(&self.rejected[i].reason).as_str());
            assert(out@ =~= head + rejection_texts(views, i as int + 1));
            i = i + 1;
        }
        out
    }
}

// ----- laws -------------------------------------------------------------

proof fn lemma_parted(reading: ReadingFile, materials: Seq<MaterialView>, i: int)
    requires
        0 <= i <= materials.len(),
    ensures
        matching(reading, materials, i).len() + refused(reading, materials, i).len() == i,
    decreases i,
{
    if i > 0 {
        lemma_parted(reading, materials, i - 1);
    }
}

/// A reading stays at the graph only when no copy was supplied: with one or more
/// valid copies the source is matched, or the import is stopped.
pub proof fn supplied_copies_never_leave_the_graph(
    reading: ReadingFile,
    materials: Seq<MaterialView>,
)
    requires
        reading.fault() is None,
        materials_fault(materials, 0) is None,
    ensures
        materials.len() == 0 ==> resolved(reading, materials) matches Ok(
            ResolutionView::Missing(_),
        ),
        materials.len() > 0 ==> {
            ||| resolved(reading, materials) matches Ok(ResolutionView::Matched { .. })
            ||| resolved(reading, materials) matches Err(WorkflowFault::SourceCandidatesRefused(_))
        },
{
    lemma_parted(reading, materials, materials.len() as int);
    crate::rank::ranked_is_an_ordering(matching(reading, materials, materials.len() as int));
    crate::rank::ranked_is_an_ordering(refused(reading, materials, materials.len() as int));
}

} // verus!
