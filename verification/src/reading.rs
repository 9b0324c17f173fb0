//! Portable identity and verification model for shareable readings.
//!
//! A reading carries claims and reconstruction recipes, never source PCM and
//! never authority. Every imported entity stays qualified by the reading that
//! minted it, so import and merge neither renumber nor collapse competing
//! interpretations.

use vstd::prelude::*;

use crate::json::{member_values, member_views, same_members, JsonMember, JsonPayload, PayloadView};
use crate::rank::{
    append_byte_rank, append_text_rank, byte_rank, byte_rank_tells_apart, ranked,
    ranked_is_an_ordering,
    ranking_again_changes_nothing, ranking_ignores_order, ranks_tell_apart, sort_by_rank,
    text_rank, text_rank_tells_apart, HasRank, Ranked,
};
use crate::text::{
    append_hex, blank, decode_hex, hex_decoded, hex_text, is_blank, is_token, optional_text,
    same_bytes, same_optional_text, same_text, valid_token,
};

verus! {

/// The format name of every reading envelope.
pub const READING_FORMAT: &'static str = "audec-reading";

/// The one supported version of the envelope.
pub const READING_FORMAT_VERSION: u32 = 1;

/// Identity of a reading: sixteen bytes that are not all zero.
#[derive(Clone, Copy, Debug, PartialEq, Eq, PartialOrd, Ord, Hash)]
pub struct ReadingId([u8; 16]);

/// Whether some byte is not zero.
pub open spec fn is_nonzero(bytes: Seq<u8>) -> bool {
    exists|i: int| 0 <= i < bytes.len() && #[trigger] bytes[i] != 0
}

impl View for ReadingId {
    type V = Seq<u8>;

    closed spec fn view(&self) -> Seq<u8> {
        self.0@
    }
}

/// Readings with the same bytes are the same reading.
pub broadcast proof fn reading_id_is_its_bytes(a: ReadingId, b: ReadingId)
    ensures
        #![trigger a@, b@]
        a@ == b@ ==> a == b,
{
    if a@ == b@ {
        assert(a.0 =~= b.0) by {
            assert forall|i: int| 0 <= i < 16 implies a.0[i] == b.0[i] by {
                assert(a.0@[i] == b.0@[i]);
            }
        }
    }
}

fn any_nonzero(bytes: &[u8]) -> (r: bool)
    ensures
        r == is_nonzero(bytes@),
{
    let mut i: usize = 0;
    while i < bytes.len()
        invariant
            i <= bytes@.len(),
            forall|j: int| 0 <= j < i ==> bytes@[j] == 0,
        decreases bytes.len() - i,
    {
        if bytes[i] != 0 {
            assert(bytes@[i as int] != 0);
            return true;
        }
        i = i + 1;
    }
    false
}

impl ReadingId {
    #[verifier::type_invariant]
    spec fn nonzero(self) -> bool {
        is_nonzero(self.0@)
    }

    /// The reading with these bytes; all zero names no reading.
    pub fn new(bytes: [u8; 16]) -> (r: Option<Self>)
        ensures
            r is Some <==> is_nonzero(bytes@),
            r matches Some(id) ==> id@ == bytes@,
    {
        if any_nonzero(bytes.as_slice()) {
            Some(ReadingId(bytes))
        } else {
            None
        }
    }

    /// The bytes of the identity; never all zero.
    pub fn bytes(self) -> (r: [u8; 16])
        ensures
            r@ == self@,
            is_nonzero(r@),
    {
        proof {
            use_type_invariant(&self);
        }
        self.0
    }

    /// The identity as thirty-two lower-case hexadecimal digits.
    pub fn to_text(&self) -> (r: String)
        ensures
            r@ == hex_text(self@),
    {
        let mut out = String::new();
        append_hex(&mut out, self.0.as_slice());
        assert(out@ =~= hex_text(self@));
        out
    }

    /// Reads an identity from thirty-two hexadecimal digits.
    pub fn from_text(value: &str) -> (r: Result<Self, ReadingError>)
        ensures
            match r {
                Ok(id) => hex_decoded(value@, 16) == Some(id@) && is_nonzero(id@),
                Err(error) => error == ReadingError::InvalidReadingId && !(hex_decoded(value@, 16)
                    is Some && is_nonzero(hex_decoded(value@, 16)->0)),
            },
    {
        match decode_hex(value, 16) {
            Some(decoded) => {
                let mut bytes: [u8; 16] = [0;16];
                let mut i: usize = 0;
                while i < 16
                    invariant
                        i <= 16,
                        decoded@.len() == 16,
                        forall|j: int| 0 <= j < i ==> #[trigger] bytes@[j] == decoded@[j],
                    decreases 16 - i,
                {
                    bytes[i] = decoded[i];
                    i = i + 1;
                }
                assert(bytes@ =~= decoded@);
                match ReadingId::new(bytes) {
                    Some(id) => Ok(id),
                    None => Err(ReadingError::InvalidReadingId),
                }
            },
            None => Err(ReadingError::InvalidReadingId),
        }
    }

    /// Whether two identities are the same.
    pub fn same(&self, other: &ReadingId) -> (r: bool)
        ensures
            r == (*self == *other),
            r == (self@ == other@),
    {
        proof {
            reading_id_is_its_bytes(*self, *other);
        }
        same_bytes(self.0.as_slice(), other.0.as_slice())
    }
}

/// Every identity reads back from the text it is written as.
pub proof fn reading_id_text_round_trip(id: ReadingId)
    ensures
        hex_decoded(hex_text(id@), 16) == Some(id@),
{
    broadcast use vstd::array::array_len_matches_n;

    assert(id.0@.len() == 16);
    crate::text::hex_round_trip(id@);
}

/// An entity of a reading. The kind is an open vocabulary: an unfamiliar kind is
/// kept as it is.
#[derive(Debug, PartialEq, Eq, PartialOrd, Ord, Hash)]
pub struct QualifiedEntityId {
    pub reading: ReadingId,
    pub kind: String,
    pub local_id: u64,
}

/// What identifies an entity.
pub struct EntityKey {
    pub reading: ReadingId,
    pub kind: Seq<char>,
    pub local_id: u64,
}

impl View for QualifiedEntityId {
    type V = EntityKey;

    open spec fn view(&self) -> EntityKey {
        EntityKey { reading: self.reading, kind: self.kind@, local_id: self.local_id }
    }
}

impl Clone for QualifiedEntityId {
    fn clone(&self) -> (r: Self)
        ensures
            r == *self,
    {
        QualifiedEntityId {
            reading: self.reading,
            kind: self.kind.clone(),
            local_id: self.local_id,
        }
    }
}

impl HasRank for EntityKey {
    open spec fn rank(&self) -> Seq<u64> {
        byte_rank(self.reading@) + text_rank(self.kind) + seq![self.local_id]
    }
}

impl HasRank for QualifiedEntityId {
    open spec fn rank(&self) -> Seq<u64> {
        self@.rank()
    }
}

impl Ranked for QualifiedEntityId {
    fn rank_key(&self) -> (r: Vec<u64>) {
        let mut key: Vec<u64> = Vec::new();
        let bytes = self.reading.bytes();
        append_byte_rank(&mut key, bytes.as_slice());
        append_text_rank(&mut key, self.kind.as_str());
        key.push(self.local_id);
        assert(key@ =~= self.rank());
        key
    }
}

impl QualifiedEntityId {
    /// An entity has a local number other than zero and a token as its kind.
    pub open spec fn is_valid(&self) -> bool {
        self.local_id != 0 && is_token(self.kind@)
    }

    /// The entity with these parts, if they are valid.
    pub fn new(reading: ReadingId, kind: String, local_id: u64) -> (r: Result<Self, ReadingError>)
        ensures
            ({
                let id = (QualifiedEntityId { reading, kind, local_id });
                r == if id.is_valid() {
                    Ok::<Self, ReadingError>(id)
                } else {
                    Err(ReadingError::InvalidQualifiedId(id))
                }
            }),
    {
        let value = QualifiedEntityId { reading, kind, local_id };
        if value.local_id == 0 || !valid_token(value.kind.as_str()) {
            return Err(ReadingError::InvalidQualifiedId(value));
        }
        Ok(value)
    }

    /// Refuses an entity without a local number or with a kind that is no token.
    pub fn validate(&self) -> (r: Result<(), ReadingError>)
        ensures
            r == if self.is_valid() {
                Ok::<(), ReadingError>(())
            } else {
                Err(ReadingError::InvalidQualifiedId(*self))
            },
    {
        if self.local_id == 0 || !valid_token(self.kind.as_str()) {
            return Err(ReadingError::InvalidQualifiedId(self.clone()));
        }
        Ok(())
    }

    /// Whether two entities are the same.
    pub fn same(&self, other: &QualifiedEntityId) -> (r: bool)
        ensures
            r == (self@ == other@),
    {
        self.reading.same(&other.reading) && self.local_id == other.local_id && same_text(
            self.kind.as_str(),
            other.kind.as_str(),
        )
    }
}

/// The keys of a list of entities.
pub open spec fn entity_keys(list: Seq<QualifiedEntityId>) -> Seq<EntityKey> {
    list.map_values(|id: QualifiedEntityId| id@)
}

/// Whether a list holds an entity.
pub fn holds_entity(list: &Vec<QualifiedEntityId>, id: &QualifiedEntityId) -> (r: bool)
    ensures
        r == entity_keys(list@).contains(id@),
{
    let mut i: usize = 0;
    while i < list.len()
        invariant
            i <= list.len(),
            forall|j: int| 0 <= j < i ==> (#[trigger] list@[j])@ != id@,
        decreases list.len() - i,
    {
        if list[i].same(id) {
            assert(entity_keys(list@)[i as int] == id@);
            return true;
        }
        i = i + 1;
    }
    assert forall|j: int| 0 <= j < entity_keys(list@).len() implies entity_keys(list@)[j] != id@ by {
        assert(entity_keys(list@)[j] == list@[j]@);
    }
    false
}

/// How a digest was made.
#[derive(Clone, Copy, Debug, PartialEq, Eq, PartialOrd, Ord, Hash, Structural)]
pub enum PortableDigestAlgorithm {
    Sha256,
    Blake3,
    StableNonCryptographic,
}

/// A content digest.
#[derive(Clone, Copy, Debug, PartialEq, Eq, PartialOrd, Ord, Hash)]
pub struct PortableDigest {
    pub algorithm: PortableDigestAlgorithm,
    pub bytes: [u8; 32],
}

impl PortableDigest {
    /// A digest is strong if its algorithm resists collisions.
    pub open spec fn strong(&self) -> bool {
        self.algorithm is Sha256 || self.algorithm is Blake3
    }

    /// Whether the digest resists collisions.
    pub fn is_strong(self) -> (r: bool)
        ensures
            r == self.strong(),
    {
        match self.algorithm {
            PortableDigestAlgorithm::Sha256 | PortableDigestAlgorithm::Blake3 => true,
            PortableDigestAlgorithm::StableNonCryptographic => false,
        }
    }

    /// Whether two digests are the same.
    pub fn same(&self, other: &PortableDigest) -> (r: bool)
        ensures
            r == (*self == *other),
    {
        let algorithms = self.algorithm == other.algorithm;
        let bytes = same_bytes(self.bytes.as_slice(), other.bytes.as_slice());
        proof {
            if bytes {
                assert(self.bytes =~= other.bytes) by {
                    assert forall|i: int| 0 <= i < 32 implies self.bytes[i] == other.bytes[i] by {
                        assert(self.bytes@[i] == other.bytes@[i]);
                    }
                }
            }
        }
        algorithms && bytes
    }
}

/// The rank of a digest algorithm: the order of its variants.
pub open spec fn algorithm_rank(algorithm: PortableDigestAlgorithm) -> u64 {
    match algorithm {
        PortableDigestAlgorithm::Sha256 => 0,
        PortableDigestAlgorithm::Blake3 => 1,
        PortableDigestAlgorithm::StableNonCryptographic => 2,
    }
}

impl HasRank for PortableDigest {
    open spec fn rank(&self) -> Seq<u64> {
        seq![algorithm_rank(self.algorithm)] + byte_rank(self.bytes@)
    }
}

impl Ranked for PortableDigest {
    fn rank_key(&self) -> (r: Vec<u64>) {
        let mut key: Vec<u64> = Vec::new();
        key.push(
            match self.algorithm {
                PortableDigestAlgorithm::Sha256 => 0,
                PortableDigestAlgorithm::Blake3 => 1,
                PortableDigestAlgorithm::StableNonCryptographic => 2,
            },
        );
        append_byte_rank(&mut key, self.bytes.as_slice());
        assert(key@ =~= self.rank());
        key
    }
}

/// Whether a list holds a digest.
pub fn holds_digest(list: &Vec<PortableDigest>, digest: &PortableDigest) -> (r: bool)
    ensures
        r == list@.contains(*digest),
{
    let mut i: usize = 0;
    while i < list.len()
        invariant
            i <= list.len(),
            forall|j: int| 0 <= j < i ==> list@[j] != *digest,
        decreases list.len() - i,
    {
        if list[i].same(digest) {
            assert(list@[i as int] == *digest);
            return true;
        }
        i = i + 1;
    }
    false
}

/// A copy of a list of digests.
pub fn copy_digests(list: &Vec<PortableDigest>) -> (r: Vec<PortableDigest>)
    ensures
        r@ == list@,
{
    let mut copy: Vec<PortableDigest> = Vec::new();
    let mut i: usize = 0;
    while i < list.len()
        invariant
            i <= list.len(),
            copy@ == list@.take(i as int),
        decreases list.len() - i,
    {
        copy.push(list[i]);
        assert(list@.take(i as int + 1) =~= list@.take(i as int).push(list@[i as int]));
        i = i + 1;
    }
    assert(list@.take(i as int) =~= list@);
    copy
}

/// Whether two lists hold the same digests in the same order.
pub fn same_digests(left: &Vec<PortableDigest>, right: &Vec<PortableDigest>) -> (r: bool)
    ensures
        r == (left@ == right@),
{
    if left.len() != right.len() {
        return false;
    }
    let mut i: usize = 0;
    while i < left.len()
        invariant
            i <= left.len(),
            left.len() == right.len(),
            forall|j: int| 0 <= j < i ==> left@[j] == right@[j],
        decreases left.len() - i,
    {
        if !left[i].same(&right[i]) {
            return false;
        }
        i = i + 1;
    }
    assert(left@ =~= right@);
    true
}

/// One version of a reading, pinned by the digest of its manifest.
#[derive(Clone, Copy, Debug, PartialEq, Eq)]
pub struct ReadingVersionRef {
    pub reading_id: ReadingId,
    pub revision: u64,
    pub manifest_digest: PortableDigest,
}

impl HasRank for ReadingVersionRef {
    open spec fn rank(&self) -> Seq<u64> {
        byte_rank(self.reading_id@) + seq![self.revision] + self.manifest_digest.rank()
    }
}

impl Ranked for ReadingVersionRef {
    fn rank_key(&self) -> (r: Vec<u64>) {
        let mut key: Vec<u64> = Vec::new();
        let bytes = self.reading_id.bytes();
        append_byte_rank(&mut key, bytes.as_slice());
        key.push(self.revision);
        let mut digest = self.manifest_digest.rank_key();
        key.append(&mut digest);
        assert(key@ =~= self.rank());
        key
    }
}

/// Who or what produced a record.
#[derive(Debug, PartialEq, Eq)]
pub enum ProducerDto {
    Human { name: Option<String> },
    Analyzer { name: String, version: String, configuration_digest: Option<String> },
    Importer { format: String, version: String },
}

impl Clone for ProducerDto {
    fn clone(&self) -> (r: Self)
        ensures
            r == *self,
    {
        match self {
            ProducerDto::Human { name } => ProducerDto::Human {
                name: crate::text::copy_optional_text(name),
            },
            ProducerDto::Analyzer { name, version, configuration_digest } => ProducerDto::Analyzer {
                name: name.clone(),
                version: version.clone(),
                configuration_digest: crate::text::copy_optional_text(configuration_digest),
            },
            ProducerDto::Importer { format, version } => ProducerDto::Importer {
                format: format.clone(),
                version: version.clone(),
            },
        }
    }
}

/// Where a record comes from.
#[derive(Debug, PartialEq, Eq)]
pub struct ProvenanceDto {
    pub producer: ProducerDto,
    pub created_unix_ms: Option<u64>,
    pub source_revision: Option<String>,
    pub note: Option<String>,
}

impl Clone for ProvenanceDto {
    fn clone(&self) -> (r: Self)
        ensures
            r == *self,
    {
        ProvenanceDto {
            producer: self.producer.clone(),
            created_unix_ms: self.created_unix_ms,
            source_revision: crate::text::copy_optional_text(&self.source_revision),
            note: crate::text::copy_optional_text(&self.note),
        }
    }
}

/// The decoded source that a reading speaks of.
#[derive(Debug, PartialEq, Eq)]
pub struct ReadingSource {
    /// Digests of containers of exactly the declared decoded source.
    pub fingerprints: Vec<PortableDigest>,
    pub sample_rate: u32,
    pub channels: u16,
    pub frame_count: u64,
    pub declared_title: Option<String>,
    pub extensions: Vec<JsonMember>,
}

/// What a source description holds.
pub struct SourceView {
    pub fingerprints: Seq<PortableDigest>,
    pub sample_rate: u32,
    pub channels: u16,
    pub frame_count: u64,
    pub declared_title: Option<Seq<char>>,
    pub extensions: Seq<(Seq<char>, Seq<char>)>,
}

impl SourceView {
    /// The description with the values that its extensions stand for.
    pub open spec fn value(self) -> SourceView {
        SourceView { extensions: member_values(self.extensions), ..self }
    }
}

impl View for ReadingSource {
    type V = SourceView;

    open spec fn view(&self) -> SourceView {
        SourceView {
            fingerprints: self.fingerprints@,
            sample_rate: self.sample_rate,
            channels: self.channels,
            frame_count: self.frame_count,
            declared_title: optional_text(self.declared_title),
            extensions: member_views(self.extensions@),
        }
    }
}

impl ReadingSource {
    /// Whether two source descriptions are the same.
    pub fn same(&self, other: &ReadingSource) -> (r: bool)
        ensures
            r == (self@.value() == other@.value()),
    {
        same_digests(&self.fingerprints, &other.fingerprints) && self.sample_rate
            == other.sample_rate && self.channels == other.channels && self.frame_count
            == other.frame_count && same_optional_text(&self.declared_title, &other.declared_title)
            && same_members(&self.extensions, &other.extensions)
    }

    /// What is wrong with a source description.
    pub open spec fn fault(&self) -> Option<ReadingError> {
        if self.fingerprints@.len() == 0 || exists|i: int|
            0 <= i < self.fingerprints@.len() && !(#[trigger] self.fingerprints@[i]).strong() {
            Some(ReadingError::WeakOrMissingSourceFingerprint)
        } else if self.sample_rate == 0 || self.channels == 0 || self.frame_count == 0 {
            Some(ReadingError::InvalidSourceFormat)
        } else {
            None
        }
    }
}

/// A section of a reading. Sections that are not understood keep their payload.
#[derive(Debug, PartialEq)]
pub struct ReadingSection {
    pub name: String,
    pub schema_major: u32,
    pub schema_minor: u32,
    pub payload: JsonPayload,
    pub extensions: Vec<JsonMember>,
}

/// What a section holds.
pub struct SectionView {
    pub name: Seq<char>,
    pub schema_major: u32,
    pub schema_minor: u32,
    pub payload: PayloadView,
    pub extensions: Seq<(Seq<char>, Seq<char>)>,
}

impl SectionView {
    /// The section with the values that its payload and its extensions stand for.
    pub open spec fn value(self) -> SectionView {
        SectionView {
            payload: self.payload.value(),
            extensions: member_values(self.extensions),
            ..self
        }
    }
}

impl View for ReadingSection {
    type V = SectionView;

    open spec fn view(&self) -> SectionView {
        SectionView {
            name: self.name@,
            schema_major: self.schema_major,
            schema_minor: self.schema_minor,
            payload: self.payload@,
            extensions: member_views(self.extensions@),
        }
    }
}

impl ReadingSection {
    /// A copy of the section.
    pub fn copy(&self) -> (r: ReadingSection)
        ensures
            r@ == self@,
    {
        ReadingSection {
            name: self.name.clone(),
            schema_major: self.schema_major,
            schema_minor: self.schema_minor,
            payload: self.payload.copy(),
            extensions: crate::json::copy_members(&self.extensions),
        }
    }

    /// Whether two sections are the same.
    pub fn same(&self, other: &ReadingSection) -> (r: bool)
        ensures
            r == (self@.value() == other@.value()),
    {
        same_text(self.name.as_str(), other.name.as_str()) && self.schema_major
            == other.schema_major && self.schema_minor == other.schema_minor && self.payload.same(
            &other.payload,
        ) && same_members(&self.extensions, &other.extensions)
    }
}

/// What a list of sections holds.
pub open spec fn section_views(sections: Seq<ReadingSection>) -> Seq<SectionView> {
    sections.map_values(|s: ReadingSection| s@)
}

impl HasRank for ReadingSection {
    open spec fn rank(&self) -> Seq<u64> {
        text_rank(self.name@)
    }
}

impl Ranked for ReadingSection {
    fn rank_key(&self) -> (r: Vec<u64>) {
        let mut key: Vec<u64> = Vec::new();
        append_text_rank(&mut key, self.name.as_str());
        assert(key@ =~= self.rank());
        key
    }
}

/// Derived audio, named by digest.
#[derive(Debug, PartialEq, Eq)]
pub struct ReadingAttachmentRef {
    pub digest: PortableDigest,
    pub media_type: String,
    pub role: String,
    pub provenance: ProvenanceDto,
    pub extensions: Vec<JsonMember>,
}

impl HasRank for ReadingAttachmentRef {
    open spec fn rank(&self) -> Seq<u64> {
        text_rank(self.role@) + text_rank(self.media_type@) + self.digest.rank()
    }
}

impl Ranked for ReadingAttachmentRef {
    fn rank_key(&self) -> (r: Vec<u64>) {
        let mut key: Vec<u64> = Vec::new();
        append_text_rank(&mut key, self.role.as_str());
        append_text_rank(&mut key, self.media_type.as_str());
        let mut digest = self.digest.rank_key();
        key.append(&mut digest);
        assert(key@ =~= self.rank());
        key
    }
}

/// The envelope of a reading.
#[derive(Debug, PartialEq)]
pub struct ReadingFile {
    pub format: String,
    pub version: u32,
    pub reading_id: ReadingId,
    pub revision: u64,
    pub parents: Vec<ReadingVersionRef>,
    pub author: ProvenanceDto,
    pub source: ReadingSource,
    pub sections: Vec<ReadingSection>,
    pub attachments: Vec<ReadingAttachmentRef>,
    pub extensions: Vec<JsonMember>,
}

/// What is wrong with the parents from index `i` on: the first that is not a
/// pinned version, or that names a version a second time.
pub open spec fn parents_fault(parents: Seq<ReadingVersionRef>, i: int) -> Option<ReadingError>
    decreases parents.len() - i,
{
    if i < 0 || i >= parents.len() {
        None
    } else if parents[i].revision == 0 || !parents[i].manifest_digest.strong() {
        Some(ReadingError::InvalidParent(parents[i]))
    } else if exists|j: int|
        0 <= j < i && (#[trigger] parents[j]).reading_id == parents[i].reading_id
            && parents[j].revision == parents[i].revision {
        Some(ReadingError::DuplicateParent(parents[i]))
    } else {
        parents_fault(parents, i + 1)
    }
}

/// What is wrong with the sections from index `i` on: the first without a token
/// as its name or without a schema, or that takes a name a second time.
pub open spec fn sections_fault(sections: Seq<ReadingSection>, i: int) -> Option<ReadingError>
    decreases sections.len() - i,
{
    if i < 0 || i >= sections.len() {
        None
    } else if !is_token(sections[i].name@) || sections[i].schema_major == 0 {
        Some(ReadingError::InvalidSection(sections[i].name))
    } else if exists|j: int| 0 <= j < i && (#[trigger] sections[j]).name@ == sections[i].name@ {
        Some(ReadingError::DuplicateSection(sections[i].name))
    } else {
        sections_fault(sections, i + 1)
    }
}

/// What is wrong with the attachments from index `i` on.
pub open spec fn attachments_fault(attachments: Seq<ReadingAttachmentRef>, i: int) -> Option<
    ReadingError,
>
    decreases attachments.len() - i,
{
    if i < 0 || i >= attachments.len() {
        None
    } else if !attachments[i].digest.strong() || is_blank(attachments[i].media_type@) || !is_token(
        attachments[i].role@,
    ) {
        Some(ReadingError::InvalidAttachment(attachments[i].role))
    } else {
        attachments_fault(attachments, i + 1)
    }
}

impl ReadingFile {
    /// The first thing that is wrong with the envelope.
    pub open spec fn fault(&self) -> Option<ReadingError> {
        if self.format@ != READING_FORMAT@ {
            Some(ReadingError::WrongFormat(self.format))
        } else if self.version != READING_FORMAT_VERSION {
            Some(ReadingError::UnsupportedVersion(self.version))
        } else if self.revision == 0 {
            Some(ReadingError::ZeroRevision)
        } else if self.source.fault() is Some {
            self.source.fault()
        } else if parents_fault(self.parents@, 0) is Some {
            parents_fault(self.parents@, 0)
        } else if sections_fault(self.sections@, 0) is Some {
            sections_fault(self.sections@, 0)
        } else {
            attachments_fault(self.attachments@, 0)
        }
    }

    /// Refuses an envelope with anything wrong, naming the first fault.
    pub fn validate(&self) -> (r: Result<(), ReadingError>)
        ensures
            r == match self.fault() {
                Some(error) => Err::<(), ReadingError>(error),
                None => Ok(()),
            },
    {
        if !same_text(self.format.as_str(), READING_FORMAT) {
            return Err(ReadingError::WrongFormat(self.format.clone()));
        }
        if self.version != READING_FORMAT_VERSION {
            return Err(ReadingError::UnsupportedVersion(self.version));
        }
        if self.revision == 0 {
            return Err(ReadingError::ZeroRevision);
        }
        match validate_source(&self.source) {
            Ok(()) => {},
            Err(error) => {
                return Err(error);
            },
        }
        match validate_parents(&self.parents) {
            Ok(()) => {},
            Err(error) => {
                return Err(error);
            },
        }
        match validate_sections(&self.sections) {
            Ok(()) => {},
            Err(error) => {
                return Err(error);
            },
        }
        validate_attachments(&self.attachments)
    }

    /// What a check of the local source finds: nothing to compare with, a match,
    /// or the first way in which it differs.
    pub open spec fn source_check(&self, local: Option<LocalSourceDescriptor>) -> Result<
        VerificationTier,
        RefusalView,
    > {
        match local {
            None => Ok(VerificationTier::GraphOnly),
            Some(local) => if self.source.sample_rate != local.sample_rate {
                Err(
                    RefusalView::SampleRate {
                        expected: self.source.sample_rate,
                        actual: local.sample_rate,
                    },
                )
            } else if self.source.channels != local.channels {
                Err(
                    RefusalView::Channels {
                        expected: self.source.channels,
                        actual: local.channels,
                    },
                )
            } else if self.source.frame_count != local.frame_count {
                Err(
                    RefusalView::FrameCount {
                        expected: self.source.frame_count,
                        actual: local.frame_count,
                        delta: (local.frame_count - self.source.frame_count) as i128,
                    },
                )
            } else if !local.digest.strong() {
                Err(RefusalView::WeakLocalFingerprint)
            } else if !self.source.fingerprints@.contains(local.digest) {
                Err(
                    RefusalView::FingerprintMismatch {
                        expected: self.source.fingerprints@,
                        actual: local.digest,
                    },
                )
            } else {
                Ok(VerificationTier::SourceMatched)
            },
        }
    }

    /// Without audio a reading is a graph only. A source matches by exact digest
    /// and decoded format. Anything else is a refusal, never a warning.
    pub fn verify_source(&self, local: Option<&LocalSourceDescriptor>) -> (r: Result<
        VerificationTier,
        ReadingVerificationRefusal,
    >)
        ensures
            verification_view(r) == self.source_check(
                match local {
                    Some(l) => Some(*l),
                    None => None,
                },
            ),
    {
        let local = match local {
            None => {
                return Ok(VerificationTier::GraphOnly);
            },
            Some(local) => local,
        };
        if self.source.sample_rate != local.sample_rate {
            return Err(
                ReadingVerificationRefusal::SampleRate {
                    expected: self.source.sample_rate,
                    actual: local.sample_rate,
                },
            );
        }
        if self.source.channels != local.channels {
            return Err(
                ReadingVerificationRefusal::Channels {
                    expected: self.source.channels,
                    actual: local.channels,
                },
            );
        }
        if self.source.frame_count != local.frame_count {
            return Err(
                ReadingVerificationRefusal::FrameCount {
                    expected: self.source.frame_count,
                    actual: local.frame_count,
                    delta: local.frame_count as i128 - self.source.frame_count as i128,
                },
            );
        }
        if !local.digest.is_strong() {
            return Err(ReadingVerificationRefusal::WeakLocalFingerprint);
        }
        if !holds_digest(&self.source.fingerprints, &local.digest) {
            return Err(
                ReadingVerificationRefusal::FingerprintMismatch {
                    expected: copy_digests(&self.source.fingerprints),
                    actual: local.digest,
                },
            );
        }
        Ok(VerificationTier::SourceMatched)
    }

    /// Whether this is another envelope with every list in canonical order: parents
    /// by version and digest, fingerprints by digest, sections by name, attachments
    /// by role, media type and digest.
    pub open spec fn is_canonical_form_of(self, other: ReadingFile) -> bool {
        &&& self.format == other.format
        &&& self.version == other.version
        &&& self.reading_id == other.reading_id
        &&& self.revision == other.revision
        &&& self.parents@ == ranked(other.parents@)
        &&& self.author == other.author
        &&& self.source.fingerprints@ == ranked(other.source.fingerprints@)
        &&& self.source.sample_rate == other.source.sample_rate
        &&& self.source.channels == other.source.channels
        &&& self.source.frame_count == other.source.frame_count
        &&& self.source.declared_title == other.source.declared_title
        &&& self.source.extensions == other.source.extensions
        &&& self.sections@ == ranked(other.sections@)
        &&& self.attachments@ == ranked(other.attachments@)
        &&& self.extensions == other.extensions
    }

    /// The envelope with every list in canonical order.
    pub fn canonical(self) -> (r: ReadingFile)
        ensures
            r.is_canonical_form_of(self),
    {
        ReadingFile {
            format: self.format,
            version: self.version,
            reading_id: self.reading_id,
            revision: self.revision,
            parents: sort_by_rank(self.parents),
            author: self.author,
            source: ReadingSource {
                fingerprints: sort_by_rank(self.source.fingerprints),
                sample_rate: self.source.sample_rate,
                channels: self.source.channels,
                frame_count: self.source.frame_count,
                declared_title: self.source.declared_title,
                extensions: self.source.extensions,
            },
            sections: sort_by_rank(self.sections),
            attachments: sort_by_rank(self.attachments),
            extensions: self.extensions,
        }
    }
}

/// An envelope in canonical form stays as it is.
pub proof fn a_canonical_form_is_canonical(form: ReadingFile, file: ReadingFile)
    requires
        form.is_canonical_form_of(file),
    ensures
        form.is_canonical_form_of(form),
{
    ranked_is_an_ordering(file.parents@);
    ranked_is_an_ordering(file.source.fingerprints@);
    ranked_is_an_ordering(file.sections@);
    ranked_is_an_ordering(file.attachments@);
    ranking_again_changes_nothing(form.parents@);
    ranking_again_changes_nothing(form.source.fingerprints@);
    ranking_again_changes_nothing(form.sections@);
    ranking_again_changes_nothing(form.attachments@);
}

proof fn lemma_digest_rank(a: PortableDigest, b: PortableDigest)
    requires
        a.rank() == b.rank(),
    ensures
        a == b,
{
    assert(a.rank()[0] == algorithm_rank(a.algorithm));
    assert(b.rank()[0] == algorithm_rank(b.algorithm));
    assert(a.rank().skip(1) =~= byte_rank(a.bytes@));
    assert(b.rank().skip(1) =~= byte_rank(b.bytes@));
    byte_rank_tells_apart(a.bytes@, b.bytes@);
    assert(a.bytes =~= b.bytes) by {
        assert forall|i: int| 0 <= i < 32 implies a.bytes[i] == b.bytes[i] by {
            assert(a.bytes@[i] == b.bytes@[i]);
        }
    }
}

proof fn lemma_version_rank(a: ReadingVersionRef, b: ReadingVersionRef)
    requires
        a.rank() == b.rank(),
    ensures
        a == b,
{
    assert(a.reading_id@.len() == 16 && b.reading_id@.len() == 16);
    assert(byte_rank(a.reading_id@).len() == 16 && byte_rank(b.reading_id@).len() == 16);
    assert(a.rank().take(16) =~= byte_rank(a.reading_id@));
    assert(b.rank().take(16) =~= byte_rank(b.reading_id@));
    byte_rank_tells_apart(a.reading_id@, b.reading_id@);
    reading_id_is_its_bytes(a.reading_id, b.reading_id);
    assert(a.rank()[16] == a.revision);
    assert(b.rank()[16] == b.revision);
    assert(a.rank().skip(17) =~= a.manifest_digest.rank());
    assert(b.rank().skip(17) =~= b.manifest_digest.rank());
    lemma_digest_rank(a.manifest_digest, b.manifest_digest);
}

proof fn lemma_valid_ranks(file: ReadingFile)
    requires
        file.fault() is None,
    ensures
        ranks_tell_apart(file.parents@),
        ranks_tell_apart(file.source.fingerprints@),
        ranks_tell_apart(file.sections@),
{
    let parents = file.parents@;
    assert forall|a: ReadingVersionRef, b: ReadingVersionRef|
        #![trigger parents.contains(a), parents.contains(b)]
        parents.contains(a) && parents.contains(b) && a.rank() == b.rank() implies a == b by {
        lemma_version_rank(a, b);
    }
    let prints = file.source.fingerprints@;
    assert forall|a: PortableDigest, b: PortableDigest|
        #![trigger prints.contains(a), prints.contains(b)]
        prints.contains(a) && prints.contains(b) && a.rank() == b.rank() implies a == b by {
        lemma_digest_rank(a, b);
    }
    let sections = file.sections@;
    assert forall|a: ReadingSection, b: ReadingSection|
        #![trigger sections.contains(a), sections.contains(b)]
        sections.contains(a) && sections.contains(b) && a.rank() == b.rank() implies a == b by {
        text_rank_tells_apart(a.name@, b.name@);
        let i = choose|i: int| 0 <= i < sections.len() && sections[i] == a;
        let j = choose|j: int| 0 <= j < sections.len() && sections[j] == b;
        if i < j {
            valid_sections_have_distinct_names(sections, i, j);
        } else if j < i {
            valid_sections_have_distinct_names(sections, j, i);
        }
    }
}

/// Two valid envelopes that differ only in the order of their lists have the same
/// canonical form, where no two attachments share a role, a media type and a digest.
pub proof fn canonical_forms_ignore_order(left: ReadingFile, right: ReadingFile, form: ReadingFile)
    requires
        left.fault() is None,
        ranks_tell_apart(left.attachments@),
        left.parents@.to_multiset() == right.parents@.to_multiset(),
        left.source.fingerprints@.to_multiset() == right.source.fingerprints@.to_multiset(),
        left.sections@.to_multiset() == right.sections@.to_multiset(),
        left.attachments@.to_multiset() == right.attachments@.to_multiset(),
        right == (ReadingFile {
            parents: right.parents,
            source: ReadingSource { fingerprints: right.source.fingerprints, ..left.source },
            sections: right.sections,
            attachments: right.attachments,
            ..left
        }),
        form.is_canonical_form_of(left),
    ensures
        form.is_canonical_form_of(right),
{
    lemma_valid_ranks(left);
    ranking_ignores_order(left.parents@, right.parents@);
    ranking_ignores_order(left.source.fingerprints@, right.source.fingerprints@);
    ranking_ignores_order(left.sections@, right.sections@);
    ranking_ignores_order(left.attachments@, right.attachments@);
}

fn validate_source(source: &ReadingSource) -> (r: Result<(), ReadingError>)
    ensures
        r == match source.fault() {
            Some(error) => Err::<(), ReadingError>(error),
            None => Ok(()),
        },
{
    if source.fingerprints.len() == 0 {
        return Err(ReadingError::WeakOrMissingSourceFingerprint);
    }
    let mut i: usize = 0;
    while i < source.fingerprints.len()
        invariant
            i <= source.fingerprints.len(),
            source.fingerprints@.len() > 0,
            forall|j: int| 0 <= j < i ==> (#[trigger] source.fingerprints@[j]).strong(),
        decreases source.fingerprints.len() - i,
    {
        if !source.fingerprints[i].is_strong() {
            assert(!source.fingerprints@[i as int].strong());
            return Err(ReadingError::WeakOrMissingSourceFingerprint);
        }
        i = i + 1;
    }
    if source.sample_rate == 0 || source.channels == 0 || source.frame_count == 0 {
        return Err(ReadingError::InvalidSourceFormat);
    }
    Ok(())
}

fn validate_parents(parents: &Vec<ReadingVersionRef>) -> (r: Result<(), ReadingError>)
    ensures
        r == match parents_fault(parents@, 0) {
            Some(error) => Err::<(), ReadingError>(error),
            None => Ok(()),
        },
{
    let mut i: usize = 0;
    while i < parents.len()
        invariant
            i <= parents.len(),
            parents_fault(parents@, 0) == parents_fault(parents@, i as int),
        decreases parents.len() - i,
    {
        let parent = parents[i];
        if parent.revision == 0 || !parent.manifest_digest.is_strong() {
            return Err(ReadingError::InvalidParent(parent));
        }
        let mut j: usize = 0;
        while j < i
            invariant
                j <= i < parents.len(),
                parent == parents@[i as int],
                parents_fault(parents@, 0) == parents_fault(parents@, i as int),
                parent.revision != 0 && parent.manifest_digest.strong(),
                forall|k: int|
                    0 <= k < j ==> !((#[trigger] parents@[k]).reading_id == parent.reading_id
                        && parents@[k].revision == parent.revision),
            decreases i - j,
        {
            if parents[j].reading_id.same(&parent.reading_id) && parents[j].revision
                == parent.revision {
                assert(parents@[j as int].reading_id == parents@[i as int].reading_id);
                return Err(ReadingError::DuplicateParent(parent));
            }
            j = j + 1;
        }
        i = i + 1;
    }
    Ok(())
}

fn validate_sections(sections: &Vec<ReadingSection>) -> (r: Result<(), ReadingError>)
    ensures
        r == match sections_fault(sections@, 0) {
            Some(error) => Err::<(), ReadingError>(error),
            None => Ok(()),
        },
{
    let mut i: usize = 0;
    while i < sections.len()
        invariant
            i <= sections.len(),
            sections_fault(sections@, 0) == sections_fault(sections@, i as int),
        decreases sections.len() - i,
    {
        let section = &sections[i];
        if !valid_token(section.name.as_str()) || section.schema_major == 0 {
            return Err(ReadingError::InvalidSection(section.name.clone()));
        }
        let mut j: usize = 0;
        while j < i
            invariant
                j <= i < sections.len(),
                *section == sections@[i as int],
                sections_fault(sections@, 0) == sections_fault(sections@, i as int),
                is_token(section.name@) && section.schema_major != 0,
                forall|k: int| 0 <= k < j ==> (#[trigger] sections@[k]).name@ != section.name@,
            decreases i - j,
        {
            if same_text(sections[j].name.as_str(), section.name.as_str()) {
                assert(sections@[j as int].name@ == sections@[i as int].name@);
                return Err(ReadingError::DuplicateSection(section.name.clone()));
            }
            j = j + 1;
        }
        i = i + 1;
    }
    Ok(())
}

fn validate_attachments(attachments: &Vec<ReadingAttachmentRef>) -> (r: Result<(), ReadingError>)
    ensures
        r == match attachments_fault(attachments@, 0) {
            Some(error) => Err::<(), ReadingError>(error),
            None => Ok(()),
        },
{
    let mut i: usize = 0;
    while i < attachments.len()
        invariant
            i <= attachments.len(),
            attachments_fault(attachments@, 0) == attachments_fault(attachments@, i as int),
        decreases attachments.len() - i,
    {
        let attachment = &attachments[i];
        if !attachment.digest.is_strong() || blank(attachment.media_type.as_str()) || !valid_token(
            attachment.role.as_str(),
        ) {
            return Err(ReadingError::InvalidAttachment(attachment.role.clone()));
        }
        i = i + 1;
    }
    Ok(())
}

/// The names of the sections of an envelope without faults are all different.
pub proof fn valid_sections_have_distinct_names(sections: Seq<ReadingSection>, a: int, b: int)
    requires
        sections_fault(sections, 0) is None,
        0 <= a < b < sections.len(),
    ensures
        sections[a].name@ != sections[b].name@,
        is_token(sections[b].name@),
        sections[b].schema_major != 0,
{
    lemma_sections_fault_at(sections, 0, b);
}

proof fn lemma_sections_fault_at(sections: Seq<ReadingSection>, i: int, b: int)
    requires
        sections_fault(sections, i) is None,
        0 <= i <= b < sections.len(),
    ensures
        is_token(sections[b].name@),
        sections[b].schema_major != 0,
        forall|j: int| 0 <= j < b ==> (#[trigger] sections[j]).name@ != sections[b].name@,
    decreases b - i,
{
    if i < b {
        lemma_sections_fault_at(sections, i + 1, b);
    }
}

/// A local copy of source material.
#[derive(Clone, Copy, Debug, PartialEq, Eq)]
pub struct LocalSourceDescriptor {
    pub digest: PortableDigest,
    pub sample_rate: u32,
    pub channels: u16,
    pub frame_count: u64,
}

/// How far a reading has been verified.
#[derive(Clone, Copy, Debug, PartialEq, Eq, Structural)]
pub enum VerificationTier {
    /// Claims and recipes can be inspected; nothing can be auditioned.
    GraphOnly,
    /// Source identity and decoded geometry match exactly.
    SourceMatched,
    /// Every declared verification record was run again with success.
    Replicated,
}

/// The outcome of one repeated verification record.
#[derive(Debug, PartialEq, Eq)]
pub struct ReplicationCheck {
    pub subject: QualifiedEntityId,
    pub matches: bool,
}

/// The first check from index `i` on that does not match.
pub open spec fn first_mismatch(checks: Seq<ReplicationCheck>, i: int) -> Option<QualifiedEntityId>
    decreases checks.len() - i,
{
    if i < 0 || i >= checks.len() {
        None
    } else if !checks[i].matches {
        Some(checks[i].subject)
    } else {
        first_mismatch(checks, i + 1)
    }
}

/// The tier of a reading whose checks were run again: it needs a matched source, and all
/// of one or more checks to match.
pub open spec fn replicated(source_tier: VerificationTier, checks: Seq<ReplicationCheck>) -> Result<
    VerificationTier,
    ReadingVerificationRefusal,
> {
    if source_tier != VerificationTier::SourceMatched {
        Err(ReadingVerificationRefusal::SourceNotMatched)
    } else if checks.len() == 0 {
        Err(ReadingVerificationRefusal::NoReplicationChecks)
    } else {
        match first_mismatch(checks, 0) {
            Some(subject) => Err(ReadingVerificationRefusal::ReplicationMismatch(subject)),
            None => Ok(VerificationTier::Replicated),
        }
    }
}

/// A matched source becomes replicated when there are checks and all of them
/// match.
pub fn replication_tier(source_tier: VerificationTier, checks: &Vec<ReplicationCheck>) -> (r:
    Result<VerificationTier, ReadingVerificationRefusal>)
    ensures
        r == replicated(source_tier, checks@),
{
    if source_tier != VerificationTier::SourceMatched {
        return Err(ReadingVerificationRefusal::SourceNotMatched);
    }
    if checks.len() == 0 {
        return Err(ReadingVerificationRefusal::NoReplicationChecks);
    }
    let mut i: usize = 0;
    while i < checks.len()
        invariant
            i <= checks.len(),
            checks@.len() > 0,
            source_tier == VerificationTier::SourceMatched,
            first_mismatch(checks@, 0) == first_mismatch(checks@, i as int),
        decreases checks.len() - i,
    {
        if !checks[i].matches {
            return Err(ReadingVerificationRefusal::ReplicationMismatch(checks[i].subject.clone()));
        }
        i = i + 1;
    }
    Ok(VerificationTier::Replicated)
}

/// Why a source or a replication was refused.
#[derive(Debug, PartialEq, Eq)]
pub enum ReadingVerificationRefusal {
    WeakLocalFingerprint,
    FingerprintMismatch { expected: Vec<PortableDigest>, actual: PortableDigest },
    SampleRate { expected: u32, actual: u32 },
    Channels { expected: u16, actual: u16 },
    FrameCount { expected: u64, actual: u64, delta: i128 },
    SourceNotMatched,
    NoReplicationChecks,
    ReplicationMismatch(QualifiedEntityId),
}

/// What a refusal says.
pub enum RefusalView {
    WeakLocalFingerprint,
    FingerprintMismatch { expected: Seq<PortableDigest>, actual: PortableDigest },
    SampleRate { expected: u32, actual: u32 },
    Channels { expected: u16, actual: u16 },
    FrameCount { expected: u64, actual: u64, delta: i128 },
    SourceNotMatched,
    NoReplicationChecks,
    ReplicationMismatch(EntityKey),
}

impl View for ReadingVerificationRefusal {
    type V = RefusalView;

    open spec fn view(&self) -> RefusalView {
        match *self {
            ReadingVerificationRefusal::WeakLocalFingerprint => RefusalView::WeakLocalFingerprint,
            ReadingVerificationRefusal::FingerprintMismatch {
                expected,
                actual,
            } => RefusalView::FingerprintMismatch { expected: expected@, actual },
            ReadingVerificationRefusal::SampleRate { expected, actual } => RefusalView::SampleRate {
                expected,
                actual,
            },
            ReadingVerificationRefusal::Channels { expected, actual } => RefusalView::Channels {
                expected,
                actual,
            },
            ReadingVerificationRefusal::FrameCount {
                expected,
                actual,
                delta,
            } => RefusalView::FrameCount { expected, actual, delta },
            ReadingVerificationRefusal::SourceNotMatched => RefusalView::SourceNotMatched,
            ReadingVerificationRefusal::NoReplicationChecks => RefusalView::NoReplicationChecks,
            ReadingVerificationRefusal::ReplicationMismatch(
                subject,
            ) => RefusalView::ReplicationMismatch(subject@),
        }
    }
}

/// What the outcome of a verification says.
pub open spec fn verification_view(
    outcome: Result<VerificationTier, ReadingVerificationRefusal>,
) -> Result<VerificationTier, RefusalView> {
    match outcome {
        Ok(tier) => Ok(tier),
        Err(refusal) => Err(refusal@),
    }
}

/// A source can be matched only where it was supplied, and a supplied source
/// never leaves a reading at the graph.
pub proof fn a_supplied_source_matches_or_is_refused(
    file: ReadingFile,
    local: LocalSourceDescriptor,
)
    ensures
        file.source_check(None) == Ok::<VerificationTier, RefusalView>(VerificationTier::GraphOnly),
        file.source_check(Some(local)) is Ok <==> {
            &&& file.source.sample_rate == local.sample_rate
            &&& file.source.channels == local.channels
            &&& file.source.frame_count == local.frame_count
            &&& local.digest.strong()
            &&& file.source.fingerprints@.contains(local.digest)
        },
        file.source_check(Some(local)) matches Ok(tier) ==> tier == VerificationTier::SourceMatched,
{
}

/// Why an envelope was refused.
#[derive(Debug, PartialEq)]
pub enum ReadingError {
    InvalidReadingId,
    InvalidQualifiedId(QualifiedEntityId),
    WrongFormat(String),
    UnsupportedVersion(u32),
    ZeroRevision,
    WeakOrMissingSourceFingerprint,
    InvalidSourceFormat,
    InvalidParent(ReadingVersionRef),
    DuplicateParent(ReadingVersionRef),
    InvalidSection(String),
    DuplicateSection(String),
    InvalidAttachment(String),
}

} // verus!
