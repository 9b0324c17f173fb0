//! References to entities, and the time-frequency geometry that they cover.
//!
//! Frequencies are kept as the bit patterns of IEEE single-precision numbers,
//! so that geometry has an exact identity. Order between them is the order of
//! the numbers.

use vstd::arithmetic::power2::{lemma_pow2_pos, lemma_pow2_strictly_increases, lemma_pow2_unfold, pow2};
use vstd::prelude::*;

use crate::rank::{append_byte_rank, append_text_rank, byte_rank, text_rank, HasRank, Ranked};
use crate::reading::{EntityKey, QualifiedEntityId, ReadingError, ReadingId};
use crate::text::{is_token, same_text, valid_token};

verus! {

/// The magnitude part of a single-precision bit pattern.
pub open spec fn magnitude(bits: u32) -> u32 {
    bits % 0x8000_0000
}

/// A bit pattern that stands for a finite number.
pub open spec fn is_finite(bits: u32) -> bool {
    magnitude(bits) < 0x7f80_0000
}

/// A bit pattern that stands for no number.
pub open spec fn is_nan(bits: u32) -> bool {
    magnitude(bits) > 0x7f80_0000
}

/// A number that is ordered as the number behind the bit pattern.
pub open spec fn order_key(bits: u32) -> int {
    if bits >= 0x8000_0000 {
        -(magnitude(bits) as int)
    } else {
        magnitude(bits) as int
    }
}

/// Whether the first number is less than the second.
pub open spec fn number_lt(a: u32, b: u32) -> bool {
    !is_nan(a) && !is_nan(b) && order_key(a) < order_key(b)
}

/// Whether two bit patterns stand for the same number.
pub open spec fn number_eq(a: u32, b: u32) -> bool {
    !is_nan(a) && !is_nan(b) && order_key(a) == order_key(b)
}

/// A finite number from zero to one.
pub open spec fn is_unit_interval(bits: u32) -> bool {
    is_finite(bits) && 0 <= order_key(bits) <= 0x3f80_0000
}

pub(crate) fn finite(bits: u32) -> (r: bool)
    ensures
        r == is_finite(bits),
{
    bits % 0x8000_0000 < 0x7f80_0000
}

pub(crate) fn key_of(bits: u32) -> (r: i64)
    ensures
        r == order_key(bits),
{
    let size: i64 = (bits % 0x8000_0000) as i64;
    if bits >= 0x8000_0000 {
        -size
    } else {
        size
    }
}

/// Whether the first number is less than the second.
pub fn number_before(a: u32, b: u32) -> (r: bool)
    ensures
        r == number_lt(a, b),
{
    a % 0x8000_0000 <= 0x7f80_0000 && b % 0x8000_0000 <= 0x7f80_0000 && key_of(a) < key_of(b)
}

/// Whether two bit patterns stand for the same number.
pub fn same_number(a: u32, b: u32) -> (r: bool)
    ensures
        r == number_eq(a, b),
{
    a % 0x8000_0000 <= 0x7f80_0000 && b % 0x8000_0000 <= 0x7f80_0000 && key_of(a) == key_of(b)
}

/// Whether a bit pattern stands for a finite number from zero to one.
pub fn in_unit_interval(bits: u32) -> (r: bool)
    ensures
        r == is_unit_interval(bits),
{
    finite(bits) && key_of(bits) >= 0 && key_of(bits) <= 0x3f80_0000
}

/// The number behind a finite bit pattern, in units of the least positive one: a sign, an
/// exponent of eight bits and a fraction of 23 bits below a leading one, which a zero
/// exponent goes without.
pub open spec fn units(bits: u32) -> int {
    let exponent = (bits / 0x80_0000) % 0x100;
    let fraction = bits % 0x80_0000;
    let size: int = if exponent == 0 {
        fraction as int
    } else {
        (0x80_0000 + fraction) * pow2((exponent - 1) as nat)
    };
    if bits < 0x8000_0000 {
        size
    } else {
        -size
    }
}

proof fn lemma_units_grow(a: u32, b: u32)
    requires
        a < b < 0x7f80_0000,
    ensures
        0 <= units(a) < units(b),
{
    let e = a / 0x80_0000;
    let f = b / 0x80_0000;
    let x = (0x80_0000 + a % 0x80_0000) as int;
    let y = (0x80_0000 + b % 0x80_0000) as int;
    assert(e % 0x100 == e && f % 0x100 == f);
    if f > 0 {
        let q = pow2((f - 1) as nat) as int;
        lemma_pow2_pos((f - 1) as nat);
        assert(y * q >= 0x80_0000 * q && 0x80_0000 * q >= 0x80_0000) by (nonlinear_arith)
            requires
                y >= 0x80_0000,
                q >= 1,
        ;
        if e > 0 {
            let p = pow2((e - 1) as nat) as int;
            lemma_pow2_pos((e - 1) as nat);
            assert(x * p >= 0) by (nonlinear_arith)
                requires
                    x >= 0,
                    p >= 0,
            ;
            if e == f {
                assert(x * p < y * p) by (nonlinear_arith)
                    requires
                        x < y,
                        p >= 1,
                ;
            } else {
                lemma_pow2_unfold(e as nat);
                if e < f - 1 {
                    lemma_pow2_strictly_increases(e as nat, (f - 1) as nat);
                }
                assert(2 * p <= q);
                assert(x * p < 0x80_0000 * (2 * p)) by (nonlinear_arith)
                    requires
                        x < 0x100_0000,
                        p >= 1,
                ;
            }
        }
    }
}

/// Finite bit patterns are ordered as the numbers behind them: two that are not negative
/// as their bits, two negative ones the other way round, and a negative number below all
/// that are not. Only the two zeros stand for the same number.
pub proof fn bit_patterns_are_ordered_as_numbers(a: u32, b: u32)
    requires
        is_finite(a),
        is_finite(b),
    ensures
        number_lt(a, b) <==> units(a) < units(b),
        number_eq(a, b) <==> units(a) == units(b),
        order_key(a) < order_key(b) <==> units(a) < units(b),
        order_key(a) == order_key(b) <==> units(a) == units(b),
        a < 0x8000_0000 && b < 0x8000_0000 ==> (order_key(a) < order_key(b) <==> a < b),
        a >= 0x8000_0000 && b >= 0x8000_0000 ==> (order_key(a) < order_key(b) <==> a > b),
        a > 0x8000_0000 && b < 0x8000_0000 ==> order_key(a) < order_key(b),
        order_key(a) == order_key(b) ==> a == b || a % 0x8000_0000 == 0 && b % 0x8000_0000 == 0,
{
    let x = (a % 0x8000_0000) as u32;
    let y = (b % 0x8000_0000) as u32;
    assert((a / 0x80_0000) % 0x100 == x / 0x80_0000 && a % 0x80_0000 == x % 0x80_0000);
    assert((b / 0x80_0000) % 0x100 == y / 0x80_0000 && b % 0x80_0000 == y % 0x80_0000);
    if x < y {
        lemma_units_grow(x, y);
    } else if y < x {
        lemma_units_grow(y, x);
    }
    if x > 0 {
        lemma_units_grow(0, x);
    }
    if y > 0 {
        lemma_units_grow(0, y);
    }
}

/// A bit pattern is a finite number unless all bits of its exponent are set. Where they
/// are, it is no number if a bit of its fraction is set.
pub proof fn exponents_tell_numbers(bits: u32)
    ensures
        is_finite(bits) <==> (bits / 0x80_0000) % 0x100 != 0xff,
        is_nan(bits) <==> (bits / 0x80_0000) % 0x100 == 0xff && bits % 0x80_0000 != 0,
{
}

/// The unit interval holds the finite numbers from zero to one.
pub proof fn the_unit_interval_ends_at_one(bits: u32)
    ensures
        is_unit_interval(bits) <==> (bits / 0x80_0000) % 0x100 != 0xff && 0 <= units(bits)
            <= pow2(149),
{
    exponents_tell_numbers(bits);
    lemma_pow2_unfold(150);
    if is_finite(bits) {
        bit_patterns_are_ordered_as_numbers(bits, 0x3f80_0000);
        bit_patterns_are_ordered_as_numbers(0, bits);
        assert(units(0) == 0);
        vstd::arithmetic::power2::lemma_pow2_adds(23, 126);
        assert(pow2(23) == 0x80_0000) by {
            vstd::arithmetic::power2::lemma2_to64();
        }
        assert(units(0x3f80_0000) == 0x80_0000 * pow2(126));
    }
}

/// Regions overlap where they share a frame, a channel and a number between their bounds:
/// either way round, and never where one ends before the other begins.
pub proof fn overlaps_are_shared(left: RegionDto, right: RegionDto)
    requires
        is_finite(left.min_hz_bits) && is_finite(left.max_hz_bits),
        is_finite(right.min_hz_bits) && is_finite(right.max_hz_bits),
    ensures
        left.overlaps(right) == right.overlaps(left),
        left.overlaps(right) <==> left.start_frame < right.end_frame && right.start_frame
            < left.end_frame && units(left.min_hz_bits) < units(right.max_hz_bits) && units(
            right.min_hz_bits,
        ) < units(left.max_hz_bits) && right.channels & left.channels != 0,
{
    bit_patterns_are_ordered_as_numbers(left.min_hz_bits, right.max_hz_bits);
    bit_patterns_are_ordered_as_numbers(right.min_hz_bits, left.max_hz_bits);
    let a = left.channels;
    let b = right.channels;
    assert(a & b == b & a) by (bit_vector);
}

/// A region of a source: frames, a frequency band and a set of channels.
#[derive(Clone, Copy, Debug, PartialEq, Eq, Structural)]
pub struct RegionDto {
    pub start_frame: i64,
    pub end_frame: i64,
    pub min_hz_bits: u32,
    pub max_hz_bits: u32,
    pub channels: u16,
}

impl RegionDto {
    /// A region covers at least one frame and a finite band above nothing.
    pub open spec fn is_valid(&self) -> bool {
        &&& self.start_frame < self.end_frame
        &&& is_finite(self.min_hz_bits)
        &&& is_finite(self.max_hz_bits)
        &&& order_key(self.min_hz_bits) >= 0
        &&& number_lt(self.min_hz_bits, self.max_hz_bits)
    }

    /// Whether the region is valid.
    pub fn valid(&self) -> (r: bool)
        ensures
            r == self.is_valid(),
    {
        self.start_frame < self.end_frame && finite(self.min_hz_bits) && finite(self.max_hz_bits)
            && key_of(self.min_hz_bits) >= 0 && number_before(self.min_hz_bits, self.max_hz_bits)
    }

    /// Two regions overlap in time, in frequency and in a channel.
    pub open spec fn overlaps(self, other: RegionDto) -> bool {
        &&& self.start_frame < other.end_frame
        &&& other.start_frame < self.end_frame
        &&& number_lt(self.min_hz_bits, other.max_hz_bits)
        &&& number_lt(other.min_hz_bits, self.max_hz_bits)
        &&& self.channels & other.channels != 0
    }

    /// Whether two regions overlap.
    pub fn overlap(&self, other: &RegionDto) -> (r: bool)
        ensures
            r == self.overlaps(*other),
    {
        self.start_frame < other.end_frame && other.start_frame < self.end_frame && number_before(
            self.min_hz_bits,
            other.max_hz_bits,
        ) && number_before(other.min_hz_bits, self.max_hz_bits) && self.channels & other.channels
            != 0
    }
}

/// A reference to an entity: local to the project, or minted by a reading.
#[derive(Debug, PartialEq, Eq, PartialOrd, Ord)]
pub enum EntityRefDto {
    Project { kind: String, local_id: u64 },
    Reading(QualifiedEntityId),
}

/// What a reference names.
pub enum EntityRefKey {
    Project { kind: Seq<char>, local_id: u64 },
    Reading(EntityKey),
}

impl View for EntityRefDto {
    type V = EntityRefKey;

    open spec fn view(&self) -> EntityRefKey {
        match *self {
            EntityRefDto::Project { kind, local_id } => EntityRefKey::Project {
                kind: kind@,
                local_id,
            },
            EntityRefDto::Reading(id) => EntityRefKey::Reading(id@),
        }
    }
}

impl Clone for EntityRefDto {
    fn clone(&self) -> (r: Self)
        ensures
            r == *self,
    {
        match self {
            EntityRefDto::Project { kind, local_id } => EntityRefDto::Project {
                kind: kind.clone(),
                local_id: *local_id,
            },
            EntityRefDto::Reading(id) => EntityRefDto::Reading(id.clone()),
        }
    }
}

/// The rank of a reference: project references first, by kind and number, then
/// references into readings.
pub open spec fn reference_rank(key: EntityRefKey) -> Seq<u64> {
    match key {
        EntityRefKey::Project { kind, local_id } => seq![0u64] + text_rank(kind) + seq![local_id],
        EntityRefKey::Reading(id) => seq![1u64] + byte_rank(id.reading@) + text_rank(id.kind)
            + seq![id.local_id],
    }
}

impl HasRank for EntityRefDto {
    open spec fn rank(&self) -> Seq<u64> {
        reference_rank(self@)
    }
}

impl Ranked for EntityRefDto {
    fn rank_key(&self) -> (r: Vec<u64>) {
        let mut key: Vec<u64> = Vec::new();
        match self {
            EntityRefDto::Project { kind, local_id } => {
                key.push(0);
                append_text_rank(&mut key, kind.as_str());
                key.push(*local_id);
            },
            EntityRefDto::Reading(id) => {
                key.push(1);
                let bytes = id.reading.bytes();
                append_byte_rank(&mut key, bytes.as_slice());
                append_text_rank(&mut key, id.kind.as_str());
                key.push(id.local_id);
            },
        }
        assert(key@ =~= reference_rank(self@));
        key
    }
}

impl HasRank for EntityRefKey {
    open spec fn rank(&self) -> Seq<u64> {
        reference_rank(*self)
    }
}

/// A reference is valid if its number is not zero and its kind is a token.
pub open spec fn valid_reference(key: EntityRefKey) -> bool {
    match key {
        EntityRefKey::Project { kind, local_id } => local_id != 0 && is_token(kind),
        EntityRefKey::Reading(id) => id.local_id != 0 && is_token(id.kind),
    }
}

impl EntityRefDto {
    /// Whether the reference is valid.
    pub fn valid(&self) -> (r: bool)
        ensures
            r == valid_reference(self@),
    {
        match self {
            EntityRefDto::Project { kind, local_id } => *local_id != 0 && valid_token(
                kind.as_str(),
            ),
            EntityRefDto::Reading(id) => id.local_id != 0 && valid_token(id.kind.as_str()),
        }
    }

    /// Whether two references name the same entity.
    pub fn same(&self, other: &EntityRefDto) -> (r: bool)
        ensures
            r == (self@ == other@),
    {
        match (self, other) {
            (
                EntityRefDto::Project { kind: a, local_id: x },
                EntityRefDto::Project { kind: b, local_id: y },
            ) => *x == *y && same_text(a.as_str(), b.as_str()),
            (EntityRefDto::Reading(a), EntityRefDto::Reading(b)) => a.same(b),
            _ => false,
        }
    }

    /// What the reference names once project references are taken to mean
    /// entities of the reading.
    pub open spec fn qualified(&self, reading: ReadingId) -> Result<EntityRefKey, ReadingError> {
        match *self {
            EntityRefDto::Project { kind, local_id } => {
                let id = QualifiedEntityId { reading, kind, local_id };
                if id.is_valid() {
                    Ok(EntityRefKey::Reading(id@))
                } else {
                    Err(ReadingError::InvalidQualifiedId(id))
                }
            },
            EntityRefDto::Reading(id) => Ok(EntityRefKey::Reading(id@)),
        }
    }

    /// Qualifies a project reference with a reading; a reference into a reading
    /// stays as it is.
    pub fn qualify(&self, reading: ReadingId) -> (r: Result<EntityRefDto, ReadingError>)
        ensures
            match r {
                Ok(reference) => self.qualified(reading) == Ok::<EntityRefKey, ReadingError>(
                    reference@,
                ),
                Err(error) => self.qualified(reading) == Err::<EntityRefKey, ReadingError>(error),
            },
    {
        match self {
            EntityRefDto::Project { kind, local_id } => match QualifiedEntityId::new(
                reading,
                kind.clone(),
                *local_id,
            ) {
                Ok(id) => Ok(EntityRefDto::Reading(id)),
                Err(error) => Err(error),
            },
            EntityRefDto::Reading(id) => Ok(EntityRefDto::Reading(id.clone())),
        }
    }
}

/// What a list of references names.
pub open spec fn reference_keys(list: Seq<EntityRefDto>) -> Seq<EntityRefKey> {
    list.map_values(|e: EntityRefDto| e@)
}

/// A copy of a list of references.
pub fn copy_references(list: &Vec<EntityRefDto>) -> (r: Vec<EntityRefDto>)
    ensures
        r@ == list@,
{
    let copy = list.clone();
    assert(copy@ =~= list@);
    copy
}

/// The signal that geometry is heard in.
#[derive(Debug, PartialEq, Eq)]
pub enum SignalLayerDto {
    Source,
    Explanation { reference: EntityRefDto },
    Residual { reference: EntityRefDto },
}

/// What a signal layer names.
pub enum SignalView {
    Source,
    Explanation(EntityRefKey),
    Residual(EntityRefKey),
}

impl View for SignalLayerDto {
    type V = SignalView;

    open spec fn view(&self) -> SignalView {
        match *self {
            SignalLayerDto::Source => SignalView::Source,
            SignalLayerDto::Explanation { reference } => SignalView::Explanation(reference@),
            SignalLayerDto::Residual { reference } => SignalView::Residual(reference@),
        }
    }
}

impl Clone for SignalLayerDto {
    fn clone(&self) -> (r: Self)
        ensures
            r == *self,
    {
        match self {
            SignalLayerDto::Source => SignalLayerDto::Source,
            SignalLayerDto::Explanation { reference } => SignalLayerDto::Explanation {
                reference: reference.clone(),
            },
            SignalLayerDto::Residual { reference } => SignalLayerDto::Residual {
                reference: reference.clone(),
            },
        }
    }
}

impl SignalLayerDto {
    /// The reference of the layer, if it has one.
    pub open spec fn reference_spec(&self) -> Option<EntityRefDto> {
        match *self {
            SignalLayerDto::Source => None,
            SignalLayerDto::Explanation { reference } => Some(reference),
            SignalLayerDto::Residual { reference } => Some(reference),
        }
    }

    /// The reference of the layer, if it has one.
    pub fn reference(&self) -> (r: Option<&EntityRefDto>)
        ensures
            match r {
                Some(reference) => self.reference_spec() == Some(*reference),
                None => self.reference_spec() is None,
            },
    {
        match self {
            SignalLayerDto::Source => None,
            SignalLayerDto::Explanation { reference } => Some(reference),
            SignalLayerDto::Residual { reference } => Some(reference),
        }
    }

    /// Whether two layers are the same.
    pub fn same(&self, other: &SignalLayerDto) -> (r: bool)
        ensures
            r == (self@ == other@),
    {
        match (self, other) {
            (SignalLayerDto::Source, SignalLayerDto::Source) => true,
            (
                SignalLayerDto::Explanation { reference: a },
                SignalLayerDto::Explanation { reference: b },
            ) => a.same(b),
            (
                SignalLayerDto::Residual { reference: a },
                SignalLayerDto::Residual { reference: b },
            ) => a.same(b),
            _ => false,
        }
    }
}

/// Geometry of an entity: regions, objects and the signal they are heard in.
#[derive(Debug, PartialEq, Eq)]
pub struct AspectGeometryDto {
    pub regions: Vec<RegionDto>,
    pub objects: Vec<EntityRefDto>,
    pub signal: SignalLayerDto,
}

/// What geometry holds.
pub struct GeometryView {
    pub regions: Seq<RegionDto>,
    pub objects: Seq<EntityRefKey>,
    pub signal: SignalView,
}

impl View for AspectGeometryDto {
    type V = GeometryView;

    open spec fn view(&self) -> GeometryView {
        GeometryView {
            regions: self.regions@,
            objects: reference_keys(self.objects@),
            signal: self.signal@,
        }
    }
}

/// A copy of a list of regions.
pub fn copy_regions(list: &Vec<RegionDto>) -> (r: Vec<RegionDto>)
    ensures
        r@ == list@,
{
    let copy = list.clone();
    assert(copy@ =~= list@);
    copy
}

/// What optional geometry holds.
pub open spec fn optional_geometry(geometry: Option<AspectGeometryDto>) -> Option<GeometryView> {
    match geometry {
        Some(value) => Some(value@),
        None => None,
    }
}

/// A copy of optional geometry.
pub fn copy_optional_geometry(geometry: &Option<AspectGeometryDto>) -> (r: Option<
    AspectGeometryDto,
>)
    ensures
        optional_geometry(r) == optional_geometry(*geometry),
{
    match geometry {
        Some(value) => Some(value.copy()),
        None => None,
    }
}

/// Whether two optional geometries are the same.
pub fn same_optional_geometry(
    left: &Option<AspectGeometryDto>,
    right: &Option<AspectGeometryDto>,
) -> (r: bool)
    ensures
        r == (optional_geometry(*left) == optional_geometry(*right)),
{
    match (left, right) {
        (Some(a), Some(b)) => a.same(b),
        (None, None) => true,
        _ => false,
    }
}

/// What a list of references names once qualified by a reading, or the first
/// reference that cannot be.
pub open spec fn qualified_objects(objects: Seq<EntityRefDto>, reading: ReadingId, i: int) -> Result<
    Seq<EntityRefKey>,
    ReadingError,
>
    decreases i,
{
    if i <= 0 {
        Ok(Seq::empty())
    } else {
        match qualified_objects(objects, reading, i - 1) {
            Err(error) => Err(error),
            Ok(done) => match objects[i - 1].qualified(reading) {
                Err(error) => Err(error),
                Ok(key) => Ok(done.push(key)),
            },
        }
    }
}

proof fn lemma_qualified_error(objects: Seq<EntityRefDto>, reading: ReadingId, i: int, j: int)
    requires
        0 <= i <= j,
        qualified_objects(objects, reading, i) is Err,
    ensures
        qualified_objects(objects, reading, j) == qualified_objects(objects, reading, i),
    decreases j - i,
{
    if i < j {
        lemma_qualified_error(objects, reading, i, j - 1);
    }
}

impl AspectGeometryDto {
    /// A copy of the geometry.
    pub fn copy(&self) -> (r: AspectGeometryDto)
        ensures
            r@ == self@,
            r.regions@ == self.regions@,
            r.objects@ == self.objects@,
            r.signal == self.signal,
    {
        AspectGeometryDto {
            regions: copy_regions(&self.regions),
            objects: copy_references(&self.objects),
            signal: self.signal.clone(),
        }
    }

    /// Whether two geometries are the same.
    pub fn same(&self, other: &AspectGeometryDto) -> (r: bool)
        ensures
            r == (self@ == other@),
    {
        if self.regions.len() != other.regions.len() || self.objects.len() != other.objects.len() {
            assert(self@.regions.len() != other@.regions.len() || self@.objects.len()
                != other@.objects.len());
            return false;
        }
        let mut i: usize = 0;
        while i < self.regions.len()
            invariant
                i <= self.regions.len(),
                self.regions.len() == other.regions.len(),
                forall|j: int| 0 <= j < i ==> self.regions@[j] == other.regions@[j],
            decreases self.regions.len() - i,
        {
            if self.regions[i] != other.regions[i] {
                assert(self@.regions[i as int] != other@.regions[i as int]);
                return false;
            }
            i = i + 1;
        }
        let mut k: usize = 0;
        while k < self.objects.len()
            invariant
                k <= self.objects.len(),
                self.objects.len() == other.objects.len(),
                forall|j: int| 0 <= j < k ==> (#[trigger] self.objects@[j])@ == other.objects@[j]@,
            decreases self.objects.len() - k,
        {
            if !self.objects[k].same(&other.objects[k]) {
                assert(self@.objects[k as int] != other@.objects[k as int]);
                return false;
            }
            k = k + 1;
        }
        assert(self@.regions =~= other@.regions);
        assert(self@.objects =~= other@.objects);
        self.signal.same(&other.signal)
    }

    /// What the geometry holds once its project references are qualified by a
    /// reading.
    pub open spec fn qualified(&self, reading: ReadingId) -> Result<GeometryView, ReadingError> {
        match qualified_objects(self.objects@, reading, self.objects@.len() as int) {
            Err(error) => Err(error),
            Ok(objects) => match self.signal.reference_spec() {
                None => Ok(
                    GeometryView { regions: self.regions@, objects, signal: SignalView::Source },
                ),
                Some(reference) => match reference.qualified(reading) {
                    Err(error) => Err(error),
                    Ok(key) => Ok(
                        GeometryView {
                            regions: self.regions@,
                            objects,
                            signal: if self.signal is Explanation {
                                SignalView::Explanation(key)
                            } else {
                                SignalView::Residual(key)
                            },
                        },
                    ),
                },
            },
        }
    }

    /// Qualifies every project reference with a reading.
    pub fn qualify_project_ids(self, reading: ReadingId) -> (r: Result<
        AspectGeometryDto,
        ReadingError,
    >)
        ensures
            match r {
                Ok(geometry) => self.qualified(reading) == Ok::<GeometryView, ReadingError>(
                    geometry@,
                ),
                Err(error) => self.qualified(reading) == Err::<GeometryView, ReadingError>(error),
            },
    {
        let mut objects: Vec<EntityRefDto> = Vec::new();
        let mut i: usize = 0;
        assert(reference_keys(objects@) =~= Seq::<EntityRefKey>::empty());
        while i < self.objects.len()
            invariant
                i <= self.objects.len(),
                qualified_objects(self.objects@, reading, i as int) == Ok::<
                    Seq<EntityRefKey>,
                    ReadingError,
                >(reference_keys(objects@)),
            decreases self.objects.len() - i,
        {
            match self.objects[i].qualify(reading) {
                Ok(reference) => {
                    let ghost before = reference_keys(objects@);
                    objects.push(reference);
                    assert(reference_keys(objects@) =~= before.push(reference@));
                },
                Err(error) => {
                    proof {
                        lemma_qualified_error(
                            self.objects@,
                            reading,
                            i as int + 1,
                            self.objects@.len() as int,
                        );
                    }
                    return Err(error);
                },
            }
            i = i + 1;
        }
        let signal = match &self.signal {
            SignalLayerDto::Source => SignalLayerDto::Source,
            SignalLayerDto::Explanation { reference } => match reference.qualify(reading) {
                Ok(reference) => SignalLayerDto::Explanation { reference },
                Err(error) => {
                    return Err(error);
                },
            },
            SignalLayerDto::Residual { reference } => match reference.qualify(reading) {
                Ok(reference) => SignalLayerDto::Residual { reference },
                Err(error) => {
                    return Err(error);
                },
            },
        };
        Ok(AspectGeometryDto { regions: self.regions, objects, signal })
    }

    /// Some region of one geometry overlaps some region of the other.
    pub open spec fn overlaps(&self, other: &AspectGeometryDto) -> bool {
        exists|i: int, j: int|
            0 <= i < self.regions@.len() && 0 <= j < other.regions@.len()
                && #[trigger] self.regions@[i].overlaps(other.regions@[j])
    }

    /// Whether two geometries overlap.
    pub fn overlap(&self, other: &AspectGeometryDto) -> (r: bool)
        ensures
            r == self.overlaps(other),
    {
        let mut i: usize = 0;
        while i < self.regions.len()
            invariant
                i <= self.regions.len(),
                forall|a: int, b: int|
                    0 <= a < i && 0 <= b < other.regions@.len()
                        ==> !#[trigger] self.regions@[a].overlaps(other.regions@[b]),
            decreases self.regions.len() - i,
        {
            let mut j: usize = 0;
            while j < other.regions.len()
                invariant
                    i < self.regions.len(),
                    j <= other.regions.len(),
                    forall|a: int, b: int|
                        0 <= a < i && 0 <= b < other.regions@.len()
                            ==> !#[trigger] self.regions@[a].overlaps(other.regions@[b]),
                    forall|b: int|
                        0 <= b < j ==> !#[trigger] self.regions@[i as int].overlaps(
                            other.regions@[b],
                        ),
                decreases other.regions.len() - j,
            {
                if self.regions[i].overlap(&other.regions[j]) {
                    assert(self.regions@[i as int].overlaps(other.regions@[j as int]));
                    return true;
                }
                j = j + 1;
            }
            i = i + 1;
        }
        false
    }
}

/// How a query came to name a fact.
#[derive(Debug, PartialEq, Eq)]
pub struct QueryDerivationDto {
    pub rule: String,
    pub premises: Vec<EntityRefDto>,
}

/// One fact that a query found.
#[derive(Debug, PartialEq, Eq)]
pub struct QueryHitDto {
    pub fact: EntityRefDto,
    pub extent: Option<AspectGeometryDto>,
    pub derivation: QueryDerivationDto,
}

/// What a hit holds.
pub struct HitView {
    pub fact: EntityRefKey,
    pub extent: Option<GeometryView>,
    pub rule: Seq<char>,
    pub premises: Seq<EntityRefKey>,
}

impl View for QueryHitDto {
    type V = HitView;

    open spec fn view(&self) -> HitView {
        HitView {
            fact: self.fact@,
            extent: optional_geometry(self.extent),
            rule: self.derivation.rule@,
            premises: reference_keys(self.derivation.premises@),
        }
    }
}

impl QueryHitDto {
    /// A copy of the hit.
    pub fn copy(&self) -> (r: QueryHitDto)
        ensures
            r@ == self@,
    {
        QueryHitDto {
            fact: self.fact.clone(),
            extent: copy_optional_geometry(&self.extent),
            derivation: QueryDerivationDto {
                rule: self.derivation.rule.clone(),
                premises: copy_references(&self.derivation.premises),
            },
        }
    }
}

/// What a list of hits holds.
pub open spec fn hit_views(hits: Seq<QueryHitDto>) -> Seq<HitView> {
    hits.map_values(|h: QueryHitDto| h@)
}

/// One page of the facts that a query found.
#[derive(Debug, PartialEq, Eq)]
pub struct QueryResultPageDto {
    pub query_term: String,
    pub result_revision: u64,
    pub hits: Vec<QueryHitDto>,
    pub next_cursor: Option<String>,
}

} // verus!
