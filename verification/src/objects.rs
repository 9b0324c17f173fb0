//! References to the objects of a project, and requests to reveal them.

use vstd::prelude::*;

use crate::command::{
    AssetId, BusId, ClipId, KitId, LaneId, PadId, PatternId, SequenceClipId, TrackId, ZoneId,
};
use crate::rank::{append_byte_rank, byte_rank, byte_rank_tells_apart, HasRank, Ranked};
use crate::reading::{reading_id_is_its_bytes, ReadingId};

verus! {

/// An explanation of source material.
#[derive(Clone, Copy, Debug, PartialEq, Eq, PartialOrd, Ord, Hash, Structural)]
pub struct ExplanationId(pub u64);

/// A comparison of an explanation with its source.
#[derive(Clone, Copy, Debug, PartialEq, Eq, PartialOrd, Ord, Hash, Structural)]
pub struct ComparisonId(pub u64);

/// A published artifact.
#[derive(Clone, Copy, Debug, PartialEq, Eq, PartialOrd, Ord, Hash, Structural)]
pub struct ArtifactId(pub u64);

/// A pattern as it is placed in the arrangement.
#[derive(Clone, Copy, Debug, PartialEq, Eq, Structural)]
pub struct PatternOccurrenceRef {
    pub arrangement_clip: ClipId,
    pub sequencer_clip: Option<SequenceClipId>,
    pub pattern: Option<PatternId>,
}

/// An automation lane as it is placed in the arrangement.
#[derive(Clone, Copy, Debug, PartialEq, Eq, Structural)]
pub struct AutomationOccurrenceRef {
    pub arrangement_clip: ClipId,
    pub lane: LaneId,
}

/// A pad of a kit, or one zone of it.
#[derive(Clone, Copy, Debug, PartialEq, Eq, Structural)]
pub struct PadRef {
    pub kit: KitId,
    pub pad: PadId,
    pub zone: Option<ZoneId>,
}

/// A range of an asset, addressed without copying it.
#[derive(Clone, Copy, Debug, PartialEq, Eq, Structural)]
pub struct VirtualSliceRef {
    pub source_asset: AssetId,
    pub start_frame: u64,
    pub end_frame: u64,
}

/// A finding of an artifact.
#[derive(Clone, Copy, Debug, PartialEq, Eq, Structural)]
pub struct FindingRef {
    pub artifact: ArtifactId,
    pub claim: u64,
}

/// An object of the project.
#[derive(Clone, Copy, Debug, PartialEq, Eq)]
pub enum ObjectRef {
    Track(TrackId),
    AudioClip(ClipId),
    PatternOccurrence(PatternOccurrenceRef),
    AutomationOccurrence(AutomationOccurrenceRef),
    Pattern(PatternId),
    Automation(LaneId),
    Instrument(KitId),
    Pad(PadRef),
    Bus(BusId),
    Material(AssetId),
    Sample(VirtualSliceRef),
    Explanation(ExplanationId),
    Comparison(ComparisonId),
    Finding(FindingRef),
    Reading(ReadingId),
}

/// The kinds of objects.
#[derive(Clone, Copy, Debug, PartialEq, Eq, PartialOrd, Ord, Hash, Structural)]
pub enum ObjectKind {
    Track,
    AudioClip,
    PatternOccurrence,
    AutomationOccurrence,
    Pattern,
    Automation,
    Instrument,
    Pad,
    Bus,
    Material,
    Sample,
    Explanation,
    Comparison,
    Finding,
    Reading,
}

/// The rank of an optional number: none comes first.
pub open spec fn optional_number(number: Option<u64>) -> Seq<u64> {
    match number {
        None => seq![0u64],
        Some(n) => seq![1u64, n],
    }
}

/// The number behind an optional sequencer clip.
pub open spec fn sequence_number(id: Option<SequenceClipId>) -> Option<u64> {
    match id {
        Some(id) => Some(id.0),
        None => None,
    }
}

/// The number behind an optional pattern.
pub open spec fn pattern_number(id: Option<PatternId>) -> Option<u64> {
    match id {
        Some(id) => Some(id.0),
        None => None,
    }
}

/// The number behind an optional zone.
pub open spec fn zone_number(id: Option<ZoneId>) -> Option<u64> {
    match id {
        Some(id) => Some(id.0),
        None => None,
    }
}

/// The address of an object: its kind, then the numbers that name it.
pub open spec fn address(object: ObjectRef) -> Seq<u64> {
    match object {
        ObjectRef::Track(id) => seq![0u64, id.0],
        ObjectRef::AudioClip(id) => seq![1u64, id.0],
        ObjectRef::PatternOccurrence(o) => seq![2u64, o.arrangement_clip.0] + optional_number(
            sequence_number(o.sequencer_clip),
        ) + optional_number(pattern_number(o.pattern)),
        ObjectRef::AutomationOccurrence(o) => seq![3u64, o.arrangement_clip.0, o.lane.0],
        ObjectRef::Pattern(id) => seq![4u64, id.0],
        ObjectRef::Automation(id) => seq![5u64, id.0],
        ObjectRef::Instrument(id) => seq![6u64, id.0],
        ObjectRef::Pad(p) => seq![7u64, p.kit.0, p.pad.0] + optional_number(zone_number(p.zone)),
        ObjectRef::Bus(id) => seq![8u64, id.0],
        ObjectRef::Material(id) => seq![9u64, id.0],
        ObjectRef::Sample(s) => seq![10u64, s.source_asset.0, s.start_frame, s.end_frame],
        ObjectRef::Explanation(id) => seq![11u64, id.0],
        ObjectRef::Comparison(id) => seq![12u64, id.0],
        ObjectRef::Finding(f) => seq![13u64, f.artifact.0, f.claim],
        ObjectRef::Reading(id) => seq![14u64] + byte_rank(id@),
    }
}

fn push_optional(key: &mut Vec<u64>, number: Option<u64>)
    ensures
        final(key)@ == old(key)@ + optional_number(number),
{
    match number {
        None => {
            key.push(0);
        },
        Some(n) => {
            key.push(1);
            key.push(n);
        },
    }
    assert(key@ =~= old(key)@ + optional_number(number));
}

impl HasRank for ObjectRef {
    open spec fn rank(&self) -> Seq<u64> {
        address(*self)
    }
}

impl Ranked for ObjectRef {
    fn rank_key(&self) -> (r: Vec<u64>) {
        let mut key: Vec<u64> = Vec::new();
        match self {
            ObjectRef::Track(id) => {
                key.push(0);
                key.push(id.0);
            },
            ObjectRef::AudioClip(id) => {
                key.push(1);
                key.push(id.0);
            },
            ObjectRef::PatternOccurrence(o) => {
                key.push(2);
                key.push(o.arrangement_clip.0);
                push_optional(
                    &mut key,
                    match o.sequencer_clip {
                        Some(id) => Some(id.0),
                        None => None,
                    },
                );
                push_optional(
                    &mut key,
                    match o.pattern {
                        Some(id) => Some(id.0),
                        None => None,
                    },
                );
            },
            ObjectRef::AutomationOccurrence(o) => {
                key.push(3);
                key.push(o.arrangement_clip.0);
                key.push(o.lane.0);
            },
            ObjectRef::Pattern(id) => {
                key.push(4);
                key.push(id.0);
            },
            ObjectRef::Automation(id) => {
                key.push(5);
                key.push(id.0);
            },
            ObjectRef::Instrument(id) => {
                key.push(6);
                key.push(id.0);
            },
            ObjectRef::Pad(p) => {
                key.push(7);
                key.push(p.kit.0);
                key.push(p.pad.0);
                push_optional(
                    &mut key,
                    match p.zone {
                        Some(id) => Some(id.0),
                        None => None,
                    },
                );
            },
            ObjectRef::Bus(id) => {
                key.push(8);
                key.push(id.0);
            },
            ObjectRef::Material(id) => {
                key.push(9);
                key.push(id.0);
            },
            ObjectRef::Sample(s) => {
                key.push(10);
                key.push(s.source_asset.0);
                key.push(s.start_frame);
                key.push(s.end_frame);
            },
            ObjectRef::Explanation(id) => {
                key.push(11);
                key.push(id.0);
            },
            ObjectRef::Comparison(id) => {
                key.push(12);
                key.push(id.0);
            },
            ObjectRef::Finding(f) => {
                key.push(13);
                key.push(f.artifact.0);
                key.push(f.claim);
            },
            ObjectRef::Reading(id) => {
                key.push(14);
                let bytes = id.bytes();
                append_byte_rank(&mut key, bytes.as_slice());
            },
        }
        assert(key@ =~= self.rank());
        key
    }
}

impl ObjectRef {
    /// Whether two references name the same object.
    pub fn same(&self, other: &ObjectRef) -> (r: bool)
        ensures
            r == (*self == *other),
    {
        match (self, other) {
            (ObjectRef::Track(a), ObjectRef::Track(b)) => *a == *b,
            (ObjectRef::AudioClip(a), ObjectRef::AudioClip(b)) => *a == *b,
            (ObjectRef::PatternOccurrence(a), ObjectRef::PatternOccurrence(b)) => *a == *b,
            (ObjectRef::AutomationOccurrence(a), ObjectRef::AutomationOccurrence(b)) => *a == *b,
            (ObjectRef::Pattern(a), ObjectRef::Pattern(b)) => *a == *b,
            (ObjectRef::Automation(a), ObjectRef::Automation(b)) => *a == *b,
            (ObjectRef::Instrument(a), ObjectRef::Instrument(b)) => *a == *b,
            (ObjectRef::Pad(a), ObjectRef::Pad(b)) => *a == *b,
            (ObjectRef::Bus(a), ObjectRef::Bus(b)) => *a == *b,
            (ObjectRef::Material(a), ObjectRef::Material(b)) => *a == *b,
            (ObjectRef::Sample(a), ObjectRef::Sample(b)) => *a == *b,
            (ObjectRef::Explanation(a), ObjectRef::Explanation(b)) => *a == *b,
            (ObjectRef::Comparison(a), ObjectRef::Comparison(b)) => *a == *b,
            (ObjectRef::Finding(a), ObjectRef::Finding(b)) => *a == *b,
            (ObjectRef::Reading(a), ObjectRef::Reading(b)) => a.same(b),
            _ => false,
        }
    }

    /// The kind of the object.
    pub open spec fn kind(&self) -> ObjectKind {
        match *self {
            ObjectRef::Track(_) => ObjectKind::Track,
            ObjectRef::AudioClip(_) => ObjectKind::AudioClip,
            ObjectRef::PatternOccurrence(_) => ObjectKind::PatternOccurrence,
            ObjectRef::AutomationOccurrence(_) => ObjectKind::AutomationOccurrence,
            ObjectRef::Pattern(_) => ObjectKind::Pattern,
            ObjectRef::Automation(_) => ObjectKind::Automation,
            ObjectRef::Instrument(_) => ObjectKind::Instrument,
            ObjectRef::Pad(_) => ObjectKind::Pad,
            ObjectRef::Bus(_) => ObjectKind::Bus,
            ObjectRef::Material(_) => ObjectKind::Material,
            ObjectRef::Sample(_) => ObjectKind::Sample,
            ObjectRef::Explanation(_) => ObjectKind::Explanation,
            ObjectRef::Comparison(_) => ObjectKind::Comparison,
            ObjectRef::Finding(_) => ObjectKind::Finding,
            ObjectRef::Reading(_) => ObjectKind::Reading,
        }
    }
}

/// Whether a list holds an object.
pub fn holds_object(list: &Vec<ObjectRef>, object: &ObjectRef) -> (r: bool)
    ensures
        r == list@.contains(*object),
{
    let mut i: usize = 0;
    while i < list.len()
        invariant
            i <= list.len(),
            forall|k: int| 0 <= k < i ==> list@[k] != *object,
        decreases list.len() - i,
    {
        if list[i].same(object) {
            assert(list@[i as int] == *object);
            return true;
        }
        i = i + 1;
    }
    false
}

/// Whether two lists hold the same objects in the same order.
pub fn same_objects(left: &Vec<ObjectRef>, right: &Vec<ObjectRef>) -> (r: bool)
    ensures
        r == (left@ == right@),
{
    if left.len() != right.len() {
        return false;
    }
    let mut i: usize = 0;
    while i < left.len()
        invariant
            i <= left.len(),
            left@.len() == right@.len(),
            left@.take(i as int) =~= right@.take(i as int),
        decreases left.len() - i,
    {
        if !left[i].same(&right[i]) {
            return false;
        }
        assert(left@.take(i as int + 1) =~= left@.take(i as int).push(left@[i as int]));
        assert(right@.take(i as int + 1) =~= right@.take(i as int).push(right@[i as int]));
        i = i + 1;
    }
    assert(left@.take(i as int) =~= left@);
    assert(right@.take(i as int) =~= right@);
    true
}

/// A copy of a list of objects.
pub fn copy_objects(list: &Vec<ObjectRef>) -> (r: Vec<ObjectRef>)
    ensures
        r@ == list@,
{
    let copy = list.clone();
    assert(copy@ =~= list@);
    copy
}

/// Whether two optional objects are the same.
pub fn same_optional_object(left: &Option<ObjectRef>, right: &Option<ObjectRef>) -> (r: bool)
    ensures
        r == (*left == *right),
{
    match (left, right) {
        (Some(a), Some(b)) => a.same(b),
        (None, None) => true,
        _ => false,
    }
}

// ----- requests to reveal -------------------------------------------------

/// How an object is to be revealed.
#[derive(Clone, Copy, Debug, PartialEq, Eq, Structural)]
pub enum RevealIntent {
    ActivateExisting,
    OpenNew,
}

/// A request to reveal an object.
#[derive(Debug, PartialEq, Eq)]
pub struct RevealRequest {
    pub object: ObjectRef,
    pub intent: RevealIntent,
    /// Other objects to mention; never the object itself.
    pub related: Vec<ObjectRef>,
    /// The revision that the request was made at.
    pub expected_project_revision: Option<u64>,
}

/// The related objects after the first `i` of `more` were added: each once, and
/// none that is the object itself.
pub open spec fn related_with(
    object: ObjectRef,
    related: Seq<ObjectRef>,
    more: Seq<ObjectRef>,
    i: int,
) -> Seq<ObjectRef>
    decreases i,
{
    if i <= 0 {
        related
    } else {
        let before = related_with(object, related, more, i - 1);
        if more[i - 1] == object || before.contains(more[i - 1]) {
            before
        } else {
            before.push(more[i - 1])
        }
    }
}

impl RevealRequest {
    /// A request for an object alone.
    pub fn new(object: ObjectRef, intent: RevealIntent) -> (r: RevealRequest)
        ensures
            r.object == object,
            r.intent == intent,
            r.related@ == Seq::<ObjectRef>::empty(),
            r.expected_project_revision is None,
    {
        RevealRequest { object, intent, related: Vec::new(), expected_project_revision: None }
    }

    /// The request with more related objects.
    pub fn with_related(self, more: &Vec<ObjectRef>) -> (r: RevealRequest)
        ensures
            r.object == self.object,
            r.intent == self.intent,
            r.expected_project_revision == self.expected_project_revision,
            r.related@ == related_with(self.object, self.related@, more@, more@.len() as int),
    {
        let object = self.object;
        let ghost start = self.related@;
        let mut related = self.related;
        let mut i: usize = 0;
        while i < more.len()
            invariant
                i <= more.len(),
                related@ == related_with(object, start, more@, i as int),
            decreases more.len() - i,
        {
            if !more[i].same(&object) && !holds_object(&related, &more[i]) {
                related.push(more[i]);
            }
            i = i + 1;
        }
        RevealRequest {
            object,
            intent: self.intent,
            related,
            expected_project_revision: self.expected_project_revision,
        }
    }
}

/// What to reveal after something was done.
#[derive(Debug, PartialEq, Eq)]
pub struct RevealRecommendation {
    pub request: RevealRequest,
    pub diagnostics: Vec<String>,
}

/// What to select when an object is revealed.
#[derive(Debug, PartialEq, Eq)]
pub struct SelectionConsequence {
    pub primary: ObjectRef,
    pub related: Vec<ObjectRef>,
}

// ----- laws -------------------------------------------------------------

/// The number that an address begins with.
spec fn kind_number(kind: ObjectKind) -> u64 {
    match kind {
        ObjectKind::Track => 0,
        ObjectKind::AudioClip => 1,
        ObjectKind::PatternOccurrence => 2,
        ObjectKind::AutomationOccurrence => 3,
        ObjectKind::Pattern => 4,
        ObjectKind::Automation => 5,
        ObjectKind::Instrument => 6,
        ObjectKind::Pad => 7,
        ObjectKind::Bus => 8,
        ObjectKind::Material => 9,
        ObjectKind::Sample => 10,
        ObjectKind::Explanation => 11,
        ObjectKind::Comparison => 12,
        ObjectKind::Finding => 13,
        ObjectKind::Reading => 14,
    }
}

proof fn lemma_occurrence_address(x: PatternOccurrenceRef, y: PatternOccurrenceRef)
    requires
        address(ObjectRef::PatternOccurrence(x)) == address(ObjectRef::PatternOccurrence(y)),
    ensures
        x == y,
{
    let a = address(ObjectRef::PatternOccurrence(x));
    let b = address(ObjectRef::PatternOccurrence(y));
    assert(a[1] == x.arrangement_clip.0 && b[1] == y.arrangement_clip.0);
    assert(a[2] == if x.sequencer_clip is Some {
        1u64
    } else {
        0u64
    });
    assert(b[2] == if y.sequencer_clip is Some {
        1u64
    } else {
        0u64
    });
    let at: int = if x.sequencer_clip is Some {
        4
    } else {
        3
    };
    if x.sequencer_clip is Some {
        assert(a[3] == (x.sequencer_clip->0).0 && b[3] == (y.sequencer_clip->0).0);
    }
    assert(a.skip(at) =~= optional_number(pattern_number(x.pattern)));
    assert(b.skip(at) =~= optional_number(pattern_number(y.pattern)));
    let p = optional_number(pattern_number(x.pattern));
    assert(p[0] == b.skip(at)[0]);
    if x.pattern is Some {
        assert(p[1] == (x.pattern->0).0);
        assert(b.skip(at)[1] == (y.pattern->0).0);
    }
}

/// Different objects have different addresses.
pub proof fn addresses_name_objects(left: ObjectRef, right: ObjectRef)
    requires
        address(left) == address(right),
    ensures
        left == right,
{
    let a = address(left);
    let b = address(right);
    assert(a[0] == kind_number(left.kind()));
    assert(b[0] == kind_number(right.kind()));
    assert(left.kind() == right.kind());
    match (left, right) {
        (ObjectRef::Track(x), ObjectRef::Track(y)) => {
            assert(a[1] == x.0 && b[1] == y.0);
        },
        (ObjectRef::AudioClip(x), ObjectRef::AudioClip(y)) => {
            assert(a[1] == x.0 && b[1] == y.0);
        },
        (ObjectRef::Pattern(x), ObjectRef::Pattern(y)) => {
            assert(a[1] == x.0 && b[1] == y.0);
        },
        (ObjectRef::Automation(x), ObjectRef::Automation(y)) => {
            assert(a[1] == x.0 && b[1] == y.0);
        },
        (ObjectRef::Instrument(x), ObjectRef::Instrument(y)) => {
            assert(a[1] == x.0 && b[1] == y.0);
        },
        (ObjectRef::Bus(x), ObjectRef::Bus(y)) => {
            assert(a[1] == x.0 && b[1] == y.0);
        },
        (ObjectRef::Material(x), ObjectRef::Material(y)) => {
            assert(a[1] == x.0 && b[1] == y.0);
        },
        (ObjectRef::Explanation(x), ObjectRef::Explanation(y)) => {
            assert(a[1] == x.0 && b[1] == y.0);
        },
        (ObjectRef::Comparison(x), ObjectRef::Comparison(y)) => {
            assert(a[1] == x.0 && b[1] == y.0);
        },
        (ObjectRef::PatternOccurrence(x), ObjectRef::PatternOccurrence(y)) => {
            lemma_occurrence_address(x, y);
        },
        (ObjectRef::AutomationOccurrence(x), ObjectRef::AutomationOccurrence(y)) => {
            assert(a[1] == x.arrangement_clip.0 && b[1] == y.arrangement_clip.0);
            assert(a[2] == x.lane.0 && b[2] == y.lane.0);
        },
        (ObjectRef::Pad(x), ObjectRef::Pad(y)) => {
            assert(a[1] == x.kit.0 && b[1] == y.kit.0);
            assert(a[2] == x.pad.0 && b[2] == y.pad.0);
            assert(a.skip(3) =~= optional_number(zone_number(x.zone)));
            assert(b.skip(3) =~= optional_number(zone_number(y.zone)));
            assert(a.skip(3)[0] == b.skip(3)[0]);
            if x.zone is Some {
                assert(a.skip(3)[1] == (x.zone->0).0);
                assert(b.skip(3)[1] == (y.zone->0).0);
            }
        },
        (ObjectRef::Sample(x), ObjectRef::Sample(y)) => {
            assert(a[1] == x.source_asset.0 && b[1] == y.source_asset.0);
            assert(a[2] == x.start_frame && b[2] == y.start_frame);
            assert(a[3] == x.end_frame && b[3] == y.end_frame);
        },
        (ObjectRef::Finding(x), ObjectRef::Finding(y)) => {
            assert(a[1] == x.artifact.0 && b[1] == y.artifact.0);
            assert(a[2] == x.claim && b[2] == y.claim);
        },
        (ObjectRef::Reading(x), ObjectRef::Reading(y)) => {
            assert(a.skip(1) =~= byte_rank(x@));
            assert(b.skip(1) =~= byte_rank(y@));
            byte_rank_tells_apart(x@, y@);
            reading_id_is_its_bytes(x, y);
        },
        _ => {},
    }
}

proof fn lemma_related_step(
    object: ObjectRef,
    related: Seq<ObjectRef>,
    more: Seq<ObjectRef>,
    i: int,
)
    requires
        0 <= i <= more.len(),
        !related.contains(object),
        related.no_duplicates(),
    ensures
        !related_with(object, related, more, i).contains(object),
        related_with(object, related, more, i).no_duplicates(),
        forall|k: int|
            0 <= k < i ==> #[trigger] more[k] == object || related_with(
                object,
                related,
                more,
                i,
            ).contains(more[k]),
    decreases i,
{
    if i > 0 {
        lemma_related_step(object, related, more, i - 1);
        let before = related_with(object, related, more, i - 1);
        let after = related_with(object, related, more, i);
        if after != before {
            assert(after == before.push(more[i - 1]));
            assert forall|k: int| 0 <= k < i implies #[trigger] more[k] == object
                || after.contains(more[k]) by {
                if k < i - 1 {
                    if before.contains(more[k]) {
                        let p = choose|p: int| 0 <= p < before.len() && before[p] == more[k];
                        assert(after[p] == more[k]);
                    }
                } else {
                    assert(after[before.len() as int] == more[k]);
                }
            }
        }
    }
}

/// The related objects of a fresh request name every object that was given but
/// the object itself, and none twice.
pub proof fn related_objects_are_complete(object: ObjectRef, more: Seq<ObjectRef>)
    ensures
        ({
            let related = related_with(object, Seq::empty(), more, more.len() as int);
            &&& !related.contains(object)
            &&& related.no_duplicates()
            &&& forall|k: int|
                0 <= k < more.len() ==> #[trigger] more[k] == object || related.contains(more[k])
        }),
{
    lemma_related_step(object, Seq::empty(), more, more.len() as int);
}

} // verus!
