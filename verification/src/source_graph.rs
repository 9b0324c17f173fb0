//! The part of a project that says where its material comes from: the
//! interpretation graph, what is bound to it, and the comparisons kept with it.
//!
//! Every list is keyed by the identity of its items; where an identity stands
//! twice, the first item counts.

use vstd::prelude::*;

use crate::command::{AssetId, ClipId, HypothesisId, MediaAliasId};
use crate::objects::{ComparisonId, ExplanationId};
use crate::selection::GraphObjectId;

verus! {

/// A source of the interpretation graph.
#[derive(Clone, Copy, Debug, PartialEq, Eq, PartialOrd, Ord, Hash, Structural)]
pub struct SourceId(pub u64);

/// What a parameter belongs to.
#[derive(Clone, Copy, Debug, PartialEq, Eq, Structural)]
pub enum ParameterOwner {
    Object(GraphObjectId),
    Transform(u64),
}

/// A parameter of the graph.
#[derive(Clone, Copy, Debug, PartialEq, Eq, Structural)]
pub struct GraphParameter {
    pub id: u64,
    pub owner: ParameterOwner,
}

/// A transform of the graph.
#[derive(Clone, Copy, Debug, PartialEq, Eq, Structural)]
pub struct GraphTransform {
    pub id: u64,
    pub owner: GraphObjectId,
}

/// A relation of two objects.
#[derive(Clone, Copy, Debug, PartialEq, Eq, Structural)]
pub struct GraphRelation {
    pub id: u64,
    pub from: GraphObjectId,
    pub to: GraphObjectId,
}

/// What a hypothesis claims, as far as it names parts of the graph.
#[derive(Debug, PartialEq, Eq)]
pub enum HypothesisClaim {
    GroupsObjects(Vec<GraphObjectId>),
    SeparatesObjects(Vec<GraphObjectId>),
    Freeform { objects: Vec<GraphObjectId> },
    PitchTrack { object: GraphObjectId },
    TransformApplies(u64),
    Relation(u64),
}

/// A hypothesis of the graph.
#[derive(Debug, PartialEq, Eq)]
pub struct GraphHypothesis {
    pub id: HypothesisId,
    pub claims: Vec<HypothesisClaim>,
    pub note: Option<String>,
}

/// An object of the graph: the objects it is made of, and the spans of sources it
/// is anchored in.
#[derive(Debug, PartialEq, Eq)]
pub struct GraphObject {
    pub id: GraphObjectId,
    pub members: Vec<GraphObjectId>,
    pub anchors: Vec<u64>,
}

/// A span of a source.
#[derive(Clone, Copy, Debug, PartialEq, Eq, Structural)]
pub struct GraphSpan {
    pub id: u64,
    pub source: SourceId,
}

/// An asset that stands for a source.
#[derive(Clone, Copy, Debug, PartialEq, Eq, Structural)]
pub struct AssetSource {
    pub asset: AssetId,
    pub source: SourceId,
}

/// An asset, with the highest frequency that it can hold, as a single-precision
/// bit pattern.
#[derive(Clone, Copy, Debug, PartialEq, Eq, Structural)]
pub struct AssetRecord {
    pub id: AssetId,
    pub nyquist_bits: u32,
}

/// The name of an asset in the arrangement.
#[derive(Clone, Copy, Debug, PartialEq, Eq, Structural)]
pub struct AssetAlias {
    pub alias: MediaAliasId,
    pub asset: AssetId,
}

/// A clip that stands for an object.
#[derive(Clone, Copy, Debug, PartialEq, Eq, Structural)]
pub struct ClipObject {
    pub clip: ClipId,
    pub object: GraphObjectId,
}

/// The audio of a clip.
#[derive(Clone, Copy, Debug, PartialEq, Eq, Structural)]
pub struct PlacedAudio {
    pub asset: MediaAliasId,
    pub source_start: u64,
    /// Whether it plays as it is, neither transformed nor looped.
    pub unity: bool,
}

/// A clip as it is placed.
#[derive(Clone, Copy, Debug, PartialEq, Eq, Structural)]
pub struct PlacedClip {
    pub id: ClipId,
    pub start: i64,
    pub end: i64,
    pub audio: Option<PlacedAudio>,
}

/// Where the material of a project comes from.
#[derive(Debug, PartialEq, Eq)]
pub struct SourceGraph {
    pub parameters: Vec<GraphParameter>,
    pub transforms: Vec<GraphTransform>,
    pub relations: Vec<GraphRelation>,
    pub hypotheses: Vec<GraphHypothesis>,
    pub objects: Vec<GraphObject>,
    pub spans: Vec<GraphSpan>,
    pub asset_sources: Vec<AssetSource>,
    pub assets: Vec<AssetRecord>,
    pub aliases: Vec<AssetAlias>,
    pub clip_objects: Vec<ClipObject>,
    pub clips: Vec<PlacedClip>,
}

/// Frames of the project.
#[derive(Clone, Copy, Debug, PartialEq, Eq, Structural)]
pub struct FrameSpan {
    pub start: i64,
    pub end: i64,
}

/// Frames of an asset, and where they stand in the project.
#[derive(Clone, Copy, Debug, PartialEq, Eq, Structural)]
pub struct SourceCitation {
    pub asset: AssetId,
    pub source_start: u64,
    pub source_end: u64,
    pub project_span: FrameSpan,
    pub channels: u16,
}

/// A comparison of an explanation with its source.
#[derive(Clone, Copy, Debug, PartialEq, Eq, Structural)]
pub struct ComparisonDefinition {
    pub id: ComparisonId,
    pub source: SourceCitation,
    pub explanation: ExplanationId,
}

/// What running a comparison showed.
#[derive(Debug, PartialEq, Eq)]
pub struct ComparisonObservation {
    pub comparison: ComparisonId,
    pub artifact: u64,
}

/// The comparisons that are kept, in the order of their identities.
#[derive(Debug, PartialEq, Eq)]
pub struct InterpretationStore {
    pub comparisons: Vec<ComparisonDefinition>,
    pub observations: Vec<ComparisonObservation>,
}

impl InterpretationStore {
    /// Whether nothing is kept.
    pub open spec fn is_empty(self) -> bool {
        &&& self.comparisons@ == Seq::<ComparisonDefinition>::empty()
        &&& self.observations@ == Seq::<ComparisonObservation>::empty()
    }

    /// A store in which nothing is kept.
    pub fn new() -> (r: InterpretationStore)
        ensures
            r.is_empty(),
    {
        InterpretationStore { comparisons: Vec::new(), observations: Vec::new() }
    }
}

// ----- looking up ---------------------------------------------------------

/// The owner of a transform, looked for from index `i` on.
pub open spec fn transform_owner(list: Seq<GraphTransform>, id: u64, i: int) -> Option<
    GraphObjectId,
>
    decreases list.len() - i,
{
    if i < 0 || i >= list.len() {
        None
    } else if list[i].id == id {
        Some(list[i].owner)
    } else {
        transform_owner(list, id, i + 1)
    }
}

/// The owner of a transform.
pub fn find_transform_owner(list: &Vec<GraphTransform>, id: u64) -> (r: Option<GraphObjectId>)
    ensures
        r == transform_owner(list@, id, 0),
{
    let mut i: usize = 0;
    while i < list.len()
        invariant
            i <= list.len(),
            transform_owner(list@, id, 0) == transform_owner(list@, id, i as int),
        decreases list.len() - i,
    {
        if list[i].id == id {
            return Some(list[i].owner);
        }
        i = i + 1;
    }
    None
}

/// The index of a parameter, looked for from `i` on.
pub open spec fn parameter_at(list: Seq<GraphParameter>, id: u64, i: int) -> Option<ParameterOwner>
    decreases list.len() - i,
{
    if i < 0 || i >= list.len() {
        None
    } else if list[i].id == id {
        Some(list[i].owner)
    } else {
        parameter_at(list, id, i + 1)
    }
}

/// The object that a parameter belongs to, directly or through its transform.
pub open spec fn parameter_object(graph: SourceGraph, id: u64) -> Option<GraphObjectId> {
    match parameter_at(graph.parameters@, id, 0) {
        None => None,
        Some(ParameterOwner::Object(object)) => Some(object),
        Some(ParameterOwner::Transform(transform)) => transform_owner(
            graph.transforms@,
            transform,
            0,
        ),
    }
}

/// The object that a parameter belongs to.
pub fn find_parameter_object(graph: &SourceGraph, id: u64) -> (r: Option<GraphObjectId>)
    ensures
        r == parameter_object(*graph, id),
{
    let mut i: usize = 0;
    while i < graph.parameters.len()
        invariant
            i <= graph.parameters.len(),
            parameter_at(graph.parameters@, id, 0) == parameter_at(
                graph.parameters@,
                id,
                i as int,
            ),
        decreases graph.parameters.len() - i,
    {
        if graph.parameters[i].id == id {
            return match graph.parameters[i].owner {
                ParameterOwner::Object(object) => Some(object),
                ParameterOwner::Transform(transform) => find_transform_owner(
                    &graph.transforms,
                    transform,
                ),
            };
        }
        i = i + 1;
    }
    None
}

/// The index of an object, looked for from `i` on.
pub open spec fn object_at(list: Seq<GraphObject>, id: GraphObjectId, i: int) -> Option<int>
    decreases list.len() - i,
{
    if i < 0 || i >= list.len() {
        None
    } else if list[i].id == id {
        Some(i)
    } else {
        object_at(list, id, i + 1)
    }
}

/// Where an object was found it stands.
pub proof fn object_at_stands(list: Seq<GraphObject>, id: GraphObjectId, i: int)
    requires
        0 <= i,
    ensures
        object_at(list, id, i) matches Some(k) ==> i <= k < list.len() && list[k].id == id,
    decreases list.len() - i,
{
    if i < list.len() && list[i].id != id {
        object_at_stands(list, id, i + 1);
    }
}

/// The index of an object.
pub fn find_object(list: &Vec<GraphObject>, id: GraphObjectId) -> (r: Option<usize>)
    ensures
        match object_at(list@, id, 0) {
            Some(k) => r matches Some(found) && found == k && found < list.len(),
            None => r is None,
        },
{
    let mut i: usize = 0;
    while i < list.len()
        invariant
            i <= list.len(),
            object_at(list@, id, 0) == object_at(list@, id, i as int),
        decreases list.len() - i,
    {
        if list[i].id == id {
            return Some(i);
        }
        i = i + 1;
    }
    None
}

/// The source of a span, looked for from index `i` on.
pub open spec fn span_source(list: Seq<GraphSpan>, id: u64, i: int) -> Option<SourceId>
    decreases list.len() - i,
{
    if i < 0 || i >= list.len() {
        None
    } else if list[i].id == id {
        Some(list[i].source)
    } else {
        span_source(list, id, i + 1)
    }
}

/// The source of a span.
pub fn find_span_source(list: &Vec<GraphSpan>, id: u64) -> (r: Option<SourceId>)
    ensures
        r == span_source(list@, id, 0),
{
    let mut i: usize = 0;
    while i < list.len()
        invariant
            i <= list.len(),
            span_source(list@, id, 0) == span_source(list@, id, i as int),
        decreases list.len() - i,
    {
        if list[i].id == id {
            return Some(list[i].source);
        }
        i = i + 1;
    }
    None
}

/// The index of a relation, looked for from `i` on.
pub open spec fn relation_at(list: Seq<GraphRelation>, id: u64, i: int) -> Option<int>
    decreases list.len() - i,
{
    if i < 0 || i >= list.len() {
        None
    } else if list[i].id == id {
        Some(i)
    } else {
        relation_at(list, id, i + 1)
    }
}

/// The index of a relation.
pub fn find_relation(list: &Vec<GraphRelation>, id: u64) -> (r: Option<usize>)
    ensures
        match relation_at(list@, id, 0) {
            Some(k) => r matches Some(found) && found == k && found < list.len(),
            None => r is None,
        },
{
    let mut i: usize = 0;
    while i < list.len()
        invariant
            i <= list.len(),
            relation_at(list@, id, 0) == relation_at(list@, id, i as int),
        decreases list.len() - i,
    {
        if list[i].id == id {
            return Some(i);
        }
        i = i + 1;
    }
    None
}

/// The index of a hypothesis, looked for from `i` on.
pub open spec fn hypothesis_at(list: Seq<GraphHypothesis>, id: HypothesisId, i: int) -> Option<int>
    decreases list.len() - i,
{
    if i < 0 || i >= list.len() {
        None
    } else if list[i].id == id {
        Some(i)
    } else {
        hypothesis_at(list, id, i + 1)
    }
}

/// The index of a hypothesis.
pub fn find_hypothesis(list: &Vec<GraphHypothesis>, id: HypothesisId) -> (r: Option<usize>)
    ensures
        match hypothesis_at(list@, id, 0) {
            Some(k) => r matches Some(found) && found == k && found < list.len(),
            None => r is None,
        },
{
    let mut i: usize = 0;
    while i < list.len()
        invariant
            i <= list.len(),
            hypothesis_at(list@, id, 0) == hypothesis_at(list@, id, i as int),
        decreases list.len() - i,
    {
        if list[i].id == id {
            return Some(i);
        }
        i = i + 1;
    }
    None
}

/// The highest frequency of an asset, looked for from index `i` on.
pub open spec fn asset_nyquist(list: Seq<AssetRecord>, id: AssetId, i: int) -> Option<u32>
    decreases list.len() - i,
{
    if i < 0 || i >= list.len() {
        None
    } else if list[i].id == id {
        Some(list[i].nyquist_bits)
    } else {
        asset_nyquist(list, id, i + 1)
    }
}

/// The highest frequency of an asset.
pub fn find_asset_nyquist(list: &Vec<AssetRecord>, id: AssetId) -> (r: Option<u32>)
    ensures
        r == asset_nyquist(list@, id, 0),
{
    let mut i: usize = 0;
    while i < list.len()
        invariant
            i <= list.len(),
            asset_nyquist(list@, id, 0) == asset_nyquist(list@, id, i as int),
        decreases list.len() - i,
    {
        if list[i].id == id {
            return Some(list[i].nyquist_bits);
        }
        i = i + 1;
    }
    None
}

/// The index of a comparison, looked for from `i` on.
pub open spec fn comparison_at(list: Seq<ComparisonDefinition>, id: ComparisonId, i: int) -> Option<
    int,
>
    decreases list.len() - i,
{
    if i < 0 || i >= list.len() {
        None
    } else if list[i].id == id {
        Some(i)
    } else {
        comparison_at(list, id, i + 1)
    }
}

/// The index of an observation, looked for from `i` on.
pub open spec fn observation_at(
    list: Seq<ComparisonObservation>,
    id: ComparisonId,
    i: int,
) -> Option<int>
    decreases list.len() - i,
{
    if i < 0 || i >= list.len() {
        None
    } else if list[i].comparison == id {
        Some(i)
    } else {
        observation_at(list, id, i + 1)
    }
}

impl InterpretationStore {
    /// A comparison, if it is kept.
    pub open spec fn kept(self, id: ComparisonId) -> Option<ComparisonDefinition> {
        match comparison_at(self.comparisons@, id, 0) {
            Some(i) => Some(self.comparisons@[i]),
            None => None,
        }
    }

    /// A comparison, if it is kept.
    pub fn comparison(&self, id: ComparisonId) -> (r: Option<&ComparisonDefinition>)
        ensures
            match self.kept(id) {
                Some(definition) => r matches Some(found) && *found == definition,
                None => r is None,
            },
    {
        let mut i: usize = 0;
        while i < self.comparisons.len()
            invariant
                i <= self.comparisons.len(),
                comparison_at(self.comparisons@, id, 0) == comparison_at(
                    self.comparisons@,
                    id,
                    i as int,
                ),
            decreases self.comparisons.len() - i,
        {
            if self.comparisons[i].id == id {
                return Some(&self.comparisons[i]);
            }
            i = i + 1;
        }
        None
    }

    /// What running a comparison showed, if that is kept.
    pub open spec fn observed(self, id: ComparisonId) -> Option<ComparisonObservation> {
        match observation_at(self.observations@, id, 0) {
            Some(i) => Some(self.observations@[i]),
            None => None,
        }
    }

    /// What running a comparison showed, if that is kept.
    pub fn observation(&self, id: ComparisonId) -> (r: Option<&ComparisonObservation>)
        ensures
            match self.observed(id) {
                Some(observation) => r matches Some(found) && *found == observation,
                None => r is None,
            },
    {
        let mut i: usize = 0;
        while i < self.observations.len()
            invariant
                i <= self.observations.len(),
                observation_at(self.observations@, id, 0) == observation_at(
                    self.observations@,
                    id,
                    i as int,
                ),
            decreases self.observations.len() - i,
        {
            if self.observations[i].comparison == id {
                return Some(&self.observations[i]);
            }
            i = i + 1;
        }
        None
    }
}

} // verus!
