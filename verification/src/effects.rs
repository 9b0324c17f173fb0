//! What auditioning or revealing a row of a reading leads to.
//!
//! Panes name entities and geometry. Here they are resolved against one published
//! project: to exact frames of a source, to a comparison that is kept, or to a
//! selection. What cannot be done exactly, such as isolating a band, or is
//! ambiguous, is refused rather than approximated.

use std::sync::Arc;

use vstd::prelude::*;
use vstd::string::*;

use crate::command::{AssetId, ClipId, HypothesisId, MediaAliasId};
use crate::foreign_import::{foreign_note, write_foreign_note};
use crate::event_log::{AuditionMix, AuditionSubject};
use crate::live_project::{LiveProjectSnapshot, ProjectRevisions};
use crate::navigation::{
    copy_optional_geometry, number_before, number_lt, optional_geometry, valid_reference,
    AspectGeometryDto, EntityRefDto, EntityRefKey, GeometryView, RegionDto, SignalLayerDto,
    SignalView,
};
use crate::objects::{ComparisonId, ExplanationId, ObjectRef};
use crate::query_document::{AuditionTarget, RevealTarget};
use crate::query_terms::{compile_aspect, compiled_aspect, signal_reference};
use crate::selection::{
    empty_selection, AirSelection, GraphObjectId, ProjectSelection, SelectedSignal,
    SelectionGuard, SelectionProvenance, SelectionSource, SelectionView, TimeSpan,
    WorkspaceViewId,
};
use crate::session::{ProjectSession, ProjectSessionError};
use crate::source_graph::{
    asset_nyquist, comparison_at, find_asset_nyquist, find_parameter_object, parameter_object,
    AssetAlias, AssetSource, ClipObject, ComparisonDefinition, ComparisonObservation, FrameSpan,
    GraphHypothesis, InterpretationStore, PlacedClip, SourceCitation, SourceGraph, SourceId,
};
use crate::text::{append_decimal, decimal, optional_text, owned, same_text};
use crate::tracing::{are_sources, dangles, entity_roots, entity_sources};
use crate::workbench_error::{WorkbenchError, WorkbenchFault};

verus! {

/// The first half of the identity of what reading panes audition.
pub const READING_AUDITION_OWNER_NAMESPACE: u128 = 0x61756465632d72656164696e672d7631;

/// Who auditions something.
#[derive(Clone, Copy, Debug, PartialEq, Eq, Structural)]
pub struct AuditionOwner {
    pub namespace: u128,
    pub local: u64,
}

/// The reading pane of a view, as an owner of auditions.
pub fn reading_audition_owner(view: WorkspaceViewId) -> (r: AuditionOwner)
    ensures
        r == (AuditionOwner { namespace: READING_AUDITION_OWNER_NAMESPACE, local: view.0 }),
{
    AuditionOwner { namespace: READING_AUDITION_OWNER_NAMESPACE, local: view.0 }
}

/// The publication that an effect was planned for.
#[derive(Clone, Copy, Debug, PartialEq, Eq, Structural)]
pub struct ReadingEffectPin {
    pub document_generation: u64,
    pub revisions: ProjectRevisions,
}

/// One published project, with the comparisons that are kept.
#[derive(Debug)]
pub struct ReadingEffectSnapshot {
    pin: ReadingEffectPin,
    project: LiveProjectSnapshot,
    interpretations: Arc<InterpretationStore>,
}

/// What a snapshot holds.
pub struct EffectView {
    pub pin: ReadingEffectPin,
    pub project: LiveProjectSnapshot,
    pub store: InterpretationStore,
}

impl EffectView {
    /// The graph of the project.
    pub open spec fn graph(self) -> SourceGraph {
        self.project.project.graph
    }
}

impl View for ReadingEffectSnapshot {
    type V = EffectView;

    closed spec fn view(&self) -> EffectView {
        EffectView {
            pin: self.pin,
            project: self.project,
            store: *self.interpretations,
        }
    }
}

/// The frames of a source to be heard.
#[derive(Debug, PartialEq, Eq)]
pub struct ReadingSourceAuditionPlan {
    pub pin: ReadingEffectPin,
    pub generation: u64,
    pub entity: EntityRefDto,
    pub citation: SourceCitation,
}

/// The parts of a comparison.
#[derive(Clone, Copy, Debug, PartialEq, Eq, Structural)]
pub enum ComparisonChannel {
    Source,
    Construction,
    Residual,
}

/// The part of a comparison to be heard.
#[derive(Debug, PartialEq, Eq)]
pub struct ReadingComparisonAuditionPlan {
    pub pin: ReadingEffectPin,
    pub entity: EntityRefDto,
    pub comparison: ComparisonId,
    pub channel: ComparisonChannel,
    /// The frames asked for. The comparison may cover more.
    pub focus: FrameSpan,
}

/// What is to be heard.
#[derive(Debug, PartialEq, Eq)]
pub enum ReadingAuditionPlan {
    Source(ReadingSourceAuditionPlan),
    Comparison(ReadingComparisonAuditionPlan),
}

/// What is to be revealed.
#[derive(Clone, Copy, Debug, PartialEq, Eq)]
pub enum ReadingRevealSubject {
    Object(ObjectRef),
    Air(AirSelection),
}

/// What is to be revealed, and where.
#[derive(Debug, PartialEq, Eq)]
pub struct ReadingRevealPlan {
    pub pin: ReadingEffectPin,
    pub subject: ReadingRevealSubject,
    pub extent: Option<AspectGeometryDto>,
}

/// What there has to be one of.
#[derive(Clone, Copy, Debug, PartialEq, Eq, Structural)]
pub enum Resolution {
    AirSource,
    BoundAsset,
    UnityPlacement,
    ImportedHypothesis,
}

/// What there has to be one of, in words.
pub open spec fn resolution_text(what: Resolution) -> Seq<char> {
    match what {
        Resolution::AirSource => "AIR source"@,
        Resolution::BoundAsset => "media asset bound to the AIR source"@,
        Resolution::UnityPlacement => "unity source placement"@,
        Resolution::ImportedHypothesis => "imported reading hypothesis"@,
    }
}

impl Resolution {
    /// What there has to be one of, in words.
    pub fn text(self) -> (r: String)
        ensures
            r@ == resolution_text(self),
    {
        match self {
            Resolution::AirSource => owned("AIR source"),
            Resolution::BoundAsset => owned("media asset bound to the AIR source"),
            Resolution::UnityPlacement => owned("unity source placement"),
            Resolution::ImportedHypothesis => owned("imported reading hypothesis"),
        }
    }
}

/// What is wrong with geometry that is to be selected.
#[derive(Debug, PartialEq)]
pub enum GeometryRefusal {
    /// It is no selector.
    Aspect(WorkbenchError),
    /// It cannot be selected.
    Selection(String),
}

/// Why an effect is refused. Frequencies are single-precision bit patterns.
#[derive(Debug, PartialEq)]
pub enum ReadingEffectBridgeError {
    Session(ProjectSessionError),
    ZeroGeneration,
    InvalidEntity(EntityRefDto),
    InvalidRegion(RegionDto),
    InvalidGeometry(GeometryRefusal),
    NonContiguousGeometry(usize),
    UnresolvedEntity(EntityRefDto),
    UnsupportedSignalReference(EntityRefDto),
    MissingComparison(ComparisonId),
    MissingExplanationComparison(ExplanationId),
    AmbiguousExplanationComparison { explanation: ExplanationId, candidates: Vec<ComparisonId> },
    FocusOutsideComparison { focus: FrameSpan, comparison: FrameSpan },
    MissingAsset(AssetId),
    AmbiguousResolution { what: Resolution, count: usize },
    FrequencyIsolationUnavailable { min_hz_bits: u32, max_hz_bits: u32, nyquist_bits: u32 },
    SourceMapping(String),
    SourceRender(String),
    OutputFormat(String),
    StalePublication { expected: ReadingEffectPin, actual: ReadingEffectPin },
}

/// What a refusal says.
pub enum EffectFault {
    Session(ProjectSessionError),
    ZeroGeneration,
    InvalidEntity(EntityRefKey),
    InvalidRegion(RegionDto),
    Aspect(WorkbenchFault),
    Selection(Seq<char>),
    NonContiguousGeometry(nat),
    UnresolvedEntity(EntityRefKey),
    UnsupportedSignalReference(EntityRefKey),
    MissingComparison(ComparisonId),
    MissingExplanationComparison(ExplanationId),
    AmbiguousExplanationComparison { explanation: ExplanationId, candidates: Seq<ComparisonId> },
    FocusOutsideComparison { focus: FrameSpan, comparison: FrameSpan },
    MissingAsset(AssetId),
    AmbiguousResolution { what: Resolution, count: nat },
    FrequencyIsolationUnavailable { min_hz_bits: u32, max_hz_bits: u32, nyquist_bits: u32 },
    SourceMapping(Seq<char>),
    SourceRender(Seq<char>),
    OutputFormat(Seq<char>),
    StalePublication { expected: ReadingEffectPin, actual: ReadingEffectPin },
}

impl View for ReadingEffectBridgeError {
    type V = EffectFault;

    open spec fn view(&self) -> EffectFault {
        match *self {
            ReadingEffectBridgeError::Session(error) => EffectFault::Session(error),
            ReadingEffectBridgeError::ZeroGeneration => EffectFault::ZeroGeneration,
            ReadingEffectBridgeError::InvalidEntity(entity) => EffectFault::InvalidEntity(entity@),
            ReadingEffectBridgeError::InvalidRegion(region) => EffectFault::InvalidRegion(region),
            ReadingEffectBridgeError::InvalidGeometry(GeometryRefusal::Aspect(error)) => {
                EffectFault::Aspect(error@)
            },
            ReadingEffectBridgeError::InvalidGeometry(GeometryRefusal::Selection(message)) => {
                EffectFault::Selection(message@)
            },
            ReadingEffectBridgeError::NonContiguousGeometry(count) => {
                EffectFault::NonContiguousGeometry(count as nat)
            },
            ReadingEffectBridgeError::UnresolvedEntity(entity) => EffectFault::UnresolvedEntity(
                entity@,
            ),
            ReadingEffectBridgeError::UnsupportedSignalReference(reference) => {
                EffectFault::UnsupportedSignalReference(reference@)
            },
            ReadingEffectBridgeError::MissingComparison(id) => EffectFault::MissingComparison(id),
            ReadingEffectBridgeError::MissingExplanationComparison(id) => {
                EffectFault::MissingExplanationComparison(id)
            },
            ReadingEffectBridgeError::AmbiguousExplanationComparison {
                explanation,
                candidates,
            } => EffectFault::AmbiguousExplanationComparison {
                explanation,
                candidates: candidates@,
            },
            ReadingEffectBridgeError::FocusOutsideComparison {
                focus,
                comparison,
            } => EffectFault::FocusOutsideComparison { focus, comparison },
            ReadingEffectBridgeError::MissingAsset(asset) => EffectFault::MissingAsset(asset),
            ReadingEffectBridgeError::AmbiguousResolution {
                what,
                count,
            } => EffectFault::AmbiguousResolution { what, count: count as nat },
            ReadingEffectBridgeError::FrequencyIsolationUnavailable {
                min_hz_bits,
                max_hz_bits,
                nyquist_bits,
            } => EffectFault::FrequencyIsolationUnavailable {
                min_hz_bits,
                max_hz_bits,
                nyquist_bits,
            },
            ReadingEffectBridgeError::SourceMapping(message) => EffectFault::SourceMapping(
                message@,
            ),
            ReadingEffectBridgeError::SourceRender(message) => EffectFault::SourceRender(message@),
            ReadingEffectBridgeError::OutputFormat(message) => EffectFault::OutputFormat(message@),
            ReadingEffectBridgeError::StalePublication {
                expected,
                actual,
            } => EffectFault::StalePublication { expected, actual },
        }
    }
}

/// Whether a result is what a model of it says.
pub open spec fn comes_to<T>(
    outcome: Result<T, ReadingEffectBridgeError>,
    expected: Result<T, EffectFault>,
) -> bool {
    match expected {
        Ok(value) => outcome == Ok::<T, ReadingEffectBridgeError>(value),
        Err(fault) => outcome matches Err(error) && error@ == fault,
    }
}

// ----- comparisons --------------------------------------------------------

/// Whether a comparison covers frames.
pub open spec fn covers(definition: ComparisonDefinition, focus: FrameSpan) -> bool {
    definition.source.project_span.start <= focus.start && focus.end
        <= definition.source.project_span.end
}

/// The comparisons among the first `i` that cover frames for an explanation.
pub open spec fn covering(
    list: Seq<ComparisonDefinition>,
    explanation: ExplanationId,
    focus: FrameSpan,
    i: int,
) -> Seq<ComparisonId>
    decreases i,
{
    if i <= 0 {
        Seq::empty()
    } else if list[i - 1].explanation == explanation && covers(list[i - 1], focus) {
        covering(list, explanation, focus, i - 1).push(list[i - 1].id)
    } else {
        covering(list, explanation, focus, i - 1)
    }
}

/// The one comparison that a reference stands for: by its identity, or the only one
/// for an explanation that covers the frames.
pub open spec fn comparison_of(
    store: InterpretationStore,
    reference: EntityRefKey,
    focus: FrameSpan,
) -> Result<ComparisonId, EffectFault> {
    match reference {
        EntityRefKey::Project { kind, local_id } => if kind == "comparison"@ {
            match store.kept(ComparisonId(local_id)) {
                None => Err(EffectFault::MissingComparison(ComparisonId(local_id))),
                Some(definition) => if covers(definition, focus) {
                    Ok(ComparisonId(local_id))
                } else {
                    Err(
                        EffectFault::FocusOutsideComparison {
                            focus,
                            comparison: definition.source.project_span,
                        },
                    )
                },
            }
        } else if kind == "explanation"@ {
            let explanation = ExplanationId(local_id);
            let candidates = covering(
                store.comparisons@,
                explanation,
                focus,
                store.comparisons@.len() as int,
            );
            if candidates.len() == 1 {
                Ok(candidates[0])
            } else if candidates.len() == 0 {
                Err(EffectFault::MissingExplanationComparison(explanation))
            } else {
                Err(EffectFault::AmbiguousExplanationComparison { explanation, candidates })
            }
        } else {
            Err(EffectFault::UnsupportedSignalReference(reference))
        },
        EntityRefKey::Reading(_) => Err(EffectFault::UnsupportedSignalReference(reference)),
    }
}

fn comparison_contains(definition: &ComparisonDefinition, focus: FrameSpan) -> (r: bool)
    ensures
        r == covers(*definition, focus),
{
    definition.source.project_span.start <= focus.start && focus.end
        <= definition.source.project_span.end
}

fn comparison_for(
    store: &InterpretationStore,
    reference: &EntityRefDto,
    focus: FrameSpan,
) -> (r: Result<ComparisonId, ReadingEffectBridgeError>)
    ensures
        comes_to(r, comparison_of(*store, reference@, focus)),
{
    match reference {
        EntityRefDto::Project { kind, local_id } => {
            if same_text(kind.as_str(), "comparison") {
                let id = ComparisonId(*local_id);
                match store.comparison(id) {
                    None => Err(ReadingEffectBridgeError::MissingComparison(id)),
                    Some(definition) => if comparison_contains(definition, focus) {
                        Ok(id)
                    } else {
                        Err(
                            ReadingEffectBridgeError::FocusOutsideComparison {
                                focus,
                                comparison: definition.source.project_span,
                            },
                        )
                    },
                }
            } else if same_text(kind.as_str(), "explanation") {
                let explanation = ExplanationId(*local_id);
                let mut candidates: Vec<ComparisonId> = Vec::new();
                let mut i: usize = 0;
                while i < store.comparisons.len()
                    invariant
                        i <= store.comparisons.len(),
                        candidates@ == covering(
                            store.comparisons@,
                            explanation,
                            focus,
                            i as int,
                        ),
                    decreases store.comparisons.len() - i,
                {
                    let definition = &store.comparisons[i];
                    if definition.explanation == explanation && comparison_contains(
                        definition,
                        focus,
                    ) {
                        candidates.push(definition.id);
                    }
                    i = i + 1;
                }
                if candidates.len() == 1 {
                    Ok(candidates[0])
                } else if candidates.len() == 0 {
                    Err(ReadingEffectBridgeError::MissingExplanationComparison(explanation))
                } else {
                    Err(
                        ReadingEffectBridgeError::AmbiguousExplanationComparison {
                            explanation,
                            candidates,
                        },
                    )
                }
            } else {
                Err(ReadingEffectBridgeError::UnsupportedSignalReference(reference.clone()))
            }
        },
        EntityRefDto::Reading(_) => Err(
            ReadingEffectBridgeError::UnsupportedSignalReference(reference.clone()),
        ),
    }
}

proof fn covering_comparisons_are_kept(
    store: InterpretationStore,
    explanation: ExplanationId,
    focus: FrameSpan,
    i: int,
    k: int,
)
    requires
        0 <= i <= store.comparisons@.len(),
        0 <= k < covering(store.comparisons@, explanation, focus, i).len(),
    ensures
        store.kept(covering(store.comparisons@, explanation, focus, i)[k]) is Some,
    decreases i,
{
    let list = store.comparisons@;
    if i > 0 {
        let before = covering(list, explanation, focus, i - 1);
        if k < before.len() {
            covering_comparisons_are_kept(store, explanation, focus, i - 1, k);
        } else {
            listed_comparisons_are_found(list, list[i - 1].id, 0, i - 1);
        }
    }
}

proof fn listed_comparisons_are_found(
    list: Seq<ComparisonDefinition>,
    id: ComparisonId,
    i: int,
    at: int,
)
    requires
        0 <= i <= at < list.len(),
        list[at].id == id,
    ensures
        comparison_at(list, id, i) is Some,
    decreases list.len() - i,
{
    if list[i].id != id {
        listed_comparisons_are_found(list, id, i + 1, at);
    }
}

// ----- cropping -----------------------------------------------------------

/// The part of a citation that frames and channels ask for. Frames of the source
/// and of the project have to correspond one to one.
pub open spec fn cropped(citation: SourceCitation, focus: FrameSpan, channels: u16) -> Result<
    SourceCitation,
    EffectFault,
> {
    let span = citation.project_span;
    let selected = channels & citation.channels;
    if span.start > focus.start || focus.end > span.end {
        Err(EffectFault::FocusOutsideComparison { focus, comparison: span })
    } else if span.end - span.start > i64::MAX || span.end < span.start {
        Err(EffectFault::SourceMapping("comparison span overflow"@))
    } else if citation.source_end - citation.source_start != span.end - span.start {
        Err(EffectFault::SourceMapping("comparison source requires resampling"@))
    } else if selected == 0 {
        Err(
            EffectFault::SourceMapping(
                "requested channels do not intersect the comparison source"@,
            ),
        )
    } else {
        Ok(
            SourceCitation {
                asset: citation.asset,
                source_start: (citation.source_start + (focus.start - span.start)) as u64,
                source_end: (citation.source_start + (focus.end - span.start)) as u64,
                project_span: focus,
                channels: selected,
            },
        )
    }
}

fn crop_citation(citation: SourceCitation, focus: FrameSpan, channels: u16) -> (r: Result<
    SourceCitation,
    ReadingEffectBridgeError,
>)
    requires
        focus.start < focus.end,
    ensures
        comes_to(r, cropped(citation, focus, channels)),
{
    let span = citation.project_span;
    if span.start > focus.start || focus.end > span.end {
        return Err(ReadingEffectBridgeError::FocusOutsideComparison { focus, comparison: span });
    }
    let project_frames: i128 = span.end as i128 - span.start as i128;
    if project_frames > i64::MAX as i128 || project_frames < 0 {
        return Err(ReadingEffectBridgeError::SourceMapping(owned("comparison span overflow")));
    }
    let source_frames: i128 = citation.source_end as i128 - citation.source_start as i128;
    if source_frames != project_frames {
        return Err(
            ReadingEffectBridgeError::SourceMapping(
                owned("comparison source requires resampling"),
            ),
        );
    }
    let start: i128 = citation.source_start as i128 + (focus.start as i128 - span.start as i128);
    let end: i128 = citation.source_start as i128 + (focus.end as i128 - span.start as i128);
    let selected: u16 = channels & citation.channels;
    if selected == 0 {
        return Err(
            ReadingEffectBridgeError::SourceMapping(
                owned("requested channels do not intersect the comparison source"),
            ),
        );
    }
    Ok(
        SourceCitation {
            asset: citation.asset,
            source_start: start as u64,
            source_end: end as u64,
            project_span: focus,
            channels: selected,
        },
    )
}

// ----- placements ---------------------------------------------------------

/// The assets among the first `i` that stand for a source.
pub open spec fn bound_assets(list: Seq<AssetSource>, source: SourceId, i: int) -> Seq<AssetId>
    decreases i,
{
    if i <= 0 {
        Seq::empty()
    } else if list[i - 1].source == source {
        bound_assets(list, source, i - 1).push(list[i - 1].asset)
    } else {
        bound_assets(list, source, i - 1)
    }
}

fn collect_bound_assets(list: &Vec<AssetSource>, source: SourceId) -> (r: Vec<AssetId>)
    ensures
        r@ == bound_assets(list@, source, list@.len() as int),
{
    let mut assets: Vec<AssetId> = Vec::new();
    let mut i: usize = 0;
    while i < list.len()
        invariant
            i <= list.len(),
            assets@ == bound_assets(list@, source, i as int),
        decreases list.len() - i,
    {
        if list[i].source == source {
            assets.push(list[i].asset);
        }
        i = i + 1;
    }
    assets
}

/// The asset that a name stands for, looked for from index `i` on.
pub open spec fn alias_asset(list: Seq<AssetAlias>, alias: MediaAliasId, i: int) -> Option<AssetId>
    decreases list.len() - i,
{
    if i < 0 || i >= list.len() {
        None
    } else if list[i].alias == alias {
        Some(list[i].asset)
    } else {
        alias_asset(list, alias, i + 1)
    }
}

fn find_alias_asset(list: &Vec<AssetAlias>, alias: MediaAliasId) -> (r: Option<AssetId>)
    ensures
        r == alias_asset(list@, alias, 0),
{
    let mut i: usize = 0;
    while i < list.len()
        invariant
            i <= list.len(),
            alias_asset(list@, alias, 0) == alias_asset(list@, alias, i as int),
        decreases list.len() - i,
    {
        if list[i].alias == alias {
            return Some(list[i].asset);
        }
        i = i + 1;
    }
    None
}

/// The object that a clip stands for, looked for from index `i` on.
pub open spec fn clip_object(list: Seq<ClipObject>, clip: ClipId, i: int) -> Option<GraphObjectId>
    decreases list.len() - i,
{
    if i < 0 || i >= list.len() {
        None
    } else if list[i].clip == clip {
        Some(list[i].object)
    } else {
        clip_object(list, clip, i + 1)
    }
}

fn find_clip_object(list: &Vec<ClipObject>, clip: ClipId) -> (r: Option<GraphObjectId>)
    ensures
        r == clip_object(list@, clip, 0),
{
    let mut i: usize = 0;
    while i < list.len()
        invariant
            i <= list.len(),
            clip_object(list@, clip, 0) == clip_object(list@, clip, i as int),
        decreases list.len() - i,
    {
        if list[i].clip == clip {
            return Some(list[i].object);
        }
        i = i + 1;
    }
    None
}

/// Whether a clip plays an asset as it is over some frames, and stands for an
/// object if there is one to stand for.
pub open spec fn plays(
    graph: SourceGraph,
    clip: PlacedClip,
    object: Option<GraphObjectId>,
    asset: AssetId,
    focus: FrameSpan,
) -> bool {
    &&& object is Some ==> clip_object(graph.clip_objects@, clip.id, 0) == object
    &&& clip.audio matches Some(audio)
    &&& alias_asset(graph.aliases@, audio.asset, 0) == Some(asset)
    &&& clip.start <= focus.start
    &&& focus.end <= clip.end
    &&& audio.unity
}

/// The clips among the first `i` that play an asset so.
pub open spec fn placements(
    graph: SourceGraph,
    object: Option<GraphObjectId>,
    asset: AssetId,
    focus: FrameSpan,
    i: int,
) -> Seq<PlacedClip>
    decreases i,
{
    if i <= 0 {
        Seq::empty()
    } else if plays(graph, graph.clips@[i - 1], object, asset, focus) {
        placements(graph, object, asset, focus, i - 1).push(graph.clips@[i - 1])
    } else {
        placements(graph, object, asset, focus, i - 1)
    }
}

fn collect_placements(
    graph: &SourceGraph,
    object: Option<GraphObjectId>,
    asset: AssetId,
    focus: FrameSpan,
) -> (r: Vec<PlacedClip>)
    ensures
        r@ == placements(*graph, object, asset, focus, graph.clips@.len() as int),
{
    let mut found: Vec<PlacedClip> = Vec::new();
    let mut i: usize = 0;
    while i < graph.clips.len()
        invariant
            i <= graph.clips.len(),
            found@ == placements(*graph, object, asset, focus, i as int),
        decreases graph.clips.len() - i,
    {
        let clip = graph.clips[i];
        let stands = match object {
            Some(object) => match find_clip_object(&graph.clip_objects, clip.id) {
                Some(owner) => owner == object,
                None => false,
            },
            None => true,
        };
        let sounds = match clip.audio {
            Some(audio) => audio.unity && clip.start <= focus.start && focus.end <= clip.end
                && match find_alias_asset(&graph.aliases, audio.asset) {
                Some(named) => named == asset,
                None => false,
            },
            None => false,
        };
        if stands && sounds {
            found.push(clip);
        }
        i = i + 1;
    }
    found
}

/// The frames of a source that a clip plays over frames of the project.
pub open spec fn clip_citation(
    clip: PlacedClip,
    asset: AssetId,
    focus: FrameSpan,
    channels: u16,
) -> Result<SourceCitation, EffectFault> {
    let offset = focus.start - clip.start;
    let frames = focus.end - focus.start;
    let start = clip.audio->0.source_start + offset;
    if offset > i64::MAX {
        Err(EffectFault::SourceMapping("negative clip offset"@))
    } else if start > u64::MAX {
        Err(EffectFault::SourceMapping("source offset overflow"@))
    } else if frames > i64::MAX {
        Err(EffectFault::SourceMapping("source span overflow"@))
    } else if start + frames > u64::MAX {
        Err(EffectFault::SourceMapping("source end overflow"@))
    } else {
        Ok(
            SourceCitation {
                asset,
                source_start: start as u64,
                source_end: (start + frames) as u64,
                project_span: focus,
                channels,
            },
        )
    }
}

fn cite_clip(
    clip: PlacedClip,
    source_start: u64,
    asset: AssetId,
    focus: FrameSpan,
    channels: u16,
) -> (r: Result<SourceCitation, ReadingEffectBridgeError>)
    requires
        clip.audio is Some,
        clip.audio->0.source_start == source_start,
        clip.start <= focus.start < focus.end,
    ensures
        comes_to(r, clip_citation(clip, asset, focus, channels)),
{
    let offset: i128 = focus.start as i128 - clip.start as i128;
    if offset > i64::MAX as i128 {
        return Err(ReadingEffectBridgeError::SourceMapping(owned("negative clip offset")));
    }
    let start: i128 = source_start as i128 + offset;
    if start > u64::MAX as i128 {
        return Err(ReadingEffectBridgeError::SourceMapping(owned("source offset overflow")));
    }
    let frames: i128 = focus.end as i128 - focus.start as i128;
    if frames > i64::MAX as i128 {
        return Err(ReadingEffectBridgeError::SourceMapping(owned("source span overflow")));
    }
    if start + frames > u64::MAX as i128 {
        return Err(ReadingEffectBridgeError::SourceMapping(owned("source end overflow")));
    }
    Ok(
        SourceCitation {
            asset,
            source_start: start as u64,
            source_end: (start + frames) as u64,
            project_span: focus,
            channels,
        },
    )
}

// ----- sources ------------------------------------------------------------

/// The frames of a region.
pub open spec fn focus_of(region: RegionDto) -> FrameSpan {
    FrameSpan { start: region.start_frame, end: region.end_frame }
}

/// The object that an entity is, if it is one.
pub open spec fn entity_object(entity: EntityRefKey) -> Option<GraphObjectId> {
    match entity {
        EntityRefKey::Project { kind, local_id } => if kind == "air-object"@ {
            Some(GraphObjectId(local_id))
        } else {
            None
        },
        EntityRefKey::Reading(_) => None,
    }
}

/// The frames of a source for a region, where one source is known: exactly one
/// asset stands for it, the region takes all of its band, and exactly one clip
/// plays it there as it is.
pub open spec fn located(
    graph: SourceGraph,
    entity: EntityRefKey,
    source: SourceId,
    region: RegionDto,
) -> Result<SourceCitation, EffectFault> {
    let assets = bound_assets(graph.asset_sources@, source, graph.asset_sources@.len() as int);
    if assets.len() != 1 {
        Err(
            EffectFault::AmbiguousResolution { what: Resolution::BoundAsset, count: assets.len() },
        )
    } else {
        match asset_nyquist(graph.assets@, assets[0], 0) {
            None => Err(EffectFault::MissingAsset(assets[0])),
            Some(nyquist_bits) => if number_lt(0, region.min_hz_bits) || number_lt(
                region.max_hz_bits,
                nyquist_bits,
            ) {
                Err(
                    EffectFault::FrequencyIsolationUnavailable {
                        min_hz_bits: region.min_hz_bits,
                        max_hz_bits: region.max_hz_bits,
                        nyquist_bits,
                    },
                )
            } else {
                let clips = placements(
                    graph,
                    entity_object(entity),
                    assets[0],
                    focus_of(region),
                    graph.clips@.len() as int,
                );
                if clips.len() != 1 {
                    Err(
                        EffectFault::AmbiguousResolution {
                            what: Resolution::UnityPlacement,
                            count: clips.len(),
                        },
                    )
                } else {
                    clip_citation(clips[0], assets[0], focus_of(region), region.channels)
                }
            },
        }
    }
}

proof fn placements_play(
    graph: SourceGraph,
    object: Option<GraphObjectId>,
    asset: AssetId,
    focus: FrameSpan,
    i: int,
    k: int,
)
    requires
        0 <= i <= graph.clips@.len(),
        0 <= k < placements(graph, object, asset, focus, i).len(),
    ensures
        plays(graph, placements(graph, object, asset, focus, i)[k], object, asset, focus),
    decreases i,
{
    if i > 0 {
        let before = placements(graph, object, asset, focus, i - 1);
        if k < before.len() {
            placements_play(graph, object, asset, focus, i - 1, k);
        }
    }
}

fn locate(
    graph: &SourceGraph,
    entity: &EntityRefDto,
    source: SourceId,
    region: RegionDto,
) -> (r: Result<SourceCitation, ReadingEffectBridgeError>)
    requires
        region.is_valid(),
    ensures
        comes_to(r, located(*graph, entity@, source, region)),
{
    let focus = FrameSpan { start: region.start_frame, end: region.end_frame };
    let assets = collect_bound_assets(&graph.asset_sources, source);
    if assets.len() != 1 {
        return Err(
            ReadingEffectBridgeError::AmbiguousResolution {
                what: Resolution::BoundAsset,
                count: assets.len(),
            },
        );
    }
    let asset = assets[0];
    let nyquist_bits: u32 = match find_asset_nyquist(&graph.assets, asset) {
        Some(nyquist_bits) => nyquist_bits,
        None => {
            return Err(ReadingEffectBridgeError::MissingAsset(asset));
        },
    };
    if number_before(0, region.min_hz_bits) || number_before(region.max_hz_bits, nyquist_bits) {
        return Err(
            ReadingEffectBridgeError::FrequencyIsolationUnavailable {
                min_hz_bits: region.min_hz_bits,
                max_hz_bits: region.max_hz_bits,
                nyquist_bits,
            },
        );
    }
    let object = match entity {
        EntityRefDto::Project { kind, local_id } => if same_text(kind.as_str(), "air-object") {
            Some(GraphObjectId(*local_id))
        } else {
            None
        },
        EntityRefDto::Reading(_) => None,
    };
    let clips = collect_placements(graph, object, asset, focus);
    if clips.len() != 1 {
        return Err(
            ReadingEffectBridgeError::AmbiguousResolution {
                what: Resolution::UnityPlacement,
                count: clips.len(),
            },
        );
    }
    let clip = clips[0];
    proof {
        placements_play(*graph, object, asset, focus, graph.clips@.len() as int, 0);
    }
    let source_start: u64 = match clip.audio {
        Some(audio) => audio.source_start,
        None => 0,
    };
    cite_clip(clip, source_start, asset, focus, region.channels)
}

/// What tracing an entity to its source comes to, where it is no comparison and no
/// explanation.
pub open spec fn traced(
    graph: SourceGraph,
    entity: EntityRefKey,
    region: RegionDto,
    outcome: Result<SourceCitation, ReadingEffectBridgeError>,
) -> bool {
    match entity_roots(graph, entity) {
        None => outcome matches Err(error) && error@ == EffectFault::UnresolvedEntity(entity),
        Some(roots) => if dangles(graph, roots.objects) {
            outcome matches Err(error) && error@ == EffectFault::UnresolvedEntity(entity)
        } else {
            exists|sources: Seq<SourceId>| #[trigger]
                are_sources(graph, roots, sources) && if sources.len() != 1 {
                    outcome matches Err(error) && error@ == (EffectFault::AmbiguousResolution {
                        what: Resolution::AirSource,
                        count: sources.len(),
                    })
                } else {
                    comes_to(outcome, located(graph, entity, sources[0], region))
                }
        },
    }
}

/// What finding the frames of a source for an entity comes to.
pub open spec fn cited(
    view: EffectView,
    entity: EntityRefKey,
    region: RegionDto,
    outcome: Result<SourceCitation, ReadingEffectBridgeError>,
) -> bool {
    let focus = focus_of(region);
    match entity {
        EntityRefKey::Project { kind, local_id } => if kind == "comparison"@ {
            match view.store.kept(ComparisonId(local_id)) {
                None => comes_to(
                    outcome,
                    Err(EffectFault::MissingComparison(ComparisonId(local_id))),
                ),
                Some(definition) => comes_to(
                    outcome,
                    cropped(definition.source, focus, region.channels),
                ),
            }
        } else if kind == "explanation"@ {
            match comparison_of(view.store, entity, focus) {
                Err(fault) => comes_to(outcome, Err(fault)),
                Ok(id) => comes_to(
                    outcome,
                    cropped(view.store.kept(id)->0.source, focus, region.channels),
                ),
            }
        } else {
            traced(view.graph(), entity, region, outcome)
        },
        EntityRefKey::Reading(_) => traced(view.graph(), entity, region, outcome),
    }
}

fn trace_source(graph: &SourceGraph, entity: &EntityRefDto, region: RegionDto) -> (r: Result<
    SourceCitation,
    ReadingEffectBridgeError,
>)
    requires
        region.is_valid(),
    ensures
        traced(*graph, entity@, region, r),
{
    let sources = match entity_sources(entity, graph) {
        Some(sources) => sources,
        None => {
            return Err(ReadingEffectBridgeError::UnresolvedEntity(entity.clone()));
        },
    };
    assert(are_sources(*graph, entity_roots(*graph, entity@)->0, sources@));
    if sources.len() != 1 {
        return Err(
            ReadingEffectBridgeError::AmbiguousResolution {
                what: Resolution::AirSource,
                count: sources.len(),
            },
        );
    }
    locate(graph, entity, sources[0], region)
}

fn source_citation(
    snapshot: &ReadingEffectSnapshot,
    entity: &EntityRefDto,
    region: RegionDto,
) -> (r: Result<SourceCitation, ReadingEffectBridgeError>)
    requires
        region.is_valid(),
    ensures
        cited(snapshot@, entity@, region, r),
{
    let graph = &snapshot.project.project.graph;
    let store = &*snapshot.interpretations;
    let focus = FrameSpan { start: region.start_frame, end: region.end_frame };
    match entity {
        EntityRefDto::Project { kind, local_id } => {
            if same_text(kind.as_str(), "comparison") {
                let id = ComparisonId(*local_id);
                match store.comparison(id) {
                    None => Err(ReadingEffectBridgeError::MissingComparison(id)),
                    Some(definition) => crop_citation(definition.source, focus, region.channels),
                }
            } else if same_text(kind.as_str(), "explanation") {
                let id = match comparison_for(store, entity, focus) {
                    Ok(id) => id,
                    Err(error) => {
                        return Err(error);
                    },
                };
                proof {
                    if kind@ != "comparison"@ {
                        covering_comparisons_are_kept(
                            *store,
                            ExplanationId(*local_id),
                            focus,
                            store.comparisons@.len() as int,
                            0,
                        );
                    }
                }
                match store.comparison(id) {
                    Some(definition) => crop_citation(definition.source, focus, region.channels),
                    None => Err(ReadingEffectBridgeError::MissingComparison(id)),
                }
            } else {
                trace_source(graph, entity, region)
            }
        },
        EntityRefDto::Reading(_) => trace_source(graph, entity, region),
    }
}

// ----- auditions ----------------------------------------------------------

/// What planning an audition comes to.
pub open spec fn audition_outcome(
    view: EffectView,
    target: AuditionTarget,
    generation: u64,
    outcome: Result<ReadingAuditionPlan, ReadingEffectBridgeError>,
) -> bool {
    let regions = target.extent.regions@;
    if generation == 0 {
        outcome matches Err(error) && error@ == EffectFault::ZeroGeneration
    } else if !valid_reference(target.entity@) {
        outcome matches Err(error) && error@ == EffectFault::InvalidEntity(target.entity@)
    } else if regions.len() != 1 {
        outcome matches Err(error) && error@ == EffectFault::NonContiguousGeometry(regions.len())
    } else if !regions[0].is_valid() {
        outcome matches Err(error) && error@ == EffectFault::InvalidRegion(regions[0])
    } else {
        match target.extent@.signal {
            SignalView::Source => source_plan(view, target, generation, outcome),
            SignalView::Explanation(reference) => comparison_plan(
                view,
                target,
                reference,
                ComparisonChannel::Construction,
                outcome,
            ),
            SignalView::Residual(reference) => comparison_plan(
                view,
                target,
                reference,
                ComparisonChannel::Residual,
                outcome,
            ),
        }
    }
}

/// What planning to hear a source comes to.
pub open spec fn source_plan(
    view: EffectView,
    target: AuditionTarget,
    generation: u64,
    outcome: Result<ReadingAuditionPlan, ReadingEffectBridgeError>,
) -> bool {
    exists|citation: Result<SourceCitation, ReadingEffectBridgeError>| #[trigger]
        cited(view, target.entity@, target.extent.regions@[0], citation) && match citation {
            Err(error) => outcome == Err::<ReadingAuditionPlan, ReadingEffectBridgeError>(error),
            Ok(citation) => outcome == Ok::<ReadingAuditionPlan, ReadingEffectBridgeError>(
                ReadingAuditionPlan::Source(
                    ReadingSourceAuditionPlan {
                        pin: view.pin,
                        generation,
                        entity: target.entity,
                        citation,
                    },
                ),
            ),
        }
}

/// What planning to hear a part of a comparison comes to.
pub open spec fn comparison_plan(
    view: EffectView,
    target: AuditionTarget,
    reference: EntityRefKey,
    channel: ComparisonChannel,
    outcome: Result<ReadingAuditionPlan, ReadingEffectBridgeError>,
) -> bool {
    let focus = focus_of(target.extent.regions@[0]);
    match comparison_of(view.store, reference, focus) {
        Err(fault) => outcome matches Err(error) && error@ == fault,
        Ok(comparison) => outcome == Ok::<ReadingAuditionPlan, ReadingEffectBridgeError>(
            ReadingAuditionPlan::Comparison(
                ReadingComparisonAuditionPlan {
                    pin: view.pin,
                    entity: target.entity,
                    comparison,
                    channel,
                    focus,
                },
            ),
        ),
    }
}

// ----- reveals ------------------------------------------------------------

/// The hypotheses among the first `i` that note a foreign identity.
pub open spec fn noted(list: Seq<GraphHypothesis>, note: Seq<char>, i: int) -> Seq<HypothesisId>
    decreases i,
{
    if i <= 0 {
        Seq::empty()
    } else if optional_text(list[i - 1].note) == Some(note) {
        noted(list, note, i - 1).push(list[i - 1].id)
    } else {
        noted(list, note, i - 1)
    }
}

/// What an entity is revealed as.
pub open spec fn revealed(graph: SourceGraph, entity: EntityRefKey) -> Result<
    ReadingRevealSubject,
    EffectFault,
> {
    match entity {
        EntityRefKey::Project { kind, local_id } => if kind == "comparison"@ {
            Ok(ReadingRevealSubject::Object(ObjectRef::Comparison(ComparisonId(local_id))))
        } else if kind == "explanation"@ {
            Ok(ReadingRevealSubject::Object(ObjectRef::Explanation(ExplanationId(local_id))))
        } else if kind == "air-object"@ {
            Ok(ReadingRevealSubject::Air(AirSelection::Object(GraphObjectId(local_id))))
        } else if kind == "air-hypothesis"@ {
            Ok(ReadingRevealSubject::Air(AirSelection::Hypothesis(HypothesisId(local_id))))
        } else if kind == "air-source"@ {
            let assets = bound_assets(
                graph.asset_sources@,
                SourceId(local_id),
                graph.asset_sources@.len() as int,
            );
            if assets.len() == 1 {
                Ok(ReadingRevealSubject::Object(ObjectRef::Material(assets[0])))
            } else {
                Err(
                    EffectFault::AmbiguousResolution {
                        what: Resolution::BoundAsset,
                        count: assets.len(),
                    },
                )
            }
        } else if kind == "air-parameter"@ {
            match parameter_object(graph, local_id) {
                Some(object) => Ok(ReadingRevealSubject::Air(AirSelection::Object(object))),
                None => Err(EffectFault::UnresolvedEntity(entity)),
            }
        } else {
            Err(EffectFault::UnresolvedEntity(entity))
        },
        EntityRefKey::Reading(foreign) => {
            let found = noted(
                graph.hypotheses@,
                foreign_note(foreign),
                graph.hypotheses@.len() as int,
            );
            if found.len() == 1 {
                Ok(ReadingRevealSubject::Air(AirSelection::Hypothesis(found[0])))
            } else {
                Err(
                    EffectFault::AmbiguousResolution {
                        what: Resolution::ImportedHypothesis,
                        count: found.len(),
                    },
                )
            }
        },
    }
}

fn reveal_subject(graph: &SourceGraph, entity: &EntityRefDto) -> (r: Result<
    ReadingRevealSubject,
    ReadingEffectBridgeError,
>)
    ensures
        comes_to(r, revealed(*graph, entity@)),
{
    match entity {
        EntityRefDto::Project { kind, local_id } => {
            let kind = kind.as_str();
            if same_text(kind, "comparison") {
                Ok(ReadingRevealSubject::Object(ObjectRef::Comparison(ComparisonId(*local_id))))
            } else if same_text(kind, "explanation") {
                Ok(ReadingRevealSubject::Object(ObjectRef::Explanation(ExplanationId(*local_id))))
            } else if same_text(kind, "air-object") {
                Ok(ReadingRevealSubject::Air(AirSelection::Object(GraphObjectId(*local_id))))
            } else if same_text(kind, "air-hypothesis") {
                Ok(ReadingRevealSubject::Air(AirSelection::Hypothesis(HypothesisId(*local_id))))
            } else if same_text(kind, "air-source") {
                let assets = collect_bound_assets(&graph.asset_sources, SourceId(*local_id));
                if assets.len() == 1 {
                    Ok(ReadingRevealSubject::Object(ObjectRef::Material(assets[0])))
                } else {
                    Err(
                        ReadingEffectBridgeError::AmbiguousResolution {
                            what: Resolution::BoundAsset,
                            count: assets.len(),
                        },
                    )
                }
            } else if same_text(kind, "air-parameter") {
                match find_parameter_object(graph, *local_id) {
                    Some(object) => Ok(ReadingRevealSubject::Air(AirSelection::Object(object))),
                    None => Err(ReadingEffectBridgeError::UnresolvedEntity(entity.clone())),
                }
            } else {
                Err(ReadingEffectBridgeError::UnresolvedEntity(entity.clone()))
            }
        },
        EntityRefDto::Reading(foreign) => {
            let note = write_foreign_note(foreign);
            let mut found: Vec<HypothesisId> = Vec::new();
            let mut i: usize = 0;
            while i < graph.hypotheses.len()
                invariant
                    i <= graph.hypotheses.len(),
                    note@ == foreign_note(foreign@),
                    found@ == noted(graph.hypotheses@, foreign_note(foreign@), i as int),
                decreases graph.hypotheses.len() - i,
            {
                let same = match &graph.hypotheses[i].note {
                    Some(text) => same_text(text.as_str(), note.as_str()),
                    None => false,
                };
                if same {
                    found.push(graph.hypotheses[i].id);
                }
                i = i + 1;
            }
            if found.len() == 1 {
                Ok(ReadingRevealSubject::Air(AirSelection::Hypothesis(found[0])))
            } else {
                Err(
                    ReadingEffectBridgeError::AmbiguousResolution {
                        what: Resolution::ImportedHypothesis,
                        count: found.len(),
                    },
                )
            }
        },
    }
}

/// The first region that is not valid, looked for from index `i` on.
pub open spec fn invalid_region(regions: Seq<RegionDto>, i: int) -> Option<RegionDto>
    decreases regions.len() - i,
{
    if i < 0 || i >= regions.len() {
        None
    } else if !regions[i].is_valid() {
        Some(regions[i])
    } else {
        invalid_region(regions, i + 1)
    }
}

/// The first region of optional geometry that is not valid.
pub open spec fn extent_fault(extent: Option<AspectGeometryDto>) -> Option<RegionDto> {
    match extent {
        Some(geometry) => invalid_region(geometry.regions@, 0),
        None => None,
    }
}

fn check_regions(regions: &Vec<RegionDto>) -> (r: Option<RegionDto>)
    ensures
        r == invalid_region(regions@, 0),
{
    let mut i: usize = 0;
    while i < regions.len()
        invariant
            i <= regions.len(),
            invalid_region(regions@, 0) == invalid_region(regions@, i as int),
        decreases regions.len() - i,
    {
        if !regions[i].valid() {
            return Some(regions[i]);
        }
        i = i + 1;
    }
    None
}

/// Whether a reference is the project's own.
pub open spec fn is_local(reference: EntityRefKey) -> bool {
    reference is Project
}

/// Whether geometry names nothing but the project's own entities.
pub open spec fn geometry_is_local(geometry: GeometryView) -> bool {
    &&& forall|i: int|
        0 <= i < geometry.objects.len() ==> is_local(#[trigger] geometry.objects[i])
    &&& signal_reference(geometry.signal) matches Some(reference) ==> is_local(reference)
}

fn local(reference: &EntityRefDto) -> (r: bool)
    ensures
        r == is_local(reference@),
{
    match reference {
        EntityRefDto::Project { .. } => true,
        EntityRefDto::Reading(_) => false,
    }
}

fn geometry_is_project_local(extent: &AspectGeometryDto) -> (r: bool)
    ensures
        r == geometry_is_local(extent@),
{
    let mut i: usize = 0;
    while i < extent.objects.len()
        invariant
            i <= extent.objects.len(),
            forall|k: int|
                0 <= k < i ==> is_local(#[trigger] extent@.objects[k]),
        decreases extent.objects.len() - i,
    {
        assert(extent@.objects[i as int] == extent.objects@[i as int]@);
        if !local(&extent.objects[i]) {
            return false;
        }
        i = i + 1;
    }
    match &extent.signal {
        SignalLayerDto::Source => true,
        SignalLayerDto::Explanation { reference } => local(reference),
        SignalLayerDto::Residual { reference } => local(reference),
    }
}

/// The signal and the frames of a selected aspect.
#[derive(Clone, Copy, Debug, PartialEq, Eq, Structural)]
pub struct SelectedAspect {
    pub signal: Option<SelectedSignal>,
    pub time: Option<TimeSpan>,
}

/// The selection of a subject, without geometry.
pub open spec fn subject_selection(
    subject: ReadingRevealSubject,
    guard: SelectionGuard,
    source_view: WorkspaceViewId,
) -> SelectionView {
    match subject {
        ReadingRevealSubject::Object(object) => SelectionView {
            primary: Some(object),
            guard: Some(guard),
            provenance: SelectionProvenance {
                source: SelectionSource::Reading,
                source_view: Some(source_view),
            },
            ..empty_selection()
        },
        ReadingRevealSubject::Air(air) => SelectionView { air: seq![air], ..empty_selection() },
    }
}

/// What selecting what is revealed comes to. Geometry is selected only if it is the
/// project's own: that of a reading stays unselected, the identity is selected
/// still.
pub open spec fn selection_outcome(
    view: EffectView,
    plan: ReadingRevealPlan,
    guard: SelectionGuard,
    source_view: WorkspaceViewId,
    aspect: Result<SelectedAspect, String>,
    outcome: Result<ProjectSelection, ReadingEffectBridgeError>,
) -> bool {
    let plain = subject_selection(plan.subject, guard, source_view);
    if plan.pin != view.pin {
        outcome matches Err(error) && error@ == (EffectFault::StalePublication {
            expected: plan.pin,
            actual: view.pin,
        })
    } else {
        match plan.extent {
            None => outcome matches Ok(selection) && selection@ == plain,
            Some(extent) => if !geometry_is_local(extent@) {
                outcome matches Ok(selection) && selection@ == plain
            } else {
                match (compiled_aspect(extent@), aspect) {
                    (Err(fault), _) => outcome matches Err(error) && error@
                        == EffectFault::Aspect(fault),
                    (Ok(_), Err(message)) => outcome matches Err(error) && error@
                        == EffectFault::Selection(message@),
                    (Ok(_), Ok(aspect)) => outcome matches Ok(selection) && selection@ == (
                    SelectionView {
                        aspect: Some(extent@),
                        signal: aspect.signal,
                        time: aspect.time,
                        ..plain
                    }),
                }
            },
        }
    }
}

// ----- rendering ----------------------------------------------------------

/// How the channels of a source become those of an output.
#[derive(Clone, Copy, Debug, PartialEq, Eq, Structural)]
pub enum ChannelProjection {
    /// Channel by channel.
    Same,
    /// One channel to both.
    MonoToStereo,
    /// The mean of both.
    StereoToMono,
}

/// How channels become others, if they can.
pub open spec fn projection(input: u16, output: u16) -> Option<ChannelProjection> {
    if input == output {
        Some(ChannelProjection::Same)
    } else if input == 1 && output == 2 {
        Some(ChannelProjection::MonoToStereo)
    } else if input == 2 && output == 1 {
        Some(ChannelProjection::StereoToMono)
    } else {
        None
    }
}

/// The format of a source or an output.
#[derive(Clone, Copy, Debug, PartialEq, Eq, Structural)]
pub struct RenderFormat {
    pub sample_rate: u32,
    pub channels: u16,
}

/// A source that is heard: who hears it, for which generation, over which frames
/// and how its channels become those of the output. It replaces what plays.
#[derive(Clone, Copy, Debug, PartialEq, Eq, Structural)]
pub struct SourceAudition {
    pub owner: AuditionOwner,
    pub revision: u64,
    pub subject: AuditionSubject,
    pub mix: AuditionMix,
    pub span: FrameSpan,
    pub output: RenderFormat,
    pub projection: ChannelProjection,
}

/// What rendering a source comes to, given the format of its frames.
pub open spec fn render_outcome(
    view: EffectView,
    plan: ReadingSourceAuditionPlan,
    owner: AuditionOwner,
    source: Result<RenderFormat, String>,
    output: RenderFormat,
) -> Result<SourceAudition, EffectFault> {
    if plan.pin != view.pin {
        Err(EffectFault::StalePublication { expected: plan.pin, actual: view.pin })
    } else {
        match source {
            Err(message) => Err(EffectFault::SourceRender(message@)),
            Ok(source) => if source.sample_rate != output.sample_rate {
                Err(
                    EffectFault::OutputFormat(
                        "source is "@ + decimal(source.sample_rate as nat)
                            + " Hz but the active renderer is "@ + decimal(
                            output.sample_rate as nat,
                        ) + " Hz"@,
                    ),
                )
            } else {
                match projection(source.channels, output.channels) {
                    None => Err(
                        EffectFault::OutputFormat(
                            "cannot project "@ + decimal(source.channels as nat)
                                + " source channels into "@ + decimal(output.channels as nat)
                                + " renderer channels"@,
                        ),
                    ),
                    Some(projection) => Ok(
                        SourceAudition {
                            owner,
                            revision: plan.generation,
                            subject: AuditionSubject::Source,
                            mix: AuditionMix::Replace,
                            span: plan.citation.project_span,
                            output,
                            projection,
                        },
                    ),
                }
            },
        }
    }
}

fn project_channels(input: u16, output: u16) -> (r: Result<
    ChannelProjection,
    ReadingEffectBridgeError,
>)
    ensures
        match projection(input, output) {
            Some(found) => r == Ok::<ChannelProjection, ReadingEffectBridgeError>(found),
            None => r matches Err(error) && error@ == EffectFault::OutputFormat(
                "cannot project "@ + decimal(input as nat) + " source channels into "@ + decimal(
                    output as nat,
                ) + " renderer channels"@,
            ),
        },
{
    if input == output {
        Ok(ChannelProjection::Same)
    } else if input == 1 && output == 2 {
        Ok(ChannelProjection::MonoToStereo)
    } else if input == 2 && output == 1 {
        Ok(ChannelProjection::StereoToMono)
    } else {
        let mut text = owned("cannot project ");
        append_decimal(&mut text, input as u64);
        text.append(" source channels into ");
        append_decimal(&mut text, output as u64);
        text.append(" renderer channels");
        Err(ReadingEffectBridgeError::OutputFormat(text))
    }
}

impl ReadingEffectSnapshot {
    /// What is published now, with the comparisons that are kept.
    pub fn capture(session: &ProjectSession) -> (r: Result<
        ReadingEffectSnapshot,
        ReadingEffectBridgeError,
    >)
        ensures
            match session@.published.project {
                None => r matches Err(error) && error@ == EffectFault::Session(
                    ProjectSessionError::NoProject,
                ),
                Some(project) => {
                    &&& r matches Ok(snapshot)
                    &&& snapshot@.pin == (ReadingEffectPin {
                        document_generation: session@.document_generation,
                        revisions: project.revisions,
                    })
                    &&& snapshot@.project == project
                    &&& match session@.interpretations {
                        Some(store) => snapshot@.store == *store,
                        None => snapshot@.store.is_empty(),
                    }
                },
            },
    {
        let project = match session.project_snapshot() {
            Ok(project) => project.clone(),
            Err(error) => {
                return Err(ReadingEffectBridgeError::Session(error));
            },
        };
        let interpretations = match session.interpretations() {
            Some(store) => store,
            None => Arc::new(InterpretationStore::new()),
        };
        Ok(
            ReadingEffectSnapshot {
                pin: ReadingEffectPin {
                    document_generation: session.document_generation(),
                    revisions: project.revisions,
                },
                project,
                interpretations,
            },
        )
    }

    /// The publication.
    pub fn pin(&self) -> (r: ReadingEffectPin)
        ensures
            r == self@.pin,
    {
        self.pin
    }

    /// Plans an audition.
    pub fn plan_audition(&self, target: &AuditionTarget, generation: u64) -> (r: Result<
        ReadingAuditionPlan,
        ReadingEffectBridgeError,
    >)
        ensures
            audition_outcome(self@, *target, generation, r),
    {
        if generation == 0 {
            return Err(ReadingEffectBridgeError::ZeroGeneration);
        }
        if !target.entity.valid() {
            return Err(ReadingEffectBridgeError::InvalidEntity(target.entity.clone()));
        }
        if target.extent.regions.len() != 1 {
            return Err(
                ReadingEffectBridgeError::NonContiguousGeometry(target.extent.regions.len()),
            );
        }
        let region = target.extent.regions[0];
        if !region.valid() {
            return Err(ReadingEffectBridgeError::InvalidRegion(region));
        }
        let focus = FrameSpan { start: region.start_frame, end: region.end_frame };
        let (reference, channel) = match &target.extent.signal {
            SignalLayerDto::Source => {
                let citation = source_citation(self, &target.entity, region);
                let ghost kept = citation;
                assert(cited(self@, target.entity@, region, kept));
                return match citation {
                    Ok(citation) => Ok(
                        ReadingAuditionPlan::Source(
                            ReadingSourceAuditionPlan {
                                pin: self.pin,
                                generation,
                                entity: target.entity.clone(),
                                citation,
                            },
                        ),
                    ),
                    Err(error) => Err(error),
                };
            },
            SignalLayerDto::Explanation { reference } => (
                reference,
                ComparisonChannel::Construction,
            ),
            SignalLayerDto::Residual { reference } => (reference, ComparisonChannel::Residual),
        };
        match comparison_for(&self.interpretations, reference, focus) {
            Ok(comparison) => Ok(
                ReadingAuditionPlan::Comparison(
                    ReadingComparisonAuditionPlan {
                        pin: self.pin,
                        entity: target.entity.clone(),
                        comparison,
                        channel,
                        focus,
                    },
                ),
            ),
            Err(error) => Err(error),
        }
    }

    /// Plans a reveal.
    pub fn plan_reveal(&self, target: &RevealTarget) -> (r: Result<
        ReadingRevealPlan,
        ReadingEffectBridgeError,
    >)
        ensures
            if !valid_reference(target.entity@) {
                r matches Err(error) && error@ == EffectFault::InvalidEntity(target.entity@)
            } else {
                match extent_fault(target.extent) {
                    Some(region) => r matches Err(error) && error@ == EffectFault::InvalidRegion(
                        region,
                    ),
                    None => match revealed(self@.graph(), target.entity@) {
                        Err(fault) => r matches Err(error) && error@ == fault,
                        Ok(subject) => r matches Ok(plan) && plan.pin == self@.pin && plan.subject
                            == subject && optional_geometry(plan.extent) == optional_geometry(
                            target.extent,
                        ),
                    },
                }
            },
    {
        if !target.entity.valid() {
            return Err(ReadingEffectBridgeError::InvalidEntity(target.entity.clone()));
        }
        match &target.extent {
            Some(extent) => match check_regions(&extent.regions) {
                Some(region) => {
                    return Err(ReadingEffectBridgeError::InvalidRegion(region));
                },
                None => {},
            },
            None => {},
        }
        match reveal_subject(&self.project.project.graph, &target.entity) {
            Ok(subject) => Ok(
                ReadingRevealPlan {
                    pin: self.pin,
                    subject,
                    extent: copy_optional_geometry(&target.extent),
                },
            ),
            Err(error) => Err(error),
        }
    }

    /// Plans the rendering of a source, given the format of its frames.
    pub fn render_source(
        &self,
        plan: &ReadingSourceAuditionPlan,
        owner: AuditionOwner,
        source: Result<RenderFormat, String>,
        output: RenderFormat,
    ) -> (r: Result<SourceAudition, ReadingEffectBridgeError>)
        ensures
            comes_to(r, render_outcome(self@, *plan, owner, source, output)),
    {
        match self.require_pin(plan.pin) {
            Ok(()) => {},
            Err(error) => {
                return Err(error);
            },
        }
        let source = match source {
            Ok(source) => source,
            Err(message) => {
                return Err(ReadingEffectBridgeError::SourceRender(message));
            },
        };
        if source.sample_rate != output.sample_rate {
            let mut text = owned("source is ");
            append_decimal(&mut text, source.sample_rate as u64);
            text.append(" Hz but the active renderer is ");
            append_decimal(&mut text, output.sample_rate as u64);
            text.append(" Hz");
            return Err(ReadingEffectBridgeError::OutputFormat(text));
        }
        match project_channels(source.channels, output.channels) {
            Ok(projection) => Ok(
                SourceAudition {
                    owner,
                    revision: plan.generation,
                    subject: AuditionSubject::Source,
                    mix: AuditionMix::Replace,
                    span: plan.citation.project_span,
                    output,
                    projection,
                },
            ),
            Err(error) => Err(error),
        }
    }

    /// A comparison, if it is kept.
    pub fn comparison_definition(&self, id: ComparisonId) -> (r: Option<&ComparisonDefinition>)
        ensures
            match self@.store.kept(id) {
                Some(definition) => r matches Some(found) && *found == definition,
                None => r is None,
            },
    {
        self.interpretations.comparison(id)
    }

    /// What running a comparison showed, if that is kept.
    pub fn comparison_observation(&self, id: ComparisonId) -> (r: Option<&ComparisonObservation>)
        ensures
            match self@.store.observed(id) {
                Some(observation) => r matches Some(found) && *found == observation,
                None => r is None,
            },
    {
        self.interpretations.observation(id)
    }

    /// The selection of what is revealed, given the signal and the frames of its
    /// geometry.
    pub fn reveal_selection(
        &self,
        plan: &ReadingRevealPlan,
        guard: SelectionGuard,
        source_view: WorkspaceViewId,
        aspect: Result<SelectedAspect, String>,
    ) -> (r: Result<ProjectSelection, ReadingEffectBridgeError>)
        ensures
            selection_outcome(self@, *plan, guard, source_view, aspect, r),
    {
        match self.require_pin(plan.pin) {
            Ok(()) => {},
            Err(error) => {
                return Err(error);
            },
        }
        let ghost plain = subject_selection(plan.subject, guard, source_view);
        let mut selection = match plan.subject {
            ReadingRevealSubject::Object(object) => {
                let mut selection = ProjectSelection::from_reveal(
                    object,
                    Vec::new(),
                    guard,
                    Some(source_view),
                );
                selection.objects.provenance = SelectionProvenance {
                    source: SelectionSource::Reading,
                    source_view: Some(source_view),
                };
                selection
            },
            ReadingRevealSubject::Air(air) => {
                let mut selection = ProjectSelection::default();
                selection.air.push(air);
                assert(selection.air@ =~= seq![air]);
                selection
            },
        };
        assert(selection@ == plain);
        match &plan.extent {
            Some(extent) => {
                if geometry_is_project_local(extent) {
                    match compile_aspect(extent) {
                        Ok(_) => {},
                        Err(error) => {
                            return Err(
                                ReadingEffectBridgeError::InvalidGeometry(
                                    GeometryRefusal::Aspect(error),
                                ),
                            );
                        },
                    }
                    let aspect = match aspect {
                        Ok(aspect) => aspect,
                        Err(message) => {
                            return Err(
                                ReadingEffectBridgeError::InvalidGeometry(
                                    GeometryRefusal::Selection(message),
                                ),
                            );
                        },
                    };
                    selection.aspect = Some(extent.copy());
                    selection.signal = aspect.signal;
                    selection.time = aspect.time;
                }
            },
            None => {},
        }
        Ok(selection)
    }

    fn require_pin(&self, pin: ReadingEffectPin) -> (r: Result<(), ReadingEffectBridgeError>)
        ensures
            if pin != self@.pin {
                r matches Err(error) && error@ == (EffectFault::StalePublication {
                    expected: pin,
                    actual: self@.pin,
                })
            } else {
                r is Ok
            },
    {
        if pin != self.pin {
            return Err(
                ReadingEffectBridgeError::StalePublication { expected: pin, actual: self.pin },
            );
        }
        Ok(())
    }
}

// ----- laws ---------------------------------------------------------------

/// What is planned to be heard of a source are exactly as many of its frames as
/// were asked for, where they were asked for.
pub proof fn cited_frames_are_those_asked_for(
    view: EffectView,
    entity: EntityRefKey,
    region: RegionDto,
    citation: SourceCitation,
)
    requires
        region.is_valid(),
        cited(view, entity, region, Ok(citation)),
    ensures
        citation.project_span == focus_of(region),
        citation.source_end - citation.source_start == region.end_frame - region.start_frame,
{
    match entity {
        EntityRefKey::Project { kind, .. } => {
            if kind != "comparison"@ && kind != "explanation"@ {
                traced_frames_are_those_asked_for(view.graph(), entity, region, citation);
            }
        },
        EntityRefKey::Reading(_) => {
            traced_frames_are_those_asked_for(view.graph(), entity, region, citation);
        },
    }
}

proof fn traced_frames_are_those_asked_for(
    graph: SourceGraph,
    entity: EntityRefKey,
    region: RegionDto,
    citation: SourceCitation,
)
    requires
        region.is_valid(),
        traced(graph, entity, region, Ok(citation)),
    ensures
        citation.project_span == focus_of(region),
        citation.source_end - citation.source_start == region.end_frame - region.start_frame,
{
    let roots = entity_roots(graph, entity)->0;
    let sources = choose|sources: Seq<SourceId>| #[trigger]
        are_sources(graph, roots, sources) && if sources.len() != 1 {
            false
        } else {
            comes_to(Ok(citation), located(graph, entity, sources[0], region))
        };
    let focus = focus_of(region);
    let assets = bound_assets(
        graph.asset_sources@,
        sources[0],
        graph.asset_sources@.len() as int,
    );
    placements_play(
        graph,
        entity_object(entity),
        assets[0],
        focus,
        graph.clips@.len() as int,
        0,
    );
}

/// A source is heard only with all of its band: whatever asks for less is refused.
pub proof fn bands_are_never_isolated(
    graph: SourceGraph,
    entity: EntityRefKey,
    source: SourceId,
    region: RegionDto,
    citation: SourceCitation,
)
    requires
        located(graph, entity, source, region) == Ok::<SourceCitation, EffectFault>(citation),
    ensures
        !number_lt(0, region.min_hz_bits),
        asset_nyquist(graph.assets@, citation.asset, 0) matches Some(nyquist_bits) && !number_lt(
            region.max_hz_bits,
            nyquist_bits,
        ),
{
}

/// What was planned for another publication has no effect.
pub proof fn stale_plans_are_refused(
    view: EffectView,
    plan: ReadingRevealPlan,
    source_plan: ReadingSourceAuditionPlan,
    guard: SelectionGuard,
    source_view: WorkspaceViewId,
    aspect: Result<SelectedAspect, String>,
    owner: AuditionOwner,
    source: Result<RenderFormat, String>,
    output: RenderFormat,
    selected: Result<ProjectSelection, ReadingEffectBridgeError>,
)
    requires
        plan.pin != view.pin,
        source_plan.pin != view.pin,
        selection_outcome(view, plan, guard, source_view, aspect, selected),
    ensures
        selected is Err,
        render_outcome(view, source_plan, owner, source, output) is Err,
{
}

} // verus!
