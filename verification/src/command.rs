//! Commands of the aggregate project, as far as completion and import read them.

use vstd::prelude::*;

use crate::reading::{ProvenanceDto, ReadingId};

verus! {

/// A track of the arrangement.
#[derive(Clone, Copy, Debug, PartialEq, Eq, PartialOrd, Ord, Hash, Structural)]
pub struct TrackId(pub u64);

/// A clip of the arrangement.
#[derive(Clone, Copy, Debug, PartialEq, Eq, PartialOrd, Ord, Hash, Structural)]
pub struct ClipId(pub u64);

/// A clip of the sequencer.
#[derive(Clone, Copy, Debug, PartialEq, Eq, PartialOrd, Ord, Hash, Structural)]
pub struct SequenceClipId(pub u64);

/// A pattern.
#[derive(Clone, Copy, Debug, PartialEq, Eq, PartialOrd, Ord, Hash, Structural)]
pub struct PatternId(pub u64);

/// The arrangement's name for a pattern.
#[derive(Clone, Copy, Debug, PartialEq, Eq, PartialOrd, Ord, Hash, Structural)]
pub struct PatternAliasId(pub u64);

/// An asset.
#[derive(Clone, Copy, Debug, PartialEq, Eq, PartialOrd, Ord, Hash, Structural)]
pub struct AssetId(pub u64);

/// The arrangement's name for an asset.
#[derive(Clone, Copy, Debug, PartialEq, Eq, PartialOrd, Ord, Hash, Structural)]
pub struct MediaAliasId(pub u64);

/// A mixer bus.
#[derive(Clone, Copy, Debug, PartialEq, Eq, PartialOrd, Ord, Hash, Structural)]
pub struct BusId(pub u64);

/// An automation lane.
#[derive(Clone, Copy, Debug, PartialEq, Eq, PartialOrd, Ord, Hash, Structural)]
pub struct LaneId(pub u64);

/// An automated parameter.
#[derive(Clone, Copy, Debug, PartialEq, Eq, PartialOrd, Ord, Hash, Structural)]
pub struct ParameterKey(pub u64);

/// A sample kit.
#[derive(Clone, Copy, Debug, PartialEq, Eq, PartialOrd, Ord, Hash, Structural)]
pub struct KitId(pub u64);

/// A pad of a sample kit.
#[derive(Clone, Copy, Debug, PartialEq, Eq, PartialOrd, Ord, Hash, Structural)]
pub struct PadId(pub u64);

/// A zone of a pad.
#[derive(Clone, Copy, Debug, PartialEq, Eq, PartialOrd, Ord, Hash, Structural)]
pub struct ZoneId(pub u64);

/// A hypothesis of the project.
#[derive(Clone, Copy, Debug, PartialEq, Eq, PartialOrd, Ord, Hash, Structural)]
pub struct HypothesisId(pub u64);

/// A set of alternative hypotheses.
#[derive(Clone, Copy, Debug, PartialEq, Eq, PartialOrd, Ord, Hash, Structural)]
pub struct HypothesisSetId(pub u64);

/// What a clip plays.
#[derive(Clone, Copy, Debug, PartialEq, Eq, Structural)]
pub enum ClipContent {
    Pattern { pattern: PatternAliasId },
    Audio { asset: MediaAliasId },
    Automation { parameter: ParameterKey },
}

/// A clip as a command puts it.
#[derive(Clone, Copy, Debug, PartialEq, Eq, Structural)]
pub struct Clip {
    pub id: ClipId,
    pub track_id: TrackId,
    pub content: ClipContent,
}

/// A sequencer clip as a command puts it.
#[derive(Clone, Copy, Debug, PartialEq, Eq, Structural)]
pub struct SequenceClip {
    pub id: SequenceClipId,
    pub pattern: PatternId,
}

/// A sample kit as a command puts it.
#[derive(Debug, PartialEq, Eq)]
pub struct SampleKit {
    pub id: KitId,
    pub pad_order: Vec<PadId>,
}

/// A change of one automation lane.
#[derive(Clone, Copy, Debug, PartialEq, Eq, Structural)]
pub struct LaneChange {
    pub before: Option<LaneId>,
    pub after: Option<LaneId>,
}

/// A perceptual description in free words, and the objects of the graph it speaks of.
#[derive(Debug, PartialEq, Eq)]
pub struct FreeformClaim {
    pub objects: Vec<u64>,
    pub description: String,
}

/// A hypothesis as a command puts it.
#[derive(Debug, PartialEq)]
pub struct Hypothesis {
    pub id: HypothesisId,
    pub label: String,
    pub claims: Vec<FreeformClaim>,
    pub support_bits: u32,
    /// The identities of what was observed for it.
    pub evidence: Vec<u64>,
    pub provenance: ProvenanceDto,
}

/// Which alternative of a set is taken to hold.
#[derive(Clone, Copy, Debug, PartialEq, Eq, Structural)]
pub enum HypothesisSelection {
    /// None of them yet: the question stays open.
    Unresolved,
    Selected(HypothesisId),
}

/// A set of alternatives as a command puts it.
#[derive(Debug, PartialEq)]
pub struct HypothesisSet {
    pub id: HypothesisSetId,
    pub question: String,
    pub alternatives: Vec<HypothesisId>,
    pub selection: HypothesisSelection,
}

/// One command of the aggregate project.
#[derive(Debug, PartialEq)]
pub enum DomainCommand {
    PutClip { before: Option<Clip>, after: Option<Clip> },
    PutTrack { before: Option<TrackId>, after: Option<TrackId> },
    PutSequenceClip { before: Option<SequenceClip>, after: Option<SequenceClip> },
    PutPattern { before: Option<PatternId>, after: Option<PatternId> },
    PutPatternDefinitionAlias { alias: PatternAliasId, after: Option<PatternId> },
    PutPatternPlacement { clip: ClipId, after: Option<SequenceClipId> },
    PutMediaAssetAlias { alias: MediaAliasId, after: Option<AssetId> },
    PutAutomation { changes: Vec<LaneChange> },
    PutSampleKit { before: Option<KitId>, after: Option<SampleKit> },
    PutAsset { id: AssetId, existed: bool, exists: bool },
    PutHypothesis { before: Option<Hypothesis>, after: Option<Hypothesis> },
    PutHypothesisSet { before: Option<HypothesisSet>, after: Option<HypothesisSet> },
    /// A command that creates nothing to reveal.
    Other,
}

/// What an entity of a reading is among interpretations.
#[derive(Clone, Copy, Debug, PartialEq, Eq, Structural)]
pub enum AirEntityKind {
    Hypothesis,
}

/// Where an entity of a reading goes in the project.
#[derive(Clone, Copy, Debug, PartialEq, Eq, Structural)]
pub enum ForeignEntityKind {
    Air(AirEntityKind),
}

/// An identity that a command takes.
#[derive(Clone, Copy, Debug, PartialEq, Eq)]
pub enum IdClaim {
    Hypothesis(HypothesisId),
    HypothesisSet(HypothesisSetId),
    /// An entity of a reading.
    Foreign { reading: ReadingId, kind: ForeignEntityKind, local: u64 },
}

/// Commands that are applied together and undone together.
#[derive(Debug, PartialEq)]
pub struct CommandEnvelope {
    pub label: String,
    pub base_revision: u64,
    pub coalesce: Option<u64>,
    pub commands: Vec<DomainCommand>,
    pub id_claims: Vec<IdClaim>,
}

/// Commands that belong together, for no revision in particular.
#[derive(Debug, PartialEq)]
pub struct CommandBatch {
    pub label: String,
    pub coalesce: Option<u64>,
    pub commands: Vec<DomainCommand>,
    pub id_claims: Vec<IdClaim>,
}

impl CommandEnvelope {
    /// A batch that is meant for one revision.
    pub fn from_batch(base_revision: u64, batch: CommandBatch) -> (r: CommandEnvelope)
        ensures
            r == (CommandEnvelope {
                label: batch.label,
                base_revision,
                coalesce: batch.coalesce,
                commands: batch.commands,
                id_claims: batch.id_claims,
            }),
    {
        CommandEnvelope {
            label: batch.label,
            base_revision,
            coalesce: batch.coalesce,
            commands: batch.commands,
            id_claims: batch.id_claims,
        }
    }
}

} // verus!
