//! What to reveal after something durable was made.
//!
//! Completion is read off exact commands and receipts, never off labels or equal
//! numbers of different kinds.

use vstd::prelude::*;
use vstd::string::*;

use crate::command::{
    AssetId, BusId, Clip, ClipContent, ClipId, CommandEnvelope, DomainCommand, KitId, LaneChange,
    LaneId, MediaAliasId, PadId, ParameterKey, PatternAliasId, PatternId, SequenceClipId, TrackId,
};
use crate::live_project::{
    ControllerReply, ControllerStep, LaneBinding, MediaBinding, PatternDefinition, PatternPlacement,
    ProjectRevisions, ProjectState, TrackBinding,
};
use crate::objects::{
    address, copy_objects, holds_object, related_with, AutomationOccurrenceRef, ObjectKind,
    ObjectRef, PadRef, PatternOccurrenceRef, RevealIntent, RevealRecommendation, RevealRequest,
    SelectionConsequence,
};
use crate::rank::{rank_lt, ranked, sort_by_rank, HasRank, Ranked};

use crate::session::{
    after_step, control_outcome, published_update, receipt_of, step_receipt,
    ControlSessionOperation, HistoryDirection, ProjectEditReceipt, ProjectSession,
    ProjectSessionError, SessionView,
};
use crate::text::{append_decimal, decimal, owned, text_views};

verus! {

// ----- the inventory ------------------------------------------------------

/// What a caller gets that does not ask for a receipt.
#[derive(Clone, Copy, Debug, PartialEq, Eq, Structural)]
pub enum CurrentTerminal {
    ExactReceipt,
    TypedIdOnly,
    CommandEnvelopeOnly,
    RevisionOnly,
    InverseCommandsOnly,
    DecodedFileOnly,
    ArtifactIdOnly,
}

/// How completion reaches the project.
#[derive(Clone, Copy, Debug, PartialEq, Eq, Structural)]
pub enum RevealIntegration {
    NativeReceiptAdapter,
    AdapterAvailable,
    /// Durable in a store of its own.
    DetachedDurableStore,
}

/// The ways to make something durable.
#[derive(Clone, Copy, Debug, PartialEq, Eq, PartialOrd, Ord, Hash, Structural)]
pub enum DurableFlow {
    ManualSample,
    OnsetChop,
    MakeBeat,
    RhythmPromotion,
    ReconstructionPromotion,
    PatternCreate,
    PatternDuplicate,
    ArrangementTrackCreate,
    ArrangementAudioClipDuplicate,
    ArrangementPatternClipDuplicate,
    ArrangementAutomationClipDuplicate,
    ArrangementAudioClipSplit,
    ArrangementPatternClipSplit,
    ArrangementAutomationClipSplit,
    ArrangementMediaInsert,
    ArrangementPatternInsert,
    AssetImport,
    /// A second import of exactly the same samples.
    AssetRepeatedImport,
    ExplanationCreate,
    ComparisonCreate,
    ComparisonResolve,
    CoveragePublish,
    ReadingImport,
}

/// How one way to make something durable is completed.
#[derive(Clone, Copy, Debug, PartialEq, Eq)]
pub struct DurableRevealRule {
    pub flow: DurableFlow,
    pub current_terminal: CurrentTerminal,
    pub primary: ObjectKind,
    pub intent: RevealIntent,
    pub integration: RevealIntegration,
    pub adapter: &'static str,
}

/// What a rule holds.
pub struct RuleView {
    pub flow: DurableFlow,
    pub current_terminal: CurrentTerminal,
    pub primary: ObjectKind,
    pub intent: RevealIntent,
    pub integration: RevealIntegration,
    pub adapter: Seq<char>,
}

impl View for DurableRevealRule {
    type V = RuleView;

    open spec fn view(&self) -> RuleView {
        RuleView {
            flow: self.flow,
            current_terminal: self.current_terminal,
            primary: self.primary,
            intent: self.intent,
            integration: self.integration,
            adapter: self.adapter@,
        }
    }
}

/// A rule whose receipt is exact as it is.
pub open spec fn native_rule(flow: DurableFlow, primary: ObjectKind, adapter: Seq<char>) -> RuleView {
    RuleView {
        flow,
        current_terminal: CurrentTerminal::ExactReceipt,
        primary,
        intent: RevealIntent::ActivateExisting,
        integration: RevealIntegration::NativeReceiptAdapter,
        adapter,
    }
}

/// A rule for pattern actions.
pub open spec fn envelope_rule(flow: DurableFlow, primary: ObjectKind) -> RuleView {
    RuleView {
        flow,
        current_terminal: CurrentTerminal::CommandEnvelopeOnly,
        primary,
        intent: RevealIntent::ActivateExisting,
        integration: RevealIntegration::AdapterAvailable,
        adapter: "execute_pattern_action_revealed"@,
    }
}

/// A rule for events of the arrangement.
pub open spec fn revision_rule(flow: DurableFlow, primary: ObjectKind) -> RuleView {
    RuleView {
        flow,
        current_terminal: CurrentTerminal::RevisionOnly,
        primary,
        intent: RevealIntent::ActivateExisting,
        integration: RevealIntegration::AdapterAvailable,
        adapter: "execute_arrangement_event_revealed"@,
    }
}

/// A rule for a store of its own.
pub open spec fn detached_rule(
    flow: DurableFlow,
    current_terminal: CurrentTerminal,
    primary: ObjectKind,
    adapter: Seq<char>,
) -> RuleView {
    RuleView {
        flow,
        current_terminal,
        primary,
        intent: RevealIntent::ActivateExisting,
        integration: RevealIntegration::DetachedDurableStore,
        adapter,
    }
}

/// The rule of each flow.
pub open spec fn rule_of(flow: DurableFlow) -> RuleView {
    match flow {
        DurableFlow::ManualSample => native_rule(flow, ObjectKind::Pad, "recommend_sample_result"@),
        DurableFlow::OnsetChop => native_rule(
            flow,
            ObjectKind::Instrument,
            "recommend_sample_result"@,
        ),
        DurableFlow::MakeBeat => native_rule(
            flow,
            ObjectKind::PatternOccurrence,
            "recommend_constructive"@,
        ),
        DurableFlow::RhythmPromotion => native_rule(
            flow,
            ObjectKind::PatternOccurrence,
            "recommend_constructive"@,
        ),
        DurableFlow::ReconstructionPromotion => native_rule(
            flow,
            ObjectKind::Pattern,
            "recommend_reconstruction"@,
        ),
        DurableFlow::PatternCreate => envelope_rule(flow, ObjectKind::Pattern),
        DurableFlow::PatternDuplicate => envelope_rule(flow, ObjectKind::Pattern),
        DurableFlow::ArrangementTrackCreate => revision_rule(flow, ObjectKind::Track),
        DurableFlow::ArrangementAudioClipDuplicate => revision_rule(flow, ObjectKind::AudioClip),
        DurableFlow::ArrangementPatternClipDuplicate => {
            revision_rule(flow, ObjectKind::PatternOccurrence)
        },
        DurableFlow::ArrangementAutomationClipDuplicate => {
            revision_rule(flow, ObjectKind::AutomationOccurrence)
        },
        DurableFlow::ArrangementAudioClipSplit => revision_rule(flow, ObjectKind::AudioClip),
        DurableFlow::ArrangementPatternClipSplit => {
            revision_rule(flow, ObjectKind::PatternOccurrence)
        },
        DurableFlow::ArrangementAutomationClipSplit => {
            revision_rule(flow, ObjectKind::AutomationOccurrence)
        },
        DurableFlow::ArrangementMediaInsert => revision_rule(flow, ObjectKind::AudioClip),
        DurableFlow::ArrangementPatternInsert => {
            revision_rule(flow, ObjectKind::PatternOccurrence)
        },
        DurableFlow::AssetImport => native_rule(
            flow,
            ObjectKind::Material,
            "import_asset_revealed"@,
        ),
        DurableFlow::AssetRepeatedImport => native_rule(
            flow,
            ObjectKind::Material,
            "import_asset_revealed"@,
        ),
        DurableFlow::ExplanationCreate => detached_rule(
            flow,
            CurrentTerminal::InverseCommandsOnly,
            ObjectKind::Explanation,
            "apply_interpretation_revealed"@,
        ),
        DurableFlow::ComparisonCreate => detached_rule(
            flow,
            CurrentTerminal::InverseCommandsOnly,
            ObjectKind::Comparison,
            "apply_interpretation_revealed"@,
        ),
        DurableFlow::ComparisonResolve => detached_rule(
            flow,
            CurrentTerminal::InverseCommandsOnly,
            ObjectKind::Comparison,
            "apply_interpretation_revealed"@,
        ),
        DurableFlow::CoveragePublish => detached_rule(
            flow,
            CurrentTerminal::ArtifactIdOnly,
            ObjectKind::Finding,
            "recommend_coverage_artifact"@,
        ),
        DurableFlow::ReadingImport => detached_rule(
            flow,
            CurrentTerminal::DecodedFileOnly,
            ObjectKind::Reading,
            "recommend_reading"@,
        ),
    }
}

/// Where a flow stands in the inventory.
pub open spec fn flow_place(flow: DurableFlow) -> int {
    match flow {
        DurableFlow::ManualSample => 0,
        DurableFlow::OnsetChop => 1,
        DurableFlow::MakeBeat => 2,
        DurableFlow::RhythmPromotion => 3,
        DurableFlow::ReconstructionPromotion => 4,
        DurableFlow::PatternCreate => 5,
        DurableFlow::PatternDuplicate => 6,
        DurableFlow::ArrangementTrackCreate => 7,
        DurableFlow::ArrangementAudioClipDuplicate => 8,
        DurableFlow::ArrangementPatternClipDuplicate => 9,
        DurableFlow::ArrangementAutomationClipDuplicate => 10,
        DurableFlow::ArrangementAudioClipSplit => 11,
        DurableFlow::ArrangementPatternClipSplit => 12,
        DurableFlow::ArrangementAutomationClipSplit => 13,
        DurableFlow::ArrangementMediaInsert => 14,
        DurableFlow::ArrangementPatternInsert => 15,
        DurableFlow::AssetImport => 16,
        DurableFlow::AssetRepeatedImport => 17,
        DurableFlow::ExplanationCreate => 18,
        DurableFlow::ComparisonCreate => 19,
        DurableFlow::ComparisonResolve => 20,
        DurableFlow::CoveragePublish => 21,
        DurableFlow::ReadingImport => 22,
    }
}

fn native(flow: DurableFlow, primary: ObjectKind, adapter: &'static str) -> (r: DurableRevealRule)
    ensures
        r@ == native_rule(flow, primary, adapter@),
        r.intent == RevealIntent::ActivateExisting,
{
    DurableRevealRule {
        flow,
        current_terminal: CurrentTerminal::ExactReceipt,
        primary,
        intent: RevealIntent::ActivateExisting,
        integration: RevealIntegration::NativeReceiptAdapter,
        adapter,
    }
}

fn envelope(flow: DurableFlow, primary: ObjectKind) -> (r: DurableRevealRule)
    ensures
        r@ == envelope_rule(flow, primary),
        r.intent == RevealIntent::ActivateExisting,
{
    DurableRevealRule {
        flow,
        current_terminal: CurrentTerminal::CommandEnvelopeOnly,
        primary,
        intent: RevealIntent::ActivateExisting,
        integration: RevealIntegration::AdapterAvailable,
        adapter: "execute_pattern_action_revealed",
    }
}

fn revision(flow: DurableFlow, primary: ObjectKind) -> (r: DurableRevealRule)
    ensures
        r@ == revision_rule(flow, primary),
        r.intent == RevealIntent::ActivateExisting,
{
    DurableRevealRule {
        flow,
        current_terminal: CurrentTerminal::RevisionOnly,
        primary,
        intent: RevealIntent::ActivateExisting,
        integration: RevealIntegration::AdapterAvailable,
        adapter: "execute_arrangement_event_revealed",
    }
}

fn detached(
    flow: DurableFlow,
    terminal: CurrentTerminal,
    primary: ObjectKind,
    adapter: &'static str,
) -> (r: DurableRevealRule)
    ensures
        r@ == detached_rule(flow, terminal, primary, adapter@),
        r.intent == RevealIntent::ActivateExisting,
{
    DurableRevealRule {
        flow,
        current_terminal: terminal,
        primary,
        intent: RevealIntent::ActivateExisting,
        integration: RevealIntegration::DetachedDurableStore,
        adapter,
    }
}

/// How many ways there are to make something durable.
pub const FLOW_COUNT: usize = 23;

/// The rules: one for each flow, in the order of the flows. Completion never
/// opens anything new.
pub fn durable_reveal_rules() -> (r: Vec<DurableRevealRule>)
    ensures
        r@.len() == FLOW_COUNT,
        forall|flow: DurableFlow|
            #![trigger flow_place(flow)]
            0 <= flow_place(flow) < FLOW_COUNT && r@[flow_place(flow)]@ == rule_of(flow),
        forall|i: int|
            0 <= i < r@.len() ==> flow_place((#[trigger] r@[i]).flow) == i && r@[i].intent
                == RevealIntent::ActivateExisting,
{
    let mut rules: Vec<DurableRevealRule> = Vec::new();
    rules.push(native(DurableFlow::ManualSample, ObjectKind::Pad, "recommend_sample_result"));
    rules.push(native(DurableFlow::OnsetChop, ObjectKind::Instrument, "recommend_sample_result"));
    rules.push(
        native(DurableFlow::MakeBeat, ObjectKind::PatternOccurrence, "recommend_constructive"),
    );
    rules.push(
        native(
            DurableFlow::RhythmPromotion,
            ObjectKind::PatternOccurrence,
            "recommend_constructive",
        ),
    );
    rules.push(
        native(
            DurableFlow::ReconstructionPromotion,
            ObjectKind::Pattern,
            "recommend_reconstruction",
        ),
    );
    rules.push(envelope(DurableFlow::PatternCreate, ObjectKind::Pattern));
    rules.push(envelope(DurableFlow::PatternDuplicate, ObjectKind::Pattern));
    rules.push(revision(DurableFlow::ArrangementTrackCreate, ObjectKind::Track));
    rules.push(revision(DurableFlow::ArrangementAudioClipDuplicate, ObjectKind::AudioClip));
    rules.push(
        revision(DurableFlow::ArrangementPatternClipDuplicate, ObjectKind::PatternOccurrence),
    );
    rules.push(
        revision(
            DurableFlow::ArrangementAutomationClipDuplicate,
            ObjectKind::AutomationOccurrence,
        ),
    );
    rules.push(revision(DurableFlow::ArrangementAudioClipSplit, ObjectKind::AudioClip));
    rules.push(revision(DurableFlow::ArrangementPatternClipSplit, ObjectKind::PatternOccurrence));
    rules.push(
        revision(DurableFlow::ArrangementAutomationClipSplit, ObjectKind::AutomationOccurrence),
    );
    rules.push(revision(DurableFlow::ArrangementMediaInsert, ObjectKind::AudioClip));
    rules.push(revision(DurableFlow::ArrangementPatternInsert, ObjectKind::PatternOccurrence));
    rules.push(native(DurableFlow::AssetImport, ObjectKind::Material, "import_asset_revealed"));
    rules.push(
        native(DurableFlow::AssetRepeatedImport, ObjectKind::Material, "import_asset_revealed"),
    );
    rules.push(
        detached(
            DurableFlow::ExplanationCreate,
            CurrentTerminal::InverseCommandsOnly,
            ObjectKind::Explanation,
            "apply_interpretation_revealed",
        ),
    );
    rules.push(
        detached(
            DurableFlow::ComparisonCreate,
            CurrentTerminal::InverseCommandsOnly,
            ObjectKind::Comparison,
            "apply_interpretation_revealed",
        ),
    );
    rules.push(
        detached(
            DurableFlow::ComparisonResolve,
            CurrentTerminal::InverseCommandsOnly,
            ObjectKind::Comparison,
            "apply_interpretation_revealed",
        ),
    );
    rules.push(
        detached(
            DurableFlow::CoveragePublish,
            CurrentTerminal::ArtifactIdOnly,
            ObjectKind::Finding,
            "recommend_coverage_artifact",
        ),
    );
    rules.push(
        detached(
            DurableFlow::ReadingImport,
            CurrentTerminal::DecodedFileOnly,
            ObjectKind::Reading,
            "recommend_reading",
        ),
    );
    assert forall|i: int| 0 <= i < rules@.len() implies flow_place((#[trigger] rules@[i]).flow) == i
        && rules@[i].intent == RevealIntent::ActivateExisting by {
        assert(rules@[i]@.flow == rules@[i].flow);
    }
    rules
}

// ----- lookups ------------------------------------------------------------

/// The pattern that the first `i` commands last give an alias.
pub open spec fn put_alias(commands: Seq<DomainCommand>, alias: PatternAliasId, i: int) -> Option<
    PatternId,
>
    decreases i,
{
    if i <= 0 {
        None
    } else {
        match commands[i - 1] {
            DomainCommand::PutPatternDefinitionAlias { alias: a, after: Some(pattern) } => if a
                == alias {
                Some(pattern)
            } else {
                put_alias(commands, alias, i - 1)
            },
            _ => put_alias(commands, alias, i - 1),
        }
    }
}

/// The sequencer clip that the first `i` commands last place for a clip.
pub open spec fn put_placement(commands: Seq<DomainCommand>, clip: ClipId, i: int) -> Option<
    SequenceClipId,
>
    decreases i,
{
    if i <= 0 {
        None
    } else {
        match commands[i - 1] {
            DomainCommand::PutPatternPlacement { clip: c, after: Some(sequence) } => if c == clip {
                Some(sequence)
            } else {
                put_placement(commands, clip, i - 1)
            },
            _ => put_placement(commands, clip, i - 1),
        }
    }
}

/// The asset that the first `i` commands last give an alias.
pub open spec fn put_media(commands: Seq<DomainCommand>, alias: MediaAliasId, i: int) -> Option<
    AssetId,
>
    decreases i,
{
    if i <= 0 {
        None
    } else {
        match commands[i - 1] {
            DomainCommand::PutMediaAssetAlias { alias: a, after: Some(asset) } => if a == alias {
                Some(asset)
            } else {
                put_media(commands, alias, i - 1)
            },
            _ => put_media(commands, alias, i - 1),
        }
    }
}

/// The pattern of a sequencer clip that the first `i` commands create.
pub open spec fn put_sequence(commands: Seq<DomainCommand>, id: SequenceClipId, i: int) -> Option<
    PatternId,
>
    decreases i,
{
    if i <= 0 {
        None
    } else {
        match commands[i - 1] {
            DomainCommand::PutSequenceClip { before: None, after: Some(clip) } => if clip.id == id {
                Some(clip.pattern)
            } else {
                put_sequence(commands, id, i - 1)
            },
            _ => put_sequence(commands, id, i - 1),
        }
    }
}

/// The placement of a clip, from index `i` on.
pub open spec fn bound_placement(list: Seq<PatternPlacement>, clip: ClipId, i: int) -> Option<
    SequenceClipId,
>
    decreases list.len() - i,
{
    if i < 0 || i >= list.len() {
        None
    } else if list[i].clip == clip {
        Some(list[i].sequence_clip)
    } else {
        bound_placement(list, clip, i + 1)
    }
}

/// The pattern of an alias, from index `i` on.
pub open spec fn bound_definition(list: Seq<PatternDefinition>, alias: PatternAliasId, i: int) ->
    Option<PatternId>
    decreases list.len() - i,
{
    if i < 0 || i >= list.len() {
        None
    } else if list[i].alias == alias {
        Some(list[i].pattern)
    } else {
        bound_definition(list, alias, i + 1)
    }
}

/// The asset of an alias, from index `i` on.
pub open spec fn bound_media(list: Seq<MediaBinding>, alias: MediaAliasId, i: int) -> Option<AssetId>
    decreases list.len() - i,
{
    if i < 0 || i >= list.len() {
        None
    } else if list[i].alias == alias {
        Some(list[i].asset)
    } else {
        bound_media(list, alias, i + 1)
    }
}

/// The lane of a parameter, from index `i` on.
pub open spec fn bound_lane(list: Seq<LaneBinding>, parameter: ParameterKey, i: int) -> Option<
    LaneId,
>
    decreases list.len() - i,
{
    if i < 0 || i >= list.len() {
        None
    } else if list[i].parameter == parameter {
        Some(list[i].lane)
    } else {
        bound_lane(list, parameter, i + 1)
    }
}

/// The bus of a track, from index `i` on.
pub open spec fn bound_bus(list: Seq<TrackBinding>, track: TrackId, i: int) -> Option<BusId>
    decreases list.len() - i,
{
    if i < 0 || i >= list.len() {
        None
    } else if list[i].track == track {
        Some(list[i].bus)
    } else {
        bound_bus(list, track, i + 1)
    }
}

fn find_put_alias(commands: &Vec<DomainCommand>, alias: PatternAliasId) -> (r: Option<PatternId>)
    ensures
        r == put_alias(commands@, alias, commands@.len() as int),
{
    let mut i: usize = commands.len();
    while i > 0
        invariant
            i <= commands.len(),
            put_alias(commands@, alias, commands@.len() as int) == put_alias(
                commands@,
                alias,
                i as int,
            ),
        decreases i,
    {
        i = i - 1;
        match &commands[i] {
            DomainCommand::PutPatternDefinitionAlias { alias: a, after: Some(pattern) } => {
                if *a == alias {
                    return Some(*pattern);
                }
            },
            _ => {},
        }
    }
    None
}

fn find_put_placement(commands: &Vec<DomainCommand>, clip: ClipId) -> (r: Option<SequenceClipId>)
    ensures
        r == put_placement(commands@, clip, commands@.len() as int),
{
    let mut i: usize = commands.len();
    while i > 0
        invariant
            i <= commands.len(),
            put_placement(commands@, clip, commands@.len() as int) == put_placement(
                commands@,
                clip,
                i as int,
            ),
        decreases i,
    {
        i = i - 1;
        match &commands[i] {
            DomainCommand::PutPatternPlacement { clip: c, after: Some(sequence) } => {
                if *c == clip {
                    return Some(*sequence);
                }
            },
            _ => {},
        }
    }
    None
}

fn find_put_media(commands: &Vec<DomainCommand>, alias: MediaAliasId) -> (r: Option<AssetId>)
    ensures
        r == put_media(commands@, alias, commands@.len() as int),
{
    let mut i: usize = commands.len();
    while i > 0
        invariant
            i <= commands.len(),
            put_media(commands@, alias, commands@.len() as int) == put_media(
                commands@,
                alias,
                i as int,
            ),
        decreases i,
    {
        i = i - 1;
        match &commands[i] {
            DomainCommand::PutMediaAssetAlias { alias: a, after: Some(asset) } => {
                if *a == alias {
                    return Some(*asset);
                }
            },
            _ => {},
        }
    }
    None
}

fn find_put_sequence(commands: &Vec<DomainCommand>, id: SequenceClipId) -> (r: Option<PatternId>)
    ensures
        r == put_sequence(commands@, id, commands@.len() as int),
{
    let mut i: usize = commands.len();
    while i > 0
        invariant
            i <= commands.len(),
            put_sequence(commands@, id, commands@.len() as int) == put_sequence(
                commands@,
                id,
                i as int,
            ),
        decreases i,
    {
        i = i - 1;
        match &commands[i] {
            DomainCommand::PutSequenceClip { before: None, after: Some(clip) } => {
                if clip.id == id {
                    return Some(clip.pattern);
                }
            },
            _ => {},
        }
    }
    None
}

fn find_placement(list: &Vec<PatternPlacement>, clip: ClipId) -> (r: Option<SequenceClipId>)
    ensures
        r == bound_placement(list@, clip, 0),
{
    let mut i: usize = 0;
    while i < list.len()
        invariant
            i <= list.len(),
            bound_placement(list@, clip, 0) == bound_placement(list@, clip, i as int),
        decreases list.len() - i,
    {
        if list[i].clip == clip {
            return Some(list[i].sequence_clip);
        }
        i = i + 1;
    }
    None
}

fn find_definition(list: &Vec<PatternDefinition>, alias: PatternAliasId) -> (r: Option<PatternId>)
    ensures
        r == bound_definition(list@, alias, 0),
{
    let mut i: usize = 0;
    while i < list.len()
        invariant
            i <= list.len(),
            bound_definition(list@, alias, 0) == bound_definition(list@, alias, i as int),
        decreases list.len() - i,
    {
        if list[i].alias == alias {
            return Some(list[i].pattern);
        }
        i = i + 1;
    }
    None
}

fn find_media(list: &Vec<MediaBinding>, alias: MediaAliasId) -> (r: Option<AssetId>)
    ensures
        r == bound_media(list@, alias, 0),
{
    let mut i: usize = 0;
    while i < list.len()
        invariant
            i <= list.len(),
            bound_media(list@, alias, 0) == bound_media(list@, alias, i as int),
        decreases list.len() - i,
    {
        if list[i].alias == alias {
            return Some(list[i].asset);
        }
        i = i + 1;
    }
    None
}

fn find_lane(list: &Vec<LaneBinding>, parameter: ParameterKey) -> (r: Option<LaneId>)
    ensures
        r == bound_lane(list@, parameter, 0),
{
    let mut i: usize = 0;
    while i < list.len()
        invariant
            i <= list.len(),
            bound_lane(list@, parameter, 0) == bound_lane(list@, parameter, i as int),
        decreases list.len() - i,
    {
        if list[i].parameter == parameter {
            return Some(list[i].lane);
        }
        i = i + 1;
    }
    None
}

fn find_bus(list: &Vec<TrackBinding>, track: TrackId) -> (r: Option<BusId>)
    ensures
        r == bound_bus(list@, track, 0),
{
    let mut i: usize = 0;
    while i < list.len()
        invariant
            i <= list.len(),
            bound_bus(list@, track, 0) == bound_bus(list@, track, i as int),
        decreases list.len() - i,
    {
        if list[i].track == track {
            return Some(list[i].bus);
        }
        i = i + 1;
    }
    None
}

// ----- what commands create -----------------------------------------------

/// An object and how close it is to what was done.
#[derive(Clone, Copy, Debug)]
pub struct RankedObject {
    pub closeness: u64,
    pub object: ObjectRef,
}

impl HasRank for RankedObject {
    open spec fn rank(&self) -> Seq<u64> {
        seq![self.closeness] + address(self.object)
    }
}

impl Ranked for RankedObject {
    fn rank_key(&self) -> (r: Vec<u64>) {
        let mut key: Vec<u64> = Vec::new();
        key.push(self.closeness);
        let mut rest = self.object.rank_key();
        key.append(&mut rest);
        assert(key@ =~= self.rank());
        key
    }
}

/// An object at a closeness.
pub open spec fn at(closeness: u64, object: ObjectRef) -> RankedObject {
    RankedObject { closeness, object }
}

/// The sequencer clip that a pattern clip plays.
pub open spec fn sequence_of(commands: Seq<DomainCommand>, state: ProjectState, clip: ClipId) ->
    Option<SequenceClipId> {
    match put_placement(commands, clip, commands.len() as int) {
        Some(sequence) => Some(sequence),
        None => bound_placement(state.placements@, clip, 0),
    }
}

/// The pattern that a pattern clip plays: through its sequencer clip, through an
/// alias that the commands put, or through one that was there.
pub open spec fn pattern_of(
    commands: Seq<DomainCommand>,
    state: ProjectState,
    clip: ClipId,
    alias: PatternAliasId,
) -> Option<PatternId> {
    let through_sequence = match sequence_of(commands, state, clip) {
        Some(sequence) => put_sequence(commands, sequence, commands.len() as int),
        None => None,
    };
    match through_sequence {
        Some(pattern) => Some(pattern),
        None => match put_alias(commands, alias, commands.len() as int) {
            Some(pattern) => Some(pattern),
            None => bound_definition(state.definitions@, alias, 0),
        },
    }
}

/// The asset that an audio clip plays.
pub open spec fn asset_of(
    commands: Seq<DomainCommand>,
    state: ProjectState,
    alias: MediaAliasId,
) -> Option<AssetId> {
    match put_media(commands, alias, commands.len() as int) {
        Some(asset) => Some(asset),
        None => bound_media(state.media@, alias, 0),
    }
}

/// What a new clip makes: the clip as it is placed, its track and what it plays.
pub open spec fn clip_objects(
    commands: Seq<DomainCommand>,
    state: ProjectState,
    clip: Clip,
) -> Seq<RankedObject> {
    match clip.content {
        ClipContent::Pattern { pattern: alias } => {
            let pattern = pattern_of(commands, state, clip.id, alias);
            seq![
                at(
                    0,
                    ObjectRef::PatternOccurrence(
                        PatternOccurrenceRef {
                            arrangement_clip: clip.id,
                            sequencer_clip: sequence_of(commands, state, clip.id),
                            pattern,
                        },
                    ),
                ),
                at(6, ObjectRef::Track(clip.track_id)),
            ] + match pattern {
                Some(pattern) => seq![at(5, ObjectRef::Pattern(pattern))],
                None => Seq::empty(),
            }
        },
        ClipContent::Audio { asset } => {
            seq![
                at(1, ObjectRef::AudioClip(clip.id)),
                at(6, ObjectRef::Track(clip.track_id)),
            ] + match asset_of(commands, state, asset) {
                Some(asset) => seq![at(7, ObjectRef::Material(asset))],
                None => Seq::empty(),
            }
        },
        ClipContent::Automation { parameter } => {
            (match bound_lane(state.lanes@, parameter, 0) {
                Some(lane) => seq![
                    at(
                        2,
                        ObjectRef::AutomationOccurrence(
                            AutomationOccurrenceRef { arrangement_clip: clip.id, lane },
                        ),
                    ),
                    at(5, ObjectRef::Automation(lane)),
                ],
                None => Seq::empty(),
            }) + seq![at(6, ObjectRef::Track(clip.track_id))]
        },
    }
}

/// The lanes that the first `i` changes create.
pub open spec fn lane_objects(changes: Seq<LaneChange>, i: int) -> Seq<RankedObject>
    decreases i,
{
    if i <= 0 {
        Seq::empty()
    } else {
        let done = lane_objects(changes, i - 1);
        match (changes[i - 1].before, changes[i - 1].after) {
            (None, Some(lane)) => done.push(at(3, ObjectRef::Automation(lane))),
            _ => done,
        }
    }
}

/// A pad of a kit.
pub open spec fn pad_object(kit: KitId, pad: PadId) -> ObjectRef {
    ObjectRef::Pad(PadRef { kit, pad, zone: None })
}

/// What one command creates.
pub open spec fn command_objects(
    commands: Seq<DomainCommand>,
    state: ProjectState,
    command: DomainCommand,
) -> Seq<RankedObject> {
    match command {
        DomainCommand::PutClip { before: None, after: Some(clip) } => {
            clip_objects(commands, state, clip)
        },
        DomainCommand::PutTrack { before: None, after: Some(track) } => {
            seq![at(4, ObjectRef::Track(track))] + match bound_bus(state.tracks@, track, 0) {
                Some(bus) => seq![at(7, ObjectRef::Bus(bus))],
                None => Seq::empty(),
            }
        },
        DomainCommand::PutPattern { before: None, after: Some(pattern) } => seq![
            at(3, ObjectRef::Pattern(pattern)),
        ],
        DomainCommand::PutAutomation { changes } => lane_objects(
            changes@,
            changes@.len() as int,
        ),
        DomainCommand::PutSampleKit { before: None, after: Some(kit) } => {
            seq![at(3, ObjectRef::Instrument(kit.id))] + kit.pad_order@.map_values(
                |pad: PadId| at(5, pad_object(kit.id, pad)),
            )
        },
        DomainCommand::PutAsset { id, existed: false, exists: true } => seq![
            at(5, ObjectRef::Material(id)),
        ],
        _ => Seq::empty(),
    }
}

/// What the first `i` commands create.
pub open spec fn created(commands: Seq<DomainCommand>, state: ProjectState, i: int) -> Seq<
    RankedObject,
>
    decreases i,
{
    if i <= 0 {
        Seq::empty()
    } else {
        created(commands, state, i - 1) + command_objects(commands, state, commands[i - 1])
    }
}

fn push_clip_objects(
    out: &mut Vec<RankedObject>,
    commands: &Vec<DomainCommand>,
    state: &ProjectState,
    clip: &Clip,
)
    ensures
        final(out)@ == old(out)@ + clip_objects(commands@, *state, *clip),
{
    match clip.content {
        ClipContent::Pattern { pattern: alias } => {
            let sequencer_clip = match find_put_placement(commands, clip.id) {
                Some(sequence) => Some(sequence),
                None => find_placement(&state.placements, clip.id),
            };
            let through_sequence = match sequencer_clip {
                Some(sequence) => find_put_sequence(commands, sequence),
                None => None,
            };
            let pattern = match through_sequence {
                Some(pattern) => Some(pattern),
                None => match find_put_alias(commands, alias) {
                    Some(pattern) => Some(pattern),
                    None => find_definition(&state.definitions, alias),
                },
            };
            out.push(
                RankedObject {
                    closeness: 0,
                    object: ObjectRef::PatternOccurrence(
                        PatternOccurrenceRef { arrangement_clip: clip.id, sequencer_clip, pattern },
                    ),
                },
            );
            out.push(RankedObject { closeness: 6, object: ObjectRef::Track(clip.track_id) });
            match pattern {
                Some(pattern) => {
                    out.push(RankedObject { closeness: 5, object: ObjectRef::Pattern(pattern) });
                },
                None => {},
            }
        },
        ClipContent::Audio { asset: alias } => {
            out.push(RankedObject { closeness: 1, object: ObjectRef::AudioClip(clip.id) });
            out.push(RankedObject { closeness: 6, object: ObjectRef::Track(clip.track_id) });
            let asset = match find_put_media(commands, alias) {
                Some(asset) => Some(asset),
                None => find_media(&state.media, alias),
            };
            match asset {
                Some(asset) => {
                    out.push(RankedObject { closeness: 7, object: ObjectRef::Material(asset) });
                },
                None => {},
            }
        },
        ClipContent::Automation { parameter } => {
            match find_lane(&state.lanes, parameter) {
                Some(lane) => {
                    out.push(
                        RankedObject {
                            closeness: 2,
                            object: ObjectRef::AutomationOccurrence(
                                AutomationOccurrenceRef { arrangement_clip: clip.id, lane },
                            ),
                        },
                    );
                    out.push(RankedObject { closeness: 5, object: ObjectRef::Automation(lane) });
                },
                None => {},
            }
            out.push(RankedObject { closeness: 6, object: ObjectRef::Track(clip.track_id) });
        },
    }
    assert(out@ =~= old(out)@ + clip_objects(commands@, *state, *clip));
}

fn push_lane_objects(out: &mut Vec<RankedObject>, changes: &Vec<LaneChange>)
    ensures
        final(out)@ == old(out)@ + lane_objects(changes@, changes@.len() as int),
{
    let ghost start = out@;
    let mut i: usize = 0;
    assert(out@ =~= start + lane_objects(changes@, 0));
    while i < changes.len()
        invariant
            i <= changes.len(),
            out@ == start + lane_objects(changes@, i as int),
        decreases changes.len() - i,
    {
        if changes[i].before.is_none() {
            match changes[i].after {
                Some(lane) => {
                    out.push(RankedObject { closeness: 3, object: ObjectRef::Automation(lane) });
                },
                None => {},
            }
        }
        assert(out@ =~= start + lane_objects(changes@, i as int + 1));
        i = i + 1;
    }
}

fn push_pads(out: &mut Vec<RankedObject>, kit: KitId, pads: &Vec<PadId>)
    ensures
        final(out)@ == old(out)@ + pads@.map_values(|pad: PadId| at(5, pad_object(kit, pad))),
{
    let ghost start = out@;
    let ghost all = pads@.map_values(|pad: PadId| at(5, pad_object(kit, pad)));
    let mut i: usize = 0;
    assert(out@ =~= start + all.take(0));
    while i < pads.len()
        invariant
            i <= pads.len(),
            all == pads@.map_values(|pad: PadId| at(5, pad_object(kit, pad))),
            out@ == start + all.take(i as int),
        decreases pads.len() - i,
    {
        out.push(
            RankedObject {
                closeness: 5,
                object: ObjectRef::Pad(PadRef { kit, pad: pads[i], zone: None }),
            },
        );
        assert(out@ =~= start + all.take(i as int + 1));
        i = i + 1;
    }
    assert(all.take(all.len() as int) =~= all);
}

fn push_command_objects(
    out: &mut Vec<RankedObject>,
    commands: &Vec<DomainCommand>,
    state: &ProjectState,
    command: &DomainCommand,
)
    ensures
        final(out)@ == old(out)@ + command_objects(commands@, *state, *command),
{
    let ghost start = out@;
    match command {
        DomainCommand::PutClip { before: None, after: Some(clip) } => {
            push_clip_objects(out, commands, state, clip);
        },
        DomainCommand::PutTrack { before: None, after: Some(track) } => {
            out.push(RankedObject { closeness: 4, object: ObjectRef::Track(*track) });
            match find_bus(&state.tracks, *track) {
                Some(bus) => {
                    out.push(RankedObject { closeness: 7, object: ObjectRef::Bus(bus) });
                },
                None => {},
            }
        },
        DomainCommand::PutPattern { before: None, after: Some(pattern) } => {
            out.push(RankedObject { closeness: 3, object: ObjectRef::Pattern(*pattern) });
        },
        DomainCommand::PutAutomation { changes } => {
            push_lane_objects(out, changes);
        },
        DomainCommand::PutSampleKit { before: None, after: Some(kit) } => {
            out.push(RankedObject { closeness: 3, object: ObjectRef::Instrument(kit.id) });
            push_pads(out, kit.id, &kit.pad_order);
        },
        DomainCommand::PutAsset { id, existed: false, exists: true } => {
            out.push(RankedObject { closeness: 5, object: ObjectRef::Material(*id) });
        },
        _ => {},
    }
    assert(out@ =~= start + command_objects(commands@, *state, *command));
}

// ----- predecessors -------------------------------------------------------

/// Whether a command rewrites a clip that was there.
pub open spec fn rewrites_clip(command: DomainCommand, clip: ClipId) -> bool {
    match command {
        DomainCommand::PutClip { before: Some(before), .. } => before.id == clip,
        _ => false,
    }
}

/// Whether a command rewrites a track that was there.
pub open spec fn rewrites_track(command: DomainCommand, track: TrackId) -> bool {
    match command {
        DomainCommand::PutTrack { before: Some(before), .. } => before == track,
        _ => false,
    }
}

/// Whether a command rewrites a pattern that was there.
pub open spec fn rewrites_pattern(command: DomainCommand, pattern: PatternId) -> bool {
    match command {
        DomainCommand::PutPattern { before: Some(before), .. } => before == pattern,
        _ => false,
    }
}

/// Whether a command rewrites an object that was there.
pub open spec fn rewrites(command: DomainCommand, object: ObjectRef) -> bool {
    match object {
        ObjectRef::AudioClip(clip) => rewrites_clip(command, clip),
        ObjectRef::PatternOccurrence(o) => rewrites_clip(command, o.arrangement_clip),
        ObjectRef::AutomationOccurrence(o) => rewrites_clip(command, o.arrangement_clip),
        ObjectRef::Track(track) => rewrites_track(command, track),
        ObjectRef::Pattern(pattern) => rewrites_pattern(command, pattern),
        _ => false,
    }
}

/// Whether an object was there before the commands and is rewritten by them.
pub open spec fn is_predecessor(commands: Seq<DomainCommand>, object: ObjectRef) -> bool {
    exists|i: int| 0 <= i < commands.len() && rewrites(#[trigger] commands[i], object)
}

fn command_rewrites(command: &DomainCommand, object: &ObjectRef) -> (r: bool)
    ensures
        r == rewrites(*command, *object),
{
    match (command, object) {
        (DomainCommand::PutClip { before: Some(before), .. }, ObjectRef::AudioClip(clip)) => {
            before.id == *clip
        },
        (DomainCommand::PutClip { before: Some(before), .. }, ObjectRef::PatternOccurrence(o)) => {
            before.id == o.arrangement_clip
        },
        (
            DomainCommand::PutClip { before: Some(before), .. },
            ObjectRef::AutomationOccurrence(o),
        ) => before.id == o.arrangement_clip,
        (DomainCommand::PutTrack { before: Some(before), .. }, ObjectRef::Track(track)) => {
            *before == *track
        },
        (DomainCommand::PutPattern { before: Some(before), .. }, ObjectRef::Pattern(pattern)) => {
            *before == *pattern
        },
        _ => false,
    }
}

fn object_is_rewritten_predecessor(commands: &Vec<DomainCommand>, object: &ObjectRef) -> (r: bool)
    ensures
        r == is_predecessor(commands@, *object),
{
    let mut i: usize = 0;
    while i < commands.len()
        invariant
            i <= commands.len(),
            forall|k: int| 0 <= k < i ==> !rewrites(#[trigger] commands@[k], *object),
        decreases commands.len() - i,
    {
        if command_rewrites(&commands[i], object) {
            assert(rewrites(commands@[i as int], *object));
            return true;
        }
        i = i + 1;
    }
    false
}

/// The first object from index `i` on that was not there before.
pub open spec fn first_new(
    commands: Seq<DomainCommand>,
    list: Seq<RankedObject>,
    i: int,
) -> Option<ObjectRef>
    decreases list.len() - i,
{
    if i < 0 || i >= list.len() {
        None
    } else if !is_predecessor(commands, list[i].object) {
        Some(list[i].object)
    } else {
        first_new(commands, list, i + 1)
    }
}

/// The objects of a list.
pub open spec fn objects_of(list: Seq<RankedObject>) -> Seq<ObjectRef> {
    list.map_values(|o: RankedObject| o.object)
}

pub(crate) fn list_objects(list: &Vec<RankedObject>) -> (r: Vec<ObjectRef>)
    ensures
        r@ == objects_of(list@),
{
    let mut out: Vec<ObjectRef> = Vec::new();
    let mut i: usize = 0;
    while i < list.len()
        invariant
            i <= list.len(),
            out@ =~= objects_of(list@).take(i as int),
        decreases list.len() - i,
    {
        out.push(list[i].object);
        assert(objects_of(list@).take(i as int + 1) =~= objects_of(list@).take(i as int).push(
            objects_of(list@)[i as int],
        ));
        i = i + 1;
    }
    assert(objects_of(list@).take(i as int) =~= objects_of(list@));
    out
}

// ----- recommendations ----------------------------------------------------

/// What a recommendation holds.
pub struct RevealView {
    pub object: ObjectRef,
    pub intent: RevealIntent,
    pub related: Seq<ObjectRef>,
    pub expected_project_revision: Option<u64>,
    pub diagnostics: Seq<Seq<char>>,
}

impl View for RevealRecommendation {
    type V = RevealView;

    open spec fn view(&self) -> RevealView {
        RevealView {
            object: self.request.object,
            intent: self.request.intent,
            related: self.request.related@,
            expected_project_revision: self.request.expected_project_revision,
            diagnostics: text_views(self.diagnostics@),
        }
    }
}

/// What an optional recommendation holds.
pub open spec fn optional_reveal(reveal: Option<RevealRecommendation>) -> Option<RevealView> {
    match reveal {
        Some(reveal) => Some(reveal@),
        None => None,
    }
}

/// A recommendation to activate an object and mention others.
pub open spec fn recommendation(
    object: ObjectRef,
    related: Seq<ObjectRef>,
    revision: Option<u64>,
) -> RevealView {
    RevealView {
        object,
        intent: RevealIntent::ActivateExisting,
        related: related_with(object, Seq::empty(), related, related.len() as int),
        expected_project_revision: revision,
        diagnostics: Seq::empty(),
    }
}

pub(crate) fn recommend(object: ObjectRef, related: &Vec<ObjectRef>, revision: Option<u64>) -> (r:
    RevealRecommendation)
    ensures
        r@ == recommendation(object, related@, revision),
{
    let mut request = RevealRequest::new(object, RevealIntent::ActivateExisting).with_related(
        related,
    );
    request.expected_project_revision = revision;
    let diagnostics: Vec<String> = Vec::new();
    assert(text_views(diagnostics@) =~= Seq::<Seq<char>>::empty());
    RevealRecommendation { request, diagnostics }
}

/// What to reveal after commands: the closest new object. What the same commands
/// rewrite is mentioned at most; it is revealed only if nothing else was made.
pub open spec fn command_recommendation(
    commands: Seq<DomainCommand>,
    state: ProjectState,
    revision: Option<u64>,
) -> Option<RevealView> {
    let list = ranked(created(commands, state, commands.len() as int));
    if list.len() == 0 {
        None
    } else {
        let primary = match first_new(commands, list, 0) {
            Some(object) => object,
            None => list[0].object,
        };
        Some(recommendation(primary, objects_of(list), revision))
    }
}

/// What to reveal after an edit.
pub fn recommend_command_result(envelope: &CommandEnvelope, state: &ProjectState) -> (r: Option<
    RevealRecommendation,
>)
    ensures
        optional_reveal(r) == command_recommendation(envelope.commands@, *state, None),
{
    recommend_commands(&envelope.commands, state, None)
}

fn recommend_commands(
    commands: &Vec<DomainCommand>,
    state: &ProjectState,
    revision: Option<u64>,
) -> (r: Option<RevealRecommendation>)
    ensures
        optional_reveal(r) == command_recommendation(commands@, *state, revision),
{
    let mut list: Vec<RankedObject> = Vec::new();
    let mut i: usize = 0;
    while i < commands.len()
        invariant
            i <= commands.len(),
            list@ == created(commands@, *state, i as int),
        decreases commands.len() - i,
    {
        push_command_objects(&mut list, commands, state, &commands[i]);
        i = i + 1;
    }
    let list = sort_by_rank(list);
    if list.len() == 0 {
        return None;
    }
    let mut primary = list[0].object;
    let mut found = false;
    let mut k: usize = 0;
    while k < list.len() && !found
        invariant
            k <= list.len(),
            list@.len() > 0,
            !found ==> primary == list@[0].object && first_new(commands@, list@, 0) == first_new(
                commands@,
                list@,
                k as int,
            ),
            found ==> first_new(commands@, list@, 0) == Some(primary),
        decreases list.len() - k,
    {
        if !object_is_rewritten_predecessor(commands, &list[k].object) {
            primary = list[k].object;
            found = true;
        }
        k = k + 1;
    }
    Some(recommend(primary, &list_objects(&list), revision))
}

/// An edit and what to reveal.
#[derive(Debug, PartialEq, Eq)]
pub struct ProjectMutationReceipt {
    pub edit: ProjectEditReceipt,
    pub reveal: Option<RevealRecommendation>,
}

/// What an executed envelope comes to.
pub open spec fn envelope_outcome(
    before: SessionView,
    envelope: CommandEnvelope,
    reply: Result<ControllerReply, String>,
    outcome: Result<ProjectMutationReceipt, ProjectSessionError>,
    after: SessionView,
) -> bool {
    match (before.controller, reply) {
        (None, _) => outcome == Err::<ProjectMutationReceipt, ProjectSessionError>(
            ProjectSessionError::NoProject,
        ) && after == before,
        (Some(_), Err(message)) => outcome == Err::<ProjectMutationReceipt, ProjectSessionError>(
            ProjectSessionError::Controller(message),
        ) && after == before,
        (Some(_), Ok(reply)) => {
            &&& outcome matches Ok(receipt)
            &&& receipt.edit == receipt_of(before, reply.controller, reply.update)
            &&& optional_reveal(receipt.reveal) == command_recommendation(
                envelope.commands@,
                *reply.update.snapshot.project,
                Some(reply.update.snapshot.revisions.aggregate),
            )
            &&& after == published_update(before, reply.controller, reply.update)
        },
    }
}

/// Publishes an edit and says what to reveal, read off the state after it.
pub fn execute_envelope_revealed(
    session: &mut ProjectSession,
    envelope: &CommandEnvelope,
    reply: Result<ControllerReply, String>,
) -> (r: Result<ProjectMutationReceipt, ProjectSessionError>)
    requires
        old(session).wf(),
    ensures
        final(session).wf(),
        envelope_outcome(old(session)@, *envelope, reply, r, final(session)@),
{
    match session.execute_envelope(reply) {
        Err(error) => Err(error),
        Ok(edit) => {
            let reveal = recommend_commands(
                &envelope.commands,
                &edit.publication.snapshot.project,
                Some(edit.publication.revisions.aggregate),
            );
            Ok(ProjectMutationReceipt { edit, reveal })
        },
    }
}

// ----- control actions ----------------------------------------------------

/// What a control action allocates.
#[derive(Clone, Copy, Debug, PartialEq, Eq, Structural)]
pub enum CreatedControlIdentity {
    MixerBus(BusId),
    AutomationLane(LaneId),
}

/// The object that a control action allocates.
pub open spec fn control_object(identity: CreatedControlIdentity) -> ObjectRef {
    match identity {
        CreatedControlIdentity::MixerBus(id) => ObjectRef::Bus(id),
        CreatedControlIdentity::AutomationLane(id) => ObjectRef::Automation(id),
    }
}

/// Whether a project holds what a control action allocated.
pub open spec fn control_exists(state: ProjectState, identity: CreatedControlIdentity) -> bool {
    match identity {
        CreatedControlIdentity::MixerBus(id) => state.buses@.contains(id),
        CreatedControlIdentity::AutomationLane(id) => state.automation@.contains(id),
    }
}

/// The message for something that was allocated and is not there.
pub open spec fn absent_text(identity: CreatedControlIdentity) -> Seq<char> {
    "control create allocated "@ + (match identity {
        CreatedControlIdentity::MixerBus(id) => "Bus(BusId("@ + decimal(id.0 as nat) + "))"@,
        CreatedControlIdentity::AutomationLane(id) => "Automation(LaneId("@ + decimal(id.0 as nat)
            + "))"@,
    }) + " but the published snapshot does not contain it"@
}

/// What a control action came to.
#[derive(Debug, PartialEq, Eq)]
pub struct ControlRevealReceipt {
    pub revisions: Option<ProjectRevisions>,
    pub primary: Option<ObjectRef>,
    pub reveal: Option<RevealRecommendation>,
}

fn bus_exists(list: &Vec<BusId>, id: BusId) -> (r: bool)
    ensures
        r == list@.contains(id),
{
    let mut i: usize = 0;
    while i < list.len()
        invariant
            i <= list.len(),
            forall|k: int| 0 <= k < i ==> list@[k] != id,
        decreases list.len() - i,
    {
        if list[i] == id {
            assert(list@[i as int] == id);
            return true;
        }
        i = i + 1;
    }
    false
}

fn lane_exists(list: &Vec<LaneId>, id: LaneId) -> (r: bool)
    ensures
        r == list@.contains(id),
{
    let mut i: usize = 0;
    while i < list.len()
        invariant
            i <= list.len(),
            forall|k: int| 0 <= k < i ==> list@[k] != id,
        decreases list.len() - i,
    {
        if list[i] == id {
            assert(list@[i as int] == id);
            return true;
        }
        i = i + 1;
    }
    false
}

fn absent_message(identity: CreatedControlIdentity) -> (r: String)
    ensures
        r@ == absent_text(identity),
{
    let mut out = owned("control create allocated ");
    match identity {
        CreatedControlIdentity::MixerBus(id) => {
            out.append("Bus(BusId(");
            append_decimal(&mut out, id.0);
            out.append("))");
        },
        CreatedControlIdentity::AutomationLane(id) => {
            out.append("Automation(LaneId(");
            append_decimal(&mut out, id.0);
            out.append("))");
        },
    }
    out.append(" but the published snapshot does not contain it");
    assert(out@ =~= absent_text(identity));
    out
}

/// The revision at which what a control action made is revealed.
pub open spec fn control_revision(before: SessionView, revisions: Option<ProjectRevisions>) -> u64 {
    match revisions {
        Some(revisions) => revisions.aggregate,
        None => before.published.project->0.revisions.aggregate,
    }
}

/// What a control action that names what it makes comes to.
pub open spec fn control_reveal_outcome(
    before: SessionView,
    identity: Result<Option<CreatedControlIdentity>, String>,
    operation: Result<ControlSessionOperation, String>,
    outcome: Result<ControlRevealReceipt, ProjectSessionError>,
    after: SessionView,
) -> bool {
    match (before.published.project, identity) {
        (None, _) => outcome == Err::<ControlRevealReceipt, ProjectSessionError>(
            ProjectSessionError::NoProject,
        ) && after == before,
        (Some(_), Err(message)) => outcome == Err::<ControlRevealReceipt, ProjectSessionError>(
            ProjectSessionError::Action(message),
        ) && after == before,
        (Some(_), Ok(identity)) => exists|executed: Result<
            Option<ProjectRevisions>,
            ProjectSessionError,
        >| #[trigger]
            control_outcome(before, operation, executed, after) && match executed {
                Err(error) => outcome == Err::<ControlRevealReceipt, ProjectSessionError>(error),
                Ok(revisions) => match identity {
                    None => {
                        &&& outcome matches Ok(receipt)
                        &&& receipt.revisions == revisions
                        &&& receipt.primary is None
                        &&& receipt.reveal is None
                    },
                    Some(identity) => match after.published.project {
                        None => outcome == Err::<ControlRevealReceipt, ProjectSessionError>(
                            ProjectSessionError::NoProject,
                        ),
                        Some(snapshot) => if control_exists(*snapshot.project, identity) {
                            &&& outcome matches Ok(receipt)
                            &&& receipt.revisions == revisions
                            &&& receipt.primary == Some(control_object(identity))
                            &&& optional_reveal(receipt.reveal) == Some(
                                recommendation(
                                    control_object(identity),
                                    Seq::empty(),
                                    Some(control_revision(before, revisions)),
                                ),
                            )
                        } else {
                            outcome matches Err(ProjectSessionError::Action(message)) && message@
                                == absent_text(identity)
                        },
                    },
                },
            },
    }
}

/// Publishes a control action and says what it made. What was allocated must be
/// in the project that is then published.
pub fn execute_control_action_revealed(
    session: &mut ProjectSession,
    identity: Result<Option<CreatedControlIdentity>, String>,
    operation: Result<ControlSessionOperation, String>,
) -> (r: Result<ControlRevealReceipt, ProjectSessionError>)
    requires
        old(session).wf(),
    ensures
        final(session).wf(),
        control_reveal_outcome(old(session)@, identity, operation, r, final(session)@),
{
    let ghost before = session@;
    let pre_aggregate: u64 = match session.project_snapshot() {
        Ok(snapshot) => snapshot.revisions.aggregate,
        Err(error) => {
            return Err(error);
        },
    };
    let identity = match identity {
        Ok(identity) => identity,
        Err(message) => {
            return Err(ProjectSessionError::Action(message));
        },
    };
    let executed = session.execute_control_action_for_editor(operation);
    assert(control_outcome(before, operation, executed, session@));
    let revisions = match executed {
        Ok(revisions) => revisions,
        Err(error) => {
            return Err(error);
        },
    };
    let created = match identity {
        Some(created) => created,
        None => {
            return Ok(ControlRevealReceipt { revisions, primary: None, reveal: None });
        },
    };
    let exists = match session.project_snapshot() {
        Err(error) => {
            return Err(error);
        },
        Ok(snapshot) => match created {
            CreatedControlIdentity::MixerBus(id) => bus_exists(&snapshot.project.buses, id),
            CreatedControlIdentity::AutomationLane(id) => lane_exists(
                &snapshot.project.automation,
                id,
            ),
        },
    };
    if !exists {
        return Err(ProjectSessionError::Action(absent_message(created)));
    }
    let primary = match created {
        CreatedControlIdentity::MixerBus(id) => ObjectRef::Bus(id),
        CreatedControlIdentity::AutomationLane(id) => ObjectRef::Automation(id),
    };
    let revision: u64 = match revisions {
        Some(revisions) => revisions.aggregate,
        None => pre_aggregate,
    };
    let none: Vec<ObjectRef> = Vec::new();
    assert(none@ =~= Seq::<ObjectRef>::empty());
    Ok(
        ControlRevealReceipt {
            revisions,
            primary: Some(primary),
            reveal: Some(recommend(primary, &none, Some(revision))),
        },
    )
}

// ----- the arrangement ----------------------------------------------------

/// What an event of the arrangement asks for, with the controller's reply.
#[derive(Debug, PartialEq)]
pub enum ArrangementDispatch {
    Apply { envelope: CommandEnvelope, reply: Result<ControllerReply, String> },
    History { kind: HistoryDirection, step: Result<ControllerStep, String> },
    SelectionOnly,
    Seek { frame: i64 },
}

/// What an event of the arrangement did.
#[derive(Clone, Copy, Debug, PartialEq, Eq, Structural)]
pub enum ArrangementExecution {
    ProjectChanged(ProjectRevisions),
    HistoryUnchanged(HistoryDirection),
    SelectionOnly,
    Seek { frame: i64 },
}

/// Why an event of the arrangement is refused.
#[derive(Debug, PartialEq, Eq)]
pub enum ArrangementExecutionError {
    Session(ProjectSessionError),
    Lowering(String),
}

/// What an event of the arrangement came to.
#[derive(Debug, PartialEq, Eq)]
pub struct ArrangementRevealReceipt {
    pub execution: ArrangementExecution,
    pub edit: Option<ProjectEditReceipt>,
    pub reveal: Option<RevealRecommendation>,
}

/// What an event of the arrangement comes to.
pub open spec fn arrangement_outcome(
    before: SessionView,
    dispatch: Result<ArrangementDispatch, String>,
    outcome: Result<ArrangementRevealReceipt, ArrangementExecutionError>,
    after: SessionView,
) -> bool {
    match (before.published.project, dispatch) {
        (None, _) => outcome == Err::<ArrangementRevealReceipt, ArrangementExecutionError>(
            ArrangementExecutionError::Session(ProjectSessionError::NoProject),
        ) && after == before,
        (Some(_), Err(message)) => outcome == Err::<
            ArrangementRevealReceipt,
            ArrangementExecutionError,
        >(ArrangementExecutionError::Lowering(message)) && after == before,
        (Some(_), Ok(ArrangementDispatch::Apply { envelope, reply })) => exists|executed: Result<
            ProjectMutationReceipt,
            ProjectSessionError,
        >| #[trigger]
            envelope_outcome(before, envelope, reply, executed, after) && match executed {
                Err(error) => outcome == Err::<ArrangementRevealReceipt, ArrangementExecutionError>(
                    ArrangementExecutionError::Session(error),
                ),
                Ok(receipt) => outcome == Ok::<ArrangementRevealReceipt, ArrangementExecutionError>(
                    ArrangementRevealReceipt {
                        execution: ArrangementExecution::ProjectChanged(
                            receipt.edit.publication.revisions,
                        ),
                        edit: Some(receipt.edit),
                        reveal: receipt.reveal,
                    },
                ),
            },
        (Some(_), Ok(ArrangementDispatch::History { kind, step })) => match (
            before.controller,
            step,
        ) {
            (None, _) => outcome == Err::<ArrangementRevealReceipt, ArrangementExecutionError>(
                ArrangementExecutionError::Session(ProjectSessionError::NoProject),
            ) && after == before,
            (Some(_), Err(message)) => outcome == Err::<
                ArrangementRevealReceipt,
                ArrangementExecutionError,
            >(ArrangementExecutionError::Session(ProjectSessionError::Controller(message)))
                && after == before,
            (Some(_), Ok(step)) => {
                let edit = step_receipt(before, step.controller, step.update);
                &&& after == after_step(before, step.controller, step.update)
                &&& outcome == Ok::<ArrangementRevealReceipt, ArrangementExecutionError>(
                    ArrangementRevealReceipt {
                        execution: match edit {
                            Some(edit) => ArrangementExecution::ProjectChanged(
                                edit.publication.revisions,
                            ),
                            None => ArrangementExecution::HistoryUnchanged(kind),
                        },
                        edit,
                        reveal: None,
                    },
                )
            },
        },
        (Some(_), Ok(ArrangementDispatch::SelectionOnly)) => outcome == Ok::<
            ArrangementRevealReceipt,
            ArrangementExecutionError,
        >(
            ArrangementRevealReceipt {
                execution: ArrangementExecution::SelectionOnly,
                edit: None,
                reveal: None,
            },
        ) && after == before,
        (Some(_), Ok(ArrangementDispatch::Seek { frame })) => outcome == Ok::<
            ArrangementRevealReceipt,
            ArrangementExecutionError,
        >(
            ArrangementRevealReceipt {
                execution: ArrangementExecution::Seek { frame },
                edit: None,
                reveal: None,
            },
        ) && after == before,
    }
}

/// Publishes an event of the arrangement and says what to reveal. Only edits
/// that create something name an object.
pub fn execute_arrangement_event_revealed(
    session: &mut ProjectSession,
    dispatch: Result<ArrangementDispatch, String>,
) -> (r: Result<ArrangementRevealReceipt, ArrangementExecutionError>)
    requires
        old(session).wf(),
    ensures
        final(session).wf(),
        arrangement_outcome(old(session)@, dispatch, r, final(session)@),
{
    let ghost before = session@;
    match session.project_snapshot() {
        Ok(_) => {},
        Err(error) => {
            return Err(ArrangementExecutionError::Session(error));
        },
    }
    match dispatch {
        Err(message) => Err(ArrangementExecutionError::Lowering(message)),
        Ok(ArrangementDispatch::Apply { envelope, reply }) => {
            let executed = execute_envelope_revealed(session, &envelope, reply);
            assert(envelope_outcome(before, envelope, reply, executed, session@));
            match executed {
                Err(error) => Err(ArrangementExecutionError::Session(error)),
                Ok(receipt) => Ok(
                    ArrangementRevealReceipt {
                        execution: ArrangementExecution::ProjectChanged(
                            receipt.edit.publication.revisions,
                        ),
                        edit: Some(receipt.edit),
                        reveal: receipt.reveal,
                    },
                ),
            }
        },
        Ok(ArrangementDispatch::History { kind, step }) => {
            let edit = match kind {
                HistoryDirection::Undo => session.undo_with_receipt(step),
                HistoryDirection::Redo => session.redo_with_receipt(step),
            };
            match edit {
                Err(error) => Err(ArrangementExecutionError::Session(error)),
                Ok(edit) => {
                    let execution = match &edit {
                        Some(edit) => ArrangementExecution::ProjectChanged(
                            edit.publication.revisions,
                        ),
                        None => ArrangementExecution::HistoryUnchanged(kind),
                    };
                    Ok(ArrangementRevealReceipt { execution, edit, reveal: None })
                },
            }
        },
        Ok(ArrangementDispatch::SelectionOnly) => Ok(
            ArrangementRevealReceipt {
                execution: ArrangementExecution::SelectionOnly,
                edit: None,
                reveal: None,
            },
        ),
        Ok(ArrangementDispatch::Seek { frame }) => Ok(
            ArrangementRevealReceipt {
                execution: ArrangementExecution::Seek { frame },
                edit: None,
                reveal: None,
            },
        ),
    }
}

/// The selection that a recommendation asks for.
pub open spec fn is_consequence(consequence: SelectionConsequence, reveal: RevealView) -> bool {
    consequence.primary == reveal.object && consequence.related@ == reveal.related
}

/// The selection that a recommendation asks for.
pub fn reveal_selection_consequence(reveal: &RevealRecommendation) -> (r: SelectionConsequence)
    ensures
        is_consequence(r, reveal@),
{
    SelectionConsequence {
        primary: reveal.request.object,
        related: copy_objects(&reveal.request.related),
    }
}

/// The selection after an event of the arrangement; none if it created nothing.
pub fn apply_arrangement_reveal_selection(receipt: &ArrangementRevealReceipt) -> (r: Option<
    SelectionConsequence,
>)
    ensures
        match receipt.reveal {
            Some(reveal) => r matches Some(consequence) && is_consequence(consequence, reveal@),
            None => r is None,
        },
{
    match &receipt.reveal {
        Some(reveal) => Some(reveal_selection_consequence(reveal)),
        None => None,
    }
}

// ----- patterns -----------------------------------------------------------

/// What a pattern editor edits.
#[derive(Clone, Copy, Debug, PartialEq, Eq, Structural)]
pub struct PatternEditorTarget {
    pub pattern: PatternId,
}

/// What a pattern action asks for, with the controller's reply.
#[derive(Debug, PartialEq)]
pub enum LoweredPatternAction {
    Execute { envelope: CommandEnvelope, reply: Result<ControllerReply, String> },
    Undo { step: Result<ControllerStep, String> },
    Redo { step: Result<ControllerStep, String> },
    Retarget { target: PatternEditorTarget },
    PreviewCycle { target: PatternEditorTarget, cycle_index: u64, performance_seed: u64 },
}

/// What a pattern action came to.
#[derive(Debug, PartialEq, Eq)]
pub enum PatternRevealExecution {
    ProjectChanged(ProjectMutationReceipt),
    HistoryChanged(Option<ProjectEditReceipt>),
    Retarget(PatternEditorTarget),
    PreviewCycle { target: PatternEditorTarget, cycle_index: u64, performance_seed: u64 },
}

/// Why a pattern action is refused.
#[derive(Debug, PartialEq, Eq)]
pub enum PatternRevealExecutionError {
    Lowering(String),
    Session(ProjectSessionError),
}

/// A recommendation that also mentions the pattern that was duplicated.
pub open spec fn with_source(plain: RevealView, source: Option<PatternId>) -> RevealView {
    match source {
        None => plain,
        Some(pattern) => {
            let object = ObjectRef::Pattern(pattern);
            if plain.object != object && !plain.related.contains(object) {
                RevealView { related: plain.related.push(object), ..plain }
            } else {
                plain
            }
        },
    }
}

/// What a step in the history comes to for a pattern action.
pub open spec fn pattern_step_outcome(
    before: SessionView,
    step: Result<ControllerStep, String>,
    outcome: Result<PatternRevealExecution, PatternRevealExecutionError>,
    after: SessionView,
) -> bool {
    match (before.controller, step) {
        (None, _) => outcome == Err::<PatternRevealExecution, PatternRevealExecutionError>(
            PatternRevealExecutionError::Session(ProjectSessionError::NoProject),
        ) && after == before,
        (Some(_), Err(message)) => outcome == Err::<
            PatternRevealExecution,
            PatternRevealExecutionError,
        >(PatternRevealExecutionError::Session(ProjectSessionError::Controller(message))) && after
            == before,
        (Some(_), Ok(step)) => outcome == Ok::<PatternRevealExecution, PatternRevealExecutionError>(
            PatternRevealExecution::HistoryChanged(
                step_receipt(before, step.controller, step.update),
            ),
        ) && after == after_step(before, step.controller, step.update),
    }
}

/// What a pattern action comes to.
pub open spec fn pattern_outcome(
    before: SessionView,
    source: Option<PatternId>,
    lowered: Result<LoweredPatternAction, String>,
    outcome: Result<PatternRevealExecution, PatternRevealExecutionError>,
    after: SessionView,
) -> bool {
    match (before.published.project, lowered) {
        (None, _) => outcome == Err::<PatternRevealExecution, PatternRevealExecutionError>(
            PatternRevealExecutionError::Session(ProjectSessionError::NoProject),
        ) && after == before,
        (Some(_), Err(message)) => outcome == Err::<
            PatternRevealExecution,
            PatternRevealExecutionError,
        >(PatternRevealExecutionError::Lowering(message)) && after == before,
        (Some(_), Ok(LoweredPatternAction::Execute { envelope, reply })) => exists|executed: Result<
            ProjectMutationReceipt,
            ProjectSessionError,
        >| #[trigger]
            envelope_outcome(before, envelope, reply, executed, after) && match executed {
                Err(error) => outcome == Err::<PatternRevealExecution, PatternRevealExecutionError>(
                    PatternRevealExecutionError::Session(error),
                ),
                Ok(plain) => {
                    &&& outcome matches Ok(PatternRevealExecution::ProjectChanged(receipt))
                    &&& receipt.edit == plain.edit
                    &&& optional_reveal(receipt.reveal) == match plain.reveal {
                        Some(reveal) => Some(with_source(reveal@, source)),
                        None => None,
                    }
                },
            },
        (Some(_), Ok(LoweredPatternAction::Undo { step })) => pattern_step_outcome(
            before,
            step,
            outcome,
            after,
        ),
        (Some(_), Ok(LoweredPatternAction::Redo { step })) => pattern_step_outcome(
            before,
            step,
            outcome,
            after,
        ),
        (Some(_), Ok(LoweredPatternAction::Retarget { target })) => outcome == Ok::<
            PatternRevealExecution,
            PatternRevealExecutionError,
        >(PatternRevealExecution::Retarget(target)) && after == before,
        (
            Some(_),
            Ok(LoweredPatternAction::PreviewCycle { target, cycle_index, performance_seed }),
        ) => outcome == Ok::<PatternRevealExecution, PatternRevealExecutionError>(
            PatternRevealExecution::PreviewCycle { target, cycle_index, performance_seed },
        ) && after == before,
    }
}

/// Publishes a pattern action and says what to reveal. `source` is the pattern
/// that the action duplicates, if it does.
pub fn execute_pattern_action_revealed(
    session: &mut ProjectSession,
    source: Option<PatternId>,
    lowered: Result<LoweredPatternAction, String>,
) -> (r: Result<PatternRevealExecution, PatternRevealExecutionError>)
    requires
        old(session).wf(),
    ensures
        final(session).wf(),
        pattern_outcome(old(session)@, source, lowered, r, final(session)@),
{
    let ghost before = session@;
    match session.project_snapshot() {
        Ok(_) => {},
        Err(error) => {
            return Err(PatternRevealExecutionError::Session(error));
        },
    }
    match lowered {
        Err(message) => Err(PatternRevealExecutionError::Lowering(message)),
        Ok(LoweredPatternAction::Execute { envelope, reply }) => {
            let executed = execute_envelope_revealed(session, &envelope, reply);
            assert(envelope_outcome(before, envelope, reply, executed, session@));
            match executed {
                Err(error) => Err(PatternRevealExecutionError::Session(error)),
                Ok(receipt) => {
                    let ProjectMutationReceipt { edit, reveal } = receipt;
                    let mentioned = match (source, reveal) {
                        (Some(pattern), Some(plain)) => {
                            let mut plain = plain;
                            let object = ObjectRef::Pattern(pattern);
                            if !plain.request.object.same(&object) && !holds_object(
                                &plain.request.related,
                                &object,
                            ) {
                                plain.request.related.push(object);
                            }
                            Some(plain)
                        },
                        (_, plain) => plain,
                    };
                    Ok(
                        PatternRevealExecution::ProjectChanged(
                            ProjectMutationReceipt { edit, reveal: mentioned },
                        ),
                    )
                },
            }
        },
        Ok(LoweredPatternAction::Undo { step }) => match session.undo_with_receipt(step) {
            Ok(edit) => Ok(PatternRevealExecution::HistoryChanged(edit)),
            Err(error) => Err(PatternRevealExecutionError::Session(error)),
        },
        Ok(LoweredPatternAction::Redo { step }) => match session.redo_with_receipt(step) {
            Ok(edit) => Ok(PatternRevealExecution::HistoryChanged(edit)),
            Err(error) => Err(PatternRevealExecutionError::Session(error)),
        },
        Ok(LoweredPatternAction::Retarget { target }) => Ok(
            PatternRevealExecution::Retarget(target),
        ),
        Ok(LoweredPatternAction::PreviewCycle { target, cycle_index, performance_seed }) => Ok(
            PatternRevealExecution::PreviewCycle { target, cycle_index, performance_seed },
        ),
    }
}

/// The selection after a pattern action; none if it created nothing.
pub fn apply_pattern_reveal_selection(execution: &PatternRevealExecution) -> (r: Option<
    SelectionConsequence,
>)
    ensures
        match execution {
            PatternRevealExecution::ProjectChanged(receipt) => match receipt.reveal {
                Some(reveal) => r matches Some(consequence) && is_consequence(
                    consequence,
                    reveal@,
                ),
                None => r is None,
            },
            _ => r is None,
        },
{
    match execution {
        PatternRevealExecution::ProjectChanged(receipt) => match &receipt.reveal {
            Some(reveal) => Some(reveal_selection_consequence(reveal)),
            None => None,
        },
        _ => None,
    }
}

// ----- laws -------------------------------------------------------------

proof fn lemma_first_new(commands: Seq<DomainCommand>, list: Seq<RankedObject>, i: int, k: int)
    requires
        0 <= i <= k < list.len(),
        !is_predecessor(commands, list[k].object),
    ensures
        first_new(commands, list, i) matches Some(object) && !is_predecessor(commands, object),
    decreases k - i,
{
    if i < k && is_predecessor(commands, list[i].object) {
        lemma_first_new(commands, list, i + 1, k);
    }
}

/// What the same commands rewrite never wins over something they make.
pub proof fn the_new_object_is_revealed(
    commands: Seq<DomainCommand>,
    state: ProjectState,
    revision: Option<u64>,
    k: int,
)
    requires
        0 <= k < created(commands, state, commands.len() as int).len(),
        !is_predecessor(
            commands,
            created(commands, state, commands.len() as int)[k].object,
        ),
    ensures
        command_recommendation(commands, state, revision) matches Some(shown) && !is_predecessor(
            commands,
            shown.object,
        ),
{
    broadcast use vstd::seq_lib::group_to_multiset_ensures;

    let all = created(commands, state, commands.len() as int);
    let list = ranked(all);
    crate::rank::ranked_is_an_ordering(all);
    assert(all.contains(all[k]));
    assert(all.to_multiset().count(all[k]) > 0);
    assert(list.contains(all[k]));
    let m = choose|m: int| 0 <= m < list.len() && list[m] == all[k];
    lemma_first_new(commands, list, 0, m);
}

proof fn lemma_nothing_created(commands: Seq<DomainCommand>, state: ProjectState, i: int)
    requires
        0 <= i <= commands.len(),
        forall|k: int|
            0 <= k < commands.len() ==> command_objects(
                commands,
                state,
                #[trigger] commands[k],
            ).len() == 0,
    ensures
        created(commands, state, i).len() == 0,
    decreases i,
{
    if i > 0 {
        lemma_nothing_created(commands, state, i - 1);
        assert(command_objects(commands, state, commands[i - 1]).len() == 0);
    }
}

/// Commands that create nothing reveal nothing.
pub proof fn plain_edits_reveal_nothing(
    commands: Seq<DomainCommand>,
    state: ProjectState,
    revision: Option<u64>,
)
    requires
        forall|k: int|
            0 <= k < commands.len() ==> command_objects(
                commands,
                state,
                #[trigger] commands[k],
            ).len() == 0,
    ensures
        command_recommendation(commands, state, revision) is None,
{
    lemma_nothing_created(commands, state, commands.len() as int);
    crate::rank::ranked_is_an_ordering(created(commands, state, commands.len() as int));
}

/// A command makes an object of its own: a clip as it is placed, a track, a pattern, an
/// automation lane, a sample kit or an asset. Placed patterns come first, then audio
/// clips, placed automation, then patterns, lanes and kits, then tracks, then assets.
pub open spec fn makes(
    commands: Seq<DomainCommand>,
    state: ProjectState,
    command: DomainCommand,
    made: RankedObject,
) -> bool {
    match command {
        DomainCommand::PutClip { before: None, after: Some(clip) } => match clip.content {
            ClipContent::Pattern { pattern } => made == at(
                0,
                ObjectRef::PatternOccurrence(
                    PatternOccurrenceRef {
                        arrangement_clip: clip.id,
                        sequencer_clip: sequence_of(commands, state, clip.id),
                        pattern: pattern_of(commands, state, clip.id, pattern),
                    },
                ),
            ),
            ClipContent::Audio { .. } => made == at(1, ObjectRef::AudioClip(clip.id)),
            ClipContent::Automation { parameter } => {
                &&& bound_lane(state.lanes@, parameter, 0) matches Some(lane)
                &&& made == at(
                    2,
                    ObjectRef::AutomationOccurrence(
                        AutomationOccurrenceRef { arrangement_clip: clip.id, lane },
                    ),
                )
            },
        },
        DomainCommand::PutPattern { before: None, after: Some(pattern) } => made == at(
            3,
            ObjectRef::Pattern(pattern),
        ),
        DomainCommand::PutAutomation { changes } => exists|c: int|
            0 <= c < changes@.len() && is_new_lane(#[trigger] changes@[c], made),
        DomainCommand::PutSampleKit { before: None, after: Some(kit) } => made == at(
            3,
            ObjectRef::Instrument(kit.id),
        ),
        DomainCommand::PutTrack { before: None, after: Some(track) } => made == at(
            4,
            ObjectRef::Track(track),
        ),
        DomainCommand::PutAsset { id, existed: false, exists: true } => made == at(
            5,
            ObjectRef::Material(id),
        ),
        _ => false,
    }
}

/// A change creates a lane.
pub open spec fn is_new_lane(change: LaneChange, made: RankedObject) -> bool {
    &&& change.before is None
    &&& change.after matches Some(lane)
    &&& made == at(3, ObjectRef::Automation(lane))
}

/// One of the commands makes an object of its own.
pub open spec fn is_made(
    commands: Seq<DomainCommand>,
    state: ProjectState,
    made: RankedObject,
) -> bool {
    exists|i: int| 0 <= i < commands.len() && makes(commands, state, #[trigger] commands[i], made)
}

/// A command creates a clip, a track, a pattern, a lane, a kit or an asset.
pub open spec fn creates(command: DomainCommand) -> bool {
    match command {
        DomainCommand::PutClip { before: None, after: Some(_) } => true,
        DomainCommand::PutTrack { before: None, after: Some(_) } => true,
        DomainCommand::PutPattern { before: None, after: Some(_) } => true,
        DomainCommand::PutAutomation { changes } => exists|c: int|
            0 <= c < changes@.len() && (#[trigger] changes@[c]).before is None
                && changes@[c].after is Some,
        DomainCommand::PutSampleKit { before: None, after: Some(_) } => true,
        DomainCommand::PutAsset { existed: false, exists: true, .. } => true,
        _ => false,
    }
}

/// The parameter of an automation clip that a command creates is bound to a lane.
pub open spec fn places_bound_automation(command: DomainCommand, state: ProjectState) -> bool {
    match command {
        DomainCommand::PutClip { before: None, after: Some(clip) } => match clip.content {
            ClipContent::Automation { parameter } => bound_lane(state.lanes@, parameter, 0) is Some,
            _ => true,
        },
        _ => true,
    }
}

proof fn lemma_lane_objects(changes: Seq<LaneChange>, n: int)
    requires
        0 <= n <= changes.len(),
    ensures
        forall|x: RankedObject| #[trigger]
            lane_objects(changes, n).contains(x) <==> exists|c: int|
                0 <= c < n && is_new_lane(#[trigger] changes[c], x),
    decreases n,
{
    if n > 0 {
        lemma_lane_objects(changes, n - 1);
        let done = lane_objects(changes, n - 1);
        let now = lane_objects(changes, n);
        assert forall|x: RankedObject| #[trigger] now.contains(x) <==> exists|c: int|
            0 <= c < n && is_new_lane(#[trigger] changes[c], x) by {
            if now.contains(x) {
                let k = choose|k: int| 0 <= k < now.len() && now[k] == x;
                if k < done.len() {
                    assert(done[k] == x);
                    assert(done.contains(x));
                } else {
                    assert(is_new_lane(changes[n - 1], x));
                }
            }
            if exists|c: int| 0 <= c < n && is_new_lane(#[trigger] changes[c], x) {
                let c = choose|c: int| 0 <= c < n && is_new_lane(#[trigger] changes[c], x);
                if c < n - 1 {
                    assert(done.contains(x));
                    let k = choose|k: int| 0 <= k < done.len() && done[k] == x;
                    assert(now[k] == x);
                } else {
                    assert(now[done.len() as int] == x);
                }
            }
        }
    }
}

proof fn lemma_command_objects(
    commands: Seq<DomainCommand>,
    state: ProjectState,
    command: DomainCommand,
)
    requires
        places_bound_automation(command, state),
    ensures
        forall|x: RankedObject|
            makes(commands, state, command, x) ==> #[trigger] command_objects(
                commands,
                state,
                command,
            ).contains(x),
        forall|x: RankedObject| #[trigger]
            command_objects(commands, state, command).contains(x) && !makes(
                commands,
                state,
                command,
                x,
            ) ==> exists|m: RankedObject| #[trigger]
                makes(commands, state, command, m) && m.closeness < x.closeness,
        creates(command) <==> command_objects(commands, state, command).len() > 0,
{
    let list = command_objects(commands, state, command);
    match command {
        DomainCommand::PutAutomation { changes } => {
            lemma_lane_objects(changes@, changes@.len() as int);
            if creates(command) {
                let c = choose|c: int|
                    0 <= c < changes@.len() && (#[trigger] changes@[c]).before is None
                        && changes@[c].after is Some;
                let x = at(3, ObjectRef::Automation(changes@[c].after->0));
                assert(is_new_lane(changes@[c], x));
                assert(list.contains(x));
            }
            if list.len() > 0 {
                assert(list.contains(list[0]));
                let c = choose|c: int|
                    0 <= c < changes@.len() && is_new_lane(#[trigger] changes@[c], list[0]);
                assert(changes@[c].before is None && changes@[c].after is Some);
            }
        },
        _ => {
            if list.len() > 0 {
                assert(makes(commands, state, command, list[0]));
                assert forall|x: RankedObject| makes(commands, state, command, x) implies
                    #[trigger] list.contains(x) by {
                    assert(list[0] == x);
                }
                assert forall|x: RankedObject| #[trigger]
                    list.contains(x) && !makes(commands, state, command, x) implies exists|
                    m: RankedObject,
                | #[trigger] makes(commands, state, command, m) && m.closeness < x.closeness by {
                    let k = choose|k: int| 0 <= k < list.len() && list[k] == x;
                    assert(k > 0);
                    assert(list[0].closeness < list[k].closeness);
                }
            }
        },
    }
}

proof fn lemma_created(commands: Seq<DomainCommand>, state: ProjectState, n: int)
    requires
        0 <= n <= commands.len(),
    ensures
        forall|x: RankedObject| #[trigger]
            created(commands, state, n).contains(x) <==> exists|i: int|
                0 <= i < n && command_objects(commands, state, #[trigger] commands[i]).contains(x),
    decreases n,
{
    if n > 0 {
        lemma_created(commands, state, n - 1);
        let done = created(commands, state, n - 1);
        let more = command_objects(commands, state, commands[n - 1]);
        let now = created(commands, state, n);
        assert forall|x: RankedObject| #[trigger] now.contains(x) <==> exists|i: int|
            0 <= i < n && command_objects(commands, state, #[trigger] commands[i]).contains(x) by {
            if now.contains(x) {
                let k = choose|k: int| 0 <= k < now.len() && now[k] == x;
                if k < done.len() {
                    assert(done[k] == x);
                    assert(done.contains(x));
                } else {
                    assert(more[k - done.len()] == x);
                    assert(more.contains(x));
                }
            }
            if exists|i: int|
                0 <= i < n && command_objects(commands, state, #[trigger] commands[i]).contains(x) {
                let i = choose|i: int|
                    0 <= i < n && command_objects(commands, state, #[trigger] commands[i]).contains(
                        x,
                    );
                if i < n - 1 {
                    assert(done.contains(x));
                    let k = choose|k: int| 0 <= k < done.len() && done[k] == x;
                    assert(now[k] == x);
                } else {
                    let k = choose|k: int| 0 <= k < more.len() && more[k] == x;
                    assert(now[done.len() + k] == x);
                }
            }
        }
    }
}

/// Where nothing is both created and rewritten, and placed automation is bound to a
/// lane, nothing is revealed exactly where nothing is created. Otherwise an object is
/// revealed that the commands make of their own, of the first kind in order that they
/// make any of, and there the one with the least address.
pub proof fn the_closest_kind_is_revealed(
    commands: Seq<DomainCommand>,
    state: ProjectState,
    revision: Option<u64>,
)
    requires
        forall|made: RankedObject| #[trigger]
            is_made(commands, state, made) ==> !is_predecessor(commands, made.object),
        forall|i: int|
            0 <= i < commands.len() ==> places_bound_automation(#[trigger] commands[i], state),
    ensures
        match command_recommendation(commands, state, revision) {
            None => forall|i: int| 0 <= i < commands.len() ==> !creates(#[trigger] commands[i]),
            Some(shown) => {
                &&& exists|i: int| 0 <= i < commands.len() && creates(#[trigger] commands[i])
                &&& exists|made: RankedObject| #[trigger]
                    is_made(commands, state, made) && shown.object == made.object && (forall|
                        other: RankedObject,
                    | #[trigger]
                        is_made(commands, state, other) ==> !rank_lt(other.rank(), made.rank()))
            },
        },
{
    broadcast use vstd::seq_lib::group_to_multiset_ensures;

    let all = created(commands, state, commands.len() as int);
    let list = ranked(all);
    crate::rank::ranked_is_an_ordering(all);
    lemma_created(commands, state, commands.len() as int);
    assert forall|i: int| 0 <= i < commands.len() implies creates(#[trigger] commands[i])
        == (command_objects(commands, state, commands[i]).len() > 0) by {
        lemma_command_objects(commands, state, commands[i]);
    }
    if all.len() == 0 {
        assert forall|i: int| 0 <= i < commands.len() implies !creates(#[trigger] commands[i]) by {
            let objects = command_objects(commands, state, commands[i]);
            if objects.len() > 0 {
                assert(objects.contains(objects[0]));
                assert(all.contains(objects[0]));
            }
        }
    } else {
        let head = list[0];
        assert(list.contains(head));
        assert(list.to_multiset().count(head) > 0);
        assert(all.contains(head));
        let i = choose|i: int|
            0 <= i < commands.len() && command_objects(
                commands,
                state,
                #[trigger] commands[i],
            ).contains(head);
        lemma_command_objects(commands, state, commands[i]);
        assert(creates(commands[i]));
        assert forall|other: RankedObject| #[trigger] is_made(commands, state, other) implies
            !rank_lt(other.rank(), head.rank()) by {
            let j = choose|j: int|
                0 <= j < commands.len() && makes(commands, state, #[trigger] commands[j], other);
            lemma_command_objects(commands, state, commands[j]);
            assert(command_objects(commands, state, commands[j]).contains(other));
            lemma_head_is_least(commands, state, other);
        }
        if !makes(commands, state, commands[i], head) {
            let m = choose|m: RankedObject| #[trigger]
                makes(commands, state, commands[i], m) && m.closeness < head.closeness;
            assert(is_made(commands, state, m));
            assert(m.rank()[0] == m.closeness && head.rank()[0] == head.closeness);
            assert(rank_lt(m.rank(), head.rank()));
        }
        assert(is_made(commands, state, head));
        assert(first_new(commands, list, 0) == Some(head.object));
    }
}

proof fn lemma_head_is_least(
    commands: Seq<DomainCommand>,
    state: ProjectState,
    other: RankedObject,
)
    requires
        created(commands, state, commands.len() as int).contains(other),
    ensures
        ({
            let list = ranked(created(commands, state, commands.len() as int));
            list.len() > 0 && !rank_lt(other.rank(), list[0].rank())
        }),
{
    broadcast use vstd::seq_lib::group_to_multiset_ensures;

    let all = created(commands, state, commands.len() as int);
    let list = ranked(all);
    crate::rank::ranked_is_an_ordering(all);
    assert(all.to_multiset().count(other) > 0);
    assert(list.contains(other));
    let k = choose|k: int| 0 <= k < list.len() && list[k] == other;
    if k == 0 {
        crate::rank::rank_lt_irreflexive(other.rank());
    } else {
        assert(!rank_lt(list[k].rank(), list[0].rank()));
    }
}

/// What is revealed depends on the commands of an edit and on the project alone:
/// another label, another base revision or other claims reveal the same.
pub proof fn only_commands_decide_what_is_revealed(
    left: CommandEnvelope,
    right: CommandEnvelope,
    state: ProjectState,
    shown_left: Option<RevealRecommendation>,
    shown_right: Option<RevealRecommendation>,
)
    requires
        left.commands@ == right.commands@,
        optional_reveal(shown_left) == command_recommendation(left.commands@, state, None),
        optional_reveal(shown_right) == command_recommendation(right.commands@, state, None),
    ensures
        optional_reveal(shown_left) == optional_reveal(shown_right),
{
}

/// There is one rule for each flow: the place of a flow in the inventory is its
/// own.
pub proof fn flows_have_their_own_places(left: DurableFlow, right: DurableFlow)
    requires
        flow_place(left) == flow_place(right),
    ensures
        left == right,
{
}

} // verus!
