//! What to reveal after assets, samples, interpretations and readings were
//! published.

use vstd::prelude::*;

use crate::command::{AssetId, BusId, ClipId, KitId, PadId, PatternId, SequenceClipId, TrackId, ZoneId};
use crate::live_project::{AssetImportDisposition, AssetImportReply};
use crate::objects::{
    ArtifactId, ComparisonId, ExplanationId, FindingRef, ObjectRef, PadRef, PatternOccurrenceRef,
    RevealRecommendation, VirtualSliceRef,
};
use crate::rank::{ranked, sort_by_rank};
use crate::reading::{ReadingFile, ReadingId};
use crate::receipts::{
    at, list_objects, objects_of, optional_reveal, pad_object, recommend, recommendation, rule_of,
    DurableFlow, RankedObject, RevealView,
};
use crate::session::{
    after_step, step_receipt, ProjectEditReceipt, ProjectSession, ProjectSessionError,
};
use crate::text::same_text;

verus! {

// ----- assets -------------------------------------------------------------

/// Materials as objects.
pub open spec fn materials(assets: Seq<AssetId>) -> Seq<ObjectRef> {
    assets.map_values(|a: AssetId| ObjectRef::Material(a))
}

fn list_materials(assets: &Vec<AssetId>) -> (r: Vec<ObjectRef>)
    ensures
        r@ == materials(assets@),
{
    let mut out: Vec<ObjectRef> = Vec::new();
    let mut i: usize = 0;
    while i < assets.len()
        invariant
            i <= assets.len(),
            out@ =~= materials(assets@).take(i as int),
        decreases assets.len() - i,
    {
        out.push(ObjectRef::Material(assets[i]));
        assert(materials(assets@).take(i as int + 1) =~= materials(assets@).take(i as int).push(
            materials(assets@)[i as int],
        ));
        i = i + 1;
    }
    assert(materials(assets@).take(i as int) =~= materials(assets@));
    out
}

/// The recommendation for an asset, mentioning others as they come.
pub open spec fn asset_recommendation(
    asset: AssetId,
    related: Seq<ObjectRef>,
    revision: Option<u64>,
) -> RevealView {
    RevealView { related, ..recommendation(ObjectRef::Material(asset), Seq::empty(), revision) }
}

/// What to reveal after an asset was made.
pub fn recommend_asset(asset: AssetId) -> (r: RevealRecommendation)
    ensures
        r@ == recommendation(ObjectRef::Material(asset), Seq::empty(), None),
{
    let none: Vec<ObjectRef> = Vec::new();
    assert(none@ =~= Seq::<ObjectRef>::empty());
    recommend(ObjectRef::Material(asset), &none, None)
}

fn recommend_asset_with(asset: AssetId, others: &Vec<AssetId>, revision: Option<u64>) -> (r:
    RevealRecommendation)
    ensures
        r@ == asset_recommendation(asset, materials(others@), revision),
{
    let mut recommended = recommend_asset(asset);
    recommended.request.expected_project_revision = revision;
    let mut related = list_materials(others);
    let ghost all = related@;
    recommended.request.related.append(&mut related);
    assert(recommended.request.related@ =~= all);
    recommended
}

/// An imported asset and what to reveal.
#[derive(Debug, PartialEq, Eq)]
pub struct AssetPublication {
    pub asset: AssetId,
    pub disposition: AssetImportDisposition,
    pub decoded_pcm: String,
    pub duplicate_predecessors: Vec<AssetId>,
    pub edit: Option<ProjectEditReceipt>,
    pub reveal: RevealRecommendation,
}

/// Publishes an imported asset and says what to reveal: the asset, new or
/// reused, with those of the same fingerprint mentioned.
pub fn import_asset_revealed(
    session: &mut ProjectSession,
    expected_revision: u64,
    reply: Result<AssetImportReply, String>,
) -> (r: Result<AssetPublication, ProjectSessionError>)
    requires
        old(session).wf(),
    ensures
        final(session).wf(),
        match (old(session)@.controller, reply) {
            (None, _) => r == Err::<AssetPublication, ProjectSessionError>(
                ProjectSessionError::NoProject,
            ) && final(session)@ == old(session)@,
            (Some(_), Err(message)) => r == Err::<AssetPublication, ProjectSessionError>(
                ProjectSessionError::Controller(message),
            ) && final(session)@ == old(session)@,
            (Some(_), Ok(reply)) => {
                &&& final(session)@ == after_step(old(session)@, reply.controller, reply.update)
                &&& r matches Ok(publication)
                &&& publication.asset == reply.asset
                &&& publication.disposition == reply.disposition
                &&& publication.decoded_pcm == reply.decoded_pcm
                &&& publication.duplicate_predecessors == reply.duplicate_predecessors
                &&& publication.edit == step_receipt(
                    old(session)@,
                    reply.controller,
                    reply.update,
                )
                &&& publication.reveal@ == asset_recommendation(
                    reply.asset,
                    materials(reply.duplicate_predecessors@),
                    Some(
                        match reply.update {
                            Some(update) => update.snapshot.revisions.aggregate,
                            None => expected_revision,
                        },
                    ),
                )
            },
        },
{
    match session.import_asset(reply) {
        Err(error) => Err(error),
        Ok(imported) => {
            let revision: u64 = match &imported.edit {
                Some(edit) => edit.publication.revisions.aggregate,
                None => expected_revision,
            };
            let recommended = recommend_asset_with(
                imported.asset,
                &imported.duplicate_predecessors,
                Some(revision),
            );
            Ok(
                AssetPublication {
                    asset: imported.asset,
                    disposition: imported.disposition,
                    decoded_pcm: imported.decoded_pcm,
                    duplicate_predecessors: imported.duplicate_predecessors,
                    edit: imported.edit,
                    reveal: recommended,
                },
            )
        },
    }
}

/// An asset of a registry and the fingerprint of its content.
#[derive(Debug, PartialEq, Eq)]
pub struct RegisteredAsset {
    pub id: AssetId,
    pub content: String,
}

/// A registered asset and what to reveal.
#[derive(Debug, PartialEq, Eq)]
pub struct AssetRegistrationPublication {
    pub asset: AssetId,
    /// Hints only: equal fingerprints merge nothing.
    pub duplicate_predecessors: Vec<AssetId>,
    pub reveal: RevealRecommendation,
}

/// Those of the first `i` assets that have a fingerprint.
pub open spec fn same_content(assets: Seq<RegisteredAsset>, content: Seq<char>, i: int) -> Seq<
    AssetId,
>
    decreases i,
{
    if i <= 0 {
        Seq::empty()
    } else if assets[i - 1].content@ == content {
        same_content(assets, content, i - 1).push(assets[i - 1].id)
    } else {
        same_content(assets, content, i - 1)
    }
}

/// Says what to reveal after a registry took an asset. `assets` is the registry
/// before it did.
pub fn register_asset_revealed(
    assets: &Vec<RegisteredAsset>,
    content: &str,
    registered: Result<AssetId, String>,
) -> (r: Result<AssetRegistrationPublication, String>)
    ensures
        match registered {
            Err(message) => r == Err::<AssetRegistrationPublication, String>(message),
            Ok(asset) => {
                let duplicates = same_content(assets@, content@, assets@.len() as int);
                &&& r matches Ok(publication)
                &&& publication.asset == asset
                &&& publication.duplicate_predecessors@ == duplicates
                &&& publication.reveal@ == asset_recommendation(asset, materials(duplicates), None)
            },
        },
{
    let asset = match registered {
        Ok(asset) => asset,
        Err(message) => {
            return Err(message);
        },
    };
    let mut duplicates: Vec<AssetId> = Vec::new();
    let mut i: usize = 0;
    while i < assets.len()
        invariant
            i <= assets.len(),
            duplicates@ == same_content(assets@, content@, i as int),
        decreases assets.len() - i,
    {
        if same_text(assets[i].content.as_str(), content) {
            duplicates.push(assets[i].id);
        }
        i = i + 1;
    }
    let recommended = recommend_asset_with(asset, &duplicates, None);
    Ok(
        AssetRegistrationPublication {
            asset,
            duplicate_predecessors: duplicates,
            reveal: recommended,
        },
    )
}

// ----- samples ------------------------------------------------------------

/// What a constructive edit is about.
#[derive(Clone, Copy, Debug, PartialEq, Eq, Structural)]
pub enum ConstructiveFocus {
    Kit,
    Pad(PadId),
    Pattern(PatternId),
}

/// A zone that a constructive edit filled.
#[derive(Clone, Copy, Debug, PartialEq, Eq, Structural)]
pub struct ZoneTarget {
    pub kit: KitId,
    pub pad: PadId,
    pub zone: ZoneId,
}

/// What a constructive edit made.
#[derive(Debug, PartialEq, Eq)]
pub struct ConstructiveBindings {
    pub kit: KitId,
    pub pattern: Option<PatternId>,
    pub arrangement_clip: Option<ClipId>,
    pub sequencer_clip: Option<SequenceClipId>,
    pub created_pads: Vec<PadId>,
    pub created_zones: Vec<ZoneTarget>,
    pub arrangement_track: Option<TrackId>,
    pub output_bus: BusId,
}

/// The receipt of a constructive edit.
#[derive(Debug, PartialEq, Eq)]
pub struct ConstructiveApplicationReceipt {
    pub project_revision: u64,
    pub focus: ConstructiveFocus,
    pub bindings: ConstructiveBindings,
    pub materials: Vec<VirtualSliceRef>,
}

/// An optional object as a list.
pub open spec fn listed(object: Option<ObjectRef>) -> Seq<ObjectRef> {
    match object {
        Some(object) => seq![object],
        None => Seq::empty(),
    }
}

/// The pattern of a constructive edit.
pub open spec fn constructed_pattern(bindings: ConstructiveBindings) -> Option<ObjectRef> {
    match bindings.pattern {
        Some(pattern) => Some(ObjectRef::Pattern(pattern)),
        None => None,
    }
}

/// The placed pattern of a constructive edit.
pub open spec fn constructed_occurrence(bindings: ConstructiveBindings) -> Option<ObjectRef> {
    match bindings.arrangement_clip {
        Some(arrangement_clip) => Some(
            ObjectRef::PatternOccurrence(
                PatternOccurrenceRef {
                    arrangement_clip,
                    sequencer_clip: bindings.sequencer_clip,
                    pattern: bindings.pattern,
                },
            ),
        ),
        None => None,
    }
}

/// The pad that a constructive edit is about.
pub open spec fn focused_pad(receipt: ConstructiveApplicationReceipt) -> Option<ObjectRef> {
    match receipt.focus {
        ConstructiveFocus::Pad(pad) => Some(pad_object(receipt.bindings.kit, pad)),
        _ => None,
    }
}

/// What a constructive edit reveals: what it is about, as far as it was made.
pub open spec fn constructed_primary(receipt: ConstructiveApplicationReceipt) -> ObjectRef {
    let kit = ObjectRef::Instrument(receipt.bindings.kit);
    match receipt.focus {
        ConstructiveFocus::Kit => kit,
        ConstructiveFocus::Pad(pad) => pad_object(receipt.bindings.kit, pad),
        ConstructiveFocus::Pattern(_) => match constructed_pattern(receipt.bindings) {
            Some(pattern) => pattern,
            None => match constructed_occurrence(receipt.bindings) {
                Some(occurrence) => occurrence,
                None => kit,
            },
        },
    }
}

/// Everything that a constructive edit names, in the order it is mentioned.
pub open spec fn constructed_objects(receipt: ConstructiveApplicationReceipt) -> Seq<ObjectRef> {
    let bindings = receipt.bindings;
    seq![ObjectRef::Instrument(bindings.kit)] + listed(focused_pad(receipt)) + listed(
        constructed_pattern(bindings),
    ) + listed(constructed_occurrence(bindings)) + bindings.created_pads@.map_values(
        |pad: PadId| pad_object(bindings.kit, pad),
    ) + bindings.created_zones@.map_values(
        |z: ZoneTarget|
            ObjectRef::Pad(PadRef { kit: z.kit, pad: z.pad, zone: Some(z.zone) }),
    ) + receipt.materials@.map_values(|m: VirtualSliceRef| ObjectRef::Sample(m)) + listed(
        match bindings.arrangement_track {
            Some(track) => Some(ObjectRef::Track(track)),
            None => None,
        },
    ) + seq![ObjectRef::Bus(bindings.output_bus)]
}

fn push_listed(out: &mut Vec<ObjectRef>, object: Option<ObjectRef>)
    ensures
        final(out)@ == old(out)@ + listed(object),
{
    match object {
        Some(object) => {
            out.push(object);
        },
        None => {},
    }
    assert(out@ =~= old(out)@ + listed(object));
}

fn push_created_pads(out: &mut Vec<ObjectRef>, kit: KitId, pads: &Vec<PadId>)
    ensures
        final(out)@ == old(out)@ + pads@.map_values(|pad: PadId| pad_object(kit, pad)),
{
    let ghost start = out@;
    let ghost all = pads@.map_values(|pad: PadId| pad_object(kit, pad));
    let mut i: usize = 0;
    assert(out@ =~= start + all.take(0));
    while i < pads.len()
        invariant
            i <= pads.len(),
            all == pads@.map_values(|pad: PadId| pad_object(kit, pad)),
            out@ == start + all.take(i as int),
        decreases pads.len() - i,
    {
        out.push(ObjectRef::Pad(PadRef { kit, pad: pads[i], zone: None }));
        assert(out@ =~= start + all.take(i as int + 1));
        i = i + 1;
    }
    assert(all.take(all.len() as int) =~= all);
}

fn push_created_zones(out: &mut Vec<ObjectRef>, zones: &Vec<ZoneTarget>)
    ensures
        final(out)@ == old(out)@ + zones@.map_values(
            |z: ZoneTarget|
                ObjectRef::Pad(PadRef { kit: z.kit, pad: z.pad, zone: Some(z.zone) }),
        ),
{
    let ghost start = out@;
    let ghost all = zones@.map_values(
        |z: ZoneTarget| ObjectRef::Pad(PadRef { kit: z.kit, pad: z.pad, zone: Some(z.zone) }),
    );
    let mut i: usize = 0;
    assert(out@ =~= start + all.take(0));
    while i < zones.len()
        invariant
            i <= zones.len(),
            all == zones@.map_values(
                |z: ZoneTarget|
                    ObjectRef::Pad(PadRef { kit: z.kit, pad: z.pad, zone: Some(z.zone) }),
            ),
            out@ == start + all.take(i as int),
        decreases zones.len() - i,
    {
        let zone = zones[i];
        out.push(ObjectRef::Pad(PadRef { kit: zone.kit, pad: zone.pad, zone: Some(zone.zone) }));
        assert(out@ =~= start + all.take(i as int + 1));
        i = i + 1;
    }
    assert(all.take(all.len() as int) =~= all);
}

fn push_materials(out: &mut Vec<ObjectRef>, slices: &Vec<VirtualSliceRef>)
    ensures
        final(out)@ == old(out)@ + slices@.map_values(|m: VirtualSliceRef| ObjectRef::Sample(m)),
{
    let ghost start = out@;
    let ghost all = slices@.map_values(|m: VirtualSliceRef| ObjectRef::Sample(m));
    let mut i: usize = 0;
    assert(out@ =~= start + all.take(0));
    while i < slices.len()
        invariant
            i <= slices.len(),
            all == slices@.map_values(|m: VirtualSliceRef| ObjectRef::Sample(m)),
            out@ == start + all.take(i as int),
        decreases slices.len() - i,
    {
        out.push(ObjectRef::Sample(slices[i]));
        assert(out@ =~= start + all.take(i as int + 1));
        i = i + 1;
    }
    assert(all.take(all.len() as int) =~= all);
}

/// What to reveal after a constructive edit; everything it names is mentioned.
pub fn recommend_constructive_application(receipt: &ConstructiveApplicationReceipt) -> (r:
    RevealRecommendation)
    ensures
        r@ == recommendation(
            constructed_primary(*receipt),
            constructed_objects(*receipt),
            Some(receipt.project_revision),
        ),
{
    let bindings = &receipt.bindings;
    let kit = ObjectRef::Instrument(bindings.kit);
    let pattern = match bindings.pattern {
        Some(pattern) => Some(ObjectRef::Pattern(pattern)),
        None => None,
    };
    let occurrence = match bindings.arrangement_clip {
        Some(arrangement_clip) => Some(
            ObjectRef::PatternOccurrence(
                PatternOccurrenceRef {
                    arrangement_clip,
                    sequencer_clip: bindings.sequencer_clip,
                    pattern: bindings.pattern,
                },
            ),
        ),
        None => None,
    };
    let focused = match receipt.focus {
        ConstructiveFocus::Pad(pad) => Some(
            ObjectRef::Pad(PadRef { kit: bindings.kit, pad, zone: None }),
        ),
        _ => None,
    };
    let primary = match receipt.focus {
        ConstructiveFocus::Kit => kit,
        ConstructiveFocus::Pad(_) => match focused {
            Some(pad) => pad,
            None => kit,
        },
        ConstructiveFocus::Pattern(_) => match pattern {
            Some(pattern) => pattern,
            None => match occurrence {
                Some(occurrence) => occurrence,
                None => kit,
            },
        },
    };
    let mut related: Vec<ObjectRef> = Vec::new();
    related.push(kit);
    assert(related@ =~= seq![kit]);
    push_listed(&mut related, focused);
    push_listed(&mut related, pattern);
    push_listed(&mut related, occurrence);
    push_created_pads(&mut related, bindings.kit, &bindings.created_pads);
    push_created_zones(&mut related, &bindings.created_zones);
    push_materials(&mut related, &receipt.materials);
    push_listed(
        &mut related,
        match bindings.arrangement_track {
            Some(track) => Some(ObjectRef::Track(track)),
            None => None,
        },
    );
    related.push(ObjectRef::Bus(bindings.output_bus));
    assert(related@ =~= constructed_objects(*receipt));
    recommend(primary, &related, Some(receipt.project_revision))
}

// ----- interpretations ----------------------------------------------------

/// A comparison as a command puts it.
#[derive(Clone, Copy, Debug, PartialEq, Eq, Structural)]
pub struct PutComparison {
    pub id: ComparisonId,
    pub explanation: ExplanationId,
    pub source: VirtualSliceRef,
}

/// A command of the interpretation store.
#[derive(Clone, Copy, Debug, PartialEq, Eq, Structural)]
pub enum InterpretationCommand {
    PutExplanation { before: Option<ExplanationId>, after: Option<ExplanationId> },
    PutComparison { before: Option<ComparisonId>, after: Option<PutComparison> },
    PutObservation { comparison: ComparisonId, recorded: bool },
}

/// What one command of the interpretation store makes.
pub open spec fn interpretation_objects(command: InterpretationCommand) -> Seq<RankedObject> {
    match command {
        InterpretationCommand::PutExplanation { before: None, after: Some(id) } => seq![
            at(2, ObjectRef::Explanation(id)),
        ],
        InterpretationCommand::PutComparison { before: None, after: Some(comparison) } => seq![
            at(0, ObjectRef::Comparison(comparison.id)),
            at(3, ObjectRef::Explanation(comparison.explanation)),
            at(4, ObjectRef::Material(comparison.source.source_asset)),
            at(5, ObjectRef::Sample(comparison.source)),
        ],
        InterpretationCommand::PutObservation { comparison, recorded: true } => seq![
            at(1, ObjectRef::Comparison(comparison)),
        ],
        _ => Seq::empty(),
    }
}

/// What the first `i` commands of the interpretation store make.
pub open spec fn interpreted(commands: Seq<InterpretationCommand>, i: int) -> Seq<RankedObject>
    decreases i,
{
    if i <= 0 {
        Seq::empty()
    } else {
        interpreted(commands, i - 1) + interpretation_objects(commands[i - 1])
    }
}

/// What to reveal after commands of the interpretation store: what is closest.
pub open spec fn interpretation_recommendation(commands: Seq<InterpretationCommand>) -> Option<
    RevealView,
> {
    let list = ranked(interpreted(commands, commands.len() as int));
    if list.len() == 0 {
        None
    } else {
        Some(recommendation(list[0].object, objects_of(list), None))
    }
}

/// What to reveal after commands of the interpretation store.
pub fn recommend_interpretation_commands(commands: &Vec<InterpretationCommand>) -> (r: Option<
    RevealRecommendation,
>)
    ensures
        optional_reveal(r) == interpretation_recommendation(commands@),
{
    let mut list: Vec<RankedObject> = Vec::new();
    let mut i: usize = 0;
    while i < commands.len()
        invariant
            i <= commands.len(),
            list@ == interpreted(commands@, i as int),
        decreases commands.len() - i,
    {
        let ghost before = list@;
        match commands[i] {
            InterpretationCommand::PutExplanation { before: None, after: Some(id) } => {
                list.push(RankedObject { closeness: 2, object: ObjectRef::Explanation(id) });
            },
            InterpretationCommand::PutComparison { before: None, after: Some(comparison) } => {
                list.push(
                    RankedObject { closeness: 0, object: ObjectRef::Comparison(comparison.id) },
                );
                list.push(
                    RankedObject {
                        closeness: 3,
                        object: ObjectRef::Explanation(comparison.explanation),
                    },
                );
                list.push(
                    RankedObject {
                        closeness: 4,
                        object: ObjectRef::Material(comparison.source.source_asset),
                    },
                );
                list.push(
                    RankedObject { closeness: 5, object: ObjectRef::Sample(comparison.source) },
                );
            },
            InterpretationCommand::PutObservation { comparison, recorded: true } => {
                list.push(RankedObject { closeness: 1, object: ObjectRef::Comparison(comparison) });
            },
            _ => {},
        }
        assert(list@ =~= before + interpretation_objects(commands@[i as int]));
        i = i + 1;
    }
    let list = sort_by_rank(list);
    if list.len() == 0 {
        return None;
    }
    Some(recommend(list[0].object, &list_objects(&list), None))
}

/// What commands of the interpretation store came to.
#[derive(Debug, PartialEq, Eq)]
pub struct InterpretationRevealReceipt {
    pub inverse: Vec<InterpretationCommand>,
    pub reveal: Option<RevealRecommendation>,
}

/// Says what to reveal after the store applied commands; `applied` is what undoes
/// them.
pub fn apply_interpretation_revealed(
    commands: &Vec<InterpretationCommand>,
    applied: Result<Vec<InterpretationCommand>, String>,
) -> (r: Result<InterpretationRevealReceipt, String>)
    ensures
        match applied {
            Err(message) => r == Err::<InterpretationRevealReceipt, String>(message),
            Ok(inverse) => r matches Ok(receipt) && receipt.inverse == inverse && optional_reveal(
                receipt.reveal,
            ) == interpretation_recommendation(commands@),
        },
{
    let recommended = recommend_interpretation_commands(commands);
    match applied {
        Ok(inverse) => Ok(InterpretationRevealReceipt { inverse, reveal: recommended }),
        Err(message) => Err(message),
    }
}

/// A comparison that was carried out.
#[derive(Clone, Copy, Debug, PartialEq, Eq, Structural)]
pub struct ComparisonExecution {
    pub comparison: ComparisonId,
    pub explanation: ExplanationId,
}

/// What to reveal after a comparison was carried out.
pub fn recommend_comparison_execution(execution: &ComparisonExecution) -> (r: RevealRecommendation)
    ensures
        r@ == recommendation(
            ObjectRef::Comparison(execution.comparison),
            seq![ObjectRef::Explanation(execution.explanation)],
            None,
        ),
{
    let mut related: Vec<ObjectRef> = Vec::new();
    related.push(ObjectRef::Explanation(execution.explanation));
    assert(related@ =~= seq![ObjectRef::Explanation(execution.explanation)]);
    recommend(ObjectRef::Comparison(execution.comparison), &related, None)
}

/// What to reveal after coverage was published: the finding about a comparison.
pub fn recommend_coverage_artifact(artifact: ArtifactId, comparison: ComparisonId) -> (r:
    RevealRecommendation)
    ensures
        r@ == recommendation(
            ObjectRef::Finding(FindingRef { artifact, claim: comparison.0 }),
            seq![ObjectRef::Comparison(comparison)],
            None,
        ),
{
    let mut related: Vec<ObjectRef> = Vec::new();
    related.push(ObjectRef::Comparison(comparison));
    assert(related@ =~= seq![ObjectRef::Comparison(comparison)]);
    recommend(
        ObjectRef::Finding(FindingRef { artifact, claim: comparison.0 }),
        &related,
        None,
    )
}

/// What to reveal after a reading was read.
pub fn recommend_reading(reading: &ReadingFile) -> (r: RevealRecommendation)
    ensures
        r@ == recommendation(ObjectRef::Reading(reading.reading_id), Seq::empty(), None),
{
    let none: Vec<ObjectRef> = Vec::new();
    assert(none@ =~= Seq::<ObjectRef>::empty());
    recommend(ObjectRef::Reading(reading.reading_id), &none, None)
}

// ----- laws ---------------------------------------------------------------

/// What is revealed after an import, a comparison, a coverage measurement or a
/// reading is of the kind that the inventory names for that flow.
pub proof fn the_inventory_names_what_is_revealed(
    asset: AssetId,
    related: Seq<ObjectRef>,
    revision: Option<u64>,
    comparison: ComparisonId,
    artifact: ArtifactId,
    reading: ReadingId,
)
    ensures
        asset_recommendation(asset, related, revision).object.kind() == rule_of(
            DurableFlow::AssetImport,
        ).primary,
        asset_recommendation(asset, related, revision).object.kind() == rule_of(
            DurableFlow::AssetRepeatedImport,
        ).primary,
        recommendation(ObjectRef::Comparison(comparison), related, revision).object.kind()
            == rule_of(DurableFlow::ComparisonResolve).primary,
        recommendation(
            ObjectRef::Finding(FindingRef { artifact, claim: comparison.0 }),
            related,
            revision,
        ).object.kind() == rule_of(DurableFlow::CoveragePublish).primary,
        recommendation(ObjectRef::Reading(reading), related, revision).object.kind() == rule_of(
            DurableFlow::ReadingImport,
        ).primary,
{
}

} // verus!
