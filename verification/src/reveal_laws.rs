//! What commands reveal: what new clips play, what is shown first and what with it, and
//! that looking changes nothing.

use vstd::prelude::*;

use crate::command::{
    AssetId, Clip, ClipContent, ClipId, DomainCommand, MediaAliasId, PatternAliasId, PatternId,
    SequenceClipId, TrackId,
};
use crate::diff_laws::lemma_ranked_members;
use crate::live_project::{PatternDefinition, PatternPlacement, ProjectState};
use crate::objects::{related_objects_are_complete, ObjectKind, ObjectRef, PatternOccurrenceRef};
use crate::publications::{
    constructed_objects, constructed_primary, interpretation_objects,
    interpretation_recommendation, interpreted, same_content, ConstructiveApplicationReceipt,
    ConstructiveFocus, InterpretationCommand, RegisteredAsset,
};
use crate::rank::{is_ranked, rank_lt, ranked, ranked_is_an_ordering, HasRank};
use crate::receipts::{
    arrangement_outcome, asset_of, at, bound_bus, bound_definition, bound_lane, bound_media,
    bound_placement, clip_objects, command_objects, command_recommendation, control_exists,
    control_object, control_reveal_outcome, created, first_new, objects_of, pattern_of,
    pattern_outcome, put_alias, put_media, put_placement, put_sequence, recommendation, rule_of,
    sequence_of, with_source, ArrangementDispatch, ArrangementExecution,
    ArrangementExecutionError, ArrangementRevealReceipt, ControlRevealReceipt,
    CreatedControlIdentity, DurableFlow, LoweredPatternAction, PatternRevealExecution,
    PatternRevealExecutionError, RankedObject, RevealView,
};
use crate::session::{ControlSessionOperation, ProjectSessionError, SessionView};

verus! {

// ----- what clips play ----------------------------------------------------

/// Whether a command binds an alias to a pattern.
pub open spec fn puts_alias(
    command: DomainCommand,
    alias: PatternAliasId,
    pattern: PatternId,
) -> bool {
    command matches DomainCommand::PutPatternDefinitionAlias { alias: named, after: Some(to) }
        && named == alias && to == pattern
}

/// Whether a command places a clip on a sequencer clip.
pub open spec fn puts_placement(
    command: DomainCommand,
    clip: ClipId,
    sequence: SequenceClipId,
) -> bool {
    command matches DomainCommand::PutPatternPlacement { clip: named, after: Some(to) } && named
        == clip && to == sequence
}

/// Whether a command binds an alias to an asset.
pub open spec fn puts_media(command: DomainCommand, alias: MediaAliasId, asset: AssetId) -> bool {
    command matches DomainCommand::PutMediaAssetAlias { alias: named, after: Some(to) } && named
        == alias && to == asset
}

/// Whether a command makes a sequencer clip that plays a pattern.
pub open spec fn puts_sequence(
    command: DomainCommand,
    id: SequenceClipId,
    pattern: PatternId,
) -> bool {
    command matches DomainCommand::PutSequenceClip { before: None, after: Some(clip) } && clip.id
        == id && clip.pattern == pattern
}

/// The last command that binds an alias decides its pattern.
pub proof fn the_last_alias_counts(commands: Seq<DomainCommand>, alias: PatternAliasId, i: int)
    requires
        0 <= i <= commands.len(),
    ensures
        match put_alias(commands, alias, i) {
            Some(pattern) => exists|k: int|
                0 <= k < i && puts_alias(#[trigger] commands[k], alias, pattern) && forall|
                    m: int,
                    other: PatternId,
                |
                    k < m < i ==> !#[trigger] puts_alias(commands[m], alias, other),
            None => forall|m: int, other: PatternId|
                0 <= m < i ==> !#[trigger] puts_alias(commands[m], alias, other),
        },
    decreases i,
{
    if i > 0 {
        the_last_alias_counts(commands, alias, i - 1);
        if let Some(pattern) = put_alias(commands, alias, i) {
            if puts_alias(commands[i - 1], alias, pattern) {
            } else {
                let k = choose|k: int|
                    0 <= k < i - 1 && puts_alias(#[trigger] commands[k], alias, pattern) && forall|
                        m: int,
                        other: PatternId,
                    |
                        k < m < i - 1 ==> !#[trigger] puts_alias(commands[m], alias, other);
                assert(puts_alias(commands[k], alias, pattern));
            }
        }
    }
}

/// The last command that places a clip decides its sequencer clip.
pub proof fn the_last_placement_counts(commands: Seq<DomainCommand>, clip: ClipId, i: int)
    requires
        0 <= i <= commands.len(),
    ensures
        match put_placement(commands, clip, i) {
            Some(sequence) => exists|k: int|
                0 <= k < i && puts_placement(#[trigger] commands[k], clip, sequence) && forall|
                    m: int,
                    other: SequenceClipId,
                |
                    k < m < i ==> !#[trigger] puts_placement(commands[m], clip, other),
            None => forall|m: int, other: SequenceClipId|
                0 <= m < i ==> !#[trigger] puts_placement(commands[m], clip, other),
        },
    decreases i,
{
    if i > 0 {
        the_last_placement_counts(commands, clip, i - 1);
        if let Some(sequence) = put_placement(commands, clip, i) {
            if puts_placement(commands[i - 1], clip, sequence) {
            } else {
                let k = choose|k: int|
                    0 <= k < i - 1 && puts_placement(#[trigger] commands[k], clip, sequence)
                        && forall|m: int, other: SequenceClipId|
                        k < m < i - 1 ==> !#[trigger] puts_placement(commands[m], clip, other);
                assert(puts_placement(commands[k], clip, sequence));
            }
        }
    }
}

/// The last command that binds an alias decides its asset.
pub proof fn the_last_media_counts(commands: Seq<DomainCommand>, alias: MediaAliasId, i: int)
    requires
        0 <= i <= commands.len(),
    ensures
        match put_media(commands, alias, i) {
            Some(asset) => exists|k: int|
                0 <= k < i && puts_media(#[trigger] commands[k], alias, asset) && forall|
                    m: int,
                    other: AssetId,
                |
                    k < m < i ==> !#[trigger] puts_media(commands[m], alias, other),
            None => forall|m: int, other: AssetId|
                0 <= m < i ==> !#[trigger] puts_media(commands[m], alias, other),
        },
    decreases i,
{
    if i > 0 {
        the_last_media_counts(commands, alias, i - 1);
        if let Some(asset) = put_media(commands, alias, i) {
            if puts_media(commands[i - 1], alias, asset) {
            } else {
                let k = choose|k: int|
                    0 <= k < i - 1 && puts_media(#[trigger] commands[k], alias, asset) && forall|
                        m: int,
                        other: AssetId,
                    |
                        k < m < i - 1 ==> !#[trigger] puts_media(commands[m], alias, other);
                assert(puts_media(commands[k], alias, asset));
            }
        }
    }
}

/// The last command that makes a sequencer clip decides its pattern.
pub proof fn the_last_sequence_counts(commands: Seq<DomainCommand>, id: SequenceClipId, i: int)
    requires
        0 <= i <= commands.len(),
    ensures
        match put_sequence(commands, id, i) {
            Some(pattern) => exists|k: int|
                0 <= k < i && puts_sequence(#[trigger] commands[k], id, pattern) && forall|
                    m: int,
                    other: PatternId,
                |
                    k < m < i ==> !#[trigger] puts_sequence(commands[m], id, other),
            None => forall|m: int, other: PatternId|
                0 <= m < i ==> !#[trigger] puts_sequence(commands[m], id, other),
        },
    decreases i,
{
    if i > 0 {
        the_last_sequence_counts(commands, id, i - 1);
        if let Some(pattern) = put_sequence(commands, id, i) {
            if puts_sequence(commands[i - 1], id, pattern) {
            } else {
                let k = choose|k: int|
                    0 <= k < i - 1 && puts_sequence(#[trigger] commands[k], id, pattern) && forall|
                        m: int,
                        other: PatternId,
                    |
                        k < m < i - 1 ==> !#[trigger] puts_sequence(commands[m], id, other);
                assert(puts_sequence(commands[k], id, pattern));
            }
        }
    }
}

proof fn lemma_bound_placement(list: Seq<PatternPlacement>, clip: ClipId, i: int)
    requires
        0 <= i,
    ensures
        match bound_placement(list, clip, i) {
            Some(sequence) => exists|k: int|
                i <= k < list.len() && (#[trigger] list[k]).clip == clip && list[k].sequence_clip
                    == sequence && forall|m: int| i <= m < k ==> (#[trigger] list[m]).clip != clip,
            None => forall|m: int| i <= m < list.len() ==> (#[trigger] list[m]).clip != clip,
        },
    decreases list.len() - i,
{
    if i < list.len() {
        if list[i].clip == clip {
            assert(list[i].clip == clip);
        } else {
            lemma_bound_placement(list, clip, i + 1);
            if let Some(sequence) = bound_placement(list, clip, i) {
                let k = choose|k: int|
                    i + 1 <= k < list.len() && (#[trigger] list[k]).clip == clip
                        && list[k].sequence_clip == sequence && forall|m: int|
                        i + 1 <= m < k ==> (#[trigger] list[m]).clip != clip;
                assert(list[k].clip == clip);
            }
        }
    }
}

proof fn lemma_bound_definition(list: Seq<PatternDefinition>, alias: PatternAliasId, i: int)
    requires
        0 <= i,
    ensures
        match bound_definition(list, alias, i) {
            Some(pattern) => exists|k: int|
                i <= k < list.len() && (#[trigger] list[k]).alias == alias && list[k].pattern
                    == pattern && forall|m: int| i <= m < k ==> (#[trigger] list[m]).alias != alias,
            None => forall|m: int| i <= m < list.len() ==> (#[trigger] list[m]).alias != alias,
        },
    decreases list.len() - i,
{
    if i < list.len() {
        if list[i].alias == alias {
            assert(list[i].alias == alias);
        } else {
            lemma_bound_definition(list, alias, i + 1);
            if let Some(pattern) = bound_definition(list, alias, i) {
                let k = choose|k: int|
                    i + 1 <= k < list.len() && (#[trigger] list[k]).alias == alias
                        && list[k].pattern == pattern && forall|m: int|
                        i + 1 <= m < k ==> (#[trigger] list[m]).alias != alias;
                assert(list[k].alias == alias);
            }
        }
    }
}

/// What was there before counts only where the commands say nothing: for the place of a
/// clip, its pattern and its asset. A pattern is found through the sequencer clip first.
pub proof fn commands_count_before_what_was_there(
    commands: Seq<DomainCommand>,
    state: ProjectState,
    clip: ClipId,
    alias: PatternAliasId,
    media: MediaAliasId,
)
    ensures
        ({
            let n = commands.len() as int;
            &&& put_placement(commands, clip, n) is Some ==> sequence_of(commands, state, clip)
                == put_placement(commands, clip, n)
            &&& put_placement(commands, clip, n) is None ==> match sequence_of(
                commands,
                state,
                clip,
            ) {
                Some(sequence) => exists|k: int|
                    0 <= k < state.placements@.len() && (#[trigger] state.placements@[k]).clip
                        == clip && state.placements@[k].sequence_clip == sequence,
                None => forall|k: int|
                    0 <= k < state.placements@.len() ==> (#[trigger] state.placements@[k]).clip
                        != clip,
            }
            &&& put_media(commands, media, n) is Some ==> asset_of(commands, state, media)
                == put_media(commands, media, n)
            &&& put_media(commands, media, n) is None ==> asset_of(commands, state, media)
                == bound_media(state.media@, media, 0)
            &&& (sequence_of(commands, state, clip) matches Some(sequence) && put_sequence(
                commands,
                sequence,
                n,
            ) is Some) ==> pattern_of(commands, state, clip, alias) == put_sequence(
                commands,
                sequence_of(commands, state, clip)->0,
                n,
            )
            &&& (sequence_of(commands, state, clip) is None || put_sequence(
                commands,
                sequence_of(commands, state, clip)->0,
                n,
            ) is None) ==> {
                &&& put_alias(commands, alias, n) is Some ==> pattern_of(
                    commands,
                    state,
                    clip,
                    alias,
                ) == put_alias(commands, alias, n)
                &&& put_alias(commands, alias, n) is None ==> match pattern_of(
                    commands,
                    state,
                    clip,
                    alias,
                ) {
                    Some(pattern) => exists|k: int|
                        0 <= k < state.definitions@.len() && (
                        #[trigger] state.definitions@[k]).alias == alias
                            && state.definitions@[k].pattern == pattern,
                    None => forall|k: int|
                        0 <= k < state.definitions@.len() ==> (
                        #[trigger] state.definitions@[k]).alias != alias,
                }
            }
        }),
{
    lemma_bound_placement(state.placements@, clip, 0);
    lemma_bound_definition(state.definitions@, alias, 0);
}

/// A new clip is closer than whatever comes with it: its track, and the pattern, the asset
/// or the automation that it plays, where that is known.
pub proof fn new_clips_come_with_what_they_play(
    commands: Seq<DomainCommand>,
    state: ProjectState,
    clip: Clip,
)
    ensures
        ({
            let list = clip_objects(commands, state, clip);
            &&& exists|k: int|
                0 <= k < list.len() && (#[trigger] list[k]).object == ObjectRef::Track(
                    clip.track_id,
                )
            &&& match clip.content {
                ClipContent::Pattern { pattern } => {
                    &&& list[0].object == ObjectRef::PatternOccurrence(
                        PatternOccurrenceRef {
                            arrangement_clip: clip.id,
                            sequencer_clip: sequence_of(commands, state, clip.id),
                            pattern: pattern_of(commands, state, clip.id, pattern),
                        },
                    )
                    &&& forall|k: int|
                        0 < k < list.len() ==> list[0].closeness < (#[trigger] list[k]).closeness
                    &&& pattern_of(commands, state, clip.id, pattern) matches Some(played)
                        ==> exists|k: int|
                        0 <= k < list.len() && (#[trigger] list[k]).object == ObjectRef::Pattern(
                            played,
                        )
                },
                ClipContent::Audio { asset } => {
                    &&& list[0].object == ObjectRef::AudioClip(clip.id)
                    &&& forall|k: int|
                        0 < k < list.len() ==> list[0].closeness < (#[trigger] list[k]).closeness
                    &&& asset_of(commands, state, asset) matches Some(played) ==> exists|k: int|
                        0 <= k < list.len() && (#[trigger] list[k]).object == ObjectRef::Material(
                            played,
                        )
                },
                ClipContent::Automation { parameter } => bound_lane(
                    state.lanes@,
                    parameter,
                    0,
                ) matches Some(lane) ==> {
                    &&& list[0].object matches ObjectRef::AutomationOccurrence(occurrence)
                        && occurrence.arrangement_clip == clip.id && occurrence.lane == lane
                    &&& forall|k: int|
                        0 < k < list.len() ==> list[0].closeness < (#[trigger] list[k]).closeness
                    &&& exists|k: int|
                        0 <= k < list.len() && (#[trigger] list[k]).object
                            == ObjectRef::Automation(lane)
                },
            }
        }),
{
    let list = clip_objects(commands, state, clip);
    assert(list.len() >= 1);
    match clip.content {
        ClipContent::Pattern { pattern } => {
            assert(list[1].object == ObjectRef::Track(clip.track_id));
            if let Some(played) = pattern_of(commands, state, clip.id, pattern) {
                assert(list[2].object == ObjectRef::Pattern(played));
            }
        },
        ClipContent::Audio { asset } => {
            assert(list[1].object == ObjectRef::Track(clip.track_id));
            if let Some(played) = asset_of(commands, state, asset) {
                assert(list[2].object == ObjectRef::Material(played));
            }
        },
        ClipContent::Automation { parameter } => {
            match bound_lane(state.lanes@, parameter, 0) {
                Some(lane) => {
                    assert(list[1].object == ObjectRef::Automation(lane));
                    assert(list[2].object == ObjectRef::Track(clip.track_id));
                },
                None => {
                    assert(list[0].object == ObjectRef::Track(clip.track_id));
                },
            }
        },
    }
}

// ----- what is shown ------------------------------------------------------

proof fn lemma_created_holds(
    commands: Seq<DomainCommand>,
    state: ProjectState,
    i: int,
    k: int,
    o: int,
)
    requires
        0 <= k < i <= commands.len(),
        0 <= o < command_objects(commands, state, commands[k]).len(),
    ensures
        created(commands, state, i).contains(command_objects(commands, state, commands[k])[o]),
    decreases i,
{
    let before = created(commands, state, i - 1);
    let out = created(commands, state, i);
    let item = command_objects(commands, state, commands[k])[o];
    if k < i - 1 {
        lemma_created_holds(commands, state, i - 1, k, o);
        let p = choose|p: int| 0 <= p < before.len() && before[p] == item;
        assert(out[p] == item);
    } else {
        assert(out[before.len() + o] == item);
    }
}

/// Whatever the commands made or touched for it is shown: first or with what is shown
/// first. The revision is the one that was asked for, and nothing is said twice.
pub proof fn everything_made_is_shown(
    commands: Seq<DomainCommand>,
    state: ProjectState,
    revision: Option<u64>,
    k: int,
    o: int,
)
    requires
        0 <= k < commands.len(),
        0 <= o < command_objects(commands, state, commands[k]).len(),
    ensures
        command_recommendation(commands, state, revision) matches Some(shown) && {
            let object = command_objects(commands, state, commands[k])[o].object;
            &&& shown.object == object || shown.related.contains(object)
            &&& !shown.related.contains(shown.object)
            &&& shown.related.no_duplicates()
            &&& shown.expected_project_revision == revision
        },
{
    let list = created(commands, state, commands.len() as int);
    let item = command_objects(commands, state, commands[k])[o];
    lemma_created_holds(commands, state, commands.len() as int, k, o);
    lemma_ranked_members(list);
    let order = ranked(list);
    assert(list.contains(item));
    assert(order.contains(item));
    let p = choose|p: int| 0 <= p < order.len() && order[p] == item;
    let primary = match first_new(commands, order, 0) {
        Some(object) => object,
        None => order[0].object,
    };
    let more = objects_of(order);
    related_objects_are_complete(primary, more);
    assert(more[p] == item.object);
}

/// Naming the source of a pattern adds it to what is shown, once, and takes nothing away.
pub proof fn sources_are_shown_with_the_pattern(plain: RevealView, source: PatternId)
    ensures
        ({
            let shown = with_source(plain, Some(source));
            let object = ObjectRef::Pattern(source);
            &&& shown.object == plain.object
            &&& shown.object == object || shown.related.contains(object)
            &&& forall|k: int|
                0 <= k < plain.related.len() ==> shown.related.contains(
                    #[trigger] plain.related[k],
                )
            &&& plain.related.no_duplicates() ==> shown.related.no_duplicates()
            &&& with_source(plain, None) == plain
        }),
{
    let shown = with_source(plain, Some(source));
    let object = ObjectRef::Pattern(source);
    if plain.object != object && !plain.related.contains(object) {
        assert(shown.related[plain.related.len() as int] == object);
        assert forall|k: int| 0 <= k < plain.related.len() implies shown.related.contains(
            #[trigger] plain.related[k],
        ) by {
            assert(shown.related[k] == plain.related[k]);
        }
    }
}

/// Each durable flow reveals the kind of object that it makes.
pub proof fn flows_reveal_what_they_make(flow: DurableFlow)
    ensures
        rule_of(flow).flow == flow,
        match rule_of(flow).primary {
            ObjectKind::Pad => flow is ManualSample,
            ObjectKind::Instrument => flow is OnsetChop,
            ObjectKind::PatternOccurrence => flow is MakeBeat || flow is RhythmPromotion || flow
                is ArrangementPatternClipDuplicate || flow is ArrangementPatternClipSplit || flow
                is ArrangementPatternInsert,
            ObjectKind::Pattern => flow is ReconstructionPromotion || flow is PatternCreate || flow
                is PatternDuplicate,
            ObjectKind::Track => flow is ArrangementTrackCreate,
            ObjectKind::AudioClip => flow is ArrangementAudioClipDuplicate || flow
                is ArrangementAudioClipSplit || flow is ArrangementMediaInsert,
            ObjectKind::AutomationOccurrence => flow is ArrangementAutomationClipDuplicate || flow
                is ArrangementAutomationClipSplit,
            ObjectKind::Material => flow is AssetImport || flow is AssetRepeatedImport,
            ObjectKind::Explanation => flow is ExplanationCreate,
            ObjectKind::Comparison => flow is ComparisonCreate || flow is ComparisonResolve,
            ObjectKind::Finding => flow is CoveragePublish,
            ObjectKind::Reading => flow is ReadingImport,
            _ => false,
        },
{
}

// ----- what executing does ------------------------------------------------

/// Selecting and seeking in the arrangement, and a refusal, change nothing and reveal
/// nothing; an edit is told with its receipt.
pub proof fn arrangement_looks_change_nothing(
    before: SessionView,
    dispatch: Result<ArrangementDispatch, String>,
    outcome: Result<ArrangementRevealReceipt, ArrangementExecutionError>,
    after: SessionView,
)
    requires
        arrangement_outcome(before, dispatch, outcome, after),
    ensures
        outcome is Err ==> after == before,
        before.published.project is None ==> outcome is Err,
        dispatch is Err ==> outcome is Err,
        (dispatch matches Ok(action) && (action is SelectionOnly || action is Seek)) ==> after
            == before,
        outcome matches Ok(receipt) ==> match dispatch->Ok_0 {
            ArrangementDispatch::Seek { frame } => receipt.execution == (
            ArrangementExecution::Seek { frame }) && receipt.edit is None && receipt.reveal is None,
            ArrangementDispatch::SelectionOnly => receipt.execution is SelectionOnly
                && receipt.edit is None && receipt.reveal is None,
            ArrangementDispatch::History { step, .. } => receipt.reveal is None && (
            step->Ok_0.update is None <==> receipt.execution is HistoryUnchanged) && (
            receipt.edit is Some <==> step->Ok_0.update is Some),
            ArrangementDispatch::Apply { reply, .. } => receipt.execution is ProjectChanged
                && receipt.edit is Some && receipt.edit->0.change_set
                == reply->Ok_0.update.change_set && after.published.project == Some(
                reply->Ok_0.update.snapshot,
            ),
        },
{
}

/// Retargeting and previewing patterns, and a refusal, change nothing.
pub proof fn pattern_looks_change_nothing(
    before: SessionView,
    source: Option<PatternId>,
    lowered: Result<LoweredPatternAction, String>,
    outcome: Result<PatternRevealExecution, PatternRevealExecutionError>,
    after: SessionView,
)
    requires
        pattern_outcome(before, source, lowered, outcome, after),
    ensures
        outcome is Err ==> after == before,
        outcome matches Ok(execution) ==> match lowered->Ok_0 {
            LoweredPatternAction::Retarget { target } => execution
                == PatternRevealExecution::Retarget(target) && after == before,
            LoweredPatternAction::PreviewCycle { target, cycle_index, performance_seed } => {
                execution == (PatternRevealExecution::PreviewCycle {
                    target,
                    cycle_index,
                    performance_seed,
                }) && after == before
            },
            LoweredPatternAction::Undo { step } => execution
                matches PatternRevealExecution::HistoryChanged(edit) && (edit is Some
                <==> step->Ok_0.update is Some),
            LoweredPatternAction::Redo { step } => execution
                matches PatternRevealExecution::HistoryChanged(edit) && (edit is Some
                <==> step->Ok_0.update is Some),
            LoweredPatternAction::Execute { reply, .. } => execution
                matches PatternRevealExecution::ProjectChanged(receipt) && receipt.edit.change_set
                == reply->Ok_0.update.change_set,
        },
{
}

/// A control that was made is revealed only if the project has it.
pub proof fn controls_are_revealed_where_they_exist(
    before: SessionView,
    identity: Result<Option<CreatedControlIdentity>, String>,
    operation: Result<ControlSessionOperation, String>,
    receipt: ControlRevealReceipt,
    after: SessionView,
)
    requires
        control_reveal_outcome(before, identity, operation, Ok(receipt), after),
    ensures
        identity is Ok,
        identity->Ok_0 is None <==> receipt.primary is None,
        identity->Ok_0 is None ==> receipt.reveal is None,
        identity->Ok_0 matches Some(CreatedControlIdentity::MixerBus(bus)) ==> receipt.primary
            == Some(ObjectRef::Bus(bus)) && after.published.project is Some
            && after.published.project->0.project.buses@.contains(bus) && receipt.reveal is Some,
        identity->Ok_0 matches Some(CreatedControlIdentity::AutomationLane(lane))
            ==> receipt.primary == Some(ObjectRef::Automation(lane)) && after.published.project
            is Some && after.published.project->0.project.automation@.contains(lane)
            && receipt.reveal is Some,
{
}

// ----- publications -------------------------------------------------------

/// Assets with the content that is looked for are found, and no others.
pub proof fn duplicates_have_the_same_content(
    assets: Seq<RegisteredAsset>,
    content: Seq<char>,
    i: int,
)
    requires
        0 <= i <= assets.len(),
    ensures
        forall|id: AssetId|
            #[trigger] same_content(assets, content, i).contains(id) <==> exists|k: int|
                0 <= k < i && (#[trigger] assets[k]).id == id && assets[k].content@ == content,
    decreases i,
{
    if i > 0 {
        duplicates_have_the_same_content(assets, content, i - 1);
        let before = same_content(assets, content, i - 1);
        let after = same_content(assets, content, i);
        assert forall|id: AssetId| #[trigger] after.contains(id) <==> exists|k: int|
            0 <= k < i && (#[trigger] assets[k]).id == id && assets[k].content@ == content by {
            if after.contains(id) {
                let a = choose|a: int| 0 <= a < after.len() && after[a] == id;
                if a < before.len() {
                    assert(before[a] == id);
                    assert(before.contains(id));
                } else {
                    assert(assets[i - 1].id == id);
                }
            }
            if exists|k: int|
                0 <= k < i && (#[trigger] assets[k]).id == id && assets[k].content@ == content {
                let k = choose|k: int|
                    0 <= k < i && (#[trigger] assets[k]).id == id && assets[k].content@ == content;
                if k < i - 1 {
                    assert(before.contains(id));
                    let a = choose|a: int| 0 <= a < before.len() && before[a] == id;
                    assert(after[a] == id);
                } else {
                    assert(after[after.len() - 1] == id);
                }
            }
        }
    } else {
        assert(same_content(assets, content, i) =~= Seq::<AssetId>::empty());
    }
}

/// What was constructed is shown by its focus: the kit, the pad of the kit, or the pattern;
/// where there is no pattern its occurrence, and without one the kit.
pub proof fn the_focus_is_shown(receipt: ConstructiveApplicationReceipt)
    ensures
        match receipt.focus {
            ConstructiveFocus::Kit => constructed_primary(receipt) == ObjectRef::Instrument(
                receipt.bindings.kit,
            ),
            ConstructiveFocus::Pad(pad) => constructed_primary(receipt) matches ObjectRef::Pad(
                shown,
            ) && shown.kit == receipt.bindings.kit && shown.pad == pad && shown.zone is None,
            ConstructiveFocus::Pattern(_) => match receipt.bindings.pattern {
                Some(pattern) => constructed_primary(receipt) == ObjectRef::Pattern(pattern),
                None => match receipt.bindings.arrangement_clip {
                    Some(clip) => constructed_primary(receipt)
                        matches ObjectRef::PatternOccurrence(shown) && shown.arrangement_clip
                        == clip && shown.sequencer_clip == receipt.bindings.sequencer_clip,
                    None => constructed_primary(receipt) == ObjectRef::Instrument(
                        receipt.bindings.kit,
                    ),
                },
            },
        },
{
}

/// The kit, the output and every sample, pad and zone that a construction made are among
/// what it made.
pub proof fn constructions_name_their_parts(receipt: ConstructiveApplicationReceipt)
    ensures
        ({
            let made = constructed_objects(receipt);
            &&& made.contains(ObjectRef::Instrument(receipt.bindings.kit))
            &&& made.contains(ObjectRef::Bus(receipt.bindings.output_bus))
        }),
{
    let made = constructed_objects(receipt);
    assert(made[0] == ObjectRef::Instrument(receipt.bindings.kit));
    assert(made[made.len() - 1] == ObjectRef::Bus(receipt.bindings.output_bus));
}

/// Whether a command makes a comparison, records an observation, or makes an explanation.
pub open spec fn interprets(command: InterpretationCommand) -> bool {
    match command {
        InterpretationCommand::PutExplanation { before, after } => before is None && after
            is Some,
        InterpretationCommand::PutComparison { before, after } => before is None && after is Some,
        InterpretationCommand::PutObservation { recorded, .. } => recorded,
    }
}

proof fn lemma_interpreted(commands: Seq<InterpretationCommand>, i: int)
    requires
        0 <= i <= commands.len(),
    ensures
        interpreted(commands, i).len() > 0 <==> exists|k: int|
            0 <= k < i && interprets(#[trigger] commands[k]),
        forall|k: int, o: int|
            0 <= k < i && 0 <= o < interpretation_objects(commands[k]).len()
                ==> interpreted(commands, i).contains(
                #[trigger] interpretation_objects(commands[k])[o],
            ),
    decreases i,
{
    if i > 0 {
        lemma_interpreted(commands, i - 1);
        let before = interpreted(commands, i - 1);
        let after = interpreted(commands, i);
        let last = interpretation_objects(commands[i - 1]);
        assert(interprets(commands[i - 1]) <==> last.len() > 0);
        assert forall|k: int, o: int|
            0 <= k < i && 0 <= o < interpretation_objects(commands[k]).len() implies after.contains(
            #[trigger] interpretation_objects(commands[k])[o],
        ) by {
            let item = interpretation_objects(commands[k])[o];
            if k < i - 1 {
                assert(before.contains(item));
                let p = choose|p: int| 0 <= p < before.len() && before[p] == item;
                assert(after[p] == item);
            } else {
                assert(after[before.len() + o] == item);
            }
        }
    }
}

/// Interpretations are shown exactly if something new is among them, a new comparison
/// before anything else; and every new comparison is shown with its explanation, its
/// source and the sample of it.
pub proof fn new_comparisons_are_shown_first(commands: Seq<InterpretationCommand>)
    ensures
        interpretation_recommendation(commands) is Some <==> exists|k: int|
            0 <= k < commands.len() && interprets(#[trigger] commands[k]),
        forall|k: int|
            0 <= k < commands.len() ==> (
            #[trigger] commands[k] matches InterpretationCommand::PutComparison {
                before: None,
                after: Some(comparison),
            } ==> interpretation_recommendation(commands) matches Some(shown) && shown.object
                is Comparison && (shown.object == ObjectRef::Comparison(comparison.id)
                || shown.related.contains(ObjectRef::Comparison(comparison.id)))
                && shown.related.contains(ObjectRef::Explanation(comparison.explanation))
                && shown.related.contains(ObjectRef::Sample(comparison.source))
                && shown.related.contains(ObjectRef::Material(comparison.source.source_asset))),
{
    let n = commands.len() as int;
    let list = interpreted(commands, n);
    lemma_interpreted(commands, n);
    lemma_ranked_members(list);
    ranked_is_an_ordering(list);
    let order = ranked(list);
    assert forall|k: int| 0 <= k < n implies (
    #[trigger] commands[k] matches InterpretationCommand::PutComparison {
        before: None,
        after: Some(comparison),
    } ==> interpretation_recommendation(commands) matches Some(shown) && shown.object is Comparison
        && (shown.object == ObjectRef::Comparison(comparison.id) || shown.related.contains(
        ObjectRef::Comparison(comparison.id),
    )) && shown.related.contains(ObjectRef::Explanation(comparison.explanation))
        && shown.related.contains(ObjectRef::Sample(comparison.source)) && shown.related.contains(
        ObjectRef::Material(comparison.source.source_asset),
    )) by {
        if let InterpretationCommand::PutComparison { before: None, after: Some(comparison) } =
            commands[k] {
            let own = interpretation_objects(commands[k]);
            assert(own.len() == 4);
            assert(list.contains(own[0]) && list.contains(own[1]) && list.contains(own[2])
                && list.contains(own[3]));
            assert(order.contains(own[0]) && order.contains(own[1]) && order.contains(own[2])
                && order.contains(own[3]));
            let p = choose|p: int| 0 <= p < order.len() && order[p] == own[0];
            let q = choose|q: int| 0 <= q < order.len() && order[q] == own[1];
            let r = choose|r: int| 0 <= r < order.len() && order[r] == own[2];
            let s = choose|s: int| 0 <= s < order.len() && order[s] == own[3];
            let more = objects_of(order);
            assert(more[p] == own[0].object && more[q] == own[1].object && more[r] == own[2].object
                && more[s] == own[3].object);
            related_objects_are_complete(order[0].object, more);
            if p > 0 {
                assert(!rank_lt(order[p].rank(), order[0].rank()));
                assert(order[p].rank()[0] == 0);
                assert(order[0].rank()[0] == order[0].closeness);
            }
            assert(order[0].closeness == 0);
            assert(order.contains(order[0]));
            assert(list.contains(order[0]));
            lemma_interpreted_kinds(commands, n, order[0]);
        }
    }
}

proof fn lemma_interpreted_kinds(
    commands: Seq<InterpretationCommand>,
    i: int,
    item: RankedObject,
)
    requires
        0 <= i <= commands.len(),
        interpreted(commands, i).contains(item),
        item.closeness == 0,
    ensures
        item.object is Comparison,
    decreases i,
{
    let out = interpreted(commands, i);
    let p = choose|p: int| 0 <= p < out.len() && out[p] == item;
    if i > 0 {
        let before = interpreted(commands, i - 1);
        if p < before.len() {
            assert(before[p] == item);
            lemma_interpreted_kinds(commands, i - 1, item);
        } else {
            let last = interpretation_objects(commands[i - 1]);
            assert(last[p - before.len()] == item);
        }
    }
}

} // verus!
