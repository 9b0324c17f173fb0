//! What is heard and shown of a reading's targets, in terms of the project: which frames
//! of which asset sound, and what an entity is revealed as.

use vstd::prelude::*;
use vstd::string::*;

use crate::command::{AssetId, ClipId, HypothesisId, MediaAliasId};
use crate::effects::{
    alias_asset, audition_outcome, bound_assets, cited, clip_object, comes_to, comparison_of,
    covering, entity_object, focus_of, located, noted, placements, plays, projection,
    render_outcome, revealed, traced, AuditionOwner, ChannelProjection, ComparisonChannel,
    EffectFault, EffectView, ReadingAuditionPlan, ReadingComparisonAuditionPlan,
    ReadingEffectBridgeError, ReadingRevealSubject, ReadingSourceAuditionPlan, RenderFormat,
    SourceAudition,
};
use crate::event_log::{AuditionMix, AuditionSubject};
use crate::navigation::{
    bit_patterns_are_ordered_as_numbers, is_finite, units, EntityRefDto, EntityRefKey, RegionDto,
    SignalLayerDto,
};
use crate::objects::{ComparisonId, ExplanationId, ObjectRef};
use crate::query_document::AuditionTarget;
use crate::selection::{AirSelection, GraphObjectId};
use crate::source_graph::{
    asset_nyquist, comparison_at, hypothesis_at, object_at, parameter_at, parameter_object,
    span_source, transform_owner, AssetAlias, AssetRecord, AssetSource, ClipObject,
    ComparisonDefinition, FrameSpan, GraphHypothesis, GraphObject, GraphParameter, GraphSpan,
    GraphTransform, HypothesisClaim, InterpretationStore, ParameterOwner, PlacedClip,
    SourceCitation, SourceGraph, SourceId,
};
use crate::text::{decimal, hex_text, optional_text};
use crate::tracing::{
    anchored_in, are_sources, claim_objects, claims_objects, comes_from, entity_roots,
    is_reachable, members_of, reached, sounds_from, Roots,
};

verus! {

// ----- looking up ---------------------------------------------------------

proof fn lemma_alias(list: Seq<AssetAlias>, alias: MediaAliasId, i: int) -> (m: int)
    requires
        0 <= i,
        alias_asset(list, alias, i) is Some,
    ensures
        i <= m < list.len(),
        list[m].alias == alias,
        alias_asset(list, alias, i) == Some(list[m].asset),
    decreases list.len() - i,
{
    if list[i].alias == alias {
        i
    } else {
        lemma_alias(list, alias, i + 1)
    }
}

proof fn lemma_clip_object(list: Seq<ClipObject>, clip: ClipId, i: int) -> (m: int)
    requires
        0 <= i,
        clip_object(list, clip, i) is Some,
    ensures
        i <= m < list.len(),
        list[m].clip == clip,
        clip_object(list, clip, i) == Some(list[m].object),
    decreases list.len() - i,
{
    if list[i].clip == clip {
        i
    } else {
        lemma_clip_object(list, clip, i + 1)
    }
}

proof fn lemma_nyquist(list: Seq<AssetRecord>, id: AssetId, i: int) -> (m: int)
    requires
        0 <= i,
        asset_nyquist(list, id, i) is Some,
    ensures
        i <= m < list.len(),
        list[m].id == id,
        asset_nyquist(list, id, i) == Some(list[m].nyquist_bits),
    decreases list.len() - i,
{
    if list[i].id == id {
        i
    } else {
        lemma_nyquist(list, id, i + 1)
    }
}

proof fn lemma_comparison(list: Seq<ComparisonDefinition>, id: ComparisonId, i: int) -> (m: int)
    requires
        0 <= i,
        comparison_at(list, id, i) is Some,
    ensures
        i <= m < list.len(),
        list[m].id == id,
        comparison_at(list, id, i) == Some(m),
    decreases list.len() - i,
{
    if list[i].id == id {
        i
    } else {
        lemma_comparison(list, id, i + 1)
    }
}

proof fn lemma_bound(list: Seq<AssetSource>, source: SourceId, i: int, k: int) -> (m: int)
    requires
        0 <= i <= list.len(),
        0 <= k < bound_assets(list, source, i).len(),
    ensures
        0 <= m < i,
        list[m].source == source,
        list[m].asset == bound_assets(list, source, i)[k],
    decreases i,
{
    if k < bound_assets(list, source, i - 1).len() {
        lemma_bound(list, source, i - 1, k)
    } else {
        i - 1
    }
}

proof fn lemma_bound_count(list: Seq<AssetSource>, source: SourceId, i: int, m: int)
    requires
        0 <= m < i <= list.len(),
        list[m].source == source,
    ensures
        bound_assets(list, source, i).len() >= 1,
        bound_assets(list, source, i).len() == 1 ==> bound_assets(list, source, i)[0]
            == list[m].asset,
    decreases i,
{
    if m < i - 1 {
        lemma_bound_count(list, source, i - 1, m);
    }
}

proof fn lemma_placement(
    graph: SourceGraph,
    object: Option<GraphObjectId>,
    asset: AssetId,
    focus: FrameSpan,
    i: int,
    k: int,
) -> (c: int)
    requires
        0 <= i <= graph.clips@.len(),
        0 <= k < placements(graph, object, asset, focus, i).len(),
    ensures
        0 <= c < i,
        placements(graph, object, asset, focus, i)[k] == graph.clips@[c],
        plays(graph, graph.clips@[c], object, asset, focus),
        k == placements(graph, object, asset, focus, c).len(),
    decreases i,
{
    if k < placements(graph, object, asset, focus, i - 1).len() {
        lemma_placement(graph, object, asset, focus, i - 1, k)
    } else {
        i - 1
    }
}

proof fn lemma_placed(
    graph: SourceGraph,
    object: Option<GraphObjectId>,
    asset: AssetId,
    focus: FrameSpan,
    i: int,
    c: int,
)
    requires
        0 <= c < i <= graph.clips@.len(),
        plays(graph, graph.clips@[c], object, asset, focus),
    ensures
        placements(graph, object, asset, focus, c).len() < placements(
            graph,
            object,
            asset,
            focus,
            i,
        ).len(),
    decreases i,
{
    if c < i - 1 {
        lemma_placed(graph, object, asset, focus, i - 1, c);
    }
}

// ----- what is heard of a source ------------------------------------------

/// What can be planned at all: something of a generation, over the frames of one region.
pub proof fn only_one_region_is_heard(
    view: EffectView,
    target: AuditionTarget,
    generation: u64,
    plan: ReadingAuditionPlan,
)
    requires
        audition_outcome(view, target, generation, Ok(plan)),
    ensures
        generation != 0,
        target.extent.regions@.len() == 1,
        target.extent.regions@[0].start_frame < target.extent.regions@[0].end_frame,
        match target.extent.signal {
            SignalLayerDto::Source => plan matches ReadingAuditionPlan::Source(source)
                && source.pin == view.pin && source.generation == generation && source.entity
                == target.entity,
            SignalLayerDto::Explanation { .. } => plan matches ReadingAuditionPlan::Comparison(
                part,
            ) && part.pin == view.pin && part.entity == target.entity && part.channel
                == ComparisonChannel::Construction,
            SignalLayerDto::Residual { .. } => plan matches ReadingAuditionPlan::Comparison(part)
                && part.pin == view.pin && part.entity == target.entity && part.channel
                == ComparisonChannel::Residual,
        },
{
}

/// Whether an entity is heard through a comparison that is kept.
pub open spec fn is_compared(entity: EntityRefDto) -> bool {
    entity matches EntityRefDto::Project { kind, .. } && (kind@ == "comparison"@ || kind@
        == "explanation"@)
}

/// Whether a clip plays an asset as it is over the frames of a region, and stands for the
/// entity where that is an object.
pub open spec fn sounds_under(
    graph: SourceGraph,
    clip: PlacedClip,
    entity: EntityRefDto,
    asset: AssetId,
    region: RegionDto,
) -> bool {
    &&& clip.audio matches Some(audio)
    &&& audio.unity
    &&& clip.start <= region.start_frame && region.end_frame <= clip.end
    &&& exists|m: int|
        0 <= m < graph.aliases@.len() && (#[trigger] graph.aliases@[m]).alias == audio.asset
            && graph.aliases@[m].asset == asset
    &&& (entity matches EntityRefDto::Project { kind, local_id } && kind@ == "air-object"@)
        ==> exists|o: int|
        0 <= o < graph.clip_objects@.len() && (#[trigger] graph.clip_objects@[o]).clip == clip.id
            && graph.clip_objects@[o].object == GraphObjectId(entity->local_id)
}

proof fn lemma_plays(
    graph: SourceGraph,
    clip: PlacedClip,
    entity: EntityRefDto,
    asset: AssetId,
    region: RegionDto,
)
    requires
        plays(graph, clip, entity_object(entity@), asset, focus_of(region)),
    ensures
        sounds_under(graph, clip, entity, asset, region),
{
    let m = lemma_alias(graph.aliases@, clip.audio->0.asset, 0);
    if entity_object(entity@) is Some {
        let o = lemma_clip_object(graph.clip_objects@, clip.id, 0);
    }
}

/// Whether a source is that of a clip over a region: frame by frame, from where the clip
/// starts in the asset.
pub open spec fn is_heard_from(
    clip: PlacedClip,
    region: RegionDto,
    citation: SourceCitation,
) -> bool {
    &&& clip.audio matches Some(audio)
    &&& citation.source_start - audio.source_start == region.start_frame - clip.start
    &&& citation.source_end - citation.source_start == region.end_frame - region.start_frame
    &&& citation.project_span.start == region.start_frame
    &&& citation.project_span.end == region.end_frame
    &&& citation.channels == region.channels
}

/// Each frame of a region is heard from the frame of the asset that the clip plays there:
/// as far into the asset, from where the clip starts in it, as the frame is into the clip.
/// The clip is the only one that could be meant; the asset is the one that stands for the
/// source of the entity; and the region leaves nothing of its band out.
pub proof fn frames_are_heard_where_the_clip_plays_them(
    view: EffectView,
    target: AuditionTarget,
    generation: u64,
    plan: ReadingSourceAuditionPlan,
) -> (r: (int, int))
    requires
        target.extent.signal is Source,
        !is_compared(target.entity),
        audition_outcome(view, target, generation, Ok(ReadingAuditionPlan::Source(plan))),
    ensures
        ({
            let (c, b) = r;
            let graph = view.project.project.graph;
            let region = target.extent.regions@[0];
            let asset = plan.citation.asset;
            &&& 0 <= c < graph.clips@.len()
            &&& sounds_under(graph, graph.clips@[c], target.entity, asset, region)
            &&& is_heard_from(graph.clips@[c], region, plan.citation)
            &&& 0 <= b < graph.asset_sources@.len()
            &&& graph.asset_sources@[b].asset == asset
            &&& forall|d: int|
                0 <= d < graph.asset_sources@.len() && (#[trigger] graph.asset_sources@[d]).source
                    == graph.asset_sources@[b].source ==> graph.asset_sources@[d].asset == asset
            &&& exists|n: int|
                0 <= n < graph.assets@.len() && (#[trigger] graph.assets@[n]).id == asset && (
                is_finite(graph.assets@[n].nyquist_bits) ==> units(graph.assets@[n].nyquist_bits)
                    <= units(region.max_hz_bits))
            &&& units(region.min_hz_bits) == 0
            &&& entity_roots(graph, target.entity@) matches Some(roots)
            &&& are_sources(graph, roots, seq![graph.asset_sources@[b].source])
        }),
{
    let graph = view.graph();
    let entity = target.entity@;
    let region = target.extent.regions@[0];
    let citation = choose|citation: Result<SourceCitation, ReadingEffectBridgeError>| #[trigger]
        cited(view, entity, region, citation) && match citation {
            Err(error) => false,
            Ok(citation) => plan.citation == citation,
        };
    assert(traced(graph, entity, region, Ok(plan.citation)));
    let roots = entity_roots(graph, entity)->0;
    let sources = choose|sources: Seq<SourceId>| #[trigger]
        are_sources(graph, roots, sources) && if sources.len() != 1 {
            false
        } else {
            comes_to(Ok(plan.citation), located(graph, entity, sources[0], region))
        };
    let source = sources[0];
    assert(sources =~= seq![source]);
    let list = graph.asset_sources@;
    let assets = bound_assets(list, source, list.len() as int);
    let asset = assets[0];
    let b = lemma_bound(list, source, list.len() as int, 0);
    assert forall|d: int| 0 <= d < list.len() && (#[trigger] list[d]).source
        == list[b].source implies list[d].asset == asset by {
        lemma_bound_count(list, source, list.len() as int, d);
    }
    let n = lemma_nyquist(graph.assets@, asset, 0);
    bit_patterns_are_ordered_as_numbers(0, region.min_hz_bits);
    assert(units(0) == 0);
    if is_finite(graph.assets@[n].nyquist_bits) {
        bit_patterns_are_ordered_as_numbers(region.max_hz_bits, graph.assets@[n].nyquist_bits);
    }
    let c = lemma_placement(
        graph,
        entity_object(entity),
        asset,
        focus_of(region),
        graph.clips@.len() as int,
        0,
    );
    lemma_plays(graph, graph.clips@[c], target.entity, asset, region);
    (c, b)
}

/// Where two clips could be meant, nothing is heard.
pub proof fn ambiguous_placements_are_not_heard(
    graph: SourceGraph,
    entity: EntityRefDto,
    source: SourceId,
    region: RegionDto,
    asset: AssetId,
    b: int,
    c: int,
    d: int,
)
    requires
        0 <= b < graph.asset_sources@.len(),
        graph.asset_sources@[b].source == source,
        graph.asset_sources@[b].asset == asset,
        0 <= c < d < graph.clips@.len(),
        plays(graph, graph.clips@[c], entity_object(entity@), asset, focus_of(region)),
        plays(graph, graph.clips@[d], entity_object(entity@), asset, focus_of(region)),
    ensures
        located(graph, entity@, source, region) is Err,
{
    let list = graph.asset_sources@;
    lemma_bound_count(list, source, list.len() as int, b);
    let object = entity_object(entity@);
    let focus = focus_of(region);
    lemma_placed(graph, object, asset, focus, d, c);
    lemma_placed(graph, object, asset, focus, graph.clips@.len() as int, d);
}

/// Where one asset stands for a source, the region takes all of its band, and one clip
/// alone plays the asset under the region, the source is heard, as long as its frames can
/// be counted.
pub proof fn the_only_clip_is_heard(
    graph: SourceGraph,
    entity: EntityRefDto,
    region: RegionDto,
    b: int,
    n: int,
    c: int,
    m: int,
    o: int,
)
    requires
        region.start_frame < region.end_frame,
        is_finite(region.min_hz_bits) && units(region.min_hz_bits) == 0,
        is_finite(region.max_hz_bits),
        0 <= b < graph.asset_sources@.len(),
        forall|d: int|
            0 <= d < graph.asset_sources@.len() && d != b ==> (
            #[trigger] graph.asset_sources@[d]).source != graph.asset_sources@[b].source,
        0 <= n < graph.assets@.len(),
        forall|e: int| 0 <= e < n ==> (#[trigger] graph.assets@[e]).id != graph.assets@[n].id,
        graph.assets@[n].id == graph.asset_sources@[b].asset,
        is_finite(graph.assets@[n].nyquist_bits),
        units(graph.assets@[n].nyquist_bits) <= units(region.max_hz_bits),
        0 <= c < graph.clips@.len(),
        graph.clips@[c].audio is Some && graph.clips@[c].audio->0.unity,
        graph.clips@[c].start <= region.start_frame && region.end_frame <= graph.clips@[c].end,
        0 <= m < graph.aliases@.len(),
        graph.aliases@[m].alias == graph.clips@[c].audio->0.asset,
        graph.aliases@[m].asset == graph.asset_sources@[b].asset,
        forall|e: int|
            0 <= e < m ==> (#[trigger] graph.aliases@[e]).alias != graph.aliases@[m].alias,
        (entity matches EntityRefDto::Project { kind, .. } && kind@ == "air-object"@) ==> {
            &&& 0 <= o < graph.clip_objects@.len()
            &&& graph.clip_objects@[o].clip == graph.clips@[c].id
            &&& graph.clip_objects@[o].object == GraphObjectId(entity->local_id)
            &&& forall|e: int|
                0 <= e < o ==> (#[trigger] graph.clip_objects@[e]).clip
                    != graph.clip_objects@[o].clip
        },
        forall|d: int|
            0 <= d < graph.clips@.len() && d != c ==> !sounds_under(
                graph,
                #[trigger] graph.clips@[d],
                entity,
                graph.asset_sources@[b].asset,
                region,
            ),
        region.end_frame - graph.clips@[c].start <= i64::MAX,
        graph.clips@[c].audio->0.source_start + (region.end_frame - graph.clips@[c].start)
            <= u64::MAX,
    ensures
        located(graph, entity@, graph.asset_sources@[b].source, region) is Ok,
{
    let list = graph.asset_sources@;
    let source = list[b].source;
    let asset = list[b].asset;
    let focus = focus_of(region);
    let object = entity_object(entity@);
    lemma_bound_once(list, b, list.len() as int);
    lemma_nyquist_found(graph.assets@, 0, n);
    lemma_alias_found(graph.aliases@, 0, m);
    if object is Some {
        lemma_clip_object_found(graph.clip_objects@, 0, o);
    }
    bit_patterns_are_ordered_as_numbers(0, region.min_hz_bits);
    assert(units(0) == 0);
    bit_patterns_are_ordered_as_numbers(region.max_hz_bits, graph.assets@[n].nyquist_bits);
    assert(plays(graph, graph.clips@[c], object, asset, focus));
    assert forall|d: int| 0 <= d < graph.clips@.len() && d != c implies !plays(
        graph,
        #[trigger] graph.clips@[d],
        object,
        asset,
        focus,
    ) by {
        if plays(graph, graph.clips@[d], object, asset, focus) {
            lemma_plays(graph, graph.clips@[d], entity, asset, region);
        }
    }
    lemma_placed_once(graph, object, asset, focus, c, graph.clips@.len() as int);
}

proof fn lemma_bound_once(list: Seq<AssetSource>, b: int, i: int)
    requires
        0 <= b < list.len(),
        0 <= i <= list.len(),
        forall|d: int|
            0 <= d < list.len() && d != b ==> (#[trigger] list[d]).source != list[b].source,
    ensures
        bound_assets(list, list[b].source, i) == if i > b {
            seq![list[b].asset]
        } else {
            Seq::empty()
        },
    decreases i,
{
    if i > 0 {
        lemma_bound_once(list, b, i - 1);
        if i - 1 == b {
            assert(Seq::<AssetId>::empty().push(list[b].asset) =~= seq![list[b].asset]);
        }
    }
}

proof fn lemma_nyquist_found(list: Seq<AssetRecord>, i: int, n: int)
    requires
        0 <= i <= n < list.len(),
        forall|e: int| 0 <= e < n ==> (#[trigger] list[e]).id != list[n].id,
    ensures
        asset_nyquist(list, list[n].id, i) == Some(list[n].nyquist_bits),
    decreases n - i,
{
    if i < n {
        lemma_nyquist_found(list, i + 1, n);
    }
}

proof fn lemma_alias_found(list: Seq<AssetAlias>, i: int, m: int)
    requires
        0 <= i <= m < list.len(),
        forall|e: int| 0 <= e < m ==> (#[trigger] list[e]).alias != list[m].alias,
    ensures
        alias_asset(list, list[m].alias, i) == Some(list[m].asset),
    decreases m - i,
{
    if i < m {
        lemma_alias_found(list, i + 1, m);
    }
}

proof fn lemma_clip_object_found(list: Seq<ClipObject>, i: int, o: int)
    requires
        0 <= i <= o < list.len(),
        forall|e: int| 0 <= e < o ==> (#[trigger] list[e]).clip != list[o].clip,
    ensures
        clip_object(list, list[o].clip, i) == Some(list[o].object),
    decreases o - i,
{
    if i < o {
        lemma_clip_object_found(list, i + 1, o);
    }
}

proof fn lemma_placed_once(
    graph: SourceGraph,
    object: Option<GraphObjectId>,
    asset: AssetId,
    focus: FrameSpan,
    c: int,
    i: int,
)
    requires
        0 <= c < graph.clips@.len(),
        0 <= i <= graph.clips@.len(),
        plays(graph, graph.clips@[c], object, asset, focus),
        forall|d: int|
            0 <= d < graph.clips@.len() && d != c ==> !plays(
                graph,
                #[trigger] graph.clips@[d],
                object,
                asset,
                focus,
            ),
    ensures
        placements(graph, object, asset, focus, i) == if i > c {
            seq![graph.clips@[c]]
        } else {
            Seq::empty()
        },
    decreases i,
{
    if i > 0 {
        lemma_placed_once(graph, object, asset, focus, c, i - 1);
        if i - 1 == c {
            assert(Seq::<PlacedClip>::empty().push(graph.clips@[c]) =~= seq![graph.clips@[c]]);
        }
    }
}

/// A citation of a comparison, cut to a region: from the same asset, each frame from the
/// frame of the asset that the comparison has there, in those of its channels that were
/// asked for.
pub open spec fn is_cut_from(
    definition: ComparisonDefinition,
    region: RegionDto,
    citation: SourceCitation,
) -> bool {
    let whole = definition.source;
    &&& whole.project_span.start <= region.start_frame
    &&& region.end_frame <= whole.project_span.end
    &&& citation.asset == whole.asset
    &&& citation.source_start - whole.source_start == region.start_frame
        - whole.project_span.start
    &&& whole.source_end - citation.source_end == whole.project_span.end - region.end_frame
    &&& citation.project_span.start == region.start_frame
    &&& citation.project_span.end == region.end_frame
    &&& citation.channels == whole.channels & region.channels
    &&& citation.channels != 0
}

/// What is heard of the source of a comparison are the frames and channels that the
/// comparison has under the region. An explanation is heard through the only comparison
/// of it that covers the region.
pub proof fn compared_frames_are_heard_where_they_stand(
    view: EffectView,
    target: AuditionTarget,
    generation: u64,
    plan: ReadingSourceAuditionPlan,
) -> (m: int)
    requires
        target.extent.signal is Source,
        is_compared(target.entity),
        audition_outcome(view, target, generation, Ok(ReadingAuditionPlan::Source(plan))),
    ensures
        ({
            let region = target.extent.regions@[0];
            let list = view.store.comparisons@;
            &&& 0 <= m < list.len()
            &&& is_cut_from(list[m], region, plan.citation)
            &&& target.entity matches EntityRefDto::Project { kind, local_id }
            &&& kind@ == "comparison"@ ==> list[m].id == ComparisonId(local_id)
            &&& kind@ == "explanation"@ ==> exists|k: int|
                0 <= k < list.len() && (#[trigger] list[k]).id == list[m].id
                    && list[k].explanation == ExplanationId(local_id)
        }),
{
    let entity = target.entity@;
    let region = target.extent.regions@[0];
    let citation = choose|citation: Result<SourceCitation, ReadingEffectBridgeError>| #[trigger]
        cited(view, entity, region, citation) && match citation {
            Err(error) => false,
            Ok(citation) => plan.citation == citation,
        };
    assert(cited(view, entity, region, Ok(plan.citation)));
    lemma_kinds_differ();
    let a = region.channels;
    let list = view.store.comparisons@;
    let id = if target.entity->kind@ == "comparison"@ {
        ComparisonId(target.entity->local_id)
    } else {
        comparison_of(view.store, entity, focus_of(region))->Ok_0
    };
    if target.entity->kind@ == "explanation"@ {
        let explanation = ExplanationId(target.entity->local_id);
        let k = lemma_covering(list, explanation, focus_of(region), list.len() as int, 0);
        lemma_listed(list, id, 0, k);
    }
    let m = lemma_comparison(list, id, 0);
    let b = list[m].source.channels;
    assert(a & b == b & a) by (bit_vector);
    m
}

proof fn lemma_kinds_differ()
    ensures
        "comparison"@ != "explanation"@,
        "air-object"@ != "comparison"@,
        "air-object"@ != "explanation"@,
{
    reveal_strlit("comparison");
    reveal_strlit("explanation");
    reveal_strlit("air-object");
    assert("comparison"@[0] == 'c');
    assert("explanation"@[0] == 'e');
    assert("air-object"@[0] == 'a');
}

proof fn lemma_listed(list: Seq<ComparisonDefinition>, id: ComparisonId, i: int, at: int)
    requires
        0 <= i <= at < list.len(),
        list[at].id == id,
    ensures
        comparison_at(list, id, i) is Some,
    decreases list.len() - i,
{
    if list[i].id != id {
        lemma_listed(list, id, i + 1, at);
    }
}

proof fn lemma_covering(
    list: Seq<ComparisonDefinition>,
    explanation: ExplanationId,
    focus: FrameSpan,
    i: int,
    k: int,
) -> (m: int)
    requires
        0 <= i <= list.len(),
        0 <= k < covering(list, explanation, focus, i).len(),
    ensures
        0 <= m < i,
        list[m].id == covering(list, explanation, focus, i)[k],
        list[m].explanation == explanation,
        list[m].source.project_span.start <= focus.start,
        focus.end <= list[m].source.project_span.end,
        k == covering(list, explanation, focus, m).len(),
    decreases i,
{
    if k < covering(list, explanation, focus, i - 1).len() {
        lemma_covering(list, explanation, focus, i - 1, k)
    } else {
        i - 1
    }
}

proof fn lemma_covers_at(
    list: Seq<ComparisonDefinition>,
    explanation: ExplanationId,
    focus: FrameSpan,
    i: int,
    m: int,
)
    requires
        0 <= m < i <= list.len(),
        list[m].explanation == explanation,
        list[m].source.project_span.start <= focus.start,
        focus.end <= list[m].source.project_span.end,
    ensures
        covering(list, explanation, focus, m).len() < covering(list, explanation, focus, i).len(),
        covering(list, explanation, focus, i)[covering(list, explanation, focus, m).len() as int]
            == list[m].id,
    decreases i,
{
    if m < i - 1 {
        lemma_covers_at(list, explanation, focus, i - 1, m);
    }
}

/// The comparison that a signal layer is heard through: the one that it names, or the only
/// one of the explanation that it names; either covers the region.
pub proof fn layers_are_heard_through_their_comparison(
    view: EffectView,
    target: AuditionTarget,
    generation: u64,
    plan: ReadingComparisonAuditionPlan,
    reference: EntityRefDto,
) -> (m: int)
    requires
        target.extent.signal == (SignalLayerDto::Explanation { reference }) || target.extent.signal
            == (SignalLayerDto::Residual { reference }),
        audition_outcome(view, target, generation, Ok(ReadingAuditionPlan::Comparison(plan))),
    ensures
        ({
            let region = target.extent.regions@[0];
            let list = view.store.comparisons@;
            &&& 0 <= m < list.len()
            &&& list[m].id == plan.comparison
            &&& list[m].source.project_span.start <= region.start_frame
            &&& region.end_frame <= list[m].source.project_span.end
            &&& plan.focus.start == region.start_frame
            &&& plan.focus.end == region.end_frame
            &&& reference matches EntityRefDto::Project { kind, local_id }
            &&& kind@ == "comparison"@ || kind@ == "explanation"@
            &&& kind@ == "comparison"@ ==> plan.comparison == ComparisonId(local_id)
            &&& kind@ == "explanation"@ ==> list[m].explanation == ExplanationId(local_id)
                && forall|k: int|
                0 <= k < list.len() && (#[trigger] list[k]).explanation == ExplanationId(local_id)
                    && list[k].source.project_span.start <= region.start_frame && region.end_frame
                    <= list[k].source.project_span.end ==> k == m
        }),
{
    let region = target.extent.regions@[0];
    let focus = focus_of(region);
    let list = view.store.comparisons@;
    lemma_kinds_differ();
    assert(comparison_of(view.store, reference@, focus) == Ok::<ComparisonId, EffectFault>(
        plan.comparison,
    ));
    if reference->kind@ == "comparison"@ {
        lemma_comparison(list, plan.comparison, 0)
    } else {
        let explanation = ExplanationId(reference->local_id);
        let m = lemma_covering(list, explanation, focus, list.len() as int, 0);
        assert forall|k: int| 0 <= k < list.len() && (#[trigger] list[k]).explanation == explanation
            && list[k].source.project_span.start <= region.start_frame && region.end_frame
            <= list[k].source.project_span.end implies k == m by {
            lemma_covers_at(list, explanation, focus, list.len() as int, k);
            if m < k {
                lemma_covers_at(list, explanation, focus, k, m);
            } else if k < m {
                lemma_covers_at(list, explanation, focus, m, k);
            }
        }
        m
    }
}

// ----- rendering ----------------------------------------------------------

/// A source is rendered at its own rate, over the frames that were planned, in place of
/// what plays. Channels are kept, or one becomes two, or two become one, and nothing else.
pub proof fn sources_are_rendered_as_planned(
    view: EffectView,
    plan: ReadingSourceAuditionPlan,
    owner: AuditionOwner,
    source: RenderFormat,
    output: RenderFormat,
)
    requires
        plan.pin == view.pin,
        source.channels > 0,
        output.channels > 0,
    ensures
        render_outcome(view, plan, owner, Ok(source), output) is Ok <==> source.sample_rate
            == output.sample_rate && (source.channels == output.channels || source.channels
            + output.channels == 3),
        render_outcome(view, plan, owner, Ok(source), output) matches Ok(heard) ==> {
            &&& heard.owner == owner
            &&& heard.revision == plan.generation
            &&& heard.subject == AuditionSubject::Source
            &&& heard.mix == AuditionMix::Replace
            &&& heard.span.start == plan.citation.project_span.start
            &&& heard.span.end == plan.citation.project_span.end
            &&& heard.output == output
            &&& heard.projection is Same <==> source.channels == output.channels
            &&& heard.projection is MonoToStereo <==> source.channels < output.channels
            &&& heard.projection is StereoToMono <==> source.channels > output.channels
        },
{
}

// ----- what is revealed ---------------------------------------------------

proof fn lemma_noted(list: Seq<GraphHypothesis>, note: Seq<char>, i: int, k: int) -> (m: int)
    requires
        0 <= i <= list.len(),
        0 <= k < noted(list, note, i).len(),
    ensures
        0 <= m < i,
        list[m].id == noted(list, note, i)[k],
        list[m].note matches Some(text) && text@ == note,
        k == noted(list, note, m).len(),
    decreases i,
{
    if k < noted(list, note, i - 1).len() {
        lemma_noted(list, note, i - 1, k)
    } else {
        i - 1
    }
}

proof fn lemma_noted_at(list: Seq<GraphHypothesis>, note: Seq<char>, i: int, m: int)
    requires
        0 <= m < i <= list.len(),
        list[m].note matches Some(text) && text@ == note,
    ensures
        noted(list, note, m).len() < noted(list, note, i).len(),
    decreases i,
{
    if m < i - 1 {
        lemma_noted_at(list, note, i - 1, m);
    }
}

proof fn lemma_reveal_kinds()
    ensures
        "comparison"@.len() == 10,
        "explanation"@.len() == 11,
        "air-object"@.len() == 10,
        "air-hypothesis"@.len() == 14,
        "air-source"@.len() == 10,
        "air-parameter"@.len() == 13,
        "comparison"@[4] == 'a',
        "air-object"@[4] == 'o',
        "air-source"@[4] == 's',
{
    reveal_strlit("comparison");
    reveal_strlit("explanation");
    reveal_strlit("air-object");
    reveal_strlit("air-hypothesis");
    reveal_strlit("air-source");
    reveal_strlit("air-parameter");
}

/// An entity of the project is revealed as what its kind says, under its own number; a
/// source as the asset that stands for it, a parameter as the object that owns it.
pub proof fn local_entities_are_revealed_as_themselves(
    graph: SourceGraph,
    kind: Seq<char>,
    local_id: u64,
    subject: ReadingRevealSubject,
)
    requires
        revealed(graph, EntityRefKey::Project { kind, local_id }) == Ok::<
            ReadingRevealSubject,
            EffectFault,
        >(subject),
    ensures
        match subject {
            ReadingRevealSubject::Object(ObjectRef::Comparison(id)) => kind == "comparison"@
                && id.0 == local_id,
            ReadingRevealSubject::Object(ObjectRef::Explanation(id)) => kind == "explanation"@
                && id.0 == local_id,
            ReadingRevealSubject::Object(ObjectRef::Material(asset)) => kind == "air-source"@
                && exists|b: int|
                0 <= b < graph.asset_sources@.len() && (#[trigger] graph.asset_sources@[b]).asset
                    == asset && graph.asset_sources@[b].source.0 == local_id,
            ReadingRevealSubject::Air(AirSelection::Object(object)) => kind == "air-object"@
                && object.0 == local_id || kind == "air-parameter"@ && owns(
                graph,
                object,
                local_id,
            ),
            ReadingRevealSubject::Air(AirSelection::Hypothesis(id)) => kind == "air-hypothesis"@
                && id.0 == local_id,
            _ => false,
        },
{
    lemma_reveal_kinds();
    if kind == "air-source"@ {
        let list = graph.asset_sources@;
        let b = lemma_bound(list, SourceId(local_id), list.len() as int, 0);
    }
    if kind == "air-parameter"@ {
        lemma_owner(graph, local_id);
    }
}

/// Whether an object owns a parameter, by itself or through a transform of it.
pub open spec fn owns(graph: SourceGraph, object: GraphObjectId, parameter: u64) -> bool {
    exists|p: int|
        0 <= p < graph.parameters@.len() && (#[trigger] graph.parameters@[p]).id == parameter && (
        graph.parameters@[p].owner == ParameterOwner::Object(object) || exists|t: int|
            0 <= t < graph.transforms@.len() && graph.parameters@[p].owner
                == ParameterOwner::Transform((#[trigger] graph.transforms@[t]).id)
                && graph.transforms@[t].owner == object)
}

proof fn lemma_owner(graph: SourceGraph, parameter: u64)
    requires
        parameter_object(graph, parameter) is Some,
    ensures
        owns(graph, parameter_object(graph, parameter)->0, parameter),
{
    let p = lemma_parameter(graph.parameters@, parameter, 0);
    let owner = graph.parameters@[p].owner;
    if let ParameterOwner::Transform(transform) = owner {
        let t = lemma_transform(graph.transforms@, transform, 0);
        assert(graph.transforms@[t].id == transform);
    }
}

proof fn lemma_parameter(list: Seq<GraphParameter>, id: u64, i: int) -> (p: int)
    requires
        0 <= i,
        parameter_at(list, id, i) is Some,
    ensures
        i <= p < list.len(),
        list[p].id == id,
        parameter_at(list, id, i) == Some(list[p].owner),
    decreases list.len() - i,
{
    if list[i].id == id {
        i
    } else {
        lemma_parameter(list, id, i + 1)
    }
}

proof fn lemma_transform(list: Seq<GraphTransform>, id: u64, i: int) -> (t: int)
    requires
        0 <= i,
        transform_owner(list, id, i) is Some,
    ensures
        i <= t < list.len(),
        list[t].id == id,
        transform_owner(list, id, i) == Some(list[t].owner),
    decreases list.len() - i,
{
    if list[i].id == id {
        i
    } else {
        lemma_transform(list, id, i + 1)
    }
}

/// An entity of a reading is revealed as the only hypothesis that notes its identity: the
/// reading, the kind and the number.
pub proof fn foreign_entities_are_revealed_as_what_they_became(
    graph: SourceGraph,
    entity: EntityRefDto,
    subject: ReadingRevealSubject,
) -> (m: int)
    requires
        entity is Reading,
        revealed(graph, entity@) == Ok::<ReadingRevealSubject, EffectFault>(subject),
    ensures
        ({
            let list = graph.hypotheses@;
            let id = entity->Reading_0;
            let note = "foreign:"@ + hex_text(id.reading@) + ":"@ + id.kind@ + ":"@ + decimal(
                id.local_id as nat,
            );
            &&& 0 <= m < list.len()
            &&& subject == ReadingRevealSubject::Air(AirSelection::Hypothesis(list[m].id))
            &&& list[m].note matches Some(text) && text@ == note
            &&& forall|k: int|
                0 <= k < list.len() && ((#[trigger] list[k]).note matches Some(text) && text@
                    == note) ==> k == m
        }),
{
    let list = graph.hypotheses@;
    let note = crate::foreign_import::foreign_note(entity@->Reading_0);
    let m = lemma_noted(list, note, list.len() as int, 0);
    assert forall|k: int| 0 <= k < list.len() && ((#[trigger] list[k]).note matches Some(text)
        && text@ == note) implies k == m by {
        lemma_noted_at(list, note, list.len() as int, k);
        if k < m {
            lemma_noted_at(list, note, m, k);
        } else if m < k {
            lemma_noted_at(list, note, k, m);
        }
    }
    m
}

// ----- where material comes from ------------------------------------------

/// A source comes from itself alone.
pub proof fn a_source_comes_from_itself(graph: SourceGraph, local_id: u64, list: Seq<SourceId>)
    requires
        entity_roots(graph, EntityRefKey::Project { kind: "air-source"@, local_id }) matches Some(
            roots,
        ) && are_sources(graph, roots, list),
    ensures
        list == seq![SourceId(local_id)],
{
    let roots = entity_roots(graph, EntityRefKey::Project { kind: "air-source"@, local_id })->0;
    assert(roots.sources[0] == SourceId(local_id));
    assert(comes_from(graph, roots, SourceId(local_id)));
    assert(list.contains(SourceId(local_id)));
    assert forall|id: GraphObjectId| !#[trigger] is_reachable(graph, roots.objects, id) by {
        assert forall|n: nat| !#[trigger] reached(graph, roots.objects, id, n) by {
            lemma_nothing_reached(graph, roots.objects, id, n);
        }
    }
    assert forall|i: int| 0 <= i < list.len() implies #[trigger] list[i] == SourceId(local_id) by {
        assert(list.contains(list[i]));
        assert(comes_from(graph, roots, list[i]));
        assert(roots.sources.contains(list[i]));
    }
    if list.len() > 1 {
        assert(list[0].0 < list[1].0);
    }
    assert(list =~= seq![SourceId(local_id)]);
}

proof fn lemma_nothing_reached(
    graph: SourceGraph,
    roots: Seq<GraphObjectId>,
    id: GraphObjectId,
    n: nat,
)
    requires
        roots.len() == 0,
    ensures
        !reached(graph, roots, id, n),
    decreases n,
{
    if n > 0 {
        let m = (n - 1) as nat;
        lemma_nothing_reached(graph, roots, id, m);
        assert forall|whole: GraphObjectId| !(reached(graph, roots, whole, m)
            && #[trigger] members_of(graph, whole).contains(id)) by {
            lemma_nothing_reached(graph, roots, whole, m);
        }
    }
}

proof fn lemma_object_found(list: Seq<GraphObject>, i: int, k: int)
    requires
        0 <= i <= k < list.len(),
        forall|e: int| 0 <= e < k ==> (#[trigger] list[e]).id != list[k].id,
    ensures
        object_at(list, list[k].id, i) == Some(k),
    decreases k - i,
{
    if i < k {
        lemma_object_found(list, i + 1, k);
    }
}

proof fn lemma_span_found(list: Seq<GraphSpan>, i: int, s: int)
    requires
        0 <= i <= s < list.len(),
        forall|e: int| 0 <= e < s ==> (#[trigger] list[e]).id != list[s].id,
    ensures
        span_source(list, list[s].id, i) == Some(list[s].source),
    decreases s - i,
{
    if i < s {
        lemma_span_found(list, i + 1, s);
    }
}

proof fn lemma_span(list: Seq<GraphSpan>, id: u64, i: int) -> (s: int)
    requires
        0 <= i,
        span_source(list, id, i) is Some,
    ensures
        i <= s < list.len(),
        list[s].id == id,
        span_source(list, id, i) == Some(list[s].source),
    decreases list.len() - i,
{
    if list[i].id == id {
        i
    } else {
        lemma_span(list, id, i + 1)
    }
}

/// An object comes from every source that it is anchored in.
pub proof fn objects_come_from_their_anchors(
    graph: SourceGraph,
    roots: Roots,
    list: Seq<SourceId>,
    k: int,
    j: int,
    s: int,
)
    requires
        are_sources(graph, roots, list),
        0 <= k < graph.objects@.len(),
        forall|e: int| 0 <= e < k ==> (#[trigger] graph.objects@[e]).id != graph.objects@[k].id,
        roots.objects.contains(graph.objects@[k].id),
        0 <= j < graph.objects@[k].anchors@.len(),
        0 <= s < graph.spans@.len(),
        forall|e: int| 0 <= e < s ==> (#[trigger] graph.spans@[e]).id != graph.spans@[s].id,
        graph.spans@[s].id == graph.objects@[k].anchors@[j],
    ensures
        list.contains(graph.spans@[s].source),
{
    let id = graph.objects@[k].id;
    let source = graph.spans@[s].source;
    lemma_object_found(graph.objects@, 0, k);
    lemma_span_found(graph.spans@, 0, s);
    assert(span_source(graph.spans@, graph.objects@[k].anchors@[j], 0) == Some(source));
    assert(sounds_from(graph, id, source));
    assert(reached(graph, roots.objects, id, 0));
    assert(is_reachable(graph, roots.objects, id));
    assert(comes_from(graph, roots, source));
}

/// Whatever comes from a part comes from the whole.
pub proof fn wholes_come_from_what_their_parts_come_from(
    graph: SourceGraph,
    whole: Seq<SourceId>,
    part: Seq<SourceId>,
    k: int,
    m: int,
    source: SourceId,
)
    requires
        0 <= k < graph.objects@.len(),
        forall|e: int| 0 <= e < k ==> (#[trigger] graph.objects@[e]).id != graph.objects@[k].id,
        0 <= m < graph.objects@[k].members@.len(),
        are_sources(
            graph,
            Roots { objects: seq![graph.objects@[k].id], sources: Seq::empty() },
            whole,
        ),
        are_sources(
            graph,
            Roots { objects: seq![graph.objects@[k].members@[m]], sources: Seq::empty() },
            part,
        ),
        part.contains(source),
    ensures
        whole.contains(source),
{
    let top = graph.objects@[k].id;
    let below = graph.objects@[k].members@[m];
    let outer = Roots { objects: seq![top], sources: Seq::empty() };
    let inner = Roots { objects: seq![below], sources: Seq::empty() };
    assert(comes_from(graph, inner, source));
    let id = choose|id: GraphObjectId| #[trigger]
        is_reachable(graph, inner.objects, id) && sounds_from(graph, id, source);
    let n = choose|n: nat| #[trigger] reached(graph, inner.objects, id, n);
    lemma_object_found(graph.objects@, 0, k);
    assert(members_of(graph, top) == graph.objects@[k].members@);
    assert(members_of(graph, top).contains(below));
    assert(outer.objects[0] == top);
    assert(reached(graph, outer.objects, top, 0));
    assert(reached(graph, outer.objects, below, 1));
    lemma_reached_through(graph, inner.objects, outer.objects, below, id, n);
    assert(is_reachable(graph, outer.objects, id));
    assert(comes_from(graph, outer, source));
}

proof fn lemma_reached_through(
    graph: SourceGraph,
    inner: Seq<GraphObjectId>,
    outer: Seq<GraphObjectId>,
    below: GraphObjectId,
    id: GraphObjectId,
    n: nat,
)
    requires
        inner == seq![below],
        reached(graph, outer, below, 1),
        reached(graph, inner, id, n),
    ensures
        reached(graph, outer, id, n + 1),
    decreases n,
{
    if n == 0 {
        assert(id == below);
    } else {
        let m = (n - 1) as nat;
        if reached(graph, inner, id, m) {
            lemma_reached_through(graph, inner, outer, below, id, m);
        } else {
            let whole = choose|whole: GraphObjectId|
                reached(graph, inner, whole, m) && #[trigger] members_of(graph, whole).contains(id);
            lemma_reached_through(graph, inner, outer, below, whole, m);
        }
    }
}

/// No source is made up: each that an entity comes from was named, or a span of it is an
/// anchor of some object.
pub proof fn sources_are_not_made_up(
    graph: SourceGraph,
    roots: Roots,
    list: Seq<SourceId>,
    i: int,
) -> (r: (int, int, int))
    requires
        are_sources(graph, roots, list),
        0 <= i < list.len(),
        !roots.sources.contains(list[i]),
    ensures
        ({
            let (k, j, s) = r;
            &&& 0 <= k < graph.objects@.len()
            &&& 0 <= j < graph.objects@[k].anchors@.len()
            &&& 0 <= s < graph.spans@.len()
            &&& graph.spans@[s].id == graph.objects@[k].anchors@[j]
            &&& graph.spans@[s].source == list[i]
            &&& is_reachable(graph, roots.objects, graph.objects@[k].id)
        }),
{
    let source = list[i];
    assert(list.contains(source));
    assert(comes_from(graph, roots, source));
    let id = choose|id: GraphObjectId| #[trigger]
        is_reachable(graph, roots.objects, id) && sounds_from(graph, id, source);
    crate::source_graph::object_at_stands(graph.objects@, id, 0);
    let k = object_at(graph.objects@, id, 0)->0;
    let object = graph.objects@[k];
    assert(anchored_in(graph, object, source));
    let j = choose|j: int|
        0 <= j < object.anchors@.len() && span_source(
            graph.spans@,
            #[trigger] object.anchors@[j],
            0,
        ) == Some(source);
    let s = lemma_span(graph.spans@, object.anchors@[j], 0);
    (k, j, s)
}

/// A hypothesis starts from every object that its claims name.
pub proof fn hypotheses_start_from_what_they_claim(
    graph: SourceGraph,
    h: int,
    c: int,
    object: GraphObjectId,
)
    requires
        0 <= h < graph.hypotheses@.len(),
        forall|e: int|
            0 <= e < h ==> (#[trigger] graph.hypotheses@[e]).id != graph.hypotheses@[h].id,
        0 <= c < graph.hypotheses@[h].claims@.len(),
        match graph.hypotheses@[h].claims@[c] {
            HypothesisClaim::GroupsObjects(objects) => objects@.contains(object),
            HypothesisClaim::SeparatesObjects(objects) => objects@.contains(object),
            HypothesisClaim::Freeform { objects } => objects@.contains(object),
            HypothesisClaim::PitchTrack { object: named } => named == object,
            _ => false,
        },
    ensures
        entity_roots(
            graph,
            EntityRefKey::Project {
                kind: "air-hypothesis"@,
                local_id: graph.hypotheses@[h].id.0,
            },
        ) matches Some(roots) && roots.objects.contains(object),
{
    lemma_reveal_kinds();
    lemma_hypothesis_found(graph.hypotheses@, 0, h);
    let claims = graph.hypotheses@[h].claims@;
    assert(HypothesisId(graph.hypotheses@[h].id.0) == graph.hypotheses@[h].id);
    let own = claim_objects(graph, claims[c]);
    assert(own.contains(object)) by {
        if claims[c] is PitchTrack {
            assert(own[0] == object);
        }
    }
    lemma_claims(graph, claims, c, claims.len() as int, object);
}

proof fn lemma_hypothesis_found(list: Seq<GraphHypothesis>, i: int, h: int)
    requires
        0 <= i <= h < list.len(),
        forall|e: int| 0 <= e < h ==> (#[trigger] list[e]).id != list[h].id,
    ensures
        hypothesis_at(list, list[h].id, i) == Some(h),
    decreases h - i,
{
    if i < h {
        lemma_hypothesis_found(list, i + 1, h);
    }
}

proof fn lemma_claims(
    graph: SourceGraph,
    claims: Seq<HypothesisClaim>,
    c: int,
    i: int,
    object: GraphObjectId,
)
    requires
        0 <= c < i <= claims.len(),
        claim_objects(graph, claims[c]).contains(object),
    ensures
        claims_objects(graph, claims, i).contains(object),
    decreases i,
{
    let before = claims_objects(graph, claims, i - 1);
    let own = claim_objects(graph, claims[i - 1]);
    let all = claims_objects(graph, claims, i);
    if c < i - 1 {
        lemma_claims(graph, claims, c, i - 1, object);
        let k = choose|k: int| 0 <= k < before.len() && before[k] == object;
        assert(all[k] == object);
    } else {
        let k = choose|k: int| 0 <= k < own.len() && own[k] == object;
        assert(all[before.len() + k] == object);
    }
}

} // verus!
