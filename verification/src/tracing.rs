//! Tracing an entity of the interpretation graph back to its sources.

use vstd::prelude::*;

use crate::command::HypothesisId;
use crate::navigation::{EntityRefDto, EntityRefKey};
use crate::selection::GraphObjectId;
use crate::source_graph::{
    find_hypothesis, find_object, find_parameter_object, find_relation, find_span_source,
    find_transform_owner, hypothesis_at, object_at, object_at_stands, parameter_object,
    relation_at, span_source, transform_owner, GraphObject, HypothesisClaim, SourceGraph,
    SourceId,
};
use crate::text::same_text;

verus! {

// ----- what an entity starts from -----------------------------------------

/// The objects that a claim names, through transforms and relations too. Those
/// that are not there name none.
pub open spec fn claim_objects(graph: SourceGraph, claim: HypothesisClaim) -> Seq<GraphObjectId> {
    match claim {
        HypothesisClaim::GroupsObjects(objects) => objects@,
        HypothesisClaim::SeparatesObjects(objects) => objects@,
        HypothesisClaim::Freeform { objects } => objects@,
        HypothesisClaim::PitchTrack { object } => seq![object],
        HypothesisClaim::TransformApplies(transform) => match transform_owner(
            graph.transforms@,
            transform,
            0,
        ) {
            Some(owner) => seq![owner],
            None => Seq::empty(),
        },
        HypothesisClaim::Relation(relation) => match relation_at(graph.relations@, relation, 0) {
            Some(k) => seq![graph.relations@[k].from, graph.relations@[k].to],
            None => Seq::empty(),
        },
    }
}

/// The objects that the first `i` claims name.
pub open spec fn claims_objects(
    graph: SourceGraph,
    claims: Seq<HypothesisClaim>,
    i: int,
) -> Seq<GraphObjectId>
    decreases i,
{
    if i <= 0 {
        Seq::empty()
    } else {
        claims_objects(graph, claims, i - 1) + claim_objects(graph, claims[i - 1])
    }
}

/// What an entity starts from: objects and sources.
pub struct Roots {
    pub objects: Seq<GraphObjectId>,
    pub sources: Seq<SourceId>,
}

/// What an entity starts from, if it stands in the graph.
pub open spec fn entity_roots(graph: SourceGraph, entity: EntityRefKey) -> Option<Roots> {
    match entity {
        EntityRefKey::Reading(_) => None,
        EntityRefKey::Project { kind, local_id } => if kind == "air-source"@ {
            Some(Roots { objects: Seq::empty(), sources: seq![SourceId(local_id)] })
        } else if kind == "air-object"@ {
            Some(Roots { objects: seq![GraphObjectId(local_id)], sources: Seq::empty() })
        } else if kind == "air-parameter"@ {
            match parameter_object(graph, local_id) {
                Some(object) => Some(Roots { objects: seq![object], sources: Seq::empty() }),
                None => None,
            }
        } else if kind == "air-hypothesis"@ {
            match hypothesis_at(graph.hypotheses@, HypothesisId(local_id), 0) {
                Some(k) => {
                    let claims = graph.hypotheses@[k].claims@;
                    Some(
                        Roots {
                            objects: claims_objects(graph, claims, claims.len() as int),
                            sources: Seq::empty(),
                        },
                    )
                },
                None => None,
            }
        } else {
            None
        },
    }
}

// ----- what it reaches ----------------------------------------------------

/// The objects that an object is made of.
pub open spec fn members_of(graph: SourceGraph, id: GraphObjectId) -> Seq<GraphObjectId> {
    match object_at(graph.objects@, id, 0) {
        Some(k) => graph.objects@[k].members@,
        None => Seq::empty(),
    }
}

/// Whether an object is reached from others in at most `n` steps from an object to
/// a part of it.
pub open spec fn reached(
    graph: SourceGraph,
    roots: Seq<GraphObjectId>,
    id: GraphObjectId,
    n: nat,
) -> bool
    decreases n,
{
    if n == 0 {
        roots.contains(id)
    } else {
        ||| reached(graph, roots, id, (n - 1) as nat)
        ||| exists|whole: GraphObjectId|
            reached(graph, roots, whole, (n - 1) as nat) && #[trigger] members_of(
                graph,
                whole,
            ).contains(id)
    }
}

/// Whether an object is one of others or a part of them, however deep.
pub open spec fn is_reachable(
    graph: SourceGraph,
    roots: Seq<GraphObjectId>,
    id: GraphObjectId,
) -> bool {
    exists|n: nat| #[trigger] reached(graph, roots, id, n)
}

/// Whether one of the objects that are reached is not there.
pub open spec fn dangles(graph: SourceGraph, roots: Seq<GraphObjectId>) -> bool {
    exists|id: GraphObjectId| #[trigger]
        is_reachable(graph, roots, id) && object_at(graph.objects@, id, 0) is None
}

/// Whether an object is anchored in a source.
pub open spec fn anchored_in(graph: SourceGraph, object: GraphObject, source: SourceId) -> bool {
    exists|j: int|
        0 <= j < object.anchors@.len() && span_source(
            graph.spans@,
            #[trigger] object.anchors@[j],
            0,
        ) == Some(source)
}

/// Whether an object of the graph is anchored in a source.
pub open spec fn sounds_from(graph: SourceGraph, id: GraphObjectId, source: SourceId) -> bool {
    match object_at(graph.objects@, id, 0) {
        Some(k) => anchored_in(graph, graph.objects@[k], source),
        None => false,
    }
}

/// Whether a source is one that an entity comes from.
pub open spec fn comes_from(graph: SourceGraph, roots: Roots, source: SourceId) -> bool {
    ||| roots.sources.contains(source)
    ||| exists|id: GraphObjectId| #[trigger]
        is_reachable(graph, roots.objects, id) && sounds_from(graph, id, source)
}

/// A list of sources without repetition, in ascending order.
pub open spec fn ascends(list: Seq<SourceId>) -> bool {
    forall|i: int, j: int|
        0 <= i < j < list.len() ==> (#[trigger] list[i]).0 < (#[trigger] list[j]).0
}

/// The sources that an entity comes from, each once, in ascending order.
pub open spec fn are_sources(graph: SourceGraph, roots: Roots, list: Seq<SourceId>) -> bool {
    &&& ascends(list)
    &&& forall|source: SourceId| #[trigger]
        list.contains(source) <==> comes_from(graph, roots, source)
}

// ----- tracing ------------------------------------------------------------

fn insert_source(list: &mut Vec<SourceId>, source: SourceId)
    requires
        ascends(old(list)@),
    ensures
        ascends(final(list)@),
        forall|x: SourceId| #[trigger]
            final(list)@.contains(x) <==> old(list)@.contains(x) || x == source,
{
    let ghost before = list@;
    let mut i: usize = 0;
    while i < list.len() && list[i].0 < source.0
        invariant
            i <= list.len(),
            list@ == before,
            ascends(before),
            forall|k: int| 0 <= k < i ==> (#[trigger] before[k]).0 < source.0,
        decreases list.len() - i,
    {
        i = i + 1;
    }
    if i < list.len() && list[i].0 == source.0 {
        assert(before[i as int] == source);
        return;
    }
    list.insert(i, source);
    let ghost after = list@;
    assert(after =~= before.insert(i as int, source));
    assert forall|x: SourceId| #[trigger] after.contains(x) <==> before.contains(x) || x
        == source by {
        if before.contains(x) {
            let k = choose|k: int| 0 <= k < before.len() && before[k] == x;
            if k < i {
                assert(after[k] == x);
            } else {
                assert(after[k + 1] == x);
            }
        }
        if x == source {
            assert(after[i as int] == x);
        }
        if after.contains(x) && x != source {
            let k = choose|k: int| 0 <= k < after.len() && after[k] == x;
            if k < i {
                assert(before[k] == x);
            } else {
                assert(before[k - 1] == x);
            }
        }
    }
    assert forall|a: int, b: int| 0 <= a < b < after.len() implies (#[trigger] after[a]).0 < (
    #[trigger] after[b]).0 by {
        if b < i {
            assert(after[a] == before[a] && after[b] == before[b]);
        } else if b == i {
            assert(after[a] == before[a]);
        } else if a < i {
            assert(after[a] == before[a] && after[b] == before[b - 1]);
        } else if a == i {
            assert(after[b] == before[b - 1]);
            assert(before[i as int].0 > source.0);
        } else {
            assert(after[a] == before[a - 1] && after[b] == before[b - 1]);
        }
    }
}

/// The number of objects that were not visited.
spec fn unvisited(flags: Seq<bool>) -> nat
    decreases flags.len(),
{
    if flags.len() == 0 {
        0
    } else {
        unvisited(flags.drop_last()) + if flags.last() {
            0nat
        } else {
            1nat
        }
    }
}

proof fn visiting_counts_down(flags: Seq<bool>, i: int)
    requires
        0 <= i < flags.len(),
        !flags[i],
    ensures
        unvisited(flags.update(i, true)) + 1 == unvisited(flags),
    decreases flags.len(),
{
    let after = flags.update(i, true);
    if i == flags.len() - 1 {
        assert(after.drop_last() =~= flags.drop_last());
    } else {
        assert(after.drop_last() =~= flags.drop_last().update(i, true));
        visiting_counts_down(flags.drop_last(), i);
    }
}

/// Whether an object was visited.
spec fn seen(graph: SourceGraph, flags: Seq<bool>, id: GraphObjectId) -> bool {
    object_at(graph.objects@, id, 0) matches Some(k) && 0 <= k < flags.len() && flags[k]
}

proof fn reached_is_reachable(
    graph: SourceGraph,
    roots: Seq<GraphObjectId>,
    whole: GraphObjectId,
    id: GraphObjectId,
)
    requires
        is_reachable(graph, roots, whole),
        members_of(graph, whole).contains(id),
    ensures
        is_reachable(graph, roots, id),
{
    let n = choose|n: nat| reached(graph, roots, whole, n);
    assert(reached(graph, roots, id, n + 1));
}

proof fn closed_sets_hold_what_is_reached(
    graph: SourceGraph,
    flags: Seq<bool>,
    roots: Seq<GraphObjectId>,
    id: GraphObjectId,
    n: nat,
)
    requires
        forall|i: int| 0 <= i < roots.len() ==> seen(graph, flags, #[trigger] roots[i]),
        forall|k: int, m: int|
            0 <= k < flags.len() && k < graph.objects@.len() && flags[k] && 0 <= m
                < graph.objects@[k].members@.len() ==> seen(
                graph,
                flags,
                #[trigger] graph.objects@[k].members@[m],
            ),
        reached(graph, roots, id, n),
    ensures
        seen(graph, flags, id),
    decreases n,
{
    if n > 0 {
        if reached(graph, roots, id, (n - 1) as nat) {
            closed_sets_hold_what_is_reached(graph, flags, roots, id, (n - 1) as nat);
        } else {
            let whole = choose|whole: GraphObjectId|
                reached(graph, roots, whole, (n - 1) as nat) && #[trigger] members_of(
                    graph,
                    whole,
                ).contains(id);
            closed_sets_hold_what_is_reached(graph, flags, roots, whole, (n - 1) as nat);
            object_at_stands(graph.objects@, whole, 0);
            let k = object_at(graph.objects@, whole, 0)->0;
            let m = choose|m: int| 0 <= m < members_of(graph, whole).len() && members_of(
                graph,
                whole,
            )[m] == id;
            assert(graph.objects@[k].members@[m] == id);
        }
    } else {
        let i = choose|i: int| 0 <= i < roots.len() && roots[i] == id;
        assert(seen(graph, flags, roots[i]));
    }
}

fn push_objects(out: &mut Vec<GraphObjectId>, list: &Vec<GraphObjectId>)
    ensures
        final(out)@ == old(out)@ + list@,
{
    let ghost start = out@;
    let mut i: usize = 0;
    assert(out@ =~= start + list@.take(0));
    while i < list.len()
        invariant
            i <= list.len(),
            out@ == start + list@.take(i as int),
        decreases list.len() - i,
    {
        out.push(list[i]);
        assert(out@ =~= start + list@.take(i as int + 1));
        i = i + 1;
    }
    assert(list@.take(i as int) =~= list@);
}

fn collect_claims(graph: &SourceGraph, claims: &Vec<HypothesisClaim>) -> (r: Vec<GraphObjectId>)
    ensures
        r@ == claims_objects(*graph, claims@, claims@.len() as int),
{
    let mut objects: Vec<GraphObjectId> = Vec::new();
    let mut i: usize = 0;
    while i < claims.len()
        invariant
            i <= claims.len(),
            objects@ == claims_objects(*graph, claims@, i as int),
        decreases claims.len() - i,
    {
        let ghost before = objects@;
        match &claims[i] {
            HypothesisClaim::GroupsObjects(list) => push_objects(&mut objects, list),
            HypothesisClaim::SeparatesObjects(list) => push_objects(&mut objects, list),
            HypothesisClaim::Freeform { objects: list } => push_objects(&mut objects, list),
            HypothesisClaim::PitchTrack { object } => {
                objects.push(*object);
            },
            HypothesisClaim::TransformApplies(transform) => {
                match find_transform_owner(&graph.transforms, *transform) {
                    Some(owner) => {
                        objects.push(owner);
                    },
                    None => {},
                }
            },
            HypothesisClaim::Relation(relation) => {
                match find_relation(&graph.relations, *relation) {
                    Some(k) => {
                        objects.push(graph.relations[k].from);
                        objects.push(graph.relations[k].to);
                    },
                    None => {},
                }
            },
        }
        assert(objects@ =~= before + claim_objects(*graph, claims@[i as int]));
        i = i + 1;
    }
    objects
}

fn add_anchors(graph: &SourceGraph, object: &GraphObject, sources: &mut Vec<SourceId>)
    requires
        ascends(old(sources)@),
    ensures
        ascends(final(sources)@),
        forall|x: SourceId| #[trigger]
            final(sources)@.contains(x) <==> old(sources)@.contains(x) || anchored_in(
                *graph,
                *object,
                x,
            ),
{
    let ghost before = sources@;
    let mut i: usize = 0;
    while i < object.anchors.len()
        invariant
            i <= object.anchors.len(),
            ascends(sources@),
            forall|x: SourceId| #[trigger]
                sources@.contains(x) <==> before.contains(x) || exists|j: int|
                    0 <= j < i && span_source(graph.spans@, #[trigger] object.anchors@[j], 0)
                        == Some(x),
        decreases object.anchors.len() - i,
    {
        let ghost middle = sources@;
        let found = find_span_source(&graph.spans, object.anchors[i]);
        match found {
            Some(source) => insert_source(sources, source),
            None => {},
        }
        assert forall|x: SourceId| #[trigger]
            sources@.contains(x) <==> before.contains(x) || exists|j: int|
                0 <= j < i + 1 && span_source(graph.spans@, #[trigger] object.anchors@[j], 0)
                    == Some(x) by {
            if found == Some(x) {
                assert(span_source(graph.spans@, object.anchors@[i as int], 0) == Some(x));
            }
            assert(middle.contains(x) <==> before.contains(x) || exists|j: int|
                0 <= j < i && span_source(graph.spans@, #[trigger] object.anchors@[j], 0) == Some(
                    x,
                ));
        }
        i = i + 1;
    }
    assert forall|x: SourceId| #[trigger]
        sources@.contains(x) <==> before.contains(x) || anchored_in(*graph, *object, x) by {
        assert(anchored_in(*graph, *object, x) <==> exists|j: int|
            0 <= j < i && span_source(graph.spans@, #[trigger] object.anchors@[j], 0) == Some(x));
    }
}

fn trace(graph: &SourceGraph, objects: Vec<GraphObjectId>, sources: Vec<SourceId>) -> (r: Option<
    Vec<SourceId>,
>)
    requires
        ascends(sources@),
    ensures
        match r {
            None => dangles(*graph, objects@),
            Some(list) => !dangles(*graph, objects@) && are_sources(
                *graph,
                (Roots { objects: objects@, sources: sources@ }),
                list@,
            ),
        },
{
    let ghost roots = objects@;
    let ghost direct = sources@;
    let ghost whole = *graph;
    let mut stack = objects;
    let mut found = sources;
    let mut visited: Vec<bool> = Vec::new();
    let mut k: usize = 0;
    while k < graph.objects.len()
        invariant
            k <= graph.objects.len(),
            visited@.len() == k,
            forall|i: int| 0 <= i < k ==> !(#[trigger] visited@[i]),
        decreases graph.objects.len() - k,
    {
        visited.push(false);
        k = k + 1;
    }
    assert forall|i: int| 0 <= i < stack@.len() implies is_reachable(
        whole,
        roots,
        #[trigger] stack@[i],
    ) by {
        assert(reached(whole, roots, stack@[i], 0));
    }
    assert(forall|i: int| 0 <= i < roots.len() ==> stack@.contains(#[trigger] roots[i]));
    while stack.len() > 0
        invariant
            whole == *graph,
            roots == objects@,
            direct == sources@,
            visited@.len() == graph.objects@.len(),
            ascends(found@),
            forall|i: int|
                0 <= i < stack@.len() ==> is_reachable(whole, roots, #[trigger] stack@[i]),
            forall|i: int|
                0 <= i < visited@.len() && #[trigger] visited@[i] ==> is_reachable(
                    whole,
                    roots,
                    whole.objects@[i].id,
                ) && object_at(whole.objects@, whole.objects@[i].id, 0) == Some(i),
            forall|i: int, m: int|
                0 <= i < visited@.len() && visited@[i] && 0 <= m
                    < whole.objects@[i].members@.len() ==> seen(
                    whole,
                    visited@,
                    #[trigger] whole.objects@[i].members@[m],
                ) || stack@.contains(whole.objects@[i].members@[m]),
            forall|i: int|
                0 <= i < roots.len() ==> seen(whole, visited@, #[trigger] roots[i])
                    || stack@.contains(roots[i]),
            forall|x: SourceId| #[trigger]
                found@.contains(x) <==> direct.contains(x) || exists|i: int|
                    0 <= i < visited@.len() && #[trigger] visited@[i] && anchored_in(
                        whole,
                        whole.objects@[i],
                        x,
                    ),
        decreases unvisited(visited@), stack@.len(),
    {
        let ghost old_stack = stack@;
        let ghost old_flags = visited@;
        let ghost old_found = found@;
        let object = match stack.pop() {
            Some(object) => object,
            None => {
                return None;
            },
        };
        assert(old_stack.last() == object);
        assert(is_reachable(whole, roots, old_stack[old_stack.len() - 1]));
        assert forall|x: GraphObjectId| old_stack.contains(x) implies x == object
            || stack@.contains(x) by {
            let i = choose|i: int| 0 <= i < old_stack.len() && old_stack[i] == x;
            if i < old_stack.len() - 1 {
                assert(stack@[i] == x);
            }
        }
        match find_object(&graph.objects, object) {
            None => {
                return None;
            },
            Some(at) => {
                proof {
                    object_at_stands(whole.objects@, object, 0);
                }
                if visited[at] {
                    assert(seen(whole, visited@, object));
                } else {
                    proof {
                        visiting_counts_down(visited@, at as int);
                    }
                    visited.set(at, true);
                    push_objects(&mut stack, &graph.objects[at].members);
                    add_anchors(graph, &graph.objects[at], &mut found);
                    proof {
                        let flags = visited@;
                        assert(flags == old_flags.update(at as int, true));
                        let rest = old_stack.drop_last();
                        assert(stack@ == rest + whole.objects@[at as int].members@);
                        assert forall|x: GraphObjectId| seen(whole, old_flags, x) implies seen(
                            whole,
                            flags,
                            x,
                        ) by {}
                        assert(seen(whole, flags, object));
                        assert forall|x: GraphObjectId| rest.contains(x) implies stack@.contains(
                            x,
                        ) by {
                            let i = choose|i: int| 0 <= i < rest.len() && rest[i] == x;
                            assert(stack@[i] == x);
                        }
                        assert forall|i: int| 0 <= i < stack@.len() implies is_reachable(
                            whole,
                            roots,
                            #[trigger] stack@[i],
                        ) by {
                            if i < rest.len() {
                                assert(stack@[i] == old_stack[i]);
                            } else {
                                let m = i - rest.len();
                                assert(stack@[i] == whole.objects@[at as int].members@[m]);
                                assert(members_of(whole, object)[m] == stack@[i]);
                                reached_is_reachable(whole, roots, object, stack@[i]);
                            }
                        }
                        assert forall|i: int, m: int|
                            0 <= i < flags.len() && flags[i] && 0 <= m
                                < whole.objects@[i].members@.len() implies seen(
                            whole,
                            flags,
                            #[trigger] whole.objects@[i].members@[m],
                        ) || stack@.contains(whole.objects@[i].members@[m]) by {
                            let x = whole.objects@[i].members@[m];
                            if i == at {
                                assert(stack@[rest.len() + m] == x);
                            } else {
                                assert(old_flags[i]);
                                assert(seen(whole, old_flags, x) || old_stack.contains(x));
                            }
                        }
                        assert forall|i: int| 0 <= i < roots.len() implies seen(
                            whole,
                            flags,
                            #[trigger] roots[i],
                        ) || stack@.contains(roots[i]) by {
                            assert(seen(whole, old_flags, roots[i]) || old_stack.contains(
                                roots[i],
                            ));
                        }
                        assert forall|x: SourceId| #[trigger]
                            found@.contains(x) <==> direct.contains(x) || exists|i: int|
                                0 <= i < flags.len() && #[trigger] flags[i] && anchored_in(
                                    whole,
                                    whole.objects@[i],
                                    x,
                                ) by {
                            assert(old_found.contains(x) <==> direct.contains(x) || exists|i: int|
                                0 <= i < old_flags.len() && #[trigger] old_flags[i] && anchored_in(
                                    whole,
                                    whole.objects@[i],
                                    x,
                                ));
                            if anchored_in(whole, whole.objects@[at as int], x) {
                                assert(flags[at as int]);
                            }
                            if exists|i: int|
                                0 <= i < old_flags.len() && #[trigger] old_flags[i] && anchored_in(
                                    whole,
                                    whole.objects@[i],
                                    x,
                                ) {
                                let i = choose|i: int|
                                    0 <= i < old_flags.len() && #[trigger] old_flags[i]
                                        && anchored_in(whole, whole.objects@[i], x);
                                assert(flags[i]);
                            }
                            if exists|i: int|
                                0 <= i < flags.len() && #[trigger] flags[i] && anchored_in(
                                    whole,
                                    whole.objects@[i],
                                    x,
                                ) {
                                let i = choose|i: int|
                                    0 <= i < flags.len() && #[trigger] flags[i] && anchored_in(
                                        whole,
                                        whole.objects@[i],
                                        x,
                                    );
                                if i != at {
                                    assert(old_flags[i]);
                                }
                            }
                        }
                    }
                }
            },
        }
    }
    proof {
        let flags = visited@;
        assert forall|id: GraphObjectId| #[trigger] is_reachable(whole, roots, id) implies seen(
            whole,
            flags,
            id,
        ) by {
            let n = choose|n: nat| reached(whole, roots, id, n);
            assert forall|i: int, m: int|
                0 <= i < flags.len() && i < whole.objects@.len() && flags[i] && 0 <= m
                    < whole.objects@[i].members@.len() implies seen(
                whole,
                flags,
                #[trigger] whole.objects@[i].members@[m],
            ) by {
                assert(!stack@.contains(whole.objects@[i].members@[m]));
            }
            assert forall|i: int| 0 <= i < roots.len() implies seen(
                whole,
                flags,
                #[trigger] roots[i],
            ) by {
                assert(!stack@.contains(roots[i]));
            }
            closed_sets_hold_what_is_reached(whole, flags, roots, id, n);
        }
        let start = Roots { objects: roots, sources: direct };
        assert forall|x: SourceId| #[trigger] found@.contains(x) <==> comes_from(
            whole,
            start,
            x,
        ) by {
            if exists|i: int|
                0 <= i < flags.len() && #[trigger] flags[i] && anchored_in(
                    whole,
                    whole.objects@[i],
                    x,
                ) {
                let i = choose|i: int|
                    0 <= i < flags.len() && #[trigger] flags[i] && anchored_in(
                        whole,
                        whole.objects@[i],
                        x,
                    );
                let id = whole.objects@[i].id;
                assert(is_reachable(whole, roots, id));
                assert(sounds_from(whole, id, x));
                assert(is_reachable(whole, start.objects, id));
                assert(comes_from(whole, start, x));
            }
            assert(found@.contains(x) ==> comes_from(whole, start, x));
            if exists|id: GraphObjectId| #[trigger]
                is_reachable(whole, roots, id) && sounds_from(whole, id, x) {
                let id = choose|id: GraphObjectId| #[trigger]
                    is_reachable(whole, roots, id) && sounds_from(whole, id, x);
                let i = object_at(whole.objects@, id, 0)->0;
                assert(seen(whole, flags, id));
                assert(flags[i]);
                assert(anchored_in(whole, whole.objects@[i], x));
                assert(found@.contains(x));
            }
        }
    }
    Some(found)
}

/// The sources that an entity comes from, each once and in ascending order, or
/// nothing if it or a part of it is not there.
pub fn entity_sources(entity: &EntityRefDto, graph: &SourceGraph) -> (r: Option<Vec<SourceId>>)
    ensures
        match entity_roots(*graph, entity@) {
            None => r is None,
            Some(roots) => match r {
                None => dangles(*graph, roots.objects),
                Some(list) => !dangles(*graph, roots.objects) && are_sources(
                    *graph,
                    roots,
                    list@,
                ),
            },
        },
{
    let mut objects: Vec<GraphObjectId> = Vec::new();
    let mut sources: Vec<SourceId> = Vec::new();
    match entity {
        EntityRefDto::Reading(_) => {
            return None;
        },
        EntityRefDto::Project { kind, local_id } => {
            if same_text(kind.as_str(), "air-source") {
                sources.push(SourceId(*local_id));
                assert(sources@ =~= seq![SourceId(*local_id)]);
            } else if same_text(kind.as_str(), "air-object") {
                objects.push(GraphObjectId(*local_id));
                assert(objects@ =~= seq![GraphObjectId(*local_id)]);
            } else if same_text(kind.as_str(), "air-parameter") {
                match find_parameter_object(graph, *local_id) {
                    Some(object) => {
                        objects.push(object);
                        assert(objects@ =~= seq![object]);
                    },
                    None => {
                        return None;
                    },
                }
            } else if same_text(kind.as_str(), "air-hypothesis") {
                match find_hypothesis(&graph.hypotheses, HypothesisId(*local_id)) {
                    Some(k) => {
                        objects = collect_claims(graph, &graph.hypotheses[k].claims);
                    },
                    None => {
                        return None;
                    },
                }
            } else {
                return None;
            }
        },
    }
    trace(graph, objects, sources)
}

// ----- laws ---------------------------------------------------------------

/// The sources of an entity are one list and no other.
pub proof fn sources_are_determined(
    graph: SourceGraph,
    roots: Roots,
    left: Seq<SourceId>,
    right: Seq<SourceId>,
)
    requires
        are_sources(graph, roots, left),
        are_sources(graph, roots, right),
    ensures
        left == right,
{
    assert forall|x: SourceId| left.contains(x) <==> right.contains(x) by {
        assert(left.contains(x) <==> comes_from(graph, roots, x));
        assert(right.contains(x) <==> comes_from(graph, roots, x));
    }
    same_members_same_list(left, right);
}

proof fn same_members_same_list(left: Seq<SourceId>, right: Seq<SourceId>)
    requires
        ascends(left),
        ascends(right),
        forall|x: SourceId| left.contains(x) <==> right.contains(x),
    ensures
        left == right,
    decreases left.len(),
{
    if left.len() == 0 {
        if right.len() > 0 {
            assert(right.contains(right[0]));
            assert(left.contains(right[0]));
        }
        assert(left =~= right);
    } else if right.len() == 0 {
        assert(left.contains(left[0]));
        assert(right.contains(left[0]));
    } else {
        let a = left.last();
        let b = right.last();
        assert(left.contains(a) && right.contains(b));
        let i = choose|i: int| 0 <= i < right.len() && right[i] == a;
        let j = choose|j: int| 0 <= j < left.len() && left[j] == b;
        assert(a.0 <= b.0);
        assert(b.0 <= a.0);
        let shorter = left.drop_last();
        let other = right.drop_last();
        assert forall|x: SourceId| shorter.contains(x) <==> other.contains(x) by {
            if shorter.contains(x) {
                let k = choose|k: int| 0 <= k < shorter.len() && shorter[k] == x;
                assert(left[k] == x && left[k].0 < left[left.len() - 1].0);
                assert(left.contains(x));
                let m = choose|m: int| 0 <= m < right.len() && right[m] == x;
                assert(other[m] == x);
            }
            if other.contains(x) {
                let k = choose|k: int| 0 <= k < other.len() && other[k] == x;
                assert(right[k] == x && right[k].0 < right[right.len() - 1].0);
                assert(right.contains(x));
                let m = choose|m: int| 0 <= m < left.len() && left[m] == x;
                assert(shorter[m] == x);
            }
        }
        same_members_same_list(shorter, other);
        assert(left =~= shorter.push(a));
        assert(right =~= other.push(b));
    }
}

} // verus!
