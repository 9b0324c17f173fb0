//! What query terms and the queries that they compile to mean.
//!
//! Terms and queries each have a meaning of their own, by what holds of a fact. Compiling
//! keeps it.

use vstd::prelude::*;
use vstd::string::*;

use crate::navigation::{
    bit_patterns_are_ordered_as_numbers, is_finite, reference_keys, units, valid_reference,
    AspectGeometryDto, EntityRefDto, EntityRefKey, RegionDto, SignalLayerDto,
};
use crate::query_terms::{
    all_of, aspect_trees, compiled, compiled_aspect, compiled_list, explanation_of,
    object_aspect, object_aspects, query_trees, references_fault, region_aspect,
    regions_fault, term_trees, Aspect, AspectTree, ExplanationRef, FactKindDto, Query, QueryTermDto,
    QueryTree, TermTree,
};
use crate::text::is_token;
use crate::workbench_error::WorkbenchFault;

verus! {

// ----- facts --------------------------------------------------------------

/// A place in the material: a frame, a frequency and a channel, the objects that sound
/// there, and what it belongs to and is left over from.
pub struct Place {
    pub frame: int,
    pub frequency: int,
    pub channel: u16,
    pub objects: Set<u64>,
    pub explained_by: Set<ExplanationRef>,
    pub residual_of: Set<ExplanationRef>,
}

/// What is known: of which kind facts are, where they are, which are related, and which
/// proposals explain them.
pub struct Knowledge {
    pub kind: spec_fn(int) -> FactKindDto,
    pub at: spec_fn(int, Place) -> bool,
    pub related: spec_fn(int, int) -> bool,
    pub explained: spec_fn(int, u64) -> bool,
}

// ----- what terms mean ----------------------------------------------------

/// Whether a place lies in a region.
pub open spec fn in_region(region: RegionDto, place: Place) -> bool {
    &&& region.start_frame <= place.frame < region.end_frame
    &&& units(region.min_hz_bits) <= place.frequency < units(region.max_hz_bits)
    &&& region.channels & place.channel != 0
}

/// Whether an object that is named sounds at a place.
pub open spec fn sounds(object: EntityRefDto, place: Place) -> bool {
    object matches EntityRefDto::Project { local_id, .. } && place.objects.contains(local_id)
}

/// Whether a reference names an explanation, a proposal or a comparison of the project.
pub open spec fn names(reference: EntityRefDto, explanation: ExplanationRef) -> bool {
    &&& reference matches EntityRefDto::Project { kind, local_id }
    &&& match explanation {
        ExplanationRef::Definition(id) => kind@ == "explanation"@ && id == local_id,
        ExplanationRef::Proposal(id) => kind@ == "reconstruction-proposal"@ && id == local_id,
        ExplanationRef::Comparison(id) => kind@ == "comparison"@ && id == local_id,
    }
}

/// Whether a place lies within geometry: in one of its regions and in one of its objects,
/// where it has any, and in its signal layer.
pub open spec fn in_geometry(geometry: AspectGeometryDto, place: Place) -> bool {
    &&& geometry.regions@.len() > 0 ==> exists|i: int|
        0 <= i < geometry.regions@.len() && in_region(#[trigger] geometry.regions@[i], place)
    &&& geometry.objects@.len() > 0 ==> exists|i: int|
        0 <= i < geometry.objects@.len() && sounds(#[trigger] geometry.objects@[i], place)
    &&& match geometry.signal {
        SignalLayerDto::Source => true,
        SignalLayerDto::Explanation { reference } => exists|e: ExplanationRef| #[trigger]
            names(reference, e) && place.explained_by.contains(e),
        SignalLayerDto::Residual { reference } => exists|e: ExplanationRef| #[trigger]
            names(reference, e) && place.residual_of.contains(e),
    }
}

/// Whether a term holds of a fact.
pub open spec fn term_holds(term: QueryTermDto, known: Knowledge, fact: int) -> bool
    decreases term, 1int,
{
    match term {
        QueryTermDto::Kind { kind } => (known.kind)(fact) == kind,
        QueryTermDto::Within { aspect } => exists|place: Place| #[trigger]
            (known.at)(fact, place) && in_geometry(aspect, place),
        QueryTermDto::Related { to } => exists|other: int| #[trigger]
            (known.related)(fact, other) && term_holds(*to, known, other),
        QueryTermDto::NotExplainedBy { proposal_id } => !(known.explained)(fact, proposal_id),
        QueryTermDto::And { terms } => every_term_holds(terms@, known, fact),
        QueryTermDto::Or { terms } => some_term_holds(terms@, known, fact),
        QueryTermDto::Not { term } => !term_holds(*term, known, fact),
    }
}

/// Whether all terms hold of a fact.
pub open spec fn every_term_holds(terms: Seq<QueryTermDto>, known: Knowledge, fact: int) -> bool
    decreases terms, 0int,
{
    forall|i: int| 0 <= i < terms.len() ==> term_holds(#[trigger] terms[i], known, fact)
}

/// Whether one of the terms holds of a fact.
pub open spec fn some_term_holds(terms: Seq<QueryTermDto>, known: Knowledge, fact: int) -> bool
    decreases terms, 0int,
{
    exists|i: int| 0 <= i < terms.len() && term_holds(#[trigger] terms[i], known, fact)
}

// ----- what queries mean --------------------------------------------------

/// Whether a selector selects a place.
pub open spec fn selects(aspect: Aspect, place: Place) -> bool
    decreases aspect, 1int,
{
    match aspect {
        Aspect::All => true,
        Aspect::Time { start_frame, end_frame } => start_frame <= place.frame < end_frame,
        Aspect::Band { min_hz_bits, max_hz_bits } => units(min_hz_bits) <= place.frequency
            < units(max_hz_bits),
        Aspect::Channels(mask) => mask & place.channel != 0,
        Aspect::Object(id) => place.objects.contains(id),
        Aspect::ExplainedBy(reference) => place.explained_by.contains(reference),
        Aspect::ResidualOf(reference) => place.residual_of.contains(reference),
        Aspect::Union(list) => some_selects(list@, place),
        Aspect::Intersect(list) => every_selects(list@, place),
    }
}

/// Whether one of the selectors selects a place.
pub open spec fn some_selects(list: Seq<Aspect>, place: Place) -> bool
    decreases list, 0int,
{
    exists|i: int| 0 <= i < list.len() && selects(#[trigger] list[i], place)
}

/// Whether all selectors select a place.
pub open spec fn every_selects(list: Seq<Aspect>, place: Place) -> bool
    decreases list, 0int,
{
    forall|i: int| 0 <= i < list.len() ==> selects(#[trigger] list[i], place)
}

/// Whether a query holds of a fact.
pub open spec fn query_holds(query: Query, known: Knowledge, fact: int) -> bool
    decreases query, 1int,
{
    match query {
        Query::Kind(kind) => (known.kind)(fact) == kind,
        Query::Within(aspect) => exists|place: Place| #[trigger]
            (known.at)(fact, place) && selects(aspect, place),
        Query::Related { to } => exists|other: int| #[trigger]
            (known.related)(fact, other) && query_holds(*to, known, other),
        Query::NotExplainedBy(proposal) => !(known.explained)(fact, proposal),
        Query::And(list) => every_query_holds(list@, known, fact),
        Query::Or(list) => some_query_holds(list@, known, fact),
        Query::Not(inner) => !query_holds(*inner, known, fact),
    }
}

/// Whether all queries hold of a fact.
pub open spec fn every_query_holds(list: Seq<Query>, known: Knowledge, fact: int) -> bool
    decreases list, 0int,
{
    forall|i: int| 0 <= i < list.len() ==> query_holds(#[trigger] list[i], known, fact)
}

/// Whether one of the queries holds of a fact.
pub open spec fn some_query_holds(list: Seq<Query>, known: Knowledge, fact: int) -> bool
    decreases list, 0int,
{
    exists|i: int| 0 <= i < list.len() && query_holds(#[trigger] list[i], known, fact)
}

// ----- compiling geometry -------------------------------------------------

proof fn lemma_aspect_at(list: Seq<Aspect>, i: int)
    requires
        0 <= i < list.len(),
    ensures
        aspect_trees(list).len() == list.len(),
        aspect_trees(list)[i] == list[i].tree(),
{
}

proof fn lemma_region(region: RegionDto, aspect: Aspect, place: Place)
    requires
        aspect.tree() == region_aspect(region),
    ensures
        selects(aspect, place) == in_region(region, place),
{
    let list = aspect->Intersect_0@;
    assert(aspect_trees(list) == region_aspect(region)->Intersect_0);
    lemma_aspect_at(list, 0);
    lemma_aspect_at(list, 1);
    lemma_aspect_at(list, 2);
    assert(selects(list[0], place) == (region.start_frame <= place.frame < region.end_frame));
    assert(selects(list[1], place) == (units(region.min_hz_bits) <= place.frequency < units(
        region.max_hz_bits,
    )));
    assert(selects(list[2], place) == (region.channels & place.channel != 0));
    assert(selects(aspect, place) == every_selects(list, place));
    if every_selects(list, place) {
        assert(selects(list[0], place) && selects(list[1], place) && selects(list[2], place));
    }
    if in_region(region, place) {
        assert forall|i: int| 0 <= i < list.len() implies selects(#[trigger] list[i], place) by {
            assert(i == 0 || i == 1 || i == 2);
        }
    }
}

proof fn lemma_objects(references: Seq<EntityRefKey>, i: int, k: int)
    requires
        0 <= k < i <= references.len(),
        object_aspects(references, i) is Ok,
    ensures
        object_aspects(references, i)->Ok_0.len() == i,
        object_aspect(references[k]) == Ok::<AspectTree, WorkbenchFault>(
            object_aspects(references, i)->Ok_0[k],
        ),
    decreases i,
{
    reveal_with_fuel(object_aspects, 2);
    if i > 1 {
        if k < i - 1 {
            lemma_objects(references, i - 1, k);
        } else {
            lemma_objects(references, i - 1, 0);
        }
    }
}

/// The selector stands for the regions of geometry.
proof fn lemma_regions_part(geometry: AspectGeometryDto, aspect: Aspect, place: Place)
    requires
        aspect.tree() == AspectTree::Union(
            geometry.regions@.map_values(|r: RegionDto| region_aspect(r)),
        ),
    ensures
        selects(aspect, place) <==> exists|i: int|
            0 <= i < geometry.regions@.len() && in_region(#[trigger] geometry.regions@[i], place),
{
    let list = aspect->Union_0@;
    let regions = geometry.regions@;
    assert(aspect_trees(list) == regions.map_values(|r: RegionDto| region_aspect(r)));
    assert(list.len() == regions.len());
    assert forall|i: int| 0 <= i < list.len() implies selects(#[trigger] list[i], place)
        == in_region(regions[i], place) by {
        lemma_aspect_at(list, i);
        lemma_region(regions[i], list[i], place);
    }
    assert(selects(aspect, place) == some_selects(list, place));
    if some_selects(list, place) {
        let i = choose|i: int| 0 <= i < list.len() && selects(#[trigger] list[i], place);
        assert(in_region(regions[i], place));
    }
    if exists|i: int| 0 <= i < regions.len() && in_region(#[trigger] regions[i], place) {
        let i = choose|i: int| 0 <= i < regions.len() && in_region(#[trigger] regions[i], place);
        assert(selects(list[i], place));
    }
}

proof fn lemma_objects_part(geometry: AspectGeometryDto, aspect: Aspect, place: Place)
    requires
        geometry.objects@.len() > 0,
        object_aspects(reference_keys(geometry.objects@), geometry.objects@.len() as int) is Ok,
        aspect.tree() == AspectTree::Union(
            object_aspects(reference_keys(geometry.objects@), geometry.objects@.len() as int)->Ok_0,
        ),
    ensures
        selects(aspect, place) <==> exists|i: int|
            0 <= i < geometry.objects@.len() && sounds(#[trigger] geometry.objects@[i], place),
{
    let list = aspect->Union_0@;
    let objects = geometry.objects@;
    let keys = reference_keys(objects);
    let n = objects.len() as int;
    lemma_objects(keys, n, 0);
    assert(aspect_trees(list) == object_aspects(keys, n)->Ok_0);
    assert forall|i: int| 0 <= i < list.len() implies selects(#[trigger] list[i], place) == sounds(
        objects[i],
        place,
    ) by {
        lemma_aspect_at(list, i);
        lemma_objects(keys, n, i);
        assert(keys[i] == objects[i]@);
    }
    assert(selects(aspect, place) == some_selects(list, place));
    if some_selects(list, place) {
        let i = choose|i: int| 0 <= i < list.len() && selects(#[trigger] list[i], place);
        assert(sounds(objects[i], place));
    }
    if exists|i: int| 0 <= i < objects.len() && sounds(#[trigger] objects[i], place) {
        let i = choose|i: int| 0 <= i < objects.len() && sounds(#[trigger] objects[i], place);
        assert(selects(list[i], place));
    }
}

proof fn lemma_names(reference: EntityRefDto, explanation: ExplanationRef, e: ExplanationRef)
    requires
        explanation_of(reference@) == Ok::<ExplanationRef, WorkbenchFault>(explanation),
    ensures
        names(reference, e) <==> e == explanation,
{
    reveal_strlit("explanation");
    reveal_strlit("reconstruction-proposal");
    reveal_strlit("comparison");
    assert("explanation"@[0] == 'e');
    assert("reconstruction-proposal"@[0] == 'r');
    assert("comparison"@[0] == 'c');
}

/// Geometry compiles to a selector of the places that lie within it.
pub proof fn compiled_geometry_selects_what_lies_within(
    geometry: AspectGeometryDto,
    aspect: Aspect,
    place: Place,
)
    requires
        compiled_aspect(geometry@) == Ok::<AspectTree, WorkbenchFault>(aspect.tree()),
    ensures
        selects(aspect, place) <==> in_geometry(geometry, place),
{
    let keys = reference_keys(geometry.objects@);
    let regions = if geometry.regions@.len() == 0 {
        Seq::<AspectTree>::empty()
    } else {
        seq![
            AspectTree::Union(geometry.regions@.map_values(|r: RegionDto| region_aspect(r))),
        ]
    };
    let found = object_aspects(keys, keys.len() as int)->Ok_0;
    let objects = if geometry.objects@.len() == 0 {
        Seq::<AspectTree>::empty()
    } else {
        seq![AspectTree::Union(found)]
    };
    let signal = crate::query_terms::signal_aspects(geometry@.signal)->Ok_0;
    let parts = regions + objects + signal;
    assert(aspect.tree() == all_of(parts));
    let a = regions.len() as int;
    let b = a + objects.len();
    assert forall|part: Aspect| a > 0 && part.tree() == parts[0] implies (#[trigger] selects(
        part,
        place,
    ) <==> exists|i: int|
        0 <= i < geometry.regions@.len() && in_region(#[trigger] geometry.regions@[i], place)) by {
        lemma_regions_part(geometry, part, place);
    }
    assert forall|part: Aspect| b > a && part.tree() == parts[a] implies (#[trigger] selects(
        part,
        place,
    ) <==> exists|i: int|
        0 <= i < geometry.objects@.len() && sounds(#[trigger] geometry.objects@[i], place)) by {
        lemma_objects_part(geometry, part, place);
    }
    let layer = match geometry.signal {
        SignalLayerDto::Source => true,
        SignalLayerDto::Explanation { reference } => exists|e: ExplanationRef| #[trigger]
            names(reference, e) && place.explained_by.contains(e),
        SignalLayerDto::Residual { reference } => exists|e: ExplanationRef| #[trigger]
            names(reference, e) && place.residual_of.contains(e),
    };
    assert forall|part: Aspect| parts.len() > b && part.tree() == parts[b] implies #[trigger] selects(
        part,
        place,
    ) == layer by {
        match geometry.signal {
            SignalLayerDto::Source => {},
            SignalLayerDto::Explanation { reference } => {
                let explanation = explanation_of(reference@)->Ok_0;
                assert forall|e: ExplanationRef| #[trigger] names(reference, e) <==> e
                    == explanation by {
                    lemma_names(reference, explanation, e);
                }
                assert(names(reference, explanation));
                assert(part == Aspect::ExplainedBy(explanation));
            },
            SignalLayerDto::Residual { reference } => {
                let explanation = explanation_of(reference@)->Ok_0;
                assert forall|e: ExplanationRef| #[trigger] names(reference, e) <==> e
                    == explanation by {
                    lemma_names(reference, explanation, e);
                }
                assert(names(reference, explanation));
                assert(part == Aspect::ResidualOf(explanation));
            },
        }
    }
    assert(parts.len() == b ==> layer);
    if parts.len() == 0 {
        assert(aspect == Aspect::All);
    } else if parts.len() == 1 {
        assert(aspect.tree() == parts[0]);
        let whole = selects(aspect, place);
    } else {
        let list = aspect->Intersect_0@;
        assert(aspect_trees(list) == parts);
        assert(selects(aspect, place) == every_selects(list, place));
        assert forall|i: int| 0 <= i < list.len() implies (#[trigger] list[i]).tree()
            == parts[i] by {
            lemma_aspect_at(list, i);
        }
        if a > 0 {
            let one = selects(list[0], place);
        }
        if b > a {
            let two = selects(list[a], place);
        }
        if parts.len() > b {
            let three = selects(list[b], place);
        }
        if in_geometry(geometry, place) {
            assert forall|i: int| 0 <= i < list.len() implies selects(#[trigger] list[i], place) by {
                assert(i == 0 || i == 1 || i == 2);
            }
        }
    }
}

// ----- compiling terms ----------------------------------------------------

proof fn lemma_compiled_at(terms: Seq<TermTree>, i: int, k: int)
    requires
        0 <= k < i <= terms.len(),
        compiled_list(terms, i) is Ok,
    ensures
        compiled_list(terms, i)->Ok_0.len() == i,
        compiled(terms[k]) == Ok::<QueryTree, WorkbenchFault>(compiled_list(terms, i)->Ok_0[k]),
    decreases i,
{
    reveal_with_fuel(compiled_list, 2);
    if i > 1 {
        if k < i - 1 {
            lemma_compiled_at(terms, i - 1, k);
        } else {
            lemma_compiled_at(terms, i - 1, 0);
        }
    }
}

proof fn lemma_compiled_list(terms: Seq<QueryTermDto>, list: Seq<Query>)
    requires
        compiled_list(term_trees(terms), terms.len() as int) == Ok::<
            Seq<QueryTree>,
            WorkbenchFault,
        >(query_trees(list)),
    ensures
        list.len() == terms.len(),
        forall|i: int|
            0 <= i < terms.len() ==> compiled((#[trigger] terms[i]).tree()) == Ok::<
                QueryTree,
                WorkbenchFault,
            >(list[i].tree()),
{
    let trees = term_trees(terms);
    if terms.len() > 0 {
        lemma_compiled_at(trees, terms.len() as int, 0);
    }
    assert(query_trees(list).len() == list.len());
    assert forall|i: int| 0 <= i < terms.len() implies compiled((#[trigger] terms[i]).tree())
        == Ok::<QueryTree, WorkbenchFault>(list[i].tree()) by {
        lemma_compiled_at(trees, terms.len() as int, i);
        assert(trees[i] == terms[i].tree());
        assert(query_trees(list)[i] == list[i].tree());
    }
}

/// A term that joins others compiles to a query that joins theirs in the same way, one for
/// one: all of them, one of them, or not.
pub proof fn compiling_keeps_how_terms_are_joined(term: QueryTermDto, query: Query)
    requires
        compiled(term.tree()) == Ok::<QueryTree, WorkbenchFault>(query.tree()),
    ensures
        match term {
            QueryTermDto::Kind { kind } => query == Query::Kind(kind),
            QueryTermDto::Within { .. } => query is Within,
            QueryTermDto::NotExplainedBy { proposal_id } => proposal_id != 0 && query
                == Query::NotExplainedBy(proposal_id),
            QueryTermDto::Related { to } => query matches Query::Related { to: inner } && compiled(
                to.tree(),
            ) == Ok::<QueryTree, WorkbenchFault>(inner.tree()),
            QueryTermDto::Not { term: part } => query matches Query::Not(inner) && compiled(
                part.tree(),
            ) == Ok::<QueryTree, WorkbenchFault>(inner.tree()),
            QueryTermDto::And { terms } => query matches Query::And(list) && list@.len()
                == terms@.len() && forall|i: int|
                0 <= i < terms@.len() ==> compiled((#[trigger] terms@[i]).tree()) == Ok::<
                    QueryTree,
                    WorkbenchFault,
                >(list@[i].tree()),
            QueryTermDto::Or { terms } => query matches Query::Or(list) && list@.len()
                == terms@.len() && forall|i: int|
                0 <= i < terms@.len() ==> compiled((#[trigger] terms@[i]).tree()) == Ok::<
                    QueryTree,
                    WorkbenchFault,
                >(list@[i].tree()),
        },
{
    match term {
        QueryTermDto::And { terms } => {
            assert(term_trees(terms@).len() == terms@.len());
            lemma_compiled_list(terms@, query->And_0@);
        },
        QueryTermDto::Or { terms } => {
            assert(term_trees(terms@).len() == terms@.len());
            lemma_compiled_list(terms@, query->Or_0@);
        },
        _ => {},
    }
}

/// Compiling keeps what a term means: the query holds of exactly the facts that the term
/// holds of, whatever is known of them.
pub proof fn compiling_keeps_the_meaning(
    term: QueryTermDto,
    query: Query,
    known: Knowledge,
    fact: int,
)
    requires
        compiled(term.tree()) == Ok::<QueryTree, WorkbenchFault>(query.tree()),
    ensures
        query_holds(query, known, fact) <==> term_holds(term, known, fact),
    decreases term,
{
    compiling_keeps_how_terms_are_joined(term, query);
    match term {
        QueryTermDto::Kind { .. } => {},
        QueryTermDto::NotExplainedBy { .. } => {},
        QueryTermDto::Within { aspect } => {
            let selector = query->Within_0;
            assert forall|place: Place| #[trigger] (known.at)(fact, place) implies selects(
                selector,
                place,
            ) == in_geometry(aspect, place) by {
                compiled_geometry_selects_what_lies_within(aspect, selector, place);
            }
        },
        QueryTermDto::Related { to } => {
            let inner = *query->to;
            assert forall|other: int| #[trigger] (known.related)(fact, other) implies query_holds(
                inner,
                known,
                other,
            ) == term_holds(*to, known, other) by {
                compiling_keeps_the_meaning(*to, inner, known, other);
            }
        },
        QueryTermDto::Not { term: part } => {
            compiling_keeps_the_meaning(*part, *query->Not_0, known, fact);
        },
        QueryTermDto::And { terms } => {
            let list = query->And_0@;
            assert forall|i: int| 0 <= i < terms@.len() implies query_holds(
                #[trigger] list[i],
                known,
                fact,
            ) == term_holds(terms@[i], known, fact) by {
                compiling_keeps_the_meaning(terms@[i], list[i], known, fact);
            }
            assert(query_holds(query, known, fact) == every_query_holds(list, known, fact));
            assert(term_holds(term, known, fact) == every_term_holds(terms@, known, fact));
            if every_query_holds(list, known, fact) {
                assert forall|i: int| 0 <= i < terms@.len() implies term_holds(
                    #[trigger] terms@[i],
                    known,
                    fact,
                ) by {
                    assert(query_holds(list[i], known, fact));
                }
            }
        },
        QueryTermDto::Or { terms } => {
            let list = query->Or_0@;
            assert forall|i: int| 0 <= i < terms@.len() implies query_holds(
                #[trigger] list[i],
                known,
                fact,
            ) == term_holds(terms@[i], known, fact) by {
                compiling_keeps_the_meaning(terms@[i], list[i], known, fact);
            }
            assert(query_holds(query, known, fact) == some_query_holds(list, known, fact));
            assert(term_holds(term, known, fact) == some_term_holds(terms@, known, fact));
            if some_query_holds(list, known, fact) {
                let i = choose|i: int|
                    0 <= i < list.len() && query_holds(#[trigger] list[i], known, fact);
                assert(term_holds(terms@[i], known, fact));
            }
            if some_term_holds(terms@, known, fact) {
                let i = choose|i: int|
                    0 <= i < terms@.len() && term_holds(#[trigger] terms@[i], known, fact);
                assert(query_holds(list[i], known, fact));
            }
        },
    }
}

// ----- what compiles ------------------------------------------------------

/// Whether a region has a frame and a band of finite numbers above nothing.
pub open spec fn usable_region(region: RegionDto) -> bool {
    &&& region.start_frame < region.end_frame
    &&& is_finite(region.min_hz_bits) && is_finite(region.max_hz_bits)
    &&& 0 <= units(region.min_hz_bits) < units(region.max_hz_bits)
}

/// Whether a reference names an object of the project.
pub open spec fn usable_object(object: EntityRefDto) -> bool {
    object matches EntityRefDto::Project { kind, local_id } && kind@ == "air-object"@ && local_id
        != 0
}

/// Whether a reference names an explanation, a proposal or a comparison of the project.
pub open spec fn usable_signal(reference: EntityRefDto) -> bool {
    reference matches EntityRefDto::Project { kind, local_id } && local_id != 0 && (kind@
        == "explanation"@ || kind@ == "reconstruction-proposal"@ || kind@ == "comparison"@)
}

/// Whether all that geometry holds can be used in a project.
pub open spec fn usable_geometry(geometry: AspectGeometryDto) -> bool {
    &&& forall|i: int|
        0 <= i < geometry.regions@.len() ==> usable_region(#[trigger] geometry.regions@[i])
    &&& forall|i: int|
        0 <= i < geometry.objects@.len() ==> usable_object(#[trigger] geometry.objects@[i])
    &&& match geometry.signal {
        SignalLayerDto::Source => true,
        SignalLayerDto::Explanation { reference } => usable_signal(reference),
        SignalLayerDto::Residual { reference } => usable_signal(reference),
    }
}

proof fn lemma_regions(regions: Seq<RegionDto>, i: int)
    requires
        0 <= i <= regions.len(),
    ensures
        regions_fault(regions, i) is None <==> forall|k: int|
            i <= k < regions.len() ==> usable_region(#[trigger] regions[k]),
    decreases regions.len() - i,
{
    if i < regions.len() {
        let region = regions[i];
        if is_finite(region.min_hz_bits) && is_finite(region.max_hz_bits) {
            bit_patterns_are_ordered_as_numbers(region.min_hz_bits, region.max_hz_bits);
            bit_patterns_are_ordered_as_numbers(region.min_hz_bits, 0);
            assert(units(0) == 0);
        }
        lemma_regions(regions, i + 1);
    }
}

proof fn lemma_references(references: Seq<EntityRefKey>, i: int)
    requires
        0 <= i <= references.len(),
    ensures
        references_fault(references, i) is None <==> forall|k: int|
            i <= k < references.len() ==> valid_reference(#[trigger] references[k]),
    decreases references.len() - i,
{
    if i < references.len() {
        lemma_references(references, i + 1);
    }
}

proof fn lemma_known_kinds_are_tokens()
    ensures
        is_token("air-object"@),
        is_token("explanation"@),
        is_token("reconstruction-proposal"@),
        is_token("comparison"@),
{
    reveal_strlit("air-object");
    reveal_strlit("explanation");
    reveal_strlit("reconstruction-proposal");
    reveal_strlit("comparison");
}

proof fn lemma_all_objects(references: Seq<EntityRefKey>, i: int)
    requires
        0 <= i <= references.len(),
    ensures
        object_aspects(references, i) is Ok <==> forall|k: int|
            0 <= k < i ==> object_aspect(#[trigger] references[k]) is Ok,
    decreases i,
{
    if i > 0 {
        lemma_all_objects(references, i - 1);
    }
}

/// Geometry compiles exactly if every region has frames and a band, every object is one of
/// the project, and its signal layer names something of the project.
pub proof fn usable_geometry_compiles(geometry: AspectGeometryDto)
    ensures
        compiled_aspect(geometry@) is Ok <==> usable_geometry(geometry),
{
    let objects = geometry.objects@;
    let keys = reference_keys(objects);
    lemma_regions(geometry.regions@, 0);
    lemma_references(keys, 0);
    lemma_all_objects(keys, keys.len() as int);
    lemma_known_kinds_are_tokens();
    assert forall|i: int| 0 <= i < objects.len() implies (usable_object(#[trigger] objects[i])
        <==> object_aspect(keys[i]) is Ok) && (usable_object(objects[i]) ==> valid_reference(
        keys[i],
    )) by {
        assert(keys[i] == objects[i]@);
    }
    if usable_geometry(geometry) {
        assert forall|k: int| 0 <= k < keys.len() implies object_aspect(#[trigger] keys[k]) is Ok
            && valid_reference(keys[k]) by {
            assert(usable_object(objects[k]));
        }
    }
    if compiled_aspect(geometry@) is Ok {
        assert forall|i: int| 0 <= i < objects.len() implies usable_object(#[trigger] objects[i]) by {
            assert(object_aspect(keys[i]) is Ok);
        }
    }
}

/// Whether all parts of a term can be used in a project.
pub open spec fn usable_term(term: QueryTermDto) -> bool
    decreases term, 1int,
{
    match term {
        QueryTermDto::Kind { .. } => true,
        QueryTermDto::Within { aspect } => usable_geometry(aspect),
        QueryTermDto::Related { to } => usable_term(*to),
        QueryTermDto::NotExplainedBy { proposal_id } => proposal_id > 0,
        QueryTermDto::And { terms } => usable_terms(terms@),
        QueryTermDto::Or { terms } => usable_terms(terms@),
        QueryTermDto::Not { term } => usable_term(*term),
    }
}

/// Whether all terms can be used in a project.
pub open spec fn usable_terms(terms: Seq<QueryTermDto>) -> bool
    decreases terms, 0int,
{
    forall|i: int| 0 <= i < terms.len() ==> usable_term(#[trigger] terms[i])
}

proof fn lemma_list_compiles(terms: Seq<TermTree>, i: int)
    requires
        0 <= i <= terms.len(),
    ensures
        compiled_list(terms, i) is Ok <==> forall|k: int|
            0 <= k < i ==> compiled(#[trigger] terms[k]) is Ok,
    decreases i,
{
    if i > 0 {
        lemma_list_compiles(terms, i - 1);
    }
}

/// A term compiles exactly if all of its parts can be used.
pub proof fn usable_terms_compile(term: QueryTermDto)
    ensures
        compiled(term.tree()) is Ok <==> usable_term(term),
    decreases term, 1int,
{
    match term {
        QueryTermDto::Within { aspect } => {
            usable_geometry_compiles(aspect);
        },
        QueryTermDto::Related { to } => {
            usable_terms_compile(*to);
        },
        QueryTermDto::Not { term: part } => {
            usable_terms_compile(*part);
        },
        QueryTermDto::And { terms } => {
            lemma_usable_list(terms@);
        },
        QueryTermDto::Or { terms } => {
            lemma_usable_list(terms@);
        },
        _ => {},
    }
}

proof fn lemma_usable_list(terms: Seq<QueryTermDto>)
    ensures
        term_trees(terms).len() == terms.len(),
        compiled_list(term_trees(terms), terms.len() as int) is Ok <==> usable_terms(terms),
    decreases terms, 0int,
{
    let trees = term_trees(terms);
    lemma_list_compiles(trees, terms.len() as int);
    assert forall|i: int| 0 <= i < terms.len() implies (compiled(#[trigger] trees[i]) is Ok
        <==> usable_term(terms[i])) by {
        assert(trees[i] == terms[i].tree());
        usable_terms_compile(terms[i]);
    }
    if usable_terms(terms) {
        assert forall|k: int| 0 <= k < terms.len() implies compiled(#[trigger] trees[k]) is Ok by {
            assert(usable_term(terms[k]));
        }
    }
    if forall|k: int| 0 <= k < terms.len() ==> compiled(#[trigger] trees[k]) is Ok {
        assert forall|i: int| 0 <= i < terms.len() implies usable_term(#[trigger] terms[i]) by {
            assert(compiled(trees[i]) is Ok);
        }
    }
}

} // verus!
