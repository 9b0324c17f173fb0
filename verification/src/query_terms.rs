//! Query terms: what they compile to, how they are labelled, and how a draft
//! term is edited by path.

use vstd::prelude::*;
use vstd::string::*;

use crate::navigation::{
    AspectGeometryDto, EntityRefDto, EntityRefKey, GeometryView, RegionDto, SignalLayerDto,
    SignalView,
};
use crate::text::{append_decimal, decimal, owned, same_text};
use crate::workbench_error::{check_view, WorkbenchError, WorkbenchFault};

verus! {

/// The kinds of fact that a query ranges over.
#[derive(Clone, Copy, Debug, PartialEq, Eq, Structural)]
pub enum FactKindDto {
    Object,
    Source,
    Parameter,
    Hypothesis,
}

/// A query term that can be persisted. Geometry is concrete, so that a term
/// holds no handle into a running session.
#[derive(Debug, PartialEq, Eq)]
pub enum QueryTermDto {
    Kind { kind: FactKindDto },
    Within { aspect: AspectGeometryDto },
    Related { to: Box<QueryTermDto> },
    NotExplainedBy { proposal_id: u64 },
    And { terms: Vec<QueryTermDto> },
    Or { terms: Vec<QueryTermDto> },
    Not { term: Box<QueryTermDto> },
}

/// The shape of a query term.
pub enum TermTree {
    Kind(FactKindDto),
    Within(GeometryView),
    Related(Box<TermTree>),
    NotExplainedBy(u64),
    And(Seq<TermTree>),
    Or(Seq<TermTree>),
    Not(Box<TermTree>),
}

/// The shapes of a list of terms.
pub open spec fn term_trees(terms: Seq<QueryTermDto>) -> Seq<TermTree>
    decreases terms, 0int,
{
    Seq::new(
        terms.len(),
        |i: int|
            if 0 <= i < terms.len() {
                terms[i].tree()
            } else {
                TermTree::NotExplainedBy(0)
            },
    )
}

impl QueryTermDto {
    /// The shape of the term.
    pub open spec fn tree(&self) -> TermTree
        decreases self, 1int,
    {
        match *self {
            QueryTermDto::Kind { kind } => TermTree::Kind(kind),
            QueryTermDto::Within { aspect } => TermTree::Within(aspect@),
            QueryTermDto::Related { to } => TermTree::Related(Box::new(to.tree())),
            QueryTermDto::NotExplainedBy { proposal_id } => TermTree::NotExplainedBy(proposal_id),
            QueryTermDto::And { terms } => TermTree::And(term_trees(terms@)),
            QueryTermDto::Or { terms } => TermTree::Or(term_trees(terms@)),
            QueryTermDto::Not { term } => TermTree::Not(Box::new(term.tree())),
        }
    }
}

/// What a signal reference explains.
#[derive(Clone, Copy, Debug, PartialEq, Eq, Structural)]
pub enum ExplanationRef {
    Definition(u64),
    Proposal(u64),
    Comparison(u64),
}

/// A selector of a part of the project's material.
#[derive(Debug, PartialEq, Eq)]
pub enum Aspect {
    All,
    Time { start_frame: i64, end_frame: i64 },
    Band { min_hz_bits: u32, max_hz_bits: u32 },
    Channels(u16),
    Object(u64),
    ExplainedBy(ExplanationRef),
    ResidualOf(ExplanationRef),
    Union(Vec<Aspect>),
    Intersect(Vec<Aspect>),
}

/// The shape of a selector.
pub enum AspectTree {
    All,
    Time { start_frame: i64, end_frame: i64 },
    Band { min_hz_bits: u32, max_hz_bits: u32 },
    Channels(u16),
    Object(u64),
    ExplainedBy(ExplanationRef),
    ResidualOf(ExplanationRef),
    Union(Seq<AspectTree>),
    Intersect(Seq<AspectTree>),
}

/// The shapes of a list of selectors.
pub open spec fn aspect_trees(list: Seq<Aspect>) -> Seq<AspectTree>
    decreases list, 0int,
{
    Seq::new(
        list.len(),
        |i: int|
            if 0 <= i < list.len() {
                list[i].tree()
            } else {
                AspectTree::All
            },
    )
}

impl Aspect {
    /// The shape of the selector.
    pub open spec fn tree(&self) -> AspectTree
        decreases self, 1int,
    {
        match *self {
            Aspect::All => AspectTree::All,
            Aspect::Time { start_frame, end_frame } => AspectTree::Time { start_frame, end_frame },
            Aspect::Band { min_hz_bits, max_hz_bits } => AspectTree::Band {
                min_hz_bits,
                max_hz_bits,
            },
            Aspect::Channels(mask) => AspectTree::Channels(mask),
            Aspect::Object(id) => AspectTree::Object(id),
            Aspect::ExplainedBy(reference) => AspectTree::ExplainedBy(reference),
            Aspect::ResidualOf(reference) => AspectTree::ResidualOf(reference),
            Aspect::Union(list) => AspectTree::Union(aspect_trees(list@)),
            Aspect::Intersect(list) => AspectTree::Intersect(aspect_trees(list@)),
        }
    }
}

/// A query over the facts of a project.
#[derive(Debug, PartialEq, Eq)]
pub enum Query {
    Kind(FactKindDto),
    Within(Aspect),
    Related { to: Box<Query> },
    NotExplainedBy(u64),
    And(Vec<Query>),
    Or(Vec<Query>),
    Not(Box<Query>),
}

/// The shape of a query.
pub enum QueryTree {
    Kind(FactKindDto),
    Within(AspectTree),
    Related(Box<QueryTree>),
    NotExplainedBy(u64),
    And(Seq<QueryTree>),
    Or(Seq<QueryTree>),
    Not(Box<QueryTree>),
}

/// The shapes of a list of queries.
pub open spec fn query_trees(list: Seq<Query>) -> Seq<QueryTree>
    decreases list, 0int,
{
    Seq::new(
        list.len(),
        |i: int|
            if 0 <= i < list.len() {
                list[i].tree()
            } else {
                QueryTree::NotExplainedBy(0)
            },
    )
}

impl Query {
    /// The shape of the query.
    pub open spec fn tree(&self) -> QueryTree
        decreases self, 1int,
    {
        match *self {
            Query::Kind(kind) => QueryTree::Kind(kind),
            Query::Within(aspect) => QueryTree::Within(aspect.tree()),
            Query::Related { to } => QueryTree::Related(Box::new(to.tree())),
            Query::NotExplainedBy(id) => QueryTree::NotExplainedBy(id),
            Query::And(list) => QueryTree::And(query_trees(list@)),
            Query::Or(list) => QueryTree::Or(query_trees(list@)),
            Query::Not(inner) => QueryTree::Not(Box::new(inner.tree())),
        }
    }
}

// ----- geometry ---------------------------------------------------------

/// The first region from index `i` on that is not valid.
pub open spec fn regions_fault(regions: Seq<RegionDto>, i: int) -> Option<WorkbenchFault>
    decreases regions.len() - i,
{
    if i < 0 || i >= regions.len() {
        None
    } else if !regions[i].is_valid() {
        Some(WorkbenchFault::InvalidRegion(regions[i]))
    } else {
        regions_fault(regions, i + 1)
    }
}

/// The first reference from index `i` on that is not valid.
pub open spec fn references_fault(references: Seq<EntityRefKey>, i: int) -> Option<WorkbenchFault>
    decreases references.len() - i,
{
    if i < 0 || i >= references.len() {
        None
    } else if !crate::navigation::valid_reference(references[i]) {
        Some(WorkbenchFault::InvalidEntity(references[i]))
    } else {
        references_fault(references, i + 1)
    }
}

/// The reference of a signal layer, if it has one.
pub open spec fn signal_reference(signal: SignalView) -> Option<EntityRefKey> {
    match signal {
        SignalView::Source => None,
        SignalView::Explanation(reference) => Some(reference),
        SignalView::Residual(reference) => Some(reference),
    }
}

/// The first thing that is wrong with geometry.
pub open spec fn geometry_fault(geometry: GeometryView) -> Option<WorkbenchFault> {
    if regions_fault(geometry.regions, 0) is Some {
        regions_fault(geometry.regions, 0)
    } else if references_fault(geometry.objects, 0) is Some {
        references_fault(geometry.objects, 0)
    } else {
        match signal_reference(geometry.signal) {
            None => None,
            Some(reference) => if crate::navigation::valid_reference(reference) {
                None
            } else {
                Some(WorkbenchFault::InvalidEntity(reference))
            },
        }
    }
}

/// Refuses geometry with an invalid region or reference, naming the first.
pub fn validate_geometry(dto: &AspectGeometryDto) -> (r: Result<(), WorkbenchError>)
    ensures
        check_view(r) == geometry_fault(dto@),
{
    let mut i: usize = 0;
    while i < dto.regions.len()
        invariant
            i <= dto.regions.len(),
            regions_fault(dto@.regions, 0) == regions_fault(dto@.regions, i as int),
        decreases dto.regions.len() - i,
    {
        if !dto.regions[i].valid() {
            return Err(WorkbenchError::InvalidRegion(dto.regions[i]));
        }
        i = i + 1;
    }
    let mut k: usize = 0;
    while k < dto.objects.len()
        invariant
            k <= dto.objects.len(),
            regions_fault(dto@.regions, 0) is None,
            references_fault(dto@.objects, 0) == references_fault(dto@.objects, k as int),
        decreases dto.objects.len() - k,
    {
        assert(dto@.objects[k as int] == dto.objects@[k as int]@);
        if !dto.objects[k].valid() {
            return Err(WorkbenchError::InvalidEntity(dto.objects[k].clone()));
        }
        k = k + 1;
    }
    match dto.signal.reference() {
        None => Ok(()),
        Some(reference) => if reference.valid() {
            Ok(())
        } else {
            Err(WorkbenchError::InvalidEntity(reference.clone()))
        },
    }
}

// ----- compilation ------------------------------------------------------

/// The selector of one region.
pub open spec fn region_aspect(region: RegionDto) -> AspectTree {
    AspectTree::Intersect(
        seq![
            AspectTree::Time { start_frame: region.start_frame, end_frame: region.end_frame },
            AspectTree::Band {
                min_hz_bits: region.min_hz_bits,
                max_hz_bits: region.max_hz_bits,
            },
            AspectTree::Channels(region.channels),
        ],
    )
}

/// The text that `std` writes for a text under `{:?}`.
pub uninterp spec fn debug_text(text: Seq<char>) -> Seq<char>;

/// Calls the `Debug` formatting of `str`. The contract claims that what it
/// writes depends on the text alone.
#[verifier::external_body]
pub(crate) fn quoted(text: &str) -> (r: String)
    ensures
        r@ == debug_text(text@),
{
    format!("{:?}", text)
}

/// The message for a reference that is no object of the project.
pub open spec fn not_an_object(kind: Seq<char>, local_id: u64) -> Seq<char> {
    "Project { kind: "@ + debug_text(kind) + ", local_id: "@ + decimal(local_id as nat)
        + " } is not an AIR object"@
}

/// What one object reference selects.
pub open spec fn object_aspect(reference: EntityRefKey) -> Result<AspectTree, WorkbenchFault> {
    match reference {
        EntityRefKey::Project { kind, local_id } => if kind == "air-object"@ && local_id != 0 {
            Ok(AspectTree::Object(local_id))
        } else {
            Err(WorkbenchFault::InvalidQuery(not_an_object(kind, local_id)))
        },
        EntityRefKey::Reading(_) => Err(
            WorkbenchFault::QualifiedReferenceInProjectQuery(reference),
        ),
    }
}

/// What the first `i` object references select, or the first refusal.
pub open spec fn object_aspects(references: Seq<EntityRefKey>, i: int) -> Result<
    Seq<AspectTree>,
    WorkbenchFault,
>
    decreases i,
{
    if i <= 0 {
        Ok(Seq::empty())
    } else {
        match object_aspects(references, i - 1) {
            Err(fault) => Err(fault),
            Ok(done) => match object_aspect(references[i - 1]) {
                Err(fault) => Err(fault),
                Ok(aspect) => Ok(done.push(aspect)),
            },
        }
    }
}

proof fn lemma_object_error(references: Seq<EntityRefKey>, i: int, j: int)
    requires
        0 <= i <= j,
        object_aspects(references, i) is Err,
    ensures
        object_aspects(references, j) == object_aspects(references, i),
    decreases j - i,
{
    if i < j {
        lemma_object_error(references, i, j - 1);
    }
}

/// What a signal reference of the project explains.
pub open spec fn explanation_of(reference: EntityRefKey) -> Result<ExplanationRef, WorkbenchFault> {
    match reference {
        EntityRefKey::Project { kind, local_id } => if local_id == 0 {
            Err(WorkbenchFault::InvalidQuery("signal reference id cannot be zero"@))
        } else if kind == "explanation"@ {
            Ok(ExplanationRef::Definition(local_id))
        } else if kind == "reconstruction-proposal"@ {
            Ok(ExplanationRef::Proposal(local_id))
        } else if kind == "comparison"@ {
            Ok(ExplanationRef::Comparison(local_id))
        } else {
            Err(WorkbenchFault::InvalidQuery("unsupported signal reference kind "@ + kind))
        },
        EntityRefKey::Reading(_) => Err(
            WorkbenchFault::QualifiedReferenceInProjectQuery(reference),
        ),
    }
}

/// What a signal layer selects.
pub open spec fn signal_aspects(signal: SignalView) -> Result<Seq<AspectTree>, WorkbenchFault> {
    match signal {
        SignalView::Source => Ok(Seq::empty()),
        SignalView::Explanation(reference) => match explanation_of(reference) {
            Ok(explanation) => Ok(seq![AspectTree::ExplainedBy(explanation)]),
            Err(fault) => Err(fault),
        },
        SignalView::Residual(reference) => match explanation_of(reference) {
            Ok(explanation) => Ok(seq![AspectTree::ResidualOf(explanation)]),
            Err(fault) => Err(fault),
        },
    }
}

/// All terms at once: everything, the one term, or what all terms share.
pub open spec fn all_of(terms: Seq<AspectTree>) -> AspectTree {
    if terms.len() == 0 {
        AspectTree::All
    } else if terms.len() == 1 {
        terms[0]
    } else {
        AspectTree::Intersect(terms)
    }
}

/// What geometry selects: the union of its regions, the union of its objects
/// and its signal layer, all at once.
pub open spec fn compiled_aspect(geometry: GeometryView) -> Result<AspectTree, WorkbenchFault> {
    match geometry_fault(geometry) {
        Some(fault) => Err(fault),
        None => {
            let regions = if geometry.regions.len() == 0 {
                Seq::<AspectTree>::empty()
            } else {
                seq![
                    AspectTree::Union(geometry.regions.map_values(|r: RegionDto| region_aspect(r))),
                ]
            };
            match object_aspects(geometry.objects, geometry.objects.len() as int) {
                Err(fault) => Err(fault),
                Ok(list) => {
                    let objects = if geometry.objects.len() == 0 {
                        Seq::<AspectTree>::empty()
                    } else {
                        seq![AspectTree::Union(list)]
                    };
                    match signal_aspects(geometry.signal) {
                        Err(fault) => Err(fault),
                        Ok(signal) => Ok(all_of(regions + objects + signal)),
                    }
                },
            }
        },
    }
}

fn compile_regions(regions: &Vec<RegionDto>) -> (r: Vec<Aspect>)
    ensures
        aspect_trees(r@) == regions@.map_values(|r: RegionDto| region_aspect(r)),
{
    let mut out: Vec<Aspect> = Vec::new();
    let mut i: usize = 0;
    while i < regions.len()
        invariant
            i <= regions.len(),
            out@.len() == i,
            forall|j: int| 0 <= j < i ==> (#[trigger] out@[j]).tree() == region_aspect(regions@[j]),
        decreases regions.len() - i,
    {
        let region = regions[i];
        let mut parts: Vec<Aspect> = Vec::new();
        parts.push(Aspect::Time { start_frame: region.start_frame, end_frame: region.end_frame });
        parts.push(
            Aspect::Band { min_hz_bits: region.min_hz_bits, max_hz_bits: region.max_hz_bits },
        );
        parts.push(Aspect::Channels(region.channels));
        let ghost inner = parts@;
        let aspect = Aspect::Intersect(parts);
        proof {
            assert(aspect_trees(inner) =~= region_aspect(region)->Intersect_0);
            assert(aspect.tree() == region_aspect(region));
        }
        out.push(aspect);
        i = i + 1;
    }
    assert(aspect_trees(out@) =~= regions@.map_values(|r: RegionDto| region_aspect(r)));
    out
}

fn compile_objects(objects: &Vec<EntityRefDto>) -> (r: Result<Vec<Aspect>, WorkbenchError>)
    ensures
        ({
            let keys = crate::navigation::reference_keys(objects@);
            match r {
                Ok(list) => object_aspects(keys, keys.len() as int) == Ok::<
                    Seq<AspectTree>,
                    WorkbenchFault,
                >(aspect_trees(list@)),
                Err(error) => object_aspects(keys, keys.len() as int) == Err::<
                    Seq<AspectTree>,
                    WorkbenchFault,
                >(error@),
            }
        }),
{
    let ghost keys = crate::navigation::reference_keys(objects@);
    let mut out: Vec<Aspect> = Vec::new();
    let mut i: usize = 0;
    assert(aspect_trees(out@) =~= Seq::<AspectTree>::empty());
    while i < objects.len()
        invariant
            i <= objects.len(),
            keys == crate::navigation::reference_keys(objects@),
            object_aspects(keys, i as int) == Ok::<Seq<AspectTree>, WorkbenchFault>(
                aspect_trees(out@),
            ),
        decreases objects.len() - i,
    {
        assert(keys[i as int] == objects@[i as int]@);
        match &objects[i] {
            EntityRefDto::Project { kind, local_id } => {
                if same_text(kind.as_str(), "air-object") && *local_id != 0 {
                    let ghost before = out@;
                    let aspect = Aspect::Object(*local_id);
                    out.push(aspect);
                    proof {
                        assert(aspect.tree() == AspectTree::Object(*local_id));
                        assert(aspect_trees(out@) =~= aspect_trees(before).push(aspect.tree()));
                    }
                } else {
                    let mut message = owned("Project { kind: ");
                    message.append(quoted(kind.as_str()).as_str());
                    message.append(", local_id: ");
                    append_decimal(&mut message, *local_id);
                    message.append(" } is not an AIR object");
                    proof {
                        assert(message@ == not_an_object(kind@, *local_id));
                        lemma_object_error(keys, i as int + 1, keys.len() as int);
                    }
                    return Err(WorkbenchError::InvalidQuery(message));
                }
            },
            EntityRefDto::Reading(_) => {
                proof {
                    lemma_object_error(keys, i as int + 1, keys.len() as int);
                }
                return Err(WorkbenchError::QualifiedReferenceInProjectQuery(objects[i].clone()));
            },
        }
        i = i + 1;
    }
    Ok(out)
}

fn project_explanation(reference: &EntityRefDto) -> (r: Result<ExplanationRef, WorkbenchError>)
    ensures
        match r {
            Ok(explanation) => explanation_of(reference@) == Ok::<ExplanationRef, WorkbenchFault>(
                explanation,
            ),
            Err(error) => explanation_of(reference@) == Err::<ExplanationRef, WorkbenchFault>(
                error@,
            ),
        },
{
    match reference {
        EntityRefDto::Project { kind, local_id } => {
            if *local_id == 0 {
                Err(WorkbenchError::InvalidQuery(owned("signal reference id cannot be zero")))
            } else if same_text(kind.as_str(), "explanation") {
                Ok(ExplanationRef::Definition(*local_id))
            } else if same_text(kind.as_str(), "reconstruction-proposal") {
                Ok(ExplanationRef::Proposal(*local_id))
            } else if same_text(kind.as_str(), "comparison") {
                Ok(ExplanationRef::Comparison(*local_id))
            } else {
                let mut message = owned("unsupported signal reference kind ");
                message.append(kind.as_str());
                Err(WorkbenchError::InvalidQuery(message))
            }
        },
        EntityRefDto::Reading(_) => Err(
            WorkbenchError::QualifiedReferenceInProjectQuery(reference.clone()),
        ),
    }
}

/// Compiles geometry to a selector.
pub fn compile_aspect(dto: &AspectGeometryDto) -> (r: Result<Aspect, WorkbenchError>)
    ensures
        match r {
            Ok(aspect) => compiled_aspect(dto@) == Ok::<AspectTree, WorkbenchFault>(aspect.tree()),
            Err(error) => compiled_aspect(dto@) == Err::<AspectTree, WorkbenchFault>(error@),
        },
{
    match validate_geometry(dto) {
        Ok(()) => {},
        Err(error) => {
            return Err(error);
        },
    }
    let mut terms: Vec<Aspect> = Vec::new();
    let ghost regions = if dto@.regions.len() == 0 {
        Seq::<AspectTree>::empty()
    } else {
        seq![AspectTree::Union(dto@.regions.map_values(|r: RegionDto| region_aspect(r)))]
    };
    if dto.regions.len() != 0 {
        terms.push(Aspect::Union(compile_regions(&dto.regions)));
    }
    assert(aspect_trees(terms@) =~= regions);
    let list = match compile_objects(&dto.objects) {
        Ok(list) => list,
        Err(error) => {
            return Err(error);
        },
    };
    let ghost objects = if dto@.objects.len() == 0 {
        Seq::<AspectTree>::empty()
    } else {
        seq![AspectTree::Union(aspect_trees(list@))]
    };
    if dto.objects.len() != 0 {
        terms.push(Aspect::Union(list));
    }
    assert(aspect_trees(terms@) =~= regions + objects);
    match &dto.signal {
        SignalLayerDto::Source => {
            assert(regions + objects + Seq::<AspectTree>::empty() =~= regions + objects);
        },
        SignalLayerDto::Explanation { reference } => match project_explanation(reference) {
            Ok(explanation) => {
                terms.push(Aspect::ExplainedBy(explanation));
                assert(aspect_trees(terms@) =~= regions + objects + seq![
                    AspectTree::ExplainedBy(explanation),
                ]);
            },
            Err(error) => {
                return Err(error);
            },
        },
        SignalLayerDto::Residual { reference } => match project_explanation(reference) {
            Ok(explanation) => {
                terms.push(Aspect::ResidualOf(explanation));
                assert(aspect_trees(terms@) =~= regions + objects + seq![
                    AspectTree::ResidualOf(explanation),
                ]);
            },
            Err(error) => {
                return Err(error);
            },
        },
    }
    let ghost trees = aspect_trees(terms@);
    if terms.len() == 0 {
        assert(trees.len() == 0);
        return Ok(Aspect::All);
    }
    if terms.len() == 1 {
        let only = terms.remove(0);
        assert(trees[0] == only.tree());
        return Ok(only);
    }
    Ok(Aspect::Intersect(terms))
}

/// What a query term compiles to, or the first refusal from the left.
pub open spec fn compiled(term: TermTree) -> Result<QueryTree, WorkbenchFault>
    decreases term, 0int,
{
    match term {
        TermTree::Kind(kind) => Ok(QueryTree::Kind(kind)),
        TermTree::Within(geometry) => match compiled_aspect(geometry) {
            Ok(aspect) => Ok(QueryTree::Within(aspect)),
            Err(fault) => Err(fault),
        },
        TermTree::Related(to) => match compiled(*to) {
            Ok(query) => Ok(QueryTree::Related(Box::new(query))),
            Err(fault) => Err(fault),
        },
        TermTree::NotExplainedBy(proposal) => if proposal != 0 {
            Ok(QueryTree::NotExplainedBy(proposal))
        } else {
            Err(WorkbenchFault::InvalidQuery("a reconstruction proposal id cannot be zero"@))
        },
        TermTree::And(terms) => match compiled_list(terms, terms.len() as int) {
            Ok(list) => Ok(QueryTree::And(list)),
            Err(fault) => Err(fault),
        },
        TermTree::Or(terms) => match compiled_list(terms, terms.len() as int) {
            Ok(list) => Ok(QueryTree::Or(list)),
            Err(fault) => Err(fault),
        },
        TermTree::Not(inner) => match compiled(*inner) {
            Ok(query) => Ok(QueryTree::Not(Box::new(query))),
            Err(fault) => Err(fault),
        },
    }
}

/// What the first `i` terms of a list compile to, or the first refusal.
pub open spec fn compiled_list(terms: Seq<TermTree>, i: int) -> Result<
    Seq<QueryTree>,
    WorkbenchFault,
>
    decreases terms, i,
{
    if i <= 0 || i > terms.len() {
        Ok(Seq::empty())
    } else {
        match compiled_list(terms, i - 1) {
            Err(fault) => Err(fault),
            Ok(done) => match compiled(terms[i - 1]) {
                Err(fault) => Err(fault),
                Ok(query) => Ok(done.push(query)),
            },
        }
    }
}

proof fn lemma_compile_error(terms: Seq<TermTree>, i: int, j: int)
    requires
        0 <= i <= j <= terms.len(),
        compiled_list(terms, i) is Err,
    ensures
        compiled_list(terms, j) == compiled_list(terms, i),
    decreases j - i,
{
    if i < j {
        lemma_compile_error(terms, i, j - 1);
    }
}

fn compile_terms(terms: &Vec<QueryTermDto>) -> (r: Result<Vec<Query>, WorkbenchError>)
    ensures
        ({
            let trees = term_trees(terms@);
            match r {
                Ok(list) => compiled_list(trees, trees.len() as int) == Ok::<
                    Seq<QueryTree>,
                    WorkbenchFault,
                >(query_trees(list@)),
                Err(error) => compiled_list(trees, trees.len() as int) == Err::<
                    Seq<QueryTree>,
                    WorkbenchFault,
                >(error@),
            }
        }),
    decreases terms@, 0int,
{
    let ghost trees = term_trees(terms@);
    let mut out: Vec<Query> = Vec::new();
    let mut i: usize = 0;
    assert(query_trees(out@) =~= Seq::<QueryTree>::empty());
    while i < terms.len()
        invariant
            i <= terms.len(),
            trees == term_trees(terms@),
            compiled_list(trees, i as int) == Ok::<Seq<QueryTree>, WorkbenchFault>(
                query_trees(out@),
            ),
        decreases terms.len() - i,
    {
        assert(trees[i as int] == terms@[i as int].tree());
        match terms[i].compile() {
            Ok(query) => {
                let ghost before = out@;
                out.push(query);
                assert(query_trees(out@) =~= query_trees(before).push(query.tree()));
            },
            Err(error) => {
                proof {
                    lemma_compile_error(trees, i as int + 1, trees.len() as int);
                }
                return Err(error);
            },
        }
        i = i + 1;
    }
    Ok(out)
}

impl QueryTermDto {
    /// Compiles the term to a query over the facts of the project.
    pub fn compile(&self) -> (r: Result<Query, WorkbenchError>)
        ensures
            match r {
                Ok(query) => compiled(self.tree()) == Ok::<QueryTree, WorkbenchFault>(query.tree()),
                Err(error) => compiled(self.tree()) == Err::<QueryTree, WorkbenchFault>(error@),
            },
        decreases self, 1int,
    {
        match self {
            QueryTermDto::Kind { kind } => Ok(Query::Kind(*kind)),
            QueryTermDto::Within { aspect } => match compile_aspect(aspect) {
                Ok(aspect) => Ok(Query::Within(aspect)),
                Err(error) => Err(error),
            },
            QueryTermDto::Related { to } => match to.compile() {
                Ok(query) => Ok(Query::Related { to: Box::new(query) }),
                Err(error) => Err(error),
            },
            QueryTermDto::NotExplainedBy { proposal_id } => if *proposal_id != 0 {
                Ok(Query::NotExplainedBy(*proposal_id))
            } else {
                Err(
                    WorkbenchError::InvalidQuery(
                        owned("a reconstruction proposal id cannot be zero"),
                    ),
                )
            },
            QueryTermDto::And { terms } => match compile_terms(terms) {
                Ok(list) => Ok(Query::And(list)),
                Err(error) => Err(error),
            },
            QueryTermDto::Or { terms } => match compile_terms(terms) {
                Ok(list) => Ok(Query::Or(list)),
                Err(error) => Err(error),
            },
            QueryTermDto::Not { term } => match term.compile() {
                Ok(query) => Ok(Query::Not(Box::new(query))),
                Err(error) => Err(error),
            },
        }
    }
}

// ----- labels -----------------------------------------------------------

/// The label of a kind of fact.
pub open spec fn kind_label(kind: FactKindDto) -> Seq<char> {
    match kind {
        FactKindDto::Object => "kind:object"@,
        FactKindDto::Source => "kind:source"@,
        FactKindDto::Parameter => "kind:parameter"@,
        FactKindDto::Hypothesis => "kind:hypothesis"@,
    }
}

/// The label of a query term.
pub open spec fn term_label(term: TermTree) -> Seq<char>
    decreases term, 0int,
{
    match term {
        TermTree::Kind(kind) => kind_label(kind),
        TermTree::Within(geometry) => "within:"@ + decimal(geometry.regions.len()) + "-regions"@,
        TermTree::Related(to) => "related("@ + term_label(*to) + ")"@,
        TermTree::NotExplainedBy(proposal) => "not-explained-by:proposal:"@ + decimal(
            proposal as nat,
        ),
        TermTree::And(terms) => "and("@ + joined_labels(terms, terms.len() as int) + ")"@,
        TermTree::Or(terms) => "or("@ + joined_labels(terms, terms.len() as int) + ")"@,
        TermTree::Not(inner) => "not("@ + term_label(*inner) + ")"@,
    }
}

/// Every term has a label to be seen.
pub proof fn labels_are_not_blank(term: TermTree)
    ensures
        !crate::text::is_blank(term_label(term)),
{
    reveal_strlit("kind:object");
    reveal_strlit("kind:source");
    reveal_strlit("kind:parameter");
    reveal_strlit("kind:hypothesis");
    reveal_strlit("within:");
    reveal_strlit("related(");
    reveal_strlit("not-explained-by:proposal:");
    reveal_strlit("and(");
    reveal_strlit("or(");
    reveal_strlit("not(");
    let label = term_label(term);
    assert(!crate::text::is_white_space(label[0]));
}

/// The labels of the first `i` terms of a list, parted by commas.
pub open spec fn joined_labels(terms: Seq<TermTree>, i: int) -> Seq<char>
    decreases terms, i,
{
    if i <= 0 || i > terms.len() {
        Seq::empty()
    } else if i == 1 {
        term_label(terms[0])
    } else {
        joined_labels(terms, i - 1) + ","@ + term_label(terms[i - 1])
    }
}

fn append_labels(out: &mut String, terms: &Vec<QueryTermDto>)
    ensures
        final(out)@ == old(out)@ + joined_labels(
            term_trees(terms@),
            term_trees(terms@).len() as int,
        ),
    decreases terms@, 0int,
{
    let ghost trees = term_trees(terms@);
    let ghost before = out@;
    let mut i: usize = 0;
    assert(out@ =~= before + joined_labels(trees, 0));
    while i < terms.len()
        invariant
            i <= terms.len(),
            trees == term_trees(terms@),
            out@ == before + joined_labels(trees, i as int),
        decreases terms.len() - i,
    {
        assert(trees[i as int] == terms@[i as int].tree());
        let label = terms[i].stable_label();
        if i > 0 {
            out.append(",");
        }
        out.append(label.as_str());
        assert(out@ =~= before + joined_labels(trees, i as int + 1));
        i = i + 1;
    }
}

impl QueryTermDto {
    /// The label of the term: a stable text that names its operators.
    pub fn stable_label(&self) -> (r: String)
        ensures
            r@ == term_label(self.tree()),
        decreases self, 1int,
    {
        match self {
            QueryTermDto::Kind { kind } => match kind {
                FactKindDto::Object => owned("kind:object"),
                FactKindDto::Source => owned("kind:source"),
                FactKindDto::Parameter => owned("kind:parameter"),
                FactKindDto::Hypothesis => owned("kind:hypothesis"),
            },
            QueryTermDto::Within { aspect } => {
                let mut out = owned("within:");
                append_decimal(&mut out, aspect.regions.len() as u64);
                out.append("-regions");
                out
            },
            QueryTermDto::Related { to } => {
                let mut out = owned("related(");
                out.append(to.stable_label().as_str());
                out.append(")");
                out
            },
            QueryTermDto::NotExplainedBy { proposal_id } => {
                let mut out = owned("not-explained-by:proposal:");
                append_decimal(&mut out, *proposal_id);
                out
            },
            QueryTermDto::And { terms } => {
                let mut out = owned("and(");
                append_labels(&mut out, terms);
                out.append(")");
                out
            },
            QueryTermDto::Or { terms } => {
                let mut out = owned("or(");
                append_labels(&mut out, terms);
                out.append(")");
                out
            },
            QueryTermDto::Not { term } => {
                let mut out = owned("not(");
                out.append(term.stable_label().as_str());
                out.append(")");
                out
            },
        }
    }
}

// ----- copies and equality ----------------------------------------------

fn copy_terms(terms: &Vec<QueryTermDto>) -> (r: Vec<QueryTermDto>)
    ensures
        term_trees(r@) == term_trees(terms@),
    decreases terms@, 0int,
{
    let mut out: Vec<QueryTermDto> = Vec::new();
    let mut i: usize = 0;
    while i < terms.len()
        invariant
            i <= terms.len(),
            out@.len() == i,
            forall|j: int| 0 <= j < i ==> (#[trigger] out@[j]).tree() == terms@[j].tree(),
        decreases terms.len() - i,
    {
        out.push(terms[i].copy());
        i = i + 1;
    }
    assert(term_trees(out@) =~= term_trees(terms@));
    out
}

fn same_terms(left: &Vec<QueryTermDto>, right: &Vec<QueryTermDto>) -> (r: bool)
    ensures
        r == (term_trees(left@) == term_trees(right@)),
    decreases left@, 0int,
{
    if left.len() != right.len() {
        assert(term_trees(left@).len() != term_trees(right@).len());
        return false;
    }
    let mut i: usize = 0;
    while i < left.len()
        invariant
            i <= left.len(),
            left.len() == right.len(),
            forall|j: int| 0 <= j < i ==> (#[trigger] left@[j]).tree() == right@[j].tree(),
        decreases left.len() - i,
    {
        if !left[i].same(&right[i]) {
            assert(term_trees(left@)[i as int] != term_trees(right@)[i as int]);
            return false;
        }
        i = i + 1;
    }
    assert(term_trees(left@) =~= term_trees(right@));
    true
}

impl QueryTermDto {
    /// A copy of the term.
    pub fn copy(&self) -> (r: QueryTermDto)
        ensures
            r.tree() == self.tree(),
        decreases self, 1int,
    {
        match self {
            QueryTermDto::Kind { kind } => QueryTermDto::Kind { kind: *kind },
            QueryTermDto::Within { aspect } => QueryTermDto::Within { aspect: aspect.copy() },
            QueryTermDto::Related { to } => QueryTermDto::Related { to: Box::new(to.copy()) },
            QueryTermDto::NotExplainedBy { proposal_id } => QueryTermDto::NotExplainedBy {
                proposal_id: *proposal_id,
            },
            QueryTermDto::And { terms } => QueryTermDto::And { terms: copy_terms(terms) },
            QueryTermDto::Or { terms } => QueryTermDto::Or { terms: copy_terms(terms) },
            QueryTermDto::Not { term } => QueryTermDto::Not { term: Box::new(term.copy()) },
        }
    }

    /// Whether two terms have the same shape.
    pub fn same(&self, other: &QueryTermDto) -> (r: bool)
        ensures
            r == (self.tree() == other.tree()),
        decreases self, 1int,
    {
        match (self, other) {
            (QueryTermDto::Kind { kind: a }, QueryTermDto::Kind { kind: b }) => *a == *b,
            (QueryTermDto::Within { aspect: a }, QueryTermDto::Within { aspect: b }) => a.same(b),
            (QueryTermDto::Related { to: a }, QueryTermDto::Related { to: b }) => a.same(b),
            (
                QueryTermDto::NotExplainedBy { proposal_id: a },
                QueryTermDto::NotExplainedBy { proposal_id: b },
            ) => *a == *b,
            (QueryTermDto::And { terms: a }, QueryTermDto::And { terms: b }) => same_terms(a, b),
            (QueryTermDto::Or { terms: a }, QueryTermDto::Or { terms: b }) => same_terms(a, b),
            (QueryTermDto::Not { term: a }, QueryTermDto::Not { term: b }) => a.same(b),
            _ => false,
        }
    }
}

} // verus!
