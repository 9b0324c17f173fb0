//! Lowering a merge of readings to one aggregate edit.
//!
//! The caller allocates identities. The edit takes both the new identities of
//! the project and the reading-qualified ones, so that it can be replayed.

use vstd::prelude::*;
use vstd::string::*;

use crate::command::{
    AirEntityKind, CommandEnvelope, DomainCommand, ForeignEntityKind, FreeformClaim, Hypothesis,
    HypothesisId, HypothesisSelection, HypothesisSet, HypothesisSetId, IdClaim,
};
use crate::rank::{
    ranked, ranked_commutes_with_views, ranked_is_an_ordering, sort_by_rank, HasRank, Ranked,
};
use crate::reading::{
    entity_keys, EntityKey, ProducerDto, ProvenanceDto, QualifiedEntityId, ReadingId, READING_FORMAT,
};
use crate::reading_import::{
    planned_views, ImportDisposition, PlannedReadingEntity, PlannedView, PortableEntityRole,
};
use crate::reading_merge::{GroupView, MergeView, MergedReading, ReadingMergePlan};
use crate::text::{
    append_decimal, append_hex, copy_optional_text, decimal, hex_text, optional_text, owned,
    same_text,
};

verus! {

/// The number that the caller gave a hypothesis of a reading.
#[derive(Debug, PartialEq, Eq)]
pub struct ForeignHypothesisAllocationDto {
    pub foreign: QualifiedEntityId,
    pub project_id: u64,
}

/// The number that the caller gave a group of alternatives.
#[derive(Debug, PartialEq, Eq)]
pub struct HypothesisSetAllocationDto {
    pub group: String,
    pub project_id: u64,
}

/// No hypothesis is allocated twice.
pub open spec fn distinct_foreign(list: Seq<ForeignHypothesisAllocationDto>) -> bool {
    forall|i: int, j: int|
        0 <= i < j < list.len() ==> (#[trigger] list[i]).foreign@ != (#[trigger] list[j]).foreign@
}

/// No group is allocated twice.
pub open spec fn distinct_groups(list: Seq<HypothesisSetAllocationDto>) -> bool {
    forall|i: int, j: int|
        0 <= i < j < list.len() ==> (#[trigger] list[i]).group@ != (#[trigger] list[j]).group@
}

/// The number allocated to a hypothesis, looked for from index `i` on.
pub open spec fn allocated(list: Seq<ForeignHypothesisAllocationDto>, id: EntityKey, i: int) -> Option<
    u64,
>
    decreases list.len() - i,
{
    if i < 0 || i >= list.len() {
        None
    } else if list[i].foreign@ == id {
        Some(list[i].project_id)
    } else {
        allocated(list, id, i + 1)
    }
}

/// The number allocated to a group, looked for from index `i` on.
pub open spec fn allocated_set(
    list: Seq<HypothesisSetAllocationDto>,
    group: Seq<char>,
    i: int,
) -> Option<u64>
    decreases list.len() - i,
{
    if i < 0 || i >= list.len() {
        None
    } else if list[i].group@ == group {
        Some(list[i].project_id)
    } else {
        allocated_set(list, group, i + 1)
    }
}

fn find_allocation(list: &Vec<ForeignHypothesisAllocationDto>, id: &QualifiedEntityId) -> (r: Option<
    u64,
>)
    ensures
        r == allocated(list@, id@, 0),
{
    let mut i: usize = 0;
    while i < list.len()
        invariant
            i <= list.len(),
            allocated(list@, id@, 0) == allocated(list@, id@, i as int),
        decreases list.len() - i,
    {
        if list[i].foreign.same(id) {
            return Some(list[i].project_id);
        }
        i = i + 1;
    }
    None
}

fn find_set_allocation(list: &Vec<HypothesisSetAllocationDto>, group: &str) -> (r: Option<u64>)
    ensures
        r == allocated_set(list@, group@, 0),
{
    let mut i: usize = 0;
    while i < list.len()
        invariant
            i <= list.len(),
            allocated_set(list@, group@, 0) == allocated_set(list@, group@, i as int),
        decreases list.len() - i,
    {
        if same_text(list[i].group.as_str(), group) {
            return Some(list[i].project_id);
        }
        i = i + 1;
    }
    None
}

/// One hypothesis of a reading and the project's number for it.
#[derive(Debug, PartialEq)]
pub struct ForeignHypothesisMapping {
    pub foreign: QualifiedEntityId,
    pub project: HypothesisId,
}

/// What a mapping holds.
pub struct MappingView {
    pub foreign: EntityKey,
    pub project: HypothesisId,
}

impl View for ForeignHypothesisMapping {
    type V = MappingView;

    open spec fn view(&self) -> MappingView {
        MappingView { foreign: self.foreign@, project: self.project }
    }
}

impl HasRank for MappingView {
    open spec fn rank(&self) -> Seq<u64> {
        self.foreign.rank()
    }
}

impl HasRank for ForeignHypothesisMapping {
    open spec fn rank(&self) -> Seq<u64> {
        self.foreign.rank()
    }
}

impl Ranked for ForeignHypothesisMapping {
    fn rank_key(&self) -> (r: Vec<u64>) {
        self.foreign.rank_key()
    }
}

/// What a list of mappings holds.
pub open spec fn mapping_views(list: Seq<ForeignHypothesisMapping>) -> Seq<MappingView> {
    list.map_values(|m: ForeignHypothesisMapping| m@)
}

/// One edit that imports hypotheses, and which became which.
#[derive(Debug, PartialEq)]
pub struct UndoableForeignImport {
    pub mappings: Vec<ForeignHypothesisMapping>,
    pub envelope: CommandEnvelope,
}

/// Why a merge cannot be lowered.
#[derive(Debug, PartialEq)]
pub enum ForeignImportRefusal {
    UnsupportedEntity(QualifiedEntityId),
    AllocationSetMismatch,
    DuplicateOrZeroAllocation,
    MissingSetAllocation(String),
    MissingReadingVersion(ReadingId),
    NothingToImport,
}

/// What a refusal to lower says.
pub enum LoweringFault {
    UnsupportedEntity(EntityKey),
    AllocationSetMismatch,
    DuplicateOrZeroAllocation,
    MissingSetAllocation(Seq<char>),
    MissingReadingVersion(ReadingId),
    NothingToImport,
}

impl View for ForeignImportRefusal {
    type V = LoweringFault;

    open spec fn view(&self) -> LoweringFault {
        match *self {
            ForeignImportRefusal::UnsupportedEntity(id) => LoweringFault::UnsupportedEntity(id@),
            ForeignImportRefusal::AllocationSetMismatch => LoweringFault::AllocationSetMismatch,
            ForeignImportRefusal::DuplicateOrZeroAllocation => {
                LoweringFault::DuplicateOrZeroAllocation
            },
            ForeignImportRefusal::MissingSetAllocation(
                group,
            ) => LoweringFault::MissingSetAllocation(group@),
            ForeignImportRefusal::MissingReadingVersion(
                reading,
            ) => LoweringFault::MissingReadingVersion(reading),
            ForeignImportRefusal::NothingToImport => LoweringFault::NothingToImport,
        }
    }
}

// ----- what is pending --------------------------------------------------

/// The first `i` entities without those that the project has already.
pub open spec fn pending(entities: Seq<PlannedView>, i: int) -> Seq<PlannedView>
    decreases i,
{
    if i <= 0 {
        Seq::empty()
    } else if entities[i - 1].disposition != ImportDisposition::AlreadyPresent {
        pending(entities, i - 1).push(entities[i - 1])
    } else {
        pending(entities, i - 1)
    }
}

/// The first entity from index `i` on that is no hypothesis.
pub open spec fn first_unsupported(list: Seq<PlannedView>, i: int) -> Option<EntityKey>
    decreases list.len() - i,
{
    if i < 0 || i >= list.len() {
        None
    } else if list[i].role != PortableEntityRole::Hypothesis {
        Some(list[i].id)
    } else {
        first_unsupported(list, i + 1)
    }
}

/// Whether an entity is pending.
pub open spec fn is_pending(list: Seq<PlannedView>, id: EntityKey) -> bool {
    exists|j: int| 0 <= j < list.len() && (#[trigger] list[j]).id == id
}

/// Exactly the pending entities are allocated.
pub open spec fn allocations_match(
    list: Seq<PlannedView>,
    allocations: Seq<ForeignHypothesisAllocationDto>,
) -> bool {
    &&& forall|i: int|
        0 <= i < list.len() ==> allocated(allocations, (#[trigger] list[i]).id, 0) is Some
    &&& forall|i: int|
        0 <= i < allocations.len() ==> is_pending(list, (#[trigger] allocations[i]).foreign@)
}

/// No two hypotheses share a number, and none is zero.
pub open spec fn numbers_fit(allocations: Seq<ForeignHypothesisAllocationDto>) -> bool {
    apart(allocated_numbers(allocations))
}

/// The numbers of allocated hypotheses.
pub open spec fn allocated_numbers(allocations: Seq<ForeignHypothesisAllocationDto>) -> Seq<u64> {
    allocations.map_values(|a: ForeignHypothesisAllocationDto| a.project_id)
}

/// No two groups share a number, and none is zero.
pub open spec fn set_numbers_fit(allocations: Seq<HypothesisSetAllocationDto>) -> bool {
    apart(allocated_set_numbers(allocations))
}

/// The numbers of allocated sets.
pub open spec fn allocated_set_numbers(allocations: Seq<HypothesisSetAllocationDto>) -> Seq<u64> {
    allocations.map_values(|a: HypothesisSetAllocationDto| a.project_id)
}

/// The revision of the first merged version of a reading, from index `i` on.
pub open spec fn revision_of(readings: Seq<MergedReading>, reading: ReadingId, i: int) -> Option<
    u64,
>
    decreases readings.len() - i,
{
    if i < 0 || i >= readings.len() {
        None
    } else if readings[i].reading_id == reading {
        Some(readings[i].revision)
    } else {
        revision_of(readings, reading, i + 1)
    }
}

/// The first pending entity from index `i` on whose reading was not merged.
pub open spec fn first_unversioned(
    list: Seq<PlannedView>,
    readings: Seq<MergedReading>,
    i: int,
) -> Option<ReadingId>
    decreases list.len() - i,
{
    if i < 0 || i >= list.len() {
        None
    } else if revision_of(readings, list[i].id.reading, 0) is None {
        Some(list[i].id.reading)
    } else {
        first_unversioned(list, readings, i + 1)
    }
}

/// The numbers of the first `i` alternatives that are being imported.
pub open spec fn imported_alternatives(
    alternatives: Seq<EntityKey>,
    allocations: Seq<ForeignHypothesisAllocationDto>,
    i: int,
) -> Seq<HypothesisId>
    decreases i,
{
    if i <= 0 {
        Seq::empty()
    } else {
        match allocated(allocations, alternatives[i - 1], 0) {
            Some(number) => imported_alternatives(alternatives, allocations, i - 1).push(
                HypothesisId(number),
            ),
            None => imported_alternatives(alternatives, allocations, i - 1),
        }
    }
}

/// Whether a group has two alternatives or more that are being imported.
pub open spec fn becomes_set(
    group: GroupView,
    allocations: Seq<ForeignHypothesisAllocationDto>,
) -> bool {
    imported_alternatives(
        group.alternatives,
        allocations,
        group.alternatives.len() as int,
    ).len() >= 2
}

/// What is wrong with the sets of the groups from index `i` on.
pub open spec fn sets_fault(
    groups: Seq<GroupView>,
    allocations: Seq<ForeignHypothesisAllocationDto>,
    sets: Seq<HypothesisSetAllocationDto>,
    i: int,
) -> Option<LoweringFault>
    decreases groups.len() - i,
{
    if i < 0 || i >= groups.len() {
        None
    } else if !becomes_set(groups[i], allocations) {
        sets_fault(groups, allocations, sets, i + 1)
    } else {
        match allocated_set(sets, groups[i].key, 0) {
            None => Some(LoweringFault::MissingSetAllocation(groups[i].key)),
            Some(number) => if number == 0 {
                Some(LoweringFault::DuplicateOrZeroAllocation)
            } else {
                sets_fault(groups, allocations, sets, i + 1)
            },
        }
    }
}

/// Whether a question has a group that becomes a set.
pub open spec fn is_set_question(
    groups: Seq<GroupView>,
    allocations: Seq<ForeignHypothesisAllocationDto>,
    question: Seq<char>,
) -> bool {
    exists|g: int|
        0 <= g < groups.len() && (#[trigger] groups[g]).key == question && becomes_set(
            groups[g],
            allocations,
        )
}

/// Every allocated group becomes a set.
pub open spec fn sets_expected(
    groups: Seq<GroupView>,
    allocations: Seq<ForeignHypothesisAllocationDto>,
    sets: Seq<HypothesisSetAllocationDto>,
) -> bool {
    forall|i: int|
        0 <= i < sets.len() ==> is_set_question(
            groups,
            allocations,
            (#[trigger] sets[i]).group@,
        )
}

/// Why a merge cannot be lowered: the first thing that is wrong.
pub open spec fn lowering_fault(
    merge: MergeView,
    allocations: Seq<ForeignHypothesisAllocationDto>,
    sets: Seq<HypothesisSetAllocationDto>,
) -> Option<LoweringFault> {
    let list = pending(merge.entities, merge.entities.len() as int);
    if first_unsupported(list, 0) is Some {
        Some(LoweringFault::UnsupportedEntity(first_unsupported(list, 0)->0))
    } else if !allocations_match(list, allocations) {
        Some(LoweringFault::AllocationSetMismatch)
    } else if !numbers_fit(allocations) {
        Some(LoweringFault::DuplicateOrZeroAllocation)
    } else if first_unversioned(list, merge.readings, 0) is Some {
        Some(
            LoweringFault::MissingReadingVersion(first_unversioned(list, merge.readings, 0)->0),
        )
    } else if sets_fault(merge.groups, allocations, sets, 0) is Some {
        sets_fault(merge.groups, allocations, sets, 0)
    } else if !sets_expected(merge.groups, allocations, sets) {
        Some(LoweringFault::AllocationSetMismatch)
    } else if !set_numbers_fit(sets) {
        Some(LoweringFault::DuplicateOrZeroAllocation)
    } else if list.len() == 0 && set_groups(merge.groups, allocations, merge.groups.len() as int).len() == 0 {
        Some(LoweringFault::NothingToImport)
    } else {
        None
    }
}

/// The first `i` groups without those that become no set.
pub open spec fn set_groups(
    groups: Seq<GroupView>,
    allocations: Seq<ForeignHypothesisAllocationDto>,
    i: int,
) -> Seq<GroupView>
    decreases i,
{
    if i <= 0 {
        Seq::empty()
    } else if becomes_set(groups[i - 1], allocations) {
        set_groups(groups, allocations, i - 1).push(groups[i - 1])
    } else {
        set_groups(groups, allocations, i - 1)
    }
}

// ----- what is written --------------------------------------------------

/// Where an imported hypothesis says it comes from.
pub open spec fn source_revision_text(id: EntityKey, revision: u64) -> Seq<char> {
    "reading:"@ + hex_text(id.reading@) + ":"@ + decimal(revision as nat)
}

/// What an imported hypothesis notes about its identity.
pub open spec fn foreign_note(id: EntityKey) -> Seq<char> {
    "foreign:"@ + hex_text(id.reading@) + ":"@ + id.kind + ":"@ + decimal(id.local_id as nat)
}

/// What an imported hypothesis notes about its identity.
pub fn write_foreign_note(id: &QualifiedEntityId) -> (r: String)
    ensures
        r@ == foreign_note(id@),
{
    let bytes = id.reading.bytes();
    let mut note = owned("foreign:");
    append_hex(&mut note, bytes.as_slice());
    note.append(":");
    note.append(id.kind.as_str());
    note.append(":");
    append_decimal(&mut note, id.local_id);
    note
}

/// The claims are the description in free words, which speaks of no object, or none
/// where there is no description.
pub open spec fn claims_description(claims: Seq<FreeformClaim>, description: Option<Seq<char>>) -> bool {
    match description {
        Some(text) => {
            &&& claims.len() == 1
            &&& claims[0].objects@ == Seq::<u64>::empty()
            &&& claims[0].description@ == text
        },
        None => claims.len() == 0,
    }
}

/// The command puts the hypothesis of an entity, which was not there before, under a
/// number.
pub open spec fn puts_hypothesis(
    command: DomainCommand,
    entity: PlannedView,
    number: u64,
    revision: u64,
) -> bool {
    &&& command matches DomainCommand::PutHypothesis { before: None, after: Some(after) }
    &&& after.id == HypothesisId(number)
    &&& after.label@ == entity.label
    &&& after.support_bits == (match entity.hypothesis {
        Some(semantics) => semantics.support_bits,
        None => 0,
    })
    &&& claims_description(
        after.claims@,
        match entity.hypothesis {
            Some(semantics) => semantics.description,
            None => None,
        },
    )
    &&& after.evidence@ == Seq::<u64>::empty()
    &&& after.provenance.producer matches ProducerDto::Importer { format, version }
    &&& format@ == READING_FORMAT@
    &&& version@ == "1"@
    &&& after.provenance.created_unix_ms is None
    &&& optional_text(after.provenance.source_revision) == Some(
        source_revision_text(entity.id, revision),
    )
    &&& optional_text(after.provenance.note) == Some(foreign_note(entity.id))
}

/// The command puts the set of a group, which was not there before, with nothing
/// selected.
pub open spec fn puts_set(
    command: DomainCommand,
    group: GroupView,
    allocations: Seq<ForeignHypothesisAllocationDto>,
    sets: Seq<HypothesisSetAllocationDto>,
) -> bool {
    &&& command matches DomainCommand::PutHypothesisSet { before: None, after: Some(after) }
    &&& Some(after.id.0) == allocated_set(sets, group.key, 0)
    &&& after.question@ == group.key
    &&& after.alternatives@ == imported_alternatives(
        group.alternatives,
        allocations,
        group.alternatives.len() as int,
    )
    &&& after.selection == HypothesisSelection::Unresolved
}

/// The mapping of a pending entity.
pub open spec fn mapping_of(
    entity: PlannedView,
    allocations: Seq<ForeignHypothesisAllocationDto>,
) -> MappingView {
    MappingView {
        foreign: entity.id,
        project: HypothesisId(allocated(allocations, entity.id, 0)->0),
    }
}

/// The identity that a command takes.
pub open spec fn claim_of(command: DomainCommand) -> IdClaim {
    match command {
        DomainCommand::PutHypothesisSet { after: Some(after), .. } => IdClaim::HypothesisSet(
            after.id,
        ),
        DomainCommand::PutHypothesis { after: Some(after), .. } => IdClaim::Hypothesis(after.id),
        _ => IdClaim::Hypothesis(HypothesisId(0)),
    }
}

/// The foreign identity that a mapping takes.
pub open spec fn foreign_claim(entity: PlannedView) -> IdClaim {
    IdClaim::Foreign {
        reading: entity.id.reading,
        kind: ForeignEntityKind::Air(AirEntityKind::Hypothesis),
        local: entity.id.local_id,
    }
}

/// The edit for a merge that can be lowered.
pub open spec fn is_lowering(
    import: UndoableForeignImport,
    merge: MergeView,
    base_revision: u64,
    allocations: Seq<ForeignHypothesisAllocationDto>,
    sets: Seq<HypothesisSetAllocationDto>,
) -> bool {
    let list = pending(merge.entities, merge.entities.len() as int);
    let groups = set_groups(merge.groups, allocations, merge.groups.len() as int);
    let commands = import.envelope.commands@;
    &&& mapping_views(import.mappings@) == ranked(
        list.map_values(|e: PlannedView| mapping_of(e, allocations)),
    )
    &&& import.envelope.label@ == "Import "@ + decimal(allocations.len()) + " reading hypotheses"@
    &&& import.envelope.base_revision == base_revision
    &&& import.envelope.coalesce is None
    &&& commands.len() == list.len() + groups.len()
    &&& forall|i: int|
        0 <= i < list.len() ==> puts_hypothesis(
            #[trigger] commands[i],
            list[i],
            allocated(allocations, list[i].id, 0)->0,
            revision_of(merge.readings, list[i].id.reading, 0)->0,
        )
    &&& forall|g: int|
        0 <= g < groups.len() ==> puts_set(
            commands[list.len() + g],
            #[trigger] groups[g],
            allocations,
            sets,
        )
    &&& import.envelope.id_claims@ == first_claims(claims_of(commands, list))
}

/// The identities that the edit takes, as often as they come up: those of its
/// commands, then those of the hypotheses it imports.
pub open spec fn claims_of(commands: Seq<DomainCommand>, list: Seq<PlannedView>) -> Seq<IdClaim> {
    commands.map_values(|c: DomainCommand| claim_of(c)) + list.map_values(
        |e: PlannedView| foreign_claim(e),
    )
}

/// Every claim once, where it comes up first.
pub open spec fn first_claims(claims: Seq<IdClaim>) -> Seq<IdClaim>
    decreases claims.len(),
{
    if claims.len() == 0 {
        claims
    } else {
        let earlier = first_claims(claims.drop_last());
        if earlier.contains(claims.last()) {
            earlier
        } else {
            earlier.push(claims.last())
        }
    }
}

// ----- lowering ---------------------------------------------------------

fn collect_pending(entities: &Vec<PlannedReadingEntity>) -> (r: Vec<usize>)
    ensures
        r@.len() == pending(planned_views(entities@), entities@.len() as int).len(),
        forall|k: int|
            0 <= k < r@.len() ==> (#[trigger] r@[k]) < entities@.len() && pending(
                planned_views(entities@),
                entities@.len() as int,
            )[k] == entities@[r@[k] as int]@,
{
    let ghost views = planned_views(entities@);
    let mut out: Vec<usize> = Vec::new();
    let mut i: usize = 0;
    while i < entities.len()
        invariant
            i <= entities.len(),
            views == planned_views(entities@),
            out@.len() == pending(views, i as int).len(),
            forall|k: int|
                0 <= k < out@.len() ==> (#[trigger] out@[k]) < entities@.len() && pending(
                    views,
                    i as int,
                )[k] == entities@[out@[k] as int]@,
        decreases entities.len() - i,
    {
        assert(views[i as int] == entities@[i as int]@);
        if entities[i].disposition != ImportDisposition::AlreadyPresent {
            out.push(i);
        }
        i = i + 1;
    }
    out
}

spec fn selects(
    indices: Seq<usize>,
    entities: Seq<PlannedReadingEntity>,
    list: Seq<PlannedView>,
) -> bool {
    &&& indices.len() == list.len()
    &&& forall|k: int|
        0 <= k < indices.len() ==> (#[trigger] indices[k]) < entities.len() && list[k]
            == entities[indices[k] as int]@
}

fn check_supported(
    entities: &Vec<PlannedReadingEntity>,
    indices: &Vec<usize>,
    Ghost(list): Ghost<Seq<PlannedView>>,
) -> (r: Option<QualifiedEntityId>)
    requires
        selects(indices@, entities@, list),
    ensures
        match r {
            Some(id) => first_unsupported(list, 0) == Some(id@),
            None => first_unsupported(list, 0) is None,
        },
{
    let mut i: usize = 0;
    while i < indices.len()
        invariant
            i <= indices.len(),
            selects(indices@, entities@, list),
            first_unsupported(list, 0) == first_unsupported(list, i as int),
        decreases indices.len() - i,
    {
        assert(indices@[i as int] < entities@.len());
        let entity = &entities[indices[i]];
        assert(list[i as int] == entity@);
        if entity.role != PortableEntityRole::Hypothesis {
            return Some(entity.id.clone());
        }
        i = i + 1;
    }
    None
}

fn check_allocations(
    entities: &Vec<PlannedReadingEntity>,
    indices: &Vec<usize>,
    allocations: &Vec<ForeignHypothesisAllocationDto>,
    Ghost(list): Ghost<Seq<PlannedView>>,
) -> (r: bool)
    requires
        selects(indices@, entities@, list),
    ensures
        r == allocations_match(list, allocations@),
{
    let mut i: usize = 0;
    while i < indices.len()
        invariant
            i <= indices.len(),
            selects(indices@, entities@, list),
            forall|k: int|
                0 <= k < i ==> allocated(allocations@, (#[trigger] list[k]).id, 0) is Some,
        decreases indices.len() - i,
    {
        assert(indices@[i as int] < entities@.len());
        assert(list[i as int] == entities@[indices@[i as int] as int]@);
        if find_allocation(allocations, &entities[indices[i]].id).is_none() {
            return false;
        }
        i = i + 1;
    }
    let mut a: usize = 0;
    while a < allocations.len()
        invariant
            a <= allocations.len(),
            selects(indices@, entities@, list),
            forall|k: int|
                0 <= k < list.len() ==> allocated(allocations@, (#[trigger] list[k]).id, 0) is Some,
            forall|k: int|
                0 <= k < a ==> is_pending(list, (#[trigger] allocations@[k]).foreign@),
        decreases allocations.len() - a,
    {
        let mut found = false;
        let mut j: usize = 0;
        while j < indices.len() && !found
            invariant
                j <= indices.len(),
                a < allocations.len(),
                selects(indices@, entities@, list),
                found ==> is_pending(list, allocations@[a as int].foreign@),
                !found ==> forall|k: int|
                    0 <= k < j ==> (#[trigger] list[k]).id != allocations@[a as int].foreign@,
            decreases indices.len() - j,
        {
            assert(indices@[j as int] < entities@.len());
            assert(list[j as int] == entities@[indices@[j as int] as int]@);
            if entities[indices[j]].id.same(&allocations[a].foreign) {
                assert(list[j as int].id == allocations@[a as int].foreign@);
                found = true;
            }
            j = j + 1;
        }
        if !found {
            assert(!is_pending(list, allocations@[a as int].foreign@));
            return false;
        }
        a = a + 1;
    }
    true
}

/// No number is zero, and no number stands twice.
pub open spec fn apart(numbers: Seq<u64>) -> bool {
    &&& forall|i: int| 0 <= i < numbers.len() ==> #[trigger] numbers[i] != 0
    &&& numbers.no_duplicates()
}

fn are_apart(numbers: &Vec<u64>) -> (r: bool)
    ensures
        r == apart(numbers@),
{
    let mut i: usize = 0;
    while i < numbers.len()
        invariant
            i <= numbers.len(),
            forall|k: int| 0 <= k < i ==> #[trigger] numbers@[k] != 0,
            forall|a: int, b: int| 0 <= a < b < i ==> numbers@[a] != numbers@[b],
        decreases numbers.len() - i,
    {
        if numbers[i] == 0 {
            assert(numbers@[i as int] == 0);
            return false;
        }
        let mut j: usize = 0;
        while j < i
            invariant
                j <= i < numbers.len(),
                forall|a: int| 0 <= a < j ==> numbers@[a] != numbers@[i as int],
            decreases i - j,
        {
            if numbers[j] == numbers[i] {
                assert(numbers@[j as int] == numbers@[i as int]);
                return false;
            }
            j = j + 1;
        }
        i = i + 1;
    }
    true
}

fn check_numbers(allocations: &Vec<ForeignHypothesisAllocationDto>) -> (r: bool)
    ensures
        r == numbers_fit(allocations@),
{
    let mut numbers: Vec<u64> = Vec::new();
    let mut i: usize = 0;
    while i < allocations.len()
        invariant
            i <= allocations.len(),
            numbers@ == allocated_numbers(allocations@).take(i as int),
        decreases allocations.len() - i,
    {
        numbers.push(allocations[i].project_id);
        i = i + 1;
        assert(numbers@ =~= allocated_numbers(allocations@).take(i as int));
    }
    assert(numbers@ =~= allocated_numbers(allocations@));
    are_apart(&numbers)
}

fn check_set_numbers(allocations: &Vec<HypothesisSetAllocationDto>) -> (r: bool)
    ensures
        r == set_numbers_fit(allocations@),
{
    let mut numbers: Vec<u64> = Vec::new();
    let mut i: usize = 0;
    while i < allocations.len()
        invariant
            i <= allocations.len(),
            numbers@ == allocated_set_numbers(allocations@).take(i as int),
        decreases allocations.len() - i,
    {
        numbers.push(allocations[i].project_id);
        i = i + 1;
        assert(numbers@ =~= allocated_set_numbers(allocations@).take(i as int));
    }
    assert(numbers@ =~= allocated_set_numbers(allocations@));
    are_apart(&numbers)
}

fn find_revision(readings: &Vec<MergedReading>, reading: &ReadingId) -> (r: Option<u64>)
    ensures
        r == revision_of(readings@, *reading, 0),
{
    let mut i: usize = 0;
    while i < readings.len()
        invariant
            i <= readings.len(),
            revision_of(readings@, *reading, 0) == revision_of(readings@, *reading, i as int),
        decreases readings.len() - i,
    {
        if readings[i].reading_id.same(reading) {
            return Some(readings[i].revision);
        }
        i = i + 1;
    }
    None
}

fn hypothesis_command(entity: &PlannedReadingEntity, number: u64, revision: u64) -> (r:
    DomainCommand)
    ensures
        puts_hypothesis(r, entity@, number, revision),
        claim_of(r) == IdClaim::Hypothesis(HypothesisId(number)),
{
    let mut claims: Vec<FreeformClaim> = Vec::new();
    let objects: Vec<u64> = Vec::new();
    let evidence: Vec<u64> = Vec::new();
    assert(objects@ =~= Seq::<u64>::empty());
    let support_bits: u32 = match &entity.hypothesis {
        Some(semantics) => {
            match &semantics.description {
                Some(text) => {
                    claims.push(FreeformClaim { objects, description: owned(text.as_str()) });
                },
                None => {},
            }
            semantics.support_bits
        },
        None => 0,
    };
    let bytes = entity.id.reading.bytes();
    let mut source = owned("reading:");
    append_hex(&mut source, bytes.as_slice());
    source.append(":");
    append_decimal(&mut source, revision);
    let note = write_foreign_note(&entity.id);
    DomainCommand::PutHypothesis {
        before: None,
        after: Some(Hypothesis {
            id: HypothesisId(number),
            label: entity.label.clone(),
            claims,
            support_bits,
            evidence,
            provenance: ProvenanceDto {
                producer: ProducerDto::Importer {
                    format: owned(READING_FORMAT),
                    version: owned("1"),
                },
                created_unix_ms: None,
                source_revision: Some(source),
                note: Some(note),
            },
        }),
    }
}

fn collect_alternatives(
    alternatives: &Vec<QualifiedEntityId>,
    allocations: &Vec<ForeignHypothesisAllocationDto>,
) -> (r: Vec<HypothesisId>)
    ensures
        r@ == imported_alternatives(
            crate::reading::entity_keys(alternatives@),
            allocations@,
            alternatives@.len() as int,
        ),
{
    let ghost keys = crate::reading::entity_keys(alternatives@);
    let mut out: Vec<HypothesisId> = Vec::new();
    let mut i: usize = 0;
    while i < alternatives.len()
        invariant
            i <= alternatives.len(),
            keys == crate::reading::entity_keys(alternatives@),
            out@ == imported_alternatives(keys, allocations@, i as int),
        decreases alternatives.len() - i,
    {
        assert(keys[i as int] == alternatives@[i as int]@);
        match find_allocation(allocations, &alternatives[i]) {
            Some(number) => {
                out.push(HypothesisId(number));
            },
            None => {},
        }
        i = i + 1;
    }
    out
}

fn check_sets_expected(
    merge: &ReadingMergePlan,
    allocations: &Vec<ForeignHypothesisAllocationDto>,
    sets: &Vec<HypothesisSetAllocationDto>,
) -> (r: bool)
    ensures
        r == sets_expected(merge@.groups, allocations@, sets@),
{
    let groups = &merge.hypothesis_groups;
    let ghost views = merge@.groups;
    let mut i: usize = 0;
    while i < sets.len()
        invariant
            i <= sets.len(),
            *groups == merge.hypothesis_groups,
            views == crate::reading_merge::group_views(groups@),
            views == merge@.groups,
            forall|k: int|
                0 <= k < i ==> is_set_question(
                    views,
                    allocations@,
                    (#[trigger] sets@[k]).group@,
                ),
        decreases sets.len() - i,
    {
        let mut found = false;
        let mut g: usize = 0;
        while g < groups.len() && !found
            invariant
                g <= groups.len(),
                i < sets.len(),
                views == crate::reading_merge::group_views(groups@),
                found ==> is_set_question(views, allocations@, sets@[i as int].group@),
                !found ==> forall|k: int|
                    0 <= k < g ==> !((#[trigger] views[k]).key == sets@[i as int].group@
                        && becomes_set(views[k], allocations@)),
            decreases groups.len() - g,
        {
            assert(views[g as int] == groups@[g as int]@);
            if same_text(groups[g].key.as_str(), sets[i].group.as_str()) {
                let numbers = collect_alternatives(&groups[g].alternatives, allocations);
                if numbers.len() >= 2 {
                    assert(becomes_set(views[g as int], allocations@));
                    found = true;
                }
            }
            g = g + 1;
        }
        if !found {
            assert(!is_set_question(views, allocations@, sets@[i as int].group@));
            return false;
        }
        i = i + 1;
    }
    true
}

fn same_claim(left: &IdClaim, right: &IdClaim) -> (r: bool)
    ensures
        r == (*left == *right),
{
    match (left, right) {
        (IdClaim::Hypothesis(a), IdClaim::Hypothesis(b)) => *a == *b,
        (IdClaim::HypothesisSet(a), IdClaim::HypothesisSet(b)) => *a == *b,
        (
            IdClaim::Foreign { reading: a, kind: k, local: m },
            IdClaim::Foreign { reading: b, kind: l, local: n },
        ) => a.same(b) && *k == *l && *m == *n,
        _ => false,
    }
}

fn holds_claim(claims: &Vec<IdClaim>, claim: &IdClaim) -> (r: bool)
    ensures
        r == claims@.contains(*claim),
{
    let mut i: usize = 0;
    while i < claims.len()
        invariant
            i <= claims.len(),
            forall|j: int| 0 <= j < i ==> claims@[j] != *claim,
        decreases claims.len() - i,
    {
        if same_claim(&claims[i], claim) {
            assert(claims@[i as int] == *claim);
            return true;
        }
        i = i + 1;
    }
    false
}

fn keep_first_claims(claims: &Vec<IdClaim>) -> (r: Vec<IdClaim>)
    ensures
        r@ == first_claims(claims@),
{
    let mut out: Vec<IdClaim> = Vec::new();
    let mut i: usize = 0;
    assert(claims@.take(0) =~= Seq::<IdClaim>::empty());
    assert(out@ =~= claims@.take(0));
    while i < claims.len()
        invariant
            i <= claims.len(),
            out@ == first_claims(claims@.take(i as int)),
        decreases claims.len() - i,
    {
        assert(claims@.take(i as int + 1).drop_last() =~= claims@.take(i as int));
        assert(claims@.take(i as int + 1).last() == claims@[i as int]);
        if !holds_claim(&out, &claims[i]) {
            out.push(claims[i]);
        }
        i = i + 1;
    }
    assert(claims@.take(i as int) =~= claims@);
    out
}

/// Appends a command and the claim that it makes.
fn push_command(commands: &mut Vec<DomainCommand>, claims: &mut Vec<IdClaim>, command: DomainCommand)
    requires
        old(claims)@ == old(commands)@.map_values(|c: DomainCommand| claim_of(c)),
    ensures
        final(commands)@ == old(commands)@.push(command),
        final(claims)@ == final(commands)@.map_values(|c: DomainCommand| claim_of(c)),
{
    let claim = match &command {
        DomainCommand::PutHypothesis { after: Some(after), .. } => IdClaim::Hypothesis(after.id),
        DomainCommand::PutHypothesisSet { after: Some(after), .. } => IdClaim::HypothesisSet(
            after.id,
        ),
        _ => IdClaim::Hypothesis(HypothesisId(0)),
    };
    claims.push(claim);
    commands.push(command);
    assert(claims@ =~= commands@.map_values(|c: DomainCommand| claim_of(c)));
}

/// Lowers a merge to one edit. Either every pending hypothesis is imported, or
/// nothing is.
pub fn lower_foreign_hypothesis_import(
    merge: &ReadingMergePlan,
    base_revision: u64,
    hypothesis_allocations: &Vec<ForeignHypothesisAllocationDto>,
    set_allocations: &Vec<HypothesisSetAllocationDto>,
) -> (r: Result<UndoableForeignImport, ForeignImportRefusal>)
    requires
        distinct_foreign(hypothesis_allocations@),
        distinct_groups(set_allocations@),
    ensures
        match lowering_fault(merge@, hypothesis_allocations@, set_allocations@) {
            Some(fault) => r matches Err(refusal) && refusal@ == fault,
            None => r matches Ok(import) && is_lowering(
                import,
                merge@,
                base_revision,
                hypothesis_allocations@,
                set_allocations@,
            ),
        },
{
    let entities = &merge.entities;
    let indices = collect_pending(entities);
    let ghost list = pending(merge@.entities, merge@.entities.len() as int);
    let ghost allocations = hypothesis_allocations@;
    let ghost sets = set_allocations@;
    assert(selects(indices@, entities@, list));
    match check_supported(entities, &indices, Ghost(list)) {
        Some(id) => {
            return Err(ForeignImportRefusal::UnsupportedEntity(id));
        },
        None => {},
    }
    if !check_allocations(entities, &indices, hypothesis_allocations, Ghost(list)) {
        return Err(ForeignImportRefusal::AllocationSetMismatch);
    }
    if !check_numbers(hypothesis_allocations) {
        return Err(ForeignImportRefusal::DuplicateOrZeroAllocation);
    }
    let mut commands: Vec<DomainCommand> = Vec::new();
    let mut id_claims: Vec<IdClaim> = Vec::new();
    let mut mappings: Vec<ForeignHypothesisMapping> = Vec::new();
    let mut i: usize = 0;
    assert(id_claims@ =~= commands@.map_values(|c: DomainCommand| claim_of(c)));
    while i < indices.len()
        invariant
            i <= indices.len(),
            *entities == merge.entities,
            allocations == hypothesis_allocations@,
            selects(indices@, entities@, list),
            allocations_match(list, allocations),
            first_unversioned(list, merge.readings@, 0) == first_unversioned(
                list,
                merge.readings@,
                i as int,
            ),
            list == pending(merge@.entities, merge@.entities.len() as int),
            first_unsupported(list, 0) is None,
            numbers_fit(allocations),
            commands@.len() == i,
            mappings@.len() == i,
            id_claims@ == commands@.map_values(|c: DomainCommand| claim_of(c)),
            forall|k: int|
                0 <= k < i ==> puts_hypothesis(
                    #[trigger] commands@[k],
                    list[k],
                    allocated(allocations, list[k].id, 0)->0,
                    revision_of(merge.readings@, list[k].id.reading, 0)->0,
                ),
            forall|k: int|
                0 <= k < i ==> (#[trigger] mappings@[k])@ == mapping_of(list[k], allocations),
        decreases indices.len() - i,
    {
        assert(indices@[i as int] < entities@.len());
        let entity = &entities[indices[i]];
        assert(list[i as int] == entity@);
        let project: u64 = match find_allocation(hypothesis_allocations, &entity.id) {
            Some(number) => number,
            None => {
                assert(allocated(allocations, list[i as int].id, 0) is Some);
                return Err(ForeignImportRefusal::AllocationSetMismatch);
            },
        };
        let revision: u64 = match find_revision(&merge.readings, &entity.id.reading) {
            Some(revision) => revision,
            None => {
                return Err(ForeignImportRefusal::MissingReadingVersion(entity.id.reading));
            },
        };
        push_command(&mut commands, &mut id_claims, hypothesis_command(entity, project, revision));
        mappings.push(
            ForeignHypothesisMapping { foreign: entity.id.clone(), project: HypothesisId(project) },
        );
        i = i + 1;
    }
    let groups = &merge.hypothesis_groups;
    let ghost views = merge@.groups;
    let ghost puts = commands@;
    let mut g: usize = 0;
    while g < groups.len()
        invariant
            g <= groups.len(),
            *groups == merge.hypothesis_groups,
            views == crate::reading_merge::group_views(groups@),
            views == merge@.groups,
            allocations == hypothesis_allocations@,
            sets == set_allocations@,
            list == pending(merge@.entities, merge@.entities.len() as int),
            first_unsupported(list, 0) is None,
            allocations_match(list, allocations),
            numbers_fit(allocations),
            first_unversioned(list, merge@.readings, 0) is None,
            sets_fault(views, allocations, sets, 0) == sets_fault(
                views,
                allocations,
                sets,
                g as int,
            ),
            puts.len() == list.len(),
            commands@.len() == list.len() + set_groups(views, allocations, g as int).len(),
            commands@.take(list.len() as int) == puts,
            id_claims@ == commands@.map_values(|c: DomainCommand| claim_of(c)),
            forall|k: int|
                0 <= k < set_groups(views, allocations, g as int).len() ==> puts_set(
                    commands@[list.len() + k],
                    #[trigger] set_groups(views, allocations, g as int)[k],
                    allocations,
                    sets,
                ),
        decreases groups.len() - g,
    {
        assert(views[g as int] == groups@[g as int]@);
        let alternatives = collect_alternatives(&groups[g].alternatives, hypothesis_allocations);
        let ghost before = commands@;
        let ghost done = set_groups(views, allocations, g as int);
        if alternatives.len() >= 2 {
            assert(becomes_set(views[g as int], allocations));
            let number: u64 = match find_set_allocation(set_allocations, groups[g].key.as_str()) {
                Some(number) => number,
                None => {
                    return Err(
                        ForeignImportRefusal::MissingSetAllocation(groups[g].key.clone()),
                    );
                },
            };
            if number == 0 {
                return Err(ForeignImportRefusal::DuplicateOrZeroAllocation);
            }
            let command = DomainCommand::PutHypothesisSet {
                before: None,
                after: Some(HypothesisSet {
                    id: HypothesisSetId(number),
                    question: groups[g].key.clone(),
                    alternatives,
                    selection: HypothesisSelection::Unresolved,
                }),
            };
            assert(puts_set(command, views[g as int], allocations, sets));
            push_command(&mut commands, &mut id_claims, command);
            proof {
                let now = set_groups(views, allocations, g as int + 1);
                assert(now =~= done.push(views[g as int]));
                assert forall|k: int| 0 <= k < now.len() implies puts_set(
                    commands@[list.len() + k],
                    #[trigger] now[k],
                    allocations,
                    sets,
                ) by {
                    if k < done.len() {
                        assert(now[k] == done[k]);
                        assert(commands@[list.len() + k] == before[list.len() + k]);
                    }
                }
                assert(commands@.take(list.len() as int) =~= puts);
            }
        } else {
            assert(!becomes_set(views[g as int], allocations));
        }
        g = g + 1;
    }
    if !check_sets_expected(merge, hypothesis_allocations, set_allocations) {
        return Err(ForeignImportRefusal::AllocationSetMismatch);
    }
    if !check_set_numbers(set_allocations) {
        return Err(ForeignImportRefusal::DuplicateOrZeroAllocation);
    }
    if commands.len() == 0 {
        return Err(ForeignImportRefusal::NothingToImport);
    }
    let ghost claimed = id_claims@;
    let mut k: usize = 0;
    assert(id_claims@ =~= claimed + list.take(0).map_values(|e: PlannedView| foreign_claim(e)));
    while k < indices.len()
        invariant
            k <= indices.len(),
            *entities == merge.entities,
            selects(indices@, entities@, list),
            id_claims@ == claimed + list.take(k as int).map_values(
                |e: PlannedView| foreign_claim(e),
            ),
        decreases indices.len() - k,
    {
        assert(indices@[k as int] < entities@.len());
        let entity = &entities[indices[k]];
        assert(list[k as int] == entity@);
        id_claims.push(
            IdClaim::Foreign {
                reading: entity.id.reading,
                kind: ForeignEntityKind::Air(AirEntityKind::Hypothesis),
                local: entity.id.local_id,
            },
        );
        assert(id_claims@ =~= claimed + list.take(k as int + 1).map_values(
            |e: PlannedView| foreign_claim(e),
        ));
        k = k + 1;
    }
    assert(list.take(k as int) =~= list);
    assert(id_claims@ =~= claims_of(commands@, list));
    let id_claims = keep_first_claims(&id_claims);
    let mut label = owned("Import ");
    append_decimal(&mut label, hypothesis_allocations.len() as u64);
    label.append(" reading hypotheses");
    proof {
        assert(mapping_views(mappings@) =~= list.map_values(
            |e: PlannedView| mapping_of(e, allocations),
        ));
        ranked_commutes_with_views(mappings@, |m: ForeignHypothesisMapping| m@);
        assert forall|j: int| 0 <= j < list.len() implies puts_hypothesis(
            #[trigger] commands@[j],
            list[j],
            allocated(allocations, list[j].id, 0)->0,
            revision_of(merge@.readings, list[j].id.reading, 0)->0,
        ) by {
            assert(commands@[j] == commands@.take(list.len() as int)[j]);
        }
    }
    Ok(
        UndoableForeignImport {
            mappings: sort_by_rank(mappings),
            envelope: CommandEnvelope { label, base_revision, coalesce: None, commands, id_claims },
        },
    )
}

// ----- laws ---------------------------------------------------------------

proof fn lemma_allocated(list: Seq<ForeignHypothesisAllocationDto>, id: EntityKey, i: int) -> (k: int)
    requires
        0 <= i,
        allocated(list, id, i) is Some,
    ensures
        i <= k < list.len(),
        list[k].foreign@ == id,
        list[k].project_id == allocated(list, id, i)->0,
    decreases list.len() - i,
{
    if list[i].foreign@ == id {
        i
    } else {
        lemma_allocated(list, id, i + 1)
    }
}

/// Hypotheses of different identities never become one: each of them gets a number
/// of its own, which is not zero.
pub proof fn imported_hypotheses_stay_apart(
    merge: MergeView,
    allocations: Seq<ForeignHypothesisAllocationDto>,
    sets: Seq<HypothesisSetAllocationDto>,
    a: int,
    b: int,
)
    requires
        lowering_fault(merge, allocations, sets) is None,
        0 <= a < pending(merge.entities, merge.entities.len() as int).len(),
        0 <= b < pending(merge.entities, merge.entities.len() as int).len(),
        pending(merge.entities, merge.entities.len() as int)[a].id != pending(
            merge.entities,
            merge.entities.len() as int,
        )[b].id,
    ensures
        ({
            let list = pending(merge.entities, merge.entities.len() as int);
            &&& mapping_of(list[a], allocations).project.0 != 0
            &&& mapping_of(list[a], allocations).project != mapping_of(list[b], allocations).project
        }),
{
    let list = pending(merge.entities, merge.entities.len() as int);
    let i = lemma_allocated(allocations, list[a].id, 0);
    let j = lemma_allocated(allocations, list[b].id, 0);
    let numbers = allocated_numbers(allocations);
    assert(numbers[i] == allocations[i].project_id);
    assert(numbers[j] == allocations[j].project_id);
}

/// An import maps exactly the hypotheses that were pending, each to the number that
/// it was put under.
pub proof fn every_pending_hypothesis_is_mapped(
    import: UndoableForeignImport,
    merge: MergeView,
    base_revision: u64,
    allocations: Seq<ForeignHypothesisAllocationDto>,
    sets: Seq<HypothesisSetAllocationDto>,
)
    requires
        is_lowering(import, merge, base_revision, allocations, sets),
    ensures
        mapping_views(import.mappings@).to_multiset() == pending(
            merge.entities,
            merge.entities.len() as int,
        ).map_values(|e: PlannedView| mapping_of(e, allocations)).to_multiset(),
        forall|k: int|
            0 <= k < pending(merge.entities, merge.entities.len() as int).len() ==> (
            #[trigger] import.envelope.commands@[k] matches DomainCommand::PutHypothesis {
                before: None,
                after: Some(after),
            } && after.id == mapping_of(
                pending(merge.entities, merge.entities.len() as int)[k],
                allocations,
            ).project),
{
    let list = pending(merge.entities, merge.entities.len() as int);
    ranked_is_an_ordering(list.map_values(|e: PlannedView| mapping_of(e, allocations)));
}

/// An import claims both identities of every hypothesis: the one it gets here and
/// the one it has in its reading.
pub proof fn both_identities_are_claimed(
    import: UndoableForeignImport,
    merge: MergeView,
    base_revision: u64,
    allocations: Seq<ForeignHypothesisAllocationDto>,
    sets: Seq<HypothesisSetAllocationDto>,
    k: int,
)
    requires
        is_lowering(import, merge, base_revision, allocations, sets),
        0 <= k < pending(merge.entities, merge.entities.len() as int).len(),
    ensures
        ({
            let entity = pending(merge.entities, merge.entities.len() as int)[k];
            &&& import.envelope.id_claims@.contains(
                IdClaim::Hypothesis(mapping_of(entity, allocations).project),
            )
            &&& import.envelope.id_claims@.contains(foreign_claim(entity))
            &&& import.envelope.id_claims@.no_duplicates()
        }),
{
    let list = pending(merge.entities, merge.entities.len() as int);
    let commands = import.envelope.commands@;
    let claims = claims_of(commands, list);
    assert(claims[k] == claim_of(commands[k]));
    assert(claims[commands.len() + k] == foreign_claim(list[k]));
    lemma_first_claims(claims);
    assert(claims.contains(claims[k]));
    assert(claims.contains(claims[commands.len() + k]));
}

proof fn lemma_first_claims(claims: Seq<IdClaim>)
    ensures
        first_claims(claims).no_duplicates(),
        forall|claim: IdClaim|
            #[trigger] first_claims(claims).contains(claim) == claims.contains(claim),
    decreases claims.len(),
{
    if claims.len() > 0 {
        lemma_first_claims(claims.drop_last());
        let earlier = first_claims(claims.drop_last());
        let last = claims.last();
        assert forall|claim: IdClaim| #[trigger] first_claims(claims).contains(claim)
            == claims.contains(claim) by {
            if claims.contains(claim) {
                let i = choose|i: int| 0 <= i < claims.len() && claims[i] == claim;
                if i < claims.len() - 1 {
                    assert(claims.drop_last()[i] == claim);
                    assert(earlier.contains(claim));
                    let j = choose|j: int| 0 <= j < earlier.len() && earlier[j] == claim;
                    assert(first_claims(claims)[j] == claim);
                } else if !earlier.contains(last) {
                    assert(first_claims(claims)[earlier.len() as int] == last);
                }
            }
            if first_claims(claims).contains(claim) {
                let j = choose|j: int|
                    0 <= j < first_claims(claims).len() && first_claims(claims)[j] == claim;
                if j < earlier.len() {
                    assert(earlier[j] == claim);
                    assert(earlier.contains(claim));
                    assert(claims.drop_last().contains(claim));
                    let i = choose|i: int|
                        0 <= i < claims.drop_last().len() && claims.drop_last()[i] == claim;
                    assert(claims[i] == claim);
                } else {
                    assert(claims[claims.len() - 1] == claim);
                }
            }
        }
    }
}

/// Claims of which none comes up twice are all kept, in their order.
pub proof fn distinct_claims_all_stay(claims: Seq<IdClaim>)
    requires
        claims.no_duplicates(),
    ensures
        first_claims(claims) == claims,
    decreases claims.len(),
{
    if claims.len() > 0 {
        let rest = claims.drop_last();
        distinct_claims_all_stay(rest);
        if rest.contains(claims.last()) {
            let i = choose|i: int| 0 <= i < rest.len() && rest[i] == claims.last();
            assert(claims[i] == claims[claims.len() - 1]);
        }
        assert(rest.push(claims.last()) =~= claims);
    }
}

/// Nothing that an import puts was there before, so that taking all of it back leaves
/// what was there; and no set that it puts has an alternative selected.
pub proof fn imports_only_add_open_questions(
    import: UndoableForeignImport,
    merge: MergeView,
    base_revision: u64,
    allocations: Seq<ForeignHypothesisAllocationDto>,
    sets: Seq<HypothesisSetAllocationDto>,
    k: int,
)
    requires
        is_lowering(import, merge, base_revision, allocations, sets),
        0 <= k < import.envelope.commands@.len(),
    ensures
        match import.envelope.commands@[k] {
            DomainCommand::PutHypothesis { before, after } => before is None && after is Some,
            DomainCommand::PutHypothesisSet { before, after } => before is None && after is Some
                && after->0.selection == HypothesisSelection::Unresolved,
            _ => false,
        },
{
    let list = pending(merge.entities, merge.entities.len() as int);
    let groups = set_groups(merge.groups, allocations, merge.groups.len() as int);
    if k >= list.len() {
        assert(puts_set(
            import.envelope.commands@[list.len() + (k - list.len())],
            groups[k - list.len()],
            allocations,
            sets,
        ));
    }
}

/// Whether a number was allocated to an entity.
pub open spec fn is_given(
    allocations: Seq<ForeignHypothesisAllocationDto>,
    id: QualifiedEntityId,
    number: u64,
) -> bool {
    exists|a: int|
        0 <= a < allocations.len() && (#[trigger] allocations[a]).foreign.reading == id.reading
            && allocations[a].foreign.kind@ == id.kind@ && allocations[a].foreign.local_id
            == id.local_id && allocations[a].project_id == number
}

proof fn lemma_pending_index(entities: Seq<PlannedView>, i: int, k: int) -> (n: int)
    requires
        0 <= i <= entities.len(),
        0 <= k < pending(entities, i).len(),
    ensures
        0 <= n < i,
        pending(entities, i)[k] == entities[n],
        entities[n].disposition != ImportDisposition::AlreadyPresent,
        k == pending(entities, n).len(),
    decreases i,
{
    if k < pending(entities, i - 1).len() {
        lemma_pending_index(entities, i - 1, k)
    } else {
        i - 1
    }
}

proof fn lemma_is_pending_at(entities: Seq<PlannedView>, i: int, n: int)
    requires
        0 <= n < i <= entities.len(),
        entities[n].disposition != ImportDisposition::AlreadyPresent,
    ensures
        pending(entities, n).len() < pending(entities, i).len(),
        pending(entities, i)[pending(entities, n).len() as int] == entities[n],
    decreases i,
{
    if n < i - 1 {
        lemma_is_pending_at(entities, i - 1, n);
    }
}

proof fn lemma_is_given(
    allocations: Seq<ForeignHypothesisAllocationDto>,
    id: QualifiedEntityId,
    number: u64,
)
    requires
        distinct_foreign(allocations),
    ensures
        is_given(allocations, id, number) <==> allocated(allocations, id@, 0) == Some(number),
{
    if allocated(allocations, id@, 0) is Some {
        let k = lemma_allocated(allocations, id@, 0);
        assert(is_given(allocations, id, allocations[k].project_id));
    }
    if is_given(allocations, id, number) {
        let a = choose|a: int|
            0 <= a < allocations.len() && (#[trigger] allocations[a]).foreign.reading == id.reading
                && allocations[a].foreign.kind@ == id.kind@ && allocations[a].foreign.local_id
                == id.local_id && allocations[a].project_id == number;
        lemma_allocated_at(allocations, id@, 0, a);
        let k = lemma_allocated(allocations, id@, 0);
        if k < a {
            assert(allocations[k].foreign@ != allocations[a].foreign@);
        } else if a < k {
            assert(allocations[a].foreign@ != allocations[k].foreign@);
        }
    }
}

proof fn lemma_allocated_at(
    list: Seq<ForeignHypothesisAllocationDto>,
    id: EntityKey,
    i: int,
    a: int,
)
    requires
        0 <= i <= a < list.len(),
        list[a].foreign@ == id,
    ensures
        allocated(list, id, i) is Some,
    decreases a - i,
{
    if list[i].foreign@ != id {
        lemma_allocated_at(list, id, i + 1, a);
    }
}

proof fn lemma_allocated_set(list: Seq<HypothesisSetAllocationDto>, group: Seq<char>, i: int) -> (k:
    int)
    requires
        0 <= i,
        allocated_set(list, group, i) is Some,
    ensures
        i <= k < list.len(),
        list[k].group@ == group,
        list[k].project_id == allocated_set(list, group, i)->0,
    decreases list.len() - i,
{
    if list[i].group@ == group {
        i
    } else {
        lemma_allocated_set(list, group, i + 1)
    }
}

proof fn lemma_revision_of(readings: Seq<MergedReading>, reading: ReadingId, i: int) -> (m: int)
    requires
        0 <= i,
        revision_of(readings, reading, i) is Some,
    ensures
        i <= m < readings.len(),
        readings[m].reading_id == reading,
        readings[m].revision == revision_of(readings, reading, i)->0,
        forall|k: int| i <= k < m ==> (#[trigger] readings[k]).reading_id != reading,
    decreases readings.len() - i,
{
    if readings[i].reading_id == reading {
        i
    } else {
        lemma_revision_of(readings, reading, i + 1)
    }
}

proof fn lemma_versioned(list: Seq<PlannedView>, readings: Seq<MergedReading>, i: int, k: int)
    requires
        0 <= i <= k < list.len(),
        first_unversioned(list, readings, i) is None,
    ensures
        revision_of(readings, list[k].id.reading, 0) is Some,
    decreases k - i,
{
    if i < k {
        lemma_versioned(list, readings, i + 1, k);
    }
}

/// An imported hypothesis says what its entity says: every entity that the project does
/// not have yet is put under the number that it was given, with its own label, support
/// and description, and names the reading, the version of it and the entity it comes from.
pub proof fn imported_hypotheses_say_what_their_entities_say(
    import: UndoableForeignImport,
    merge: ReadingMergePlan,
    base_revision: u64,
    allocations: Seq<ForeignHypothesisAllocationDto>,
    sets: Seq<HypothesisSetAllocationDto>,
    n: int,
) -> (r: (int, int))
    requires
        distinct_foreign(allocations),
        lowering_fault(merge@, allocations, sets) is None,
        is_lowering(import, merge@, base_revision, allocations, sets),
        0 <= n < merge.entities@.len(),
        merge.entities@[n].disposition != ImportDisposition::AlreadyPresent,
    ensures
        ({
            let (k, m) = r;
            let entity = merge.entities@[n];
            let reading = merge.readings@[m];
            &&& 0 <= k < import.envelope.commands@.len()
            &&& 0 <= m < merge.readings@.len()
            &&& reading.reading_id == entity.id.reading
            &&& import.envelope.commands@[k] matches DomainCommand::PutHypothesis {
                before: None,
                after: Some(put),
            }
            &&& is_given(allocations, entity.id, put.id.0)
            &&& put.label@ == entity.label@
            &&& (entity.hypothesis matches Some(semantics) ==> {
                &&& put.support_bits == semantics.support_bits
                &&& (semantics.description matches Some(text) ==> put.claims@.len() == 1
                    && put.claims@[0].description@ == text@ && put.claims@[0].objects@.len() == 0)
                &&& (semantics.description is None ==> put.claims@.len() == 0)
            })
            &&& (entity.hypothesis is None ==> put.support_bits == 0 && put.claims@.len() == 0)
            &&& put.evidence@.len() == 0
            &&& put.provenance.created_unix_ms is None
            &&& put.provenance.producer matches ProducerDto::Importer { format, version }
            &&& format@ == "audec-reading"@
            &&& version@ == "1"@
            &&& put.provenance.source_revision matches Some(revision)
            &&& revision@ == "reading:"@ + hex_text(entity.id.reading@) + ":"@ + decimal(
                reading.revision as nat,
            )
            &&& put.provenance.note matches Some(note)
            &&& note@ == "foreign:"@ + hex_text(entity.id.reading@) + ":"@ + entity.id.kind@
                + ":"@ + decimal(entity.id.local_id as nat)
        }),
{
    let entities = merge@.entities;
    let list = pending(entities, entities.len() as int);
    let entity = merge.entities@[n];
    assert(entities[n] == entity@);
    lemma_is_pending_at(entities, entities.len() as int, n);
    let k = pending(entities, n).len() as int;
    lemma_versioned(list, merge.readings@, 0, k);
    let m = lemma_revision_of(merge.readings@, entity.id.reading, 0);
    assert(puts_hypothesis(
        import.envelope.commands@[k],
        list[k],
        allocated(allocations, list[k].id, 0)->0,
        revision_of(merge@.readings, list[k].id.reading, 0)->0,
    ));
    lemma_is_given(allocations, entity.id, allocated(allocations, entity@.id, 0)->0);
    (k, m)
}

/// An import puts nothing else: each of its commands puts the hypothesis of an entity that
/// the project does not have yet, in the order of the entities, or the set of a group. A
/// set asks the question of the group, under the number that was given to it, and has two
/// alternatives or more, all of them among those of the group that are imported.
pub proof fn imports_put_entities_and_their_groups(
    import: UndoableForeignImport,
    merge: ReadingMergePlan,
    base_revision: u64,
    allocations: Seq<ForeignHypothesisAllocationDto>,
    sets: Seq<HypothesisSetAllocationDto>,
    k: int,
) -> (r: int)
    requires
        distinct_foreign(allocations),
        lowering_fault(merge@, allocations, sets) is None,
        is_lowering(import, merge@, base_revision, allocations, sets),
        0 <= k < import.envelope.commands@.len(),
    ensures
        import.envelope.base_revision == base_revision,
        import.envelope.coalesce is None,
        match import.envelope.commands@[k] {
            DomainCommand::PutHypothesis { before: None, after: Some(put) } => {
                &&& 0 <= r < merge.entities@.len()
                &&& merge.entities@[r].disposition != ImportDisposition::AlreadyPresent
                &&& merge.entities@[r].role == PortableEntityRole::Hypothesis
                &&& merge.entities@[r].label@ == put.label@
                &&& is_given(allocations, merge.entities@[r].id, put.id.0)
            },
            DomainCommand::PutHypothesisSet { before: None, after: Some(put) } => {
                &&& 0 <= r < merge.hypothesis_groups@.len()
                &&& put.question@ == merge.hypothesis_groups@[r].key@
                &&& put.selection == HypothesisSelection::Unresolved
                &&& put.alternatives@.len() >= 2
                &&& exists|s: int|
                    0 <= s < sets.len() && (#[trigger] sets[s]).group@ == put.question@
                        && sets[s].project_id == put.id.0
                &&& lists_imported(
                    put.alternatives@,
                    merge.hypothesis_groups@[r].alternatives@,
                    allocations,
                )
            },
            _ => false,
        },
{
    let entities = merge@.entities;
    let list = pending(entities, entities.len() as int);
    let groups = set_groups(merge@.groups, allocations, merge@.groups.len() as int);
    if k < list.len() {
        let n = lemma_pending_index(entities, entities.len() as int, k);
        assert(entities[n] == merge.entities@[n]@);
        lemma_supported(list, 0, k);
        assert(puts_hypothesis(
            import.envelope.commands@[k],
            list[k],
            allocated(allocations, list[k].id, 0)->0,
            revision_of(merge@.readings, list[k].id.reading, 0)->0,
        ));
        lemma_is_given(
            allocations,
            merge.entities@[n].id,
            allocated(allocations, entities[n].id, 0)->0,
        );
        n
    } else {
        let g = k - list.len();
        assert(puts_set(
            import.envelope.commands@[list.len() + g],
            groups[g],
            allocations,
            sets,
        ));
        let n = lemma_set_group(merge@.groups, allocations, merge@.groups.len() as int, g);
        assert(merge@.groups[n] == merge.hypothesis_groups@[n]@);
        let alternatives = merge.hypothesis_groups@[n].alternatives@;
        assert(merge@.groups[n].alternatives == entity_keys(alternatives));
        lemma_imported_alternatives(alternatives, allocations, alternatives.len() as int);
        let s = lemma_allocated_set(sets, groups[g].key, 0);
        n
    }
}

/// Whether a list of hypotheses is that of the alternatives which are imported, in their
/// order.
pub open spec fn lists_imported(
    list: Seq<HypothesisId>,
    alternatives: Seq<QualifiedEntityId>,
    allocations: Seq<ForeignHypothesisAllocationDto>,
) -> bool {
    let imported = alternatives.filter(
        |id: QualifiedEntityId| exists|number: u64| #[trigger] is_given(allocations, id, number),
    );
    &&& list.len() == imported.len()
    &&& forall|i: int|
        0 <= i < list.len() ==> is_given(allocations, #[trigger] imported[i], list[i].0)
}

proof fn lemma_imported_alternatives(
    alternatives: Seq<QualifiedEntityId>,
    allocations: Seq<ForeignHypothesisAllocationDto>,
    i: int,
)
    requires
        distinct_foreign(allocations),
        0 <= i <= alternatives.len(),
    ensures
        lists_imported(
            imported_alternatives(entity_keys(alternatives), allocations, i),
            alternatives.take(i),
            allocations,
        ),
        alternatives.take(alternatives.len() as int) == alternatives,
    decreases i,
{
    reveal(Seq::filter);
    assert(alternatives.take(alternatives.len() as int) =~= alternatives);
    if i > 0 {
        lemma_imported_alternatives(alternatives, allocations, i - 1);
        assert(alternatives.take(i).drop_last() =~= alternatives.take(i - 1));
        let id = alternatives[i - 1];
        assert(entity_keys(alternatives)[i - 1] == id@);
        assert forall|number: u64| #[trigger] is_given(allocations, id, number) <==> allocated(
            allocations,
            id@,
            0,
        ) == Some(number) by {
            lemma_is_given(allocations, id, number);
        }
        if allocated(allocations, id@, 0) is Some {
            assert(is_given(allocations, id, allocated(allocations, id@, 0)->0));
        }
    }
}

proof fn lemma_set_group(
    groups: Seq<GroupView>,
    allocations: Seq<ForeignHypothesisAllocationDto>,
    i: int,
    g: int,
) -> (n: int)
    requires
        0 <= i <= groups.len(),
        0 <= g < set_groups(groups, allocations, i).len(),
    ensures
        0 <= n < i,
        set_groups(groups, allocations, i)[g] == groups[n],
        becomes_set(groups[n], allocations),
        g == set_groups(groups, allocations, n).len(),
    decreases i,
{
    if g < set_groups(groups, allocations, i - 1).len() {
        lemma_set_group(groups, allocations, i - 1, g)
    } else {
        i - 1
    }
}

proof fn lemma_supported(list: Seq<PlannedView>, i: int, k: int)
    requires
        0 <= i <= k < list.len(),
        first_unsupported(list, i) is None,
    ensures
        list[k].role == PortableEntityRole::Hypothesis,
    decreases k - i,
{
    if i < k {
        lemma_supported(list, i + 1, k);
    }
}

proof fn lemma_becomes_set_at(
    groups: Seq<GroupView>,
    allocations: Seq<ForeignHypothesisAllocationDto>,
    i: int,
    n: int,
)
    requires
        0 <= n < i <= groups.len(),
        becomes_set(groups[n], allocations),
    ensures
        set_groups(groups, allocations, n).len() < set_groups(groups, allocations, i).len(),
        set_groups(groups, allocations, i)[set_groups(groups, allocations, n).len() as int]
            == groups[n],
    decreases i,
{
    if n < i - 1 {
        lemma_becomes_set_at(groups, allocations, i - 1, n);
    }
}

/// Every group of which two alternatives are imported becomes a set.
pub proof fn imported_alternatives_stay_together(
    import: UndoableForeignImport,
    merge: ReadingMergePlan,
    base_revision: u64,
    allocations: Seq<ForeignHypothesisAllocationDto>,
    sets: Seq<HypothesisSetAllocationDto>,
    g: int,
    a: int,
    b: int,
) -> (k: int)
    requires
        distinct_foreign(allocations),
        is_lowering(import, merge@, base_revision, allocations, sets),
        0 <= g < merge.hypothesis_groups@.len(),
        0 <= a < b < merge.hypothesis_groups@[g].alternatives@.len(),
        exists|number: u64| #[trigger]
            is_given(allocations, merge.hypothesis_groups@[g].alternatives@[a], number),
        exists|number: u64| #[trigger]
            is_given(allocations, merge.hypothesis_groups@[g].alternatives@[b], number),
    ensures
        0 <= k < import.envelope.commands@.len(),
        import.envelope.commands@[k] matches DomainCommand::PutHypothesisSet {
            before: None,
            after: Some(put),
        } && put.question@ == merge.hypothesis_groups@[g].key@,
{
    let alternatives = merge.hypothesis_groups@[g].alternatives@;
    let keys = entity_keys(alternatives);
    let groups = merge@.groups;
    assert(groups[g] == merge.hypothesis_groups@[g]@);
    let x = choose|number: u64| #[trigger] is_given(allocations, alternatives[a], number);
    let y = choose|number: u64| #[trigger] is_given(allocations, alternatives[b], number);
    lemma_is_given(allocations, alternatives[a], x);
    lemma_is_given(allocations, alternatives[b], y);
    lemma_imported_count(keys, allocations, a, a + 1);
    lemma_imported_count(keys, allocations, a + 1, b);
    lemma_imported_count(keys, allocations, b, b + 1);
    lemma_imported_count(keys, allocations, b + 1, keys.len() as int);
    lemma_becomes_set_at(groups, allocations, groups.len() as int, g);
    let at = set_groups(groups, allocations, g).len() as int;
    let list = pending(merge@.entities, merge@.entities.len() as int);
    assert(puts_set(
        import.envelope.commands@[list.len() + at],
        set_groups(groups, allocations, groups.len() as int)[at],
        allocations,
        sets,
    ));
    list.len() + at
}

proof fn lemma_imported_count(
    alternatives: Seq<EntityKey>,
    allocations: Seq<ForeignHypothesisAllocationDto>,
    i: int,
    n: int,
)
    requires
        0 <= i <= n <= alternatives.len(),
    ensures
        imported_alternatives(alternatives, allocations, i).len() <= imported_alternatives(
            alternatives,
            allocations,
            n,
        ).len(),
    decreases n - i,
{
    if i < n {
        lemma_imported_count(alternatives, allocations, i, n - 1);
    }
}

/// A merge is refused for what it holds: for an entity that is no hypothesis, or that no
/// number was given to; for numbers that are zero or given twice; for a reading without a
/// version. A merge without anything new is refused too.
pub proof fn imports_are_refused_for_a_reason(
    merge: ReadingMergePlan,
    allocations: Seq<ForeignHypothesisAllocationDto>,
    sets: Seq<HypothesisSetAllocationDto>,
    n: int,
)
    requires
        distinct_foreign(allocations),
        0 <= n < merge.entities@.len(),
        merge.entities@[n].disposition != ImportDisposition::AlreadyPresent,
    ensures
        merge.entities@[n].role != PortableEntityRole::Hypothesis ==> lowering_fault(
            merge@,
            allocations,
            sets,
        ) matches Some(LoweringFault::UnsupportedEntity(_)),
        lowering_fault(merge@, allocations, sets) is None ==> (exists|number: u64|
            number != 0 && #[trigger] is_given(allocations, merge.entities@[n].id, number)) && (
        exists|m: int|
            0 <= m < merge.readings@.len() && (#[trigger] merge.readings@[m]).reading_id
                == merge.entities@[n].id.reading),
        lowering_fault(merge@, allocations, sets) != Some(LoweringFault::NothingToImport),
        lowering_fault(merge@, allocations, sets) is None ==> forall|a: int, b: int|
            0 <= a < b < allocations.len() ==> (#[trigger] allocations[a]).project_id != (
            #[trigger] allocations[b]).project_id,
{
    let entities = merge@.entities;
    let list = pending(entities, entities.len() as int);
    assert(entities[n] == merge.entities@[n]@);
    lemma_is_pending_at(entities, entities.len() as int, n);
    let k = pending(entities, n).len() as int;
    if merge.entities@[n].role != PortableEntityRole::Hypothesis && first_unsupported(list, 0)
        is None {
        lemma_supported(list, 0, k);
    }
    lemma_sets_fault(merge@.groups, allocations, sets, 0);
    if lowering_fault(merge@, allocations, sets) is None {
        lemma_versioned(list, merge.readings@, 0, k);
        let m = lemma_revision_of(merge.readings@, merge.entities@[n].id.reading, 0);
        let a = lemma_allocated(allocations, list[k].id, 0);
        assert(allocated_numbers(allocations)[a] == allocations[a].project_id);
        assert(is_given(allocations, merge.entities@[n].id, allocations[a].project_id));
        assert forall|a: int, b: int| 0 <= a < b < allocations.len() implies (
        #[trigger] allocations[a]).project_id != (#[trigger] allocations[b]).project_id by {
            assert(allocated_numbers(allocations)[a] != allocated_numbers(allocations)[b]);
        }
    }
}

/// Sets that are accepted have numbers of their own, none of them zero. Each stands for a
/// question of the readings.
pub proof fn accepted_sets_have_numbers_of_their_own(
    merge: ReadingMergePlan,
    allocations: Seq<ForeignHypothesisAllocationDto>,
    sets: Seq<HypothesisSetAllocationDto>,
)
    requires
        lowering_fault(merge@, allocations, sets) is None,
    ensures
        forall|i: int| 0 <= i < sets.len() ==> (#[trigger] sets[i]).project_id != 0,
        forall|i: int, j: int|
            0 <= i < j < sets.len() ==> (#[trigger] sets[i]).project_id != (
            #[trigger] sets[j]).project_id,
        forall|i: int|
            0 <= i < sets.len() ==> exists|g: int|
                0 <= g < merge@.groups.len() && (#[trigger] merge@.groups[g]).key == (
                #[trigger] sets[i]).group@,
{
    let numbers = allocated_set_numbers(sets);
    assert forall|i: int| 0 <= i < sets.len() implies (#[trigger] sets[i]).project_id != 0 by {
        assert(numbers[i] == sets[i].project_id);
    }
    assert forall|i: int, j: int| 0 <= i < j < sets.len() implies (#[trigger] sets[i]).project_id
        != (#[trigger] sets[j]).project_id by {
        assert(numbers[i] != numbers[j]);
    }
    assert forall|i: int| 0 <= i < sets.len() implies exists|g: int|
        0 <= g < merge@.groups.len() && (#[trigger] merge@.groups[g]).key == (
        #[trigger] sets[i]).group@ by {
        assert(is_set_question(merge@.groups, allocations, sets[i].group@));
    }
}

proof fn lemma_sets_fault(
    groups: Seq<GroupView>,
    allocations: Seq<ForeignHypothesisAllocationDto>,
    sets: Seq<HypothesisSetAllocationDto>,
    i: int,
)
    ensures
        sets_fault(groups, allocations, sets, i) != Some(LoweringFault::NothingToImport),
    decreases groups.len() - i,
{
    if 0 <= i < groups.len() {
        lemma_sets_fault(groups, allocations, sets, i + 1);
    }
}

/// A project that has everything already gets nothing.
pub proof fn nothing_new_is_refused(
    merge: ReadingMergePlan,
    sets: Seq<HypothesisSetAllocationDto>,
)
    requires
        forall|n: int|
            0 <= n < merge.entities@.len() ==> (#[trigger] merge.entities@[n]).disposition
                == ImportDisposition::AlreadyPresent,
    ensures
        lowering_fault(merge@, Seq::empty(), sets) is Some,
        sets.len() == 0 ==> lowering_fault(merge@, Seq::empty(), sets) == Some(
            LoweringFault::NothingToImport,
        ),
{
    let none = Seq::<ForeignHypothesisAllocationDto>::empty();
    let entities = merge@.entities;
    let list = pending(entities, entities.len() as int);
    if list.len() > 0 {
        let n = lemma_pending_index(entities, entities.len() as int, 0);
        assert(entities[n] == merge.entities@[n]@);
    }
    assert forall|g: int| 0 <= g < merge@.groups.len() implies !becomes_set(
        #[trigger] merge@.groups[g],
        none,
    ) by {
        let group = merge@.groups[g];
        lemma_none_imported(group.alternatives, group.alternatives.len() as int);
    }
    let groups = set_groups(merge@.groups, none, merge@.groups.len() as int);
    if groups.len() > 0 {
        let g = lemma_set_group(merge@.groups, none, merge@.groups.len() as int, 0);
    }
    lemma_no_sets_fault(merge@.groups, none, sets, 0);
}

proof fn lemma_none_imported(alternatives: Seq<EntityKey>, i: int)
    requires
        0 <= i <= alternatives.len(),
    ensures
        imported_alternatives(alternatives, Seq::empty(), i).len() == 0,
    decreases i,
{
    if i > 0 {
        lemma_none_imported(alternatives, i - 1);
    }
}

proof fn lemma_no_sets_fault(
    groups: Seq<GroupView>,
    allocations: Seq<ForeignHypothesisAllocationDto>,
    sets: Seq<HypothesisSetAllocationDto>,
    i: int,
)
    requires
        0 <= i <= groups.len(),
        forall|g: int| 0 <= g < groups.len() ==> !becomes_set(#[trigger] groups[g], allocations),
    ensures
        sets_fault(groups, allocations, sets, i) is None,
    decreases groups.len() - i,
{
    if i < groups.len() {
        lemma_no_sets_fault(groups, allocations, sets, i + 1);
    }
}

} // verus!
