//! Merging the inventories of readings without electing a winner.

use vstd::prelude::*;
use vstd::string::*;

use crate::rank::{
    append_byte_rank, byte_rank, ranked, ranked_commutes_with_views, sort_by_rank, HasRank, Ranked,
};
use crate::reading::{
    entity_keys, section_views, EntityKey, QualifiedEntityId, ReadingId, ReadingSection,
    SectionView, VerificationTier,
};
use crate::reading_import::{
    planned_same, planned_views, PlanView, PlannedReadingEntity, PlannedView, PortableEntityRole,
    ReadingImportPlan,
};
use crate::text::{
    append_decimal, append_hex, decimal, hex_text, holds_text, owned, same_text, text_views,
};

verus! {

/// Hypotheses that answer the same question.
#[derive(Debug, PartialEq)]
pub struct CoexistingHypothesisGroup {
    pub key: String,
    pub alternatives: Vec<QualifiedEntityId>,
}

/// What a group holds.
pub struct GroupView {
    pub key: Seq<char>,
    pub alternatives: Seq<EntityKey>,
}

impl View for CoexistingHypothesisGroup {
    type V = GroupView;

    open spec fn view(&self) -> GroupView {
        GroupView { key: self.key@, alternatives: entity_keys(self.alternatives@) }
    }
}

/// What a list of groups holds.
pub open spec fn group_views(groups: Seq<CoexistingHypothesisGroup>) -> Seq<GroupView> {
    groups.map_values(|g: CoexistingHypothesisGroup| g@)
}

/// One merged reading and how far it was verified.
#[derive(Clone, Copy, Debug, PartialEq, Eq)]
pub struct MergedReading {
    pub reading_id: ReadingId,
    pub revision: u64,
    pub verification: VerificationTier,
}

/// The rank of a version of a reading.
pub open spec fn version_rank(reading: ReadingId, revision: u64) -> Seq<u64> {
    byte_rank(reading@) + seq![revision]
}

fn version_key(reading: ReadingId, revision: u64) -> (r: Vec<u64>)
    ensures
        r@ == version_rank(reading, revision),
{
    let mut key: Vec<u64> = Vec::new();
    let bytes = reading.bytes();
    append_byte_rank(&mut key, bytes.as_slice());
    key.push(revision);
    assert(key@ =~= version_rank(reading, revision));
    key
}

impl HasRank for MergedReading {
    open spec fn rank(&self) -> Seq<u64> {
        version_rank(self.reading_id, self.revision)
    }
}

impl Ranked for MergedReading {
    fn rank_key(&self) -> (r: Vec<u64>) {
        version_key(self.reading_id, self.revision)
    }
}

/// The sections of one reading that were kept without being understood.
#[derive(Debug, PartialEq)]
pub struct PreservedSections {
    pub reading_id: ReadingId,
    pub revision: u64,
    pub sections: Vec<ReadingSection>,
}

/// What a list of kept sections holds.
pub struct PreservedView {
    pub reading_id: ReadingId,
    pub revision: u64,
    pub sections: Seq<SectionView>,
}

impl View for PreservedSections {
    type V = PreservedView;

    open spec fn view(&self) -> PreservedView {
        PreservedView {
            reading_id: self.reading_id,
            revision: self.revision,
            sections: section_views(self.sections@),
        }
    }
}

impl HasRank for PreservedView {
    open spec fn rank(&self) -> Seq<u64> {
        version_rank(self.reading_id, self.revision)
    }
}

impl HasRank for PreservedSections {
    open spec fn rank(&self) -> Seq<u64> {
        version_rank(self.reading_id, self.revision)
    }
}

impl Ranked for PreservedSections {
    fn rank_key(&self) -> (r: Vec<u64>) {
        version_key(self.reading_id, self.revision)
    }
}

/// What several lists of kept sections hold.
pub open spec fn preserved_views(list: Seq<PreservedSections>) -> Seq<PreservedView> {
    list.map_values(|p: PreservedSections| p@)
}

/// The inventory of several readings together.
#[derive(Debug, PartialEq)]
pub struct ReadingMergePlan {
    pub readings: Vec<MergedReading>,
    pub entities: Vec<PlannedReadingEntity>,
    pub hypothesis_groups: Vec<CoexistingHypothesisGroup>,
    pub preserved_sections: Vec<PreservedSections>,
}

/// What a merge holds.
pub struct MergeView {
    pub readings: Seq<MergedReading>,
    pub entities: Seq<PlannedView>,
    pub groups: Seq<GroupView>,
    pub preserved: Seq<PreservedView>,
}

impl View for ReadingMergePlan {
    type V = MergeView;

    open spec fn view(&self) -> MergeView {
        MergeView {
            readings: self.readings@,
            entities: planned_views(self.entities@),
            groups: group_views(self.hypothesis_groups@),
            preserved: preserved_views(self.preserved_sections@),
        }
    }
}

/// Why readings cannot be merged.
#[derive(Debug, PartialEq)]
pub enum ReadingMergeRefusal {
    DuplicateReadingVersion { reading: ReadingId, revision: u64 },
    ConflictingQualifiedEntity(QualifiedEntityId),
}

/// What a refusal to merge says.
pub enum MergeFault {
    DuplicateReadingVersion { reading: ReadingId, revision: u64 },
    ConflictingQualifiedEntity(EntityKey),
}

impl View for ReadingMergeRefusal {
    type V = MergeFault;

    open spec fn view(&self) -> MergeFault {
        match *self {
            ReadingMergeRefusal::DuplicateReadingVersion {
                reading,
                revision,
            } => MergeFault::DuplicateReadingVersion { reading, revision },
            ReadingMergeRefusal::ConflictingQualifiedEntity(
                id,
            ) => MergeFault::ConflictingQualifiedEntity(id@),
        }
    }
}

/// What a list of plans holds.
pub open spec fn plan_views(plans: Seq<ReadingImportPlan>) -> Seq<PlanView> {
    plans.map_values(|p: ReadingImportPlan| p@)
}

/// The index of the first entity with an identity, from `i` on.
pub open spec fn view_index(list: Seq<PlannedView>, id: EntityKey, i: int) -> Option<int>
    decreases list.len() - i,
{
    if i < 0 || i >= list.len() {
        None
    } else if list[i].id == id {
        Some(i)
    } else {
        view_index(list, id, i + 1)
    }
}

/// The entities after the first `j` of a plan were taken in: an entity that is
/// there already is taken once, a different one of the same identity conflicts.
pub open spec fn absorbed(acc: Seq<PlannedView>, entities: Seq<PlannedView>, j: int) -> Result<
    Seq<PlannedView>,
    MergeFault,
>
    decreases j,
{
    if j <= 0 {
        Ok(acc)
    } else {
        match absorbed(acc, entities, j - 1) {
            Err(fault) => Err(fault),
            Ok(done) => match view_index(done, entities[j - 1].id, 0) {
                Some(k) => if !planned_same(done[k], entities[j - 1]) {
                    Err(MergeFault::ConflictingQualifiedEntity(entities[j - 1].id))
                } else {
                    Ok(done)
                },
                None => Ok(done.push(entities[j - 1])),
            },
        }
    }
}

/// Whether an earlier plan is of the same version as plan `i`.
pub open spec fn repeats_version(plans: Seq<PlanView>, i: int) -> bool {
    exists|j: int|
        0 <= j < i && (#[trigger] plans[j]).reading_id == plans[i].reading_id
            && plans[j].reading_revision == plans[i].reading_revision
}

/// The entities of the first `i` plans, each identity once, in the order they
/// came in.
pub open spec fn merged_entities(plans: Seq<PlanView>, i: int) -> Result<
    Seq<PlannedView>,
    MergeFault,
>
    decreases i,
{
    if i <= 0 {
        Ok(Seq::empty())
    } else {
        match merged_entities(plans, i - 1) {
            Err(fault) => Err(fault),
            Ok(done) => if repeats_version(plans, i - 1) {
                Err(
                    MergeFault::DuplicateReadingVersion {
                        reading: plans[i - 1].reading_id,
                        revision: plans[i - 1].reading_revision,
                    },
                )
            } else {
                absorbed(done, plans[i - 1].entities, plans[i - 1].entities.len() as int)
            },
        }
    }
}

/// The question that a hypothesis answers: its group, or one of its own.
pub open spec fn question_of(entity: PlannedView) -> Seq<char> {
    match entity.hypothesis_group {
        Some(group) => group,
        None => "ungrouped:"@ + hex_text(entity.id.reading@) + ":"@ + entity.id.kind + ":"@
            + decimal(entity.id.local_id as nat),
    }
}

/// The questions that the hypotheses among the first `i` entities answer, each
/// once.
pub open spec fn questions(list: Seq<PlannedView>, i: int) -> Seq<Seq<char>>
    decreases i,
{
    if i <= 0 {
        Seq::empty()
    } else {
        let before = questions(list, i - 1);
        if list[i - 1].role == PortableEntityRole::Hypothesis && !before.contains(
            question_of(list[i - 1]),
        ) {
            before.push(question_of(list[i - 1]))
        } else {
            before
        }
    }
}

/// The hypotheses among the first `i` entities that answer a question.
pub open spec fn answers(list: Seq<PlannedView>, question: Seq<char>, i: int) -> Seq<EntityKey>
    decreases i,
{
    if i <= 0 {
        Seq::empty()
    } else if list[i - 1].role == PortableEntityRole::Hypothesis && question_of(list[i - 1])
        == question {
        answers(list, question, i - 1).push(list[i - 1].id)
    } else {
        answers(list, question, i - 1)
    }
}

/// The group of a question.
pub open spec fn group_of(list: Seq<PlannedView>, question: Seq<char>) -> GroupView {
    GroupView {
        key: question,
        alternatives: ranked(answers(list, question, list.len() as int)),
    }
}

/// All groups, in the order of their questions.
pub open spec fn groups_of(list: Seq<PlannedView>) -> Seq<GroupView> {
    ranked(questions(list, list.len() as int)).map_values(|q: Seq<char>| group_of(list, q))
}

/// A plan as a merged reading.
pub open spec fn version_of(plan: PlanView) -> MergedReading {
    MergedReading {
        reading_id: plan.reading_id,
        revision: plan.reading_revision,
        verification: plan.verification,
    }
}

/// The kept sections of a plan.
pub open spec fn preserved_of(plan: PlanView) -> PreservedView {
    PreservedView {
        reading_id: plan.reading_id,
        revision: plan.reading_revision,
        sections: plan.preserved_sections,
    }
}

/// The merge of plans, or why there is none.
pub open spec fn merged(plans: Seq<PlanView>) -> Result<MergeView, MergeFault> {
    match merged_entities(plans, plans.len() as int) {
        Err(fault) => Err(fault),
        Ok(list) => Ok(
            MergeView {
                readings: ranked(plans.map_values(|p: PlanView| version_of(p))),
                entities: ranked(list),
                groups: groups_of(list),
                preserved: ranked(plans.map_values(|p: PlanView| preserved_of(p))),
            },
        ),
    }
}

proof fn lemma_absorbed_error(acc: Seq<PlannedView>, entities: Seq<PlannedView>, i: int, j: int)
    requires
        0 <= i <= j,
        absorbed(acc, entities, i) is Err,
    ensures
        absorbed(acc, entities, j) == absorbed(acc, entities, i),
    decreases j - i,
{
    if i < j {
        lemma_absorbed_error(acc, entities, i, j - 1);
    }
}

proof fn lemma_merged_error(plans: Seq<PlanView>, i: int, j: int)
    requires
        0 <= i <= j,
        merged_entities(plans, i) is Err,
    ensures
        merged_entities(plans, j) == merged_entities(plans, i),
    decreases j - i,
{
    if i < j {
        lemma_merged_error(plans, i, j - 1);
    }
}

fn find_planned(list: &Vec<PlannedReadingEntity>, id: &QualifiedEntityId) -> (r: Option<usize>)
    ensures
        match r {
            Some(i) => view_index(planned_views(list@), id@, 0) == Some(i as int) && i < list@.len(),
            None => view_index(planned_views(list@), id@, 0) is None,
        },
{
    let ghost views = planned_views(list@);
    let mut i: usize = 0;
    while i < list.len()
        invariant
            i <= list.len(),
            views == planned_views(list@),
            view_index(views, id@, 0) == view_index(views, id@, i as int),
        decreases list.len() - i,
    {
        assert(views[i as int] == list@[i as int]@);
        if list[i].id.same(id) {
            return Some(i);
        }
        i = i + 1;
    }
    None
}

fn absorb(acc: &mut Vec<PlannedReadingEntity>, entities: &Vec<PlannedReadingEntity>) -> (r: Result<
    (),
    ReadingMergeRefusal,
>)
    ensures
        ({
            let outcome = absorbed(
                planned_views(old(acc)@),
                planned_views(entities@),
                entities@.len() as int,
            );
            match r {
                Ok(_) => outcome == Ok::<Seq<PlannedView>, MergeFault>(planned_views(final(acc)@)),
                Err(refusal) => outcome == Err::<Seq<PlannedView>, MergeFault>(refusal@),
            }
        }),
{
    let ghost start = planned_views(acc@);
    let ghost views = planned_views(entities@);
    let mut j: usize = 0;
    while j < entities.len()
        invariant
            j <= entities.len(),
            start == planned_views(old(acc)@),
            views == planned_views(entities@),
            absorbed(start, views, j as int) == Ok::<Seq<PlannedView>, MergeFault>(
                planned_views(acc@),
            ),
        decreases entities.len() - j,
    {
        assert(views[j as int] == entities@[j as int]@);
        let ghost before = planned_views(acc@);
        match find_planned(acc, &entities[j].id) {
            Some(k) => {
                assert(before[k as int] == acc@[k as int]@);
                if !acc[k].same(&entities[j]) {
                    proof {
                        lemma_absorbed_error(start, views, j as int + 1, views.len() as int);
                    }
                    return Err(
                        ReadingMergeRefusal::ConflictingQualifiedEntity(entities[j].id.clone()),
                    );
                }
            },
            None => {
                let copy = entities[j].copy();
                acc.push(copy);
                assert(planned_views(acc@) =~= before.push(copy@));
            },
        }
        j = j + 1;
    }
    Ok(())
}

fn question_text(entity: &PlannedReadingEntity) -> (r: String)
    ensures
        r@ == question_of(entity@),
{
    match &entity.hypothesis_group {
        Some(group) => group.clone(),
        None => {
            let mut out = owned("ungrouped:");
            let bytes = entity.id.reading.bytes();
            append_hex(&mut out, bytes.as_slice());
            out.append(":");
            out.append(entity.id.kind.as_str());
            out.append(":");
            append_decimal(&mut out, entity.id.local_id);
            out
        },
    }
}

fn collect_questions(list: &Vec<PlannedReadingEntity>) -> (r: Vec<String>)
    ensures
        text_views(r@) == questions(planned_views(list@), list@.len() as int),
{
    let ghost views = planned_views(list@);
    let mut out: Vec<String> = Vec::new();
    let mut i: usize = 0;
    assert(text_views(out@) =~= Seq::<Seq<char>>::empty());
    while i < list.len()
        invariant
            i <= list.len(),
            views == planned_views(list@),
            text_views(out@) == questions(views, i as int),
        decreases list.len() - i,
    {
        assert(views[i as int] == list@[i as int]@);
        let ghost before = text_views(out@);
        if list[i].role == PortableEntityRole::Hypothesis {
            let question = question_text(&list[i]);
            if !holds_text(&out, question.as_str()) {
                out.push(question);
                assert(text_views(out@) =~= before.push(question@));
            }
        }
        i = i + 1;
    }
    out
}

fn collect_answers(list: &Vec<PlannedReadingEntity>, question: &str) -> (r: Vec<QualifiedEntityId>)
    ensures
        entity_keys(r@) == answers(planned_views(list@), question@, list@.len() as int),
{
    let ghost views = planned_views(list@);
    let mut out: Vec<QualifiedEntityId> = Vec::new();
    let mut i: usize = 0;
    assert(entity_keys(out@) =~= Seq::<EntityKey>::empty());
    while i < list.len()
        invariant
            i <= list.len(),
            views == planned_views(list@),
            entity_keys(out@) == answers(views, question@, i as int),
        decreases list.len() - i,
    {
        assert(views[i as int] == list@[i as int]@);
        let ghost before = entity_keys(out@);
        if list[i].role == PortableEntityRole::Hypothesis {
            let own = question_text(&list[i]);
            if same_text(own.as_str(), question) {
                let id = list[i].id.clone();
                out.push(id);
                assert(entity_keys(out@) =~= before.push(id@));
            }
        }
        i = i + 1;
    }
    out
}

fn build_groups(list: &Vec<PlannedReadingEntity>) -> (r: Vec<CoexistingHypothesisGroup>)
    ensures
        group_views(r@) == groups_of(planned_views(list@)),
{
    let ghost views = planned_views(list@);
    let unsorted = collect_questions(list);
    proof {
        ranked_commutes_with_views(unsorted@, |s: String| s@);
    }
    let keys = sort_by_rank(unsorted);
    let ghost order = text_views(keys@);
    let mut groups: Vec<CoexistingHypothesisGroup> = Vec::new();
    let mut i: usize = 0;
    while i < keys.len()
        invariant
            i <= keys.len(),
            views == planned_views(list@),
            order == text_views(keys@),
            groups@.len() == i,
            forall|k: int| 0 <= k < i ==> (#[trigger] groups@[k])@ == group_of(views, order[k]),
        decreases keys.len() - i,
    {
        assert(order[i as int] == keys@[i as int]@);
        let found = collect_answers(list, keys[i].as_str());
        proof {
            ranked_commutes_with_views(found@, |id: QualifiedEntityId| id@);
        }
        let alternatives = sort_by_rank(found);
        let group = CoexistingHypothesisGroup { key: keys[i].clone(), alternatives };
        assert(group@ == group_of(views, order[i as int]));
        groups.push(group);
        i = i + 1;
    }
    assert(group_views(groups@) =~= groups_of(views));
    groups
}

fn collect_versions(plans: &Vec<ReadingImportPlan>) -> (r: (
    Vec<MergedReading>,
    Vec<PreservedSections>,
))
    ensures
        r.0@ == plan_views(plans@).map_values(|p: PlanView| version_of(p)),
        preserved_views(r.1@) == plan_views(plans@).map_values(|p: PlanView| preserved_of(p)),
{
    let ghost views = plan_views(plans@);
    let mut readings: Vec<MergedReading> = Vec::new();
    let mut kept: Vec<PreservedSections> = Vec::new();
    let mut i: usize = 0;
    while i < plans.len()
        invariant
            i <= plans.len(),
            views == plan_views(plans@),
            readings@.len() == i,
            kept@.len() == i,
            forall|k: int| 0 <= k < i ==> #[trigger] readings@[k] == version_of(views[k]),
            forall|k: int| 0 <= k < i ==> (#[trigger] kept@[k])@ == preserved_of(views[k]),
        decreases plans.len() - i,
    {
        assert(views[i as int] == plans@[i as int]@);
        let plan = &plans[i];
        readings.push(
            MergedReading {
                reading_id: plan.reading_id,
                revision: plan.reading_revision,
                verification: plan.verification,
            },
        );
        let preserved = PreservedSections {
            reading_id: plan.reading_id,
            revision: plan.reading_revision,
            sections: copy_sections(&plan.preserved_sections),
        };
        assert(preserved@ == preserved_of(views[i as int]));
        kept.push(preserved);
        i = i + 1;
    }
    assert(readings@ =~= views.map_values(|p: PlanView| version_of(p)));
    assert(preserved_views(kept@) =~= views.map_values(|p: PlanView| preserved_of(p)));
    (readings, kept)
}

/// A copy of a list of sections.
pub fn copy_sections(sections: &Vec<ReadingSection>) -> (r: Vec<ReadingSection>)
    ensures
        section_views(r@) == section_views(sections@),
{
    let mut copy: Vec<ReadingSection> = Vec::new();
    let mut i: usize = 0;
    while i < sections.len()
        invariant
            i <= sections.len(),
            copy@.len() == i,
            forall|k: int| 0 <= k < i ==> (#[trigger] copy@[k])@ == sections@[k]@,
        decreases sections.len() - i,
    {
        copy.push(sections[i].copy());
        i = i + 1;
    }
    assert(section_views(copy@) =~= section_views(sections@));
    copy
}

fn version_repeated(plans: &Vec<ReadingImportPlan>, i: usize) -> (r: bool)
    requires
        i < plans.len(),
    ensures
        r == repeats_version(plan_views(plans@), i as int),
{
    let ghost views = plan_views(plans@);
    let mut j: usize = 0;
    while j < i
        invariant
            j <= i < plans.len(),
            views == plan_views(plans@),
            views[i as int] == plans@[i as int]@,
            forall|k: int|
                0 <= k < j ==> !((#[trigger] views[k]).reading_id == views[i as int].reading_id
                    && views[k].reading_revision == views[i as int].reading_revision),
        decreases i - j,
    {
        assert(views[j as int] == plans@[j as int]@);
        if plans[j].reading_id.same(&plans[i].reading_id) && plans[j].reading_revision
            == plans[i].reading_revision {
            return true;
        }
        j = j + 1;
    }
    false
}

/// Merges inventories. Hypotheses that share a question become explicit
/// alternatives and stay qualified by their reading.
pub fn merge_as_coexisting_hypotheses(plans: &Vec<ReadingImportPlan>) -> (r: Result<
    ReadingMergePlan,
    ReadingMergeRefusal,
>)
    ensures
        match r {
            Ok(merge) => merged(plan_views(plans@)) == Ok::<MergeView, MergeFault>(merge@),
            Err(refusal) => merged(plan_views(plans@)) == Err::<MergeView, MergeFault>(refusal@),
        },
{
    let ghost views = plan_views(plans@);
    let mut entities: Vec<PlannedReadingEntity> = Vec::new();
    let mut i: usize = 0;
    assert(planned_views(entities@) =~= Seq::<PlannedView>::empty());
    while i < plans.len()
        invariant
            i <= plans.len(),
            views == plan_views(plans@),
            merged_entities(views, i as int) == Ok::<Seq<PlannedView>, MergeFault>(
                planned_views(entities@),
            ),
        decreases plans.len() - i,
    {
        assert(views[i as int] == plans@[i as int]@);
        if version_repeated(plans, i) {
            proof {
                lemma_merged_error(views, i as int + 1, views.len() as int);
            }
            return Err(
                ReadingMergeRefusal::DuplicateReadingVersion {
                    reading: plans[i].reading_id,
                    revision: plans[i].reading_revision,
                },
            );
        }
        match absorb(&mut entities, &plans[i].entities) {
            Ok(()) => {},
            Err(refusal) => {
                proof {
                    lemma_merged_error(views, i as int + 1, views.len() as int);
                }
                return Err(refusal);
            },
        }
        i = i + 1;
    }
    let hypothesis_groups = build_groups(&entities);
    let (readings, kept) = collect_versions(plans);
    proof {
        ranked_commutes_with_views(entities@, |e: PlannedReadingEntity| e@);
        ranked_commutes_with_views(kept@, |p: PreservedSections| p@);
    }
    Ok(
        ReadingMergePlan {
            readings: sort_by_rank(readings),
            entities: sort_by_rank(entities),
            hypothesis_groups,
            preserved_sections: sort_by_rank(kept),
        },
    )
}

// ----- laws -------------------------------------------------------------

proof fn lemma_view_index(list: Seq<PlannedView>, id: EntityKey, i: int)
    requires
        0 <= i,
    ensures
        match view_index(list, id, i) {
            Some(k) => i <= k < list.len() && list[k].id == id,
            None => true,
        },
    decreases list.len() - i,
{
    if i < list.len() && list[i].id != id {
        lemma_view_index(list, id, i + 1);
    }
}

/// Whether a list holds an entity that is the same as a given one.
pub open spec fn holds_same(list: Seq<PlannedView>, entity: PlannedView) -> bool {
    exists|m: int| 0 <= m < list.len() && planned_same(#[trigger] list[m], entity)
}

proof fn lemma_absorbed_keeps(
    acc: Seq<PlannedView>,
    entities: Seq<PlannedView>,
    j: int,
    entity: PlannedView,
)
    requires
        absorbed(acc, entities, j) is Ok,
        0 <= j <= entities.len(),
        holds_same(acc, entity),
    ensures
        holds_same(absorbed(acc, entities, j)->Ok_0, entity),
    decreases j,
{
    if j > 0 {
        let done = absorbed(acc, entities, j - 1)->Ok_0;
        let out = absorbed(acc, entities, j)->Ok_0;
        lemma_absorbed_keeps(acc, entities, j - 1, entity);
        let p = choose|p: int| 0 <= p < done.len() && planned_same(#[trigger] done[p], entity);
        assert(planned_same(out[p], entity));
    }
}

proof fn lemma_absorbed_takes(
    acc: Seq<PlannedView>,
    entities: Seq<PlannedView>,
    j: int,
    k: int,
)
    requires
        absorbed(acc, entities, j) is Ok,
        0 <= k < j <= entities.len(),
        planned_same(entities[k], entities[k]),
    ensures
        holds_same(absorbed(acc, entities, j)->Ok_0, entities[k]),
    decreases j,
{
    let done = absorbed(acc, entities, j - 1)->Ok_0;
    let out = absorbed(acc, entities, j)->Ok_0;
    if k < j - 1 {
        lemma_absorbed_takes(acc, entities, j - 1, k);
        let p = choose|p: int| 0 <= p < done.len() && planned_same(#[trigger] done[p], entities[k]);
        assert(planned_same(out[p], entities[k]));
    } else {
        lemma_view_index(done, entities[k].id, 0);
        match view_index(done, entities[k].id, 0) {
            Some(p) => {
                assert(planned_same(out[p], entities[k]));
            },
            None => {
                assert(out[out.len() - 1] == entities[k]);
            },
        }
    }
}

/// Nothing is lost in a merge: for every entity of every plan whose support is a
/// number, the same entity is among the merged ones.
pub proof fn merge_keeps_every_entity(plans: Seq<PlanView>, n: int, p: int, k: int)
    requires
        0 <= p < n <= plans.len(),
        merged_entities(plans, n) is Ok,
        0 <= k < plans[p].entities.len(),
        planned_same(plans[p].entities[k], plans[p].entities[k]),
    ensures
        holds_same(merged_entities(plans, n)->Ok_0, plans[p].entities[k]),
    decreases n,
{
    let entity = plans[p].entities[k];
    let last = plans[n - 1].entities;
    let done = merged_entities(plans, n - 1)->Ok_0;
    if p < n - 1 {
        merge_keeps_every_entity(plans, n - 1, p, k);
        lemma_absorbed_keeps(done, last, last.len() as int, entity);
    } else {
        lemma_absorbed_takes(done, last, last.len() as int, k);
    }
}

proof fn lemma_question_is_asked(list: Seq<PlannedView>, i: int, k: int)
    requires
        0 <= k < i <= list.len(),
        list[k].role == PortableEntityRole::Hypothesis,
    ensures
        questions(list, i).contains(question_of(list[k])),
    decreases i,
{
    let before = questions(list, i - 1);
    let q = question_of(list[k]);
    if k < i - 1 {
        lemma_question_is_asked(list, i - 1, k);
        let p = choose|p: int| 0 <= p < before.len() && before[p] == q;
        assert(questions(list, i)[p] == q);
    } else if !before.contains(q) {
        assert(questions(list, i)[before.len() as int] == q);
    }
}

proof fn lemma_answer_is_heard(list: Seq<PlannedView>, i: int, k: int)
    requires
        0 <= k < i <= list.len(),
        list[k].role == PortableEntityRole::Hypothesis,
    ensures
        answers(list, question_of(list[k]), i).contains(list[k].id),
    decreases i,
{
    let q = question_of(list[k]);
    let before = answers(list, q, i - 1);
    if k < i - 1 {
        lemma_answer_is_heard(list, i - 1, k);
        let p = choose|p: int| 0 <= p < before.len() && before[p] == list[k].id;
        assert(answers(list, q, i)[p] == list[k].id);
    } else {
        assert(answers(list, q, i)[before.len() as int] == list[k].id);
    }
}

proof fn lemma_ranked_contains<T: HasRank>(items: Seq<T>, item: T)
    requires
        items.contains(item),
    ensures
        ranked(items).contains(item),
{
    broadcast use vstd::seq_lib::group_to_multiset_ensures;

    crate::rank::ranked_is_an_ordering(items);
    assert(items.to_multiset().count(item) > 0);
    assert(ranked(items).to_multiset().count(item) > 0);
}

/// No hypothesis is elected or dropped: every hypothesis among the merged
/// entities is an alternative in the group of its question.
pub proof fn every_hypothesis_is_an_alternative(list: Seq<PlannedView>, k: int)
    requires
        0 <= k < list.len(),
        list[k].role == PortableEntityRole::Hypothesis,
    ensures
        exists|g: int|
            0 <= g < groups_of(list).len() && (#[trigger] groups_of(list)[g]).key == question_of(
                list[k],
            ) && groups_of(list)[g].alternatives.contains(list[k].id),
{
    let q = question_of(list[k]);
    let n = list.len() as int;
    lemma_question_is_asked(list, n, k);
    lemma_ranked_contains(questions(list, n), q);
    lemma_answer_is_heard(list, n, k);
    lemma_ranked_contains(answers(list, q, n), list[k].id);
    let order = ranked(questions(list, n));
    let g = choose|g: int| 0 <= g < order.len() && order[g] == q;
    assert(groups_of(list)[g] == group_of(list, q));
}

} // verus!
