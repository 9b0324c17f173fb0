//! Structural and semantic differences between two readings.

use vstd::prelude::*;

use crate::json::{member_values, member_views, same_members};
use crate::navigation::{
    copy_optional_geometry, optional_geometry, same_optional_geometry, AspectGeometryDto,
    GeometryView,
};
use crate::rank::{ranked, ranked_commutes_with_views, sort_by_rank, HasRank, Ranked};
use crate::reading::{EntityKey, QualifiedEntityId, ReadingError, ReadingId, ReadingSection};
use crate::reading_codec::{
    find_section, locate_section, section_fault, section_index, ReadingCodecError, SectionFault,
};
use crate::reading_import::{
    copy_semantics, import_plan, plan_reading_import, planned_views, record_id, repeats_record,
    same_semantics, semantics_same, semantics_view, CodecView, DecodedReading, ImportFault,
    PlannedReadingEntity, PlannedView, PortableEntityRecord, PortableEntityRole,
    PortableHypothesisSemantics, ReadingImportOptions, ReadingImportRefusal, SemanticsView,
    UnknownSectionPolicy, ENTITY_SECTION_MAJOR, ENTITY_SECTION_NAME,
};
use crate::text::{
    holds_text, optional_text, owned, same_optional_text, same_text, text_views,
};

verus! {

/// How one item differs between two readings.
#[derive(Clone, Copy, Debug, PartialEq, Eq, Structural)]
pub enum SectionChangeKind {
    Added,
    Removed,
    Modified,
    Unchanged,
}

/// How one section differs.
#[derive(Debug, PartialEq, Eq)]
pub struct ReadingSectionChange {
    pub name: String,
    pub kind: SectionChangeKind,
}

/// How one entity differs.
#[derive(Debug, PartialEq, Eq)]
pub struct ReadingEntityChange {
    pub id: QualifiedEntityId,
    pub kind: SectionChangeKind,
}

/// How two readings differ.
#[derive(Debug, PartialEq, Eq)]
pub struct ReadingDiff {
    pub left: (ReadingId, u64),
    pub right: (ReadingId, u64),
    pub source_changed: bool,
    pub sections: Vec<ReadingSectionChange>,
    pub entities: Vec<ReadingEntityChange>,
}

/// What a structural difference holds.
pub struct DiffView {
    pub left: (ReadingId, u64),
    pub right: (ReadingId, u64),
    pub source_changed: bool,
    pub sections: Seq<(Seq<char>, SectionChangeKind)>,
    pub entities: Seq<(EntityKey, SectionChangeKind)>,
}

/// What a list of section changes holds.
pub open spec fn section_change_views(list: Seq<ReadingSectionChange>) -> Seq<
    (Seq<char>, SectionChangeKind),
> {
    list.map_values(|c: ReadingSectionChange| (c.name@, c.kind))
}

/// What a list of entity changes holds.
pub open spec fn entity_change_views(list: Seq<ReadingEntityChange>) -> Seq<
    (EntityKey, SectionChangeKind),
> {
    list.map_values(|c: ReadingEntityChange| (c.id@, c.kind))
}

impl View for ReadingDiff {
    type V = DiffView;

    open spec fn view(&self) -> DiffView {
        DiffView {
            left: self.left,
            right: self.right,
            source_changed: self.source_changed,
            sections: section_change_views(self.sections@),
            entities: entity_change_views(self.entities@),
        }
    }
}

// ----- sections ---------------------------------------------------------

/// The names of the first `i` sections, each once, behind the names given.
pub open spec fn with_names(names: Seq<Seq<char>>, sections: Seq<ReadingSection>, i: int) -> Seq<
    Seq<char>,
>
    decreases i,
{
    if i <= 0 {
        names
    } else {
        let before = with_names(names, sections, i - 1);
        if before.contains(sections[i - 1].name@) {
            before
        } else {
            before.push(sections[i - 1].name@)
        }
    }
}

/// The names that the sections of two readings have, in order.
pub open spec fn all_names(left: Seq<ReadingSection>, right: Seq<ReadingSection>) -> Seq<Seq<char>> {
    ranked(
        with_names(
            with_names(Seq::empty(), left, left.len() as int),
            right,
            right.len() as int,
        ),
    )
}

/// How the section with a name differs.
pub open spec fn section_change(
    left: Seq<ReadingSection>,
    right: Seq<ReadingSection>,
    name: Seq<char>,
) -> SectionChangeKind {
    match (section_index(left, name, 0), section_index(right, name, 0)) {
        (None, _) => SectionChangeKind::Added,
        (Some(_), None) => SectionChangeKind::Removed,
        (Some(i), Some(j)) => if left[i]@.value() == right[j]@.value() {
            SectionChangeKind::Unchanged
        } else {
            SectionChangeKind::Modified
        },
    }
}

fn append_names(names: &mut Vec<String>, sections: &Vec<ReadingSection>)
    ensures
        text_views(final(names)@) == with_names(
            text_views(old(names)@),
            sections@,
            sections@.len() as int,
        ),
{
    let ghost start = text_views(names@);
    let mut i: usize = 0;
    while i < sections.len()
        invariant
            i <= sections.len(),
            text_views(names@) == with_names(start, sections@, i as int),
        decreases sections.len() - i,
    {
        let ghost before = text_views(names@);
        if !holds_text(names, sections[i].name.as_str()) {
            let name = sections[i].name.clone();
            names.push(name);
            assert(text_views(names@) =~= before.push(name@));
        }
        i = i + 1;
    }
}

fn diff_sections(left: &Vec<ReadingSection>, right: &Vec<ReadingSection>) -> (r: Vec<
    ReadingSectionChange,
>)
    ensures
        section_change_views(r@) == all_names(left@, right@).map_values(
            |name: Seq<char>| (name, section_change(left@, right@, name)),
        ),
{
    let mut unsorted: Vec<String> = Vec::new();
    assert(text_views(unsorted@) =~= Seq::<Seq<char>>::empty());
    append_names(&mut unsorted, left);
    append_names(&mut unsorted, right);
    proof {
        ranked_commutes_with_views(unsorted@, |s: String| s@);
    }
    let names = sort_by_rank(unsorted);
    let ghost order = all_names(left@, right@);
    assert(text_views(names@) == order);
    let mut out: Vec<ReadingSectionChange> = Vec::new();
    let mut i: usize = 0;
    while i < names.len()
        invariant
            i <= names.len(),
            order == text_views(names@),
            out@.len() == i,
            forall|k: int|
                0 <= k < i ==> (#[trigger] out@[k]).name@ == order[k] && out@[k].kind
                    == section_change(left@, right@, order[k]),
        decreases names.len() - i,
    {
        assert(order[i as int] == names@[i as int]@);
        let name = names[i].clone();
        let kind = match find_section(left, name.as_str()) {
            None => SectionChangeKind::Added,
            Some(a) => match find_section(right, name.as_str()) {
                None => SectionChangeKind::Removed,
                Some(b) => if left[a].same(&right[b]) {
                    SectionChangeKind::Unchanged
                } else {
                    SectionChangeKind::Modified
                },
            },
        };
        out.push(ReadingSectionChange { name, kind });
        i = i + 1;
    }
    assert(section_change_views(out@) =~= order.map_values(
        |name: Seq<char>| (name, section_change(left@, right@, name)),
    ));
    out
}

// ----- entities ---------------------------------------------------------

/// Two records are the same if all their parts are.
pub open spec fn record_same(a: PortableEntityRecord, b: PortableEntityRecord) -> bool {
    &&& a.kind@ == b.kind@
    &&& a.local_id == b.local_id
    &&& a.label@ == b.label@
    &&& a.role == b.role
    &&& semantics_same(semantics_view(a.hypothesis), semantics_view(b.hypothesis))
    &&& optional_text(a.hypothesis_group) == optional_text(b.hypothesis_group)
    &&& optional_geometry(a.extent) == optional_geometry(b.extent)
    &&& member_values(member_views(a.extensions@)) == member_values(member_views(b.extensions@))
}

fn same_record(a: &PortableEntityRecord, b: &PortableEntityRecord) -> (r: bool)
    ensures
        r == record_same(*a, *b),
{
    same_text(a.kind.as_str(), b.kind.as_str()) && a.local_id == b.local_id && same_text(
        a.label.as_str(),
        b.label.as_str(),
    ) && a.role == b.role && same_semantics(&a.hypothesis, &b.hypothesis) && same_optional_text(
        &a.hypothesis_group,
        &b.hypothesis_group,
    ) && same_optional_geometry(&a.extent, &b.extent) && same_members(
        &a.extensions,
        &b.extensions,
    )
}

/// What is wrong with the identities of the records from index `i` on.
pub open spec fn inventory_fault(
    reading: ReadingId,
    records: Seq<PortableEntityRecord>,
    i: int,
) -> Option<ImportFault>
    decreases records.len() - i,
{
    if i < 0 || i >= records.len() {
        None
    } else if !record_id(reading, records[i]).is_valid() {
        Some(
            ImportFault::InvalidReading(
                ReadingError::InvalidQualifiedId(record_id(reading, records[i])),
            ),
        )
    } else if repeats_record(reading, records, i) {
        Some(ImportFault::DuplicateEntity(record_id(reading, records[i])@))
    } else {
        inventory_fault(reading, records, i + 1)
    }
}

/// The records of a reading, or why they cannot be told apart. A reading without
/// an entity section has none.
pub open spec fn inventory(input: DecodedReading) -> Result<
    Seq<PortableEntityRecord>,
    ImportFault,
> {
    match section_fault(input.reading, ENTITY_SECTION_NAME@, ENTITY_SECTION_MAJOR) {
        Some(SectionFault::Missing) => Ok(Seq::empty()),
        Some(SectionFault::Unsupported { major }) => Err(
            ImportFault::Codec(
                CodecView::UnsupportedSection { name: ENTITY_SECTION_NAME@, major },
            ),
        ),
        None => match input.entities {
            Err(message) => Err(
                ImportFault::Codec(
                    CodecView::SectionJson { name: ENTITY_SECTION_NAME@, message: message@ },
                ),
            ),
            Ok(records) => match inventory_fault(input.reading.reading_id, records@, 0) {
                Some(fault) => Err(fault),
                None => Ok(records@),
            },
        },
    }
}

fn take_inventory<'a>(input: &'a DecodedReading, none: &'a Vec<PortableEntityRecord>) -> (r: Result<
    &'a Vec<PortableEntityRecord>,
    ReadingImportRefusal,
>)
    requires
        none@.len() == 0,
    ensures
        match r {
            Ok(records) => inventory(*input) == Ok::<Seq<PortableEntityRecord>, ImportFault>(
                records@,
            ),
            Err(refusal) => inventory(*input) == Err::<Seq<PortableEntityRecord>, ImportFault>(
                refusal@,
            ),
        },
{
    assert(none@ =~= Seq::<PortableEntityRecord>::empty());
    match locate_section(&input.reading, ENTITY_SECTION_NAME, ENTITY_SECTION_MAJOR) {
        Err(ReadingCodecError::MissingSection(_)) => {
            return Ok(none);
        },
        Err(error) => {
            return Err(ReadingImportRefusal::Codec(error));
        },
        Ok(_) => {},
    }
    let records = match &input.entities {
        Ok(records) => records,
        Err(message) => {
            return Err(
                ReadingImportRefusal::Codec(
                    ReadingCodecError::SectionJson {
                        name: owned(ENTITY_SECTION_NAME),
                        message: message.clone(),
                    },
                ),
            );
        },
    };
    let reading = input.reading.reading_id;
    let mut i: usize = 0;
    while i < records.len()
        invariant
            i <= records.len(),
            reading == input.reading.reading_id,
            input.entities matches Ok(list) && list == *records,
            section_fault(input.reading, ENTITY_SECTION_NAME@, ENTITY_SECTION_MAJOR) is None,
            inventory_fault(reading, records@, 0) == inventory_fault(reading, records@, i as int),
        decreases records.len() - i,
    {
        let id = match QualifiedEntityId::new(
            reading,
            records[i].kind.clone(),
            records[i].local_id,
        ) {
            Ok(id) => id,
            Err(error) => {
                return Err(ReadingImportRefusal::InvalidReading(error));
            },
        };
        assert(id == record_id(reading, records@[i as int]));
        let mut j: usize = 0;
        while j < i
            invariant
                j <= i < records.len(),
                reading == input.reading.reading_id,
                input.entities matches Ok(list) && list == *records,
                section_fault(input.reading, ENTITY_SECTION_NAME@, ENTITY_SECTION_MAJOR) is None,
                inventory_fault(reading, records@, 0) == inventory_fault(
                    reading,
                    records@,
                    i as int,
                ),
                id == record_id(reading, records@[i as int]),
                id.is_valid(),
                forall|k: int|
                    0 <= k < j ==> (#[trigger] record_id(reading, records@[k]))@ != id@,
            decreases i - j,
        {
            if records[j].local_id == id.local_id && same_text(
                records[j].kind.as_str(),
                id.kind.as_str(),
            ) {
                assert(record_id(reading, records@[j as int])@ == id@);
                return Err(ReadingImportRefusal::DuplicateEntity(id));
            }
            assert(record_id(reading, records@[j as int])@ != id@);
            j = j + 1;
        }
        i = i + 1;
    }
    Ok(records)
}

/// The index of the record with an identity, from `i` on.
pub open spec fn record_index(
    reading: ReadingId,
    records: Seq<PortableEntityRecord>,
    id: EntityKey,
    i: int,
) -> Option<int>
    decreases records.len() - i,
{
    if i < 0 || i >= records.len() {
        None
    } else if record_id(reading, records[i])@ == id {
        Some(i)
    } else {
        record_index(reading, records, id, i + 1)
    }
}

fn find_record(
    reading: &ReadingId,
    records: &Vec<PortableEntityRecord>,
    id: &QualifiedEntityId,
) -> (r: Option<usize>)
    ensures
        match r {
            Some(i) => record_index(*reading, records@, id@, 0) == Some(i as int) && i
                < records@.len(),
            None => record_index(*reading, records@, id@, 0) is None,
        },
{
    let mut i: usize = 0;
    while i < records.len()
        invariant
            i <= records.len(),
            record_index(*reading, records@, id@, 0) == record_index(
                *reading,
                records@,
                id@,
                i as int,
            ),
        decreases records.len() - i,
    {
        if reading.same(&id.reading) && records[i].local_id == id.local_id && same_text(
            records[i].kind.as_str(),
            id.kind.as_str(),
        ) {
            assert(record_id(*reading, records@[i as int])@ == id@);
            return Some(i);
        }
        assert(record_id(*reading, records@[i as int])@ != id@);
        i = i + 1;
    }
    None
}

/// The identities of the first `i` records, each once, behind those given.
pub open spec fn with_ids(
    ids: Seq<EntityKey>,
    reading: ReadingId,
    records: Seq<PortableEntityRecord>,
    i: int,
) -> Seq<EntityKey>
    decreases i,
{
    if i <= 0 {
        ids
    } else {
        let before = with_ids(ids, reading, records, i - 1);
        if before.contains(record_id(reading, records[i - 1])@) {
            before
        } else {
            before.push(record_id(reading, records[i - 1])@)
        }
    }
}

fn append_ids(
    ids: &mut Vec<QualifiedEntityId>,
    reading: &ReadingId,
    records: &Vec<PortableEntityRecord>,
)
    ensures
        crate::reading::entity_keys(final(ids)@) == with_ids(
            crate::reading::entity_keys(old(ids)@),
            *reading,
            records@,
            records@.len() as int,
        ),
{
    let ghost start = crate::reading::entity_keys(ids@);
    let mut i: usize = 0;
    while i < records.len()
        invariant
            i <= records.len(),
            crate::reading::entity_keys(ids@) == with_ids(start, *reading, records@, i as int),
        decreases records.len() - i,
    {
        let ghost before = crate::reading::entity_keys(ids@);
        let id = QualifiedEntityId {
            reading: *reading,
            kind: records[i].kind.clone(),
            local_id: records[i].local_id,
        };
        if !crate::reading::holds_entity(ids, &id) {
            ids.push(id);
            assert(crate::reading::entity_keys(ids@) =~= before.push(id@));
        }
        i = i + 1;
    }
}

/// How the entity with an identity differs.
pub open spec fn entity_change(
    left: ReadingId,
    left_records: Seq<PortableEntityRecord>,
    right: ReadingId,
    right_records: Seq<PortableEntityRecord>,
    id: EntityKey,
) -> SectionChangeKind {
    match (record_index(left, left_records, id, 0), record_index(right, right_records, id, 0)) {
        (None, _) => SectionChangeKind::Added,
        (Some(_), None) => SectionChangeKind::Removed,
        (Some(i), Some(j)) => if record_same(left_records[i], right_records[j]) {
            SectionChangeKind::Unchanged
        } else {
            SectionChangeKind::Modified
        },
    }
}

/// The identities of the records of two readings, in order.
pub open spec fn all_ids(
    left: ReadingId,
    left_records: Seq<PortableEntityRecord>,
    right: ReadingId,
    right_records: Seq<PortableEntityRecord>,
) -> Seq<EntityKey> {
    ranked(
        with_ids(
            with_ids(Seq::empty(), left, left_records, left_records.len() as int),
            right,
            right_records,
            right_records.len() as int,
        ),
    )
}

fn diff_records(
    left: &ReadingId,
    left_records: &Vec<PortableEntityRecord>,
    right: &ReadingId,
    right_records: &Vec<PortableEntityRecord>,
) -> (r: Vec<ReadingEntityChange>)
    ensures
        entity_change_views(r@) == all_ids(*left, left_records@, *right, right_records@).map_values(
            |id: EntityKey|
                (id, entity_change(*left, left_records@, *right, right_records@, id)),
        ),
{
    let mut unsorted: Vec<QualifiedEntityId> = Vec::new();
    assert(crate::reading::entity_keys(unsorted@) =~= Seq::<EntityKey>::empty());
    append_ids(&mut unsorted, left, left_records);
    append_ids(&mut unsorted, right, right_records);
    proof {
        ranked_commutes_with_views(unsorted@, |id: QualifiedEntityId| id@);
    }
    let ids = sort_by_rank(unsorted);
    let ghost order = all_ids(*left, left_records@, *right, right_records@);
    assert(crate::reading::entity_keys(ids@) == order);
    let mut out: Vec<ReadingEntityChange> = Vec::new();
    let mut i: usize = 0;
    while i < ids.len()
        invariant
            i <= ids.len(),
            order == crate::reading::entity_keys(ids@),
            out@.len() == i,
            forall|k: int|
                0 <= k < i ==> (#[trigger] out@[k]).id@ == order[k] && out@[k].kind
                    == entity_change(*left, left_records@, *right, right_records@, order[k]),
        decreases ids.len() - i,
    {
        assert(order[i as int] == ids@[i as int]@);
        let id = ids[i].clone();
        let kind = match find_record(left, left_records, &id) {
            None => SectionChangeKind::Added,
            Some(a) => match find_record(right, right_records, &id) {
                None => SectionChangeKind::Removed,
                Some(b) => if same_record(&left_records[a], &right_records[b]) {
                    SectionChangeKind::Unchanged
                } else {
                    SectionChangeKind::Modified
                },
            },
        };
        out.push(ReadingEntityChange { id, kind });
        i = i + 1;
    }
    assert(entity_change_views(out@) =~= order.map_values(
        |id: EntityKey| (id, entity_change(*left, left_records@, *right, right_records@, id)),
    ));
    out
}

/// How two readings differ, or why they cannot be compared.
pub open spec fn structural_diff(left: DecodedReading, right: DecodedReading) -> Result<
    DiffView,
    ImportFault,
> {
    if left.reading.fault() is Some {
        Err(ImportFault::InvalidReading(left.reading.fault()->0))
    } else if right.reading.fault() is Some {
        Err(ImportFault::InvalidReading(right.reading.fault()->0))
    } else {
        match inventory(left) {
            Err(fault) => Err(fault),
            Ok(a) => match inventory(right) {
                Err(fault) => Err(fault),
                Ok(b) => {
                    let x = left.reading.reading_id;
                    let y = right.reading.reading_id;
                    Ok(
                        DiffView {
                            left: (x, left.reading.revision),
                            right: (y, right.reading.revision),
                            source_changed: left.reading.source@.value() != right.reading.source@.value(),
                            sections: all_names(
                                left.reading.sections@,
                                right.reading.sections@,
                            ).map_values(
                                |name: Seq<char>|
                                    (
                                        name,
                                        section_change(
                                            left.reading.sections@,
                                            right.reading.sections@,
                                            name,
                                        ),
                                    ),
                            ),
                            entities: all_ids(x, a, y, b).map_values(
                                |id: EntityKey| (id, entity_change(x, a, y, b, id)),
                            ),
                        },
                    )
                },
            },
        }
    }
}

/// Compares two readings section by section and entity by entity.
pub fn diff_readings(left: &DecodedReading, right: &DecodedReading) -> (r: Result<
    ReadingDiff,
    ReadingImportRefusal,
>)
    ensures
        match r {
            Ok(diff) => structural_diff(*left, *right) == Ok::<DiffView, ImportFault>(diff@),
            Err(refusal) => structural_diff(*left, *right) == Err::<DiffView, ImportFault>(
                refusal@,
            ),
        },
{
    match left.reading.validate() {
        Ok(()) => {},
        Err(error) => {
            return Err(ReadingImportRefusal::InvalidReading(error));
        },
    }
    match right.reading.validate() {
        Ok(()) => {},
        Err(error) => {
            return Err(ReadingImportRefusal::InvalidReading(error));
        },
    }
    let none: Vec<PortableEntityRecord> = Vec::new();
    let left_records = match take_inventory(left, &none) {
        Ok(records) => records,
        Err(refusal) => {
            return Err(refusal);
        },
    };
    let right_records = match take_inventory(right, &none) {
        Ok(records) => records,
        Err(refusal) => {
            return Err(refusal);
        },
    };
    let sections = diff_sections(&left.reading.sections, &right.reading.sections);
    let entities = diff_records(
        &left.reading.reading_id,
        left_records,
        &right.reading.reading_id,
        right_records,
    );
    Ok(
        ReadingDiff {
            left: (left.reading.reading_id, left.reading.revision),
            right: (right.reading.reading_id, right.reading.revision),
            source_changed: !left.reading.source.same(&right.reading.source),
            sections,
            entities,
        },
    )
}

// ----- semantic difference ----------------------------------------------

/// How the alternatives of a question differ.
#[derive(Clone, Copy, Debug, PartialEq, Eq, Structural)]
pub enum SemanticChangeKind {
    AddedQuestion,
    RemovedQuestion,
    EquivalentAlternatives,
    ChangedAlternatives,
}

/// One alternative of a question.
#[derive(Debug, PartialEq)]
pub struct SemanticAlternative {
    pub id: QualifiedEntityId,
    pub label: String,
    pub semantics: Option<PortableHypothesisSemantics>,
    pub extent: Option<AspectGeometryDto>,
}

/// What an alternative says, whoever says it.
pub struct StatementView {
    pub label: Seq<char>,
    pub semantics: Option<SemanticsView>,
    pub extent: Option<GeometryView>,
}

/// What an alternative holds.
pub struct AlternativeView {
    pub id: EntityKey,
    pub statement: StatementView,
}

impl View for SemanticAlternative {
    type V = AlternativeView;

    open spec fn view(&self) -> AlternativeView {
        AlternativeView {
            id: self.id@,
            statement: StatementView {
                label: self.label@,
                semantics: semantics_view(self.semantics),
                extent: optional_geometry(self.extent),
            },
        }
    }
}

impl HasRank for AlternativeView {
    open spec fn rank(&self) -> Seq<u64> {
        self.id.rank()
    }
}

impl HasRank for SemanticAlternative {
    open spec fn rank(&self) -> Seq<u64> {
        self.id.rank()
    }
}

impl Ranked for SemanticAlternative {
    fn rank_key(&self) -> (r: Vec<u64>) {
        self.id.rank_key()
    }
}

/// What a list of alternatives holds.
pub open spec fn alternative_views(list: Seq<SemanticAlternative>) -> Seq<AlternativeView> {
    list.map_values(|a: SemanticAlternative| a@)
}

/// What the alternatives of a list say.
pub open spec fn statements(list: Seq<AlternativeView>) -> Seq<StatementView> {
    list.map_values(|a: AlternativeView| a.statement)
}

/// How one question differs.
#[derive(Debug, PartialEq)]
pub struct SemanticHypothesisChange {
    pub question: String,
    pub kind: SemanticChangeKind,
    pub left: Vec<SemanticAlternative>,
    pub right: Vec<SemanticAlternative>,
    pub extents_overlap: bool,
}

/// What a change of a question holds.
pub struct QuestionView {
    pub question: Seq<char>,
    pub kind: SemanticChangeKind,
    pub left: Seq<AlternativeView>,
    pub right: Seq<AlternativeView>,
    pub extents_overlap: bool,
}

impl View for SemanticHypothesisChange {
    type V = QuestionView;

    open spec fn view(&self) -> QuestionView {
        QuestionView {
            question: self.question@,
            kind: self.kind,
            left: alternative_views(self.left@),
            right: alternative_views(self.right@),
            extents_overlap: self.extents_overlap,
        }
    }
}

/// What a list of question changes holds.
pub open spec fn question_views(list: Seq<SemanticHypothesisChange>) -> Seq<QuestionView> {
    list.map_values(|c: SemanticHypothesisChange| c@)
}

/// How two readings differ in what they say.
#[derive(Debug, PartialEq)]
pub struct SemanticReadingDiff {
    pub structural: ReadingDiff,
    pub hypotheses: Vec<SemanticHypothesisChange>,
}

/// What a semantic difference holds.
pub struct SemanticDiffView {
    pub structural: DiffView,
    pub hypotheses: Seq<QuestionView>,
}

impl View for SemanticReadingDiff {
    type V = SemanticDiffView;

    open spec fn view(&self) -> SemanticDiffView {
        SemanticDiffView {
            structural: self.structural@,
            hypotheses: question_views(self.hypotheses@),
        }
    }
}

/// Whether an entity is a hypothesis in a group of its own choosing.
pub open spec fn asks(entity: PlannedView) -> bool {
    entity.role == PortableEntityRole::Hypothesis && entity.hypothesis_group is Some
}

/// The groups that the first `i` entities name, each once, behind those given.
pub open spec fn with_questions(
    questions: Seq<Seq<char>>,
    entities: Seq<PlannedView>,
    i: int,
) -> Seq<Seq<char>>
    decreases i,
{
    if i <= 0 {
        questions
    } else {
        let before = with_questions(questions, entities, i - 1);
        if asks(entities[i - 1]) && !before.contains(entities[i - 1].hypothesis_group->0) {
            before.push(entities[i - 1].hypothesis_group->0)
        } else {
            before
        }
    }
}

/// An entity as an alternative.
pub open spec fn alternative_of(entity: PlannedView) -> AlternativeView {
    AlternativeView {
        id: entity.id,
        statement: StatementView {
            label: entity.label,
            semantics: entity.hypothesis,
            extent: entity.extent,
        },
    }
}

/// The alternatives for a question among the first `i` entities.
pub open spec fn alternatives_for(entities: Seq<PlannedView>, question: Seq<char>, i: int) -> Seq<
    AlternativeView,
>
    decreases i,
{
    if i <= 0 {
        Seq::empty()
    } else if asks(entities[i - 1]) && entities[i - 1].hypothesis_group == Some(question) {
        alternatives_for(entities, question, i - 1).push(alternative_of(entities[i - 1]))
    } else {
        alternatives_for(entities, question, i - 1)
    }
}

/// Two lists of alternatives are equivalent if they make the same statements,
/// each as often. Identities do not count.
pub open spec fn equivalent(left: Seq<AlternativeView>, right: Seq<AlternativeView>) -> bool {
    statements(left).to_multiset() == statements(right).to_multiset()
}

/// How a question differs.
pub open spec fn question_kind(left: Seq<AlternativeView>, right: Seq<AlternativeView>) -> SemanticChangeKind {
    if left.len() == 0 {
        SemanticChangeKind::AddedQuestion
    } else if right.len() == 0 {
        SemanticChangeKind::RemovedQuestion
    } else if equivalent(left, right) {
        SemanticChangeKind::EquivalentAlternatives
    } else {
        SemanticChangeKind::ChangedAlternatives
    }
}

/// Two extents overlap if some of their regions do.
pub open spec fn regions_overlap(left: Option<GeometryView>, right: Option<GeometryView>) -> bool {
    match (left, right) {
        (Some(a), Some(b)) => exists|i: int, j: int|
            0 <= i < a.regions.len() && 0 <= j < b.regions.len()
                && #[trigger] a.regions[i].overlaps(b.regions[j]),
        _ => false,
    }
}

/// Some alternative of one side overlaps some of the other.
pub open spec fn alternatives_overlap(
    left: Seq<AlternativeView>,
    right: Seq<AlternativeView>,
) -> bool {
    exists|i: int, j: int|
        0 <= i < left.len() && 0 <= j < right.len() && #[trigger] regions_overlap(
            left[i].statement.extent,
            right[j].statement.extent,
        )
}

/// The change of one question.
pub open spec fn question_change(
    left: Seq<PlannedView>,
    right: Seq<PlannedView>,
    question: Seq<char>,
) -> QuestionView {
    let a = ranked(alternatives_for(left, question, left.len() as int));
    let b = ranked(alternatives_for(right, question, right.len() as int));
    QuestionView {
        question,
        kind: question_kind(a, b),
        left: a,
        right: b,
        extents_overlap: alternatives_overlap(a, b),
    }
}

/// The questions of two plans, in order.
pub open spec fn all_questions(left: Seq<PlannedView>, right: Seq<PlannedView>) -> Seq<Seq<char>> {
    ranked(
        with_questions(
            with_questions(Seq::empty(), left, left.len() as int),
            right,
            right.len() as int,
        ),
    )
}

/// The options under which readings are compared.
pub open spec fn comparing_options() -> ReadingImportOptions {
    ReadingImportOptions {
        unknown_sections: UnknownSectionPolicy::PreserveOpaque,
        require_entity_section: true,
    }
}

/// How two readings differ in what they say, or why they cannot be compared.
pub open spec fn semantic_diff(left: DecodedReading, right: DecodedReading) -> Result<
    SemanticDiffView,
    ImportFault,
> {
    match structural_diff(left, right) {
        Err(fault) => Err(fault),
        Ok(structural) => match import_plan(
            left.reading,
            left.entities,
            None,
            Seq::empty(),
            comparing_options(),
        ) {
            Err(fault) => Err(fault),
            Ok(a) => match import_plan(
                right.reading,
                right.entities,
                None,
                Seq::empty(),
                comparing_options(),
            ) {
                Err(fault) => Err(fault),
                Ok(b) => Ok(
                    SemanticDiffView {
                        structural,
                        hypotheses: all_questions(a.entities, b.entities).map_values(
                            |q: Seq<char>| question_change(a.entities, b.entities, q),
                        ),
                    },
                ),
            },
        },
    }
}

fn append_questions(questions: &mut Vec<String>, entities: &Vec<PlannedReadingEntity>)
    ensures
        text_views(final(questions)@) == with_questions(
            text_views(old(questions)@),
            planned_views(entities@),
            entities@.len() as int,
        ),
{
    let ghost start = text_views(questions@);
    let ghost views = planned_views(entities@);
    let mut i: usize = 0;
    while i < entities.len()
        invariant
            i <= entities.len(),
            views == planned_views(entities@),
            text_views(questions@) == with_questions(start, views, i as int),
        decreases entities.len() - i,
    {
        assert(views[i as int] == entities@[i as int]@);
        let ghost before = text_views(questions@);
        if entities[i].role == PortableEntityRole::Hypothesis {
            match &entities[i].hypothesis_group {
                Some(group) => {
                    if !holds_text(questions, group.as_str()) {
                        let question = group.clone();
                        questions.push(question);
                        assert(text_views(questions@) =~= before.push(question@));
                    }
                },
                None => {},
            }
        }
        i = i + 1;
    }
}

fn collect_alternatives(entities: &Vec<PlannedReadingEntity>, question: &str) -> (r: Vec<
    SemanticAlternative,
>)
    ensures
        alternative_views(r@) == ranked(
            alternatives_for(planned_views(entities@), question@, entities@.len() as int),
        ),
{
    let ghost views = planned_views(entities@);
    let mut out: Vec<SemanticAlternative> = Vec::new();
    let mut i: usize = 0;
    assert(alternative_views(out@) =~= Seq::<AlternativeView>::empty());
    while i < entities.len()
        invariant
            i <= entities.len(),
            views == planned_views(entities@),
            alternative_views(out@) == alternatives_for(views, question@, i as int),
        decreases entities.len() - i,
    {
        assert(views[i as int] == entities@[i as int]@);
        let ghost before = alternative_views(out@);
        if entities[i].role == PortableEntityRole::Hypothesis {
            match &entities[i].hypothesis_group {
                Some(group) => {
                    if same_text(group.as_str(), question) {
                        let alternative = SemanticAlternative {
                            id: entities[i].id.clone(),
                            label: entities[i].label.clone(),
                            semantics: copy_semantics(&entities[i].hypothesis),
                            extent: copy_optional_geometry(&entities[i].extent),
                        };
                        out.push(alternative);
                        assert(alternative@ == alternative_of(views[i as int]));
                        assert(alternative_views(out@) =~= before.push(alternative@));
                    }
                },
                None => {},
            }
        }
        i = i + 1;
    }
    proof {
        ranked_commutes_with_views(out@, |a: SemanticAlternative| a@);
    }
    sort_by_rank(out)
}

/// Whether two alternatives say the same, bit for bit.
fn same_statement(a: &SemanticAlternative, b: &SemanticAlternative) -> (r: bool)
    ensures
        r == (a@.statement == b@.statement),
{
    let semantics = match (&a.semantics, &b.semantics) {
        (Some(x), Some(y)) => x.support_bits == y.support_bits && same_optional_text(
            &x.description,
            &y.description,
        ),
        (None, None) => true,
        _ => false,
    };
    same_text(a.label.as_str(), b.label.as_str()) && semantics && same_optional_geometry(
        &a.extent,
        &b.extent,
    )
}

/// The statements at some positions of a list.
spec fn at_positions(list: Seq<AlternativeView>, positions: Seq<usize>) -> Seq<StatementView> {
    positions.map_values(|p: usize| statements(list)[p as int])
}

fn alternatives_equivalent(left: &Vec<SemanticAlternative>, right: &Vec<SemanticAlternative>) -> (r:
    bool)
    ensures
        r == equivalent(alternative_views(left@), alternative_views(right@)),
{
    broadcast use vstd::seq_lib::group_to_multiset_ensures;

    let ghost a = statements(alternative_views(left@));
    let ghost b = statements(alternative_views(right@));
    let ghost views = alternative_views(right@);
    assert(a.len() == left@.len() && b.len() == right@.len());
    if left.len() != right.len() {
        assert(a.to_multiset().len() != b.to_multiset().len());
        return false;
    }
    let mut open: Vec<usize> = Vec::new();
    let mut n: usize = 0;
    while n < right.len()
        invariant
            n <= right.len(),
            open@.len() == n,
            forall|k: int| 0 <= k < n ==> open@[k] == k,
        decreases right.len() - n,
    {
        open.push(n);
        n = n + 1;
    }
    assert(at_positions(views, open@) =~= b);
    let mut i: usize = 0;
    assert(a.take(0).to_multiset().add(at_positions(views, open@).to_multiset())
        =~= b.to_multiset()) by {
        assert(a.take(0) =~= Seq::<StatementView>::empty());
    }
    while i < left.len()
        invariant
            i <= left.len(),
            left.len() == right.len(),
            a == statements(alternative_views(left@)),
            b == statements(alternative_views(right@)),
            views == alternative_views(right@),
            a.len() == left@.len(),
            b.len() == right@.len(),
            open@.len() == right.len() - i,
            forall|k: int| 0 <= k < open@.len() ==> (#[trigger] open@[k]) < right.len(),
            a.take(i as int).to_multiset().add(at_positions(views, open@).to_multiset())
                == b.to_multiset(),
        decreases left.len() - i,
    {
        let ghost statement = a[i as int];
        assert(statement == left@[i as int]@.statement);
        let ghost positions = open@;
        let mut k: usize = 0;
        let mut found = false;
        while k < open.len() && !found
            invariant
                k <= open.len(),
                open@ == positions,
                i < left.len(),
                views == alternative_views(right@),
                statement == left@[i as int]@.statement,
                forall|m: int| 0 <= m < open@.len() ==> (#[trigger] open@[m]) < right.len(),
                found ==> k < open.len() && at_positions(views, open@)[k as int] == statement,
                !found ==> forall|m: int|
                    0 <= m < k ==> #[trigger] at_positions(views, open@)[m] != statement,
            decreases open.len() - k, if found { 0int } else { 1int },
        {
            assert(open@[k as int] < right.len());
            assert(at_positions(views, open@)[k as int] == statements(views)[open@[k as int] as int]);
            assert(statements(views)[open@[k as int] as int] == right@[open@[k as int] as int]@.statement);
            if same_statement(&left[i], &right[open[k]]) {
                found = true;
            } else {
                k = k + 1;
            }
        }
        if !found {
            proof {
                let rest = at_positions(views, open@);
                assert(!rest.contains(statement));
                vstd::seq_lib::to_multiset_contains(rest, statement);
                lemma_taken_count(a, i as int);
                assert(a.take(i as int).to_multiset().count(statement)
                    == b.to_multiset().count(statement));
                assert(a.to_multiset().count(statement) != b.to_multiset().count(statement));
            }
            return false;
        }
        open.remove(k);
        proof {
            let rest = at_positions(views, positions);
            assert(at_positions(views, open@) =~= rest.remove(k as int));
            vstd::seq_lib::to_multiset_remove(rest, k as int);
            assert(a.take(i as int + 1) =~= a.take(i as int).push(statement));
            vstd::seq_lib::to_multiset_build(a.take(i as int), statement);
            assert(rest[k as int] == statement);
            vstd::seq_lib::to_multiset_contains(rest, statement);
            assert(a.take(i as int + 1).to_multiset().add(
                at_positions(views, open@).to_multiset(),
            ) =~= b.to_multiset());
            assert forall|m: int| 0 <= m < open@.len() implies (#[trigger] open@[m])
                < right.len() by {
                assert(open@[m] == if m < k {
                    positions[m]
                } else {
                    positions[m + 1]
                });
            }
        }
        i = i + 1;
    }
    proof {
        assert(a.take(i as int) =~= a);
        assert(at_positions(views, open@) =~= Seq::<StatementView>::empty());
        assert(a.to_multiset() =~= b.to_multiset());
    }
    true
}

/// A statement occurs more often in a list than in the part before it.
proof fn lemma_taken_count(list: Seq<StatementView>, i: int)
    requires
        0 <= i < list.len(),
    ensures
        list.to_multiset().count(list[i]) > list.take(i).to_multiset().count(list[i]),
{
    broadcast use vstd::seq_lib::group_to_multiset_ensures;

    let head = list.take(i).push(list[i]);
    let tail = list.skip(i + 1);
    assert(list =~= head + tail);
    vstd::seq_lib::lemma_multiset_commutative(head, tail);
    vstd::seq_lib::to_multiset_build(list.take(i), list[i]);
}

fn any_overlap(left: &Vec<SemanticAlternative>, right: &Vec<SemanticAlternative>) -> (r: bool)
    ensures
        r == alternatives_overlap(alternative_views(left@), alternative_views(right@)),
{
    let ghost a = alternative_views(left@);
    let ghost b = alternative_views(right@);
    let mut i: usize = 0;
    while i < left.len()
        invariant
            i <= left.len(),
            a == alternative_views(left@),
            b == alternative_views(right@),
            forall|x: int, y: int|
                0 <= x < i && 0 <= y < b.len() ==> !#[trigger] regions_overlap(
                    a[x].statement.extent,
                    b[y].statement.extent,
                ),
        decreases left.len() - i,
    {
        let mut j: usize = 0;
        while j < right.len()
            invariant
                i < left.len(),
                j <= right.len(),
                a == alternative_views(left@),
                b == alternative_views(right@),
                forall|x: int, y: int|
                    0 <= x < i && 0 <= y < b.len() ==> !#[trigger] regions_overlap(
                        a[x].statement.extent,
                        b[y].statement.extent,
                    ),
                forall|y: int|
                    0 <= y < j ==> !#[trigger] regions_overlap(
                        a[i as int].statement.extent,
                        b[y].statement.extent,
                    ),
            decreases right.len() - j,
        {
            assert(a[i as int] == left@[i as int]@);
            assert(b[j as int] == right@[j as int]@);
            match (&left[i].extent, &right[j].extent) {
                (Some(x), Some(y)) => {
                    if x.overlap(y) {
                        proof {
                            let (p, q) = choose|p: int, q: int|
                                0 <= p < x.regions@.len() && 0 <= q < y.regions@.len()
                                    && #[trigger] x.regions@[p].overlaps(y.regions@[q]);
                            assert(x@.regions[p].overlaps(y@.regions[q]));
                            assert(regions_overlap(
                                a[i as int].statement.extent,
                                b[j as int].statement.extent,
                            ));
                        }
                        return true;
                    }
                    proof {
                        if regions_overlap(
                            a[i as int].statement.extent,
                            b[j as int].statement.extent,
                        ) {
                            let (p, q) = choose|p: int, q: int|
                                0 <= p < x@.regions.len() && 0 <= q < y@.regions.len()
                                    && #[trigger] x@.regions[p].overlaps(y@.regions[q]);
                            assert(x.regions@[p].overlaps(y.regions@[q]));
                        }
                    }
                },
                _ => {},
            }
            j = j + 1;
        }
        i = i + 1;
    }
    false
}

fn change_question(
    left: &Vec<PlannedReadingEntity>,
    right: &Vec<PlannedReadingEntity>,
    question: &String,
) -> (r: SemanticHypothesisChange)
    ensures
        r@ == question_change(planned_views(left@), planned_views(right@), question@),
{
    let a = collect_alternatives(left, question.as_str());
    let b = collect_alternatives(right, question.as_str());
    assert(alternative_views(a@).len() == a@.len());
    assert(alternative_views(b@).len() == b@.len());
    let kind = if a.len() == 0 {
        SemanticChangeKind::AddedQuestion
    } else if b.len() == 0 {
        SemanticChangeKind::RemovedQuestion
    } else if alternatives_equivalent(&a, &b) {
        SemanticChangeKind::EquivalentAlternatives
    } else {
        SemanticChangeKind::ChangedAlternatives
    };
    let extents_overlap = any_overlap(&a, &b);
    SemanticHypothesisChange { question: question.clone(), kind, left: a, right: b, extents_overlap }
}

/// Compares what two readings say, question by question. Identities stay
/// distinct: equivalence describes statements and never aliases an entity.
pub fn semantic_diff_readings(left: &DecodedReading, right: &DecodedReading) -> (r: Result<
    SemanticReadingDiff,
    ReadingImportRefusal,
>)
    ensures
        match r {
            Ok(diff) => semantic_diff(*left, *right) == Ok::<SemanticDiffView, ImportFault>(diff@),
            Err(refusal) => semantic_diff(*left, *right) == Err::<SemanticDiffView, ImportFault>(
                refusal@,
            ),
        },
{
    let structural = match diff_readings(left, right) {
        Ok(diff) => diff,
        Err(refusal) => {
            return Err(refusal);
        },
    };
    let none: Vec<QualifiedEntityId> = Vec::new();
    assert(crate::reading::entity_keys(none@) =~= Seq::<EntityKey>::empty());
    let options = ReadingImportOptions {
        unknown_sections: UnknownSectionPolicy::PreserveOpaque,
        require_entity_section: true,
    };
    let a = match plan_reading_import(&left.reading, &left.entities, None, &none, options) {
        Ok(plan) => plan,
        Err(refusal) => {
            return Err(refusal);
        },
    };
    let b = match plan_reading_import(&right.reading, &right.entities, None, &none, options) {
        Ok(plan) => plan,
        Err(refusal) => {
            return Err(refusal);
        },
    };
    let mut unsorted: Vec<String> = Vec::new();
    assert(text_views(unsorted@) =~= Seq::<Seq<char>>::empty());
    append_questions(&mut unsorted, &a.entities);
    append_questions(&mut unsorted, &b.entities);
    proof {
        ranked_commutes_with_views(unsorted@, |s: String| s@);
    }
    let questions = sort_by_rank(unsorted);
    let ghost order = all_questions(a@.entities, b@.entities);
    assert(text_views(questions@) == order);
    let mut hypotheses: Vec<SemanticHypothesisChange> = Vec::new();
    let mut i: usize = 0;
    while i < questions.len()
        invariant
            i <= questions.len(),
            order == text_views(questions@),
            hypotheses@.len() == i,
            forall|k: int|
                0 <= k < i ==> (#[trigger] hypotheses@[k])@ == question_change(
                    a@.entities,
                    b@.entities,
                    order[k],
                ),
        decreases questions.len() - i,
    {
        assert(order[i as int] == questions@[i as int]@);
        hypotheses.push(change_question(&a.entities, &b.entities, &questions[i]));
        i = i + 1;
    }
    assert(question_views(hypotheses@) =~= order.map_values(
        |q: Seq<char>| question_change(a@.entities, b@.entities, q),
    ));
    Ok(SemanticReadingDiff { structural, hypotheses })
}

// ----- laws -------------------------------------------------------------

proof fn lemma_section_index(sections: Seq<ReadingSection>, name: Seq<char>, i: int)
    requires
        0 <= i,
    ensures
        match section_index(sections, name, i) {
            Some(k) => i <= k < sections.len() && sections[k].name@ == name,
            None => forall|k: int| i <= k < sections.len() ==> (#[trigger] sections[k]).name@ != name,
        },
    decreases sections.len() - i,
{
    if i < sections.len() && sections[i].name@ != name {
        lemma_section_index(sections, name, i + 1);
    }
}

/// A reading does not differ from itself: its source is unchanged, and so is
/// every section that it has.
pub proof fn a_reading_does_not_differ_from_itself(input: DecodedReading, k: int)
    requires
        structural_diff(input, input) is Ok,
        0 <= k < input.reading.sections@.len(),
    ensures
        !structural_diff(input, input)->Ok_0.source_changed,
        section_change(
            input.reading.sections@,
            input.reading.sections@,
            input.reading.sections@[k].name@,
        ) == SectionChangeKind::Unchanged,
{
    lemma_section_index(input.reading.sections@, input.reading.sections@[k].name@, 0);
}

/// Turning a comparison around turns additions into removals and leaves the
/// rest as it is.
pub proof fn turning_a_comparison_around(
    left: Seq<ReadingSection>,
    right: Seq<ReadingSection>,
    name: Seq<char>,
)
    requires
        section_index(left, name, 0) is Some || section_index(right, name, 0) is Some,
    ensures
        section_change(left, right, name) == SectionChangeKind::Added <==> section_change(
            right,
            left,
            name,
        ) == SectionChangeKind::Removed,
        section_change(left, right, name) == SectionChangeKind::Unchanged <==> section_change(
            right,
            left,
            name,
        ) == SectionChangeKind::Unchanged,
        section_change(left, right, name) == SectionChangeKind::Modified <==> section_change(
            right,
            left,
            name,
        ) == SectionChangeKind::Modified,
{
}

/// The entities of two different readings are never compared with each other:
/// each is removed with its reading or added with it.
pub proof fn entities_of_different_readings_are_never_modified(
    left: ReadingId,
    left_records: Seq<PortableEntityRecord>,
    right: ReadingId,
    right_records: Seq<PortableEntityRecord>,
    id: EntityKey,
)
    requires
        left != right,
    ensures
        ({
            let kind = entity_change(left, left_records, right, right_records, id);
            kind == SectionChangeKind::Added || kind == SectionChangeKind::Removed
        }),
{
    lemma_record_reading(left, left_records, id, 0);
    lemma_record_reading(right, right_records, id, 0);
}

proof fn lemma_record_reading(
    reading: ReadingId,
    records: Seq<PortableEntityRecord>,
    id: EntityKey,
    i: int,
)
    requires
        0 <= i,
    ensures
        record_index(reading, records, id, i) is Some ==> id.reading == reading,
    decreases records.len() - i,
{
    if i < records.len() && record_id(reading, records[i])@ != id {
        lemma_record_reading(reading, records, id, i + 1);
    }
}

} // verus!
