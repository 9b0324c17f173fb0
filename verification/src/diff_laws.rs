//! What a comparison of two readings says of their sections, entities and questions.

use vstd::prelude::*;

use crate::json::{member_values, member_views};
use crate::navigation::{number_eq, reference_keys, AspectGeometryDto};
use crate::rank::{ranked, ranked_is_an_ordering, HasRank};
use crate::reading::{
    sections_fault, valid_sections_have_distinct_names, EntityKey, ReadingId, ReadingSection,
    ReadingSource,
};
use crate::reading_codec::section_index;
use crate::reading_diff::{
    all_ids, all_names, all_questions, alternative_of, alternatives_for, alternatives_overlap, asks,
    entity_change, equivalent, inventory, inventory_fault, question_change, question_kind,
    record_index, record_same, regions_overlap, section_change, semantic_diff, statements,
    structural_diff, with_ids, with_names, with_questions, AlternativeView, DiffView, QuestionView,
    ReadingDiff, SectionChangeKind, SemanticChangeKind, SemanticDiffView, SemanticReadingDiff,
    StatementView,
};
use crate::reading_import::{
    import_plan, record_id, repeats_record, DecodedReading, ImportFault, PlannedView,
    PortableEntityRecord, PortableEntityRole, PortableHypothesisSemantics,
};

verus! {

// ----- lists in order -----------------------------------------------------

pub(crate) proof fn lemma_ranked_members<T: HasRank>(items: Seq<T>)
    ensures
        ranked(items).len() == items.len(),
        forall|x: T| #[trigger] ranked(items).contains(x) <==> items.contains(x),
        items.no_duplicates() ==> ranked(items).no_duplicates(),
{
    broadcast use vstd::seq_lib::group_to_multiset_ensures;

    ranked_is_an_ordering(items);
    let order = ranked(items);
    assert forall|x: T| #[trigger] order.contains(x) <==> items.contains(x) by {
        assert(order.to_multiset().count(x) > 0 <==> order.contains(x));
        assert(items.to_multiset().count(x) > 0 <==> items.contains(x));
    }
    if items.no_duplicates() {
        items.lemma_multiset_has_no_duplicates();
        order.lemma_multiset_has_no_duplicates_conv();
    }
}

// ----- entities -----------------------------------------------------------

/// Whether optional geometry is the same: the same regions, objects and signal layer, or
/// none on either side.
pub open spec fn same_extent(
    left: Option<AspectGeometryDto>,
    right: Option<AspectGeometryDto>,
) -> bool {
    match (left, right) {
        (Some(a), Some(b)) => a.regions@ == b.regions@ && reference_keys(a.objects@)
            == reference_keys(b.objects@) && a.signal@ == b.signal@,
        (None, None) => true,
        _ => false,
    }
}

/// Whether optional semantics are the same: the same support and the same description, or
/// none on either side.
pub open spec fn same_claim(
    left: Option<PortableHypothesisSemantics>,
    right: Option<PortableHypothesisSemantics>,
) -> bool {
    match (left, right) {
        (Some(a), Some(b)) => number_eq(a.support_bits, b.support_bits) && match (
            a.description,
            b.description,
        ) {
            (Some(x), Some(y)) => x@ == y@,
            (None, None) => true,
            _ => false,
        },
        (None, None) => true,
        _ => false,
    }
}

/// Whether two records say the same of their entity.
pub open spec fn agree(a: PortableEntityRecord, b: PortableEntityRecord) -> bool {
    &&& a.label@ == b.label@
    &&& a.role == b.role
    &&& same_claim(a.hypothesis, b.hypothesis)
    &&& match (a.hypothesis_group, b.hypothesis_group) {
        (Some(x), Some(y)) => x@ == y@,
        (None, None) => true,
        _ => false,
    }
    &&& same_extent(a.extent, b.extent)
    &&& a.extensions@.len() == b.extensions@.len()
    &&& forall|i: int|
        0 <= i < a.extensions@.len() ==> member_values(member_views(a.extensions@))[i]
            == #[trigger] member_values(member_views(b.extensions@))[i]
}

/// Whether two records are of the same entity of one reading.
pub open spec fn same_entity(a: PortableEntityRecord, b: PortableEntityRecord) -> bool {
    a.kind@ == b.kind@ && a.local_id == b.local_id
}

proof fn lemma_agree(a: PortableEntityRecord, b: PortableEntityRecord)
    requires
        same_entity(a, b),
    ensures
        record_same(a, b) <==> agree(a, b),
{
    let x = member_values(member_views(a.extensions@));
    let y = member_values(member_views(b.extensions@));
    assert(x.len() == a.extensions@.len() && y.len() == b.extensions@.len());
    if agree(a, b) {
        assert(x =~= y);
    }
}

proof fn lemma_unrepeated(
    reading: ReadingId,
    records: Seq<PortableEntityRecord>,
    from: int,
    i: int,
    j: int,
)
    requires
        inventory_fault(reading, records, from) is None,
        0 <= from <= j,
        0 <= i < j < records.len(),
    ensures
        !same_entity(records[i], records[j]),
    decreases j - from,
{
    if from < j {
        lemma_unrepeated(reading, records, from + 1, i, j);
    } else {
        assert(!repeats_record(reading, records, j));
        assert(record_id(reading, records[i])@ != record_id(reading, records[j])@);
    }
}

proof fn lemma_record_found(
    reading: ReadingId,
    records: Seq<PortableEntityRecord>,
    from: int,
    i: int,
)
    requires
        inventory_fault(reading, records, 0) is None,
        0 <= from <= i < records.len(),
    ensures
        record_index(reading, records, record_id(reading, records[i])@, from) == Some(i),
    decreases i - from,
{
    if from < i {
        lemma_unrepeated(reading, records, 0, from, i);
        lemma_record_found(reading, records, from + 1, i);
    }
}

proof fn lemma_record_index(
    reading: ReadingId,
    records: Seq<PortableEntityRecord>,
    id: EntityKey,
    from: int,
)
    requires
        0 <= from,
    ensures
        match record_index(reading, records, id, from) {
            Some(i) => from <= i < records.len() && record_id(reading, records[i])@ == id,
            None => forall|i: int|
                from <= i < records.len() ==> (#[trigger] record_id(reading, records[i]))@ != id,
        },
    decreases records.len() - from,
{
    if from < records.len() && record_id(reading, records[from])@ != id {
        lemma_record_index(reading, records, id, from + 1);
    }
}

proof fn lemma_with_ids(
    ids: Seq<EntityKey>,
    reading: ReadingId,
    records: Seq<PortableEntityRecord>,
    i: int,
)
    requires
        0 <= i <= records.len(),
        ids.no_duplicates(),
    ensures
        with_ids(ids, reading, records, i).no_duplicates(),
        forall|x: EntityKey| #[trigger]
            with_ids(ids, reading, records, i).contains(x) <==> ids.contains(x) || exists|k: int|
                0 <= k < i && (#[trigger] record_id(reading, records[k]))@ == x,
    decreases i,
{
    if i > 0 {
        lemma_with_ids(ids, reading, records, i - 1);
        let before = with_ids(ids, reading, records, i - 1);
        let after = with_ids(ids, reading, records, i);
        let own = record_id(reading, records[i - 1])@;
        assert forall|x: EntityKey| #[trigger] after.contains(x) <==> ids.contains(x) || exists|
            k: int,
        |
            0 <= k < i && (#[trigger] record_id(reading, records[k]))@ == x by {
            if after != before {
                assert(after == before.push(own));
                assert(after[before.len() as int] == own);
                if before.contains(x) {
                    let n = choose|n: int| 0 <= n < before.len() && before[n] == x;
                    assert(after[n] == x);
                }
                if after.contains(x) && x != own {
                    let n = choose|n: int| 0 <= n < after.len() && after[n] == x;
                    assert(before[n] == x);
                }
            }
            if x == own {
                assert(record_id(reading, records[i - 1])@ == x);
            }
        }
    }
}

/// A comparison reports each entity of either reading, and nothing else, once.
pub proof fn every_entity_is_compared_once(
    left: DecodedReading,
    right: DecodedReading,
    diff: ReadingDiff,
    a: Seq<PortableEntityRecord>,
    b: Seq<PortableEntityRecord>,
)
    requires
        structural_diff(left, right) == Ok::<DiffView, ImportFault>(diff@),
        inventory(left) == Ok::<Seq<PortableEntityRecord>, ImportFault>(a),
        inventory(right) == Ok::<Seq<PortableEntityRecord>, ImportFault>(b),
    ensures
        diff.left == (left.reading.reading_id, left.reading.revision),
        diff.right == (right.reading.reading_id, right.reading.revision),
        forall|m: int, n: int|
            0 <= m < n < diff.entities@.len() ==> (#[trigger] diff.entities@[m]).id@ != (
            #[trigger] diff.entities@[n]).id@,
        forall|i: int|
            0 <= i < a.len() ==> exists|n: int|
                0 <= n < diff.entities@.len() && (#[trigger] diff.entities@[n]).id@ == (
                #[trigger] record_id(left.reading.reading_id, a[i]))@,
        forall|j: int|
            0 <= j < b.len() ==> exists|n: int|
                0 <= n < diff.entities@.len() && (#[trigger] diff.entities@[n]).id@ == (
                #[trigger] record_id(right.reading.reading_id, b[j]))@,
        forall|n: int|
            0 <= n < diff.entities@.len() ==> (exists|i: int|
                0 <= i < a.len() && (#[trigger] record_id(left.reading.reading_id, a[i]))@ == (
                #[trigger] diff.entities@[n]).id@) || (exists|j: int|
                0 <= j < b.len() && (#[trigger] record_id(right.reading.reading_id, b[j]))@
                    == diff.entities@[n].id@),
{
    let x = left.reading.reading_id;
    let y = right.reading.reading_id;
    let one = with_ids(Seq::empty(), x, a, a.len() as int);
    let two = with_ids(one, y, b, b.len() as int);
    let order = all_ids(x, a, y, b);
    lemma_with_ids(Seq::empty(), x, a, a.len() as int);
    lemma_with_ids(one, y, b, b.len() as int);
    lemma_ranked_members(two);
    let changes = diff.entities@;
    assert(diff@.entities.len() == changes.len());
    assert(order.len() == changes.len());
    assert forall|n: int| 0 <= n < changes.len() implies (#[trigger] changes[n]).id@ == order[n] by {
        assert(diff@.entities[n] == (changes[n].id@, changes[n].kind));
    }
    assert forall|m: int, n: int| 0 <= m < n < changes.len() implies (#[trigger] changes[m]).id@
        != (#[trigger] changes[n]).id@ by {
        assert(order[m] != order[n]);
    }
    assert forall|i: int| 0 <= i < a.len() implies exists|n: int|
        0 <= n < changes.len() && (#[trigger] changes[n]).id@ == (#[trigger] record_id(x, a[i]))@ by {
        assert(one.contains(record_id(x, a[i])@));
        assert(two.contains(record_id(x, a[i])@));
        assert(order.contains(record_id(x, a[i])@));
        let n = choose|n: int| 0 <= n < order.len() && order[n] == record_id(x, a[i])@;
        assert(changes[n].id@ == order[n]);
    }
    assert forall|j: int| 0 <= j < b.len() implies exists|n: int|
        0 <= n < changes.len() && (#[trigger] changes[n]).id@ == (#[trigger] record_id(y, b[j]))@ by {
        assert(two.contains(record_id(y, b[j])@));
        assert(order.contains(record_id(y, b[j])@));
        let n = choose|n: int| 0 <= n < order.len() && order[n] == record_id(y, b[j])@;
        assert(changes[n].id@ == order[n]);
    }
    assert forall|n: int| 0 <= n < changes.len() implies (exists|i: int|
        0 <= i < a.len() && (#[trigger] record_id(x, a[i]))@ == (#[trigger] changes[n]).id@) || (
    exists|j: int|
        0 <= j < b.len() && (#[trigger] record_id(y, b[j]))@ == changes[n].id@) by {
        assert(order.contains(order[n]));
        assert(two.contains(order[n]));
    }
}

/// An entity that both versions of a reading have is unchanged if and only if its records
/// agree in everything, and modified otherwise.
pub proof fn entities_are_unchanged_where_their_records_agree(
    left: DecodedReading,
    right: DecodedReading,
    diff: ReadingDiff,
    a: Seq<PortableEntityRecord>,
    b: Seq<PortableEntityRecord>,
    n: int,
    i: int,
    j: int,
)
    requires
        structural_diff(left, right) == Ok::<DiffView, ImportFault>(diff@),
        inventory(left) == Ok::<Seq<PortableEntityRecord>, ImportFault>(a),
        inventory(right) == Ok::<Seq<PortableEntityRecord>, ImportFault>(b),
        left.reading.reading_id == right.reading.reading_id,
        0 <= n < diff.entities@.len(),
        0 <= i < a.len(),
        0 <= j < b.len(),
        same_entity(a[i], b[j]),
        diff.entities@[n].id.reading == left.reading.reading_id,
        diff.entities@[n].id.kind@ == a[i].kind@,
        diff.entities@[n].id.local_id == a[i].local_id,
    ensures
        agree(a[i], b[j]) ==> diff.entities@[n].kind == SectionChangeKind::Unchanged,
        !agree(a[i], b[j]) ==> diff.entities@[n].kind == SectionChangeKind::Modified,
{
    let x = left.reading.reading_id;
    lemma_inventory(left, a);
    lemma_inventory(right, b);
    lemma_agree(a[i], b[j]);
    lemma_record_found(x, a, 0, i);
    lemma_record_found(x, b, 0, j);
    lemma_change_at(left, right, diff, a, b, n);
    assert(record_id(x, a[i])@ == diff.entities@[n].id@);
    assert(record_id(x, b[j])@ == diff.entities@[n].id@);
}

proof fn lemma_inventory(input: DecodedReading, records: Seq<PortableEntityRecord>)
    requires
        inventory(input) == Ok::<Seq<PortableEntityRecord>, ImportFault>(records),
    ensures
        inventory_fault(input.reading.reading_id, records, 0) is None,
        records.len() > 0 ==> (input.entities matches Ok(list) && list@ == records),
{
}

proof fn lemma_change_at(
    left: DecodedReading,
    right: DecodedReading,
    diff: ReadingDiff,
    a: Seq<PortableEntityRecord>,
    b: Seq<PortableEntityRecord>,
    n: int,
)
    requires
        structural_diff(left, right) == Ok::<DiffView, ImportFault>(diff@),
        inventory(left) == Ok::<Seq<PortableEntityRecord>, ImportFault>(a),
        inventory(right) == Ok::<Seq<PortableEntityRecord>, ImportFault>(b),
        0 <= n < diff.entities@.len(),
    ensures
        diff.entities@[n].kind == entity_change(
            left.reading.reading_id,
            a,
            right.reading.reading_id,
            b,
            diff.entities@[n].id@,
        ),
{
    assert(diff@.entities[n] == (diff.entities@[n].id@, diff.entities@[n].kind));
    let order = all_ids(left.reading.reading_id, a, right.reading.reading_id, b);
    assert(diff@.entities.len() == order.len());
    assert(diff@.entities[n].0 == order[n]);
}

/// An entity that only one side has was removed with the left one or added with the right
/// one.
pub proof fn entities_of_one_side_are_added_or_removed(
    left: DecodedReading,
    right: DecodedReading,
    diff: ReadingDiff,
    a: Seq<PortableEntityRecord>,
    b: Seq<PortableEntityRecord>,
    n: int,
)
    requires
        structural_diff(left, right) == Ok::<DiffView, ImportFault>(diff@),
        inventory(left) == Ok::<Seq<PortableEntityRecord>, ImportFault>(a),
        inventory(right) == Ok::<Seq<PortableEntityRecord>, ImportFault>(b),
        0 <= n < diff.entities@.len(),
    ensures
        diff.entities@[n].kind == SectionChangeKind::Added <==> forall|i: int|
            0 <= i < a.len() ==> (#[trigger] record_id(left.reading.reading_id, a[i]))@
                != diff.entities@[n].id@,
        diff.entities@[n].kind == SectionChangeKind::Removed <==> forall|j: int|
            0 <= j < b.len() ==> (#[trigger] record_id(right.reading.reading_id, b[j]))@
                != diff.entities@[n].id@,
{
    let x = left.reading.reading_id;
    let y = right.reading.reading_id;
    let id = diff.entities@[n].id@;
    lemma_change_at(left, right, diff, a, b, n);
    lemma_record_index(x, a, id, 0);
    lemma_record_index(y, b, id, 0);
    every_entity_is_compared_once(left, right, diff, a, b);
    let first = diff.entities@[n];
    assert((exists|i: int| 0 <= i < a.len() && (#[trigger] record_id(x, a[i]))@ == first.id@) || (
    exists|j: int| 0 <= j < b.len() && (#[trigger] record_id(y, b[j]))@ == first.id@));
}

/// The entities of a reading are those that its entity section was decoded to.
pub proof fn inventories_are_what_was_decoded(
    input: DecodedReading,
    records: Seq<PortableEntityRecord>,
    s: int,
)
    requires
        inventory(input) == Ok::<Seq<PortableEntityRecord>, ImportFault>(records),
        0 <= s < input.reading.sections@.len(),
        input.reading.sections@[s].name@ == "entities"@,
    ensures
        input.entities matches Ok(list) && list@ == records,
        forall|i: int, j: int|
            0 <= i < j < records.len() ==> !(#[trigger] same_entity(records[i], records[j])),
{
    lemma_section_found(input.reading.sections@, "entities"@, 0, s);
    assert forall|i: int, j: int| 0 <= i < j < records.len() implies !(#[trigger] same_entity(
        records[i],
        records[j],
    )) by {
        lemma_unrepeated(input.reading.reading_id, records, 0, i, j);
    }
}

proof fn lemma_section_found(sections: Seq<ReadingSection>, name: Seq<char>, i: int, s: int)
    requires
        0 <= i <= s < sections.len(),
        sections[s].name@ == name,
    ensures
        section_index(sections, name, i) matches Some(k) && i <= k <= s && sections[k].name@ == name,
    decreases s - i,
{
    if sections[i].name@ != name {
        lemma_section_found(sections, name, i + 1, s);
    }
}

// ----- sections and source ------------------------------------------------

/// Whether two sections hold the same: schema, payload and extensions, by value.
pub open spec fn same_section(a: ReadingSection, b: ReadingSection) -> bool {
    &&& a.schema_major == b.schema_major
    &&& a.schema_minor == b.schema_minor
    &&& a.payload@.value() == b.payload@.value()
    &&& member_values(member_views(a.extensions@)) == member_values(member_views(b.extensions@))
}

proof fn lemma_with_names(names: Seq<Seq<char>>, sections: Seq<ReadingSection>, i: int)
    requires
        0 <= i <= sections.len(),
        names.no_duplicates(),
    ensures
        with_names(names, sections, i).no_duplicates(),
        forall|x: Seq<char>| #[trigger]
            with_names(names, sections, i).contains(x) <==> names.contains(x) || exists|k: int|
                0 <= k < i && (#[trigger] sections[k]).name@ == x,
    decreases i,
{
    if i > 0 {
        lemma_with_names(names, sections, i - 1);
        let before = with_names(names, sections, i - 1);
        let after = with_names(names, sections, i);
        let own = sections[i - 1].name@;
        assert forall|x: Seq<char>| #[trigger] after.contains(x) <==> names.contains(x) || exists|
            k: int,
        |
            0 <= k < i && (#[trigger] sections[k]).name@ == x by {
            if after != before {
                assert(after == before.push(own));
                assert(after[before.len() as int] == own);
                if before.contains(x) {
                    let n = choose|n: int| 0 <= n < before.len() && before[n] == x;
                    assert(after[n] == x);
                }
                if after.contains(x) && x != own {
                    let n = choose|n: int| 0 <= n < after.len() && after[n] == x;
                    assert(before[n] == x);
                }
            }
            if x == own {
                assert(sections[i - 1].name@ == x);
            }
        }
    }
}

proof fn lemma_section_index(sections: Seq<ReadingSection>, name: Seq<char>, i: int)
    requires
        0 <= i,
    ensures
        match section_index(sections, name, i) {
            Some(k) => i <= k < sections.len() && sections[k].name@ == name,
            None => forall|k: int| i <= k < sections.len() ==> (#[trigger] sections[k]).name@ != name,
        },
    decreases sections.len() - i,
{
    if i < sections.len() && sections[i].name@ != name {
        lemma_section_index(sections, name, i + 1);
    }
}

/// A comparison reports each name of a section of either side once. A section is added or
/// removed where only one side has the name; where both have it, it is unchanged if and
/// only if both hold the same.
pub proof fn sections_are_unchanged_where_they_hold_the_same(
    left: DecodedReading,
    right: DecodedReading,
    diff: ReadingDiff,
    n: int,
)
    requires
        structural_diff(left, right) == Ok::<DiffView, ImportFault>(diff@),
        0 <= n < diff.sections@.len(),
    ensures
        ({
            let a = left.reading.sections@;
            let b = right.reading.sections@;
            let name = diff.sections@[n].name@;
            let kind = diff.sections@[n].kind;
            &&& kind == SectionChangeKind::Added <==> forall|i: int|
                0 <= i < a.len() ==> (#[trigger] a[i]).name@ != name
            &&& kind == SectionChangeKind::Removed <==> forall|j: int|
                0 <= j < b.len() ==> (#[trigger] b[j]).name@ != name
            &&& forall|i: int, j: int|
                0 <= i < a.len() && 0 <= j < b.len() && (#[trigger] a[i]).name@ == name && (
                #[trigger] b[j]).name@ == name && (forall|k: int|
                    0 <= k < a.len() && k != i ==> (#[trigger] a[k]).name@ != name) && (forall|
                    k: int,
                |
                    0 <= k < b.len() && k != j ==> (#[trigger] b[k]).name@ != name) ==> (kind
                    == SectionChangeKind::Unchanged <==> same_section(a[i], b[j])) && (kind
                    == SectionChangeKind::Modified <==> !same_section(a[i], b[j]))
            &&& forall|m: int|
                0 <= m < diff.sections@.len() && m != n ==> (#[trigger] diff.sections@[m]).name@
                    != name
        }),
{
    let a = left.reading.sections@;
    let b = right.reading.sections@;
    let one = with_names(Seq::empty(), a, a.len() as int);
    let two = with_names(one, b, b.len() as int);
    let order = all_names(a, b);
    lemma_with_names(Seq::empty(), a, a.len() as int);
    lemma_with_names(one, b, b.len() as int);
    lemma_ranked_members(two);
    let changes = diff.sections@;
    let name = changes[n].name@;
    assert(diff@.sections.len() == changes.len());
    assert(diff@.sections.len() == order.len());
    assert forall|m: int| 0 <= m < changes.len() implies (#[trigger] changes[m]).name@ == order[m]
        && changes[m].kind == section_change(a, b, order[m]) by {
        assert(diff@.sections[m] == (changes[m].name@, changes[m].kind));
    }
    assert forall|m: int| 0 <= m < changes.len() && m != n implies (#[trigger] changes[m]).name@
        != name by {
        assert(order[m] != order[n]);
    }
    lemma_section_index(a, name, 0);
    lemma_section_index(b, name, 0);
    assert(order.contains(order[n]));
    assert(two.contains(name));
    assert forall|i: int, j: int|
        0 <= i < a.len() && 0 <= j < b.len() && (#[trigger] a[i]).name@ == name && (
        #[trigger] b[j]).name@ == name && (forall|k: int|
            0 <= k < a.len() && k != i ==> (#[trigger] a[k]).name@ != name) && (forall|k: int|
            0 <= k < b.len() && k != j ==> (#[trigger] b[k]).name@ != name) implies (
    changes[n].kind == SectionChangeKind::Unchanged <==> same_section(a[i], b[j])) && (
    changes[n].kind == SectionChangeKind::Modified <==> !same_section(a[i], b[j])) by {
        assert(section_index(a, name, 0) == Some(i));
        assert(section_index(b, name, 0) == Some(j));
    }
}

/// Every name of a section comes up in a comparison.
pub proof fn every_section_is_compared(
    left: DecodedReading,
    right: DecodedReading,
    diff: ReadingDiff,
    name: Seq<char>,
) -> (n: int)
    requires
        structural_diff(left, right) == Ok::<DiffView, ImportFault>(diff@),
        (exists|i: int|
            0 <= i < left.reading.sections@.len() && (
            #[trigger] left.reading.sections@[i]).name@ == name) || (exists|j: int|
            0 <= j < right.reading.sections@.len() && (
            #[trigger] right.reading.sections@[j]).name@ == name),
    ensures
        0 <= n < diff.sections@.len(),
        diff.sections@[n].name@ == name,
{
    let a = left.reading.sections@;
    let b = right.reading.sections@;
    let one = with_names(Seq::empty(), a, a.len() as int);
    let two = with_names(one, b, b.len() as int);
    let order = all_names(a, b);
    lemma_with_names(Seq::empty(), a, a.len() as int);
    lemma_with_names(one, b, b.len() as int);
    lemma_ranked_members(two);
    assert(one.contains(name) || !one.contains(name));
    assert(two.contains(name));
    assert(order.contains(name));
    let n = choose|n: int| 0 <= n < order.len() && order[n] == name;
    assert(diff@.sections.len() == order.len());
    assert(diff@.sections[n] == (diff.sections@[n].name@, diff.sections@[n].kind));
    n
}

/// The source is changed unless both readings describe the same one: the same digests,
/// rate, channels and frames, title and extensions.
pub proof fn sources_are_changed_where_they_differ(
    left: DecodedReading,
    right: DecodedReading,
    diff: ReadingDiff,
)
    requires
        structural_diff(left, right) == Ok::<DiffView, ImportFault>(diff@),
    ensures
        ({
            let a = left.reading.source;
            let b = right.reading.source;
            !diff.source_changed <==> a.fingerprints@ == b.fingerprints@ && a.sample_rate
                == b.sample_rate && a.channels == b.channels && a.frame_count == b.frame_count
                && (match (a.declared_title, b.declared_title) {
                (Some(x), Some(y)) => x@ == y@,
                (None, None) => true,
                _ => false,
            }) && member_values(member_views(a.extensions@)) == member_values(
                member_views(b.extensions@),
            )
        }),
{
}

// ----- questions ----------------------------------------------------------

/// Whether an entity is an alternative for a question.
pub open spec fn answers_question(entity: PlannedView, question: Seq<char>) -> bool {
    entity.role == PortableEntityRole::Hypothesis && entity.hypothesis_group == Some(question)
}

proof fn lemma_alternatives(entities: Seq<PlannedView>, question: Seq<char>, i: int)
    requires
        0 <= i <= entities.len(),
    ensures
        alternatives_for(entities, question, i) == entities.take(i).filter(
            |e: PlannedView| answers_question(e, question),
        ).map_values(
            |e: PlannedView|
                AlternativeView {
                    id: e.id,
                    statement: StatementView {
                        label: e.label,
                        semantics: e.hypothesis,
                        extent: e.extent,
                    },
                },
        ),
    decreases i,
{
    reveal(Seq::filter);
    let pick = |e: PlannedView| answers_question(e, question);
    let turn = |e: PlannedView|
        AlternativeView {
            id: e.id,
            statement: StatementView { label: e.label, semantics: e.hypothesis, extent: e.extent },
        };
    if i > 0 {
        lemma_alternatives(entities, question, i - 1);
        assert(entities.take(i).drop_last() =~= entities.take(i - 1));
        let before = entities.take(i - 1).filter(pick);
        if answers_question(entities[i - 1], question) {
            assert(before.push(entities[i - 1]).map_values(turn) =~= before.map_values(turn).push(
                turn(entities[i - 1]),
            ));
        }
    } else {
        assert(entities.take(0).filter(pick).map_values(turn) =~= Seq::<AlternativeView>::empty());
    }
}

/// How often a statement is made.
pub open spec fn times(list: Seq<AlternativeView>, statement: StatementView) -> nat {
    list.filter(|a: AlternativeView| a.statement == statement).len()
}

proof fn lemma_count(list: Seq<AlternativeView>, statement: StatementView)
    ensures
        statements(list).to_multiset().count(statement) == times(list, statement),
    decreases list.len(),
{
    broadcast use vstd::seq_lib::group_to_multiset_ensures;

    reveal(Seq::filter);
    if list.len() == 0 {
        assert(statements(list) =~= Seq::<StatementView>::empty());
    } else {
        lemma_count(list.drop_last(), statement);
        assert(statements(list) =~= statements(list.drop_last()).push(list.last().statement));
    }
}

/// How a question changed: it was added or removed where only one side has alternatives.
/// Where both have some, they are equivalent if and only if each statement is made as often
/// on either side, by whomever.
pub proof fn questions_change_with_their_statements(
    left: Seq<AlternativeView>,
    right: Seq<AlternativeView>,
)
    ensures
        ({
            let kind = question_kind(left, right);
            &&& left.len() == 0 <==> kind == SemanticChangeKind::AddedQuestion
            &&& left.len() > 0 && right.len() == 0 <==> kind == SemanticChangeKind::RemovedQuestion
            &&& left.len() > 0 && right.len() > 0 && (forall|s: StatementView| #[trigger]
                times(left, s) == times(right, s)) <==> kind
                == SemanticChangeKind::EquivalentAlternatives
        }),
{
    let x = statements(left).to_multiset();
    let y = statements(right).to_multiset();
    assert forall|s: StatementView| #[trigger] times(left, s) == x.count(s) && times(right, s)
        == y.count(s) by {
        lemma_count(left, s);
        lemma_count(right, s);
    }
    if forall|s: StatementView| #[trigger] times(left, s) == times(right, s) {
        assert forall|s: StatementView| x.count(s) == y.count(s) by {
            assert(times(left, s) == times(right, s));
        }
        assert(x =~= y);
    }
}

/// The change of a question lists, on either side, exactly the hypotheses that the reading
/// puts into the group of that name, with what they say; and their extents overlap where
/// some regions of the two sides do.
pub proof fn questions_list_their_alternatives(
    left: DecodedReading,
    right: DecodedReading,
    diff: SemanticReadingDiff,
    a: Seq<PlannedView>,
    b: Seq<PlannedView>,
    n: int,
)
    requires
        semantic_diff(left, right) == Ok::<SemanticDiffView, ImportFault>(diff@),
        import_plan(
            left.reading,
            left.entities,
            None,
            Seq::empty(),
            crate::reading_diff::comparing_options(),
        ) matches Ok(plan) && plan.entities == a,
        import_plan(
            right.reading,
            right.entities,
            None,
            Seq::empty(),
            crate::reading_diff::comparing_options(),
        ) matches Ok(plan) && plan.entities == b,
        0 <= n < diff.hypotheses@.len(),
    ensures
        structural_diff(left, right) == Ok::<DiffView, ImportFault>(diff.structural@),
        ({
            let change = diff.hypotheses@[n];
            let question = change.question@;
            &&& change.kind == question_kind(change@.left, change@.right)
            &&& lists_alternatives(change@.left, a, question)
            &&& lists_alternatives(change@.right, b, question)
            &&& change.extents_overlap <==> exists|i: int, j: int, p: int, q: int|
                0 <= i < change.left@.len() && 0 <= j < change.right@.len() && 0 <= p && 0 <= q
                    && #[trigger] shares_region(
                    change.left@[i].extent,
                    p,
                    change.right@[j].extent,
                    q,
                )
        }),
{
    let change = diff.hypotheses@[n];
    let question = change.question@;
    let order = all_questions(a, b);
    assert(diff@.hypotheses[n] == change@);
    assert(diff@.hypotheses.len() == order.len());
    assert(change@ == question_change(a, b, order[n]));
    assert(order[n] == question);
    lemma_lists_alternatives(a, question);
    lemma_lists_alternatives(b, question);
    if change.extents_overlap {
        let (i, j) = choose|i: int, j: int|
            0 <= i < change@.left.len() && 0 <= j < change@.right.len()
                && #[trigger] regions_overlap(
                change@.left[i].statement.extent,
                change@.right[j].statement.extent,
            );
        assert(change@.left[i] == change.left@[i]@);
        assert(change@.right[j] == change.right@[j]@);
        let x = change.left@[i].extent->0.regions@;
        let y = change.right@[j].extent->0.regions@;
        let (p, q) = choose|p: int, q: int|
            0 <= p < x.len() && 0 <= q < y.len() && #[trigger] x[p].overlaps(y[q]);
        assert(shares_region(change.left@[i].extent, p, change.right@[j].extent, q));
    }
    assert forall|i: int, j: int, p: int, q: int|
        0 <= i < change.left@.len() && 0 <= j < change.right@.len() && 0 <= p && 0 <= q
            && #[trigger] shares_region(
            change.left@[i].extent,
            p,
            change.right@[j].extent,
            q,
        ) implies change.extents_overlap by {
        assert(change@.left[i] == change.left@[i]@);
        assert(change@.right[j] == change.right@[j]@);
        let x = change.left@[i].extent->0.regions@;
        let y = change.right@[j].extent->0.regions@;
        let one = change@.left[i].statement.extent->0;
        let two = change@.right[j].statement.extent->0;
        assert(one.regions == x && two.regions == y);
        assert(one.regions[p].overlaps(two.regions[q]));
        assert(regions_overlap(
            change@.left[i].statement.extent,
            change@.right[j].statement.extent,
        ));
    }
}

/// Whether a region of one extent and a region of another have a frame, a band and a
/// channel in common.
pub open spec fn shares_region(
    left: Option<AspectGeometryDto>,
    p: int,
    right: Option<AspectGeometryDto>,
    q: int,
) -> bool {
    &&& left matches Some(a)
    &&& right matches Some(b)
    &&& p < a.regions@.len() && q < b.regions@.len()
    &&& a.regions@[p].start_frame < b.regions@[q].end_frame
    &&& b.regions@[q].start_frame < a.regions@[p].end_frame
    &&& crate::navigation::number_lt(a.regions@[p].min_hz_bits, b.regions@[q].max_hz_bits)
    &&& crate::navigation::number_lt(b.regions@[q].min_hz_bits, a.regions@[p].max_hz_bits)
    &&& a.regions@[p].channels & b.regions@[q].channels != 0
}

/// Whether a list holds the alternatives for a question among some entities, each as often.
pub open spec fn lists_alternatives(
    list: Seq<AlternativeView>,
    entities: Seq<PlannedView>,
    question: Seq<char>,
) -> bool {
    let picked = entities.filter(|e: PlannedView| answers_question(e, question));
    &&& list.len() == picked.len()
    &&& list.to_multiset() == picked.map_values(
        |e: PlannedView|
            AlternativeView {
                id: e.id,
                statement: StatementView {
                    label: e.label,
                    semantics: e.hypothesis,
                    extent: e.extent,
                },
            },
    ).to_multiset()
}

proof fn lemma_lists_alternatives(entities: Seq<PlannedView>, question: Seq<char>)
    ensures
        lists_alternatives(
            ranked(alternatives_for(entities, question, entities.len() as int)),
            entities,
            question,
        ),
{
    lemma_alternatives(entities, question, entities.len() as int);
    assert(entities.take(entities.len() as int) =~= entities);
    ranked_is_an_ordering(alternatives_for(entities, question, entities.len() as int));
}

} // verus!
