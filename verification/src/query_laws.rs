//! What pages of results and query documents promise: which rows a page holds, what of a
//! row is shown, and which pages and documents are accepted.

use vstd::prelude::*;
use vstd::string::*;

use crate::cursor::cursor_offset;
use crate::diff_laws::lemma_ranked_members;
use crate::navigation::{
    hit_views, optional_geometry, reference_keys, valid_reference, EntityRefDto, EntityRefKey,
    HitView, QueryHitDto,
};
use crate::query_document::{
    all_valid, fact_key, fact_keys, has_page, hits_fault, is_page, page_end, page_fault,
    page_hits, page_refusal, requested_end, requested_start, result_fits, results_fault, row_hit,
    row_premises, same_result, without_repeats, FactRef, QueryDocument, QueryExecutionProvenance,
    QueryPageRequest, QueryResultSnapshot, QueryRow, QueryRun,
};
use crate::query_terms::{compiled, geometry_fault};
use crate::rank::ranked;
use crate::reading::PortableDigest;
use crate::reading_laws::{resists_collisions, shows_something};
use crate::text::{is_blank, is_token};
use crate::workbench_error::WorkbenchFault;

verus! {

/// Whether a reference names a fact: the project's own, of the kind of the fact and with
/// its number.
pub open spec fn names_fact(reference: EntityRefKey, fact: FactRef) -> bool {
    reference matches EntityRefKey::Project { kind, local_id } && match fact {
        FactRef::Object(id) => kind == "air-object"@ && local_id == id,
        FactRef::Source(id) => kind == "air-source"@ && local_id == id,
        FactRef::Parameter(id) => kind == "air-parameter"@ && local_id == id,
        FactRef::Hypothesis(id) => kind == "air-hypothesis"@ && local_id == id,
    }
}

/// Different facts are never named alike.
pub proof fn references_tell_facts(reference: EntityRefKey, one: FactRef, two: FactRef)
    requires
        names_fact(reference, one),
        names_fact(reference, two),
    ensures
        one == two,
{
    reveal_strlit("air-object");
    reveal_strlit("air-source");
    reveal_strlit("air-parameter");
    reveal_strlit("air-hypothesis");
    assert("air-object"@[4] == 'o');
    assert("air-source"@[4] == 's');
    assert("air-parameter"@[4] == 'p');
    assert("air-hypothesis"@[4] == 'h');
}

proof fn lemma_without_repeats(keys: Seq<EntityRefKey>)
    ensures
        forall|x: EntityRefKey| #[trigger] without_repeats(keys).contains(x) <==> keys.contains(x),
        forall|i: int|
            0 < i < without_repeats(keys).len() ==> #[trigger] without_repeats(keys)[i]
                != without_repeats(keys)[i - 1],
        keys.len() > 0 ==> without_repeats(keys).len() > 0 && without_repeats(keys).last()
            == keys.last(),
        keys.len() == 0 ==> without_repeats(keys).len() == 0,
    decreases keys.len(),
{
    if keys.len() > 0 {
        let shorter = keys.drop_last();
        lemma_without_repeats(shorter);
        let before = without_repeats(shorter);
        let out = without_repeats(keys);
        assert forall|x: EntityRefKey| #[trigger] out.contains(x) <==> keys.contains(x) by {
            assert(before.contains(x) <==> shorter.contains(x));
            if keys.contains(x) {
                let k = choose|k: int| 0 <= k < keys.len() && keys[k] == x;
                if k < keys.len() - 1 {
                    assert(shorter[k] == x);
                    assert(before.contains(x));
                    let b = choose|b: int| 0 <= b < before.len() && before[b] == x;
                    assert(out[b] == x);
                } else {
                    assert(out[out.len() - 1] == x);
                }
            }
            if out.contains(x) {
                let k = choose|k: int| 0 <= k < out.len() && out[k] == x;
                if k < before.len() {
                    assert(before[k] == x);
                    assert(before.contains(x));
                    let s = choose|s: int| 0 <= s < shorter.len() && shorter[s] == x;
                    assert(keys[s] == x);
                } else {
                    assert(keys[keys.len() - 1] == x);
                }
            }
        }
    }
}

/// Whether a hit shows a row: its fact, its rule, its extent, and as premises everything
/// that led to the row or is evidence for it.
pub open spec fn shows_row(hit: QueryHitDto, row: QueryRow) -> bool {
    &&& names_fact(hit.fact@, row.fact)
    &&& hit.derivation.rule@ == row.rule@
    &&& match (row.extent, hit.extent) {
        (Some(given), Some(shown)) => given.regions@ == shown.regions@ && reference_keys(
            given.objects@,
        ) == reference_keys(shown.objects@) && given.signal@ == shown.signal@,
        (None, None) => true,
        _ => false,
    }
    &&& forall|p: int|
        0 <= p < hit.derivation.premises@.len() ==> exists|f: int|
            (0 <= f < row.premises@.len() && names_fact(
                #[trigger] hit.derivation.premises@[p]@,
                #[trigger] (row.premises@ + row.evidence@)[f],
            )) || (row.premises@.len() <= f < row.premises@.len() + row.evidence@.len()
                && names_fact(
                hit.derivation.premises@[p]@,
                (row.premises@ + row.evidence@)[f],
            ))
    &&& forall|f: int|
        0 <= f < row.premises@.len() + row.evidence@.len() ==> exists|p: int|
            0 <= p < hit.derivation.premises@.len() && names_fact(
                #[trigger] hit.derivation.premises@[p]@,
                #[trigger] (row.premises@ + row.evidence@)[f],
            )
}

proof fn lemma_shows_row(hit: QueryHitDto, row: QueryRow)
    requires
        hit@ == row_hit(row),
    ensures
        shows_row(hit, row),
        forall|p: int|
            0 < p < hit.derivation.premises@.len() ==> (
            #[trigger] hit.derivation.premises@[p])@ != hit.derivation.premises@[p - 1]@,
{
    let facts = row.premises@ + row.evidence@;
    let keys = fact_keys(facts);
    let order = ranked(keys);
    let out = without_repeats(order);
    lemma_ranked_members(keys);
    lemma_without_repeats(order);
    assert(hit@.premises == out);
    assert(hit@.premises.len() == hit.derivation.premises@.len());
    assert forall|p: int| 0 <= p < out.len() implies out[p] == (
    #[trigger] hit.derivation.premises@[p])@ by {
        assert(hit@.premises[p] == hit.derivation.premises@[p]@);
    }
    assert forall|p: int| 0 <= p < hit.derivation.premises@.len() implies exists|f: int|
        (0 <= f < row.premises@.len() && names_fact(
            #[trigger] hit.derivation.premises@[p]@,
            #[trigger] (row.premises@ + row.evidence@)[f],
        )) || (row.premises@.len() <= f < row.premises@.len() + row.evidence@.len() && names_fact(
            hit.derivation.premises@[p]@,
            (row.premises@ + row.evidence@)[f],
        )) by {
        assert(out[p] == hit.derivation.premises@[p]@);
        assert(out.contains(out[p]));
        assert(order.contains(out[p]));
        assert(keys.contains(out[p]));
        let f = choose|f: int| 0 <= f < keys.len() && keys[f] == out[p];
        assert(names_fact(hit.derivation.premises@[p]@, facts[f]));
    }
    assert forall|f: int| 0 <= f < row.premises@.len() + row.evidence@.len() implies exists|p: int|
        0 <= p < hit.derivation.premises@.len() && names_fact(
            #[trigger] hit.derivation.premises@[p]@,
            #[trigger] (row.premises@ + row.evidence@)[f],
        ) by {
        assert(keys[f] == fact_key(facts[f]));
        assert(keys.contains(keys[f]));
        assert(order.contains(keys[f]));
        assert(out.contains(keys[f]));
        let p = choose|p: int| 0 <= p < out.len() && out[p] == keys[f];
        assert(names_fact(hit.derivation.premises@[p]@, facts[f]));
    }
}

/// A page holds the rows that were asked for, each as it is: as many as the limit allows,
/// from where the cursor points on. It names a next page exactly if rows are left.
pub proof fn pages_hold_the_rows_asked_for(
    document: QueryDocument,
    provenance: QueryExecutionProvenance,
    request: QueryPageRequest,
    address: PortableDigest,
    run: QueryRun,
    result: QueryResultSnapshot,
)
    requires
        page_refusal(document, provenance, request, Ok(address), run) is None,
        is_page(
            result,
            document,
            provenance,
            address,
            run.rows->Ok_0@,
            requested_start(request, address)->Ok_0,
            requested_end(
                requested_start(request, address)->Ok_0 as int,
                request.limit,
                run.rows->Ok_0@.len() as int,
            ),
        ),
    ensures
        run.rows is Ok,
        request.cursor is None ==> result.page_start == 0,
        result.page.hits@.len() <= request.limit,
        result.page_start + result.page.hits@.len() <= run.rows->Ok_0@.len(),
        result.page.hits@.len() < request.limit ==> result.page_start + result.page.hits@.len()
            == run.rows->Ok_0@.len(),
        forall|i: int|
            0 <= i < result.page.hits@.len() ==> shows_row(
                #[trigger] result.page.hits@[i],
                run.rows->Ok_0@[result.page_start + i],
            ),
        result.page.next_cursor is None <==> result.page_start + result.page.hits@.len()
            == run.rows->Ok_0@.len(),
        result.document_revision == document.revision,
        result.page.result_revision == provenance.fact_base_revision,
        result.provenance == provenance,
        result.content_address == address,
{
    let rows = run.rows->Ok_0@;
    let start = requested_start(request, address)->Ok_0;
    let end = requested_end(start as int, request.limit, rows.len() as int);
    let hits = result.page.hits@;
    assert(hit_views(hits).len() == end - start);
    assert forall|i: int| 0 <= i < hits.len() implies shows_row(
        #[trigger] hits[i],
        rows[result.page_start + i],
    ) by {
        assert(hit_views(hits)[i] == hits[i]@);
        assert(rows.subrange(start as int, end)[i] == rows[start + i]);
        lemma_shows_row(hits[i], rows[start + i]);
    }
}

// ----- what is accepted ---------------------------------------------------

/// Whether a row can be shown: what it names exists, and its rule says something.
pub open spec fn can_be_shown(hit: HitView) -> bool {
    &&& valid_reference(hit.fact)
    &&& forall|p: int|
        0 <= p < hit.premises.len() ==> valid_reference(#[trigger] hit.premises[p])
    &&& shows_something(hit.rule)
    &&& (hit.extent matches Some(extent) ==> geometry_fault(extent) is None)
}

proof fn lemma_shows_something(text: Seq<char>)
    ensures
        shows_something(text) <==> !is_blank(text),
{
    if !is_blank(text) {
        let i = choose|i: int|
            0 <= i < text.len() && !crate::text::is_white_space(#[trigger] text[i]);
        assert(!crate::text::is_white_space(text[i]));
    }
}

proof fn lemma_hits(hits: Seq<HitView>, i: int)
    requires
        0 <= i <= hits.len(),
    ensures
        hits_fault(hits, i) is None <==> (forall|k: int|
            i <= k < hits.len() ==> can_be_shown(#[trigger] hits[k])) && (forall|j: int, k: int|
            0 <= j < k && i <= k < hits.len() ==> (#[trigger] hits[j]).fact != (
            #[trigger] hits[k]).fact),
    decreases hits.len() - i,
{
    if i < hits.len() {
        lemma_hits(hits, i + 1);
        lemma_shows_something(hits[i].rule);
        if can_be_shown(hits[i]) {
            assert(all_valid(hits[i].premises));
        }
    }
}

/// A page is accepted exactly if each of its hits can be shown and no fact is on it twice.
pub proof fn accepted_pages_can_be_shown(hits: Seq<HitView>)
    ensures
        hits_fault(hits, 0) is None <==> (forall|k: int|
            0 <= k < hits.len() ==> can_be_shown(#[trigger] hits[k])) && (forall|j: int, k: int|
            0 <= j < k < hits.len() ==> (#[trigger] hits[j]).fact != (#[trigger] hits[k]).fact),
{
    lemma_hits(hits, 0);
}

/// A page is frozen exactly if the document is sound, the facts are of some revision and
/// pinned, rows are asked for from within the results, the query ran and was not
/// cancelled, the rows can be shown, and the page is not there yet.
pub proof fn pages_are_frozen_when_nothing_is_wrong(
    document: QueryDocument,
    provenance: QueryExecutionProvenance,
    request: QueryPageRequest,
    content_address: Result<PortableDigest, String>,
    run: QueryRun,
)
    ensures
        page_refusal(document, provenance, request, content_address, run) is None ==> {
            &&& document.fault() is None
            &&& provenance.fact_base_revision > 0 && resists_collisions(
                provenance.fact_base_digest,
            )
            &&& request.limit > 0
            &&& !run.cancelled
            &&& content_address matches Ok(address) && (request.cursor matches Some(cursor)
                ==> cursor_offset(cursor@, address) is Ok) && (run.rows matches Ok(rows) && forall|
                i: int|
                0 <= i < document.results@.len() ==> !((
                #[trigger] document.results@[i]).document_revision == document.revision
                    && document.results@[i].content_address == address
                    && document.results@[i].page_start == requested_start(
                    request,
                    address,
                )->Ok_0))
        },
        page_refusal(document, provenance, request, content_address, run) is Some ==> {
            ||| document.fault() is Some
            ||| provenance.fact_base_revision == 0
            ||| !resists_collisions(provenance.fact_base_digest)
            ||| request.limit == 0
            ||| run.cancelled
            ||| content_address is Err
            ||| run.rows is Err
            ||| request.cursor matches Some(cursor) && cursor_offset(
                cursor@,
                content_address->Ok_0,
            ) is Err
            ||| run.cancelled_after is Some
            ||| requested_start(request, content_address->Ok_0)->Ok_0 > run.rows->Ok_0@.len()
            ||| requested_start(request, content_address->Ok_0)->Ok_0 > usize::MAX
            ||| hits_fault(
                page_hits(
                    request.limit,
                    run.rows->Ok_0@,
                    requested_start(request, content_address->Ok_0)->Ok_0,
                ),
                0,
            ) is Some
            ||| exists|i: int|
                0 <= i < document.results@.len() && (
                #[trigger] document.results@[i]).document_revision == document.revision
                    && document.results@[i].content_address == content_address->Ok_0
                    && document.results@[i].page_start == requested_start(
                    request,
                    content_address->Ok_0,
                )->Ok_0
        },
{
}

/// Whether a frozen page is sound in a document of a revision.
pub open spec fn sound_result(result: QueryResultSnapshot, revision: u64) -> bool {
    &&& 0 < result.document_revision <= revision
    &&& result.page.result_revision == result.provenance.fact_base_revision
    &&& resists_collisions(result.provenance.fact_base_digest)
    &&& resists_collisions(result.content_address)
    &&& hits_fault(hit_views(result.page.hits@), 0) is None
    &&& shows_something(result.page.query_term@)
    &&& result.page.next_cursor matches Some(cursor) ==> (cursor_offset(
        cursor@,
        result.content_address,
    ) matches Ok(offset) && (offset == result.page_start + result.page.hits@.len() || (offset
        == u64::MAX && result.page_start + result.page.hits@.len() > u64::MAX)))
}

proof fn lemma_sound_result(result: QueryResultSnapshot, revision: u64)
    ensures
        sound_result(result, revision) <==> result_fits(result, revision) && page_fault(result)
            is None,
{
    lemma_shows_something(result.page.query_term@);
}

proof fn lemma_results(results: Seq<QueryResultSnapshot>, revision: u64, i: int)
    requires
        0 <= i <= results.len(),
    ensures
        results_fault(results, revision, i) is None <==> (forall|k: int|
            i <= k < results.len() ==> sound_result(#[trigger] results[k], revision)) && (forall|
            j: int,
            k: int,
        |
            0 <= j < k && i <= k < results.len() ==> (#[trigger] results[j]).document_revision != (
            #[trigger] results[k]).document_revision || results[j].provenance.fact_base_revision
                != results[k].provenance.fact_base_revision || results[j].content_address
                != results[k].content_address || results[j].page_start != results[k].page_start),
    decreases results.len() - i,
{
    if i < results.len() {
        lemma_results(results, revision, i + 1);
        lemma_sound_result(results[i], revision);
        if exists|j: int| 0 <= j < i && #[trigger] same_result(results[j], results[i]) {
            let j = choose|j: int| 0 <= j < i && #[trigger] same_result(results[j], results[i]);
            assert(results[j].page_start == results[i].page_start);
        }
        assert forall|j: int| 0 <= j < i implies (#[trigger] same_result(results[j], results[i])
            <==> results[j].document_revision == results[i].document_revision
            && results[j].provenance.fact_base_revision == results[i].provenance.fact_base_revision
            && results[j].content_address == results[i].content_address && results[j].page_start
            == results[i].page_start) by {}
        if results_fault(results, revision, i) is None {
            assert forall|j: int, k: int|
                0 <= j < k && i <= k < results.len() implies (
            #[trigger] results[j]).document_revision != (#[trigger] results[k]).document_revision
                || results[j].provenance.fact_base_revision
                != results[k].provenance.fact_base_revision || results[j].content_address
                != results[k].content_address || results[j].page_start != results[k].page_start by {
                if k == i {
                    assert(!same_result(results[j], results[i]));
                }
            }
        }
    }
}

/// A query document is accepted exactly if it is of the one format and version, has a
/// number, a revision and a title, its query can be compiled, each of its results is sound
/// and none is there twice.
pub proof fn accepted_documents_are_sound(document: QueryDocument)
    ensures
        document.fault() is None <==> {
            &&& document.format@ == "audec-query-document"@
            &&& document.version == 2
            &&& document.id.0 > 0 && document.revision > 0
            &&& shows_something(document.title@)
            &&& compiled(document.query.tree()) is Ok
            &&& forall|k: int|
                0 <= k < document.results@.len() ==> sound_result(
                    #[trigger] document.results@[k],
                    document.revision,
                )
            &&& forall|j: int, k: int|
                0 <= j < k < document.results@.len() ==> (
                #[trigger] document.results@[j]).document_revision != (
                #[trigger] document.results@[k]).document_revision
                    || document.results@[j].provenance.fact_base_revision
                    != document.results@[k].provenance.fact_base_revision
                    || document.results@[j].content_address != document.results@[k].content_address
                    || document.results@[j].page_start != document.results@[k].page_start
        },
{
    lemma_results(document.results@, document.revision, 0);
    lemma_shows_something(document.title@);
}

} // verus!
