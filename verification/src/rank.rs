//! Total orders by rank, and the stable order that they induce on lists.
//!
//! A rank is a list of numbers compared lexicographically. A composite key is
//! ranked by writing its parts one after the other; a text part is closed by a
//! zero, below every character, so that a shorter text ranks before its
//! extensions.

use vstd::prelude::*;

use crate::text::chars_of;

verus! {

/// Lexicographic order of ranks.
pub open spec fn rank_lt(a: Seq<u64>, b: Seq<u64>) -> bool
    decreases a.len(),
{
    if b.len() == 0 {
        false
    } else if a.len() == 0 {
        true
    } else if a[0] != b[0] {
        a[0] < b[0]
    } else {
        rank_lt(a.drop_first(), b.drop_first())
    }
}

/// No rank is below itself.
pub proof fn rank_lt_irreflexive(a: Seq<u64>)
    ensures
        !rank_lt(a, a),
    decreases a.len(),
{
    if a.len() > 0 {
        rank_lt_irreflexive(a.drop_first());
    }
}

/// Of two different ranks one is below the other.
pub proof fn rank_lt_total(a: Seq<u64>, b: Seq<u64>)
    ensures
        rank_lt(a, b) || rank_lt(b, a) || a == b,
    decreases a.len(),
{
    if a.len() > 0 && b.len() > 0 {
        rank_lt_total(a.drop_first(), b.drop_first());
        if a[0] == b[0] && a.drop_first() == b.drop_first() {
            assert(a =~= seq![a[0]] + a.drop_first());
            assert(b =~= seq![b[0]] + b.drop_first());
        }
    } else if a.len() == 0 && b.len() == 0 {
        assert(a =~= b);
    }
}

/// Ranks below a rank are below everything above it.
pub proof fn rank_lt_transitive(a: Seq<u64>, b: Seq<u64>, c: Seq<u64>)
    requires
        rank_lt(a, b),
        rank_lt(b, c),
    ensures
        rank_lt(a, c),
    decreases a.len(),
{
    if a.len() > 0 && a[0] == b[0] && b[0] == c[0] {
        rank_lt_transitive(a.drop_first(), b.drop_first(), c.drop_first());
    }
}

/// Whether the first rank is below the second.
pub fn rank_before(a: &Vec<u64>, b: &Vec<u64>) -> (r: bool)
    ensures
        r == rank_lt(a@, b@),
{
    let mut i: usize = 0;
    assert(a@.skip(0) =~= a@);
    assert(b@.skip(0) =~= b@);
    while i < a.len() && i < b.len()
        invariant
            i <= a.len(),
            i <= b.len(),
            rank_lt(a@, b@) == rank_lt(a@.skip(i as int), b@.skip(i as int)),
        decreases a.len() - i,
    {
        if a[i] != b[i] {
            return a[i] < b[i];
        }
        assert(a@.skip(i as int).drop_first() =~= a@.skip(i as int + 1));
        assert(b@.skip(i as int).drop_first() =~= b@.skip(i as int + 1));
        i = i + 1;
    }
    i < b.len()
}

/// The rank of a text.
pub open spec fn text_rank(text: Seq<char>) -> Seq<u64> {
    text.map_values(|c: char| (c as u64 + 1) as u64).push(0)
}

/// The rank of a list of bytes of fixed length.
pub open spec fn byte_rank(bytes: Seq<u8>) -> Seq<u64> {
    bytes.map_values(|b: u8| b as u64)
}

proof fn lemma_char_rank(a: char, b: char)
    requires
        (a as u64 + 1) as u64 == (b as u64 + 1) as u64,
    ensures
        a == b,
{
}

/// Texts of the same rank are the same.
pub proof fn text_rank_tells_apart(a: Seq<char>, b: Seq<char>)
    requires
        text_rank(a) == text_rank(b),
    ensures
        a == b,
{
    assert(text_rank(a).len() == a.len() + 1);
    assert(text_rank(b).len() == b.len() + 1);
    assert forall|i: int| 0 <= i < a.len() implies a[i] == b[i] by {
        assert(text_rank(a)[i] == (a[i] as u64 + 1) as u64);
        assert(text_rank(b)[i] == (b[i] as u64 + 1) as u64);
        lemma_char_rank(a[i], b[i]);
    }
    assert(a =~= b);
}

/// Lists of bytes of the same rank are the same.
pub proof fn byte_rank_tells_apart(a: Seq<u8>, b: Seq<u8>)
    requires
        byte_rank(a) == byte_rank(b),
    ensures
        a == b,
{
    assert(byte_rank(a).len() == a.len());
    assert(byte_rank(b).len() == b.len());
    assert forall|i: int| 0 <= i < a.len() implies a[i] == b[i] by {
        assert(byte_rank(a)[i] == a[i] as u64);
        assert(byte_rank(b)[i] == b[i] as u64);
    }
    assert(a =~= b);
}

fn char_rank(c: char) -> (r: u64)
    ensures
        r == (c as u64 + 1) as u64,
        r > 0,
{
    c as u64 + 1
}

/// Appends the rank of a text.
pub fn append_text_rank(out: &mut Vec<u64>, text: &str)
    ensures
        final(out)@ == old(out)@ + text_rank(text@),
{
    let ghost before = out@;
    let chars = chars_of(text);
    let mut i: usize = 0;
    assert(out@ =~= before + text@.take(0).map_values(|c: char| (c as u64 + 1) as u64));
    while i < chars.len()
        invariant
            i <= chars.len(),
            chars@ == text@,
            out@ == before + text@.take(i as int).map_values(|c: char| (c as u64 + 1) as u64),
        decreases chars.len() - i,
    {
        out.push(char_rank(chars[i]));
        assert(out@ =~= before + text@.take(i as int + 1).map_values(
            |c: char| (c as u64 + 1) as u64,
        ));
        i = i + 1;
    }
    out.push(0);
    assert(text@.take(i as int) =~= text@);
    assert(out@ =~= before + text_rank(text@));
}

/// Appends the rank of a list of bytes.
pub fn append_byte_rank(out: &mut Vec<u64>, bytes: &[u8])
    ensures
        final(out)@ == old(out)@ + byte_rank(bytes@),
{
    let ghost before = out@;
    let mut i: usize = 0;
    assert(out@ =~= before + byte_rank(bytes@.take(0)));
    while i < bytes.len()
        invariant
            i <= bytes@.len(),
            out@ == before + byte_rank(bytes@.take(i as int)),
        decreases bytes.len() - i,
    {
        out.push(bytes[i] as u64);
        assert(out@ =~= before + byte_rank(bytes@.take(i as int + 1)));
        i = i + 1;
    }
    assert(bytes@.take(i as int) =~= bytes@);
}

/// A value with a rank.
pub trait HasRank: Sized {
    /// The rank of the value.
    spec fn rank(&self) -> Seq<u64>;
}

/// A value whose rank can be computed.
pub trait Ranked: HasRank {
    /// Computes the rank.
    fn rank_key(&self) -> (r: Vec<u64>)
        ensures
            r@ == self.rank(),
    ;
}

impl HasRank for String {
    open spec fn rank(&self) -> Seq<u64> {
        text_rank(self@)
    }
}

impl Ranked for String {
    fn rank_key(&self) -> (r: Vec<u64>) {
        let mut key: Vec<u64> = Vec::new();
        append_text_rank(&mut key, self.as_str());
        assert(key@ =~= text_rank(self@));
        key
    }
}

impl HasRank for Seq<char> {
    open spec fn rank(&self) -> Seq<u64> {
        text_rank(*self)
    }
}

/// The list with the item put behind everything that does not rank above it.
pub open spec fn insert_ranked<T: HasRank>(sorted: Seq<T>, item: T) -> Seq<T>
    decreases sorted.len(),
{
    if sorted.len() == 0 || !rank_lt(item.rank(), sorted.last().rank()) {
        sorted.push(item)
    } else {
        insert_ranked(sorted.drop_last(), item).push(sorted.last())
    }
}

/// The list in order of rank; equal ranks keep the order they came in.
pub open spec fn ranked<T: HasRank>(items: Seq<T>) -> Seq<T>
    decreases items.len(),
{
    if items.len() == 0 {
        Seq::empty()
    } else {
        insert_ranked(ranked(items.drop_last()), items.last())
    }
}

/// Nothing stands before something of lower rank.
pub open spec fn is_ranked<T: HasRank>(items: Seq<T>) -> bool {
    forall|i: int, j: int|
        0 <= i < j < items.len() ==> !rank_lt(#[trigger] items[j].rank(), #[trigger] items[i].rank())
}

proof fn lemma_insert_ranked<T: HasRank>(sorted: Seq<T>, item: T)
    ensures
        insert_ranked(sorted, item).len() == sorted.len() + 1,
        insert_ranked(sorted, item).to_multiset() == sorted.to_multiset().insert(item),
        forall|i: int|
            0 <= i < insert_ranked(sorted, item).len() ==> (#[trigger] insert_ranked(
                sorted,
                item,
            )[i] == item || sorted.contains(insert_ranked(sorted, item)[i])),
    decreases sorted.len(),
{
    broadcast use vstd::seq_lib::group_to_multiset_ensures;

    let out = insert_ranked(sorted, item);
    if sorted.len() == 0 || !rank_lt(item.rank(), sorted.last().rank()) {
        assert forall|i: int| 0 <= i < out.len() implies (#[trigger] out[i] == item
            || sorted.contains(out[i])) by {
            if i < sorted.len() {
                assert(sorted[i] == out[i]);
            }
        }
    } else {
        let rest = sorted.drop_last();
        lemma_insert_ranked(rest, item);
        assert(sorted =~= rest.push(sorted.last()));
        assert(out.to_multiset() =~= sorted.to_multiset().insert(item));
        assert forall|i: int| 0 <= i < out.len() implies (#[trigger] out[i] == item
            || sorted.contains(out[i])) by {
            if i < out.len() - 1 {
                assert(out[i] == insert_ranked(rest, item)[i]);
                if out[i] != item {
                    let k = choose|k: int| 0 <= k < rest.len() && rest[k] == out[i];
                    assert(sorted[k] == out[i]);
                }
            } else {
                assert(sorted[sorted.len() - 1] == out[i]);
            }
        }
    }
}

proof fn lemma_insert_keeps_order<T: HasRank>(sorted: Seq<T>, item: T)
    requires
        is_ranked(sorted),
    ensures
        is_ranked(insert_ranked(sorted, item)),
    decreases sorted.len(),
{
    let out = insert_ranked(sorted, item);
    lemma_insert_ranked(sorted, item);
    if sorted.len() == 0 {
    } else if !rank_lt(item.rank(), sorted.last().rank()) {
        assert forall|i: int, j: int| 0 <= i < j < out.len() implies !rank_lt(
            #[trigger] out[j].rank(),
            #[trigger] out[i].rank(),
        ) by {
            if j == out.len() - 1 {
                let last = sorted.last().rank();
                if rank_lt(item.rank(), sorted[i].rank()) {
                    assert(!rank_lt(sorted[sorted.len() - 1].rank(), sorted[i].rank()) || i
                        == sorted.len() - 1);
                    rank_lt_total(sorted[i].rank(), last);
                    if rank_lt(sorted[i].rank(), last) {
                        rank_lt_transitive(item.rank(), sorted[i].rank(), last);
                    }
                }
            } else {
                assert(out[i] == sorted[i] && out[j] == sorted[j]);
            }
        }
    } else {
        let rest = sorted.drop_last();
        assert(is_ranked(rest)) by {
            assert forall|i: int, j: int| 0 <= i < j < rest.len() implies !rank_lt(
                #[trigger] rest[j].rank(),
                #[trigger] rest[i].rank(),
            ) by {
                assert(rest[i] == sorted[i] && rest[j] == sorted[j]);
            }
        }
        lemma_insert_keeps_order(rest, item);
        lemma_insert_ranked(rest, item);
        let inner = insert_ranked(rest, item);
        assert forall|i: int, j: int| 0 <= i < j < out.len() implies !rank_lt(
            #[trigger] out[j].rank(),
            #[trigger] out[i].rank(),
        ) by {
            assert(out[i] == inner[i]);
            if j == out.len() - 1 {
                assert(out[j] == sorted.last());
                if inner[i] == item {
                    rank_lt_irreflexive(item.rank());
                    if rank_lt(sorted.last().rank(), item.rank()) {
                        rank_lt_transitive(item.rank(), sorted.last().rank(), item.rank());
                    }
                } else {
                    let k = choose|k: int| 0 <= k < rest.len() && rest[k] == inner[i];
                    assert(sorted[k] == inner[i] && k < sorted.len() - 1);
                    assert(!rank_lt(sorted[sorted.len() - 1].rank(), sorted[k].rank()));
                }
            } else {
                assert(out[j] == inner[j]);
            }
        }
    }
}

/// Ordering by rank loses nothing, adds nothing, and leaves nothing before
/// something of lower rank.
pub proof fn ranked_is_an_ordering<T: HasRank>(items: Seq<T>)
    ensures
        ranked(items).len() == items.len(),
        ranked(items).to_multiset() == items.to_multiset(),
        is_ranked(ranked(items)),
    decreases items.len(),
{
    broadcast use vstd::seq_lib::group_to_multiset_ensures;

    if items.len() == 0 {
        assert(items =~= Seq::empty());
    } else {
        let rest = items.drop_last();
        ranked_is_an_ordering(rest);
        lemma_insert_ranked(ranked(rest), items.last());
        lemma_insert_keeps_order(ranked(rest), items.last());
        assert(items =~= rest.push(items.last()));
    }
}

/// A list that is in order stays as it is.
pub proof fn ranking_again_changes_nothing<T: HasRank>(items: Seq<T>)
    requires
        is_ranked(items),
    ensures
        ranked(items) == items,
    decreases items.len(),
{
    if items.len() > 0 {
        let rest = items.drop_last();
        assert forall|i: int, j: int| 0 <= i < j < rest.len() implies !rank_lt(
            #[trigger] rest[j].rank(),
            #[trigger] rest[i].rank(),
        ) by {
            assert(rest[i] == items[i] && rest[j] == items[j]);
        }
        ranking_again_changes_nothing(rest);
        if rest.len() > 0 {
            assert(rest.last() == items[items.len() - 2]);
            assert(!rank_lt(items[items.len() - 1].rank(), items[items.len() - 2].rank()));
        }
        assert(ranked(items) == rest.push(items.last()));
        assert(rest.push(items.last()) =~= items);
    } else {
        assert(ranked(items) =~= items);
    }
}

/// Items of the same rank are the same.
pub open spec fn ranks_tell_apart<T: HasRank>(items: Seq<T>) -> bool {
    forall|a: T, b: T|
        #![trigger items.contains(a), items.contains(b)]
        items.contains(a) && items.contains(b) && a.rank() == b.rank() ==> a == b
}

proof fn lemma_one_order<T: HasRank>(left: Seq<T>, right: Seq<T>)
    requires
        is_ranked(left),
        is_ranked(right),
        left.to_multiset() == right.to_multiset(),
        ranks_tell_apart(left),
    ensures
        left == right,
    decreases left.len(),
{
    broadcast use vstd::seq_lib::group_to_multiset_ensures;

    assert(left.len() == left.to_multiset().len());
    assert(right.len() == right.to_multiset().len());
    if left.len() == 0 {
        assert(left =~= right);
    } else {
        let a = left.last();
        let b = right.last();
        assert(left[left.len() - 1] == a && right[right.len() - 1] == b);
        assert(left.contains(a) && right.contains(b));
        assert(left.to_multiset().count(a) > 0);
        assert(right.to_multiset().count(b) > 0);
        assert(right.contains(a));
        assert(left.contains(b));
        let i = choose|i: int| 0 <= i < right.len() && right[i] == a;
        let j = choose|j: int| 0 <= j < left.len() && left[j] == b;
        rank_lt_irreflexive(a.rank());
        assert(!rank_lt(b.rank(), a.rank()));
        assert(!rank_lt(a.rank(), b.rank())) by {
            if j < left.len() - 1 {
                assert(!rank_lt(left[left.len() - 1].rank(), left[j].rank()));
            }
        }
        rank_lt_total(a.rank(), b.rank());
        assert(a == b);
        let l = left.drop_last();
        let r = right.drop_last();
        assert(left =~= l.push(a));
        assert(right =~= r.push(a));
        assert(left.to_multiset() == l.to_multiset().insert(a));
        assert(right.to_multiset() == r.to_multiset().insert(a));
        assert(l.to_multiset() =~= left.to_multiset().remove(a));
        assert(r.to_multiset() =~= right.to_multiset().remove(a));
        assert forall|x: T| l.contains(x) implies left.contains(x) by {
            let k = choose|k: int| 0 <= k < l.len() && l[k] == x;
            assert(left[k] == x);
        }
        assert forall|i: int, j: int| 0 <= i < j < l.len() implies !rank_lt(
            #[trigger] l[j].rank(),
            #[trigger] l[i].rank(),
        ) by {
            assert(l[i] == left[i] && l[j] == left[j]);
        }
        assert forall|i: int, j: int| 0 <= i < j < r.len() implies !rank_lt(
            #[trigger] r[j].rank(),
            #[trigger] r[i].rank(),
        ) by {
            assert(r[i] == right[i] && r[j] == right[j]);
        }
        lemma_one_order(l, r);
    }
}

/// Two lists of the same items are put into the same order, where different items
/// have different ranks.
pub proof fn ranking_ignores_order<T: HasRank>(left: Seq<T>, right: Seq<T>)
    requires
        left.to_multiset() == right.to_multiset(),
        ranks_tell_apart(left),
    ensures
        ranked(left) == ranked(right),
{
    broadcast use vstd::seq_lib::group_to_multiset_ensures;

    ranked_is_an_ordering(left);
    ranked_is_an_ordering(right);
    assert forall|a: T, b: T|
        #![trigger ranked(left).contains(a), ranked(left).contains(b)]
        ranked(left).contains(a) && ranked(left).contains(b) && a.rank() == b.rank() implies a
        == b by {
        assert(ranked(left).to_multiset().count(a) > 0);
        assert(ranked(left).to_multiset().count(b) > 0);
        assert(left.contains(a) && left.contains(b));
    }
    lemma_one_order(ranked(left), ranked(right));
}

/// What a list holds is ordered as the list is: mapping each item to something
/// of the same rank commutes with ordering.
pub proof fn ranked_commutes_with_views<A: HasRank, B: HasRank>(
    items: Seq<A>,
    view: spec_fn(A) -> B,
)
    requires
        forall|a: A| #[trigger] view(a).rank() == a.rank(),
    ensures
        ranked(items).map_values(view) == ranked(items.map_values(view)),
    decreases items.len(),
{
    if items.len() == 0 {
        assert(ranked(items).map_values(view) =~= ranked(items.map_values(view)));
    } else {
        let rest = items.drop_last();
        ranked_commutes_with_views(rest, view);
        lemma_insert_commutes(ranked(rest), items.last(), view);
        assert(items.map_values(view).drop_last() =~= rest.map_values(view));
        assert(items.map_values(view).last() == view(items.last()));
    }
}

proof fn lemma_insert_commutes<A: HasRank, B: HasRank>(
    sorted: Seq<A>,
    item: A,
    view: spec_fn(A) -> B,
)
    requires
        forall|a: A| #[trigger] view(a).rank() == a.rank(),
    ensures
        insert_ranked(sorted, item).map_values(view) == insert_ranked(
            sorted.map_values(view),
            view(item),
        ),
    decreases sorted.len(),
{
    let mapped = sorted.map_values(view);
    assert(view(item).rank() == item.rank());
    if sorted.len() == 0 {
        assert(insert_ranked(sorted, item).map_values(view) =~= insert_ranked(mapped, view(item)));
    } else {
        assert(mapped.last() == view(sorted.last()));
        assert(mapped.last().rank() == sorted.last().rank());
        assert(mapped.drop_last() =~= sorted.drop_last().map_values(view));
        lemma_insert_commutes(sorted.drop_last(), item, view);
        assert(insert_ranked(sorted, item).map_values(view) =~= insert_ranked(mapped, view(item)));
    }
}

/// Puts an item behind everything that does not rank above it.
pub fn insert_by_rank<T: Ranked>(sorted: &mut Vec<T>, item: T)
    ensures
        final(sorted)@ == insert_ranked(old(sorted)@, item),
{
    let key = item.rank_key();
    let mut p: usize = sorted.len();
    let ghost whole = sorted@;
    assert(whole.take(p as int) =~= whole);
    assert(insert_ranked(whole, item) =~= insert_ranked(whole.take(p as int), item) + whole.skip(
        p as int,
    ));
    while p > 0 && rank_before(&key, &sorted[p - 1].rank_key())
        invariant
            p <= sorted.len(),
            sorted@ == whole,
            key@ == item.rank(),
            insert_ranked(whole, item) == insert_ranked(whole.take(p as int), item) + whole.skip(
                p as int,
            ),
        decreases p,
    {
        let ghost head = whole.take(p as int);
        proof {
            assert(head.drop_last() =~= whole.take(p - 1));
            assert(head.last() == whole[p - 1]);
            assert(insert_ranked(head.drop_last(), item).push(head.last()) + whole.skip(p as int)
                =~= insert_ranked(whole.take(p - 1), item) + whole.skip(p - 1));
        }
        p = p - 1;
    }
    proof {
        let head = whole.take(p as int);
        assert(p > 0 ==> head.last() == whole[p - 1]);
        assert(insert_ranked(head, item) == head.push(item));
        assert(head.push(item) + whole.skip(p as int) =~= whole.insert(p as int, item));
    }
    sorted.insert(p, item);
}

/// Orders a list by rank.
pub fn sort_by_rank<T: Ranked>(items: Vec<T>) -> (r: Vec<T>)
    ensures
        r@ == ranked(items@),
{
    let ghost whole = items@;
    let mut rest: Vec<T> = items;
    let mut out: Vec<T> = Vec::new();
    let ghost mut k: int = 0;
    assert(whole.take(0) =~= Seq::<T>::empty());
    assert(whole.skip(0) =~= whole);
    while rest.len() > 0
        invariant
            0 <= k <= whole.len(),
            rest@ == whole.skip(k),
            out@ == ranked(whole.take(k)),
        decreases rest.len(),
    {
        let item = rest.remove(0);
        proof {
            assert(whole.skip(k).remove(0) =~= whole.skip(k + 1));
            assert(whole.take(k + 1).drop_last() =~= whole.take(k));
            assert(whole.take(k + 1).last() == whole[k]);
        }
        insert_by_rank(&mut out, item);
        proof {
            k = k + 1;
        }
    }
    assert(whole.take(k) =~= whole);
    out
}

} // verus!
