//! JSON payloads that pass through the crate without being interpreted.
//!
//! A payload is kept as canonical text. Only the members of a top-level object
//! are told apart, because a narrow update replaces some of them and must keep
//! the others.

use vstd::prelude::*;

use crate::rank::{append_text_rank, insert_by_rank, text_rank, HasRank, Ranked};
use crate::text::{chars_of, optional_text, same_text};

verus! {

/// One member of a JSON object: its name, and its value as canonical JSON text.
#[derive(Debug, PartialEq, Eq)]
pub struct JsonMember {
    pub name: String,
    pub value: String,
}

impl Clone for JsonMember {
    fn clone(&self) -> (r: Self)
        ensures
            r == *self,
    {
        JsonMember { name: self.name.clone(), value: self.value.clone() }
    }
}

impl View for JsonMember {
    type V = (Seq<char>, Seq<char>);

    open spec fn view(&self) -> (Seq<char>, Seq<char>) {
        (self.name@, self.value@)
    }
}

impl HasRank for JsonMember {
    open spec fn rank(&self) -> Seq<u64> {
        text_rank(self.name@)
    }
}

impl Ranked for JsonMember {
    fn rank_key(&self) -> (r: Vec<u64>) {
        let mut key: Vec<u64> = Vec::new();
        append_text_rank(&mut key, self.name.as_str());
        assert(key@ =~= text_rank(self.name@));
        key
    }
}

/// The names and values of a list of members.
pub open spec fn member_views(members: Seq<JsonMember>) -> Seq<(Seq<char>, Seq<char>)> {
    members.map_values(|m: JsonMember| m@)
}

/// No two members have the same name.
pub open spec fn distinct_names(members: Seq<(Seq<char>, Seq<char>)>) -> bool {
    forall|i: int, j: int|
        0 <= i < j < members.len() ==> (#[trigger] members[i]).0 != (#[trigger] members[j]).0
}

/// The value of the member with a name.
pub open spec fn member_value(members: Seq<(Seq<char>, Seq<char>)>, name: Seq<char>) -> Option<
    Seq<char>,
>
    decreases members.len(),
{
    if members.len() == 0 {
        None
    } else if members.last().0 == name {
        Some(members.last().1)
    } else {
        member_value(members.drop_last(), name)
    }
}

proof fn lemma_member_value(members: Seq<(Seq<char>, Seq<char>)>, i: int)
    requires
        distinct_names(members),
        0 <= i < members.len(),
    ensures
        member_value(members, members[i].0) == Some(members[i].1),
    decreases members.len(),
{
    if i < members.len() - 1 {
        let rest = members.drop_last();
        assert(members[members.len() - 1].0 != members[i].0);
        assert forall|a: int, b: int| 0 <= a < b < rest.len() implies (#[trigger] rest[a]).0 != (
        #[trigger] rest[b]).0 by {
            assert(rest[a] == members[a] && rest[b] == members[b]);
        }
        lemma_member_value(rest, i);
        assert(rest[i] == members[i]);
    }
}

proof fn lemma_member_absent(members: Seq<(Seq<char>, Seq<char>)>, name: Seq<char>)
    requires
        forall|i: int| 0 <= i < members.len() ==> (#[trigger] members[i]).0 != name,
    ensures
        member_value(members, name) is None,
    decreases members.len(),
{
    if members.len() > 0 {
        let rest = members.drop_last();
        assert forall|i: int| 0 <= i < rest.len() implies (#[trigger] rest[i]).0 != name by {
            assert(rest[i] == members[i]);
        }
        lemma_member_absent(rest, name);
        assert(members[members.len() - 1].0 != name);
    }
}

/// The index of the member with a name, if there is one.
fn find_member(members: &Vec<JsonMember>, name: &str) -> (r: Option<usize>)
    ensures
        match r {
            Some(i) => i < members.len() && members@[i as int].name@ == name@,
            None => forall|i: int| 0 <= i < members.len() ==> (#[trigger] members@[i]).name@
                != name@,
        },
{
    let mut i: usize = 0;
    while i < members.len()
        invariant
            i <= members.len(),
            forall|j: int| 0 <= j < i ==> (#[trigger] members@[j]).name@ != name@,
        decreases members.len() - i,
    {
        if same_text(members[i].name.as_str(), name) {
            return Some(i);
        }
        i = i + 1;
    }
    None
}

/// What `insert_by_rank` does to a list, as far as its members go.
proof fn lemma_insert_views(sorted: Seq<JsonMember>, item: JsonMember)
    ensures
        exists|p: int|
            0 <= p <= sorted.len() && #[trigger] sorted.insert(p, item)
                == crate::rank::insert_ranked(sorted, item),
    decreases sorted.len(),
{
    let out = crate::rank::insert_ranked(sorted, item);
    if sorted.len() == 0 || !crate::rank::rank_lt(item.rank(), sorted.last().rank()) {
        assert(sorted.insert(sorted.len() as int, item) =~= out);
    } else {
        let rest = sorted.drop_last();
        lemma_insert_views(rest, item);
        let p = choose|p: int|
            0 <= p <= rest.len() && #[trigger] rest.insert(p, item) == crate::rank::insert_ranked(
                rest,
                item,
            );
        assert(sorted.insert(p, item) =~= out);
    }
}

/// Puts one member into an object, replacing a member of the same name.
pub fn put_member(members: &mut Vec<JsonMember>, member: JsonMember)
    requires
        distinct_names(member_views(old(members)@)),
    ensures
        distinct_names(member_views(final(members)@)),
        forall|name: Seq<char>|
            #[trigger] member_value(member_views(final(members)@), name) == (if name
                == member.name@ {
                Some(member.value@)
            } else {
                member_value(member_views(old(members)@), name)
            }),
{
    let ghost before = members@;
    let ghost views = member_views(before);
    match find_member(members, member.name.as_str()) {
        Some(i) => {
            members.set(i, member);
            proof {
                let after = member_views(members@);
                assert(after =~= views.update(i as int, member@));
                assert(views[i as int].0 == member.name@);
                lemma_replaced(views, i as int, member@);
            }
        },
        None => {
            insert_by_rank(members, member);
            proof {
                lemma_insert_views(before, member);
                let p = choose|p: int|
                    0 <= p <= before.len() && #[trigger] before.insert(p, member) == members@;
                let after = member_views(members@);
                assert(after =~= views.insert(p, member@));
                assert forall|i: int| 0 <= i < views.len() implies (#[trigger] views[i]).0
                    != member.name@ by {
                    assert(views[i] == before[i]@);
                }
                lemma_inserted(views, p, member@);
            }
        },
    }
}

proof fn lemma_replaced(
    views: Seq<(Seq<char>, Seq<char>)>,
    at: int,
    member: (Seq<char>, Seq<char>),
)
    requires
        distinct_names(views),
        0 <= at < views.len(),
        views[at].0 == member.0,
    ensures
        distinct_names(views.update(at, member)),
        forall|name: Seq<char>|
            #[trigger] member_value(views.update(at, member), name) == (if name == member.0 {
                Some(member.1)
            } else {
                member_value(views, name)
            }),
{
    let after = views.update(at, member);
    assert(distinct_names(after));
    assert forall|name: Seq<char>| #[trigger] member_value(after, name) == (if name == member.0 {
        Some(member.1)
    } else {
        member_value(views, name)
    }) by {
        if name == member.0 {
            lemma_member_value(after, at);
        } else if exists|i: int| 0 <= i < views.len() && (#[trigger] views[i]).0 == name {
            let i = choose|i: int| 0 <= i < views.len() && (#[trigger] views[i]).0 == name;
            lemma_member_value(views, i);
            lemma_member_value(after, i);
            assert(after[i] == views[i]);
        } else {
            lemma_member_absent(views, name);
            assert forall|i: int| 0 <= i < after.len() implies (#[trigger] after[i]).0 != name by {
                assert(views[i].0 != name);
            }
            lemma_member_absent(after, name);
        }
    }
}

proof fn lemma_inserted(
    views: Seq<(Seq<char>, Seq<char>)>,
    at: int,
    member: (Seq<char>, Seq<char>),
)
    requires
        distinct_names(views),
        0 <= at <= views.len(),
        forall|i: int| 0 <= i < views.len() ==> (#[trigger] views[i]).0 != member.0,
    ensures
        distinct_names(views.insert(at, member)),
        forall|name: Seq<char>|
            #[trigger] member_value(views.insert(at, member), name) == (if name == member.0 {
                Some(member.1)
            } else {
                member_value(views, name)
            }),
{
    let after = views.insert(at, member);
    assert forall|i: int, j: int| 0 <= i < j < after.len() implies (#[trigger] after[i]).0 != (
    #[trigger] after[j]).0 by {
        let a = if i < at {
            i
        } else {
            i - 1
        };
        let b = if j < at {
            j
        } else {
            j - 1
        };
        if i != at {
            assert(after[i] == views[a]);
        }
        if j != at {
            assert(after[j] == views[b]);
        }
    }
    assert forall|name: Seq<char>| #[trigger] member_value(after, name) == (if name == member.0 {
        Some(member.1)
    } else {
        member_value(views, name)
    }) by {
        if name == member.0 {
            assert(after[at] == member);
            lemma_member_value(after, at);
        } else if exists|i: int| 0 <= i < views.len() && (#[trigger] views[i]).0 == name {
            let i = choose|i: int| 0 <= i < views.len() && (#[trigger] views[i]).0 == name;
            let a = if i < at {
                i
            } else {
                i + 1
            };
            assert(after[a] == views[i]);
            lemma_member_value(views, i);
            lemma_member_value(after, a);
        } else {
            lemma_member_absent(views, name);
            assert forall|i: int| 0 <= i < after.len() implies (#[trigger] after[i]).0 != name by {
                if i < at {
                    assert(after[i] == views[i]);
                } else if i > at {
                    assert(after[i] == views[i - 1]);
                }
            }
            lemma_member_absent(after, name);
        }
    }
}

/// Replaces the members of an object that another object names and keeps every
/// other member.
pub fn merge_object(target: &mut Vec<JsonMember>, replacement: &Vec<JsonMember>)
    requires
        distinct_names(member_views(old(target)@)),
        distinct_names(member_views(replacement@)),
    ensures
        distinct_names(member_views(final(target)@)),
        forall|name: Seq<char>|
            #[trigger] member_value(member_views(final(target)@), name) == (match member_value(
                member_views(replacement@),
                name,
            ) {
                Some(value) => Some(value),
                None => member_value(member_views(old(target)@), name),
            }),
{
    let ghost before = member_views(target@);
    let ghost new = member_views(replacement@);
    let mut i: usize = 0;
    assert(new.take(0) =~= Seq::<(Seq<char>, Seq<char>)>::empty());
    while i < replacement.len()
        invariant
            i <= replacement.len(),
            new == member_views(replacement@),
            distinct_names(member_views(target@)),
            forall|name: Seq<char>|
                #[trigger] member_value(member_views(target@), name) == (match member_value(
                    new.take(i as int),
                    name,
                ) {
                    Some(value) => Some(value),
                    None => member_value(before, name),
                }),
        decreases replacement.len() - i,
    {
        let member = replacement[i].clone();
        put_member(target, member);
        proof {
            assert(new.take(i as int + 1).drop_last() =~= new.take(i as int));
            assert(new.take(i as int + 1).last() == new[i as int]);
            assert(new[i as int] == member@);
        }
        i = i + 1;
    }
    assert(new.take(i as int) =~= new);
}

/// A JSON value at the granularity that updates need.
#[derive(Debug, PartialEq, Eq)]
pub enum JsonPayload {
    /// A top-level object, by its members in the order of their names.
    Object(Vec<JsonMember>),
    /// Any other value, as canonical JSON text.
    Opaque(String),
}

/// What a payload holds.
pub enum PayloadView {
    Object(Seq<(Seq<char>, Seq<char>)>),
    Opaque(Seq<char>),
}

impl View for JsonPayload {
    type V = PayloadView;

    open spec fn view(&self) -> PayloadView {
        match self {
            JsonPayload::Object(members) => PayloadView::Object(member_views(members@)),
            JsonPayload::Opaque(text) => PayloadView::Opaque(text@),
        }
    }
}

// ----- equal values -------------------------------------------------------

/// A negative zero stands here as a value of its own: compact text goes on behind a
/// number with a comma or a closing bracket, or ends.
pub open spec fn negative_zero_at(text: Seq<char>, i: int) -> bool {
    &&& 0 <= i
    &&& i + 4 <= text.len()
    &&& text[i] == '-'
    &&& text[i + 1] == '0'
    &&& text[i + 2] == '.'
    &&& text[i + 3] == '0'
    &&& (i + 4 == text.len() || text[i + 4] == ',' || text[i + 4] == ']' || text[i + 4] == '}')
}

/// Compact text from index `i` on, within a string or not, with every negative zero
/// as a zero.
pub open spec fn value_from(text: Seq<char>, i: int, within: bool) -> Seq<char>
    decreases text.len() - i,
{
    if i < 0 || i >= text.len() {
        Seq::empty()
    } else if within && text[i] == '\\' && i + 1 < text.len() {
        seq![text[i], text[i + 1]] + value_from(text, i + 2, true)
    } else if text[i] == '"' {
        seq![text[i]] + value_from(text, i + 1, !within)
    } else if !within && negative_zero_at(text, i) {
        value_from(text, i + 1, within)
    } else {
        seq![text[i]] + value_from(text, i + 1, within)
    }
}

/// The value that compact text stands for: texts of equal values have the same one. Of
/// the numbers only the two zeros have two texts and are equal.
pub open spec fn json_value(text: Seq<char>) -> Seq<char> {
    value_from(text, 0, false)
}

/// The values that members stand for.
pub open spec fn member_values(members: Seq<(Seq<char>, Seq<char>)>) -> Seq<
    (Seq<char>, Seq<char>),
> {
    members.map_values(|m: (Seq<char>, Seq<char>)| (m.0, json_value(m.1)))
}

impl PayloadView {
    /// The value that a payload stands for.
    pub open spec fn value(self) -> PayloadView {
        match self {
            PayloadView::Object(members) => PayloadView::Object(member_values(members)),
            PayloadView::Opaque(text) => PayloadView::Opaque(json_value(text)),
        }
    }
}

fn value_text(text: &str) -> (r: Vec<char>)
    ensures
        r@ == json_value(text@),
{
    let chars = chars_of(text);
    let ghost all = text@;
    let mut out: Vec<char> = Vec::new();
    let mut within = false;
    let mut i: usize = 0;
    assert(out@ + value_from(all, 0, false) =~= json_value(all));
    while i < chars.len()
        invariant
            i <= chars.len(),
            chars@ == all,
            out@ + value_from(all, i as int, within) == json_value(all),
        decreases chars.len() - i,
    {
        let ghost before = out@;
        let ghost at = i as int;
        let ghost inside = within;
        let rest: usize = chars.len() - i;
        if within && chars[i] == '\\' && rest > 1 {
            out.push(chars[i]);
            out.push(chars[i + 1]);
            i = i + 2;
            assert(out@ + value_from(all, at + 2, true) =~= before + value_from(all, at, inside));
        } else if chars[i] == '"' {
            out.push(chars[i]);
            within = !within;
            i = i + 1;
            assert(out@ + value_from(all, at + 1, within) =~= before + value_from(
                all,
                at,
                inside,
            ));
        } else if !within && rest >= 4 && chars[i] == '-' && chars[i + 1] == '0' && chars[i + 2]
            == '.' && chars[i + 3] == '0' && (rest == 4 || chars[i + 4] == ',' || chars[i + 4]
            == ']' || chars[i + 4] == '}') {
            assert(negative_zero_at(all, at));
            i = i + 1;
        } else {
            assert(within || !negative_zero_at(all, at));
            out.push(chars[i]);
            i = i + 1;
            assert(out@ + value_from(all, at + 1, within) =~= before + value_from(
                all,
                at,
                inside,
            ));
        }
    }
    assert(value_from(all, i as int, within) =~= Seq::<char>::empty());
    assert(out@ =~= json_value(all));
    out
}

fn same_value(left: &str, right: &str) -> (r: bool)
    ensures
        r == (json_value(left@) == json_value(right@)),
{
    if same_text(left, right) {
        return true;
    }
    let a = value_text(left);
    let b = value_text(right);
    if a.len() != b.len() {
        return false;
    }
    let mut i: usize = 0;
    while i < a.len()
        invariant
            i <= a.len(),
            a.len() == b.len(),
            a@ == json_value(left@),
            b@ == json_value(right@),
            forall|j: int| 0 <= j < i ==> a@[j] == b@[j],
        decreases a.len() - i,
    {
        if a[i] != b[i] {
            return false;
        }
        i = i + 1;
    }
    assert(a@ =~= b@);
    true
}

/// A copy of a list of members.
pub fn copy_members(members: &Vec<JsonMember>) -> (r: Vec<JsonMember>)
    ensures
        r@ == members@,
{
    let copy = members.clone();
    assert(copy@ =~= members@);
    copy
}

/// Whether two lists hold the same members with equal values, in the same order.
pub fn same_members(left: &Vec<JsonMember>, right: &Vec<JsonMember>) -> (r: bool)
    ensures
        r == (member_values(member_views(left@)) == member_values(member_views(right@))),
{
    let ghost a = member_values(member_views(left@));
    let ghost b = member_values(member_views(right@));
    if left.len() != right.len() {
        assert(a.len() != b.len());
        return false;
    }
    let mut i: usize = 0;
    while i < left.len()
        invariant
            i <= left.len(),
            left.len() == right.len(),
            a == member_values(member_views(left@)),
            b == member_values(member_views(right@)),
            forall|j: int| 0 <= j < i ==> #[trigger] a[j] == b[j],
        decreases left.len() - i,
    {
        assert(a[i as int] == (left@[i as int].name@, json_value(left@[i as int].value@)));
        assert(b[i as int] == (right@[i as int].name@, json_value(right@[i as int].value@)));
        if !same_text(left[i].name.as_str(), right[i].name.as_str()) || !same_value(
            left[i].value.as_str(),
            right[i].value.as_str(),
        ) {
            assert(a[i as int] != b[i as int]);
            return false;
        }
        i = i + 1;
    }
    assert(a =~= b);
    true
}

impl JsonPayload {
    /// The payload that a JSON document stands for, given its members if it is
    /// an object and its canonical text if it is a document at all.
    pub open spec fn assembled(
        members: Option<Seq<(Seq<char>, Seq<char>)>>,
        canonical: Option<Seq<char>>,
    ) -> Option<PayloadView> {
        match (members, canonical) {
            (Some(list), _) => Some(PayloadView::Object(list)),
            (None, Some(text)) => Some(PayloadView::Opaque(text)),
            (None, None) => None,
        }
    }

    /// Puts a payload together from what a JSON parser found.
    pub fn assemble(members: Option<Vec<JsonMember>>, canonical: Option<String>) -> (r: Option<
        JsonPayload,
    >)
        ensures
            payload_view(r) == JsonPayload::assembled(member_list(members), optional_text(canonical)),
    {
        match members {
            Some(list) => Some(JsonPayload::Object(list)),
            None => match canonical {
                Some(text) => Some(JsonPayload::Opaque(text)),
                None => None,
            },
        }
    }

    /// Reads a JSON document. Text that is no JSON document gives `None`.
    pub fn parse(text: &str) -> (r: Option<JsonPayload>)
        ensures
            payload_view(r) == JsonPayload::assembled(
                json_object_members(text@),
                canonical_json(text@),
            ),
            r matches Some(JsonPayload::Object(members)) ==> distinct_names(member_views(members@)),
    {
        JsonPayload::assemble(object_members(text), canonical_text(text))
    }

    /// A copy of the payload.
    pub fn copy(&self) -> (r: JsonPayload)
        ensures
            r@ == self@,
    {
        match self {
            JsonPayload::Object(members) => JsonPayload::Object(copy_members(members)),
            JsonPayload::Opaque(text) => JsonPayload::Opaque(text.clone()),
        }
    }

    /// Whether two payloads are the same JSON value.
    pub fn same(&self, other: &JsonPayload) -> (r: bool)
        ensures
            r == (self@.value() == other@.value()),
    {
        match (self, other) {
            (JsonPayload::Object(a), JsonPayload::Object(b)) => same_members(a, b),
            (JsonPayload::Opaque(a), JsonPayload::Opaque(b)) => same_value(a.as_str(), b.as_str()),
            _ => false,
        }
    }
}

/// What an optional payload holds.
pub open spec fn payload_view(payload: Option<JsonPayload>) -> Option<PayloadView> {
    match payload {
        Some(value) => Some(value@),
        None => None,
    }
}

/// What an optional list of members holds.
pub open spec fn member_list(members: Option<Vec<JsonMember>>) -> Option<
    Seq<(Seq<char>, Seq<char>)>,
> {
    match members {
        Some(list) => Some(member_views(list@)),
        None => None,
    }
}

/// The compact text that `serde_json` writes for the JSON document that it reads
/// from a text, or nothing where it refuses the text.
pub uninterp spec fn canonical_json(text: Seq<char>) -> Option<Seq<char>>;

/// The members that `serde_json` reads from a text that is a JSON object, each
/// with the compact text of its value, or nothing where it refuses the text.
pub uninterp spec fn json_object_members(text: Seq<char>) -> Option<Seq<(Seq<char>, Seq<char>)>>;

/// Calls `serde_json::from_str` for a `serde_json::Value` and writes the value
/// back as compact text. The contract claims that the outcome depends on the
/// text alone; which texts are documents is left to `serde_json`.
#[verifier::external_body]
fn canonical_text(text: &str) -> (r: Option<String>)
    ensures
        optional_text(r) == canonical_json(text@),
{
    serde_json::from_str::<serde_json::Value>(text).ok().map(|value| value.to_string())
}

/// Calls `serde_json::from_str` for a `serde_json::Map` and hands out its
/// entries, each value as compact text. The contract claims that the outcome
/// depends on the text alone, and that a map holds no name twice.
#[verifier::external_body]
fn object_members(text: &str) -> (r: Option<Vec<JsonMember>>)
    ensures
        member_list(r) == json_object_members(text@),
        r matches Some(list) ==> distinct_names(member_views(list@)),
{
    serde_json::from_str::<serde_json::Map<String, serde_json::Value>>(text).ok().map(
        |map| map.into_iter().map(|(name, value)| JsonMember { name, value: value.to_string() }).collect(),
    )
}

} // verus!
