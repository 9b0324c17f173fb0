//! Page cursors bound to the content address of a query and its facts.

use vstd::prelude::*;
use vstd::string::*;

use crate::reading::PortableDigest;
use crate::text::{
    append_decimal, append_hex, chars_of, decimal, decimal_round_trip, hex_round_trip, hex_text,
    owned, parse_u64, parsed_u64, same_text,
};
use crate::workbench_error::{WorkbenchError, WorkbenchFault};

verus! {

/// The parts of a text between colons.
pub open spec fn fields(text: Seq<char>) -> Seq<Seq<char>>
    decreases text.len(),
{
    if text.len() == 0 {
        seq![Seq::empty()]
    } else {
        let before = fields(text.drop_last());
        if text.last() == ':' {
            before.push(Seq::empty())
        } else {
            before.drop_last().push(before.last().push(text.last()))
        }
    }
}

proof fn lemma_fields_nonempty(text: Seq<char>)
    ensures
        fields(text).len() > 0,
    decreases text.len(),
{
    if text.len() > 0 {
        lemma_fields_nonempty(text.drop_last());
    }
}

/// What a list of texts holds.
pub open spec fn str_views(parts: Seq<&str>) -> Seq<Seq<char>> {
    parts.map_values(|part: &str| part@)
}

/// The parts of a text between colons.
fn split_fields<'a>(text: &'a str) -> (r: Vec<&'a str>)
    ensures
        str_views(r@) == fields(text@),
{
    let chars = chars_of(text);
    let mut parts: Vec<&'a str> = Vec::new();
    let mut start: usize = 0;
    let mut i: usize = 0;
    proof {
        assert(text@.take(0) =~= Seq::<char>::empty());
        assert(text@.subrange(0, 0) =~= Seq::<char>::empty());
        assert(fields(text@.take(0)) =~= str_views(parts@).push(text@.subrange(0, 0)));
    }
    while i < chars.len()
        invariant
            start <= i <= chars.len(),
            chars@ == text@,
            fields(text@.take(i as int)) == str_views(parts@).push(
                text@.subrange(start as int, i as int),
            ),
        decreases chars.len() - i,
    {
        let ghost whole = text@.take(i as int + 1);
        let ghost open = text@.subrange(start as int, i as int);
        let ghost before = str_views(parts@);
        proof {
            assert(whole.drop_last() =~= text@.take(i as int));
            assert(whole.last() == chars@[i as int]);
            assert(before.push(open).drop_last() =~= before);
        }
        if chars[i] == ':' {
            let part = text.substring_char(start, i);
            parts.push(part);
            start = i + 1;
            proof {
                assert(str_views(parts@) =~= before.push(open));
                assert(text@.subrange(i as int + 1, i as int + 1) =~= Seq::<char>::empty());
            }
        } else {
            proof {
                assert(text@.subrange(start as int, i as int + 1) =~= open.push(text@[i as int]));
            }
        }
        i = i + 1;
    }
    let ghost before = str_views(parts@);
    let part = text.substring_char(start, i);
    parts.push(part);
    proof {
        assert(text@.take(i as int) =~= text@);
        assert(str_views(parts@) =~= before.push(part@));
    }
    parts
}

/// The cursor for an offset into the results at a content address.
pub open spec fn cursor_text(address: PortableDigest, offset: u64) -> Seq<char> {
    "q1:"@ + hex_text(address.bytes@) + ":"@ + decimal(offset as nat)
}

/// Writes a cursor.
pub fn encode_cursor(address: PortableDigest, offset: u64) -> (r: String)
    ensures
        r@ == cursor_text(address, offset),
{
    let mut out = owned("q1:");
    append_hex(&mut out, address.bytes.as_slice());
    out.append(":");
    append_decimal(&mut out, offset);
    out
}

/// What a cursor means at a content address: its offset, unless it was made for
/// another address or holds no offset.
pub open spec fn cursor_offset(cursor: Seq<char>, expected: PortableDigest) -> Result<
    u64,
    WorkbenchFault,
> {
    let parts = fields(cursor);
    if parts[0] != "q1"@ || parts.len() > 3 || parts.len() < 2 || parts[1] != hex_text(
        expected.bytes@,
    ) {
        Err(WorkbenchFault::StaleCursor)
    } else if parts.len() == 2 || parsed_u64(parts[2]) is None {
        Err(WorkbenchFault::InvalidPage("cursor offset is invalid"@))
    } else {
        Ok(parsed_u64(parts[2])->0)
    }
}

/// Reads a cursor.
pub fn decode_cursor(cursor: &str, expected: PortableDigest) -> (r: Result<u64, WorkbenchError>)
    ensures
        match r {
            Ok(offset) => cursor_offset(cursor@, expected) == Ok::<u64, WorkbenchFault>(offset),
            Err(error) => cursor_offset(cursor@, expected) == Err::<u64, WorkbenchFault>(error@),
        },
{
    let parts = split_fields(cursor);
    let ghost views = fields(cursor@);
    proof {
        lemma_fields_nonempty(cursor@);
        assert(views.len() == parts@.len());
        assert forall|k: int| 0 <= k < views.len() implies views[k] == parts@[k]@ by {
            assert(views[k] == str_views(parts@)[k]);
        }
    }
    let mut digest = String::new();
    append_hex(&mut digest, expected.bytes.as_slice());
    assert(digest@ =~= hex_text(expected.bytes@));
    if !same_text(parts[0], "q1") || parts.len() > 3 || parts.len() < 2 || !same_text(
        parts[1],
        digest.as_str(),
    ) {
        return Err(WorkbenchError::StaleCursor);
    }
    if parts.len() == 2 {
        return Err(WorkbenchError::InvalidPage(owned("cursor offset is invalid")));
    }
    match parse_u64(parts[2]) {
        Some(offset) => Ok(offset),
        None => Err(WorkbenchError::InvalidPage(owned("cursor offset is invalid"))),
    }
}

spec fn without_colon(text: Seq<char>) -> bool {
    forall|i: int| 0 <= i < text.len() ==> #[trigger] text[i] != ':'
}

proof fn lemma_append_field(head: Seq<char>, tail: Seq<char>)
    requires
        without_colon(tail),
    ensures
        fields(head + seq![':'] + tail) == fields(head).push(tail),
    decreases tail.len(),
{
    let whole = head + seq![':'] + tail;
    if tail.len() == 0 {
        assert(whole.drop_last() =~= head);
        assert(whole.last() == ':');
        assert(tail =~= Seq::<char>::empty());
    } else {
        let shorter = tail.drop_last();
        assert forall|i: int| 0 <= i < shorter.len() implies #[trigger] shorter[i] != ':' by {
            assert(shorter[i] == tail[i]);
        }
        lemma_append_field(head, shorter);
        assert(whole.drop_last() =~= head + seq![':'] + shorter);
        assert(tail[tail.len() - 1] != ':');
        assert(whole.last() == tail.last());
        assert(fields(whole) =~= fields(head).push(tail)) by {
            assert(fields(head).push(shorter).drop_last() =~= fields(head));
            assert(shorter.push(tail.last()) =~= tail);
        }
    }
}

proof fn lemma_single_field(text: Seq<char>)
    requires
        without_colon(text),
    ensures
        fields(text) == seq![text],
    decreases text.len(),
{
    if text.len() > 0 {
        let shorter = text.drop_last();
        assert forall|i: int| 0 <= i < shorter.len() implies #[trigger] shorter[i] != ':' by {
            assert(shorter[i] == text[i]);
        }
        lemma_single_field(shorter);
        assert(text[text.len() - 1] != ':');
        assert(shorter.push(text.last()) =~= text);
        assert(fields(text) =~= seq![text]);
    } else {
        assert(text =~= Seq::<char>::empty());
    }
}

proof fn lemma_decimal_without_colon(n: nat)
    ensures
        without_colon(decimal(n)),
    decreases n,
{
    if n >= 10 {
        lemma_decimal_without_colon(n / 10);
        assert forall|i: int| 0 <= i < decimal(n).len() implies #[trigger] decimal(n)[i] != ':' by {
            if i < decimal(n).len() - 1 {
                assert(decimal(n)[i] == decimal(n / 10)[i]);
            }
        }
    }
}

proof fn lemma_cursor_fields(address: PortableDigest, offset: u64)
    ensures
        fields(cursor_text(address, offset)) == seq![
            "q1"@,
            hex_text(address.bytes@),
            decimal(offset as nat),
        ],
{
    reveal_strlit("q1:");
    reveal_strlit("q1");
    reveal_strlit(":");
    let hex = hex_text(address.bytes@);
    assert forall|i: int| 0 <= i < hex.len() implies #[trigger] hex[i] != ':' by {}
    lemma_decimal_without_colon(offset as nat);
    assert(without_colon("q1"@));
    lemma_single_field("q1"@);
    lemma_append_field("q1"@, hex);
    lemma_append_field("q1"@ + seq![':'] + hex, decimal(offset as nat));
    assert(cursor_text(address, offset) =~= "q1"@ + seq![':'] + hex + seq![':'] + decimal(
        offset as nat,
    ));
    assert(fields(cursor_text(address, offset)) =~= seq!["q1"@, hex, decimal(offset as nat)]);
}

/// A cursor means its offset at the address it was made for, and is stale at
/// every address with other bytes.
pub proof fn cursors_bind_their_address(
    address: PortableDigest,
    offset: u64,
    other: PortableDigest,
)
    ensures
        cursor_offset(cursor_text(address, offset), address) == Ok::<u64, WorkbenchFault>(offset),
        other.bytes@ != address.bytes@ ==> cursor_offset(cursor_text(address, offset), other)
            == Err::<u64, WorkbenchFault>(WorkbenchFault::StaleCursor),
{
    lemma_cursor_fields(address, offset);
    decimal_round_trip(offset);
    if other.bytes@ != address.bytes@ {
        hex_round_trip(other.bytes@);
        hex_round_trip(address.bytes@);
    }
}

} // verus!
