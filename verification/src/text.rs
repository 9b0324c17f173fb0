//! Text predicates and renderings shared by every model of the crate.
//!
//! Text is seen through its view, a sequence of characters. Each rendering has
//! a spec function that names the characters it produces.

use vstd::prelude::*;
use vstd::string::*;

verus! {

/// The Unicode `White_Space` property.
pub open spec fn is_white_space(c: char) -> bool {
    let n = c as u32;
    ||| 0x9 <= n <= 0xd
    ||| n == 0x20
    ||| n == 0x85
    ||| n == 0xa0
    ||| n == 0x1680
    ||| 0x2000 <= n <= 0x200a
    ||| n == 0x2028
    ||| n == 0x2029
    ||| n == 0x202f
    ||| n == 0x205f
    ||| n == 0x3000
}

/// Text that is empty once white space is trimmed from both of its ends.
pub open spec fn is_blank(text: Seq<char>) -> bool {
    forall|i: int| 0 <= i < text.len() ==> is_white_space(#[trigger] text[i])
}

fn white_space(c: char) -> (r: bool)
    ensures
        r == is_white_space(c),
{
    let n: u32 = c as u32;
    (0x9 <= n && n <= 0xd) || n == 0x20 || n == 0x85 || n == 0xa0 || n == 0x1680 || (0x2000 <= n
        && n <= 0x200a) || n == 0x2028 || n == 0x2029 || n == 0x202f || n == 0x205f || n == 0x3000
}

/// The characters of a text, in order.
pub fn chars_of(text: &str) -> (r: Vec<char>)
    ensures
        r@ == text@,
{
    let count: usize = text.unicode_len();
    let mut chars: Vec<char> = Vec::new();
    let mut i: usize = 0;
    while i < count
        invariant
            i <= count,
            count == text@.len(),
            chars@ == text@.take(i as int),
        decreases count - i,
    {
        chars.push(text.get_char(i));
        proof {
            assert(text@.take(i as int + 1) =~= text@.take(i as int).push(text@[i as int]));
        }
        i = i + 1;
    }
    proof {
        assert(text@.take(count as int) =~= text@);
    }
    chars
}

/// Whether a text holds nothing but white space.
pub fn blank(text: &str) -> (r: bool)
    ensures
        r == is_blank(text@),
{
    let chars = chars_of(text);
    let mut i: usize = 0;
    while i < chars.len()
        invariant
            i <= chars.len(),
            chars@ == text@,
            forall|j: int| 0 <= j < i ==> is_white_space(#[trigger] text@[j]),
        decreases chars.len() - i,
    {
        if !white_space(chars[i]) {
            assert(!is_white_space(text@[i as int]));
            return false;
        }
        i = i + 1;
    }
    true
}

/// One character of the portable token alphabet: ASCII letters and digits,
/// `-`, `_` and `.`.
pub open spec fn is_token_char(c: char) -> bool {
    ||| 'a' <= c <= 'z'
    ||| 'A' <= c <= 'Z'
    ||| '0' <= c <= '9'
    ||| c == '-'
    ||| c == '_'
    ||| c == '.'
}

/// A portable token: not empty, and made of token characters only.
pub open spec fn is_token(text: Seq<char>) -> bool {
    &&& text.len() > 0
    &&& forall|i: int| 0 <= i < text.len() ==> is_token_char(#[trigger] text[i])
}

/// Whether a text is a portable token.
pub fn valid_token(value: &str) -> (r: bool)
    ensures
        r == is_token(value@),
{
    let chars = chars_of(value);
    if chars.len() == 0 {
        return false;
    }
    let mut i: usize = 0;
    while i < chars.len()
        invariant
            i <= chars.len(),
            chars@ == value@,
            chars.len() > 0,
            forall|j: int| 0 <= j < i ==> is_token_char(#[trigger] value@[j]),
        decreases chars.len() - i,
    {
        let c = chars[i];
        if !(('a' <= c && c <= 'z') || ('A' <= c && c <= 'Z') || ('0' <= c && c <= '9') || c == '-'
            || c == '_' || c == '.') {
            assert(!is_token_char(value@[i as int]));
            return false;
        }
        i = i + 1;
    }
    true
}

/// Whether two byte lists are equal.
pub fn same_bytes(left: &[u8], right: &[u8]) -> (r: bool)
    ensures
        r == (left@ == right@),
{
    if left.len() != right.len() {
        return false;
    }
    let mut i: usize = 0;
    while i < left.len()
        invariant
            i <= left@.len(),
            left@.len() == right@.len(),
            forall|j: int| 0 <= j < i ==> left@[j] == right@[j],
        decreases left.len() - i,
    {
        if left[i] != right[i] {
            return false;
        }
        i = i + 1;
    }
    assert(left@ =~= right@);
    true
}

/// Whether two texts hold the same characters.
pub fn same_text(left: &str, right: &str) -> (r: bool)
    ensures
        r == (left@ == right@),
{
    let a = chars_of(left);
    let b = chars_of(right);
    if a.len() != b.len() {
        return false;
    }
    let mut i: usize = 0;
    while i < a.len()
        invariant
            i <= a.len(),
            a.len() == b.len(),
            a@ == left@,
            b@ == right@,
            forall|j: int| 0 <= j < i ==> a@[j] == b@[j],
        decreases a.len() - i,
    {
        if a[i] != b[i] {
            return false;
        }
        i = i + 1;
    }
    assert(left@ =~= right@);
    true
}

/// What an optional text holds.
pub open spec fn optional_text(text: Option<String>) -> Option<Seq<char>> {
    match text {
        Some(value) => Some(value@),
        None => None,
    }
}

/// Whether two optional texts hold the same characters, or neither is there.
pub fn same_optional_text(left: &Option<String>, right: &Option<String>) -> (r: bool)
    ensures
        r == (optional_text(*left) == optional_text(*right)),
{
    match (left, right) {
        (Some(a), Some(b)) => same_text(a.as_str(), b.as_str()),
        (None, None) => true,
        _ => false,
    }
}

/// A copy of an optional text.
pub fn copy_optional_text(text: &Option<String>) -> (r: Option<String>)
    ensures
        r == *text,
{
    match text {
        Some(value) => Some(value.clone()),
        None => None,
    }
}

/// An owned copy of a literal or borrowed text.
pub fn owned(text: &str) -> (r: String)
    ensures
        r@ == text@,
{
    text.to_owned()
}

/// The views of a list of texts.
pub open spec fn text_views(list: Seq<String>) -> Seq<Seq<char>> {
    list.map_values(|text: String| text@)
}

/// Whether a list holds a text.
pub fn holds_text(list: &Vec<String>, text: &str) -> (r: bool)
    ensures
        r == text_views(list@).contains(text@),
{
    let mut i: usize = 0;
    while i < list.len()
        invariant
            i <= list.len(),
            forall|j: int| 0 <= j < i ==> list@[j]@ != text@,
        decreases list.len() - i,
    {
        if same_text(list[i].as_str(), text) {
            assert(text_views(list@)[i as int] == text@);
            return true;
        }
        i = i + 1;
    }
    assert forall|j: int| 0 <= j < text_views(list@).len() implies text_views(list@)[j] != text@ by {
        assert(text_views(list@)[j] == list@[j]@);
    }
    false
}

/// The decimal digit with value `d`.
pub open spec fn digit_char(d: nat) -> char {
    ('0' as u32 + d) as char
}

/// The decimal digits of a number, without leading zeros.
pub open spec fn decimal(n: nat) -> Seq<char>
    decreases n,
{
    if n < 10 {
        seq![digit_char(n)]
    } else {
        decimal(n / 10).push(digit_char(n % 10))
    }
}

fn append_digit(out: &mut String, d: u64)
    requires
        d < 10,
    ensures
        final(out)@ == old(out)@.push(digit_char(d as nat)),
{
    proof {
        reveal_strlit("0");
        reveal_strlit("1");
        reveal_strlit("2");
        reveal_strlit("3");
        reveal_strlit("4");
        reveal_strlit("5");
        reveal_strlit("6");
        reveal_strlit("7");
        reveal_strlit("8");
        reveal_strlit("9");
    }
    let text: &str = match d {
        0 => "0",
        1 => "1",
        2 => "2",
        3 => "3",
        4 => "4",
        5 => "5",
        6 => "6",
        7 => "7",
        8 => "8",
        _ => "9",
    };
    assert(text@ =~= seq![digit_char(d as nat)]);
    let ghost before = out@;
    out.append(text);
    assert(before + text@ =~= before.push(digit_char(d as nat)));
}

/// Appends a number in decimal.
pub fn append_decimal(out: &mut String, n: u64)
    ensures
        final(out)@ == old(out)@ + decimal(n as nat),
    decreases n,
{
    let ghost before = out@;
    if n >= 10 {
        append_decimal(out, n / 10);
    }
    append_digit(out, n % 10);
    assert(out@ =~= before + decimal(n as nat));
}

/// A number in decimal.
pub fn decimal_text(n: u64) -> (r: String)
    ensures
        r@ == decimal(n as nat),
{
    let mut out = String::new();
    append_decimal(&mut out, n);
    assert(out@ =~= decimal(n as nat));
    out
}

/// Appends a wide number in decimal.
pub fn append_wide_decimal(out: &mut String, n: u128)
    ensures
        final(out)@ == old(out)@ + decimal(n as nat),
    decreases n,
{
    let ghost before = out@;
    if n >= 10 {
        append_wide_decimal(out, n / 10);
    }
    append_digit(out, (n % 10) as u64);
    assert(out@ =~= before + decimal(n as nat));
}

/// A signed number in decimal with its sign always written.
pub open spec fn signed_decimal(n: int) -> Seq<char> {
    if n < 0 {
        seq!['-'] + decimal((-n) as nat)
    } else {
        seq!['+'] + decimal(n as nat)
    }
}

/// Appends a signed number in decimal with its sign.
pub fn append_signed(out: &mut String, n: i128)
    ensures
        final(out)@ == old(out)@ + signed_decimal(n as int),
{
    let ghost before = out@;
    proof {
        reveal_strlit("-");
        reveal_strlit("+");
    }
    if n < 0 {
        out.append("-");
        let size: u128 = (-(n + 1)) as u128 + 1;
        append_wide_decimal(out, size);
        assert("-"@ =~= seq!['-']);
        assert(size == -n);
    } else {
        out.append("+");
        append_wide_decimal(out, n as u128);
        assert("+"@ =~= seq!['+']);
    }
    assert(out@ =~= before + signed_decimal(n as int));
}

/// `count` zeros.
pub open spec fn zeros(count: nat) -> Seq<char> {
    Seq::new(count, |i: int| '0')
}

/// A number in decimal, padded on the left with zeros to twenty digits.
pub open spec fn padded_decimal(n: nat) -> Seq<char> {
    if decimal(n).len() >= 20 {
        decimal(n)
    } else {
        zeros((20 - decimal(n).len()) as nat) + decimal(n)
    }
}

fn digit_count(n: u64) -> (r: usize)
    ensures
        r == decimal(n as nat).len(),
        r <= 20,
{
    let mut rest: u64 = n;
    let mut count: usize = 1;
    while rest >= 10
        invariant
            decimal(n as nat).len() == decimal(rest as nat).len() + count - 1,
            1 <= count <= 20,
            count == 1 ==> rest <= 18_446_744_073_709_551_615,
            count == 2 ==> rest <= 1_844_674_407_370_955_161,
            count == 3 ==> rest <= 184_467_440_737_095_516,
            count == 4 ==> rest <= 18_446_744_073_709_551,
            count == 5 ==> rest <= 1_844_674_407_370_955,
            count == 6 ==> rest <= 184_467_440_737_095,
            count == 7 ==> rest <= 18_446_744_073_709,
            count == 8 ==> rest <= 1_844_674_407_370,
            count == 9 ==> rest <= 184_467_440_737,
            count == 10 ==> rest <= 18_446_744_073,
            count == 11 ==> rest <= 1_844_674_407,
            count == 12 ==> rest <= 184_467_440,
            count == 13 ==> rest <= 18_446_744,
            count == 14 ==> rest <= 1_844_674,
            count == 15 ==> rest <= 184_467,
            count == 16 ==> rest <= 18_446,
            count == 17 ==> rest <= 1_844,
            count == 18 ==> rest <= 184,
            count == 19 ==> rest <= 18,
            count == 20 ==> rest <= 1,
        decreases rest,
    {
        rest = rest / 10;
        count = count + 1;
    }
    count
}

/// Appends a number in decimal, padded on the left with zeros to twenty digits.
pub fn append_padded(out: &mut String, n: u64)
    ensures
        final(out)@ == old(out)@ + padded_decimal(n as nat),
{
    let ghost before = out@;
    let digits: usize = digit_count(n);
    let padding: usize = 20 - digits;
    let mut i: usize = 0;
    assert(out@ =~= before + zeros(0));
    while i < padding
        invariant
            i <= padding,
            out@ == before + zeros(i as nat),
        decreases padding - i,
    {
        append_digit(out, 0);
        assert(digit_char(0) == '0');
        assert((before + zeros(i as nat)).push('0') =~= before + zeros((i + 1) as nat));
        i = i + 1;
    }
    append_decimal(out, n);
    assert(out@ =~= before + padded_decimal(n as nat));
}

/// The lower-case hexadecimal digit with value `d`.
pub open spec fn hex_char(d: nat) -> char {
    if d < 10 {
        ('0' as u32 + d) as char
    } else {
        ('a' as u32 + (d - 10)) as char
    }
}

/// Two lower-case hexadecimal digits for each byte.
pub open spec fn hex_text(bytes: Seq<u8>) -> Seq<char> {
    Seq::new(
        bytes.len() * 2,
        |i: int|
            if i % 2 == 0 {
                hex_char((bytes[i / 2] / 16) as nat)
            } else {
                hex_char((bytes[i / 2] % 16) as nat)
            },
    )
}

fn append_hex_digit(out: &mut String, d: u8)
    requires
        d < 16,
    ensures
        final(out)@ == old(out)@.push(hex_char(d as nat)),
{
    let ghost before = out@;
    if d < 10 {
        append_digit(out, d as u64);
        return;
    }
    proof {
        reveal_strlit("a");
        reveal_strlit("b");
        reveal_strlit("c");
        reveal_strlit("d");
        reveal_strlit("e");
        reveal_strlit("f");
    }
    let text: &str = match d {
        10 => "a",
        11 => "b",
        12 => "c",
        13 => "d",
        14 => "e",
        _ => "f",
    };
    assert(text@ =~= seq![hex_char(d as nat)]);
    out.append(text);
    assert(before + text@ =~= before.push(hex_char(d as nat)));
}

/// Appends bytes in lower-case hexadecimal.
pub fn append_hex(out: &mut String, bytes: &[u8])
    ensures
        final(out)@ == old(out)@ + hex_text(bytes@),
{
    let ghost before = out@;
    let mut i: usize = 0;
    assert(out@ =~= before + hex_text(bytes@.take(0)));
    while i < bytes.len()
        invariant
            i <= bytes@.len(),
            out@ == before + hex_text(bytes@.take(i as int)),
        decreases bytes.len() - i,
    {
        let byte: u8 = bytes[i];
        append_hex_digit(out, byte / 16);
        append_hex_digit(out, byte % 16);
        assert(out@ =~= before + hex_text(bytes@.take(i as int + 1)));
        i = i + 1;
    }
    assert(bytes@.take(i as int) =~= bytes@);
}

/// The value of one hexadecimal digit, in either case.
pub open spec fn hex_value(c: char) -> Option<u8> {
    if '0' <= c <= '9' {
        Some((c as u32 - '0' as u32) as u8)
    } else if 'a' <= c <= 'f' {
        Some((c as u32 - 'a' as u32 + 10) as u8)
    } else if 'A' <= c <= 'F' {
        Some((c as u32 - 'A' as u32 + 10) as u8)
    } else {
        None
    }
}

/// The bytes that a text of `count` pairs of hexadecimal digits stands for.
pub open spec fn hex_decoded(text: Seq<char>, count: nat) -> Option<Seq<u8>> {
    if text.len() == 2 * count && forall|i: int|
        0 <= i < text.len() ==> hex_value(#[trigger] text[i]) is Some {
        Some(
            Seq::new(
                count,
                |i: int| (hex_value(text[2 * i])->0 * 16 + hex_value(text[2 * i + 1])->0) as u8,
            ),
        )
    } else {
        None
    }
}

fn hex_digit(c: char) -> (r: Option<u8>)
    ensures
        r == hex_value(c),
        r is Some ==> r->0 < 16,
{
    if '0' <= c && c <= '9' {
        Some((c as u32 - '0' as u32) as u8)
    } else if 'a' <= c && c <= 'f' {
        Some((c as u32 - 'a' as u32 + 10) as u8)
    } else if 'A' <= c && c <= 'F' {
        Some((c as u32 - 'A' as u32 + 10) as u8)
    } else {
        None
    }
}

/// Decodes exactly `count` bytes from pairs of hexadecimal digits.
pub fn decode_hex(value: &str, count: usize) -> (r: Option<Vec<u8>>)
    ensures
        match r {
            Some(bytes) => hex_decoded(value@, count as nat) == Some(bytes@),
            None => hex_decoded(value@, count as nat) is None,
        },
{
    let chars = chars_of(value);
    let total: usize = chars.len();
    if total % 2 != 0 || total / 2 != count {
        return None;
    }
    let mut out: Vec<u8> = Vec::new();
    let mut i: usize = 0;
    while i < count
        invariant
            i <= count,
            chars@ == value@,
            chars@.len() == total,
            total == 2 * count,
            out@.len() == i,
            forall|j: int| 0 <= j < 2 * i ==> hex_value(#[trigger] value@[j]) is Some,
            forall|j: int|
                0 <= j < i ==> #[trigger] out@[j] == (hex_value(value@[2 * j])->0 * 16 + hex_value(
                    value@[2 * j + 1],
                )->0) as u8,
        decreases count - i,
    {
        let high = match hex_digit(chars[2 * i]) {
            Some(high) => high,
            None => {
                assert(hex_value(value@[2 * i as int]) is None);
                return None;
            },
        };
        let low = match hex_digit(chars[2 * i + 1]) {
            Some(low) => low,
            None => {
                assert(hex_value(value@[2 * i as int + 1]) is None);
                return None;
            },
        };
        out.push(high * 16 + low);
        i = i + 1;
    }
    assert(hex_decoded(value@, count as nat)->0 =~= out@);
    Some(out)
}

/// Reading back what was written: the hexadecimal text of any bytes decodes to
/// those bytes.
pub proof fn hex_round_trip(bytes: Seq<u8>)
    ensures
        hex_decoded(hex_text(bytes), bytes.len()) == Some(bytes),
{
    let text = hex_text(bytes);
    assert forall|i: int| 0 <= i < text.len() implies hex_value(#[trigger] text[i]) is Some by {
        lemma_hex_digit_round_trip((bytes[i / 2] / 16) as nat);
        lemma_hex_digit_round_trip((bytes[i / 2] % 16) as nat);
    }
    let decoded = hex_decoded(text, bytes.len())->0;
    assert forall|i: int| 0 <= i < bytes.len() implies decoded[i] == bytes[i] by {
        lemma_hex_digit_round_trip((bytes[i] / 16) as nat);
        lemma_hex_digit_round_trip((bytes[i] % 16) as nat);
        assert(text[2 * i] == hex_char((bytes[i] / 16) as nat));
        assert(text[2 * i + 1] == hex_char((bytes[i] % 16) as nat));
    }
    assert(decoded =~= bytes);
}

proof fn lemma_hex_digit_round_trip(d: nat)
    requires
        d < 16,
    ensures
        hex_value(hex_char(d)) == Some(d as u8),
{
}

/// The number that a text of decimal digits stands for, read from the left.
pub open spec fn digits_value(text: Seq<char>) -> nat
    decreases text.len(),
{
    if text.len() == 0 {
        0
    } else {
        digits_value(text.drop_last()) * 10 + (text.last() as u32 - '0' as u32) as nat
    }
}

/// The text behind an optional leading `+`.
pub open spec fn unsigned_part(text: Seq<char>) -> Seq<char> {
    if text.len() > 0 && text[0] == '+' {
        text.skip(1)
    } else {
        text
    }
}

/// One or more decimal digits, and nothing else.
pub open spec fn is_digits(text: Seq<char>) -> bool {
    &&& text.len() > 0
    &&& forall|i: int| 0 <= i < text.len() ==> '0' <= #[trigger] text[i] <= '9'
}

/// The unsigned 64-bit number that a text stands for: an optional `+`, then one
/// or more decimal digits, within range.
pub open spec fn parsed_u64(text: Seq<char>) -> Option<u64> {
    if is_digits(unsigned_part(text)) && digits_value(unsigned_part(text)) <= u64::MAX {
        Some(digits_value(unsigned_part(text)) as u64)
    } else {
        None
    }
}

proof fn lemma_digits_value_prefix(text: Seq<char>, k: int)
    requires
        0 <= k <= text.len(),
    ensures
        digits_value(text.take(k)) <= digits_value(text),
    decreases text.len() - k,
{
    if k < text.len() {
        lemma_digits_value_prefix(text, k + 1);
        assert(text.take(k + 1).drop_last() =~= text.take(k));
    } else {
        assert(text.take(k) =~= text);
    }
}

/// Reads an unsigned 64-bit number.
pub fn parse_u64(text: &str) -> (r: Option<u64>)
    ensures
        r == parsed_u64(text@),
{
    let chars = chars_of(text);
    let start: usize = if chars.len() > 0 && chars[0] == '+' {
        1
    } else {
        0
    };
    let ghost digits = unsigned_part(text@);
    assert(digits =~= text@.skip(start as int));
    if chars.len() == start {
        return None;
    }
    let mut value: u64 = 0;
    let mut i: usize = start;
    assert(digits.take(0) =~= Seq::<char>::empty());
    while i < chars.len()
        invariant
            start <= i <= chars.len(),
            start < chars.len(),
            chars@ == text@,
            digits == text@.skip(start as int),
            value == digits_value(digits.take(i - start)),
            forall|j: int| 0 <= j < i - start ==> '0' <= #[trigger] digits[j] <= '9',
            digits == unsigned_part(text@),
        decreases chars.len() - i,
    {
        let c = chars[i];
        assert(digits[i - start] == c);
        if !('0' <= c && c <= '9') {
            assert(!('0' <= digits[i - start] <= '9'));
            return None;
        }
        let d: u64 = (c as u32 - '0' as u32) as u64;
        proof {
            assert(digits.take(i - start + 1).drop_last() =~= digits.take(i - start));
            lemma_digits_value_prefix(digits, i - start + 1);
        }
        if value > (u64::MAX - d) / 10 {
            assert(value * 10 + d > u64::MAX);
            return None;
        }
        value = value * 10 + d;
        i = i + 1;
    }
    assert(digits.take(i - start) =~= digits);
    Some(value)
}

/// Reading back what was written: the decimal text of a number reads as that
/// number.
pub proof fn decimal_round_trip(n: u64)
    ensures
        parsed_u64(decimal(n as nat)) == Some(n),
{
    lemma_decimal_digits(n as nat);
}

proof fn lemma_decimal_digits(n: nat)
    ensures
        decimal(n).len() > 0,
        forall|i: int| 0 <= i < decimal(n).len() ==> '0' <= #[trigger] decimal(n)[i] <= '9',
        digits_value(decimal(n)) == n,
        decimal(n)[0] != '+',
    decreases n,
{
    reveal_with_fuel(digits_value, 2);
    if n >= 10 {
        lemma_decimal_digits(n / 10);
        assert(decimal(n).drop_last() =~= decimal(n / 10));
        assert(decimal(n)[0] == decimal(n / 10)[0]);
    } else {
        assert(decimal(n).drop_last() =~= Seq::<char>::empty());
    }
}

/// A truth value in words.
pub open spec fn bool_text(value: bool) -> Seq<char> {
    if value {
        "true"@
    } else {
        "false"@
    }
}

/// Appends a truth value in words.
pub fn append_bool(out: &mut String, value: bool)
    ensures
        final(out)@ == old(out)@ + bool_text(value),
{
    if value {
        out.append("true");
    } else {
        out.append("false");
    }
}

/// A text with a line break after it.
pub(crate) fn with_line_break(text: String) -> (r: String)
    ensures
        r@ == text@.push('\n'),
{
    let mut out = text;
    out.append("\n");
    proof {
        reveal_strlit("\n");
    }
    assert(out@ =~= text@.push('\n'));
    out
}

} // verus!
