//! Documents of a session are told apart by their identities.
//!
//! An identity is a hash of sixteen bytes, so two documents may share one. What is
//! proved here is where they cannot.

use vstd::prelude::*;

use crate::session::{
    document_id, hash_bytes, hash_step, low_byte, next_generation, ProjectSessionId,
};

verus! {

/// Multiplying by the prime of the hash can be undone.
proof fn lemma_product_tells_apart(a: u64, b: u64)
    requires
        a.wrapping_mul(0x0000_0100_0000_01b3) == b.wrapping_mul(0x0000_0100_0000_01b3),
    ensures
        a == b,
{
    let m: int = 0x1_0000_0000_0000_0000;
    let x: int = a as int * 0x0000_0100_0000_01b3;
    let y: int = b as int * 0x0000_0100_0000_01b3;
    vstd::arithmetic::div_mod::lemma_fundamental_div_mod(x, m);
    vstd::arithmetic::div_mod::lemma_fundamental_div_mod(y, m);
    let q: int = x / m - y / m;
    let d: int = a as int - b as int;
    assert(0 <= x % m < m && 0 <= y % m < m);
    assert(x % m == y % m);
    assert(d * 0x0000_0100_0000_01b3 == m * q);
    let t: int = q * 0xce96_5057_aff6_957b - d * 887285111055;
    assert(0x0000_0100_0000_01b3 * 0xce96_5057_aff6_957b == 1 + 887285111055 * m);
    assert(d == m * t);
    assert(-m < d < m);
    assert(t == 0);
}

proof fn lemma_step_tells_apart(left: u64, right: u64, a: u64, b: u64)
    requires
        hash_step(left, a) == hash_step(right, b),
    ensures
        a == b ==> left == right,
        left == right ==> a == b,
{
    lemma_product_tells_apart(left ^ a, right ^ b);
    assert(left ^ a == right ^ b && a == b ==> left == right) by (bit_vector);
    assert(left ^ a == right ^ b && left == right ==> a == b) by (bit_vector);
}

proof fn lemma_starts_tell_apart(left: u64, right: u64, value: u64, i: nat)
    requires
        hash_bytes(left, value, i) == hash_bytes(right, value, i),
    ensures
        left == right,
    decreases i,
{
    if i > 0 {
        let k = (i - 1) as nat;
        lemma_step_tells_apart(
            hash_bytes(left, value, k),
            hash_bytes(right, value, k),
            low_byte(value, k as u64),
            low_byte(value, k as u64),
        );
        lemma_starts_tell_apart(left, right, value, k);
    }
}

// ----- numbers that differ in neighbouring bytes ---------------------------

/// Numbers that agree but for the four neighbouring bytes from place `at` on.
pub open spec fn agree_around(left: u64, right: u64, at: nat) -> bool {
    forall|i: nat|
        i < 8 && !(at <= i < at + 4) ==> #[trigger] low_byte(left, i as u64) == low_byte(
            right,
            i as u64,
        )
}

/// How far two hashes can have drifted below the upper digit of the prime after `i`
/// bytes that differ.
spec fn drift(i: nat) -> int
    decreases i,
{
    if i == 0 {
        0
    } else {
        435 * (drift((i - 1) as nat) + 510)
    }
}

/// Two hashes are apart by a multiple of 435 that has not drifted far, but for multiples
/// of the upper digit of the prime and of whole turns.
spec fn drifted(left: u64, right: u64, by: int, upper: int, turns: int, i: nat) -> bool {
    &&& left - right == 435 * by + 0x100_0000_0000 * upper + 0x1_0000_0000_0000_0000 * turns
    &&& -drift(i) <= 435 * by <= drift(i)
}

proof fn lemma_drifts_on(
    left: u64,
    right: u64,
    a: u64,
    b: u64,
    by: int,
    upper: int,
    turns: int,
    i: nat,
) -> (r: (int, int, int))
    requires
        drifted(left, right, by, upper, turns, i),
        a <= 0xff,
        b <= 0xff,
    ensures
        drifted(hash_step(left, a), hash_step(right, b), r.0, r.1, r.2, i + 1),
{
    let x = left ^ a;
    let y = right ^ b;
    assert(x - left <= 0xff && left - x <= 0xff && y - right <= 0xff && right - y <= 0xff)
        by (bit_vector)
        requires
            x == left ^ a,
            y == right ^ b,
            a <= 0xff,
            b <= 0xff,
    ;
    let m: int = 0x1_0000_0000_0000_0000;
    let p: int = 0x0000_0100_0000_01b3;
    vstd::arithmetic::div_mod::lemma_fundamental_div_mod(x as int * p, m);
    vstd::arithmetic::div_mod::lemma_fundamental_div_mod(y as int * p, m);
    let near: int = 435 * by + (x - left) - (y - right);
    let around: int = x as int * p / m - y as int * p / m;
    let next_upper: int = near + 435 * upper;
    let next_turns: int = 435 * turns + 0x1_0000 * upper + 0x100_0000_0000 * turns - around;
    assert(x - y == near + 0x100_0000_0000 * upper + m * turns);
    (near, next_upper, next_turns)
}

proof fn lemma_drift(start: u64, left: u64, right: u64, at: nat, i: nat) -> (r: (int, int, int))
    requires
        hash_bytes(start, left, at) == hash_bytes(start, right, at),
    ensures
        drifted(
            hash_bytes(start, left, at + i),
            hash_bytes(start, right, at + i),
            r.0,
            r.1,
            r.2,
            i,
        ),
    decreases i,
{
    if i == 0 {
        (0, 0, 0)
    } else {
        let k = (i - 1) as nat;
        let (by, upper, turns) = lemma_drift(start, left, right, at, k);
        let shift = (8 * ((at + k) as u64)) as u64;
        assert((left >> shift) & 0xff <= 0xff && (right >> shift) & 0xff <= 0xff) by (bit_vector);
        lemma_drifts_on(
            hash_bytes(start, left, at + k),
            hash_bytes(start, right, at + k),
            low_byte(left, (at + k) as u64),
            low_byte(right, (at + k) as u64),
            by,
            upper,
            turns,
            k,
        )
    }
}
/// Hashes that come together after at most four bytes were together before, and the
/// bytes are the same.
proof fn lemma_window_tells_apart(start: u64, left: u64, right: u64, at: nat, i: nat)
    requires
        i <= 4,
        hash_bytes(start, left, at) == hash_bytes(start, right, at),
        hash_bytes(start, left, at + i) == hash_bytes(start, right, at + i),
    ensures
        forall|k: nat|
            at <= k < at + i ==> #[trigger] low_byte(left, k as u64) == low_byte(right, k as u64),
    decreases i,
{
    if i > 0 {
        let k = (i - 1) as nat;
        let one = hash_bytes(start, left, at + k);
        let two = hash_bytes(start, right, at + k);
        let a = low_byte(left, (at + k) as u64);
        let b = low_byte(right, (at + k) as u64);
        let shift = (8 * ((at + k) as u64)) as u64;
        assert((left >> shift) & 0xff <= 0xff && (right >> shift) & 0xff <= 0xff) by (bit_vector);
        lemma_product_tells_apart(one ^ a, two ^ b);
        assert(one - two <= 0xff && two - one <= 0xff) by (bit_vector)
            requires
                one ^ a == two ^ b,
                a <= 0xff,
                b <= 0xff,
        ;
        let (by, upper, turns) = lemma_drift(start, left, right, at, k);
        reveal_with_fuel(drift, 4);
        let whole: int = upper + 0x100_0000 * turns;
        assert(one - two - 435 * by == 0x100_0000_0000 * whole);
        assert(whole == 0);
        assert(by == 0);
        lemma_step_tells_apart(one, two, a, b);
        lemma_window_tells_apart(start, left, right, at, k);
        assert forall|n: nat| at <= n < at + i implies #[trigger] low_byte(left, n as u64)
            == low_byte(right, n as u64) by {
            if n == at + k {
            }
        }
    }
}

proof fn lemma_heads_agree(start: u64, left: u64, right: u64, i: nat)
    requires
        i <= 8,
        forall|k: nat| k < i ==> #[trigger] low_byte(left, k as u64) == low_byte(right, k as u64),
    ensures
        hash_bytes(start, left, i) == hash_bytes(start, right, i),
    decreases i,
{
    if i > 0 {
        let k = (i - 1) as nat;
        lemma_heads_agree(start, left, right, k);
        assert(low_byte(left, k as u64) == low_byte(right, k as u64));
    }
}

proof fn lemma_tails_agree(start: u64, left: u64, right: u64, from: nat, i: nat)
    requires
        from <= i <= 8,
        forall|k: nat|
            from <= k < i ==> #[trigger] low_byte(left, k as u64) == low_byte(right, k as u64),
        hash_bytes(start, left, i) == hash_bytes(start, right, i),
    ensures
        hash_bytes(start, left, from) == hash_bytes(start, right, from),
    decreases i,
{
    if i > from {
        let k = (i - 1) as nat;
        assert(low_byte(left, k as u64) == low_byte(right, k as u64));
        lemma_step_tells_apart(
            hash_bytes(start, left, k),
            hash_bytes(start, right, k),
            low_byte(left, k as u64),
            low_byte(right, k as u64),
        );
        lemma_tails_agree(start, left, right, from, k);
    }
}

proof fn lemma_numbers_tell_apart(start: u64, left: u64, right: u64, at: nat)
    requires
        at <= 4,
        agree_around(left, right, at),
        hash_bytes(start, left, 8) == hash_bytes(start, right, 8),
    ensures
        left == right,
{
    assert forall|k: nat| k < at implies #[trigger] low_byte(left, k as u64) == low_byte(
        right,
        k as u64,
    ) by {}
    assert forall|k: nat| at + 4 <= k < 8 implies #[trigger] low_byte(left, k as u64) == low_byte(
        right,
        k as u64,
    ) by {}
    lemma_heads_agree(start, left, right, at);
    lemma_tails_agree(start, left, right, at + 4, 8);
    lemma_window_tells_apart(start, left, right, at, 4);
    assert(low_byte(left, 0 as nat as u64) == low_byte(right, 0 as nat as u64));
    assert(low_byte(left, 1 as nat as u64) == low_byte(right, 1 as nat as u64));
    assert(low_byte(left, 2 as nat as u64) == low_byte(right, 2 as nat as u64));
    assert(low_byte(left, 3 as nat as u64) == low_byte(right, 3 as nat as u64));
    assert(low_byte(left, 4 as nat as u64) == low_byte(right, 4 as nat as u64));
    assert(low_byte(left, 5 as nat as u64) == low_byte(right, 5 as nat as u64));
    assert(low_byte(left, 6 as nat as u64) == low_byte(right, 6 as nat as u64));
    assert(low_byte(left, 7 as nat as u64) == low_byte(right, 7 as nat as u64));
    assert(left == right) by (bit_vector)
        requires
            (left >> 0u64) & 0xff == (right >> 0u64) & 0xff,
            (left >> 8u64) & 0xff == (right >> 8u64) & 0xff,
            (left >> 16u64) & 0xff == (right >> 16u64) & 0xff,
            (left >> 24u64) & 0xff == (right >> 24u64) & 0xff,
            (left >> 32u64) & 0xff == (right >> 32u64) & 0xff,
            (left >> 40u64) & 0xff == (right >> 40u64) & 0xff,
            (left >> 48u64) & 0xff == (right >> 48u64) & 0xff,
            (left >> 56u64) & 0xff == (right >> 56u64) & 0xff,
    ;
}

/// Documents of one session have different identities where their generations differ
/// within four neighbouring bytes only.
pub proof fn document_ids_follow_the_generation(
    session: ProjectSessionId,
    left: u64,
    right: u64,
    at: nat,
)
    requires
        left != right,
        at <= 4,
        agree_around(left, right, at),
    ensures
        document_id(session, left) != document_id(session, right),
{
    if document_id(session, left) == document_id(session, right) {
        lemma_numbers_tell_apart(
            hash_bytes(0xcbf2_9ce4_8422_2325, session.0, 8),
            left,
            right,
            at,
        );
    }
}

/// Documents of the same generation have different identities in sessions whose numbers
/// differ within four neighbouring bytes only.
pub proof fn document_ids_follow_the_session(
    left: ProjectSessionId,
    right: ProjectSessionId,
    generation: u64,
    at: nat,
)
    requires
        left != right,
        at <= 4,
        agree_around(left.0, right.0, at),
    ensures
        document_id(left, generation) != document_id(right, generation),
{
    if document_id(left, generation) == document_id(right, generation) {
        lemma_starts_tell_apart(
            hash_bytes(0xcbf2_9ce4_8422_2325, left.0, 8),
            hash_bytes(0xcbf2_9ce4_8422_2325, right.0, 8),
            generation,
            8,
        );
        lemma_numbers_tell_apart(0xcbf2_9ce4_8422_2325, left.0, right.0, at);
    }
}

/// A session gives no identity twice to its first 2^32 documents.
pub proof fn early_documents_are_told_apart(session: ProjectSessionId, left: u64, right: u64)
    requires
        left != right,
        left <= 0xffff_ffff,
        right <= 0xffff_ffff,
    ensures
        document_id(session, left) != document_id(session, right),
{
    assert forall|i: nat| 4 <= i < 8 implies #[trigger] low_byte(left, i as u64) == low_byte(
        right,
        i as u64,
    ) by {
        let shift = (8 * (i as u64)) as u64;
        assert((left >> shift) & 0xff == 0 && (right >> shift) & 0xff == 0) by (bit_vector)
            requires
                32 <= shift <= 56,
                left <= 0xffff_ffff,
                right <= 0xffff_ffff,
        ;
    }
    document_ids_follow_the_generation(session, left, right, 0);
}

// ----- counting up ---------------------------------------------------------

/// The lowest byte of a hash after it took a byte of ones.
spec fn lowest_after(low: u64) -> u64 {
    ((low ^ 0xff) * 0xb3 % 0x100) as u64
}

/// How far apart two hashes are that start alike, with `low` as their lowest byte, after
/// one took a byte of ones and the other the byte `first`.
spec fn first_spread(low: u64, first: u64) -> u64 {
    (((low ^ 0xff) + 0x1_0000_0000_0000_0000 - (low ^ first)) * 0x0000_0100_0000_01b3
        % 0x1_0000_0000_0000_0000) as u64
}

/// How far apart two hashes are that were `spread` apart, with `low` as the lowest byte
/// of the first, after it took a byte of ones and the other a zero.
spec fn next_spread(spread: u64, low: u64) -> u64 {
    ((spread + 0x1_0000_0000_0000_00ff - 2 * low) * 0x0000_0100_0000_01b3
        % 0x1_0000_0000_0000_0000) as u64
}

/// Hashes that are so far apart differ above their lowest bytes.
spec fn is_wide(spread: u64) -> bool {
    0xff < spread && spread < 0xffff_ffff_ffff_ff01
}

proof fn lemma_spreads_are_wide(
    low0: u64,
    first: u64,
    low1: u64,
    low2: u64,
    low3: u64,
    low4: u64,
    low5: u64,
    low6: u64,
    low7: u64,
    spread1: u64,
    spread2: u64,
    spread3: u64,
    spread4: u64,
    spread5: u64,
    spread6: u64,
    spread7: u64,
    spread8: u64,
)
    by (bit_vector)
    requires
        low0 <= 0xff,
        first <= 1,
        low1 == lowest_after(low0),
        low2 == lowest_after(low1),
        low3 == lowest_after(low2),
        low4 == lowest_after(low3),
        low5 == lowest_after(low4),
        low6 == lowest_after(low5),
        low7 == lowest_after(low6),
        spread1 == first_spread(low0, first),
        spread2 == next_spread(spread1, low1),
        spread3 == next_spread(spread2, low2),
        spread4 == next_spread(spread3, low3),
        spread5 == next_spread(spread4, low4),
        spread6 == next_spread(spread5, low5),
        spread7 == next_spread(spread6, low6),
        spread8 == next_spread(spread7, low7),
    ensures
        is_wide(spread1),
        is_wide(spread2),
        is_wide(spread3),
        is_wide(spread4),
        is_wide(spread5),
        is_wide(spread6),
        is_wide(spread7),
        is_wide(spread8),
{
}

/// The lowest byte of a hash that took `i` bytes of ones.
spec fn lowest(start: u64, i: nat) -> u64
    decreases i,
{
    if i == 0 {
        start & 0xff
    } else {
        lowest_after(lowest(start, (i - 1) as nat))
    }
}

/// How far apart two hashes are that both start from `start`, after one took `i` bytes of
/// ones and the other the byte `first` and then zeros.
spec fn spread(start: u64, first: u64, i: nat) -> u64
    decreases i,
{
    if i <= 1 {
        first_spread(lowest(start, 0), first)
    } else {
        next_spread(spread(start, first, (i - 1) as nat), lowest(start, (i - 1) as nat))
    }
}

proof fn lemma_spread_is_wide(start: u64, first: u64, i: nat)
    requires
        first <= 1,
        1 <= i <= 8,
    ensures
        is_wide(spread(start, first, i)),
{
    assert(start & 0xff <= 0xff) by (bit_vector);
    reveal_with_fuel(lowest, 8);
    reveal_with_fuel(spread, 9);
    lemma_spreads_are_wide(
        lowest(start, 0),
        first,
        lowest(start, 1),
        lowest(start, 2),
        lowest(start, 3),
        lowest(start, 4),
        lowest(start, 5),
        lowest(start, 6),
        lowest(start, 7),
        spread(start, first, 1),
        spread(start, first, 2),
        spread(start, first, 3),
        spread(start, first, 4),
        spread(start, first, 5),
        spread(start, first, 6),
        spread(start, first, 7),
        spread(start, first, 8),
    );
    assert(i == 1 || i == 2 || i == 3 || i == 4 || i == 5 || i == 6 || i == 7 || i == 8);
}

/// Two hashes are so far apart, around the clock of 64 bits.
spec fn are_apart(left: u64, right: u64, by: u64) -> bool {
    left - right == by || left - right == by - 0x1_0000_0000_0000_0000
}

proof fn lemma_wide_tells_apart(left: u64, right: u64, by: u64, a: u64, b: u64)
    requires
        are_apart(left, right, by),
        is_wide(by),
        a <= 0xff,
        b <= 0xff,
    ensures
        hash_step(left, a) != hash_step(right, b),
        left != right,
{
    if hash_step(left, a) == hash_step(right, b) {
        lemma_product_tells_apart(left ^ a, right ^ b);
        assert(left - right <= 0xff && right - left <= 0xff) by (bit_vector)
            requires
                left ^ a == right ^ b,
                a <= 0xff,
                b <= 0xff,
        ;
    }
}

/// Products with the prime of the hash are as far apart as their factors, times the prime.
proof fn lemma_products_apart(x: u64, y: u64, distance: int, turns: int)
    requires
        distance >= 0,
        distance == x - y + turns * 0x1_0000_0000_0000_0000,
    ensures
        are_apart(
            x.wrapping_mul(0x0000_0100_0000_01b3),
            y.wrapping_mul(0x0000_0100_0000_01b3),
            (distance * 0x0000_0100_0000_01b3 % 0x1_0000_0000_0000_0000) as u64,
        ),
{
    let m: int = 0x1_0000_0000_0000_0000;
    let p: int = 0x0000_0100_0000_01b3;
    vstd::arithmetic::div_mod::lemma_fundamental_div_mod(x as int * p, m);
    vstd::arithmetic::div_mod::lemma_fundamental_div_mod(y as int * p, m);
    vstd::arithmetic::div_mod::lemma_fundamental_div_mod(distance * p, m);
    let around: int = x as int * p / m - y as int * p / m + turns * p - distance * p / m;
    assert(distance * p == x as int * p - y as int * p + turns * p * m) by (nonlinear_arith)
        requires
            distance == x - y + turns * m,
    ;
    assert(turns * p * m == (turns * p) * m);
    let by = distance * p % m;
    let left = x as int * p % m;
    let right = y as int * p % m;
    assert(by == left - right + m * around);
    assert(0 <= by < m && 0 <= left < m && 0 <= right < m);
    assert(around == 0 || around == 1);
}

proof fn lemma_lowest_follows(hash: u64)
    ensures
        hash_step(hash, 0xff) & 0xff == lowest_after(hash & 0xff),
{
    let after = hash_step(hash, 0xff);
    let low = lowest_after(hash & 0xff);
    assert(after & 0xff == low) by (bit_vector)
        requires
            after == ((hash ^ 0xff) * 0x0000_0100_0000_01b3 % 0x1_0000_0000_0000_0000) as u64,
            low == (((hash & 0xff) ^ 0xff) * 0xb3 % 0x100) as u64,
    ;
}

proof fn lemma_first_spread(start: u64, first: u64)
    requires
        first <= 1,
    ensures
        are_apart(hash_step(start, 0xff), hash_step(start, first), spread(start, first, 1)),
        hash_step(start, 0xff) & 0xff == lowest(start, 1),
{
    reveal_with_fuel(lowest, 2);
    lemma_lowest_follows(start);
    assert((start ^ 0xff) - (start ^ first) == ((start & 0xff) ^ 0xff) - ((start & 0xff) ^ first))
        by (bit_vector)
        requires
            first <= 1,
    ;
    assert((start & 0xff) ^ first <= 0xff) by (bit_vector)
        requires
            first <= 1,
    ;
    lemma_products_apart(
        start ^ 0xff,
        start ^ first,
        (start ^ 0xff) - (start ^ first) + 0x1_0000_0000_0000_0000,
        1,
    );
}

proof fn lemma_next_spread(start: u64, first: u64, i: nat, left: u64, right: u64)
    requires
        i >= 1,
        are_apart(left, right, spread(start, first, i)),
        left & 0xff == lowest(start, i),
    ensures
        are_apart(hash_step(left, 0xff), hash_step(right, 0), spread(start, first, i + 1)),
        hash_step(left, 0xff) & 0xff == lowest(start, i + 1),
{
    lemma_lowest_follows(left);
    assert((left ^ 0xff) as int == left + 0xff - 2 * (left & 0xff) && left & 0xff <= 0xff && right ^ 0
        == right) by (bit_vector);
    let by = spread(start, first, i);
    lemma_products_apart(
        left ^ 0xff,
        right ^ 0,
        by + 0x1_0000_0000_0000_00ff - 2 * (left & 0xff),
        if left - right == by {
            1
        } else {
            2
        },
    );
}

/// The number whose lowest `i` bytes are ones.
spec fn ones(i: nat) -> u64 {
    if i < 8 {
        ((1u64 << (8 * i) as u64) - 1) as u64
    } else {
        u64::MAX
    }
}

proof fn lemma_counting_up(value: u64, i: nat)
    requires
        value < u64::MAX,
        i < 8,
    ensures
        ({
            let byte = low_byte(value, i as u64);
            let next = low_byte((value + 1) as u64, i as u64);
            let full = value & ones(i) == ones(i);
            &&& byte <= 0xff && next <= 0xff
            &&& full && byte == 0xff ==> next == 0
            &&& full && byte != 0xff ==> next != byte
            &&& !full ==> next == byte
            &&& value & ones(i + 1) == ones(i + 1) <==> full && byte == 0xff
        }),
{
    let shift = (8 * i) as u64;
    let next = (value + 1) as u64;
    let lower = ones(i);
    assert(lower == (1u64 << shift) - 1) by {
        assert((1u64 << shift) >= 1) by (bit_vector)
            requires
                shift <= 56,
        ;
    }
    let byte = (value >> shift) & 0xff;
    let after = (next >> shift) & 0xff;
    assert({
        &&& byte <= 0xff && after <= 0xff
        &&& value & lower == lower && byte == 0xff ==> after == 0
        &&& value & lower == lower && byte != 0xff ==> after != byte
        &&& value & lower != lower ==> after == byte
    }) by (bit_vector)
        requires
            shift <= 56,
            next == (value + 1) as u64,
            lower == ((1u64 << shift) - 1) as u64,
            byte == (value >> shift) & 0xff,
            after == (next >> shift) & 0xff,
    ;
    let upper = ones(i + 1);
    let both = lower | (0xffu64 << shift);
    assert(upper == both) by {
        if i < 7 {
            let above = (8 * (i + 1)) as u64;
            assert((1u64 << above) >= 1 && ((1u64 << above) - 1) as u64 == lower | (0xffu64 << shift)) by (bit_vector)
                requires
                    shift <= 48,
                    above == (shift + 8) as u64,
                    lower == ((1u64 << shift) - 1) as u64,
            ;
        } else {
            assert(lower | (0xffu64 << shift) == 0xffff_ffff_ffff_ffff) by (bit_vector)
                requires
                    shift == 56,
                    lower == ((1u64 << shift) - 1) as u64,
            ;
        }
    }
    assert(value & both == both <==> value & lower == lower && byte == 0xff) by (bit_vector)
        requires
            shift <= 56,
            lower == ((1u64 << shift) - 1) as u64,
            both == lower | (0xffu64 << shift),
            byte == (value >> shift) & 0xff,
    ;
}

proof fn lemma_next_number_differs(start: u64, value: u64, i: nat)
    requires
        value < u64::MAX,
        i <= 8,
    ensures
        ({
            let left = hash_bytes(start, value, i);
            let right = hash_bytes(start, (value + 1) as u64, i);
            if value & ones(i) != ones(i) {
                left != right
            } else if i == 0 {
                left == right
            } else {
                are_apart(left, right, spread(start, 0, i)) && left & 0xff == lowest(start, i)
            }
        }),
    decreases i,
{
    if i == 0 {
        assert(value & ones(0) == ones(0)) by {
            assert(value & ((1u64 << 0u64) - 1) as u64 == 0 && ((1u64 << 0u64) - 1) as u64 == 0) by (bit_vector);
        }
    } else {
        let k = (i - 1) as nat;
        lemma_next_number_differs(start, value, k);
        lemma_counting_up(value, k);
        let left = hash_bytes(start, value, k);
        let right = hash_bytes(start, (value + 1) as u64, k);
        let byte = low_byte(value, k as u64);
        let next = low_byte((value + 1) as u64, k as u64);
        if value & ones(k) != ones(k) || k == 0 && byte != 0xff {
            if hash_step(left, byte) == hash_step(right, next) {
                lemma_step_tells_apart(left, right, byte, next);
            }
        } else if byte != 0xff {
            lemma_spread_is_wide(start, 0, k);
            lemma_wide_tells_apart(left, right, spread(start, 0, k), byte, next);
        } else if k == 0 {
            lemma_first_spread(start, 0);
        } else {
            lemma_next_spread(start, 0, k, left, right);
        }
    }
}

proof fn lemma_first_number_differs(start: u64, i: nat)
    requires
        1 <= i <= 8,
    ensures
        are_apart(
            hash_bytes(start, u64::MAX, i),
            hash_bytes(start, 1, i),
            spread(start, 1, i),
        ),
        hash_bytes(start, u64::MAX, i) & 0xff == lowest(start, i),
    decreases i,
{
    let k = (i - 1) as nat;
    let shift = (8 * k) as u64;
    assert((0xffff_ffff_ffff_ffffu64 >> shift) & 0xff == 0xff) by (bit_vector)
        requires
            shift <= 56,
    ;
    if k == 0 {
        assert((1u64 >> 0u64) & 0xff == 1) by (bit_vector);
        reveal_with_fuel(hash_bytes, 2);
        lemma_first_spread(start, 1);
    } else {
        assert((1u64 >> shift) & 0xff == 0) by (bit_vector)
            requires
                8 <= shift <= 56,
        ;
        lemma_first_number_differs(start, k);
        lemma_next_spread(
            start,
            1,
            k,
            hash_bytes(start, u64::MAX, k),
            hash_bytes(start, 1, k),
        );
    }
}

/// The next document of a session always has another identity, also where the
/// generations start over.
pub proof fn the_next_document_has_another_id(session: ProjectSessionId, generation: u64)
    ensures
        document_id(session, next_generation(generation)) != document_id(session, generation),
{
    let start = hash_bytes(0xcbf2_9ce4_8422_2325, session.0, 8);
    if generation == u64::MAX {
        lemma_first_number_differs(start, 8);
        lemma_spread_is_wide(start, 1, 8);
    } else {
        lemma_next_number_differs(start, generation, 8);
        assert(generation & ones(8) != ones(8)) by {
            assert(generation & 0xffff_ffff_ffff_ffff == generation) by (bit_vector);
        }
    }
}

} // verus!
