//! Bytes as a process prints them: searching them for a pattern and
//! counting their lines, whether or not they are text.
use vstd::prelude::*;

verus! {

/// The byte that ends a line.
pub const LINE_FEED: u8 = 0x0A;

/// Whether `pattern` stands in `bytes` at position `i`.
pub open spec fn stands_at(bytes: Seq<u8>, pattern: Seq<u8>, i: int) -> bool {
    0 <= i && i + pattern.len() <= bytes.len() && bytes.subrange(i, i + pattern.len()) == pattern
}

/// Whether `pattern` stands somewhere in `bytes`.
pub open spec fn holds(bytes: Seq<u8>, pattern: Seq<u8>) -> bool {
    exists|i: int| stands_at(bytes, pattern, i)
}

/// Whether `pattern` stands in `bytes` at position `at`.
pub fn found_at(bytes: &[u8], pattern: &[u8], at: usize) -> (r: bool)
    ensures
        r == stands_at(bytes@, pattern@, at as int),
{
    if pattern.len() > bytes.len() || at > bytes.len() - pattern.len() {
        return false;
    }
    let mut k: usize = 0;
    while k < pattern.len()
        invariant
            k <= pattern.len(),
            at + pattern.len() <= bytes.len(),
            bytes@.subrange(at as int, at + k) == pattern@.take(k as int),
        decreases pattern.len() - k,
    {
        if bytes[at + k] != pattern[k] {
            assert(bytes@.subrange(at as int, at + pattern.len())[k as int] != pattern@[k as int]);
            return false;
        }
        assert(bytes@.subrange(at as int, at + k + 1) == bytes@.subrange(at as int, at + k).push(
            bytes@[at + k],
        ));
        assert(pattern@.take(k + 1) == pattern@.take(k as int).push(pattern@[k as int]));
        k += 1;
    }
    assert(pattern@.take(k as int) == pattern@);
    true
}

/// Whether `pattern` stands somewhere in `bytes`.
pub fn found(bytes: &[u8], pattern: &[u8]) -> (r: bool)
    ensures
        r == holds(bytes@, pattern@),
{
    if pattern.len() > bytes.len() {
        return false;
    }
    let last: usize = bytes.len() - pattern.len();
    let mut i: usize = 0;
    while i < last
        invariant
            i <= last,
            last == bytes.len() - pattern.len(),
            forall|j: int| 0 <= j < i ==> !stands_at(bytes@, pattern@, j),
        decreases last - i,
    {
        if found_at(bytes, pattern, i) {
            return true;
        }
        i += 1;
    }
    found_at(bytes, pattern, last)
}

/// How often the byte `b` stands in `bytes`.
pub open spec fn count_byte(bytes: Seq<u8>, b: u8) -> nat
    decreases bytes.len(),
{
    if bytes.len() == 0 {
        0
    } else {
        count_byte(bytes.drop_last(), b) + if bytes.last() == b {
            1nat
        } else {
            0nat
        }
    }
}

/// The number of lines that `bytes` hold: as many as they hold line feeds,
/// and one more where something stands behind the last line feed.
pub open spec fn line_count(bytes: Seq<u8>) -> nat {
    count_byte(bytes, LINE_FEED) + if bytes.len() > 0 && bytes.last() != LINE_FEED {
        1nat
    } else {
        0nat
    }
}

/// No byte stands in a sequence more often than the sequence is long.
pub proof fn count_is_bounded(bytes: Seq<u8>, b: u8)
    ensures
        count_byte(bytes, b) <= bytes.len(),
    decreases bytes.len(),
{
    if bytes.len() > 0 {
        count_is_bounded(bytes.drop_last(), b);
    }
}

/// Whether `bytes` hold more than `limit` lines.
pub fn has_more_lines_than(bytes: &[u8], limit: usize) -> (r: bool)
    ensures
        r == (line_count(bytes@) > limit),
{
    let mut feeds: usize = 0;
    let mut i: usize = 0;
    assert(bytes@.take(0).len() == 0);
    while i < bytes.len()
        invariant
            i <= bytes.len(),
            feeds == count_byte(bytes@.take(i as int), LINE_FEED),
            feeds <= i,
        decreases bytes.len() - i,
    {
        assert(bytes@.take(i + 1).drop_last() == bytes@.take(i as int));
        assert(bytes@.take(i + 1).last() == bytes@[i as int]);
        if bytes[i] == LINE_FEED {
            feeds += 1;
        }
        i += 1;
    }
    assert(bytes@.take(i as int) == bytes@);
    if bytes.len() > 0 && bytes[bytes.len() - 1] != LINE_FEED {
        feeds >= limit
    } else {
        feeds > limit
    }
}

} // verus!
