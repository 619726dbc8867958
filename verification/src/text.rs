//! Text as sequences of characters: the vocabulary in which the tool's
//! line-oriented reports and the destination layout are described.
use vstd::prelude::*;

verus! {

/// `String::push` appends the one character to the end of the string.
pub assume_specification[ String::push ](s: &mut String, c: char)
    ensures
        final(s)@ == old(s)@.push(c),
;

/// The characters of `s`, in order.
pub fn chars_of(s: &str) -> (v: Vec<char>)
    ensures
        v@ == s@,
{
    let mut v: Vec<char> = Vec::new();
    for c in it: s.chars()
        invariant
            v@ == it.seq().take(it.index()),
            it.seq() == s@,
    {
        v.push(c);
    }
    v
}

/// The string made of the characters `v[from..to]`.
pub fn text_of_range(v: &Vec<char>, from: usize, to: usize) -> (s: String)
    requires
        from <= to <= v.len(),
    ensures
        s@ == v@.subrange(from as int, to as int),
{
    let mut s = String::new();
    let mut i: usize = from;
    while i < to
        invariant
            from <= i <= to <= v.len(),
            s@ == v@.subrange(from as int, i as int),
        decreases to - i,
    {
        s.push(v[i]);
        assert(v@.subrange(from as int, i + 1) == v@.subrange(from as int, i as int).push(v@[i as int]));
        i += 1;
    }
    s
}

/// The string made of the characters of `v`.
pub fn text_of(v: &Vec<char>) -> (s: String)
    ensures
        s@ == v@,
{
    assert(v@.subrange(0, v.len() as int) == v@);
    text_of_range(v, 0, v.len())
}

/// Whether two strings hold the same characters.
pub fn same_text(a: &str, b: &str) -> (r: bool)
    ensures
        r == (a@ == b@),
{
    let x = a.as_bytes();
    let y = b.as_bytes();
    if x.len() != y.len() {
        return false;
    }
    let mut i: usize = 0;
    while i < x.len()
        invariant
            i <= x.len(),
            x.len() == y.len(),
            x@.take(i as int) == y@.take(i as int),
            x@ == vstd::utf8::encode_utf8(a@),
            y@ == vstd::utf8::encode_utf8(b@),
        decreases x.len() - i,
    {
        if x[i] != y[i] {
            return false;
        }
        assert(x@.take(i + 1) == x@.take(i as int).push(x@[i as int]));
        assert(y@.take(i + 1) == y@.take(i as int).push(y@[i as int]));
        i += 1;
    }
    proof {
        assert(x@ == x@.take(i as int));
        assert(y@ == y@.take(i as int));
        vstd::utf8::encode_utf8_decode_utf8(a@);
        vstd::utf8::encode_utf8_decode_utf8(b@);
    }
    true
}

/// Whether `c` has the Unicode property White_Space.
pub open spec fn is_whitespace(c: char) -> bool {
    let u = c as u32;
    ||| 0x09 <= u <= 0x0D
    ||| u == 0x20
    ||| u == 0x85
    ||| u == 0xA0
    ||| u == 0x1680
    ||| 0x2000 <= u <= 0x200A
    ||| u == 0x2028
    ||| u == 0x2029
    ||| u == 0x202F
    ||| u == 0x205F
    ||| u == 0x3000
}

/// Whether `c` has the Unicode property White_Space.
pub fn char_is_whitespace(c: char) -> (r: bool)
    ensures
        r == is_whitespace(c),
{
    let u: u32 = c as u32;
    (0x09 <= u && u <= 0x0D) || u == 0x20 || u == 0x85 || u == 0xA0 || u == 0x1680 || (0x2000 <= u
        && u <= 0x200A) || u == 0x2028 || u == 0x2029 || u == 0x202F || u == 0x205F || u == 0x3000
}

/// `s` without its leading whitespace.
pub open spec fn trim_start(s: Seq<char>) -> Seq<char>
    decreases s.len(),
{
    if s.len() > 0 && is_whitespace(s.first()) {
        trim_start(s.drop_first())
    } else {
        s
    }
}

/// `s` without its trailing whitespace.
pub open spec fn trim_end(s: Seq<char>) -> Seq<char>
    decreases s.len(),
{
    if s.len() > 0 && is_whitespace(s.last()) {
        trim_end(s.drop_last())
    } else {
        s
    }
}

/// `s` without leading and trailing whitespace.
pub open spec fn trim(s: Seq<char>) -> Seq<char> {
    trim_end(trim_start(s))
}

/// A trimmed text neither begins nor ends with whitespace, and the text it
/// was made from is the trimmed text with whitespace, and nothing else,
/// before and behind it.
pub proof fn trim_takes_the_margins(s: Seq<char>)
    ensures
        trim(s).len() > 0 ==> !is_whitespace(trim(s).first()) && !is_whitespace(trim(s).last()),
        exists|a: int, b: int|
            0 <= a <= b <= s.len() && #[trigger] s.subrange(a, b) == trim(s) && (forall|i: int|
                0 <= i < a || b <= i < s.len() ==> is_whitespace(s[i])),
{
    trim_start_takes_the_head(s);
    let a = choose|a: int|
        0 <= a <= s.len() && s.skip(a) == trim_start(s) && (forall|i: int|
            0 <= i < a ==> is_whitespace(s[i]));
    let t = trim_start(s);
    trim_end_takes_the_tail(t);
    let n = choose|n: int|
        0 <= n <= t.len() && t.take(n) == trim_end(t) && (forall|i: int|
            n <= i < t.len() ==> is_whitespace(t[i]));
    assert(s.subrange(a, a + n) == trim(s));
    assert forall|i: int| 0 <= i < a || a + n <= i < s.len() implies is_whitespace(s[i]) by {
        if i >= a + n {
            assert(t[i - a] == s[i]);
        }
    }
    if trim(s).len() > 0 {
        assert(trim(s).first() == t.first());
    }
}

proof fn trim_start_takes_the_head(s: Seq<char>)
    ensures
        exists|a: int|
            0 <= a <= s.len() && #[trigger] s.skip(a) == trim_start(s) && (forall|i: int|
                0 <= i < a ==> is_whitespace(s[i])),
        trim_start(s).len() > 0 ==> !is_whitespace(trim_start(s).first()),
    decreases s.len(),
{
    if s.len() > 0 && is_whitespace(s.first()) {
        let rest = s.drop_first();
        trim_start_takes_the_head(rest);
        let a = choose|a: int|
            0 <= a <= rest.len() && #[trigger] rest.skip(a) == trim_start(rest) && (forall|i: int|
                0 <= i < a ==> is_whitespace(rest[i]));
        assert(s.skip(a + 1) == rest.skip(a));
        assert forall|i: int| 0 <= i < a + 1 implies is_whitespace(s[i]) by {
            if i > 0 {
                assert(s[i] == rest[i - 1]);
            }
        }
    } else {
        assert(s.skip(0) == s);
    }
}

proof fn trim_end_takes_the_tail(s: Seq<char>)
    ensures
        exists|n: int|
            0 <= n <= s.len() && #[trigger] s.take(n) == trim_end(s) && (forall|i: int|
                n <= i < s.len() ==> is_whitespace(s[i])),
        trim_end(s).len() > 0 ==> !is_whitespace(trim_end(s).last()),
        trim_end(s).len() > 0 ==> trim_end(s).first() == s.first(),
    decreases s.len(),
{
    if s.len() > 0 && is_whitespace(s.last()) {
        let rest = s.drop_last();
        trim_end_takes_the_tail(rest);
        let n = choose|n: int|
            0 <= n <= rest.len() && #[trigger] rest.take(n) == trim_end(rest) && (forall|i: int|
                n <= i < rest.len() ==> is_whitespace(rest[i]));
        assert(s.take(n) == rest.take(n));
        assert forall|i: int| n <= i < s.len() implies is_whitespace(s[i]) by {
            if i < rest.len() {
                assert(s[i] == rest[i]);
            }
        }
    } else {
        assert(s.take(s.len() as int) == s);
    }
}

/// The bounds of `trim(v@)` within `v`.
pub fn trim_bounds(v: &Vec<char>) -> (r: (usize, usize))
    ensures
        r.0 <= r.1 <= v.len(),
        v@.subrange(r.0 as int, r.1 as int) == trim(v@),
{
    let mut a: usize = 0;
    assert(v@.skip(0) == v@);
    while a < v.len() && char_is_whitespace(v[a])
        invariant
            a <= v.len(),
            trim_start(v@) == trim_start(v@.skip(a as int)),
        decreases v.len() - a,
    {
        assert(v@.skip(a as int).drop_first() == v@.skip(a + 1));
        a += 1;
    }
    let mut b: usize = v.len();
    assert(v@.skip(a as int) == v@.subrange(a as int, b as int));
    while b > a && char_is_whitespace(v[b - 1])
        invariant
            a <= b <= v.len(),
            trim(v@) == trim_end(v@.subrange(a as int, b as int)),
        decreases b - a,
    {
        assert(v@.subrange(a as int, b as int).drop_last() == v@.subrange(a as int, b - 1));
        b -= 1;
    }
    (a, b)
}

/// `trim(v@)` as a vector of its own.
pub fn trimmed(v: &Vec<char>) -> (r: Vec<char>)
    ensures
        r@ == trim(v@),
{
    let (a, b) = trim_bounds(v);
    copy_range(v, a, b)
}

/// The characters `v[from..to]` as a vector of their own.
pub fn copy_range(v: &Vec<char>, from: usize, to: usize) -> (r: Vec<char>)
    requires
        from <= to <= v.len(),
    ensures
        r@ == v@.subrange(from as int, to as int),
{
    let mut r: Vec<char> = Vec::new();
    let mut i: usize = from;
    while i < to
        invariant
            from <= i <= to <= v.len(),
            r@ == v@.subrange(from as int, i as int),
        decreases to - i,
    {
        r.push(v[i]);
        assert(v@.subrange(from as int, i + 1) == v@.subrange(from as int, i as int).push(v@[i as int]));
        i += 1;
    }
    r
}

/// The character sequences that a vector of strings holds.
pub open spec fn texts(v: Seq<String>) -> Seq<Seq<char>> {
    Seq::new(v.len(), |i: int| v[i]@)
}

/// The character sequences that a vector of character vectors holds.
pub open spec fn views(v: Seq<Vec<char>>) -> Seq<Seq<char>> {
    Seq::new(v.len(), |i: int| v[i]@)
}

/// The pieces of `s` between occurrences of `sep`. There is always at least
/// one piece; two adjacent separators enclose an empty piece.
pub open spec fn split(s: Seq<char>, sep: char) -> Seq<Seq<char>>
    decreases s.len(),
{
    if s.len() == 0 {
        seq![Seq::<char>::empty()]
    } else {
        let before = split(s.drop_last(), sep);
        if s.last() == sep {
            before.push(Seq::<char>::empty())
        } else {
            before.drop_last().push(before.last().push(s.last()))
        }
    }
}

/// A split has at least one piece.
pub proof fn split_is_nonempty(s: Seq<char>, sep: char)
    ensures
        split(s, sep).len() >= 1,
    decreases s.len(),
{
    if s.len() > 0 {
        split_is_nonempty(s.drop_last(), sep);
    }
}

/// The pieces put together again, with `sep` between them.
pub open spec fn join(pieces: Seq<Seq<char>>, sep: char) -> Seq<char>
    decreases pieces.len(),
{
    if pieces.len() == 0 {
        Seq::empty()
    } else if pieces.len() == 1 {
        pieces[0]
    } else {
        join(pieces.drop_last(), sep).push(sep) + pieces.last()
    }
}

/// The pieces of a split hold no separator, and joined by the separator they
/// are the text again. No other sequence of pieces does both.
pub proof fn split_takes_apart(s: Seq<char>, sep: char)
    ensures
        join(split(s, sep), sep) == s,
        forall|i: int, j: int|
            0 <= i < split(s, sep).len() && 0 <= j < split(s, sep)[i].len() ==> split(
                s,
                sep,
            )[i][j] != sep,
    decreases s.len(),
{
    if s.len() > 0 {
        let before = split(s.drop_last(), sep);
        let pieces = split(s, sep);
        split_takes_apart(s.drop_last(), sep);
        split_is_nonempty(s.drop_last(), sep);
        if s.last() == sep {
            assert(pieces.drop_last() == before);
            assert(join(pieces, sep) == join(before, sep).push(sep) + Seq::<char>::empty());
            assert(join(pieces, sep) == s.drop_last().push(sep));
            assert(s == s.drop_last().push(s.last()));
        } else {
            let grown = before.last().push(s.last());
            assert(pieces.last() == grown);
            if before.len() == 1 {
                assert(pieces.len() == 1);
                assert(join(before, sep) == before.last());
            } else {
                assert(pieces.drop_last() == before.drop_last());
                assert(join(pieces, sep) == join(before.drop_last(), sep).push(sep) + grown);
                assert(join(before.drop_last(), sep).push(sep) + grown == (join(
                    before.drop_last(),
                    sep,
                ).push(sep) + before.last()).push(s.last()));
            }
            assert(join(pieces, sep) == s.drop_last().push(s.last()));
            assert(s == s.drop_last().push(s.last()));
        }
        assert forall|i: int, j: int|
            0 <= i < pieces.len() && 0 <= j < pieces[i].len() implies pieces[i][j] != sep by {
            if i < pieces.len() - 1 {
                assert(pieces[i] == before[i]);
            } else if s.last() != sep && j < before.last().len() {
                assert(pieces[i][j] == before.last()[j]);
            }
        }
    }
}

/// The pieces of `v` between occurrences of `sep`.
pub fn split_on(v: &Vec<char>, sep: char) -> (r: Vec<Vec<char>>)
    ensures
        views(r@) == split(v@, sep),
        r.len() >= 1,
{
    let mut done: Vec<Vec<char>> = Vec::new();
    let mut piece: Vec<char> = Vec::new();
    let mut i: usize = 0;
    assert(views(done@).push(piece@) == split(v@.take(0), sep));
    while i < v.len()
        invariant
            i <= v.len(),
            views(done@).push(piece@) == split(v@.take(i as int), sep),
        decreases v.len() - i,
    {
        let ghost before = views(done@).push(piece@);
        let ghost old_done = done@;
        let ghost old_piece = piece@;
        assert(v@.take(i + 1).drop_last() == v@.take(i as int));
        assert(v@.take(i + 1).last() == v@[i as int]);
        if v[i] == sep {
            done.push(piece);
            piece = Vec::new();
            assert(views(done@) == before);
        } else {
            piece.push(v[i]);
            assert(views(done@).push(piece@) == before.drop_last().push(
                before.last().push(v@[i as int]),
            ));
        }
        i += 1;
    }
    assert(v@.take(i as int) == v@);
    let ghost all = views(done@).push(piece@);
    done.push(piece);
    assert(views(done@) == all);
    done
}

/// `p` without one trailing carriage return.
pub open spec fn strip_cr(p: Seq<char>) -> Seq<char> {
    if p.len() > 0 && p.last() == '\r' {
        p.drop_last()
    } else {
        p
    }
}

/// The lines of `s`. A line ends at a line feed; the line feed, and a
/// carriage return directly before it, are not part of the line. The last
/// line need not be terminated, and an empty text has no lines.
pub open spec fn lines(s: Seq<char>) -> Seq<Seq<char>> {
    let pieces = split(s, '\n');
    let terminated = Seq::new((pieces.len() - 1) as nat, |i: int| strip_cr(pieces[i]));
    if pieces.last().len() == 0 {
        terminated
    } else {
        terminated.push(pieces.last())
    }
}

/// How often `c` stands in `s`.
pub open spec fn count_char(s: Seq<char>, c: char) -> nat
    decreases s.len(),
{
    if s.len() == 0 {
        0
    } else {
        count_char(s.drop_last(), c) + if s.last() == c {
            1nat
        } else {
            0nat
        }
    }
}

/// A split has one piece more than the text has separators, and its last
/// piece is empty exactly where the text is empty or ends in a separator.
pub proof fn split_counts(s: Seq<char>, sep: char)
    ensures
        split(s, sep).len() == count_char(s, sep) + 1,
        split(s, sep).last().len() == 0 <==> s.len() == 0 || s.last() == sep,
    decreases s.len(),
{
    if s.len() > 0 {
        split_counts(s.drop_last(), sep);
    }
}

/// A text has as many lines as it has line feeds, and one more where
/// something stands behind the last line feed.
pub proof fn lines_are_counted(s: Seq<char>)
    ensures
        lines(s).len() == count_char(s, '\n') + if s.len() > 0 && s.last() != '\n' {
            1nat
        } else {
            0nat
        },
{
    split_counts(s, '\n');
}

/// The lines of `v`.
pub fn lines_of(v: &Vec<char>) -> (r: Vec<Vec<char>>)
    ensures
        views(r@) == lines(v@),
{
    let pieces = split_on(v, '\n');
    let ghost model = split(v@, '\n');
    let n: usize = pieces.len() - 1;
    let mut r: Vec<Vec<char>> = Vec::new();
    let mut i: usize = 0;
    while i < n
        invariant
            i <= n,
            n == pieces.len() - 1,
            views(pieces@) == model,
            views(r@) == Seq::new(i as nat, |k: int| strip_cr(model[k])),
        decreases n - i,
    {
        let piece = &pieces[i];
        assert(piece@ == views(pieces@)[i as int]);
        let len: usize = piece.len();
        let keep: usize = if len > 0 && piece[len - 1] == '\r' {
            len - 1
        } else {
            len
        };
        let line = copy_range(piece, 0, keep);
        assert(piece@.subrange(0, keep as int) == strip_cr(piece@));
        let ghost before = views(r@);
        r.push(line);
        assert(views(r@) == before.push(strip_cr(model[i as int])));
        assert(views(r@) == Seq::new((i + 1) as nat, |k: int| strip_cr(model[k])));
        i += 1;
    }
    let last = &pieces[n];
    assert(last@ == views(pieces@)[n as int]);
    if last.len() > 0 {
        let ghost before = views(r@);
        let line = copy_range(last, 0, last.len());
        assert(last@.subrange(0, last.len() as int) == last@);
        r.push(line);
        assert(views(r@) == before.push(last@));
    }
    r
}

/// Whether `s` begins with `prefix`.
pub open spec fn starts_with(s: Seq<char>, prefix: Seq<char>) -> bool {
    prefix.len() <= s.len() && s.take(prefix.len() as int) == prefix
}

/// Whether `s` ends with `suffix`.
pub open spec fn ends_with(s: Seq<char>, suffix: Seq<char>) -> bool {
    suffix.len() <= s.len() && s.skip(s.len() - suffix.len()) == suffix
}

/// Whether `pattern` stands in `s` at position `i`.
pub open spec fn occurs_at(s: Seq<char>, pattern: Seq<char>, i: int) -> bool {
    0 <= i && i + pattern.len() <= s.len() && s.subrange(i, i + pattern.len()) == pattern
}

/// Whether `pattern` stands somewhere in `s`.
pub open spec fn contains(s: Seq<char>, pattern: Seq<char>) -> bool {
    exists|i: int| occurs_at(s, pattern, i)
}

/// Whether `pattern` stands in `v` at position `at`.
pub fn has_at(v: &Vec<char>, pattern: &Vec<char>, at: usize) -> (r: bool)
    ensures
        r == occurs_at(v@, pattern@, at as int),
{
    if pattern.len() > v.len() || at > v.len() - pattern.len() {
        return false;
    }
    let mut k: usize = 0;
    while k < pattern.len()
        invariant
            k <= pattern.len(),
            at + pattern.len() <= v.len(),
            v@.subrange(at as int, at + k) == pattern@.take(k as int),
        decreases pattern.len() - k,
    {
        if v[at + k] != pattern[k] {
            assert(v@.subrange(at as int, at + pattern.len())[k as int] != pattern@[k as int]);
            return false;
        }
        assert(v@.subrange(at as int, at + k + 1) == v@.subrange(at as int, at + k).push(
            v@[at + k],
        ));
        assert(pattern@.take(k + 1) == pattern@.take(k as int).push(pattern@[k as int]));
        k += 1;
    }
    assert(pattern@.take(k as int) == pattern@);
    true
}

/// Whether `v` begins with `prefix`.
pub fn has_prefix(v: &Vec<char>, prefix: &Vec<char>) -> (r: bool)
    ensures
        r == starts_with(v@, prefix@),
{
    assert(prefix.len() <= v.len() ==> v@.take(prefix.len() as int) == v@.subrange(
        0,
        0 + prefix.len(),
    ));
    has_at(v, prefix, 0)
}

/// Whether `v` ends with `suffix`.
pub fn has_suffix(v: &Vec<char>, suffix: &Vec<char>) -> (r: bool)
    ensures
        r == ends_with(v@, suffix@),
{
    if suffix.len() > v.len() {
        return false;
    }
    assert(v@.skip(v.len() - suffix.len()) == v@.subrange(
        v.len() - suffix.len(),
        v.len() - suffix.len() + suffix.len(),
    ));
    has_at(v, suffix, v.len() - suffix.len())
}

/// Whether `pattern` stands somewhere in `v`.
pub fn has_text(v: &Vec<char>, pattern: &Vec<char>) -> (r: bool)
    ensures
        r == contains(v@, pattern@),
{
    if pattern.len() > v.len() {
        return false;
    }
    let last: usize = v.len() - pattern.len();
    let mut i: usize = 0;
    while i < last
        invariant
            i <= last,
            last == v.len() - pattern.len(),
            forall|j: int| 0 <= j < i ==> !occurs_at(v@, pattern@, j),
        decreases last - i,
    {
        if has_at(v, pattern, i) {
            return true;
        }
        i += 1;
    }
    has_at(v, pattern, last)
}

/// `s` without the occurrences of `c`.
pub open spec fn without_char(s: Seq<char>, c: char) -> Seq<char>
    decreases s.len(),
{
    if s.len() == 0 {
        s
    } else if s.last() == c {
        without_char(s.drop_last(), c)
    } else {
        without_char(s.drop_last(), c).push(s.last())
    }
}

/// `v[from..to]` without the occurrences of `c`.
pub fn remove_char(v: &Vec<char>, from: usize, to: usize, c: char) -> (r: Vec<char>)
    requires
        from <= to <= v.len(),
    ensures
        r@ == without_char(v@.subrange(from as int, to as int), c),
{
    let mut r: Vec<char> = Vec::new();
    let mut i: usize = from;
    while i < to
        invariant
            from <= i <= to <= v.len(),
            r@ == without_char(v@.subrange(from as int, i as int), c),
        decreases to - i,
    {
        assert(v@.subrange(from as int, i + 1).drop_last() == v@.subrange(
            from as int,
            i as int,
        ));
        if v[i] != c {
            r.push(v[i]);
        }
        i += 1;
    }
    r
}

/// `s` with each `from` turned into `to`.
pub open spec fn replace_char(s: Seq<char>, from: char, to: char) -> Seq<char> {
    Seq::new(
        s.len(),
        |i: int|
            if s[i] == from {
                to
            } else {
                s[i]
            },
    )
}

/// `v` with each `from` turned into `to`.
pub fn replaced_char(v: &Vec<char>, from: char, to: char) -> (r: Vec<char>)
    ensures
        r@ == replace_char(v@, from, to),
{
    let mut r: Vec<char> = Vec::new();
    let mut i: usize = 0;
    while i < v.len()
        invariant
            i <= v.len(),
            r@ == replace_char(v@.take(i as int), from, to),
        decreases v.len() - i,
    {
        r.push(if v[i] == from {
            to
        } else {
            v[i]
        });
        assert(r@ == replace_char(v@.take(i + 1), from, to));
        i += 1;
    }
    assert(v@.take(i as int) == v@);
    r
}

/// Appends the characters of `s` to `out`.
pub fn push_text(out: &mut Vec<char>, s: &str)
    ensures
        final(out)@ == old(out)@ + s@,
{
    let ghost start = out@;
    for c in it: s.chars()
        invariant
            out@ == start + it.seq().take(it.index()),
            it.seq() == s@,
    {
        out.push(c);
        assert(it.seq().take(it.index() + 1) == it.seq().take(it.index()).push(c));
    }
    assert(s@.take(s@.len() as int) == s@);
}

/// Appends the characters of `v` to `out`.
pub fn push_chars(out: &mut Vec<char>, v: &Vec<char>)
    ensures
        final(out)@ == old(out)@ + v@,
{
    let ghost start = out@;
    let mut i: usize = 0;
    while i < v.len()
        invariant
            i <= v.len(),
            out@ == start + v@.take(i as int),
        decreases v.len() - i,
    {
        out.push(v[i]);
        assert(v@.take(i + 1) == v@.take(i as int).push(v@[i as int]));
        i += 1;
    }
    assert(v@.take(i as int) == v@);
}

/// Whether `a` comes strictly before `b` in the order of a dictionary, by
/// the characters' code points: at the first place where the two differ `a`
/// has the smaller character, or `a` ends there and `b` goes on.
pub open spec fn precedes(a: Seq<char>, b: Seq<char>) -> bool {
    exists|k: int| differs_first_at(a, b, k)
}

/// Whether `a` and `b` agree before place `k`, and `a` is the smaller there.
pub open spec fn differs_first_at(a: Seq<char>, b: Seq<char>, k: int) -> bool {
    &&& 0 <= k <= a.len()
    &&& k < b.len()
    &&& a.take(k) == b.take(k)
    &&& k < a.len() ==> (a[k] as u32) < (b[k] as u32)
}

/// Whether `a` comes strictly before `b`.
pub fn comes_before(a: &Vec<char>, b: &Vec<char>) -> (r: bool)
    ensures
        r == precedes(a@, b@),
{
    let mut i: usize = 0;
    while i < a.len() && i < b.len() && a[i] == b[i]
        invariant
            i <= a.len(),
            i <= b.len(),
            a@.take(i as int) == b@.take(i as int),
        decreases a.len() - i,
    {
        assert(a@.take(i + 1) == a@.take(i as int).push(a@[i as int]));
        assert(b@.take(i + 1) == b@.take(i as int).push(b@[i as int]));
        i += 1;
    }
    let r = i < b.len() && (i == a.len() || (a[i] as u32) < (b[i] as u32));
    proof {
        if r {
            assert(differs_first_at(a@, b@, i as int));
        } else {
            assert forall|k: int| !differs_first_at(a@, b@, k) by {
                if differs_first_at(a@, b@, k) {
                    if k < i {
                        assert(a@.take(i as int)[k] == b@.take(i as int)[k]);
                    } else if k > i {
                        assert(a@.take(k)[i as int] == b@.take(k)[i as int]);
                    }
                }
            }
        }
    }
    r
}

/// The order of a dictionary never holds both ways.
pub proof fn precedes_is_one_way(a: Seq<char>, b: Seq<char>)
    ensures
        !(precedes(a, b) && precedes(b, a)),
        !precedes(a, a),
{
    if precedes(a, b) && precedes(b, a) {
        let k = choose|k: int| differs_first_at(a, b, k);
        let m = choose|m: int| differs_first_at(b, a, m);
        if k < m {
            assert(b.take(m)[k] == a.take(m)[k]);
        } else if m < k {
            assert(a.take(k)[m] == b.take(k)[m]);
        }
    }
}

/// The order of a dictionary carries over: what comes before something that
/// comes before a third comes before the third.
pub proof fn precedes_carries_over(a: Seq<char>, b: Seq<char>, c: Seq<char>)
    requires
        precedes(a, b),
        precedes(b, c),
    ensures
        precedes(a, c),
{
    let k = choose|k: int| differs_first_at(a, b, k);
    let m = choose|m: int| differs_first_at(b, c, m);
    let n = if k <= m {
        k
    } else {
        m
    };
    assert(a.take(n) == a.take(k).take(n));
    assert(b.take(n) == b.take(k).take(n));
    assert(b.take(n) == b.take(m).take(n));
    assert(c.take(n) == c.take(m).take(n));
    if k < m {
        assert(b.take(m)[k] == c.take(m)[k]);
    } else if m < k {
        assert(a.take(k)[m] == b.take(k)[m]);
    }
    assert(differs_first_at(a, c, n));
}

/// The first place at or after `from` where `a` and `b` differ; the length
/// of the shorter where they do not.
pub open spec fn first_difference(a: Seq<char>, b: Seq<char>, from: int) -> int
    decreases a.len() - from,
{
    if 0 <= from < a.len() && from < b.len() && a[from] == b[from] {
        first_difference(a, b, from + 1)
    } else {
        from
    }
}

proof fn first_difference_is_first(a: Seq<char>, b: Seq<char>, from: int)
    requires
        0 <= from <= a.len(),
        from <= b.len(),
        a.take(from) == b.take(from),
    ensures
        from <= first_difference(a, b, from) <= a.len(),
        first_difference(a, b, from) <= b.len(),
        a.take(first_difference(a, b, from)) == b.take(first_difference(a, b, from)),
        first_difference(a, b, from) < a.len() && first_difference(a, b, from) < b.len() ==> a[first_difference(
            a,
            b,
            from,
        )] != b[first_difference(a, b, from)],
    decreases a.len() - from,
{
    if from < a.len() && from < b.len() && a[from] == b[from] {
        assert(a.take(from + 1) == a.take(from).push(a[from]));
        assert(b.take(from + 1) == b.take(from).push(b[from]));
        first_difference_is_first(a, b, from + 1);
    }
}

/// Of two different texts one comes before the other.
pub proof fn precedes_decides(a: Seq<char>, b: Seq<char>)
    ensures
        a == b || precedes(a, b) || precedes(b, a),
{
    assert(a.take(0) == b.take(0));
    first_difference_is_first(a, b, 0);
    let k = first_difference(a, b, 0);
    if k == a.len() && k == b.len() {
        assert(a.take(k) == a);
        assert(b.take(k) == b);
    } else if k == a.len() {
        assert(differs_first_at(a, b, k));
    } else if k == b.len() {
        assert(differs_first_at(b, a, k));
    } else {
        let x: char = a[k];
        let y: char = b[k];
        vstd::utf8::char_u32_cast(x, x as u32);
        vstd::utf8::char_u32_cast(y, y as u32);
        if (x as u32) < (y as u32) {
            assert(differs_first_at(a, b, k));
        } else {
            assert(differs_first_at(b, a, k));
        }
    }
}

/// `s` without the occurrences of `pattern`, found from the left, each
/// search going on behind the occurrence before it. An empty pattern takes
/// nothing away.
pub open spec fn without_text(s: Seq<char>, pattern: Seq<char>) -> Seq<char>
    decreases s.len(),
{
    if pattern.len() == 0 || s.len() == 0 {
        s
    } else if starts_with(s, pattern) {
        without_text(s.skip(pattern.len() as int), pattern)
    } else {
        seq![s[0]] + without_text(s.drop_first(), pattern)
    }
}

/// `v` without the occurrences of `pattern`.
pub fn remove_text(v: &Vec<char>, pattern: &Vec<char>) -> (r: Vec<char>)
    ensures
        r@ == without_text(v@, pattern@),
{
    let mut r: Vec<char> = Vec::new();
    let mut i: usize = 0;
    assert(v@.skip(0) == v@);
    while i < v.len()
        invariant
            i <= v.len(),
            without_text(v@, pattern@) == r@ + without_text(v@.skip(i as int), pattern@),
        decreases v.len() - i,
    {
        let ghost rest = v@.skip(i as int);
        assert(rest.len() > 0);
        if pattern.len() == 0 {
            r.push(v[i]);
            assert(rest == seq![v@[i as int]] + v@.skip(i + 1));
            assert(without_text(rest, pattern@) == rest);
            assert(without_text(v@.skip(i + 1), pattern@) == v@.skip(i + 1)) by {
                if v@.skip(i + 1).len() == 0 {
                }
            }
            assert(r@ + v@.skip(i + 1) == (r@.drop_last() + rest));
            i += 1;
        } else {
            let found = has_at(v, pattern, i);
            assert(found == starts_with(rest, pattern@)) by {
                if i + pattern.len() <= v.len() {
                    assert(rest.take(pattern.len() as int) == v@.subrange(
                        i as int,
                        i + pattern.len(),
                    ));
                }
            }
            if found {
                assert(rest.skip(pattern.len() as int) == v@.skip(i + pattern.len()));
                i += pattern.len();
            } else {
                let ghost before = r@;
                r.push(v[i]);
                assert(rest.drop_first() == v@.skip(i + 1));
                assert(rest[0] == v@[i as int]);
                assert(r@ + without_text(v@.skip(i + 1), pattern@) == before + (seq![rest[0]]
                    + without_text(rest.drop_first(), pattern@)));
                i += 1;
            }
        }
    }
    assert(without_text(v@.skip(i as int), pattern@).len() == 0);
    assert(r@ + without_text(v@.skip(i as int), pattern@) == r@);
    r
}

} // verus!
