//! Character-level string helpers shared by the header parsers and the
//! text renderers: collecting a `str` into characters, Unicode whitespace
//! trimming, prefix tests and building `String`s from characters.

use vstd::prelude::*;

verus! {

/// Unicode `White_Space` property, the definition `char::is_whitespace`
/// and `str::trim` use.
pub open spec fn is_ws(c: char) -> bool {
    let n = c as u32;
    ||| 0x09 <= n <= 0x0D
    ||| n == 0x20
    ||| n == 0x85
    ||| n == 0xA0
    ||| n == 0x1680
    ||| 0x2000 <= n <= 0x200A
    ||| n == 0x2028
    ||| n == 0x2029
    ||| n == 0x202F
    ||| n == 0x205F
    ||| n == 0x3000
}

/// `s` without its leading whitespace.
pub open spec fn trim_start(s: Seq<char>) -> Seq<char>
    decreases s.len(),
{
    if s.len() > 0 && is_ws(s[0]) {
        trim_start(s.drop_first())
    } else {
        s
    }
}

/// `s` without its trailing whitespace.
pub open spec fn trim_end(s: Seq<char>) -> Seq<char>
    decreases s.len(),
{
    if s.len() > 0 && is_ws(s.last()) {
        trim_end(s.drop_last())
    } else {
        s
    }
}

/// `s` without leading and trailing whitespace.
pub open spec fn trim(s: Seq<char>) -> Seq<char> {
    trim_end(trim_start(s))
}

/// Whether `c` has the Unicode `White_Space` property.
pub fn is_whitespace(c: char) -> (res: bool)
    ensures
        res == is_ws(c),
{
    let n = c as u32;
    (0x09 <= n && n <= 0x0D) || n == 0x20 || n == 0x85 || n == 0xA0 || n == 0x1680 || (0x2000
        <= n && n <= 0x200A) || n == 0x2028 || n == 0x2029 || n == 0x202F || n == 0x205F || n
        == 0x3000
}

/// Collects the characters of `s` in order.
pub fn chars_of(s: &str) -> (res: Vec<char>)
    ensures
        res@ == s@,
{
    let mut out: Vec<char> = Vec::new();
    for c in it: s.chars()
        invariant
            out@ == it.seq().take(it.index() as int),
    {
        out.push(c);
    }
    out
}

/// Appends one character to `s` (std's `String::push`).
#[verifier::external_body]
pub fn push_char(s: &mut String, c: char)
    ensures
        final(s)@ == old(s)@.push(c),
{
    s.push(c);
}

/// Appends the characters `cs[from..to]` to `s`.
pub fn push_chars(s: &mut String, cs: &[char], from: usize, to: usize)
    requires
        from <= to <= cs@.len(),
    ensures
        final(s)@ == old(s)@ + cs@.subrange(from as int, to as int),
{
    let mut i = from;
    while i < to
        invariant
            from <= i <= to <= cs@.len(),
            s@ == old(s)@ + cs@.subrange(from as int, i as int),
        decreases to - i,
    {
        push_char(s, cs[i]);
        assert(cs@.subrange(from as int, i + 1) =~= cs@.subrange(from as int, i as int).push(
            cs@[i as int],
        ));
        i += 1;
    }
}

/// A `String` holding the characters `cs[from..to]`.
pub fn string_of(cs: &[char], from: usize, to: usize) -> (res: String)
    requires
        from <= to <= cs@.len(),
    ensures
        res@ == cs@.subrange(from as int, to as int),
{
    let mut s = String::new();
    push_chars(&mut s, cs, from, to);
    s
}

/// Index of the first character at or after `from` that is not whitespace
/// (or `cs.len()`), so that `trim_start(cs[from..]) == cs[res..]`.
pub fn skip_ws_forward(cs: &[char], from: usize) -> (res: usize)
    requires
        from <= cs@.len(),
    ensures
        from <= res <= cs@.len(),
        trim_start(cs@.subrange(from as int, cs@.len() as int)) == cs@.subrange(
            res as int,
            cs@.len() as int,
        ),
{
    let mut i = from;
    while i < cs.len() && is_whitespace(cs[i])
        invariant
            from <= i <= cs@.len(),
            trim_start(cs@.subrange(from as int, cs@.len() as int)) == trim_start(
                cs@.subrange(i as int, cs@.len() as int),
            ),
        decreases cs@.len() - i,
    {
        assert(cs@.subrange(i as int, cs@.len() as int).drop_first() =~= cs@.subrange(
            i + 1,
            cs@.len() as int,
        ));
        i += 1;
    }
    i
}

/// One past the last character before `to` (and at or after `from`) that
/// is not whitespace, so that `trim_end(cs[from..to]) == cs[from..res]`.
pub fn skip_ws_backward(cs: &[char], from: usize, to: usize) -> (res: usize)
    requires
        from <= to <= cs@.len(),
    ensures
        from <= res <= to,
        trim_end(cs@.subrange(from as int, to as int)) == cs@.subrange(from as int, res as int),
{
    let mut j = to;
    while j > from && is_whitespace(cs[j - 1])
        invariant
            from <= j <= to <= cs@.len(),
            trim_end(cs@.subrange(from as int, to as int)) == trim_end(
                cs@.subrange(from as int, j as int),
            ),
        decreases j - from,
    {
        assert(cs@.subrange(from as int, j as int).drop_last() =~= cs@.subrange(
            from as int,
            j - 1,
        ));
        j -= 1;
    }
    j
}

/// Bounds `(start, end)` of `trim(cs[from..to])` inside `cs`.
pub fn trim_bounds(cs: &[char], from: usize, to: usize) -> (res: (usize, usize))
    requires
        from <= to <= cs@.len(),
    ensures
        from <= res.0 <= res.1 <= to,
        trim(cs@.subrange(from as int, to as int)) == cs@.subrange(res.0 as int, res.1 as int),
{
    let ghost part = cs@.subrange(from as int, to as int);
    let mut i = from;
    while i < to && is_whitespace(cs[i])
        invariant
            from <= i <= to <= cs@.len(),
            trim_start(part) == trim_start(cs@.subrange(i as int, to as int)),
        decreases to - i,
    {
        assert(cs@.subrange(i as int, to as int).drop_first() =~= cs@.subrange(i + 1, to as int));
        i += 1;
    }
    assert(trim_start(part) == cs@.subrange(i as int, to as int));
    let j = skip_ws_backward(cs, i, to);
    (i, j)
}

/// Whether `s[from..]` starts with `prefix`.
pub fn has_prefix_at(s: &[char], from: usize, prefix: &[char]) -> (res: bool)
    requires
        from <= s@.len(),
    ensures
        res == prefix@.is_prefix_of(s@.subrange(from as int, s@.len() as int)),
{
    if s.len() - from < prefix.len() {
        return false;
    }
    let mut k: usize = 0;
    while k < prefix.len()
        invariant
            0 <= k <= prefix@.len(),
            from + prefix@.len() <= s.len(),
            forall|m: int| 0 <= m < k ==> prefix@[m] == s@[from + m],
        decreases prefix@.len() - k,
    {
        if prefix[k] != s[from + k] {
            return false;
        }
        k += 1;
    }
    true
}

/// Whether the two character sequences are equal.
pub fn chars_eq(a: &[char], b: &[char]) -> (res: bool)
    ensures
        res == (a@ == b@),
{
    if a.len() != b.len() {
        return false;
    }
    let mut k: usize = 0;
    while k < a.len()
        invariant
            0 <= k <= a@.len(),
            a@.len() == b@.len(),
            forall|m: int| 0 <= m < k ==> a@[m] == b@[m],
        decreases a@.len() - k,
    {
        if a[k] != b[k] {
            return false;
        }
        k += 1;
    }
    assert(a@ =~= b@);
    true
}

/// Number of characters of `s` before the first `c` (or `s.len()`).
pub open spec fn index_of_char(s: Seq<char>, c: char) -> nat
    decreases s.len(),
{
    if s.len() == 0 {
        0
    } else if s[0] == c {
        0
    } else {
        1 + index_of_char(s.drop_first(), c)
    }
}

/// Characterizes [`index_of_char`] by the position it returns.
pub proof fn lemma_index_of_char(s: Seq<char>, c: char, j: int)
    requires
        0 <= j <= s.len(),
        forall|k: int| 0 <= k < j ==> s[k] != c,
        j == s.len() || s[j] == c,
    ensures
        index_of_char(s, c) == j,
    decreases j,
{
    if j > 0 {
        lemma_index_of_char(s.drop_first(), c, j - 1);
    }
}

/// Position of the first `c` in `cs[from..to]`, or `to`.
pub fn find_char(cs: &[char], from: usize, to: usize, c: char) -> (res: usize)
    requires
        from <= to <= cs@.len(),
    ensures
        from <= res <= to,
        index_of_char(cs@.subrange(from as int, to as int), c) == res - from,
{
    let mut k = from;
    while k < to && cs[k] != c
        invariant
            from <= k <= to <= cs@.len(),
            forall|m: int| from <= m < k ==> cs@[m] != c,
        decreases to - k,
    {
        k += 1;
    }
    proof {
        lemma_index_of_char(cs@.subrange(from as int, to as int), c, k - from);
    }
    k
}

} // verus!
