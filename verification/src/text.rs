//! Character-level text utilities shared by the compiler stages.
//!
//! The pipeline works internally on `Vec<char>` buffers so that every
//! transformation can be specified over `Seq<char>` views. Conversion from
//! buffers back to `String` is the single trusted boundary with std.

use vstd::prelude::*;

verus! {

/// Whitespace recognized by trimming: the ASCII space and control whitespace.
pub open spec fn is_space(c: char) -> bool {
    c == ' ' || c == '\t' || c == '\n' || c == '\r'
}

/// Index of the first non-space character at or after `i`.
pub open spec fn skip_spaces(s: Seq<char>, i: int) -> int
    decreases s.len() - i when 0 <= i <= s.len()
{
    if i < s.len() && is_space(s[i]) {
        skip_spaces(s, i + 1)
    } else {
        i
    }
}

/// Index just past the last non-space character at or before `j`.
pub open spec fn rskip_spaces(s: Seq<char>, j: int) -> int
    decreases j when 0 <= j <= s.len()
{
    if j > 0 && is_space(s[j - 1]) {
        rskip_spaces(s, j - 1)
    } else {
        j
    }
}

/// The string with leading and trailing whitespace removed.
pub open spec fn trim_spec(s: Seq<char>) -> Seq<char> {
    let a = skip_spaces(s, 0);
    if a == s.len() {
        Seq::empty()
    } else {
        s.subrange(a, rskip_spaces(s, s.len() as int))
    }
}

pub proof fn lemma_skip_spaces_bounds(s: Seq<char>, i: int)
    requires
        0 <= i <= s.len(),
    ensures
        i <= skip_spaces(s, i) <= s.len(),
        skip_spaces(s, i) < s.len() ==> !is_space(s[skip_spaces(s, i)]),
    decreases s.len() - i,
{
    if i < s.len() && is_space(s[i]) {
        lemma_skip_spaces_bounds(s, i + 1);
    }
}

pub proof fn lemma_rskip_spaces_bounds(s: Seq<char>, j: int)
    requires
        0 <= j <= s.len(),
    ensures
        0 <= rskip_spaces(s, j) <= j,
        rskip_spaces(s, j) > 0 ==> !is_space(s[rskip_spaces(s, j) - 1]),
    decreases j,
{
    if j > 0 && is_space(s[j - 1]) {
        lemma_rskip_spaces_bounds(s, j - 1);
    }
}

/// When a non-space character exists at position `a`, trimming from the right
/// never passes it.
pub proof fn lemma_rskip_spaces_above(s: Seq<char>, a: int, j: int)
    requires
        0 <= a < j <= s.len(),
        !is_space(s[a]),
    ensures
        rskip_spaces(s, j) > a,
    decreases j,
{
    if j > 0 && is_space(s[j - 1]) {
        if a < j - 1 {
            lemma_rskip_spaces_above(s, a, j - 1);
        }
    }
}

/// Index of the first occurrence of `c` at or after `i`, or -1 when absent.
pub open spec fn find_char_spec(s: Seq<char>, i: int, c: char) -> int
    decreases s.len() - i when 0 <= i <= s.len()
{
    if i >= s.len() {
        -1
    } else if s[i] == c {
        i
    } else {
        find_char_spec(s, i + 1, c)
    }
}

pub proof fn lemma_find_char_bounds(s: Seq<char>, i: int, c: char)
    requires
        0 <= i <= s.len(),
    ensures
        find_char_spec(s, i, c) == -1 || i <= find_char_spec(s, i, c) < s.len(),
        find_char_spec(s, i, c) >= 0 ==> s[find_char_spec(s, i, c)] == c,
    decreases s.len() - i,
{
    if i < s.len() && s[i] != c {
        lemma_find_char_bounds(s, i + 1, c);
    }
}

/// Turns a character buffer into a `String`.
///
/// Relies on `core::iter::Iterator::collect` (via `String`'s `FromIterator`):
/// collecting chars yields the string of exactly those chars in order.
#[verifier::external_body]
pub fn chars_to_string(v: &Vec<char>) -> (r: String)
    ensures
        r@ == v@,
{
    v.iter().collect()
}

/// The characters of a string slice, as a buffer.
pub fn str_to_chars(s: &str) -> (r: Vec<char>)
    ensures
        r@ == s@,
{
    let n = s.unicode_len();
    let mut r: Vec<char> = Vec::new();
    let mut i: usize = 0;
    while i < n
        invariant
            n == s@.len(),
            i <= n,
            r@ == s@.subrange(0, i as int),
        decreases n - i,
    {
        r.push(s.get_char(i));
        assert(r@ =~= s@.subrange(0, i + 1 as int));
        i = i + 1;
    }
    assert(r@ =~= s@);
    r
}

/// Copy of `v[start..end]`.
pub fn sub_vec(v: &Vec<char>, start: usize, end: usize) -> (r: Vec<char>)
    requires
        start <= end <= v@.len(),
    ensures
        r@ == v@.subrange(start as int, end as int),
{
    let mut r: Vec<char> = Vec::new();
    let mut i: usize = start;
    while i < end
        invariant
            start <= i <= end <= v@.len(),
            r@ == v@.subrange(start as int, i as int),
        decreases end - i,
    {
        r.push(v[i]);
        assert(r@ =~= v@.subrange(start as int, i + 1 as int));
        i = i + 1;
    }
    r
}

/// Appends the characters of `s` to `out`.
pub fn push_str_chars(out: &mut Vec<char>, s: &str)
    ensures
        final(out)@ == old(out)@ + s@,
{
    let n = s.unicode_len();
    let mut i: usize = 0;
    while i < n
        invariant
            n == s@.len(),
            i <= n,
            out@ == old(out)@ + s@.subrange(0, i as int),
        decreases n - i,
    {
        out.push(s.get_char(i));
        assert(out@ =~= old(out)@ + s@.subrange(0, i + 1 as int));
        i = i + 1;
    }
    assert(out@ =~= old(out)@ + s@);
}

/// Appends the characters of `v` to `out`.
pub fn push_vec_chars(out: &mut Vec<char>, v: &Vec<char>)
    ensures
        final(out)@ == old(out)@ + v@,
{
    let n = v.len();
    let mut i: usize = 0;
    while i < n
        invariant
            n == v@.len(),
            i <= n,
            out@ == old(out)@ + v@.subrange(0, i as int),
        decreases n - i,
    {
        out.push(v[i]);
        assert(out@ =~= old(out)@ + v@.subrange(0, i + 1 as int));
        i = i + 1;
    }
    assert(out@ =~= old(out)@ + v@);
}

/// Whether two string slices hold the same characters.
pub fn str_eq(a: &str, b: &str) -> (r: bool)
    ensures
        r == (a@ == b@),
{
    let na = a.unicode_len();
    let nb = b.unicode_len();
    if na != nb {
        assert(a@ != b@);
        return false;
    }
    let mut i: usize = 0;
    while i < na
        invariant
            na == a@.len(),
            na == b@.len(),
            i <= na,
            forall|k: int| 0 <= k < i ==> a@[k] == b@[k],
        decreases na - i,
    {
        if a.get_char(i) != b.get_char(i) {
            return false;
        }
        i = i + 1;
    }
    assert(a@ =~= b@);
    true
}

/// `v[start..end]` trimmed of surrounding whitespace.
pub fn trim_sub(v: &Vec<char>, start: usize, end: usize) -> (r: Vec<char>)
    requires
        start <= end <= v@.len(),
    ensures
        r@ == trim_spec(v@.subrange(start as int, end as int)),
{
    let s = sub_vec(v, start, end);
    let ghost sq = v@.subrange(start as int, end as int);
    let n = s.len();
    let mut a: usize = 0;
    while a < n && is_space_exec(s[a])
        invariant
            n == sq.len(),
            s@ == sq,
            0 <= a <= n,
            skip_spaces(sq, 0) == skip_spaces(sq, a as int),
        decreases n - a,
    {
        a = a + 1;
    }
    assert(a == skip_spaces(sq, 0));
    if a == n {
        let r: Vec<char> = Vec::new();
        assert(r@ =~= trim_spec(sq));
        return r;
    }
    let mut b: usize = n;
    while b > 0 && is_space_exec(s[b - 1])
        invariant
            n == sq.len(),
            s@ == sq,
            0 <= b <= n,
            rskip_spaces(sq, n as int) == rskip_spaces(sq, b as int),
        decreases b,
    {
        b = b - 1;
    }
    assert(b == rskip_spaces(sq, n as int));
    proof {
        lemma_skip_spaces_bounds(sq, 0);
        lemma_rskip_spaces_above(sq, a as int, n as int);
    }
    let r = sub_vec(&s, a, b);
    assert(r@ =~= trim_spec(sq));
    r
}

/// Executable test for [`is_space`].
pub fn is_space_exec(c: char) -> (r: bool)
    ensures
        r == is_space(c),
{
    c == ' ' || c == '\t' || c == '\n' || c == '\r'
}

/// Index of the first occurrence of `c` in `v` at or after `from`.
pub fn find_char(v: &Vec<char>, from: usize, c: char) -> (r: Option<usize>)
    requires
        from <= v@.len(),
    ensures
        match r {
            Some(i) => from <= i < v@.len() && find_char_spec(v@, from as int, c) == i,
            None => find_char_spec(v@, from as int, c) == -1,
        },
{
    let n = v.len();
    let mut i: usize = from;
    while i < n
        invariant
            n == v@.len(),
            from <= i <= n,
            find_char_spec(v@, from as int, c) == find_char_spec(v@, i as int, c),
        decreases n - i,
    {
        if v[i] == c {
            return Some(i);
        }
        i = i + 1;
    }
    None
}

/// Whether `s` begins with the characters of `p`.
pub open spec fn has_prefix(s: Seq<char>, p: Seq<char>) -> bool {
    s.len() >= p.len() && s.subrange(0, p.len() as int) == p
}

/// Whether `m` occurs as a contiguous substring of `s`.
pub open spec fn contains_seq(s: Seq<char>, m: Seq<char>) -> bool {
    exists|i: int|
        0 <= i && i + m.len() <= s.len() && #[trigger] s.subrange(i, i + m.len() as int) == m
}

/// Executable prefix test of a buffer against a string slice.
pub fn starts_with_str(v: &Vec<char>, p: &str) -> (r: bool)
    ensures
        r == has_prefix(v@, p@),
{
    let m = p.unicode_len();
    if v.len() < m {
        return false;
    }
    let mut i: usize = 0;
    while i < m
        invariant
            m == p@.len(),
            m <= v@.len(),
            i <= m,
            forall|k: int| 0 <= k < i ==> v@[k] == p@[k],
        decreases m - i,
    {
        if v[i] != p.get_char(i) {
            assert(v@.subrange(0, m as int)[i as int] != p@[i as int]);
            return false;
        }
        i = i + 1;
    }
    assert(v@.subrange(0, m as int) =~= p@);
    true
}

} // verus!
