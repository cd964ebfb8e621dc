//! Small general-purpose helpers.

use vstd::prelude::*;
use crate::text::{chars_to_string, str_to_chars};

verus! {

/// The string with every occurrence of `pat` (scanned left to right,
/// non-overlapping) replaced by `rep`, from position `i` on.
pub open spec fn replace_from(s: Seq<char>, pat: Seq<char>, rep: Seq<char>, i: int) -> Seq<char>
    decreases s.len() - i when 0 <= i && pat.len() > 0
{
    if i + pat.len() <= s.len() && s.subrange(i, i + pat.len()) == pat {
        rep + replace_from(s, pat, rep, i + pat.len())
    } else if i < s.len() {
        seq![s[i]] + replace_from(s, pat, rep, i + 1)
    } else {
        Seq::empty()
    }
}

/// Whether `pat` occurs in `v` starting at `i`.
pub fn matches_at(v: &Vec<char>, i: usize, pat: &Vec<char>) -> (r: bool)
    requires
        i <= v@.len(),
    ensures
        r == (i + pat@.len() <= v@.len() && v@.subrange(i as int, i + pat@.len()) == pat@),
{
    let m = pat.len();
    let n = v.len();
    if n - i < m {
        return false;
    }
    let mut k: usize = 0;
    while k < m
        invariant
            m == pat@.len(),
            n == v@.len(),
            i + m <= n,
            0 <= k <= m,
            forall|j: int| 0 <= j < k ==> v@[i + j] == pat@[j],
        decreases m - k,
    {
        if v[i + k] != pat[k] {
            assert(v@.subrange(i as int, i + pat@.len())[k as int] != pat@[k as int]);
            return false;
        }
        k = k + 1;
    }
    assert(v@.subrange(i as int, i + pat@.len()) =~= pat@);
    true
}

/// Replaces every occurrence of `pattern` in `string` with `replacement`,
/// scanning left to right without revisiting replaced text.
pub fn replace_in_place(string: &mut String, pattern: &str, replacement: &str)
    requires
        pattern@.len() > 0,
    ensures
        final(string)@ == replace_from(old(string)@, pattern@, replacement@, 0),
{
    let chars = str_to_chars(string.as_str());
    let pat = str_to_chars(pattern);
    let rep = str_to_chars(replacement);
    let ghost s = old(string)@;
    let n = chars.len();
    let mut out: Vec<char> = Vec::new();
    let mut i: usize = 0;
    while i < n
        invariant
            chars@ == s,
            pat@ == pattern@,
            rep@ == replacement@,
            pattern@.len() > 0,
            n == s.len(),
            0 <= i <= n,
            replace_from(s, pattern@, replacement@, 0) == out@ + replace_from(
                s,
                pattern@,
                replacement@,
                i as int,
            ),
        decreases n - i,
    {
        let ghost before = out@;
        if matches_at(&chars, i, &pat) {
            crate::text::push_vec_chars(&mut out, &rep);
            assert(out@ + replace_from(s, pattern@, replacement@, i + pattern@.len()) =~= before + (
            replacement@ + replace_from(s, pattern@, replacement@, i + pattern@.len())));
            i = i + pat.len();
        } else {
            out.push(chars[i]);
            assert(out@ + replace_from(s, pattern@, replacement@, i + 1 as int) =~= before + (
            seq![s[i as int]] + replace_from(s, pattern@, replacement@, i + 1)));
            i = i + 1;
        }
    }
    assert(out@ =~= out@ + replace_from(s, pattern@, replacement@, n as int));
    *string = chars_to_string(&out);
}

} // verus!
