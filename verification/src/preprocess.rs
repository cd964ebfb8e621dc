//! Normalization of raw text before tokenizing.
//!
//! A pure, deterministic transform covering line endings and whitespace:
//! `\r\n` and lone `\r` become a single `\n`, tabs expand to four spaces,
//! and stray null characters are dropped. Running it on already-normalized
//! text changes nothing. Character entities are not rewritten here: the
//! renderers produce entity escapes at output time, so the token spans stay
//! aligned with the normalized source.

use vstd::prelude::*;
use crate::text::{chars_to_string, str_to_chars};

verus! {

/// What a tab expands to: four spaces.
pub open spec fn tab_expansion() -> Seq<char> {
    seq![' ', ' ', ' ', ' ']
}

/// The normalized form of the suffix of `s` starting at `i`: `\r\n` and
/// lone `\r` become `\n`, tabs become four spaces, and null characters
/// disappear.
pub open spec fn preprocess_from(s: Seq<char>, i: int) -> Seq<char>
    decreases s.len() - i when 0 <= i <= s.len()
{
    if i >= s.len() {
        Seq::empty()
    } else if s[i] == '\r' && i + 1 < s.len() && s[i + 1] == '\n' {
        seq!['\n'] + preprocess_from(s, i + 2)
    } else if s[i] == '\r' {
        seq!['\n'] + preprocess_from(s, i + 1)
    } else if s[i] == '\t' {
        tab_expansion() + preprocess_from(s, i + 1)
    } else if s[i] == '\0' {
        preprocess_from(s, i + 1)
    } else {
        seq![s[i]] + preprocess_from(s, i + 1)
    }
}

/// The normalized form of a whole text.
pub open spec fn preprocess_spec(s: Seq<char>) -> Seq<char> {
    preprocess_from(s, 0)
}

/// Normalizes the text in place.
pub fn preprocess(text: &mut String)
    ensures
        final(text)@ == preprocess_spec(old(text)@),
{
    let chars = str_to_chars(text.as_str());
    let ghost s = old(text)@;
    let n = chars.len();
    let mut out: Vec<char> = Vec::new();
    let mut i: usize = 0;
    while i < n
        invariant
            chars@ == s,
            n == s.len(),
            0 <= i <= n,
            preprocess_from(s, 0) == out@ + preprocess_from(s, i as int),
        decreases n - i,
    {
        let c = chars[i];
        if c == '\r' && i + 1 < n && chars[i + 1] == '\n' {
            out.push('\n');
            assert(out@ + preprocess_from(s, i + 2 as int) =~= out@.drop_last() + (seq!['\n']
                + preprocess_from(s, i + 2)));
            i = i + 2;
        } else if c == '\r' {
            out.push('\n');
            assert(out@ + preprocess_from(s, i + 1 as int) =~= out@.drop_last() + (seq!['\n']
                + preprocess_from(s, i + 1)));
            i = i + 1;
        } else if c == '\t' {
            let ghost before = out@;
            out.push(' ');
            out.push(' ');
            out.push(' ');
            out.push(' ');
            assert(out@ + preprocess_from(s, i + 1 as int) =~= before + (tab_expansion()
                + preprocess_from(s, i + 1)));
            i = i + 1;
        } else if c == '\0' {
            i = i + 1;
        } else {
            out.push(c);
            assert(out@ + preprocess_from(s, i + 1 as int) =~= out@.drop_last() + (seq![s[i as int]]
                + preprocess_from(s, i + 1)));
            i = i + 1;
        }
    }
    assert(out@ =~= out@ + preprocess_from(s, n as int));
    *text = chars_to_string(&out);
}

/// Normalized text holds no carriage return, no tab, and no null character.
pub proof fn lemma_preprocess_clean(s: Seq<char>, i: int)
    requires
        0 <= i <= s.len(),
    ensures
        forall|k: int|
            0 <= k < preprocess_from(s, i).len() ==> preprocess_from(s, i)[k] != '\r'
                && preprocess_from(s, i)[k] != '\t' && preprocess_from(s, i)[k] != '\0',
    decreases s.len() - i,
{
    if i < s.len() {
        if s[i] == '\r' && i + 1 < s.len() && s[i + 1] == '\n' {
            lemma_preprocess_clean(s, i + 2);
            assert forall|k: int|
                0 <= k < preprocess_from(s, i).len() implies preprocess_from(s, i)[k] != '\r'
                && preprocess_from(s, i)[k] != '\t' && preprocess_from(s, i)[k] != '\0' by {
                if k > 0 {
                    assert(preprocess_from(s, i)[k] == preprocess_from(s, i + 2)[k - 1]);
                } else {
                    assert(preprocess_from(s, i)[0] == '\n');
                }
            }
        } else if s[i] == '\r' {
            lemma_preprocess_clean(s, i + 1);
            assert forall|k: int|
                0 <= k < preprocess_from(s, i).len() implies preprocess_from(s, i)[k] != '\r'
                && preprocess_from(s, i)[k] != '\t' && preprocess_from(s, i)[k] != '\0' by {
                if k > 0 {
                    assert(preprocess_from(s, i)[k] == preprocess_from(s, i + 1)[k - 1]);
                } else {
                    assert(preprocess_from(s, i)[0] == '\n');
                }
            }
        } else if s[i] == '\t' {
            lemma_preprocess_clean(s, i + 1);
            assert forall|k: int|
                0 <= k < preprocess_from(s, i).len() implies preprocess_from(s, i)[k] != '\r'
                && preprocess_from(s, i)[k] != '\t' && preprocess_from(s, i)[k] != '\0' by {
                if k >= 4 {
                    assert(preprocess_from(s, i)[k] == preprocess_from(s, i + 1)[k - 4]);
                } else {
                    assert(preprocess_from(s, i)[k] == tab_expansion()[k]);
                    assert(tab_expansion()[k] == ' ');
                }
            }
        } else if s[i] == '\0' {
            lemma_preprocess_clean(s, i + 1);
            assert forall|k: int|
                0 <= k < preprocess_from(s, i).len() implies preprocess_from(s, i)[k] != '\r'
                && preprocess_from(s, i)[k] != '\t' && preprocess_from(s, i)[k] != '\0' by {
                assert(preprocess_from(s, i)[k] == preprocess_from(s, i + 1)[k]);
            }
        } else {
            lemma_preprocess_clean(s, i + 1);
            assert forall|k: int|
                0 <= k < preprocess_from(s, i).len() implies preprocess_from(s, i)[k] != '\r'
                && preprocess_from(s, i)[k] != '\t' && preprocess_from(s, i)[k] != '\0' by {
                if k > 0 {
                    assert(preprocess_from(s, i)[k] == preprocess_from(s, i + 1)[k - 1]);
                } else {
                    assert(preprocess_from(s, i)[0] == s[i]);
                }
            }
        }
    }
}

/// Text without carriage returns, tabs or nulls normalizes to itself.
pub proof fn lemma_preprocess_noop(s: Seq<char>, i: int)
    requires
        0 <= i <= s.len(),
        forall|k: int| 0 <= k < s.len() ==> s[k] != '\r' && s[k] != '\t' && s[k] != '\0',
    ensures
        preprocess_from(s, i) == s.subrange(i, s.len() as int),
    decreases s.len() - i,
{
    if i >= s.len() {
        assert(preprocess_from(s, i) =~= s.subrange(i, s.len() as int));
    } else {
        lemma_preprocess_noop(s, i + 1);
        assert(preprocess_from(s, i) =~= s.subrange(i, s.len() as int));
    }
}

/// Preprocessing is idempotent: a second pass is a no-op.
pub proof fn lemma_preprocess_idempotent(s: Seq<char>)
    ensures
        preprocess_spec(preprocess_spec(s)) == preprocess_spec(s),
{
    let t = preprocess_spec(s);
    lemma_preprocess_clean(s, 0);
    lemma_preprocess_noop(t, 0);
    assert(t.subrange(0, t.len() as int) =~= t);
}

} // verus!
