//! Page references: the `(site, page)` identifier used by link and include
//! syntax.
//!
//! The textual forms are `page` and `component:page` (on-site; embedded
//! colons stay part of the opaque page identifier) and `:site:page` /
//! `:site:component:page` (off-site). Parsing is the sole hard-error path of
//! the data layer: it fails exactly on input that is empty after trimming, or
//! on off-site syntax whose site or page segment is missing or blank.

use vstd::prelude::*;
use crate::text::{
    chars_to_string, find_char, find_char_spec, has_prefix, is_space, lemma_find_char_bounds,
    lemma_rskip_spaces_bounds, lemma_skip_spaces_bounds, rskip_spaces, skip_spaces, str_eq,
    str_to_chars, sub_vec, trim_spec, trim_sub, push_str_chars, push_vec_chars,
};

verus! {

/// Mathematical model of a page reference: character sequences instead of
/// heap strings.
pub struct PageRefView {
    pub site: Option<Seq<char>>,
    pub page: Seq<char>,
}

/// A reference to a page, either on this wiki (`site` absent) or on another
/// (`site` present).
#[derive(Debug)]
pub struct PageRef {
    pub site: Option<String>,
    pub page: String,
}

impl View for PageRef {
    type V = PageRefView;

    open spec fn view(&self) -> PageRefView {
        PageRefView {
            site: match self.site {
                Some(s) => Some(s@),
                None => None,
            },
            page: self.page@,
        }
    }
}

/// Error returned when a page reference string cannot be parsed.
#[derive(Debug, PartialEq, Eq, Structural)]
pub struct PageRefParseError;

/// A well-formed reference: the page is never blank, and a present site is
/// never blank; both carry no surrounding whitespace.
pub open spec fn page_ref_wf(p: PageRefView) -> bool {
    &&& trim_spec(p.page) == p.page
    &&& p.page.len() > 0
    &&& match p.site {
        Some(site) => trim_spec(site) == site && site.len() > 0 && find_char_spec(
            site,
            0,
            ':',
        ) == -1,
        None => p.page[0] != ':',
    }
}

/// What parsing returns on each input, or `None` where parsing fails.
pub open spec fn parse_spec(s: Seq<char>) -> Option<PageRefView> {
    let t = trim_spec(s);
    if t.len() == 0 {
        None
    } else if t[0] == ':' {
        let idx = find_char_spec(t, 1, ':');
        if idx == -1 {
            None
        } else {
            let site = trim_spec(t.subrange(1, idx));
            let page = trim_spec(t.subrange(idx + 1, t.len() as int));
            if site.len() == 0 || page.len() == 0 {
                None
            } else {
                Some(PageRefView { site: Some(site), page })
            }
        }
    } else {
        Some(PageRefView { site: None, page: t })
    }
}

/// The canonical textual form: `:site:page` off-site, bare `page` on-site.
pub open spec fn canonical_spec(p: PageRefView) -> Seq<char> {
    match p.site {
        Some(site) => seq![':'] + site + seq![':'] + p.page,
        None => p.page,
    }
}

impl PageRef {
    /// An off-site reference.
    pub fn page_and_site(site: String, page: String) -> (r: Self)
        ensures
            r@ == (PageRefView { site: Some(site@), page: page@ }),
    {
        PageRef { site: Some(site), page }
    }

    /// An on-site reference.
    pub fn page_only(page: String) -> (r: Self)
        ensures
            r@ == (PageRefView { site: None, page: page@ }),
    {
        PageRef { site: None, page }
    }

    /// The site, when the reference is off-site.
    pub fn site(&self) -> (r: Option<&str>)
        ensures
            match r {
                Some(s) => self@.site == Some(s@),
                None => self@.site is None,
            },
    {
        match &self.site {
            Some(s) => Some(s.as_str()),
            None => None,
        }
    }

    /// The page identifier.
    pub fn page(&self) -> (r: &str)
        ensures
            r@ == self@.page,
    {
        self.page.as_str()
    }

    /// Both coordinates at once.
    pub fn fields(&self) -> (r: (Option<&str>, &str))
        ensures
            match r.0 {
                Some(s) => self@.site == Some(s@),
                None => self@.site is None,
            },
            r.1@ == self@.page,
    {
        (self.site(), self.page())
    }

    /// Like [`Self::fields`], but falls back to `current_site` for on-site
    /// references.
    pub fn fields_or<'a>(&'a self, current_site: &'a str) -> (r: (&'a str, &'a str))
        ensures
            r.0@ == match self@.site {
                Some(site) => site,
                None => current_site@,
            },
            r.1@ == self@.page,
    {
        let site = match &self.site {
            Some(s) => s.as_str(),
            None => current_site,
        };
        (site, self.page.as_str())
    }

    /// Parses a page reference string.
    ///
    /// Fails exactly when the trimmed input is empty, or when the off-site
    /// form lacks a second colon or has a blank site or page segment.
    pub fn parse(s: &str) -> (r: Result<PageRef, PageRefParseError>)
        ensures
            match r {
                Ok(p) => parse_spec(s@) == Some(p@) && page_ref_wf(p@),
                Err(e) => parse_spec(s@) is None,
            },
    {
        let chars = str_to_chars(s);
        let n = chars.len();
        let t = trim_sub(&chars, 0, n);
        proof {
            assert(chars@.subrange(0, n as int) =~= s@);
        }
        let tn = t.len();
        if tn == 0 {
            return Err(PageRefParseError);
        }
        if t[0] == ':' {
            let idx_opt = find_char(&t, 1, ':');
            match idx_opt {
                None => Err(PageRefParseError),
                Some(idx) => {
                    let site = trim_sub(&t, 1, idx);
                    let page = trim_sub(&t, idx + 1, tn);
                    proof {
                        lemma_find_char_bounds(t@, 1, ':');
                    }
                    if site.len() == 0 || page.len() == 0 {
                        return Err(PageRefParseError);
                    }
                    proof {
                        lemma_parsed_wf(s@);
                    }
                    Ok(PageRef {
                        site: Some(chars_to_string(&site)),
                        page: chars_to_string(&page),
                    })
                },
            }
        } else {
            proof {
                lemma_parsed_wf(s@);
            }
            Ok(PageRef { site: None, page: chars_to_string(&t) })
        }
    }

    /// An input-independent copy.
    pub fn to_owned(&self) -> (r: PageRef)
        ensures
            r@ == self@,
    {
        let site = match &self.site {
            Some(s) => Some(s.clone()),
            None => None,
        };
        PageRef { site, page: self.page.clone() }
    }

    /// The canonical textual form, `:site:page` or bare `page`.
    pub fn canonical_string(&self) -> (r: String)
        ensures
            r@ == canonical_spec(self@),
    {
        let mut out: Vec<char> = Vec::new();
        match &self.site {
            Some(site) => {
                out.push(':');
                let site_chars = str_to_chars(site.as_str());
                push_vec_chars(&mut out, &site_chars);
                out.push(':');
            },
            None => {},
        }
        let page_chars = str_to_chars(self.page.as_str());
        push_vec_chars(&mut out, &page_chars);
        proof {
            assert(out@ =~= canonical_spec(self@));
        }
        chars_to_string(&out)
    }
}

impl PartialEq for PageRef {
    fn eq(&self, other: &PageRef) -> (r: bool) {
        let page_eq = str_eq(self.page.as_str(), other.page.as_str());
        let site_eq = match (&self.site, &other.site) {
            (Some(a), Some(b)) => str_eq(a.as_str(), b.as_str()),
            (None, None) => true,
            _ => false,
        };
        page_eq && site_eq
    }
}

impl vstd::std_specs::cmp::PartialEqSpecImpl for PageRef {
    open spec fn obeys_eq_spec() -> bool {
        true
    }

    open spec fn eq_spec(&self, other: &PageRef) -> bool {
        self@ == other@
    }
}

/// A string that trims to itself stays fixed under further trimming.
pub proof fn lemma_trim_fixed(s: Seq<char>)
    requires
        s.len() > 0,
        !is_space(s[0]),
        !is_space(s[s.len() - 1]),
    ensures
        trim_spec(s) == s,
{
    assert(skip_spaces(s, 0) == 0);
    assert(rskip_spaces(s, s.len() as int) == s.len());
    assert(trim_spec(s) =~= s);
}

/// Trimming is idempotent, and a nonempty trimmed string has non-space ends.
pub proof fn lemma_trim_ends(s: Seq<char>)
    ensures
        trim_spec(s).len() > 0 ==> !is_space(trim_spec(s)[0]) && !is_space(
            trim_spec(s)[trim_spec(s).len() - 1],
        ),
        trim_spec(trim_spec(s)) == trim_spec(s),
{
    lemma_skip_spaces_bounds(s, 0);
    lemma_rskip_spaces_bounds(s, s.len() as int);
    let a = skip_spaces(s, 0);
    if a < s.len() {
        let b = rskip_spaces(s, s.len() as int);
        crate::text::lemma_rskip_spaces_above(s, a, s.len() as int);
        let t = trim_spec(s);
        assert(t[0] == s[a]);
        assert(t[t.len() - 1] == s[b - 1]);
        lemma_trim_fixed(t);
    } else {
        assert(trim_spec(s).len() == 0);
        assert(trim_spec(trim_spec(s)) =~= trim_spec(s));
    }
}

/// Characters strictly before the found position differ from the target.
pub proof fn lemma_find_char_before(s: Seq<char>, i: int, c: char, k: int)
    requires
        0 <= i <= s.len(),
        i <= k,
        k < find_char_spec(s, i, c) || (find_char_spec(s, i, c) == -1 && k < s.len()),
    ensures
        s[k] != c,
    decreases k - i,
{
    lemma_find_char_bounds(s, i, c);
    if k > i {
        lemma_find_char_bounds(s, i + 1, c);
        lemma_find_char_before(s, i + 1, c, k);
    }
}

/// Where no earlier character matches and `s[j] == c`, the search finds `j`.
pub proof fn lemma_find_char_at(s: Seq<char>, i: int, c: char, j: int)
    requires
        0 <= i <= j < s.len(),
        s[j] == c,
        forall|k: int| i <= k < j ==> s[k] != c,
    ensures
        find_char_spec(s, i, c) == j,
    decreases j - i,
{
    if i < j {
        lemma_find_char_at(s, i + 1, c, j);
    }
}

/// Every successful parse yields a well-formed reference.
pub proof fn lemma_parsed_wf(s: Seq<char>)
    ensures
        match parse_spec(s) {
            Some(p) => page_ref_wf(p),
            None => true,
        },
{
    lemma_trim_ends(s);
    let t = trim_spec(s);
    if t.len() > 0 && t[0] == ':' {
        let idx = find_char_spec(t, 1, ':');
        if idx != -1 {
            lemma_find_char_bounds(t, 1, ':');
            let site = trim_spec(t.subrange(1, idx));
            let page = trim_spec(t.subrange(idx + 1, t.len() as int));
            lemma_trim_ends(t.subrange(1, idx));
            lemma_trim_ends(t.subrange(idx + 1, t.len() as int));
            if site.len() > 0 && page.len() > 0 {
                lemma_site_no_colon(t, idx);
            }
        }
    }
}

/// The site segment of a parsed off-site form holds no colon.
proof fn lemma_site_no_colon(t: Seq<char>, idx: int)
    requires
        t.len() > 0,
        t[0] == ':',
        find_char_spec(t, 1, ':') == idx,
        1 <= idx < t.len(),
    ensures
        find_char_spec(trim_spec(t.subrange(1, idx)), 0, ':') == -1,
{
    let raw = t.subrange(1, idx);
    assert forall|m: int| 1 <= m < idx implies t[m] != ':' by {
        lemma_find_char_before(t, 1, ':', m);
    }
    let site = trim_spec(raw);
    lemma_skip_spaces_bounds(raw, 0);
    lemma_rskip_spaces_bounds(raw, raw.len() as int);
    if site.len() > 0 {
        let a = skip_spaces(raw, 0);
        let b = rskip_spaces(raw, raw.len() as int);
        assert(a < raw.len());
        crate::text::lemma_rskip_spaces_above(raw, a, raw.len() as int);
        assert(site == raw.subrange(a, b));
        assert(raw.len() == idx - 1);
        assert(0 <= a <= b <= raw.len());
        assert forall|k: int| 0 <= k < b - a implies site[k] == t.subrange(1 + a, 1 + b)[k] by {
            assert(raw.subrange(a, b)[k] == raw[a + k]);
            assert(raw[a + k] == t[1 + a + k]);
            assert(t.subrange(1 + a, 1 + b)[k] == t[1 + a + k]);
        }
        assert(site =~= t.subrange(1 + a, 1 + b));
        lemma_subrange_find_none(t, 1 + a, 1 + b, ':', 0);
    } else {
        assert(find_char_spec(site, 0, ':') == -1);
    }
}

/// A window of characters that all differ from the target yields no match.
proof fn lemma_subrange_find_none(s: Seq<char>, lo: int, hi: int, c: char, i: int)
    requires
        0 <= lo,
        lo <= lo + i <= hi <= s.len(),
        forall|m: int| lo <= m < hi ==> s[m] != c,
    ensures
        find_char_spec(s.subrange(lo, hi), i, c) == -1,
    decreases hi - lo - i,
{
    let sub = s.subrange(lo, hi);
    if i < sub.len() {
        assert(sub[i] == s[lo + i]);
        lemma_subrange_find_none(s, lo, hi, c, i + 1);
    }
}

/// Round trip: formatting a successfully parsed reference and parsing it
/// again yields the same reference. Holds for every input that parses.
pub proof fn lemma_parse_roundtrip(s: Seq<char>, p: PageRefView)
    requires
        parse_spec(s) == Some(p),
    ensures
        parse_spec(canonical_spec(p)) == Some(p),
{
    lemma_parsed_wf(s);
    lemma_canonical_parse(p);
}

/// Parsing the canonical form of any well-formed reference recovers it.
pub proof fn lemma_canonical_parse(p: PageRefView)
    requires
        page_ref_wf(p),
    ensures
        parse_spec(canonical_spec(p)) == Some(p),
{
    let c = canonical_spec(p);
    lemma_trim_ends(p.page);
    assert(!is_space(p.page[0]) && !is_space(p.page[p.page.len() - 1]));
    match p.site {
        None => {
            lemma_trim_fixed(c);
        },
        Some(site) => {
            assert(c.len() == 2 + site.len() + p.page.len());
            assert(c[0] == ':');
            assert(c[c.len() - 1] == p.page[p.page.len() - 1]);
            lemma_trim_fixed(c);
            let j = 1 + site.len() as int;
            assert(c[j] == ':');
            assert forall|k: int| 1 <= k < j implies c[k] != ':' by {
                assert(c[k] == site[k - 1]);
                crate::text::lemma_find_char_bounds(site, 0, ':');
                lemma_find_char_before(site, 0, ':', k - 1);
            }
            lemma_find_char_at(c, 1, ':', j);
            assert(c.subrange(1, j) =~= site);
            assert(c.subrange(j + 1, c.len() as int) =~= p.page);
            let got = parse_spec(c);
            assert(got == Some(
                PageRefView { site: Some(trim_spec(site)), page: trim_spec(p.page) },
            ));
            assert(got == Some(p));
        },
    }
}

} // verus!
