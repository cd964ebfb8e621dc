//! The tokenizer: normalized text to an ordered token stream.
//!
//! Tokenization is total and deterministic: every character lands in
//! exactly one token, unrecognized sequences degrade to text tokens, and
//! token spans are adjacent, non-overlapping and increasing — together they
//! partition the input.

use vstd::prelude::*;
use crate::text::chars_to_string;
use crate::tree::Span;

verus! {

/// What a token is.
#[derive(Copy, Clone, Debug, PartialEq, Eq, Structural)]
pub enum TokenKind {
    /// A run of ordinary characters.
    Text,
    /// A single newline.
    Newline,
    /// `**`, toggling bold.
    Bold,
    /// `//`, toggling italics.
    Italics,
    /// `[[[`, opening a link.
    LeftLink,
    /// `]]]`, closing a link.
    RightLink,
    /// `[[`, opening a tag block.
    LeftTag,
    /// `]]`, closing a tag block.
    RightTag,
    /// `|`, separating a link target from its label.
    Pipe,
    /// A run of `+`, a heading marker at line start.
    PlusRun,
    /// A run of `-`, a horizontal rule at line start.
    DashRun,
    /// A run of `>`, a blockquote marker at line start.
    QuoteRun,
    /// A single `*`, a bullet-list marker at line start.
    Star,
    /// A single `#`, a numbered-list marker at line start.
    Hash,
}

/// One token: its kind, its span in the normalized buffer, and the spanned
/// text.
pub struct Token {
    pub kind: TokenKind,
    pub span: Span,
    pub text: String,
}

/// Mathematical model of [`Token`].
pub struct TokenView {
    pub kind: TokenKind,
    pub start: int,
    pub len: int,
    pub text: Seq<char>,
}

impl View for Token {
    type V = TokenView;

    open spec fn view(&self) -> TokenView {
        TokenView {
            kind: self.kind,
            start: self.span.start as int,
            len: self.span.len as int,
            text: self.text@,
        }
    }
}

/// The views of a token sequence, in order.
pub open spec fn tokens_view(v: Seq<Token>) -> Seq<TokenView> {
    v.map_values(|t: Token| t@)
}

/// Two given characters stand at position `i`.
pub open spec fn at2(s: Seq<char>, i: int, c0: char, c1: char) -> bool {
    i + 2 <= s.len() && s[i] == c0 && s[i + 1] == c1
}

/// Three given characters stand at position `i`.
pub open spec fn at3(s: Seq<char>, i: int, c0: char, c1: char, c2: char) -> bool {
    i + 3 <= s.len() && s[i] == c0 && s[i + 1] == c1 && s[i + 2] == c2
}

/// Characters that can open a non-text token (or a line construct), and so
/// end a text run.
pub open spec fn is_special_start(c: char) -> bool {
    c == '\n' || c == '|' || c == '+' || c == '-' || c == '>' || c == '[' || c == ']' || c == '*'
        || c == '/' || c == '#'
}

/// End of the run of `c` starting at `i`.
pub open spec fn run_end(s: Seq<char>, i: int, c: char) -> int
    decreases s.len() - i when 0 <= i <= s.len()
{
    if i < s.len() && s[i] == c {
        run_end(s, i + 1, c)
    } else {
        i
    }
}

/// End of the text run starting at `i`: the next special character.
pub open spec fn text_end(s: Seq<char>, i: int) -> int
    decreases s.len() - i when 0 <= i <= s.len()
{
    if i < s.len() && !is_special_start(s[i]) {
        text_end(s, i + 1)
    } else {
        i
    }
}

pub proof fn lemma_run_end_bounds(s: Seq<char>, i: int, c: char)
    requires
        0 <= i <= s.len(),
    ensures
        i <= run_end(s, i, c) <= s.len(),
    decreases s.len() - i,
{
    if i < s.len() && s[i] == c {
        lemma_run_end_bounds(s, i + 1, c);
    }
}

pub proof fn lemma_text_end_bounds(s: Seq<char>, i: int)
    requires
        0 <= i <= s.len(),
    ensures
        i <= text_end(s, i) <= s.len(),
    decreases s.len() - i,
{
    if i < s.len() && !is_special_start(s[i]) {
        lemma_text_end_bounds(s, i + 1);
    }
}

/// A token view over `s[i..j]`.
pub open spec fn tv(kind: TokenKind, s: Seq<char>, i: int, j: int) -> TokenView {
    TokenView { kind, start: i, len: j - i, text: s.subrange(i, j) }
}

/// The token starting at position `i`.
pub open spec fn next_token_spec(s: Seq<char>, i: int) -> TokenView
    recommends 0 <= i < s.len(),
{
    let c = s[i];
    if c == '\n' {
        tv(TokenKind::Newline, s, i, i + 1)
    } else if at3(s, i, '[', '[', '[') {
        tv(TokenKind::LeftLink, s, i, i + 3)
    } else if at3(s, i, ']', ']', ']') {
        tv(TokenKind::RightLink, s, i, i + 3)
    } else if at2(s, i, '[', '[') {
        tv(TokenKind::LeftTag, s, i, i + 2)
    } else if at2(s, i, ']', ']') {
        tv(TokenKind::RightTag, s, i, i + 2)
    } else if at2(s, i, '*', '*') {
        tv(TokenKind::Bold, s, i, i + 2)
    } else if at2(s, i, '/', '/') {
        tv(TokenKind::Italics, s, i, i + 2)
    } else if c == '|' {
        tv(TokenKind::Pipe, s, i, i + 1)
    } else if c == '+' {
        tv(TokenKind::PlusRun, s, i, run_end(s, i, '+'))
    } else if c == '-' {
        tv(TokenKind::DashRun, s, i, run_end(s, i, '-'))
    } else if c == '>' {
        tv(TokenKind::QuoteRun, s, i, run_end(s, i, '>'))
    } else if c == '*' {
        tv(TokenKind::Star, s, i, i + 1)
    } else if c == '#' {
        tv(TokenKind::Hash, s, i, i + 1)
    } else if is_special_start(c) {
        tv(TokenKind::Text, s, i, i + 1)
    } else {
        tv(TokenKind::Text, s, i, text_end(s, i + 1))
    }
}

/// The position just past a token.
pub open spec fn token_end(t: TokenView) -> int {
    t.start + t.len
}

/// Every token starts where asked and makes progress within bounds.
pub proof fn lemma_next_token_range(s: Seq<char>, i: int)
    requires
        0 <= i < s.len(),
    ensures
        next_token_spec(s, i).start == i,
        i < token_end(next_token_spec(s, i)) <= s.len(),
        next_token_spec(s, i).text == s.subrange(i, token_end(next_token_spec(s, i))),
{
    let c = s[i];
    if c == '+' {
        lemma_run_end_bounds(s, i + 1, '+');
        assert(run_end(s, i, '+') == run_end(s, i + 1, '+'));
    } else if c == '-' {
        lemma_run_end_bounds(s, i + 1, '-');
        assert(run_end(s, i, '-') == run_end(s, i + 1, '-'));
    } else if c == '>' {
        lemma_run_end_bounds(s, i + 1, '>');
        assert(run_end(s, i, '>') == run_end(s, i + 1, '>'));
    }
    if i + 1 <= s.len() {
        lemma_text_end_bounds(s, i + 1);
    }
}

/// The token stream of the suffix of `s` starting at `i`.
pub open spec fn tokenize_from(s: Seq<char>, i: int) -> Seq<TokenView>
    decreases s.len() - i when 0 <= i <= s.len()
{
    if i >= s.len() {
        Seq::empty()
    } else {
        let t = next_token_spec(s, i);
        let j = if i < token_end(t) <= s.len() {
            token_end(t)
        } else {
            i + 1
        };
        seq![t] + tokenize_from(s, j)
    }
}

/// The token stream of a whole text.
pub open spec fn tokenize_spec(s: Seq<char>) -> Seq<TokenView> {
    tokenize_from(s, 0)
}

/// Spans are increasing, non-overlapping and adjacent: starting at `i`,
/// each token begins where the previous one ended, is nonempty, carries the
/// spanned text, and the last ends at `n`.
pub open spec fn tokens_contiguous(ts: Seq<TokenView>, s: Seq<char>, i: int, n: int) -> bool
    decreases ts.len(),
{
    if ts.len() == 0 {
        i == n
    } else {
        &&& ts[0].start == i
        &&& ts[0].len > 0
        &&& i + ts[0].len <= n
        &&& ts[0].text == s.subrange(i, i + ts[0].len)
        &&& tokens_contiguous(ts.drop_first(), s, i + ts[0].len, n)
    }
}

/// The token stream partitions the input text.
pub proof fn lemma_tokenize_contiguous(s: Seq<char>, i: int)
    requires
        0 <= i <= s.len(),
    ensures
        tokens_contiguous(tokenize_from(s, i), s, i, s.len() as int),
    decreases s.len() - i,
{
    if i < s.len() {
        lemma_next_token_range(s, i);
        let t = next_token_spec(s, i);
        lemma_tokenize_contiguous(s, token_end(t));
        assert(tokenize_from(s, i).drop_first() =~= tokenize_from(s, token_end(t)));
    }
}

/// Scans to the end of the run of `c` starting at `i`.
fn run_end_exec(v: &Vec<char>, i: usize, c: char) -> (r: usize)
    requires
        i <= v@.len(),
    ensures
        r == run_end(v@, i as int, c),
{
    let n = v.len();
    let mut j: usize = i;
    while j < n && v[j] == c
        invariant
            n == v@.len(),
            i <= j <= n,
            run_end(v@, i as int, c) == run_end(v@, j as int, c),
        decreases n - j,
    {
        j = j + 1;
    }
    j
}

/// Scans to the end of the text run starting at `i`.
fn text_end_exec(v: &Vec<char>, i: usize) -> (r: usize)
    requires
        i <= v@.len(),
    ensures
        r == text_end(v@, i as int),
{
    let n = v.len();
    let mut j: usize = i;
    while j < n && !is_special_start_exec(v[j])
        invariant
            n == v@.len(),
            i <= j <= n,
            text_end(v@, i as int) == text_end(v@, j as int),
        decreases n - j,
    {
        j = j + 1;
    }
    j
}

/// Executable test for [`is_special_start`].
fn is_special_start_exec(c: char) -> (r: bool)
    ensures
        r == is_special_start(c),
{
    c == '\n' || c == '|' || c == '+' || c == '-' || c == '>' || c == '[' || c == ']' || c == '*'
        || c == '/' || c == '#'
}

/// Reads the token starting at position `i`.
fn next_token(v: &Vec<char>, i: usize) -> (r: Token)
    requires
        i < v@.len(),
    ensures
        r@ == next_token_spec(v@, i as int),
        i < r.span.start + r.span.len <= v@.len(),
{
    proof {
        lemma_next_token_range(v@, i as int);
    }
    let n = v.len();
    let c = v[i];
    let (kind, j): (TokenKind, usize) = if c == '\n' {
        (TokenKind::Newline, i + 1)
    } else if n - i >= 3 && c == '[' && v[i + 1] == '[' && v[i + 2] == '[' {
        (TokenKind::LeftLink, i + 3)
    } else if n - i >= 3 && c == ']' && v[i + 1] == ']' && v[i + 2] == ']' {
        (TokenKind::RightLink, i + 3)
    } else if n - i >= 2 && c == '[' && v[i + 1] == '[' {
        (TokenKind::LeftTag, i + 2)
    } else if n - i >= 2 && c == ']' && v[i + 1] == ']' {
        (TokenKind::RightTag, i + 2)
    } else if n - i >= 2 && c == '*' && v[i + 1] == '*' {
        (TokenKind::Bold, i + 2)
    } else if n - i >= 2 && c == '/' && v[i + 1] == '/' {
        (TokenKind::Italics, i + 2)
    } else if c == '|' {
        (TokenKind::Pipe, i + 1)
    } else if c == '+' {
        (TokenKind::PlusRun, run_end_exec(v, i, '+'))
    } else if c == '-' {
        (TokenKind::DashRun, run_end_exec(v, i, '-'))
    } else if c == '>' {
        (TokenKind::QuoteRun, run_end_exec(v, i, '>'))
    } else if c == '*' {
        (TokenKind::Star, i + 1)
    } else if c == '#' {
        (TokenKind::Hash, i + 1)
    } else if is_special_start_exec(c) {
        (TokenKind::Text, i + 1)
    } else {
        (TokenKind::Text, text_end_exec(v, i + 1))
    };
    let piece = crate::text::sub_vec(v, i, j);
    Token { kind, span: Span { start: i, len: j - i }, text: chars_to_string(&piece) }
}

/// Tokenizes normalized text into an ordered, input-partitioning stream.
/// Never fails: malformed sequences degrade to text tokens.
pub fn tokenize(text: &str) -> (r: Vec<Token>)
    ensures
        tokens_view(r@) == tokenize_spec(text@),
        tokens_contiguous(tokens_view(r@), text@, 0, text@.len() as int),
{
    let v = crate::text::str_to_chars(text);
    let ghost s = text@;
    let n = v.len();
    let mut out: Vec<Token> = Vec::new();
    let mut i: usize = 0;
    while i < n
        invariant
            v@ == s,
            n == s.len(),
            0 <= i <= n,
            tokenize_from(s, 0) == tokens_view(out@) + tokenize_from(s, i as int),
        decreases n - i,
    {
        let ghost before = tokens_view(out@);
        let tok = next_token(&v, i);
        let j = tok.span.start + tok.span.len;
        proof {
            lemma_next_token_range(s, i as int);
        }
        out.push(tok);
        proof {
            assert(tokens_view(out@) =~= before.push(tok@));
            assert(tokens_view(out@) + tokenize_from(s, j as int) =~= before + (seq![tok@]
                + tokenize_from(s, j as int)));
        }
        i = j;
    }
    assert(tokens_view(out@) =~= tokens_view(out@) + tokenize_from(s, n as int));
    proof {
        lemma_tokenize_contiguous(s, 0);
    }
    out
}

} // verus!
