//! The parser: a token stream to a syntax tree plus ordered warnings.
//!
//! Error recovery is total: a malformed construct becomes literal text plus
//! one warning, and parsing continues. Nesting depth is explicitly bounded;
//! beyond the bound a style marker degrades to text with a warning instead
//! of nesting further. Identical token streams always yield identical trees
//! and warning lists: the result equals a mathematical function of the
//! stream.

use vstd::prelude::*;
use crate::data::PageInfo;
use crate::page_ref::{parse_spec, PageRef};
use crate::settings::WikitextSettings;
use crate::text::{chars_to_string, find_char, find_char_spec, has_prefix, starts_with_str,
    trim_spec, trim_sub, push_str_chars};
use crate::tokenizer::{Token, TokenKind, TokenView, tokens_view};
use crate::tree::{elem_wf, elems_view, elems_wf, lemma_elems_view_concat, lemma_elems_wf_cons,
    lemma_elems_wf_concat, Element, ElemView, HeadingLevel, ImageSource, ImageSourceView,
    LinkLabel, LinkLocation, Module, Span, SyntaxTree, Warning, WarningKind};

verus! {

/// The explicit bound on inline nesting depth.
pub const MAX_NESTING_DEPTH: usize = 10;

/// What ends the inline run being parsed.
#[derive(Copy, Clone, Debug, PartialEq, Eq, Structural)]
pub enum StopAt {
    /// A blank line or the end of input.
    Para,
    /// The end of the current line.
    Line,
    /// The matching style marker.
    Style(TokenKind),
}

/// The concatenated text of the tokens before the first stopping token
/// (one of the two given kinds, a newline, or the end), and that token's
/// position.
pub open spec fn raw_until(ts: Seq<TokenView>, i: int, k1: TokenKind, k2: TokenKind) -> (
    Seq<char>,
    int,
)
    decreases ts.len() - i when 0 <= i <= ts.len()
{
    if i >= ts.len() {
        (Seq::empty(), i)
    } else if ts[i].kind == k1 || ts[i].kind == k2 || ts[i].kind == TokenKind::Newline {
        (Seq::empty(), i)
    } else {
        let (rest, j) = raw_until(ts, i + 1, k1, k2);
        (ts[i].text + rest, j)
    }
}

/// How an image source string is classified: a URL scheme means a literal
/// URL; otherwise slashes split site, page and file coordinates.
pub open spec fn image_source_spec(src: Seq<char>) -> ImageSourceView {
    if has_prefix(src, "http://"@) || has_prefix(src, "https://"@) {
        ImageSourceView::Url(src)
    } else {
        let a = find_char_spec(src, 0, '/');
        if a == -1 {
            ImageSourceView::File1 { file: src }
        } else {
            let b = find_char_spec(src, a + 1, '/');
            if b == -1 {
                ImageSourceView::File2 {
                    page: src.subrange(0, a),
                    file: src.subrange(a + 1, src.len() as int),
                }
            } else {
                ImageSourceView::File3 {
                    site: src.subrange(0, a),
                    page: src.subrange(a + 1, b),
                    file: src.subrange(b + 1, src.len() as int),
                }
            }
        }
    }
}

/// The literal text a link degrades to when its target is invalid.
pub open spec fn link_literal_spec(target_raw: Seq<char>, label_raw: Option<Seq<char>>) -> Seq<
    char,
> {
    match label_raw {
        Some(label) => "[[["@ + target_raw + "|"@ + label + "]]]"@,
        None => "[[["@ + target_raw + "]]]"@,
    }
}

/// A warning at a token's span.
pub open spec fn warn_at(kind: WarningKind, t: TokenView) -> Warning {
    Warning { kind, span: Span { start: t.start as usize, len: t.len as usize } }
}

/// The element a link construct produces: a URL link for URL targets, a
/// page link for parsable page references, literal text plus a warning for
/// anything else.
pub open spec fn make_link_spec(
    target_raw: Seq<char>,
    label_raw: Option<Seq<char>>,
    t: TokenView,
) -> (ElemView, Seq<Warning>) {
    let target = trim_spec(target_raw);
    let label = match label_raw {
        Some(l) => crate::tree::LinkLabelView::Text(trim_spec(l)),
        None => crate::tree::LinkLabelView::Url(None),
    };
    if has_prefix(target, "http://"@) || has_prefix(target, "https://"@) {
        (
            ElemView::Link { location: crate::tree::LinkLocationView::Url(target), label },
            Seq::empty(),
        )
    } else {
        match parse_spec(target) {
            Some(page_ref) => (
                ElemView::Link {
                    location: crate::tree::LinkLocationView::Page(page_ref),
                    label: match label_raw {
                        Some(l) => crate::tree::LinkLabelView::Text(trim_spec(l)),
                        None => crate::tree::LinkLabelView::Page,
                    },
                },
                Seq::empty(),
            ),
            None => (
                ElemView::Text(link_literal_spec(target_raw, label_raw)),
                seq![warn_at(WarningKind::InvalidReference, t)],
            ),
        }
    }
}

/// The literal text a tag block degrades to.
pub open spec fn tag_literal_spec(content_raw: Seq<char>) -> Seq<char> {
    "[["@ + content_raw + "]]"@
}

/// The element a `[[ ... ]]` tag block produces: an image, module,
/// table-of-contents or user element, or literal text plus a warning.
pub open spec fn make_tag_spec(content_raw: Seq<char>, t: TokenView) -> (ElemView, Seq<Warning>) {
    let c = trim_spec(content_raw);
    let sp = find_char_spec(c, 0, ' ');
    let word = if sp == -1 {
        c
    } else {
        c.subrange(0, sp)
    };
    let rest = if sp == -1 {
        Seq::<char>::empty()
    } else {
        trim_spec(c.subrange(sp + 1, c.len() as int))
    };
    if word == "image"@ && rest.len() > 0 {
        (ElemView::Image { source: image_source_spec(rest) }, Seq::empty())
    } else if word == "module"@ {
        if rest.len() > 0 {
            (ElemView::Module(rest), Seq::empty())
        } else {
            (
                ElemView::Text(tag_literal_spec(content_raw)),
                seq![warn_at(WarningKind::UnknownModule, t)],
            )
        }
    } else if word == "toc"@ {
        (ElemView::TableOfContents, Seq::empty())
    } else if word == "user"@ && rest.len() > 0 {
        (ElemView::User(rest), Seq::empty())
    } else if word == "code"@ {
        (ElemView::CodeBlock(rest), Seq::empty())
    } else if word == "math"@ {
        (ElemView::Math(rest), Seq::empty())
    } else if word == "include"@ {
        match parse_spec(rest) {
            Some(page_ref) => (ElemView::Include(page_ref), Seq::empty()),
            None => (
                ElemView::Text(tag_literal_spec(content_raw)),
                seq![warn_at(WarningKind::InvalidReference, t)],
            ),
        }
    } else if word == "footnote"@ {
        (ElemView::Footnote(rest), Seq::empty())
    } else {
        (
            ElemView::Text(tag_literal_spec(content_raw)),
            seq![warn_at(WarningKind::UnrecognizedTag, t)],
        )
    }
}

/// A continuation index clamped to make progress and stay in bounds.
pub open spec fn clamp_next(i: int, j: int, n: int) -> int {
    if i < j <= n {
        j
    } else {
        i + 1
    }
}

/// Inline parsing from position `i` until `stop`: the elements and
/// warnings produced, the position after the run, and whether the stopping
/// delimiter was actually seen.
pub open spec fn parse_inline_from(ts: Seq<TokenView>, i: int, stop: StopAt, depth: int) -> (
    Seq<ElemView>,
    Seq<Warning>,
    int,
    bool,
)
    decreases ts.len() - i when 0 <= i <= ts.len()
{
    if i >= ts.len() {
        (Seq::empty(), Seq::empty(), i, false)
    } else {
        let t = ts[i];
        let n = ts.len() as int;
        if stop == StopAt::Style(t.kind) {
            (Seq::empty(), Seq::empty(), i + 1, true)
        } else if t.kind == TokenKind::Newline {
            match stop {
                StopAt::Line => (Seq::empty(), Seq::empty(), i + 1, true),
                StopAt::Style(k) => (Seq::empty(), Seq::empty(), i, false),
                StopAt::Para => if i + 1 >= n || ts[i + 1].kind == TokenKind::Newline {
                    (Seq::empty(), Seq::empty(), i + 1, true)
                } else {
                    let (rest, ws, end, closed) = parse_inline_from(ts, i + 1, stop, depth);
                    (seq![ElemView::Text(t.text)] + rest, ws, end, closed)
                },
            }
        } else if t.kind == TokenKind::Bold || t.kind == TokenKind::Italics {
            if depth >= MAX_NESTING_DEPTH {
                let (rest, ws, end, closed) = parse_inline_from(ts, i + 1, stop, depth);
                (
                    seq![ElemView::Text(t.text)] + rest,
                    seq![warn_at(WarningKind::DepthExceeded, t)] + ws,
                    end,
                    closed,
                )
            } else {
                let (inner, w1, j, closed_in) = parse_inline_from(
                    ts,
                    i + 1,
                    StopAt::Style(t.kind),
                    depth + 1,
                );
                let (rest, w2, end, closed) = parse_inline_from(
                    ts,
                    clamp_next(i, j, n),
                    stop,
                    depth,
                );
                if closed_in {
                    let elem = if t.kind == TokenKind::Bold {
                        ElemView::Bold(inner)
                    } else {
                        ElemView::Italics(inner)
                    };
                    (seq![elem] + rest, w1 + w2, end, closed)
                } else {
                    (
                        seq![ElemView::Text(t.text)] + inner + rest,
                        w1 + seq![warn_at(WarningKind::UnclosedBlock, t)] + w2,
                        end,
                        closed,
                    )
                }
            }
        } else if t.kind == TokenKind::LeftLink {
            let (target_raw, p) = raw_until(ts, i + 1, TokenKind::Pipe, TokenKind::RightLink);
            if p >= n || ts[p].kind == TokenKind::Newline {
                let (rest, ws, end, closed) = parse_inline_from(ts, i + 1, stop, depth);
                (
                    seq![ElemView::Text(t.text)] + rest,
                    seq![warn_at(WarningKind::UnclosedBlock, t)] + ws,
                    end,
                    closed,
                )
            } else if ts[p].kind == TokenKind::Pipe {
                let (label_raw, q) = raw_until(
                    ts,
                    p + 1,
                    TokenKind::RightLink,
                    TokenKind::RightLink,
                );
                if q >= n || ts[q].kind == TokenKind::Newline {
                    let (rest, ws, end, closed) = parse_inline_from(ts, i + 1, stop, depth);
                    (
                        seq![ElemView::Text(t.text)] + rest,
                        seq![warn_at(WarningKind::UnclosedBlock, t)] + ws,
                        end,
                        closed,
                    )
                } else {
                    let (elem, ws1) = make_link_spec(target_raw, Some(label_raw), t);
                    let (rest, ws, end, closed) = parse_inline_from(
                        ts,
                        clamp_next(i, q + 1, n),
                        stop,
                        depth,
                    );
                    (seq![elem] + rest, ws1 + ws, end, closed)
                }
            } else {
                let (elem, ws1) = make_link_spec(target_raw, None, t);
                let (rest, ws, end, closed) = parse_inline_from(
                    ts,
                    clamp_next(i, p + 1, n),
                    stop,
                    depth,
                );
                (seq![elem] + rest, ws1 + ws, end, closed)
            }
        } else if t.kind == TokenKind::LeftTag {
            let (content_raw, p) = raw_until(ts, i + 1, TokenKind::RightTag, TokenKind::RightTag);
            if p >= n || ts[p].kind != TokenKind::RightTag {
                let (rest, ws, end, closed) = parse_inline_from(ts, i + 1, stop, depth);
                (
                    seq![ElemView::Text(t.text)] + rest,
                    seq![warn_at(WarningKind::UnclosedBlock, t)] + ws,
                    end,
                    closed,
                )
            } else {
                let (elem, ws1) = make_tag_spec(content_raw, t);
                let (rest, ws, end, closed) = parse_inline_from(
                    ts,
                    clamp_next(i, p + 1, n),
                    stop,
                    depth,
                );
                (seq![elem] + rest, ws1 + ws, end, closed)
            }
        } else {
            let (rest, ws, end, closed) = parse_inline_from(ts, i + 1, stop, depth);
            (seq![ElemView::Text(t.text)] + rest, ws, end, closed)
        }
    }
}

/// The heading level of a marker run of the given length.
pub open spec fn level_of(len: int) -> HeadingLevel {
    if len == 1 {
        HeadingLevel::H1
    } else if len == 2 {
        HeadingLevel::H2
    } else if len == 3 {
        HeadingLevel::H3
    } else if len == 4 {
        HeadingLevel::H4
    } else if len == 5 {
        HeadingLevel::H5
    } else {
        HeadingLevel::H6
    }
}

/// The cells of one table row, starting at the first cell's content. Each
/// cell runs to the next pipe; a doubled pipe before a line end closes the
/// row. A cell cut off by the line end still counts when it has content.
pub open spec fn parse_table_cells(ts: Seq<TokenView>, i: int) -> (Seq<ElemView>, Seq<Warning>, int)
    decreases ts.len() - i when 0 <= i <= ts.len()
{
    let n = ts.len() as int;
    let (cell, w1, j, closed) = parse_inline_from(ts, i, StopAt::Style(TokenKind::Pipe), 0);
    if !closed {
        if cell.len() == 0 {
            (Seq::empty(), w1, j)
        } else {
            (seq![ElemView::TableCell(cell)], w1, j)
        }
    } else {
        let after = if j < n && ts[j].kind == TokenKind::Pipe {
            j + 1
        } else {
            j
        };
        if after >= n || ts[after].kind == TokenKind::Newline {
            (seq![ElemView::TableCell(cell)], w1, after)
        } else {
            let (rest, w2, end) = parse_table_cells(ts, clamp_next(i, after, n));
            (seq![ElemView::TableCell(cell)] + rest, w1 + w2, end)
        }
    }
}

/// The consecutive table rows starting at `i`: each row is a line opened by
/// a doubled pipe.
pub open spec fn parse_table_rows(ts: Seq<TokenView>, i: int) -> (Seq<ElemView>, Seq<Warning>, int)
    decreases ts.len() - i when 0 <= i <= ts.len()
{
    let n = ts.len() as int;
    if i + 1 < n && ts[i].kind == TokenKind::Pipe && ts[i + 1].kind == TokenKind::Pipe {
        let (cells, w1, j) = parse_table_cells(ts, clamp_next(i, i + 2, n));
        let j2 = if j < n && ts[j].kind == TokenKind::Newline {
            j + 1
        } else {
            j
        };
        let (rest, w2, end) = parse_table_rows(ts, clamp_next(i, j2, n));
        (seq![ElemView::TableRow(cells)] + rest, w1 + w2, end)
    } else {
        (Seq::empty(), Seq::empty(), i)
    }
}

/// The consecutive list items marked by `marker` lines, starting at `i`:
/// the items, their warnings, and the position after the last item's line.
pub open spec fn parse_list_from(ts: Seq<TokenView>, i: int, marker: TokenKind) -> (
    Seq<ElemView>,
    Seq<Warning>,
    int,
)
    decreases ts.len() - i when 0 <= i <= ts.len()
{
    if i >= ts.len() || ts[i].kind != marker {
        (Seq::empty(), Seq::empty(), i)
    } else {
        let (inner, w1, j, closed) = parse_inline_from(ts, i + 1, StopAt::Line, 0);
        let (rest, w2, end) = parse_list_from(ts, clamp_next(i, j, ts.len() as int), marker);
        (seq![ElemView::ListItem(inner)] + rest, w1 + w2, end)
    }
}

/// Block-level parsing from position `i`: headings, horizontal rules,
/// lists, blockquotes and paragraphs, separated by blank lines.
pub open spec fn parse_blocks_from(ts: Seq<TokenView>, i: int) -> (Seq<ElemView>, Seq<Warning>)
    decreases ts.len() - i when 0 <= i <= ts.len()
{
    if i >= ts.len() {
        (Seq::empty(), Seq::empty())
    } else {
        let t = ts[i];
        let n = ts.len() as int;
        if t.kind == TokenKind::Newline {
            parse_blocks_from(ts, i + 1)
        } else if t.kind == TokenKind::PlusRun && 1 <= t.len <= 6 {
            let (inner, w1, j, closed) = parse_inline_from(ts, i + 1, StopAt::Line, 0);
            let (rest, w2) = parse_blocks_from(ts, clamp_next(i, j, n));
            (
                seq![ElemView::Heading { level: level_of(t.len), elements: inner }] + rest,
                w1 + w2,
            )
        } else if t.kind == TokenKind::DashRun && t.len >= 4 && (i + 1 >= n || ts[i + 1].kind
            == TokenKind::Newline) {
            let (rest, w2) = parse_blocks_from(ts, i + 1);
            (seq![ElemView::HorizontalRule] + rest, w2)
        } else if t.kind == TokenKind::Pipe && i + 1 < n && ts[i + 1].kind == TokenKind::Pipe {
            let (rows, w1, j) = parse_table_rows(ts, i);
            let (rest, w2) = parse_blocks_from(ts, clamp_next(i, j, n));
            (seq![ElemView::Table(rows)] + rest, w1 + w2)
        } else if t.kind == TokenKind::Star || t.kind == TokenKind::Hash {
            let (items, w1, j) = parse_list_from(ts, i, t.kind);
            let (rest, w2) = parse_blocks_from(ts, clamp_next(i, j, n));
            (
                seq![ElemView::List { ordered: t.kind == TokenKind::Hash, items }] + rest,
                w1 + w2,
            )
        } else if t.kind == TokenKind::QuoteRun {
            let (inner, w1, j, closed) = parse_inline_from(ts, i + 1, StopAt::Line, 0);
            let (rest, w2) = parse_blocks_from(ts, clamp_next(i, j, n));
            (seq![ElemView::Blockquote(inner)] + rest, w1 + w2)
        } else {
            let (inner, w1, j, closed) = parse_inline_from(ts, i, StopAt::Para, 0);
            let (rest, w2) = parse_blocks_from(ts, clamp_next(i, j, n));
            (seq![ElemView::Paragraph(inner)] + rest, w1 + w2)
        }
    }
}

/// What parsing a whole token stream produces.
pub open spec fn parse_result_spec(ts: Seq<TokenView>) -> (Seq<ElemView>, Seq<Warning>) {
    parse_blocks_from(ts, 0)
}

/// A link construct always produces a well-formed element: a page-title
/// label never stands beside a URL target.
pub proof fn lemma_make_link_wf(target_raw: Seq<char>, label_raw: Option<Seq<char>>, t: TokenView)
    ensures
        crate::tree::elem_wf(make_link_spec(target_raw, label_raw, t).0),
{
}

/// A tag block always produces a well-formed element.
pub proof fn lemma_make_tag_wf(content_raw: Seq<char>, t: TokenView)
    ensures
        crate::tree::elem_wf(make_tag_spec(content_raw, t).0),
{
}

/// Inline parsing only produces well-formed elements.
pub proof fn lemma_parse_inline_wf(ts: Seq<TokenView>, i: int, stop: StopAt, depth: int)
    requires
        0 <= i <= ts.len(),
    ensures
        crate::tree::elems_wf(parse_inline_from(ts, i, stop, depth).0, 0),
    decreases ts.len() - i,
{
    if i >= ts.len() {
        assert(elems_wf(parse_inline_from(ts, i, stop, depth).0, 0));
    } else {
        let t = ts[i];
        let n = ts.len() as int;
        if stop == StopAt::Style(t.kind) {
        } else if t.kind == TokenKind::Newline {
            match stop {
                StopAt::Line => {},
                StopAt::Style(k) => {},
                StopAt::Para => {
                    if !(i + 1 >= n || ts[i + 1].kind == TokenKind::Newline) {
                        let (rest, ws, end, closed) = parse_inline_from(ts, i + 1, stop, depth);
                        lemma_parse_inline_wf(ts, i + 1, stop, depth);
                        lemma_elems_wf_cons(ElemView::Text(t.text), rest);
                    }
                },
            }
        } else if t.kind == TokenKind::Bold || t.kind == TokenKind::Italics {
            if depth >= MAX_NESTING_DEPTH {
                let (rest, ws, end, closed) = parse_inline_from(ts, i + 1, stop, depth);
                lemma_parse_inline_wf(ts, i + 1, stop, depth);
                lemma_elems_wf_cons(ElemView::Text(t.text), rest);
            } else {
                let (inner, w1, j, closed_in) = parse_inline_from(
                    ts,
                    i + 1,
                    StopAt::Style(t.kind),
                    depth + 1,
                );
                lemma_parse_inline_wf(ts, i + 1, StopAt::Style(t.kind), depth + 1);
                let (rest, w2, end, closed) = parse_inline_from(ts, clamp_next(i, j, n), stop, depth);
                lemma_parse_inline_wf(ts, clamp_next(i, j, n), stop, depth);
                if closed_in {
                    let elem = if t.kind == TokenKind::Bold {
                        ElemView::Bold(inner)
                    } else {
                        ElemView::Italics(inner)
                    };
                    assert(elem_wf(elem));
                    lemma_elems_wf_cons(elem, rest);
                } else {
                    lemma_elems_wf_concat(inner, rest, 0);
                    lemma_elems_wf_cons(ElemView::Text(t.text), inner + rest);
                    assert(seq![ElemView::Text(t.text)] + inner + rest =~= seq![
                        ElemView::Text(t.text),
                    ] + (inner + rest));
                }
            }
        } else if t.kind == TokenKind::LeftLink {
            let (target_raw, p) = raw_until(ts, i + 1, TokenKind::Pipe, TokenKind::RightLink);
            if p >= n || ts[p].kind == TokenKind::Newline {
                let (rest, ws, end, closed) = parse_inline_from(ts, i + 1, stop, depth);
                lemma_parse_inline_wf(ts, i + 1, stop, depth);
                lemma_elems_wf_cons(ElemView::Text(t.text), rest);
            } else if ts[p].kind == TokenKind::Pipe {
                let (label_raw, q) = raw_until(ts, p + 1, TokenKind::RightLink, TokenKind::RightLink);
                if q >= n || ts[q].kind == TokenKind::Newline {
                    let (rest, ws, end, closed) = parse_inline_from(ts, i + 1, stop, depth);
                    lemma_parse_inline_wf(ts, i + 1, stop, depth);
                    lemma_elems_wf_cons(ElemView::Text(t.text), rest);
                } else {
                    let (elem, ws1) = make_link_spec(target_raw, Some(label_raw), t);
                    lemma_make_link_wf(target_raw, Some(label_raw), t);
                    let (rest, ws, end, closed) = parse_inline_from(
                        ts,
                        clamp_next(i, q + 1, n),
                        stop,
                        depth,
                    );
                    lemma_parse_inline_wf(ts, clamp_next(i, q + 1, n), stop, depth);
                    lemma_elems_wf_cons(elem, rest);
                }
            } else {
                let (elem, ws1) = make_link_spec(target_raw, None, t);
                lemma_make_link_wf(target_raw, None, t);
                let (rest, ws, end, closed) = parse_inline_from(
                    ts,
                    clamp_next(i, p + 1, n),
                    stop,
                    depth,
                );
                lemma_parse_inline_wf(ts, clamp_next(i, p + 1, n), stop, depth);
                lemma_elems_wf_cons(elem, rest);
            }
        } else if t.kind == TokenKind::LeftTag {
            let (content_raw, p) = raw_until(ts, i + 1, TokenKind::RightTag, TokenKind::RightTag);
            if p >= n || ts[p].kind != TokenKind::RightTag {
                let (rest, ws, end, closed) = parse_inline_from(ts, i + 1, stop, depth);
                lemma_parse_inline_wf(ts, i + 1, stop, depth);
                lemma_elems_wf_cons(ElemView::Text(t.text), rest);
            } else {
                let (elem, ws1) = make_tag_spec(content_raw, t);
                lemma_make_tag_wf(content_raw, t);
                let (rest, ws, end, closed) = parse_inline_from(
                    ts,
                    clamp_next(i, p + 1, n),
                    stop,
                    depth,
                );
                lemma_parse_inline_wf(ts, clamp_next(i, p + 1, n), stop, depth);
                lemma_elems_wf_cons(elem, rest);
            }
        } else {
            let (rest, ws, end, closed) = parse_inline_from(ts, i + 1, stop, depth);
            lemma_parse_inline_wf(ts, i + 1, stop, depth);
            lemma_elems_wf_cons(ElemView::Text(t.text), rest);
        }
    }
}

/// Table cell parsing only produces well-formed cells.
pub proof fn lemma_parse_table_cells_wf(ts: Seq<TokenView>, i: int)
    requires
        0 <= i <= ts.len(),
    ensures
        elems_wf(parse_table_cells(ts, i).0, 0),
    decreases ts.len() - i,
{
    let n = ts.len() as int;
    let (cell, w1, j, closed) = parse_inline_from(ts, i, StopAt::Style(TokenKind::Pipe), 0);
    lemma_parse_inline_wf(ts, i, StopAt::Style(TokenKind::Pipe), 0);
    if !closed {
        if cell.len() > 0 {
            lemma_elems_wf_cons(ElemView::TableCell(cell), Seq::empty());
            assert(seq![ElemView::TableCell(cell)] + Seq::<ElemView>::empty() =~= seq![
                ElemView::TableCell(cell),
            ]);
        }
    } else {
        let after = if j < n && ts[j].kind == TokenKind::Pipe {
            j + 1
        } else {
            j
        };
        if after >= n || ts[after].kind == TokenKind::Newline {
            lemma_elems_wf_cons(ElemView::TableCell(cell), Seq::empty());
            assert(seq![ElemView::TableCell(cell)] + Seq::<ElemView>::empty() =~= seq![
                ElemView::TableCell(cell),
            ]);
        } else {
            let (rest, w2, end) = parse_table_cells(ts, clamp_next(i, after, n));
            lemma_parse_table_cells_wf(ts, clamp_next(i, after, n));
            lemma_elems_wf_cons(ElemView::TableCell(cell), rest);
        }
    }
}

/// Table row parsing only produces well-formed rows.
pub proof fn lemma_parse_table_rows_wf(ts: Seq<TokenView>, i: int)
    requires
        0 <= i <= ts.len(),
    ensures
        elems_wf(parse_table_rows(ts, i).0, 0),
    decreases ts.len() - i,
{
    let n = ts.len() as int;
    if i + 1 < n && ts[i].kind == TokenKind::Pipe && ts[i + 1].kind == TokenKind::Pipe {
        let (cells, w1, j) = parse_table_cells(ts, clamp_next(i, i + 2, n));
        lemma_parse_table_cells_wf(ts, clamp_next(i, i + 2, n));
        let j2 = if j < n && ts[j].kind == TokenKind::Newline {
            j + 1
        } else {
            j
        };
        let (rest, w2, end) = parse_table_rows(ts, clamp_next(i, j2, n));
        lemma_parse_table_rows_wf(ts, clamp_next(i, j2, n));
        lemma_elems_wf_cons(ElemView::TableRow(cells), rest);
    } else {
        assert(elems_wf(parse_table_rows(ts, i).0, 0));
    }
}

/// List parsing only produces well-formed items.
pub proof fn lemma_parse_list_wf(ts: Seq<TokenView>, i: int, marker: TokenKind)
    requires
        0 <= i <= ts.len(),
    ensures
        elems_wf(parse_list_from(ts, i, marker).0, 0),
    decreases ts.len() - i,
{
    if i >= ts.len() || ts[i].kind != marker {
        assert(elems_wf(parse_list_from(ts, i, marker).0, 0));
    } else {
        let (inner, w1, j, closed) = parse_inline_from(ts, i + 1, StopAt::Line, 0);
        lemma_parse_inline_wf(ts, i + 1, StopAt::Line, 0);
        let (rest, w2, end) = parse_list_from(ts, clamp_next(i, j, ts.len() as int), marker);
        lemma_parse_list_wf(ts, clamp_next(i, j, ts.len() as int), marker);
        lemma_elems_wf_cons(ElemView::ListItem(inner), rest);
    }
}

/// Block parsing only produces well-formed elements.
pub proof fn lemma_parse_blocks_wf(ts: Seq<TokenView>, i: int)
    requires
        0 <= i <= ts.len(),
    ensures
        crate::tree::elems_wf(parse_blocks_from(ts, i).0, 0),
    decreases ts.len() - i,
{
    if i >= ts.len() {
        assert(elems_wf(parse_blocks_from(ts, i).0, 0));
    } else {
        let t = ts[i];
        let n = ts.len() as int;
        if t.kind == TokenKind::Newline {
            lemma_parse_blocks_wf(ts, i + 1);
        } else if t.kind == TokenKind::PlusRun && 1 <= t.len <= 6 {
            let (inner, w1, j, closed) = parse_inline_from(ts, i + 1, StopAt::Line, 0);
            lemma_parse_inline_wf(ts, i + 1, StopAt::Line, 0);
            let (rest, w2) = parse_blocks_from(ts, clamp_next(i, j, n));
            lemma_parse_blocks_wf(ts, clamp_next(i, j, n));
            lemma_elems_wf_cons(
                ElemView::Heading { level: level_of(t.len), elements: inner },
                rest,
            );
        } else if t.kind == TokenKind::DashRun && t.len >= 4 && (i + 1 >= n || ts[i + 1].kind
            == TokenKind::Newline) {
            let (rest, w2) = parse_blocks_from(ts, i + 1);
            lemma_parse_blocks_wf(ts, i + 1);
            lemma_elems_wf_cons(ElemView::HorizontalRule, rest);
        } else if t.kind == TokenKind::Pipe && i + 1 < n && ts[i + 1].kind == TokenKind::Pipe {
            let (rows, w1, j) = parse_table_rows(ts, i);
            lemma_parse_table_rows_wf(ts, i);
            let (rest, w2) = parse_blocks_from(ts, clamp_next(i, j, n));
            lemma_parse_blocks_wf(ts, clamp_next(i, j, n));
            lemma_elems_wf_cons(ElemView::Table(rows), rest);
        } else if t.kind == TokenKind::Star || t.kind == TokenKind::Hash {
            let (items, w1, j) = parse_list_from(ts, i, t.kind);
            lemma_parse_list_wf(ts, i, t.kind);
            let (rest, w2) = parse_blocks_from(ts, clamp_next(i, j, n));
            lemma_parse_blocks_wf(ts, clamp_next(i, j, n));
            lemma_elems_wf_cons(
                ElemView::List { ordered: t.kind == TokenKind::Hash, items },
                rest,
            );
        } else if t.kind == TokenKind::QuoteRun {
            let (inner, w1, j, closed) = parse_inline_from(ts, i + 1, StopAt::Line, 0);
            lemma_parse_inline_wf(ts, i + 1, StopAt::Line, 0);
            let (rest, w2) = parse_blocks_from(ts, clamp_next(i, j, n));
            lemma_parse_blocks_wf(ts, clamp_next(i, j, n));
            lemma_elems_wf_cons(ElemView::Blockquote(inner), rest);
        } else {
            let (inner, w1, j, closed) = parse_inline_from(ts, i, StopAt::Para, 0);
            lemma_parse_inline_wf(ts, i, StopAt::Para, 0);
            let (rest, w2) = parse_blocks_from(ts, clamp_next(i, j, n));
            lemma_parse_blocks_wf(ts, clamp_next(i, j, n));
            lemma_elems_wf_cons(ElemView::Paragraph(inner), rest);
        }
    }
}

/// Every parsed tree is well-formed: rendering accepts it.
pub proof fn lemma_parse_result_wf(ts: Seq<TokenView>)
    ensures
        crate::tree::elems_wf(parse_result_spec(ts).0, 0),
{
    lemma_parse_blocks_wf(ts, 0);
}

/// An element in front of a list.
fn cons_elem(e: Element, rest: Vec<Element>) -> (r: Vec<Element>)
    ensures
        elems_view(r@) == seq![e@] + elems_view(rest@),
{
    let ghost ev = e@;
    let mut v: Vec<Element> = Vec::new();
    v.push(e);
    let mut rest = rest;
    let ghost restv = rest@;
    v.append(&mut rest);
    proof {
        assert(v@ =~= seq![e] + restv);
        lemma_elems_view_concat(seq![e], restv);
        assert(seq![e].drop_first() =~= Seq::<Element>::empty());
        assert(elems_view(seq![e].drop_first()) =~= Seq::<ElemView>::empty());
        assert(elems_view(seq![e]) =~= seq![ev]);
    }
    v
}

/// Concatenation of two element lists.
fn concat_elems(a: Vec<Element>, b: Vec<Element>) -> (r: Vec<Element>)
    ensures
        elems_view(r@) == elems_view(a@) + elems_view(b@),
{
    let mut a = a;
    let mut b = b;
    let ghost av = a@;
    let ghost bv = b@;
    a.append(&mut b);
    proof {
        lemma_elems_view_concat(av, bv);
    }
    a
}

/// A warning in front of a list.
fn cons_warn(w: Warning, rest: Vec<Warning>) -> (r: Vec<Warning>)
    ensures
        r@ == seq![w] + rest@,
{
    let mut v: Vec<Warning> = Vec::new();
    v.push(w);
    let mut rest = rest;
    let ghost restv = rest@;
    v.append(&mut rest);
    proof {
        assert(v@ =~= seq![w] + restv);
    }
    v
}

/// Concatenation of two warning lists.
fn concat_warns(a: Vec<Warning>, b: Vec<Warning>) -> (r: Vec<Warning>)
    ensures
        r@ == a@ + b@,
{
    let mut a = a;
    let mut b = b;
    a.append(&mut b);
    a
}

/// Collects raw token text up to the first stopping token.
fn raw_until_exec(tokens: &Vec<Token>, i: usize, k1: TokenKind, k2: TokenKind) -> (r: (
    Vec<char>,
    usize,
))
    requires
        i <= tokens@.len(),
    ensures
        r.0@ == raw_until(tokens_view(tokens@), i as int, k1, k2).0,
        r.1 as int == raw_until(tokens_view(tokens@), i as int, k1, k2).1,
        i <= r.1 <= tokens@.len(),
{
    let ghost ts = tokens_view(tokens@);
    let n = tokens.len();
    let mut acc: Vec<char> = Vec::new();
    let mut j: usize = i;
    while j < n && !(tokens[j].kind == k1 || tokens[j].kind == k2 || tokens[j].kind
        == TokenKind::Newline)
        invariant
            ts == tokens_view(tokens@),
            n == ts.len(),
            i <= j <= n,
            raw_until(ts, i as int, k1, k2).0 == acc@ + raw_until(ts, j as int, k1, k2).0,
            raw_until(ts, i as int, k1, k2).1 == raw_until(ts, j as int, k1, k2).1,
        decreases n - j,
    {
        proof {
            assert(ts[j as int] == tokens@[j as int]@);
        }
        let ghost before = acc@;
        push_str_chars(&mut acc, tokens[j].text.as_str());
        proof {
            assert(acc@ + raw_until(ts, j + 1 as int, k1, k2).0 =~= before + (ts[j as int].text
                + raw_until(ts, j + 1 as int, k1, k2).0));
        }
        j = j + 1;
    }
    proof {
        if j < n {
            assert(ts[j as int] == tokens@[j as int]@);
        }
        assert(raw_until(ts, j as int, k1, k2).0 =~= Seq::<char>::empty());
        assert(acc@ =~= acc@ + Seq::<char>::empty());
    }
    (acc, j)
}

/// Classifies an image source string.
fn image_source_exec(src: &Vec<char>) -> (r: ImageSource)
    ensures
        r@ == image_source_spec(src@),
{
    let m = src.len();
    if starts_with_str(src, "http://") || starts_with_str(src, "https://") {
        return ImageSource::Url(chars_to_string(src));
    }
    match find_char(src, 0, '/') {
        None => ImageSource::File1 { file: chars_to_string(src) },
        Some(a) => {
            match find_char(src, a + 1, '/') {
                None => ImageSource::File2 {
                    page: chars_to_string(&crate::text::sub_vec(src, 0, a)),
                    file: chars_to_string(&crate::text::sub_vec(src, a + 1, m)),
                },
                Some(b) => ImageSource::File3 {
                    site: chars_to_string(&crate::text::sub_vec(src, 0, a)),
                    page: chars_to_string(&crate::text::sub_vec(src, a + 1, b)),
                    file: chars_to_string(&crate::text::sub_vec(src, b + 1, m)),
                },
            }
        },
    }
}

/// Builds the element for a link construct.
fn make_link_exec(target_raw: &Vec<char>, label_raw: Option<Vec<char>>, tok: &Token) -> (r: (
    Element,
    Vec<Warning>,
))
    ensures
        (r.0@, r.1@) == make_link_spec(
            target_raw@,
            match label_raw {
                Some(l) => Some(l@),
                None => None,
            },
            tok@,
        ),
{
    let target = trim_sub(target_raw, 0, target_raw.len());
    proof {
        assert(target_raw@.subrange(0, target_raw@.len() as int) =~= target_raw@);
    }
    if starts_with_str(&target, "http://") || starts_with_str(&target, "https://") {
        let label = match &label_raw {
            Some(l) => LinkLabel::Text(chars_to_string(&trim_sub(l, 0, l.len()))),
            None => LinkLabel::Url(None),
        };
        proof {
            if label_raw is Some {
                let l = label_raw->0;
                assert(l@.subrange(0, l@.len() as int) =~= l@);
            }
        }
        return (
            Element::Link { location: LinkLocation::Url(chars_to_string(&target)), label },
            Vec::new(),
        );
    }
    let target_str = chars_to_string(&target);
    match PageRef::parse(target_str.as_str()) {
        Ok(page_ref) => {
            let label = match &label_raw {
                Some(l) => LinkLabel::Text(chars_to_string(&trim_sub(l, 0, l.len()))),
                None => LinkLabel::Page,
            };
            proof {
                if label_raw is Some {
                    let l = label_raw->0;
                    assert(l@.subrange(0, l@.len() as int) =~= l@);
                }
            }
            (Element::Link { location: LinkLocation::Page(page_ref), label }, Vec::new())
        },
        Err(_) => {
            let mut lit: Vec<char> = Vec::new();
            push_str_chars(&mut lit, "[[[");
            crate::text::push_vec_chars(&mut lit, target_raw);
            match &label_raw {
                Some(l) => {
                    push_str_chars(&mut lit, "|");
                    crate::text::push_vec_chars(&mut lit, l);
                },
                None => {},
            }
            push_str_chars(&mut lit, "]]]");
            let mut ws: Vec<Warning> = Vec::new();
            ws.push(Warning { kind: WarningKind::InvalidReference, span: tok.span });
            proof {
                assert(ws@ =~= seq![warn_at(WarningKind::InvalidReference, tok@)]);
            }
            (Element::Text(chars_to_string(&lit)), ws)
        },
    }
}

/// Builds the element for a `[[ ... ]]` tag block.
fn make_tag_exec(content_raw: &Vec<char>, tok: &Token) -> (r: (Element, Vec<Warning>))
    ensures
        (r.0@, r.1@) == make_tag_spec(content_raw@, tok@),
{
    let c = trim_sub(content_raw, 0, content_raw.len());
    proof {
        assert(content_raw@.subrange(0, content_raw@.len() as int) =~= content_raw@);
    }
    let cn = c.len();
    let (word, rest): (Vec<char>, Vec<char>) = match find_char(&c, 0, ' ') {
        None => (crate::text::sub_vec(&c, 0, cn), Vec::new()),
        Some(sp) => (crate::text::sub_vec(&c, 0, sp), trim_sub(&c, sp + 1, cn)),
    };
    proof {
        assert(c@.subrange(0, c@.len() as int) =~= c@);
    }
    let word_str = chars_to_string(&word);
    if crate::text::str_eq(word_str.as_str(), "image") && rest.len() > 0 {
        (Element::Image { source: image_source_exec(&rest) }, Vec::new())
    } else if crate::text::str_eq(word_str.as_str(), "module") {
        if rest.len() > 0 {
            (Element::Module(Module { name: chars_to_string(&rest) }), Vec::new())
        } else {
            tag_literal_exec(content_raw, WarningKind::UnknownModule, tok)
        }
    } else if crate::text::str_eq(word_str.as_str(), "toc") {
        (Element::TableOfContents, Vec::new())
    } else if crate::text::str_eq(word_str.as_str(), "user") && rest.len() > 0 {
        (Element::User(chars_to_string(&rest)), Vec::new())
    } else if crate::text::str_eq(word_str.as_str(), "code") {
        (Element::CodeBlock(chars_to_string(&rest)), Vec::new())
    } else if crate::text::str_eq(word_str.as_str(), "math") {
        (Element::Math(chars_to_string(&rest)), Vec::new())
    } else if crate::text::str_eq(word_str.as_str(), "include") {
        let rest_str = chars_to_string(&rest);
        match PageRef::parse(rest_str.as_str()) {
            Ok(page_ref) => (Element::Include(page_ref), Vec::new()),
            Err(_) => tag_literal_exec(content_raw, WarningKind::InvalidReference, tok),
        }
    } else if crate::text::str_eq(word_str.as_str(), "footnote") {
        (Element::Footnote(chars_to_string(&rest)), Vec::new())
    } else {
        tag_literal_exec(content_raw, WarningKind::UnrecognizedTag, tok)
    }
}

/// The literal-text degradation of a tag block, with its warning.
fn tag_literal_exec(content_raw: &Vec<char>, kind: WarningKind, tok: &Token) -> (r: (
    Element,
    Vec<Warning>,
))
    ensures
        r.0@ == ElemView::Text(tag_literal_spec(content_raw@)),
        r.1@ == seq![warn_at(kind, tok@)],
{
    let mut lit: Vec<char> = Vec::new();
    push_str_chars(&mut lit, "[[");
    crate::text::push_vec_chars(&mut lit, content_raw);
    push_str_chars(&mut lit, "]]");
    let mut ws: Vec<Warning> = Vec::new();
    ws.push(Warning { kind, span: tok.span });
    proof {
        assert(ws@ =~= seq![warn_at(kind, tok@)]);
    }
    (Element::Text(chars_to_string(&lit)), ws)
}

/// Parses inline content until `stop`.
fn parse_inline_exec(tokens: &Vec<Token>, i: usize, stop: StopAt, depth: usize) -> (r: (
    Vec<Element>,
    Vec<Warning>,
    usize,
    bool,
))
    requires
        i <= tokens@.len(),
    ensures
        elems_view(r.0@) == parse_inline_from(tokens_view(tokens@), i as int, stop, depth as int).0,
        r.1@ == parse_inline_from(tokens_view(tokens@), i as int, stop, depth as int).1,
        r.2 as int == parse_inline_from(tokens_view(tokens@), i as int, stop, depth as int).2,
        r.3 == parse_inline_from(tokens_view(tokens@), i as int, stop, depth as int).3,
        i <= r.2 <= tokens@.len(),
    decreases tokens@.len() - i,
{
    let ghost ts = tokens_view(tokens@);
    let n = tokens.len();
    if i >= n {
        return (Vec::new(), Vec::new(), i, false);
    }
    proof {
        assert(ts[i as int] == tokens@[i as int]@);
    }
    let tok = &tokens[i];
    if stop == StopAt::Style(tok.kind) {
        return (Vec::new(), Vec::new(), i + 1, true);
    }
    if tok.kind == TokenKind::Newline {
        match stop {
            StopAt::Line => (Vec::new(), Vec::new(), i + 1, true),
            StopAt::Style(_) => (Vec::new(), Vec::new(), i, false),
            StopAt::Para => {
                proof {
                    if i + 1 < n {
                        assert(ts[i + 1 as int] == tokens@[i + 1 as int]@);
                    }
                }
                if i + 1 >= n || tokens[i + 1].kind == TokenKind::Newline {
                    (Vec::new(), Vec::new(), i + 1, true)
                } else {
                    let (rest, ws, end, closed) = parse_inline_exec(tokens, i + 1, stop, depth);
                    (cons_elem(Element::Text(tok.text.clone()), rest), ws, end, closed)
                }
            },
        }
    } else if tok.kind == TokenKind::Bold || tok.kind == TokenKind::Italics {
        if depth >= MAX_NESTING_DEPTH {
            let (rest, ws, end, closed) = parse_inline_exec(tokens, i + 1, stop, depth);
            (
                cons_elem(Element::Text(tok.text.clone()), rest),
                cons_warn(Warning { kind: WarningKind::DepthExceeded, span: tok.span }, ws),
                end,
                closed,
            )
        } else {
            let (inner, w1, j, closed_in) = parse_inline_exec(
                tokens,
                i + 1,
                StopAt::Style(tok.kind),
                depth + 1,
            );
            let j2 = if i < j && j <= n {
                j
            } else {
                i + 1
            };
            let (rest, w2, end, closed) = parse_inline_exec(tokens, j2, stop, depth);
            if closed_in {
                let elem = if tok.kind == TokenKind::Bold {
                    Element::Bold(inner)
                } else {
                    Element::Italics(inner)
                };
                (cons_elem(elem, rest), concat_warns(w1, w2), end, closed)
            } else {
                let ghost innerv = elems_view(inner@);
                let elems = cons_elem(Element::Text(tok.text.clone()), concat_elems(inner, rest));
                let warn = Warning { kind: WarningKind::UnclosedBlock, span: tok.span };
                let ws = concat_warns(w1, cons_warn(warn, w2));
                proof {
                    assert(ws@ =~= parse_inline_from(ts, i as int, stop, depth as int).1);
                    assert(elems_view(elems@) =~= parse_inline_from(
                        ts,
                        i as int,
                        stop,
                        depth as int,
                    ).0);
                }
                (elems, ws, end, closed)
            }
        }
    } else if tok.kind == TokenKind::LeftLink {
        let (target_raw, p) = raw_until_exec(tokens, i + 1, TokenKind::Pipe, TokenKind::RightLink);
        proof {
            if p < n {
                assert(ts[p as int] == tokens@[p as int]@);
            }
        }
        if p >= n || tokens[p].kind == TokenKind::Newline {
            let (rest, ws, end, closed) = parse_inline_exec(tokens, i + 1, stop, depth);
            (
                cons_elem(Element::Text(tok.text.clone()), rest),
                cons_warn(Warning { kind: WarningKind::UnclosedBlock, span: tok.span }, ws),
                end,
                closed,
            )
        } else if tokens[p].kind == TokenKind::Pipe {
            let (label_raw, q) = raw_until_exec(
                tokens,
                p + 1,
                TokenKind::RightLink,
                TokenKind::RightLink,
            );
            proof {
                if q < n {
                    assert(ts[q as int] == tokens@[q as int]@);
                }
            }
            if q >= n || tokens[q].kind == TokenKind::Newline {
                let (rest, ws, end, closed) = parse_inline_exec(tokens, i + 1, stop, depth);
                (
                    cons_elem(Element::Text(tok.text.clone()), rest),
                    cons_warn(Warning { kind: WarningKind::UnclosedBlock, span: tok.span }, ws),
                    end,
                    closed,
                )
            } else {
                let (elem, ws1) = make_link_exec(&target_raw, Some(label_raw), tok);
                let j2 = if i < q + 1 && q + 1 <= n {
                    q + 1
                } else {
                    i + 1
                };
                let (rest, ws, end, closed) = parse_inline_exec(tokens, j2, stop, depth);
                (cons_elem(elem, rest), concat_warns(ws1, ws), end, closed)
            }
        } else {
            let (elem, ws1) = make_link_exec(&target_raw, None, tok);
            let j2 = if i < p + 1 && p + 1 <= n {
                p + 1
            } else {
                i + 1
            };
            let (rest, ws, end, closed) = parse_inline_exec(tokens, j2, stop, depth);
            (cons_elem(elem, rest), concat_warns(ws1, ws), end, closed)
        }
    } else if tok.kind == TokenKind::LeftTag {
        let (content_raw, p) = raw_until_exec(tokens, i + 1, TokenKind::RightTag,
            TokenKind::RightTag);
        proof {
            if p < n {
                assert(ts[p as int] == tokens@[p as int]@);
            }
        }
        if p >= n || !(tokens[p].kind == TokenKind::RightTag) {
            let (rest, ws, end, closed) = parse_inline_exec(tokens, i + 1, stop, depth);
            (
                cons_elem(Element::Text(tok.text.clone()), rest),
                cons_warn(Warning { kind: WarningKind::UnclosedBlock, span: tok.span }, ws),
                end,
                closed,
            )
        } else {
            let (elem, ws1) = make_tag_exec(&content_raw, tok);
            let j2 = if i < p + 1 && p + 1 <= n {
                p + 1
            } else {
                i + 1
            };
            let (rest, ws, end, closed) = parse_inline_exec(tokens, j2, stop, depth);
            (cons_elem(elem, rest), concat_warns(ws1, ws), end, closed)
        }
    } else {
        let (rest, ws, end, closed) = parse_inline_exec(tokens, i + 1, stop, depth);
        (cons_elem(Element::Text(tok.text.clone()), rest), ws, end, closed)
    }
}

/// Parses the cells of one table row.
fn parse_table_cells_exec(tokens: &Vec<Token>, i: usize) -> (r: (
    Vec<Element>,
    Vec<Warning>,
    usize,
))
    requires
        i <= tokens@.len(),
    ensures
        elems_view(r.0@) == parse_table_cells(tokens_view(tokens@), i as int).0,
        r.1@ == parse_table_cells(tokens_view(tokens@), i as int).1,
        r.2 as int == parse_table_cells(tokens_view(tokens@), i as int).2,
        i <= r.2 <= tokens@.len(),
    decreases tokens@.len() - i,
{
    let ghost ts = tokens_view(tokens@);
    let n = tokens.len();
    let (cell, w1, j, closed) = parse_inline_exec(tokens, i, StopAt::Style(TokenKind::Pipe), 0);
    if !closed {
        if cell.len() == 0 {
            proof {
                crate::tree::lemma_elems_view_len(cell@);
            }
            (Vec::new(), w1, j)
        } else {
            proof {
                crate::tree::lemma_elems_view_len(cell@);
            }
            (cons_elem(Element::TableCell(cell), Vec::new()), w1, j)
        }
    } else {
        proof {
            if j < n {
                assert(ts[j as int] == tokens@[j as int]@);
            }
        }
        let after = if j < n && tokens[j].kind == TokenKind::Pipe {
            j + 1
        } else {
            j
        };
        proof {
            if after < n {
                assert(ts[after as int] == tokens@[after as int]@);
            }
        }
        if after >= n || tokens[after].kind == TokenKind::Newline {
            (cons_elem(Element::TableCell(cell), Vec::new()), w1, after)
        } else {
            let j2 = if i < after && after <= n {
                after
            } else {
                i + 1
            };
            let (rest, w2, end) = parse_table_cells_exec(tokens, j2);
            (cons_elem(Element::TableCell(cell), rest), concat_warns(w1, w2), end)
        }
    }
}

/// Parses the consecutive table rows starting at `i`.
fn parse_table_rows_exec(tokens: &Vec<Token>, i: usize) -> (r: (
    Vec<Element>,
    Vec<Warning>,
    usize,
))
    requires
        i <= tokens@.len(),
    ensures
        elems_view(r.0@) == parse_table_rows(tokens_view(tokens@), i as int).0,
        r.1@ == parse_table_rows(tokens_view(tokens@), i as int).1,
        r.2 as int == parse_table_rows(tokens_view(tokens@), i as int).2,
        i <= r.2 <= tokens@.len(),
    decreases tokens@.len() - i,
{
    let ghost ts = tokens_view(tokens@);
    let n = tokens.len();
    proof {
        if i < n {
            assert(ts[i as int] == tokens@[i as int]@);
        }
        if i + 1 < n {
            assert(ts[i + 1 as int] == tokens@[i + 1 as int]@);
        }
    }
    if n - i >= 2 && tokens[i].kind == TokenKind::Pipe && tokens[i + 1].kind == TokenKind::Pipe {
        let start = if i < i + 2 && i + 2 <= n {
            i + 2
        } else {
            i + 1
        };
        let (cells, w1, j) = parse_table_cells_exec(tokens, start);
        proof {
            if j < n {
                assert(ts[j as int] == tokens@[j as int]@);
            }
        }
        let j2 = if j < n && tokens[j].kind == TokenKind::Newline {
            j + 1
        } else {
            j
        };
        let j3 = if i < j2 && j2 <= n {
            j2
        } else {
            i + 1
        };
        let (rest, w2, end) = parse_table_rows_exec(tokens, j3);
        (cons_elem(Element::TableRow(cells), rest), concat_warns(w1, w2), end)
    } else {
        (Vec::new(), Vec::new(), i)
    }
}

/// Parses the consecutive list items marked by `marker` lines.
fn parse_list_exec(tokens: &Vec<Token>, i: usize, marker: TokenKind) -> (r: (
    Vec<Element>,
    Vec<Warning>,
    usize,
))
    requires
        i <= tokens@.len(),
    ensures
        elems_view(r.0@) == parse_list_from(tokens_view(tokens@), i as int, marker).0,
        r.1@ == parse_list_from(tokens_view(tokens@), i as int, marker).1,
        r.2 as int == parse_list_from(tokens_view(tokens@), i as int, marker).2,
        i <= r.2 <= tokens@.len(),
    decreases tokens@.len() - i,
{
    let ghost ts = tokens_view(tokens@);
    let n = tokens.len();
    if i >= n {
        return (Vec::new(), Vec::new(), i);
    }
    proof {
        assert(ts[i as int] == tokens@[i as int]@);
    }
    if !(tokens[i].kind == marker) {
        return (Vec::new(), Vec::new(), i);
    }
    let (inner, w1, j, _closed) = parse_inline_exec(tokens, i + 1, StopAt::Line, 0);
    let j2 = if i < j && j <= n {
        j
    } else {
        i + 1
    };
    let (rest, w2, end) = parse_list_exec(tokens, j2, marker);
    (cons_elem(Element::ListItem(inner), rest), concat_warns(w1, w2), end)
}

/// Parses block-level content from position `i`.
fn parse_blocks_exec(tokens: &Vec<Token>, i: usize) -> (r: (Vec<Element>, Vec<Warning>))
    requires
        i <= tokens@.len(),
    ensures
        elems_view(r.0@) == parse_blocks_from(tokens_view(tokens@), i as int).0,
        r.1@ == parse_blocks_from(tokens_view(tokens@), i as int).1,
    decreases tokens@.len() - i,
{
    let ghost ts = tokens_view(tokens@);
    let n = tokens.len();
    if i >= n {
        return (Vec::new(), Vec::new());
    }
    proof {
        assert(ts[i as int] == tokens@[i as int]@);
    }
    let tok = &tokens[i];
    if tok.kind == TokenKind::Newline {
        parse_blocks_exec(tokens, i + 1)
    } else if tok.kind == TokenKind::PlusRun && 1 <= tok.span.len && tok.span.len <= 6 {
        let (inner, w1, j, _closed) = parse_inline_exec(tokens, i + 1, StopAt::Line, 0);
        let j2 = if i < j && j <= n {
            j
        } else {
            i + 1
        };
        let (rest, w2) = parse_blocks_exec(tokens, j2);
        let level = match tok.span.len {
            1 => HeadingLevel::H1,
            2 => HeadingLevel::H2,
            3 => HeadingLevel::H3,
            4 => HeadingLevel::H4,
            5 => HeadingLevel::H5,
            _ => HeadingLevel::H6,
        };
        (cons_elem(Element::Heading { level, elements: inner }, rest), concat_warns(w1, w2))
    } else if tok.kind == TokenKind::DashRun && tok.span.len >= 4 && (i + 1 >= n || tokens[i
        + 1].kind == TokenKind::Newline) {
        proof {
            if i + 1 < n {
                assert(ts[i + 1 as int] == tokens@[i + 1 as int]@);
            }
        }
        let (rest, w2) = parse_blocks_exec(tokens, i + 1);
        (cons_elem(Element::HorizontalRule, rest), w2)
    } else if tok.kind == TokenKind::Pipe && i + 1 < n && tokens[i + 1].kind == TokenKind::Pipe {
        proof {
            assert(ts[i + 1 as int] == tokens@[i + 1 as int]@);
        }
        let (rows, w1, j) = parse_table_rows_exec(tokens, i);
        let j2 = if i < j && j <= n {
            j
        } else {
            i + 1
        };
        let (rest, w2) = parse_blocks_exec(tokens, j2);
        (cons_elem(Element::Table(rows), rest), concat_warns(w1, w2))
    } else if tok.kind == TokenKind::Star || tok.kind == TokenKind::Hash {
        let ordered = tok.kind == TokenKind::Hash;
        let (items, w1, j) = parse_list_exec(tokens, i, tok.kind);
        let j2 = if i < j && j <= n {
            j
        } else {
            i + 1
        };
        let (rest, w2) = parse_blocks_exec(tokens, j2);
        (cons_elem(Element::List { ordered, items }, rest), concat_warns(w1, w2))
    } else if tok.kind == TokenKind::QuoteRun {
        let (inner, w1, j, _closed) = parse_inline_exec(tokens, i + 1, StopAt::Line, 0);
        let j2 = if i < j && j <= n {
            j
        } else {
            i + 1
        };
        let (rest, w2) = parse_blocks_exec(tokens, j2);
        (cons_elem(Element::Blockquote(inner), rest), concat_warns(w1, w2))
    } else {
        proof {
            if i + 1 < n {
                assert(ts[i + 1 as int] == tokens@[i + 1 as int]@);
            }
        }
        let (inner, w1, j, _closed) = parse_inline_exec(tokens, i, StopAt::Para, 0);
        let j2 = if i < j && j <= n {
            j
        } else {
            i + 1
        };
        let (rest, w2) = parse_blocks_exec(tokens, j2);
        (cons_elem(Element::Paragraph(inner), rest), concat_warns(w1, w2))
    }
}

/// Parses a token stream into a syntax tree plus ordered warnings.
///
/// Total and deterministic: every token stream yields a tree, malformed
/// constructs degrade to literal text with a warning, and identical token
/// streams yield identical trees and warning lists.
pub fn parse(tokens: &Vec<Token>, page_info: &PageInfo, settings: &WikitextSettings) -> (r: (
    SyntaxTree,
    Vec<Warning>,
))
    ensures
        r.0@ == parse_result_spec(tokens_view(tokens@)).0,
        r.1@ == parse_result_spec(tokens_view(tokens@)).1,
{
    let (elements, warnings) = parse_blocks_exec(tokens, 0);
    (SyntaxTree { elements }, warnings)
}

} // verus!
