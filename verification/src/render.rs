//! The renderers: a syntax tree to HTML or plain text.
//!
//! The walk is recursive descent over the already-built tree. Every fact
//! the text alone cannot supply comes from one handle call per fact; the
//! renderer itself performs no I/O and never fails on well-formed trees.
//! The output equals a mathematical function of the tree, the page context,
//! the settings and the handle's facts.

use vstd::prelude::*;
use crate::data::{PageInfo, PageInfoView};
use crate::handle::{
    build_url_spec, image_link_spec, link_label_spec, message_spec, module_placeholder_spec,
    page_exists_spec, resolved_site_spec, user_profile_url_spec, Handle, HandleView,
};
use crate::page_ref::PageRefView;
use crate::settings::{ModuleRenderMode, WikitextSettings};
use crate::text::{chars_to_string, push_str_chars};
use crate::tree::{
    elem_wf, elems_view, elems_wf, lemma_elems_view_index, lemma_elems_view_len, Element, ElemView,
    HeadingLevel, LinkLabelView, LinkLocationView, SyntaxTree,
};

verus! {

/// The escaped form of one character in HTML text or attribute position.
pub open spec fn esc_char(c: char) -> Seq<char> {
    if c == '&' {
        "&amp;"@
    } else if c == '<' {
        "&lt;"@
    } else if c == '>' {
        "&gt;"@
    } else if c == '"' {
        "&quot;"@
    } else {
        seq![c]
    }
}

/// The HTML-escaped form of a string.
pub open spec fn escape_html_spec(s: Seq<char>) -> Seq<char>
    decreases s.len(),
{
    if s.len() == 0 {
        Seq::empty()
    } else {
        escape_html_spec(s.drop_last()) + esc_char(s.last())
    }
}

/// Appends the HTML-escaped form of `s`.
pub fn push_escaped(out: &mut Vec<char>, s: &str)
    ensures
        final(out)@ == old(out)@ + escape_html_spec(s@),
{
    let n = s.unicode_len();
    let mut i: usize = 0;
    while i < n
        invariant
            n == s@.len(),
            0 <= i <= n,
            out@ == old(out)@ + escape_html_spec(s@.subrange(0, i as int)),
        decreases n - i,
    {
        let c = s.get_char(i);
        if c == '&' {
            push_str_chars(out, "&amp;");
        } else if c == '<' {
            push_str_chars(out, "&lt;");
        } else if c == '>' {
            push_str_chars(out, "&gt;");
        } else if c == '"' {
            push_str_chars(out, "&quot;");
        } else {
            out.push(c);
        }
        proof {
            let pre = s@.subrange(0, i + 1 as int);
            assert(pre.drop_last() =~= s@.subrange(0, i as int));
            assert(pre.last() == s@[i as int]);
            if !(c == '&' || c == '<' || c == '>' || c == '"') {
                assert(out@ =~= old(out)@ + (escape_html_spec(s@.subrange(0, i as int)) + seq![c]));
            }
        }
        i = i + 1;
    }
    assert(s@.subrange(0, n as int) =~= s@);
}

/// The digit character of a heading level.
pub open spec fn level_digit(level: HeadingLevel) -> char {
    match level {
        HeadingLevel::H1 => '1',
        HeadingLevel::H2 => '2',
        HeadingLevel::H3 => '3',
        HeadingLevel::H4 => '4',
        HeadingLevel::H5 => '5',
        HeadingLevel::H6 => '6',
    }
}

/// A link's target URL: the literal URL, or the page's canonical address.
pub open spec fn link_href_spec(location: LinkLocationView, info: PageInfoView) -> Seq<char> {
    match location {
        LinkLocationView::Url(url) => url,
        LinkLocationView::Page(page_ref) => build_url_spec(
            resolved_site_spec(page_ref, info.site),
            page_ref.page,
        ),
    }
}

/// Whether a link's target exists: handle facts for pages, always for URLs.
pub open spec fn link_exists_spec(
    location: LinkLocationView,
    current_site: Seq<char>,
    h: HandleView,
) -> bool {
    match location {
        LinkLocationView::Url(url) => true,
        LinkLocationView::Page(page_ref) => page_exists_spec(
            h,
            resolved_site_spec(page_ref, current_site),
            page_ref.page,
        ),
    }
}

/// The HTML rendering of one element.
pub open spec fn render_elem_html(
    e: ElemView,
    info: PageInfoView,
    settings: WikitextSettings,
    h: HandleView,
) -> Seq<char>
    decreases e,
{
    match e {
        ElemView::Text(t) => escape_html_spec(t),
        ElemView::Italics(children) => "<em>"@ + render_elems_html(children, 0, info, settings, h)
            + "</em>"@,
        ElemView::Bold(children) => "<strong>"@ + render_elems_html(children, 0, info, settings, h)
            + "</strong>"@,
        ElemView::Heading { level, elements } => "<h"@ + seq![level_digit(level)] + ">"@
            + render_elems_html(elements, 0, info, settings, h) + "</h"@ + seq![
            level_digit(level),
        ] + ">"@,
        ElemView::Paragraph(children) => "<p>"@ + render_elems_html(children, 0, info, settings, h)
            + "</p>"@,
        ElemView::Blockquote(children) => "<blockquote>"@ + render_elems_html(
            children,
            0,
            info,
            settings,
            h,
        ) + "</blockquote>"@,
        ElemView::Table(rows) => "<table>"@ + render_elems_html(rows, 0, info, settings, h)
            + "</table>"@,
        ElemView::TableRow(cells) => "<tr>"@ + render_elems_html(cells, 0, info, settings, h)
            + "</tr>"@,
        ElemView::TableCell(children) => "<td>"@ + render_elems_html(children, 0, info, settings, h)
            + "</td>"@,
        ElemView::List { ordered, items } => if ordered {
            "<ol>"@ + render_elems_html(items, 0, info, settings, h) + "</ol>"@
        } else {
            "<ul>"@ + render_elems_html(items, 0, info, settings, h) + "</ul>"@
        },
        ElemView::ListItem(children) => "<li>"@ + render_elems_html(children, 0, info, settings, h)
            + "</li>"@,
        ElemView::HorizontalRule => "<hr>"@,
        ElemView::Link { location, label } => {
            let href = link_href_spec(location, info);
            let text = link_label_spec(h, info.site, location, label);
            if link_exists_spec(location, info.site, h) {
                "<a href=\""@ + escape_html_spec(href) + "\">"@ + escape_html_spec(text)
                    + "</a>"@
            } else {
                "<a class=\"newpage\" href=\""@ + escape_html_spec(href) + "\">"@
                    + escape_html_spec(text) + "</a>"@
            }
        },
        ElemView::Image { source } => match image_link_spec(source, info, settings) {
            Some(url) => "<img src=\""@ + escape_html_spec(url) + "\">"@,
            None => "<span class=\"image-missing\">"@ + escape_html_spec(
                message_spec(info.language, "image-context-bad"@),
            ) + "</span>"@,
        },
        ElemView::Module(name) => module_placeholder_spec(name, ModuleRenderMode::Html),
        ElemView::CodeBlock(code) => "<pre><code>"@ + escape_html_spec(code) + "</code></pre>"@,
        ElemView::Math(source) => "<span class=\"math\">"@ + escape_html_spec(source)
            + "</span>"@,
        ElemView::Include(page_ref) => "<div class=\"include\">"@ + escape_html_spec(
            crate::page_ref::canonical_spec(page_ref),
        ) + "</div>"@,
        ElemView::Footnote(text) => "<sup class=\"footnote\">"@ + escape_html_spec(
            message_spec(info.language, "footnote"@),
        ) + "</sup><span class=\"footnote-text\">"@ + escape_html_spec(text) + "</span>"@,
        ElemView::TableOfContents => "<div class=\"toc\">"@ + escape_html_spec(
            message_spec(info.language, "table-of-contents"@),
        ) + "</div>"@,
        ElemView::User(name) => "<a class=\"user\" href=\""@ + escape_html_spec(
            user_profile_url_spec(name),
        ) + "\">"@ + escape_html_spec(name) + "</a>"@,
    }
}

/// The HTML rendering of the elements at or after position `i`.
pub open spec fn render_elems_html(
    es: Seq<ElemView>,
    i: int,
    info: PageInfoView,
    settings: WikitextSettings,
    h: HandleView,
) -> Seq<char>
    decreases es, es.len() - i when 0 <= i <= es.len()
{
    if i >= es.len() {
        Seq::empty()
    } else {
        render_elem_html(es[i], info, settings, h) + render_elems_html(es, i + 1, info, settings, h)
    }
}

/// The plain-text rendering of one element.
pub open spec fn render_elem_text(
    e: ElemView,
    info: PageInfoView,
    settings: WikitextSettings,
    h: HandleView,
) -> Seq<char>
    decreases e,
{
    match e {
        ElemView::Text(t) => t,
        ElemView::Italics(children) => render_elems_text(children, 0, info, settings, h),
        ElemView::Bold(children) => render_elems_text(children, 0, info, settings, h),
        ElemView::Heading { level, elements } => render_elems_text(elements, 0, info, settings, h)
            + "\n"@,
        ElemView::Paragraph(children) => render_elems_text(children, 0, info, settings, h) + "\n"@,
        ElemView::Blockquote(children) => render_elems_text(children, 0, info, settings, h) + "\n"@,
        ElemView::Table(rows) => render_elems_text(rows, 0, info, settings, h),
        ElemView::TableRow(cells) => render_elems_text(cells, 0, info, settings, h) + "\n"@,
        ElemView::TableCell(children) => render_elems_text(children, 0, info, settings, h) + " "@,
        ElemView::List { ordered, items } => render_elems_text(items, 0, info, settings, h),
        ElemView::ListItem(children) => render_elems_text(children, 0, info, settings, h) + "\n"@,
        ElemView::HorizontalRule => "----\n"@,
        ElemView::Link { location, label } => link_label_spec(h, info.site, location, label),
        ElemView::Image { source } => match image_link_spec(source, info, settings) {
            Some(url) => url,
            None => message_spec(info.language, "image-context-bad"@),
        },
        ElemView::Module(name) => module_placeholder_spec(name, ModuleRenderMode::Text),
        ElemView::CodeBlock(code) => code + "\n"@,
        ElemView::Math(source) => source,
        ElemView::Include(page_ref) => crate::page_ref::canonical_spec(page_ref),
        ElemView::Footnote(text) => "["@ + message_spec(info.language, "footnote"@) + ": "@ + text
            + "]"@,
        ElemView::TableOfContents => message_spec(info.language, "table-of-contents"@),
        ElemView::User(name) => name,
    }
}

/// The plain-text rendering of the elements at or after position `i`.
pub open spec fn render_elems_text(
    es: Seq<ElemView>,
    i: int,
    info: PageInfoView,
    settings: WikitextSettings,
    h: HandleView,
) -> Seq<char>
    decreases es, es.len() - i when 0 <= i <= es.len()
{
    if i >= es.len() {
        Seq::empty()
    } else {
        render_elem_text(es[i], info, settings, h) + render_elems_text(es, i + 1, info, settings, h)
    }
}

/// Missing-page distinction: with the same page reference, label, context
/// and titles, a link to a missing page renders with the distinct
/// `newpage` marker, an existing-page link without it, and the two
/// renderings differ.
pub proof fn lemma_missing_page_marker(
    page_ref: PageRefView,
    label: LinkLabelView,
    info: PageInfoView,
    settings: WikitextSettings,
    h_exists: HandleView,
    h_missing: HandleView,
)
    requires
        page_exists_spec(h_exists, resolved_site_spec(page_ref, info.site), page_ref.page),
        !page_exists_spec(h_missing, resolved_site_spec(page_ref, info.site), page_ref.page),
        h_exists.page_titles == h_missing.page_titles,
    ensures
        crate::text::has_prefix(
            render_elem_html(
                ElemView::Link { location: LinkLocationView::Page(page_ref), label },
                info,
                settings,
                h_missing,
            ),
            "<a class=\"newpage\""@,
        ),
        crate::text::has_prefix(
            render_elem_html(
                ElemView::Link { location: LinkLocationView::Page(page_ref), label },
                info,
                settings,
                h_exists,
            ),
            "<a href=\""@,
        ),
        render_elem_html(
            ElemView::Link { location: LinkLocationView::Page(page_ref), label },
            info,
            settings,
            h_missing,
        ) != render_elem_html(
            ElemView::Link { location: LinkLocationView::Page(page_ref), label },
            info,
            settings,
            h_exists,
        ),
{
    let e = ElemView::Link { location: LinkLocationView::Page(page_ref), label };
    let location = LinkLocationView::Page(page_ref);
    let href = link_href_spec(location, info);
    let missing_render = render_elem_html(e, info, settings, h_missing);
    let exists_render = render_elem_html(e, info, settings, h_exists);
    lemma_anchor_literals();
    assert(missing_render == "<a class=\"newpage\" href=\""@ + escape_html_spec(href) + "\">"@
        + escape_html_spec(link_label_spec(h_missing, info.site, location, label)) + "</a>"@);
    assert(exists_render == "<a href=\""@ + escape_html_spec(href) + "\">"@ + escape_html_spec(
        link_label_spec(h_exists, info.site, location, label),
    ) + "</a>"@);
    assert(missing_render.subrange(0, "<a class=\"newpage\""@.len() as int) =~=
        "<a class=\"newpage\""@);
    assert(exists_render.subrange(0, "<a href=\""@.len() as int) =~= "<a href=\""@);
    assert(missing_render[3] == 'c');
    assert(exists_render[3] == 'h');
}

/// Reveals the string literals the marker lemma compares.
proof fn lemma_anchor_literals()
    ensures
        "<a class=\"newpage\" href=\""@.len() == 25,
        "<a class=\"newpage\""@.len() == 18,
        "<a href=\""@.len() == 9,
        "<a class=\"newpage\" href=\""@[3] == 'c',
        "<a href=\""@[3] == 'h',
        forall|k: int|
            0 <= k < 18 ==> "<a class=\"newpage\" href=\""@[k] == "<a class=\"newpage\""@[k],
{
    reveal_strlit("<a class=\"newpage\" href=\"");
    reveal_strlit("<a class=\"newpage\"");
    reveal_strlit("<a href=\"");
}

/// Rendering the elements after a whole prefix equals rendering the suffix.
proof fn lemma_render_elems_html_shift(
    a: Seq<ElemView>,
    b: Seq<ElemView>,
    k: int,
    info: PageInfoView,
    settings: WikitextSettings,
    h: HandleView,
)
    requires
        0 <= k <= b.len(),
    ensures
        render_elems_html(a + b, a.len() + k, info, settings, h) == render_elems_html(
            b,
            k,
            info,
            settings,
            h,
        ),
    decreases b.len() - k,
{
    if k < b.len() {
        assert((a + b)[a.len() + k] == b[k]);
        lemma_render_elems_html_shift(a, b, k + 1, info, settings, h);
        assert(render_elems_html(a + b, a.len() + k, info, settings, h) == render_elem_html(
            b[k],
            info,
            settings,
            h,
        ) + render_elems_html(a + b, a.len() + k + 1, info, settings, h));
    } else {
        assert(render_elems_html(a + b, a.len() + k, info, settings, h)
            == Seq::<char>::empty());
        assert(render_elems_html(b, k, info, settings, h) == Seq::<char>::empty());
    }
}

/// Rendering distributes over concatenation of element lists.
pub proof fn lemma_render_elems_html_concat(
    a: Seq<ElemView>,
    b: Seq<ElemView>,
    i: int,
    info: PageInfoView,
    settings: WikitextSettings,
    h: HandleView,
)
    requires
        0 <= i <= a.len(),
    ensures
        render_elems_html(a + b, i, info, settings, h) == render_elems_html(a, i, info, settings, h)
            + render_elems_html(b, 0, info, settings, h),
    decreases a.len() - i,
{
    if i < a.len() {
        assert((a + b)[i] == a[i]);
        lemma_render_elems_html_concat(a, b, i + 1, info, settings, h);
        assert(render_elems_html(a + b, i, info, settings, h) =~= render_elems_html(
            a,
            i,
            info,
            settings,
            h,
        ) + render_elems_html(b, 0, info, settings, h));
    } else {
        lemma_render_elems_html_shift(a, b, 0, info, settings, h);
        assert(a.len() + 0 == i);
        assert(render_elems_html(a, i, info, settings, h) == Seq::<char>::empty());
        assert(render_elems_html(a + b, i, info, settings, h) =~= render_elems_html(
            a,
            i,
            info,
            settings,
            h,
        ) + render_elems_html(b, 0, info, settings, h));
    }
}

/// Missing-page distinction across a whole document. For a document made of
/// a prefix, a link to a page, and a suffix, where the surrounding content
/// renders the same whether or not that page exists, the rendering with the
/// page missing differs from the rendering with it existing and carries the
/// distinct `newpage` marker at the link's position.
pub proof fn lemma_missing_page_marker_document(
    pre: Seq<ElemView>,
    post: Seq<ElemView>,
    page_ref: PageRefView,
    label: LinkLabelView,
    info: PageInfoView,
    settings: WikitextSettings,
    h_exists: HandleView,
    h_missing: HandleView,
)
    requires
        page_exists_spec(h_exists, resolved_site_spec(page_ref, info.site), page_ref.page),
        !page_exists_spec(h_missing, resolved_site_spec(page_ref, info.site), page_ref.page),
        h_exists.page_titles == h_missing.page_titles,
        render_elems_html(pre, 0, info, settings, h_exists) == render_elems_html(
            pre,
            0,
            info,
            settings,
            h_missing,
        ),
        render_elems_html(post, 0, info, settings, h_exists) == render_elems_html(
            post,
            0,
            info,
            settings,
            h_missing,
        ),
    ensures
        render_elems_html(
            pre + seq![ElemView::Link { location: LinkLocationView::Page(page_ref), label }] + post,
            0,
            info,
            settings,
            h_missing,
        ) != render_elems_html(
            pre + seq![ElemView::Link { location: LinkLocationView::Page(page_ref), label }] + post,
            0,
            info,
            settings,
            h_exists,
        ),
        crate::text::contains_seq(
            render_elems_html(
                pre + seq![
                    ElemView::Link { location: LinkLocationView::Page(page_ref), label },
                ] + post,
                0,
                info,
                settings,
                h_missing,
            ),
            "<a class=\"newpage\""@,
        ),
{
    let link = ElemView::Link { location: LinkLocationView::Page(page_ref), label };
    let location = LinkLocationView::Page(page_ref);
    let doc = pre + seq![link] + post;
    lemma_missing_page_marker(page_ref, label, info, settings, h_exists, h_missing);
    lemma_anchor_literals();
    let lm = render_elem_html(link, info, settings, h_missing);
    let le = render_elem_html(link, info, settings, h_exists);
    // The label does not depend on the missing list: both handles carry the
    // same titles.
    assert(crate::handle::title_spec(
        h_missing,
        resolved_site_spec(page_ref, info.site),
        page_ref.page,
    ) == crate::handle::title_spec(
        h_exists,
        resolved_site_spec(page_ref, info.site),
        page_ref.page,
    ));
    assert(link_label_spec(h_missing, info.site, location, label) == link_label_spec(
        h_exists,
        info.site,
        location,
        label,
    ));
    assert(lm == "<a class=\"newpage\" href=\""@ + escape_html_spec(link_href_spec(location, info))
        + "\">"@ + escape_html_spec(link_label_spec(h_missing, info.site, location, label))
        + "</a>"@);
    assert(le == "<a href=\""@ + escape_html_spec(link_href_spec(location, info)) + "\">"@
        + escape_html_spec(link_label_spec(h_exists, info.site, location, label)) + "</a>"@);
    assert(lm.len() == le.len() + 16);
    let xm = render_elems_html(pre, 0, info, settings, h_missing);
    let ym = render_elems_html(post, 0, info, settings, h_missing);
    lemma_render_elems_html_concat(pre + seq![link], post, 0, info, settings, h_missing);
    lemma_render_elems_html_concat(pre, seq![link], 0, info, settings, h_missing);
    lemma_render_elems_html_concat(pre + seq![link], post, 0, info, settings, h_exists);
    lemma_render_elems_html_concat(pre, seq![link], 0, info, settings, h_exists);
    assert(render_elems_html(seq![link], 1, info, settings, h_missing) == Seq::<char>::empty());
    assert(render_elems_html(seq![link], 1, info, settings, h_exists) == Seq::<char>::empty());
    assert(seq![link][0] == link);
    assert(render_elems_html(seq![link], 0, info, settings, h_missing) =~= lm);
    assert(render_elems_html(seq![link], 0, info, settings, h_exists) =~= le);
    let wm = render_elems_html(doc, 0, info, settings, h_missing);
    let we = render_elems_html(doc, 0, info, settings, h_exists);
    assert(wm == xm + lm + ym);
    assert(we == xm + le + ym);
    assert(wm.len() == xm.len() + lm.len() + ym.len());
    assert(we.len() == xm.len() + le.len() + ym.len());
    assert(wm.len() != we.len());
    assert(wm != we);
    // The marker stands at the link's offset in the missing-page rendering.
    let xlen = xm.len() as int;
    assert(lm.subrange(0, 18) == "<a class=\"newpage\""@);
    assert(18 <= lm.len());
    assert forall|j: int| 0 <= j < 18 implies wm[xlen + j] == "<a class=\"newpage\""@[j] by {
        assert(wm[xlen + j] == (xm + lm)[xlen + j]);
        assert((xm + lm)[xlen + j] == lm[j]);
        assert(lm[j] == lm.subrange(0, 18)[j]);
    }
    assert(wm.subrange(xlen, xlen + 18) =~= "<a class=\"newpage\""@);
    assert(wm.subrange(xlen, xlen + "<a class=\"newpage\""@.len() as int) == "<a class=\"newpage\""@);
    assert(0 <= xlen && xlen + "<a class=\"newpage\""@.len() <= wm.len());
    assert(crate::text::contains_seq(wm, "<a class=\"newpage\""@));
}

/// Appends the HTML rendering of one element.
fn render_elem_html_exec(
    e: &Element,
    out: &mut Vec<char>,
    info: &PageInfo,
    settings: &WikitextSettings,
    handle: &Handle,
)
    requires
        elem_wf(e@),
    ensures
        final(out)@ == old(out)@ + render_elem_html(e@, info@, *settings, handle@),
    decreases *e,
{
    match e {
        Element::Text(t) => {
            push_escaped(out, t.as_str());
        },
        Element::Italics(children) => {
            push_str_chars(out, "<em>");
            render_elems_html_exec(children, 0, out, info, settings, handle);
            push_str_chars(out, "</em>");
        },
        Element::Bold(children) => {
            push_str_chars(out, "<strong>");
            render_elems_html_exec(children, 0, out, info, settings, handle);
            push_str_chars(out, "</strong>");
        },
        Element::Heading { level, elements } => {
            push_str_chars(out, "<h");
            out.push(level_digit_exec(*level));
            push_str_chars(out, ">");
            render_elems_html_exec(elements, 0, out, info, settings, handle);
            push_str_chars(out, "</h");
            out.push(level_digit_exec(*level));
            push_str_chars(out, ">");
        },
        Element::Paragraph(children) => {
            push_str_chars(out, "<p>");
            render_elems_html_exec(children, 0, out, info, settings, handle);
            push_str_chars(out, "</p>");
        },
        Element::Blockquote(children) => {
            push_str_chars(out, "<blockquote>");
            render_elems_html_exec(children, 0, out, info, settings, handle);
            push_str_chars(out, "</blockquote>");
        },
        Element::Table(rows) => {
            push_str_chars(out, "<table>");
            render_elems_html_exec(rows, 0, out, info, settings, handle);
            push_str_chars(out, "</table>");
        },
        Element::TableRow(cells) => {
            push_str_chars(out, "<tr>");
            render_elems_html_exec(cells, 0, out, info, settings, handle);
            push_str_chars(out, "</tr>");
        },
        Element::TableCell(children) => {
            push_str_chars(out, "<td>");
            render_elems_html_exec(children, 0, out, info, settings, handle);
            push_str_chars(out, "</td>");
        },
        Element::List { ordered, items } => {
            push_str_chars(out, if *ordered { "<ol>" } else { "<ul>" });
            render_elems_html_exec(items, 0, out, info, settings, handle);
            push_str_chars(out, if *ordered { "</ol>" } else { "</ul>" });
        },
        Element::ListItem(children) => {
            push_str_chars(out, "<li>");
            render_elems_html_exec(children, 0, out, info, settings, handle);
            push_str_chars(out, "</li>");
        },
        Element::HorizontalRule => {
            push_str_chars(out, "<hr>");
        },
        Element::Link { location, label } => {
            let href = match location {
                crate::tree::LinkLocation::Url(url) => url.clone(),
                crate::tree::LinkLocation::Page(page_ref) => {
                    let (site, page) = page_ref.fields_or(info.site.as_str());
                    handle.build_url(site, page)
                },
            };
            let text = handle.get_link_label(info.site.as_str(), location, label);
            let exists = match location {
                crate::tree::LinkLocation::Url(_) => true,
                crate::tree::LinkLocation::Page(page_ref) => {
                    let (site, page) = page_ref.fields_or(info.site.as_str());
                    handle.get_page_exists(site, page)
                },
            };
            if exists {
                push_str_chars(out, "<a href=\"");
            } else {
                push_str_chars(out, "<a class=\"newpage\" href=\"");
            }
            push_escaped(out, href.as_str());
            push_str_chars(out, "\">");
            push_escaped(out, text.as_str());
            push_str_chars(out, "</a>");
        },
        Element::Image { source } => {
            match handle.get_image_link(source, info, settings) {
                Some(url) => {
                    push_str_chars(out, "<img src=\"");
                    push_escaped(out, url.as_str());
                    push_str_chars(out, "\">");
                },
                None => {
                    push_str_chars(out, "<span class=\"image-missing\">");
                    let message = handle.get_message(info.language.as_str(), "image-context-bad");
                    push_escaped(out, message);
                    push_str_chars(out, "</span>");
                },
            }
        },
        Element::Module(module) => {
            let mut buffer = String::new();
            handle.render_module(&mut buffer, module, ModuleRenderMode::Html);
            push_str_chars(out, buffer.as_str());
        },
        Element::CodeBlock(code) => {
            push_str_chars(out, "<pre><code>");
            push_escaped(out, code.as_str());
            push_str_chars(out, "</code></pre>");
        },
        Element::Math(source) => {
            push_str_chars(out, "<span class=\"math\">");
            push_escaped(out, source.as_str());
            push_str_chars(out, "</span>");
        },
        Element::Include(page_ref) => {
            push_str_chars(out, "<div class=\"include\">");
            let canonical = page_ref.canonical_string();
            push_escaped(out, canonical.as_str());
            push_str_chars(out, "</div>");
        },
        Element::Footnote(text) => {
            push_str_chars(out, "<sup class=\"footnote\">");
            let label = handle.get_message(info.language.as_str(), "footnote");
            push_escaped(out, label);
            push_str_chars(out, "</sup><span class=\"footnote-text\">");
            push_escaped(out, text.as_str());
            push_str_chars(out, "</span>");
        },
        Element::TableOfContents => {
            push_str_chars(out, "<div class=\"toc\">");
            let message = handle.get_message(info.language.as_str(), "table-of-contents");
            push_escaped(out, message);
            push_str_chars(out, "</div>");
        },
        Element::User(name) => {
            match handle.get_user_info(name.as_str()) {
                Some(user_info) => {
                    push_str_chars(out, "<a class=\"user\" href=\"");
                    push_escaped(out, user_info.user_profile_url.as_str());
                    push_str_chars(out, "\">");
                    push_escaped(out, user_info.user_name.as_str());
                    push_str_chars(out, "</a>");
                },
                None => {
                    proof {
                        assert(false);
                    }
                },
            }
        },
    }
}

/// Appends the HTML rendering of the elements at or after position `i`.
fn render_elems_html_exec(
    v: &Vec<Element>,
    i: usize,
    out: &mut Vec<char>,
    info: &PageInfo,
    settings: &WikitextSettings,
    handle: &Handle,
)
    requires
        i <= v@.len(),
        elems_wf(elems_view(v@), i as int),
    ensures
        final(out)@ == old(out)@ + render_elems_html(
            elems_view(v@),
            i as int,
            info@,
            *settings,
            handle@,
        ),
    decreases v@, v@.len() - i,
{
    proof {
        lemma_elems_view_len(v@);
    }
    if i >= v.len() {
        return ;
    }
    proof {
        lemma_elems_view_index(v@, i as int);
    }
    render_elem_html_exec(&v[i], out, info, settings, handle);
    render_elems_html_exec(v, i + 1, out, info, settings, handle);
}

/// Appends the plain-text rendering of one element.
fn render_elem_text_exec(
    e: &Element,
    out: &mut Vec<char>,
    info: &PageInfo,
    settings: &WikitextSettings,
    handle: &Handle,
)
    requires
        elem_wf(e@),
    ensures
        final(out)@ == old(out)@ + render_elem_text(e@, info@, *settings, handle@),
    decreases *e,
{
    match e {
        Element::Text(t) => {
            push_str_chars(out, t.as_str());
        },
        Element::Italics(children) => {
            render_elems_text_exec(children, 0, out, info, settings, handle);
        },
        Element::Bold(children) => {
            render_elems_text_exec(children, 0, out, info, settings, handle);
        },
        Element::Heading { level, elements } => {
            render_elems_text_exec(elements, 0, out, info, settings, handle);
            push_str_chars(out, "\n");
        },
        Element::Paragraph(children) => {
            render_elems_text_exec(children, 0, out, info, settings, handle);
            push_str_chars(out, "\n");
        },
        Element::Blockquote(children) => {
            render_elems_text_exec(children, 0, out, info, settings, handle);
            push_str_chars(out, "\n");
        },
        Element::Table(rows) => {
            render_elems_text_exec(rows, 0, out, info, settings, handle);
        },
        Element::TableRow(cells) => {
            render_elems_text_exec(cells, 0, out, info, settings, handle);
            push_str_chars(out, "\n");
        },
        Element::TableCell(children) => {
            render_elems_text_exec(children, 0, out, info, settings, handle);
            push_str_chars(out, " ");
        },
        Element::List { ordered, items } => {
            render_elems_text_exec(items, 0, out, info, settings, handle);
        },
        Element::ListItem(children) => {
            render_elems_text_exec(children, 0, out, info, settings, handle);
            push_str_chars(out, "\n");
        },
        Element::HorizontalRule => {
            push_str_chars(out, "----\n");
        },
        Element::Link { location, label } => {
            let text = handle.get_link_label(info.site.as_str(), location, label);
            push_str_chars(out, text.as_str());
        },
        Element::Image { source } => {
            match handle.get_image_link(source, info, settings) {
                Some(url) => {
                    push_str_chars(out, url.as_str());
                },
                None => {
                    let message = handle.get_message(info.language.as_str(), "image-context-bad");
                    push_str_chars(out, message);
                },
            }
        },
        Element::Module(module) => {
            let mut buffer = String::new();
            handle.render_module(&mut buffer, module, ModuleRenderMode::Text);
            push_str_chars(out, buffer.as_str());
        },
        Element::CodeBlock(code) => {
            push_str_chars(out, code.as_str());
            push_str_chars(out, "\n");
        },
        Element::Math(source) => {
            push_str_chars(out, source.as_str());
        },
        Element::Include(page_ref) => {
            let canonical = page_ref.canonical_string();
            push_str_chars(out, canonical.as_str());
        },
        Element::Footnote(text) => {
            push_str_chars(out, "[");
            let label = handle.get_message(info.language.as_str(), "footnote");
            push_str_chars(out, label);
            push_str_chars(out, ": ");
            push_str_chars(out, text.as_str());
            push_str_chars(out, "]");
        },
        Element::TableOfContents => {
            let message = handle.get_message(info.language.as_str(), "table-of-contents");
            push_str_chars(out, message);
        },
        Element::User(name) => {
            push_str_chars(out, name.as_str());
        },
    }
}

/// Appends the plain-text rendering of the elements at or after `i`.
fn render_elems_text_exec(
    v: &Vec<Element>,
    i: usize,
    out: &mut Vec<char>,
    info: &PageInfo,
    settings: &WikitextSettings,
    handle: &Handle,
)
    requires
        i <= v@.len(),
        elems_wf(elems_view(v@), i as int),
    ensures
        final(out)@ == old(out)@ + render_elems_text(
            elems_view(v@),
            i as int,
            info@,
            *settings,
            handle@,
        ),
    decreases v@, v@.len() - i,
{
    proof {
        lemma_elems_view_len(v@);
    }
    if i >= v.len() {
        return ;
    }
    proof {
        lemma_elems_view_index(v@, i as int);
    }
    render_elem_text_exec(&v[i], out, info, settings, handle);
    render_elems_text_exec(v, i + 1, out, info, settings, handle);
}

/// The digit character of a heading level.
fn level_digit_exec(level: HeadingLevel) -> (r: char)
    ensures
        r == level_digit(level),
{
    match level {
        HeadingLevel::H1 => '1',
        HeadingLevel::H2 => '2',
        HeadingLevel::H3 => '3',
        HeadingLevel::H4 => '4',
        HeadingLevel::H5 => '5',
        HeadingLevel::H6 => '6',
    }
}

/// The structured body of a render, plus style metadata.
pub struct HtmlOutput {
    pub body: String,
    pub styles: Vec<String>,
}

/// Renders a tree to HTML.
pub fn render_html(
    tree: &SyntaxTree,
    info: &PageInfo,
    settings: &WikitextSettings,
    handle: &Handle,
) -> (r: HtmlOutput)
    requires
        elems_wf(tree@, 0),
    ensures
        r.body@ == render_elems_html(tree@, 0, info@, *settings, handle@),
        r.styles@.len() == 0,
{
    let mut out: Vec<char> = Vec::new();
    render_elems_html_exec(&tree.elements, 0, &mut out, info, settings, handle);
    HtmlOutput { body: chars_to_string(&out), styles: Vec::new() }
}

/// Renders a tree to plain text.
pub fn render_text(
    tree: &SyntaxTree,
    info: &PageInfo,
    settings: &WikitextSettings,
    handle: &Handle,
) -> (r: String)
    requires
        elems_wf(tree@, 0),
    ensures
        r@ == render_elems_text(tree@, 0, info@, *settings, handle@),
{
    let mut out: Vec<char> = Vec::new();
    render_elems_text_exec(&tree.elements, 0, &mut out, info, settings, handle);
    chars_to_string(&out)
}

} // verus!
