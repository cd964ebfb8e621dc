//! The syntax tree produced by parsing.
//!
//! Nodes are tagged variants over block and inline element kinds. Each node
//! owns its ordered children; the tree is finite and acyclic by
//! construction. Every node kind has a mathematical view used by the
//! contracts of the parser and the renderers.

use vstd::prelude::*;
use crate::page_ref::{PageRef, PageRefView};

verus! {

broadcast use vstd::seq::axiom_seq_index_decreases, vstd::seq::axiom_seq_subrange_decreases;

/// A half-open range of character offsets into the normalized buffer.
#[derive(Copy, Clone, Debug, PartialEq, Eq, Structural)]
pub struct Span {
    pub start: usize,
    pub len: usize,
}

/// The kind of a non-fatal diagnostic raised while parsing.
#[derive(Copy, Clone, Debug, PartialEq, Eq, Structural)]
pub enum WarningKind {
    /// An opened construct reached the end of its line or of the input
    /// without its closing delimiter.
    UnclosedBlock,
    /// A module block without a module name.
    UnknownModule,
    /// A link target that is not a valid page reference.
    InvalidReference,
    /// Nesting deeper than the parser's explicit bound; the construct is
    /// flattened to literal text.
    DepthExceeded,
    /// A block tag that names no recognized construct.
    UnrecognizedTag,
}

/// A non-fatal diagnostic: parsing always continues past it.
#[derive(Copy, Clone, Debug, PartialEq, Eq, Structural)]
pub struct Warning {
    pub kind: WarningKind,
    pub span: Span,
}

/// Where an image's bytes come from.
pub enum ImageSource {
    /// A literal URL.
    Url(String),
    /// A file attached to the page being rendered.
    File1 { file: String },
    /// A file attached to another page of the current site.
    File2 { page: String, file: String },
    /// A file attached to a page of another site.
    File3 { site: String, page: String, file: String },
}

/// Mathematical model of [`ImageSource`].
pub enum ImageSourceView {
    Url(Seq<char>),
    File1 { file: Seq<char> },
    File2 { page: Seq<char>, file: Seq<char> },
    File3 { site: Seq<char>, page: Seq<char>, file: Seq<char> },
}

impl View for ImageSource {
    type V = ImageSourceView;

    open spec fn view(&self) -> ImageSourceView {
        match self {
            ImageSource::Url(url) => ImageSourceView::Url(url@),
            ImageSource::File1 { file } => ImageSourceView::File1 { file: file@ },
            ImageSource::File2 { page, file } => ImageSourceView::File2 {
                page: page@,
                file: file@,
            },
            ImageSource::File3 { site, page, file } => ImageSourceView::File3 {
                site: site@,
                page: page@,
                file: file@,
            },
        }
    }
}

/// The target of a link.
pub enum LinkLocation {
    /// An external URL.
    Url(String),
    /// A page of this platform.
    Page(PageRef),
}

/// Mathematical model of [`LinkLocation`].
pub enum LinkLocationView {
    Url(Seq<char>),
    Page(PageRefView),
}

impl View for LinkLocation {
    type V = LinkLocationView;

    open spec fn view(&self) -> LinkLocationView {
        match self {
            LinkLocation::Url(url) => LinkLocationView::Url(url@),
            LinkLocation::Page(page_ref) => LinkLocationView::Page(page_ref@),
        }
    }
}

/// How a link's display text is chosen.
pub enum LinkLabel {
    /// Explicit text.
    Text(String),
    /// The URL itself, or explicit text beside a URL.
    Url(Option<String>),
    /// The linked page's title, falling back to its canonical reference.
    Page,
}

/// Mathematical model of [`LinkLabel`].
pub enum LinkLabelView {
    Text(Seq<char>),
    Url(Option<Seq<char>>),
    Page,
}

impl View for LinkLabel {
    type V = LinkLabelView;

    open spec fn view(&self) -> LinkLabelView {
        match self {
            LinkLabel::Text(t) => LinkLabelView::Text(t@),
            LinkLabel::Url(Some(t)) => LinkLabelView::Url(Some(t@)),
            LinkLabel::Url(None) => LinkLabelView::Url(None),
            LinkLabel::Page => LinkLabelView::Page,
        }
    }
}

/// A module invocation: a named block whose rendering the handle supplies.
pub struct Module {
    pub name: String,
}

impl View for Module {
    type V = Seq<char>;

    open spec fn view(&self) -> Seq<char> {
        self.name@
    }
}

/// A heading's depth, one through six.
#[derive(Copy, Clone, Debug, PartialEq, Eq, Structural)]
pub enum HeadingLevel {
    H1,
    H2,
    H3,
    H4,
    H5,
    H6,
}

/// One node of the syntax tree.
pub enum Element {
    /// Literal text, rendered escaped.
    Text(String),
    /// An italic span.
    Italics(Vec<Element>),
    /// A bold span.
    Bold(Vec<Element>),
    /// A heading line.
    Heading { level: HeadingLevel, elements: Vec<Element> },
    /// A paragraph of inline content.
    Paragraph(Vec<Element>),
    /// A quoted block of inline content.
    Blockquote(Vec<Element>),
    /// A table; its children are the rows.
    Table(Vec<Element>),
    /// One row of a table; its children are the cells.
    TableRow(Vec<Element>),
    /// One cell of a table row.
    TableCell(Vec<Element>),
    /// A list, ordered or not; its children are the items.
    List { ordered: bool, items: Vec<Element> },
    /// One item of a list.
    ListItem(Vec<Element>),
    /// A horizontal rule.
    HorizontalRule,
    /// A link to a page or URL.
    Link { location: LinkLocation, label: LinkLabel },
    /// An embedded image.
    Image { source: ImageSource },
    /// A module invocation rendered through the handle.
    Module(Module),
    /// A preformatted block of code.
    CodeBlock(String),
    /// Inline math source.
    Math(String),
    /// An inclusion of another page's content.
    Include(PageRef),
    /// A footnote.
    Footnote(String),
    /// The table-of-contents marker.
    TableOfContents,
    /// A user reference rendered through the handle.
    User(String),
}

/// Mathematical model of [`Element`].
pub enum ElemView {
    Text(Seq<char>),
    Italics(Seq<ElemView>),
    Bold(Seq<ElemView>),
    Heading { level: HeadingLevel, elements: Seq<ElemView> },
    Paragraph(Seq<ElemView>),
    Blockquote(Seq<ElemView>),
    Table(Seq<ElemView>),
    TableRow(Seq<ElemView>),
    TableCell(Seq<ElemView>),
    List { ordered: bool, items: Seq<ElemView> },
    ListItem(Seq<ElemView>),
    HorizontalRule,
    Link { location: LinkLocationView, label: LinkLabelView },
    Image { source: ImageSourceView },
    Module(Seq<char>),
    CodeBlock(Seq<char>),
    Math(Seq<char>),
    Include(PageRefView),
    Footnote(Seq<char>),
    TableOfContents,
    User(Seq<char>),
}

/// The views of a sequence of elements, in order.
pub open spec fn elems_view(v: Seq<Element>) -> Seq<ElemView>
    decreases v,
{
    if v.len() == 0 {
        Seq::empty()
    } else {
        seq![v[0]@] + elems_view(v.drop_first())
    }
}

impl View for Element {
    type V = ElemView;

    open spec fn view(&self) -> ElemView
        decreases self,
    {
        match self {
            Element::Text(t) => ElemView::Text(t@),
            Element::Italics(children) => ElemView::Italics(elems_view(children@)),
            Element::Bold(children) => ElemView::Bold(elems_view(children@)),
            Element::Heading { level, elements } => ElemView::Heading {
                level: *level,
                elements: elems_view(elements@),
            },
            Element::Paragraph(children) => ElemView::Paragraph(elems_view(children@)),
            Element::Blockquote(children) => ElemView::Blockquote(elems_view(children@)),
            Element::Table(rows) => ElemView::Table(elems_view(rows@)),
            Element::TableRow(cells) => ElemView::TableRow(elems_view(cells@)),
            Element::TableCell(children) => ElemView::TableCell(elems_view(children@)),
            Element::List { ordered, items } => ElemView::List {
                ordered: *ordered,
                items: elems_view(items@),
            },
            Element::ListItem(children) => ElemView::ListItem(elems_view(children@)),
            Element::HorizontalRule => ElemView::HorizontalRule,
            Element::Link { location, label } => ElemView::Link {
                location: location@,
                label: label@,
            },
            Element::Image { source } => ElemView::Image { source: source@ },
            Element::Module(module) => ElemView::Module(module@),
            Element::CodeBlock(code) => ElemView::CodeBlock(code@),
            Element::Math(source) => ElemView::Math(source@),
            Element::Include(page_ref) => ElemView::Include(page_ref@),
            Element::Footnote(text) => ElemView::Footnote(text@),
            Element::TableOfContents => ElemView::TableOfContents,
            Element::User(name) => ElemView::User(name@),
        }
    }
}

/// Indexing into the view of an element sequence.
pub proof fn lemma_elems_view_index(v: Seq<Element>, i: int)
    requires
        0 <= i < v.len(),
    ensures
        elems_view(v).len() == v.len(),
        elems_view(v)[i] == v[i]@,
    decreases v.len(),
{
    lemma_elems_view_len(v);
    lemma_elems_view_len(v.drop_first());
    assert(elems_view(v) == seq![v[0]@] + elems_view(v.drop_first()));
    if i > 0 {
        lemma_elems_view_index(v.drop_first(), i - 1);
        assert(v.drop_first()[i - 1] == v[i]);
        assert(elems_view(v)[i] == elems_view(v.drop_first())[i - 1]);
    }
}

/// The view of an element sequence keeps its length.
pub proof fn lemma_elems_view_len(v: Seq<Element>)
    ensures
        elems_view(v).len() == v.len(),
    decreases v.len(),
{
    if v.len() > 0 {
        lemma_elems_view_len(v.drop_first());
        assert(elems_view(v.drop_first()).len() == v.len() - 1);
        assert(elems_view(v) == seq![v[0]@] + elems_view(v.drop_first()));
        assert(elems_view(v).len() == 1 + elems_view(v.drop_first()).len());
    }
}

/// Links are the one node kind with an internal consistency demand: asking
/// for a page-title label on a URL target is a tree-construction bug.
pub open spec fn elem_wf(e: ElemView) -> bool
    decreases e,
{
    match e {
        ElemView::Link { location, label } => !(label is Page && location is Url),
        ElemView::Italics(children) => elems_wf(children, 0),
        ElemView::Bold(children) => elems_wf(children, 0),
        ElemView::Heading { level, elements } => elems_wf(elements, 0),
        ElemView::Paragraph(children) => elems_wf(children, 0),
        ElemView::Blockquote(children) => elems_wf(children, 0),
        ElemView::Table(rows) => elems_wf(rows, 0),
        ElemView::TableRow(cells) => elems_wf(cells, 0),
        ElemView::TableCell(children) => elems_wf(children, 0),
        ElemView::List { ordered, items } => elems_wf(items, 0),
        ElemView::ListItem(children) => elems_wf(children, 0),
        _ => true,
    }
}

/// Well-formedness of every element at or after position `i`.
pub open spec fn elems_wf(es: Seq<ElemView>, i: int) -> bool
    decreases es, es.len() - i when 0 <= i <= es.len()
{
    if i >= es.len() {
        true
    } else {
        elem_wf(es[i]) && elems_wf(es, i + 1)
    }
}

/// Well-formedness of a tail, shifted past a prefix.
pub proof fn lemma_elems_wf_tail(a: Seq<ElemView>, b: Seq<ElemView>, k: int)
    requires
        0 <= k <= b.len(),
        elems_wf(b, k),
    ensures
        elems_wf(a + b, a.len() + k),
    decreases b.len() - k,
{
    if k < b.len() {
        assert((a + b)[a.len() + k] == b[k]);
        lemma_elems_wf_tail(a, b, k + 1);
    }
}

/// Concatenating well-formed element lists keeps well-formedness.
pub proof fn lemma_elems_wf_concat(a: Seq<ElemView>, b: Seq<ElemView>, i: int)
    requires
        0 <= i <= a.len(),
        elems_wf(a, i),
        elems_wf(b, 0),
    ensures
        elems_wf(a + b, i),
    decreases a.len() - i,
{
    if i < a.len() {
        assert((a + b)[i] == a[i]);
        lemma_elems_wf_concat(a, b, i + 1);
    } else {
        lemma_elems_wf_tail(a, b, 0);
        assert(elems_wf(a + b, a.len() as int + 0));
    }
}

/// A well-formed element in front of a well-formed list is well-formed.
pub proof fn lemma_elems_wf_cons(e: ElemView, rest: Seq<ElemView>)
    requires
        elem_wf(e),
        elems_wf(rest, 0),
    ensures
        elems_wf(seq![e] + rest, 0),
{
    assert(seq![e][0] == e);
    assert(elems_wf(seq![e], 1));
    lemma_elems_wf_concat(seq![e], rest, 0);
}

/// The view of a concatenation is the concatenation of the views.
pub proof fn lemma_elems_view_concat(a: Seq<Element>, b: Seq<Element>)
    ensures
        elems_view(a + b) == elems_view(a) + elems_view(b),
    decreases a.len(),
{
    if a.len() == 0 {
        assert(a + b =~= b);
        assert(elems_view(a) + elems_view(b) =~= elems_view(b));
    } else {
        assert((a + b)[0] == a[0]);
        assert((a + b).drop_first() =~= a.drop_first() + b);
        lemma_elems_view_concat(a.drop_first(), b);
        assert(elems_view(a + b) == seq![a[0]@] + elems_view(a.drop_first() + b));
        assert(elems_view(a + b) =~= elems_view(a) + elems_view(b));
    }
}

/// The parsed document: an ordered forest of block elements.
pub struct SyntaxTree {
    pub elements: Vec<Element>,
}

impl View for SyntaxTree {
    type V = Seq<ElemView>;

    open spec fn view(&self) -> Seq<ElemView> {
        elems_view(self.elements@)
    }
}

} // verus!
