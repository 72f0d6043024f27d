//! The nodes of a document: what may stand in `<head>`, and what may stand
//! in `<body>` or inside a container.
//!
//! Every node type has a model (its view) that holds text as sequences of
//! characters, and a specification of its rendering over that model.
use vstd::prelude::*;
use crate::attributes::{
    Attributes, AttributesView, attribute_html, attributes_html, write_attribute,
};
use crate::containers::{Container, ContainerView, container_html};
use crate::error::HtmlError;
use crate::escape::{escape, write_escaped};
use crate::tag::{close_tag, open_tag, write_close_tag, write_open_tag};
use crate::Html;

verus! {

/// The six levels of an HTML header.
#[derive(Clone, Copy, Debug, PartialEq, Eq, Structural)]
pub enum HeaderLevel {
    H1,
    H2,
    H3,
    H4,
    H5,
    H6,
}

/// The header level that the number `level` names, if it is one of 1 to 6.
pub open spec fn header_level(level: u8) -> Option<HeaderLevel> {
    if level == 1 {
        Some(HeaderLevel::H1)
    } else if level == 2 {
        Some(HeaderLevel::H2)
    } else if level == 3 {
        Some(HeaderLevel::H3)
    } else if level == 4 {
        Some(HeaderLevel::H4)
    } else if level == 5 {
        Some(HeaderLevel::H5)
    } else if level == 6 {
        Some(HeaderLevel::H6)
    } else {
        None
    }
}

impl HeaderLevel {
    /// The tag name of the level, `h1` to `h6`.
    pub open spec fn tag(self) -> Seq<char> {
        match self {
            HeaderLevel::H1 => "h1"@,
            HeaderLevel::H2 => "h2"@,
            HeaderLevel::H3 => "h3"@,
            HeaderLevel::H4 => "h4"@,
            HeaderLevel::H5 => "h5"@,
            HeaderLevel::H6 => "h6"@,
        }
    }

    /// The level numbered `level`. Numbers outside 1 to 6 are rejected.
    pub fn new(level: u8) -> (result: Result<HeaderLevel, HtmlError>)
        ensures
            (match header_level(level) {
                Some(l) => result == Ok::<HeaderLevel, HtmlError>(l),
                None => result == Err::<HeaderLevel, HtmlError>(
                    HtmlError::InvalidHeaderLevel { level },
                ),
            }),
    {
        match level {
            1 => Ok(HeaderLevel::H1),
            2 => Ok(HeaderLevel::H2),
            3 => Ok(HeaderLevel::H3),
            4 => Ok(HeaderLevel::H4),
            5 => Ok(HeaderLevel::H5),
            6 => Ok(HeaderLevel::H6),
            _ => Err(HtmlError::InvalidHeaderLevel { level }),
        }
    }

    /// The number of the level, 1 to 6.
    pub fn number(self) -> (n: u8)
        ensures
            1 <= n <= 6,
            header_level(n) == Some(self),
    {
        match self {
            HeaderLevel::H1 => 1,
            HeaderLevel::H2 => 2,
            HeaderLevel::H3 => 3,
            HeaderLevel::H4 => 4,
            HeaderLevel::H5 => 5,
            HeaderLevel::H6 => 6,
        }
    }

    /// The tag name of the level, `h1` to `h6`.
    pub fn tag_name(self) -> (name: &'static str)
        ensures
            name@ == self.tag(),
    {
        match self {
            HeaderLevel::H1 => "h1",
            HeaderLevel::H2 => "h2",
            HeaderLevel::H3 => "h3",
            HeaderLevel::H4 => "h4",
            HeaderLevel::H5 => "h5",
            HeaderLevel::H6 => "h6",
        }
    }
}

/// A node of the document's `<head>`.
#[derive(Debug)]
pub enum HeadContent {
    /// The document title.
    Title { text: String, attributes: Attributes },
    /// A named piece of metadata.
    Meta { name: String, value: String, attributes: Attributes },
    /// A link to another resource, such as a style sheet.
    Link { rel: String, href: String, attributes: Attributes },
    /// Style rules for the document.
    Style { css: String, attributes: Attributes },
}

/// The model of a `HeadContent`.
pub enum HeadView {
    Title { text: Seq<char>, attributes: AttributesView },
    Meta { name: Seq<char>, value: Seq<char>, attributes: AttributesView },
    Link { rel: Seq<char>, href: Seq<char>, attributes: AttributesView },
    Style { css: Seq<char>, attributes: AttributesView },
}

impl View for HeadContent {
    type V = HeadView;

    open spec fn view(&self) -> HeadView {
        match self {
            HeadContent::Title { text, attributes } => HeadView::Title {
                text: text@,
                attributes: attributes@,
            },
            HeadContent::Meta { name, value, attributes } => HeadView::Meta {
                name: name@,
                value: value@,
                attributes: attributes@,
            },
            HeadContent::Link { rel, href, attributes } => HeadView::Link {
                rel: rel@,
                href: href@,
                attributes: attributes@,
            },
            HeadContent::Style { css, attributes } => HeadView::Style {
                css: css@,
                attributes: attributes@,
            },
        }
    }
}

/// The models of a sequence of head nodes, in order.
pub open spec fn heads_view(nodes: Seq<HeadContent>) -> Seq<HeadView> {
    nodes.map_values(|node: HeadContent| node@)
}

/// The rendering of one head node. `<meta>` and `<link>` are void: they get
/// no closing tag. The text of a title and the rules of a style node are
/// escaped like any other text.
pub open spec fn head_html(node: HeadView) -> Seq<char> {
    match node {
        HeadView::Title { text, attributes } => open_tag("title"@, attributes) + escape(text)
            + close_tag("title"@),
        HeadView::Meta { name, value, attributes } => "<meta"@ + attribute_html(("name"@, name))
            + attribute_html(("content"@, value)) + attributes_html(attributes) + ">"@,
        HeadView::Link { rel, href, attributes } => "<link"@ + attribute_html(("rel"@, rel))
            + attribute_html(("href"@, href)) + attributes_html(attributes) + ">"@,
        HeadView::Style { css, attributes } => open_tag("style"@, attributes) + escape(css)
            + close_tag("style"@),
    }
}

/// The rendering of a sequence of head nodes: each in turn, nothing between.
pub open spec fn heads_html(nodes: Seq<HeadView>) -> Seq<char>
    decreases nodes.len(),
{
    if nodes.len() == 0 {
        Seq::empty()
    } else {
        heads_html(nodes.drop_last()) + head_html(nodes.last())
    }
}

/// Rendering a sequence that ends in `node` appends the rendering of `node`.
pub proof fn lemma_heads_html_push(nodes: Seq<HeadView>, node: HeadView)
    ensures
        heads_html(nodes.push(node)) == heads_html(nodes) + head_html(node),
{
    assert(nodes.push(node).drop_last() =~= nodes);
}

impl HeadContent {
    /// Appends the rendering of the node to `out`.
    pub fn write_html(&self, out: &mut String)
        ensures
            final(out)@ == old(out)@ + head_html(self@),
    {
        match self {
            HeadContent::Title { text, attributes } => {
                write_open_tag(out, "title", attributes);
                write_escaped(out, text.as_str());
                write_close_tag(out, "title");
                assert(out@ =~= old(out)@ + head_html(self@));
            },
            HeadContent::Meta { name, value, attributes } => {
                out.append("<meta");
                write_attribute(out, "name", name.as_str());
                write_attribute(out, "content", value.as_str());
                attributes.write_html(out);
                out.append(">");
                assert(out@ =~= old(out)@ + head_html(self@));
            },
            HeadContent::Link { rel, href, attributes } => {
                out.append("<link");
                write_attribute(out, "rel", rel.as_str());
                write_attribute(out, "href", href.as_str());
                attributes.write_html(out);
                out.append(">");
                assert(out@ =~= old(out)@ + head_html(self@));
            },
            HeadContent::Style { css, attributes } => {
                write_open_tag(out, "style", attributes);
                write_escaped(out, css.as_str());
                write_close_tag(out, "style");
                assert(out@ =~= old(out)@ + head_html(self@));
            },
        }
    }
}

/// Appends the renderings of `nodes`, in order, to `out`.
pub fn write_heads(out: &mut String, nodes: &Vec<HeadContent>)
    ensures
        final(out)@ == old(out)@ + heads_html(heads_view(nodes@)),
{
    let ghost models = heads_view(nodes@);
    let n = nodes.len();
    let mut i: usize = 0;
    assert(models.take(0) =~= Seq::<HeadView>::empty());
    while i < n
        invariant
            n == nodes@.len(),
            i <= n,
            models == heads_view(nodes@),
            out@ == old(out)@ + heads_html(models.take(i as int)),
        decreases n - i,
    {
        assert(models.take(i + 1).drop_last() =~= models.take(i as int));
        nodes[i].write_html(out);
        i += 1;
    }
    assert(models.take(n as int) =~= models);
}

impl Html for HeadContent {
    open spec fn html(&self) -> Seq<char> {
        head_html(self@)
    }

    fn to_html_string(&self) -> (out: String) {
        let mut out = String::new();
        self.write_html(&mut out);
        out
    }
}

/// A node of the document's `<body>`, or of a container.
#[derive(Debug)]
pub enum Element {
    /// A header, `<h1>` to `<h6>`.
    Header { level: HeaderLevel, text: String, attributes: Attributes },
    /// A paragraph, `<p>`.
    Paragraph { text: String, attributes: Attributes },
    /// A hyperlink, `<a>`.
    Link { href: String, text: String, attributes: Attributes },
    /// An image, `<img>`.
    Image { src: String, alt: String, attributes: Attributes },
    /// A list of text items, `<ol>` if `ordered` and `<ul>` if not.
    List { ordered: bool, items: Vec<String>, attributes: Attributes },
    /// Markup that is written out as it stands, without escaping.
    Raw { html: String },
    /// Text that is escaped and written out without a tag.
    Text { text: String },
    /// A container with children of its own.
    Container(Container),
}

/// The model of an `Element`.
pub enum ElementView {
    Header { level: HeaderLevel, text: Seq<char>, attributes: AttributesView },
    Paragraph { text: Seq<char>, attributes: AttributesView },
    Link { href: Seq<char>, text: Seq<char>, attributes: AttributesView },
    Image { src: Seq<char>, alt: Seq<char>, attributes: AttributesView },
    List { ordered: bool, items: Seq<Seq<char>>, attributes: AttributesView },
    Raw { html: Seq<char> },
    Text { text: Seq<char> },
    Container(ContainerView),
}

impl View for Element {
    type V = ElementView;

    open spec fn view(&self) -> ElementView
        decreases self,
    {
        match self {
            Element::Header { level, text, attributes } => ElementView::Header {
                level: *level,
                text: text@,
                attributes: attributes@,
            },
            Element::Paragraph { text, attributes } => ElementView::Paragraph {
                text: text@,
                attributes: attributes@,
            },
            Element::Link { href, text, attributes } => ElementView::Link {
                href: href@,
                text: text@,
                attributes: attributes@,
            },
            Element::Image { src, alt, attributes } => ElementView::Image {
                src: src@,
                alt: alt@,
                attributes: attributes@,
            },
            Element::List { ordered, items, attributes } => ElementView::List {
                ordered: *ordered,
                items: items.deep_view(),
                attributes: attributes@,
            },
            Element::Raw { html } => ElementView::Raw { html: html@ },
            Element::Text { text } => ElementView::Text { text: text@ },
            Element::Container(container) => ElementView::Container(container@),
        }
    }
}

/// The models of a sequence of elements, in order.
pub open spec fn elements_view(elements: Seq<Element>) -> Seq<ElementView>
    decreases elements,
{
    if elements.len() == 0 {
        Seq::empty()
    } else {
        elements_view(elements.drop_last()).push(elements.last()@)
    }
}

/// The models of a sequence of elements are the models of its elements,
/// position by position.
pub proof fn lemma_elements_view(elements: Seq<Element>)
    ensures
        elements_view(elements) == elements.map_values(|element: Element| element@),
    decreases elements.len(),
{
    let models = elements.map_values(|element: Element| element@);
    if elements.len() == 0 {
        assert(elements_view(elements) =~= models);
    } else {
        let front = elements.drop_last();
        lemma_elements_view(front);
        assert(elements_view(elements) == elements_view(front).push(elements.last()@));
        assert forall|i: int| 0 <= i < elements.len() implies elements_view(elements)[i]
            == models[i] by {
            if i < front.len() {
                assert(elements_view(front)[i] == front[i]@);
            }
        }
        assert(elements_view(elements) =~= models);
    }
}

/// The tag name of a list: `ol` if it is ordered, `ul` if not.
pub open spec fn list_tag(ordered: bool) -> Seq<char> {
    if ordered {
        "ol"@
    } else {
        "ul"@
    }
}

/// The rendering of the items of a list: each escaped, between `<li>` and
/// `</li>`, in order.
pub open spec fn items_html(items: Seq<Seq<char>>) -> Seq<char>
    decreases items.len(),
{
    if items.len() == 0 {
        Seq::empty()
    } else {
        items_html(items.drop_last()) + "<li>"@ + escape(items.last()) + "</li>"@
    }
}

/// The rendering of one element.
///
/// Text and attribute values are escaped; `Raw` markup is not. `<img>` is
/// void and gets no closing tag; every other tag is closed right after its
/// content.
pub open spec fn element_html(node: ElementView) -> Seq<char>
    decreases node,
{
    match node {
        ElementView::Header { level, text, attributes } => open_tag(level.tag(), attributes)
            + escape(text) + close_tag(level.tag()),
        ElementView::Paragraph { text, attributes } => open_tag("p"@, attributes) + escape(text)
            + close_tag("p"@),
        ElementView::Link { href, text, attributes } => "<a"@ + attribute_html(("href"@, href))
            + attributes_html(attributes) + ">"@ + escape(text) + close_tag("a"@),
        ElementView::Image { src, alt, attributes } => "<img"@ + attribute_html(("src"@, src))
            + attribute_html(("alt"@, alt)) + attributes_html(attributes) + ">"@,
        ElementView::List { ordered, items, attributes } => open_tag(list_tag(ordered), attributes)
            + items_html(items) + close_tag(list_tag(ordered)),
        ElementView::Raw { html } => html,
        ElementView::Text { text } => escape(text),
        ElementView::Container(container) => container_html(container),
    }
}

/// The rendering of a sequence of elements: each in turn, nothing between.
pub open spec fn elements_html(nodes: Seq<ElementView>) -> Seq<char>
    decreases nodes,
{
    if nodes.len() == 0 {
        Seq::empty()
    } else {
        elements_html(nodes.drop_last()) + element_html(nodes.last())
    }
}

/// Rendering a sequence that ends in `node` appends the rendering of `node`.
pub proof fn lemma_elements_html_push(nodes: Seq<ElementView>, node: ElementView)
    ensures
        elements_html(nodes.push(node)) == elements_html(nodes) + element_html(node),
{
    assert(nodes.push(node).drop_last() =~= nodes);
}

/// Rendering one sequence after another is rendering the two in a row.
pub proof fn lemma_elements_html_concat(front: Seq<ElementView>, back: Seq<ElementView>)
    ensures
        elements_html(front + back) == elements_html(front) + elements_html(back),
    decreases back.len(),
{
    if back.len() == 0 {
        assert(front + back =~= front);
    } else {
        lemma_elements_html_concat(front, back.drop_last());
        assert((front + back).drop_last() =~= front + back.drop_last());
        assert((front + back).last() == back.last());
    }
}

/// The tag name of a list: `ol` if it is ordered, `ul` if not.
fn list_tag_name(ordered: bool) -> (name: &'static str)
    ensures
        name@ == list_tag(ordered),
{
    if ordered {
        "ol"
    } else {
        "ul"
    }
}

/// Appends the rendered items of a list to `out`.
fn write_items(out: &mut String, items: &Vec<String>)
    ensures
        final(out)@ == old(out)@ + items_html(items.deep_view()),
{
    let ghost texts = items.deep_view();
    let n = items.len();
    let mut i: usize = 0;
    assert(texts.take(0) =~= Seq::<Seq<char>>::empty());
    while i < n
        invariant
            n == items@.len(),
            i <= n,
            texts == items.deep_view(),
            out@ == old(out)@ + items_html(texts.take(i as int)),
        decreases n - i,
    {
        let ghost sofar = out@;
        out.append("<li>");
        write_escaped(out, items[i].as_str());
        out.append("</li>");
        proof {
            assert(texts.take(i + 1).drop_last() =~= texts.take(i as int));
            assert(texts.take(i + 1).last() == items@[i as int]@);
            assert(out@ =~= sofar + "<li>"@ + escape(items@[i as int]@) + "</li>"@);
        }
        i += 1;
    }
    assert(texts.take(n as int) =~= texts);
}

impl Element {
    /// Appends the rendering of the element, and of all that it holds, to
    /// `out`.
    pub fn write_html(&self, out: &mut String)
        ensures
            final(out)@ == old(out)@ + element_html(self@),
        decreases self,
    {
        match self {
            Element::Header { level, text, attributes } => {
                write_open_tag(out, level.tag_name(), attributes);
                write_escaped(out, text.as_str());
                write_close_tag(out, level.tag_name());
                assert(out@ =~= old(out)@ + element_html(self@));
            },
            Element::Paragraph { text, attributes } => {
                write_open_tag(out, "p", attributes);
                write_escaped(out, text.as_str());
                write_close_tag(out, "p");
                assert(out@ =~= old(out)@ + element_html(self@));
            },
            Element::Link { href, text, attributes } => {
                out.append("<a");
                write_attribute(out, "href", href.as_str());
                attributes.write_html(out);
                out.append(">");
                write_escaped(out, text.as_str());
                write_close_tag(out, "a");
                assert(out@ =~= old(out)@ + element_html(self@));
            },
            Element::Image { src, alt, attributes } => {
                out.append("<img");
                write_attribute(out, "src", src.as_str());
                write_attribute(out, "alt", alt.as_str());
                attributes.write_html(out);
                out.append(">");
                assert(out@ =~= old(out)@ + element_html(self@));
            },
            Element::List { ordered, items, attributes } => {
                write_open_tag(out, list_tag_name(*ordered), attributes);
                write_items(out, items);
                write_close_tag(out, list_tag_name(*ordered));
                assert(out@ =~= old(out)@ + element_html(self@));
            },
            Element::Raw { html } => {
                out.append(html.as_str());
            },
            Element::Text { text } => {
                write_escaped(out, text.as_str());
            },
            Element::Container(container) => {
                container.write_html(out);
            },
        }
    }
}

/// Appends the renderings of `elements`, in order, to `out`.
pub fn write_elements(out: &mut String, elements: &Vec<Element>)
    ensures
        final(out)@ == old(out)@ + elements_html(elements_view(elements@)),
    decreases elements,
{
    let ghost models = elements_view(elements@);
    let n = elements.len();
    let mut i: usize = 0;
    proof {
        lemma_elements_view(elements@);
        assert(models.take(0) =~= Seq::<ElementView>::empty());
    }
    while i < n
        invariant
            n == elements@.len(),
            i <= n,
            models == elements@.map_values(|element: Element| element@),
            out@ == old(out)@ + elements_html(models.take(i as int)),
        decreases n - i,
    {
        assert(models.take(i + 1).drop_last() =~= models.take(i as int));
        elements[i].write_html(out);
        i += 1;
    }
    assert(models.take(n as int) =~= models);
}

impl Html for Element {
    open spec fn html(&self) -> Seq<char> {
        element_html(self@)
    }

    fn to_html_string(&self) -> (out: String) {
        let mut out = String::new();
        self.write_html(&mut out);
        out
    }
}

} // verus!
