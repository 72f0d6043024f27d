//! Containers: nodes that hold an ordered sequence of child elements between
//! an opening and a closing tag.
use vstd::prelude::*;
use crate::attributes::{Attributes, AttributesView, keys_distinct, set_attribute};
use crate::content::{
    Element, ElementView, HeaderLevel, elements_html, elements_view, header_level,
    lemma_elements_view, write_elements,
};
use crate::error::HtmlError;
use crate::tag::{close_tag, open_tag, write_close_tag, write_open_tag};
use crate::Html;

verus! {

/// The tags that a container can have.
#[derive(Clone, Copy, Debug, PartialEq, Eq, Structural)]
pub enum ContainerType {
    Address,
    Article,
    Aside,
    Div,
    Footer,
    Header,
    Main,
    Nav,
    Section,
}

impl ContainerType {
    /// The lower-case HTML tag name.
    pub open spec fn tag(self) -> Seq<char> {
        match self {
            ContainerType::Address => "address"@,
            ContainerType::Article => "article"@,
            ContainerType::Aside => "aside"@,
            ContainerType::Div => "div"@,
            ContainerType::Footer => "footer"@,
            ContainerType::Header => "header"@,
            ContainerType::Main => "main"@,
            ContainerType::Nav => "nav"@,
            ContainerType::Section => "section"@,
        }
    }

    /// The lower-case HTML tag name.
    pub fn tag_name(self) -> (name: &'static str)
        ensures
            name@ == self.tag(),
    {
        match self {
            ContainerType::Address => "address",
            ContainerType::Article => "article",
            ContainerType::Aside => "aside",
            ContainerType::Div => "div",
            ContainerType::Footer => "footer",
            ContainerType::Header => "header",
            ContainerType::Main => "main",
            ContainerType::Nav => "nav",
            ContainerType::Section => "section",
        }
    }
}

/// A node with a tag, attributes and an append-only sequence of children.
#[derive(Debug)]
pub struct Container {
    tag: ContainerType,
    attributes: Attributes,
    children: Vec<Element>,
}

/// The model of a `Container`.
pub struct ContainerView {
    pub tag: ContainerType,
    pub attributes: AttributesView,
    pub children: Seq<ElementView>,
}

impl View for Container {
    type V = ContainerView;

    closed spec fn view(&self) -> ContainerView
        decreases self,
    {
        ContainerView {
            tag: self.tag,
            attributes: self.attributes@,
            children: elements_view(self.children@),
        }
    }
}

/// The rendering of a container: its opening tag with its attributes, its
/// children in order, its closing tag.
pub open spec fn container_html(container: ContainerView) -> Seq<char>
    decreases container,
{
    open_tag(container.tag.tag(), container.attributes) + elements_html(container.children)
        + close_tag(container.tag.tag())
}

impl Container {
    /// An empty container with the given tag and no attributes.
    pub fn new(tag: ContainerType) -> (container: Container)
        ensures
            container@ == (ContainerView {
                tag,
                attributes: Seq::empty(),
                children: Seq::empty(),
            }),
    {
        Container { tag, attributes: Attributes::new(), children: Vec::new() }
    }

    /// Sets the attribute `key` to `value`: a name that the container has
    /// already keeps its place and gets the new value, a new name goes last.
    pub fn with_attribute(self, key: &str, value: &str) -> (container: Container)
        ensures
            container@ == (ContainerView {
                attributes: set_attribute(self@.attributes, key@, value@),
                ..self@
            }),
            keys_distinct(container@.attributes),
    {
        Container {
            tag: self.tag,
            attributes: self.attributes.set(key, value),
            children: self.children,
        }
    }

    /// Appends the rendering of the container, and of all that it holds, to
    /// `out`.
    pub fn write_html(&self, out: &mut String)
        ensures
            final(out)@ == old(out)@ + container_html(self@),
        decreases self,
    {
        write_open_tag(out, self.tag.tag_name(), &self.attributes);
        write_elements(out, &self.children);
        write_close_tag(out, self.tag.tag_name());
        assert(out@ =~= old(out)@ + container_html(self@));
    }
}

/// Something that elements can be appended to: a page, or a container.
///
/// `add_html` is the one required method. Every other method builds one
/// element from its arguments and appends it with `add_html`; the element
/// goes behind all that was appended before, and nothing else changes.
pub trait HtmlContainer: View + Sized {
    /// The model of a value after `child` was appended to the value modelled
    /// by `before`.
    spec fn with_child(before: Self::V, child: ElementView) -> Self::V;

    /// Appends `element`.
    fn add_html(self, element: Element) -> (after: Self)
        ensures
            after@ == Self::with_child(self@, element@),
    ;

    /// Appends `container`, with all that it holds.
    fn add_container(self, container: Container) -> (after: Self)
        ensures
            after@ == Self::with_child(self@, ElementView::Container(container@)),
    {
        self.add_html(Element::Container(container))
    }

    /// Appends a header of the given level without attributes. A level
    /// outside 1 to 6 is rejected, and nothing is appended.
    fn add_header(self, level: u8, text: &str) -> (result: Result<Self, HtmlError>)
        ensures
            (match header_level(level) {
                Some(l) => result matches Ok(after) && after@ == Self::with_child(
                    self@,
                    ElementView::Header { level: l, text: text@, attributes: Seq::empty() },
                ),
                None => result matches Err(e) && e == (HtmlError::InvalidHeaderLevel { level }),
            }),
    {
        self.add_header_attr(level, text, Attributes::new())
    }

    /// Appends a header of the given level with the given attributes. A level
    /// outside 1 to 6 is rejected, and nothing is appended.
    fn add_header_attr(self, level: u8, text: &str, attributes: Attributes) -> (result: Result<
        Self,
        HtmlError,
    >)
        ensures
            (match header_level(level) {
                Some(l) => result matches Ok(after) && after@ == Self::with_child(
                    self@,
                    ElementView::Header { level: l, text: text@, attributes: attributes@ },
                ),
                None => result matches Err(e) && e == (HtmlError::InvalidHeaderLevel { level }),
            }),
    {
        match HeaderLevel::new(level) {
            Ok(level) => Ok(
                self.add_html(Element::Header { level, text: text.to_owned(), attributes }),
            ),
            Err(e) => Err(e),
        }
    }

    /// Appends a paragraph without attributes.
    fn add_paragraph(self, text: &str) -> (after: Self)
        ensures
            after@ == Self::with_child(
                self@,
                ElementView::Paragraph { text: text@, attributes: Seq::empty() },
            ),
    {
        self.add_paragraph_attr(text, Attributes::new())
    }

    /// Appends a paragraph with the given attributes.
    fn add_paragraph_attr(self, text: &str, attributes: Attributes) -> (after: Self)
        ensures
            after@ == Self::with_child(
                self@,
                ElementView::Paragraph { text: text@, attributes: attributes@ },
            ),
    {
        self.add_html(Element::Paragraph { text: text.to_owned(), attributes })
    }

    /// Appends a hyperlink to `href` without further attributes.
    fn add_link(self, href: &str, text: &str) -> (after: Self)
        ensures
            after@ == Self::with_child(
                self@,
                ElementView::Link { href: href@, text: text@, attributes: Seq::empty() },
            ),
    {
        self.add_link_attr(href, text, Attributes::new())
    }

    /// Appends a hyperlink to `href` with the given further attributes.
    fn add_link_attr(self, href: &str, text: &str, attributes: Attributes) -> (after: Self)
        ensures
            after@ == Self::with_child(
                self@,
                ElementView::Link { href: href@, text: text@, attributes: attributes@ },
            ),
    {
        self.add_html(
            Element::Link { href: href.to_owned(), text: text.to_owned(), attributes },
        )
    }

    /// Appends an image without further attributes.
    fn add_image(self, src: &str, alt: &str) -> (after: Self)
        ensures
            after@ == Self::with_child(
                self@,
                ElementView::Image { src: src@, alt: alt@, attributes: Seq::empty() },
            ),
    {
        self.add_image_attr(src, alt, Attributes::new())
    }

    /// Appends an image with the given further attributes.
    fn add_image_attr(self, src: &str, alt: &str, attributes: Attributes) -> (after: Self)
        ensures
            after@ == Self::with_child(
                self@,
                ElementView::Image { src: src@, alt: alt@, attributes: attributes@ },
            ),
    {
        self.add_html(Element::Image { src: src.to_owned(), alt: alt.to_owned(), attributes })
    }

    /// Appends a list of text items without attributes: numbered if
    /// `ordered`, bulleted if not.
    fn add_list(self, ordered: bool, items: Vec<String>) -> (after: Self)
        ensures
            after@ == Self::with_child(
                self@,
                ElementView::List {
                    ordered,
                    items: items.deep_view(),
                    attributes: Seq::empty(),
                },
            ),
    {
        self.add_list_attr(ordered, items, Attributes::new())
    }

    /// Appends a list of text items with the given attributes.
    fn add_list_attr(self, ordered: bool, items: Vec<String>, attributes: Attributes) -> (after:
        Self)
        ensures
            after@ == Self::with_child(
                self@,
                ElementView::List {
                    ordered,
                    items: items.deep_view(),
                    attributes: attributes@,
                },
            ),
    {
        self.add_html(Element::List { ordered, items, attributes })
    }

    /// Appends markup that will be written out as it stands. Nothing is
    /// escaped: that the markup is well formed is up to the caller.
    fn add_raw(self, html: &str) -> (after: Self)
        ensures
            after@ == Self::with_child(self@, ElementView::Raw { html: html@ }),
    {
        self.add_html(Element::Raw { html: html.to_owned() })
    }

    /// Appends text that will be escaped and written out without a tag.
    fn add_text(self, text: &str) -> (after: Self)
        ensures
            after@ == Self::with_child(self@, ElementView::Text { text: text@ }),
    {
        self.add_html(Element::Text { text: text.to_owned() })
    }
}

impl HtmlContainer for Container {
    open spec fn with_child(before: ContainerView, child: ElementView) -> ContainerView {
        ContainerView { children: before.children.push(child), ..before }
    }

    fn add_html(self, element: Element) -> (after: Container) {
        let mut after = self;
        after.children.push(element);
        proof {
            lemma_elements_view(self.children@);
            lemma_elements_view(after.children@);
            assert(after@.children =~= self@.children.push(element@));
        }
        after
    }
}

impl Html for Container {
    open spec fn html(&self) -> Seq<char> {
        container_html(self@)
    }

    fn to_html_string(&self) -> (out: String) {
        let mut out = String::new();
        self.write_html(&mut out);
        out
    }
}

impl Default for Container {
    /// An empty `<div>`.
    fn default() -> (container: Container)
        ensures
            container@ == (ContainerView {
                tag: ContainerType::Div,
                attributes: Seq::empty(),
                children: Seq::empty(),
            }),
    {
        Container::new(ContainerType::Div)
    }
}

} // verus!
