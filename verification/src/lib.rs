//! A builder for HTML documents.
//!
//! A page, or a container, is built up by chained calls that each append one
//! node; `to_html_string` then renders the whole tree as one dense string.
//! Text and attribute values are escaped when they are rendered, raw markup
//! is passed through.
//!
//! Two choices are fixed throughout. A header level outside 1 to 6 is
//! rejected by the call that receives it, with `HtmlError`; it is never
//! clamped. An attribute that is set a second time keeps its place in the
//! store and takes the new value.
//!
//! Every node type has a model, its view, and the rendering of each model is
//! a specification function (`page_html`, `container_html`, `element_html`,
//! `head_html`, `attributes_html`). The builders state which model they
//! produce, and the renderers are proved to compute those functions.
use vstd::prelude::*;

pub mod attributes;
pub mod containers;
pub mod content;
pub mod error;
pub mod escape;
pub mod tag;
pub mod theorems;

pub use crate::attributes::Attributes;
pub use crate::containers::{Container, ContainerType, HtmlContainer};
pub use crate::content::{Element, HeadContent, HeaderLevel};
pub use crate::error::HtmlError;

use crate::content::{
    ElementView, HeadView, elements_html, elements_view, heads_html, heads_view,
    lemma_elements_view, write_elements, write_heads,
};

verus! {

/// A node that can be rendered as HTML.
pub trait Html: std::fmt::Debug {
    /// The rendering of the node and of all that it holds.
    spec fn html(&self) -> Seq<char>;

    /// Renders the node. Rendering reads the node and never fails; the same
    /// node always gives the same string.
    fn to_html_string(&self) -> (out: String)
        ensures
            out@ == self.html(),
    ;
}

/// A whole document: what stands in its `<head>`, and what in its `<body>`.
#[derive(Debug)]
pub struct HtmlPage {
    head: Vec<HeadContent>,
    body: Vec<Element>,
}

/// The model of an `HtmlPage`.
pub struct PageView {
    pub head: Seq<HeadView>,
    pub body: Seq<ElementView>,
}

impl View for HtmlPage {
    type V = PageView;

    closed spec fn view(&self) -> PageView {
        PageView {
            head: heads_view(self.head@),
            body: elements_view(self.body@),
        }
    }
}

/// The rendering of a page: the head nodes in order inside `<head>`, the body
/// nodes in order inside `<body>`, both inside `<html>`, behind the doctype.
pub open spec fn page_html(page: PageView) -> Seq<char> {
    "<!DOCTYPE html><html><head>"@ + heads_html(page.head) + "</head><body>"@ + elements_html(
        page.body,
    ) + "</body></html>"@
}

impl HtmlPage {
    /// The model of a page after `node` was appended to the head of the page
    /// modelled by `before`.
    pub open spec fn with_head(before: PageView, node: HeadView) -> PageView {
        PageView { head: before.head.push(node), ..before }
    }

    /// A page with an empty head and an empty body.
    pub fn new() -> (page: HtmlPage)
        ensures
            page@ == (PageView { head: Seq::empty(), body: Seq::empty() }),
    {
        let page = HtmlPage { head: Vec::new(), body: Vec::new() };
        assert(page@.head =~= Seq::<HeadView>::empty());
        page
    }

    /// Appends `content` to the head.
    pub fn add_head(self, content: HeadContent) -> (page: HtmlPage)
        ensures
            page@ == Self::with_head(self@, content@),
    {
        let mut page = self;
        page.head.push(content);
        assert(page@.head =~= self@.head.push(content@));
        page
    }

    /// Appends a title to the head.
    pub fn add_title(self, title_text: &str) -> (page: HtmlPage)
        ensures
            page@ == Self::with_head(
                self@,
                HeadView::Title { text: title_text@, attributes: Seq::empty() },
            ),
    {
        self.add_head(
            HeadContent::Title { text: title_text.to_owned(), attributes: Attributes::new() },
        )
    }

    /// Appends a `<meta>` node with the given name and content to the head.
    pub fn add_meta(self, name: &str, value: &str) -> (page: HtmlPage)
        ensures
            page@ == Self::with_head(
                self@,
                HeadView::Meta { name: name@, value: value@, attributes: Seq::empty() },
            ),
    {
        self.add_head(
            HeadContent::Meta {
                name: name.to_owned(),
                value: value.to_owned(),
                attributes: Attributes::new(),
            },
        )
    }

    /// Appends a `<link>` node with the given relation and target to the head.
    pub fn add_head_link(self, rel: &str, href: &str) -> (page: HtmlPage)
        ensures
            page@ == Self::with_head(
                self@,
                HeadView::Link { rel: rel@, href: href@, attributes: Seq::empty() },
            ),
    {
        self.add_head(
            HeadContent::Link {
                rel: rel.to_owned(),
                href: href.to_owned(),
                attributes: Attributes::new(),
            },
        )
    }

    /// Appends a `<style>` node with the given rules to the head.
    pub fn add_style(self, css: &str) -> (page: HtmlPage)
        ensures
            page@ == Self::with_head(
                self@,
                HeadView::Style { css: css@, attributes: Seq::empty() },
            ),
    {
        self.add_head(HeadContent::Style { css: css.to_owned(), attributes: Attributes::new() })
    }

    /// Appends the rendering of the page to `out`.
    pub fn write_html(&self, out: &mut String)
        ensures
            final(out)@ == old(out)@ + page_html(self@),
    {
        out.append("<!DOCTYPE html><html><head>");
        write_heads(out, &self.head);
        out.append("</head><body>");
        write_elements(out, &self.body);
        out.append("</body></html>");
        assert(out@ =~= old(out)@ + page_html(self@));
    }
}

impl HtmlContainer for HtmlPage {
    open spec fn with_child(before: PageView, child: ElementView) -> PageView {
        PageView { body: before.body.push(child), ..before }
    }

    /// Appends `element` to the body.
    fn add_html(self, element: Element) -> (after: HtmlPage) {
        let mut after = self;
        after.body.push(element);
        proof {
            lemma_elements_view(self.body@);
            lemma_elements_view(after.body@);
            assert(after@.body =~= self@.body.push(element@));
        }
        after
    }
}

impl Default for HtmlPage {
    /// A page with an empty head and an empty body.
    fn default() -> (page: HtmlPage)
        ensures
            page@ == (PageView { head: Seq::empty(), body: Seq::empty() }),
    {
        HtmlPage::new()
    }
}

impl Html for HtmlPage {
    open spec fn html(&self) -> Seq<char> {
        page_html(self@)
    }

    fn to_html_string(&self) -> (out: String) {
        let mut out = String::new();
        self.write_html(&mut out);
        out
    }
}

} // verus!
