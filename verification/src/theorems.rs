//! What holds of every document, stated over the models of the nodes and
//! the specifications of their rendering.
use vstd::prelude::*;
use crate::attributes::{
    AttributesView, attribute_html, attributes_html, lemma_attributes_html_push, set_attribute,
};
use crate::containers::{Container, ContainerType, ContainerView, HtmlContainer, container_html};
use crate::content::{
    ElementView, HeadView, element_html, elements_html, head_html, header_level, heads_html,
    lemma_elements_html_concat, lemma_elements_html_push, lemma_heads_html_push,
};
use crate::{HtmlPage, PageView, page_html};
use crate::escape::{escape, is_markup, lemma_escape_no_markup};
use crate::tag::{close_tag, open_tag};

verus! {

/// The digit that is written for a number from 0 to 9.
pub open spec fn digit(n: u8) -> char {
    (n + 48) as char
}

/// A page to which nothing was added renders as the bare envelope.
pub proof fn lemma_empty_page_html()
    ensures
        page_html(PageView { head: Seq::empty(), body: Seq::empty() })
            == "<!DOCTYPE html><html><head></head><body></body></html>"@,
{
    reveal_strlit("<!DOCTYPE html><html><head>");
    reveal_strlit("</head><body>");
    reveal_strlit("</body></html>");
    reveal_strlit("<!DOCTYPE html><html><head></head><body></body></html>");
    assert(page_html(PageView { head: Seq::empty(), body: Seq::empty() })
        =~= "<!DOCTYPE html><html><head></head><body></body></html>"@);
}

/// A tag without attributes is the name between `<` and `>`.
pub proof fn lemma_open_tag_without_attributes(name: Seq<char>)
    ensures
        open_tag(name, Seq::empty()) == "<"@ + name + ">"@,
{
    assert(open_tag(name, Seq::empty()) =~= "<"@ + name + ">"@);
}

/// Every number from 1 to 6 names a header level, and a header of that level
/// without attributes renders as `<hN>`, the escaped text, `</hN>`, with the
/// number's digit for `N`.
pub proof fn lemma_header_html(n: u8, text: Seq<char>)
    requires
        1 <= n <= 6,
    ensures
        header_level(n) is Some,
        element_html(
            ElementView::Header {
                level: header_level(n)->0,
                text,
                attributes: Seq::empty(),
            },
        ) == "<h"@.push(digit(n)) + ">"@ + escape(text) + "</h"@.push(digit(n)) + ">"@,
{
    reveal_strlit("h1");
    reveal_strlit("h2");
    reveal_strlit("h3");
    reveal_strlit("h4");
    reveal_strlit("h5");
    reveal_strlit("h6");
    reveal_strlit("<");
    reveal_strlit("</");
    reveal_strlit("<h");
    reveal_strlit("</h");
    let level = header_level(n)->0;
    let node = ElementView::Header { level, text, attributes: Seq::empty() };
    assert(level.tag() =~= seq!['h', digit(n)]);
    assert("<"@ + level.tag() =~= "<h"@.push(digit(n)));
    assert("</"@ + level.tag() =~= "</h"@.push(digit(n)));
    assert(element_html(node) =~= "<"@ + level.tag() + ">"@ + escape(text) + ("</"@ + level.tag())
        + ">"@);
}

/// A header that is added to a page is rendered behind all that the body
/// held before, and right before the end of the body; the head is untouched.
pub proof fn lemma_header_in_page(page: PageView, n: u8, text: Seq<char>)
    requires
        1 <= n <= 6,
    ensures
        header_level(n) is Some,
        page_html(
            HtmlPage::with_child(
                page,
                ElementView::Header {
                    level: header_level(n)->0,
                    text,
                    attributes: Seq::empty(),
                },
            ),
        ) == "<!DOCTYPE html><html><head>"@ + heads_html(page.head) + "</head><body>"@
            + elements_html(page.body) + ("<h"@.push(digit(n)) + ">"@ + escape(text) + "</h"@.push(
            digit(n),
        ) + ">"@) + "</body></html>"@,
{
    let node = ElementView::Header { level: header_level(n)->0, text, attributes: Seq::empty() };
    lemma_header_html(n, text);
    lemma_elements_html_push(page.body, node);
    assert(page_html(HtmlPage::with_child(page, node)) =~= "<!DOCTYPE html><html><head>"@
        + heads_html(page.head) + "</head><body>"@ + elements_html(page.body) + element_html(node)
        + "</body></html>"@);
}

/// A header that is added to a container is rendered behind all that the
/// container held before, and right before its closing tag.
pub proof fn lemma_header_in_container(container: ContainerView, n: u8, text: Seq<char>)
    requires
        1 <= n <= 6,
    ensures
        header_level(n) is Some,
        container_html(
            Container::with_child(
                container,
                ElementView::Header {
                    level: header_level(n)->0,
                    text,
                    attributes: Seq::empty(),
                },
            ),
        ) == open_tag(container.tag.tag(), container.attributes) + elements_html(
            container.children,
        ) + ("<h"@.push(digit(n)) + ">"@ + escape(text) + "</h"@.push(digit(n)) + ">"@) + close_tag(
            container.tag.tag(),
        ),
{
    let node = ElementView::Header { level: header_level(n)->0, text, attributes: Seq::empty() };
    lemma_header_html(n, text);
    lemma_elements_html_push(container.children, node);
    assert(container_html(Container::with_child(container, node)) =~= open_tag(
        container.tag.tag(),
        container.attributes,
    ) + elements_html(container.children) + element_html(node) + close_tag(container.tag.tag()));
}

/// Text that is rendered as content holds no `<`, no `>` and no `"`: it
/// cannot open or close a tag.
pub proof fn lemma_text_html_no_markup(text: Seq<char>)
    ensures
        forall|i: int|
            0 <= i < element_html(ElementView::Text { text }).len() ==> !is_markup(
                #[trigger] element_html(ElementView::Text { text })[i],
            ),
{
    lemma_escape_no_markup(text);
}

/// Each child of a container is rendered between the container's opening
/// and closing tag, behind its earlier and before its later siblings.
pub proof fn lemma_child_inside_container(container: ContainerView, i: int)
    requires
        0 <= i < container.children.len(),
    ensures
        container_html(container) == open_tag(container.tag.tag(), container.attributes)
            + elements_html(container.children.take(i)) + element_html(container.children[i])
            + elements_html(container.children.skip(i + 1)) + close_tag(container.tag.tag()),
{
    let children = container.children;
    lemma_elements_html_push(children.take(i), children[i]);
    lemma_elements_html_concat(children.take(i).push(children[i]), children.skip(i + 1));
    assert(children =~= children.take(i).push(children[i]) + children.skip(i + 1));
}

/// Each node of a page's body is rendered between `<body>` and `</body>`,
/// behind its earlier and before its later siblings.
pub proof fn lemma_child_inside_body(page: PageView, i: int)
    requires
        0 <= i < page.body.len(),
    ensures
        page_html(page) == "<!DOCTYPE html><html><head>"@ + heads_html(page.head)
            + "</head><body>"@ + elements_html(page.body.take(i)) + element_html(page.body[i])
            + elements_html(page.body.skip(i + 1)) + "</body></html>"@,
{
    let body = page.body;
    lemma_elements_html_push(body.take(i), body[i]);
    lemma_elements_html_concat(body.take(i).push(body[i]), body.skip(i + 1));
    assert(body =~= body.take(i).push(body[i]) + body.skip(i + 1));
}

/// A container whose only child is rendered as that child between the
/// container's tags.
pub proof fn lemma_only_child_html(
    tag: ContainerType,
    attributes: AttributesView,
    child: ElementView,
)
    ensures
        container_html(ContainerView { tag, attributes, children: seq![child] }) == open_tag(
            tag.tag(),
            attributes,
        ) + element_html(child) + close_tag(tag.tag()),
{
    assert(seq![child].drop_last() =~= Seq::<ElementView>::empty());
    assert(elements_html(seq![child]) =~= element_html(child)) by {
        reveal_with_fuel(elements_html, 2);
    }
}

/// A paragraph in a container in a container is rendered with its tags
/// nested in that order: the inner container wholly inside the outer, the
/// paragraph wholly inside the inner.
pub proof fn lemma_nested_paragraph_html(outer: ContainerType, inner: ContainerType, text: Seq<char>)
    ensures
        container_html(
            ContainerView {
                tag: outer,
                attributes: Seq::empty(),
                children: seq![
                    ElementView::Container(
                        ContainerView {
                            tag: inner,
                            attributes: Seq::empty(),
                            children: seq![
                                ElementView::Paragraph { text, attributes: Seq::empty() },
                            ],
                        },
                    ),
                ],
            },
        ) == "<"@ + outer.tag() + ">"@ + ("<"@ + inner.tag() + ">"@ + ("<p>"@ + escape(text)
            + "</p>"@) + "</"@ + inner.tag() + ">"@) + "</"@ + outer.tag() + ">"@,
{
    let paragraph = ElementView::Paragraph { text, attributes: Seq::empty() };
    let inner_view = ContainerView {
        tag: inner,
        attributes: Seq::empty(),
        children: seq![paragraph],
    };
    let outer_view = ContainerView {
        tag: outer,
        attributes: Seq::empty(),
        children: seq![ElementView::Container(inner_view)],
    };
    reveal_strlit("<");
    reveal_strlit(">");
    reveal_strlit("</");
    reveal_strlit("p");
    reveal_strlit("<p>");
    reveal_strlit("</p>");
    lemma_only_child_html(inner, Seq::empty(), paragraph);
    lemma_only_child_html(outer, Seq::empty(), ElementView::Container(inner_view));
    lemma_open_tag_without_attributes(inner.tag());
    lemma_open_tag_without_attributes(outer.tag());
    assert(element_html(paragraph) =~= "<p>"@ + escape(text) + "</p>"@);
    assert(container_html(inner_view) =~= "<"@ + inner.tag() + ">"@ + ("<p>"@ + escape(text)
        + "</p>"@) + "</"@ + inner.tag() + ">"@);
    assert(container_html(outer_view) =~= "<"@ + outer.tag() + ">"@ + container_html(inner_view)
        + "</"@ + outer.tag() + ">"@);
}

/// Two attributes with different names that are set on a container without
/// attributes are rendered in the order in which they were set, each behind
/// one space, and the tag closes right behind the quote of the last value.
pub proof fn lemma_two_attributes_html(
    container: ContainerView,
    first: (Seq<char>, Seq<char>),
    second: (Seq<char>, Seq<char>),
)
    requires
        container.attributes.len() == 0,
        first.0 != second.0,
    ensures
        container_html(
            ContainerView {
                attributes: set_attribute(
                    set_attribute(container.attributes, first.0, first.1),
                    second.0,
                    second.1,
                ),
                ..container
            },
        ) == "<"@ + container.tag.tag() + (" "@ + first.0 + "=\""@ + escape(first.1) + "\""@) + (" "@
            + second.0 + "=\""@ + escape(second.1) + "\""@) + ">"@ + elements_html(
            container.children,
        ) + close_tag(container.tag.tag()),
{
    let none = container.attributes;
    let one = set_attribute(none, first.0, first.1);
    assert(one =~= none.push(first));
    let two = set_attribute(one, second.0, second.1);
    assert(two =~= one.push(second));
    lemma_attributes_html_push(none, first);
    lemma_attributes_html_push(one, second);
    assert(attributes_html(two) =~= attribute_html(first) + attribute_html(second));
    assert(container_html(ContainerView { attributes: two, ..container }) =~= "<"@
        + container.tag.tag() + attribute_html(first) + attribute_html(second) + ">"@
        + elements_html(container.children) + close_tag(container.tag.tag()));
}

/// Nodes come out in the order in which they went in: of two nodes added
/// one after the other, the first is rendered right before the second.
pub proof fn lemma_children_in_order(nodes: Seq<ElementView>, first: ElementView, second: ElementView)
    ensures
        elements_html(nodes.push(first).push(second)) == elements_html(nodes) + element_html(first)
            + element_html(second),
{
    lemma_elements_html_push(nodes, first);
    lemma_elements_html_push(nodes.push(first), second);
}

/// Adding to the head and adding to the body do not touch each other: in
/// either order the head grows by the one node and the body by the other,
/// and the page renders with each at the end of its own section.
pub proof fn lemma_head_and_body_independent(page: PageView, node: HeadView, child: ElementView)
    ensures
        HtmlPage::with_child(HtmlPage::with_head(page, node), child) == HtmlPage::with_head(
            HtmlPage::with_child(page, child),
            node,
        ),
        HtmlPage::with_child(HtmlPage::with_head(page, node), child) == (PageView {
            head: page.head.push(node),
            body: page.body.push(child),
        }),
        page_html(HtmlPage::with_child(HtmlPage::with_head(page, node), child))
            == "<!DOCTYPE html><html><head>"@ + heads_html(page.head) + head_html(node)
            + "</head><body>"@ + elements_html(page.body) + element_html(child)
            + "</body></html>"@,
{
    lemma_heads_html_push(page.head, node);
    lemma_elements_html_push(page.body, child);
    let after = HtmlPage::with_child(HtmlPage::with_head(page, node), child);
    assert(page_html(after) =~= "<!DOCTYPE html><html><head>"@ + heads_html(page.head)
        + head_html(node) + "</head><body>"@ + elements_html(page.body) + element_html(child)
        + "</body></html>"@);
}

/// An image without further attributes renders as one tag that holds the
/// escaped source and the escaped alternative text, and is not closed.
pub proof fn lemma_image_html(src: Seq<char>, alt: Seq<char>)
    ensures
        element_html(ElementView::Image { src, alt, attributes: Seq::empty() }) == "<img src=\""@
            + escape(src) + "\" alt=\""@ + escape(alt) + "\">"@,
{
    reveal_strlit("<img");
    reveal_strlit(" ");
    reveal_strlit("src");
    reveal_strlit("alt");
    reveal_strlit("=\"");
    reveal_strlit("\"");
    reveal_strlit(">");
    reveal_strlit("<img src=\"");
    reveal_strlit("\" alt=\"");
    reveal_strlit("\">");
    assert(element_html(ElementView::Image { src, alt, attributes: Seq::empty() })
        =~= "<img src=\""@ + escape(src) + "\" alt=\""@ + escape(alt) + "\">"@);
}

} // verus!
