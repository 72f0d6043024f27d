use html_gen::{
    Attributes, Container, ContainerType, Element, HeaderLevel, Html, HtmlContainer, HtmlError,
};

fn div() -> Container {
    Container::new(ContainerType::Div)
}

#[test]
fn paragraph() {
    assert_eq!(div().add_paragraph("a < b").to_html_string(), "<div><p>a &lt; b</p></div>");
}

#[test]
fn paragraph_with_attributes() {
    let html = div()
        .add_paragraph_attr("text", Attributes::new().set("class", "lead").set("id", "intro"))
        .to_html_string();
    assert_eq!(html, "<div><p class=\"lead\" id=\"intro\">text</p></div>");
}

#[test]
fn header_with_attributes() {
    let html = div()
        .add_header_attr(2, "Title", Attributes::new().set("id", "top"))
        .unwrap()
        .to_html_string();
    assert_eq!(html, "<div><h2 id=\"top\">Title</h2></div>");
}

#[test]
fn link() {
    let html = div().add_link("/a?x=1&y=2", "go > there").to_html_string();
    assert_eq!(html, "<div><a href=\"/a?x=1&amp;y=2\">go &gt; there</a></div>");
}

#[test]
fn link_with_attributes() {
    let html = div()
        .add_link_attr("https://example.com", "site", Attributes::new().set("target", "_blank"))
        .to_html_string();
    assert_eq!(
        html,
        "<div><a href=\"https://example.com\" target=\"_blank\">site</a></div>"
    );
}

#[test]
fn image_is_void() {
    let html = div().add_image("a.png", "alt text").to_html_string();
    assert_eq!(html, "<div><img src=\"a.png\" alt=\"alt text\"></div>");
    assert!(!html.contains("</img>"));
}

#[test]
fn image_alone() {
    let image = Element::Image {
        src: "a.png".to_string(),
        alt: "alt text".to_string(),
        attributes: Attributes::new(),
    };
    assert_eq!(image.to_html_string(), "<img src=\"a.png\" alt=\"alt text\">");
}

#[test]
fn image_escapes_source_and_alternative_text() {
    let html = div().add_image("a\"b.png", "x < \"y\"").to_html_string();
    assert_eq!(
        html,
        "<div><img src=\"a&quot;b.png\" alt=\"x &lt; &quot;y&quot;\"></div>"
    );
}

#[test]
fn image_with_attributes() {
    let html = div()
        .add_image_attr("a.png", "a", Attributes::new().set("width", "10").set("height", "20"))
        .to_html_string();
    assert_eq!(
        html,
        "<div><img src=\"a.png\" alt=\"a\" width=\"10\" height=\"20\"></div>"
    );
}

#[test]
fn unordered_list() {
    let items = vec!["one".to_string(), "t&o".to_string(), "three".to_string()];
    let html = div().add_list(false, items).to_html_string();
    assert_eq!(html, "<div><ul><li>one</li><li>t&amp;o</li><li>three</li></ul></div>");
}

#[test]
fn ordered_list() {
    let items = vec!["b".to_string(), "a".to_string()];
    let html = div().add_list(true, items).to_html_string();
    assert_eq!(html, "<div><ol><li>b</li><li>a</li></ol></div>");
}

#[test]
fn empty_list() {
    assert_eq!(div().add_list(true, Vec::new()).to_html_string(), "<div><ol></ol></div>");
    assert_eq!(div().add_list(false, Vec::new()).to_html_string(), "<div><ul></ul></div>");
}

#[test]
fn list_with_attributes() {
    let html = div()
        .add_list_attr(false, vec!["x".to_string()], Attributes::new().set("class", "menu"))
        .to_html_string();
    assert_eq!(html, "<div><ul class=\"menu\"><li>x</li></ul></div>");
}

#[test]
fn raw_markup_passes_through() {
    let html = div().add_raw("<b>bold</b> & \"more\"").to_html_string();
    assert_eq!(html, "<div><b>bold</b> & \"more\"</div>");
}

#[test]
fn plain_text_is_escaped() {
    let html = div().add_text("<b>bold</b> & \"more\"").to_html_string();
    assert_eq!(
        html,
        "<div>&lt;b&gt;bold&lt;/b&gt; &amp; &quot;more&quot;</div>"
    );
}

#[test]
fn escaped_text_holds_no_markup_character() {
    let text = Element::Text { text: "a<b>c\"d&e<<>>\"\"&&".to_string() };
    let html = text.to_html_string();
    assert!(!html.contains('<'));
    assert!(!html.contains('>'));
    assert!(!html.contains('"'));
    assert_eq!(html, "a&lt;b&gt;c&quot;d&amp;e&lt;&lt;&gt;&gt;&quot;&quot;&amp;&amp;");
}

#[test]
fn text_is_escaped_once() {
    let html = div().add_text("&amp;").to_html_string();
    assert_eq!(html, "<div>&amp;amp;</div>");
}

#[test]
fn add_html_takes_any_element() {
    let html = div()
        .add_html(Element::Header {
            level: HeaderLevel::H4,
            text: "h".to_string(),
            attributes: Attributes::new(),
        })
        .add_html(Element::Raw { html: "<br>".to_string() })
        .add_html(Element::Container(Container::new(ContainerType::Nav)))
        .to_html_string();
    assert_eq!(html, "<div><h4>h</h4><br><nav></nav></div>");
}

#[test]
fn element_write_html_appends() {
    let mut out = String::from("x");
    Element::Paragraph { text: "y".to_string(), attributes: Attributes::new() }
        .write_html(&mut out);
    assert_eq!(out, "x<p>y</p>");
}

#[test]
fn header_level_from_number() {
    assert_eq!(HeaderLevel::new(1), Ok(HeaderLevel::H1));
    assert_eq!(HeaderLevel::new(2), Ok(HeaderLevel::H2));
    assert_eq!(HeaderLevel::new(3), Ok(HeaderLevel::H3));
    assert_eq!(HeaderLevel::new(4), Ok(HeaderLevel::H4));
    assert_eq!(HeaderLevel::new(5), Ok(HeaderLevel::H5));
    assert_eq!(HeaderLevel::new(6), Ok(HeaderLevel::H6));
    assert_eq!(HeaderLevel::new(0), Err(HtmlError::InvalidHeaderLevel { level: 0 }));
    assert_eq!(HeaderLevel::new(7), Err(HtmlError::InvalidHeaderLevel { level: 7 }));
    assert_eq!(HeaderLevel::new(200), Err(HtmlError::InvalidHeaderLevel { level: 200 }));
}

#[test]
fn header_level_number_and_tag() {
    let levels = [
        (HeaderLevel::H1, 1u8, "h1"),
        (HeaderLevel::H2, 2, "h2"),
        (HeaderLevel::H3, 3, "h3"),
        (HeaderLevel::H4, 4, "h4"),
        (HeaderLevel::H5, 5, "h5"),
        (HeaderLevel::H6, 6, "h6"),
    ];
    for (level, number, tag) in levels {
        assert_eq!(level.number(), number);
        assert_eq!(level.tag_name(), tag);
        assert_eq!(HeaderLevel::new(number), Ok(level));
    }
}

#[test]
fn unicode_text_is_kept() {
    let html = div().add_paragraph("grüße ✓ <日本語>").to_html_string();
    assert_eq!(html, "<div><p>grüße ✓ &lt;日本語&gt;</p></div>");
}
