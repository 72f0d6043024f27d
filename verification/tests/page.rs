use html_gen::{
    Attributes, Container, ContainerType, HeadContent, Html, HtmlContainer, HtmlError, HtmlPage,
};

#[test]
fn default() {
    // Arrange
    let sut = HtmlPage::default();

    // Act
    let html_string = sut.to_html_string();

    // Assert
    assert_eq!(
        html_string,
        "<!DOCTYPE html><html><head></head><body></body></html>"
    )
}

#[test]
fn new_page_is_the_bare_envelope() {
    assert_eq!(
        HtmlPage::new().to_html_string(),
        "<!DOCTYPE html><html><head></head><body></body></html>"
    );
}

#[test]
fn page_with_title_header_and_article() {
    let html = HtmlPage::new()
        .add_title("My Page")
        .add_header(1, "Main Content:")
        .unwrap()
        .add_container(
            Container::new(ContainerType::Article)
                .add_header(2, "Hello, World")
                .unwrap()
                .add_paragraph("This is a simple HTML demo"),
        )
        .to_html_string();
    assert_eq!(
        html,
        "<!DOCTYPE html><html><head><title>My Page</title></head><body>\
         <h1>Main Content:</h1><article><h2>Hello, World</h2>\
         <p>This is a simple HTML demo</p></article></body></html>"
    );
}

#[test]
fn title_is_escaped_when_rendered() {
    let html = HtmlPage::new().add_title("Tom & Jerry <live>").to_html_string();
    assert_eq!(
        html,
        "<!DOCTYPE html><html><head><title>Tom &amp; Jerry &lt;live&gt;</title></head>\
         <body></body></html>"
    );
}

#[test]
fn head_nodes_render_in_the_order_added() {
    let html = HtmlPage::new()
        .add_meta("viewport", "width=device-width")
        .add_head_link("stylesheet", "/site.css")
        .add_style("p { color: red; }")
        .add_title("T")
        .to_html_string();
    assert_eq!(
        html,
        "<!DOCTYPE html><html><head>\
         <meta name=\"viewport\" content=\"width=device-width\">\
         <link rel=\"stylesheet\" href=\"/site.css\">\
         <style>p { color: red; }</style>\
         <title>T</title>\
         </head><body></body></html>"
    );
}

#[test]
fn meta_and_link_are_void_and_escape_their_values() {
    let html = HtmlPage::new()
        .add_meta("description", "say \"hi\" & <go>")
        .add_head_link("next", "/a?b=1&c=2")
        .to_html_string();
    assert_eq!(
        html,
        "<!DOCTYPE html><html><head>\
         <meta name=\"description\" content=\"say &quot;hi&quot; &amp; &lt;go&gt;\">\
         <link rel=\"next\" href=\"/a?b=1&amp;c=2\">\
         </head><body></body></html>"
    );
    assert!(!html.contains("</meta>"));
    assert!(!html.contains("</link>"));
}

#[test]
fn style_text_is_escaped() {
    let html = HtmlPage::new().add_style("a > b { }").to_html_string();
    assert_eq!(
        html,
        "<!DOCTYPE html><html><head><style>a &gt; b { }</style></head><body></body></html>"
    );
}

#[test]
fn head_content_with_attributes() {
    let html = HtmlPage::new()
        .add_head(HeadContent::Style {
            css: "p{}".to_string(),
            attributes: Attributes::new().set("media", "print"),
        })
        .add_head(HeadContent::Title {
            text: "T".to_string(),
            attributes: Attributes::new().set("lang", "en"),
        })
        .add_head(HeadContent::Meta {
            name: "a".to_string(),
            value: "b".to_string(),
            attributes: Attributes::new().set("lang", "en"),
        })
        .add_head(HeadContent::Link {
            rel: "icon".to_string(),
            href: "/i.png".to_string(),
            attributes: Attributes::new().set("type", "image/png"),
        })
        .to_html_string();
    assert_eq!(
        html,
        "<!DOCTYPE html><html><head>\
         <style media=\"print\">p{}</style>\
         <title lang=\"en\">T</title>\
         <meta name=\"a\" content=\"b\" lang=\"en\">\
         <link rel=\"icon\" href=\"/i.png\" type=\"image/png\">\
         </head><body></body></html>"
    );
}

#[test]
fn head_content_renders_alone() {
    let title = HeadContent::Title { text: "a<b".to_string(), attributes: Attributes::new() };
    assert_eq!(title.to_html_string(), "<title>a&lt;b</title>");
}

#[test]
fn header_levels_one_to_six() {
    let expected = [
        "<h1>T &amp; t</h1>",
        "<h2>T &amp; t</h2>",
        "<h3>T &amp; t</h3>",
        "<h4>T &amp; t</h4>",
        "<h5>T &amp; t</h5>",
        "<h6>T &amp; t</h6>",
    ];
    for level in 1u8..=6 {
        let html = HtmlPage::new()
            .add_paragraph("before")
            .add_header(level, "T & t")
            .unwrap()
            .to_html_string();
        assert_eq!(
            html,
            format!(
                "<!DOCTYPE html><html><head></head><body><p>before</p>{}</body></html>",
                expected[usize::from(level) - 1]
            )
        );
    }
}

#[test]
fn header_is_placed_where_it_was_added() {
    let html = HtmlPage::new()
        .add_paragraph("one")
        .add_header(3, "two")
        .unwrap()
        .add_paragraph("three")
        .to_html_string();
    assert_eq!(
        html,
        "<!DOCTYPE html><html><head></head><body><p>one</p><h3>two</h3><p>three</p></body></html>"
    );
}

#[test]
fn header_level_zero_is_rejected() {
    let result = HtmlPage::new().add_header(0, "x");
    assert_eq!(result.err(), Some(HtmlError::InvalidHeaderLevel { level: 0 }));
}

#[test]
fn header_level_seven_is_rejected() {
    let result = HtmlPage::new().add_header(7, "x");
    assert_eq!(result.err(), Some(HtmlError::InvalidHeaderLevel { level: 7 }));
}

#[test]
fn header_level_255_is_rejected_with_attributes_too() {
    let result = HtmlPage::new().add_header_attr(255, "x", Attributes::new().set("id", "h"));
    assert_eq!(result.err(), Some(HtmlError::InvalidHeaderLevel { level: 255 }));
}

#[test]
fn chained_calls_equal_sequential_calls() {
    let chained = HtmlPage::new().add_title("A").add_header(1, "B").unwrap();

    let page = HtmlPage::new();
    let page = page.add_title("A");
    let page = page.add_header(1, "B").unwrap();

    assert_eq!(chained.to_html_string(), page.to_html_string());
    assert_eq!(
        page.to_html_string(),
        "<!DOCTYPE html><html><head><title>A</title></head><body><h1>B</h1></body></html>"
    );
}

#[test]
fn head_and_body_do_not_mix_whatever_the_order() {
    let head_first = HtmlPage::new().add_title("A").add_paragraph("B").add_meta("m", "n");
    let body_first = HtmlPage::new().add_paragraph("B").add_title("A").add_meta("m", "n");
    let expected = "<!DOCTYPE html><html><head><title>A</title>\
                    <meta name=\"m\" content=\"n\"></head><body><p>B</p></body></html>";
    assert_eq!(head_first.to_html_string(), expected);
    assert_eq!(body_first.to_html_string(), expected);
}

#[test]
fn rendering_twice_gives_the_same_string() {
    let page = HtmlPage::new().add_title("A").add_text("x < y").add_raw("<hr>");
    let first = page.to_html_string();
    let second = page.to_html_string();
    assert_eq!(first, second);
}

#[test]
fn write_html_appends_to_what_is_there() {
    let page = HtmlPage::new().add_text("x");
    let mut out = String::from("<!-- c -->");
    page.write_html(&mut out);
    assert_eq!(
        out,
        "<!-- c --><!DOCTYPE html><html><head></head><body>x</body></html>"
    );
}

#[test]
fn error_message() {
    let error = HtmlError::InvalidHeaderLevel { level: 9 };
    assert_eq!(error.message(), "header level must be between 1 and 6");
}
