use html_gen::{Container, ContainerType, Html, HtmlContainer, HtmlPage};

#[test]
fn every_container_type_has_its_tag() {
    let cases = [
        (ContainerType::Address, "address"),
        (ContainerType::Article, "article"),
        (ContainerType::Aside, "aside"),
        (ContainerType::Div, "div"),
        (ContainerType::Footer, "footer"),
        (ContainerType::Header, "header"),
        (ContainerType::Main, "main"),
        (ContainerType::Nav, "nav"),
        (ContainerType::Section, "section"),
    ];
    for (kind, tag) in cases {
        assert_eq!(kind.tag_name(), tag);
        assert_eq!(
            Container::new(kind).add_text("x").to_html_string(),
            format!("<{}>x</{}>", tag, tag)
        );
    }
}

#[test]
fn empty_container() {
    assert_eq!(Container::new(ContainerType::Section).to_html_string(), "<section></section>");
}

#[test]
fn default_container_is_a_div() {
    assert_eq!(Container::default().to_html_string(), "<div></div>");
}

#[test]
fn nested_containers_keep_their_children_inside() {
    let html = Container::new(ContainerType::Main)
        .add_container(
            Container::new(ContainerType::Section).add_paragraph("inner"),
        )
        .to_html_string();
    assert_eq!(html, "<main><section><p>inner</p></section></main>");
}

#[test]
fn siblings_do_not_leak_into_each_other() {
    let html = Container::new(ContainerType::Div)
        .add_paragraph("a")
        .add_container(
            Container::new(ContainerType::Article)
                .add_paragraph("b")
                .add_container(Container::new(ContainerType::Aside).add_paragraph("c"))
                .add_paragraph("d"),
        )
        .add_paragraph("e")
        .to_html_string();
    assert_eq!(
        html,
        "<div><p>a</p><article><p>b</p><aside><p>c</p></aside><p>d</p></article><p>e</p></div>"
    );
}

#[test]
fn container_attributes_in_insertion_order() {
    let html = Container::new(ContainerType::Div)
        .with_attribute("id", "x")
        .with_attribute("class", "y")
        .add_text("…")
        .to_html_string();
    assert_eq!(html, "<div id=\"x\" class=\"y\">…</div>");
}

#[test]
fn container_attribute_value_is_escaped() {
    let html = Container::new(ContainerType::Div)
        .with_attribute("title", "a \"b\" <c> & d")
        .to_html_string();
    assert_eq!(html, "<div title=\"a &quot;b&quot; &lt;c&gt; &amp; d\"></div>");
}

#[test]
fn setting_an_attribute_again_keeps_its_place() {
    let html = Container::new(ContainerType::Div)
        .with_attribute("id", "x")
        .with_attribute("class", "y")
        .with_attribute("id", "z")
        .to_html_string();
    assert_eq!(html, "<div id=\"z\" class=\"y\"></div>");
}

#[test]
fn attributes_may_be_set_after_children() {
    let html = Container::new(ContainerType::Nav)
        .add_link("/", "home")
        .with_attribute("class", "top")
        .to_html_string();
    assert_eq!(html, "<nav class=\"top\"><a href=\"/\">home</a></nav>");
}

#[test]
fn container_in_page_body() {
    let html = HtmlPage::new()
        .add_container(
            Container::new(ContainerType::Footer)
                .with_attribute("id", "f")
                .add_text("bye"),
        )
        .to_html_string();
    assert_eq!(
        html,
        "<!DOCTYPE html><html><head></head><body><footer id=\"f\">bye</footer></body></html>"
    );
}

#[test]
fn container_header_level_out_of_range() {
    assert!(Container::new(ContainerType::Div).add_header(0, "x").is_err());
    assert!(Container::new(ContainerType::Div).add_header(7, "x").is_err());
    assert!(Container::new(ContainerType::Div).add_header(6, "x").is_ok());
    assert!(Container::new(ContainerType::Div).add_header(1, "x").is_ok());
}

#[test]
fn container_write_html_appends() {
    let mut out = String::from("<!-- -->");
    Container::new(ContainerType::Div).add_text("x").write_html(&mut out);
    assert_eq!(out, "<!-- --><div>x</div>");
}

#[test]
fn deep_nesting() {
    let mut container = Container::new(ContainerType::Div).add_text("core");
    for _ in 0..50 {
        container = Container::new(ContainerType::Div).add_container(container);
    }
    let html = container.to_html_string();
    assert_eq!(html, format!("{}core{}", "<div>".repeat(51), "</div>".repeat(51)));
}
