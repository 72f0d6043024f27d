use html_gen::escape::{escape_html, push_escaped, write_escaped};
use html_gen::tag::{write_close_tag, write_open_tag};
use html_gen::Attributes;

#[test]
fn plain_text_is_unchanged() {
    assert_eq!(escape_html("hello, world"), "hello, world");
    assert_eq!(escape_html(""), "");
    assert_eq!(escape_html("a;b'c/d"), "a;b'c/d");
}

#[test]
fn each_reserved_character() {
    assert_eq!(escape_html("&"), "&amp;");
    assert_eq!(escape_html("<"), "&lt;");
    assert_eq!(escape_html(">"), "&gt;");
    assert_eq!(escape_html("\""), "&quot;");
}

#[test]
fn mixed_text() {
    assert_eq!(
        escape_html("if a < b && b > \"c\" then"),
        "if a &lt; b &amp;&amp; b &gt; &quot;c&quot; then"
    );
}

#[test]
fn escaping_is_not_undone_by_escaping_again() {
    assert_eq!(escape_html("&lt;"), "&amp;lt;");
    assert_eq!(escape_html(&escape_html("<")), "&amp;lt;");
}

#[test]
fn different_texts_escape_differently() {
    assert_ne!(escape_html("&lt;"), escape_html("<"));
    assert_ne!(escape_html("a&"), escape_html("a&amp;"));
}

#[test]
fn unicode_is_kept() {
    assert_eq!(escape_html("é<ß>✓"), "é&lt;ß&gt;✓");
}

#[test]
fn push_escaped_appends_one_character() {
    let mut out = String::from("x");
    push_escaped(&mut out, 'a');
    push_escaped(&mut out, '<');
    push_escaped(&mut out, '&');
    push_escaped(&mut out, '>');
    push_escaped(&mut out, '"');
    push_escaped(&mut out, 'z');
    assert_eq!(out, "xa&lt;&amp;&gt;&quot;z");
}

#[test]
fn write_escaped_appends() {
    let mut out = String::from("<p>");
    write_escaped(&mut out, "1 < 2");
    assert_eq!(out, "<p>1 &lt; 2");
}

#[test]
fn open_and_close_tag() {
    let mut out = String::new();
    write_open_tag(&mut out, "div", &Attributes::new());
    write_close_tag(&mut out, "div");
    assert_eq!(out, "<div></div>");
    let mut out = String::from("x");
    write_open_tag(&mut out, "p", &Attributes::new().set("id", "a").set("class", "b"));
    assert_eq!(out, "x<p id=\"a\" class=\"b\">");
}
