//! The pieces every tagged node is rendered from: an opening tag with its
//! attributes, and a closing tag.
use vstd::prelude::*;
use crate::attributes::{Attributes, AttributesView, attributes_html};

verus! {

/// `<name` followed by the rendered attributes and `>`.
pub open spec fn open_tag(name: Seq<char>, attributes: AttributesView) -> Seq<char> {
    "<"@ + name + attributes_html(attributes) + ">"@
}

/// `</name>`.
pub open spec fn close_tag(name: Seq<char>) -> Seq<char> {
    "</"@ + name + ">"@
}

/// Appends the opening tag `name` with `attributes` to `out`.
pub fn write_open_tag(out: &mut String, name: &str, attributes: &Attributes)
    ensures
        final(out)@ == old(out)@ + open_tag(name@, attributes@),
{
    out.append("<");
    out.append(name);
    attributes.write_html(out);
    out.append(">");
    assert(out@ =~= old(out)@ + open_tag(name@, attributes@));
}

/// Appends the closing tag `name` to `out`.
pub fn write_close_tag(out: &mut String, name: &str)
    ensures
        final(out)@ == old(out)@ + close_tag(name@),
{
    out.append("</");
    out.append(name);
    out.append(">");
    assert(out@ =~= old(out)@ + close_tag(name@));
}

} // verus!
