use vstd::prelude::*;

use crate::text::{escape_xml, xml_escape};

verus! {

/// An attribute `name="value"` with a leading space and an escaped value.
pub open spec fn xml_attr(name: Seq<char>, value: Seq<char>) -> Seq<char> {
    " "@ + name + "=\""@ + xml_escape(value) + "\""@
}

/// An element whose opening tag, up to its closing `>`, is `open`: written
/// as a self-closing tag when `body` is empty.
pub open spec fn element(open: Seq<char>, name: Seq<char>, body: Seq<char>) -> Seq<char> {
    if body.len() == 0 {
        open + "/>"@
    } else {
        open + ">"@ + body + "</"@ + name + ">"@
    }
}

/// Appends ` name="value"`, escaping the value.
pub fn push_attr(r: &mut String, name: &str, value: &str)
    ensures
        final(r)@ == old(r)@ + xml_attr(name@, value@),
{
    r.append(" ");
    r.append(name);
    r.append("=\"");
    let v = escape_xml(value);
    r.append(v.as_str());
    r.append("\"");
    assert(final(r)@ =~= old(r)@ + xml_attr(name@, value@));
}

/// Appends the element with opening tag `open`, tag `name` and contents `body`.
pub fn push_element(r: &mut String, open: &str, name: &str, body: &str)
    ensures
        final(r)@ == old(r)@ + element(open@, name@, body@),
{
    r.append(open);
    if body.is_empty() {
        r.append("/>");
    } else {
        r.append(">");
        r.append(body);
        r.append("</");
        r.append(name);
        r.append(">");
    }
    assert(final(r)@ =~= old(r)@ + element(open@, name@, body@));
}

} // verus!
