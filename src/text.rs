use vstd::prelude::*;

verus! {

/// DOT escaping of one character: backslash and double quote get a
/// backslash in front, every other character stands for itself.
pub open spec fn dot_escape_char(c: char) -> Seq<char> {
    if c == '\\' {
        seq!['\\', '\\']
    } else if c == '"' {
        seq!['\\', '"']
    } else {
        seq![c]
    }
}

/// DOT escaping of a string, character by character.
pub open spec fn dot_escape(s: Seq<char>) -> Seq<char>
    decreases s.len(),
{
    if s.len() == 0 {
        Seq::empty()
    } else {
        dot_escape(s.drop_last()) + dot_escape_char(s.last())
    }
}

/// XML escaping of one character, as quick-xml's `escape` performs it.
pub open spec fn xml_escape_char(c: char) -> Seq<char> {
    if c == '<' {
        seq!['&', 'l', 't', ';']
    } else if c == '>' {
        seq!['&', 'g', 't', ';']
    } else if c == '&' {
        seq!['&', 'a', 'm', 'p', ';']
    } else if c == '\'' {
        seq!['&', 'a', 'p', 'o', 's', ';']
    } else if c == '"' {
        seq!['&', 'q', 'u', 'o', 't', ';']
    } else if c == '\r' {
        seq!['&', '#', '1', '3', ';']
    } else {
        seq![c]
    }
}

/// XML escaping of a string, character by character.
pub open spec fn xml_escape(s: Seq<char>) -> Seq<char>
    decreases s.len(),
{
    if s.len() == 0 {
        Seq::empty()
    } else {
        xml_escape(s.drop_last()) + xml_escape_char(s.last())
    }
}

/// Relies on `String::push`: appends one character.
#[verifier::external_body]
pub(crate) fn push_char(s: &mut String, c: char)
    ensures
        final(s)@ == old(s)@.push(c),
{
    s.push(c)
}

/// Relies on `quick_xml::escape::escape`: replaces `<`, `>`, `&`, `'`, `"`
/// and carriage return by their entities and keeps every other character.
#[verifier::external_body]
pub(crate) fn escape_xml(s: &str) -> (r: String)
    ensures
        r@ == xml_escape(s@),
{
    quick_xml::escape::escape(s).into_owned()
}

/// Backslash-escapes backslashes and double quotes for use inside a quoted
/// DOT identifier or attribute value.
pub fn encode(s: &str) -> (r: String)
    ensures
        r@ == dot_escape(s@),
{
    let n = s.unicode_len();
    let mut r = String::new();
    let mut i: usize = 0;
    while i < n
        invariant
            n == s@.len(),
            i <= n,
            r@ == dot_escape(s@.take(i as int)),
        decreases n - i,
    {
        let c = s.get_char(i);
        if c == '\\' {
            r.append("\\\\");
        } else if c == '"' {
            r.append("\\\"");
        } else {
            push_char(&mut r, c);
        }
        proof {
            reveal_strlit("\\\\");
            reveal_strlit("\\\"");
            assert(s@.take(i + 1).drop_last() =~= s@.take(i as int));
            assert(r@ =~= dot_escape(s@.take(i + 1)));
        }
        i = i + 1;
    }
    assert(s@.take(n as int) =~= s@);
    r
}

} // verus!
