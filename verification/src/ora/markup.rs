//! Attribute text written to `stack.xml`.

use vstd::prelude::*;

use crate::text::{push_char, push_text};

verus! {

/// The `visibility` attribute value for a layer.
pub open spec fn visibility_name(visible: bool) -> Seq<char> {
    if visible {
        "visible"@
    } else {
        "hidden"@
    }
}

/// The `visibility` attribute value for a layer.
pub fn visibility(visible: bool) -> (r: &'static str)
    ensures
        r@ == visibility_name(visible),
{
    if visible {
        "visible"
    } else {
        "hidden"
    }
}

/// The text written for one character of an attribute value: one of the
/// five XML predefined entities, or the character itself.
pub open spec fn escape_char(c: char) -> Seq<char> {
    if c == '&' {
        "&amp;"@
    } else if c == '<' {
        "&lt;"@
    } else if c == '>' {
        "&gt;"@
    } else if c == '"' {
        "&quot;"@
    } else if c == '\'' {
        "&apos;"@
    } else {
        seq![c]
    }
}

/// `s` with every character escaped for use in an attribute value.
pub open spec fn escaped(s: Seq<char>) -> Seq<char>
    decreases s.len(),
{
    if s.len() == 0 {
        Seq::empty()
    } else {
        escaped(s.drop_last()) + escape_char(s.last())
    }
}

/// Escape the five XML predefined entities for use in an attribute value.
pub fn escape(s: &str) -> (r: String)
    ensures
        r@ == escaped(s@),
{
    let n = s.unicode_len();
    let mut out = String::new();
    let mut i: usize = 0;
    while i < n
        invariant
            n == s@.len(),
            i <= n,
            out@ == escaped(s@.subrange(0, i as int)),
        decreases n - i,
    {
        let c = s.get_char(i);
        if c == '&' {
            push_text(&mut out, "&amp;");
        } else if c == '<' {
            push_text(&mut out, "&lt;");
        } else if c == '>' {
            push_text(&mut out, "&gt;");
        } else if c == '"' {
            push_text(&mut out, "&quot;");
        } else if c == '\'' {
            push_text(&mut out, "&apos;");
        } else {
            push_char(&mut out, c);
        }
        proof {
            let t = s@.subrange(0, i + 1);
            assert(t.drop_last() =~= s@.subrange(0, i as int));
            assert(t.last() == c);
        }
        i = i + 1;
    }
    assert(s@.subrange(0, n as int) =~= s@);
    out
}

} // verus!
