//! HTML escaping, and the marker type for text that is already safe markup.
use vstd::prelude::*;

use crate::text::seq_lemmas::{lemma_take_all, lemma_take_step};

verus! {

/// Appends one character: `std`'s `String::push` adds `ch` at the end of the
/// string and changes nothing else.
pub assume_specification[ String::push ](s: &mut String, ch: char)
    ensures
        final(s)@ == old(s)@.push(ch),
;

/// What one character of plain text becomes in HTML.
pub open spec fn escaped_char(c: char) -> Seq<char> {
    if c == '&' {
        "&amp;"@
    } else if c == '<' {
        "&lt;"@
    } else if c == '>' {
        "&gt;"@
    } else if c == '"' {
        "&quot;"@
    } else if c == '\'' {
        "&apos;"@
    } else if c == '\u{a0}' {
        "&nbsp;"@
    } else {
        seq![c]
    }
}

/// Plain text with every character that HTML treats specially written as an
/// entity.
pub open spec fn escaped(s: Seq<char>) -> Seq<char>
    decreases s.len(),
{
    if s.len() == 0 {
        Seq::empty()
    } else {
        escaped(s.drop_last()) + escaped_char(s.last())
    }
}

/// Escape plain text for use in HTML, in element content and in quoted
/// attribute values alike.
pub fn sanitize_html(input: &str) -> (output: String)
    ensures
        output@ == escaped(input@),
{
    let mut output = String::new();
    for c in it: input.chars()
        invariant
            it.seq() == input@,
            output@ == escaped(input@.take(it.index() as int)),
    {
        proof {
            lemma_take_step(input@, it.index() as int);
        }
        match c {
            '&' => output.append("&amp;"),
            '<' => output.append("&lt;"),
            '>' => output.append("&gt;"),
            '"' => output.append("&quot;"),
            '\'' => output.append("&apos;"),
            '\u{a0}' => output.append("&nbsp;"),
            _ => {
                let ghost before = output@;
                output.push(c);
                assert(output@ =~= before + seq![c]);
            },
        }
    }
    proof {
        lemma_take_all(input@);
    }
    output
}

/// Text that is HTML markup already and is placed in a page as it stands.
#[derive(Debug, Clone)]
pub struct Html {
    markup: String,
}

impl View for Html {
    type V = Seq<char>;

    closed spec fn view(&self) -> Seq<char> {
        self.markup@
    }
}

impl Html {
    /// Declare `markup` safe. The caller vouches that it holds no unescaped
    /// text from outside.
    pub fn trust(markup: String) -> (html: Html)
        ensures
            html@ == markup@,
    {
        Html { markup }
    }

    /// The markup as a string slice.
    pub fn as_str(&self) -> (markup: &str)
        ensures
            markup@ == self@,
    {
        self.markup.as_str()
    }
}

/// Escaping works piece by piece: escaping a text is escaping its parts.
pub proof fn law_escaped_concat(a: Seq<char>, b: Seq<char>)
    ensures
        escaped(a + b) == escaped(a) + escaped(b),
    decreases b.len(),
{
    if b.len() == 0 {
        assert(a + b =~= a);
        assert(escaped(a) + escaped(b) =~= escaped(a));
    } else {
        assert((a + b).drop_last() =~= a + b.drop_last());
        law_escaped_concat(a, b.drop_last());
        assert(escaped(a + b) =~= escaped(a) + escaped(b));
    }
}

/// A character that neither opens nor closes a tag or a quoted attribute.
pub open spec fn is_inert(c: char) -> bool {
    c != '<' && c != '>' && c != '"' && c != '\''
}

/// Escaped text holds no character that could open or close a tag or a quoted
/// attribute value, whatever the text was.
pub proof fn law_escaped_is_inert(s: Seq<char>)
    ensures
        forall|i: int| 0 <= i < escaped(s).len() ==> is_inert(#[trigger] escaped(s)[i]),
    decreases s.len(),
{
    if s.len() > 0 {
        law_escaped_is_inert(s.drop_last());
        reveal_strlit("&amp;");
        reveal_strlit("&lt;");
        reveal_strlit("&gt;");
        reveal_strlit("&quot;");
        reveal_strlit("&apos;");
        reveal_strlit("&nbsp;");
        let head = escaped(s.drop_last());
        let tail = escaped_char(s.last());
        assert forall|i: int| 0 <= i < tail.len() implies is_inert(#[trigger] tail[i]) by {}
        assert forall|i: int| 0 <= i < escaped(s).len() implies is_inert(
            #[trigger] escaped(s)[i],
        ) by {
            if i < head.len() {
                assert(escaped(s)[i] == head[i]);
            } else {
                assert(escaped(s)[i] == tail[i - head.len()]);
            }
        }
    }
}

/// Text without special characters is left as it is.
pub proof fn law_escaped_plain(s: Seq<char>)
    requires
        forall|i: int|
            0 <= i < s.len() ==> is_inert(#[trigger] s[i]) && s[i] != '&' && s[i] != '\u{a0}',
    ensures
        escaped(s) == s,
    decreases s.len(),
{
    if s.len() > 0 {
        law_escaped_plain(s.drop_last());
        assert(is_inert(s[s.len() - 1]));
        assert(escaped(s) =~= s);
    }
}

} // verus!
