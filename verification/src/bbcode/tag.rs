//! Tags known to the renderer and the HTML that opens and closes them.
use super::element::{ev_open_str, Element, ElementV};
use super::sanitation::{escape_html, SafeHtml};
use crate::text::to_chars;
use vstd::prelude::*;

pub mod embed;
pub mod font;

verus! {

/// Tags known to the renderer.
#[derive(Debug, PartialEq, Eq, Structural, Clone, Copy)]
pub enum Tag {
    // Unique Tags
    Invalid,
    Linebreak,
    HorizontalRule,
    Plain,

    // Inline Tags
    Bold,
    Color,
    Italics,
    Underline,
    Strikethrough,

    // Formatting Tags
    Code,
    Pre,

    // Embed Tags
    Image,
    Link,
}

/// `name` spells the word whose lower-case letters are `lower` and upper-case
/// letters are `upper`, each letter in either case.
pub open spec fn name_is(name: Seq<char>, lower: Seq<char>, upper: Seq<char>) -> bool {
    &&& name.len() == lower.len()
    &&& name.len() == upper.len()
    &&& forall|i: int| 0 <= i < name.len() ==> (#[trigger] name[i] == lower[i] || name[i] == upper[i])
}

/// The tag a name stands for; names are matched without regard to ASCII case.
pub open spec fn tag_kind(name: Seq<char>) -> Tag {
    if name_is(name, "b"@, "B"@) { Tag::Bold }
    else if name_is(name, "br"@, "BR"@) { Tag::Linebreak }
    else if name_is(name, "color"@, "COLOR"@) { Tag::Color }
    else if name_is(name, "code"@, "CODE"@) { Tag::Code }
    else if name_is(name, "hr"@, "HR"@) { Tag::HorizontalRule }
    else if name_is(name, "i"@, "I"@) { Tag::Italics }
    else if name_is(name, "img"@, "IMG"@) { Tag::Image }
    else if name_is(name, "plain"@, "PLAIN"@) { Tag::Plain }
    else if name_is(name, "s"@, "S"@) { Tag::Strikethrough }
    else if name_is(name, "u"@, "U"@) { Tag::Underline }
    else if name_is(name, "url"@, "URL"@) { Tag::Link }
    else { Tag::Invalid }
}

/// Whether the characters `name` spell the word given in both cases, letter by
/// letter in either case.
fn spells(name: &[char], lower: &str, upper: &str) -> (b: bool)
    ensures
        b == name_is(name@, lower@, upper@),
{
    let lo = to_chars(lower);
    let up = to_chars(upper);
    if name.len() != lo.len() || name.len() != up.len() {
        return false;
    }
    let mut i: usize = 0;
    while i < name.len()
        invariant
            lo@ == lower@,
            up@ == upper@,
            name@.len() == lo@.len(),
            name@.len() == up@.len(),
            i <= name@.len(),
            forall|k: int| 0 <= k < i ==> (#[trigger] name@[k] == lo@[k] || name@[k] == up@[k]),
        decreases name@.len() - i,
    {
        if !(name[i] == lo[i] || name[i] == up[i]) {
            return false;
        }
        i = i + 1;
    }
    true
}

/// `<tag>`
pub open spec fn open_simple(tag: Seq<char>) -> Seq<char> {
    seq!['<'] + tag + seq!['>']
}

/// `</tag>`
pub open spec fn close_simple(tag: Seq<char>) -> Seq<char> {
    seq!['<', '/'] + tag + seq!['>']
}

/// `<tag />`
pub open spec fn self_closing(tag: Seq<char>) -> Seq<char> {
    seq!['<'] + tag + seq![' ', '/', '>']
}

/// The element marked broken.
pub open spec fn ev_broken(el: ElementV) -> ElementV {
    ElementV { broken: true, ..el }
}

impl Tag {
    pub fn get_by_name(tag: &str) -> (t: Tag)
        ensures
            t == tag_kind(tag@),
    {
        let c = to_chars(tag);
        let name = c.as_slice();
        if spells(name, "b", "B") {
            Tag::Bold
        } else if spells(name, "br", "BR") {
            Tag::Linebreak
        } else if spells(name, "color", "COLOR") {
            Tag::Color
        } else if spells(name, "code", "CODE") {
            Tag::Code
        } else if spells(name, "hr", "HR") {
            Tag::HorizontalRule
        } else if spells(name, "i", "I") {
            Tag::Italics
        } else if spells(name, "img", "IMG") {
            Tag::Image
        } else if spells(name, "plain", "PLAIN") {
            Tag::Plain
        } else if spells(name, "s", "S") {
            Tag::Strikethrough
        } else if spells(name, "u", "U") {
            Tag::Underline
        } else if spells(name, "url", "URL") {
            Tag::Link
        } else {
            Tag::Invalid
        }
    }

    /// Sets el to broken, returns [tagname], escaped.
    pub fn open_broken_tag(el: &mut Element) -> (s: SafeHtml)
        ensures
            final(el)@ == ev_broken(old(el)@),
            s@ == escape_html(ev_open_str(old(el)@)),
    {
        el.set_broken();
        SafeHtml::sanitize(el.get_raw())
    }

    /// Returns <tagname>
    pub fn open_simple_tag(tag: &'static str) -> (s: SafeHtml)
        ensures
            s@ == open_simple(tag@),
    {
        proof { reveal_strlit("<"); reveal_strlit(">"); }
        let mut s = SafeHtml::with_capacity(16);
        s.push_literal("<");
        s.push_literal(tag);
        s.push_literal(">");
        s
    }

    /// Returns </tagname>
    pub fn close_simple_tag(tag: &'static str) -> (s: SafeHtml)
        ensures
            s@ == close_simple(tag@),
    {
        proof { reveal_strlit("</"); reveal_strlit(">"); }
        let mut s = SafeHtml::with_capacity(16);
        s.push_literal("</");
        s.push_literal(tag);
        s.push_literal(">");
        assert(s@ =~= close_simple(tag@));
        s
    }

    /// Returns <tagname />
    pub fn self_closing_tag(tag: &'static str) -> (s: SafeHtml)
        ensures
            s@ == self_closing(tag@),
    {
        proof { reveal_strlit("<"); reveal_strlit(" />"); }
        let mut s = SafeHtml::with_capacity(16);
        s.push_literal("<");
        s.push_literal(tag);
        s.push_literal(" />");
        assert(s@ =~= self_closing(tag@));
        s
    }
}

} // verus!
