//! Tags known to the renderer and the HTML they produce.
use super::element::{Element, ElementV};
use crate::text::{push_str, to_chars};
use crate::weburl::{is_web_scheme, parse_url, url_parse, web_scheme, ParsedUrl};
use vstd::prelude::*;

pub mod embed;

verus! {

/// Tags known to the renderer.
#[derive(Debug, PartialEq, Eq, Structural, Clone, Copy)]
pub enum Tag {
    // Unique Tags
    Invalid,
    Linebreak,
    HorizontalRule,
    Plain,

    // Inline Tags
    Bold,
    Italics,
    Underline,
    Strikethrough,

    // Block Tags
    Code,

    // Embed Tags
    Image,
    Link,
}

/// The tag a name stands for (names are case-sensitive).
pub open spec fn tag_of(name: Seq<char>) -> Tag {
    if name == seq!['b'] { Tag::Bold }
    else if name == seq!['b', 'r'] { Tag::Linebreak }
    else if name == seq!['c', 'o', 'd', 'e'] { Tag::Code }
    else if name == seq!['h', 'r'] { Tag::HorizontalRule }
    else if name == seq!['i'] { Tag::Italics }
    else if name == seq!['i', 'm', 'g'] { Tag::Image }
    else if name == seq!['p', 'l', 'a', 'i', 'n'] { Tag::Plain }
    else if name == seq!['s'] { Tag::Strikethrough }
    else if name == seq!['u'] { Tag::Underline }
    else if name == seq!['u', 'r', 'l'] { Tag::Link }
    else { Tag::Invalid }
}

/// The tag a name stands for.
pub fn get_tag_by_name(tag: &str) -> (t: Tag)
    ensures
        t == tag_of(tag@),
{
    let c = to_chars(tag);
    let n = c.len();
    if n == 1 && c[0] == 'b' {
        assert(c@ =~= seq!['b']);
        Tag::Bold
    } else if n == 2 && c[0] == 'b' && c[1] == 'r' {
        assert(c@ =~= seq!['b', 'r']);
        Tag::Linebreak
    } else if n == 4 && c[0] == 'c' && c[1] == 'o' && c[2] == 'd' && c[3] == 'e' {
        assert(c@ =~= seq!['c', 'o', 'd', 'e']);
        Tag::Code
    } else if n == 2 && c[0] == 'h' && c[1] == 'r' {
        assert(c@ =~= seq!['h', 'r']);
        Tag::HorizontalRule
    } else if n == 1 && c[0] == 'i' {
        assert(c@ =~= seq!['i']);
        Tag::Italics
    } else if n == 3 && c[0] == 'i' && c[1] == 'm' && c[2] == 'g' {
        assert(c@ =~= seq!['i', 'm', 'g']);
        Tag::Image
    } else if n == 5 && c[0] == 'p' && c[1] == 'l' && c[2] == 'a' && c[3] == 'i' && c[4] == 'n' {
        assert(c@ =~= seq!['p', 'l', 'a', 'i', 'n']);
        Tag::Plain
    } else if n == 1 && c[0] == 's' {
        assert(c@ =~= seq!['s']);
        Tag::Strikethrough
    } else if n == 1 && c[0] == 'u' {
        assert(c@ =~= seq!['u']);
        Tag::Underline
    } else if n == 3 && c[0] == 'u' && c[1] == 'r' && c[2] == 'l' {
        assert(c@ =~= seq!['u', 'r', 'l']);
        Tag::Link
    } else {
        assert(tag_of(c@) == Tag::Invalid) by {
            if c@.len() == 1 { assert(c@ =~= seq![c@[0]]); }
            if c@.len() == 2 { assert(c@ =~= seq![c@[0], c@[1]]); }
            if c@.len() == 3 { assert(c@ =~= seq![c@[0], c@[1], c@[2]]); }
            if c@.len() == 4 { assert(c@ =~= seq![c@[0], c@[1], c@[2], c@[3]]); }
            if c@.len() == 5 { assert(c@ =~= seq![c@[0], c@[1], c@[2], c@[3], c@[4]]); }
        }
        Tag::Invalid
    }
}

/// `<tag>`
pub open spec fn open_simple(tag: Seq<char>) -> Seq<char> {
    seq!['<'] + tag + seq!['>']
}

/// `</tag>`
pub open spec fn close_simple(tag: Seq<char>) -> Seq<char> {
    seq!['<', '/'] + tag + seq!['>']
}

/// `<tag />`
pub open spec fn self_closing(tag: Seq<char>) -> Seq<char> {
    seq!['<'] + tag + seq![' ', '/', '>']
}

/// Returns <tagname>
pub fn open_simple_tag(tag: &str) -> (s: String)
    ensures
        s@ == open_simple(tag@),
{
    let mut s = String::new();
    push_str(&mut s, "<");
    push_str(&mut s, tag);
    push_str(&mut s, ">");
    proof { reveal_strlit("<"); reveal_strlit(">"); }
    s
}

/// Returns </tagname>
pub fn close_simple_tag(tag: &str) -> (s: String)
    ensures
        s@ == close_simple(tag@),
{
    let mut s = String::new();
    push_str(&mut s, "</");
    push_str(&mut s, tag);
    push_str(&mut s, ">");
    proof { reveal_strlit("</"); reveal_strlit(">"); }
    s
}

/// Returns <tagname />
pub fn self_closing_tag(tag: &str) -> (s: String)
    ensures
        s@ == self_closing(tag@),
{
    let mut s = String::new();
    push_str(&mut s, "<");
    push_str(&mut s, tag);
    push_str(&mut s, " />");
    proof { reveal_strlit("<"); reveal_strlit(" />"); }
    s
}

/// `<img src="URL" />`
pub open spec fn img_element(url: Seq<char>) -> Seq<char> {
    seq!['<', 'i', 'm', 'g', ' ', 's', 'r', 'c', '=', '"'] + url + seq!['"', ' ', '/', '>']
}

/// `<a href="URL" rel="nofollow">URL</a>`
pub open spec fn link_element(url: Seq<char>) -> Seq<char> {
    seq!['<', 'a', ' ', 'h', 'r', 'e', 'f', '=', '"'] + url
        + seq!['"', ' ', 'r', 'e', 'l', '=', '"', 'n', 'o', 'f', 'o', 'l', 'l', 'o', 'w', '"', '>']
        + url + seq!['<', '/', 'a', '>']
}

/// The raw BbCode of an embed tag that could not be rendered: `[name]`, the
/// contents, and `[/name]` when the tag was closed explicitly.
pub open spec fn broken_embed(name: Seq<char>, contents: Seq<char>, explicit: bool) -> Seq<char> {
    seq!['['] + name + seq![']'] + contents + if explicit {
        seq!['[', '/'] + name + seq![']']
    } else {
        Seq::empty()
    }
}

/// An embed tag whose URL is its contents: nothing when it is empty, the HTML of
/// `element` when the contents parse as an `http` or `https` URL (given `parsed`),
/// otherwise the raw BbCode.
pub open spec fn embed_html(
    name: Seq<char>,
    contents: Option<Seq<char>>,
    parsed: Option<(Seq<char>, Seq<char>)>,
    explicit: bool,
    is_link: bool,
) -> Seq<char> {
    match contents {
        None => Seq::empty(),
        Some(c) => if c.len() == 0 {
            Seq::empty()
        } else {
            match parsed {
                Some((scheme, ser)) => if is_web_scheme(scheme) {
                    if is_link { link_element(ser) } else { img_element(ser) }
                } else {
                    broken_embed(name, c, explicit)
                },
                None => broken_embed(name, c, explicit),
            }
        },
    }
}

/// The scheme and serialization of a parsed URL.
pub open spec fn parsed_view(p: Option<ParsedUrl>) -> Option<(Seq<char>, Seq<char>)> {
    match p {
        Some(u) => Some((u.scheme@, u.serialization@)),
        None => None,
    }
}

/// What opening an embed tag (`[img]` or `[url]`, named `name`) gives and makes
/// of its element, given `parsed`, what parsing its contents as a URL gave:
/// for an `http` or `https` URL, the HTML of the embed and the element without
/// contents; otherwise `[name]` and the contents, and the element marked broken.
pub open spec fn open_embed_parsed(
    name: Seq<char>,
    el: ElementV,
    parsed: Option<(Seq<char>, Seq<char>)>,
    is_link: bool,
) -> (Seq<char>, ElementV) {
    let broken = (
        seq!['['] + name + seq![']'] + match el.contents {
            Some(c) => c,
            None => Seq::empty(),
        },
        ElementV { is_broken: true, ..el },
    );
    match parsed {
        Some((scheme, ser)) => if is_web_scheme(scheme) {
            (if is_link { link_element(ser) } else { img_element(ser) }, ElementV { contents: None, ..el })
        } else {
            broken
        },
        None => broken,
    }
}

/// What opening an embed tag gives and makes of its element, its contents
/// parsed as a URL (`open_embed_parsed`); without contents it is broken.
pub open spec fn open_embed(name: Seq<char>, el: ElementV, is_link: bool) -> (Seq<char>, ElementV) {
    open_embed_parsed(name, el, match el.contents {
        Some(c) => url_parse(c),
        None => None,
    }, is_link)
}

/// Opens an embed tag named `name` given what parsing its contents as a URL
/// gave (`open_embed_parsed`).
pub fn open_embed_from_parsed(name: &str, el: &mut Element, parsed: Option<ParsedUrl>, is_link: bool) -> (s: String)
    ensures
        (s@, final(el)@) == open_embed_parsed(name@, old(el)@, parsed_view(parsed), is_link),
{
    proof {
        reveal_strlit("<img src=\"");
        reveal_strlit("\" />");
        reveal_strlit("<a href=\"");
        reveal_strlit("\" rel=\"nofollow\">");
        reveal_strlit("</a>");
        reveal_strlit("[");
        reveal_strlit("]");
    }
    let mut s = String::new();
    match &parsed {
        Some(u) => {
            if web_scheme(u.scheme.as_str()) {
                if is_link {
                    push_str(&mut s, "<a href=\"");
                    push_str(&mut s, u.serialization.as_str());
                    push_str(&mut s, "\" rel=\"nofollow\">");
                    push_str(&mut s, u.serialization.as_str());
                    push_str(&mut s, "</a>");
                    assert(s@ =~= link_element(u.serialization@));
                } else {
                    push_str(&mut s, "<img src=\"");
                    push_str(&mut s, u.serialization.as_str());
                    push_str(&mut s, "\" />");
                    assert(s@ =~= img_element(u.serialization@));
                }
                el.clear_contents();
                return s;
            }
        },
        None => {},
    }
    push_str(&mut s, "[");
    push_str(&mut s, name);
    push_str(&mut s, "]");
    match el.get_contents() {
        Some(c) => push_str(&mut s, c.as_str()),
        None => {},
    }
    el.set_broken();
    s
}

/// Opens an embed tag named `name` (`open_embed`): parses its contents as a
/// URL, then opens it from what the parse gave.
fn open_embed_tag(name: &str, el: &mut Element, is_link: bool) -> (s: String)
    ensures
        (s@, final(el)@) == open_embed(name@, old(el)@, is_link),
{
    let parsed = match el.get_contents() {
        Some(c) => parse_url(c.as_str()),
        None => None,
    };
    open_embed_from_parsed(name, el, parsed, is_link)
}

/// Opens an `[img]` element: `<img src="URL" />` when its contents are an
/// `http` or `https` URL, its contents then cleared; otherwise `[img]` and the
/// contents, the element then marked broken.
pub fn open_img_tag(el: &mut Element) -> (s: String)
    ensures
        (s@, final(el)@) == open_embed(seq!['i', 'm', 'g'], old(el)@, false),
{
    proof { reveal_strlit("img"); }
    open_embed_tag("img", el, false)
}

/// Opens a `[url]` element: a link to its contents when they are an `http` or
/// `https` URL, its contents then cleared; otherwise `[url]` and the contents,
/// the element then marked broken.
pub fn open_url_tag(el: &mut Element) -> (s: String)
    ensures
        (s@, final(el)@) == open_embed(seq!['u', 'r', 'l'], old(el)@, true),
{
    proof { reveal_strlit("url"); }
    open_embed_tag("url", el, true)
}

} // verus!
